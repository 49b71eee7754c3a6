//! Which records are written and read: their versions are in order, and what
//! has no place in a record is refused.

use vstd::prelude::*;

use crate::bytes;
use crate::record_laws;
use crate::records::{
    CommandDedupeRecordView, CurrentValueView, HistoryValueView, RootFenceView,
};

verus! {

/// A fence is read exactly from the 26 bytes of one: the format, the 16 bytes
/// of its shard, its generation, which is not zero, and the byte of its state.
pub proof fn fences_are_read_from_their_bytes(b: Seq<u8>)
    ensures
        RootFenceView::parse(b) is Ok <==> {
            &&& b.len() == 26
            &&& b[0] == 1
            &&& bytes::from_be64(b.subrange(17, 25)) != 0
            &&& 1 <= b[25] <= 2
        },
        RootFenceView::parse(b) matches Ok(fence) ==> fence.logical_shard_id == b.subrange(1, 17)
            && fence.placement_generation == bytes::from_be64(b.subrange(17, 25)),
{
    if b.len() >= 26 {
        let b1 = b.skip(1);
        let b2 = b1.skip(16);
        let b3 = b2.skip(8);
        assert(b1.take(16) =~= b.subrange(1, 17));
        assert(b2.take(8) =~= b.subrange(17, 25));
        assert(b3[0] == b[25]);
    }
}

/// A current value is written exactly when it was not modified before it was
/// created, neither version is zero, and its payload has a length of 32 bits.
pub proof fn current_values_are_in_order(value: CurrentValueView)
    ensures
        value.valid() <==> 0 < value.created_version <= value.modified_version
            && value.payload.len() <= 0xffff_ffff,
        value.created_version > 0 && value.modified_version > 0 ==> (value.check() is Ok
            <==> value.valid()),
{
}

/// A history value is written exactly when the previous value was not modified
/// before it was created, the transition came behind both, and the previous
/// payload, if there was one, has a length of 32 bits.
pub proof fn history_values_are_in_order(value: HistoryValueView)
    ensures
        value.valid() <==> {
            &&& 0 < value.previous_created_version <= value.previous_modified_version
            &&& value.previous_modified_version < value.transition_version
            &&& value.previous_payload matches Some(payload) ==> payload.len() <= 0xffff_ffff
        },
        value.previous_created_version > 0 ==> (value.check() is Ok <==> value.valid()),
{
}

/// The record of a command is written exactly when its digest has 32 bytes,
/// neither its version nor its place in the log is zero, and its result has a
/// length of 32 bits.
pub proof fn command_records_are_whole(record: CommandDedupeRecordView)
    ensures
        record.valid() <==> {
            &&& record.command_digest.len() == 32
            &&& record.commit_version > 0
            &&& record.recovery_lsn > 0
            &&& record.deterministic_result.len() <= 0xffff_ffff
        },
        record.command_digest.len() == 32 && record.commit_version > 0 ==> (record.check() is Ok
            <==> record.valid()),
{
}

/// What is read is what was written: bytes are a value, of whichever kind,
/// exactly when they are those of a valid one.
pub proof fn values_are_read_as_they_were_written(b: Seq<u8>)
    ensures
        CurrentValueView::parse(b) is Ok <==> exists|value: CurrentValueView|
            value.valid() && #[trigger] value.encoding() == b,
        HistoryValueView::parse(b) is Ok <==> exists|value: HistoryValueView|
            value.valid() && #[trigger] value.encoding() == b,
        CommandDedupeRecordView::parse(b) is Ok <==> exists|record: CommandDedupeRecordView|
            record.valid() && #[trigger] record.encoding() == b,
{
    record_laws::current_value_is_canonical(b);
    record_laws::history_value_is_canonical(b);
    record_laws::command_dedupe_is_canonical(b);
    assert(b + Seq::<u8>::empty() =~= b);
    if exists|value: CurrentValueView| value.valid() && #[trigger] value.encoding() == b {
        let value = choose|value: CurrentValueView|
            value.valid() && #[trigger] value.encoding() == b;
        record_laws::current_value_reads_back(value, Seq::empty());
    }
    if exists|value: HistoryValueView| value.valid() && #[trigger] value.encoding() == b {
        let value = choose|value: HistoryValueView|
            value.valid() && #[trigger] value.encoding() == b;
        record_laws::history_value_reads_back(value, Seq::empty());
    }
    if exists|record: CommandDedupeRecordView| record.valid() && #[trigger] record.encoding() == b {
        let record = choose|record: CommandDedupeRecordView|
            record.valid() && #[trigger] record.encoding() == b;
        record_laws::command_dedupe_reads_back(record, Seq::empty());
    }
}

} // verus!
