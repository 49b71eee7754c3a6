//! What holds of every durable record codec: values read back as they were
//! written, no other bytes decode to them, and a cut or extended value is
//! refused.

use vstd::prelude::*;

use crate::bytes;
use crate::records::{
    CommandDedupeRecordView, CurrentValueView, HistoryValueView, RecordCodecError, RootFenceView,
    COMMAND_DEDUPE_VALUE_FORMAT_VERSION, VALUE_FORMAT_VERSION,
};
use crate::records;

verus! {

broadcast use crate::bytes::group_big_endian;

/// The decode ended because input ran out.
pub open spec fn is_truncated<V>(result: Result<V, RecordCodecError>) -> bool {
    result matches Err(RecordCodecError::Truncated { .. })
}

/// Reading the first part of a concatenation leaves the second.
proof fn take_first_part(a: Seq<u8>, t: Seq<u8>, field: &'static str)
    ensures
        records::take_field(a + t, field, a.len()) == Ok::<(Seq<u8>, Seq<u8>), RecordCodecError>(
            (a, t),
        ),
{
    bytes::concat_splits(a, t);
}

/// Reading the first part of a cut concatenation: it is truncated when the cut
/// lies inside it, and otherwise leaves the cut second part.
proof fn take_first_part_of_cut(a: Seq<u8>, t: Seq<u8>, n: int, field: &'static str)
    requires
        0 <= n <= a.len() + t.len(),
    ensures
        n < a.len() ==> is_truncated(records::take_field((a + t).take(n), field, a.len())),
        n >= a.len() ==> records::take_field((a + t).take(n), field, a.len()) == Ok::<
            (Seq<u8>, Seq<u8>),
            RecordCodecError,
        >((a, t.take(n - a.len()))),
{
    if n >= a.len() {
        assert((a + t).take(n) =~= a + t.take(n - a.len()));
        bytes::concat_splits(a, t.take(n - a.len()));
    }
}

/// What is split off and what is left make up the input.
proof fn take_parts_join(b: Seq<u8>, field: &'static str, width: nat)
    ensures
        records::take_field(b, field, width) matches Ok((a, t)) ==> b == a + t && a.len() == width,
{
    if b.len() >= width {
        assert(b =~= b.take(width as int) + b.skip(width as int));
    }
}

/// A payload and what follows it read back.
proof fn payload_reads_back(payload: Seq<u8>, t: Seq<u8>, field: &'static str)
    requires
        payload.len() <= u32::MAX,
    ensures
        records::parse_payload(records::length_prefixed(payload) + t, field) == Ok::<
            (Seq<u8>, Seq<u8>),
            RecordCodecError,
        >((payload, t)),
{
    let head = bytes::be32(payload.len() as u32);
    bytes::be32_reads_back(payload.len() as u32);
    bytes::concat_regroups(head, payload, t);
    take_first_part(head, payload + t, field);
    take_first_part(payload, t, field);
}

/// A cut payload is truncated.
proof fn payload_cut(payload: Seq<u8>, n: int, field: &'static str)
    requires
        payload.len() <= u32::MAX,
        0 <= n < records::length_prefixed(payload).len(),
    ensures
        is_truncated(records::parse_payload(records::length_prefixed(payload).take(n), field)),
{
    let head = bytes::be32(payload.len() as u32);
    bytes::be32_reads_back(payload.len() as u32);
    take_first_part_of_cut(head, payload, n, field);
}

/// A payload that was read is what its length-prefixed form starts with.
proof fn payload_joins(b: Seq<u8>, field: &'static str)
    ensures
        records::parse_payload(b, field) matches Ok((payload, t)) ==> payload.len() <= u32::MAX && b
            == records::length_prefixed(payload) + t,
{
    take_parts_join(b, field, 4);
    match records::parse_u32(b, field) {
        Ok((length, rest)) => {
            bytes::be32_writes_back(b.take(4));
            take_parts_join(rest, field, length as nat);
            match records::take_field(rest, field, length as nat) {
                Ok((payload, t)) => {
                    bytes::concat_regroups(bytes::be32(length), payload, t);
                },
                Err(_) => {},
            }
        },
        Err(_) => {},
    }
}

/// A 64-bit integer and what follows it read back.
proof fn u64_reads_back(x: u64, t: Seq<u8>, field: &'static str)
    ensures
        records::parse_u64(bytes::be64(x) + t, field) == Ok::<(u64, Seq<u8>), RecordCodecError>(
            (x, t),
        ),
{
    bytes::be64_reads_back(x);
    take_first_part(bytes::be64(x), t, field);
}

/// A 64-bit integer that was read is what its bytes start with.
proof fn u64_joins(b: Seq<u8>, field: &'static str)
    ensures
        records::parse_u64(b, field) matches Ok((x, t)) ==> b == bytes::be64(x) + t,
{
    take_parts_join(b, field, 8);
    if b.len() >= 8 {
        bytes::be64_writes_back(b.take(8));
    }
}

/// Reading a 64-bit integer from a cut input.
proof fn u64_cut(x: u64, t: Seq<u8>, n: int, field: &'static str)
    requires
        0 <= n <= 8 + t.len(),
    ensures
        n < 8 ==> is_truncated(records::parse_u64((bytes::be64(x) + t).take(n), field)),
        n >= 8 ==> records::parse_u64((bytes::be64(x) + t).take(n), field) == Ok::<
            (u64, Seq<u8>),
            RecordCodecError,
        >((x, t.take(n - 8))),
{
    bytes::be64_reads_back(x);
    take_first_part_of_cut(bytes::be64(x), t, n, field);
}

/// One byte and what follows it read back.
proof fn u8_reads_back(x: u8, t: Seq<u8>, field: &'static str)
    ensures
        records::parse_u8(seq![x] + t, field) == Ok::<(u8, Seq<u8>), RecordCodecError>((x, t)),
{
    take_first_part(seq![x], t, field);
}

/// A byte that was read is what the input starts with.
proof fn u8_joins(b: Seq<u8>, field: &'static str)
    ensures
        records::parse_u8(b, field) matches Ok((x, t)) ==> b == seq![x] + t,
{
    take_parts_join(b, field, 1);
    if b.len() >= 1 {
        assert(b.take(1) =~= seq![b.take(1)[0]]);
    }
}

/// Reading one byte from a cut input.
proof fn u8_cut(x: u8, t: Seq<u8>, n: int, field: &'static str)
    requires
        0 <= n <= 1 + t.len(),
    ensures
        n < 1 ==> is_truncated(records::parse_u8((seq![x] + t).take(n), field)),
        n >= 1 ==> records::parse_u8((seq![x] + t).take(n), field) == Ok::<
            (u8, Seq<u8>),
            RecordCodecError,
        >((x, t.take(n - 1))),
{
    take_first_part_of_cut(seq![x], t, n, field);
}

/// Decoding the bytes of a fence gives the fence back; decoding them with
/// anything behind them is refused.
pub proof fn root_fence_reads_back(v: RootFenceView, extra: Seq<u8>)
    requires
        v.valid(),
    ensures
        extra.len() == 0 ==> RootFenceView::parse(v.encoding() + extra) == Ok::<
            RootFenceView,
            RecordCodecError,
        >(v),
        extra.len() > 0 ==> RootFenceView::parse(v.encoding() + extra) == Err::<
            RootFenceView,
            RecordCodecError,
        >(RecordCodecError::TrailingBytes { count: extra.len() as usize }),
{
    let t3 = seq![v.activation_state.byte()] + extra;
    let t2 = bytes::be64(v.placement_generation) + t3;
    let t1 = v.logical_shard_id + t2;
    bytes::regroup_5(
        seq![VALUE_FORMAT_VERSION],
        v.logical_shard_id,
        bytes::be64(v.placement_generation),
        seq![v.activation_state.byte()],
        extra,
    );
    u8_reads_back(VALUE_FORMAT_VERSION, t1, "value_format_version");
    take_first_part(v.logical_shard_id, t2, "logical_shard_id");
    u64_reads_back(v.placement_generation, t3, "placement_generation");
    u8_reads_back(v.activation_state.byte(), extra, "activation_state");
}

/// Bytes that decode to a fence are exactly its encoding.
pub proof fn root_fence_is_canonical(b: Seq<u8>)
    ensures
        RootFenceView::parse(b) matches Ok(v) ==> v.valid() && b == v.encoding(),
{
    u8_joins(b, "value_format_version");
    match records::parse_format(b, VALUE_FORMAT_VERSION) {
        Err(_) => {},
        Ok(b1) => {
            take_parts_join(b1, "logical_shard_id", 16);
            match records::take_field(b1, "logical_shard_id", 16) {
                Err(_) => {},
                Ok((shard, b2)) => {
                    u64_joins(b2, "placement_generation");
                    match records::parse_position(b2, "placement_generation") {
                        Err(_) => {},
                        Ok((generation, b3)) => {
                            u8_joins(b3, "activation_state");
                            match RootFenceView::parse(b) {
                                Ok(v) => {
                                    assert(b =~= v.encoding());
                                },
                                Err(_) => {},
                            }
                        },
                    }
                },
            }
        },
    }
}

/// Every proper prefix of a fence is truncated.
pub proof fn root_fence_prefix_is_truncated(v: RootFenceView, n: int)
    requires
        v.valid(),
        0 <= n < v.encoding().len(),
    ensures
        is_truncated(RootFenceView::parse(v.encoding().take(n))),
{
    let t3 = seq![v.activation_state.byte()] + Seq::<u8>::empty();
    let t2 = bytes::be64(v.placement_generation) + t3;
    let t1 = v.logical_shard_id + t2;
    assert(v.encoding() =~= seq![VALUE_FORMAT_VERSION] + t1);
    u8_cut(VALUE_FORMAT_VERSION, t1, n, "value_format_version");
    if n >= 1 {
        take_first_part_of_cut(v.logical_shard_id, t2, n - 1, "logical_shard_id");
        if n >= 17 {
            u64_cut(v.placement_generation, t3, n - 17, "placement_generation");
            if n >= 25 {
                u8_cut(
                    v.activation_state.byte(),
                    Seq::<u8>::empty(),
                    n - 25,
                    "activation_state",
                );
            }
        }
    }
}

/// Decoding the bytes of a current value gives the value back; decoding them
/// with anything behind them is refused.
pub proof fn current_value_reads_back(v: CurrentValueView, extra: Seq<u8>)
    requires
        v.valid(),
    ensures
        extra.len() == 0 ==> CurrentValueView::parse(v.encoding() + extra) == Ok::<
            CurrentValueView,
            RecordCodecError,
        >(v),
        extra.len() > 0 ==> CurrentValueView::parse(v.encoding() + extra) == Err::<
            CurrentValueView,
            RecordCodecError,
        >(RecordCodecError::TrailingBytes { count: extra.len() as usize }),
{
    let t3 = records::length_prefixed(v.payload) + extra;
    let t2 = bytes::be64(v.modified_version) + t3;
    let t1 = bytes::be64(v.created_version) + t2;
    bytes::regroup_5(
        seq![VALUE_FORMAT_VERSION],
        bytes::be64(v.created_version),
        bytes::be64(v.modified_version),
        records::length_prefixed(v.payload),
        extra,
    );
    u8_reads_back(VALUE_FORMAT_VERSION, t1, "value_format_version");
    u64_reads_back(v.created_version, t2, "created_version");
    u64_reads_back(v.modified_version, t3, "modified_version");
    payload_reads_back(v.payload, extra, "payload");
}

/// Bytes that decode to a current value are exactly its encoding.
pub proof fn current_value_is_canonical(b: Seq<u8>)
    ensures
        CurrentValueView::parse(b) matches Ok(v) ==> v.valid() && b == v.encoding(),
{
    u8_joins(b, "value_format_version");
    match records::parse_format(b, VALUE_FORMAT_VERSION) {
        Err(_) => {},
        Ok(b1) => {
            u64_joins(b1, "created_version");
            match records::parse_position(b1, "created_version") {
                Err(_) => {},
                Ok((created, b2)) => {
                    u64_joins(b2, "modified_version");
                    match records::parse_position(b2, "modified_version") {
                        Err(_) => {},
                        Ok((modified, b3)) => {
                            payload_joins(b3, "payload");
                            match CurrentValueView::parse(b) {
                                Ok(v) => {
                                    assert(b =~= v.encoding());
                                },
                                Err(_) => {},
                            }
                        },
                    }
                },
            }
        },
    }
}

/// Every proper prefix of a current value is truncated.
pub proof fn current_value_prefix_is_truncated(v: CurrentValueView, n: int)
    requires
        v.valid(),
        0 <= n < v.encoding().len(),
    ensures
        is_truncated(CurrentValueView::parse(v.encoding().take(n))),
{
    let t3 = records::length_prefixed(v.payload);
    let t2 = bytes::be64(v.modified_version) + t3;
    let t1 = bytes::be64(v.created_version) + t2;
    assert(v.encoding() =~= seq![VALUE_FORMAT_VERSION] + t1);
    u8_cut(VALUE_FORMAT_VERSION, t1, n, "value_format_version");
    if n >= 1 {
        u64_cut(v.created_version, t2, n - 1, "created_version");
        if n >= 9 {
            u64_cut(v.modified_version, t3, n - 9, "modified_version");
            if n >= 17 {
                payload_cut(v.payload, n - 17, "payload");
            }
        }
    }
}

/// Decoding the bytes of a history value gives the value back, so that a
/// tombstone and an empty payload stay distinct; decoding them with anything
/// behind them is refused.
pub proof fn history_value_reads_back(v: HistoryValueView, extra: Seq<u8>)
    requires
        v.valid(),
    ensures
        extra.len() == 0 ==> HistoryValueView::parse(v.encoding() + extra) == Ok::<
            HistoryValueView,
            RecordCodecError,
        >(v),
        extra.len() > 0 ==> HistoryValueView::parse(v.encoding() + extra) == Err::<
            HistoryValueView,
            RecordCodecError,
        >(RecordCodecError::TrailingBytes { count: extra.len() as usize }),
{
    let t4 = v.payload_encoding() + extra;
    let t3 = bytes::be64(v.previous_modified_version) + t4;
    let t2 = bytes::be64(v.previous_created_version) + t3;
    let t1 = bytes::be64(v.transition_version) + t2;
    bytes::regroup_6(
        seq![VALUE_FORMAT_VERSION],
        bytes::be64(v.transition_version),
        bytes::be64(v.previous_created_version),
        bytes::be64(v.previous_modified_version),
        v.payload_encoding(),
        extra,
    );
    u8_reads_back(VALUE_FORMAT_VERSION, t1, "value_format_version");
    u64_reads_back(v.transition_version, t2, "transition_version");
    u64_reads_back(v.previous_created_version, t3, "previous_created_version");
    u64_reads_back(v.previous_modified_version, t4, "previous_modified_version");
    match v.previous_payload {
        None => {
            u8_reads_back(0, extra, "previous_payload tag");
        },
        Some(payload) => {
            let t5 = records::length_prefixed(payload) + extra;
            bytes::concat_regroups(seq![1u8], records::length_prefixed(payload), extra);
            u8_reads_back(1, t5, "previous_payload tag");
            payload_reads_back(payload, extra, "previous_payload");
        },
    }
}

/// Bytes that decode to a history value are exactly its encoding.
pub proof fn history_value_is_canonical(b: Seq<u8>)
    ensures
        HistoryValueView::parse(b) matches Ok(v) ==> v.valid() && b == v.encoding(),
{
    u8_joins(b, "value_format_version");
    match records::parse_format(b, VALUE_FORMAT_VERSION) {
        Err(_) => {},
        Ok(b1) => {
            u64_joins(b1, "transition_version");
            match records::parse_position(b1, "transition_version") {
                Err(_) => {},
                Ok((transition, b2)) => {
                    u64_joins(b2, "previous_created_version");
                    match records::parse_position(b2, "previous_created_version") {
                        Err(_) => {},
                        Ok((created, b3)) => {
                            u64_joins(b3, "previous_modified_version");
                            match records::parse_position(b3, "previous_modified_version") {
                                Err(_) => {},
                                Ok((modified, b4)) => {
                                    u8_joins(b4, "previous_payload tag");
                                    match records::parse_u8(b4, "previous_payload tag") {
                                        Err(_) => {},
                                        Ok((tag, b5)) => {
                                            payload_joins(b5, "previous_payload");
                                        },
                                    }
                                    match HistoryValueView::parse(b) {
                                        Ok(v) => {
                                            assert(b =~= v.encoding());
                                        },
                                        Err(_) => {},
                                    }
                                },
                            }
                        },
                    }
                },
            }
        },
    }
}

/// Every proper prefix of a history value is truncated.
pub proof fn history_value_prefix_is_truncated(v: HistoryValueView, n: int)
    requires
        v.valid(),
        0 <= n < v.encoding().len(),
    ensures
        is_truncated(HistoryValueView::parse(v.encoding().take(n))),
{
    let t4 = v.payload_encoding();
    let t3 = bytes::be64(v.previous_modified_version) + t4;
    let t2 = bytes::be64(v.previous_created_version) + t3;
    let t1 = bytes::be64(v.transition_version) + t2;
    assert(v.encoding() =~= seq![VALUE_FORMAT_VERSION] + t1);
    u8_cut(VALUE_FORMAT_VERSION, t1, n, "value_format_version");
    if n >= 1 {
        u64_cut(v.transition_version, t2, n - 1, "transition_version");
        if n >= 9 {
            u64_cut(v.previous_created_version, t3, n - 9, "previous_created_version");
            if n >= 17 {
                u64_cut(v.previous_modified_version, t4, n - 17, "previous_modified_version");
                if n >= 25 {
                    match v.previous_payload {
                        None => {
                            assert(t4 =~= seq![0u8] + Seq::<u8>::empty());
                            u8_cut(0, Seq::<u8>::empty(), n - 25, "previous_payload tag");
                        },
                        Some(payload) => {
                            let t5 = records::length_prefixed(payload);
                            u8_cut(1, t5, n - 25, "previous_payload tag");
                            if n >= 26 {
                                payload_cut(payload, n - 26, "previous_payload");
                            }
                        },
                    }
                }
            }
        }
    }
}

/// Decoding the bytes of a replay record gives the record back; decoding them
/// with anything behind them is refused.
pub proof fn command_dedupe_reads_back(v: CommandDedupeRecordView, extra: Seq<u8>)
    requires
        v.valid(),
    ensures
        extra.len() == 0 ==> CommandDedupeRecordView::parse(v.encoding() + extra) == Ok::<
            CommandDedupeRecordView,
            RecordCodecError,
        >(v),
        extra.len() > 0 ==> CommandDedupeRecordView::parse(v.encoding() + extra) == Err::<
            CommandDedupeRecordView,
            RecordCodecError,
        >(RecordCodecError::TrailingBytes { count: extra.len() as usize }),
{
    let t4 = records::length_prefixed(v.deterministic_result) + extra;
    let t3 = bytes::be64(v.recovery_lsn) + t4;
    let t2 = bytes::be64(v.commit_version) + t3;
    let t1 = v.command_digest + t2;
    bytes::regroup_6(
        seq![COMMAND_DEDUPE_VALUE_FORMAT_VERSION],
        v.command_digest,
        bytes::be64(v.commit_version),
        bytes::be64(v.recovery_lsn),
        records::length_prefixed(v.deterministic_result),
        extra,
    );
    u8_reads_back(COMMAND_DEDUPE_VALUE_FORMAT_VERSION, t1, "value_format_version");
    take_first_part(v.command_digest, t2, "command_digest");
    u64_reads_back(v.commit_version, t3, "commit_version");
    u64_reads_back(v.recovery_lsn, t4, "recovery_lsn");
    payload_reads_back(v.deterministic_result, extra, "deterministic_result");
}

/// Bytes that decode to a replay record are exactly its encoding.
pub proof fn command_dedupe_is_canonical(b: Seq<u8>)
    ensures
        CommandDedupeRecordView::parse(b) matches Ok(v) ==> v.valid() && b == v.encoding(),
{
    u8_joins(b, "value_format_version");
    match records::parse_format(b, COMMAND_DEDUPE_VALUE_FORMAT_VERSION) {
        Err(_) => {},
        Ok(b1) => {
            take_parts_join(b1, "command_digest", 32);
            match records::take_field(b1, "command_digest", 32) {
                Err(_) => {},
                Ok((digest, b2)) => {
                    u64_joins(b2, "commit_version");
                    match records::parse_position(b2, "commit_version") {
                        Err(_) => {},
                        Ok((version, b3)) => {
                            u64_joins(b3, "recovery_lsn");
                            match records::parse_position(b3, "recovery_lsn") {
                                Err(_) => {},
                                Ok((lsn, b4)) => {
                                    payload_joins(b4, "deterministic_result");
                                    match CommandDedupeRecordView::parse(b) {
                                        Ok(v) => {
                                            assert(b =~= v.encoding());
                                        },
                                        Err(_) => {},
                                    }
                                },
                            }
                        },
                    }
                },
            }
        },
    }
}

/// Every proper prefix of a replay record is truncated.
pub proof fn command_dedupe_prefix_is_truncated(v: CommandDedupeRecordView, n: int)
    requires
        v.valid(),
        0 <= n < v.encoding().len(),
    ensures
        is_truncated(CommandDedupeRecordView::parse(v.encoding().take(n))),
{
    let t4 = records::length_prefixed(v.deterministic_result);
    let t3 = bytes::be64(v.recovery_lsn) + t4;
    let t2 = bytes::be64(v.commit_version) + t3;
    let t1 = v.command_digest + t2;
    assert(v.encoding() =~= seq![COMMAND_DEDUPE_VALUE_FORMAT_VERSION] + t1);
    u8_cut(COMMAND_DEDUPE_VALUE_FORMAT_VERSION, t1, n, "value_format_version");
    if n >= 1 {
        take_first_part_of_cut(v.command_digest, t2, n - 1, "command_digest");
        if n >= 33 {
            u64_cut(v.commit_version, t3, n - 33, "commit_version");
            if n >= 41 {
                u64_cut(v.recovery_lsn, t4, n - 41, "recovery_lsn");
                if n >= 49 {
                    payload_cut(v.deterministic_result, n - 49, "deterministic_result");
                }
            }
        }
    }
}

/// A root fence whose first byte is not the supported format version is refused.
pub proof fn root_fence_refuses_other_versions(b: Seq<u8>)
    requires
        b.len() > 0,
        b[0] != VALUE_FORMAT_VERSION,
    ensures
        RootFenceView::parse(b) == Err::<RootFenceView, RecordCodecError>(
            RecordCodecError::UnsupportedValueVersion {
                actual: b[0],
                expected: VALUE_FORMAT_VERSION,
            },
        ),
{
}

/// A current value whose first byte is not the supported format version is refused.
pub proof fn current_value_refuses_other_versions(b: Seq<u8>)
    requires
        b.len() > 0,
        b[0] != VALUE_FORMAT_VERSION,
    ensures
        CurrentValueView::parse(b) == Err::<CurrentValueView, RecordCodecError>(
            RecordCodecError::UnsupportedValueVersion {
                actual: b[0],
                expected: VALUE_FORMAT_VERSION,
            },
        ),
{
}

/// A history value whose first byte is not the supported format version is refused.
pub proof fn history_value_refuses_other_versions(b: Seq<u8>)
    requires
        b.len() > 0,
        b[0] != VALUE_FORMAT_VERSION,
    ensures
        HistoryValueView::parse(b) == Err::<HistoryValueView, RecordCodecError>(
            RecordCodecError::UnsupportedValueVersion {
                actual: b[0],
                expected: VALUE_FORMAT_VERSION,
            },
        ),
{
}

/// A command dedupe record whose first byte is not the supported format version is refused.
pub proof fn command_dedupe_refuses_other_versions(b: Seq<u8>)
    requires
        b.len() > 0,
        b[0] != COMMAND_DEDUPE_VALUE_FORMAT_VERSION,
    ensures
        CommandDedupeRecordView::parse(b) == Err::<CommandDedupeRecordView, RecordCodecError>(
            RecordCodecError::UnsupportedValueVersion {
                actual: b[0],
                expected: COMMAND_DEDUPE_VALUE_FORMAT_VERSION,
            },
        ),
{
}

} // verus!
