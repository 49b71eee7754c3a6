//! What the digests of the Generic index are taken over: every part of what
//! they stand for, so that different things hash different messages.

use vstd::prelude::*;

use crate::bytes;
use crate::digest;
use crate::generic_index_digests;
use crate::generic_index_format;
use crate::generic_index_laws;
use crate::generic_index_records::GenericIndexRowRecordView;

verus! {

/// A rolling digest takes in the digest so far and the next one: chains that
/// differ in either, or in what they are chains of, hash different messages.
pub proof fn chains_take_in_every_digest(
    a: &str,
    previous: Seq<u8>,
    next: Seq<u8>,
    b: &str,
    other_previous: Seq<u8>,
    other_next: Seq<u8>,
)
    requires
        previous.len() == 32,
        other_previous.len() == 32,
        bytes::utf8(a@).len() <= u64::MAX,
        bytes::utf8(b@).len() <= u64::MAX,
        generic_index_digests::chain_message(a, previous, next)
            == generic_index_digests::chain_message(b, other_previous, other_next),
    ensures
        a@ == b@,
        previous == other_previous,
        next == other_next,
{
    bytes::concat_regroups(digest::framed(bytes::utf8(a@)), previous, next);
    bytes::concat_regroups(digest::framed(bytes::utf8(b@)), other_previous, other_next);
    if a@ != b@ {
        digest::domains_are_separate(a@, previous + next, b@, other_previous + other_next);
    }
    digest::framed_parts_are_unique(
        bytes::utf8(a@),
        previous + next,
        bytes::utf8(b@),
        other_previous + other_next,
    );
    digest::concat_parts_are_unique(previous, next, other_previous, other_next);
}

/// Owners of different kinds, or with different identities, hash different
/// messages.
pub proof fn owners_are_told_apart(a: &str, owner: Seq<u8>, b: &str, other: Seq<u8>)
    requires
        bytes::utf8(a@).len() <= u64::MAX,
        bytes::utf8(b@).len() <= u64::MAX,
        owner.len() <= u64::MAX,
        other.len() <= u64::MAX,
        generic_index_digests::fixed_owner_message(a, owner)
            == generic_index_digests::fixed_owner_message(b, other),
    ensures
        a@ == b@,
        owner == other,
{
    if a@ != b@ {
        digest::domains_are_separate(a@, digest::framed(owner), b@, digest::framed(other));
    }
    digest::framed_parts_are_unique(
        bytes::utf8(a@),
        digest::framed(owner),
        bytes::utf8(b@),
        digest::framed(other),
    );
    assert(digest::framed(owner) + Seq::empty() =~= digest::framed(owner));
    assert(digest::framed(other) + Seq::empty() =~= digest::framed(other));
    digest::framed_parts_are_unique(owner, Seq::empty(), other, Seq::empty());
}

/// What the caller gave for a row shows its path and its values: valid rows
/// with the same input have the same.
pub proof fn row_inputs_show_paths_and_values(
    a: GenericIndexRowRecordView,
    b: GenericIndexRowRecordView,
)
    requires
        a.sized(),
        b.sized(),
        a.check() is Ok,
        b.check() is Ok,
        generic_index_digests::row_input(a) == generic_index_digests::row_input(b),
    ensures
        a.relative_path == b.relative_path,
        a.values == b.values,
{
    let p = generic_index_format::optional_text(a.relative_path);
    let q = generic_index_format::optional_text(b.relative_path);
    let t = generic_index_format::row_fields_encoding(a.values);
    let u = generic_index_format::row_fields_encoding(b.values);
    let head = seq![crate::generic_index_records::GENERIC_INDEX_VALUE_FORMAT_VERSION];
    bytes::concat_regroups(head, p, t);
    bytes::concat_regroups(head, q, u);
    digest::concat_parts_are_unique(head, p + t, head, q + u);
    generic_index_laws::optional_path_reads_back(a.relative_path, t);
    generic_index_laws::optional_path_reads_back(b.relative_path, u);
    generic_index_laws::row_fields_read_back(a.values, Seq::empty());
    generic_index_laws::row_fields_read_back(b.values, Seq::empty());
}

proof fn inputs_start_with_the_first(rows: Seq<GenericIndexRowRecordView>)
    requires
        rows.len() > 0,
    ensures
        generic_index_digests::row_inputs(rows) == digest::framed(
            generic_index_digests::row_input(rows[0]),
        ) + generic_index_digests::row_inputs(rows.skip(1)),
    decreases rows.len(),
{
    let first = digest::framed(generic_index_digests::row_input(rows[0]));
    if rows.len() == 1 {
        assert(rows.drop_last() =~= Seq::empty());
        assert(rows.skip(1) =~= Seq::empty());
        assert(Seq::<u8>::empty() + first =~= first + Seq::<u8>::empty());
    } else {
        inputs_start_with_the_first(rows.drop_last());
        assert(rows.drop_last().skip(1) =~= rows.skip(1).drop_last());
        assert(rows.skip(1).last() == rows.last());
        bytes::concat_regroups(
            first,
            generic_index_digests::row_inputs(rows.skip(1).drop_last()),
            digest::framed(generic_index_digests::row_input(rows.last())),
        );
    }
}

/// Every row can be given by a caller: its identifiers have their lengths, it
/// is valid, and its input has a length that can be told.
pub open spec fn are_inputs(rows: Seq<GenericIndexRowRecordView>) -> bool {
    forall|i: int|
        0 <= i < rows.len() ==> (#[trigger] rows[i]).sized() && rows[i].check() is Ok
            && generic_index_digests::row_input(rows[i]).len() <= u64::MAX
}

proof fn equal_inputs_are_of_the_same_rows(
    a: Seq<GenericIndexRowRecordView>,
    b: Seq<GenericIndexRowRecordView>,
)
    requires
        a.len() == b.len(),
        are_inputs(a),
        are_inputs(b),
        generic_index_digests::row_inputs(a) == generic_index_digests::row_inputs(b),
    ensures
        forall|i: int|
            #![trigger a[i]]
            #![trigger b[i]]
            0 <= i < a.len() ==> a[i].relative_path == b[i].relative_path && a[i].values
                == b[i].values,
    decreases a.len(),
{
    if a.len() > 0 {
        inputs_start_with_the_first(a);
        inputs_start_with_the_first(b);
        assert(a[0].sized() && b[0].sized());
        digest::framed_parts_are_unique(
            generic_index_digests::row_input(a[0]),
            generic_index_digests::row_inputs(a.skip(1)),
            generic_index_digests::row_input(b[0]),
            generic_index_digests::row_inputs(b.skip(1)),
        );
        row_inputs_show_paths_and_values(a[0], b[0]);
        assert forall|i: int| 0 <= i < a.skip(1).len() implies (#[trigger] a.skip(1)[i]).sized()
            && a.skip(1)[i].check() is Ok && generic_index_digests::row_input(a.skip(1)[i]).len()
            <= u64::MAX by {
            assert(a.skip(1)[i] == a[i + 1]);
        }
        assert forall|i: int| 0 <= i < b.skip(1).len() implies (#[trigger] b.skip(1)[i]).sized()
            && b.skip(1)[i].check() is Ok && generic_index_digests::row_input(b.skip(1)[i]).len()
            <= u64::MAX by {
            assert(b.skip(1)[i] == b[i + 1]);
        }
        equal_inputs_are_of_the_same_rows(a.skip(1), b.skip(1));
        assert forall|i: int|
            #![trigger a[i]]
            #![trigger b[i]]
            0 <= i < a.len() implies a[i].relative_path == b[i].relative_path && a[i].values
            == b[i].values by {
            if i > 0 {
                assert(a.skip(1)[i - 1] == a[i]);
                assert(b.skip(1)[i - 1] == b[i]);
            }
        }
    }
}

/// Inputs of an append that hash the same message are the same: they start at
/// the same place and have the same number of rows, with the same paths and
/// values.
pub proof fn append_inputs_are_told_apart(
    first_sequence: u64,
    a: Seq<GenericIndexRowRecordView>,
    other_sequence: u64,
    b: Seq<GenericIndexRowRecordView>,
)
    requires
        a.len() <= 4096,
        b.len() <= 4096,
        are_inputs(a),
        are_inputs(b),
        generic_index_digests::append_input_message(first_sequence, a)
            == generic_index_digests::append_input_message(other_sequence, b),
    ensures
        first_sequence == other_sequence,
        a.len() == b.len(),
        forall|i: int|
            #![trigger a[i]]
            #![trigger b[i]]
            0 <= i < a.len() ==> a[i].relative_path == b[i].relative_path && a[i].values
                == b[i].values,
{
    let d = generic_index_digests::domain("nokv/generic-index/append-input/v1");
    headed_messages_are_told_apart(
        d,
        first_sequence,
        a.len() as u64,
        generic_index_digests::row_inputs(a),
        other_sequence,
        b.len() as u64,
        generic_index_digests::row_inputs(b),
    );
    equal_inputs_are_of_the_same_rows(a, b);
}

proof fn headed_messages_are_told_apart(
    d: Seq<u8>,
    first: u64,
    count: u64,
    t: Seq<u8>,
    other: u64,
    other_count: u64,
    u: Seq<u8>,
)
    requires
        d + bytes::be64(first) + bytes::be64(count) + t == d + bytes::be64(other) + bytes::be64(
            other_count,
        ) + u,
    ensures
        first == other,
        count == other_count,
        t == u,
{
    broadcast use bytes::group_big_endian;

    let p = bytes::be64(first);
    let q = bytes::be64(count);
    let r = bytes::be64(other);
    let s = bytes::be64(other_count);
    assert(d + p + q + t =~= d + (p + (q + t)));
    assert(d + r + s + u =~= d + (r + (s + u)));
    digest::concat_parts_are_unique(d, p + (q + t), d, r + (s + u));
    digest::concat_parts_are_unique(p, q + t, r, s + u);
    digest::concat_parts_are_unique(q, t, s, u);
    assert(bytes::from_be64(p) == bytes::from_be64(r));
    assert(bytes::from_be64(q) == bytes::from_be64(s));
}

/// The digest of the row of a batch at an index.
pub open spec fn row_digest_at(
    first_sequence: u64,
    rows: Seq<GenericIndexRowRecordView>,
    i: int,
) -> Seq<u8> {
    digest::sha256(generic_index_digests::row_message((first_sequence + i) as u64, rows[i]))
}

proof fn digests_stand_at_their_rows(first_sequence: u64, rows: Seq<GenericIndexRowRecordView>)
    ensures
        generic_index_digests::row_digests(first_sequence, rows).len() == 32 * rows.len(),
        forall|i: int|
            0 <= i < rows.len() ==> generic_index_digests::row_digests(
                first_sequence,
                rows,
            ).subrange(32 * i, 32 * i + 32) == #[trigger] row_digest_at(first_sequence, rows, i),
    decreases rows.len(),
{
    if rows.len() > 0 {
        let n = rows.len() - 1;
        let all = generic_index_digests::row_digests(first_sequence, rows);
        let before = generic_index_digests::row_digests(first_sequence, rows.drop_last());
        let last = row_digest_at(first_sequence, rows, n);
        digests_stand_at_their_rows(first_sequence, rows.drop_last());
        assert(last.len() == 32);
        assert(all =~= before + last);
        assert forall|i: int| 0 <= i < rows.len() implies all.subrange(32 * i, 32 * i + 32)
            == #[trigger] row_digest_at(first_sequence, rows, i) by {
            if i < n {
                assert(rows.drop_last()[i] == rows[i]);
                assert(row_digest_at(first_sequence, rows.drop_last(), i) == row_digest_at(
                    first_sequence,
                    rows,
                    i,
                ));
                assert(all.subrange(32 * i, 32 * i + 32) =~= before.subrange(32 * i, 32 * i + 32));
            } else {
                assert(all.subrange(32 * i, 32 * i + 32) =~= last);
            }
        }
    }
}

/// Batches that hash the same message start at the same place and have the
/// same number of rows, each of which has, at its own place, the same digest.
pub proof fn append_batches_show_every_row(
    first_sequence: u64,
    a: Seq<GenericIndexRowRecordView>,
    other_sequence: u64,
    b: Seq<GenericIndexRowRecordView>,
)
    requires
        a.len() <= 4096,
        b.len() <= 4096,
        generic_index_digests::append_batch_message(first_sequence, a)
            == generic_index_digests::append_batch_message(other_sequence, b),
    ensures
        first_sequence == other_sequence,
        a.len() == b.len(),
        forall|i: int|
            #![trigger a[i]]
            #![trigger b[i]]
            0 <= i < a.len() ==> digest::sha256(
                generic_index_digests::row_message((first_sequence + i) as u64, a[i]),
            ) == digest::sha256(
                generic_index_digests::row_message((first_sequence + i) as u64, b[i]),
            ),
{
    let d = generic_index_digests::domain("nokv/generic-index/append-batch/v1");
    headed_messages_are_told_apart(
        d,
        first_sequence,
        a.len() as u64,
        generic_index_digests::row_digests(first_sequence, a),
        other_sequence,
        b.len() as u64,
        generic_index_digests::row_digests(other_sequence, b),
    );
    digests_stand_at_their_rows(first_sequence, a);
    digests_stand_at_their_rows(other_sequence, b);
    assert forall|i: int|
        #![trigger a[i]]
        #![trigger b[i]]
        0 <= i < a.len() implies digest::sha256(
        generic_index_digests::row_message((first_sequence + i) as u64, a[i]),
    ) == digest::sha256(
        generic_index_digests::row_message((first_sequence + i) as u64, b[i]),
    ) by {
        assert(row_digest_at(first_sequence, a, i) == row_digest_at(other_sequence, b, i));
    }
}

} // verus!
