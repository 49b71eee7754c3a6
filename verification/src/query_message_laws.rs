//! Messages of requests can be told apart: equal messages come from requests
//! that agree in everything but their cursor and limit.
//!
//! Each part of a message can be told from what follows it, so a message can be
//! taken apart from the front.

use vstd::prelude::*;

use crate::bytes;
use crate::digest;
use crate::query_cursor;
use crate::query_digests;
use crate::query_types::{
    AggregateRequestView, AggregateSpecView, CatalogRequestView, ChangePageRequestView,
    FindWorkspacesRequestView, QueryOperandView, QueryPredicateView, QueryScopeView, QuerySortView,
    SearchRequestView,
};
use crate::scalars::QueryScalarView;

verus! {

/// A byte can be told from what follows it.
proof fn byte_splits(a: u8, t: Seq<u8>, b: u8, u: Seq<u8>)
    requires
        seq![a] + t == seq![b] + u,
    ensures
        a == b,
        t == u,
{
    digest::concat_parts_are_unique(seq![a], t, seq![b], u);
    assert(seq![a][0] == seq![b][0]);
}

/// A 64-bit number can be told from what follows it.
proof fn number_splits(a: u64, t: Seq<u8>, b: u64, u: Seq<u8>)
    requires
        bytes::be64(a) + t == bytes::be64(b) + u,
    ensures
        a == b,
        t == u,
{
    bytes::be64_reads_back(a);
    bytes::be64_reads_back(b);
    digest::concat_parts_are_unique(bytes::be64(a), t, bytes::be64(b), u);
}

/// The bits of a signed number determine it.
proof fn signed_bits_are_distinct(a: i64, b: i64)
    requires
        a as u64 == b as u64,
    ensures
        a == b,
{
    assert(a == b) by (bit_vector)
        requires
            a as u64 == b as u64,
    ;
}

/// A scalar can be told from what follows it.
pub proof fn scalars_are_told_apart(
    a: QueryScalarView,
    t: Seq<u8>,
    b: QueryScalarView,
    u: Seq<u8>,
)
    requires
        query_cursor::scalar_fits(a),
        query_cursor::scalar_fits(b),
        query_cursor::scalar_bytes(a) + t == query_cursor::scalar_bytes(b) + u,
    ensures
        a == b,
        t == u,
{
    let x = a.scalar_type().rank();
    let y = b.scalar_type().rank();
    let p = query_cursor::scalar_bytes(a).skip(1);
    let q = query_cursor::scalar_bytes(b).skip(1);
    assert(query_cursor::scalar_bytes(a) =~= seq![x] + p);
    assert(query_cursor::scalar_bytes(b) =~= seq![y] + q);
    bytes::concat_regroups(seq![x], p, t);
    bytes::concat_regroups(seq![y], q, u);
    byte_splits(x, p + t, y, q + u);
    match (a, b) {
        (QueryScalarView::Null, QueryScalarView::Null) => {
            assert(p + t =~= t && q + u =~= u);
        },
        (QueryScalarView::Boolean(v), QueryScalarView::Boolean(w)) => {
            let c = if v {
                1u8
            } else {
                0u8
            };
            let d = if w {
                1u8
            } else {
                0u8
            };
            assert(p =~= seq![c] && q =~= seq![d]);
            byte_splits(c, t, d, u);
        },
        (QueryScalarView::Signed(v), QueryScalarView::Signed(w)) => {
            assert(p =~= bytes::be64(v as u64) && q =~= bytes::be64(w as u64));
            number_splits(v as u64, t, w as u64, u);
            signed_bits_are_distinct(v, w);
        },
        (QueryScalarView::Unsigned(v), QueryScalarView::Unsigned(w)) => {
            assert(p =~= bytes::be64(v) && q =~= bytes::be64(w));
            number_splits(v, t, w, u);
        },
        (QueryScalarView::Float(v), QueryScalarView::Float(w)) => {
            assert(p =~= bytes::be64(v) && q =~= bytes::be64(w));
            number_splits(v, t, w, u);
        },
        (QueryScalarView::Timestamp(v), QueryScalarView::Timestamp(w)) => {
            assert(p =~= bytes::be64(v as u64) && q =~= bytes::be64(w as u64));
            number_splits(v as u64, t, w as u64, u);
            signed_bits_are_distinct(v, w);
        },
        (QueryScalarView::String(v), QueryScalarView::String(w)) => {
            assert(p =~= query_cursor::sized(v) && q =~= query_cursor::sized(w));
            query_cursor::sized_parts_are_unique(v, t, w, u);
        },
        (QueryScalarView::Bytes(v), QueryScalarView::Bytes(w)) => {
            assert(p =~= query_cursor::sized(v) && q =~= query_cursor::sized(w));
            query_cursor::sized_parts_are_unique(v, t, w, u);
        },
        _ => {
            assert(false);
        },
    }
}

/// The bytes of a scalar fit a 64-bit length.
proof fn scalar_is_sized(value: QueryScalarView)
    requires
        query_cursor::scalar_fits(value),
    ensures
        query_cursor::scalar_bytes(value).len() <= u64::MAX,
{
    broadcast use bytes::be32_reads_back;
    broadcast use bytes::be64_reads_back;

}

/// The length of an optional byte string fits 64 bits.
pub open spec fn optional_sized(value: Option<Seq<u8>>) -> bool {
    match value {
        None => true,
        Some(value) => value.len() <= u64::MAX,
    }
}

/// The lengths of a scope fit 64 bits.
pub open spec fn scope_sized(scope: QueryScopeView) -> bool {
    match scope {
        QueryScopeView::Root => true,
        QueryScopeView::Workspace(workbench_id) => workbench_id.len() <= u64::MAX,
    }
}

/// The lengths of an operand fit their fields in the message.
pub open spec fn operand_sized(operand: QueryOperandView) -> bool {
    query_digests::operand_fits(operand) && match operand {
        QueryOperandView::Members(members) => members.len() <= u64::MAX,
        _ => true,
    }
}

/// The lengths of the predicates fit their fields in the message.
pub open spec fn predicates_sized(predicates: Seq<QueryPredicateView>) -> bool {
    predicates.len() <= u64::MAX && forall|i: int|
        0 <= i < predicates.len() ==> (#[trigger] predicates[i]).field_id.len() <= u64::MAX
            && operand_sized(predicates[i].operand)
}

/// The lengths of the fields fit 64 bits.
pub open spec fn fields_sized(fields: Seq<Seq<u8>>) -> bool {
    fields.len() <= u64::MAX && forall|i: int|
        0 <= i < fields.len() ==> (#[trigger] fields[i]).len() <= u64::MAX
}

/// The lengths of the sorts fit 64 bits.
pub open spec fn sort_sized(sort: Seq<QuerySortView>) -> bool {
    sort.len() <= u64::MAX && forall|i: int|
        0 <= i < sort.len() ==> (#[trigger] sort[i]).field_id.len() <= u64::MAX
}

/// The lengths of the aggregates fit 64 bits.
pub open spec fn aggregates_sized(aggregates: Seq<AggregateSpecView>) -> bool {
    aggregates.len() <= u64::MAX && forall|i: int|
        0 <= i < aggregates.len() ==> (#[trigger] aggregates[i]).result_id.len() <= u64::MAX
            && optional_sized(aggregates[i].field_id)
}

/// A scope can be told from what follows it.
proof fn scope_splits(a: QueryScopeView, t: Seq<u8>, b: QueryScopeView, u: Seq<u8>)
    requires
        scope_sized(a),
        scope_sized(b),
        query_digests::scope_part(a) + t == query_digests::scope_part(b) + u,
    ensures
        a == b,
        t == u,
{
    let x = query_digests::scope_part(a);
    let y = query_digests::scope_part(b);
    bytes::concat_regroups(seq![x[0]], x.skip(1), t);
    bytes::concat_regroups(seq![y[0]], y.skip(1), u);
    assert(x =~= seq![x[0]] + x.skip(1));
    assert(y =~= seq![y[0]] + y.skip(1));
    byte_splits(x[0], x.skip(1) + t, y[0], y.skip(1) + u);
    match (a, b) {
        (QueryScopeView::Root, QueryScopeView::Root) => {
            assert(x.skip(1) + t =~= t && y.skip(1) + u =~= u);
        },
        (QueryScopeView::Workspace(v), QueryScopeView::Workspace(w)) => {
            assert(x.skip(1) =~= digest::framed(v) && y.skip(1) =~= digest::framed(w));
            digest::framed_parts_are_unique(v, t, w, u);
        },
        _ => {
            assert(false);
        },
    }
}

/// An optional byte string can be told from what follows it.
proof fn optional_splits(a: Option<Seq<u8>>, t: Seq<u8>, b: Option<Seq<u8>>, u: Seq<u8>)
    requires
        optional_sized(a),
        optional_sized(b),
        query_digests::optional_part(a) + t == query_digests::optional_part(b) + u,
    ensures
        a == b,
        t == u,
{
    let x = query_digests::optional_part(a);
    let y = query_digests::optional_part(b);
    bytes::concat_regroups(seq![x[0]], x.skip(1), t);
    bytes::concat_regroups(seq![y[0]], y.skip(1), u);
    assert(x =~= seq![x[0]] + x.skip(1));
    assert(y =~= seq![y[0]] + y.skip(1));
    byte_splits(x[0], x.skip(1) + t, y[0], y.skip(1) + u);
    match (a, b) {
        (None, None) => {
            assert(x.skip(1) + t =~= t && y.skip(1) + u =~= u);
        },
        (Some(v), Some(w)) => {
            assert(x.skip(1) =~= digest::framed(v) && y.skip(1) =~= digest::framed(w));
            digest::framed_parts_are_unique(v, t, w, u);
        },
        _ => {
            assert(false);
        },
    }
}

/// A list is its first item and the rest.
proof fn front_and_rest<A>(a: Seq<A>, b: Seq<A>)
    requires
        a.len() == b.len(),
        a.len() > 0,
        a[0] == b[0],
        a.drop_first() == b.drop_first(),
    ensures
        a == b,
{
    assert(a =~= seq![a[0]] + a.drop_first());
    assert(b =~= seq![b[0]] + b.drop_first());
}

/// The members of a set can be told from what follows them.
proof fn members_split(
    a: Seq<QueryScalarView>,
    t: Seq<u8>,
    b: Seq<QueryScalarView>,
    u: Seq<u8>,
)
    requires
        a.len() == b.len(),
        query_digests::members_fit(a),
        query_digests::members_fit(b),
        query_digests::members_part(a) + t == query_digests::members_part(b) + u,
    ensures
        a == b,
        t == u,
    decreases a.len(),
{
    if a.len() == 0 {
        assert(a =~= b);
        assert(query_digests::members_part(a) + t =~= t);
        assert(query_digests::members_part(b) + u =~= u);
    } else {
        let x = query_cursor::scalar_bytes(a[0]);
        let y = query_cursor::scalar_bytes(b[0]);
        let c = a.drop_first();
        let d = b.drop_first();
        scalar_is_sized(a[0]);
        scalar_is_sized(b[0]);
        bytes::concat_regroups(digest::framed(x), query_digests::members_part(c), t);
        bytes::concat_regroups(digest::framed(y), query_digests::members_part(d), u);
        digest::framed_parts_are_unique(
            x,
            query_digests::members_part(c) + t,
            y,
            query_digests::members_part(d) + u,
        );
        scalars_are_told_apart(a[0], Seq::empty(), b[0], Seq::empty());
        assert forall|i: int| 0 <= i < c.len() implies query_cursor::scalar_fits(#[trigger] c[i]) by {
            assert(c[i] == a[i + 1]);
        }
        assert forall|i: int| 0 <= i < d.len() implies query_cursor::scalar_fits(#[trigger] d[i]) by {
            assert(d[i] == b[i + 1]);
        }
        members_split(c, t, d, u);
        front_and_rest(a, b);
    }
}

/// An operand can be told from what follows it.
proof fn operand_splits(a: QueryOperandView, t: Seq<u8>, b: QueryOperandView, u: Seq<u8>)
    requires
        operand_sized(a),
        operand_sized(b),
        query_digests::operand_part(a) + t == query_digests::operand_part(b) + u,
    ensures
        a == b,
        t == u,
{
    let x = query_digests::operand_part(a);
    let y = query_digests::operand_part(b);
    bytes::concat_regroups(seq![x[0]], x.skip(1), t);
    bytes::concat_regroups(seq![y[0]], y.skip(1), u);
    assert(x =~= seq![x[0]] + x.skip(1));
    assert(y =~= seq![y[0]] + y.skip(1));
    byte_splits(x[0], x.skip(1) + t, y[0], y.skip(1) + u);
    match (a, b) {
        (QueryOperandView::Absent, QueryOperandView::Absent) => {
            assert(x.skip(1) + t =~= t && y.skip(1) + u =~= u);
        },
        (QueryOperandView::Scalar(v), QueryOperandView::Scalar(w)) => {
            let p = query_cursor::scalar_bytes(v);
            let q = query_cursor::scalar_bytes(w);
            assert(x.skip(1) =~= digest::framed(p) && y.skip(1) =~= digest::framed(q));
            scalar_is_sized(v);
            scalar_is_sized(w);
            digest::framed_parts_are_unique(p, t, q, u);
            scalars_are_told_apart(v, Seq::empty(), w, Seq::empty());
        },
        (QueryOperandView::Members(v), QueryOperandView::Members(w)) => {
            let p = bytes::be64(v.len() as u64);
            let q = bytes::be64(w.len() as u64);
            assert(x.skip(1) =~= p + query_digests::members_part(v));
            assert(y.skip(1) =~= q + query_digests::members_part(w));
            bytes::concat_regroups(p, query_digests::members_part(v), t);
            bytes::concat_regroups(q, query_digests::members_part(w), u);
            number_splits(
                v.len() as u64,
                query_digests::members_part(v) + t,
                w.len() as u64,
                query_digests::members_part(w) + u,
            );
            members_split(v, t, w, u);
        },
        _ => {
            assert(false);
        },
    }
}

/// The predicates can be told from what follows them.
proof fn predicates_split(
    a: Seq<QueryPredicateView>,
    t: Seq<u8>,
    b: Seq<QueryPredicateView>,
    u: Seq<u8>,
)
    requires
        a.len() == b.len(),
        predicates_sized(a),
        predicates_sized(b),
        query_digests::predicates_body(a) + t == query_digests::predicates_body(b) + u,
    ensures
        a == b,
        t == u,
    decreases a.len(),
{
    if a.len() == 0 {
        assert(a =~= b);
        assert(query_digests::predicates_body(a) + t =~= t);
        assert(query_digests::predicates_body(b) + u =~= u);
    } else {
        let c = a.drop_first();
        let d = b.drop_first();
        let s = query_digests::predicates_body(c) + t;
        let r = query_digests::predicates_body(d) + u;
        let x = query_digests::operand_part(a[0].operand);
        let y = query_digests::operand_part(b[0].operand);
        let m = a[0].operator.byte();
        let n = b[0].operator.byte();
        bytes::concat_regroups(
            query_digests::predicate_part(a[0]),
            query_digests::predicates_body(c),
            t,
        );
        bytes::concat_regroups(
            query_digests::predicate_part(b[0]),
            query_digests::predicates_body(d),
            u,
        );
        bytes::concat_regroups(digest::framed(a[0].field_id), seq![m] + x, s);
        bytes::concat_regroups(digest::framed(b[0].field_id), seq![n] + y, r);
        digest::framed_parts_are_unique(
            a[0].field_id,
            (seq![m] + x) + s,
            b[0].field_id,
            (seq![n] + y) + r,
        );
        bytes::concat_regroups(seq![m], x, s);
        bytes::concat_regroups(seq![n], y, r);
        byte_splits(m, x + s, n, y + r);
        operand_splits(a[0].operand, s, b[0].operand, r);
        assert forall|i: int| 0 <= i < c.len() implies (#[trigger] c[i]).field_id.len() <= u64::MAX
            && operand_sized(c[i].operand) by {
            assert(c[i] == a[i + 1]);
        }
        assert forall|i: int| 0 <= i < d.len() implies (#[trigger] d[i]).field_id.len() <= u64::MAX
            && operand_sized(d[i].operand) by {
            assert(d[i] == b[i + 1]);
        }
        predicates_split(c, t, d, u);
        front_and_rest(a, b);
    }
}

/// A counted list of predicates can be told from what follows it.
proof fn predicate_list_splits(
    a: Seq<QueryPredicateView>,
    t: Seq<u8>,
    b: Seq<QueryPredicateView>,
    u: Seq<u8>,
)
    requires
        predicates_sized(a),
        predicates_sized(b),
        query_digests::predicates_part(a) + t == query_digests::predicates_part(b) + u,
    ensures
        a == b,
        t == u,
{
    let x = query_digests::predicates_body(a);
    let y = query_digests::predicates_body(b);
    bytes::concat_regroups(bytes::be64(a.len() as u64), x, t);
    bytes::concat_regroups(bytes::be64(b.len() as u64), y, u);
    number_splits(a.len() as u64, x + t, b.len() as u64, y + u);
    predicates_split(a, t, b, u);
}

/// The fields can be told from what follows them.
proof fn fields_split(a: Seq<Seq<u8>>, t: Seq<u8>, b: Seq<Seq<u8>>, u: Seq<u8>)
    requires
        a.len() == b.len(),
        fields_sized(a),
        fields_sized(b),
        query_digests::fields_body(a) + t == query_digests::fields_body(b) + u,
    ensures
        a == b,
        t == u,
    decreases a.len(),
{
    if a.len() == 0 {
        assert(a =~= b);
        assert(query_digests::fields_body(a) + t =~= t);
        assert(query_digests::fields_body(b) + u =~= u);
    } else {
        let c = a.drop_first();
        let d = b.drop_first();
        let x = query_digests::fields_body(c);
        let y = query_digests::fields_body(d);
        bytes::concat_regroups(digest::framed(a[0]), x, t);
        bytes::concat_regroups(digest::framed(b[0]), y, u);
        digest::framed_parts_are_unique(a[0], x + t, b[0], y + u);
        assert forall|i: int| 0 <= i < c.len() implies (#[trigger] c[i]).len() <= u64::MAX by {
            assert(c[i] == a[i + 1]);
        }
        assert forall|i: int| 0 <= i < d.len() implies (#[trigger] d[i]).len() <= u64::MAX by {
            assert(d[i] == b[i + 1]);
        }
        fields_split(c, t, d, u);
        front_and_rest(a, b);
    }
}

/// A counted list of fields can be told from what follows it.
proof fn field_list_splits(a: Seq<Seq<u8>>, t: Seq<u8>, b: Seq<Seq<u8>>, u: Seq<u8>)
    requires
        fields_sized(a),
        fields_sized(b),
        query_digests::fields_part(a) + t == query_digests::fields_part(b) + u,
    ensures
        a == b,
        t == u,
{
    let x = query_digests::fields_body(a);
    let y = query_digests::fields_body(b);
    bytes::concat_regroups(bytes::be64(a.len() as u64), x, t);
    bytes::concat_regroups(bytes::be64(b.len() as u64), y, u);
    number_splits(a.len() as u64, x + t, b.len() as u64, y + u);
    fields_split(a, t, b, u);
}

/// The sorts can be told from what follows them.
proof fn sorts_split(a: Seq<QuerySortView>, t: Seq<u8>, b: Seq<QuerySortView>, u: Seq<u8>)
    requires
        a.len() == b.len(),
        sort_sized(a),
        sort_sized(b),
        query_digests::sort_body(a) + t == query_digests::sort_body(b) + u,
    ensures
        a == b,
        t == u,
    decreases a.len(),
{
    if a.len() == 0 {
        assert(a =~= b);
        assert(query_digests::sort_body(a) + t =~= t);
        assert(query_digests::sort_body(b) + u =~= u);
    } else {
        let c = a.drop_first();
        let d = b.drop_first();
        let x = query_digests::sort_body(c);
        let y = query_digests::sort_body(d);
        let m = a[0].direction.byte();
        let n = b[0].direction.byte();
        bytes::concat_regroups(digest::framed(a[0].field_id), seq![m] + x, t);
        bytes::concat_regroups(digest::framed(b[0].field_id), seq![n] + y, u);
        digest::framed_parts_are_unique(
            a[0].field_id,
            (seq![m] + x) + t,
            b[0].field_id,
            (seq![n] + y) + u,
        );
        bytes::concat_regroups(seq![m], x, t);
        bytes::concat_regroups(seq![n], y, u);
        byte_splits(m, x + t, n, y + u);
        assert forall|i: int| 0 <= i < c.len() implies (#[trigger] c[i]).field_id.len()
            <= u64::MAX by {
            assert(c[i] == a[i + 1]);
        }
        assert forall|i: int| 0 <= i < d.len() implies (#[trigger] d[i]).field_id.len()
            <= u64::MAX by {
            assert(d[i] == b[i + 1]);
        }
        sorts_split(c, t, d, u);
        front_and_rest(a, b);
    }
}

/// A counted list of sorts can be told from what follows it.
proof fn sort_list_splits(a: Seq<QuerySortView>, t: Seq<u8>, b: Seq<QuerySortView>, u: Seq<u8>)
    requires
        sort_sized(a),
        sort_sized(b),
        query_digests::sort_part(a) + t == query_digests::sort_part(b) + u,
    ensures
        a == b,
        t == u,
{
    let x = query_digests::sort_body(a);
    let y = query_digests::sort_body(b);
    bytes::concat_regroups(bytes::be64(a.len() as u64), x, t);
    bytes::concat_regroups(bytes::be64(b.len() as u64), y, u);
    number_splits(a.len() as u64, x + t, b.len() as u64, y + u);
    sorts_split(a, t, b, u);
}

/// The aggregates can be told from what follows them.
proof fn aggregates_split(
    a: Seq<AggregateSpecView>,
    t: Seq<u8>,
    b: Seq<AggregateSpecView>,
    u: Seq<u8>,
)
    requires
        a.len() == b.len(),
        aggregates_sized(a),
        aggregates_sized(b),
        query_digests::aggregates_body(a) + t == query_digests::aggregates_body(b) + u,
    ensures
        a == b,
        t == u,
    decreases a.len(),
{
    if a.len() == 0 {
        assert(a =~= b);
        assert(query_digests::aggregates_body(a) + t =~= t);
        assert(query_digests::aggregates_body(b) + u =~= u);
    } else {
        let c = a.drop_first();
        let d = b.drop_first();
        let s = query_digests::aggregates_body(c) + t;
        let r = query_digests::aggregates_body(d) + u;
        let x = query_digests::optional_part(a[0].field_id);
        let y = query_digests::optional_part(b[0].field_id);
        let m = a[0].function.byte();
        let n = b[0].function.byte();
        bytes::concat_regroups(
            query_digests::aggregate_part(a[0]),
            query_digests::aggregates_body(c),
            t,
        );
        bytes::concat_regroups(
            query_digests::aggregate_part(b[0]),
            query_digests::aggregates_body(d),
            u,
        );
        bytes::concat_regroups(digest::framed(a[0].result_id), seq![m] + x, s);
        bytes::concat_regroups(digest::framed(b[0].result_id), seq![n] + y, r);
        digest::framed_parts_are_unique(
            a[0].result_id,
            (seq![m] + x) + s,
            b[0].result_id,
            (seq![n] + y) + r,
        );
        bytes::concat_regroups(seq![m], x, s);
        bytes::concat_regroups(seq![n], y, r);
        byte_splits(m, x + s, n, y + r);
        optional_splits(a[0].field_id, s, b[0].field_id, r);
        assert forall|i: int| 0 <= i < c.len() implies (#[trigger] c[i]).result_id.len()
            <= u64::MAX && optional_sized(c[i].field_id) by {
            assert(c[i] == a[i + 1]);
        }
        assert forall|i: int| 0 <= i < d.len() implies (#[trigger] d[i]).result_id.len()
            <= u64::MAX && optional_sized(d[i].field_id) by {
            assert(d[i] == b[i + 1]);
        }
        aggregates_split(c, t, d, u);
        front_and_rest(a, b);
    }
}

/// A counted list of aggregates can be told from what follows it.
proof fn aggregate_list_splits(
    a: Seq<AggregateSpecView>,
    t: Seq<u8>,
    b: Seq<AggregateSpecView>,
    u: Seq<u8>,
)
    requires
        aggregates_sized(a),
        aggregates_sized(b),
        query_digests::aggregates_part(a) + t == query_digests::aggregates_part(b) + u,
    ensures
        a == b,
        t == u,
{
    let x = query_digests::aggregates_body(a);
    let y = query_digests::aggregates_body(b);
    bytes::concat_regroups(bytes::be64(a.len() as u64), x, t);
    bytes::concat_regroups(bytes::be64(b.len() as u64), y, u);
    number_splits(a.len() as u64, x + t, b.len() as u64, y + u);
    aggregates_split(a, t, b, u);
}

impl SearchRequestView {
    /// The lengths of the request fit their fields in the message.
    pub open spec fn fits_message(self) -> bool {
        scope_sized(self.scope) && optional_sized(self.path_prefix) && predicates_sized(
            self.predicates,
        ) && fields_sized(self.projection) && sort_sized(self.sort) && fields_sized(self.facets)
    }
}

impl AggregateRequestView {
    /// The lengths of the request fit their fields in the message.
    pub open spec fn fits_message(self) -> bool {
        scope_sized(self.scope) && optional_sized(self.path_prefix) && predicates_sized(
            self.predicates,
        ) && fields_sized(self.group_by) && aggregates_sized(self.aggregates) && sort_sized(
            self.sort,
        )
    }
}

impl CatalogRequestView {
    /// The lengths of the request fit their fields in the message.
    pub open spec fn fits_message(self) -> bool {
        scope_sized(self.scope) && optional_sized(self.path_prefix) && optional_sized(
            self.field_prefix,
        )
    }
}

/// Searches with the same message differ in nothing but cursor and limit.
pub proof fn search_messages_are_distinct(a: SearchRequestView, b: SearchRequestView)
    requires
        a.fits_message(),
        b.fits_message(),
        a.message() == b.message(),
    ensures
        (SearchRequestView { cursor: b.cursor, limit: b.limit, ..a }) == b,
{
    let e = Seq::<u8>::empty();
    let a6 = query_digests::fields_part(a.facets);
    let b6 = query_digests::fields_part(b.facets);
    let a5 = query_digests::sort_part(a.sort) + a6;
    let b5 = query_digests::sort_part(b.sort) + b6;
    let a4 = query_digests::fields_part(a.projection) + a5;
    let b4 = query_digests::fields_part(b.projection) + b5;
    let a3 = query_digests::predicates_part(a.predicates) + a4;
    let b3 = query_digests::predicates_part(b.predicates) + b4;
    let a2 = query_digests::optional_part(a.path_prefix) + a3;
    let b2 = query_digests::optional_part(b.path_prefix) + b3;
    let d = query_digests::search_domain();
    digest::concat_parts_are_unique(
        d,
        query_digests::scope_part(a.scope) + a2,
        d,
        query_digests::scope_part(b.scope) + b2,
    );
    scope_splits(a.scope, a2, b.scope, b2);
    optional_splits(a.path_prefix, a3, b.path_prefix, b3);
    predicate_list_splits(a.predicates, a4, b.predicates, b4);
    field_list_splits(a.projection, a5, b.projection, b5);
    sort_list_splits(a.sort, a6, b.sort, b6);
    assert(a6 + e =~= a6 && b6 + e =~= b6);
    field_list_splits(a.facets, e, b.facets, e);
}

/// Aggregates with the same message differ in nothing but cursor and limit.
pub proof fn aggregate_messages_are_distinct(a: AggregateRequestView, b: AggregateRequestView)
    requires
        a.fits_message(),
        b.fits_message(),
        a.message() == b.message(),
    ensures
        (AggregateRequestView { cursor: b.cursor, limit: b.limit, ..a }) == b,
{
    let e = Seq::<u8>::empty();
    let a6 = query_digests::sort_part(a.sort);
    let b6 = query_digests::sort_part(b.sort);
    let a5 = query_digests::aggregates_part(a.aggregates) + a6;
    let b5 = query_digests::aggregates_part(b.aggregates) + b6;
    let a4 = query_digests::fields_part(a.group_by) + a5;
    let b4 = query_digests::fields_part(b.group_by) + b5;
    let a3 = query_digests::predicates_part(a.predicates) + a4;
    let b3 = query_digests::predicates_part(b.predicates) + b4;
    let a2 = query_digests::optional_part(a.path_prefix) + a3;
    let b2 = query_digests::optional_part(b.path_prefix) + b3;
    let d = query_digests::aggregate_domain();
    digest::concat_parts_are_unique(
        d,
        query_digests::scope_part(a.scope) + a2,
        d,
        query_digests::scope_part(b.scope) + b2,
    );
    scope_splits(a.scope, a2, b.scope, b2);
    optional_splits(a.path_prefix, a3, b.path_prefix, b3);
    predicate_list_splits(a.predicates, a4, b.predicates, b4);
    field_list_splits(a.group_by, a5, b.group_by, b5);
    aggregate_list_splits(a.aggregates, a6, b.aggregates, b6);
    assert(a6 + e =~= a6 && b6 + e =~= b6);
    sort_list_splits(a.sort, e, b.sort, e);
}

/// Catalog requests with the same message differ in nothing but cursor and
/// limit.
pub proof fn catalog_messages_are_distinct(a: CatalogRequestView, b: CatalogRequestView)
    requires
        a.fits_message(),
        b.fits_message(),
        a.message() == b.message(),
    ensures
        (CatalogRequestView { cursor: b.cursor, limit: b.limit, ..a }) == b,
{
    let e = Seq::<u8>::empty();
    let a3 = query_digests::optional_part(a.field_prefix);
    let b3 = query_digests::optional_part(b.field_prefix);
    let a2 = query_digests::optional_part(a.path_prefix) + a3;
    let b2 = query_digests::optional_part(b.path_prefix) + b3;
    let d = query_digests::catalog_domain();
    digest::concat_parts_are_unique(
        d,
        query_digests::scope_part(a.scope) + a2,
        d,
        query_digests::scope_part(b.scope) + b2,
    );
    scope_splits(a.scope, a2, b.scope, b2);
    optional_splits(a.path_prefix, a3, b.path_prefix, b3);
    assert(a3 + e =~= a3 && b3 + e =~= b3);
    optional_splits(a.field_prefix, e, b.field_prefix, e);
}

/// Discovery requests with the same message differ in nothing but cursor and
/// limit.
pub proof fn discovery_messages_are_distinct(
    a: FindWorkspacesRequestView,
    b: FindWorkspacesRequestView,
)
    requires
        a.message() == b.message(),
    ensures
        (FindWorkspacesRequestView { cursor: b.cursor, limit: b.limit, ..a }) == b,
{
    let d = query_digests::find_domain();
    digest::concat_parts_are_unique(d, seq![a.committed.byte()], d, seq![b.committed.byte()]);
    assert(seq![a.committed.byte()][0] == seq![b.committed.byte()][0]);
}

/// Change requests with the same message read under the same root and differ in
/// nothing but cursor and limit.
pub proof fn change_messages_are_distinct(
    a: ChangePageRequestView,
    root_a: Seq<u8>,
    b: ChangePageRequestView,
    root_b: Seq<u8>,
)
    requires
        root_a.len() == root_b.len(),
        scope_sized(a.scope),
        scope_sized(b.scope),
        a.message(root_a) == b.message(root_b),
    ensures
        root_a == root_b,
        (ChangePageRequestView { cursor: b.cursor, limit: b.limit, ..a }) == b,
{
    let x = query_digests::version_part(a.after_commit_version);
    let y = query_digests::version_part(b.after_commit_version);
    let p = query_digests::scope_part(a.scope) + x;
    let q = query_digests::scope_part(b.scope) + y;
    let d = query_digests::change_domain();
    digest::concat_parts_are_unique(d, root_a + p, d, root_b + q);
    digest::concat_parts_are_unique(root_a, p, root_b, q);
    scope_splits(a.scope, x, b.scope, y);
    assert(x[0] == y[0]);
    if let (Some(v), Some(w)) = (a.after_commit_version, b.after_commit_version) {
        digest::concat_parts_are_unique(seq![1u8], bytes::be64(v), seq![1u8], bytes::be64(w));
        bytes::be64_reads_back(v);
        bytes::be64_reads_back(w);
    }
}

} // verus!
