//! What a search page shows.
//!
//! A hit shows the path, the entry and the requested fields of its row. Hits come
//! in the order of the sort fields, then of workbench and path. A facet counts
//! each value of its field over all matching rows.

use vstd::prelude::*;

use crate::bytes;
use crate::query_rows::RowView;
use crate::query_search;
use crate::query_search_laws;
use crate::query_types::{
    FacetBucketView, QuerySortDirection, QuerySortView, SearchRequestView,
};
use crate::scalars::QueryScalarView;
use crate::sorted_maps;

verus! {

/// Number of the type of a value in the order of types.
pub open spec fn type_place(value: QueryScalarView) -> int {
    match value {
        QueryScalarView::Null => 0,
        QueryScalarView::Boolean(_) => 1,
        QueryScalarView::Signed(_) => 2,
        QueryScalarView::Unsigned(_) => 3,
        QueryScalarView::Float(_) => 4,
        QueryScalarView::Timestamp(_) => 5,
        QueryScalarView::String(_) => 6,
        QueryScalarView::Bytes(_) => 7,
    }
}

/// Values are ordered by type, in the order null, boolean, signed, unsigned,
/// float, timestamp, text, bytes, and within a type by value.
pub proof fn values_are_ordered_by_type_and_value(a: QueryScalarView, b: QueryScalarView)
    ensures
        type_place(a) < type_place(b) ==> a.less(b),
        type_place(a) > type_place(b) ==> !a.less(b),
        !(QueryScalarView::Null).less(QueryScalarView::Null),
        a matches QueryScalarView::Boolean(x) ==> b matches QueryScalarView::Boolean(y) ==> (a.less(
            b,
        ) <==> !x && y),
        a matches QueryScalarView::Signed(x) ==> b matches QueryScalarView::Signed(y) ==> (a.less(b)
            <==> x < y),
        a matches QueryScalarView::Unsigned(x) ==> b matches QueryScalarView::Unsigned(y) ==> (
        a.less(b) <==> x < y),
        a matches QueryScalarView::Timestamp(x) ==> b matches QueryScalarView::Timestamp(y) ==> (
        a.less(b) <==> x < y),
        a matches QueryScalarView::Float(x) ==> b matches QueryScalarView::Float(y) ==> (a.less(b)
            <==> (x >= 0x8000_0000_0000_0000u64 && y < 0x8000_0000_0000_0000u64) || (x < y && y
            < 0x8000_0000_0000_0000u64) || (x > y && y >= 0x8000_0000_0000_0000u64)),
        a matches QueryScalarView::String(x) ==> b matches QueryScalarView::String(y) ==> (a.less(b)
            <==> bytes::lex_less(x, y)),
        a matches QueryScalarView::Bytes(x) ==> b matches QueryScalarView::Bytes(y) ==> (a.less(b)
            <==> bytes::lex_less(x, y)),
{
}

/// Two rows are alike in the first fields of a sort.
pub open spec fn alike_in(left: RowView, right: RowView, sort: Seq<QuerySortView>, n: int) -> bool {
    forall|i: int|
        0 <= i < n ==> left.value((#[trigger] sort[i]).field_id) == right.value(sort[i].field_id)
}

/// The first sort field in which two rows differ decides which comes first. In an
/// ascending field a row without the value comes first, then the lesser value; a
/// descending field turns that around.
pub proof fn rows_are_ordered_by_their_first_difference(
    left: RowView,
    right: RowView,
    sort: Seq<QuerySortView>,
    n: int,
)
    requires
        0 <= n < sort.len(),
        alike_in(left, right, sort, n),
        left.value(sort[n].field_id) != right.value(sort[n].field_id),
    ensures
        sort[n].direction == QuerySortDirection::Ascending ==> (query_search::row_less(
            left,
            right,
            sort,
        ) <==> (match (left.value(sort[n].field_id), right.value(sort[n].field_id)) {
            (None, _) => true,
            (Some(_), None) => false,
            (Some(a), Some(b)) => a.less(b),
        })),
        sort[n].direction == QuerySortDirection::Descending ==> (query_search::row_less(
            left,
            right,
            sort,
        ) <==> (match (left.value(sort[n].field_id), right.value(sort[n].field_id)) {
            (None, _) => false,
            (Some(_), None) => true,
            (Some(a), Some(b)) => b.less(a),
        })),
    decreases sort.len(),
{
    if n > 0 {
        let rest = sort.drop_first();
        assert(sort[0].field_id == sort[0].field_id);
        assert(rest[n - 1] == sort[n]);
        assert forall|i: int| 0 <= i < n - 1 implies left.value((#[trigger] rest[i]).field_id)
            == right.value(rest[i].field_id) by {
            assert(rest[i] == sort[i + 1]);
        }
        rows_are_ordered_by_their_first_difference(left, right, rest, n - 1);
    }
}

/// Rows that are alike in all sort fields come in the order of their workbenches,
/// and those of one workbench in the order of their paths.
pub proof fn alike_rows_are_ordered_by_path(
    left: RowView,
    right: RowView,
    sort: Seq<QuerySortView>,
)
    requires
        alike_in(left, right, sort, sort.len() as int),
    ensures
        query_search::row_less(left, right, sort) <==> bytes::lex_less(
            left.workbench_id,
            right.workbench_id,
        ) || (left.workbench_id == right.workbench_id && bytes::lex_less(left.path, right.path)),
    decreases sort.len(),
{
    if sort.len() > 0 {
        let rest = sort.drop_first();
        assert(sort[0].field_id == sort[0].field_id);
        assert forall|i: int| 0 <= i < rest.len() implies left.value((#[trigger] rest[i]).field_id)
            == right.value(rest[i].field_id) by {
            assert(rest[i] == sort[i + 1]);
        }
        alike_rows_are_ordered_by_path(left, right, rest);
    }
}

/// A hit shows the workbench, path and entry of its row. Its projection holds,
/// each once and in order, exactly the requested fields that the row has a value
/// of, with those values.
pub proof fn hits_show_their_rows(row: RowView, fields: Seq<Seq<u8>>)
    ensures
        ({
            let hit = query_search::hit_of(row, fields);
            &&& hit.workbench_id == row.workbench_id
            &&& hit.path == row.path
            &&& hit.generation == row.entry.generation
            &&& hit.body_digest_uri == row.entry.body_digest_uri
            &&& hit.logical_size == row.entry.logical_size
            &&& hit.content_type == row.entry.content_type
            &&& hit.producer == row.entry.producer
            &&& hit.manifest_id == row.entry.manifest_id
            &&& sorted_maps::ascending(hit.projection)
            &&& forall|i: int|
                0 <= i < hit.projection.len() ==> fields.contains((#[trigger] hit.projection[i]).0)
                    && row.value(hit.projection[i].0) == Some(hit.projection[i].1)
            &&& forall|k: int|
                0 <= k < fields.len() && row.value(#[trigger] fields[k]) is Some ==> exists|i: int|
                    0 <= i < hit.projection.len() && #[trigger] hit.projection[i] == (
                        fields[k],
                        row.value(fields[k])->0,
                    )
        }),
{
    query_search::projection_exists(row, fields);
    let shown = query_search::projection_of(row, fields);
    assert forall|i: int| 0 <= i < shown.len() implies fields.contains((#[trigger] shown[i]).0)
        && row.value(shown[i].0) == Some(shown[i].1) by {
        sorted_maps::lookup_finds(shown, i);
        assert(sorted_maps::lookup(shown, shown[i].0) is Some);
    }
    assert forall|k: int| 0 <= k < fields.len() && row.value(#[trigger] fields[k]) is Some implies
        exists|i: int|
            0 <= i < shown.len() && #[trigger] shown[i] == (fields[k], row.value(fields[k])->0) by {
        assert(fields.contains(fields[k]));
        sorted_maps::lookup_is_entry(shown, fields[k]);
    }
}

/// The rows in which a field has a value.
pub open spec fn rows_with(rows: Seq<RowView>, field: Seq<u8>, value: QueryScalarView) -> Seq<
    RowView,
> {
    rows.filter(|row: RowView| row.value(field) == Some(value))
}

/// A value occurs among the values of a field as often as rows have it.
proof fn occurrences_are_rows(rows: Seq<RowView>, field: Seq<u8>, value: QueryScalarView)
    ensures
        query_search::occurrences(query_search::field_values(rows, field), value) == rows_with(
            rows,
            field,
            value,
        ).len(),
        query_search::field_values(rows, field).len() <= rows.len(),
    decreases rows.len(),
{
    reveal(Seq::filter);
    if rows.len() > 0 {
        occurrences_are_rows(rows.drop_last(), field, value);
        let now = query_search::field_values(rows, field);
        let before = query_search::field_values(rows.drop_last(), field);
        if rows.last().value(field) is Some {
            assert(now.drop_last() =~= before);
        }
    }
}

/// A facet counts each value of its field over the matching rows. Each bucket
/// holds one value and the number of rows that have it, the most frequent first
/// and equally frequent ones by value. Every value of a matching row has a bucket,
/// or comes behind all 256 of them in a facet that says it is truncated.
pub proof fn facets_count_values(rows: Seq<RowView>, field: Seq<u8>)
    requires
        rows.len() <= u64::MAX,
    ensures
        ({
            let facet = query_search::facet_of(rows, field);
            &&& facet.field_id == field
            &&& facet.buckets.len() <= 256
            &&& facet.truncated <==> facet.distinct_count > 256
            &&& !facet.truncated ==> facet.distinct_count == facet.buckets.len()
            &&& facet.truncated ==> facet.buckets.len() == 256
            &&& forall|i: int|
                0 <= i < facet.buckets.len() ==> (#[trigger] facet.buckets[i]).count > 0
                    && facet.buckets[i].count == rows_with(
                    rows,
                    field,
                    facet.buckets[i].value,
                ).len()
            &&& forall|i: int, j: int|
                #![trigger facet.buckets[i], facet.buckets[j]]
                0 <= i < j < facet.buckets.len() ==> facet.buckets[i].count
                    > facet.buckets[j].count || (facet.buckets[i].count == facet.buckets[j].count
                    && facet.buckets[i].value.less(facet.buckets[j].value))
            &&& forall|k: int|
                0 <= k < rows.len() && (#[trigger] rows[k]).value(field) is Some ==> {
                    let value = rows[k].value(field)->0;
                    let count = rows_with(rows, field, value).len();
                    ||| exists|i: int|
                        0 <= i < facet.buckets.len() && (#[trigger] facet.buckets[i]).value == value
                    ||| facet.truncated && forall|i: int|
                        0 <= i < facet.buckets.len() ==> (#[trigger] facet.buckets[i]).count > count
                            || (facet.buckets[i].count == count && facet.buckets[i].value.less(
                            value,
                        ))
                }
        }),
{
    let values = query_search::field_values(rows, field);
    let facet = query_search::facet_of(rows, field);
    let all = query_search::ranking(values);
    occurrences_are_rows(rows, field, QueryScalarView::Null);
    query_search::ranking_exists(values);
    ranked_values_are_no_more(values, all);
    assert forall|i: int| 0 <= i < all.len() implies (#[trigger] all[i]).count == rows_with(
        rows,
        field,
        all[i].value,
    ).len() by {
        occurrences_are_rows(rows, field, all[i].value);
    }
    assert forall|i: int| 0 <= i < facet.buckets.len() implies #[trigger] facet.buckets[i]
        == all[i] by {}
    assert forall|i: int, j: int|
        #![trigger facet.buckets[i], facet.buckets[j]]
        0 <= i < j < facet.buckets.len() implies facet.buckets[i].count > facet.buckets[j].count || (
    facet.buckets[i].count == facet.buckets[j].count && facet.buckets[i].value.less(
        facet.buckets[j].value,
    )) by {
        assert(query_search::bucket_less(all[i], all[j]));
    }
    assert forall|k: int| 0 <= k < rows.len() && (#[trigger] rows[k]).value(field) is Some implies ({
        let value = rows[k].value(field)->0;
        let count = rows_with(rows, field, value).len();
        ||| exists|i: int|
            0 <= i < facet.buckets.len() && (#[trigger] facet.buckets[i]).value == value
        ||| facet.truncated && forall|i: int|
            0 <= i < facet.buckets.len() ==> (#[trigger] facet.buckets[i]).count > count || (
            facet.buckets[i].count == count && facet.buckets[i].value.less(value))
    }) by {
        let value = rows[k].value(field)->0;
        row_values_are_listed(rows, field, k);
        assert(values.contains(value));
        let n = choose|n: int| 0 <= n < all.len() && (#[trigger] all[n]).value == value;
        if n < facet.buckets.len() {
            assert(facet.buckets[n].value == value);
        } else {
            assert forall|i: int| 0 <= i < facet.buckets.len() implies (
            #[trigger] facet.buckets[i]).count > all[n].count || (facet.buckets[i].count
                == all[n].count && facet.buckets[i].value.less(value)) by {
                assert(query_search::bucket_less(all[i], all[n]));
            }
        }
    }
}

/// The value of a row is among the values of a field.
proof fn row_values_are_listed(rows: Seq<RowView>, field: Seq<u8>, k: int)
    requires
        0 <= k < rows.len(),
        rows[k].value(field) is Some,
    ensures
        query_search::field_values(rows, field).contains(rows[k].value(field)->0),
    decreases rows.len(),
{
    let now = query_search::field_values(rows, field);
    let before = query_search::field_values(rows.drop_last(), field);
    if k == rows.len() - 1 {
        assert(now[now.len() - 1] == rows[k].value(field)->0);
    } else {
        assert(rows.drop_last()[k] == rows[k]);
        row_values_are_listed(rows.drop_last(), field, k);
        let i = choose|i: int| 0 <= i < before.len() && before[i] == rows[k].value(field)->0;
        assert(now[i] == rows[k].value(field)->0);
    }
}

/// There are no more buckets than values.
proof fn ranked_values_are_no_more(values: Seq<QueryScalarView>, buckets: Seq<FacetBucketView>)
    requires
        query_search::is_ranking(values, buckets),
    ensures
        buckets.len() <= values.len(),
{
    let listed = buckets.map(|i: int, bucket: FacetBucketView| bucket.value);
    assert forall|i: int, j: int|
        0 <= i < listed.len() && 0 <= j < listed.len() && i != j implies listed[i] != listed[j] by {
        let a = if i < j {
            i
        } else {
            j
        };
        let b = if i < j {
            j
        } else {
            i
        };
        assert(query_search::bucket_less(buckets[a], buckets[b]));
        if buckets[a].value == buckets[b].value {
            assert(buckets[a].count == query_search::occurrences(values, buckets[a].value));
            assert(buckets[b].count == query_search::occurrences(values, buckets[b].value));
            buckets[a].value.less_irreflexive();
        }
    }
    assert(listed.no_duplicates());
    listed.unique_seq_to_set();
    assert(listed.to_set().subset_of(values.to_set())) by {
        assert forall|value: QueryScalarView|
            listed.to_set().contains(value) implies values.to_set().contains(value) by {
            let i = choose|i: int| 0 <= i < listed.len() && listed[i] == value;
            assert(buckets[i].count > 0);
            query_search::occurrences_are_bounded(values, value);
        }
    }
    values.lemma_cardinality_of_set();
    vstd::set_lib::lemma_len_subset(listed.to_set(), values.to_set());
}

/// A search page has one facet for each requested field, over all matching rows,
/// and its own read version. Its hits are those of the rows of the search in order,
/// from where the page starts.
pub proof fn search_pages_show_hits_and_facets(
    rows: Seq<RowView>,
    request: SearchRequestView,
    read_version: u64,
)
    requires
        request.cursor is None,
        query_search::search(rows, request, read_version) is Ok,
    ensures
        ({
            let page = query_search::search(rows, request, read_version)->Ok_0;
            let visited = query_search_laws::visited_rows(rows, request);
            let matching = query_search::matching_rows(rows, request.predicates);
            &&& page.read_version == read_version
            &&& page.facets.len() == request.facets.len()
            &&& forall|i: int|
                0 <= i < page.facets.len() ==> #[trigger] page.facets[i]
                    == query_search::facet_of(matching, request.facets[i])
            &&& page.hits.len() == if visited.len() < request.limit {
                visited.len()
            } else {
                request.limit as nat
            }
            &&& page.next_cursor is Some <==> visited.len() > request.limit
            &&& forall|i: int|
                0 <= i < page.hits.len() ==> #[trigger] page.hits[i] == query_search::hit_of(
                    visited[i],
                    request.projection,
                )
        }),
{
}

} // verus!
