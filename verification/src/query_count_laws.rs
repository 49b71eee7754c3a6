//! Aggregates and searches look at the same rows.

use vstd::prelude::*;

use crate::ordering;
use crate::query_aggregate;
use crate::query_catalog;
use crate::query_groups;
use crate::query_page_laws;
use crate::query_rows;
use crate::query_rows::{RowView, VisibleWorkspaceView};
use crate::query_search;
use crate::query_search_laws;
use crate::query_tally;
use crate::query_types::{
    AggregateFunction, AggregateGroupView, AggregatePageView, AggregateRequestView,
    AggregateSpecView, QueryFailure, SearchRequestView,
};
use crate::scalars::QueryScalarView;
use crate::sorted_maps;
use crate::sorted_maps::Entry;

verus! {

/// Counting rows does not fail.
proof fn row_counts_do_not_fail(rows: Seq<RowView>, spec: AggregateSpecView, n: int)
    requires
        spec.function == AggregateFunction::Count,
        0 <= n <= rows.len(),
    ensures
        query_groups::first_failure(rows, Seq::empty(), seq![spec], n) is None,
    decreases rows.len() - n,
{
    if n < rows.len() {
        let none = Seq::<Seq<u8>>::empty();
        let seen = query_groups::group_rows(
            rows.take(n + 1),
            none,
            query_groups::row_key(rows[n], none),
        );
        reveal_with_fuel(query_groups::failing_aggregate, 2);
        assert(query_groups::failing_aggregate(seq![spec], seen, 0) is None);
        row_counts_do_not_fail(rows, spec, n + 1);
    }
}

/// Where nothing is grouped, all rows are one group.
proof fn ungrouped_rows_are_one_group(rows: Seq<RowView>)
    ensures
        query_groups::group_rows(rows, Seq::empty(), Seq::empty()) == rows,
    decreases rows.len(),
{
    let none = Seq::<Seq<u8>>::empty();
    if rows.len() > 0 {
        ungrouped_rows_are_one_group(rows.drop_last());
        assert(query_groups::row_key(rows.last(), none) =~= Seq::<QueryScalarView>::empty());
        assert(rows.drop_last().push(rows.last()) =~= rows);
    } else {
        assert(rows =~= Seq::<RowView>::empty());
    }
}

/// Where nothing is grouped, there is one key, which is empty.
proof fn ungrouped_rows_have_one_key(rows: Seq<RowView>)
    ensures
        query_groups::planned_keys(rows, Seq::empty(), None) == seq![
            Seq::<QueryScalarView>::empty(),
        ],
{
    let none = Seq::<Seq<u8>>::empty();
    let keys = seq![Seq::<QueryScalarView>::empty()];
    if rows.len() > 0 {
        assert forall|i: int| 0 <= i < rows.len() implies keys.contains(
            query_groups::row_key(#[trigger] rows[i], none),
        ) by {
            assert(query_groups::row_key(rows[i], none) =~= keys[0]);
            assert(keys.contains(keys[0]));
        }
        assert(query_groups::row_key(rows[0], none) =~= keys[0]);
        assert(ordering::strictly_sorted(
            keys,
            |a: query_groups::GroupKey, b: query_groups::GroupKey| query_groups::key_less(a, b),
        ));
        assert(query_groups::is_key_list(rows, none, keys));
        query_groups::group_keys_are_unique(rows, none, keys);
    }
}

/// No fields pair to the empty map, and one field to one entry.
proof fn short_pairings(field: Seq<u8>, value: QueryScalarView)
    ensures
        query_aggregate::pairing(Seq::empty(), Seq::empty())
            == Seq::<Entry<QueryScalarView>>::empty(),
        query_aggregate::pairing(seq![field], seq![value]) == seq![(field, value)],
{
    let none = Seq::<Entry<QueryScalarView>>::empty();
    assert(query_aggregate::is_pairing(Seq::empty(), Seq::empty(), none));
    query_aggregate::pairing_is_unique(Seq::empty(), Seq::empty(), none);
    let one = seq![(field, value)];
    assert forall|other: Seq<u8>| #[trigger]
        sorted_maps::lookup(one, other) == query_aggregate::paired(
            seq![field],
            seq![value],
            other,
        ) by {
        reveal_with_fuel(sorted_maps::lookup, 2);
        reveal_with_fuel(query_aggregate::paired, 2);
        assert(one.drop_last() =~= none);
        assert(seq![field].drop_last() =~= Seq::<Seq<u8>>::empty());
    }
    assert(query_aggregate::is_pairing(seq![field], seq![value], one));
    query_aggregate::pairing_is_unique(seq![field], seq![value], one);
}

/// A list of one group is its own order.
proof fn one_group_is_in_order(group: AggregateGroupView, request: AggregateRequestView)
    ensures
        query_aggregate::ordered_groups(seq![group], request.sort) == seq![group],
{
    let groups = seq![group];
    let less = |i: int, j: int|
        query_aggregate::group_less(groups[i], groups[j], request.sort);
    assert forall|i: int, j: int|
        #![trigger less(i, j)]
        0 <= i < groups.len() && 0 <= j < groups.len() && less(i, j) implies !less(j, i) by {
        query_aggregate::group_less_asymmetric(groups[i], groups[j], request.sort);
    }
    assert forall|i: int, j: int, k: int|
        #![trigger less(i, k), less(j, k)]
        0 <= i < groups.len() && 0 <= j < groups.len() && 0 <= k < groups.len() && less(
            i,
            k,
        ) implies less(i, j) || less(j, k) by {
        query_aggregate::group_less_splits(groups[i], groups[j], groups[k], request.sort);
    }
    ordering::stable_order_exists(groups.len(), less);
    let order = ordering::stable_order(groups.len(), less);
    assert(0 <= order[0] < 1);
    assert(query_aggregate::ordered_groups(groups, request.sort) =~= groups);
}

/// An ungrouped row count is one group that holds the number of hits of a whole
/// search over the same rows with the same predicates, also where there is none.
pub proof fn row_counts_equal_search_hits(
    rows: Seq<RowView>,
    search: SearchRequestView,
    request: AggregateRequestView,
    result_id: Seq<u8>,
    read_version: u64,
    folds: Seq<Seq<u64>>,
)
    requires
        rows.len() <= u64::MAX,
        request.predicates == search.predicates,
        request.group_by == Seq::<Seq<u8>>::empty(),
        request.aggregates == seq![
            AggregateSpecView { result_id, function: AggregateFunction::Count, field_id: None },
        ],
        request.cursor is None,
        request.limit > 0,
    ensures
        query_aggregate::aggregate(rows, request, read_version, folds) == Ok::<
            AggregatePageView,
            QueryFailure,
        >(
            AggregatePageView {
                groups: seq![
                    AggregateGroupView {
                        keys: Seq::empty(),
                        values: seq![
                            (
                                result_id,
                                QueryScalarView::Unsigned(
                                    query_search_laws::all_hits(rows, search).len() as u64,
                                ),
                            ),
                        ],
                    },
                ],
                next_cursor: None,
                read_version,
            },
        ),
        query_search_laws::all_hits(rows, search).len() <= u64::MAX,
{
    let spec = request.aggregates[0];
    let matching = query_search::matching_rows(rows, request.predicates);
    query_search_laws::matching_rows_are_no_more(rows, request.predicates);
    query_page_laws::search_order_is_total(matching, search.sort);
    let count = matching.len() as u64;
    assert(query_search_laws::all_hits(rows, search).len() == count);
    assert(request.aggregates =~= seq![spec]);
    row_counts_do_not_fail(matching, spec, 0);
    ungrouped_rows_have_one_key(matching);
    ungrouped_rows_are_one_group(matching);
    let key = Seq::<QueryScalarView>::empty();
    let groups = query_groups::planned_groups(matching, request.group_by, request.aggregates);
    assert(groups.len() == 1);
    assert(groups[0].key == key);
    assert(groups[0].tallies.len() == 1);
    assert(groups[0].tallies[0] == query_tally::Tally::Count(count));
    assert(groups =~= seq![groups[0]]);
    assert(!query_aggregate::some_fold_fails(groups, folds, true)
        && !query_aggregate::some_fold_fails(groups, folds, false)) by {
        assert forall|g: int, s: int|
            #![trigger groups[g].tallies[s]]
            0 <= g < groups.len() && 0 <= s < groups[g].tallies.len() implies
            !query_tally::needs_fold(groups[g].tallies[s]) by {
            assert(g == 0 && s == 0);
        }
    }
    let value = QueryScalarView::Unsigned(count);
    short_pairings(result_id, value);
    let group = query_aggregate::group_of(groups[0], request, folds[0]);
    assert(query_catalog::result_ids(request.aggregates) =~= seq![result_id]);
    assert(query_aggregate::results(groups[0].tallies, folds[0]) =~= seq![value]);
    assert(Seq::new(
        groups.len(),
        |g: int| query_aggregate::group_of(groups[g], request, folds[g]),
    ) =~= seq![group]);
    one_group_is_in_order(group, request);
    assert(seq![group].subrange(0, 1) =~= seq![group]);
}

/// An ungrouped row count over stored paths holds the number of hits that the
/// pages of a whole search with the same prefix and predicates hold together.
pub proof fn row_counts_equal_whole_searches(
    visible: Seq<VisibleWorkspaceView>,
    scans: query_search_laws::PathScans,
    search: SearchRequestView,
    request: AggregateRequestView,
    result_id: Seq<u8>,
    read_version: u64,
    folds: Seq<Seq<u64>>,
    pages: nat,
)
    requires
        visible.len() == scans.len(),
        query_page_laws::workbenches_distinct(visible),
        query_page_laws::workbenches_named(visible),
        query_search_laws::scans_distinct(scans),
        query_rows::rows_of(visible, scans, search.path_prefix) is Ok,
        query_rows::rows_of(visible, scans, search.path_prefix)->Ok_0.len() <= u64::MAX,
        search.cursor is None,
        query_search::search(
            query_rows::rows_of(visible, scans, search.path_prefix)->Ok_0,
            search,
            read_version,
        ) is Ok,
        pages * search.limit >= query_rows::rows_of(
            visible,
            scans,
            search.path_prefix,
        )->Ok_0.len(),
        request.path_prefix == search.path_prefix,
        request.predicates == search.predicates,
        request.group_by == Seq::<Seq<u8>>::empty(),
        request.aggregates == seq![
            AggregateSpecView { result_id, function: AggregateFunction::Count, field_id: None },
        ],
        request.cursor is None,
        request.limit > 0,
    ensures
        ({
            let rows = query_rows::rows_of(visible, scans, request.path_prefix)->Ok_0;
            let hits = query_search_laws::hits_reached(rows, search, read_version, pages);
            hits.len() <= u64::MAX && query_aggregate::aggregate(rows, request, read_version, folds)
                == Ok::<AggregatePageView, QueryFailure>(
                AggregatePageView {
                    groups: seq![
                        AggregateGroupView {
                            keys: Seq::empty(),
                            values: seq![
                                (result_id, QueryScalarView::Unsigned(hits.len() as u64)),
                            ],
                        },
                    ],
                    next_cursor: None,
                    read_version,
                },
            )
        }),
{
    let rows = query_rows::rows_of(visible, scans, request.path_prefix)->Ok_0;
    query_search_laws::collected_rows_are_distinct(visible, scans, request.path_prefix);
    query_search_laws::all_hits_are_the_matches(rows, search);
    query_search_laws::matching_rows_are_no_more(rows, search.predicates);
    query_search_laws::search_pages_hold_every_match(rows, search, read_version, pages);
    row_counts_equal_search_hits(rows, search, request, result_id, read_version, folds);
}

} // verus!
