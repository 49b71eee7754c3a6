//! Metadata search: matching rows in a stable order, their facets, and pages.

use vstd::prelude::*;

use crate::bytes;
use crate::digest;
use crate::names::QueryFieldId;
use crate::namespace_types::RootReadContext;
use crate::ordering;
use crate::ordering::Comparison;
use crate::query_catalog;
use crate::query_cursor;
use crate::query_cursor::{CursorKind, CursorView};
use crate::query_digests;
use crate::query_rows;
use crate::query_rows::{CollectedRows, MaterializedRow, RowView};
use crate::query_types;
use crate::query_types::{
    FacetBucket, FacetBucketView, FacetResult, FacetResultView, QueryError, QueryFailure,
    QueryPredicate, QueryPredicateView, QuerySort, QuerySortDirection, QuerySortView, SearchHit,
    SearchHitView, SearchPage, SearchPageView, SearchRequest, SearchRequestView,
    MAX_FACET_BUCKETS_PER_FIELD,
};
use crate::scalars::{QueryScalar, QueryScalarView};
use crate::sorted_maps;
use crate::sorted_maps::{Entry, FieldMap};
use crate::store_records;

verus! {

/// An absent value comes before every present one.
pub open spec fn optional_less(
    left: Option<QueryScalarView>,
    right: Option<QueryScalarView>,
) -> bool {
    match (left, right) {
        (_, None) => false,
        (None, Some(_)) => true,
        (Some(left), Some(right)) => left.less(right),
    }
}

/// One value comes before another under a direction.
pub open spec fn directed_less(
    left: Option<QueryScalarView>,
    right: Option<QueryScalarView>,
    direction: QuerySortDirection,
) -> bool {
    match direction {
        QuerySortDirection::Ascending => optional_less(left, right),
        QuerySortDirection::Descending => optional_less(right, left),
    }
}

/// Different values come one before the other, and not both ways.
pub proof fn directed_total(
    left: Option<QueryScalarView>,
    right: Option<QueryScalarView>,
    direction: QuerySortDirection,
)
    ensures
        left != right ==> directed_less(left, right, direction) || directed_less(
            right,
            left,
            direction,
        ),
        !(directed_less(left, right, direction) && directed_less(right, left, direction)),
        left == right ==> !directed_less(left, right, direction),
{
    if let (Some(a), Some(b)) = (left, right) {
        a.less_total(b);
        a.less_irreflexive();
        if a.less(b) && b.less(a) {
            a.less_transitive(b, a);
        }
    }
}

/// The order of values under a direction is transitive.
pub proof fn directed_transitive(
    a: Option<QueryScalarView>,
    b: Option<QueryScalarView>,
    c: Option<QueryScalarView>,
    direction: QuerySortDirection,
)
    requires
        directed_less(a, b, direction),
        directed_less(b, c, direction),
    ensures
        directed_less(a, c, direction),
{
    match direction {
        QuerySortDirection::Ascending => {
            if let (Some(x), Some(y), Some(z)) = (a, b, c) {
                x.less_transitive(y, z);
            }
        },
        QuerySortDirection::Descending => {
            if let (Some(x), Some(y), Some(z)) = (c, b, a) {
                x.less_transitive(y, z);
            }
        },
    }
}

/// Whether one value comes before another under a direction.
pub fn directed_before(
    left: &Option<QueryScalar>,
    right: &Option<QueryScalar>,
    direction: QuerySortDirection,
) -> (before: bool)
    ensures
        before == directed_less(bytes::option_view(*left), bytes::option_view(*right), direction),
{
    let ascending: bool = direction == QuerySortDirection::Ascending;
    match (left, right) {
        (None, None) => false,
        (None, Some(_)) => ascending,
        (Some(_), None) => !ascending,
        (Some(left), Some(right)) => {
            if ascending {
                left.before(right)
            } else {
                right.before(left)
            }
        },
    }
}

/// Whether two optional values are the same.
pub fn optional_same(left: &Option<QueryScalar>, right: &Option<QueryScalar>) -> (same: bool)
    ensures
        same == (bytes::option_view(*left) == bytes::option_view(*right)),
{
    match (left, right) {
        (None, None) => true,
        (Some(left), Some(right)) => left.same(right),
        _ => false,
    }
}

/// One row comes before another: by the sort fields in order, then by
/// workbench, then by path.
pub open spec fn row_less(left: RowView, right: RowView, sort: Seq<QuerySortView>) -> bool
    decreases sort.len(),
{
    if sort.len() == 0 {
        bytes::lex_less(left.workbench_id, right.workbench_id) || (left.workbench_id
            == right.workbench_id && bytes::lex_less(left.path, right.path))
    } else {
        let x = left.value(sort[0].field_id);
        let y = right.value(sort[0].field_id);
        if x == y {
            row_less(left, right, sort.drop_first())
        } else {
            directed_less(x, y, sort[0].direction)
        }
    }
}

/// No two rows come before each other.
pub proof fn row_less_asymmetric(left: RowView, right: RowView, sort: Seq<QuerySortView>)
    requires
        row_less(left, right, sort),
    ensures
        !row_less(right, left, sort),
    decreases sort.len(),
{
    if sort.len() == 0 {
        bytes::lex_less_irreflexive(left.workbench_id);
        bytes::lex_less_irreflexive(left.path);
        if bytes::lex_less(left.workbench_id, right.workbench_id) && bytes::lex_less(
            right.workbench_id,
            left.workbench_id,
        ) {
            bytes::lex_less_transitive(left.workbench_id, right.workbench_id, left.workbench_id);
        }
        if bytes::lex_less(left.path, right.path) && bytes::lex_less(right.path, left.path) {
            bytes::lex_less_transitive(left.path, right.path, left.path);
        }
    } else {
        let x = left.value(sort[0].field_id);
        let y = right.value(sort[0].field_id);
        directed_total(x, y, sort[0].direction);
        if x == y {
            row_less_asymmetric(left, right, sort.drop_first());
        }
    }
}

/// A row that comes before another comes before or after every third.
pub proof fn row_less_splits(a: RowView, b: RowView, c: RowView, sort: Seq<QuerySortView>)
    requires
        row_less(a, c, sort),
    ensures
        row_less(a, b, sort) || row_less(b, c, sort),
    decreases sort.len(),
{
    if sort.len() == 0 {
        bytes::lex_less_total(a.workbench_id, b.workbench_id);
        bytes::lex_less_total(b.workbench_id, c.workbench_id);
        bytes::lex_less_total(a.path, b.path);
        bytes::lex_less_total(b.path, c.path);
        if bytes::lex_less(b.workbench_id, a.workbench_id) && bytes::lex_less(
            a.workbench_id,
            c.workbench_id,
        ) {
            bytes::lex_less_transitive(b.workbench_id, a.workbench_id, c.workbench_id);
        }
        if bytes::lex_less(b.path, a.path) && bytes::lex_less(a.path, c.path) {
            bytes::lex_less_transitive(b.path, a.path, c.path);
        }
    } else {
        let direction = sort[0].direction;
        let x = a.value(sort[0].field_id);
        let y = b.value(sort[0].field_id);
        let z = c.value(sort[0].field_id);
        directed_total(x, y, direction);
        directed_total(y, z, direction);
        if x == z {
            if y == x {
                row_less_splits(a, b, c, sort.drop_first());
            }
        } else if y != x && y != z && directed_less(y, x, direction) {
            directed_transitive(y, x, z, direction);
        }
    }
}

/// Different rows come one before the other.
pub proof fn row_less_total(left: RowView, right: RowView, sort: Seq<QuerySortView>)
    requires
        left.workbench_id != right.workbench_id || left.path != right.path,
    ensures
        row_less(left, right, sort) || row_less(right, left, sort),
    decreases sort.len(),
{
    if sort.len() == 0 {
        bytes::lex_less_total(left.workbench_id, right.workbench_id);
        bytes::lex_less_total(left.path, right.path);
    } else {
        let x = left.value(sort[0].field_id);
        let y = right.value(sort[0].field_id);
        directed_total(x, y, sort[0].direction);
        if x == y {
            row_less_total(left, right, sort.drop_first());
        }
    }
}

/// Whether one row comes before another.
pub fn row_before(left: &MaterializedRow, right: &MaterializedRow, sort: &Vec<QuerySort>) -> (before:
    bool)
    ensures
        before == row_less(left@, right@, store_records::views(sort@)),
{
    let ghost all = store_records::views(sort@);
    let mut i: usize = 0;
    assert(all.skip(0) =~= all);
    while i < sort.len()
        invariant
            i <= sort@.len(),
            all == store_records::views(sort@),
            row_less(left@, right@, all) == row_less(left@, right@, all.skip(i as int)),
        decreases sort@.len() - i,
    {
        proof {
            let rest = all.skip(i as int);
            assert(rest[0] == sort@[i as int]@);
            assert(rest.drop_first() =~= all.skip(i + 1));
        }
        let x = left.value(&sort[i].field_id);
        let y = right.value(&sort[i].field_id);
        if !optional_same(&x, &y) {
            return directed_before(&x, &y, sort[i].direction);
        }
        i = i + 1;
    }
    if left.workbench_id.same(&right.workbench_id) {
        proof {
            bytes::lex_less_irreflexive(left.workbench_id@);
        }
        bytes::bytes_less(left.path.as_bytes(), right.path.as_bytes())
    } else {
        bytes::bytes_less(left.workbench_id.as_bytes(), right.workbench_id.as_bytes())
    }
}

/// Rows under the sort of one request.
pub struct SortedRows<'a> {
    pub rows: &'a Vec<MaterializedRow>,
    pub sort: &'a Vec<QuerySort>,
}

impl<'a> Comparison for SortedRows<'a> {
    open spec fn count(&self) -> nat {
        self.rows@.len()
    }

    open spec fn less(&self, i: int, j: int) -> bool {
        row_less(
            store_records::views(self.rows@)[i],
            store_records::views(self.rows@)[j],
            store_records::views(self.sort@),
        )
    }

    open spec fn comparable(&self) -> bool {
        true
    }

    proof fn less_asymmetric(&self, i: int, j: int) {
        row_less_asymmetric(
            store_records::views(self.rows@)[i],
            store_records::views(self.rows@)[j],
            store_records::views(self.sort@),
        );
    }

    proof fn less_splits(&self, i: int, j: int, k: int) {
        row_less_splits(
            store_records::views(self.rows@)[i],
            store_records::views(self.rows@)[j],
            store_records::views(self.rows@)[k],
            store_records::views(self.sort@),
        );
    }

    fn before(&self, i: usize, j: usize) -> (before: bool) {
        assert(store_records::views(self.rows@)[i as int] == self.rows@[i as int]@);
        assert(store_records::views(self.rows@)[j as int] == self.rows@[j as int]@);
        row_before(&self.rows[i], &self.rows[j], self.sort)
    }
}

/// The numbers of the rows in the order of the sort; rows that compare equal
/// keep their order.
pub open spec fn row_order(rows: Seq<RowView>, sort: Seq<QuerySortView>) -> Seq<int> {
    ordering::stable_order(rows.len(), |i: int, j: int| row_less(rows[i], rows[j], sort))
}

/// The rows in the order of the sort.
pub open spec fn ordered_rows(rows: Seq<RowView>, sort: Seq<QuerySortView>) -> Seq<RowView> {
    let order = row_order(rows, sort);
    Seq::new(order.len(), |k: int| rows[order[k]])
}

/// Sorts rows; gives their numbers in order.
pub fn sort_rows(rows: &Vec<MaterializedRow>, sort: &Vec<QuerySort>) -> (order: Vec<usize>)
    ensures
        ordering::numbers(order@) == row_order(
            store_records::views(rows@),
            store_records::views(sort@),
        ),
        order@.len() == rows@.len(),
        forall|k: int| 0 <= k < order@.len() ==> #[trigger] order@[k] < rows@.len(),
{
    let items = SortedRows { rows, sort };
    let order = ordering::stable_sort(&items, rows.len());
    proof {
        let views = store_records::views(rows@);
        let sorts = store_records::views(sort@);
        let less = |i: int, j: int| row_less(views[i], views[j], sorts);
        assert(ordering::order_of(&items) =~= less);
        let chosen = row_order(views, sorts);
        assert forall|k: int| 0 <= k < order@.len() implies #[trigger] order@[k] < rows@.len() by {
            assert(ordering::numbers(order@)[k] == order@[k]);
            assert(0 <= chosen[k] < rows@.len());
        }
    }
    order
}

/// The rows that every predicate selects.
pub open spec fn matching_rows(rows: Seq<RowView>, predicates: Seq<QueryPredicateView>) -> Seq<
    RowView,
>
    decreases rows.len(),
{
    if rows.len() == 0 {
        Seq::empty()
    } else if query_rows::selected(rows.last(), predicates) {
        matching_rows(rows.drop_last(), predicates).push(rows.last())
    } else {
        matching_rows(rows.drop_last(), predicates)
    }
}

/// Keeps the rows that every predicate selects.
pub fn select_rows(rows: Vec<MaterializedRow>, predicates: &Vec<QueryPredicate>) -> (matching: Vec<
    MaterializedRow,
>)
    ensures
        store_records::views(matching@) == matching_rows(
            store_records::views(rows@),
            store_records::views(predicates@),
        ),
{
    let mut matching: Vec<MaterializedRow> = Vec::new();
    let ghost all = store_records::views(rows@);
    let ghost listed = rows@;
    let ghost wanted = store_records::views(predicates@);
    proof {
        assert(all.take(0) =~= Seq::<RowView>::empty());
        assert(store_records::views(matching@) =~= Seq::<RowView>::empty());
    }
    for row in it: rows.into_iter()
        invariant
            it.seq() == listed,
            all == store_records::views(listed),
            wanted == store_records::views(predicates@),
            store_records::views(matching@) == matching_rows(all.take(it.index() as int), wanted),
    {
        let ghost n = it.index() as int;
        let ghost before = store_records::views(matching@);
        proof {
            assert(row == listed[n]);
            assert(all[n] == row@);
            assert(all.take(n + 1).drop_last() =~= all.take(n));
            assert(all.take(n + 1).last() == row@);
        }
        if query_rows::predicates_match(&row, predicates) {
            matching.push(row);
            assert(store_records::views(matching@) =~= before.push(row@));
        }
    }
    assert(all.take(all.len() as int) =~= all);
    matching
}

/// Values of a field in the rows that carry it.
pub open spec fn field_values(rows: Seq<RowView>, field: Seq<u8>) -> Seq<QueryScalarView>
    decreases rows.len(),
{
    if rows.len() == 0 {
        Seq::empty()
    } else {
        match rows.last().value(field) {
            Some(value) => field_values(rows.drop_last(), field).push(value),
            None => field_values(rows.drop_last(), field),
        }
    }
}

/// Number of times a value occurs.
pub open spec fn occurrences(values: Seq<QueryScalarView>, value: QueryScalarView) -> nat
    decreases values.len(),
{
    if values.len() == 0 {
        0
    } else {
        occurrences(values.drop_last(), value) + (if values.last() == value {
            1nat
        } else {
            0nat
        })
    }
}

/// A value occurs at most as often as there are values, and at all exactly
/// where it is one of them.
pub proof fn occurrences_are_bounded(values: Seq<QueryScalarView>, value: QueryScalarView)
    ensures
        occurrences(values, value) <= values.len(),
        occurrences(values, value) > 0 <==> values.contains(value),
    decreases values.len(),
{
    if values.len() > 0 {
        let shorter = values.drop_last();
        occurrences_are_bounded(shorter, value);
        if shorter.contains(value) {
            let k = choose|k: int| 0 <= k < shorter.len() && shorter[k] == value;
            assert(values[k] == value);
        }
        if values.contains(value) && values.last() != value {
            let k = choose|k: int| 0 <= k < values.len() && values[k] == value;
            assert(shorter[k] == value);
        }
        if values.last() == value {
            assert(values[values.len() - 1] == value);
        }
    }
}

/// One bucket comes before another: by descending count, then by value.
pub open spec fn bucket_less(left: FacetBucketView, right: FacetBucketView) -> bool {
    left.count > right.count || (left.count == right.count && left.value.less(right.value))
}

/// No two buckets come before each other.
pub proof fn bucket_less_asymmetric(left: FacetBucketView, right: FacetBucketView)
    requires
        bucket_less(left, right),
    ensures
        !bucket_less(right, left),
{
    if left.count == right.count && right.value.less(left.value) {
        left.value.less_transitive(right.value, left.value);
        left.value.less_irreflexive();
    }
}

/// The buckets hold each value once, with the number of times it occurs, in
/// order.
pub open spec fn is_ranking(values: Seq<QueryScalarView>, buckets: Seq<FacetBucketView>) -> bool {
    &&& forall|i: int|
        0 <= i < buckets.len() ==> (#[trigger] buckets[i]).count == occurrences(
            values,
            buckets[i].value,
        ) && buckets[i].count > 0
    &&& forall|value: QueryScalarView| #[trigger]
        values.contains(value) ==> exists|i: int|
            0 <= i < buckets.len() && (#[trigger] buckets[i]).value == value
    &&& ordering::strictly_sorted(
        buckets,
        |a: FacetBucketView, b: FacetBucketView| bucket_less(a, b),
    )
}

/// All buckets of the values.
pub open spec fn ranking(values: Seq<QueryScalarView>) -> Seq<FacetBucketView> {
    choose|buckets: Seq<FacetBucketView>| is_ranking(values, buckets)
}

/// Values have exactly one ranking.
pub proof fn ranking_is_unique(values: Seq<QueryScalarView>, buckets: Seq<FacetBucketView>)
    requires
        is_ranking(values, buckets),
    ensures
        buckets == ranking(values),
{
    let chosen = ranking(values);
    let before = |a: FacetBucketView, b: FacetBucketView| bucket_less(a, b);
    assert forall|x: FacetBucketView| buckets.contains(x) <==> chosen.contains(x) by {
        if buckets.contains(x) {
            let i = choose|i: int| 0 <= i < buckets.len() && buckets[i] == x;
            assert(buckets[i].count > 0);
            occurrences_are_bounded(values, x.value);
            assert(values.contains(x.value));
            let k = choose|k: int| 0 <= k < chosen.len() && (#[trigger] chosen[k]).value == x.value;
            assert(chosen[k] == x);
        }
        if chosen.contains(x) {
            let i = choose|i: int| 0 <= i < chosen.len() && chosen[i] == x;
            assert(chosen[i].count > 0);
            occurrences_are_bounded(values, x.value);
            assert(values.contains(x.value));
            let k = choose|k: int|
                0 <= k < buckets.len() && (#[trigger] buckets[k]).value == x.value;
            assert(buckets[k] == x);
        }
    }
    assert forall|i: int, j: int|
        #![trigger buckets[i], buckets[j]]
        0 <= i < buckets.len() && 0 <= j < buckets.len() implies !(before(buckets[i], buckets[j])
        && before(buckets[j], buckets[i])) by {
        if before(buckets[i], buckets[j]) {
            bucket_less_asymmetric(buckets[i], buckets[j]);
        }
    }
    ordering::sorted_lists_are_equal(buckets, chosen, before);
}

/// The first of the values have buckets that count all values.
proof fn first_values_are_ranked(values: Seq<QueryScalarView>, n: int) -> (buckets: Seq<
    FacetBucketView,
>)
    requires
        0 <= n <= values.len() <= u64::MAX,
    ensures
        forall|i: int|
            0 <= i < buckets.len() ==> (#[trigger] buckets[i]).count == occurrences(
                values,
                buckets[i].value,
            ) && buckets[i].count > 0,
        forall|k: int|
            0 <= k < n ==> exists|i: int|
                0 <= i < buckets.len() && (#[trigger] buckets[i]).value == #[trigger] values[k],
        ordering::strictly_sorted(
            buckets,
            |a: FacetBucketView, b: FacetBucketView| bucket_less(a, b),
        ),
    decreases n,
{
    let before = |a: FacetBucketView, b: FacetBucketView| bucket_less(a, b);
    if n == 0 {
        Seq::empty()
    } else {
        let value = values[n - 1];
        let earlier = first_values_are_ranked(values, n - 1);
        occurrences_are_bounded(values, value);
        assert(values.contains(value));
        let bucket = FacetBucketView { value, count: occurrences(values, value) as u64 };
        let buckets = if earlier.contains(bucket) {
            earlier
        } else {
            assert forall|a: FacetBucketView, b: FacetBucketView| #![trigger before(a, b)]
                a == b || before(a, b) || before(b, a) by {
                a.value.less_total(b.value);
            }
            assert forall|a: FacetBucketView, b: FacetBucketView, c: FacetBucketView|
                #![trigger before(a, b), before(b, c)]
                before(a, b) && before(b, c) implies before(a, c) by {
                if a.count == b.count && b.count == c.count {
                    a.value.less_transitive(b.value, c.value);
                }
            }
            ordering::sorted_list_takes(earlier, bucket, before)
        };
        assert(buckets.contains(bucket));
        assert forall|i: int| 0 <= i < buckets.len() implies (#[trigger] buckets[i]).count
            == occurrences(values, buckets[i].value) && buckets[i].count > 0 by {
            assert(buckets.contains(buckets[i]));
            if buckets[i] != bucket {
                let h = choose|h: int| 0 <= h < earlier.len() && earlier[h] == buckets[i];
                assert(earlier[h].count > 0);
            }
        }
        assert forall|k: int| 0 <= k < n implies exists|i: int|
            0 <= i < buckets.len() && (#[trigger] buckets[i]).value == #[trigger] values[k] by {
            if k < n - 1 {
                let h = choose|h: int|
                    0 <= h < earlier.len() && (#[trigger] earlier[h]).value == values[k];
                assert(earlier.contains(earlier[h]));
                assert(buckets.contains(earlier[h]));
                let i = choose|i: int| 0 <= i < buckets.len() && buckets[i] == earlier[h];
                assert(buckets[i].value == values[k]);
            } else {
                let i = choose|i: int| 0 <= i < buckets.len() && buckets[i] == bucket;
                assert(buckets[i].value == values[k]);
            }
        }
        buckets
    }
}

/// All values, as many as a count can hold, have a ranking.
pub proof fn ranking_exists(values: Seq<QueryScalarView>)
    requires
        values.len() <= u64::MAX,
    ensures
        is_ranking(values, ranking(values)),
{
    let buckets = first_values_are_ranked(values, values.len() as int);
    assert forall|value: QueryScalarView| #[trigger] values.contains(value) implies exists|i: int|
        0 <= i < buckets.len() && (#[trigger] buckets[i]).value == value by {
        let k = choose|k: int| 0 <= k < values.len() && values[k] == value;
        assert(values[k] == value);
    }
    assert(is_ranking(values, buckets));
}

/// The facet of one field over the matching rows.
pub open spec fn facet_of(rows: Seq<RowView>, field: Seq<u8>) -> FacetResultView {
    let buckets = ranking(field_values(rows, field));
    FacetResultView {
        field_id: field,
        buckets: buckets.take(
            if buckets.len() > MAX_FACET_BUCKETS_PER_FIELD {
                MAX_FACET_BUCKETS_PER_FIELD as int
            } else {
                buckets.len() as int
            },
        ),
        distinct_count: buckets.len() as u64,
        truncated: buckets.len() > MAX_FACET_BUCKETS_PER_FIELD,
    }
}

/// The first bucket whose value does not come before the given one.
fn find_bucket(buckets: &Vec<FacetBucket>, value: &QueryScalar) -> (index: usize)
    requires
        forall|i: int, j: int|
            #![trigger buckets@[i], buckets@[j]]
            0 <= i < j < buckets@.len() ==> buckets@[i].value@.less(buckets@[j].value@),
    ensures
        index <= buckets@.len(),
        forall|i: int| 0 <= i < index ==> (#[trigger] buckets@[i]).value@.less(value@),
        forall|i: int|
            index <= i < buckets@.len() ==> !(#[trigger] buckets@[i]).value@.less(value@),
{
    let mut low: usize = 0;
    let mut high: usize = buckets.len();
    while low < high
        invariant
            low <= high <= buckets@.len(),
            forall|i: int, j: int|
                #![trigger buckets@[i], buckets@[j]]
                0 <= i < j < buckets@.len() ==> buckets@[i].value@.less(buckets@[j].value@),
            forall|i: int| 0 <= i < low ==> (#[trigger] buckets@[i]).value@.less(value@),
            forall|i: int|
                high <= i < buckets@.len() ==> !(#[trigger] buckets@[i]).value@.less(value@),
        decreases high - low,
    {
        let middle: usize = low + (high - low) / 2;
        if buckets[middle].value.before(value) {
            proof {
                assert forall|i: int| 0 <= i < middle + 1 implies (
                #[trigger] buckets@[i]).value@.less(value@) by {
                    if i < middle {
                        assert(buckets@[i].value@.less(buckets@[middle as int].value@));
                        buckets@[i].value@.less_transitive(
                            buckets@[middle as int].value@,
                            value@,
                        );
                    }
                }
            }
            low = middle + 1;
        } else {
            proof {
                assert forall|i: int| middle <= i < buckets@.len() implies !(
                #[trigger] buckets@[i]).value@.less(value@) by {
                    if i > middle && buckets@[i].value@.less(value@) {
                        assert(buckets@[middle as int].value@.less(buckets@[i].value@));
                        buckets@[middle as int].value@.less_transitive(
                            buckets@[i].value@,
                            value@,
                        );
                    }
                }
            }
            high = middle;
        }
    }
    low
}

/// Counts of the values, in ascending order of the values.
spec fn counts(values: Seq<QueryScalarView>, buckets: Seq<FacetBucketView>) -> bool {
    &&& forall|i: int|
        0 <= i < buckets.len() ==> (#[trigger] buckets[i]).count == occurrences(
            values,
            buckets[i].value,
        ) && buckets[i].count > 0
    &&& forall|value: QueryScalarView| #[trigger]
        values.contains(value) ==> exists|i: int|
            0 <= i < buckets.len() && (#[trigger] buckets[i]).value == value
    &&& forall|i: int, j: int|
        #![trigger buckets[i], buckets[j]]
        0 <= i < j < buckets.len() ==> buckets[i].value.less(buckets[j].value)
}

/// Counts one more value.
fn count_value(buckets: &mut Vec<FacetBucket>, value: QueryScalar, Ghost(values): Ghost<
    Seq<QueryScalarView>,
>)
    requires
        counts(values, store_records::views(old(buckets)@)),
        values.len() < u64::MAX,
    ensures
        counts(values.push(value@), store_records::views(final(buckets)@)),
{
    let ghost was = store_records::views(buckets@);
    let ghost added = value@;
    let ghost now_values = values.push(added);
    proof {
        assert forall|i: int, j: int|
            #![trigger buckets@[i], buckets@[j]]
            0 <= i < j < buckets@.len() implies buckets@[i].value@.less(buckets@[j].value@) by {
            assert(was[i] == buckets@[i]@ && was[j] == buckets@[j]@);
        }
        assert(now_values.drop_last() =~= values);
        occurrences_are_bounded(values, added);
    }
    let index: usize = find_bucket(buckets, &value);
    let found: bool = index < buckets.len() && buckets[index].value.same(&value);
    proof {
        assert forall|i: int| 0 <= i < index implies (#[trigger] was[i]).value.less(added) by {
            assert(was[i] == buckets@[i]@);
        }
        assert forall|i: int| index <= i < was.len() implies !(#[trigger] was[i]).value.less(
            added,
        ) by {
            assert(was[i] == buckets@[i]@);
        }
        if index < was.len() {
            assert(was[index as int] == buckets@[index as int]@);
        }
    }
    if found {
        let count: u64 = buckets[index].count;
        let kept = buckets[index].value.clone();
        assert(was[index as int].value == added);
        assert(count == occurrences(values, added));
        buckets.set(index, FacetBucket { value: kept, count: count + 1 });
        proof {
            let now = store_records::views(buckets@);
            assert(now =~= was.update(
                index as int,
                FacetBucketView { value: added, count: (count + 1) as u64 },
            ));
            assert forall|i: int| 0 <= i < now.len() implies (#[trigger] now[i]).count
                == occurrences(now_values, now[i].value) && now[i].count > 0 by {
                if i != index {
                    assert(now[i] == was[i]);
                    added.less_irreflexive();
                    if i < index {
                        assert(was[i].value.less(was[index as int].value));
                    } else {
                        assert(was[index as int].value.less(was[i].value));
                    }
                }
            }
            assert forall|v: QueryScalarView| #[trigger] now_values.contains(v) implies exists|
                i: int,
            |
                0 <= i < now.len() && (#[trigger] now[i]).value == v by {
                if v == added {
                    assert(now[index as int].value == v);
                } else {
                    let k = choose|k: int| 0 <= k < now_values.len() && now_values[k] == v;
                    assert(values[k] == v);
                    assert(values.contains(v));
                    let i = choose|i: int| 0 <= i < was.len() && (#[trigger] was[i]).value == v;
                    assert(now[i].value == v);
                }
            }
            assert forall|i: int, j: int|
                #![trigger now[i], now[j]]
                0 <= i < j < now.len() implies now[i].value.less(now[j].value) by {
                assert(was[i].value.less(was[j].value));
            }
        }
    } else {
        proof {
            assert forall|i: int| index <= i < was.len() implies added.less(
                (#[trigger] was[i]).value,
            ) by {
                added.less_total(was[index as int].value);
                if i > index {
                    assert(was[index as int].value.less(was[i].value));
                    added.less_transitive(was[index as int].value, was[i].value);
                }
            }
            if values.contains(added) {
                let i = choose|i: int| 0 <= i < was.len() && (#[trigger] was[i]).value == added;
                added.less_irreflexive();
            }
        }
        buckets.insert(index, FacetBucket { value, count: 1 });
        proof {
            let now = store_records::views(buckets@);
            let one = FacetBucketView { value: added, count: 1 };
            assert(now =~= was.take(index as int).push(one) + was.skip(index as int));
            assert forall|i: int| 0 <= i < now.len() implies (#[trigger] now[i]).count
                == occurrences(now_values, now[i].value) && now[i].count > 0 by {
                if i == index {
                    assert(now[i] == one);
                } else {
                    let k = if i < index {
                        i
                    } else {
                        i - 1
                    };
                    assert(now[i] == was[k]);
                    added.less_irreflexive();
                }
            }
            assert forall|v: QueryScalarView| #[trigger] now_values.contains(v) implies exists|
                i: int,
            |
                0 <= i < now.len() && (#[trigger] now[i]).value == v by {
                if v == added {
                    assert(now[index as int].value == v);
                } else {
                    let k = choose|k: int| 0 <= k < now_values.len() && now_values[k] == v;
                    assert(values[k] == v);
                    assert(values.contains(v));
                    let i = choose|i: int| 0 <= i < was.len() && (#[trigger] was[i]).value == v;
                    let at = if i < index {
                        i
                    } else {
                        i + 1
                    };
                    assert(now[at] == was[i]);
                }
            }
            assert forall|i: int, j: int|
                #![trigger now[i], now[j]]
                0 <= i < j < now.len() implies now[i].value.less(now[j].value) by {
                let a = if i < index {
                    i
                } else {
                    i - 1
                };
                let b = if j < index {
                    j
                } else {
                    j - 1
                };
                if i != index && j != index {
                    assert(now[i] == was[a] && now[j] == was[b]);
                } else if i == index {
                    assert(now[j] == was[b]);
                } else {
                    assert(now[i] == was[a]);
                }
            }
        }
    }
}

/// Buckets to be ranked.
pub struct RankedBuckets<'a> {
    pub buckets: &'a Vec<FacetBucket>,
}

impl<'a> Comparison for RankedBuckets<'a> {
    open spec fn count(&self) -> nat {
        self.buckets@.len()
    }

    open spec fn less(&self, i: int, j: int) -> bool {
        bucket_less(
            store_records::views(self.buckets@)[i],
            store_records::views(self.buckets@)[j],
        )
    }

    open spec fn comparable(&self) -> bool {
        true
    }

    proof fn less_asymmetric(&self, i: int, j: int) {
        bucket_less_asymmetric(
            store_records::views(self.buckets@)[i],
            store_records::views(self.buckets@)[j],
        );
    }

    proof fn less_splits(&self, i: int, j: int, k: int) {
        let a = store_records::views(self.buckets@)[i];
        let b = store_records::views(self.buckets@)[j];
        let c = store_records::views(self.buckets@)[k];
        a.value.less_total(b.value);
        b.value.less_total(c.value);
        if b.value.less(a.value) && a.value.less(c.value) {
            b.value.less_transitive(a.value, c.value);
        }
    }

    fn before(&self, i: usize, j: usize) -> (before: bool) {
        assert(store_records::views(self.buckets@)[i as int] == self.buckets@[i as int]@);
        assert(store_records::views(self.buckets@)[j as int] == self.buckets@[j as int]@);
        let left = &self.buckets[i];
        let right = &self.buckets[j];
        left.count > right.count || (left.count == right.count && left.value.before(&right.value))
    }
}

/// Counted values in stable order of their ranks are the ranking.
proof fn ranked_counts_are_the_ranking(
    values: Seq<QueryScalarView>,
    buckets: Seq<FacetBucketView>,
    order: Seq<int>,
    ranked: Seq<FacetBucketView>,
)
    requires
        counts(values, buckets),
        ordering::is_stable_range(
            |i: int, j: int| bucket_less(buckets[i], buckets[j]),
            0,
            buckets.len() as int,
            order,
        ),
        ranked == Seq::new(order.len(), |k: int| buckets[order[k]]),
    ensures
        ranked == ranking(values),
{
    assert forall|i: int| 0 <= i < ranked.len() implies (#[trigger] ranked[i]).count == occurrences(
        values,
        ranked[i].value,
    ) && ranked[i].count > 0 by {
        assert(0 <= order[i] < buckets.len());
        assert(ranked[i] == buckets[order[i]]);
    }
    assert forall|value: QueryScalarView| #[trigger] values.contains(value) implies exists|i: int|
        0 <= i < ranked.len() && (#[trigger] ranked[i]).value == value by {
        let k = choose|k: int| 0 <= k < buckets.len() && (#[trigger] buckets[k]).value == value;
        assert(order.contains(k));
        let i = choose|i: int| 0 <= i < order.len() && order[i] == k;
        assert(ranked[i].value == value);
    }
    let less = |i: int, j: int| bucket_less(buckets[i], buckets[j]);
    assert forall|i: int, j: int|
        #![trigger ranked[i], ranked[j]]
        0 <= i < j < ranked.len() implies bucket_less(ranked[i], ranked[j]) by {
        let a = order[i];
        let b = order[j];
        assert(0 <= a < buckets.len() && 0 <= b < buckets.len());
        assert(ordering::ahead(less, a, b));
        assert(ranked[i] == buckets[a] && ranked[j] == buckets[b]);
        if !less(a, b) {
            assert(buckets[a].value.less(buckets[b].value));
        }
    }
    ranking_is_unique(values, ranked);
}

/// Counts the values of one field over the rows.
fn count_values(rows: &Vec<MaterializedRow>, field: &QueryFieldId) -> (buckets: Vec<FacetBucket>)
    ensures
        counts(
            field_values(store_records::views(rows@), field@),
            store_records::views(buckets@),
        ),
{
    let ghost all = store_records::views(rows@);
    let mut buckets: Vec<FacetBucket> = Vec::new();
    let mut i: usize = 0;
    let total: usize = rows.len();
    proof {
        assert(all.take(0) =~= Seq::<RowView>::empty());
        assert(store_records::views(buckets@) =~= Seq::<FacetBucketView>::empty());
    }
    while i < total
        invariant
            i <= total,
            total == rows@.len(),
            all == store_records::views(rows@),
            field_values(all.take(i as int), field@).len() <= i,
            counts(field_values(all.take(i as int), field@), store_records::views(buckets@)),
        decreases total - i,
    {
        proof {
            assert(all.take(i + 1).drop_last() =~= all.take(i as int));
            assert(all.take(i + 1).last() == rows@[i as int]@);
        }
        if let Some(value) = rows[i].value(field) {
            count_value(&mut buckets, value, Ghost(field_values(all.take(i as int), field@)));
        }
        i = i + 1;
    }
    assert(all.take(i as int) =~= all);
    buckets
}

/// Builds the facet of one field.
fn build_facet(rows: &Vec<MaterializedRow>, field: &QueryFieldId) -> (facet: FacetResult)
    ensures
        facet@ == facet_of(store_records::views(rows@), field@),
{
    let counted = count_values(rows, field);
    let items = RankedBuckets { buckets: &counted };
    let order = ordering::stable_sort(&items, counted.len());
    let ghost values = field_values(store_records::views(rows@), field@);
    let ghost views = store_records::views(counted@);
    let ghost numbers = ordering::numbers(order@);
    let ghost ranked = Seq::new(numbers.len(), |k: int| views[numbers[k]]);
    proof {
        let less = |i: int, j: int| bucket_less(views[i], views[j]);
        assert(ordering::order_of(&items) =~= less);
        ranked_counts_are_the_ranking(values, views, numbers, ranked);
    }
    let kept: usize = if counted.len() > MAX_FACET_BUCKETS_PER_FIELD {
        MAX_FACET_BUCKETS_PER_FIELD
    } else {
        counted.len()
    };
    let mut buckets: Vec<FacetBucket> = Vec::new();
    let mut i: usize = 0;
    while i < kept
        invariant
            i <= kept <= order@.len(),
            order@.len() == counted@.len(),
            views == store_records::views(counted@),
            numbers == ordering::numbers(order@),
            ranked == Seq::new(numbers.len(), |k: int| views[numbers[k]]),
            forall|k: int| 0 <= k < numbers.len() ==> 0 <= #[trigger] numbers[k] < counted@.len(),
            store_records::views(buckets@) == ranked.take(i as int),
        decreases kept - i,
    {
        proof {
            assert(numbers[i as int] == order@[i as int]);
        }
        let bucket = &counted[order[i]];
        let ghost before = store_records::views(buckets@);
        buckets.push(FacetBucket { value: bucket.value.clone(), count: bucket.count });
        proof {
            assert(views[numbers[i as int]] == bucket@);
            assert(store_records::views(buckets@) =~= before.push(bucket@));
            assert(ranked.take(i + 1) =~= ranked.take(i as int).push(bucket@));
        }
        i = i + 1;
    }
    FacetResult {
        field_id: field.clone(),
        buckets,
        distinct_count: counted.len() as u64,
        truncated: counted.len() > MAX_FACET_BUCKETS_PER_FIELD,
    }
}

/// The facets of the fields in order.
pub open spec fn facets_of(rows: Seq<RowView>, fields: Seq<Seq<u8>>) -> Seq<FacetResultView> {
    Seq::new(fields.len(), |i: int| facet_of(rows, fields[i]))
}

/// Builds the facets of the fields over the matching rows.
pub fn build_facets(matching: &Vec<MaterializedRow>, fields: &Vec<QueryFieldId>) -> (facets: Vec<
    FacetResult,
>)
    ensures
        store_records::views(facets@) == facets_of(
            store_records::views(matching@),
            store_records::views(fields@),
        ),
{
    let ghost rows = store_records::views(matching@);
    let ghost all = store_records::views(fields@);
    let mut facets: Vec<FacetResult> = Vec::new();
    let mut i: usize = 0;
    while i < fields.len()
        invariant
            i <= fields@.len(),
            rows == store_records::views(matching@),
            all == store_records::views(fields@),
            store_records::views(facets@) == facets_of(rows, all.take(i as int)),
        decreases fields@.len() - i,
    {
        let ghost before = store_records::views(facets@);
        let facet = build_facet(matching, &fields[i]);
        proof {
            assert(all[i as int] == fields@[i as int]@);
        }
        facets.push(facet);
        assert(store_records::views(facets@) =~= before.push(facet@));
        assert(facets_of(rows, all.take(i + 1)) =~= facets_of(rows, all.take(i as int)).push(
            facet_of(rows, all[i as int]),
        ));
        i = i + 1;
    }
    assert(all.take(i as int) =~= all);
    facets
}

/// The map holds the requested fields that the row carries.
pub open spec fn is_projection(
    row: RowView,
    fields: Seq<Seq<u8>>,
    projection: Seq<Entry<QueryScalarView>>,
) -> bool {
    &&& sorted_maps::ascending(projection)
    &&& forall|field: Seq<u8>| #[trigger]
        sorted_maps::lookup(projection, field) == if fields.contains(field) {
            row.value(field)
        } else {
            None
        }
}

/// The requested fields that the row carries, in ascending order.
pub open spec fn projection_of(row: RowView, fields: Seq<Seq<u8>>) -> Seq<Entry<QueryScalarView>> {
    choose|projection: Seq<Entry<QueryScalarView>>| is_projection(row, fields, projection)
}

/// A row has exactly one projection onto given fields.
pub proof fn projection_is_unique(
    row: RowView,
    fields: Seq<Seq<u8>>,
    projection: Seq<Entry<QueryScalarView>>,
)
    requires
        is_projection(row, fields, projection),
    ensures
        projection == projection_of(row, fields),
{
    sorted_maps::lookups_determine_the_map(projection, projection_of(row, fields));
}

/// The requested fields that the row carries, as they were requested.
spec fn carried(row: RowView, fields: Seq<Seq<u8>>) -> Seq<Entry<QueryScalarView>>
    decreases fields.len(),
{
    if fields.len() == 0 {
        Seq::empty()
    } else {
        match row.value(fields.last()) {
            Some(value) => carried(row, fields.drop_last()).push((fields.last(), value)),
            None => carried(row, fields.drop_last()),
        }
    }
}

/// A requested field is found exactly where the row carries it.
proof fn carried_fields_are_found(row: RowView, fields: Seq<Seq<u8>>, field: Seq<u8>)
    ensures
        sorted_maps::lookup(carried(row, fields), field) == if fields.contains(field) {
            row.value(field)
        } else {
            None
        },
    decreases fields.len(),
{
    if fields.len() > 0 {
        let shorter = fields.drop_last();
        let n = fields.len() - 1;
        carried_fields_are_found(row, shorter, field);
        if shorter.contains(field) {
            let k = choose|k: int| 0 <= k < shorter.len() && shorter[k] == field;
            assert(fields[k] == field);
        }
        if fields.contains(field) && fields[n] != field {
            let k = choose|k: int| 0 <= k < fields.len() && fields[k] == field;
            assert(shorter[k] == field);
        }
        if fields[n] == field {
            assert(fields.contains(field));
        }
        if let Some(value) = row.value(fields.last()) {
            assert(carried(row, fields).drop_last() =~= carried(row, shorter));
        }
    }
}

/// Every row has a projection onto given fields.
pub proof fn projection_exists(row: RowView, fields: Seq<Seq<u8>>)
    ensures
        is_projection(row, fields, projection_of(row, fields)),
{
    let none = Seq::<Entry<QueryScalarView>>::empty();
    let projection = sorted_maps::map_takes_a_list(none, carried(row, fields));
    assert forall|field: Seq<u8>| #[trigger]
        sorted_maps::lookup(projection, field) == if fields.contains(field) {
            row.value(field)
        } else {
            None
        } by {
        carried_fields_are_found(row, fields, field);
        assert(sorted_maps::lookup(none, field) is None);
    }
    assert(is_projection(row, fields, projection));
}

/// The hit of one row.
pub open spec fn hit_of(row: RowView, fields: Seq<Seq<u8>>) -> SearchHitView {
    SearchHitView {
        workbench_id: row.workbench_id,
        path: row.path,
        generation: row.entry.generation,
        body_digest_uri: row.entry.body_digest_uri,
        logical_size: row.entry.logical_size,
        content_type: row.entry.content_type,
        producer: row.entry.producer,
        manifest_id: row.entry.manifest_id,
        projection: projection_of(row, fields),
    }
}

/// Projects a row onto the requested fields.
fn project_row(row: &MaterializedRow, fields: &Vec<QueryFieldId>) -> (projection: FieldMap<
    QueryScalar,
>)
    ensures
        projection@ == projection_of(row@, store_records::views(fields@)),
{
    let ghost all = store_records::views(fields@);
    let mut projection: FieldMap<QueryScalar> = FieldMap::new();
    let mut i: usize = 0;
    while i < fields.len()
        invariant
            i <= fields@.len(),
            all == store_records::views(fields@),
            is_projection(row@, all.take(i as int), projection@),
        decreases fields@.len() - i,
    {
        let ghost before = all.take(i as int);
        let ghost now = all.take(i + 1);
        let ghost was = projection@;
        proof {
            assert(all[i as int] == fields@[i as int]@);
            assert(now =~= before.push(all[i as int]));
            assert forall|field: Seq<u8>| now.contains(field) <==> (before.contains(field) || field
                == all[i as int]) by {
                if before.contains(field) {
                    let k = choose|k: int| 0 <= k < before.len() && before[k] == field;
                    assert(now[k] == field);
                }
                if now.contains(field) {
                    let k = choose|k: int| 0 <= k < now.len() && now[k] == field;
                    if k < i {
                        assert(before[k] == field);
                    }
                }
                assert(now[i as int] == all[i as int]);
            }
        }
        match row.value(&fields[i]) {
            Some(value) => {
                projection.insert(fields[i].clone(), value);
            },
            None => {},
        }
        assert forall|field: Seq<u8>| #[trigger]
            sorted_maps::lookup(projection@, field) == if now.contains(field) {
                row@.value(field)
            } else {
                None
            } by {
            assert(sorted_maps::lookup(was, field) == if before.contains(field) {
                row@.value(field)
            } else {
                None
            });
        }
        i = i + 1;
    }
    proof {
        assert(all.take(i as int) =~= all);
        projection_is_unique(row@, all, projection@);
    }
    projection
}

/// A copy of an optional text.
fn copy_text(value: &Option<String>) -> (copy: Option<String>)
    ensures
        crate::generic_index_records::optional_text_view(copy)
            == crate::generic_index_records::optional_text_view(*value),
{
    match value {
        None => None,
        Some(value) => Some(value.clone()),
    }
}

/// Builds the hit of one row.
fn build_hit(row: &MaterializedRow, fields: &Vec<QueryFieldId>) -> (hit: SearchHit)
    ensures
        hit@ == hit_of(row@, store_records::views(fields@)),
{
    SearchHit {
        workbench_id: row.workbench_id.clone(),
        path: row.path.clone(),
        generation: row.entry.generation,
        body_digest_uri: row.entry.body_digest_uri.clone(),
        logical_size: row.entry.logical_size,
        content_type: row.entry.content_type.clone(),
        producer: copy_text(&row.entry.producer),
        manifest_id: copy_text(&row.entry.manifest_id),
        projection: project_row(row, fields),
    }
}

/// Index behind the last item of a page.
pub open spec fn page_end(start: int, limit: int, total: int) -> int {
    if start + limit < total {
        start + limit
    } else {
        total
    }
}

/// Index behind the last item of a page.
pub fn end_of_page(start: usize, limit: usize, total: usize) -> (end: usize)
    requires
        start <= total,
    ensures
        end == page_end(start as int, limit as int, total as int),
        start <= end <= total,
{
    if total - start > limit {
        start + limit
    } else {
        total
    }
}

/// Identities of rows.
pub open spec fn row_identities(rows: Seq<RowView>) -> Seq<Seq<u8>> {
    Seq::new(rows.len(), |i: int| query_cursor::row_identity(rows[i].workbench_id, rows[i].path))
}

/// The cursor behind the item with this identity, where more items follow.
pub open spec fn cursor_behind(
    kind: CursorKind,
    read_version: u64,
    message: Seq<u8>,
    identities: Seq<Seq<u8>>,
    end: int,
) -> Option<Seq<u8>> {
    if end < identities.len() {
        Some(
            (CursorView {
                kind,
                read_version,
                request_digest: digest::sha256(message),
                anchor: identities[end - 1],
            }).encoding(),
        )
    } else {
        None
    }
}

/// The page of a search that starts at `start` in the ordered rows.
pub open spec fn search_page(
    matching: Seq<RowView>,
    request: SearchRequestView,
    read_version: u64,
    start: int,
) -> SearchPageView {
    let rows = ordered_rows(matching, request.sort);
    let end = page_end(start, request.limit as int, rows.len() as int);
    SearchPageView {
        hits: Seq::new((end - start) as nat, |i: int| hit_of(rows[start + i], request.projection)),
        facets: facets_of(matching, request.facets),
        next_cursor: cursor_behind(
            CursorKind::Search,
            read_version,
            request.message(),
            row_identities(rows),
            end,
        ),
        read_version,
    }
}

/// A search request is admitted over the candidate rows.
pub open spec fn search_check(rows: Seq<RowView>, request: SearchRequestView) -> Result<
    (),
    QueryFailure,
> {
    query_types::and_also(
        request.check(),
        query_types::and_also(
            query_catalog::catalog_check(rows),
            request.fields_check(query_catalog::catalog_of(rows)),
        ),
    )
}

/// The outcome of a search over the candidate rows.
pub open spec fn search(rows: Seq<RowView>, request: SearchRequestView, read_version: u64) -> Result<
    SearchPageView,
    QueryFailure,
> {
    let matching = matching_rows(rows, request.predicates);
    match search_check(rows, request) {
        Err(e) => Err(e),
        Ok(()) => match query_cursor::start_of(
            request.cursor,
            CursorKind::Search,
            read_version,
            digest::sha256(request.message()),
            row_identities(ordered_rows(matching, request.sort)),
        ) {
            Err(e) => Err(e),
            Ok(start) => Ok(search_page(matching, request, read_version, start)),
        },
    }
}

/// Identities of the rows in order.
fn ordered_identities(rows: &Vec<MaterializedRow>, order: &Vec<usize>, Ghost(sorted): Ghost<
    Seq<RowView>,
>) -> (identities: Vec<Vec<u8>>)
    requires
        sorted == Seq::new(
            order@.len(),
            |k: int| store_records::views(rows@)[ordering::numbers(order@)[k]],
        ),
        forall|k: int| 0 <= k < order@.len() ==> #[trigger] order@[k] < rows@.len(),
    ensures
        store_records::views(identities@) == row_identities(sorted),
        forall|k: int|
            0 <= k < identities@.len() ==> (#[trigger] identities@[k])@.len() <= u32::MAX,
{
    let mut identities: Vec<Vec<u8>> = Vec::new();
    let mut i: usize = 0;
    while i < order.len()
        invariant
            i <= order@.len(),
            sorted == Seq::new(
                order@.len(),
                |k: int| store_records::views(rows@)[ordering::numbers(order@)[k]],
            ),
            forall|k: int| 0 <= k < order@.len() ==> #[trigger] order@[k] < rows@.len(),
            identities@.len() == i,
            forall|k: int|
                0 <= k < i ==> (#[trigger] identities@[k])@ == row_identities(sorted)[k]
                    && identities@[k]@.len() <= u32::MAX,
        decreases order@.len() - i,
    {
        let row = &rows[order[i]];
        assert(sorted[i as int] == row@);
        identities.push(query_cursor::encode_row_identity(&row.workbench_id, &row.path));
        i = i + 1;
    }
    assert(store_records::views(identities@) =~= row_identities(sorted));
    identities
}

/// Runs a metadata-only search over the candidate rows at the exact fenced read
/// version.
pub fn search_paths_at(
    collected: CollectedRows,
    context: RootReadContext,
    request: &SearchRequest,
) -> (result: Result<SearchPage, QueryError>)
    requires
        search_check(collected@.rows, request@) is Ok ==> request@.operands_fit(),
    ensures
        query_types::outcome(result) == search(collected@.rows, request@, context@.read_version),
{
    let read_version = context.read_version;
    match query_catalog::validate_search(request) {
        Ok(()) => {},
        Err(e) => {
            return Err(e);
        },
    }
    let catalog = match query_catalog::build_catalog(&collected) {
        Ok(catalog) => catalog,
        Err(e) => {
            return Err(e);
        },
    };
    match query_catalog::validate_query_fields(&catalog, request) {
        Ok(()) => {},
        Err(e) => {
            return Err(e);
        },
    }
    let matching = select_rows(collected.rows, &request.predicates);
    let ghost views = store_records::views(matching@);
    let order = sort_rows(&matching, &request.sort);
    let ghost sorted = ordered_rows(views, request@.sort);
    let facets = build_facets(&matching, &request.facets);
    let request_digest = query_digests::search_digest(request);
    proof {
        assert(sorted =~= Seq::new(
            order@.len(),
            |k: int| store_records::views(matching@)[ordering::numbers(order@)[k]],
        ));
    }
    let identities = ordered_identities(&matching, &order, Ghost(sorted));
    let start: usize = match query_cursor::cursor_start(
        &request.cursor,
        CursorKind::Search,
        read_version,
        &request_digest,
        &identities,
    ) {
        Ok(start) => start,
        Err(e) => {
            return Err(e);
        },
    };
    let total: usize = order.len();
    assert(identities@.len() == store_records::views(identities@).len());
    let end: usize = end_of_page(start, request.limit, total);
    let mut hits: Vec<SearchHit> = Vec::new();
    let mut i: usize = start;
    while i < end
        invariant
            start <= i <= end <= total,
            total == order@.len(),
            sorted == Seq::new(
                order@.len(),
                |k: int| store_records::views(matching@)[ordering::numbers(order@)[k]],
            ),
            forall|k: int| 0 <= k < order@.len() ==> #[trigger] order@[k] < matching@.len(),
            hits@.len() == i - start,
            forall|k: int|
                0 <= k < hits@.len() ==> (#[trigger] hits@[k])@ == hit_of(
                    sorted[start + k],
                    request@.projection,
                ),
        decreases end - i,
    {
        let row = &matching[order[i]];
        assert(sorted[i as int] == row@);
        hits.push(build_hit(row, &request.projection));
        i = i + 1;
    }
    let next_cursor: Option<Vec<u8>> = if end < total {
        assert(end > 0);
        Some(
            query_cursor::encode_cursor(
                CursorKind::Search,
                read_version,
                &request_digest,
                identities[end - 1].as_slice(),
            ),
        )
    } else {
        None
    };
    let page = SearchPage { hits, facets, next_cursor, read_version };
    proof {
        let expected = search_page(views, request@, read_version@, start as int);
        assert(page@.hits =~= expected.hits);
        assert(row_identities(sorted) == store_records::views(identities@));
        if end < total {
            assert(row_identities(sorted)[end - 1] == identities@[end - 1]@);
        }
        assert(page@.next_cursor == expected.next_cursor);
        assert(page@ == expected);
    }
    Ok(page)
}

} // verus!
