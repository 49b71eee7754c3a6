//! Groups of aggregate queries: the rows of each key, and the accumulators over
//! them.

use vstd::prelude::*;

use crate::names::QueryFieldId;
use crate::ordering;
use crate::query_rows::{MaterializedRow, RowView};
use crate::query_tally;
use crate::query_tally::{AggregateAccumulator, Tally};
use crate::query_types::{AggregateSpec, AggregateSpecView, QueryError, QueryFailure};
use crate::scalars::{QueryScalar, QueryScalarView};
use crate::sorted_maps;
use crate::store_records;

verus! {

/// Key of one group: one scalar for each group field.
pub type GroupKey = Seq<QueryScalarView>;

/// Lexicographic order of keys.
pub open spec fn key_less(a: GroupKey, b: GroupKey) -> bool
    decreases a.len(),
{
    if b.len() == 0 {
        false
    } else if a.len() == 0 {
        true
    } else if a[0] != b[0] {
        a[0].less(b[0])
    } else {
        key_less(a.drop_first(), b.drop_first())
    }
}

/// No two keys come before each other.
pub proof fn key_less_asymmetric(a: GroupKey, b: GroupKey)
    requires
        key_less(a, b),
    ensures
        !key_less(b, a),
        a != b,
    decreases a.len(),
{
    if a.len() > 0 && b.len() > 0 {
        if a[0] == b[0] {
            key_less_asymmetric(a.drop_first(), b.drop_first());
        } else if b[0].less(a[0]) {
            a[0].less_transitive(b[0], a[0]);
            a[0].less_irreflexive();
        }
    }
}

/// The order of keys is transitive.
pub proof fn key_less_transitive(a: GroupKey, b: GroupKey, c: GroupKey)
    requires
        key_less(a, b),
        key_less(b, c),
    ensures
        key_less(a, c),
    decreases a.len(),
{
    if a.len() > 0 {
        if a[0] == b[0] && b[0] == c[0] {
            key_less_transitive(a.drop_first(), b.drop_first(), c.drop_first());
        } else if a[0] != b[0] && b[0] != c[0] {
            a[0].less_transitive(b[0], c[0]);
            a[0].less_irreflexive();
        }
    }
}

/// Different keys come one before the other.
pub proof fn key_less_total(a: GroupKey, b: GroupKey)
    ensures
        a == b || key_less(a, b) || key_less(b, a),
    decreases a.len(),
{
    if a.len() == 0 {
        if b.len() == 0 {
            assert(a =~= b);
        }
    } else if b.len() > 0 {
        if a[0] == b[0] {
            key_less_total(a.drop_first(), b.drop_first());
            if a.drop_first() == b.drop_first() {
                assert(a =~= seq![a[0]] + a.drop_first());
                assert(b =~= seq![b[0]] + b.drop_first());
            }
        } else {
            a[0].less_total(b[0]);
        }
    }
}

/// Whether one key comes before another.
fn key_before(a: &Vec<QueryScalar>, b: &Vec<QueryScalar>) -> (before: bool)
    ensures
        before == key_less(sorted_maps::scalar_views(a@), sorted_maps::scalar_views(b@)),
{
    let ghost x = sorted_maps::scalar_views(a@);
    let ghost y = sorted_maps::scalar_views(b@);
    let mut i: usize = 0;
    proof {
        assert(x.skip(0) =~= x);
        assert(y.skip(0) =~= y);
    }
    while i < a.len() && i < b.len()
        invariant
            i <= a@.len(),
            i <= b@.len(),
            x == sorted_maps::scalar_views(a@),
            y == sorted_maps::scalar_views(b@),
            key_less(x, y) == key_less(x.skip(i as int), y.skip(i as int)),
        decreases a@.len() - i,
    {
        proof {
            assert(x.skip(i as int)[0] == a@[i as int]@);
            assert(y.skip(i as int)[0] == b@[i as int]@);
            assert(x.skip(i as int).drop_first() =~= x.skip(i + 1));
            assert(y.skip(i as int).drop_first() =~= y.skip(i + 1));
        }
        if !a[i].same(&b[i]) {
            return a[i].before(&b[i]);
        }
        i = i + 1;
    }
    i < b.len()
}

/// Key of the group that a row falls into.
pub open spec fn row_key(row: RowView, group_by: Seq<Seq<u8>>) -> GroupKey {
    Seq::new(group_by.len(), |i: int| query_tally::optional_scalar(row.value(group_by[i])))
}

/// Key of the group that a row falls into.
pub fn read_key(row: &MaterializedRow, group_by: &Vec<QueryFieldId>) -> (key: Vec<QueryScalar>)
    ensures
        sorted_maps::scalar_views(key@) == row_key(row@, store_records::views(group_by@)),
{
    let ghost fields = store_records::views(group_by@);
    let mut key: Vec<QueryScalar> = Vec::new();
    let mut i: usize = 0;
    while i < group_by.len()
        invariant
            i <= group_by@.len(),
            fields == store_records::views(group_by@),
            key@.len() == i,
            forall|k: int| 0 <= k < i ==> (#[trigger] key@[k])@ == row_key(row@, fields)[k],
        decreases group_by@.len() - i,
    {
        assert(fields[i as int] == group_by@[i as int]@);
        key.push(
            match row.value(&group_by[i]) {
                Some(value) => value,
                None => QueryScalar::Null,
            },
        );
        i = i + 1;
    }
    assert(sorted_maps::scalar_views(key@) =~= row_key(row@, fields));
    key
}

/// The rows of the group with this key, in order.
pub open spec fn group_rows(rows: Seq<RowView>, group_by: Seq<Seq<u8>>, key: GroupKey) -> Seq<
    RowView,
>
    decreases rows.len(),
{
    if rows.len() == 0 {
        Seq::empty()
    } else if row_key(rows.last(), group_by) == key {
        group_rows(rows.drop_last(), group_by, key).push(rows.last())
    } else {
        group_rows(rows.drop_last(), group_by, key)
    }
}

/// A group has at most as many rows as there are.
pub proof fn group_rows_are_bounded(rows: Seq<RowView>, group_by: Seq<Seq<u8>>, key: GroupKey)
    ensures
        group_rows(rows, group_by, key).len() <= rows.len(),
    decreases rows.len(),
{
    if rows.len() > 0 {
        group_rows_are_bounded(rows.drop_last(), group_by, key);
    }
}

/// A key that no row has is the key of no rows.
proof fn fresh_group_is_empty(rows: Seq<RowView>, group_by: Seq<Seq<u8>>, key: GroupKey)
    requires
        forall|i: int| 0 <= i < rows.len() ==> row_key(#[trigger] rows[i], group_by) != key,
    ensures
        group_rows(rows, group_by, key) == Seq::<RowView>::empty(),
    decreases rows.len(),
{
    if rows.len() > 0 {
        let n = rows.len() - 1;
        assert(rows.last() == rows[n]);
        let shorter = rows.drop_last();
        assert forall|i: int| 0 <= i < shorter.len() implies row_key(#[trigger] shorter[i], group_by)
            != key by {
            assert(shorter[i] == rows[i]);
        }
        fresh_group_is_empty(shorter, group_by, key);
    }
}

/// The keys of the rows, each once, in order.
pub open spec fn is_key_list(
    rows: Seq<RowView>,
    group_by: Seq<Seq<u8>>,
    keys: Seq<GroupKey>,
) -> bool {
    &&& ordering::strictly_sorted(keys, |a: GroupKey, b: GroupKey| key_less(a, b))
    &&& forall|i: int|
        0 <= i < rows.len() ==> keys.contains(row_key(#[trigger] rows[i], group_by))
    &&& forall|g: int|
        0 <= g < keys.len() ==> exists|i: int|
            0 <= i < rows.len() && row_key(#[trigger] rows[i], group_by) == #[trigger] keys[g]
}

/// The keys of the rows, each once, in order.
pub open spec fn group_keys(rows: Seq<RowView>, group_by: Seq<Seq<u8>>) -> Seq<GroupKey> {
    choose|keys: Seq<GroupKey>| is_key_list(rows, group_by, keys)
}

/// Rows have exactly one list of keys.
pub proof fn group_keys_are_unique(
    rows: Seq<RowView>,
    group_by: Seq<Seq<u8>>,
    keys: Seq<GroupKey>,
)
    requires
        is_key_list(rows, group_by, keys),
    ensures
        keys == group_keys(rows, group_by),
{
    let chosen = group_keys(rows, group_by);
    let before = |a: GroupKey, b: GroupKey| key_less(a, b);
    assert forall|x: GroupKey| keys.contains(x) <==> chosen.contains(x) by {
        if keys.contains(x) {
            let g = choose|g: int| 0 <= g < keys.len() && keys[g] == x;
            let i = choose|i: int|
                0 <= i < rows.len() && row_key(#[trigger] rows[i], group_by) == keys[g];
            assert(chosen.contains(row_key(rows[i], group_by)));
        }
        if chosen.contains(x) {
            let g = choose|g: int| 0 <= g < chosen.len() && chosen[g] == x;
            let i = choose|i: int|
                0 <= i < rows.len() && row_key(#[trigger] rows[i], group_by) == chosen[g];
            assert(keys.contains(row_key(rows[i], group_by)));
        }
    }
    assert forall|i: int, j: int|
        #![trigger keys[i], keys[j]]
        0 <= i < keys.len() && 0 <= j < keys.len() implies !(before(keys[i], keys[j]) && before(
        keys[j],
        keys[i],
    )) by {
        if before(keys[i], keys[j]) {
            key_less_asymmetric(keys[i], keys[j]);
        }
    }
    ordering::sorted_lists_are_equal(keys, chosen, before);
}

/// All rows have a list of keys.
pub proof fn group_keys_exist(rows: Seq<RowView>, group_by: Seq<Seq<u8>>)
    ensures
        is_key_list(rows, group_by, group_keys(rows, group_by)),
    decreases rows.len(),
{
    let before = |a: GroupKey, b: GroupKey| key_less(a, b);
    if rows.len() == 0 {
        let none = Seq::<GroupKey>::empty();
        assert(is_key_list(rows, group_by, none));
    } else {
        let n = rows.len() - 1;
        let shorter = rows.drop_last();
        let key = row_key(rows[n], group_by);
        group_keys_exist(shorter, group_by);
        let keys = group_keys(shorter, group_by);
        let now = if keys.contains(key) {
            keys
        } else {
            assert forall|a: GroupKey, b: GroupKey| #![trigger before(a, b)]
                a == b || before(a, b) || before(b, a) by {
                key_less_total(a, b);
            }
            assert forall|a: GroupKey, b: GroupKey, c: GroupKey|
                #![trigger before(a, b), before(b, c)]
                before(a, b) && before(b, c) implies before(a, c) by {
                key_less_transitive(a, b, c);
            }
            ordering::sorted_list_takes(keys, key, before)
        };
        assert forall|i: int| 0 <= i < rows.len() implies now.contains(
            row_key(#[trigger] rows[i], group_by),
        ) by {
            if i < n {
                assert(shorter[i] == rows[i]);
                assert(keys.contains(row_key(shorter[i], group_by)));
            }
        }
        assert forall|g: int| 0 <= g < now.len() implies exists|i: int|
            0 <= i < rows.len() && row_key(#[trigger] rows[i], group_by) == #[trigger] now[g] by {
            assert(now.contains(now[g]));
            if now[g] == key {
                assert(row_key(rows[n], group_by) == now[g]);
            } else {
                let h = choose|h: int| 0 <= h < keys.len() && keys[h] == now[g];
                let i = choose|i: int|
                    0 <= i < shorter.len() && row_key(#[trigger] shorter[i], group_by) == keys[h];
                assert(shorter[i] == rows[i]);
            }
        }
        assert(is_key_list(rows, group_by, now));
    }
}

/// The first aggregate from `s` on that fails over these rows of one group.
pub open spec fn failing_aggregate(
    specs: Seq<AggregateSpecView>,
    rows: Seq<RowView>,
    s: int,
) -> Option<(int, QueryFailure)>
    decreases specs.len() - s,
{
    if s >= specs.len() {
        None
    } else {
        match query_tally::tally_of(specs[s], rows) {
            Err(e) => Some((s, e)),
            Ok(_) => failing_aggregate(specs, rows, s + 1),
        }
    }
}

/// The first row from `n` on, and its first aggregate, where an accumulator
/// fails.
pub open spec fn first_failure(
    rows: Seq<RowView>,
    group_by: Seq<Seq<u8>>,
    specs: Seq<AggregateSpecView>,
    n: int,
) -> Option<(int, int, QueryFailure)>
    decreases rows.len() - n,
{
    if n >= rows.len() {
        None
    } else {
        let seen = group_rows(rows.take(n + 1), group_by, row_key(rows[n], group_by));
        match failing_aggregate(specs, seen, 0) {
            Some((s, e)) => Some((n, s, e)),
            None => first_failure(rows, group_by, specs, n + 1),
        }
    }
}

/// The rows that an aggregate saw: all of them, or those up to the failure.
pub open spec fn observed_rows(
    rows: Seq<RowView>,
    failure: Option<(int, int, QueryFailure)>,
    s: int,
) -> Seq<RowView> {
    match failure {
        None => rows,
        Some((n, failed, _)) => if s < failed {
            rows.take(n + 1)
        } else {
            rows.take(n)
        },
    }
}

/// One group and its accumulators.
#[derive(Debug, PartialEq, Eq)]
pub struct PartialGroup {
    pub key: Vec<QueryScalar>,
    pub accumulators: Vec<AggregateAccumulator>,
}

/// Contents of a [`PartialGroup`].
pub struct PartialGroupView {
    pub key: GroupKey,
    pub tallies: Seq<Tally>,
}

impl View for PartialGroup {
    type V = PartialGroupView;

    open spec fn view(&self) -> PartialGroupView {
        PartialGroupView {
            key: sorted_maps::scalar_views(self.key@),
            tallies: store_records::views(self.accumulators@),
        }
    }
}

/// The groups of the rows in the order of their keys; one group of no rows
/// where nothing is grouped and there is no row.
pub open spec fn planned_keys(
    rows: Seq<RowView>,
    group_by: Seq<Seq<u8>>,
    failure: Option<(int, int, QueryFailure)>,
) -> Seq<GroupKey> {
    if group_by.len() == 0 && rows.len() == 0 {
        seq![Seq::<QueryScalarView>::empty()]
    } else {
        match failure {
            None => group_keys(rows, group_by),
            Some((n, _, _)) => group_keys(rows.take(n + 1), group_by),
        }
    }
}

/// The accumulators of all groups over the rows, up to the first failure.
pub open spec fn planned_groups(
    rows: Seq<RowView>,
    group_by: Seq<Seq<u8>>,
    specs: Seq<AggregateSpecView>,
) -> Seq<PartialGroupView> {
    let failure = first_failure(rows, group_by, specs, 0);
    let keys = planned_keys(rows, group_by, failure);
    Seq::new(
        keys.len(),
        |g: int|
            PartialGroupView {
                key: keys[g],
                tallies: Seq::new(
                    specs.len(),
                    |s: int|
                        query_tally::tally_of(
                            specs[s],
                            group_rows(observed_rows(rows, failure, s), group_by, keys[g]),
                        )->Ok_0,
                ),
            },
    )
}

/// The groups are those of the rows, with the accumulators over them.
spec fn grouped(
    rows: Seq<RowView>,
    group_by: Seq<Seq<u8>>,
    specs: Seq<AggregateSpecView>,
    groups: Seq<PartialGroupView>,
) -> bool {
    &&& is_key_list(rows, group_by, keys_of(groups))
    &&& forall|g: int| 0 <= g < groups.len() ==> (#[trigger] groups[g]).tallies.len() == specs.len()
    &&& forall|g: int, s: int|
        #![trigger groups[g].tallies[s]]
        0 <= g < groups.len() && 0 <= s < specs.len() ==> query_tally::tally_of(
            specs[s],
            group_rows(rows, group_by, groups[g].key),
        ) == Ok::<Tally, QueryFailure>(groups[g].tallies[s])
}

/// Keys of the groups.
pub open spec fn keys_of(groups: Seq<PartialGroupView>) -> Seq<GroupKey> {
    Seq::new(groups.len(), |g: int| groups[g].key)
}

/// The first group whose key does not come before the given one.
fn find_group(groups: &Vec<PartialGroup>, key: &Vec<QueryScalar>) -> (index: usize)
    requires
        ordering::strictly_sorted(
            keys_of(store_records::views(groups@)),
            |a: GroupKey, b: GroupKey| key_less(a, b),
        ),
    ensures
        index <= groups@.len(),
        forall|g: int|
            0 <= g < index ==> key_less(
                #[trigger] keys_of(store_records::views(groups@))[g],
                sorted_maps::scalar_views(key@),
            ),
        forall|g: int|
            index <= g < groups@.len() ==> !key_less(
                #[trigger] keys_of(store_records::views(groups@))[g],
                sorted_maps::scalar_views(key@),
            ),
{
    let ghost keys = keys_of(store_records::views(groups@));
    let ghost wanted = sorted_maps::scalar_views(key@);
    let mut low: usize = 0;
    let mut high: usize = groups.len();
    while low < high
        invariant
            low <= high <= groups@.len(),
            keys == keys_of(store_records::views(groups@)),
            wanted == sorted_maps::scalar_views(key@),
            ordering::strictly_sorted(keys, |a: GroupKey, b: GroupKey| key_less(a, b)),
            forall|g: int| 0 <= g < low ==> key_less(#[trigger] keys[g], wanted),
            forall|g: int| high <= g < groups@.len() ==> !key_less(#[trigger] keys[g], wanted),
        decreases high - low,
    {
        let middle: usize = low + (high - low) / 2;
        assert(keys[middle as int] == groups@[middle as int]@.key);
        if key_before(&groups[middle].key, key) {
            proof {
                assert forall|g: int| 0 <= g < middle + 1 implies key_less(
                    #[trigger] keys[g],
                    wanted,
                ) by {
                    if g < middle {
                        assert(key_less(keys[g], keys[middle as int]));
                        key_less_transitive(keys[g], keys[middle as int], wanted);
                    }
                }
            }
            low = middle + 1;
        } else {
            proof {
                assert forall|g: int| middle <= g < groups@.len() implies !key_less(
                    #[trigger] keys[g],
                    wanted,
                ) by {
                    if g > middle && key_less(keys[g], wanted) {
                        assert(key_less(keys[middle as int], keys[g]));
                        key_less_transitive(keys[middle as int], keys[g], wanted);
                    }
                }
            }
            high = middle;
        }
    }
    low
}

/// Whether two keys are the same.
fn same_key(a: &Vec<QueryScalar>, b: &Vec<QueryScalar>) -> (same: bool)
    ensures
        same == (sorted_maps::scalar_views(a@) == sorted_maps::scalar_views(b@)),
{
    let ghost x = sorted_maps::scalar_views(a@);
    let ghost y = sorted_maps::scalar_views(b@);
    if a.len() != b.len() {
        assert(x.len() != y.len());
        return false;
    }
    let mut i: usize = 0;
    while i < a.len()
        invariant
            i <= a@.len(),
            a@.len() == b@.len(),
            x == sorted_maps::scalar_views(a@),
            y == sorted_maps::scalar_views(b@),
            forall|j: int| 0 <= j < i ==> x[j] == y[j],
        decreases a@.len() - i,
    {
        assert(x[i as int] == a@[i as int]@ && y[i as int] == b@[i as int]@);
        if !a[i].same(&b[i]) {
            return false;
        }
        i = i + 1;
    }
    assert(x =~= y);
    true
}

/// The group of a key before any row.
fn new_group(key: Vec<QueryScalar>, specs: &Vec<AggregateSpec>) -> (group: PartialGroup)
    ensures
        group@.key == sorted_maps::scalar_views(key@),
        group@.tallies.len() == specs@.len(),
        forall|s: int|
            0 <= s < specs@.len() ==> query_tally::tally_of(
                store_records::views(specs@)[s],
                Seq::empty(),
            ) == Ok::<Tally, QueryFailure>(#[trigger] group@.tallies[s]),
{
    let mut accumulators: Vec<AggregateAccumulator> = Vec::new();
    let mut i: usize = 0;
    while i < specs.len()
        invariant
            i <= specs@.len(),
            accumulators@.len() == i,
            forall|s: int|
                0 <= s < i ==> query_tally::tally_of(
                    store_records::views(specs@)[s],
                    Seq::empty(),
                ) == Ok::<Tally, QueryFailure>((#[trigger] accumulators@[s])@),
        decreases specs@.len() - i,
    {
        assert(store_records::views(specs@)[i as int] == specs@[i as int]@);
        accumulators.push(query_tally::new_accumulator(&specs[i]));
        i = i + 1;
    }
    let group = PartialGroup { key, accumulators };
    assert forall|s: int| 0 <= s < specs@.len() implies query_tally::tally_of(
        store_records::views(specs@)[s],
        Seq::empty(),
    ) == Ok::<Tally, QueryFailure>(#[trigger] group@.tallies[s]) by {
        assert(group@.tallies[s] == accumulators@[s]@);
    }
    group
}

/// The failing aggregate from `s` on is the one from the start, where the
/// aggregates before `s` do not fail.
proof fn failing_aggregate_skips(specs: Seq<AggregateSpecView>, rows: Seq<RowView>, from: int, s: int)
    requires
        0 <= from <= s <= specs.len(),
        forall|k: int|
            from <= k < s ==> query_tally::tally_of(#[trigger] specs[k], rows) is Ok,
    ensures
        failing_aggregate(specs, rows, from) == failing_aggregate(specs, rows, s),
    decreases s - from,
{
    if from < s {
        failing_aggregate_skips(specs, rows, from + 1, s);
    }
}

/// Lets the accumulators of a group see one more row, up to the first failure.
fn observe_row(
    group: PartialGroup,
    specs: &Vec<AggregateSpec>,
    row: &MaterializedRow,
    Ghost(seen): Ghost<Seq<RowView>>,
) -> (result: (PartialGroup, Option<(usize, QueryError)>))
    requires
        group@.tallies.len() == specs@.len(),
        forall|s: int|
            0 <= s < specs@.len() ==> query_tally::tally_of(
                store_records::views(specs@)[s],
                seen,
            ) == Ok::<Tally, QueryFailure>(#[trigger] group@.tallies[s]),
        seen.len() < u64::MAX,
    ensures
        result.0@.key == group@.key,
        result.0@.tallies.len() == specs@.len(),
        match result.1 {
            None => failing_aggregate(store_records::views(specs@), seen.push(row@), 0) is None
                && forall|s: int|
                0 <= s < specs@.len() ==> query_tally::tally_of(
                    store_records::views(specs@)[s],
                    seen.push(row@),
                ) == Ok::<Tally, QueryFailure>(#[trigger] result.0@.tallies[s]),
            Some((failed, e)) => failed < specs@.len() && failing_aggregate(
                store_records::views(specs@),
                seen.push(row@),
                0,
            ) == Some((failed as int, e.model())) && forall|s: int|
                0 <= s < specs@.len() ==> query_tally::tally_of(
                    store_records::views(specs@)[s],
                    if s < failed {
                        seen.push(row@)
                    } else {
                        seen
                    },
                ) == Ok::<Tally, QueryFailure>(#[trigger] result.0@.tallies[s]),
        },
{
    let ghost all = store_records::views(specs@);
    let ghost now = seen.push(row@);
    let ghost before = group@.tallies;
    let ghost listed = group.accumulators@;
    let mut accumulators: Vec<AggregateAccumulator> = Vec::new();
    let mut failure: Option<(usize, QueryError)> = None;
    let mut i: usize = 0;
    let count: usize = specs.len();
    for accumulator in it: group.accumulators.into_iter()
        invariant
            it.seq() == listed,
            i == it.index(),
            count == specs@.len(),
            listed.len() == count,
            before == store_records::views(listed),
            all == store_records::views(specs@),
            now == seen.push(row@),
            seen.len() < u64::MAX,
            forall|s: int|
                0 <= s < count ==> query_tally::tally_of(all[s], seen) == Ok::<
                    Tally,
                    QueryFailure,
                >(#[trigger] before[s]),
            accumulators@.len() == i,
            match failure {
                None => forall|s: int|
                    0 <= s < i ==> query_tally::tally_of(all[s], now) == Ok::<Tally, QueryFailure>(
                        (#[trigger] accumulators@[s])@,
                    ),
                Some((failed, e)) => failed < i && failing_aggregate(all, now, 0) == Some(
                    (failed as int, e.model()),
                ) && forall|s: int|
                    0 <= s < i ==> query_tally::tally_of(
                        all[s],
                        if s < failed {
                            now
                        } else {
                            seen
                        },
                    ) == Ok::<Tally, QueryFailure>((#[trigger] accumulators@[s])@),
            },
    {
        proof {
            assert(accumulator == listed[i as int]);
            assert(before[i as int] == accumulator@);
            assert(all[i as int] == specs@[i as int]@);
        }
        if failure.is_none() {
            let (observed, failed) = query_tally::observe(
                accumulator,
                &specs[i],
                row,
                Ghost(seen),
            );
            let ghost done = accumulators@;
            accumulators.push(observed);
            if let Some(e) = failed {
                proof {
                    assert forall|k: int| 0 <= k < i implies query_tally::tally_of(
                        #[trigger] all[k],
                        now,
                    ) is Ok by {
                        assert(accumulators@[k] == done[k]);
                    }
                    failing_aggregate_skips(all, now, 0, i as int);
                }
                failure = Some((i, e));
            }
        } else {
            accumulators.push(accumulator);
        }
        assert(i < count);
        i = i + 1;
    }
    proof {
        let tallies = store_records::views(accumulators@);
        assert forall|s: int| 0 <= s < count implies #[trigger] tallies[s] == accumulators@[s]@ by {}
        if failure is None {
            assert forall|k: int| 0 <= k < count implies query_tally::tally_of(
                #[trigger] all[k],
                now,
            ) is Ok by {
                assert(tallies[k] == accumulators@[k]@);
            }
            failing_aggregate_skips(all, now, 0, count as int);
        }
    }
    (PartialGroup { key: group.key, accumulators }, failure)
}

/// The accumulators of all groups, and the first failure, if there is one.
#[derive(Debug, PartialEq, Eq)]
pub struct AggregatePlan {
    pub groups: Vec<PartialGroup>,
    pub failure: Option<QueryError>,
}

/// The groups after one more row are those before it with the row in its group.
proof fn grouped_step(
    rows: Seq<RowView>,
    group_by: Seq<Seq<u8>>,
    specs: Seq<AggregateSpecView>,
    groups: Seq<PartialGroupView>,
    row: RowView,
    index: int,
    fresh: bool,
)
    requires
        grouped(rows, group_by, specs, groups),
        0 <= index <= groups.len(),
        fresh ==> forall|g: int|
            0 <= g < index ==> key_less(#[trigger] groups[g].key, row_key(row, group_by)),
        fresh ==> forall|g: int|
            index <= g < groups.len() ==> key_less(
                row_key(row, group_by),
                #[trigger] groups[g].key,
            ),
        !fresh ==> index < groups.len() && groups[index].key == row_key(row, group_by),
    ensures
        fresh ==> group_rows(rows, group_by, row_key(row, group_by)) == Seq::<RowView>::empty(),
        group_rows(rows.push(row), group_by, row_key(row, group_by)) == group_rows(
            rows,
            group_by,
            row_key(row, group_by),
        ).push(row),
        forall|key: GroupKey|
            key != row_key(row, group_by) ==> #[trigger] group_rows(rows.push(row), group_by, key)
                == group_rows(rows, group_by, key),
        is_key_list(
            rows.push(row),
            group_by,
            if fresh {
                keys_of(groups).insert(index, row_key(row, group_by))
            } else {
                keys_of(groups)
            },
        ),
{
    let key = row_key(row, group_by);
    let now = rows.push(row);
    let keys = keys_of(groups);
    assert(now.drop_last() =~= rows);
    if fresh {
        assert forall|i: int| 0 <= i < rows.len() implies row_key(#[trigger] rows[i], group_by)
            != key by {
            assert(keys.contains(row_key(rows[i], group_by)));
            let g = choose|g: int| 0 <= g < keys.len() && keys[g] == row_key(rows[i], group_by);
            assert(groups[g].key == keys[g]);
            if g < index {
                key_less_asymmetric(groups[g].key, key);
            } else {
                key_less_asymmetric(key, groups[g].key);
            }
        }
        fresh_group_is_empty(rows, group_by, key);
    }
    let after = if fresh {
        keys.insert(index, key)
    } else {
        keys
    };
    assert forall|i: int, j: int|
        #![trigger after[i], after[j]]
        0 <= i < j < after.len() implies key_less(after[i], after[j]) by {
        if fresh {
            let a = if i < index {
                i
            } else {
                i - 1
            };
            let b = if j < index {
                j
            } else {
                j - 1
            };
            if i != index && j != index {
                assert(after[i] == keys[a] && after[j] == keys[b]);
                assert(key_less(keys[a], keys[b]));
            } else if i == index {
                assert(after[j] == keys[b]);
                assert(key_less(key, groups[b].key));
            } else {
                assert(after[i] == keys[a]);
                assert(key_less(groups[a].key, key));
            }
        } else {
            assert(key_less(keys[i], keys[j]));
        }
    }
    assert forall|i: int| 0 <= i < now.len() implies after.contains(
        row_key(#[trigger] now[i], group_by),
    ) by {
        if i < rows.len() {
            assert(now[i] == rows[i]);
            assert(keys.contains(row_key(rows[i], group_by)));
            let g = choose|g: int| 0 <= g < keys.len() && keys[g] == row_key(rows[i], group_by);
            let at = if fresh && g >= index {
                g + 1
            } else {
                g
            };
            assert(after[at] == keys[g]);
        } else {
            assert(after[index] == key);
        }
    }
    assert forall|g: int| 0 <= g < after.len() implies exists|i: int|
        0 <= i < now.len() && row_key(#[trigger] now[i], group_by) == #[trigger] after[g] by {
        if fresh && g == index {
            assert(now[rows.len() as int] == row);
        } else {
            let at = if fresh && g > index {
                g - 1
            } else {
                g
            };
            assert(after[g] == keys[at]);
            let i = choose|i: int|
                0 <= i < rows.len() && row_key(#[trigger] rows[i], group_by) == keys[at];
            assert(now[i] == rows[i]);
        }
    }
}

/// The groups after a row was put into its group and the aggregates before
/// `failed` saw it.
spec fn grouped_until(
    rows: Seq<RowView>,
    row: RowView,
    group_by: Seq<Seq<u8>>,
    specs: Seq<AggregateSpecView>,
    failed: int,
    groups: Seq<PartialGroupView>,
) -> bool {
    &&& is_key_list(rows.push(row), group_by, keys_of(groups))
    &&& forall|g: int| 0 <= g < groups.len() ==> (#[trigger] groups[g]).tallies.len() == specs.len()
    &&& forall|g: int, s: int|
        #![trigger groups[g].tallies[s]]
        0 <= g < groups.len() && 0 <= s < specs.len() ==> query_tally::tally_of(
            specs[s],
            group_rows(
                if s < failed {
                    rows.push(row)
                } else {
                    rows
                },
                group_by,
                groups[g].key,
            ),
        ) == Ok::<Tally, QueryFailure>(groups[g].tallies[s])
}

/// Finds the group of a row, or adds it.
fn place_row(
    groups: &mut Vec<PartialGroup>,
    row: &MaterializedRow,
    group_by: &Vec<QueryFieldId>,
    specs: &Vec<AggregateSpec>,
    Ghost(rows): Ghost<Seq<RowView>>,
) -> (index: usize)
    requires
        grouped(
            rows,
            store_records::views(group_by@),
            store_records::views(specs@),
            store_records::views(old(groups)@),
        ),
    ensures
        index < final(groups)@.len(),
        store_records::views(final(groups)@)[index as int].key == row_key(
            row@,
            store_records::views(group_by@),
        ),
        grouped_until(
            rows,
            row@,
            store_records::views(group_by@),
            store_records::views(specs@),
            0,
            store_records::views(final(groups)@),
        ),
{
    let ghost fields = store_records::views(group_by@);
    let ghost wanted = store_records::views(specs@);
    let ghost before = store_records::views(groups@);
    let ghost key_view = row_key(row@, fields);
    let key = read_key(row, group_by);
    let index: usize = find_group(groups, &key);
    let found: bool = index < groups.len() && same_key(&groups[index].key, &key);
    proof {
        if index < before.len() {
            assert(before[index as int] == groups@[index as int]@);
        }
        if !found {
            assert forall|g: int| index <= g < before.len() implies key_less(
                key_view,
                #[trigger] before[g].key,
            ) by {
                let keys = keys_of(before);
                assert(!key_less(keys[index as int], key_view));
                key_less_total(keys[index as int], key_view);
                if g > index {
                    assert(key_less(keys[index as int], keys[g]));
                    key_less_transitive(key_view, keys[index as int], keys[g]);
                }
            }
            assert forall|g: int| 0 <= g < index implies key_less(
                #[trigger] before[g].key,
                key_view,
            ) by {
                assert(key_less(keys_of(before)[g], key_view));
            }
        }
        grouped_step(rows, fields, wanted, before, row@, index as int, !found);
    }
    if !found {
        let group = new_group(key, specs);
        groups.insert(index, group);
    }
    proof {
        let placed = store_records::views(groups@);
        assert(placed[index as int] == groups@[index as int]@);
        if !found {
            assert(placed =~= before.insert(index as int, placed[index as int]));
            assert(keys_of(placed) =~= keys_of(before).insert(index as int, key_view));
        } else {
            assert(placed =~= before);
        }
        assert forall|g: int| 0 <= g < placed.len() implies (#[trigger] placed[g]).tallies.len()
            == wanted.len() by {
            let was = if found || g < index {
                g
            } else {
                g - 1
            };
            if found || g != index {
                assert(placed[g] == before[was]);
            }
        }
        assert forall|g: int, s: int|
            #![trigger placed[g].tallies[s]]
            0 <= g < placed.len() && 0 <= s < wanted.len() implies query_tally::tally_of(
            wanted[s],
            group_rows(rows, fields, placed[g].key),
        ) == Ok::<Tally, QueryFailure>(placed[g].tallies[s]) by {
            let was = if found || g < index {
                g
            } else {
                g - 1
            };
            if found || g != index {
                assert(placed[g] == before[was]);
                assert(before[was].tallies[s] == placed[g].tallies[s]);
            }
        }
    }
    index
}

/// Lets the group of a row see it, up to the first failure.
fn observe_in_group(
    groups: &mut Vec<PartialGroup>,
    index: usize,
    row: &MaterializedRow,
    specs: &Vec<AggregateSpec>,
    Ghost(rows): Ghost<Seq<RowView>>,
    Ghost(fields): Ghost<Seq<Seq<u8>>>,
) -> (failure: Option<(usize, QueryError)>)
    requires
        index < old(groups)@.len(),
        store_records::views(old(groups)@)[index as int].key == row_key(row@, fields),
        grouped_until(
            rows,
            row@,
            fields,
            store_records::views(specs@),
            0,
            store_records::views(old(groups)@),
        ),
        rows.len() < u64::MAX,
    ensures
        match failure {
            None => failing_aggregate(
                store_records::views(specs@),
                group_rows(rows.push(row@), fields, row_key(row@, fields)),
                0,
            ) is None && grouped_until(
                rows,
                row@,
                fields,
                store_records::views(specs@),
                specs@.len() as int,
                store_records::views(final(groups)@),
            ),
            Some((failed, e)) => failing_aggregate(
                store_records::views(specs@),
                group_rows(rows.push(row@), fields, row_key(row@, fields)),
                0,
            ) == Some((failed as int, e.model())) && grouped_until(
                rows,
                row@,
                fields,
                store_records::views(specs@),
                failed as int,
                store_records::views(final(groups)@),
            ),
        },
{
    let ghost wanted = store_records::views(specs@);
    let ghost placed = store_records::views(groups@);
    let ghost key = row_key(row@, fields);
    let ghost seen = group_rows(rows, fields, key);
    let ghost now = rows.push(row@);
    proof {
        assert(now.drop_last() =~= rows);
        group_rows_are_bounded(rows, fields, key);
        assert(placed[index as int] == groups@[index as int]@);
        assert forall|s: int| 0 <= s < wanted.len() implies query_tally::tally_of(
            wanted[s],
            seen,
        ) == Ok::<Tally, QueryFailure>(#[trigger] placed[index as int].tallies[s]) by {}
    }
    let mut group = PartialGroup { key: Vec::new(), accumulators: Vec::new() };
    std::mem::swap(&mut group, &mut groups[index]);
    let (observed, failure) = observe_row(group, specs, row, Ghost(seen));
    groups.set(index, observed);
    proof {
        let after = store_records::views(groups@);
        let until = match failure {
            None => specs@.len() as int,
            Some((failed, _)) => failed as int,
        };
        assert(after =~= placed.update(index as int, observed@));
        assert(keys_of(after) =~= keys_of(placed));
        assert forall|g: int| 0 <= g < after.len() implies (#[trigger] after[g]).tallies.len()
            == wanted.len() by {
            if g != index {
                assert(after[g] == placed[g]);
            }
        }
        assert forall|g: int, s: int|
            #![trigger after[g].tallies[s]]
            0 <= g < after.len() && 0 <= s < wanted.len() implies query_tally::tally_of(
            wanted[s],
            group_rows(
                if s < until {
                    now
                } else {
                    rows
                },
                fields,
                after[g].key,
            ),
        ) == Ok::<Tally, QueryFailure>(after[g].tallies[s]) by {
            if g == index {
                assert(observed@.tallies[s] == after[g].tallies[s]);
            } else {
                assert(after[g] == placed[g]);
                assert(placed[g].tallies[s] == after[g].tallies[s]);
                let keys = keys_of(after);
                assert(keys[g] == after[g].key && keys[index as int] == key);
                if g < index {
                    assert(key_less(keys[g], keys[index as int]));
                    key_less_asymmetric(keys[g], keys[index as int]);
                } else {
                    assert(key_less(keys[index as int], keys[g]));
                    key_less_asymmetric(keys[index as int], keys[g]);
                }
            }
        }
    }
    failure
}

/// Groups up to a failure are the planned groups.
proof fn failed_groups_are_planned(
    rows: Seq<RowView>,
    group_by: Seq<Seq<u8>>,
    specs: Seq<AggregateSpecView>,
    n: int,
    failed: int,
    e: QueryFailure,
    groups: Seq<PartialGroupView>,
)
    requires
        0 <= n < rows.len(),
        first_failure(rows, group_by, specs, 0) == Some((n, failed, e)),
        grouped_until(rows.take(n), rows[n], group_by, specs, failed, groups),
    ensures
        groups == planned_groups(rows, group_by, specs),
{
    let failing = first_failure(rows, group_by, specs, 0);
    let expected = planned_groups(rows, group_by, specs);
    assert(rows.take(n + 1) =~= rows.take(n).push(rows[n]));
    group_keys_are_unique(rows.take(n + 1), group_by, keys_of(groups));
    assert(keys_of(groups) == planned_keys(rows, group_by, failing));
    assert forall|g: int| 0 <= g < groups.len() implies #[trigger] groups[g] == expected[g] by {
        assert(keys_of(groups)[g] == groups[g].key);
        assert forall|s: int| 0 <= s < specs.len() implies #[trigger] groups[g].tallies[s]
            == expected[g].tallies[s] by {}
        assert(groups[g].tallies =~= expected[g].tallies);
    }
    assert(groups =~= expected);
}

/// A failure is at one of the rows.
pub proof fn failure_is_a_row(
    rows: Seq<RowView>,
    group_by: Seq<Seq<u8>>,
    specs: Seq<AggregateSpecView>,
    n: int,
)
    requires
        0 <= n,
    ensures
        first_failure(rows, group_by, specs, n) matches Some((at, _, _)) ==> n <= at < rows.len(),
    decreases rows.len() - n,
{
    if n < rows.len() {
        failure_is_a_row(rows, group_by, specs, n + 1);
    }
}

/// Groups the rows and runs the accumulators over them, up to the first
/// failure.
pub fn plan_groups(rows: &Vec<MaterializedRow>, group_by: &Vec<QueryFieldId>, specs: &Vec<
    AggregateSpec,
>) -> (plan: AggregatePlan)
    ensures
        store_records::views(plan.groups@) == planned_groups(
            store_records::views(rows@),
            store_records::views(group_by@),
            store_records::views(specs@),
        ),
        match plan.failure {
            None => first_failure(
                store_records::views(rows@),
                store_records::views(group_by@),
                store_records::views(specs@),
                0,
            ) is None,
            Some(e) => first_failure(
                store_records::views(rows@),
                store_records::views(group_by@),
                store_records::views(specs@),
                0,
            ) matches Some((_, _, failure)) && failure == e.model(),
        },
        (group_by@.len() == 0 && rows@.len() == 0) || is_key_list(
            match first_failure(
                store_records::views(rows@),
                store_records::views(group_by@),
                store_records::views(specs@),
                0,
            ) {
                None => store_records::views(rows@),
                Some((n, _, _)) => store_records::views(rows@).take(n + 1),
            },
            store_records::views(group_by@),
            keys_of(store_records::views(plan.groups@)),
        ),
{
    let ghost all = store_records::views(rows@);
    let ghost fields = store_records::views(group_by@);
    let ghost wanted = store_records::views(specs@);
    let ghost failing = first_failure(all, fields, wanted, 0);
    let mut groups: Vec<PartialGroup> = Vec::new();
    let total: usize = rows.len();
    let mut i: usize = 0;
    proof {
        assert(all.take(0) =~= Seq::<RowView>::empty());
        assert(keys_of(store_records::views(groups@)) =~= Seq::<GroupKey>::empty());
        assert(is_key_list(all.take(0), fields, Seq::<GroupKey>::empty()));
    }
    while i < total
        invariant
            i <= total,
            total == rows@.len(),
            all == store_records::views(rows@),
            fields == store_records::views(group_by@),
            wanted == store_records::views(specs@),
            failing == first_failure(all, fields, wanted, 0),
            failing == first_failure(all, fields, wanted, i as int),
            grouped(all.take(i as int), fields, wanted, store_records::views(groups@)),
        decreases total - i,
    {
        let row = &rows[i];
        let ghost so_far = all.take(i as int);
        proof {
            assert(all[i as int] == row@);
            assert(all.take(i + 1) =~= so_far.push(row@));
        }
        let index: usize = place_row(&mut groups, row, group_by, specs, Ghost(so_far));
        let failure = observe_in_group(
            &mut groups,
            index,
            row,
            specs,
            Ghost(so_far),
            Ghost(fields),
        );
        if let Some((failed, e)) = failure {
            proof {
                failed_groups_are_planned(
                    all,
                    fields,
                    wanted,
                    i as int,
                    failed as int,
                    e.model(),
                    store_records::views(groups@),
                );
            }
            return AggregatePlan { groups, failure: Some(e) };
        }
        i = i + 1;
    }
    proof {
        assert(all.take(i as int) =~= all);
        group_keys_are_unique(all, fields, keys_of(store_records::views(groups@)));
    }
    if group_by.len() == 0 && total == 0 {
        proof {
            let keys = keys_of(store_records::views(groups@));
            if keys.len() > 0 {
                let k = choose|k: int|
                    0 <= k < all.len() && row_key(#[trigger] all[k], fields) == keys[0];
            }
        }
        let none: Vec<QueryScalar> = Vec::new();
        assert(sorted_maps::scalar_views(none@) =~= Seq::<QueryScalarView>::empty());
        let group = new_group(none, specs);
        groups.push(group);
        proof {
            let views = store_records::views(groups@);
            let expected = planned_groups(all, fields, wanted);
            assert(views[0] == group@);
            assert(expected[0].tallies =~= views[0].tallies);
            assert(views =~= expected);
        }
    } else {
        proof {
            let views = store_records::views(groups@);
            let expected = planned_groups(all, fields, wanted);
            assert forall|g: int| 0 <= g < views.len() implies #[trigger] views[g]
                == expected[g] by {
                assert(keys_of(views)[g] == views[g].key);
                assert(views[g].tallies =~= expected[g].tallies);
            }
            assert(views =~= expected);
        }
    }
    AggregatePlan { groups, failure: None }
}

} // verus!
