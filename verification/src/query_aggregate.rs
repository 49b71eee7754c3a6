//! Metadata aggregates: results of the groups, their order, and pages.
//!
//! Floating-point arithmetic is the caller's: it folds the operands of one
//! accumulator into one number, whose bits come back. Everything else is
//! decided here.

use vstd::prelude::*;

use crate::bytes;
use crate::digest;
use crate::names::QueryFieldId;
use crate::namespace_types::RootReadContext;
use crate::ordering;
use crate::ordering::Comparison;
use crate::positions::ReadVersion;
use crate::query_catalog;
use crate::query_cursor;
use crate::query_cursor::CursorKind;
use crate::query_digests;
use crate::query_groups;
use crate::query_groups::{AggregatePlan, PartialGroup, PartialGroupView};
use crate::query_rows;
use crate::query_rows::{CollectedRows, RowView};
use crate::query_search;
use crate::query_tally;
use crate::query_tally::{AggregateAccumulator, SumState, SumView, Tally};
use crate::query_types;
use crate::query_types::{
    AggregateGroup, AggregateGroupView, AggregatePage, AggregatePageView, AggregateRequest,
    AggregateRequestView, AggregateSpec, QueryError, QueryFailure, QueryPredicate,
    QueryPredicateView, QuerySort, QuerySortView,
};
use crate::scalars;
use crate::scalars::{QueryScalar, QueryScalarView};
use crate::sorted_maps;
use crate::sorted_maps::{Entry, FieldMap};
use crate::store_records;

verus! {

/// The value that stands beside a field in two lists of one length.
pub open spec fn paired(
    fields: Seq<Seq<u8>>,
    values: Seq<QueryScalarView>,
    field: Seq<u8>,
) -> Option<QueryScalarView>
    decreases fields.len(),
{
    if fields.len() == 0 {
        None
    } else if fields.last() == field {
        Some(values.last())
    } else {
        paired(fields.drop_last(), values.drop_last(), field)
    }
}

/// The map pairs the fields with the values.
pub open spec fn is_pairing(
    fields: Seq<Seq<u8>>,
    values: Seq<QueryScalarView>,
    map: Seq<Entry<QueryScalarView>>,
) -> bool {
    &&& sorted_maps::ascending(map)
    &&& forall|field: Seq<u8>| #[trigger]
        sorted_maps::lookup(map, field) == paired(fields, values, field)
}

/// The map that pairs the fields with the values.
pub open spec fn pairing(fields: Seq<Seq<u8>>, values: Seq<QueryScalarView>) -> Seq<
    Entry<QueryScalarView>,
> {
    choose|map: Seq<Entry<QueryScalarView>>| is_pairing(fields, values, map)
}

/// Two lists have exactly one pairing.
pub proof fn pairing_is_unique(
    fields: Seq<Seq<u8>>,
    values: Seq<QueryScalarView>,
    map: Seq<Entry<QueryScalarView>>,
)
    requires
        is_pairing(fields, values, map),
    ensures
        map == pairing(fields, values),
{
    sorted_maps::lookups_determine_the_map(map, pairing(fields, values));
}

/// Two lists of one length have a pairing.
pub proof fn pairing_exists(fields: Seq<Seq<u8>>, values: Seq<QueryScalarView>)
    requires
        fields.len() == values.len(),
    ensures
        is_pairing(fields, values, pairing(fields, values)),
{
    let list = Seq::new(fields.len(), |i: int| (fields[i], values[i]));
    let none = Seq::<Entry<QueryScalarView>>::empty();
    let map = sorted_maps::map_takes_a_list(none, list);
    assert forall|field: Seq<u8>| #[trigger]
        sorted_maps::lookup(map, field) == paired(fields, values, field) by {
        pairs_are_found(fields, values, list, field);
        assert(sorted_maps::lookup(none, field) is None);
    }
    assert(is_pairing(fields, values, map));
}

/// What stands beside a field is found under it in the list of pairs.
proof fn pairs_are_found(
    fields: Seq<Seq<u8>>,
    values: Seq<QueryScalarView>,
    list: Seq<Entry<QueryScalarView>>,
    field: Seq<u8>,
)
    requires
        fields.len() == values.len(),
        list.len() == fields.len(),
        forall|i: int| 0 <= i < list.len() ==> #[trigger] list[i] == (fields[i], values[i]),
    ensures
        sorted_maps::lookup(list, field) == paired(fields, values, field),
    decreases fields.len(),
{
    if fields.len() > 0 {
        let n = fields.len() - 1;
        assert(list[n] == (fields[n], values[n]));
        let shorter = list.drop_last();
        assert forall|i: int| 0 <= i < shorter.len() implies #[trigger] shorter[i] == (
            fields.drop_last()[i],
            values.drop_last()[i],
        ) by {
            assert(shorter[i] == list[i]);
        }
        pairs_are_found(fields.drop_last(), values.drop_last(), shorter, field);
    }
}

/// A field that is listed once has its value beside it.
pub proof fn paired_is_beside(fields: Seq<Seq<u8>>, values: Seq<QueryScalarView>, i: int)
    requires
        fields.no_duplicates(),
        fields.len() == values.len(),
        0 <= i < fields.len(),
    ensures
        paired(fields, values, fields[i]) == Some(values[i]),
    decreases fields.len(),
{
    let n = fields.len() - 1;
    if i < n {
        assert(fields[i] != fields[n]);
        let shorter = fields.drop_last();
        assert forall|j: int, k: int|
            0 <= j < shorter.len() && 0 <= k < shorter.len() && j != k implies shorter[j]
            != shorter[k] by {
            assert(fields[j] != fields[k]);
        }
        paired_is_beside(shorter, values.drop_last(), i);
        assert(shorter[i] == fields[i]);
    }
}

/// Pairings of the same fields with different values differ.
pub proof fn pairings_are_distinct(
    fields: Seq<Seq<u8>>,
    a: Seq<QueryScalarView>,
    b: Seq<QueryScalarView>,
)
    requires
        fields.no_duplicates(),
        fields.len() == a.len(),
        fields.len() == b.len(),
        pairing(fields, a) == pairing(fields, b),
    ensures
        a == b,
{
    pairing_exists(fields, a);
    pairing_exists(fields, b);
    assert forall|i: int| 0 <= i < a.len() implies #[trigger] a[i] == b[i] by {
        paired_is_beside(fields, a, i);
        paired_is_beside(fields, b, i);
        assert(sorted_maps::lookup(pairing(fields, a), fields[i]) == paired(fields, a, fields[i]));
        assert(sorted_maps::lookup(pairing(fields, b), fields[i]) == paired(fields, b, fields[i]));
    }
    assert(a =~= b);
}

/// Pairs fields with values.
fn pair_fields(fields: &Vec<QueryFieldId>, values: &Vec<QueryScalar>) -> (map: FieldMap<QueryScalar>)
    requires
        fields@.len() == values@.len(),
    ensures
        map@ == pairing(store_records::views(fields@), sorted_maps::scalar_views(values@)),
{
    let ghost names = store_records::views(fields@);
    let ghost scalars = sorted_maps::scalar_views(values@);
    let mut map: FieldMap<QueryScalar> = FieldMap::new();
    let mut i: usize = 0;
    proof {
        assert(names.take(0) =~= Seq::<Seq<u8>>::empty());
    }
    while i < fields.len()
        invariant
            i <= fields@.len(),
            fields@.len() == values@.len(),
            names == store_records::views(fields@),
            scalars == sorted_maps::scalar_views(values@),
            is_pairing(names.take(i as int), scalars.take(i as int), map@),
        decreases fields@.len() - i,
    {
        proof {
            assert(names.take(i + 1).last() == fields@[i as int]@);
            assert(scalars.take(i + 1).last() == values@[i as int]@);
            assert(names.take(i + 1).drop_last() =~= names.take(i as int));
            assert(scalars.take(i + 1).drop_last() =~= scalars.take(i as int));
        }
        map.insert(fields[i].clone(), values[i].clone());
        i = i + 1;
    }
    proof {
        assert(names.take(i as int) =~= names);
        assert(scalars.take(i as int) =~= scalars);
        pairing_is_unique(names, scalars, map@);
    }
    map
}

/// The accumulator sums floating-point numbers.
pub open spec fn sums_floats(tally: Tally) -> bool {
    match tally {
        Tally::Sum(SumView::Floats(_)) => true,
        _ => false,
    }
}

/// Some fold that the filter picks out is not finite.
pub open spec fn some_fold_fails(
    groups: Seq<PartialGroupView>,
    folds: Seq<Seq<u64>>,
    sums: bool,
) -> bool {
    exists|g: int, s: int|
        #![trigger groups[g].tallies[s]]
        0 <= g < groups.len() && 0 <= s < groups[g].tallies.len() && query_tally::needs_fold(
            groups[g].tallies[s],
        ) && (sums ==> sums_floats(groups[g].tallies[s])) && !scalars::finite_bits(folds[g][s])
}

/// Results of the accumulators of one group.
pub open spec fn results(tallies: Seq<Tally>, folds: Seq<u64>) -> Seq<QueryScalarView> {
    Seq::new(tallies.len(), |s: int| query_tally::finished(tallies[s], folds[s]))
}

/// One finished group.
pub open spec fn group_of(
    group: PartialGroupView,
    request: AggregateRequestView,
    folds: Seq<u64>,
) -> AggregateGroupView {
    AggregateGroupView {
        keys: pairing(request.group_by, group.key),
        values: pairing(
            query_catalog::result_ids(request.aggregates),
            results(group.tallies, folds),
        ),
    }
}

/// The finished groups in the order of their keys, or the failure: first of a
/// floating-point sum, then of the accumulators, then of an average.
pub open spec fn finished_groups(
    groups: Seq<PartialGroupView>,
    failure: Option<QueryFailure>,
    request: AggregateRequestView,
    folds: Seq<Seq<u64>>,
) -> Result<Seq<AggregateGroupView>, QueryFailure> {
    if some_fold_fails(groups, folds, true) {
        Err(query_tally::non_finite())
    } else if failure is Some {
        Err(failure->0)
    } else if some_fold_fails(groups, folds, false) {
        Err(query_tally::non_finite())
    } else {
        Ok(Seq::new(groups.len(), |g: int| group_of(groups[g], request, folds[g])))
    }
}

/// Folds of one group.
pub open spec fn fold_views(folds: Seq<Vec<u64>>) -> Seq<Seq<u64>> {
    Seq::new(folds.len(), |g: int| folds[g]@)
}

/// Each group has a fold for each accumulator.
pub open spec fn folds_match(groups: Seq<PartialGroupView>, folds: Seq<Seq<u64>>) -> bool {
    folds.len() == groups.len() && forall|g: int|
        0 <= g < groups.len() ==> (#[trigger] folds[g]).len() == groups[g].tallies.len()
}

/// Whether the accumulator sums floating-point numbers.
fn is_float_sum(accumulator: &AggregateAccumulator) -> (sums: bool)
    ensures
        sums == sums_floats(accumulator@),
{
    match accumulator {
        AggregateAccumulator::Sum(SumState::Floats(_)) => true,
        _ => false,
    }
}

/// Whether some fold that the filter picks out is not finite.
fn fold_fails(groups: &Vec<PartialGroup>, folds: &Vec<Vec<u64>>, sums: bool) -> (fails: bool)
    requires
        folds_match(store_records::views(groups@), fold_views(folds@)),
    ensures
        fails == some_fold_fails(store_records::views(groups@), fold_views(folds@), sums),
{
    let ghost all = store_records::views(groups@);
    let ghost bits = fold_views(folds@);
    let mut g: usize = 0;
    while g < groups.len()
        invariant
            g <= groups@.len(),
            all == store_records::views(groups@),
            bits == fold_views(folds@),
            folds_match(all, bits),
            forall|a: int, s: int|
                #![trigger all[a].tallies[s]]
                0 <= a < g && 0 <= s < all[a].tallies.len() && query_tally::needs_fold(
                    all[a].tallies[s],
                ) && (sums ==> sums_floats(all[a].tallies[s])) ==> scalars::finite_bits(bits[a][s]),
        decreases groups@.len() - g,
    {
        let accumulators = &groups[g].accumulators;
        let ghost tallies = all[g as int].tallies;
        assert(all[g as int] == groups@[g as int]@);
        assert(bits[g as int] == folds@[g as int]@);
        let mut s: usize = 0;
        while s < accumulators.len()
            invariant
                s <= accumulators@.len(),
                g < groups@.len(),
                folds@.len() == groups@.len(),
                all == store_records::views(groups@),
                bits == fold_views(folds@),
                bits[g as int] == folds@[g as int]@,
                tallies == all[g as int].tallies,
                tallies == store_records::views(accumulators@),
                folds@[g as int]@.len() == accumulators@.len(),
                forall|k: int|
                    #![trigger tallies[k]]
                    0 <= k < s && query_tally::needs_fold(tallies[k]) && (sums ==> sums_floats(
                        tallies[k],
                    )) ==> scalars::finite_bits(bits[g as int][k]),
            decreases accumulators@.len() - s,
        {
            assert(tallies[s as int] == accumulators@[s as int]@);
            let picked: bool = !sums || is_float_sum(&accumulators[s]);
            if picked && query_tally::finish(&accumulators[s], folds[g][s]).is_none() {
                assert(query_tally::needs_fold(all[g as int].tallies[s as int]));
                assert(!scalars::finite_bits(bits[g as int][s as int]));
                return true;
            }
            s = s + 1;
        }
        g = g + 1;
    }
    false
}

/// Results of the accumulators of one group.
fn finish_values(accumulators: &Vec<AggregateAccumulator>, folds: &Vec<u64>) -> (values: Vec<
    QueryScalar,
>)
    requires
        folds@.len() == accumulators@.len(),
        forall|s: int|
            0 <= s < accumulators@.len() && query_tally::needs_fold(
                #[trigger] store_records::views(accumulators@)[s],
            ) ==> scalars::finite_bits(folds@[s]),
    ensures
        sorted_maps::scalar_views(values@) == results(
            store_records::views(accumulators@),
            folds@,
        ),
{
    let ghost tallies = store_records::views(accumulators@);
    let mut values: Vec<QueryScalar> = Vec::new();
    let mut s: usize = 0;
    while s < accumulators.len()
        invariant
            s <= accumulators@.len(),
            folds@.len() == accumulators@.len(),
            tallies == store_records::views(accumulators@),
            forall|k: int|
                0 <= k < accumulators@.len() && query_tally::needs_fold(#[trigger] tallies[k])
                    ==> scalars::finite_bits(folds@[k]),
            values@.len() == s,
            forall|k: int|
                0 <= k < s ==> (#[trigger] values@[k])@ == query_tally::finished(
                    tallies[k],
                    folds@[k],
                ),
        decreases accumulators@.len() - s,
    {
        assert(tallies[s as int] == accumulators@[s as int]@);
        let value = match query_tally::finish(&accumulators[s], folds[s]) {
            Some(value) => value,
            None => QueryScalar::Null,
        };
        values.push(value);
        s = s + 1;
    }
    assert(sorted_maps::scalar_views(values@) =~= results(tallies, folds@));
    values
}

/// Result ids of the aggregates.
fn list_result_ids(aggregates: &Vec<AggregateSpec>) -> (ids: Vec<QueryFieldId>)
    ensures
        store_records::views(ids@) == query_catalog::result_ids(store_records::views(aggregates@)),
{
    let mut ids: Vec<QueryFieldId> = Vec::new();
    let mut i: usize = 0;
    while i < aggregates.len()
        invariant
            i <= aggregates@.len(),
            ids@.len() == i,
            forall|k: int| 0 <= k < i ==> (#[trigger] ids@[k])@ == aggregates@[k].result_id@,
        decreases aggregates@.len() - i,
    {
        ids.push(aggregates[i].result_id.clone());
        i = i + 1;
    }
    assert(store_records::views(ids@) =~= query_catalog::result_ids(
        store_records::views(aggregates@),
    ));
    ids
}

/// The outcome of finishing groups.
pub open spec fn groups_outcome(result: Result<Vec<AggregateGroup>, QueryError>) -> Result<
    Seq<AggregateGroupView>,
    QueryFailure,
> {
    match result {
        Ok(groups) => Ok(store_records::views(groups@)),
        Err(e) => Err(e.model()),
    }
}

/// The contents of an optional failure.
pub open spec fn failure_view(failure: Option<QueryError>) -> Option<QueryFailure> {
    match failure {
        None => None,
        Some(e) => Some(e.model()),
    }
}

/// The failure of a result that is not finite.
fn non_finite_error() -> (e: QueryError)
    ensures
        e.model() == query_tally::non_finite(),
{
    QueryError::Projection { source: "query float must be finite".to_owned() }
}

/// Finishes the groups of a plan with the results of their floating-point folds.
pub fn finish_groups(plan: AggregatePlan, request: &AggregateRequest, folds: &Vec<Vec<u64>>) -> (result:
    Result<Vec<AggregateGroup>, QueryError>)
    requires
        folds_match(store_records::views(plan.groups@), fold_views(folds@)),
        forall|g: int|
            0 <= g < plan.groups@.len() ==> (#[trigger] store_records::views(
                plan.groups@,
            )[g]).key.len() == request.group_by@.len() && store_records::views(
                plan.groups@,
            )[g].tallies.len() == request.aggregates@.len(),
    ensures
        groups_outcome(result) == finished_groups(
            store_records::views(plan.groups@),
            failure_view(plan.failure),
            request@,
            fold_views(folds@),
        ),
{
    let ghost all = store_records::views(plan.groups@);
    let ghost bits = fold_views(folds@);
    if fold_fails(&plan.groups, folds, true) {
        return Err(non_finite_error());
    }
    if let Some(e) = plan.failure {
        return Err(e);
    }
    if fold_fails(&plan.groups, folds, false) {
        return Err(non_finite_error());
    }
    let ids = list_result_ids(&request.aggregates);
    let mut groups: Vec<AggregateGroup> = Vec::new();
    let mut g: usize = 0;
    while g < plan.groups.len()
        invariant
            g <= plan.groups@.len(),
            all == store_records::views(plan.groups@),
            bits == fold_views(folds@),
            folds_match(all, bits),
            !some_fold_fails(all, bits, false),
            store_records::views(ids@) == query_catalog::result_ids(request@.aggregates),
            forall|k: int|
                0 <= k < plan.groups@.len() ==> (#[trigger] all[k]).key.len()
                    == request.group_by@.len() && all[k].tallies.len()
                    == request.aggregates@.len(),
            groups@.len() == g,
            forall|k: int|
                0 <= k < g ==> (#[trigger] groups@[k])@ == group_of(all[k], request@, bits[k]),
        decreases plan.groups@.len() - g,
    {
        let partial = &plan.groups[g];
        proof {
            assert(all[g as int] == partial@);
            assert(bits[g as int] == folds@[g as int]@);
            assert forall|s: int|
                0 <= s < partial.accumulators@.len() && query_tally::needs_fold(
                    #[trigger] store_records::views(partial.accumulators@)[s],
                ) implies scalars::finite_bits(folds@[g as int]@[s]) by {
                assert(all[g as int].tallies[s] == store_records::views(
                    partial.accumulators@,
                )[s]);
            }
            assert(ids@.len() == store_records::views(ids@).len());
            assert(partial.key@.len() == all[g as int].key.len());
            assert(partial.accumulators@.len() == all[g as int].tallies.len());
        }
        let values = finish_values(&partial.accumulators, &folds[g]);
        assert(values@.len() == sorted_maps::scalar_views(values@).len());
        let group = AggregateGroup {
            keys: pair_fields(&request.group_by, &partial.key),
            values: pair_fields(&ids, &values),
        };
        groups.push(group);
        g = g + 1;
    }
    proof {
        assert(store_records::views(groups@) =~= Seq::new(
            all.len(),
            |k: int| group_of(all[k], request@, bits[k]),
        ));
    }
    Ok(groups)
}

/// Value of a sort field in a group: of a key, or else of a result.
pub open spec fn group_value(group: AggregateGroupView, field: Seq<u8>) -> Option<QueryScalarView> {
    match sorted_maps::lookup(group.keys, field) {
        Some(value) => Some(value),
        None => sorted_maps::lookup(group.values, field),
    }
}

/// One group comes before another: by the sort fields in order, then by the
/// bytes of their identities.
pub open spec fn group_less(
    left: AggregateGroupView,
    right: AggregateGroupView,
    sort: Seq<QuerySortView>,
) -> bool
    decreases sort.len(),
{
    if sort.len() == 0 {
        bytes::lex_less(
            query_cursor::group_identity(left.keys),
            query_cursor::group_identity(right.keys),
        )
    } else {
        let x = group_value(left, sort[0].field_id);
        let y = group_value(right, sort[0].field_id);
        if x == y {
            group_less(left, right, sort.drop_first())
        } else {
            query_search::directed_less(x, y, sort[0].direction)
        }
    }
}

/// No two groups come before each other.
pub proof fn group_less_asymmetric(
    left: AggregateGroupView,
    right: AggregateGroupView,
    sort: Seq<QuerySortView>,
)
    requires
        group_less(left, right, sort),
    ensures
        !group_less(right, left, sort),
    decreases sort.len(),
{
    if sort.len() == 0 {
        let a = query_cursor::group_identity(left.keys);
        let b = query_cursor::group_identity(right.keys);
        if bytes::lex_less(b, a) {
            bytes::lex_less_transitive(a, b, a);
            bytes::lex_less_irreflexive(a);
        }
    } else {
        let x = group_value(left, sort[0].field_id);
        let y = group_value(right, sort[0].field_id);
        query_search::directed_total(x, y, sort[0].direction);
        if x == y {
            group_less_asymmetric(left, right, sort.drop_first());
        }
    }
}

/// A group that comes before another comes before or after every third.
pub proof fn group_less_splits(
    a: AggregateGroupView,
    b: AggregateGroupView,
    c: AggregateGroupView,
    sort: Seq<QuerySortView>,
)
    requires
        group_less(a, c, sort),
    ensures
        group_less(a, b, sort) || group_less(b, c, sort),
    decreases sort.len(),
{
    if sort.len() == 0 {
        let p = query_cursor::group_identity(a.keys);
        let q = query_cursor::group_identity(b.keys);
        let r = query_cursor::group_identity(c.keys);
        bytes::lex_less_total(p, q);
        if bytes::lex_less(q, p) {
            bytes::lex_less_transitive(q, p, r);
        }
    } else {
        let direction = sort[0].direction;
        let x = group_value(a, sort[0].field_id);
        let y = group_value(b, sort[0].field_id);
        let z = group_value(c, sort[0].field_id);
        query_search::directed_total(x, y, direction);
        query_search::directed_total(y, z, direction);
        if x == z {
            if y == x {
                group_less_splits(a, b, c, sort.drop_first());
            }
        } else if y != x && y != z && query_search::directed_less(y, x, direction) {
            query_search::directed_transitive(y, x, z, direction);
        }
    }
}

/// The identity of a group fits a cursor.
pub open spec fn keys_fit(keys: Seq<Entry<QueryScalarView>>) -> bool {
    scalars_fit(keys) && query_cursor::group_identity(keys).len() <= u32::MAX
}

/// The length of every text and byte key fits a 32-bit prefix.
pub open spec fn scalars_fit(keys: Seq<Entry<QueryScalarView>>) -> bool {
    forall|i: int| 0 <= i < keys.len() ==> query_cursor::scalar_fits((#[trigger] keys[i]).1)
}

/// Whether the identity of a group fits a cursor.
fn check_keys_fit(keys: &FieldMap<QueryScalar>) -> (fit: bool)
    ensures
        fit == keys_fit(keys@),
{
    let entries = keys.entries();
    let ghost all = keys@;
    let mut length: u64 = 0;
    let mut i: usize = 0;
    proof {
        assert(all.take(0) =~= Seq::<Entry<QueryScalarView>>::empty());
    }
    while i < entries.len()
        invariant
            i <= entries@.len(),
            all == keys@,
            all == sorted_maps::entry_views(entries@),
            length == query_cursor::group_identity(all.take(i as int)).len(),
            length <= u32::MAX,
            forall|k: int| 0 <= k < i ==> query_cursor::scalar_fits((#[trigger] all[k]).1),
        decreases entries@.len() - i,
    {
        broadcast use bytes::be64_reads_back;
        broadcast use bytes::be32_reads_back;

        let entry = &entries[i];
        proof {
            assert(all[i as int] == entry@);
            assert(all.take(i + 1).last() == entry@);
            assert(all.take(i + 1).drop_last() =~= all.take(i as int));
            identity_grows(all, i + 1);
        }
        if !query_cursor::fits_cursor(&entry.value) {
            assert(!query_cursor::scalar_fits(all[i as int].1));
            return false;
        }
        let width: u64 = match &entry.value {
            QueryScalar::Null => 0,
            QueryScalar::Boolean(_) => 1,
            QueryScalar::Signed(_) => 8,
            QueryScalar::Unsigned(_) => 8,
            QueryScalar::Float(_) => 8,
            QueryScalar::Timestamp(_) => 8,
            QueryScalar::String(value) => 4 + value.as_str().as_bytes().len() as u64,
            QueryScalar::Bytes(value) => 4 + value.len() as u64,
        };
        let field_width: u64 = 4 + entry.field.as_bytes().len() as u64;
        assert(query_cursor::sized(entry@.0).len() == field_width);
        assert(query_cursor::scalar_bytes(entry@.1).len() == 1 + width);
        length = length + field_width + 1 + width;
        if length > 0xffff_ffff {
            return false;
        }
        i = i + 1;
    }
    assert(all.take(i as int) =~= all);
    true
}

/// The identity of more keys is no shorter.
proof fn identity_grows(keys: Seq<Entry<QueryScalarView>>, n: int)
    requires
        0 <= n <= keys.len(),
    ensures
        query_cursor::group_identity(keys.take(n)).len() <= query_cursor::group_identity(
            keys,
        ).len(),
    decreases keys.len() - n,
{
    if n < keys.len() {
        assert(keys.take(n + 1).drop_last() =~= keys.take(n));
        identity_grows(keys, n + 1);
    } else {
        assert(keys.take(n) =~= keys);
    }
}

/// Identity of one aggregate group.
pub fn aggregate_group_identity(group: &AggregateGroup) -> (encoded: Vec<u8>)
    requires
        keys_fit(group@.keys),
    ensures
        encoded@ == query_cursor::group_identity(group@.keys),
{
    let entries = group.keys.entries();
    let ghost all = group@.keys;
    let mut encoded: Vec<u8> = Vec::new();
    let mut i: usize = 0;
    proof {
        assert(all.take(0) =~= Seq::<Entry<QueryScalarView>>::empty());
        assert(encoded@ =~= Seq::<u8>::empty());
    }
    while i < entries.len()
        invariant
            i <= entries@.len(),
            all == sorted_maps::entry_views(entries@),
            scalars_fit(all),
            encoded@ == query_cursor::group_identity(all.take(i as int)),
        decreases entries@.len() - i,
    {
        let entry = &entries[i];
        proof {
            assert(all[i as int] == entry@);
            assert(all.take(i + 1).last() == entry@);
            assert(all.take(i + 1).drop_last() =~= all.take(i as int));
        }
        query_cursor::push_sized(&mut encoded, entry.field.as_bytes());
        query_cursor::encode_cursor_scalar(&mut encoded, &entry.value);
        i = i + 1;
    }
    assert(all.take(i as int) =~= all);
    encoded
}

/// A copy of the value of a sort field in a group.
fn read_group_value(group: &AggregateGroup, field: &QueryFieldId) -> (value: Option<QueryScalar>)
    ensures
        bytes::option_view(value) == group_value(group@, field@),
{
    match group.keys.get(field) {
        Some(value) => Some(value.clone()),
        None => match group.values.get(field) {
            Some(value) => Some(value.clone()),
            None => None,
        },
    }
}

/// Whether one group comes before another.
fn group_before(left: &AggregateGroup, right: &AggregateGroup, sort: &Vec<QuerySort>) -> (before: bool)
    requires
        keys_fit(left@.keys),
        keys_fit(right@.keys),
    ensures
        before == group_less(left@, right@, store_records::views(sort@)),
{
    let ghost all = store_records::views(sort@);
    let mut i: usize = 0;
    assert(all.skip(0) =~= all);
    while i < sort.len()
        invariant
            i <= sort@.len(),
            all == store_records::views(sort@),
            group_less(left@, right@, all) == group_less(left@, right@, all.skip(i as int)),
        decreases sort@.len() - i,
    {
        proof {
            let rest = all.skip(i as int);
            assert(rest[0] == sort@[i as int]@);
            assert(rest.drop_first() =~= all.skip(i + 1));
        }
        let x = read_group_value(left, &sort[i].field_id);
        let y = read_group_value(right, &sort[i].field_id);
        if !query_search::optional_same(&x, &y) {
            return query_search::directed_before(&x, &y, sort[i].direction);
        }
        i = i + 1;
    }
    let a = aggregate_group_identity(left);
    let b = aggregate_group_identity(right);
    bytes::bytes_less(a.as_slice(), b.as_slice())
}

/// Every group identity fits a cursor.
pub open spec fn groups_fit(groups: Seq<AggregateGroupView>) -> bool {
    forall|i: int| 0 <= i < groups.len() ==> keys_fit((#[trigger] groups[i]).keys)
}

/// Groups under the sort of one request.
pub struct SortedGroups<'a> {
    pub groups: &'a Vec<AggregateGroup>,
    pub sort: &'a Vec<QuerySort>,
}

impl<'a> Comparison for SortedGroups<'a> {
    open spec fn count(&self) -> nat {
        self.groups@.len()
    }

    open spec fn less(&self, i: int, j: int) -> bool {
        group_less(
            store_records::views(self.groups@)[i],
            store_records::views(self.groups@)[j],
            store_records::views(self.sort@),
        )
    }

    open spec fn comparable(&self) -> bool {
        groups_fit(store_records::views(self.groups@))
    }

    proof fn less_asymmetric(&self, i: int, j: int) {
        group_less_asymmetric(
            store_records::views(self.groups@)[i],
            store_records::views(self.groups@)[j],
            store_records::views(self.sort@),
        );
    }

    proof fn less_splits(&self, i: int, j: int, k: int) {
        group_less_splits(
            store_records::views(self.groups@)[i],
            store_records::views(self.groups@)[j],
            store_records::views(self.groups@)[k],
            store_records::views(self.sort@),
        );
    }

    fn before(&self, i: usize, j: usize) -> (before: bool) {
        assert(store_records::views(self.groups@)[i as int] == self.groups@[i as int]@);
        assert(store_records::views(self.groups@)[j as int] == self.groups@[j as int]@);
        group_before(&self.groups[i], &self.groups[j], self.sort)
    }
}

/// The groups in the order of the sort.
pub open spec fn ordered_groups(groups: Seq<AggregateGroupView>, sort: Seq<QuerySortView>) -> Seq<
    AggregateGroupView,
> {
    let order = ordering::stable_order(
        groups.len(),
        |i: int, j: int| group_less(groups[i], groups[j], sort),
    );
    Seq::new(order.len(), |k: int| groups[order[k]])
}

/// Identities of groups.
pub open spec fn group_identities(groups: Seq<AggregateGroupView>) -> Seq<Seq<u8>> {
    Seq::new(groups.len(), |i: int| query_cursor::group_identity(groups[i].keys))
}

/// The page of the finished groups that the cursor asks for.
pub open spec fn paged_groups(
    groups: Seq<AggregateGroupView>,
    request: AggregateRequestView,
    read_version: u64,
) -> Result<AggregatePageView, QueryFailure> {
    let sorted = ordered_groups(groups, request.sort);
    match query_cursor::start_of(
        request.cursor,
        CursorKind::Aggregate,
        read_version,
        digest::sha256(request.message()),
        group_identities(sorted),
    ) {
        Err(e) => Err(e),
        Ok(start) => {
            let end = query_search::page_end(start, request.limit as int, sorted.len() as int);
            Ok(
                AggregatePageView {
                    groups: sorted.subrange(start, end),
                    next_cursor: query_search::cursor_behind(
                        CursorKind::Aggregate,
                        read_version,
                        request.message(),
                        group_identities(sorted),
                        end,
                    ),
                    read_version,
                },
            )
        },
    }
}

/// A copy of one group.
fn copy_group(group: &AggregateGroup) -> (copy: AggregateGroup)
    ensures
        copy@ == group@,
{
    AggregateGroup { keys: group.keys.clone(), values: group.values.clone() }
}

/// Sorts groups.
fn sort_groups(groups: &Vec<AggregateGroup>, sort: &Vec<QuerySort>) -> (sorted: Vec<AggregateGroup>)
    requires
        groups_fit(store_records::views(groups@)),
    ensures
        store_records::views(sorted@) == ordered_groups(
            store_records::views(groups@),
            store_records::views(sort@),
        ),
        groups_fit(store_records::views(sorted@)),
{
    let items = SortedGroups { groups, sort };
    let order = ordering::stable_sort(&items, groups.len());
    let ghost views = store_records::views(groups@);
    let ghost numbers = ordering::numbers(order@);
    proof {
        let sorts = store_records::views(sort@);
        let less = |i: int, j: int| group_less(views[i], views[j], sorts);
        assert(ordering::order_of(&items) =~= less);
    }
    let mut sorted: Vec<AggregateGroup> = Vec::new();
    let mut i: usize = 0;
    while i < order.len()
        invariant
            i <= order@.len(),
            views == store_records::views(groups@),
            numbers == ordering::numbers(order@),
            forall|k: int| 0 <= k < numbers.len() ==> 0 <= #[trigger] numbers[k] < groups@.len(),
            sorted@.len() == i,
            forall|k: int| 0 <= k < i ==> (#[trigger] sorted@[k])@ == views[numbers[k]],
        decreases order@.len() - i,
    {
        assert(numbers[i as int] == order@[i as int]);
        sorted.push(copy_group(&groups[order[i]]));
        i = i + 1;
    }
    proof {
        let result = store_records::views(sorted@);
        assert(result =~= ordered_groups(views, store_records::views(sort@)));
        assert forall|k: int| 0 <= k < result.len() implies keys_fit((#[trigger] result[k]).keys) by {
            assert(result[k] == views[numbers[k]]);
        }
    }
    sorted
}

/// Identities of groups.
fn list_group_identities(groups: &Vec<AggregateGroup>) -> (identities: Vec<Vec<u8>>)
    requires
        groups_fit(store_records::views(groups@)),
    ensures
        store_records::views(identities@) == group_identities(store_records::views(groups@)),
        forall|k: int|
            0 <= k < identities@.len() ==> (#[trigger] identities@[k])@.len() <= u32::MAX,
{
    let ghost all = store_records::views(groups@);
    let mut identities: Vec<Vec<u8>> = Vec::new();
    let mut i: usize = 0;
    while i < groups.len()
        invariant
            i <= groups@.len(),
            all == store_records::views(groups@),
            groups_fit(all),
            identities@.len() == i,
            forall|k: int|
                0 <= k < i ==> (#[trigger] identities@[k])@ == group_identities(all)[k]
                    && identities@[k]@.len() <= u32::MAX,
        decreases groups@.len() - i,
    {
        assert(all[i as int] == groups@[i as int]@);
        identities.push(aggregate_group_identity(&groups[i]));
        i = i + 1;
    }
    assert(store_records::views(identities@) =~= group_identities(all));
    identities
}

/// Gives the page of the finished groups that the cursor asks for.
pub fn aggregate_page(
    groups: &Vec<AggregateGroup>,
    read_version: ReadVersion,
    request: &AggregateRequest,
) -> (result: Result<AggregatePage, QueryError>)
    requires
        request@.operands_fit(),
        request@.limit > 0,
        groups_fit(store_records::views(groups@)),
    ensures
        query_types::outcome(result) == paged_groups(
            store_records::views(groups@),
            request@,
            read_version@,
        ),
{
    let sorted = sort_groups(groups, &request.sort);
    let ghost views = store_records::views(sorted@);
    let request_digest = query_digests::aggregate_digest(request);
    let identities = list_group_identities(&sorted);
    let start: usize = match query_cursor::cursor_start(
        &request.cursor,
        CursorKind::Aggregate,
        read_version,
        &request_digest,
        &identities,
    ) {
        Ok(start) => start,
        Err(e) => {
            return Err(e);
        },
    };
    let total: usize = sorted.len();
    assert(identities@.len() == store_records::views(identities@).len());
    let end: usize = query_search::end_of_page(start, request.limit, total);
    let mut page_groups: Vec<AggregateGroup> = Vec::new();
    let mut i: usize = start;
    while i < end
        invariant
            start <= i <= end <= total,
            total == sorted@.len(),
            views == store_records::views(sorted@),
            page_groups@.len() == i - start,
            forall|k: int|
                0 <= k < page_groups@.len() ==> (#[trigger] page_groups@[k])@ == views[start + k],
        decreases end - i,
    {
        assert(views[i as int] == sorted@[i as int]@);
        page_groups.push(copy_group(&sorted[i]));
        i = i + 1;
    }
    let next_cursor: Option<Vec<u8>> = if end < total {
        assert(end > 0);
        Some(
            query_cursor::encode_cursor(
                CursorKind::Aggregate,
                read_version,
                &request_digest,
                identities[end - 1].as_slice(),
            ),
        )
    } else {
        None
    };
    let page = AggregatePage { groups: page_groups, next_cursor, read_version };
    proof {
        assert(page@.groups =~= views.subrange(start as int, end as int));
        if end < total {
            assert(group_identities(views)[end - 1] == identities@[end - 1]@);
        }
    }
    Ok(page)
}

/// Identities of the groups of the rows fit a cursor.
pub open spec fn rows_fit(rows: Seq<RowView>, group_by: Seq<Seq<u8>>) -> bool {
    forall|i: int|
        0 <= i < rows.len() ==> keys_fit(
            pairing(group_by, query_groups::row_key(#[trigger] rows[i], group_by)),
        )
}

/// Whether the identities of the groups of the rows that the predicates select
/// fit a cursor.
pub fn check_rows_fit(
    collected: &CollectedRows,
    predicates: &Vec<QueryPredicate>,
    group_by: &Vec<QueryFieldId>,
) -> (fit: bool)
    ensures
        fit == rows_fit(
            query_search::matching_rows(collected@.rows, store_records::views(predicates@)),
            store_records::views(group_by@),
        ),
{
    let ghost all = collected@.rows;
    let ghost wanted = store_records::views(predicates@);
    let ghost fields = store_records::views(group_by@);
    let mut i: usize = 0;
    assert(all.take(0) =~= Seq::<RowView>::empty());
    while i < collected.rows.len()
        invariant
            i <= collected.rows@.len(),
            all == collected@.rows,
            wanted == store_records::views(predicates@),
            fields == store_records::views(group_by@),
            rows_fit(query_search::matching_rows(all.take(i as int), wanted), fields),
        decreases collected.rows@.len() - i,
    {
        let row = &collected.rows[i];
        proof {
            assert(all[i as int] == row@);
            assert(all.take(i + 1).drop_last() =~= all.take(i as int));
            assert(all.take(i + 1).last() == row@);
        }
        let ghost before = query_search::matching_rows(all.take(i as int), wanted);
        if query_rows::predicates_match(row, predicates) {
            let key = query_groups::read_key(row, group_by);
            assert(key@.len() == sorted_maps::scalar_views(key@).len());
            let keys = pair_fields(group_by, &key);
            assert(query_search::matching_rows(all.take(i + 1), wanted) == before.push(row@));
            if !check_keys_fit(&keys) {
                proof {
                    assert(before.push(row@)[before.len() as int] == row@);
                    matching_rows_start_alike(all, wanted, i + 1);
                    let matching = query_search::matching_rows(all, wanted);
                    assert(matching[before.len() as int] == row@);
                }
                return false;
            }
            proof {
                let now = before.push(row@);
                assert forall|k: int| 0 <= k < now.len() implies keys_fit(
                    pairing(fields, query_groups::row_key(#[trigger] now[k], fields)),
                ) by {
                    if k < before.len() {
                        assert(now[k] == before[k]);
                    }
                }
            }
        }
        i = i + 1;
    }
    assert(all.take(i as int) =~= all);
    true
}

/// What the predicates select of the first rows comes first in what they select
/// of all.
proof fn matching_rows_start_alike(
    rows: Seq<RowView>,
    predicates: Seq<QueryPredicateView>,
    n: int,
)
    requires
        0 <= n <= rows.len(),
    ensures
        ({
            let first = query_search::matching_rows(rows.take(n), predicates);
            let all = query_search::matching_rows(rows, predicates);
            first.len() <= all.len() && first == all.take(first.len() as int)
        }),
    decreases rows.len() - n,
{
    let first = query_search::matching_rows(rows.take(n), predicates);
    if n < rows.len() {
        matching_rows_start_alike(rows, predicates, n + 1);
        assert(rows.take(n + 1).drop_last() =~= rows.take(n));
        let more = query_search::matching_rows(rows.take(n + 1), predicates);
        let all = query_search::matching_rows(rows, predicates);
        assert(first =~= more.take(first.len() as int));
        assert(first =~= all.take(first.len() as int));
    } else {
        assert(rows.take(n) =~= rows);
        assert(first.take(first.len() as int) =~= first);
    }
}

/// The caller's fold gave these results for the accumulators that need one.
pub open spec fn folded<F: Fn(&AggregateAccumulator) -> u64>(
    fold: F,
    groups: Seq<PartialGroupView>,
    folds: Seq<Seq<u64>>,
) -> bool {
    &&& folds_match(groups, folds)
    &&& forall|g: int, s: int|
        #![trigger groups[g].tallies[s]]
        0 <= g < groups.len() && 0 <= s < groups[g].tallies.len() && query_tally::needs_fold(
            groups[g].tallies[s],
        ) ==> exists|accumulator: AggregateAccumulator|
            accumulator@ == groups[g].tallies[s] && call_ensures(
                fold,
                (&accumulator,),
                folds[g][s],
            )
}

/// Whether the accumulator waits for a floating-point fold.
fn awaits_fold(accumulator: &AggregateAccumulator) -> (needed: bool)
    ensures
        needed == query_tally::needs_fold(accumulator@),
{
    match accumulator {
        AggregateAccumulator::Sum(SumState::Floats(_)) => true,
        AggregateAccumulator::Average(list) => list.len() > 0,
        _ => false,
    }
}

/// Folds of the accumulators of one group.
fn fold_group<F: Fn(&AggregateAccumulator) -> u64>(
    accumulators: &Vec<AggregateAccumulator>,
    fold: &F,
) -> (folds: Vec<u64>)
    requires
        forall|accumulator: &AggregateAccumulator|
            query_tally::needs_fold(accumulator@) ==> call_requires(*fold, (accumulator,)),
    ensures
        folds@.len() == accumulators@.len(),
        forall|s: int|
            0 <= s < accumulators@.len() && query_tally::needs_fold(
                (#[trigger] accumulators@[s])@,
            ) ==> call_ensures(*fold, (&accumulators@[s],), folds@[s]),
{
    let mut folds: Vec<u64> = Vec::new();
    let mut s: usize = 0;
    while s < accumulators.len()
        invariant
            s <= accumulators@.len(),
            forall|accumulator: &AggregateAccumulator|
                query_tally::needs_fold(accumulator@) ==> call_requires(*fold, (accumulator,)),
            folds@.len() == s,
            forall|k: int|
                0 <= k < s && query_tally::needs_fold((#[trigger] accumulators@[k])@)
                    ==> call_ensures(*fold, (&accumulators@[k],), folds@[k]),
        decreases accumulators@.len() - s,
    {
        let bits: u64 = if awaits_fold(&accumulators[s]) {
            fold(&accumulators[s])
        } else {
            0
        };
        folds.push(bits);
        s = s + 1;
    }
    folds
}

/// Folds of all accumulators.
fn fold_groups<F: Fn(&AggregateAccumulator) -> u64>(groups: &Vec<PartialGroup>, fold: &F) -> (folds:
    Vec<Vec<u64>>)
    requires
        forall|accumulator: &AggregateAccumulator|
            query_tally::needs_fold(accumulator@) ==> call_requires(*fold, (accumulator,)),
    ensures
        folded(*fold, store_records::views(groups@), fold_views(folds@)),
{
    let ghost all = store_records::views(groups@);
    let mut folds: Vec<Vec<u64>> = Vec::new();
    let mut g: usize = 0;
    while g < groups.len()
        invariant
            g <= groups@.len(),
            forall|accumulator: &AggregateAccumulator|
                query_tally::needs_fold(accumulator@) ==> call_requires(*fold, (accumulator,)),
            folds@.len() == g,
            forall|k: int|
                0 <= k < g ==> (#[trigger] folds@[k])@.len() == groups@[k].accumulators@.len(),
            forall|k: int, s: int|
                #![trigger groups@[k].accumulators@[s]]
                0 <= k < g && 0 <= s < groups@[k].accumulators@.len() && query_tally::needs_fold(
                    groups@[k].accumulators@[s]@,
                ) ==> call_ensures(*fold, (&groups@[k].accumulators@[s],), folds@[k]@[s]),
        decreases groups@.len() - g,
    {
        folds.push(fold_group(&groups[g].accumulators, fold));
        g = g + 1;
    }
    proof {
        let bits = fold_views(folds@);
        assert forall|k: int| 0 <= k < all.len() implies (#[trigger] bits[k]).len()
            == all[k].tallies.len() by {
            assert(bits[k] == folds@[k]@);
        }
        assert forall|k: int, s: int|
            #![trigger all[k].tallies[s]]
            0 <= k < all.len() && 0 <= s < all[k].tallies.len() && query_tally::needs_fold(
                all[k].tallies[s],
            ) implies exists|accumulator: AggregateAccumulator|
            accumulator@ == all[k].tallies[s] && call_ensures(
                *fold,
                (&accumulator,),
                bits[k][s],
            ) by {
            let accumulator = groups@[k].accumulators@[s];
            assert(all[k] == groups@[k]@);
            assert(all[k].tallies[s] == accumulator@);
            assert(bits[k] == folds@[k]@);
            assert(call_ensures(*fold, (&accumulator,), bits[k][s]));
        }
    }
    folds
}

/// The key of every planned group is that of some row that the predicates
/// select, or of no fields.
pub proof fn planned_keys_are_row_keys(rows: Seq<RowView>, request: AggregateRequestView, g: int)
    requires
        ({
            let matching = query_search::matching_rows(rows, request.predicates);
            0 <= g < query_groups::planned_groups(
                matching,
                request.group_by,
                request.aggregates,
            ).len()
        }),
    ensures
        ({
            let matching = query_search::matching_rows(rows, request.predicates);
            let key = query_groups::planned_groups(
                matching,
                request.group_by,
                request.aggregates,
            )[g].key;
            key.len() == request.group_by.len() && (key.len() == 0 || exists|k: int|
                0 <= k < matching.len() && query_groups::row_key(
                    #[trigger] matching[k],
                    request.group_by,
                ) == key)
        }),
{
    let matching = query_search::matching_rows(rows, request.predicates);
    let groups = query_groups::planned_groups(matching, request.group_by, request.aggregates);
    let failing = query_groups::first_failure(matching, request.group_by, request.aggregates, 0);
    if !(request.group_by.len() == 0 && matching.len() == 0) {
        let seen = match failing {
            None => matching,
            Some((n, _, _)) => matching.take(n + 1),
        };
        query_groups::failure_is_a_row(matching, request.group_by, request.aggregates, 0);
        query_groups::group_keys_exist(seen, request.group_by);
        let keys = query_groups::planned_keys(matching, request.group_by, failing);
        assert(keys == query_groups::group_keys(seen, request.group_by));
        assert(keys[g] == groups[g].key);
        let i = choose|i: int|
            0 <= i < seen.len() && query_groups::row_key(#[trigger] seen[i], request.group_by)
                == keys[g];
        assert(seen[i] == matching[i]);
        assert(query_groups::row_key(matching[i], request.group_by) == groups[g].key);
    }
}

/// The identity of every planned group fits a cursor where those of the rows
/// do.
proof fn planned_keys_fit(rows: Seq<RowView>, request: AggregateRequestView, g: int)
    requires
        ({
            let matching = query_search::matching_rows(rows, request.predicates);
            0 <= g < query_groups::planned_groups(
                matching,
                request.group_by,
                request.aggregates,
            ).len()
        }),
        rows_fit(query_search::matching_rows(rows, request.predicates), request.group_by),
    ensures
        ({
            let key = query_groups::planned_groups(
                query_search::matching_rows(rows, request.predicates),
                request.group_by,
                request.aggregates,
            )[g].key;
            key.len() == request.group_by.len() && keys_fit(pairing(request.group_by, key))
        }),
{
    planned_keys_are_row_keys(rows, request, g);
    let key = query_groups::planned_groups(
        query_search::matching_rows(rows, request.predicates),
        request.group_by,
        request.aggregates,
    )[g].key;
    if key.len() == 0 {
        let none = Seq::<Entry<QueryScalarView>>::empty();
        assert(is_pairing(request.group_by, key, none));
        pairing_is_unique(request.group_by, key, none);
    }
}

/// The groups of the candidate rows that the predicates select, or why a group
/// has no result.
pub open spec fn row_groups(
    rows: Seq<RowView>,
    request: AggregateRequestView,
    folds: Seq<Seq<u64>>,
) -> Result<Seq<AggregateGroupView>, QueryFailure> {
    let matching = query_search::matching_rows(rows, request.predicates);
    let groups = query_groups::planned_groups(matching, request.group_by, request.aggregates);
    let failure = match query_groups::first_failure(
        matching,
        request.group_by,
        request.aggregates,
        0,
    ) {
        None => None,
        Some((_, _, e)) => Some(e),
    };
    finished_groups(groups, failure, request, folds)
}

/// The outcome of an aggregate over the candidate rows, once the request is
/// admitted.
pub open spec fn aggregate(
    rows: Seq<RowView>,
    request: AggregateRequestView,
    read_version: u64,
    folds: Seq<Seq<u64>>,
) -> Result<AggregatePageView, QueryFailure> {
    match row_groups(rows, request, folds) {
        Err(e) => Err(e),
        Ok(finished) => paged_groups(finished, request, read_version),
    }
}

/// An aggregate request is admitted over the candidate rows.
pub open spec fn aggregate_check(rows: Seq<RowView>, request: AggregateRequestView) -> Result<
    (),
    QueryFailure,
> {
    query_types::and_also(
        request.check(),
        query_types::and_also(
            query_catalog::catalog_check(rows),
            request.fields_check(query_catalog::catalog_of(rows)),
        ),
    )
}

/// Runs a bounded metadata aggregate over the candidate rows at the exact
/// fenced read version. `fold` does the floating-point arithmetic: it gives the
/// bits of the sum of the operands of a sum, and of the average of those of an
/// average. Once the groups have their results, the operands of the request and
/// the group keys are written with 32-bit lengths, so there they have to fit.
pub fn aggregate_paths_at<F: Fn(&AggregateAccumulator) -> u64>(
    collected: CollectedRows,
    context: RootReadContext,
    request: &AggregateRequest,
    fold: &F,
) -> (result: Result<AggregatePage, QueryError>)
    requires
        ({
            let matching = query_search::matching_rows(collected@.rows, request@.predicates);
            aggregate_check(collected@.rows, request@) is Ok ==> forall|folds: Seq<Seq<u64>>| #[trigger]
                folded(
                    *fold,
                    query_groups::planned_groups(matching, request@.group_by, request@.aggregates),
                    folds,
                ) && row_groups(collected@.rows, request@, folds) is Ok ==> request@.operands_fit()
                    && rows_fit(matching, request@.group_by)
        }),
        forall|accumulator: &AggregateAccumulator|
            query_tally::needs_fold(accumulator@) ==> call_requires(*fold, (accumulator,)),
    ensures
        match aggregate_check(collected@.rows, request@) {
            Err(e) => query_types::outcome(result) == Err::<AggregatePageView, QueryFailure>(e),
            Ok(()) => exists|folds: Seq<Seq<u64>>| #[trigger]
                folded(
                    *fold,
                    query_groups::planned_groups(
                        query_search::matching_rows(collected@.rows, request@.predicates),
                        request@.group_by,
                        request@.aggregates,
                    ),
                    folds,
                ) && query_types::outcome(result) == aggregate(
                    collected@.rows,
                    request@,
                    context@.read_version,
                    folds,
                ),
        },
{
    let read_version = context.read_version;
    match query_catalog::validate_aggregate(request) {
        Ok(()) => {},
        Err(e) => {
            return Err(e);
        },
    }
    let catalog = match query_catalog::build_catalog(&collected) {
        Ok(catalog) => catalog,
        Err(e) => {
            return Err(e);
        },
    };
    match query_catalog::validate_aggregate_fields(&catalog, request) {
        Ok(()) => {},
        Err(e) => {
            return Err(e);
        },
    }
    let ghost rows = collected@.rows;
    let matching = query_search::select_rows(collected.rows, &request.predicates);
    let plan = query_groups::plan_groups(&matching, &request.group_by, &request.aggregates);
    let ghost groups = store_records::views(plan.groups@);
    let folds = fold_groups(&plan.groups, fold);
    let ghost bits = fold_views(folds@);
    proof {
        assert forall|g: int| 0 <= g < groups.len() implies (#[trigger] groups[g]).key.len()
            == request@.group_by.len() && groups[g].tallies.len() == request@.aggregates.len() by {
            planned_keys_are_row_keys(rows, request@, g);
        }
    }
    let finished = match finish_groups(plan, request, &folds) {
        Ok(finished) => finished,
        Err(e) => {
            return Err(e);
        },
    };
    proof {
        let views = store_records::views(finished@);
        assert forall|g: int| 0 <= g < views.len() implies keys_fit((#[trigger] views[g]).keys) by {
            assert(views[g] == group_of(groups[g], request@, bits[g]));
            planned_keys_fit(rows, request@, g);
        }
    }
    aggregate_page(&finished, read_version, request)
}

} // verus!
