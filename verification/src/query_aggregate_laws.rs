//! What aggregates compute.
//!
//! Matching rows that agree in all fields of the grouping form one group. Each
//! aggregate of a group is a function of the values of its field in the rows of
//! the group: absent and null values count for nothing.

use vstd::prelude::*;

use crate::ordering;
use crate::query_aggregate;
use crate::query_catalog;
use crate::query_groups;
use crate::query_groups::GroupKey;
use crate::query_rows::RowView;
use crate::query_search;
use crate::query_tally;
use crate::query_tally::{SumView, Tally};
use crate::query_types::{
    AggregateFunction, AggregateGroupView, AggregateRequestView, AggregateSpecView, QueryError,
    QueryFailure, QuerySortDirection, QuerySortView,
};
use crate::scalars::QueryScalarView;
use crate::sorted_maps;
use crate::sorted_maps::Entry;

verus! {

/// The rows in which a field is present and not null.
pub open spec fn rows_having(rows: Seq<RowView>, field: Seq<u8>) -> Seq<RowView> {
    rows.filter(
        |row: RowView| row.value(field) is Some && row.value(field) != Some(QueryScalarView::Null),
    )
}

/// The values of a field that are present and not null, in row order.
pub open spec fn present_values(rows: Seq<RowView>, field: Seq<u8>) -> Seq<QueryScalarView> {
    rows_having(rows, field).map_values(|row: RowView| row.value(field)->0)
}

/// An aggregate over a field.
pub open spec fn over(
    result_id: Seq<u8>,
    function: AggregateFunction,
    field: Seq<u8>,
) -> AggregateSpecView {
    AggregateSpecView { result_id, function, field_id: Some(field) }
}

/// The operands of an aggregate are the present values of its field.
proof fn operands_are_the_present_values(
    result_id: Seq<u8>,
    function: AggregateFunction,
    field: Seq<u8>,
    rows: Seq<RowView>,
)
    ensures
        query_tally::operands(over(result_id, function, field), rows) == present_values(rows, field),
    decreases rows.len(),
{
    reveal(Seq::filter);
    let spec = over(result_id, function, field);
    if rows.len() > 0 {
        operands_are_the_present_values(result_id, function, field, rows.drop_last());
        let before = present_values(rows.drop_last(), field);
        let last = rows.last();
        if last.value(field) is Some && last.value(field) != Some(QueryScalarView::Null) {
            assert(present_values(rows, field) =~= before.push(last.value(field)->0));
        } else {
            assert(present_values(rows, field) =~= before);
        }
    } else {
        assert(present_values(rows, field) =~= Seq::<QueryScalarView>::empty());
    }
}

/// A count over a field is the number of rows in which the field is present and
/// not null: all rows but those in which it is absent or null. A count over no
/// field is the number of all rows. A count never fails.
pub proof fn counts_count_rows(result_id: Seq<u8>, field: Seq<u8>, rows: Seq<RowView>, bits: u64)
    requires
        rows.len() <= u64::MAX,
    ensures
        ({
            let result = query_tally::tally_of(
                over(result_id, AggregateFunction::Count, field),
                rows,
            );
            let absent = rows.filter(
                |row: RowView|
                    row.value(field) is None || row.value(field) == Some(QueryScalarView::Null),
            );
            &&& result is Ok
            &&& query_tally::finished(result->Ok_0, bits) == QueryScalarView::Unsigned(
                rows_having(rows, field).len() as u64,
            )
            &&& rows_having(rows, field).len() + absent.len() == rows.len()
        }),
        ({
            let result = query_tally::tally_of(
                AggregateSpecView { result_id, function: AggregateFunction::Count, field_id: None },
                rows,
            );
            &&& result is Ok
            &&& query_tally::finished(result->Ok_0, bits) == QueryScalarView::Unsigned(
                rows.len() as u64,
            )
        }),
{
    operands_are_the_present_values(result_id, AggregateFunction::Count, field, rows);
    present_and_absent_are_all(rows, field);
}

/// Every row either has a value or has none.
proof fn present_and_absent_are_all(rows: Seq<RowView>, field: Seq<u8>)
    ensures
        rows_having(rows, field).len() + rows.filter(
            |row: RowView|
                row.value(field) is None || row.value(field) == Some(QueryScalarView::Null),
        ).len() == rows.len(),
    decreases rows.len(),
{
    reveal(Seq::filter);
    if rows.len() > 0 {
        present_and_absent_are_all(rows.drop_last(), field);
    }
}

/// A minimum is a value of a row of the group that no value of the group comes
/// before, and null exactly where no row has a value. It never fails.
pub proof fn minimums_are_least_values(
    result_id: Seq<u8>,
    field: Seq<u8>,
    rows: Seq<RowView>,
    bits: u64,
)
    ensures
        ({
            let result = query_tally::tally_of(
                over(result_id, AggregateFunction::Minimum, field),
                rows,
            );
            let values = present_values(rows, field);
            let least = query_tally::finished(result->Ok_0, bits);
            &&& result is Ok
            &&& values.len() == 0 ==> least == QueryScalarView::Null
            &&& values.len() > 0 ==> values.contains(least)
            &&& forall|i: int| 0 <= i < values.len() ==> !(#[trigger] values[i]).less(least)
        }),
{
    operands_are_the_present_values(result_id, AggregateFunction::Minimum, field, rows);
    query_tally::minimum_is_least(present_values(rows, field));
}

/// A maximum is a value of a row of the group that comes before no value of the
/// group, and null exactly where no row has a value. It never fails.
pub proof fn maximums_are_greatest_values(
    result_id: Seq<u8>,
    field: Seq<u8>,
    rows: Seq<RowView>,
    bits: u64,
)
    ensures
        ({
            let result = query_tally::tally_of(
                over(result_id, AggregateFunction::Maximum, field),
                rows,
            );
            let values = present_values(rows, field);
            let greatest = query_tally::finished(result->Ok_0, bits);
            &&& result is Ok
            &&& values.len() == 0 ==> greatest == QueryScalarView::Null
            &&& values.len() > 0 ==> values.contains(greatest)
            &&& forall|i: int| 0 <= i < values.len() ==> !greatest.less(#[trigger] values[i])
        }),
{
    operands_are_the_present_values(result_id, AggregateFunction::Maximum, field, rows);
    query_tally::maximum_is_greatest(present_values(rows, field));
}

/// The values are unsigned integers.
pub open spec fn all_unsigned(values: Seq<QueryScalarView>) -> bool {
    forall|i: int| 0 <= i < values.len() ==> #[trigger] values[i] is Unsigned
}

/// The values are signed integers.
pub open spec fn all_signed(values: Seq<QueryScalarView>) -> bool {
    forall|i: int| 0 <= i < values.len() ==> #[trigger] values[i] is Signed
}

/// The values are floats.
pub open spec fn all_floats(values: Seq<QueryScalarView>) -> bool {
    forall|i: int| 0 <= i < values.len() ==> #[trigger] values[i] is Float
}

/// The mathematical sum of integers.
pub open spec fn integer_sum(values: Seq<QueryScalarView>) -> int {
    values.fold_left(
        0int,
        |sum: int, value: QueryScalarView|
            sum + match value {
                QueryScalarView::Signed(value) => value as int,
                QueryScalarView::Unsigned(value) => value as int,
                _ => 0int,
            },
    )
}

/// A sum of unsigned integers is their mathematical sum, and fails exactly where
/// that is over 64 bits. It is null where no row has a value.
pub proof fn unsigned_sums_are_exact(
    result_id: Seq<u8>,
    field: Seq<u8>,
    rows: Seq<RowView>,
    bits: u64,
)
    requires
        all_unsigned(present_values(rows, field)),
    ensures
        ({
            let values = present_values(rows, field);
            let result = query_tally::tally_of(
                over(result_id, AggregateFunction::Sum, field),
                rows,
            );
            if integer_sum(values) > u64::MAX {
                result == Err::<Tally, QueryFailure>(QueryError::AggregateOverflow { result_id })
            } else {
                result is Ok && query_tally::finished(result->Ok_0, bits) == if values.len() == 0 {
                    QueryScalarView::Null
                } else {
                    QueryScalarView::Unsigned(integer_sum(values) as u64)
                }
            }
        }),
{
    operands_are_the_present_values(result_id, AggregateFunction::Sum, field, rows);
    unsigned_totals(result_id, present_values(rows, field));
}

/// A list of one more integer has a sum greater by it.
proof fn integer_sum_grows(values: Seq<QueryScalarView>)
    requires
        values.len() > 0,
    ensures
        integer_sum(values) == integer_sum(values.drop_last()) + match values.last() {
            QueryScalarView::Signed(value) => value as int,
            QueryScalarView::Unsigned(value) => value as int,
            _ => 0int,
        },
{
    reveal(Seq::fold_left);
}

/// Sums of unsigned integers never shrink.
proof fn unsigned_totals(result_id: Seq<u8>, values: Seq<QueryScalarView>)
    requires
        all_unsigned(values),
    ensures
        integer_sum(values) >= 0,
        query_tally::sum_of(result_id, values) == if integer_sum(values) > u64::MAX {
            Err::<SumView, QueryFailure>(QueryError::AggregateOverflow { result_id })
        } else if values.len() == 0 {
            Ok(SumView::Empty)
        } else {
            Ok(SumView::Unsigned(integer_sum(values) as u64))
        },
    decreases values.len(),
{
    reveal(Seq::fold_left);
    if values.len() > 0 {
        let shorter = values.drop_last();
        assert forall|i: int| 0 <= i < shorter.len() implies #[trigger] shorter[i] is Unsigned by {
            assert(shorter[i] == values[i]);
        }
        unsigned_totals(result_id, shorter);
        integer_sum_grows(values);
        assert(values[values.len() - 1] is Unsigned);
        if shorter.len() == 0 {
            assert(integer_sum(shorter) == 0);
        }
    }
}

/// A sum of signed integers is their mathematical sum. It fails exactly where the
/// sum of the first values, for some number of them, is outside 64 bits. It is null
/// where no row has a value.
pub proof fn signed_sums_are_exact(
    result_id: Seq<u8>,
    field: Seq<u8>,
    rows: Seq<RowView>,
    bits: u64,
)
    requires
        all_signed(present_values(rows, field)),
    ensures
        ({
            let values = present_values(rows, field);
            let result = query_tally::tally_of(
                over(result_id, AggregateFunction::Sum, field),
                rows,
            );
            if exists|n: int|
                0 <= n <= values.len() && !(i64::MIN <= integer_sum(#[trigger] values.take(n))
                    <= i64::MAX) {
                result == Err::<Tally, QueryFailure>(QueryError::AggregateOverflow { result_id })
            } else {
                result is Ok && query_tally::finished(result->Ok_0, bits) == if values.len() == 0 {
                    QueryScalarView::Null
                } else {
                    QueryScalarView::Signed(integer_sum(values) as i64)
                }
            }
        }),
{
    operands_are_the_present_values(result_id, AggregateFunction::Sum, field, rows);
    signed_totals(result_id, present_values(rows, field));
}

/// Sums of signed integers.
proof fn signed_totals(result_id: Seq<u8>, values: Seq<QueryScalarView>)
    requires
        all_signed(values),
    ensures
        query_tally::sum_of(result_id, values) == if exists|n: int|
            0 <= n <= values.len() && !(i64::MIN <= integer_sum(#[trigger] values.take(n))
                <= i64::MAX) {
            Err::<SumView, QueryFailure>(QueryError::AggregateOverflow { result_id })
        } else if values.len() == 0 {
            Ok(SumView::Empty)
        } else {
            Ok(SumView::Signed(integer_sum(values) as i64))
        },
        values.len() == 0 ==> integer_sum(values) == 0,
    decreases values.len(),
{
    reveal(Seq::fold_left);
    let whole = values.len() as int;
    assert(values.take(whole) =~= values);
    if values.len() > 0 {
        let shorter = values.drop_last();
        assert forall|i: int| 0 <= i < shorter.len() implies #[trigger] shorter[i] is Signed by {
            assert(shorter[i] == values[i]);
        }
        signed_totals(result_id, shorter);
        integer_sum_grows(values);
        assert(values[whole - 1] is Signed);
        assert forall|n: int| 0 <= n <= shorter.len() implies #[trigger] shorter.take(n)
            == values.take(n) by {
            assert(shorter.take(n) =~= values.take(n));
        }
        assert(shorter.take(whole - 1) =~= shorter);
        if exists|n: int|
            0 <= n <= shorter.len() && !(i64::MIN <= integer_sum(#[trigger] shorter.take(n))
                <= i64::MAX) {
            let n = choose|n: int|
                0 <= n <= shorter.len() && !(i64::MIN <= integer_sum(#[trigger] shorter.take(n))
                    <= i64::MAX);
            assert(shorter.take(n) == values.take(n));
        } else {
            assert forall|n: int| 0 <= n < whole implies i64::MIN <= integer_sum(
                #[trigger] values.take(n),
            ) <= i64::MAX by {
                assert(shorter.take(n) == values.take(n));
            }
        }
    } else {
        assert forall|n: int| 0 <= n <= 0 implies #[trigger] values.take(n) == values by {
            assert(values.take(n) =~= values);
        }
    }
}

/// A sum of floats is that of the values of the rows of the group, all of them and
/// in row order.
pub proof fn float_sums_take_every_value(result_id: Seq<u8>, field: Seq<u8>, rows: Seq<RowView>)
    requires
        all_floats(present_values(rows, field)),
        present_values(rows, field).len() > 0,
    ensures
        query_tally::tally_of(over(result_id, AggregateFunction::Sum, field), rows) == Ok::<
            Tally,
            QueryFailure,
        >(
            Tally::Sum(
                SumView::Floats(
                    present_values(rows, field).map_values(
                        |value: QueryScalarView| value->Float_0,
                    ),
                ),
            ),
        ),
{
    operands_are_the_present_values(result_id, AggregateFunction::Sum, field, rows);
    float_totals(result_id, present_values(rows, field));
}

/// Lists of floats.
proof fn float_totals(result_id: Seq<u8>, values: Seq<QueryScalarView>)
    requires
        all_floats(values),
    ensures
        query_tally::sum_of(result_id, values) == if values.len() == 0 {
            Ok::<SumView, QueryFailure>(SumView::Empty)
        } else {
            Ok(SumView::Floats(values.map_values(|value: QueryScalarView| value->Float_0)))
        },
    decreases values.len(),
{
    if values.len() > 0 {
        let shorter = values.drop_last();
        assert forall|i: int| 0 <= i < shorter.len() implies #[trigger] shorter[i] is Float by {
            assert(shorter[i] == values[i]);
        }
        float_totals(result_id, shorter);
        let n = values.len() - 1;
        assert(values[n] is Float);
        let bits = values.map_values(|value: QueryScalarView| value->Float_0);
        if n == 0 {
            assert(bits =~= seq![values[0]->Float_0]);
        } else {
            assert(shorter.map_values(|value: QueryScalarView| value->Float_0).push(
                values[n]->Float_0,
            ) =~= bits);
        }
    }
}

/// A sum over values of two types, or of a type that is no number, fails.
pub proof fn mixed_sums_fail(result_id: Seq<u8>, field: Seq<u8>, rows: Seq<RowView>)
    requires
        !all_signed(present_values(rows, field)),
        !all_unsigned(present_values(rows, field)),
        !all_floats(present_values(rows, field)),
    ensures
        query_tally::tally_of(over(result_id, AggregateFunction::Sum, field), rows) is Err,
{
    operands_are_the_present_values(result_id, AggregateFunction::Sum, field, rows);
    sums_are_of_one_type(result_id, present_values(rows, field));
}

/// What sums of values are of.
proof fn sums_are_of_one_type(result_id: Seq<u8>, values: Seq<QueryScalarView>)
    ensures
        match query_tally::sum_of(result_id, values) {
            Ok(SumView::Empty) => values.len() == 0,
            Ok(SumView::Signed(_)) => all_signed(values),
            Ok(SumView::Unsigned(_)) => all_unsigned(values),
            Ok(SumView::Floats(_)) => all_floats(values),
            Err(_) => true,
        },
    decreases values.len(),
{
    if values.len() > 0 {
        let shorter = values.drop_last();
        sums_are_of_one_type(result_id, shorter);
        assert forall|i: int| 0 <= i < values.len() implies #[trigger] values[i] == if i
            < shorter.len() {
            shorter[i]
        } else {
            values.last()
        } by {}
    }
}

/// An average is over the values of the rows of the group, all of them and in row
/// order, and null where no row has a value. It fails exactly where one of them is
/// no number.
pub proof fn averages_take_every_value(
    result_id: Seq<u8>,
    field: Seq<u8>,
    rows: Seq<RowView>,
    bits: u64,
)
    ensures
        ({
            let values = present_values(rows, field);
            let result = query_tally::tally_of(
                over(result_id, AggregateFunction::Average, field),
                rows,
            );
            if exists|i: int|
                0 <= i < values.len() && !((#[trigger] values[i]) is Signed || values[i] is Unsigned
                    || values[i] is Float) {
                result == Err::<Tally, QueryFailure>(
                    QueryError::InvalidAggregate {
                        result_id,
                        reason: "average requires numeric values",
                    },
                )
            } else {
                result == Ok::<Tally, QueryFailure>(Tally::Average(values)) && (values.len() == 0
                    ==> query_tally::finished(result->Ok_0, bits) == QueryScalarView::Null) && (
                values.len() > 0 ==> query_tally::finished(result->Ok_0, bits)
                    == QueryScalarView::Float(
                    if bits == 0x8000_0000_0000_0000u64 {
                        0
                    } else {
                        bits
                    },
                ))
            }
        }),
{
    operands_are_the_present_values(result_id, AggregateFunction::Average, field, rows);
    let values = present_values(rows, field);
    if exists|i: int|
        0 <= i < values.len() && !((#[trigger] values[i]) is Signed || values[i] is Unsigned
            || values[i] is Float) {
        let i = choose|i: int|
            0 <= i < values.len() && !((#[trigger] values[i]) is Signed || values[i] is Unsigned
                || values[i] is Float);
        assert(!query_tally::averages(values[i]));
    } else {
        assert forall|i: int| 0 <= i < values.len() implies query_tally::averages(
            #[trigger] values[i],
        ) by {}
    }
}

/// Value of a field of the grouping in a row; null where it is absent.
pub open spec fn group_field(row: RowView, field: Seq<u8>) -> QueryScalarView {
    match row.value(field) {
        Some(value) => value,
        None => QueryScalarView::Null,
    }
}

/// The rows that have these values in the fields of the grouping.
pub open spec fn members(
    rows: Seq<RowView>,
    group_by: Seq<Seq<u8>>,
    key: Seq<QueryScalarView>,
) -> Seq<RowView> {
    rows.filter(
        |row: RowView|
            key.len() == group_by.len() && forall|i: int|
                0 <= i < group_by.len() ==> group_field(row, #[trigger] group_by[i]) == key[i],
    )
}

/// The rows of a group are those with its key.
proof fn group_rows_are_members(rows: Seq<RowView>, group_by: Seq<Seq<u8>>, key: GroupKey)
    ensures
        query_groups::group_rows(rows, group_by, key) == members(rows, group_by, key),
    decreases rows.len(),
{
    reveal(Seq::filter);
    if rows.len() > 0 {
        group_rows_are_members(rows.drop_last(), group_by, key);
        let last = rows.last();
        let own = query_groups::row_key(last, group_by);
        if key.len() == group_by.len() && forall|i: int|
            0 <= i < group_by.len() ==> group_field(last, #[trigger] group_by[i]) == key[i] {
            assert forall|i: int| 0 <= i < own.len() implies own[i] == key[i] by {
                assert(group_field(last, group_by[i]) == key[i]);
            }
            assert(own =~= key);
        }
        if own == key {
            assert forall|i: int| 0 <= i < group_by.len() implies group_field(
                last,
                #[trigger] group_by[i],
            ) == key[i] by {
                assert(own[i] == key[i]);
            }
        }
    }
}

/// The pair is among the entries.
pub open spec fn holds_entry(
    entries: Seq<Entry<QueryScalarView>>,
    field: Seq<u8>,
    value: QueryScalarView,
) -> bool {
    exists|i: int| 0 <= i < entries.len() && #[trigger] entries[i] == (field, value)
}

/// A pairing of fields that are listed once holds the pairs.
proof fn pairings_hold_their_pairs(
    fields: Seq<Seq<u8>>,
    values: Seq<QueryScalarView>,
    i: int,
)
    requires
        fields.no_duplicates(),
        fields.len() == values.len(),
        0 <= i < fields.len(),
    ensures
        holds_entry(query_aggregate::pairing(fields, values), fields[i], values[i]),
{
    query_aggregate::pairing_exists(fields, values);
    query_aggregate::paired_is_beside(fields, values, i);
    let map = query_aggregate::pairing(fields, values);
    assert(sorted_maps::lookup(map, fields[i]) == query_aggregate::paired(
        fields,
        values,
        fields[i],
    ));
    sorted_maps::lookup_is_entry(map, fields[i]);
}

/// An aggregation that comes to groups puts each matching row into exactly one of
/// them: the group with the values that the row has in the fields of the grouping.
/// No group is without a row, but for the one group of an aggregation without a
/// grouping. The key of a group shows each field of the grouping with its value,
/// and each aggregate stands under its result id with its result over exactly the
/// rows of the group.
pub proof fn groups_hold_their_rows(
    rows: Seq<RowView>,
    request: AggregateRequestView,
    folds: Seq<Seq<u64>>,
)
    requires
        query_aggregate::row_groups(rows, request, folds) is Ok,
        request.group_by.no_duplicates(),
        query_catalog::result_ids(request.aggregates).no_duplicates(),
    ensures
        ({
            let matching = query_search::matching_rows(rows, request.predicates);
            let groups = query_aggregate::row_groups(rows, request, folds)->Ok_0;
            let planned = query_groups::planned_groups(
                matching,
                request.group_by,
                request.aggregates,
            );
            &&& planned.len() == groups.len()
            &&& request.group_by.len() == 0 ==> groups.len() == 1
            &&& forall|g: int, h: int|
                0 <= g < h < groups.len() ==> (#[trigger] planned[g]).key != (
                #[trigger] planned[h]).key
            &&& forall|g: int|
                0 <= g < groups.len() ==> {
                    let key = (#[trigger] planned[g]).key;
                    &&& key.len() == request.group_by.len()
                    &&& request.group_by.len() > 0 ==> members(
                        matching,
                        request.group_by,
                        key,
                    ).len() > 0
                    &&& forall|i: int|
                        0 <= i < request.group_by.len() ==> holds_entry(
                            groups[g].keys,
                            #[trigger] request.group_by[i],
                            key[i],
                        )
                    &&& forall|s: int|
                        0 <= s < request.aggregates.len() ==> query_tally::tally_of(
                            #[trigger] request.aggregates[s],
                            members(matching, request.group_by, key),
                        ) is Ok && holds_entry(
                            groups[g].values,
                            request.aggregates[s].result_id,
                            query_tally::finished(
                                query_tally::tally_of(
                                    request.aggregates[s],
                                    members(matching, request.group_by, key),
                                )->Ok_0,
                                folds[g][s],
                            ),
                        )
                }
            &&& forall|k: int|
                0 <= k < matching.len() ==> exists|g: int|
                    0 <= g < groups.len() && members(
                        matching,
                        request.group_by,
                        (#[trigger] planned[g]).key,
                    ).contains(#[trigger] matching[k])
        }),
{
    let matching = query_search::matching_rows(rows, request.predicates);
    let groups = query_aggregate::row_groups(rows, request, folds)->Ok_0;
    let group_by = request.group_by;
    let specs = request.aggregates;
    let planned = query_groups::planned_groups(matching, group_by, specs);
    let failure = query_groups::first_failure(matching, group_by, specs, 0);
    let keys = query_groups::planned_keys(matching, group_by, failure);
    let ids = query_catalog::result_ids(specs);
    assert(failure is None);
    query_groups::group_keys_exist(matching, group_by);
    assert forall|g: int, h: int| 0 <= g < h < groups.len() implies (#[trigger] planned[g]).key != (
    #[trigger] planned[h]).key by {
        assert(planned[g].key == keys[g] && planned[h].key == keys[h]);
        assert(query_groups::key_less(keys[g], keys[h]));
        query_groups::key_less_asymmetric(keys[g], keys[h]);
    }
    if group_by.len() == 0 && matching.len() > 0 {
        let none = Seq::<QueryScalarView>::empty();
        assert(query_groups::row_key(matching[0], group_by) =~= none);
        assert(keys.contains(query_groups::row_key(matching[0], group_by)));
        assert forall|g: int| 0 <= g < keys.len() implies #[trigger] keys[g] == none by {
            let i = choose|i: int|
                0 <= i < matching.len() && query_groups::row_key(#[trigger] matching[i], group_by)
                    == keys[g];
            assert(keys[g] =~= none);
        }
        if keys.len() > 1 {
            assert(planned[0].key != planned[1].key);
            assert(keys[0] == keys[1]);
        }
    }
    assert forall|g: int| 0 <= g < groups.len() implies ({
        let key = (#[trigger] planned[g]).key;
        &&& key.len() == group_by.len()
        &&& group_by.len() > 0 ==> members(matching, group_by, key).len() > 0
        &&& forall|i: int|
            0 <= i < group_by.len() ==> holds_entry(
                groups[g].keys,
                #[trigger] group_by[i],
                key[i],
            )
        &&& forall|s: int|
            0 <= s < specs.len() ==> query_tally::tally_of(
                #[trigger] specs[s],
                members(matching, group_by, key),
            ) is Ok && holds_entry(
                groups[g].values,
                specs[s].result_id,
                query_tally::finished(
                    query_tally::tally_of(specs[s], members(matching, group_by, key))->Ok_0,
                    folds[g][s],
                ),
            )
    }) by {
        let key = planned[g].key;
        assert(key == keys[g]);
        assert(groups[g] == query_aggregate::group_of(planned[g], request, folds[g]));
        query_aggregate::planned_keys_are_row_keys(rows, request, g);
        group_rows_are_members(matching, group_by, key);
        if group_by.len() > 0 {
            let k = choose|k: int|
                0 <= k < matching.len() && query_groups::row_key(#[trigger] matching[k], group_by)
                    == key;
            members_hold_their_rows(matching, group_by, key, k);
        }
        assert forall|i: int| 0 <= i < group_by.len() implies holds_entry(
            groups[g].keys,
            #[trigger] group_by[i],
            key[i],
        ) by {
            pairings_hold_their_pairs(group_by, key, i);
        }
        let list = query_aggregate::results(planned[g].tallies, folds[g]);
        let seen = members(matching, group_by, key);
        assert forall|s: int| 0 <= s < specs.len() implies query_tally::tally_of(
            #[trigger] specs[s],
            seen,
        ) is Ok && holds_entry(
            groups[g].values,
            specs[s].result_id,
            query_tally::finished(query_tally::tally_of(specs[s], seen)->Ok_0, folds[g][s]),
        ) by {
            no_failure_means_every_tally(matching, group_by, specs, key, s);
            pairings_hold_their_pairs(ids, list, s);
            assert(ids[s] == specs[s].result_id);
            assert(list[s] == query_tally::finished(planned[g].tallies[s], folds[g][s]));
        }
    }
    assert forall|k: int| 0 <= k < matching.len() implies exists|g: int|
        0 <= g < groups.len() && members(
            matching,
            group_by,
            (#[trigger] planned[g]).key,
        ).contains(#[trigger] matching[k]) by {
        let key = query_groups::row_key(matching[k], group_by);
        assert(keys.contains(key));
        let g = choose|g: int| 0 <= g < keys.len() && keys[g] == key;
        assert(planned[g].key == key);
        members_hold_their_rows(matching, group_by, key, k);
    }
}

/// A row is among the rows with its key.
proof fn members_hold_their_rows(
    rows: Seq<RowView>,
    group_by: Seq<Seq<u8>>,
    key: GroupKey,
    k: int,
)
    requires
        0 <= k < rows.len(),
        query_groups::row_key(rows[k], group_by) == key,
    ensures
        members(rows, group_by, key).contains(rows[k]),
        members(rows, group_by, key).len() > 0,
{
    let row = rows[k];
    assert forall|i: int| 0 <= i < group_by.len() implies group_field(row, #[trigger] group_by[i])
        == key[i] by {
        assert(query_groups::row_key(row, group_by)[i] == key[i]);
    }
    let picks = |row: RowView|
        key.len() == group_by.len() && forall|i: int|
            0 <= i < group_by.len() ==> group_field(row, #[trigger] group_by[i]) == key[i];
    assert(picks(rows[k]));
    rows.lemma_filter_contains(picks, k);
}

/// Where no row makes an aggregate fail, every aggregate has a tally over every
/// group.
proof fn no_failure_means_every_tally(
    rows: Seq<RowView>,
    group_by: Seq<Seq<u8>>,
    specs: Seq<AggregateSpecView>,
    key: GroupKey,
    s: int,
)
    requires
        query_groups::first_failure(rows, group_by, specs, 0) is None,
        0 <= s < specs.len(),
    ensures
        query_tally::tally_of(specs[s], query_groups::group_rows(rows, group_by, key)) is Ok,
{
    first_rows_have_tallies(rows, group_by, specs, key, s, rows.len() as int);
    assert(rows.take(rows.len() as int) =~= rows);
}

/// Every aggregate has a tally over the first rows of every group.
proof fn first_rows_have_tallies(
    rows: Seq<RowView>,
    group_by: Seq<Seq<u8>>,
    specs: Seq<AggregateSpecView>,
    key: GroupKey,
    s: int,
    n: int,
)
    requires
        query_groups::first_failure(rows, group_by, specs, 0) is None,
        0 <= s < specs.len(),
        0 <= n <= rows.len(),
    ensures
        query_tally::tally_of(specs[s], query_groups::group_rows(rows.take(n), group_by, key))
            is Ok,
    decreases n,
{
    let seen = query_groups::group_rows(rows.take(n), group_by, key);
    if n == 0 {
        assert(seen =~= Seq::<RowView>::empty());
    } else {
        first_rows_have_tallies(rows, group_by, specs, key, s, n - 1);
        assert(rows.take(n).drop_last() =~= rows.take(n - 1));
        assert(rows.take(n).last() == rows[n - 1]);
        if query_groups::row_key(rows[n - 1], group_by) == key {
            rows_do_not_fail(rows, group_by, specs, 0, n - 1);
            aggregates_do_not_fail(specs, seen, 0, s);
        }
    }
}

/// No row fails where the first failing one is none.
proof fn rows_do_not_fail(
    rows: Seq<RowView>,
    group_by: Seq<Seq<u8>>,
    specs: Seq<AggregateSpecView>,
    from: int,
    n: int,
)
    requires
        0 <= from <= n < rows.len(),
        query_groups::first_failure(rows, group_by, specs, from) is None,
    ensures
        query_groups::failing_aggregate(
            specs,
            query_groups::group_rows(
                rows.take(n + 1),
                group_by,
                query_groups::row_key(rows[n], group_by),
            ),
            0,
        ) is None,
    decreases n - from,
{
    if from < n {
        rows_do_not_fail(rows, group_by, specs, from + 1, n);
    }
}

/// No aggregate fails where the first failing one is none.
proof fn aggregates_do_not_fail(
    specs: Seq<AggregateSpecView>,
    rows: Seq<RowView>,
    from: int,
    s: int,
)
    requires
        0 <= from <= s < specs.len(),
        query_groups::failing_aggregate(specs, rows, from) is None,
    ensures
        query_tally::tally_of(specs[s], rows) is Ok,
    decreases s - from,
{
    if from < s {
        aggregates_do_not_fail(specs, rows, from + 1, s);
    }
}

/// Counts, minimums and maximums of any rows come to groups.
pub proof fn aggregates_without_arithmetic_succeed(
    rows: Seq<RowView>,
    request: AggregateRequestView,
    folds: Seq<Seq<u64>>,
)
    requires
        forall|s: int|
            0 <= s < request.aggregates.len() ==> (#[trigger] request.aggregates[s]).function
                == AggregateFunction::Count || request.aggregates[s].function
                == AggregateFunction::Minimum || request.aggregates[s].function
                == AggregateFunction::Maximum,
    ensures
        query_aggregate::row_groups(rows, request, folds) is Ok,
{
    let matching = query_search::matching_rows(rows, request.predicates);
    let specs = request.aggregates;
    let planned = query_groups::planned_groups(matching, request.group_by, specs);
    plain_rows_do_not_fail(matching, request.group_by, specs, 0);
    assert forall|g: int, s: int|
        #![trigger planned[g].tallies[s]]
        0 <= g < planned.len() && 0 <= s < planned[g].tallies.len() implies !query_tally::needs_fold(
        planned[g].tallies[s],
    ) by {
        assert(specs[s].function == specs[s].function);
    }
}

/// Rows do not make such aggregates fail.
proof fn plain_rows_do_not_fail(
    rows: Seq<RowView>,
    group_by: Seq<Seq<u8>>,
    specs: Seq<AggregateSpecView>,
    n: int,
)
    requires
        0 <= n,
        forall|s: int|
            0 <= s < specs.len() ==> (#[trigger] specs[s]).function == AggregateFunction::Count
                || specs[s].function == AggregateFunction::Minimum || specs[s].function
                == AggregateFunction::Maximum,
    ensures
        query_groups::first_failure(rows, group_by, specs, n) is None,
    decreases rows.len() - n,
{
    if n < rows.len() {
        let seen = query_groups::group_rows(
            rows.take(n + 1),
            group_by,
            query_groups::row_key(rows[n], group_by),
        );
        plain_aggregates_do_not_fail(specs, seen, 0);
        plain_rows_do_not_fail(rows, group_by, specs, n + 1);
    }
}

/// Such aggregates do not fail.
proof fn plain_aggregates_do_not_fail(
    specs: Seq<AggregateSpecView>,
    rows: Seq<RowView>,
    s: int,
)
    requires
        0 <= s,
        forall|s: int|
            0 <= s < specs.len() ==> (#[trigger] specs[s]).function == AggregateFunction::Count
                || specs[s].function == AggregateFunction::Minimum || specs[s].function
                == AggregateFunction::Maximum,
    ensures
        query_groups::failing_aggregate(specs, rows, s) is None,
    decreases specs.len() - s,
{
    if s < specs.len() {
        assert(specs[s].function == specs[s].function);
        plain_aggregates_do_not_fail(specs, rows, s + 1);
    }
}

/// Two groups are alike in the first fields of a sort.
pub open spec fn alike_in(
    left: AggregateGroupView,
    right: AggregateGroupView,
    sort: Seq<QuerySortView>,
    n: int,
) -> bool {
    forall|i: int|
        0 <= i < n ==> query_aggregate::group_value(left, (#[trigger] sort[i]).field_id)
            == query_aggregate::group_value(right, sort[i].field_id)
}

/// The value of a group under a field is that of its key, or else of its results.
pub proof fn group_values_are_keys_and_results(
    group: AggregateGroupView,
    field: Seq<u8>,
    value: QueryScalarView,
)
    requires
        sorted_maps::ascending(group.keys),
        sorted_maps::ascending(group.values),
    ensures
        holds_entry(group.keys, field, value) ==> query_aggregate::group_value(group, field)
            == Some(value),
        (forall|other: QueryScalarView| !#[trigger] holds_entry(group.keys, field, other))
            && holds_entry(group.values, field, value) ==> query_aggregate::group_value(
            group,
            field,
        ) == Some(value),
{
    if holds_entry(group.keys, field, value) {
        let i = choose|i: int|
            0 <= i < group.keys.len() && #[trigger] group.keys[i] == (field, value);
        sorted_maps::lookup_finds(group.keys, i);
    }
    if let Some(other) = sorted_maps::lookup(group.keys, field) {
        sorted_maps::lookup_is_entry(group.keys, field);
        assert(holds_entry(group.keys, field, other));
    }
    if holds_entry(group.values, field, value) {
        let i = choose|i: int|
            0 <= i < group.values.len() && #[trigger] group.values[i] == (field, value);
        sorted_maps::lookup_finds(group.values, i);
    }
}

/// The first sort field in which two groups differ decides which comes first: in an
/// ascending field the group without the value, then the lesser value; a descending
/// field turns that around.
pub proof fn groups_are_ordered_by_their_first_difference(
    left: AggregateGroupView,
    right: AggregateGroupView,
    sort: Seq<QuerySortView>,
    n: int,
)
    requires
        0 <= n < sort.len(),
        alike_in(left, right, sort, n),
        query_aggregate::group_value(left, sort[n].field_id) != query_aggregate::group_value(
            right,
            sort[n].field_id,
        ),
    ensures
        ({
            let x = query_aggregate::group_value(left, sort[n].field_id);
            let y = query_aggregate::group_value(right, sort[n].field_id);
            &&& sort[n].direction == QuerySortDirection::Ascending ==> (
            query_aggregate::group_less(left, right, sort) <==> (x is None || (y is Some
                && x->0.less(y->0))))
            &&& sort[n].direction == QuerySortDirection::Descending ==> (
            query_aggregate::group_less(left, right, sort) <==> (y is None || (x is Some
                && y->0.less(x->0))))
        }),
    decreases sort.len(),
{
    if n > 0 {
        let rest = sort.drop_first();
        assert(sort[0].field_id == sort[0].field_id);
        assert(rest[n - 1] == sort[n]);
        assert forall|i: int| 0 <= i < n - 1 implies query_aggregate::group_value(
            left,
            (#[trigger] rest[i]).field_id,
        ) == query_aggregate::group_value(right, rest[i].field_id) by {
            assert(rest[i] == sort[i + 1]);
        }
        groups_are_ordered_by_their_first_difference(left, right, rest, n - 1);
    }
}

/// The order of groups is one.
proof fn group_order_is_weak(groups: Seq<AggregateGroupView>, sort: Seq<QuerySortView>)
    ensures
        ordering::strict_weak(
            groups.len(),
            |i: int, j: int| query_aggregate::group_less(groups[i], groups[j], sort),
        ),
{
    let less = |i: int, j: int| query_aggregate::group_less(groups[i], groups[j], sort);
    assert forall|i: int, j: int|
        #![trigger less(i, j)]
        0 <= i < groups.len() && 0 <= j < groups.len() && less(i, j) implies !less(j, i) by {
        query_aggregate::group_less_asymmetric(groups[i], groups[j], sort);
    }
    assert forall|i: int, j: int, k: int|
        #![trigger less(i, k), less(j, k)]
        0 <= i < groups.len() && 0 <= j < groups.len() && 0 <= k < groups.len() && less(i, k) implies
        less(i, j) || less(j, k) by {
        query_aggregate::group_less_splits(groups[i], groups[j], groups[k], sort);
    }
}

/// A page of groups without a cursor holds groups in the order of the sort, as many
/// as the limit unless there are fewer, and has a cursor exactly where there are
/// more. Every group is on it, or comes behind all that are.
pub proof fn aggregate_pages_hold_the_first_groups(
    groups: Seq<AggregateGroupView>,
    request: AggregateRequestView,
    read_version: u64,
)
    requires
        request.cursor is None,
        request.limit > 0,
    ensures
        query_aggregate::paged_groups(groups, request, read_version) is Ok,
        ({
            let page = query_aggregate::paged_groups(groups, request, read_version)->Ok_0;
            &&& page.read_version == read_version
            &&& page.groups.len() == if groups.len() < request.limit {
                groups.len()
            } else {
                request.limit as nat
            }
            &&& page.next_cursor is Some <==> groups.len() > request.limit
            &&& forall|i: int| 0 <= i < page.groups.len() ==> groups.contains(#[trigger] page.groups[i])
            &&& forall|i: int, j: int|
                #![trigger page.groups[i], page.groups[j]]
                0 <= i < j < page.groups.len() ==> !query_aggregate::group_less(
                    page.groups[j],
                    page.groups[i],
                    request.sort,
                )
            &&& forall|k: int|
                0 <= k < groups.len() ==> page.groups.contains(#[trigger] groups[k]) || forall|i: int|
                    0 <= i < page.groups.len() ==> !query_aggregate::group_less(
                        groups[k],
                        #[trigger] page.groups[i],
                        request.sort,
                    )
        }),
{
    let sort = request.sort;
    let less = |i: int, j: int| query_aggregate::group_less(groups[i], groups[j], sort);
    let order = ordering::stable_order(groups.len(), less);
    let sorted = query_aggregate::ordered_groups(groups, sort);
    group_order_is_weak(groups, sort);
    ordering::stable_order_exists(groups.len(), less);
    let page = query_aggregate::paged_groups(groups, request, read_version)->Ok_0;
    let end = page.groups.len() as int;
    assert forall|i: int| 0 <= i < sorted.len() implies #[trigger] sorted[i] == groups[order[i]]
        && 0 <= order[i] < groups.len() by {
        assert(0 <= order[i] < groups.len());
    }
    assert forall|i: int, j: int|
        #![trigger sorted[i], sorted[j]]
        0 <= i < j < sorted.len() implies !query_aggregate::group_less(sorted[j], sorted[i], sort) by {
        assert(ordering::ahead(less, order[i], order[j]));
        assert(sorted[i] == groups[order[i]] && sorted[j] == groups[order[j]]);
        if less(order[i], order[j]) {
            assert(!less(order[j], order[i]));
        }
    }
    assert forall|i: int| 0 <= i < end implies #[trigger] page.groups[i] == sorted[i] by {}
    assert forall|i: int, j: int|
        #![trigger page.groups[i], page.groups[j]]
        0 <= i < j < page.groups.len() implies !query_aggregate::group_less(
        page.groups[j],
        page.groups[i],
        sort,
    ) by {
        assert(page.groups[i] == sorted[i] && page.groups[j] == sorted[j]);
    }
    assert forall|i: int| 0 <= i < page.groups.len() implies groups.contains(
        #[trigger] page.groups[i],
    ) by {
        assert(page.groups[i] == sorted[i]);
        assert(groups[order[i]] == sorted[i]);
    }
    assert forall|k: int| 0 <= k < groups.len() implies page.groups.contains(#[trigger] groups[k])
        || forall|i: int|
        0 <= i < page.groups.len() ==> !query_aggregate::group_less(
            groups[k],
            #[trigger] page.groups[i],
            sort,
        ) by {
        assert(order.contains(k));
        let n = choose|n: int| 0 <= n < order.len() && order[n] == k;
        assert(sorted[n] == groups[k]);
        if n < end {
            assert(page.groups[n] == groups[k]);
        } else {
            assert forall|i: int| 0 <= i < page.groups.len() implies !query_aggregate::group_less(
                groups[k],
                #[trigger] page.groups[i],
                sort,
            ) by {
                assert(page.groups[i] == sorted[i]);
            }
        }
    }
}

} // verus!
