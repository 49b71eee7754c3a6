//! Which query requests are admitted.
//!
//! A request is admitted where its lists are bounded, its operands have the shape
//! and its fields the types that its operators and functions take. Nothing else
//! keeps it from being answered.

use vstd::prelude::*;

use crate::names;
use crate::query_aggregate;
use crate::query_catalog;
use crate::query_rows::RowView;
use crate::query_search;
use crate::query_types::{
    AggregateFunction, AggregateRequestView, AggregateSpecView, CatalogRequestView,
    QueryOperandView, QueryOperator, QueryPredicateView, QuerySortView, SearchRequestView,
};
use crate::scalars::QueryScalarType;
use crate::sorted_maps;
use crate::sorted_maps::Entry;

verus! {

/// The operand has the shape that the operator takes: none for a test of presence,
/// at most 64 members for membership, one value for a comparison.
pub open spec fn operand_is_shaped(predicate: QueryPredicateView) -> bool {
    match predicate.operator {
        QueryOperator::Exists | QueryOperator::NotExists => predicate.operand is Absent,
        QueryOperator::In => predicate.operand matches QueryOperandView::Members(members)
            && members.len() <= 64,
        _ => predicate.operand is Scalar,
    }
}

/// The checks of operands.
proof fn operand_checks_are_exact(predicates: Seq<QueryPredicateView>, i: int)
    requires
        0 <= i,
        forall|k: int|
            0 <= k < predicates.len() ==> ((#[trigger] predicates[k]).operand
                matches QueryOperandView::Members(members) ==> members.len() <= usize::MAX),
    ensures
        query_catalog::operands_check(predicates, i) is Ok <==> forall|k: int|
            i <= k < predicates.len() ==> operand_is_shaped(#[trigger] predicates[k]),
    decreases predicates.len() - i,
{
    if i < predicates.len() {
        operand_checks_are_exact(predicates, i + 1);
        assert(query_catalog::operand_check(predicates[i]) is Ok <==> operand_is_shaped(
            predicates[i],
        ));
    }
}

/// The lengths of the lists of a request are lengths that a machine can hold.
pub open spec fn lists_fit(predicates: Seq<QueryPredicateView>) -> bool {
    &&& predicates.len() <= usize::MAX
    &&& forall|k: int|
        0 <= k < predicates.len() ==> ((#[trigger] predicates[k]).operand
            matches QueryOperandView::Members(members) ==> members.len() <= usize::MAX)
}

/// A search request is well formed exactly where it asks for 1 to 256 hits, its
/// lists are within their bounds, no field is projected or faceted twice, and its
/// operands are shaped as its operators take them.
pub proof fn search_requests_are_well_formed(request: SearchRequestView)
    requires
        lists_fit(request.predicates),
        request.projection.len() <= usize::MAX,
        request.sort.len() <= usize::MAX,
        request.facets.len() <= usize::MAX,
    ensures
        request.check() is Ok <==> ({
            &&& 1 <= request.limit <= 256
            &&& request.predicates.len() <= 64
            &&& request.projection.len() <= 64
            &&& request.sort.len() <= 8
            &&& request.facets.len() <= 16
            &&& request.projection.no_duplicates()
            &&& request.facets.no_duplicates()
            &&& forall|k: int|
                0 <= k < request.predicates.len() ==> operand_is_shaped(
                    #[trigger] request.predicates[k],
                )
        }),
{
    operand_checks_are_exact(request.predicates, 0);
}

/// An aggregate request is well formed exactly where it asks for 1 to 256 groups
/// and for 1 to 16 aggregates, its lists are within their bounds, no field is
/// grouped by twice, no result id is used twice or is that of a group field, and
/// every function but the count has a field.
pub proof fn aggregate_requests_are_well_formed(request: AggregateRequestView)
    requires
        lists_fit(request.predicates),
        request.group_by.len() <= usize::MAX,
        request.aggregates.len() <= usize::MAX,
        request.sort.len() <= usize::MAX,
    ensures
        request.check() is Ok <==> ({
            &&& 1 <= request.limit <= 256
            &&& request.predicates.len() <= 64
            &&& request.group_by.len() <= 8
            &&& 1 <= request.aggregates.len() <= 16
            &&& request.sort.len() <= 8
            &&& request.group_by.no_duplicates()
            &&& forall|k: int|
                0 <= k < request.predicates.len() ==> operand_is_shaped(
                    #[trigger] request.predicates[k],
                )
            &&& forall|k: int|
                0 <= k < request.aggregates.len() ==> {
                    &&& (#[trigger] request.aggregates[k]).function == AggregateFunction::Count
                        || request.aggregates[k].field_id is Some
                    &&& !request.group_by.contains(request.aggregates[k].result_id)
                }
            &&& forall|i: int, j: int|
                #![trigger request.aggregates[i], request.aggregates[j]]
                0 <= i < j < request.aggregates.len() ==> request.aggregates[i].result_id
                    != request.aggregates[j].result_id
        }),
{
    operand_checks_are_exact(request.predicates, 0);
    aggregate_checks_are_exact(request.group_by, request.aggregates, 0);
}

/// The checks of aggregates.
proof fn aggregate_checks_are_exact(
    group_by: Seq<Seq<u8>>,
    aggregates: Seq<AggregateSpecView>,
    i: int,
)
    requires
        0 <= i,
    ensures
        query_catalog::aggregates_check(group_by, aggregates, i) is Ok <==> (forall|k: int|
            i <= k < aggregates.len() ==> {
                &&& (#[trigger] aggregates[k]).function == AggregateFunction::Count
                    || aggregates[k].field_id is Some
                &&& !group_by.contains(aggregates[k].result_id)
            }) && (forall|h: int, k: int|
            #![trigger aggregates[h], aggregates[k]]
            0 <= h < k < aggregates.len() && i <= k ==> aggregates[h].result_id
                != aggregates[k].result_id),
    decreases aggregates.len() - i,
{
    if i < aggregates.len() {
        aggregate_checks_are_exact(group_by, aggregates, i + 1);
        let ids = query_catalog::result_ids(aggregates);
        let before = ids.take(i);
        if before.contains(aggregates[i].result_id) {
            let h = choose|h: int| 0 <= h < before.len() && before[h] == aggregates[i].result_id;
            assert(aggregates[h].result_id == aggregates[i].result_id);
        } else {
            assert forall|h: int| 0 <= h < i implies (#[trigger] aggregates[h]).result_id
                != aggregates[i].result_id by {
                assert(before[h] == aggregates[h].result_id);
            }
        }
    }
}

/// A field of this type takes the operator: the text operators take text and bytes,
/// the others every type.
pub open spec fn takes(scalar_type: QueryScalarType, operator: QueryOperator) -> bool {
    (operator is Prefix || operator is Suffix || operator is Contains) ==> scalar_type is String
        || scalar_type is Bytes
}

/// The predicate is on a field of the catalog that takes its operator, and every
/// value of its operand is null or of the type of the field.
pub open spec fn predicate_is_typed(
    catalog: Seq<Entry<QueryScalarType>>,
    predicate: QueryPredicateView,
) -> bool {
    exists|n: int|
        0 <= n < catalog.len() && (#[trigger] catalog[n]).0 == predicate.field_id && takes(
            catalog[n].1,
            predicate.operator,
        ) && (match predicate.operand {
            QueryOperandView::Absent => true,
            QueryOperandView::Scalar(value) => value is Null || value.scalar_type() == catalog[n].1,
            QueryOperandView::Members(members) => forall|i: int|
                0 <= i < members.len() ==> (#[trigger] members[i]) is Null
                    || members[i].scalar_type() == catalog[n].1,
        })
}

/// The field is one of the catalog.
pub open spec fn is_cataloged(catalog: Seq<Entry<QueryScalarType>>, field: Seq<u8>) -> bool {
    exists|n: int| 0 <= n < catalog.len() && (#[trigger] catalog[n]).0 == field
}

/// What is found in a catalog.
proof fn cataloged_fields_are_found(catalog: Seq<Entry<QueryScalarType>>, field: Seq<u8>)
    requires
        sorted_maps::ascending(catalog),
    ensures
        sorted_maps::lookup(catalog, field) is Some <==> is_cataloged(catalog, field),
        forall|n: int|
            0 <= n < catalog.len() && (#[trigger] catalog[n]).0 == field ==> sorted_maps::lookup(
                catalog,
                field,
            ) == Some(catalog[n].1),
{
    sorted_maps::lookup_is_entry(catalog, field);
    if let Some(found) = sorted_maps::lookup(catalog, field) {
        let i = choose|i: int| 0 <= i < catalog.len() && #[trigger] catalog[i] == (field, found);
        assert(catalog[i].0 == field);
    }
    assert forall|n: int|
        0 <= n < catalog.len() && (#[trigger] catalog[n]).0 == field implies sorted_maps::lookup(
        catalog,
        field,
    ) == Some(catalog[n].1) by {
        sorted_maps::lookup_finds(catalog, n);
    }
}

/// The checks of predicates against a catalog.
proof fn predicate_checks_are_exact(
    catalog: Seq<Entry<QueryScalarType>>,
    predicates: Seq<QueryPredicateView>,
    i: int,
)
    requires
        0 <= i,
        sorted_maps::ascending(catalog),
    ensures
        query_catalog::predicate_fields_check(catalog, predicates, i) is Ok <==> forall|k: int|
            i <= k < predicates.len() ==> predicate_is_typed(catalog, #[trigger] predicates[k]),
    decreases predicates.len() - i,
{
    if i < predicates.len() {
        predicate_checks_are_exact(catalog, predicates, i + 1);
        let predicate = predicates[i];
        cataloged_fields_are_found(catalog, predicate.field_id);
        if query_catalog::predicate_field_check(catalog, predicate) is Ok {
            let n = choose|n: int|
                0 <= n < catalog.len() && (#[trigger] catalog[n]).0 == predicate.field_id;
            if let QueryOperandView::Members(members) = predicate.operand {
                assert forall|m: int| 0 <= m < members.len() implies (#[trigger] members[m]) is Null
                    || members[m].scalar_type() == catalog[n].1 by {
                    assert(query_catalog::operand_type_fits(catalog[n].1, members[m]));
                }
            }
            assert(takes(catalog[n].1, predicate.operator));
            assert(predicate_is_typed(catalog, predicate));
        }
        if predicate_is_typed(catalog, predicate) {
            let n = choose|n: int|
                0 <= n < catalog.len() && (#[trigger] catalog[n]).0 == predicate.field_id && takes(
                    catalog[n].1,
                    predicate.operator,
                ) && (match predicate.operand {
                    QueryOperandView::Absent => true,
                    QueryOperandView::Scalar(value) => value is Null || value.scalar_type()
                        == catalog[n].1,
                    QueryOperandView::Members(members) => forall|i: int|
                        0 <= i < members.len() ==> (#[trigger] members[i]) is Null
                            || members[i].scalar_type() == catalog[n].1,
                });
            assert(sorted_maps::lookup(catalog, predicate.field_id) == Some(catalog[n].1));
        }
    }
}

/// The checks of fields against a catalog.
proof fn field_checks_are_exact(
    catalog: Seq<Entry<QueryScalarType>>,
    fields: Seq<Seq<u8>>,
    i: int,
)
    requires
        0 <= i,
        sorted_maps::ascending(catalog),
    ensures
        query_catalog::known_fields_check(catalog, fields, i) is Ok <==> forall|k: int|
            i <= k < fields.len() ==> is_cataloged(catalog, #[trigger] fields[k]),
    decreases fields.len() - i,
{
    if i < fields.len() {
        field_checks_are_exact(catalog, fields, i + 1);
        cataloged_fields_are_found(catalog, fields[i]);
    }
}

/// A search request agrees with a catalog exactly where its predicates are typed
/// by it and every field that it projects, facets or sorts by is in it.
pub proof fn search_fields_agree_with_the_catalog(
    catalog: Seq<Entry<QueryScalarType>>,
    request: SearchRequestView,
)
    requires
        sorted_maps::ascending(catalog),
    ensures
        request.fields_check(catalog) is Ok <==> ({
            &&& forall|k: int|
                0 <= k < request.predicates.len() ==> predicate_is_typed(
                    catalog,
                    #[trigger] request.predicates[k],
                )
            &&& forall|k: int|
                0 <= k < request.projection.len() ==> is_cataloged(
                    catalog,
                    #[trigger] request.projection[k],
                )
            &&& forall|k: int|
                0 <= k < request.facets.len() ==> is_cataloged(
                    catalog,
                    #[trigger] request.facets[k],
                )
            &&& forall|k: int|
                0 <= k < request.sort.len() ==> is_cataloged(
                    catalog,
                    (#[trigger] request.sort[k]).field_id,
                )
        }),
{
    predicate_checks_are_exact(catalog, request.predicates, 0);
    field_checks_are_exact(catalog, request.projection, 0);
    field_checks_are_exact(catalog, request.facets, 0);
    sort_fields_are_cataloged(catalog, request.sort);
}

/// The checks of sort fields against a catalog.
proof fn sort_fields_are_cataloged(
    catalog: Seq<Entry<QueryScalarType>>,
    sort: Seq<QuerySortView>,
)
    requires
        sorted_maps::ascending(catalog),
    ensures
        query_catalog::known_fields_check(catalog, query_catalog::sort_fields(sort), 0) is Ok
            <==> forall|k: int|
            0 <= k < sort.len() ==> is_cataloged(catalog, (#[trigger] sort[k]).field_id),
{
    let fields = query_catalog::sort_fields(sort);
    field_checks_are_exact(catalog, fields, 0);
    if forall|k: int| 0 <= k < fields.len() ==> is_cataloged(catalog, #[trigger] fields[k]) {
        assert forall|k: int| 0 <= k < sort.len() implies is_cataloged(
            catalog,
            (#[trigger] sort[k]).field_id,
        ) by {
            assert(fields[k] == sort[k].field_id);
        }
    }
    if forall|k: int| 0 <= k < sort.len() ==> is_cataloged(catalog, (#[trigger] sort[k]).field_id) {
        assert forall|k: int| 0 <= k < fields.len() implies is_cataloged(
            catalog,
            #[trigger] fields[k],
        ) by {
            assert(fields[k] == sort[k].field_id);
        }
    }
}

/// The field of an aggregate is one of the catalog, of a numeric type for a sum or
/// an average and of any type but null for a minimum or a maximum. A count takes
/// every field, or none.
pub open spec fn aggregate_is_typed(
    catalog: Seq<Entry<QueryScalarType>>,
    aggregate: AggregateSpecView,
) -> bool {
    aggregate.field_id matches Some(field) ==> exists|n: int|
        0 <= n < catalog.len() && (#[trigger] catalog[n]).0 == field && (match aggregate.function {
            AggregateFunction::Count => true,
            AggregateFunction::Sum | AggregateFunction::Average => catalog[n].1 is Signed
                || catalog[n].1 is Unsigned || catalog[n].1 is Float,
            AggregateFunction::Minimum | AggregateFunction::Maximum => !(catalog[n].1 is Null),
        })
}

/// The checks of aggregates against a catalog.
proof fn aggregate_field_checks_are_exact(
    catalog: Seq<Entry<QueryScalarType>>,
    aggregates: Seq<AggregateSpecView>,
    i: int,
)
    requires
        0 <= i,
        sorted_maps::ascending(catalog),
    ensures
        query_catalog::aggregate_fields_check(catalog, aggregates, i) is Ok <==> forall|k: int|
            i <= k < aggregates.len() ==> aggregate_is_typed(catalog, #[trigger] aggregates[k]),
    decreases aggregates.len() - i,
{
    if i < aggregates.len() {
        aggregate_field_checks_are_exact(catalog, aggregates, i + 1);
        if let Some(field) = aggregates[i].field_id {
            cataloged_fields_are_found(catalog, field);
        }
    }
}

/// The checks of the sort fields of groups.
proof fn group_sort_checks_are_exact(
    group_by: Seq<Seq<u8>>,
    results: Seq<Seq<u8>>,
    sort: Seq<QuerySortView>,
    i: int,
)
    requires
        0 <= i,
    ensures
        query_catalog::group_sorts_check(group_by, results, sort, i) is Ok <==> forall|k: int|
            i <= k < sort.len() ==> group_by.contains((#[trigger] sort[k]).field_id)
                || results.contains(sort[k].field_id),
    decreases sort.len() - i,
{
    if i < sort.len() {
        group_sort_checks_are_exact(group_by, results, sort, i + 1);
    }
}

/// An aggregate request agrees with a catalog exactly where its predicates and
/// aggregates are typed by it, every field that it groups by is in it, and it sorts
/// by nothing but group fields and results.
pub proof fn aggregate_fields_agree_with_the_catalog(
    catalog: Seq<Entry<QueryScalarType>>,
    request: AggregateRequestView,
)
    requires
        sorted_maps::ascending(catalog),
    ensures
        request.fields_check(catalog) is Ok <==> ({
            &&& forall|k: int|
                0 <= k < request.predicates.len() ==> predicate_is_typed(
                    catalog,
                    #[trigger] request.predicates[k],
                )
            &&& forall|k: int|
                0 <= k < request.group_by.len() ==> is_cataloged(
                    catalog,
                    #[trigger] request.group_by[k],
                )
            &&& forall|k: int|
                0 <= k < request.aggregates.len() ==> aggregate_is_typed(
                    catalog,
                    #[trigger] request.aggregates[k],
                )
            &&& forall|k: int|
                0 <= k < request.sort.len() ==> request.group_by.contains(
                    (#[trigger] request.sort[k]).field_id,
                ) || exists|s: int|
                    0 <= s < request.aggregates.len() && (
                    #[trigger] request.aggregates[s]).result_id == request.sort[k].field_id
        }),
{
    let results = query_catalog::result_ids(request.aggregates);
    predicate_checks_are_exact(catalog, request.predicates, 0);
    field_checks_are_exact(catalog, request.group_by, 0);
    aggregate_field_checks_are_exact(catalog, request.aggregates, 0);
    group_sort_checks_are_exact(request.group_by, results, request.sort, 0);
    assert forall|field: Seq<u8>| results.contains(field) <==> exists|s: int|
        0 <= s < request.aggregates.len() && (#[trigger] request.aggregates[s]).result_id == field by {
        if results.contains(field) {
            let s = choose|s: int| 0 <= s < results.len() && results[s] == field;
            assert(request.aggregates[s].result_id == field);
        }
        if exists|s: int|
            0 <= s < request.aggregates.len() && (#[trigger] request.aggregates[s]).result_id
                == field {
            let s = choose|s: int|
                0 <= s < request.aggregates.len() && (#[trigger] request.aggregates[s]).result_id
                    == field;
            assert(results[s] == field);
        }
    }
}

/// A search without a cursor is answered exactly where it is well formed, the rows
/// have one catalog, and it agrees with that catalog. The same holds of an
/// aggregation whose groups come to results.
pub proof fn admitted_requests_are_answered(
    rows: Seq<RowView>,
    search: SearchRequestView,
    aggregate: AggregateRequestView,
    read_version: u64,
    folds: Seq<Seq<u64>>,
)
    requires
        search.cursor is None,
        aggregate.cursor is None,
    ensures
        query_search::search(rows, search, read_version) is Ok <==> search.check() is Ok
            && query_catalog::catalog_check(rows) is Ok && search.fields_check(
            query_catalog::catalog_of(rows),
        ) is Ok,
        query_aggregate::aggregate_check(rows, aggregate) is Ok <==> aggregate.check() is Ok
            && query_catalog::catalog_check(rows) is Ok && aggregate.fields_check(
            query_catalog::catalog_of(rows),
        ) is Ok,
        query_aggregate::aggregate(rows, aggregate, read_version, folds) is Ok
            <==> query_aggregate::row_groups(rows, aggregate, folds) is Ok,
{
}

/// A catalog request is well formed exactly where it asks for 1 to 256 fields and
/// its prefix has at most 128 bytes, all of them bytes of field ids.
pub proof fn catalog_requests_are_well_formed(request: CatalogRequestView)
    ensures
        request.check() is Ok <==> 1 <= request.limit <= 256 && (request.field_prefix
            matches Some(prefix) ==> prefix.len() <= 128 && forall|i: int|
            0 <= i < prefix.len() ==> {
                ||| '0' as u8 <= #[trigger] prefix[i] <= '9' as u8
                ||| 'A' as u8 <= prefix[i] <= 'Z' as u8
                ||| 'a' as u8 <= prefix[i] <= 'z' as u8
                ||| prefix[i] == '_' as u8
                ||| prefix[i] == '.' as u8
                ||| prefix[i] == '-' as u8
            }),
{
    if let Some(prefix) = request.field_prefix {
        names::first_unsupported_is_first(prefix, 0);
        let k = names::first_unsupported(prefix, 0);
        if k < prefix.len() {
            assert(!names::is_field_byte(prefix[k]));
        } else {
            assert forall|i: int| 0 <= i < prefix.len() implies names::is_field_byte(
                #[trigger] prefix[i],
            ) by {}
        }
    }
}

} // verus!
