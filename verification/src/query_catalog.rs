//! The field catalog of a scope, and the checks of requests against it.

use vstd::prelude::*;
use vstd::utf8::*;

use crate::bytes;
use crate::names;
use crate::names::{NameError, QueryFieldId};
use crate::query_rows::{CollectedRows, MaterializedRow, RowView};
use crate::query_types;
use crate::query_types::{
    AggregateFunction, AggregateRequest, AggregateRequestView, AggregateSpec, AggregateSpecView,
    CatalogField, CatalogFieldView, QueryError, QueryFailure, QueryOperand, QueryOperandView,
    QueryOperator, QueryPredicate, QueryPredicateView, QuerySort, QuerySortView, SearchRequest,
    SearchRequestView, MAX_QUERY_AGGREGATES, MAX_QUERY_FACET_FIELDS, MAX_QUERY_GROUP_FIELDS,
    MAX_QUERY_IN_VALUES, MAX_QUERY_PAGE_SIZE, MAX_QUERY_PREDICATES, MAX_QUERY_PROJECTION_FIELDS,
    MAX_QUERY_SORT_FIELDS,
};
use crate::scalars::{QueryScalar, QueryScalarType, QueryScalarView};
use crate::sorted_maps;
use crate::sorted_maps::{Entry, FieldMap, ScalarSet};
use crate::store_records;

verus! {

/// Type of a built-in field.
pub open spec fn builtin_type(field: Seq<u8>) -> Option<QueryScalarType> {
    if field == bytes::utf8("workbench_id"@) {
        Some(QueryScalarType::String)
    } else if field == bytes::utf8("path"@) {
        Some(QueryScalarType::String)
    } else if field == bytes::utf8("generation"@) {
        Some(QueryScalarType::Unsigned)
    } else if field == bytes::utf8("logical_size"@) {
        Some(QueryScalarType::Unsigned)
    } else if field == bytes::utf8("body_digest_uri"@) {
        Some(QueryScalarType::String)
    } else if field == bytes::utf8("content_type"@) {
        Some(QueryScalarType::String)
    } else if field == bytes::utf8("producer"@) {
        Some(QueryScalarType::String)
    } else if field == bytes::utf8("manifest_id"@) {
        Some(QueryScalarType::String)
    } else {
        None
    }
}

/// Type of a field in the first of the rows that carries it.
pub open spec fn first_type(rows: Seq<RowView>, field: Seq<u8>) -> Option<QueryScalarType>
    decreases rows.len(),
{
    if rows.len() == 0 {
        None
    } else {
        match first_type(rows.drop_last(), field) {
            Some(scalar_type) => Some(scalar_type),
            None => match sorted_maps::lookup(rows.last().projection, field) {
                Some(value) => Some(value.scalar_type()),
                None => None,
            },
        }
    }
}

/// Type of a field in the catalog of the rows.
pub open spec fn catalog_type(rows: Seq<RowView>, field: Seq<u8>) -> Option<QueryScalarType> {
    match builtin_type(field) {
        Some(scalar_type) => Some(scalar_type),
        None => first_type(rows, field),
    }
}

/// Fields of one row, from `i` on, have the types that the rows before gave
/// them.
pub open spec fn row_types_check(
    before: Seq<RowView>,
    entries: Seq<Entry<QueryScalarView>>,
    i: int,
) -> Result<(), QueryFailure>
    decreases entries.len() - i,
{
    if i >= entries.len() {
        Ok(())
    } else {
        let left = catalog_type(before, entries[i].0);
        let right = entries[i].1.scalar_type();
        if left is Some && left->0 != right {
            Err(QueryError::FieldTypeConflict { field_id: entries[i].0, left: left->0, right })
        } else {
            row_types_check(before, entries, i + 1)
        }
    }
}

/// Every field has one type in all rows.
pub open spec fn catalog_check(rows: Seq<RowView>) -> Result<(), QueryFailure>
    decreases rows.len(),
{
    if rows.len() == 0 {
        Ok(())
    } else {
        query_types::and_also(
            catalog_check(rows.drop_last()),
            row_types_check(rows.drop_last(), rows.last().projection, 0),
        )
    }
}

/// The list is the catalog of the rows: every field under its type, in
/// ascending order.
pub open spec fn is_catalog(rows: Seq<RowView>, catalog: Seq<Entry<QueryScalarType>>) -> bool {
    &&& sorted_maps::ascending(catalog)
    &&& forall|field: Seq<u8>| #[trigger]
        sorted_maps::lookup(catalog, field) == catalog_type(rows, field)
}

/// The catalog of the rows.
pub open spec fn catalog_of(rows: Seq<RowView>) -> Seq<Entry<QueryScalarType>> {
    choose|catalog: Seq<Entry<QueryScalarType>>| is_catalog(rows, catalog)
}

/// Rows have exactly one catalog.
pub proof fn catalog_is_unique(rows: Seq<RowView>, catalog: Seq<Entry<QueryScalarType>>)
    requires
        is_catalog(rows, catalog),
    ensures
        catalog == catalog_of(rows),
        is_catalog(rows, catalog_of(rows)),
{
    sorted_maps::lookups_determine_the_map(catalog, catalog_of(rows));
}

/// Types of the fields of one row.
spec fn typed(projection: Seq<Entry<QueryScalarView>>) -> Seq<Entry<QueryScalarType>> {
    Seq::new(projection.len(), |i: int| (projection[i].0, projection[i].1.scalar_type()))
}

/// A field of one row has the type of its value.
proof fn typed_fields_are_found(projection: Seq<Entry<QueryScalarView>>, field: Seq<u8>)
    ensures
        sorted_maps::lookup(typed(projection), field) == match sorted_maps::lookup(
            projection,
            field,
        ) {
            Some(value) => Some(value.scalar_type()),
            None => None,
        },
    decreases projection.len(),
{
    if projection.len() > 0 {
        assert(typed(projection).drop_last() =~= typed(projection.drop_last()));
        typed_fields_are_found(projection.drop_last(), field);
    }
}

/// All rows have a catalog.
pub proof fn catalog_exists(rows: Seq<RowView>)
    ensures
        is_catalog(rows, catalog_of(rows)),
    decreases rows.len(),
{
    if rows.len() == 0 {
        let list = seq![
            (bytes::utf8("manifest_id"@), QueryScalarType::String),
            (bytes::utf8("producer"@), QueryScalarType::String),
            (bytes::utf8("content_type"@), QueryScalarType::String),
            (bytes::utf8("body_digest_uri"@), QueryScalarType::String),
            (bytes::utf8("logical_size"@), QueryScalarType::Unsigned),
            (bytes::utf8("generation"@), QueryScalarType::Unsigned),
            (bytes::utf8("path"@), QueryScalarType::String),
            (bytes::utf8("workbench_id"@), QueryScalarType::String),
        ];
        let none = Seq::<Entry<QueryScalarType>>::empty();
        let now = sorted_maps::map_takes_a_list(none, list);
        assert forall|field: Seq<u8>| #[trigger]
            sorted_maps::lookup(now, field) == catalog_type(rows, field) by {
            reveal_with_fuel(sorted_maps::lookup, 9);
        }
        catalog_is_unique(rows, now);
    } else {
        let before = rows.drop_last();
        catalog_exists(before);
        let now = sorted_maps::map_takes_a_list(
            catalog_of(before),
            typed(rows.last().projection),
        );
        assert forall|field: Seq<u8>| #[trigger]
            sorted_maps::lookup(now, field) == catalog_type(rows, field) by {
            typed_fields_are_found(rows.last().projection, field);
            assert(sorted_maps::lookup(catalog_of(before), field) == catalog_type(before, field));
        }
        catalog_is_unique(rows, now);
    }
}

/// Ids of the fields of the rows are at most as long as field ids.
pub open spec fn fields_named(rows: Seq<RowView>) -> bool {
    forall|i: int, k: int|
        #![trigger rows[i].projection[k]]
        0 <= i < rows.len() && 0 <= k < rows[i].projection.len() ==> rows[i].projection[k].0.len()
            <= names::MAX_QUERY_FIELD_ID_BYTES
}

/// A field that some row carries is named as the fields of the rows are.
proof fn carried_fields_are_named(rows: Seq<RowView>, field: Seq<u8>)
    requires
        fields_named(rows),
        first_type(rows, field) is Some,
    ensures
        field.len() <= names::MAX_QUERY_FIELD_ID_BYTES,
    decreases rows.len(),
{
    if first_type(rows.drop_last(), field) is Some {
        let shorter = rows.drop_last();
        assert forall|i: int, k: int|
            #![trigger shorter[i].projection[k]]
            0 <= i < shorter.len() && 0 <= k
                < shorter[i].projection.len() implies shorter[i].projection[k].0.len()
            <= names::MAX_QUERY_FIELD_ID_BYTES by {
            assert(shorter[i] == rows[i]);
            assert(rows[i].projection[k].0.len() <= names::MAX_QUERY_FIELD_ID_BYTES);
        }
        carried_fields_are_named(shorter, field);
    } else {
        let n = rows.len() - 1;
        let entries = rows[n].projection;
        sorted_maps::lookup_is_entry(entries, field);
        let value = sorted_maps::lookup(entries, field)->0;
        let k = choose|k: int| 0 <= k < entries.len() && #[trigger] entries[k] == (field, value);
        assert(rows[n].projection[k].0.len() <= names::MAX_QUERY_FIELD_ID_BYTES);
    }
}

/// The fields of a catalog are at most as long as field ids.
pub proof fn catalog_fields_are_named(rows: Seq<RowView>, i: int)
    requires
        fields_named(rows),
        0 <= i < catalog_of(rows).len(),
    ensures
        catalog_of(rows)[i].0.len() <= names::MAX_QUERY_FIELD_ID_BYTES,
{
    let catalog = catalog_of(rows);
    let field = catalog[i].0;
    catalog_exists(rows);
    sorted_maps::lookup_finds(catalog, i);
    assert(sorted_maps::lookup(catalog, field) == catalog_type(rows, field));
    builtin_names_are_ids();
    if builtin_type(field) is None {
        carried_fields_are_named(rows, field);
    }
}

/// A text of field bytes is a field id.
pub proof fn field_text_is_id(name: Seq<char>)
    requires
        0 < name.len() <= names::MAX_QUERY_FIELD_ID_BYTES,
        forall|i: int| 0 <= i < name.len() ==> '\0' <= #[trigger] name[i] <= '\u{7f}' && names::is_field_byte(name[i] as u8),
    ensures
        names::field_id_check(bytes::utf8(name)) == Ok::<(), NameError>(()),
{
    assert(is_ascii_chars(name));
    is_ascii_chars_encode_utf8(name);
    let b = bytes::utf8(name);
    assert(b =~= Seq::new(name.len(), |i: int| name[i] as u8));
    names::first_unsupported_is_first(b, 0);
    if names::first_unsupported(b, 0) < b.len() {
        let k = names::first_unsupported(b, 0);
        assert(b[k] == name[k] as u8);
    }
}

/// The names of the built-in fields are field ids.
proof fn builtin_names_are_ids()
    ensures
        names::field_id_check(bytes::utf8("workbench_id"@)) == Ok::<(), NameError>(()),
        names::field_id_check(bytes::utf8("path"@)) == Ok::<(), NameError>(()),
        names::field_id_check(bytes::utf8("generation"@)) == Ok::<(), NameError>(()),
        names::field_id_check(bytes::utf8("logical_size"@)) == Ok::<(), NameError>(()),
        names::field_id_check(bytes::utf8("body_digest_uri"@)) == Ok::<(), NameError>(()),
        names::field_id_check(bytes::utf8("content_type"@)) == Ok::<(), NameError>(()),
        names::field_id_check(bytes::utf8("producer"@)) == Ok::<(), NameError>(()),
        names::field_id_check(bytes::utf8("manifest_id"@)) == Ok::<(), NameError>(()),
{
    reveal_strlit("workbench_id");
    reveal_strlit("path");
    reveal_strlit("generation");
    reveal_strlit("logical_size");
    reveal_strlit("body_digest_uri");
    reveal_strlit("content_type");
    reveal_strlit("producer");
    reveal_strlit("manifest_id");
    assert forall|i: int| 0 <= i < "workbench_id"@.len() implies '\0' <= #[trigger] "workbench_id"@[i] <= '\u{7f}' && names::is_field_byte("workbench_id"@[i] as u8) by {
        assert(i == 0 || i == 1 || i == 2 || i == 3 || i == 4 || i == 5 || i == 6 || i == 7 || i == 8 || i == 9 || i == 10 || i == 11);
    }
    field_text_is_id("workbench_id"@);
    assert forall|i: int| 0 <= i < "path"@.len() implies '\0' <= #[trigger] "path"@[i] <= '\u{7f}' && names::is_field_byte("path"@[i] as u8) by {
        assert(i == 0 || i == 1 || i == 2 || i == 3);
    }
    field_text_is_id("path"@);
    assert forall|i: int| 0 <= i < "generation"@.len() implies '\0' <= #[trigger] "generation"@[i] <= '\u{7f}' && names::is_field_byte("generation"@[i] as u8) by {
        assert(i == 0 || i == 1 || i == 2 || i == 3 || i == 4 || i == 5 || i == 6 || i == 7 || i == 8 || i == 9);
    }
    field_text_is_id("generation"@);
    assert forall|i: int| 0 <= i < "logical_size"@.len() implies '\0' <= #[trigger] "logical_size"@[i] <= '\u{7f}' && names::is_field_byte("logical_size"@[i] as u8) by {
        assert(i == 0 || i == 1 || i == 2 || i == 3 || i == 4 || i == 5 || i == 6 || i == 7 || i == 8 || i == 9 || i == 10 || i == 11);
    }
    field_text_is_id("logical_size"@);
    assert forall|i: int| 0 <= i < "body_digest_uri"@.len() implies '\0' <= #[trigger] "body_digest_uri"@[i] <= '\u{7f}' && names::is_field_byte("body_digest_uri"@[i] as u8) by {
        assert(i == 0 || i == 1 || i == 2 || i == 3 || i == 4 || i == 5 || i == 6 || i == 7 || i == 8 || i == 9 || i == 10 || i == 11 || i == 12 || i == 13 || i == 14);
    }
    field_text_is_id("body_digest_uri"@);
    assert forall|i: int| 0 <= i < "content_type"@.len() implies '\0' <= #[trigger] "content_type"@[i] <= '\u{7f}' && names::is_field_byte("content_type"@[i] as u8) by {
        assert(i == 0 || i == 1 || i == 2 || i == 3 || i == 4 || i == 5 || i == 6 || i == 7 || i == 8 || i == 9 || i == 10 || i == 11);
    }
    field_text_is_id("content_type"@);
    assert forall|i: int| 0 <= i < "producer"@.len() implies '\0' <= #[trigger] "producer"@[i] <= '\u{7f}' && names::is_field_byte("producer"@[i] as u8) by {
        assert(i == 0 || i == 1 || i == 2 || i == 3 || i == 4 || i == 5 || i == 6 || i == 7);
    }
    field_text_is_id("producer"@);
    assert forall|i: int| 0 <= i < "manifest_id"@.len() implies '\0' <= #[trigger] "manifest_id"@[i] <= '\u{7f}' && names::is_field_byte("manifest_id"@[i] as u8) by {
        assert(i == 0 || i == 1 || i == 2 || i == 3 || i == 4 || i == 5 || i == 6 || i == 7 || i == 8 || i == 9 || i == 10);
    }
    field_text_is_id("manifest_id"@);
}

/// Puts a built-in field into the catalog.
fn insert_builtin(catalog: &mut FieldMap<QueryScalarType>, name: &str, scalar_type: QueryScalarType)
    requires
        names::field_id_check(bytes::utf8(name@)) == Ok::<(), NameError>(()),
    ensures
        sorted_maps::ascending(final(catalog)@),
        forall|other: Seq<u8>| #[trigger]
            sorted_maps::lookup(final(catalog)@, other) == if other == bytes::utf8(name@) {
                Some(scalar_type)
            } else {
                sorted_maps::lookup(old(catalog)@, other)
            },
{
    match QueryFieldId::new(name) {
        Ok(field) => {
            catalog.insert(field, scalar_type);
        },
        Err(_) => {},
    }
}

/// The catalog of the built-in fields.
pub fn builtin_catalog() -> (catalog: FieldMap<QueryScalarType>)
    ensures
        sorted_maps::ascending(catalog@),
        forall|field: Seq<u8>| #[trigger]
            sorted_maps::lookup(catalog@, field) == builtin_type(field),
{
    proof {
        builtin_names_are_ids();
    }
    let mut catalog: FieldMap<QueryScalarType> = FieldMap::new();
    insert_builtin(&mut catalog, "manifest_id", QueryScalarType::String);
    insert_builtin(&mut catalog, "producer", QueryScalarType::String);
    insert_builtin(&mut catalog, "content_type", QueryScalarType::String);
    insert_builtin(&mut catalog, "body_digest_uri", QueryScalarType::String);
    insert_builtin(&mut catalog, "logical_size", QueryScalarType::Unsigned);
    insert_builtin(&mut catalog, "generation", QueryScalarType::Unsigned);
    insert_builtin(&mut catalog, "path", QueryScalarType::String);
    insert_builtin(&mut catalog, "workbench_id", QueryScalarType::String);
    catalog
}

/// A failure among the first rows is the failure of all of them.
proof fn catalog_failure_persists(rows: Seq<RowView>, n: int)
    requires
        0 <= n <= rows.len(),
        catalog_check(rows.take(n)) is Err,
    ensures
        catalog_check(rows) == catalog_check(rows.take(n)),
    decreases rows.len() - n,
{
    if n < rows.len() {
        assert(rows.take(n + 1).drop_last() =~= rows.take(n));
        catalog_failure_persists(rows, n + 1);
    } else {
        assert(rows.take(n) =~= rows);
    }
}

/// Type of a field in the catalog of the rows before and of the first fields of
/// one more row.
spec fn partial_type(
    before: Seq<RowView>,
    entries: Seq<Entry<QueryScalarView>>,
    field: Seq<u8>,
) -> Option<QueryScalarType> {
    match catalog_type(before, field) {
        Some(scalar_type) => Some(scalar_type),
        None => match sorted_maps::lookup(entries, field) {
            Some(value) => Some(value.scalar_type()),
            None => None,
        },
    }
}

/// Adds the fields of one row to the catalog of the rows before it.
fn add_row(
    catalog: &mut FieldMap<QueryScalarType>,
    row: &MaterializedRow,
    Ghost(before): Ghost<Seq<RowView>>,
) -> (result: Result<(), QueryError>)
    requires
        sorted_maps::ascending(old(catalog)@),
        forall|field: Seq<u8>| #[trigger]
            sorted_maps::lookup(old(catalog)@, field) == catalog_type(before, field),
    ensures
        query_types::checked(result) == row_types_check(before, row@.projection, 0),
        sorted_maps::ascending(final(catalog)@),
        result is Ok ==> forall|field: Seq<u8>| #[trigger]
            sorted_maps::lookup(final(catalog)@, field) == catalog_type(before.push(row@), field),
{
    let entries = row.projection.entries();
    let ghost all = row@.projection;
    let mut k: usize = 0;
    proof {
        assert(all.take(0) =~= Seq::<Entry<QueryScalarView>>::empty());
    }
    while k < entries.len()
        invariant
            k <= entries@.len(),
            all == row@.projection,
            all == sorted_maps::entry_views(entries@),
            sorted_maps::ascending(all),
            sorted_maps::ascending(catalog@),
            row_types_check(before, all, 0) == row_types_check(before, all, k as int),
            forall|field: Seq<u8>| #[trigger]
                sorted_maps::lookup(catalog@, field) == partial_type(
                    before,
                    all.take(k as int),
                    field,
                ),
        decreases entries@.len() - k,
    {
        let entry = &entries[k];
        let scalar_type = entry.value.scalar_type();
        proof {
            let now = all.take(k + 1);
            assert(all[k as int] == entry@);
            assert(now.last() == entry@);
            assert(now.drop_last() =~= all.take(k as int));
            sorted_maps::lookup_is_entry(all.take(k as int), entry.field@);
            if sorted_maps::lookup(all.take(k as int), entry.field@) is Some {
                let value = sorted_maps::lookup(all.take(k as int), entry.field@)->0;
                let j = choose|j: int|
                    0 <= j < k && #[trigger] all.take(k as int)[j] == (entry.field@, value);
                assert(all[j] == (entry.field@, value));
                assert(bytes::lex_less(all[j].0, all[k as int].0));
                bytes::lex_less_irreflexive(entry.field@);
            }
            assert(sorted_maps::lookup(catalog@, entry.field@) == catalog_type(
                before,
                entry.field@,
            ));
            assert forall|field: Seq<u8>| field != entry.field@ implies #[trigger] partial_type(
                before,
                now,
                field,
            ) == partial_type(before, all.take(k as int), field) by {}
        }
        let known = match catalog.get(&entry.field) {
            Some(left) => Some(*left),
            None => None,
        };
        match known {
            Some(left) => {
                if left != scalar_type {
                    return Err(
                        QueryError::FieldTypeConflict {
                            field_id: entry.field.clone(),
                            left,
                            right: scalar_type,
                        },
                    );
                }
            },
            None => {
                catalog.insert(entry.field.clone(), scalar_type);
            },
        }
        proof {
            let now = all.take(k + 1);
            assert forall|field: Seq<u8>| #[trigger]
                sorted_maps::lookup(catalog@, field) == partial_type(before, now, field) by {
                if field != entry.field@ {
                    assert(partial_type(before, now, field) == partial_type(
                        before,
                        all.take(k as int),
                        field,
                    ));
                }
            }
        }
        k = k + 1;
    }
    proof {
        assert(all.take(k as int) =~= all);
        let rows = before.push(row@);
        assert(rows.drop_last() =~= before);
        assert forall|field: Seq<u8>| #[trigger]
            sorted_maps::lookup(catalog@, field) == catalog_type(rows, field) by {}
    }
    Ok(())
}

/// Builds the catalog of the collected rows.
pub fn build_catalog(collected: &CollectedRows) -> (result: Result<
    FieldMap<QueryScalarType>,
    QueryError,
>)
    ensures
        match result {
            Ok(catalog) => catalog_check(collected@.rows) is Ok && catalog@ == catalog_of(
                collected@.rows,
            ) && is_catalog(collected@.rows, catalog@),
            Err(e) => catalog_check(collected@.rows) == Err::<(), QueryFailure>(e.model()),
        },
{
    let mut catalog = builtin_catalog();
    let ghost all = collected@.rows;
    let mut i: usize = 0;
    proof {
        assert(all.take(0) =~= Seq::<RowView>::empty());
        assert forall|field: Seq<u8>| #[trigger]
            sorted_maps::lookup(catalog@, field) == catalog_type(all.take(0), field) by {}
    }
    while i < collected.rows.len()
        invariant
            i <= collected.rows@.len(),
            all == collected@.rows,
            is_catalog(all.take(i as int), catalog@),
            catalog_check(all.take(i as int)) is Ok,
        decreases collected.rows@.len() - i,
    {
        let row = &collected.rows[i];
        proof {
            assert(all[i as int] == row@);
            assert(all.take(i + 1).drop_last() =~= all.take(i as int));
            assert(all.take(i + 1) =~= all.take(i as int).push(row@));
            if catalog_check(all.take(i + 1)) is Err {
                catalog_failure_persists(all, i + 1);
            }
        }
        match add_row(&mut catalog, row, Ghost(all.take(i as int))) {
            Ok(()) => {},
            Err(e) => {
                return Err(e);
            },
        }
        i = i + 1;
    }
    proof {
        assert(all.take(i as int) =~= all);
        catalog_is_unique(all, catalog@);
    }
    Ok(catalog)
}

/// A field of this type supports the operator.
pub open spec fn supports(scalar_type: QueryScalarType, operator: QueryOperator) -> bool {
    match operator {
        QueryOperator::Prefix | QueryOperator::Suffix | QueryOperator::Contains => scalar_type
            == QueryScalarType::String || scalar_type == QueryScalarType::Bytes,
        _ => true,
    }
}

/// The operators that a field of this type supports, in catalog order.
pub open spec fn operators_of(scalar_type: QueryScalarType) -> Seq<QueryOperator> {
    seq![
        QueryOperator::Equal,
        QueryOperator::NotEqual,
        QueryOperator::In,
        QueryOperator::Less,
        QueryOperator::LessOrEqual,
        QueryOperator::Greater,
        QueryOperator::GreaterOrEqual,
    ] + (if scalar_type == QueryScalarType::String || scalar_type == QueryScalarType::Bytes {
        seq![QueryOperator::Prefix, QueryOperator::Suffix, QueryOperator::Contains]
    } else {
        Seq::<QueryOperator>::empty()
    }) + seq![QueryOperator::Exists, QueryOperator::NotExists]
}

/// The catalog advertises exactly the operators that requests may use.
pub proof fn advertised_operators_are_supported(
    scalar_type: QueryScalarType,
    operator: QueryOperator,
)
    ensures
        operators_of(scalar_type).contains(operator) <==> supports(scalar_type, operator),
{
    let list = operators_of(scalar_type);
    let n = list.len() as int;
    assert(list[0] == QueryOperator::Equal && list[1] == QueryOperator::NotEqual && list[2]
        == QueryOperator::In && list[3] == QueryOperator::Less && list[4]
        == QueryOperator::LessOrEqual && list[5] == QueryOperator::Greater && list[6]
        == QueryOperator::GreaterOrEqual);
    assert(list[n - 2] == QueryOperator::Exists && list[n - 1] == QueryOperator::NotExists);
    if scalar_type == QueryScalarType::String || scalar_type == QueryScalarType::Bytes {
        assert(list[7] == QueryOperator::Prefix && list[8] == QueryOperator::Suffix && list[9]
            == QueryOperator::Contains);
    }
}

/// Types whose values can be summed and averaged.
pub open spec fn is_numeric(scalar_type: QueryScalarType) -> bool {
    scalar_type == QueryScalarType::Signed || scalar_type == QueryScalarType::Unsigned
        || scalar_type == QueryScalarType::Float
}

/// Catalog capabilities of a field of this type.
pub open spec fn capabilities(entry: Entry<QueryScalarType>) -> CatalogFieldView {
    CatalogFieldView {
        field_id: entry.0,
        scalar_type: entry.1,
        operators: operators_of(entry.1),
        sortable: entry.1 != QueryScalarType::Null,
        facetable: true,
        aggregatable: is_numeric(entry.1),
    }
}

/// Catalog capabilities of a field of this type.
pub fn catalog_field(field_id: QueryFieldId, scalar_type: QueryScalarType) -> (field: CatalogField)
    ensures
        field@ == capabilities((field_id@, scalar_type)),
{
    let textual: bool = scalar_type == QueryScalarType::String || scalar_type
        == QueryScalarType::Bytes;
    let mut operators: Vec<QueryOperator> = Vec::new();
    operators.push(QueryOperator::Equal);
    operators.push(QueryOperator::NotEqual);
    operators.push(QueryOperator::In);
    operators.push(QueryOperator::Less);
    operators.push(QueryOperator::LessOrEqual);
    operators.push(QueryOperator::Greater);
    operators.push(QueryOperator::GreaterOrEqual);
    if textual {
        operators.push(QueryOperator::Prefix);
        operators.push(QueryOperator::Suffix);
        operators.push(QueryOperator::Contains);
    }
    operators.push(QueryOperator::Exists);
    operators.push(QueryOperator::NotExists);
    assert(operators@ =~= operators_of(scalar_type));
    CatalogField {
        field_id,
        scalar_type,
        operators,
        sortable: scalar_type != QueryScalarType::Null,
        facetable: true,
        aggregatable: scalar_type == QueryScalarType::Signed || scalar_type
            == QueryScalarType::Unsigned || scalar_type == QueryScalarType::Float,
    }
}

/// A page holds between one and the maximum number of items.
pub open spec fn page_check(limit: usize) -> Result<(), QueryFailure> {
    query_types::require(
        1 <= limit <= MAX_QUERY_PAGE_SIZE,
        QueryError::InvalidLimit { requested: limit, max: MAX_QUERY_PAGE_SIZE },
    )
}

/// Checks a page limit.
pub fn validate_page(limit: usize) -> (result: Result<(), QueryError>)
    ensures
        query_types::checked(result) == page_check(limit),
{
    if 1 <= limit && limit <= MAX_QUERY_PAGE_SIZE {
        Ok(())
    } else {
        Err(QueryError::InvalidLimit { requested: limit, max: MAX_QUERY_PAGE_SIZE })
    }
}

/// A list holds at most the maximum number of items.
pub open spec fn bound_check(field: &'static str, count: usize, max: usize) -> Result<
    (),
    QueryFailure,
> {
    query_types::require(count <= max, QueryError::BoundExceeded { field, count, max })
}

/// Checks the length of a list.
pub fn validate_bound(field: &'static str, count: usize, max: usize) -> (result: Result<
    (),
    QueryError,
>)
    ensures
        query_types::checked(result) == bound_check(field, count, max),
{
    if count <= max {
        Ok(())
    } else {
        Err(QueryError::BoundExceeded { field, count, max })
    }
}

/// No field is listed twice.
pub open spec fn unique_check(field: &'static str, fields: Seq<Seq<u8>>) -> Result<
    (),
    QueryFailure,
> {
    query_types::require(
        fields.no_duplicates(),
        QueryError::BoundExceeded {
            field,
            count: fields.len() as usize,
            max: (fields.len() - 1) as usize,
        },
    )
}

/// Whether a field is among the first `count` of a list.
fn listed(fields: &Vec<QueryFieldId>, count: usize, field: &QueryFieldId) -> (found: bool)
    requires
        count <= fields@.len(),
    ensures
        found == store_records::views(fields@).take(count as int).contains(field@),
{
    let mut i: usize = 0;
    let ghost all = store_records::views(fields@).take(count as int);
    while i < count
        invariant
            i <= count <= fields@.len(),
            all == store_records::views(fields@).take(count as int),
            forall|j: int| 0 <= j < i ==> #[trigger] all[j] != field@,
        decreases count - i,
    {
        assert(all[i as int] == fields@[i as int]@);
        if fields[i].same(field) {
            assert(all.contains(field@));
            return true;
        }
        i = i + 1;
    }
    false
}

/// Checks that no field is listed twice.
pub fn require_unique_fields(field: &'static str, fields: &Vec<QueryFieldId>) -> (result: Result<
    (),
    QueryError,
>)
    ensures
        query_types::checked(result) == unique_check(field, store_records::views(fields@)),
{
    let mut i: usize = 0;
    let ghost all = store_records::views(fields@);
    while i < fields.len()
        invariant
            i <= fields@.len(),
            all == store_records::views(fields@),
            all.take(i as int).no_duplicates(),
        decreases fields@.len() - i,
    {
        assert(all[i as int] == fields@[i as int]@);
        if listed(fields, i, &fields[i]) {
            proof {
                let k = choose|k: int|
                    0 <= k < all.take(i as int).len() && all.take(i as int)[k] == all[i as int];
                assert(all[k] == all[i as int] && k != i);
            }
            return Err(
                QueryError::BoundExceeded { field, count: fields.len(), max: fields.len() - 1 },
            );
        }
        proof {
            let now = all.take(i + 1);
            assert forall|a: int, b: int|
                0 <= a < now.len() && 0 <= b < now.len() && a != b implies now[a] != now[b] by {
                if a < i && b < i {
                    assert(all.take(i as int)[a] == now[a] && all.take(i as int)[b] == now[b]);
                } else if a == i {
                    assert(all.take(i as int)[b] == now[b]);
                } else {
                    assert(all.take(i as int)[a] == now[a]);
                }
            }
        }
        i = i + 1;
    }
    assert(all.take(i as int) =~= all);
    Ok(())
}

/// The operand of one predicate has the shape that its operator needs.
pub open spec fn operand_check(predicate: QueryPredicateView) -> Result<(), QueryFailure> {
    let field_id = predicate.field_id;
    match (predicate.operator, predicate.operand) {
        (QueryOperator::Exists, QueryOperandView::Absent) => Ok(()),
        (QueryOperator::NotExists, QueryOperandView::Absent) => Ok(()),
        (QueryOperator::Exists, _) => Err(
            QueryError::InvalidPredicate {
                field_id,
                reason: "existence operators require the no-value operand",
            },
        ),
        (QueryOperator::NotExists, _) => Err(
            QueryError::InvalidPredicate {
                field_id,
                reason: "existence operators require the no-value operand",
            },
        ),
        (QueryOperator::In, QueryOperandView::Members(members)) => bound_check(
            "predicate_in_values",
            members.len() as usize,
            MAX_QUERY_IN_VALUES,
        ),
        (QueryOperator::In, _) => Err(
            QueryError::InvalidPredicate {
                field_id,
                reason: "in requires a canonical set operand",
            },
        ),
        (_, QueryOperandView::Scalar(_)) => Ok(()),
        (_, _) => Err(
            QueryError::InvalidPredicate {
                field_id,
                reason: "comparison operator requires one scalar operand",
            },
        ),
    }
}

/// The operands of the predicates from `i` on have the right shape.
pub open spec fn operands_check(predicates: Seq<QueryPredicateView>, i: int) -> Result<
    (),
    QueryFailure,
>
    decreases predicates.len() - i,
{
    if i >= predicates.len() {
        Ok(())
    } else {
        query_types::and_also(operand_check(predicates[i]), operands_check(predicates, i + 1))
    }
}

/// The predicates are few, and their operands have the right shape.
pub open spec fn predicates_check(predicates: Seq<QueryPredicateView>) -> Result<(), QueryFailure> {
    query_types::and_also(
        bound_check("predicates", predicates.len() as usize, MAX_QUERY_PREDICATES),
        operands_check(predicates, 0),
    )
}

/// Checks the operand of one predicate.
fn validate_operand(predicate: &QueryPredicate) -> (result: Result<(), QueryError>)
    ensures
        query_types::checked(result) == operand_check(predicate@),
{
    match (predicate.operator, &predicate.operand) {
        (QueryOperator::Exists, QueryOperand::Absent) => Ok(()),
        (QueryOperator::NotExists, QueryOperand::Absent) => Ok(()),
        (QueryOperator::Exists, _) => Err(
            QueryError::InvalidPredicate {
                field_id: predicate.field_id.clone(),
                reason: "existence operators require the no-value operand",
            },
        ),
        (QueryOperator::NotExists, _) => Err(
            QueryError::InvalidPredicate {
                field_id: predicate.field_id.clone(),
                reason: "existence operators require the no-value operand",
            },
        ),
        (QueryOperator::In, QueryOperand::Members(members)) => validate_bound(
            "predicate_in_values",
            members.len(),
            MAX_QUERY_IN_VALUES,
        ),
        (QueryOperator::In, _) => Err(
            QueryError::InvalidPredicate {
                field_id: predicate.field_id.clone(),
                reason: "in requires a canonical set operand",
            },
        ),
        (_, QueryOperand::Scalar(_)) => Ok(()),
        (_, _) => Err(
            QueryError::InvalidPredicate {
                field_id: predicate.field_id.clone(),
                reason: "comparison operator requires one scalar operand",
            },
        ),
    }
}

/// Checks the number of predicates and the shape of their operands.
pub fn validate_predicates(predicates: &Vec<QueryPredicate>) -> (result: Result<(), QueryError>)
    ensures
        query_types::checked(result) == predicates_check(store_records::views(predicates@)),
{
    let ghost all = store_records::views(predicates@);
    match validate_bound("predicates", predicates.len(), MAX_QUERY_PREDICATES) {
        Ok(()) => {},
        Err(e) => {
            return Err(e);
        },
    }
    let mut i: usize = 0;
    while i < predicates.len()
        invariant
            i <= predicates@.len(),
            all == store_records::views(predicates@),
            predicates_check(all) == operands_check(all, i as int),
        decreases predicates@.len() - i,
    {
        assert(all[i as int] == predicates@[i as int]@);
        match validate_operand(&predicates[i]) {
            Ok(()) => {},
            Err(e) => {
                return Err(e);
            },
        }
        i = i + 1;
    }
    Ok(())
}

/// The operand has the type of its field, or is null.
pub open spec fn operand_type_fits(scalar_type: QueryScalarType, value: QueryScalarView) -> bool {
    value.scalar_type() == scalar_type || value == QueryScalarView::Null
}

/// Every value of the operand has the type of its field, or is null.
pub open spec fn operand_fits(scalar_type: QueryScalarType, operand: QueryOperandView) -> bool {
    match operand {
        QueryOperandView::Absent => true,
        QueryOperandView::Scalar(value) => operand_type_fits(scalar_type, value),
        QueryOperandView::Members(members) => members_fit(scalar_type, members),
    }
}

/// Every member has the type of its field, or is null.
pub open spec fn members_fit(scalar_type: QueryScalarType, members: Seq<QueryScalarView>) -> bool {
    forall|i: int|
        0 <= i < members.len() ==> operand_type_fits(scalar_type, #[trigger] members[i])
}

/// The field of one predicate is known, supports its operator, and has the type
/// of its operand.
pub open spec fn predicate_field_check(
    catalog: Seq<Entry<QueryScalarType>>,
    predicate: QueryPredicateView,
) -> Result<(), QueryFailure> {
    let field_id = predicate.field_id;
    match sorted_maps::lookup(catalog, field_id) {
        None => Err(QueryError::UnknownField { field_id }),
        Some(scalar_type) => if !supports(scalar_type, predicate.operator) {
            Err(
                QueryError::InvalidPredicate {
                    field_id,
                    reason: "operator is unsupported for this field type",
                },
            )
        } else {
            query_types::require(
                operand_fits(scalar_type, predicate.operand),
                QueryError::InvalidPredicate {
                    field_id,
                    reason: "comparison value has a different scalar type",
                },
            )
        },
    }
}

/// Whether the operand has the type of its field, or is null.
fn fits_field(scalar_type: QueryScalarType, value: &QueryScalar) -> (fits: bool)
    ensures
        fits == operand_type_fits(scalar_type, value@),
{
    value.scalar_type() == scalar_type || value.is_null()
}

/// Whether the field of this type supports the operator.
fn is_supported(scalar_type: QueryScalarType, operator: QueryOperator) -> (supported: bool)
    ensures
        supported == supports(scalar_type, operator),
{
    match operator {
        QueryOperator::Prefix | QueryOperator::Suffix | QueryOperator::Contains => scalar_type
            == QueryScalarType::String || scalar_type == QueryScalarType::Bytes,
        _ => true,
    }
}

/// Whether every member has the type of the field, or is null.
fn all_fit(scalar_type: QueryScalarType, members: &ScalarSet) -> (fit: bool)
    ensures
        fit == members_fit(scalar_type, members@),
{
    let values = members.values();
    let mut i: usize = 0;
    while i < values.len()
        invariant
            i <= values@.len(),
            sorted_maps::scalar_views(values@) == members@,
            forall|j: int|
                0 <= j < i ==> operand_type_fits(scalar_type, #[trigger] members@[j]),
        decreases values@.len() - i,
    {
        assert(members@[i as int] == values@[i as int]@);
        if !fits_field(scalar_type, &values[i]) {
            assert(i < members@.len());
            assert(!operand_type_fits(scalar_type, members@[i as int]));
            return false;
        }
        i = i + 1;
    }
    true
}

/// Checks one predicate against the catalog.
pub fn validate_predicate_against_catalog(
    catalog: &FieldMap<QueryScalarType>,
    predicate: &QueryPredicate,
) -> (result: Result<(), QueryError>)
    ensures
        query_types::checked(result) == predicate_field_check(catalog@, predicate@),
{
    let scalar_type = match catalog.get(&predicate.field_id) {
        Some(scalar_type) => *scalar_type,
        None => {
            return Err(QueryError::UnknownField { field_id: predicate.field_id.clone() });
        },
    };
    if !is_supported(scalar_type, predicate.operator) {
        return Err(
            QueryError::InvalidPredicate {
                field_id: predicate.field_id.clone(),
                reason: "operator is unsupported for this field type",
            },
        );
    }
    let fits: bool = match &predicate.operand {
        QueryOperand::Absent => true,
        QueryOperand::Scalar(value) => fits_field(scalar_type, value),
        QueryOperand::Members(members) => all_fit(scalar_type, members),
    };
    if fits {
        Ok(())
    } else {
        Err(
            QueryError::InvalidPredicate {
                field_id: predicate.field_id.clone(),
                reason: "comparison value has a different scalar type",
            },
        )
    }
}

/// The predicates from `i` on agree with the catalog.
pub open spec fn predicate_fields_check(
    catalog: Seq<Entry<QueryScalarType>>,
    predicates: Seq<QueryPredicateView>,
    i: int,
) -> Result<(), QueryFailure>
    decreases predicates.len() - i,
{
    if i >= predicates.len() {
        Ok(())
    } else {
        query_types::and_also(
            predicate_field_check(catalog, predicates[i]),
            predicate_fields_check(catalog, predicates, i + 1),
        )
    }
}

/// Checks all predicates against the catalog.
fn validate_predicate_fields(
    catalog: &FieldMap<QueryScalarType>,
    predicates: &Vec<QueryPredicate>,
) -> (result: Result<(), QueryError>)
    ensures
        query_types::checked(result) == predicate_fields_check(
            catalog@,
            store_records::views(predicates@),
            0,
        ),
{
    let ghost all = store_records::views(predicates@);
    let mut i: usize = 0;
    while i < predicates.len()
        invariant
            i <= predicates@.len(),
            all == store_records::views(predicates@),
            predicate_fields_check(catalog@, all, 0) == predicate_fields_check(
                catalog@,
                all,
                i as int,
            ),
        decreases predicates@.len() - i,
    {
        assert(all[i as int] == predicates@[i as int]@);
        match validate_predicate_against_catalog(catalog, &predicates[i]) {
            Ok(()) => {},
            Err(e) => {
                return Err(e);
            },
        }
        i = i + 1;
    }
    Ok(())
}

/// The fields from `i` on are in the catalog.
pub open spec fn known_fields_check(
    catalog: Seq<Entry<QueryScalarType>>,
    fields: Seq<Seq<u8>>,
    i: int,
) -> Result<(), QueryFailure>
    decreases fields.len() - i,
{
    if i >= fields.len() {
        Ok(())
    } else {
        query_types::and_also(
            query_types::require(
                sorted_maps::lookup(catalog, fields[i]) is Some,
                QueryError::UnknownField { field_id: fields[i] },
            ),
            known_fields_check(catalog, fields, i + 1),
        )
    }
}

/// Checks that every field is in the catalog.
fn validate_known_fields(catalog: &FieldMap<QueryScalarType>, fields: &Vec<QueryFieldId>) -> (result:
    Result<(), QueryError>)
    ensures
        query_types::checked(result) == known_fields_check(
            catalog@,
            store_records::views(fields@),
            0,
        ),
{
    let ghost all = store_records::views(fields@);
    let mut i: usize = 0;
    while i < fields.len()
        invariant
            i <= fields@.len(),
            all == store_records::views(fields@),
            known_fields_check(catalog@, all, 0) == known_fields_check(catalog@, all, i as int),
        decreases fields@.len() - i,
    {
        assert(all[i as int] == fields@[i as int]@);
        if catalog.get(&fields[i]).is_none() {
            return Err(QueryError::UnknownField { field_id: fields[i].clone() });
        }
        i = i + 1;
    }
    Ok(())
}

/// The fields of a list of sorts.
pub open spec fn sort_fields(sort: Seq<QuerySortView>) -> Seq<Seq<u8>> {
    Seq::new(sort.len(), |i: int| sort[i].field_id)
}

/// Checks that every sort field is in the catalog.
fn validate_known_sorts(catalog: &FieldMap<QueryScalarType>, sort: &Vec<QuerySort>) -> (result:
    Result<(), QueryError>)
    ensures
        query_types::checked(result) == known_fields_check(
            catalog@,
            sort_fields(store_records::views(sort@)),
            0,
        ),
{
    let ghost all = sort_fields(store_records::views(sort@));
    let mut i: usize = 0;
    while i < sort.len()
        invariant
            i <= sort@.len(),
            all == sort_fields(store_records::views(sort@)),
            known_fields_check(catalog@, all, 0) == known_fields_check(catalog@, all, i as int),
        decreases sort@.len() - i,
    {
        assert(store_records::views(sort@)[i as int] == sort@[i as int]@);
        assert(all[i as int] == sort@[i as int].field_id@);
        if catalog.get(&sort[i].field_id).is_none() {
            return Err(QueryError::UnknownField { field_id: sort[i].field_id.clone() });
        }
        i = i + 1;
    }
    Ok(())
}

impl SearchRequestView {
    /// This request is well formed, before any row is read.
    pub open spec fn check(self) -> Result<(), QueryFailure> {
        query_types::and_also(
            page_check(self.limit),
            query_types::and_also(
                predicates_check(self.predicates),
                query_types::and_also(
                    bound_check(
                        "projection",
                        self.projection.len() as usize,
                        MAX_QUERY_PROJECTION_FIELDS,
                    ),
                    query_types::and_also(
                        bound_check("sort", self.sort.len() as usize, MAX_QUERY_SORT_FIELDS),
                        query_types::and_also(
                            bound_check(
                                "facets",
                                self.facets.len() as usize,
                                MAX_QUERY_FACET_FIELDS,
                            ),
                            query_types::and_also(
                                unique_check("projection", self.projection),
                                unique_check("facets", self.facets),
                            ),
                        ),
                    ),
                ),
            ),
        )
    }

    /// The fields of this request agree with the catalog.
    pub open spec fn fields_check(self, catalog: Seq<Entry<QueryScalarType>>) -> Result<
        (),
        QueryFailure,
    > {
        query_types::and_also(
            predicate_fields_check(catalog, self.predicates, 0),
            query_types::and_also(
                known_fields_check(catalog, self.projection, 0),
                query_types::and_also(
                    known_fields_check(catalog, self.facets, 0),
                    known_fields_check(catalog, sort_fields(self.sort), 0),
                ),
            ),
        )
    }
}

/// Checks a search request, before any row is read.
pub fn validate_search(request: &SearchRequest) -> (result: Result<(), QueryError>)
    ensures
        query_types::checked(result) == request@.check(),
{
    match validate_page(request.limit) {
        Ok(()) => {},
        Err(e) => {
            return Err(e);
        },
    }
    match validate_predicates(&request.predicates) {
        Ok(()) => {},
        Err(e) => {
            return Err(e);
        },
    }
    match validate_bound("projection", request.projection.len(), MAX_QUERY_PROJECTION_FIELDS) {
        Ok(()) => {},
        Err(e) => {
            return Err(e);
        },
    }
    match validate_bound("sort", request.sort.len(), MAX_QUERY_SORT_FIELDS) {
        Ok(()) => {},
        Err(e) => {
            return Err(e);
        },
    }
    match validate_bound("facets", request.facets.len(), MAX_QUERY_FACET_FIELDS) {
        Ok(()) => {},
        Err(e) => {
            return Err(e);
        },
    }
    match require_unique_fields("projection", &request.projection) {
        Ok(()) => {},
        Err(e) => {
            return Err(e);
        },
    }
    require_unique_fields("facets", &request.facets)
}

/// Checks the fields of a search request against the catalog.
pub fn validate_query_fields(catalog: &FieldMap<QueryScalarType>, request: &SearchRequest) -> (result:
    Result<(), QueryError>)
    ensures
        query_types::checked(result) == request@.fields_check(catalog@),
{
    match validate_predicate_fields(catalog, &request.predicates) {
        Ok(()) => {},
        Err(e) => {
            return Err(e);
        },
    }
    match validate_known_fields(catalog, &request.projection) {
        Ok(()) => {},
        Err(e) => {
            return Err(e);
        },
    }
    match validate_known_fields(catalog, &request.facets) {
        Ok(()) => {},
        Err(e) => {
            return Err(e);
        },
    }
    validate_known_sorts(catalog, &request.sort)
}

/// The result ids of a list of aggregates.
pub open spec fn result_ids(aggregates: Seq<AggregateSpecView>) -> Seq<Seq<u8>> {
    Seq::new(aggregates.len(), |i: int| aggregates[i].result_id)
}

/// The aggregates from `i` on have fresh result ids and the fields they need.
pub open spec fn aggregates_check(
    group_by: Seq<Seq<u8>>,
    aggregates: Seq<AggregateSpecView>,
    i: int,
) -> Result<(), QueryFailure>
    decreases aggregates.len() - i,
{
    if i >= aggregates.len() {
        Ok(())
    } else {
        let result_id = aggregates[i].result_id;
        if result_ids(aggregates).take(i).contains(result_id) {
            Err(QueryError::InvalidAggregate { result_id, reason: "result ids must be unique" })
        } else if group_by.contains(result_id) {
            Err(
                QueryError::InvalidAggregate {
                    result_id,
                    reason: "result id shadows a group field",
                },
            )
        } else if aggregates[i].function != AggregateFunction::Count && aggregates[i].field_id is None {
            Err(
                QueryError::InvalidAggregate {
                    result_id,
                    reason: "aggregate function requires a field",
                },
            )
        } else {
            aggregates_check(group_by, aggregates, i + 1)
        }
    }
}

/// Whether a field is a result id of the first `count` aggregates.
fn is_result(aggregates: &Vec<AggregateSpec>, count: usize, field: &QueryFieldId) -> (found: bool)
    requires
        count <= aggregates@.len(),
    ensures
        found == result_ids(store_records::views(aggregates@)).take(count as int).contains(field@),
{
    let mut i: usize = 0;
    let ghost all = result_ids(store_records::views(aggregates@)).take(count as int);
    while i < count
        invariant
            i <= count <= aggregates@.len(),
            all == result_ids(store_records::views(aggregates@)).take(count as int),
            forall|j: int| 0 <= j < i ==> #[trigger] all[j] != field@,
        decreases count - i,
    {
        assert(store_records::views(aggregates@)[i as int] == aggregates@[i as int]@);
        assert(all[i as int] == aggregates@[i as int].result_id@);
        if aggregates[i].result_id.same(field) {
            assert(all.contains(field@));
            return true;
        }
        i = i + 1;
    }
    false
}

/// Whether a field is listed.
fn is_listed(fields: &Vec<QueryFieldId>, field: &QueryFieldId) -> (found: bool)
    ensures
        found == store_records::views(fields@).contains(field@),
{
    proof {
        let all = store_records::views(fields@);
        assert(all.take(all.len() as int) =~= all);
    }
    listed(fields, fields.len(), field)
}

/// Checks the result ids and fields of the aggregates.
pub fn validate_aggregates(request: &AggregateRequest) -> (result: Result<(), QueryError>)
    ensures
        query_types::checked(result) == aggregates_check(
            request@.group_by,
            request@.aggregates,
            0,
        ),
{
    let ghost groups = request@.group_by;
    let ghost all = request@.aggregates;
    let mut i: usize = 0;
    while i < request.aggregates.len()
        invariant
            i <= request.aggregates@.len(),
            groups == request@.group_by,
            all == request@.aggregates,
            aggregates_check(groups, all, 0) == aggregates_check(groups, all, i as int),
        decreases request.aggregates@.len() - i,
    {
        let aggregate = &request.aggregates[i];
        assert(all[i as int] == aggregate@);
        if is_result(&request.aggregates, i, &aggregate.result_id) {
            return Err(
                QueryError::InvalidAggregate {
                    result_id: aggregate.result_id.clone(),
                    reason: "result ids must be unique",
                },
            );
        }
        if is_listed(&request.group_by, &aggregate.result_id) {
            return Err(
                QueryError::InvalidAggregate {
                    result_id: aggregate.result_id.clone(),
                    reason: "result id shadows a group field",
                },
            );
        }
        if aggregate.function != AggregateFunction::Count && aggregate.field_id.is_none() {
            return Err(
                QueryError::InvalidAggregate {
                    result_id: aggregate.result_id.clone(),
                    reason: "aggregate function requires a field",
                },
            );
        }
        i = i + 1;
    }
    Ok(())
}

/// The field of one aggregate is known and has a type that the function takes.
pub open spec fn aggregate_field_check(
    catalog: Seq<Entry<QueryScalarType>>,
    aggregate: AggregateSpecView,
) -> Result<(), QueryFailure> {
    match aggregate.field_id {
        None => Ok(()),
        Some(field_id) => match sorted_maps::lookup(catalog, field_id) {
            None => Err(QueryError::UnknownField { field_id }),
            Some(scalar_type) => match aggregate.function {
                AggregateFunction::Sum | AggregateFunction::Average => query_types::require(
                    is_numeric(scalar_type),
                    QueryError::InvalidAggregate {
                        result_id: aggregate.result_id,
                        reason: "sum and average require a numeric field",
                    },
                ),
                AggregateFunction::Minimum | AggregateFunction::Maximum => query_types::require(
                    scalar_type != QueryScalarType::Null,
                    QueryError::InvalidAggregate {
                        result_id: aggregate.result_id,
                        reason: "minimum and maximum require a sortable field",
                    },
                ),
                AggregateFunction::Count => Ok(()),
            },
        },
    }
}

/// The aggregates from `i` on agree with the catalog.
pub open spec fn aggregate_fields_check(
    catalog: Seq<Entry<QueryScalarType>>,
    aggregates: Seq<AggregateSpecView>,
    i: int,
) -> Result<(), QueryFailure>
    decreases aggregates.len() - i,
{
    if i >= aggregates.len() {
        Ok(())
    } else {
        query_types::and_also(
            aggregate_field_check(catalog, aggregates[i]),
            aggregate_fields_check(catalog, aggregates, i + 1),
        )
    }
}

/// The sort fields from `i` on name a group field or a result.
pub open spec fn group_sorts_check(
    group_by: Seq<Seq<u8>>,
    results: Seq<Seq<u8>>,
    sort: Seq<QuerySortView>,
    i: int,
) -> Result<(), QueryFailure>
    decreases sort.len() - i,
{
    if i >= sort.len() {
        Ok(())
    } else {
        query_types::and_also(
            query_types::require(
                group_by.contains(sort[i].field_id) || results.contains(sort[i].field_id),
                QueryError::UnknownField { field_id: sort[i].field_id },
            ),
            group_sorts_check(group_by, results, sort, i + 1),
        )
    }
}

impl AggregateRequestView {
    /// This request is well formed, before any row is read.
    pub open spec fn check(self) -> Result<(), QueryFailure> {
        query_types::and_also(
            page_check(self.limit),
            query_types::and_also(
                predicates_check(self.predicates),
                query_types::and_also(
                    bound_check("group_by", self.group_by.len() as usize, MAX_QUERY_GROUP_FIELDS),
                    query_types::and_also(
                        bound_check(
                            "aggregates",
                            self.aggregates.len() as usize,
                            MAX_QUERY_AGGREGATES,
                        ),
                        query_types::and_also(
                            bound_check("sort", self.sort.len() as usize, MAX_QUERY_SORT_FIELDS),
                            query_types::and_also(
                                query_types::require(
                                    self.aggregates.len() > 0,
                                    QueryError::BoundExceeded {
                                        field: "aggregates",
                                        count: 0,
                                        max: MAX_QUERY_AGGREGATES,
                                    },
                                ),
                                query_types::and_also(
                                    unique_check("group_by", self.group_by),
                                    aggregates_check(self.group_by, self.aggregates, 0),
                                ),
                            ),
                        ),
                    ),
                ),
            ),
        )
    }

    /// The fields of this request agree with the catalog.
    pub open spec fn fields_check(self, catalog: Seq<Entry<QueryScalarType>>) -> Result<
        (),
        QueryFailure,
    > {
        query_types::and_also(
            predicate_fields_check(catalog, self.predicates, 0),
            query_types::and_also(
                known_fields_check(catalog, self.group_by, 0),
                query_types::and_also(
                    aggregate_fields_check(catalog, self.aggregates, 0),
                    group_sorts_check(
                        self.group_by,
                        result_ids(self.aggregates),
                        self.sort,
                        0,
                    ),
                ),
            ),
        )
    }
}

/// Checks an aggregate request, before any row is read.
pub fn validate_aggregate(request: &AggregateRequest) -> (result: Result<(), QueryError>)
    ensures
        query_types::checked(result) == request@.check(),
{
    match validate_page(request.limit) {
        Ok(()) => {},
        Err(e) => {
            return Err(e);
        },
    }
    match validate_predicates(&request.predicates) {
        Ok(()) => {},
        Err(e) => {
            return Err(e);
        },
    }
    match validate_bound("group_by", request.group_by.len(), MAX_QUERY_GROUP_FIELDS) {
        Ok(()) => {},
        Err(e) => {
            return Err(e);
        },
    }
    match validate_bound("aggregates", request.aggregates.len(), MAX_QUERY_AGGREGATES) {
        Ok(()) => {},
        Err(e) => {
            return Err(e);
        },
    }
    match validate_bound("sort", request.sort.len(), MAX_QUERY_SORT_FIELDS) {
        Ok(()) => {},
        Err(e) => {
            return Err(e);
        },
    }
    if request.aggregates.len() == 0 {
        return Err(
            QueryError::BoundExceeded {
                field: "aggregates",
                count: 0,
                max: MAX_QUERY_AGGREGATES,
            },
        );
    }
    match require_unique_fields("group_by", &request.group_by) {
        Ok(()) => {},
        Err(e) => {
            return Err(e);
        },
    }
    validate_aggregates(request)
}

/// Checks the field of one aggregate against the catalog.
fn validate_aggregate_field(catalog: &FieldMap<QueryScalarType>, aggregate: &AggregateSpec) -> (result:
    Result<(), QueryError>)
    ensures
        query_types::checked(result) == aggregate_field_check(catalog@, aggregate@),
{
    let field = match &aggregate.field_id {
        None => {
            return Ok(());
        },
        Some(field) => field,
    };
    let scalar_type = match catalog.get(field) {
        Some(scalar_type) => *scalar_type,
        None => {
            return Err(QueryError::UnknownField { field_id: field.clone() });
        },
    };
    let numeric: bool = scalar_type == QueryScalarType::Signed || scalar_type
        == QueryScalarType::Unsigned || scalar_type == QueryScalarType::Float;
    match aggregate.function {
        AggregateFunction::Sum | AggregateFunction::Average => {
            if numeric {
                Ok(())
            } else {
                Err(
                    QueryError::InvalidAggregate {
                        result_id: aggregate.result_id.clone(),
                        reason: "sum and average require a numeric field",
                    },
                )
            }
        },
        AggregateFunction::Minimum | AggregateFunction::Maximum => {
            if scalar_type != QueryScalarType::Null {
                Ok(())
            } else {
                Err(
                    QueryError::InvalidAggregate {
                        result_id: aggregate.result_id.clone(),
                        reason: "minimum and maximum require a sortable field",
                    },
                )
            }
        },
        AggregateFunction::Count => Ok(()),
    }
}

/// Checks the sort fields of an aggregate request.
fn validate_group_sorts(request: &AggregateRequest) -> (result: Result<(), QueryError>)
    ensures
        query_types::checked(result) == group_sorts_check(
            request@.group_by,
            result_ids(request@.aggregates),
            request@.sort,
            0,
        ),
{
    let ghost groups = request@.group_by;
    let ghost results = result_ids(request@.aggregates);
    let ghost all = request@.sort;
    let mut i: usize = 0;
    while i < request.sort.len()
        invariant
            i <= request.sort@.len(),
            groups == request@.group_by,
            results == result_ids(request@.aggregates),
            all == request@.sort,
            group_sorts_check(groups, results, all, 0) == group_sorts_check(
                groups,
                results,
                all,
                i as int,
            ),
        decreases request.sort@.len() - i,
    {
        let sort = &request.sort[i];
        proof {
            assert(all[i as int] == sort@);
            assert(results.take(results.len() as int) =~= results);
        }
        if !is_listed(&request.group_by, &sort.field_id) && !is_result(
            &request.aggregates,
            request.aggregates.len(),
            &sort.field_id,
        ) {
            return Err(QueryError::UnknownField { field_id: sort.field_id.clone() });
        }
        i = i + 1;
    }
    Ok(())
}

/// Checks the fields of an aggregate request against the catalog.
pub fn validate_aggregate_fields(
    catalog: &FieldMap<QueryScalarType>,
    request: &AggregateRequest,
) -> (result: Result<(), QueryError>)
    ensures
        query_types::checked(result) == request@.fields_check(catalog@),
{
    match validate_predicate_fields(catalog, &request.predicates) {
        Ok(()) => {},
        Err(e) => {
            return Err(e);
        },
    }
    match validate_known_fields(catalog, &request.group_by) {
        Ok(()) => {},
        Err(e) => {
            return Err(e);
        },
    }
    match validate_aggregate_list(catalog, &request.aggregates) {
        Ok(()) => {},
        Err(e) => {
            return Err(e);
        },
    }
    validate_group_sorts(request)
}

/// Checks the fields of all aggregates against the catalog.
fn validate_aggregate_list(catalog: &FieldMap<QueryScalarType>, aggregates: &Vec<AggregateSpec>) -> (
    result: Result<(), QueryError>)
    ensures
        query_types::checked(result) == aggregate_fields_check(
            catalog@,
            store_records::views(aggregates@),
            0,
        ),
{
    let ghost all = store_records::views(aggregates@);
    let mut i: usize = 0;
    while i < aggregates.len()
        invariant
            i <= aggregates@.len(),
            all == store_records::views(aggregates@),
            aggregate_fields_check(catalog@, all, 0) == aggregate_fields_check(
                catalog@,
                all,
                i as int,
            ),
        decreases aggregates@.len() - i,
    {
        assert(all[i as int] == aggregates@[i as int]@);
        match validate_aggregate_field(catalog, &aggregates[i]) {
            Ok(()) => {},
            Err(e) => {
                return Err(e);
            },
        }
        i = i + 1;
    }
    Ok(())
}

} // verus!
