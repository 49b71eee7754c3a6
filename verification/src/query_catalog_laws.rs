//! What a field catalog lists.
//!
//! A catalog holds the eight built-in fields and every field that a row of the
//! scope carries, each with the one type that all rows give it.

use vstd::prelude::*;

use crate::bytes;
use crate::query_catalog;
use crate::query_discovery;
use crate::query_rows::{CollectedRowsView, RowView};
use crate::query_types::{CatalogFieldView, CatalogRequestView, QueryOperator};
use crate::scalars::{QueryScalarType, QueryScalarView};
use crate::sorted_maps;
use crate::sorted_maps::Entry;

verus! {

/// The field is one of the eight built-in ones.
pub open spec fn is_builtin(field: Seq<u8>) -> bool {
    ||| field == bytes::utf8("workbench_id"@)
    ||| field == bytes::utf8("path"@)
    ||| field == bytes::utf8("generation"@)
    ||| field == bytes::utf8("logical_size"@)
    ||| field == bytes::utf8("body_digest_uri"@)
    ||| field == bytes::utf8("content_type"@)
    ||| field == bytes::utf8("producer"@)
    ||| field == bytes::utf8("manifest_id"@)
}

/// Generation and size are unsigned integers; the other built-in fields are text.
pub proof fn builtin_fields_have_their_types(rows: Seq<RowView>, field: Seq<u8>)
    requires
        is_builtin(field),
    ensures
        query_catalog::catalog_type(rows, field) == Some(
            if field == bytes::utf8("generation"@) || field == bytes::utf8("logical_size"@) {
                QueryScalarType::Unsigned
            } else {
                QueryScalarType::String
            },
        ),
{
    crate::query_predicate_laws::builtin_names_are_distinct();
}

/// The row carries the field with a value of the type.
pub open spec fn carries(row: RowView, field: Seq<u8>, scalar_type: QueryScalarType) -> bool {
    exists|k: int|
        0 <= k < row.projection.len() && (#[trigger] row.projection[k]).0 == field
            && row.projection[k].1.scalar_type() == scalar_type
}

/// A row carries what is found in its projection.
proof fn carried_fields_are_found(row: RowView, field: Seq<u8>, scalar_type: QueryScalarType)
    requires
        sorted_maps::ascending(row.projection),
    ensures
        carries(row, field, scalar_type) <==> (sorted_maps::lookup(row.projection, field)
            matches Some(value) && value.scalar_type() == scalar_type),
{
    let entries = row.projection;
    if carries(row, field, scalar_type) {
        let k = choose|k: int|
            0 <= k < entries.len() && (#[trigger] entries[k]).0 == field
                && entries[k].1.scalar_type() == scalar_type;
        sorted_maps::lookup_finds(entries, k);
    }
    if let Some(value) = sorted_maps::lookup(entries, field) {
        sorted_maps::lookup_is_entry(entries, field);
        let k = choose|k: int| 0 <= k < entries.len() && #[trigger] entries[k] == (field, value);
        assert(entries[k].0 == field && entries[k].1 == value);
    }
}

/// The projections of the rows hold each field once, in order.
pub open spec fn projections_ascend(rows: Seq<RowView>) -> bool {
    forall|i: int| 0 <= i < rows.len() ==> sorted_maps::ascending((#[trigger] rows[i]).projection)
}

/// A field that no row carries has no type but that of a built-in one, and a field
/// that rows carry has the type that the first of them gives it.
pub proof fn catalogs_hold_the_carried_fields(rows: Seq<RowView>, field: Seq<u8>)
    requires
        projections_ascend(rows),
        !is_builtin(field),
    ensures
        match query_catalog::catalog_type(rows, field) {
            None => forall|i: int, scalar_type: QueryScalarType|
                0 <= i < rows.len() ==> !#[trigger] carries(rows[i], field, scalar_type),
            Some(found) => exists|i: int|
                0 <= i < rows.len() && #[trigger] carries(rows[i], field, found) && forall|
                    j: int,
                    scalar_type: QueryScalarType,
                |
                    0 <= j < i ==> !#[trigger] carries(rows[j], field, scalar_type),
        },
    decreases rows.len(),
{
    if rows.len() > 0 {
        let shorter = rows.drop_last();
        let n = rows.len() - 1;
        assert forall|i: int| 0 <= i < shorter.len() implies sorted_maps::ascending(
            (#[trigger] shorter[i]).projection,
        ) by {
            assert(shorter[i] == rows[i]);
        }
        catalogs_hold_the_carried_fields(shorter, field);
        assert(sorted_maps::ascending(rows[n].projection));
        assert forall|scalar_type: QueryScalarType|
            #[trigger] carries(rows[n], field, scalar_type) <==> (sorted_maps::lookup(
                rows[n].projection,
                field,
            ) matches Some(value) && value.scalar_type() == scalar_type) by {
            carried_fields_are_found(rows[n], field, scalar_type);
        }
        match query_catalog::first_type(shorter, field) {
            Some(found) => {
                let i = choose|i: int|
                    0 <= i < shorter.len() && #[trigger] carries(shorter[i], field, found)
                        && forall|j: int, scalar_type: QueryScalarType|
                        0 <= j < i ==> !#[trigger] carries(shorter[j], field, scalar_type);
                assert(carries(rows[i], field, found));
                assert forall|j: int, scalar_type: QueryScalarType|
                    0 <= j < i implies !#[trigger] carries(rows[j], field, scalar_type) by {
                    assert(!carries(shorter[j], field, scalar_type));
                }
            },
            None => {
                assert forall|j: int, scalar_type: QueryScalarType|
                    0 <= j < n implies !#[trigger] carries(rows[j], field, scalar_type) by {
                    assert(!carries(shorter[j], field, scalar_type));
                }
                if let Some(value) = sorted_maps::lookup(rows[n].projection, field) {
                    assert(carries(rows[n], field, value.scalar_type()));
                }
            },
        }
    }
}

/// Every row gives each of its fields the type that the field has in the catalog.
pub open spec fn types_agree(rows: Seq<RowView>) -> bool {
    forall|i: int, k: int|
        #![trigger rows[i].projection[k]]
        0 <= i < rows.len() && 0 <= k < rows[i].projection.len() ==> query_catalog::catalog_type(
            rows,
            rows[i].projection[k].0,
        ) == Some(rows[i].projection[k].1.scalar_type())
}

/// The check of the fields of one row.
proof fn row_checks_are_exact(
    before: Seq<RowView>,
    entries: Seq<Entry<QueryScalarView>>,
    n: int,
)
    requires
        0 <= n,
    ensures
        query_catalog::row_types_check(before, entries, n) is Ok <==> forall|k: int|
            n <= k < entries.len() ==> (query_catalog::catalog_type(
                before,
                (#[trigger] entries[k]).0,
            ) matches Some(found) ==> found == entries[k].1.scalar_type()),
    decreases entries.len() - n,
{
    if n < entries.len() {
        row_checks_are_exact(before, entries, n + 1);
    }
}

/// Rows have a catalog exactly where no field has two types: not in two rows, and
/// not in a row and as a built-in field.
pub proof fn catalogs_are_of_one_type(rows: Seq<RowView>)
    requires
        projections_ascend(rows),
    ensures
        query_catalog::catalog_check(rows) is Ok <==> types_agree(rows),
    decreases rows.len(),
{
    if rows.len() > 0 {
        let shorter = rows.drop_last();
        let n = rows.len() - 1;
        let entries = rows[n].projection;
        assert forall|i: int| 0 <= i < shorter.len() implies sorted_maps::ascending(
            (#[trigger] shorter[i]).projection,
        ) by {
            assert(shorter[i] == rows[i]);
        }
        catalogs_are_of_one_type(shorter);
        row_checks_are_exact(shorter, entries, 0);
        assert(sorted_maps::ascending(rows[n].projection));
        if query_catalog::catalog_check(rows) is Ok {
            assert forall|i: int, k: int|
                #![trigger rows[i].projection[k]]
                0 <= i < rows.len() && 0 <= k < rows[i].projection.len() implies
                query_catalog::catalog_type(rows, rows[i].projection[k].0) == Some(
                rows[i].projection[k].1.scalar_type(),
            ) by {
                if i < n {
                    assert(shorter[i] == rows[i]);
                    assert(query_catalog::catalog_type(shorter, shorter[i].projection[k].0) == Some(
                        shorter[i].projection[k].1.scalar_type(),
                    ));
                } else {
                    sorted_maps::lookup_finds(entries, k);
                    assert(entries[k] == rows[i].projection[k]);
                }
            }
        }
        if types_agree(rows) {
            assert forall|i: int, k: int|
                #![trigger shorter[i].projection[k]]
                0 <= i < shorter.len() && 0 <= k < shorter[i].projection.len() implies
                query_catalog::catalog_type(shorter, shorter[i].projection[k].0) == Some(
                shorter[i].projection[k].1.scalar_type(),
            ) by {
                let field = shorter[i].projection[k].0;
                assert(rows[i] == shorter[i]);
                assert(query_catalog::catalog_type(rows, rows[i].projection[k].0) == Some(
                    rows[i].projection[k].1.scalar_type(),
                ));
                carried_fields_have_a_type(shorter, i, k);
            }
            assert forall|k: int| 0 <= k < entries.len() implies (query_catalog::catalog_type(
                shorter,
                (#[trigger] entries[k]).0,
            ) matches Some(found) ==> found == entries[k].1.scalar_type()) by {
                assert(rows[n].projection[k] == entries[k]);
            }
        }
    }
}

/// A field that a row carries has a type.
proof fn carried_fields_have_a_type(rows: Seq<RowView>, i: int, k: int)
    requires
        projections_ascend(rows),
        0 <= i < rows.len(),
        0 <= k < rows[i].projection.len(),
    ensures
        query_catalog::catalog_type(rows, rows[i].projection[k].0) is Some,
    decreases rows.len(),
{
    let shorter = rows.drop_last();
    if i < rows.len() - 1 {
        assert forall|i: int| 0 <= i < shorter.len() implies sorted_maps::ascending(
            (#[trigger] shorter[i]).projection,
        ) by {
            assert(shorter[i] == rows[i]);
        }
        assert(shorter[i] == rows[i]);
        carried_fields_have_a_type(shorter, i, k);
    } else {
        assert(sorted_maps::ascending(rows[i].projection));
        sorted_maps::lookup_finds(rows[i].projection, k);
    }
}

/// The field is listed as its type allows: every operator but the text ones for
/// every type, those for text and bytes; sortable unless null, aggregatable where
/// numeric, and always facetable.
pub open spec fn is_listed_as(field: CatalogFieldView, scalar_type: QueryScalarType) -> bool {
    &&& field.scalar_type == scalar_type
    &&& field.sortable == !(scalar_type is Null)
    &&& field.facetable
    &&& field.aggregatable == (scalar_type is Signed || scalar_type is Unsigned
        || scalar_type is Float)
    &&& forall|operator: QueryOperator|
        #[trigger] field.operators.contains(operator) <==> ((operator is Prefix || operator is Suffix
            || operator is Contains) ==> scalar_type is String || scalar_type is Bytes)
}

/// The id begins with the prefix, where there is one.
pub open spec fn begins_with(field: Seq<u8>, prefix: Option<Seq<u8>>) -> bool {
    prefix matches Some(prefix) ==> prefix.len() <= field.len() && forall|i: int|
        0 <= i < prefix.len() ==> #[trigger] field[i] == prefix[i]
}

/// What has a prefix.
proof fn prefixes_are_exact(field: Seq<u8>, prefix: Seq<u8>)
    ensures
        bytes::has_prefix(field, prefix) <==> begins_with(field, Some(prefix)),
{
    if bytes::has_prefix(field, prefix) {
        assert forall|i: int| 0 <= i < prefix.len() implies #[trigger] field[i] == prefix[i] by {
            assert(field.take(prefix.len() as int)[i] == field[i]);
        }
    }
    if begins_with(field, Some(prefix)) {
        assert(field.take(prefix.len() as int) =~= prefix);
    }
}

/// The listed fields of a catalog.
proof fn listings_are_exact(catalog: Seq<Entry<QueryScalarType>>, prefix: Option<Seq<u8>>)
    ensures
        ({
            let listed = query_discovery::listed_fields(catalog, prefix);
            &&& forall|i: int|
                0 <= i < listed.len() ==> begins_with((#[trigger] listed[i]).field_id, prefix)
                    && is_listed_as(listed[i], listed[i].scalar_type) && catalog.contains(
                    (listed[i].field_id, listed[i].scalar_type),
                )
            &&& forall|n: int|
                0 <= n < catalog.len() && begins_with((#[trigger] catalog[n]).0, prefix)
                    ==> exists|i: int|
                    0 <= i < listed.len() && (#[trigger] listed[i]).field_id == catalog[n].0
                        && listed[i].scalar_type == catalog[n].1
        }),
    decreases catalog.len(),
{
    if catalog.len() > 0 {
        let shorter = catalog.drop_last();
        let n = catalog.len() - 1;
        let entry = catalog[n];
        assert(entry == catalog.last());
        let listed = query_discovery::listed_fields(catalog, prefix);
        let before = query_discovery::listed_fields(shorter, prefix);
        listings_are_exact(shorter, prefix);
        if let Some(prefix) = prefix {
            prefixes_are_exact(entry.0, prefix);
        }
        let shown = query_catalog::capabilities(entry);
        assert(is_listed_as(shown, entry.1)) by {
            assert forall|operator: QueryOperator|
                #[trigger] shown.operators.contains(operator) <==> ((operator is Prefix
                    || operator is Suffix || operator is Contains) ==> entry.1 is String
                    || entry.1 is Bytes) by {
                query_catalog::advertised_operators_are_supported(entry.1, operator);
            }
        }
        assert forall|i: int| 0 <= i < listed.len() implies begins_with(
            (#[trigger] listed[i]).field_id,
            prefix,
        ) && is_listed_as(listed[i], listed[i].scalar_type) && catalog.contains(
            (listed[i].field_id, listed[i].scalar_type),
        ) by {
            if i < before.len() {
                assert(listed[i] == before[i]);
                let pair = (before[i].field_id, before[i].scalar_type);
                let k = choose|k: int| 0 <= k < shorter.len() && shorter[k] == pair;
                assert(catalog[k] == pair);
            } else {
                assert(listed[i] == shown);
                assert(catalog[n] == (shown.field_id, shown.scalar_type));
            }
        }
        assert forall|k: int|
            0 <= k < catalog.len() && begins_with((#[trigger] catalog[k]).0, prefix) implies
            exists|i: int|
                0 <= i < listed.len() && (#[trigger] listed[i]).field_id == catalog[k].0
                    && listed[i].scalar_type == catalog[k].1 by {
            if k < n {
                assert(shorter[k] == catalog[k]);
                let i = choose|i: int|
                    0 <= i < before.len() && (#[trigger] before[i]).field_id == shorter[k].0
                        && before[i].scalar_type == shorter[k].1;
                assert(listed[i] == before[i]);
            } else {
                assert(listed[listed.len() - 1] == shown);
            }
        }
    }
}

/// A catalog page holds nothing but fields of the catalog whose ids begin with the
/// prefix, listed as their types allow. A first page that has no cursor holds every
/// such field. Where nothing of the scope is visible, it is empty.
pub proof fn catalog_pages_list_the_fields(
    collected: CollectedRowsView,
    request: CatalogRequestView,
    read_version: u64,
)
    requires
        request.cursor is None,
        query_discovery::catalog_fields(collected, request, read_version) is Ok,
    ensures
        ({
            let page = query_discovery::catalog_fields(collected, request, read_version)->Ok_0;
            &&& page.read_version == read_version
            &&& page.fields.len() <= request.limit
            &&& page.next_cursor is Some ==> page.fields.len() == request.limit
            &&& !collected.scope_visible ==> page.fields.len() == 0 && page.next_cursor is None
            &&& forall|i: int|
                0 <= i < page.fields.len() ==> begins_with(
                    (#[trigger] page.fields[i]).field_id,
                    request.field_prefix,
                ) && is_listed_as(page.fields[i], page.fields[i].scalar_type)
                    && query_catalog::catalog_type(collected.rows, page.fields[i].field_id) == Some(
                    page.fields[i].scalar_type,
                )
            &&& collected.scope_visible && page.next_cursor is None ==> forall|field: Seq<u8>|
                (#[trigger] query_catalog::catalog_type(collected.rows, field)) is Some
                    && begins_with(field, request.field_prefix) ==> exists|i: int|
                    0 <= i < page.fields.len() && (#[trigger] page.fields[i]).field_id == field
        }),
{
    let page = query_discovery::catalog_fields(collected, request, read_version)->Ok_0;
    let prefix = request.field_prefix;
    let listing = query_discovery::catalog_listing(collected, prefix);
    let catalog = query_catalog::catalog_of(collected.rows);
    query_catalog::catalog_exists(collected.rows);
    listings_are_exact(catalog, prefix);
    assert forall|i: int| 0 <= i < page.fields.len() implies #[trigger] page.fields[i]
        == listing[i] by {}
    if collected.scope_visible {
        assert forall|i: int| 0 <= i < page.fields.len() implies begins_with(
            (#[trigger] page.fields[i]).field_id,
            prefix,
        ) && is_listed_as(page.fields[i], page.fields[i].scalar_type)
            && query_catalog::catalog_type(collected.rows, page.fields[i].field_id) == Some(
            page.fields[i].scalar_type,
        ) by {
            let shown = listing[i];
            let pair = (shown.field_id, shown.scalar_type);
            assert(catalog.contains(pair));
            let k = choose|k: int| 0 <= k < catalog.len() && catalog[k] == pair;
            sorted_maps::lookup_finds(catalog, k);
            assert(sorted_maps::lookup(catalog, shown.field_id) == query_catalog::catalog_type(
                collected.rows,
                shown.field_id,
            ));
        }
        if page.next_cursor is None {
            assert forall|field: Seq<u8>|
                (#[trigger] query_catalog::catalog_type(collected.rows, field)) is Some
                    && begins_with(field, prefix) implies exists|i: int|
                0 <= i < page.fields.len() && (#[trigger] page.fields[i]).field_id == field by {
                assert(sorted_maps::lookup(catalog, field) == query_catalog::catalog_type(
                    collected.rows,
                    field,
                ));
                sorted_maps::lookup_is_entry(catalog, field);
                let found = sorted_maps::lookup(catalog, field)->0;
                let n = choose|n: int|
                    0 <= n < catalog.len() && #[trigger] catalog[n] == (field, found);
                let i = choose|i: int|
                    0 <= i < listing.len() && (#[trigger] listing[i]).field_id == catalog[n].0
                        && listing[i].scalar_type == catalog[n].1;
                assert(page.fields[i] == listing[i]);
            }
        }
    }
}

} // verus!
