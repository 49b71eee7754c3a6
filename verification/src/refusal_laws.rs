//! What a refusal tells: which fault it was, and of what.

use vstd::prelude::*;

use crate::generic_index_records::{
    GenericIndexAppendReceiptRecordView, GenericIndexFailure, GenericIndexFieldCapabilityView,
    GenericIndexFieldValuesView, GenericIndexGenerationRecordView, GenericIndexRecordError,
};
use crate::generic_index_valid_laws;
use crate::generic_index_validate;
use crate::namespace;
use crate::namespace::ScannedPathView;
use crate::namespace_types::{NamespaceError, NamespaceFailure, VisiblePathPageView};
use crate::publish_records::{PublishFailure, PublishRecordError};
use crate::publish_validate;
use crate::query_catalog;
use crate::query_cursor;
use crate::query_cursor::CursorView;
use crate::query_cursor_laws;
use crate::query_rows::RowView;
use crate::query_tally;
use crate::query_types::{
    AggregateSpecView, QueryError, QueryFailure, QueryPredicateView, QuerySortView,
};
use crate::scalars::{QueryScalarType, QueryScalarView};
use crate::sorted_maps;
use crate::sorted_maps::Entry;
use crate::states::WorkspaceState;
use crate::store_records::{PathEntryView, StoreFailure, WorkspaceRecordView};

verus! {

/// A page limit outside 1 to 256 is refused with the limit that was asked for.
pub proof fn wrong_query_limits_are_told(limit: usize)
    ensures
        1 <= limit <= 256 ==> query_catalog::page_check(limit) is Ok,
        !(1 <= limit <= 256) ==> query_catalog::page_check(limit) == Err::<(), QueryFailure>(
            QueryError::InvalidLimit { requested: limit, max: 256 },
        ),
{
}

/// A predicate or an aggregate over a field that no row has is refused with
/// that field; any other refusal of it is one of the predicate, with its field,
/// or of the aggregate, with its result.
pub proof fn unknown_fields_are_told(
    catalog: Seq<Entry<QueryScalarType>>,
    predicate: QueryPredicateView,
    aggregate: AggregateSpecView,
)
    ensures
        ({
            let known = sorted_maps::lookup(catalog, predicate.field_id) is Some;
            let refused = query_catalog::predicate_field_check(catalog, predicate);
            &&& !known ==> refused == Err::<(), QueryFailure>(
                QueryError::UnknownField { field_id: predicate.field_id },
            )
            &&& known ==> (refused matches Err(failure) ==> (
            failure matches QueryError::InvalidPredicate { field_id, .. } && field_id
                == predicate.field_id))
        }),
        aggregate.field_id matches Some(field) ==> {
            let known = sorted_maps::lookup(catalog, field) is Some;
            let refused = query_catalog::aggregate_field_check(catalog, aggregate);
            &&& !known ==> refused == Err::<(), QueryFailure>(
                QueryError::UnknownField { field_id: field },
            )
            &&& known ==> (refused matches Err(failure) ==> (
            failure matches QueryError::InvalidAggregate { result_id, .. } && result_id
                == aggregate.result_id))
        },
{
}

/// Groups are sorted by a field or a result that they do not have only to be
/// refused with the first such name.
pub proof fn unknown_sorts_are_told(
    group_by: Seq<Seq<u8>>,
    results: Seq<Seq<u8>>,
    sort: Seq<QuerySortView>,
    i: int,
)
    requires
        0 <= i <= sort.len(),
    ensures
        query_catalog::group_sorts_check(group_by, results, sort, i) matches Err(failure) ==> exists|
            k: int,
        |
            i <= k < sort.len() && failure == (QueryFailure::UnknownField {
                field_id: (#[trigger] sort[k]).field_id,
            }) && !group_by.contains(sort[k].field_id) && !results.contains(sort[k].field_id)
                && forall|j: int|
                i <= j < k ==> group_by.contains((#[trigger] sort[j]).field_id)
                    || results.contains(sort[j].field_id),
    decreases sort.len() - i,
{
    if i < sort.len() {
        if group_by.contains(sort[i].field_id) || results.contains(sort[i].field_id) {
            unknown_sorts_are_told(group_by, results, sort, i + 1);
        } else {
            assert(sort[i].field_id == sort[i].field_id);
        }
    }
}

/// Fields of two types are refused with the first such field of the row, the
/// type that it had before, and the one that the row gives it.
pub proof fn conflicting_types_are_told(
    before: Seq<RowView>,
    entries: Seq<Entry<QueryScalarView>>,
    i: int,
)
    requires
        0 <= i <= entries.len(),
    ensures
        query_catalog::row_types_check(before, entries, i) matches Err(failure) ==> exists|k: int|
            i <= k < entries.len() && query_catalog::catalog_type(
                before,
                (#[trigger] entries[k]).0,
            ) is Some && query_catalog::catalog_type(before, entries[k].0)->0
                != entries[k].1.scalar_type() && failure == (QueryFailure::FieldTypeConflict {
                field_id: entries[k].0,
                left: query_catalog::catalog_type(before, entries[k].0)->0,
                right: entries[k].1.scalar_type(),
            }),
    decreases entries.len() - i,
{
    if i < entries.len() {
        conflicting_types_are_told(before, entries, i + 1);
        assert(entries[i].0 == entries[i].0);
    }
}

/// A sum fails with an overflow only of integers, and otherwise because its
/// values are not of one numeric type; either way with its result.
pub proof fn failed_sums_are_told(result_id: Seq<u8>, list: Seq<QueryScalarView>)
    ensures
        query_tally::sum_of(result_id, list) matches Err(failure) ==> (match failure {
            QueryError::AggregateOverflow { result_id: told } => told == result_id,
            QueryError::InvalidAggregate { result_id: told, .. } => told == result_id,
            _ => false,
        }),
        (forall|i: int| 0 <= i < list.len() ==> (#[trigger] list[i]) is Unsigned) || (forall|
            i: int,
        |
            0 <= i < list.len() ==> (#[trigger] list[i]) is Signed) ==> (query_tally::sum_of(
            result_id,
            list,
        ) matches Err(failure) ==> failure == (QueryFailure::AggregateOverflow { result_id })),
        (forall|i: int| 0 <= i < list.len() ==> (#[trigger] list[i]) is Unsigned) ==> (
        query_tally::sum_of(result_id, list) matches Ok(sum) ==> (if list.len() == 0 {
            sum is Empty
        } else {
            sum is Unsigned
        })),
        (forall|i: int| 0 <= i < list.len() ==> (#[trigger] list[i]) is Signed) ==> (
        query_tally::sum_of(result_id, list) matches Ok(sum) ==> (if list.len() == 0 {
            sum is Empty
        } else {
            sum is Signed
        })),
    decreases list.len(),
{
    if list.len() > 0 {
        let shorter = list.drop_last();
        failed_sums_are_told(result_id, shorter);
        assert(forall|i: int| 0 <= i < shorter.len() ==> #[trigger] shorter[i] == list[i]);
        assert(list.last() == list[list.len() - 1]);
    }
}

/// Bytes that are too many for a cursor are refused with their number; a cursor
/// of this request whose item is gone is refused as such.
pub proof fn useless_cursors_are_told(
    b: Seq<u8>,
    cursor: CursorView,
    identities: Seq<Seq<u8>>,
)
    requires
        b.len() <= usize::MAX,
        query_cursor_laws::is_usable(cursor),
    ensures
        b.len() > 8192 ==> CursorView::parse(b) == Err::<CursorView, QueryFailure>(
            QueryError::CursorTooLarge { length: b.len() as usize, max: 8192 },
        ),
        !identities.contains(cursor.anchor) ==> query_cursor::start_of(
            Some(cursor.encoding()),
            cursor.kind,
            cursor.read_version,
            cursor.request_digest,
            identities,
        ) == Err::<int, QueryFailure>(QueryError::CursorAnchorMissing),
{
    query_cursor::cursor_reads_back(cursor);
    query_cursor_laws::cursors_lead_behind_their_item(
        cursor,
        cursor.kind,
        cursor.read_version,
        cursor.request_digest,
        identities,
    );
}

/// A read of a marker fails as the store or its record did; a read of a path
/// does too, under a visible marker, and shows nothing under any other.
pub proof fn failed_reads_are_told(
    workspace: WorkspaceRecordView,
    source: StoreFailure,
    reason: Seq<u8>,
    read: Result<Option<Result<PathEntryView, Seq<u8>>>, StoreFailure>,
)
    ensures
        namespace::visible_workspace(Err(source)) == Err::<
            Option<WorkspaceRecordView>,
            NamespaceFailure,
        >(NamespaceError::Engine(source)),
        namespace::visible_workspace(Ok(Some(Err(reason)))) == Err::<
            Option<WorkspaceRecordView>,
            NamespaceFailure,
        >(NamespaceError::Codec { record: "WorkspaceCurrent", source: reason }),
        workspace.state != WorkspaceState::Visible ==> namespace::visible_entry(workspace, read)
            == Ok::<Option<PathEntryView>, NamespaceFailure>(None),
        workspace.state == WorkspaceState::Visible ==> namespace::visible_entry(workspace, read)
            == (match read {
            Err(failure) => Err::<Option<PathEntryView>, NamespaceFailure>(
                NamespaceError::Engine(failure),
            ),
            Ok(None) => Ok(None),
            Ok(Some(Ok(entry))) => Ok(Some(entry)),
            Ok(Some(Err(told))) => Err(NamespaceError::Codec { record: "PathCurrent", source: told }),
        }),
{
}

/// A listing is refused with its limit exactly when that lies outside 1 to 255
/// and the marker shows; a marker that does not show lists nothing.
pub proof fn wrong_listing_limits_are_told(
    workspace: WorkspaceRecordView,
    limit: usize,
    scan: Result<Seq<ScannedPathView>, StoreFailure>,
    marker: Result<Option<Result<WorkspaceRecordView, Seq<u8>>>, StoreFailure>,
)
    ensures
        workspace.state != WorkspaceState::Visible ==> namespace::scanned_page(
            workspace,
            limit,
            scan,
        ) == Ok::<VisiblePathPageView, NamespaceFailure>(
            VisiblePathPageView { entries: Seq::empty(), next_marker: None },
        ),
        workspace.state == WorkspaceState::Visible && !(1 <= limit <= 255)
            ==> namespace::scanned_page(workspace, limit, scan) == Err::<
            VisiblePathPageView,
            NamespaceFailure,
        >(NamespaceError::InvalidPageLimit { requested: limit, max: 255 }),
        !(1 <= limit <= 255) ==> namespace::visible_paths(marker, limit, scan) == Err::<
            VisiblePathPageView,
            NamespaceFailure,
        >(NamespaceError::InvalidPageLimit { requested: limit, max: 255 }),
        workspace.state == WorkspaceState::Visible && 1 <= limit <= 255 ==> (
        scan matches Err(source) ==> namespace::scanned_page(workspace, limit, scan) == Err::<
            VisiblePathPageView,
            NamespaceFailure,
        >(NamespaceError::Engine(source))),
{
}

/// A cursor that is beyond its count is refused with both, and the shape of
/// dependencies with its count and depth.
pub proof fn wrong_progress_is_told(field: &'static str, cursor: u32, count: u32)
    ensures
        cursor <= count ==> publish_validate::cursor_check(field, cursor, count) is Ok,
        cursor > count ==> publish_validate::cursor_check(field, cursor, count) == Err::<
            (),
            PublishFailure,
        >(PublishRecordError::CursorOutOfRange { field, cursor, count }),
{
}

/// A text is refused as empty, with its length, or for a zero byte, in this
/// order.
pub proof fn wrong_texts_are_told(field: &'static str, value: Seq<u8>, max: usize)
    requires
        value.len() <= usize::MAX,
    ensures
        publish_validate::text_check(field, value, max) == (if value.len() == 0 {
            Err::<(), PublishFailure>(PublishRecordError::EmptyField { field })
        } else if value.len() > max {
            Err(PublishRecordError::FieldTooLong { field, length: value.len() as usize, max })
        } else if value.contains(0u8) {
            Err(PublishRecordError::InvalidAsciiField { field })
        } else {
            Ok(())
        }),
{
    if value.contains(0u8) {
        let i = choose|i: int| 0 <= i < value.len() && value[i] == 0u8;
        assert(value[i] == 0);
    }
}

/// A custom field with the name of a built-in one is refused with that name, a
/// catalog with too many fields with their number, and a value that no row
/// holds with its field.
pub proof fn wrong_index_fields_are_told(
    field: Seq<u8>,
    capabilities: Seq<GenericIndexFieldCapabilityView>,
    value: QueryScalarView,
    values: GenericIndexFieldValuesView,
)
    requires
        capabilities.len() <= usize::MAX,
        values.values.len() <= usize::MAX,
    ensures
        generic_index_valid_laws::is_builtin(field) ==> generic_index_validate::custom_field_check(
            field,
        ) == Err::<(), GenericIndexFailure>(GenericIndexRecordError::ReservedField { field }),
        capabilities.len() > 60 ==> generic_index_validate::capabilities_check(capabilities)
            == Err::<(), GenericIndexFailure>(
            GenericIndexRecordError::CountLimit {
                field: "capabilities",
                count: capabilities.len() as usize,
                max: 60,
            },
        ),
        generic_index_validate::generic_scalar_check(field, value) matches Err(failure) ==> (
        match value {
            QueryScalarView::String(text) => failure matches GenericIndexRecordError::LengthLimit {
                max,
                ..
            } && max == 65536 && text.len() > 65536,
            _ => failure matches GenericIndexRecordError::UnsupportedScalarType {
                field: told,
                scalar_type,
            } && told == field && scalar_type == (match value {
                QueryScalarView::Null => "null",
                QueryScalarView::Boolean(_) => "boolean",
                QueryScalarView::Signed(_) => "signed",
                QueryScalarView::Timestamp(_) => "timestamp",
                _ => "bytes",
            }),
        }),
        values.values.len() == 0 ==> values.check() == Err::<(), GenericIndexFailure>(
            GenericIndexRecordError::EmptyFieldValues { field: values.field },
        ),
        values.values.len() > 1024 ==> values.check() == Err::<(), GenericIndexFailure>(
            GenericIndexRecordError::CountLimit {
                field: "field_values",
                count: values.values.len() as usize,
                max: 1024,
            },
        ),
{
    generic_index_valid_laws::custom_fields_shadow_no_builtin(field);
}

/// A receipt is refused for no rows, for too many with their number, for a
/// range beyond the last position, and otherwise because its counts do not
/// agree.
pub proof fn wrong_receipts_are_told(receipt: GenericIndexAppendReceiptRecordView)
    ensures
        receipt.check() matches Err(failure) ==> (match failure {
            GenericIndexRecordError::ZeroScalar { .. } => receipt.row_count == 0,
            GenericIndexRecordError::CountLimit { count, max, .. } => receipt.row_count > 4096
                && count == receipt.row_count && max == 4096,
            GenericIndexRecordError::RangeOverflow { .. } => 1 <= receipt.row_count <= 4096
                && receipt.first_sequence + receipt.row_count > 0xffff_ffff_ffff_ffff,
            GenericIndexRecordError::InvalidAppendReceipt => 1 <= receipt.row_count <= 4096
                && receipt.first_sequence + receipt.row_count <= 0xffff_ffff_ffff_ffff
                && receipt.first_sequence + receipt.row_count != receipt.resulting_row_count,
            _ => false,
        }),
{
}

/// A generation with a valid catalog and more rows than it declares is refused
/// for its progress, and one whose references do not agree with its state for
/// its lifetime or its seal.
pub proof fn wrong_generations_are_told(generation: GenericIndexGenerationRecordView)
    requires
        generic_index_validate::capabilities_check(generation.capabilities) is Ok,
    ensures
        generation.appended_row_count > generation.declared_row_count ==> generation.check()
            == Err::<(), GenericIndexFailure>(GenericIndexRecordError::InvalidGenerationProgress),
        generation.appended_row_count <= generation.declared_row_count ==> (
        generation.check() matches Err(failure) ==> failure is InvalidGenerationLifetime
            || failure is InvalidSeal),
{
}

} // verus!
