//! What valid records of the Generic index hold: their counts, their order,
//! and how their fields agree with the state that they are in.

use vstd::prelude::*;

use crate::bytes;
use crate::generic_index_digests;
use crate::generic_index_records::{
    CommitGenericIndexMemberRecordView, GenericIndexAppendReceiptRecordView,
    GenericIndexCurrentRecordView, GenericIndexFieldCapabilityView, GenericIndexFieldValuesView,
    GenericIndexGenerationRecordView, GenericIndexGenerationRefRecordView, GenericIndexOperator,
    GenericIndexRegistrationOperationRecordView, GenericIndexRowBindingView,
    GenericIndexRowRecordView,
};
use crate::generic_index_validate;
use crate::scalars::QueryScalarView;
use crate::states::{GenericIndexGenerationState, GenericIndexRegistrationPhase};

verus! {

/// A field id is one of the built-in fields of a workspace.
pub open spec fn is_builtin(field: Seq<u8>) -> bool {
    seq![
        bytes::utf8("path"@),
        bytes::utf8("name"@),
        bytes::utf8("kind"@),
        bytes::utf8("size_bytes"@),
        bytes::utf8("body.content_type"@),
        bytes::utf8("body.producer"@),
        bytes::utf8("body.manifest_id"@),
    ].contains(field)
}

/// A value can stand in a row: a text of at most 65536 bytes, an unsigned
/// integer, or a float.
pub open spec fn is_row_value(value: QueryScalarView) -> bool {
    match value {
        QueryScalarView::String(text) => text.len() <= 65536,
        QueryScalarView::Unsigned(_) => true,
        QueryScalarView::Float(_) => true,
        QueryScalarView::Null => false,
        QueryScalarView::Boolean(_) => false,
        QueryScalarView::Signed(_) => false,
        QueryScalarView::Timestamp(_) => false,
        QueryScalarView::Bytes(_) => false,
    }
}

/// No custom field takes the name of a built-in one.
pub proof fn custom_fields_shadow_no_builtin(field: Seq<u8>)
    ensures
        generic_index_validate::custom_field_check(field) is Ok <==> !is_builtin(field),
{
    let names = seq![
        bytes::utf8("path"@),
        bytes::utf8("name"@),
        bytes::utf8("kind"@),
        bytes::utf8("size_bytes"@),
        bytes::utf8("body.content_type"@),
        bytes::utf8("body.producer"@),
        bytes::utf8("body.manifest_id"@),
    ];
    assert(names[0] == bytes::utf8("path"@));
    assert(names[1] == bytes::utf8("name"@));
    assert(names[2] == bytes::utf8("kind"@));
    assert(names[3] == bytes::utf8("size_bytes"@));
    assert(names[4] == bytes::utf8("body.content_type"@));
    assert(names[5] == bytes::utf8("body.producer"@));
    assert(names[6] == bytes::utf8("body.manifest_id"@));
}

/// The operators of a valid capability stand in one order, none twice: of any
/// two, the one in front has the smaller byte.
proof fn operators_stand_in_order(operators: Seq<GenericIndexOperator>, i: int, j: int)
    requires
        generic_index_validate::operators_ordered(operators),
        0 <= i < j < operators.len(),
    ensures
        operators[i].byte() < operators[j].byte(),
    decreases j - i,
{
    if i + 1 < j {
        operators_stand_in_order(operators, i, j - 1);
        assert(operators[j - 1].byte() < operators[j - 1 + 1].byte());
    }
}

proof fn capabilities_from(capabilities: Seq<GenericIndexFieldCapabilityView>, i: int)
    requires
        0 <= i <= capabilities.len(),
    ensures
        generic_index_validate::capabilities_check_from(capabilities, i) is Ok <==> {
            &&& forall|k: int|
                i <= k < capabilities.len() ==> !is_builtin((#[trigger] capabilities[k]).field)
                    && generic_index_validate::operators_ordered(capabilities[k].operators)
            &&& forall|k: int|
                i <= k < capabilities.len() && 0 < k ==> bytes::lex_less(
                    capabilities[k - 1].field,
                    (#[trigger] capabilities[k]).field,
                )
        },
    decreases capabilities.len() - i,
{
    if i < capabilities.len() {
        custom_fields_shadow_no_builtin(capabilities[i].field);
        capabilities_from(capabilities, i + 1);
    }
}

/// A capability catalog is valid exactly when it has at most 60 fields, each
/// with another name than the built-in ones and behind the field in front of
/// it, and the operators of each are in order.
pub proof fn catalogs_are_bounded_and_ordered(capabilities: Seq<GenericIndexFieldCapabilityView>)
    ensures
        generic_index_validate::capabilities_check(capabilities) is Ok <==> {
            &&& capabilities.len() <= 60
            &&& forall|k: int|
                0 <= k < capabilities.len() ==> !is_builtin((#[trigger] capabilities[k]).field)
            &&& forall|k: int|
                0 < k < capabilities.len() ==> bytes::lex_less(
                    capabilities[k - 1].field,
                    (#[trigger] capabilities[k]).field,
                )
            &&& forall|k: int, a: int, b: int|
                #![trigger capabilities[k].operators[a], capabilities[k].operators[b]]
                0 <= k < capabilities.len() && 0 <= a < b < capabilities[k].operators.len()
                    ==> capabilities[k].operators[a].byte() < capabilities[k].operators[b].byte()
        },
{
    capabilities_from(capabilities, 0);
    assert forall|k: int, a: int, b: int|
        #![trigger capabilities[k].operators[a], capabilities[k].operators[b]]
        0 <= k < capabilities.len() && 0 <= a < b < capabilities[k].operators.len()
            && generic_index_validate::operators_ordered(
            capabilities[k].operators,
        ) implies capabilities[k].operators[a].byte() < capabilities[k].operators[b].byte() by {
        operators_stand_in_order(capabilities[k].operators, a, b);
    }
    assert forall|k: int|
        0 <= k < capabilities.len() && (forall|a: int, b: int|
            #![trigger capabilities[k].operators[a], capabilities[k].operators[b]]
            0 <= a < b < capabilities[k].operators.len() ==> capabilities[k].operators[a].byte()
                < capabilities[k].operators[b].byte()) implies generic_index_validate::operators_ordered(
        (#[trigger] capabilities[k]).operators,
    ) by {
        let operators = capabilities[k].operators;
        assert forall|i: int| 0 <= i < operators.len() - 1 implies (#[trigger] operators[i]).byte()
            < operators[i + 1].byte() by {
            assert(capabilities[k].operators[i].byte() < capabilities[k].operators[i + 1].byte());
        }
    }
}

proof fn values_from(field: Seq<u8>, values: Seq<QueryScalarView>, i: int)
    requires
        0 <= i <= values.len(),
    ensures
        generic_index_validate::scalars_check_from(field, values, i) is Ok <==> (forall|k: int|
            i <= k < values.len() ==> is_row_value(#[trigger] values[k])),
    decreases values.len() - i,
{
    if i < values.len() {
        values_from(field, values, i + 1);
    }
}

/// A field of a row is valid exactly when it has between 1 and 1024 values,
/// each of which can stand in a row.
pub proof fn row_fields_have_values(values: GenericIndexFieldValuesView)
    ensures
        values.check() is Ok <==> {
            &&& 1 <= values.values.len() <= 1024
            &&& forall|k: int|
                0 <= k < values.values.len() ==> is_row_value(#[trigger] values.values[k])
        },
{
    values_from(values.field, values.values, 0);
}

proof fn fields_from(values: Seq<GenericIndexFieldValuesView>, i: int)
    requires
        0 <= i <= values.len(),
    ensures
        generic_index_validate::row_fields_check_from(values, i) is Ok <==> {
            &&& forall|k: int|
                i <= k < values.len() ==> !is_builtin((#[trigger] values[k]).field)
                    && values[k].check() is Ok
            &&& forall|k: int|
                i <= k < values.len() && 0 < k ==> bytes::lex_less(
                    values[k - 1].field,
                    (#[trigger] values[k]).field,
                )
        },
    decreases values.len() - i,
{
    if i < values.len() {
        custom_fields_shadow_no_builtin(values[i].field);
        fields_from(values, i + 1);
    }
}

/// A row is valid exactly when it has a path or is bound to a directory, and
/// has at most 60 fields, each with another name than the built-in ones,
/// behind the field in front of it, and with values that can stand in a row.
pub proof fn rows_are_bounded_and_ordered(row: GenericIndexRowRecordView)
    ensures
        row.check() is Ok <==> {
            &&& row.relative_path is Some || row.binding == GenericIndexRowBindingView::Directory
            &&& row.values.len() <= 60
            &&& forall|k: int|
                0 <= k < row.values.len() ==> {
                    &&& !is_builtin((#[trigger] row.values[k]).field)
                    &&& 1 <= row.values[k].values.len() <= 1024
                    &&& forall|n: int|
                        0 <= n < row.values[k].values.len() ==> is_row_value(
                            #[trigger] row.values[k].values[n],
                        )
                }
            &&& forall|k: int|
                0 < k < row.values.len() ==> bytes::lex_less(
                    row.values[k - 1].field,
                    (#[trigger] row.values[k]).field,
                )
        },
{
    fields_from(row.values, 0);
    assert forall|k: int| 0 <= k < row.values.len() implies ((#[trigger] row.values[k]).check()
        is Ok <==> {
        &&& 1 <= row.values[k].values.len() <= 1024
        &&& forall|n: int|
            0 <= n < row.values[k].values.len() ==> is_row_value(
                #[trigger] row.values[k].values[n],
            )
    }) by {
        row_fields_have_values(row.values[k]);
    }
}

/// A generation is valid exactly when its catalog is, it has no more rows than
/// it declares, no rows mean the zero digest, and its references agree with
/// its state: a generation that is built has one, a retired one has none, one
/// that is sealed or retiring has all its rows, and one that was built and has
/// no reference tells since when.
pub proof fn generations_agree_with_their_state(generation: GenericIndexGenerationRecordView)
    ensures
        generation.check() is Ok <==> {
            &&& generic_index_validate::capabilities_check(generation.capabilities) is Ok
            &&& generation.appended_row_count <= generation.declared_row_count
            &&& generation.appended_row_count == 0 ==> generation.rolling_row_digest == Seq::new(
                32,
                |i: int| 0u8,
            )
            &&& generation.reference_epoch > 0
            &&& match generation.state {
                GenericIndexGenerationState::Building => generation.reference_count == 1,
                GenericIndexGenerationState::Sealed => generation.appended_row_count
                    == generation.declared_row_count && (generation.reference_count > 0
                    || generation.last_zero_reference_version is Some),
                GenericIndexGenerationState::Retiring => generation.appended_row_count
                    == generation.declared_row_count && (generation.reference_count > 0
                    || generation.last_zero_reference_version is Some),
                GenericIndexGenerationState::Retired => generation.reference_count == 0
                    && generation.last_zero_reference_version is Some,
            }
        },
{
    assert(generic_index_validate::empty_row_digest() =~= Seq::new(32, |i: int| 0u8));
}

/// A reference is valid exactly when it was added at an epoch behind zero.
pub proof fn references_have_an_epoch(reference: GenericIndexGenerationRefRecordView)
    ensures
        reference.check() is Ok <==> reference.reference_epoch_at_add > 0,
{
}

/// An append receipt is valid exactly when it covers between 1 and 4096 rows,
/// and the rows in front of them and they together are the rows behind it.
pub proof fn receipts_cover_their_rows(receipt: GenericIndexAppendReceiptRecordView)
    ensures
        receipt.check() is Ok <==> {
            &&& 1 <= receipt.row_count <= 4096
            &&& receipt.resulting_row_count == receipt.first_sequence + receipt.row_count
        },
{
}

proof fn nul_is_found(b: Seq<u8>, from: int)
    requires
        0 <= from <= b.len(),
    ensures
        from <= generic_index_validate::first_nul(b, from) <= b.len(),
        generic_index_validate::first_nul(b, from) < b.len() <==> (exists|k: int|
            from <= k < b.len() && #[trigger] b[k] == 0),
    decreases b.len() - from,
{
    if from < b.len() && b[from] != 0 {
        nul_is_found(b, from + 1);
    }
}

/// A terminal error is valid exactly when it is there, has between 1 and 1024
/// bytes, and none of them is zero.
pub proof fn terminal_errors_are_texts(error: Option<Seq<u8>>)
    ensures
        generic_index_validate::terminal_error_check(error) is Ok <==> {
            &&& error is Some
            &&& 1 <= error->0.len() <= 1024
            &&& forall|k: int| 0 <= k < error->0.len() ==> #[trigger] error->0[k] != 0
        },
{
    if error is Some {
        nul_is_found(error->0, 0);
    }
}

/// A registration is valid exactly when it has no more rows than it declares,
/// no rows mean the zero digest, its last transition is behind its source,
/// the pointer that it expects has a successor, its rows agree with its phase,
/// and it tells of a publication exactly when it is complete, namely of that
/// successor, and of an error exactly when it is quarantined.
pub proof fn registrations_agree_with_their_phase(
    operation: GenericIndexRegistrationOperationRecordView,
)
    ensures
        operation.check() is Ok <==> {
            &&& operation.appended_row_count <= operation.declared_row_count
            &&& operation.appended_row_count == 0 ==> operation.rolling_row_digest == Seq::new(
                32,
                |i: int| 0u8,
            )
            &&& operation.source_read_version < operation.last_transition_version
            &&& operation.expected_current_generation != Some(0xffff_ffff_ffff_ffffu64)
            &&& match operation.phase {
                GenericIndexRegistrationPhase::Preparing => operation.appended_row_count == 0,
                GenericIndexRegistrationPhase::Sealing => operation.appended_row_count
                    == operation.declared_row_count,
                GenericIndexRegistrationPhase::Publishing => operation.appended_row_count
                    == operation.declared_row_count,
                GenericIndexRegistrationPhase::Complete => operation.appended_row_count
                    == operation.declared_row_count,
                _ => true,
            }
            &&& operation.phase is Complete <==> operation.published_pointer_generation is Some
            &&& operation.published_pointer_generation matches Some(published)
                ==> published == (match operation.expected_current_generation {
                Some(current) => current + 1,
                None => 1,
            })
            &&& operation.phase is Quarantined <==> operation.terminal_error is Some
            &&& operation.terminal_error matches Some(error) ==> {
                &&& 1 <= error.len() <= 1024
                &&& forall|k: int| 0 <= k < error.len() ==> #[trigger] error[k] != 0
            }
        },
{
    assert(generic_index_validate::empty_row_digest() =~= Seq::new(32, |i: int| 0u8));
    terminal_errors_are_texts(operation.terminal_error);
}

proof fn rows_encode_from(rows: Seq<GenericIndexRowRecordView>, i: int)
    requires
        0 <= i <= rows.len(),
    ensures
        generic_index_digests::rows_encode_check(rows, i) is Ok <==> (forall|k: int|
            i <= k < rows.len() ==> (#[trigger] rows[k]).encode_check() is Ok),
        generic_index_digests::rows_check(rows, i) is Ok <==> (forall|k: int|
            i <= k < rows.len() ==> (#[trigger] rows[k]).check() is Ok),
    decreases rows.len() - i,
{
    if i < rows.len() {
        rows_encode_from(rows, i + 1);
    }
}

/// A row can be written exactly when it is valid and takes at most 61440
/// bytes.
pub proof fn written_rows_are_small(row: GenericIndexRowRecordView)
    ensures
        row.encode_check() is Ok <==> row.check() is Ok && row.encoding().len() <= 61440,
{
}

/// A batch of rows can be appended exactly when it has between 1 and 4096
/// rows, their positions exist, and each of them is valid and takes at most
/// 61440 bytes; what the caller gave for them has a digest whatever they take.
pub proof fn appended_batches_are_bounded(
    first_sequence: u64,
    rows: Seq<GenericIndexRowRecordView>,
)
    ensures
        generic_index_digests::append_batch_check(first_sequence, rows) is Ok <==> {
            &&& 1 <= rows.len() <= 4096
            &&& first_sequence + rows.len() <= 0xffff_ffff_ffff_ffff
            &&& forall|k: int|
                0 <= k < rows.len() ==> (#[trigger] rows[k]).check() is Ok
                    && rows[k].encoding().len() <= 61440
        },
        generic_index_digests::append_input_check(first_sequence, rows) is Ok <==> {
            &&& 1 <= rows.len() <= 4096
            &&& first_sequence + rows.len() <= 0xffff_ffff_ffff_ffff
            &&& forall|k: int| 0 <= k < rows.len() ==> (#[trigger] rows[k]).check() is Ok
        },
{
    rows_encode_from(rows, 0);
    assert forall|k: int| 0 <= k < rows.len() implies ((#[trigger] rows[k]).encode_check() is Ok
        <==> rows[k].check() is Ok && rows[k].encoding().len() <= 61440) by {
        written_rows_are_small(rows[k]);
    }
}

/// A generation is sealed to a closure exactly when it is valid and sealed,
/// and its catalog, its number of rows and their digest are those of the
/// closure.
pub proof fn seals_show_the_closure(
    generation: GenericIndexGenerationRecordView,
    capability_digest: Seq<u8>,
    expected_capability_digest: Seq<u8>,
    expected_row_count: u64,
    expected_row_digest: Seq<u8>,
)
    ensures
        generic_index_digests::seal_check(
            generation,
            capability_digest,
            expected_capability_digest,
            expected_row_count,
            expected_row_digest,
        ) is Ok <==> {
            &&& generation.check() is Ok
            &&& generation.state == GenericIndexGenerationState::Sealed
            &&& capability_digest == expected_capability_digest
            &&& generation.declared_row_count == expected_row_count
            &&& generation.appended_row_count == expected_row_count
            &&& generation.rolling_row_digest == expected_row_digest
        },
{
    generations_agree_with_their_state(generation);
}

/// A commit member and a current pointer of no rows have the zero digest.
pub proof fn members_of_no_rows_have_the_zero_digest(
    member: CommitGenericIndexMemberRecordView,
    current: GenericIndexCurrentRecordView,
)
    ensures
        member.check() is Ok <==> (member.row_count == 0 ==> member.row_digest == Seq::new(
            32,
            |i: int| 0u8,
        )),
        current.check() is Ok <==> (current.row_count == 0 ==> current.row_digest == Seq::new(
            32,
            |i: int| 0u8,
        )),
{
    assert(generic_index_validate::empty_row_digest() =~= Seq::new(32, |i: int| 0u8));
}

} // verus!
