//! Cut-off Generic index records are refused as truncated.
//!
//! Reading is settled by what was read: where a parser comes to a result before
//! its input ends, more input behind it changes nothing. So a proper prefix of a
//! valid encoding can neither be read nor be refused for any other reason.

use vstd::prelude::*;

use crate::generic_index_format;
use crate::generic_index_format::Parsed;
use crate::generic_index_laws;
use crate::generic_index_records::{
    CommitGenericIndexMemberRecordView, GenericIndexAppendReceiptRecordView,
    GenericIndexCurrentRecordView, GenericIndexFailure, GenericIndexFieldCapabilityView,
    GenericIndexFieldValuesView, GenericIndexGenerationRecordView,
    GenericIndexGenerationRefRecordView, GenericIndexRecordError,
    GenericIndexRegistrationOperationRecordView, GenericIndexRowBindingView,
    GenericIndexRowRecordView,
};

verus! {

/// The input ended before the value did.
pub open spec fn is_truncated<V>(result: Result<V, GenericIndexFailure>) -> bool {
    result matches Err(GenericIndexRecordError::Truncated { .. })
}

/// A result on some input, and that on the input with more behind it: only a
/// truncated input can come to something else.
pub open spec fn settled<V>(short: Parsed<V>, long: Parsed<V>, more: Seq<u8>) -> bool {
    match short {
        Ok((value, rest)) => long == Ok::<(V, Seq<u8>), GenericIndexFailure>((value, rest + more)),
        Err(e) => is_truncated(short) || long == Err::<(V, Seq<u8>), GenericIndexFailure>(e),
    }
}

/// Splitting off a field is settled by the field.
broadcast proof fn fields_are_settled(b: Seq<u8>, more: Seq<u8>, field: &'static str, width: nat)
    ensures
        settled(
            generic_index_format::take_field(b, field, width),
            #[trigger] generic_index_format::take_field(b + more, field, width),
            more,
        ),
{
    reveal(generic_index_format::take_field);
    if b.len() >= width {
        assert((b + more).take(width as int) =~= b.take(width as int));
        assert((b + more).skip(width as int) =~= b.skip(width as int) + more);
    }
}

/// Reading operators is settled by the operators.
broadcast proof fn operators_are_settled(b: Seq<u8>, more: Seq<u8>, count: nat)
    ensures
        settled(generic_index_format::parse_operators(b, count), #[trigger] generic_index_format::parse_operators(b + more, count), more),
    decreases count,
{
    broadcast use fields_are_settled;

    if count > 0 {
        if let Ok((item, rest)) = generic_index_format::parse_operator(b) {
            operators_are_settled(rest, more, (count - 1) as nat);
        }
    }
}

/// Reading a capability is settled by the capability.
broadcast proof fn capabilities_are_settled(b: Seq<u8>, more: Seq<u8>)
    ensures
        settled(GenericIndexFieldCapabilityView::parse(b), #[trigger] GenericIndexFieldCapabilityView::parse(b + more), more),
{
    broadcast use fields_are_settled;
    broadcast use operators_are_settled;

}

/// Reading capabilities is settled by the capabilities.
broadcast proof fn capability_lists_are_settled(b: Seq<u8>, more: Seq<u8>, count: nat)
    ensures
        settled(generic_index_format::parse_capability_list(b, count), #[trigger] generic_index_format::parse_capability_list(b + more, count), more),
    decreases count,
{
    broadcast use capabilities_are_settled;

    if count > 0 {
        if let Ok((item, rest)) = GenericIndexFieldCapabilityView::parse(b) {
            capability_lists_are_settled(rest, more, (count - 1) as nat);
        }
    }
}

/// Reading a value is settled by the value.
broadcast proof fn scalars_are_settled(b: Seq<u8>, more: Seq<u8>)
    ensures
        settled(generic_index_format::parse_scalar(b), #[trigger] generic_index_format::parse_scalar(b + more), more),
{
    broadcast use fields_are_settled;

}

/// Reading values is settled by the values.
broadcast proof fn scalar_lists_are_settled(b: Seq<u8>, more: Seq<u8>, count: nat)
    ensures
        settled(generic_index_format::parse_scalar_list(b, count), #[trigger] generic_index_format::parse_scalar_list(b + more, count), more),
    decreases count,
{
    broadcast use scalars_are_settled;

    if count > 0 {
        if let Ok((item, rest)) = generic_index_format::parse_scalar(b) {
            scalar_lists_are_settled(rest, more, (count - 1) as nat);
        }
    }
}

/// Reading the values of a field is settled by the values.
broadcast proof fn field_values_are_settled(b: Seq<u8>, more: Seq<u8>)
    ensures
        settled(GenericIndexFieldValuesView::parse(b), #[trigger] GenericIndexFieldValuesView::parse(b + more), more),
{
    broadcast use fields_are_settled;
    broadcast use scalar_lists_are_settled;

}

/// Reading the fields of a row is settled by the fields.
broadcast proof fn field_lists_are_settled(b: Seq<u8>, more: Seq<u8>, count: nat)
    ensures
        settled(generic_index_format::parse_field_list(b, count), #[trigger] generic_index_format::parse_field_list(b + more, count), more),
    decreases count,
{
    broadcast use field_values_are_settled;

    if count > 0 {
        if let Ok((item, rest)) = GenericIndexFieldValuesView::parse(b) {
            field_lists_are_settled(rest, more, (count - 1) as nat);
        }
    }
}

/// Reading a binding is settled by the binding.
broadcast proof fn bindings_are_settled(b: Seq<u8>, more: Seq<u8>)
    ensures
        settled(GenericIndexRowBindingView::parse(b), #[trigger] GenericIndexRowBindingView::parse(b + more), more),
{
    broadcast use fields_are_settled;

}

/// A proper prefix and what it lacks make up the encoding.
proof fn prefix_is_completed(b: Seq<u8>, n: int)
    requires
        0 <= n < b.len(),
    ensures
        b == b.take(n) + b.skip(n),
        b.skip(n).len() > 0,
{
    assert(b =~= b.take(n) + b.skip(n));
}

/// Every proper prefix of a valid current pointer is refused as truncated.
pub proof fn current_prefix_is_truncated(v: GenericIndexCurrentRecordView, n: int)
    requires
        v.sized(),
        v.check() is Ok,
        0 <= n < v.encoding().len(),
    ensures
        is_truncated(GenericIndexCurrentRecordView::parse(v.encoding().take(n))),
{
    let b = v.encoding().take(n);
    let more = v.encoding().skip(n);
    prefix_is_completed(v.encoding(), n);
    generic_index_laws::current_reads_back(v);
    assert(settled(
        GenericIndexCurrentRecordView::parse_fields(b),
        GenericIndexCurrentRecordView::parse_fields(b + more),
        more,
    )) by {
        broadcast use fields_are_settled;

    }
}

/// Every proper prefix of a valid generation header is refused as truncated.
pub proof fn generation_prefix_is_truncated(v: GenericIndexGenerationRecordView, n: int)
    requires
        v.sized(),
        v.check() is Ok,
        0 <= n < v.encoding().len(),
    ensures
        is_truncated(GenericIndexGenerationRecordView::parse(v.encoding().take(n))),
{
    let b = v.encoding().take(n);
    let more = v.encoding().skip(n);
    prefix_is_completed(v.encoding(), n);
    generic_index_laws::generation_reads_back(v);
    assert(settled(
        GenericIndexGenerationRecordView::parse_fields(b),
        GenericIndexGenerationRecordView::parse_fields(b + more),
        more,
    )) by {
        broadcast use fields_are_settled;
        broadcast use capability_lists_are_settled;

    }
}

/// Every proper prefix of a valid row is refused as truncated.
pub proof fn row_prefix_is_truncated(v: GenericIndexRowRecordView, n: int)
    requires
        v.sized(),
        v.encode_check() is Ok,
        0 <= n < v.encoding().len(),
    ensures
        is_truncated(GenericIndexRowRecordView::parse(v.encoding().take(n))),
{
    let b = v.encoding().take(n);
    let more = v.encoding().skip(n);
    prefix_is_completed(v.encoding(), n);
    generic_index_laws::row_reads_back(v);
    assert(settled(
        GenericIndexRowRecordView::parse_fields(b),
        GenericIndexRowRecordView::parse_fields(b + more),
        more,
    )) by {
        broadcast use fields_are_settled;
        broadcast use field_lists_are_settled;
        broadcast use bindings_are_settled;

    }
}

/// Every proper prefix of a valid generation reference is refused as truncated.
pub proof fn reference_prefix_is_truncated(v: GenericIndexGenerationRefRecordView, n: int)
    requires
        v.sized(),
        v.check() is Ok,
        0 <= n < v.encoding().len(),
    ensures
        is_truncated(GenericIndexGenerationRefRecordView::parse(v.encoding().take(n))),
{
    let b = v.encoding().take(n);
    let more = v.encoding().skip(n);
    prefix_is_completed(v.encoding(), n);
    generic_index_laws::reference_reads_back(v);
    assert(settled(
        GenericIndexGenerationRefRecordView::parse_fields(b),
        GenericIndexGenerationRefRecordView::parse_fields(b + more),
        more,
    )) by {
        broadcast use fields_are_settled;

    }
}

/// Every proper prefix of a valid append receipt is refused as truncated.
pub proof fn receipt_prefix_is_truncated(v: GenericIndexAppendReceiptRecordView, n: int)
    requires
        v.sized(),
        v.check() is Ok,
        0 <= n < v.encoding().len(),
    ensures
        is_truncated(GenericIndexAppendReceiptRecordView::parse(v.encoding().take(n))),
{
    let b = v.encoding().take(n);
    let more = v.encoding().skip(n);
    prefix_is_completed(v.encoding(), n);
    generic_index_laws::receipt_reads_back(v);
    assert(settled(
        GenericIndexAppendReceiptRecordView::parse_fields(b),
        GenericIndexAppendReceiptRecordView::parse_fields(b + more),
        more,
    )) by {
        broadcast use fields_are_settled;

    }
}

/// Every proper prefix of a valid registration is refused as truncated.
pub proof fn registration_prefix_is_truncated(v: GenericIndexRegistrationOperationRecordView, n: int)
    requires
        v.sized(),
        v.check() is Ok,
        0 <= n < v.encoding().len(),
    ensures
        is_truncated(GenericIndexRegistrationOperationRecordView::parse(v.encoding().take(n))),
{
    let b = v.encoding().take(n);
    let more = v.encoding().skip(n);
    prefix_is_completed(v.encoding(), n);
    generic_index_laws::registration_reads_back(v);
    assert(settled(
        GenericIndexRegistrationOperationRecordView::parse_fields(b),
        GenericIndexRegistrationOperationRecordView::parse_fields(b + more),
        more,
    )) by {
        broadcast use fields_are_settled;
        broadcast use capability_lists_are_settled;

    }
}

/// Every proper prefix of a valid commit member is refused as truncated.
pub proof fn member_prefix_is_truncated(v: CommitGenericIndexMemberRecordView, n: int)
    requires
        v.sized(),
        v.check() is Ok,
        0 <= n < v.encoding().len(),
    ensures
        is_truncated(CommitGenericIndexMemberRecordView::parse(v.encoding().take(n))),
{
    let b = v.encoding().take(n);
    let more = v.encoding().skip(n);
    prefix_is_completed(v.encoding(), n);
    generic_index_laws::member_reads_back(v);
    assert(settled(
        CommitGenericIndexMemberRecordView::parse_fields(b),
        CommitGenericIndexMemberRecordView::parse_fields(b + more),
        more,
    )) by {
        broadcast use fields_are_settled;
        broadcast use field_lists_are_settled;
        broadcast use bindings_are_settled;
        broadcast use capability_lists_are_settled;

    }
}

} // verus!
