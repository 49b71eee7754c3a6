//! The durable format of Generic index records.

use vstd::prelude::*;
use vstd::utf8::*;

use crate::bytes;
use crate::generic_index_records::{
    CommitGenericIndexMemberRecordView, GenericIndexAppendReceiptRecordView,
    GenericIndexCurrentRecordView, GenericIndexFailure, GenericIndexFieldCapabilityView,
    GenericIndexFieldValuesView, GenericIndexGenerationRecordView,
    GenericIndexGenerationRefRecordView, GenericIndexOperator, GenericIndexRecordError,
    GenericIndexRegistrationOperationRecordView, GenericIndexRowBindingView,
    GenericIndexRowRecordView, GENERIC_INDEX_VALUE_FORMAT_VERSION, MAX_GENERIC_INDEX_FIELDS,
    MAX_GENERIC_INDEX_OPERATORS, MAX_GENERIC_INDEX_ROW_BYTES, MAX_GENERIC_INDEX_ROW_FIELDS,
    MAX_GENERIC_INDEX_TERMINAL_ERROR_BYTES, MAX_GENERIC_INDEX_VALUES_PER_FIELD,
};
use crate::generic_index_validate;
use crate::names;
use crate::names::{NormalizedRelativePath, MAX_QUERY_FIELD_ID_BYTES};
use crate::records;
use crate::scalars;
use crate::scalars::{QueryScalarView, MAX_QUERY_SCALAR_BYTES};
use crate::states::{
    GenericIndexGenerationState, GenericIndexReferenceKind, GenericIndexRegistrationPhase,
};

verus! {

/// A value that was read off the front, and what is left.
pub type Parsed<V> = Result<(V, Seq<u8>), GenericIndexFailure>;

/// Splits `width` bytes off the front, or reports what is missing.
#[verifier::opaque]
pub open spec fn take_field(b: Seq<u8>, field: &'static str, width: nat) -> Parsed<Seq<u8>> {
    if b.len() < width {
        Err(
            GenericIndexRecordError::Truncated {
                field,
                needed: width as usize,
                remaining: b.len() as usize,
            },
        )
    } else {
        Ok((b.take(width as int), b.skip(width as int)))
    }
}

/// Reads one byte off the front.
pub open spec fn parse_u8(b: Seq<u8>, field: &'static str) -> Parsed<u8> {
    match take_field(b, field, 1) {
        Err(e) => Err(e),
        Ok((value, rest)) => Ok((value[0], rest)),
    }
}

/// Reads a 16-bit integer off the front.
pub open spec fn parse_u16(b: Seq<u8>, field: &'static str) -> Parsed<u16> {
    match take_field(b, field, 2) {
        Err(e) => Err(e),
        Ok((value, rest)) => Ok((bytes::from_be16(value), rest)),
    }
}

/// Reads a 32-bit integer off the front.
pub open spec fn parse_u32(b: Seq<u8>, field: &'static str) -> Parsed<u32> {
    match take_field(b, field, 4) {
        Err(e) => Err(e),
        Ok((value, rest)) => Ok((bytes::from_be32(value), rest)),
    }
}

/// Reads a 64-bit integer off the front.
pub open spec fn parse_u64(b: Seq<u8>, field: &'static str) -> Parsed<u64> {
    match take_field(b, field, 8) {
        Err(e) => Err(e),
        Ok((value, rest)) => Ok((bytes::from_be64(value), rest)),
    }
}

/// Reads a non-zero 64-bit integer off the front.
pub open spec fn parse_position(b: Seq<u8>, field: &'static str) -> Parsed<u64> {
    match parse_u64(b, field) {
        Err(e) => Err(e),
        Ok((value, rest)) => if value == 0 {
            Err(GenericIndexRecordError::ZeroScalar { field })
        } else {
            Ok((value, rest))
        },
    }
}

/// Reads a bounded 16-bit count off the front.
pub open spec fn parse_count(b: Seq<u8>, field: &'static str, max: usize) -> Parsed<u16> {
    match parse_u16(b, field) {
        Err(e) => Err(e),
        Ok((count, rest)) => if count > max {
            Err(GenericIndexRecordError::CountLimit { field, count: count as usize, max })
        } else {
            Ok((count, rest))
        },
    }
}

/// Reads a boolean off the front.
pub open spec fn parse_bool(b: Seq<u8>, field: &'static str) -> Parsed<bool> {
    match parse_u8(b, field) {
        Err(e) => Err(e),
        Ok((value, rest)) => if value == 0 {
            Ok((false, rest))
        } else if value == 1 {
            Ok((true, rest))
        } else {
            Err(GenericIndexRecordError::InvalidBoolean { field, value })
        },
    }
}

/// Reads a byte string of bounded length, preceded by that length in 16 bits.
pub open spec fn parse_short_bytes(b: Seq<u8>, field: &'static str, max: usize) -> Parsed<
    Seq<u8>,
> {
    match parse_u16(b, field) {
        Err(e) => Err(e),
        Ok((length, rest)) => if length > max {
            Err(GenericIndexRecordError::LengthLimit { field, length: length as usize, max })
        } else {
            take_field(rest, field, length as nat)
        },
    }
}

/// Reads a byte string of bounded length, preceded by that length in 32 bits.
pub open spec fn parse_long_bytes(b: Seq<u8>, field: &'static str, max: usize) -> Parsed<Seq<u8>> {
    match parse_u32(b, field) {
        Err(e) => Err(e),
        Ok((length, rest)) => if length > max {
            Err(GenericIndexRecordError::LengthLimit { field, length: length as usize, max })
        } else {
            take_field(rest, field, length as nat)
        },
    }
}

/// Reads a text of bounded length, preceded by that length in 32 bits.
pub open spec fn parse_long_text(b: Seq<u8>, field: &'static str, max: usize) -> Parsed<Seq<u8>> {
    match parse_long_bytes(b, field, max) {
        Err(e) => Err(e),
        Ok((value, rest)) => if valid_utf8(value) {
            Ok((value, rest))
        } else {
            Err(GenericIndexRecordError::InvalidUtf8 { field })
        },
    }
}

/// Reads a field id off the front.
pub open spec fn parse_field_id(b: Seq<u8>) -> Parsed<Seq<u8>> {
    match parse_short_bytes(b, "field_id", MAX_QUERY_FIELD_ID_BYTES) {
        Err(e) => Err(e),
        Ok((value, rest)) => if !valid_utf8(value) {
            Err(GenericIndexRecordError::InvalidUtf8 { field: "field_id" })
        } else {
            match names::field_id_check(value) {
                Err(e) => Err(
                    GenericIndexRecordError::InvalidField {
                        field: value,
                        reason: e.message_bytes(),
                    },
                ),
                Ok(()) => Ok((value, rest)),
            }
        },
    }
}

/// Reads an optional path off the front.
pub open spec fn parse_optional_path(b: Seq<u8>) -> Parsed<Option<Seq<u8>>> {
    match parse_u8(b, "path_tag") {
        Err(e) => Err(e),
        Ok((tag, rest)) => if tag == 0 {
            Ok((None, rest))
        } else if tag == 1 {
            match parse_long_text(rest, "relative_path", NormalizedRelativePath::MAX_BYTES) {
                Err(e) => Err(e),
                Ok((value, rest)) => match names::path_check(value) {
                    Err(e) => Err(
                        GenericIndexRecordError::InvalidPath { reason: e.message_bytes() },
                    ),
                    Ok(()) => Ok((Some(value), rest)),
                },
            }
        } else {
            Err(GenericIndexRecordError::InvalidOptionalTag { field: "relative_path", value: tag })
        },
    }
}

/// Reads an optional non-zero position off the front.
pub open spec fn parse_optional_position(b: Seq<u8>, field: &'static str) -> Parsed<Option<u64>> {
    match parse_u8(b, field) {
        Err(e) => Err(e),
        Ok((tag, rest)) => if tag == 0 {
            Ok((None, rest))
        } else if tag == 1 {
            match parse_position(rest, field) {
                Err(e) => Err(e),
                Ok((value, rest)) => Ok((Some(value), rest)),
            }
        } else {
            Err(GenericIndexRecordError::InvalidOptionalTag { field, value: tag })
        },
    }
}

/// Reads an optional text off the front.
pub open spec fn parse_optional_text(b: Seq<u8>, field: &'static str, max: usize) -> Parsed<
    Option<Seq<u8>>,
> {
    match parse_u8(b, field) {
        Err(e) => Err(e),
        Ok((tag, rest)) => if tag == 0 {
            Ok((None, rest))
        } else if tag == 1 {
            match parse_long_text(rest, field, max) {
                Err(e) => Err(e),
                Ok((value, rest)) => Ok((Some(value), rest)),
            }
        } else {
            Err(GenericIndexRecordError::InvalidOptionalTag { field, value: tag })
        },
    }
}

/// Reads the format byte off the front.
pub open spec fn parse_format(b: Seq<u8>) -> Parsed<u8> {
    match parse_u8(b, "value_format_version") {
        Err(e) => Err(e),
        Ok((actual, rest)) => if actual == GENERIC_INDEX_VALUE_FORMAT_VERSION {
            Ok((actual, rest))
        } else {
            Err(
                GenericIndexRecordError::UnsupportedValueVersion {
                    actual,
                    expected: GENERIC_INDEX_VALUE_FORMAT_VERSION,
                },
            )
        },
    }
}

/// Nothing may be left behind a record.
pub open spec fn end_check(rest: Seq<u8>) -> Result<(), GenericIndexFailure> {
    if rest.len() == 0 {
        Ok(())
    } else {
        Err(GenericIndexRecordError::TrailingBytes { count: rest.len() as usize })
    }
}

/// A row may not exceed its durable size.
pub open spec fn row_size_check(length: nat) -> Result<(), GenericIndexFailure> {
    generic_index_validate::require(
        length <= MAX_GENERIC_INDEX_ROW_BYTES,
        GenericIndexRecordError::LengthLimit {
            field: "generic_index_row",
            length: length as usize,
            max: MAX_GENERIC_INDEX_ROW_BYTES,
        },
    )
}

/// Reads a generation state off the front.
pub open spec fn parse_generation_state(b: Seq<u8>) -> Parsed<GenericIndexGenerationState> {
    match parse_u8(b, "generation_state") {
        Err(e) => Err(e),
        Ok((value, rest)) => match GenericIndexGenerationState::of_byte(value) {
            None => Err(
                GenericIndexRecordError::UnknownDiscriminant {
                    durable_type: GenericIndexGenerationState::durable_type(),
                    value,
                },
            ),
            Some(state) => Ok((state, rest)),
        },
    }
}

/// Reads a reference kind off the front.
pub open spec fn parse_reference_kind(b: Seq<u8>) -> Parsed<GenericIndexReferenceKind> {
    match parse_u8(b, "reference_kind") {
        Err(e) => Err(e),
        Ok((value, rest)) => match GenericIndexReferenceKind::of_byte(value) {
            None => Err(
                GenericIndexRecordError::UnknownDiscriminant {
                    durable_type: GenericIndexReferenceKind::durable_type(),
                    value,
                },
            ),
            Some(kind) => Ok((kind, rest)),
        },
    }
}

/// Reads a registration phase off the front.
pub open spec fn parse_registration_phase(b: Seq<u8>) -> Parsed<GenericIndexRegistrationPhase> {
    match parse_u8(b, "registration_phase") {
        Err(e) => Err(e),
        Ok((value, rest)) => match GenericIndexRegistrationPhase::of_byte(value) {
            None => Err(
                GenericIndexRecordError::UnknownDiscriminant {
                    durable_type: GenericIndexRegistrationPhase::durable_type(),
                    value,
                },
            ),
            Some(phase) => Ok((phase, rest)),
        },
    }
}

/// A byte string preceded by its 16-bit length.
pub open spec fn short_prefixed(value: Seq<u8>) -> Seq<u8> {
    bytes::be16(value.len() as u16) + value
}

/// Bytes of an optional text.
pub open spec fn optional_text(value: Option<Seq<u8>>) -> Seq<u8> {
    match value {
        None => seq![0u8],
        Some(value) => seq![1u8] + records::length_prefixed(value),
    }
}

/// Bytes of an optional position.
pub open spec fn optional_position(value: Option<u64>) -> Seq<u8> {
    match value {
        None => seq![0u8],
        Some(value) => seq![1u8] + bytes::be64(value),
    }
}

/// Byte of a boolean.
pub open spec fn bool_byte(value: bool) -> u8 {
    if value {
        1
    } else {
        0
    }
}

/// Items read so far, before the items that a read of the rest gives.
pub open spec fn prepend<V>(prefix: Seq<V>, parsed: Parsed<Seq<V>>) -> Parsed<Seq<V>> {
    match parsed {
        Err(e) => Err(e),
        Ok((items, rest)) => Ok((prefix + items, rest)),
    }
}

/// Bytes of operators.
pub open spec fn operators_encoding(operators: Seq<GenericIndexOperator>) -> Seq<u8>
    decreases operators.len(),
{
    if operators.len() == 0 {
        Seq::empty()
    } else {
        seq![operators[0].byte()] + operators_encoding(operators.drop_first())
    }
}

/// Reads one operator off the front.
pub open spec fn parse_operator(b: Seq<u8>) -> Parsed<GenericIndexOperator> {
    match parse_u8(b, "operator") {
        Err(e) => Err(e),
        Ok((value, rest)) => match GenericIndexOperator::of_byte(value) {
            None => Err(
                GenericIndexRecordError::UnknownDiscriminant {
                    durable_type: "GenericIndexOperator",
                    value,
                },
            ),
            Some(operator) => Ok((operator, rest)),
        },
    }
}

/// Reads `count` operators off the front.
pub open spec fn parse_operators(b: Seq<u8>, count: nat) -> Parsed<Seq<GenericIndexOperator>>
    decreases count,
{
    if count == 0 {
        Ok((Seq::empty(), b))
    } else {
        match parse_operator(b) {
            Err(e) => Err(e),
            Ok((operator, rest)) => prepend(
                seq![operator],
                parse_operators(rest, (count - 1) as nat),
            ),
        }
    }
}

impl GenericIndexFieldCapabilityView {
    /// Bytes of this capability.
    pub open spec fn encoding(self) -> Seq<u8> {
        short_prefixed(self.field) + seq![self.operators.len() as u8] + operators_encoding(
            self.operators,
        ) + seq![bool_byte(self.sortable)] + seq![bool_byte(self.facetable)]
    }

    /// What the types of the fields guarantee.
    pub open spec fn sized(self) -> bool {
        valid_utf8(self.field) && names::field_id_check(self.field) is Ok
    }

    /// Reads one capability off the front.
    pub open spec fn parse(b: Seq<u8>) -> Parsed<Self> {
        match parse_field_id(b) {
            Err(e) => Err(e),
            Ok((field, b1)) => match parse_u8(b1, "operator_count") {
                Err(e) => Err(e),
                Ok((count, b2)) => if count > MAX_GENERIC_INDEX_OPERATORS {
                    Err(
                        GenericIndexRecordError::CountLimit {
                            field: "operators",
                            count: count as usize,
                            max: MAX_GENERIC_INDEX_OPERATORS,
                        },
                    )
                } else {
                    match parse_operators(b2, count as nat) {
                        Err(e) => Err(e),
                        Ok((operators, b3)) => match parse_bool(b3, "sortable") {
                            Err(e) => Err(e),
                            Ok((sortable, b4)) => match parse_bool(b4, "facetable") {
                                Err(e) => Err(e),
                                Ok((facetable, b5)) => Ok(
                                    (
                                        GenericIndexFieldCapabilityView {
                                            field,
                                            operators,
                                            sortable,
                                            facetable,
                                        },
                                        b5,
                                    ),
                                ),
                            },
                        },
                    }
                },
            },
        }
    }
}

/// Bytes of the capabilities of a list, one behind the other.
pub open spec fn capability_list_encoding(
    capabilities: Seq<GenericIndexFieldCapabilityView>,
) -> Seq<u8>
    decreases capabilities.len(),
{
    if capabilities.len() == 0 {
        Seq::empty()
    } else {
        capabilities[0].encoding() + capability_list_encoding(capabilities.drop_first())
    }
}

/// Bytes of a catalog: a count, then each capability.
pub open spec fn capabilities_encoding(capabilities: Seq<GenericIndexFieldCapabilityView>) -> Seq<
    u8,
> {
    bytes::be16(capabilities.len() as u16) + capability_list_encoding(capabilities)
}

/// What the types of the fields guarantee of every capability.
pub open spec fn capabilities_sized(capabilities: Seq<GenericIndexFieldCapabilityView>) -> bool {
    forall|i: int| 0 <= i < capabilities.len() ==> (#[trigger] capabilities[i]).sized()
}

/// Reads `count` capabilities off the front.
pub open spec fn parse_capability_list(b: Seq<u8>, count: nat) -> Parsed<
    Seq<GenericIndexFieldCapabilityView>,
>
    decreases count,
{
    if count == 0 {
        Ok((Seq::empty(), b))
    } else {
        match GenericIndexFieldCapabilityView::parse(b) {
            Err(e) => Err(e),
            Ok((capability, rest)) => prepend(
                seq![capability],
                parse_capability_list(rest, (count - 1) as nat),
            ),
        }
    }
}

/// Reads a catalog off the front.
pub open spec fn parse_capabilities(b: Seq<u8>) -> Parsed<Seq<GenericIndexFieldCapabilityView>> {
    match parse_count(b, "capabilities", MAX_GENERIC_INDEX_FIELDS) {
        Err(e) => Err(e),
        Ok((count, rest)) => parse_capability_list(rest, count as nat),
    }
}

/// Bytes of a row value. Only texts, unsigned integers, and floats have any.
pub open spec fn scalar_encoding(value: QueryScalarView) -> Seq<u8> {
    match value {
        QueryScalarView::String(value) => seq![1u8] + records::length_prefixed(value),
        QueryScalarView::Unsigned(value) => seq![2u8] + bytes::be64(value),
        QueryScalarView::Float(bits) => seq![3u8] + bytes::be64(bits),
        _ => Seq::empty(),
    }
}

/// Reads one row value off the front.
pub open spec fn parse_scalar(b: Seq<u8>) -> Parsed<QueryScalarView> {
    match parse_u8(b, "scalar_type") {
        Err(e) => Err(e),
        Ok((tag, rest)) => if tag == 1 {
            match parse_long_text(rest, "string_scalar", MAX_QUERY_SCALAR_BYTES) {
                Err(e) => Err(e),
                Ok((value, rest)) => Ok((QueryScalarView::String(value), rest)),
            }
        } else if tag == 2 {
            match parse_u64(rest, "unsigned_scalar") {
                Err(e) => Err(e),
                Ok((value, rest)) => Ok((QueryScalarView::Unsigned(value), rest)),
            }
        } else if tag == 3 {
            match parse_u64(rest, "float_scalar") {
                Err(e) => Err(e),
                Ok((bits, rest)) => if !scalars::finite_bits(bits) {
                    Err(GenericIndexRecordError::NonFiniteFloat)
                } else if scalars::canonical_bits(bits) != bits {
                    Err(GenericIndexRecordError::NonCanonicalFloatZero)
                } else {
                    Ok((QueryScalarView::Float(bits), rest))
                },
            }
        } else {
            Err(
                GenericIndexRecordError::UnknownDiscriminant {
                    durable_type: "GenericIndexScalar",
                    value: tag,
                },
            )
        },
    }
}

/// Bytes of row values, one behind the other.
pub open spec fn scalar_list_encoding(values: Seq<QueryScalarView>) -> Seq<u8>
    decreases values.len(),
{
    if values.len() == 0 {
        Seq::empty()
    } else {
        scalar_encoding(values[0]) + scalar_list_encoding(values.drop_first())
    }
}

/// Reads `count` row values off the front.
pub open spec fn parse_scalar_list(b: Seq<u8>, count: nat) -> Parsed<Seq<QueryScalarView>>
    decreases count,
{
    if count == 0 {
        Ok((Seq::empty(), b))
    } else {
        match parse_scalar(b) {
            Err(e) => Err(e),
            Ok((value, rest)) => prepend(
                seq![value],
                parse_scalar_list(rest, (count - 1) as nat),
            ),
        }
    }
}

impl GenericIndexFieldValuesView {
    /// Bytes of the values of one field.
    pub open spec fn encoding(self) -> Seq<u8> {
        short_prefixed(self.field) + bytes::be16(self.values.len() as u16) + scalar_list_encoding(
            self.values,
        )
    }

    /// What the types of the fields guarantee.
    pub open spec fn sized(self) -> bool {
        &&& valid_utf8(self.field)
        &&& names::field_id_check(self.field) is Ok
        &&& forall|i: int| 0 <= i < self.values.len() ==> (#[trigger] self.values[i]).valid()
    }

    /// Reads the values of one field off the front.
    pub open spec fn parse(b: Seq<u8>) -> Parsed<Self> {
        match parse_field_id(b) {
            Err(e) => Err(e),
            Ok((field, b1)) => match parse_count(
                b1,
                "field_values",
                MAX_GENERIC_INDEX_VALUES_PER_FIELD,
            ) {
                Err(e) => Err(e),
                Ok((count, b2)) => match parse_scalar_list(b2, count as nat) {
                    Err(e) => Err(e),
                    Ok((values, b3)) => Ok((GenericIndexFieldValuesView { field, values }, b3)),
                },
            },
        }
    }
}

/// Bytes of the fields of a row, one behind the other.
pub open spec fn field_list_encoding(values: Seq<GenericIndexFieldValuesView>) -> Seq<u8>
    decreases values.len(),
{
    if values.len() == 0 {
        Seq::empty()
    } else {
        values[0].encoding() + field_list_encoding(values.drop_first())
    }
}

/// Bytes of the fields of a row: a count, then each field.
pub open spec fn row_fields_encoding(values: Seq<GenericIndexFieldValuesView>) -> Seq<u8> {
    bytes::be16(values.len() as u16) + field_list_encoding(values)
}

/// What the types of the fields guarantee of every field of a row.
pub open spec fn row_fields_sized(values: Seq<GenericIndexFieldValuesView>) -> bool {
    forall|i: int| 0 <= i < values.len() ==> (#[trigger] values[i]).sized()
}

/// Reads `count` fields of a row off the front.
pub open spec fn parse_field_list(b: Seq<u8>, count: nat) -> Parsed<
    Seq<GenericIndexFieldValuesView>,
>
    decreases count,
{
    if count == 0 {
        Ok((Seq::empty(), b))
    } else {
        match GenericIndexFieldValuesView::parse(b) {
            Err(e) => Err(e),
            Ok((field_values, rest)) => prepend(
                seq![field_values],
                parse_field_list(rest, (count - 1) as nat),
            ),
        }
    }
}

/// Reads the fields of a row off the front.
pub open spec fn parse_row_fields(b: Seq<u8>) -> Parsed<Seq<GenericIndexFieldValuesView>> {
    match parse_count(b, "row_fields", MAX_GENERIC_INDEX_ROW_FIELDS) {
        Err(e) => Err(e),
        Ok((count, rest)) => parse_field_list(rest, count as nat),
    }
}

impl GenericIndexRowBindingView {
    /// Bytes of this binding.
    pub open spec fn encoding(self) -> Seq<u8> {
        match self {
            Self::Directory => seq![1u8],
            Self::Unbound => seq![2u8],
            Self::Artifact { artifact_revision_id, path_generation } => seq![3u8]
                + artifact_revision_id + bytes::be64(path_generation),
        }
    }

    /// What the types of the fields guarantee.
    pub open spec fn sized(self) -> bool {
        self matches Self::Artifact { artifact_revision_id, path_generation }
            ==> artifact_revision_id.len() == 16 && path_generation != 0
    }

    /// Reads a binding off the front.
    pub open spec fn parse(b: Seq<u8>) -> Parsed<Self> {
        match parse_u8(b, "row_binding") {
            Err(e) => Err(e),
            Ok((tag, rest)) => if tag == 1 {
                Ok((Self::Directory, rest))
            } else if tag == 2 {
                Ok((Self::Unbound, rest))
            } else if tag == 3 {
                match take_field(rest, "artifact_revision_id", 16) {
                    Err(e) => Err(e),
                    Ok((artifact_revision_id, rest)) => match parse_position(
                        rest,
                        "path_generation",
                    ) {
                        Err(e) => Err(e),
                        Ok((path_generation, rest)) => Ok(
                            (Self::Artifact { artifact_revision_id, path_generation }, rest),
                        ),
                    },
                }
            } else {
                Err(
                    GenericIndexRecordError::UnknownDiscriminant {
                        durable_type: "GenericIndexRowBinding",
                        value: tag,
                    },
                )
            },
        }
    }
}

impl GenericIndexCurrentRecordView {
    /// Durable bytes of this current pointer.
    pub open spec fn encoding(self) -> Seq<u8> {
        seq![GENERIC_INDEX_VALUE_FORMAT_VERSION]
            + self.generation_id
            + bytes::be64(self.pointer_generation)
            + self.capability_digest
            + bytes::be64(self.row_count)
            + self.row_digest
    }

    /// What the types of the fields guarantee.
    pub open spec fn sized(self) -> bool {
        &&& self.generation_id.len() == 16
        &&& self.pointer_generation != 0
        &&& self.capability_digest.len() == 32
        &&& self.row_digest.len() == 32
    }

    /// Reads the fields of a current pointer, without checking it.
    pub open spec fn parse_fields(b: Seq<u8>) -> Parsed<Self> {
        match parse_format(b) {
            Err(e) => Err(e),
            Ok((_, b1)) => match take_field(b1, "generation_id", 16) {
                Err(e) => Err(e),
                Ok((generation_id, b2)) => match parse_position(b2, "pointer_generation") {
                    Err(e) => Err(e),
                    Ok((pointer_generation, b3)) => match take_field(b3, "capability_digest", 32) {
                        Err(e) => Err(e),
                        Ok((capability_digest, b4)) => match parse_u64(b4, "row_count") {
                            Err(e) => Err(e),
                            Ok((row_count, b5)) => match take_field(b5, "row_digest", 32) {
                                Err(e) => Err(e),
                                Ok((row_digest, b6)) => Ok((GenericIndexCurrentRecordView { generation_id, pointer_generation, capability_digest, row_count, row_digest }, b6)),
                            },
                        },
                    },
                },
            },
        }
    }

    /// A closure of no rows has the empty digest.
    pub open spec fn check(self) -> Result<(), GenericIndexFailure> {
        generic_index_validate::row_closure_check(self.row_count, self.row_digest)
    }

    /// The current pointer that `b` encodes, or why it encodes none.
    pub open spec fn parse(b: Seq<u8>) -> Result<Self, GenericIndexFailure> {
        match Self::parse_fields(b) {
            Err(e) => Err(e),
            Ok((record, rest)) => match generic_index_validate::and_also(
                end_check(rest),
                record.check(),
            ) {
                Err(e) => Err(e),
                Ok(()) => Ok(record),
            },
        }
    }
}

impl GenericIndexGenerationRecordView {
    /// Durable bytes of this generation header.
    pub open spec fn encoding(self) -> Seq<u8> {
        seq![GENERIC_INDEX_VALUE_FORMAT_VERSION]
            + capabilities_encoding(self.capabilities)
            + bytes::be64(self.declared_row_count)
            + bytes::be64(self.appended_row_count)
            + self.rolling_row_digest
            + bytes::be64(self.reference_count)
            + bytes::be64(self.reference_epoch)
            + optional_position(self.last_zero_reference_version)
            + seq![self.state.byte()]
    }

    /// What the types of the fields guarantee.
    pub open spec fn sized(self) -> bool {
        &&& capabilities_sized(self.capabilities)
        &&& self.rolling_row_digest.len() == 32
        &&& (self.last_zero_reference_version matches Some(position) ==> position != 0)
    }

    /// Reads the fields of a generation header, without checking it.
    pub open spec fn parse_fields(b: Seq<u8>) -> Parsed<Self> {
        match parse_format(b) {
            Err(e) => Err(e),
            Ok((_, b1)) => match parse_capabilities(b1) {
                Err(e) => Err(e),
                Ok((capabilities, b2)) => match parse_u64(b2, "declared_row_count") {
                    Err(e) => Err(e),
                    Ok((declared_row_count, b3)) => match parse_u64(b3, "appended_row_count") {
                        Err(e) => Err(e),
                        Ok((appended_row_count, b4)) => match take_field(b4, "rolling_row_digest", 32) {
                            Err(e) => Err(e),
                            Ok((rolling_row_digest, b5)) => match parse_u64(b5, "reference_count") {
                                Err(e) => Err(e),
                                Ok((reference_count, b6)) => match parse_u64(b6, "reference_epoch") {
                                    Err(e) => Err(e),
                                    Ok((reference_epoch, b7)) => match parse_optional_position(b7, "last_zero_reference_version") {
                                        Err(e) => Err(e),
                                        Ok((last_zero_reference_version, b8)) => match parse_generation_state(b8) {
                                            Err(e) => Err(e),
                                            Ok((state, b9)) => Ok((GenericIndexGenerationRecordView { capabilities, declared_row_count, appended_row_count, rolling_row_digest, reference_count, reference_epoch, last_zero_reference_version, state }, b9)),
                                        },
                                    },
                                },
                            },
                        },
                    },
                },
            },
        }
    }

    /// The generation header that `b` encodes, or why it encodes none.
    pub open spec fn parse(b: Seq<u8>) -> Result<Self, GenericIndexFailure> {
        match Self::parse_fields(b) {
            Err(e) => Err(e),
            Ok((record, rest)) => match generic_index_validate::and_also(
                end_check(rest),
                record.check(),
            ) {
                Err(e) => Err(e),
                Ok(()) => Ok(record),
            },
        }
    }
}

impl GenericIndexRowRecordView {
    /// Durable bytes of this row.
    pub open spec fn encoding(self) -> Seq<u8> {
        seq![GENERIC_INDEX_VALUE_FORMAT_VERSION]
            + optional_text(self.relative_path)
            + self.binding.encoding()
            + row_fields_encoding(self.values)
    }

    /// What the types of the fields guarantee.
    pub open spec fn sized(self) -> bool {
        &&& (self.relative_path matches Some(path) ==> valid_utf8(path) && names::path_check(path) is Ok)
        &&& self.binding.sized()
        &&& row_fields_sized(self.values)
    }

    /// Reads the fields of a row, without checking it.
    pub open spec fn parse_fields(b: Seq<u8>) -> Parsed<Self> {
        match parse_format(b) {
            Err(e) => Err(e),
            Ok((_, b1)) => match parse_optional_path(b1) {
                Err(e) => Err(e),
                Ok((relative_path, b2)) => match GenericIndexRowBindingView::parse(b2) {
                    Err(e) => Err(e),
                    Ok((binding, b3)) => match parse_row_fields(b3) {
                        Err(e) => Err(e),
                        Ok((values, b4)) => Ok((GenericIndexRowRecordView { relative_path, binding, values }, b4)),
                    },
                },
            },
        }
    }

    /// Why this row has no durable bytes, if it has none.
    pub open spec fn encode_check(self) -> Result<(), GenericIndexFailure> {
        generic_index_validate::and_also(self.check(), row_size_check(self.encoding().len()))
    }

    /// The row that `b` encodes, or why it encodes none.
    pub open spec fn parse(b: Seq<u8>) -> Result<Self, GenericIndexFailure> {
        match row_size_check(b.len()) {
            Err(e) => Err(e),
            Ok(()) => match Self::parse_fields(b) {
                Err(e) => Err(e),
                Ok((record, rest)) => match generic_index_validate::and_also(
                    end_check(rest),
                    record.check(),
                ) {
                    Err(e) => Err(e),
                    Ok(()) => Ok(record),
                },
            },
        }
    }
}

impl GenericIndexGenerationRefRecordView {
    /// Durable bytes of this generation reference.
    pub open spec fn encoding(self) -> Seq<u8> {
        seq![GENERIC_INDEX_VALUE_FORMAT_VERSION]
            + seq![self.kind.byte()]
            + self.owner_digest
            + bytes::be64(self.reference_epoch_at_add)
    }

    /// What the types of the fields guarantee.
    pub open spec fn sized(self) -> bool {
        &&& self.owner_digest.len() == 32
    }

    /// Reads the fields of a generation reference, without checking it.
    pub open spec fn parse_fields(b: Seq<u8>) -> Parsed<Self> {
        match parse_format(b) {
            Err(e) => Err(e),
            Ok((_, b1)) => match parse_reference_kind(b1) {
                Err(e) => Err(e),
                Ok((kind, b2)) => match take_field(b2, "owner_digest", 32) {
                    Err(e) => Err(e),
                    Ok((owner_digest, b3)) => match parse_u64(b3, "reference_epoch_at_add") {
                        Err(e) => Err(e),
                        Ok((reference_epoch_at_add, b4)) => Ok((GenericIndexGenerationRefRecordView { kind, owner_digest, reference_epoch_at_add }, b4)),
                    },
                },
            },
        }
    }

    /// The generation reference that `b` encodes, or why it encodes none.
    pub open spec fn parse(b: Seq<u8>) -> Result<Self, GenericIndexFailure> {
        match Self::parse_fields(b) {
            Err(e) => Err(e),
            Ok((record, rest)) => match generic_index_validate::and_also(
                end_check(rest),
                record.check(),
            ) {
                Err(e) => Err(e),
                Ok(()) => Ok(record),
            },
        }
    }
}

impl GenericIndexAppendReceiptRecordView {
    /// Durable bytes of this append receipt.
    pub open spec fn encoding(self) -> Seq<u8> {
        seq![GENERIC_INDEX_VALUE_FORMAT_VERSION]
            + bytes::be64(self.first_sequence)
            + bytes::be32(self.row_count)
            + bytes::be64(self.commit_version)
            + self.input_digest
            + bytes::be64(self.resulting_row_count)
            + self.resulting_row_digest
    }

    /// What the types of the fields guarantee.
    pub open spec fn sized(self) -> bool {
        &&& self.commit_version != 0
        &&& self.input_digest.len() == 32
        &&& self.resulting_row_digest.len() == 32
    }

    /// Reads the fields of a append receipt, without checking it.
    pub open spec fn parse_fields(b: Seq<u8>) -> Parsed<Self> {
        match parse_format(b) {
            Err(e) => Err(e),
            Ok((_, b1)) => match parse_u64(b1, "first_sequence") {
                Err(e) => Err(e),
                Ok((first_sequence, b2)) => match parse_u32(b2, "row_count") {
                    Err(e) => Err(e),
                    Ok((row_count, b3)) => match parse_position(b3, "commit_version") {
                        Err(e) => Err(e),
                        Ok((commit_version, b4)) => match take_field(b4, "input_digest", 32) {
                            Err(e) => Err(e),
                            Ok((input_digest, b5)) => match parse_u64(b5, "resulting_row_count") {
                                Err(e) => Err(e),
                                Ok((resulting_row_count, b6)) => match take_field(b6, "resulting_row_digest", 32) {
                                    Err(e) => Err(e),
                                    Ok((resulting_row_digest, b7)) => Ok((GenericIndexAppendReceiptRecordView { first_sequence, row_count, commit_version, input_digest, resulting_row_count, resulting_row_digest }, b7)),
                                },
                            },
                        },
                    },
                },
            },
        }
    }

    /// The append receipt that `b` encodes, or why it encodes none.
    pub open spec fn parse(b: Seq<u8>) -> Result<Self, GenericIndexFailure> {
        match Self::parse_fields(b) {
            Err(e) => Err(e),
            Ok((record, rest)) => match generic_index_validate::and_also(
                end_check(rest),
                record.check(),
            ) {
                Err(e) => Err(e),
                Ok(()) => Ok(record),
            },
        }
    }
}

impl GenericIndexRegistrationOperationRecordView {
    /// Durable bytes of this registration.
    pub open spec fn encoding(self) -> Seq<u8> {
        seq![GENERIC_INDEX_VALUE_FORMAT_VERSION]
            + self.workspace_incarnation_id
            + optional_text(self.index_path)
            + self.generation_id
            + self.request_digest
            + bytes::be64(self.source_read_version)
            + bytes::be64(self.last_transition_version)
            + optional_position(self.expected_current_generation)
            + self.capability_digest
            + bytes::be64(self.declared_row_count)
            + bytes::be64(self.appended_row_count)
            + self.rolling_row_digest
            + seq![self.phase.byte()]
            + optional_position(self.published_pointer_generation)
            + optional_text(self.terminal_error)
    }

    /// What the types of the fields guarantee.
    pub open spec fn sized(self) -> bool {
        &&& self.workspace_incarnation_id.len() == 16
        &&& (self.index_path matches Some(path) ==> valid_utf8(path) && names::path_check(path) is Ok)
        &&& self.generation_id.len() == 16
        &&& self.request_digest.len() == 32
        &&& self.source_read_version != 0
        &&& self.last_transition_version != 0
        &&& (self.expected_current_generation matches Some(position) ==> position != 0)
        &&& self.capability_digest.len() == 32
        &&& self.rolling_row_digest.len() == 32
        &&& (self.published_pointer_generation matches Some(position) ==> position != 0)
        &&& (self.terminal_error matches Some(value) ==> valid_utf8(value))
    }

    /// Reads the fields of a registration, without checking it.
    pub open spec fn parse_fields(b: Seq<u8>) -> Parsed<Self> {
        match parse_format(b) {
            Err(e) => Err(e),
            Ok((_, b1)) => match take_field(b1, "workspace_incarnation_id", 16) {
                Err(e) => Err(e),
                Ok((workspace_incarnation_id, b2)) => match parse_optional_path(b2) {
                    Err(e) => Err(e),
                    Ok((index_path, b3)) => match take_field(b3, "generation_id", 16) {
                        Err(e) => Err(e),
                        Ok((generation_id, b4)) => match take_field(b4, "request_digest", 32) {
                            Err(e) => Err(e),
                            Ok((request_digest, b5)) => match parse_position(b5, "source_read_version") {
                                Err(e) => Err(e),
                                Ok((source_read_version, b6)) => match parse_position(b6, "last_transition_version") {
                                    Err(e) => Err(e),
                                    Ok((last_transition_version, b7)) => match parse_optional_position(b7, "expected_current_generation") {
                                        Err(e) => Err(e),
                                        Ok((expected_current_generation, b8)) => match take_field(b8, "capability_digest", 32) {
                                            Err(e) => Err(e),
                                            Ok((capability_digest, b9)) => match parse_u64(b9, "declared_row_count") {
                                                Err(e) => Err(e),
                                                Ok((declared_row_count, b10)) => match parse_u64(b10, "appended_row_count") {
                                                    Err(e) => Err(e),
                                                    Ok((appended_row_count, b11)) => match take_field(b11, "rolling_row_digest", 32) {
                                                        Err(e) => Err(e),
                                                        Ok((rolling_row_digest, b12)) => match parse_registration_phase(b12) {
                                                            Err(e) => Err(e),
                                                            Ok((phase, b13)) => match parse_optional_position(b13, "published_pointer_generation") {
                                                                Err(e) => Err(e),
                                                                Ok((published_pointer_generation, b14)) => match parse_optional_text(b14, "terminal_error", MAX_GENERIC_INDEX_TERMINAL_ERROR_BYTES) {
                                                                    Err(e) => Err(e),
                                                                    Ok((terminal_error, b15)) => Ok((GenericIndexRegistrationOperationRecordView { workspace_incarnation_id, index_path, generation_id, request_digest, source_read_version, last_transition_version, expected_current_generation, capability_digest, declared_row_count, appended_row_count, rolling_row_digest, phase, published_pointer_generation, terminal_error }, b15)),
                                                                },
                                                            },
                                                        },
                                                    },
                                                },
                                            },
                                        },
                                    },
                                },
                            },
                        },
                    },
                },
            },
        }
    }

    /// The registration that `b` encodes, or why it encodes none.
    pub open spec fn parse(b: Seq<u8>) -> Result<Self, GenericIndexFailure> {
        match Self::parse_fields(b) {
            Err(e) => Err(e),
            Ok((record, rest)) => match generic_index_validate::and_also(
                end_check(rest),
                record.check(),
            ) {
                Err(e) => Err(e),
                Ok(()) => Ok(record),
            },
        }
    }
}

impl CommitGenericIndexMemberRecordView {
    /// Durable bytes of this commit member.
    pub open spec fn encoding(self) -> Seq<u8> {
        seq![GENERIC_INDEX_VALUE_FORMAT_VERSION]
            + self.generation_id
            + self.capability_digest
            + bytes::be64(self.row_count)
            + self.row_digest
    }

    /// What the types of the fields guarantee.
    pub open spec fn sized(self) -> bool {
        &&& self.generation_id.len() == 16
        &&& self.capability_digest.len() == 32
        &&& self.row_digest.len() == 32
    }

    /// Reads the fields of a commit member, without checking it.
    pub open spec fn parse_fields(b: Seq<u8>) -> Parsed<Self> {
        match parse_format(b) {
            Err(e) => Err(e),
            Ok((_, b1)) => match take_field(b1, "generation_id", 16) {
                Err(e) => Err(e),
                Ok((generation_id, b2)) => match take_field(b2, "capability_digest", 32) {
                    Err(e) => Err(e),
                    Ok((capability_digest, b3)) => match parse_u64(b3, "row_count") {
                        Err(e) => Err(e),
                        Ok((row_count, b4)) => match take_field(b4, "row_digest", 32) {
                            Err(e) => Err(e),
                            Ok((row_digest, b5)) => Ok((CommitGenericIndexMemberRecordView { generation_id, capability_digest, row_count, row_digest }, b5)),
                        },
                    },
                },
            },
        }
    }

    /// A closure of no rows has the empty digest.
    pub open spec fn check(self) -> Result<(), GenericIndexFailure> {
        generic_index_validate::row_closure_check(self.row_count, self.row_digest)
    }

    /// The commit member that `b` encodes, or why it encodes none.
    pub open spec fn parse(b: Seq<u8>) -> Result<Self, GenericIndexFailure> {
        match Self::parse_fields(b) {
            Err(e) => Err(e),
            Ok((record, rest)) => match generic_index_validate::and_also(
                end_check(rest),
                record.check(),
            ) {
                Err(e) => Err(e),
                Ok(()) => Ok(record),
            },
        }
    }
}

} // verus!
