//! The checks that admit Generic index records.

use vstd::prelude::*;
use vstd::utf8::*;

use crate::bytes;
use crate::generic_index_records;
use crate::generic_index_records::{
    GenericIndexAppendReceiptRecord, GenericIndexAppendReceiptRecordView, GenericIndexFailure,
    GenericIndexFieldCapability, GenericIndexFieldCapabilityView, GenericIndexFieldValues,
    GenericIndexFieldValuesView, GenericIndexGenerationRecord, GenericIndexGenerationRecordView,
    GenericIndexGenerationRefRecord, GenericIndexGenerationRefRecordView, GenericIndexOperator,
    GenericIndexRecordError, GenericIndexRegistrationOperationRecord,
    GenericIndexRegistrationOperationRecordView, GenericIndexRowBinding, GenericIndexRowRecord,
    GenericIndexRowRecordView, MAX_GENERIC_INDEX_APPEND_ROWS, MAX_GENERIC_INDEX_FIELDS,
    MAX_GENERIC_INDEX_ROW_FIELDS, MAX_GENERIC_INDEX_TERMINAL_ERROR_BYTES,
    MAX_GENERIC_INDEX_VALUES_PER_FIELD,
};
use crate::names::QueryFieldId;
use crate::publish_validate;
use crate::scalars::{QueryScalar, QueryScalarView, MAX_QUERY_SCALAR_BYTES};
use crate::states::{GenericIndexGenerationState, GenericIndexRegistrationPhase};
use crate::text;

verus! {

/// The result of a check, with its failure as contents.
pub open spec fn checked(result: Result<(), GenericIndexRecordError>) -> Result<
    (),
    GenericIndexFailure,
> {
    match result {
        Ok(()) => Ok(()),
        Err(e) => Err(e.model()),
    }
}

/// Passes exactly when the condition holds.
pub open spec fn require(condition: bool, failure: GenericIndexFailure) -> Result<
    (),
    GenericIndexFailure,
> {
    if condition {
        Ok(())
    } else {
        Err(failure)
    }
}

/// The first check, and the second when the first passes.
pub open spec fn and_also(
    first: Result<(), GenericIndexFailure>,
    second: Result<(), GenericIndexFailure>,
) -> Result<(), GenericIndexFailure> {
    match first {
        Err(e) => Err(e),
        Ok(()) => second,
    }
}

/// The digest of no rows: thirty-two zero bytes.
pub open spec fn empty_row_digest() -> Seq<u8> {
    publish_validate::zero_digest()
}

/// Canonical empty rolling digest used before the first appended row.
pub fn empty_generic_index_row_digest() -> (digest: [u8; 32])
    ensures
        digest@ == empty_row_digest(),
{
    let digest: [u8; 32] = [0; 32];
    assert(digest@ =~= empty_row_digest());
    digest
}

/// A closure of no rows has the empty digest.
pub open spec fn row_closure_check(row_count: u64, row_digest: Seq<u8>) -> Result<
    (),
    GenericIndexFailure,
> {
    require(
        row_count == 0 ==> row_digest == empty_row_digest(),
        GenericIndexRecordError::InvalidSeal {
            reason: "a zero-row closure must use the canonical empty digest",
        },
    )
}

/// Checks a row count against its digest.
pub fn validate_row_closure(row_count: u64, row_digest: &[u8; 32]) -> (result: Result<
    (),
    GenericIndexRecordError,
>)
    ensures
        checked(result) == row_closure_check(row_count, row_digest@),
{
    if row_count == 0 && !publish_validate::is_zero_digest(row_digest) {
        Err(
            GenericIndexRecordError::InvalidSeal {
                reason: "a zero-row closure must use the canonical empty digest",
            },
        )
    } else {
        Ok(())
    }
}

/// The field ids that no custom field may take.
pub open spec fn reserved_field(field: Seq<u8>) -> bool {
    ||| field == bytes::utf8("body.content_type"@)
    ||| field == bytes::utf8("body.manifest_id"@)
    ||| field == bytes::utf8("body.producer"@)
    ||| field == bytes::utf8("kind"@)
    ||| field == bytes::utf8("name"@)
    ||| field == bytes::utf8("path"@)
    ||| field == bytes::utf8("size_bytes"@)
}

/// Whether a field id is reserved.
pub fn is_reserved_field(field: &QueryFieldId) -> (reserved: bool)
    ensures
        reserved == reserved_field(field@),
{
    let b = field.as_bytes();
    bytes::bytes_equal(b, "body.content_type".as_bytes()) || bytes::bytes_equal(
        b,
        "body.manifest_id".as_bytes(),
    ) || bytes::bytes_equal(b, "body.producer".as_bytes()) || bytes::bytes_equal(
        b,
        "kind".as_bytes(),
    ) || bytes::bytes_equal(b, "name".as_bytes()) || bytes::bytes_equal(b, "path".as_bytes())
        || bytes::bytes_equal(b, "size_bytes".as_bytes())
}

/// A custom field may not shadow a built-in one.
pub open spec fn custom_field_check(field: Seq<u8>) -> Result<(), GenericIndexFailure> {
    require(!reserved_field(field), GenericIndexRecordError::ReservedField { field })
}

/// Checks that a custom field does not shadow a built-in one. Every field id
/// is well formed by construction.
pub fn validate_custom_field(field: &QueryFieldId) -> (result: Result<
    (),
    GenericIndexRecordError,
>)
    ensures
        checked(result) == custom_field_check(field@),
{
    if is_reserved_field(field) {
        Err(GenericIndexRecordError::ReservedField { field: field.to_text() })
    } else {
        Ok(())
    }
}

/// Operators are strictly ordered.
pub open spec fn operators_ordered(operators: Seq<GenericIndexOperator>) -> bool {
    forall|i: int|
        0 <= i < operators.len() - 1 ==> (#[trigger] operators[i]).byte() < operators[i + 1].byte()
}

/// Whether operators are strictly ordered.
fn are_operators_ordered(operators: &Vec<GenericIndexOperator>) -> (ordered: bool)
    ensures
        ordered == operators_ordered(operators@),
{
    let mut i: usize = 1;
    while i < operators.len()
        invariant
            1 <= i,
            i <= operators@.len() || operators@.len() == 0,
            forall|j: int|
                0 <= j < i - 1 && j < operators@.len() - 1 ==> (#[trigger] operators@[j]).byte()
                    < operators@[j + 1].byte(),
        decreases operators@.len() - i,
    {
        if operators[i - 1].to_byte() >= operators[i].to_byte() {
            assert(!((operators@[i - 1]).byte() < operators@[i - 1 + 1].byte()));
            return false;
        }
        i = i + 1;
    }
    true
}

/// Checks capabilities from index `i` on: each names a custom field, comes
/// strictly after the one before it, and has strictly ordered operators.
pub open spec fn capabilities_check_from(
    capabilities: Seq<GenericIndexFieldCapabilityView>,
    i: int,
) -> Result<(), GenericIndexFailure>
    decreases capabilities.len() - i,
{
    if i >= capabilities.len() {
        Ok(())
    } else {
        let field = capabilities[i].field;
        match custom_field_check(field) {
            Err(e) => Err(e),
            Ok(()) => if i > 0 && !bytes::lex_less(capabilities[i - 1].field, field) {
                Err(GenericIndexRecordError::CapabilitiesNotCanonical)
            } else if !operators_ordered(capabilities[i].operators) {
                Err(GenericIndexRecordError::OperatorsNotCanonical { field })
            } else {
                capabilities_check_from(capabilities, i + 1)
            },
        }
    }
}

/// A catalog is bounded, strictly ordered, and names custom fields only.
pub open spec fn capabilities_check(capabilities: Seq<GenericIndexFieldCapabilityView>) -> Result<
    (),
    GenericIndexFailure,
> {
    if capabilities.len() > MAX_GENERIC_INDEX_FIELDS {
        Err(
            GenericIndexRecordError::CountLimit {
                field: "capabilities",
                count: capabilities.len() as usize,
                max: MAX_GENERIC_INDEX_FIELDS,
            },
        )
    } else {
        capabilities_check_from(capabilities, 0)
    }
}

/// Checks a catalog.
pub fn validate_capabilities(capabilities: &Vec<GenericIndexFieldCapability>) -> (result: Result<
    (),
    GenericIndexRecordError,
>)
    ensures
        checked(result) == capabilities_check(
            generic_index_records::capability_views(capabilities@),
        ),
{
    let ghost views = generic_index_records::capability_views(capabilities@);
    if capabilities.len() > MAX_GENERIC_INDEX_FIELDS {
        return Err(
            GenericIndexRecordError::CountLimit {
                field: "capabilities",
                count: capabilities.len(),
                max: MAX_GENERIC_INDEX_FIELDS,
            },
        );
    }
    let mut i: usize = 0;
    while i < capabilities.len()
        invariant
            i <= capabilities@.len(),
            views == generic_index_records::capability_views(capabilities@),
            capabilities_check(views) == capabilities_check_from(views, i as int),
        decreases capabilities@.len() - i,
    {
        let capability = &capabilities[i];
        assert(views[i as int] == capability@);
        validate_custom_field(&capability.field)?;
        if i > 0 {
            assert(views[i - 1] == capabilities@[i - 1]@);
            if !capabilities[i - 1].field.before(&capability.field) {
                return Err(GenericIndexRecordError::CapabilitiesNotCanonical);
            }
        }
        if !are_operators_ordered(&capability.operators) {
            return Err(
                GenericIndexRecordError::OperatorsNotCanonical { field: capability.field.to_text() },
            );
        }
        i = i + 1;
    }
    Ok(())
}

/// Name of a scalar type that no Generic index row holds.
pub open spec fn unsupported_type_name(value: QueryScalarView) -> &'static str {
    match value {
        QueryScalarView::Null => "null",
        QueryScalarView::Boolean(_) => "boolean",
        QueryScalarView::Signed(_) => "signed",
        QueryScalarView::Timestamp(_) => "timestamp",
        _ => "bytes",
    }
}

/// A row value is a bounded text, an unsigned integer, or a finite float.
pub open spec fn generic_scalar_check(field: Seq<u8>, value: QueryScalarView) -> Result<
    (),
    GenericIndexFailure,
> {
    match value {
        QueryScalarView::String(value) => require(
            value.len() <= MAX_QUERY_SCALAR_BYTES,
            GenericIndexRecordError::LengthLimit {
                field: "string_scalar",
                length: value.len() as usize,
                max: MAX_QUERY_SCALAR_BYTES,
            },
        ),
        QueryScalarView::Unsigned(_) => Ok(()),
        QueryScalarView::Float(_) => Ok(()),
        value => Err(
            GenericIndexRecordError::UnsupportedScalarType {
                field,
                scalar_type: unsupported_type_name(value),
            },
        ),
    }
}

/// Checks one row value.
pub fn validate_generic_scalar(field: &QueryFieldId, value: &QueryScalar) -> (result: Result<
    (),
    GenericIndexRecordError,
>)
    ensures
        checked(result) == generic_scalar_check(field@, value@),
{
    match value {
        QueryScalar::String(value) => {
            let length: usize = value.as_str().as_bytes().len();
            if length > MAX_QUERY_SCALAR_BYTES {
                return Err(
                    GenericIndexRecordError::LengthLimit {
                        field: "string_scalar",
                        length,
                        max: MAX_QUERY_SCALAR_BYTES,
                    },
                );
            }
            Ok(())
        },
        QueryScalar::Unsigned(_) => Ok(()),
        QueryScalar::Float(_) => Ok(()),
        QueryScalar::Null => Err(unsupported_scalar(field, "null")),
        QueryScalar::Boolean(_) => Err(unsupported_scalar(field, "boolean")),
        QueryScalar::Signed(_) => Err(unsupported_scalar(field, "signed")),
        QueryScalar::Timestamp(_) => Err(unsupported_scalar(field, "timestamp")),
        QueryScalar::Bytes(_) => Err(unsupported_scalar(field, "bytes")),
    }
}

/// The failure of a value whose type no row holds.
fn unsupported_scalar(field: &QueryFieldId, scalar_type: &'static str) -> (error:
    GenericIndexRecordError)
    ensures
        error.model() == (GenericIndexRecordError::UnsupportedScalarType {
            field: field@,
            scalar_type,
        }),
{
    GenericIndexRecordError::UnsupportedScalarType { field: field.to_text(), scalar_type }
}

/// Checks the values of one field from index `i` on.
pub open spec fn scalars_check_from(field: Seq<u8>, values: Seq<QueryScalarView>, i: int) -> Result<
    (),
    GenericIndexFailure,
>
    decreases values.len() - i,
{
    if i >= values.len() {
        Ok(())
    } else {
        and_also(
            generic_scalar_check(field, values[i]),
            scalars_check_from(field, values, i + 1),
        )
    }
}

impl GenericIndexFieldValuesView {
    /// One field of a row has between one and the maximum of values.
    pub open spec fn check(self) -> Result<(), GenericIndexFailure> {
        if self.values.len() == 0 {
            Err(GenericIndexRecordError::EmptyFieldValues { field: self.field })
        } else if self.values.len() > MAX_GENERIC_INDEX_VALUES_PER_FIELD {
            Err(
                GenericIndexRecordError::CountLimit {
                    field: "field_values",
                    count: self.values.len() as usize,
                    max: MAX_GENERIC_INDEX_VALUES_PER_FIELD,
                },
            )
        } else {
            scalars_check_from(self.field, self.values, 0)
        }
    }
}

impl GenericIndexFieldValues {
    /// Checks the values of one field.
    fn validate(&self) -> (result: Result<(), GenericIndexRecordError>)
        ensures
            checked(result) == self@.check(),
    {
        let ghost view = self@;
        if self.values.len() == 0 {
            return Err(GenericIndexRecordError::EmptyFieldValues { field: self.field.to_text() });
        }
        if self.values.len() > MAX_GENERIC_INDEX_VALUES_PER_FIELD {
            return Err(
                GenericIndexRecordError::CountLimit {
                    field: "field_values",
                    count: self.values.len(),
                    max: MAX_GENERIC_INDEX_VALUES_PER_FIELD,
                },
            );
        }
        let mut i: usize = 0;
        while i < self.values.len()
            invariant
                i <= self.values@.len(),
                view == self@,
                view.check() == scalars_check_from(view.field, view.values, i as int),
            decreases self.values@.len() - i,
        {
            assert(view.values[i as int] == self.values@[i as int]@);
            validate_generic_scalar(&self.field, &self.values[i])?;
            i = i + 1;
        }
        Ok(())
    }
}

/// Checks the fields of a row from index `i` on: each is a custom field and
/// comes strictly after the one before it.
pub open spec fn row_fields_check_from(values: Seq<GenericIndexFieldValuesView>, i: int) -> Result<
    (),
    GenericIndexFailure,
>
    decreases values.len() - i,
{
    if i >= values.len() {
        Ok(())
    } else {
        match custom_field_check(values[i].field) {
            Err(e) => Err(e),
            Ok(()) => if i > 0 && !bytes::lex_less(values[i - 1].field, values[i].field) {
                Err(GenericIndexRecordError::RowFieldsNotCanonical)
            } else {
                and_also(values[i].check(), row_fields_check_from(values, i + 1))
            },
        }
    }
}

impl GenericIndexRowRecordView {
    /// Why this row is not valid, if it is not.
    pub open spec fn check(self) -> Result<(), GenericIndexFailure> {
        if self.relative_path is None && !(self.binding is Directory) {
            Err(
                GenericIndexRecordError::InvalidRowBinding {
                    reason: "the registration-root row must be directory-bound",
                },
            )
        } else if self.values.len() > MAX_GENERIC_INDEX_ROW_FIELDS {
            Err(
                GenericIndexRecordError::CountLimit {
                    field: "row_fields",
                    count: self.values.len() as usize,
                    max: MAX_GENERIC_INDEX_ROW_FIELDS,
                },
            )
        } else {
            row_fields_check_from(self.values, 0)
        }
    }
}

impl GenericIndexRowRecord {
    /// Checks every invariant of a row.
    pub fn validate(&self) -> (result: Result<(), GenericIndexRecordError>)
        ensures
            checked(result) == self@.check(),
    {
        let ghost view = self@;
        let directory: bool = match self.binding {
            GenericIndexRowBinding::Directory => true,
            _ => false,
        };
        if self.relative_path.is_none() && !directory {
            return Err(
                GenericIndexRecordError::InvalidRowBinding {
                    reason: "the registration-root row must be directory-bound",
                },
            );
        }
        if self.values.len() > MAX_GENERIC_INDEX_ROW_FIELDS {
            return Err(
                GenericIndexRecordError::CountLimit {
                    field: "row_fields",
                    count: self.values.len(),
                    max: MAX_GENERIC_INDEX_ROW_FIELDS,
                },
            );
        }
        let mut i: usize = 0;
        while i < self.values.len()
            invariant
                i <= self.values@.len(),
                view == self@,
                view.check() == row_fields_check_from(view.values, i as int),
            decreases self.values@.len() - i,
        {
            let field_values = &self.values[i];
            assert(view.values[i as int] == field_values@);
            validate_custom_field(&field_values.field)?;
            if i > 0 {
                assert(view.values[i - 1] == self.values@[i - 1]@);
                if !self.values[i - 1].field.before(&field_values.field) {
                    return Err(GenericIndexRecordError::RowFieldsNotCanonical);
                }
            }
            field_values.validate()?;
            i = i + 1;
        }
        Ok(())
    }
}

impl GenericIndexGenerationRecordView {
    /// Why this generation is not valid, if it is not.
    pub open spec fn check(self) -> Result<(), GenericIndexFailure> {
        and_also(
            capabilities_check(self.capabilities),
            and_also(
                require(
                    self.appended_row_count <= self.declared_row_count,
                    GenericIndexRecordError::InvalidGenerationProgress,
                ),
                and_also(
                    row_closure_check(self.appended_row_count, self.rolling_row_digest),
                    self.lifetime_check(),
                ),
            ),
        )
    }

    /// References and progress agree with the lifetime state.
    pub open spec fn lifetime_check(self) -> Result<(), GenericIndexFailure> {
        if self.reference_epoch == 0 {
            Err(
                GenericIndexRecordError::InvalidGenerationLifetime {
                    reason: "a persisted generation must have a non-zero reference epoch",
                },
            )
        } else if self.state is Building && self.reference_count != 1 {
            Err(
                GenericIndexRecordError::InvalidGenerationLifetime {
                    reason: "a building generation must retain exactly one registration reference",
                },
            )
        } else if (self.state is Sealed || self.state is Retiring) && self.appended_row_count
            != self.declared_row_count {
            Err(
                GenericIndexRecordError::InvalidSeal {
                    reason: "a sealed or retiring generation must contain every declared row",
                },
            )
        } else if self.state is Retired && self.reference_count != 0 {
            Err(
                GenericIndexRecordError::InvalidGenerationLifetime {
                    reason: "a retired generation cannot retain strong references",
                },
            )
        } else if self.reference_count == 0 && !(self.state is Building)
            && self.last_zero_reference_version is None {
            Err(
                GenericIndexRecordError::InvalidGenerationLifetime {
                    reason:
                        "a zero-reference non-building generation must record its last-zero version",
                },
            )
        } else {
            Ok(())
        }
    }
}

impl GenericIndexGenerationRecord {
    /// Checks every invariant of a generation.
    pub fn validate(&self) -> (result: Result<(), GenericIndexRecordError>)
        ensures
            checked(result) == self@.check(),
    {
        validate_capabilities(&self.capabilities)?;
        if self.appended_row_count > self.declared_row_count {
            return Err(GenericIndexRecordError::InvalidGenerationProgress);
        }
        validate_row_closure(self.appended_row_count, &self.rolling_row_digest)?;
        if self.reference_epoch.get() == 0 {
            return Err(
                GenericIndexRecordError::InvalidGenerationLifetime {
                    reason: "a persisted generation must have a non-zero reference epoch",
                },
            );
        }
        if self.state == GenericIndexGenerationState::Building && self.reference_count != 1 {
            return Err(
                GenericIndexRecordError::InvalidGenerationLifetime {
                    reason: "a building generation must retain exactly one registration reference",
                },
            );
        }
        let sealed: bool = self.state == GenericIndexGenerationState::Sealed || self.state
            == GenericIndexGenerationState::Retiring;
        if sealed && self.appended_row_count != self.declared_row_count {
            return Err(
                GenericIndexRecordError::InvalidSeal {
                    reason: "a sealed or retiring generation must contain every declared row",
                },
            );
        }
        if self.state == GenericIndexGenerationState::Retired && self.reference_count != 0 {
            return Err(
                GenericIndexRecordError::InvalidGenerationLifetime {
                    reason: "a retired generation cannot retain strong references",
                },
            );
        }
        if self.reference_count == 0 && self.state != GenericIndexGenerationState::Building
            && self.last_zero_reference_version.is_none() {
            return Err(
                GenericIndexRecordError::InvalidGenerationLifetime {
                    reason:
                        "a zero-reference non-building generation must record its last-zero version",
                },
            );
        }
        Ok(())
    }
}

impl GenericIndexGenerationRefRecordView {
    /// A reference is added at a non-zero epoch.
    pub open spec fn check(self) -> Result<(), GenericIndexFailure> {
        require(
            self.reference_epoch_at_add != 0,
            GenericIndexRecordError::ZeroScalar { field: "reference_epoch_at_add" },
        )
    }
}

impl GenericIndexGenerationRefRecord {
    /// Checks every invariant of a reference.
    pub fn validate(&self) -> (result: Result<(), GenericIndexRecordError>)
        ensures
            checked(result) == self@.check(),
    {
        if self.reference_epoch_at_add.get() == 0 {
            return Err(GenericIndexRecordError::ZeroScalar { field: "reference_epoch_at_add" });
        }
        Ok(())
    }
}

impl GenericIndexAppendReceiptRecordView {
    /// A receipt covers a bounded, contiguous range of rows.
    pub open spec fn check(self) -> Result<(), GenericIndexFailure> {
        if self.row_count == 0 {
            Err(GenericIndexRecordError::ZeroScalar { field: "row_count" })
        } else if self.row_count > MAX_GENERIC_INDEX_APPEND_ROWS {
            Err(
                GenericIndexRecordError::CountLimit {
                    field: "row_count",
                    count: self.row_count as usize,
                    max: MAX_GENERIC_INDEX_APPEND_ROWS as usize,
                },
            )
        } else if self.first_sequence + self.row_count > u64::MAX {
            Err(GenericIndexRecordError::RangeOverflow { field: "append_sequence" })
        } else if self.first_sequence + self.row_count != self.resulting_row_count {
            Err(GenericIndexRecordError::InvalidAppendReceipt)
        } else {
            Ok(())
        }
    }
}

impl GenericIndexAppendReceiptRecord {
    /// Checks every invariant of a receipt.
    pub fn validate(&self) -> (result: Result<(), GenericIndexRecordError>)
        ensures
            checked(result) == self@.check(),
    {
        if self.row_count == 0 {
            return Err(GenericIndexRecordError::ZeroScalar { field: "row_count" });
        }
        if self.row_count > MAX_GENERIC_INDEX_APPEND_ROWS {
            return Err(
                GenericIndexRecordError::CountLimit {
                    field: "row_count",
                    count: self.row_count as usize,
                    max: MAX_GENERIC_INDEX_APPEND_ROWS as usize,
                },
            );
        }
        match self.first_sequence.checked_add(self.row_count as u64) {
            None => Err(GenericIndexRecordError::RangeOverflow { field: "append_sequence" }),
            Some(expected) => if expected != self.resulting_row_count {
                Err(GenericIndexRecordError::InvalidAppendReceipt)
            } else {
                Ok(())
            },
        }
    }
}

/// First index at or after `from` that holds a NUL, or the length.
pub open spec fn first_nul(b: Seq<u8>, from: int) -> int
    decreases b.len() - from,
{
    if from >= b.len() || b[from] == 0 {
        from
    } else {
        first_nul(b, from + 1)
    }
}

/// A terminal error is present, non-empty, bounded, and free of NUL.
pub open spec fn terminal_error_check(value: Option<Seq<u8>>) -> Result<(), GenericIndexFailure> {
    match value {
        None => Err(
            GenericIndexRecordError::InvalidRegistrationState {
                reason: "a quarantined registration must retain a terminal error",
            },
        ),
        Some(value) => if value.len() == 0 {
            Err(
                GenericIndexRecordError::InvalidRegistrationState {
                    reason: "terminal error must not be empty",
                },
            )
        } else if value.len() > MAX_GENERIC_INDEX_TERMINAL_ERROR_BYTES {
            Err(
                GenericIndexRecordError::LengthLimit {
                    field: "terminal_error",
                    length: value.len() as usize,
                    max: MAX_GENERIC_INDEX_TERMINAL_ERROR_BYTES,
                },
            )
        } else if first_nul(value, 0) < value.len() {
            Err(
                GenericIndexRecordError::InvalidField {
                    field: bytes::utf8("terminal_error"@),
                    reason: bytes::utf8("contains NUL at byte offset "@) + text::decimal(
                        first_nul(value, 0) as nat,
                    ),
                },
            )
        } else {
            Ok(())
        },
    }
}

/// Checks a terminal error.
pub fn validate_terminal_error(value: &Option<String>) -> (result: Result<
    (),
    GenericIndexRecordError,
>)
    ensures
        checked(result) == terminal_error_check(generic_index_records::optional_text_view(*value)),
{
    let value = match value {
        None => {
            return Err(
                GenericIndexRecordError::InvalidRegistrationState {
                    reason: "a quarantined registration must retain a terminal error",
                },
            );
        },
        Some(value) => value.as_str().as_bytes(),
    };
    if value.len() == 0 {
        return Err(
            GenericIndexRecordError::InvalidRegistrationState {
                reason: "terminal error must not be empty",
            },
        );
    }
    if value.len() > MAX_GENERIC_INDEX_TERMINAL_ERROR_BYTES {
        return Err(
            GenericIndexRecordError::LengthLimit {
                field: "terminal_error",
                length: value.len(),
                max: MAX_GENERIC_INDEX_TERMINAL_ERROR_BYTES,
            },
        );
    }
    let mut i: usize = 0;
    while i < value.len() && value[i] != 0
        invariant
            i <= value@.len(),
            first_nul(value@, 0) == first_nul(value@, i as int),
        decreases value@.len() - i,
    {
        i = i + 1;
    }
    if i < value.len() {
        let mut reason: Vec<u8> = Vec::new();
        text::push_text(&mut reason, "contains NUL at byte offset ");
        text::push_decimal(&mut reason, i as u64);
        assert(reason@ =~= bytes::utf8("contains NUL at byte offset "@) + text::decimal(i as nat));
        return Err(
            GenericIndexRecordError::InvalidField {
                field: "terminal_error".to_owned(),
                reason: text::finish_text(reason),
            },
        );
    }
    Ok(())
}

/// A failure of the registration state.
pub open spec fn registration_failure(reason: &'static str) -> GenericIndexFailure {
    GenericIndexRecordError::InvalidRegistrationState { reason }
}

impl GenericIndexRegistrationOperationRecordView {
    /// The pointer generation that this registration publishes: the successor
    /// of the expected one.
    pub open spec fn next_pointer_generation(self) -> int {
        match self.expected_current_generation {
            None => 1,
            Some(current) => current + 1,
        }
    }

    /// Why this registration is not valid, if it is not.
    pub open spec fn check(self) -> Result<(), GenericIndexFailure> {
        and_also(
            require(
                self.appended_row_count <= self.declared_row_count,
                GenericIndexRecordError::InvalidGenerationProgress,
            ),
            and_also(
                row_closure_check(self.appended_row_count, self.rolling_row_digest),
                and_also(
                    require(
                        self.source_read_version < self.last_transition_version,
                        registration_failure(
                            "last transition must be newer than the frozen source read version",
                        ),
                    ),
                    and_also(
                        require(
                            self.next_pointer_generation() <= u64::MAX,
                            registration_failure(
                                "the expected current pointer generation cannot advance",
                            ),
                        ),
                        and_also(self.progress_check(), self.outcome_check()),
                    ),
                ),
            ),
        )
    }

    /// Appended rows agree with the phase.
    pub open spec fn progress_check(self) -> Result<(), GenericIndexFailure> {
        if self.phase is Preparing && self.appended_row_count != 0 {
            Err(registration_failure("a preparing registration cannot contain appended rows"))
        } else if (self.phase is Sealing || self.phase is Publishing || self.phase is Complete)
            && self.appended_row_count != self.declared_row_count {
            Err(
                registration_failure(
                    "a sealing, publishing, or complete registration must contain every declared row",
                ),
            )
        } else {
            Ok(())
        }
    }

    /// Publication and terminal error agree with the phase.
    pub open spec fn outcome_check(self) -> Result<(), GenericIndexFailure> {
        match self.phase {
            GenericIndexRegistrationPhase::Complete => match self.published_pointer_generation {
                None => Err(
                    registration_failure(
                        "a complete registration must retain its published pointer generation",
                    ),
                ),
                Some(published) => if published != self.next_pointer_generation() {
                    Err(
                        registration_failure(
                            "published pointer generation is not the exact expected successor",
                        ),
                    )
                } else {
                    require(
                        self.terminal_error is None,
                        registration_failure(
                            "a complete registration cannot retain a terminal error",
                        ),
                    )
                },
            },
            GenericIndexRegistrationPhase::Quarantined => and_also(
                require(
                    self.published_pointer_generation is None,
                    registration_failure("a quarantined registration cannot claim publication"),
                ),
                terminal_error_check(self.terminal_error),
            ),
            _ => and_also(
                require(
                    self.published_pointer_generation is None,
                    registration_failure("only a complete registration can claim publication"),
                ),
                require(
                    self.terminal_error is None,
                    registration_failure(
                        "only a quarantined registration can retain a terminal error",
                    ),
                ),
            ),
        }
    }
}

/// A failure of the registration state.
fn registration_error(reason: &'static str) -> (error: GenericIndexRecordError)
    ensures
        error.model() == registration_failure(reason),
{
    GenericIndexRecordError::InvalidRegistrationState { reason }
}

impl GenericIndexRegistrationOperationRecord {
    /// Checks every invariant of a registration.
    pub fn validate(&self) -> (result: Result<(), GenericIndexRecordError>)
        ensures
            checked(result) == self@.check(),
    {
        if self.appended_row_count > self.declared_row_count {
            return Err(GenericIndexRecordError::InvalidGenerationProgress);
        }
        validate_row_closure(self.appended_row_count, &self.rolling_row_digest)?;
        if self.last_transition_version.get() <= self.source_read_version.get() {
            return Err(
                registration_error(
                    "last transition must be newer than the frozen source read version",
                ),
            );
        }
        let next_pointer_generation: u64 = match self.expected_current_generation {
            None => 1,
            Some(current) => match current.get().checked_add(1) {
                Some(next) => next,
                None => {
                    return Err(
                        registration_error(
                            "the expected current pointer generation cannot advance",
                        ),
                    );
                },
            },
        };
        self.validate_progress()?;
        self.validate_outcome(next_pointer_generation)
    }

    /// Checks appended rows against the phase.
    fn validate_progress(&self) -> (result: Result<(), GenericIndexRecordError>)
        ensures
            checked(result) == self@.progress_check(),
    {
        if self.phase == GenericIndexRegistrationPhase::Preparing && self.appended_row_count != 0 {
            return Err(registration_error("a preparing registration cannot contain appended rows"));
        }
        let closed: bool = match self.phase {
            GenericIndexRegistrationPhase::Sealing => true,
            GenericIndexRegistrationPhase::Publishing => true,
            GenericIndexRegistrationPhase::Complete => true,
            _ => false,
        };
        if closed && self.appended_row_count != self.declared_row_count {
            return Err(
                registration_error(
                    "a sealing, publishing, or complete registration must contain every declared row",
                ),
            );
        }
        Ok(())
    }

    /// Checks publication and terminal error against the phase.
    fn validate_outcome(&self, next_pointer_generation: u64) -> (result: Result<
        (),
        GenericIndexRecordError,
    >)
        requires
            next_pointer_generation == self@.next_pointer_generation(),
        ensures
            checked(result) == self@.outcome_check(),
    {
        match self.phase {
            GenericIndexRegistrationPhase::Complete => {
                match self.published_pointer_generation {
                    None => {
                        return Err(
                            registration_error(
                                "a complete registration must retain its published pointer generation",
                            ),
                        );
                    },
                    Some(published) => {
                        if published.get() != next_pointer_generation {
                            return Err(
                                registration_error(
                                    "published pointer generation is not the exact expected successor",
                                ),
                            );
                        }
                    },
                }
                if self.terminal_error.is_some() {
                    return Err(
                        registration_error("a complete registration cannot retain a terminal error"),
                    );
                }
                Ok(())
            },
            GenericIndexRegistrationPhase::Quarantined => {
                if self.published_pointer_generation.is_some() {
                    return Err(
                        registration_error("a quarantined registration cannot claim publication"),
                    );
                }
                validate_terminal_error(&self.terminal_error)
            },
            _ => {
                if self.published_pointer_generation.is_some() {
                    return Err(
                        registration_error("only a complete registration can claim publication"),
                    );
                }
                if self.terminal_error.is_some() {
                    return Err(
                        registration_error(
                            "only a quarantined registration can retain a terminal error",
                        ),
                    );
                }
                Ok(())
            },
        }
    }
}

} // verus!
