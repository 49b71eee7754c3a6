//! Durable Generic namespace-index records.

use vstd::prelude::*;
use vstd::utf8::*;

use crate::bytes;
use crate::ids::{
    ArtifactRevisionId, CommandDigest, GenericIndexGenerationId, WorkspaceIncarnationId,
};
use crate::names::{NormalizedRelativePath, QueryFieldId};
use crate::positions::{CommitVersion, Generation, ReadVersion, ReferenceEpoch};
use crate::scalars::{QueryScalar, QueryScalarView};
use crate::states::{
    GenericIndexGenerationState, GenericIndexReferenceKind, GenericIndexRegistrationPhase,
};
use crate::text;

verus! {

/// Only supported value format for Generic index records.
pub const GENERIC_INDEX_VALUE_FORMAT_VERSION: u8 = 1;

/// Maximum fields declared by one Generic index catalog.
pub const MAX_GENERIC_INDEX_FIELDS: usize = 60;

/// Maximum values retained for one field in one row.
pub const MAX_GENERIC_INDEX_VALUES_PER_FIELD: usize = 1024;

/// Maximum field groups retained in one row.
pub const MAX_GENERIC_INDEX_ROW_FIELDS: usize = 60;

/// Maximum encoded durable row payload, leaving envelope headroom under the
/// workspace metadata command value limit.
pub const MAX_GENERIC_INDEX_ROW_BYTES: usize = 61440;

/// Maximum rows admitted by one append command.
pub const MAX_GENERIC_INDEX_APPEND_ROWS: u32 = 4096;

/// Maximum durable terminal error text.
pub const MAX_GENERIC_INDEX_TERMINAL_ERROR_BYTES: usize = 1024;

/// Maximum operators of one field: one of each.
pub const MAX_GENERIC_INDEX_OPERATORS: usize = 12;

/// Predicate capability advertised by a Generic custom field.
#[derive(Clone, Copy, Debug, PartialEq, Eq, PartialOrd, Ord, Hash, Structural)]
pub enum GenericIndexOperator {
    Equal,
    NotEqual,
    In,
    Prefix,
    Suffix,
    Contains,
    Greater,
    GreaterOrEqual,
    Less,
    LessOrEqual,
    Exists,
    NotExists,
}

impl GenericIndexOperator {
    /// Durable byte of this operator; operators are ordered by it.
    pub open spec fn byte(self) -> u8 {
        match self {
            Self::Equal => 1,
            Self::NotEqual => 2,
            Self::In => 3,
            Self::Prefix => 4,
            Self::Suffix => 5,
            Self::Contains => 6,
            Self::Greater => 7,
            Self::GreaterOrEqual => 8,
            Self::Less => 9,
            Self::LessOrEqual => 10,
            Self::Exists => 11,
            Self::NotExists => 12,
        }
    }

    /// The operator with this durable byte.
    pub open spec fn of_byte(value: u8) -> Option<Self> {
        if value == 1 {
            Some(Self::Equal)
        } else if value == 2 {
            Some(Self::NotEqual)
        } else if value == 3 {
            Some(Self::In)
        } else if value == 4 {
            Some(Self::Prefix)
        } else if value == 5 {
            Some(Self::Suffix)
        } else if value == 6 {
            Some(Self::Contains)
        } else if value == 7 {
            Some(Self::Greater)
        } else if value == 8 {
            Some(Self::GreaterOrEqual)
        } else if value == 9 {
            Some(Self::Less)
        } else if value == 10 {
            Some(Self::LessOrEqual)
        } else if value == 11 {
            Some(Self::Exists)
        } else if value == 12 {
            Some(Self::NotExists)
        } else {
            None
        }
    }

    /// Durable byte of this operator.
    pub fn to_byte(self) -> (value: u8)
        ensures
            value == self.byte(),
            Self::of_byte(value) == Some(self),
    {
        match self {
            Self::Equal => 1,
            Self::NotEqual => 2,
            Self::In => 3,
            Self::Prefix => 4,
            Self::Suffix => 5,
            Self::Contains => 6,
            Self::Greater => 7,
            Self::GreaterOrEqual => 8,
            Self::Less => 9,
            Self::LessOrEqual => 10,
            Self::Exists => 11,
            Self::NotExists => 12,
        }
    }

    /// The operator with this durable byte.
    pub fn try_from(value: u8) -> (operator: Result<Self, GenericIndexRecordError>)
        ensures
            match Self::of_byte(value) {
                Some(o) => operator == Ok::<Self, GenericIndexRecordError>(o) && o.byte() == value,
                None => operator == Err::<Self, GenericIndexRecordError>(
                    GenericIndexRecordError::UnknownDiscriminant {
                        durable_type: "GenericIndexOperator",
                        value,
                    },
                ),
            },
    {
        match value {
            1 => Ok(Self::Equal),
            2 => Ok(Self::NotEqual),
            3 => Ok(Self::In),
            4 => Ok(Self::Prefix),
            5 => Ok(Self::Suffix),
            6 => Ok(Self::Contains),
            7 => Ok(Self::Greater),
            8 => Ok(Self::GreaterOrEqual),
            9 => Ok(Self::Less),
            10 => Ok(Self::LessOrEqual),
            11 => Ok(Self::Exists),
            12 => Ok(Self::NotExists),
            _ => Err(
                GenericIndexRecordError::UnknownDiscriminant {
                    durable_type: "GenericIndexOperator",
                    value,
                },
            ),
        }
    }
}

/// Capability declaration for one custom field.
///
/// No scalar type is declared: one field may contain a mixture of strings,
/// unsigned integers, and finite floats.
#[derive(Clone, Debug, PartialEq, Eq)]
pub struct GenericIndexFieldCapability {
    pub field: QueryFieldId,
    pub operators: Vec<GenericIndexOperator>,
    pub sortable: bool,
    pub facetable: bool,
}

/// Current pointer from one workspace-relative scope to an immutable index
/// generation. The duplicated seals prevent a pointer from changing the
/// advertised capabilities or row closure without changing generations.
#[derive(Clone, Copy, Debug, PartialEq, Eq)]
pub struct GenericIndexCurrentRecord {
    pub generation_id: GenericIndexGenerationId,
    pub pointer_generation: Generation,
    pub capability_digest: [u8; 32],
    pub row_count: u64,
    pub row_digest: [u8; 32],
}

/// Mutable build/lifetime header for one never-reused index generation.
/// A `Retired` header is the permanent identity tombstone.
#[derive(Clone, Debug, PartialEq, Eq)]
pub struct GenericIndexGenerationRecord {
    pub capabilities: Vec<GenericIndexFieldCapability>,
    pub declared_row_count: u64,
    pub appended_row_count: u64,
    pub rolling_row_digest: [u8; 32],
    pub reference_count: u64,
    pub reference_epoch: ReferenceEpoch,
    pub last_zero_reference_version: Option<CommitVersion>,
    pub state: GenericIndexGenerationState,
}

/// Artifact identity fence for one row that resolves to an exact artifact.
#[derive(Clone, Copy, Debug, PartialEq, Eq)]
pub struct GenericIndexArtifactBinding {
    pub artifact_revision_id: ArtifactRevisionId,
    pub path_generation: Generation,
}

/// Durable path identity policy for one Generic index row.
#[derive(Clone, Copy, Debug, PartialEq, Eq)]
pub enum GenericIndexRowBinding {
    /// The path resolved to a derived or explicit directory at registration.
    Directory,
    /// The path was absent at registration and stays keyed by path for a node
    /// that appears later.
    Unbound,
    /// The path resolved to one exact artifact revision and path generation.
    Artifact(GenericIndexArtifactBinding),
}

/// Ordered values for one custom field. Values preserve registration order and
/// may repeat.
#[derive(Clone, Debug, PartialEq, Eq)]
pub struct GenericIndexFieldValues {
    pub field: QueryFieldId,
    pub values: Vec<QueryScalar>,
}

/// One generation-owned row. Paths are relative to the registration root so a
/// sealed generation can be retained by a commit and installed by restore.
#[derive(Clone, Debug, PartialEq, Eq)]
pub struct GenericIndexRowRecord {
    /// `None` denotes the registration root itself.
    pub relative_path: Option<NormalizedRelativePath>,
    pub binding: GenericIndexRowBinding,
    pub values: Vec<GenericIndexFieldValues>,
}

/// Exact strong-owner row for one generation.
#[derive(Clone, Copy, Debug, PartialEq, Eq)]
pub struct GenericIndexGenerationRefRecord {
    pub kind: GenericIndexReferenceKind,
    pub owner_digest: [u8; 32],
    pub reference_epoch_at_add: ReferenceEpoch,
}

/// Immutable receipt for one append batch. The receipt is keyed by
/// `first_sequence`, and its resulting seal makes response-loss replay exact.
#[derive(Clone, Copy, Debug, PartialEq, Eq)]
pub struct GenericIndexAppendReceiptRecord {
    pub first_sequence: u64,
    pub row_count: u32,
    /// Exact metadata commit that installed this batch and receipt.
    pub commit_version: CommitVersion,
    /// Canonical digest of the caller's relative paths and ordered field
    /// values. Artifact bindings are excluded so the receipt remains
    /// sufficient for exact replay after abort cleanup removes rows.
    pub input_digest: [u8; 32],
    pub resulting_row_count: u64,
    pub resulting_row_digest: [u8; 32],
}

/// Recoverable registration operation. Its history hold retains
/// `source_read_version` until every row fence has been copied and sealed.
#[derive(Clone, Debug, PartialEq, Eq)]
pub struct GenericIndexRegistrationOperationRecord {
    pub workspace_incarnation_id: WorkspaceIncarnationId,
    /// `None` denotes the workspace root.
    pub index_path: Option<NormalizedRelativePath>,
    pub generation_id: GenericIndexGenerationId,
    pub request_digest: CommandDigest,
    pub source_read_version: ReadVersion,
    /// Exact metadata commit that installed the current operation state.
    pub last_transition_version: CommitVersion,
    pub expected_current_generation: Option<Generation>,
    pub capability_digest: [u8; 32],
    pub declared_row_count: u64,
    pub appended_row_count: u64,
    pub rolling_row_digest: [u8; 32],
    pub phase: GenericIndexRegistrationPhase,
    pub published_pointer_generation: Option<Generation>,
    pub terminal_error: Option<String>,
}

/// Commit-owned strong reference to one exact Generic index generation.
#[derive(Clone, Copy, Debug, PartialEq, Eq)]
pub struct CommitGenericIndexMemberRecord {
    pub generation_id: GenericIndexGenerationId,
    pub capability_digest: [u8; 32],
    pub row_count: u64,
    pub row_digest: [u8; 32],
}

/// Strict Generic index encode, decode, or invariant failure.
///
/// `T` holds caller-dependent text: a `String`, or its bytes in contracts.
#[derive(Clone, Debug, PartialEq, Eq)]
pub enum GenericIndexRecordError<T = String> {
    UnsupportedValueVersion { actual: u8, expected: u8 },
    UnknownDiscriminant { durable_type: &'static str, value: u8 },
    InvalidOptionalTag { field: &'static str, value: u8 },
    InvalidBoolean { field: &'static str, value: u8 },
    ZeroScalar { field: &'static str },
    LengthLimit { field: &'static str, length: usize, max: usize },
    CountLimit { field: &'static str, count: usize, max: usize },
    InvalidField { field: T, reason: T },
    ReservedField { field: T },
    CapabilitiesNotCanonical,
    OperatorsNotCanonical { field: T },
    RowFieldsNotCanonical,
    EmptyFieldValues { field: T },
    UnsupportedScalarType { field: T, scalar_type: &'static str },
    NonFiniteFloat,
    NonCanonicalFloatZero,
    InvalidUtf8 { field: &'static str },
    InvalidPath { reason: T },
    InvalidRowBinding { reason: &'static str },
    InvalidGenerationProgress,
    InvalidGenerationLifetime { reason: &'static str },
    InvalidRegistrationState { reason: &'static str },
    RangeOverflow { field: &'static str },
    InvalidAppendReceipt,
    InvalidSeal { reason: &'static str },
    Truncated { field: &'static str, needed: usize, remaining: usize },
    TrailingBytes { count: usize },
    NonCanonicalEncoding,
}

impl GenericIndexRecordError<String> {
    /// This failure with its text as bytes.
    pub open spec fn model(self) -> GenericIndexRecordError<Seq<u8>> {
        match self {
            Self::UnsupportedValueVersion { actual, expected } => GenericIndexRecordError::UnsupportedValueVersion { actual, expected },
            Self::UnknownDiscriminant { durable_type, value } => GenericIndexRecordError::UnknownDiscriminant { durable_type, value },
            Self::InvalidOptionalTag { field, value } => GenericIndexRecordError::InvalidOptionalTag { field, value },
            Self::InvalidBoolean { field, value } => GenericIndexRecordError::InvalidBoolean { field, value },
            Self::ZeroScalar { field } => GenericIndexRecordError::ZeroScalar { field },
            Self::LengthLimit { field, length, max } => GenericIndexRecordError::LengthLimit { field, length, max },
            Self::CountLimit { field, count, max } => GenericIndexRecordError::CountLimit { field, count, max },
            Self::InvalidField { field, reason } => GenericIndexRecordError::InvalidField { field: bytes::utf8(field@), reason: bytes::utf8(reason@) },
            Self::ReservedField { field } => GenericIndexRecordError::ReservedField { field: bytes::utf8(field@) },
            Self::CapabilitiesNotCanonical => GenericIndexRecordError::CapabilitiesNotCanonical,
            Self::OperatorsNotCanonical { field } => GenericIndexRecordError::OperatorsNotCanonical { field: bytes::utf8(field@) },
            Self::RowFieldsNotCanonical => GenericIndexRecordError::RowFieldsNotCanonical,
            Self::EmptyFieldValues { field } => GenericIndexRecordError::EmptyFieldValues { field: bytes::utf8(field@) },
            Self::UnsupportedScalarType { field, scalar_type } => GenericIndexRecordError::UnsupportedScalarType { field: bytes::utf8(field@), scalar_type },
            Self::NonFiniteFloat => GenericIndexRecordError::NonFiniteFloat,
            Self::NonCanonicalFloatZero => GenericIndexRecordError::NonCanonicalFloatZero,
            Self::InvalidUtf8 { field } => GenericIndexRecordError::InvalidUtf8 { field },
            Self::InvalidPath { reason } => GenericIndexRecordError::InvalidPath { reason: bytes::utf8(reason@) },
            Self::InvalidRowBinding { reason } => GenericIndexRecordError::InvalidRowBinding { reason },
            Self::InvalidGenerationProgress => GenericIndexRecordError::InvalidGenerationProgress,
            Self::InvalidGenerationLifetime { reason } => GenericIndexRecordError::InvalidGenerationLifetime { reason },
            Self::InvalidRegistrationState { reason } => GenericIndexRecordError::InvalidRegistrationState { reason },
            Self::RangeOverflow { field } => GenericIndexRecordError::RangeOverflow { field },
            Self::InvalidAppendReceipt => GenericIndexRecordError::InvalidAppendReceipt,
            Self::InvalidSeal { reason } => GenericIndexRecordError::InvalidSeal { reason },
            Self::Truncated { field, needed, remaining } => GenericIndexRecordError::Truncated { field, needed, remaining },
            Self::TrailingBytes { count } => GenericIndexRecordError::TrailingBytes { count },
            Self::NonCanonicalEncoding => GenericIndexRecordError::NonCanonicalEncoding,
        }
    }

    /// Diagnostic text of this failure.
    pub fn message(&self) -> (message: String)
        ensures
            bytes::utf8(message@) == self.model().message_bytes(),
    {
        let mut out: Vec<u8> = Vec::new();
        match self {
            Self::UnsupportedValueVersion { actual, expected } => {
                text::push_text(&mut out, "unsupported Generic index value format version ");
                text::push_decimal(&mut out, *actual as u64);
                text::push_text(&mut out, ", expected ");
                text::push_decimal(&mut out, *expected as u64);
            },
            Self::UnknownDiscriminant { durable_type, value } => {
                text::push_text(&mut out, "unknown ");
                text::push_text(&mut out, durable_type);
                text::push_text(&mut out, " discriminant ");
                text::push_decimal(&mut out, *value as u64);
            },
            Self::InvalidOptionalTag { field, value } => {
                text::push_text(&mut out, "invalid optional tag ");
                text::push_decimal(&mut out, *value as u64);
                text::push_text(&mut out, " for ");
                text::push_text(&mut out, field);
            },
            Self::InvalidBoolean { field, value } => {
                text::push_text(&mut out, "invalid boolean ");
                text::push_decimal(&mut out, *value as u64);
                text::push_text(&mut out, " for ");
                text::push_text(&mut out, field);
            },
            Self::ZeroScalar { field } => {
                text::push_text(&mut out, field);
                text::push_text(&mut out, " must be non-zero");
            },
            Self::LengthLimit { field, length, max } => {
                text::push_text(&mut out, field);
                text::push_text(&mut out, " length ");
                text::push_decimal(&mut out, *length as u64);
                text::push_text(&mut out, " exceeds maximum ");
                text::push_decimal(&mut out, *max as u64);
            },
            Self::CountLimit { field, count, max } => {
                text::push_text(&mut out, field);
                text::push_text(&mut out, " count ");
                text::push_decimal(&mut out, *count as u64);
                text::push_text(&mut out, " exceeds maximum ");
                text::push_decimal(&mut out, *max as u64);
            },
            Self::InvalidField { field, reason } => {
                text::push_text(&mut out, "invalid Generic index field ");
                text::push_text(&mut out, field.as_str());
                text::push_text(&mut out, ": ");
                text::push_text(&mut out, reason.as_str());
            },
            Self::ReservedField { field } => {
                text::push_text(&mut out, "Generic index field ");
                text::push_text(&mut out, field.as_str());
                text::push_text(&mut out, " shadows a built-in field");
            },
            Self::CapabilitiesNotCanonical => {
                text::push_text(&mut out, "Generic index capabilities must be strictly ordered and unique");
            },
            Self::OperatorsNotCanonical { field } => {
                text::push_text(&mut out, "Generic index operators for ");
                text::push_text(&mut out, field.as_str());
                text::push_text(&mut out, " must be strictly ordered and unique");
            },
            Self::RowFieldsNotCanonical => {
                text::push_text(&mut out, "Generic index row fields must be strictly ordered and unique");
            },
            Self::EmptyFieldValues { field } => {
                text::push_text(&mut out, "Generic index row field ");
                text::push_text(&mut out, field.as_str());
                text::push_text(&mut out, " has no values");
            },
            Self::UnsupportedScalarType { field, scalar_type } => {
                text::push_text(&mut out, "Generic index field ");
                text::push_text(&mut out, field.as_str());
                text::push_text(&mut out, " does not support ");
                text::push_text(&mut out, scalar_type);
                text::push_text(&mut out, " values");
            },
            Self::NonFiniteFloat => {
                text::push_text(&mut out, "Generic index float must be finite");
            },
            Self::NonCanonicalFloatZero => {
                text::push_text(&mut out, "Generic index float negative zero is not canonical");
            },
            Self::InvalidUtf8 { field } => {
                text::push_text(&mut out, field);
                text::push_text(&mut out, " is not valid UTF-8");
            },
            Self::InvalidPath { reason } => {
                text::push_text(&mut out, "invalid Generic index path: ");
                text::push_text(&mut out, reason.as_str());
            },
            Self::InvalidRowBinding { reason } => {
                text::push_text(&mut out, "invalid Generic index row binding: ");
                text::push_text(&mut out, reason);
            },
            Self::InvalidGenerationProgress => {
                text::push_text(&mut out, "Generic index appended row count exceeds its declared row count");
            },
            Self::InvalidGenerationLifetime { reason } => {
                text::push_text(&mut out, "invalid Generic index generation lifetime: ");
                text::push_text(&mut out, reason);
            },
            Self::InvalidRegistrationState { reason } => {
                text::push_text(&mut out, "invalid Generic index registration state: ");
                text::push_text(&mut out, reason);
            },
            Self::RangeOverflow { field } => {
                text::push_text(&mut out, field);
                text::push_text(&mut out, " range overflows u64");
            },
            Self::InvalidAppendReceipt => {
                text::push_text(&mut out, "Generic index append receipt does not match its contiguous sequence range");
            },
            Self::InvalidSeal { reason } => {
                text::push_text(&mut out, "invalid Generic index seal: ");
                text::push_text(&mut out, reason);
            },
            Self::Truncated { field, needed, remaining } => {
                text::push_text(&mut out, "truncated ");
                text::push_text(&mut out, field);
                text::push_text(&mut out, ": need ");
                text::push_decimal(&mut out, *needed as u64);
                text::push_text(&mut out, " bytes, have ");
                text::push_decimal(&mut out, *remaining as u64);
            },
            Self::TrailingBytes { count } => {
                text::push_text(&mut out, "Generic index value has ");
                text::push_decimal(&mut out, *count as u64);
                text::push_text(&mut out, " trailing bytes");
            },
            Self::NonCanonicalEncoding => {
                text::push_text(&mut out, "Generic index value is not canonically encoded");
            },
        }
        assert(out@ =~= self.model().message_bytes());
        text::finish_text(out)
    }
}

impl GenericIndexRecordError<Seq<u8>> {
    /// Bytes of the diagnostic text.
    pub open spec fn message_bytes(self) -> Seq<u8> {
        match self {
            Self::UnsupportedValueVersion { actual, expected } => bytes::utf8("unsupported Generic index value format version "@) + text::decimal(actual as nat) + bytes::utf8(", expected "@) + text::decimal(expected as nat),
            Self::UnknownDiscriminant { durable_type, value } => bytes::utf8("unknown "@) + bytes::utf8(durable_type@) + bytes::utf8(" discriminant "@) + text::decimal(value as nat),
            Self::InvalidOptionalTag { field, value } => bytes::utf8("invalid optional tag "@) + text::decimal(value as nat) + bytes::utf8(" for "@) + bytes::utf8(field@),
            Self::InvalidBoolean { field, value } => bytes::utf8("invalid boolean "@) + text::decimal(value as nat) + bytes::utf8(" for "@) + bytes::utf8(field@),
            Self::ZeroScalar { field } => bytes::utf8(field@) + bytes::utf8(" must be non-zero"@),
            Self::LengthLimit { field, length, max } => bytes::utf8(field@) + bytes::utf8(" length "@) + text::decimal(length as nat) + bytes::utf8(" exceeds maximum "@) + text::decimal(max as nat),
            Self::CountLimit { field, count, max } => bytes::utf8(field@) + bytes::utf8(" count "@) + text::decimal(count as nat) + bytes::utf8(" exceeds maximum "@) + text::decimal(max as nat),
            Self::InvalidField { field, reason } => bytes::utf8("invalid Generic index field "@) + field + bytes::utf8(": "@) + reason,
            Self::ReservedField { field } => bytes::utf8("Generic index field "@) + field + bytes::utf8(" shadows a built-in field"@),
            Self::CapabilitiesNotCanonical => bytes::utf8("Generic index capabilities must be strictly ordered and unique"@),
            Self::OperatorsNotCanonical { field } => bytes::utf8("Generic index operators for "@) + field + bytes::utf8(" must be strictly ordered and unique"@),
            Self::RowFieldsNotCanonical => bytes::utf8("Generic index row fields must be strictly ordered and unique"@),
            Self::EmptyFieldValues { field } => bytes::utf8("Generic index row field "@) + field + bytes::utf8(" has no values"@),
            Self::UnsupportedScalarType { field, scalar_type } => bytes::utf8("Generic index field "@) + field + bytes::utf8(" does not support "@) + bytes::utf8(scalar_type@) + bytes::utf8(" values"@),
            Self::NonFiniteFloat => bytes::utf8("Generic index float must be finite"@),
            Self::NonCanonicalFloatZero => bytes::utf8("Generic index float negative zero is not canonical"@),
            Self::InvalidUtf8 { field } => bytes::utf8(field@) + bytes::utf8(" is not valid UTF-8"@),
            Self::InvalidPath { reason } => bytes::utf8("invalid Generic index path: "@) + reason,
            Self::InvalidRowBinding { reason } => bytes::utf8("invalid Generic index row binding: "@) + bytes::utf8(reason@),
            Self::InvalidGenerationProgress => bytes::utf8("Generic index appended row count exceeds its declared row count"@),
            Self::InvalidGenerationLifetime { reason } => bytes::utf8("invalid Generic index generation lifetime: "@) + bytes::utf8(reason@),
            Self::InvalidRegistrationState { reason } => bytes::utf8("invalid Generic index registration state: "@) + bytes::utf8(reason@),
            Self::RangeOverflow { field } => bytes::utf8(field@) + bytes::utf8(" range overflows u64"@),
            Self::InvalidAppendReceipt => bytes::utf8("Generic index append receipt does not match its contiguous sequence range"@),
            Self::InvalidSeal { reason } => bytes::utf8("invalid Generic index seal: "@) + bytes::utf8(reason@),
            Self::Truncated { field, needed, remaining } => bytes::utf8("truncated "@) + bytes::utf8(field@) + bytes::utf8(": need "@) + text::decimal(needed as nat) + bytes::utf8(" bytes, have "@) + text::decimal(remaining as nat),
            Self::TrailingBytes { count } => bytes::utf8("Generic index value has "@) + text::decimal(count as nat) + bytes::utf8(" trailing bytes"@),
            Self::NonCanonicalEncoding => bytes::utf8("Generic index value is not canonically encoded"@),
        }
    }
}

/// A failure of a Generic index record, with its text as bytes.
pub type GenericIndexFailure = GenericIndexRecordError<Seq<u8>>;

/// Contents of a [`GenericIndexFieldCapability`].
pub struct GenericIndexFieldCapabilityView {
    pub field: Seq<u8>,
    pub operators: Seq<GenericIndexOperator>,
    pub sortable: bool,
    pub facetable: bool,
}

/// Contents of a [`GenericIndexCurrentRecord`].
pub struct GenericIndexCurrentRecordView {
    pub generation_id: Seq<u8>,
    pub pointer_generation: u64,
    pub capability_digest: Seq<u8>,
    pub row_count: u64,
    pub row_digest: Seq<u8>,
}

/// Contents of a [`GenericIndexGenerationRecord`].
pub struct GenericIndexGenerationRecordView {
    pub capabilities: Seq<GenericIndexFieldCapabilityView>,
    pub declared_row_count: u64,
    pub appended_row_count: u64,
    pub rolling_row_digest: Seq<u8>,
    pub reference_count: u64,
    pub reference_epoch: u64,
    pub last_zero_reference_version: Option<u64>,
    pub state: GenericIndexGenerationState,
}

/// Contents of a [`GenericIndexRowBinding`].
pub enum GenericIndexRowBindingView {
    Directory,
    Unbound,
    Artifact { artifact_revision_id: Seq<u8>, path_generation: u64 },
}

/// Contents of a [`GenericIndexFieldValues`].
pub struct GenericIndexFieldValuesView {
    pub field: Seq<u8>,
    pub values: Seq<QueryScalarView>,
}

/// Contents of a [`GenericIndexRowRecord`].
pub struct GenericIndexRowRecordView {
    pub relative_path: Option<Seq<u8>>,
    pub binding: GenericIndexRowBindingView,
    pub values: Seq<GenericIndexFieldValuesView>,
}

/// Contents of a [`GenericIndexGenerationRefRecord`].
pub struct GenericIndexGenerationRefRecordView {
    pub kind: GenericIndexReferenceKind,
    pub owner_digest: Seq<u8>,
    pub reference_epoch_at_add: u64,
}

/// Contents of a [`GenericIndexAppendReceiptRecord`].
pub struct GenericIndexAppendReceiptRecordView {
    pub first_sequence: u64,
    pub row_count: u32,
    pub commit_version: u64,
    pub input_digest: Seq<u8>,
    pub resulting_row_count: u64,
    pub resulting_row_digest: Seq<u8>,
}

/// Contents of a [`GenericIndexRegistrationOperationRecord`].
pub struct GenericIndexRegistrationOperationRecordView {
    pub workspace_incarnation_id: Seq<u8>,
    pub index_path: Option<Seq<u8>>,
    pub generation_id: Seq<u8>,
    pub request_digest: Seq<u8>,
    pub source_read_version: u64,
    pub last_transition_version: u64,
    pub expected_current_generation: Option<u64>,
    pub capability_digest: Seq<u8>,
    pub declared_row_count: u64,
    pub appended_row_count: u64,
    pub rolling_row_digest: Seq<u8>,
    pub phase: GenericIndexRegistrationPhase,
    pub published_pointer_generation: Option<u64>,
    pub terminal_error: Option<Seq<u8>>,
}

/// Contents of a [`CommitGenericIndexMemberRecord`].
pub struct CommitGenericIndexMemberRecordView {
    pub generation_id: Seq<u8>,
    pub capability_digest: Seq<u8>,
    pub row_count: u64,
    pub row_digest: Seq<u8>,
}

/// Contents of a list of capabilities.
pub open spec fn capability_views(
    capabilities: Seq<GenericIndexFieldCapability>,
) -> Seq<GenericIndexFieldCapabilityView> {
    Seq::new(capabilities.len(), |i: int| capabilities[i]@)
}

/// Contents of a list of scalars.
pub open spec fn scalar_views(values: Seq<QueryScalar>) -> Seq<QueryScalarView> {
    Seq::new(values.len(), |i: int| values[i]@)
}

/// Contents of a list of field values.
pub open spec fn field_value_views(
    values: Seq<GenericIndexFieldValues>,
) -> Seq<GenericIndexFieldValuesView> {
    Seq::new(values.len(), |i: int| values[i]@)
}

/// Contents of an optional text.
pub open spec fn optional_text_view(value: Option<String>) -> Option<Seq<u8>> {
    match value {
        None => None,
        Some(value) => Some(bytes::utf8(value@)),
    }
}

impl View for GenericIndexFieldCapability {
    type V = GenericIndexFieldCapabilityView;

    open spec fn view(&self) -> GenericIndexFieldCapabilityView {
        GenericIndexFieldCapabilityView {
            field: self.field@,
            operators: self.operators@,
            sortable: self.sortable,
            facetable: self.facetable,
        }
    }
}

impl View for GenericIndexCurrentRecord {
    type V = GenericIndexCurrentRecordView;

    open spec fn view(&self) -> GenericIndexCurrentRecordView {
        GenericIndexCurrentRecordView {
            generation_id: self.generation_id@,
            pointer_generation: self.pointer_generation@,
            capability_digest: self.capability_digest@,
            row_count: self.row_count,
            row_digest: self.row_digest@,
        }
    }
}

impl View for GenericIndexGenerationRecord {
    type V = GenericIndexGenerationRecordView;

    open spec fn view(&self) -> GenericIndexGenerationRecordView {
        GenericIndexGenerationRecordView {
            capabilities: capability_views(self.capabilities@),
            declared_row_count: self.declared_row_count,
            appended_row_count: self.appended_row_count,
            rolling_row_digest: self.rolling_row_digest@,
            reference_count: self.reference_count,
            reference_epoch: self.reference_epoch@,
            last_zero_reference_version: bytes::option_view(self.last_zero_reference_version),
            state: self.state,
        }
    }
}

impl View for GenericIndexRowBinding {
    type V = GenericIndexRowBindingView;

    open spec fn view(&self) -> GenericIndexRowBindingView {
        match self {
            Self::Directory => GenericIndexRowBindingView::Directory,
            Self::Unbound => GenericIndexRowBindingView::Unbound,
            Self::Artifact(binding) => GenericIndexRowBindingView::Artifact {
                artifact_revision_id: binding.artifact_revision_id@,
                path_generation: binding.path_generation@,
            },
        }
    }
}

impl View for GenericIndexFieldValues {
    type V = GenericIndexFieldValuesView;

    open spec fn view(&self) -> GenericIndexFieldValuesView {
        GenericIndexFieldValuesView {
            field: self.field@,
            values: scalar_views(self.values@),
        }
    }
}

impl View for GenericIndexRowRecord {
    type V = GenericIndexRowRecordView;

    open spec fn view(&self) -> GenericIndexRowRecordView {
        GenericIndexRowRecordView {
            relative_path: bytes::option_view(self.relative_path),
            binding: self.binding@,
            values: field_value_views(self.values@),
        }
    }
}

impl View for GenericIndexGenerationRefRecord {
    type V = GenericIndexGenerationRefRecordView;

    open spec fn view(&self) -> GenericIndexGenerationRefRecordView {
        GenericIndexGenerationRefRecordView {
            kind: self.kind,
            owner_digest: self.owner_digest@,
            reference_epoch_at_add: self.reference_epoch_at_add@,
        }
    }
}

impl View for GenericIndexAppendReceiptRecord {
    type V = GenericIndexAppendReceiptRecordView;

    open spec fn view(&self) -> GenericIndexAppendReceiptRecordView {
        GenericIndexAppendReceiptRecordView {
            first_sequence: self.first_sequence,
            row_count: self.row_count,
            commit_version: self.commit_version@,
            input_digest: self.input_digest@,
            resulting_row_count: self.resulting_row_count,
            resulting_row_digest: self.resulting_row_digest@,
        }
    }
}

impl View for GenericIndexRegistrationOperationRecord {
    type V = GenericIndexRegistrationOperationRecordView;

    open spec fn view(&self) -> GenericIndexRegistrationOperationRecordView {
        GenericIndexRegistrationOperationRecordView {
            workspace_incarnation_id: self.workspace_incarnation_id@,
            index_path: bytes::option_view(self.index_path),
            generation_id: self.generation_id@,
            request_digest: self.request_digest@,
            source_read_version: self.source_read_version@,
            last_transition_version: self.last_transition_version@,
            expected_current_generation: bytes::option_view(self.expected_current_generation),
            capability_digest: self.capability_digest@,
            declared_row_count: self.declared_row_count,
            appended_row_count: self.appended_row_count,
            rolling_row_digest: self.rolling_row_digest@,
            phase: self.phase,
            published_pointer_generation: bytes::option_view(self.published_pointer_generation),
            terminal_error: optional_text_view(self.terminal_error),
        }
    }
}

impl View for CommitGenericIndexMemberRecord {
    type V = CommitGenericIndexMemberRecordView;

    open spec fn view(&self) -> CommitGenericIndexMemberRecordView {
        CommitGenericIndexMemberRecordView {
            generation_id: self.generation_id@,
            capability_digest: self.capability_digest@,
            row_count: self.row_count,
            row_digest: self.row_digest@,
        }
    }
}

} // verus!
