//! Durable payloads of object-first artifact publication.
//!
//! The metadata executor wraps these payloads in the current-value envelope.
//! Publication workers compare that exact envelope when they apply a
//! transition, so that `Finalizing` and `Aborting` each have a single winner.

use vstd::prelude::*;
use vstd::utf8::*;

use crate::bytes;
use crate::ids::{ArtifactRevisionId, OperationId, WorkspaceIncarnationId};
use crate::names::{NormalizedRelativePath, WorkbenchId};
use crate::positions::{Generation, OwnerEpoch, WorkspaceRevision};
use crate::states::{PublishPhase, StagedCleanupState, StagedProviderState};
use crate::text;

verus! {

/// Durable value format for publication-owned payloads.
pub const PUBLISH_VALUE_FORMAT_VERSION: u8 = 4;

/// Hard safety bound for one publish operation's staged-object ledger.
pub const MAX_STAGED_OBJECTS: u32 = 1_048_576;

/// Hard safety bound for one immutable revision manifest.
pub const MAX_MANIFEST_ROWS: u32 = 1_048_576;

/// Maximum distinct physical owner revisions retained by one child revision.
pub const MAX_DEPENDENCY_COUNT: u8 = 64;

/// Maximum sealed revision-dependency graph depth.
pub const MAX_DEPENDENCY_DEPTH: u8 = 8;

/// Maximum append-segment sequence admitted by the durable publication codec.
pub const MAX_APPEND_SEGMENTS: u32 = 1_048_576;

/// Maximum bytes of a provider multipart upload id.
pub const MAX_MULTIPART_ID_BYTES: usize = 1024;

/// Maximum bytes of a digest URI.
pub const MAX_DIGEST_URI_BYTES: usize = 256;

/// Maximum bytes of a terminal error message.
pub const MAX_TERMINAL_ERROR_BYTES: usize = 4096;

/// Exact bytes of every artifact object key.
pub const OBJECT_KEY_BYTES: usize = 137;

/// Maximum durable bytes of one publish operation.
pub const MAX_PUBLISH_OPERATION_RECORD_BYTES: usize = 16384;

/// Maximum durable bytes of one staged object.
pub const MAX_STAGED_OBJECT_RECORD_BYTES: usize = 4096;

/// Maximum durable bytes of one manifest row.
pub const MAX_MANIFEST_ROW_BYTES: usize = 2048;

/// Path-level publication predicate sealed into the operation identity.
#[derive(Clone, Copy, Debug, PartialEq, Eq)]
pub enum PublishClaim {
    /// The normalized path must not exist.
    CreateOnly,
    /// The normalized path must exist at the exact generation.
    ReplaceOnly { expected_generation: Generation },
    /// The path and immutable base revision must still match before append.
    Append {
        expected_generation: Generation,
        base_revision_id: ArtifactRevisionId,
        append_offset: u64,
    },
}

/// Durable authority under which one publication may mutate a workspace.
#[derive(Clone, Copy, Debug, PartialEq, Eq)]
pub enum PublishAuthority {
    /// Normal publication into the current visible workspace incarnation.
    Visible,
    /// A dependency-free canonical run manifest retained by one commit build.
    CommitStaging { commit_operation_id: OperationId },
    /// The one reserved restore manifest published while a destination remains
    /// hidden under its owning restore operation.
    RestoreStaging { restore_operation_id: OperationId },
}

/// Deterministic result retained for exact response-loss replay.
#[derive(Debug, PartialEq, Eq)]
pub struct PublishResult {
    pub path_generation: Generation,
    pub workspace_revision: WorkspaceRevision,
    pub logical_size: u64,
    pub body_digest_uri: String,
}

/// Stable class of a terminal publication failure.
#[derive(Clone, Copy, Debug, PartialEq, Eq, Structural)]
pub enum PublishTerminalErrorKind {
    UploadFailed,
    VerificationFailed,
    PublishConflict,
    AbortedByCaller,
    ProviderAmbiguous,
    InvariantViolation,
    CleanupFailed,
    OwnerEpochSuperseded,
    ActivityLeaseExpired,
}

/// Stable terminal error plus bounded reconciliation evidence.
#[derive(Debug, PartialEq, Eq)]
pub struct PublishTerminalError {
    pub kind: PublishTerminalErrorKind,
    pub message: String,
    pub evidence_digest: Option<[u8; 32]>,
}

/// Last ordered manifest key covered by the durable rolling closure.
#[derive(Clone, Copy, Debug, PartialEq, Eq, PartialOrd, Ord)]
pub struct ManifestPosition {
    pub object_index: u64,
}

/// Durable publish operation payload.
///
/// Both full identity digests are retained so a 16-byte operation-id collision
/// and an exact-identity initialization mismatch remain distinguishable.
#[derive(Debug, PartialEq, Eq)]
pub struct PublishOperationRecord {
    pub operation_id: OperationId,
    pub identity_digest: [u8; 32],
    pub initialization_digest: [u8; 32],
    /// Root-owner epoch that durably admitted this operation.
    pub initiating_owner_epoch: OwnerEpoch,
    /// Extend-only durable activity lease for the initiating owner.
    pub activity_deadline_ms: u64,
    pub authority: PublishAuthority,
    pub workbench_id: WorkbenchId,
    pub workspace_incarnation_id: WorkspaceIncarnationId,
    pub path: NormalizedRelativePath,
    pub artifact_revision_id: ArtifactRevisionId,
    pub claim: PublishClaim,
    pub phase: PublishPhase,
    /// Exact final staged-ledger closure, known before any provider write.
    pub staged_object_count: u32,
    pub staged_object_seal: [u8; 32],
    /// Number and rolling digest of staged rows durably created so far.
    pub staged_object_cursor: u32,
    pub staged_object_rolling_digest: [u8; 32],
    /// Contiguous staged rows durably confirmed uploaded so far.
    pub uploaded_object_cursor: u32,
    pub uploaded_object_rolling_digest: [u8; 32],
    /// Exact final immutable-manifest closure.
    pub manifest_row_count: u32,
    pub manifest_seal: [u8; 32],
    /// Number, rolling digest, and final key of manifest rows staged so far.
    pub manifest_cursor: u32,
    pub manifest_rolling_digest: [u8; 32],
    pub manifest_last_position: Option<ManifestPosition>,
    /// Sealed, bounded physical-owner dependency closure.
    pub dependency_count: u8,
    pub dependency_depth: u8,
    pub dependency_digest: [u8; 32],
    /// Number of staged-object and manifest rows durably removed by cleanup.
    pub cleanup_staged_object_cursor: u32,
    pub cleanup_manifest_cursor: u32,
    /// Required only when cleanup takes over a `Finalizing` operation.
    pub publication_absence_proof: Option<[u8; 32]>,
    /// Present only in `Published`.
    pub result: Option<PublishResult>,
    /// Present throughout `Aborting`/`Cleaning` and their terminal states.
    pub terminal_error: Option<PublishTerminalError>,
}

/// One exact object owned by a publish operation before metadata visibility.
#[derive(Clone, Debug, PartialEq, Eq)]
pub struct StagedObjectRecord {
    pub artifact_revision_id: ArtifactRevisionId,
    pub object_sequence: u32,
    pub object_key: String,
    pub multipart_upload_id: Option<Vec<u8>>,
    pub expected_length: u64,
    pub expected_digest_uri: String,
    pub provider_state: StagedProviderState,
    pub cleanup_state: StagedCleanupState,
}

/// Optional immutable append-delta coordinate carried by one manifest row.
#[derive(Clone, Copy, Debug, PartialEq, Eq)]
pub struct AppendSegment {
    pub segment_sequence: u32,
    pub segment_offset: u64,
}

/// One direct immutable-object range in an artifact revision manifest.
#[derive(Clone, Debug, PartialEq, Eq)]
pub struct ArtifactManifestRow {
    /// The revision whose permanent object namespace physically owns the bytes.
    pub physical_owner_revision_id: ArtifactRevisionId,
    /// Owner-local index in that revision's permanent object namespace,
    /// independent of the child manifest position.
    pub physical_object_index: u64,
    pub object_key: String,
    /// Start offset in the complete logical artifact.
    pub logical_offset: u64,
    /// Start offset inside the immutable physical object.
    pub offset: u64,
    pub length: u64,
    pub digest_uri: String,
    pub append_segment: Option<AppendSegment>,
}

/// Validated state-machine action applied against an exact observed phase.
#[derive(Debug, PartialEq, Eq)]
pub enum PublishTransition {
    BeginFinalization,
    Publish { result: PublishResult },
    BeginAbort { terminal_error: PublishTerminalError },
    BeginCleaning,
    FinishCleanup,
    Quarantine { terminal_error: PublishTerminalError },
}

/// Strict format, invariant, or state-machine failure.
///
/// `T` holds caller-dependent text: a `String`, or its bytes in contracts.
#[derive(Clone, Debug, PartialEq, Eq)]
pub enum PublishRecordError<T = String> {
    UnsupportedValueVersion { actual: u8, expected: u8 },
    UnknownDiscriminant { durable_type: &'static str, value: u8 },
    InvalidOptionalTag { field: &'static str, value: u8 },
    InvalidUtf8 { field: &'static str },
    InvalidPath { reason: T },
    InvalidWorkbenchId { reason: T },
    EmptyField { field: &'static str },
    FieldTooLong { field: &'static str, length: usize, max: usize },
    InvalidAsciiField { field: &'static str },
    RecordTooLarge { record: &'static str, length: usize, max: usize },
    CountOutOfRange { field: &'static str, value: u64, max: u64 },
    ZeroScalar { field: &'static str },
    CursorOutOfRange { field: &'static str, cursor: u32, count: u32 },
    InvalidProgress { field: &'static str, reason: &'static str },
    InvalidDependencyShape { count: u8, depth: u8 },
    InvalidPhasePayload { phase: PublishPhase, reason: &'static str },
    PhaseMismatch { expected: PublishPhase, actual: PublishPhase },
    InvalidPhaseTransition { from: PublishPhase, to: PublishPhase },
    InvalidStagedStateCombination { provider: StagedProviderState, cleanup: StagedCleanupState },
    InvalidObjectKey { reason: &'static str },
    ObjectKeyRevisionMismatch,
    ObjectKeyIndexMismatch { expected: u64, actual: u64 },
    RangeOverflow { field: &'static str },
    Truncated { field: &'static str, needed: usize, remaining: usize },
    TrailingBytes { count: usize },
}

impl PublishRecordError<String> {
    /// This failure with its text as bytes.
    pub open spec fn model(self) -> PublishRecordError<Seq<u8>> {
        match self {
            Self::UnsupportedValueVersion { actual, expected } => PublishRecordError::UnsupportedValueVersion { actual, expected },
            Self::UnknownDiscriminant { durable_type, value } => PublishRecordError::UnknownDiscriminant { durable_type, value },
            Self::InvalidOptionalTag { field, value } => PublishRecordError::InvalidOptionalTag { field, value },
            Self::InvalidUtf8 { field } => PublishRecordError::InvalidUtf8 { field },
            Self::InvalidPath { reason } => PublishRecordError::InvalidPath { reason: bytes::utf8(reason@) },
            Self::InvalidWorkbenchId { reason } => PublishRecordError::InvalidWorkbenchId { reason: bytes::utf8(reason@) },
            Self::EmptyField { field } => PublishRecordError::EmptyField { field },
            Self::FieldTooLong { field, length, max } => PublishRecordError::FieldTooLong { field, length, max },
            Self::InvalidAsciiField { field } => PublishRecordError::InvalidAsciiField { field },
            Self::RecordTooLarge { record, length, max } => PublishRecordError::RecordTooLarge { record, length, max },
            Self::CountOutOfRange { field, value, max } => PublishRecordError::CountOutOfRange { field, value, max },
            Self::ZeroScalar { field } => PublishRecordError::ZeroScalar { field },
            Self::CursorOutOfRange { field, cursor, count } => PublishRecordError::CursorOutOfRange { field, cursor, count },
            Self::InvalidProgress { field, reason } => PublishRecordError::InvalidProgress { field, reason },
            Self::InvalidDependencyShape { count, depth } => PublishRecordError::InvalidDependencyShape { count, depth },
            Self::InvalidPhasePayload { phase, reason } => PublishRecordError::InvalidPhasePayload { phase, reason },
            Self::PhaseMismatch { expected, actual } => PublishRecordError::PhaseMismatch { expected, actual },
            Self::InvalidPhaseTransition { from, to } => PublishRecordError::InvalidPhaseTransition { from, to },
            Self::InvalidStagedStateCombination { provider, cleanup } => PublishRecordError::InvalidStagedStateCombination { provider, cleanup },
            Self::InvalidObjectKey { reason } => PublishRecordError::InvalidObjectKey { reason },
            Self::ObjectKeyRevisionMismatch => PublishRecordError::ObjectKeyRevisionMismatch,
            Self::ObjectKeyIndexMismatch { expected, actual } => PublishRecordError::ObjectKeyIndexMismatch { expected, actual },
            Self::RangeOverflow { field } => PublishRecordError::RangeOverflow { field },
            Self::Truncated { field, needed, remaining } => PublishRecordError::Truncated { field, needed, remaining },
            Self::TrailingBytes { count } => PublishRecordError::TrailingBytes { count },
        }
    }

    /// Diagnostic text of this failure.
    pub fn message(&self) -> (message: String)
        ensures
            bytes::utf8(message@) == self.model().message_bytes(),
    {
        let mut out: Vec<u8> = Vec::new();
        match self {
            Self::UnsupportedValueVersion { actual, expected } => {
                text::push_text(&mut out, "unsupported publication value format version ");
                text::push_decimal(&mut out, *actual as u64);
                text::push_text(&mut out, ", expected ");
                text::push_decimal(&mut out, *expected as u64);
            },
            Self::UnknownDiscriminant { durable_type, value } => {
                text::push_text(&mut out, "unknown ");
                text::push_text(&mut out, durable_type);
                text::push_text(&mut out, " discriminant ");
                text::push_decimal(&mut out, *value as u64);
            },
            Self::InvalidOptionalTag { field, value } => {
                text::push_text(&mut out, "invalid optional tag ");
                text::push_decimal(&mut out, *value as u64);
                text::push_text(&mut out, " for ");
                text::push_text(&mut out, field);
            },
            Self::InvalidUtf8 { field } => {
                text::push_text(&mut out, field);
                text::push_text(&mut out, " is not valid UTF-8");
            },
            Self::InvalidPath { reason } => {
                text::push_text(&mut out, "invalid publication path: ");
                text::push_text(&mut out, reason.as_str());
            },
            Self::InvalidWorkbenchId { reason } => {
                text::push_text(&mut out, "invalid publication workbench id: ");
                text::push_text(&mut out, reason.as_str());
            },
            Self::EmptyField { field } => {
                text::push_text(&mut out, field);
                text::push_text(&mut out, " must not be empty");
            },
            Self::FieldTooLong { field, length, max } => {
                text::push_text(&mut out, field);
                text::push_text(&mut out, " is ");
                text::push_decimal(&mut out, *length as u64);
                text::push_text(&mut out, " bytes, maximum is ");
                text::push_decimal(&mut out, *max as u64);
            },
            Self::InvalidAsciiField { field } => {
                text::push_text(&mut out, field);
                text::push_text(&mut out, " must contain visible ASCII without NUL");
            },
            Self::RecordTooLarge { record, length, max } => {
                text::push_text(&mut out, record);
                text::push_text(&mut out, " is ");
                text::push_decimal(&mut out, *length as u64);
                text::push_text(&mut out, " bytes, maximum is ");
                text::push_decimal(&mut out, *max as u64);
            },
            Self::CountOutOfRange { field, value, max } => {
                text::push_text(&mut out, field);
                text::push_text(&mut out, " ");
                text::push_decimal(&mut out, *value);
                text::push_text(&mut out, " exceeds maximum ");
                text::push_decimal(&mut out, *max);
            },
            Self::ZeroScalar { field } => {
                text::push_text(&mut out, field);
                text::push_text(&mut out, " must be non-zero");
            },
            Self::CursorOutOfRange { field, cursor, count } => {
                text::push_text(&mut out, field);
                text::push_text(&mut out, " ");
                text::push_decimal(&mut out, *cursor as u64);
                text::push_text(&mut out, " exceeds sealed count ");
                text::push_decimal(&mut out, *count as u64);
            },
            Self::InvalidProgress { field, reason } => {
                text::push_text(&mut out, "invalid ");
                text::push_text(&mut out, field);
                text::push_text(&mut out, " progress: ");
                text::push_text(&mut out, reason);
            },
            Self::InvalidDependencyShape { count, depth } => {
                text::push_text(&mut out, "dependency count/depth pair (");
                text::push_decimal(&mut out, *count as u64);
                text::push_text(&mut out, ", ");
                text::push_decimal(&mut out, *depth as u64);
                text::push_text(&mut out, ") is not a sealed v1 closure");
            },
            Self::InvalidPhasePayload { phase, reason } => {
                text::push_text(&mut out, "invalid ");
                text::push_text(&mut out, phase.label());
                text::push_text(&mut out, " payload: ");
                text::push_text(&mut out, reason);
            },
            Self::PhaseMismatch { expected, actual } => {
                text::push_text(&mut out, "publish phase mismatch: expected ");
                text::push_text(&mut out, expected.label());
                text::push_text(&mut out, ", actual ");
                text::push_text(&mut out, actual.label());
            },
            Self::InvalidPhaseTransition { from, to } => {
                text::push_text(&mut out, "invalid publish transition ");
                text::push_text(&mut out, from.label());
                text::push_text(&mut out, " -> ");
                text::push_text(&mut out, to.label());
            },
            Self::InvalidStagedStateCombination { provider, cleanup } => {
                text::push_text(&mut out, "invalid staged-object state pair ");
                text::push_text(&mut out, provider.label());
                text::push_text(&mut out, "/");
                text::push_text(&mut out, cleanup.label());
            },
            Self::InvalidObjectKey { reason } => {
                text::push_text(&mut out, "invalid object key: ");
                text::push_text(&mut out, reason);
            },
            Self::ObjectKeyRevisionMismatch => {
                text::push_text(&mut out, "object key revision does not match its physical owner");
            },
            Self::ObjectKeyIndexMismatch { expected, actual } => {
                text::push_text(&mut out, "object key index ");
                text::push_decimal(&mut out, *actual);
                text::push_text(&mut out, " does not match physical object index ");
                text::push_decimal(&mut out, *expected);
            },
            Self::RangeOverflow { field } => {
                text::push_text(&mut out, field);
                text::push_text(&mut out, " range overflows u64");
            },
            Self::Truncated { field, needed, remaining } => {
                text::push_text(&mut out, "truncated ");
                text::push_text(&mut out, field);
                text::push_text(&mut out, ": need ");
                text::push_decimal(&mut out, *needed as u64);
                text::push_text(&mut out, " bytes, have ");
                text::push_decimal(&mut out, *remaining as u64);
            },
            Self::TrailingBytes { count } => {
                text::push_text(&mut out, "publication value has ");
                text::push_decimal(&mut out, *count as u64);
                text::push_text(&mut out, " trailing bytes");
            },
        }
        assert(out@ =~= self.model().message_bytes());
        text::finish_text(out)
    }
}

impl PublishRecordError<Seq<u8>> {
    /// Bytes of the diagnostic text.
    pub open spec fn message_bytes(self) -> Seq<u8> {
        match self {
            Self::UnsupportedValueVersion { actual, expected } => bytes::utf8("unsupported publication value format version "@) + text::decimal(actual as nat) + bytes::utf8(", expected "@) + text::decimal(expected as nat),
            Self::UnknownDiscriminant { durable_type, value } => bytes::utf8("unknown "@) + bytes::utf8(durable_type@) + bytes::utf8(" discriminant "@) + text::decimal(value as nat),
            Self::InvalidOptionalTag { field, value } => bytes::utf8("invalid optional tag "@) + text::decimal(value as nat) + bytes::utf8(" for "@) + bytes::utf8(field@),
            Self::InvalidUtf8 { field } => bytes::utf8(field@) + bytes::utf8(" is not valid UTF-8"@),
            Self::InvalidPath { reason } => bytes::utf8("invalid publication path: "@) + reason,
            Self::InvalidWorkbenchId { reason } => bytes::utf8("invalid publication workbench id: "@) + reason,
            Self::EmptyField { field } => bytes::utf8(field@) + bytes::utf8(" must not be empty"@),
            Self::FieldTooLong { field, length, max } => bytes::utf8(field@) + bytes::utf8(" is "@) + text::decimal(length as nat) + bytes::utf8(" bytes, maximum is "@) + text::decimal(max as nat),
            Self::InvalidAsciiField { field } => bytes::utf8(field@) + bytes::utf8(" must contain visible ASCII without NUL"@),
            Self::RecordTooLarge { record, length, max } => bytes::utf8(record@) + bytes::utf8(" is "@) + text::decimal(length as nat) + bytes::utf8(" bytes, maximum is "@) + text::decimal(max as nat),
            Self::CountOutOfRange { field, value, max } => bytes::utf8(field@) + bytes::utf8(" "@) + text::decimal(value as nat) + bytes::utf8(" exceeds maximum "@) + text::decimal(max as nat),
            Self::ZeroScalar { field } => bytes::utf8(field@) + bytes::utf8(" must be non-zero"@),
            Self::CursorOutOfRange { field, cursor, count } => bytes::utf8(field@) + bytes::utf8(" "@) + text::decimal(cursor as nat) + bytes::utf8(" exceeds sealed count "@) + text::decimal(count as nat),
            Self::InvalidProgress { field, reason } => bytes::utf8("invalid "@) + bytes::utf8(field@) + bytes::utf8(" progress: "@) + bytes::utf8(reason@),
            Self::InvalidDependencyShape { count, depth } => bytes::utf8("dependency count/depth pair ("@) + text::decimal(count as nat) + bytes::utf8(", "@) + text::decimal(depth as nat) + bytes::utf8(") is not a sealed v1 closure"@),
            Self::InvalidPhasePayload { phase, reason } => bytes::utf8("invalid "@) + bytes::utf8(phase.name()@) + bytes::utf8(" payload: "@) + bytes::utf8(reason@),
            Self::PhaseMismatch { expected, actual } => bytes::utf8("publish phase mismatch: expected "@) + bytes::utf8(expected.name()@) + bytes::utf8(", actual "@) + bytes::utf8(actual.name()@),
            Self::InvalidPhaseTransition { from, to } => bytes::utf8("invalid publish transition "@) + bytes::utf8(from.name()@) + bytes::utf8(" -> "@) + bytes::utf8(to.name()@),
            Self::InvalidStagedStateCombination { provider, cleanup } => bytes::utf8("invalid staged-object state pair "@) + bytes::utf8(provider.name()@) + bytes::utf8("/"@) + bytes::utf8(cleanup.name()@),
            Self::InvalidObjectKey { reason } => bytes::utf8("invalid object key: "@) + bytes::utf8(reason@),
            Self::ObjectKeyRevisionMismatch => bytes::utf8("object key revision does not match its physical owner"@),
            Self::ObjectKeyIndexMismatch { expected, actual } => bytes::utf8("object key index "@) + text::decimal(actual as nat) + bytes::utf8(" does not match physical object index "@) + text::decimal(expected as nat),
            Self::RangeOverflow { field } => bytes::utf8(field@) + bytes::utf8(" range overflows u64"@),
            Self::Truncated { field, needed, remaining } => bytes::utf8("truncated "@) + bytes::utf8(field@) + bytes::utf8(": need "@) + text::decimal(needed as nat) + bytes::utf8(" bytes, have "@) + text::decimal(remaining as nat),
            Self::TrailingBytes { count } => bytes::utf8("publication value has "@) + text::decimal(count as nat) + bytes::utf8(" trailing bytes"@),
        }
    }
}

/// A failure of a publication record, with its text as bytes.
pub type PublishFailure = PublishRecordError<Seq<u8>>;

impl PublishTerminalErrorKind {
    /// Durable byte of this class.
    pub open spec fn byte(self) -> u8 {
        match self {
            Self::UploadFailed => 1,
            Self::VerificationFailed => 2,
            Self::PublishConflict => 3,
            Self::AbortedByCaller => 4,
            Self::ProviderAmbiguous => 5,
            Self::InvariantViolation => 6,
            Self::CleanupFailed => 7,
            Self::OwnerEpochSuperseded => 8,
            Self::ActivityLeaseExpired => 9,
        }
    }

    /// The class with this durable byte.
    pub open spec fn of_byte(value: u8) -> Option<Self> {
        if value == 1 {
            Some(Self::UploadFailed)
        } else if value == 2 {
            Some(Self::VerificationFailed)
        } else if value == 3 {
            Some(Self::PublishConflict)
        } else if value == 4 {
            Some(Self::AbortedByCaller)
        } else if value == 5 {
            Some(Self::ProviderAmbiguous)
        } else if value == 6 {
            Some(Self::InvariantViolation)
        } else if value == 7 {
            Some(Self::CleanupFailed)
        } else if value == 8 {
            Some(Self::OwnerEpochSuperseded)
        } else if value == 9 {
            Some(Self::ActivityLeaseExpired)
        } else {
            None
        }
    }

    /// Durable byte of this class.
    pub fn to_byte(self) -> (value: u8)
        ensures
            value == self.byte(),
            Self::of_byte(value) == Some(self),
    {
        match self {
            Self::UploadFailed => 1,
            Self::VerificationFailed => 2,
            Self::PublishConflict => 3,
            Self::AbortedByCaller => 4,
            Self::ProviderAmbiguous => 5,
            Self::InvariantViolation => 6,
            Self::CleanupFailed => 7,
            Self::OwnerEpochSuperseded => 8,
            Self::ActivityLeaseExpired => 9,
        }
    }

    /// The class with this durable byte.
    pub fn try_from(value: u8) -> (kind: Result<Self, PublishRecordError>)
        ensures
            match Self::of_byte(value) {
                Some(k) => kind == Ok::<Self, PublishRecordError>(k) && k.byte() == value,
                None => kind == Err::<Self, PublishRecordError>(
                    PublishRecordError::UnknownDiscriminant {
                        durable_type: "PublishTerminalErrorKind",
                        value,
                    },
                ),
            },
    {
        match value {
            1 => Ok(Self::UploadFailed),
            2 => Ok(Self::VerificationFailed),
            3 => Ok(Self::PublishConflict),
            4 => Ok(Self::AbortedByCaller),
            5 => Ok(Self::ProviderAmbiguous),
            6 => Ok(Self::InvariantViolation),
            7 => Ok(Self::CleanupFailed),
            8 => Ok(Self::OwnerEpochSuperseded),
            9 => Ok(Self::ActivityLeaseExpired),
            _ => Err(
                PublishRecordError::UnknownDiscriminant {
                    durable_type: "PublishTerminalErrorKind",
                    value,
                },
            ),
        }
    }
}

} // verus!
