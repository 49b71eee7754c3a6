//! Contents of publication records and the checks that admit them.

use vstd::prelude::*;
use vstd::utf8::*;

use crate::bytes;
use crate::ids::ArtifactRevisionId;
use crate::publish_records::{
    AppendSegment, ArtifactManifestRow, PublishAuthority, PublishClaim, PublishFailure,
    PublishOperationRecord, PublishRecordError, PublishResult, PublishTerminalError,
    PublishTerminalErrorKind, PublishTransition, StagedObjectRecord, MAX_DEPENDENCY_COUNT,
    MAX_DEPENDENCY_DEPTH, MAX_DIGEST_URI_BYTES, OBJECT_KEY_BYTES,
};
use crate::states::{PublishPhase, StagedCleanupState, StagedProviderState};
use crate::text;

verus! {

/// Contents of a [`PublishClaim`].
pub enum PublishClaimView {
    CreateOnly,
    ReplaceOnly { expected_generation: u64 },
    Append { expected_generation: u64, base_revision_id: Seq<u8>, append_offset: u64 },
}

/// Contents of a [`PublishAuthority`].
pub enum PublishAuthorityView {
    Visible,
    CommitStaging { commit_operation_id: Seq<u8> },
    RestoreStaging { restore_operation_id: Seq<u8> },
}

/// Contents of a [`PublishResult`].
pub struct PublishResultView {
    pub path_generation: u64,
    pub workspace_revision: u64,
    pub logical_size: u64,
    pub body_digest_uri: Seq<u8>,
}

/// Contents of a [`PublishTerminalError`].
pub struct PublishTerminalErrorView {
    pub kind: PublishTerminalErrorKind,
    pub message: Seq<u8>,
    pub evidence_digest: Option<Seq<u8>>,
}

/// What a publish operation is about; fixed when it is admitted, except for
/// the lease and the phase.
pub struct PublishIdentityView {
    pub operation_id: Seq<u8>,
    pub identity_digest: Seq<u8>,
    pub initialization_digest: Seq<u8>,
    pub initiating_owner_epoch: u64,
    pub activity_deadline_ms: u64,
    pub authority: PublishAuthorityView,
    pub workbench_id: Seq<u8>,
    pub workspace_incarnation_id: Seq<u8>,
    pub path: Seq<u8>,
    pub artifact_revision_id: Seq<u8>,
    pub claim: PublishClaimView,
    pub phase: PublishPhase,
}

/// Sealed counts of a publish operation and how far it has come.
pub struct PublishLedgerView {
    pub staged_object_count: u32,
    pub staged_object_seal: Seq<u8>,
    pub staged_object_cursor: u32,
    pub staged_object_rolling_digest: Seq<u8>,
    pub uploaded_object_cursor: u32,
    pub uploaded_object_rolling_digest: Seq<u8>,
    pub manifest_row_count: u32,
    pub manifest_seal: Seq<u8>,
    pub manifest_cursor: u32,
    pub manifest_rolling_digest: Seq<u8>,
    pub manifest_last_position: Option<u64>,
}

/// Dependencies, cleanup, and outcome of a publish operation.
pub struct PublishClosureView {
    pub dependency_count: u8,
    pub dependency_depth: u8,
    pub dependency_digest: Seq<u8>,
    pub cleanup_staged_object_cursor: u32,
    pub cleanup_manifest_cursor: u32,
    pub publication_absence_proof: Option<Seq<u8>>,
    pub result: Option<PublishResultView>,
    pub terminal_error: Option<PublishTerminalErrorView>,
}

/// Contents of a [`PublishOperationRecord`].
pub struct PublishOperationRecordView {
    pub identity: PublishIdentityView,
    pub ledger: PublishLedgerView,
    pub closure: PublishClosureView,
}

/// Contents of a [`StagedObjectRecord`].
pub struct StagedObjectRecordView {
    pub artifact_revision_id: Seq<u8>,
    pub object_sequence: u32,
    pub object_key: Seq<u8>,
    pub multipart_upload_id: Option<Seq<u8>>,
    pub expected_length: u64,
    pub expected_digest_uri: Seq<u8>,
    pub provider_state: StagedProviderState,
    pub cleanup_state: StagedCleanupState,
}

/// Contents of an [`ArtifactManifestRow`].
pub struct ArtifactManifestRowView {
    pub physical_owner_revision_id: Seq<u8>,
    pub physical_object_index: u64,
    pub object_key: Seq<u8>,
    pub logical_offset: u64,
    pub offset: u64,
    pub length: u64,
    pub digest_uri: Seq<u8>,
    pub append_segment: Option<AppendSegment>,
}

/// Contents of a [`PublishTransition`].
pub enum PublishTransitionView {
    BeginFinalization,
    Publish { result: PublishResultView },
    BeginAbort { terminal_error: PublishTerminalErrorView },
    BeginCleaning,
    FinishCleanup,
    Quarantine { terminal_error: PublishTerminalErrorView },
}

impl View for PublishClaim {
    type V = PublishClaimView;

    open spec fn view(&self) -> PublishClaimView {
        match self {
            Self::CreateOnly => PublishClaimView::CreateOnly,
            Self::ReplaceOnly { expected_generation } => PublishClaimView::ReplaceOnly {
                expected_generation: expected_generation@,
            },
            Self::Append { expected_generation, base_revision_id, append_offset } =>
                PublishClaimView::Append {
                expected_generation: expected_generation@,
                base_revision_id: base_revision_id@,
                append_offset: *append_offset,
            },
        }
    }
}

impl View for PublishAuthority {
    type V = PublishAuthorityView;

    open spec fn view(&self) -> PublishAuthorityView {
        match self {
            Self::Visible => PublishAuthorityView::Visible,
            Self::CommitStaging { commit_operation_id } => PublishAuthorityView::CommitStaging {
                commit_operation_id: commit_operation_id@,
            },
            Self::RestoreStaging { restore_operation_id } => PublishAuthorityView::RestoreStaging {
                restore_operation_id: restore_operation_id@,
            },
        }
    }
}

impl View for PublishResult {
    type V = PublishResultView;

    open spec fn view(&self) -> PublishResultView {
        PublishResultView {
            path_generation: self.path_generation@,
            workspace_revision: self.workspace_revision@,
            logical_size: self.logical_size,
            body_digest_uri: bytes::utf8(self.body_digest_uri@),
        }
    }
}

impl View for PublishTerminalError {
    type V = PublishTerminalErrorView;

    open spec fn view(&self) -> PublishTerminalErrorView {
        PublishTerminalErrorView {
            kind: self.kind,
            message: bytes::utf8(self.message@),
            evidence_digest: bytes::option_view(self.evidence_digest),
        }
    }
}

impl PublishOperationRecord {
    /// Identity part of this operation.
    pub open spec fn identity_view(&self) -> PublishIdentityView {
        PublishIdentityView {
            operation_id: self.operation_id@,
            identity_digest: self.identity_digest@,
            initialization_digest: self.initialization_digest@,
            initiating_owner_epoch: self.initiating_owner_epoch@,
            activity_deadline_ms: self.activity_deadline_ms,
            authority: self.authority@,
            workbench_id: self.workbench_id@,
            workspace_incarnation_id: self.workspace_incarnation_id@,
            path: self.path@,
            artifact_revision_id: self.artifact_revision_id@,
            claim: self.claim@,
            phase: self.phase,
        }
    }

    /// Ledger part of this operation.
    pub open spec fn ledger_view(&self) -> PublishLedgerView {
        PublishLedgerView {
            staged_object_count: self.staged_object_count,
            staged_object_seal: self.staged_object_seal@,
            staged_object_cursor: self.staged_object_cursor,
            staged_object_rolling_digest: self.staged_object_rolling_digest@,
            uploaded_object_cursor: self.uploaded_object_cursor,
            uploaded_object_rolling_digest: self.uploaded_object_rolling_digest@,
            manifest_row_count: self.manifest_row_count,
            manifest_seal: self.manifest_seal@,
            manifest_cursor: self.manifest_cursor,
            manifest_rolling_digest: self.manifest_rolling_digest@,
            manifest_last_position: match self.manifest_last_position {
                None => None,
                Some(position) => Some(position.object_index),
            },
        }
    }

    /// Closure part of this operation.
    pub open spec fn closure_view(&self) -> PublishClosureView {
        PublishClosureView {
            dependency_count: self.dependency_count,
            dependency_depth: self.dependency_depth,
            dependency_digest: self.dependency_digest@,
            cleanup_staged_object_cursor: self.cleanup_staged_object_cursor,
            cleanup_manifest_cursor: self.cleanup_manifest_cursor,
            publication_absence_proof: bytes::option_view(self.publication_absence_proof),
            result: bytes::option_view(self.result),
            terminal_error: bytes::option_view(self.terminal_error),
        }
    }
}

impl View for PublishOperationRecord {
    type V = PublishOperationRecordView;

    open spec fn view(&self) -> PublishOperationRecordView {
        PublishOperationRecordView {
            identity: self.identity_view(),
            ledger: self.ledger_view(),
            closure: self.closure_view(),
        }
    }
}

impl View for StagedObjectRecord {
    type V = StagedObjectRecordView;

    open spec fn view(&self) -> StagedObjectRecordView {
        StagedObjectRecordView {
            artifact_revision_id: self.artifact_revision_id@,
            object_sequence: self.object_sequence,
            object_key: bytes::utf8(self.object_key@),
            multipart_upload_id: bytes::option_view(self.multipart_upload_id),
            expected_length: self.expected_length,
            expected_digest_uri: bytes::utf8(self.expected_digest_uri@),
            provider_state: self.provider_state,
            cleanup_state: self.cleanup_state,
        }
    }
}

impl View for ArtifactManifestRow {
    type V = ArtifactManifestRowView;

    open spec fn view(&self) -> ArtifactManifestRowView {
        ArtifactManifestRowView {
            physical_owner_revision_id: self.physical_owner_revision_id@,
            physical_object_index: self.physical_object_index,
            object_key: bytes::utf8(self.object_key@),
            logical_offset: self.logical_offset,
            offset: self.offset,
            length: self.length,
            digest_uri: bytes::utf8(self.digest_uri@),
            append_segment: self.append_segment,
        }
    }
}

impl View for PublishTransition {
    type V = PublishTransitionView;

    open spec fn view(&self) -> PublishTransitionView {
        match self {
            Self::BeginFinalization => PublishTransitionView::BeginFinalization,
            Self::Publish { result } => PublishTransitionView::Publish { result: result@ },
            Self::BeginAbort { terminal_error } => PublishTransitionView::BeginAbort {
                terminal_error: terminal_error@,
            },
            Self::BeginCleaning => PublishTransitionView::BeginCleaning,
            Self::FinishCleanup => PublishTransitionView::FinishCleanup,
            Self::Quarantine { terminal_error } => PublishTransitionView::Quarantine {
                terminal_error: terminal_error@,
            },
        }
    }
}

/// The digest of nothing: thirty-two zero bytes.
pub open spec fn zero_digest() -> Seq<u8> {
    Seq::new(32, |i: int| 0u8)
}

/// Whether a digest is all zero.
pub fn is_zero_digest(digest: &[u8; 32]) -> (zero: bool)
    ensures
        zero == (digest@ == zero_digest()),
{
    let mut i: usize = 0;
    while i < 32
        invariant
            i <= 32,
            digest@.len() == 32,
            forall|j: int| 0 <= j < i ==> digest@[j] == 0,
        decreases 32 - i,
    {
        if digest[i] != 0 {
            assert(zero_digest()[i as int] == 0);
            return false;
        }
        i = i + 1;
    }
    assert(digest@ =~= zero_digest());
    true
}

/// Whether two digests are the same.
pub fn same_digest(a: &[u8; 32], b: &[u8; 32]) -> (same: bool)
    ensures
        same == (a@ == b@),
{
    bytes::bytes_equal(a.as_slice(), b.as_slice())
}

/// The result of a check, with its failure as contents.
pub open spec fn checked(result: Result<(), PublishRecordError>) -> Result<(), PublishFailure> {
    match result {
        Ok(()) => Ok(()),
        Err(e) => Err(e.model()),
    }
}

/// Passes exactly when the condition holds.
pub open spec fn require(condition: bool, failure: PublishFailure) -> Result<(), PublishFailure> {
    if condition {
        Ok(())
    } else {
        Err(failure)
    }
}

/// The first check, and the second when the first passes.
pub open spec fn and_also(
    first: Result<(), PublishFailure>,
    second: Result<(), PublishFailure>,
) -> Result<(), PublishFailure> {
    match first {
        Err(e) => Err(e),
        Ok(()) => second,
    }
}

/// Bounded, non-empty text without NUL.
pub open spec fn text_check(field: &'static str, value: Seq<u8>, max: usize) -> Result<
    (),
    PublishFailure,
> {
    if value.len() == 0 {
        Err(PublishRecordError::EmptyField { field })
    } else if value.len() > max {
        Err(PublishRecordError::FieldTooLong { field, length: value.len() as usize, max })
    } else if exists|i: int| 0 <= i < value.len() && value[i] == 0 {
        Err(PublishRecordError::InvalidAsciiField { field })
    } else {
        Ok(())
    }
}

/// Bounded, non-empty text of visible ASCII.
pub open spec fn visible_ascii_check(field: &'static str, value: Seq<u8>, max: usize) -> Result<
    (),
    PublishFailure,
> {
    and_also(
        text_check(field, value, max),
        require(
            forall|i: int| 0 <= i < value.len() ==> 0x21 <= #[trigger] value[i] <= 0x7e,
            PublishRecordError::InvalidAsciiField { field },
        ),
    )
}

/// Bounded, non-empty bytes.
pub open spec fn opaque_bytes_check(field: &'static str, value: Seq<u8>, max: usize) -> Result<
    (),
    PublishFailure,
> {
    if value.len() == 0 {
        Err(PublishRecordError::EmptyField { field })
    } else if value.len() > max {
        Err(PublishRecordError::FieldTooLong { field, length: value.len() as usize, max })
    } else {
        Ok(())
    }
}

/// Checks bounded, non-empty text without NUL.
pub fn validate_text(field: &'static str, value: &str, max: usize) -> (result: Result<
    (),
    PublishRecordError,
>)
    ensures
        checked(result) == text_check(field, bytes::utf8(value@), max),
{
    let b = value.as_bytes();
    if b.len() == 0 {
        return Err(PublishRecordError::EmptyField { field });
    }
    if b.len() > max {
        return Err(PublishRecordError::FieldTooLong { field, length: b.len(), max });
    }
    let mut i: usize = 0;
    while i < b.len()
        invariant
            i <= b@.len(),
            b@ == bytes::utf8(value@),
            0 < b@.len() <= max,
            forall|j: int| 0 <= j < i ==> b@[j] != 0,
        decreases b@.len() - i,
    {
        if b[i] == 0 {
            return Err(PublishRecordError::InvalidAsciiField { field });
        }
        i = i + 1;
    }
    Ok(())
}

/// Checks bounded, non-empty visible ASCII.
pub fn validate_visible_ascii(field: &'static str, value: &str, max: usize) -> (result: Result<
    (),
    PublishRecordError,
>)
    ensures
        checked(result) == visible_ascii_check(field, bytes::utf8(value@), max),
{
    validate_text(field, value, max)?;
    let b = value.as_bytes();
    let mut i: usize = 0;
    while i < b.len()
        invariant
            i <= b@.len(),
            b@ == bytes::utf8(value@),
            text_check(field, b@, max) is Ok,
            forall|j: int| 0 <= j < i ==> 0x21 <= #[trigger] b@[j] <= 0x7e,
        decreases b@.len() - i,
    {
        if b[i] < 0x21 || b[i] > 0x7e {
            assert(!(0x21 <= b@[i as int] <= 0x7e));
            return Err(PublishRecordError::InvalidAsciiField { field });
        }
        i = i + 1;
    }
    Ok(())
}

/// Checks a digest URI.
pub fn validate_digest_uri(field: &'static str, value: &str) -> (result: Result<
    (),
    PublishRecordError,
>)
    ensures
        checked(result) == visible_ascii_check(field, bytes::utf8(value@), MAX_DIGEST_URI_BYTES),
{
    validate_visible_ascii(field, value, MAX_DIGEST_URI_BYTES)
}

/// Checks bounded, non-empty bytes.
pub fn validate_opaque_bytes(field: &'static str, value: &[u8], max: usize) -> (result: Result<
    (),
    PublishRecordError,
>)
    ensures
        checked(result) == opaque_bytes_check(field, value@, max),
{
    if value.len() == 0 {
        return Err(PublishRecordError::EmptyField { field });
    }
    if value.len() > max {
        return Err(PublishRecordError::FieldTooLong { field, length: value.len(), max });
    }
    Ok(())
}

/// A count and depth within their bounds, both zero or both non-zero.
pub open spec fn dependency_shape(count: u8, depth: u8) -> bool {
    &&& count <= MAX_DEPENDENCY_COUNT
    &&& depth <= MAX_DEPENDENCY_DEPTH
    &&& (count == 0 <==> depth == 0)
}

/// Checks the dependency count and depth.
pub fn validate_dependency_shape(count: u8, depth: u8) -> (result: Result<(), PublishRecordError>)
    ensures
        checked(result) == require(
            dependency_shape(count, depth),
            PublishRecordError::InvalidDependencyShape { count, depth },
        ),
{
    let valid: bool = count <= MAX_DEPENDENCY_COUNT && depth <= MAX_DEPENDENCY_DEPTH && ((count == 0
        && depth == 0) || (count > 0 && depth > 0));
    if valid {
        Ok(())
    } else {
        Err(PublishRecordError::InvalidDependencyShape { count, depth })
    }
}

/// A cursor may not pass its count.
pub open spec fn cursor_check(field: &'static str, cursor: u32, count: u32) -> Result<
    (),
    PublishFailure,
> {
    require(cursor <= count, PublishRecordError::CursorOutOfRange { field, cursor, count })
}

/// Checks a cursor against its count.
pub fn require_cursor(field: &'static str, cursor: u32, count: u32) -> (result: Result<
    (),
    PublishRecordError,
>)
    ensures
        checked(result) == cursor_check(field, cursor, count),
{
    if cursor <= count {
        Ok(())
    } else {
        Err(PublishRecordError::CursorOutOfRange { field, cursor, count })
    }
}

/// A rolling digest starts at zero and ends at the seal, and an empty closure
/// is sealed by zero.
pub open spec fn progress_check(
    field: &'static str,
    count: u32,
    seal: Seq<u8>,
    cursor: u32,
    rolling_digest: Seq<u8>,
) -> Result<(), PublishFailure> {
    if cursor == 0 && rolling_digest != zero_digest() {
        Err(
            PublishRecordError::InvalidProgress {
                field,
                reason: "cursor zero requires the zero rolling digest",
            },
        )
    } else if count == 0 && seal != zero_digest() {
        Err(
            PublishRecordError::InvalidProgress {
                field,
                reason: "empty closure requires the zero seal",
            },
        )
    } else if cursor == count && rolling_digest != seal {
        Err(
            PublishRecordError::InvalidProgress {
                field,
                reason: "complete cursor must match the final seal",
            },
        )
    } else {
        Ok(())
    }
}

/// Checks one rolling digest against its seal.
pub fn validate_progress_digest(
    field: &'static str,
    count: u32,
    seal: &[u8; 32],
    cursor: u32,
    rolling_digest: &[u8; 32],
) -> (result: Result<(), PublishRecordError>)
    ensures
        checked(result) == progress_check(field, count, seal@, cursor, rolling_digest@),
{
    if cursor == 0 && !is_zero_digest(rolling_digest) {
        return Err(
            PublishRecordError::InvalidProgress {
                field,
                reason: "cursor zero requires the zero rolling digest",
            },
        );
    }
    if count == 0 && !is_zero_digest(seal) {
        return Err(
            PublishRecordError::InvalidProgress {
                field,
                reason: "empty closure requires the zero seal",
            },
        );
    }
    if cursor == count && !same_digest(rolling_digest, seal) {
        return Err(
            PublishRecordError::InvalidProgress {
                field,
                reason: "complete cursor must match the final seal",
            },
        );
    }
    Ok(())
}

/// The provider and cleanup states that one staged object can be in together.
pub open spec fn staged_state_pair(
    provider: StagedProviderState,
    cleanup: StagedCleanupState,
) -> bool {
    match cleanup {
        StagedCleanupState::Owned => provider is Planned || provider is Uploading
            || provider is Uploaded,
        StagedCleanupState::DeletePending => provider is Planned || provider is Uploading
            || provider is Uploaded || provider is AbortPending,
        StagedCleanupState::Deleted => provider is Aborted,
        StagedCleanupState::Quarantined => provider is Ambiguous,
    }
}

/// Checks the provider and cleanup states of one staged object.
pub fn validate_staged_state_pair(
    provider: StagedProviderState,
    cleanup: StagedCleanupState,
) -> (result: Result<(), PublishRecordError>)
    ensures
        checked(result) == require(
            staged_state_pair(provider, cleanup),
            PublishRecordError::InvalidStagedStateCombination { provider, cleanup },
        ),
{
    let valid: bool = match (provider, cleanup) {
        (StagedProviderState::Planned, StagedCleanupState::Owned) => true,
        (StagedProviderState::Uploading, StagedCleanupState::Owned) => true,
        (StagedProviderState::Uploaded, StagedCleanupState::Owned) => true,
        (StagedProviderState::Planned, StagedCleanupState::DeletePending) => true,
        (StagedProviderState::Uploading, StagedCleanupState::DeletePending) => true,
        (StagedProviderState::Uploaded, StagedCleanupState::DeletePending) => true,
        (StagedProviderState::AbortPending, StagedCleanupState::DeletePending) => true,
        (StagedProviderState::Aborted, StagedCleanupState::Deleted) => true,
        (StagedProviderState::Ambiguous, StagedCleanupState::Quarantined) => true,
        _ => false,
    };
    if valid {
        Ok(())
    } else {
        Err(PublishRecordError::InvalidStagedStateCombination { provider, cleanup })
    }
}

/// A lower-case hexadecimal digit.
pub open spec fn is_hex_digit(byte: u8) -> bool {
    48 <= byte <= 57 || 97 <= byte <= 102
}

/// A string of lower-case hexadecimal digits.
pub open spec fn is_hex(b: Seq<u8>) -> bool {
    forall|i: int| 0 <= i < b.len() ==> is_hex_digit(#[trigger] b[i])
}

/// Value of one lower-case hexadecimal digit.
pub open spec fn hex_digit_value(byte: u8) -> int {
    if byte <= 57 {
        byte - 48
    } else {
        byte - 87
    }
}

/// Number that a string of lower-case hexadecimal digits denotes.
pub open spec fn hex_value(b: Seq<u8>) -> int
    decreases b.len(),
{
    if b.len() == 0 {
        0
    } else {
        hex_value(b.drop_last()) * 16 + hex_digit_value(b.last())
    }
}

/// Lower-case hexadecimal digits of a byte string.
pub open spec fn hex_text(b: Seq<u8>) -> Seq<u8>
    decreases b.len(),
{
    if b.len() == 0 {
        Seq::empty()
    } else {
        hex_text(b.drop_last()) + text::hex_pair(b.last())
    }
}

/// Whether `width` bytes from `from` on are lower-case hexadecimal digits.
pub fn is_lower_hex(b: &[u8], from: usize, width: usize) -> (hex: bool)
    requires
        from + width <= b@.len(),
    ensures
        hex == is_hex(b@.subrange(from as int, from + width)),
{
    let ghost part = b@.subrange(from as int, from + width);
    let total: usize = b.len();
    let mut i: usize = 0;
    while i < width
        invariant
            i <= width,
            from + width <= b@.len(),
            total == b@.len(),
            part == b@.subrange(from as int, from + width),
            forall|j: int| 0 <= j < i ==> is_hex_digit(#[trigger] part[j]),
        decreases width - i,
    {
        let byte: u8 = b[from + i];
        assert(part[i as int] == byte);
        if !((48 <= byte && byte <= 57) || (97 <= byte && byte <= 102)) {
            return false;
        }
        i = i + 1;
    }
    true
}

/// Lower-case hexadecimal digits of a byte string.
pub fn lower_hex(b: &[u8]) -> (digits: Vec<u8>)
    ensures
        digits@ == hex_text(b@),
{
    let mut digits: Vec<u8> = Vec::new();
    let mut i: usize = 0;
    assert(b@.take(0) =~= Seq::<u8>::empty());
    while i < b.len()
        invariant
            i <= b@.len(),
            digits@ == hex_text(b@.take(i as int)),
        decreases b@.len() - i,
    {
        let high: u8 = b[i] / 16;
        let low: u8 = b[i] % 16;
        let ghost before = digits@;
        digits.push(if high < 10 { 48 + high } else { 87 + high });
        digits.push(if low < 10 { 48 + low } else { 87 + low });
        assert(digits@ =~= before + text::hex_pair(b@[i as int]));
        assert(b@.take(i + 1).drop_last() =~= b@.take(i as int));
        i = i + 1;
    }
    assert(b@.take(b@.len() as int) =~= b@);
    digits
}

/// The value of a hexadecimal string is below sixteen to its length.
pub proof fn hex_value_bounded(b: Seq<u8>)
    requires
        is_hex(b),
        b.len() <= 16,
    ensures
        0 <= hex_value(b) < vstd::arithmetic::power::pow(16, b.len()),
    decreases b.len(),
{
    reveal(vstd::arithmetic::power::pow);
    if b.len() > 0 {
        let init = b.drop_last();
        assert(is_hex(init)) by {
            assert forall|i: int| 0 <= i < init.len() implies is_hex_digit(#[trigger] init[i]) by {
                assert(init[i] == b[i]);
            }
        }
        hex_value_bounded(init);
        assert(is_hex_digit(b[b.len() - 1]));
        let p = vstd::arithmetic::power::pow(16, init.len());
        assert(vstd::arithmetic::power::pow(16, b.len()) == 16 * p);
    }
}

/// Number that sixteen hexadecimal digits from `from` on denote.
pub fn hex_u64(b: &[u8], from: usize) -> (value: u64)
    requires
        from + 16 <= b@.len(),
        is_hex(b@.subrange(from as int, from + 16)),
    ensures
        value == hex_value(b@.subrange(from as int, from + 16)),
{
    let ghost part = b@.subrange(from as int, from + 16);
    let total: usize = b.len();
    let mut value: u64 = 0;
    let mut i: usize = 0;
    assert(part.take(0) =~= Seq::<u8>::empty());
    while i < 16
        invariant
            i <= 16,
            total == b@.len(),
            from + 16 <= b@.len(),
            part == b@.subrange(from as int, from + 16),
            is_hex(part),
            value == hex_value(part.take(i as int)),
        decreases 16 - i,
    {
        let byte: u8 = b[from + i];
        assert(part[i as int] == byte);
        assert(part.take(i + 1).drop_last() =~= part.take(i as int));
        proof {
            let next = part.take(i + 1);
            assert forall|j: int| 0 <= j < next.len() implies is_hex_digit(#[trigger] next[j]) by {
                assert(next[j] == part[j]);
            }
            hex_value_bounded(next);
            vstd::arithmetic::power::lemma_pow_increases(16, (i + 1) as nat, 16);
            assert(vstd::arithmetic::power::pow(16, 16) == 0x1_0000_0000_0000_0000) by {
                reveal_with_fuel(vstd::arithmetic::power::pow, 17);
            }
        }
        let digit: u64 = if byte <= 57 {
            (byte - 48) as u64
        } else {
            (byte - 87) as u64
        };
        value = value * 16 + digit;
        i = i + 1;
    }
    assert(part.take(16) =~= part);
    value
}

/// Bytes of the fixed head of every artifact object key.
pub open spec fn object_key_head() -> Seq<u8> {
    seq![110u8, 111, 107, 118, 47, 97, 114, 116, 105, 102, 97, 99, 116, 115, 47]
}

/// Bytes of the fixed component before the object index.
pub open spec fn object_key_blocks() -> Seq<u8> {
    seq![47u8, 98, 108, 111, 99, 107, 115, 47]
}

/// The shape of an object key behind its head: shard, root, and revision of
/// thirty-two digits each, `blocks`, and an index of sixteen digits.
pub open spec fn object_key_components(key: Seq<u8>) -> bool {
    &&& is_hex(key.subrange(15, 47))
    &&& key[47] == 47
    &&& is_hex(key.subrange(48, 80))
    &&& key[80] == 47
    &&& is_hex(key.subrange(81, 113))
    &&& key.subrange(113, 121) == object_key_blocks()
    &&& is_hex(key.subrange(121, 137))
}

/// The object index in an artifact object key of the given revision, or why
/// the key is none.
pub open spec fn object_key_index(key: Seq<u8>, revision: Seq<u8>) -> Result<int, PublishFailure> {
    if key.len() != OBJECT_KEY_BYTES {
        Err(
            PublishRecordError::InvalidObjectKey {
                reason: "artifact object key has the wrong byte length",
            },
        )
    } else if key.take(15) != object_key_head() {
        Err(
            PublishRecordError::InvalidObjectKey {
                reason: "artifact object key must start with nokv/artifacts/",
            },
        )
    } else if !object_key_components(key) {
        Err(
            PublishRecordError::InvalidObjectKey {
                reason: "artifact object key components are malformed",
            },
        )
    } else if key.subrange(81, 113) != hex_text(revision) {
        Err(PublishRecordError::ObjectKeyRevisionMismatch)
    } else {
        Ok(hex_value(key.subrange(121, 137)))
    }
}

/// Whether the bytes from `from` on are exactly `expected`.
fn part_is(b: &[u8], from: usize, expected: &[u8]) -> (found: bool)
    requires
        from + expected@.len() <= b@.len(),
    ensures
        found == (b@.subrange(from as int, from + expected@.len()) == expected@),
{
    let total: usize = b.len();
    bytes::bytes_equal(vstd::slice::slice_subrange(b, from, from + expected.len()), expected)
}

/// Checks an artifact object key and gives its object index.
pub fn validate_object_key(object_key: &str, expected_revision: ArtifactRevisionId) -> (result:
    Result<u64, PublishRecordError>)
    ensures
        match result {
            Ok(index) => object_key_index(bytes::utf8(object_key@), expected_revision@) == Ok::<
                int,
                PublishFailure,
            >(index as int),
            Err(e) => object_key_index(bytes::utf8(object_key@), expected_revision@) == Err::<
                int,
                PublishFailure,
            >(e.model()),
        },
{
    let key = object_key.as_bytes();
    if key.len() != OBJECT_KEY_BYTES {
        return Err(
            PublishRecordError::InvalidObjectKey {
                reason: "artifact object key has the wrong byte length",
            },
        );
    }
    let head: [u8; 15] = [110, 111, 107, 118, 47, 97, 114, 116, 105, 102, 97, 99, 116, 115, 47];
    let blocks: [u8; 8] = [47, 98, 108, 111, 99, 107, 115, 47];
    assert(head@ =~= object_key_head());
    assert(blocks@ =~= object_key_blocks());
    assert(key@.take(15) =~= key@.subrange(0, 15));
    if !part_is(key, 0, head.as_slice()) {
        return Err(
            PublishRecordError::InvalidObjectKey {
                reason: "artifact object key must start with nokv/artifacts/",
            },
        );
    }
    let well_formed: bool = is_lower_hex(key, 15, 32) && key[47] == 47 && is_lower_hex(key, 48, 32)
        && key[80] == 47 && is_lower_hex(key, 81, 32) && part_is(key, 113, blocks.as_slice())
        && is_lower_hex(key, 121, 16);
    if !well_formed {
        return Err(
            PublishRecordError::InvalidObjectKey {
                reason: "artifact object key components are malformed",
            },
        );
    }
    let revision = lower_hex(expected_revision.as_bytes().as_slice());
    let named = vstd::slice::slice_subrange(key, 81, 113);
    if !bytes::bytes_equal(named, revision.as_slice()) {
        return Err(PublishRecordError::ObjectKeyRevisionMismatch);
    }
    Ok(hex_u64(key, 121))
}

} // verus!
