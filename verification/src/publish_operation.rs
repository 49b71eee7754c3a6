//! Validation and state machine of publish operations, and validation of the
//! rows they own.

use vstd::prelude::*;
use vstd::utf8::*;

use crate::publish_records::{
    ArtifactManifestRow, PublishFailure, PublishOperationRecord, PublishRecordError, PublishResult,
    PublishTerminalError, PublishTransition, StagedObjectRecord, MAX_APPEND_SEGMENTS,
    MAX_DIGEST_URI_BYTES, MAX_MANIFEST_ROWS, MAX_MULTIPART_ID_BYTES, MAX_STAGED_OBJECTS,
    MAX_TERMINAL_ERROR_BYTES,
};
use crate::publish_validate;
use crate::publish_validate::{
    ArtifactManifestRowView, PublishClosureView, PublishIdentityView, PublishOperationRecordView,
    PublishResultView, PublishTerminalErrorView, PublishTransitionView, StagedObjectRecordView,
};
use crate::states::PublishPhase;

verus! {

impl PublishResultView {
    /// A result names a non-zero workspace revision and a digest URI.
    pub open spec fn check(self) -> Result<(), PublishFailure> {
        publish_validate::and_also(
            publish_validate::require(
                self.workspace_revision != 0,
                PublishRecordError::ZeroScalar { field: "result.workspace_revision" },
            ),
            publish_validate::visible_ascii_check(
                "result.body_digest_uri",
                self.body_digest_uri,
                MAX_DIGEST_URI_BYTES,
            ),
        )
    }
}

impl PublishTerminalErrorView {
    /// A terminal error has a bounded message.
    pub open spec fn check(self) -> Result<(), PublishFailure> {
        publish_validate::text_check(
            "terminal_error.message",
            self.message,
            MAX_TERMINAL_ERROR_BYTES,
        )
    }
}

/// Checks a publish result.
pub fn validate_publish_result(result: &PublishResult) -> (checked: Result<(), PublishRecordError>)
    ensures
        publish_validate::checked(checked) == result@.check(),
{
    if result.workspace_revision.get() == 0 {
        return Err(PublishRecordError::ZeroScalar { field: "result.workspace_revision" });
    }
    publish_validate::validate_digest_uri(
        "result.body_digest_uri",
        result.body_digest_uri.as_str(),
    )
}

/// Checks a terminal error.
pub fn validate_terminal_error(error: &PublishTerminalError) -> (checked: Result<
    (),
    PublishRecordError,
>)
    ensures
        publish_validate::checked(checked) == error@.check(),
{
    publish_validate::validate_text(
        "terminal_error.message",
        error.message.as_str(),
        MAX_TERMINAL_ERROR_BYTES,
    )
}

impl Clone for PublishResult {
    fn clone(&self) -> (copy: Self)
        ensures
            copy@ == self@,
    {
        Self {
            path_generation: self.path_generation,
            workspace_revision: self.workspace_revision,
            logical_size: self.logical_size,
            body_digest_uri: self.body_digest_uri.clone(),
        }
    }
}

impl Clone for PublishTerminalError {
    fn clone(&self) -> (copy: Self)
        ensures
            copy@ == self@,
    {
        Self {
            kind: self.kind,
            message: self.message.clone(),
            evidence_digest: self.evidence_digest,
        }
    }
}

impl Clone for PublishTransition {
    fn clone(&self) -> (copy: Self)
        ensures
            copy@ == self@,
    {
        match self {
            Self::BeginFinalization => Self::BeginFinalization,
            Self::Publish { result } => Self::Publish { result: result.clone() },
            Self::BeginAbort { terminal_error } => Self::BeginAbort {
                terminal_error: terminal_error.clone(),
            },
            Self::BeginCleaning => Self::BeginCleaning,
            Self::FinishCleanup => Self::FinishCleanup,
            Self::Quarantine { terminal_error } => Self::Quarantine {
                terminal_error: terminal_error.clone(),
            },
        }
    }
}

impl Clone for PublishOperationRecord {
    fn clone(&self) -> (copy: Self)
        ensures
            copy@ == self@,
    {
        Self {
            operation_id: self.operation_id,
            identity_digest: self.identity_digest,
            initialization_digest: self.initialization_digest,
            initiating_owner_epoch: self.initiating_owner_epoch,
            activity_deadline_ms: self.activity_deadline_ms,
            authority: self.authority,
            workbench_id: self.workbench_id.clone(),
            workspace_incarnation_id: self.workspace_incarnation_id,
            path: self.path.clone(),
            artifact_revision_id: self.artifact_revision_id,
            claim: self.claim,
            phase: self.phase,
            staged_object_count: self.staged_object_count,
            staged_object_seal: self.staged_object_seal,
            staged_object_cursor: self.staged_object_cursor,
            staged_object_rolling_digest: self.staged_object_rolling_digest,
            uploaded_object_cursor: self.uploaded_object_cursor,
            uploaded_object_rolling_digest: self.uploaded_object_rolling_digest,
            manifest_row_count: self.manifest_row_count,
            manifest_seal: self.manifest_seal,
            manifest_cursor: self.manifest_cursor,
            manifest_rolling_digest: self.manifest_rolling_digest,
            manifest_last_position: self.manifest_last_position,
            dependency_count: self.dependency_count,
            dependency_depth: self.dependency_depth,
            dependency_digest: self.dependency_digest,
            cleanup_staged_object_cursor: self.cleanup_staged_object_cursor,
            cleanup_manifest_cursor: self.cleanup_manifest_cursor,
            publication_absence_proof: self.publication_absence_proof,
            result: match &self.result {
                None => None,
                Some(result) => Some(result.clone()),
            },
            terminal_error: match &self.terminal_error {
                None => None,
                Some(error) => Some(error.clone()),
            },
        }
    }
}

impl PublishOperationRecordView {
    /// Counts, cursors, and dependency shape are within their bounds.
    pub open spec fn bounds_check(self) -> Result<(), PublishFailure> {
        let ledger = self.ledger;
        let closure = self.closure;
        publish_validate::and_also(
            publish_validate::require(
                self.identity.activity_deadline_ms != 0,
                PublishRecordError::ZeroScalar { field: "activity_deadline_ms" },
            ),
            publish_validate::and_also(
                publish_validate::require(
                    ledger.staged_object_count <= MAX_STAGED_OBJECTS,
                    PublishRecordError::CountOutOfRange {
                        field: "staged_object_count",
                        value: ledger.staged_object_count as u64,
                        max: MAX_STAGED_OBJECTS as u64,
                    },
                ),
                publish_validate::and_also(
                    publish_validate::require(
                        ledger.manifest_row_count <= MAX_MANIFEST_ROWS,
                        PublishRecordError::CountOutOfRange {
                            field: "manifest_row_count",
                            value: ledger.manifest_row_count as u64,
                            max: MAX_MANIFEST_ROWS as u64,
                        },
                    ),
                    publish_validate::and_also(
                        publish_validate::require(
                            publish_validate::dependency_shape(
                                closure.dependency_count,
                                closure.dependency_depth,
                            ),
                            PublishRecordError::InvalidDependencyShape {
                                count: closure.dependency_count,
                                depth: closure.dependency_depth,
                            },
                        ),
                        self.cursors_check(),
                    ),
                ),
            ),
        )
    }

    /// No cursor passes the count that bounds it.
    pub open spec fn cursors_check(self) -> Result<(), PublishFailure> {
        let ledger = self.ledger;
        let closure = self.closure;
        publish_validate::and_also(
            publish_validate::cursor_check(
                "staged_object_cursor",
                ledger.staged_object_cursor,
                ledger.staged_object_count,
            ),
            publish_validate::and_also(
                publish_validate::cursor_check(
                    "uploaded_object_cursor",
                    ledger.uploaded_object_cursor,
                    ledger.staged_object_cursor,
                ),
                publish_validate::and_also(
                    publish_validate::cursor_check(
                        "manifest_cursor",
                        ledger.manifest_cursor,
                        ledger.manifest_row_count,
                    ),
                    publish_validate::and_also(
                        publish_validate::cursor_check(
                            "cleanup_staged_object_cursor",
                            closure.cleanup_staged_object_cursor,
                            ledger.staged_object_cursor,
                        ),
                        publish_validate::cursor_check(
                            "cleanup_manifest_cursor",
                            closure.cleanup_manifest_cursor,
                            ledger.manifest_cursor,
                        ),
                    ),
                ),
            ),
        )
    }

    /// Every rolling digest agrees with its cursor and seal, and the last
    /// manifest position is present exactly past cursor zero.
    pub open spec fn progress_check(self) -> Result<(), PublishFailure> {
        let ledger = self.ledger;
        publish_validate::and_also(
            publish_validate::progress_check(
                "staged_object",
                ledger.staged_object_count,
                ledger.staged_object_seal,
                ledger.staged_object_cursor,
                ledger.staged_object_rolling_digest,
            ),
            publish_validate::and_also(
                publish_validate::progress_check(
                    "uploaded_object",
                    ledger.staged_object_count,
                    ledger.staged_object_seal,
                    ledger.uploaded_object_cursor,
                    ledger.uploaded_object_rolling_digest,
                ),
                publish_validate::and_also(
                    publish_validate::progress_check(
                        "manifest",
                        ledger.manifest_row_count,
                        ledger.manifest_seal,
                        ledger.manifest_cursor,
                        ledger.manifest_rolling_digest,
                    ),
                    if ledger.manifest_cursor == 0 {
                        publish_validate::require(
                            ledger.manifest_last_position is None,
                            PublishRecordError::InvalidProgress {
                                field: "manifest_last_position",
                                reason: "must be absent at cursor zero",
                            },
                        )
                    } else {
                        publish_validate::require(
                            ledger.manifest_last_position is Some,
                            PublishRecordError::InvalidProgress {
                                field: "manifest_last_position",
                                reason: "must identify the final row at a non-zero cursor",
                            },
                        )
                    },
                ),
            ),
        )
    }

    /// A result and a terminal error are well formed where present.
    pub open spec fn outcome_check(self) -> Result<(), PublishFailure> {
        publish_validate::and_also(
            match self.closure.result {
                None => Ok(()),
                Some(result) => result.check(),
            },
            match self.closure.terminal_error {
                None => Ok(()),
                Some(error) => error.check(),
            },
        )
    }

    /// Every staged, uploaded, and manifest row is in place and sealed.
    pub open spec fn complete_closure(self) -> bool {
        let ledger = self.ledger;
        &&& ledger.staged_object_cursor == ledger.staged_object_count
        &&& ledger.staged_object_rolling_digest == ledger.staged_object_seal
        &&& ledger.uploaded_object_cursor == ledger.staged_object_count
        &&& ledger.uploaded_object_rolling_digest == ledger.staged_object_seal
        &&& ledger.manifest_cursor == ledger.manifest_row_count
        &&& ledger.manifest_rolling_digest == ledger.manifest_seal
    }

    /// Cleanup has removed nothing.
    pub open spec fn cleanup_untouched(self) -> bool {
        self.closure.cleanup_staged_object_cursor == 0 && self.closure.cleanup_manifest_cursor == 0
    }

    /// Cleanup has removed every durable staging row.
    pub open spec fn cleanup_complete(self) -> bool {
        self.closure.cleanup_staged_object_cursor == self.ledger.staged_object_cursor
            && self.closure.cleanup_manifest_cursor == self.ledger.manifest_cursor
    }

    /// A condition that the present phase puts on the payload.
    pub open spec fn phase_require(self, condition: bool, reason: &'static str) -> Result<
        (),
        PublishFailure,
    > {
        publish_validate::require(
            condition,
            PublishRecordError::InvalidPhasePayload { phase: self.identity.phase, reason },
        )
    }

    /// The payload agrees with the phase.
    pub open spec fn phase_check(self) -> Result<(), PublishFailure> {
        let closure = self.closure;
        match self.identity.phase {
            PublishPhase::Uploading => publish_validate::and_also(
                self.phase_require(
                    self.cleanup_untouched(),
                    "cleanup cursors must be zero before abort wins",
                ),
                publish_validate::and_also(
                    self.phase_require(
                        closure.publication_absence_proof is None,
                        "publication-absence proof is only retained on the abort branch",
                    ),
                    publish_validate::and_also(
                        self.phase_require(closure.result is None, "result is terminal-only"),
                        self.phase_require(
                            closure.terminal_error is None,
                            "terminal error is abort-branch-only",
                        ),
                    ),
                ),
            ),
            PublishPhase::Finalizing => publish_validate::and_also(
                self.phase_require(
                    self.complete_closure(),
                    "staged, uploaded, and manifest seals must be complete before finalization",
                ),
                publish_validate::and_also(
                    self.phase_require(
                        self.cleanup_untouched(),
                        "cleanup cursors must be zero during finalization",
                    ),
                    publish_validate::and_also(
                        self.phase_require(
                            closure.publication_absence_proof is None,
                            "publication-absence proof belongs to takeover",
                        ),
                        publish_validate::and_also(
                            self.phase_require(
                                closure.result is None,
                                "result is not published yet",
                            ),
                            self.phase_require(
                                closure.terminal_error is None,
                                "terminal error belongs to abort",
                            ),
                        ),
                    ),
                ),
            ),
            PublishPhase::Published => publish_validate::and_also(
                self.phase_require(
                    self.complete_closure(),
                    "published operation must retain the exact publication closure",
                ),
                publish_validate::and_also(
                    self.phase_require(
                        self.cleanup_untouched(),
                        "published operation cannot own cleanup cursors",
                    ),
                    publish_validate::and_also(
                        self.phase_require(
                            closure.publication_absence_proof is None,
                            "published operation cannot carry absence proof",
                        ),
                        publish_validate::and_also(
                            self.phase_require(
                                closure.result is Some,
                                "published result is required",
                            ),
                            self.phase_require(
                                closure.terminal_error is None,
                                "published operation cannot carry terminal error",
                            ),
                        ),
                    ),
                ),
            ),
            PublishPhase::Aborting => publish_validate::and_also(
                self.phase_require(
                    self.cleanup_untouched(),
                    "cleanup starts only after the Cleaning transition",
                ),
                publish_validate::and_also(
                    self.phase_require(closure.result is None, "abort cannot carry success result"),
                    self.phase_require(closure.terminal_error is Some, "abort reason is required"),
                ),
            ),
            PublishPhase::Cleaning => publish_validate::and_also(
                self.phase_require(closure.result is None, "cleanup cannot carry success result"),
                self.phase_require(
                    closure.terminal_error is Some,
                    "cleanup must retain the terminal error",
                ),
            ),
            PublishPhase::Cleaned => publish_validate::and_also(
                self.phase_require(
                    self.cleanup_complete(),
                    "cleaned operation must seal every durable staging row",
                ),
                publish_validate::and_also(
                    self.phase_require(
                        closure.result is None,
                        "cleaned operation cannot carry success result",
                    ),
                    self.phase_require(
                        closure.terminal_error is Some,
                        "cleaned operation must retain the terminal error",
                    ),
                ),
            ),
            PublishPhase::Quarantined => publish_validate::and_also(
                self.phase_require(
                    closure.result is None,
                    "quarantined operation cannot carry success result",
                ),
                publish_validate::and_also(
                    self.phase_require(
                        closure.terminal_error is Some,
                        "quarantined operation must retain the terminal error",
                    ),
                    self.phase_require(
                        closure.terminal_error matches Some(error) && error.evidence_digest is Some,
                        "quarantine requires reconciliation evidence",
                    ),
                ),
            ),
        }
    }

    /// Why this operation is not valid, if it is not.
    pub open spec fn check(self) -> Result<(), PublishFailure> {
        publish_validate::and_also(
            self.bounds_check(),
            publish_validate::and_also(
                self.progress_check(),
                publish_validate::and_also(self.outcome_check(), self.phase_check()),
            ),
        )
    }

    /// This operation in another phase.
    pub open spec fn with_phase(self, phase: PublishPhase) -> Self {
        PublishOperationRecordView {
            identity: PublishIdentityView { phase, ..self.identity },
            ..self
        }
    }

    /// This operation with a result.
    pub open spec fn with_result(self, result: PublishResultView) -> Self {
        PublishOperationRecordView {
            closure: PublishClosureView { result: Some(result), ..self.closure },
            ..self
        }
    }

    /// This operation with a terminal error.
    pub open spec fn with_terminal_error(self, error: PublishTerminalErrorView) -> Self {
        PublishOperationRecordView {
            closure: PublishClosureView { terminal_error: Some(error), ..self.closure },
            ..self
        }
    }

    /// This operation with a publication-absence proof.
    pub open spec fn with_absence_proof(self, proof: Seq<u8>) -> Self {
        PublishOperationRecordView {
            closure: PublishClosureView { publication_absence_proof: Some(proof), ..self.closure },
            ..self
        }
    }

    /// The next state, if it is valid.
    pub open spec fn settle(self) -> Result<Self, PublishFailure> {
        match self.check() {
            Err(e) => Err(e),
            Ok(()) => Ok(self),
        }
    }

    /// The next state when `transition` is requested from `expected`, without
    /// the final check on it; or why the transition is refused.
    pub open spec fn propose(self, expected: PublishPhase, transition: PublishTransitionView) -> Result<
        Self,
        PublishFailure,
    > {
        match (transition, expected) {
            (PublishTransitionView::BeginFinalization, PublishPhase::Uploading) =>
                if self.complete_closure() {
                Ok(self.with_phase(PublishPhase::Finalizing))
            } else {
                Err(
                    PublishRecordError::InvalidPhasePayload {
                        phase: expected,
                        reason:
                            "staged, uploaded, and manifest seals must be complete before finalization",
                    },
                )
            },
            (PublishTransitionView::Publish { result }, PublishPhase::Finalizing) =>
                match result.check() {
                Err(e) => Err(e),
                Ok(()) => Ok(self.with_phase(PublishPhase::Published).with_result(result)),
            },
            (PublishTransitionView::BeginAbort { terminal_error }, PublishPhase::Uploading) =>
                match terminal_error.check() {
                Err(e) => Err(e),
                Ok(()) => Ok(
                    self.with_phase(PublishPhase::Aborting).with_terminal_error(terminal_error),
                ),
            },
            (PublishTransitionView::BeginCleaning, PublishPhase::Aborting) => Ok(
                self.with_phase(PublishPhase::Cleaning),
            ),
            (PublishTransitionView::FinishCleanup, PublishPhase::Cleaning) =>
                if self.cleanup_complete() {
                Ok(self.with_phase(PublishPhase::Cleaned))
            } else {
                Err(
                    PublishRecordError::InvalidPhasePayload {
                        phase: expected,
                        reason: "all durable staging rows must be removed before Cleaned",
                    },
                )
            },
            (PublishTransitionView::Quarantine { terminal_error }, PublishPhase::Cleaning) =>
                match terminal_error.check() {
                Err(e) => Err(e),
                Ok(()) => if terminal_error.evidence_digest is None {
                    Err(
                        PublishRecordError::InvalidPhasePayload {
                            phase: PublishPhase::Quarantined,
                            reason: "quarantine requires reconciliation evidence",
                        },
                    )
                } else {
                    Ok(
                        self.with_phase(PublishPhase::Quarantined).with_terminal_error(
                            terminal_error,
                        ),
                    )
                },
            },
            (transition, _) => Err(
                PublishRecordError::InvalidPhaseTransition {
                    from: expected,
                    to: transition.target_phase(),
                },
            ),
        }
    }

    /// The state after one transition against an exact observed phase, or why
    /// the transition is refused.
    pub open spec fn step(self, expected: PublishPhase, transition: PublishTransitionView) -> Result<
        Self,
        PublishFailure,
    > {
        match self.check() {
            Err(e) => Err(e),
            Ok(()) => if self.identity.phase != expected {
                Err(PublishRecordError::PhaseMismatch { expected, actual: self.identity.phase })
            } else {
                match self.propose(expected, transition) {
                    Err(e) => Err(e),
                    Ok(next) => next.settle(),
                }
            },
        }
    }

    /// The state after the metadata service takes over a `Finalizing`
    /// operation, or why it may not.
    pub open spec fn taken_over(self, proof: Seq<u8>, error: PublishTerminalErrorView) -> Result<
        Self,
        PublishFailure,
    > {
        match self.check() {
            Err(e) => Err(e),
            Ok(()) => if self.identity.phase != PublishPhase::Finalizing {
                Err(
                    PublishRecordError::PhaseMismatch {
                        expected: PublishPhase::Finalizing,
                        actual: self.identity.phase,
                    },
                )
            } else {
                match error.check() {
                    Err(e) => Err(e),
                    Ok(()) => self.with_phase(PublishPhase::Aborting).with_absence_proof(
                        proof,
                    ).with_terminal_error(error).settle(),
                }
            },
        }
    }
}

impl PublishTransitionView {
    /// The phase that this transition leads to.
    pub open spec fn target_phase(self) -> PublishPhase {
        match self {
            Self::BeginFinalization => PublishPhase::Finalizing,
            Self::Publish { .. } => PublishPhase::Published,
            Self::BeginAbort { .. } => PublishPhase::Aborting,
            Self::BeginCleaning => PublishPhase::Cleaning,
            Self::FinishCleanup => PublishPhase::Cleaned,
            Self::Quarantine { .. } => PublishPhase::Quarantined,
        }
    }
}

impl PublishTransition {
    /// The phase that this transition leads to.
    pub fn target_phase(&self) -> (phase: PublishPhase)
        ensures
            phase == self@.target_phase(),
    {
        match self {
            Self::BeginFinalization => PublishPhase::Finalizing,
            Self::Publish { .. } => PublishPhase::Published,
            Self::BeginAbort { .. } => PublishPhase::Aborting,
            Self::BeginCleaning => PublishPhase::Cleaning,
            Self::FinishCleanup => PublishPhase::Cleaned,
            Self::Quarantine { .. } => PublishPhase::Quarantined,
        }
    }
}

impl PublishOperationRecord {
    /// Checks counts, cursors, and dependency shape.
    fn validate_bounds(&self) -> (result: Result<(), PublishRecordError>)
        ensures
            publish_validate::checked(result) == self@.bounds_check(),
    {
        if self.activity_deadline_ms == 0 {
            return Err(PublishRecordError::ZeroScalar { field: "activity_deadline_ms" });
        }
        if self.staged_object_count > MAX_STAGED_OBJECTS {
            return Err(
                PublishRecordError::CountOutOfRange {
                    field: "staged_object_count",
                    value: self.staged_object_count as u64,
                    max: MAX_STAGED_OBJECTS as u64,
                },
            );
        }
        if self.manifest_row_count > MAX_MANIFEST_ROWS {
            return Err(
                PublishRecordError::CountOutOfRange {
                    field: "manifest_row_count",
                    value: self.manifest_row_count as u64,
                    max: MAX_MANIFEST_ROWS as u64,
                },
            );
        }
        publish_validate::validate_dependency_shape(self.dependency_count, self.dependency_depth)?;
        publish_validate::require_cursor(
            "staged_object_cursor",
            self.staged_object_cursor,
            self.staged_object_count,
        )?;
        publish_validate::require_cursor(
            "uploaded_object_cursor",
            self.uploaded_object_cursor,
            self.staged_object_cursor,
        )?;
        publish_validate::require_cursor(
            "manifest_cursor",
            self.manifest_cursor,
            self.manifest_row_count,
        )?;
        publish_validate::require_cursor(
            "cleanup_staged_object_cursor",
            self.cleanup_staged_object_cursor,
            self.staged_object_cursor,
        )?;
        publish_validate::require_cursor(
            "cleanup_manifest_cursor",
            self.cleanup_manifest_cursor,
            self.manifest_cursor,
        )
    }

    /// Checks rolling digests and the last manifest position.
    fn validate_progress(&self) -> (result: Result<(), PublishRecordError>)
        ensures
            publish_validate::checked(result) == self@.progress_check(),
    {
        publish_validate::validate_progress_digest(
            "staged_object",
            self.staged_object_count,
            &self.staged_object_seal,
            self.staged_object_cursor,
            &self.staged_object_rolling_digest,
        )?;
        publish_validate::validate_progress_digest(
            "uploaded_object",
            self.staged_object_count,
            &self.staged_object_seal,
            self.uploaded_object_cursor,
            &self.uploaded_object_rolling_digest,
        )?;
        publish_validate::validate_progress_digest(
            "manifest",
            self.manifest_row_count,
            &self.manifest_seal,
            self.manifest_cursor,
            &self.manifest_rolling_digest,
        )?;
        if self.manifest_cursor == 0 && self.manifest_last_position.is_some() {
            return Err(
                PublishRecordError::InvalidProgress {
                    field: "manifest_last_position",
                    reason: "must be absent at cursor zero",
                },
            );
        }
        if self.manifest_cursor != 0 && self.manifest_last_position.is_none() {
            return Err(
                PublishRecordError::InvalidProgress {
                    field: "manifest_last_position",
                    reason: "must identify the final row at a non-zero cursor",
                },
            );
        }
        Ok(())
    }

    /// Checks the result and the terminal error.
    fn validate_outcome(&self) -> (result: Result<(), PublishRecordError>)
        ensures
            publish_validate::checked(result) == self@.outcome_check(),
    {
        if let Some(result) = &self.result {
            validate_publish_result(result)?;
        }
        if let Some(error) = &self.terminal_error {
            validate_terminal_error(error)?;
        }
        Ok(())
    }

    /// Checks one condition that the present phase puts on the payload.
    fn require_phase(&self, condition: bool, reason: &'static str) -> (result: Result<
        (),
        PublishRecordError,
    >)
        ensures
            publish_validate::checked(result) == self@.phase_require(condition, reason),
    {
        if condition {
            Ok(())
        } else {
            Err(PublishRecordError::InvalidPhasePayload { phase: self.phase, reason })
        }
    }

    /// Checks that the payload agrees with the phase.
    fn validate_phase(&self) -> (result: Result<(), PublishRecordError>)
        ensures
            publish_validate::checked(result) == self@.phase_check(),
    {
        let untouched: bool = self.cleanup_staged_object_cursor == 0 && self.cleanup_manifest_cursor
            == 0;
        match self.phase {
            PublishPhase::Uploading => {
                self.require_phase(untouched, "cleanup cursors must be zero before abort wins")?;
                self.require_phase(
                    self.publication_absence_proof.is_none(),
                    "publication-absence proof is only retained on the abort branch",
                )?;
                self.require_phase(self.result.is_none(), "result is terminal-only")?;
                self.require_phase(
                    self.terminal_error.is_none(),
                    "terminal error is abort-branch-only",
                )
            },
            PublishPhase::Finalizing => {
                self.require_phase(
                    self.has_complete_publication_closure(),
                    "staged, uploaded, and manifest seals must be complete before finalization",
                )?;
                self.require_phase(untouched, "cleanup cursors must be zero during finalization")?;
                self.require_phase(
                    self.publication_absence_proof.is_none(),
                    "publication-absence proof belongs to takeover",
                )?;
                self.require_phase(self.result.is_none(), "result is not published yet")?;
                self.require_phase(
                    self.terminal_error.is_none(),
                    "terminal error belongs to abort",
                )
            },
            PublishPhase::Published => {
                self.require_phase(
                    self.has_complete_publication_closure(),
                    "published operation must retain the exact publication closure",
                )?;
                self.require_phase(untouched, "published operation cannot own cleanup cursors")?;
                self.require_phase(
                    self.publication_absence_proof.is_none(),
                    "published operation cannot carry absence proof",
                )?;
                self.require_phase(self.result.is_some(), "published result is required")?;
                self.require_phase(
                    self.terminal_error.is_none(),
                    "published operation cannot carry terminal error",
                )
            },
            PublishPhase::Aborting => {
                self.require_phase(untouched, "cleanup starts only after the Cleaning transition")?;
                self.require_phase(self.result.is_none(), "abort cannot carry success result")?;
                self.require_phase(self.terminal_error.is_some(), "abort reason is required")
            },
            PublishPhase::Cleaning => {
                self.require_phase(self.result.is_none(), "cleanup cannot carry success result")?;
                self.require_phase(
                    self.terminal_error.is_some(),
                    "cleanup must retain the terminal error",
                )
            },
            PublishPhase::Cleaned => {
                self.require_phase(
                    self.cleanup_staged_object_cursor == self.staged_object_cursor
                        && self.cleanup_manifest_cursor == self.manifest_cursor,
                    "cleaned operation must seal every durable staging row",
                )?;
                self.require_phase(
                    self.result.is_none(),
                    "cleaned operation cannot carry success result",
                )?;
                self.require_phase(
                    self.terminal_error.is_some(),
                    "cleaned operation must retain the terminal error",
                )
            },
            PublishPhase::Quarantined => {
                self.require_phase(
                    self.result.is_none(),
                    "quarantined operation cannot carry success result",
                )?;
                self.require_phase(
                    self.terminal_error.is_some(),
                    "quarantined operation must retain the terminal error",
                )?;
                let evidence: bool = match &self.terminal_error {
                    None => false,
                    Some(error) => error.evidence_digest.is_some(),
                };
                self.require_phase(evidence, "quarantine requires reconciliation evidence")
            },
        }
    }

    /// Checks every invariant of a publish operation.
    pub fn validate(&self) -> (result: Result<(), PublishRecordError>)
        ensures
            publish_validate::checked(result) == self@.check(),
    {
        self.validate_bounds()?;
        self.validate_progress()?;
        self.validate_outcome()?;
        self.validate_phase()
    }

    /// Whether every staged, uploaded, and manifest row is in place and sealed.
    pub fn has_complete_publication_closure(&self) -> (complete: bool)
        ensures
            complete == self@.complete_closure(),
    {
        self.staged_object_cursor == self.staged_object_count && publish_validate::same_digest(
            &self.staged_object_rolling_digest,
            &self.staged_object_seal,
        ) && self.uploaded_object_cursor == self.staged_object_count
            && publish_validate::same_digest(
            &self.uploaded_object_rolling_digest,
            &self.staged_object_seal,
        ) && self.manifest_cursor == self.manifest_row_count && publish_validate::same_digest(
            &self.manifest_rolling_digest,
            &self.manifest_seal,
        )
    }

    /// The next state when `transition` is requested from `expected_phase`,
    /// without the final check on it.
    fn propose_transition(
        &self,
        expected_phase: PublishPhase,
        transition: PublishTransition,
    ) -> (result: Result<Self, PublishRecordError>)
        ensures
            match result {
                Ok(next) => self@.propose(expected_phase, transition@) == Ok::<
                    PublishOperationRecordView,
                    PublishFailure,
                >(next@),
                Err(e) => self@.propose(expected_phase, transition@) == Err::<
                    PublishOperationRecordView,
                    PublishFailure,
                >(e.model()),
            },
    {
        let mut next = self.clone();
        match (transition, expected_phase) {
            (PublishTransition::BeginFinalization, PublishPhase::Uploading) => {
                if !next.has_complete_publication_closure() {
                    return Err(
                        PublishRecordError::InvalidPhasePayload {
                            phase: expected_phase,
                            reason:
                                "staged, uploaded, and manifest seals must be complete before finalization",
                        },
                    );
                }
                next.phase = PublishPhase::Finalizing;
            },
            (PublishTransition::Publish { result }, PublishPhase::Finalizing) => {
                validate_publish_result(&result)?;
                next.phase = PublishPhase::Published;
                next.result = Some(result);
            },
            (PublishTransition::BeginAbort { terminal_error }, PublishPhase::Uploading) => {
                validate_terminal_error(&terminal_error)?;
                next.phase = PublishPhase::Aborting;
                next.terminal_error = Some(terminal_error);
            },
            (PublishTransition::BeginCleaning, PublishPhase::Aborting) => {
                next.phase = PublishPhase::Cleaning;
            },
            (PublishTransition::FinishCleanup, PublishPhase::Cleaning) => {
                if next.cleanup_staged_object_cursor != next.staged_object_cursor
                    || next.cleanup_manifest_cursor != next.manifest_cursor {
                    return Err(
                        PublishRecordError::InvalidPhasePayload {
                            phase: expected_phase,
                            reason: "all durable staging rows must be removed before Cleaned",
                        },
                    );
                }
                next.phase = PublishPhase::Cleaned;
            },
            (PublishTransition::Quarantine { terminal_error }, PublishPhase::Cleaning) => {
                validate_terminal_error(&terminal_error)?;
                if terminal_error.evidence_digest.is_none() {
                    return Err(
                        PublishRecordError::InvalidPhasePayload {
                            phase: PublishPhase::Quarantined,
                            reason: "quarantine requires reconciliation evidence",
                        },
                    );
                }
                next.phase = PublishPhase::Quarantined;
                next.terminal_error = Some(terminal_error);
            },
            (transition, _) => {
                return Err(
                    PublishRecordError::InvalidPhaseTransition {
                        from: expected_phase,
                        to: transition.target_phase(),
                    },
                );
            },
        }
        Ok(next)
    }

    /// Applies one legal transition against an exact observed phase.
    ///
    /// Callers persist the new state by comparing the complete enclosing
    /// current value. Thus two callers observing `Uploading` cannot both win
    /// `BeginFinalization` and `BeginAbort`. A refused transition changes
    /// nothing.
    pub fn apply_transition(
        &mut self,
        expected_phase: PublishPhase,
        transition: PublishTransition,
    ) -> (result: Result<(), PublishRecordError>)
        ensures
            match old(self)@.step(expected_phase, transition@) {
                Ok(next) => result is Ok && final(self)@ == next,
                Err(e) => publish_validate::checked(result) == Err::<(), PublishFailure>(e)
                    && *final(self) == *old(self),
            },
    {
        self.validate()?;
        if self.phase != expected_phase {
            return Err(
                PublishRecordError::PhaseMismatch { expected: expected_phase, actual: self.phase },
            );
        }
        let next = self.propose_transition(expected_phase, transition)?;
        next.validate()?;
        *self = next;
        Ok(())
    }

    /// Applies the metadata-service-owned edge from `Finalizing` to
    /// `Aborting`. The caller derives the proof from the exact `Finalizing`
    /// payload that the same metadata command compares.
    pub fn take_over_finalization(
        &mut self,
        publication_absence_proof: [u8; 32],
        terminal_error: PublishTerminalError,
    ) -> (result: Result<(), PublishRecordError>)
        ensures
            match old(self)@.taken_over(publication_absence_proof@, terminal_error@) {
                Ok(next) => result is Ok && final(self)@ == next,
                Err(e) => publish_validate::checked(result) == Err::<(), PublishFailure>(e)
                    && *final(self) == *old(self),
            },
    {
        self.validate()?;
        if self.phase != PublishPhase::Finalizing {
            return Err(
                PublishRecordError::PhaseMismatch {
                    expected: PublishPhase::Finalizing,
                    actual: self.phase,
                },
            );
        }
        validate_terminal_error(&terminal_error)?;
        let mut next = self.clone();
        next.phase = PublishPhase::Aborting;
        next.publication_absence_proof = Some(publication_absence_proof);
        next.terminal_error = Some(terminal_error);
        next.validate()?;
        *self = next;
        Ok(())
    }
}

impl StagedObjectRecordView {
    /// Why this staged object is not valid, if it is not.
    pub open spec fn check(self) -> Result<(), PublishFailure> {
        if self.object_sequence >= MAX_STAGED_OBJECTS {
            Err(
                PublishRecordError::CountOutOfRange {
                    field: "object_sequence",
                    value: self.object_sequence as u64,
                    max: (MAX_STAGED_OBJECTS - 1) as u64,
                },
            )
        } else {
            match publish_validate::object_key_index(self.object_key, self.artifact_revision_id) {
                Err(e) => Err(e),
                Ok(_) => publish_validate::and_also(
                    match self.multipart_upload_id {
                        None => Ok(()),
                        Some(upload_id) => publish_validate::opaque_bytes_check(
                            "multipart_upload_id",
                            upload_id,
                            MAX_MULTIPART_ID_BYTES,
                        ),
                    },
                    publish_validate::and_also(
                        publish_validate::require(
                            self.expected_length != 0,
                            PublishRecordError::ZeroScalar { field: "expected_length" },
                        ),
                        publish_validate::and_also(
                            publish_validate::visible_ascii_check(
                                "expected_digest_uri",
                                self.expected_digest_uri,
                                MAX_DIGEST_URI_BYTES,
                            ),
                            publish_validate::require(
                                publish_validate::staged_state_pair(
                                    self.provider_state,
                                    self.cleanup_state,
                                ),
                                PublishRecordError::InvalidStagedStateCombination {
                                    provider: self.provider_state,
                                    cleanup: self.cleanup_state,
                                },
                            ),
                        ),
                    ),
                ),
            }
        }
    }
}

impl StagedObjectRecord {
    /// Checks every invariant of a staged object.
    pub fn validate(&self) -> (result: Result<(), PublishRecordError>)
        ensures
            publish_validate::checked(result) == self@.check(),
    {
        if self.object_sequence >= MAX_STAGED_OBJECTS {
            return Err(
                PublishRecordError::CountOutOfRange {
                    field: "object_sequence",
                    value: self.object_sequence as u64,
                    max: (MAX_STAGED_OBJECTS - 1) as u64,
                },
            );
        }
        let index: u64 = publish_validate::validate_object_key(
            self.object_key.as_str(),
            self.artifact_revision_id,
        )?;
        if let Some(upload_id) = &self.multipart_upload_id {
            publish_validate::validate_opaque_bytes(
                "multipart_upload_id",
                upload_id.as_slice(),
                MAX_MULTIPART_ID_BYTES,
            )?;
        }
        if self.expected_length == 0 {
            return Err(PublishRecordError::ZeroScalar { field: "expected_length" });
        }
        publish_validate::validate_digest_uri(
            "expected_digest_uri",
            self.expected_digest_uri.as_str(),
        )?;
        publish_validate::validate_staged_state_pair(self.provider_state, self.cleanup_state)
    }
}

impl ArtifactManifestRowView {
    /// A range of `length` bytes from `start` on stays within 64 bits.
    pub open spec fn range_check(self, field: &'static str, start: u64) -> Result<
        (),
        PublishFailure,
    > {
        publish_validate::require(
            start + self.length <= u64::MAX,
            PublishRecordError::RangeOverflow { field },
        )
    }

    /// Why this manifest row is not valid, if it is not.
    pub open spec fn check(self) -> Result<(), PublishFailure> {
        match publish_validate::object_key_index(self.object_key, self.physical_owner_revision_id) {
            Err(e) => Err(e),
            Ok(actual) => publish_validate::and_also(
                publish_validate::require(
                    actual == self.physical_object_index,
                    PublishRecordError::ObjectKeyIndexMismatch {
                        expected: self.physical_object_index,
                        actual: actual as u64,
                    },
                ),
                publish_validate::and_also(
                    publish_validate::require(
                        self.length != 0,
                        PublishRecordError::ZeroScalar { field: "length" },
                    ),
                    publish_validate::and_also(
                        self.range_check("logical range", self.logical_offset),
                        publish_validate::and_also(
                            self.range_check("object range", self.offset),
                            publish_validate::and_also(
                                publish_validate::visible_ascii_check(
                                    "digest_uri",
                                    self.digest_uri,
                                    MAX_DIGEST_URI_BYTES,
                                ),
                                self.segment_check(),
                            ),
                        ),
                    ),
                ),
            ),
        }
    }

    /// An append segment is numbered within its bound and stays within 64 bits.
    pub open spec fn segment_check(self) -> Result<(), PublishFailure> {
        match self.append_segment {
            None => Ok(()),
            Some(segment) => publish_validate::and_also(
                publish_validate::require(
                    segment.segment_sequence < MAX_APPEND_SEGMENTS,
                    PublishRecordError::CountOutOfRange {
                        field: "append segment_sequence",
                        value: segment.segment_sequence as u64,
                        max: (MAX_APPEND_SEGMENTS - 1) as u64,
                    },
                ),
                self.range_check("append segment range", segment.segment_offset),
            ),
        }
    }
}

impl ArtifactManifestRow {
    /// Checks every invariant of a manifest row.
    pub fn validate(&self) -> (result: Result<(), PublishRecordError>)
        ensures
            publish_validate::checked(result) == self@.check(),
    {
        let actual: u64 = publish_validate::validate_object_key(
            self.object_key.as_str(),
            self.physical_owner_revision_id,
        )?;
        if actual != self.physical_object_index {
            return Err(
                PublishRecordError::ObjectKeyIndexMismatch {
                    expected: self.physical_object_index,
                    actual,
                },
            );
        }
        if self.length == 0 {
            return Err(PublishRecordError::ZeroScalar { field: "length" });
        }
        if self.logical_offset.checked_add(self.length).is_none() {
            return Err(PublishRecordError::RangeOverflow { field: "logical range" });
        }
        if self.offset.checked_add(self.length).is_none() {
            return Err(PublishRecordError::RangeOverflow { field: "object range" });
        }
        publish_validate::validate_digest_uri("digest_uri", self.digest_uri.as_str())?;
        if let Some(segment) = &self.append_segment {
            if segment.segment_sequence >= MAX_APPEND_SEGMENTS {
                return Err(
                    PublishRecordError::CountOutOfRange {
                        field: "append segment_sequence",
                        value: segment.segment_sequence as u64,
                        max: (MAX_APPEND_SEGMENTS - 1) as u64,
                    },
                );
            }
            if segment.segment_offset.checked_add(self.length).is_none() {
                return Err(PublishRecordError::RangeOverflow { field: "append segment range" });
            }
        }
        Ok(())
    }
}

} // verus!
