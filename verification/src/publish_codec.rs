//! Durable bytes of publication records.

use vstd::prelude::*;
use vstd::utf8::*;

use crate::bytes;
use crate::ids::{ArtifactRevisionId, OperationId, WorkspaceIncarnationId};
use crate::names;
use crate::names::{NormalizedRelativePath, WorkbenchId};
use crate::positions::{Generation, OwnerEpoch, WorkspaceRevision};
use crate::publish_records::{
    AppendSegment, ArtifactManifestRow, ManifestPosition, PublishAuthority, PublishClaim,
    PublishFailure, PublishOperationRecord, PublishRecordError, PublishResult,
    PublishTerminalError, PublishTerminalErrorKind, StagedObjectRecord, MAX_DIGEST_URI_BYTES,
    MAX_MANIFEST_ROW_BYTES, MAX_MULTIPART_ID_BYTES, MAX_PUBLISH_OPERATION_RECORD_BYTES,
    MAX_STAGED_OBJECT_RECORD_BYTES, MAX_TERMINAL_ERROR_BYTES, OBJECT_KEY_BYTES,
    PUBLISH_VALUE_FORMAT_VERSION,
};
use crate::publish_validate;
use crate::publish_validate::{
    ArtifactManifestRowView, PublishAuthorityView, PublishClaimView, PublishClosureView,
    PublishIdentityView, PublishLedgerView, PublishOperationRecordView, PublishResultView,
    PublishTerminalErrorView, StagedObjectRecordView,
};
use crate::records;
use crate::states::{PublishPhase, StagedCleanupState, StagedProviderState};

verus! {

/// A value that was read off the front, and what is left.
pub type Parsed<V> = Result<(V, Seq<u8>), PublishFailure>;

/// Splits `width` bytes off the front, or reports what is missing.
#[verifier::opaque]
pub open spec fn take_field(b: Seq<u8>, field: &'static str, width: nat) -> Parsed<Seq<u8>> {
    if b.len() < width {
        Err(
            PublishRecordError::Truncated {
                field,
                needed: width as usize,
                remaining: b.len() as usize,
            },
        )
    } else {
        Ok((b.take(width as int), b.skip(width as int)))
    }
}

/// Reads one byte off the front.
pub open spec fn parse_u8(b: Seq<u8>, field: &'static str) -> Parsed<u8> {
    match take_field(b, field, 1) {
        Err(e) => Err(e),
        Ok((value, rest)) => Ok((value[0], rest)),
    }
}

/// Reads a 32-bit integer off the front.
pub open spec fn parse_u32(b: Seq<u8>, field: &'static str) -> Parsed<u32> {
    match take_field(b, field, 4) {
        Err(e) => Err(e),
        Ok((value, rest)) => Ok((bytes::from_be32(value), rest)),
    }
}

/// Reads a 64-bit integer off the front.
pub open spec fn parse_u64(b: Seq<u8>, field: &'static str) -> Parsed<u64> {
    match take_field(b, field, 8) {
        Err(e) => Err(e),
        Ok((value, rest)) => Ok((bytes::from_be64(value), rest)),
    }
}

/// Reads a non-zero 64-bit integer off the front.
pub open spec fn parse_position(b: Seq<u8>, field: &'static str) -> Parsed<u64> {
    match parse_u64(b, field) {
        Err(e) => Err(e),
        Ok((value, rest)) => if value == 0 {
            Err(PublishRecordError::ZeroScalar { field })
        } else {
            Ok((value, rest))
        },
    }
}

/// Reads a byte string of bounded length, preceded by that length.
pub open spec fn parse_bytes(b: Seq<u8>, field: &'static str, max: usize) -> Parsed<Seq<u8>> {
    match parse_u32(b, field) {
        Err(e) => Err(e),
        Ok((length, rest)) => if length > max {
            Err(PublishRecordError::FieldTooLong { field, length: length as usize, max })
        } else {
            take_field(rest, field, length as nat)
        },
    }
}

/// Reads a text of bounded length, preceded by that length.
pub open spec fn parse_text(b: Seq<u8>, field: &'static str, max: usize) -> Parsed<Seq<u8>> {
    match parse_bytes(b, field, max) {
        Err(e) => Err(e),
        Ok((value, rest)) => if valid_utf8(value) {
            Ok((value, rest))
        } else {
            Err(PublishRecordError::InvalidUtf8 { field })
        },
    }
}

/// Reads an optional byte string: a tag, then the string if there is one.
pub open spec fn parse_optional_bytes(b: Seq<u8>, field: &'static str, max: usize) -> Parsed<
    Option<Seq<u8>>,
> {
    match parse_u8(b, field) {
        Err(e) => Err(e),
        Ok((tag, rest)) => if tag == 0 {
            Ok((None, rest))
        } else if tag == 1 {
            match parse_bytes(rest, field, max) {
                Err(e) => Err(e),
                Ok((value, rest)) => Ok((Some(value), rest)),
            }
        } else {
            Err(PublishRecordError::InvalidOptionalTag { field, value: tag })
        },
    }
}

/// Reads an optional digest: a tag, then the digest if there is one.
pub open spec fn parse_optional_digest(b: Seq<u8>, field: &'static str) -> Parsed<
    Option<Seq<u8>>,
> {
    match parse_u8(b, field) {
        Err(e) => Err(e),
        Ok((tag, rest)) => if tag == 0 {
            Ok((None, rest))
        } else if tag == 1 {
            match take_field(rest, field, 32) {
                Err(e) => Err(e),
                Ok((value, rest)) => Ok((Some(value), rest)),
            }
        } else {
            Err(PublishRecordError::InvalidOptionalTag { field, value: tag })
        },
    }
}

/// Reads the format byte off the front.
pub open spec fn parse_format(b: Seq<u8>) -> Parsed<u8> {
    match parse_u8(b, "value_format_version") {
        Err(e) => Err(e),
        Ok((actual, rest)) => if actual == PUBLISH_VALUE_FORMAT_VERSION {
            Ok((actual, rest))
        } else {
            Err(
                PublishRecordError::UnsupportedValueVersion {
                    actual,
                    expected: PUBLISH_VALUE_FORMAT_VERSION,
                },
            )
        },
    }
}

/// Nothing may be left behind a record.
pub open spec fn end_check(rest: Seq<u8>) -> Result<(), PublishFailure> {
    if rest.len() == 0 {
        Ok(())
    } else {
        Err(PublishRecordError::TrailingBytes { count: rest.len() as usize })
    }
}

/// A record may not exceed its durable size.
pub open spec fn size_check(record: &'static str, length: nat, max: usize) -> Result<
    (),
    PublishFailure,
> {
    publish_validate::require(
        length <= max,
        PublishRecordError::RecordTooLarge { record, length: length as usize, max },
    )
}

/// Bytes of an optional digest.
pub open spec fn optional_digest(value: Option<Seq<u8>>) -> Seq<u8> {
    match value {
        None => seq![0u8],
        Some(digest) => seq![1u8] + digest,
    }
}

/// Bytes of an optional byte string.
pub open spec fn optional_bytes(value: Option<Seq<u8>>) -> Seq<u8> {
    match value {
        None => seq![0u8],
        Some(value) => seq![1u8] + records::length_prefixed(value),
    }
}

/// Bytes of an optional manifest position.
pub open spec fn optional_position(value: Option<u64>) -> Seq<u8> {
    match value {
        None => seq![0u8],
        Some(index) => seq![1u8] + bytes::be64(index),
    }
}

/// Reads an optional manifest position.
pub open spec fn parse_optional_position(b: Seq<u8>) -> Parsed<Option<u64>> {
    match parse_u8(b, "manifest_last_position.tag") {
        Err(e) => Err(e),
        Ok((tag, rest)) => if tag == 0 {
            Ok((None, rest))
        } else if tag == 1 {
            match parse_u64(rest, "manifest_last_position.object_index") {
                Err(e) => Err(e),
                Ok((index, rest)) => Ok((Some(index), rest)),
            }
        } else {
            Err(
                PublishRecordError::InvalidOptionalTag {
                    field: "manifest_last_position",
                    value: tag,
                },
            )
        },
    }
}

/// Reads an optional append segment.
pub open spec fn parse_append_segment(b: Seq<u8>) -> Parsed<Option<AppendSegment>> {
    match parse_u8(b, "append_segment tag") {
        Err(e) => Err(e),
        Ok((tag, rest)) => if tag == 0 {
            Ok((None, rest))
        } else if tag == 1 {
            match parse_u32(rest, "append segment_sequence") {
                Err(e) => Err(e),
                Ok((segment_sequence, rest)) => match parse_u64(rest, "append segment_offset") {
                    Err(e) => Err(e),
                    Ok((segment_offset, rest)) => Ok(
                        (Some(AppendSegment { segment_sequence, segment_offset }), rest),
                    ),
                },
            }
        } else {
            Err(PublishRecordError::InvalidOptionalTag { field: "append_segment", value: tag })
        },
    }
}

/// Bytes of an optional append segment.
pub open spec fn append_segment(value: Option<AppendSegment>) -> Seq<u8> {
    match value {
        None => seq![0u8],
        Some(segment) => seq![1u8] + bytes::be32(segment.segment_sequence) + bytes::be64(
            segment.segment_offset,
        ),
    }
}

impl PublishAuthorityView {
    /// Bytes of this authority.
    pub open spec fn encoding(self) -> Seq<u8> {
        match self {
            Self::Visible => seq![1u8],
            Self::RestoreStaging { restore_operation_id } => seq![2u8] + restore_operation_id,
            Self::CommitStaging { commit_operation_id } => seq![3u8] + commit_operation_id,
        }
    }

    /// An operation id has sixteen bytes.
    pub open spec fn sized(self) -> bool {
        match self {
            Self::Visible => true,
            Self::RestoreStaging { restore_operation_id } => restore_operation_id.len() == 16,
            Self::CommitStaging { commit_operation_id } => commit_operation_id.len() == 16,
        }
    }

    /// Reads an authority off the front.
    pub open spec fn parse(b: Seq<u8>) -> Parsed<Self> {
        match parse_u8(b, "authority") {
            Err(e) => Err(e),
            Ok((tag, rest)) => if tag == 1 {
                Ok((Self::Visible, rest))
            } else if tag == 2 {
                match take_field(rest, "authority.restore_operation_id", 16) {
                    Err(e) => Err(e),
                    Ok((restore_operation_id, rest)) => Ok(
                        (Self::RestoreStaging { restore_operation_id }, rest),
                    ),
                }
            } else if tag == 3 {
                match take_field(rest, "authority.commit_operation_id", 16) {
                    Err(e) => Err(e),
                    Ok((commit_operation_id, rest)) => Ok(
                        (Self::CommitStaging { commit_operation_id }, rest),
                    ),
                }
            } else {
                Err(
                    PublishRecordError::UnknownDiscriminant {
                        durable_type: "PublishAuthority",
                        value: tag,
                    },
                )
            },
        }
    }
}

impl PublishClaimView {
    /// Bytes of this claim.
    pub open spec fn encoding(self) -> Seq<u8> {
        match self {
            Self::CreateOnly => seq![1u8],
            Self::ReplaceOnly { expected_generation } => seq![2u8] + bytes::be64(
                expected_generation,
            ),
            Self::Append { expected_generation, base_revision_id, append_offset } => seq![3u8]
                + bytes::be64(expected_generation) + base_revision_id + bytes::be64(append_offset),
        }
    }

    /// Generations are non-zero and a revision id has sixteen bytes.
    pub open spec fn sized(self) -> bool {
        match self {
            Self::CreateOnly => true,
            Self::ReplaceOnly { expected_generation } => expected_generation != 0,
            Self::Append { expected_generation, base_revision_id, append_offset } =>
                expected_generation != 0 && base_revision_id.len() == 16,
        }
    }

    /// Reads a claim off the front.
    pub open spec fn parse(b: Seq<u8>) -> Parsed<Self> {
        match parse_u8(b, "claim") {
            Err(e) => Err(e),
            Ok((tag, rest)) => if tag == 1 {
                Ok((Self::CreateOnly, rest))
            } else if tag == 2 {
                match parse_position(rest, "claim.expected_generation") {
                    Err(e) => Err(e),
                    Ok((expected_generation, rest)) => Ok(
                        (Self::ReplaceOnly { expected_generation }, rest),
                    ),
                }
            } else if tag == 3 {
                match parse_position(rest, "claim.expected_generation") {
                    Err(e) => Err(e),
                    Ok((expected_generation, rest)) => match take_field(
                        rest,
                        "claim.base_revision_id",
                        16,
                    ) {
                        Err(e) => Err(e),
                        Ok((base_revision_id, rest)) => match parse_u64(
                            rest,
                            "claim.append_offset",
                        ) {
                            Err(e) => Err(e),
                            Ok((append_offset, rest)) => Ok(
                                (
                                    Self::Append {
                                        expected_generation,
                                        base_revision_id,
                                        append_offset,
                                    },
                                    rest,
                                ),
                            ),
                        },
                    },
                }
            } else {
                Err(
                    PublishRecordError::UnknownDiscriminant {
                        durable_type: "PublishClaim",
                        value: tag,
                    },
                )
            },
        }
    }
}

/// Bytes of an optional publish result.
pub open spec fn optional_result(value: Option<PublishResultView>) -> Seq<u8> {
    match value {
        None => seq![0u8],
        Some(result) => seq![1u8] + bytes::be64(result.path_generation) + bytes::be64(
            result.workspace_revision,
        ) + bytes::be64(result.logical_size) + records::length_prefixed(result.body_digest_uri),
    }
}

/// Reads an optional publish result.
pub open spec fn parse_optional_result(b: Seq<u8>) -> Parsed<Option<PublishResultView>> {
    match parse_u8(b, "result tag") {
        Err(e) => Err(e),
        Ok((tag, rest)) => if tag == 0 {
            Ok((None, rest))
        } else if tag == 1 {
            match parse_position(rest, "result.path_generation") {
                Err(e) => Err(e),
                Ok((path_generation, rest)) => match parse_u64(rest, "result.workspace_revision") {
                    Err(e) => Err(e),
                    Ok((workspace_revision, rest)) => match parse_u64(
                        rest,
                        "result.logical_size",
                    ) {
                        Err(e) => Err(e),
                        Ok((logical_size, rest)) => match parse_text(
                            rest,
                            "result.body_digest_uri",
                            MAX_DIGEST_URI_BYTES,
                        ) {
                            Err(e) => Err(e),
                            Ok((body_digest_uri, rest)) => Ok(
                                (
                                    Some(
                                        PublishResultView {
                                            path_generation,
                                            workspace_revision,
                                            logical_size,
                                            body_digest_uri,
                                        },
                                    ),
                                    rest,
                                ),
                            ),
                        },
                    },
                },
            }
        } else {
            Err(PublishRecordError::InvalidOptionalTag { field: "result", value: tag })
        },
    }
}

/// Bytes of an optional terminal error.
pub open spec fn optional_terminal_error(value: Option<PublishTerminalErrorView>) -> Seq<u8> {
    match value {
        None => seq![0u8],
        Some(error) => seq![1u8] + seq![error.kind.byte()] + records::length_prefixed(error.message)
            + optional_digest(error.evidence_digest),
    }
}

/// Reads an optional terminal error.
pub open spec fn parse_optional_terminal_error(b: Seq<u8>) -> Parsed<
    Option<PublishTerminalErrorView>,
> {
    match parse_u8(b, "terminal_error tag") {
        Err(e) => Err(e),
        Ok((tag, rest)) => if tag == 0 {
            Ok((None, rest))
        } else if tag == 1 {
            match parse_u8(rest, "terminal_error.kind") {
                Err(e) => Err(e),
                Ok((value, rest)) => match PublishTerminalErrorKind::of_byte(value) {
                    None => Err(
                        PublishRecordError::UnknownDiscriminant {
                            durable_type: "PublishTerminalErrorKind",
                            value,
                        },
                    ),
                    Some(kind) => match parse_text(
                        rest,
                        "terminal_error.message",
                        MAX_TERMINAL_ERROR_BYTES,
                    ) {
                        Err(e) => Err(e),
                        Ok((message, rest)) => match parse_optional_digest(
                            rest,
                            "terminal_error.evidence_digest",
                        ) {
                            Err(e) => Err(e),
                            Ok((evidence_digest, rest)) => Ok(
                                (
                                    Some(
                                        PublishTerminalErrorView {
                                            kind,
                                            message,
                                            evidence_digest,
                                        },
                                    ),
                                    rest,
                                ),
                            ),
                        },
                    },
                },
            }
        } else {
            Err(PublishRecordError::InvalidOptionalTag { field: "terminal_error", value: tag })
        },
    }
}

/// Reads a workbench id off the front.
pub open spec fn parse_workbench_id(b: Seq<u8>) -> Parsed<Seq<u8>> {
    match parse_text(b, "workbench_id", WorkbenchId::MAX_BYTES) {
        Err(e) => Err(e),
        Ok((value, rest)) => match names::workbench_id_check(value) {
            Err(e) => Err(PublishRecordError::InvalidWorkbenchId { reason: e.message_bytes() }),
            Ok(()) => Ok((value, rest)),
        },
    }
}

/// Reads a path off the front.
pub open spec fn parse_path(b: Seq<u8>) -> Parsed<Seq<u8>> {
    match parse_text(b, "path", NormalizedRelativePath::MAX_BYTES) {
        Err(e) => Err(e),
        Ok((value, rest)) => match names::path_check(value) {
            Err(e) => Err(PublishRecordError::InvalidPath { reason: e.message_bytes() }),
            Ok(()) => Ok((value, rest)),
        },
    }
}

/// Reads a [`PublishPhase`] off the front.
pub open spec fn parse_phase(b: Seq<u8>) -> Parsed<PublishPhase> {
    match parse_u8(b, "phase") {
        Err(e) => Err(e),
        Ok((value, rest)) => match PublishPhase::of_byte(value) {
            None => Err(
                PublishRecordError::UnknownDiscriminant {
                    durable_type: PublishPhase::durable_type(),
                    value,
                },
            ),
            Some(state) => Ok((state, rest)),
        },
    }
}

/// Reads a [`StagedProviderState`] off the front.
pub open spec fn parse_provider_state(b: Seq<u8>) -> Parsed<StagedProviderState> {
    match parse_u8(b, "provider_state") {
        Err(e) => Err(e),
        Ok((value, rest)) => match StagedProviderState::of_byte(value) {
            None => Err(
                PublishRecordError::UnknownDiscriminant {
                    durable_type: StagedProviderState::durable_type(),
                    value,
                },
            ),
            Some(state) => Ok((state, rest)),
        },
    }
}

/// Reads a [`StagedCleanupState`] off the front.
pub open spec fn parse_cleanup_state(b: Seq<u8>) -> Parsed<StagedCleanupState> {
    match parse_u8(b, "cleanup_state") {
        Err(e) => Err(e),
        Ok((value, rest)) => match StagedCleanupState::of_byte(value) {
            None => Err(
                PublishRecordError::UnknownDiscriminant {
                    durable_type: StagedCleanupState::durable_type(),
                    value,
                },
            ),
            Some(state) => Ok((state, rest)),
        },
    }
}

impl PublishIdentityView {
    /// Bytes of this part.
    pub open spec fn encoding(self) -> Seq<u8> {
        self.operation_id
            + self.identity_digest
            + self.initialization_digest
            + bytes::be64(self.initiating_owner_epoch)
            + bytes::be64(self.activity_deadline_ms)
            + self.authority.encoding()
            + records::length_prefixed(self.workbench_id)
            + self.workspace_incarnation_id
            + records::length_prefixed(self.path)
            + self.artifact_revision_id
            + self.claim.encoding()
            + seq![self.phase.byte()]
    }

    /// What the types of the fields guarantee.
    pub open spec fn sized(self) -> bool {
        &&& self.operation_id.len() == 16
        &&& self.identity_digest.len() == 32
        &&& self.initialization_digest.len() == 32
        &&& self.initiating_owner_epoch != 0
        &&& self.authority.sized()
        &&& valid_utf8(self.workbench_id) && names::workbench_id_check(self.workbench_id) is Ok
        &&& self.workspace_incarnation_id.len() == 16
        &&& valid_utf8(self.path) && names::path_check(self.path) is Ok
        &&& self.artifact_revision_id.len() == 16
        &&& self.claim.sized()
    }

    /// Reads this part off the front.
    pub open spec fn parse(b: Seq<u8>) -> Parsed<Self> {
        match take_field(b, "operation_id", 16) {
            Err(e) => Err(e),
            Ok((operation_id, b1)) => match take_field(b1, "identity_digest", 32) {
                Err(e) => Err(e),
                Ok((identity_digest, b2)) => match take_field(b2, "initialization_digest", 32) {
                    Err(e) => Err(e),
                    Ok((initialization_digest, b3)) => match parse_position(b3, "initiating_owner_epoch") {
                        Err(e) => Err(e),
                        Ok((initiating_owner_epoch, b4)) => match parse_u64(b4, "activity_deadline_ms") {
                            Err(e) => Err(e),
                            Ok((activity_deadline_ms, b5)) => match PublishAuthorityView::parse(b5) {
                                Err(e) => Err(e),
                                Ok((authority, b6)) => match parse_workbench_id(b6) {
                                    Err(e) => Err(e),
                                    Ok((workbench_id, b7)) => match take_field(b7, "workspace_incarnation_id", 16) {
                                        Err(e) => Err(e),
                                        Ok((workspace_incarnation_id, b8)) => match parse_path(b8) {
                                            Err(e) => Err(e),
                                            Ok((path, b9)) => match take_field(b9, "artifact_revision_id", 16) {
                                                Err(e) => Err(e),
                                                Ok((artifact_revision_id, b10)) => match PublishClaimView::parse(b10) {
                                                    Err(e) => Err(e),
                                                    Ok((claim, b11)) => match parse_phase(b11) {
                                                        Err(e) => Err(e),
                                                        Ok((phase, b12)) => Ok((PublishIdentityView { operation_id, identity_digest, initialization_digest, initiating_owner_epoch, activity_deadline_ms, authority, workbench_id, workspace_incarnation_id, path, artifact_revision_id, claim, phase }, b12)),
                                                    },
                                                },
                                            },
                                        },
                                    },
                                },
                            },
                        },
                    },
                },
            },
        }
    }
}

impl PublishLedgerView {
    /// Bytes of this part.
    pub open spec fn encoding(self) -> Seq<u8> {
        bytes::be32(self.staged_object_count)
            + self.staged_object_seal
            + bytes::be32(self.staged_object_cursor)
            + self.staged_object_rolling_digest
            + bytes::be32(self.uploaded_object_cursor)
            + self.uploaded_object_rolling_digest
            + bytes::be32(self.manifest_row_count)
            + self.manifest_seal
            + bytes::be32(self.manifest_cursor)
            + self.manifest_rolling_digest
            + optional_position(self.manifest_last_position)
    }

    /// What the types of the fields guarantee.
    pub open spec fn sized(self) -> bool {
        &&& self.staged_object_seal.len() == 32
        &&& self.staged_object_rolling_digest.len() == 32
        &&& self.uploaded_object_rolling_digest.len() == 32
        &&& self.manifest_seal.len() == 32
        &&& self.manifest_rolling_digest.len() == 32
    }

    /// Reads this part off the front.
    pub open spec fn parse(b: Seq<u8>) -> Parsed<Self> {
        match parse_u32(b, "staged_object_count") {
            Err(e) => Err(e),
            Ok((staged_object_count, b1)) => match take_field(b1, "staged_object_seal", 32) {
                Err(e) => Err(e),
                Ok((staged_object_seal, b2)) => match parse_u32(b2, "staged_object_cursor") {
                    Err(e) => Err(e),
                    Ok((staged_object_cursor, b3)) => match take_field(b3, "staged_object_rolling_digest", 32) {
                        Err(e) => Err(e),
                        Ok((staged_object_rolling_digest, b4)) => match parse_u32(b4, "uploaded_object_cursor") {
                            Err(e) => Err(e),
                            Ok((uploaded_object_cursor, b5)) => match take_field(b5, "uploaded_object_rolling_digest", 32) {
                                Err(e) => Err(e),
                                Ok((uploaded_object_rolling_digest, b6)) => match parse_u32(b6, "manifest_row_count") {
                                    Err(e) => Err(e),
                                    Ok((manifest_row_count, b7)) => match take_field(b7, "manifest_seal", 32) {
                                        Err(e) => Err(e),
                                        Ok((manifest_seal, b8)) => match parse_u32(b8, "manifest_cursor") {
                                            Err(e) => Err(e),
                                            Ok((manifest_cursor, b9)) => match take_field(b9, "manifest_rolling_digest", 32) {
                                                Err(e) => Err(e),
                                                Ok((manifest_rolling_digest, b10)) => match parse_optional_position(b10) {
                                                    Err(e) => Err(e),
                                                    Ok((manifest_last_position, b11)) => Ok((PublishLedgerView { staged_object_count, staged_object_seal, staged_object_cursor, staged_object_rolling_digest, uploaded_object_cursor, uploaded_object_rolling_digest, manifest_row_count, manifest_seal, manifest_cursor, manifest_rolling_digest, manifest_last_position }, b11)),
                                                },
                                            },
                                        },
                                    },
                                },
                            },
                        },
                    },
                },
            },
        }
    }
}

impl PublishClosureView {
    /// Bytes of this part.
    pub open spec fn encoding(self) -> Seq<u8> {
        seq![self.dependency_count]
            + seq![self.dependency_depth]
            + self.dependency_digest
            + bytes::be32(self.cleanup_staged_object_cursor)
            + bytes::be32(self.cleanup_manifest_cursor)
            + optional_digest(self.publication_absence_proof)
            + optional_result(self.result)
            + optional_terminal_error(self.terminal_error)
    }

    /// What the types of the fields guarantee.
    pub open spec fn sized(self) -> bool {
        &&& self.dependency_digest.len() == 32
        &&& (self.publication_absence_proof matches Some(digest) ==> digest.len() == 32)
        &&& (self.result matches Some(result) ==> result.path_generation != 0 && valid_utf8(result.body_digest_uri))
        &&& (self.terminal_error matches Some(error) ==> valid_utf8(error.message) && (error.evidence_digest matches Some(digest) ==> digest.len() == 32))
    }

    /// Reads this part off the front.
    pub open spec fn parse(b: Seq<u8>) -> Parsed<Self> {
        match parse_u8(b, "dependency_count") {
            Err(e) => Err(e),
            Ok((dependency_count, b1)) => match parse_u8(b1, "dependency_depth") {
                Err(e) => Err(e),
                Ok((dependency_depth, b2)) => match take_field(b2, "dependency_digest", 32) {
                    Err(e) => Err(e),
                    Ok((dependency_digest, b3)) => match parse_u32(b3, "cleanup_staged_object_cursor") {
                        Err(e) => Err(e),
                        Ok((cleanup_staged_object_cursor, b4)) => match parse_u32(b4, "cleanup_manifest_cursor") {
                            Err(e) => Err(e),
                            Ok((cleanup_manifest_cursor, b5)) => match parse_optional_digest(b5, "publication_absence_proof") {
                                Err(e) => Err(e),
                                Ok((publication_absence_proof, b6)) => match parse_optional_result(b6) {
                                    Err(e) => Err(e),
                                    Ok((result, b7)) => match parse_optional_terminal_error(b7) {
                                        Err(e) => Err(e),
                                        Ok((terminal_error, b8)) => Ok((PublishClosureView { dependency_count, dependency_depth, dependency_digest, cleanup_staged_object_cursor, cleanup_manifest_cursor, publication_absence_proof, result, terminal_error }, b8)),
                                    },
                                },
                            },
                        },
                    },
                },
            },
        }
    }
}

impl PublishOperationRecordView {
    /// Durable bytes of this operation.
    pub open spec fn encoding(self) -> Seq<u8> {
        seq![PUBLISH_VALUE_FORMAT_VERSION] + self.identity.encoding() + self.ledger.encoding()
            + self.closure.encoding()
    }

    /// What the types of the fields guarantee.
    pub open spec fn sized(self) -> bool {
        self.identity.sized() && self.ledger.sized() && self.closure.sized()
    }

    /// Why this operation has no durable bytes, if it has none.
    pub open spec fn encode_check(self) -> Result<(), PublishFailure> {
        publish_validate::and_also(
            self.check(),
            size_check(
                "PublishOperationRecord",
                self.encoding().len(),
                MAX_PUBLISH_OPERATION_RECORD_BYTES,
            ),
        )
    }

    /// Reads the parts of an operation, without checking it.
    pub open spec fn parse_parts(b: Seq<u8>) -> Parsed<Self> {
        match parse_format(b) {
            Err(e) => Err(e),
            Ok((_, b1)) => match PublishIdentityView::parse(b1) {
                Err(e) => Err(e),
                Ok((identity, b2)) => match PublishLedgerView::parse(b2) {
                    Err(e) => Err(e),
                    Ok((ledger, b3)) => match PublishClosureView::parse(b3) {
                        Err(e) => Err(e),
                        Ok((closure, b4)) => Ok(
                            (PublishOperationRecordView { identity, ledger, closure }, b4),
                        ),
                    },
                },
            },
        }
    }

    /// The operation that `b` encodes, or why it encodes none.
    pub open spec fn parse(b: Seq<u8>) -> Result<Self, PublishFailure> {
        match size_check("PublishOperationRecord", b.len(), MAX_PUBLISH_OPERATION_RECORD_BYTES) {
            Err(e) => Err(e),
            Ok(()) => match Self::parse_parts(b) {
                Err(e) => Err(e),
                Ok((record, rest)) => match publish_validate::and_also(
                    end_check(rest),
                    record.check(),
                ) {
                    Err(e) => Err(e),
                    Ok(()) => Ok(record),
                },
            },
        }
    }
}

impl StagedObjectRecordView {
    /// Durable bytes of this row.
    pub open spec fn encoding(self) -> Seq<u8> {
        seq![PUBLISH_VALUE_FORMAT_VERSION]
            + self.artifact_revision_id
            + bytes::be32(self.object_sequence)
            + records::length_prefixed(self.object_key)
            + optional_bytes(self.multipart_upload_id)
            + bytes::be64(self.expected_length)
            + records::length_prefixed(self.expected_digest_uri)
            + seq![self.provider_state.byte()]
            + seq![self.cleanup_state.byte()]
    }

    /// What the types of the fields guarantee.
    pub open spec fn sized(self) -> bool {
        &&& self.artifact_revision_id.len() == 16
        &&& valid_utf8(self.object_key)
        &&& valid_utf8(self.expected_digest_uri)
    }

    /// Why this row has no durable bytes, if it has none.
    pub open spec fn encode_check(self) -> Result<(), PublishFailure> {
        publish_validate::and_also(
            self.check(),
            size_check("StagedObjectRecord", self.encoding().len(), MAX_STAGED_OBJECT_RECORD_BYTES),
        )
    }

    /// Reads the fields of a row, without checking it.
    pub open spec fn parse_fields(b: Seq<u8>) -> Parsed<Self> {
        match parse_format(b) {
            Err(e) => Err(e),
            Ok((_, b1)) => match take_field(b1, "artifact_revision_id", 16) {
                Err(e) => Err(e),
                Ok((artifact_revision_id, b2)) => match parse_u32(b2, "object_sequence") {
                    Err(e) => Err(e),
                    Ok((object_sequence, b3)) => match parse_text(b3, "object_key", OBJECT_KEY_BYTES) {
                        Err(e) => Err(e),
                        Ok((object_key, b4)) => match parse_optional_bytes(b4, "multipart_upload_id", MAX_MULTIPART_ID_BYTES) {
                            Err(e) => Err(e),
                            Ok((multipart_upload_id, b5)) => match parse_u64(b5, "expected_length") {
                                Err(e) => Err(e),
                                Ok((expected_length, b6)) => match parse_text(b6, "expected_digest_uri", MAX_DIGEST_URI_BYTES) {
                                    Err(e) => Err(e),
                                    Ok((expected_digest_uri, b7)) => match parse_provider_state(b7) {
                                        Err(e) => Err(e),
                                        Ok((provider_state, b8)) => match parse_cleanup_state(b8) {
                                            Err(e) => Err(e),
                                            Ok((cleanup_state, b9)) => Ok((StagedObjectRecordView { artifact_revision_id, object_sequence, object_key, multipart_upload_id, expected_length, expected_digest_uri, provider_state, cleanup_state }, b9)),
                                        },
                                    },
                                },
                            },
                        },
                    },
                },
            },
        }
    }

    /// The row that `b` encodes, or why it encodes none.
    pub open spec fn parse(b: Seq<u8>) -> Result<Self, PublishFailure> {
        match size_check("StagedObjectRecord", b.len(), MAX_STAGED_OBJECT_RECORD_BYTES) {
            Err(e) => Err(e),
            Ok(()) => match Self::parse_fields(b) {
                Err(e) => Err(e),
                Ok((record, rest)) => match publish_validate::and_also(
                    end_check(rest),
                    record.check(),
                ) {
                    Err(e) => Err(e),
                    Ok(()) => Ok(record),
                },
            },
        }
    }
}

impl ArtifactManifestRowView {
    /// Durable bytes of this row.
    pub open spec fn encoding(self) -> Seq<u8> {
        seq![PUBLISH_VALUE_FORMAT_VERSION]
            + self.physical_owner_revision_id
            + bytes::be64(self.physical_object_index)
            + records::length_prefixed(self.object_key)
            + bytes::be64(self.logical_offset)
            + bytes::be64(self.offset)
            + bytes::be64(self.length)
            + records::length_prefixed(self.digest_uri)
            + append_segment(self.append_segment)
    }

    /// What the types of the fields guarantee.
    pub open spec fn sized(self) -> bool {
        &&& self.physical_owner_revision_id.len() == 16
        &&& valid_utf8(self.object_key)
        &&& valid_utf8(self.digest_uri)
    }

    /// Why this row has no durable bytes, if it has none.
    pub open spec fn encode_check(self) -> Result<(), PublishFailure> {
        publish_validate::and_also(
            self.check(),
            size_check("ArtifactManifestRow", self.encoding().len(), MAX_MANIFEST_ROW_BYTES),
        )
    }

    /// Reads the fields of a row, without checking it.
    pub open spec fn parse_fields(b: Seq<u8>) -> Parsed<Self> {
        match parse_format(b) {
            Err(e) => Err(e),
            Ok((_, b1)) => match take_field(b1, "physical_owner_revision_id", 16) {
                Err(e) => Err(e),
                Ok((physical_owner_revision_id, b2)) => match parse_u64(b2, "physical_object_index") {
                    Err(e) => Err(e),
                    Ok((physical_object_index, b3)) => match parse_text(b3, "object_key", OBJECT_KEY_BYTES) {
                        Err(e) => Err(e),
                        Ok((object_key, b4)) => match parse_u64(b4, "logical_offset") {
                            Err(e) => Err(e),
                            Ok((logical_offset, b5)) => match parse_u64(b5, "offset") {
                                Err(e) => Err(e),
                                Ok((offset, b6)) => match parse_u64(b6, "length") {
                                    Err(e) => Err(e),
                                    Ok((length, b7)) => match parse_text(b7, "digest_uri", MAX_DIGEST_URI_BYTES) {
                                        Err(e) => Err(e),
                                        Ok((digest_uri, b8)) => match parse_append_segment(b8) {
                                            Err(e) => Err(e),
                                            Ok((append_segment, b9)) => Ok((ArtifactManifestRowView { physical_owner_revision_id, physical_object_index, object_key, logical_offset, offset, length, digest_uri, append_segment }, b9)),
                                        },
                                    },
                                },
                            },
                        },
                    },
                },
            },
        }
    }

    /// The row that `b` encodes, or why it encodes none.
    pub open spec fn parse(b: Seq<u8>) -> Result<Self, PublishFailure> {
        match size_check("ArtifactManifestRow", b.len(), MAX_MANIFEST_ROW_BYTES) {
            Err(e) => Err(e),
            Ok(()) => match Self::parse_fields(b) {
                Err(e) => Err(e),
                Ok((record, rest)) => match publish_validate::and_also(
                    end_check(rest),
                    record.check(),
                ) {
                    Err(e) => Err(e),
                    Ok(()) => Ok(record),
                },
            },
        }
    }
}

/// The result of a read, seen as contents.
pub open spec fn read_as<R: View>(
    parsed: Parsed<R::V>,
    result: Result<R, PublishRecordError>,
    rest: Seq<u8>,
) -> bool {
    match result {
        Ok(value) => parsed == Ok::<(R::V, Seq<u8>), PublishFailure>((value@, rest)),
        Err(e) => parsed == Err::<(R::V, Seq<u8>), PublishFailure>(e.model()),
    }
}

/// The result of reading an optional value, seen as contents.
pub open spec fn read_option_as<R: View>(
    parsed: Parsed<Option<R::V>>,
    result: Result<Option<R>, PublishRecordError>,
    rest: Seq<u8>,
) -> bool {
    match result {
        Ok(value) => parsed == Ok::<(Option<R::V>, Seq<u8>), PublishFailure>(
            (bytes::option_view(value), rest),
        ),
        Err(e) => parsed == Err::<(Option<R::V>, Seq<u8>), PublishFailure>(e.model()),
    }
}

/// The result of reading a plain value.
pub open spec fn read_plain<V>(
    parsed: Parsed<V>,
    result: Result<V, PublishRecordError>,
    rest: Seq<u8>,
) -> bool {
    match result {
        Ok(value) => parsed == Ok::<(V, Seq<u8>), PublishFailure>((value, rest)),
        Err(e) => parsed == Err::<(V, Seq<u8>), PublishFailure>(e.model()),
    }
}

/// The result of an encode: the encoding when the check passes, and otherwise
/// the failure that the check names.
pub open spec fn encoded_as(
    result: Result<Vec<u8>, PublishRecordError>,
    check: Result<(), PublishFailure>,
    encoding: Seq<u8>,
) -> bool {
    match check {
        Ok(()) => result matches Ok(out) && out@ == encoding,
        Err(failure) => result matches Err(e) && e.model() == failure,
    }
}

/// The result of a decode, seen as contents.
pub open spec fn decoded<R: View>(result: Result<R, PublishRecordError>) -> Result<
    R::V,
    PublishFailure,
> {
    match result {
        Ok(record) => Ok(record@),
        Err(e) => Err(e.model()),
    }
}

/// Appends a byte string preceded by its 32-bit length, if that fits.
pub fn push_bytes(target: &mut Vec<u8>, field: &'static str, value: &[u8]) -> (result: Result<
    (),
    PublishRecordError,
>)
    ensures
        value@.len() <= u32::MAX ==> result is Ok && final(target)@ == old(target)@
            + records::length_prefixed(value@),
        value@.len() > u32::MAX ==> publish_validate::checked(result) == Err::<(), PublishFailure>(
            PublishRecordError::FieldTooLong {
                field,
                length: value@.len() as usize,
                max: u32::MAX as usize,
            },
        ) && *final(target) == *old(target),
{
    if value.len() > u32::MAX as usize {
        return Err(
            PublishRecordError::FieldTooLong {
                field,
                length: value.len(),
                max: u32::MAX as usize,
            },
        );
    }
    bytes::push_u32(target, value.len() as u32);
    bytes::push_bytes(target, value);
    proof {
        bytes::concat_regroups(old(target)@, bytes::be32(value@.len() as u32), value@);
    }
    Ok(())
}

/// Appends an optional byte string of representable length.
fn push_optional_bytes(target: &mut Vec<u8>, field: &'static str, value: &Option<Vec<u8>>) -> (result:
    Result<(), PublishRecordError>)
    requires
        value matches Some(v) ==> v@.len() <= u32::MAX,
    ensures
        result is Ok,
        final(target)@ == old(target)@ + optional_bytes(bytes::option_view(*value)),
{
    match value {
        None => {
            bytes::push_u8(target, 0);
            Ok(())
        },
        Some(value) => {
            bytes::push_u8(target, 1);
            push_bytes(target, field, value.as_slice())?;
            proof {
                bytes::concat_regroups(
                    old(target)@,
                    seq![1u8],
                    records::length_prefixed(value@),
                );
            }
            Ok(())
        },
    }
}

/// Appends an optional digest.
fn push_optional_digest(target: &mut Vec<u8>, value: &Option<[u8; 32]>)
    ensures
        final(target)@ == old(target)@ + optional_digest(bytes::option_view(*value)),
{
    match value {
        None => bytes::push_u8(target, 0),
        Some(digest) => {
            bytes::push_u8(target, 1);
            bytes::push_bytes(target, digest.as_slice());
            proof {
                bytes::concat_regroups(old(target)@, seq![1u8], digest@);
            }
        },
    }
}

/// Appends a claim.
fn encode_claim(target: &mut Vec<u8>, claim: &PublishClaim)
    ensures
        final(target)@ == old(target)@ + claim@.encoding(),
        claim@.sized(),
{
    match claim {
        PublishClaim::CreateOnly => bytes::push_u8(target, 1),
        PublishClaim::ReplaceOnly { expected_generation } => {
            bytes::push_u8(target, 2);
            bytes::push_u64(target, expected_generation.get());
            proof {
                bytes::concat_regroups(old(target)@, seq![2u8], bytes::be64(expected_generation@));
            }
        },
        PublishClaim::Append { expected_generation, base_revision_id, append_offset } => {
            bytes::push_u8(target, 3);
            bytes::push_u64(target, expected_generation.get());
            bytes::push_bytes(target, base_revision_id.as_bytes().as_slice());
            bytes::push_u64(target, *append_offset);
            proof {
                let tag = seq![3u8];
                let generation = bytes::be64(expected_generation@);
                let offset = bytes::be64(*append_offset);
                bytes::regroup_5(old(target)@, tag, generation, base_revision_id@, offset);
                bytes::regroup_4(tag, generation, base_revision_id@, offset);
            }
        },
    }
}

/// Appends an authority.
fn encode_authority(target: &mut Vec<u8>, authority: &PublishAuthority)
    ensures
        final(target)@ == old(target)@ + authority@.encoding(),
        authority@.sized(),
{
    match authority {
        PublishAuthority::Visible => bytes::push_u8(target, 1),
        PublishAuthority::CommitStaging { commit_operation_id } => {
            bytes::push_u8(target, 3);
            bytes::push_bytes(target, commit_operation_id.as_bytes().as_slice());
            proof {
                bytes::concat_regroups(old(target)@, seq![3u8], commit_operation_id@);
            }
        },
        PublishAuthority::RestoreStaging { restore_operation_id } => {
            bytes::push_u8(target, 2);
            bytes::push_bytes(target, restore_operation_id.as_bytes().as_slice());
            proof {
                bytes::concat_regroups(old(target)@, seq![2u8], restore_operation_id@);
            }
        },
    }
}

/// Appends an optional valid result.
fn push_optional_result(target: &mut Vec<u8>, result: &Option<PublishResult>) -> (pushed: Result<
    (),
    PublishRecordError,
>)
    requires
        result matches Some(r) ==> r@.check() is Ok,
    ensures
        pushed is Ok,
        final(target)@ == old(target)@ + optional_result(bytes::option_view(*result)),
        result matches Some(r) ==> r@.path_generation != 0 && valid_utf8(r@.body_digest_uri),
{
    match result {
        None => {
            bytes::push_u8(target, 0);
            Ok(())
        },
        Some(result) => {
            bytes::push_u8(target, 1);
            bytes::push_u64(target, result.path_generation.get());
            bytes::push_u64(target, result.workspace_revision.get());
            bytes::push_u64(target, result.logical_size);
            push_bytes(
                target,
                "result.body_digest_uri",
                result.body_digest_uri.as_str().as_bytes(),
            )?;
            proof {
                let tag = seq![1u8];
                let generation = bytes::be64(result@.path_generation);
                let revision = bytes::be64(result@.workspace_revision);
                let size = bytes::be64(result@.logical_size);
                let uri = records::length_prefixed(result@.body_digest_uri);
                bytes::regroup_6(old(target)@, tag, generation, revision, size, uri);
                bytes::regroup_5(tag, generation, revision, size, uri);
                encode_utf8_valid_utf8(result.body_digest_uri@);
            }
            Ok(())
        },
    }
}

/// Appends an optional valid terminal error.
fn push_optional_terminal_error(
    target: &mut Vec<u8>,
    terminal_error: &Option<PublishTerminalError>,
) -> (pushed: Result<(), PublishRecordError>)
    requires
        terminal_error matches Some(e) ==> e@.check() is Ok,
    ensures
        pushed is Ok,
        final(target)@ == old(target)@ + optional_terminal_error(
            bytes::option_view(*terminal_error),
        ),
        terminal_error matches Some(e) ==> valid_utf8(e@.message) && (
        e@.evidence_digest matches Some(digest) ==> digest.len() == 32),
{
    match terminal_error {
        None => {
            bytes::push_u8(target, 0);
            Ok(())
        },
        Some(error) => {
            bytes::push_u8(target, 1);
            bytes::push_u8(target, error.kind.to_byte());
            push_bytes(target, "terminal_error.message", error.message.as_str().as_bytes())?;
            push_optional_digest(target, &error.evidence_digest);
            proof {
                let tag = seq![1u8];
                let kind = seq![error.kind.byte()];
                let message = records::length_prefixed(error@.message);
                let evidence = optional_digest(error@.evidence_digest);
                bytes::regroup_5(old(target)@, tag, kind, message, evidence);
                bytes::regroup_4(tag, kind, message, evidence);
                encode_utf8_valid_utf8(error.message@);
            }
            Ok(())
        },
    }
}

impl PublishOperationRecord {
    /// Bytes of the identity part.
    fn identity_bytes(&self) -> (result: Result<Vec<u8>, PublishRecordError>)
        ensures
            result matches Ok(out) && out@ == self.identity_view().encoding(),
            self.identity_view().sized(),
    {
        let mut out: Vec<u8> = Vec::new();
        bytes::push_bytes(&mut out, self.operation_id.as_bytes().as_slice());
        assert(out@ =~= self.operation_id@);
        bytes::push_bytes(&mut out, self.identity_digest.as_slice());
        bytes::push_bytes(&mut out, self.initialization_digest.as_slice());
        bytes::push_u64(&mut out, self.initiating_owner_epoch.get());
        bytes::push_u64(&mut out, self.activity_deadline_ms);
        encode_authority(&mut out, &self.authority);
        push_bytes(&mut out, "workbench_id", self.workbench_id.as_bytes())?;
        bytes::push_bytes(&mut out, self.workspace_incarnation_id.as_bytes().as_slice());
        push_bytes(&mut out, "path", self.path.as_bytes())?;
        bytes::push_bytes(&mut out, self.artifact_revision_id.as_bytes().as_slice());
        encode_claim(&mut out, &self.claim);
        bytes::push_u8(&mut out, self.phase.to_byte());
        Ok(out)
    }

    /// Bytes of the ledger part.
    fn ledger_bytes(&self) -> (out: Vec<u8>)
        ensures
            out@ == self.ledger_view().encoding(),
            self.ledger_view().sized(),
    {
        let mut out: Vec<u8> = Vec::new();
        bytes::push_u32(&mut out, self.staged_object_count);
        assert(out@ =~= bytes::be32(self.staged_object_count));
        bytes::push_bytes(&mut out, self.staged_object_seal.as_slice());
        bytes::push_u32(&mut out, self.staged_object_cursor);
        bytes::push_bytes(&mut out, self.staged_object_rolling_digest.as_slice());
        bytes::push_u32(&mut out, self.uploaded_object_cursor);
        bytes::push_bytes(&mut out, self.uploaded_object_rolling_digest.as_slice());
        bytes::push_u32(&mut out, self.manifest_row_count);
        bytes::push_bytes(&mut out, self.manifest_seal.as_slice());
        bytes::push_u32(&mut out, self.manifest_cursor);
        bytes::push_bytes(&mut out, self.manifest_rolling_digest.as_slice());
        let ghost before = out@;
        match &self.manifest_last_position {
            None => bytes::push_u8(&mut out, 0),
            Some(position) => {
                bytes::push_u8(&mut out, 1);
                bytes::push_u64(&mut out, position.object_index);
                proof {
                    bytes::concat_regroups(before, seq![1u8], bytes::be64(position.object_index));
                }
            },
        }
        out
    }

    /// Bytes of the closure part.
    fn closure_bytes(&self) -> (result: Result<Vec<u8>, PublishRecordError>)
        requires
            self@.check() is Ok,
        ensures
            result matches Ok(out) && out@ == self.closure_view().encoding(),
            self.closure_view().sized(),
    {
        let mut out: Vec<u8> = Vec::new();
        bytes::push_u8(&mut out, self.dependency_count);
        assert(out@ =~= seq![self.dependency_count]);
        bytes::push_u8(&mut out, self.dependency_depth);
        bytes::push_bytes(&mut out, self.dependency_digest.as_slice());
        bytes::push_u32(&mut out, self.cleanup_staged_object_cursor);
        bytes::push_u32(&mut out, self.cleanup_manifest_cursor);
        push_optional_digest(&mut out, &self.publication_absence_proof);
        push_optional_result(&mut out, &self.result)?;
        push_optional_terminal_error(&mut out, &self.terminal_error)?;
        Ok(out)
    }

    /// Durable bytes of this operation, if it is valid and small enough.
    pub fn encode(&self) -> (result: Result<Vec<u8>, PublishRecordError>)
        ensures
            encoded_as(result, self@.encode_check(), self@.encoding()),
            result is Ok ==> self@.sized(),
    {
        self.validate()?;
        let identity = self.identity_bytes()?;
        let ledger = self.ledger_bytes();
        let closure = self.closure_bytes()?;
        let mut encoded: Vec<u8> = Vec::new();
        encoded.push(PUBLISH_VALUE_FORMAT_VERSION);
        assert(encoded@ =~= seq![PUBLISH_VALUE_FORMAT_VERSION]);
        bytes::push_bytes(&mut encoded, identity.as_slice());
        bytes::push_bytes(&mut encoded, ledger.as_slice());
        bytes::push_bytes(&mut encoded, closure.as_slice());
        require_record_size(
            "PublishOperationRecord",
            encoded.len(),
            MAX_PUBLISH_OPERATION_RECORD_BYTES,
        )?;
        Ok(encoded)
    }

    /// Decodes one valid operation from exactly its durable bytes.
    pub fn decode(encoded: &[u8]) -> (result: Result<Self, PublishRecordError>)
        ensures
            decoded(result) == PublishOperationRecordView::parse(encoded@),
    {
        require_record_size(
            "PublishOperationRecord",
            encoded.len(),
            MAX_PUBLISH_OPERATION_RECORD_BYTES,
        )?;
        let mut decoder = Decoder::new(encoded);
        decoder.require_value_version()?;
        let identity = decode_identity(&mut decoder)?;
        let ledger = decode_ledger(&mut decoder)?;
        let closure = decode_closure(&mut decoder)?;
        decoder.finish()?;
        let record = Self {
            operation_id: identity.operation_id,
            identity_digest: identity.identity_digest,
            initialization_digest: identity.initialization_digest,
            initiating_owner_epoch: identity.initiating_owner_epoch,
            activity_deadline_ms: identity.activity_deadline_ms,
            authority: identity.authority,
            workbench_id: identity.workbench_id,
            workspace_incarnation_id: identity.workspace_incarnation_id,
            path: identity.path,
            artifact_revision_id: identity.artifact_revision_id,
            claim: identity.claim,
            phase: identity.phase,
            staged_object_count: ledger.staged_object_count,
            staged_object_seal: ledger.staged_object_seal,
            staged_object_cursor: ledger.staged_object_cursor,
            staged_object_rolling_digest: ledger.staged_object_rolling_digest,
            uploaded_object_cursor: ledger.uploaded_object_cursor,
            uploaded_object_rolling_digest: ledger.uploaded_object_rolling_digest,
            manifest_row_count: ledger.manifest_row_count,
            manifest_seal: ledger.manifest_seal,
            manifest_cursor: ledger.manifest_cursor,
            manifest_rolling_digest: ledger.manifest_rolling_digest,
            manifest_last_position: ledger.manifest_last_position,
            dependency_count: closure.dependency_count,
            dependency_depth: closure.dependency_depth,
            dependency_digest: closure.dependency_digest,
            cleanup_staged_object_cursor: closure.cleanup_staged_object_cursor,
            cleanup_manifest_cursor: closure.cleanup_manifest_cursor,
            publication_absence_proof: closure.publication_absence_proof,
            result: closure.result,
            terminal_error: closure.terminal_error,
        };
        record.validate()?;
        Ok(record)
    }
}

/// Decoded identity part of a publish operation.
struct PublishIdentity {
    operation_id: OperationId,
    identity_digest: [u8; 32],
    initialization_digest: [u8; 32],
    initiating_owner_epoch: OwnerEpoch,
    activity_deadline_ms: u64,
    authority: PublishAuthority,
    workbench_id: WorkbenchId,
    workspace_incarnation_id: WorkspaceIncarnationId,
    path: NormalizedRelativePath,
    artifact_revision_id: ArtifactRevisionId,
    claim: PublishClaim,
    phase: PublishPhase,
}

impl View for PublishIdentity {
    type V = PublishIdentityView;

    closed spec fn view(&self) -> PublishIdentityView {
        PublishIdentityView {
            operation_id: self.operation_id@,
            identity_digest: self.identity_digest@,
            initialization_digest: self.initialization_digest@,
            initiating_owner_epoch: self.initiating_owner_epoch@,
            activity_deadline_ms: self.activity_deadline_ms,
            authority: self.authority@,
            workbench_id: self.workbench_id@,
            workspace_incarnation_id: self.workspace_incarnation_id@,
            path: self.path@,
            artifact_revision_id: self.artifact_revision_id@,
            claim: self.claim@,
            phase: self.phase,
        }
    }
}

/// Decoded ledger part of a publish operation.
struct PublishLedger {
    staged_object_count: u32,
    staged_object_seal: [u8; 32],
    staged_object_cursor: u32,
    staged_object_rolling_digest: [u8; 32],
    uploaded_object_cursor: u32,
    uploaded_object_rolling_digest: [u8; 32],
    manifest_row_count: u32,
    manifest_seal: [u8; 32],
    manifest_cursor: u32,
    manifest_rolling_digest: [u8; 32],
    manifest_last_position: Option<ManifestPosition>,
}

impl View for PublishLedger {
    type V = PublishLedgerView;

    closed spec fn view(&self) -> PublishLedgerView {
        PublishLedgerView {
            staged_object_count: self.staged_object_count,
            staged_object_seal: self.staged_object_seal@,
            staged_object_cursor: self.staged_object_cursor,
            staged_object_rolling_digest: self.staged_object_rolling_digest@,
            uploaded_object_cursor: self.uploaded_object_cursor,
            uploaded_object_rolling_digest: self.uploaded_object_rolling_digest@,
            manifest_row_count: self.manifest_row_count,
            manifest_seal: self.manifest_seal@,
            manifest_cursor: self.manifest_cursor,
            manifest_rolling_digest: self.manifest_rolling_digest@,
            manifest_last_position: match self.manifest_last_position {
                None => None,
                Some(position) => Some(position.object_index),
            },
        }
    }
}

/// Decoded closure part of a publish operation.
struct PublishClosure {
    dependency_count: u8,
    dependency_depth: u8,
    dependency_digest: [u8; 32],
    cleanup_staged_object_cursor: u32,
    cleanup_manifest_cursor: u32,
    publication_absence_proof: Option<[u8; 32]>,
    result: Option<PublishResult>,
    terminal_error: Option<PublishTerminalError>,
}

impl View for PublishClosure {
    type V = PublishClosureView;

    closed spec fn view(&self) -> PublishClosureView {
        PublishClosureView {
            dependency_count: self.dependency_count,
            dependency_depth: self.dependency_depth,
            dependency_digest: self.dependency_digest@,
            cleanup_staged_object_cursor: self.cleanup_staged_object_cursor,
            cleanup_manifest_cursor: self.cleanup_manifest_cursor,
            publication_absence_proof: bytes::option_view(self.publication_absence_proof),
            result: bytes::option_view(self.result),
            terminal_error: bytes::option_view(self.terminal_error),
        }
    }
}

/// Reads the identity part.
fn decode_identity(decoder: &mut Decoder<'_>) -> (result: Result<
    PublishIdentity,
    PublishRecordError,
>)
    requires
        old(decoder).inv(),
    ensures
        final(decoder).inv(),
        read_as(PublishIdentityView::parse(old(decoder).rest()), result, final(decoder).rest()),
{
    let operation_id = OperationId::from_bytes(decoder.fixed::<16>("operation_id")?);
    let identity_digest = decoder.fixed::<32>("identity_digest")?;
    let initialization_digest = decoder.fixed::<32>("initialization_digest")?;
    let initiating_owner_epoch = match OwnerEpoch::new(decoder.u64("initiating_owner_epoch")?) {
        Ok(epoch) => epoch,
        Err(_) => {
            return Err(PublishRecordError::ZeroScalar { field: "initiating_owner_epoch" });
        },
    };
    let activity_deadline_ms: u64 = decoder.u64("activity_deadline_ms")?;
    let authority = decode_authority(decoder)?;
    let workbench_id = decode_workbench_id(decoder)?;
    let workspace_incarnation_id = WorkspaceIncarnationId::from_bytes(
        decoder.fixed::<16>("workspace_incarnation_id")?,
    );
    let path = decode_path(decoder)?;
    let artifact_revision_id = ArtifactRevisionId::from_bytes(
        decoder.fixed::<16>("artifact_revision_id")?,
    );
    let claim = decode_claim(decoder)?;
    let phase = decode_publish_phase(decoder)?;
    Ok(
        PublishIdentity {
            operation_id,
            identity_digest,
            initialization_digest,
            initiating_owner_epoch,
            activity_deadline_ms,
            authority,
            workbench_id,
            workspace_incarnation_id,
            path,
            artifact_revision_id,
            claim,
            phase,
        },
    )
}

/// Reads the ledger part.
fn decode_ledger(decoder: &mut Decoder<'_>) -> (result: Result<PublishLedger, PublishRecordError>)
    requires
        old(decoder).inv(),
    ensures
        final(decoder).inv(),
        read_as(PublishLedgerView::parse(old(decoder).rest()), result, final(decoder).rest()),
{
    let staged_object_count: u32 = decoder.u32("staged_object_count")?;
    let staged_object_seal = decoder.fixed::<32>("staged_object_seal")?;
    let staged_object_cursor: u32 = decoder.u32("staged_object_cursor")?;
    let staged_object_rolling_digest = decoder.fixed::<32>("staged_object_rolling_digest")?;
    let uploaded_object_cursor: u32 = decoder.u32("uploaded_object_cursor")?;
    let uploaded_object_rolling_digest = decoder.fixed::<32>("uploaded_object_rolling_digest")?;
    let manifest_row_count: u32 = decoder.u32("manifest_row_count")?;
    let manifest_seal = decoder.fixed::<32>("manifest_seal")?;
    let manifest_cursor: u32 = decoder.u32("manifest_cursor")?;
    let manifest_rolling_digest = decoder.fixed::<32>("manifest_rolling_digest")?;
    let tag: u8 = decoder.u8("manifest_last_position.tag")?;
    let manifest_last_position = if tag == 0 {
        None
    } else if tag == 1 {
        Some(
            ManifestPosition { object_index: decoder.u64("manifest_last_position.object_index")? },
        )
    } else {
        return Err(
            PublishRecordError::InvalidOptionalTag { field: "manifest_last_position", value: tag },
        );
    };
    Ok(
        PublishLedger {
            staged_object_count,
            staged_object_seal,
            staged_object_cursor,
            staged_object_rolling_digest,
            uploaded_object_cursor,
            uploaded_object_rolling_digest,
            manifest_row_count,
            manifest_seal,
            manifest_cursor,
            manifest_rolling_digest,
            manifest_last_position,
        },
    )
}

/// Reads the closure part.
fn decode_closure(decoder: &mut Decoder<'_>) -> (result: Result<PublishClosure, PublishRecordError>)
    requires
        old(decoder).inv(),
    ensures
        final(decoder).inv(),
        read_as(PublishClosureView::parse(old(decoder).rest()), result, final(decoder).rest()),
{
    let dependency_count: u8 = decoder.u8("dependency_count")?;
    let dependency_depth: u8 = decoder.u8("dependency_depth")?;
    let dependency_digest = decoder.fixed::<32>("dependency_digest")?;
    let cleanup_staged_object_cursor: u32 = decoder.u32("cleanup_staged_object_cursor")?;
    let cleanup_manifest_cursor: u32 = decoder.u32("cleanup_manifest_cursor")?;
    let publication_absence_proof = decoder.optional_digest("publication_absence_proof")?;
    let result = decode_optional_result(decoder)?;
    let terminal_error = decode_optional_terminal_error(decoder)?;
    Ok(
        PublishClosure {
            dependency_count,
            dependency_depth,
            dependency_digest,
            cleanup_staged_object_cursor,
            cleanup_manifest_cursor,
            publication_absence_proof,
            result,
            terminal_error,
        },
    )
}

/// Reads an authority.
fn decode_authority(decoder: &mut Decoder<'_>) -> (result: Result<
    PublishAuthority,
    PublishRecordError,
>)
    requires
        old(decoder).inv(),
    ensures
        final(decoder).inv(),
        read_as(PublishAuthorityView::parse(old(decoder).rest()), result, final(decoder).rest()),
{
    let tag: u8 = decoder.u8("authority")?;
    if tag == 1 {
        Ok(PublishAuthority::Visible)
    } else if tag == 2 {
        let restore_operation_id = OperationId::from_bytes(
            decoder.fixed::<16>("authority.restore_operation_id")?,
        );
        Ok(PublishAuthority::RestoreStaging { restore_operation_id })
    } else if tag == 3 {
        let commit_operation_id = OperationId::from_bytes(
            decoder.fixed::<16>("authority.commit_operation_id")?,
        );
        Ok(PublishAuthority::CommitStaging { commit_operation_id })
    } else {
        Err(
            PublishRecordError::UnknownDiscriminant {
                durable_type: "PublishAuthority",
                value: tag,
            },
        )
    }
}

/// Reads a workbench id.
fn decode_workbench_id(decoder: &mut Decoder<'_>) -> (result: Result<
    WorkbenchId,
    PublishRecordError,
>)
    requires
        old(decoder).inv(),
    ensures
        final(decoder).inv(),
        read_as(parse_workbench_id(old(decoder).rest()), result, final(decoder).rest()),
{
    let value = decoder.string("workbench_id", WorkbenchId::MAX_BYTES)?;
    match WorkbenchId::new(value.as_str()) {
        Ok(id) => Ok(id),
        Err(error) => Err(PublishRecordError::InvalidWorkbenchId { reason: error.message() }),
    }
}

/// Reads a path.
fn decode_path(decoder: &mut Decoder<'_>) -> (result: Result<
    NormalizedRelativePath,
    PublishRecordError,
>)
    requires
        old(decoder).inv(),
    ensures
        final(decoder).inv(),
        read_as(parse_path(old(decoder).rest()), result, final(decoder).rest()),
{
    let value = decoder.string("path", NormalizedRelativePath::MAX_BYTES)?;
    match NormalizedRelativePath::new(value.as_str()) {
        Ok(path) => Ok(path),
        Err(error) => Err(PublishRecordError::InvalidPath { reason: error.message() }),
    }
}

/// Reads a claim.
fn decode_claim(decoder: &mut Decoder<'_>) -> (result: Result<PublishClaim, PublishRecordError>)
    requires
        old(decoder).inv(),
    ensures
        final(decoder).inv(),
        read_as(PublishClaimView::parse(old(decoder).rest()), result, final(decoder).rest()),
{
    let tag: u8 = decoder.u8("claim")?;
    if tag == 1 {
        Ok(PublishClaim::CreateOnly)
    } else if tag == 2 {
        let expected_generation = decoder.generation("claim.expected_generation")?;
        Ok(PublishClaim::ReplaceOnly { expected_generation })
    } else if tag == 3 {
        let expected_generation = decoder.generation("claim.expected_generation")?;
        let base_revision_id = ArtifactRevisionId::from_bytes(
            decoder.fixed::<16>("claim.base_revision_id")?,
        );
        let append_offset: u64 = decoder.u64("claim.append_offset")?;
        Ok(PublishClaim::Append { expected_generation, base_revision_id, append_offset })
    } else {
        Err(PublishRecordError::UnknownDiscriminant { durable_type: "PublishClaim", value: tag })
    }
}

/// Reads a phase.
fn decode_publish_phase(decoder: &mut Decoder<'_>) -> (result: Result<
    PublishPhase,
    PublishRecordError,
>)
    requires
        old(decoder).inv(),
    ensures
        final(decoder).inv(),
        read_plain(parse_phase(old(decoder).rest()), result, final(decoder).rest()),
{
    match PublishPhase::try_from(decoder.u8("phase")?) {
        Ok(phase) => Ok(phase),
        Err(error) => Err(
            PublishRecordError::UnknownDiscriminant {
                durable_type: error.durable_type,
                value: error.value,
            },
        ),
    }
}

/// Reads a provider state.
fn decode_provider_state(decoder: &mut Decoder<'_>) -> (result: Result<
    StagedProviderState,
    PublishRecordError,
>)
    requires
        old(decoder).inv(),
    ensures
        final(decoder).inv(),
        read_plain(parse_provider_state(old(decoder).rest()), result, final(decoder).rest()),
{
    match StagedProviderState::try_from(decoder.u8("provider_state")?) {
        Ok(state) => Ok(state),
        Err(error) => Err(
            PublishRecordError::UnknownDiscriminant {
                durable_type: error.durable_type,
                value: error.value,
            },
        ),
    }
}

/// Reads a cleanup state.
fn decode_cleanup_state(decoder: &mut Decoder<'_>) -> (result: Result<
    StagedCleanupState,
    PublishRecordError,
>)
    requires
        old(decoder).inv(),
    ensures
        final(decoder).inv(),
        read_plain(parse_cleanup_state(old(decoder).rest()), result, final(decoder).rest()),
{
    match StagedCleanupState::try_from(decoder.u8("cleanup_state")?) {
        Ok(state) => Ok(state),
        Err(error) => Err(
            PublishRecordError::UnknownDiscriminant {
                durable_type: error.durable_type,
                value: error.value,
            },
        ),
    }
}

/// Reads an optional result.
fn decode_optional_result(decoder: &mut Decoder<'_>) -> (result: Result<
    Option<PublishResult>,
    PublishRecordError,
>)
    requires
        old(decoder).inv(),
    ensures
        final(decoder).inv(),
        read_option_as(parse_optional_result(old(decoder).rest()), result, final(decoder).rest()),
{
    let tag: u8 = decoder.u8("result tag")?;
    if tag == 0 {
        Ok(None)
    } else if tag == 1 {
        let path_generation = decoder.generation("result.path_generation")?;
        let workspace_revision = WorkspaceRevision::new(decoder.u64("result.workspace_revision")?);
        let logical_size: u64 = decoder.u64("result.logical_size")?;
        let body_digest_uri = decoder.string("result.body_digest_uri", MAX_DIGEST_URI_BYTES)?;
        Ok(Some(PublishResult { path_generation, workspace_revision, logical_size, body_digest_uri }))
    } else {
        Err(PublishRecordError::InvalidOptionalTag { field: "result", value: tag })
    }
}

/// Reads an optional terminal error.
fn decode_optional_terminal_error(decoder: &mut Decoder<'_>) -> (result: Result<
    Option<PublishTerminalError>,
    PublishRecordError,
>)
    requires
        old(decoder).inv(),
    ensures
        final(decoder).inv(),
        read_option_as(
            parse_optional_terminal_error(old(decoder).rest()),
            result,
            final(decoder).rest(),
        ),
{
    let tag: u8 = decoder.u8("terminal_error tag")?;
    if tag == 0 {
        Ok(None)
    } else if tag == 1 {
        let kind = PublishTerminalErrorKind::try_from(decoder.u8("terminal_error.kind")?)?;
        let message = decoder.string("terminal_error.message", MAX_TERMINAL_ERROR_BYTES)?;
        let evidence_digest = decoder.optional_digest("terminal_error.evidence_digest")?;
        Ok(Some(PublishTerminalError { kind, message, evidence_digest }))
    } else {
        Err(PublishRecordError::InvalidOptionalTag { field: "terminal_error", value: tag })
    }
}

/// Checks a record against its durable size.
pub fn require_record_size(record: &'static str, length: usize, max: usize) -> (result: Result<
    (),
    PublishRecordError,
>)
    ensures
        publish_validate::checked(result) == size_check(record, length as nat, max),
{
    if length <= max {
        Ok(())
    } else {
        Err(PublishRecordError::RecordTooLarge { record, length, max })
    }
}

impl StagedObjectRecord {
    /// Durable bytes of this staged object, if it is valid and small enough.
    pub fn encode(&self) -> (result: Result<Vec<u8>, PublishRecordError>)
        ensures
            encoded_as(result, self@.encode_check(), self@.encoding()),
            result is Ok ==> self@.sized(),
    {
        self.validate()?;
        proof {
            encode_utf8_valid_utf8(self.object_key@);
            encode_utf8_valid_utf8(self.expected_digest_uri@);
        }
        let mut encoded: Vec<u8> = Vec::new();
        encoded.push(PUBLISH_VALUE_FORMAT_VERSION);
        assert(encoded@ =~= seq![PUBLISH_VALUE_FORMAT_VERSION]);
        bytes::push_bytes(&mut encoded, self.artifact_revision_id.as_bytes().as_slice());
        bytes::push_u32(&mut encoded, self.object_sequence);
        push_bytes(&mut encoded, "object_key", self.object_key.as_str().as_bytes())?;
        push_optional_bytes(&mut encoded, "multipart_upload_id", &self.multipart_upload_id)?;
        bytes::push_u64(&mut encoded, self.expected_length);
        push_bytes(
            &mut encoded,
            "expected_digest_uri",
            self.expected_digest_uri.as_str().as_bytes(),
        )?;
        bytes::push_u8(&mut encoded, self.provider_state.to_byte());
        bytes::push_u8(&mut encoded, self.cleanup_state.to_byte());
        require_record_size("StagedObjectRecord", encoded.len(), MAX_STAGED_OBJECT_RECORD_BYTES)?;
        Ok(encoded)
    }

    /// Decodes one valid staged object from exactly its durable bytes.
    pub fn decode(encoded: &[u8]) -> (result: Result<Self, PublishRecordError>)
        ensures
            decoded(result) == StagedObjectRecordView::parse(encoded@),
    {
        require_record_size("StagedObjectRecord", encoded.len(), MAX_STAGED_OBJECT_RECORD_BYTES)?;
        let mut decoder = Decoder::new(encoded);
        decoder.require_value_version()?;
        let artifact_revision_id = ArtifactRevisionId::from_bytes(
            decoder.fixed::<16>("artifact_revision_id")?,
        );
        let object_sequence: u32 = decoder.u32("object_sequence")?;
        let object_key = decoder.string("object_key", OBJECT_KEY_BYTES)?;
        let multipart_upload_id = decoder.optional_bytes(
            "multipart_upload_id",
            MAX_MULTIPART_ID_BYTES,
        )?;
        let expected_length: u64 = decoder.u64("expected_length")?;
        let expected_digest_uri = decoder.string("expected_digest_uri", MAX_DIGEST_URI_BYTES)?;
        let provider_state = decode_provider_state(&mut decoder)?;
        let cleanup_state = decode_cleanup_state(&mut decoder)?;
        decoder.finish()?;
        let record = Self {
            artifact_revision_id,
            object_sequence,
            object_key,
            multipart_upload_id,
            expected_length,
            expected_digest_uri,
            provider_state,
            cleanup_state,
        };
        record.validate()?;
        Ok(record)
    }
}

impl ArtifactManifestRow {
    /// Durable bytes of this manifest row, if it is valid and small enough.
    pub fn encode(&self) -> (result: Result<Vec<u8>, PublishRecordError>)
        ensures
            encoded_as(result, self@.encode_check(), self@.encoding()),
            result is Ok ==> self@.sized(),
    {
        self.validate()?;
        proof {
            encode_utf8_valid_utf8(self.object_key@);
            encode_utf8_valid_utf8(self.digest_uri@);
        }
        let mut encoded: Vec<u8> = Vec::new();
        encoded.push(PUBLISH_VALUE_FORMAT_VERSION);
        assert(encoded@ =~= seq![PUBLISH_VALUE_FORMAT_VERSION]);
        bytes::push_bytes(&mut encoded, self.physical_owner_revision_id.as_bytes().as_slice());
        bytes::push_u64(&mut encoded, self.physical_object_index);
        push_bytes(&mut encoded, "object_key", self.object_key.as_str().as_bytes())?;
        bytes::push_u64(&mut encoded, self.logical_offset);
        bytes::push_u64(&mut encoded, self.offset);
        bytes::push_u64(&mut encoded, self.length);
        push_bytes(&mut encoded, "digest_uri", self.digest_uri.as_str().as_bytes())?;
        let ghost before = encoded@;
        match &self.append_segment {
            None => bytes::push_u8(&mut encoded, 0),
            Some(segment) => {
                bytes::push_u8(&mut encoded, 1);
                bytes::push_u32(&mut encoded, segment.segment_sequence);
                bytes::push_u64(&mut encoded, segment.segment_offset);
                proof {
                    let tag = seq![1u8];
                    let sequence = bytes::be32(segment.segment_sequence);
                    let offset = bytes::be64(segment.segment_offset);
                    bytes::regroup_4(before, tag, sequence, offset);
                    bytes::concat_regroups(tag, sequence, offset);
                }
            },
        }
        require_record_size("ArtifactManifestRow", encoded.len(), MAX_MANIFEST_ROW_BYTES)?;
        Ok(encoded)
    }

    /// Decodes one valid manifest row from exactly its durable bytes.
    pub fn decode(encoded: &[u8]) -> (result: Result<Self, PublishRecordError>)
        ensures
            decoded(result) == ArtifactManifestRowView::parse(encoded@),
    {
        require_record_size("ArtifactManifestRow", encoded.len(), MAX_MANIFEST_ROW_BYTES)?;
        let mut decoder = Decoder::new(encoded);
        decoder.require_value_version()?;
        let physical_owner_revision_id = ArtifactRevisionId::from_bytes(
            decoder.fixed::<16>("physical_owner_revision_id")?,
        );
        let physical_object_index: u64 = decoder.u64("physical_object_index")?;
        let object_key = decoder.string("object_key", OBJECT_KEY_BYTES)?;
        let logical_offset: u64 = decoder.u64("logical_offset")?;
        let offset: u64 = decoder.u64("offset")?;
        let length: u64 = decoder.u64("length")?;
        let digest_uri = decoder.string("digest_uri", MAX_DIGEST_URI_BYTES)?;
        let tag: u8 = decoder.u8("append_segment tag")?;
        let append_segment = if tag == 0 {
            None
        } else if tag == 1 {
            let segment_sequence: u32 = decoder.u32("append segment_sequence")?;
            let segment_offset: u64 = decoder.u64("append segment_offset")?;
            Some(AppendSegment { segment_sequence, segment_offset })
        } else {
            return Err(
                PublishRecordError::InvalidOptionalTag { field: "append_segment", value: tag },
            );
        };
        decoder.finish()?;
        let record = Self {
            physical_owner_revision_id,
            physical_object_index,
            object_key,
            logical_offset,
            offset,
            length,
            digest_uri,
            append_segment,
        };
        record.validate()?;
        Ok(record)
    }
}

/// Strict reader over one publication value.
struct Decoder<'a> {
    encoded: &'a [u8],
    offset: usize,
}

impl<'a> Decoder<'a> {
    /// The offset never passes the end.
    spec fn inv(self) -> bool {
        self.offset <= self.encoded@.len()
    }

    /// The bytes that have not been read.
    spec fn rest(self) -> Seq<u8> {
        self.encoded@.skip(self.offset as int)
    }

    fn new(encoded: &'a [u8]) -> (decoder: Self)
        ensures
            decoder.inv(),
            decoder.rest() == encoded@,
    {
        assert(encoded@.skip(0) =~= encoded@);
        Self { encoded, offset: 0 }
    }

    fn require_value_version(&mut self) -> (result: Result<u8, PublishRecordError>)
        requires
            old(self).inv(),
        ensures
            final(self).inv(),
            read_plain(parse_format(old(self).rest()), result, final(self).rest()),
    {
        let actual: u8 = self.u8("value_format_version")?;
        if actual == PUBLISH_VALUE_FORMAT_VERSION {
            Ok(actual)
        } else {
            Err(
                PublishRecordError::UnsupportedValueVersion {
                    actual,
                    expected: PUBLISH_VALUE_FORMAT_VERSION,
                },
            )
        }
    }

    fn u8(&mut self, field: &'static str) -> (result: Result<u8, PublishRecordError>)
        requires
            old(self).inv(),
        ensures
            final(self).inv(),
            read_plain(parse_u8(old(self).rest(), field), result, final(self).rest()),
    {
        Ok(self.take(field, 1)?[0])
    }

    fn u32(&mut self, field: &'static str) -> (result: Result<u32, PublishRecordError>)
        requires
            old(self).inv(),
        ensures
            final(self).inv(),
            read_plain(parse_u32(old(self).rest(), field), result, final(self).rest()),
    {
        Ok(bytes::read_u32(self.take(field, 4)?))
    }

    fn u64(&mut self, field: &'static str) -> (result: Result<u64, PublishRecordError>)
        requires
            old(self).inv(),
        ensures
            final(self).inv(),
            read_plain(parse_u64(old(self).rest(), field), result, final(self).rest()),
    {
        Ok(bytes::read_u64(self.take(field, 8)?))
    }

    fn generation(&mut self, field: &'static str) -> (result: Result<
        Generation,
        PublishRecordError,
    >)
        requires
            old(self).inv(),
        ensures
            final(self).inv(),
            read_as(parse_position(old(self).rest(), field), result, final(self).rest()),
    {
        match Generation::new(self.u64(field)?) {
            Ok(generation) => Ok(generation),
            Err(_) => Err(PublishRecordError::ZeroScalar { field }),
        }
    }

    fn fixed<const N: usize>(&mut self, field: &'static str) -> (result: Result<
        [u8; N],
        PublishRecordError,
    >)
        requires
            old(self).inv(),
        ensures
            final(self).inv(),
            read_as(take_field(old(self).rest(), field, N as nat), result, final(self).rest()),
    {
        Ok(bytes::array_from::<N>(self.take(field, N)?))
    }

    fn bytes(&mut self, field: &'static str, max: usize) -> (result: Result<
        Vec<u8>,
        PublishRecordError,
    >)
        requires
            old(self).inv(),
        ensures
            final(self).inv(),
            read_as(parse_bytes(old(self).rest(), field, max), result, final(self).rest()),
    {
        let length: usize = self.u32(field)? as usize;
        if length > max {
            return Err(PublishRecordError::FieldTooLong { field, length, max });
        }
        Ok(vstd::slice::slice_to_vec(self.take(field, length)?))
    }

    fn string(&mut self, field: &'static str, max: usize) -> (result: Result<
        String,
        PublishRecordError,
    >)
        requires
            old(self).inv(),
        ensures
            final(self).inv(),
            match result {
                Ok(value) => parse_text(old(self).rest(), field, max) == Ok::<
                    (Seq<u8>, Seq<u8>),
                    PublishFailure,
                >((bytes::utf8(value@), final(self).rest())),
                Err(e) => parse_text(old(self).rest(), field, max) == Err::<
                    (Seq<u8>, Seq<u8>),
                    PublishFailure,
                >(e.model()),
            },
    {
        let value = self.bytes(field, max)?;
        match bytes::text_from_bytes(value.as_slice()) {
            Some(value) => Ok(value),
            None => Err(PublishRecordError::InvalidUtf8 { field }),
        }
    }

    fn optional_bytes(&mut self, field: &'static str, max: usize) -> (result: Result<
        Option<Vec<u8>>,
        PublishRecordError,
    >)
        requires
            old(self).inv(),
        ensures
            final(self).inv(),
            read_option_as(
                parse_optional_bytes(old(self).rest(), field, max),
                result,
                final(self).rest(),
            ),
    {
        let tag: u8 = self.u8(field)?;
        if tag == 0 {
            Ok(None)
        } else if tag == 1 {
            Ok(Some(self.bytes(field, max)?))
        } else {
            Err(PublishRecordError::InvalidOptionalTag { field, value: tag })
        }
    }

    fn optional_digest(&mut self, field: &'static str) -> (result: Result<
        Option<[u8; 32]>,
        PublishRecordError,
    >)
        requires
            old(self).inv(),
        ensures
            final(self).inv(),
            read_option_as(
                parse_optional_digest(old(self).rest(), field),
                result,
                final(self).rest(),
            ),
    {
        let tag: u8 = self.u8(field)?;
        if tag == 0 {
            Ok(None)
        } else if tag == 1 {
            Ok(Some(self.fixed::<32>(field)?))
        } else {
            Err(PublishRecordError::InvalidOptionalTag { field, value: tag })
        }
    }

    fn take(&mut self, field: &'static str, length: usize) -> (result: Result<
        &'a [u8],
        PublishRecordError,
    >)
        requires
            old(self).inv(),
        ensures
            final(self).inv(),
            read_as(take_field(old(self).rest(), field, length as nat), result, final(self).rest()),
            result matches Ok(value) ==> value@.len() == length,
    {
        proof {
            reveal(take_field);
        }
        let remaining: usize = self.encoded.len() - self.offset;
        if remaining < length {
            return Err(PublishRecordError::Truncated { field, needed: length, remaining });
        }
        let end: usize = self.offset + length;
        let value = vstd::slice::slice_subrange(self.encoded, self.offset, end);
        proof {
            assert(value@ =~= self.rest().take(length as int));
            assert(self.encoded@.skip(end as int) =~= self.rest().skip(length as int));
        }
        self.offset = end;
        Ok(value)
    }

    fn finish(&self) -> (result: Result<(), PublishRecordError>)
        requires
            self.inv(),
        ensures
            publish_validate::checked(result) == end_check(self.rest()),
    {
        let count: usize = self.encoded.len() - self.offset;
        if count == 0 {
            Ok(())
        } else {
            Err(PublishRecordError::TrailingBytes { count })
        }
    }
}

} // verus!
