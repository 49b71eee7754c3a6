//! Publication records: codecs, transitions, and bounds.

use nokv_meta::ids::{ArtifactRevisionId, OperationId, WorkspaceIncarnationId, SHA256_BYTES};
use nokv_meta::names::{NormalizedRelativePath, WorkbenchId};
use nokv_meta::positions::{Generation, OwnerEpoch, WorkspaceRevision};
use nokv_meta::publish_records::{
    AppendSegment, ArtifactManifestRow, ManifestPosition, PublishAuthority, PublishClaim,
    PublishOperationRecord, PublishRecordError, PublishResult, PublishTerminalError,
    PublishTerminalErrorKind, PublishTransition, StagedObjectRecord, MAX_DEPENDENCY_COUNT,
    MAX_MULTIPART_ID_BYTES, MAX_PUBLISH_OPERATION_RECORD_BYTES, MAX_STAGED_OBJECTS,
    PUBLISH_VALUE_FORMAT_VERSION,
};
use nokv_meta::states::{PublishPhase, StagedCleanupState, StagedProviderState};

fn generation(value: u64) -> Generation {
    Generation::new(value).unwrap()
}

fn revision(fill: u8) -> ArtifactRevisionId {
    ArtifactRevisionId::from_bytes([fill; 16])
}

fn object_key(revision_fill: u8) -> String {
    format!(
        "nokv/artifacts/{}/{}/{}/blocks/{}",
        "11".repeat(16),
        "33".repeat(16),
        format!("{revision_fill:02x}").repeat(16),
        "0000000000000002"
    )
}

fn terminal_error() -> PublishTerminalError {
    PublishTerminalError {
        kind: PublishTerminalErrorKind::UploadFailed,
        message: "provider rejected upload".to_owned(),
        evidence_digest: None,
    }
}

fn result() -> PublishResult {
    PublishResult {
        path_generation: generation(8),
        workspace_revision: WorkspaceRevision::new(9),
        logical_size: 8_192,
        body_digest_uri: "sha256:abc".to_owned(),
    }
}

fn uploading_operation() -> PublishOperationRecord {
    PublishOperationRecord {
        operation_id: OperationId::from_bytes([0x10; 16]),
        identity_digest: [0x11; SHA256_BYTES],
        initialization_digest: [0x12; SHA256_BYTES],
        initiating_owner_epoch: OwnerEpoch::new(5).unwrap(),
        activity_deadline_ms: 50_000,
        authority: PublishAuthority::Visible,
        workbench_id: WorkbenchId::new("agent-run").unwrap(),
        workspace_incarnation_id: WorkspaceIncarnationId::from_bytes([0x13; 16]),
        path: NormalizedRelativePath::new("outputs/result.bin").unwrap(),
        artifact_revision_id: revision(0x14),
        claim: PublishClaim::Append {
            expected_generation: generation(7),
            base_revision_id: revision(0x15),
            append_offset: 4_096,
        },
        phase: PublishPhase::Uploading,
        staged_object_count: 1,
        staged_object_seal: [0x16; SHA256_BYTES],
        staged_object_cursor: 0,
        staged_object_rolling_digest: [0; SHA256_BYTES],
        uploaded_object_cursor: 0,
        uploaded_object_rolling_digest: [0; SHA256_BYTES],
        manifest_row_count: 2,
        manifest_seal: [0x17; SHA256_BYTES],
        manifest_cursor: 0,
        manifest_rolling_digest: [0; SHA256_BYTES],
        manifest_last_position: None,
        dependency_count: 1,
        dependency_depth: 1,
        dependency_digest: [0x18; SHA256_BYTES],
        cleanup_staged_object_cursor: 0,
        cleanup_manifest_cursor: 0,
        publication_absence_proof: None,
        result: None,
        terminal_error: None,
    }
}

fn complete_publication_closure(record: &mut PublishOperationRecord) {
    record.staged_object_cursor = record.staged_object_count;
    record.staged_object_rolling_digest = record.staged_object_seal;
    record.uploaded_object_cursor = record.staged_object_count;
    record.uploaded_object_rolling_digest = record.staged_object_seal;
    record.manifest_cursor = record.manifest_row_count;
    record.manifest_rolling_digest = record.manifest_seal;
    record.manifest_last_position =
        (record.manifest_row_count > 0).then_some(ManifestPosition { object_index: 11 });
}

fn assert_every_proper_prefix_is_truncated<T>(
    encoded: &[u8],
    decode: impl Fn(&[u8]) -> Result<T, PublishRecordError>,
) {
    for length in 0..encoded.len() {
        assert!(
            matches!(
                decode(&encoded[..length]),
                Err(PublishRecordError::Truncated { .. })
            ),
            "prefix length {length} was not rejected as truncated: {:?}",
            decode(&encoded[..length]).err()
        );
    }
}

fn assert_trailing_byte_is_rejected<T: std::fmt::Debug>(
    mut encoded: Vec<u8>,
    decode: impl Fn(&[u8]) -> Result<T, PublishRecordError>,
) {
    encoded.push(0);
    assert_eq!(
        decode(&encoded).unwrap_err(),
        PublishRecordError::TrailingBytes { count: 1 }
    );
}

#[test]
fn publish_operation_codec_has_frozen_golden_bytes() {
    let mut record = uploading_operation();
    complete_publication_closure(&mut record);
    record.phase = PublishPhase::Published;
    record.result = Some(result());

    let expected = [
        &[PUBLISH_VALUE_FORMAT_VERSION][..],
        &[0x10; 16],
        &[0x11; SHA256_BYTES],
        &[0x12; SHA256_BYTES],
        &5_u64.to_be_bytes(),
        &50_000_u64.to_be_bytes(),
        &[1],
        &9_u32.to_be_bytes(),
        b"agent-run",
        &[0x13; 16],
        &18_u32.to_be_bytes(),
        b"outputs/result.bin",
        &[0x14; 16],
        &[3],
        &7_u64.to_be_bytes(),
        &[0x15; 16],
        &4_096_u64.to_be_bytes(),
        &[3],
        &1_u32.to_be_bytes(),
        &[0x16; SHA256_BYTES],
        &1_u32.to_be_bytes(),
        &[0x16; SHA256_BYTES],
        &1_u32.to_be_bytes(),
        &[0x16; SHA256_BYTES],
        &2_u32.to_be_bytes(),
        &[0x17; SHA256_BYTES],
        &2_u32.to_be_bytes(),
        &[0x17; SHA256_BYTES],
        &[1],
        &11_u64.to_be_bytes(),
        &[1, 1],
        &[0x18; SHA256_BYTES],
        &0_u32.to_be_bytes(),
        &0_u32.to_be_bytes(),
        &[0],
        &[1],
        &8_u64.to_be_bytes(),
        &9_u64.to_be_bytes(),
        &8_192_u64.to_be_bytes(),
        &10_u32.to_be_bytes(),
        b"sha256:abc",
        &[0],
    ]
    .concat();

    assert_eq!(record.encode().unwrap(), expected);
    assert_eq!(PublishOperationRecord::decode(&expected).unwrap(), record);
    assert_every_proper_prefix_is_truncated(&expected, PublishOperationRecord::decode);
    assert_trailing_byte_is_rejected(expected, PublishOperationRecord::decode);
}

#[test]
fn staged_object_codec_has_frozen_golden_bytes() {
    let record = StagedObjectRecord {
        artifact_revision_id: revision(0x22),
        object_sequence: 7,
        object_key: object_key(0x22),
        multipart_upload_id: Some(b"upload-1".to_vec()),
        expected_length: 4_096,
        expected_digest_uri: "sha256:block".to_owned(),
        provider_state: StagedProviderState::Uploaded,
        cleanup_state: StagedCleanupState::Owned,
    };
    let key = object_key(0x22);
    let expected = [
        &[PUBLISH_VALUE_FORMAT_VERSION][..],
        &[0x22; 16],
        &7_u32.to_be_bytes(),
        &(key.len() as u32).to_be_bytes(),
        key.as_bytes(),
        &[1],
        &8_u32.to_be_bytes(),
        b"upload-1",
        &4_096_u64.to_be_bytes(),
        &12_u32.to_be_bytes(),
        b"sha256:block",
        &[3, 1],
    ]
    .concat();

    assert_eq!(record.encode().unwrap(), expected);
    assert_eq!(StagedObjectRecord::decode(&expected).unwrap(), record);
    assert_every_proper_prefix_is_truncated(&expected, StagedObjectRecord::decode);
    assert_trailing_byte_is_rejected(expected, StagedObjectRecord::decode);
}

#[test]
fn artifact_manifest_codec_has_frozen_golden_bytes() {
    let record = ArtifactManifestRow {
        physical_owner_revision_id: revision(0x44),
        physical_object_index: 2,
        object_key: object_key(0x44),
        logical_offset: 3,
        offset: 5,
        length: 9,
        digest_uri: "xxh3-64:beef".to_owned(),
        append_segment: Some(AppendSegment {
            segment_sequence: 7,
            segment_offset: 11,
        }),
    };
    let key = object_key(0x44);
    let expected = [
        &[PUBLISH_VALUE_FORMAT_VERSION][..],
        &[0x44; 16],
        &2_u64.to_be_bytes(),
        &(key.len() as u32).to_be_bytes(),
        key.as_bytes(),
        &3_u64.to_be_bytes(),
        &5_u64.to_be_bytes(),
        &9_u64.to_be_bytes(),
        &12_u32.to_be_bytes(),
        b"xxh3-64:beef",
        &[1],
        &7_u32.to_be_bytes(),
        &11_u64.to_be_bytes(),
    ]
    .concat();

    assert_eq!(record.encode().unwrap(), expected);
    assert_eq!(ArtifactManifestRow::decode(&expected).unwrap(), record);
    assert_every_proper_prefix_is_truncated(&expected, ArtifactManifestRow::decode);
    assert_trailing_byte_is_rejected(expected, ArtifactManifestRow::decode);

    let mut previous_version = record.encode().unwrap();
    previous_version[0] = PUBLISH_VALUE_FORMAT_VERSION - 1;
    assert_eq!(
        ArtifactManifestRow::decode(&previous_version).unwrap_err(),
        PublishRecordError::UnsupportedValueVersion {
            actual: PUBLISH_VALUE_FORMAT_VERSION - 1,
            expected: PUBLISH_VALUE_FORMAT_VERSION,
        }
    );
}

#[test]
fn successful_publication_transition_chain_is_exact() {
    let mut record = uploading_operation();
    complete_publication_closure(&mut record);
    record
        .apply_transition(
            PublishPhase::Uploading,
            PublishTransition::BeginFinalization,
        )
        .unwrap();
    record
        .apply_transition(
            PublishPhase::Finalizing,
            PublishTransition::Publish { result: result() },
        )
        .unwrap();

    assert_eq!(record.phase, PublishPhase::Published);
    assert_eq!(record.result, Some(result()));
    assert!(record.terminal_error.is_none());
    assert!(record.publication_absence_proof.is_none());
}

#[test]
fn abort_cleanup_transition_chain_is_exact() {
    let mut record = uploading_operation();
    record.staged_object_cursor = 1;
    record.staged_object_rolling_digest = record.staged_object_seal;
    record.manifest_cursor = 1;
    record.manifest_rolling_digest = [0x19; SHA256_BYTES];
    record.manifest_last_position = Some(ManifestPosition { object_index: 0 });
    record
        .apply_transition(
            PublishPhase::Uploading,
            PublishTransition::BeginAbort {
                terminal_error: terminal_error(),
            },
        )
        .unwrap();
    record
        .apply_transition(PublishPhase::Aborting, PublishTransition::BeginCleaning)
        .unwrap();
    record.cleanup_staged_object_cursor = 1;
    record.cleanup_manifest_cursor = 1;
    record
        .apply_transition(PublishPhase::Cleaning, PublishTransition::FinishCleanup)
        .unwrap();

    assert_eq!(record.phase, PublishPhase::Cleaned);
    assert_eq!(record.cleanup_staged_object_cursor, 1);
    assert_eq!(record.cleanup_manifest_cursor, 1);
    assert_eq!(record.terminal_error, Some(terminal_error()));
}

#[test]
fn metadata_owned_finalizing_takeover_retains_absence_proof() {
    let mut record = uploading_operation();
    complete_publication_closure(&mut record);
    record
        .apply_transition(
            PublishPhase::Uploading,
            PublishTransition::BeginFinalization,
        )
        .unwrap();
    record
        .take_over_finalization([0xaa; SHA256_BYTES], terminal_error())
        .unwrap();

    assert_eq!(record.phase, PublishPhase::Aborting);
    assert_eq!(record.publication_absence_proof, Some([0xaa; SHA256_BYTES]));
}

#[test]
fn finalizing_and_aborting_are_single_winner_from_uploading() {
    let mut finalize_winner = uploading_operation();
    complete_publication_closure(&mut finalize_winner);
    finalize_winner
        .apply_transition(
            PublishPhase::Uploading,
            PublishTransition::BeginFinalization,
        )
        .unwrap();
    assert_eq!(
        finalize_winner
            .apply_transition(
                PublishPhase::Uploading,
                PublishTransition::BeginAbort {
                    terminal_error: terminal_error(),
                },
            )
            .unwrap_err(),
        PublishRecordError::PhaseMismatch {
            expected: PublishPhase::Uploading,
            actual: PublishPhase::Finalizing,
        }
    );

    let mut abort_winner = uploading_operation();
    abort_winner
        .apply_transition(
            PublishPhase::Uploading,
            PublishTransition::BeginAbort {
                terminal_error: terminal_error(),
            },
        )
        .unwrap();
    assert_eq!(
        abort_winner
            .apply_transition(
                PublishPhase::Uploading,
                PublishTransition::BeginFinalization,
            )
            .unwrap_err(),
        PublishRecordError::PhaseMismatch {
            expected: PublishPhase::Uploading,
            actual: PublishPhase::Aborting,
        }
    );
}

#[test]
fn illegal_phase_edges_and_incomplete_cursors_are_rejected_without_mutation() {
    let mut record = uploading_operation();
    let original = record.clone();
    assert!(matches!(
        record.apply_transition(
            PublishPhase::Uploading,
            PublishTransition::BeginFinalization,
        ),
        Err(PublishRecordError::InvalidPhasePayload { .. })
    ));
    assert_eq!(record, original);

    assert_eq!(
        record
            .apply_transition(PublishPhase::Uploading, PublishTransition::FinishCleanup,)
            .unwrap_err(),
        PublishRecordError::InvalidPhaseTransition {
            from: PublishPhase::Uploading,
            to: PublishPhase::Cleaned,
        }
    );
    assert_eq!(record, original);
}

#[test]
fn quarantine_requires_reconciliation_evidence() {
    let mut record = uploading_operation();
    record
        .apply_transition(
            PublishPhase::Uploading,
            PublishTransition::BeginAbort {
                terminal_error: terminal_error(),
            },
        )
        .unwrap();
    record
        .apply_transition(PublishPhase::Aborting, PublishTransition::BeginCleaning)
        .unwrap();
    let before = record.clone();
    assert!(matches!(
        record.apply_transition(
            PublishPhase::Cleaning,
            PublishTransition::Quarantine {
                terminal_error: terminal_error(),
            },
        ),
        Err(PublishRecordError::InvalidPhasePayload {
            phase: PublishPhase::Quarantined,
            ..
        })
    ));
    assert_eq!(record, before);

    let quarantined = PublishTerminalError {
        kind: PublishTerminalErrorKind::ProviderAmbiguous,
        message: "provider outcome is ambiguous".to_owned(),
        evidence_digest: Some([0xee; SHA256_BYTES]),
    };
    record
        .apply_transition(
            PublishPhase::Cleaning,
            PublishTransition::Quarantine {
                terminal_error: quarantined.clone(),
            },
        )
        .unwrap();
    assert_eq!(record.phase, PublishPhase::Quarantined);
    assert_eq!(record.terminal_error, Some(quarantined));
}

#[test]
fn count_cursor_and_dependency_bounds_fail_closed() {
    let mut operation = uploading_operation();
    operation.staged_object_count = MAX_STAGED_OBJECTS + 1;
    assert!(matches!(
        operation.encode(),
        Err(PublishRecordError::CountOutOfRange {
            field: "staged_object_count",
            ..
        })
    ));

    let mut operation = uploading_operation();
    operation.staged_object_cursor = 2;
    assert_eq!(
        operation.encode().unwrap_err(),
        PublishRecordError::CursorOutOfRange {
            field: "staged_object_cursor",
            cursor: 2,
            count: 1,
        }
    );

    let mut operation = uploading_operation();
    operation.dependency_count = MAX_DEPENDENCY_COUNT + 1;
    assert_eq!(
        operation.encode().unwrap_err(),
        PublishRecordError::InvalidDependencyShape {
            count: MAX_DEPENDENCY_COUNT + 1,
            depth: 1,
        }
    );

    let mut operation = uploading_operation();
    operation.dependency_count = 0;
    assert_eq!(
        operation.encode().unwrap_err(),
        PublishRecordError::InvalidDependencyShape { count: 0, depth: 1 }
    );
}

#[test]
fn progress_digests_and_manifest_position_fail_closed() {
    let mut operation = uploading_operation();
    operation.staged_object_rolling_digest = [0x99; SHA256_BYTES];
    assert_eq!(
        operation.encode().unwrap_err(),
        PublishRecordError::InvalidProgress {
            field: "staged_object",
            reason: "cursor zero requires the zero rolling digest",
        }
    );

    let mut operation = uploading_operation();
    operation.staged_object_cursor = 1;
    operation.staged_object_rolling_digest = [0x99; SHA256_BYTES];
    assert_eq!(
        operation.encode().unwrap_err(),
        PublishRecordError::InvalidProgress {
            field: "staged_object",
            reason: "complete cursor must match the final seal",
        }
    );

    let mut operation = uploading_operation();
    operation.manifest_cursor = 1;
    operation.manifest_rolling_digest = [0x99; SHA256_BYTES];
    assert_eq!(
        operation.encode().unwrap_err(),
        PublishRecordError::InvalidProgress {
            field: "manifest_last_position",
            reason: "must identify the final row at a non-zero cursor",
        }
    );

    let mut operation = uploading_operation();
    operation.manifest_last_position = Some(ManifestPosition { object_index: 0 });
    assert_eq!(
        operation.encode().unwrap_err(),
        PublishRecordError::InvalidProgress {
            field: "manifest_last_position",
            reason: "must be absent at cursor zero",
        }
    );
}

#[test]
fn staged_object_and_manifest_invariants_fail_closed() {
    let mut staged = StagedObjectRecord {
        artifact_revision_id: revision(0x22),
        object_sequence: 0,
        object_key: object_key(0x22),
        multipart_upload_id: None,
        expected_length: 1,
        expected_digest_uri: "sha256:a".to_owned(),
        provider_state: StagedProviderState::Uploaded,
        cleanup_state: StagedCleanupState::Owned,
    };
    staged.object_key = object_key(0x23);
    assert_eq!(
        staged.encode().unwrap_err(),
        PublishRecordError::ObjectKeyRevisionMismatch
    );

    staged.object_key = format!(
        "objects/{}/{}/{}/{}/{}",
        "11".repeat(16),
        "33".repeat(16),
        "22".repeat(16),
        "0000000000000000",
        "0000000000000002"
    );
    assert!(matches!(
        staged.encode(),
        Err(PublishRecordError::InvalidObjectKey { .. })
    ));

    staged.object_key = object_key(0x22);
    staged.cleanup_state = StagedCleanupState::Deleted;
    assert!(matches!(
        staged.encode(),
        Err(PublishRecordError::InvalidStagedStateCombination { .. })
    ));

    let manifest = ArtifactManifestRow {
        physical_owner_revision_id: revision(0x44),
        physical_object_index: 2,
        object_key: object_key(0x44),
        logical_offset: 0,
        offset: u64::MAX,
        length: 1,
        digest_uri: "sha256:a".to_owned(),
        append_segment: None,
    };
    assert_eq!(
        manifest.encode().unwrap_err(),
        PublishRecordError::RangeOverflow {
            field: "object range"
        }
    );

    let mut mismatched_index = manifest;
    mismatched_index.offset = 0;
    mismatched_index.physical_object_index = 3;
    assert_eq!(
        mismatched_index.encode().unwrap_err(),
        PublishRecordError::ObjectKeyIndexMismatch {
            expected: 3,
            actual: 2,
        }
    );
}

#[test]
fn every_codec_rejects_unknown_versions_and_enums() {
    let mut operation = uploading_operation().encode().unwrap();
    operation[0] = PUBLISH_VALUE_FORMAT_VERSION + 1;
    assert_eq!(
        PublishOperationRecord::decode(&operation).unwrap_err(),
        PublishRecordError::UnsupportedValueVersion {
            actual: PUBLISH_VALUE_FORMAT_VERSION + 1,
            expected: PUBLISH_VALUE_FORMAT_VERSION,
        }
    );

    let mut operation = uploading_operation().encode().unwrap();
    let phase_offset = 1
        + 16
        + SHA256_BYTES
        + SHA256_BYTES
        + 8
        + 8
        + 1
        + 4
        + "agent-run".len()
        + 16
        + 4
        + 18
        + 16
        + 1
        + 8
        + 16
        + 8;
    operation[phase_offset] = 0xff;
    assert_eq!(
        PublishOperationRecord::decode(&operation).unwrap_err(),
        PublishRecordError::UnknownDiscriminant {
            durable_type: "PublishPhase",
            value: 0xff,
        }
    );

    let staged = StagedObjectRecord {
        artifact_revision_id: revision(0x22),
        object_sequence: 0,
        object_key: object_key(0x22),
        multipart_upload_id: None,
        expected_length: 1,
        expected_digest_uri: "sha256:a".to_owned(),
        provider_state: StagedProviderState::Uploaded,
        cleanup_state: StagedCleanupState::Owned,
    };
    let mut encoded = staged.encode().unwrap();
    let provider_offset = encoded.len() - 2;
    encoded[provider_offset] = 0xff;
    assert_eq!(
        StagedObjectRecord::decode(&encoded).unwrap_err(),
        PublishRecordError::UnknownDiscriminant {
            durable_type: "StagedProviderState",
            value: 0xff,
        }
    );

    let mut encoded = staged.encode().unwrap();
    let cleanup_offset = encoded.len() - 1;
    encoded[cleanup_offset] = 0xff;
    assert_eq!(
        StagedObjectRecord::decode(&encoded).unwrap_err(),
        PublishRecordError::UnknownDiscriminant {
            durable_type: "StagedCleanupState",
            value: 0xff,
        }
    );
}

#[test]
fn unknown_claim_error_and_optional_discriminants_fail_closed() {
    let mut create = uploading_operation();
    create.claim = PublishClaim::CreateOnly;
    let mut encoded = create.encode().unwrap();
    let claim_offset = 1
        + 16
        + SHA256_BYTES
        + SHA256_BYTES
        + 8
        + 8
        + 1
        + 4
        + "agent-run".len()
        + 16
        + 4
        + 18
        + 16;
    encoded[claim_offset] = 0xff;
    assert_eq!(
        PublishOperationRecord::decode(&encoded).unwrap_err(),
        PublishRecordError::UnknownDiscriminant {
            durable_type: "PublishClaim",
            value: 0xff,
        }
    );

    let mut aborting = uploading_operation();
    aborting.phase = PublishPhase::Aborting;
    aborting.terminal_error = Some(terminal_error());
    let mut encoded = aborting.encode().unwrap();
    let terminal_kind_offset = encoded.len() - (1 + 4 + terminal_error().message.len() + 1);
    encoded[terminal_kind_offset] = 0xff;
    assert_eq!(
        PublishOperationRecord::decode(&encoded).unwrap_err(),
        PublishRecordError::UnknownDiscriminant {
            durable_type: "PublishTerminalErrorKind",
            value: 0xff,
        }
    );

    let manifest = ArtifactManifestRow {
        physical_owner_revision_id: revision(0x44),
        physical_object_index: 2,
        object_key: object_key(0x44),
        logical_offset: 0,
        offset: 0,
        length: 1,
        digest_uri: "sha256:a".to_owned(),
        append_segment: None,
    };
    let mut encoded = manifest.encode().unwrap();
    let tag_offset = encoded.len() - 1;
    encoded[tag_offset] = 2;
    assert_eq!(
        ArtifactManifestRow::decode(&encoded).unwrap_err(),
        PublishRecordError::InvalidOptionalTag {
            field: "append_segment",
            value: 2,
        }
    );
}

#[test]
fn oversized_fields_and_records_fail_before_allocation_or_acceptance() {
    let staged = StagedObjectRecord {
        artifact_revision_id: revision(0x22),
        object_sequence: 0,
        object_key: object_key(0x22),
        multipart_upload_id: Some(vec![0; MAX_MULTIPART_ID_BYTES + 1]),
        expected_length: 1,
        expected_digest_uri: "sha256:a".to_owned(),
        provider_state: StagedProviderState::Uploading,
        cleanup_state: StagedCleanupState::Owned,
    };
    assert!(matches!(
        staged.encode(),
        Err(PublishRecordError::FieldTooLong {
            field: "multipart_upload_id",
            ..
        })
    ));

    let oversized = vec![0; MAX_PUBLISH_OPERATION_RECORD_BYTES + 1];
    assert_eq!(
        PublishOperationRecord::decode(&oversized).unwrap_err(),
        PublishRecordError::RecordTooLarge {
            record: "PublishOperationRecord",
            length: MAX_PUBLISH_OPERATION_RECORD_BYTES + 1,
            max: MAX_PUBLISH_OPERATION_RECORD_BYTES,
        }
    );
}
