//! Records that are refused, and why.

use nokv_meta::generic_index_records::{
    GenericIndexAppendReceiptRecord, GenericIndexFieldCapability, GenericIndexFieldValues,
    GenericIndexGenerationRecord, GenericIndexOperator, GenericIndexRecordError,
    GenericIndexRowBinding, GenericIndexRowRecord,
};
use nokv_meta::generic_index_validate::empty_generic_index_row_digest;
use nokv_meta::ids::{ArtifactRevisionId, OperationId, WorkspaceIncarnationId};
use nokv_meta::names::{NormalizedRelativePath, QueryFieldId, WorkbenchId};
use nokv_meta::positions::{
    CommitVersion, Generation, OwnerEpoch, ReferenceEpoch, WorkspaceRevision,
};
use nokv_meta::publish_records::{
    PublishAuthority, PublishClaim, PublishOperationRecord, PublishRecordError, PublishResult,
    PublishTerminalError, PublishTerminalErrorKind, StagedObjectRecord,
};
use nokv_meta::records::{CurrentValue, HistoryValue, RecordCodecError};
use nokv_meta::scalars::{FiniteFloat, QueryScalar};
use nokv_meta::states::{
    GenericIndexGenerationState, PublishPhase, StagedCleanupState, StagedProviderState,
};

fn version(value: u64) -> CommitVersion {
    CommitVersion::new(value).unwrap()
}

fn field(value: &str) -> QueryFieldId {
    QueryFieldId::new(value).unwrap()
}

fn staged() -> StagedObjectRecord {
    StagedObjectRecord {
        artifact_revision_id: ArtifactRevisionId::from_bytes([0x22; 16]),
        object_sequence: 0,
        object_key: format!(
            "nokv/artifacts/{}/{}/{}/blocks/{}",
            "11".repeat(16),
            "33".repeat(16),
            "22".repeat(16),
            "0000000000000002"
        ),
        multipart_upload_id: None,
        expected_length: 1,
        expected_digest_uri: "sha256:a".to_owned(),
        provider_state: StagedProviderState::Uploaded,
        cleanup_state: StagedCleanupState::Owned,
    }
}

fn operation() -> PublishOperationRecord {
    PublishOperationRecord {
        operation_id: OperationId::from_bytes([0x10; 16]),
        identity_digest: [0x11; 32],
        initialization_digest: [0x12; 32],
        initiating_owner_epoch: OwnerEpoch::new(5).unwrap(),
        activity_deadline_ms: 50_000,
        authority: PublishAuthority::Visible,
        workbench_id: WorkbenchId::new("run").unwrap(),
        workspace_incarnation_id: WorkspaceIncarnationId::from_bytes([0x13; 16]),
        path: NormalizedRelativePath::new("out").unwrap(),
        artifact_revision_id: ArtifactRevisionId::from_bytes([0x14; 16]),
        claim: PublishClaim::CreateOnly,
        phase: PublishPhase::Uploading,
        staged_object_count: 1,
        staged_object_seal: [0x16; 32],
        staged_object_cursor: 0,
        staged_object_rolling_digest: [0; 32],
        uploaded_object_cursor: 0,
        uploaded_object_rolling_digest: [0; 32],
        manifest_row_count: 2,
        manifest_seal: [0x17; 32],
        manifest_cursor: 0,
        manifest_rolling_digest: [0; 32],
        manifest_last_position: None,
        dependency_count: 0,
        dependency_depth: 0,
        dependency_digest: [0x18; 32],
        cleanup_staged_object_cursor: 0,
        cleanup_manifest_cursor: 0,
        publication_absence_proof: None,
        result: None,
        terminal_error: None,
    }
}

fn generation() -> GenericIndexGenerationRecord {
    GenericIndexGenerationRecord {
        capabilities: vec![GenericIndexFieldCapability {
            field: field("run.status"),
            operators: vec![GenericIndexOperator::Equal],
            sortable: true,
            facetable: true,
        }],
        declared_row_count: 0,
        appended_row_count: 0,
        rolling_row_digest: empty_generic_index_row_digest(),
        reference_count: 1,
        reference_epoch: ReferenceEpoch::new(1),
        last_zero_reference_version: None,
        state: GenericIndexGenerationState::Sealed,
    }
}

fn row(values: Vec<QueryScalar>) -> GenericIndexRowRecord {
    GenericIndexRowRecord {
        relative_path: Some(NormalizedRelativePath::new("a.json").unwrap()),
        binding: GenericIndexRowBinding::Directory,
        values: vec![GenericIndexFieldValues {
            field: field("run.score"),
            values,
        }],
    }
}

#[test]
fn values_are_not_modified_before_they_are_created() {
    let current = CurrentValue {
        created_version: version(3),
        modified_version: version(2),
        payload: Vec::new(),
    };
    assert_eq!(
        current.encode(),
        Err(RecordCodecError::InvalidVersionOrder {
            created: 3,
            modified: 2
        })
    );
    let history = HistoryValue {
        transition_version: version(4),
        previous_created_version: version(3),
        previous_modified_version: version(4),
        previous_payload: None,
    };
    assert_eq!(
        history.encode(),
        Err(RecordCodecError::InvalidHistoryTransition {
            transition: 4,
            previous_modified: 4
        })
    );
    assert_eq!(
        RecordCodecError::TrailingBytes { count: 2 }.message(),
        "durable value has 2 trailing bytes"
    );
}

#[test]
fn staged_objects_name_their_digests() {
    let mut empty = staged();
    empty.expected_digest_uri = String::new();
    assert_eq!(
        empty.encode(),
        Err(PublishRecordError::EmptyField {
            field: "expected_digest_uri"
        })
    );
    let mut spaced = staged();
    spaced.expected_digest_uri = "sha256: a".to_owned();
    assert_eq!(
        spaced.encode(),
        Err(PublishRecordError::InvalidAsciiField {
            field: "expected_digest_uri"
        })
    );
    let mut encoded = staged().encode().unwrap();
    let text = encoded.len() - 3;
    encoded[text] = 0xff;
    assert_eq!(
        StagedObjectRecord::decode(&encoded),
        Err(PublishRecordError::InvalidUtf8 {
            field: "expected_digest_uri"
        })
    );
}

#[test]
fn operations_name_a_workbench_and_a_path() {
    let encoded = operation().encode().unwrap();
    let workbench = 1 + 16 + 32 + 32 + 8 + 8 + 1 + 4;
    let mut renamed = encoded.clone();
    renamed[workbench - 1] = 0;
    renamed.drain(workbench..workbench + 3);
    assert!(matches!(
        PublishOperationRecord::decode(&renamed),
        Err(PublishRecordError::InvalidWorkbenchId { .. })
    ));
    let path = workbench + 3 + 16 + 4;
    let mut moved = encoded.clone();
    moved[path] = b'/';
    assert!(matches!(
        PublishOperationRecord::decode(&moved),
        Err(PublishRecordError::InvalidPath { .. })
    ));
    let epoch = 1 + 16 + 32 + 32;
    let mut unowned = encoded;
    unowned[epoch..epoch + 8].fill(0);
    assert_eq!(
        PublishOperationRecord::decode(&unowned),
        Err(PublishRecordError::ZeroScalar {
            field: "initiating_owner_epoch"
        })
    );
}

#[test]
fn published_operations_keep_only_their_result() {
    let mut published = operation();
    published.phase = PublishPhase::Published;
    published.result = Some(PublishResult {
        path_generation: Generation::new(1).unwrap(),
        workspace_revision: WorkspaceRevision::new(1),
        logical_size: 1,
        body_digest_uri: "sha256:abc".to_owned(),
    });
    published.terminal_error = Some(PublishTerminalError {
        kind: PublishTerminalErrorKind::UploadFailed,
        message: "late".to_owned(),
        evidence_digest: None,
    });
    assert!(matches!(
        published.validate(),
        Err(PublishRecordError::InvalidPhasePayload {
            phase: PublishPhase::Published,
            ..
        })
    ));
    assert_eq!(
        PublishRecordError::<String>::TrailingBytes { count: 2 }.message(),
        "publication value has 2 trailing bytes"
    );
}

#[test]
fn row_values_are_texts_numbers_and_floats() {
    assert_eq!(
        row(Vec::new()).encode(),
        Err(GenericIndexRecordError::EmptyFieldValues {
            field: "run.score".to_owned()
        })
    );
    assert_eq!(
        row(vec![QueryScalar::Boolean(true)]).encode(),
        Err(GenericIndexRecordError::UnsupportedScalarType {
            field: "run.score".to_owned(),
            scalar_type: "boolean"
        })
    );
    let one = FiniteFloat::from_bits(1.0_f64.to_bits()).unwrap();
    let mut encoded = row(vec![QueryScalar::Float(one)]).encode().unwrap();
    let bits = encoded.len() - 8;
    encoded[bits..].copy_from_slice(&f64::INFINITY.to_bits().to_be_bytes());
    assert_eq!(
        GenericIndexRowRecord::decode(&encoded),
        Err(GenericIndexRecordError::NonFiniteFloat)
    );
    let mut text = row(vec![QueryScalar::String("x".to_owned())])
        .encode()
        .unwrap();
    let last = text.len() - 1;
    text[last] = 0xff;
    assert!(matches!(
        GenericIndexRowRecord::decode(&text),
        Err(GenericIndexRecordError::InvalidUtf8 { .. })
    ));
}

#[test]
fn rows_name_canonical_paths_and_fields() {
    let encoded = row(vec![QueryScalar::Unsigned(1)]).encode().unwrap();
    let mut tagged = encoded.clone();
    tagged[1] = 2;
    assert!(matches!(
        GenericIndexRowRecord::decode(&tagged),
        Err(GenericIndexRecordError::InvalidOptionalTag { value: 2, .. })
    ));
    let path = encoded
        .windows(6)
        .position(|window| window == b"a.json")
        .unwrap();
    let mut rooted = encoded.clone();
    rooted[path] = b'/';
    assert!(matches!(
        GenericIndexRowRecord::decode(&rooted),
        Err(GenericIndexRecordError::InvalidPath { .. })
    ));
    let name = encoded
        .windows(9)
        .position(|window| window == b"run.score")
        .unwrap();
    let mut spaced = encoded;
    spaced[name] = b' ';
    assert!(matches!(
        GenericIndexRowRecord::decode(&spaced),
        Err(GenericIndexRecordError::InvalidField { .. })
    ));
}

#[test]
fn generations_account_for_their_rows_and_references() {
    let mut ahead = generation();
    ahead.appended_row_count = 1;
    assert_eq!(
        ahead.encode(),
        Err(GenericIndexRecordError::InvalidGenerationProgress)
    );
    let mut timeless = generation();
    timeless.reference_epoch = ReferenceEpoch::new(0);
    assert!(matches!(
        timeless.encode(),
        Err(GenericIndexRecordError::InvalidGenerationLifetime { .. })
    ));
    let mut flag = generation().encode().unwrap();
    let sortable = 1 + 2 + 2 + 10 + 1 + 1;
    flag[sortable] = 2;
    assert!(matches!(
        GenericIndexGenerationRecord::decode(&flag),
        Err(GenericIndexRecordError::InvalidBoolean { value: 2, .. })
    ));
}

#[test]
fn receipts_cover_the_rows_they_add() {
    let receipt = GenericIndexAppendReceiptRecord {
        first_sequence: 2,
        row_count: 2,
        commit_version: version(7),
        input_digest: [9; 32],
        resulting_row_count: 5,
        resulting_row_digest: [10; 32],
    };
    assert_eq!(
        receipt.encode(),
        Err(GenericIndexRecordError::InvalidAppendReceipt)
    );
    let empty = GenericIndexAppendReceiptRecord {
        row_count: 0,
        resulting_row_count: 2,
        ..receipt
    };
    assert_eq!(
        empty.encode(),
        Err(GenericIndexRecordError::ZeroScalar { field: "row_count" })
    );
}
