//! Generic-index records: codecs, bounds, digests, and seals.

use nokv_meta::generic_index_codec::{
    put_capabilities, put_generic_scalar, put_long_bytes, put_short_bytes, put_u16_count,
};
use nokv_meta::generic_index_digests::{
    advance_generic_index_row_rolling_digest, generic_index_append_batch_digest,
    generic_index_append_input_digest, generic_index_build_commit_owner_digest,
    generic_index_capability_digest, generic_index_commit_owner_digest,
    generic_index_registration_owner_digest, generic_index_restore_owner_digest,
    generic_index_row_digest, verify_generic_index_generation_seal,
};
use nokv_meta::generic_index_records::{
    CommitGenericIndexMemberRecord, GenericIndexAppendReceiptRecord, GenericIndexArtifactBinding,
    GenericIndexCurrentRecord, GenericIndexFieldCapability, GenericIndexFieldValues,
    GenericIndexGenerationRecord, GenericIndexGenerationRefRecord, GenericIndexOperator,
    GenericIndexRecordError, GenericIndexRegistrationOperationRecord, GenericIndexRowBinding,
    GenericIndexRowRecord, GENERIC_INDEX_VALUE_FORMAT_VERSION, MAX_GENERIC_INDEX_FIELDS,
    MAX_GENERIC_INDEX_ROW_BYTES, MAX_GENERIC_INDEX_ROW_FIELDS,
    MAX_GENERIC_INDEX_TERMINAL_ERROR_BYTES, MAX_GENERIC_INDEX_VALUES_PER_FIELD,
};
use nokv_meta::generic_index_validate::empty_generic_index_row_digest;
use nokv_meta::ids::{
    ArtifactRevisionId, CommandDigest, CommitId, GenericIndexGenerationId, OperationId,
    WorkspaceIncarnationId, FIXED_ID_BYTES, SHA256_BYTES,
};
use nokv_meta::names::{NormalizedRelativePath, QueryFieldId, MAX_QUERY_FIELD_ID_BYTES};
use nokv_meta::positions::{CommitVersion, Generation, ReadVersion, ReferenceEpoch};
use nokv_meta::scalars::{FiniteFloat, QueryScalar};
use nokv_meta::states::{
    GenericIndexGenerationState, GenericIndexReferenceKind, GenericIndexRegistrationPhase,
};

fn field(value: &str) -> QueryFieldId {
    QueryFieldId::new(value).unwrap()
}

fn capability(value: &str) -> GenericIndexFieldCapability {
    GenericIndexFieldCapability {
        field: field(value),
        operators: vec![
            GenericIndexOperator::Equal,
            GenericIndexOperator::In,
            GenericIndexOperator::Exists,
        ],
        sortable: true,
        facetable: true,
    }
}

fn zero_row_generation() -> GenericIndexGenerationRecord {
    GenericIndexGenerationRecord {
        capabilities: vec![capability("run.status")],
        declared_row_count: 0,
        appended_row_count: 0,
        rolling_row_digest: empty_generic_index_row_digest(),
        reference_count: 1,
        reference_epoch: ReferenceEpoch::new(1),
        last_zero_reference_version: None,
        state: GenericIndexGenerationState::Sealed,
    }
}

fn multivalue_row() -> GenericIndexRowRecord {
    GenericIndexRowRecord {
        relative_path: Some(NormalizedRelativePath::new("a.json").unwrap()),
        binding: GenericIndexRowBinding::Artifact(GenericIndexArtifactBinding {
            artifact_revision_id: ArtifactRevisionId::from_bytes([3; FIXED_ID_BYTES]),
            path_generation: Generation::new(4).unwrap(),
        }),
        values: vec![GenericIndexFieldValues {
            field: field("run.score"),
            values: vec![
                QueryScalar::String("7".to_owned()),
                QueryScalar::Unsigned(7),
                QueryScalar::Float(FiniteFloat::from_bits(7.5_f64.to_bits()).unwrap()),
                QueryScalar::String("7".to_owned()),
            ],
        }],
    }
}

fn current() -> GenericIndexCurrentRecord {
    GenericIndexCurrentRecord {
        generation_id: GenericIndexGenerationId::from_bytes([1; FIXED_ID_BYTES]),
        pointer_generation: Generation::new(2).unwrap(),
        capability_digest: [3; SHA256_BYTES],
        row_count: 4,
        row_digest: [5; SHA256_BYTES],
    }
}

fn operation() -> GenericIndexRegistrationOperationRecord {
    GenericIndexRegistrationOperationRecord {
        workspace_incarnation_id: WorkspaceIncarnationId::from_bytes([1; FIXED_ID_BYTES]),
        index_path: Some(NormalizedRelativePath::new("outputs/runs").unwrap()),
        generation_id: GenericIndexGenerationId::from_bytes([2; FIXED_ID_BYTES]),
        request_digest: CommandDigest::from_bytes([3; SHA256_BYTES]),
        source_read_version: ReadVersion::new(4).unwrap(),
        last_transition_version: CommitVersion::new(5).unwrap(),
        expected_current_generation: Some(Generation::new(5).unwrap()),
        capability_digest: [6; SHA256_BYTES],
        declared_row_count: 2,
        appended_row_count: 2,
        rolling_row_digest: [7; SHA256_BYTES],
        phase: GenericIndexRegistrationPhase::Complete,
        published_pointer_generation: Some(Generation::new(6).unwrap()),
        terminal_error: None,
    }
}

fn assert_strict<T: std::fmt::Debug>(
    encoded: Vec<u8>,
    decode: fn(&[u8]) -> Result<T, GenericIndexRecordError>,
) {
    let mut future = encoded.clone();
    future[0] = GENERIC_INDEX_VALUE_FORMAT_VERSION + 1;
    assert!(matches!(
        decode(&future),
        Err(GenericIndexRecordError::UnsupportedValueVersion { .. })
    ));

    let mut trailing = encoded.clone();
    trailing.push(0);
    assert!(matches!(
        decode(&trailing),
        Err(GenericIndexRecordError::TrailingBytes { count: 1 })
    ));

    assert!(matches!(
        decode(&encoded[..encoded.len() - 1]),
        Err(GenericIndexRecordError::Truncated { .. })
    ));
}

#[test]
fn zero_row_catalog_and_multivalue_row_are_strictly_encodable() {
    let catalog = zero_row_generation();
    assert_eq!(
        GenericIndexGenerationRecord::decode(&catalog.encode().unwrap()).unwrap(),
        catalog
    );

    let row = multivalue_row();
    assert_eq!(
        GenericIndexRowRecord::decode(&row.encode().unwrap()).unwrap(),
        row
    );

    let directory = GenericIndexRowRecord {
        relative_path: None,
        binding: GenericIndexRowBinding::Directory,
        values: Vec::new(),
    };
    assert_eq!(
        GenericIndexRowRecord::decode(&directory.encode().unwrap()).unwrap(),
        directory
    );
}

#[test]
fn unbound_path_row_has_a_distinct_durable_binding() {
    let mut encoded = vec![GENERIC_INDEX_VALUE_FORMAT_VERSION];
    encoded.push(1);
    put_long_bytes(
        &mut encoded,
        "relative_path",
        b"future.json",
        NormalizedRelativePath::MAX_BYTES,
    )
    .unwrap();
    encoded.push(2);
    encoded.extend_from_slice(&0_u16.to_be_bytes());
    let row = GenericIndexRowRecord::decode(&encoded).unwrap();
    assert_eq!(row.binding, GenericIndexRowBinding::Unbound);
    assert_eq!(row.encode().unwrap(), encoded);

    let invalid_root = GenericIndexRowRecord {
        relative_path: None,
        binding: GenericIndexRowBinding::Unbound,
        values: Vec::new(),
    };
    assert!(matches!(
        invalid_root.encode(),
        Err(GenericIndexRecordError::InvalidRowBinding { .. })
    ));

    let raw_invalid_root = vec![GENERIC_INDEX_VALUE_FORMAT_VERSION, 0, 2, 0, 0];
    assert!(matches!(
        GenericIndexRowRecord::decode(&raw_invalid_root),
        Err(GenericIndexRecordError::InvalidRowBinding { .. })
    ));
}

#[test]
fn every_record_has_a_strict_versioned_envelope() {
    let current = current();
    assert_strict(current.encode().unwrap(), GenericIndexCurrentRecord::decode);

    let generation = zero_row_generation();
    assert_strict(
        generation.encode().unwrap(),
        GenericIndexGenerationRecord::decode,
    );

    let row = multivalue_row();
    assert_strict(row.encode().unwrap(), GenericIndexRowRecord::decode);

    let reference = GenericIndexGenerationRefRecord {
        kind: GenericIndexReferenceKind::Commit,
        owner_digest: [8; SHA256_BYTES],
        reference_epoch_at_add: ReferenceEpoch::new(3),
    };
    assert_strict(
        reference.encode().unwrap(),
        GenericIndexGenerationRefRecord::decode,
    );

    let receipt = GenericIndexAppendReceiptRecord {
        first_sequence: 2,
        row_count: 2,
        commit_version: CommitVersion::new(7).unwrap(),
        input_digest: [9; SHA256_BYTES],
        resulting_row_count: 4,
        resulting_row_digest: [10; SHA256_BYTES],
    };
    assert_strict(
        receipt.encode().unwrap(),
        GenericIndexAppendReceiptRecord::decode,
    );

    let operation = operation();
    assert_strict(
        operation.encode().unwrap(),
        GenericIndexRegistrationOperationRecord::decode,
    );

    let member = CommitGenericIndexMemberRecord {
        generation_id: GenericIndexGenerationId::from_bytes([11; FIXED_ID_BYTES]),
        capability_digest: [12; SHA256_BYTES],
        row_count: 13,
        row_digest: [14; SHA256_BYTES],
    };
    assert_strict(
        member.encode().unwrap(),
        CommitGenericIndexMemberRecord::decode,
    );
}

#[test]
fn capabilities_and_row_fields_reject_out_of_order_and_duplicates() {
    let mut out_of_order = zero_row_generation();
    out_of_order.capabilities = vec![capability("z"), capability("a")];
    assert_eq!(
        out_of_order.encode(),
        Err(GenericIndexRecordError::CapabilitiesNotCanonical)
    );

    let mut duplicate = zero_row_generation();
    duplicate.capabilities = vec![capability("a"), capability("a")];
    assert_eq!(
        duplicate.encode(),
        Err(GenericIndexRecordError::CapabilitiesNotCanonical)
    );

    let mut operator_duplicate = zero_row_generation();
    operator_duplicate.capabilities[0].operators =
        vec![GenericIndexOperator::Equal, GenericIndexOperator::Equal];
    assert!(matches!(
        operator_duplicate.encode(),
        Err(GenericIndexRecordError::OperatorsNotCanonical { .. })
    ));

    let mut row = multivalue_row();
    row.values.push(row.values[0].clone());
    assert_eq!(
        row.encode(),
        Err(GenericIndexRecordError::RowFieldsNotCanonical)
    );

    fn raw_generation(capabilities: &Vec<GenericIndexFieldCapability>) -> Vec<u8> {
        let mut encoded = vec![GENERIC_INDEX_VALUE_FORMAT_VERSION];
        put_capabilities(&mut encoded, capabilities).unwrap();
        encoded.extend_from_slice(&0_u64.to_be_bytes());
        encoded.extend_from_slice(&0_u64.to_be_bytes());
        encoded.extend_from_slice(&empty_generic_index_row_digest());
        encoded.extend_from_slice(&1_u64.to_be_bytes());
        encoded.extend_from_slice(&1_u64.to_be_bytes());
        encoded.push(0);
        encoded.push(GenericIndexGenerationState::Sealed.to_byte());
        encoded
    }
    assert_eq!(
        GenericIndexGenerationRecord::decode(&raw_generation(&vec![
            capability("z"),
            capability("a"),
        ])),
        Err(GenericIndexRecordError::CapabilitiesNotCanonical)
    );
    assert_eq!(
        GenericIndexGenerationRecord::decode(&raw_generation(&vec![
            capability("a"),
            capability("a"),
        ])),
        Err(GenericIndexRecordError::CapabilitiesNotCanonical)
    );

    fn raw_row(fields: &[&str]) -> Vec<u8> {
        let mut encoded = vec![GENERIC_INDEX_VALUE_FORMAT_VERSION, 0, 1];
        put_u16_count(
            &mut encoded,
            "row_fields",
            fields.len(),
            MAX_GENERIC_INDEX_ROW_FIELDS,
        )
        .unwrap();
        for field_name in fields {
            let field = field(field_name);
            put_short_bytes(
                &mut encoded,
                "field_id",
                field.as_bytes(),
                MAX_QUERY_FIELD_ID_BYTES,
            )
            .unwrap();
            put_u16_count(
                &mut encoded,
                "field_values",
                1,
                MAX_GENERIC_INDEX_VALUES_PER_FIELD,
            )
            .unwrap();
            put_generic_scalar(&mut encoded, &field, &QueryScalar::String("x".to_owned()))
                .unwrap();
        }
        encoded
    }
    assert_eq!(
        GenericIndexRowRecord::decode(&raw_row(&["z", "a"])),
        Err(GenericIndexRecordError::RowFieldsNotCanonical)
    );
    assert_eq!(
        GenericIndexRowRecord::decode(&raw_row(&["a", "a"])),
        Err(GenericIndexRecordError::RowFieldsNotCanonical)
    );
}

#[test]
fn only_generic_builtin_fields_are_reserved() {
    for builtin in [
        "body.content_type",
        "body.manifest_id",
        "body.producer",
        "kind",
        "name",
        "path",
        "size_bytes",
    ] {
        let mut generation = zero_row_generation();
        generation.capabilities = vec![capability(builtin)];
        assert!(matches!(
            generation.encode(),
            Err(GenericIndexRecordError::ReservedField { field }) if field == builtin
        ));
    }
    for builtin in [
        "body_digest_uri",
        "content_type",
        "generation",
        "logical_size",
        "manifest_id",
        "producer",
        "workbench_id",
    ] {
        let generation = GenericIndexGenerationRecord {
            capabilities: vec![capability(builtin)],
            ..zero_row_generation()
        };
        assert_eq!(
            GenericIndexGenerationRecord::decode(&generation.encode().unwrap()).unwrap(),
            generation
        );
    }
}

#[test]
fn zero_row_closures_require_the_canonical_empty_digest() {
    let mut invalid_current = current();
    invalid_current.row_count = 0;
    invalid_current.row_digest = [9; SHA256_BYTES];
    assert!(matches!(
        invalid_current.encode(),
        Err(GenericIndexRecordError::InvalidSeal { .. })
    ));

    let mut generation = zero_row_generation();
    generation.rolling_row_digest = [9; SHA256_BYTES];
    assert!(matches!(
        generation.encode(),
        Err(GenericIndexRecordError::InvalidSeal { .. })
    ));

    let mut registration = operation();
    registration.declared_row_count = 0;
    registration.appended_row_count = 0;
    registration.rolling_row_digest = [9; SHA256_BYTES];
    registration.phase = GenericIndexRegistrationPhase::Appending;
    registration.published_pointer_generation = None;
    assert!(matches!(
        registration.encode(),
        Err(GenericIndexRecordError::InvalidSeal { .. })
    ));

    let member = CommitGenericIndexMemberRecord {
        generation_id: GenericIndexGenerationId::from_bytes([11; FIXED_ID_BYTES]),
        capability_digest: [12; SHA256_BYTES],
        row_count: 0,
        row_digest: [9; SHA256_BYTES],
    };
    assert!(matches!(
        member.encode(),
        Err(GenericIndexRecordError::InvalidSeal { .. })
    ));

    let canonical_current = GenericIndexCurrentRecord {
        row_count: 0,
        row_digest: empty_generic_index_row_digest(),
        ..current()
    };
    let mut raw_current = canonical_current.encode().unwrap();
    let current_digest_offset = raw_current.len() - SHA256_BYTES;
    raw_current[current_digest_offset..].fill(9);
    assert!(matches!(
        GenericIndexCurrentRecord::decode(&raw_current),
        Err(GenericIndexRecordError::InvalidSeal { .. })
    ));

    let mut raw_generation = zero_row_generation().encode().unwrap();
    let generation_digest_offset = raw_generation.len() - (SHA256_BYTES + 8 + 8 + 1 + 1);
    raw_generation[generation_digest_offset..generation_digest_offset + SHA256_BYTES].fill(9);
    assert!(matches!(
        GenericIndexGenerationRecord::decode(&raw_generation),
        Err(GenericIndexRecordError::InvalidSeal { .. })
    ));

    let canonical_registration = GenericIndexRegistrationOperationRecord {
        declared_row_count: 0,
        appended_row_count: 0,
        rolling_row_digest: empty_generic_index_row_digest(),
        phase: GenericIndexRegistrationPhase::Appending,
        published_pointer_generation: None,
        ..operation()
    };
    let mut raw_registration = canonical_registration.encode().unwrap();
    let registration_digest_offset = raw_registration.len() - (SHA256_BYTES + 1 + 1 + 1);
    raw_registration[registration_digest_offset..registration_digest_offset + SHA256_BYTES]
        .fill(9);
    assert!(matches!(
        GenericIndexRegistrationOperationRecord::decode(&raw_registration),
        Err(GenericIndexRecordError::InvalidSeal { .. })
    ));

    let canonical_member = CommitGenericIndexMemberRecord {
        row_count: 0,
        row_digest: empty_generic_index_row_digest(),
        ..member
    };
    let mut raw_member = canonical_member.encode().unwrap();
    let member_digest_offset = raw_member.len() - SHA256_BYTES;
    raw_member[member_digest_offset..].fill(9);
    assert!(matches!(
        CommitGenericIndexMemberRecord::decode(&raw_member),
        Err(GenericIndexRecordError::InvalidSeal { .. })
    ));
}

#[test]
fn complete_registration_binds_the_exact_pointer_successor() {
    let mut create = operation();
    create.expected_current_generation = None;
    create.published_pointer_generation = Some(Generation::new(1).unwrap());
    create.encode().unwrap();
    for invalid in [2, 7] {
        create.published_pointer_generation = Some(Generation::new(invalid).unwrap());
        assert!(matches!(
            create.encode(),
            Err(GenericIndexRecordError::InvalidRegistrationState { .. })
        ));
    }

    let mut replace = operation();
    replace.expected_current_generation = Some(Generation::new(7).unwrap());
    replace.published_pointer_generation = Some(Generation::new(8).unwrap());
    replace.encode().unwrap();
    for invalid in [7, 9] {
        replace.published_pointer_generation = Some(Generation::new(invalid).unwrap());
        assert!(matches!(
            replace.encode(),
            Err(GenericIndexRecordError::InvalidRegistrationState { .. })
        ));
    }

    replace.expected_current_generation = Some(Generation::new(u64::MAX).unwrap());
    replace.published_pointer_generation = Some(Generation::new(u64::MAX).unwrap());
    assert!(matches!(
        replace.encode(),
        Err(GenericIndexRecordError::InvalidRegistrationState { .. })
    ));

    replace.phase = GenericIndexRegistrationPhase::Appending;
    replace.published_pointer_generation = None;
    assert!(matches!(
        replace.encode(),
        Err(GenericIndexRecordError::InvalidRegistrationState { .. })
    ));

    let mut invalid_progress = operation();
    invalid_progress.phase = GenericIndexRegistrationPhase::Sealing;
    invalid_progress.published_pointer_generation = None;
    invalid_progress.appended_row_count = 1;
    assert!(matches!(
        invalid_progress.encode(),
        Err(GenericIndexRecordError::InvalidRegistrationState { .. })
    ));
    invalid_progress.phase = GenericIndexRegistrationPhase::Preparing;
    assert!(matches!(
        invalid_progress.encode(),
        Err(GenericIndexRecordError::InvalidRegistrationState { .. })
    ));
}

#[test]
fn unknown_discriminants_and_noncanonical_float_fail_closed() {
    let reference = GenericIndexGenerationRefRecord {
        kind: GenericIndexReferenceKind::Commit,
        owner_digest: [1; SHA256_BYTES],
        reference_epoch_at_add: ReferenceEpoch::new(1),
    };
    let mut unknown_reference = reference.encode().unwrap();
    unknown_reference[1] = 0xff;
    assert!(matches!(
        GenericIndexGenerationRefRecord::decode(&unknown_reference),
        Err(GenericIndexRecordError::UnknownDiscriminant { .. })
    ));

    let generation = zero_row_generation();
    let mut unknown_generation_state = generation.encode().unwrap();
    *unknown_generation_state.last_mut().unwrap() = 0xff;
    assert!(matches!(
        GenericIndexGenerationRecord::decode(&unknown_generation_state),
        Err(GenericIndexRecordError::UnknownDiscriminant {
            durable_type: "GenericIndexGenerationState",
            ..
        })
    ));

    let mut unknown_operator = vec![GENERIC_INDEX_VALUE_FORMAT_VERSION];
    put_u16_count(
        &mut unknown_operator,
        "capabilities",
        1,
        MAX_GENERIC_INDEX_FIELDS,
    )
    .unwrap();
    put_short_bytes(
        &mut unknown_operator,
        "field_id",
        b"custom",
        MAX_QUERY_FIELD_ID_BYTES,
    )
    .unwrap();
    unknown_operator.extend_from_slice(&[1, 0xff, 0, 0]);
    unknown_operator.extend_from_slice(&0_u64.to_be_bytes());
    unknown_operator.extend_from_slice(&0_u64.to_be_bytes());
    unknown_operator.extend_from_slice(&empty_generic_index_row_digest());
    unknown_operator.extend_from_slice(&1_u64.to_be_bytes());
    unknown_operator.extend_from_slice(&1_u64.to_be_bytes());
    unknown_operator.push(0);
    unknown_operator.push(GenericIndexGenerationState::Sealed.to_byte());
    assert!(matches!(
        GenericIndexGenerationRecord::decode(&unknown_operator),
        Err(GenericIndexRecordError::UnknownDiscriminant {
            durable_type: "GenericIndexOperator",
            ..
        })
    ));

    let mut appending = operation();
    appending.phase = GenericIndexRegistrationPhase::Appending;
    appending.published_pointer_generation = None;
    let mut unknown_registration_phase = appending.encode().unwrap();
    let phase_offset = unknown_registration_phase.len() - 3;
    unknown_registration_phase[phase_offset] = 0xff;
    assert!(matches!(
        GenericIndexRegistrationOperationRecord::decode(&unknown_registration_phase),
        Err(GenericIndexRecordError::UnknownDiscriminant {
            durable_type: "GenericIndexRegistrationPhase",
            ..
        })
    ));

    let mut unknown_scalar = vec![GENERIC_INDEX_VALUE_FORMAT_VERSION, 0, 1];
    put_u16_count(
        &mut unknown_scalar,
        "row_fields",
        1,
        MAX_GENERIC_INDEX_ROW_FIELDS,
    )
    .unwrap();
    put_short_bytes(
        &mut unknown_scalar,
        "field_id",
        b"custom",
        MAX_QUERY_FIELD_ID_BYTES,
    )
    .unwrap();
    put_u16_count(
        &mut unknown_scalar,
        "field_values",
        1,
        MAX_GENERIC_INDEX_VALUES_PER_FIELD,
    )
    .unwrap();
    unknown_scalar.push(0xff);
    assert!(matches!(
        GenericIndexRowRecord::decode(&unknown_scalar),
        Err(GenericIndexRecordError::UnknownDiscriminant {
            durable_type: "GenericIndexScalar",
            ..
        })
    ));

    for unknown_binding in [0, 4, 0xff] {
        assert!(matches!(
            GenericIndexRowRecord::decode(&[
                GENERIC_INDEX_VALUE_FORMAT_VERSION,
                0,
                unknown_binding,
            ]),
            Err(GenericIndexRecordError::UnknownDiscriminant {
                durable_type: "GenericIndexRowBinding",
                ..
            })
        ));
    }

    let mut row = multivalue_row();
    row.values[0].values = vec![QueryScalar::Float(FiniteFloat::from_bits(1.0_f64.to_bits()).unwrap())];
    let mut noncanonical = row.encode().unwrap();
    let bits = (-0.0_f64).to_bits().to_be_bytes();
    let position = noncanonical
        .windows(8)
        .position(|window| window == 1.0_f64.to_bits().to_be_bytes())
        .unwrap();
    noncanonical[position..position + 8].copy_from_slice(&bits);
    assert_eq!(
        GenericIndexRowRecord::decode(&noncanonical),
        Err(GenericIndexRecordError::NonCanonicalFloatZero)
    );
}

#[test]
fn append_receipt_and_batch_range_overflow_fail_closed() {
    let overflow = GenericIndexAppendReceiptRecord {
        first_sequence: u64::MAX,
        row_count: 1,
        commit_version: CommitVersion::new(1).unwrap(),
        input_digest: [1; SHA256_BYTES],
        resulting_row_count: 0,
        resulting_row_digest: [2; SHA256_BYTES],
    };
    assert_eq!(
        overflow.encode(),
        Err(GenericIndexRecordError::RangeOverflow {
            field: "append_sequence"
        })
    );
    assert_eq!(
        generic_index_append_batch_digest(u64::MAX, &vec![multivalue_row()]),
        Err(GenericIndexRecordError::RangeOverflow {
            field: "append_sequence"
        })
    );
    assert_eq!(
        generic_index_append_input_digest(u64::MAX, &vec![multivalue_row()]),
        Err(GenericIndexRecordError::RangeOverflow {
            field: "append_sequence"
        })
    );

    let mut raw = vec![GENERIC_INDEX_VALUE_FORMAT_VERSION];
    raw.extend_from_slice(&u64::MAX.to_be_bytes());
    raw.extend_from_slice(&1_u32.to_be_bytes());
    raw.extend_from_slice(&1_u64.to_be_bytes());
    raw.extend_from_slice(&[1; SHA256_BYTES]);
    raw.extend_from_slice(&0_u64.to_be_bytes());
    raw.extend_from_slice(&[2; SHA256_BYTES]);
    assert_eq!(
        GenericIndexAppendReceiptRecord::decode(&raw),
        Err(GenericIndexRecordError::RangeOverflow {
            field: "append_sequence"
        })
    );

    let mut stale_transition = operation();
    stale_transition.last_transition_version =
        CommitVersion::new(stale_transition.source_read_version.get()).unwrap();
    assert!(matches!(
        stale_transition.encode(),
        Err(GenericIndexRecordError::InvalidRegistrationState { .. })
    ));

    let oversized_row = GenericIndexRowRecord {
        relative_path: None,
        binding: GenericIndexRowBinding::Directory,
        values: vec![GenericIndexFieldValues {
            field: field("large"),
            values: vec![QueryScalar::String("x".repeat(MAX_GENERIC_INDEX_ROW_BYTES))],
        }],
    };
    assert!(matches!(
        oversized_row.encode(),
        Err(GenericIndexRecordError::LengthLimit {
            field: "generic_index_row",
            ..
        })
    ));
}

#[test]
fn bounded_counts_fail_closed_before_allocation() {
    let mut raw_capability_count = vec![GENERIC_INDEX_VALUE_FORMAT_VERSION];
    raw_capability_count
        .extend_from_slice(&((MAX_GENERIC_INDEX_FIELDS + 1) as u16).to_be_bytes());
    assert!(matches!(
        GenericIndexGenerationRecord::decode(&raw_capability_count),
        Err(GenericIndexRecordError::CountLimit {
            field: "capabilities",
            ..
        })
    ));

    let mut raw_operator_count = vec![GENERIC_INDEX_VALUE_FORMAT_VERSION];
    raw_operator_count.extend_from_slice(&1_u16.to_be_bytes());
    put_short_bytes(
        &mut raw_operator_count,
        "field_id",
        b"custom",
        MAX_QUERY_FIELD_ID_BYTES,
    )
    .unwrap();
    raw_operator_count.push(13);
    assert!(matches!(
        GenericIndexGenerationRecord::decode(&raw_operator_count),
        Err(GenericIndexRecordError::CountLimit {
            field: "operators",
            ..
        })
    ));

    let mut raw_row_field_count = vec![GENERIC_INDEX_VALUE_FORMAT_VERSION, 0, 1];
    raw_row_field_count
        .extend_from_slice(&((MAX_GENERIC_INDEX_ROW_FIELDS + 1) as u16).to_be_bytes());
    assert!(matches!(
        GenericIndexRowRecord::decode(&raw_row_field_count),
        Err(GenericIndexRecordError::CountLimit {
            field: "row_fields",
            ..
        })
    ));

    let mut raw_value_count = vec![GENERIC_INDEX_VALUE_FORMAT_VERSION, 0, 1];
    raw_value_count.extend_from_slice(&1_u16.to_be_bytes());
    put_short_bytes(
        &mut raw_value_count,
        "field_id",
        b"custom",
        MAX_QUERY_FIELD_ID_BYTES,
    )
    .unwrap();
    raw_value_count
        .extend_from_slice(&((MAX_GENERIC_INDEX_VALUES_PER_FIELD + 1) as u16).to_be_bytes());
    assert!(matches!(
        GenericIndexRowRecord::decode(&raw_value_count),
        Err(GenericIndexRecordError::CountLimit {
            field: "field_values",
            ..
        })
    ));

    let excessive_capabilities = GenericIndexGenerationRecord {
        capabilities: (0..=MAX_GENERIC_INDEX_FIELDS)
            .map(|index| capability(&format!("custom.{index:03}")))
            .collect(),
        ..zero_row_generation()
    };
    assert!(matches!(
        excessive_capabilities.encode(),
        Err(GenericIndexRecordError::CountLimit {
            field: "capabilities",
            ..
        })
    ));

    let excessive_values = GenericIndexRowRecord {
        relative_path: None,
        binding: GenericIndexRowBinding::Directory,
        values: vec![GenericIndexFieldValues {
            field: field("custom"),
            values: vec![QueryScalar::Unsigned(0); MAX_GENERIC_INDEX_VALUES_PER_FIELD + 1],
        }],
    };
    assert!(matches!(
        excessive_values.encode(),
        Err(GenericIndexRecordError::CountLimit {
            field: "field_values",
            ..
        })
    ));

    let mut oversized_terminal = operation();
    oversized_terminal.phase = GenericIndexRegistrationPhase::Quarantined;
    oversized_terminal.published_pointer_generation = None;
    oversized_terminal.terminal_error =
        Some("x".repeat(MAX_GENERIC_INDEX_TERMINAL_ERROR_BYTES + 1));
    assert!(matches!(
        oversized_terminal.encode(),
        Err(GenericIndexRecordError::LengthLimit {
            field: "terminal_error",
            ..
        })
    ));
}

#[test]
fn digest_and_generation_seal_bind_order_capabilities_and_rows() {
    let row = multivalue_row();
    let first = generic_index_row_digest(0, &row).unwrap();
    let shifted = generic_index_row_digest(1, &row).unwrap();
    assert_ne!(first, shifted);
    let input = generic_index_append_input_digest(0, &vec![row.clone()]).unwrap();
    let mut rebound = row.clone();
    rebound.binding = GenericIndexRowBinding::Artifact(GenericIndexArtifactBinding {
        artifact_revision_id: ArtifactRevisionId::from_bytes([99; FIXED_ID_BYTES]),
        path_generation: Generation::new(99).unwrap(),
    });
    assert_eq!(
        generic_index_append_input_digest(0, &vec![rebound]).unwrap(),
        input
    );
    assert_ne!(
        generic_index_append_input_digest(1, &vec![row.clone()]).unwrap(),
        input
    );
    let mut changed_input = row.clone();
    changed_input.values[0]
        .values
        .push(QueryScalar::String("extra".to_owned()));
    assert_ne!(
        generic_index_append_input_digest(0, &vec![changed_input]).unwrap(),
        input
    );
    let rolling =
        advance_generic_index_row_rolling_digest(empty_generic_index_row_digest(), first);
    let capabilities = vec![capability("run.score")];
    let capability_digest = generic_index_capability_digest(&capabilities).unwrap();
    let generation = GenericIndexGenerationRecord {
        capabilities,
        declared_row_count: 1,
        appended_row_count: 1,
        rolling_row_digest: rolling,
        reference_count: 1,
        reference_epoch: ReferenceEpoch::new(1),
        last_zero_reference_version: None,
        state: GenericIndexGenerationState::Sealed,
    };
    verify_generic_index_generation_seal(&generation, capability_digest, 1, rolling).unwrap();
    assert!(
        verify_generic_index_generation_seal(&generation, capability_digest, 1, shifted,)
            .is_err()
    );

    let mut retired = generation.clone();
    retired.state = GenericIndexGenerationState::Retired;
    retired.declared_row_count = 5;
    retired.appended_row_count = 1;
    retired.reference_count = 0;
    retired.last_zero_reference_version = Some(CommitVersion::new(9).unwrap());
    assert_eq!(
        GenericIndexGenerationRecord::decode(&retired.encode().unwrap()).unwrap(),
        retired
    );
    assert!(
        verify_generic_index_generation_seal(&retired, capability_digest, 1, rolling,).is_err()
    );

    let operation = OperationId::from_bytes([8; FIXED_ID_BYTES]);
    let commit = CommitId::from_bytes([8; SHA256_BYTES]);
    let owners = [
        generic_index_registration_owner_digest(operation),
        generic_index_build_commit_owner_digest(operation),
        generic_index_restore_owner_digest(operation),
        generic_index_commit_owner_digest(commit),
    ];
    assert_eq!(
        owners
            .iter()
            .copied()
            .collect::<std::collections::BTreeSet<_>>()
            .len(),
        owners.len()
    );
}
