//! The FoundationDB provider: keys, values, scans, and commit outcomes.

use std::cell::{Cell, RefCell};

use nokv_meta::fdb_keys::{
    decode_stored_value, encode_namespace_prefix, encode_versionstamped_value,
    physical_key_domain, prefix_end, space_tag, MetadataStoreIdentity, FDB_MAX_PHYSICAL_KEY_BYTES,
    FDB_MAX_PHYSICAL_VALUE_BYTES, SPACE_TAG_BYTES, STORED_VALUE_FORMAT_VERSION,
    STORED_VALUE_HEADER_BYTES, VERSIONSTAMP_BYTES, VERSIONSTAMP_OFFSET_BYTES,
};
use nokv_meta::fdb_provider::{
    self, capabilities_for_config, classify_commit_code, finish_commit_with_runtime_validation,
    CommitErrorClass, FoundationDbProviderConfig,
    FoundationDbProviderConfigError, FDB_MAX_AFFECTED_BYTES, FDB_MAX_READ_VIEW_DURATION_MS,
};
use nokv_meta::fdb_scan::{
    bounded_scan_native_row_ceiling, logical_scan_start, project_scan_row, LogicalScanStart,
    ProjectedScanRow, ScanAdvance, FDB_SCAN_BATCH_ROWS,
};
use nokv_meta::ids::{ConsistencyDomainId, LogicalShardId, MetadataAuthorityId};
use nokv_meta::positions::MetadataAuthorityGeneration;
use nokv_meta::provider::{
    AtomicCommitOutcome, ProviderCapabilities, ProviderError, ProviderErrorKind,
    ProviderOperationV1, ProviderScan, ProviderScanItem,
};
use nokv_meta::provider_catalog::{
    all_ordered_spaces, domain_space, MetadataFamily, SYSTEM_SPACE,
};

fn identity() -> MetadataStoreIdentity {
    MetadataStoreIdentity {
        logical_shard_id: LogicalShardId::from_bytes([0x22; 16]),
        authority_id: MetadataAuthorityId::from_bytes([0x33; 16]),
        authority_generation: MetadataAuthorityGeneration::new(7).unwrap(),
        consistency_domain_id: ConsistencyDomainId::from_bytes([0x11; 16]),
        profile_fingerprint: [0x44; 32],
        contract_digest: [0x55; 32],
    }
}

/// What a workspace would refuse in an offer, in the order of the codes' names.
fn rejection_codes(
    capabilities: &ProviderCapabilities,
    atomic_operations: usize,
    logical_plan_bytes: usize,
) -> Vec<&'static str> {
    let mut codes = Vec::new();
    if !capabilities.all_ambiguous_commit_outcomes_settled_before_return {
        codes.push("AmbiguousCommitMayRemainInFlight");
    }
    if capabilities.max_atomic_operations < atomic_operations {
        codes.push("AtomicOperationLimitTooSmall");
    }
    if !capabilities.commit_resolution_reads_causally_current {
        codes.push("CommitResolutionReadsNotCausallyCurrent");
    }
    if capabilities.max_logical_plan_bytes < logical_plan_bytes {
        codes.push("LogicalPlanLimitTooSmall");
    }
    if capabilities.max_read_view_duration_ms.is_some() {
        codes.push("ReadViewLifetimeBounded");
    }
    codes
}

/// Runs an operation between two calls of one runtime check.
fn with_runtime_validation<T>(
    validate: impl Fn() -> Result<(), ProviderError>,
    operation: impl FnOnce() -> Result<T, ProviderError>,
) -> Result<T, ProviderError> {
    fdb_provider::with_runtime_validation(&validate, operation, &validate)
}

#[test]
fn physical_namespace_contains_every_authority_dimension_and_space() {
    let identity = identity();
    let prefix = encode_namespace_prefix(identity);
    assert!(prefix.starts_with(&physical_key_domain()));
    assert!(prefix
        .windows(16)
        .any(|window| window == identity.consistency_domain_id.as_bytes()));
    assert!(prefix
        .windows(16)
        .any(|window| window == identity.logical_shard_id.as_bytes()));
    assert!(prefix
        .windows(16)
        .any(|window| window == identity.authority_id.as_bytes()));
    assert!(prefix.ends_with(&identity.authority_generation.get().to_be_bytes()));
    assert_ne!(
        space_tag(SYSTEM_SPACE),
        space_tag(domain_space(
            MetadataFamily::WorkspaceCurrent
        ))
    );
}

#[test]
fn physical_space_tags_are_the_frozen_ordered_space_ids() {
    let actual = all_ordered_spaces()
        .into_iter()
        .map(space_tag)
        .collect::<Vec<_>>();
    let expected = [
        0x0101_u16, 0x0102, 0x0103, 0x0104, 0x0105, 0x0106, 0x0202, 0x0203, 0x0204, 0x0205,
        0x0206, 0x0207, 0x0208, 0x0209, 0x020a, 0x020b, 0x020c, 0x020d, 0x020e, 0x020f, 0x0211,
        0x0212, 0x0213, 0x0215, 0x0216, 0x0217,
    ]
    .map(u16::to_be_bytes);
    assert_eq!(actual, expected);
}

#[test]
fn versionstamped_value_keeps_provider_witness_separate_from_logical_value() {
    let operand = encode_versionstamped_value(b"logical");
    assert_eq!(
        &operand[operand.len() - VERSIONSTAMP_OFFSET_BYTES..],
        &1_u32.to_le_bytes()
    );
    let mut stored = operand[..operand.len() - VERSIONSTAMP_OFFSET_BYTES].to_vec();
    stored[1..1 + VERSIONSTAMP_BYTES].copy_from_slice(&[0x42; VERSIONSTAMP_BYTES]);
    assert_eq!(decode_stored_value(&stored).unwrap(), b"logical");
}

#[test]
fn commit_error_mapping_never_replays_an_unknown_outcome() {
    assert_eq!(
        classify_commit_code(1020, false, true),
        CommitErrorClass::Conflict
    );
    assert_eq!(
        classify_commit_code(1021, true, true),
        CommitErrorClass::UnknownSettled
    );
    assert_eq!(
        classify_commit_code(1031, false, true),
        CommitErrorClass::UnknownUnsettled
    );
    assert_eq!(
        classify_commit_code(1101, false, false),
        CommitErrorClass::UnknownUnsettled
    );
    assert_eq!(
        classify_commit_code(2101, false, false),
        CommitErrorClass::TooLarge
    );
}

#[test]
fn continuous_runtime_validation_brackets_each_successful_operation() {
    let validations = Cell::new(0_usize);
    let operation_ran = Cell::new(false);
    let error = with_runtime_validation(
        || {
            let call = validations.get() + 1;
            validations.set(call);
            if call == 2 {
                Err(ProviderError::unavailable(
                    ProviderOperationV1::ValidateRuntime,
                ))
            } else {
                Ok(())
            }
        },
        || {
            operation_ran.set(true);
            Ok(b"must-not-escape".to_vec())
        },
    )
    .unwrap_err();

    assert!(operation_ran.get());
    assert_eq!(validations.get(), 2);
    assert_eq!(error.kind(), ProviderErrorKind::Unavailable);
    assert_eq!(error.operation(), ProviderOperationV1::ValidateRuntime);
}

/// The calls that a bracketed operation makes, in order, and whether it ends well.
fn bracketed(first: bool, operation: bool, second: bool) -> (Vec<&'static str>, bool) {
    let calls = RefCell::new(Vec::new());
    let outcome = |name: &'static str, passes: bool| {
        calls.borrow_mut().push(name);
        if passes {
            Ok(())
        } else {
            Err(ProviderError::unavailable(
                ProviderOperationV1::ValidateRuntime,
            ))
        }
    };
    let result = fdb_provider::with_runtime_validation(
        &|| outcome("first check", first),
        || outcome("operation", operation),
        &|| outcome("second check", second),
    );
    (calls.into_inner(), result.is_ok())
}

#[test]
fn runtime_checks_stand_before_and_after_the_operation() {
    let whole = vec!["first check", "operation", "second check"];
    assert_eq!(bracketed(true, true, true), (whole.clone(), true));
    assert_eq!(bracketed(true, true, false), (whole.clone(), false));
    assert_eq!(bracketed(true, false, true), (whole.clone(), false));
    assert_eq!(bracketed(true, false, false), (whole, false));
}

#[test]
fn a_failed_first_runtime_check_keeps_the_operation_from_running() {
    for operation in [false, true] {
        for second in [false, true] {
            assert_eq!(
                bracketed(false, operation, second),
                (vec!["first check"], false)
            );
        }
    }
}

#[test]
fn continuous_runtime_validation_runs_after_a_native_error() {
    let validations = Cell::new(0_usize);
    let error = with_runtime_validation(
        || {
            let call = validations.get() + 1;
            validations.set(call);
            if call == 2 {
                Err(ProviderError::authority_mismatch(
                    ProviderOperationV1::ValidateRuntime,
                ))
            } else {
                Ok(())
            }
        },
        || {
            Err::<(), _>(ProviderError::backend(
                ProviderOperationV1::ReadRecord,
                "native read failed",
            ))
        },
    )
    .unwrap_err();

    assert_eq!(validations.get(), 2);
    assert_eq!(error.kind(), ProviderErrorKind::AuthorityMismatch);
    assert_eq!(error.operation(), ProviderOperationV1::ValidateRuntime);
}

#[test]
fn failed_post_commit_validation_is_always_outcome_unknown() {
    let runtime_failure = || {
        Err(ProviderError::authority_mismatch(
            ProviderOperationV1::ValidateRuntime,
        ))
    };
    let error = finish_commit_with_runtime_validation(
        Ok(AtomicCommitOutcome::Committed),
        runtime_failure(),
    )
    .unwrap_err();
    assert_eq!(error.kind(), ProviderErrorKind::UnknownCommitSettled);
    assert_eq!(error.operation(), ProviderOperationV1::Commit);

    let original_unknown = ProviderError::unknown_commit_unsettled();
    assert_eq!(
        finish_commit_with_runtime_validation(Err(original_unknown.clone()), runtime_failure()),
        Err(original_unknown)
    );
    assert_eq!(
        finish_commit_with_runtime_validation(
            Ok(AtomicCommitOutcome::Conflict),
            runtime_failure(),
        )
        .unwrap_err()
        .kind(),
        ProviderErrorKind::AuthorityMismatch
    );
}

#[test]
fn prefix_successor_handles_trailing_ff_bytes() {
    assert_eq!(prefix_end(&[0x10, 0xff, 0xff]), Some(vec![0x11]));
    assert_eq!(prefix_end(&[0xff]), None);
}

#[test]
fn delimiter_cursor_skips_the_complete_projected_common_prefix() {
    let request = |start_after| ProviderScan {
        space: SYSTEM_SPACE,
        prefix: b"scan/".to_vec(),
        start_after,
        delimiter: Some(b'/'),
        limit: 1,
    };

    assert_eq!(
        logical_scan_start(&request(Some(b"scan/dir/".to_vec()))),
        LogicalScanStart::AfterCommonPrefix(b"scan/dir/".to_vec())
    );
    assert_eq!(
        logical_scan_start(&request(Some(b"scan/dir/leaf".to_vec()))),
        LogicalScanStart::AfterCommonPrefix(b"scan/dir/".to_vec())
    );
    assert_eq!(
        logical_scan_start(&request(Some(b"scan/a".to_vec()))),
        LogicalScanStart::AfterKey(b"scan/a".to_vec())
    );
    assert_eq!(
        logical_scan_start(&request(Some(b"before".to_vec()))),
        LogicalScanStart::Prefix
    );
    assert_eq!(
        logical_scan_start(&request(Some(b"scan0".to_vec()))),
        LogicalScanStart::Empty
    );

    let mut undelimited = request(Some(b"scan/dir/".to_vec()));
    undelimited.delimiter = None;
    assert_eq!(
        logical_scan_start(&undelimited),
        LogicalScanStart::AfterKey(b"scan/dir/".to_vec())
    );
}

#[test]
fn pure_projection_deduplicates_rollups_and_preserves_the_next_sibling() {
    let request = ProviderScan {
        space: SYSTEM_SPACE,
        prefix: b"scan/".to_vec(),
        start_after: Some(b"scan/a".to_vec()),
        delimiter: Some(b'/'),
        limit: 2,
    };
    let mut last_common_prefix = None;

    let first = project_scan_row(
        &request,
        b"scan/dir/0000",
        b"not-a-value-envelope",
        &mut last_common_prefix,
    )
    .unwrap();
    assert_eq!(
        first,
        ProjectedScanRow {
            item: Some(ProviderScanItem::CommonPrefix(b"scan/dir/".to_vec())),
            advance: ScanAdvance::AfterCommonPrefix(b"scan/dir/".to_vec()),
        }
    );

    let duplicate = project_scan_row(
        &request,
        b"scan/dir/9999",
        b"also-not-a-value-envelope",
        &mut last_common_prefix,
    )
    .unwrap();
    assert_eq!(
        duplicate,
        ProjectedScanRow {
            item: None,
            advance: ScanAdvance::AfterCommonPrefix(b"scan/dir/".to_vec()),
        }
    );

    let mut stored = vec![STORED_VALUE_FORMAT_VERSION];
    stored.extend_from_slice(&[0x42; VERSIONSTAMP_BYTES]);
    stored.extend_from_slice(b"sibling-value");
    let sibling =
        project_scan_row(&request, b"scan/z", &stored, &mut last_common_prefix).unwrap();
    assert_eq!(
        sibling,
        ProjectedScanRow {
            item: Some(ProviderScanItem::Key {
                key: b"scan/z".to_vec(),
                value: b"sibling-value".to_vec(),
            }),
            advance: ScanAdvance::AfterKey(b"scan/z".to_vec()),
        }
    );
}

#[test]
fn pure_projection_applies_exclusive_cursor_to_projected_items() {
    let request = ProviderScan {
        space: SYSTEM_SPACE,
        prefix: b"scan/".to_vec(),
        start_after: Some(b"scan/dir/leaf".to_vec()),
        delimiter: Some(b'/'),
        limit: 1,
    };
    let mut last_common_prefix = None;
    assert_eq!(
        project_scan_row(
            &request,
            b"scan/dir/next",
            b"invalid-but-unread",
            &mut last_common_prefix,
        )
        .unwrap(),
        ProjectedScanRow {
            item: None,
            advance: ScanAdvance::AfterCommonPrefix(b"scan/dir/".to_vec()),
        }
    );
}

#[test]
fn bounded_page_has_a_dataset_independent_native_row_ceiling() {
    assert_eq!(bounded_scan_native_row_ceiling(0), None);
    assert_eq!(bounded_scan_native_row_ceiling(1), Some(1));
    assert_eq!(bounded_scan_native_row_ceiling(2), Some(4));
    assert_eq!(
        bounded_scan_native_row_ceiling(FDB_SCAN_BATCH_ROWS + 1),
        Some(u64::try_from((FDB_SCAN_BATCH_ROWS + 1) * FDB_SCAN_BATCH_ROWS).unwrap())
    );
}

#[test]
fn default_budget_is_below_the_native_hard_limit() {
    let config = FoundationDbProviderConfig::default();
    assert_eq!(config.transaction_budget_bytes, 1_000_000);
    assert_eq!(FDB_MAX_READ_VIEW_DURATION_MS, 5_000);
    assert!(config.transaction_budget_bytes <= FDB_MAX_AFFECTED_BYTES);
    assert!(config.validate().is_ok());
}

#[test]
fn built_in_foundationdb_offer_is_not_workspace_qualified() {
    let capabilities = capabilities_for_config(FoundationDbProviderConfig::default());
    assert!(!capabilities.all_ambiguous_commit_outcomes_settled_before_return);
    assert!(capabilities.commit_resolution_reads_causally_current);
    assert_eq!(
        rejection_codes(&capabilities, 4_096, 4 * 1_024 * 1_024),
        vec![
            "AmbiguousCommitMayRemainInFlight",
            "AtomicOperationLimitTooSmall",
            "LogicalPlanLimitTooSmall",
            "ReadViewLifetimeBounded",
        ]
    );
}

#[test]
fn physical_key_value_and_transaction_hard_limits_are_exact() {
    let namespace = encode_namespace_prefix(identity());
    let logical_key_bytes = FDB_MAX_PHYSICAL_KEY_BYTES - namespace.len() - SPACE_TAG_BYTES;
    assert_eq!(
        namespace.len() + SPACE_TAG_BYTES + logical_key_bytes,
        FDB_MAX_PHYSICAL_KEY_BYTES
    );
    let logical_value_bytes = FDB_MAX_PHYSICAL_VALUE_BYTES - STORED_VALUE_HEADER_BYTES;
    let operand = encode_versionstamped_value(&vec![0; logical_value_bytes]);
    assert_eq!(
        operand.len() - VERSIONSTAMP_OFFSET_BYTES,
        FDB_MAX_PHYSICAL_VALUE_BYTES
    );
    assert_eq!(
        FoundationDbProviderConfig {
            transaction_budget_bytes: FDB_MAX_AFFECTED_BYTES + 1,
            ..FoundationDbProviderConfig::default()
        }
        .validate(),
        Err(FoundationDbProviderConfigError::TransactionBudgetOutOfRange)
    );
}
