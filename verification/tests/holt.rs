//! The Holt provider: decisions of the library around an in-memory database.

use std::collections::BTreeMap;

use holt::{RangeEntry, RecordVersion, TreeConfig, View, DB};
use nokv_meta::holt_provider::{
    capabilities_value, captured_scopes, commit_error, contract_offer, held_identity, operation_code,
    prepare_commit, record, require_create, require_existing_location, require_fresh_location,
    require_identity, require_pending_recovery, require_reopen, runtime_guard_error,
    schema_tree_names, settle_commit, validate_fresh_registry, validate_tree_registry, BatchOp,
    FactoryLocation, HoltScanRun, HoltStoreObjectIdentity, PendingRecoveryRefusal,
    PreopenCreateIdentity, ProviderRequirements, ReservedState, ReservedStep, StoreLocation,
    HOLT_MAX_KEY_BYTES,
};
use nokv_meta::provider::{
    validate_length, validate_space, AtomicCommitOutcome, AtomicOp, AtomicPlan,
    CreateRecoveryIntentV1, ProviderCapabilities, ProviderError, ProviderErrorKind,
    ProviderInstanceToken, ProviderOperationV1, ProviderRecord, ProviderScan, ProviderScanItem,
    ProviderScanPage, ProviderSchemaV1, ProviderTransactionLimit, ProviderTransactionModel,
    ProviderVersionModel, ReadScope, SPI_MAJOR,
};
use nokv_meta::provider_catalog::{
    all_ordered_spaces, domain_space, holt_tree_name, MetadataFamily, OrderedSpaceId, SYSTEM_SPACE,
};

/// A provider over an in-memory database that lets the library decide.
struct Provider {
    db: DB,
    token: ProviderInstanceToken,
    /// Runtime checks that still pass; `None` where all of them do.
    checks_left: std::cell::Cell<Option<usize>>,
    poisoned: std::cell::Cell<bool>,
}

/// A consistent view of the captured scopes.
struct ReadView<'a> {
    provider: &'a Provider,
    views: BTreeMap<OrderedSpaceId, View>,
}

/// A write that reads the records as they stand.
struct Transaction<'a> {
    provider: &'a Provider,
}

impl Transaction<'_> {
    fn get(&self, space: OrderedSpaceId, key: &[u8]) -> Result<Option<ProviderRecord>, ProviderError> {
        self.provider.get(space, key)
    }
}

fn tree(space: OrderedSpaceId) -> &'static str {
    holt_tree_name(space).unwrap()
}

fn drain<I>(
    mut run: HoltScanRun,
    entries: I,
) -> Result<ProviderScanPage, ProviderError>
where
    I: Iterator<Item = holt::Result<RangeEntry>>,
{
    for entry in entries {
        if run.is_full() {
            break;
        }
        let item = match entry.unwrap() {
            RangeEntry::Key { key, value, .. } => ProviderScanItem::Key { key, value },
            RangeEntry::CommonPrefix(prefix) => ProviderScanItem::CommonPrefix(prefix),
            _ => continue,
        };
        if !run.accept(item) {
            break;
        }
    }
    Ok(run.finish(0, 0))
}

impl Provider {
    fn open_memory(id: u64) -> Self {
        let db = DB::open(TreeConfig::memory()).unwrap();
        validate_fresh_registry(&db.list_trees().unwrap()).unwrap();
        for name in schema_tree_names() {
            db.create_tree(&name).unwrap();
        }
        validate_tree_registry(&db.list_trees().unwrap()).unwrap();
        Provider {
            db,
            token: ProviderInstanceToken { id },
            checks_left: std::cell::Cell::new(None),
            poisoned: std::cell::Cell::new(false),
        }
    }

    fn fail_on_nth_from_now(&self, offset: usize) {
        self.checks_left.set(Some(offset - 1));
    }

    fn runtime_holds(&self) -> bool {
        if self.poisoned.get() {
            return false;
        }
        match self.checks_left.get() {
            None => true,
            Some(0) => {
                self.checks_left.set(None);
                false
            }
            Some(left) => {
                self.checks_left.set(Some(left - 1));
                true
            }
        }
    }

    fn validate_runtime(&self, operation: &str) -> Result<(), ProviderError> {
        if self.runtime_holds() {
            Ok(())
        } else {
            Err(runtime_guard_error(operation))
        }
    }

    fn get(&self, space: OrderedSpaceId, key: &[u8]) -> Result<Option<ProviderRecord>, ProviderError> {
        self.validate_runtime("read metadata record")?;
        validate_length(key.len(), HOLT_MAX_KEY_BYTES)?;
        validate_space(space)?;
        let found = self.db.open_tree(tree(space)).unwrap().get_record(key).unwrap();
        let found = found.map(|found| record(self.token, found.value, found.version.as_u64()));
        self.validate_runtime("validate metadata record read")?;
        Ok(found)
    }

    fn begin_read(&self, scopes: &Vec<ReadScope>) -> Result<ReadView<'_>, ProviderError> {
        self.validate_runtime("begin metadata read")?;
        let captured = captured_scopes(scopes)?;
        let raw = captured
            .iter()
            .map(|scope| (tree(scope.space), scope.prefix.as_slice()))
            .collect::<Vec<_>>();
        let views = self
            .db
            .view(&raw, |view| {
                Ok(captured
                    .iter()
                    .map(|scope| (scope.space, view.tree(tree(scope.space)).unwrap().clone()))
                    .collect::<BTreeMap<_, _>>())
            })
            .unwrap();
        Ok(ReadView {
            provider: self,
            views,
        })
    }

    fn begin_write(&self) -> Result<Transaction<'_>, ProviderError> {
        self.validate_runtime("begin metadata write")?;
        Ok(Transaction { provider: self })
    }

    fn commit(&self, plan: AtomicPlan) -> Result<AtomicCommitOutcome, ProviderError> {
        self.validate_runtime("commit metadata transaction")?;
        let batch = prepare_commit(&plan, self.token)?;
        let committed = self.db.atomic(|native| {
            for operation in &batch {
                match operation {
                    BatchOp::AssertVersion { space, key, version } => {
                        native.assert_version(tree(*space), key, RecordVersion::from_raw(*version));
                    }
                    BatchOp::AssertPrefixEmpty { space, prefix } => {
                        native.assert_prefix_empty(tree(*space), prefix);
                    }
                    BatchOp::Put { space, key, value } => native.put(tree(*space), key, value),
                    BatchOp::PutIfAbsent { space, key, value } => {
                        native.put_if_absent(tree(*space), key, value);
                    }
                    BatchOp::CompareAndPut {
                        space,
                        key,
                        version,
                        value,
                    } => native.compare_and_put(
                        tree(*space),
                        key,
                        RecordVersion::from_raw(*version),
                        value,
                    ),
                    BatchOp::Delete { space, key } => native.delete(tree(*space), key),
                }
            }
        });
        let holds = self.runtime_holds();
        let settlement = settle_commit(committed.ok(), holds);
        if settlement.poison {
            self.poisoned.set(true);
        }
        settlement.result
    }
}

impl ReadView<'_> {
    fn view(&self, space: OrderedSpaceId) -> Result<&View, ProviderError> {
        self.views.get(&space).ok_or_else(ProviderError::invalid_plan)
    }

    fn get(&self, space: OrderedSpaceId, key: &[u8]) -> Result<Option<ProviderRecord>, ProviderError> {
        self.provider.validate_runtime("read metadata view record")?;
        let found = self.view(space)?.get_record(key).unwrap();
        let found =
            found.map(|found| record(self.provider.token, found.value, found.version.as_u64()));
        self.provider
            .validate_runtime("validate metadata view record read")?;
        Ok(found)
    }

    fn scan(&self, request: ProviderScan) -> Result<ProviderScanPage, ProviderError> {
        self.provider.validate_runtime("scan metadata view")?;
        let mut range = self.view(request.space)?.scan(&request.prefix).unwrap();
        if let Some(start_after) = &request.start_after {
            range = range.start_after(start_after);
        }
        if let Some(delimiter) = request.delimiter {
            range = range.delimiter(delimiter);
        }
        let page = drain(HoltScanRun::start(request)?, range.into_iter())?;
        self.provider.validate_runtime("validate metadata view scan")?;
        Ok(page)
    }
}

fn put(provider: &Provider, space: OrderedSpaceId, key: &[u8], value: &[u8]) {
    let plan = AtomicPlan {
        operations: vec![AtomicOp::Put {
            space,
            key: key.to_vec(),
            value: value.to_vec(),
        }],
    };
    assert_eq!(
        provider.commit(plan).unwrap(),
        AtomicCommitOutcome::Committed
    );
}

fn value(provider: &Provider, space: OrderedSpaceId, key: &[u8]) -> Option<Vec<u8>> {
    provider.get(space, key).unwrap().map(|record| record.value)
}

fn requirements() -> ProviderRequirements {
    ProviderRequirements {
        max_atomic_operations: 4_096,
        max_logical_plan_bytes: 4 * 1_024 * 1_024,
    }
}

fn schema() -> ProviderSchemaV1 {
    ProviderSchemaV1 {
        spi_major: SPI_MAJOR,
        workspace_contract_digest: [0x55; 32],
        ordered_spaces: all_ordered_spaces(),
    }
}

/// What a workspace would refuse in an offer.
fn rejection_codes(capabilities: &ProviderCapabilities) -> Vec<&'static str> {
    let mut codes = Vec::new();
    if !capabilities.all_ambiguous_commit_outcomes_settled_before_return {
        codes.push("AmbiguousCommitMayRemainInFlight");
    }
    if capabilities.max_atomic_operations < requirements().max_atomic_operations {
        codes.push("AtomicOperationLimitTooSmall");
    }
    if !capabilities.commit_resolution_reads_causally_current {
        codes.push("CommitResolutionReadsNotCausallyCurrent");
    }
    if capabilities.max_logical_plan_bytes < requirements().max_logical_plan_bytes {
        codes.push("LogicalPlanLimitTooSmall");
    }
    if capabilities.max_read_view_duration_ms.is_some() {
        codes.push("ReadViewLifetimeBounded");
    }
    codes
}

fn store_identity() -> HoltStoreObjectIdentity {
    HoltStoreObjectIdentity {
        canonical_locator: b"/stores/metadata".to_vec(),
        directory_device: 3,
        directory_inode: 5,
        lock_device: 3,
        lock_inode: 7,
    }
}

#[test]
fn provider_contract_view_scan_is_ordered_delimited_and_exclusive() {
    let provider = Provider::open_memory(1);
    let space = domain_space(MetadataFamily::PathCurrent);
    let mut plan = AtomicPlan {
        operations: Vec::new(),
    };
    for (key, value) in [
        (b"root/a".to_vec(), b"a".to_vec()),
        (b"root/dir/one".to_vec(), b"one".to_vec()),
        (b"root/dir/two".to_vec(), b"two".to_vec()),
        (b"root/z".to_vec(), b"z".to_vec()),
    ] {
        plan.operations.push(AtomicOp::Put { space, key, value });
    }
    assert_eq!(
        provider.commit(plan).unwrap(),
        AtomicCommitOutcome::Committed
    );

    let view = provider
        .begin_read(&vec![ReadScope {
            space,
            prefix: b"root/".to_vec(),
        }])
        .unwrap();
    let page = view
        .scan(ProviderScan {
            space,
            prefix: b"root/".to_vec(),
            start_after: Some(b"root/a".to_vec()),
            delimiter: Some(b'/'),
            limit: 2,
        })
        .unwrap();
    assert_eq!(
        page.items,
        vec![
            ProviderScanItem::CommonPrefix(b"root/dir/".to_vec()),
            ProviderScanItem::Key {
                key: b"root/z".to_vec(),
                value: b"z".to_vec(),
            },
        ]
    );

    let first_page = view
        .scan(ProviderScan {
            space,
            prefix: b"root/".to_vec(),
            start_after: Some(b"root/a".to_vec()),
            delimiter: Some(b'/'),
            limit: 1,
        })
        .unwrap();
    assert_eq!(
        first_page.items,
        vec![ProviderScanItem::CommonPrefix(b"root/dir/".to_vec())]
    );
    let second_page = view
        .scan(ProviderScan {
            space,
            prefix: b"root/".to_vec(),
            start_after: Some(b"root/dir/".to_vec()),
            delimiter: Some(b'/'),
            limit: 1,
        })
        .unwrap();
    assert_eq!(
        second_page.items,
        vec![ProviderScanItem::Key {
            key: b"root/z".to_vec(),
            value: b"z".to_vec(),
        }]
    );
}

#[test]
fn holt_capabilities_and_preflight_limits_are_exact() {
    let provider = Provider::open_memory(1);
    let capabilities = capabilities_value(requirements());
    assert_eq!(
        capabilities.transaction_model,
        ProviderTransactionModel::CrossSpaceAtomicBatch
    );
    assert_eq!(
        capabilities.version_model,
        ProviderVersionModel::OpaqueRecordWitness
    );
    assert!(capabilities.consistent_cross_space_reads);
    assert!(capabilities.all_ambiguous_commit_outcomes_settled_before_return);
    assert!(capabilities.commit_resolution_reads_causally_current);
    assert_eq!(capabilities.max_key_bytes, u16::MAX as usize);
    assert_eq!(capabilities.max_value_bytes, u16::MAX as usize);
    assert_eq!(capabilities.max_transaction_bytes, u32::MAX as usize);
    assert_eq!(capabilities.max_read_view_duration_ms, None);
    assert_eq!(capabilities.max_scan_items, None);

    let oversized = vec![0; u16::MAX as usize + 1];
    let plan = AtomicPlan {
        operations: vec![AtomicOp::Put {
            space: SYSTEM_SPACE,
            key: b"key".to_vec(),
            value: oversized,
        }],
    };
    assert_eq!(plan.logical_footprint(), 3 + u16::MAX as usize + 1);
    let error = provider.commit(plan).unwrap_err();
    assert_eq!(error.kind(), ProviderErrorKind::TransactionTooLarge);
    assert_eq!(
        error.limit(),
        Some(ProviderTransactionLimit {
            affected_bytes: u16::MAX as usize + 1,
            max_bytes: u16::MAX as usize,
        })
    );
}

#[test]
fn cross_space_batch_commits_all_mutations_together() {
    let provider = Provider::open_memory(1);
    let plan = AtomicPlan {
        operations: vec![
            AtomicOp::Put {
                space: SYSTEM_SPACE,
                key: b"system".to_vec(),
                value: b"one".to_vec(),
            },
            AtomicOp::Put {
                space: domain_space(MetadataFamily::Operation),
                key: b"domain".to_vec(),
                value: b"two".to_vec(),
            },
        ],
    };
    assert_eq!(
        provider.commit(plan).unwrap(),
        AtomicCommitOutcome::Committed
    );
    assert_eq!(
        value(&provider, SYSTEM_SPACE, b"system"),
        Some(b"one".to_vec())
    );
    assert_eq!(
        value(&provider, domain_space(MetadataFamily::Operation), b"domain"),
        Some(b"two".to_vec())
    );
}

#[test]
fn absence_guard_is_atomic_on_conflict_and_ordered_on_success() {
    let provider = Provider::open_memory(1);
    let domain = domain_space(MetadataFamily::Operation);
    put(&provider, domain, b"occupied", b"original");

    let conflict = AtomicPlan {
        operations: vec![
            AtomicOp::AssertAbsent {
                space: domain,
                key: b"occupied".to_vec(),
            },
            AtomicOp::Put {
                space: SYSTEM_SPACE,
                key: b"must-not-commit".to_vec(),
                value: b"value".to_vec(),
            },
        ],
    };
    assert_eq!(
        provider.commit(conflict).unwrap(),
        AtomicCommitOutcome::Conflict
    );
    assert_eq!(
        value(&provider, domain, b"occupied"),
        Some(b"original".to_vec())
    );
    assert_eq!(value(&provider, SYSTEM_SPACE, b"must-not-commit"), None);

    let success = AtomicPlan {
        operations: vec![
            AtomicOp::AssertAbsent {
                space: domain,
                key: b"new".to_vec(),
            },
            AtomicOp::Put {
                space: domain,
                key: b"new".to_vec(),
                value: b"final".to_vec(),
            },
        ],
    };
    assert_eq!(
        provider.commit(success).unwrap(),
        AtomicCommitOutcome::Committed
    );
    assert_eq!(value(&provider, domain, b"new"), Some(b"final".to_vec()));
}

#[test]
fn prefix_empty_guard_observes_order_and_rolls_back_cross_space_conflicts() {
    let provider = Provider::open_memory(1);
    let domain = domain_space(MetadataFamily::Operation);
    put(&provider, domain, b"dir/child", b"child");

    let conflict = AtomicPlan {
        operations: vec![
            AtomicOp::AssertPrefixEmpty {
                space: domain,
                prefix: b"dir/".to_vec(),
            },
            AtomicOp::Put {
                space: SYSTEM_SPACE,
                key: b"must-not-commit".to_vec(),
                value: b"value".to_vec(),
            },
        ],
    };
    assert_eq!(
        provider.commit(conflict).unwrap(),
        AtomicCommitOutcome::Conflict
    );
    assert_eq!(value(&provider, SYSTEM_SPACE, b"must-not-commit"), None);

    let ordered = AtomicPlan {
        operations: vec![
            AtomicOp::Delete {
                space: domain,
                key: b"dir/child".to_vec(),
            },
            AtomicOp::AssertPrefixEmpty {
                space: domain,
                prefix: b"dir/".to_vec(),
            },
            AtomicOp::Put {
                space: SYSTEM_SPACE,
                key: b"committed".to_vec(),
                value: b"yes".to_vec(),
            },
        ],
    };
    assert_eq!(
        provider.commit(ordered).unwrap(),
        AtomicCommitOutcome::Committed
    );
    assert_eq!(value(&provider, domain, b"dir/child"), None);
    assert_eq!(
        value(&provider, SYSTEM_SPACE, b"committed"),
        Some(b"yes".to_vec())
    );
}

#[test]
fn stale_witness_conflict_is_all_or_nothing() {
    let provider = Provider::open_memory(1);
    put(&provider, SYSTEM_SPACE, b"guard", b"one");
    let stale = provider
        .get(SYSTEM_SPACE, b"guard")
        .unwrap()
        .unwrap()
        .witness;
    put(&provider, SYSTEM_SPACE, b"guard", b"two");

    let plan = AtomicPlan {
        operations: vec![
            AtomicOp::AssertUnchanged {
                space: SYSTEM_SPACE,
                key: b"guard".to_vec(),
                witness: stale,
            },
            AtomicOp::Put {
                space: domain_space(MetadataFamily::Operation),
                key: b"must-not-commit".to_vec(),
                value: b"value".to_vec(),
            },
        ],
    };
    assert_eq!(
        provider.commit(plan).unwrap(),
        AtomicCommitOutcome::Conflict
    );
    assert_eq!(
        value(&provider, SYSTEM_SPACE, b"guard"),
        Some(b"two".to_vec())
    );
    assert_eq!(
        value(
            &provider,
            domain_space(MetadataFamily::Operation),
            b"must-not-commit"
        ),
        None
    );
}

#[test]
fn foreign_witness_fails_with_typed_authority_error_before_mutation() {
    let first = Provider::open_memory(1);
    let second = Provider::open_memory(2);
    put(&first, SYSTEM_SPACE, b"guard", b"one");
    put(&second, SYSTEM_SPACE, b"guard", b"two");
    let foreign = first.get(SYSTEM_SPACE, b"guard").unwrap().unwrap().witness;
    let plan = AtomicPlan {
        operations: vec![AtomicOp::CompareAndPut {
            space: SYSTEM_SPACE,
            key: b"guard".to_vec(),
            witness: foreign,
            value: b"changed".to_vec(),
        }],
    };
    assert_eq!(
        second.commit(plan).unwrap_err().kind(),
        ProviderErrorKind::AuthorityMismatch
    );
    assert_eq!(
        value(&second, SYSTEM_SPACE, b"guard"),
        Some(b"two".to_vec())
    );

    let foreign = first.get(SYSTEM_SPACE, b"guard").unwrap().unwrap().witness;
    let plan = AtomicPlan {
        operations: vec![
            AtomicOp::AssertUnchanged {
                space: SYSTEM_SPACE,
                key: b"guard".to_vec(),
                witness: foreign,
            },
            AtomicOp::Put {
                space: domain_space(MetadataFamily::Operation),
                key: b"must-not-commit".to_vec(),
                value: b"bad".to_vec(),
            },
        ],
    };
    assert_eq!(
        second.commit(plan).unwrap_err().kind(),
        ProviderErrorKind::AuthorityMismatch
    );
    assert_eq!(
        value(
            &second,
            domain_space(MetadataFamily::Operation),
            b"must-not-commit"
        ),
        None
    );
}

#[test]
fn delete_and_reinsert_never_revalidates_an_old_witness() {
    let provider = Provider::open_memory(1);
    let space = SYSTEM_SPACE;
    put(&provider, space, b"aba", b"same");
    let stale = provider.get(space, b"aba").unwrap().unwrap().witness;
    assert_eq!(
        provider
            .commit(AtomicPlan {
                operations: vec![
                    AtomicOp::Delete {
                        space,
                        key: b"aba".to_vec(),
                    },
                    AtomicOp::Put {
                        space,
                        key: b"aba".to_vec(),
                        value: b"same".to_vec(),
                    },
                ],
            })
            .unwrap(),
        AtomicCommitOutcome::Committed
    );
    assert_eq!(
        provider
            .commit(AtomicPlan {
                operations: vec![AtomicOp::AssertUnchanged {
                    space,
                    key: b"aba".to_vec(),
                    witness: stale,
                }],
            })
            .unwrap(),
        AtomicCommitOutcome::Conflict
    );
}

#[test]
fn captured_view_is_consistent_across_spaces_after_a_later_commit() {
    let provider = Provider::open_memory(1);
    let domain = domain_space(MetadataFamily::Operation);
    put(&provider, SYSTEM_SPACE, b"version", b"one");
    put(&provider, domain, b"record", b"one");
    let view = provider
        .begin_read(&vec![
            ReadScope {
                space: SYSTEM_SPACE,
                prefix: b"version".to_vec(),
            },
            ReadScope {
                space: domain,
                prefix: b"record".to_vec(),
            },
        ])
        .unwrap();

    let later = AtomicPlan {
        operations: vec![
            AtomicOp::Put {
                space: SYSTEM_SPACE,
                key: b"version".to_vec(),
                value: b"two".to_vec(),
            },
            AtomicOp::Put {
                space: domain,
                key: b"record".to_vec(),
                value: b"two".to_vec(),
            },
        ],
    };
    assert_eq!(
        provider.commit(later).unwrap(),
        AtomicCommitOutcome::Committed
    );
    assert_eq!(
        view.get(SYSTEM_SPACE, b"version").unwrap().unwrap().value,
        b"one"
    );
    assert_eq!(view.get(domain, b"record").unwrap().unwrap().value, b"one");
    assert_eq!(
        value(&provider, SYSTEM_SPACE, b"version"),
        Some(b"two".to_vec())
    );
    assert_eq!(value(&provider, domain, b"record"), Some(b"two".to_vec()));
}

#[test]
fn scan_limit_is_a_hard_ordered_page_bound() {
    let provider = Provider::open_memory(1);
    let domain = domain_space(MetadataFamily::Operation);
    for key in [b"k/1", b"k/2", b"k/3"] {
        put(&provider, domain, key, key);
    }
    let view = provider
        .begin_read(&vec![ReadScope {
            space: domain,
            prefix: b"k/".to_vec(),
        }])
        .unwrap();
    let page = view
        .scan(ProviderScan {
            space: domain,
            prefix: b"k/".to_vec(),
            start_after: None,
            delimiter: None,
            limit: 2,
        })
        .unwrap();
    assert_eq!(
        page.items,
        vec![
            ProviderScanItem::Key {
                key: b"k/1".to_vec(),
                value: b"k/1".to_vec(),
            },
            ProviderScanItem::Key {
                key: b"k/2".to_vec(),
                value: b"k/2".to_vec(),
            },
        ]
    );
}

#[test]
fn built_in_holt_offer_meets_the_complete_workspace_envelope() {
    let offer = contract_offer(&schema(), &[0x55; 32], requirements()).unwrap();
    assert_eq!(rejection_codes(&offer), Vec::<&str>::new());
}

#[test]
fn foreign_schemas_get_no_offer() {
    let mut old = schema();
    old.spi_major = SPI_MAJOR + 1;
    assert_eq!(
        contract_offer(&old, &[0x55; 32], requirements())
            .unwrap_err()
            .kind(),
        ProviderErrorKind::Schema
    );
    let mut short = schema();
    short.ordered_spaces.pop();
    assert_eq!(
        contract_offer(&short, &[0x55; 32], requirements())
            .unwrap_err()
            .kind(),
        ProviderErrorKind::Schema
    );
    assert_eq!(
        contract_offer(&schema(), &[0x56; 32], requirements())
            .unwrap_err()
            .kind(),
        ProviderErrorKind::Schema
    );
}

#[test]
fn captured_read_view_revalidates_runtime_around_access() {
    let provider = Provider::open_memory(1);
    let view = provider
        .begin_read(&vec![ReadScope {
            space: SYSTEM_SPACE,
            prefix: Vec::new(),
        }])
        .unwrap();
    provider.fail_on_nth_from_now(1);

    let error = view.get(SYSTEM_SPACE, b"schema").unwrap_err();

    assert_eq!(error.kind(), ProviderErrorKind::AuthorityMismatch);
    assert_eq!(error.operation(), ProviderOperationV1::ReadRecord);

    provider.fail_on_nth_from_now(2);
    let error = view.get(SYSTEM_SPACE, b"schema").unwrap_err();

    assert_eq!(error.kind(), ProviderErrorKind::AuthorityMismatch);
    assert_eq!(error.operation(), ProviderOperationV1::ReadRecord);
}

#[test]
fn direct_and_transaction_get_discard_values_after_failed_post_validation() {
    let provider = Provider::open_memory(1);
    put(
        &provider,
        SYSTEM_SPACE,
        b"runtime/post-read",
        b"must-not-escape",
    );

    provider.fail_on_nth_from_now(2);
    let direct_error = provider
        .get(SYSTEM_SPACE, b"runtime/post-read")
        .unwrap_err();
    assert_eq!(direct_error.kind(), ProviderErrorKind::AuthorityMismatch);
    assert_eq!(direct_error.operation(), ProviderOperationV1::ReadRecord);

    let transaction = provider.begin_write().unwrap();
    provider.fail_on_nth_from_now(2);
    let transaction_error = transaction
        .get(SYSTEM_SPACE, b"runtime/post-read")
        .unwrap_err();
    assert_eq!(
        transaction_error.kind(),
        ProviderErrorKind::AuthorityMismatch
    );
    assert_eq!(
        transaction_error.operation(),
        ProviderOperationV1::ReadRecord
    );
}

#[test]
fn every_db_atomic_error_is_an_unknown_outcome_until_holt_types_commit_phase() {
    for error in [
        holt::Error::Internal("post-mutation WAL submission failed"),
        holt::Error::BlobStoreIo(std::io::Error::other("fsync failed")),
    ] {
        let settlement = settle_commit(Err::<bool, _>(error).ok(), true);
        assert!(settlement.poison);
        let mapped = settlement.result.unwrap_err();
        assert_eq!(mapped, commit_error());
        assert_eq!(mapped.kind(), ProviderErrorKind::UnknownCommitSettled);
        assert_eq!(mapped.operation(), ProviderOperationV1::Commit);
    }
}

#[test]
fn ordinary_file_factory_rejects_prepared_create_without_touching_the_location() {
    let error = require_create(
        FactoryLocation::File,
        CreateRecoveryIntentV1::ReconcilePrepared,
    )
    .unwrap_err();
    assert_eq!(error.kind(), ProviderErrorKind::AuthorityMismatch);
    assert_eq!(error.operation(), ProviderOperationV1::Create);
    assert!(require_create(FactoryLocation::File, CreateRecoveryIntentV1::Fresh).is_ok());
}

#[test]
fn post_atomic_guard_failure_is_unknown_and_poisons_on_commit_or_conflict() {
    for conflict in [false, true] {
        let provider = Provider::open_memory(1);
        let space = domain_space(MetadataFamily::Operation);
        if conflict {
            put(&provider, space, b"key", b"first");
        }

        provider.fail_on_nth_from_now(2);
        let operation = if conflict {
            AtomicOp::PutIfAbsent {
                space,
                key: b"key".to_vec(),
                value: b"second".to_vec(),
            }
        } else {
            AtomicOp::Put {
                space,
                key: b"key".to_vec(),
                value: b"first".to_vec(),
            }
        };
        assert!(matches!(
            provider.commit(AtomicPlan {
                operations: vec![operation],
            }),
            Err(error) if error.kind() == ProviderErrorKind::UnknownCommitSettled
        ));
        assert!(provider.poisoned.get());
        assert_eq!(
            provider
                .db
                .open_tree(tree(space))
                .unwrap()
                .get(b"key")
                .unwrap()
                .unwrap(),
            b"first"
        );
    }
}

#[test]
fn reserved_existing_acquisition_rejects_a_wrong_expected_identity() {
    let expected = store_identity();
    let wrong = HoltStoreObjectIdentity {
        lock_inode: expected.lock_inode.wrapping_add(1),
        ..store_identity()
    };
    assert_eq!(
        require_identity(&expected, &wrong, ProviderOperationV1::Reopen)
            .unwrap_err()
            .kind(),
        ProviderErrorKind::AuthorityMismatch
    );
    assert!(require_identity(&expected, &store_identity(), ProviderOperationV1::Reopen).is_ok());
}

#[test]
fn reserved_existing_base_trait_is_rejected_without_consuming_the_typed_fence() {
    let create = require_create(
        FactoryLocation::ReservedExisting,
        CreateRecoveryIntentV1::Fresh,
    )
    .unwrap_err();
    assert_eq!(create.kind(), ProviderErrorKind::AuthorityMismatch);
    assert_eq!(create.operation(), ProviderOperationV1::Create);
    let reopen = require_reopen(FactoryLocation::ReservedExisting).unwrap_err();
    assert_eq!(reopen.kind(), ProviderErrorKind::AuthorityMismatch);
    assert_eq!(reopen.operation(), ProviderOperationV1::Reopen);
    assert_eq!(
        require_pending_recovery(FactoryLocation::ReservedExisting, true, true),
        Ok(())
    );
    assert_eq!(ReservedState::Ready.step(), ReservedStep::Adopt);
}

#[test]
fn ordinary_holt_installations_do_not_advertise_old_dispatch_exclusion() {
    for location in [FactoryLocation::Memory, FactoryLocation::File] {
        assert_eq!(
            require_pending_recovery(location, true, true),
            Err(PendingRecoveryRefusal::Unsupported)
        );
    }
    assert_eq!(
        require_reopen(FactoryLocation::Memory).unwrap_err().kind(),
        ProviderErrorKind::AuthorityMismatch
    );
    assert!(require_reopen(FactoryLocation::File).is_ok());
}

#[test]
fn reserved_recovery_fence_rejects_a_capability_swap_before_opening() {
    assert_eq!(
        require_pending_recovery(FactoryLocation::ReservedExisting, true, false),
        Err(PendingRecoveryRefusal::InvalidBinding)
    );
    assert_eq!(
        require_pending_recovery(FactoryLocation::ReservedExisting, false, true),
        Err(PendingRecoveryRefusal::InvalidBinding)
    );
    assert_eq!(
        require_pending_recovery(FactoryLocation::ReservedExisting, true, true),
        Ok(())
    );
}

#[test]
fn reserved_existing_guard_error_retries_the_same_opened_store() {
    let opened = ReservedState::Ready.advance(true);
    assert_eq!(opened, ReservedState::Opened);
    let refused = opened.advance(false);
    assert_eq!(refused, ReservedState::Opened);
    assert_eq!(refused.step(), ReservedStep::Deliver);
    let delivered = refused.advance(true);
    assert_eq!(delivered, ReservedState::Delivered);
    assert_eq!(delivered.step(), ReservedStep::Refuse);
    assert_eq!(delivered.advance(true), ReservedState::Delivered);
}

#[test]
fn store_locations_are_judged_by_what_is_there() {
    assert!(require_fresh_location(StoreLocation::Missing).is_ok());
    assert!(require_fresh_location(StoreLocation::EmptyDirectory).is_ok());
    for taken in [
        StoreLocation::NotDirectory,
        StoreLocation::OccupiedDirectory,
    ] {
        assert_eq!(
            require_fresh_location(taken).unwrap_err().kind(),
            ProviderErrorKind::Schema
        );
    }
    for missing in [StoreLocation::Missing, StoreLocation::NotDirectory] {
        assert_eq!(
            require_existing_location(missing).unwrap_err().kind(),
            ProviderErrorKind::Schema
        );
    }
    assert!(require_existing_location(StoreLocation::OccupiedDirectory).is_ok());
}

#[test]
fn a_replaced_directory_is_no_created_store() {
    let before = PreopenCreateIdentity {
        canonical_locator: b"/stores/metadata".to_vec(),
        existing_directory: Some((3, 5)),
    };
    assert!(before.validate_after(&store_identity()).is_ok());
    let replaced = HoltStoreObjectIdentity {
        directory_inode: 6,
        ..store_identity()
    };
    assert_eq!(
        before.validate_after(&replaced).unwrap_err().kind(),
        ProviderErrorKind::AuthorityMismatch
    );
    let moved = HoltStoreObjectIdentity {
        canonical_locator: b"/stores/other".to_vec(),
        ..store_identity()
    };
    assert_eq!(
        before.validate_after(&moved).unwrap_err().operation(),
        ProviderOperationV1::Create
    );
}

#[test]
fn tree_registries_are_exact() {
    let mut names = schema_tree_names();
    names.reverse();
    assert!(validate_tree_registry(&names).is_ok());
    names.pop();
    assert_eq!(
        validate_tree_registry(&names).unwrap_err().kind(),
        ProviderErrorKind::Schema
    );
    assert_eq!(
        validate_fresh_registry(&names).unwrap_err().kind(),
        ProviderErrorKind::Schema
    );
}

#[test]
fn operations_are_named_by_their_first_word() {
    for (operation, code) in [
        ("validate committed metadata transaction", ProviderOperationV1::Commit),
        ("scan metadata view", ProviderOperationV1::Scan),
        ("begin metadata read", ProviderOperationV1::BeginRead),
        ("read metadata view record", ProviderOperationV1::ReadRecord),
        ("create database", ProviderOperationV1::Create),
        ("open database", ProviderOperationV1::Reopen),
        ("inspect schema trees", ProviderOperationV1::InspectSchema),
        ("validate metadata provider runtime", ProviderOperationV1::ValidateRuntime),
    ] {
        assert_eq!(operation_code(operation), code);
    }
}

/// A reserved store that is adopted from its reservation and handed out once.
struct ReservedStore {
    state: ReservedState,
    adoptions: usize,
}

impl ReservedStore {
    fn held() -> Self {
        ReservedStore {
            state: ReservedState::Ready,
            adoptions: 0,
        }
    }

    /// Opens the store for recovery, where adopting it and validating it may
    /// fail.
    fn reopen(&mut self, adopts: bool, validates: bool) -> Result<(), ProviderError> {
        loop {
            match self.state.step() {
                ReservedStep::Adopt => {
                    self.state = self.state.advance(adopts);
                    if !adopts {
                        return Err(runtime_guard_error("adopt reserved Holt store"));
                    }
                    self.adoptions += 1;
                }
                ReservedStep::Deliver => {
                    self.state = self.state.advance(validates);
                    if validates {
                        return Ok(());
                    }
                    return Err(runtime_guard_error("bind reserved Holt store"));
                }
                ReservedStep::Refuse => {
                    return Err(ProviderError::authority_mismatch(
                        ProviderOperationV1::Reopen,
                    ));
                }
            }
        }
    }
}

#[test]
fn reserved_recovery_delivers_the_adopted_store_once() {
    let mut reserved = ReservedStore::held();
    assert!(reserved.reopen(true, true).is_ok());
    assert_eq!(reserved.state, ReservedState::Delivered);
    assert_eq!(reserved.adoptions, 1);
    let again = reserved.reopen(true, true).unwrap_err();
    assert_eq!(again.kind(), ProviderErrorKind::AuthorityMismatch);
    assert_eq!(again.operation(), ProviderOperationV1::Reopen);
    assert_eq!(reserved.adoptions, 1);
}

#[test]
fn unknown_recovery_retains_the_adopted_store() {
    let mut reserved = ReservedStore::held();
    assert!(reserved.reopen(true, false).is_err());
    assert_eq!(reserved.state, ReservedState::Opened);
    assert_eq!(reserved.state.step(), ReservedStep::Deliver);
    assert_eq!(reserved.adoptions, 1);
}

#[test]
fn unknown_recovery_is_retried_on_the_same_adopted_store() {
    let mut reserved = ReservedStore::held();
    assert!(reserved.reopen(true, false).is_err());
    assert!(reserved.reopen(true, false).is_err());
    assert!(reserved.reopen(true, true).is_ok());
    assert_eq!(reserved.adoptions, 1);
    assert_eq!(reserved.state, ReservedState::Delivered);
}

#[test]
fn failed_adoption_leaves_the_reservation_held() {
    let mut reserved = ReservedStore::held();
    assert!(reserved.reopen(false, true).is_err());
    assert_eq!(reserved.state, ReservedState::Ready);
    assert_eq!(reserved.adoptions, 0);
    assert!(reserved.reopen(true, true).is_ok());
    assert_eq!(reserved.adoptions, 1);
}

#[test]
fn held_identity_needs_two_reports_that_agree() {
    let operation = ProviderOperationV1::Reopen;
    let held = held_identity(Some(store_identity()), Some(store_identity()), operation).unwrap();
    assert!(require_identity(&store_identity(), &held, operation).is_ok());
    let mut replaced = store_identity();
    replaced.lock_inode += 1;
    for (opened, validated) in [
        (Some(store_identity()), Some(replaced)),
        (Some(store_identity()), None),
        (None, Some(store_identity())),
        (None, None),
    ] {
        assert_eq!(
            held_identity(opened, validated, operation).unwrap_err().kind(),
            ProviderErrorKind::AuthorityMismatch
        );
    }
}
