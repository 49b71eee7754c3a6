//! Commits and scans over a simulated ordered key-value database.

use std::cell::{Cell, RefCell};
use std::collections::BTreeMap;

use nokv_meta::fdb_commit::{CommitAction, CommitEvent, CommitRun};
use nokv_meta::fdb_keys::{
    encode_namespace_prefix, logical_key, physical_key, physical_space_prefix,
    MetadataStoreIdentity, VERSIONSTAMP_BYTES, VERSIONSTAMP_OFFSET_BYTES,
};
use nokv_meta::fdb_provider::{
    bind, captured_scopes, contract_offer, create, point_read_key, prefix_range, read_error,
    record, reopen, validate_runtime, witness_bytes, FoundationDbProviderConfig,
    FoundationDbProviderConfigError, FoundationDbRuntimeError, FDB_COMMIT_UNKNOWN_RESULT,
    FDB_MAX_LOGICAL_KEY_BYTES, FDB_NOT_COMMITTED, FDB_TRANSACTION_TOO_LARGE,
};
use nokv_meta::fdb_scan::{NativeRow, ScanRun, FDB_SCAN_BATCH_ROWS};
use nokv_meta::ids::{ConsistencyDomainId, LogicalShardId, MetadataAuthorityId};
use nokv_meta::positions::MetadataAuthorityGeneration;
use nokv_meta::provider::{
    AtomicCommitOutcome, AtomicOp, AtomicPlan, CreateRecoveryIntentV1, ProviderError,
    ProviderErrorKind, ProviderInstanceToken, ProviderOperationV1, ProviderRecord, ProviderScan,
    ProviderScanItem, ProviderScanPage, ProviderSchemaV1, ReadScope, SPI_MAJOR,
};
use nokv_meta::provider_catalog::{
    all_ordered_spaces, domain_space, MetadataFamily, OrderedSpaceId, SYSTEM_SPACE,
};
use nokv_meta::scopes::{coalesce_scopes, validate_scope};

fn identity() -> MetadataStoreIdentity {
    MetadataStoreIdentity {
        logical_shard_id: LogicalShardId::from_bytes([0x22; 16]),
        authority_id: MetadataAuthorityId::from_bytes([0x33; 16]),
        authority_generation: MetadataAuthorityGeneration::new(7).unwrap(),
        consistency_domain_id: ConsistencyDomainId::from_bytes([0x11; 16]),
        profile_fingerprint: [0x44; 32],
        contract_digest: [0x55; 32],
    }
}

fn schema() -> ProviderSchemaV1 {
    ProviderSchemaV1 {
        spi_major: SPI_MAJOR,
        workspace_contract_digest: [0x55; 32],
        ordered_spaces: all_ordered_spaces(),
    }
}

/// The rows of the database and the stamp of the next commit.
struct Database {
    namespace: Vec<u8>,
    token: ProviderInstanceToken,
    rows: RefCell<BTreeMap<Vec<u8>, Vec<u8>>>,
    stamp: Cell<u8>,
    /// Code that the next native commit reports.
    commit_code: Cell<Option<i32>>,
    /// Whether the runtime still holds after a commit.
    running: Cell<bool>,
    native_commits: Cell<usize>,
}

impl Database {
    fn open(id: u64) -> Self {
        Database {
            namespace: encode_namespace_prefix(identity()),
            token: ProviderInstanceToken { id },
            rows: RefCell::new(BTreeMap::new()),
            stamp: Cell::new(1),
            commit_code: Cell::new(None),
            running: Cell::new(true),
            native_commits: Cell::new(0),
        }
    }

    fn get(&self, space: OrderedSpaceId, key: &[u8]) -> Option<ProviderRecord> {
        let key = point_read_key(&self.namespace, space, key).unwrap();
        let stored = self.rows.borrow().get(&key).cloned();
        stored.map(|stored| record(self.token, stored).unwrap())
    }

    fn value(&self, space: OrderedSpaceId, key: &[u8]) -> Option<Vec<u8>> {
        self.get(space, key).map(|record| record.value)
    }

    fn commit_with(
        &self,
        plan: AtomicPlan,
        budget: usize,
    ) -> Result<AtomicCommitOutcome, ProviderError> {
        let mut transaction = self.rows.borrow().clone();
        let mut size = 0_i64;
        let mut run = CommitRun::start(&self.namespace, budget, self.token, plan);
        loop {
            let event = match run.action() {
                CommitAction::Continue => CommitEvent::Done,
                CommitAction::ReadRecord { key } => {
                    CommitEvent::Record(transaction.get(&key).cloned())
                }
                CommitAction::CheckRange { begin, end } => {
                    CommitEvent::RangeEmpty(transaction.range(begin..end).next().is_none())
                }
                CommitAction::ClearRecord { key } => {
                    size += key.len() as i64;
                    transaction.remove(&key);
                    CommitEvent::Done
                }
                CommitAction::WriteRecord { key, operand } => {
                    size += (key.len() + operand.len()) as i64;
                    let mut stored = operand[..operand.len() - VERSIONSTAMP_OFFSET_BYTES].to_vec();
                    stored[1..1 + VERSIONSTAMP_BYTES]
                        .copy_from_slice(&[self.stamp.get(); VERSIONSTAMP_BYTES]);
                    transaction.insert(key, stored);
                    CommitEvent::Done
                }
                CommitAction::LimitSize { .. } => CommitEvent::Done,
                CommitAction::EstimateSize => CommitEvent::Size(size),
                CommitAction::Commit => {
                    self.native_commits.set(self.native_commits.get() + 1);
                    let code = self.commit_code.take();
                    if code.is_none() {
                        self.stamp.set(self.stamp.get() + 1);
                        *self.rows.borrow_mut() = transaction.clone();
                    }
                    CommitEvent::Settled(code)
                }
                CommitAction::ValidateRuntime => {
                    CommitEvent::Validated(validate_runtime(self.running.get()))
                }
                CommitAction::Finish => break,
            };
            run.resume(event);
        }
        run.into_result().unwrap()
    }

    fn commit(&self, operations: Vec<AtomicOp>) -> Result<AtomicCommitOutcome, ProviderError> {
        self.commit_with(AtomicPlan { operations }, 1_000_000)
    }

    fn put(&self, space: OrderedSpaceId, key: &[u8], value: &[u8]) {
        let outcome = self.commit(vec![AtomicOp::Put {
            space,
            key: key.to_vec(),
            value: value.to_vec(),
        }]);
        assert_eq!(outcome, Ok(AtomicCommitOutcome::Committed));
    }

    fn scan(&self, request: ProviderScan) -> ProviderScanPage {
        let rows = self.rows.borrow();
        let Some(mut run) =
            ScanRun::start(&self.namespace, request, FDB_MAX_LOGICAL_KEY_BYTES).unwrap()
        else {
            return ProviderScanPage::default();
        };
        while let Some(limit) = run.next_limit() {
            assert!(limit <= FDB_SCAN_BATCH_ROWS);
            let begin = run.begin();
            let found = rows
                .iter()
                .filter(|(key, _)| {
                    let after = if begin.inclusive {
                        **key >= begin.key
                    } else {
                        **key > begin.key
                    };
                    after && *key < run.end()
                })
                .map(|(key, value)| NativeRow {
                    key: key.clone(),
                    value: value.clone(),
                })
                .collect::<Vec<_>>();
            let more = found.len() > limit;
            let batch = found.into_iter().take(limit).collect();
            run.accept(&batch, more).unwrap();
        }
        run.finish()
    }
}

fn key_item(key: &[u8], value: &[u8]) -> ProviderScanItem {
    ProviderScanItem::Key {
        key: key.to_vec(),
        value: value.to_vec(),
    }
}

#[test]
fn committed_plans_are_read_back_in_every_space() {
    let database = Database::open(1);
    let domain = domain_space(MetadataFamily::Operation);
    let outcome = database.commit(vec![
        AtomicOp::Put {
            space: SYSTEM_SPACE,
            key: b"key".to_vec(),
            value: b"one".to_vec(),
        },
        AtomicOp::Put {
            space: domain,
            key: b"key".to_vec(),
            value: b"two".to_vec(),
        },
    ]);
    assert_eq!(outcome, Ok(AtomicCommitOutcome::Committed));
    assert_eq!(database.value(SYSTEM_SPACE, b"key"), Some(b"one".to_vec()));
    assert_eq!(database.value(domain, b"key"), Some(b"two".to_vec()));
    assert_eq!(database.value(domain, b"other"), None);
}

#[test]
fn guards_see_the_writes_before_them() {
    let database = Database::open(1);
    let domain = domain_space(MetadataFamily::Operation);
    database.put(domain, b"dir/child", b"child");
    let conflict = database.commit(vec![AtomicOp::AssertPrefixEmpty {
        space: domain,
        prefix: b"dir/".to_vec(),
    }]);
    assert_eq!(conflict, Ok(AtomicCommitOutcome::Conflict));
    let moved = database.commit(vec![
        AtomicOp::Delete {
            space: domain,
            key: b"dir/child".to_vec(),
        },
        AtomicOp::AssertPrefixEmpty {
            space: domain,
            prefix: b"dir/".to_vec(),
        },
        AtomicOp::AssertAbsent {
            space: domain,
            key: b"dir/child".to_vec(),
        },
        AtomicOp::PutIfAbsent {
            space: domain,
            key: b"dir/child".to_vec(),
            value: b"again".to_vec(),
        },
    ]);
    assert_eq!(moved, Ok(AtomicCommitOutcome::Committed));
    assert_eq!(database.value(domain, b"dir/child"), Some(b"again".to_vec()));
}

#[test]
fn stale_and_foreign_witnesses_write_nothing() {
    let database = Database::open(1);
    database.put(SYSTEM_SPACE, b"guard", b"one");
    let stale = database.get(SYSTEM_SPACE, b"guard").unwrap().witness;
    assert!(witness_bytes(ProviderInstanceToken { id: 1 }, &stale).is_ok());
    database.put(SYSTEM_SPACE, b"guard", b"two");
    let outcome = database.commit(vec![AtomicOp::CompareAndPut {
        space: SYSTEM_SPACE,
        key: b"guard".to_vec(),
        witness: stale.clone(),
        value: b"three".to_vec(),
    }]);
    assert_eq!(outcome, Ok(AtomicCommitOutcome::Conflict));

    let other = Database::open(2);
    other.put(SYSTEM_SPACE, b"guard", b"two");
    let error = other
        .commit(vec![AtomicOp::AssertUnchanged {
            space: SYSTEM_SPACE,
            key: b"guard".to_vec(),
            witness: stale,
        }])
        .unwrap_err();
    assert_eq!(error.kind(), ProviderErrorKind::AuthorityMismatch);
    assert_eq!(other.value(SYSTEM_SPACE, b"guard"), Some(b"two".to_vec()));

    let fresh = database.get(SYSTEM_SPACE, b"guard").unwrap().witness;
    let outcome = database.commit(vec![AtomicOp::CompareAndPut {
        space: SYSTEM_SPACE,
        key: b"guard".to_vec(),
        witness: fresh,
        value: b"three".to_vec(),
    }]);
    assert_eq!(outcome, Ok(AtomicCommitOutcome::Committed));
    assert_eq!(database.value(SYSTEM_SPACE, b"guard"), Some(b"three".to_vec()));
}

#[test]
fn native_commits_are_tried_once_and_settled_by_their_code() {
    for (code, expected) in [
        (FDB_NOT_COMMITTED, Ok(AtomicCommitOutcome::Conflict)),
        (
            FDB_COMMIT_UNKNOWN_RESULT,
            Err(ProviderErrorKind::UnknownCommitSettled),
        ),
        (1_031, Err(ProviderErrorKind::UnknownCommitUnsettled)),
        (
            FDB_TRANSACTION_TOO_LARGE,
            Err(ProviderErrorKind::TransactionTooLarge),
        ),
    ] {
        let database = Database::open(1);
        database.commit_code.set(Some(code));
        let outcome = database.commit(vec![AtomicOp::Put {
            space: SYSTEM_SPACE,
            key: b"key".to_vec(),
            value: b"value".to_vec(),
        }]);
        assert_eq!(outcome.map_err(|error| error.kind()), expected);
        assert_eq!(database.native_commits.get(), 1);
        assert_eq!(database.value(SYSTEM_SPACE, b"key"), None);
    }
}

#[test]
fn commits_over_budget_are_never_sent() {
    let database = Database::open(1);
    let plan = AtomicPlan {
        operations: vec![AtomicOp::Put {
            space: SYSTEM_SPACE,
            key: b"key".to_vec(),
            value: vec![0; 100],
        }],
    };
    let error = database.commit_with(plan, 64).unwrap_err();
    assert_eq!(error.kind(), ProviderErrorKind::TransactionTooLarge);
    assert_eq!(error.limit().unwrap().max_bytes, 64);
    assert_eq!(database.native_commits.get(), 0);
}

#[test]
fn unknown_spaces_are_no_plan() {
    let database = Database::open(1);
    let error = database
        .commit(vec![AtomicOp::Delete {
            space: 0x0210,
            key: b"key".to_vec(),
        }])
        .unwrap_err();
    assert_eq!(error.kind(), ProviderErrorKind::InvalidPlan);
    assert_eq!(database.native_commits.get(), 0);
}

#[test]
fn a_lost_runtime_makes_a_commit_unknown() {
    let database = Database::open(1);
    database.running.set(false);
    let error = database
        .commit(vec![AtomicOp::Put {
            space: SYSTEM_SPACE,
            key: b"key".to_vec(),
            value: b"value".to_vec(),
        }])
        .unwrap_err();
    assert_eq!(error.kind(), ProviderErrorKind::UnknownCommitSettled);
    assert!(error.is_unknown_commit());
}

#[test]
fn scans_roll_up_in_order_without_gap_over_many_batches() {
    let database = Database::open(1);
    let space = domain_space(MetadataFamily::PathCurrent);
    let mut operations = Vec::new();
    for index in 0..200 {
        operations.push(AtomicOp::Put {
            space,
            key: format!("scan/dir/{index:04}").into_bytes(),
            value: vec![index as u8],
        });
    }
    assert_eq!(
        database.commit(operations),
        Ok(AtomicCommitOutcome::Committed)
    );
    database.put(space, b"scan/a", b"a");
    database.put(space, b"scan/z", b"z");
    database.put(space, b"scan0", b"outside");
    database.put(SYSTEM_SPACE, b"scan/b", b"other space");
    let request = |delimiter, start_after, limit| ProviderScan {
        space,
        prefix: b"scan/".to_vec(),
        start_after,
        delimiter,
        limit,
    };

    let rolled = database.scan(request(Some(b'/'), None, 0));
    assert_eq!(
        rolled.items,
        vec![
            key_item(b"scan/a", b"a"),
            ProviderScanItem::CommonPrefix(b"scan/dir/".to_vec()),
            key_item(b"scan/z", b"z"),
        ]
    );
    assert_eq!(rolled.stats.returned, 2);
    assert_eq!(rolled.stats.common_prefixes, 1);

    let resumed = database.scan(request(Some(b'/'), Some(b"scan/dir/".to_vec()), 1));
    assert_eq!(resumed.items, vec![key_item(b"scan/z", b"z")]);

    let flat = database.scan(request(None, None, 0));
    assert_eq!(flat.items.len(), 202);
    assert!(flat
        .items
        .windows(2)
        .all(|pair| pair[0].boundary() < pair[1].boundary()));

    let page = database.scan(request(None, Some(b"scan/dir/0100".to_vec()), 150));
    assert_eq!(page.items.len(), 100);
    assert_eq!(page.items[0], key_item(b"scan/dir/0101", &[101]));

    let outside = database.scan(request(Some(b'/'), Some(b"scan0".to_vec()), 1));
    assert_eq!(outside.items, Vec::new());
}

#[test]
fn physical_keys_keep_order_and_spaces_apart() {
    let namespace = encode_namespace_prefix(identity());
    let low = physical_key(&namespace, SYSTEM_SPACE, b"a");
    let high = physical_key(&namespace, SYSTEM_SPACE, b"b");
    assert!(low < high);
    let prefix = physical_space_prefix(&namespace, SYSTEM_SPACE);
    assert_eq!(logical_key(&prefix, &low), Some(&b"a"[..]));
    let other = physical_space_prefix(&namespace, SYSTEM_SPACE + 1);
    assert_eq!(logical_key(&other, &low), None);
    let (begin, end) = prefix_range(&namespace, SYSTEM_SPACE, b"a").unwrap();
    assert!(begin <= low && low < end && high >= end);
    assert_eq!(namespace, bind(identity(), FoundationDbProviderConfig::default()).unwrap());
}

#[test]
fn only_the_exact_contract_opens_a_store() {
    let config = FoundationDbProviderConfig::default();
    let namespace = encode_namespace_prefix(identity());
    assert_eq!(
        create(
            &schema(),
            &[0x55; 32],
            CreateRecoveryIntentV1::Fresh,
            identity(),
            config,
        ),
        Ok(namespace.clone())
    );
    assert_eq!(
        reopen(&schema(), &[0x55; 32], identity(), config),
        Ok(namespace)
    );
    assert_eq!(
        create(
            &schema(),
            &[0x55; 32],
            CreateRecoveryIntentV1::ReconcilePrepared,
            identity(),
            config,
        )
        .unwrap_err()
        .kind(),
        ProviderErrorKind::Schema
    );
    assert_eq!(
        reopen(&schema(), &[0x56; 32], identity(), config)
            .unwrap_err()
            .kind(),
        ProviderErrorKind::Schema
    );
    assert!(contract_offer(config, &schema(), &[0x55; 32]).is_ok());
}

#[test]
fn scopes_are_coalesced_to_their_common_prefix() {
    let scope = |space, prefix: &[u8]| ReadScope {
        space,
        prefix: prefix.to_vec(),
    };
    let coalesced = coalesce_scopes(&vec![
        scope(SYSTEM_SPACE + 1, b"x"),
        scope(SYSTEM_SPACE, b"ab"),
        scope(SYSTEM_SPACE, b"ac"),
    ]);
    assert_eq!(
        coalesced,
        vec![scope(SYSTEM_SPACE, b"a"), scope(SYSTEM_SPACE + 1, b"x")]
    );
    assert!(validate_scope(&coalesced, SYSTEM_SPACE, b"az").is_ok());
    assert_eq!(
        validate_scope(&coalesced, SYSTEM_SPACE, b"b")
            .unwrap_err()
            .kind(),
        ProviderErrorKind::InvalidPlan
    );
    assert_eq!(
        captured_scopes(&vec![scope(0x0210, b"")])
            .unwrap_err()
            .kind(),
        ProviderErrorKind::InvalidPlan
    );
}

#[test]
fn failures_name_their_cause() {
    assert_eq!(
        FoundationDbProviderConfig {
            transaction_timeout_ms: 0,
            ..FoundationDbProviderConfig::default()
        }
        .validate(),
        Err(FoundationDbProviderConfigError::InvalidTransactionTimeout)
    );
    for (error, text) in [
        (
            FoundationDbRuntimeError::InvalidClusterFile {
                message: "no coordinators".to_owned(),
            },
            "no coordinators",
        ),
        (FoundationDbRuntimeError::AlreadyStarted, "already"),
        (
            FoundationDbRuntimeError::Api {
                code: 2_201,
                message: "version".to_owned(),
            },
            "2201",
        ),
        (
            FoundationDbRuntimeError::Tokio {
                message: "no threads".to_owned(),
            },
            "no threads",
        ),
        (
            FoundationDbRuntimeError::Database {
                code: 2_104,
                message: "no file".to_owned(),
            },
            "2104",
        ),
    ] {
        assert!(error.message().contains(text), "{}", error.message());
    }
    let retryable = read_error("read metadata record", true, 1_007, "too old");
    assert_eq!(retryable.kind(), ProviderErrorKind::Unavailable);
    let lasting = read_error("scan metadata", false, 2_004, "bad range");
    assert_eq!(lasting.kind(), ProviderErrorKind::Backend);
    assert_eq!(lasting.operation(), ProviderOperationV1::Scan);
}
