//! Policy and decisions of the FoundationDB provider that need no store.

use vstd::prelude::*;
use vstd::utf8::*;

use crate::bytes;
use crate::fdb_keys;
use crate::fdb_keys::{
    MetadataStoreIdentity, FDB_MAX_PHYSICAL_KEY_BYTES, FDB_MAX_PHYSICAL_VALUE_BYTES,
    NAMESPACE_PREFIX_BYTES, SPACE_TAG_BYTES, STORED_VALUE_HEADER_BYTES,
};
use crate::provider;
use crate::provider::{
    AtomicCommitOutcome, CreateRecoveryIntentV1, ProviderCapabilities, ProviderError,
    ProviderErrorKind, ProviderFailure, ProviderInstanceToken, ProviderOperationV1, ProviderRecord,
    ProviderRecordView, ProviderSchemaV1, ProviderTransactionModel, ProviderVersionModel,
    ReadScope, ReadScopeView, ReadWitnessView,
};
use crate::provider_catalog::OrderedSpaceId;
use crate::scopes;
use crate::text;

verus! {

/// Hard native limit on the data that one transaction affects.
pub const FDB_MAX_AFFECTED_BYTES: usize = 10000000;

/// Least budget of a transaction.
pub const MIN_TRANSACTION_BUDGET_BYTES: usize = 32;

/// Default budget of a transaction.
pub const DEFAULT_TRANSACTION_BUDGET_BYTES: usize = 1000000;

/// Default timeout of a transaction.
pub const DEFAULT_TRANSACTION_TIMEOUT_MS: u32 = 5000;

/// Longest native life of a read view: five seconds.
pub const FDB_MAX_READ_VIEW_DURATION_MS: u64 = 5000;

/// Longest logical key.
pub const FDB_MAX_LOGICAL_KEY_BYTES: usize = 9920;

/// Longest logical value.
pub const FDB_MAX_LOGICAL_VALUE_BYTES: usize = 99989;

/// Most operations of one plan.
pub const FDB_MAX_ATOMIC_OPERATIONS: usize = 1024;

/// FoundationDB transaction policy for one admitted metadata authority.
#[derive(Clone, Copy, Debug, PartialEq, Eq, Structural)]
pub struct FoundationDbProviderConfig {
    /// Native affected-data budget. The default is one megabyte.
    pub transaction_budget_bytes: usize,
    /// Per-transaction timeout used to prevent an unavailable cluster hanging
    /// the synchronous metadata facade indefinitely.
    pub transaction_timeout_ms: u32,
}

/// Invalid FoundationDB transaction policy supplied before provider binding.
#[derive(Clone, Copy, Debug, PartialEq, Eq, Structural)]
pub enum FoundationDbProviderConfigError {
    TransactionBudgetOutOfRange,
    InvalidTransactionTimeout,
}

impl FoundationDbProviderConfigError {
    /// Diagnostic text of this refusal.
    pub open spec fn message_text(self) -> &'static str {
        match self {
            Self::TransactionBudgetOutOfRange =>
                "FoundationDB transaction budget must be between 32 and 10000000 bytes",
            Self::InvalidTransactionTimeout =>
                "FoundationDB transaction timeout must fit a positive i32",
        }
    }

    /// Diagnostic text of this refusal.
    pub fn message(&self) -> (message: String)
        ensures
            message@ == self.message_text()@,
    {
        match self {
            Self::TransactionBudgetOutOfRange =>
                "FoundationDB transaction budget must be between 32 and 10000000 bytes",
            Self::InvalidTransactionTimeout =>
                "FoundationDB transaction timeout must fit a positive i32",
        }.to_owned()
    }
}

impl FoundationDbProviderConfig {
    /// Why this policy is not valid, if it is not.
    pub open spec fn check(self) -> Result<(), FoundationDbProviderConfigError> {
        if !(MIN_TRANSACTION_BUDGET_BYTES <= self.transaction_budget_bytes
            <= FDB_MAX_AFFECTED_BYTES) {
            Err(FoundationDbProviderConfigError::TransactionBudgetOutOfRange)
        } else if !(0 < self.transaction_timeout_ms <= i32::MAX) {
            Err(FoundationDbProviderConfigError::InvalidTransactionTimeout)
        } else {
            Ok(())
        }
    }

    /// Checks the native transaction policy without opening a database or
    /// starting the process-wide network.
    pub fn validate(self) -> (result: Result<(), FoundationDbProviderConfigError>)
        ensures
            result == self.check(),
    {
        if self.transaction_budget_bytes < MIN_TRANSACTION_BUDGET_BYTES
            || self.transaction_budget_bytes > FDB_MAX_AFFECTED_BYTES {
            return Err(FoundationDbProviderConfigError::TransactionBudgetOutOfRange);
        }
        if self.transaction_timeout_ms == 0 || self.transaction_timeout_ms > i32::MAX as u32 {
            return Err(FoundationDbProviderConfigError::InvalidTransactionTimeout);
        }
        Ok(())
    }

    /// The timeout as the native option takes it.
    pub fn native_timeout(self) -> (result: Result<i32, ProviderError>)
        ensures
            match result {
                Ok(timeout) => timeout == self.transaction_timeout_ms,
                Err(e) => self.transaction_timeout_ms > i32::MAX && e@
                    == ProviderFailure::invalid_plan(),
            },
    {
        if self.transaction_timeout_ms > i32::MAX as u32 {
            return Err(ProviderError::invalid_plan());
        }
        Ok(self.transaction_timeout_ms as i32)
    }
}

impl Default for FoundationDbProviderConfig {
    fn default() -> (config: Self)
        ensures
            config.transaction_budget_bytes == DEFAULT_TRANSACTION_BUDGET_BYTES,
            config.transaction_timeout_ms == DEFAULT_TRANSACTION_TIMEOUT_MS,
            config.check() is Ok,
    {
        Self {
            transaction_budget_bytes: DEFAULT_TRANSACTION_BUDGET_BYTES,
            transaction_timeout_ms: DEFAULT_TRANSACTION_TIMEOUT_MS,
        }
    }
}

/// Failure to start the process-owned FoundationDB client runtime.
#[derive(Clone, Debug, PartialEq, Eq)]
pub enum FoundationDbRuntimeError {
    InvalidClusterFile { message: String },
    AlreadyStarted,
    Api { code: i32, message: String },
    Tokio { message: String },
    Database { code: i32, message: String },
}

/// Text, a number in round brackets, and a text behind it.
pub open spec fn coded_message(head: &str, code: i32, message: Seq<char>) -> Seq<u8> {
    bytes::utf8(head@) + bytes::utf8(" ("@) + text::signed_decimal(code as int) + bytes::utf8("): "@)
        + bytes::utf8(message)
}

impl FoundationDbRuntimeError {
    /// Diagnostic text of this failure.
    pub open spec fn message_bytes(self) -> Seq<u8> {
        match self {
            Self::InvalidClusterFile { message } => bytes::utf8(
                "invalid FoundationDB cluster file: "@,
            ) + bytes::utf8(message@),
            Self::AlreadyStarted => bytes::utf8(
                "the process-owned FoundationDB network was already started or stopped"@,
            ),
            Self::Api { code, message } => coded_message(
                "FoundationDB API initialization failed",
                code,
                message@,
            ),
            Self::Tokio { message } => bytes::utf8(
                "FoundationDB Tokio runtime initialization failed: "@,
            ) + bytes::utf8(message@),
            Self::Database { code, message } => coded_message(
                "FoundationDB database open failed",
                code,
                message@,
            ),
        }
    }

    /// Diagnostic text of this failure.
    pub fn message(&self) -> (message: String)
        ensures
            bytes::utf8(message@) == self.message_bytes(),
    {
        let mut out: Vec<u8> = Vec::new();
        match self {
            Self::InvalidClusterFile { message } => {
                text::push_text(&mut out, "invalid FoundationDB cluster file: ");
                text::push_text(&mut out, message.as_str());
            },
            Self::AlreadyStarted => {
                text::push_text(
                    &mut out,
                    "the process-owned FoundationDB network was already started or stopped",
                );
            },
            Self::Api { code, message } => {
                push_coded(&mut out, "FoundationDB API initialization failed", *code, message);
            },
            Self::Tokio { message } => {
                text::push_text(&mut out, "FoundationDB Tokio runtime initialization failed: ");
                text::push_text(&mut out, message.as_str());
            },
            Self::Database { code, message } => {
                push_coded(&mut out, "FoundationDB database open failed", *code, message);
            },
        }
        assert(out@ =~= self.message_bytes());
        text::finish_text(out)
    }
}

/// Appends a text, a number in round brackets, and a text behind it.
fn push_coded(out: &mut Vec<u8>, head: &str, code: i32, message: &String)
    requires
        valid_utf8(old(out)@),
        old(out)@.len() == 0,
    ensures
        final(out)@ == coded_message(head, code, message@),
        valid_utf8(final(out)@),
{
    text::push_text(out, head);
    assert(out@ =~= bytes::utf8(head@));
    text::push_text(out, " (");
    text::push_signed_decimal(out, code);
    text::push_text(out, "): ");
    text::push_text(out, message.as_str());
}

/// Limits and guarantees of a provider with this policy.
pub open spec fn capabilities_of(config: FoundationDbProviderConfig) -> ProviderCapabilities {
    ProviderCapabilities {
        transaction_model: ProviderTransactionModel::CrossSpaceAtomicBatch,
        version_model: ProviderVersionModel::OpaqueRecordWitness,
        consistent_cross_space_reads: true,
        all_ambiguous_commit_outcomes_settled_before_return: false,
        commit_resolution_reads_causally_current: true,
        max_key_bytes: (FDB_MAX_PHYSICAL_KEY_BYTES - NAMESPACE_PREFIX_BYTES
            - SPACE_TAG_BYTES) as usize,
        max_value_bytes: (FDB_MAX_PHYSICAL_VALUE_BYTES - STORED_VALUE_HEADER_BYTES) as usize,
        max_transaction_bytes: config.transaction_budget_bytes,
        max_atomic_operations: FDB_MAX_ATOMIC_OPERATIONS,
        max_logical_plan_bytes: config.transaction_budget_bytes / 2,
        exclusive_scan_start_after: true,
        consistent_snapshot_scans: true,
        max_read_view_duration_ms: Some(FDB_MAX_READ_VIEW_DURATION_MS),
        max_scan_items: None,
    }
}

/// Limits and guarantees of a provider with this policy.
///
/// A native commit whose result is not known may still be in flight when it
/// timed out, so not every ambiguous outcome is settled. A new read version is
/// causally behind a settled attempt. A transaction becomes too old after five
/// seconds, and a scan must end within its one view.
pub fn capabilities_for_config(config: FoundationDbProviderConfig) -> (capabilities:
    ProviderCapabilities)
    ensures
        capabilities == capabilities_of(config),
        capabilities.max_key_bytes == FDB_MAX_LOGICAL_KEY_BYTES,
        capabilities.max_value_bytes == FDB_MAX_LOGICAL_VALUE_BYTES,
{
    ProviderCapabilities {
        transaction_model: ProviderTransactionModel::CrossSpaceAtomicBatch,
        version_model: ProviderVersionModel::OpaqueRecordWitness,
        consistent_cross_space_reads: true,
        all_ambiguous_commit_outcomes_settled_before_return: false,
        commit_resolution_reads_causally_current: true,
        max_key_bytes: FDB_MAX_PHYSICAL_KEY_BYTES - NAMESPACE_PREFIX_BYTES - SPACE_TAG_BYTES,
        max_value_bytes: FDB_MAX_PHYSICAL_VALUE_BYTES - STORED_VALUE_HEADER_BYTES,
        max_transaction_bytes: config.transaction_budget_bytes,
        max_atomic_operations: FDB_MAX_ATOMIC_OPERATIONS,
        max_logical_plan_bytes: config.transaction_budget_bytes / 2,
        exclusive_scan_start_after: true,
        consistent_snapshot_scans: true,
        max_read_view_duration_ms: Some(FDB_MAX_READ_VIEW_DURATION_MS),
        max_scan_items: None,
    }
}

/// The offer of a provider with a valid policy.
pub fn contract_offer_for_config(config: FoundationDbProviderConfig) -> (result: Result<
    ProviderCapabilities,
    ProviderError,
>)
    ensures
        provider::outcome(result) == (if config.check() is Ok {
            Ok::<ProviderCapabilities, ProviderFailure>(capabilities_of(config))
        } else {
            Err(ProviderFailure::invalid_plan())
        }),
{
    match config.validate() {
        Ok(()) => Ok(capabilities_for_config(config)),
        Err(_) => Err(ProviderError::invalid_plan()),
    }
}

/// The offer of a provider with a valid policy, under the schema of this
/// workspace.
pub fn contract_offer(
    config: FoundationDbProviderConfig,
    schema: &ProviderSchemaV1,
    contract_digest: &[u8; 32],
) -> (result: Result<ProviderCapabilities, ProviderError>)
    ensures
        provider::outcome(result) == (match provider::schema_check(*schema, contract_digest@) {
            Err(e) => Err::<ProviderCapabilities, ProviderFailure>(e),
            Ok(()) => if config.check() is Ok {
                Ok(capabilities_of(config))
            } else {
                Err(ProviderFailure::invalid_plan())
            },
        }),
{
    provider::validate_schema(schema, contract_digest)?;
    contract_offer_for_config(config)
}

/// The namespace that a provider is bound to, if its policy is valid.
pub fn bind(store_identity: MetadataStoreIdentity, config: FoundationDbProviderConfig) -> (result:
    Result<Vec<u8>, ProviderError>)
    ensures
        provider::outcome_view(result) == (if config.check() is Ok {
            Ok::<Seq<u8>, ProviderFailure>(fdb_keys::namespace_of(store_identity))
        } else {
            Err(ProviderFailure::invalid_plan())
        }),
{
    if config.validate().is_err() {
        return Err(ProviderError::invalid_plan());
    }
    let namespace_prefix = fdb_keys::encode_namespace_prefix(store_identity);
    if namespace_prefix.len().saturating_add(SPACE_TAG_BYTES) >= FDB_MAX_PHYSICAL_KEY_BYTES {
        return Err(ProviderError::invalid_plan());
    }
    Ok(namespace_prefix)
}

/// The namespace that a created provider is bound to. Only a fresh store can
/// be created.
pub fn create(
    schema: &ProviderSchemaV1,
    contract_digest: &[u8; 32],
    recovery_intent: CreateRecoveryIntentV1,
    store_identity: MetadataStoreIdentity,
    config: FoundationDbProviderConfig,
) -> (result: Result<Vec<u8>, ProviderError>)
    ensures
        provider::outcome_view(result) == (match provider::schema_check(*schema, contract_digest@) {
            Err(e) => Err::<Seq<u8>, ProviderFailure>(e),
            Ok(()) => if recovery_intent != CreateRecoveryIntentV1::Fresh {
                Err(ProviderFailure::schema())
            } else if config.check() is Ok {
                Ok(fdb_keys::namespace_of(store_identity))
            } else {
                Err(ProviderFailure::invalid_plan())
            },
        }),
{
    provider::validate_schema(schema, contract_digest)?;
    if recovery_intent != CreateRecoveryIntentV1::Fresh {
        return Err(ProviderError::schema());
    }
    bind(store_identity, config)
}

/// The namespace that a reopened provider is bound to.
pub fn reopen(
    schema: &ProviderSchemaV1,
    contract_digest: &[u8; 32],
    expected_store_identity: MetadataStoreIdentity,
    config: FoundationDbProviderConfig,
) -> (result: Result<Vec<u8>, ProviderError>)
    ensures
        provider::outcome_view(result) == (match provider::schema_check(*schema, contract_digest@) {
            Err(e) => Err::<Seq<u8>, ProviderFailure>(e),
            Ok(()) => if config.check() is Ok {
                Ok(fdb_keys::namespace_of(expected_store_identity))
            } else {
                Err(ProviderFailure::invalid_plan())
            },
        }),
{
    provider::validate_schema(schema, contract_digest)?;
    bind(expected_store_identity, config)
}

/// A witness is one of this provider, over a stored value.
pub open spec fn witness_check(token: ProviderInstanceToken, witness: ReadWitnessView) -> Result<
    (),
    ProviderFailure,
> {
    if witness.issuer != token {
        Err(ProviderFailure::authority_mismatch(ProviderOperationV1::ValidateWitness))
    } else {
        match fdb_keys::logical_value(witness.version) {
            Err(e) => Err(e),
            Ok(_) => Ok(()),
        }
    }
}

/// Stored value in a witness of this provider.
pub fn witness_bytes<'a>(token: ProviderInstanceToken, witness: &'a provider::ReadWitness) -> (result:
    Result<&'a [u8], ProviderError>)
    ensures
        match result {
            Ok(version) => witness_check(token, witness@) is Ok && version@ == witness@.version,
            Err(error) => witness_check(token, witness@) == Err::<(), ProviderFailure>(error@),
        },
{
    let version = token.parse_witness(witness)?;
    match fdb_keys::decode_stored_value(version) {
        Ok(_) => Ok(version),
        Err(error) => Err(error),
    }
}

/// The record in a stored value: its logical value, and the stored value as
/// its witness.
pub fn record(token: ProviderInstanceToken, stored: Vec<u8>) -> (result: Result<
    ProviderRecord,
    ProviderError,
>)
    ensures
        provider::outcome_view(result) == (match fdb_keys::logical_value(stored@) {
            Err(e) => Err::<ProviderRecordView, ProviderFailure>(e),
            Ok(value) => Ok(
                ProviderRecordView {
                    value,
                    witness: ReadWitnessView { issuer: token, version: stored@ },
                },
            ),
        }),
{
    let value = match fdb_keys::decode_stored_value(stored.as_slice()) {
        Ok(value) => vstd::slice::slice_to_vec(value),
        Err(error) => {
            return Err(error);
        },
    };
    Ok(ProviderRecord { value, witness: token.issue_witness(stored) })
}

/// Physical key of a point read, if its space is known and its key not too
/// long.
pub fn point_read_key(namespace: &[u8], space: OrderedSpaceId, key: &[u8]) -> (result: Result<
    Vec<u8>,
    ProviderError,
>)
    ensures
        provider::outcome_view(result) == (match provider::and_also(
            provider::space_check(space),
            provider::length_check(key@.len(), FDB_MAX_LOGICAL_KEY_BYTES),
        ) {
            Err(e) => Err::<Seq<u8>, ProviderFailure>(e),
            Ok(()) => Ok(fdb_keys::physical(namespace@, space, key@)),
        }),
{
    provider::validate_space(space)?;
    provider::validate_length(key.len(), FDB_MAX_LOGICAL_KEY_BYTES)?;
    Ok(fdb_keys::physical_key(namespace, space, key))
}

/// Physical range of a prefix, if its space is known, it is not too long, and
/// it has an end.
pub open spec fn prefix_range_of(namespace: Seq<u8>, space: OrderedSpaceId, prefix: Seq<u8>) -> Result<
    (Seq<u8>, Seq<u8>),
    ProviderFailure,
> {
    match provider::and_also(
        provider::space_check(space),
        provider::length_check(prefix.len(), FDB_MAX_LOGICAL_KEY_BYTES),
    ) {
        Err(e) => Err(e),
        Ok(()) => match fdb_keys::successor(fdb_keys::physical(namespace, space, prefix)) {
            None => Err(ProviderFailure::invalid_plan()),
            Some(end) => Ok((fdb_keys::physical(namespace, space, prefix), end)),
        },
    }
}

/// Physical range of a prefix.
pub fn prefix_range(namespace: &[u8], space: OrderedSpaceId, prefix: &[u8]) -> (result: Result<
    (Vec<u8>, Vec<u8>),
    ProviderError,
>)
    ensures
        match result {
            Ok((begin, end)) => prefix_range_of(namespace@, space, prefix@) == Ok::<
                (Seq<u8>, Seq<u8>),
                ProviderFailure,
            >((begin@, end@)),
            Err(error) => prefix_range_of(namespace@, space, prefix@) == Err::<
                (Seq<u8>, Seq<u8>),
                ProviderFailure,
            >(error@),
        },
{
    let begin = point_read_key(namespace, space, prefix)?;
    match fdb_keys::prefix_end(begin.as_slice()) {
        None => Err(ProviderError::invalid_plan()),
        Some(end) => Ok((begin, end)),
    }
}

/// Captured scopes from index `i` on have known spaces and short prefixes.
pub open spec fn scopes_check(coalesced: Seq<ReadScopeView>, i: int) -> Result<
    (),
    ProviderFailure,
>
    decreases coalesced.len() - i,
{
    if i >= coalesced.len() {
        Ok(())
    } else {
        provider::and_also(
            provider::and_also(
                provider::space_check(coalesced[i].space),
                provider::length_check(coalesced[i].prefix.len(), FDB_MAX_LOGICAL_KEY_BYTES),
            ),
            scopes_check(coalesced, i + 1),
        )
    }
}

/// The ranges that a read view captures, one for each space.
pub fn captured_scopes(scopes: &Vec<ReadScope>) -> (result: Result<Vec<ReadScope>, ProviderError>)
    ensures
        exists|coalesced: Seq<ReadScopeView>| #[trigger]
            scopes::coalesces(coalesced, scopes::scope_views(scopes@)) && (match result {
                Ok(captured) => scopes::scope_views(captured@) == coalesced && scopes_check(
                    coalesced,
                    0,
                ) is Ok,
                Err(error) => scopes_check(coalesced, 0) == Err::<(), ProviderFailure>(error@),
            }),
{
    let coalesced = scopes::coalesce_scopes(scopes);
    let ghost views = scopes::scope_views(coalesced@);
    assert(scopes::coalesces(views, scopes::scope_views(scopes@)));
    let mut i: usize = 0;
    while i < coalesced.len()
        invariant
            i <= coalesced@.len(),
            views == scopes::scope_views(coalesced@),
            scopes::coalesces(views, scopes::scope_views(scopes@)),
            scopes_check(views, 0) == scopes_check(views, i as int),
        decreases coalesced@.len() - i,
    {
        assert(views[i as int] == coalesced@[i as int]@);
        provider::validate_space(coalesced[i].space)?;
        provider::validate_length(coalesced[i].prefix.len(), FDB_MAX_LOGICAL_KEY_BYTES)?;
        i = i + 1;
    }
    Ok(coalesced)
}

/// A runtime can be used while it runs.
pub fn validate_runtime(running: bool) -> (result: Result<(), ProviderError>)
    ensures
        provider::outcome(result) == provider::require(
            running,
            ProviderFailure::unavailable(ProviderOperationV1::ValidateRuntime),
        ),
{
    if running {
        Ok(())
    } else {
        Err(ProviderError::unavailable(ProviderOperationV1::ValidateRuntime))
    }
}

/// What may leave the provider: the result of an operation, unless the runtime
/// was not valid behind it.
pub fn settle_validated<T>(
    result: Result<T, ProviderError>,
    post_validation: Result<(), ProviderError>,
) -> (settled: Result<T, ProviderError>)
    ensures
        settled == (match post_validation {
            Ok(()) => result,
            Err(error) => Err(error),
        }),
{
    match post_validation {
        Ok(()) => result,
        Err(error) => Err(error),
    }
}

/// Runs an operation between two checks of the runtime. Where the first check
/// fails, its failure is the result. Otherwise the operation runs, the second
/// check follows, and its failure takes precedence over what the operation gave.
///
/// The order of the calls shows in what is asked of the caller: the operation
/// need only be callable once the first check has passed, and the second check
/// once the operation has come to an outcome.
pub fn with_runtime_validation<
    T,
    B: FnOnce() -> Result<(), ProviderError>,
    O: FnOnce() -> Result<T, ProviderError>,
    A: FnOnce() -> Result<(), ProviderError>,
>(before: B, operation: O, after: A) -> (result: Result<T, ProviderError>)
    requires
        before.requires(()),
        before.ensures((), Ok(())) ==> operation.requires(()),
        forall|outcome: Result<T, ProviderError>|
            #[trigger] operation.ensures((), outcome) ==> after.requires(()),
    ensures
        (result matches Err(error) && before.ensures((), Err(error))) || (before.ensures(
            (),
            Ok(()),
        ) && exists|outcome: Result<T, ProviderError>, checked: Result<(), ProviderError>|
            #[trigger] operation.ensures((), outcome) && #[trigger] after.ensures((), checked)
                && result == (match checked {
                Ok(()) => outcome,
                Err(error) => Err(error),
            })),
{
    match before() {
        Ok(passed) => {
            assert(passed == ());
        },
        Err(error) => {
            return Err(error);
        },
    }
    let outcome = operation();
    let checked = after();
    let result = settle_validated(outcome, checked);
    assert(operation.ensures((), outcome) && after.ensures((), checked));
    result
}

/// Class of a native commit failure.
#[derive(Clone, Copy, Debug, PartialEq, Eq, Structural)]
pub enum CommitErrorClass {
    Conflict,
    UnknownSettled,
    UnknownUnsettled,
    TooLarge,
}

/// Native code: the transaction conflicted and did not commit.
pub const FDB_NOT_COMMITTED: i32 = 1020;

/// Native code: the result is not known, and the request is no longer in
/// flight. It is the only ambiguous code with that guarantee.
pub const FDB_COMMIT_UNKNOWN_RESULT: i32 = 1021;

/// Native code: the transaction is larger than the native limit.
pub const FDB_TRANSACTION_TOO_LARGE: i32 = 2101;

/// Class of a native commit code. Every other code, the timeout among them,
/// may still commit later.
pub open spec fn commit_class(code: i32) -> CommitErrorClass {
    if code == FDB_NOT_COMMITTED {
        CommitErrorClass::Conflict
    } else if code == FDB_TRANSACTION_TOO_LARGE {
        CommitErrorClass::TooLarge
    } else if code == FDB_COMMIT_UNKNOWN_RESULT {
        CommitErrorClass::UnknownSettled
    } else {
        CommitErrorClass::UnknownUnsettled
    }
}

/// Class of a native commit code. Neither of the native hints changes it.
pub fn classify_commit_code(code: i32, maybe_committed: bool, retryable: bool) -> (class:
    CommitErrorClass)
    ensures
        class == commit_class(code),
{
    if code == FDB_NOT_COMMITTED {
        CommitErrorClass::Conflict
    } else if code == FDB_TRANSACTION_TOO_LARGE {
        CommitErrorClass::TooLarge
    } else if code == FDB_COMMIT_UNKNOWN_RESULT {
        CommitErrorClass::UnknownSettled
    } else {
        CommitErrorClass::UnknownUnsettled
    }
}

/// What a native commit means: it committed, or it failed with a code.
pub open spec fn settled(code: Option<i32>, approximate: usize, budget: usize) -> Result<
    AtomicCommitOutcome,
    ProviderFailure,
> {
    match code {
        None => Ok(AtomicCommitOutcome::Committed),
        Some(code) => match commit_class(code) {
            CommitErrorClass::Conflict => Ok(AtomicCommitOutcome::Conflict),
            CommitErrorClass::UnknownSettled => Err(ProviderFailure::unknown_commit_settled()),
            CommitErrorClass::UnknownUnsettled => Err(ProviderFailure::unknown_commit_unsettled()),
            CommitErrorClass::TooLarge => Err(
                ProviderFailure::transaction_too_large(approximate, budget),
            ),
        },
    }
}

/// What a native commit means.
pub fn settle_native_commit(code: Option<i32>, approximate: usize, budget: usize) -> (result: Result<
    AtomicCommitOutcome,
    ProviderError,
>)
    ensures
        provider::outcome(result) == settled(code, approximate, budget),
{
    match code {
        None => Ok(AtomicCommitOutcome::Committed),
        Some(code) => match classify_commit_code(code, false, false) {
            CommitErrorClass::Conflict => Ok(AtomicCommitOutcome::Conflict),
            CommitErrorClass::UnknownSettled => Err(ProviderError::unknown_commit_settled()),
            CommitErrorClass::UnknownUnsettled => Err(ProviderError::unknown_commit_unsettled()),
            CommitErrorClass::TooLarge => Err(
                ProviderError::transaction_too_large(approximate, budget),
            ),
        },
    }
}

/// What a native commit attempt means once the runtime was checked behind it:
/// a commit that the runtime no longer vouches for is not known, and an
/// outcome that is not known stays so.
pub open spec fn finished(
    result: Result<AtomicCommitOutcome, ProviderFailure>,
    post_validation: Result<(), ProviderFailure>,
) -> Result<AtomicCommitOutcome, ProviderFailure> {
    match (result, post_validation) {
        (Ok(AtomicCommitOutcome::Committed), Err(_)) => Err(
            ProviderFailure::unknown_commit_settled(),
        ),
        (Ok(AtomicCommitOutcome::Conflict), Err(error)) => Err(error),
        (Err(failure), Err(error)) => if failure.is_unknown_commit() {
            Err(failure)
        } else {
            Err(error)
        },
        (result, Ok(())) => result,
    }
}

/// What a native commit attempt means once the runtime was checked behind it.
pub fn finish_commit_with_runtime_validation(
    result: Result<AtomicCommitOutcome, ProviderError>,
    post_validation: Result<(), ProviderError>,
) -> (settled: Result<AtomicCommitOutcome, ProviderError>)
    ensures
        provider::outcome(settled) == finished(
            provider::outcome(result),
            provider::outcome(post_validation),
        ),
{
    match post_validation {
        Ok(()) => result,
        Err(invalid) => match result {
            Ok(AtomicCommitOutcome::Committed) => Err(ProviderError::unknown_commit_settled()),
            Ok(AtomicCommitOutcome::Conflict) => Err(invalid),
            Err(error) => {
                if error.is_unknown_commit() {
                    Err(error)
                } else {
                    Err(invalid)
                }
            },
        },
    }
}

/// Which operation a description speaks of.
pub open spec fn operation_of(operation: Seq<u8>) -> ProviderOperationV1 {
    if text::holds(operation, bytes::utf8("commit"@)) || text::holds(
        operation,
        bytes::utf8("transaction"@),
    ) {
        ProviderOperationV1::Commit
    } else if text::holds(operation, bytes::utf8("scan"@)) {
        ProviderOperationV1::Scan
    } else if text::holds(operation, bytes::utf8("read view"@)) {
        ProviderOperationV1::BeginRead
    } else if text::holds(operation, bytes::utf8("read"@)) || text::holds(
        operation,
        bytes::utf8("prefix"@),
    ) {
        ProviderOperationV1::ReadRecord
    } else {
        ProviderOperationV1::ValidatePlan
    }
}

/// Which operation a description speaks of.
pub fn operation_code(operation: &str) -> (code: ProviderOperationV1)
    ensures
        code == operation_of(bytes::utf8(operation@)),
{
    let b = operation.as_bytes();
    if text::contains(b, "commit".as_bytes()) || text::contains(b, "transaction".as_bytes()) {
        ProviderOperationV1::Commit
    } else if text::contains(b, "scan".as_bytes()) {
        ProviderOperationV1::Scan
    } else if text::contains(b, "read view".as_bytes()) {
        ProviderOperationV1::BeginRead
    } else if text::contains(b, "read".as_bytes()) || text::contains(b, "prefix".as_bytes()) {
        ProviderOperationV1::ReadRecord
    } else {
        ProviderOperationV1::ValidatePlan
    }
}

/// The failure of a native read: one that can be retried means that the store
/// is not available now; any other carries its text and code.
pub fn read_error(operation: &str, retryable: bool, code: i32, message: &str) -> (error:
    ProviderError)
    ensures
        error@.operation == operation_of(bytes::utf8(operation@)),
        error@.limit is None,
        retryable ==> error@ == ProviderFailure::unavailable(
            operation_of(bytes::utf8(operation@)),
        ),
        !retryable ==> error@.kind == ProviderErrorKind::Backend && bytes::utf8(error@.detail)
            == bytes::utf8(message@) + bytes::utf8(" ("@) + text::signed_decimal(code as int)
            + bytes::utf8(")"@),
{
    let operation = operation_code(operation);
    if retryable {
        return ProviderError::unavailable(operation);
    }
    let mut out: Vec<u8> = Vec::new();
    text::push_text(&mut out, message);
    assert(out@ =~= bytes::utf8(message@));
    text::push_text(&mut out, " (");
    text::push_signed_decimal(&mut out, code);
    text::push_text(&mut out, ")");
    let detail = text::finish_text(out);
    ProviderError::backend(operation, detail.as_str())
}

/// Whatever the runtime check behind it says, an attempt whose outcome is not
/// known is never reported as settled either way, and a commit is reported
/// only if the runtime still vouches for it.
pub proof fn commit_is_reported_only_when_valid(
    result: Result<AtomicCommitOutcome, ProviderFailure>,
    post_validation: Result<(), ProviderFailure>,
)
    ensures
        finished(result, post_validation) == Ok::<AtomicCommitOutcome, ProviderFailure>(
            AtomicCommitOutcome::Committed,
        ) <==> result == Ok::<AtomicCommitOutcome, ProviderFailure>(AtomicCommitOutcome::Committed)
            && post_validation is Ok,
        result matches Err(failure) && failure.is_unknown_commit() ==> finished(
            result,
            post_validation,
        ) == result,
        result == Ok::<AtomicCommitOutcome, ProviderFailure>(AtomicCommitOutcome::Committed)
            && post_validation is Err ==> (finished(result, post_validation) matches Err(failure)
            && failure.is_unknown_commit()),
{
}

} // verus!
