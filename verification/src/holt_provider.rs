//! Policy and decisions of the built-in Holt provider that need no store.

use vstd::prelude::*;

use crate::bytes;
use crate::plan_semantics;
use crate::plan_semantics::{Cell, Record};
use crate::provider;
use crate::provider::{
    AtomicCommitOutcome, AtomicOp, AtomicOpView, AtomicPlan, CreateRecoveryIntentV1,
    ProviderCapabilities, ProviderError, ProviderFailure, ProviderInstanceToken,
    ProviderOperationV1, ProviderRecord, ProviderRecordView, ProviderScan, ProviderScanItem,
    ProviderScanItemView, ProviderScanPage, ProviderScanPageView, ProviderScanStats,
    ProviderScanView, ProviderSchemaV1, ProviderTransactionModel, ProviderVersionModel,
    ReadScope, ReadScopeView, ReadWitness, ReadWitnessView,
};
use crate::provider_catalog;
use crate::provider_catalog::OrderedSpaceId;
use crate::read_stats;
use crate::scopes;
use crate::text;

verus! {

/// Longest key.
pub const HOLT_MAX_KEY_BYTES: usize = 65535;

/// Longest value.
pub const HOLT_MAX_VALUE_BYTES: usize = 65535;

/// One batch is journalled in a record whose length has 32 bits.
pub const HOLT_MAX_TRANSACTION_BYTES: usize = 4294967295;

/// Conservative framing of one operation in the journal.
pub const OPERATION_OVERHEAD_BYTES: usize = 32;

/// Bytes of a record version.
pub const RECORD_VERSION_BYTES: usize = 8;

/// What the workspace needs of a provider.
#[derive(Clone, Copy, Debug, PartialEq, Eq, Structural)]
pub struct ProviderRequirements {
    pub max_atomic_operations: usize,
    pub max_logical_plan_bytes: usize,
}

/// Limits and guarantees of the provider: it meets what the workspace needs of
/// a plan.
pub open spec fn capabilities_of(requirements: ProviderRequirements) -> ProviderCapabilities {
    ProviderCapabilities {
        transaction_model: ProviderTransactionModel::CrossSpaceAtomicBatch,
        version_model: ProviderVersionModel::OpaqueRecordWitness,
        consistent_cross_space_reads: true,
        all_ambiguous_commit_outcomes_settled_before_return: true,
        commit_resolution_reads_causally_current: true,
        max_key_bytes: HOLT_MAX_KEY_BYTES,
        max_value_bytes: HOLT_MAX_VALUE_BYTES,
        max_transaction_bytes: HOLT_MAX_TRANSACTION_BYTES,
        max_atomic_operations: requirements.max_atomic_operations,
        max_logical_plan_bytes: requirements.max_logical_plan_bytes,
        exclusive_scan_start_after: true,
        consistent_snapshot_scans: true,
        max_read_view_duration_ms: None,
        max_scan_items: None,
    }
}

/// Limits and guarantees of the provider.
///
/// Each view is captured from the current committed database, so a view behind
/// an outcome that was not known crosses the settled cut.
pub fn capabilities_value(requirements: ProviderRequirements) -> (capabilities:
    ProviderCapabilities)
    ensures
        capabilities == capabilities_of(requirements),
{
    ProviderCapabilities {
        transaction_model: ProviderTransactionModel::CrossSpaceAtomicBatch,
        version_model: ProviderVersionModel::OpaqueRecordWitness,
        consistent_cross_space_reads: true,
        all_ambiguous_commit_outcomes_settled_before_return: true,
        commit_resolution_reads_causally_current: true,
        max_key_bytes: HOLT_MAX_KEY_BYTES,
        max_value_bytes: HOLT_MAX_VALUE_BYTES,
        max_transaction_bytes: HOLT_MAX_TRANSACTION_BYTES,
        max_atomic_operations: requirements.max_atomic_operations,
        max_logical_plan_bytes: requirements.max_logical_plan_bytes,
        exclusive_scan_start_after: true,
        consistent_snapshot_scans: true,
        max_read_view_duration_ms: None,
        max_scan_items: None,
    }
}

/// The offer of the provider under the schema of this workspace.
pub fn contract_offer(
    schema: &ProviderSchemaV1,
    contract_digest: &[u8; 32],
    requirements: ProviderRequirements,
) -> (result: Result<ProviderCapabilities, ProviderError>)
    ensures
        provider::outcome(result) == (match provider::schema_check(*schema, contract_digest@) {
            Err(e) => Err::<ProviderCapabilities, ProviderFailure>(e),
            Ok(()) => Ok(capabilities_of(requirements)),
        }),
{
    provider::validate_schema(schema, contract_digest)?;
    Ok(capabilities_value(requirements))
}

/// Version in a witness of this provider: eight bytes.
pub open spec fn version_of(token: ProviderInstanceToken, witness: ReadWitnessView) -> Result<
    u64,
    ProviderFailure,
> {
    if witness.issuer != token {
        Err(ProviderFailure::authority_mismatch(ProviderOperationV1::ValidateWitness))
    } else if witness.version.len() != RECORD_VERSION_BYTES {
        Err(ProviderFailure::invalid_plan())
    } else {
        Ok(bytes::from_be64(witness.version))
    }
}

/// Version in a witness of this provider.
pub fn version(token: ProviderInstanceToken, witness: &ReadWitness) -> (result: Result<
    u64,
    ProviderError,
>)
    ensures
        provider::outcome(result) == version_of(token, witness@),
{
    let raw = token.parse_witness(witness)?;
    if raw.len() != RECORD_VERSION_BYTES {
        return Err(ProviderError::invalid_plan());
    }
    Ok(bytes::read_u64(raw))
}

/// The record that a value and its version make up.
pub fn record(token: ProviderInstanceToken, value: Vec<u8>, version: u64) -> (record:
    ProviderRecord)
    ensures
        record@ == (ProviderRecordView {
            value: value@,
            witness: ReadWitnessView { issuer: token, version: bytes::be64(version) },
        }),
        version_of(token, record@.witness) == Ok::<u64, ProviderFailure>(version),
{
    let mut raw: Vec<u8> = Vec::new();
    bytes::push_u64(&mut raw, version);
    proof {
        assert(raw@ =~= bytes::be64(version));
        bytes::be64_reads_back(version);
    }
    ProviderRecord { value, witness: token.issue_witness(raw) }
}

/// Bytes that one operation affects, without its framing. An absence guard is
/// a conditional write and a deletion.
pub open spec fn physical_bytes(op: AtomicOpView) -> nat {
    match op {
        AtomicOpView::AssertUnchanged { key, .. } => key.len() + RECORD_VERSION_BYTES as nat,
        AtomicOpView::AssertAbsent { key, .. } => 2 * key.len() + 1,
        _ => op.footprint(),
    }
}

/// Bytes that operations affect.
pub open spec fn affected(operations: Seq<AtomicOpView>) -> nat
    decreases operations.len(),
{
    if operations.len() == 0 {
        0
    } else {
        affected(operations.drop_last()) + OPERATION_OVERHEAD_BYTES as nat + physical_bytes(
            operations.last(),
        )
    }
}

/// Bytes that a plan affects.
pub fn holt_affected_bytes(plan: &AtomicPlan) -> (size: usize)
    ensures
        size == provider::saturated(affected(plan@)),
{
    let ghost views = plan@;
    let mut total: usize = 0;
    let mut i: usize = 0;
    assert(views.take(0) =~= Seq::empty());
    while i < plan.operations.len()
        invariant
            i <= plan.operations@.len(),
            views == plan@,
            total == provider::saturated(affected(views.take(i as int))),
        decreases plan.operations@.len() - i,
    {
        let operation = &plan.operations[i];
        proof {
            assert(views[i as int] == operation@);
            assert(views.take(i + 1).drop_last() =~= views.take(i as int));
            assert(views.take(i + 1).last() == operation@);
        }
        let physical: usize = match operation {
            AtomicOp::AssertUnchanged { key, .. } => key.len().saturating_add(RECORD_VERSION_BYTES),
            AtomicOp::AssertAbsent { key, .. } => key.len().saturating_add(
                key.len(),
            ).saturating_add(1),
            _ => match operation.value() {
                Some(value) => operation.key().len().saturating_add(value.len()),
                None => operation.key().len(),
            },
        };
        total = total.saturating_add(OPERATION_OVERHEAD_BYTES).saturating_add(physical);
        i = i + 1;
    }
    assert(views.take(i as int) =~= views);
    total
}

/// A plan affects at least the bytes of its keys and values.
pub proof fn affected_bytes_cover_the_footprint(operations: Seq<AtomicOpView>)
    ensures
        provider::footprint(operations) <= affected(operations),
        provider::saturated(provider::footprint(operations)) <= provider::saturated(
            affected(operations),
        ),
    decreases operations.len(),
{
    if operations.len() > 0 {
        affected_bytes_cover_the_footprint(operations.drop_last());
    }
}

/// One operation may be tried: its space is known, its key and value are not
/// too long, and its witness is one of this provider.
pub open spec fn operation_check(op: AtomicOpView, token: ProviderInstanceToken) -> Result<
    (),
    ProviderFailure,
> {
    provider::and_also(
        provider::space_check(op.space()),
        provider::and_also(
            provider::length_check(op.key().len(), HOLT_MAX_KEY_BYTES),
            provider::and_also(
                match op.value() {
                    None => Ok(()),
                    Some(value) => provider::length_check(value.len(), HOLT_MAX_VALUE_BYTES),
                },
                match op.witness() {
                    None => Ok(()),
                    Some(witness) => match version_of(token, witness) {
                        Err(e) => Err(e),
                        Ok(_) => Ok(()),
                    },
                },
            ),
        ),
    )
}

/// Operations from index `i` on may all be tried.
pub open spec fn operations_check(
    operations: Seq<AtomicOpView>,
    token: ProviderInstanceToken,
    i: int,
) -> Result<(), ProviderFailure>
    decreases operations.len() - i,
{
    if i >= operations.len() {
        Ok(())
    } else {
        provider::and_also(
            operation_check(operations[i], token),
            operations_check(operations, token, i + 1),
        )
    }
}

/// A plan may be tried: it fits the journal, and each operation may be tried.
pub open spec fn plan_check(operations: Seq<AtomicOpView>, token: ProviderInstanceToken) -> Result<
    (),
    ProviderFailure,
> {
    provider::and_also(
        provider::length_check(
            provider::saturated(affected(operations)) as nat,
            HOLT_MAX_TRANSACTION_BYTES,
        ),
        operations_check(operations, token, 0),
    )
}

/// Checks a plan before anything is written.
pub fn preflight_plan(plan: &AtomicPlan, token: ProviderInstanceToken) -> (result: Result<
    (),
    ProviderError,
>)
    ensures
        provider::outcome(result) == plan_check(plan@, token),
{
    let ghost views = plan@;
    provider::validate_length(holt_affected_bytes(plan), HOLT_MAX_TRANSACTION_BYTES)?;
    let mut i: usize = 0;
    while i < plan.operations.len()
        invariant
            i <= plan.operations@.len(),
            views == plan@,
            plan_check(views, token) == operations_check(views, token, i as int),
        decreases plan.operations@.len() - i,
    {
        let operation = &plan.operations[i];
        assert(views[i as int] == operation@);
        provider::validate_space(operation.space())?;
        provider::validate_length(operation.key().len(), HOLT_MAX_KEY_BYTES)?;
        match operation.value() {
            None => {},
            Some(value) => provider::validate_length(value.len(), HOLT_MAX_VALUE_BYTES)?,
        }
        match operation.witness() {
            None => {},
            Some(witness) => match version(token, witness) {
                Ok(_) => {},
                Err(error) => {
                    return Err(error);
                },
            },
        }
        i = i + 1;
    }
    Ok(())
}

/// One instruction of a native batch.
#[derive(Debug, PartialEq, Eq)]
pub enum BatchOp {
    AssertVersion { space: OrderedSpaceId, key: Vec<u8>, version: u64 },
    AssertPrefixEmpty { space: OrderedSpaceId, prefix: Vec<u8> },
    Put { space: OrderedSpaceId, key: Vec<u8>, value: Vec<u8> },
    PutIfAbsent { space: OrderedSpaceId, key: Vec<u8>, value: Vec<u8> },
    CompareAndPut { space: OrderedSpaceId, key: Vec<u8>, version: u64, value: Vec<u8> },
    Delete { space: OrderedSpaceId, key: Vec<u8> },
}

/// Contents of a [`BatchOp`].
pub enum BatchOpView {
    AssertVersion { space: OrderedSpaceId, key: Seq<u8>, version: u64 },
    AssertPrefixEmpty { space: OrderedSpaceId, prefix: Seq<u8> },
    Put { space: OrderedSpaceId, key: Seq<u8>, value: Seq<u8> },
    PutIfAbsent { space: OrderedSpaceId, key: Seq<u8>, value: Seq<u8> },
    CompareAndPut { space: OrderedSpaceId, key: Seq<u8>, version: u64, value: Seq<u8> },
    Delete { space: OrderedSpaceId, key: Seq<u8> },
}

impl View for BatchOp {
    type V = BatchOpView;

    open spec fn view(&self) -> BatchOpView {
        match self {
            Self::AssertVersion { space, key, version } => BatchOpView::AssertVersion {
                space: *space,
                key: key@,
                version: *version,
            },
            Self::AssertPrefixEmpty { space, prefix } => BatchOpView::AssertPrefixEmpty {
                space: *space,
                prefix: prefix@,
            },
            Self::Put { space, key, value } => BatchOpView::Put {
                space: *space,
                key: key@,
                value: value@,
            },
            Self::PutIfAbsent { space, key, value } => BatchOpView::PutIfAbsent {
                space: *space,
                key: key@,
                value: value@,
            },
            Self::CompareAndPut { space, key, version, value } => BatchOpView::CompareAndPut {
                space: *space,
                key: key@,
                version: *version,
                value: value@,
            },
            Self::Delete { space, key } => BatchOpView::Delete { space: *space, key: key@ },
        }
    }
}

/// Contents of a list of instructions.
pub open spec fn batch_views(batch: Seq<BatchOp>) -> Seq<BatchOpView> {
    Seq::new(batch.len(), |i: int| batch[i]@)
}

/// Instructions of one operation. There is no native absence guard: a
/// conditional write of a sentinel fails where the record is present, and is
/// deleted again.
pub open spec fn lowered(op: AtomicOpView) -> Seq<BatchOpView> {
    match op {
        AtomicOpView::AssertUnchanged { space, key, witness } => seq![
            BatchOpView::AssertVersion { space, key, version: bytes::from_be64(witness.version) },
        ],
        AtomicOpView::AssertAbsent { space, key } => seq![
            BatchOpView::PutIfAbsent { space, key, value: seq![0u8] },
            BatchOpView::Delete { space, key },
        ],
        AtomicOpView::AssertPrefixEmpty { space, prefix } => seq![
            BatchOpView::AssertPrefixEmpty { space, prefix },
        ],
        AtomicOpView::Put { space, key, value } => seq![BatchOpView::Put { space, key, value }],
        AtomicOpView::PutIfAbsent { space, key, value } => seq![
            BatchOpView::PutIfAbsent { space, key, value },
        ],
        AtomicOpView::CompareAndPut { space, key, witness, value } => seq![
            BatchOpView::CompareAndPut {
                space,
                key,
                version: bytes::from_be64(witness.version),
                value,
            },
        ],
        AtomicOpView::Delete { space, key } => seq![BatchOpView::Delete { space, key }],
    }
}

/// Instructions of operations, one behind the other.
pub open spec fn batch_of(operations: Seq<AtomicOpView>) -> Seq<BatchOpView>
    decreases operations.len(),
{
    if operations.len() == 0 {
        Seq::empty()
    } else {
        batch_of(operations.drop_last()) + lowered(operations.last())
    }
}

/// A copy of a byte string.
fn copy_of(b: &Vec<u8>) -> (copy: Vec<u8>)
    ensures
        copy@ == b@,
{
    vstd::slice::slice_to_vec(b.as_slice())
}

/// Appends the instructions of one operation.
fn lower(batch: &mut Vec<BatchOp>, operation: &AtomicOp, token: ProviderInstanceToken) -> (result:
    Result<(), ProviderError>)
    requires
        operation_check(operation@, token) is Ok,
    ensures
        result is Ok,
        batch_views(final(batch)@) == batch_views(old(batch)@) + lowered(operation@),
{
    let ghost before = batch_views(batch@);
    match operation {
        AtomicOp::AssertUnchanged { space, key, witness } => {
            let version: u64 = version(token, witness)?;
            batch.push(BatchOp::AssertVersion { space: *space, key: copy_of(key), version });
        },
        AtomicOp::AssertAbsent { space, key } => {
            let sentinel: Vec<u8> = vec![0];
            assert(sentinel@ =~= seq![0u8]);
            batch.push(
                BatchOp::PutIfAbsent { space: *space, key: copy_of(key), value: sentinel },
            );
            batch.push(BatchOp::Delete { space: *space, key: copy_of(key) });
        },
        AtomicOp::AssertPrefixEmpty { space, prefix } => {
            batch.push(BatchOp::AssertPrefixEmpty { space: *space, prefix: copy_of(prefix) });
        },
        AtomicOp::Put { space, key, value } => {
            batch.push(
                BatchOp::Put { space: *space, key: copy_of(key), value: copy_of(value) },
            );
        },
        AtomicOp::PutIfAbsent { space, key, value } => {
            batch.push(
                BatchOp::PutIfAbsent { space: *space, key: copy_of(key), value: copy_of(value) },
            );
        },
        AtomicOp::CompareAndPut { space, key, witness, value } => {
            let version: u64 = version(token, witness)?;
            batch.push(
                BatchOp::CompareAndPut {
                    space: *space,
                    key: copy_of(key),
                    version,
                    value: copy_of(value),
                },
            );
        },
        AtomicOp::Delete { space, key } => {
            batch.push(BatchOp::Delete { space: *space, key: copy_of(key) });
        },
    }
    assert(batch_views(batch@) =~= before + lowered(operation@));
    Ok(())
}

/// The native batch of a plan that may be tried.
pub fn prepare_commit(plan: &AtomicPlan, token: ProviderInstanceToken) -> (result: Result<
    Vec<BatchOp>,
    ProviderError,
>)
    ensures
        match plan_check(plan@, token) {
            Ok(()) => result matches Ok(batch) && batch_views(batch@) == batch_of(plan@),
            Err(failure) => result matches Err(e) && e@ == failure,
        },
{
    preflight_plan(plan, token)?;
    let ghost views = plan@;
    let mut batch: Vec<BatchOp> = Vec::new();
    let mut i: usize = 0;
    proof {
        assert(views.take(0) =~= Seq::empty());
        assert(batch_views(batch@) =~= Seq::empty());
    }
    while i < plan.operations.len()
        invariant
            i <= plan.operations@.len(),
            views == plan@,
            plan_check(views, token) is Ok,
            operations_check(views, token, i as int) is Ok,
            batch_views(batch@) == batch_of(views.take(i as int)),
        decreases plan.operations@.len() - i,
    {
        let operation = &plan.operations[i];
        proof {
            assert(views[i as int] == operation@);
            assert(views.take(i + 1).drop_last() =~= views.take(i as int));
            assert(views.take(i + 1).last() == operation@);
        }
        lower(&mut batch, operation, token)?;
        i = i + 1;
    }
    assert(views.take(i as int) =~= views);
    Ok(batch)
}

/// What one instruction does to the records: nothing comes of it when its
/// condition does not hold.
pub open spec fn executed(state: Map<Record, Cell>, op: BatchOpView) -> Option<Map<Record, Cell>> {
    match op {
        BatchOpView::AssertVersion { space, key, version } => if state.dom().contains((space, key))
            && state[(space, key)] == Cell::Stored(bytes::be64(version)) {
            Some(state)
        } else {
            None
        },
        BatchOpView::AssertPrefixEmpty { space, prefix } => if plan_semantics::empty_under(
            state,
            space,
            prefix,
        ) {
            Some(state)
        } else {
            None
        },
        BatchOpView::Put { space, key, value } => Some(
            state.insert((space, key), Cell::Written(value)),
        ),
        BatchOpView::PutIfAbsent { space, key, value } => if state.dom().contains((space, key)) {
            None
        } else {
            Some(state.insert((space, key), Cell::Written(value)))
        },
        BatchOpView::CompareAndPut { space, key, version, value } => if state.dom().contains(
            (space, key),
        ) && state[(space, key)] == Cell::Stored(bytes::be64(version)) {
            Some(state.insert((space, key), Cell::Written(value)))
        } else {
            None
        },
        BatchOpView::Delete { space, key } => Some(state.remove((space, key))),
    }
}

/// What instructions do to the records, one after the other.
pub open spec fn batch_executed(state: Map<Record, Cell>, batch: Seq<BatchOpView>) -> Option<
    Map<Record, Cell>,
>
    decreases batch.len(),
{
    if batch.len() == 0 {
        Some(state)
    } else {
        match batch_executed(state, batch.drop_last()) {
            None => None,
            Some(before) => executed(before, batch.last()),
        }
    }
}

/// Carrying out two batches in a row is carrying out both as one.
proof fn batches_join(state: Map<Record, Cell>, a: Seq<BatchOpView>, b: Seq<BatchOpView>)
    ensures
        batch_executed(state, a + b) == (match batch_executed(state, a) {
            None => None,
            Some(after) => batch_executed(after, b),
        }),
    decreases b.len(),
{
    if b.len() == 0 {
        assert(a + b =~= a);
    } else {
        batches_join(state, a, b.drop_last());
        assert((a + b).drop_last() =~= a + b.drop_last());
        assert((a + b).last() == b.last());
    }
}

/// The instructions of one operation do what the operation does.
proof fn lowered_operation_is_exact(
    state: Map<Record, Cell>,
    op: AtomicOpView,
    token: ProviderInstanceToken,
)
    requires
        operation_check(op, token) is Ok,
    ensures
        batch_executed(state, lowered(op)) == plan_semantics::applied(state, op),
{
    reveal_with_fuel(batch_executed, 3);
    let batch = lowered(op);
    if let AtomicOpView::AssertAbsent { space, key } = op {
        let written = state.insert((space, key), Cell::Written(seq![0u8]));
        assert(batch.drop_last() =~= seq![batch[0]]);
        assert(batch.drop_last().drop_last() =~= Seq::empty());
        if !state.dom().contains((space, key)) {
            assert(written.remove((space, key)) =~= state);
        }
    } else {
        assert(batch.drop_last() =~= Seq::empty());
        if let Some(witness) = op.witness() {
            bytes::be64_writes_back(witness.version);
        }
    }
}

/// The batch of a plan does what the plan does: carried out instruction by
/// instruction it conflicts exactly when an operation of the plan does not
/// hold, and leaves what the operations leave one after the other.
pub proof fn batch_carries_out_the_plan(
    state: Map<Record, Cell>,
    operations: Seq<AtomicOpView>,
    token: ProviderInstanceToken,
)
    requires
        forall|i: int|
            0 <= i < operations.len() ==> operation_check(#[trigger] operations[i], token) is Ok,
    ensures
        batch_executed(state, batch_of(operations)) == plan_semantics::sequential(
            state,
            operations,
        ),
    decreases operations.len(),
{
    if operations.len() > 0 {
        let front = operations.drop_last();
        assert forall|i: int| 0 <= i < front.len() implies operation_check(
            #[trigger] front[i],
            token,
        ) is Ok by {
            assert(front[i] == operations[i]);
        }
        batch_carries_out_the_plan(state, front, token);
        batches_join(state, batch_of(front), lowered(operations.last()));
        assert(operation_check(operations[operations.len() - 1], token) is Ok);
        if let Some(before) = plan_semantics::sequential(state, front) {
            lowered_operation_is_exact(before, operations.last(), token);
        }
    }
}

/// The failure of a native batch: whether it took effect is not known, since
/// the store does not say in which phase it failed.
pub fn commit_error() -> (error: ProviderError)
    ensures
        error@ == ProviderFailure::unknown_commit_settled(),
{
    ProviderError::unknown_commit_settled()
}

/// What a native batch means, and whether the runtime must not be used again.
#[derive(Debug, PartialEq, Eq)]
pub struct CommitSettlement {
    pub result: Result<AtomicCommitOutcome, ProviderError>,
    pub poison: bool,
}

/// What a native batch that took effect, or conflicted, or failed means, once
/// the runtime was checked behind it. What the runtime does not vouch for is
/// not known.
pub open spec fn settled(committed: Option<bool>, runtime_valid: bool) -> Result<
    AtomicCommitOutcome,
    ProviderFailure,
> {
    match committed {
        Some(true) if runtime_valid => Ok(AtomicCommitOutcome::Committed),
        Some(false) if runtime_valid => Ok(AtomicCommitOutcome::Conflict),
        _ => Err(ProviderFailure::unknown_commit_settled()),
    }
}

/// What a native batch means, and whether the runtime must not be used again:
/// exactly when the outcome is not known.
pub fn settle_commit(committed: Option<bool>, runtime_valid: bool) -> (settlement: CommitSettlement)
    ensures
        provider::outcome(settlement.result) == settled(committed, runtime_valid),
        settlement.poison == (settlement.result is Err),
{
    match committed {
        None => CommitSettlement { result: Err(commit_error()), poison: true },
        Some(committed) => {
            if !runtime_valid {
                return CommitSettlement {
                    result: Err(ProviderError::unknown_commit_settled()),
                    poison: true,
                };
            }
            let outcome = if committed {
                AtomicCommitOutcome::Committed
            } else {
                AtomicCommitOutcome::Conflict
            };
            CommitSettlement { result: Ok(outcome), poison: false }
        },
    }
}

/// A scan in progress over native entries.
#[derive(Debug, PartialEq, Eq)]
pub struct HoltScanRun {
    request: ProviderScan,
    items: Vec<ProviderScanItem>,
    returned: u64,
    common_prefixes: u64,
}

/// Contents of a [`HoltScanRun`].
pub struct HoltScanRunView {
    pub request: ProviderScanView,
    pub items: Seq<ProviderScanItemView>,
    pub returned: u64,
    pub common_prefixes: u64,
}

impl View for HoltScanRun {
    type V = HoltScanRunView;

    closed spec fn view(&self) -> HoltScanRunView {
        HoltScanRunView {
            request: self.request@,
            items: provider::item_views(self.items@),
            returned: self.returned,
            common_prefixes: self.common_prefixes,
        }
    }
}

/// No key of a scan is too long.
pub open spec fn scan_check(request: ProviderScanView) -> Result<(), ProviderFailure> {
    provider::and_also(
        provider::length_check(request.prefix.len(), HOLT_MAX_KEY_BYTES),
        match request.start_after {
            None => Ok(()),
            Some(cursor) => provider::length_check(cursor.len(), HOLT_MAX_KEY_BYTES),
        },
    )
}

impl HoltScanRunView {
    /// The page takes no more items.
    pub open spec fn full(self) -> bool {
        self.request.limit != 0 && self.items.len() >= self.request.limit
    }

    /// The boundary of an entry is not behind the cursor. The native lower
    /// bound is applied before keys are rolled up, so a cursor that is itself a
    /// common prefix can bring a child that is rolled up to the same prefix.
    pub open spec fn excluded(self, item: ProviderScanItemView) -> bool {
        self.request.start_after matches Some(cursor) && !bytes::lex_less(cursor, item.boundary())
    }

    /// The scan after one native entry.
    pub open spec fn accepted(self, item: ProviderScanItemView) -> Self {
        if self.full() || self.excluded(item) {
            self
        } else {
            HoltScanRunView {
                items: self.items.push(item),
                returned: if item is Key {
                    read_stats::counted(self.returned as int, 1)
                } else {
                    self.returned
                },
                common_prefixes: if item is CommonPrefix {
                    read_stats::counted(self.common_prefixes as int, 1)
                } else {
                    self.common_prefixes
                },
                ..self
            }
        }
    }
}

impl HoltScanRun {
    /// Starts the scan of a valid request.
    pub fn start(request: ProviderScan) -> (result: Result<Self, ProviderError>)
        ensures
            match scan_check(request@) {
                Ok(()) => result matches Ok(run) && run@ == (HoltScanRunView {
                    request: request@,
                    items: Seq::empty(),
                    returned: 0,
                    common_prefixes: 0,
                }),
                Err(failure) => result matches Err(e) && e@ == failure,
            },
    {
        provider::validate_length(request.prefix.len(), HOLT_MAX_KEY_BYTES)?;
        match &request.start_after {
            None => {},
            Some(cursor) => provider::validate_length(cursor.len(), HOLT_MAX_KEY_BYTES)?,
        }
        let run = Self { request, items: Vec::new(), returned: 0, common_prefixes: 0 };
        assert(run@.items =~= Seq::empty());
        Ok(run)
    }

    /// Whether the page takes no more items.
    pub fn is_full(&self) -> (full: bool)
        ensures
            full == self@.full(),
    {
        self.request.limit != 0 && self.items.len() >= self.request.limit
    }

    /// Takes one native entry, and tells whether the page takes more.
    pub fn accept(&mut self, item: ProviderScanItem) -> (more: bool)
        ensures
            final(self)@ == old(self)@.accepted(item@),
            more == !final(self)@.full(),
    {
        if self.is_full() {
            return false;
        }
        let excluded = match &self.request.start_after {
            None => false,
            Some(cursor) => !bytes::bytes_less(cursor.as_slice(), item.boundary().as_slice()),
        };
        if excluded {
            return true;
        }
        match &item {
            ProviderScanItem::Key { .. } => {
                self.returned = self.returned.saturating_add(1);
            },
            ProviderScanItem::CommonPrefix(_) => {
                self.common_prefixes = self.common_prefixes.saturating_add(1);
            },
        }
        let ghost before = provider::item_views(self.items@);
        let ghost view = item@;
        self.items.push(item);
        assert(provider::item_views(self.items@) =~= before.push(view));
        !self.is_full()
    }

    /// The page of the scan, with what the native iterator cost.
    pub fn finish(self, visited: u64, restarts: u64) -> (page: ProviderScanPage)
        ensures
            page@ == (ProviderScanPageView {
                items: self@.items,
                stats: ProviderScanStats {
                    visited,
                    returned: self@.returned,
                    common_prefixes: self@.common_prefixes,
                    restarts,
                },
            }),
    {
        ProviderScanPage {
            stats: ProviderScanStats {
                visited,
                returned: self.returned,
                common_prefixes: self.common_prefixes,
                restarts,
            },
            items: self.items,
        }
    }
}

/// Every item of a page is behind the cursor, and the page holds no more items
/// than were asked for.
pub open spec fn page_is_exclusive(run: HoltScanRunView) -> bool {
    &&& forall|i: int| 0 <= i < run.items.len() ==> !run.excluded(#[trigger] run.items[i])
    &&& run.request.limit != 0 ==> run.items.len() <= run.request.limit
}

/// A page stays exclusive and bounded whatever entries the store yields, and
/// ordered entries stay in their order.
pub proof fn page_stays_exclusive(run: HoltScanRunView, item: ProviderScanItemView)
    requires
        page_is_exclusive(run),
    ensures
        page_is_exclusive(run.accepted(item)),
        run.accepted(item).items == run.items || run.accepted(item).items == run.items.push(item),
{
    let next = run.accepted(item);
    assert forall|i: int| 0 <= i < next.items.len() implies !next.excluded(
        #[trigger] next.items[i],
    ) by {
        if i < run.items.len() {
            assert(next.items[i] == run.items[i]);
            assert(!run.excluded(run.items[i]));
        }
    }
}

/// Requested scopes from index `i` on have known spaces and short prefixes.
pub open spec fn scopes_check(scopes: Seq<ReadScopeView>, i: int) -> Result<(), ProviderFailure>
    decreases scopes.len() - i,
{
    if i >= scopes.len() {
        Ok(())
    } else {
        provider::and_also(
            provider::and_also(
                provider::length_check(scopes[i].prefix.len(), HOLT_MAX_KEY_BYTES),
                provider::space_check(scopes[i].space),
            ),
            scopes_check(scopes, i + 1),
        )
    }
}

/// The ranges that a read view captures, one for each space.
pub fn captured_scopes(scopes: &Vec<ReadScope>) -> (result: Result<Vec<ReadScope>, ProviderError>)
    ensures
        match scopes_check(scopes::scope_views(scopes@), 0) {
            Ok(()) => result matches Ok(captured) && scopes::coalesces(
                scopes::scope_views(captured@),
                scopes::scope_views(scopes@),
            ),
            Err(failure) => result matches Err(e) && e@ == failure,
        },
{
    let ghost views = scopes::scope_views(scopes@);
    let mut i: usize = 0;
    while i < scopes.len()
        invariant
            i <= scopes@.len(),
            views == scopes::scope_views(scopes@),
            scopes_check(views, 0) == scopes_check(views, i as int),
        decreases scopes@.len() - i,
    {
        assert(views[i as int] == scopes@[i as int]@);
        provider::validate_length(scopes[i].prefix.len(), HOLT_MAX_KEY_BYTES)?;
        provider::validate_space(scopes[i].space)?;
        i = i + 1;
    }
    Ok(scopes::coalesce_scopes(scopes))
}

/// How often a name occurs in a list.
pub open spec fn occurrences(names: Seq<Seq<u8>>, name: Seq<u8>) -> nat
    decreases names.len(),
{
    if names.len() == 0 {
        0
    } else {
        occurrences(names.drop_last(), name) + (if names.last() == name {
            1nat
        } else {
            0
        })
    }
}

/// Two lists hold the same names, each as often.
pub open spec fn same_names(a: Seq<Seq<u8>>, b: Seq<Seq<u8>>) -> bool {
    forall|name: Seq<u8>| #[trigger] occurrences(a, name) == occurrences(b, name)
}

/// Contents of a list of names.
pub open spec fn name_views(names: Seq<String>) -> Seq<Seq<u8>> {
    Seq::new(names.len(), |i: int| bytes::utf8(names[i]@))
}

/// How often a name occurs in a list.
fn count(names: &Vec<String>, name: &str) -> (total: usize)
    ensures
        total == occurrences(name_views(names@), bytes::utf8(name@)),
        total <= names@.len(),
{
    let ghost views = name_views(names@);
    let mut total: usize = 0;
    let mut i: usize = 0;
    assert(views.take(0) =~= Seq::empty());
    while i < names.len()
        invariant
            i <= names@.len(),
            total <= i,
            views == name_views(names@),
            total == occurrences(views.take(i as int), bytes::utf8(name@)),
        decreases names@.len() - i,
    {
        proof {
            assert(views.take(i + 1).drop_last() =~= views.take(i as int));
            assert(views.take(i + 1).last() == bytes::utf8(names@[i as int]@));
        }
        if bytes::bytes_equal(names[i].as_str().as_bytes(), name.as_bytes()) {
            total = total + 1;
        }
        i = i + 1;
    }
    assert(views.take(i as int) =~= views);
    total
}

/// A name that occurs in a list stands at some index.
proof fn occurring_name_has_index(names: Seq<Seq<u8>>, name: Seq<u8>)
    ensures
        occurrences(names, name) > 0 ==> exists|i: int|
            0 <= i < names.len() && #[trigger] names[i] == name,
    decreases names.len(),
{
    if names.len() > 0 && occurrences(names, name) > 0 {
        if names.last() == name {
            assert(names[names.len() - 1] == name);
        } else {
            occurring_name_has_index(names.drop_last(), name);
            let i = choose|i: int|
                0 <= i < names.drop_last().len() && #[trigger] names.drop_last()[i] == name;
            assert(names[i] == name);
        }
    }
}

/// Whether every name of one list occurs as often in both.
fn agree(names: &Vec<String>, other: &Vec<String>) -> (agree: bool)
    ensures
        agree == (forall|i: int|
            0 <= i < names@.len() ==> occurrences(
                name_views(names@),
                #[trigger] name_views(names@)[i],
            ) == occurrences(name_views(other@), name_views(names@)[i])),
{
    let ghost views = name_views(names@);
    let mut i: usize = 0;
    while i < names.len()
        invariant
            i <= names@.len(),
            views == name_views(names@),
            forall|j: int|
                0 <= j < i ==> occurrences(views, #[trigger] views[j]) == occurrences(
                    name_views(other@),
                    views[j],
                ),
        decreases names@.len() - i,
    {
        assert(views[i as int] == bytes::utf8(names@[i as int]@));
        let here: usize = count(names, names[i].as_str());
        let there: usize = count(other, names[i].as_str());
        if here != there {
            return false;
        }
        i = i + 1;
    }
    true
}

/// Names of the trees of every ordered space.
pub open spec fn schema_trees() -> Seq<Seq<u8>> {
    Seq::new(
        provider_catalog::space_ids().len(),
        |i: int|
            bytes::utf8(provider_catalog::tree_of(provider_catalog::space_ids()[i])->Some_0@),
    )
}

/// Names of the trees of every ordered space.
pub fn schema_tree_names() -> (names: Vec<String>)
    ensures
        name_views(names@) == schema_trees(),
{
    let spaces = provider_catalog::all_ordered_spaces();
    let mut names: Vec<String> = Vec::new();
    let mut i: usize = 0;
    while i < spaces.len()
        invariant
            i <= spaces@.len(),
            spaces@ == provider_catalog::space_ids(),
            names@.len() == i,
            forall|j: int|
                0 <= j < i ==> bytes::utf8((#[trigger] names@[j])@) == schema_trees()[j],
        decreases spaces@.len() - i,
    {
        proof {
            assert(provider_catalog::is_space(spaces@[i as int]));
            provider_catalog::spaces_are_the_named_ones(spaces@[i as int]);
        }
        match provider_catalog::holt_tree_name(spaces[i]) {
            Some(name) => names.push(name.to_owned()),
            None => {},
        }
        i = i + 1;
    }
    assert(name_views(names@) =~= schema_trees());
    names
}

/// Checks that a store has exactly the trees of the schema.
pub fn validate_tree_registry(actual: &Vec<String>) -> (result: Result<(), ProviderError>)
    ensures
        provider::outcome(result) == provider::require(
            same_names(name_views(actual@), schema_trees()),
            ProviderFailure::schema(),
        ),
{
    let expected = schema_tree_names();
    let ghost a = name_views(actual@);
    let ghost b = name_views(expected@);
    if agree(actual, &expected) && agree(&expected, actual) {
        proof {
            assert forall|name: Seq<u8>| #[trigger] occurrences(a, name) == occurrences(b, name) by {
                occurring_name_has_index(a, name);
                occurring_name_has_index(b, name);
                if occurrences(a, name) > 0 {
                    let i = choose|i: int| 0 <= i < a.len() && #[trigger] a[i] == name;
                    assert(occurrences(a, a[i]) == occurrences(b, a[i]));
                }
                if occurrences(b, name) > 0 {
                    let i = choose|i: int| 0 <= i < b.len() && #[trigger] b[i] == name;
                    assert(occurrences(b, b[i]) == occurrences(a, b[i]));
                }
            }
        }
        Ok(())
    } else {
        Err(ProviderError::schema())
    }
}

/// Checks that a store has no trees before it is initialized.
pub fn validate_fresh_registry(existing: &Vec<String>) -> (result: Result<(), ProviderError>)
    ensures
        provider::outcome(result) == provider::require(
            existing@.len() == 0,
            ProviderFailure::schema(),
        ),
{
    if existing.len() == 0 {
        Ok(())
    } else {
        Err(ProviderError::schema())
    }
}

/// Held kernel objects of a file store.
#[derive(Debug, PartialEq, Eq)]
pub struct HoltStoreObjectIdentity {
    /// Bytes of the canonical path.
    pub canonical_locator: Vec<u8>,
    pub directory_device: u64,
    pub directory_inode: u64,
    pub lock_device: u64,
    pub lock_inode: u64,
}

impl HoltStoreObjectIdentity {
    /// Two identities are those of the same objects at the same place.
    pub open spec fn is(self, other: Self) -> bool {
        &&& self.canonical_locator@ == other.canonical_locator@
        &&& self.directory_device == other.directory_device
        &&& self.directory_inode == other.directory_inode
        &&& self.lock_device == other.lock_device
        &&& self.lock_inode == other.lock_inode
    }

    /// Whether two identities are those of the same objects at the same place.
    pub fn same(&self, other: &Self) -> (same: bool)
        ensures
            same == self.is(*other),
    {
        bytes::bytes_equal(self.canonical_locator.as_slice(), other.canonical_locator.as_slice())
            && self.directory_device == other.directory_device && self.directory_inode
            == other.directory_inode && self.lock_device == other.lock_device && self.lock_inode
            == other.lock_inode
    }
}

/// Checks that the held objects are the expected ones.
pub fn require_identity(
    expected: &HoltStoreObjectIdentity,
    current: &HoltStoreObjectIdentity,
    operation: ProviderOperationV1,
) -> (result: Result<(), ProviderError>)
    ensures
        provider::outcome(result) == provider::require(
            current.is(*expected),
            ProviderFailure::authority_mismatch(operation),
        ),
{
    if current.same(expected) {
        Ok(())
    } else {
        Err(ProviderError::authority_mismatch(operation))
    }
}

/// The held objects that an open store reports and has validated: both reports
/// are there and agree.
pub fn held_identity(
    opened: Option<HoltStoreObjectIdentity>,
    validated: Option<HoltStoreObjectIdentity>,
    operation: ProviderOperationV1,
) -> (result: Result<HoltStoreObjectIdentity, ProviderError>)
    ensures
        match (opened, validated) {
            (Some(a), Some(b)) => if a.is(b) {
                result == Ok::<HoltStoreObjectIdentity, ProviderError>(b)
            } else {
                result matches Err(e) && e@ == ProviderFailure::authority_mismatch(operation)
            },
            _ => result matches Err(e) && e@ == ProviderFailure::authority_mismatch(operation),
        },
{
    match (opened, validated) {
        (Some(opened), Some(validated)) => {
            if opened.same(&validated) {
                Ok(validated)
            } else {
                Err(ProviderError::authority_mismatch(operation))
            }
        },
        _ => Err(ProviderError::authority_mismatch(operation)),
    }
}

/// What was at a place before a store was created there.
#[derive(Debug, PartialEq, Eq)]
pub struct PreopenCreateIdentity {
    /// Bytes of the canonical path.
    pub canonical_locator: Vec<u8>,
    /// Device and inode of a directory that was already there.
    pub existing_directory: Option<(u64, u64)>,
}

impl PreopenCreateIdentity {
    /// Checks that a created store lies where it was meant to lie, in the
    /// directory that was there.
    pub fn validate_after(&self, after: &HoltStoreObjectIdentity) -> (result: Result<
        (),
        ProviderError,
    >)
        ensures
            provider::outcome(result) == provider::require(
                after.canonical_locator@ == self.canonical_locator@ && (
                self.existing_directory matches Some((device, inode)) ==> device
                    == after.directory_device && inode == after.directory_inode),
                ProviderFailure::authority_mismatch(ProviderOperationV1::Create),
            ),
    {
        if !bytes::bytes_equal(
            after.canonical_locator.as_slice(),
            self.canonical_locator.as_slice(),
        ) {
            return Err(ProviderError::authority_mismatch(ProviderOperationV1::Create));
        }
        match self.existing_directory {
            Some((device, inode)) => {
                if device != after.directory_device || inode != after.directory_inode {
                    return Err(ProviderError::authority_mismatch(ProviderOperationV1::Create));
                }
            },
            None => {},
        }
        Ok(())
    }
}

/// What a place holds.
#[derive(Clone, Copy, Debug, PartialEq, Eq, Structural)]
pub enum StoreLocation {
    Missing,
    NotDirectory,
    EmptyDirectory,
    OccupiedDirectory,
}

/// Checks that a store can be created at a place: nothing is there, or an
/// empty directory.
pub fn require_fresh_location(location: StoreLocation) -> (result: Result<(), ProviderError>)
    ensures
        provider::outcome(result) == provider::require(
            location is Missing || location is EmptyDirectory,
            ProviderFailure::schema(),
        ),
{
    match location {
        StoreLocation::Missing => Ok(()),
        StoreLocation::EmptyDirectory => Ok(()),
        _ => Err(ProviderError::schema()),
    }
}

/// Checks that a store can be reopened at a place: a directory is there.
pub fn require_existing_location(location: StoreLocation) -> (result: Result<(), ProviderError>)
    ensures
        provider::outcome(result) == provider::require(
            location is EmptyDirectory || location is OccupiedDirectory,
            ProviderFailure::schema(),
        ),
{
    match location {
        StoreLocation::EmptyDirectory => Ok(()),
        StoreLocation::OccupiedDirectory => Ok(()),
        _ => Err(ProviderError::schema()),
    }
}

/// Where a factory opens its store.
#[derive(Clone, Copy, Debug, PartialEq, Eq, Structural)]
pub enum FactoryLocation {
    Memory,
    File,
    ReservedExisting,
}

/// Checks that a factory may create a store. A reserved store exists already,
/// and no factory takes over a prepared create.
pub fn require_create(location: FactoryLocation, recovery_intent: CreateRecoveryIntentV1) -> (result:
    Result<(), ProviderError>)
    ensures
        provider::outcome(result) == provider::require(
            !(location is ReservedExisting) && recovery_intent is Fresh,
            ProviderFailure::authority_mismatch(ProviderOperationV1::Create),
        ),
{
    if location == FactoryLocation::ReservedExisting || recovery_intent
        == CreateRecoveryIntentV1::ReconcilePrepared {
        return Err(ProviderError::authority_mismatch(ProviderOperationV1::Create));
    }
    Ok(())
}

/// Checks that a factory may reopen a store: only one with a path may.
pub fn require_reopen(location: FactoryLocation) -> (result: Result<(), ProviderError>)
    ensures
        provider::outcome(result) == provider::require(
            location is File,
            ProviderFailure::authority_mismatch(ProviderOperationV1::Reopen),
        ),
{
    match location {
        FactoryLocation::File => Ok(()),
        _ => Err(ProviderError::authority_mismatch(ProviderOperationV1::Reopen)),
    }
}

/// Why a pending recovery is not dispatched.
#[derive(Clone, Copy, Debug, PartialEq, Eq, Structural)]
pub enum PendingRecoveryRefusal {
    Unsupported,
    InvalidBinding,
}

/// Checks that a factory may open a store for a pending recovery: it holds a
/// reserved store, under the schema and installation of the command.
pub fn require_pending_recovery(
    location: FactoryLocation,
    schema_valid: bool,
    installation_matches: bool,
) -> (result: Result<(), PendingRecoveryRefusal>)
    ensures
        result == (if !(location is ReservedExisting) {
            Err::<(), PendingRecoveryRefusal>(PendingRecoveryRefusal::Unsupported)
        } else if !schema_valid || !installation_matches {
            Err(PendingRecoveryRefusal::InvalidBinding)
        } else {
            Ok(())
        }),
{
    if location != FactoryLocation::ReservedExisting {
        return Err(PendingRecoveryRefusal::Unsupported);
    }
    if !schema_valid || !installation_matches {
        return Err(PendingRecoveryRefusal::InvalidBinding);
    }
    Ok(())
}

/// How far a reserved store is.
#[derive(Clone, Copy, Debug, PartialEq, Eq, Structural)]
pub enum ReservedState {
    /// The reservation is held, and no store is open.
    Ready,
    /// The store is open and held, and not handed out.
    Opened,
    /// The store was handed out.
    Delivered,
}

/// What a reserved store is to do next.
#[derive(Clone, Copy, Debug, PartialEq, Eq, Structural)]
pub enum ReservedStep {
    /// Open the store from the reservation.
    Adopt,
    /// Validate the open store and hand it out.
    Deliver,
    /// Refuse: the store was handed out already.
    Refuse,
}

impl ReservedState {
    /// What the store is to do next.
    pub open spec fn next(self) -> ReservedStep {
        match self {
            Self::Ready => ReservedStep::Adopt,
            Self::Opened => ReservedStep::Deliver,
            Self::Delivered => ReservedStep::Refuse,
        }
    }

    /// The state after a step: one that failed leaves the state as it was, so
    /// that it can be tried again on the same held objects.
    pub open spec fn after(self, done: bool) -> Self {
        match self {
            Self::Ready if done => Self::Opened,
            Self::Opened if done => Self::Delivered,
            state => state,
        }
    }

    /// What the store is to do next.
    pub fn step(self) -> (step: ReservedStep)
        ensures
            step == self.next(),
    {
        match self {
            Self::Ready => ReservedStep::Adopt,
            Self::Opened => ReservedStep::Deliver,
            Self::Delivered => ReservedStep::Refuse,
        }
    }

    /// The state after a step that was done or failed.
    pub fn advance(self, done: bool) -> (state: Self)
        ensures
            state == self.after(done),
    {
        match self {
            Self::Ready => if done {
                Self::Opened
            } else {
                Self::Ready
            },
            Self::Opened => if done {
                Self::Delivered
            } else {
                Self::Opened
            },
            Self::Delivered => Self::Delivered,
        }
    }
}

/// A reserved store is handed out at most once: behind its delivery every step
/// is a refusal.
pub proof fn reserved_store_is_delivered_once(state: ReservedState, done: bool)
    ensures
        state.next() is Deliver && done ==> state.after(done) is Delivered,
        state is Delivered ==> state.next() is Refuse && state.after(done) is Delivered,
        !done ==> state.after(done) == state,
{
}

/// Class of a native failure.
#[derive(Clone, Copy, Debug, PartialEq, Eq, Structural)]
pub enum HoltErrorClass {
    /// The held objects are not the expected ones.
    IdentityMismatch,
    /// Storage failed because a file is missing, exists, or may not be used.
    StorageRefused,
    /// Storage failed otherwise.
    Storage,
    /// Anything else.
    Other,
}

/// The failure of a check of held objects.
pub fn held_store_error(operation: ProviderOperationV1, class: HoltErrorClass, message: &str) -> (error:
    ProviderError)
    ensures
        error@ == (match class {
            HoltErrorClass::IdentityMismatch => ProviderFailure::authority_mismatch(operation),
            HoltErrorClass::StorageRefused => ProviderFailure::authority_mismatch(operation),
            HoltErrorClass::Storage => ProviderFailure::unavailable(operation),
            HoltErrorClass::Other => ProviderFailure::backend(operation, message@),
        }),
{
    match class {
        HoltErrorClass::IdentityMismatch => ProviderError::authority_mismatch(operation),
        HoltErrorClass::StorageRefused => ProviderError::authority_mismatch(operation),
        HoltErrorClass::Storage => ProviderError::unavailable(operation),
        HoltErrorClass::Other => ProviderError::backend(operation, message),
    }
}

/// The failure of a native read: one of storage means that the store is not
/// available now.
pub fn read_error(operation: &str, class: HoltErrorClass, message: &str) -> (error: ProviderError)
    ensures
        error@ == (match class {
            HoltErrorClass::StorageRefused => ProviderFailure::unavailable(
                operation_of(bytes::utf8(operation@)),
            ),
            HoltErrorClass::Storage => ProviderFailure::unavailable(
                operation_of(bytes::utf8(operation@)),
            ),
            _ => ProviderFailure::backend(operation_of(bytes::utf8(operation@)), message@),
        }),
{
    let code = operation_code(operation);
    match class {
        HoltErrorClass::StorageRefused => ProviderError::unavailable(code),
        HoltErrorClass::Storage => ProviderError::unavailable(code),
        _ => ProviderError::backend(code, message),
    }
}

/// The failure of a guard of the runtime.
pub fn runtime_guard_error(operation: &str) -> (error: ProviderError)
    ensures
        error@ == ProviderFailure::authority_mismatch(operation_of(bytes::utf8(operation@))),
{
    ProviderError::authority_mismatch(operation_code(operation))
}

/// Which operation a description speaks of.
pub open spec fn operation_of(operation: Seq<u8>) -> ProviderOperationV1 {
    if text::holds(operation, bytes::utf8("commit"@)) || text::holds(
        operation,
        bytes::utf8("transaction"@),
    ) {
        ProviderOperationV1::Commit
    } else if text::holds(operation, bytes::utf8("scan"@)) {
        ProviderOperationV1::Scan
    } else if text::holds(operation, bytes::utf8("read view"@)) || text::holds(
        operation,
        bytes::utf8("begin metadata read"@),
    ) {
        ProviderOperationV1::BeginRead
    } else if text::holds(operation, bytes::utf8("read"@)) || text::holds(
        operation,
        bytes::utf8("prefix"@),
    ) {
        ProviderOperationV1::ReadRecord
    } else if text::holds(operation, bytes::utf8("create"@)) || text::holds(
        operation,
        bytes::utf8("fresh"@),
    ) {
        ProviderOperationV1::Create
    } else if text::holds(operation, bytes::utf8("open"@)) || text::holds(
        operation,
        bytes::utf8("reopen"@),
    ) {
        ProviderOperationV1::Reopen
    } else if text::holds(operation, bytes::utf8("schema"@)) || text::holds(
        operation,
        bytes::utf8("tree"@),
    ) {
        ProviderOperationV1::InspectSchema
    } else {
        ProviderOperationV1::ValidateRuntime
    }
}

/// Which operation a description speaks of.
pub fn operation_code(operation: &str) -> (code: ProviderOperationV1)
    ensures
        code == operation_of(bytes::utf8(operation@)),
{
    let b = operation.as_bytes();
    if text::contains(b, "commit".as_bytes()) || text::contains(b, "transaction".as_bytes()) {
        ProviderOperationV1::Commit
    } else if text::contains(b, "scan".as_bytes()) {
        ProviderOperationV1::Scan
    } else if text::contains(b, "read view".as_bytes()) || text::contains(
        b,
        "begin metadata read".as_bytes(),
    ) {
        ProviderOperationV1::BeginRead
    } else if text::contains(b, "read".as_bytes()) || text::contains(b, "prefix".as_bytes()) {
        ProviderOperationV1::ReadRecord
    } else if text::contains(b, "create".as_bytes()) || text::contains(b, "fresh".as_bytes()) {
        ProviderOperationV1::Create
    } else if text::contains(b, "open".as_bytes()) || text::contains(b, "reopen".as_bytes()) {
        ProviderOperationV1::Reopen
    } else if text::contains(b, "schema".as_bytes()) || text::contains(b, "tree".as_bytes()) {
        ProviderOperationV1::InspectSchema
    } else {
        ProviderOperationV1::ValidateRuntime
    }
}

} // verus!
