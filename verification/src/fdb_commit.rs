//! Commit of an atomic plan over a FoundationDB transaction.
//!
//! A commit alternates with the store: it names one native action, takes what
//! came of it, and ends with an outcome. Values of the plan are not readable
//! in their own transaction, so guards are decided against the native reads
//! and the writes that are still pending; the writes follow once every guard
//! holds.

use vstd::prelude::*;

use crate::bytes;
use crate::fdb_keys;
use crate::fdb_provider;
use crate::fdb_provider::{FDB_MAX_LOGICAL_KEY_BYTES, FDB_MAX_LOGICAL_VALUE_BYTES};
use crate::provider;
use crate::provider::{
    AtomicCommitOutcome, AtomicOp, AtomicOpView, AtomicPlan, ProviderError, ProviderFailure,
    ProviderInstanceToken, ProviderOperationV1,
};
use crate::provider_catalog::OrderedSpaceId;

verus! {

/// One operation may be tried: its space is known, its key and value are not
/// too long, and its witness is one of this provider.
pub open spec fn operation_check(op: AtomicOpView, token: ProviderInstanceToken) -> Result<
    (),
    ProviderFailure,
> {
    provider::and_also(
        provider::space_check(op.space()),
        provider::and_also(
            provider::length_check(op.key().len(), FDB_MAX_LOGICAL_KEY_BYTES),
            provider::and_also(
                match op.witness() {
                    None => Ok(()),
                    Some(witness) => fdb_provider::witness_check(token, witness),
                },
                match op.value() {
                    None => Ok(()),
                    Some(value) => provider::length_check(value.len(), FDB_MAX_LOGICAL_VALUE_BYTES),
                },
            ),
        ),
    )
}

/// Operations from index `i` on may all be tried.
pub open spec fn plan_check(
    operations: Seq<AtomicOpView>,
    token: ProviderInstanceToken,
    i: int,
) -> Result<(), ProviderFailure>
    decreases operations.len() - i,
{
    if i >= operations.len() {
        Ok(())
    } else {
        provider::and_also(
            operation_check(operations[i], token),
            plan_check(operations, token, i + 1),
        )
    }
}

/// Checks a plan before anything is read or written.
pub fn preflight_plan(plan: &AtomicPlan, token: ProviderInstanceToken) -> (result: Result<
    (),
    ProviderError,
>)
    ensures
        provider::outcome(result) == plan_check(plan@, token, 0),
{
    let ghost views = plan@;
    let mut i: usize = 0;
    while i < plan.operations.len()
        invariant
            i <= plan.operations@.len(),
            views == plan@,
            plan_check(views, token, 0) == plan_check(views, token, i as int),
        decreases plan.operations@.len() - i,
    {
        let operation = &plan.operations[i];
        assert(views[i as int] == operation@);
        provider::validate_space(operation.space())?;
        provider::validate_length(operation.key().len(), FDB_MAX_LOGICAL_KEY_BYTES)?;
        match operation.witness() {
            None => {},
            Some(witness) => match fdb_provider::witness_bytes(token, witness) {
                Ok(_) => {},
                Err(error) => {
                    return Err(error);
                },
            },
        }
        match operation.value() {
            None => {},
            Some(value) => provider::validate_length(value.len(), FDB_MAX_LOGICAL_VALUE_BYTES)?,
        }
        i = i + 1;
    }
    Ok(())
}

/// A write that follows once every guard holds: a value, or a deletion that
/// the transaction has already seen.
#[derive(Debug, PartialEq, Eq)]
pub struct PendingWrite {
    pub space: OrderedSpaceId,
    pub key: Vec<u8>,
    pub value: Option<Vec<u8>>,
}

/// Contents of a [`PendingWrite`].
pub struct PendingWriteView {
    pub space: OrderedSpaceId,
    pub key: Seq<u8>,
    pub value: Option<Seq<u8>>,
}

impl View for PendingWrite {
    type V = PendingWriteView;

    open spec fn view(&self) -> PendingWriteView {
        PendingWriteView {
            space: self.space,
            key: self.key@,
            value: bytes::option_view(self.value),
        }
    }
}

/// Contents of a list of pending writes.
pub open spec fn pending_views(pending: Seq<PendingWrite>) -> Seq<PendingWriteView> {
    Seq::new(pending.len(), |i: int| pending[i]@)
}

/// Order of records: by space, then by key.
pub open spec fn record_less(
    space: OrderedSpaceId,
    key: Seq<u8>,
    other_space: OrderedSpaceId,
    other_key: Seq<u8>,
) -> bool {
    space < other_space || (space == other_space && bytes::lex_less(key, other_key))
}

/// The pending write of a record, if it has one.
pub open spec fn pending_at(
    pending: Seq<PendingWriteView>,
    space: OrderedSpaceId,
    key: Seq<u8>,
) -> Option<PendingWriteView>
    decreases pending.len(),
{
    if pending.len() == 0 {
        None
    } else if pending[0].space == space && pending[0].key == key {
        Some(pending[0])
    } else {
        pending_at(pending.drop_first(), space, key)
    }
}

/// Some pending value lies under a prefix.
pub open spec fn pending_under(
    pending: Seq<PendingWriteView>,
    space: OrderedSpaceId,
    prefix: Seq<u8>,
) -> bool {
    exists|i: int|
        0 <= i < pending.len() && (#[trigger] pending[i]).space == space && bytes::has_prefix(
            pending[i].key,
            prefix,
        ) && pending[i].value is Some
}

/// Pending writes with one more, which takes the place of an earlier write of
/// the same record; writes stay in the order of records.
pub open spec fn with_pending(pending: Seq<PendingWriteView>, write: PendingWriteView) -> Seq<
    PendingWriteView,
>
    decreases pending.len(),
{
    if pending.len() == 0 {
        seq![write]
    } else if pending[0].space == write.space && pending[0].key == write.key {
        seq![write] + pending.drop_first()
    } else if record_less(write.space, write.key, pending[0].space, pending[0].key) {
        seq![write] + pending
    } else {
        seq![pending[0]] + with_pending(pending.drop_first(), write)
    }
}

/// Whether two records are the same.
fn same_record(
    space: OrderedSpaceId,
    key: &[u8],
    other_space: OrderedSpaceId,
    other_key: &[u8],
) -> (same: bool)
    ensures
        same == (space == other_space && key@ == other_key@),
{
    space == other_space && bytes::bytes_equal(key, other_key)
}

/// The pending write of a record, if it has one.
fn find_pending<'a>(pending: &'a Vec<PendingWrite>, space: OrderedSpaceId, key: &[u8]) -> (found:
    Option<&'a PendingWrite>)
    ensures
        match found {
            Some(write) => pending_at(pending_views(pending@), space, key@) == Some(write@),
            None => pending_at(pending_views(pending@), space, key@) is None,
        },
{
    let ghost views = pending_views(pending@);
    let mut i: usize = 0;
    assert(views.skip(0) =~= views);
    while i < pending.len()
        invariant
            i <= pending@.len(),
            views == pending_views(pending@),
            pending_at(views, space, key@) == pending_at(views.skip(i as int), space, key@),
        decreases pending@.len() - i,
    {
        let write = &pending[i];
        assert(views.skip(i as int)[0] == write@);
        if same_record(write.space, write.key.as_slice(), space, key) {
            return Some(write);
        }
        assert(views.skip(i as int).drop_first() =~= views.skip(i + 1));
        i = i + 1;
    }
    None
}

/// Whether some pending value lies under a prefix.
fn is_pending_under(pending: &Vec<PendingWrite>, space: OrderedSpaceId, prefix: &[u8]) -> (found:
    bool)
    ensures
        found == pending_under(pending_views(pending@), space, prefix@),
{
    let ghost views = pending_views(pending@);
    let mut i: usize = 0;
    while i < pending.len()
        invariant
            i <= pending@.len(),
            views == pending_views(pending@),
            forall|j: int|
                0 <= j < i ==> !((#[trigger] views[j]).space == space && bytes::has_prefix(
                    views[j].key,
                    prefix@,
                ) && views[j].value is Some),
        decreases pending@.len() - i,
    {
        let write = &pending[i];
        assert(views[i as int] == write@);
        if write.space == space && bytes::starts_with(write.key.as_slice(), prefix)
            && write.value.is_some() {
            return true;
        }
        i = i + 1;
    }
    false
}

/// Behind writes that neither are of the record nor come behind it, one more
/// write goes on.
proof fn with_pending_skips(pending: Seq<PendingWriteView>, write: PendingWriteView, i: int)
    requires
        0 <= i <= pending.len(),
        forall|j: int|
            0 <= j < i ==> {
                let w = #[trigger] pending[j];
                !(w.space == write.space && w.key == write.key) && !record_less(
                    write.space,
                    write.key,
                    w.space,
                    w.key,
                )
            },
    ensures
        with_pending(pending, write) == pending.take(i) + with_pending(pending.skip(i), write),
    decreases i,
{
    if i == 0 {
        assert(pending.skip(0) =~= pending);
        assert(pending.take(0) + with_pending(pending, write) =~= with_pending(pending, write));
    } else {
        let rest = pending.drop_first();
        assert forall|j: int| 0 <= j < i - 1 implies ({
            let w = #[trigger] rest[j];
            !(w.space == write.space && w.key == write.key) && !record_less(
                write.space,
                write.key,
                w.space,
                w.key,
            )
        }) by {
            assert(rest[j] == pending[j + 1]);
        }
        with_pending_skips(rest, write, i - 1);
        assert(rest.skip(i - 1) =~= pending.skip(i));
        let tail = with_pending(pending.skip(i), write);
        assert(pending[0] == pending[0]);
        assert(seq![pending[0]] + (rest.take(i - 1) + tail) =~= pending.take(i) + tail);
    }
}

/// Adds one write, in the place of an earlier write of the same record.
fn add_pending(pending: &mut Vec<PendingWrite>, write: PendingWrite)
    ensures
        pending_views(final(pending)@) == with_pending(pending_views(old(pending)@), write@),
{
    let ghost before = pending_views(pending@);
    let ghost view = write@;
    let mut i: usize = 0;
    while i < pending.len()
        invariant
            i <= pending@.len(),
            before == pending_views(pending@),
            before == pending_views(old(pending)@),
            view == write@,
            forall|j: int|
                0 <= j < i ==> {
                    let w = #[trigger] before[j];
                    !(w.space == view.space && w.key == view.key) && !record_less(
                        view.space,
                        view.key,
                        w.space,
                        w.key,
                    )
                },
        decreases pending@.len() - i,
    {
        assert(before[i as int] == pending@[i as int]@);
        proof {
            with_pending_skips(before, view, i as int);
            assert(before.skip(i as int)[0] == before[i as int]);
        }
        if same_record(
            pending[i].space,
            pending[i].key.as_slice(),
            write.space,
            write.key.as_slice(),
        ) {
            pending.set(i, write);
            proof {
                let rest = before.skip(i as int).drop_first();
                assert(pending_views(pending@) =~= before.take(i as int) + (seq![view] + rest));
            }
            return;
        }
        if write.space < pending[i].space || (write.space == pending[i].space && bytes::bytes_less(
            write.key.as_slice(),
            pending[i].key.as_slice(),
        )) {
            pending.insert(i, write);
            proof {
                assert(pending_views(pending@) =~= before.take(i as int) + (seq![view]
                    + before.skip(i as int)));
            }
            return;
        }
        i = i + 1;
    }
    proof {
        with_pending_skips(before, view, i as int);
        assert(before.skip(i as int) =~= Seq::empty());
        assert(before.take(i as int) =~= before);
    }
    pending.push(write);
    assert(pending_views(pending@) =~= before + seq![view]);
}

/// What a commit asks the store to do.
#[derive(Debug, PartialEq, Eq)]
pub enum CommitAction {
    /// Nothing: the commit goes on by itself.
    Continue,
    /// Read the stored value of a physical key.
    ReadRecord { key: Vec<u8> },
    /// Tell whether a physical range is empty.
    CheckRange { begin: Vec<u8>, end: Vec<u8> },
    /// Delete a physical key.
    ClearRecord { key: Vec<u8> },
    /// Store a versionstamped operand under a physical key.
    WriteRecord { key: Vec<u8>, operand: Vec<u8> },
    /// Limit the size of the transaction.
    LimitSize { bytes: i32 },
    /// Estimate the size of the transaction.
    EstimateSize,
    /// Commit the transaction.
    Commit,
    /// Check the runtime.
    ValidateRuntime,
    /// Nothing: the outcome is known.
    Finish,
}

/// Contents of a [`CommitAction`].
pub enum CommitActionView {
    Continue,
    ReadRecord { key: Seq<u8> },
    CheckRange { begin: Seq<u8>, end: Seq<u8> },
    ClearRecord { key: Seq<u8> },
    WriteRecord { key: Seq<u8>, operand: Seq<u8> },
    LimitSize { bytes: i32 },
    EstimateSize,
    Commit,
    ValidateRuntime,
    Finish,
}

impl View for CommitAction {
    type V = CommitActionView;

    open spec fn view(&self) -> CommitActionView {
        match self {
            Self::Continue => CommitActionView::Continue,
            Self::ReadRecord { key } => CommitActionView::ReadRecord { key: key@ },
            Self::CheckRange { begin, end } => CommitActionView::CheckRange {
                begin: begin@,
                end: end@,
            },
            Self::ClearRecord { key } => CommitActionView::ClearRecord { key: key@ },
            Self::WriteRecord { key, operand } => CommitActionView::WriteRecord {
                key: key@,
                operand: operand@,
            },
            Self::LimitSize { bytes } => CommitActionView::LimitSize { bytes: *bytes },
            Self::EstimateSize => CommitActionView::EstimateSize,
            Self::Commit => CommitActionView::Commit,
            Self::ValidateRuntime => CommitActionView::ValidateRuntime,
            Self::Finish => CommitActionView::Finish,
        }
    }
}

/// What came of an action.
#[derive(Debug, PartialEq, Eq)]
pub enum CommitEvent {
    /// The action was done.
    Done,
    /// The stored value that was read, if there is one.
    Record(Option<Vec<u8>>),
    /// Whether the range is empty.
    RangeEmpty(bool),
    /// The estimated size.
    Size(i64),
    /// The native commit succeeded, or failed with a code.
    Settled(Option<i32>),
    /// The action failed before the native commit.
    Failed(ProviderError),
    /// The runtime is valid, or why it is not.
    Validated(Result<(), ProviderError>),
}

/// Contents of a [`CommitEvent`].
pub enum CommitEventView {
    Done,
    Record(Option<Seq<u8>>),
    RangeEmpty(bool),
    Size(i64),
    Settled(Option<i32>),
    Failed(ProviderFailure),
    Validated(Result<(), ProviderFailure>),
}

impl View for CommitEvent {
    type V = CommitEventView;

    open spec fn view(&self) -> CommitEventView {
        match self {
            Self::Done => CommitEventView::Done,
            Self::Record(value) => CommitEventView::Record(bytes::option_view(*value)),
            Self::RangeEmpty(empty) => CommitEventView::RangeEmpty(*empty),
            Self::Size(size) => CommitEventView::Size(*size),
            Self::Settled(code) => CommitEventView::Settled(*code),
            Self::Failed(error) => CommitEventView::Failed(error@),
            Self::Validated(result) => CommitEventView::Validated(provider::outcome(*result)),
        }
    }
}

impl CommitEventView {
    /// Why the event does not answer the action that it came of.
    pub open spec fn failure(self) -> ProviderFailure {
        match self {
            Self::Failed(failure) => failure,
            _ => ProviderFailure::schema(),
        }
    }
}

/// How far a commit is.
#[derive(Debug, PartialEq, Eq)]
pub enum CommitStage {
    /// Operations from this index on are still to be tried.
    Guards { next: usize },
    /// Pending writes from this index on are still to be stored.
    Writes { next: usize },
    /// The size of the transaction is to be limited.
    Limit,
    /// The size of the transaction is to be estimated.
    Estimate,
    /// The transaction is to be committed.
    Commit { approximate: usize },
    /// The runtime is to be checked behind the result.
    Validate { entered_native_commit: bool, result: Result<AtomicCommitOutcome, ProviderError> },
    /// The outcome is known.
    Finished { result: Result<AtomicCommitOutcome, ProviderError> },
}

/// Contents of a [`CommitStage`].
pub enum CommitStageView {
    Guards { next: usize },
    Writes { next: usize },
    Limit,
    Estimate,
    Commit { approximate: usize },
    Validate {
        entered_native_commit: bool,
        result: Result<AtomicCommitOutcome, ProviderFailure>,
    },
    Finished { result: Result<AtomicCommitOutcome, ProviderFailure> },
}

impl View for CommitStage {
    type V = CommitStageView;

    open spec fn view(&self) -> CommitStageView {
        match self {
            Self::Guards { next } => CommitStageView::Guards { next: *next },
            Self::Writes { next } => CommitStageView::Writes { next: *next },
            Self::Limit => CommitStageView::Limit,
            Self::Estimate => CommitStageView::Estimate,
            Self::Commit { approximate } => CommitStageView::Commit { approximate: *approximate },
            Self::Validate { entered_native_commit, result } => CommitStageView::Validate {
                entered_native_commit: *entered_native_commit,
                result: provider::outcome(*result),
            },
            Self::Finished { result } => CommitStageView::Finished {
                result: provider::outcome(*result),
            },
        }
    }
}

/// A commit in progress.
#[derive(Debug, PartialEq, Eq)]
pub struct CommitRun {
    namespace: Vec<u8>,
    budget: usize,
    operations: Vec<AtomicOp>,
    pending: Vec<PendingWrite>,
    stage: CommitStage,
}

/// Contents of a [`CommitRun`].
pub struct CommitRunView {
    pub namespace: Seq<u8>,
    pub budget: usize,
    pub operations: Seq<AtomicOpView>,
    pub pending: Seq<PendingWriteView>,
    pub stage: CommitStageView,
}

impl View for CommitRun {
    type V = CommitRunView;

    closed spec fn view(&self) -> CommitRunView {
        CommitRunView {
            namespace: self.namespace@,
            budget: self.budget,
            operations: provider::operation_views(self.operations@),
            pending: pending_views(self.pending@),
            stage: self.stage@,
        }
    }
}

/// What deciding one guard asks the store: nothing where the pending writes
/// already decide it.
pub open spec fn guard_action(
    namespace: Seq<u8>,
    pending: Seq<PendingWriteView>,
    op: AtomicOpView,
) -> CommitActionView {
    let physical = fdb_keys::physical(namespace, op.space(), op.key());
    match op {
        AtomicOpView::Put { .. } => CommitActionView::Continue,
        AtomicOpView::Delete { .. } => CommitActionView::ClearRecord { key: physical },
        AtomicOpView::AssertPrefixEmpty { space, prefix } => if pending_under(
            pending,
            space,
            prefix,
        ) {
            CommitActionView::Continue
        } else {
            match fdb_keys::successor(physical) {
                None => CommitActionView::Continue,
                Some(end) => CommitActionView::CheckRange { begin: physical, end },
            }
        },
        _ => if pending_at(pending, op.space(), op.key()) is Some {
            CommitActionView::Continue
        } else {
            CommitActionView::ReadRecord { key: physical }
        },
    }
}

/// What came of one operation.
pub enum GuardView {
    /// It does not hold: the plan conflicts.
    Unsatisfied,
    /// It holds, with these pending writes.
    Satisfied { pending: Seq<PendingWriteView> },
    /// It could not be decided.
    Failed { failure: ProviderFailure },
}

/// The record of an operation is absent: its pending write is a deletion, or
/// it has none and nothing was read.
pub open spec fn absence(
    pending: Seq<PendingWriteView>,
    op: AtomicOpView,
    event: CommitEventView,
) -> Result<bool, ProviderFailure> {
    match pending_at(pending, op.space(), op.key()) {
        Some(write) => Ok(write.value is None),
        None => match event {
            CommitEventView::Record(actual) => Ok(actual is None),
            _ => Err(event.failure()),
        },
    }
}

/// The record of an operation has the version of its witness: it has no
/// pending write, and that version was read.
pub open spec fn unchanged(
    pending: Seq<PendingWriteView>,
    op: AtomicOpView,
    version: Seq<u8>,
    event: CommitEventView,
) -> Result<bool, ProviderFailure> {
    match pending_at(pending, op.space(), op.key()) {
        Some(_) => Ok(false),
        None => match event {
            CommitEventView::Record(actual) => Ok(actual == Some(version)),
            _ => Err(event.failure()),
        },
    }
}

/// A guard that holds, or does not, and what it writes if it holds.
pub open spec fn guarded(
    holds: Result<bool, ProviderFailure>,
    pending: Seq<PendingWriteView>,
) -> GuardView {
    match holds {
        Err(failure) => GuardView::Failed { failure },
        Ok(true) => GuardView::Satisfied { pending },
        Ok(false) => GuardView::Unsatisfied,
    }
}

/// What came of one operation.
pub open spec fn guard_result(
    namespace: Seq<u8>,
    pending: Seq<PendingWriteView>,
    op: AtomicOpView,
    event: CommitEventView,
) -> GuardView {
    match op {
        AtomicOpView::AssertUnchanged { witness, .. } => guarded(
            unchanged(pending, op, witness.version, event),
            pending,
        ),
        AtomicOpView::AssertAbsent { .. } => guarded(absence(pending, op, event), pending),
        AtomicOpView::AssertPrefixEmpty { space, prefix } => if pending_under(
            pending,
            space,
            prefix,
        ) {
            GuardView::Unsatisfied
        } else if fdb_keys::successor(fdb_keys::physical(namespace, space, prefix)) is None {
            GuardView::Failed { failure: ProviderFailure::invalid_plan() }
        } else {
            match event {
                CommitEventView::RangeEmpty(empty) => guarded(Ok(empty), pending),
                _ => GuardView::Failed { failure: event.failure() },
            }
        },
        AtomicOpView::Put { space, key, value } => GuardView::Satisfied {
            pending: with_pending(pending, PendingWriteView { space, key, value: Some(value) }),
        },
        AtomicOpView::PutIfAbsent { space, key, value } => guarded(
            absence(pending, op, event),
            with_pending(pending, PendingWriteView { space, key, value: Some(value) }),
        ),
        AtomicOpView::CompareAndPut { space, key, witness, value } => guarded(
            unchanged(pending, op, witness.version, event),
            with_pending(pending, PendingWriteView { space, key, value: Some(value) }),
        ),
        AtomicOpView::Delete { space, key } => match event {
            CommitEventView::Done => GuardView::Satisfied {
                pending: with_pending(pending, PendingWriteView { space, key, value: None }),
            },
            _ => GuardView::Failed { failure: event.failure() },
        },
    }
}

impl CommitRunView {
    /// The commit of a plan that passed its checks, or that failed them.
    pub open spec fn started(
        namespace: Seq<u8>,
        budget: usize,
        token: ProviderInstanceToken,
        operations: Seq<AtomicOpView>,
    ) -> Self {
        CommitRunView {
            namespace,
            budget,
            operations,
            pending: Seq::empty(),
            stage: match plan_check(operations, token, 0) {
                Ok(()) => CommitStageView::Guards { next: 0 },
                Err(failure) => CommitStageView::Validate {
                    entered_native_commit: false,
                    result: Err(failure),
                },
            },
        }
    }

    /// What the store is to do next.
    pub open spec fn action(self) -> CommitActionView {
        match self.stage {
            CommitStageView::Guards { next } => if next < self.operations.len() {
                guard_action(self.namespace, self.pending, self.operations[next as int])
            } else {
                CommitActionView::Continue
            },
            CommitStageView::Writes { next } => if next < self.pending.len() {
                let write = self.pending[next as int];
                match write.value {
                    None => CommitActionView::Continue,
                    Some(value) => CommitActionView::WriteRecord {
                        key: fdb_keys::physical(self.namespace, write.space, write.key),
                        operand: fdb_keys::versionstamped(value),
                    },
                }
            } else {
                CommitActionView::Continue
            },
            CommitStageView::Limit => CommitActionView::LimitSize { bytes: self.budget as i32 },
            CommitStageView::Estimate => CommitActionView::EstimateSize,
            CommitStageView::Commit { .. } => CommitActionView::Commit,
            CommitStageView::Validate { .. } => CommitActionView::ValidateRuntime,
            CommitStageView::Finished { .. } => CommitActionView::Finish,
        }
    }

    /// The commit at another stage.
    pub open spec fn at(self, stage: CommitStageView) -> Self {
        CommitRunView { stage, ..self }
    }

    /// The commit that ends with a result before the native commit.
    pub open spec fn ended(self, result: Result<AtomicCommitOutcome, ProviderFailure>) -> Self {
        self.at(CommitStageView::Validate { entered_native_commit: false, result })
    }

    /// The commit after an action was answered.
    pub open spec fn after(self, event: CommitEventView) -> Self {
        match self.stage {
            CommitStageView::Guards { next } => if next < self.operations.len() {
                match guard_result(
                    self.namespace,
                    self.pending,
                    self.operations[next as int],
                    event,
                ) {
                    GuardView::Failed { failure } => self.ended(Err(failure)),
                    GuardView::Unsatisfied => self.ended(Ok(AtomicCommitOutcome::Conflict)),
                    GuardView::Satisfied { pending } => CommitRunView {
                        pending,
                        stage: CommitStageView::Guards { next: (next + 1) as usize },
                        ..self
                    },
                }
            } else {
                self.at(CommitStageView::Writes { next: 0 })
            },
            CommitStageView::Writes { next } => if next < self.pending.len() {
                if event is Done {
                    self.at(CommitStageView::Writes { next: (next + 1) as usize })
                } else {
                    self.ended(Err(event.failure()))
                }
            } else {
                self.at(CommitStageView::Limit)
            },
            CommitStageView::Limit => if event is Done {
                self.at(CommitStageView::Estimate)
            } else {
                self.ended(Err(event.failure()))
            },
            CommitStageView::Estimate => match event {
                CommitEventView::Size(size) => if size < 0 || size > usize::MAX {
                    self.ended(
                        Err(
                            ProviderFailure::backend(
                                ProviderOperationV1::Commit,
                                "native approximate size was negative"@,
                            ),
                        ),
                    )
                } else if size > self.budget {
                    self.ended(
                        Err(ProviderFailure::transaction_too_large(size as usize, self.budget)),
                    )
                } else {
                    self.at(CommitStageView::Commit { approximate: size as usize })
                },
                _ => self.ended(Err(event.failure())),
            },
            CommitStageView::Commit { approximate } => match event {
                CommitEventView::Settled(code) => self.at(
                    CommitStageView::Validate {
                        entered_native_commit: true,
                        result: fdb_provider::settled(code, approximate, self.budget),
                    },
                ),
                // Whatever else is said of a native commit, it may still happen.
                _ => self.at(
                    CommitStageView::Validate {
                        entered_native_commit: true,
                        result: Err(ProviderFailure::unknown_commit_unsettled()),
                    },
                ),
            },
            CommitStageView::Validate { entered_native_commit, result } => {
                let post_validation = match event {
                    CommitEventView::Validated(post_validation) => post_validation,
                    _ => Err(event.failure()),
                };
                self.at(
                    CommitStageView::Finished {
                        result: if entered_native_commit {
                            fdb_provider::finished(result, post_validation)
                        } else {
                            match post_validation {
                                Err(failure) => Err(failure),
                                Ok(()) => result,
                            }
                        },
                    },
                )
            },
            CommitStageView::Finished { .. } => self,
        }
    }
}

/// An event that does not answer its action, as a failure.
fn event_failure(event: CommitEvent) -> (error: ProviderError)
    ensures
        error@ == event@.failure(),
{
    match event {
        CommitEvent::Failed(error) => error,
        _ => ProviderError::schema(),
    }
}

/// What came of one operation.
enum Guard {
    Unsatisfied,
    Satisfied,
    Failed(ProviderError),
}

/// A guard that holds or does not.
fn guard_of(holds: bool) -> (guard: Guard)
    ensures
        guard == (if holds {
            Guard::Satisfied
        } else {
            Guard::Unsatisfied
        }),
{
    if holds {
        Guard::Satisfied
    } else {
        Guard::Unsatisfied
    }
}

impl CommitRun {
    /// Starts the commit of a plan: an invalid plan ends at once.
    pub fn start(
        namespace: &[u8],
        budget: usize,
        token: ProviderInstanceToken,
        plan: AtomicPlan,
    ) -> (run: Self)
        ensures
            run@ == CommitRunView::started(namespace@, budget, token, plan@),
    {
        let stage = match preflight_plan(&plan, token) {
            Ok(()) => CommitStage::Guards { next: 0 },
            Err(error) => CommitStage::Validate {
                entered_native_commit: false,
                result: Err(error),
            },
        };
        let run = Self {
            namespace: vstd::slice::slice_to_vec(namespace),
            budget,
            operations: plan.operations,
            pending: Vec::new(),
            stage,
        };
        assert(run@.pending =~= Seq::empty());
        run
    }

    /// What the store is to do next.
    pub fn action(&self) -> (action: CommitAction)
        ensures
            action@ == self@.action(),
    {
        match &self.stage {
            CommitStage::Guards { next } => {
                if *next < self.operations.len() {
                    assert(self@.operations[*next as int] == self.operations@[*next as int]@);
                    self.guard_action(&self.operations[*next])
                } else {
                    CommitAction::Continue
                }
            },
            CommitStage::Writes { next } => {
                if *next < self.pending.len() {
                    let write = &self.pending[*next];
                    assert(self@.pending[*next as int] == write@);
                    match &write.value {
                        None => CommitAction::Continue,
                        Some(value) => CommitAction::WriteRecord {
                            key: fdb_keys::physical_key(
                                self.namespace.as_slice(),
                                write.space,
                                write.key.as_slice(),
                            ),
                            operand: fdb_keys::encode_versionstamped_value(value.as_slice()),
                        },
                    }
                } else {
                    CommitAction::Continue
                }
            },
            CommitStage::Limit => CommitAction::LimitSize { bytes: self.budget as i32 },
            CommitStage::Estimate => CommitAction::EstimateSize,
            CommitStage::Commit { .. } => CommitAction::Commit,
            CommitStage::Validate { .. } => CommitAction::ValidateRuntime,
            CommitStage::Finished { .. } => CommitAction::Finish,
        }
    }

    /// What deciding one guard asks the store.
    fn guard_action(&self, op: &AtomicOp) -> (action: CommitAction)
        ensures
            action@ == guard_action(self@.namespace, self@.pending, op@),
    {
        let physical = fdb_keys::physical_key(
            self.namespace.as_slice(),
            op.space(),
            op.key().as_slice(),
        );
        match op {
            AtomicOp::Put { .. } => CommitAction::Continue,
            AtomicOp::Delete { .. } => CommitAction::ClearRecord { key: physical },
            AtomicOp::AssertPrefixEmpty { space, prefix } => {
                if is_pending_under(&self.pending, *space, prefix.as_slice()) {
                    return CommitAction::Continue;
                }
                match fdb_keys::prefix_end(physical.as_slice()) {
                    None => CommitAction::Continue,
                    Some(end) => CommitAction::CheckRange { begin: physical, end },
                }
            },
            _ => {
                if find_pending(&self.pending, op.space(), op.key().as_slice()).is_some() {
                    CommitAction::Continue
                } else {
                    CommitAction::ReadRecord { key: physical }
                }
            },
        }
    }

    /// Whether the record of an operation is absent.
    fn absence(&self, op: &AtomicOp, event: CommitEvent) -> (result: Result<bool, ProviderError>)
        ensures
            provider::outcome(result) == absence(self@.pending, op@, event@),
    {
        match find_pending(&self.pending, op.space(), op.key().as_slice()) {
            Some(write) => Ok(write.value.is_none()),
            None => match event {
                CommitEvent::Record(actual) => Ok(actual.is_none()),
                event => Err(event_failure(event)),
            },
        }
    }

    /// Whether the record of an operation has this version.
    fn unchanged(&self, op: &AtomicOp, version: &[u8], event: CommitEvent) -> (result: Result<
        bool,
        ProviderError,
    >)
        ensures
            provider::outcome(result) == unchanged(self@.pending, op@, version@, event@),
    {
        match find_pending(&self.pending, op.space(), op.key().as_slice()) {
            Some(_) => Ok(false),
            None => match event {
                CommitEvent::Record(actual) => match actual {
                    Some(actual) => Ok(bytes::bytes_equal(actual.as_slice(), version)),
                    None => Ok(false),
                },
                event => Err(event_failure(event)),
            },
        }
    }

    /// Whether one operation holds, given what the store answered.
    fn decide(&self, op: &AtomicOp, event: CommitEvent) -> (guard: Guard)
        ensures
            match guard_result(self@.namespace, self@.pending, op@, event@) {
                GuardView::Unsatisfied => guard is Unsatisfied,
                GuardView::Satisfied { pending } => guard is Satisfied && pending == (match op@ {
                    AtomicOpView::Delete { space, key } => with_pending(
                        self@.pending,
                        PendingWriteView { space, key, value: None },
                    ),
                    op => match op.value() {
                        Some(value) => with_pending(
                            self@.pending,
                            PendingWriteView {
                                space: op.space(),
                                key: op.key(),
                                value: Some(value),
                            },
                        ),
                        None => self@.pending,
                    },
                }),
                GuardView::Failed { failure } => guard matches Guard::Failed(e) && e@ == failure,
            },
    {
        match op {
            AtomicOp::AssertUnchanged { witness, .. } => match self.unchanged(
                op,
                witness.version.as_slice(),
                event,
            ) {
                Ok(holds) => guard_of(holds),
                Err(error) => Guard::Failed(error),
            },
            AtomicOp::AssertAbsent { .. } => match self.absence(op, event) {
                Ok(holds) => guard_of(holds),
                Err(error) => Guard::Failed(error),
            },
            AtomicOp::AssertPrefixEmpty { space, prefix } => {
                if is_pending_under(&self.pending, *space, prefix.as_slice()) {
                    return Guard::Unsatisfied;
                }
                let physical = fdb_keys::physical_key(
                    self.namespace.as_slice(),
                    *space,
                    prefix.as_slice(),
                );
                if fdb_keys::prefix_end(physical.as_slice()).is_none() {
                    return Guard::Failed(ProviderError::invalid_plan());
                }
                match event {
                    CommitEvent::RangeEmpty(empty) => guard_of(empty),
                    event => Guard::Failed(event_failure(event)),
                }
            },
            AtomicOp::Put { .. } => Guard::Satisfied,
            AtomicOp::PutIfAbsent { .. } => match self.absence(op, event) {
                Ok(holds) => guard_of(holds),
                Err(error) => Guard::Failed(error),
            },
            AtomicOp::CompareAndPut { witness, .. } => match self.unchanged(
                op,
                witness.version.as_slice(),
                event,
            ) {
                Ok(holds) => guard_of(holds),
                Err(error) => Guard::Failed(error),
            },
            AtomicOp::Delete { .. } => match event {
                CommitEvent::Done => Guard::Satisfied,
                event => Guard::Failed(event_failure(event)),
            },
        }
    }

    /// Ends the commit with a result before the native commit.
    fn end(&mut self, result: Result<AtomicCommitOutcome, ProviderError>)
        ensures
            final(self)@ == old(self)@.ended(provider::outcome(result)),
    {
        self.stage = CommitStage::Validate { entered_native_commit: false, result };
    }

    /// Takes the answer to the operation at an index.
    fn resume_guard(&mut self, next: usize, event: CommitEvent)
        requires
            next < old(self).operations@.len(),
            old(self).stage@ == (CommitStageView::Guards { next }),
        ensures
            final(self)@ == old(self)@.after(event@),
    {
        let ghost before = self@;
        assert(before.operations[next as int] == self.operations@[next as int]@);
        let count: usize = self.operations.len();
        assert(next < count);
        let following: usize = next + 1;
        let guard = self.decide(&self.operations[next], event);
        match guard {
            Guard::Failed(error) => self.end(Err(error)),
            Guard::Unsatisfied => self.end(Ok(AtomicCommitOutcome::Conflict)),
            Guard::Satisfied => {
                let op = &self.operations[next];
                let deletes = matches!(op, AtomicOp::Delete { .. });
                let write = match op.value() {
                    Some(value) => Some(
                        PendingWrite {
                            space: op.space(),
                            key: vstd::slice::slice_to_vec(op.key().as_slice()),
                            value: Some(vstd::slice::slice_to_vec(value.as_slice())),
                        },
                    ),
                    None => if deletes {
                        Some(
                            PendingWrite {
                                space: op.space(),
                                key: vstd::slice::slice_to_vec(op.key().as_slice()),
                                value: None,
                            },
                        )
                    } else {
                        None
                    },
                };
                match write {
                    Some(write) => add_pending(&mut self.pending, write),
                    None => {},
                }
                self.stage = CommitStage::Guards { next: following };
            },
        }
    }

    /// Takes the estimated size.
    fn resume_estimate(&mut self, event: CommitEvent)
        requires
            old(self).stage@ is Estimate,
        ensures
            final(self)@ == old(self)@.after(event@),
    {
        match event {
            CommitEvent::Size(size) => {
                if size < 0 || size as u64 > usize::MAX as u64 {
                    self.end(
                        Err(
                            ProviderError::backend(
                                ProviderOperationV1::Commit,
                                "native approximate size was negative",
                            ),
                        ),
                    );
                } else if size as usize > self.budget {
                    self.end(
                        Err(ProviderError::transaction_too_large(size as usize, self.budget)),
                    );
                } else {
                    self.stage = CommitStage::Commit { approximate: size as usize };
                }
            },
            event => {
                let error = event_failure(event);
                self.end(Err(error));
            },
        }
    }

    /// Takes what came of the action.
    pub fn resume(&mut self, event: CommitEvent)
        ensures
            final(self)@ == old(self)@.after(event@),
    {
        let mut stage = CommitStage::Limit;
        std::mem::swap(&mut stage, &mut self.stage);
        match stage {
            CommitStage::Guards { next } => {
                if next < self.operations.len() {
                    self.stage = CommitStage::Guards { next };
                    self.resume_guard(next, event);
                } else {
                    self.stage = CommitStage::Writes { next: 0 };
                }
            },
            CommitStage::Writes { next } => {
                if next < self.pending.len() {
                    match event {
                        CommitEvent::Done => {
                            self.stage = CommitStage::Writes { next: next + 1 };
                        },
                        event => {
                            let error = event_failure(event);
                            self.end(Err(error));
                        },
                    }
                } else {
                    self.stage = CommitStage::Limit;
                }
            },
            CommitStage::Limit => match event {
                CommitEvent::Done => {
                    self.stage = CommitStage::Estimate;
                },
                event => {
                    let error = event_failure(event);
                    self.end(Err(error));
                },
            },
            CommitStage::Estimate => {
                self.stage = CommitStage::Estimate;
                self.resume_estimate(event);
            },
            CommitStage::Commit { approximate } => {
                let result = match event {
                    CommitEvent::Settled(code) => fdb_provider::settle_native_commit(
                        code,
                        approximate,
                        self.budget,
                    ),
                    _ => Err(ProviderError::unknown_commit_unsettled()),
                };
                self.stage = CommitStage::Validate { entered_native_commit: true, result };
            },
            CommitStage::Validate { entered_native_commit, result } => {
                let post_validation = match event {
                    CommitEvent::Validated(post_validation) => post_validation,
                    event => Err(event_failure(event)),
                };
                let result = if entered_native_commit {
                    fdb_provider::finish_commit_with_runtime_validation(result, post_validation)
                } else {
                    fdb_provider::settle_validated(result, post_validation)
                };
                self.stage = CommitStage::Finished { result };
            },
            CommitStage::Finished { result } => {
                self.stage = CommitStage::Finished { result };
            },
        }
    }

    /// The outcome, once it is known.
    pub fn into_result(self) -> (result: Option<Result<AtomicCommitOutcome, ProviderError>>)
        ensures
            match self@.stage {
                CommitStageView::Finished { result: r } => result matches Some(out)
                    && provider::outcome(out) == r,
                _ => result is None,
            },
    {
        match self.stage {
            CommitStage::Finished { result } => Some(result),
            _ => None,
        }
    }
}

} // verus!
