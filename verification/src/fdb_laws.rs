//! What the FoundationDB provider takes, how it reports a commit, and which
//! scans succeed.

use vstd::prelude::*;

use crate::bytes;
use crate::fdb_commit;
use crate::fdb_commit::{CommitEventView, CommitRunView, CommitStageView};
use crate::fdb_commit_laws;
use crate::fdb_keys;
use crate::fdb_provider;
use crate::fdb_provider::{FoundationDbProviderConfig, FoundationDbProviderConfigError};
use crate::fdb_scan;
use crate::fdb_scan::{NativeRowView, ScanAdvanceView, ScanRunView};
use crate::fdb_scan_laws;
use crate::holt_laws;
use crate::provider::{
    AtomicCommitOutcome, AtomicOpView, ProviderErrorKind, ProviderFailure, ProviderInstanceToken,
    ProviderOperationV1, ProviderScanView, ProviderTransactionModel, ProviderVersionModel,
    ReadScopeView, ReadWitnessView,
};
use crate::provider_catalog;

verus! {

/// A policy is valid exactly when its budget lies between 32 and 10000000
/// bytes and its timeout is positive and fits a signed number of 32 bits; a
/// wrong budget is told first.
pub proof fn policies_are_within_native_limits(config: FoundationDbProviderConfig)
    ensures
        config.check() is Ok <==> 32 <= config.transaction_budget_bytes <= 10000000 && 0
            < config.transaction_timeout_ms <= 2147483647,
        config.check() == Err::<(), FoundationDbProviderConfigError>(
            FoundationDbProviderConfigError::TransactionBudgetOutOfRange,
        ) <==> !(32 <= config.transaction_budget_bytes <= 10000000),
{
}

/// A provider takes atomic batches over all spaces, with keys of at most 9920
/// bytes, values of at most 99989 bytes, 1024 operations and its budget; half
/// of the budget is left for the plan. Its views live five seconds, and not
/// every commit whose outcome is not known is settled when it returns.
pub proof fn capabilities_follow_the_policy(config: FoundationDbProviderConfig)
    ensures
        ({
            let offer = fdb_provider::capabilities_of(config);
            &&& offer.transaction_model == ProviderTransactionModel::CrossSpaceAtomicBatch
            &&& offer.version_model == ProviderVersionModel::OpaqueRecordWitness
            &&& offer.consistent_cross_space_reads
            &&& !offer.all_ambiguous_commit_outcomes_settled_before_return
            &&& offer.commit_resolution_reads_causally_current
            &&& offer.exclusive_scan_start_after
            &&& offer.consistent_snapshot_scans
            &&& offer.max_key_bytes == 9920
            &&& offer.max_value_bytes == 99989
            &&& offer.max_transaction_bytes == config.transaction_budget_bytes
            &&& offer.max_atomic_operations == 1024
            &&& 2 * offer.max_logical_plan_bytes <= config.transaction_budget_bytes
            &&& config.transaction_budget_bytes < 2 * offer.max_logical_plan_bytes + 2
            &&& offer.max_read_view_duration_ms == Some(5000u64)
            &&& offer.max_scan_items is None
        }),
{
}

/// A stored value is the format, ten bytes of a version and the logical value;
/// nothing else is one.
pub proof fn stored_values_have_a_version(value: Seq<u8>)
    ensures
        fdb_keys::logical_value(value) matches Ok(logical) ==> value.len() == 11 + logical.len()
            && value[0] == 1 && logical == value.subrange(11, value.len() as int),
        fdb_keys::logical_value(value) is Ok <==> value.len() >= 11 && value[0] == 1,
{
    if value.len() >= 11 {
        assert(value.skip(11) =~= value.subrange(11, value.len() as int));
    }
}

/// A witness may be compared with: this provider issued it, over a stored
/// value.
pub open spec fn is_own_witness(token: ProviderInstanceToken, witness: ReadWitnessView) -> bool {
    witness.issuer == token && witness.version.len() >= 11 && witness.version[0] == 1
}

/// A plan may hold an operation: its space is known, its key has at most 9920
/// bytes and its value at most 99989, and its witness is one of this provider.
pub open spec fn is_admissible(op: AtomicOpView, token: ProviderInstanceToken) -> bool {
    match op {
        AtomicOpView::AssertUnchanged { space, key, witness } => provider_catalog::is_space(space)
            && key.len() <= 9920 && is_own_witness(token, witness),
        AtomicOpView::AssertAbsent { space, key } => provider_catalog::is_space(space)
            && key.len() <= 9920,
        AtomicOpView::AssertPrefixEmpty { space, prefix } => provider_catalog::is_space(space)
            && prefix.len() <= 9920,
        AtomicOpView::Put { space, key, value } => provider_catalog::is_space(space) && key.len()
            <= 9920 && value.len() <= 99989,
        AtomicOpView::PutIfAbsent { space, key, value } => provider_catalog::is_space(space)
            && key.len() <= 9920 && value.len() <= 99989,
        AtomicOpView::CompareAndPut { space, key, witness, value } => provider_catalog::is_space(
            space,
        ) && key.len() <= 9920 && value.len() <= 99989 && is_own_witness(token, witness),
        AtomicOpView::Delete { space, key } => provider_catalog::is_space(space) && key.len()
            <= 9920,
    }
}

proof fn operations_from(operations: Seq<AtomicOpView>, token: ProviderInstanceToken, i: int)
    requires
        0 <= i <= operations.len(),
    ensures
        fdb_commit::plan_check(operations, token, i) is Ok <==> (forall|k: int|
            i <= k < operations.len() ==> is_admissible(#[trigger] operations[k], token)),
    decreases operations.len() - i,
{
    if i < operations.len() {
        operations_from(operations, token, i + 1);
    }
}

/// A commit goes to work exactly when each operation of its plan may stand in
/// one; otherwise it ends in a failure without a native commit.
pub proof fn commits_start_on_admissible_plans(
    namespace: Seq<u8>,
    budget: usize,
    token: ProviderInstanceToken,
    operations: Seq<AtomicOpView>,
)
    ensures
        ({
            let run = CommitRunView::started(namespace, budget, token, operations);
            &&& run.stage == (CommitStageView::Guards { next: 0 }) <==> (forall|k: int|
                0 <= k < operations.len() ==> is_admissible(#[trigger] operations[k], token))
            &&& run.stage != (CommitStageView::Guards { next: 0 }) ==> (
            run.stage matches CommitStageView::Validate { entered_native_commit, result }
                && !entered_native_commit && result is Err)
            &&& run.namespace == namespace && run.budget == budget && run.operations == operations
                && run.pending.len() == 0
        }),
{
    operations_from(operations, token, 0);
}

/// A native commit is tried exactly when the size that was estimated is within
/// the budget; a larger one is refused with both sizes.
pub proof fn commits_keep_to_their_budget(run: CommitRunView, size: i64)
    requires
        run.stage == CommitStageView::Estimate,
        usize::BITS == 64,
    ensures
        run.after(CommitEventView::Size(size)).action() is Commit <==> 0 <= size <= run.budget,
        run.after(CommitEventView::Size(size)).pending == run.pending,
        run.budget < size ==> (run.after(
            CommitEventView::Size(size),
        ).stage matches CommitStageView::Validate { entered_native_commit, result } && {
            &&& !entered_native_commit
            &&& result matches Err(failure) && failure.kind
                == ProviderErrorKind::TransactionTooLarge && failure.limit is Some
                && failure.limit->0.affected_bytes == size && failure.limit->0.max_bytes
                == run.budget
        }),
{
}

/// A native commit means what its code says: none that it committed, 1020 that
/// it conflicted, 2101 that it was too large, 1021 that it is not known and no
/// longer in flight, and every other one that it may still happen.
pub proof fn commit_codes_mean_their_outcome(code: Option<i32>, approximate: usize, budget: usize)
    ensures
        ({
            let settled = fdb_provider::settled(code, approximate, budget);
            &&& settled == Ok::<AtomicCommitOutcome, ProviderFailure>(
                AtomicCommitOutcome::Committed,
            ) <==> code is None
            &&& settled == Ok::<AtomicCommitOutcome, ProviderFailure>(
                AtomicCommitOutcome::Conflict,
            ) <==> code == Some(1020i32)
            &&& settled matches Err(failure) ==> (match failure.kind {
                ProviderErrorKind::TransactionTooLarge => code == Some(2101i32)
                    && failure.limit is Some && failure.limit->0.affected_bytes == approximate
                    && failure.limit->0.max_bytes == budget,
                ProviderErrorKind::UnknownCommitSettled => code == Some(1021i32),
                ProviderErrorKind::UnknownCommitUnsettled => code is Some && code->0 != 1020
                    && code->0 != 1021 && code->0 != 2101,
                _ => false,
            })
        }),
{
}

/// Behind a runtime that is not valid, what a native commit came to is not
/// reported: a commit as not known, a conflict or a failure as the failure of
/// the runtime, unless it was not known already. A valid runtime changes
/// nothing.
pub proof fn invalid_runtimes_report_nothing(
    result: Result<AtomicCommitOutcome, ProviderFailure>,
    failure: ProviderFailure,
)
    ensures
        fdb_provider::finished(result, Ok(())) == result,
        fdb_provider::finished(result, Err(failure)) is Err,
        match result {
            Ok(AtomicCommitOutcome::Committed) => fdb_provider::finished(
                result,
                Err(failure),
            )->Err_0.kind == ProviderErrorKind::UnknownCommitSettled,
            Ok(AtomicCommitOutcome::Conflict) => fdb_provider::finished(result, Err(failure))
                == Err::<AtomicCommitOutcome, ProviderFailure>(failure),
            Err(earlier) => fdb_provider::finished(result, Err(failure)) == Err::<
                AtomicCommitOutcome,
                ProviderFailure,
            >(
                if earlier.kind == ProviderErrorKind::UnknownCommitSettled || earlier.kind
                    == ProviderErrorKind::UnknownCommitUnsettled {
                    earlier
                } else {
                    failure
                },
            ),
        },
{
}

/// A key is rolled up to the shortest part of it that is longer than the
/// requested prefix and ends in the delimiter; without a delimiter, or where
/// the key has none behind the prefix, it is not rolled up.
pub proof fn keys_are_rolled_up_to_their_first_delimiter(request: ProviderScanView, key: Seq<u8>)
    ensures
        request.delimiter is None ==> fdb_scan::rollup(request, key) is None,
        fdb_scan::rollup(request, key) matches Some(common) ==> {
            &&& bytes::has_prefix(key, request.prefix)
            &&& request.prefix.len() < common.len() <= key.len()
            &&& common == key.take(common.len() as int)
            &&& request.delimiter == Some(common.last())
            &&& forall|j: int|
                request.prefix.len() <= j < common.len() - 1 ==> #[trigger] key[j] != common.last()
        },
        fdb_scan::rollup(request, key) is None && bytes::has_prefix(key, request.prefix)
            && request.delimiter is Some ==> forall|j: int|
            request.prefix.len() <= j < key.len() ==> #[trigger] key[j] != request.delimiter->0,
{
    if request.delimiter is Some && bytes::has_prefix(key, request.prefix) {
        fdb_scan_laws::first_index_is_first(
            key,
            request.delimiter->0,
            request.prefix.len() as int,
        );
    }
}

/// A native row is sound for a scan: its key lies below the requested prefix of
/// the scanned space, and its value is a stored one.
pub open spec fn is_sound(run: ScanRunView, row: NativeRowView) -> bool {
    &&& bytes::has_prefix(row.key, run.namespace + bytes::be16(run.request.space)
        + run.request.prefix)
    &&& row.value.len() >= 11
    &&& row.value[0] == 1
}

proof fn sound_row_is_absorbed(run: ScanRunView, row: NativeRowView)
    requires
        is_sound(run, row),
    ensures
        run.absorbed_row(row) matches Ok((next, advance)) && next.namespace == run.namespace
            && next.request == run.request && next.visited == run.visited,
{
    let front = run.front();
    let prefix = run.request.prefix;
    assert(row.key.take((front + prefix).len() as int) == front + prefix);
    assert(row.key.take(front.len() as int) =~= (front + prefix).take(front.len() as int));
    assert((front + prefix).take(front.len() as int) =~= front);
    let logical = row.key.skip(front.len() as int);
    assert(logical.take(prefix.len() as int) =~= (front + prefix).skip(front.len() as int));
    assert((front + prefix).skip(front.len() as int) =~= prefix);
}

proof fn sound_rows_are_absorbed(
    run: ScanRunView,
    rows: Seq<NativeRowView>,
    i: int,
    advance: Option<ScanAdvanceView>,
)
    requires
        0 <= i <= rows.len(),
        forall|j: int| 0 <= j < rows.len() ==> is_sound(run, #[trigger] rows[j]),
    ensures
        run.absorbed(rows, i, advance) matches Ok((next, last)) && next.namespace == run.namespace
            && next.request == run.request && ((i < rows.len() && !run.full()) || advance is Some
            ==> last is Some),
    decreases rows.len() - i,
{
    if i < rows.len() && !run.full() {
        sound_row_is_absorbed(run, rows[i]);
        let (next, behind) = run.absorbed_row(rows[i])->Ok_0;
        assert forall|j: int| 0 <= j < rows.len() implies is_sound(next, #[trigger] rows[j]) by {
            assert(is_sound(run, rows[j]));
        }
        sound_rows_are_absorbed(next, rows, i + 1, Some(behind));
    }
}

proof fn advances_have_a_start(namespace: Seq<u8>, request: ProviderScanView, to: ScanAdvanceView)
    requires
        namespace.len() > 0,
        namespace[0] != 0xff,
    ensures
        fdb_scan::begin_after(namespace, request.space, to) is Ok,
        fdb_keys::successor(fdb_keys::physical(namespace, request.space, request.prefix)) is Some,
{
    fdb_commit_laws::growing_prefix_has_successor(
        fdb_keys::physical(namespace, request.space, request.prefix),
        0,
    );
    if to is AfterCommonPrefix {
        fdb_commit_laws::growing_prefix_has_successor(
            fdb_keys::physical(namespace, request.space, to->AfterCommonPrefix_0),
            0,
        );
    }
}

/// A scan that is not done goes on whatever sound rows it is given, and is
/// finished exactly when there were none, its page is full, or the store has
/// no more.
pub proof fn scans_of_sound_rows_succeed(run: ScanRunView, rows: Seq<NativeRowView>, more: bool)
    requires
        run.namespace.len() > 0,
        run.namespace[0] != 0xff,
        run.next_limit() is Some,
        forall|j: int| 0 <= j < rows.len() ==> is_sound(run, #[trigger] rows[j]),
    ensures
        run.accepted(rows, more) matches Ok(next) && (next.finished <==> rows.len() == 0 || !more
            || (0 < run.request.limit <= next.items.len())),
        run.accepted(rows, more)->Ok_0.request == run.request,
{
    if rows.len() > 0 {
        let counted = ScanRunView {
            native_requests: crate::read_stats::counted(run.native_requests as int, 1),
            visited: crate::read_stats::counted(run.visited as int, rows.len() as int),
            ..run
        };
        assert forall|j: int| 0 <= j < rows.len() implies is_sound(counted, #[trigger] rows[j]) by {
            assert(is_sound(run, rows[j]));
        }
        sound_rows_are_absorbed(counted, rows, 0, None);
        let (next, last) = counted.absorbed(rows, 0, None)->Ok_0;
        absorbing_finishes_nothing(counted, rows, 0, None);
        advances_have_a_start(run.namespace, run.request, last->0);
    }
}

proof fn absorbing_finishes_nothing(
    run: ScanRunView,
    rows: Seq<NativeRowView>,
    i: int,
    advance: Option<ScanAdvanceView>,
)
    requires
        0 <= i <= rows.len(),
    ensures
        run.absorbed(rows, i, advance) matches Ok((next, _)) ==> next.finished == run.finished,
    decreases rows.len() - i,
{
    if i < rows.len() && !run.full() && run.absorbed_row(rows[i]) is Ok {
        let (next, behind) = run.absorbed_row(rows[i])->Ok_0;
        absorbing_finishes_nothing(next, rows, i + 1, Some(behind));
    }
}

/// A scan starts exactly when its space is known and its prefix and cursor are
/// not too long, and it has nothing to read exactly when its cursor lies
/// behind everything with its prefix.
pub proof fn scans_start_on_admitted_requests(
    namespace: Seq<u8>,
    request: ProviderScanView,
    max_key_bytes: usize,
)
    requires
        namespace.len() > 0,
        namespace[0] != 0xff,
    ensures
        ({
            let started = ScanRunView::started(namespace, request, max_key_bytes);
            &&& started is Ok <==> {
                &&& provider_catalog::is_space(request.space)
                &&& request.prefix.len() <= max_key_bytes
                &&& request.start_after matches Some(cursor) ==> cursor.len() <= max_key_bytes
            }
            &&& started matches Ok(run) ==> (run is None <==> (
            request.start_after matches Some(cursor) && !bytes::has_prefix(cursor, request.prefix)
                && bytes::lex_less(request.prefix, cursor)))
            &&& started matches Ok(Some(run)) ==> run.request == request && run.namespace
                == namespace && run.items.len() == 0
        }),
{
    if request.start_after is Some {
        let cursor = request.start_after->0;
        advances_have_a_start(namespace, request, ScanAdvanceView::AfterKey(cursor));
        match fdb_scan::rollup(request, cursor) {
            Some(common) => advances_have_a_start(
                namespace,
                request,
                ScanAdvanceView::AfterCommonPrefix(common),
            ),
            None => {},
        }
        bytes::lex_less_total(cursor, request.prefix);
        bytes::lex_less_irreflexive(cursor);
        if bytes::lex_less(request.prefix, cursor) && bytes::lex_less(cursor, request.prefix) {
            bytes::lex_less_transitive(cursor, request.prefix, cursor);
        }
        if cursor == request.prefix {
            assert(cursor.take(cursor.len() as int) =~= cursor);
        }
    } else {
        advances_have_a_start(namespace, request, ScanAdvanceView::AfterKey(Seq::empty()));
    }
}

proof fn scopes_from(scopes: Seq<ReadScopeView>, i: int)
    requires
        0 <= i <= scopes.len(),
    ensures
        fdb_provider::scopes_check(scopes, i) is Ok <==> (forall|k: int|
            i <= k < scopes.len() ==> provider_catalog::is_space((#[trigger] scopes[k]).space)
                && scopes[k].prefix.len() <= 9920),
    decreases scopes.len() - i,
{
    if i < scopes.len() {
        scopes_from(scopes, i + 1);
    }
}

/// A view is captured exactly when the spaces of its ranges are known and
/// their prefixes have at most 9920 bytes.
pub proof fn views_are_captured_within_their_limits(scopes: Seq<ReadScopeView>)
    ensures
        fdb_provider::scopes_check(scopes, 0) is Ok <==> (forall|k: int|
            0 <= k < scopes.len() ==> provider_catalog::is_space((#[trigger] scopes[k]).space)
                && scopes[k].prefix.len() <= 9920),
{
    scopes_from(scopes, 0);
}

/// An operation is told by the first of these that its description mentions: a
/// commit or transaction, a scan, a view, a read or prefix; otherwise it is one
/// of the plan.
pub proof fn operations_are_told_by_their_description(description: Seq<u8>)
    ensures
        ({
            let told = fdb_provider::operation_of(description);
            let commits = holt_laws::mentions(description, "commit"@) || holt_laws::mentions(
                description,
                "transaction"@,
            );
            let scans = holt_laws::mentions(description, "scan"@);
            let views = holt_laws::mentions(description, "read view"@);
            let reads = holt_laws::mentions(description, "read"@) || holt_laws::mentions(
                description,
                "prefix"@,
            );
            &&& commits <==> told == ProviderOperationV1::Commit
            &&& !commits && scans <==> told == ProviderOperationV1::Scan
            &&& !commits && !scans && views <==> told == ProviderOperationV1::BeginRead
            &&& !commits && !scans && !views && reads <==> told == ProviderOperationV1::ReadRecord
            &&& !commits && !scans && !views && !reads <==> told
                == ProviderOperationV1::ValidatePlan
        }),
{
}

} // verus!
