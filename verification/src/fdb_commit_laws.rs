//! What holds of every commit over a store that answers truly: it does what
//! the operations of its plan do one after the other, it commits at most once,
//! and it ends.

use vstd::prelude::*;

use crate::bytes;
use crate::fdb_commit;
use crate::fdb_commit::{
    CommitActionView, CommitEventView, CommitRunView, CommitStageView, GuardView, PendingWriteView,
};
use crate::fdb_keys;
use crate::plan_semantics;
use crate::plan_semantics::{Cell, Record};
use crate::provider::{
    AtomicCommitOutcome, AtomicOpView, ProviderFailure, ProviderInstanceToken,
};
use crate::provider_catalog::OrderedSpaceId;

verus! {

/// Records as the guards of a plan see them: what the transaction reads, with
/// the pending writes over it.
pub open spec fn overlay(
    native: Map<Record, Seq<u8>>,
    pending: Seq<PendingWriteView>,
) -> Map<Record, Cell> {
    Map::new(
        |r: Record|
            match fdb_commit::pending_at(pending, r.0, r.1) {
                Some(write) => write.value is Some,
                None => native.dom().contains(r),
            },
        |r: Record|
            match fdb_commit::pending_at(pending, r.0, r.1) {
                Some(write) => Cell::Written(write.value->Some_0),
                None => Cell::Stored(native[r]),
            },
    )
}

/// Pending writes stand in the order of records, so no record has two.
pub open spec fn ordered(pending: Seq<PendingWriteView>) -> bool {
    forall|i: int, j: int|
        0 <= i < j < pending.len() ==> fdb_commit::record_less(
            (#[trigger] pending[i]).space,
            pending[i].key,
            (#[trigger] pending[j]).space,
            pending[j].key,
        )
}

/// What the plan deleted the transaction no longer reads.
pub open spec fn deletions_are_seen(
    native: Map<Record, Seq<u8>>,
    pending: Seq<PendingWriteView>,
) -> bool {
    forall|r: Record| #[trigger]
        native.dom().contains(r) ==> !(fdb_commit::pending_at(pending, r.0, r.1) matches Some(w)
            && w.value is None)
}

/// Of two records, one comes first, unless they are the same.
proof fn record_less_total(s: OrderedSpaceId, k: Seq<u8>, t: OrderedSpaceId, l: Seq<u8>)
    ensures
        (s == t && k == l) || fdb_commit::record_less(s, k, t, l) || fdb_commit::record_less(
            t,
            l,
            s,
            k,
        ),
        !fdb_commit::record_less(s, k, s, k),
{
    bytes::lex_less_total(k, l);
    bytes::lex_less_irreflexive(k);
}

/// The order of records is transitive.
proof fn record_less_transitive(
    s: OrderedSpaceId,
    k: Seq<u8>,
    t: OrderedSpaceId,
    l: Seq<u8>,
    u: OrderedSpaceId,
    m: Seq<u8>,
)
    requires
        fdb_commit::record_less(s, k, t, l),
        fdb_commit::record_less(t, l, u, m),
    ensures
        fdb_commit::record_less(s, k, u, m),
{
    if s == t && t == u {
        bytes::lex_less_transitive(k, l, m);
    }
}

/// One more write is found under its record, and changes nothing else.
proof fn added_write_is_found(
    pending: Seq<PendingWriteView>,
    write: PendingWriteView,
    space: OrderedSpaceId,
    key: Seq<u8>,
)
    ensures
        fdb_commit::pending_at(fdb_commit::with_pending(pending, write), space, key) == (if space
            == write.space && key == write.key {
            Some(write)
        } else {
            fdb_commit::pending_at(pending, space, key)
        }),
    decreases pending.len(),
{
    reveal_with_fuel(fdb_commit::pending_at, 2);
    let after = fdb_commit::with_pending(pending, write);
    if pending.len() == 0 {
        assert(after.drop_first() =~= Seq::empty());
    } else if pending[0].space == write.space && pending[0].key == write.key {
        assert(after.drop_first() =~= pending.drop_first());
    } else if fdb_commit::record_less(write.space, write.key, pending[0].space, pending[0].key) {
        assert(after.drop_first() =~= pending);
    } else {
        added_write_is_found(pending.drop_first(), write, space, key);
        assert(after.drop_first() =~= fdb_commit::with_pending(pending.drop_first(), write));
    }
}

/// A write is found under its record.
proof fn write_is_found(pending: Seq<PendingWriteView>, i: int)
    requires
        ordered(pending),
        0 <= i < pending.len(),
    ensures
        fdb_commit::pending_at(pending, pending[i].space, pending[i].key) == Some(pending[i]),
    decreases pending.len(),
{
    if i > 0 {
        let rest = pending.drop_first();
        record_less_total(pending[i].space, pending[i].key, pending[0].space, pending[0].key);
        assert(fdb_commit::record_less(
            pending[0].space,
            pending[0].key,
            pending[i].space,
            pending[i].key,
        ));
        assert forall|a: int, b: int| 0 <= a < b < rest.len() implies fdb_commit::record_less(
            (#[trigger] rest[a]).space,
            rest[a].key,
            (#[trigger] rest[b]).space,
            rest[b].key,
        ) by {
            assert(rest[a] == pending[a + 1]);
            assert(rest[b] == pending[b + 1]);
        }
        write_is_found(rest, i - 1);
        assert(rest[i - 1] == pending[i]);
        if pending[0].space == pending[i].space && pending[0].key == pending[i].key {
            record_less_total(pending[i].space, pending[i].key, pending[i].space, pending[i].key);
        }
    }
}

/// What is found is a write of the record.
proof fn found_write_is_pending(
    pending: Seq<PendingWriteView>,
    space: OrderedSpaceId,
    key: Seq<u8>,
)
    ensures
        fdb_commit::pending_at(pending, space, key) matches Some(w) ==> w.space == space && w.key
            == key && exists|i: int| 0 <= i < pending.len() && #[trigger] pending[i] == w,
    decreases pending.len(),
{
    if pending.len() > 0 {
        let rest = pending.drop_first();
        if pending[0].space == space && pending[0].key == key {
            assert(pending[0] == pending[0]);
        } else {
            found_write_is_pending(rest, space, key);
            if let Some(w) = fdb_commit::pending_at(rest, space, key) {
                let i = choose|i: int| 0 <= i < rest.len() && #[trigger] rest[i] == w;
                assert(pending[i + 1] == w);
            }
        }
    }
}

/// One more write leaves the writes in order, and adds nothing but itself.
proof fn added_write_keeps_order(pending: Seq<PendingWriteView>, write: PendingWriteView)
    requires
        ordered(pending),
    ensures
        ordered(fdb_commit::with_pending(pending, write)),
        fdb_commit::with_pending(pending, write).len() <= pending.len() + 1,
        forall|i: int|
            0 <= i < fdb_commit::with_pending(pending, write).len() ==> {
                let w = #[trigger] fdb_commit::with_pending(pending, write)[i];
                w == write || exists|j: int| 0 <= j < pending.len() && #[trigger] pending[j] == w
            },
    decreases pending.len(),
{
    let after = fdb_commit::with_pending(pending, write);
    if pending.len() > 0 {
        let first = pending[0];
        let rest = pending.drop_first();
        assert forall|a: int, b: int| 0 <= a < b < rest.len() implies fdb_commit::record_less(
            (#[trigger] rest[a]).space,
            rest[a].key,
            (#[trigger] rest[b]).space,
            rest[b].key,
        ) by {
            assert(rest[a] == pending[a + 1]);
            assert(rest[b] == pending[b + 1]);
        }
        if first.space == write.space && first.key == write.key {
            assert forall|a: int, b: int|
                0 <= a < b < after.len() implies fdb_commit::record_less(
                (#[trigger] after[a]).space,
                after[a].key,
                (#[trigger] after[b]).space,
                after[b].key,
            ) by {
                assert(after[b] == pending[b]);
                if a > 0 {
                    assert(after[a] == pending[a]);
                } else {
                    assert(fdb_commit::record_less(
                        pending[0].space,
                        pending[0].key,
                        pending[b].space,
                        pending[b].key,
                    ));
                }
            }
            assert forall|i: int| 0 <= i < after.len() implies ({
                let w = #[trigger] after[i];
                w == write || exists|j: int| 0 <= j < pending.len() && #[trigger] pending[j] == w
            }) by {
                if i > 0 {
                    assert(pending[i] == after[i]);
                }
            }
        } else if fdb_commit::record_less(write.space, write.key, first.space, first.key) {
            assert forall|a: int, b: int|
                0 <= a < b < after.len() implies fdb_commit::record_less(
                (#[trigger] after[a]).space,
                after[a].key,
                (#[trigger] after[b]).space,
                after[b].key,
            ) by {
                assert(after[b] == pending[b - 1]);
                if a > 0 {
                    assert(after[a] == pending[a - 1]);
                } else if b > 1 {
                    assert(fdb_commit::record_less(
                        pending[0].space,
                        pending[0].key,
                        pending[b - 1].space,
                        pending[b - 1].key,
                    ));
                    record_less_transitive(
                        write.space,
                        write.key,
                        first.space,
                        first.key,
                        after[b].space,
                        after[b].key,
                    );
                }
            }
            assert forall|i: int| 0 <= i < after.len() implies ({
                let w = #[trigger] after[i];
                w == write || exists|j: int| 0 <= j < pending.len() && #[trigger] pending[j] == w
            }) by {
                if i > 0 {
                    assert(pending[i - 1] == after[i]);
                }
            }
        } else {
            added_write_keeps_order(rest, write);
            let tail = fdb_commit::with_pending(rest, write);
            record_less_total(write.space, write.key, first.space, first.key);
            assert forall|a: int, b: int|
                0 <= a < b < after.len() implies fdb_commit::record_less(
                (#[trigger] after[a]).space,
                after[a].key,
                (#[trigger] after[b]).space,
                after[b].key,
            ) by {
                assert(after[b] == tail[b - 1]);
                if a > 0 {
                    assert(after[a] == tail[a - 1]);
                } else {
                    let w = tail[b - 1];
                    if w != write {
                        let j = choose|j: int| 0 <= j < rest.len() && #[trigger] rest[j] == w;
                        assert(pending[j + 1] == w);
                        assert(fdb_commit::record_less(
                            pending[0].space,
                            pending[0].key,
                            pending[j + 1].space,
                            pending[j + 1].key,
                        ));
                    }
                }
            }
            assert forall|i: int| 0 <= i < after.len() implies ({
                let w = #[trigger] after[i];
                w == write || exists|j: int| 0 <= j < pending.len() && #[trigger] pending[j] == w
            }) by {
                if i == 0 {
                    assert(pending[0] == after[i]);
                } else {
                    let w = tail[i - 1];
                    assert(after[i] == w);
                    if w != write {
                        let j = choose|j: int| 0 <= j < rest.len() && #[trigger] rest[j] == w;
                        assert(pending[j + 1] == w);
                    }
                }
            }
        }
    }
}

/// A byte string with a byte that can grow has a successor.
pub proof fn growing_prefix_has_successor(p: Seq<u8>, i: int)
    requires
        0 <= i < p.len(),
        p[i] != 0xff,
    ensures
        fdb_keys::successor(p) is Some,
    decreases p.len(),
{
    if p.last() == 0xff {
        growing_prefix_has_successor(p.drop_last(), i);
    }
}

/// The store answers the guard of an operation truly.
pub open spec fn answers_truly(
    namespace: Seq<u8>,
    native: Map<Record, Seq<u8>>,
    pending: Seq<PendingWriteView>,
    op: AtomicOpView,
    event: CommitEventView,
) -> bool {
    match fdb_commit::guard_action(namespace, pending, op) {
        CommitActionView::ReadRecord { .. } => event == CommitEventView::Record(
            if native.dom().contains((op.space(), op.key())) {
                Some(native[(op.space(), op.key())])
            } else {
                None
            },
        ),
        CommitActionView::CheckRange { .. } => event == CommitEventView::RangeEmpty(
            plan_semantics::empty_under(native, op.space(), op.key()),
        ),
        CommitActionView::ClearRecord { .. } => event is Done,
        _ => true,
    }
}

/// What the transaction reads after an operation was carried out: a deletion
/// is seen at once.
pub open spec fn native_after(native: Map<Record, Seq<u8>>, op: AtomicOpView) -> Map<
    Record,
    Seq<u8>,
> {
    match op {
        AtomicOpView::Delete { space, key } => native.remove((space, key)),
        _ => native,
    }
}

/// With one more write, the guards see what the operation wrote.
proof fn overlay_with_write(
    native: Map<Record, Seq<u8>>,
    pending: Seq<PendingWriteView>,
    write: PendingWriteView,
)
    ensures
        write.value matches Some(value) ==> overlay(
            native,
            fdb_commit::with_pending(pending, write),
        ) == overlay(native, pending).insert((write.space, write.key), Cell::Written(value)),
        write.value is None ==> overlay(
            native.remove((write.space, write.key)),
            fdb_commit::with_pending(pending, write),
        ) == overlay(native, pending).remove((write.space, write.key)),
{
    let after = fdb_commit::with_pending(pending, write);
    assert forall|r: Record| fdb_commit::pending_at(after, r.0, r.1) == (if r == (
        write.space,
        write.key,
    ) {
        Some(write)
    } else {
        #[trigger] fdb_commit::pending_at(pending, r.0, r.1)
    }) by {
        added_write_is_found(pending, write, r.0, r.1);
    }
    if let Some(value) = write.value {
        assert(overlay(native, after) =~= overlay(native, pending).insert(
            (write.space, write.key),
            Cell::Written(value),
        ));
    } else {
        assert(overlay(native.remove((write.space, write.key)), after) =~= overlay(
            native,
            pending,
        ).remove((write.space, write.key)));
    }
}

/// Nothing lies under a prefix exactly when nothing pending and nothing native
/// does.
proof fn empty_overlay(
    native: Map<Record, Seq<u8>>,
    pending: Seq<PendingWriteView>,
    space: OrderedSpaceId,
    prefix: Seq<u8>,
)
    requires
        ordered(pending),
        deletions_are_seen(native, pending),
    ensures
        plan_semantics::empty_under(overlay(native, pending), space, prefix) <==> !fdb_commit::pending_under(
            pending,
            space,
            prefix,
        ) && plan_semantics::empty_under(native, space, prefix),
{
    let state = overlay(native, pending);
    if plan_semantics::empty_under(state, space, prefix) {
        if fdb_commit::pending_under(pending, space, prefix) {
            let i = choose|i: int|
                0 <= i < pending.len() && (#[trigger] pending[i]).space == space
                    && bytes::has_prefix(pending[i].key, prefix) && pending[i].value is Some;
            write_is_found(pending, i);
            assert(state.dom().contains((space, pending[i].key)));
        }
        assert forall|key: Seq<u8>| #[trigger]
            native.dom().contains((space, key)) implies !bytes::has_prefix(key, prefix) by {
            assert(state.dom().contains((space, key)));
        }
    } else {
        let key = choose|key: Seq<u8>| #[trigger]
            state.dom().contains((space, key)) && bytes::has_prefix(key, prefix);
        found_write_is_pending(pending, space, key);
        match fdb_commit::pending_at(pending, space, key) {
            Some(w) => {
                let i = choose|i: int| 0 <= i < pending.len() && #[trigger] pending[i] == w;
                assert(pending[i].space == space);
            },
            None => {
                assert(native.dom().contains((space, key)));
            },
        }
    }
}

/// Deciding one operation against native reads and pending writes does what
/// the operation does to the records: it holds exactly when the operation
/// does, and leaves what the operation leaves.
pub proof fn operation_is_carried_out(
    namespace: Seq<u8>,
    native: Map<Record, Seq<u8>>,
    pending: Seq<PendingWriteView>,
    op: AtomicOpView,
    event: CommitEventView,
)
    requires
        namespace.len() > 0,
        namespace[0] != 0xff,
        ordered(pending),
        deletions_are_seen(native, pending),
        answers_truly(namespace, native, pending, op, event),
    ensures
        match fdb_commit::guard_result(namespace, pending, op, event) {
            GuardView::Satisfied { pending: after } => plan_semantics::applied(overlay(native, pending), op)
                == Some(overlay(native_after(native, op), after)) && ordered(after)
                && deletions_are_seen(native_after(native, op), after),
            GuardView::Unsatisfied => plan_semantics::applied(overlay(native, pending), op) is None,
            GuardView::Failed { .. } => false,
        },
{
    let state = overlay(native, pending);
    let record = (op.space(), op.key());
    match op {
        AtomicOpView::AssertPrefixEmpty { space, prefix } => {
            let physical = fdb_keys::physical(namespace, space, prefix);
            assert(physical[0] == namespace[0]);
            growing_prefix_has_successor(physical, 0);
            empty_overlay(native, pending, space, prefix);
        },
        AtomicOpView::Delete { space, key } => {
            let write = PendingWriteView { space, key, value: None };
            overlay_with_write(native, pending, write);
            added_write_keeps_order(pending, write);
            let after = fdb_commit::with_pending(pending, write);
            assert forall|r: Record| #[trigger]
                native.remove(record).dom().contains(r) implies !(fdb_commit::pending_at(
                after,
                r.0,
                r.1,
            ) matches Some(w) && w.value is None) by {
                added_write_is_found(pending, write, r.0, r.1);
                assert(native.dom().contains(r));
            }
        },
        _ => {
            assert(state.dom().contains(record) ==> (state[record] matches Cell::Stored(_)
                <==> fdb_commit::pending_at(pending, op.space(), op.key()) is None));
            if let Some(value) = op.value() {
                let write = PendingWriteView {
                    space: op.space(),
                    key: op.key(),
                    value: Some(value),
                };
                overlay_with_write(native, pending, write);
                added_write_keeps_order(pending, write);
                let after = fdb_commit::with_pending(pending, write);
                assert forall|r: Record| #[trigger]
                    native.dom().contains(r) implies !(fdb_commit::pending_at(
                    after,
                    r.0,
                    r.1,
                ) matches Some(w) && w.value is None) by {
                    added_write_is_found(pending, write, r.0, r.1);
                }
            }
        },
    }
}

/// A commit does what its plan does, as far as it is: the operations that were
/// tried left what they leave one after the other, every write of a commit
/// that goes on is one of the whole plan, and a plan that conflicted has an
/// operation that does not hold.
pub open spec fn follows(
    run: CommitRunView,
    store: Map<Record, Seq<u8>>,
    native: Map<Record, Seq<u8>>,
) -> bool {
    let whole = plan_semantics::sequential(plan_semantics::unwritten(store), run.operations);
    let seen = Some(overlay(native, run.pending));
    match run.stage {
        CommitStageView::Guards { next } => {
            &&& next <= run.operations.len()
            &&& ordered(run.pending)
            &&& deletions_are_seen(native, run.pending)
            &&& plan_semantics::sequential(plan_semantics::unwritten(store), run.operations.take(next as int)) == seen
        },
        CommitStageView::Validate { entered_native_commit, result } => !entered_native_commit
            && result == Ok::<AtomicCommitOutcome, ProviderFailure>(AtomicCommitOutcome::Conflict)
            ==> whole is None,
        CommitStageView::Finished { .. } => true,
        _ => ordered(run.pending) && deletions_are_seen(native, run.pending) && whole == seen,
    }
}

/// The store answers an action of a commit truly.
pub open spec fn store_answers(
    run: CommitRunView,
    native: Map<Record, Seq<u8>>,
    event: CommitEventView,
) -> bool {
    match run.stage {
        CommitStageView::Guards { next } => next < run.operations.len() ==> event is Failed
            || answers_truly(
            run.namespace,
            native,
            run.pending,
            run.operations[next as int],
            event,
        ),
        _ => true,
    }
}

/// What the transaction reads after an action of a commit was answered.
pub open spec fn store_after(run: CommitRunView, native: Map<Record, Seq<u8>>) -> Map<
    Record,
    Seq<u8>,
> {
    match run.stage {
        CommitStageView::Guards { next } => if next < run.operations.len() {
            native_after(native, run.operations[next as int])
        } else {
            native
        },
        _ => native,
    }
}

/// A commit starts with nothing done.
pub proof fn commit_starts_following(
    namespace: Seq<u8>,
    budget: usize,
    token: ProviderInstanceToken,
    operations: Seq<AtomicOpView>,
    store: Map<Record, Seq<u8>>,
)
    ensures
        follows(
            CommitRunView::started(namespace, budget, token, operations),
            store,
            store,
        ),
{
    let run = CommitRunView::started(namespace, budget, token, operations);
    if run.stage is Guards {
        assert(operations.take(0) =~= Seq::empty());
        assert(overlay(store, Seq::empty()) =~= plan_semantics::unwritten(store));
    }
}

/// A plan that cannot be carried out so far cannot be carried out at all.
proof fn conflict_is_final(state: Map<Record, Cell>, operations: Seq<AtomicOpView>, n: int)
    requires
        0 <= n <= operations.len(),
        plan_semantics::sequential(state, operations.take(n)) is None,
    ensures
        plan_semantics::sequential(state, operations) is None,
    decreases operations.len() - n,
{
    if n < operations.len() {
        let longer = operations.take(n + 1);
        assert(longer.drop_last() =~= operations.take(n));
        conflict_is_final(state, operations, n + 1);
    } else {
        assert(operations.take(n) =~= operations);
    }
}

/// A commit goes on following its plan: whatever a store that answers truly
/// says, the transaction that is committed at the end leaves what the
/// operations of the plan leave one after the other, and a plan is said to
/// conflict only if one of its operations does not hold.
pub proof fn commit_follows_its_plan(
    run: CommitRunView,
    store: Map<Record, Seq<u8>>,
    native: Map<Record, Seq<u8>>,
    event: CommitEventView,
)
    requires
        run.namespace.len() > 0,
        run.namespace[0] != 0xff,
        run.operations.len() < usize::MAX,
        follows(run, store, native),
        store_answers(run, native, event),
    ensures
        follows(run.after(event), store, store_after(run, native)),
        run.after(event).operations == run.operations,
        run.after(event).namespace == run.namespace,
{
    match run.stage {
        CommitStageView::Guards { next } => {
            if next < run.operations.len() {
                let op = run.operations[next as int];
                let longer = run.operations.take(next + 1);
                assert(longer.drop_last() =~= run.operations.take(next as int));
                assert(longer.last() == op);
                if answers_truly(run.namespace, native, run.pending, op, event) {
                    operation_is_carried_out(run.namespace, native, run.pending, op, event);
                    if plan_semantics::applied(overlay(native, run.pending), op) is None {
                        conflict_is_final(plan_semantics::unwritten(store), run.operations, next + 1);
                    }
                } else {
                    failed_event_decides_little(run, store, native, next, event);
                }
            } else {
                assert(run.operations.take(next as int) =~= run.operations);
            }
        },
        _ => {},
    }
}

/// Where the store failed, the commit ends with that failure, unless the
/// pending writes decided the operation without it.
proof fn failed_event_decides_little(
    run: CommitRunView,
    store: Map<Record, Seq<u8>>,
    native: Map<Record, Seq<u8>>,
    next: usize,
    event: CommitEventView,
)
    requires
        run.namespace.len() > 0,
        run.namespace[0] != 0xff,
        run.stage == (CommitStageView::Guards { next }),
        next < run.operations.len(),
        event is Failed,
        !answers_truly(
            run.namespace,
            native,
            run.pending,
            run.operations[next as int],
            event,
        ),
    ensures
        run.after(event).stage == (CommitStageView::Validate {
            entered_native_commit: false,
            result: Err::<AtomicCommitOutcome, ProviderFailure>(event->Failed_0),
        }),
{
    let op = run.operations[next as int];
    match op {
        AtomicOpView::AssertPrefixEmpty { space, prefix } => {
            let physical = fdb_keys::physical(run.namespace, space, prefix);
            assert(physical[0] == run.namespace[0]);
            growing_prefix_has_successor(physical, 0);
        },
        _ => {},
    }
}

/// Contents of the transaction once the first writes of a commit were stored.
pub open spec fn stored(
    native: Map<Record, Seq<u8>>,
    pending: Seq<PendingWriteView>,
    n: int,
) -> Map<Record, Cell>
    decreases n,
{
    if n <= 0 {
        plan_semantics::unwritten(native)
    } else {
        let before = stored(native, pending, n - 1);
        let write = pending[n - 1];
        match write.value {
            None => before,
            Some(value) => before.insert((write.space, write.key), Cell::Written(value)),
        }
    }
}

/// What the first writes of a commit leave of one record.
proof fn stored_record(
    native: Map<Record, Seq<u8>>,
    pending: Seq<PendingWriteView>,
    n: int,
    r: Record,
)
    requires
        ordered(pending),
        0 <= n <= pending.len(),
    ensures
        ({
            let state = stored(native, pending, n);
            let write = fdb_commit::pending_at(pending, r.0, r.1);
            let done = exists|i: int| 0 <= i < n && write == Some(#[trigger] pending[i]);
            if done && write->Some_0.value is Some {
                state.dom().contains(r) && state[r] == Cell::Written(
                    write->Some_0.value->Some_0,
                )
            } else {
                (state.dom().contains(r) <==> native.dom().contains(r)) && (native.dom().contains(r)
                    ==> state[r] == Cell::Stored(native[r]))
            }
        }),
    decreases n,
{
    if n > 0 {
        stored_record(native, pending, n - 1, r);
        let write = pending[n - 1];
        write_is_found(pending, n - 1);
        let found = fdb_commit::pending_at(pending, r.0, r.1);
        found_write_is_pending(pending, r.0, r.1);
        if r == (write.space, write.key) {
            assert(found == Some(pending[n - 1]));
        } else {
            if exists|i: int| 0 <= i < n && found == Some(#[trigger] pending[i]) {
                let i = choose|i: int| 0 <= i < n && found == Some(#[trigger] pending[i]);
                assert(i != n - 1);
            }
            if exists|i: int| 0 <= i < n - 1 && found == Some(#[trigger] pending[i]) {
                let i = choose|i: int| 0 <= i < n - 1 && found == Some(#[trigger] pending[i]);
                assert(found == Some(pending[i]));
            }
        }
    }
}

/// All writes of a commit leave of one record what the guards see.
proof fn stored_is_seen(native: Map<Record, Seq<u8>>, pending: Seq<PendingWriteView>, r: Record)
    requires
        ordered(pending),
        deletions_are_seen(native, pending),
    ensures
        ({
            let state = stored(native, pending, pending.len() as int);
            let seen = overlay(native, pending);
            (state.dom().contains(r) <==> seen.dom().contains(r)) && (state.dom().contains(r)
                ==> state[r] == seen[r])
        }),
{
    stored_record(native, pending, pending.len() as int, r);
    found_write_is_pending(pending, r.0, r.1);
    match fdb_commit::pending_at(pending, r.0, r.1) {
        Some(w) => {
            let i = choose|i: int| 0 <= i < pending.len() && #[trigger] pending[i] == w;
            assert(Some(pending[i]) == fdb_commit::pending_at(pending, r.0, r.1));
            if w.value is None && native.dom().contains(r) {
                assert(false);
            }
        },
        None => {},
    }
}

/// The writes of a commit complete its plan: the transaction that is then
/// committed holds exactly what the guards saw, which is what the plan leaves.
pub proof fn writes_complete_the_plan(
    native: Map<Record, Seq<u8>>,
    pending: Seq<PendingWriteView>,
)
    requires
        ordered(pending),
        deletions_are_seen(native, pending),
    ensures
        stored(native, pending, pending.len() as int) == overlay(native, pending),
{
    let n = pending.len() as int;
    let state = stored(native, pending, n);
    let seen = overlay(native, pending);
    assert forall|r: Record| #[trigger] state.dom().contains(r) <==> seen.dom().contains(r) by {
        stored_is_seen(native, pending, r);
    }
    assert forall|r: Record| #[trigger] state.dom().contains(r) implies state[r] == seen[r] by {
        stored_is_seen(native, pending, r);
    }
    assert(state =~= seen);
}

/// A commit is tried at most once: behind the native commit only the runtime
/// is checked, and then the outcome is known for good.
pub proof fn native_commit_is_tried_once(
    run: CommitRunView,
    first: CommitEventView,
    second: CommitEventView,
    third: CommitEventView,
)
    requires
        run.action() is Commit,
    ensures
        run.after(first).action() is ValidateRuntime,
        run.after(first).after(second).action() is Finish,
        run.after(first).after(second).after(third) == run.after(first).after(second),
{
}

/// An outcome is reported as committed only if the native commit succeeded and
/// the runtime was valid behind it.
pub proof fn committed_means_committed(
    run: CommitRunView,
    first: CommitEventView,
    second: CommitEventView,
)
    requires
        run.action() is Commit,
        run.after(first).after(second).stage == (CommitStageView::Finished {
            result: Ok::<AtomicCommitOutcome, ProviderFailure>(AtomicCommitOutcome::Committed),
        }),
    ensures
        first == CommitEventView::Settled(None),
        second matches CommitEventView::Validated(post_validation) && post_validation is Ok,
{
}

/// Steps that a commit has left at most.
pub open spec fn steps_left(run: CommitRunView) -> int {
    match run.stage {
        CommitStageView::Guards { next } => 3 * (if next < run.operations.len() {
            run.operations.len() - next
        } else {
            0
        }) + run.pending.len() + 7,
        CommitStageView::Writes { next } => (if next < run.pending.len() {
            run.pending.len() - next
        } else {
            0
        }) + 6,
        CommitStageView::Limit => 5,
        CommitStageView::Estimate => 4,
        CommitStageView::Commit { .. } => 3,
        CommitStageView::Validate { .. } => 2,
        CommitStageView::Finished { .. } => 0,
    }
}

/// One more write adds at most one.
proof fn added_write_adds_one(pending: Seq<PendingWriteView>, write: PendingWriteView)
    ensures
        fdb_commit::with_pending(pending, write).len() <= pending.len() + 1,
    decreases pending.len(),
{
    if pending.len() > 0 {
        added_write_adds_one(pending.drop_first(), write);
    }
}

/// A commit ends: every answer, whatever it says, brings it closer to its
/// outcome.
pub proof fn commit_ends(run: CommitRunView, event: CommitEventView)
    requires
        run.operations.len() < usize::MAX,
        run.pending.len() < usize::MAX,
    ensures
        run.stage is Finished || 0 <= steps_left(run.after(event)) < steps_left(run),
{
    if let CommitStageView::Guards { next } = run.stage {
        if next < run.operations.len() {
            let op = run.operations[next as int];
            added_write_adds_one(
                run.pending,
                PendingWriteView { space: op.space(), key: op.key(), value: op.value() },
            );
        }
    }
}

} // verus!
