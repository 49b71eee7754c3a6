//! Whole reads of change events.
//!
//! A page read whose questions are all answered from one store ends after a
//! bounded number of answers, with the page that the store determines.

use vstd::prelude::*;

use crate::query_change_laws;
use crate::query_change_laws::Visibility;
use crate::query_change_page_laws;
use crate::query_changes;
use crate::query_changes::{ChangeItemView, ChangeRunView, ChangeStageView, ItemStep};
use crate::query_types::{ChangePageRequestView, ENGINE_SCAN_BATCH};
use crate::store_records::WorkspaceRecordView;

verus! {

/// The visible workspace of each workbench at each version.
pub type Workspaces = spec_fn(u64, Seq<u8>) -> Option<WorkspaceRecordView>;

/// The incarnations that the workspaces show.
pub open spec fn shown_by(workspaces: Workspaces) -> Visibility {
    |commit_version: u64, workbench_id: Seq<u8>|
        match workspaces(commit_version, workbench_id) {
            Some(workspace) => Some(workspace.incarnation_id),
            None => None,
        }
}

/// What a store gives for one scan behind a marker.
pub open spec fn scanned(stored: Seq<ChangeItemView>, marker: Option<(u64, u32)>) -> Seq<
    ChangeItemView,
> {
    let found = query_change_laws::behind(stored, marker);
    if found.len() > ENGINE_SCAN_BATCH {
        found.take(ENGINE_SCAN_BATCH as int)
    } else {
        found
    }
}

/// The run once its question is answered from the store.
pub open spec fn answered(
    run: ChangeRunView,
    stored: Seq<ChangeItemView>,
    workspaces: Workspaces,
) -> ChangeRunView {
    match run.stage {
        ChangeStageView::ReadingAnchor(commit_version, sequence) => run.after_anchor(
            Ok(query_change_laws::stored_at(stored, (commit_version, sequence))),
        ),
        ChangeStageView::Scanning => run.after_scan(Ok(scanned(stored, run.marker))),
        ChangeStageView::Resolving(commit_version, workbench_id) => run.after_resolve(
            commit_version,
            workbench_id,
            Ok(workspaces(commit_version, workbench_id)),
        ),
        ChangeStageView::Finished(_) => run,
    }
}

/// The run after so many answers.
pub open spec fn run_after(
    run: ChangeRunView,
    stored: Seq<ChangeItemView>,
    workspaces: Workspaces,
    answers: nat,
) -> ChangeRunView
    decreases answers,
{
    if answers == 0 {
        run
    } else {
        answered(
            run_after(run, stored, workspaces, (answers - 1) as nat),
            stored,
            workspaces,
        )
    }
}

/// An answer keeps the run on course and its outlook.
proof fn answers_keep_the_outlook(
    run: ChangeRunView,
    stored: Seq<ChangeItemView>,
    workspaces: Workspaces,
)
    requires
        query_change_laws::in_order(stored),
        query_change_laws::on_course(run, stored, shown_by(workspaces)),
    ensures
        query_change_laws::on_course(
            answered(run, stored, workspaces),
            stored,
            shown_by(workspaces),
        ),
        query_change_laws::outlook(
            answered(run, stored, workspaces),
            stored,
            shown_by(workspaces),
        ) == query_change_laws::outlook(run, stored, shown_by(workspaces)),
{
    let visible = shown_by(workspaces);
    match run.stage {
        ChangeStageView::ReadingAnchor(_, _) => {
            query_change_laws::anchor_reads_keep_the_outlook(run, stored, visible);
        },
        ChangeStageView::Scanning => {
            query_change_laws::scans_keep_the_outlook(run, stored, visible);
        },
        ChangeStageView::Resolving(commit_version, workbench_id) => {
            query_change_laws::resolutions_keep_the_outlook(
                run,
                stored,
                visible,
                workspaces(commit_version, workbench_id),
            );
        },
        ChangeStageView::Finished(_) => {},
    }
}

/// The events that a run has left to look at.
spec fn left_over(run: ChangeRunView, stored: Seq<ChangeItemView>) -> nat {
    run.batch.len() + query_change_laws::behind(stored, query_change_laws::reached(run)).len()
}

/// How much a run has before it.
spec fn ahead_of(run: ChangeRunView, stored: Seq<ChangeItemView>) -> nat {
    2 * left_over(run, stored) + match run.stage {
        ChangeStageView::ReadingAnchor(_, _) => 3nat,
        ChangeStageView::Resolving(_, _) => if run.anchor is Some {
            2nat
        } else {
            0nat
        },
        ChangeStageView::Scanning => 1nat,
        ChangeStageView::Finished(_) => 0nat,
    }
}

/// Working off the batch leaves no more, and less where the first event is
/// decided.
proof fn draining_goes_on(run: ChangeRunView, stored: Seq<ChangeItemView>)
    requires
        run.anchor is None,
    ensures
        ({
            let next = run.drained();
            ||| next.stage is Finished
            ||| {
                &&& next.anchor is None
                &&& next.stage is Scanning || next.stage is Resolving
                &&& next.stage is Scanning ==> next.batch.len() == 0
                &&& left_over(next, stored) <= left_over(run, stored)
                &&& run.batch.len() > 0 && (next.stage is Scanning || !(query_changes::item_step(
                    run.scope,
                    run.batch[0],
                    run.known(),
                ) is Resolve)) ==> left_over(next, stored) < left_over(run, stored)
            }
        }),
    decreases run.batch.len(),
{
    if run.batch.len() > 0 {
        let item = run.batch[0];
        let rest = ChangeRunView { marker: item.position, batch: run.batch.drop_first(), ..run };
        assert(query_change_laws::reached(rest) == query_change_laws::reached(run)) by {
            if rest.batch.len() == 0 {
                assert(run.batch.last() == item);
            } else {
                assert(rest.batch.last() == run.batch.last());
            }
        }
        assert(left_over(rest, stored) < left_over(run, stored));
        match query_changes::item_step(run.scope, item, run.known()) {
            ItemStep::Skip => draining_goes_on(rest, stored),
            ItemStep::Take(event) => {
                let more = ChangeRunView { events: run.events.push(event), ..rest };
                assert(left_over(more, stored) == left_over(rest, stored));
                if more.events.len() <= run.limit {
                    draining_goes_on(more, stored);
                }
            },
            ItemStep::Resolve(commit_version, workbench_id) => {
                let next = ChangeRunView {
                    stage: ChangeStageView::Resolving(commit_version, workbench_id),
                    ..run
                };
                assert(left_over(next, stored) == left_over(run, stored));
            },
            ItemStep::Fail(_) => {},
        }
    } else if !run.last_batch {
        let next = ChangeRunView { stage: ChangeStageView::Scanning, ..run };
        assert(left_over(next, stored) == left_over(run, stored));
    }
}

/// An answer ends the run, or leaves it less before it.
proof fn answers_bring_the_run_on(
    run: ChangeRunView,
    stored: Seq<ChangeItemView>,
    workspaces: Workspaces,
)
    requires
        query_change_laws::in_order(stored),
        query_change_laws::on_course(run, stored, shown_by(workspaces)),
        !(run.stage is Finished),
    ensures
        answered(run, stored, workspaces).stage is Finished || ahead_of(
            answered(run, stored, workspaces),
            stored,
        ) < ahead_of(run, stored),
{
    match run.stage {
        ChangeStageView::ReadingAnchor(commit_version, sequence) => {
            if let Some(event) = query_change_laws::stored_at(stored, (commit_version, sequence)) {
                let held = ChangeRunView {
                    anchor: Some(ChangeItemView { position: run.marker, event }),
                    ..run
                };
                let next = held.anchored();
                if !(next.stage is Finished) {
                    assert(left_over(next, stored) == left_over(run, stored));
                }
            }
        },
        ChangeStageView::Scanning => {
            let found = query_change_laws::behind(stored, run.marker);
            let batch = scanned(stored, run.marker);
            let held = ChangeRunView { batch, last_batch: batch.len() < ENGINE_SCAN_BATCH, ..run };
            let n = batch.len() as int;
            assert(batch =~= found.take(n));
            if n > 0 {
                query_change_laws::behind_skips(stored, run.marker, n);
                assert(batch.last() == found[n - 1]);
                assert(left_over(held, stored) == found.len());
            }
            draining_goes_on(held, stored);
        },
        ChangeStageView::Resolving(commit_version, workbench_id) => {
            let visible = shown_by(workspaces);
            let workspace = workspaces(commit_version, workbench_id);
            let incarnation_id = match workspace {
                Some(workspace) => Some(workspace.incarnation_id),
                None => None,
            };
            let kept = if run.cache_version == Some(commit_version) {
                run.cache
            } else {
                Seq::empty()
            };
            let held = ChangeRunView {
                cache_version: Some(commit_version),
                cache: kept.push((workbench_id, incarnation_id)),
                ..run
            };
            let item = if run.anchor is Some {
                run.anchor->0
            } else {
                run.batch[0]
            };
            query_change_laws::resolved_events_are_decided(run, visible, item, incarnation_id);
            assert(!(query_changes::item_step(held.scope, item, held.known()) is Resolve));
            assert(left_over(held, stored) == left_over(run, stored));
            if run.anchor is None {
                draining_goes_on(held, stored);
            }
        },
        ChangeStageView::Finished(_) => {},
    }
}

/// The events behind a marker are no more than all.
proof fn behind_is_no_more(stored: Seq<ChangeItemView>, marker: Option<(u64, u32)>)
    ensures
        query_change_laws::behind(stored, marker).len() <= stored.len(),
    decreases stored.len(),
{
    if stored.len() > 0 && marker is Some && !query_change_laws::position_less(
        marker->0,
        stored[0].position->0,
    ) {
        behind_is_no_more(stored.drop_first(), marker);
    }
}

/// After each answer the run is on course, has its outlook, and has less before
/// it, unless it is over.
proof fn runs_go_on(
    run: ChangeRunView,
    stored: Seq<ChangeItemView>,
    workspaces: Workspaces,
    answers: nat,
)
    requires
        query_change_laws::in_order(stored),
        query_change_laws::on_course(run, stored, shown_by(workspaces)),
    ensures
        ({
            let now = run_after(run, stored, workspaces, answers);
            &&& query_change_laws::on_course(now, stored, shown_by(workspaces))
            &&& query_change_laws::outlook(now, stored, shown_by(workspaces))
                == query_change_laws::outlook(run, stored, shown_by(workspaces))
            &&& now.stage is Finished || ahead_of(now, stored) + answers <= ahead_of(run, stored)
        }),
    decreases answers,
{
    if answers > 0 {
        let fewer = (answers - 1) as nat;
        let before = run_after(run, stored, workspaces, fewer);
        runs_go_on(run, stored, workspaces, fewer);
        answers_keep_the_outlook(before, stored, workspaces);
        if !(before.stage is Finished) {
            answers_bring_the_run_on(before, stored, workspaces);
        }
    }
}

/// A page read that is answered from one store is over after at most four
/// answers and two more for each stored event. Whenever it is over, it came to
/// the page that the store determines.
pub proof fn reads_of_a_store_give_its_page(
    root_id: Seq<u8>,
    request: ChangePageRequestView,
    read_version: u64,
    stored: Seq<ChangeItemView>,
    workspaces: Workspaces,
    answers: nat,
)
    requires
        query_change_laws::in_order(stored),
    ensures
        ({
            let started = ChangeRunView::started(root_id, request, read_version);
            let now = run_after(started, stored, workspaces, answers);
            &&& now.stage matches ChangeStageView::Finished(result) ==> result
                == query_change_page_laws::page_of(
                root_id,
                request,
                read_version,
                stored,
                shown_by(workspaces),
            )
            &&& answers >= 2 * stored.len() + 4 ==> now.stage is Finished
        }),
{
    let started = ChangeRunView::started(root_id, request, read_version);
    query_change_laws::change_run_starts_on_course(
        root_id,
        request,
        read_version,
        stored,
        shown_by(workspaces),
    );
    runs_go_on(started, stored, workspaces, answers);
    behind_is_no_more(stored, started.marker);
    assert(ahead_of(started, stored) <= 2 * stored.len() + 3);
}

} // verus!
