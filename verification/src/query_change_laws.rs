//! What a page of change events holds.
//!
//! The laws speak of a store: its events in the order of their positions, and
//! the incarnation that each workbench shows at each version. A run whose
//! questions are answered from that store ends with the page that the store
//! determines: the first visible events behind the marker, up to the limit, and
//! a cursor exactly where a further one follows.

use vstd::prelude::*;

use crate::namespace_types::NamespaceFailure;
use crate::query_changes;
use crate::query_changes::{
    ChangeItemView, ChangeRunView, ChangeStageView, ItemStep,
};
use crate::query_types::{
    ChangeEventView, ChangePageRequestView, ChangePageView, QueryError, QueryFailure,
    QueryScopeView, ENGINE_SCAN_BATCH,
};
use crate::store_records::{ChangeEventRecordView, WorkspaceRecordView};

verus! {

/// What each workbench shows at each version.
pub type Visibility = spec_fn(u64, Seq<u8>) -> Option<Seq<u8>>;

/// One position comes before another.
pub open spec fn position_less(a: (u64, u32), b: (u64, u32)) -> bool {
    a.0 < b.0 || (a.0 == b.0 && a.1 < b.1)
}

/// The events stand in the order of their positions.
pub open spec fn in_order(stored: Seq<ChangeItemView>) -> bool {
    &&& forall|i: int| 0 <= i < stored.len() ==> (#[trigger] stored[i]).position is Some
    &&& forall|i: int, j: int|
        #![trigger stored[i], stored[j]]
        0 <= i < j < stored.len() ==> position_less(stored[i].position->0, stored[j].position->0)
}

/// The events behind a marker.
pub open spec fn behind(stored: Seq<ChangeItemView>, marker: Option<(u64, u32)>) -> Seq<
    ChangeItemView,
>
    decreases stored.len(),
{
    if stored.len() == 0 {
        stored
    } else if marker is None || position_less(marker->0, stored[0].position->0) {
        stored
    } else {
        behind(stored.drop_first(), marker)
    }
}

/// The event at a position, if there is one.
pub open spec fn stored_at(stored: Seq<ChangeItemView>, position: (u64, u32)) -> Option<
    Result<ChangeEventRecordView, Seq<u8>>,
>
    decreases stored.len(),
{
    if stored.len() == 0 {
        None
    } else if stored[0].position == Some(position) {
        Some(stored[0].event)
    } else {
        stored_at(stored.drop_first(), position)
    }
}

/// What every workbench shows, as a run would know it.
pub open spec fn all_known(visible: Visibility) -> spec_fn(u64, Seq<u8>) -> Option<
    Option<Seq<u8>>,
> {
    |commit_version: u64, workbench_id: Seq<u8>| Some(visible(commit_version, workbench_id))
}

/// The events with the visible ones among the items added in order, up to one
/// more than the limit, or the failure of a damaged item before that.
pub open spec fn collected(
    scope: QueryScopeView,
    limit: usize,
    visible: Visibility,
    events: Seq<ChangeEventView>,
    items: Seq<ChangeItemView>,
) -> Result<Seq<ChangeEventView>, QueryFailure>
    decreases items.len(),
{
    if events.len() > limit || items.len() == 0 {
        Ok(events)
    } else {
        match query_changes::item_step(scope, items[0], all_known(visible)) {
            ItemStep::Fail(e) => Err(e),
            ItemStep::Take(event) => collected(
                scope,
                limit,
                visible,
                events.push(event),
                items.drop_first(),
            ),
            _ => collected(scope, limit, visible, events, items.drop_first()),
        }
    }
}

/// The page of a run that has the items left to look at.
pub open spec fn page_outlook(
    run: ChangeRunView,
    visible: Visibility,
    items: Seq<ChangeItemView>,
) -> Result<ChangePageView, QueryFailure> {
    match collected(run.scope, run.limit, visible, run.events, items) {
        Err(e) => Err(e),
        Ok(events) => Ok(
            query_changes::change_page(events, run.limit, run.read_version, run.request_digest),
        ),
    }
}

/// Position of the last event that the run was given.
pub open spec fn reached(run: ChangeRunView) -> Option<(u64, u32)> {
    if run.batch.len() > 0 {
        run.batch.last().position
    } else {
        run.marker
    }
}

/// The items that the run has left to look at.
pub open spec fn left(run: ChangeRunView, stored: Seq<ChangeItemView>) -> Seq<ChangeItemView> {
    run.batch + behind(stored, reached(run))
}

/// The result of a run whose cursor stands at this item.
pub open spec fn anchor_outlook(
    run: ChangeRunView,
    stored: Seq<ChangeItemView>,
    visible: Visibility,
    anchor: ChangeItemView,
) -> Result<ChangePageView, QueryFailure> {
    match query_changes::item_step(run.scope, anchor, all_known(visible)) {
        ItemStep::Fail(e) => Err(e),
        ItemStep::Take(_) => page_outlook(run, visible, left(run, stored)),
        _ => Err(QueryError::CursorAnchorMissing),
    }
}

/// The result that a run comes to on this store.
pub open spec fn outlook(run: ChangeRunView, stored: Seq<ChangeItemView>, visible: Visibility) -> Result<
    ChangePageView,
    QueryFailure,
> {
    match run.stage {
        ChangeStageView::Finished(result) => result,
        ChangeStageView::ReadingAnchor(commit_version, sequence) => match stored_at(
            stored,
            (commit_version, sequence),
        ) {
            None => Err(QueryError::CursorAnchorMissing),
            Some(event) => anchor_outlook(
                run,
                stored,
                visible,
                ChangeItemView { position: Some((commit_version, sequence)), event },
            ),
        },
        _ => match run.anchor {
            Some(anchor) => anchor_outlook(run, stored, visible, anchor),
            None => page_outlook(run, visible, left(run, stored)),
        },
    }
}

/// What the run knows of workbenches is what they show.
pub open spec fn knows_truly(run: ChangeRunView, visible: Visibility) -> bool {
    run.cache_version is Some ==> forall|i: int|
        0 <= i < run.cache.len() ==> (#[trigger] run.cache[i]).1 == visible(
            run.cache_version->0,
            run.cache[i].0,
        )
}

/// The run can go on: it holds no more than a page, and knows nothing false.
pub open spec fn able(run: ChangeRunView, stored: Seq<ChangeItemView>, visible: Visibility) -> bool {
    &&& knows_truly(run, visible)
    &&& 0 < run.limit
    &&& run.events.len() <= run.limit
    &&& run.last_batch ==> behind(stored, reached(run)).len() == 0
    &&& run.anchor is Some ==> run.batch.len() == 0 && !run.last_batch && run.anchor->0.position
        == run.marker
}

/// The run stands as answers from this store leave it.
pub open spec fn on_course(run: ChangeRunView, stored: Seq<ChangeItemView>, visible: Visibility) -> bool {
    match run.stage {
        ChangeStageView::Finished(_) => true,
        ChangeStageView::ReadingAnchor(commit_version, sequence) => able(run, stored, visible)
            && run.marker == Some((commit_version, sequence)) && run.anchor is None
            && run.batch.len() == 0 && !run.last_batch,
        ChangeStageView::Scanning => able(run, stored, visible) && run.anchor is None
            && run.batch.len() == 0 && !run.last_batch,
        ChangeStageView::Resolving(commit_version, workbench_id) => able(run, stored, visible) && (
        run.anchor is Some || run.batch.len() > 0) && query_changes::item_step(
            run.scope,
            if run.anchor is Some {
                run.anchor->0
            } else {
                run.batch[0]
            },
            run.known(),
        ) == ItemStep::Resolve(commit_version, workbench_id),
    }
}

/// What the run knows of a workbench is what it shows.
proof fn cached_is_visible(
    resolved: Seq<(Seq<u8>, Option<Seq<u8>>)>,
    commit_version: u64,
    visible: Visibility,
    workbench_id: Seq<u8>,
)
    requires
        forall|i: int|
            0 <= i < resolved.len() ==> (#[trigger] resolved[i]).1 == visible(
                commit_version,
                resolved[i].0,
            ),
    ensures
        query_changes::cached(resolved, workbench_id) matches Some(incarnation_id)
            ==> incarnation_id == visible(commit_version, workbench_id),
    decreases resolved.len(),
{
    if resolved.len() > 0 && resolved.last().0 != workbench_id {
        let shorter = resolved.drop_last();
        assert forall|i: int| 0 <= i < shorter.len() implies (#[trigger] shorter[i]).1 == visible(
            commit_version,
            shorter[i].0,
        ) by {
            assert(shorter[i] == resolved[i]);
        }
        cached_is_visible(shorter, commit_version, visible, workbench_id);
    } else if resolved.len() > 0 {
        assert(resolved[resolved.len() - 1] == resolved.last());
    }
}

/// A run that needs no answer decides as one that knows everything.
proof fn known_steps_are_true(run: ChangeRunView, visible: Visibility, item: ChangeItemView)
    requires
        knows_truly(run, visible),
    ensures
        !(query_changes::item_step(run.scope, item, run.known()) is Resolve)
            ==> query_changes::item_step(run.scope, item, run.known())
            == query_changes::item_step(run.scope, item, all_known(visible)),
        !(query_changes::item_step(run.scope, item, all_known(visible)) is Resolve),
{
    if let (Some((commit_version, _)), Ok(event)) = (item.position, item.event) {
        if run.cache_version == Some(commit_version) {
            cached_is_visible(run.cache, commit_version, visible, event.workbench_id);
        }
    }
}

/// Working off the batch keeps the outlook.
proof fn draining_keeps_the_outlook(
    run: ChangeRunView,
    stored: Seq<ChangeItemView>,
    visible: Visibility,
)
    requires
        able(run, stored, visible),
        run.anchor is None,
    ensures
        on_course(run.drained(), stored, visible),
        outlook(run.drained(), stored, visible) == page_outlook(run, visible, left(run, stored)),
    decreases run.batch.len(),
{
    let items = left(run, stored);
    if run.batch.len() == 0 {
        assert(items =~= behind(stored, run.marker));
        if !run.last_batch {
            let next = ChangeRunView { stage: ChangeStageView::Scanning, ..run };
            assert(left(next, stored) =~= items);
        }
    } else {
        let item = run.batch[0];
        let rest = ChangeRunView { marker: item.position, batch: run.batch.drop_first(), ..run };
        assert(items[0] == item);
        assert(reached(rest) == reached(run)) by {
            if rest.batch.len() == 0 {
                assert(run.batch.last() == item);
            } else {
                assert(rest.batch.last() == run.batch.last());
            }
        }
        assert(items.drop_first() =~= left(rest, stored));
        known_steps_are_true(run, visible, item);
        match query_changes::item_step(run.scope, item, run.known()) {
            ItemStep::Fail(e) => {},
            ItemStep::Skip => {
                draining_keeps_the_outlook(rest, stored, visible);
            },
            ItemStep::Resolve(commit_version, workbench_id) => {
                let next = ChangeRunView {
                    stage: ChangeStageView::Resolving(commit_version, workbench_id),
                    ..run
                };
                assert(left(next, stored) =~= items);
                assert(next.known() =~= run.known());
            },
            ItemStep::Take(event) => {
                let more = ChangeRunView { events: run.events.push(event), ..rest };
                assert(left(more, stored) =~= left(rest, stored));
                if more.events.len() <= run.limit {
                    draining_keeps_the_outlook(more, stored, visible);
                }
            },
        }
    }
}

/// Dealing with the anchor keeps the outlook.
proof fn anchoring_keeps_the_outlook(
    run: ChangeRunView,
    stored: Seq<ChangeItemView>,
    visible: Visibility,
)
    requires
        able(run, stored, visible),
    ensures
        on_course(run.anchored(), stored, visible),
        outlook(run.anchored(), stored, visible) == match run.anchor {
            Some(anchor) => anchor_outlook(run, stored, visible, anchor),
            None => page_outlook(run, visible, left(run, stored)),
        },
{
    match run.anchor {
        None => draining_keeps_the_outlook(run, stored, visible),
        Some(item) => {
            known_steps_are_true(run, visible, item);
            match query_changes::item_step(run.scope, item, run.known()) {
                ItemStep::Resolve(commit_version, workbench_id) => {
                    let next = ChangeRunView {
                        stage: ChangeStageView::Resolving(commit_version, workbench_id),
                        ..run
                    };
                    assert(next.known() =~= run.known());
                    assert(left(next, stored) =~= left(run, stored));
                },
                ItemStep::Take(_) => {
                    let next = ChangeRunView {
                        stage: ChangeStageView::Scanning,
                        anchor: None,
                        ..run
                    };
                    assert(left(next, stored) =~= left(run, stored));
                },
                _ => {},
            }
        },
    }
}

/// The events behind the last of some are the others.
pub proof fn behind_skips(stored: Seq<ChangeItemView>, marker: Option<(u64, u32)>, n: int)
    requires
        in_order(stored),
        0 < n <= behind(stored, marker).len(),
    ensures
        behind(stored, behind(stored, marker)[n - 1].position) == behind(stored, marker).skip(n),
        exists|k: int|
            0 <= k < stored.len() && #[trigger] stored[k] == behind(stored, marker)[n - 1],
    decreases stored.len(),
{
    let found = behind(stored, marker);
    let shorter = stored.drop_first();
    assert forall|i: int| 0 <= i < shorter.len() implies (#[trigger] shorter[i]).position is Some by {
        assert(shorter[i] == stored[i + 1]);
    }
    assert forall|i: int, j: int|
        #![trigger shorter[i], shorter[j]]
        0 <= i < j < shorter.len() implies position_less(
        shorter[i].position->0,
        shorter[j].position->0,
    ) by {
        assert(shorter[i] == stored[i + 1] && shorter[j] == stored[j + 1]);
    }
    if found == stored {
        assert(stored[n - 1] == found[n - 1]);
        if n == 1 {
            assert(behind(stored, stored[0].position) == behind(shorter, stored[0].position));
            if shorter.len() > 0 {
                assert(shorter[0] == stored[1]);
                assert(position_less(stored[0].position->0, stored[1].position->0));
            }
            assert(behind(shorter, stored[0].position) =~= stored.skip(1));
        } else {
            assert(behind(shorter, None) == shorter);
            behind_skips(shorter, None, n - 1);
            assert(shorter[n - 2] == stored[n - 1]);
            assert(position_less(stored[0].position->0, stored[n - 1].position->0));
            assert(shorter.skip(n - 1) =~= stored.skip(n));
        }
    } else {
        assert(found == behind(shorter, marker));
        behind_skips(shorter, marker, n);
        let k = choose|k: int| 0 <= k < shorter.len() && #[trigger] shorter[k] == found[n - 1];
        assert(stored[k + 1] == found[n - 1]);
        assert(position_less(stored[0].position->0, stored[k + 1].position->0));
    }
}

/// A run starts on course.
pub proof fn change_run_starts_on_course(
    root_id: Seq<u8>,
    request: ChangePageRequestView,
    read_version: u64,
    stored: Seq<ChangeItemView>,
    visible: Visibility,
)
    ensures
        on_course(ChangeRunView::started(root_id, request, read_version), stored, visible),
{
}

/// Reading the anchor from the store keeps the run on course and its outlook.
pub proof fn anchor_reads_keep_the_outlook(
    run: ChangeRunView,
    stored: Seq<ChangeItemView>,
    visible: Visibility,
)
    requires
        run.stage is ReadingAnchor,
        on_course(run, stored, visible),
    ensures
        ({
            let read = stored_at(
                stored,
                (run.stage->ReadingAnchor_0, run.stage->ReadingAnchor_1),
            );
            let next = run.after_anchor(Ok(read));
            on_course(next, stored, visible) && outlook(next, stored, visible) == outlook(
                run,
                stored,
                visible,
            )
        }),
{
    let position = (run.stage->ReadingAnchor_0, run.stage->ReadingAnchor_1);
    if let Some(event) = stored_at(stored, position) {
        let next = ChangeRunView {
            anchor: Some(ChangeItemView { position: run.marker, event }),
            ..run
        };
        assert(left(next, stored) =~= left(run, stored));
        anchoring_keeps_the_outlook(next, stored, visible);
    }
}

/// Scanning the store behind the marker keeps the run on course and its
/// outlook.
pub proof fn scans_keep_the_outlook(
    run: ChangeRunView,
    stored: Seq<ChangeItemView>,
    visible: Visibility,
)
    requires
        in_order(stored),
        run.stage is Scanning,
        on_course(run, stored, visible),
    ensures
        ({
            let found = behind(stored, run.marker);
            let scanned = if found.len() > ENGINE_SCAN_BATCH {
                found.take(ENGINE_SCAN_BATCH as int)
            } else {
                found
            };
            let next = run.after_scan(Ok(scanned));
            on_course(next, stored, visible) && outlook(next, stored, visible) == outlook(
                run,
                stored,
                visible,
            )
        }),
{
    let found = behind(stored, run.marker);
    let n = if found.len() > ENGINE_SCAN_BATCH {
        ENGINE_SCAN_BATCH as int
    } else {
        found.len() as int
    };
    let batch = if found.len() > ENGINE_SCAN_BATCH {
        found.take(ENGINE_SCAN_BATCH as int)
    } else {
        found
    };
    assert(batch =~= found.take(n));
    let next = ChangeRunView { batch, last_batch: batch.len() < ENGINE_SCAN_BATCH, ..run };
    if n > 0 {
        behind_skips(stored, run.marker, n);
        assert(batch.last() == found[n - 1]);
        assert(reached(next) == found[n - 1].position);
        assert(found.take(n) + found.skip(n) =~= found);
    }
    assert(left(next, stored) =~= found);
    assert(left(run, stored) =~= found);
    draining_keeps_the_outlook(next, stored, visible);
}

/// Resolving a workbench at the version that the run asks for keeps the run on
/// course and its outlook.
pub proof fn resolutions_keep_the_outlook(
    run: ChangeRunView,
    stored: Seq<ChangeItemView>,
    visible: Visibility,
    found: Option<WorkspaceRecordView>,
)
    requires
        run.stage is Resolving,
        on_course(run, stored, visible),
        visible(run.stage->Resolving_0, run.stage->Resolving_1) == match found {
            Some(workspace) => Some(workspace.incarnation_id),
            None => None,
        },
    ensures
        ({
            let next = run.after_resolve(
                run.stage->Resolving_0,
                run.stage->Resolving_1,
                Ok::<Option<WorkspaceRecordView>, NamespaceFailure>(found),
            );
            on_course(next, stored, visible) && outlook(next, stored, visible) == outlook(
                run,
                stored,
                visible,
            )
        }),
{
    let commit_version = run.stage->Resolving_0;
    let workbench_id = run.stage->Resolving_1;
    let incarnation_id = match found {
        Some(workspace) => Some(workspace.incarnation_id),
        None => None,
    };
    let kept = if run.cache_version == Some(commit_version) {
        run.cache
    } else {
        Seq::empty()
    };
    let next = ChangeRunView {
        cache_version: Some(commit_version),
        cache: kept.push((workbench_id, incarnation_id)),
        ..run
    };
    assert forall|i: int| 0 <= i < next.cache.len() implies (#[trigger] next.cache[i]).1 == visible(
        commit_version,
        next.cache[i].0,
    ) by {
        if i < kept.len() {
            assert(next.cache[i] == run.cache[i]);
        }
    }
    assert(left(next, stored) =~= left(run, stored));
    anchoring_keeps_the_outlook(next, stored, visible);
}

/// A run that is over came to what was to be expected of it: by the laws above,
/// the outlook of its start.
pub proof fn finished_runs_meet_their_outlook(
    run: ChangeRunView,
    stored: Seq<ChangeItemView>,
    visible: Visibility,
)
    requires
        run.stage is Finished,
    ensures
        run.stage == ChangeStageView::Finished(outlook(run, stored, visible)),
{
}

/// Resolving a workbench answers the question for good: the run does not ask
/// again for the event that it asked about.
pub proof fn resolved_events_are_decided(
    run: ChangeRunView,
    visible: Visibility,
    item: ChangeItemView,
    incarnation_id: Option<Seq<u8>>,
)
    requires
        query_changes::item_step(run.scope, item, run.known()) is Resolve,
    ensures
        ({
            let step = query_changes::item_step(run.scope, item, run.known());
            let commit_version = step->Resolve_0;
            let workbench_id = step->Resolve_1;
            let kept = if run.cache_version == Some(commit_version) {
                run.cache
            } else {
                Seq::empty()
            };
            let next = ChangeRunView {
                cache_version: Some(commit_version),
                cache: kept.push((workbench_id, incarnation_id)),
                ..run
            };
            !(query_changes::item_step(next.scope, item, next.known()) is Resolve)
        }),
{
}

} // verus!
