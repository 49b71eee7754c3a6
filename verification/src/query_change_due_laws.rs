//! Which events a page of changes holds.
//!
//! An event is due to a reader where it is in the scope of the request, behind
//! the place where the read starts, and of the incarnation that its workbench
//! showed at the commit version of the event itself. A page read that is answered
//! from one store holds the due events, in commit order, and nothing else.

use vstd::prelude::*;

use crate::bytes;
use crate::query_change_laws;
use crate::query_change_page_laws;
use crate::query_change_run_laws;
use crate::query_change_run_laws::Workspaces;
use crate::query_changes;
use crate::query_changes::{ChangeItemView, ChangeRunView, ChangeStageView, ItemStep};
use crate::query_types::{
    ChangeEventView, ChangePageRequestView, ChangePageView, QueryError,
    QueryScopeView,
};
use crate::store_records::AgentMetadataError;

verus! {

/// The page that a read answered from a store ends with, if it is over and
/// succeeded.
pub open spec fn page_read(
    root_id: Seq<u8>,
    request: ChangePageRequestView,
    read_version: u64,
    stored: Seq<ChangeItemView>,
    workspaces: Workspaces,
    answers: nat,
) -> Option<ChangePageView> {
    let started = ChangeRunView::started(root_id, request, read_version);
    match query_change_run_laws::run_after(started, stored, workspaces, answers).stage {
        ChangeStageView::Finished(Ok(page)) => Some(page),
        _ => None,
    }
}

/// A shown item is among the shown events.
proof fn taken_items_are_shown(
    scope: QueryScopeView,
    visible: query_change_laws::Visibility,
    items: Seq<ChangeItemView>,
    m: int,
    event: ChangeEventView,
)
    requires
        0 <= m < items.len(),
        query_changes::item_step(scope, items[m], query_change_laws::all_known(visible))
            == ItemStep::Take(event),
    ensures
        query_change_page_laws::shown(scope, visible, items).contains(event),
    decreases items.len(),
{
    let all = query_change_page_laws::shown(scope, visible, items);
    let rest = query_change_page_laws::shown(scope, visible, items.drop_first());
    if m == 0 {
        assert(all[0] == event);
    } else {
        assert(items.drop_first()[m - 1] == items[m]);
        taken_items_are_shown(scope, visible, items.drop_first(), m - 1, event);
        let i = choose|i: int| 0 <= i < rest.len() && rest[i] == event;
        if query_changes::item_step(scope, items[0], query_change_laws::all_known(visible)) is Take {
            assert(all[i + 1] == event);
        } else {
            assert(all[i] == event);
        }
    }
}

/// Every event behind a marker is among those that are scanned behind it.
proof fn items_behind_are_scanned(
    stored: Seq<ChangeItemView>,
    marker: Option<(u64, u32)>,
    k: int,
) -> (m: int)
    requires
        query_change_laws::in_order(stored),
        0 <= k < stored.len(),
        marker matches Some(marker) ==> query_change_laws::position_less(
            marker,
            stored[k].position->0,
        ),
    ensures
        0 <= m < query_change_laws::behind(stored, marker).len(),
        query_change_laws::behind(stored, marker)[m] == stored[k],
    decreases stored.len(),
{
    if marker is None || query_change_laws::position_less(marker->0, stored[0].position->0) {
        k
    } else {
        let rest = stored.drop_first();
        query_change_page_laws::rest_is_in_order(stored);
        assert(rest[k - 1] == stored[k]);
        items_behind_are_scanned(rest, marker, k - 1)
    }
}

/// Every due event is on the page, or behind the end of a full page that has a
/// cursor. Nothing but the scope, the start of the read and the incarnation that
/// the workbench showed at the commit version of the event decides: an event of
/// any kind, with or without a path, is reported.
pub proof fn reads_report_every_due_event(
    root_id: Seq<u8>,
    request: ChangePageRequestView,
    read_version: u64,
    stored: Seq<ChangeItemView>,
    workspaces: Workspaces,
    answers: nat,
    due: ChangeEventView,
    k: int,
)
    requires
        query_change_laws::in_order(stored),
        page_read(root_id, request, read_version, stored, workspaces, answers) is Some,
        0 <= k < stored.len(),
        stored[k].position == Some((due.commit_version, due.sequence)),
        stored[k].event == Ok::<_, Seq<u8>>(due.event),
        due.workbench_id == due.event.workbench_id,
        request.scope == QueryScopeView::Root || request.scope == QueryScopeView::Workspace(
            due.workbench_id,
        ),
        workspaces(due.commit_version, due.workbench_id) matches Some(workspace)
            && workspace.incarnation_id == due.event.workspace_incarnation_id,
        request.after_commit_version matches Some(after) ==> after < due.commit_version,
        request.cursor matches Some(cursor) ==> bytes::from_be64(cursor.subrange(46, 54))
            < due.commit_version || (bytes::from_be64(cursor.subrange(46, 54))
            == due.commit_version && bytes::from_be32(cursor.subrange(54, 58)) < due.sequence),
    ensures
        ({
            let page = page_read(root_id, request, read_version, stored, workspaces, answers)->0;
            page.events.contains(due) || (page.next_cursor is Some && page.events.len()
                == request.limit && (page.events.last().commit_version < due.commit_version || (
            page.events.last().commit_version == due.commit_version && page.events.last().sequence
                < due.sequence)))
        }),
{
    let visible = query_change_run_laws::shown_by(workspaces);
    query_change_run_laws::reads_of_a_store_give_its_page(
        root_id,
        request,
        read_version,
        stored,
        workspaces,
        answers,
    );
    let page = page_read(root_id, request, read_version, stored, workspaces, answers)->0;
    query_change_page_laws::change_page_holds_the_first_events(
        root_id,
        request,
        read_version,
        stored,
        visible,
    );
    query_change_page_laws::shown_events_ascend(root_id, request, read_version, stored, visible);
    let run = ChangeRunView::started(root_id, request, read_version);
    if let Some(cursor) = request.cursor {
        assert(cursor.skip(46).take(8) =~= cursor.subrange(46, 54));
        assert(cursor.skip(46).skip(8) =~= cursor.subrange(54, 58));
    }
    let items = query_change_laws::behind(stored, run.marker);
    let m = items_behind_are_scanned(stored, run.marker, k);
    taken_items_are_shown(request.scope, visible, items, m, due);
    let all = query_change_page_laws::asked_for(root_id, request, read_version, stored, visible);
    let i = choose|i: int| 0 <= i < all.len() && all[i] == due;
    if i < page.events.len() {
        assert(page.events[i] == due);
    } else {
        let last = page.events.len() - 1;
        assert(page.events[last] == all[last]);
    }
}

/// Every event on a page is due: it is stored as it is shown, in scope, behind
/// the start of the read, and of the incarnation that its workbench showed at its
/// own commit version. The events ascend strictly, by commit version and then by
/// sequence, and there are no more than were asked for.
pub proof fn reads_report_only_due_events(
    root_id: Seq<u8>,
    request: ChangePageRequestView,
    read_version: u64,
    stored: Seq<ChangeItemView>,
    workspaces: Workspaces,
    answers: nat,
)
    requires
        query_change_laws::in_order(stored),
        page_read(root_id, request, read_version, stored, workspaces, answers) is Some,
    ensures
        ({
            let page = page_read(root_id, request, read_version, stored, workspaces, answers)->0;
            &&& page.read_version == read_version
            &&& page.events.len() <= request.limit
            &&& page.next_cursor is Some ==> page.events.len() == request.limit
            &&& forall|i: int, j: int|
                #![trigger page.events[i], page.events[j]]
                0 <= i < j < page.events.len() ==> page.events[i].commit_version
                    < page.events[j].commit_version || (page.events[i].commit_version
                    == page.events[j].commit_version && page.events[i].sequence
                    < page.events[j].sequence)
            &&& forall|i: int|
                0 <= i < page.events.len() ==> {
                    let event = #[trigger] page.events[i];
                    &&& exists|k: int|
                        0 <= k < stored.len() && (#[trigger] stored[k]).position == Some(
                            (event.commit_version, event.sequence),
                        ) && stored[k].event == Ok::<_, Seq<u8>>(event.event)
                    &&& event.workbench_id == event.event.workbench_id
                    &&& request.scope matches QueryScopeView::Workspace(workbench_id)
                        ==> workbench_id == event.workbench_id
                    &&& workspaces(event.commit_version, event.workbench_id) is Some
                    &&& workspaces(event.commit_version, event.workbench_id)->0.incarnation_id
                        == event.event.workspace_incarnation_id
                    &&& request.after_commit_version matches Some(after) ==> after
                        < event.commit_version
                }
        }),
{
    let visible = query_change_run_laws::shown_by(workspaces);
    query_change_run_laws::reads_of_a_store_give_its_page(
        root_id,
        request,
        read_version,
        stored,
        workspaces,
        answers,
    );
    let page = page_read(root_id, request, read_version, stored, workspaces, answers)->0;
    query_change_page_laws::change_page_holds_the_first_events(
        root_id,
        request,
        read_version,
        stored,
        visible,
    );
    query_change_page_laws::shown_events_ascend(root_id, request, read_version, stored, visible);
    let all = query_change_page_laws::asked_for(root_id, request, read_version, stored, visible);
    assert forall|i: int| 0 <= i < page.events.len() implies (#[trigger] page.events[i]) == all[i] by {}
    assert forall|i: int, j: int|
        #![trigger page.events[i], page.events[j]]
        0 <= i < j < page.events.len() implies page.events[i].commit_version
            < page.events[j].commit_version || (page.events[i].commit_version
            == page.events[j].commit_version && page.events[i].sequence < page.events[j].sequence) by {
        assert(page.events[i] == all[i] && page.events[j] == all[j]);
    }
    assert forall|i: int| 0 <= i < page.events.len() implies ({
        let event = #[trigger] page.events[i];
        &&& exists|k: int|
            0 <= k < stored.len() && (#[trigger] stored[k]).position == Some(
                (event.commit_version, event.sequence),
            ) && stored[k].event == Ok::<_, Seq<u8>>(event.event)
        &&& event.workbench_id == event.event.workbench_id
        &&& request.scope matches QueryScopeView::Workspace(workbench_id) ==> workbench_id
            == event.workbench_id
        &&& workspaces(event.commit_version, event.workbench_id) is Some
        &&& workspaces(event.commit_version, event.workbench_id)->0.incarnation_id
            == event.event.workspace_incarnation_id
        &&& request.after_commit_version matches Some(after) ==> after < event.commit_version
    }) by {
        let event = page.events[i];
        assert(event == all[i]);
        assert(query_change_page_laws::event_is_due(request, stored, visible, all[i]));
    }
}

/// A read without a cursor fails for no reason but a limit outside 1 to 256, a
/// start in the future, or a damaged event. Otherwise it is over with a page after
/// at most four answers and two more for each stored event.
pub proof fn reads_of_sound_stores_succeed(
    root_id: Seq<u8>,
    request: ChangePageRequestView,
    read_version: u64,
    stored: Seq<ChangeItemView>,
    workspaces: Workspaces,
    answers: nat,
)
    requires
        query_change_laws::in_order(stored),
        forall|i: int| 0 <= i < stored.len() ==> (#[trigger] stored[i]).event is Ok,
        request.cursor is None,
        answers >= 2 * stored.len() + 4,
    ensures
        1 <= request.limit <= 256 && (request.after_commit_version matches Some(after) ==> after
            <= read_version) <==> page_read(
            root_id,
            request,
            read_version,
            stored,
            workspaces,
            answers,
        ) is Some,
        !(1 <= request.limit <= 256) ==> ({
            let started = ChangeRunView::started(root_id, request, read_version);
            query_change_run_laws::run_after(started, stored, workspaces, answers).stage
                == ChangeStageView::Finished(
                Err(QueryError::InvalidLimit { requested: request.limit, max: 256 }),
            )
        }),
        1 <= request.limit <= 256 ==> (request.after_commit_version matches Some(after) ==> after
            > read_version ==> ({
            let started = ChangeRunView::started(root_id, request, read_version);
            query_change_run_laws::run_after(started, stored, workspaces, answers).stage
                == ChangeStageView::Finished(
                Err(
                    QueryError::Engine(
                        AgentMetadataError::ReadVersionInFuture {
                            requested: after,
                            current: read_version,
                        },
                    ),
                ),
            )
        })),
{
    let visible = query_change_run_laws::shown_by(workspaces);
    query_change_run_laws::reads_of_a_store_give_its_page(
        root_id,
        request,
        read_version,
        stored,
        workspaces,
        answers,
    );
    let run = ChangeRunView::started(root_id, request, read_version);
    let items = query_change_laws::behind(stored, run.marker);
    if !(run.stage is Finished) {
        query_change_page_laws::behind_is_the_end(stored, run.marker);
        assert forall|i: int| 0 <= i < items.len() implies (#[trigger] items[i]).position is Some
            && items[i].event is Ok by {
            assert(items[i] == stored[stored.len() - items.len() + i]);
        }
        let none = Seq::<ChangeEventView>::empty();
        query_change_page_laws::undamaged_items_are_collected(
            run.scope,
            run.limit,
            visible,
            none,
            items,
        );
        assert(query_change_laws::left(run, stored) =~= items);
    }
}

} // verus!
