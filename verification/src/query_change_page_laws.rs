//! How pages of change events follow on one another.
//!
//! A page holds the first visible events behind its marker. Its cursor leads to
//! the page that goes on with the very next visible event, also where the store
//! has grown since.

use vstd::prelude::*;

use crate::digest;
use crate::query_catalog;
use crate::query_change_laws;
use crate::query_change_laws::Visibility;
use crate::query_changes;
use crate::query_changes::{ChangeItemView, ChangeRunView, ItemStep};
use crate::query_cursor;
use crate::query_search;
use crate::query_types::{
    ChangeEventView, ChangePageRequestView, ChangePageView, QueryFailure, QueryScopeView,
};

verus! {

/// The events among the items that are in scope and visible at their own commit
/// version, in order.
pub open spec fn shown(
    scope: QueryScopeView,
    visible: Visibility,
    items: Seq<ChangeItemView>,
) -> Seq<ChangeEventView>
    decreases items.len(),
{
    if items.len() == 0 {
        Seq::empty()
    } else {
        let rest = shown(scope, visible, items.drop_first());
        match query_changes::item_step(scope, items[0], query_change_laws::all_known(visible)) {
            ItemStep::Take(event) => seq![event] + rest,
            _ => rest,
        }
    }
}

/// Every item has a canonical key and a value that decodes.
pub open spec fn undamaged(items: Seq<ChangeItemView>) -> bool {
    forall|i: int|
        0 <= i < items.len() ==> (#[trigger] items[i]).position is Some && items[i].event is Ok
}

/// Position of an event.
pub open spec fn position_of(event: ChangeEventView) -> (u64, u32) {
    (event.commit_version, event.sequence)
}

/// The events of a store that a request asks for, those before its cursor left
/// out.
pub open spec fn asked_for(
    root_id: Seq<u8>,
    request: ChangePageRequestView,
    read_version: u64,
    stored: Seq<ChangeItemView>,
    visible: Visibility,
) -> Seq<ChangeEventView> {
    shown(
        request.scope,
        visible,
        query_change_laws::behind(
            stored,
            ChangeRunView::started(root_id, request, read_version).marker,
        ),
    )
}

/// What a page read of a store comes to.
pub open spec fn page_of(
    root_id: Seq<u8>,
    request: ChangePageRequestView,
    read_version: u64,
    stored: Seq<ChangeItemView>,
    visible: Visibility,
) -> Result<ChangePageView, QueryFailure> {
    query_change_laws::outlook(
        ChangeRunView::started(root_id, request, read_version),
        stored,
        visible,
    )
}

/// The collected events are the shown ones, up to one more than the limit.
proof fn collected_events_are_shown(
    scope: QueryScopeView,
    limit: usize,
    visible: Visibility,
    events: Seq<ChangeEventView>,
    items: Seq<ChangeItemView>,
)
    requires
        events.len() <= limit + 1,
    ensures
        query_change_laws::collected(scope, limit, visible, events, items) matches Ok(done) ==> ({
            let all = events + shown(scope, visible, items);
            done == if all.len() > limit {
                all.take(limit + 1)
            } else {
                all
            }
        }),
    decreases items.len(),
{
    let all = events + shown(scope, visible, items);
    if events.len() > limit {
        assert(all.take(limit + 1) =~= events);
    } else if items.len() == 0 {
        assert(all =~= events);
    } else {
        let rest = items.drop_first();
        match query_changes::item_step(scope, items[0], query_change_laws::all_known(visible)) {
            ItemStep::Fail(e) => {},
            ItemStep::Take(event) => {
                collected_events_are_shown(scope, limit, visible, events.push(event), rest);
                assert(events.push(event) + shown(scope, visible, rest) =~= all);
            },
            _ => {
                collected_events_are_shown(scope, limit, visible, events, rest);
            },
        }
    }
}

/// Only a damaged item keeps events from being collected.
pub proof fn undamaged_items_are_collected(
    scope: QueryScopeView,
    limit: usize,
    visible: Visibility,
    events: Seq<ChangeEventView>,
    items: Seq<ChangeItemView>,
)
    requires
        undamaged(items),
    ensures
        query_change_laws::collected(scope, limit, visible, events, items) is Ok,
    decreases items.len(),
{
    if events.len() <= limit && items.len() > 0 {
        let rest = items.drop_first();
        assert forall|i: int| 0 <= i < rest.len() implies (#[trigger] rest[i]).position is Some
            && rest[i].event is Ok by {
            assert(rest[i] == items[i + 1]);
        }
        assert(items[0].position is Some && items[0].event is Ok);
        match query_changes::item_step(scope, items[0], query_change_laws::all_known(visible)) {
            ItemStep::Take(event) => {
                undamaged_items_are_collected(scope, limit, visible, events.push(event), rest);
            },
            _ => {
                undamaged_items_are_collected(scope, limit, visible, events, rest);
            },
        }
    }
}

/// Each shown event stands at one item, and the events behind it are those of
/// the items behind that one.
proof fn shown_event_has_an_item(
    scope: QueryScopeView,
    visible: Visibility,
    items: Seq<ChangeItemView>,
    i: int,
) -> (m: int)
    requires
        0 <= i < shown(scope, visible, items).len(),
    ensures
        0 <= m < items.len(),
        query_changes::item_step(scope, items[m], query_change_laws::all_known(visible))
            == ItemStep::Take(shown(scope, visible, items)[i]),
        shown(scope, visible, items.skip(m + 1)) == shown(scope, visible, items).skip(i + 1),
    decreases items.len(),
{
    let rest = items.drop_first();
    let all = shown(scope, visible, items);
    let behind = shown(scope, visible, rest);
    let taken = query_changes::item_step(scope, items[0], query_change_laws::all_known(visible)) is Take;
    if taken && i == 0 {
        assert(items.skip(1) =~= rest);
        assert(all.skip(1) =~= behind);
        0
    } else {
        let k = if taken {
            i - 1
        } else {
            i
        };
        let m = shown_event_has_an_item(scope, visible, rest, k);
        assert(rest[m] == items[m + 1]);
        assert(rest.skip(m + 1) =~= items.skip(m + 2));
        assert(behind.skip(k + 1) =~= all.skip(i + 1));
        m + 1
    }
}

/// The events behind a marker are the last ones of the store, and stand behind
/// it.
pub proof fn behind_is_the_end(stored: Seq<ChangeItemView>, marker: Option<(u64, u32)>)
    requires
        query_change_laws::in_order(stored),
    ensures
        ({
            let found = query_change_laws::behind(stored, marker);
            found.len() <= stored.len() && found == stored.skip(stored.len() - found.len())
                && forall|i: int|
                0 <= i < found.len() && marker is Some ==> query_change_laws::position_less(
                    marker->0,
                    (#[trigger] found[i]).position->0,
                )
        }),
    decreases stored.len(),
{
    let found = query_change_laws::behind(stored, marker);
    if stored.len() == 0 || marker is None || query_change_laws::position_less(
        marker->0,
        stored[0].position->0,
    ) {
        assert(found =~= stored.skip(0));
        assert forall|i: int| 0 <= i < found.len() && marker is Some implies
            query_change_laws::position_less(
            marker->0,
            (#[trigger] found[i]).position->0,
        ) by {
            if i > 0 {
                assert(query_change_laws::position_less(
                    stored[0].position->0,
                    stored[i].position->0,
                ));
            }
        }
    } else {
        let rest = stored.drop_first();
        rest_is_in_order(stored);
        behind_is_the_end(rest, marker);
        assert(rest.skip(rest.len() - found.len()) =~= stored.skip(stored.len() - found.len()));
    }
}

/// A store without its first event is in order.
pub proof fn rest_is_in_order(stored: Seq<ChangeItemView>)
    requires
        query_change_laws::in_order(stored),
        stored.len() > 0,
    ensures
        query_change_laws::in_order(stored.drop_first()),
{
    let rest = stored.drop_first();
    assert forall|i: int| 0 <= i < rest.len() implies (#[trigger] rest[i]).position is Some by {
        assert(rest[i] == stored[i + 1]);
    }
    assert forall|i: int, j: int|
        #![trigger rest[i], rest[j]]
        0 <= i < j < rest.len() implies query_change_laws::position_less(
        rest[i].position->0,
        rest[j].position->0,
    ) by {
        assert(rest[i] == stored[i + 1] && rest[j] == stored[j + 1]);
    }
}

/// An event of a store in order is found at its position.
proof fn stored_event_is_found(stored: Seq<ChangeItemView>, k: int)
    requires
        query_change_laws::in_order(stored),
        0 <= k < stored.len(),
    ensures
        query_change_laws::stored_at(stored, stored[k].position->0) == Some(stored[k].event),
    decreases stored.len(),
{
    assert(stored[0].position is Some && stored[k].position is Some);
    if k > 0 {
        assert(query_change_laws::position_less(stored[0].position->0, stored[k].position->0));
        rest_is_in_order(stored);
        let rest = stored.drop_first();
        assert(rest[k - 1] == stored[k]);
        stored_event_is_found(rest, k - 1);
    }
}

/// What a store has got since stands behind what it had.
proof fn growth_is_behind(
    stored: Seq<ChangeItemView>,
    later: Seq<ChangeItemView>,
    marker: Option<(u64, u32)>,
)
    requires
        query_change_laws::in_order(later),
        stored.len() <= later.len(),
        stored == later.take(stored.len() as int),
        query_change_laws::behind(stored, marker).len() > 0,
    ensures
        query_change_laws::behind(later, marker) == query_change_laws::behind(stored, marker)
            + later.skip(stored.len() as int),
    decreases stored.len(),
{
    assert(stored[0] == later[0]);
    if marker is None || query_change_laws::position_less(marker->0, stored[0].position->0) {
        assert(later =~= stored + later.skip(stored.len() as int));
    } else {
        let less = stored.drop_first();
        let rest = later.drop_first();
        rest_is_in_order(later);
        assert(less =~= rest.take(less.len() as int));
        growth_is_behind(less, rest, marker);
        assert(rest.skip(less.len() as int) =~= later.skip(stored.len() as int));
    }
}

/// What more items show stands behind what the first ones show.
proof fn shown_of_both(
    scope: QueryScopeView,
    visible: Visibility,
    a: Seq<ChangeItemView>,
    b: Seq<ChangeItemView>,
)
    ensures
        shown(scope, visible, a + b) == shown(scope, visible, a) + shown(scope, visible, b),
    decreases a.len(),
{
    if a.len() == 0 {
        assert(a + b =~= b);
        assert(shown(scope, visible, a) + shown(scope, visible, b) =~= shown(scope, visible, b));
    } else {
        assert((a + b).drop_first() =~= a.drop_first() + b);
        assert((a + b)[0] == a[0]);
        shown_of_both(scope, visible, a.drop_first(), b);
        assert(shown(scope, visible, a + b) =~= shown(scope, visible, a) + shown(
            scope,
            visible,
            b,
        ));
    }
}

/// A read starts behind the commit version that its request names.
proof fn reads_start_behind(
    root_id: Seq<u8>,
    request: ChangePageRequestView,
    read_version: u64,
    position: (u64, u32),
)
    requires
        !(ChangeRunView::started(root_id, request, read_version).stage is Finished),
        ChangeRunView::started(root_id, request, read_version).marker matches Some(marker)
            ==> query_change_laws::position_less(marker, position),
    ensures
        request.after_commit_version is Some ==> position.0 > request.after_commit_version->0,
{
}

/// A shown event is what its item holds.
proof fn shown_event_is_stored(
    scope: QueryScopeView,
    visible: Visibility,
    item: ChangeItemView,
    event: ChangeEventView,
)
    requires
        query_changes::item_step(scope, item, query_change_laws::all_known(visible))
            == ItemStep::Take(event),
    ensures
        item.position == Some(position_of(event)),
        item.event == Ok::<_, Seq<u8>>(event.event),
        event.workbench_id == event.event.workbench_id,
        scope is Workspace ==> scope->0 == event.workbench_id,
        visible(event.commit_version, event.workbench_id) == Some(
            event.event.workspace_incarnation_id,
        ),
{
}

/// The events that a request asks for ascend strictly by commit version and
/// sequence. Each is stored, in scope, visible at its own commit version, and
/// behind the commit version that the request names.
pub proof fn shown_events_ascend(
    root_id: Seq<u8>,
    request: ChangePageRequestView,
    read_version: u64,
    stored: Seq<ChangeItemView>,
    visible: Visibility,
)
    requires
        query_change_laws::in_order(stored),
        page_of(root_id, request, read_version, stored, visible) is Ok,
    ensures
        ({
            let all = asked_for(root_id, request, read_version, stored, visible);
            (forall|i: int, j: int|
                #![trigger all[i], all[j]]
                0 <= i < j < all.len() ==> query_change_laws::position_less(
                    position_of(all[i]),
                    position_of(all[j]),
                )) && (forall|i: int|
                0 <= i < all.len() ==> event_is_due(request, stored, visible, #[trigger] all[i]))
        }),
{
    let marker = ChangeRunView::started(root_id, request, read_version).marker;
    let items = query_change_laws::behind(stored, marker);
    let all = asked_for(root_id, request, read_version, stored, visible);
    behind_is_the_end(stored, marker);
    let skipped = stored.len() - items.len();
    assert forall|i: int| 0 <= i < all.len() implies event_is_due(
        request,
        stored,
        visible,
        #[trigger] all[i],
    ) by {
        let m = shown_event_has_an_item(request.scope, visible, items, i);
        assert(items[m] == stored[skipped + m]);
        shown_event_is_stored(request.scope, visible, items[m], all[i]);
        reads_start_behind(root_id, request, read_version, position_of(all[i]));
    }
    shown_items_ascend(request.scope, visible, stored, skipped);
    assert(items =~= stored.skip(skipped));
}

/// What the last events of a store show ascends.
proof fn shown_items_ascend(
    scope: QueryScopeView,
    visible: Visibility,
    stored: Seq<ChangeItemView>,
    skipped: int,
)
    requires
        query_change_laws::in_order(stored),
        0 <= skipped <= stored.len(),
    ensures
        ({
            let all = shown(scope, visible, stored.skip(skipped));
            forall|i: int, j: int|
                #![trigger all[i], all[j]]
                0 <= i < j < all.len() ==> query_change_laws::position_less(
                    position_of(all[i]),
                    position_of(all[j]),
                )
        }),
{
    let items = stored.skip(skipped);
    let all = shown(scope, visible, items);
    assert forall|i: int, j: int|
        #![trigger all[i], all[j]]
        0 <= i < j < all.len() implies query_change_laws::position_less(
        position_of(all[i]),
        position_of(all[j]),
    ) by {
        let m = shown_event_has_an_item(scope, visible, items, i);
        let behind = items.skip(m + 1);
        assert(all.skip(i + 1)[j - i - 1] == all[j]);
        let n = shown_event_has_an_item(scope, visible, behind, j - i - 1);
        assert(behind[n] == items[m + 1 + n]);
        assert(items[m] == stored[skipped + m]);
        assert(items[m + 1 + n] == stored[skipped + m + 1 + n]);
        shown_event_is_stored(scope, visible, items[m], all[i]);
        shown_event_is_stored(scope, visible, behind[n], all[j]);
        assert(query_change_laws::position_less(
            stored[skipped + m].position->0,
            stored[skipped + m + 1 + n].position->0,
        ));
    }
}

/// An event is stored, in scope, visible at its own commit version, and behind
/// the commit version that a request names.
pub open spec fn event_is_due(
    request: ChangePageRequestView,
    stored: Seq<ChangeItemView>,
    visible: Visibility,
    event: ChangeEventView,
) -> bool {
    &&& exists|k: int|
        0 <= k < stored.len() && (#[trigger] stored[k]).position == Some(position_of(event))
            && stored[k].event == Ok::<_, Seq<u8>>(event.event)
    &&& event.workbench_id == event.event.workbench_id
    &&& request.scope is Workspace ==> request.scope->0 == event.workbench_id
    &&& visible(event.commit_version, event.workbench_id) == Some(
        event.event.workspace_incarnation_id,
    )
    &&& request.after_commit_version is Some ==> event.commit_version
        > request.after_commit_version->0
}

/// A page holds the first of the events that are asked for, at most as many as
/// its limit, and has a cursor exactly where a further one follows.
pub proof fn change_page_holds_the_first_events(
    root_id: Seq<u8>,
    request: ChangePageRequestView,
    read_version: u64,
    stored: Seq<ChangeItemView>,
    visible: Visibility,
)
    requires
        page_of(root_id, request, read_version, stored, visible) is Ok,
    ensures
        ({
            let page = page_of(root_id, request, read_version, stored, visible)->Ok_0;
            let all = asked_for(root_id, request, read_version, stored, visible);
            let end = query_search::page_end(0, request.limit as int, all.len() as int);
            page.events == all.take(end) && (page.next_cursor is Some <==> all.len()
                > request.limit) && page.read_version == read_version
        }),
{
    let run = ChangeRunView::started(root_id, request, read_version);
    let items = query_change_laws::behind(stored, run.marker);
    let all = asked_for(root_id, request, read_version, stored, visible);
    let none = Seq::<ChangeEventView>::empty();
    assert(query_change_laws::left(run, stored) =~= items);
    collected_events_are_shown(run.scope, run.limit, visible, none, items);
    assert(none + all =~= all);
    if all.len() > run.limit {
        assert(all.take(run.limit + 1).take(run.limit as int) =~= all.take(run.limit as int));
    } else {
        assert(all.take(all.len() as int) =~= all);
    }
}

/// All events of a store were committed up to a version.
pub open spec fn committed_by(stored: Seq<ChangeItemView>, read_version: u64) -> bool {
    forall|i: int|
        0 <= i < stored.len() ==> (#[trigger] stored[i]).position is Some && 0
            < (stored[i].position->0).0 <= read_version
}

/// Change pages follow on one another: read with the cursor of a page, at the
/// same or a later version, a store that has only grown gives the page that goes
/// on with the very next event. None is skipped and none repeated, and only a
/// damaged event can keep the page from being read.
pub proof fn change_pages_follow_on(
    root_id: Seq<u8>,
    request: ChangePageRequestView,
    read_version: u64,
    stored: Seq<ChangeItemView>,
    visible: Visibility,
    next_limit: usize,
    later_version: u64,
    later: Seq<ChangeItemView>,
)
    requires
        query_change_laws::in_order(later),
        stored.len() <= later.len(),
        stored == later.take(stored.len() as int),
        committed_by(stored, read_version),
        read_version <= later_version,
        query_catalog::page_check(next_limit) is Ok,
        page_of(root_id, request, read_version, stored, visible) is Ok,
        page_of(root_id, request, read_version, stored, visible)->Ok_0.next_cursor is Some,
    ensures
        ({
            let page = page_of(root_id, request, read_version, stored, visible)->Ok_0;
            let next = ChangePageRequestView {
                cursor: page.next_cursor,
                limit: next_limit,
                ..request
            };
            let all = asked_for(root_id, request, read_version, later, visible);
            let start = request.limit as int;
            let end = query_search::page_end(start, next_limit as int, all.len() as int);
            let result = page_of(root_id, next, later_version, later, visible);
            page.events == all.take(start) && (undamaged(later) ==> result is Ok) && (
            result matches Ok(following) ==> following.events == all.subrange(start, end) && (
            following.next_cursor is Some <==> end < all.len()))
        }),
{
    let scope = request.scope;
    let run = ChangeRunView::started(root_id, request, read_version);
    let page = page_of(root_id, request, read_version, stored, visible)->Ok_0;
    let first = asked_for(root_id, request, read_version, stored, visible);
    let start = request.limit as int;
    change_page_holds_the_first_events(root_id, request, read_version, stored, visible);
    // What is asked for has only grown.
    let had = query_change_laws::behind(stored, run.marker);
    let items = query_change_laws::behind(later, run.marker);
    let grown = later.skip(stored.len() as int);
    assert(had.len() > 0);
    growth_is_behind(stored, later, run.marker);
    shown_of_both(scope, visible, had, grown);
    let all = asked_for(root_id, request, read_version, later, visible);
    assert(all == first + shown(scope, visible, grown));
    assert(all.take(start) =~= first.take(start));
    // The last event of the page, and the item that it stands at.
    let last = all[start - 1];
    let m = shown_event_has_an_item(scope, visible, had, start - 1);
    assert(first[start - 1] == last);
    assert(items[m] == had[m]);
    behind_is_the_end(later, run.marker);
    let k = later.len() - items.len() + m;
    assert(items[m] == later[k]);
    assert(later[k] == stored[k]) by {
        assert(items.len() == had.len() + grown.len());
    }
    assert(stored[k].position == Some(position_of(last)));
    stored_event_is_found(later, k);
    query_change_laws::behind_skips(later, run.marker, m + 1);
    // The items behind it show the events behind it.
    let rest = items.skip(m + 1);
    assert(rest =~= had.skip(m + 1) + grown);
    shown_of_both(scope, visible, had.skip(m + 1), grown);
    assert(shown(scope, visible, rest) =~= all.skip(start));
    // The cursor stands at that item.
    let next = ChangePageRequestView { cursor: page.next_cursor, limit: next_limit, ..request };
    let message = request.message(root_id);
    assert(next.message(root_id) == message);
    assert(query_change_laws::left(run, stored) =~= had);
    let none = Seq::<ChangeEventView>::empty();
    collected_events_are_shown(scope, request.limit, visible, none, had);
    assert(none + first =~= first);
    assert(first.take(start + 1)[start - 1] == last);
    assert(page.next_cursor == Some(
        (query_cursor::CursorView {
            kind: query_cursor::CursorKind::Changes,
            read_version,
            request_digest: digest::sha256(message),
            anchor: query_cursor::change_identity(last.commit_version, last.sequence),
        }).encoding(),
    ));
    query_cursor::change_cursor_resumes_at_its_event(
        last.commit_version,
        last.sequence,
        read_version,
        later_version,
        digest::sha256(message),
        request.after_commit_version,
    );
    let going_on = ChangeRunView::started(root_id, next, later_version);
    assert(going_on.marker == Some(position_of(last)));
    assert(query_change_laws::left(going_on, later) =~= rest);
    assert(page_of(root_id, next, later_version, later, visible)
        == query_change_laws::page_outlook(going_on, visible, rest));
    collected_events_are_shown(scope, next_limit, visible, none, rest);
    let following = shown(scope, visible, rest);
    assert(none + following =~= following);
    let end = query_search::page_end(start, next_limit as int, all.len() as int);
    assert(all.subrange(start, end) =~= following.take(end - start));
    if following.len() > next_limit {
        assert(following.take(next_limit + 1).take(next_limit as int) =~= following.take(
            next_limit as int,
        ));
    } else {
        assert(following.take(following.len() as int) =~= following);
    }
    if undamaged(later) {
        assert forall|i: int| 0 <= i < rest.len() implies (#[trigger] rest[i]).position is Some
            && rest[i].event is Ok by {
            assert(rest[i] == items[m + 1 + i]);
            assert(items[m + 1 + i] == later[k + 1 + i]);
        }
        undamaged_items_are_collected(scope, next_limit, visible, none, rest);
    }
}

} // verus!
