//! Which workspaces are discovered.
//!
//! A discovery lists every visible workspace that its filter asks for, with the
//! commit head of its incarnation where it has one, in the order of workbench ids.
//! Nothing else about a workspace decides whether it is listed.

use vstd::prelude::*;

use crate::bytes;
use crate::namespace_types::NamespaceError;
use crate::ordering;
use crate::query_discovery;
use crate::query_discovery::{CommitHeadItemView, CommitHeadView};
use crate::query_rows;
use crate::query_rows::{VisibleWorkspaceView, WorkspaceItemView};
use crate::query_types::{
    CommittedFilter, FindWorkspacesPageView, FindWorkspacesRequestView, QueryError, QueryFailure,
    WorkspaceDiscoveryView,
};
use crate::states::WorkspaceState;
use crate::store_records::{
    StoreFailure, WorkbenchCommitHeadRecordView, WorkspaceRecordView,
};

verus! {

/// Each incarnation has at most one head.
pub open spec fn heads_distinct(heads: Seq<CommitHeadView>) -> bool {
    forall|i: int, j: int|
        #![trigger heads[i], heads[j]]
        0 <= i < j < heads.len() ==> heads[i].incarnation_id != heads[j].incarnation_id
}

/// The incarnation has a head.
pub open spec fn has_head(heads: Seq<CommitHeadView>, incarnation_id: Seq<u8>) -> bool {
    exists|i: int| 0 <= i < heads.len() && (#[trigger] heads[i]).incarnation_id == incarnation_id
}

/// The head that is found is the one of the incarnation.
proof fn found_heads_are_listed(heads: Seq<CommitHeadView>, incarnation_id: Seq<u8>)
    ensures
        query_discovery::head_of(heads, incarnation_id) is Some <==> has_head(
            heads,
            incarnation_id,
        ),
        query_discovery::head_of(heads, incarnation_id) matches Some(head) ==> exists|i: int|
            0 <= i < heads.len() && (#[trigger] heads[i]).incarnation_id == incarnation_id
                && heads[i].head == head,
    decreases heads.len(),
{
    if heads.len() > 0 {
        let shorter = heads.drop_last();
        let n = heads.len() - 1;
        found_heads_are_listed(shorter, incarnation_id);
        assert(heads[n] == heads.last());
        if has_head(shorter, incarnation_id) {
            let i = choose|i: int|
                0 <= i < shorter.len() && (#[trigger] shorter[i]).incarnation_id == incarnation_id;
            assert(heads[i] == shorter[i]);
        }
        if has_head(heads, incarnation_id) && heads[n].incarnation_id != incarnation_id {
            let i = choose|i: int|
                0 <= i < heads.len() && (#[trigger] heads[i]).incarnation_id == incarnation_id;
            assert(shorter[i] == heads[i]);
        }
        if let Some(head) = query_discovery::head_of(shorter, incarnation_id) {
            let i = choose|i: int|
                0 <= i < shorter.len() && (#[trigger] shorter[i]).incarnation_id == incarnation_id
                    && shorter[i].head == head;
            assert(heads[i] == shorter[i]);
        }
    }
}

/// The summary is that of the workspace with its head.
pub open spec fn summarizes(
    summary: WorkspaceDiscoveryView,
    workspace: VisibleWorkspaceView,
    heads: Seq<CommitHeadView>,
) -> bool {
    &&& summary.workbench_id == workspace.workbench_id
    &&& summary.workspace_incarnation_id == workspace.workspace.incarnation_id
    &&& summary.workspace_revision == workspace.workspace.workspace_revision
    &&& summary.commit_id is Some <==> has_head(heads, workspace.workspace.incarnation_id)
    &&& summary.commit_head_generation is Some <==> has_head(
        heads,
        workspace.workspace.incarnation_id,
    )
    &&& forall|i: int|
        0 <= i < heads.len() && (#[trigger] heads[i]).incarnation_id
            == workspace.workspace.incarnation_id ==> summary.commit_id == Some(
            heads[i].head.commit_id,
        ) && summary.commit_head_generation == Some(heads[i].head.head_generation)
}

/// What is summarized of a workspace.
proof fn summaries_show_workspaces(
    workspace: VisibleWorkspaceView,
    heads: Seq<CommitHeadView>,
)
    requires
        heads_distinct(heads),
    ensures
        summarizes(
            query_discovery::discovery_of(
                workspace.workbench_id,
                workspace.workspace,
                query_discovery::head_of(heads, workspace.workspace.incarnation_id),
            ),
            workspace,
            heads,
        ),
{
    let incarnation_id = workspace.workspace.incarnation_id;
    found_heads_are_listed(heads, incarnation_id);
    assert forall|i: int|
        0 <= i < heads.len() && (#[trigger] heads[i]).incarnation_id == incarnation_id implies
        query_discovery::head_of(heads, incarnation_id) == Some(heads[i].head) by {
        assert(has_head(heads, incarnation_id));
        let head = query_discovery::head_of(heads, incarnation_id)->0;
        let k = choose|k: int|
            0 <= k < heads.len() && (#[trigger] heads[k]).incarnation_id == incarnation_id
                && heads[k].head == head;
        if i < k {
            assert(heads[i].incarnation_id != heads[k].incarnation_id);
        } else if k < i {
            assert(heads[k].incarnation_id != heads[i].incarnation_id);
        }
    }
}

/// The filter asks for a workspace: for any, for one with a head, or for one
/// without.
pub open spec fn is_asked_for(
    filter: CommittedFilter,
    heads: Seq<CommitHeadView>,
    workspace: VisibleWorkspaceView,
) -> bool {
    ||| filter == CommittedFilter::Any
    ||| filter == CommittedFilter::Committed && has_head(heads, workspace.workspace.incarnation_id)
    ||| filter == CommittedFilter::Uncommitted && !has_head(
        heads,
        workspace.workspace.incarnation_id,
    )
}

/// The discoveries are those of the workspaces that the filter asks for.
proof fn discoveries_are_those_asked_for(
    visible: Seq<VisibleWorkspaceView>,
    heads: Seq<CommitHeadView>,
    filter: CommittedFilter,
)
    requires
        heads_distinct(heads),
    ensures
        ({
            let found = query_discovery::discoveries(visible, heads, filter);
            &&& found.len() <= visible.len()
            &&& forall|i: int|
                0 <= i < found.len() ==> exists|k: int|
                    0 <= k < visible.len() && is_asked_for(filter, heads, #[trigger] visible[k])
                        && summarizes(#[trigger] found[i], visible[k], heads)
            &&& forall|k: int|
                0 <= k < visible.len() && is_asked_for(filter, heads, #[trigger] visible[k])
                    ==> exists|i: int|
                    0 <= i < found.len() && summarizes(#[trigger] found[i], visible[k], heads)
        }),
    decreases visible.len(),
{
    let found = query_discovery::discoveries(visible, heads, filter);
    if visible.len() > 0 {
        let shorter = visible.drop_last();
        let n = visible.len() - 1;
        let before = query_discovery::discoveries(shorter, heads, filter);
        discoveries_are_those_asked_for(shorter, heads, filter);
        found_heads_are_listed(heads, visible[n].workspace.incarnation_id);
        summaries_show_workspaces(visible[n], heads);
        assert(visible[n] == visible.last());
        assert forall|i: int| 0 <= i < found.len() implies exists|k: int|
            0 <= k < visible.len() && is_asked_for(filter, heads, #[trigger] visible[k])
                && summarizes(#[trigger] found[i], visible[k], heads) by {
            if i < before.len() {
                assert(found[i] == before[i]);
                let k = choose|k: int|
                    0 <= k < shorter.len() && is_asked_for(filter, heads, #[trigger] shorter[k])
                        && summarizes(before[i], shorter[k], heads);
                assert(visible[k] == shorter[k]);
            } else {
                assert(is_asked_for(filter, heads, visible[n]));
            }
        }
        assert forall|k: int|
            0 <= k < visible.len() && is_asked_for(filter, heads, #[trigger] visible[k]) implies
            exists|i: int|
                0 <= i < found.len() && summarizes(#[trigger] found[i], visible[k], heads) by {
            if k < n {
                assert(shorter[k] == visible[k]);
                let i = choose|i: int|
                    0 <= i < before.len() && summarizes(#[trigger] before[i], shorter[k], heads);
                assert(found[i] == before[i]);
            } else {
                assert(summarizes(found[found.len() - 1], visible[n], heads));
            }
        }
    }
}

/// The order of summaries by workbench is one.
proof fn discovery_order_is_weak(found: Seq<WorkspaceDiscoveryView>)
    ensures
        ordering::strict_weak(
            found.len(),
            |i: int, j: int| bytes::lex_less(found[i].workbench_id, found[j].workbench_id),
        ),
{
    let less = |i: int, j: int| bytes::lex_less(found[i].workbench_id, found[j].workbench_id);
    assert forall|i: int, j: int|
        #![trigger less(i, j)]
        0 <= i < found.len() && 0 <= j < found.len() && less(i, j) implies !less(j, i) by {
        let a = found[i].workbench_id;
        let b = found[j].workbench_id;
        bytes::lex_less_irreflexive(a);
        if bytes::lex_less(b, a) {
            bytes::lex_less_transitive(a, b, a);
        }
    }
    assert forall|i: int, j: int, k: int|
        #![trigger less(i, k), less(j, k)]
        0 <= i < found.len() && 0 <= j < found.len() && 0 <= k < found.len() && less(i, k) implies
        less(i, j) || less(j, k) by {
        let a = found[i].workbench_id;
        let b = found[j].workbench_id;
        let c = found[k].workbench_id;
        bytes::lex_less_total(a, b);
        if bytes::lex_less(b, a) {
            bytes::lex_less_transitive(b, a, c);
        }
    }
}

/// A discovery without a cursor succeeds exactly for a limit from 1 to 256. Its
/// page holds nothing but summaries of visible workspaces that the filter asks
/// for. Each of those is on the page, or not before the last one of a full page
/// that has a cursor. The page is in the order of workbench ids.
pub proof fn discoveries_list_the_visible_workspaces(
    visible: Seq<VisibleWorkspaceView>,
    heads: Seq<CommitHeadView>,
    request: FindWorkspacesRequestView,
    read_version: u64,
)
    requires
        heads_distinct(heads),
        request.cursor is None,
    ensures
        query_discovery::find_workspaces(visible, heads, request, read_version) is Ok <==> 1
            <= request.limit <= 256,
        !(1 <= request.limit <= 256) ==> query_discovery::find_workspaces(
            visible,
            heads,
            request,
            read_version,
        ) == Err::<FindWorkspacesPageView, QueryFailure>(
            QueryError::InvalidLimit { requested: request.limit, max: 256 },
        ),
        query_discovery::find_workspaces(visible, heads, request, read_version) matches Ok(page)
            ==> {
            &&& page.read_version == read_version
            &&& page.workspaces.len() <= request.limit
            &&& page.next_cursor is Some ==> page.workspaces.len() == request.limit
            &&& forall|i: int|
                0 <= i < page.workspaces.len() ==> exists|k: int|
                    0 <= k < visible.len() && is_asked_for(
                        request.committed,
                        heads,
                        #[trigger] visible[k],
                    ) && summarizes(#[trigger] page.workspaces[i], visible[k], heads)
            &&& forall|i: int, j: int|
                #![trigger page.workspaces[i], page.workspaces[j]]
                0 <= i < j < page.workspaces.len() ==> !bytes::lex_less(
                    page.workspaces[j].workbench_id,
                    page.workspaces[i].workbench_id,
                )
            &&& forall|k: int|
                0 <= k < visible.len() && is_asked_for(
                    request.committed,
                    heads,
                    #[trigger] visible[k],
                ) ==> {
                    ||| exists|i: int|
                        0 <= i < page.workspaces.len() && summarizes(
                            #[trigger] page.workspaces[i],
                            visible[k],
                            heads,
                        )
                    ||| page.next_cursor is Some && !bytes::lex_less(
                        visible[k].workbench_id,
                        page.workspaces.last().workbench_id,
                    )
                }
        },
{
    let filter = request.committed;
    let found = query_discovery::discoveries(visible, heads, filter);
    let sorted = query_discovery::ordered_discoveries(found);
    let less = |i: int, j: int| bytes::lex_less(found[i].workbench_id, found[j].workbench_id);
    let order = ordering::stable_order(found.len(), less);
    discoveries_are_those_asked_for(visible, heads, filter);
    discovery_order_is_weak(found);
    ordering::stable_order_exists(found.len(), less);
    assert forall|i: int, j: int|
        #![trigger sorted[i], sorted[j]]
        0 <= i < j < sorted.len() implies !bytes::lex_less(
        sorted[j].workbench_id,
        sorted[i].workbench_id,
    ) by {
        assert(ordering::ahead(less, order[i], order[j]));
        assert(0 <= order[i] < found.len() && 0 <= order[j] < found.len());
        if less(order[i], order[j]) {
            assert(!less(order[j], order[i]));
        }
    }
    assert forall|i: int| 0 <= i < sorted.len() implies exists|k: int|
        0 <= k < visible.len() && is_asked_for(filter, heads, #[trigger] visible[k]) && summarizes(
            #[trigger] sorted[i],
            visible[k],
            heads,
        ) by {
        assert(0 <= order[i] < found.len());
        assert(sorted[i] == found[order[i]]);
    }
    if let Ok(page) = query_discovery::find_workspaces(visible, heads, request, read_version) {
        let end = page.workspaces.len() as int;
        assert forall|i: int| 0 <= i < end implies #[trigger] page.workspaces[i] == sorted[i] by {}
        assert forall|i: int| 0 <= i < page.workspaces.len() implies exists|k: int|
            0 <= k < visible.len() && is_asked_for(filter, heads, #[trigger] visible[k])
                && summarizes(#[trigger] page.workspaces[i], visible[k], heads) by {
            assert(page.workspaces[i] == sorted[i]);
        }
        assert forall|i: int, j: int|
            #![trigger page.workspaces[i], page.workspaces[j]]
            0 <= i < j < page.workspaces.len() implies !bytes::lex_less(
            page.workspaces[j].workbench_id,
            page.workspaces[i].workbench_id,
        ) by {
            assert(page.workspaces[i] == sorted[i] && page.workspaces[j] == sorted[j]);
        }
        assert forall|k: int|
            0 <= k < visible.len() && is_asked_for(filter, heads, #[trigger] visible[k]) implies ({
            ||| exists|i: int|
                0 <= i < page.workspaces.len() && summarizes(
                    #[trigger] page.workspaces[i],
                    visible[k],
                    heads,
                )
            ||| page.next_cursor is Some && !bytes::lex_less(
                visible[k].workbench_id,
                page.workspaces.last().workbench_id,
            )
        }) by {
            let n = choose|n: int|
                0 <= n < found.len() && summarizes(#[trigger] found[n], visible[k], heads);
            assert(order.contains(n));
            let i = choose|i: int| 0 <= i < order.len() && order[i] == n;
            assert(sorted[i] == found[n]);
            if i < end {
                assert(page.workspaces[i] == sorted[i]);
            } else {
                assert(page.workspaces[end - 1] == sorted[end - 1]);
                assert(!bytes::lex_less(sorted[i].workbench_id, sorted[end - 1].workbench_id));
            }
        }
    }
}

/// The commit heads of a root are those of its stored items: the incarnation is
/// the second half of the key. They are read unless an item has no key of the root
/// or no head, or two items have one key.
pub proof fn stored_heads_are_read(root_id: Seq<u8>, items: Seq<CommitHeadItemView>)
    requires
        root_id.len() == 16,
    ensures
        query_discovery::commit_heads(root_id, items) is Ok <==> (forall|i: int|
            0 <= i < items.len() ==> (#[trigger] items[i]).key.len() == 32 && items[i].key.take(16)
                == root_id && items[i].head is Ok) && (forall|i: int, j: int|
            #![trigger items[i], items[j]]
            0 <= i < j < items.len() ==> items[i].key != items[j].key),
        query_discovery::commit_heads(root_id, items) matches Ok(heads) ==> heads_distinct(heads)
            && heads.len() == items.len() && forall|i: int|
            0 <= i < items.len() ==> (#[trigger] heads[i]).incarnation_id == items[i].key.skip(16)
                && items[i].head == Ok::<_, Seq<u8>>(heads[i].head),
    decreases items.len(),
{
    if items.len() > 0 {
        let shorter = items.drop_last();
        let n = items.len() - 1;
        let item = items[n];
        assert(item == items.last());
        stored_heads_are_read(root_id, shorter);
        assert forall|i: int| 0 <= i < n implies #[trigger] shorter[i] == items[i] by {}
        if let Ok(before) = query_discovery::commit_heads(root_id, shorter) {
            let incarnation_id = item.key.skip(16);
            found_heads_are_listed(before, incarnation_id);
            assert forall|i: int|
                0 <= i < n && item.key.len() == 32 && item.key.take(16) == root_id implies ((
            #[trigger] items[i]).key == item.key <==> before[i].incarnation_id == incarnation_id) by {
                assert(shorter[i] == items[i]);
                assert(items[i].key =~= items[i].key.take(16) + items[i].key.skip(16));
                assert(item.key =~= item.key.take(16) + item.key.skip(16));
            }
            if query_discovery::commit_heads(root_id, items) is Ok {
                let heads = query_discovery::commit_heads(root_id, items)->Ok_0;
                assert(heads == before.push(CommitHeadView { incarnation_id, head: item.head->Ok_0 }));
                assert forall|i: int, j: int|
                    #![trigger items[i], items[j]]
                    0 <= i < j < items.len() implies items[i].key != items[j].key by {
                    if j < n {
                        assert(shorter[i] == items[i] && shorter[j] == items[j]);
                    } else {
                        assert(!has_head(before, incarnation_id));
                        assert(before[i].incarnation_id != incarnation_id);
                    }
                }
                assert forall|i: int, j: int|
                    #![trigger heads[i], heads[j]]
                    0 <= i < j < heads.len() implies heads[i].incarnation_id
                    != heads[j].incarnation_id by {
                    assert(heads[i] == before[i]);
                    if j < n {
                        assert(heads[j] == before[j]);
                    } else {
                        assert(before[i].incarnation_id != incarnation_id);
                    }
                }
                assert forall|i: int| 0 <= i < items.len() implies (
                #[trigger] heads[i]).incarnation_id == items[i].key.skip(16) && items[i].head
                    == Ok::<_, Seq<u8>>(heads[i].head) by {
                    if i < n {
                        assert(heads[i] == before[i] && shorter[i] == items[i]);
                    }
                }
                assert forall|i: int| 0 <= i < items.len() implies (#[trigger] items[i]).key.len()
                    == 32 && items[i].key.take(16) == root_id && items[i].head is Ok by {
                    if i < n {
                        assert(shorter[i] == items[i]);
                    }
                }
            } else if item.key.len() == 32 && item.key.take(16) == root_id && item.head is Ok {
                assert(has_head(before, incarnation_id));
                let i = choose|i: int|
                    0 <= i < before.len() && (#[trigger] before[i]).incarnation_id
                        == incarnation_id;
                assert(items[i].key == items[n].key);
            }
        } else {
            if (forall|i: int|
                0 <= i < items.len() ==> (#[trigger] items[i]).key.len() == 32
                    && items[i].key.take(16) == root_id && items[i].head is Ok) && (forall|
                i: int,
                j: int,
            |
                #![trigger items[i], items[j]]
                0 <= i < j < items.len() ==> items[i].key != items[j].key) {
                assert forall|i: int| 0 <= i < shorter.len() implies (
                #[trigger] shorter[i]).key.len() == 32 && shorter[i].key.take(16) == root_id
                    && shorter[i].head is Ok by {
                    assert(shorter[i] == items[i]);
                }
                assert forall|i: int, j: int|
                    #![trigger shorter[i], shorter[j]]
                    0 <= i < j < shorter.len() implies shorter[i].key != shorter[j].key by {
                    assert(shorter[i] == items[i] && shorter[j] == items[j]);
                }
            }
        }
    }
}

/// The workspaces of the markers whose state is visible.
pub open spec fn visible_markers(items: Seq<WorkspaceItemView>) -> Seq<VisibleWorkspaceView> {
    items.filter(
        |item: WorkspaceItemView| item.record->Ok_0.state == WorkspaceState::Visible,
    ).map_values(
        |item: WorkspaceItemView|
            VisibleWorkspaceView { workbench_id: item.workbench_id->0, workspace: item.record->Ok_0 },
    )
}

/// Every marker has a workbench and a record.
pub open spec fn markers_sound(items: Seq<WorkspaceItemView>) -> bool {
    forall|i: int|
        0 <= i < items.len() ==> (#[trigger] items[i]).workbench_id is Some && items[i].record is Ok
}

/// No two workspaces have one incarnation.
pub open spec fn incarnations_apart(visible: Seq<VisibleWorkspaceView>) -> bool {
    forall|i: int, j: int|
        #![trigger visible[i], visible[j]]
        0 <= i < j < visible.len() ==> visible[i].workspace.incarnation_id
            != visible[j].workspace.incarnation_id
}

/// One more marker adds its workspace where it is visible.
proof fn visible_markers_grow(items: Seq<WorkspaceItemView>)
    requires
        items.len() > 0,
    ensures
        visible_markers(items) == if items.last().record->Ok_0.state == WorkspaceState::Visible {
            visible_markers(items.drop_last()).push(
                VisibleWorkspaceView {
                    workbench_id: items.last().workbench_id->0,
                    workspace: items.last().record->Ok_0,
                },
            )
        } else {
            visible_markers(items.drop_last())
        },
{
    reveal(Seq::filter);
    let before = visible_markers(items.drop_last());
    if items.last().record->Ok_0.state == WorkspaceState::Visible {
        assert(visible_markers(items) =~= before.push(
            VisibleWorkspaceView {
                workbench_id: items.last().workbench_id->0,
                workspace: items.last().record->Ok_0,
            },
        ));
    } else {
        assert(visible_markers(items) =~= before);
    }
}

/// Incarnations stay apart where the next one is not claimed yet.
proof fn next_incarnation_stays_apart(
    before: Seq<VisibleWorkspaceView>,
    next: VisibleWorkspaceView,
)
    ensures
        incarnations_apart(before.push(next)) <==> incarnations_apart(before)
            && !query_rows::claimed(before, next.workspace.incarnation_id),
{
    let now = before.push(next);
    let n = before.len() as int;
    if incarnations_apart(now) {
        assert forall|i: int, j: int|
            #![trigger before[i], before[j]]
            0 <= i < j < before.len() implies before[i].workspace.incarnation_id
            != before[j].workspace.incarnation_id by {
            assert(now[i] == before[i] && now[j] == before[j]);
        }
        assert forall|i: int| 0 <= i < n implies #[trigger] before[i].workspace.incarnation_id
            != next.workspace.incarnation_id by {
            assert(now[i] == before[i] && now[n] == next);
        }
    }
    if incarnations_apart(before) && !query_rows::claimed(before, next.workspace.incarnation_id) {
        assert forall|i: int, j: int|
            #![trigger now[i], now[j]]
            0 <= i < j < now.len() implies now[i].workspace.incarnation_id
            != now[j].workspace.incarnation_id by {
            assert(now[i] == before[i]);
            if j < n {
                assert(now[j] == before[j]);
            }
        }
    }
}

/// The visible workspaces of a root are exactly those of its stored markers whose
/// state is visible, in their order and whatever else the markers hold. They are
/// read unless a marker is damaged or two visible ones have one incarnation.
pub proof fn visible_markers_are_read(items: Seq<WorkspaceItemView>)
    ensures
        query_rows::visible_workspaces(items) is Ok <==> markers_sound(items)
            && incarnations_apart(visible_markers(items)),
        query_rows::visible_workspaces(items) matches Ok(visible) ==> visible == visible_markers(
            items,
        ),
    decreases items.len(),
{
    if items.len() == 0 {
        reveal(Seq::filter);
        assert(visible_markers(items) =~= Seq::<VisibleWorkspaceView>::empty());
    } else {
        let shorter = items.drop_last();
        let n = items.len() - 1;
        visible_markers_are_read(shorter);
        visible_markers_grow(items);
        assert(markers_sound(items) <==> markers_sound(shorter) && items[n].workbench_id is Some
            && items[n].record is Ok) by {
            if markers_sound(items) {
                assert forall|i: int| 0 <= i < shorter.len() implies (
                #[trigger] shorter[i]).workbench_id is Some && shorter[i].record is Ok by {
                    assert(shorter[i] == items[i]);
                }
            }
            if markers_sound(shorter) && items[n].workbench_id is Some && items[n].record is Ok {
                assert forall|i: int| 0 <= i < items.len() implies (
                #[trigger] items[i]).workbench_id is Some && items[i].record is Ok by {
                    if i < n {
                        assert(shorter[i] == items[i]);
                    }
                }
            }
        }
        next_incarnation_stays_apart(
            visible_markers(shorter),
            VisibleWorkspaceView {
                workbench_id: items.last().workbench_id->0,
                workspace: items.last().record->Ok_0,
            },
        );
    }
}

/// A lookup of one workbench gives its summary where it is visible, with its head
/// where one is stored, and nothing where it is not visible. A head that cannot be
/// read makes only the lookup of a visible workbench fail.
pub proof fn lookups_summarize_one_workbench(
    workbench_id: Seq<u8>,
    workspace: WorkspaceRecordView,
    head: Result<Option<Result<WorkbenchCommitHeadRecordView, Seq<u8>>>, StoreFailure>,
    failure: NamespaceError<Seq<u8>, Seq<u8>>,
)
    ensures
        query_discovery::workspace_summary(workbench_id, Ok(None), head) == Ok::<
            Option<WorkspaceDiscoveryView>,
            QueryFailure,
        >(None),
        query_discovery::workspace_summary(workbench_id, Err(failure), head) == Err::<
            Option<WorkspaceDiscoveryView>,
            QueryFailure,
        >(QueryError::Namespace(failure)),
        match head {
            Ok(None) => query_discovery::workspace_summary(
                workbench_id,
                Ok(Some(workspace)),
                head,
            ) == Ok::<Option<WorkspaceDiscoveryView>, QueryFailure>(
                Some(
                    WorkspaceDiscoveryView {
                        workbench_id,
                        workspace_incarnation_id: workspace.incarnation_id,
                        workspace_revision: workspace.workspace_revision,
                        commit_id: None,
                        commit_head_generation: None,
                    },
                ),
            ),
            Ok(Some(Ok(found))) => query_discovery::workspace_summary(
                workbench_id,
                Ok(Some(workspace)),
                head,
            ) == Ok::<Option<WorkspaceDiscoveryView>, QueryFailure>(
                Some(
                    WorkspaceDiscoveryView {
                        workbench_id,
                        workspace_incarnation_id: workspace.incarnation_id,
                        workspace_revision: workspace.workspace_revision,
                        commit_id: Some(found.commit_id),
                        commit_head_generation: Some(found.head_generation),
                    },
                ),
            ),
            Ok(Some(Err(source))) => query_discovery::workspace_summary(
                workbench_id,
                Ok(Some(workspace)),
                head,
            ) == Err::<Option<WorkspaceDiscoveryView>, QueryFailure>(
                QueryError::CommitHeadCodec { source },
            ),
            Err(source) => query_discovery::workspace_summary(
                workbench_id,
                Ok(Some(workspace)),
                head,
            ) == Err::<Option<WorkspaceDiscoveryView>, QueryFailure>(QueryError::Engine(source)),
        },
{
}

} // verus!
