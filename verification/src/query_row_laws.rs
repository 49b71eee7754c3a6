//! Which rows a query starts from.
//!
//! The candidate rows of a query are the stored paths of its visible workspaces
//! that are at or below its prefix. Nothing else about a path keeps it out.

use vstd::prelude::*;

use crate::namespace_types::NamespaceError;
use crate::query_rows;
use crate::query_rows::{PathItemView, RowView, VisibleWorkspaceView};
use crate::query_types::{QueryError, QueryFailure};
use crate::store_records::{StoreFailure, WorkspaceRecordView};

verus! {

/// The path of an item is at or below the prefix, where there is one.
pub open spec fn is_within(item: PathItemView, path_prefix: Option<Seq<u8>>) -> bool {
    path_prefix matches Some(ancestor) ==> item.path == Some(ancestor) || (item.path
        matches Some(path) && path.len() > ancestor.len() && path.take(ancestor.len() as int)
        == ancestor && path[ancestor.len() as int] == '/' as u8)
}

/// The rows of the items at or below a prefix.
pub open spec fn rows_within(
    workbench_id: Seq<u8>,
    items: Seq<PathItemView>,
    path_prefix: Option<Seq<u8>>,
) -> Seq<RowView> {
    items.filter(|item: PathItemView| is_within(item, path_prefix)).map_values(
        |item: PathItemView|
            RowView {
                workbench_id,
                path: item.path->0,
                entry: item.entry->Ok_0,
                projection: item.projection->Ok_0,
            },
    )
}

/// What is at or below a prefix.
proof fn items_within_are_below(item: PathItemView, ancestor: Seq<u8>)
    requires
        item.path is Some,
    ensures
        query_rows::at_or_below(item.path->0, ancestor) <==> is_within(item, Some(ancestor)),
{
    let path = item.path->0;
    let long = ancestor.push(47u8);
    let n = ancestor.len() as int;
    if crate::bytes::has_prefix(path, long) {
        assert(path.take(n + 1) == long);
        assert(path.take(n + 1)[n] == path[n]);
        assert(path.take(n) =~= path.take(n + 1).take(n));
        assert(long.take(n) =~= ancestor);
    }
    if path.len() > n && path.take(n) == ancestor && path[n] == 47 {
        assert(path.take(n + 1) =~= path.take(n).push(path[n]));
    }
}

/// The rows of a workspace are those of its items at or below the prefix, in
/// their order. They are read unless an item has no path, or one of those has no
/// entry or no projection; a damaged item elsewhere does not matter.
pub proof fn stored_paths_are_rows(
    workbench_id: Seq<u8>,
    items: Seq<PathItemView>,
    path_prefix: Option<Seq<u8>>,
)
    ensures
        query_rows::workspace_rows(workbench_id, items, path_prefix) is Ok <==> forall|i: int|
            0 <= i < items.len() ==> (#[trigger] items[i]).path is Some && (is_within(
                items[i],
                path_prefix,
            ) ==> items[i].entry is Ok && items[i].projection is Ok),
        query_rows::workspace_rows(workbench_id, items, path_prefix) matches Ok(rows) ==> rows
            == rows_within(workbench_id, items, path_prefix),
    decreases items.len(),
{
    reveal(Seq::filter);
    if items.len() == 0 {
        assert(rows_within(workbench_id, items, path_prefix) =~= Seq::<RowView>::empty());
    } else {
        let shorter = items.drop_last();
        let n = items.len() - 1;
        let item = items[n];
        assert(item == items.last());
        stored_paths_are_rows(workbench_id, shorter, path_prefix);
        if item.path is Some && path_prefix is Some {
            items_within_are_below(item, path_prefix->0);
        }
        let before = rows_within(workbench_id, shorter, path_prefix);
        if is_within(item, path_prefix) {
            assert(rows_within(workbench_id, items, path_prefix) =~= before.push(
                RowView {
                    workbench_id,
                    path: item.path->0,
                    entry: item.entry->Ok_0,
                    projection: item.projection->Ok_0,
                },
            ));
        } else {
            assert(rows_within(workbench_id, items, path_prefix) =~= before);
        }
        assert forall|i: int| 0 <= i < n implies #[trigger] shorter[i] == items[i] by {}
        if query_rows::workspace_rows(workbench_id, items, path_prefix) is Ok {
            assert forall|i: int| 0 <= i < items.len() implies (#[trigger] items[i]).path is Some && (
            is_within(items[i], path_prefix) ==> items[i].entry is Ok && items[i].projection
                is Ok) by {
                if i < n {
                    assert(shorter[i] == items[i]);
                }
            }
        } else if forall|i: int|
            0 <= i < items.len() ==> (#[trigger] items[i]).path is Some && (is_within(
                items[i],
                path_prefix,
            ) ==> items[i].entry is Ok && items[i].projection is Ok) {
            assert forall|i: int| 0 <= i < shorter.len() implies (#[trigger] shorter[i]).path is Some
                && (is_within(shorter[i], path_prefix) ==> shorter[i].entry is Ok
                && shorter[i].projection is Ok) by {
                assert(shorter[i] == items[i]);
            }
        }
    }
}

/// The rows of all workspaces, each with its own scan, one behind the other.
pub open spec fn all_rows_within(
    visible: Seq<VisibleWorkspaceView>,
    scans: Seq<Result<Seq<PathItemView>, StoreFailure>>,
    path_prefix: Option<Seq<u8>>,
) -> Seq<RowView> {
    Seq::new(
        visible.len(),
        |k: int| rows_within(visible[k].workbench_id, scans[k]->Ok_0, path_prefix),
    ).flatten()
}

/// The rows of a query are those of all its workspaces. They are read exactly
/// where each scan succeeded and the rows of each workspace are read.
pub proof fn rows_are_of_every_workspace(
    visible: Seq<VisibleWorkspaceView>,
    scans: Seq<Result<Seq<PathItemView>, StoreFailure>>,
    path_prefix: Option<Seq<u8>>,
)
    requires
        visible.len() == scans.len(),
    ensures
        query_rows::rows_of(visible, scans, path_prefix) is Ok <==> forall|k: int|
            0 <= k < visible.len() ==> (#[trigger] scans[k]) is Ok && query_rows::workspace_rows(
                visible[k].workbench_id,
                scans[k]->Ok_0,
                path_prefix,
            ) is Ok,
        query_rows::rows_of(visible, scans, path_prefix) matches Ok(rows) ==> rows
            == all_rows_within(visible, scans, path_prefix),
    decreases visible.len(),
{
    let parts = Seq::new(
        visible.len(),
        |k: int| rows_within(visible[k].workbench_id, scans[k]->Ok_0, path_prefix),
    );
    if visible.len() == 0 {
        assert(parts.flatten() =~= Seq::<RowView>::empty());
    } else {
        let fewer = visible.drop_last();
        let others = scans.drop_last();
        let n = visible.len() - 1;
        rows_are_of_every_workspace(fewer, others, path_prefix);
        assert(scans[n] == scans.last() && visible[n] == visible.last());
        assert forall|k: int| 0 <= k < n implies #[trigger] others[k] == scans[k] && fewer[k]
            == visible[k] by {}
        let before = Seq::new(
            fewer.len(),
            |k: int| rows_within(fewer[k].workbench_id, others[k]->Ok_0, path_prefix),
        );
        assert(parts =~= before.push(parts[n]));
        flattened_with_one_more(before, parts[n]);
        if let Ok(items) = scans[n] {
            stored_paths_are_rows(visible[n].workbench_id, items, path_prefix);
        }
        if query_rows::rows_of(visible, scans, path_prefix) is Ok {
            assert forall|k: int| 0 <= k < visible.len() implies (#[trigger] scans[k]) is Ok
                && query_rows::workspace_rows(
                visible[k].workbench_id,
                scans[k]->Ok_0,
                path_prefix,
            ) is Ok by {
                if k < n {
                    assert(others[k] == scans[k]);
                }
            }
        } else if forall|k: int|
            0 <= k < visible.len() ==> (#[trigger] scans[k]) is Ok && query_rows::workspace_rows(
                visible[k].workbench_id,
                scans[k]->Ok_0,
                path_prefix,
            ) is Ok {
            assert forall|k: int| 0 <= k < fewer.len() implies (#[trigger] others[k]) is Ok
                && query_rows::workspace_rows(
                fewer[k].workbench_id,
                others[k]->Ok_0,
                path_prefix,
            ) is Ok by {
                assert(others[k] == scans[k]);
            }
        }
    }
}

/// One more part stands behind the others.
proof fn flattened_with_one_more(parts: Seq<Seq<RowView>>, part: Seq<RowView>)
    ensures
        parts.push(part).flatten() == parts.flatten() + part,
{
    parts.lemma_flatten_push(part);
}

/// A query of one workbench has its workspace where it is visible, and none where
/// it is not.
pub proof fn workbench_scopes_have_one_workspace(
    workbench_id: Seq<u8>,
    workspace: WorkspaceRecordView,
    source: StoreFailure,
)
    ensures
        query_rows::scoped_workspaces(workbench_id, Ok(None)) == Ok::<
            Seq<VisibleWorkspaceView>,
            QueryFailure,
        >(Seq::empty()),
        query_rows::scoped_workspaces(workbench_id, Ok(Some(workspace))) == Ok::<
            Seq<VisibleWorkspaceView>,
            QueryFailure,
        >(seq![VisibleWorkspaceView { workbench_id, workspace }]),
        query_rows::scoped_workspaces(workbench_id, Err(NamespaceError::Engine(source))) == Err::<
            Seq<VisibleWorkspaceView>,
            QueryFailure,
        >(QueryError::Engine(source)),
{
}

} // verus!
