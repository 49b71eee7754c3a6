//! What a whole search visits.
//!
//! The candidate rows of a scope are the stored paths of its visible workspaces,
//! each once. Following the cursors of a search from its first page visits every
//! matching one of them once, in the order of the search.

use vstd::prelude::*;

use crate::digest;
use crate::names;
use crate::ordering;
use crate::query_cursor;
use crate::query_cursor::{CursorKind, CursorView};
use crate::query_page_laws;
use crate::query_rows;
use crate::query_rows::{PathItemView, RowView, VisibleWorkspaceView, WorkspaceItemView};
use crate::query_search;
use crate::query_types::{
    QueryError, QueryFailure, QueryPredicateView, SearchHitView, SearchPageView, SearchRequestView,
};
use crate::store_records::StoreFailure;

verus! {

/// Answers of the path scans of some workspaces.
pub type PathScans = Seq<Result<Seq<PathItemView>, StoreFailure>>;

/// The row of a stored path at or below an optional prefix.
pub open spec fn item_row(
    workbench_id: Seq<u8>,
    item: PathItemView,
    path_prefix: Option<Seq<u8>>,
) -> Option<RowView> {
    match (item.path, item.entry, item.projection) {
        (Some(path), Ok(entry), Ok(projection)) => if path_prefix is Some
            && !query_rows::at_or_below(path, path_prefix->0) {
            None
        } else {
            Some(RowView { workbench_id, path, entry, projection })
        },
        _ => None,
    }
}

/// No path is stored twice.
pub open spec fn paths_distinct(items: Seq<PathItemView>) -> bool {
    forall|i: int, j: int|
        #![trigger items[i], items[j]]
        0 <= i < j < items.len() && items[i].path is Some ==> items[i].path != items[j].path
}

/// The stored paths are paths.
pub open spec fn paths_named(items: Seq<PathItemView>) -> bool {
    forall|i: int|
        0 <= i < items.len() && (#[trigger] items[i]).path is Some ==> items[i].path->0.len()
            <= names::NormalizedRelativePath::MAX_BYTES
}

/// No scan gives a path twice, and all give paths.
pub open spec fn scans_distinct(scans: PathScans) -> bool {
    forall|i: int|
        0 <= i < scans.len() ==> ((#[trigger] scans[i]) matches Ok(items) ==> paths_distinct(items)
            && paths_named(items))
}

/// The row is that of a stored path of one of the workspaces.
pub open spec fn is_stored(
    visible: Seq<VisibleWorkspaceView>,
    scans: PathScans,
    path_prefix: Option<Seq<u8>>,
    row: RowView,
) -> bool {
    exists|i: int, j: int|
        0 <= i < visible.len() && i < scans.len() && scans[i] is Ok && 0 <= j < scans[i]->Ok_0.len()
            && #[trigger] item_row(visible[i].workbench_id, scans[i]->Ok_0[j], path_prefix) == Some(
            row,
        )
}

/// The rows of a workspace are those of its stored paths.
proof fn workspace_rows_are_stored(
    workbench_id: Seq<u8>,
    items: Seq<PathItemView>,
    path_prefix: Option<Seq<u8>>,
)
    ensures
        query_rows::workspace_rows(workbench_id, items, path_prefix) matches Ok(rows) ==> forall|
            row: RowView,
        |
            rows.contains(row) <==> exists|j: int|
                0 <= j < items.len() && #[trigger] item_row(workbench_id, items[j], path_prefix)
                    == Some(row),
    decreases items.len(),
{
    if let Ok(rows) = query_rows::workspace_rows(workbench_id, items, path_prefix) {
        if items.len() > 0 {
            let shorter = items.drop_last();
            let n = items.len() - 1;
            workspace_rows_are_stored(workbench_id, shorter, path_prefix);
            let before = query_rows::workspace_rows(workbench_id, shorter, path_prefix)->Ok_0;
            let last = item_row(workbench_id, items[n], path_prefix);
            assert(rows == match last {
                Some(row) => before.push(row),
                None => before,
            });
            assert forall|row: RowView|
                rows.contains(row) <==> exists|j: int|
                    0 <= j < items.len() && #[trigger] item_row(workbench_id, items[j], path_prefix)
                        == Some(row) by {
                if rows.contains(row) {
                    let k = choose|k: int| 0 <= k < rows.len() && rows[k] == row;
                    if k < before.len() {
                        assert(before[k] == row);
                        assert(before.contains(row));
                        let j = choose|j: int|
                            0 <= j < shorter.len() && #[trigger] item_row(
                                workbench_id,
                                shorter[j],
                                path_prefix,
                            ) == Some(row);
                        assert(shorter[j] == items[j]);
                    } else {
                        assert(item_row(workbench_id, items[n], path_prefix) == Some(row));
                    }
                }
                if exists|j: int|
                    0 <= j < items.len() && #[trigger] item_row(workbench_id, items[j], path_prefix)
                        == Some(row) {
                    let j = choose|j: int|
                        0 <= j < items.len() && #[trigger] item_row(
                            workbench_id,
                            items[j],
                            path_prefix,
                        ) == Some(row);
                    if j < n {
                        assert(shorter[j] == items[j]);
                        assert(before.contains(row));
                        let k = choose|k: int| 0 <= k < before.len() && before[k] == row;
                        assert(rows[k] == row);
                    } else {
                        assert(rows[rows.len() - 1] == row);
                    }
                }
            }
        }
    }
}

/// The rows of a workspace are distinct, as its stored paths are.
proof fn workspace_rows_are_distinct(
    workbench_id: Seq<u8>,
    items: Seq<PathItemView>,
    path_prefix: Option<Seq<u8>>,
)
    requires
        paths_distinct(items),
    ensures
        query_rows::workspace_rows(workbench_id, items, path_prefix) matches Ok(rows)
            ==> query_page_laws::rows_distinct(rows),
    decreases items.len(),
{
    if let Ok(rows) = query_rows::workspace_rows(workbench_id, items, path_prefix) {
        if items.len() > 0 {
            let shorter = items.drop_last();
            let n = items.len() - 1;
            assert forall|i: int, j: int|
                #![trigger shorter[i], shorter[j]]
                0 <= i < j < shorter.len() && shorter[i].path is Some implies shorter[i].path
                != shorter[j].path by {
                assert(shorter[i] == items[i] && shorter[j] == items[j]);
            }
            workspace_rows_are_distinct(workbench_id, shorter, path_prefix);
            workspace_rows_are_stored(workbench_id, shorter, path_prefix);
            let before = query_rows::workspace_rows(workbench_id, shorter, path_prefix)->Ok_0;
            assert forall|i: int, j: int|
                #![trigger rows[i], rows[j]]
                0 <= i < j < rows.len() implies rows[i].workbench_id != rows[j].workbench_id
                || rows[i].path != rows[j].path by {
                assert(rows[i] == before[i]);
                if j < before.len() {
                    assert(rows[j] == before[j]);
                } else {
                    assert(before.contains(before[i]));
                    let k = choose|k: int|
                        0 <= k < shorter.len() && #[trigger] item_row(
                            workbench_id,
                            shorter[k],
                            path_prefix,
                        ) == Some(before[i]);
                    assert(shorter[k] == items[k]);
                    assert(items[k].path != items[n].path);
                }
            }
        }
    }
}

/// The scans but the last are distinct, as all are.
proof fn fewer_scans_are_distinct(scans: PathScans)
    requires
        scans_distinct(scans),
        scans.len() > 0,
    ensures
        scans_distinct(scans.drop_last()),
{
    let shorter = scans.drop_last();
    assert forall|i: int| 0 <= i < shorter.len() implies ((#[trigger] shorter[i]) matches Ok(items)
        ==> paths_distinct(items) && paths_named(items)) by {
        assert(shorter[i] == scans[i]);
    }
}

/// The candidate rows are exactly the stored paths of the visible workspaces at
/// or below the prefix.
pub proof fn collected_rows_are_the_stored_paths(
    visible: Seq<VisibleWorkspaceView>,
    scans: PathScans,
    path_prefix: Option<Seq<u8>>,
)
    requires
        visible.len() == scans.len(),
    ensures
        query_rows::rows_of(visible, scans, path_prefix) matches Ok(rows) ==> forall|row: RowView|
            rows.contains(row) <==> is_stored(visible, scans, path_prefix, row),
    decreases visible.len(),
{
    if let Ok(rows) = query_rows::rows_of(visible, scans, path_prefix) {
        if visible.len() > 0 {
            let fewer = visible.drop_last();
            let others = scans.drop_last();
            let n = visible.len() - 1;
            collected_rows_are_the_stored_paths(fewer, others, path_prefix);
            let before = query_rows::rows_of(fewer, others, path_prefix)->Ok_0;
            let workbench_id = visible[n].workbench_id;
            let items = scans[n]->Ok_0;
            let more = query_rows::workspace_rows(workbench_id, items, path_prefix)->Ok_0;
            workspace_rows_are_stored(workbench_id, items, path_prefix);
            assert(rows == before + more);
            assert forall|row: RowView|
                rows.contains(row) <==> is_stored(visible, scans, path_prefix, row) by {
                if rows.contains(row) {
                    let k = choose|k: int| 0 <= k < rows.len() && rows[k] == row;
                    if k < before.len() {
                        assert(before[k] == row);
                        assert(before.contains(row));
                        let (i, j) = choose|i: int, j: int|
                            0 <= i < fewer.len() && i < others.len() && others[i] is Ok && 0 <= j
                                < others[i]->Ok_0.len() && #[trigger] item_row(
                                fewer[i].workbench_id,
                                others[i]->Ok_0[j],
                                path_prefix,
                            ) == Some(row);
                        assert(fewer[i] == visible[i] && others[i] == scans[i]);
                        assert(item_row(
                            visible[i].workbench_id,
                            scans[i]->Ok_0[j],
                            path_prefix,
                        ) == Some(row));
                    } else {
                        assert(more[k - before.len()] == row);
                        assert(more.contains(row));
                        let j = choose|j: int|
                            0 <= j < items.len() && #[trigger] item_row(
                                workbench_id,
                                items[j],
                                path_prefix,
                            ) == Some(row);
                        assert(item_row(
                            visible[n].workbench_id,
                            scans[n]->Ok_0[j],
                            path_prefix,
                        ) == Some(row));
                    }
                }
                if is_stored(visible, scans, path_prefix, row) {
                    let (i, j) = choose|i: int, j: int|
                        0 <= i < visible.len() && i < scans.len() && scans[i] is Ok && 0 <= j
                            < scans[i]->Ok_0.len() && #[trigger] item_row(
                            visible[i].workbench_id,
                            scans[i]->Ok_0[j],
                            path_prefix,
                        ) == Some(row);
                    if i < n {
                        assert(fewer[i] == visible[i] && others[i] == scans[i]);
                        assert(item_row(
                            fewer[i].workbench_id,
                            others[i]->Ok_0[j],
                            path_prefix,
                        ) == Some(row));
                        assert(is_stored(fewer, others, path_prefix, row));
                        assert(before.contains(row));
                        let k = choose|k: int| 0 <= k < before.len() && before[k] == row;
                        assert(rows[k] == row);
                    } else {
                        assert(more.contains(row));
                        let k = choose|k: int| 0 <= k < more.len() && more[k] == row;
                        assert(rows[before.len() + k] == row);
                    }
                }
            }
        }
    }
}

/// The candidate rows are distinct and named, as the workbenches and the stored
/// paths are.
pub proof fn collected_rows_are_distinct(
    visible: Seq<VisibleWorkspaceView>,
    scans: PathScans,
    path_prefix: Option<Seq<u8>>,
)
    requires
        visible.len() == scans.len(),
        query_page_laws::workbenches_distinct(visible),
        query_page_laws::workbenches_named(visible),
        scans_distinct(scans),
    ensures
        query_rows::rows_of(visible, scans, path_prefix) matches Ok(rows)
            ==> query_page_laws::rows_distinct(rows) && query_page_laws::rows_named(rows),
    decreases visible.len(),
{
    if let Ok(rows) = query_rows::rows_of(visible, scans, path_prefix) {
        if visible.len() > 0 {
            let fewer = visible.drop_last();
            let others = scans.drop_last();
            let n = visible.len() - 1;
            assert forall|i: int, j: int|
                #![trigger fewer[i], fewer[j]]
                0 <= i < j < fewer.len() implies fewer[i].workbench_id != fewer[j].workbench_id by {
                assert(fewer[i] == visible[i] && fewer[j] == visible[j]);
            }
            assert forall|i: int| 0 <= i < fewer.len() implies (
            #[trigger] fewer[i]).workbench_id.len() <= names::WorkbenchId::MAX_BYTES by {
                assert(fewer[i] == visible[i]);
            }
            fewer_scans_are_distinct(scans);
            collected_rows_are_distinct(fewer, others, path_prefix);
            collected_rows_are_the_stored_paths(fewer, others, path_prefix);
            let before = query_rows::rows_of(fewer, others, path_prefix)->Ok_0;
            let workbench_id = visible[n].workbench_id;
            assert(scans[n] == scans.last());
            let items = scans[n]->Ok_0;
            let more = query_rows::workspace_rows(workbench_id, items, path_prefix)->Ok_0;
            workspace_rows_are_distinct(workbench_id, items, path_prefix);
            workspace_rows_are_stored(workbench_id, items, path_prefix);
            assert forall|i: int| 0 <= i < before.len() implies exists|k: int|
                0 <= k < n && (#[trigger] visible[k]).workbench_id == (
                #[trigger] before[i]).workbench_id by {
                assert(before.contains(before[i]));
                let (k, j) = choose|k: int, j: int|
                    0 <= k < fewer.len() && k < others.len() && others[k] is Ok && 0 <= j
                        < others[k]->Ok_0.len() && #[trigger] item_row(
                        fewer[k].workbench_id,
                        others[k]->Ok_0[j],
                        path_prefix,
                    ) == Some(before[i]);
                assert(fewer[k] == visible[k]);
            }
            assert forall|i: int| 0 <= i < more.len() implies (#[trigger] more[i]).workbench_id
                == workbench_id && more[i].path.len()
                <= names::NormalizedRelativePath::MAX_BYTES by {
                assert(more.contains(more[i]));
                let j = choose|j: int|
                    0 <= j < items.len() && #[trigger] item_row(
                        workbench_id,
                        items[j],
                        path_prefix,
                    ) == Some(more[i]);
                assert(items[j].path is Some);
            }
            assert forall|i: int| 0 <= i < rows.len() implies (#[trigger] rows[i]).workbench_id.len()
                <= names::WorkbenchId::MAX_BYTES && rows[i].path.len()
                <= names::NormalizedRelativePath::MAX_BYTES by {
                if i < before.len() {
                    assert(rows[i] == before[i]);
                } else {
                    assert(rows[i] == more[i - before.len()]);
                    assert(visible[n].workbench_id.len() <= names::WorkbenchId::MAX_BYTES);
                }
            }
            assert forall|i: int, j: int|
                #![trigger rows[i], rows[j]]
                0 <= i < j < rows.len() implies rows[i].workbench_id != rows[j].workbench_id
                || rows[i].path != rows[j].path by {
                if j < before.len() {
                    assert(rows[i] == before[i] && rows[j] == before[j]);
                } else if i >= before.len() {
                    assert(rows[i] == more[i - before.len()] && rows[j] == more[j - before.len()]);
                } else {
                    assert(rows[i] == before[i] && rows[j] == more[j - before.len()]);
                    let k = choose|k: int|
                        0 <= k < n && (#[trigger] visible[k]).workbench_id
                            == before[i].workbench_id;
                    assert(visible[k].workbench_id != visible[n].workbench_id);
                }
            }
        }
    }
}

/// No workbench is stored twice.
pub open spec fn markers_distinct(items: Seq<WorkspaceItemView>) -> bool {
    forall|i: int, j: int|
        #![trigger items[i], items[j]]
        0 <= i < j < items.len() && items[i].workbench_id is Some ==> items[i].workbench_id
            != items[j].workbench_id
}

/// The visible workspaces of a root have distinct workbenches, as its stored
/// markers do.
pub proof fn visible_workbenches_are_distinct(items: Seq<WorkspaceItemView>)
    requires
        markers_distinct(items),
    ensures
        query_rows::visible_workspaces(items) matches Ok(visible)
            ==> query_page_laws::workbenches_distinct(visible) && forall|i: int|
            0 <= i < visible.len() ==> exists|k: int|
                0 <= k < items.len() && (#[trigger] items[k]).workbench_id == Some(
                    (#[trigger] visible[i]).workbench_id,
                ),
    decreases items.len(),
{
    if let Ok(visible) = query_rows::visible_workspaces(items) {
        if items.len() > 0 {
            let shorter = items.drop_last();
            let n = items.len() - 1;
            assert forall|i: int, j: int|
                #![trigger shorter[i], shorter[j]]
                0 <= i < j < shorter.len() && shorter[i].workbench_id is Some implies
                shorter[i].workbench_id != shorter[j].workbench_id by {
                assert(shorter[i] == items[i] && shorter[j] == items[j]);
            }
            visible_workbenches_are_distinct(shorter);
            let before = query_rows::visible_workspaces(shorter)->Ok_0;
            assert forall|i: int| 0 <= i < visible.len() implies exists|k: int|
                0 <= k < items.len() && (#[trigger] items[k]).workbench_id == Some(
                    (#[trigger] visible[i]).workbench_id,
                ) by {
                if i < before.len() {
                    assert(visible[i] == before[i]);
                    let k = choose|k: int|
                        0 <= k < shorter.len() && (#[trigger] shorter[k]).workbench_id == Some(
                            before[i].workbench_id,
                        );
                    assert(shorter[k] == items[k]);
                } else {
                    assert(items[n].workbench_id == Some(visible[i].workbench_id));
                }
            }
            assert forall|i: int, j: int|
                #![trigger visible[i], visible[j]]
                0 <= i < j < visible.len() implies visible[i].workbench_id
                != visible[j].workbench_id by {
                assert(visible[i] == before[i]);
                if j < before.len() {
                    assert(visible[j] == before[j]);
                } else {
                    let k = choose|k: int|
                        0 <= k < shorter.len() && (#[trigger] shorter[k]).workbench_id == Some(
                            before[i].workbench_id,
                        );
                    assert(shorter[k] == items[k]);
                    assert(items[k].workbench_id != items[n].workbench_id);
                }
            }
        }
    }
}

/// The matching rows are the rows that all predicates select.
pub proof fn matching_rows_are_the_selected_ones(
    rows: Seq<RowView>,
    predicates: Seq<QueryPredicateView>,
    row: RowView,
)
    ensures
        query_search::matching_rows(rows, predicates).contains(row) <==> rows.contains(row)
            && query_rows::selected(row, predicates),
    decreases rows.len(),
{
    let now = query_search::matching_rows(rows, predicates);
    if rows.len() > 0 {
        let shorter = rows.drop_last();
        let n = rows.len() - 1;
        let before = query_search::matching_rows(shorter, predicates);
        matching_rows_are_the_selected_ones(shorter, predicates, row);
        if now.contains(row) {
            let k = choose|k: int| 0 <= k < now.len() && now[k] == row;
            if k < before.len() {
                assert(before[k] == row);
                let h = choose|h: int| 0 <= h < shorter.len() && shorter[h] == row;
                assert(rows[h] == row);
            } else {
                assert(rows[n] == row);
            }
        }
        if rows.contains(row) && query_rows::selected(row, predicates) {
            let h = choose|h: int| 0 <= h < rows.len() && rows[h] == row;
            if h < n {
                assert(shorter[h] == row);
                let k = choose|k: int| 0 <= k < before.len() && before[k] == row;
                assert(now[k] == row);
            } else {
                assert(now[now.len() - 1] == row);
            }
        }
    }
}

/// The page that a search comes to after following so many cursors, if it comes
/// to one.
pub open spec fn page_reached(
    rows: Seq<RowView>,
    request: SearchRequestView,
    read_version: u64,
    cursors: nat,
) -> Option<SearchPageView>
    decreases cursors,
{
    if cursors == 0 {
        match query_search::search(rows, request, read_version) {
            Ok(page) => Some(page),
            Err(_) => None,
        }
    } else {
        match page_reached(rows, request, read_version, (cursors - 1) as nat) {
            Some(page) => match page.next_cursor {
                Some(cursor) => match query_search::search(
                    rows,
                    SearchRequestView { cursor: Some(cursor), ..request },
                    read_version,
                ) {
                    Ok(page) => Some(page),
                    Err(_) => None,
                },
                None => None,
            },
            None => None,
        }
    }
}

/// The hits of the first pages of a search, one behind the other.
pub open spec fn hits_reached(
    rows: Seq<RowView>,
    request: SearchRequestView,
    read_version: u64,
    pages: nat,
) -> Seq<SearchHitView>
    decreases pages,
{
    if pages == 0 {
        Seq::empty()
    } else {
        let before = hits_reached(rows, request, read_version, (pages - 1) as nat);
        match page_reached(rows, request, read_version, (pages - 1) as nat) {
            Some(page) => before + page.hits,
            None => before,
        }
    }
}

/// The hits of all matching rows, in the order of a search.
pub open spec fn all_hits(rows: Seq<RowView>, request: SearchRequestView) -> Seq<SearchHitView> {
    let sorted = query_search::ordered_rows(
        query_search::matching_rows(rows, request.predicates),
        request.sort,
    );
    Seq::new(sorted.len(), |i: int| query_search::hit_of(sorted[i], request.projection))
}

/// The hits of a search are those of the matching rows, each once.
pub proof fn all_hits_are_the_matches(rows: Seq<RowView>, request: SearchRequestView)
    requires
        query_page_laws::rows_distinct(rows),
        query_page_laws::rows_named(rows),
    ensures
        all_hits(rows, request).len() == query_search::matching_rows(
            rows,
            request.predicates,
        ).len(),
        forall|hit: SearchHitView|
            all_hits(rows, request).contains(hit) <==> exists|row: RowView|
                rows.contains(row) && query_rows::selected(row, request.predicates)
                    && #[trigger] query_search::hit_of(row, request.projection) == hit,
        forall|i: int, j: int|
            #![trigger all_hits(rows, request)[i], all_hits(rows, request)[j]]
            0 <= i < j < all_hits(rows, request).len() ==> all_hits(rows, request)[i].workbench_id
                != all_hits(rows, request)[j].workbench_id || all_hits(rows, request)[i].path
                != all_hits(rows, request)[j].path,
{
    let matching = query_search::matching_rows(rows, request.predicates);
    let sorted = query_search::ordered_rows(matching, request.sort);
    let order = query_search::row_order(matching, request.sort);
    let less = |i: int, j: int| query_search::row_less(matching[i], matching[j], request.sort);
    let hits = all_hits(rows, request);
    query_page_laws::matching_rows_are_a_part(rows, request.predicates);
    query_page_laws::search_order_is_total(matching, request.sort);
    query_page_laws::row_order_is_weak(matching, request.sort);
    assert forall|i: int| 0 <= i < sorted.len() implies #[trigger] sorted[i] == matching[order[i]]
        && 0 <= order[i] < matching.len() by {
        assert(0 <= order[i] < matching.len());
    }
    assert forall|i: int, j: int|
        #![trigger hits[i], hits[j]]
        0 <= i < j < hits.len() implies hits[i].workbench_id != hits[j].workbench_id
        || hits[i].path != hits[j].path by {
        ordering::stable_order_is_distinct(matching.len(), less, i, j);
        assert(sorted[i] == matching[order[i]] && sorted[j] == matching[order[j]]);
        if order[i] < order[j] {
            assert(matching[order[i]].workbench_id != matching[order[j]].workbench_id
                || matching[order[i]].path != matching[order[j]].path);
        } else {
            assert(matching[order[j]].workbench_id != matching[order[i]].workbench_id
                || matching[order[j]].path != matching[order[i]].path);
        }
    }
    assert forall|hit: SearchHitView|
        hits.contains(hit) <==> exists|row: RowView|
            rows.contains(row) && query_rows::selected(row, request.predicates)
                && #[trigger] query_search::hit_of(row, request.projection) == hit by {
        if hits.contains(hit) {
            let i = choose|i: int| 0 <= i < hits.len() && hits[i] == hit;
            assert(sorted[i] == matching[order[i]]);
            assert(matching.contains(sorted[i]));
            matching_rows_are_the_selected_ones(rows, request.predicates, sorted[i]);
            assert(query_search::hit_of(sorted[i], request.projection) == hit);
        }
        if exists|row: RowView|
            rows.contains(row) && query_rows::selected(row, request.predicates)
                && #[trigger] query_search::hit_of(row, request.projection) == hit {
            let row = choose|row: RowView|
                rows.contains(row) && query_rows::selected(row, request.predicates)
                    && #[trigger] query_search::hit_of(row, request.projection) == hit;
            matching_rows_are_the_selected_ones(rows, request.predicates, row);
            let k = choose|k: int| 0 <= k < matching.len() && matching[k] == row;
            assert(order.contains(k));
            let i = choose|i: int| 0 <= i < order.len() && order[i] == k;
            assert(sorted[i] == matching[order[i]]);
            assert(hits[i] == hit);
        }
    }
}

/// The rows that a search visits, in its order.
pub open spec fn visited_rows(rows: Seq<RowView>, request: SearchRequestView) -> Seq<RowView> {
    query_search::ordered_rows(
        query_search::matching_rows(rows, request.predicates),
        request.sort,
    )
}

/// A search visits its rows in strictly ascending order: by the sort fields, then
/// by workbench and path.
pub proof fn visited_rows_ascend(rows: Seq<RowView>, request: SearchRequestView)
    requires
        query_page_laws::rows_distinct(rows),
        query_page_laws::rows_named(rows),
    ensures
        ({
            let visited = visited_rows(rows, request);
            forall|i: int, j: int|
                #![trigger visited[i], visited[j]]
                0 <= i < j < visited.len() ==> query_search::row_less(
                    visited[i],
                    visited[j],
                    request.sort,
                )
        }),
{
    let matching = query_search::matching_rows(rows, request.predicates);
    let visited = visited_rows(rows, request);
    let order = query_search::row_order(matching, request.sort);
    let less = |i: int, j: int| query_search::row_less(matching[i], matching[j], request.sort);
    query_page_laws::matching_rows_are_a_part(rows, request.predicates);
    query_page_laws::search_order_is_total(matching, request.sort);
    query_page_laws::row_order_is_weak(matching, request.sort);
    assert forall|i: int, j: int|
        #![trigger visited[i], visited[j]]
        0 <= i < j < visited.len() implies query_search::row_less(
        visited[i],
        visited[j],
        request.sort,
    ) by {
        let a = order[i];
        let b = order[j];
        assert(0 <= a < matching.len() && 0 <= b < matching.len());
        assert(visited[i] == matching[a] && visited[j] == matching[b]);
        ordering::stable_order_is_distinct(matching.len(), less, i, j);
        assert(ordering::ahead(less, a, b));
        if a < b {
            assert(matching[a].workbench_id != matching[b].workbench_id || matching[a].path
                != matching[b].path);
        } else {
            assert(matching[b].workbench_id != matching[a].workbench_id || matching[b].path
                != matching[a].path);
        }
        query_search::row_less_total(matching[a], matching[b], request.sort);
    }
}

/// Each page that a search comes to holds the hits that follow those of the
/// pages before it: as many as its limit, unless no more follow. All have the
/// same facets.
pub proof fn search_pages_are_reached(
    rows: Seq<RowView>,
    request: SearchRequestView,
    read_version: u64,
    cursors: nat,
)
    requires
        query_page_laws::rows_distinct(rows),
        query_page_laws::rows_named(rows),
        request.cursor is None,
        query_search::search(rows, request, read_version) is Ok,
    ensures
        ({
            let hits = all_hits(rows, request);
            let start = cursors * request.limit;
            let end = query_search::page_end(start, request.limit as int, hits.len() as int);
            let reached = page_reached(rows, request, read_version, cursors);
            (reached is Some <==> cursors == 0 || start < hits.len()) && (reached matches Some(page)
                ==> page.hits == hits.subrange(start, end) && (page.next_cursor is Some <==> end
                < hits.len()) && page.facets == query_search::facets_of(
                query_search::matching_rows(rows, request.predicates),
                request.facets,
            ) && page.read_version == read_version)
        }),
    decreases cursors,
{
    reached_page_is_the_next(rows, request, read_version, cursors);
    let matching = query_search::matching_rows(rows, request.predicates);
    let hits = all_hits(rows, request);
    let start = cursors * request.limit;
    assert(start >= 0) by (nonlinear_arith)
        requires
            start == cursors * request.limit,
    ;
    if let Some(page) = page_reached(rows, request, read_version, cursors) {
        let end = query_search::page_end(start, request.limit as int, hits.len() as int);
        assert(page.hits =~= hits.subrange(start, end));
    }
}

/// The page that a search comes to starts behind the pages before it.
proof fn reached_page_is_the_next(
    rows: Seq<RowView>,
    request: SearchRequestView,
    read_version: u64,
    cursors: nat,
)
    requires
        query_page_laws::rows_distinct(rows),
        query_page_laws::rows_named(rows),
        request.cursor is None,
        query_search::search(rows, request, read_version) is Ok,
    ensures
        request.limit > 0,
        ({
            let matching = query_search::matching_rows(rows, request.predicates);
            let start = cursors * request.limit;
            let total = all_hits(rows, request).len();
            match page_reached(rows, request, read_version, cursors) {
                Some(page) => (cursors == 0 || start < total) && page == query_search::search_page(
                    matching,
                    request,
                    read_version,
                    start,
                ),
                None => cursors > 0 && start >= total,
            }
        }),
    decreases cursors,
{
    let matching = query_search::matching_rows(rows, request.predicates);
    let total = all_hits(rows, request).len();
    let start = cursors * request.limit;
    query_page_laws::search_order_is_total(matching, request.sort);
    assert(request.limit > 0);
    if cursors == 0 {
        assert(start == 0) by (nonlinear_arith)
            requires
                cursors == 0,
                start == cursors * request.limit,
        ;
    } else {
        let fewer = (cursors - 1) as nat;
        let before = fewer * request.limit;
        assert(start == before + request.limit && before >= 0) by (nonlinear_arith)
            requires
                cursors > 0,
                fewer == cursors - 1,
                start == cursors * request.limit,
                before == fewer * request.limit,
        ;
        reached_page_is_the_next(rows, request, read_version, fewer);
        if let Some(page) = page_reached(rows, request, read_version, fewer) {
            if let Some(cursor) = page.next_cursor {
                query_page_laws::cursor_gives_the_next_page(
                    rows,
                    request,
                    read_version,
                    start,
                );
            }
        }
    }
}

/// Following the cursors of a search visits the hits of all matching rows, in
/// order: the first pages hold the first hits, and enough of them hold all.
pub proof fn search_pages_hold_every_match(
    rows: Seq<RowView>,
    request: SearchRequestView,
    read_version: u64,
    pages: nat,
)
    requires
        query_page_laws::rows_distinct(rows),
        query_page_laws::rows_named(rows),
        request.cursor is None,
        query_search::search(rows, request, read_version) is Ok,
    ensures
        hits_reached(rows, request, read_version, pages) == all_hits(rows, request).take(
            query_search::page_end(
                0,
                pages * request.limit,
                all_hits(rows, request).len() as int,
            ),
        ),
        pages * request.limit >= all_hits(rows, request).len() ==> hits_reached(
            rows,
            request,
            read_version,
            pages,
        ) == all_hits(rows, request),
    decreases pages,
{
    let hits = all_hits(rows, request);
    let end = query_search::page_end(0, pages * request.limit, hits.len() as int);
    if pages > 0 {
        let fewer = (pages - 1) as nat;
        let before = fewer * request.limit;
        let so_far = pages * request.limit;
        assert(so_far == before + request.limit && before >= 0) by (nonlinear_arith)
            requires
                pages > 0,
                fewer == pages - 1,
                so_far == pages * request.limit,
                before == fewer * request.limit,
        ;
        search_pages_hold_every_match(rows, request, read_version, fewer);
        search_pages_are_reached(rows, request, read_version, fewer);
        assert(hits_reached(rows, request, read_version, pages) =~= hits.take(end));
    } else {
        assert(0 * request.limit == 0);
        assert(hits.take(0) =~= Seq::<SearchHitView>::empty());
    }
    assert(hits.take(hits.len() as int) =~= hits);
}

/// A page holds as many hits as the limit, unless it is the last one, and the
/// facets of all matching rows.
pub open spec fn page_is_regular(
    rows: Seq<RowView>,
    request: SearchRequestView,
    page: SearchPageView,
) -> bool {
    &&& page.next_cursor is Some ==> page.hits.len() == request.limit
    &&& page.facets == query_search::facets_of(
        query_search::matching_rows(rows, request.predicates),
        request.facets,
    )
}

/// A whole search of stored paths. What its pages together hold is exactly the
/// hits of the stored paths at or below the prefix that match all predicates,
/// each once, in strictly ascending order of the sort fields, then of workbench
/// and path. Every page but the last holds as many hits as the limit, and all
/// have the same facets.
pub proof fn whole_searches_are_exact(
    visible: Seq<VisibleWorkspaceView>,
    scans: PathScans,
    request: SearchRequestView,
    read_version: u64,
    pages: nat,
)
    requires
        visible.len() == scans.len(),
        query_page_laws::workbenches_distinct(visible),
        query_page_laws::workbenches_named(visible),
        scans_distinct(scans),
        query_rows::rows_of(visible, scans, request.path_prefix) is Ok,
        request.cursor is None,
        query_search::search(
            query_rows::rows_of(visible, scans, request.path_prefix)->Ok_0,
            request,
            read_version,
        ) is Ok,
        pages * request.limit >= query_rows::rows_of(
            visible,
            scans,
            request.path_prefix,
        )->Ok_0.len(),
    ensures
        ({
            let rows = query_rows::rows_of(visible, scans, request.path_prefix)->Ok_0;
            let hits = hits_reached(rows, request, read_version, pages);
            let visited = visited_rows(rows, request);
            &&& forall|hit: SearchHitView|
                hits.contains(hit) <==> exists|row: RowView|
                    is_stored(visible, scans, request.path_prefix, row) && query_rows::selected(
                        row,
                        request.predicates,
                    ) && #[trigger] query_search::hit_of(row, request.projection) == hit
            &&& forall|i: int, j: int|
                #![trigger hits[i], hits[j]]
                0 <= i < j < hits.len() ==> hits[i].workbench_id != hits[j].workbench_id
                    || hits[i].path != hits[j].path
            &&& hits == Seq::new(
                visited.len(),
                |i: int| query_search::hit_of(visited[i], request.projection),
            )
            &&& forall|i: int, j: int|
                #![trigger visited[i], visited[j]]
                0 <= i < j < visited.len() ==> query_search::row_less(
                    visited[i],
                    visited[j],
                    request.sort,
                )
            &&& forall|k: nat|
                (#[trigger] page_reached(rows, request, read_version, k)) matches Some(page)
                    ==> page_is_regular(rows, request, page)
        }),
{
    let rows = query_rows::rows_of(visible, scans, request.path_prefix)->Ok_0;
    collected_rows_are_distinct(visible, scans, request.path_prefix);
    collected_rows_are_the_stored_paths(visible, scans, request.path_prefix);
    all_hits_are_the_matches(rows, request);
    matching_rows_are_no_more(rows, request.predicates);
    search_pages_hold_every_match(rows, request, read_version, pages);
    visited_rows_ascend(rows, request);
    assert forall|k: nat|
        (#[trigger] page_reached(rows, request, read_version, k)) matches Some(page)
            ==> page_is_regular(rows, request, page) by {
        reached_page_is_the_next(rows, request, read_version, k);
        search_pages_are_reached(rows, request, read_version, k);
    }
    let hits = hits_reached(rows, request, read_version, pages);
    assert forall|hit: SearchHitView|
        hits.contains(hit) <==> exists|row: RowView|
            is_stored(visible, scans, request.path_prefix, row) && query_rows::selected(
                row,
                request.predicates,
            ) && #[trigger] query_search::hit_of(row, request.projection) == hit by {
        if hits.contains(hit) {
            let row = choose|row: RowView|
                rows.contains(row) && query_rows::selected(row, request.predicates)
                    && #[trigger] query_search::hit_of(row, request.projection) == hit;
            assert(is_stored(visible, scans, request.path_prefix, row));
        }
        if exists|row: RowView|
            is_stored(visible, scans, request.path_prefix, row) && query_rows::selected(
                row,
                request.predicates,
            ) && #[trigger] query_search::hit_of(row, request.projection) == hit {
            let row = choose|row: RowView|
                is_stored(visible, scans, request.path_prefix, row) && query_rows::selected(
                    row,
                    request.predicates,
                ) && #[trigger] query_search::hit_of(row, request.projection) == hit;
            assert(rows.contains(row));
        }
    }
}

/// At most all rows match.
pub proof fn matching_rows_are_no_more(rows: Seq<RowView>, predicates: Seq<QueryPredicateView>)
    ensures
        query_search::matching_rows(rows, predicates).len() <= rows.len(),
    decreases rows.len(),
{
    if rows.len() > 0 {
        matching_rows_are_no_more(rows.drop_last(), predicates);
    }
}

/// The cursor of a search page is refused by every other request, once the
/// digests of the two requests differ.
pub proof fn search_cursors_keep_to_their_request(
    rows: Seq<RowView>,
    request: SearchRequestView,
    other: SearchRequestView,
    read_version: u64,
)
    requires
        query_page_laws::rows_distinct(rows),
        query_page_laws::rows_named(rows),
        query_search::search(rows, request, read_version) is Ok,
        query_search::search(rows, request, read_version)->Ok_0.next_cursor is Some,
        other.cursor == query_search::search(rows, request, read_version)->Ok_0.next_cursor,
        digest::sha256(other.message()) != digest::sha256(request.message()),
        query_search::search(
            rows,
            SearchRequestView { cursor: None, ..other },
            read_version,
        ) is Ok,
    ensures
        query_search::search(rows, other, read_version) == Err::<SearchPageView, QueryFailure>(
            QueryError::CursorQueryMismatch,
        ),
{
    let matching = query_search::matching_rows(rows, request.predicates);
    let identities = query_search::row_identities(
        query_search::ordered_rows(matching, request.sort),
    );
    query_page_laws::matching_rows_are_a_part(rows, request.predicates);
    query_page_laws::ordered_identities_are_distinct(matching, request.sort);
    query_page_laws::pages_start_within(
        request.cursor,
        CursorKind::Search,
        read_version,
        digest::sha256(request.message()),
        identities,
    );
    let start = query_cursor::start_of(
        request.cursor,
        CursorKind::Search,
        read_version,
        digest::sha256(request.message()),
        identities,
    )->Ok_0;
    let end = start + request.limit;
    let cursor = CursorView {
        kind: CursorKind::Search,
        read_version,
        request_digest: digest::sha256(request.message()),
        anchor: identities[end - 1],
    };
    assert(other.cursor == Some(cursor.encoding()));
    let first = SearchRequestView { cursor: None, ..other };
    assert(first.check() == other.check());
    query_page_laws::foreign_cursors_are_refused(
        cursor,
        CursorKind::Search,
        read_version,
        digest::sha256(other.message()),
        query_search::row_identities(
            query_search::ordered_rows(
                query_search::matching_rows(rows, other.predicates),
                other.sort,
            ),
        ),
    );
}

} // verus!
