//! What whole listings of a workspace visit, and how creations settle.
//!
//! The laws on listings speak of a store: the paths of one workspace in the
//! order of their keys, of which a scan gives the first ones behind a marker.
//! Those on creations speak of a store that keeps what it has carried out under
//! each request id, and the marker under each key.

use vstd::prelude::*;

use crate::bytes;
use crate::namespace;
use crate::namespace::ExecutedCreationView;
use crate::namespace_types::{
    CreateVisibleWorkspaceResultView, NamespaceError, NamespaceFailure, RootWriteContextView,
    VisiblePathPageView, VisiblePathView,
};
use crate::query_search;
use crate::states::WorkspaceState;
use crate::store_records::{AgentMetadataError, StoreFailure, WorkspaceRecordView};

verus! {

/// A path is a proper descendant of another.
pub open spec fn strictly_below(path: Seq<u8>, ancestor: Seq<u8>) -> bool {
    bytes::has_prefix(path, ancestor.push(47u8))
}

/// The stored paths strictly below an optional prefix, in the order of the
/// store.
pub open spec fn below(stored: Seq<VisiblePathView>, prefix: Option<Seq<u8>>) -> Seq<
    VisiblePathView,
>
    decreases stored.len(),
{
    if stored.len() == 0 {
        Seq::empty()
    } else {
        let before = below(stored.drop_last(), prefix);
        if prefix is Some && !strictly_below(stored.last().path, prefix->0) {
            before
        } else {
            before.push(stored.last())
        }
    }
}

/// The paths behind a marker.
pub open spec fn behind(paths: Seq<VisiblePathView>, marker: Option<Seq<u8>>) -> Seq<VisiblePathView>
    decreases paths.len(),
{
    if marker is None || paths.len() == 0 {
        paths
    } else if paths[0].path == marker->0 {
        paths.drop_first()
    } else {
        behind(paths.drop_first(), marker)
    }
}

/// What a store scans for one page: up to one more path than the page holds.
pub open spec fn scanned(
    paths: Seq<VisiblePathView>,
    marker: Option<Seq<u8>>,
    limit: usize,
) -> Seq<VisiblePathView> {
    let rest = behind(paths, marker);
    if rest.len() > limit + 1 {
        rest.take(limit + 1)
    } else {
        rest
    }
}

/// The page that a listing gives behind a marker.
pub open spec fn page_behind(
    workspace: WorkspaceRecordView,
    limit: usize,
    paths: Seq<VisiblePathView>,
    marker: Option<Seq<u8>>,
) -> Result<VisiblePathPageView, NamespaceFailure> {
    namespace::scanned_page(
        workspace,
        limit,
        Ok(namespace::items_of(scanned(paths, marker, limit))),
    )
}

/// The page that a listing comes to after following so many markers, if it comes
/// to one.
pub open spec fn page_reached(
    workspace: WorkspaceRecordView,
    limit: usize,
    paths: Seq<VisiblePathView>,
    markers: nat,
) -> Option<VisiblePathPageView>
    decreases markers,
{
    if markers == 0 {
        match page_behind(workspace, limit, paths, None) {
            Ok(page) => Some(page),
            Err(_) => None,
        }
    } else {
        match page_reached(workspace, limit, paths, (markers - 1) as nat) {
            Some(page) => match page.next_marker {
                Some(marker) => match page_behind(workspace, limit, paths, Some(marker)) {
                    Ok(page) => Some(page),
                    Err(_) => None,
                },
                None => None,
            },
            None => None,
        }
    }
}

/// The entries of the first pages of a listing, one behind the other.
pub open spec fn entries_reached(
    workspace: WorkspaceRecordView,
    limit: usize,
    paths: Seq<VisiblePathView>,
    pages: nat,
) -> Seq<VisiblePathView>
    decreases pages,
{
    if pages == 0 {
        Seq::empty()
    } else {
        let before = entries_reached(workspace, limit, paths, (pages - 1) as nat);
        match page_reached(workspace, limit, paths, (pages - 1) as nat) {
            Some(page) => before + page.entries,
            None => before,
        }
    }
}

/// No path is stored twice.
pub open spec fn paths_distinct(paths: Seq<VisiblePathView>) -> bool {
    forall|i: int, j: int|
        #![trigger paths[i], paths[j]]
        0 <= i < j < paths.len() ==> paths[i].path != paths[j].path
}

/// The paths behind one of them are the rest.
proof fn behind_is_the_rest(paths: Seq<VisiblePathView>, k: int)
    requires
        paths_distinct(paths),
        0 <= k < paths.len(),
    ensures
        behind(paths, Some(paths[k].path)) == paths.skip(k + 1),
    decreases paths.len(),
{
    let rest = paths.drop_first();
    if k == 0 {
        assert(rest =~= paths.skip(1));
    } else {
        assert(paths[0].path != paths[k].path);
        assert forall|i: int, j: int|
            #![trigger rest[i], rest[j]]
            0 <= i < j < rest.len() implies rest[i].path != rest[j].path by {
            assert(rest[i] == paths[i + 1] && rest[j] == paths[j + 1]);
        }
        assert(rest[k - 1] == paths[k]);
        behind_is_the_rest(rest, k - 1);
        assert(rest.skip(k) =~= paths.skip(k + 1));
    }
}

/// The paths strictly below a prefix are the stored ones that are, each as often
/// as it is stored; the prefix itself is none of them.
pub proof fn paths_below_are_the_descendants(stored: Seq<VisiblePathView>, prefix: Option<Seq<u8>>)
    requires
        paths_distinct(stored),
    ensures
        paths_distinct(below(stored, prefix)),
        forall|path: VisiblePathView| #[trigger]
            below(stored, prefix).contains(path) <==> stored.contains(path) && (prefix is None
                || strictly_below(path.path, prefix->0)),
        forall|i: int|
            0 <= i < below(stored, prefix).len() && prefix is Some ==> (#[trigger] below(
                stored,
                prefix,
            )[i]).path != prefix->0,
    decreases stored.len(),
{
    let now = below(stored, prefix);
    if stored.len() > 0 {
        let shorter = stored.drop_last();
        let n = stored.len() - 1;
        let last = stored[n];
        let before = below(shorter, prefix);
        assert forall|i: int, j: int|
            #![trigger shorter[i], shorter[j]]
            0 <= i < j < shorter.len() implies shorter[i].path != shorter[j].path by {
            assert(shorter[i] == stored[i] && shorter[j] == stored[j]);
        }
        paths_below_are_the_descendants(shorter, prefix);
        let kept = prefix is None || strictly_below(last.path, prefix->0);
        assert(now == if kept {
            before.push(last)
        } else {
            before
        });
        assert forall|path: VisiblePathView| #[trigger]
            now.contains(path) <==> stored.contains(path) && (prefix is None || strictly_below(
                path.path,
                prefix->0,
            )) by {
            if now.contains(path) {
                let k = choose|k: int| 0 <= k < now.len() && now[k] == path;
                if k < before.len() {
                    assert(before[k] == path);
                    assert(before.contains(path));
                    let h = choose|h: int| 0 <= h < shorter.len() && shorter[h] == path;
                    assert(stored[h] == path);
                } else {
                    assert(stored[n] == path);
                }
            }
            if stored.contains(path) && (prefix is None || strictly_below(path.path, prefix->0)) {
                let h = choose|h: int| 0 <= h < stored.len() && stored[h] == path;
                if h < n {
                    assert(shorter[h] == path);
                    assert(shorter.contains(path));
                    assert(before.contains(path));
                    let k = choose|k: int| 0 <= k < before.len() && before[k] == path;
                    assert(now[k] == path);
                } else {
                    assert(now[now.len() - 1] == path);
                }
            }
        }
        assert forall|i: int, j: int|
            #![trigger now[i], now[j]]
            0 <= i < j < now.len() implies now[i].path != now[j].path by {
            assert(now[i] == before[i]);
            if j < before.len() {
                assert(now[j] == before[j]);
            } else {
                assert(before.contains(before[i]));
                let h = choose|h: int| 0 <= h < shorter.len() && shorter[h] == before[i];
                assert(stored[h] == before[i]);
                assert(stored[h].path != stored[n].path);
            }
        }
    }
    assert forall|i: int| 0 <= i < now.len() && prefix is Some implies (#[trigger] now[i]).path
        != prefix->0 by {
        assert(now.contains(now[i]));
    }
}

/// Each page of a listing holds the paths that follow those of the pages before
/// it: as many as its limit, unless no more follow. It carries the path of its
/// last entry as marker exactly where more follow.
pub proof fn path_pages_are_reached(
    workspace: WorkspaceRecordView,
    limit: usize,
    paths: Seq<VisiblePathView>,
    markers: nat,
)
    requires
        workspace.state == WorkspaceState::Visible,
        namespace::page_limit_fits(limit),
        paths_distinct(paths),
    ensures
        ({
            let start = markers * limit;
            let end = query_search::page_end(start, limit as int, paths.len() as int);
            match page_reached(workspace, limit, paths, markers) {
                Some(page) => (markers == 0 || start < paths.len()) && page == VisiblePathPageView {
                    entries: paths.subrange(start, end),
                    next_marker: if end < paths.len() {
                        Some(paths[end - 1].path)
                    } else {
                        None
                    },
                },
                None => markers > 0 && start >= paths.len(),
            }
        }),
    decreases markers,
{
    let start = markers * limit;
    if markers == 0 {
        assert(start == 0) by (nonlinear_arith)
            requires
                markers == 0,
                start == markers * limit,
        ;
        assert(paths.skip(0) =~= paths);
        namespace::path_pages_follow_on(workspace, limit, paths, 0);
    } else {
        let fewer = (markers - 1) as nat;
        let before = fewer * limit;
        assert(start == before + limit && before >= 0) by (nonlinear_arith)
            requires
                markers > 0,
                fewer == markers - 1,
                start == markers * limit,
                before == fewer * limit,
        ;
        path_pages_are_reached(workspace, limit, paths, fewer);
        if start < paths.len() {
            behind_is_the_rest(paths, start - 1);
            namespace::path_pages_follow_on(workspace, limit, paths, start);
        }
    }
}

/// Following the markers of a listing visits every path once, in the order of
/// the store: the first pages hold the first paths, and enough of them hold all.
pub proof fn path_pages_hold_every_path(
    workspace: WorkspaceRecordView,
    limit: usize,
    paths: Seq<VisiblePathView>,
    pages: nat,
)
    requires
        workspace.state == WorkspaceState::Visible,
        namespace::page_limit_fits(limit),
        paths_distinct(paths),
    ensures
        entries_reached(workspace, limit, paths, pages) == paths.take(
            query_search::page_end(0, pages * limit, paths.len() as int),
        ),
        pages * limit >= paths.len() ==> entries_reached(workspace, limit, paths, pages) == paths,
    decreases pages,
{
    let end = query_search::page_end(0, pages * limit, paths.len() as int);
    if pages > 0 {
        let fewer = (pages - 1) as nat;
        let before = fewer * limit;
        let so_far = pages * limit;
        assert(so_far == before + limit && before >= 0) by (nonlinear_arith)
            requires
                pages > 0,
                fewer == pages - 1,
                so_far == pages * limit,
                before == fewer * limit,
        ;
        path_pages_hold_every_path(workspace, limit, paths, fewer);
        path_pages_are_reached(workspace, limit, paths, fewer);
        assert(entries_reached(workspace, limit, paths, pages) =~= paths.take(end));
    } else {
        assert(0 * limit == 0);
        assert(paths.take(0) =~= Seq::<VisiblePathView>::empty());
    }
    assert(paths.take(paths.len() as int) =~= paths);
}

/// The listing of a workspace that is not visible is one empty page.
pub proof fn hidden_listings_are_empty(
    workspace: WorkspaceRecordView,
    limit: usize,
    paths: Seq<VisiblePathView>,
    markers: nat,
)
    requires
        workspace.state != WorkspaceState::Visible,
    ensures
        page_reached(workspace, limit, paths, markers) == if markers == 0 {
            Some(VisiblePathPageView::empty())
        } else {
            None
        },
    decreases markers,
{
    if markers > 0 {
        hidden_listings_are_empty(workspace, limit, paths, (markers - 1) as nat);
    }
}

/// One creation as a store is asked for it.
pub struct CreationView {
    pub schema_id: Seq<char>,
    pub context: RootWriteContextView,
    pub key: Seq<u8>,
    pub payload: Seq<u8>,
    pub event: Seq<u8>,
}

/// A creation that a store has carried out.
pub struct PersistedCreationView {
    pub creation: CreationView,
    pub commit_version: u64,
}

/// A store of markers: what it has carried out under each request id, and the
/// marker under each key.
pub struct MarkerStoreView {
    pub version: u64,
    pub persisted: Map<Seq<u8>, PersistedCreationView>,
    pub markers: Map<Seq<u8>, Seq<u8>>,
}

/// How a store reads the bytes of a marker.
pub type MarkerDecoding = spec_fn(Seq<u8>) -> Result<WorkspaceRecordView, Seq<u8>>;

impl MarkerStoreView {
    /// What the store answers to a creation. A request id that it knows replays
    /// the creation that came under it, or refuses another. A key that has a
    /// marker fails the absence predicate.
    pub open spec fn answer(self, creation: CreationView, decoding: MarkerDecoding) -> Result<
        ExecutedCreationView,
        StoreFailure,
    > {
        let request_id = creation.context.request_id;
        if self.persisted.dom().contains(request_id) {
            if self.persisted[request_id].creation == creation {
                Ok(
                    ExecutedCreationView {
                        deterministic_result: creation.payload,
                        workspace: decoding(creation.payload),
                        commit_version: self.persisted[request_id].commit_version,
                        replayed: true,
                    },
                )
            } else {
                Err(AgentMetadataError::RequestIdReused)
            }
        } else if self.markers.dom().contains(creation.key) {
            Err(AgentMetadataError::PredicateFailed)
        } else {
            Ok(
                ExecutedCreationView {
                    deterministic_result: creation.payload,
                    workspace: decoding(creation.payload),
                    commit_version: (self.version + 1) as u64,
                    replayed: false,
                },
            )
        }
    }

    /// The store with a creation carried out.
    pub open spec fn with(self, creation: CreationView) -> Self {
        let commit_version = (self.version + 1) as u64;
        MarkerStoreView {
            version: commit_version,
            persisted: self.persisted.insert(
                creation.context.request_id,
                PersistedCreationView { creation, commit_version },
            ),
            markers: self.markers.insert(creation.key, creation.payload),
        }
    }
}

/// A creation under a new request id and a key without a marker gives a visible,
/// empty workspace of its incarnation, which reads then show. The same creation
/// again gives the same workspace and commit version, marked as replayed; another
/// one under the same request id is refused as its reuse; and one under a fresh
/// request id finds that the workbench exists.
pub proof fn creations_replay_or_are_refused(
    store: MarkerStoreView,
    decoding: MarkerDecoding,
    workbench_id: Seq<u8>,
    incarnation_id: Seq<u8>,
    creation: CreationView,
    other: CreationView,
    fresh: CreationView,
    other_incarnation_id: Seq<u8>,
)
    requires
        store.version < u64::MAX,
        decoding(creation.payload) == Ok::<WorkspaceRecordView, Seq<u8>>(
            namespace::new_workspace(incarnation_id),
        ),
        !store.persisted.dom().contains(creation.context.request_id),
        !store.markers.dom().contains(creation.key),
        other.context.request_id == creation.context.request_id,
        other != creation,
        fresh.key == creation.key,
        fresh.context.request_id != creation.context.request_id,
        !store.persisted.dom().contains(fresh.context.request_id),
    ensures
        ({
            let created = CreateVisibleWorkspaceResultView {
                workspace: namespace::new_workspace(incarnation_id),
                commit_version: (store.version + 1) as u64,
                replayed: false,
            };
            let after = store.with(creation);
            &&& namespace::settled_creation(
                workbench_id,
                incarnation_id,
                creation.payload,
                store.answer(creation, decoding),
            ) == Ok::<CreateVisibleWorkspaceResultView, NamespaceFailure>(created)
            &&& namespace::settled_creation(
                workbench_id,
                incarnation_id,
                creation.payload,
                after.answer(creation, decoding),
            ) == Ok::<CreateVisibleWorkspaceResultView, NamespaceFailure>(
                CreateVisibleWorkspaceResultView { replayed: true, ..created },
            )
            &&& namespace::settled_creation(
                workbench_id,
                other_incarnation_id,
                other.payload,
                after.answer(other, decoding),
            ) == Err::<CreateVisibleWorkspaceResultView, NamespaceFailure>(
                NamespaceError::Engine(AgentMetadataError::RequestIdReused),
            )
            &&& namespace::settled_creation(
                workbench_id,
                other_incarnation_id,
                fresh.payload,
                after.answer(fresh, decoding),
            ) == Err::<CreateVisibleWorkspaceResultView, NamespaceFailure>(
                NamespaceError::AlreadyExists { workbench_id },
            )
            &&& namespace::visible_workspace(
                Ok(Some(decoding(after.markers[creation.key]))),
            ) == Ok::<Option<WorkspaceRecordView>, NamespaceFailure>(Some(created.workspace))
        }),
{
}

} // verus!
