//! What reads of the namespace show, and what a creation makes.

use vstd::prelude::*;

use crate::bytes;
use crate::namespace;
use crate::namespace::{ExecutedCreationView, MetadataCommand, ScannedPathView};
use crate::namespace_types::{
    CreateVisibleWorkspaceResultView, NamespaceError, NamespaceFailure, RootWriteContextView,
    VisiblePathPageView,
};
use crate::query_rows;
use crate::scalars::QueryScalarView;
use crate::states::WorkspaceState;
use crate::store_records::{
    AgentMetadataError, PathEntryView, StoreFailure, WorkspaceRecordView,
};

verus! {

/// A marker shows its workspace exactly where its state is visible, whatever else
/// it holds. No marker shows nothing, and a damaged one fails.
pub proof fn markers_show_visible_workspaces(workspace: WorkspaceRecordView, source: Seq<u8>)
    ensures
        namespace::visible_workspace(Ok(None)) == Ok::<
            Option<WorkspaceRecordView>,
            NamespaceFailure,
        >(None),
        namespace::visible_workspace(Ok(Some(Ok(workspace)))) == Ok::<
            Option<WorkspaceRecordView>,
            NamespaceFailure,
        >(
            if workspace.state is Visible {
                Some(workspace)
            } else {
                None
            },
        ),
        namespace::visible_workspace(Ok(Some(Err(source)))) == Err::<
            Option<WorkspaceRecordView>,
            NamespaceFailure,
        >(NamespaceError::Codec { record: "WorkspaceCurrent", source }),
{
}

/// A path of a visible workspace shows the entry that is stored under it, and
/// nothing where none is stored.
pub proof fn visible_workspaces_show_their_paths(
    workspace: WorkspaceRecordView,
    entry: PathEntryView,
    source: Seq<u8>,
    failure: StoreFailure,
)
    requires
        workspace.state is Visible,
    ensures
        namespace::visible_path(Ok(Some(Ok(workspace))), Ok(Some(Ok(entry)))) == Ok::<
            Option<PathEntryView>,
            NamespaceFailure,
        >(Some(entry)),
        namespace::visible_path(Ok(Some(Ok(workspace))), Ok(None)) == Ok::<
            Option<PathEntryView>,
            NamespaceFailure,
        >(None),
        namespace::visible_path(Ok(Some(Ok(workspace))), Ok(Some(Err(source)))) == Err::<
            Option<PathEntryView>,
            NamespaceFailure,
        >(NamespaceError::Codec { record: "PathCurrent", source }),
        namespace::visible_path(Ok(Some(Ok(workspace))), Err(failure)) == Err::<
            Option<PathEntryView>,
            NamespaceFailure,
        >(NamespaceError::Engine(failure)),
        namespace::visible_path(Err(failure), Ok(Some(Ok(entry)))) == Err::<
            Option<PathEntryView>,
            NamespaceFailure,
        >(NamespaceError::Engine(failure)),
        namespace::visible_path(Ok(None), Ok(Some(Ok(entry)))) == Ok::<
            Option<PathEntryView>,
            NamespaceFailure,
        >(None),
{
}

/// The entries of scanned paths are those of the items.
proof fn scanned_entries_are_the_items(items: Seq<ScannedPathView>)
    ensures
        namespace::scanned_entries(items) is Ok <==> forall|i: int|
            0 <= i < items.len() ==> (#[trigger] items[i]).path is Some && items[i].entry is Ok,
        namespace::scanned_entries(items) matches Ok(entries) ==> entries.len() == items.len()
            && forall|i: int|
            0 <= i < items.len() ==> items[i].path == Some((#[trigger] entries[i]).path)
                && items[i].entry == Ok::<_, Seq<u8>>(entries[i].entry),
    decreases items.len(),
{
    if items.len() > 0 {
        let shorter = items.drop_last();
        let n = items.len() - 1;
        scanned_entries_are_the_items(shorter);
        assert(items[n] == items.last());
        assert forall|i: int| 0 <= i < n implies #[trigger] shorter[i] == items[i] by {}
        if namespace::scanned_entries(items) is Ok {
            let entries = namespace::scanned_entries(items)->Ok_0;
            let before = namespace::scanned_entries(shorter)->Ok_0;
            assert forall|i: int| 0 <= i < items.len() implies items[i].path == Some(
                (#[trigger] entries[i]).path,
            ) && items[i].entry == Ok::<_, Seq<u8>>(entries[i].entry) by {
                if i < n {
                    assert(entries[i] == before[i] && shorter[i] == items[i]);
                }
            }
            assert forall|i: int| 0 <= i < items.len() implies (#[trigger] items[i]).path is Some
                && items[i].entry is Ok by {
                if i < n {
                    assert(shorter[i] == items[i]);
                }
            }
        } else if forall|i: int|
            0 <= i < items.len() ==> (#[trigger] items[i]).path is Some && items[i].entry is Ok {
            assert forall|i: int| 0 <= i < shorter.len() implies (#[trigger] shorter[i]).path is Some
                && shorter[i].entry is Ok by {
                assert(shorter[i] == items[i]);
            }
        }
    }
}

/// A listing takes a limit from 1 to 255. The page of a visible workspace shows
/// the scanned paths with their entries, as they were scanned and at most as many
/// as the limit. It has the path of its last entry as marker exactly where more
/// were scanned. It fails only where an item is damaged.
pub proof fn listings_show_the_scanned_paths(
    workspace: WorkspaceRecordView,
    limit: usize,
    items: Seq<ScannedPathView>,
)
    requires
        workspace.state is Visible,
    ensures
        ({
            let result = namespace::visible_paths(Ok(Some(Ok(workspace))), limit, Ok(items));
            &&& !(1 <= limit <= 255) ==> result == Err::<VisiblePathPageView, NamespaceFailure>(
                NamespaceError::InvalidPageLimit { requested: limit, max: 255 },
            )
            &&& 1 <= limit <= 255 ==> (result is Ok <==> forall|i: int|
                0 <= i < items.len() ==> (#[trigger] items[i]).path is Some && items[i].entry is Ok)
            &&& result matches Ok(page) ==> {
                &&& page.entries.len() == if items.len() > limit {
                    limit as nat
                } else {
                    items.len()
                }
                &&& forall|i: int|
                    0 <= i < page.entries.len() ==> items[i].path == Some(
                        (#[trigger] page.entries[i]).path,
                    ) && items[i].entry == Ok::<_, Seq<u8>>(page.entries[i].entry)
                &&& page.next_marker == if items.len() > limit {
                    items[limit - 1].path
                } else {
                    None
                }
            }
        }),
{
    scanned_entries_are_the_items(items);
}

/// The marker of a new workspace is visible, at revision zero, and owned by no
/// operation. Its event is the creation of the workspace, of no path, and shows that
/// revision.
pub proof fn new_workspaces_are_visible_and_empty(workbench_id: Seq<u8>, incarnation_id: Seq<u8>)
    ensures
        ({
            let workspace = namespace::new_workspace(incarnation_id);
            &&& workspace.incarnation_id == incarnation_id
            &&& workspace.workspace_revision == 0
            &&& workspace.state is Visible
            &&& workspace.owning_operation_id is None
        }),
        ({
            let event = namespace::creation_event(workbench_id, incarnation_id);
            &&& event.workbench_id == workbench_id
            &&& event.workspace_incarnation_id == incarnation_id
            &&& event.kind is WorkspaceCreated
            &&& event.artifact_revision_id is None
            &&& event.commit_id is None
            &&& event.operation_id is None
            &&& event.path is None
            &&& event.before.len() == 0
            &&& event.after.len() == 1
            &&& event.after[0] == (
                bytes::utf8("workspace.revision"@),
                QueryScalarView::Unsigned(0),
            )
        }),
{
}

/// A command that creates a marker puts it under its key, and only where no marker
/// is and the root is active. It writes nothing else but one event, under the
/// identity and the version of its context.
pub proof fn creations_guard_their_name(
    command: MetadataCommand,
    schema_id: Seq<char>,
    context: RootWriteContextView,
    key: Seq<u8>,
    payload: Seq<u8>,
    event: Seq<u8>,
)
    requires
        command.creates(schema_id, context, key, payload, event),
    ensures
        command.schema_id@ == schema_id,
        command.root_id@ == context.root_id,
        command.logical_shard_id@ == context.logical_shard_id,
        command.placement_generation@ == context.placement_generation,
        command.owner_epoch@ == context.owner_epoch,
        command.request_id@ == context.request_id,
        command.read_version@ == context.read_version,
        command.root_fence_action is RequireActive,
        command.predicates@.len() == 1,
        command.predicates@[0].family is WorkspaceCurrent,
        command.predicates@[0].key@ == key,
        command.predicates@[0].expected is None,
        command.mutations@.len() == 1,
        command.mutations@[0].family is WorkspaceCurrent,
        command.mutations@[0].key@ == key,
        command.mutations@[0].value@ == payload,
        command.history_projection@.len() == 0,
        command.event_projection@.len() == 1,
        command.event_projection@[0]@ == event,
        command.deterministic_result@ == payload,
{
}

/// A creation succeeds exactly where the store carried it out or replayed it and
/// gave back the bytes and the marker that were asked for. A name that is taken is
/// reported as such.
pub proof fn creations_settle_exactly(
    workbench_id: Seq<u8>,
    incarnation_id: Seq<u8>,
    expected: Seq<u8>,
    executed: Result<ExecutedCreationView, StoreFailure>,
)
    ensures
        ({
            let result = namespace::settled_creation(
                workbench_id,
                incarnation_id,
                expected,
                executed,
            );
            &&& result is Ok <==> (executed matches Ok(done) && done.deterministic_result
                == expected && (done.workspace matches Ok(workspace) && workspace.incarnation_id
                == incarnation_id && workspace.workspace_revision == 0 && workspace.state
                == WorkspaceState::Visible && workspace.owning_operation_id is None))
            &&& result matches Ok(created) ==> created.workspace == executed->Ok_0.workspace->Ok_0
                && created.commit_version == executed->Ok_0.commit_version && created.replayed
                == executed->Ok_0.replayed
            &&& executed == Err::<ExecutedCreationView, StoreFailure>(
                AgentMetadataError::PredicateFailed,
            ) ==> result == Err::<CreateVisibleWorkspaceResultView, NamespaceFailure>(
                NamespaceError::AlreadyExists { workbench_id },
            )
        }),
{
}

/// A path is at or below another exactly where it is that path, or that path
/// followed by a slash and more.
pub proof fn paths_lie_below_their_ancestors(candidate: Seq<u8>, ancestor: Seq<u8>)
    ensures
        query_rows::at_or_below(candidate, ancestor) <==> candidate == ancestor || exists|
            rest: Seq<u8>,
        | candidate == #[trigger] (ancestor + seq!['/' as u8] + rest),
{
    let long = ancestor.push(47u8);
    if bytes::has_prefix(candidate, long) {
        let rest = candidate.skip(long.len() as int);
        assert(long =~= ancestor + seq!['/' as u8]);
        assert(candidate =~= candidate.take(long.len() as int) + rest);
    }
    if exists|rest: Seq<u8>| candidate == #[trigger] (ancestor + seq!['/' as u8] + rest) {
        let rest = choose|rest: Seq<u8>|
            candidate == #[trigger] (ancestor + seq!['/' as u8] + rest);
        assert(candidate.take(long.len() as int) =~= long);
    }
}

} // verus!
