//! Authoritative workspace visibility and path-native namespace reads.
//!
//! Every path operation is gated by a visible workspace marker. The caller
//! performs the store reads and hands their answers in.

use vstd::prelude::*;

use crate::bytes;
use crate::ids::{CommandDigest, LogicalShardId, RequestId, RootId, WorkspaceIncarnationId};
use crate::names;
use crate::names::{NameError, NormalizedRelativePath, QueryFieldId, WorkbenchId};
use crate::namespace_types::{
    CreateVisibleWorkspaceResult, CreateVisibleWorkspaceResultView, NamespaceError,
    NamespaceFailure, RootWriteContext, RootWriteContextView, VisiblePath, VisiblePathPage,
    VisiblePathPageView, VisiblePathView, MAX_VISIBLE_PATH_PAGE_SIZE,
};
use crate::positions::{
    CommitVersion, OwnerEpoch, PlacementGeneration, ReadVersion, WorkspaceRevision,
};
use crate::provider_catalog::MetadataFamily;
use crate::query_catalog;
use crate::query_rows;
use crate::scalars::{QueryScalar, QueryScalarView};
use crate::sorted_maps;
use crate::sorted_maps::{Entry, FieldMap};
use crate::states::WorkspaceState;
use crate::store_records;
use crate::store_records::{
    AgentMetadataError, ChangeEventKind, ChangeEventRecord, ChangeEventRecordView, Decoded,
    PathEntry, PathEntryView, PointRead, StoreFailure, TypedProjection, WorkspaceRecord,
    WorkspaceRecordView,
};

verus! {

/// Outcome of a namespace operation, with its result and failure as contents.
pub open spec fn outcome<R: View>(result: Result<R, NamespaceError>) -> Result<
    R::V,
    NamespaceFailure,
> {
    match result {
        Ok(value) => Ok(value@),
        Err(e) => Err(e.model()),
    }
}

/// The visible marker that a read found. Staging and retired incarnations are
/// indistinguishable from an absent workbench.
pub open spec fn visible_workspace(
    read: Result<Option<Result<WorkspaceRecordView, Seq<u8>>>, StoreFailure>,
) -> Result<Option<WorkspaceRecordView>, NamespaceFailure> {
    match read {
        Err(source) => Err(NamespaceError::Engine(source)),
        Ok(None) => Ok(None),
        Ok(Some(Err(source))) => Err(NamespaceError::Codec { record: "WorkspaceCurrent", source }),
        Ok(Some(Ok(workspace))) => if workspace.state == WorkspaceState::Visible {
            Ok(Some(workspace))
        } else {
            Ok(None)
        },
    }
}

/// Resolves a workbench marker from the read of it.
pub fn get_visible_workspace_at(read: PointRead<WorkspaceRecord>) -> (result: Result<
    Option<WorkspaceRecord>,
    NamespaceError,
>)
    ensures
        query_rows::namespace_outcome(result) == visible_workspace(
            store_records::point_read_view(read),
        ),
{
    match read {
        Err(source) => Err(NamespaceError::Engine(source)),
        Ok(None) => Ok(None),
        Ok(Some(Err(source))) => Err(NamespaceError::Codec { record: "WorkspaceCurrent", source }),
        Ok(Some(Ok(workspace))) => {
            if workspace.state == WorkspaceState::Visible {
                Ok(Some(workspace))
            } else {
                Ok(None)
            }
        },
    }
}

/// The entry that a path read found, under a marker.
pub open spec fn visible_entry(
    workspace: WorkspaceRecordView,
    read: Result<Option<Result<PathEntryView, Seq<u8>>>, StoreFailure>,
) -> Result<Option<PathEntryView>, NamespaceFailure> {
    if workspace.state != WorkspaceState::Visible {
        Ok(None)
    } else {
        match read {
            Err(source) => Err(NamespaceError::Engine(source)),
            Ok(None) => Ok(None),
            Ok(Some(Err(source))) => Err(NamespaceError::Codec { record: "PathCurrent", source }),
            Ok(Some(Ok(entry))) => Ok(Some(entry)),
        }
    }
}

/// Gives one exact path under a marker that was resolved at the same read
/// context. A marker that is not visible hides it, whatever was read.
pub fn get_path_at_visible_workspace(
    workspace: &WorkspaceRecord,
    read: PointRead<PathEntry>,
) -> (result: Result<Option<PathEntry>, NamespaceError>)
    ensures
        query_rows::namespace_outcome(result) == visible_entry(
            workspace@,
            store_records::point_read_view(read),
        ),
{
    if workspace.state != WorkspaceState::Visible {
        return Ok(None);
    }
    match read {
        Err(source) => Err(NamespaceError::Engine(source)),
        Ok(None) => Ok(None),
        Ok(Some(Err(source))) => Err(NamespaceError::Codec { record: "PathCurrent", source }),
        Ok(Some(Ok(entry))) => Ok(Some(entry)),
    }
}

/// The entry of one exact path, from the reads of its marker and of the path.
pub open spec fn visible_path(
    workspace: Result<Option<Result<WorkspaceRecordView, Seq<u8>>>, StoreFailure>,
    read: Result<Option<Result<PathEntryView, Seq<u8>>>, StoreFailure>,
) -> Result<Option<PathEntryView>, NamespaceFailure> {
    match visible_workspace(workspace) {
        Err(e) => Err(e),
        Ok(None) => Ok(None),
        Ok(Some(workspace)) => visible_entry(workspace, read),
    }
}

/// Gives one exact normalized path. The path read matters only where the marker
/// is visible.
pub fn get_visible_path_at(
    workspace: PointRead<WorkspaceRecord>,
    read: PointRead<PathEntry>,
) -> (result: Result<Option<PathEntry>, NamespaceError>)
    ensures
        query_rows::namespace_outcome(result) == visible_path(
            store_records::point_read_view(workspace),
            store_records::point_read_view(read),
        ),
{
    match get_visible_workspace_at(workspace) {
        Err(e) => Err(e),
        Ok(None) => Ok(None),
        Ok(Some(workspace)) => get_path_at_visible_workspace(&workspace, read),
    }
}

/// One scanned path: the path of its key, if the key is canonical, and its
/// decoded value.
pub struct ScannedPath {
    pub path: Option<NormalizedRelativePath>,
    pub entry: Decoded<PathEntry>,
}

/// Contents of a [`ScannedPath`].
pub struct ScannedPathView {
    pub path: Option<Seq<u8>>,
    pub entry: Result<PathEntryView, Seq<u8>>,
}

impl View for ScannedPath {
    type V = ScannedPathView;

    open spec fn view(&self) -> ScannedPathView {
        ScannedPathView {
            path: bytes::option_view(self.path),
            entry: store_records::decoded_view(self.entry),
        }
    }
}

/// Answer of a path scan.
pub type PathPageScan = Result<Vec<ScannedPath>, AgentMetadataError>;

/// Contents of an answer of a path scan.
pub open spec fn scan_view(scan: PathPageScan) -> Result<Seq<ScannedPathView>, StoreFailure> {
    match scan {
        Ok(items) => Ok(store_records::views(items@)),
        Err(e) => Err(e.model()),
    }
}

impl VisiblePathPageView {
    /// The page without paths.
    pub open spec fn empty() -> Self {
        VisiblePathPageView { entries: Seq::empty(), next_marker: None }
    }
}

impl VisiblePathPage {
    /// The page without paths.
    pub fn empty() -> (page: Self)
        ensures
            page@ == VisiblePathPageView::empty(),
    {
        let page = Self { entries: Vec::new(), next_marker: None };
        assert(page@.entries =~= Seq::<VisiblePathView>::empty());
        page
    }
}

/// The scanned paths with their entries, or the first failure.
pub open spec fn scanned_entries(items: Seq<ScannedPathView>) -> Result<
    Seq<VisiblePathView>,
    NamespaceFailure,
>
    decreases items.len(),
{
    if items.len() == 0 {
        Ok(Seq::empty())
    } else {
        match scanned_entries(items.drop_last()) {
            Err(e) => Err(e),
            Ok(entries) => match (items.last().path, items.last().entry) {
                (None, _) => Err(
                    NamespaceError::CorruptKey {
                        family: "PathCurrent",
                        reason: bytes::utf8(
                            "key is not the canonical root/workspace/path encoding"@,
                        ),
                    },
                ),
                (_, Err(source)) => Err(NamespaceError::Codec { record: "PathCurrent", source }),
                (Some(path), Ok(entry)) => Ok(entries.push(VisiblePathView { path, entry })),
            },
        }
    }
}

/// A page of at most `limit` of the entries, one of which may be a lookahead.
pub open spec fn path_page(entries: Seq<VisiblePathView>, limit: usize) -> VisiblePathPageView {
    if entries.len() > limit {
        VisiblePathPageView {
            entries: entries.take(limit as int),
            next_marker: Some(entries[limit - 1].path),
        }
    } else {
        VisiblePathPageView { entries, next_marker: None }
    }
}

/// A page holds between one and the maximum number of paths.
pub open spec fn page_limit_fits(limit: usize) -> bool {
    1 <= limit <= MAX_VISIBLE_PATH_PAGE_SIZE
}

/// The page of a scan of up to one more than `limit` paths under a marker.
pub open spec fn scanned_page(
    workspace: WorkspaceRecordView,
    limit: usize,
    scan: Result<Seq<ScannedPathView>, StoreFailure>,
) -> Result<VisiblePathPageView, NamespaceFailure> {
    if workspace.state != WorkspaceState::Visible {
        Ok(VisiblePathPageView::empty())
    } else if !page_limit_fits(limit) {
        Err(
            NamespaceError::InvalidPageLimit {
                requested: limit,
                max: MAX_VISIBLE_PATH_PAGE_SIZE,
            },
        )
    } else {
        match scan {
            Err(source) => Err(NamespaceError::Engine(source)),
            Ok(items) => match scanned_entries(items) {
                Err(e) => Err(e),
                Ok(entries) => Ok(path_page(entries, limit)),
            },
        }
    }
}

/// A failure among the first items is the failure of all of them.
proof fn entry_failure_persists(items: Seq<ScannedPathView>, n: int)
    requires
        0 <= n <= items.len(),
        scanned_entries(items.take(n)) is Err,
    ensures
        scanned_entries(items) == scanned_entries(items.take(n)),
    decreases items.len() - n,
{
    if n < items.len() {
        assert(items.take(n + 1).drop_last() =~= items.take(n));
        entry_failure_persists(items, n + 1);
    } else {
        assert(items.take(n) =~= items);
    }
}

/// Reads the scanned paths.
fn read_entries(items: Vec<ScannedPath>) -> (result: Result<Vec<VisiblePath>, NamespaceError>)
    ensures
        match result {
            Ok(entries) => scanned_entries(store_records::views(items@)) == Ok::<
                Seq<VisiblePathView>,
                NamespaceFailure,
            >(store_records::views(entries@)),
            Err(e) => scanned_entries(store_records::views(items@)) == Err::<
                Seq<VisiblePathView>,
                NamespaceFailure,
            >(e.model()),
        },
{
    let ghost all = store_records::views(items@);
    let ghost listed = items@;
    let mut entries: Vec<VisiblePath> = Vec::new();
    proof {
        assert(all.take(0) =~= Seq::<ScannedPathView>::empty());
        assert(store_records::views(entries@) =~= Seq::<VisiblePathView>::empty());
    }
    for item in it: items.into_iter()
        invariant
            it.seq() == listed,
            all == store_records::views(listed),
            scanned_entries(all.take(it.index() as int)) == Ok::<
                Seq<VisiblePathView>,
                NamespaceFailure,
            >(store_records::views(entries@)),
    {
        let ghost n = it.index() as int;
        let ghost before = store_records::views(entries@);
        proof {
            assert(item == listed[n]);
            assert(all.take(n + 1).last() == item@);
            assert(all.take(n + 1).drop_last() =~= all.take(n));
            if scanned_entries(all.take(n + 1)) is Err {
                entry_failure_persists(all, n + 1);
            }
        }
        let path = match item.path {
            Some(path) => path,
            None => {
                return Err(
                    NamespaceError::CorruptKey {
                        family: "PathCurrent",
                        reason: "key is not the canonical root/workspace/path encoding".to_owned(),
                    },
                );
            },
        };
        let entry = match item.entry {
            Ok(entry) => entry,
            Err(source) => {
                return Err(NamespaceError::Codec { record: "PathCurrent", source });
            },
        };
        let visible = VisiblePath { path, entry };
        entries.push(visible);
        assert(store_records::views(entries@) =~= before.push(visible@));
    }
    assert(all.take(all.len() as int) =~= all);
    Ok(entries)
}

/// Number of items that a scan for a page asks the store for: one more than the
/// page holds.
pub fn scan_limit(limit: usize) -> (items: usize)
    requires
        page_limit_fits(limit),
    ensures
        items == limit + 1,
{
    limit + 1
}

/// Checks a page limit, before any path is scanned.
pub fn validate_page_limit(limit: usize) -> (result: Result<(), NamespaceError>)
    ensures
        match result {
            Ok(()) => page_limit_fits(limit),
            Err(e) => !page_limit_fits(limit) && e.model() == NamespaceError::<
                Seq<u8>,
                Seq<u8>,
            >::InvalidPageLimit { requested: limit, max: MAX_VISIBLE_PATH_PAGE_SIZE },
        },
{
    if 1 <= limit && limit <= MAX_VISIBLE_PATH_PAGE_SIZE {
        Ok(())
    } else {
        Err(
            NamespaceError::InvalidPageLimit {
                requested: limit,
                max: MAX_VISIBLE_PATH_PAGE_SIZE,
            },
        )
    }
}

/// Gives one page of normalized paths under a marker that was resolved at the
/// same read context. The scan asked for up to [`scan_limit`] items behind the
/// start of the page.
pub fn scan_paths_at_visible_workspace(
    workspace: &WorkspaceRecord,
    limit: usize,
    scan: PathPageScan,
) -> (result: Result<VisiblePathPage, NamespaceError>)
    ensures
        outcome(result) == scanned_page(workspace@, limit, scan_view(scan)),
{
    if workspace.state != WorkspaceState::Visible {
        return Ok(VisiblePathPage::empty());
    }
    match validate_page_limit(limit) {
        Ok(()) => {},
        Err(e) => {
            return Err(e);
        },
    }
    let items = match scan {
        Ok(items) => items,
        Err(source) => {
            return Err(NamespaceError::Engine(source));
        },
    };
    let mut entries = match read_entries(items) {
        Ok(entries) => entries,
        Err(e) => {
            return Err(e);
        },
    };
    let ghost all = store_records::views(entries@);
    if entries.len() > limit {
        entries.truncate(limit);
        assert(store_records::views(entries@) =~= all.take(limit as int));
        assert(all[limit - 1] == entries@[limit - 1]@);
        let next_marker = Some(entries[limit - 1].path.clone());
        return Ok(VisiblePathPage { entries, next_marker });
    }
    Ok(VisiblePathPage { entries, next_marker: None })
}

/// The page of the paths of one workbench.
pub open spec fn visible_paths(
    workspace: Result<Option<Result<WorkspaceRecordView, Seq<u8>>>, StoreFailure>,
    limit: usize,
    scan: Result<Seq<ScannedPathView>, StoreFailure>,
) -> Result<VisiblePathPageView, NamespaceFailure> {
    if !page_limit_fits(limit) {
        Err(
            NamespaceError::InvalidPageLimit {
                requested: limit,
                max: MAX_VISIBLE_PATH_PAGE_SIZE,
            },
        )
    } else {
        match visible_workspace(workspace) {
            Err(e) => Err(e),
            Ok(None) => Ok(VisiblePathPageView::empty()),
            Ok(Some(workspace)) => scanned_page(workspace, limit, scan),
        }
    }
}

/// Gives one page of all normalized full paths of one workbench. The scan
/// matters only where the marker is visible.
pub fn scan_visible_paths_at(
    workspace: PointRead<WorkspaceRecord>,
    limit: usize,
    scan: PathPageScan,
) -> (result: Result<VisiblePathPage, NamespaceError>)
    ensures
        outcome(result) == visible_paths(
            store_records::point_read_view(workspace),
            limit,
            scan_view(scan),
        ),
{
    match validate_page_limit(limit) {
        Ok(()) => {},
        Err(e) => {
            return Err(e);
        },
    }
    match get_visible_workspace_at(workspace) {
        Err(e) => Err(e),
        Ok(None) => Ok(VisiblePathPage::empty()),
        Ok(Some(workspace)) => scan_paths_at_visible_workspace(&workspace, limit, scan),
    }
}

/// Marker of a new workspace: visible at once, with nothing in it.
pub open spec fn new_workspace(incarnation_id: Seq<u8>) -> WorkspaceRecordView {
    WorkspaceRecordView {
        incarnation_id,
        workspace_revision: 0,
        state: WorkspaceState::Visible,
        owning_operation_id: None,
    }
}

/// Marker of a new workspace: visible at once, with nothing in it.
pub fn new_workspace_record(incarnation_id: WorkspaceIncarnationId) -> (workspace: WorkspaceRecord)
    ensures
        workspace@ == new_workspace(incarnation_id@),
{
    WorkspaceRecord {
        incarnation_id,
        workspace_revision: WorkspaceRevision::new(0),
        state: WorkspaceState::Visible,
        owning_operation_id: None,
    }
}

/// Event of a new workspace: it shows the first revision.
pub open spec fn creation_event(workbench_id: Seq<u8>, incarnation_id: Seq<u8>) -> ChangeEventRecordView {
    ChangeEventRecordView {
        workbench_id,
        workspace_incarnation_id: incarnation_id,
        kind: ChangeEventKind::WorkspaceCreated,
        artifact_revision_id: None,
        commit_id: None,
        operation_id: None,
        path: None,
        before: Seq::empty(),
        after: seq![(bytes::utf8("workspace.revision"@), QueryScalarView::Unsigned(0))],
    }
}

/// The name of the revision field is a field id.
proof fn revision_name_is_id()
    ensures
        names::field_id_check(bytes::utf8("workspace.revision"@)) == Ok::<(), NameError>(()),
{
    reveal_strlit("workspace.revision");
    assert forall|i: int| 0 <= i < "workspace.revision"@.len() implies '\0'
        <= #[trigger] "workspace.revision"@[i] <= '\u{7f}' && names::is_field_byte(
        "workspace.revision"@[i] as u8,
    ) by {
        assert(i == 0 || i == 1 || i == 2 || i == 3 || i == 4 || i == 5 || i == 6 || i == 7 || i
            == 8 || i == 9 || i == 10 || i == 11 || i == 12 || i == 13 || i == 14 || i == 15 || i
            == 16 || i == 17);
    }
    query_catalog::field_text_is_id("workspace.revision"@);
}

/// Event of a new workspace.
pub fn creation_event_record(workbench_id: &WorkbenchId, incarnation_id: WorkspaceIncarnationId) -> (event:
    ChangeEventRecord)
    ensures
        event@ == creation_event(workbench_id@, incarnation_id@),
{
    proof {
        revision_name_is_id();
    }
    let before: TypedProjection = FieldMap::new();
    let mut after: TypedProjection = FieldMap::new();
    match QueryFieldId::new("workspace.revision") {
        Ok(field) => {
            after.insert(field, QueryScalar::Unsigned(0));
        },
        Err(_) => {},
    }
    proof {
        let one = seq![(bytes::utf8("workspace.revision"@), QueryScalarView::Unsigned(0))];
        let none = Seq::<Entry<QueryScalarView>>::empty();
        assert forall|field: Seq<u8>| #[trigger]
            sorted_maps::lookup(after@, field) == sorted_maps::lookup(one, field) by {
            assert(one.drop_last() =~= none);
            reveal_with_fuel(sorted_maps::lookup, 2);
        }
        sorted_maps::lookups_determine_the_map(after@, one);
    }
    ChangeEventRecord {
        workbench_id: workbench_id.clone(),
        workspace_incarnation_id: incarnation_id,
        kind: ChangeEventKind::WorkspaceCreated,
        artifact_revision_id: None,
        commit_id: None,
        operation_id: None,
        path: None,
        before,
        after,
    }
}

/// What the root fence must show for a command.
#[derive(Clone, Copy, Debug, PartialEq, Eq, Structural)]
pub enum RootFenceAction {
    RequireActive,
}

/// A condition on one stored value.
#[derive(Debug, PartialEq, Eq)]
pub struct ValuePredicate {
    pub family: MetadataFamily,
    pub key: Vec<u8>,
    /// The value that must be stored; nothing means that none may be.
    pub expected: Option<Vec<u8>>,
}

/// A value to be stored.
#[derive(Debug, PartialEq, Eq)]
pub struct PutMutation {
    pub family: MetadataFamily,
    pub key: Vec<u8>,
    pub value: Vec<u8>,
}

/// One metadata command, before it is sealed.
#[derive(Debug, PartialEq, Eq)]
pub struct MetadataCommand {
    /// Name of the schema that the store was created with.
    pub schema_id: String,
    pub root_id: RootId,
    pub logical_shard_id: LogicalShardId,
    pub placement_generation: PlacementGeneration,
    pub owner_epoch: OwnerEpoch,
    pub request_id: RequestId,
    pub command_digest: CommandDigest,
    pub read_version: ReadVersion,
    pub root_fence_action: RootFenceAction,
    pub predicates: Vec<ValuePredicate>,
    pub mutations: Vec<PutMutation>,
    /// Bytes of the history entries that the command writes.
    pub history_projection: Vec<Vec<u8>>,
    pub event_projection: Vec<Vec<u8>>,
    pub deterministic_result: Vec<u8>,
}

/// Encoded parts of a creation: the name of the schema, the key of the marker,
/// the marker, and the event.
pub struct EncodedCreation {
    pub schema_id: String,
    pub key: Vec<u8>,
    pub workspace: Decoded<Vec<u8>>,
    pub event: Decoded<Vec<u8>>,
}

impl MetadataCommand {
    /// The command creates the marker under the context and the schema: it
    /// requires an active root and no marker under the key, puts the payload
    /// there, writes no history, and gives the payload as its result.
    pub open spec fn creates(
        self,
        schema_id: Seq<char>,
        context: RootWriteContextView,
        key: Seq<u8>,
        payload: Seq<u8>,
        event: Seq<u8>,
    ) -> bool {
        &&& self.schema_id@ == schema_id
        &&& self.root_id@ == context.root_id
        &&& self.logical_shard_id@ == context.logical_shard_id
        &&& self.placement_generation@ == context.placement_generation
        &&& self.owner_epoch@ == context.owner_epoch
        &&& self.request_id@ == context.request_id
        &&& self.command_digest@ == Seq::new(32, |i: int| 0u8)
        &&& self.read_version@ == context.read_version
        &&& self.root_fence_action == RootFenceAction::RequireActive
        &&& self.predicates@.len() == 1
        &&& self.predicates@[0].family == MetadataFamily::WorkspaceCurrent
        &&& self.predicates@[0].key@ == key
        &&& self.predicates@[0].expected is None
        &&& self.mutations@.len() == 1
        &&& self.mutations@[0].family == MetadataFamily::WorkspaceCurrent
        &&& self.mutations@[0].key@ == key
        &&& self.mutations@[0].value@ == payload
        &&& self.history_projection@.len() == 0
        &&& self.event_projection@.len() == 1
        &&& self.event_projection@[0]@ == event
        &&& self.deterministic_result@ == payload
    }
}

/// Builds the command that creates one workbench name as an immediately
/// visible, empty workspace. The name is guarded by an exact absence predicate.
pub fn create_visible_workspace(context: RootWriteContext, encoded: EncodedCreation) -> (result: Result<
    MetadataCommand,
    NamespaceError,
>)
    ensures
        match (encoded.workspace, encoded.event) {
            (Err(source), _) => result matches Err(e) && e.model() == NamespaceError::<
                Seq<u8>,
                Seq<u8>,
            >::Codec { record: "WorkspaceCurrent", source: bytes::utf8(source@) },
            (Ok(_), Err(source)) => result matches Err(e) && e.model() == NamespaceError::<
                Seq<u8>,
                Seq<u8>,
            >::QueryRecord(bytes::utf8(source@)),
            (Ok(payload), Ok(event)) => result matches Ok(command) && command.creates(
                encoded.schema_id@,
                context@,
                encoded.key@,
                payload@,
                event@,
            ),
        },
{
    let payload = match encoded.workspace {
        Ok(payload) => payload,
        Err(source) => {
            return Err(NamespaceError::Codec { record: "WorkspaceCurrent", source });
        },
    };
    let event = match encoded.event {
        Ok(event) => event,
        Err(source) => {
            return Err(NamespaceError::QueryRecord(source));
        },
    };
    let mut predicates: Vec<ValuePredicate> = Vec::new();
    predicates.push(
        ValuePredicate {
            family: MetadataFamily::WorkspaceCurrent,
            key: vstd::slice::slice_to_vec(encoded.key.as_slice()),
            expected: None,
        },
    );
    let mut mutations: Vec<PutMutation> = Vec::new();
    mutations.push(
        PutMutation {
            family: MetadataFamily::WorkspaceCurrent,
            key: encoded.key,
            value: vstd::slice::slice_to_vec(payload.as_slice()),
        },
    );
    let mut event_projection: Vec<Vec<u8>> = Vec::new();
    event_projection.push(event);
    let zero: [u8; 32] = [0; 32];
    assert(zero@ =~= Seq::new(32, |i: int| 0u8));
    Ok(
        MetadataCommand {
            schema_id: encoded.schema_id,
            root_id: context.root_id,
            logical_shard_id: context.logical_shard_id,
            placement_generation: context.placement_generation,
            owner_epoch: context.owner_epoch,
            request_id: context.request_id,
            command_digest: CommandDigest::from_bytes(zero),
            read_version: context.read_version,
            root_fence_action: RootFenceAction::RequireActive,
            predicates,
            mutations,
            history_projection: Vec::new(),
            event_projection,
            deterministic_result: payload,
        },
    )
}

/// What the execution of a creation gave back.
pub struct ExecutedCreation {
    /// Bytes of the persisted result.
    pub deterministic_result: Vec<u8>,
    /// The persisted result, decoded.
    pub workspace: Decoded<WorkspaceRecord>,
    pub commit_version: CommitVersion,
    pub replayed: bool,
}

/// Contents of an [`ExecutedCreation`].
pub struct ExecutedCreationView {
    pub deterministic_result: Seq<u8>,
    pub workspace: Result<WorkspaceRecordView, Seq<u8>>,
    pub commit_version: u64,
    pub replayed: bool,
}

impl View for ExecutedCreation {
    type V = ExecutedCreationView;

    open spec fn view(&self) -> ExecutedCreationView {
        ExecutedCreationView {
            deterministic_result: self.deterministic_result@,
            workspace: store_records::decoded_view(self.workspace),
            commit_version: self.commit_version@,
            replayed: self.replayed,
        }
    }
}

/// The outcome of a creation: the persisted result, where it is exactly the one
/// that was asked for.
pub open spec fn settled_creation(
    workbench_id: Seq<u8>,
    incarnation_id: Seq<u8>,
    expected: Seq<u8>,
    executed: Result<ExecutedCreationView, StoreFailure>,
) -> Result<CreateVisibleWorkspaceResultView, NamespaceFailure> {
    match executed {
        Err(AgentMetadataError::PredicateFailed) => Err(
            NamespaceError::AlreadyExists { workbench_id },
        ),
        Err(source) => Err(NamespaceError::Engine(source)),
        Ok(executed) => match executed.workspace {
            Err(source) => Err(
                NamespaceError::Codec { record: "CreateVisibleWorkspaceResult", source },
            ),
            Ok(workspace) => if executed.deterministic_result != expected {
                Err(
                    NamespaceError::DeterministicResultMismatch {
                        reason: bytes::utf8(
                            "persisted result bytes do not match the exact request"@,
                        ),
                    },
                )
            } else if workspace != new_workspace(incarnation_id) {
                Err(
                    NamespaceError::DeterministicResultMismatch {
                        reason: bytes::utf8(
                            "persisted workspace record does not match the exact request"@,
                        ),
                    },
                )
            } else {
                Ok(
                    CreateVisibleWorkspaceResultView {
                        workspace,
                        commit_version: executed.commit_version,
                        replayed: executed.replayed,
                    },
                )
            },
        },
    }
}

/// The contents of an execution.
pub open spec fn execution_view(
    executed: Result<ExecutedCreation, AgentMetadataError>,
) -> Result<ExecutedCreationView, StoreFailure> {
    match executed {
        Ok(executed) => Ok(executed@),
        Err(e) => Err(e.model()),
    }
}

/// Whether a marker is the one of a new workspace.
fn is_new_workspace(workspace: &WorkspaceRecord, incarnation_id: &WorkspaceIncarnationId) -> (same: bool)
    ensures
        same == (workspace@ == new_workspace(incarnation_id@)),
{
    workspace.incarnation_id.same(incarnation_id) && workspace.workspace_revision.get() == 0
        && workspace.state == WorkspaceState::Visible && workspace.owning_operation_id.is_none()
}

/// Validates what the execution of a creation gave back. An exact request
/// replay gives the originally persisted result.
pub fn settle_visible_workspace(
    workbench_id: &WorkbenchId,
    incarnation_id: WorkspaceIncarnationId,
    command: &MetadataCommand,
    executed: Result<ExecutedCreation, AgentMetadataError>,
) -> (result: Result<CreateVisibleWorkspaceResult, NamespaceError>)
    ensures
        outcome(result) == settled_creation(
            workbench_id@,
            incarnation_id@,
            command.deterministic_result@,
            execution_view(executed),
        ),
{
    let executed = match executed {
        Ok(executed) => executed,
        Err(AgentMetadataError::PredicateFailed) => {
            return Err(NamespaceError::AlreadyExists { workbench_id: workbench_id.clone() });
        },
        Err(source) => {
            return Err(NamespaceError::Engine(source));
        },
    };
    let workspace = match executed.workspace {
        Ok(workspace) => workspace,
        Err(source) => {
            return Err(NamespaceError::Codec { record: "CreateVisibleWorkspaceResult", source });
        },
    };
    if !bytes::bytes_equal(
        executed.deterministic_result.as_slice(),
        command.deterministic_result.as_slice(),
    ) {
        return Err(
            NamespaceError::DeterministicResultMismatch {
                reason: "persisted result bytes do not match the exact request".to_owned(),
            },
        );
    }
    if !is_new_workspace(&workspace, &incarnation_id) {
        return Err(
            NamespaceError::DeterministicResultMismatch {
                reason: "persisted workspace record does not match the exact request".to_owned(),
            },
        );
    }
    Ok(
        CreateVisibleWorkspaceResult {
            workspace,
            commit_version: executed.commit_version,
            replayed: executed.replayed,
        },
    )
}

/// A workspace that is not visible hides everything: its marker, each of its
/// paths, and every page.
pub proof fn hidden_workspaces_hide_all_paths(
    workspace: WorkspaceRecordView,
    entry: Result<Option<Result<PathEntryView, Seq<u8>>>, StoreFailure>,
    limit: usize,
    scan: Result<Seq<ScannedPathView>, StoreFailure>,
)
    requires
        workspace.state != WorkspaceState::Visible,
        page_limit_fits(limit),
    ensures
        visible_workspace(Ok(Some(Ok(workspace)))) == Ok::<
            Option<WorkspaceRecordView>,
            NamespaceFailure,
        >(None),
        visible_path(Ok(Some(Ok(workspace))), entry) == Ok::<
            Option<PathEntryView>,
            NamespaceFailure,
        >(None),
        visible_paths(Ok(Some(Ok(workspace))), limit, scan) == Ok::<
            VisiblePathPageView,
            NamespaceFailure,
        >(VisiblePathPageView::empty()),
{
}

/// A created workspace is visible, and is the one that was asked for.
pub proof fn created_workspaces_are_visible(
    workbench_id: Seq<u8>,
    incarnation_id: Seq<u8>,
    expected: Seq<u8>,
    executed: Result<ExecutedCreationView, StoreFailure>,
)
    requires
        settled_creation(workbench_id, incarnation_id, expected, executed) is Ok,
    ensures
        ({
            let workspace = settled_creation(
                workbench_id,
                incarnation_id,
                expected,
                executed,
            )->Ok_0.workspace;
            workspace == new_workspace(incarnation_id) && visible_workspace(
                Ok(Some(Ok(workspace))),
            ) == Ok::<Option<WorkspaceRecordView>, NamespaceFailure>(Some(workspace))
        }),
{
}

/// The scanned items of undamaged paths.
pub open spec fn items_of(paths: Seq<VisiblePathView>) -> Seq<ScannedPathView> {
    Seq::new(
        paths.len(),
        |i: int| ScannedPathView { path: Some(paths[i].path), entry: Ok(paths[i].entry) },
    )
}

/// Undamaged items read as their paths.
proof fn undamaged_items_read_back(paths: Seq<VisiblePathView>)
    ensures
        scanned_entries(items_of(paths)) == Ok::<Seq<VisiblePathView>, NamespaceFailure>(paths),
    decreases paths.len(),
{
    if paths.len() > 0 {
        undamaged_items_read_back(paths.drop_last());
        assert(items_of(paths).drop_last() =~= items_of(paths.drop_last()));
        assert(paths.drop_last().push(paths.last()) =~= paths);
    } else {
        assert(paths =~= Seq::<VisiblePathView>::empty());
    }
}

/// Pages follow on one another: a page that starts behind the first `start`
/// paths of a workspace holds the next ones up to the limit, and carries the
/// path of its last entry as marker exactly where more paths follow.
pub proof fn path_pages_follow_on(
    workspace: WorkspaceRecordView,
    limit: usize,
    paths: Seq<VisiblePathView>,
    start: int,
)
    requires
        workspace.state == WorkspaceState::Visible,
        page_limit_fits(limit),
        0 <= start <= paths.len(),
    ensures
        ({
            let rest = paths.skip(start);
            let asked = if rest.len() > limit + 1 {
                rest.take(limit + 1)
            } else {
                rest
            };
            let page = scanned_page(workspace, limit, Ok(items_of(asked)));
            let end = if start + limit < paths.len() {
                start + limit
            } else {
                paths.len() as int
            };
            page == Ok::<VisiblePathPageView, NamespaceFailure>(
                VisiblePathPageView {
                    entries: paths.subrange(start, end),
                    next_marker: if end < paths.len() {
                        Some(paths[end - 1].path)
                    } else {
                        None
                    },
                },
            )
        }),
{
    let rest = paths.skip(start);
    let asked = if rest.len() > limit + 1 {
        rest.take(limit + 1)
    } else {
        rest
    };
    let end = if start + limit < paths.len() {
        start + limit
    } else {
        paths.len() as int
    };
    undamaged_items_read_back(asked);
    if asked.len() > limit {
        assert(asked.take(limit as int) =~= paths.subrange(start, end));
        assert(asked[limit - 1] == paths[end - 1]);
    } else {
        assert(asked =~= paths.subrange(start, end));
    }
}

} // verus!
