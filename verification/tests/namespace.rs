//! The visible namespace, on an in-memory store that answers the reads.

use std::cell::RefCell;
use std::collections::BTreeMap;

use nokv_meta::ids::{
    ArtifactRevisionId, LogicalShardId, OperationId, RequestId, RootId, WorkspaceIncarnationId,
    FIXED_ID_BYTES,
};
use nokv_meta::names::{NormalizedRelativePath, WorkbenchId};
use nokv_meta::namespace::{
    self, creation_event_record, new_workspace_record, scan_limit, settle_visible_workspace,
    validate_page_limit, EncodedCreation, ExecutedCreation, MetadataCommand, ScannedPath,
};
use nokv_meta::namespace_types::{
    CreateVisibleWorkspaceResult, NamespaceError, RootReadContext, RootWriteContext,
    VisiblePathPage, MAX_VISIBLE_PATH_PAGE_SIZE,
};
use nokv_meta::positions::{
    CommitVersion, Generation, OwnerEpoch, PlacementGeneration, ReadVersion, WorkspaceRevision,
};
use nokv_meta::provider_catalog::MetadataFamily;
use nokv_meta::scalars::QueryScalar;
use nokv_meta::states::WorkspaceState;
use nokv_meta::store_records::{
    AgentMetadataError, ChangeEventKind, Decoded, PathEntry, PointRead, WorkspaceRecord,
};

/// A path under its key; the path is missing where the key is malformed.
struct StoredPath {
    version: u64,
    incarnation_id: WorkspaceIncarnationId,
    key: Vec<u8>,
    path: Option<NormalizedRelativePath>,
    entry: Decoded<PathEntry>,
}

/// A command that was carried out, by its request.
struct Executed {
    request_id: RequestId,
    command: MetadataCommand,
    commit_version: CommitVersion,
}

struct Records {
    version: u64,
    workspaces: Vec<(u64, Vec<u8>, Decoded<WorkspaceRecord>)>,
    paths: Vec<StoredPath>,
    executed: Vec<Executed>,
}

struct Store {
    records: RefCell<Records>,
}

/// Prefix of the keys of the descendants of a path.
fn child_prefix(prefix: Option<&NormalizedRelativePath>) -> Vec<u8> {
    match prefix {
        None => Vec::new(),
        Some(prefix) => {
            let mut key = path_key(prefix);
            key.pop();
            key.push(0);
            key
        }
    }
}

/// Key that sorts paths by components, descendants before the path itself.
fn path_key(path: &NormalizedRelativePath) -> Vec<u8> {
    let mut key = path
        .as_bytes()
        .iter()
        .map(|byte| if *byte == b'/' { 0 } else { *byte })
        .collect::<Vec<_>>();
    key.push(1);
    key
}

fn encode_workspace(workspace: &WorkspaceRecord) -> Vec<u8> {
    let mut encoded = workspace.incarnation_id.as_bytes().to_vec();
    encoded.extend_from_slice(&workspace.workspace_revision.get().to_be_bytes());
    encoded.push(workspace.state.to_byte());
    encoded
}

fn decode_workspace(encoded: &[u8]) -> Decoded<WorkspaceRecord> {
    if encoded.len() != FIXED_ID_BYTES + 9 {
        return Err("workspace record has another length".to_owned());
    }
    let revision = u64::from_be_bytes(encoded[16..24].try_into().unwrap());
    Ok(WorkspaceRecord {
        incarnation_id: WorkspaceIncarnationId::from_bytes(encoded[..16].try_into().unwrap()),
        workspace_revision: WorkspaceRevision::new(revision),
        state: WorkspaceState::try_from(encoded[24]).map_err(|_| "unknown state".to_owned())?,
        owning_operation_id: None,
    })
}

impl Store {
    fn read_workspace(
        &self,
        context: RootReadContext,
        name: &WorkbenchId,
    ) -> PointRead<WorkspaceRecord> {
        Ok(self
            .records
            .borrow()
            .workspaces
            .iter()
            .filter(|(version, key, _)| {
                *version <= context.read_version.get() && key == name.as_bytes()
            })
            .last()
            .map(|(_, _, record)| record.clone()))
    }

    fn read_path(
        &self,
        context: RootReadContext,
        incarnation_id: WorkspaceIncarnationId,
        path: &NormalizedRelativePath,
    ) -> PointRead<PathEntry> {
        Ok(self
            .records
            .borrow()
            .paths
            .iter()
            .filter(|stored| {
                stored.version <= context.read_version.get()
                    && stored.incarnation_id == incarnation_id
                    && stored.key == path_key(path)
            })
            .last()
            .map(|stored| stored.entry.clone()))
    }

    fn scan_paths(
        &self,
        context: RootReadContext,
        incarnation_id: WorkspaceIncarnationId,
        prefix: Option<&NormalizedRelativePath>,
        start_after: Option<&NormalizedRelativePath>,
        items: usize,
    ) -> Vec<ScannedPath> {
        let records = self.records.borrow();
        let mut latest = BTreeMap::new();
        for stored in &records.paths {
            if stored.version <= context.read_version.get()
                && stored.incarnation_id == incarnation_id
            {
                latest.insert(stored.key.clone(), stored);
            }
        }
        latest
            .into_iter()
            .filter(|(key, _)| {
                key.starts_with(&child_prefix(prefix))
                    && start_after.is_none_or(|marker| *key > path_key(marker))
            })
            .take(items)
            .map(|(_, stored)| ScannedPath {
                path: stored.path.clone(),
                entry: stored.entry.clone(),
            })
            .collect()
    }

    fn put_workspace(&self, name: &WorkbenchId, record: Decoded<WorkspaceRecord>) {
        let mut records = self.records.borrow_mut();
        records.version += 1;
        let version = records.version;
        records
            .workspaces
            .push((version, name.as_bytes().to_vec(), record));
    }

    fn put_path(
        &self,
        incarnation_id: WorkspaceIncarnationId,
        path: &NormalizedRelativePath,
        entry: Decoded<PathEntry>,
    ) {
        let mut records = self.records.borrow_mut();
        records.version += 1;
        let version = records.version;
        records.paths.push(StoredPath {
            version,
            incarnation_id,
            key: path_key(path),
            path: Some(path.clone()),
            entry,
        });
    }

    fn execute(&self, command: MetadataCommand) -> Result<ExecutedCreation, AgentMetadataError> {
        let mut records = self.records.borrow_mut();
        if let Some(known) = records
            .executed
            .iter()
            .find(|known| known.request_id == command.request_id)
        {
            if known.command != command {
                return Err(AgentMetadataError::RequestIdReused);
            }
            return Ok(ExecutedCreation {
                deterministic_result: known.command.deterministic_result.clone(),
                workspace: decode_workspace(&known.command.deterministic_result),
                commit_version: known.commit_version,
                replayed: true,
            });
        }
        for predicate in &command.predicates {
            assert_eq!(predicate.family, MetadataFamily::WorkspaceCurrent);
            assert_eq!(predicate.expected, None);
            if records
                .workspaces
                .iter()
                .any(|(_, key, _)| *key == predicate.key)
            {
                return Err(AgentMetadataError::PredicateFailed);
            }
        }
        records.version += 1;
        let version = records.version;
        for mutation in &command.mutations {
            assert_eq!(mutation.family, MetadataFamily::WorkspaceCurrent);
            let record = decode_workspace(&mutation.value);
            records
                .workspaces
                .push((version, mutation.key.clone(), record));
        }
        let commit_version = CommitVersion::new(version).unwrap();
        let deterministic_result = command.deterministic_result.clone();
        records.executed.push(Executed {
            request_id: command.request_id,
            command,
            commit_version,
        });
        Ok(ExecutedCreation {
            workspace: decode_workspace(&deterministic_result),
            deterministic_result,
            commit_version,
            replayed: false,
        })
    }
}

fn command_for(
    context: RootWriteContext,
    name: &WorkbenchId,
    incarnation_id: WorkspaceIncarnationId,
) -> MetadataCommand {
    let workspace = new_workspace_record(incarnation_id);
    let event = creation_event_record(name, incarnation_id);
    namespace::create_visible_workspace(
        context,
        EncodedCreation {
            schema_id: "workspace-metadata".to_owned(),
            key: name.as_bytes().to_vec(),
            workspace: Ok(encode_workspace(&workspace)),
            event: Ok(event.workspace_incarnation_id.as_bytes().to_vec()),
        },
    )
    .unwrap()
}

fn create_visible_workspace(
    store: &Store,
    context: RootWriteContext,
    name: &WorkbenchId,
    incarnation_id: WorkspaceIncarnationId,
) -> Result<CreateVisibleWorkspaceResult, NamespaceError> {
    let executed = store.execute(command_for(context, name, incarnation_id));
    let command = command_for(context, name, incarnation_id);
    settle_visible_workspace(name, incarnation_id, &command, executed)
}

fn get_visible_workspace_at(
    store: &Store,
    context: RootReadContext,
    name: &WorkbenchId,
) -> Result<Option<WorkspaceRecord>, NamespaceError> {
    namespace::get_visible_workspace_at(store.read_workspace(context, name))
}

fn get_path_at_visible_workspace(
    store: &Store,
    context: RootReadContext,
    workspace: &WorkspaceRecord,
    path: &NormalizedRelativePath,
) -> Result<Option<PathEntry>, NamespaceError> {
    let read = store.read_path(context, workspace.incarnation_id, path);
    namespace::get_path_at_visible_workspace(workspace, read)
}

fn get_visible_path_at(
    store: &Store,
    context: RootReadContext,
    name: &WorkbenchId,
    path: &NormalizedRelativePath,
) -> Result<Option<PathEntry>, NamespaceError> {
    let workspace = store.read_workspace(context, name);
    let read = match &workspace {
        Ok(Some(Ok(found))) => store.read_path(context, found.incarnation_id, path),
        _ => Ok(None),
    };
    namespace::get_visible_path_at(workspace, read)
}

fn scan_paths_at_visible_workspace(
    store: &Store,
    context: RootReadContext,
    workspace: &WorkspaceRecord,
    prefix: Option<&NormalizedRelativePath>,
    start_after: Option<&NormalizedRelativePath>,
    limit: usize,
) -> Result<VisiblePathPage, NamespaceError> {
    let scan = if validate_page_limit(limit).is_ok() {
        store.scan_paths(
            context,
            workspace.incarnation_id,
            prefix,
            start_after,
            scan_limit(limit),
        )
    } else {
        Vec::new()
    };
    namespace::scan_paths_at_visible_workspace(workspace, limit, Ok(scan))
}

fn scan_visible_paths_at(
    store: &Store,
    context: RootReadContext,
    name: &WorkbenchId,
    start_after: Option<&NormalizedRelativePath>,
    limit: usize,
) -> Result<VisiblePathPage, NamespaceError> {
    let workspace = store.read_workspace(context, name);
    let scan = match &workspace {
        Ok(Some(Ok(found))) if validate_page_limit(limit).is_ok() => store.scan_paths(
            context,
            found.incarnation_id,
            None,
            start_after,
            scan_limit(limit),
        ),
        _ => Vec::new(),
    };
    namespace::scan_visible_paths_at(workspace, limit, Ok(scan))
}

fn shard(fill: u8) -> LogicalShardId {
    LogicalShardId::from_bytes([fill; FIXED_ID_BYTES])
}

fn root(fill: u8) -> RootId {
    RootId::from_bytes([fill; FIXED_ID_BYTES])
}

fn incarnation(fill: u8) -> WorkspaceIncarnationId {
    WorkspaceIncarnationId::from_bytes([fill; FIXED_ID_BYTES])
}

fn request(fill: u8) -> RequestId {
    RequestId::from_bytes([fill; FIXED_ID_BYTES])
}

fn placement() -> PlacementGeneration {
    PlacementGeneration::new(7).unwrap()
}

fn owner() -> OwnerEpoch {
    OwnerEpoch::new(1).unwrap()
}

fn workbench(value: &str) -> WorkbenchId {
    WorkbenchId::new(value).unwrap()
}

fn path(value: &str) -> NormalizedRelativePath {
    NormalizedRelativePath::new(value).unwrap()
}

fn path_entry(fill: u8, generation_value: u64) -> PathEntry {
    PathEntry {
        generation: Generation::new(generation_value).unwrap(),
        artifact_revision_id: ArtifactRevisionId::from_bytes([fill; FIXED_ID_BYTES]),
        body_digest_uri: format!("sha256:body-{fill}"),
        manifest_digest_uri: format!("sha256:manifest-{fill}"),
        logical_size: u64::from(fill),
        dependency_count: 0,
        dependency_depth: 0,
        content_type: "application/octet-stream".to_owned(),
        producer: Some("namespace-test".to_owned()),
        manifest_id: Some(format!("manifest-{fill}")),
        typed_index_projection: Vec::new(),
    }
}

fn ready_store() -> Store {
    Store {
        records: RefCell::new(Records {
            version: 2,
            workspaces: Vec::new(),
            paths: Vec::new(),
            executed: Vec::new(),
        }),
    }
}

fn current(store: &Store) -> ReadVersion {
    ReadVersion::new(store.records.borrow().version).unwrap()
}

fn write_context(store: &Store, request_fill: u8) -> RootWriteContext {
    RootWriteContext::current(
        Ok(current(store)),
        root(2),
        shard(1),
        placement(),
        owner(),
        request(request_fill),
    )
    .unwrap()
}

fn read_context(store: &Store) -> RootReadContext {
    RootReadContext::current(Ok(current(store)), root(2), placement(), owner()).unwrap()
}

fn read_context_at(version: CommitVersion) -> RootReadContext {
    RootReadContext {
        root_id: root(2),
        placement_generation: placement(),
        owner_epoch: owner(),
        read_version: ReadVersion::new(version.get()).unwrap(),
    }
}

fn create_workspace(
    store: &Store,
    request_fill: u8,
    name: &WorkbenchId,
    incarnation_fill: u8,
) -> CreateVisibleWorkspaceResult {
    create_visible_workspace(
        store,
        write_context(store, request_fill),
        name,
        incarnation(incarnation_fill),
    )
    .unwrap()
}

fn names(page: &VisiblePathPage) -> Vec<&str> {
    page.entries
        .iter()
        .map(|visible| visible.path.as_str())
        .collect()
}

#[test]
fn visible_workspace_create_replays_and_request_mismatch_fails() {
    let store = ready_store();
    let name = workbench("wb-create");
    let context = write_context(&store, 3);
    let created = create_visible_workspace(&store, context, &name, incarnation(3)).unwrap();
    assert!(!created.replayed);
    assert_eq!(created.workspace.incarnation_id, incarnation(3));
    assert_eq!(
        created.workspace.workspace_revision,
        WorkspaceRevision::new(0)
    );
    assert_eq!(created.workspace.state, WorkspaceState::Visible);
    assert_eq!(created.workspace.owning_operation_id, None);

    let replay = create_visible_workspace(&store, context, &name, incarnation(3)).unwrap();
    assert!(replay.replayed);
    assert_eq!(replay.commit_version, created.commit_version);
    assert_eq!(replay.workspace, created.workspace);

    assert!(matches!(
        create_visible_workspace(&store, context, &name, incarnation(4)),
        Err(NamespaceError::Engine(AgentMetadataError::RequestIdReused))
    ));
    assert_eq!(
        create_visible_workspace(&store, write_context(&store, 4), &name, incarnation(4)),
        Err(NamespaceError::AlreadyExists {
            workbench_id: name.clone(),
        })
    );

    let visible =
        get_visible_workspace_at(&store, read_context_at(created.commit_version), &name).unwrap();
    assert_eq!(visible, Some(created.workspace));
}

#[test]
fn staging_and_retired_workspaces_hide_all_paths() {
    let store = ready_store();
    let staging_name = workbench("wb-staging");
    let retired_name = workbench("wb-retired");
    let staging_incarnation = incarnation(10);
    let retired_incarnation = incarnation(11);
    let staging_path = path("outputs/staging.bin");
    let retired_path = path("outputs/retired.bin");
    let staging_record = WorkspaceRecord {
        incarnation_id: staging_incarnation,
        workspace_revision: WorkspaceRevision::new(2),
        state: WorkspaceState::Staging,
        owning_operation_id: Some(OperationId::from_bytes([9; FIXED_ID_BYTES])),
    };
    let retired_record = WorkspaceRecord {
        incarnation_id: retired_incarnation,
        workspace_revision: WorkspaceRevision::new(3),
        state: WorkspaceState::Retired,
        owning_operation_id: None,
    };
    store.put_workspace(&staging_name, Ok(staging_record));
    store.put_path(staging_incarnation, &staging_path, Ok(path_entry(10, 1)));
    store.put_workspace(&retired_name, Ok(retired_record));
    store.put_path(retired_incarnation, &retired_path, Ok(path_entry(11, 1)));
    let context = read_context(&store);

    for (name, hidden_path) in [
        (&staging_name, &staging_path),
        (&retired_name, &retired_path),
    ] {
        assert_eq!(
            get_visible_workspace_at(&store, context, name).unwrap(),
            None
        );
        assert_eq!(
            get_visible_path_at(&store, context, name, hidden_path).unwrap(),
            None
        );
        assert_eq!(
            scan_visible_paths_at(&store, context, name, None, 10).unwrap(),
            VisiblePathPage::empty()
        );
    }
}

#[test]
fn exact_path_read_uses_visible_marker_and_read_version() {
    let store = ready_store();
    let name = workbench("wb-exact");
    let created = create_workspace(&store, 3, &name, 12);
    let exact = path("outputs/a");
    let neighbor = path("outputs/ab");
    let exact_entry = path_entry(12, 1);
    let neighbor_entry = path_entry(13, 2);
    store.put_path(incarnation(12), &neighbor, Ok(neighbor_entry));
    store.put_path(incarnation(12), &exact, Ok(exact_entry.clone()));

    assert_eq!(
        get_visible_path_at(
            &store,
            read_context_at(created.commit_version),
            &name,
            &exact
        )
        .unwrap(),
        None
    );
    assert_eq!(
        get_visible_path_at(&store, read_context(&store), &name, &exact).unwrap(),
        Some(exact_entry)
    );
    assert_eq!(
        get_visible_path_at(
            &store,
            read_context(&store),
            &name,
            &path("outputs/missing")
        )
        .unwrap(),
        None
    );
}

#[test]
fn resolved_workspace_reads_one_exact_path_and_pushes_down_child_prefix() {
    let store = ready_store();
    let name = workbench("wb-resolved-fast-path");
    let created = create_workspace(&store, 3, &name, 13);
    let paths = [
        "outputs",
        "outputs/a/deep.bin",
        "outputs/a",
        "outputs/b",
        "outputs2/outside.bin",
    ];
    for (index, raw) in paths.iter().enumerate() {
        store.put_path(
            incarnation(13),
            &path(raw),
            Ok(path_entry(index as u8 + 1, index as u64 + 1)),
        );
    }
    let context = read_context(&store);
    let prefix = path("outputs");

    assert!(
        get_path_at_visible_workspace(&store, context, &created.workspace, &prefix)
            .unwrap()
            .is_some()
    );

    let first = scan_paths_at_visible_workspace(
        &store,
        context,
        &created.workspace,
        Some(&prefix),
        None,
        2,
    )
    .unwrap();
    assert_eq!(names(&first), ["outputs/a/deep.bin", "outputs/a"]);
    assert_eq!(first.next_marker, Some(path("outputs/a")));

    let second = scan_paths_at_visible_workspace(
        &store,
        context,
        &created.workspace,
        Some(&prefix),
        first.next_marker.as_ref(),
        2,
    )
    .unwrap();
    assert_eq!(names(&second), ["outputs/b"]);
    assert!(second.next_marker.is_none());

    let retired = WorkspaceRecord {
        state: WorkspaceState::Retired,
        ..created.workspace
    };
    assert_eq!(
        get_path_at_visible_workspace(&store, context, &retired, &prefix).unwrap(),
        None
    );
    assert_eq!(
        scan_paths_at_visible_workspace(&store, context, &retired, Some(&prefix), None, 2)
            .unwrap(),
        VisiblePathPage::empty()
    );
}

#[test]
fn visible_path_scan_is_ordered_and_paginated_by_full_path() {
    let store = ready_store();
    let name = workbench("wb-pages");
    create_workspace(&store, 3, &name, 14);
    let paths = ["outputs/d", "outputs/a", "logs/z", "outputs/c", "outputs/b"];
    for (index, raw) in paths.iter().enumerate() {
        store.put_path(
            incarnation(14),
            &path(raw),
            Ok(path_entry(index as u8 + 1, index as u64 + 1)),
        );
    }
    let context = read_context(&store);

    let first = scan_visible_paths_at(&store, context, &name, None, 2).unwrap();
    assert_eq!(names(&first), ["logs/z", "outputs/a"]);
    assert_eq!(first.next_marker, Some(path("outputs/a")));

    let second =
        scan_visible_paths_at(&store, context, &name, first.next_marker.as_ref(), 2).unwrap();
    assert_eq!(names(&second), ["outputs/b", "outputs/c"]);
    assert_eq!(second.next_marker, Some(path("outputs/c")));

    let third =
        scan_visible_paths_at(&store, context, &name, second.next_marker.as_ref(), 2).unwrap();
    assert_eq!(names(&third), ["outputs/d"]);
    assert_eq!(third.next_marker, None);

    assert_eq!(
        scan_visible_paths_at(&store, context, &name, None, 0),
        Err(NamespaceError::InvalidPageLimit {
            requested: 0,
            max: MAX_VISIBLE_PATH_PAGE_SIZE,
        })
    );
    assert_eq!(
        scan_visible_paths_at(&store, context, &name, None, MAX_VISIBLE_PATH_PAGE_SIZE + 1),
        Err(NamespaceError::InvalidPageLimit {
            requested: MAX_VISIBLE_PATH_PAGE_SIZE + 1,
            max: MAX_VISIBLE_PATH_PAGE_SIZE,
        })
    );
}

#[test]
fn malformed_workspace_path_record_and_path_key_fail_closed() {
    let store = ready_store();
    let corrupt_workspace = workbench("wb-corrupt-workspace");
    store.put_workspace(&corrupt_workspace, decode_workspace(&[0xff]));
    assert!(matches!(
        get_visible_workspace_at(&store, read_context(&store), &corrupt_workspace),
        Err(NamespaceError::Codec {
            record: "WorkspaceCurrent",
            ..
        })
    ));

    let corrupt_record = workbench("wb-corrupt-record");
    create_workspace(&store, 4, &corrupt_record, 20);
    let corrupt_record_path = path("outputs/corrupt.bin");
    store.put_path(
        incarnation(20),
        &corrupt_record_path,
        Err("unsupported version".to_owned()),
    );
    assert!(matches!(
        get_visible_path_at(
            &store,
            read_context(&store),
            &corrupt_record,
            &corrupt_record_path
        ),
        Err(NamespaceError::Codec {
            record: "PathCurrent",
            ..
        })
    ));

    let corrupt_key = workbench("wb-corrupt-key");
    create_workspace(&store, 6, &corrupt_key, 21);
    let version = store.records.borrow().version;
    store.records.borrow_mut().paths.push(StoredPath {
        version,
        incarnation_id: incarnation(21),
        key: b"outputs/bad/name\x01".to_vec(),
        path: None,
        entry: Ok(path_entry(21, 1)),
    });
    assert!(matches!(
        scan_visible_paths_at(&store, read_context(&store), &corrupt_key, None, 10),
        Err(NamespaceError::CorruptKey {
            family: "PathCurrent",
            ..
        })
    ));
}

#[test]
fn creation_writes_the_marker_and_its_event_once() {
    let store = ready_store();
    let name = workbench("wb-command");
    let context = write_context(&store, 3);
    let command = command_for(context, &name, incarnation(5));
    assert_eq!(command.root_id, root(2));
    assert_eq!(command.request_id, request(3));
    assert_eq!(command.read_version, current(&store));
    assert_eq!(command.predicates.len(), 1);
    assert_eq!(command.mutations.len(), 1);
    assert_eq!(command.event_projection.len(), 1);
    assert_eq!(command.mutations[0].value, command.deterministic_result);

    let event = creation_event_record(&name, incarnation(5));
    assert_eq!(event.kind, ChangeEventKind::WorkspaceCreated);
    assert_eq!(event.after.len(), 1);
    assert_eq!(
        event.after.entries()[0].field.as_str(),
        "workspace.revision"
    );
    assert_eq!(event.after.entries()[0].value, QueryScalar::Unsigned(0));
}

#[test]
fn foreign_creation_results_are_refused() {
    let store = ready_store();
    let name = workbench("wb-foreign");
    let command = command_for(write_context(&store, 3), &name, incarnation(5));
    let foreign = new_workspace_record(incarnation(6));
    let error = settle_visible_workspace(
        &name,
        incarnation(5),
        &command,
        Ok(ExecutedCreation {
            deterministic_result: encode_workspace(&foreign),
            workspace: Ok(foreign),
            commit_version: CommitVersion::new(3).unwrap(),
            replayed: true,
        }),
    )
    .unwrap_err();
    assert_eq!(
        error.message(),
        "invalid workspace creation result: persisted result bytes do not match the exact request"
    );
    assert_eq!(
        NamespaceError::AlreadyExists { workbench_id: name }.message(),
        "workbench wb-foreign already exists"
    );
}

#[test]
fn creation_command_carries_its_schema_and_writes_no_history() {
    let store = ready_store();
    let context = write_context(&store, 3);
    let command = command_for(context, &workbench("wb-command"), incarnation(3));
    assert_eq!(command.schema_id, "workspace-metadata");
    assert!(command.history_projection.is_empty());
    assert_eq!(command.event_projection.len(), 1);
    assert_eq!(command.predicates.len(), 1);
    assert_eq!(command.predicates[0].expected, None);
    assert_eq!(command.mutations.len(), 1);
    assert_eq!(command.mutations[0].value, command.deterministic_result);
}

#[test]
fn markers_lead_through_every_path_once() {
    let store = ready_store();
    let name = workbench("wb-whole-listing");
    let created = create_workspace(&store, 3, &name, 21);
    let raw = ["outputs", "outputs/a", "outputs/b", "outputs/c", "outputs/d", "outputs2"];
    for (index, raw) in raw.iter().enumerate() {
        let fill = index as u8 + 1;
        store.put_path(incarnation(21), &path(raw), Ok(path_entry(fill, 1)));
    }
    let context = read_context(&store);
    let prefix = path("outputs");
    for limit in 1..=5 {
        let mut listed = Vec::new();
        let mut marker = None;
        loop {
            let page = scan_paths_at_visible_workspace(
                &store,
                context,
                &created.workspace,
                Some(&prefix),
                marker.as_ref(),
                limit,
            )
            .unwrap();
            assert!(page.entries.len() <= limit);
            let last = page.entries.last().map(|found| found.path.clone());
            listed.extend(page.entries.into_iter().map(|found| found.path));
            if page.next_marker.is_none() {
                break;
            }
            assert_eq!(page.next_marker, last);
            marker = page.next_marker;
        }
        let expected = ["outputs/a", "outputs/b", "outputs/c", "outputs/d"].map(path);
        assert_eq!(listed, expected);
    }
}
