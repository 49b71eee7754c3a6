//! Queries over visible workspaces, on an in-memory store that answers the
//! reads.

use std::cell::RefCell;
use std::collections::BTreeMap;

use nokv_meta::digest;
use nokv_meta::ids::{
    ArtifactRevisionId, CommitId, OperationId, RootId, WorkspaceIncarnationId, FIXED_ID_BYTES,
    SHA256_BYTES,
};
use nokv_meta::names::{NormalizedRelativePath, QueryFieldId, WorkbenchId};
use nokv_meta::namespace;
use nokv_meta::namespace_types::RootReadContext;
use nokv_meta::positions::{
    CommitVersion, Generation, OwnerEpoch, PlacementGeneration, ReadVersion, WorkspaceRevision,
};
use nokv_meta::prefix_scan::{MetadataScanItem, PrefixScan};
use nokv_meta::query_aggregate;
use nokv_meta::query_changes::{self, ChangeAction, ChangeItem, ChangePosition};
use nokv_meta::query_cursor::{
    change_event_identity, decode_change_cursor, encode_cursor, CursorKind,
};
use nokv_meta::query_digests::{change_digest, operands_fit, search_digest};
use nokv_meta::query_discovery::{self, CommitHeadItem};
use nokv_meta::query_rows::{
    collect_rows, scan_visible_workspaces, workbench_scope, CollectedRows, PathItem, PathScan,
    VisibleWorkspace, WorkspaceItem,
};
use nokv_meta::query_search;
use nokv_meta::query_tally::{AggregateAccumulator, SumState};
use nokv_meta::query_types::{
    AggregateFunction, AggregatePage, AggregateRequest, AggregateSpec, CatalogPage, CatalogRequest,
    ChangePage, ChangePageRequest, CommittedFilter, FacetBucket, FacetResult, FindWorkspacesPage,
    FindWorkspacesRequest, QueryError, QueryOperand, QueryOperator, QueryPredicate, QueryScope,
    QuerySort, QuerySortDirection, SearchPage, SearchRequest, WorkspaceDiscovery,
    ENGINE_SCAN_BATCH, MAX_QUERY_IN_VALUES, MAX_QUERY_PAGE_SIZE,
};
use nokv_meta::scalars::{FiniteFloat, QueryScalar};
use nokv_meta::sorted_maps::ScalarSet;
use nokv_meta::states::WorkspaceState;
use nokv_meta::store_records::{
    AgentMetadataError, ChangeEventKind, ChangeEventRecord, Decoded, PathEntry, PointRead,
    TypedProjection, WorkbenchCommitHeadRecord, WorkspaceRecord,
};

/// A path entry and the fields of its projection.
#[derive(Clone)]
struct Entry {
    path: PathEntry,
    projection: TypedProjection,
}

/// One record to write.
enum Row {
    Workspace(WorkbenchId, WorkspaceRecord),
    Path(WorkspaceIncarnationId, NormalizedRelativePath, Entry),
    Head(WorkspaceIncarnationId, WorkbenchCommitHeadRecord),
}

/// Everything that was written, with the version that wrote it.
struct Records {
    version: u64,
    workspaces: Vec<(u64, WorkbenchId, WorkspaceRecord)>,
    paths: Vec<(u64, WorkspaceIncarnationId, NormalizedRelativePath, Entry)>,
    heads: Vec<(u64, WorkspaceIncarnationId, WorkbenchCommitHeadRecord)>,
    events: Vec<(u64, u32, Decoded<ChangeEventRecord>)>,
}

struct Store {
    records: RefCell<Records>,
}

/// Key that sorts paths by components, descendants before the path itself.
fn path_key(path: &NormalizedRelativePath) -> Vec<u8> {
    let mut key = path
        .as_bytes()
        .iter()
        .map(|byte| if *byte == b'/' { 0 } else { *byte })
        .collect::<Vec<_>>();
    key.push(1);
    key
}

impl Store {
    fn write(&self, rows: Vec<Row>, events: Vec<Decoded<ChangeEventRecord>>) -> CommitVersion {
        let mut records = self.records.borrow_mut();
        records.version += 1;
        let version = records.version;
        for row in rows {
            match row {
                Row::Workspace(name, record) => records.workspaces.push((version, name, record)),
                Row::Path(incarnation_id, path, entry) => {
                    records.paths.push((version, incarnation_id, path, entry));
                }
                Row::Head(incarnation_id, head) => {
                    records.heads.push((version, incarnation_id, head));
                }
            }
        }
        for (sequence, event) in events.into_iter().enumerate() {
            records.events.push((version, sequence as u32, event));
        }
        CommitVersion::new(version).unwrap()
    }

    fn read_workspace(&self, name: &WorkbenchId, version: u64) -> PointRead<WorkspaceRecord> {
        Ok(self
            .records
            .borrow()
            .workspaces
            .iter()
            .filter(|(written, workbench_id, _)| *written <= version && workbench_id == name)
            .last()
            .map(|(_, _, record)| Ok(*record)))
    }

    fn scan_workspaces(&self, version: u64) -> Vec<WorkspaceItem> {
        let mut latest = BTreeMap::new();
        for (written, name, record) in &self.records.borrow().workspaces {
            if *written <= version {
                latest.insert(name.as_str().to_owned(), *record);
            }
        }
        latest
            .into_iter()
            .map(|(name, record)| WorkspaceItem {
                workbench_id: Some(workbench(&name)),
                record: Ok(record),
            })
            .collect()
    }

    fn scan_paths(&self, incarnation_id: WorkspaceIncarnationId, version: u64) -> PathScan {
        let records = self.records.borrow();
        let mut latest = BTreeMap::new();
        for (index, (written, owner, path, _)) in records.paths.iter().enumerate() {
            if *written <= version && *owner == incarnation_id {
                latest.insert(path_key(path), index);
            }
        }
        let mut scan = PrefixScan::start();
        while !scan.is_finished() {
            let marker = scan.marker().map(<[u8]>::to_vec);
            let batch = latest
                .iter()
                .filter(|(key, _)| marker.as_ref().is_none_or(|marker| *key > marker))
                .take(ENGINE_SCAN_BATCH)
                .map(|(key, index)| MetadataScanItem {
                    key: key.clone(),
                    value: index.to_be_bytes().to_vec(),
                })
                .collect();
            scan.accept(batch);
        }
        Ok(scan
            .into_items()
            .into_iter()
            .map(|item| {
                let index = usize::from_be_bytes(item.value.try_into().unwrap());
                let (_, _, path, entry) = &records.paths[index];
                PathItem {
                    path: Some(path.clone()),
                    entry: Ok(entry.path.clone()),
                    projection: Ok(entry.projection.clone()),
                }
            })
            .collect())
    }

    fn scan_heads(&self, version: u64) -> Vec<CommitHeadItem> {
        let mut latest = BTreeMap::new();
        for (written, incarnation_id, head) in &self.records.borrow().heads {
            if *written <= version {
                latest.insert(*incarnation_id.as_bytes(), *head);
            }
        }
        latest
            .into_iter()
            .map(|(incarnation_id, head)| CommitHeadItem {
                key: [root().as_bytes().to_vec(), incarnation_id.to_vec()].concat(),
                head: Ok(head),
            })
            .collect()
    }

    fn read_event(&self, position: ChangePosition, version: u64) -> PointRead<ChangeEventRecord> {
        Ok(self
            .records
            .borrow()
            .events
            .iter()
            .find(|(written, sequence, _)| {
                *written <= version
                    && *written == position.commit_version.get()
                    && *sequence == position.sequence
            })
            .map(|(_, _, event)| event.clone()))
    }

    fn scan_events(&self, marker: Option<ChangePosition>, version: u64) -> Vec<ChangeItem> {
        self.records
            .borrow()
            .events
            .iter()
            .filter(|(written, sequence, _)| {
                *written <= version
                    && marker.is_none_or(|marker| {
                        (*written, *sequence) > (marker.commit_version.get(), marker.sequence)
                    })
            })
            .take(ENGINE_SCAN_BATCH)
            .map(|(written, sequence, event)| ChangeItem {
                position: Some(ChangePosition {
                    commit_version: CommitVersion::new(*written).unwrap(),
                    sequence: *sequence,
                }),
                event: event.clone(),
            })
            .collect()
    }

    fn visible(
        &self,
        scope: &QueryScope,
        context: RootReadContext,
    ) -> Result<Vec<VisibleWorkspace>, QueryError> {
        let version = context.read_version.get();
        match scope {
            QueryScope::Root => scan_visible_workspaces(&self.scan_workspaces(version)),
            QueryScope::Workspace(name) => workbench_scope(
                name,
                namespace::get_visible_workspace_at(self.read_workspace(name, version)),
            ),
        }
    }

    fn collect(
        &self,
        scope: &QueryScope,
        path_prefix: &Option<NormalizedRelativePath>,
        context: RootReadContext,
    ) -> Result<CollectedRows, QueryError> {
        let visible = self.visible(scope, context)?;
        let scans = visible
            .iter()
            .map(|found| {
                self.scan_paths(found.workspace.incarnation_id, context.read_version.get())
            })
            .collect();
        collect_rows(&visible, scans, path_prefix)
    }
}

fn search_paths_at(
    store: &Store,
    context: RootReadContext,
    request: &SearchRequest,
) -> Result<SearchPage, QueryError> {
    assert!(operands_fit(&request.predicates));
    let collected = store.collect(&request.scope, &request.path_prefix, context)?;
    query_search::search_paths_at(collected, context, request)
}

fn number(value: &QueryScalar) -> f64 {
    match value {
        QueryScalar::Signed(value) => *value as f64,
        QueryScalar::Unsigned(value) => *value as f64,
        QueryScalar::Float(value) => f64::from_bits(value.to_bits()),
        other => panic!("{other:?} is no number"),
    }
}

fn fold(accumulator: &AggregateAccumulator) -> u64 {
    let folded = match accumulator {
        AggregateAccumulator::Sum(SumState::Floats(list)) => list
            .iter()
            .map(|value| f64::from_bits(value.to_bits()))
            .fold(0.0, |sum, value| sum + value),
        AggregateAccumulator::Average(list) => {
            list.iter().map(number).fold(0.0, |sum, value| sum + value) / list.len() as f64
        }
        _ => 0.0,
    };
    folded.to_bits()
}

fn aggregate_paths_at(
    store: &Store,
    context: RootReadContext,
    request: &AggregateRequest,
) -> Result<AggregatePage, QueryError> {
    assert!(operands_fit(&request.predicates));
    let collected = store.collect(&request.scope, &request.path_prefix, context)?;
    assert!(query_aggregate::check_rows_fit(
        &collected,
        &request.predicates,
        &request.group_by
    ));
    query_aggregate::aggregate_paths_at(collected, context, request, &fold)
}

fn catalog_fields_at(
    store: &Store,
    context: RootReadContext,
    request: &CatalogRequest,
) -> Result<CatalogPage, QueryError> {
    let collected = store.collect(&request.scope, &request.path_prefix, context)?;
    query_discovery::catalog_fields_at(&collected, context, request)
}

fn find_workspaces_at(
    store: &Store,
    context: RootReadContext,
    request: &FindWorkspacesRequest,
) -> Result<FindWorkspacesPage, QueryError> {
    let visible = store.visible(&QueryScope::Root, context)?;
    let heads = query_discovery::scan_commit_heads(
        &context.root_id,
        &store.scan_heads(context.read_version.get()),
    )?;
    query_discovery::find_workspaces_at(&visible, &heads, context, request)
}

fn read_changes_at(
    store: &Store,
    context: RootReadContext,
    request: &ChangePageRequest,
) -> Result<ChangePage, QueryError> {
    let version = context.read_version.get();
    let mut run = query_changes::read_changes_at(context, request);
    loop {
        match run.action() {
            ChangeAction::ReadAnchor(position) => {
                run.anchor_read(store.read_event(position, version));
            }
            ChangeAction::Scan(marker) => {
                run.events_scanned(Ok(store.scan_events(marker, version)));
            }
            ChangeAction::Resolve(at, name) => {
                let read = store.read_workspace(&name, at.get());
                run.workspace_resolved(namespace::get_visible_workspace_at(read));
            }
            ChangeAction::Finish => break,
        }
    }
    run.into_result()
}

fn root() -> RootId {
    RootId::from_bytes([2; FIXED_ID_BYTES])
}

fn placement() -> PlacementGeneration {
    PlacementGeneration::new(7).unwrap()
}

fn owner() -> OwnerEpoch {
    OwnerEpoch::new(1).unwrap()
}

fn incarnation(fill: u8) -> WorkspaceIncarnationId {
    WorkspaceIncarnationId::from_bytes([fill; FIXED_ID_BYTES])
}

fn workbench(value: &str) -> WorkbenchId {
    WorkbenchId::new(value).unwrap()
}

fn path(value: &str) -> NormalizedRelativePath {
    NormalizedRelativePath::new(value).unwrap()
}

fn field(value: &str) -> QueryFieldId {
    QueryFieldId::new(value).unwrap()
}

fn revision(value: u64) -> ArtifactRevisionId {
    let mut bytes = [0; FIXED_ID_BYTES];
    bytes[..8].copy_from_slice(&value.to_be_bytes());
    ArtifactRevisionId::from_bytes(bytes)
}

fn projection(values: Vec<(&str, QueryScalar)>) -> TypedProjection {
    let mut projection = TypedProjection::new();
    for (name, value) in values {
        projection.insert(field(name), value);
    }
    projection
}

fn entry(value: u64, generation: u64, fields: Vec<(&str, QueryScalar)>) -> Entry {
    Entry {
        path: PathEntry {
            generation: Generation::new(generation).unwrap(),
            artifact_revision_id: revision(value),
            body_digest_uri: format!("sha256:{value:064x}"),
            manifest_digest_uri: format!("sha256:{:064x}", value.saturating_add(1)),
            logical_size: value,
            dependency_count: 0,
            dependency_depth: 0,
            content_type: "application/octet-stream".to_owned(),
            producer: Some("query-test".to_owned()),
            manifest_id: Some(format!("manifest-{value}")),
            typed_index_projection: Vec::new(),
        },
        projection: projection(fields),
    }
}

fn ready_store() -> Store {
    Store {
        records: RefCell::new(Records {
            version: 2,
            workspaces: Vec::new(),
            paths: Vec::new(),
            heads: Vec::new(),
            events: Vec::new(),
        }),
    }
}

fn context(store: &Store) -> RootReadContext {
    let current = ReadVersion::new(store.records.borrow().version).unwrap();
    RootReadContext::current(Ok(current), root(), placement(), owner()).unwrap()
}

fn context_at(version: CommitVersion) -> RootReadContext {
    RootReadContext {
        root_id: root(),
        placement_generation: placement(),
        owner_epoch: owner(),
        read_version: ReadVersion::new(version.get()).unwrap(),
    }
}

fn put_records(store: &Store, rows: Vec<Row>) -> CommitVersion {
    store.write(rows, Vec::new())
}

fn put_events(store: &Store, events: Vec<ChangeEventRecord>) -> CommitVersion {
    store.write(Vec::new(), events.into_iter().map(Ok).collect())
}

fn workspace_row(
    name: &WorkbenchId,
    incarnation_id: WorkspaceIncarnationId,
    state: WorkspaceState,
) -> Row {
    let owning_operation_id = if state == WorkspaceState::Staging {
        Some(OperationId::from_bytes([9; FIXED_ID_BYTES]))
    } else {
        None
    };
    Row::Workspace(
        name.clone(),
        WorkspaceRecord {
            incarnation_id,
            workspace_revision: WorkspaceRevision::new(1),
            state,
            owning_operation_id,
        },
    )
}

fn path_row(incarnation_id: WorkspaceIncarnationId, name: &str, entry: &Entry) -> Row {
    Row::Path(incarnation_id, path(name), entry.clone())
}

fn search_request(scope: QueryScope) -> SearchRequest {
    SearchRequest {
        scope,
        path_prefix: None,
        predicates: Vec::new(),
        projection: Vec::new(),
        sort: Vec::new(),
        facets: Vec::new(),
        cursor: None,
        limit: MAX_QUERY_PAGE_SIZE,
    }
}

fn scalar_operand(value: QueryScalar) -> QueryOperand {
    QueryOperand::Scalar(value)
}

fn set_operand(values: impl IntoIterator<Item = QueryScalar>) -> QueryOperand {
    QueryOperand::Members(ScalarSet::from_values(values.into_iter().collect()))
}

fn predicate_store() -> (Store, WorkbenchId) {
    let store = ready_store();
    let name = workbench("predicate-fixture");
    let incarnation_id = incarnation(31);
    let mut gamma = entry(
        30,
        1,
        vec![
            ("run.bytes", QueryScalar::Bytes(b"gamma-end".to_vec())),
            ("run.score", QueryScalar::Unsigned(30)),
        ],
    );
    gamma.path.producer = None;
    put_records(
        &store,
        vec![
            workspace_row(&name, incarnation_id, WorkspaceState::Visible),
            path_row(
                incarnation_id,
                "outputs/alpha.log",
                &entry(
                    10,
                    1,
                    vec![
                        ("run.bytes", QueryScalar::Bytes(b"alpha-tail".to_vec())),
                        ("run.label", QueryScalar::String("blue".to_owned())),
                        ("run.null", QueryScalar::Null),
                        ("run.score", QueryScalar::Unsigned(10)),
                    ],
                ),
            ),
            path_row(
                incarnation_id,
                "outputs/beta.txt",
                &entry(
                    20,
                    1,
                    vec![
                        ("run.bytes", QueryScalar::Bytes(b"beta-tail".to_vec())),
                        ("run.label", QueryScalar::String("red".to_owned())),
                        ("run.score", QueryScalar::Unsigned(20)),
                    ],
                ),
            ),
            path_row(incarnation_id, "outputs/gamma.log", &gamma),
            path_row(
                incarnation_id,
                "outputs/delta.log",
                &entry(
                    40,
                    1,
                    vec![
                        ("run.bytes", QueryScalar::Bytes(b"delta-tail".to_vec())),
                        ("run.label", QueryScalar::String("green".to_owned())),
                        ("run.score", QueryScalar::Unsigned(40)),
                    ],
                ),
            ),
        ],
    );
    (store, name)
}

fn aggregate_count(
    store: &Store,
    name: WorkbenchId,
    predicates: Vec<QueryPredicate>,
) -> u64 {
    let page = aggregate_paths_at(
        store,
        context(store),
        &AggregateRequest {
            scope: QueryScope::Workspace(name),
            path_prefix: Some(path("outputs")),
            predicates,
            group_by: Vec::new(),
            aggregates: vec![AggregateSpec {
                result_id: field("rows"),
                function: AggregateFunction::Count,
                field_id: None,
            }],
            sort: Vec::new(),
            cursor: None,
            limit: 1,
        },
    )
    .unwrap();
    match page.groups[0].values.get(&field("rows")) {
        Some(QueryScalar::Unsigned(count)) => *count,
        other => panic!("count aggregate returned {other:?}"),
    }
}


#[test]
fn component_prefix_root_scope_and_staging_gate_are_exact() {
    let store = ready_store();
    let first = workbench("first");
    let second = workbench("second");
    let hidden = workbench("hidden");
    let first_incarnation = incarnation(3);
    let second_incarnation = incarnation(4);
    let hidden_incarnation = incarnation(5);
    put_records(
        &store,
        vec![
            workspace_row(&first, first_incarnation, WorkspaceState::Visible),
            path_row(
                first_incarnation,
                "a",
                &entry(
                    1,
                    1,
                    vec![("visible.kind", QueryScalar::String("a".into()))],
                ),
            ),
            path_row(
                first_incarnation,
                "a/child",
                &entry(
                    2,
                    1,
                    vec![("visible.kind", QueryScalar::String("child".into()))],
                ),
            ),
            path_row(
                first_incarnation,
                "ab",
                &entry(
                    3,
                    1,
                    vec![("visible.kind", QueryScalar::String("ab".into()))],
                ),
            ),
            workspace_row(&second, second_incarnation, WorkspaceState::Visible),
            path_row(
                second_incarnation,
                "a/other",
                &entry(
                    4,
                    1,
                    vec![("visible.kind", QueryScalar::String("other".into()))],
                ),
            ),
            workspace_row(&hidden, hidden_incarnation, WorkspaceState::Staging),
            path_row(
                hidden_incarnation,
                "a/secret",
                &entry(5, 1, vec![("secret.only", QueryScalar::Boolean(true))]),
            ),
        ],
    );

    let mut request = search_request(QueryScope::Workspace(first.clone()));
    request.path_prefix = Some(path("a"));
    let page = search_paths_at(&store, context(&store), &request).unwrap();
    assert_eq!(
        page.hits
            .iter()
            .map(|hit| hit.path.as_str())
            .collect::<Vec<_>>(),
        vec!["a", "a/child"]
    );

    request.scope = QueryScope::Root;
    let page = search_paths_at(&store, context(&store), &request).unwrap();
    assert_eq!(
        page.hits
            .iter()
            .map(|hit| (hit.workbench_id.as_str(), hit.path.as_str()))
            .collect::<Vec<_>>(),
        vec![("first", "a"), ("first", "a/child"), ("second", "a/other")]
    );

    let catalog = catalog_fields_at(
        &store,
        context(&store),
        &CatalogRequest {
            scope: QueryScope::Root,
            path_prefix: None,
            field_prefix: None,
            cursor: None,
            limit: MAX_QUERY_PAGE_SIZE,
        },
    )
    .unwrap();
    assert!(catalog
        .fields
        .iter()
        .any(|catalog| catalog.field_id == field("visible.kind")));
    assert!(!catalog
        .fields
        .iter()
        .any(|catalog| catalog.field_id == field("secret.only")));
    assert!(catalog_fields_at(
        &store,
        context(&store),
        &CatalogRequest {
            scope: QueryScope::Workspace(hidden),
            path_prefix: None,
            field_prefix: None,
            cursor: None,
            limit: MAX_QUERY_PAGE_SIZE,
        },
    )
    .unwrap()
    .fields
    .is_empty());
}

#[test]
fn search_predicates_sort_projection_facets_and_aggregate_are_deterministic() {
    let store = ready_store();
    let name = workbench("analytics");
    let incarnation_id = incarnation(6);
    put_records(
        &store,
        vec![
            workspace_row(&name, incarnation_id, WorkspaceState::Visible),
            path_row(
                incarnation_id,
                "outputs/one",
                &entry(
                    10,
                    1,
                    vec![
                        ("run.group", QueryScalar::String("blue".into())),
                        ("run.score", QueryScalar::Unsigned(10)),
                    ],
                ),
            ),
            path_row(
                incarnation_id,
                "outputs/two",
                &entry(
                    20,
                    1,
                    vec![
                        ("run.group", QueryScalar::String("blue".into())),
                        ("run.score", QueryScalar::Unsigned(21)),
                    ],
                ),
            ),
            path_row(
                incarnation_id,
                "outputs/three",
                &entry(
                    30,
                    1,
                    vec![
                        ("run.group", QueryScalar::String("red".into())),
                        ("run.score", QueryScalar::Unsigned(30)),
                    ],
                ),
            ),
        ],
    );

    let search = SearchRequest {
        scope: QueryScope::Workspace(name.clone()),
        path_prefix: Some(path("outputs")),
        predicates: vec![QueryPredicate {
            field_id: field("run.score"),
            operator: QueryOperator::GreaterOrEqual,
            operand: QueryScalar::Unsigned(20).into(),
        }],
        projection: vec![field("run.group"), field("run.score")],
        sort: vec![QuerySort {
            field_id: field("run.score"),
            direction: QuerySortDirection::Descending,
        }],
        facets: vec![field("run.group")],
        cursor: None,
        limit: 10,
    };
    let page = search_paths_at(&store, context(&store), &search).unwrap();
    assert_eq!(
        page.hits
            .iter()
            .map(|hit| hit.path.as_str())
            .collect::<Vec<_>>(),
        vec!["outputs/three", "outputs/two"]
    );
    assert_eq!(
        page.facets,
        vec![FacetResult {
            field_id: field("run.group"),
            buckets: vec![
                FacetBucket {
                    value: QueryScalar::String("blue".into()),
                    count: 1,
                },
                FacetBucket {
                    value: QueryScalar::String("red".into()),
                    count: 1,
                },
            ],
            distinct_count: 2,
            truncated: false,
        }]
    );

    let aggregate = aggregate_paths_at(
        &store,
        context(&store),
        &AggregateRequest {
            scope: QueryScope::Workspace(name),
            path_prefix: Some(path("outputs")),
            predicates: Vec::new(),
            group_by: vec![field("run.group")],
            aggregates: vec![
                AggregateSpec {
                    result_id: field("rows"),
                    function: AggregateFunction::Count,
                    field_id: None,
                },
                AggregateSpec {
                    result_id: field("score_sum"),
                    function: AggregateFunction::Sum,
                    field_id: Some(field("run.score")),
                },
                AggregateSpec {
                    result_id: field("score_avg"),
                    function: AggregateFunction::Average,
                    field_id: Some(field("run.score")),
                },
                AggregateSpec {
                    result_id: field("score_min"),
                    function: AggregateFunction::Minimum,
                    field_id: Some(field("run.score")),
                },
                AggregateSpec {
                    result_id: field("score_max"),
                    function: AggregateFunction::Maximum,
                    field_id: Some(field("run.score")),
                },
            ],
            sort: vec![QuerySort {
                field_id: field("score_sum"),
                direction: QuerySortDirection::Descending,
            }],
            cursor: None,
            limit: 10,
        },
    )
    .unwrap();
    assert_eq!(aggregate.groups.len(), 2);
    assert_eq!(
        aggregate.groups[0].keys.get(&field("run.group")),
        Some(&QueryScalar::String("blue".into()))
    );
    assert_eq!(
        aggregate.groups[0].values.get(&field("rows")),
        Some(&QueryScalar::Unsigned(2))
    );
    assert_eq!(
        aggregate.groups[0].values.get(&field("score_sum")),
        Some(&QueryScalar::Unsigned(31))
    );
    assert_eq!(
        aggregate.groups[0].values.get(&field("score_avg")),
        Some(&QueryScalar::Float(FiniteFloat::from_bits(15.5_f64.to_bits()).unwrap()))
    );
    assert_eq!(
        aggregate.groups[0].values.get(&field("score_min")),
        Some(&QueryScalar::Unsigned(10))
    );
    assert_eq!(
        aggregate.groups[0].values.get(&field("score_max")),
        Some(&QueryScalar::Unsigned(21))
    );
}

#[test]
fn suffix_is_strictly_typed_and_pages_in_stable_sort_order() {
    let (store, name) = predicate_store();
    let predicate = QueryPredicate {
        field_id: field("path"),
        operator: QueryOperator::Suffix,
        operand: scalar_operand(QueryScalar::String(".log".to_owned())),
    };
    let mut request = SearchRequest {
        scope: QueryScope::Workspace(name.clone()),
        path_prefix: Some(path("outputs")),
        predicates: vec![predicate.clone()],
        projection: vec![field("path")],
        sort: vec![QuerySort {
            field_id: field("path"),
            direction: QuerySortDirection::Ascending,
        }],
        facets: Vec::new(),
        cursor: None,
        limit: 1,
    };
    let first = search_paths_at(&store, context(&store), &request).unwrap();
    assert_eq!(first.hits[0].path.as_str(), "outputs/alpha.log");
    assert!(first.next_cursor.is_some());

    let mut changed = request.clone();
    changed.predicates[0].operand = scalar_operand(QueryScalar::String(".txt".to_owned()));
    changed.cursor = first.next_cursor.clone();
    assert_eq!(
        search_paths_at(&store, context(&store), &changed),
        Err(QueryError::CursorQueryMismatch)
    );

    let mut paths = Vec::new();
    loop {
        let page = search_paths_at(&store, context(&store), &request).unwrap();
        paths.extend(page.hits.into_iter().map(|hit| hit.path));
        let Some(cursor) = page.next_cursor else {
            break;
        };
        request.cursor = Some(cursor);
    }
    assert_eq!(
        paths
            .iter()
            .map(NormalizedRelativePath::as_str)
            .collect::<Vec<_>>(),
        vec![
            "outputs/alpha.log",
            "outputs/delta.log",
            "outputs/gamma.log"
        ]
    );
    assert_eq!(aggregate_count(&store, name.clone(), vec![predicate]), 3);

    let mut bytes_request = search_request(QueryScope::Workspace(name.clone()));
    bytes_request.predicates = vec![QueryPredicate {
        field_id: field("run.bytes"),
        operator: QueryOperator::Suffix,
        operand: scalar_operand(QueryScalar::Bytes(b"tail".to_vec())),
    }];
    assert_eq!(
        search_paths_at(&store, context(&store), &bytes_request)
            .unwrap()
            .hits
            .iter()
            .map(|hit| hit.path.as_str())
            .collect::<Vec<_>>(),
        vec!["outputs/alpha.log", "outputs/beta.txt", "outputs/delta.log"]
    );

    bytes_request.predicates[0].operand =
        scalar_operand(QueryScalar::String("tail".to_owned()));
    assert_eq!(
        search_paths_at(&store, context(&store), &bytes_request),
        Err(QueryError::InvalidPredicate {
            field_id: field("run.bytes"),
            reason: "comparison value has a different scalar type",
        })
    );
    bytes_request.predicates[0] = QueryPredicate {
        field_id: field("run.score"),
        operator: QueryOperator::Suffix,
        operand: scalar_operand(QueryScalar::Unsigned(0)),
    };
    assert_eq!(
        search_paths_at(&store, context(&store), &bytes_request),
        Err(QueryError::InvalidPredicate {
            field_id: field("run.score"),
            reason: "operator is unsupported for this field type",
        })
    );
}

#[test]
fn in_uses_one_bounded_canonical_set_with_empty_set_matching_nothing() {
    let (store, name) = predicate_store();
    let predicate = QueryPredicate {
        field_id: field("run.label"),
        operator: QueryOperator::In,
        operand: set_operand([
            QueryScalar::String("green".to_owned()),
            QueryScalar::String("blue".to_owned()),
            QueryScalar::String("blue".to_owned()),
        ]),
    };
    let mut request = search_request(QueryScope::Workspace(name.clone()));
    request.predicates = vec![predicate.clone()];
    assert_eq!(
        search_paths_at(&store, context(&store), &request)
            .unwrap()
            .hits
            .iter()
            .map(|hit| hit.path.as_str())
            .collect::<Vec<_>>(),
        vec!["outputs/alpha.log", "outputs/delta.log"]
    );
    assert_eq!(aggregate_count(&store, name.clone(), vec![predicate]), 2);

    let empty = QueryPredicate {
        field_id: field("run.label"),
        operator: QueryOperator::In,
        operand: set_operand([]),
    };
    request.predicates = vec![empty.clone()];
    assert!(search_paths_at(&store, context(&store), &request)
        .unwrap()
        .hits
        .is_empty());
    assert_eq!(aggregate_count(&store, name.clone(), vec![empty]), 0);

    let too_many = (0..=MAX_QUERY_IN_VALUES)
        .map(|index| QueryScalar::String(format!("value-{index:03}")))
        .collect();
    request.predicates = vec![QueryPredicate {
        field_id: field("run.label"),
        operator: QueryOperator::In,
        operand: QueryOperand::Members(ScalarSet::from_values(too_many)),
    }];
    assert_eq!(
        search_paths_at(&store, context(&store), &request),
        Err(QueryError::BoundExceeded {
            field: "predicate_in_values",
            count: MAX_QUERY_IN_VALUES + 1,
            max: MAX_QUERY_IN_VALUES,
        })
    );

    request.predicates[0] = QueryPredicate {
        field_id: field("run.label"),
        operator: QueryOperator::In,
        operand: scalar_operand(QueryScalar::String("blue".to_owned())),
    };
    assert_eq!(
        search_paths_at(&store, context(&store), &request),
        Err(QueryError::InvalidPredicate {
            field_id: field("run.label"),
            reason: "in requires a canonical set operand",
        })
    );

    request.predicates[0].operand = set_operand([
        QueryScalar::String("blue".to_owned()),
        QueryScalar::Unsigned(1),
    ]);
    assert_eq!(
        search_paths_at(&store, context(&store), &request),
        Err(QueryError::InvalidPredicate {
            field_id: field("run.label"),
            reason: "comparison value has a different scalar type",
        })
    );

    request.predicates[0] = QueryPredicate {
        field_id: field("run.label"),
        operator: QueryOperator::Equal,
        operand: set_operand([QueryScalar::String("blue".to_owned())]),
    };
    assert_eq!(
        search_paths_at(&store, context(&store), &request),
        Err(QueryError::InvalidPredicate {
            field_id: field("run.label"),
            reason: "comparison operator requires one scalar operand",
        })
    );
}

#[test]
fn not_exists_means_absent_while_null_remains_a_present_scalar() {
    let (store, name) = predicate_store();
    let mut request = search_request(QueryScope::Workspace(name.clone()));
    let missing_label = QueryPredicate {
        field_id: field("run.label"),
        operator: QueryOperator::NotExists,
        operand: QueryOperand::Absent,
    };
    request.predicates = vec![missing_label.clone()];
    assert_eq!(
        search_paths_at(&store, context(&store), &request)
            .unwrap()
            .hits
            .iter()
            .map(|hit| hit.path.as_str())
            .collect::<Vec<_>>(),
        vec!["outputs/gamma.log"]
    );
    assert_eq!(
        aggregate_count(&store, name.clone(), vec![missing_label]),
        1
    );

    request.predicates = vec![QueryPredicate {
        field_id: field("run.null"),
        operator: QueryOperator::NotExists,
        operand: QueryOperand::Absent,
    }];
    assert_eq!(
        search_paths_at(&store, context(&store), &request)
            .unwrap()
            .hits
            .iter()
            .map(|hit| hit.path.as_str())
            .collect::<Vec<_>>(),
        vec!["outputs/beta.txt", "outputs/delta.log", "outputs/gamma.log"]
    );

    request.predicates[0] = QueryPredicate {
        field_id: field("run.null"),
        operator: QueryOperator::Equal,
        operand: scalar_operand(QueryScalar::Null),
    };
    assert_eq!(
        search_paths_at(&store, context(&store), &request)
            .unwrap()
            .hits
            .iter()
            .map(|hit| hit.path.as_str())
            .collect::<Vec<_>>(),
        vec!["outputs/alpha.log"]
    );

    request.predicates[0] = QueryPredicate {
        field_id: field("producer"),
        operator: QueryOperator::NotExists,
        operand: QueryOperand::Absent,
    };
    assert!(search_paths_at(&store, context(&store), &request)
        .unwrap()
        .hits
        .is_empty());

    request.predicates[0].operand = scalar_operand(QueryScalar::Null);
    assert_eq!(
        search_paths_at(&store, context(&store), &request),
        Err(QueryError::InvalidPredicate {
            field_id: field("producer"),
            reason: "existence operators require the no-value operand",
        })
    );
}

#[test]
fn catalog_advertises_only_executable_operator_sets_and_pages_stably() {
    let (store, name) = predicate_store();
    let mut request = CatalogRequest {
        scope: QueryScope::Workspace(name),
        path_prefix: Some(path("outputs")),
        field_prefix: None,
        cursor: None,
        limit: MAX_QUERY_PAGE_SIZE,
    };
    let full = catalog_fields_at(&store, context(&store), &request).unwrap();
    let operators = |field_id: &str| {
        full.fields
            .iter()
            .find(|candidate| candidate.field_id == field(field_id))
            .unwrap()
            .operators
            .clone()
    };
    let text_operators = vec![
        QueryOperator::Equal,
        QueryOperator::NotEqual,
        QueryOperator::In,
        QueryOperator::Less,
        QueryOperator::LessOrEqual,
        QueryOperator::Greater,
        QueryOperator::GreaterOrEqual,
        QueryOperator::Prefix,
        QueryOperator::Suffix,
        QueryOperator::Contains,
        QueryOperator::Exists,
        QueryOperator::NotExists,
    ];
    assert_eq!(operators("path"), text_operators);
    assert_eq!(operators("run.bytes"), text_operators);
    assert_eq!(
        operators("run.score"),
        vec![
            QueryOperator::Equal,
            QueryOperator::NotEqual,
            QueryOperator::In,
            QueryOperator::Less,
            QueryOperator::LessOrEqual,
            QueryOperator::Greater,
            QueryOperator::GreaterOrEqual,
            QueryOperator::Exists,
            QueryOperator::NotExists,
        ]
    );
    assert_eq!(
        operators("run.null"),
        vec![
            QueryOperator::Equal,
            QueryOperator::NotEqual,
            QueryOperator::In,
            QueryOperator::Less,
            QueryOperator::LessOrEqual,
            QueryOperator::Greater,
            QueryOperator::GreaterOrEqual,
            QueryOperator::Exists,
            QueryOperator::NotExists,
        ]
    );

    let expected = full
        .fields
        .iter()
        .map(|catalog| catalog.field_id.clone())
        .collect::<Vec<_>>();
    request.limit = 3;
    let mut paged = Vec::new();
    loop {
        let page = catalog_fields_at(&store, context(&store), &request).unwrap();
        paged.extend(page.fields.into_iter().map(|catalog| catalog.field_id));
        let Some(cursor) = page.next_cursor else {
            break;
        };
        request.cursor = Some(cursor);
    }
    assert_eq!(paged, expected);
    assert!(paged.windows(2).all(|pair| pair[0] < pair[1]));
}

#[test]
fn historical_context_freezes_rows_and_rejects_cross_version_cursor() {
    let store = ready_store();
    let name = workbench("frozen");
    let incarnation_id = incarnation(7);
    let old_entry = entry(
        10,
        1,
        vec![("run.phase", QueryScalar::String("old".into()))],
    );
    let created = put_records(
        &store,
        vec![
            workspace_row(&name, incarnation_id, WorkspaceState::Visible),
            path_row(incarnation_id, "outputs/value", &old_entry),
        ],
    );
    let new_entry = entry(
        20,
        2,
        vec![("run.phase", QueryScalar::String("new".into()))],
    );
    put_records(
        &store,
        vec![path_row(incarnation_id, "outputs/value", &new_entry)],
    );

    let mut request = search_request(QueryScope::Workspace(name));
    request.projection = vec![field("run.phase")];
    request.limit = 1;
    let frozen = search_paths_at(&store, context_at(created), &request).unwrap();
    assert_eq!(frozen.hits[0].generation.get(), 1);
    assert_eq!(
        frozen.hits[0].projection.get(&field("run.phase")),
        Some(&QueryScalar::String("old".into()))
    );
    let live = search_paths_at(&store, context(&store), &request).unwrap();
    assert_eq!(live.hits[0].generation.get(), 2);
    assert_eq!(
        live.hits[0].projection.get(&field("run.phase")),
        Some(&QueryScalar::String("new".into()))
    );

    let forged = encode_cursor(
        CursorKind::Search,
        context_at(created).read_version,
        &search_digest(&request),
        b"missing",
    );
    request.cursor = Some(forged);
    assert_eq!(
        search_paths_at(&store, context(&store), &request),
        Err(QueryError::CursorReadVersionMismatch {
            cursor: created.get(),
            request: context(&store).read_version.get(),
        })
    );
}

#[test]
fn committed_discovery_uses_visible_marker_and_head_scans() {
    let store = ready_store();
    let committed = workbench("committed");
    let open = workbench("open");
    let hidden = workbench("hidden");
    let committed_incarnation = incarnation(8);
    let open_incarnation = incarnation(9);
    let hidden_incarnation = incarnation(10);
    let commit_id = CommitId::from_bytes([0x55; SHA256_BYTES]);
    put_records(
        &store,
        vec![
            workspace_row(&committed, committed_incarnation, WorkspaceState::Visible),
            workspace_row(&open, open_incarnation, WorkspaceState::Visible),
            workspace_row(&hidden, hidden_incarnation, WorkspaceState::Staging),
            Row::Head(
                committed_incarnation,
                WorkbenchCommitHeadRecord {
                    commit_id,
                    head_generation: Generation::new(2).unwrap(),
                },
                ),
            Row::Head(
                hidden_incarnation,
                WorkbenchCommitHeadRecord {
                    commit_id: CommitId::from_bytes([0x66; SHA256_BYTES]),
                    head_generation: Generation::new(1).unwrap(),
                },
                ),
        ],
    );

    let committed_page = find_workspaces_at(
        &store,
        context(&store),
        &FindWorkspacesRequest {
            committed: CommittedFilter::Committed,
            cursor: None,
            limit: 10,
        },
    )
    .unwrap();
    assert_eq!(
        committed_page.workspaces,
        vec![WorkspaceDiscovery {
            workbench_id: committed,
            workspace_incarnation_id: committed_incarnation,
            workspace_revision: WorkspaceRevision::new(1),
            commit_id: Some(commit_id),
            commit_head_generation: Some(Generation::new(2).unwrap()),
        }]
    );
    let open_page = find_workspaces_at(
        &store,
        context(&store),
        &FindWorkspacesRequest {
            committed: CommittedFilter::Uncommitted,
            cursor: None,
            limit: 10,
        },
    )
    .unwrap();
    assert_eq!(open_page.workspaces.len(), 1);
    assert_eq!(open_page.workspaces[0].workbench_id, open);
}

#[test]
fn strict_change_pages_gate_at_event_version_and_scope() {
    let store = ready_store();
    let visible = workbench("events");
    let hidden = workbench("hidden-events");
    let visible_incarnation = incarnation(11);
    let hidden_incarnation = incarnation(12);
    put_records(
        &store,
        vec![
            workspace_row(&visible, visible_incarnation, WorkspaceState::Visible),
            workspace_row(&hidden, hidden_incarnation, WorkspaceState::Staging),
        ],
    );
    let visible_event = ChangeEventRecord {
        workbench_id: visible.clone(),
        workspace_incarnation_id: visible_incarnation,
        kind: ChangeEventKind::ArtifactPublished,
        artifact_revision_id: None,
        commit_id: None,
        operation_id: None,
        path: Some(path("outputs/result")),
        before: TypedProjection::new(),
        after: projection(vec![("run.status", QueryScalar::String("done".into()))]),
    };
    let hidden_event = ChangeEventRecord {
        workbench_id: hidden.clone(),
        workspace_incarnation_id: hidden_incarnation,
        kind: ChangeEventKind::WorkspaceRestored,
        artifact_revision_id: None,
        commit_id: None,
        operation_id: None,
        path: None,
        before: TypedProjection::new(),
        after: TypedProjection::new(),
    };
    let mismatched_name_event = ChangeEventRecord {
        workbench_id: workbench("forged-events"),
        workspace_incarnation_id: visible_incarnation,
        kind: ChangeEventKind::ArtifactPublished,
        artifact_revision_id: None,
        commit_id: None,
        operation_id: None,
        path: Some(path("outputs/forged")),
        before: TypedProjection::new(),
        after: TypedProjection::new(),
    };
    let event_version = put_events(&store,
        vec![visible_event.clone(), hidden_event, mismatched_name_event]);

    let page = read_changes_at(
        &store,
        context(&store),
        &ChangePageRequest {
            scope: QueryScope::Root,
            after_commit_version: None,
            cursor: None,
            limit: 10,
        },
    )
    .unwrap();
    assert_eq!(page.events.len(), 1);
    assert_eq!(page.events[0].workbench_id, visible);
    assert_eq!(page.events[0].commit_version, event_version);
    assert_eq!(page.events[0].sequence, 0);
    assert_eq!(page.events[0].event, visible_event);

    assert!(read_changes_at(
        &store,
        context(&store),
        &ChangePageRequest {
            scope: QueryScope::Workspace(workbench("other")),
            after_commit_version: None,
            cursor: None,
            limit: 10,
        },
    )
    .unwrap()
    .events
    .is_empty());
    assert!(read_changes_at(
        &store,
        context(&store),
        &ChangePageRequest {
            scope: QueryScope::Root,
            after_commit_version: Some(event_version),
            cursor: None,
            limit: 10,
        },
    )
    .unwrap()
    .events
    .is_empty());

    let current = context(&store);
    let future = CommitVersion::new(current.read_version.get() + 1).unwrap();
    assert_eq!(
        read_changes_at(
            &store,
            current,
            &ChangePageRequest {
                scope: QueryScope::Root,
                after_commit_version: Some(future),
                cursor: None,
                limit: 10,
            },
        ),
        Err(QueryError::Engine(
            AgentMetadataError::ReadVersionInFuture {
                requested: future.get(),
                current: current.read_version.get(),
            }
        ))
    );
}

#[test]
fn change_cursor_resumes_mid_commit_after_the_root_advances() {
    let store = ready_store();
    let name = workbench("cursor-events");
    let incarnation_id = incarnation(14);
    put_records(
        &store,
        vec![workspace_row(
            &name,
            incarnation_id,
            WorkspaceState::Visible,
        )],
    );
    let event = |path_value: &str| ChangeEventRecord {
        workbench_id: name.clone(),
        workspace_incarnation_id: incarnation_id,
        kind: ChangeEventKind::ArtifactPublished,
        artifact_revision_id: None,
        commit_id: None,
        operation_id: None,
        path: Some(path(path_value)),
        before: TypedProjection::new(),
        after: TypedProjection::new(),
    };
    let first_commit = put_events(&store,
        vec![event("outputs/first"), event("outputs/second")]);
    let request = ChangePageRequest {
        scope: QueryScope::Root,
        after_commit_version: None,
        cursor: None,
        limit: 1,
    };
    let first = read_changes_at(&store, context(&store), &request).unwrap();
    assert_eq!(first.events.len(), 1);
    assert_eq!(first.events[0].commit_version, first_commit);
    assert_eq!(first.events[0].sequence, 0);
    let first_cursor = first.next_cursor.expect("second event is lookahead");

    let later_commit = put_events(&store,
        vec![event("outputs/later")]);
    let second = read_changes_at(
        &store,
        context(&store),
        &ChangePageRequest {
            cursor: Some(first_cursor.clone()),
            ..request.clone()
        },
    )
    .unwrap();
    assert_eq!(second.events.len(), 1);
    assert_eq!(second.events[0].commit_version, first_commit);
    assert_eq!(second.events[0].sequence, 1);
    let second_cursor = second.next_cursor.expect("later commit is lookahead");

    let third = read_changes_at(
        &store,
        context(&store),
        &ChangePageRequest {
            cursor: Some(second_cursor),
            ..request.clone()
        },
    )
    .unwrap();
    assert_eq!(third.events.len(), 1);
    assert_eq!(third.events[0].commit_version, later_commit);
    assert_eq!(third.events[0].sequence, 0);
    assert!(third.next_cursor.is_none());

    let after_first_commit = read_changes_at(
        &store,
        context(&store),
        &ChangePageRequest {
            scope: QueryScope::Root,
            after_commit_version: Some(first_commit),
            cursor: None,
            limit: 10,
        },
    )
    .unwrap();
    assert_eq!(after_first_commit.events.len(), 1);
    assert_eq!(after_first_commit.events[0].commit_version, later_commit);

    let workspace_request = ChangePageRequest {
        scope: QueryScope::Workspace(name.clone()),
        cursor: Some(first_cursor.clone()),
        ..request.clone()
    };
    assert_eq!(
        read_changes_at(&store, context(&store), &workspace_request),
        Err(QueryError::CursorQueryMismatch)
    );

    let workspace_first = read_changes_at(
        &store,
        context(&store),
        &ChangePageRequest {
            scope: QueryScope::Workspace(name.clone()),
            cursor: None,
            ..request.clone()
        },
    )
    .unwrap();
    let workspace_cursor = workspace_first
        .next_cursor
        .expect("workspace scope has additional events");
    assert_eq!(
        read_changes_at(
            &store,
            context(&store),
            &ChangePageRequest {
                scope: QueryScope::Workspace(workbench("other-workspace")),
                cursor: Some(workspace_cursor),
                ..request.clone()
            },
        ),
        Err(QueryError::CursorQueryMismatch)
    );

    let mut legacy_message = b"nokv.query.changes.v1\0".to_vec();
    legacy_message.extend_from_slice(&[1, 0]);
    let legacy_cursor = encode_cursor(
        CursorKind::Changes,
        first.read_version,
        &digest::digest(&legacy_message),
        &change_event_identity(first.events[0].commit_version, first.events[0].sequence),
    );
    assert_eq!(
        read_changes_at(
            &store,
            context(&store),
            &ChangePageRequest {
                cursor: Some(legacy_cursor),
                ..request.clone()
            },
        ),
        Err(QueryError::CursorQueryMismatch)
    );

    let foreign_context = RootReadContext {
        root_id: RootId::from_bytes([9; FIXED_ID_BYTES]),
        ..context(&store)
    };
    assert_eq!(
        decode_change_cursor(
            &first_cursor,
            foreign_context.read_version,
            &change_digest(foreign_context.root_id, &request),
            None,
        ),
        Err(QueryError::CursorQueryMismatch)
    );
}

#[test]
fn change_page_stops_after_visible_lookahead_before_decoding_later_events() {
    let store = ready_store();
    let name = workbench("bounded-events");
    let incarnation_id = incarnation(15);
    put_records(
        &store,
        vec![workspace_row(
            &name,
            incarnation_id,
            WorkspaceState::Visible,
        )],
    );
    let valid_event = ChangeEventRecord {
        workbench_id: name.clone(),
        workspace_incarnation_id: incarnation_id,
        kind: ChangeEventKind::ArtifactPublished,
        artifact_revision_id: None,
        commit_id: None,
        operation_id: None,
        path: Some(path("outputs/valid")),
        before: TypedProjection::new(),
        after: TypedProjection::new(),
    };
    put_events(&store,
        vec![valid_event.clone()]);
    put_events(&store,
        vec![valid_event]);

    store.write(
        Vec::new(),
        vec![Err("invalid change event envelope".to_owned())],
    );

    let page = read_changes_at(
        &store,
        context(&store),
        &ChangePageRequest {
            scope: QueryScope::Root,
            after_commit_version: None,
            cursor: None,
            limit: 1,
        },
    )
    .unwrap();
    assert_eq!(page.events.len(), 1);
    assert!(page.next_cursor.is_some());
}

#[test]
fn more_than_engine_batch_pages_stably_after_file_reopen() {
    let store = ready_store();
    let name = workbench("large");
    let incarnation_id = incarnation(13);
    put_records(
        &store,
        vec![workspace_row(
            &name,
            incarnation_id,
            WorkspaceState::Visible,
        )],
    );
    for range in [0..200, 200..350] {
        let records = range
            .map(|index| {
                path_row(
                    incarnation_id,
                    &format!("outputs/item-{index:04}"),
                    &entry(
                        index + 1,
                        1,
                        vec![("row.number", QueryScalar::Unsigned(index))],
                    ),
                )
            })
            .collect();
        put_records(&store, records);
    }
    let frozen = context(&store);

    let store = Store {
        records: store.records,
    };
    let mut request = search_request(QueryScope::Workspace(name));
    request.projection = vec![field("row.number")];
    request.limit = 73;
    let mut paths = Vec::new();
    loop {
        let page = search_paths_at(&store, frozen, &request).unwrap();
        paths.extend(page.hits.into_iter().map(|hit| hit.path));
        let Some(cursor) = page.next_cursor else {
            break;
        };
        request.cursor = Some(cursor);
    }
    assert_eq!(paths.len(), 350);
    assert_eq!(paths.first().unwrap().as_str(), "outputs/item-0000");
    assert_eq!(paths.last().unwrap().as_str(), "outputs/item-0349");
    assert!(paths.windows(2).all(|pair| pair[0] < pair[1]));

    request.cursor = None;
    let first = search_paths_at(&store, frozen, &request).unwrap();
    let mut changed_request = request;
    changed_request.predicates = vec![QueryPredicate {
        field_id: field("row.number"),
        operator: QueryOperator::Greater,
        operand: QueryScalar::Unsigned(10).into(),
    }];
    changed_request.cursor = first.next_cursor;
    assert_eq!(
        search_paths_at(&store, frozen, &changed_request),
        Err(QueryError::CursorQueryMismatch)
    );
}

#[test]
fn row_counts_equal_the_hits_of_a_whole_search() {
    let (store, name) = predicate_store();
    let labelled = |values: Vec<&str>| QueryPredicate {
        field_id: field("run.label"),
        operator: QueryOperator::In,
        operand: set_operand(
            values
                .into_iter()
                .map(|value| QueryScalar::String(value.to_owned())),
        ),
    };
    for (predicates, expected) in [
        (Vec::new(), 4),
        (vec![labelled(vec!["blue", "red", "green"])], 3),
        (vec![labelled(vec!["red"])], 1),
        (vec![labelled(Vec::new())], 0),
    ] {
        let mut request = search_request(QueryScope::Workspace(name.clone()));
        request.path_prefix = Some(path("outputs"));
        request.predicates = predicates.clone();
        request.facets = vec![field("run.label")];
        request.limit = 1;
        let mut found = Vec::new();
        let mut facets = None;
        loop {
            let page = search_paths_at(&store, context(&store), &request).unwrap();
            assert!(page.hits.len() == 1 || page.next_cursor.is_none());
            found.extend(page.hits.into_iter().map(|hit| hit.path));
            assert_eq!(*facets.get_or_insert(page.facets.clone()), page.facets);
            request.cursor = page.next_cursor;
            if request.cursor.is_none() {
                break;
            }
        }
        assert_eq!(found.len(), expected);
        let total = found.len();
        found.sort_by(|left, right| left.as_str().cmp(right.as_str()));
        found.dedup();
        assert_eq!(found.len(), total);
        assert_eq!(
            aggregate_count(&store, name.clone(), predicates),
            expected as u64
        );
    }
}
