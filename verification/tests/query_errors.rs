//! Queries that are refused, and why; pages and totals on given rows.

use nokv_meta::ids::{ArtifactRevisionId, CommitId, RootId, WorkspaceIncarnationId};
use nokv_meta::names::{NormalizedRelativePath, QueryFieldId, WorkbenchId};
use nokv_meta::namespace_types::{NamespaceError, RootReadContext};
use nokv_meta::positions::{
    CommitVersion, Generation, OwnerEpoch, PlacementGeneration, ReadVersion, WorkspaceRevision,
};
use nokv_meta::query_aggregate::aggregate_paths_at;
use nokv_meta::query_changes::{read_changes_at, ChangeAction, ChangeItem, ChangePosition};
use nokv_meta::query_cursor::{
    change_event_identity, decode_cursor, encode_cursor, encode_row_identity, CursorKind,
};
use nokv_meta::query_digests::{
    aggregate_digest, catalog_digest, change_digest, find_digest, search_digest, search_message,
};
use nokv_meta::query_discovery::{
    catalog_fields_at, find_workspaces_at, get_workspace_at, scan_commit_heads, CommitHeadItem,
};
use nokv_meta::query_rows::{
    collect_rows, path_is_at_or_below, scan_visible_workspaces, workbench_scope, CollectedRows,
    MaterializedRow, PathItem, VisibleWorkspace, WorkspaceItem,
};
use nokv_meta::query_search::search_paths_at;
use nokv_meta::query_tally::{AggregateAccumulator, SumState};
use nokv_meta::query_types::{
    AggregateFunction, AggregateRequest, AggregateSpec, CatalogRequest, ChangePageRequest,
    CommittedFilter, FindWorkspacesRequest, QueryError, QueryOperand, QueryOperator,
    QueryPredicate, QueryScope, QuerySort, QuerySortDirection, SearchRequest,
    MAX_QUERY_CURSOR_BYTES, MAX_QUERY_PAGE_SIZE, MAX_QUERY_SORT_FIELDS,
};
use nokv_meta::scalars::{FiniteFloat, QueryScalar, QueryScalarType};
use nokv_meta::states::WorkspaceState;
use nokv_meta::store_records::{
    AgentMetadataError, ChangeEventKind, ChangeEventRecord, PathEntry, TypedProjection,
    WorkbenchCommitHeadRecord, WorkspaceRecord,
};

fn field(value: &str) -> QueryFieldId {
    QueryFieldId::new(value).unwrap()
}

fn path(value: &str) -> NormalizedRelativePath {
    NormalizedRelativePath::new(value).unwrap()
}

fn workbench(value: &str) -> WorkbenchId {
    WorkbenchId::new(value).unwrap()
}

fn context() -> RootReadContext {
    RootReadContext {
        root_id: RootId::from_bytes([2; 16]),
        placement_generation: PlacementGeneration::new(7).unwrap(),
        owner_epoch: OwnerEpoch::new(1).unwrap(),
        read_version: ReadVersion::new(9).unwrap(),
    }
}

fn entry(size: u64) -> PathEntry {
    PathEntry {
        generation: Generation::new(1).unwrap(),
        artifact_revision_id: ArtifactRevisionId::from_bytes([4; 16]),
        body_digest_uri: "sha256:body".to_owned(),
        manifest_digest_uri: "sha256:manifest".to_owned(),
        logical_size: size,
        dependency_count: 0,
        dependency_depth: 0,
        content_type: "text/plain".to_owned(),
        producer: None,
        manifest_id: None,
        typed_index_projection: Vec::new(),
    }
}

fn row(name: &str, fields: Vec<(&str, QueryScalar)>) -> MaterializedRow {
    let mut projection = TypedProjection::new();
    for (name, value) in fields {
        projection.insert(field(name), value);
    }
    MaterializedRow {
        workbench_id: workbench("wb"),
        path: path(name),
        entry: entry(1),
        projection,
    }
}

fn collected(rows: Vec<MaterializedRow>) -> CollectedRows {
    CollectedRows {
        rows,
        scope_visible: true,
    }
}

fn search_request() -> SearchRequest {
    SearchRequest {
        scope: QueryScope::Root,
        path_prefix: None,
        predicates: Vec::new(),
        projection: Vec::new(),
        sort: Vec::new(),
        facets: Vec::new(),
        cursor: None,
        limit: 10,
    }
}

fn aggregate_request(function: AggregateFunction, name: Option<&str>) -> AggregateRequest {
    AggregateRequest {
        scope: QueryScope::Root,
        path_prefix: None,
        predicates: Vec::new(),
        group_by: Vec::new(),
        aggregates: vec![AggregateSpec {
            result_id: field("out"),
            function,
            field_id: name.map(field),
        }],
        sort: Vec::new(),
        cursor: None,
        limit: 10,
    }
}

fn catalog_request() -> CatalogRequest {
    CatalogRequest {
        scope: QueryScope::Root,
        path_prefix: None,
        field_prefix: None,
        cursor: None,
        limit: 10,
    }
}

fn float(value: f64) -> QueryScalar {
    QueryScalar::Float(FiniteFloat::from_bits(value.to_bits()).unwrap())
}

fn fold(accumulator: &AggregateAccumulator) -> u64 {
    let folded = match accumulator {
        AggregateAccumulator::Sum(SumState::Floats(list)) => list
            .iter()
            .fold(0.0, |sum, value| sum + f64::from_bits(value.to_bits())),
        AggregateAccumulator::Average(list) => {
            let total = list.iter().fold(0.0, |sum, value| {
                sum + match value {
                    QueryScalar::Signed(value) => *value as f64,
                    QueryScalar::Unsigned(value) => *value as f64,
                    QueryScalar::Float(value) => f64::from_bits(value.to_bits()),
                    _ => 0.0,
                }
            });
            total / list.len() as f64
        }
        _ => 0.0,
    };
    folded.to_bits()
}

fn total(rows: Vec<MaterializedRow>, request: &AggregateRequest) -> Result<QueryScalar, QueryError> {
    aggregate_paths_at(collected(rows), context(), request, &fold)
        .map(|page| page.groups[0].values.get(&field("out")).unwrap().clone())
}

#[test]
fn pages_have_a_size() {
    for limit in [0, MAX_QUERY_PAGE_SIZE + 1] {
        let request = SearchRequest {
            limit,
            ..search_request()
        };
        assert_eq!(
            search_paths_at(collected(Vec::new()), context(), &request),
            Err(QueryError::InvalidLimit {
                requested: limit,
                max: MAX_QUERY_PAGE_SIZE
            })
        );
    }
    assert_eq!(
        QueryError::<QueryFieldId, WorkbenchId, String>::CursorQueryMismatch.message(),
        "query cursor belongs to a different request"
    );
}

#[test]
fn unknown_and_repeated_fields_are_refused() {
    let mut request = search_request();
    request.projection = vec![field("run.none")];
    assert_eq!(
        search_paths_at(collected(Vec::new()), context(), &request),
        Err(QueryError::UnknownField {
            field_id: field("run.none")
        })
    );
    request.projection = vec![field("path"), field("path")];
    assert_eq!(
        search_paths_at(collected(Vec::new()), context(), &request),
        Err(QueryError::BoundExceeded {
            field: "projection",
            count: 2,
            max: 1
        })
    );
    let mut sorted = search_request();
    for _ in 0..=MAX_QUERY_SORT_FIELDS {
        sorted.sort.push(QuerySort {
            field_id: field("path"),
            direction: QuerySortDirection::Ascending,
        });
    }
    assert_eq!(
        search_paths_at(collected(Vec::new()), context(), &sorted),
        Err(QueryError::BoundExceeded {
            field: "sort",
            count: MAX_QUERY_SORT_FIELDS + 1,
            max: MAX_QUERY_SORT_FIELDS
        })
    );
}

#[test]
fn a_field_has_one_type() {
    let rows = vec![
        row("a", vec![("run.x", QueryScalar::Unsigned(1))]),
        row("b", vec![("run.x", QueryScalar::Boolean(true))]),
    ];
    assert_eq!(
        search_paths_at(collected(rows), context(), &search_request()),
        Err(QueryError::FieldTypeConflict {
            field_id: field("run.x"),
            left: QueryScalarType::Unsigned,
            right: QueryScalarType::Boolean
        })
    );
}

#[test]
fn damaged_cursors_are_refused() {
    let run = |cursor: Vec<u8>| {
        let request = SearchRequest {
            cursor: Some(cursor),
            ..search_request()
        };
        search_paths_at(collected(vec![row("a", Vec::new())]), context(), &request)
    };
    assert_eq!(
        run(vec![0; MAX_QUERY_CURSOR_BYTES + 1]),
        Err(QueryError::CursorTooLarge {
            length: MAX_QUERY_CURSOR_BYTES + 1,
            max: MAX_QUERY_CURSOR_BYTES
        })
    );
    assert_eq!(
        run(vec![1, 1]),
        Err(QueryError::InvalidCursor {
            reason: "unsupported version or truncated header"
        })
    );
    let digest = search_digest(&search_request());
    let missing = encode_cursor(
        CursorKind::Search,
        context().read_version,
        &digest,
        &encode_row_identity(&workbench("wb"), &path("gone")),
    );
    assert_eq!(run(missing.clone()), Err(QueryError::CursorAnchorMissing));
    let mut unknown = missing.clone();
    unknown[1] = 0xff;
    assert_eq!(
        run(unknown),
        Err(QueryError::InvalidCursor {
            reason: "unknown cursor kind"
        })
    );
    let mut longer = missing.clone();
    longer.push(0);
    assert_eq!(
        run(longer),
        Err(QueryError::InvalidCursor {
            reason: "anchor length does not consume the exact cursor"
        })
    );
    let foreign = encode_cursor(CursorKind::Catalog, context().read_version, &digest, b"a");
    assert_eq!(
        run(foreign),
        Err(QueryError::InvalidCursor {
            reason: "cursor kind does not match operation"
        })
    );
    let decoded = decode_cursor(&missing).unwrap();
    assert_eq!(decoded.kind, CursorKind::Search);
    assert_eq!(decoded.read_version, 9);
    assert_eq!(decoded.request_digest, digest);
}

#[test]
fn different_requests_have_different_digests() {
    let base = search_request();
    let mut limited = search_request();
    limited.limit = 3;
    limited.cursor = Some(vec![1]);
    assert_eq!(search_digest(&base), search_digest(&limited));
    let mut scoped = search_request();
    scoped.scope = QueryScope::Workspace(workbench("wb"));
    let mut below = search_request();
    below.path_prefix = Some(path("a"));
    let mut picked = search_request();
    picked.predicates = vec![QueryPredicate {
        field_id: field("path"),
        operator: QueryOperator::Equal,
        operand: QueryOperand::Scalar(QueryScalar::String("a".to_owned())),
    }];
    for other in [&scoped, &below, &picked] {
        assert_ne!(search_digest(&base), search_digest(other));
    }
    assert!(search_message(&base).starts_with(b"nokv.query.search.v1\0\x01"));
    let aggregate = aggregate_request(AggregateFunction::Count, None);
    let renamed = AggregateRequest {
        aggregates: vec![AggregateSpec {
            result_id: field("other"),
            function: AggregateFunction::Count,
            field_id: None,
        }],
        ..aggregate_request(AggregateFunction::Count, None)
    };
    assert_ne!(aggregate_digest(&aggregate), aggregate_digest(&renamed));
    let prefixed = CatalogRequest {
        field_prefix: Some("run".to_owned()),
        ..catalog_request()
    };
    assert_ne!(catalog_digest(&catalog_request()), catalog_digest(&prefixed));
    let find = |committed| FindWorkspacesRequest {
        committed,
        cursor: None,
        limit: 1,
    };
    assert_ne!(
        find_digest(&find(CommittedFilter::Any)),
        find_digest(&find(CommittedFilter::Committed))
    );
    let changes = ChangePageRequest {
        scope: QueryScope::Root,
        after_commit_version: None,
        cursor: None,
        limit: 1,
    };
    assert_ne!(
        change_digest(RootId::from_bytes([2; 16]), &changes),
        change_digest(RootId::from_bytes([3; 16]), &changes)
    );
}

#[test]
fn totals_are_exact() {
    let numbers = |values: &[QueryScalar]| {
        values
            .iter()
            .enumerate()
            .map(|(index, value)| row(&format!("p{index}"), vec![("run.x", value.clone())]))
            .collect::<Vec<_>>()
    };
    let unsigned = [QueryScalar::Unsigned(2), QueryScalar::Unsigned(5)];
    assert_eq!(
        total(
            numbers(&unsigned),
            &aggregate_request(AggregateFunction::Sum, Some("run.x"))
        ),
        Ok(QueryScalar::Unsigned(7))
    );
    let signed = [QueryScalar::Signed(-2), QueryScalar::Signed(5)];
    assert_eq!(
        total(
            numbers(&signed),
            &aggregate_request(AggregateFunction::Sum, Some("run.x"))
        ),
        Ok(QueryScalar::Signed(3))
    );
    let floats = [float(1.5), float(2.25)];
    assert_eq!(
        total(
            numbers(&floats),
            &aggregate_request(AggregateFunction::Sum, Some("run.x"))
        ),
        Ok(float(3.75))
    );
    assert_eq!(
        total(
            numbers(&floats),
            &aggregate_request(AggregateFunction::Average, Some("run.x"))
        ),
        Ok(float(1.875))
    );
    assert_eq!(
        total(
            numbers(&floats),
            &aggregate_request(AggregateFunction::Minimum, Some("run.x"))
        ),
        Ok(float(1.5))
    );
    assert_eq!(
        total(
            numbers(&floats),
            &aggregate_request(AggregateFunction::Maximum, Some("run.x"))
        ),
        Ok(float(2.25))
    );
    let overflowing = [QueryScalar::Unsigned(u64::MAX), QueryScalar::Unsigned(1)];
    assert_eq!(
        total(
            numbers(&overflowing),
            &aggregate_request(AggregateFunction::Sum, Some("run.x"))
        ),
        Err(QueryError::AggregateOverflow {
            result_id: field("out")
        })
    );
    let infinite = [float(f64::MAX), float(f64::MAX)];
    assert!(total(
        numbers(&infinite),
        &aggregate_request(AggregateFunction::Sum, Some("run.x"))
    )
    .is_err());
    assert_eq!(
        total(
            Vec::new(),
            &aggregate_request(AggregateFunction::Count, None)
        ),
        Ok(QueryScalar::Unsigned(0))
    );
}

#[test]
fn aggregates_are_checked_before_rows_are_read() {
    assert_eq!(
        total(
            Vec::new(),
            &aggregate_request(AggregateFunction::Sum, None)
        ),
        Err(QueryError::InvalidAggregate {
            result_id: field("out"),
            reason: "aggregate function requires a field"
        })
    );
    let texts = vec![row("a", vec![("run.x", QueryScalar::String("x".to_owned()))])];
    assert!(matches!(
        total(
            texts,
            &aggregate_request(AggregateFunction::Sum, Some("run.x"))
        ),
        Err(QueryError::InvalidAggregate { .. })
    ));
    let mut repeated = aggregate_request(AggregateFunction::Count, None);
    repeated.aggregates.push(AggregateSpec {
        result_id: field("out"),
        function: AggregateFunction::Count,
        field_id: None,
    });
    assert_eq!(
        total(Vec::new(), &repeated),
        Err(QueryError::InvalidAggregate {
            result_id: field("out"),
            reason: "result ids must be unique"
        })
    );
    let mut shadowing = aggregate_request(AggregateFunction::Count, None);
    shadowing.group_by = vec![field("out")];
    assert_eq!(
        total(Vec::new(), &shadowing),
        Err(QueryError::InvalidAggregate {
            result_id: field("out"),
            reason: "result id shadows a group field"
        })
    );
}

#[test]
fn aggregate_pages_follow_their_cursors() {
    let rows = || {
        ["c", "a", "b", "a"]
            .iter()
            .enumerate()
            .map(|(index, group)| {
                row(
                    &format!("p{index}"),
                    vec![("run.group", QueryScalar::String((*group).to_owned()))],
                )
            })
            .collect::<Vec<_>>()
    };
    let mut request = aggregate_request(AggregateFunction::Count, None);
    request.group_by = vec![field("run.group")];
    request.limit = 1;
    let mut seen = Vec::new();
    loop {
        let page = aggregate_paths_at(collected(rows()), context(), &request, &fold).unwrap();
        for group in &page.groups {
            seen.push((
                group.keys.get(&field("run.group")).unwrap().clone(),
                group.values.get(&field("out")).unwrap().clone(),
            ));
        }
        let Some(cursor) = page.next_cursor else {
            break;
        };
        request.cursor = Some(cursor);
    }
    let text = |value: &str| QueryScalar::String(value.to_owned());
    assert_eq!(
        seen,
        vec![
            (text("a"), QueryScalar::Unsigned(2)),
            (text("b"), QueryScalar::Unsigned(1)),
            (text("c"), QueryScalar::Unsigned(1)),
        ]
    );
}

#[test]
fn field_prefixes_hold_field_bytes() {
    let run = |prefix: String| {
        let request = CatalogRequest {
            field_prefix: Some(prefix),
            ..catalog_request()
        };
        catalog_fields_at(&collected(Vec::new()), context(), &request)
    };
    assert_eq!(
        run("x".repeat(129)),
        Err(QueryError::InvalidFieldPrefix {
            reason: "prefix exceeds 128 bytes".to_owned()
        })
    );
    assert_eq!(
        run("run status".to_owned()),
        Err(QueryError::InvalidFieldPrefix {
            reason: "unsupported byte 0x20 at offset 3".to_owned()
        })
    );
    let found = run("pa".to_owned()).unwrap();
    assert_eq!(found.fields.len(), 1);
    assert_eq!(found.fields[0].field_id, field("path"));
}

#[test]
fn paths_are_below_by_components() {
    assert!(path_is_at_or_below(&path("a"), &path("a")));
    assert!(path_is_at_or_below(&path("a/b"), &path("a")));
    assert!(!path_is_at_or_below(&path("ab"), &path("a")));
    assert!(!path_is_at_or_below(&path("a"), &path("a/b")));
}

fn workspace(fill: u8) -> WorkspaceRecord {
    WorkspaceRecord {
        incarnation_id: WorkspaceIncarnationId::from_bytes([fill; 16]),
        workspace_revision: WorkspaceRevision::new(1),
        state: WorkspaceState::Visible,
        owning_operation_id: None,
    }
}

#[test]
fn corrupt_workspace_rows_fail_closed() {
    let item = |name: Option<&str>, record| WorkspaceItem {
        workbench_id: name.map(workbench),
        record,
    };
    assert!(matches!(
        scan_visible_workspaces(&vec![item(None, Ok(workspace(3)))]),
        Err(QueryError::CorruptKey {
            family: "WorkspaceCurrent",
            ..
        })
    ));
    assert_eq!(
        scan_visible_workspaces(&vec![item(Some("a"), Err("truncated".to_owned()))]),
        Err(QueryError::WorkspaceCodec {
            source: "truncated".to_owned()
        })
    );
    assert!(matches!(
        scan_visible_workspaces(&vec![
            item(Some("a"), Ok(workspace(3))),
            item(Some("b"), Ok(workspace(3))),
        ]),
        Err(QueryError::CorruptKey { .. })
    ));
    assert_eq!(
        workbench_scope(
            &workbench("a"),
            Err(NamespaceError::Codec {
                record: "WorkspaceCurrent",
                source: "truncated".to_owned()
            })
        ),
        Err(QueryError::WorkspaceCodec {
            source: "truncated".to_owned()
        })
    );
    let lost = AgentMetadataError::Other {
        message: "disk".to_owned(),
    };
    assert_eq!(lost.message(), "disk");
    assert_eq!(
        workbench_scope(&workbench("a"), Err(NamespaceError::Engine(lost.clone()))),
        Err(QueryError::Engine(lost))
    );
}

#[test]
fn corrupt_path_rows_fail_closed() {
    let visible = vec![VisibleWorkspace {
        workbench_id: workbench("a"),
        workspace: workspace(3),
    }];
    let run = |item: PathItem| collect_rows(&visible, vec![Ok(vec![item])], &None);
    let good = || PathItem {
        path: Some(path("p")),
        entry: Ok(entry(1)),
        projection: Ok(TypedProjection::new()),
    };
    assert_eq!(run(good()).unwrap().rows.len(), 1);
    assert!(matches!(
        run(PathItem {
            path: None,
            ..good()
        }),
        Err(QueryError::CorruptKey {
            family: "PathCurrent",
            ..
        })
    ));
    assert_eq!(
        run(PathItem {
            entry: Err("short".to_owned()),
            ..good()
        }),
        Err(QueryError::PathCodec {
            source: "short".to_owned()
        })
    );
    assert_eq!(
        run(PathItem {
            projection: Err("short".to_owned()),
            ..good()
        }),
        Err(QueryError::Projection {
            source: "short".to_owned()
        })
    );
}

#[test]
fn commit_heads_belong_to_their_root() {
    let head = WorkbenchCommitHeadRecord {
        commit_id: CommitId::from_bytes([5; 32]),
        head_generation: Generation::new(2).unwrap(),
    };
    let root = RootId::from_bytes([2; 16]);
    let key = |root: u8| [vec![root; 16], vec![3; 16]].concat();
    let heads = scan_commit_heads(
        &root,
        &vec![CommitHeadItem {
            key: key(2),
            head: Ok(head),
        }],
    )
    .unwrap();
    assert_eq!(heads.len(), 1);
    assert!(matches!(
        scan_commit_heads(
            &root,
            &vec![CommitHeadItem {
                key: key(4),
                head: Ok(head)
            }]
        ),
        Err(QueryError::CorruptKey {
            family: "WorkbenchCommitHead",
            ..
        })
    ));
    assert_eq!(
        scan_commit_heads(
            &root,
            &vec![CommitHeadItem {
                key: key(2),
                head: Err("short".to_owned())
            }]
        ),
        Err(QueryError::CommitHeadCodec {
            source: "short".to_owned()
        })
    );

    let visible = vec![
        VisibleWorkspace {
            workbench_id: workbench("b"),
            workspace: workspace(4),
        },
        VisibleWorkspace {
            workbench_id: workbench("a"),
            workspace: workspace(3),
        },
    ];
    let mut request = FindWorkspacesRequest {
        committed: CommittedFilter::Any,
        cursor: None,
        limit: 1,
    };
    let first = find_workspaces_at(&visible, &heads, context(), &request).unwrap();
    assert_eq!(first.workspaces[0].workbench_id, workbench("a"));
    assert_eq!(first.workspaces[0].commit_id, Some(head.commit_id));
    request.cursor = first.next_cursor;
    let second = find_workspaces_at(&visible, &heads, context(), &request).unwrap();
    assert_eq!(second.workspaces[0].workbench_id, workbench("b"));
    assert_eq!(second.workspaces[0].commit_id, None);
    assert_eq!(second.next_cursor, None);

    let found = get_workspace_at(&workbench("a"), Ok(Some(workspace(3))), Ok(Some(Ok(head))))
        .unwrap()
        .unwrap();
    assert_eq!(found.commit_head_generation, Some(head.head_generation));
    assert_eq!(get_workspace_at(&workbench("a"), Ok(None), Ok(None)), Ok(None));
}

#[test]
fn change_runs_read_their_anchor_first() {
    let event = |name: &str| ChangeEventRecord {
        workbench_id: workbench(name),
        workspace_incarnation_id: WorkspaceIncarnationId::from_bytes([3; 16]),
        kind: ChangeEventKind::ArtifactPublished,
        artifact_revision_id: None,
        commit_id: None,
        operation_id: None,
        path: None,
        before: TypedProjection::new(),
        after: TypedProjection::new(),
    };
    let position = ChangePosition {
        commit_version: CommitVersion::new(5).unwrap(),
        sequence: 1,
    };
    let mut request = ChangePageRequest {
        scope: QueryScope::Root,
        after_commit_version: None,
        cursor: None,
        limit: 1,
    };
    let digest = change_digest(context().root_id, &request);
    request.cursor = Some(encode_cursor(
        CursorKind::Changes,
        context().read_version,
        &digest,
        &change_event_identity(position.commit_version, position.sequence),
    ));

    let mut lost = read_changes_at(context(), &request);
    assert!(matches!(lost.action(), ChangeAction::ReadAnchor(at) if at == position));
    lost.anchor_read(Ok(None));
    assert!(matches!(lost.action(), ChangeAction::Finish));
    assert_eq!(lost.into_result(), Err(QueryError::CursorAnchorMissing));

    let mut run = read_changes_at(context(), &request);
    run.anchor_read(Ok(Some(Ok(event("a")))));
    assert!(matches!(run.action(), ChangeAction::Resolve(at, name)
        if at == position.commit_version && name == workbench("a")));
    run.workspace_resolved(Ok(Some(workspace(3))));
    assert!(matches!(run.action(), ChangeAction::Scan(Some(at)) if at == position));
    run.events_scanned(Ok(vec![ChangeItem {
        position: Some(ChangePosition {
            sequence: 2,
            ..position
        }),
        event: Ok(event("a")),
    }]));
    assert!(matches!(run.action(), ChangeAction::Finish));
    let page = run.into_result().unwrap();
    assert_eq!(page.events.len(), 1);
    assert_eq!(page.events[0].sequence, 2);
    assert_eq!(page.next_cursor, None);
}
