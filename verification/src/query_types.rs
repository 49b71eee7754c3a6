//! Requests, pages, and failures of workspace metadata queries.

use vstd::prelude::*;

use crate::bytes;
use crate::generic_index_records;
use crate::ids::{CommitId, WorkspaceIncarnationId};
use crate::names::{NormalizedRelativePath, QueryFieldId, WorkbenchId};
use crate::namespace_types::NamespaceError;
use crate::positions::{CommitVersion, Generation, ReadVersion, WorkspaceRevision};
use crate::scalars::{QueryScalar, QueryScalarType, QueryScalarView};
use crate::sorted_maps::{Entry, FieldMap, ScalarSet};
use crate::store_records;
use crate::store_records::{
    AgentMetadataError, ChangeEventRecord, ChangeEventRecordView,
};
use crate::text;

verus! {

/// Maximum page size for query, aggregate, catalog, discovery, and event APIs.
pub const MAX_QUERY_PAGE_SIZE: usize = 256;

/// Maximum metadata predicates.
pub const MAX_QUERY_PREDICATES: usize = 64;

/// Maximum distinct scalar members in one `In` operand.
pub const MAX_QUERY_IN_VALUES: usize = 64;

/// Maximum selected fields.
pub const MAX_QUERY_PROJECTION_FIELDS: usize = 64;

/// Maximum sort fields.
pub const MAX_QUERY_SORT_FIELDS: usize = 8;

/// Maximum facet fields.
pub const MAX_QUERY_FACET_FIELDS: usize = 16;

/// Maximum group fields.
pub const MAX_QUERY_GROUP_FIELDS: usize = 8;

/// Maximum aggregate measures.
pub const MAX_QUERY_AGGREGATES: usize = 16;

/// Maximum returned buckets for one facet.
pub const MAX_FACET_BUCKETS_PER_FIELD: usize = 256;

/// Maximum opaque cursor size.
pub const MAX_QUERY_CURSOR_BYTES: usize = 8192;

/// Rows that one store scan returns at most.
pub const ENGINE_SCAN_BATCH: usize = 256;

/// Root-wide or exact-workbench query scope.
#[derive(Clone, Debug, PartialEq, Eq)]
pub enum QueryScope {
    Root,
    Workspace(WorkbenchId),
}

/// Contents of a [`QueryScope`].
pub enum QueryScopeView {
    Root,
    Workspace(Seq<u8>),
}

impl View for QueryScope {
    type V = QueryScopeView;

    open spec fn view(&self) -> QueryScopeView {
        match self {
            Self::Root => QueryScopeView::Root,
            Self::Workspace(workbench_id) => QueryScopeView::Workspace(workbench_id@),
        }
    }
}

/// Comparison supported by metadata predicates.
#[derive(Clone, Copy, Debug, PartialEq, Eq, Structural)]
pub enum QueryOperator {
    Equal,
    NotEqual,
    In,
    Less,
    LessOrEqual,
    Greater,
    GreaterOrEqual,
    Prefix,
    Suffix,
    Contains,
    Exists,
    NotExists,
}

/// Typed, canonical operand shape for one metadata predicate.
#[derive(Clone, Debug, PartialEq, Eq)]
pub enum QueryOperand {
    /// Required by `Exists` and `NotExists` only.
    Absent,
    /// Required by every single-value comparison operator.
    Scalar(QueryScalar),
    /// Required by `In`.
    Members(ScalarSet),
}

/// Contents of a [`QueryOperand`]; a set lists its members in ascending order.
pub enum QueryOperandView {
    Absent,
    Scalar(QueryScalarView),
    Members(Seq<QueryScalarView>),
}

impl View for QueryOperand {
    type V = QueryOperandView;

    open spec fn view(&self) -> QueryOperandView {
        match self {
            Self::Absent => QueryOperandView::Absent,
            Self::Scalar(value) => QueryOperandView::Scalar(value@),
            Self::Members(values) => QueryOperandView::Members(values@),
        }
    }
}

impl From<QueryScalar> for QueryOperand {
    fn from(value: QueryScalar) -> (operand: Self) {
        Self::Scalar(value)
    }
}

impl vstd::std_specs::convert::FromSpecImpl<QueryScalar> for QueryOperand {
    open spec fn obeys_from_spec() -> bool {
        true
    }

    open spec fn from_spec(value: QueryScalar) -> Self {
        Self::Scalar(value)
    }
}

/// One bounded metadata predicate.
#[derive(Clone, Debug, PartialEq, Eq)]
pub struct QueryPredicate {
    pub field_id: QueryFieldId,
    pub operator: QueryOperator,
    pub operand: QueryOperand,
}

/// Contents of a [`QueryPredicate`].
pub struct QueryPredicateView {
    pub field_id: Seq<u8>,
    pub operator: QueryOperator,
    pub operand: QueryOperandView,
}

impl View for QueryPredicate {
    type V = QueryPredicateView;

    open spec fn view(&self) -> QueryPredicateView {
        QueryPredicateView {
            field_id: self.field_id@,
            operator: self.operator,
            operand: self.operand@,
        }
    }
}

/// Stable sort direction.
#[derive(Clone, Copy, Debug, PartialEq, Eq, Structural)]
pub enum QuerySortDirection {
    Ascending,
    Descending,
}

/// One metadata or aggregate-result sort field.
#[derive(Clone, Debug, PartialEq, Eq)]
pub struct QuerySort {
    pub field_id: QueryFieldId,
    pub direction: QuerySortDirection,
}

/// Contents of a [`QuerySort`].
pub struct QuerySortView {
    pub field_id: Seq<u8>,
    pub direction: QuerySortDirection,
}

impl View for QuerySort {
    type V = QuerySortView;

    open spec fn view(&self) -> QuerySortView {
        QuerySortView {
            field_id: self.field_id@,
            direction: self.direction,
        }
    }
}

/// Search paths using only metadata projections.
#[derive(Clone, Debug, PartialEq, Eq)]
pub struct SearchRequest {
    pub scope: QueryScope,
    /// Match this exact component path and its descendants.
    pub path_prefix: Option<NormalizedRelativePath>,
    pub predicates: Vec<QueryPredicate>,
    pub projection: Vec<QueryFieldId>,
    pub sort: Vec<QuerySort>,
    pub facets: Vec<QueryFieldId>,
    pub cursor: Option<Vec<u8>>,
    pub limit: usize,
}

/// Contents of a [`SearchRequest`].
pub struct SearchRequestView {
    pub scope: QueryScopeView,
    pub path_prefix: Option<Seq<u8>>,
    pub predicates: Seq<QueryPredicateView>,
    pub projection: Seq<Seq<u8>>,
    pub sort: Seq<QuerySortView>,
    pub facets: Seq<Seq<u8>>,
    pub cursor: Option<Seq<u8>>,
    pub limit: usize,
}

impl View for SearchRequest {
    type V = SearchRequestView;

    open spec fn view(&self) -> SearchRequestView {
        SearchRequestView {
            scope: self.scope@,
            path_prefix: bytes::option_view(self.path_prefix),
            predicates: store_records::views(self.predicates@),
            projection: store_records::views(self.projection@),
            sort: store_records::views(self.sort@),
            facets: store_records::views(self.facets@),
            cursor: bytes::option_view(self.cursor),
            limit: self.limit,
        }
    }
}

/// Compact authoritative path card plus requested projection fields.
#[derive(Clone, Debug, PartialEq, Eq)]
pub struct SearchHit {
    pub workbench_id: WorkbenchId,
    pub path: NormalizedRelativePath,
    pub generation: Generation,
    pub body_digest_uri: String,
    pub logical_size: u64,
    pub content_type: String,
    pub producer: Option<String>,
    pub manifest_id: Option<String>,
    pub projection: FieldMap<QueryScalar>,
}

/// Contents of a [`SearchHit`].
pub struct SearchHitView {
    pub workbench_id: Seq<u8>,
    pub path: Seq<u8>,
    pub generation: u64,
    pub body_digest_uri: Seq<u8>,
    pub logical_size: u64,
    pub content_type: Seq<u8>,
    pub producer: Option<Seq<u8>>,
    pub manifest_id: Option<Seq<u8>>,
    pub projection: Seq<Entry<QueryScalarView>>,
}

impl View for SearchHit {
    type V = SearchHitView;

    open spec fn view(&self) -> SearchHitView {
        SearchHitView {
            workbench_id: self.workbench_id@,
            path: self.path@,
            generation: self.generation@,
            body_digest_uri: bytes::utf8(self.body_digest_uri@),
            logical_size: self.logical_size,
            content_type: bytes::utf8(self.content_type@),
            producer: generic_index_records::optional_text_view(self.producer),
            manifest_id: generic_index_records::optional_text_view(self.manifest_id),
            projection: self.projection@,
        }
    }
}

/// One deterministic facet bucket.
#[derive(Clone, Debug, PartialEq, Eq)]
pub struct FacetBucket {
    pub value: QueryScalar,
    pub count: u64,
}

/// Contents of a [`FacetBucket`].
pub struct FacetBucketView {
    pub value: QueryScalarView,
    pub count: u64,
}

impl View for FacetBucket {
    type V = FacetBucketView;

    open spec fn view(&self) -> FacetBucketView {
        FacetBucketView {
            value: self.value@,
            count: self.count,
        }
    }
}

/// Facet buckets are ordered by descending count and then scalar value.
#[derive(Clone, Debug, PartialEq, Eq)]
pub struct FacetResult {
    pub field_id: QueryFieldId,
    pub buckets: Vec<FacetBucket>,
    pub distinct_count: u64,
    pub truncated: bool,
}

/// Contents of a [`FacetResult`].
pub struct FacetResultView {
    pub field_id: Seq<u8>,
    pub buckets: Seq<FacetBucketView>,
    pub distinct_count: u64,
    pub truncated: bool,
}

impl View for FacetResult {
    type V = FacetResultView;

    open spec fn view(&self) -> FacetResultView {
        FacetResultView {
            field_id: self.field_id@,
            buckets: store_records::views(self.buckets@),
            distinct_count: self.distinct_count,
            truncated: self.truncated,
        }
    }
}

/// One stable search page.
#[derive(Clone, Debug, PartialEq, Eq)]
pub struct SearchPage {
    pub hits: Vec<SearchHit>,
    pub facets: Vec<FacetResult>,
    pub next_cursor: Option<Vec<u8>>,
    pub read_version: ReadVersion,
}

/// Contents of a [`SearchPage`].
pub struct SearchPageView {
    pub hits: Seq<SearchHitView>,
    pub facets: Seq<FacetResultView>,
    pub next_cursor: Option<Seq<u8>>,
    pub read_version: u64,
}

impl View for SearchPage {
    type V = SearchPageView;

    open spec fn view(&self) -> SearchPageView {
        SearchPageView {
            hits: store_records::views(self.hits@),
            facets: store_records::views(self.facets@),
            next_cursor: bytes::option_view(self.next_cursor),
            read_version: self.read_version@,
        }
    }
}

/// Supported aggregate operation.
#[derive(Clone, Copy, Debug, PartialEq, Eq, Structural)]
pub enum AggregateFunction {
    Count,
    Sum,
    Average,
    Minimum,
    Maximum,
}

/// One named aggregate output.
#[derive(Clone, Debug, PartialEq, Eq)]
pub struct AggregateSpec {
    pub result_id: QueryFieldId,
    pub function: AggregateFunction,
    /// `count` accepts `None` for row count. Other functions require a field.
    pub field_id: Option<QueryFieldId>,
}

/// Contents of a [`AggregateSpec`].
pub struct AggregateSpecView {
    pub result_id: Seq<u8>,
    pub function: AggregateFunction,
    pub field_id: Option<Seq<u8>>,
}

impl View for AggregateSpec {
    type V = AggregateSpecView;

    open spec fn view(&self) -> AggregateSpecView {
        AggregateSpecView {
            result_id: self.result_id@,
            function: self.function,
            field_id: bytes::option_view(self.field_id),
        }
    }
}

/// Aggregate over the same authoritative candidate set as search.
#[derive(Clone, Debug, PartialEq, Eq)]
pub struct AggregateRequest {
    pub scope: QueryScope,
    pub path_prefix: Option<NormalizedRelativePath>,
    pub predicates: Vec<QueryPredicate>,
    pub group_by: Vec<QueryFieldId>,
    pub aggregates: Vec<AggregateSpec>,
    /// Sort ids name either a group field or an aggregate `result_id`.
    pub sort: Vec<QuerySort>,
    pub cursor: Option<Vec<u8>>,
    pub limit: usize,
}

/// Contents of a [`AggregateRequest`].
pub struct AggregateRequestView {
    pub scope: QueryScopeView,
    pub path_prefix: Option<Seq<u8>>,
    pub predicates: Seq<QueryPredicateView>,
    pub group_by: Seq<Seq<u8>>,
    pub aggregates: Seq<AggregateSpecView>,
    pub sort: Seq<QuerySortView>,
    pub cursor: Option<Seq<u8>>,
    pub limit: usize,
}

impl View for AggregateRequest {
    type V = AggregateRequestView;

    open spec fn view(&self) -> AggregateRequestView {
        AggregateRequestView {
            scope: self.scope@,
            path_prefix: bytes::option_view(self.path_prefix),
            predicates: store_records::views(self.predicates@),
            group_by: store_records::views(self.group_by@),
            aggregates: store_records::views(self.aggregates@),
            sort: store_records::views(self.sort@),
            cursor: bytes::option_view(self.cursor),
            limit: self.limit,
        }
    }
}

/// One deterministic aggregate group.
#[derive(Clone, Debug, PartialEq, Eq)]
pub struct AggregateGroup {
    pub keys: FieldMap<QueryScalar>,
    pub values: FieldMap<QueryScalar>,
}

/// Contents of a [`AggregateGroup`].
pub struct AggregateGroupView {
    pub keys: Seq<Entry<QueryScalarView>>,
    pub values: Seq<Entry<QueryScalarView>>,
}

impl View for AggregateGroup {
    type V = AggregateGroupView;

    open spec fn view(&self) -> AggregateGroupView {
        AggregateGroupView {
            keys: self.keys@,
            values: self.values@,
        }
    }
}

/// One stable aggregate page.
#[derive(Clone, Debug, PartialEq, Eq)]
pub struct AggregatePage {
    pub groups: Vec<AggregateGroup>,
    pub next_cursor: Option<Vec<u8>>,
    pub read_version: ReadVersion,
}

/// Contents of a [`AggregatePage`].
pub struct AggregatePageView {
    pub groups: Seq<AggregateGroupView>,
    pub next_cursor: Option<Seq<u8>>,
    pub read_version: u64,
}

impl View for AggregatePage {
    type V = AggregatePageView;

    open spec fn view(&self) -> AggregatePageView {
        AggregatePageView {
            groups: store_records::views(self.groups@),
            next_cursor: bytes::option_view(self.next_cursor),
            read_version: self.read_version@,
        }
    }
}

/// Catalog capabilities for one stable field id.
#[derive(Clone, Debug, PartialEq, Eq)]
pub struct CatalogField {
    pub field_id: QueryFieldId,
    pub scalar_type: QueryScalarType,
    pub operators: Vec<QueryOperator>,
    pub sortable: bool,
    pub facetable: bool,
    pub aggregatable: bool,
}

/// Contents of a [`CatalogField`].
pub struct CatalogFieldView {
    pub field_id: Seq<u8>,
    pub scalar_type: QueryScalarType,
    pub operators: Seq<QueryOperator>,
    pub sortable: bool,
    pub facetable: bool,
    pub aggregatable: bool,
}

impl View for CatalogField {
    type V = CatalogFieldView;

    open spec fn view(&self) -> CatalogFieldView {
        CatalogFieldView {
            field_id: self.field_id@,
            scalar_type: self.scalar_type,
            operators: self.operators@,
            sortable: self.sortable,
            facetable: self.facetable,
            aggregatable: self.aggregatable,
        }
    }
}

/// Discover built-in and typed projection fields in one visible scope.
#[derive(Clone, Debug, PartialEq, Eq)]
pub struct CatalogRequest {
    pub scope: QueryScope,
    pub path_prefix: Option<NormalizedRelativePath>,
    pub field_prefix: Option<String>,
    pub cursor: Option<Vec<u8>>,
    pub limit: usize,
}

/// Contents of a [`CatalogRequest`].
pub struct CatalogRequestView {
    pub scope: QueryScopeView,
    pub path_prefix: Option<Seq<u8>>,
    pub field_prefix: Option<Seq<u8>>,
    pub cursor: Option<Seq<u8>>,
    pub limit: usize,
}

impl View for CatalogRequest {
    type V = CatalogRequestView;

    open spec fn view(&self) -> CatalogRequestView {
        CatalogRequestView {
            scope: self.scope@,
            path_prefix: bytes::option_view(self.path_prefix),
            field_prefix: generic_index_records::optional_text_view(self.field_prefix),
            cursor: bytes::option_view(self.cursor),
            limit: self.limit,
        }
    }
}

/// One stable catalog page.
#[derive(Clone, Debug, PartialEq, Eq)]
pub struct CatalogPage {
    pub fields: Vec<CatalogField>,
    pub next_cursor: Option<Vec<u8>>,
    pub read_version: ReadVersion,
}

/// Contents of a [`CatalogPage`].
pub struct CatalogPageView {
    pub fields: Seq<CatalogFieldView>,
    pub next_cursor: Option<Seq<u8>>,
    pub read_version: u64,
}

impl View for CatalogPage {
    type V = CatalogPageView;

    open spec fn view(&self) -> CatalogPageView {
        CatalogPageView {
            fields: store_records::views(self.fields@),
            next_cursor: bytes::option_view(self.next_cursor),
            read_version: self.read_version@,
        }
    }
}

/// Filter workspaces by durable commit-head presence.
#[derive(Clone, Copy, Debug, PartialEq, Eq, Structural)]
pub enum CommittedFilter {
    Any,
    Committed,
    Uncommitted,
}

/// Root-wide visible-workspace discovery request.
#[derive(Clone, Debug, PartialEq, Eq)]
pub struct FindWorkspacesRequest {
    pub committed: CommittedFilter,
    pub cursor: Option<Vec<u8>>,
    pub limit: usize,
}

/// Contents of a [`FindWorkspacesRequest`].
pub struct FindWorkspacesRequestView {
    pub committed: CommittedFilter,
    pub cursor: Option<Seq<u8>>,
    pub limit: usize,
}

impl View for FindWorkspacesRequest {
    type V = FindWorkspacesRequestView;

    open spec fn view(&self) -> FindWorkspacesRequestView {
        FindWorkspacesRequestView {
            committed: self.committed,
            cursor: bytes::option_view(self.cursor),
            limit: self.limit,
        }
    }
}

/// Visible workbench summary with its optional exact durable head.
#[derive(Clone, Debug, PartialEq, Eq)]
pub struct WorkspaceDiscovery {
    pub workbench_id: WorkbenchId,
    pub workspace_incarnation_id: WorkspaceIncarnationId,
    pub workspace_revision: WorkspaceRevision,
    pub commit_id: Option<CommitId>,
    pub commit_head_generation: Option<Generation>,
}

/// Contents of a [`WorkspaceDiscovery`].
pub struct WorkspaceDiscoveryView {
    pub workbench_id: Seq<u8>,
    pub workspace_incarnation_id: Seq<u8>,
    pub workspace_revision: u64,
    pub commit_id: Option<Seq<u8>>,
    pub commit_head_generation: Option<u64>,
}

impl View for WorkspaceDiscovery {
    type V = WorkspaceDiscoveryView;

    open spec fn view(&self) -> WorkspaceDiscoveryView {
        WorkspaceDiscoveryView {
            workbench_id: self.workbench_id@,
            workspace_incarnation_id: self.workspace_incarnation_id@,
            workspace_revision: self.workspace_revision@,
            commit_id: bytes::option_view(self.commit_id),
            commit_head_generation: bytes::option_view(self.commit_head_generation),
        }
    }
}

/// One stable root-wide workspace page.
#[derive(Clone, Debug, PartialEq, Eq)]
pub struct FindWorkspacesPage {
    pub workspaces: Vec<WorkspaceDiscovery>,
    pub next_cursor: Option<Vec<u8>>,
    pub read_version: ReadVersion,
}

/// Contents of a [`FindWorkspacesPage`].
pub struct FindWorkspacesPageView {
    pub workspaces: Seq<WorkspaceDiscoveryView>,
    pub next_cursor: Option<Seq<u8>>,
    pub read_version: u64,
}

impl View for FindWorkspacesPage {
    type V = FindWorkspacesPageView;

    open spec fn view(&self) -> FindWorkspacesPageView {
        FindWorkspacesPageView {
            workspaces: store_records::views(self.workspaces@),
            next_cursor: bytes::option_view(self.next_cursor),
            read_version: self.read_version@,
        }
    }
}

/// Change-event page request.
#[derive(Clone, Debug, PartialEq, Eq)]
pub struct ChangePageRequest {
    pub scope: QueryScope,
    pub after_commit_version: Option<CommitVersion>,
    pub cursor: Option<Vec<u8>>,
    pub limit: usize,
}

/// Contents of a [`ChangePageRequest`].
pub struct ChangePageRequestView {
    pub scope: QueryScopeView,
    pub after_commit_version: Option<u64>,
    pub cursor: Option<Seq<u8>>,
    pub limit: usize,
}

impl View for ChangePageRequest {
    type V = ChangePageRequestView;

    open spec fn view(&self) -> ChangePageRequestView {
        ChangePageRequestView {
            scope: self.scope@,
            after_commit_version: bytes::option_view(self.after_commit_version),
            cursor: bytes::option_view(self.cursor),
            limit: self.limit,
        }
    }
}

/// Canonical event together with its ordered durable position.
#[derive(Clone, Debug, PartialEq, Eq)]
pub struct ChangeEvent {
    pub workbench_id: WorkbenchId,
    pub commit_version: CommitVersion,
    pub sequence: u32,
    pub event: ChangeEventRecord,
}

/// Contents of a [`ChangeEvent`].
pub struct ChangeEventView {
    pub workbench_id: Seq<u8>,
    pub commit_version: u64,
    pub sequence: u32,
    pub event: ChangeEventRecordView,
}

impl View for ChangeEvent {
    type V = ChangeEventView;

    open spec fn view(&self) -> ChangeEventView {
        ChangeEventView {
            workbench_id: self.workbench_id@,
            commit_version: self.commit_version@,
            sequence: self.sequence,
            event: self.event@,
        }
    }
}

/// One append-only change-event page. Its cursor is a durable event position
/// and may resume against a later root read version.
#[derive(Clone, Debug, PartialEq, Eq)]
pub struct ChangePage {
    pub events: Vec<ChangeEvent>,
    pub next_cursor: Option<Vec<u8>>,
    pub read_version: ReadVersion,
}

/// Contents of a [`ChangePage`].
pub struct ChangePageView {
    pub events: Seq<ChangeEventView>,
    pub next_cursor: Option<Seq<u8>>,
    pub read_version: u64,
}

impl View for ChangePage {
    type V = ChangePageView;

    open spec fn view(&self) -> ChangePageView {
        ChangePageView {
            events: store_records::views(self.events@),
            next_cursor: bytes::option_view(self.next_cursor),
            read_version: self.read_version@,
        }
    }
}

/// Metadata-query failure.
///
/// `F`, `W` and `T` hold a field id, a workbench id, and caller-dependent text;
/// contracts speak of the bytes of each.
#[derive(Clone, Debug, PartialEq, Eq)]
pub enum QueryError<F = QueryFieldId, W = WorkbenchId, T = String> {
    Namespace(NamespaceError<W, T>),
    InvalidLimit { requested: usize, max: usize },
    BoundExceeded { field: &'static str, count: usize, max: usize },
    InvalidPredicate { field_id: F, reason: &'static str },
    UnknownField { field_id: F },
    FieldTypeConflict { field_id: F, left: QueryScalarType, right: QueryScalarType },
    InvalidAggregate { result_id: F, reason: &'static str },
    AggregateOverflow { result_id: F },
    InvalidFieldPrefix { reason: T },
    CursorTooLarge { length: usize, max: usize },
    InvalidCursor { reason: &'static str },
    CursorQueryMismatch,
    CursorReadVersionMismatch { cursor: u64, request: u64 },
    CursorAnchorMissing,
    CorruptKey { family: &'static str, reason: T },
    Projection { source: T },
    WorkspaceCodec { source: T },
    PathCodec { source: T },
    CommitHeadCodec { source: T },
    Engine(AgentMetadataError<T>),
}

impl QueryError<QueryFieldId, WorkbenchId, String> {
    /// This failure with its text as bytes.
    pub open spec fn model(self) -> QueryError<Seq<u8>, Seq<u8>, Seq<u8>> {
        match self {
            Self::Namespace(source) => QueryError::Namespace(source.model()),
            Self::InvalidLimit { requested, max } => QueryError::InvalidLimit { requested, max },
            Self::BoundExceeded { field, count, max } => QueryError::BoundExceeded { field, count, max },
            Self::InvalidPredicate { field_id, reason } => QueryError::InvalidPredicate { field_id: field_id@, reason },
            Self::UnknownField { field_id } => QueryError::UnknownField { field_id: field_id@ },
            Self::FieldTypeConflict { field_id, left, right } => QueryError::FieldTypeConflict { field_id: field_id@, left, right },
            Self::InvalidAggregate { result_id, reason } => QueryError::InvalidAggregate { result_id: result_id@, reason },
            Self::AggregateOverflow { result_id } => QueryError::AggregateOverflow { result_id: result_id@ },
            Self::InvalidFieldPrefix { reason } => QueryError::InvalidFieldPrefix { reason: bytes::utf8(reason@) },
            Self::CursorTooLarge { length, max } => QueryError::CursorTooLarge { length, max },
            Self::InvalidCursor { reason } => QueryError::InvalidCursor { reason },
            Self::CursorQueryMismatch => QueryError::CursorQueryMismatch,
            Self::CursorReadVersionMismatch { cursor, request } => QueryError::CursorReadVersionMismatch { cursor, request },
            Self::CursorAnchorMissing => QueryError::CursorAnchorMissing,
            Self::CorruptKey { family, reason } => QueryError::CorruptKey { family, reason: bytes::utf8(reason@) },
            Self::Projection { source } => QueryError::Projection { source: bytes::utf8(source@) },
            Self::WorkspaceCodec { source } => QueryError::WorkspaceCodec { source: bytes::utf8(source@) },
            Self::PathCodec { source } => QueryError::PathCodec { source: bytes::utf8(source@) },
            Self::CommitHeadCodec { source } => QueryError::CommitHeadCodec { source: bytes::utf8(source@) },
            Self::Engine(source) => QueryError::Engine(source.model()),
        }
    }

    /// Diagnostic text of this failure.
    pub fn message(&self) -> (message: String)
        ensures
            bytes::utf8(message@) == self.model().message_bytes(),
    {
        let mut out: Vec<u8> = Vec::new();
        match self {
            Self::Namespace(source) => {
                let nested = source.message();
                text::push_text(&mut out, nested.as_str());
            },
            Self::InvalidLimit { requested, max } => {
                text::push_text(&mut out, "query page limit ");
                text::push_decimal(&mut out, *requested as u64);
                text::push_text(&mut out, " is outside 1..=");
                text::push_decimal(&mut out, *max as u64);
            },
            Self::BoundExceeded { field, count, max } => {
                text::push_text(&mut out, field);
                text::push_text(&mut out, " has ");
                text::push_decimal(&mut out, *count as u64);
                text::push_text(&mut out, " items, maximum is ");
                text::push_decimal(&mut out, *max as u64);
            },
            Self::InvalidPredicate { field_id, reason } => {
                text::push_text(&mut out, "invalid predicate for ");
                text::push_text(&mut out, field_id.as_str());
                text::push_text(&mut out, ": ");
                text::push_text(&mut out, reason);
            },
            Self::UnknownField { field_id } => {
                text::push_text(&mut out, "unknown query field ");
                text::push_text(&mut out, field_id.as_str());
            },
            Self::FieldTypeConflict { field_id, left, right } => {
                text::push_text(&mut out, "query field ");
                text::push_text(&mut out, field_id.as_str());
                text::push_text(&mut out, " has conflicting types ");
                text::push_text(&mut out, left.label());
                text::push_text(&mut out, " and ");
                text::push_text(&mut out, right.label());
            },
            Self::InvalidAggregate { result_id, reason } => {
                text::push_text(&mut out, "invalid aggregate ");
                text::push_text(&mut out, result_id.as_str());
                text::push_text(&mut out, ": ");
                text::push_text(&mut out, reason);
            },
            Self::AggregateOverflow { result_id } => {
                text::push_text(&mut out, "aggregate ");
                text::push_text(&mut out, result_id.as_str());
                text::push_text(&mut out, " overflowed its scalar type");
            },
            Self::InvalidFieldPrefix { reason } => {
                text::push_text(&mut out, "invalid catalog field prefix: ");
                text::push_text(&mut out, reason.as_str());
            },
            Self::CursorTooLarge { length, max } => {
                text::push_text(&mut out, "query cursor is ");
                text::push_decimal(&mut out, *length as u64);
                text::push_text(&mut out, " bytes, maximum is ");
                text::push_decimal(&mut out, *max as u64);
            },
            Self::InvalidCursor { reason } => {
                text::push_text(&mut out, "invalid query cursor: ");
                text::push_text(&mut out, reason);
            },
            Self::CursorQueryMismatch => {
                text::push_text(&mut out, "query cursor belongs to a different request");
            },
            Self::CursorReadVersionMismatch { cursor, request } => {
                text::push_text(&mut out, "query cursor read version ");
                text::push_decimal(&mut out, *cursor as u64);
                text::push_text(&mut out, " does not match request version ");
                text::push_decimal(&mut out, *request as u64);
            },
            Self::CursorAnchorMissing => {
                text::push_text(&mut out, "query cursor anchor is absent at the fenced read version");
            },
            Self::CorruptKey { family, reason } => {
                text::push_text(&mut out, "corrupt ");
                text::push_text(&mut out, family);
                text::push_text(&mut out, " key: ");
                text::push_text(&mut out, reason.as_str());
            },
            Self::Projection { source } => {
                text::push_text(&mut out, "invalid typed projection: ");
                text::push_text(&mut out, source.as_str());
            },
            Self::WorkspaceCodec { source } => {
                text::push_text(&mut out, "invalid WorkspaceCurrent payload: ");
                text::push_text(&mut out, source.as_str());
            },
            Self::PathCodec { source } => {
                text::push_text(&mut out, "invalid PathCurrent payload: ");
                text::push_text(&mut out, source.as_str());
            },
            Self::CommitHeadCodec { source } => {
                text::push_text(&mut out, "invalid WorkbenchCommitHead payload: ");
                text::push_text(&mut out, source.as_str());
            },
            Self::Engine(source) => {
                let nested = source.message();
                text::push_text(&mut out, nested.as_str());
            },
        }
        assert(out@ =~= self.model().message_bytes());
        text::finish_text(out)
    }
}

impl QueryError<Seq<u8>, Seq<u8>, Seq<u8>> {
    /// Bytes of the diagnostic text.
    pub open spec fn message_bytes(self) -> Seq<u8> {
        match self {
            Self::Namespace(source) => source.message_bytes(),
            Self::InvalidLimit { requested, max } => bytes::utf8("query page limit "@) + text::decimal(requested as nat) + bytes::utf8(" is outside 1..="@) + text::decimal(max as nat),
            Self::BoundExceeded { field, count, max } => bytes::utf8(field@) + bytes::utf8(" has "@) + text::decimal(count as nat) + bytes::utf8(" items, maximum is "@) + text::decimal(max as nat),
            Self::InvalidPredicate { field_id, reason } => bytes::utf8("invalid predicate for "@) + field_id + bytes::utf8(": "@) + bytes::utf8(reason@),
            Self::UnknownField { field_id } => bytes::utf8("unknown query field "@) + field_id,
            Self::FieldTypeConflict { field_id, left, right } => bytes::utf8("query field "@) + field_id + bytes::utf8(" has conflicting types "@) + bytes::utf8(left.name()@) + bytes::utf8(" and "@) + bytes::utf8(right.name()@),
            Self::InvalidAggregate { result_id, reason } => bytes::utf8("invalid aggregate "@) + result_id + bytes::utf8(": "@) + bytes::utf8(reason@),
            Self::AggregateOverflow { result_id } => bytes::utf8("aggregate "@) + result_id + bytes::utf8(" overflowed its scalar type"@),
            Self::InvalidFieldPrefix { reason } => bytes::utf8("invalid catalog field prefix: "@) + reason,
            Self::CursorTooLarge { length, max } => bytes::utf8("query cursor is "@) + text::decimal(length as nat) + bytes::utf8(" bytes, maximum is "@) + text::decimal(max as nat),
            Self::InvalidCursor { reason } => bytes::utf8("invalid query cursor: "@) + bytes::utf8(reason@),
            Self::CursorQueryMismatch => bytes::utf8("query cursor belongs to a different request"@),
            Self::CursorReadVersionMismatch { cursor, request } => bytes::utf8("query cursor read version "@) + text::decimal(cursor as nat) + bytes::utf8(" does not match request version "@) + text::decimal(request as nat),
            Self::CursorAnchorMissing => bytes::utf8("query cursor anchor is absent at the fenced read version"@),
            Self::CorruptKey { family, reason } => bytes::utf8("corrupt "@) + bytes::utf8(family@) + bytes::utf8(" key: "@) + reason,
            Self::Projection { source } => bytes::utf8("invalid typed projection: "@) + source,
            Self::WorkspaceCodec { source } => bytes::utf8("invalid WorkspaceCurrent payload: "@) + source,
            Self::PathCodec { source } => bytes::utf8("invalid PathCurrent payload: "@) + source,
            Self::CommitHeadCodec { source } => bytes::utf8("invalid WorkbenchCommitHead payload: "@) + source,
            Self::Engine(source) => source.message_bytes(),
        }
    }
}


/// A failure of a metadata query, with its text as bytes.
pub type QueryFailure = QueryError<Seq<u8>, Seq<u8>, Seq<u8>>;

/// The outcome of a check, with its failure as contents.
pub open spec fn checked(result: Result<(), QueryError>) -> Result<(), QueryFailure> {
    match result {
        Ok(()) => Ok(()),
        Err(e) => Err(e.model()),
    }
}

/// The outcome of a computation, with its result and failure as contents.
pub open spec fn outcome<R: View>(result: Result<R, QueryError>) -> Result<R::V, QueryFailure> {
    match result {
        Ok(value) => Ok(value@),
        Err(e) => Err(e.model()),
    }
}

/// Passes exactly when the condition holds.
pub open spec fn require(condition: bool, failure: QueryFailure) -> Result<(), QueryFailure> {
    if condition {
        Ok(())
    } else {
        Err(failure)
    }
}

/// The first check, and the second when the first passes.
pub open spec fn and_also(
    first: Result<(), QueryFailure>,
    second: Result<(), QueryFailure>,
) -> Result<(), QueryFailure> {
    match first {
        Err(e) => Err(e),
        Ok(()) => second,
    }
}

} // verus!
