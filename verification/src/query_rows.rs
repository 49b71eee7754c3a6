//! Candidate rows of a query: visible workspaces, their paths, and the
//! predicates that select among them.

use vstd::prelude::*;

use crate::bytes;
use crate::names::{NormalizedRelativePath, QueryFieldId, WorkbenchId};
use crate::namespace_types::NamespaceError;
use crate::query_types;
use crate::query_types::{
    QueryError, QueryFailure, QueryOperand, QueryOperandView, QueryOperator, QueryPredicate,
    QueryPredicateView,
};
use crate::scalars::{QueryScalar, QueryScalarView};
use crate::sorted_maps;
use crate::sorted_maps::Entry;
use crate::states::WorkspaceState;
use crate::store_records;
use crate::store_records::{
    AgentMetadataError, Decoded, PathEntry, PathEntryView, StoreFailure, TypedProjection,
    WorkspaceRecord, WorkspaceRecordView,
};
use crate::text;

verus! {

/// One path of one visible workspace with its decoded projection.
#[derive(Debug, PartialEq, Eq)]
pub struct MaterializedRow {
    pub workbench_id: WorkbenchId,
    pub path: NormalizedRelativePath,
    pub entry: PathEntry,
    pub projection: TypedProjection,
}

/// Contents of a [`MaterializedRow`].
pub struct RowView {
    pub workbench_id: Seq<u8>,
    pub path: Seq<u8>,
    pub entry: PathEntryView,
    pub projection: Seq<Entry<QueryScalarView>>,
}

impl View for MaterializedRow {
    type V = RowView;

    open spec fn view(&self) -> RowView {
        RowView {
            workbench_id: self.workbench_id@,
            path: self.path@,
            entry: self.entry@,
            projection: self.projection@,
        }
    }
}

/// An optional text as a scalar: null where there is none.
pub open spec fn optional_text_scalar(value: Option<Seq<u8>>) -> QueryScalarView {
    match value {
        None => QueryScalarView::Null,
        Some(value) => QueryScalarView::String(value),
    }
}

impl RowView {
    /// Value of one field: a built-in one, or one of the projection.
    pub open spec fn value(self, field: Seq<u8>) -> Option<QueryScalarView> {
        if field == bytes::utf8("workbench_id"@) {
            Some(QueryScalarView::String(self.workbench_id))
        } else if field == bytes::utf8("path"@) {
            Some(QueryScalarView::String(self.path))
        } else if field == bytes::utf8("generation"@) {
            Some(QueryScalarView::Unsigned(self.entry.generation))
        } else if field == bytes::utf8("logical_size"@) {
            Some(QueryScalarView::Unsigned(self.entry.logical_size))
        } else if field == bytes::utf8("body_digest_uri"@) {
            Some(QueryScalarView::String(self.entry.body_digest_uri))
        } else if field == bytes::utf8("content_type"@) {
            Some(QueryScalarView::String(self.entry.content_type))
        } else if field == bytes::utf8("producer"@) {
            Some(optional_text_scalar(self.entry.producer))
        } else if field == bytes::utf8("manifest_id"@) {
            Some(optional_text_scalar(self.entry.manifest_id))
        } else {
            sorted_maps::lookup(self.projection, field)
        }
    }
}

/// Whether the field has this id.
fn is_field(field: &QueryFieldId, name: &str) -> (same: bool)
    ensures
        same == (field@ == bytes::utf8(name@)),
{
    bytes::bytes_equal(field.as_bytes(), name.as_bytes())
}

/// An optional text as a scalar.
fn text_scalar(value: &Option<String>) -> (scalar: QueryScalar)
    ensures
        scalar@ == optional_text_scalar(
            crate::generic_index_records::optional_text_view(*value),
        ),
{
    match value {
        None => QueryScalar::Null,
        Some(value) => QueryScalar::String(value.clone()),
    }
}

impl MaterializedRow {
    /// Value of one field: a built-in one, or one of the projection.
    pub fn value(&self, field: &QueryFieldId) -> (value: Option<QueryScalar>)
        ensures
            bytes::option_view(value) == self@.value(field@),
    {
        if is_field(field, "workbench_id") {
            Some(QueryScalar::String(self.workbench_id.as_str().to_owned()))
        } else if is_field(field, "path") {
            Some(QueryScalar::String(self.path.as_str().to_owned()))
        } else if is_field(field, "generation") {
            Some(QueryScalar::Unsigned(self.entry.generation.get()))
        } else if is_field(field, "logical_size") {
            Some(QueryScalar::Unsigned(self.entry.logical_size))
        } else if is_field(field, "body_digest_uri") {
            Some(QueryScalar::String(self.entry.body_digest_uri.clone()))
        } else if is_field(field, "content_type") {
            Some(QueryScalar::String(self.entry.content_type.clone()))
        } else if is_field(field, "producer") {
            Some(text_scalar(&self.entry.producer))
        } else if is_field(field, "manifest_id") {
            Some(text_scalar(&self.entry.manifest_id))
        } else {
            match self.projection.get(field) {
                Some(value) => Some(value.clone()),
                None => None,
            }
        }
    }
}

/// `suffix` is a suffix of `bytes`.
pub open spec fn has_suffix(b: Seq<u8>, suffix: Seq<u8>) -> bool {
    suffix.len() <= b.len() && b.skip(b.len() - suffix.len()) == suffix
}

/// Whether `b` ends with `suffix`.
fn ends_with(b: &[u8], suffix: &[u8]) -> (found: bool)
    ensures
        found == has_suffix(b@, suffix@),
{
    if suffix.len() > b.len() {
        return false;
    }
    let tail = vstd::slice::slice_subrange(b, b.len() - suffix.len(), b.len());
    assert(tail@ =~= b@.skip(b@.len() - suffix@.len()));
    bytes::bytes_equal(tail, suffix)
}

/// The bytes of two texts or of two byte strings; nothing for other pairs.
pub open spec fn text_pair(actual: QueryScalarView, expected: QueryScalarView) -> Option<
    (Seq<u8>, Seq<u8>),
> {
    match (actual, expected) {
        (QueryScalarView::String(a), QueryScalarView::String(e)) => Some((a, e)),
        (QueryScalarView::Bytes(a), QueryScalarView::Bytes(e)) => Some((a, e)),
        _ => None,
    }
}

/// The bytes of two texts or of two byte strings.
fn text_parts<'a>(actual: &'a QueryScalar, expected: &'a QueryScalar) -> (parts: Option<
    (&'a [u8], &'a [u8]),
>)
    ensures
        match parts {
            None => text_pair(actual@, expected@) is None,
            Some(parts) => text_pair(actual@, expected@) == Some((parts.0@, parts.1@)),
        },
{
    match (actual, expected) {
        (QueryScalar::String(a), QueryScalar::String(e)) => Some(
            (a.as_str().as_bytes(), e.as_str().as_bytes()),
        ),
        (QueryScalar::Bytes(a), QueryScalar::Bytes(e)) => Some((a.as_slice(), e.as_slice())),
        _ => None,
    }
}

/// What an operator says of a present value and one scalar operand.
pub open spec fn scalar_holds(
    actual: QueryScalarView,
    operator: QueryOperator,
    expected: QueryScalarView,
) -> bool {
    let same_type = actual.scalar_type() == expected.scalar_type();
    let pair = text_pair(actual, expected);
    match operator {
        QueryOperator::Equal => actual == expected,
        QueryOperator::NotEqual => actual != expected,
        QueryOperator::Less => same_type && actual.less(expected),
        QueryOperator::LessOrEqual => same_type && !expected.less(actual),
        QueryOperator::Greater => same_type && expected.less(actual),
        QueryOperator::GreaterOrEqual => same_type && !actual.less(expected),
        QueryOperator::Prefix => match pair {
            Some((a, e)) => bytes::has_prefix(a, e),
            None => false,
        },
        QueryOperator::Suffix => match pair {
            Some((a, e)) => has_suffix(a, e),
            None => false,
        },
        QueryOperator::Contains => match pair {
            Some((a, e)) => text::holds(a, e),
            None => false,
        },
        _ => false,
    }
}

/// Whether an operator holds of a present value and one scalar operand.
fn scalar_matches(actual: &QueryScalar, operator: QueryOperator, expected: &QueryScalar) -> (matches:
    bool)
    ensures
        matches == scalar_holds(actual@, operator, expected@),
{
    let same_type: bool = actual.scalar_type() == expected.scalar_type();
    match operator {
        QueryOperator::Equal => actual.same(expected),
        QueryOperator::NotEqual => !actual.same(expected),
        QueryOperator::Less => same_type && actual.before(expected),
        QueryOperator::LessOrEqual => same_type && !expected.before(actual),
        QueryOperator::Greater => same_type && expected.before(actual),
        QueryOperator::GreaterOrEqual => same_type && !actual.before(expected),
        QueryOperator::Prefix => match text_parts(actual, expected) {
            Some(parts) => bytes::starts_with(parts.0, parts.1),
            None => false,
        },
        QueryOperator::Suffix => match text_parts(actual, expected) {
            Some(parts) => ends_with(parts.0, parts.1),
            None => false,
        },
        QueryOperator::Contains => match text_parts(actual, expected) {
            Some(parts) => text::contains(parts.0, parts.1),
            None => false,
        },
        _ => false,
    }
}

impl QueryPredicateView {
    /// Whether this predicate selects a row with this value of its field.
    pub open spec fn holds(self, actual: Option<QueryScalarView>) -> bool {
        match (self.operator, self.operand) {
            (QueryOperator::Exists, QueryOperandView::Absent) => actual is Some,
            (QueryOperator::NotExists, QueryOperandView::Absent) => actual is None,
            (QueryOperator::In, QueryOperandView::Members(members)) => actual is Some
                && members.contains(actual->0),
            (operator, QueryOperandView::Scalar(expected)) => actual is Some && scalar_holds(
                actual->0,
                operator,
                expected,
            ),
            _ => false,
        }
    }
}

/// Every predicate selects the row.
pub open spec fn selected(row: RowView, predicates: Seq<QueryPredicateView>) -> bool {
    forall|i: int|
        0 <= i < predicates.len() ==> (#[trigger] predicates[i]).holds(
            row.value(predicates[i].field_id),
        )
}

/// Whether a predicate selects the row.
fn predicate_matches(row: &MaterializedRow, predicate: &QueryPredicate) -> (matches: bool)
    ensures
        matches == predicate@.holds(row@.value(predicate.field_id@)),
{
    let actual = row.value(&predicate.field_id);
    match (predicate.operator, &predicate.operand) {
        (QueryOperator::Exists, QueryOperand::Absent) => actual.is_some(),
        (QueryOperator::NotExists, QueryOperand::Absent) => actual.is_none(),
        (QueryOperator::In, QueryOperand::Members(members)) => match &actual {
            Some(actual) => members.contains(actual),
            None => false,
        },
        (operator, QueryOperand::Scalar(expected)) => match &actual {
            Some(actual) => scalar_matches(actual, operator, expected),
            None => false,
        },
        _ => false,
    }
}

/// Whether every predicate selects the row.
pub fn predicates_match(row: &MaterializedRow, predicates: &Vec<QueryPredicate>) -> (matches: bool)
    ensures
        matches == selected(row@, store_records::views(predicates@)),
{
    let mut i: usize = 0;
    let ghost all = store_records::views(predicates@);
    while i < predicates.len()
        invariant
            i <= predicates@.len(),
            all == store_records::views(predicates@),
            forall|j: int|
                0 <= j < i ==> (#[trigger] all[j]).holds(row@.value(all[j].field_id)),
        decreases predicates@.len() - i,
    {
        assert(all[i as int] == predicates@[i as int]@);
        if !predicate_matches(row, &predicates[i]) {
            return false;
        }
        i = i + 1;
    }
    true
}

/// The candidate is the path `prefix` or lies below it.
pub open spec fn at_or_below(candidate: Seq<u8>, prefix: Seq<u8>) -> bool {
    candidate == prefix || bytes::has_prefix(candidate, prefix.push(47u8))
}

/// Whether the candidate is the path `prefix` or lies below it.
pub fn path_is_at_or_below(candidate: &NormalizedRelativePath, prefix: &NormalizedRelativePath) -> (
    below: bool)
    ensures
        below == at_or_below(candidate@, prefix@),
{
    let c = candidate.as_bytes();
    let p = prefix.as_bytes();
    if c.len() == p.len() {
        assert(!bytes::has_prefix(c@, p@.push(47u8)));
        return bytes::bytes_equal(c, p);
    }
    if c.len() < p.len() {
        return false;
    }
    let below: bool = c[p.len()] == 47 && bytes::starts_with(c, p);
    proof {
        let long = p@.push(47u8);
        if below {
            assert(c@.take(long.len() as int) =~= long);
        }
        if bytes::has_prefix(c@, long) {
            assert(c@[p@.len() as int] == c@.take(long.len() as int)[p@.len() as int]);
            assert(c@.take(p@.len() as int) =~= c@.take(long.len() as int).take(p@.len() as int));
            assert(long.take(p@.len() as int) =~= p@);
        }
    }
    below
}

/// One stored workspace marker: the workbench of its key, if the key is
/// canonical, and its decoded value.
pub struct WorkspaceItem {
    pub workbench_id: Option<WorkbenchId>,
    pub record: Decoded<WorkspaceRecord>,
}

/// Contents of a [`WorkspaceItem`].
pub struct WorkspaceItemView {
    pub workbench_id: Option<Seq<u8>>,
    pub record: Result<WorkspaceRecordView, Seq<u8>>,
}

impl View for WorkspaceItem {
    type V = WorkspaceItemView;

    open spec fn view(&self) -> WorkspaceItemView {
        WorkspaceItemView {
            workbench_id: bytes::option_view(self.workbench_id),
            record: store_records::decoded_view(self.record),
        }
    }
}

/// One visible workbench and its marker.
#[derive(Clone, Debug, PartialEq, Eq)]
pub struct VisibleWorkspace {
    pub workbench_id: WorkbenchId,
    pub workspace: WorkspaceRecord,
}

/// Contents of a [`VisibleWorkspace`].
pub struct VisibleWorkspaceView {
    pub workbench_id: Seq<u8>,
    pub workspace: WorkspaceRecordView,
}

impl View for VisibleWorkspace {
    type V = VisibleWorkspaceView;

    open spec fn view(&self) -> VisibleWorkspaceView {
        VisibleWorkspaceView { workbench_id: self.workbench_id@, workspace: self.workspace@ }
    }
}

/// One of the workspaces has this incarnation.
pub open spec fn claimed(visible: Seq<VisibleWorkspaceView>, incarnation: Seq<u8>) -> bool {
    exists|i: int|
        0 <= i < visible.len() && #[trigger] visible[i].workspace.incarnation_id == incarnation
}

/// The visible workspaces among the stored markers, or the first failure.
pub open spec fn visible_workspaces(items: Seq<WorkspaceItemView>) -> Result<
    Seq<VisibleWorkspaceView>,
    QueryFailure,
>
    decreases items.len(),
{
    if items.len() == 0 {
        Ok(Seq::empty())
    } else {
        match visible_workspaces(items.drop_last()) {
            Err(e) => Err(e),
            Ok(visible) => match (items.last().workbench_id, items.last().record) {
                (None, _) => Err(
                    QueryError::CorruptKey {
                        family: "WorkspaceCurrent",
                        reason: bytes::utf8("key is not the canonical root/workbench encoding"@),
                    },
                ),
                (_, Err(source)) => Err(QueryError::WorkspaceCodec { source }),
                (Some(workbench_id), Ok(workspace)) => if workspace.state
                    != WorkspaceState::Visible {
                    Ok(visible)
                } else if claimed(visible, workspace.incarnation_id) {
                    Err(
                        QueryError::CorruptKey {
                            family: "WorkspaceCurrent",
                            reason: bytes::utf8(
                                "one visible incarnation is claimed by multiple workbench ids"@,
                            ),
                        },
                    )
                } else {
                    Ok(visible.push(VisibleWorkspaceView { workbench_id, workspace }))
                },
            },
        }
    }
}

/// The outcome of collecting a list.
pub open spec fn list_outcome<R: View>(result: Result<Vec<R>, QueryError>) -> Result<
    Seq<R::V>,
    QueryFailure,
> {
    match result {
        Ok(list) => Ok(store_records::views(list@)),
        Err(e) => Err(e.model()),
    }
}

/// Whether one of the workspaces has this incarnation.
fn is_claimed(visible: &Vec<VisibleWorkspace>, workspace: &WorkspaceRecord) -> (found: bool)
    ensures
        found == claimed(store_records::views(visible@), workspace.incarnation_id@),
{
    let mut i: usize = 0;
    let ghost all = store_records::views(visible@);
    while i < visible.len()
        invariant
            i <= visible@.len(),
            all == store_records::views(visible@),
            forall|j: int|
                0 <= j < i ==> #[trigger] all[j].workspace.incarnation_id
                    != workspace.incarnation_id@,
        decreases visible@.len() - i,
    {
        assert(all[i as int] == visible@[i as int]@);
        if visible[i].workspace.incarnation_id.same(&workspace.incarnation_id) {
            assert(all[i as int].workspace.incarnation_id == workspace.incarnation_id@);
            return true;
        }
        i = i + 1;
    }
    false
}

/// A failure among the first items is the failure of all of them.
proof fn visible_failure_persists(items: Seq<WorkspaceItemView>, n: int)
    requires
        0 <= n <= items.len(),
        visible_workspaces(items.take(n)) is Err,
    ensures
        visible_workspaces(items) == visible_workspaces(items.take(n)),
    decreases items.len() - n,
{
    if n < items.len() {
        assert(items.take(n + 1).drop_last() =~= items.take(n));
        visible_failure_persists(items, n + 1);
    } else {
        assert(items.take(n) =~= items);
    }
}

/// Finds the visible workspaces among the stored markers of one root.
pub fn scan_visible_workspaces(items: &Vec<WorkspaceItem>) -> (result: Result<
    Vec<VisibleWorkspace>,
    QueryError,
>)
    ensures
        list_outcome(result) == visible_workspaces(store_records::views(items@)),
{
    let mut visible: Vec<VisibleWorkspace> = Vec::new();
    let mut i: usize = 0;
    let ghost all = store_records::views(items@);
    assert(all.take(0) =~= Seq::<WorkspaceItemView>::empty());
    assert(store_records::views(visible@) =~= Seq::<VisibleWorkspaceView>::empty());
    while i < items.len()
        invariant
            i <= items@.len(),
            all == store_records::views(items@),
            visible_workspaces(all.take(i as int)) == Ok::<
                Seq<VisibleWorkspaceView>,
                QueryFailure,
            >(store_records::views(visible@)),
        decreases items@.len() - i,
    {
        let item = &items[i];
        let ghost seen = store_records::views(visible@);
        proof {
            assert(all.take(i + 1).drop_last() =~= all.take(i as int));
            assert(all.take(i + 1).last() == item@);
            if visible_workspaces(all.take(i + 1)) is Err {
                visible_failure_persists(all, i + 1);
            }
        }
        let workbench_id = match &item.workbench_id {
            Some(workbench_id) => workbench_id,
            None => {
                return Err(
                    QueryError::CorruptKey {
                        family: "WorkspaceCurrent",
                        reason: "key is not the canonical root/workbench encoding".to_owned(),
                    },
                );
            },
        };
        let workspace = match &item.record {
            Ok(workspace) => *workspace,
            Err(source) => {
                return Err(QueryError::WorkspaceCodec { source: source.clone() });
            },
        };
        if workspace.state == WorkspaceState::Visible {
            if is_claimed(&visible, &workspace) {
                return Err(
                    QueryError::CorruptKey {
                        family: "WorkspaceCurrent",
                        reason: "one visible incarnation is claimed by multiple workbench ids".to_owned(),
                    },
                );
            }
            visible.push(VisibleWorkspace { workbench_id: workbench_id.clone(), workspace });
            assert(store_records::views(visible@) =~= seen.push(
                VisibleWorkspaceView {
                    workbench_id: workbench_id@,
                    workspace: workspace@,
                },
            ));
        }
        i = i + 1;
    }
    assert(all.take(i as int) =~= all);
    Ok(visible)
}

/// The workspaces of a scope of one workbench, or its failure.
pub open spec fn scoped_workspaces(
    workbench_id: Seq<u8>,
    found: Result<Option<WorkspaceRecordView>, NamespaceError<Seq<u8>, Seq<u8>>>,
) -> Result<Seq<VisibleWorkspaceView>, QueryFailure> {
    match found {
        Ok(None) => Ok(Seq::empty()),
        Ok(Some(workspace)) => Ok(seq![VisibleWorkspaceView { workbench_id, workspace }]),
        Err(NamespaceError::Engine(source)) => Err(QueryError::Engine(source)),
        Err(NamespaceError::Codec { record: _, source }) => Err(
            QueryError::WorkspaceCodec { source },
        ),
        Err(other) => Err(
            QueryError::CorruptKey { family: "WorkspaceCurrent", reason: other.message_bytes() },
        ),
    }
}

/// The contents of a namespace lookup.
pub open spec fn namespace_outcome<R: View>(
    found: Result<Option<R>, NamespaceError>,
) -> Result<Option<R::V>, NamespaceError<Seq<u8>, Seq<u8>>> {
    match found {
        Ok(value) => Ok(bytes::option_view(value)),
        Err(e) => Err(e.model()),
    }
}

/// The workspaces of a scope of one workbench, which was looked up.
pub fn workbench_scope(
    workbench_id: &WorkbenchId,
    found: Result<Option<WorkspaceRecord>, NamespaceError>,
) -> (result: Result<Vec<VisibleWorkspace>, QueryError>)
    ensures
        list_outcome(result) == scoped_workspaces(workbench_id@, namespace_outcome(found)),
{
    match found {
        Ok(None) => {
            let none: Vec<VisibleWorkspace> = Vec::new();
            assert(store_records::views(none@) =~= Seq::<VisibleWorkspaceView>::empty());
            Ok(none)
        },
        Ok(Some(workspace)) => {
            let mut one: Vec<VisibleWorkspace> = Vec::new();
            one.push(VisibleWorkspace { workbench_id: workbench_id.clone(), workspace });
            assert(store_records::views(one@) =~= seq![
                VisibleWorkspaceView { workbench_id: workbench_id@, workspace: workspace@ },
            ]);
            Ok(one)
        },
        Err(NamespaceError::Engine(source)) => Err(QueryError::Engine(source)),
        Err(NamespaceError::Codec { record: _, source }) => Err(
            QueryError::WorkspaceCodec { source },
        ),
        Err(other) => Err(
            QueryError::CorruptKey { family: "WorkspaceCurrent", reason: other.message() },
        ),
    }
}

/// One stored path: the path of its key, if the key is canonical, its decoded
/// value, and the decoded projection of that value.
pub struct PathItem {
    pub path: Option<NormalizedRelativePath>,
    pub entry: Decoded<PathEntry>,
    pub projection: Decoded<TypedProjection>,
}

/// Contents of a [`PathItem`].
pub struct PathItemView {
    pub path: Option<Seq<u8>>,
    pub entry: Result<PathEntryView, Seq<u8>>,
    pub projection: Result<Seq<Entry<QueryScalarView>>, Seq<u8>>,
}

impl View for PathItem {
    type V = PathItemView;

    open spec fn view(&self) -> PathItemView {
        PathItemView {
            path: bytes::option_view(self.path),
            entry: store_records::decoded_view(self.entry),
            projection: store_records::decoded_view(self.projection),
        }
    }
}

/// The rows of one workspace at or below an optional prefix, or the first
/// failure. A path elsewhere is passed over unread.
pub open spec fn workspace_rows(
    workbench_id: Seq<u8>,
    items: Seq<PathItemView>,
    path_prefix: Option<Seq<u8>>,
) -> Result<Seq<RowView>, QueryFailure>
    decreases items.len(),
{
    if items.len() == 0 {
        Ok(Seq::empty())
    } else {
        let item = items.last();
        match workspace_rows(workbench_id, items.drop_last(), path_prefix) {
            Err(e) => Err(e),
            Ok(rows) => match item.path {
                None => Err(
                    QueryError::CorruptKey {
                        family: "PathCurrent",
                        reason: bytes::utf8(
                            "key does not use the canonical root/incarnation/path encoding"@,
                        ),
                    },
                ),
                Some(path) => if path_prefix is Some && !at_or_below(path, path_prefix->0) {
                    Ok(rows)
                } else {
                    match (item.entry, item.projection) {
                        (Err(source), _) => Err(QueryError::PathCodec { source }),
                        (_, Err(source)) => Err(QueryError::Projection { source }),
                        (Ok(entry), Ok(projection)) => Ok(
                            rows.push(RowView { workbench_id, path, entry, projection }),
                        ),
                    }
                },
            },
        }
    }
}

/// Answer of a whole prefix scan.
pub type PathScan = Result<Vec<PathItem>, AgentMetadataError>;

/// Contents of an answer of a prefix scan.
pub open spec fn scan_view(scan: PathScan) -> Result<Seq<PathItemView>, StoreFailure> {
    match scan {
        Ok(items) => Ok(store_records::views(items@)),
        Err(e) => Err(e.model()),
    }
}

/// Contents of the answers of prefix scans.
pub open spec fn scan_views(scans: Seq<PathScan>) -> Seq<Result<Seq<PathItemView>, StoreFailure>> {
    Seq::new(scans.len(), |i: int| scan_view(scans[i]))
}

/// The rows of the visible workspaces in order, each with the answer of its own
/// scan, or the first failure.
pub open spec fn rows_of(
    visible: Seq<VisibleWorkspaceView>,
    scans: Seq<Result<Seq<PathItemView>, StoreFailure>>,
    path_prefix: Option<Seq<u8>>,
) -> Result<Seq<RowView>, QueryFailure>
    decreases visible.len(),
{
    if visible.len() == 0 {
        Ok(Seq::empty())
    } else {
        match rows_of(visible.drop_last(), scans.drop_last(), path_prefix) {
            Err(e) => Err(e),
            Ok(rows) => match scans.last() {
                Err(source) => Err(QueryError::Engine(source)),
                Ok(items) => match workspace_rows(
                    visible.last().workbench_id,
                    items,
                    path_prefix,
                ) {
                    Err(e) => Err(e),
                    Ok(more) => Ok(rows + more),
                },
            },
        }
    }
}

/// Candidate rows of one scope.
#[derive(Debug, PartialEq, Eq)]
pub struct CollectedRows {
    pub rows: Vec<MaterializedRow>,
    pub scope_visible: bool,
}

/// Contents of [`CollectedRows`].
pub struct CollectedRowsView {
    pub rows: Seq<RowView>,
    pub scope_visible: bool,
}

impl View for CollectedRows {
    type V = CollectedRowsView;

    open spec fn view(&self) -> CollectedRowsView {
        CollectedRowsView {
            rows: store_records::views(self.rows@),
            scope_visible: self.scope_visible,
        }
    }
}

/// A failure among the first items is the failure of all of them.
proof fn row_failure_persists(
    workbench_id: Seq<u8>,
    items: Seq<PathItemView>,
    path_prefix: Option<Seq<u8>>,
    n: int,
)
    requires
        0 <= n <= items.len(),
        workspace_rows(workbench_id, items.take(n), path_prefix) is Err,
    ensures
        workspace_rows(workbench_id, items, path_prefix) == workspace_rows(
            workbench_id,
            items.take(n),
            path_prefix,
        ),
    decreases items.len() - n,
{
    if n < items.len() {
        assert(items.take(n + 1).drop_last() =~= items.take(n));
        row_failure_persists(workbench_id, items, path_prefix, n + 1);
    } else {
        assert(items.take(n) =~= items);
    }
}

/// Takes the path, entry, and projection out of an item that is read.
fn read_item(item: PathItem, path_prefix: &Option<NormalizedRelativePath>, workbench_id:
    &WorkbenchId) -> (result: Result<Option<MaterializedRow>, QueryError>)
    ensures
        match result {
            Ok(None) => workspace_rows(
                workbench_id@,
                seq![item@],
                bytes::option_view(*path_prefix),
            ) == Ok::<Seq<RowView>, QueryFailure>(Seq::empty()),
            Ok(Some(row)) => workspace_rows(
                workbench_id@,
                seq![item@],
                bytes::option_view(*path_prefix),
            ) == Ok::<Seq<RowView>, QueryFailure>(seq![row@]),
            Err(e) => workspace_rows(
                workbench_id@,
                seq![item@],
                bytes::option_view(*path_prefix),
            ) == Err::<Seq<RowView>, QueryFailure>(e.model()),
        },
{
    let ghost one = seq![item@];
    proof {
        reveal_with_fuel(workspace_rows, 2);
        assert(one.drop_last() =~= Seq::<PathItemView>::empty());
        assert(one.last() == item@);
        assert forall|row: RowView| #[trigger]
            Seq::<RowView>::empty().push(row) == seq![row] by {
            assert(Seq::<RowView>::empty().push(row) =~= seq![row]);
        }
    }
    let path = match item.path {
        Some(path) => path,
        None => {
            return Err(
                QueryError::CorruptKey {
                    family: "PathCurrent",
                    reason: "key does not use the canonical root/incarnation/path encoding".to_owned(),
                },
            );
        },
    };
    if let Some(prefix) = path_prefix {
        if !path_is_at_or_below(&path, prefix) {
            return Ok(None);
        }
    }
    let entry = match item.entry {
        Ok(entry) => entry,
        Err(source) => {
            return Err(QueryError::PathCodec { source });
        },
    };
    let projection = match item.projection {
        Ok(projection) => projection,
        Err(source) => {
            return Err(QueryError::Projection { source });
        },
    };
    Ok(Some(MaterializedRow { workbench_id: workbench_id.clone(), path, entry, projection }))
}

/// Reading one more item adds its row, or fails as it does.
proof fn workspace_rows_step(
    workbench_id: Seq<u8>,
    items: Seq<PathItemView>,
    path_prefix: Option<Seq<u8>>,
    n: int,
)
    requires
        0 <= n < items.len(),
        workspace_rows(workbench_id, items.take(n), path_prefix) is Ok,
    ensures
        match workspace_rows(workbench_id, seq![items[n]], path_prefix) {
            Err(e) => workspace_rows(workbench_id, items, path_prefix) == Err::<
                Seq<RowView>,
                QueryFailure,
            >(e),
            Ok(more) => workspace_rows(workbench_id, items.take(n + 1), path_prefix) == Ok::<
                Seq<RowView>,
                QueryFailure,
            >(workspace_rows(workbench_id, items.take(n), path_prefix)->Ok_0 + more),
        },
{
    reveal_with_fuel(workspace_rows, 2);
    let one = seq![items[n]];
    let rows = workspace_rows(workbench_id, items.take(n), path_prefix)->Ok_0;
    assert(one.drop_last() =~= Seq::<PathItemView>::empty());
    assert(items.take(n + 1).drop_last() =~= items.take(n));
    assert(items.take(n + 1).last() == items[n]);
    assert(one.last() == items[n]);
    match workspace_rows(workbench_id, one, path_prefix) {
        Err(e) => {
            assert(workspace_rows(workbench_id, items.take(n + 1), path_prefix) is Err);
            row_failure_persists(workbench_id, items, path_prefix, n + 1);
        },
        Ok(more) => {
            let now = workspace_rows(workbench_id, items.take(n + 1), path_prefix)->Ok_0;
            assert(now =~= rows + more);
        },
    }
}

/// Appends the rows of one workspace.
fn materialize_rows(
    rows: &mut Vec<MaterializedRow>,
    workbench_id: &WorkbenchId,
    items: Vec<PathItem>,
    path_prefix: &Option<NormalizedRelativePath>,
) -> (result: Result<(), QueryError>)
    ensures
        match result {
            Ok(()) => workspace_rows(
                workbench_id@,
                store_records::views(items@),
                bytes::option_view(*path_prefix),
            ) is Ok && store_records::views(final(rows)@) == store_records::views(old(rows)@)
                + workspace_rows(
                workbench_id@,
                store_records::views(items@),
                bytes::option_view(*path_prefix),
            )->Ok_0,
            Err(e) => workspace_rows(
                workbench_id@,
                store_records::views(items@),
                bytes::option_view(*path_prefix),
            ) == Err::<Seq<RowView>, QueryFailure>(e.model()),
        },
{
    let ghost all = store_records::views(items@);
    let ghost prefix = bytes::option_view(*path_prefix);
    let ghost before = store_records::views(rows@);
    let ghost listed = items@;
    proof {
        assert(all.take(0) =~= Seq::<PathItemView>::empty());
        assert(workspace_rows(workbench_id@, all.take(0), prefix) == Ok::<
            Seq<RowView>,
            QueryFailure,
        >(Seq::empty()));
        assert(before =~= before + Seq::<RowView>::empty());
    }
    for item in it: items.into_iter()
        invariant
            it.seq() == listed,
            all == store_records::views(listed),
            prefix == bytes::option_view(*path_prefix),
            workspace_rows(workbench_id@, all.take(it.index() as int), prefix) is Ok,
            store_records::views(rows@) == before + workspace_rows(
                workbench_id@,
                all.take(it.index() as int),
                prefix,
            )->Ok_0,
    {
        let ghost n = it.index() as int;
        let ghost so_far = store_records::views(rows@);
        proof {
            assert(item == listed[n]);
            assert(all[n] == item@);
            workspace_rows_step(workbench_id@, all, prefix, n);
        }
        match read_item(item, path_prefix, workbench_id) {
            Ok(Some(row)) => {
                rows.push(row);
                assert(store_records::views(rows@) =~= so_far + seq![row@]);
            },
            Ok(None) => {},
            Err(e) => {
                return Err(e);
            },
        }
        proof {
            assert(store_records::views(rows@) =~= before + workspace_rows(
                workbench_id@,
                all.take(n + 1),
                prefix,
            )->Ok_0);
        }
    }
    assert(all.take(all.len() as int) =~= all);
    Ok(())
}

/// A failure among the first workspaces is the failure of all of them.
proof fn scan_failure_persists(
    visible: Seq<VisibleWorkspaceView>,
    scans: Seq<Result<Seq<PathItemView>, StoreFailure>>,
    path_prefix: Option<Seq<u8>>,
    n: int,
)
    requires
        visible.len() == scans.len(),
        0 <= n <= visible.len(),
        rows_of(visible.take(n), scans.take(n), path_prefix) is Err,
    ensures
        rows_of(visible, scans, path_prefix) == rows_of(
            visible.take(n),
            scans.take(n),
            path_prefix,
        ),
    decreases visible.len() - n,
{
    if n < visible.len() {
        assert(visible.take(n + 1).drop_last() =~= visible.take(n));
        assert(scans.take(n + 1).drop_last() =~= scans.take(n));
        scan_failure_persists(visible, scans, path_prefix, n + 1);
    } else {
        assert(visible.take(n) =~= visible);
        assert(scans.take(n) =~= scans);
    }
}

/// Collects the candidate rows of a scope: the paths of its visible workspaces,
/// each of which was scanned.
pub fn collect_rows(
    visible: &Vec<VisibleWorkspace>,
    scans: Vec<PathScan>,
    path_prefix: &Option<NormalizedRelativePath>,
) -> (result: Result<CollectedRows, QueryError>)
    requires
        visible@.len() == scans@.len(),
    ensures
        query_types::outcome(result) == match rows_of(
            store_records::views(visible@),
            scan_views(scans@),
            bytes::option_view(*path_prefix),
        ) {
            Ok(rows) => Ok(CollectedRowsView { rows, scope_visible: visible@.len() > 0 }),
            Err(e) => Err(e),
        },
{
    let count: usize = visible.len();
    let mut rows: Vec<MaterializedRow> = Vec::new();
    let ghost shown = store_records::views(visible@);
    let ghost all = scan_views(scans@);
    let ghost prefix = bytes::option_view(*path_prefix);
    let ghost listed = scans@;
    let mut i: usize = 0;
    proof {
        assert(shown.take(0) =~= Seq::<VisibleWorkspaceView>::empty());
        assert(store_records::views(rows@) =~= Seq::<RowView>::empty());
    }
    for scan in it: scans.into_iter()
        invariant
            it.seq() == listed,
            i == it.index(),
            count == visible@.len(),
            visible@.len() == listed.len(),
            shown == store_records::views(visible@),
            all == scan_views(listed),
            prefix == bytes::option_view(*path_prefix),
            rows_of(shown.take(i as int), all.take(i as int), prefix) == Ok::<
                Seq<RowView>,
                QueryFailure,
            >(store_records::views(rows@)),
    {
        proof {
            assert(scan == listed[i as int]);
            assert(all[i as int] == scan_view(scan));
            assert(shown.take(i + 1).drop_last() =~= shown.take(i as int));
            assert(all.take(i + 1).drop_last() =~= all.take(i as int));
            assert(shown.take(i + 1).last() == visible@[i as int]@);
            if rows_of(shown.take(i + 1), all.take(i + 1), prefix) is Err {
                scan_failure_persists(shown, all, prefix, i + 1);
            }
        }
        let items = match scan {
            Ok(items) => items,
            Err(source) => {
                return Err(QueryError::Engine(source));
            },
        };
        match materialize_rows(&mut rows, &visible[i].workbench_id, items, path_prefix) {
            Ok(()) => {},
            Err(e) => {
                return Err(e);
            },
        }
        assert(i < count);
        i = i + 1;
    }
    proof {
        assert(shown.take(i as int) =~= shown);
        assert(all.take(i as int) =~= all);
    }
    Ok(CollectedRows { rows, scope_visible: count > 0 })
}

/// Every collected workspace is visible, and no two share an incarnation.
pub proof fn visible_workspaces_are_distinct(items: Seq<WorkspaceItemView>)
    requires
        visible_workspaces(items) is Ok,
    ensures
        forall|i: int|
            0 <= i < visible_workspaces(items)->Ok_0.len() ==> (#[trigger] visible_workspaces(
                items,
            )->Ok_0[i]).workspace.state == WorkspaceState::Visible,
        forall|i: int, j: int|
            0 <= i < j < visible_workspaces(items)->Ok_0.len() ==> (#[trigger] visible_workspaces(
                items,
            )->Ok_0[i]).workspace.incarnation_id != (#[trigger] visible_workspaces(
                items,
            )->Ok_0[j]).workspace.incarnation_id,
    decreases items.len(),
{
    if items.len() > 0 {
        visible_workspaces_are_distinct(items.drop_last());
    }
}

} // verus!
