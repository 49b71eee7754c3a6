//! Field catalogs and workspace discovery.

use vstd::prelude::*;

use crate::bytes;
use crate::digest;
use crate::ids::{RootId, WorkspaceIncarnationId, FIXED_ID_BYTES};
use crate::names;
use crate::names::WorkbenchId;
use crate::namespace_types::{NamespaceError, RootReadContext};
use crate::ordering;
use crate::ordering::Comparison;
use crate::query_catalog;
use crate::query_cursor;
use crate::query_cursor::CursorKind;
use crate::query_digests;
use crate::query_rows;
use crate::query_rows::{CollectedRows, CollectedRowsView, VisibleWorkspace, VisibleWorkspaceView};
use crate::query_search;
use crate::query_types;
use crate::query_types::{
    CatalogField, CatalogFieldView, CatalogPage, CatalogPageView, CatalogRequest,
    CatalogRequestView, CommittedFilter, FindWorkspacesPage, FindWorkspacesPageView,
    FindWorkspacesRequest, FindWorkspacesRequestView, QueryError, QueryFailure,
    WorkspaceDiscovery, WorkspaceDiscoveryView,
};
use crate::scalars::QueryScalarType;
use crate::sorted_maps;
use crate::sorted_maps::Entry;
use crate::store_records;
use crate::store_records::{
    Decoded, PointRead, StoreFailure, WorkbenchCommitHeadRecord, WorkbenchCommitHeadRecordView,
    WorkspaceRecord, WorkspaceRecordView,
};
use crate::text;

verus! {

/// A field prefix is bounded and holds only bytes of field ids.
pub open spec fn field_prefix_check(prefix: Option<Seq<u8>>) -> Result<(), QueryFailure> {
    match prefix {
        None => Ok(()),
        Some(b) => if b.len() > names::MAX_QUERY_FIELD_ID_BYTES {
            Err(
                QueryError::InvalidFieldPrefix {
                    reason: bytes::utf8("prefix exceeds 128 bytes"@),
                },
            )
        } else if names::first_unsupported(b, 0) < b.len() {
            Err(
                QueryError::InvalidFieldPrefix {
                    reason: bytes::utf8("unsupported byte 0x"@) + text::hex_pair(
                        b[names::first_unsupported(b, 0)],
                    ) + bytes::utf8(" at offset "@) + text::decimal(
                        names::first_unsupported(b, 0) as nat,
                    ),
                },
            )
        } else {
            Ok(())
        },
    }
}

/// Checks a field prefix.
fn validate_field_prefix(prefix: &Option<String>) -> (result: Result<(), QueryError>)
    ensures
        query_types::checked(result) == field_prefix_check(
            crate::generic_index_records::optional_text_view(*prefix),
        ),
{
    let prefix = match prefix {
        None => {
            return Ok(());
        },
        Some(prefix) => prefix,
    };
    let b = prefix.as_str().as_bytes();
    if b.len() > names::MAX_QUERY_FIELD_ID_BYTES {
        return Err(
            QueryError::InvalidFieldPrefix { reason: "prefix exceeds 128 bytes".to_owned() },
        );
    }
    let index: usize = names::find_unsupported(b);
    if index < b.len() {
        let mut out: Vec<u8> = Vec::new();
        text::push_text(&mut out, "unsupported byte 0x");
        text::push_hex_pair(&mut out, b[index]);
        text::push_text(&mut out, " at offset ");
        text::push_decimal(&mut out, index as u64);
        assert(out@ =~= bytes::utf8("unsupported byte 0x"@) + text::hex_pair(b@[index as int])
            + bytes::utf8(" at offset "@) + text::decimal(index as nat));
        return Err(QueryError::InvalidFieldPrefix { reason: text::finish_text(out) });
    }
    Ok(())
}

impl CatalogRequestView {
    /// This request is well formed, before any row is read.
    pub open spec fn check(self) -> Result<(), QueryFailure> {
        query_types::and_also(
            query_catalog::page_check(self.limit),
            field_prefix_check(self.field_prefix),
        )
    }
}

/// Checks a catalog request, before any row is read.
pub fn validate_catalog(request: &CatalogRequest) -> (result: Result<(), QueryError>)
    ensures
        query_types::checked(result) == request@.check(),
{
    match query_catalog::validate_page(request.limit) {
        Ok(()) => {},
        Err(e) => {
            return Err(e);
        },
    }
    validate_field_prefix(&request.field_prefix)
}

/// The catalog fields whose ids have the prefix, in ascending order.
pub open spec fn listed_fields(
    catalog: Seq<Entry<QueryScalarType>>,
    prefix: Option<Seq<u8>>,
) -> Seq<CatalogFieldView>
    decreases catalog.len(),
{
    if catalog.len() == 0 {
        Seq::empty()
    } else if prefix is None || bytes::has_prefix(catalog.last().0, prefix->0) {
        listed_fields(catalog.drop_last(), prefix).push(
            query_catalog::capabilities(catalog.last()),
        )
    } else {
        listed_fields(catalog.drop_last(), prefix)
    }
}

/// A listed field has the capabilities of its type.
proof fn listed_fields_are_capable(
    catalog: Seq<Entry<QueryScalarType>>,
    prefix: Option<Seq<u8>>,
)
    ensures
        forall|k: int|
            0 <= k < listed_fields(catalog, prefix).len() ==> #[trigger] listed_fields(
                catalog,
                prefix,
            )[k] == query_catalog::capabilities(
                (
                    listed_fields(catalog, prefix)[k].field_id,
                    listed_fields(catalog, prefix)[k].scalar_type,
                ),
            ),
    decreases catalog.len(),
{
    if catalog.len() > 0 {
        listed_fields_are_capable(catalog.drop_last(), prefix);
    }
}

/// The fields of the scope that the request asks for; none where nothing is
/// visible.
pub open spec fn catalog_listing(collected: CollectedRowsView, prefix: Option<Seq<u8>>) -> Seq<
    CatalogFieldView,
> {
    if collected.scope_visible {
        listed_fields(query_catalog::catalog_of(collected.rows), prefix)
    } else {
        Seq::empty()
    }
}

/// Identities of catalog fields.
pub open spec fn field_identities(fields: Seq<CatalogFieldView>) -> Seq<Seq<u8>> {
    Seq::new(fields.len(), |i: int| fields[i].field_id)
}

/// The outcome of a catalog request over the candidate rows.
pub open spec fn catalog_fields(
    collected: CollectedRowsView,
    request: CatalogRequestView,
    read_version: u64,
) -> Result<CatalogPageView, QueryFailure> {
    let fields = catalog_listing(collected, request.field_prefix);
    match query_types::and_also(
        request.check(),
        if collected.scope_visible {
            query_catalog::catalog_check(collected.rows)
        } else {
            Ok(())
        },
    ) {
        Err(e) => Err(e),
        Ok(()) => match query_cursor::start_of(
            request.cursor,
            CursorKind::Catalog,
            read_version,
            digest::sha256(request.message()),
            field_identities(fields),
        ) {
            Err(e) => Err(e),
            Ok(start) => {
                let end = query_search::page_end(start, request.limit as int, fields.len() as int);
                Ok(
                    CatalogPageView {
                        fields: fields.subrange(start, end),
                        next_cursor: query_search::cursor_behind(
                            CursorKind::Catalog,
                            read_version,
                            request.message(),
                            field_identities(fields),
                            end,
                        ),
                        read_version,
                    },
                )
            },
        },
    }
}

/// Lists the catalog fields with the prefix.
fn list_fields(catalog: &sorted_maps::FieldMap<QueryScalarType>, prefix: &Option<String>) -> (fields:
    Vec<CatalogField>)
    ensures
        store_records::views(fields@) == listed_fields(
            catalog@,
            crate::generic_index_records::optional_text_view(*prefix),
        ),
{
    let ghost wanted = crate::generic_index_records::optional_text_view(*prefix);
    let ghost all = catalog@;
    let entries = catalog.entries();
    let mut fields: Vec<CatalogField> = Vec::new();
    let mut i: usize = 0;
    proof {
        assert(all.take(0) =~= Seq::<Entry<QueryScalarType>>::empty());
        assert(store_records::views(fields@) =~= Seq::<CatalogFieldView>::empty());
    }
    while i < entries.len()
        invariant
            i <= entries@.len(),
            all == sorted_maps::entry_views(entries@),
            wanted == crate::generic_index_records::optional_text_view(*prefix),
            store_records::views(fields@) == listed_fields(all.take(i as int), wanted),
        decreases entries@.len() - i,
    {
        let entry = &entries[i];
        let ghost before = store_records::views(fields@);
        proof {
            assert(all[i as int] == entry@);
            assert(all.take(i + 1).drop_last() =~= all.take(i as int));
            assert(all.take(i + 1).last() == entry@);
        }
        let keep: bool = match prefix {
            None => true,
            Some(prefix) => bytes::starts_with(
                entry.field.as_bytes(),
                prefix.as_str().as_bytes(),
            ),
        };
        if keep {
            let field = query_catalog::catalog_field(entry.field.clone(), entry.value);
            fields.push(field);
            assert(store_records::views(fields@) =~= before.push(field@));
        }
        i = i + 1;
    }
    assert(all.take(i as int) =~= all);
    fields
}

/// Identities of catalog fields.
fn list_field_identities(fields: &Vec<CatalogField>) -> (identities: Vec<Vec<u8>>)
    ensures
        store_records::views(identities@) == field_identities(store_records::views(fields@)),
        forall|k: int|
            0 <= k < identities@.len() ==> (#[trigger] identities@[k])@.len() <= u32::MAX,
{
    let mut identities: Vec<Vec<u8>> = Vec::new();
    let mut i: usize = 0;
    while i < fields.len()
        invariant
            i <= fields@.len(),
            identities@.len() == i,
            forall|k: int|
                0 <= k < i ==> (#[trigger] identities@[k])@ == fields@[k].field_id@
                    && identities@[k]@.len() <= u32::MAX,
        decreases fields@.len() - i,
    {
        identities.push(vstd::slice::slice_to_vec(fields[i].field_id.as_bytes()));
        i = i + 1;
    }
    assert(store_records::views(identities@) =~= field_identities(store_records::views(fields@)));
    identities
}

/// Discovers stable built-in and typed projection fields over the candidate
/// rows.
pub fn catalog_fields_at(
    collected: &CollectedRows,
    context: RootReadContext,
    request: &CatalogRequest,
) -> (result: Result<CatalogPage, QueryError>)
    ensures
        query_types::outcome(result) == catalog_fields(collected@, request@, context@.read_version),
{
    let read_version = context.read_version;
    match validate_catalog(request) {
        Ok(()) => {},
        Err(e) => {
            return Err(e);
        },
    }
    let fields: Vec<CatalogField> = if collected.scope_visible {
        match query_catalog::build_catalog(collected) {
            Ok(catalog) => list_fields(&catalog, &request.field_prefix),
            Err(e) => {
                return Err(e);
            },
        }
    } else {
        Vec::new()
    };
    let ghost listing = catalog_listing(collected@, request@.field_prefix);
    proof {
        assert(store_records::views(fields@) =~= listing);
        listed_fields_are_capable(
            query_catalog::catalog_of(collected@.rows),
            request@.field_prefix,
        );
    }
    let request_digest = query_digests::catalog_digest(request);
    let identities = list_field_identities(&fields);
    let start: usize = match query_cursor::cursor_start(
        &request.cursor,
        CursorKind::Catalog,
        read_version,
        &request_digest,
        &identities,
    ) {
        Ok(start) => start,
        Err(e) => {
            return Err(e);
        },
    };
    let total: usize = fields.len();
    assert(identities@.len() == store_records::views(identities@).len());
    let end: usize = query_search::end_of_page(start, request.limit, total);
    let mut page_fields: Vec<CatalogField> = Vec::new();
    let mut i: usize = start;
    while i < end
        invariant
            start <= i <= end <= total,
            total == fields@.len(),
            store_records::views(fields@) == listing,
            forall|k: int|
                0 <= k < listing.len() ==> #[trigger] listing[k] == query_catalog::capabilities(
                    (listing[k].field_id, listing[k].scalar_type),
                ),
            page_fields@.len() == i - start,
            forall|k: int|
                0 <= k < page_fields@.len() ==> (#[trigger] page_fields@[k])@ == listing[start + k],
        decreases end - i,
    {
        assert(listing[i as int] == fields@[i as int]@);
        page_fields.push(
            query_catalog::catalog_field(fields[i].field_id.clone(), fields[i].scalar_type),
        );
        i = i + 1;
    }
    let next_cursor: Option<Vec<u8>> = if end < total {
        assert(end > 0);
        Some(
            query_cursor::encode_cursor(
                CursorKind::Catalog,
                read_version,
                &request_digest,
                identities[end - 1].as_slice(),
            ),
        )
    } else {
        None
    };
    let page = CatalogPage { fields: page_fields, next_cursor, read_version };
    proof {
        assert(page@.fields =~= listing.subrange(start as int, end as int));
        if end < total {
            assert(field_identities(listing)[end - 1] == identities@[end - 1]@);
        }
    }
    Ok(page)
}

/// One stored commit head: its key and its decoded value.
pub struct CommitHeadItem {
    pub key: Vec<u8>,
    pub head: Decoded<WorkbenchCommitHeadRecord>,
}

/// Contents of a [`CommitHeadItem`].
pub struct CommitHeadItemView {
    pub key: Seq<u8>,
    pub head: Result<WorkbenchCommitHeadRecordView, Seq<u8>>,
}

impl View for CommitHeadItem {
    type V = CommitHeadItemView;

    open spec fn view(&self) -> CommitHeadItemView {
        CommitHeadItemView { key: self.key@, head: store_records::decoded_view(self.head) }
    }
}

/// The commit head of one workspace incarnation.
#[derive(Clone, Copy, Debug, PartialEq, Eq)]
pub struct CommitHead {
    pub incarnation_id: WorkspaceIncarnationId,
    pub head: WorkbenchCommitHeadRecord,
}

/// Contents of a [`CommitHead`].
pub struct CommitHeadView {
    pub incarnation_id: Seq<u8>,
    pub head: WorkbenchCommitHeadRecordView,
}

impl View for CommitHead {
    type V = CommitHeadView;

    open spec fn view(&self) -> CommitHeadView {
        CommitHeadView { incarnation_id: self.incarnation_id@, head: self.head@ }
    }
}

/// The head of an incarnation, if it has one.
pub open spec fn head_of(heads: Seq<CommitHeadView>, incarnation_id: Seq<u8>) -> Option<
    WorkbenchCommitHeadRecordView,
>
    decreases heads.len(),
{
    if heads.len() == 0 {
        None
    } else if heads.last().incarnation_id == incarnation_id {
        Some(heads.last().head)
    } else {
        head_of(heads.drop_last(), incarnation_id)
    }
}

/// The commit heads among the stored items, or the first failure.
pub open spec fn commit_heads(root_id: Seq<u8>, items: Seq<CommitHeadItemView>) -> Result<
    Seq<CommitHeadView>,
    QueryFailure,
>
    decreases items.len(),
{
    if items.len() == 0 {
        Ok(Seq::empty())
    } else {
        let item = items.last();
        let incarnation_id = item.key.skip(FIXED_ID_BYTES as int);
        match commit_heads(root_id, items.drop_last()) {
            Err(e) => Err(e),
            Ok(heads) => if item.key.len() != FIXED_ID_BYTES * 2 || !bytes::has_prefix(
                item.key,
                root_id,
            ) {
                Err(
                    QueryError::CorruptKey {
                        family: "WorkbenchCommitHead",
                        reason: bytes::utf8("key has a noncanonical root/incarnation width"@),
                    },
                )
            } else {
                match item.head {
                    Err(source) => Err(QueryError::CommitHeadCodec { source }),
                    Ok(head) => if head_of(heads, incarnation_id) is Some {
                        Err(
                            QueryError::CorruptKey {
                                family: "WorkbenchCommitHead",
                                reason: bytes::utf8("duplicate incarnation key"@),
                            },
                        )
                    } else {
                        Ok(heads.push(CommitHeadView { incarnation_id, head }))
                    },
                }
            },
        }
    }
}

/// A failure among the first items is the failure of all of them.
proof fn head_failure_persists(root_id: Seq<u8>, items: Seq<CommitHeadItemView>, n: int)
    requires
        0 <= n <= items.len(),
        commit_heads(root_id, items.take(n)) is Err,
    ensures
        commit_heads(root_id, items) == commit_heads(root_id, items.take(n)),
    decreases items.len() - n,
{
    if n < items.len() {
        assert(items.take(n + 1).drop_last() =~= items.take(n));
        head_failure_persists(root_id, items, n + 1);
    } else {
        assert(items.take(n) =~= items);
    }
}

/// Finds the head of an incarnation.
fn find_head(heads: &Vec<CommitHead>, incarnation_id: &WorkspaceIncarnationId) -> (head: Option<
    WorkbenchCommitHeadRecord,
>)
    ensures
        bytes::option_view(head) == head_of(store_records::views(heads@), incarnation_id@),
{
    let ghost all = store_records::views(heads@);
    let mut i: usize = heads.len();
    assert(all.take(i as int) =~= all);
    while i > 0
        invariant
            i <= heads@.len(),
            all == store_records::views(heads@),
            head_of(all, incarnation_id@) == head_of(all.take(i as int), incarnation_id@),
        decreases i,
    {
        i = i - 1;
        proof {
            assert(all.take(i + 1).last() == heads@[i as int]@);
            assert(all.take(i + 1).drop_last() =~= all.take(i as int));
        }
        if heads[i].incarnation_id.same(incarnation_id) {
            return Some(heads[i].head);
        }
    }
    None
}

/// Reads the commit heads of one root from their stored items.
pub fn scan_commit_heads(root_id: &RootId, items: &Vec<CommitHeadItem>) -> (result: Result<
    Vec<CommitHead>,
    QueryError,
>)
    ensures
        query_rows::list_outcome(result) == commit_heads(root_id@, store_records::views(items@)),
{
    let ghost all = store_records::views(items@);
    let mut heads: Vec<CommitHead> = Vec::new();
    let mut i: usize = 0;
    proof {
        assert(all.take(0) =~= Seq::<CommitHeadItemView>::empty());
        assert(store_records::views(heads@) =~= Seq::<CommitHeadView>::empty());
    }
    while i < items.len()
        invariant
            i <= items@.len(),
            all == store_records::views(items@),
            commit_heads(root_id@, all.take(i as int)) == Ok::<Seq<CommitHeadView>, QueryFailure>(
                store_records::views(heads@),
            ),
        decreases items@.len() - i,
    {
        let item = &items[i];
        let ghost before = store_records::views(heads@);
        proof {
            assert(all.take(i + 1).last() == item@);
            assert(all.take(i + 1).drop_last() =~= all.take(i as int));
            if commit_heads(root_id@, all.take(i + 1)) is Err {
                head_failure_persists(root_id@, all, i + 1);
            }
        }
        if item.key.len() != FIXED_ID_BYTES * 2 || !bytes::starts_with(
            item.key.as_slice(),
            root_id.as_bytes().as_slice(),
        ) {
            return Err(
                QueryError::CorruptKey {
                    family: "WorkbenchCommitHead",
                    reason: "key has a noncanonical root/incarnation width".to_owned(),
                },
            );
        }
        let tail = vstd::slice::slice_subrange(item.key.as_slice(), 16, 32);
        assert(tail@ =~= item@.key.skip(FIXED_ID_BYTES as int));
        let incarnation_id = WorkspaceIncarnationId::from_bytes(bytes::array_from::<16>(tail));
        let head = match &item.head {
            Ok(head) => *head,
            Err(source) => {
                return Err(QueryError::CommitHeadCodec { source: source.clone() });
            },
        };
        if find_head(&heads, &incarnation_id).is_some() {
            return Err(
                QueryError::CorruptKey {
                    family: "WorkbenchCommitHead",
                    reason: "duplicate incarnation key".to_owned(),
                },
            );
        }
        heads.push(CommitHead { incarnation_id, head });
        assert(store_records::views(heads@) =~= before.push(
            CommitHeadView { incarnation_id: incarnation_id@, head: head@ },
        ));
        i = i + 1;
    }
    assert(all.take(i as int) =~= all);
    Ok(heads)
}

/// The filter admits a workspace with or without a head.
pub open spec fn admits(filter: CommittedFilter, committed: bool) -> bool {
    match filter {
        CommittedFilter::Any => true,
        CommittedFilter::Committed => committed,
        CommittedFilter::Uncommitted => !committed,
    }
}

/// The summary of one visible workspace and its optional head.
pub open spec fn discovery_of(
    workbench_id: Seq<u8>,
    workspace: WorkspaceRecordView,
    head: Option<WorkbenchCommitHeadRecordView>,
) -> WorkspaceDiscoveryView {
    WorkspaceDiscoveryView {
        workbench_id,
        workspace_incarnation_id: workspace.incarnation_id,
        workspace_revision: workspace.workspace_revision,
        commit_id: match head {
            Some(head) => Some(head.commit_id),
            None => None,
        },
        commit_head_generation: match head {
            Some(head) => Some(head.head_generation),
            None => None,
        },
    }
}

/// Builds the summary of one visible workspace.
fn build_discovery(
    workbench_id: &WorkbenchId,
    workspace: &WorkspaceRecord,
    head: Option<WorkbenchCommitHeadRecord>,
) -> (discovery: WorkspaceDiscovery)
    ensures
        discovery@ == discovery_of(workbench_id@, workspace@, bytes::option_view(head)),
{
    let (commit_id, commit_head_generation) = match head {
        Some(head) => (Some(head.commit_id), Some(head.head_generation)),
        None => (None, None),
    };
    WorkspaceDiscovery {
        workbench_id: workbench_id.clone(),
        workspace_incarnation_id: workspace.incarnation_id,
        workspace_revision: workspace.workspace_revision,
        commit_id,
        commit_head_generation,
    }
}

/// The summaries of the visible workspaces that the filter admits.
pub open spec fn discoveries(
    visible: Seq<VisibleWorkspaceView>,
    heads: Seq<CommitHeadView>,
    filter: CommittedFilter,
) -> Seq<WorkspaceDiscoveryView>
    decreases visible.len(),
{
    if visible.len() == 0 {
        Seq::empty()
    } else {
        let last = visible.last();
        let head = head_of(heads, last.workspace.incarnation_id);
        let before = discoveries(visible.drop_last(), heads, filter);
        if admits(filter, head is Some) {
            before.push(discovery_of(last.workbench_id, last.workspace, head))
        } else {
            before
        }
    }
}

/// Collects the summaries of the visible workspaces that the filter admits.
fn collect_discoveries(
    visible: &Vec<VisibleWorkspace>,
    heads: &Vec<CommitHead>,
    filter: CommittedFilter,
) -> (found: Vec<WorkspaceDiscovery>)
    ensures
        store_records::views(found@) == discoveries(
            store_records::views(visible@),
            store_records::views(heads@),
            filter,
        ),
{
    let ghost all = store_records::views(visible@);
    let ghost stored = store_records::views(heads@);
    let mut found: Vec<WorkspaceDiscovery> = Vec::new();
    let mut i: usize = 0;
    proof {
        assert(all.take(0) =~= Seq::<VisibleWorkspaceView>::empty());
        assert(store_records::views(found@) =~= Seq::<WorkspaceDiscoveryView>::empty());
    }
    while i < visible.len()
        invariant
            i <= visible@.len(),
            all == store_records::views(visible@),
            stored == store_records::views(heads@),
            store_records::views(found@) == discoveries(all.take(i as int), stored, filter),
        decreases visible@.len() - i,
    {
        let workspace = &visible[i];
        let ghost before = store_records::views(found@);
        proof {
            assert(all.take(i + 1).last() == workspace@);
            assert(all.take(i + 1).drop_last() =~= all.take(i as int));
        }
        let head = find_head(heads, &workspace.workspace.incarnation_id);
        let keep: bool = match filter {
            CommittedFilter::Any => true,
            CommittedFilter::Committed => head.is_some(),
            CommittedFilter::Uncommitted => head.is_none(),
        };
        if keep {
            let discovery = build_discovery(&workspace.workbench_id, &workspace.workspace, head);
            found.push(discovery);
            assert(store_records::views(found@) =~= before.push(discovery@));
        }
        i = i + 1;
    }
    assert(all.take(i as int) =~= all);
    found
}

/// Summaries to be sorted by workbench.
pub struct SortedDiscoveries<'a> {
    pub found: &'a Vec<WorkspaceDiscovery>,
}

impl<'a> Comparison for SortedDiscoveries<'a> {
    open spec fn count(&self) -> nat {
        self.found@.len()
    }

    open spec fn less(&self, i: int, j: int) -> bool {
        bytes::lex_less(
            store_records::views(self.found@)[i].workbench_id,
            store_records::views(self.found@)[j].workbench_id,
        )
    }

    open spec fn comparable(&self) -> bool {
        true
    }

    proof fn less_asymmetric(&self, i: int, j: int) {
        let a = store_records::views(self.found@)[i].workbench_id;
        let b = store_records::views(self.found@)[j].workbench_id;
        if bytes::lex_less(b, a) {
            bytes::lex_less_transitive(a, b, a);
            bytes::lex_less_irreflexive(a);
        }
    }

    proof fn less_splits(&self, i: int, j: int, k: int) {
        let a = store_records::views(self.found@)[i].workbench_id;
        let b = store_records::views(self.found@)[j].workbench_id;
        let c = store_records::views(self.found@)[k].workbench_id;
        bytes::lex_less_total(a, b);
        if bytes::lex_less(b, a) {
            bytes::lex_less_transitive(b, a, c);
        }
    }

    fn before(&self, i: usize, j: usize) -> (before: bool) {
        assert(store_records::views(self.found@)[i as int] == self.found@[i as int]@);
        assert(store_records::views(self.found@)[j as int] == self.found@[j as int]@);
        bytes::bytes_less(
            self.found[i].workbench_id.as_bytes(),
            self.found[j].workbench_id.as_bytes(),
        )
    }
}

/// The summaries in the order of their workbench ids.
pub open spec fn ordered_discoveries(found: Seq<WorkspaceDiscoveryView>) -> Seq<
    WorkspaceDiscoveryView,
> {
    let order = ordering::stable_order(
        found.len(),
        |i: int, j: int| bytes::lex_less(found[i].workbench_id, found[j].workbench_id),
    );
    Seq::new(order.len(), |k: int| found[order[k]])
}

/// Identities of summaries.
pub open spec fn discovery_identities(found: Seq<WorkspaceDiscoveryView>) -> Seq<Seq<u8>> {
    Seq::new(found.len(), |i: int| found[i].workbench_id)
}

/// The outcome of a discovery over the visible workspaces and their heads.
pub open spec fn find_workspaces(
    visible: Seq<VisibleWorkspaceView>,
    heads: Seq<CommitHeadView>,
    request: FindWorkspacesRequestView,
    read_version: u64,
) -> Result<FindWorkspacesPageView, QueryFailure> {
    let found = ordered_discoveries(discoveries(visible, heads, request.committed));
    match query_catalog::page_check(request.limit) {
        Err(e) => Err(e),
        Ok(()) => match query_cursor::start_of(
            request.cursor,
            CursorKind::Find,
            read_version,
            digest::sha256(request.message()),
            discovery_identities(found),
        ) {
            Err(e) => Err(e),
            Ok(start) => {
                let end = query_search::page_end(start, request.limit as int, found.len() as int);
                Ok(
                    FindWorkspacesPageView {
                        workspaces: found.subrange(start, end),
                        next_cursor: query_search::cursor_behind(
                            CursorKind::Find,
                            read_version,
                            request.message(),
                            discovery_identities(found),
                            end,
                        ),
                        read_version,
                    },
                )
            },
        },
    }
}

/// A copy of one summary.
fn copy_discovery(discovery: &WorkspaceDiscovery) -> (copy: WorkspaceDiscovery)
    ensures
        copy@ == discovery@,
{
    WorkspaceDiscovery {
        workbench_id: discovery.workbench_id.clone(),
        workspace_incarnation_id: discovery.workspace_incarnation_id,
        workspace_revision: discovery.workspace_revision,
        commit_id: discovery.commit_id,
        commit_head_generation: discovery.commit_head_generation,
    }
}

/// Sorts summaries by workbench.
fn sort_discoveries(found: &Vec<WorkspaceDiscovery>) -> (sorted: Vec<WorkspaceDiscovery>)
    ensures
        store_records::views(sorted@) == ordered_discoveries(store_records::views(found@)),
{
    let items = SortedDiscoveries { found };
    let order = ordering::stable_sort(&items, found.len());
    let ghost views = store_records::views(found@);
    let ghost numbers = ordering::numbers(order@);
    proof {
        let less = |i: int, j: int| bytes::lex_less(views[i].workbench_id, views[j].workbench_id);
        assert(ordering::order_of(&items) =~= less);
    }
    let mut sorted: Vec<WorkspaceDiscovery> = Vec::new();
    let mut i: usize = 0;
    while i < order.len()
        invariant
            i <= order@.len(),
            views == store_records::views(found@),
            numbers == ordering::numbers(order@),
            forall|k: int| 0 <= k < numbers.len() ==> 0 <= #[trigger] numbers[k] < found@.len(),
            sorted@.len() == i,
            forall|k: int| 0 <= k < i ==> (#[trigger] sorted@[k])@ == views[numbers[k]],
        decreases order@.len() - i,
    {
        assert(numbers[i as int] == order@[i as int]);
        sorted.push(copy_discovery(&found[order[i]]));
        i = i + 1;
    }
    assert(store_records::views(sorted@) =~= ordered_discoveries(views));
    sorted
}

/// Identities of summaries.
fn list_discovery_identities(found: &Vec<WorkspaceDiscovery>) -> (identities: Vec<Vec<u8>>)
    ensures
        store_records::views(identities@) == discovery_identities(store_records::views(found@)),
        forall|k: int|
            0 <= k < identities@.len() ==> (#[trigger] identities@[k])@.len() <= u32::MAX,
{
    let mut identities: Vec<Vec<u8>> = Vec::new();
    let mut i: usize = 0;
    while i < found.len()
        invariant
            i <= found@.len(),
            identities@.len() == i,
            forall|k: int|
                0 <= k < i ==> (#[trigger] identities@[k])@ == found@[k].workbench_id@
                    && identities@[k]@.len() <= u32::MAX,
        decreases found@.len() - i,
    {
        identities.push(vstd::slice::slice_to_vec(found[i].workbench_id.as_bytes()));
        i = i + 1;
    }
    assert(store_records::views(identities@) =~= discovery_identities(
        store_records::views(found@),
    ));
    identities
}

/// Discovers every visible workbench and its optional durable commit head.
pub fn find_workspaces_at(
    visible: &Vec<VisibleWorkspace>,
    heads: &Vec<CommitHead>,
    context: RootReadContext,
    request: &FindWorkspacesRequest,
) -> (result: Result<FindWorkspacesPage, QueryError>)
    ensures
        query_types::outcome(result) == find_workspaces(
            store_records::views(visible@),
            store_records::views(heads@),
            request@,
            context@.read_version,
        ),
{
    let read_version = context.read_version;
    match query_catalog::validate_page(request.limit) {
        Ok(()) => {},
        Err(e) => {
            return Err(e);
        },
    }
    let found = sort_discoveries(&collect_discoveries(visible, heads, request.committed));
    let ghost sorted = store_records::views(found@);
    let request_digest = query_digests::find_digest(request);
    let identities = list_discovery_identities(&found);
    let start: usize = match query_cursor::cursor_start(
        &request.cursor,
        CursorKind::Find,
        read_version,
        &request_digest,
        &identities,
    ) {
        Ok(start) => start,
        Err(e) => {
            return Err(e);
        },
    };
    let total: usize = found.len();
    assert(identities@.len() == store_records::views(identities@).len());
    let end: usize = query_search::end_of_page(start, request.limit, total);
    let mut workspaces: Vec<WorkspaceDiscovery> = Vec::new();
    let mut i: usize = start;
    while i < end
        invariant
            start <= i <= end <= total,
            total == found@.len(),
            sorted == store_records::views(found@),
            workspaces@.len() == i - start,
            forall|k: int|
                0 <= k < workspaces@.len() ==> (#[trigger] workspaces@[k])@ == sorted[start + k],
        decreases end - i,
    {
        assert(sorted[i as int] == found@[i as int]@);
        workspaces.push(copy_discovery(&found[i]));
        i = i + 1;
    }
    let next_cursor: Option<Vec<u8>> = if end < total {
        assert(end > 0);
        Some(
            query_cursor::encode_cursor(
                CursorKind::Find,
                read_version,
                &request_digest,
                identities[end - 1].as_slice(),
            ),
        )
    } else {
        None
    };
    let page = FindWorkspacesPage { workspaces, next_cursor, read_version };
    proof {
        assert(page@.workspaces =~= sorted.subrange(start as int, end as int));
        if end < total {
            assert(discovery_identities(sorted)[end - 1] == identities@[end - 1]@);
        }
    }
    Ok(page)
}

/// The summary of one workbench, from its visible marker and the read of its
/// commit head.
pub open spec fn workspace_summary(
    workbench_id: Seq<u8>,
    workspace: Result<Option<WorkspaceRecordView>, NamespaceError<Seq<u8>, Seq<u8>>>,
    head: Result<Option<Result<WorkbenchCommitHeadRecordView, Seq<u8>>>, StoreFailure>,
) -> Result<Option<WorkspaceDiscoveryView>, QueryFailure> {
    match workspace {
        Err(e) => Err(QueryError::Namespace(e)),
        Ok(None) => Ok(None),
        Ok(Some(workspace)) => match head {
            Err(source) => Err(QueryError::Engine(source)),
            Ok(Some(Err(source))) => Err(QueryError::CommitHeadCodec { source }),
            Ok(Some(Ok(head))) => Ok(Some(discovery_of(workbench_id, workspace, Some(head)))),
            Ok(None) => Ok(Some(discovery_of(workbench_id, workspace, None))),
        },
    }
}

/// Resolves one workbench and its optional commit head without a scan. The head
/// matters only where the workbench is visible.
pub fn get_workspace_at(
    workbench_id: &WorkbenchId,
    workspace: Result<Option<WorkspaceRecord>, NamespaceError>,
    head: PointRead<WorkbenchCommitHeadRecord>,
) -> (result: Result<Option<WorkspaceDiscovery>, QueryError>)
    ensures
        match result {
            Ok(found) => workspace_summary(
                workbench_id@,
                query_rows::namespace_outcome(workspace),
                store_records::point_read_view(head),
            ) == Ok::<Option<WorkspaceDiscoveryView>, QueryFailure>(bytes::option_view(found)),
            Err(e) => workspace_summary(
                workbench_id@,
                query_rows::namespace_outcome(workspace),
                store_records::point_read_view(head),
            ) == Err::<Option<WorkspaceDiscoveryView>, QueryFailure>(e.model()),
        },
{
    let workspace = match workspace {
        Ok(Some(workspace)) => workspace,
        Ok(None) => {
            return Ok(None);
        },
        Err(e) => {
            return Err(QueryError::Namespace(e));
        },
    };
    match head {
        Err(source) => Err(QueryError::Engine(source)),
        Ok(Some(Err(source))) => Err(QueryError::CommitHeadCodec { source }),
        Ok(Some(Ok(head))) => Ok(Some(build_discovery(workbench_id, &workspace, Some(head)))),
        Ok(None) => Ok(Some(build_discovery(workbench_id, &workspace, None))),
    }
}

} // verus!
