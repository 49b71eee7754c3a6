//! How pages of one query follow on one another.
//!
//! Each law says that the cursor of a page leads to the page that starts right
//! behind it, so that following cursors visits every result once, in order.

use vstd::prelude::*;

use crate::bytes;
use crate::digest;
use crate::names;
use crate::ordering;
use crate::query_aggregate;
use crate::query_catalog;
use crate::query_cursor;
use crate::query_cursor::{CursorKind, CursorView, CURSOR_HEADER_BYTES};
use crate::query_discovery;
use crate::query_discovery::CommitHeadView;
use crate::query_groups;
use crate::query_message_laws;
use crate::query_rows::{CollectedRowsView, RowView, VisibleWorkspaceView};
use crate::query_search;
use crate::query_types::{
    AggregateGroupView, AggregateRequestView, CatalogRequestView, CommittedFilter,
    FindWorkspacesRequestView, QueryError, QueryFailure, QueryPredicateView, QuerySortView,
    SearchPageView, SearchRequestView, MAX_QUERY_CURSOR_BYTES,
};
use crate::scalars::{QueryScalarType, QueryScalarView};
use crate::sorted_maps;
use crate::sorted_maps::Entry;

verus! {

/// No two identities are the same.
pub open spec fn distinct(identities: Seq<Seq<u8>>) -> bool {
    forall|i: int, j: int|
        #![trigger identities[i], identities[j]]
        0 <= i < j < identities.len() ==> identities[i] != identities[j]
}

/// The page after the cursor of a page starts behind that page.
pub proof fn cursor_leads_behind_its_page(
    kind: CursorKind,
    read_version: u64,
    message: Seq<u8>,
    identities: Seq<Seq<u8>>,
    end: int,
)
    requires
        distinct(identities),
        0 < end < identities.len(),
        CURSOR_HEADER_BYTES + identities[end - 1].len() <= MAX_QUERY_CURSOR_BYTES,
    ensures
        query_cursor::start_of(
            query_search::cursor_behind(kind, read_version, message, identities, end),
            kind,
            read_version,
            digest::sha256(message),
            identities,
        ) == Ok::<int, QueryFailure>(end),
{
    query_cursor::cursor_resumes_behind_its_anchor(
        kind,
        read_version,
        digest::sha256(message),
        identities,
        end - 1,
    );
}

/// A cursor is refused by every other operation, read version, and request.
pub proof fn foreign_cursors_are_refused(
    cursor: CursorView,
    kind: CursorKind,
    read_version: u64,
    request_digest: Seq<u8>,
    identities: Seq<Seq<u8>>,
)
    requires
        cursor.request_digest.len() == 32,
        CURSOR_HEADER_BYTES + cursor.anchor.len() <= MAX_QUERY_CURSOR_BYTES,
    ensures
        cursor.kind != kind ==> query_cursor::start_of(
            Some(cursor.encoding()),
            kind,
            read_version,
            request_digest,
            identities,
        ) == Err::<int, QueryFailure>(
            QueryError::InvalidCursor { reason: "cursor kind does not match operation" },
        ),
        cursor.kind == kind && cursor.read_version != read_version ==> query_cursor::start_of(
            Some(cursor.encoding()),
            kind,
            read_version,
            request_digest,
            identities,
        ) == Err::<int, QueryFailure>(
            QueryError::CursorReadVersionMismatch {
                cursor: cursor.read_version,
                request: read_version,
            },
        ),
        cursor.kind == kind && cursor.read_version == read_version && cursor.request_digest
            != request_digest ==> query_cursor::start_of(
            Some(cursor.encoding()),
            kind,
            read_version,
            request_digest,
            identities,
        ) == Err::<int, QueryFailure>(QueryError::CursorQueryMismatch),
{
    query_cursor::cursor_reads_back(cursor);
}

/// The place of the first match is one of the items.
proof fn position_is_an_item(identities: Seq<Seq<u8>>, anchor: Seq<u8>, from: int)
    requires
        0 <= from,
    ensures
        query_cursor::position_from(identities, anchor, from) matches Some(at) ==> from <= at
            < identities.len(),
    decreases identities.len() - from,
{
    if from < identities.len() {
        position_is_an_item(identities, anchor, from + 1);
    }
}

/// A page starts within the items.
pub proof fn pages_start_within(
    cursor: Option<Seq<u8>>,
    kind: CursorKind,
    read_version: u64,
    request_digest: Seq<u8>,
    identities: Seq<Seq<u8>>,
)
    ensures
        query_cursor::start_of(cursor, kind, read_version, request_digest, identities) matches Ok(
            start,
        ) ==> 0 <= start <= identities.len(),
{
    if let Some(encoded) = cursor {
        if let Ok(parsed) = CursorView::parse(encoded) {
            position_is_an_item(identities, parsed.anchor, 0);
        }
    }
}

/// No two rows are the same path of the same workbench.
pub open spec fn rows_distinct(rows: Seq<RowView>) -> bool {
    forall|i: int, j: int|
        #![trigger rows[i], rows[j]]
        0 <= i < j < rows.len() ==> rows[i].workbench_id != rows[j].workbench_id || rows[i].path
            != rows[j].path
}

/// The names of the rows are names.
pub open spec fn rows_named(rows: Seq<RowView>) -> bool {
    forall|i: int|
        0 <= i < rows.len() ==> (#[trigger] rows[i]).workbench_id.len()
            <= names::WorkbenchId::MAX_BYTES && rows[i].path.len()
            <= names::NormalizedRelativePath::MAX_BYTES
}

/// The matching rows are rows, in the same order.
pub proof fn matching_rows_are_a_part(rows: Seq<RowView>, predicates: Seq<QueryPredicateView>)
    requires
        rows_distinct(rows),
        rows_named(rows),
    ensures
        rows_distinct(query_search::matching_rows(rows, predicates)),
        rows_named(query_search::matching_rows(rows, predicates)),
        forall|i: int|
            0 <= i < query_search::matching_rows(rows, predicates).len() ==> rows.contains(
                #[trigger] query_search::matching_rows(rows, predicates)[i],
            ),
    decreases rows.len(),
{
    if rows.len() > 0 {
        let shorter = rows.drop_last();
        let n = rows.len() - 1;
        assert forall|i: int, j: int|
            #![trigger shorter[i], shorter[j]]
            0 <= i < j < shorter.len() implies shorter[i].workbench_id != shorter[j].workbench_id
            || shorter[i].path != shorter[j].path by {
            assert(shorter[i] == rows[i] && shorter[j] == rows[j]);
        }
        assert forall|i: int| 0 <= i < shorter.len() implies (
        #[trigger] shorter[i]).workbench_id.len() <= names::WorkbenchId::MAX_BYTES
            && shorter[i].path.len() <= names::NormalizedRelativePath::MAX_BYTES by {
            assert(shorter[i] == rows[i]);
        }
        matching_rows_are_a_part(shorter, predicates);
        let before = query_search::matching_rows(shorter, predicates);
        let now = query_search::matching_rows(rows, predicates);
        assert forall|i: int| 0 <= i < now.len() implies rows.contains(#[trigger] now[i]) by {
            if i < before.len() {
                assert(now[i] == before[i]);
                let k = choose|k: int| 0 <= k < shorter.len() && shorter[k] == before[i];
                assert(rows[k] == now[i]);
            } else {
                assert(rows[n] == now[i]);
            }
        }
        assert forall|i: int, j: int|
            #![trigger now[i], now[j]]
            0 <= i < j < now.len() implies now[i].workbench_id != now[j].workbench_id
            || now[i].path != now[j].path by {
            if j < before.len() {
                assert(now[i] == before[i] && now[j] == before[j]);
            } else {
                assert(now[i] == before[i]);
                let k = choose|k: int| 0 <= k < shorter.len() && shorter[k] == before[i];
                assert(rows[k] == now[i] && rows[n] == now[j]);
            }
        }
        assert forall|i: int| 0 <= i < now.len() implies (#[trigger] now[i]).workbench_id.len()
            <= names::WorkbenchId::MAX_BYTES && now[i].path.len()
            <= names::NormalizedRelativePath::MAX_BYTES by {
            assert(rows.contains(now[i]));
            let k = choose|k: int| 0 <= k < rows.len() && rows[k] == now[i];
            assert(rows[k].workbench_id.len() <= names::WorkbenchId::MAX_BYTES);
        }
    }
}

/// The sort of a search puts every row in exactly one place: by the sort
/// fields, then by workbench and path, and rows that compare equal in the order
/// they came in.
pub proof fn search_order_is_total(rows: Seq<RowView>, sort: Seq<QuerySortView>)
    ensures
        ordering::is_stable_range(
            |i: int, j: int| query_search::row_less(rows[i], rows[j], sort),
            0,
            rows.len() as int,
            query_search::row_order(rows, sort),
        ),
        query_search::ordered_rows(rows, sort).len() == rows.len(),
{
    let less = |i: int, j: int| query_search::row_less(rows[i], rows[j], sort);
    row_order_is_weak(rows, sort);
    ordering::stable_order_exists(rows.len(), less);
}

/// Rows are under a strict weak order.
pub proof fn row_order_is_weak(rows: Seq<RowView>, sort: Seq<QuerySortView>)
    ensures
        ordering::strict_weak(
            rows.len(),
            |i: int, j: int| query_search::row_less(rows[i], rows[j], sort),
        ),
{
    let less = |i: int, j: int| query_search::row_less(rows[i], rows[j], sort);
    assert forall|i: int, j: int|
        #![trigger less(i, j)]
        0 <= i < rows.len() && 0 <= j < rows.len() && less(i, j) implies !less(j, i) by {
        query_search::row_less_asymmetric(rows[i], rows[j], sort);
    }
    assert forall|i: int, j: int, k: int|
        #![trigger less(i, k), less(j, k)]
        0 <= i < rows.len() && 0 <= j < rows.len() && 0 <= k < rows.len() && less(i, k) implies
        less(i, j) || less(j, k) by {
        query_search::row_less_splits(rows[i], rows[j], rows[k], sort);
    }
}

/// Distinct rows have distinct identities in every order.
pub proof fn ordered_identities_are_distinct(rows: Seq<RowView>, sort: Seq<QuerySortView>)
    requires
        rows_distinct(rows),
        rows_named(rows),
    ensures
        ({
            let identities = query_search::row_identities(query_search::ordered_rows(rows, sort));
            distinct(identities) && identities.len() == rows.len() && forall|i: int|
                0 <= i < identities.len() ==> CURSOR_HEADER_BYTES + (#[trigger] identities[i]).len()
                    <= MAX_QUERY_CURSOR_BYTES
        }),
{
    broadcast use bytes::be32_reads_back;

    let less = |i: int, j: int| query_search::row_less(rows[i], rows[j], sort);
    let order = query_search::row_order(rows, sort);
    let sorted = query_search::ordered_rows(rows, sort);
    let identities = query_search::row_identities(sorted);
    search_order_is_total(rows, sort);
    row_order_is_weak(rows, sort);
    assert forall|i: int| 0 <= i < sorted.len() implies #[trigger] sorted[i] == rows[order[i]] && 0
        <= order[i] < rows.len() by {
        assert(0 <= order[i] < rows.len());
    }
    assert forall|i: int, j: int|
        #![trigger identities[i], identities[j]]
        0 <= i < j < identities.len() implies identities[i] != identities[j] by {
        ordering::stable_order_is_distinct(rows.len(), less, i, j);
        let a = sorted[i];
        let b = sorted[j];
        assert(a == rows[order[i]] && b == rows[order[j]]);
        if order[i] < order[j] {
            assert(rows[order[i]].workbench_id != rows[order[j]].workbench_id
                || rows[order[i]].path != rows[order[j]].path);
        } else {
            assert(rows[order[j]].workbench_id != rows[order[i]].workbench_id
                || rows[order[j]].path != rows[order[i]].path);
        }
        if identities[i] == identities[j] {
            query_cursor::row_identities_are_distinct(
                a.workbench_id,
                a.path,
                b.workbench_id,
                b.path,
            );
        }
    }
    assert forall|i: int| 0 <= i < identities.len() implies CURSOR_HEADER_BYTES + (
    #[trigger] identities[i]).len() <= MAX_QUERY_CURSOR_BYTES by {
        assert(sorted[i] == rows[order[i]]);
    }
}

/// A cursor behind some of the ordered rows gives the page that starts there.
pub proof fn cursor_gives_the_next_page(
    rows: Seq<RowView>,
    request: SearchRequestView,
    read_version: u64,
    start: int,
)
    requires
        rows_distinct(rows),
        rows_named(rows),
        query_search::search(rows, request, read_version) is Ok,
        0 < start < query_search::matching_rows(rows, request.predicates).len(),
    ensures
        ({
            let matching = query_search::matching_rows(rows, request.predicates);
            let cursor = query_search::cursor_behind(
                CursorKind::Search,
                read_version,
                request.message(),
                query_search::row_identities(query_search::ordered_rows(matching, request.sort)),
                start,
            );
            query_search::search(
                rows,
                SearchRequestView { cursor, ..request },
                read_version,
            ) == Ok::<SearchPageView, QueryFailure>(
                query_search::search_page(matching, request, read_version, start),
            )
        }),
{
    let matching = query_search::matching_rows(rows, request.predicates);
    matching_rows_are_a_part(rows, request.predicates);
    ordered_identities_are_distinct(matching, request.sort);
    let identities = query_search::row_identities(
        query_search::ordered_rows(matching, request.sort),
    );
    let cursor = query_search::cursor_behind(
        CursorKind::Search,
        read_version,
        request.message(),
        identities,
        start,
    );
    let next = SearchRequestView { cursor, ..request };
    assert(next.message() == request.message());
    assert(next.check() == request.check());
    cursor_leads_behind_its_page(
        CursorKind::Search,
        read_version,
        request.message(),
        identities,
        start,
    );
    assert(query_search::search_page(matching, next, read_version, start)
        == query_search::search_page(matching, request, read_version, start));
}

/// Search pages follow on one another: the cursor of a page gives the page that
/// starts right behind it in the order of the search.
pub proof fn search_pages_follow_on(
    rows: Seq<RowView>,
    request: SearchRequestView,
    read_version: u64,
)
    requires
        rows_distinct(rows),
        rows_named(rows),
        query_search::search(rows, request, read_version) is Ok,
        query_search::search(rows, request, read_version)->Ok_0.next_cursor is Some,
    ensures
        ({
            let matching = query_search::matching_rows(rows, request.predicates);
            let page = query_search::search(rows, request, read_version)->Ok_0;
            let start = query_cursor::start_of(
                request.cursor,
                CursorKind::Search,
                read_version,
                digest::sha256(request.message()),
                query_search::row_identities(query_search::ordered_rows(matching, request.sort)),
            )->Ok_0;
            let next = SearchRequestView { cursor: page.next_cursor, ..request };
            page == query_search::search_page(matching, request, read_version, start)
                && query_search::search(rows, next, read_version) == Ok::<
                SearchPageView,
                QueryFailure,
            >(
                query_search::search_page(
                    matching,
                    next,
                    read_version,
                    start + request.limit,
                ),
            )
        }),
{
    let matching = query_search::matching_rows(rows, request.predicates);
    matching_rows_are_a_part(rows, request.predicates);
    ordered_identities_are_distinct(matching, request.sort);
    let identities = query_search::row_identities(
        query_search::ordered_rows(matching, request.sort),
    );
    pages_start_within(
        request.cursor,
        CursorKind::Search,
        read_version,
        digest::sha256(request.message()),
        identities,
    );
    let page = query_search::search(rows, request, read_version)->Ok_0;
    let start = query_cursor::start_of(
        request.cursor,
        CursorKind::Search,
        read_version,
        digest::sha256(request.message()),
        identities,
    )->Ok_0;
    let next = SearchRequestView { cursor: page.next_cursor, ..request };
    let end = start + request.limit;
    assert(next.message() == request.message());
    assert(next.check() == request.check());
    cursor_leads_behind_its_page(
        CursorKind::Search,
        read_version,
        request.message(),
        identities,
        end,
    );
}

/// No two visible workspaces have the same workbench id.
pub open spec fn workbenches_distinct(visible: Seq<VisibleWorkspaceView>) -> bool {
    forall|i: int, j: int|
        #![trigger visible[i], visible[j]]
        0 <= i < j < visible.len() ==> visible[i].workbench_id != visible[j].workbench_id
}

/// The workbench ids are names.
pub open spec fn workbenches_named(visible: Seq<VisibleWorkspaceView>) -> bool {
    forall|i: int|
        0 <= i < visible.len() ==> (#[trigger] visible[i]).workbench_id.len()
            <= names::WorkbenchId::MAX_BYTES
}

/// Each summary is of one of the workspaces.
proof fn discoveries_are_distinct(
    visible: Seq<VisibleWorkspaceView>,
    heads: Seq<CommitHeadView>,
    filter: CommittedFilter,
)
    requires
        workbenches_distinct(visible),
        workbenches_named(visible),
    ensures
        ({
            let found = query_discovery::discoveries(visible, heads, filter);
            (forall|i: int, j: int|
                #![trigger found[i], found[j]]
                0 <= i < j < found.len() ==> found[i].workbench_id != found[j].workbench_id) && (
            forall|i: int|
                0 <= i < found.len() ==> exists|k: int|
                    0 <= k < visible.len() && (#[trigger] visible[k]).workbench_id == (
                    #[trigger] found[i]).workbench_id)
        }),
    decreases visible.len(),
{
    if visible.len() > 0 {
        let shorter = visible.drop_last();
        let n = visible.len() - 1;
        assert forall|i: int, j: int|
            #![trigger shorter[i], shorter[j]]
            0 <= i < j < shorter.len() implies shorter[i].workbench_id
            != shorter[j].workbench_id by {
            assert(shorter[i] == visible[i] && shorter[j] == visible[j]);
        }
        assert forall|i: int| 0 <= i < shorter.len() implies (
        #[trigger] shorter[i]).workbench_id.len() <= names::WorkbenchId::MAX_BYTES by {
            assert(shorter[i] == visible[i]);
        }
        discoveries_are_distinct(shorter, heads, filter);
        let before = query_discovery::discoveries(shorter, heads, filter);
        let now = query_discovery::discoveries(visible, heads, filter);
        assert forall|i: int| 0 <= i < now.len() implies exists|k: int|
            0 <= k < visible.len() && (#[trigger] visible[k]).workbench_id == (
            #[trigger] now[i]).workbench_id by {
            if i < before.len() {
                assert(now[i] == before[i]);
                let k = choose|k: int|
                    0 <= k < shorter.len() && (#[trigger] shorter[k]).workbench_id
                        == before[i].workbench_id;
                assert(visible[k] == shorter[k]);
            } else {
                assert(visible[n].workbench_id == now[i].workbench_id);
            }
        }
        assert forall|i: int, j: int|
            #![trigger now[i], now[j]]
            0 <= i < j < now.len() implies now[i].workbench_id != now[j].workbench_id by {
            assert(now[i] == before[i]);
            if j < before.len() {
                assert(now[j] == before[j]);
            } else {
                let k = choose|k: int|
                    0 <= k < shorter.len() && (#[trigger] shorter[k]).workbench_id
                        == before[i].workbench_id;
                assert(visible[k] == shorter[k]);
                assert(visible[k].workbench_id != visible[n].workbench_id);
            }
        }
    }
}

/// Discovery pages follow on one another.
pub proof fn workspace_pages_follow_on(
    visible: Seq<VisibleWorkspaceView>,
    heads: Seq<CommitHeadView>,
    request: FindWorkspacesRequestView,
    read_version: u64,
)
    requires
        workbenches_distinct(visible),
        workbenches_named(visible),
        query_discovery::find_workspaces(visible, heads, request, read_version) is Ok,
        query_discovery::find_workspaces(visible, heads, request, read_version)->Ok_0.next_cursor is Some,
    ensures
        ({
            let found = query_discovery::ordered_discoveries(
                query_discovery::discoveries(visible, heads, request.committed),
            );
            let page = query_discovery::find_workspaces(
                visible,
                heads,
                request,
                read_version,
            )->Ok_0;
            let next = FindWorkspacesRequestView { cursor: page.next_cursor, ..request };
            let start = query_cursor::start_of(
                request.cursor,
                CursorKind::Find,
                read_version,
                digest::sha256(request.message()),
                query_discovery::discovery_identities(found),
            )->Ok_0;
            let end = start + request.limit;
            page.workspaces == found.subrange(start, end) && query_discovery::find_workspaces(
                visible,
                heads,
                next,
                read_version,
            ) is Ok && query_discovery::find_workspaces(
                visible,
                heads,
                next,
                read_version,
            )->Ok_0.workspaces == found.subrange(
                end,
                query_search::page_end(end, request.limit as int, found.len() as int),
            )
        }),
{
    let listed = query_discovery::discoveries(visible, heads, request.committed);
    let found = query_discovery::ordered_discoveries(listed);
    let identities = query_discovery::discovery_identities(found);
    let less = |i: int, j: int|
        bytes::lex_less(listed[i].workbench_id, listed[j].workbench_id);
    discoveries_are_distinct(visible, heads, request.committed);
    assert forall|i: int, j: int|
        #![trigger less(i, j)]
        0 <= i < listed.len() && 0 <= j < listed.len() && less(i, j) implies !less(j, i) by {
        let a = listed[i].workbench_id;
        let b = listed[j].workbench_id;
        if bytes::lex_less(b, a) {
            bytes::lex_less_transitive(a, b, a);
            bytes::lex_less_irreflexive(a);
        }
    }
    assert forall|i: int, j: int, k: int|
        #![trigger less(i, k), less(j, k)]
        0 <= i < listed.len() && 0 <= j < listed.len() && 0 <= k < listed.len() && less(
            i,
            k,
        ) implies less(i, j) || less(j, k) by {
        let a = listed[i].workbench_id;
        let b = listed[j].workbench_id;
        let c = listed[k].workbench_id;
        bytes::lex_less_total(a, b);
        if bytes::lex_less(b, a) {
            bytes::lex_less_transitive(b, a, c);
        }
    }
    ordering::stable_order_exists(listed.len(), less);
    let order = ordering::stable_order(listed.len(), less);
    assert forall|i: int| 0 <= i < found.len() implies #[trigger] found[i] == listed[order[i]] && 0
        <= order[i] < listed.len() by {
        assert(0 <= order[i] < listed.len());
    }
    assert forall|i: int, j: int|
        #![trigger identities[i], identities[j]]
        0 <= i < j < identities.len() implies identities[i] != identities[j] by {
        ordering::stable_order_is_distinct(listed.len(), less, i, j);
        assert(found[i] == listed[order[i]] && found[j] == listed[order[j]]);
        if order[i] < order[j] {
            assert(listed[order[i]].workbench_id != listed[order[j]].workbench_id);
        } else {
            assert(listed[order[j]].workbench_id != listed[order[i]].workbench_id);
        }
    }
    pages_start_within(
        request.cursor,
        CursorKind::Find,
        read_version,
        digest::sha256(request.message()),
        identities,
    );
    let start = query_cursor::start_of(
        request.cursor,
        CursorKind::Find,
        read_version,
        digest::sha256(request.message()),
        identities,
    )->Ok_0;
    let end = start + request.limit;
    let page = query_discovery::find_workspaces(visible, heads, request, read_version)->Ok_0;
    let next = FindWorkspacesRequestView { cursor: page.next_cursor, ..request };
    assert(next.message() == request.message());
    assert(found[end - 1] == listed[order[end - 1]]);
    let k = choose|k: int|
        0 <= k < visible.len() && (#[trigger] visible[k]).workbench_id
            == listed[order[end - 1]].workbench_id;
    cursor_leads_behind_its_page(
        CursorKind::Find,
        read_version,
        request.message(),
        identities,
        end,
    );
}

/// Listed fields ascend, as the catalog does.
proof fn listed_fields_ascend(catalog: Seq<Entry<QueryScalarType>>, prefix: Option<Seq<u8>>)
    requires
        sorted_maps::ascending(catalog),
    ensures
        ({
            let fields = query_discovery::listed_fields(catalog, prefix);
            (forall|i: int, j: int|
                #![trigger fields[i], fields[j]]
                0 <= i < j < fields.len() ==> bytes::lex_less(
                    fields[i].field_id,
                    fields[j].field_id,
                )) && (forall|i: int|
                0 <= i < fields.len() ==> exists|k: int|
                    0 <= k < catalog.len() && (#[trigger] catalog[k]).0 == (
                    #[trigger] fields[i]).field_id)
        }),
    decreases catalog.len(),
{
    if catalog.len() > 0 {
        let shorter = catalog.drop_last();
        let n = catalog.len() - 1;
        assert(sorted_maps::ascending(shorter));
        listed_fields_ascend(shorter, prefix);
        let before = query_discovery::listed_fields(shorter, prefix);
        let now = query_discovery::listed_fields(catalog, prefix);
        assert forall|i: int| 0 <= i < now.len() implies exists|k: int|
            0 <= k < catalog.len() && (#[trigger] catalog[k]).0 == (#[trigger] now[i]).field_id by {
            if i < before.len() {
                assert(now[i] == before[i]);
                let k = choose|k: int|
                    0 <= k < shorter.len() && (#[trigger] shorter[k]).0 == before[i].field_id;
                assert(catalog[k] == shorter[k]);
            } else {
                assert(catalog[n].0 == now[i].field_id);
            }
        }
        assert forall|i: int, j: int|
            #![trigger now[i], now[j]]
            0 <= i < j < now.len() implies bytes::lex_less(now[i].field_id, now[j].field_id) by {
            assert(now[i] == before[i]);
            if j < before.len() {
                assert(now[j] == before[j]);
            } else {
                let k = choose|k: int|
                    0 <= k < shorter.len() && (#[trigger] shorter[k]).0 == before[i].field_id;
                assert(catalog[k] == shorter[k]);
                assert(bytes::lex_less(catalog[k].0, catalog[n].0));
            }
        }
    }
}

/// Catalog pages follow on one another, and list the fields in ascending order
/// of their ids.
pub proof fn catalog_pages_follow_on(
    collected: CollectedRowsView,
    request: CatalogRequestView,
    read_version: u64,
)
    requires
        query_catalog::fields_named(collected.rows),
        query_discovery::catalog_fields(collected, request, read_version) is Ok,
        query_discovery::catalog_fields(collected, request, read_version)->Ok_0.next_cursor is Some,
    ensures
        ({
            let fields = query_discovery::catalog_listing(collected, request.field_prefix);
            let page = query_discovery::catalog_fields(collected, request, read_version)->Ok_0;
            let next = CatalogRequestView { cursor: page.next_cursor, ..request };
            let start = query_cursor::start_of(
                request.cursor,
                CursorKind::Catalog,
                read_version,
                digest::sha256(request.message()),
                query_discovery::field_identities(fields),
            )->Ok_0;
            let end = start + request.limit;
            (forall|i: int, j: int|
                #![trigger fields[i], fields[j]]
                0 <= i < j < fields.len() ==> bytes::lex_less(
                    fields[i].field_id,
                    fields[j].field_id,
                )) && page.fields == fields.subrange(start, end) && query_discovery::catalog_fields(
                collected,
                next,
                read_version,
            ) is Ok && query_discovery::catalog_fields(
                collected,
                next,
                read_version,
            )->Ok_0.fields == fields.subrange(
                end,
                query_search::page_end(end, request.limit as int, fields.len() as int),
            )
        }),
{
    let catalog = query_catalog::catalog_of(collected.rows);
    let fields = query_discovery::catalog_listing(collected, request.field_prefix);
    let identities = query_discovery::field_identities(fields);
    query_catalog::catalog_exists(collected.rows);
    listed_fields_ascend(catalog, request.field_prefix);
    assert forall|i: int, j: int|
        #![trigger identities[i], identities[j]]
        0 <= i < j < identities.len() implies identities[i] != identities[j] by {
        assert(bytes::lex_less(fields[i].field_id, fields[j].field_id));
        bytes::lex_less_irreflexive(fields[i].field_id);
    }
    pages_start_within(
        request.cursor,
        CursorKind::Catalog,
        read_version,
        digest::sha256(request.message()),
        identities,
    );
    let start = query_cursor::start_of(
        request.cursor,
        CursorKind::Catalog,
        read_version,
        digest::sha256(request.message()),
        identities,
    )->Ok_0;
    let end = start + request.limit;
    let page = query_discovery::catalog_fields(collected, request, read_version)->Ok_0;
    let next = CatalogRequestView { cursor: page.next_cursor, ..request };
    assert(next.message() == request.message());
    assert(next.check() == request.check());
    let k = choose|k: int|
        0 <= k < catalog.len() && (#[trigger] catalog[k]).0 == fields[end - 1].field_id;
    query_catalog::catalog_fields_are_named(collected.rows, k);
    cursor_leads_behind_its_page(
        CursorKind::Catalog,
        read_version,
        request.message(),
        identities,
        end,
    );
}

/// Pages of finished groups follow on one another, where the identities of the
/// groups are distinct and fit a cursor.
proof fn group_pages_follow_on(
    groups: Seq<AggregateGroupView>,
    request: AggregateRequestView,
    read_version: u64,
)
    requires
        distinct(query_aggregate::group_identities(groups)),
        forall|i: int|
            0 <= i < groups.len() ==> CURSOR_HEADER_BYTES + query_cursor::group_identity(
                (#[trigger] groups[i]).keys,
            ).len() <= MAX_QUERY_CURSOR_BYTES,
        request.limit > 0,
        query_aggregate::paged_groups(groups, request, read_version) is Ok,
        query_aggregate::paged_groups(groups, request, read_version)->Ok_0.next_cursor is Some,
    ensures
        ({
            let sorted = query_aggregate::ordered_groups(groups, request.sort);
            let page = query_aggregate::paged_groups(groups, request, read_version)->Ok_0;
            let next = AggregateRequestView { cursor: page.next_cursor, ..request };
            let start = query_cursor::start_of(
                request.cursor,
                CursorKind::Aggregate,
                read_version,
                digest::sha256(request.message()),
                query_aggregate::group_identities(sorted),
            )->Ok_0;
            let end = start + request.limit;
            page.groups == sorted.subrange(start, end) && query_aggregate::paged_groups(
                groups,
                next,
                read_version,
            ) is Ok && query_aggregate::paged_groups(groups, next, read_version)->Ok_0.groups
                == sorted.subrange(
                end,
                query_search::page_end(end, request.limit as int, sorted.len() as int),
            )
        }),
{
    let less = |i: int, j: int|
        query_aggregate::group_less(groups[i], groups[j], request.sort);
    let sorted = query_aggregate::ordered_groups(groups, request.sort);
    let all = query_aggregate::group_identities(groups);
    let identities = query_aggregate::group_identities(sorted);
    assert forall|i: int, j: int|
        #![trigger less(i, j)]
        0 <= i < groups.len() && 0 <= j < groups.len() && less(i, j) implies !less(j, i) by {
        query_aggregate::group_less_asymmetric(groups[i], groups[j], request.sort);
    }
    assert forall|i: int, j: int, k: int|
        #![trigger less(i, k), less(j, k)]
        0 <= i < groups.len() && 0 <= j < groups.len() && 0 <= k < groups.len() && less(
            i,
            k,
        ) implies less(i, j) || less(j, k) by {
        query_aggregate::group_less_splits(groups[i], groups[j], groups[k], request.sort);
    }
    ordering::stable_order_exists(groups.len(), less);
    let order = ordering::stable_order(groups.len(), less);
    assert forall|i: int| 0 <= i < sorted.len() implies #[trigger] sorted[i] == groups[order[i]]
        && 0 <= order[i] < groups.len() && identities[i] == all[order[i]] by {
        assert(0 <= order[i] < groups.len());
    }
    assert forall|i: int, j: int|
        #![trigger identities[i], identities[j]]
        0 <= i < j < identities.len() implies identities[i] != identities[j] by {
        ordering::stable_order_is_distinct(groups.len(), less, i, j);
        assert(sorted[i] == groups[order[i]] && sorted[j] == groups[order[j]]);
        if order[i] < order[j] {
            assert(all[order[i]] != all[order[j]]);
        } else {
            assert(all[order[j]] != all[order[i]]);
        }
    }
    pages_start_within(
        request.cursor,
        CursorKind::Aggregate,
        read_version,
        digest::sha256(request.message()),
        identities,
    );
    let start = query_cursor::start_of(
        request.cursor,
        CursorKind::Aggregate,
        read_version,
        digest::sha256(request.message()),
        identities,
    )->Ok_0;
    let end = start + request.limit;
    let page = query_aggregate::paged_groups(groups, request, read_version)->Ok_0;
    let next = AggregateRequestView { cursor: page.next_cursor, ..request };
    assert(next.message() == request.message());
    assert(sorted[end - 1] == groups[order[end - 1]]);
    cursor_leads_behind_its_page(
        CursorKind::Aggregate,
        read_version,
        request.message(),
        identities,
        end,
    );
}

/// The identity of a group starts with its first key.
proof fn identity_starts_with_its_first_key(keys: Seq<Entry<QueryScalarView>>)
    requires
        keys.len() > 0,
    ensures
        query_cursor::group_identity(keys) == query_cursor::sized(keys[0].0) + (
        query_cursor::scalar_bytes(keys[0].1) + query_cursor::group_identity(keys.drop_first())),
    decreases keys.len(),
{
    let first = query_cursor::sized(keys[0].0);
    let scalar = query_cursor::scalar_bytes(keys[0].1);
    let rest = keys.drop_first();
    if keys.len() == 1 {
        assert(query_cursor::group_identity(keys.drop_last()) =~= Seq::<u8>::empty());
        assert(query_cursor::group_identity(rest) =~= Seq::<u8>::empty());
        assert(query_cursor::group_identity(keys) =~= first + scalar);
        assert(first + (scalar + query_cursor::group_identity(rest)) =~= first + scalar);
    } else {
        let shorter = keys.drop_last();
        identity_starts_with_its_first_key(shorter);
        assert(shorter[0] == keys[0]);
        assert(shorter.drop_first() =~= rest.drop_last());
        assert(rest.last() == keys.last());
        let middle = query_cursor::group_identity(rest.drop_last());
        let field = query_cursor::sized(keys.last().0);
        let value = query_cursor::scalar_bytes(keys.last().1);
        assert(query_cursor::group_identity(keys) == (first + (scalar + middle)) + field + value);
        assert(query_cursor::group_identity(rest) == middle + field + value);
        assert((first + (scalar + middle)) + field + value =~= first + (scalar + (middle + field
            + value)));
    }
}

/// The keys fit their fields in an identity.
pub open spec fn keys_sized(keys: Seq<Entry<QueryScalarView>>) -> bool {
    forall|i: int|
        0 <= i < keys.len() ==> (#[trigger] keys[i]).0.len() <= u32::MAX
            && query_cursor::scalar_fits(keys[i].1)
}

/// Different keys have different identities.
pub proof fn group_identities_are_distinct(
    a: Seq<Entry<QueryScalarView>>,
    b: Seq<Entry<QueryScalarView>>,
)
    requires
        keys_sized(a),
        keys_sized(b),
        query_cursor::group_identity(a) == query_cursor::group_identity(b),
    ensures
        a == b,
    decreases a.len(),
{
    broadcast use bytes::be32_reads_back;

    if a.len() > 0 {
        identity_starts_with_its_first_key(a);
    }
    if b.len() > 0 {
        identity_starts_with_its_first_key(b);
    }
    if a.len() == 0 || b.len() == 0 {
        assert(a.len() == 0 ==> query_cursor::group_identity(a).len() == 0);
        assert(b.len() == 0 ==> query_cursor::group_identity(b).len() == 0);
        assert(a =~= b);
    } else {
        let c = a.drop_first();
        let d = b.drop_first();
        let s = query_cursor::group_identity(c);
        let r = query_cursor::group_identity(d);
        query_cursor::sized_parts_are_unique(
            a[0].0,
            query_cursor::scalar_bytes(a[0].1) + s,
            b[0].0,
            query_cursor::scalar_bytes(b[0].1) + r,
        );
        query_message_laws::scalars_are_told_apart(a[0].1, s, b[0].1, r);
        assert forall|i: int| 0 <= i < c.len() implies (#[trigger] c[i]).0.len() <= u32::MAX
            && query_cursor::scalar_fits(c[i].1) by {
            assert(c[i] == a[i + 1]);
        }
        assert forall|i: int| 0 <= i < d.len() implies (#[trigger] d[i]).0.len() <= u32::MAX
            && query_cursor::scalar_fits(d[i].1) by {
            assert(d[i] == b[i + 1]);
        }
        group_identities_are_distinct(c, d);
        assert(a =~= seq![a[0]] + c);
        assert(b =~= seq![b[0]] + d);
    }
}

/// The keys of the groups of the rows fit a cursor.
pub open spec fn row_keys_resume(rows: Seq<RowView>, group_by: Seq<Seq<u8>>) -> bool {
    forall|i: int|
        0 <= i < rows.len() ==> keys_resume(
            query_aggregate::pairing(group_by, query_groups::row_key(#[trigger] rows[i], group_by)),
        )
}

/// The keys can stand in a cursor.
pub open spec fn keys_resume(keys: Seq<Entry<QueryScalarView>>) -> bool {
    keys_sized(keys) && CURSOR_HEADER_BYTES + query_cursor::group_identity(keys).len()
        <= MAX_QUERY_CURSOR_BYTES
}

/// The groups that an aggregate finishes.
pub open spec fn finished(
    rows: Seq<RowView>,
    request: AggregateRequestView,
    folds: Seq<Seq<u64>>,
) -> Seq<AggregateGroupView> {
    let groups = query_groups::planned_groups(
        query_search::matching_rows(rows, request.predicates),
        request.group_by,
        request.aggregates,
    );
    Seq::new(groups.len(), |g: int| query_aggregate::group_of(groups[g], request, folds[g]))
}

/// The groups that an aggregate finishes have distinct identities.
proof fn finished_identities_are_distinct(
    rows: Seq<RowView>,
    request: AggregateRequestView,
    folds: Seq<Seq<u64>>,
)
    requires
        request.check() is Ok,
        row_keys_resume(
            query_search::matching_rows(rows, request.predicates),
            request.group_by,
        ),
    ensures
        distinct(query_aggregate::group_identities(finished(rows, request, folds))),
        forall|i: int|
            0 <= i < finished(rows, request, folds).len() ==> keys_resume(
                (#[trigger] finished(rows, request, folds)[i]).keys,
            ),
{
    let matching = query_search::matching_rows(rows, request.predicates);
    let failing = query_groups::first_failure(matching, request.group_by, request.aggregates, 0);
    let groups = query_groups::planned_groups(matching, request.group_by, request.aggregates);
    let done = finished(rows, request, folds);
    let keys = query_groups::planned_keys(matching, request.group_by, failing);
    let identities = query_aggregate::group_identities(done);
    let seen = match failing {
        None => matching,
        Some((n, _, _)) => matching.take(n + 1),
    };
    query_groups::group_keys_exist(seen, request.group_by);
    assert forall|i: int| 0 <= i < done.len() implies keys_resume((#[trigger] done[i]).keys) by {
        query_aggregate::planned_keys_are_row_keys(rows, request, i);
        assert(done[i].keys == query_aggregate::pairing(request.group_by, groups[i].key));
        if request.group_by.len() == 0 {
            let none = Seq::<Entry<QueryScalarView>>::empty();
            assert(query_aggregate::is_pairing(request.group_by, groups[i].key, none));
            query_aggregate::pairing_is_unique(request.group_by, groups[i].key, none);
        }
    }
    assert forall|i: int, j: int|
        #![trigger identities[i], identities[j]]
        0 <= i < j < identities.len() implies identities[i] != identities[j] by {
        query_aggregate::planned_keys_are_row_keys(rows, request, i);
        query_aggregate::planned_keys_are_row_keys(rows, request, j);
        assert(groups[i].key == keys[i] && groups[j].key == keys[j]);
        assert(keys == query_groups::group_keys(seen, request.group_by));
        assert(query_groups::key_less(keys[i], keys[j]));
        query_groups::key_less_asymmetric(keys[i], keys[j]);
        assert(keys_resume(done[i].keys) && keys_resume(done[j].keys));
        if identities[i] == identities[j] {
            group_identities_are_distinct(done[i].keys, done[j].keys);
            query_aggregate::pairings_are_distinct(request.group_by, keys[i], keys[j]);
        }
    }
}

/// Aggregate pages follow on one another, where the keys of the groups fit a
/// cursor: the cursor of a page gives the groups that follow it, under the same
/// results of the floating-point folds.
pub proof fn aggregate_pages_follow_on(
    rows: Seq<RowView>,
    request: AggregateRequestView,
    read_version: u64,
    folds: Seq<Seq<u64>>,
)
    requires
        query_aggregate::aggregate_check(rows, request) is Ok,
        row_keys_resume(
            query_search::matching_rows(rows, request.predicates),
            request.group_by,
        ),
        query_aggregate::aggregate(rows, request, read_version, folds) is Ok,
        query_aggregate::aggregate(rows, request, read_version, folds)->Ok_0.next_cursor is Some,
    ensures
        ({
            let sorted = query_aggregate::ordered_groups(
                finished(rows, request, folds),
                request.sort,
            );
            let page = query_aggregate::aggregate(rows, request, read_version, folds)->Ok_0;
            let next = AggregateRequestView { cursor: page.next_cursor, ..request };
            let start = query_cursor::start_of(
                request.cursor,
                CursorKind::Aggregate,
                read_version,
                digest::sha256(request.message()),
                query_aggregate::group_identities(sorted),
            )->Ok_0;
            let end = start + request.limit;
            page.groups == sorted.subrange(start, end) && query_aggregate::aggregate_check(
                rows,
                next,
            ) is Ok && query_aggregate::aggregate(rows, next, read_version, folds) is Ok
                && query_aggregate::aggregate(rows, next, read_version, folds)->Ok_0.groups
                == sorted.subrange(
                end,
                query_search::page_end(end, request.limit as int, sorted.len() as int),
            )
        }),
{
    let done = finished(rows, request, folds);
    finished_identities_are_distinct(rows, request, folds);
    let page = query_aggregate::aggregate(rows, request, read_version, folds)->Ok_0;
    let next = AggregateRequestView { cursor: page.next_cursor, ..request };
    assert(finished(rows, next, folds) =~= done);
    assert(next.check() == request.check());
    let catalog = query_catalog::catalog_of(rows);
    assert(next.fields_check(catalog) == request.fields_check(catalog));
    group_pages_follow_on(done, request, read_version);
}

} // verus!
