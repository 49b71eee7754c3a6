//! Where cursors lead: behind the one item, or to the one event, that they
//! were made at, in the request that they were made for.

use vstd::prelude::*;

use crate::bytes;
use crate::digest;
use crate::query_changes::{ChangeRunView, ChangeStageView};
use crate::query_cursor;
use crate::query_cursor::{CursorKind, CursorView};
use crate::query_types::{ChangePageRequestView, QueryFailure};

verus! {

/// A cursor can be handed out: its digest has 32 bytes, and it has at most
/// 8192 bytes.
pub open spec fn is_usable(cursor: CursorView) -> bool {
    cursor.request_digest.len() == 32 && cursor.anchor.len() <= 8146
}

/// Bytes are a cursor exactly when they are those of one that can be handed
/// out, and then they are that cursor.
pub proof fn cursors_are_read_as_they_were_written(b: Seq<u8>)
    ensures
        CursorView::parse(b) is Ok <==> exists|cursor: CursorView|
            is_usable(cursor) && #[trigger] cursor.encoding() == b,
        CursorView::parse(b) matches Ok(cursor) ==> is_usable(cursor) && cursor.encoding() == b,
{
    if CursorView::parse(b) is Ok {
        query_cursor::cursor_is_canonical(b);
        let cursor = CursorView::parse(b)->Ok_0;
        assert(is_usable(cursor) && cursor.encoding() == b);
    }
    if exists|cursor: CursorView| is_usable(cursor) && #[trigger] cursor.encoding() == b {
        let cursor = choose|cursor: CursorView|
            is_usable(cursor) && #[trigger] cursor.encoding() == b;
        query_cursor::cursor_reads_back(cursor);
    }
}

proof fn positions_are_first(identities: Seq<Seq<u8>>, anchor: Seq<u8>, from: int)
    requires
        0 <= from <= identities.len(),
    ensures
        match query_cursor::position_from(identities, anchor, from) {
            Some(n) => from <= n < identities.len() && identities[n] == anchor && forall|j: int|
                from <= j < n ==> #[trigger] identities[j] != anchor,
            None => forall|j: int|
                from <= j < identities.len() ==> #[trigger] identities[j] != anchor,
        },
    decreases identities.len() - from,
{
    if from < identities.len() && identities[from] != anchor {
        positions_are_first(identities, anchor, from + 1);
    }
}

/// A page without a cursor starts at the first item. One with a cursor starts
/// behind the first item with the identity of the cursor, and it starts there
/// exactly when the operation, the read version and the request are those of
/// the cursor and such an item is there.
pub proof fn cursors_lead_behind_their_item(
    cursor: CursorView,
    kind: CursorKind,
    read_version: u64,
    request_digest: Seq<u8>,
    identities: Seq<Seq<u8>>,
)
    requires
        is_usable(cursor),
    ensures
        query_cursor::start_of(None, kind, read_version, request_digest, identities) == Ok::<
            int,
            QueryFailure,
        >(0),
        ({
            let start = query_cursor::start_of(
                Some(cursor.encoding()),
                kind,
                read_version,
                request_digest,
                identities,
            );
            &&& start is Ok <==> {
                &&& cursor.kind == kind
                &&& cursor.read_version == read_version
                &&& cursor.request_digest == request_digest
                &&& identities.contains(cursor.anchor)
            }
            &&& start matches Ok(n) ==> {
                &&& 0 < n <= identities.len()
                &&& identities[n - 1] == cursor.anchor
                &&& forall|j: int| 0 <= j < n - 1 ==> #[trigger] identities[j] != cursor.anchor
            }
        }),
{
    query_cursor::cursor_reads_back(cursor);
    positions_are_first(identities, cursor.anchor, 0);
}

/// A change cursor leads to an event exactly when it is one of changes, it was
/// made at a version that is not behind the read, for the same request, and at
/// an event of a version up to its own and behind the one that the request
/// starts after; then it leads to that event.
pub proof fn change_cursors_lead_to_their_event(
    cursor: CursorView,
    read_version: u64,
    request_digest: Seq<u8>,
    after_commit_version: Option<u64>,
    commit_version: u64,
    sequence: u32,
)
    requires
        is_usable(cursor),
    ensures
        query_cursor::change_position(
            cursor.encoding(),
            read_version,
            request_digest,
            after_commit_version,
        ) == Ok::<(u64, u32), QueryFailure>((commit_version, sequence)) <==> {
            &&& cursor.kind == CursorKind::Changes
            &&& 0 < cursor.read_version <= read_version
            &&& cursor.request_digest == request_digest
            &&& cursor.anchor == bytes::be64(commit_version) + bytes::be32(sequence)
            &&& 0 < commit_version <= cursor.read_version
            &&& after_commit_version matches Some(after) ==> after < commit_version
        },
{
    broadcast use bytes::group_big_endian;

    query_cursor::cursor_reads_back(cursor);
    let anchor = cursor.anchor;
    if anchor == bytes::be64(commit_version) + bytes::be32(sequence) {
        assert(anchor.take(8) =~= bytes::be64(commit_version));
        assert(anchor.skip(8) =~= bytes::be32(sequence));
    }
    if anchor.len() == 12 && bytes::from_be64(anchor.take(8)) == commit_version
        && bytes::from_be32(anchor.skip(8)) == sequence {
        assert(anchor.take(8).len() == 8);
        assert(anchor.skip(8).len() == 4);
        assert(anchor =~= anchor.take(8) + anchor.skip(8));
    }
}

/// A read of changes is refused at once exactly when it asks for no event or
/// for more than 256, starts after a version behind its own, or has a cursor
/// that leads to no event. Otherwise it starts at the event of its cursor,
/// behind the version that it starts after, or at the first event.
pub proof fn change_reads_start_behind_their_marker(
    root_id: Seq<u8>,
    request: ChangePageRequestView,
    read_version: u64,
)
    ensures
        ({
            let run = ChangeRunView::started(root_id, request, read_version);
            let position = query_cursor::change_position(
                request.cursor->0,
                read_version,
                digest::sha256(request.message(root_id)),
                request.after_commit_version,
            );
            &&& run.stage is Finished <==> {
                ||| !(1 <= request.limit <= 256)
                ||| (request.after_commit_version matches Some(after) && read_version < after)
                ||| (request.cursor is Some && position is Err)
            }
            &&& run.stage matches ChangeStageView::Finished(result) ==> result is Err
            &&& !(run.stage is Finished) ==> {
                &&& request.cursor is Some ==> run.marker == Some(position->Ok_0)
                    && run.stage == ChangeStageView::ReadingAnchor(
                    (position->Ok_0).0,
                    (position->Ok_0).1,
                )
                &&& request.cursor is None ==> run.stage == ChangeStageView::Scanning
                &&& request.cursor is None && request.after_commit_version is Some
                    ==> run.marker == Some((request.after_commit_version->0, 0xffff_ffffu32))
                &&& request.cursor is None && request.after_commit_version is None
                    ==> run.marker is None
                &&& run.scope == request.scope && run.limit == request.limit && run.read_version
                    == read_version && run.events.len() == 0
            }
        }),
{
}

} // verus!
