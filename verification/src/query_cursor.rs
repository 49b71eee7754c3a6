//! Opaque page cursors.
//!
//! A cursor names the operation, the read version, the digest of the request,
//! and the identity of the last item that was returned.

use vstd::prelude::*;

use crate::bytes;
use crate::names::{NormalizedRelativePath, WorkbenchId};
use crate::positions::{CommitVersion, ReadVersion};
use crate::query_types;
use crate::query_types::{QueryError, QueryFailure, MAX_QUERY_CURSOR_BYTES};
use crate::scalars::{QueryScalar, QueryScalarView};
use crate::sorted_maps::Entry;
use crate::store_records;

verus! {

/// Version of the cursor format.
pub const CURSOR_FORMAT_VERSION: u8 = 1;

/// Bytes of a cursor before its anchor.
pub const CURSOR_HEADER_BYTES: usize = 46;

/// Bytes of the anchor of a change cursor: one version and one sequence.
pub const CHANGE_ANCHOR_BYTES: usize = 12;

/// The operation that a cursor belongs to.
#[derive(Clone, Copy, Debug, PartialEq, Eq, Structural)]
pub enum CursorKind {
    Search,
    Aggregate,
    Catalog,
    Find,
    Changes,
}

impl CursorKind {
    /// Byte of this operation in a cursor.
    pub open spec fn byte(self) -> u8 {
        match self {
            Self::Search => 1,
            Self::Aggregate => 2,
            Self::Catalog => 3,
            Self::Find => 4,
            Self::Changes => 5,
        }
    }

    /// The operation with this byte.
    pub open spec fn of_byte(value: u8) -> Option<Self> {
        if value == 1 {
            Some(Self::Search)
        } else if value == 2 {
            Some(Self::Aggregate)
        } else if value == 3 {
            Some(Self::Catalog)
        } else if value == 4 {
            Some(Self::Find)
        } else if value == 5 {
            Some(Self::Changes)
        } else {
            None
        }
    }

    /// Byte of this operation in a cursor.
    pub fn to_byte(self) -> (value: u8)
        ensures
            value == self.byte(),
    {
        match self {
            Self::Search => 1,
            Self::Aggregate => 2,
            Self::Catalog => 3,
            Self::Find => 4,
            Self::Changes => 5,
        }
    }

    /// The operation with this byte.
    pub fn from_byte(value: u8) -> (kind: Option<Self>)
        ensures
            kind == Self::of_byte(value),
    {
        match value {
            1 => Some(Self::Search),
            2 => Some(Self::Aggregate),
            3 => Some(Self::Catalog),
            4 => Some(Self::Find),
            5 => Some(Self::Changes),
            _ => None,
        }
    }
}

/// A byte string preceded by its 32-bit length.
pub open spec fn sized(value: Seq<u8>) -> Seq<u8> {
    bytes::be32(value.len() as u32) + value
}

/// Appends a byte string preceded by its 32-bit length.
pub fn push_sized(out: &mut Vec<u8>, value: &[u8])
    requires
        value@.len() <= u32::MAX,
    ensures
        final(out)@ == old(out)@ + sized(value@),
{
    bytes::push_u32(out, value.len() as u32);
    bytes::push_bytes(out, value);
    proof {
        bytes::concat_regroups(old(out)@, bytes::be32(value@.len() as u32), value@);
    }
}

/// Cursor bytes of one scalar: its type, then its value.
pub open spec fn scalar_bytes(value: QueryScalarView) -> Seq<u8> {
    seq![value.scalar_type().rank()] + match value {
        QueryScalarView::Null => Seq::<u8>::empty(),
        QueryScalarView::Boolean(value) => seq![if value { 1u8 } else { 0u8 }],
        QueryScalarView::Signed(value) => bytes::be64(value as u64),
        QueryScalarView::Unsigned(value) => bytes::be64(value),
        QueryScalarView::Float(bits) => bytes::be64(bits),
        QueryScalarView::Timestamp(value) => bytes::be64(value as u64),
        QueryScalarView::String(value) => sized(value),
        QueryScalarView::Bytes(value) => sized(value),
    }
}

/// The length of a text or byte scalar fits a 32-bit prefix.
pub open spec fn scalar_fits(value: QueryScalarView) -> bool {
    match value {
        QueryScalarView::String(value) => value.len() <= u32::MAX,
        QueryScalarView::Bytes(value) => value.len() <= u32::MAX,
        _ => true,
    }
}

/// Whether the length of a text or byte scalar fits a 32-bit prefix.
pub fn fits_cursor(value: &QueryScalar) -> (fits: bool)
    ensures
        fits == scalar_fits(value@),
{
    match value {
        QueryScalar::String(value) => value.as_str().as_bytes().len() as u64 <= 0xffff_ffffu64,
        QueryScalar::Bytes(value) => value.len() as u64 <= 0xffff_ffffu64,
        _ => true,
    }
}

/// Appends the cursor bytes of one scalar.
pub fn encode_cursor_scalar(encoded: &mut Vec<u8>, value: &QueryScalar)
    requires
        scalar_fits(value@),
    ensures
        final(encoded)@ == old(encoded)@ + scalar_bytes(value@),
{
    bytes::push_u8(encoded, value.scalar_type().to_rank());
    let ghost tag = seq![value@.scalar_type().rank()];
    match value {
        QueryScalar::Null => {},
        QueryScalar::Boolean(value) => {
            bytes::push_u8(encoded, if *value { 1 } else { 0 });
        },
        QueryScalar::Signed(value) => {
            bytes::push_u64(encoded, *value as u64);
        },
        QueryScalar::Timestamp(value) => {
            bytes::push_u64(encoded, *value as u64);
        },
        QueryScalar::Unsigned(value) => {
            bytes::push_u64(encoded, *value);
        },
        QueryScalar::Float(value) => {
            bytes::push_u64(encoded, value.to_bits());
        },
        QueryScalar::Bytes(value) => {
            push_sized(encoded, value.as_slice());
        },
        QueryScalar::String(value) => {
            push_sized(encoded, value.as_str().as_bytes());
        },
    }
    assert(encoded@ =~= old(encoded)@ + scalar_bytes(value@));
}

/// Identity of one path of one workbench.
pub open spec fn row_identity(workbench_id: Seq<u8>, path: Seq<u8>) -> Seq<u8> {
    sized(workbench_id) + sized(path)
}

/// Identity of one path of one workbench.
pub fn encode_row_identity(workbench_id: &WorkbenchId, path: &NormalizedRelativePath) -> (encoded:
    Vec<u8>)
    ensures
        encoded@ == row_identity(workbench_id@, path@),
        encoded@.len() <= u32::MAX,
{
    broadcast use bytes::be32_reads_back;

    let mut encoded: Vec<u8> = Vec::new();
    push_sized(&mut encoded, workbench_id.as_bytes());
    push_sized(&mut encoded, path.as_bytes());
    assert(encoded@ =~= row_identity(workbench_id@, path@));
    encoded
}

/// Identity of one aggregate group: its key fields in ascending order.
pub open spec fn group_identity(keys: Seq<Entry<QueryScalarView>>) -> Seq<u8>
    decreases keys.len(),
{
    if keys.len() == 0 {
        Seq::empty()
    } else {
        group_identity(keys.drop_last()) + sized(keys.last().0) + scalar_bytes(keys.last().1)
    }
}

/// Identity of one change event: its version and sequence.
pub open spec fn change_identity(commit_version: u64, sequence: u32) -> Seq<u8> {
    bytes::be64(commit_version) + bytes::be32(sequence)
}

/// Identity of one change event: its version and sequence.
pub fn change_event_identity(commit_version: CommitVersion, sequence: u32) -> (encoded: Vec<u8>)
    ensures
        encoded@ == change_identity(commit_version@, sequence),
        encoded@.len() == CHANGE_ANCHOR_BYTES,
{
    broadcast use bytes::be32_reads_back;
    broadcast use bytes::be64_reads_back;

    let mut encoded: Vec<u8> = Vec::new();
    bytes::push_u64(&mut encoded, commit_version.get());
    bytes::push_u32(&mut encoded, sequence);
    assert(encoded@ =~= change_identity(commit_version@, sequence));
    encoded
}

/// Contents of one cursor.
pub struct CursorView {
    pub kind: CursorKind,
    pub read_version: u64,
    pub request_digest: Seq<u8>,
    pub anchor: Seq<u8>,
}

impl CursorView {
    /// Bytes of this cursor.
    pub open spec fn encoding(self) -> Seq<u8> {
        seq![CURSOR_FORMAT_VERSION, self.kind.byte()] + bytes::be64(self.read_version)
            + self.request_digest + sized(self.anchor)
    }

    /// The cursor with these bytes, or why there is none.
    pub open spec fn parse(b: Seq<u8>) -> Result<Self, QueryFailure> {
        if b.len() > MAX_QUERY_CURSOR_BYTES {
            Err(
                QueryError::CursorTooLarge {
                    length: b.len() as usize,
                    max: MAX_QUERY_CURSOR_BYTES,
                },
            )
        } else if b.len() < CURSOR_HEADER_BYTES || b[0] != CURSOR_FORMAT_VERSION {
            Err(QueryError::InvalidCursor { reason: "unsupported version or truncated header" })
        } else {
            match CursorKind::of_byte(b[1]) {
                None => Err(QueryError::InvalidCursor { reason: "unknown cursor kind" }),
                Some(kind) => if b.len() != CURSOR_HEADER_BYTES + bytes::from_be32(
                    b.subrange(42, 46),
                ) {
                    Err(
                        QueryError::InvalidCursor {
                            reason: "anchor length does not consume the exact cursor",
                        },
                    )
                } else {
                    Ok(
                        CursorView {
                            kind,
                            read_version: bytes::from_be64(b.subrange(2, 10)),
                            request_digest: b.subrange(10, 42),
                            anchor: b.skip(46),
                        },
                    )
                },
            }
        }
    }
}

/// One decoded cursor.
pub struct DecodedCursor {
    pub kind: CursorKind,
    pub read_version: u64,
    pub request_digest: [u8; 32],
    pub anchor: Vec<u8>,
}

impl View for DecodedCursor {
    type V = CursorView;

    open spec fn view(&self) -> CursorView {
        CursorView {
            kind: self.kind,
            read_version: self.read_version,
            request_digest: self.request_digest@,
            anchor: self.anchor@,
        }
    }
}

/// Builds the cursor of a page whose last item has the identity `anchor`.
pub fn encode_cursor(
    kind: CursorKind,
    read_version: ReadVersion,
    request_digest: &[u8; 32],
    anchor: &[u8],
) -> (encoded: Vec<u8>)
    requires
        anchor@.len() <= u32::MAX,
    ensures
        encoded@ == (CursorView {
            kind,
            read_version: read_version@,
            request_digest: request_digest@,
            anchor: anchor@,
        }).encoding(),
{
    let mut encoded: Vec<u8> = Vec::new();
    encoded.push(CURSOR_FORMAT_VERSION);
    encoded.push(kind.to_byte());
    assert(encoded@ =~= seq![CURSOR_FORMAT_VERSION, kind.byte()]);
    bytes::push_u64(&mut encoded, read_version.get());
    bytes::push_bytes(&mut encoded, request_digest.as_slice());
    push_sized(&mut encoded, anchor);
    encoded
}

/// Reads a cursor.
pub fn decode_cursor(encoded: &[u8]) -> (result: Result<DecodedCursor, QueryError>)
    ensures
        query_types::outcome(result) == CursorView::parse(encoded@),
{
    if encoded.len() > MAX_QUERY_CURSOR_BYTES {
        return Err(
            QueryError::CursorTooLarge { length: encoded.len(), max: MAX_QUERY_CURSOR_BYTES },
        );
    }
    if encoded.len() < CURSOR_HEADER_BYTES || encoded[0] != CURSOR_FORMAT_VERSION {
        return Err(
            QueryError::InvalidCursor { reason: "unsupported version or truncated header" },
        );
    }
    let kind = match CursorKind::from_byte(encoded[1]) {
        Some(kind) => kind,
        None => {
            return Err(QueryError::InvalidCursor { reason: "unknown cursor kind" });
        },
    };
    let read_version: u64 = bytes::read_u64(vstd::slice::slice_subrange(encoded, 2, 10));
    let request_digest: [u8; 32] = bytes::array_from::<32>(
        vstd::slice::slice_subrange(encoded, 10, 42),
    );
    let anchor_length: u32 = bytes::read_u32(vstd::slice::slice_subrange(encoded, 42, 46));
    if encoded.len() - CURSOR_HEADER_BYTES != anchor_length as usize {
        return Err(
            QueryError::InvalidCursor {
                reason: "anchor length does not consume the exact cursor",
            },
        );
    }
    let rest = vstd::slice::slice_subrange(encoded, 46, encoded.len());
    assert(rest@ =~= encoded@.skip(46));
    Ok(
        DecodedCursor {
            kind,
            read_version,
            request_digest,
            anchor: vstd::slice::slice_to_vec(rest),
        },
    )
}

/// First index at or after `from` with the given identity, if there is one.
pub open spec fn position_from(identities: Seq<Seq<u8>>, anchor: Seq<u8>, from: int) -> Option<int>
    decreases identities.len() - from,
{
    if from >= identities.len() {
        None
    } else if identities[from] == anchor {
        Some(from)
    } else {
        position_from(identities, anchor, from + 1)
    }
}

/// Finds the first item with the given identity.
fn find_anchor(identities: &Vec<Vec<u8>>, anchor: &[u8]) -> (index: Option<usize>)
    ensures
        match index {
            Some(index) => index < identities@.len() && position_from(
                store_records::views(identities@),
                anchor@,
                0,
            ) == Some(index as int),
            None => position_from(store_records::views(identities@), anchor@, 0) is None,
        },
{
    let mut i: usize = 0;
    let ghost all = store_records::views(identities@);
    while i < identities.len()
        invariant
            i <= identities@.len(),
            all == store_records::views(identities@),
            position_from(all, anchor@, 0) == position_from(all, anchor@, i as int),
        decreases identities@.len() - i,
    {
        assert(all[i as int] == identities@[i as int]@);
        if bytes::bytes_equal(identities[i].as_slice(), anchor) {
            return Some(i);
        }
        i = i + 1;
    }
    None
}

/// Index of the first item that the page after the cursor holds.
pub open spec fn start_of(
    cursor: Option<Seq<u8>>,
    kind: CursorKind,
    read_version: u64,
    request_digest: Seq<u8>,
    identities: Seq<Seq<u8>>,
) -> Result<int, QueryFailure> {
    match cursor {
        None => Ok(0),
        Some(encoded) => match CursorView::parse(encoded) {
            Err(e) => Err(e),
            Ok(cursor) => if cursor.kind != kind {
                Err(
                    QueryError::InvalidCursor { reason: "cursor kind does not match operation" },
                )
            } else if cursor.read_version != read_version {
                Err(
                    QueryError::CursorReadVersionMismatch {
                        cursor: cursor.read_version,
                        request: read_version,
                    },
                )
            } else if cursor.request_digest != request_digest {
                Err(QueryError::CursorQueryMismatch)
            } else {
                match position_from(identities, cursor.anchor, 0) {
                    None => Err(QueryError::CursorAnchorMissing),
                    Some(index) => Ok(index + 1),
                }
            },
        },
    }
}

/// Finds where the page after the cursor starts.
pub fn cursor_start(
    cursor: &Option<Vec<u8>>,
    expected_kind: CursorKind,
    read_version: ReadVersion,
    request_digest: &[u8; 32],
    identities: &Vec<Vec<u8>>,
) -> (result: Result<usize, QueryError>)
    ensures
        match result {
            Ok(start) => start_of(
                bytes::option_view(*cursor),
                expected_kind,
                read_version@,
                request_digest@,
                store_records::views(identities@),
            ) == Ok::<int, QueryFailure>(start as int) && start <= identities@.len(),
            Err(e) => start_of(
                bytes::option_view(*cursor),
                expected_kind,
                read_version@,
                request_digest@,
                store_records::views(identities@),
            ) == Err::<int, QueryFailure>(e.model()),
        },
{
    let encoded = match cursor {
        Some(encoded) => encoded,
        None => {
            return Ok(0);
        },
    };
    let cursor = match decode_cursor(encoded.as_slice()) {
        Ok(cursor) => cursor,
        Err(e) => {
            return Err(e);
        },
    };
    if cursor.kind != expected_kind {
        return Err(QueryError::InvalidCursor { reason: "cursor kind does not match operation" });
    }
    if cursor.read_version != read_version.get() {
        return Err(
            QueryError::CursorReadVersionMismatch {
                cursor: cursor.read_version,
                request: read_version.get(),
            },
        );
    }
    if !bytes::bytes_equal(cursor.request_digest.as_slice(), request_digest.as_slice()) {
        return Err(QueryError::CursorQueryMismatch);
    }
    let count: usize = identities.len();
    match find_anchor(identities, cursor.anchor.as_slice()) {
        Some(index) => {
            assert(index < count);
            Ok(index + 1)
        },
        None => Err(QueryError::CursorAnchorMissing),
    }
}

/// The event position that a change cursor stands at, or why it stands at none.
pub open spec fn change_position(
    encoded: Seq<u8>,
    read_version: u64,
    request_digest: Seq<u8>,
    after_commit_version: Option<u64>,
) -> Result<(u64, u32), QueryFailure> {
    match CursorView::parse(encoded) {
        Err(e) => Err(e),
        Ok(cursor) => {
            let commit_version = bytes::from_be64(cursor.anchor.take(8));
            let sequence = bytes::from_be32(cursor.anchor.skip(8));
            if cursor.kind != CursorKind::Changes {
                Err(QueryError::InvalidCursor { reason: "cursor kind does not match operation" })
            } else if cursor.read_version == 0 {
                Err(QueryError::InvalidCursor { reason: "change cursor read version is zero" })
            } else if cursor.read_version > read_version {
                Err(
                    QueryError::CursorReadVersionMismatch {
                        cursor: cursor.read_version,
                        request: read_version,
                    },
                )
            } else if cursor.request_digest != request_digest {
                Err(QueryError::CursorQueryMismatch)
            } else if cursor.anchor.len() != CHANGE_ANCHOR_BYTES {
                Err(
                    QueryError::InvalidCursor {
                        reason: "change cursor anchor must contain one version and sequence",
                    },
                )
            } else if commit_version == 0 {
                Err(QueryError::InvalidCursor { reason: "change cursor anchor version is zero" })
            } else if commit_version > cursor.read_version {
                Err(
                    QueryError::InvalidCursor {
                        reason: "change cursor anchor is newer than its read version",
                    },
                )
            } else if after_commit_version is Some && commit_version <= after_commit_version->0 {
                Err(
                    QueryError::InvalidCursor {
                        reason: "change cursor anchor does not follow after_commit_version",
                    },
                )
            } else {
                Ok((commit_version, sequence))
            }
        },
    }
}

/// Reads a change cursor.
pub fn decode_change_cursor(
    encoded: &[u8],
    read_version: ReadVersion,
    request_digest: &[u8; 32],
    after_commit_version: Option<CommitVersion>,
) -> (result: Result<(CommitVersion, u32), QueryError>)
    ensures
        match result {
            Ok(position) => change_position(
                encoded@,
                read_version@,
                request_digest@,
                bytes::option_view(after_commit_version),
            ) == Ok::<(u64, u32), QueryFailure>((position.0@, position.1)),
            Err(e) => change_position(
                encoded@,
                read_version@,
                request_digest@,
                bytes::option_view(after_commit_version),
            ) == Err::<(u64, u32), QueryFailure>(e.model()),
        },
{
    let cursor = match decode_cursor(encoded) {
        Ok(cursor) => cursor,
        Err(e) => {
            return Err(e);
        },
    };
    if cursor.kind != CursorKind::Changes {
        return Err(QueryError::InvalidCursor { reason: "cursor kind does not match operation" });
    }
    if cursor.read_version == 0 {
        return Err(QueryError::InvalidCursor { reason: "change cursor read version is zero" });
    }
    if cursor.read_version > read_version.get() {
        return Err(
            QueryError::CursorReadVersionMismatch {
                cursor: cursor.read_version,
                request: read_version.get(),
            },
        );
    }
    if !bytes::bytes_equal(cursor.request_digest.as_slice(), request_digest.as_slice()) {
        return Err(QueryError::CursorQueryMismatch);
    }
    if cursor.anchor.len() != CHANGE_ANCHOR_BYTES {
        return Err(
            QueryError::InvalidCursor {
                reason: "change cursor anchor must contain one version and sequence",
            },
        );
    }
    let anchor = cursor.anchor.as_slice();
    let version_bytes = vstd::slice::slice_subrange(anchor, 0, 8);
    let sequence_bytes = vstd::slice::slice_subrange(anchor, 8, 12);
    assert(version_bytes@ =~= cursor.anchor@.take(8));
    assert(sequence_bytes@ =~= cursor.anchor@.skip(8));
    let version: u64 = bytes::read_u64(version_bytes);
    let sequence: u32 = bytes::read_u32(sequence_bytes);
    let commit_version = match CommitVersion::new(version) {
        Ok(commit_version) => commit_version,
        Err(_) => {
            return Err(
                QueryError::InvalidCursor { reason: "change cursor anchor version is zero" },
            );
        },
    };
    if version > cursor.read_version {
        return Err(
            QueryError::InvalidCursor {
                reason: "change cursor anchor is newer than its read version",
            },
        );
    }
    if let Some(after) = after_commit_version {
        if version <= after.get() {
            return Err(
                QueryError::InvalidCursor {
                    reason: "change cursor anchor does not follow after_commit_version",
                },
            );
        }
    }
    Ok((commit_version, sequence))
}

/// Reading a cursor gives back what it was built from.
pub proof fn cursor_reads_back(cursor: CursorView)
    requires
        cursor.request_digest.len() == 32,
        CURSOR_HEADER_BYTES + cursor.anchor.len() <= MAX_QUERY_CURSOR_BYTES,
    ensures
        CursorView::parse(cursor.encoding()) == Ok::<CursorView, QueryFailure>(cursor),
{
    broadcast use bytes::group_big_endian;

    let b = cursor.encoding();
    let version = bytes::be64(cursor.read_version);
    let length = bytes::be32(cursor.anchor.len() as u32);
    assert(b.subrange(2, 10) =~= version);
    assert(b.subrange(10, 42) =~= cursor.request_digest);
    assert(b.subrange(42, 46) =~= length);
    assert(b.skip(46) =~= cursor.anchor);
}

/// A cursor has exactly one form: the bytes that are read as it are the bytes
/// that it is built as.
pub proof fn cursor_is_canonical(b: Seq<u8>)
    requires
        CursorView::parse(b) is Ok,
    ensures
        CursorView::parse(b)->Ok_0.encoding() == b,
{
    broadcast use bytes::group_big_endian;

    let cursor = CursorView::parse(b)->Ok_0;
    assert(b.subrange(2, 10).len() == 8);
    assert(b.subrange(42, 46).len() == 4);
    assert(bytes::be32(cursor.anchor.len() as u32) =~= b.subrange(42, 46));
    assert(cursor.encoding() =~= b);
}

/// The first of distinct identities is found at its own index.
proof fn position_of_distinct(identities: Seq<Seq<u8>>, from: int, index: int)
    requires
        0 <= from <= index < identities.len(),
        forall|i: int, j: int|
            #![trigger identities[i], identities[j]]
            0 <= i < j < identities.len() ==> identities[i] != identities[j],
    ensures
        position_from(identities, identities[index], from) == Some(index),
    decreases index - from,
{
    if from < index {
        assert(identities[from] != identities[index]);
        position_of_distinct(identities, from + 1, index);
    }
}

/// The page after a cursor starts right behind the item that the cursor was
/// built from.
pub proof fn cursor_resumes_behind_its_anchor(
    kind: CursorKind,
    read_version: u64,
    request_digest: Seq<u8>,
    identities: Seq<Seq<u8>>,
    index: int,
)
    requires
        request_digest.len() == 32,
        0 <= index < identities.len(),
        CURSOR_HEADER_BYTES + identities[index].len() <= MAX_QUERY_CURSOR_BYTES,
        forall|i: int, j: int|
            #![trigger identities[i], identities[j]]
            0 <= i < j < identities.len() ==> identities[i] != identities[j],
    ensures
        start_of(
            Some(
                (CursorView {
                    kind,
                    read_version,
                    request_digest,
                    anchor: identities[index],
                }).encoding(),
            ),
            kind,
            read_version,
            request_digest,
            identities,
        ) == Ok::<int, QueryFailure>(index + 1),
{
    cursor_reads_back(CursorView { kind, read_version, request_digest, anchor: identities[index] });
    position_of_distinct(identities, 0, index);
}

/// A change cursor stands at the event that it was built from, also against a
/// later read version.
pub proof fn change_cursor_resumes_at_its_event(
    commit_version: u64,
    sequence: u32,
    built_at: u64,
    read_at: u64,
    request_digest: Seq<u8>,
    after_commit_version: Option<u64>,
)
    requires
        request_digest.len() == 32,
        0 < commit_version <= built_at <= read_at,
        after_commit_version is Some ==> after_commit_version->0 < commit_version,
    ensures
        change_position(
            (CursorView {
                kind: CursorKind::Changes,
                read_version: built_at,
                request_digest,
                anchor: change_identity(commit_version, sequence),
            }).encoding(),
            read_at,
            request_digest,
            after_commit_version,
        ) == Ok::<(u64, u32), QueryFailure>((commit_version, sequence)),
{
    broadcast use bytes::group_big_endian;

    let anchor = change_identity(commit_version, sequence);
    cursor_reads_back(
        CursorView { kind: CursorKind::Changes, read_version: built_at, request_digest, anchor },
    );
    assert(anchor.take(8) =~= bytes::be64(commit_version));
    assert(anchor.skip(8) =~= bytes::be32(sequence));
}

/// Two sized byte strings followed by more agree only where they do.
pub proof fn sized_parts_are_unique(a: Seq<u8>, t: Seq<u8>, b: Seq<u8>, u: Seq<u8>)
    requires
        a.len() <= u32::MAX,
        b.len() <= u32::MAX,
        sized(a) + t == sized(b) + u,
    ensures
        a == b,
        t == u,
{
    let p = bytes::be32(a.len() as u32);
    let q = bytes::be32(b.len() as u32);
    bytes::be32_reads_back(a.len() as u32);
    bytes::be32_reads_back(b.len() as u32);
    bytes::concat_regroups(p, a, t);
    bytes::concat_regroups(q, b, u);
    crate::digest::concat_parts_are_unique(p, a + t, q, b + u);
    crate::digest::concat_parts_are_unique(a, t, b, u);
}

/// Different paths or workbenches have different identities.
pub proof fn row_identities_are_distinct(w: Seq<u8>, p: Seq<u8>, v: Seq<u8>, q: Seq<u8>)
    requires
        w.len() <= u32::MAX,
        p.len() <= u32::MAX,
        v.len() <= u32::MAX,
        q.len() <= u32::MAX,
        row_identity(w, p) == row_identity(v, q),
    ensures
        w == v,
        p == q,
{
    sized_parts_are_unique(w, sized(p), v, sized(q));
    let none = Seq::<u8>::empty();
    assert(sized(p) + none =~= sized(p));
    assert(sized(q) + none =~= sized(q));
    sized_parts_are_unique(p, none, q, none);
}

} // verus!
