//! What holds of every page over a well-behaved store: pages are ordered,
//! exclusive, complete, and bounded in cost.

use vstd::prelude::*;

use crate::bytes;
use crate::fdb_keys;
use crate::fdb_scan;
use crate::fdb_scan::{
    LogicalScanStartView, NativeRowView, RangeStartView, ScanAdvanceView, ScanRunView,
    FDB_SCAN_BATCH_ROWS,
};
use crate::provider::{ProviderFailure, ProviderScanItemView, ProviderScanView};
use crate::read_stats;

verus! {

/// Where a logical key appears in a page: the common prefix that it is rolled
/// up to, or the key.
pub open spec fn boundary(request: ProviderScanView, logical_key: Seq<u8>) -> Seq<u8> {
    match fdb_scan::rollup(request, logical_key) {
        Some(common) => common,
        None => logical_key,
    }
}

/// The first index is where the byte is found first, or the length.
pub proof fn first_index_is_first(b: Seq<u8>, byte: u8, i: int)
    requires
        0 <= i <= b.len(),
    ensures
        i <= fdb_scan::first_index(b, byte, i) <= b.len(),
        fdb_scan::first_index(b, byte, i) < b.len() ==> b[fdb_scan::first_index(b, byte, i)]
            == byte,
        forall|j: int| i <= j < fdb_scan::first_index(b, byte, i) ==> b[j] != byte,
    decreases b.len() - i,
{
    if i < b.len() && b[i] != byte {
        first_index_is_first(b, byte, i + 1);
    }
}

/// A byte that a prefix holds is found at the same place in what it prefixes.
proof fn first_index_in_prefix(x: Seq<u8>, c: Seq<u8>, byte: u8, i: int)
    requires
        0 <= i < c.len(),
        bytes::has_prefix(x, c),
        fdb_scan::first_index(c, byte, i) < c.len(),
    ensures
        fdb_scan::first_index(x, byte, i) == fdb_scan::first_index(c, byte, i),
    decreases c.len() - i,
{
    assert(x.take(c.len() as int)[i] == c[i]);
    if c[i] != byte {
        first_index_is_first(c, byte, i + 1);
        if i + 1 < c.len() {
            first_index_in_prefix(x, c, byte, i + 1);
        }
    }
}

/// A common prefix is longer than the requested prefix, is a prefix of what it
/// is rolled up from, and is its own common prefix.
proof fn rollup_shape(request: ProviderScanView, l: Seq<u8>)
    ensures
        fdb_scan::rollup(request, l) matches Some(c) ==> {
            &&& bytes::has_prefix(l, c)
            &&& bytes::has_prefix(c, request.prefix)
            &&& bytes::has_prefix(l, request.prefix)
            &&& request.prefix.len() < c.len()
            &&& fdb_scan::rollup(request, c) == Some(c)
        },
{
    if fdb_scan::rollup(request, l) is Some {
        let c = fdb_scan::rollup(request, l)->Some_0;
        let d = request.delimiter->Some_0;
        let n = request.prefix.len() as int;
        let index = fdb_scan::first_index(l, d, n);
        first_index_is_first(l, d, n);
        assert(l.take(c.len() as int) =~= c);
        assert(c.take(n) =~= l.take(n));
        first_index_is_first(c, d, n);
        let found = fdb_scan::first_index(c, d, n);
        assert(c[index] == l[index]);
        if found < index {
            assert(c[found] == l[found]);
        }
        assert(found == index);
        assert(c.take(index + 1) =~= c);
    }
}

/// What starts with a common prefix is rolled up to it.
proof fn same_rollup(request: ProviderScanView, l: Seq<u8>, x: Seq<u8>)
    requires
        fdb_scan::rollup(request, l) is Some,
        bytes::has_prefix(x, fdb_scan::rollup(request, l)->Some_0),
    ensures
        fdb_scan::rollup(request, x) == fdb_scan::rollup(request, l),
{
    rollup_shape(request, l);
    let c = fdb_scan::rollup(request, l)->Some_0;
    let d = request.delimiter->Some_0;
    let n = request.prefix.len() as int;
    first_index_is_first(c, d, n);
    first_index_in_prefix(x, c, d, n);
    let index = fdb_scan::first_index(c, d, n);
    assert(x.take(n) =~= x.take(c.len() as int).take(n));
    assert(x.take(index + 1) =~= x.take(c.len() as int).take(index + 1));
    assert(c.take(n) == request.prefix);
}

/// What starts with a prefix does not come before it.
proof fn prefix_comes_first(k: Seq<u8>, p: Seq<u8>)
    requires
        bytes::has_prefix(k, p),
    ensures
        !bytes::lex_less(k, p),
{
    fdb_keys::prefix_range_is_exact(p, k);
}

/// What lies between a prefix and something that starts with it starts with it
/// too.
proof fn between_starts_with_prefix(p: Seq<u8>, x: Seq<u8>, y: Seq<u8>)
    requires
        bytes::has_prefix(y, p),
        bytes::lex_less(x, y),
        !bytes::lex_less(x, p),
    ensures
        bytes::has_prefix(x, p),
{
    fdb_keys::prefix_range_is_exact(p, x);
    fdb_keys::prefix_range_is_exact(p, y);
    match fdb_keys::successor(p) {
        Some(end) => bytes::lex_less_transitive(x, y, end),
        None => {},
    }
}

/// What is not before `a`, which comes before `b`, leaves `b` behind it as
/// well: order with "not before".
proof fn not_before_then_before(a: Seq<u8>, b: Seq<u8>, c: Seq<u8>)
    requires
        !bytes::lex_less(b, a),
        bytes::lex_less(b, c),
    ensures
        bytes::lex_less(a, c),
{
    bytes::lex_less_total(a, b);
    if a != b {
        bytes::lex_less_transitive(a, b, c);
    }
}

/// Boundaries keep the order of keys: of two ordered keys, either both are
/// rolled up to one common prefix, or the boundary of the first comes first.
proof fn boundaries_keep_order(request: ProviderScanView, l: Seq<u8>, m: Seq<u8>)
    requires
        bytes::has_prefix(l, request.prefix),
        bytes::has_prefix(m, request.prefix),
        bytes::lex_less(l, m),
    ensures
        bytes::lex_less(boundary(request, l), boundary(request, m)) || (boundary(request, l)
            == boundary(request, m) && fdb_scan::rollup(request, l) is Some && fdb_scan::rollup(
            request,
            m,
        ) is Some),
{
    rollup_shape(request, l);
    rollup_shape(request, m);
    let b = boundary(request, l);
    assert(!bytes::lex_less(l, b)) by {
        match fdb_scan::rollup(request, l) {
            Some(c) => prefix_comes_first(l, c),
            None => bytes::lex_less_irreflexive(l),
        }
    }
    match fdb_scan::rollup(request, m) {
        Some(c) => {
            if !bytes::lex_less(l, c) {
                between_starts_with_prefix(c, l, m);
                same_rollup(request, m, l);
            } else {
                not_before_then_before(b, l, c);
            }
        },
        None => {
            not_before_then_before(b, l, m);
        },
    }
}

/// A boundary starts with the requested prefix when the key does.
proof fn boundary_has_prefix(request: ProviderScanView, l: Seq<u8>)
    requires
        bytes::has_prefix(l, request.prefix),
    ensures
        bytes::has_prefix(boundary(request, l), request.prefix),
{
    rollup_shape(request, l);
}

/// Under a shared front, keys start with each other as their rests do.
proof fn prefix_under_front(front: Seq<u8>, l: Seq<u8>, c: Seq<u8>)
    ensures
        bytes::has_prefix(front + l, front + c) <==> bytes::has_prefix(l, c),
{
    let n = front.len() as int;
    if c.len() <= l.len() {
        assert((front + l).take((front + c).len() as int) =~= front + l.take(c.len() as int));
        bytes::concat_splits(front, l.take(c.len() as int));
        bytes::concat_splits(front, c);
    }
}

/// A physical key of the scanned range, and its logical key.
pub open spec fn in_range(run: ScanRunView, key: Seq<u8>) -> bool {
    run.begin.admits(key) && bytes::lex_less(key, run.end)
}

/// The logical key of a physical key of the scanned space.
pub open spec fn logical(run: ScanRunView, key: Seq<u8>) -> Seq<u8> {
    key.skip(run.front().len() as int)
}

/// Boundaries of the items of a page ascend strictly.
pub open spec fn items_ascend(items: Seq<ProviderScanItemView>) -> bool {
    forall|i: int, j: int|
        0 <= i < j < items.len() ==> bytes::lex_less(
            (#[trigger] items[i]).boundary(),
            (#[trigger] items[j]).boundary(),
        )
}

/// A boundary is behind the cursor and starts with the requested prefix.
pub open spec fn belongs(request: ProviderScanView, boundary: Seq<u8>) -> bool {
    bytes::has_prefix(boundary, request.prefix) && !fdb_scan::excluded(request, boundary)
}

/// The page so far is ordered, and each of its items belongs to it.
pub open spec fn page_is_ordered(run: ScanRunView) -> bool {
    &&& items_ascend(run.items)
    &&& forall|i: int|
        0 <= i < run.items.len() ==> belongs(run.request, (#[trigger] run.items[i]).boundary())
}

/// The common prefix that was added last is not behind the last item.
pub open spec fn last_prefix_is_behind(run: ScanRunView) -> bool {
    run.last_common_prefix matches Some(c) ==> run.items.len() > 0 && !bytes::lex_less(
        run.items.last().boundary(),
        c,
    )
}

/// Every key that is still to come belongs to the page, and appears in it
/// behind all items so far.
pub open spec fn rest_comes_behind(run: ScanRunView) -> bool {
    forall|key: Seq<u8>| #[trigger]
        in_range(run, key) ==> {
            &&& bytes::has_prefix(key, run.front() + run.request.prefix)
            &&& belongs(run.request, boundary(run.request, logical(run, key)))
            &&& run.items.len() > 0 ==> bytes::lex_less(
                run.items.last().boundary(),
                boundary(run.request, logical(run, key)),
            )
        }
}

/// What holds of a scan between two native requests.
pub open spec fn in_order(run: ScanRunView) -> bool {
    &&& page_is_ordered(run)
    &&& last_prefix_is_behind(run)
    &&& rest_comes_behind(run)
}

/// Native rows are ordered rows of the requested range.
pub open spec fn rows_are_ordered(run: ScanRunView, rows: Seq<NativeRowView>) -> bool {
    &&& forall|i: int| 0 <= i < rows.len() ==> in_range(run, (#[trigger] rows[i]).key)
    &&& forall|i: int, j: int|
        0 <= i < j < rows.len() ==> bytes::lex_less(
            (#[trigger] rows[i]).key,
            (#[trigger] rows[j]).key,
        )
}

/// What starts with a front and a prefix has a logical key that starts with
/// the prefix.
proof fn split_key(front: Seq<u8>, prefix: Seq<u8>, key: Seq<u8>)
    requires
        bytes::has_prefix(key, front + prefix),
    ensures
        bytes::has_prefix(key, front),
        key == front + key.skip(front.len() as int),
        bytes::has_prefix(key.skip(front.len() as int), prefix),
{
    let l = key.skip(front.len() as int);
    assert(key.take(front.len() as int) =~= key.take((front + prefix).len() as int).take(
        front.len() as int,
    ));
    bytes::concat_splits(front, prefix);
    assert(key =~= front + l) by {
        assert(key =~= key.take(front.len() as int) + l);
    }
    prefix_under_front(front, l, prefix);
}

/// Behind a lower end that follows a projected row, every key appears behind
/// the boundary of that row.
proof fn behind_advance(
    namespace: Seq<u8>,
    request: ProviderScanView,
    w: Seq<u8>,
    key: Seq<u8>,
    begin: RangeStartView,
)
    requires
        bytes::has_prefix(w, request.prefix),
        ({
            let advance = match fdb_scan::rollup(request, w) {
                Some(c) => ScanAdvanceView::AfterCommonPrefix(c),
                None => ScanAdvanceView::AfterKey(w),
            };
            fdb_scan::begin_after(namespace, request.space, advance) == Ok::<
                RangeStartView,
                ProviderFailure,
            >(begin)
        }),
        begin.admits(key),
        fdb_keys::successor(
            namespace + bytes::be16(request.space) + request.prefix,
        ) matches Some(end) && bytes::lex_less(key, end),
    ensures
        ({
            let front = namespace + bytes::be16(request.space);
            let l = key.skip(front.len() as int);
            &&& bytes::has_prefix(key, front + request.prefix)
            &&& bytes::has_prefix(l, request.prefix)
            &&& key == front + l
            &&& bytes::lex_less(w, l)
            &&& bytes::lex_less(boundary(request, w), boundary(request, l))
            &&& fdb_scan::rollup(request, w) matches Some(c) ==> !bytes::has_prefix(l, c)
        }),
{
    let front = namespace + bytes::be16(request.space);
    let p = front + request.prefix;
    let end = fdb_keys::successor(p)->Some_0;
    let pw = front + w;
    rollup_shape(request, w);
    prefix_under_front(front, w, request.prefix);
    prefix_comes_first(pw, p);
    match fdb_scan::rollup(request, w) {
        Some(c) => {
            let pc = front + c;
            let succ = fdb_keys::successor(pc)->Some_0;
            assert(fdb_keys::physical(namespace, request.space, c) == pc);
            prefix_under_front(front, w, c);
            fdb_keys::prefix_range_is_exact(pc, pw);
            // The lower end lies behind all that starts with the common prefix.
            assert(bytes::lex_less(pw, succ));
            assert(bytes::lex_less(pw, key)) by {
                bytes::lex_less_total(succ, key);
                if succ != key {
                    bytes::lex_less_transitive(pw, succ, key);
                }
            }
            fdb_keys::prefix_range_is_exact(pc, key);
            assert(!bytes::has_prefix(key, pc));
        },
        None => {
            assert(fdb_keys::physical(namespace, request.space, w) == pw);
        },
    }
    assert(bytes::lex_less(pw, key));
    assert(!bytes::lex_less(key, p)) by {
        if bytes::lex_less(key, p) {
            not_before_then_before(p, pw, key);
            bytes::lex_less_transitive(key, p, key);
            bytes::lex_less_irreflexive(key);
        }
    }
    fdb_keys::prefix_range_is_exact(p, key);
    split_key(front, request.prefix, key);
    let l = key.skip(front.len() as int);
    fdb_keys::shared_front_keeps_order(front, w, l);
    boundaries_keep_order(request, w, l);
    match fdb_scan::rollup(request, w) {
        Some(c) => {
            prefix_under_front(front, l, c);
            if boundary(request, l) == c {
                rollup_shape(request, l);
                if fdb_scan::rollup(request, l) is None {
                    assert(l.take(c.len() as int) =~= c);
                }
            }
        },
        None => {},
    }
}

/// A scan starts in order: every key of its range belongs to its page.
pub proof fn scan_starts_in_order(
    namespace: Seq<u8>,
    request: ProviderScanView,
    max_key_bytes: usize,
)
    ensures
        ScanRunView::started(namespace, request, max_key_bytes) matches Ok(Some(run)) ==> in_order(
            run,
        ) && !run.finished && run.items.len() == 0,
{
    if let Ok(Some(run)) = ScanRunView::started(namespace, request, max_key_bytes) {
        let front = run.front();
        let p = front + request.prefix;
        assert(fdb_keys::physical(namespace, request.space, request.prefix) == p);
        assert forall|key: Seq<u8>| #[trigger] in_range(run, key) implies bytes::has_prefix(
            key,
            p,
        ) && belongs(request, boundary(request, logical(run, key))) by {
            let l = logical(run, key);
            match fdb_scan::scan_start(request) {
                LogicalScanStartView::Prefix => {
                    fdb_keys::prefix_range_is_exact(p, key);
                    split_key(front, request.prefix, key);
                    boundary_has_prefix(request, l);
                    match request.start_after {
                        None => {},
                        Some(cursor) => {
                            let b = boundary(request, l);
                            prefix_comes_first(b, request.prefix);
                            bytes::lex_less_total(request.prefix, b);
                            if request.prefix != b {
                                bytes::lex_less_transitive(cursor, request.prefix, b);
                            }
                        },
                    }
                },
                LogicalScanStartView::AfterKey(cursor) => {
                    behind_advance(namespace, request, cursor, key, run.begin);
                    boundary_has_prefix(request, l);
                },
                LogicalScanStartView::AfterCommonPrefix(c) => {
                    let cursor = request.start_after->Some_0;
                    behind_advance(namespace, request, cursor, key, run.begin);
                    boundary_has_prefix(request, l);
                    let b = boundary(request, l);
                    if !bytes::lex_less(cursor, b) {
                        // Then the boundary starts with the common prefix of
                        // the cursor, and so does the key.
                        rollup_shape(request, cursor);
                        assert(!bytes::lex_less(b, c)) by {
                            if bytes::lex_less(b, c) {
                                bytes::lex_less_transitive(b, c, b);
                                bytes::lex_less_irreflexive(b);
                            }
                        }
                        bytes::lex_less_total(cursor, b);
                        if b == cursor {
                            assert(bytes::has_prefix(b, c));
                        } else {
                            between_starts_with_prefix(c, b, cursor);
                        }
                        same_rollup(request, cursor, b);
                        rollup_shape(request, l);
                        match fdb_scan::rollup(request, l) {
                            Some(common) => {
                                assert(common == c);
                            },
                            None => {},
                        }
                        assert(bytes::has_prefix(l, c));
                    }
                },
                LogicalScanStartView::Empty => {},
            }
        }
    }
}

/// The last row that was taken is in the page: the last item stands for it.
spec fn stands_for(run: ScanRunView, w: Seq<u8>) -> bool {
    &&& bytes::has_prefix(w, run.request.prefix)
    &&& run.items.len() > 0
    &&& run.items.last().boundary() == boundary(run.request, w)
    &&& fdb_scan::rollup(run.request, w) is Some ==> run.last_common_prefix == Some(
        boundary(run.request, w),
    )
}

/// Where a scan goes on behind a key.
pub open spec fn advance_of(request: ProviderScanView, w: Seq<u8>) -> ScanAdvanceView {
    match fdb_scan::rollup(request, w) {
        Some(c) => ScanAdvanceView::AfterCommonPrefix(c),
        None => ScanAdvanceView::AfterKey(w),
    }
}

/// Taking one more item behind the last keeps the page in order.
proof fn one_more_item(run: ScanRunView, l: Seq<u8>, value: Seq<u8>)
    requires
        page_is_ordered(run),
        last_prefix_is_behind(run),
        bytes::has_prefix(l, run.request.prefix),
        belongs(run.request, boundary(run.request, l)),
        run.items.len() > 0 ==> bytes::lex_less(
            run.items.last().boundary(),
            boundary(run.request, l),
        ),
    ensures
        fdb_scan::projected(run.request, l, value, run.last_common_prefix) matches Ok(row) ==> {
            &&& row.item is Some
            &&& row.advance == advance_of(run.request, l)
            &&& page_is_ordered(run.with_row(row))
            &&& last_prefix_is_behind(run.with_row(row))
            &&& stands_for(run.with_row(row), l)
            &&& run.with_row(row).items.drop_last() == run.items
        },
{
    let b = boundary(run.request, l);
    if let Ok(row) = fdb_scan::projected(run.request, l, value, run.last_common_prefix) {
        match fdb_scan::rollup(run.request, l) {
            Some(c) => {
                if run.last_common_prefix == Some(c) {
                    assert(false);
                }
            },
            None => {},
        }
        let next = run.with_row(row);
        assert(next.items.drop_last() =~= run.items);
        assert(next.items.last().boundary() == b);
        assert forall|i: int, j: int| 0 <= i < j < next.items.len() implies bytes::lex_less(
            (#[trigger] next.items[i]).boundary(),
            (#[trigger] next.items[j]).boundary(),
        ) by {
            assert(next.items[i] == run.items[i]);
            if j < run.items.len() {
                assert(next.items[j] == run.items[j]);
            } else if i < run.items.len() - 1 {
                assert(run.items[run.items.len() - 1] == run.items.last());
                bytes::lex_less_transitive(
                    run.items[i].boundary(),
                    run.items.last().boundary(),
                    b,
                );
            }
        }
        assert forall|i: int| 0 <= i < next.items.len() implies belongs(
            next.request,
            (#[trigger] next.items[i]).boundary(),
        ) by {
            if i < run.items.len() {
                assert(next.items[i] == run.items[i]);
            }
        }
        bytes::lex_less_irreflexive(b);
        match next.last_common_prefix {
            Some(c) => {
                if fdb_scan::rollup(run.request, l) is None {
                    // The last common prefix is that of an earlier item.
                    if bytes::lex_less(b, c) {
                        bytes::lex_less_transitive(run.items.last().boundary(), b, c);
                    }
                }
            },
            None => {},
        }
    }
}

/// Taking a row behind the one that the last item stands for keeps the page in
/// order, and the last item then stands for that row.
proof fn row_behind(run: ScanRunView, w: Seq<u8>, l: Seq<u8>, value: Seq<u8>)
    requires
        page_is_ordered(run),
        last_prefix_is_behind(run),
        stands_for(run, w),
        bytes::has_prefix(l, run.request.prefix),
        bytes::lex_less(w, l),
        belongs(run.request, boundary(run.request, l)),
    ensures
        fdb_scan::projected(run.request, l, value, run.last_common_prefix) matches Ok(row) ==> {
            &&& row.advance == advance_of(run.request, l)
            &&& page_is_ordered(run.with_row(row))
            &&& last_prefix_is_behind(run.with_row(row))
            &&& stands_for(run.with_row(row), l)
            &&& row.item is None ==> run.with_row(row).items == run.items
            &&& row.item is Some ==> run.with_row(row).items.drop_last() == run.items
        },
{
    boundaries_keep_order(run.request, w, l);
    if bytes::lex_less(boundary(run.request, w), boundary(run.request, l)) {
        one_more_item(run, l, value);
    }
}

/// The native rows of a request keep the page in order, and the last item
/// stands for the last of them that was taken.
proof fn rows_keep_order(
    origin: ScanRunView,
    run: ScanRunView,
    rows: Seq<NativeRowView>,
    i: int,
    advance: Option<ScanAdvanceView>,
)
    requires
        rest_comes_behind(origin),
        rows_are_ordered(origin, rows),
        0 <= i <= rows.len(),
        run.request == origin.request,
        run.namespace == origin.namespace,
        page_is_ordered(run),
        last_prefix_is_behind(run),
        origin.items.len() <= run.items.len(),
        i == 0 ==> run.items == origin.items && !run.full(),
        i > 0 ==> ({
            let w = logical(origin, rows[i - 1].key);
            stands_for(run, w) && advance == Some(advance_of(origin.request, w))
        }),
        i > 0 ==> origin.items.len() < run.items.len(),
    ensures
        run.absorbed(rows, i, advance) matches Ok((next, last)) ==> {
            &&& next.request == origin.request
            &&& next.namespace == origin.namespace
            &&& next.begin == run.begin
            &&& next.end == run.end
            &&& next.finished == run.finished
            &&& next.visited == run.visited
            &&& next.native_requests == run.native_requests
            &&& page_is_ordered(next)
            &&& last_prefix_is_behind(next)
            &&& rows.len() > 0 ==> origin.items.len() < next.items.len()
            &&& rows.len() > 0 && !next.full() ==> {
                let w = logical(origin, rows.last().key);
                stands_for(next, w) && last == Some(advance_of(origin.request, w))
            }
        },
    decreases rows.len() - i,
{
    if i < rows.len() && !run.full() {
        let key = rows[i].key;
        assert(in_range(origin, key));
        let front = origin.front();
        split_key(front, origin.request.prefix, key);
        let l = logical(origin, key);
        assert(fdb_keys::logical_of(run.front(), key) == Some(l));
        if i == 0 {
            one_more_item(run, l, rows[i].value);
        } else {
            let w = logical(origin, rows[i - 1].key);
            assert(in_range(origin, rows[i - 1].key));
            split_key(front, origin.request.prefix, rows[i - 1].key);
            assert(bytes::lex_less(rows[i - 1].key, rows[i].key));
            fdb_keys::shared_front_keeps_order(front, w, l);
            row_behind(run, w, l, rows[i].value);
        }
        if let Ok((next, step)) = run.absorbed_row(rows[i]) {
            rows_keep_order(origin, next, rows, i + 1, Some(step));
        }
    }
}

/// A scan stays in order: whatever ordered rows of its range the store
/// returns, the page stays ordered and exclusive, and what is still to come
/// appears behind it.
pub proof fn scan_stays_in_order(run: ScanRunView, rows: Seq<NativeRowView>, more: bool)
    requires
        in_order(run),
        run.next_limit() is Some,
        rows_are_ordered(run, rows),
        fdb_keys::successor(run.front() + run.request.prefix) == Some(run.end),
    ensures
        run.accepted(rows, more) matches Ok(next) ==> {
            &&& page_is_ordered(next)
            &&& next.request == run.request
            &&& next.namespace == run.namespace
            &&& next.end == run.end
            &&& !next.finished ==> in_order(next)
            &&& rows.len() > 0 ==> run.items.len() < next.items.len()
        },
{
    let counted = ScanRunView {
        native_requests: read_stats::counted(run.native_requests as int, 1),
        visited: read_stats::counted(run.visited as int, rows.len() as int),
        ..run
    };
    assert(rest_comes_behind(counted)) by {
        assert forall|key: Seq<u8>| #[trigger] in_range(counted, key) implies in_range(run, key) by {}
        assert forall|key: Seq<u8>| #[trigger] in_range(counted, key) implies {
            &&& bytes::has_prefix(key, counted.front() + counted.request.prefix)
            &&& belongs(counted.request, boundary(counted.request, logical(counted, key)))
            &&& counted.items.len() > 0 ==> bytes::lex_less(
                counted.items.last().boundary(),
                boundary(counted.request, logical(counted, key)),
            )
        } by {
            assert(in_range(run, key));
        }
    }
    assert(rows_are_ordered(counted, rows)) by {
        assert forall|i: int| 0 <= i < rows.len() implies in_range(
            counted,
            (#[trigger] rows[i]).key,
        ) by {
            assert(in_range(run, rows[i].key));
        }
    }
    if rows.len() > 0 {
        rows_keep_order(counted, counted, rows, 0, None);
        if let Ok(next) = run.accepted(rows, more) {
            if !next.finished {
                let absorbed = counted.absorbed(rows, 0, None)->Ok_0.0;
                let w = logical(counted, rows.last().key);
                assert forall|key: Seq<u8>| #[trigger] in_range(next, key) implies {
                    &&& bytes::has_prefix(key, next.front() + next.request.prefix)
                    &&& belongs(next.request, boundary(next.request, logical(next, key)))
                    &&& next.items.len() > 0 ==> bytes::lex_less(
                        next.items.last().boundary(),
                        boundary(next.request, logical(next, key)),
                    )
                } by {
                    behind_advance(run.namespace, run.request, w, key, next.begin);
                    let l = logical(next, key);
                    boundary_has_prefix(run.request, l);
                    // The last item belongs to the page, and the key appears
                    // behind it.
                    let last = next.items.last().boundary();
                    assert(belongs(next.request, next.items[next.items.len() - 1].boundary()));
                    match run.request.start_after {
                        Some(cursor) => {
                            bytes::lex_less_transitive(cursor, last, boundary(run.request, l));
                        },
                        None => {},
                    }
                }
            }
        }
    }
}

/// Visited rows are within the budget of the items so far: each native
/// request that returned rows added an item, and asked for a bounded number.
pub open spec fn visits_are_bounded(run: ScanRunView) -> bool {
    run.visited <= run.items.len() * batch_rows(run.request.limit)
}

/// Most rows that a native request of a page of this limit asks for.
pub open spec fn batch_rows(limit: usize) -> int {
    if limit < FDB_SCAN_BATCH_ROWS {
        limit as int
    } else {
        FDB_SCAN_BATCH_ROWS as int
    }
}

/// A bounded page visits at most as many native rows as its ceiling, whatever
/// the store holds below any common prefix: each native request that returns
/// rows adds at least one item.
pub proof fn bounded_page_has_bounded_cost(
    run: ScanRunView,
    rows: Seq<NativeRowView>,
    more: bool,
)
    requires
        in_order(run),
        run.request.limit != 0,
        run.next_limit() matches Some(limit) && rows.len() <= limit,
        rows_are_ordered(run, rows),
        fdb_keys::successor(run.front() + run.request.prefix) == Some(run.end),
        visits_are_bounded(run),
        run.items.len() <= run.request.limit,
    ensures
        run.accepted(rows, more) matches Ok(next) ==> {
            &&& visits_are_bounded(next)
            &&& next.items.len() <= next.request.limit
            &&& next.visited <= fdb_scan::row_ceiling(next.request.limit)->Some_0
        },
{
    scan_stays_in_order(run, rows, more);
    let counted = ScanRunView {
        native_requests: read_stats::counted(run.native_requests as int, 1),
        visited: read_stats::counted(run.visited as int, rows.len() as int),
        ..run
    };
    page_stays_bounded(counted, rows, 0, None);
    if let Ok(next) = run.accepted(rows, more) {
        let m = batch_rows(run.request.limit);
        let a = run.items.len() as int;
        let b = next.items.len() as int;
        let limit = run.request.limit as int;
        assert(next.visited <= run.visited + rows.len());
        if rows.len() > 0 {
            assert((a + 1) * m <= b * m) by (nonlinear_arith)
                requires
                    a + 1 <= b,
                    m >= 0,
            ;
            assert(a * m + m == (a + 1) * m) by (nonlinear_arith);
        }
        assert(b * m <= limit * m) by (nonlinear_arith)
            requires
                b <= limit,
                m >= 0,
        ;
    }
}

/// A page never holds more items than were asked for.
proof fn page_stays_bounded(
    run: ScanRunView,
    rows: Seq<NativeRowView>,
    i: int,
    advance: Option<ScanAdvanceView>,
)
    requires
        0 <= i,
        run.request.limit != 0,
        run.items.len() <= run.request.limit,
    ensures
        run.absorbed(rows, i, advance) matches Ok((next, _)) ==> next.items.len()
            <= run.request.limit && next.request == run.request && next.visited == run.visited,
    decreases rows.len() - i,
{
    if i < rows.len() && !run.full() {
        if let Ok((next, step)) = run.absorbed_row(rows[i]) {
            page_stays_bounded(next, rows, i + 1, Some(step));
        }
    }
}

/// The page has an item with this boundary.
pub open spec fn has_item(items: Seq<ProviderScanItemView>, b: Seq<u8>) -> bool {
    exists|i: int| 0 <= i < items.len() && (#[trigger] items[i]).boundary() == b
}

/// A stored key that the page of this scan is about.
pub open spec fn wanted(run: ScanRunView, key: Seq<u8>) -> bool {
    bytes::has_prefix(key, run.front() + run.request.prefix) && belongs(
        run.request,
        boundary(run.request, logical(run, key)),
    )
}

/// A stored key is accounted for: it has its item, or is still to come, or
/// lies behind a full page.
pub open spec fn accounted(run: ScanRunView, key: Seq<u8>) -> bool {
    let b = boundary(run.request, logical(run, key));
    ||| has_item(run.items, b)
    ||| !run.finished && in_range(run, key)
    ||| run.full() && run.items.len() > 0 && bytes::lex_less(run.items.last().boundary(), b)
}

/// Every wanted key of the store is accounted for.
pub open spec fn without_gap(run: ScanRunView, store: Map<Seq<u8>, Seq<u8>>) -> bool {
    forall|key: Seq<u8>|
        #![trigger store.dom().contains(key)]
        store.dom().contains(key) && wanted(run, key) ==> accounted(run, key)
}

/// Native rows are rows of the store, and no row of the range is missing in
/// front of the last of them, or at all when there are no more.
pub open spec fn rows_are_complete(
    run: ScanRunView,
    rows: Seq<NativeRowView>,
    more: bool,
    store: Map<Seq<u8>, Seq<u8>>,
) -> bool {
    &&& forall|i: int|
        0 <= i < rows.len() ==> store.dom().contains((#[trigger] rows[i]).key) && store[rows[i].key]
            == rows[i].value
    &&& forall|key: Seq<u8>|
        #![trigger store.dom().contains(key)]
        store.dom().contains(key) && in_range(run, key) ==> (exists|i: int|
            0 <= i < rows.len() && (#[trigger] rows[i]).key == key) || (more && rows.len() > 0
            && bytes::lex_less(rows.last().key, key))
}

/// A scan starts without a gap: every wanted key lies in its native range.
pub proof fn scan_starts_without_gap(
    namespace: Seq<u8>,
    request: ProviderScanView,
    max_key_bytes: usize,
    store: Map<Seq<u8>, Seq<u8>>,
)
    ensures
        ScanRunView::started(namespace, request, max_key_bytes) matches Ok(Some(run))
            ==> without_gap(run, store),
{
    if let Ok(Some(run)) = ScanRunView::started(namespace, request, max_key_bytes) {
        let front = run.front();
        let p = front + request.prefix;
        assert(fdb_keys::physical(namespace, request.space, request.prefix) == p);
        assert forall|key: Seq<u8>|
            #![trigger store.dom().contains(key)]
            store.dom().contains(key) && wanted(run, key) implies accounted(run, key) by {
            let l = logical(run, key);
            split_key(front, request.prefix, key);
            fdb_keys::prefix_range_is_exact(p, key);
            rollup_shape(request, l);
            let b = boundary(request, l);
            assert(!bytes::lex_less(l, b)) by {
                match fdb_scan::rollup(request, l) {
                    Some(c) => prefix_comes_first(l, c),
                    None => bytes::lex_less_irreflexive(l),
                }
            }
            match fdb_scan::scan_start(request) {
                LogicalScanStartView::AfterKey(cursor) => {
                    bytes::lex_less_total(b, l);
                    if b != l {
                        bytes::lex_less_transitive(cursor, b, l);
                    }
                    fdb_keys::shared_front_keeps_order(front, cursor, l);
                    assert(fdb_keys::physical(namespace, request.space, cursor) == front + cursor);
                },
                LogicalScanStartView::AfterCommonPrefix(c) => {
                    let cursor = request.start_after->Some_0;
                    let pc = front + c;
                    assert(fdb_keys::physical(namespace, request.space, c) == pc);
                    rollup_shape(request, cursor);
                    prefix_comes_first(cursor, c);
                    bytes::lex_less_total(b, l);
                    if b != l {
                        bytes::lex_less_transitive(cursor, b, l);
                    }
                    not_before_then_before(c, cursor, l);
                    fdb_keys::shared_front_keeps_order(front, c, l);
                    if bytes::lex_less(key, fdb_keys::successor(pc)->Some_0) {
                        if bytes::lex_less(key, pc) {
                            bytes::lex_less_transitive(key, pc, key);
                            bytes::lex_less_irreflexive(key);
                        }
                        fdb_keys::prefix_range_is_exact(pc, key);
                        prefix_under_front(front, l, c);
                        same_rollup(request, cursor, l);
                    }
                },
                LogicalScanStartView::Empty => {},
                LogicalScanStartView::Prefix => {},
            }
        }
    }
}

/// Rows that were taken have their items; rows that were not lie behind a full
/// page.
proof fn rows_are_accounted(
    origin: ScanRunView,
    run: ScanRunView,
    rows: Seq<NativeRowView>,
    i: int,
    advance: Option<ScanAdvanceView>,
)
    requires
        rest_comes_behind(origin),
        rows_are_ordered(origin, rows),
        0 <= i <= rows.len(),
        run.request == origin.request,
        run.namespace == origin.namespace,
        page_is_ordered(run),
        last_prefix_is_behind(run),
        i == 0 ==> run.items == origin.items && !run.full(),
        i > 0 ==> stands_for(run, logical(origin, rows[i - 1].key)),
        forall|j: int|
            0 <= j < i ==> has_item(
                run.items,
                boundary(origin.request, logical(origin, (#[trigger] rows[j]).key)),
            ),
    ensures
        run.absorbed(rows, i, advance) matches Ok((next, _)) ==> {
            &&& forall|j: int|
                0 <= j < rows.len() ==> {
                    let b = boundary(origin.request, logical(origin, (#[trigger] rows[j]).key));
                    has_item(next.items, b) || (next.full() && bytes::lex_less(
                        next.items.last().boundary(),
                        b,
                    ))
                }
            &&& forall|b: Seq<u8>| has_item(run.items, b) ==> #[trigger] has_item(next.items, b)
            &&& rows.len() > 0 ==> exists|j: int|
                0 <= j < rows.len() && stands_for(next, logical(origin, (#[trigger] rows[j]).key))
        },
    decreases rows.len() - i,
{
    let front = origin.front();
    if i < rows.len() && !run.full() {
        let key = rows[i].key;
        assert(in_range(origin, key));
        split_key(front, origin.request.prefix, key);
        let l = logical(origin, key);
        assert(fdb_keys::logical_of(run.front(), key) == Some(l));
        if i == 0 {
            one_more_item(run, l, rows[i].value);
        } else {
            let w = logical(origin, rows[i - 1].key);
            assert(in_range(origin, rows[i - 1].key));
            split_key(front, origin.request.prefix, rows[i - 1].key);
            assert(bytes::lex_less(rows[i - 1].key, rows[i].key));
            fdb_keys::shared_front_keeps_order(front, w, l);
            row_behind(run, w, l, rows[i].value);
        }
        if let Ok((next, step)) = run.absorbed_row(rows[i]) {
            assert forall|b: Seq<u8>| has_item(run.items, b) implies #[trigger] has_item(
                next.items,
                b,
            ) by {
                let k = choose|k: int|
                    0 <= k < run.items.len() && (#[trigger] run.items[k]).boundary() == b;
                assert(next.items[k] == run.items[k]);
            }
            assert forall|j: int| 0 <= j < i + 1 implies has_item(
                next.items,
                boundary(origin.request, logical(origin, (#[trigger] rows[j]).key)),
            ) by {
                if j == i {
                    assert(next.items[next.items.len() - 1].boundary() == boundary(
                        origin.request,
                        l,
                    ));
                }
            }
            rows_are_accounted(origin, next, rows, i + 1, Some(step));
        }
    } else if i > 0 {
        let w = logical(origin, rows[i - 1].key);
        assert(stands_for(run, logical(origin, rows[i - 1].key)));
        assert(in_range(origin, rows[i - 1].key));
        split_key(front, origin.request.prefix, rows[i - 1].key);
        assert forall|j: int| 0 <= j < rows.len() implies {
            let b = boundary(origin.request, logical(origin, (#[trigger] rows[j]).key));
            has_item(run.items, b) || (run.full() && bytes::lex_less(
                run.items.last().boundary(),
                b,
            ))
        } by {
            if j >= i {
                assert(in_range(origin, rows[j].key));
                split_key(front, origin.request.prefix, rows[j].key);
                assert(bytes::lex_less(rows[i - 1].key, rows[j].key));
                let l = logical(origin, rows[j].key);
                fdb_keys::shared_front_keeps_order(front, w, l);
                boundaries_keep_order(origin.request, w, l);
                assert(run.items[run.items.len() - 1].boundary() == boundary(origin.request, w));
            }
        }
    }
}

/// A scan leaves no gap: whatever the store holds, every wanted key has its
/// item, or is still to come, or lies behind a full page. So a page that is
/// not full is complete, and a full one lacks nothing in front of its last
/// item.
pub proof fn scan_leaves_no_gap(
    run: ScanRunView,
    rows: Seq<NativeRowView>,
    more: bool,
    store: Map<Seq<u8>, Seq<u8>>,
)
    requires
        in_order(run),
        run.next_limit() is Some,
        rows_are_ordered(run, rows),
        rows_are_complete(run, rows, more, store),
        fdb_keys::successor(run.front() + run.request.prefix) == Some(run.end),
        without_gap(run, store),
    ensures
        run.accepted(rows, more) matches Ok(next) ==> without_gap(next, store),
{
    scan_stays_in_order(run, rows, more);
    let counted = ScanRunView {
        native_requests: read_stats::counted(run.native_requests as int, 1),
        visited: read_stats::counted(run.visited as int, rows.len() as int),
        ..run
    };
    assert(rest_comes_behind(counted)) by {
        assert forall|key: Seq<u8>| #[trigger] in_range(counted, key) implies {
            &&& bytes::has_prefix(key, counted.front() + counted.request.prefix)
            &&& belongs(counted.request, boundary(counted.request, logical(counted, key)))
            &&& counted.items.len() > 0 ==> bytes::lex_less(
                counted.items.last().boundary(),
                boundary(counted.request, logical(counted, key)),
            )
        } by {
            assert(in_range(run, key));
        }
    }
    assert(rows_are_ordered(counted, rows)) by {
        assert forall|i: int| 0 <= i < rows.len() implies in_range(
            counted,
            (#[trigger] rows[i]).key,
        ) by {
            assert(in_range(run, rows[i].key));
        }
    }
    if rows.len() > 0 {
        rows_keep_order(counted, counted, rows, 0, None);
        rows_are_accounted(counted, counted, rows, 0, None);
    }
    if let Ok(next) = run.accepted(rows, more) {
        assert forall|key: Seq<u8>|
            #![trigger store.dom().contains(key)]
            store.dom().contains(key) && wanted(next, key) implies accounted(next, key) by {
            assert(wanted(run, key));
            assert(accounted(run, key));
            let b = boundary(run.request, logical(run, key));
            if in_range(run, key) && !has_item(run.items, b) && rows.len() > 0 {
                if exists|i: int| 0 <= i < rows.len() && (#[trigger] rows[i]).key == key {
                    let j = choose|i: int| 0 <= i < rows.len() && (#[trigger] rows[i]).key == key;
                    assert(logical(counted, rows[j].key) == logical(run, key));
                } else {
                    unread_key_is_accounted(run, counted, rows, key, next);
                }
            }
        }
    }
}

/// A key of the range behind all rows of a request is still to come, or has
/// its item, or lies behind a full page.
proof fn unread_key_is_accounted(
    run: ScanRunView,
    counted: ScanRunView,
    rows: Seq<NativeRowView>,
    key: Seq<u8>,
    next: ScanRunView,
)
    requires
        rows.len() > 0,
        rest_comes_behind(counted),
        rows_are_ordered(counted, rows),
        in_range(counted, key),
        bytes::lex_less(rows.last().key, key),
        counted.request == run.request,
        counted.namespace == run.namespace,
        counted.begin == run.begin,
        counted.end == run.end,
        next.request == run.request,
        next.namespace == run.namespace,
        next.end == run.end,
        exists|j: int|
            0 <= j < rows.len() && stands_for(next, logical(counted, (#[trigger] rows[j]).key)),
        next.finished ==> next.full(),
        !next.finished ==> ({
            let w = logical(counted, rows.last().key);
            stands_for(next, w) && fdb_scan::begin_after(
                run.namespace,
                run.request.space,
                advance_of(run.request, w),
            ) == Ok::<RangeStartView, ProviderFailure>(next.begin)
        }),
    ensures
        accounted(next, key),
{
    let front = run.front();
    let request = run.request;
    split_key(front, request.prefix, key);
    let l = logical(run, key);
    let j = choose|j: int|
        0 <= j < rows.len() && stands_for(next, logical(counted, (#[trigger] rows[j]).key));
    let at = if next.finished {
        j
    } else {
        rows.len() - 1
    };
    let w = logical(counted, rows[at].key);
    assert(in_range(counted, rows[at].key));
    split_key(front, request.prefix, rows[at].key);
    assert(bytes::lex_less(rows[at].key, key)) by {
        if at < rows.len() - 1 {
            assert(bytes::lex_less(rows[at].key, rows[rows.len() - 1].key));
            bytes::lex_less_transitive(rows[at].key, rows.last().key, key);
        }
    }
    fdb_keys::shared_front_keeps_order(front, w, l);
    boundaries_keep_order(request, w, l);
    assert(next.items[next.items.len() - 1].boundary() == boundary(request, w));
    if !next.finished && boundary(request, w) != boundary(request, l) {
        match fdb_scan::rollup(request, w) {
            Some(c) => {
                let pc = front + c;
                assert(fdb_keys::physical(run.namespace, request.space, c) == pc);
                rollup_shape(request, w);
                prefix_under_front(front, w, c);
                prefix_comes_first(rows[at].key, pc);
                if bytes::lex_less(key, fdb_keys::successor(pc)->Some_0) {
                    not_before_then_before(pc, rows[at].key, key);
                    if bytes::lex_less(key, pc) {
                        bytes::lex_less_transitive(key, pc, key);
                        bytes::lex_less_irreflexive(key);
                    }
                    fdb_keys::prefix_range_is_exact(pc, key);
                    prefix_under_front(front, l, c);
                    same_rollup(request, w, l);
                }
            },
            None => {
                assert(fdb_keys::physical(run.namespace, request.space, w) == rows[at].key);
            },
        }
    }
}

/// An item is true of the store: a key is stored with its logical value, and a
/// common prefix has a stored key that is rolled up to it.
pub open spec fn item_is_true(
    run: ScanRunView,
    item: ProviderScanItemView,
    store: Map<Seq<u8>, Seq<u8>>,
) -> bool {
    match item {
        ProviderScanItemView::Key { key, value } => store.dom().contains(run.front() + key)
            && fdb_keys::logical_value(store[run.front() + key]) == Ok::<
            Seq<u8>,
            ProviderFailure,
        >(value),
        ProviderScanItemView::CommonPrefix(common) => exists|l: Seq<u8>|
            store.dom().contains(#[trigger] (run.front() + l)) && fdb_scan::rollup(run.request, l)
                == Some(common),
    }
}

/// Every item of a page is true of the store.
pub open spec fn page_is_true(run: ScanRunView, store: Map<Seq<u8>, Seq<u8>>) -> bool {
    forall|i: int| 0 <= i < run.items.len() ==> item_is_true(run, #[trigger] run.items[i], store)
}

/// Rows of the store add only items that are true of it.
proof fn rows_stay_true(
    run: ScanRunView,
    rows: Seq<NativeRowView>,
    i: int,
    advance: Option<ScanAdvanceView>,
    store: Map<Seq<u8>, Seq<u8>>,
)
    requires
        0 <= i,
        page_is_true(run, store),
        forall|j: int|
            0 <= j < rows.len() ==> store.dom().contains((#[trigger] rows[j]).key)
                && store[rows[j].key] == rows[j].value,
    ensures
        run.absorbed(rows, i, advance) matches Ok((next, _)) ==> page_is_true(next, store)
            && next.request == run.request && next.namespace == run.namespace,
    decreases rows.len() - i,
{
    if i < rows.len() && !run.full() {
        if let Ok((next, step)) = run.absorbed_row(rows[i]) {
            let front = run.front();
            let l = fdb_keys::logical_of(front, rows[i].key)->Some_0;
            assert(rows[i].key =~= front + l) by {
                assert(rows[i].key =~= rows[i].key.take(front.len() as int) + l);
            }
            assert forall|k: int| 0 <= k < next.items.len() implies item_is_true(
                next,
                #[trigger] next.items[k],
                store,
            ) by {
                if k < run.items.len() {
                    assert(next.items[k] == run.items[k]);
                    assert(item_is_true(run, run.items[k], store));
                } else {
                    assert(store.dom().contains(front + l));
                }
            }
            rows_stay_true(next, rows, i + 1, Some(step), store);
        }
    }
}

/// A scan invents nothing: as long as native rows are rows of the store, every
/// item of the page is true of the store.
pub proof fn scan_invents_nothing(
    run: ScanRunView,
    rows: Seq<NativeRowView>,
    more: bool,
    store: Map<Seq<u8>, Seq<u8>>,
)
    requires
        page_is_true(run, store),
        forall|j: int|
            0 <= j < rows.len() ==> store.dom().contains((#[trigger] rows[j]).key)
                && store[rows[j].key] == rows[j].value,
    ensures
        run.accepted(rows, more) matches Ok(next) ==> page_is_true(next, store),
{
    let counted = ScanRunView {
        native_requests: read_stats::counted(run.native_requests as int, 1),
        visited: read_stats::counted(run.visited as int, rows.len() as int),
        ..run
    };
    assert(page_is_true(counted, store)) by {
        assert forall|k: int| 0 <= k < counted.items.len() implies item_is_true(
            counted,
            #[trigger] counted.items[k],
            store,
        ) by {
            assert(item_is_true(run, run.items[k], store));
        }
    }
    rows_stay_true(counted, rows, 0, None, store);
    if let Ok(next) = run.accepted(rows, more) {
        if rows.len() > 0 {
            let absorbed = counted.absorbed(rows, 0, None)->Ok_0.0;
            assert forall|k: int| 0 <= k < next.items.len() implies item_is_true(
                next,
                #[trigger] next.items[k],
                store,
            ) by {
                assert(item_is_true(absorbed, absorbed.items[k], store));
            }
        } else {
            assert forall|k: int| 0 <= k < next.items.len() implies item_is_true(
                next,
                #[trigger] next.items[k],
                store,
            ) by {
                assert(item_is_true(counted, counted.items[k], store));
            }
        }
    }
}

} // verus!
