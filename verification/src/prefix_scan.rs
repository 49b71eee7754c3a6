//! Scanning every item under a prefix, one bounded batch at a time.

use vstd::prelude::*;

use crate::bytes;
use crate::query_types::ENGINE_SCAN_BATCH;
use crate::store_records;

verus! {

/// One stored item.
#[derive(Debug, PartialEq, Eq)]
pub struct MetadataScanItem {
    pub key: Vec<u8>,
    pub value: Vec<u8>,
}

impl View for MetadataScanItem {
    type V = (Seq<u8>, Seq<u8>);

    open spec fn view(&self) -> (Seq<u8>, Seq<u8>) {
        (self.key@, self.value@)
    }
}

/// State of one scan.
pub struct PrefixScanView {
    /// Key of the last item that was seen.
    pub marker: Option<Seq<u8>>,
    pub items: Seq<(Seq<u8>, Seq<u8>)>,
    pub finished: bool,
}

impl PrefixScanView {
    /// The state before any batch.
    pub open spec fn started() -> Self {
        PrefixScanView { marker: None, items: Seq::empty(), finished: false }
    }

    /// The state after a batch: a short one is the last.
    pub open spec fn after(self, batch: Seq<(Seq<u8>, Seq<u8>)>) -> Self {
        PrefixScanView {
            marker: if batch.len() == 0 {
                self.marker
            } else {
                Some(batch.last().0)
            },
            items: self.items + batch,
            finished: batch.len() < ENGINE_SCAN_BATCH,
        }
    }
}

/// One scan in progress.
pub struct PrefixScan {
    marker: Option<Vec<u8>>,
    items: Vec<MetadataScanItem>,
    finished: bool,
}

impl View for PrefixScan {
    type V = PrefixScanView;

    closed spec fn view(&self) -> PrefixScanView {
        PrefixScanView {
            marker: bytes::option_view(self.marker),
            items: store_records::views(self.items@),
            finished: self.finished,
        }
    }
}

impl PrefixScan {
    /// Starts a scan.
    pub fn start() -> (scan: Self)
        ensures
            scan@ == PrefixScanView::started(),
    {
        let scan = PrefixScan { marker: None, items: Vec::new(), finished: false };
        assert(scan@.items =~= Seq::<(Seq<u8>, Seq<u8>)>::empty());
        scan
    }

    /// Whether the scan is over.
    pub fn is_finished(&self) -> (finished: bool)
        ensures
            finished == self@.finished,
    {
        self.finished
    }

    /// Key behind which the next batch of up to [`ENGINE_SCAN_BATCH`] items is
    /// scanned.
    pub fn marker(&self) -> (marker: Option<&[u8]>)
        ensures
            match marker {
                Some(marker) => self@.marker == Some(marker@),
                None => self@.marker is None,
            },
    {
        match &self.marker {
            Some(marker) => Some(marker.as_slice()),
            None => None,
        }
    }

    /// Takes one batch.
    pub fn accept(&mut self, batch: Vec<MetadataScanItem>)
        ensures
            final(self)@ == old(self)@.after(store_records::views(batch@)),
    {
        let ghost before = self@;
        let ghost listed = batch@;
        let ghost all = store_records::views(batch@);
        let count: usize = batch.len();
        if count > 0 {
            let last = &batch[count - 1];
            assert(all.last() == last@);
            self.marker = Some(vstd::slice::slice_to_vec(last.key.as_slice()));
        }
        self.finished = count < ENGINE_SCAN_BATCH;
        let ghost expected = before.after(all);
        assert(before.items + all.take(0) =~= before.items);
        for item in it: batch.into_iter()
            invariant
                it.seq() == listed,
                all == store_records::views(listed),
                self@.marker == expected.marker,
                self@.finished == expected.finished,
                self@.items == before.items + all.take(it.index() as int),
        {
            let ghost n = it.index() as int;
            let ghost so_far = self@.items;
            assert(item == listed[n]);
            assert(all[n] == item@);
            self.items.push(item);
            assert(self@.items =~= so_far.push(item@));
            assert(self@.items =~= before.items + all.take(n + 1));
        }
        assert(all.take(all.len() as int) =~= all);
    }

    /// The scanned items.
    pub fn into_items(self) -> (items: Vec<MetadataScanItem>)
        ensures
            store_records::views(items@) == self@.items,
    {
        self.items
    }
}

/// The items stand in the order of their keys.
pub open spec fn in_key_order(stored: Seq<(Seq<u8>, Seq<u8>)>) -> bool {
    forall|i: int, j: int|
        #![trigger stored[i], stored[j]]
        0 <= i < j < stored.len() ==> bytes::lex_less(stored[i].0, stored[j].0)
}

/// The items behind a marker.
pub open spec fn behind(stored: Seq<(Seq<u8>, Seq<u8>)>, marker: Option<Seq<u8>>) -> Seq<
    (Seq<u8>, Seq<u8>),
>
    decreases stored.len(),
{
    if stored.len() == 0 {
        stored
    } else if marker is None || bytes::lex_less(marker->0, stored[0].0) {
        stored
    } else {
        behind(stored.drop_first(), marker)
    }
}

/// The items behind the last of some are the others.
proof fn behind_skips(stored: Seq<(Seq<u8>, Seq<u8>)>, marker: Option<Seq<u8>>, n: int)
    requires
        in_key_order(stored),
        0 < n <= behind(stored, marker).len(),
    ensures
        behind(stored, Some(behind(stored, marker)[n - 1].0)) == behind(stored, marker).skip(n),
        exists|k: int|
            0 <= k < stored.len() && #[trigger] stored[k] == behind(stored, marker)[n - 1],
    decreases stored.len(),
{
    let found = behind(stored, marker);
    let shorter = stored.drop_first();
    assert forall|i: int, j: int|
        #![trigger shorter[i], shorter[j]]
        0 <= i < j < shorter.len() implies bytes::lex_less(shorter[i].0, shorter[j].0) by {
        assert(shorter[i] == stored[i + 1] && shorter[j] == stored[j + 1]);
    }
    if found == stored {
        assert(stored[n - 1] == found[n - 1]);
        bytes::lex_less_irreflexive(stored[0].0);
        if n == 1 {
            if shorter.len() > 0 {
                assert(shorter[0] == stored[1]);
                assert(bytes::lex_less(stored[0].0, stored[1].0));
            }
            assert(behind(shorter, Some(stored[0].0)) =~= stored.skip(1));
        } else {
            assert(behind(shorter, None) == shorter);
            behind_skips(shorter, None, n - 1);
            assert(shorter[n - 2] == stored[n - 1]);
            assert(bytes::lex_less(stored[0].0, stored[n - 1].0));
            not_before(stored[0].0, stored[n - 1].0);
            assert(shorter.skip(n - 1) =~= stored.skip(n));
        }
    } else {
        assert(found == behind(shorter, marker));
        behind_skips(shorter, marker, n);
        let k = choose|k: int| 0 <= k < shorter.len() && #[trigger] shorter[k] == found[n - 1];
        assert(stored[k + 1] == found[n - 1]);
        assert(bytes::lex_less(stored[0].0, stored[k + 1].0));
        not_before(stored[0].0, stored[k + 1].0);
    }
}

/// No two keys come before each other.
proof fn not_before(a: Seq<u8>, b: Seq<u8>)
    requires
        bytes::lex_less(a, b),
    ensures
        !bytes::lex_less(b, a),
{
    if bytes::lex_less(b, a) {
        bytes::lex_less_transitive(a, b, a);
        bytes::lex_less_irreflexive(a);
    }
}

/// The batch that a store gives behind a marker.
pub open spec fn batch_behind(stored: Seq<(Seq<u8>, Seq<u8>)>, marker: Option<Seq<u8>>) -> Seq<
    (Seq<u8>, Seq<u8>),
> {
    let found = behind(stored, marker);
    if found.len() > ENGINE_SCAN_BATCH {
        found.take(ENGINE_SCAN_BATCH as int)
    } else {
        found
    }
}

/// Each batch of the store leaves the scan with what it saw, and the items
/// behind its marker are those that it has not seen; once the scan is over,
/// there are none.
pub proof fn scanned_items_and_the_rest_are_the_store(
    scan: PrefixScanView,
    stored: Seq<(Seq<u8>, Seq<u8>)>,
)
    requires
        in_key_order(stored),
        !scan.finished,
        scan.items + behind(stored, scan.marker) == stored,
    ensures
        ({
            let next = scan.after(batch_behind(stored, scan.marker));
            next.items + behind(stored, next.marker) == stored && (next.finished ==> next.items
                == stored)
        }),
{
    let found = behind(stored, scan.marker);
    let batch = batch_behind(stored, scan.marker);
    let n = batch.len() as int;
    assert(batch =~= found.take(n));
    if n > 0 {
        behind_skips(stored, scan.marker, n);
        assert(batch.last() == found[n - 1]);
    }
    assert(found.take(n) + found.skip(n) =~= found);
    let next = scan.after(batch);
    assert(behind(stored, next.marker) =~= found.skip(n));
    assert(next.items + found.skip(n) =~= scan.items + found);
    if next.finished {
        assert(found.skip(n) =~= Seq::<(Seq<u8>, Seq<u8>)>::empty());
        assert(next.items + found.skip(n) =~= next.items);
    }
}

/// A scan starts with nothing seen and the whole store behind its marker.
pub proof fn scan_starts_before_the_store(stored: Seq<(Seq<u8>, Seq<u8>)>)
    ensures
        PrefixScanView::started().items + behind(stored, PrefixScanView::started().marker)
            == stored,
{
    assert(PrefixScanView::started().items + stored =~= stored);
}

} // verus!
