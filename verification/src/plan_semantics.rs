//! What an atomic plan means: its operations change the records one after the
//! other, or none of them does.

use vstd::prelude::*;

use crate::bytes;
use crate::provider::AtomicOpView;
use crate::provider_catalog::OrderedSpaceId;

verus! {

/// A record of the store.
pub type Record = (OrderedSpaceId, Seq<u8>);

/// What a record holds while a plan is carried out.
pub enum Cell {
    /// The stored value that it had before.
    Stored(Seq<u8>),
    /// The logical value that the plan wrote.
    Written(Seq<u8>),
}

/// No record of a space lies under a prefix.
pub open spec fn empty_under<V>(
    state: Map<Record, V>,
    space: OrderedSpaceId,
    prefix: Seq<u8>,
) -> bool {
    forall|key: Seq<u8>| #[trigger]
        state.dom().contains((space, key)) ==> !bytes::has_prefix(key, prefix)
}

/// What one operation does to the records: nothing comes of it when its guard
/// does not hold.
pub open spec fn applied(state: Map<Record, Cell>, op: AtomicOpView) -> Option<Map<Record, Cell>> {
    let record = (op.space(), op.key());
    match op {
        AtomicOpView::AssertUnchanged { witness, .. } => if state.dom().contains(record)
            && state[record] == Cell::Stored(witness.version) {
            Some(state)
        } else {
            None
        },
        AtomicOpView::AssertAbsent { .. } => if state.dom().contains(record) {
            None
        } else {
            Some(state)
        },
        AtomicOpView::AssertPrefixEmpty { space, prefix } => if empty_under(state, space, prefix) {
            Some(state)
        } else {
            None
        },
        AtomicOpView::Put { value, .. } => Some(state.insert(record, Cell::Written(value))),
        AtomicOpView::PutIfAbsent { value, .. } => if state.dom().contains(record) {
            None
        } else {
            Some(state.insert(record, Cell::Written(value)))
        },
        AtomicOpView::CompareAndPut { witness, value, .. } => if state.dom().contains(record)
            && state[record] == Cell::Stored(witness.version) {
            Some(state.insert(record, Cell::Written(value)))
        } else {
            None
        },
        AtomicOpView::Delete { .. } => Some(state.remove(record)),
    }
}

/// What operations do to the records, one after the other.
pub open spec fn sequential(
    state: Map<Record, Cell>,
    operations: Seq<AtomicOpView>,
) -> Option<Map<Record, Cell>>
    decreases operations.len(),
{
    if operations.len() == 0 {
        Some(state)
    } else {
        match sequential(state, operations.drop_last()) {
            None => None,
            Some(before) => applied(before, operations.last()),
        }
    }
}

/// Records as they were before the plan.
pub open spec fn unwritten(store: Map<Record, Seq<u8>>) -> Map<Record, Cell> {
    Map::new(|r: Record| store.dom().contains(r), |r: Record| Cell::Stored(store[r]))
}

} // verus!
