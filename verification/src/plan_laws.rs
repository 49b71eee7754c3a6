//! What each operation of an atomic plan does to the records of a store.

use vstd::prelude::*;

use crate::plan_semantics;
use crate::plan_semantics::{Cell, Record};
use crate::provider::{AtomicOpView, ReadWitnessView};
use crate::provider_catalog::OrderedSpaceId;

verus! {

/// A guard leaves the records as they are, or nothing comes of the plan: of a
/// record that is to be unchanged, unless it has the version of the witness
/// and the plan did not write it; of one that is to be absent, unless it is; of
/// a prefix, unless no record of the space has it.
pub proof fn guards_change_nothing(
    state: Map<Record, Cell>,
    space: OrderedSpaceId,
    key: Seq<u8>,
    witness: ReadWitnessView,
)
    ensures
        ({
            let unchanged = plan_semantics::applied(
                state,
                AtomicOpView::AssertUnchanged { space, key, witness },
            );
            let absent = plan_semantics::applied(state, AtomicOpView::AssertAbsent { space, key });
            let empty = plan_semantics::applied(
                state,
                AtomicOpView::AssertPrefixEmpty { space, prefix: key },
            );
            &&& unchanged is Some <==> state.dom().contains((space, key)) && state[(space, key)]
                == Cell::Stored(witness.version)
            &&& absent is Some <==> !state.dom().contains((space, key))
            &&& empty is Some <==> !(exists|other: Seq<u8>| #[trigger]
                state.dom().contains((space, other)) && key.len() <= other.len() && other.take(
                    key.len() as int,
                ) == key)
            &&& unchanged is Some ==> unchanged == Some(state)
            &&& absent is Some ==> absent == Some(state)
            &&& empty is Some ==> empty == Some(state)
        }),
{
}

/// A write changes its own record and no other: one without a guard always
/// does, one that needs the record to be absent only then, and one that
/// compares only where the record has the version of the witness and the plan
/// did not write it.
pub proof fn writes_change_their_record(
    state: Map<Record, Cell>,
    space: OrderedSpaceId,
    key: Seq<u8>,
    witness: ReadWitnessView,
    value: Seq<u8>,
    other: Record,
)
    ensures
        ({
            let put = plan_semantics::applied(state, AtomicOpView::Put { space, key, value });
            let put_if_absent = plan_semantics::applied(
                state,
                AtomicOpView::PutIfAbsent { space, key, value },
            );
            let compare_and_put = plan_semantics::applied(
                state,
                AtomicOpView::CompareAndPut { space, key, witness, value },
            );
            let delete = plan_semantics::applied(state, AtomicOpView::Delete { space, key });
            &&& put is Some && delete is Some
            &&& put_if_absent is Some <==> !state.dom().contains((space, key))
            &&& compare_and_put is Some <==> state.dom().contains((space, key)) && state[(
                space,
                key,
            )] == Cell::Stored(witness.version)
            &&& put_if_absent is Some ==> put_if_absent == put
            &&& compare_and_put is Some ==> compare_and_put == put
            &&& put->0.dom().contains((space, key)) && put->0[(space, key)] == Cell::Written(value)
            &&& !delete->0.dom().contains((space, key))
            &&& other != (space, key) ==> {
                &&& put->0.dom().contains(other) <==> state.dom().contains(other)
                &&& state.dom().contains(other) ==> put->0[other] == state[other]
                &&& delete->0.dom().contains(other) <==> state.dom().contains(other)
                &&& state.dom().contains(other) ==> delete->0[other] == state[other]
            }
        }),
{
}

/// A plan is carried out as a whole: what comes behind other operations is
/// carried out on what they leave, and nothing comes of it where nothing came
/// of them.
pub proof fn plans_are_carried_out_in_order(
    state: Map<Record, Cell>,
    first: Seq<AtomicOpView>,
    second: Seq<AtomicOpView>,
)
    ensures
        plan_semantics::sequential(state, first + second) == (match plan_semantics::sequential(
            state,
            first,
        ) {
            None => None,
            Some(middle) => plan_semantics::sequential(middle, second),
        }),
    decreases second.len(),
{
    if second.len() == 0 {
        assert(first + second =~= first);
    } else {
        plans_are_carried_out_in_order(state, first, second.drop_last());
        assert((first + second).drop_last() =~= first + second.drop_last());
        assert((first + second).last() == second.last());
    }
}

/// Before a plan is carried out, the records are those of the store.
pub proof fn plans_start_on_the_store(store: Map<Record, Seq<u8>>, record: Record)
    ensures
        plan_semantics::unwritten(store).dom().contains(record) <==> store.dom().contains(record),
        store.dom().contains(record) ==> plan_semantics::unwritten(store)[record] == Cell::Stored(
            store[record],
        ),
        plan_semantics::sequential(plan_semantics::unwritten(store), Seq::empty()) == Some(
            plan_semantics::unwritten(store),
        ),
{
}

} // verus!
