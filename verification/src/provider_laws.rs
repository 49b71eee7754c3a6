//! What every provider checks: the size of a plan and the schema that a store
//! is opened under.

use vstd::prelude::*;

use crate::provider;
use crate::provider::{AtomicOpView, ProviderErrorKind, ProviderSchemaV1};
use crate::provider_catalog;

verus! {

/// The bytes of a plan are those of the keys, prefixes and values of its
/// operations.
pub proof fn plans_are_measured_by_operation(operations: Seq<AtomicOpView>, op: AtomicOpView)
    ensures
        provider::footprint(Seq::empty()) == 0,
        provider::footprint(operations.push(op)) == provider::footprint(operations) + (match op {
            AtomicOpView::AssertUnchanged { key, .. } => key.len(),
            AtomicOpView::AssertAbsent { key, .. } => key.len(),
            AtomicOpView::AssertPrefixEmpty { prefix, .. } => prefix.len(),
            AtomicOpView::Put { key, value, .. } => key.len() + value.len(),
            AtomicOpView::PutIfAbsent { key, value, .. } => key.len() + value.len(),
            AtomicOpView::CompareAndPut { key, value, .. } => key.len() + value.len(),
            AtomicOpView::Delete { key, .. } => key.len(),
        }),
{
    assert(operations.push(op).drop_last() =~= operations);
}

/// A schema is accepted exactly when it has the first version of the interface,
/// the digest of the contract, and every ordered space in its place.
pub proof fn schemas_are_accepted_as_they_stand(schema: ProviderSchemaV1, digest: Seq<u8>)
    ensures
        provider::schema_check(schema, digest) is Ok <==> {
            &&& schema.spi_major == 1
            &&& schema.workspace_contract_digest@ == digest
            &&& schema.ordered_spaces@.len() == provider_catalog::space_ids().len()
            &&& forall|i: int|
                0 <= i < schema.ordered_spaces@.len() ==> #[trigger] schema.ordered_spaces@[i]
                    == provider_catalog::space_ids()[i]
        },
        provider::schema_check(schema, digest) matches Err(failure) ==> failure.kind
            == ProviderErrorKind::Schema,
{
    if schema.ordered_spaces@.len() == provider_catalog::space_ids().len() && (forall|i: int|
        0 <= i < schema.ordered_spaces@.len() ==> #[trigger] schema.ordered_spaces@[i]
            == provider_catalog::space_ids()[i]) {
        assert(schema.ordered_spaces@ =~= provider_catalog::space_ids());
    }
}

/// A length is admitted exactly when it does not exceed its limit, and a space
/// exactly when it is one of the ordered spaces; a length that is not is told
/// with its limit.
pub proof fn lengths_are_admitted_up_to_their_limit(length: usize, maximum: usize, space: u16)
    ensures
        provider::length_check(length as nat, maximum) is Ok <==> length <= maximum,
        provider::length_check(length as nat, maximum) matches Err(failure) ==> failure.kind
            == ProviderErrorKind::TransactionTooLarge && failure.limit is Some
            && failure.limit->0.affected_bytes == length && failure.limit->0.max_bytes == maximum,
        provider::space_check(space) is Ok <==> provider_catalog::space_ids().contains(space),
        provider::space_check(space) matches Err(failure) ==> failure.kind
            == ProviderErrorKind::InvalidPlan,
{
}

} // verus!
