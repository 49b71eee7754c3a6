//! When a FoundationDB store may be created and reopened, where its records
//! stand, and what a failure of it is told as.

use vstd::prelude::*;

use crate::bytes;
use crate::fdb_keys;
use crate::fdb_keys::MetadataStoreIdentity;
use crate::fdb_provider;
use crate::fdb_provider::FoundationDbProviderConfig;
use crate::provider::{
    CreateRecoveryIntentV1, ProviderCapabilities, ProviderError, ProviderErrorKind,
    ProviderInstanceToken, ProviderOperationV1, ProviderRecord, ProviderSchemaV1,
};
use crate::provider_catalog;
use crate::provider_catalog::OrderedSpaceId;

verus! {

/// A schema is that of this workspace.
pub open spec fn is_own_schema(schema: ProviderSchemaV1, digest: Seq<u8>) -> bool {
    schema.spi_major == 1 && schema.workspace_contract_digest@ == digest
        && schema.ordered_spaces@ == provider_catalog::space_ids()
}

/// A policy lies within the native limits.
pub open spec fn is_native(config: FoundationDbProviderConfig) -> bool {
    32 <= config.transaction_budget_bytes <= 10000000 && 0 < config.transaction_timeout_ms
        <= 2147483647
}

/// A provider is offered, created and reopened exactly under the schema of
/// this workspace and a policy within the native limits, and created only
/// afresh. It is bound to the namespace of its store.
pub proof fn stores_are_bound_under_their_schema(
    schema: ProviderSchemaV1,
    digest: [u8; 32],
    intent: CreateRecoveryIntentV1,
    identity: MetadataStoreIdentity,
    config: FoundationDbProviderConfig,
    offered: Result<ProviderCapabilities, ProviderError>,
    created: Result<Vec<u8>, ProviderError>,
    reopened: Result<Vec<u8>, ProviderError>,
)
    requires
        call_ensures(fdb_provider::contract_offer, (config, &schema, &digest), offered),
        call_ensures(
            fdb_provider::create,
            (&schema, &digest, intent, identity, config),
            created,
        ),
        call_ensures(fdb_provider::reopen, (&schema, &digest, identity, config), reopened),
    ensures
        offered is Ok <==> is_own_schema(schema, digest@) && is_native(config),
        created is Ok <==> is_own_schema(schema, digest@) && is_native(config) && intent
            == CreateRecoveryIntentV1::Fresh,
        reopened is Ok <==> is_own_schema(schema, digest@) && is_native(config),
        offered matches Ok(capabilities) ==> capabilities == fdb_provider::capabilities_of(config),
        created matches Ok(namespace) ==> namespace@ == fdb_keys::namespace_of(identity),
        reopened matches Ok(namespace) ==> namespace@ == fdb_keys::namespace_of(identity),
        !is_own_schema(schema, digest@) ==> created->Err_0@.kind == ProviderErrorKind::Schema
            && reopened->Err_0@.kind == ProviderErrorKind::Schema && offered->Err_0@.kind
            == ProviderErrorKind::Schema,
        is_own_schema(schema, digest@) && !is_native(config) ==> reopened->Err_0@.kind
            == ProviderErrorKind::InvalidPlan && offered->Err_0@.kind
            == ProviderErrorKind::InvalidPlan,
{
}

/// A native timeout is that of the policy, wherever it fits.
pub proof fn timeouts_are_those_of_the_policy(
    config: FoundationDbProviderConfig,
    timeout: Result<i32, ProviderError>,
)
    requires
        call_ensures(FoundationDbProviderConfig::native_timeout, (config,), timeout),
    ensures
        config.transaction_timeout_ms <= 2147483647 ==> (timeout matches Ok(milliseconds)
            && milliseconds == config.transaction_timeout_ms),
        config.transaction_timeout_ms > 2147483647 ==> timeout is Err,
{
}

/// A record stands at the namespace, the two bytes of its space and its key;
/// it can be read exactly when the space is known and the key has at most 9920
/// bytes.
pub proof fn records_stand_below_their_space(
    namespace: &[u8],
    space: OrderedSpaceId,
    key: &[u8],
    physical: Result<Vec<u8>, ProviderError>,
)
    requires
        call_ensures(fdb_provider::point_read_key, (namespace, space, key), physical),
    ensures
        physical is Ok <==> provider_catalog::is_space(space) && key@.len() <= 9920,
        physical matches Ok(at) ==> at@ == namespace@ + bytes::be16(space) + key@,
{
}

/// The range of a prefix holds exactly the keys that start with the namespace,
/// the space and the prefix.
pub proof fn ranges_hold_their_prefix(
    namespace: &[u8],
    space: OrderedSpaceId,
    prefix: &[u8],
    range: Result<(Vec<u8>, Vec<u8>), ProviderError>,
    key: Seq<u8>,
)
    requires
        call_ensures(fdb_provider::prefix_range, (namespace, space, prefix), range),
    ensures
        range matches Ok((begin, end)) ==> (bytes::has_prefix(
            key,
            namespace@ + bytes::be16(space) + prefix@,
        ) <==> !bytes::lex_less(key, begin@) && bytes::lex_less(key, end@)),
{
    fdb_keys::prefix_range_is_exact(namespace@ + bytes::be16(space) + prefix@, key);
}

/// A stored value is read as what stands behind its version, with all of it as
/// its witness.
pub proof fn records_are_read_with_their_version(
    token: ProviderInstanceToken,
    stored: Vec<u8>,
    record: Result<ProviderRecord, ProviderError>,
)
    requires
        call_ensures(fdb_provider::record, (token, stored), record),
    ensures
        record is Ok <==> stored@.len() >= 11 && stored@[0] == 1,
        record matches Ok(read) ==> read@.value == stored@.subrange(11, stored@.len() as int)
            && read@.witness.version == stored@ && read@.witness.issuer == token,
{
    if stored@.len() >= 11 {
        assert(stored@.skip(11) =~= stored@.subrange(11, stored@.len() as int));
    }
}

/// A runtime that does not run is not available. A failure to read is one of
/// availability where it can be retried.
pub proof fn failures_are_told_by_whether_they_pass(
    running: bool,
    runtime: Result<(), ProviderError>,
    description: &str,
    retryable: bool,
    code: i32,
    message: &str,
    read: ProviderError,
)
    requires
        call_ensures(fdb_provider::validate_runtime, (running,), runtime),
        call_ensures(fdb_provider::read_error, (description, retryable, code, message), read),
    ensures
        runtime is Ok <==> running,
        runtime matches Err(error) ==> error@.kind == ProviderErrorKind::Unavailable
            && error@.operation == ProviderOperationV1::ValidateRuntime,
        read@.kind == (if retryable {
            ProviderErrorKind::Unavailable
        } else {
            ProviderErrorKind::Backend
        }),
{
}

} // verus!
