//! When a Holt store may be created, reopened and handed out, and what a
//! failure of it is told as.

use vstd::prelude::*;

use crate::holt_provider;
use crate::holt_provider::{
    FactoryLocation, HoltErrorClass, HoltStoreObjectIdentity, PendingRecoveryRefusal,
    PreopenCreateIdentity, ReservedState, ReservedStep, StoreLocation,
};
use crate::provider::{
    CreateRecoveryIntentV1, ProviderError, ProviderErrorKind, ProviderOperationV1,
};

verus! {

/// A store is created exactly where there is nothing or an empty directory,
/// and reopened exactly where there is a directory; elsewhere the schema is
/// wrong.
pub proof fn stores_are_opened_in_their_place(
    location: StoreLocation,
    fresh: Result<(), ProviderError>,
    existing: Result<(), ProviderError>,
)
    requires
        call_ensures(holt_provider::require_fresh_location, (location,), fresh),
        call_ensures(holt_provider::require_existing_location, (location,), existing),
    ensures
        fresh is Ok <==> location == StoreLocation::Missing || location
            == StoreLocation::EmptyDirectory,
        existing is Ok <==> location == StoreLocation::EmptyDirectory || location
            == StoreLocation::OccupiedDirectory,
        fresh matches Err(error) ==> error@.kind == ProviderErrorKind::Schema,
        existing matches Err(error) ==> error@.kind == ProviderErrorKind::Schema,
{
}

/// A factory creates a store exactly when none is reserved and the creation is
/// a fresh one, reopens one exactly at a path, and recovers one exactly when
/// it is reserved, under the schema and the installation of the command.
pub proof fn factories_open_what_they_have(
    location: FactoryLocation,
    intent: CreateRecoveryIntentV1,
    schema_valid: bool,
    installation_matches: bool,
    create: Result<(), ProviderError>,
    reopen: Result<(), ProviderError>,
    recover: Result<(), PendingRecoveryRefusal>,
)
    requires
        call_ensures(holt_provider::require_create, (location, intent), create),
        call_ensures(holt_provider::require_reopen, (location,), reopen),
        call_ensures(
            holt_provider::require_pending_recovery,
            (location, schema_valid, installation_matches),
            recover,
        ),
    ensures
        create is Ok <==> location != FactoryLocation::ReservedExisting && intent
            == CreateRecoveryIntentV1::Fresh,
        create matches Err(error) ==> error@.kind == ProviderErrorKind::AuthorityMismatch
            && error@.operation == ProviderOperationV1::Create,
        reopen is Ok <==> location == FactoryLocation::File,
        reopen matches Err(error) ==> error@.kind == ProviderErrorKind::AuthorityMismatch
            && error@.operation == ProviderOperationV1::Reopen,
        recover is Ok <==> location == FactoryLocation::ReservedExisting && schema_valid
            && installation_matches,
        recover == Err::<(), PendingRecoveryRefusal>(PendingRecoveryRefusal::Unsupported)
            <==> location != FactoryLocation::ReservedExisting,
{
}

/// Held objects are the expected ones exactly when they lie at the same place
/// and the directory and the lock have the same devices and inodes.
pub proof fn held_objects_are_compared_whole(
    expected: HoltStoreObjectIdentity,
    current: HoltStoreObjectIdentity,
    operation: ProviderOperationV1,
    result: Result<(), ProviderError>,
)
    requires
        call_ensures(
            holt_provider::require_identity,
            (&expected, &current, operation),
            result,
        ),
    ensures
        result is Ok <==> {
            &&& current.canonical_locator@ == expected.canonical_locator@
            &&& current.directory_device == expected.directory_device
            &&& current.directory_inode == expected.directory_inode
            &&& current.lock_device == expected.lock_device
            &&& current.lock_inode == expected.lock_inode
        },
        result matches Err(error) ==> error@.kind == ProviderErrorKind::AuthorityMismatch
            && error@.operation == operation,
{
}

/// The held objects of an open store are known exactly when both reports of
/// them are there and agree.
pub proof fn held_objects_are_reported_twice(
    opened: Option<HoltStoreObjectIdentity>,
    validated: Option<HoltStoreObjectIdentity>,
    operation: ProviderOperationV1,
    result: Result<HoltStoreObjectIdentity, ProviderError>,
)
    requires
        call_ensures(holt_provider::held_identity, (opened, validated, operation), result),
    ensures
        result is Ok <==> opened is Some && validated is Some && opened->0.canonical_locator@
            == validated->0.canonical_locator@ && opened->0.directory_device
            == validated->0.directory_device && opened->0.directory_inode
            == validated->0.directory_inode && opened->0.lock_device == validated->0.lock_device
            && opened->0.lock_inode == validated->0.lock_inode,
        result matches Ok(identity) ==> validated == Some(identity),
        result matches Err(error) ==> error@.kind == ProviderErrorKind::AuthorityMismatch
            && error@.operation == operation,
{
}

/// A created store is accepted exactly when it lies where it was meant to lie,
/// in the directory that was there, if one was.
pub proof fn created_stores_lie_in_their_directory(
    before: PreopenCreateIdentity,
    after: HoltStoreObjectIdentity,
    result: Result<(), ProviderError>,
)
    requires
        call_ensures(PreopenCreateIdentity::validate_after, (&before, &after), result),
    ensures
        result is Ok <==> {
            &&& after.canonical_locator@ == before.canonical_locator@
            &&& before.existing_directory is None || before.existing_directory == Some(
                (after.directory_device, after.directory_inode),
            )
        },
{
}

/// A reserved store is opened, then handed out, then refused; a step that
/// failed is to be done again.
pub proof fn reserved_stores_are_opened_then_delivered(state: ReservedState, done: bool)
    ensures
        ReservedState::Ready.next() == ReservedStep::Adopt,
        ReservedState::Opened.next() == ReservedStep::Deliver,
        ReservedState::Delivered.next() == ReservedStep::Refuse,
        ReservedState::Ready.after(true) == ReservedState::Opened,
        ReservedState::Opened.after(true) == ReservedState::Delivered,
        ReservedState::Delivered.after(done) == ReservedState::Delivered,
        state.after(false) == state,
{
}

/// A failure to check held objects is one of authority where they are not the
/// expected ones or may not be used, one of availability where storage fails
/// otherwise, and anything else carries its text. A failure to read is one of
/// availability wherever storage fails.
pub proof fn native_failures_are_told_by_their_class(
    operation: ProviderOperationV1,
    description: &str,
    class: HoltErrorClass,
    message: &str,
    held: ProviderError,
    read: ProviderError,
)
    requires
        call_ensures(holt_provider::held_store_error, (operation, class, message), held),
        call_ensures(holt_provider::read_error, (description, class, message), read),
    ensures
        held@.operation == operation,
        held@.kind == (match class {
            HoltErrorClass::IdentityMismatch => ProviderErrorKind::AuthorityMismatch,
            HoltErrorClass::StorageRefused => ProviderErrorKind::AuthorityMismatch,
            HoltErrorClass::Storage => ProviderErrorKind::Unavailable,
            HoltErrorClass::Other => ProviderErrorKind::Backend,
        }),
        read@.kind == (match class {
            HoltErrorClass::IdentityMismatch => ProviderErrorKind::Backend,
            HoltErrorClass::StorageRefused => ProviderErrorKind::Unavailable,
            HoltErrorClass::Storage => ProviderErrorKind::Unavailable,
            HoltErrorClass::Other => ProviderErrorKind::Backend,
        }),
        held@.kind == ProviderErrorKind::Backend ==> held@.detail == message@,
        read@.kind == ProviderErrorKind::Backend ==> read@.detail == message@,
{
}

} // verus!
