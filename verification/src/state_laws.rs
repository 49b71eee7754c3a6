//! Durable bytes of states and kinds: each has one byte, counted from one in
//! the order of its life, and is read back from it and from no other.

use vstd::prelude::*;

use crate::generic_index_records::GenericIndexOperator;
use crate::publish_records::PublishTerminalErrorKind;
use crate::query_cursor::CursorKind;
use crate::states::{
    GenericIndexGenerationState, GenericIndexReferenceKind, GenericIndexRegistrationPhase,
    PublishPhase, RootActivationState, StagedCleanupState, StagedProviderState, WorkspaceState,
};

verus! {

/// The values of `RootActivationState` are numbered from one in their order, a byte is
/// read as the value with that number, and no other byte is read.
pub proof fn root_activation_state_bytes_are_its_numbers(value: RootActivationState, byte: u8)
    ensures
        RootActivationState::of_byte(byte) is Some <==> 1 <= byte <= 2,
        RootActivationState::of_byte(byte) == Some(value) <==> value.byte() == byte,
        RootActivationState::Installing.byte() == 1,
        RootActivationState::Active.byte() == 2,
{
}

/// The values of `WorkspaceState` are numbered from one in their order, a byte is
/// read as the value with that number, and no other byte is read.
pub proof fn workspace_state_bytes_are_its_numbers(value: WorkspaceState, byte: u8)
    ensures
        WorkspaceState::of_byte(byte) is Some <==> 1 <= byte <= 3,
        WorkspaceState::of_byte(byte) == Some(value) <==> value.byte() == byte,
        WorkspaceState::Staging.byte() == 1,
        WorkspaceState::Visible.byte() == 2,
        WorkspaceState::Retired.byte() == 3,
{
}

/// The values of `PublishPhase` are numbered from one in their order, a byte is
/// read as the value with that number, and no other byte is read.
pub proof fn publish_phase_bytes_are_its_numbers(value: PublishPhase, byte: u8)
    ensures
        PublishPhase::of_byte(byte) is Some <==> 1 <= byte <= 7,
        PublishPhase::of_byte(byte) == Some(value) <==> value.byte() == byte,
        PublishPhase::Uploading.byte() == 1,
        PublishPhase::Finalizing.byte() == 2,
        PublishPhase::Published.byte() == 3,
        PublishPhase::Aborting.byte() == 4,
        PublishPhase::Cleaning.byte() == 5,
        PublishPhase::Cleaned.byte() == 6,
        PublishPhase::Quarantined.byte() == 7,
{
}

/// The values of `StagedProviderState` are numbered from one in their order, a byte is
/// read as the value with that number, and no other byte is read.
pub proof fn staged_provider_state_bytes_are_its_numbers(value: StagedProviderState, byte: u8)
    ensures
        StagedProviderState::of_byte(byte) is Some <==> 1 <= byte <= 6,
        StagedProviderState::of_byte(byte) == Some(value) <==> value.byte() == byte,
        StagedProviderState::Planned.byte() == 1,
        StagedProviderState::Uploading.byte() == 2,
        StagedProviderState::Uploaded.byte() == 3,
        StagedProviderState::AbortPending.byte() == 4,
        StagedProviderState::Aborted.byte() == 5,
        StagedProviderState::Ambiguous.byte() == 6,
{
}

/// The values of `StagedCleanupState` are numbered from one in their order, a byte is
/// read as the value with that number, and no other byte is read.
pub proof fn staged_cleanup_state_bytes_are_its_numbers(value: StagedCleanupState, byte: u8)
    ensures
        StagedCleanupState::of_byte(byte) is Some <==> 1 <= byte <= 4,
        StagedCleanupState::of_byte(byte) == Some(value) <==> value.byte() == byte,
        StagedCleanupState::Owned.byte() == 1,
        StagedCleanupState::DeletePending.byte() == 2,
        StagedCleanupState::Deleted.byte() == 3,
        StagedCleanupState::Quarantined.byte() == 4,
{
}

/// The values of `GenericIndexGenerationState` are numbered from one in their order, a byte is
/// read as the value with that number, and no other byte is read.
pub proof fn generic_index_generation_state_bytes_are_its_numbers(
    value: GenericIndexGenerationState,
    byte: u8,
)
    ensures
        GenericIndexGenerationState::of_byte(byte) is Some <==> 1 <= byte <= 4,
        GenericIndexGenerationState::of_byte(byte) == Some(value) <==> value.byte() == byte,
        GenericIndexGenerationState::Building.byte() == 1,
        GenericIndexGenerationState::Sealed.byte() == 2,
        GenericIndexGenerationState::Retiring.byte() == 3,
        GenericIndexGenerationState::Retired.byte() == 4,
{
}

/// The values of `GenericIndexReferenceKind` are numbered from one in their order, a byte is
/// read as the value with that number, and no other byte is read.
pub proof fn generic_index_reference_kind_bytes_are_its_numbers(
    value: GenericIndexReferenceKind,
    byte: u8,
)
    ensures
        GenericIndexReferenceKind::of_byte(byte) is Some <==> 1 <= byte <= 5,
        GenericIndexReferenceKind::of_byte(byte) == Some(value) <==> value.byte() == byte,
        GenericIndexReferenceKind::Current.byte() == 1,
        GenericIndexReferenceKind::Commit.byte() == 2,
        GenericIndexReferenceKind::BuildCommit.byte() == 3,
        GenericIndexReferenceKind::Restore.byte() == 4,
        GenericIndexReferenceKind::Registration.byte() == 5,
{
}

/// The values of `GenericIndexRegistrationPhase` are numbered from one in their order, a byte is
/// read as the value with that number, and no other byte is read.
pub proof fn generic_index_registration_phase_bytes_are_its_numbers(
    value: GenericIndexRegistrationPhase,
    byte: u8,
)
    ensures
        GenericIndexRegistrationPhase::of_byte(byte) is Some <==> 1 <= byte <= 6,
        GenericIndexRegistrationPhase::of_byte(byte) == Some(value) <==> value.byte() == byte,
        GenericIndexRegistrationPhase::Preparing.byte() == 1,
        GenericIndexRegistrationPhase::Appending.byte() == 2,
        GenericIndexRegistrationPhase::Sealing.byte() == 3,
        GenericIndexRegistrationPhase::Publishing.byte() == 4,
        GenericIndexRegistrationPhase::Complete.byte() == 5,
        GenericIndexRegistrationPhase::Quarantined.byte() == 6,
{
}

/// The values of `CursorKind` are numbered from one in their order, a byte is
/// read as the value with that number, and no other byte is read.
pub proof fn cursor_kind_bytes_are_its_numbers(value: CursorKind, byte: u8)
    ensures
        CursorKind::of_byte(byte) is Some <==> 1 <= byte <= 5,
        CursorKind::of_byte(byte) == Some(value) <==> value.byte() == byte,
        CursorKind::Search.byte() == 1,
        CursorKind::Aggregate.byte() == 2,
        CursorKind::Catalog.byte() == 3,
        CursorKind::Find.byte() == 4,
        CursorKind::Changes.byte() == 5,
{
}

/// The values of `PublishTerminalErrorKind` are numbered from one in their order, a byte is
/// read as the value with that number, and no other byte is read.
pub proof fn publish_terminal_error_kind_bytes_are_its_numbers(
    value: PublishTerminalErrorKind,
    byte: u8,
)
    ensures
        PublishTerminalErrorKind::of_byte(byte) is Some <==> 1 <= byte <= 9,
        PublishTerminalErrorKind::of_byte(byte) == Some(value) <==> value.byte() == byte,
        PublishTerminalErrorKind::UploadFailed.byte() == 1,
        PublishTerminalErrorKind::VerificationFailed.byte() == 2,
        PublishTerminalErrorKind::PublishConflict.byte() == 3,
        PublishTerminalErrorKind::AbortedByCaller.byte() == 4,
        PublishTerminalErrorKind::ProviderAmbiguous.byte() == 5,
        PublishTerminalErrorKind::InvariantViolation.byte() == 6,
        PublishTerminalErrorKind::CleanupFailed.byte() == 7,
        PublishTerminalErrorKind::OwnerEpochSuperseded.byte() == 8,
        PublishTerminalErrorKind::ActivityLeaseExpired.byte() == 9,
{
}

/// The values of `GenericIndexOperator` are numbered from one in their order, a byte is
/// read as the value with that number, and no other byte is read.
pub proof fn generic_index_operator_bytes_are_its_numbers(value: GenericIndexOperator, byte: u8)
    ensures
        GenericIndexOperator::of_byte(byte) is Some <==> 1 <= byte <= 12,
        GenericIndexOperator::of_byte(byte) == Some(value) <==> value.byte() == byte,
        GenericIndexOperator::Equal.byte() == 1,
        GenericIndexOperator::NotEqual.byte() == 2,
        GenericIndexOperator::In.byte() == 3,
        GenericIndexOperator::Prefix.byte() == 4,
        GenericIndexOperator::Suffix.byte() == 5,
        GenericIndexOperator::Contains.byte() == 6,
        GenericIndexOperator::Greater.byte() == 7,
        GenericIndexOperator::GreaterOrEqual.byte() == 8,
        GenericIndexOperator::Less.byte() == 9,
        GenericIndexOperator::LessOrEqual.byte() == 10,
        GenericIndexOperator::Exists.byte() == 11,
        GenericIndexOperator::NotExists.byte() == 12,
{
}

} // verus!
