//! Durable lifecycle states and their one-byte discriminants.

use vstd::prelude::*;

verus! {

/// A byte that names no state of the type.
#[derive(Clone, Copy, Debug, PartialEq, Eq)]
pub struct UnknownDurableDiscriminant {
    pub durable_type: &'static str,
    pub value: u8,
}

/// Activation of one installed root.
#[derive(Clone, Copy, Debug, PartialEq, Eq, PartialOrd, Ord, Hash, Structural)]
pub enum RootActivationState {
    Installing,
    Active,
}

impl RootActivationState {
    /// Name of this type in a discriminant error.
    pub open spec fn durable_type() -> &'static str {
        "RootActivationState"
    }

    /// Durable byte of this state.
    pub open spec fn byte(self) -> u8 {
        match self {
            Self::Installing => 1,
            Self::Active => 2,
        }
    }

    /// The state with this durable byte.
    pub open spec fn of_byte(value: u8) -> Option<Self> {
        if value == 1 {
            Some(Self::Installing)
        } else if value == 2 {
            Some(Self::Active)
        } else {
            None
        }
    }

    /// Durable byte of this state.
    pub fn to_byte(self) -> (value: u8)
        ensures
            value == self.byte(),
            Self::of_byte(value) == Some(self),
    {
        match self {
            Self::Installing => 1,
            Self::Active => 2,
        }
    }

    /// The state with this durable byte.
    pub fn try_from(value: u8) -> (state: Result<Self, UnknownDurableDiscriminant>)
        ensures
            state matches Ok(s) ==> Self::of_byte(value) == Some(s) && s.byte() == value,
            state matches Err(e) ==> Self::of_byte(value) is None && e
                == (UnknownDurableDiscriminant { durable_type: Self::durable_type(), value }),
    {
        match value {
            1 => Ok(Self::Installing),
            2 => Ok(Self::Active),
            _ => Err(UnknownDurableDiscriminant { durable_type: "RootActivationState", value }),
        }
    }
}

/// Lifecycle of one workspace.
#[derive(Clone, Copy, Debug, PartialEq, Eq, PartialOrd, Ord, Hash, Structural)]
pub enum WorkspaceState {
    Staging,
    Visible,
    Retired,
}

impl WorkspaceState {
    /// Name of this type in a discriminant error.
    pub open spec fn durable_type() -> &'static str {
        "WorkspaceState"
    }

    /// Durable byte of this state.
    pub open spec fn byte(self) -> u8 {
        match self {
            Self::Staging => 1,
            Self::Visible => 2,
            Self::Retired => 3,
        }
    }

    /// The state with this durable byte.
    pub open spec fn of_byte(value: u8) -> Option<Self> {
        if value == 1 {
            Some(Self::Staging)
        } else if value == 2 {
            Some(Self::Visible)
        } else if value == 3 {
            Some(Self::Retired)
        } else {
            None
        }
    }

    /// Durable byte of this state.
    pub fn to_byte(self) -> (value: u8)
        ensures
            value == self.byte(),
            Self::of_byte(value) == Some(self),
    {
        match self {
            Self::Staging => 1,
            Self::Visible => 2,
            Self::Retired => 3,
        }
    }

    /// The state with this durable byte.
    pub fn try_from(value: u8) -> (state: Result<Self, UnknownDurableDiscriminant>)
        ensures
            state matches Ok(s) ==> Self::of_byte(value) == Some(s) && s.byte() == value,
            state matches Err(e) ==> Self::of_byte(value) is None && e
                == (UnknownDurableDiscriminant { durable_type: Self::durable_type(), value }),
    {
        match value {
            1 => Ok(Self::Staging),
            2 => Ok(Self::Visible),
            3 => Ok(Self::Retired),
            _ => Err(UnknownDurableDiscriminant { durable_type: "WorkspaceState", value }),
        }
    }
}

/// Phase of one publish operation.
#[derive(Clone, Copy, Debug, PartialEq, Eq, PartialOrd, Ord, Hash, Structural)]
pub enum PublishPhase {
    Uploading,
    Finalizing,
    Published,
    Aborting,
    Cleaning,
    Cleaned,
    Quarantined,
}

impl PublishPhase {
    /// Name of this state in diagnostics.
    pub open spec fn name(self) -> &'static str {
        match self {
            Self::Uploading => "Uploading",
            Self::Finalizing => "Finalizing",
            Self::Published => "Published",
            Self::Aborting => "Aborting",
            Self::Cleaning => "Cleaning",
            Self::Cleaned => "Cleaned",
            Self::Quarantined => "Quarantined",
        }
    }

    /// Name of this state in diagnostics.
    pub fn label(self) -> (name: &'static str)
        ensures
            name == self.name(),
    {
        match self {
            Self::Uploading => "Uploading",
            Self::Finalizing => "Finalizing",
            Self::Published => "Published",
            Self::Aborting => "Aborting",
            Self::Cleaning => "Cleaning",
            Self::Cleaned => "Cleaned",
            Self::Quarantined => "Quarantined",
        }
    }

    /// Name of this type in a discriminant error.
    pub open spec fn durable_type() -> &'static str {
        "PublishPhase"
    }

    /// Durable byte of this state.
    pub open spec fn byte(self) -> u8 {
        match self {
            Self::Uploading => 1,
            Self::Finalizing => 2,
            Self::Published => 3,
            Self::Aborting => 4,
            Self::Cleaning => 5,
            Self::Cleaned => 6,
            Self::Quarantined => 7,
        }
    }

    /// The state with this durable byte.
    pub open spec fn of_byte(value: u8) -> Option<Self> {
        if value == 1 {
            Some(Self::Uploading)
        } else if value == 2 {
            Some(Self::Finalizing)
        } else if value == 3 {
            Some(Self::Published)
        } else if value == 4 {
            Some(Self::Aborting)
        } else if value == 5 {
            Some(Self::Cleaning)
        } else if value == 6 {
            Some(Self::Cleaned)
        } else if value == 7 {
            Some(Self::Quarantined)
        } else {
            None
        }
    }

    /// Durable byte of this state.
    pub fn to_byte(self) -> (value: u8)
        ensures
            value == self.byte(),
            Self::of_byte(value) == Some(self),
    {
        match self {
            Self::Uploading => 1,
            Self::Finalizing => 2,
            Self::Published => 3,
            Self::Aborting => 4,
            Self::Cleaning => 5,
            Self::Cleaned => 6,
            Self::Quarantined => 7,
        }
    }

    /// The state with this durable byte.
    pub fn try_from(value: u8) -> (state: Result<Self, UnknownDurableDiscriminant>)
        ensures
            state matches Ok(s) ==> Self::of_byte(value) == Some(s) && s.byte() == value,
            state matches Err(e) ==> Self::of_byte(value) is None && e
                == (UnknownDurableDiscriminant { durable_type: Self::durable_type(), value }),
    {
        match value {
            1 => Ok(Self::Uploading),
            2 => Ok(Self::Finalizing),
            3 => Ok(Self::Published),
            4 => Ok(Self::Aborting),
            5 => Ok(Self::Cleaning),
            6 => Ok(Self::Cleaned),
            7 => Ok(Self::Quarantined),
            _ => Err(UnknownDurableDiscriminant { durable_type: "PublishPhase", value }),
        }
    }
}

/// Object-store state of one staged object.
#[derive(Clone, Copy, Debug, PartialEq, Eq, PartialOrd, Ord, Hash, Structural)]
pub enum StagedProviderState {
    Planned,
    Uploading,
    Uploaded,
    AbortPending,
    Aborted,
    Ambiguous,
}

impl StagedProviderState {
    /// Name of this state in diagnostics.
    pub open spec fn name(self) -> &'static str {
        match self {
            Self::Planned => "Planned",
            Self::Uploading => "Uploading",
            Self::Uploaded => "Uploaded",
            Self::AbortPending => "AbortPending",
            Self::Aborted => "Aborted",
            Self::Ambiguous => "Ambiguous",
        }
    }

    /// Name of this state in diagnostics.
    pub fn label(self) -> (name: &'static str)
        ensures
            name == self.name(),
    {
        match self {
            Self::Planned => "Planned",
            Self::Uploading => "Uploading",
            Self::Uploaded => "Uploaded",
            Self::AbortPending => "AbortPending",
            Self::Aborted => "Aborted",
            Self::Ambiguous => "Ambiguous",
        }
    }

    /// Name of this type in a discriminant error.
    pub open spec fn durable_type() -> &'static str {
        "StagedProviderState"
    }

    /// Durable byte of this state.
    pub open spec fn byte(self) -> u8 {
        match self {
            Self::Planned => 1,
            Self::Uploading => 2,
            Self::Uploaded => 3,
            Self::AbortPending => 4,
            Self::Aborted => 5,
            Self::Ambiguous => 6,
        }
    }

    /// The state with this durable byte.
    pub open spec fn of_byte(value: u8) -> Option<Self> {
        if value == 1 {
            Some(Self::Planned)
        } else if value == 2 {
            Some(Self::Uploading)
        } else if value == 3 {
            Some(Self::Uploaded)
        } else if value == 4 {
            Some(Self::AbortPending)
        } else if value == 5 {
            Some(Self::Aborted)
        } else if value == 6 {
            Some(Self::Ambiguous)
        } else {
            None
        }
    }

    /// Durable byte of this state.
    pub fn to_byte(self) -> (value: u8)
        ensures
            value == self.byte(),
            Self::of_byte(value) == Some(self),
    {
        match self {
            Self::Planned => 1,
            Self::Uploading => 2,
            Self::Uploaded => 3,
            Self::AbortPending => 4,
            Self::Aborted => 5,
            Self::Ambiguous => 6,
        }
    }

    /// The state with this durable byte.
    pub fn try_from(value: u8) -> (state: Result<Self, UnknownDurableDiscriminant>)
        ensures
            state matches Ok(s) ==> Self::of_byte(value) == Some(s) && s.byte() == value,
            state matches Err(e) ==> Self::of_byte(value) is None && e
                == (UnknownDurableDiscriminant { durable_type: Self::durable_type(), value }),
    {
        match value {
            1 => Ok(Self::Planned),
            2 => Ok(Self::Uploading),
            3 => Ok(Self::Uploaded),
            4 => Ok(Self::AbortPending),
            5 => Ok(Self::Aborted),
            6 => Ok(Self::Ambiguous),
            _ => Err(UnknownDurableDiscriminant { durable_type: "StagedProviderState", value }),
        }
    }
}

/// Ownership state of one staged object.
#[derive(Clone, Copy, Debug, PartialEq, Eq, PartialOrd, Ord, Hash, Structural)]
pub enum StagedCleanupState {
    Owned,
    DeletePending,
    Deleted,
    Quarantined,
}

impl StagedCleanupState {
    /// Name of this state in diagnostics.
    pub open spec fn name(self) -> &'static str {
        match self {
            Self::Owned => "Owned",
            Self::DeletePending => "DeletePending",
            Self::Deleted => "Deleted",
            Self::Quarantined => "Quarantined",
        }
    }

    /// Name of this state in diagnostics.
    pub fn label(self) -> (name: &'static str)
        ensures
            name == self.name(),
    {
        match self {
            Self::Owned => "Owned",
            Self::DeletePending => "DeletePending",
            Self::Deleted => "Deleted",
            Self::Quarantined => "Quarantined",
        }
    }

    /// Name of this type in a discriminant error.
    pub open spec fn durable_type() -> &'static str {
        "StagedCleanupState"
    }

    /// Durable byte of this state.
    pub open spec fn byte(self) -> u8 {
        match self {
            Self::Owned => 1,
            Self::DeletePending => 2,
            Self::Deleted => 3,
            Self::Quarantined => 4,
        }
    }

    /// The state with this durable byte.
    pub open spec fn of_byte(value: u8) -> Option<Self> {
        if value == 1 {
            Some(Self::Owned)
        } else if value == 2 {
            Some(Self::DeletePending)
        } else if value == 3 {
            Some(Self::Deleted)
        } else if value == 4 {
            Some(Self::Quarantined)
        } else {
            None
        }
    }

    /// Durable byte of this state.
    pub fn to_byte(self) -> (value: u8)
        ensures
            value == self.byte(),
            Self::of_byte(value) == Some(self),
    {
        match self {
            Self::Owned => 1,
            Self::DeletePending => 2,
            Self::Deleted => 3,
            Self::Quarantined => 4,
        }
    }

    /// The state with this durable byte.
    pub fn try_from(value: u8) -> (state: Result<Self, UnknownDurableDiscriminant>)
        ensures
            state matches Ok(s) ==> Self::of_byte(value) == Some(s) && s.byte() == value,
            state matches Err(e) ==> Self::of_byte(value) is None && e
                == (UnknownDurableDiscriminant { durable_type: Self::durable_type(), value }),
    {
        match value {
            1 => Ok(Self::Owned),
            2 => Ok(Self::DeletePending),
            3 => Ok(Self::Deleted),
            4 => Ok(Self::Quarantined),
            _ => Err(UnknownDurableDiscriminant { durable_type: "StagedCleanupState", value }),
        }
    }
}

/// Lifetime state of one generic index generation.
#[derive(Clone, Copy, Debug, PartialEq, Eq, PartialOrd, Ord, Hash, Structural)]
pub enum GenericIndexGenerationState {
    Building,
    Sealed,
    Retiring,
    Retired,
}

impl GenericIndexGenerationState {
    /// Name of this type in a discriminant error.
    pub open spec fn durable_type() -> &'static str {
        "GenericIndexGenerationState"
    }

    /// Durable byte of this state.
    pub open spec fn byte(self) -> u8 {
        match self {
            Self::Building => 1,
            Self::Sealed => 2,
            Self::Retiring => 3,
            Self::Retired => 4,
        }
    }

    /// The state with this durable byte.
    pub open spec fn of_byte(value: u8) -> Option<Self> {
        if value == 1 {
            Some(Self::Building)
        } else if value == 2 {
            Some(Self::Sealed)
        } else if value == 3 {
            Some(Self::Retiring)
        } else if value == 4 {
            Some(Self::Retired)
        } else {
            None
        }
    }

    /// Durable byte of this state.
    pub fn to_byte(self) -> (value: u8)
        ensures
            value == self.byte(),
            Self::of_byte(value) == Some(self),
    {
        match self {
            Self::Building => 1,
            Self::Sealed => 2,
            Self::Retiring => 3,
            Self::Retired => 4,
        }
    }

    /// The state with this durable byte.
    pub fn try_from(value: u8) -> (state: Result<Self, UnknownDurableDiscriminant>)
        ensures
            state matches Ok(s) ==> Self::of_byte(value) == Some(s) && s.byte() == value,
            state matches Err(e) ==> Self::of_byte(value) is None && e
                == (UnknownDurableDiscriminant { durable_type: Self::durable_type(), value }),
    {
        match value {
            1 => Ok(Self::Building),
            2 => Ok(Self::Sealed),
            3 => Ok(Self::Retiring),
            4 => Ok(Self::Retired),
            _ => Err(UnknownDurableDiscriminant { durable_type: "GenericIndexGenerationState", value }),
        }
    }
}

/// Owner kind of one generic index reference.
#[derive(Clone, Copy, Debug, PartialEq, Eq, PartialOrd, Ord, Hash, Structural)]
pub enum GenericIndexReferenceKind {
    Current,
    Commit,
    BuildCommit,
    Restore,
    Registration,
}

impl GenericIndexReferenceKind {
    /// Name of this type in a discriminant error.
    pub open spec fn durable_type() -> &'static str {
        "GenericIndexReferenceKind"
    }

    /// Durable byte of this state.
    pub open spec fn byte(self) -> u8 {
        match self {
            Self::Current => 1,
            Self::Commit => 2,
            Self::BuildCommit => 3,
            Self::Restore => 4,
            Self::Registration => 5,
        }
    }

    /// The state with this durable byte.
    pub open spec fn of_byte(value: u8) -> Option<Self> {
        if value == 1 {
            Some(Self::Current)
        } else if value == 2 {
            Some(Self::Commit)
        } else if value == 3 {
            Some(Self::BuildCommit)
        } else if value == 4 {
            Some(Self::Restore)
        } else if value == 5 {
            Some(Self::Registration)
        } else {
            None
        }
    }

    /// Durable byte of this state.
    pub fn to_byte(self) -> (value: u8)
        ensures
            value == self.byte(),
            Self::of_byte(value) == Some(self),
    {
        match self {
            Self::Current => 1,
            Self::Commit => 2,
            Self::BuildCommit => 3,
            Self::Restore => 4,
            Self::Registration => 5,
        }
    }

    /// The state with this durable byte.
    pub fn try_from(value: u8) -> (state: Result<Self, UnknownDurableDiscriminant>)
        ensures
            state matches Ok(s) ==> Self::of_byte(value) == Some(s) && s.byte() == value,
            state matches Err(e) ==> Self::of_byte(value) is None && e
                == (UnknownDurableDiscriminant { durable_type: Self::durable_type(), value }),
    {
        match value {
            1 => Ok(Self::Current),
            2 => Ok(Self::Commit),
            3 => Ok(Self::BuildCommit),
            4 => Ok(Self::Restore),
            5 => Ok(Self::Registration),
            _ => Err(UnknownDurableDiscriminant { durable_type: "GenericIndexReferenceKind", value }),
        }
    }
}

/// Phase of one generic index registration.
#[derive(Clone, Copy, Debug, PartialEq, Eq, PartialOrd, Ord, Hash, Structural)]
pub enum GenericIndexRegistrationPhase {
    Preparing,
    Appending,
    Sealing,
    Publishing,
    Complete,
    Quarantined,
}

impl GenericIndexRegistrationPhase {
    /// Name of this type in a discriminant error.
    pub open spec fn durable_type() -> &'static str {
        "GenericIndexRegistrationPhase"
    }

    /// Durable byte of this state.
    pub open spec fn byte(self) -> u8 {
        match self {
            Self::Preparing => 1,
            Self::Appending => 2,
            Self::Sealing => 3,
            Self::Publishing => 4,
            Self::Complete => 5,
            Self::Quarantined => 6,
        }
    }

    /// The state with this durable byte.
    pub open spec fn of_byte(value: u8) -> Option<Self> {
        if value == 1 {
            Some(Self::Preparing)
        } else if value == 2 {
            Some(Self::Appending)
        } else if value == 3 {
            Some(Self::Sealing)
        } else if value == 4 {
            Some(Self::Publishing)
        } else if value == 5 {
            Some(Self::Complete)
        } else if value == 6 {
            Some(Self::Quarantined)
        } else {
            None
        }
    }

    /// Durable byte of this state.
    pub fn to_byte(self) -> (value: u8)
        ensures
            value == self.byte(),
            Self::of_byte(value) == Some(self),
    {
        match self {
            Self::Preparing => 1,
            Self::Appending => 2,
            Self::Sealing => 3,
            Self::Publishing => 4,
            Self::Complete => 5,
            Self::Quarantined => 6,
        }
    }

    /// The state with this durable byte.
    pub fn try_from(value: u8) -> (state: Result<Self, UnknownDurableDiscriminant>)
        ensures
            state matches Ok(s) ==> Self::of_byte(value) == Some(s) && s.byte() == value,
            state matches Err(e) ==> Self::of_byte(value) is None && e
                == (UnknownDurableDiscriminant { durable_type: Self::durable_type(), value }),
    {
        match value {
            1 => Ok(Self::Preparing),
            2 => Ok(Self::Appending),
            3 => Ok(Self::Sealing),
            4 => Ok(Self::Publishing),
            5 => Ok(Self::Complete),
            6 => Ok(Self::Quarantined),
            _ => Err(UnknownDurableDiscriminant { durable_type: "GenericIndexRegistrationPhase", value }),
        }
    }
}

} // verus!
