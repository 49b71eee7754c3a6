//! Ordered 64-bit positions. Most of them are never zero.

use vstd::prelude::*;

verus! {

/// Zero given where a position must be non-zero.
#[derive(Clone, Copy, Debug, PartialEq, Eq, Structural)]
pub struct ZeroPosition;

/// Version installed by one metadata commit. Never zero.
#[derive(Clone, Copy, Debug, PartialEq, Eq, PartialOrd, Ord, Hash)]
pub struct CommitVersion {
    value: u64,
}

impl View for CommitVersion {
    type V = u64;

    closed spec fn view(&self) -> u64 {
        self.value
    }
}

impl CommitVersion {
    #[verifier::type_invariant]
    closed spec fn non_zero(self) -> bool {
        self.value != 0
    }

    /// The position `value`, which must not be zero.
    pub fn new(value: u64) -> (position: Result<Self, ZeroPosition>)
        ensures
            position is Ok <==> value != 0,
            position matches Ok(p) ==> p@ == value,
    {
        if value == 0 {
            Err(ZeroPosition)
        } else {
            Ok(Self { value })
        }
    }

    /// This position as an integer.
    pub fn get(self) -> (value: u64)
        ensures
            value == self@,
            value != 0,
    {
        proof {
            use_type_invariant(self);
        }
        self.value
    }
}

/// Version at which a read is fenced. Never zero.
#[derive(Clone, Copy, Debug, PartialEq, Eq, PartialOrd, Ord, Hash)]
pub struct ReadVersion {
    value: u64,
}

impl View for ReadVersion {
    type V = u64;

    closed spec fn view(&self) -> u64 {
        self.value
    }
}

impl ReadVersion {
    #[verifier::type_invariant]
    closed spec fn non_zero(self) -> bool {
        self.value != 0
    }

    /// The position `value`, which must not be zero.
    pub fn new(value: u64) -> (position: Result<Self, ZeroPosition>)
        ensures
            position is Ok <==> value != 0,
            position matches Ok(p) ==> p@ == value,
    {
        if value == 0 {
            Err(ZeroPosition)
        } else {
            Ok(Self { value })
        }
    }

    /// This position as an integer.
    pub fn get(self) -> (value: u64)
        ensures
            value == self@,
            value != 0,
    {
        proof {
            use_type_invariant(self);
        }
        self.value
    }
}

/// Generation of one mutable record. Never zero.
#[derive(Clone, Copy, Debug, PartialEq, Eq, PartialOrd, Ord, Hash)]
pub struct Generation {
    value: u64,
}

impl View for Generation {
    type V = u64;

    closed spec fn view(&self) -> u64 {
        self.value
    }
}

impl Generation {
    #[verifier::type_invariant]
    closed spec fn non_zero(self) -> bool {
        self.value != 0
    }

    /// The position `value`, which must not be zero.
    pub fn new(value: u64) -> (position: Result<Self, ZeroPosition>)
        ensures
            position is Ok <==> value != 0,
            position matches Ok(p) ==> p@ == value,
    {
        if value == 0 {
            Err(ZeroPosition)
        } else {
            Ok(Self { value })
        }
    }

    /// This position as an integer.
    pub fn get(self) -> (value: u64)
        ensures
            value == self@,
            value != 0,
    {
        proof {
            use_type_invariant(self);
        }
        self.value
    }
}

/// Generation of one root placement. Never zero.
#[derive(Clone, Copy, Debug, PartialEq, Eq, PartialOrd, Ord, Hash)]
pub struct PlacementGeneration {
    value: u64,
}

impl View for PlacementGeneration {
    type V = u64;

    closed spec fn view(&self) -> u64 {
        self.value
    }
}

impl PlacementGeneration {
    #[verifier::type_invariant]
    closed spec fn non_zero(self) -> bool {
        self.value != 0
    }

    /// The position `value`, which must not be zero.
    pub fn new(value: u64) -> (position: Result<Self, ZeroPosition>)
        ensures
            position is Ok <==> value != 0,
            position matches Ok(p) ==> p@ == value,
    {
        if value == 0 {
            Err(ZeroPosition)
        } else {
            Ok(Self { value })
        }
    }

    /// This position as an integer.
    pub fn get(self) -> (value: u64)
        ensures
            value == self@,
            value != 0,
    {
        proof {
            use_type_invariant(self);
        }
        self.value
    }
}

/// Epoch of one shard owner. Never zero.
#[derive(Clone, Copy, Debug, PartialEq, Eq, PartialOrd, Ord, Hash)]
pub struct OwnerEpoch {
    value: u64,
}

impl View for OwnerEpoch {
    type V = u64;

    closed spec fn view(&self) -> u64 {
        self.value
    }
}

impl OwnerEpoch {
    #[verifier::type_invariant]
    closed spec fn non_zero(self) -> bool {
        self.value != 0
    }

    /// The position `value`, which must not be zero.
    pub fn new(value: u64) -> (position: Result<Self, ZeroPosition>)
        ensures
            position is Ok <==> value != 0,
            position matches Ok(p) ==> p@ == value,
    {
        if value == 0 {
            Err(ZeroPosition)
        } else {
            Ok(Self { value })
        }
    }

    /// This position as an integer.
    pub fn get(self) -> (value: u64)
        ensures
            value == self@,
            value != 0,
    {
        proof {
            use_type_invariant(self);
        }
        self.value
    }
}

/// Generation of one metadata authority. Never zero.
#[derive(Clone, Copy, Debug, PartialEq, Eq, PartialOrd, Ord, Hash)]
pub struct MetadataAuthorityGeneration {
    value: u64,
}

impl View for MetadataAuthorityGeneration {
    type V = u64;

    closed spec fn view(&self) -> u64 {
        self.value
    }
}

impl MetadataAuthorityGeneration {
    #[verifier::type_invariant]
    closed spec fn non_zero(self) -> bool {
        self.value != 0
    }

    /// The position `value`, which must not be zero.
    pub fn new(value: u64) -> (position: Result<Self, ZeroPosition>)
        ensures
            position is Ok <==> value != 0,
            position matches Ok(p) ==> p@ == value,
    {
        if value == 0 {
            Err(ZeroPosition)
        } else {
            Ok(Self { value })
        }
    }

    /// This position as an integer.
    pub fn get(self) -> (value: u64)
        ensures
            value == self@,
            value != 0,
    {
        proof {
            use_type_invariant(self);
        }
        self.value
    }
}

/// Epoch of a strong-reference set; zero before the first reference.
#[derive(Clone, Copy, Debug, PartialEq, Eq, PartialOrd, Ord, Hash)]
pub struct ReferenceEpoch {
    value: u64,
}

impl View for ReferenceEpoch {
    type V = u64;

    closed spec fn view(&self) -> u64 {
        self.value
    }
}

impl ReferenceEpoch {
    /// The position `value`.
    pub fn new(value: u64) -> (position: Self)
        ensures
            position@ == value,
    {
        Self { value }
    }

    /// This position as an integer.
    pub fn get(self) -> (value: u64)
        ensures
            value == self@,
    {
        self.value
    }
}

/// Revision of one workspace; zero before the first change.
#[derive(Clone, Copy, Debug, PartialEq, Eq, PartialOrd, Ord, Hash)]
pub struct WorkspaceRevision {
    value: u64,
}

impl View for WorkspaceRevision {
    type V = u64;

    closed spec fn view(&self) -> u64 {
        self.value
    }
}

impl WorkspaceRevision {
    /// The position `value`.
    pub fn new(value: u64) -> (position: Self)
        ensures
            position@ == value,
    {
        Self { value }
    }

    /// This position as an integer.
    pub fn get(self) -> (value: u64)
        ensures
            value == self@,
    {
        self.value
    }
}

} // verus!
