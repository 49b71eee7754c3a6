//! Fixed-width identities.

use vstd::prelude::*;

use crate::bytes;

verus! {

/// Width of every fixed identity.
pub const FIXED_ID_BYTES: usize = 16;

/// Width of a SHA-256 digest.
pub const SHA256_BYTES: usize = 32;

/// One Agent root.
#[derive(Clone, Copy, Debug, PartialEq, Eq, PartialOrd, Ord, Hash)]
pub struct RootId {
    bytes: [u8; 16],
}

impl View for RootId {
    type V = Seq<u8>;

    closed spec fn view(&self) -> Seq<u8> {
        self.bytes@
    }
}

impl RootId {
    pub const BYTE_WIDTH: usize = 16;

    /// The identity with these bytes.
    pub fn from_bytes(bytes: [u8; 16]) -> (id: Self)
        ensures
            id@ == bytes@,
    {
        Self { bytes }
    }

    /// The bytes of this identity.
    pub fn as_bytes(&self) -> (bytes: &[u8; 16])
        ensures
            bytes@ == self@,
            self@.len() == 16,
    {
        &self.bytes
    }

    /// Whether the two identities are the same.
    pub fn same(&self, other: &Self) -> (same: bool)
        ensures
            same == (self@ == other@),
    {
        bytes::bytes_equal(self.bytes.as_slice(), other.bytes.as_slice())
    }
}

/// One logical metadata shard.
#[derive(Clone, Copy, Debug, PartialEq, Eq, PartialOrd, Ord, Hash)]
pub struct LogicalShardId {
    bytes: [u8; 16],
}

impl View for LogicalShardId {
    type V = Seq<u8>;

    closed spec fn view(&self) -> Seq<u8> {
        self.bytes@
    }
}

impl LogicalShardId {
    pub const BYTE_WIDTH: usize = 16;

    /// The identity with these bytes.
    pub fn from_bytes(bytes: [u8; 16]) -> (id: Self)
        ensures
            id@ == bytes@,
    {
        Self { bytes }
    }

    /// The bytes of this identity.
    pub fn as_bytes(&self) -> (bytes: &[u8; 16])
        ensures
            bytes@ == self@,
            self@.len() == 16,
    {
        &self.bytes
    }

    /// Whether the two identities are the same.
    pub fn same(&self, other: &Self) -> (same: bool)
        ensures
            same == (self@ == other@),
    {
        bytes::bytes_equal(self.bytes.as_slice(), other.bytes.as_slice())
    }
}

/// One incarnation of a workspace.
#[derive(Clone, Copy, Debug, PartialEq, Eq, PartialOrd, Ord, Hash)]
pub struct WorkspaceIncarnationId {
    bytes: [u8; 16],
}

impl View for WorkspaceIncarnationId {
    type V = Seq<u8>;

    closed spec fn view(&self) -> Seq<u8> {
        self.bytes@
    }
}

impl WorkspaceIncarnationId {
    pub const BYTE_WIDTH: usize = 16;

    /// The identity with these bytes.
    pub fn from_bytes(bytes: [u8; 16]) -> (id: Self)
        ensures
            id@ == bytes@,
    {
        Self { bytes }
    }

    /// The bytes of this identity.
    pub fn as_bytes(&self) -> (bytes: &[u8; 16])
        ensures
            bytes@ == self@,
            self@.len() == 16,
    {
        &self.bytes
    }

    /// Whether the two identities are the same.
    pub fn same(&self, other: &Self) -> (same: bool)
        ensures
            same == (self@ == other@),
    {
        bytes::bytes_equal(self.bytes.as_slice(), other.bytes.as_slice())
    }
}

/// One immutable artifact revision.
#[derive(Clone, Copy, Debug, PartialEq, Eq, PartialOrd, Ord, Hash)]
pub struct ArtifactRevisionId {
    bytes: [u8; 16],
}

impl View for ArtifactRevisionId {
    type V = Seq<u8>;

    closed spec fn view(&self) -> Seq<u8> {
        self.bytes@
    }
}

impl ArtifactRevisionId {
    pub const BYTE_WIDTH: usize = 16;

    /// The identity with these bytes.
    pub fn from_bytes(bytes: [u8; 16]) -> (id: Self)
        ensures
            id@ == bytes@,
    {
        Self { bytes }
    }

    /// The bytes of this identity.
    pub fn as_bytes(&self) -> (bytes: &[u8; 16])
        ensures
            bytes@ == self@,
            self@.len() == 16,
    {
        &self.bytes
    }

    /// Whether the two identities are the same.
    pub fn same(&self, other: &Self) -> (same: bool)
        ensures
            same == (self@ == other@),
    {
        bytes::bytes_equal(self.bytes.as_slice(), other.bytes.as_slice())
    }
}

/// One recoverable operation.
#[derive(Clone, Copy, Debug, PartialEq, Eq, PartialOrd, Ord, Hash)]
pub struct OperationId {
    bytes: [u8; 16],
}

impl View for OperationId {
    type V = Seq<u8>;

    closed spec fn view(&self) -> Seq<u8> {
        self.bytes@
    }
}

impl OperationId {
    pub const BYTE_WIDTH: usize = 16;

    /// The identity with these bytes.
    pub fn from_bytes(bytes: [u8; 16]) -> (id: Self)
        ensures
            id@ == bytes@,
    {
        Self { bytes }
    }

    /// The bytes of this identity.
    pub fn as_bytes(&self) -> (bytes: &[u8; 16])
        ensures
            bytes@ == self@,
            self@.len() == 16,
    {
        &self.bytes
    }

    /// Whether the two identities are the same.
    pub fn same(&self, other: &Self) -> (same: bool)
        ensures
            same == (self@ == other@),
    {
        bytes::bytes_equal(self.bytes.as_slice(), other.bytes.as_slice())
    }
}

/// One client request.
#[derive(Clone, Copy, Debug, PartialEq, Eq, PartialOrd, Ord, Hash)]
pub struct RequestId {
    bytes: [u8; 16],
}

impl View for RequestId {
    type V = Seq<u8>;

    closed spec fn view(&self) -> Seq<u8> {
        self.bytes@
    }
}

impl RequestId {
    pub const BYTE_WIDTH: usize = 16;

    /// The identity with these bytes.
    pub fn from_bytes(bytes: [u8; 16]) -> (id: Self)
        ensures
            id@ == bytes@,
    {
        Self { bytes }
    }

    /// The bytes of this identity.
    pub fn as_bytes(&self) -> (bytes: &[u8; 16])
        ensures
            bytes@ == self@,
            self@.len() == 16,
    {
        &self.bytes
    }

    /// Whether the two identities are the same.
    pub fn same(&self, other: &Self) -> (same: bool)
        ensures
            same == (self@ == other@),
    {
        bytes::bytes_equal(self.bytes.as_slice(), other.bytes.as_slice())
    }
}

/// One never-reused generic index generation.
#[derive(Clone, Copy, Debug, PartialEq, Eq, PartialOrd, Ord, Hash)]
pub struct GenericIndexGenerationId {
    bytes: [u8; 16],
}

impl View for GenericIndexGenerationId {
    type V = Seq<u8>;

    closed spec fn view(&self) -> Seq<u8> {
        self.bytes@
    }
}

impl GenericIndexGenerationId {
    pub const BYTE_WIDTH: usize = 16;

    /// The identity with these bytes.
    pub fn from_bytes(bytes: [u8; 16]) -> (id: Self)
        ensures
            id@ == bytes@,
    {
        Self { bytes }
    }

    /// The bytes of this identity.
    pub fn as_bytes(&self) -> (bytes: &[u8; 16])
        ensures
            bytes@ == self@,
            self@.len() == 16,
    {
        &self.bytes
    }

    /// Whether the two identities are the same.
    pub fn same(&self, other: &Self) -> (same: bool)
        ensures
            same == (self@ == other@),
    {
        bytes::bytes_equal(self.bytes.as_slice(), other.bytes.as_slice())
    }
}

/// One consistency domain.
#[derive(Clone, Copy, Debug, PartialEq, Eq, PartialOrd, Ord, Hash)]
pub struct ConsistencyDomainId {
    bytes: [u8; 16],
}

impl View for ConsistencyDomainId {
    type V = Seq<u8>;

    closed spec fn view(&self) -> Seq<u8> {
        self.bytes@
    }
}

impl ConsistencyDomainId {
    pub const BYTE_WIDTH: usize = 16;

    /// The identity with these bytes.
    pub fn from_bytes(bytes: [u8; 16]) -> (id: Self)
        ensures
            id@ == bytes@,
    {
        Self { bytes }
    }

    /// The bytes of this identity.
    pub fn as_bytes(&self) -> (bytes: &[u8; 16])
        ensures
            bytes@ == self@,
            self@.len() == 16,
    {
        &self.bytes
    }

    /// Whether the two identities are the same.
    pub fn same(&self, other: &Self) -> (same: bool)
        ensures
            same == (self@ == other@),
    {
        bytes::bytes_equal(self.bytes.as_slice(), other.bytes.as_slice())
    }
}

/// One metadata authority.
#[derive(Clone, Copy, Debug, PartialEq, Eq, PartialOrd, Ord, Hash)]
pub struct MetadataAuthorityId {
    bytes: [u8; 16],
}

impl View for MetadataAuthorityId {
    type V = Seq<u8>;

    closed spec fn view(&self) -> Seq<u8> {
        self.bytes@
    }
}

impl MetadataAuthorityId {
    pub const BYTE_WIDTH: usize = 16;

    /// The identity with these bytes.
    pub fn from_bytes(bytes: [u8; 16]) -> (id: Self)
        ensures
            id@ == bytes@,
    {
        Self { bytes }
    }

    /// The bytes of this identity.
    pub fn as_bytes(&self) -> (bytes: &[u8; 16])
        ensures
            bytes@ == self@,
            self@.len() == 16,
    {
        &self.bytes
    }

    /// Whether the two identities are the same.
    pub fn same(&self, other: &Self) -> (same: bool)
        ensures
            same == (self@ == other@),
    {
        bytes::bytes_equal(self.bytes.as_slice(), other.bytes.as_slice())
    }
}

/// Digest of one metadata command.
#[derive(Clone, Copy, Debug, PartialEq, Eq, PartialOrd, Ord, Hash)]
pub struct CommandDigest {
    bytes: [u8; 32],
}

impl View for CommandDigest {
    type V = Seq<u8>;

    closed spec fn view(&self) -> Seq<u8> {
        self.bytes@
    }
}

impl CommandDigest {
    pub const BYTE_WIDTH: usize = 32;

    /// The identity with these bytes.
    pub fn from_bytes(bytes: [u8; 32]) -> (id: Self)
        ensures
            id@ == bytes@,
    {
        Self { bytes }
    }

    /// The bytes of this identity.
    pub fn as_bytes(&self) -> (bytes: &[u8; 32])
        ensures
            bytes@ == self@,
            self@.len() == 32,
    {
        &self.bytes
    }

    /// Whether the two identities are the same.
    pub fn same(&self, other: &Self) -> (same: bool)
        ensures
            same == (self@ == other@),
    {
        bytes::bytes_equal(self.bytes.as_slice(), other.bytes.as_slice())
    }
}

/// Content identity of one commit.
#[derive(Clone, Copy, Debug, PartialEq, Eq, PartialOrd, Ord, Hash)]
pub struct CommitId {
    bytes: [u8; 32],
}

impl View for CommitId {
    type V = Seq<u8>;

    closed spec fn view(&self) -> Seq<u8> {
        self.bytes@
    }
}

impl CommitId {
    pub const BYTE_WIDTH: usize = 32;

    /// The identity with these bytes.
    pub fn from_bytes(bytes: [u8; 32]) -> (id: Self)
        ensures
            id@ == bytes@,
    {
        Self { bytes }
    }

    /// The bytes of this identity.
    pub fn as_bytes(&self) -> (bytes: &[u8; 32])
        ensures
            bytes@ == self@,
            self@.len() == 32,
    {
        &self.bytes
    }

    /// Whether the two identities are the same.
    pub fn same(&self, other: &Self) -> (same: bool)
        ensures
            same == (self@ == other@),
    {
        bytes::bytes_equal(self.bytes.as_slice(), other.bytes.as_slice())
    }
}

} // verus!
