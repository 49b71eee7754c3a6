//! Contexts, pages, and failures of namespace reads and workspace creation.

use vstd::prelude::*;

use crate::bytes;
use crate::ids::{LogicalShardId, RequestId, RootId};
use crate::names::{NormalizedRelativePath, WorkbenchId};
use crate::positions::{CommitVersion, OwnerEpoch, PlacementGeneration, ReadVersion};
use crate::store_records;
use crate::store_records::{
    AgentMetadataError, PathEntry, PathEntryView, WorkspaceRecord, WorkspaceRecordView,
};
use crate::text;

verus! {

/// Maximum number of visible paths returned by one namespace page.
///
/// One additional store item is reserved to determine whether another page
/// exists while staying within the store's 256-item scan bound.
pub const MAX_VISIBLE_PATH_PAGE_SIZE: usize = 255;

/// Fenced root context for one exact MVCC namespace read.
#[derive(Clone, Copy, Debug, PartialEq, Eq)]
pub struct RootReadContext {
    pub root_id: RootId,
    pub placement_generation: PlacementGeneration,
    pub owner_epoch: OwnerEpoch,
    pub read_version: ReadVersion,
}

/// Contents of a [`RootReadContext`].
pub struct RootReadContextView {
    pub root_id: Seq<u8>,
    pub placement_generation: u64,
    pub owner_epoch: u64,
    pub read_version: u64,
}

impl View for RootReadContext {
    type V = RootReadContextView;

    open spec fn view(&self) -> RootReadContextView {
        RootReadContextView {
            root_id: self.root_id@,
            placement_generation: self.placement_generation@,
            owner_epoch: self.owner_epoch@,
            read_version: self.read_version@,
        }
    }
}

impl RootReadContext {
    /// The context of reads at the store's current durable read version, which
    /// the store was asked for.
    pub fn current(
        current: Result<ReadVersion, AgentMetadataError>,
        root_id: RootId,
        placement_generation: PlacementGeneration,
        owner_epoch: OwnerEpoch,
    ) -> (result: Result<Self, NamespaceError>)
        ensures
            match current {
                Ok(read_version) => result matches Ok(context) && context@ == (
                RootReadContextView {
                    root_id: root_id@,
                    placement_generation: placement_generation@,
                    owner_epoch: owner_epoch@,
                    read_version: read_version@,
                }),
                Err(source) => result matches Err(e) && e.model() == NamespaceError::<
                    Seq<u8>,
                    Seq<u8>,
                >::Engine(source.model()),
            },
    {
        match current {
            Ok(read_version) => Ok(
                Self { root_id, placement_generation, owner_epoch, read_version },
            ),
            Err(source) => Err(NamespaceError::Engine(source)),
        }
    }
}

/// Fenced root context for one exact, replayable metadata command.
///
/// Callers retain this value across retries. Rebuilding it at a later read
/// version changes the canonical command and correctly conflicts with reuse of
/// the same request id.
#[derive(Clone, Copy, Debug, PartialEq, Eq)]
pub struct RootWriteContext {
    pub root_id: RootId,
    pub logical_shard_id: LogicalShardId,
    pub placement_generation: PlacementGeneration,
    pub owner_epoch: OwnerEpoch,
    pub request_id: RequestId,
    pub read_version: ReadVersion,
}

/// Contents of a [`RootWriteContext`].
pub struct RootWriteContextView {
    pub root_id: Seq<u8>,
    pub logical_shard_id: Seq<u8>,
    pub placement_generation: u64,
    pub owner_epoch: u64,
    pub request_id: Seq<u8>,
    pub read_version: u64,
}

impl View for RootWriteContext {
    type V = RootWriteContextView;

    open spec fn view(&self) -> RootWriteContextView {
        RootWriteContextView {
            root_id: self.root_id@,
            logical_shard_id: self.logical_shard_id@,
            placement_generation: self.placement_generation@,
            owner_epoch: self.owner_epoch@,
            request_id: self.request_id@,
            read_version: self.read_version@,
        }
    }
}

impl RootWriteContext {
    /// The context of a new request at the store's current durable read
    /// version, which the store was asked for.
    pub fn current(
        current: Result<ReadVersion, AgentMetadataError>,
        root_id: RootId,
        logical_shard_id: LogicalShardId,
        placement_generation: PlacementGeneration,
        owner_epoch: OwnerEpoch,
        request_id: RequestId,
    ) -> (result: Result<Self, NamespaceError>)
        ensures
            match current {
                Ok(read_version) => result matches Ok(context) && context@ == (
                RootWriteContextView {
                    root_id: root_id@,
                    logical_shard_id: logical_shard_id@,
                    placement_generation: placement_generation@,
                    owner_epoch: owner_epoch@,
                    request_id: request_id@,
                    read_version: read_version@,
                }),
                Err(source) => result matches Err(e) && e.model() == NamespaceError::<
                    Seq<u8>,
                    Seq<u8>,
                >::Engine(source.model()),
            },
    {
        match current {
            Ok(read_version) => Ok(
                Self {
                    root_id,
                    logical_shard_id,
                    placement_generation,
                    owner_epoch,
                    request_id,
                    read_version,
                },
            ),
            Err(source) => Err(NamespaceError::Engine(source)),
        }
    }
}

/// Outcome of creating one immediately-visible workspace marker.
#[derive(Clone, Copy, Debug, PartialEq, Eq)]
pub struct CreateVisibleWorkspaceResult {
    pub workspace: WorkspaceRecord,
    pub commit_version: CommitVersion,
    pub replayed: bool,
}

/// Contents of a [`CreateVisibleWorkspaceResult`].
pub struct CreateVisibleWorkspaceResultView {
    pub workspace: WorkspaceRecordView,
    pub commit_version: u64,
    pub replayed: bool,
}

impl View for CreateVisibleWorkspaceResult {
    type V = CreateVisibleWorkspaceResultView;

    open spec fn view(&self) -> CreateVisibleWorkspaceResultView {
        CreateVisibleWorkspaceResultView {
            workspace: self.workspace@,
            commit_version: self.commit_version@,
            replayed: self.replayed,
        }
    }
}

/// One normalized full path and its authoritative current entry.
#[derive(Clone, Debug, PartialEq, Eq)]
pub struct VisiblePath {
    pub path: NormalizedRelativePath,
    pub entry: PathEntry,
}

/// Contents of a [`VisiblePath`].
pub struct VisiblePathView {
    pub path: Seq<u8>,
    pub entry: PathEntryView,
}

impl View for VisiblePath {
    type V = VisiblePathView;

    open spec fn view(&self) -> VisiblePathView {
        VisiblePathView {
            path: self.path@,
            entry: self.entry@,
        }
    }
}

/// One stable ordered page of visible paths.
#[derive(Clone, Debug, PartialEq, Eq)]
pub struct VisiblePathPage {
    pub entries: Vec<VisiblePath>,
    /// Pass this full path as `start_after` to obtain the next page.
    pub next_marker: Option<NormalizedRelativePath>,
}

/// Contents of a [`VisiblePathPage`].
pub struct VisiblePathPageView {
    pub entries: Seq<VisiblePathView>,
    pub next_marker: Option<Seq<u8>>,
}

impl View for VisiblePathPage {
    type V = VisiblePathPageView;

    open spec fn view(&self) -> VisiblePathPageView {
        VisiblePathPageView {
            entries: store_records::views(self.entries@),
            next_marker: bytes::option_view(self.next_marker),
        }
    }
}

/// Path-native namespace domain failure.
///
/// `W` and `T` hold a workbench id and caller-dependent text; contracts speak of
/// the bytes of each.
#[derive(Clone, Debug, PartialEq, Eq)]
pub enum NamespaceError<W = WorkbenchId, T = String> {
    AlreadyExists { workbench_id: W },
    InvalidPageLimit { requested: usize, max: usize },
    CorruptKey { family: &'static str, reason: T },
    Codec { record: &'static str, source: T },
    DeterministicResultMismatch { reason: T },
    QueryRecord(T),
    Engine(AgentMetadataError<T>),
}

impl NamespaceError<WorkbenchId, String> {
    /// This failure with its text as bytes.
    pub open spec fn model(self) -> NamespaceError<Seq<u8>, Seq<u8>> {
        match self {
            Self::AlreadyExists { workbench_id } => NamespaceError::AlreadyExists { workbench_id: workbench_id@ },
            Self::InvalidPageLimit { requested, max } => NamespaceError::InvalidPageLimit { requested, max },
            Self::CorruptKey { family, reason } => NamespaceError::CorruptKey { family, reason: bytes::utf8(reason@) },
            Self::Codec { record, source } => NamespaceError::Codec { record, source: bytes::utf8(source@) },
            Self::DeterministicResultMismatch { reason } => NamespaceError::DeterministicResultMismatch { reason: bytes::utf8(reason@) },
            Self::QueryRecord(source) => NamespaceError::QueryRecord(bytes::utf8(source@)),
            Self::Engine(source) => NamespaceError::Engine(source.model()),
        }
    }

    /// Diagnostic text of this failure.
    pub fn message(&self) -> (message: String)
        ensures
            bytes::utf8(message@) == self.model().message_bytes(),
    {
        let mut out: Vec<u8> = Vec::new();
        match self {
            Self::AlreadyExists { workbench_id } => {
                text::push_text(&mut out, "workbench ");
                text::push_text(&mut out, workbench_id.as_str());
                text::push_text(&mut out, " already exists");
            },
            Self::InvalidPageLimit { requested, max } => {
                text::push_text(&mut out, "visible path page limit ");
                text::push_decimal(&mut out, *requested as u64);
                text::push_text(&mut out, " is outside 1..=");
                text::push_decimal(&mut out, *max as u64);
            },
            Self::CorruptKey { family, reason } => {
                text::push_text(&mut out, "corrupt ");
                text::push_text(&mut out, family);
                text::push_text(&mut out, " key: ");
                text::push_text(&mut out, reason.as_str());
            },
            Self::Codec { record, source } => {
                text::push_text(&mut out, "invalid ");
                text::push_text(&mut out, record);
                text::push_text(&mut out, " payload: ");
                text::push_text(&mut out, source.as_str());
            },
            Self::DeterministicResultMismatch { reason } => {
                text::push_text(&mut out, "invalid workspace creation result: ");
                text::push_text(&mut out, reason.as_str());
            },
            Self::QueryRecord(source) => {
                text::push_text(&mut out, source.as_str());
            },
            Self::Engine(source) => {
                let nested = source.message();
                text::push_text(&mut out, nested.as_str());
            },
        }
        assert(out@ =~= self.model().message_bytes());
        text::finish_text(out)
    }
}

impl NamespaceError<Seq<u8>, Seq<u8>> {
    /// Bytes of the diagnostic text.
    pub open spec fn message_bytes(self) -> Seq<u8> {
        match self {
            Self::AlreadyExists { workbench_id } => bytes::utf8("workbench "@) + workbench_id + bytes::utf8(" already exists"@),
            Self::InvalidPageLimit { requested, max } => bytes::utf8("visible path page limit "@) + text::decimal(requested as nat) + bytes::utf8(" is outside 1..="@) + text::decimal(max as nat),
            Self::CorruptKey { family, reason } => bytes::utf8("corrupt "@) + bytes::utf8(family@) + bytes::utf8(" key: "@) + reason,
            Self::Codec { record, source } => bytes::utf8("invalid "@) + bytes::utf8(record@) + bytes::utf8(" payload: "@) + source,
            Self::DeterministicResultMismatch { reason } => bytes::utf8("invalid workspace creation result: "@) + reason,
            Self::QueryRecord(source) => source,
            Self::Engine(source) => source.message_bytes(),
        }
    }
}


/// A failure of a namespace operation, with its text as bytes.
pub type NamespaceFailure = NamespaceError<Seq<u8>, Seq<u8>>;

} // verus!
