//! Records and answers of the metadata store, as the query and namespace
//! layers see them.

use vstd::prelude::*;

use crate::bytes;
use crate::generic_index_records;
use crate::ids::{
    ArtifactRevisionId, CommitId, OperationId, WorkspaceIncarnationId,
};
use crate::names::{NormalizedRelativePath, WorkbenchId};
use crate::positions::{Generation, WorkspaceRevision};
use crate::scalars::{QueryScalar, QueryScalarView};
use crate::sorted_maps::{Entry, FieldMap};
use crate::states::WorkspaceState;
use crate::text;

verus! {

/// Contents of a list.
pub open spec fn views<T: View>(list: Seq<T>) -> Seq<T::V> {
    Seq::new(list.len(), |i: int| list[i]@)
}

/// A stored value after decoding: the record, or why its bytes are none.
pub type Decoded<R> = Result<R, String>;

/// Contents of a decoded value.
pub open spec fn decoded_view<R: View>(decoded: Decoded<R>) -> Result<R::V, Seq<u8>> {
    match decoded {
        Ok(record) => Ok(record@),
        Err(reason) => Err(bytes::utf8(reason@)),
    }
}

/// Failure of the metadata store.
///
/// `T` holds text: a `String`, or its bytes in contracts.
#[derive(Clone, Debug, PartialEq, Eq)]
pub enum AgentMetadataError<T = String> {
    ReadVersionInFuture { requested: u64, current: u64 },
    PredicateFailed,
    RequestIdReused,
    Other { message: T },
}

impl AgentMetadataError<String> {
    /// This failure with its text as bytes.
    pub open spec fn model(self) -> AgentMetadataError<Seq<u8>> {
        match self {
            Self::ReadVersionInFuture { requested, current } => AgentMetadataError::ReadVersionInFuture { requested, current },
            Self::PredicateFailed => AgentMetadataError::PredicateFailed,
            Self::RequestIdReused => AgentMetadataError::RequestIdReused,
            Self::Other { message } => AgentMetadataError::Other { message: bytes::utf8(message@) },
        }
    }

    /// Diagnostic text of this failure.
    pub fn message(&self) -> (message: String)
        ensures
            bytes::utf8(message@) == self.model().message_bytes(),
    {
        let mut out: Vec<u8> = Vec::new();
        match self {
            Self::ReadVersionInFuture { requested, current } => {
                text::push_text(&mut out, "read version ");
                text::push_decimal(&mut out, *requested as u64);
                text::push_text(&mut out, " is newer than the current version ");
                text::push_decimal(&mut out, *current as u64);
            },
            Self::PredicateFailed => {
                text::push_text(&mut out, "metadata command predicate failed");
            },
            Self::RequestIdReused => {
                text::push_text(&mut out, "request id was reused for a different command");
            },
            Self::Other { message } => {
                text::push_text(&mut out, message.as_str());
            },
        }
        assert(out@ =~= self.model().message_bytes());
        text::finish_text(out)
    }
}

impl AgentMetadataError<Seq<u8>> {
    /// Bytes of the diagnostic text.
    pub open spec fn message_bytes(self) -> Seq<u8> {
        match self {
            Self::ReadVersionInFuture { requested, current } => bytes::utf8("read version "@) + text::decimal(requested as nat) + bytes::utf8(" is newer than the current version "@) + text::decimal(current as nat),
            Self::PredicateFailed => bytes::utf8("metadata command predicate failed"@),
            Self::RequestIdReused => bytes::utf8("request id was reused for a different command"@),
            Self::Other { message } => message,
        }
    }
}


/// A failure of the metadata store, with its text as bytes.
pub type StoreFailure = AgentMetadataError<Seq<u8>>;

/// Answer of a point read: the decoded value under a key, or nothing.
pub type PointRead<R> = Result<Option<Decoded<R>>, AgentMetadataError>;

/// Contents of an answer of a point read.
pub open spec fn point_read_view<R: View>(read: PointRead<R>) -> Result<
    Option<Result<R::V, Seq<u8>>>,
    StoreFailure,
> {
    match read {
        Err(e) => Err(e.model()),
        Ok(None) => Ok(None),
        Ok(Some(decoded)) => Ok(Some(decoded_view(decoded))),
    }
}

/// Marker of one workspace: its current incarnation and lifecycle.
#[derive(Clone, Copy, Debug, PartialEq, Eq)]
pub struct WorkspaceRecord {
    pub incarnation_id: WorkspaceIncarnationId,
    pub workspace_revision: WorkspaceRevision,
    pub state: WorkspaceState,
    pub owning_operation_id: Option<OperationId>,
}

/// Contents of a [`WorkspaceRecord`].
pub struct WorkspaceRecordView {
    pub incarnation_id: Seq<u8>,
    pub workspace_revision: u64,
    pub state: WorkspaceState,
    pub owning_operation_id: Option<Seq<u8>>,
}

impl View for WorkspaceRecord {
    type V = WorkspaceRecordView;

    open spec fn view(&self) -> WorkspaceRecordView {
        WorkspaceRecordView {
            incarnation_id: self.incarnation_id@,
            workspace_revision: self.workspace_revision@,
            state: self.state,
            owning_operation_id: bytes::option_view(self.owning_operation_id),
        }
    }
}

/// Durable commit head of one workspace incarnation.
#[derive(Clone, Copy, Debug, PartialEq, Eq)]
pub struct WorkbenchCommitHeadRecord {
    pub commit_id: CommitId,
    pub head_generation: Generation,
}

/// Contents of a [`WorkbenchCommitHeadRecord`].
pub struct WorkbenchCommitHeadRecordView {
    pub commit_id: Seq<u8>,
    pub head_generation: u64,
}

impl View for WorkbenchCommitHeadRecord {
    type V = WorkbenchCommitHeadRecordView;

    open spec fn view(&self) -> WorkbenchCommitHeadRecordView {
        WorkbenchCommitHeadRecordView {
            commit_id: self.commit_id@,
            head_generation: self.head_generation@,
        }
    }
}

/// Current entry of one path.
#[derive(Clone, Debug, PartialEq, Eq)]
pub struct PathEntry {
    pub generation: Generation,
    pub artifact_revision_id: ArtifactRevisionId,
    pub body_digest_uri: String,
    pub manifest_digest_uri: String,
    pub logical_size: u64,
    pub dependency_count: u32,
    pub dependency_depth: u32,
    pub content_type: String,
    pub producer: Option<String>,
    pub manifest_id: Option<String>,
    pub typed_index_projection: Vec<u8>,
}

/// Contents of a [`PathEntry`].
pub struct PathEntryView {
    pub generation: u64,
    pub artifact_revision_id: Seq<u8>,
    pub body_digest_uri: Seq<u8>,
    pub manifest_digest_uri: Seq<u8>,
    pub logical_size: u64,
    pub dependency_count: u32,
    pub dependency_depth: u32,
    pub content_type: Seq<u8>,
    pub producer: Option<Seq<u8>>,
    pub manifest_id: Option<Seq<u8>>,
    pub typed_index_projection: Seq<u8>,
}

impl View for PathEntry {
    type V = PathEntryView;

    open spec fn view(&self) -> PathEntryView {
        PathEntryView {
            generation: self.generation@,
            artifact_revision_id: self.artifact_revision_id@,
            body_digest_uri: bytes::utf8(self.body_digest_uri@),
            manifest_digest_uri: bytes::utf8(self.manifest_digest_uri@),
            logical_size: self.logical_size,
            dependency_count: self.dependency_count,
            dependency_depth: self.dependency_depth,
            content_type: bytes::utf8(self.content_type@),
            producer: generic_index_records::optional_text_view(self.producer),
            manifest_id: generic_index_records::optional_text_view(self.manifest_id),
            typed_index_projection: self.typed_index_projection@,
        }
    }
}


/// Typed fields that one path or event carries.
pub type TypedProjection = FieldMap<QueryScalar>;

/// What one change event reports.
#[derive(Clone, Copy, Debug, PartialEq, Eq, Structural)]
pub enum ChangeEventKind {
    WorkspaceCreated,
    WorkspaceRestored,
    ArtifactPublished,
}

/// One durable change event.
#[derive(Clone, Debug, PartialEq, Eq)]
pub struct ChangeEventRecord {
    pub workbench_id: WorkbenchId,
    pub workspace_incarnation_id: WorkspaceIncarnationId,
    pub kind: ChangeEventKind,
    pub artifact_revision_id: Option<ArtifactRevisionId>,
    pub commit_id: Option<CommitId>,
    pub operation_id: Option<OperationId>,
    pub path: Option<NormalizedRelativePath>,
    pub before: TypedProjection,
    pub after: TypedProjection,
}

/// Contents of a [`ChangeEventRecord`].
pub struct ChangeEventRecordView {
    pub workbench_id: Seq<u8>,
    pub workspace_incarnation_id: Seq<u8>,
    pub kind: ChangeEventKind,
    pub artifact_revision_id: Option<Seq<u8>>,
    pub commit_id: Option<Seq<u8>>,
    pub operation_id: Option<Seq<u8>>,
    pub path: Option<Seq<u8>>,
    pub before: Seq<Entry<QueryScalarView>>,
    pub after: Seq<Entry<QueryScalarView>>,
}

impl View for ChangeEventRecord {
    type V = ChangeEventRecordView;

    open spec fn view(&self) -> ChangeEventRecordView {
        ChangeEventRecordView {
            workbench_id: self.workbench_id@,
            workspace_incarnation_id: self.workspace_incarnation_id@,
            kind: self.kind,
            artifact_revision_id: bytes::option_view(self.artifact_revision_id),
            commit_id: bytes::option_view(self.commit_id),
            operation_id: bytes::option_view(self.operation_id),
            path: bytes::option_view(self.path),
            before: self.before@,
            after: self.after@,
        }
    }
}


} // verus!
