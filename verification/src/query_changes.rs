//! Pages of change events.
//!
//! Reading a page alternates store reads and decisions: an anchor is read,
//! events are scanned, and the workspace of an event is resolved at the commit
//! version of the event. [`ChangeRun`] makes the decisions; its caller performs
//! the action it asks for and hands back the answer.

use vstd::prelude::*;

use crate::bytes;
use crate::digest;
use crate::ids::{RootId, WorkspaceIncarnationId};
use crate::names::WorkbenchId;
use crate::namespace_types::{NamespaceError, NamespaceFailure, RootReadContext};
use crate::positions::{CommitVersion, ReadVersion};
use crate::query_catalog;
use crate::query_cursor;
use crate::query_cursor::{CursorKind, CursorView};
use crate::query_digests;
use crate::query_rows;
use crate::query_types;
use crate::query_types::{
    ChangeEvent, ChangeEventView, ChangePage, ChangePageRequest, ChangePageRequestView,
    ChangePageView, QueryError, QueryFailure, QueryScope, QueryScopeView, ENGINE_SCAN_BATCH,
};
use crate::store_records;
use crate::store_records::{
    AgentMetadataError, ChangeEventRecord, ChangeEventRecordView, Decoded, PointRead,
    StoreFailure, WorkspaceRecord, WorkspaceRecordView,
};

verus! {

/// Durable position of one change event.
#[derive(Clone, Copy, Debug, PartialEq, Eq)]
pub struct ChangePosition {
    pub commit_version: CommitVersion,
    pub sequence: u32,
}

impl View for ChangePosition {
    type V = (u64, u32);

    open spec fn view(&self) -> (u64, u32) {
        (self.commit_version@, self.sequence)
    }
}

/// One stored change event: the position of its key, if the key is canonical,
/// and its decoded value.
pub struct ChangeItem {
    pub position: Option<ChangePosition>,
    pub event: Decoded<ChangeEventRecord>,
}

/// Contents of a [`ChangeItem`].
pub struct ChangeItemView {
    pub position: Option<(u64, u32)>,
    pub event: Result<ChangeEventRecordView, Seq<u8>>,
}

impl View for ChangeItem {
    type V = ChangeItemView;

    open spec fn view(&self) -> ChangeItemView {
        ChangeItemView {
            position: bytes::option_view(self.position),
            event: store_records::decoded_view(self.event),
        }
    }
}

/// What one workbench resolved to at the version of the cache.
pub struct CachedWorkspace {
    pub workbench_id: WorkbenchId,
    pub incarnation_id: Option<WorkspaceIncarnationId>,
}

impl View for CachedWorkspace {
    type V = (Seq<u8>, Option<Seq<u8>>);

    open spec fn view(&self) -> (Seq<u8>, Option<Seq<u8>>) {
        (self.workbench_id@, bytes::option_view(self.incarnation_id))
    }
}

/// What a workbench resolved to, if it was resolved.
pub open spec fn cached(
    resolved: Seq<(Seq<u8>, Option<Seq<u8>>)>,
    workbench_id: Seq<u8>,
) -> Option<Option<Seq<u8>>>
    decreases resolved.len(),
{
    if resolved.len() == 0 {
        None
    } else if resolved.last().0 == workbench_id {
        Some(resolved.last().1)
    } else {
        cached(resolved.drop_last(), workbench_id)
    }
}

/// What to do with one stored event.
pub enum ItemStep {
    /// The event is damaged.
    Fail(QueryFailure),
    /// The event is outside the scope or not visible.
    Skip,
    /// The workbench of the event must be resolved first.
    Resolve(u64, Seq<u8>),
    /// The event belongs to the page.
    Take(ChangeEventView),
}

/// What to do with one stored event, given what a workbench resolved to at the
/// version of the event.
pub open spec fn item_step(
    scope: QueryScopeView,
    item: ChangeItemView,
    visible: spec_fn(u64, Seq<u8>) -> Option<Option<Seq<u8>>>,
) -> ItemStep {
    match item.position {
        None => ItemStep::Fail(
            QueryError::CorruptKey {
                family: "ChangeEvent",
                reason: bytes::utf8("key has a noncanonical root/version/sequence encoding"@),
            },
        ),
        Some((commit_version, sequence)) => match item.event {
            Err(source) => ItemStep::Fail(QueryError::Projection { source }),
            Ok(event) => if scope is Workspace && scope->0 != event.workbench_id {
                ItemStep::Skip
            } else {
                match visible(commit_version, event.workbench_id) {
                    None => ItemStep::Resolve(commit_version, event.workbench_id),
                    Some(incarnation_id) => if incarnation_id == Some(
                        event.workspace_incarnation_id,
                    ) {
                        ItemStep::Take(
                            ChangeEventView {
                                workbench_id: event.workbench_id,
                                commit_version,
                                sequence,
                                event,
                            },
                        )
                    } else {
                        ItemStep::Skip
                    },
                }
            },
        },
    }
}

/// Where a run stands.
pub enum ChangeStageView {
    /// The event of the cursor is read.
    ReadingAnchor(u64, u32),
    /// Events behind the marker are scanned.
    Scanning,
    /// A workbench is resolved at a commit version.
    Resolving(u64, Seq<u8>),
    /// The run is over.
    Finished(Result<ChangePageView, QueryFailure>),
}

/// State of one page read.
pub struct ChangeRunView {
    pub scope: QueryScopeView,
    pub limit: usize,
    pub request_digest: Seq<u8>,
    pub read_version: u64,
    pub stage: ChangeStageView,
    pub marker: Option<(u64, u32)>,
    /// The event of the cursor, until it is found visible.
    pub anchor: Option<ChangeItemView>,
    pub batch: Seq<ChangeItemView>,
    /// The batch was the last one.
    pub last_batch: bool,
    pub events: Seq<ChangeEventView>,
    pub cache_version: Option<u64>,
    pub cache: Seq<(Seq<u8>, Option<Seq<u8>>)>,
}

/// The page of the collected events, one of which may be a lookahead.
pub open spec fn change_page(
    events: Seq<ChangeEventView>,
    limit: usize,
    read_version: u64,
    request_digest: Seq<u8>,
) -> ChangePageView {
    if events.len() > limit {
        ChangePageView {
            events: events.take(limit as int),
            next_cursor: Some(
                (CursorView {
                    kind: CursorKind::Changes,
                    read_version,
                    request_digest,
                    anchor: query_cursor::change_identity(
                        events[limit - 1].commit_version,
                        events[limit - 1].sequence,
                    ),
                }).encoding(),
            ),
            read_version,
        }
    } else {
        ChangePageView { events, next_cursor: None, read_version }
    }
}

impl ChangeRunView {
    /// What a workbench resolved to at a version, if the run knows.
    pub open spec fn known(self) -> spec_fn(u64, Seq<u8>) -> Option<Option<Seq<u8>>> {
        |commit_version: u64, workbench_id: Seq<u8>|
            if self.cache_version == Some(commit_version) {
                cached(self.cache, workbench_id)
            } else {
                None
            }
    }

    /// This run, over with a result.
    pub open spec fn finished(self, result: Result<ChangePageView, QueryFailure>) -> Self {
        ChangeRunView { stage: ChangeStageView::Finished(result), ..self }
    }

    /// This run, over with the page of its events.
    pub open spec fn completed(self) -> Self {
        (ChangeRunView { events: Seq::empty(), ..self }).finished(
            Ok(change_page(self.events, self.limit, self.read_version, self.request_digest)),
        )
    }

    /// The state before any answer.
    pub open spec fn started(
        root_id: Seq<u8>,
        request: ChangePageRequestView,
        read_version: u64,
    ) -> Self {
        let request_digest = digest::sha256(request.message(root_id));
        let idle = ChangeRunView {
            scope: request.scope,
            limit: request.limit,
            request_digest,
            read_version,
            stage: ChangeStageView::Scanning,
            marker: None,
            anchor: None,
            batch: Seq::empty(),
            last_batch: false,
            events: Seq::empty(),
            cache_version: None,
            cache: Seq::empty(),
        };
        match query_catalog::page_check(request.limit) {
            Err(e) => idle.finished(Err(e)),
            Ok(()) => match request.after_commit_version {
                Some(after) if after > read_version => idle.finished(
                    Err(
                        QueryError::Engine(
                            AgentMetadataError::ReadVersionInFuture {
                                requested: after,
                                current: read_version,
                            },
                        ),
                    ),
                ),
                _ => match request.cursor {
                    Some(cursor) => match query_cursor::change_position(
                        cursor,
                        read_version,
                        request_digest,
                        request.after_commit_version,
                    ) {
                        Err(e) => idle.finished(Err(e)),
                        Ok((commit_version, sequence)) => ChangeRunView {
                            stage: ChangeStageView::ReadingAnchor(commit_version, sequence),
                            marker: Some((commit_version, sequence)),
                            ..idle
                        },
                    },
                    None => ChangeRunView {
                        marker: match request.after_commit_version {
                            Some(after) => Some((after, u32::MAX)),
                            None => None,
                        },
                        ..idle
                    },
                },
            },
        }
    }

    /// The state once the anchor, if there is one, is dealt with.
    pub open spec fn anchored(self) -> Self {
        match self.anchor {
            None => self.drained(),
            Some(item) => match item_step(self.scope, item, self.known()) {
                ItemStep::Fail(e) => self.finished(Err(e)),
                ItemStep::Skip => self.finished(Err(QueryError::CursorAnchorMissing)),
                ItemStep::Resolve(commit_version, workbench_id) => ChangeRunView {
                    stage: ChangeStageView::Resolving(commit_version, workbench_id),
                    ..self
                },
                ItemStep::Take(_) => ChangeRunView {
                    stage: ChangeStageView::Scanning,
                    anchor: None,
                    ..self
                },
            },
        }
    }

    /// The state once the batch is worked off as far as it can be.
    pub open spec fn drained(self) -> Self
        decreases self.batch.len(),
    {
        if self.batch.len() == 0 {
            if self.last_batch {
                self.completed()
            } else {
                ChangeRunView { stage: ChangeStageView::Scanning, ..self }
            }
        } else {
            let item = self.batch[0];
            let rest = ChangeRunView {
                marker: item.position,
                batch: self.batch.drop_first(),
                ..self
            };
            match item_step(self.scope, item, self.known()) {
                ItemStep::Fail(e) => self.finished(Err(e)),
                ItemStep::Skip => rest.drained(),
                ItemStep::Resolve(commit_version, workbench_id) => ChangeRunView {
                    stage: ChangeStageView::Resolving(commit_version, workbench_id),
                    ..self
                },
                ItemStep::Take(event) => {
                    let more = ChangeRunView { events: self.events.push(event), ..rest };
                    if more.events.len() > self.limit {
                        more.completed()
                    } else {
                        more.drained()
                    }
                },
            }
        }
    }

    /// The state after the anchor was read.
    pub open spec fn after_anchor(
        self,
        read: Result<Option<Result<ChangeEventRecordView, Seq<u8>>>, StoreFailure>,
    ) -> Self {
        match read {
            Err(source) => self.finished(Err(QueryError::Engine(source))),
            Ok(None) => self.finished(Err(QueryError::CursorAnchorMissing)),
            Ok(Some(event)) => (ChangeRunView {
                anchor: Some(ChangeItemView { position: self.marker, event }),
                ..self
            }).anchored(),
        }
    }

    /// The state after events were scanned.
    pub open spec fn after_scan(self, scanned: Result<Seq<ChangeItemView>, StoreFailure>) -> Self {
        match scanned {
            Err(source) => self.finished(Err(QueryError::Engine(source))),
            Ok(batch) => (ChangeRunView {
                batch,
                last_batch: batch.len() < ENGINE_SCAN_BATCH,
                ..self
            }).drained(),
        }
    }

    /// The state after a workbench was resolved.
    pub open spec fn after_resolve(
        self,
        commit_version: u64,
        workbench_id: Seq<u8>,
        found: Result<Option<WorkspaceRecordView>, NamespaceFailure>,
    ) -> Self {
        match found {
            Err(e) => self.finished(Err(QueryError::Namespace(e))),
            Ok(workspace) => {
                let incarnation_id = match workspace {
                    Some(workspace) => Some(workspace.incarnation_id),
                    None => None,
                };
                let kept = if self.cache_version == Some(commit_version) {
                    self.cache
                } else {
                    Seq::empty()
                };
                (ChangeRunView {
                    cache_version: Some(commit_version),
                    cache: kept.push((workbench_id, incarnation_id)),
                    ..self
                }).anchored()
            },
        }
    }
}

/// Where a run stands.
enum ChangeStage {
    ReadingAnchor(ChangePosition),
    Scanning,
    Resolving(CommitVersion, WorkbenchId),
    Finished(Result<ChangePage, QueryError>),
}

impl View for ChangeStage {
    type V = ChangeStageView;

    closed spec fn view(&self) -> ChangeStageView {
        match self {
            Self::ReadingAnchor(position) => ChangeStageView::ReadingAnchor(
                position.commit_version@,
                position.sequence,
            ),
            Self::Scanning => ChangeStageView::Scanning,
            Self::Resolving(commit_version, workbench_id) => ChangeStageView::Resolving(
                commit_version@,
                workbench_id@,
            ),
            Self::Finished(result) => ChangeStageView::Finished(query_types::outcome(*result)),
        }
    }
}

/// What the caller of a run does next.
pub enum ChangeAction {
    /// Read the event at a position.
    ReadAnchor(ChangePosition),
    /// Scan up to [`ENGINE_SCAN_BATCH`] events of the root behind a position.
    Scan(Option<ChangePosition>),
    /// Resolve the visible workspace of a workbench at a commit version.
    Resolve(CommitVersion, WorkbenchId),
    /// Take the result.
    Finish,
}

/// One page read in progress.
pub struct ChangeRun {
    scope: QueryScope,
    limit: usize,
    request_digest: [u8; 32],
    read_version: ReadVersion,
    stage: ChangeStage,
    marker: Option<ChangePosition>,
    anchor: Option<ChangeItem>,
    batch: Vec<ChangeItem>,
    last_batch: bool,
    events: Vec<ChangeEvent>,
    cache_version: Option<CommitVersion>,
    cache: Vec<CachedWorkspace>,
}

impl View for ChangeRun {
    type V = ChangeRunView;

    closed spec fn view(&self) -> ChangeRunView {
        ChangeRunView {
            scope: self.scope@,
            limit: self.limit,
            request_digest: self.request_digest@,
            read_version: self.read_version@,
            stage: self.stage@,
            marker: bytes::option_view(self.marker),
            anchor: bytes::option_view(self.anchor),
            batch: store_records::views(self.batch@),
            last_batch: self.last_batch,
            events: store_records::views(self.events@),
            cache_version: bytes::option_view(self.cache_version),
            cache: store_records::views(self.cache@),
        }
    }
}

/// What to do with one stored event.
enum Decision {
    Fail(QueryError),
    Skip,
    Resolve(CommitVersion, WorkbenchId),
    Take,
}

/// The decision is the step.
spec fn decides(decision: Decision, step: ItemStep) -> bool {
    match decision {
        Decision::Fail(e) => step == ItemStep::Fail(e.model()),
        Decision::Skip => step == ItemStep::Skip,
        Decision::Resolve(commit_version, workbench_id) => step == ItemStep::Resolve(
            commit_version@,
            workbench_id@,
        ),
        Decision::Take => step is Take,
    }
}

/// What a workbench resolved to, if it was resolved.
fn find_cached(resolved: &Vec<CachedWorkspace>, workbench_id: &WorkbenchId) -> (found: Option<
    Option<WorkspaceIncarnationId>,
>)
    ensures
        match found {
            None => cached(store_records::views(resolved@), workbench_id@) is None,
            Some(incarnation_id) => cached(store_records::views(resolved@), workbench_id@) == Some(
                bytes::option_view(incarnation_id),
            ),
        },
{
    let ghost all = store_records::views(resolved@);
    let mut i: usize = resolved.len();
    assert(all.take(i as int) =~= all);
    while i > 0
        invariant
            i <= resolved@.len(),
            all == store_records::views(resolved@),
            cached(all, workbench_id@) == cached(all.take(i as int), workbench_id@),
        decreases i,
    {
        i = i - 1;
        proof {
            assert(all.take(i + 1).last() == resolved@[i as int]@);
            assert(all.take(i + 1).drop_last() =~= all.take(i as int));
        }
        if resolved[i].workbench_id.same(workbench_id) {
            return Some(resolved[i].incarnation_id);
        }
    }
    None
}

impl ChangeRun {
    /// The size of a page that reads events: at least one, unless the run is
    /// over.
    pub closed spec fn wf(self) -> bool {
        self@.stage is Finished || self@.limit > 0
    }

    /// What to do with one stored event.
    fn decide(&self, item: &ChangeItem) -> (decision: Decision)
        ensures
            decides(decision, item_step(self@.scope, item@, self@.known())),
    {
        let position = match item.position {
            Some(position) => position,
            None => {
                return Decision::Fail(
                    QueryError::CorruptKey {
                        family: "ChangeEvent",
                        reason: "key has a noncanonical root/version/sequence encoding".to_owned(),
                    },
                );
            },
        };
        let event = match &item.event {
            Ok(event) => event,
            Err(source) => {
                return Decision::Fail(QueryError::Projection { source: source.clone() });
            },
        };
        if let QueryScope::Workspace(expected) = &self.scope {
            if !expected.same(&event.workbench_id) {
                return Decision::Skip;
            }
        }
        let current: bool = match self.cache_version {
            Some(version) => version.get() == position.commit_version.get(),
            None => false,
        };
        let found = if current {
            find_cached(&self.cache, &event.workbench_id)
        } else {
            None
        };
        match found {
            None => Decision::Resolve(position.commit_version, event.workbench_id.clone()),
            Some(None) => Decision::Skip,
            Some(Some(incarnation_id)) => {
                if incarnation_id.same(&event.workspace_incarnation_id) {
                    Decision::Take
                } else {
                    Decision::Skip
                }
            },
        }
    }

    /// Ends the run with the page of its events.
    fn complete(&mut self)
        requires
            old(self)@.limit > 0,
        ensures
            final(self)@ == old(self)@.completed(),
            final(self).wf(),
    {
        let mut events: Vec<ChangeEvent> = Vec::new();
        std::mem::swap(&mut events, &mut self.events);
        let ghost all = store_records::views(events@);
        let next_cursor: Option<Vec<u8>> = if events.len() > self.limit {
            let last = &events[self.limit - 1];
            let identity = query_cursor::change_event_identity(last.commit_version, last.sequence);
            assert(all[self.limit - 1] == last@);
            Some(
                query_cursor::encode_cursor(
                    CursorKind::Changes,
                    self.read_version,
                    &self.request_digest,
                    identity.as_slice(),
                ),
            )
        } else {
            None
        };
        if events.len() > self.limit {
            events.truncate(self.limit);
            assert(store_records::views(events@) =~= all.take(self.limit as int));
        }
        assert(store_records::views(self.events@) =~= Seq::<ChangeEventView>::empty());
        let page = ChangePage { events, next_cursor, read_version: self.read_version };
        assert(page@ == change_page(all, self.limit, self.read_version@, self.request_digest@));
        self.stage = ChangeStage::Finished(Ok(page));
    }

    /// Ends the run with a failure.
    fn fail(&mut self, e: QueryError)
        ensures
            final(self)@ == old(self)@.finished(Err(e.model())),
            final(self).wf(),
    {
        self.stage = ChangeStage::Finished(Err(e));
    }

    /// Works off the batch as far as it can be.
    fn drain(&mut self)
        requires
            old(self)@.limit > 0,
        ensures
            final(self)@ == old(self)@.drained(),
            final(self).wf(),
    {
        while self.batch.len() > 0
            invariant
                self@.limit > 0,
                self@.drained() == old(self)@.drained(),
            decreases self.batch@.len(),
        {
            let ghost before = self@;
            assert(before.batch[0] == self.batch@[0]@);
            match self.decide(&self.batch[0]) {
                Decision::Fail(e) => {
                    self.fail(e);
                    return;
                },
                Decision::Resolve(commit_version, workbench_id) => {
                    self.stage = ChangeStage::Resolving(commit_version, workbench_id);
                    return;
                },
                Decision::Skip => {
                    let item = self.batch.remove(0);
                    self.marker = item.position;
                    assert(store_records::views(self.batch@) =~= before.batch.drop_first());
                },
                Decision::Take => {
                    let item = self.batch.remove(0);
                    self.marker = item.position;
                    assert(store_records::views(self.batch@) =~= before.batch.drop_first());
                    if let (Some(position), Ok(event)) = (item.position, item.event) {
                        let event = ChangeEvent {
                            workbench_id: event.workbench_id.clone(),
                            commit_version: position.commit_version,
                            sequence: position.sequence,
                            event,
                        };
                        self.events.push(event);
                        assert(store_records::views(self.events@) =~= before.events.push(event@));
                    }
                    if self.events.len() > self.limit {
                        self.complete();
                        return;
                    }
                },
            }
        }
        assert(self@.batch.len() == 0);
        if self.last_batch {
            self.complete();
        } else {
            self.stage = ChangeStage::Scanning;
        }
    }

    /// Deals with the anchor, if there is one, and goes on.
    fn settle_anchor(&mut self)
        requires
            old(self)@.limit > 0,
        ensures
            final(self)@ == old(self)@.anchored(),
            final(self).wf(),
    {
        let decision = match &self.anchor {
            None => None,
            Some(item) => Some(self.decide(item)),
        };
        match decision {
            None => self.drain(),
            Some(Decision::Fail(e)) => self.fail(e),
            Some(Decision::Skip) => self.fail(QueryError::CursorAnchorMissing),
            Some(Decision::Resolve(commit_version, workbench_id)) => {
                self.stage = ChangeStage::Resolving(commit_version, workbench_id);
            },
            Some(Decision::Take) => {
                self.stage = ChangeStage::Scanning;
                self.anchor = None;
            },
        }
    }

    /// Starts reading one page.
    pub fn start(root_id: RootId, read_version: ReadVersion, request: &ChangePageRequest) -> (run: Self)
        ensures
            run@ == ChangeRunView::started(root_id@, request@, read_version@),
            run.wf(),
    {
        let request_digest = query_digests::change_digest(root_id, request);
        let scope = match &request.scope {
            QueryScope::Root => QueryScope::Root,
            QueryScope::Workspace(workbench_id) => QueryScope::Workspace(workbench_id.clone()),
        };
        let mut run = ChangeRun {
            scope,
            limit: request.limit,
            request_digest,
            read_version,
            stage: ChangeStage::Scanning,
            marker: None,
            anchor: None,
            batch: Vec::new(),
            last_batch: false,
            events: Vec::new(),
            cache_version: None,
            cache: Vec::new(),
        };
        proof {
            assert(run@.batch =~= Seq::<ChangeItemView>::empty());
            assert(run@.events =~= Seq::<ChangeEventView>::empty());
            assert(run@.cache =~= Seq::<(Seq<u8>, Option<Seq<u8>>)>::empty());
        }
        match query_catalog::validate_page(request.limit) {
            Ok(()) => {},
            Err(e) => {
                run.fail(e);
                return run;
            },
        }
        if let Some(after) = request.after_commit_version {
            if after.get() > read_version.get() {
                run.fail(
                    QueryError::Engine(
                        AgentMetadataError::ReadVersionInFuture {
                            requested: after.get(),
                            current: read_version.get(),
                        },
                    ),
                );
                return run;
            }
        }
        match &request.cursor {
            Some(cursor) => {
                match query_cursor::decode_change_cursor(
                    cursor.as_slice(),
                    read_version,
                    &request_digest,
                    request.after_commit_version,
                ) {
                    Ok((commit_version, sequence)) => {
                        let position = ChangePosition { commit_version, sequence };
                        run.stage = ChangeStage::ReadingAnchor(position);
                        run.marker = Some(position);
                    },
                    Err(e) => {
                        run.fail(e);
                    },
                }
            },
            None => {
                run.marker = match request.after_commit_version {
                    Some(commit_version) => Some(
                        ChangePosition { commit_version, sequence: u32::MAX },
                    ),
                    None => None,
                };
            },
        }
        run
    }

    /// What the caller does next.
    pub fn action(&self) -> (action: ChangeAction)
        ensures
            match action {
                ChangeAction::ReadAnchor(position) => self@.stage
                    == ChangeStageView::ReadingAnchor(position@.0, position@.1),
                ChangeAction::Scan(marker) => self@.stage == ChangeStageView::Scanning
                    && bytes::option_view(marker) == self@.marker,
                ChangeAction::Resolve(commit_version, workbench_id) => self@.stage
                    == ChangeStageView::Resolving(commit_version@, workbench_id@),
                ChangeAction::Finish => self@.stage is Finished,
            },
    {
        match &self.stage {
            ChangeStage::ReadingAnchor(position) => ChangeAction::ReadAnchor(*position),
            ChangeStage::Scanning => ChangeAction::Scan(self.marker),
            ChangeStage::Resolving(commit_version, workbench_id) => ChangeAction::Resolve(
                *commit_version,
                workbench_id.clone(),
            ),
            ChangeStage::Finished(_) => ChangeAction::Finish,
        }
    }

    /// Hands back the event at the position of the cursor.
    pub fn anchor_read(&mut self, read: PointRead<ChangeEventRecord>)
        requires
            old(self).wf(),
            old(self)@.stage is ReadingAnchor,
        ensures
            final(self).wf(),
            final(self)@ == old(self)@.after_anchor(store_records::point_read_view(read)),
    {
        match read {
            Err(source) => self.fail(QueryError::Engine(source)),
            Ok(None) => self.fail(QueryError::CursorAnchorMissing),
            Ok(Some(event)) => {
                self.anchor = Some(ChangeItem { position: self.marker, event });
                self.settle_anchor();
            },
        }
    }

    /// Hands back the scanned events.
    pub fn events_scanned(&mut self, scanned: Result<Vec<ChangeItem>, AgentMetadataError>)
        requires
            old(self).wf(),
            old(self)@.stage is Scanning,
        ensures
            final(self).wf(),
            final(self)@ == old(self)@.after_scan(scan_view(scanned)),
    {
        match scanned {
            Err(source) => self.fail(QueryError::Engine(source)),
            Ok(batch) => {
                self.last_batch = batch.len() < ENGINE_SCAN_BATCH;
                self.batch = batch;
                self.drain();
            },
        }
    }

    /// Hands back the visible workspace of the workbench at the commit version
    /// that the run asked for.
    pub fn workspace_resolved(&mut self, found: Result<Option<WorkspaceRecord>, NamespaceError>)
        requires
            old(self).wf(),
            old(self)@.stage is Resolving,
        ensures
            final(self).wf(),
            final(self)@ == old(self)@.after_resolve(
                old(self)@.stage->Resolving_0,
                old(self)@.stage->Resolving_1,
                query_rows::namespace_outcome(found),
            ),
    {
        let ghost before = self@;
        let workspace = match found {
            Ok(workspace) => workspace,
            Err(e) => {
                self.fail(QueryError::Namespace(e));
                return;
            },
        };
        let incarnation_id = match workspace {
            Some(workspace) => Some(workspace.incarnation_id),
            None => None,
        };
        let (commit_version, workbench_id) = match &self.stage {
            ChangeStage::Resolving(commit_version, workbench_id) => (
                *commit_version,
                workbench_id.clone(),
            ),
            _ => {
                return;
            },
        };
        let current: bool = match self.cache_version {
            Some(version) => version.get() == commit_version.get(),
            None => false,
        };
        if !current {
            self.cache_version = Some(commit_version);
            self.cache = Vec::new();
            assert(self@.cache =~= Seq::<(Seq<u8>, Option<Seq<u8>>)>::empty());
        }
        let ghost kept = self@.cache;
        self.cache.push(CachedWorkspace { workbench_id, incarnation_id });
        assert(self@.cache =~= kept.push((workbench_id@, bytes::option_view(incarnation_id))));
        self.settle_anchor();
    }

    /// The result of a run that is over.
    pub fn into_result(self) -> (result: Result<ChangePage, QueryError>)
        requires
            self@.stage is Finished,
        ensures
            self@.stage == ChangeStageView::Finished(query_types::outcome(result)),
    {
        match self.stage {
            ChangeStage::Finished(result) => result,
            _ => Err(QueryError::CursorAnchorMissing),
        }
    }
}

/// Starts to page strict typed events from an append-only durable position.
pub fn read_changes_at(context: RootReadContext, request: &ChangePageRequest) -> (run: ChangeRun)
    ensures
        run@ == ChangeRunView::started(context@.root_id, request@, context@.read_version),
        run.wf(),
{
    ChangeRun::start(context.root_id, context.read_version, request)
}

/// Contents of scanned events.
pub open spec fn scan_view(scanned: Result<Vec<ChangeItem>, AgentMetadataError>) -> Result<
    Seq<ChangeItemView>,
    StoreFailure,
> {
    match scanned {
        Ok(items) => Ok(store_records::views(items@)),
        Err(e) => Err(e.model()),
    }
}

} // verus!
