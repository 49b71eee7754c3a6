//! Storage-independent metadata read counters of one diagnostic session.

use vstd::prelude::*;


verus! {

/// What a point read was for.
#[derive(Clone, Copy, Debug, PartialEq, Eq, Structural)]
pub enum MetadataPointReadSource {
    System,
    RootFence,
    WorkspaceCurrent,
    PathCurrent,
    Other,
}

/// Storage-independent metadata read counters from one diagnostic session.
///
/// Counters belong to the store that started the session. Coverage is limited
/// to fenced query point and range paths; write-transaction and
/// recovery-internal reads are not counted. A range read that fails before
/// iterator completion may not contribute final byte counts.
#[derive(Clone, Copy, Debug, PartialEq, Eq, Structural)]
pub struct MetadataReadStats {
    pub point_reads_system: u64,
    pub point_reads_root_fence: u64,
    pub point_reads_workspace_current: u64,
    pub point_reads_path_current: u64,
    pub point_reads_other: u64,
    pub point_hits: u64,
    pub point_misses: u64,
    /// Value bytes returned by successful metadata point reads.
    pub point_value_bytes: u64,
    /// Range-read operations requested by callers.
    pub scan_calls: u64,
    /// Key and value bytes emitted by range reads.
    pub scan_key_bytes: u64,
    pub scan_value_bytes: u64,
    /// Cursors stopped because the raw page budget was filled. This does not
    /// prove that another storage entry exists.
    pub scan_raw_limit_stops: u64,
}

/// The sum of two counters, which stops at the largest counter.
pub open spec fn counted(a: int, b: int) -> u64 {
    if a + b > u64::MAX {
        u64::MAX
    } else {
        (a + b) as u64
    }
}

impl Default for MetadataReadStats {
    fn default() -> (stats: Self)
        ensures
            stats == Self::zero(),
    {
        Self {
            point_reads_system: 0,
            point_reads_root_fence: 0,
            point_reads_workspace_current: 0,
            point_reads_path_current: 0,
            point_reads_other: 0,
            point_hits: 0,
            point_misses: 0,
            point_value_bytes: 0,
            scan_calls: 0,
            scan_key_bytes: 0,
            scan_value_bytes: 0,
            scan_raw_limit_stops: 0,
        }
    }
}

impl MetadataReadStats {
    /// Counters of a session that has read nothing.
    pub open spec fn zero() -> Self {
        Self {
            point_reads_system: 0,
            point_reads_root_fence: 0,
            point_reads_workspace_current: 0,
            point_reads_path_current: 0,
            point_reads_other: 0,
            point_hits: 0,
            point_misses: 0,
            point_value_bytes: 0,
            scan_calls: 0,
            scan_key_bytes: 0,
            scan_value_bytes: 0,
            scan_raw_limit_stops: 0,
        }
    }

    /// Counters after one point read, which returned a value of `value_bytes`
    /// bytes or found none.
    pub open spec fn after_point(
        self,
        source: MetadataPointReadSource,
        value_bytes: Option<usize>,
    ) -> Self {
        let seen = match source {
            MetadataPointReadSource::System => Self {
                point_reads_system: counted(self.point_reads_system as int, 1),
                ..self
            },
            MetadataPointReadSource::RootFence => Self {
                point_reads_root_fence: counted(self.point_reads_root_fence as int, 1),
                ..self
            },
            MetadataPointReadSource::WorkspaceCurrent => Self {
                point_reads_workspace_current: counted(
                    self.point_reads_workspace_current as int,
                    1,
                ),
                ..self
            },
            MetadataPointReadSource::PathCurrent => Self {
                point_reads_path_current: counted(self.point_reads_path_current as int, 1),
                ..self
            },
            MetadataPointReadSource::Other => Self {
                point_reads_other: counted(self.point_reads_other as int, 1),
                ..self
            },
        };
        match value_bytes {
            Some(bytes) => Self {
                point_hits: counted(self.point_hits as int, 1),
                point_value_bytes: counted(self.point_value_bytes as int, bytes as int),
                ..seen
            },
            None => Self { point_misses: counted(self.point_misses as int, 1), ..seen },
        }
    }

    /// Counters after one range read was requested.
    pub open spec fn after_scan_call(self) -> Self {
        Self { scan_calls: counted(self.scan_calls as int, 1), ..self }
    }

    /// Counters after one range read emitted its entries.
    pub open spec fn after_scan_result(
        self,
        key_bytes: u64,
        value_bytes: u64,
        stopped_at_limit: bool,
    ) -> Self {
        Self {
            scan_key_bytes: counted(self.scan_key_bytes as int, key_bytes as int),
            scan_value_bytes: counted(self.scan_value_bytes as int, value_bytes as int),
            scan_raw_limit_stops: counted(
                self.scan_raw_limit_stops as int,
                if stopped_at_limit {
                    1
                } else {
                    0
                },
            ),
            ..self
        }
    }

    /// Point reads of every source.
    #[must_use]
    pub fn point_reads_total(&self) -> (total: u64)
        ensures
            total == counted(
                self.point_reads_system + self.point_reads_root_fence
                    + self.point_reads_workspace_current + self.point_reads_path_current,
                self.point_reads_other as int,
            ),
    {
        self.point_reads_system.saturating_add(self.point_reads_root_fence).saturating_add(
            self.point_reads_workspace_current,
        ).saturating_add(self.point_reads_path_current).saturating_add(self.point_reads_other)
    }

    /// Counts one point read.
    fn record_point(&mut self, source: MetadataPointReadSource, value_bytes: Option<usize>)
        ensures
            *final(self) == old(self).after_point(source, value_bytes),
    {
        match source {
            MetadataPointReadSource::System => {
                self.point_reads_system = self.point_reads_system.saturating_add(1);
            },
            MetadataPointReadSource::RootFence => {
                self.point_reads_root_fence = self.point_reads_root_fence.saturating_add(1);
            },
            MetadataPointReadSource::WorkspaceCurrent => {
                self.point_reads_workspace_current =
                self.point_reads_workspace_current.saturating_add(1);
            },
            MetadataPointReadSource::PathCurrent => {
                self.point_reads_path_current = self.point_reads_path_current.saturating_add(1);
            },
            MetadataPointReadSource::Other => {
                self.point_reads_other = self.point_reads_other.saturating_add(1);
            },
        }
        match value_bytes {
            Some(bytes) => {
                self.point_hits = self.point_hits.saturating_add(1);
                self.point_value_bytes = self.point_value_bytes.saturating_add(bytes as u64);
            },
            None => {
                self.point_misses = self.point_misses.saturating_add(1);
            },
        }
    }

    /// Counts one requested range read.
    fn record_scan_call(&mut self)
        ensures
            *final(self) == old(self).after_scan_call(),
    {
        self.scan_calls = self.scan_calls.saturating_add(1);
    }

    /// Counts what one range read emitted.
    fn record_scan_result(&mut self, key_bytes: u64, value_bytes: u64, stopped_at_limit: bool)
        ensures
            *final(self) == old(self).after_scan_result(key_bytes, value_bytes, stopped_at_limit),
    {
        self.scan_key_bytes = self.scan_key_bytes.saturating_add(key_bytes);
        self.scan_value_bytes = self.scan_value_bytes.saturating_add(value_bytes);
        if stopped_at_limit {
            self.scan_raw_limit_stops = self.scan_raw_limit_stops.saturating_add(1);
        }
    }
}

/// Refused use of a diagnostic session.
#[derive(Clone, Debug, PartialEq, Eq, Structural)]
#[non_exhaustive]
pub enum MetadataReadStatsSessionError {
    ThreadSessionAlreadyActive,
    ThreadSessionMissing,
    ThreadSessionStoreMismatch,
    StoreSessionAlreadyActive,
}

impl MetadataReadStatsSessionError {
    /// Diagnostic text of this refusal.
    pub open spec fn message_text(self) -> &'static str {
        match self {
            Self::ThreadSessionAlreadyActive =>
                "a metadata read-stats session is already active on this thread",
            Self::ThreadSessionMissing =>
                "the metadata read-stats session is not active on this thread",
            Self::ThreadSessionStoreMismatch =>
                "the active metadata read-stats session belongs to another store",
            Self::StoreSessionAlreadyActive =>
                "a metadata read-stats session is already active for this store",
        }
    }

    /// Diagnostic text of this refusal.
    pub fn message(&self) -> (message: String)
        ensures
            message@ == self.message_text()@,
    {
        match self {
            Self::ThreadSessionAlreadyActive =>
                "a metadata read-stats session is already active on this thread",
            Self::ThreadSessionMissing =>
                "the metadata read-stats session is not active on this thread",
            Self::ThreadSessionStoreMismatch =>
                "the active metadata read-stats session belongs to another store",
            Self::StoreSessionAlreadyActive =>
                "a metadata read-stats session is already active for this store",
        }.to_owned()
    }
}

/// A session that is counting for one store.
#[derive(Clone, Copy, Debug, PartialEq, Eq, Structural)]
pub struct ActiveMetadataReadStats {
    pub store_key: usize,
    pub counters: MetadataReadStats,
}

/// The place of at most one session: one thread has one.
#[derive(Clone, Copy, Debug, PartialEq, Eq, Structural)]
pub struct MetadataReadStatsSlot {
    pub active: Option<ActiveMetadataReadStats>,
}

impl Default for MetadataReadStatsSlot {
    fn default() -> (slot: Self)
        ensures
            slot.active is None,
    {
        Self { active: None }
    }
}

impl MetadataReadStatsSlot {
    /// The slot counts for this store.
    pub open spec fn counts_for(self, store_key: usize) -> bool {
        self.active matches Some(active) && active.store_key == store_key
    }

    /// The slot with the counters of its session replaced, if it counts for
    /// this store; otherwise the same slot.
    pub open spec fn with_counters(self, store_key: usize, counters: MetadataReadStats) -> Self {
        if self.counts_for(store_key) {
            Self { active: Some(ActiveMetadataReadStats { store_key, counters }) }
        } else {
            self
        }
    }
}

/// Starts a session for one store, if none is active.
pub fn begin_session(slot: &mut MetadataReadStatsSlot, store_key: usize) -> (result: Result<
    (),
    MetadataReadStatsSessionError,
>)
    ensures
        match old(slot).active {
            Some(_) => result == Err::<(), MetadataReadStatsSessionError>(
                MetadataReadStatsSessionError::ThreadSessionAlreadyActive,
            ) && *final(slot) == *old(slot),
            None => result == Ok::<(), MetadataReadStatsSessionError>(()) && final(slot).active
                == Some(
                ActiveMetadataReadStats { store_key, counters: MetadataReadStats::zero() },
            ),
        },
{
    if slot.active.is_some() {
        return Err(MetadataReadStatsSessionError::ThreadSessionAlreadyActive);
    }
    slot.active = Some(
        ActiveMetadataReadStats { store_key, counters: MetadataReadStats::default() },
    );
    Ok(())
}

/// Ends the session of one store and gives its counters. A session of another
/// store stays active.
pub fn finish_session(slot: &mut MetadataReadStatsSlot, store_key: usize) -> (result: Result<
    MetadataReadStats,
    MetadataReadStatsSessionError,
>)
    ensures
        match old(slot).active {
            None => result == Err::<MetadataReadStats, MetadataReadStatsSessionError>(
                MetadataReadStatsSessionError::ThreadSessionMissing,
            ) && *final(slot) == *old(slot),
            Some(active) => if active.store_key != store_key {
                result == Err::<MetadataReadStats, MetadataReadStatsSessionError>(
                    MetadataReadStatsSessionError::ThreadSessionStoreMismatch,
                ) && *final(slot) == *old(slot)
            } else {
                result == Ok::<MetadataReadStats, MetadataReadStatsSessionError>(active.counters)
                    && final(slot).active is None
            },
        },
{
    match slot.active {
        None => Err(MetadataReadStatsSessionError::ThreadSessionMissing),
        Some(active) => {
            if active.store_key != store_key {
                return Err(MetadataReadStatsSessionError::ThreadSessionStoreMismatch);
            }
            slot.active = None;
            Ok(active.counters)
        },
    }
}

/// Drops the session of one store, if it is the active one.
pub fn cancel_session(slot: &mut MetadataReadStatsSlot, store_key: usize)
    ensures
        old(slot).counts_for(store_key) ==> final(slot).active is None,
        !old(slot).counts_for(store_key) ==> *final(slot) == *old(slot),
{
    match slot.active {
        Some(active) => {
            if active.store_key == store_key {
                slot.active = None;
            }
        },
        None => {},
    }
}

/// Counts one point read of a store that has the active session.
pub fn record_point(
    slot: &mut MetadataReadStatsSlot,
    store_key: usize,
    source: MetadataPointReadSource,
    value_bytes: Option<usize>,
)
    ensures
        *final(slot) == old(slot).with_counters(
            store_key,
            old(slot).active->Some_0.counters.after_point(source, value_bytes),
        ),
{
    match slot.active {
        Some(active) => {
            if active.store_key == store_key {
                let mut counters = active.counters;
                counters.record_point(source, value_bytes);
                slot.active = Some(ActiveMetadataReadStats { store_key, counters });
            }
        },
        None => {},
    }
}

/// Counts one requested range read of a store that has the active session.
pub fn record_scan_call(slot: &mut MetadataReadStatsSlot, store_key: usize)
    ensures
        *final(slot) == old(slot).with_counters(
            store_key,
            old(slot).active->Some_0.counters.after_scan_call(),
        ),
{
    match slot.active {
        Some(active) => {
            if active.store_key == store_key {
                let mut counters = active.counters;
                counters.record_scan_call();
                slot.active = Some(ActiveMetadataReadStats { store_key, counters });
            }
        },
        None => {},
    }
}

/// Counts what one range read of a store that has the active session emitted.
pub fn record_scan_result(
    slot: &mut MetadataReadStatsSlot,
    store_key: usize,
    key_bytes: u64,
    value_bytes: u64,
    stopped_at_limit: bool,
)
    ensures
        *final(slot) == old(slot).with_counters(
            store_key,
            old(slot).active->Some_0.counters.after_scan_result(
                key_bytes,
                value_bytes,
                stopped_at_limit,
            ),
        ),
{
    match slot.active {
        Some(active) => {
            if active.store_key == store_key {
                let mut counters = active.counters;
                counters.record_scan_result(key_bytes, value_bytes, stopped_at_limit);
                slot.active = Some(ActiveMetadataReadStats { store_key, counters });
            }
        },
        None => {},
    }
}

/// Point reads that were counted as hits or misses: every one of them.
pub open spec fn hits_and_misses(stats: MetadataReadStats) -> int {
    stats.point_hits + stats.point_misses
}

/// Point reads of every source.
pub open spec fn sources(stats: MetadataReadStats) -> int {
    stats.point_reads_system + stats.point_reads_root_fence + stats.point_reads_workspace_current
        + stats.point_reads_path_current + stats.point_reads_other
}

/// As long as no counter has reached its end, every point read adds one to its
/// source and one to hits or misses, so the two totals stay equal.
pub proof fn point_totals_agree(
    stats: MetadataReadStats,
    source: MetadataPointReadSource,
    value_bytes: Option<usize>,
)
    requires
        sources(stats) == hits_and_misses(stats),
        sources(stats) < u64::MAX,
    ensures
        sources(stats.after_point(source, value_bytes)) == sources(stats) + 1,
        hits_and_misses(stats.after_point(source, value_bytes)) == hits_and_misses(stats) + 1,
{
}

/// A read of another store never changes the counters of the active session.
pub proof fn reads_of_other_stores_are_not_counted(
    slot: MetadataReadStatsSlot,
    store_key: usize,
    counters: MetadataReadStats,
)
    requires
        slot.active matches Some(active) ==> active.store_key != store_key,
    ensures
        slot.with_counters(store_key, counters) == slot,
{
}

} // verus!
