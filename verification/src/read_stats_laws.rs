//! What the counters of metadata reads count.

use vstd::prelude::*;

use crate::read_stats::{MetadataPointReadSource, MetadataReadStats, MetadataReadStatsSlot};

verus! {

/// A counter grew by an amount, or stands at its end.
pub open spec fn grew(before: u64, after: u64, amount: int) -> bool {
    after == (if before + amount <= 0xffff_ffff_ffff_ffff {
        before + amount
    } else {
        0xffff_ffff_ffff_ffff
    })
}

/// A point read counts once under its source and under no other, once as a hit
/// with its bytes where it found a value and once as a miss where it did not,
/// and it counts nothing of scans.
pub proof fn point_reads_are_counted(
    before: MetadataReadStats,
    source: MetadataPointReadSource,
    value_bytes: Option<usize>,
)
    ensures
        ({
            let after = before.after_point(source, value_bytes);
            &&& grew(
                before.point_reads_system,
                after.point_reads_system,
                if source is System { 1 } else { 0 },
            )
            &&& grew(
                before.point_reads_root_fence,
                after.point_reads_root_fence,
                if source is RootFence { 1 } else { 0 },
            )
            &&& grew(
                before.point_reads_workspace_current,
                after.point_reads_workspace_current,
                if source is WorkspaceCurrent { 1 } else { 0 },
            )
            &&& grew(
                before.point_reads_path_current,
                after.point_reads_path_current,
                if source is PathCurrent { 1 } else { 0 },
            )
            &&& grew(
                before.point_reads_other,
                after.point_reads_other,
                if source is Other { 1 } else { 0 },
            )
            &&& grew(
                before.point_hits,
                after.point_hits,
                if value_bytes is Some { 1 } else { 0 },
            )
            &&& grew(
                before.point_misses,
                after.point_misses,
                if value_bytes is None { 1 } else { 0 },
            )
            &&& grew(
                before.point_value_bytes,
                after.point_value_bytes,
                if value_bytes is Some { value_bytes->0 as int } else { 0 },
            )
            &&& after.scan_calls == before.scan_calls
            &&& after.scan_key_bytes == before.scan_key_bytes
            &&& after.scan_value_bytes == before.scan_value_bytes
            &&& after.scan_raw_limit_stops == before.scan_raw_limit_stops
        }),
{
}

/// A scan counts once when it is called, and with its key and value bytes when
/// it has read, and once more where it stopped at its limit; it counts nothing
/// of point reads.
pub proof fn scans_are_counted(
    before: MetadataReadStats,
    key_bytes: u64,
    value_bytes: u64,
    stopped_at_limit: bool,
)
    ensures
        ({
            let called = before.after_scan_call();
            let after = before.after_scan_result(key_bytes, value_bytes, stopped_at_limit);
            &&& grew(before.scan_calls, called.scan_calls, 1)
            &&& called == (MetadataReadStats { scan_calls: called.scan_calls, ..before })
            &&& grew(before.scan_key_bytes, after.scan_key_bytes, key_bytes as int)
            &&& grew(before.scan_value_bytes, after.scan_value_bytes, value_bytes as int)
            &&& grew(
                before.scan_raw_limit_stops,
                after.scan_raw_limit_stops,
                if stopped_at_limit { 1 } else { 0 },
            )
            &&& after == (MetadataReadStats {
                scan_key_bytes: after.scan_key_bytes,
                scan_value_bytes: after.scan_value_bytes,
                scan_raw_limit_stops: after.scan_raw_limit_stops,
                ..before
            })
        }),
{
}

/// A session starts with every counter at zero, and its counters change only
/// on reads of its own store.
pub proof fn sessions_count_their_store(
    slot: MetadataReadStatsSlot,
    store_key: usize,
    counters: MetadataReadStats,
)
    ensures
        ({
            let zero = MetadataReadStats::zero();
            &&& zero.point_reads_system == 0 && zero.point_reads_root_fence == 0
            &&& zero.point_reads_workspace_current == 0 && zero.point_reads_path_current == 0
            &&& zero.point_reads_other == 0 && zero.point_hits == 0 && zero.point_misses == 0
            &&& zero.point_value_bytes == 0 && zero.scan_calls == 0 && zero.scan_key_bytes == 0
            &&& zero.scan_value_bytes == 0 && zero.scan_raw_limit_stops == 0
        }),
        slot.active is Some && slot.active->0.store_key == store_key ==> {
            &&& slot.with_counters(store_key, counters).active is Some
            &&& slot.with_counters(store_key, counters).active->0.store_key == store_key
            &&& slot.with_counters(store_key, counters).active->0.counters == counters
        },
        slot.active is None || slot.active->0.store_key != store_key ==> slot.with_counters(
            store_key,
            counters,
        ) == slot,
{
}

} // verus!
