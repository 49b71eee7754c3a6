//! Sessions of read statistics.

use nokv_meta::read_stats::{
    begin_session, cancel_session, finish_session, record_point, record_scan_call,
    record_scan_result, MetadataPointReadSource, MetadataReadStats, MetadataReadStatsSlot,
};

#[test]
fn session_is_store_scoped_and_rejects_thread_local_nesting() {
    let mut slot = MetadataReadStatsSlot::default();
    begin_session(&mut slot, 7).unwrap();
    record_point(&mut slot, 7, MetadataPointReadSource::PathCurrent, Some(12));
    record_point(&mut slot, 8, MetadataPointReadSource::Other, Some(99));
    assert!(begin_session(&mut slot, 7)
        .unwrap_err()
        .message()
        .contains("already active"));

    let stats = finish_session(&mut slot, 7).unwrap();
    assert_eq!(stats.point_reads_path_current, 1);
    assert_eq!(stats.point_reads_other, 0);
    assert_eq!(stats.point_value_bytes, 12);

    begin_session(&mut slot, 8).unwrap();
    cancel_session(&mut slot, 8);
    begin_session(&mut slot, 9).unwrap();
    assert_eq!(finish_session(&mut slot, 9).unwrap(), MetadataReadStats::default());
}

#[test]
fn scan_results_record_only_storage_independent_counters() {
    let mut slot = MetadataReadStatsSlot::default();
    begin_session(&mut slot, 7).unwrap();
    record_scan_call(&mut slot, 7);
    record_scan_result(&mut slot, 7, 6, 7, true);

    let metadata = finish_session(&mut slot, 7).unwrap();
    assert_eq!(metadata.scan_calls, 1);
    assert_eq!(metadata.scan_key_bytes, 6);
    assert_eq!(metadata.scan_value_bytes, 7);
    assert_eq!(metadata.scan_raw_limit_stops, 1);
}
