//! Verified core of the workspace metadata plane.

pub mod bytes;
pub mod digest;
pub mod fdb_commit;
pub mod fdb_commit_laws;
pub mod fdb_keys;
pub mod fdb_laws;
pub mod fdb_provider;
pub mod fdb_store_laws;
pub mod fdb_scan;
pub mod fdb_scan_laws;
pub mod generic_index_codec;
pub mod generic_index_digest_laws;
pub mod generic_index_digests;
pub mod generic_index_format;
pub mod generic_index_laws;
pub mod generic_index_prefix_laws;
pub mod generic_index_records;
pub mod generic_index_valid_laws;
pub mod generic_index_validate;
pub mod holt_laws;
pub mod holt_provider;
pub mod holt_store_laws;
pub mod ids;
pub mod name_laws;
pub mod names;
pub mod namespace;
pub mod namespace_laws;
pub mod namespace_read_laws;
pub mod namespace_types;
pub mod number_laws;
pub mod ordering;
pub mod plan_laws;
pub mod plan_semantics;
pub mod positions;
pub mod prefix_scan;
pub mod provider;
pub mod provider_catalog;
pub mod provider_laws;
pub mod publish_codec;
pub mod publish_laws;
pub mod publish_operation;
pub mod publish_phase_laws;
pub mod publish_prefix_laws;
pub mod publish_records;
pub mod publish_validate;
pub mod query_aggregate;
pub mod query_aggregate_laws;
pub mod query_catalog;
pub mod query_catalog_laws;
pub mod query_change_due_laws;
pub mod query_change_laws;
pub mod query_change_page_laws;
pub mod query_change_run_laws;
pub mod query_changes;
pub mod query_count_laws;
pub mod query_cursor;
pub mod query_cursor_laws;
pub mod query_digests;
pub mod query_discovery;
pub mod query_discovery_laws;
pub mod query_groups;
pub mod query_message_laws;
pub mod query_page_laws;
pub mod query_predicate_laws;
pub mod query_request_laws;
pub mod query_result_laws;
pub mod query_row_laws;
pub mod query_rows;
pub mod query_search;
pub mod query_search_laws;
pub mod query_tally;
pub mod query_types;
pub mod read_stats;
pub mod read_stats_laws;
pub mod record_laws;
pub mod record_valid_laws;
pub mod records;
pub mod refusal_laws;
pub mod scalar_laws;
pub mod scalars;
pub mod scopes;
pub mod sorted_maps;
pub mod state_laws;
pub mod states;
pub mod store_records;
pub mod text;
pub mod text_laws;
