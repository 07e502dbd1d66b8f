//! The families of metrics that the indexer exposes: their names, and what they are about.
use vstd::prelude::*;

verus! {

pub const GAUGE: &'static str = "gauge";

pub const COUNTER: &'static str = "counter";

pub const SUMMARY: &'static str = "summary";

pub const CHECKPOINT_NEXT_BLOCK: &'static str = "ormp_indexer_checkpoint_next_block";

pub const CHECKPOINT_NEXT_BLOCK_HELP: &'static str =
    "Next block recorded per chain and dataset.";

pub const CHECKPOINT_UPDATED_TIMESTAMP_SECONDS: &'static str = "ormp_indexer_checkpoint_updated_timestamp_seconds";

pub const CHECKPOINT_UPDATED_TIMESTAMP_SECONDS_HELP: &'static str =
    "Unix timestamp of the checkpoint row update.";

pub const CHECKPOINT_ROWS: &'static str = "ormp_indexer_checkpoint_rows";

pub const CHECKPOINT_ROWS_HELP: &'static str =
    "Total checkpoint rows.";

pub const CONFIGURED_SCOPE_INFO: &'static str = "ormp_indexer_configured_scope_info";

pub const CONFIGURED_SCOPE_INFO_HELP: &'static str =
    "Configured ORMP indexer scope information.";

pub const CHECKPOINT_PRESENT: &'static str = "ormp_indexer_checkpoint_present";

pub const CHECKPOINT_PRESENT_HELP: &'static str =
    "Whether the configured ORMP indexer scope has a checkpoint row.";

pub const TARGET_BLOCK: &'static str = "ormp_indexer_target_block";

pub const TARGET_BLOCK_HELP: &'static str =
    "Current target block after Datalens head buffer per chain and dataset.";

pub const REMAINING_BLOCKS: &'static str = "ormp_indexer_remaining_blocks";

pub const REMAINING_BLOCKS_HELP: &'static str =
    "Current remaining blocks per chain and dataset.";

pub const DATALENS_HEAD_HEIGHT: &'static str = "ormp_indexer_datalens_head_height";

pub const DATALENS_HEAD_HEIGHT_HELP: &'static str =
    "Latest Datalens head height observed by the ORMP indexer.";

pub const DATALENS_HEAD_OBSERVED_TIMESTAMP_SECONDS: &'static str = "ormp_indexer_datalens_head_observed_timestamp_seconds";

pub const DATALENS_HEAD_OBSERVED_TIMESTAMP_SECONDS_HELP: &'static str =
    "Unix timestamp of the last Datalens head observation.";

pub const DATALENS_HEAD_ADVANCED_TIMESTAMP_SECONDS: &'static str = "ormp_indexer_datalens_head_advanced_timestamp_seconds";

pub const DATALENS_HEAD_ADVANCED_TIMESTAMP_SECONDS_HELP: &'static str =
    "Unix timestamp of the last Datalens head advancement.";

pub const CHAIN_LAST_SUCCESS_TIMESTAMP_SECONDS: &'static str = "ormp_indexer_chain_last_success_timestamp_seconds";

pub const CHAIN_LAST_SUCCESS_TIMESTAMP_SECONDS_HELP: &'static str =
    "Unix timestamp of the last successful ORMP chain pass.";

pub const CHECKPOINT_LAST_FORWARD_ADVANCE_TIMESTAMP_SECONDS: &'static str = "ormp_indexer_checkpoint_last_forward_advance_timestamp_seconds";

pub const CHECKPOINT_LAST_FORWARD_ADVANCE_TIMESTAMP_SECONDS_HELP: &'static str =
    "Unix timestamp of the last forward checkpoint advancement.";

pub const CONSECUTIVE_FAILURES: &'static str = "ormp_indexer_consecutive_failures";

pub const CONSECUTIVE_FAILURES_HELP: &'static str =
    "Consecutive ORMP chain pass failures.";

pub const CHAIN_PASSES_TOTAL: &'static str = "ormp_indexer_chain_passes_total";

pub const CHAIN_PASSES_TOTAL_HELP: &'static str =
    "ORMP chain passes by result.";

pub const RANGES_TOTAL: &'static str = "ormp_indexer_ranges_total";

pub const RANGES_TOTAL_HELP: &'static str =
    "ORMP Datalens ranges by result.";

pub const BLOCKS_PROCESSED_TOTAL: &'static str = "ormp_indexer_blocks_processed_total";

pub const BLOCKS_PROCESSED_TOTAL_HELP: &'static str =
    "ORMP blocks processed successfully.";

pub const RECORDS_TOTAL: &'static str = "ormp_indexer_records_total";

pub const RECORDS_TOTAL_HELP: &'static str =
    "ORMP records by result stage.";

pub const BATCH_DURATION_SECONDS: &'static str = "ormp_indexer_batch_duration_seconds";

pub const BATCH_DURATION_SECONDS_HELP: &'static str =
    "ORMP successful batch duration summary.";

pub const DATALENS_REQUESTS_TOTAL: &'static str = "ormp_indexer_datalens_requests_total";

pub const DATALENS_REQUESTS_TOTAL_HELP: &'static str =
    "ORMP Datalens requests by operation and result.";

pub const REORG_ROLLBACKS_TOTAL: &'static str = "ormp_indexer_reorg_rollbacks_total";

pub const REORG_ROLLBACKS_TOTAL_HELP: &'static str =
    "ORMP reorg rollbacks.";

pub const LEGACY_TABLE_ROWS: &'static str = "ormp_indexer_legacy_table_rows";

pub const LEGACY_TABLE_ROWS_HELP: &'static str =
    "Legacy GraphQL table row counts.";

pub const BATCH_DURATION_SECONDS_SUM: &'static str = "ormp_indexer_batch_duration_seconds_sum";

pub const BATCH_DURATION_SECONDS_COUNT: &'static str = "ormp_indexer_batch_duration_seconds_count";

/// What tells the names apart: no two have the same length and the same character at this
/// place, except for the times of the last observation and of the last advance, which differ
/// further on.
pub proof fn lemma_names_are_told_apart()
    ensures
        CHECKPOINT_NEXT_BLOCK@.len() == 34 && CHECKPOINT_NEXT_BLOCK@[15] == 'e',
        CHECKPOINT_UPDATED_TIMESTAMP_SECONDS@.len() == 49 && CHECKPOINT_UPDATED_TIMESTAMP_SECONDS@[15] == 'e',
        CHECKPOINT_ROWS@.len() == 28 && CHECKPOINT_ROWS@[15] == 'e',
        CONFIGURED_SCOPE_INFO@.len() == 34 && CONFIGURED_SCOPE_INFO@[15] == 'n',
        CHECKPOINT_PRESENT@.len() == 31 && CHECKPOINT_PRESENT@[15] == 'e',
        TARGET_BLOCK@.len() == 25 && TARGET_BLOCK@[15] == 'r',
        REMAINING_BLOCKS@.len() == 29 && REMAINING_BLOCKS@[15] == 'm',
        DATALENS_HEAD_HEIGHT@.len() == 33 && DATALENS_HEAD_HEIGHT@[15] == 't',
        DATALENS_HEAD_OBSERVED_TIMESTAMP_SECONDS@.len() == 53 && DATALENS_HEAD_OBSERVED_TIMESTAMP_SECONDS@[15] == 't',
        DATALENS_HEAD_ADVANCED_TIMESTAMP_SECONDS@.len() == 53 && DATALENS_HEAD_ADVANCED_TIMESTAMP_SECONDS@[15] == 't',
        CHAIN_LAST_SUCCESS_TIMESTAMP_SECONDS@.len() == 49 && CHAIN_LAST_SUCCESS_TIMESTAMP_SECONDS@[15] == 'a',
        CHECKPOINT_LAST_FORWARD_ADVANCE_TIMESTAMP_SECONDS@.len() == 62 && CHECKPOINT_LAST_FORWARD_ADVANCE_TIMESTAMP_SECONDS@[15] == 'e',
        CONSECUTIVE_FAILURES@.len() == 33 && CONSECUTIVE_FAILURES@[15] == 'n',
        CHAIN_PASSES_TOTAL@.len() == 31 && CHAIN_PASSES_TOTAL@[15] == 'a',
        RANGES_TOTAL@.len() == 25 && RANGES_TOTAL@[15] == 'n',
        BLOCKS_PROCESSED_TOTAL@.len() == 35 && BLOCKS_PROCESSED_TOTAL@[15] == 'o',
        RECORDS_TOTAL@.len() == 26 && RECORDS_TOTAL@[15] == 'c',
        BATCH_DURATION_SECONDS@.len() == 35 && BATCH_DURATION_SECONDS@[15] == 't',
        DATALENS_REQUESTS_TOTAL@.len() == 36 && DATALENS_REQUESTS_TOTAL@[15] == 't',
        REORG_ROLLBACKS_TOTAL@.len() == 34 && REORG_ROLLBACKS_TOTAL@[15] == 'o',
        LEGACY_TABLE_ROWS@.len() == 30 && LEGACY_TABLE_ROWS@[15] == 'g',
        BATCH_DURATION_SECONDS_SUM@.len() == 39 && BATCH_DURATION_SECONDS_SUM@[15] == 't',
        BATCH_DURATION_SECONDS_COUNT@.len() == 41 && BATCH_DURATION_SECONDS_COUNT@[15] == 't',
        DATALENS_HEAD_OBSERVED_TIMESTAMP_SECONDS@[27] == 'o',
        DATALENS_HEAD_ADVANCED_TIMESTAMP_SECONDS@[27] == 'a',
{
    reveal_strlit("ormp_indexer_checkpoint_next_block");
    reveal_strlit("ormp_indexer_checkpoint_updated_timestamp_seconds");
    reveal_strlit("ormp_indexer_checkpoint_rows");
    reveal_strlit("ormp_indexer_configured_scope_info");
    reveal_strlit("ormp_indexer_checkpoint_present");
    reveal_strlit("ormp_indexer_target_block");
    reveal_strlit("ormp_indexer_remaining_blocks");
    reveal_strlit("ormp_indexer_datalens_head_height");
    reveal_strlit("ormp_indexer_datalens_head_observed_timestamp_seconds");
    reveal_strlit("ormp_indexer_datalens_head_advanced_timestamp_seconds");
    reveal_strlit("ormp_indexer_chain_last_success_timestamp_seconds");
    reveal_strlit("ormp_indexer_checkpoint_last_forward_advance_timestamp_seconds");
    reveal_strlit("ormp_indexer_consecutive_failures");
    reveal_strlit("ormp_indexer_chain_passes_total");
    reveal_strlit("ormp_indexer_ranges_total");
    reveal_strlit("ormp_indexer_blocks_processed_total");
    reveal_strlit("ormp_indexer_records_total");
    reveal_strlit("ormp_indexer_batch_duration_seconds");
    reveal_strlit("ormp_indexer_datalens_requests_total");
    reveal_strlit("ormp_indexer_reorg_rollbacks_total");
    reveal_strlit("ormp_indexer_legacy_table_rows");
    reveal_strlit("ormp_indexer_batch_duration_seconds_sum");
    reveal_strlit("ormp_indexer_batch_duration_seconds_count");
}

} // verus!
