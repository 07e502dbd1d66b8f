//! What each recording does to the row of its scope, field by field.
use crate::metrics::{recorded, starting_row, RangeSuccessMetrics, RuntimeMetricsRow};
use crate::scope::{scope_key, MetricsScopeKey};
use vstd::prelude::*;

verus! {

/// A count that is held at the greatest number of 64 bits.
pub open spec fn capped(n: int) -> int {
    if n < 0x1_0000_0000_0000_0000 {
        n
    } else {
        0xffff_ffff_ffff_ffff
    }
}

/// No scope but `key` has gained, lost or changed its row.
pub open spec fn others_stay<S>(
    before: Map<MetricsScopeKey, RuntimeMetricsRow<S>>,
    after: Map<MetricsScopeKey, RuntimeMetricsRow<S>>,
    key: MetricsScopeKey,
) -> bool {
    forall|other: MetricsScopeKey|
        other != key ==> {
            &&& (#[trigger] after.contains_key(other)) == before.contains_key(other)
            &&& before.contains_key(other) ==> after[other] == before[other]
        }
}

/// An observation of the head sets its height, the target and the time of the observation, whatever
/// the row held before. It sets the time of the last advance too, unless a head was known that is
/// as high or higher. Nothing else changes; a scope that had no row starts from nothing.
pub proof fn lemma_chain_head_is_recorded<S: Default>(
    before: Map<MetricsScopeKey, RuntimeMetricsRow<S>>,
    after: Map<MetricsScopeKey, RuntimeMetricsRow<S>>,
    chain_id: u64,
    dataset: Seq<char>,
    now: S,
    latest_block: u64,
    target_block: u64,
)
    requires
        recorded(
            before,
            after,
            scope_key(chain_id, dataset),
            |row: RuntimeMetricsRow<S>, changed: RuntimeMetricsRow<S>|
                changed == row.with_chain_head(now, latest_block, target_block),
        ),
    ensures
        ({
            let key = MetricsScopeKey { chain_id, dataset };
            let known = before.contains_key(key);
            let held = before[key];
            let row = after[key];
            let count = |n: u64| if known { n as int } else { 0 };
            let block = |n: Option<u64>| if known { n } else { None };
            let time = |t: Option<S>| if known { t } else { None };
            &&& after.contains_key(key)
            &&& row.datalens_head_height == Some(latest_block)
            &&& row.target_block == Some(target_block)
            &&& row.datalens_head_observed_timestamp_seconds == Some(now)
            &&& row.datalens_head_advanced_timestamp_seconds == (if known
                && held.datalens_head_height is Some && held.datalens_head_height->0
                >= latest_block {
                held.datalens_head_advanced_timestamp_seconds
            } else {
                Some(now)
            })
            &&& row.remaining_blocks == block(held.remaining_blocks)
            &&& row.chain_last_success_timestamp_seconds
                == time(held.chain_last_success_timestamp_seconds)
            &&& row.checkpoint_last_forward_advance_timestamp_seconds
                == time(held.checkpoint_last_forward_advance_timestamp_seconds)
            &&& row.consecutive_failures == count(held.consecutive_failures)
            &&& row.chain_pass_success_total == count(held.chain_pass_success_total)
            &&& row.chain_pass_failure_total == count(held.chain_pass_failure_total)
            &&& row.ranges_success_total == count(held.ranges_success_total)
            &&& row.ranges_failure_total == count(held.ranges_failure_total)
            &&& row.blocks_processed_total == count(held.blocks_processed_total)
            &&& row.records_read_total == count(held.records_read_total)
            &&& row.records_decoded_total == count(held.records_decoded_total)
            &&& row.records_written_total == count(held.records_written_total)
            &&& row.batch_duration_seconds_count == count(held.batch_duration_seconds_count)
            &&& row.datalens_log_requests_success_total
                == count(held.datalens_log_requests_success_total)
            &&& row.datalens_log_requests_failure_total
                == count(held.datalens_log_requests_failure_total)
            &&& row.datalens_block_requests_success_total
                == count(held.datalens_block_requests_success_total)
            &&& row.datalens_block_requests_failure_total
                == count(held.datalens_block_requests_failure_total)
            &&& row.datalens_tx_requests_success_total
                == count(held.datalens_tx_requests_success_total)
            &&& row.datalens_tx_requests_failure_total
                == count(held.datalens_tx_requests_failure_total)
            &&& row.reorg_rollbacks_total == count(held.reorg_rollbacks_total)
            &&& known ==> row.batch_duration_seconds_sum == held.batch_duration_seconds_sum
            &&& !known ==> call_ensures(S::default, (), row.batch_duration_seconds_sum)
            &&& known ==> row.chain_id == held.chain_id && row.dataset == held.dataset
            &&& !known ==> row.chain_id == chain_id && row.dataset@ == dataset
            &&& others_stay(before, after, key)
        }),
{
}

/// A pass sets the number of failures in a row to the one given. A pass that succeeded raises the
/// total of successes by one and sets the time of the last success, whatever it was; one that
/// failed raises the total of failures by one and leaves that time. Nothing else changes.
pub proof fn lemma_chain_pass_is_recorded<S: Default>(
    before: Map<MetricsScopeKey, RuntimeMetricsRow<S>>,
    after: Map<MetricsScopeKey, RuntimeMetricsRow<S>>,
    chain_id: u64,
    dataset: Seq<char>,
    now: S,
    success: bool,
    consecutive_failures: u64,
)
    requires
        recorded(
            before,
            after,
            scope_key(chain_id, dataset),
            |row: RuntimeMetricsRow<S>, changed: RuntimeMetricsRow<S>|
                changed == row.with_chain_pass(now, success, consecutive_failures),
        ),
    ensures
        ({
            let key = MetricsScopeKey { chain_id, dataset };
            let known = before.contains_key(key);
            let held = before[key];
            let row = after[key];
            let count = |n: u64| if known { n as int } else { 0 };
            let block = |n: Option<u64>| if known { n } else { None };
            let time = |t: Option<S>| if known { t } else { None };
            let one_if = |raised: bool| if raised { 1int } else { 0 };
            &&& after.contains_key(key)
            &&& row.consecutive_failures == consecutive_failures
            &&& row.chain_pass_success_total
                == capped(count(held.chain_pass_success_total) + one_if(success))
            &&& row.chain_pass_failure_total
                == capped(count(held.chain_pass_failure_total) + one_if(!success))
            &&& success ==> row.chain_last_success_timestamp_seconds == Some(now)
            &&& !success ==> row.chain_last_success_timestamp_seconds == time(
                held.chain_last_success_timestamp_seconds,
            )
            &&& row.target_block == block(held.target_block)
            &&& row.remaining_blocks == block(held.remaining_blocks)
            &&& row.datalens_head_height == block(held.datalens_head_height)
            &&& row.datalens_head_observed_timestamp_seconds
                == time(held.datalens_head_observed_timestamp_seconds)
            &&& row.datalens_head_advanced_timestamp_seconds
                == time(held.datalens_head_advanced_timestamp_seconds)
            &&& row.checkpoint_last_forward_advance_timestamp_seconds
                == time(held.checkpoint_last_forward_advance_timestamp_seconds)
            &&& row.ranges_success_total == count(held.ranges_success_total)
            &&& row.ranges_failure_total == count(held.ranges_failure_total)
            &&& row.blocks_processed_total == count(held.blocks_processed_total)
            &&& row.records_read_total == count(held.records_read_total)
            &&& row.records_decoded_total == count(held.records_decoded_total)
            &&& row.records_written_total == count(held.records_written_total)
            &&& row.batch_duration_seconds_count == count(held.batch_duration_seconds_count)
            &&& row.datalens_log_requests_success_total
                == count(held.datalens_log_requests_success_total)
            &&& row.datalens_log_requests_failure_total
                == count(held.datalens_log_requests_failure_total)
            &&& row.datalens_block_requests_success_total
                == count(held.datalens_block_requests_success_total)
            &&& row.datalens_block_requests_failure_total
                == count(held.datalens_block_requests_failure_total)
            &&& row.datalens_tx_requests_success_total
                == count(held.datalens_tx_requests_success_total)
            &&& row.datalens_tx_requests_failure_total
                == count(held.datalens_tx_requests_failure_total)
            &&& row.reorg_rollbacks_total == count(held.reorg_rollbacks_total)
            &&& known ==> row.batch_duration_seconds_sum == held.batch_duration_seconds_sum
            &&& !known ==> call_ensures(S::default, (), row.batch_duration_seconds_sum)
            &&& known ==> row.chain_id == held.chain_id && row.dataset == held.dataset
            &&& !known ==> row.chain_id == chain_id && row.dataset@ == dataset
            &&& others_stay(before, after, key)
        }),
{
}

/// An observation of the blocks that remain sets their number, and nothing else.
pub proof fn lemma_remaining_blocks_are_recorded<S: Default>(
    before: Map<MetricsScopeKey, RuntimeMetricsRow<S>>,
    after: Map<MetricsScopeKey, RuntimeMetricsRow<S>>,
    chain_id: u64,
    dataset: Seq<char>,
    remaining_blocks: u64,
)
    requires
        recorded(
            before,
            after,
            scope_key(chain_id, dataset),
            |row: RuntimeMetricsRow<S>, changed: RuntimeMetricsRow<S>|
                changed == row.with_remaining_blocks(remaining_blocks),
        ),
    ensures
        ({
            let key = MetricsScopeKey { chain_id, dataset };
            let known = before.contains_key(key);
            let held = before[key];
            let row = after[key];
            let count = |n: u64| if known { n as int } else { 0 };
            let block = |n: Option<u64>| if known { n } else { None };
            let time = |t: Option<S>| if known { t } else { None };
            &&& after.contains_key(key)
            &&& row.remaining_blocks == Some(remaining_blocks)
            &&& row.target_block == block(held.target_block)
            &&& row.datalens_head_height == block(held.datalens_head_height)
            &&& row.datalens_head_observed_timestamp_seconds
                == time(held.datalens_head_observed_timestamp_seconds)
            &&& row.datalens_head_advanced_timestamp_seconds
                == time(held.datalens_head_advanced_timestamp_seconds)
            &&& row.chain_last_success_timestamp_seconds
                == time(held.chain_last_success_timestamp_seconds)
            &&& row.checkpoint_last_forward_advance_timestamp_seconds
                == time(held.checkpoint_last_forward_advance_timestamp_seconds)
            &&& row.consecutive_failures == count(held.consecutive_failures)
            &&& row.chain_pass_success_total == count(held.chain_pass_success_total)
            &&& row.chain_pass_failure_total == count(held.chain_pass_failure_total)
            &&& row.ranges_success_total == count(held.ranges_success_total)
            &&& row.ranges_failure_total == count(held.ranges_failure_total)
            &&& row.blocks_processed_total == count(held.blocks_processed_total)
            &&& row.records_read_total == count(held.records_read_total)
            &&& row.records_decoded_total == count(held.records_decoded_total)
            &&& row.records_written_total == count(held.records_written_total)
            &&& row.batch_duration_seconds_count == count(held.batch_duration_seconds_count)
            &&& row.datalens_log_requests_success_total
                == count(held.datalens_log_requests_success_total)
            &&& row.datalens_log_requests_failure_total
                == count(held.datalens_log_requests_failure_total)
            &&& row.datalens_block_requests_success_total
                == count(held.datalens_block_requests_success_total)
            &&& row.datalens_block_requests_failure_total
                == count(held.datalens_block_requests_failure_total)
            &&& row.datalens_tx_requests_success_total
                == count(held.datalens_tx_requests_success_total)
            &&& row.datalens_tx_requests_failure_total
                == count(held.datalens_tx_requests_failure_total)
            &&& row.reorg_rollbacks_total == count(held.reorg_rollbacks_total)
            &&& known ==> row.batch_duration_seconds_sum == held.batch_duration_seconds_sum
            &&& !known ==> call_ensures(S::default, (), row.batch_duration_seconds_sum)
            &&& known ==> row.chain_id == held.chain_id && row.dataset == held.dataset
            &&& !known ==> row.chain_id == chain_id && row.dataset@ == dataset
            &&& others_stay(before, after, key)
        }),
{
}

/// A range that was processed raises the number of ranges and of batches by one, and the numbers
/// of blocks and of records by its own. It sets the blocks that remain and the time of the
/// advance, whatever they were, and its duration is added to the sum. Nothing else changes.
pub proof fn lemma_range_success_is_recorded<S: Default, F: Fn(S, S) -> S>(
    before: Map<MetricsScopeKey, RuntimeMetricsRow<S>>,
    after: Map<MetricsScopeKey, RuntimeMetricsRow<S>>,
    chain_id: u64,
    dataset: Seq<char>,
    now: S,
    metrics: RangeSuccessMetrics<'_, S>,
    accumulate: F,
)
    requires
        recorded(
            before,
            after,
            scope_key(chain_id, dataset),
            |row: RuntimeMetricsRow<S>, changed: RuntimeMetricsRow<S>|
                exists|sum: S|
                    #[trigger] call_ensures(
                        accumulate,
                        (row.batch_duration_seconds_sum, metrics.duration_seconds),
                        sum,
                    ) && changed == row.with_range_success(metrics, now, sum),
        ),
    ensures
        ({
            let key = MetricsScopeKey { chain_id, dataset };
            let known = before.contains_key(key);
            let held = before[key];
            let row = after[key];
            let count = |n: u64| if known { n as int } else { 0 };
            let block = |n: Option<u64>| if known { n } else { None };
            let time = |t: Option<S>| if known { t } else { None };
            &&& after.contains_key(key)
            &&& row.remaining_blocks == Some(metrics.remaining_blocks)
            &&& row.checkpoint_last_forward_advance_timestamp_seconds == Some(now)
            &&& row.ranges_success_total == capped(count(held.ranges_success_total) + 1)
            &&& row.batch_duration_seconds_count
                == capped(count(held.batch_duration_seconds_count) + 1)
            &&& row.blocks_processed_total
                == capped(count(held.blocks_processed_total) + metrics.blocks_processed)
            &&& row.records_read_total
                == capped(count(held.records_read_total) + metrics.records_read)
            &&& row.records_decoded_total
                == capped(count(held.records_decoded_total) + metrics.records_decoded)
            &&& row.records_written_total
                == capped(count(held.records_written_total) + metrics.records_written)
            &&& row.target_block == block(held.target_block)
            &&& row.datalens_head_height == block(held.datalens_head_height)
            &&& row.datalens_head_observed_timestamp_seconds
                == time(held.datalens_head_observed_timestamp_seconds)
            &&& row.datalens_head_advanced_timestamp_seconds
                == time(held.datalens_head_advanced_timestamp_seconds)
            &&& row.chain_last_success_timestamp_seconds
                == time(held.chain_last_success_timestamp_seconds)
            &&& row.consecutive_failures == count(held.consecutive_failures)
            &&& row.chain_pass_success_total == count(held.chain_pass_success_total)
            &&& row.chain_pass_failure_total == count(held.chain_pass_failure_total)
            &&& row.ranges_failure_total == count(held.ranges_failure_total)
            &&& row.datalens_log_requests_success_total
                == count(held.datalens_log_requests_success_total)
            &&& row.datalens_log_requests_failure_total
                == count(held.datalens_log_requests_failure_total)
            &&& row.datalens_block_requests_success_total
                == count(held.datalens_block_requests_success_total)
            &&& row.datalens_block_requests_failure_total
                == count(held.datalens_block_requests_failure_total)
            &&& row.datalens_tx_requests_success_total
                == count(held.datalens_tx_requests_success_total)
            &&& row.datalens_tx_requests_failure_total
                == count(held.datalens_tx_requests_failure_total)
            &&& row.reorg_rollbacks_total == count(held.reorg_rollbacks_total)
            &&& known ==> call_ensures(
                accumulate,
                (held.batch_duration_seconds_sum, metrics.duration_seconds),
                row.batch_duration_seconds_sum,
            )
            &&& !known ==> exists|nothing: S|
                #[trigger] call_ensures(S::default, (), nothing) && call_ensures(
                    accumulate,
                    (nothing, metrics.duration_seconds),
                    row.batch_duration_seconds_sum,
                )
            &&& known ==> row.chain_id == held.chain_id && row.dataset == held.dataset
            &&& !known ==> row.chain_id == chain_id && row.dataset@ == dataset
            &&& others_stay(before, after, key)
        }),
{
    let key = scope_key(chain_id, dataset);
    let row = choose|row: RuntimeMetricsRow<S>| #[trigger]
        starting_row(before, key, row) && exists|sum: S|
            #[trigger] call_ensures(
                accumulate,
                (row.batch_duration_seconds_sum, metrics.duration_seconds),
                sum,
            ) && after[key] == row.with_range_success(metrics, now, sum);
    if !before.contains_key(key) {
        assert(call_ensures(S::default, (), row.batch_duration_seconds_sum));
    }
}

/// A range that could not be processed raises the number of these by one, and changes nothing else.
pub proof fn lemma_range_failure_is_recorded<S: Default>(
    before: Map<MetricsScopeKey, RuntimeMetricsRow<S>>,
    after: Map<MetricsScopeKey, RuntimeMetricsRow<S>>,
    chain_id: u64,
    dataset: Seq<char>,
)
    requires
        recorded(
            before,
            after,
            scope_key(chain_id, dataset),
            |row: RuntimeMetricsRow<S>, changed: RuntimeMetricsRow<S>|
                changed == row.with_range_failure(),
        ),
    ensures
        ({
            let key = MetricsScopeKey { chain_id, dataset };
            let known = before.contains_key(key);
            let held = before[key];
            let row = after[key];
            let count = |n: u64| if known { n as int } else { 0 };
            let block = |n: Option<u64>| if known { n } else { None };
            let time = |t: Option<S>| if known { t } else { None };
            &&& after.contains_key(key)
            &&& row.ranges_failure_total == capped(count(held.ranges_failure_total) + 1)
            &&& row.target_block == block(held.target_block)
            &&& row.remaining_blocks == block(held.remaining_blocks)
            &&& row.datalens_head_height == block(held.datalens_head_height)
            &&& row.datalens_head_observed_timestamp_seconds
                == time(held.datalens_head_observed_timestamp_seconds)
            &&& row.datalens_head_advanced_timestamp_seconds
                == time(held.datalens_head_advanced_timestamp_seconds)
            &&& row.chain_last_success_timestamp_seconds
                == time(held.chain_last_success_timestamp_seconds)
            &&& row.checkpoint_last_forward_advance_timestamp_seconds
                == time(held.checkpoint_last_forward_advance_timestamp_seconds)
            &&& row.consecutive_failures == count(held.consecutive_failures)
            &&& row.chain_pass_success_total == count(held.chain_pass_success_total)
            &&& row.chain_pass_failure_total == count(held.chain_pass_failure_total)
            &&& row.ranges_success_total == count(held.ranges_success_total)
            &&& row.blocks_processed_total == count(held.blocks_processed_total)
            &&& row.records_read_total == count(held.records_read_total)
            &&& row.records_decoded_total == count(held.records_decoded_total)
            &&& row.records_written_total == count(held.records_written_total)
            &&& row.batch_duration_seconds_count == count(held.batch_duration_seconds_count)
            &&& row.datalens_log_requests_success_total
                == count(held.datalens_log_requests_success_total)
            &&& row.datalens_log_requests_failure_total
                == count(held.datalens_log_requests_failure_total)
            &&& row.datalens_block_requests_success_total
                == count(held.datalens_block_requests_success_total)
            &&& row.datalens_block_requests_failure_total
                == count(held.datalens_block_requests_failure_total)
            &&& row.datalens_tx_requests_success_total
                == count(held.datalens_tx_requests_success_total)
            &&& row.datalens_tx_requests_failure_total
                == count(held.datalens_tx_requests_failure_total)
            &&& row.reorg_rollbacks_total == count(held.reorg_rollbacks_total)
            &&& known ==> row.batch_duration_seconds_sum == held.batch_duration_seconds_sum
            &&& !known ==> call_ensures(S::default, (), row.batch_duration_seconds_sum)
            &&& known ==> row.chain_id == held.chain_id && row.dataset == held.dataset
            &&& !known ==> row.chain_id == chain_id && row.dataset@ == dataset
            &&& others_stay(before, after, key)
        }),
{
}

/// A request raises the total of its operation and its result by one, whatever else the row holds,
/// and no other total; a request of an operation that is not counted raises none. Nothing else
/// changes.
pub proof fn lemma_request_is_recorded<S: Default>(
    before: Map<MetricsScopeKey, RuntimeMetricsRow<S>>,
    after: Map<MetricsScopeKey, RuntimeMetricsRow<S>>,
    chain_id: u64,
    dataset: Seq<char>,
    operation: Seq<char>,
    success: bool,
)
    requires
        recorded(
            before,
            after,
            scope_key(chain_id, dataset),
            |row: RuntimeMetricsRow<S>, changed: RuntimeMetricsRow<S>|
                changed == row.with_datalens_request(operation, success),
        ),
    ensures
        ({
            let key = MetricsScopeKey { chain_id, dataset };
            let known = before.contains_key(key);
            let held = before[key];
            let row = after[key];
            let count = |n: u64| if known { n as int } else { 0 };
            let block = |n: Option<u64>| if known { n } else { None };
            let time = |t: Option<S>| if known { t } else { None };
            let one_if = |raised: bool| if raised { 1int } else { 0 };
            &&& after.contains_key(key)
            &&& row.datalens_log_requests_success_total
                == capped(
                    count(held.datalens_log_requests_success_total)
                        + one_if(operation == "logs"@ && success),
                )
            &&& row.datalens_log_requests_failure_total
                == capped(
                    count(held.datalens_log_requests_failure_total)
                        + one_if(operation == "logs"@ && !success),
                )
            &&& row.datalens_block_requests_success_total
                == capped(
                    count(held.datalens_block_requests_success_total)
                        + one_if(operation == "blocks"@ && success),
                )
            &&& row.datalens_block_requests_failure_total
                == capped(
                    count(held.datalens_block_requests_failure_total)
                        + one_if(operation == "blocks"@ && !success),
                )
            &&& row.datalens_tx_requests_success_total
                == capped(
                    count(held.datalens_tx_requests_success_total)
                        + one_if(operation == "transactions"@ && success),
                )
            &&& row.datalens_tx_requests_failure_total
                == capped(
                    count(held.datalens_tx_requests_failure_total)
                        + one_if(operation == "transactions"@ && !success),
                )
            &&& row.target_block == block(held.target_block)
            &&& row.remaining_blocks == block(held.remaining_blocks)
            &&& row.datalens_head_height == block(held.datalens_head_height)
            &&& row.datalens_head_observed_timestamp_seconds
                == time(held.datalens_head_observed_timestamp_seconds)
            &&& row.datalens_head_advanced_timestamp_seconds
                == time(held.datalens_head_advanced_timestamp_seconds)
            &&& row.chain_last_success_timestamp_seconds
                == time(held.chain_last_success_timestamp_seconds)
            &&& row.checkpoint_last_forward_advance_timestamp_seconds
                == time(held.checkpoint_last_forward_advance_timestamp_seconds)
            &&& row.consecutive_failures == count(held.consecutive_failures)
            &&& row.chain_pass_success_total == count(held.chain_pass_success_total)
            &&& row.chain_pass_failure_total == count(held.chain_pass_failure_total)
            &&& row.ranges_success_total == count(held.ranges_success_total)
            &&& row.ranges_failure_total == count(held.ranges_failure_total)
            &&& row.blocks_processed_total == count(held.blocks_processed_total)
            &&& row.records_read_total == count(held.records_read_total)
            &&& row.records_decoded_total == count(held.records_decoded_total)
            &&& row.records_written_total == count(held.records_written_total)
            &&& row.batch_duration_seconds_count == count(held.batch_duration_seconds_count)
            &&& row.reorg_rollbacks_total == count(held.reorg_rollbacks_total)
            &&& known ==> row.batch_duration_seconds_sum == held.batch_duration_seconds_sum
            &&& !known ==> call_ensures(S::default, (), row.batch_duration_seconds_sum)
            &&& known ==> row.chain_id == held.chain_id && row.dataset == held.dataset
            &&& !known ==> row.chain_id == chain_id && row.dataset@ == dataset
            &&& others_stay(before, after, key)
        }),
{
    reveal_strlit("logs");
    reveal_strlit("blocks");
    reveal_strlit("transactions");
    assert("logs"@.len() == 4 && "blocks"@.len() == 6 && "transactions"@.len() == 12);
}

/// A rollback raises the number of rollbacks by one, and changes nothing else.
pub proof fn lemma_reorg_rollback_is_recorded<S: Default>(
    before: Map<MetricsScopeKey, RuntimeMetricsRow<S>>,
    after: Map<MetricsScopeKey, RuntimeMetricsRow<S>>,
    chain_id: u64,
    dataset: Seq<char>,
)
    requires
        recorded(
            before,
            after,
            scope_key(chain_id, dataset),
            |row: RuntimeMetricsRow<S>, changed: RuntimeMetricsRow<S>|
                changed == row.with_reorg_rollback(),
        ),
    ensures
        ({
            let key = MetricsScopeKey { chain_id, dataset };
            let known = before.contains_key(key);
            let held = before[key];
            let row = after[key];
            let count = |n: u64| if known { n as int } else { 0 };
            let block = |n: Option<u64>| if known { n } else { None };
            let time = |t: Option<S>| if known { t } else { None };
            &&& after.contains_key(key)
            &&& row.reorg_rollbacks_total == capped(count(held.reorg_rollbacks_total) + 1)
            &&& row.target_block == block(held.target_block)
            &&& row.remaining_blocks == block(held.remaining_blocks)
            &&& row.datalens_head_height == block(held.datalens_head_height)
            &&& row.datalens_head_observed_timestamp_seconds
                == time(held.datalens_head_observed_timestamp_seconds)
            &&& row.datalens_head_advanced_timestamp_seconds
                == time(held.datalens_head_advanced_timestamp_seconds)
            &&& row.chain_last_success_timestamp_seconds
                == time(held.chain_last_success_timestamp_seconds)
            &&& row.checkpoint_last_forward_advance_timestamp_seconds
                == time(held.checkpoint_last_forward_advance_timestamp_seconds)
            &&& row.consecutive_failures == count(held.consecutive_failures)
            &&& row.chain_pass_success_total == count(held.chain_pass_success_total)
            &&& row.chain_pass_failure_total == count(held.chain_pass_failure_total)
            &&& row.ranges_success_total == count(held.ranges_success_total)
            &&& row.ranges_failure_total == count(held.ranges_failure_total)
            &&& row.blocks_processed_total == count(held.blocks_processed_total)
            &&& row.records_read_total == count(held.records_read_total)
            &&& row.records_decoded_total == count(held.records_decoded_total)
            &&& row.records_written_total == count(held.records_written_total)
            &&& row.batch_duration_seconds_count == count(held.batch_duration_seconds_count)
            &&& row.datalens_log_requests_success_total
                == count(held.datalens_log_requests_success_total)
            &&& row.datalens_log_requests_failure_total
                == count(held.datalens_log_requests_failure_total)
            &&& row.datalens_block_requests_success_total
                == count(held.datalens_block_requests_success_total)
            &&& row.datalens_block_requests_failure_total
                == count(held.datalens_block_requests_failure_total)
            &&& row.datalens_tx_requests_success_total
                == count(held.datalens_tx_requests_success_total)
            &&& row.datalens_tx_requests_failure_total
                == count(held.datalens_tx_requests_failure_total)
            &&& known ==> row.batch_duration_seconds_sum == held.batch_duration_seconds_sum
            &&& !known ==> call_ensures(S::default, (), row.batch_duration_seconds_sum)
            &&& known ==> row.chain_id == held.chain_id && row.dataset == held.dataset
            &&& !known ==> row.chain_id == chain_id && row.dataset@ == dataset
            &&& others_stay(before, after, key)
        }),
{
}

} // verus!
