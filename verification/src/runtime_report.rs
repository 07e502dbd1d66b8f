//! The runtime rows as lines of the exposition.
use crate::decimal::{decimal, decimal_text, optional_decimal_text};
use crate::exposition::{
    append_family, append_metric, append_optional_metric, family, lemma_render_append,
    lemma_render_next, lines_of_each, optional_sample, render, sample, Line,
};
use crate::families;
use crate::labels::{
    operation_result_labels, result_labels, runtime_labels, scope_labels, scope_operation_labels,
    scope_result_labels, scope_stage_labels, stage_labels,
};
use crate::metrics::RuntimeMetricsRow;
use vstd::prelude::*;

verus! {

/// The samples of the requests that were made with one operation.
pub open spec fn operation_lines(
    chain_id: Seq<char>,
    dataset: Seq<char>,
    operation: Seq<char>,
    success: u64,
    failure: u64,
) -> Seq<Line> {
    sample(
        families::DATALENS_REQUESTS_TOTAL@,
        scope_operation_labels(chain_id, dataset, operation, "success"@),
        decimal(success as nat),
    ) + sample(
        families::DATALENS_REQUESTS_TOTAL@,
        scope_operation_labels(chain_id, dataset, operation, "failure"@),
        decimal(failure as nat),
    )
}

/// The samples of the requests that were made in a scope.
pub open spec fn request_lines<S>(row: RuntimeMetricsRow<S>) -> Seq<Line> {
    operation_lines(
        decimal(row.chain_id as nat),
        row.dataset@,
        "logs"@,
        row.datalens_log_requests_success_total,
        row.datalens_log_requests_failure_total,
    ) + operation_lines(
        decimal(row.chain_id as nat),
        row.dataset@,
        "blocks"@,
        row.datalens_block_requests_success_total,
        row.datalens_block_requests_failure_total,
    ) + operation_lines(
        decimal(row.chain_id as nat),
        row.dataset@,
        "transactions"@,
        row.datalens_tx_requests_success_total,
        row.datalens_tx_requests_failure_total,
    )
}

/// Writes the samples of the requests that were made with one operation.
fn append_operation_metrics(
    body: &mut String,
    chain_id: u64,
    dataset: &str,
    operation: &str,
    success: u64,
    failure: u64,
)
    ensures
        final(body)@ == old(body)@ + render(
            operation_lines(decimal(chain_id as nat), dataset@, operation@, success, failure),
        ),
{
    broadcast use lemma_render_append;

    append_metric(
        body,
        families::DATALENS_REQUESTS_TOTAL,
        operation_result_labels(chain_id, dataset, operation, "success").as_slice(),
        decimal_text(success).as_str(),
    );
    append_metric(
        body,
        families::DATALENS_REQUESTS_TOTAL,
        operation_result_labels(chain_id, dataset, operation, "failure").as_slice(),
        decimal_text(failure).as_str(),
    );
}

/// Writes the samples of the requests that were made in a scope.
pub fn append_datalens_request_metrics<S>(body: &mut String, row: &RuntimeMetricsRow<S>)
    ensures
        final(body)@ == old(body)@ + render(request_lines(*row)),
{
    broadcast use lemma_render_append;

    append_operation_metrics(
        body,
        row.chain_id,
        row.dataset.as_str(),
        "logs",
        row.datalens_log_requests_success_total,
        row.datalens_log_requests_failure_total,
    );
    append_operation_metrics(
        body,
        row.chain_id,
        row.dataset.as_str(),
        "blocks",
        row.datalens_block_requests_success_total,
        row.datalens_block_requests_failure_total,
    );
    append_operation_metrics(
        body,
        row.chain_id,
        row.dataset.as_str(),
        "transactions",
        row.datalens_tx_requests_success_total,
        row.datalens_tx_requests_failure_total,
    );
}

/// The decimal text of a number, where there is one.
pub open spec fn optional_decimal(n: Option<u64>) -> Option<Seq<char>> {
    match n {
        Some(n) => Some(decimal(n as nat)),
        None => None,
    }
}

/// The characters of a text, where there is one.
pub open spec fn optional_view(text: Option<String>) -> Option<Seq<char>> {
    match text {
        Some(text) => Some(text@),
        None => None,
    }
}

/// The samples of what was last observed in a scope: what was never observed has none.
pub open spec fn observation_lines(row: RuntimeMetricsRow<String>) -> Seq<Line> {
    optional_sample(
        families::TARGET_BLOCK@,
        scope_labels(decimal(row.chain_id as nat), row.dataset@),
        optional_decimal(row.target_block),
    ) + optional_sample(
        families::REMAINING_BLOCKS@,
        scope_labels(decimal(row.chain_id as nat), row.dataset@),
        optional_decimal(row.remaining_blocks),
    ) + optional_sample(
        families::DATALENS_HEAD_HEIGHT@,
        scope_labels(decimal(row.chain_id as nat), row.dataset@),
        optional_decimal(row.datalens_head_height),
    ) + optional_sample(
        families::DATALENS_HEAD_OBSERVED_TIMESTAMP_SECONDS@,
        scope_labels(decimal(row.chain_id as nat), row.dataset@),
        optional_view(row.datalens_head_observed_timestamp_seconds),
    ) + optional_sample(
        families::DATALENS_HEAD_ADVANCED_TIMESTAMP_SECONDS@,
        scope_labels(decimal(row.chain_id as nat), row.dataset@),
        optional_view(row.datalens_head_advanced_timestamp_seconds),
    ) + optional_sample(
        families::CHAIN_LAST_SUCCESS_TIMESTAMP_SECONDS@,
        scope_labels(decimal(row.chain_id as nat), row.dataset@),
        optional_view(row.chain_last_success_timestamp_seconds),
    ) + optional_sample(
        families::CHECKPOINT_LAST_FORWARD_ADVANCE_TIMESTAMP_SECONDS@,
        scope_labels(decimal(row.chain_id as nat), row.dataset@),
        optional_view(row.checkpoint_last_forward_advance_timestamp_seconds),
    )
}

/// The samples of how passes and ranges ended in a scope.
pub open spec fn outcome_lines(row: RuntimeMetricsRow<String>) -> Seq<Line> {
    sample(
        families::CONSECUTIVE_FAILURES@,
        scope_labels(decimal(row.chain_id as nat), row.dataset@),
        decimal(row.consecutive_failures as nat),
    ) + sample(
        families::CHAIN_PASSES_TOTAL@,
        scope_result_labels(decimal(row.chain_id as nat), row.dataset@, "success"@),
        decimal(row.chain_pass_success_total as nat),
    ) + sample(
        families::CHAIN_PASSES_TOTAL@,
        scope_result_labels(decimal(row.chain_id as nat), row.dataset@, "failure"@),
        decimal(row.chain_pass_failure_total as nat),
    ) + sample(
        families::RANGES_TOTAL@,
        scope_result_labels(decimal(row.chain_id as nat), row.dataset@, "success"@),
        decimal(row.ranges_success_total as nat),
    ) + sample(
        families::RANGES_TOTAL@,
        scope_result_labels(decimal(row.chain_id as nat), row.dataset@, "failure"@),
        decimal(row.ranges_failure_total as nat),
    )
}

/// The samples of how much was processed in a scope.
pub open spec fn throughput_lines(row: RuntimeMetricsRow<String>) -> Seq<Line> {
    sample(
        families::BLOCKS_PROCESSED_TOTAL@,
        scope_labels(decimal(row.chain_id as nat), row.dataset@),
        decimal(row.blocks_processed_total as nat),
    ) + sample(
        families::RECORDS_TOTAL@,
        scope_stage_labels(decimal(row.chain_id as nat), row.dataset@, "read"@),
        decimal(row.records_read_total as nat),
    ) + sample(
        families::RECORDS_TOTAL@,
        scope_stage_labels(decimal(row.chain_id as nat), row.dataset@, "decoded"@),
        decimal(row.records_decoded_total as nat),
    ) + sample(
        families::RECORDS_TOTAL@,
        scope_stage_labels(decimal(row.chain_id as nat), row.dataset@, "written"@),
        decimal(row.records_written_total as nat),
    ) + sample(
        families::BATCH_DURATION_SECONDS_SUM@,
        scope_labels(decimal(row.chain_id as nat), row.dataset@),
        row.batch_duration_seconds_sum@,
    ) + sample(
        families::BATCH_DURATION_SECONDS_COUNT@,
        scope_labels(decimal(row.chain_id as nat), row.dataset@),
        decimal(row.batch_duration_seconds_count as nat),
    )
}

/// All samples of a scope. Points in time and durations are given by their text.
pub open spec fn row_lines(row: RuntimeMetricsRow<String>) -> Seq<Line> {
    observation_lines(row) + outcome_lines(row) + throughput_lines(row) + request_lines(row)
        + sample(
        families::REORG_ROLLBACKS_TOTAL@,
        scope_labels(decimal(row.chain_id as nat), row.dataset@),
        decimal(row.reorg_rollbacks_total as nat),
    )
}

/// Writes the samples of what was last observed in a scope.
fn append_observation_metrics(body: &mut String, row: &RuntimeMetricsRow<String>)
    ensures
        final(body)@ == old(body)@ + render(observation_lines(*row)),
{
    broadcast use lemma_render_append;

    let labels = runtime_labels(row.chain_id, row.dataset.as_str());
    append_optional_metric(
        body,
        families::TARGET_BLOCK,
        labels.as_slice(),
        optional_decimal_text(row.target_block).as_ref(),
    );
    append_optional_metric(
        body,
        families::REMAINING_BLOCKS,
        labels.as_slice(),
        optional_decimal_text(row.remaining_blocks).as_ref(),
    );
    append_optional_metric(
        body,
        families::DATALENS_HEAD_HEIGHT,
        labels.as_slice(),
        optional_decimal_text(row.datalens_head_height).as_ref(),
    );
    append_optional_metric(
        body,
        families::DATALENS_HEAD_OBSERVED_TIMESTAMP_SECONDS,
        labels.as_slice(),
        row.datalens_head_observed_timestamp_seconds.as_ref(),
    );
    append_optional_metric(
        body,
        families::DATALENS_HEAD_ADVANCED_TIMESTAMP_SECONDS,
        labels.as_slice(),
        row.datalens_head_advanced_timestamp_seconds.as_ref(),
    );
    append_optional_metric(
        body,
        families::CHAIN_LAST_SUCCESS_TIMESTAMP_SECONDS,
        labels.as_slice(),
        row.chain_last_success_timestamp_seconds.as_ref(),
    );
    append_optional_metric(
        body,
        families::CHECKPOINT_LAST_FORWARD_ADVANCE_TIMESTAMP_SECONDS,
        labels.as_slice(),
        row.checkpoint_last_forward_advance_timestamp_seconds.as_ref(),
    );
}

/// Writes the samples of how passes and ranges ended in a scope.
fn append_outcome_metrics(body: &mut String, row: &RuntimeMetricsRow<String>)
    ensures
        final(body)@ == old(body)@ + render(outcome_lines(*row)),
{
    broadcast use lemma_render_append;

    let labels = runtime_labels(row.chain_id, row.dataset.as_str());
    append_metric(
        body,
        families::CONSECUTIVE_FAILURES,
        labels.as_slice(),
        decimal_text(row.consecutive_failures).as_str(),
    );
    append_metric(
        body,
        families::CHAIN_PASSES_TOTAL,
        result_labels(row.chain_id, row.dataset.as_str(), "success").as_slice(),
        decimal_text(row.chain_pass_success_total).as_str(),
    );
    append_metric(
        body,
        families::CHAIN_PASSES_TOTAL,
        result_labels(row.chain_id, row.dataset.as_str(), "failure").as_slice(),
        decimal_text(row.chain_pass_failure_total).as_str(),
    );
    append_metric(
        body,
        families::RANGES_TOTAL,
        result_labels(row.chain_id, row.dataset.as_str(), "success").as_slice(),
        decimal_text(row.ranges_success_total).as_str(),
    );
    append_metric(
        body,
        families::RANGES_TOTAL,
        result_labels(row.chain_id, row.dataset.as_str(), "failure").as_slice(),
        decimal_text(row.ranges_failure_total).as_str(),
    );
}

/// Writes the samples of how much was processed in a scope.
fn append_throughput_metrics(body: &mut String, row: &RuntimeMetricsRow<String>)
    ensures
        final(body)@ == old(body)@ + render(throughput_lines(*row)),
{
    broadcast use lemma_render_append;

    let labels = runtime_labels(row.chain_id, row.dataset.as_str());
    append_metric(
        body,
        families::BLOCKS_PROCESSED_TOTAL,
        labels.as_slice(),
        decimal_text(row.blocks_processed_total).as_str(),
    );
    append_metric(
        body,
        families::RECORDS_TOTAL,
        stage_labels(row.chain_id, row.dataset.as_str(), "read").as_slice(),
        decimal_text(row.records_read_total).as_str(),
    );
    append_metric(
        body,
        families::RECORDS_TOTAL,
        stage_labels(row.chain_id, row.dataset.as_str(), "decoded").as_slice(),
        decimal_text(row.records_decoded_total).as_str(),
    );
    append_metric(
        body,
        families::RECORDS_TOTAL,
        stage_labels(row.chain_id, row.dataset.as_str(), "written").as_slice(),
        decimal_text(row.records_written_total).as_str(),
    );
    append_metric(
        body,
        families::BATCH_DURATION_SECONDS_SUM,
        labels.as_slice(),
        row.batch_duration_seconds_sum.as_str(),
    );
    append_metric(
        body,
        families::BATCH_DURATION_SECONDS_COUNT,
        labels.as_slice(),
        decimal_text(row.batch_duration_seconds_count).as_str(),
    );
}

/// Writes all samples of a scope.
fn append_row_metrics(body: &mut String, row: &RuntimeMetricsRow<String>)
    ensures
        final(body)@ == old(body)@ + render(row_lines(*row)),
{
    broadcast use lemma_render_append;

    append_observation_metrics(body, row);
    append_outcome_metrics(body, row);
    append_throughput_metrics(body, row);
    append_datalens_request_metrics(body, row);
    append_metric(
        body,
        families::REORG_ROLLBACKS_TOTAL,
        runtime_labels(row.chain_id, row.dataset.as_str()).as_slice(),
        decimal_text(row.reorg_rollbacks_total).as_str(),
    );
}

/// What introduces the families of what was last observed.
pub open spec fn observation_families() -> Seq<Line> {
    family(
        families::TARGET_BLOCK@,
        families::TARGET_BLOCK_HELP@,
        families::GAUGE@,
    ) + family(
        families::REMAINING_BLOCKS@,
        families::REMAINING_BLOCKS_HELP@,
        families::GAUGE@,
    ) + family(
        families::DATALENS_HEAD_HEIGHT@,
        families::DATALENS_HEAD_HEIGHT_HELP@,
        families::GAUGE@,
    ) + family(
        families::DATALENS_HEAD_OBSERVED_TIMESTAMP_SECONDS@,
        families::DATALENS_HEAD_OBSERVED_TIMESTAMP_SECONDS_HELP@,
        families::GAUGE@,
    ) + family(
        families::DATALENS_HEAD_ADVANCED_TIMESTAMP_SECONDS@,
        families::DATALENS_HEAD_ADVANCED_TIMESTAMP_SECONDS_HELP@,
        families::GAUGE@,
    ) + family(
        families::CHAIN_LAST_SUCCESS_TIMESTAMP_SECONDS@,
        families::CHAIN_LAST_SUCCESS_TIMESTAMP_SECONDS_HELP@,
        families::GAUGE@,
    ) + family(
        families::CHECKPOINT_LAST_FORWARD_ADVANCE_TIMESTAMP_SECONDS@,
        families::CHECKPOINT_LAST_FORWARD_ADVANCE_TIMESTAMP_SECONDS_HELP@,
        families::GAUGE@,
    )
}

/// What introduces the families of what was counted.
pub open spec fn total_families() -> Seq<Line> {
    family(
        families::CONSECUTIVE_FAILURES@,
        families::CONSECUTIVE_FAILURES_HELP@,
        families::GAUGE@,
    ) + family(
        families::CHAIN_PASSES_TOTAL@,
        families::CHAIN_PASSES_TOTAL_HELP@,
        families::COUNTER@,
    ) + family(
        families::RANGES_TOTAL@,
        families::RANGES_TOTAL_HELP@,
        families::COUNTER@,
    ) + family(
        families::BLOCKS_PROCESSED_TOTAL@,
        families::BLOCKS_PROCESSED_TOTAL_HELP@,
        families::COUNTER@,
    ) + family(
        families::RECORDS_TOTAL@,
        families::RECORDS_TOTAL_HELP@,
        families::COUNTER@,
    ) + family(
        families::BATCH_DURATION_SECONDS@,
        families::BATCH_DURATION_SECONDS_HELP@,
        families::SUMMARY@,
    ) + family(
        families::DATALENS_REQUESTS_TOTAL@,
        families::DATALENS_REQUESTS_TOTAL_HELP@,
        families::COUNTER@,
    ) + family(
        families::REORG_ROLLBACKS_TOTAL@,
        families::REORG_ROLLBACKS_TOTAL_HELP@,
        families::COUNTER@,
    )
}

/// What is exposed of the runtime rows. Points in time and durations are given by their text.
pub open spec fn runtime_section(rows: Seq<RuntimeMetricsRow<String>>) -> Seq<Line> {
    observation_families() + total_families() + lines_of_each(
        rows,
        |row: RuntimeMetricsRow<String>| row_lines(row),
    )
}

/// Writes what introduces the families of what was last observed.
fn append_observation_families(body: &mut String)
    ensures
        final(body)@ == old(body)@ + render(observation_families()),
{
    broadcast use lemma_render_append;

    append_family(
        body,
        families::TARGET_BLOCK,
        families::TARGET_BLOCK_HELP,
        families::GAUGE,
    );
    append_family(
        body,
        families::REMAINING_BLOCKS,
        families::REMAINING_BLOCKS_HELP,
        families::GAUGE,
    );
    append_family(
        body,
        families::DATALENS_HEAD_HEIGHT,
        families::DATALENS_HEAD_HEIGHT_HELP,
        families::GAUGE,
    );
    append_family(
        body,
        families::DATALENS_HEAD_OBSERVED_TIMESTAMP_SECONDS,
        families::DATALENS_HEAD_OBSERVED_TIMESTAMP_SECONDS_HELP,
        families::GAUGE,
    );
    append_family(
        body,
        families::DATALENS_HEAD_ADVANCED_TIMESTAMP_SECONDS,
        families::DATALENS_HEAD_ADVANCED_TIMESTAMP_SECONDS_HELP,
        families::GAUGE,
    );
    append_family(
        body,
        families::CHAIN_LAST_SUCCESS_TIMESTAMP_SECONDS,
        families::CHAIN_LAST_SUCCESS_TIMESTAMP_SECONDS_HELP,
        families::GAUGE,
    );
    append_family(
        body,
        families::CHECKPOINT_LAST_FORWARD_ADVANCE_TIMESTAMP_SECONDS,
        families::CHECKPOINT_LAST_FORWARD_ADVANCE_TIMESTAMP_SECONDS_HELP,
        families::GAUGE,
    );
}

/// Writes what introduces the families of what was counted.
fn append_total_families(body: &mut String)
    ensures
        final(body)@ == old(body)@ + render(total_families()),
{
    broadcast use lemma_render_append;

    append_family(
        body,
        families::CONSECUTIVE_FAILURES,
        families::CONSECUTIVE_FAILURES_HELP,
        families::GAUGE,
    );
    append_family(
        body,
        families::CHAIN_PASSES_TOTAL,
        families::CHAIN_PASSES_TOTAL_HELP,
        families::COUNTER,
    );
    append_family(
        body,
        families::RANGES_TOTAL,
        families::RANGES_TOTAL_HELP,
        families::COUNTER,
    );
    append_family(
        body,
        families::BLOCKS_PROCESSED_TOTAL,
        families::BLOCKS_PROCESSED_TOTAL_HELP,
        families::COUNTER,
    );
    append_family(
        body,
        families::RECORDS_TOTAL,
        families::RECORDS_TOTAL_HELP,
        families::COUNTER,
    );
    append_family(
        body,
        families::BATCH_DURATION_SECONDS,
        families::BATCH_DURATION_SECONDS_HELP,
        families::SUMMARY,
    );
    append_family(
        body,
        families::DATALENS_REQUESTS_TOTAL,
        families::DATALENS_REQUESTS_TOTAL_HELP,
        families::COUNTER,
    );
    append_family(
        body,
        families::REORG_ROLLBACKS_TOTAL,
        families::REORG_ROLLBACKS_TOTAL_HELP,
        families::COUNTER,
    );
}

/// Writes the samples of the runtime rows.
fn append_all_rows(
    body: &mut String,
    rows: &[RuntimeMetricsRow<String>],
)
    ensures
        final(body)@ == old(body)@ + render(
            lines_of_each(
                rows@,
                |row: RuntimeMetricsRow<String>| row_lines(row),
            ),
        ),
{
    let ghost start = body@;
    let ghost lines = |row: RuntimeMetricsRow<String>| row_lines(row);
    assert(start + render(lines_of_each(rows@.take(0), lines)) =~= start);
    for index in 0..rows.len()
        invariant
            lines == (|row: RuntimeMetricsRow<String>| row_lines(row)),
            body@ == start + render(lines_of_each(rows@.take(index as int), lines)),
    {
        append_row_metrics(body, &rows[index]);
        proof {
            lemma_render_next(start, rows@, lines, index as int);
        }
    }
    assert(rows@.take(rows@.len() as int) =~= rows@);
}

/// Writes what is exposed of the runtime rows.
pub fn append_runtime_section(body: &mut String, rows: &[RuntimeMetricsRow<String>])
    ensures
        final(body)@ == old(body)@ + render(runtime_section(rows@)),
{
    broadcast use lemma_render_append;

    append_observation_families(body);
    append_total_families(body);
    append_all_rows(body, rows);
}

/// The text is the one that the value displays as, where there is a value.
pub open spec fn displays_as<S: core::fmt::Display>(
    value: Option<S>,
    text: Option<String>,
) -> bool {
    match (value, text) {
        (Some(value), Some(text)) => vstd::string::to_string_from_display_ensures::<S>(
            &value,
            text,
        ),
        (None, None) => true,
        _ => false,
    }
}

/// A row with its points in time and its durations given by the text that they display as.
pub open spec fn rendered_row<S: core::fmt::Display>(
    row: RuntimeMetricsRow<S>,
    text: RuntimeMetricsRow<String>,
) -> bool {
    &&& text == (RuntimeMetricsRow::<String> {
        chain_id: row.chain_id,
        dataset: row.dataset,
        target_block: row.target_block,
        remaining_blocks: row.remaining_blocks,
        datalens_head_height: row.datalens_head_height,
        consecutive_failures: row.consecutive_failures,
        chain_pass_success_total: row.chain_pass_success_total,
        chain_pass_failure_total: row.chain_pass_failure_total,
        ranges_success_total: row.ranges_success_total,
        ranges_failure_total: row.ranges_failure_total,
        blocks_processed_total: row.blocks_processed_total,
        records_read_total: row.records_read_total,
        records_decoded_total: row.records_decoded_total,
        records_written_total: row.records_written_total,
        batch_duration_seconds_count: row.batch_duration_seconds_count,
        datalens_log_requests_success_total: row.datalens_log_requests_success_total,
        datalens_log_requests_failure_total: row.datalens_log_requests_failure_total,
        datalens_block_requests_success_total: row.datalens_block_requests_success_total,
        datalens_block_requests_failure_total: row.datalens_block_requests_failure_total,
        datalens_tx_requests_success_total: row.datalens_tx_requests_success_total,
        datalens_tx_requests_failure_total: row.datalens_tx_requests_failure_total,
        reorg_rollbacks_total: row.reorg_rollbacks_total,
        ..text
    })
    &&& displays_as(
        row.datalens_head_observed_timestamp_seconds,
        text.datalens_head_observed_timestamp_seconds,
    )
    &&& displays_as(
        row.datalens_head_advanced_timestamp_seconds,
        text.datalens_head_advanced_timestamp_seconds,
    )
    &&& displays_as(
        row.chain_last_success_timestamp_seconds,
        text.chain_last_success_timestamp_seconds,
    )
    &&& displays_as(
        row.checkpoint_last_forward_advance_timestamp_seconds,
        text.checkpoint_last_forward_advance_timestamp_seconds,
    )
    &&& displays_as(
        Some(row.batch_duration_seconds_sum),
        Some(text.batch_duration_seconds_sum),
    )
}

/// Rows with their points in time and their durations given by the text that they display as.
pub open spec fn rendered_rows<S: core::fmt::Display>(
    rows: Seq<RuntimeMetricsRow<S>>,
    texts: Seq<RuntimeMetricsRow<String>>,
) -> bool {
    &&& texts.len() == rows.len()
    &&& forall|i: int| 0 <= i < rows.len() ==> rendered_row(#[trigger] rows[i], #[trigger] texts[i])
}

/// The text that a value displays as, where there is a value.
fn optional_text<S: core::fmt::Display>(value: &Option<S>) -> (text: Option<String>)
    ensures
        displays_as(*value, text),
{
    match value {
        Some(value) => Some(value.to_string()),
        None => None,
    }
}

/// Gives the points in time and the durations of a row by the text that they display as.
pub fn render_row<S: core::fmt::Display>(row: &RuntimeMetricsRow<S>) -> (text: RuntimeMetricsRow<
    String,
>)
    ensures
        rendered_row(*row, text),
{
    RuntimeMetricsRow {
        chain_id: row.chain_id,
        dataset: row.dataset.clone(),
        target_block: row.target_block,
        remaining_blocks: row.remaining_blocks,
        datalens_head_height: row.datalens_head_height,
        datalens_head_observed_timestamp_seconds: optional_text(
            &row.datalens_head_observed_timestamp_seconds,
        ),
        datalens_head_advanced_timestamp_seconds: optional_text(
            &row.datalens_head_advanced_timestamp_seconds,
        ),
        chain_last_success_timestamp_seconds: optional_text(
            &row.chain_last_success_timestamp_seconds,
        ),
        checkpoint_last_forward_advance_timestamp_seconds: optional_text(
            &row.checkpoint_last_forward_advance_timestamp_seconds,
        ),
        consecutive_failures: row.consecutive_failures,
        chain_pass_success_total: row.chain_pass_success_total,
        chain_pass_failure_total: row.chain_pass_failure_total,
        ranges_success_total: row.ranges_success_total,
        ranges_failure_total: row.ranges_failure_total,
        blocks_processed_total: row.blocks_processed_total,
        records_read_total: row.records_read_total,
        records_decoded_total: row.records_decoded_total,
        records_written_total: row.records_written_total,
        batch_duration_seconds_sum: row.batch_duration_seconds_sum.to_string(),
        batch_duration_seconds_count: row.batch_duration_seconds_count,
        datalens_log_requests_success_total: row.datalens_log_requests_success_total,
        datalens_log_requests_failure_total: row.datalens_log_requests_failure_total,
        datalens_block_requests_success_total: row.datalens_block_requests_success_total,
        datalens_block_requests_failure_total: row.datalens_block_requests_failure_total,
        datalens_tx_requests_success_total: row.datalens_tx_requests_success_total,
        datalens_tx_requests_failure_total: row.datalens_tx_requests_failure_total,
        reorg_rollbacks_total: row.reorg_rollbacks_total,
    }
}

} // verus!
