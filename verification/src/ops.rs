//! What operators see of the indexer: its progress, and its metrics as text.
use crate::decimal::{decimal, decimal_text, signed_decimal, signed_decimal_text};
use crate::exposition::{
    append_bare_metric, append_family, append_metric, append_optional_metric, family, labels_view,
    lemma_render_append, lemma_render_next, lines_of_each, optional_sample, render, sample, Label,
    Line,
};
use crate::families;
use crate::labels::{runtime_labels, scope_labels, text_labels};
use crate::metrics::{ConfiguredScopeMetricsRow, MetricsSnapshot, RuntimeMetricsRow};
use crate::runtime_report::{
    append_runtime_section, optional_view, render_row, rendered_row, rendered_rows, runtime_section,
};
use crate::text::same_text;
use vstd::prelude::*;

verus! {

/// How far a dataset of a chain is indexed.
#[derive(Clone, Debug, PartialEq, Eq)]
pub struct CheckpointRow {
    pub chain_id: String,
    pub dataset: String,
    pub next_block: String,
    pub updated_at: String,
    pub updated_timestamp_seconds: Option<String>,
}

/// How far the datasets of a chain are indexed.
#[derive(Clone, Debug, PartialEq, Eq)]
pub struct ChainProgressRow {
    pub chain_id: String,
    pub datasets: i64,
    pub min_next_block: String,
    pub max_next_block: String,
    pub updated_at: String,
}

/// How far a dataset is indexed on the chains that have it.
#[derive(Clone, Debug, PartialEq, Eq)]
pub struct DatasetProgressRow {
    pub dataset: String,
    pub chains: i64,
    pub min_next_block: String,
    pub max_next_block: String,
    pub updated_at: String,
}

/// The number of rows in a table.
#[derive(Clone, Debug, PartialEq, Eq)]
pub struct LegacyTableRowCount {
    pub table_name: String,
    pub row_count: i64,
}

/// The answer to a request for the status.
#[derive(Clone, Debug, PartialEq, Eq)]
pub struct StatusResponse {
    pub checkpoints: Vec<CheckpointRow>,
    pub progress: ProgressSummary,
}

/// Progress by chain and by dataset.
#[derive(Clone, Debug, PartialEq, Eq)]
pub struct ProgressSummary {
    pub chains: Vec<ChainProgressRow>,
    pub datasets: Vec<DatasetProgressRow>,
}

/// Puts the answer to a request for the status together.
pub fn status_response(
    checkpoints: Vec<CheckpointRow>,
    chains: Vec<ChainProgressRow>,
    datasets: Vec<DatasetProgressRow>,
) -> (status: StatusResponse)
    ensures
        status.checkpoints == checkpoints,
        status.progress.chains == chains,
        status.progress.datasets == datasets,
{
    StatusResponse { checkpoints, progress: ProgressSummary { chains, datasets } }
}

/// The tables whose rows are counted.
pub const LEGACY_TABLES: [&'static str; 7] = [
    "ormp_hash_imported",
    "ormp_message_accepted",
    "ormp_message_assigned",
    "ormp_message_dispatched",
    "msgport_message_recv",
    "msgport_message_sent",
    "signature_pub_signature_submittion",
];

/// A checkpoint belongs to a configured scope.
pub open spec fn belongs_to(checkpoint: CheckpointRow, scope: ConfiguredScopeMetricsRow) -> bool {
    &&& checkpoint.chain_id@ == decimal(scope.chain_id as nat)
    &&& checkpoint.dataset@ == scope.dataset@
}

/// Some checkpoint belongs to the configured scope.
pub open spec fn is_checkpointed(
    checkpoints: Seq<CheckpointRow>,
    scope: ConfiguredScopeMetricsRow,
) -> bool {
    exists|i: int| 0 <= i < checkpoints.len() && belongs_to(#[trigger] checkpoints[i], scope)
}

/// The checkpoint belongs to some configured scope.
pub open spec fn is_configured(
    scopes: Seq<ConfiguredScopeMetricsRow>,
    checkpoint: CheckpointRow,
) -> bool {
    exists|i: int| 0 <= i < scopes.len() && belongs_to(checkpoint, #[trigger] scopes[i])
}

/// The samples of a checkpoint.
pub open spec fn checkpoint_lines(checkpoint: CheckpointRow) -> Seq<Line> {
    sample(
        families::CHECKPOINT_NEXT_BLOCK@,
        scope_labels(checkpoint.chain_id@, checkpoint.dataset@),
        checkpoint.next_block@,
    ) + optional_sample(
        families::CHECKPOINT_UPDATED_TIMESTAMP_SECONDS@,
        scope_labels(checkpoint.chain_id@, checkpoint.dataset@),
        optional_view(checkpoint.updated_timestamp_seconds),
    )
}

/// The labels of a configured scope and of its configuration.
pub open spec fn scope_info_labels(scope: ConfiguredScopeMetricsRow) -> Seq<Label> {
    scope_labels(decimal(scope.chain_id as nat), scope.dataset@).push(
        ("start_block"@, decimal(scope.start_block as nat)),
    ).push(("batch_size"@, decimal(scope.batch_size as nat)))
}

/// The samples of a configured scope: its configuration, and whether it has a checkpoint.
pub open spec fn scope_lines(
    checkpoints: Seq<CheckpointRow>,
    scope: ConfiguredScopeMetricsRow,
) -> Seq<Line> {
    sample(families::CONFIGURED_SCOPE_INFO@, scope_info_labels(scope), "1"@) + sample(
        families::CHECKPOINT_PRESENT@,
        scope_labels(decimal(scope.chain_id as nat), scope.dataset@),
        if is_checkpointed(checkpoints, scope) {
            "1"@
        } else {
            "0"@
        },
    )
}

/// The sample of a checkpoint that belongs to no configured scope.
pub open spec fn stray_lines(
    scopes: Seq<ConfiguredScopeMetricsRow>,
    checkpoint: CheckpointRow,
) -> Seq<Line> {
    if is_configured(scopes, checkpoint) {
        seq![]
    } else {
        sample(
            families::CHECKPOINT_PRESENT@,
            scope_labels(checkpoint.chain_id@, checkpoint.dataset@),
            "1"@,
        )
    }
}

/// The number of rows that is given first for the table, and zero where none is given.
pub open spec fn table_count(row_counts: Seq<LegacyTableRowCount>, table: Seq<char>) -> int
    decreases row_counts.len(),
{
    if row_counts.len() == 0 {
        0
    } else if row_counts[0].table_name@ == table {
        row_counts[0].row_count as int
    } else {
        table_count(row_counts.drop_first(), table)
    }
}

/// The sample of a table.
pub open spec fn table_lines(
    row_counts: Seq<LegacyTableRowCount>,
    table: &'static str,
) -> Seq<Line> {
    sample(
        families::LEGACY_TABLE_ROWS@,
        seq![("table"@, table@)],
        signed_decimal(table_count(row_counts, table@)),
    )
}

/// What is exposed of the checkpoints.
pub open spec fn checkpoint_section(checkpoints: Seq<CheckpointRow>) -> Seq<Line> {
    family(
        families::CHECKPOINT_NEXT_BLOCK@,
        families::CHECKPOINT_NEXT_BLOCK_HELP@,
        families::GAUGE@,
    ) + family(
        families::CHECKPOINT_UPDATED_TIMESTAMP_SECONDS@,
        families::CHECKPOINT_UPDATED_TIMESTAMP_SECONDS_HELP@,
        families::GAUGE@,
    ) + lines_of_each(
        checkpoints,
        |checkpoint: CheckpointRow| checkpoint_lines(checkpoint),
    ) + family(
        families::CHECKPOINT_ROWS@,
        families::CHECKPOINT_ROWS_HELP@,
        families::GAUGE@,
    ) + seq![
        Line::Bare {
            name: families::CHECKPOINT_ROWS@,
            value: decimal(checkpoints.len()),
        },
    ]
}

/// What is exposed of the configured scopes, and of the checkpoints that belong to none.
pub open spec fn scope_section(
    checkpoints: Seq<CheckpointRow>,
    scopes: Seq<ConfiguredScopeMetricsRow>,
) -> Seq<Line> {
    family(
        families::CONFIGURED_SCOPE_INFO@,
        families::CONFIGURED_SCOPE_INFO_HELP@,
        families::GAUGE@,
    ) + family(
        families::CHECKPOINT_PRESENT@,
        families::CHECKPOINT_PRESENT_HELP@,
        families::GAUGE@,
    ) + lines_of_each(
        scopes,
        |scope: ConfiguredScopeMetricsRow| scope_lines(checkpoints, scope),
    ) + lines_of_each(checkpoints, |checkpoint: CheckpointRow| stray_lines(scopes, checkpoint))
}

/// What is exposed of the tables.
pub open spec fn table_section(row_counts: Seq<LegacyTableRowCount>) -> Seq<Line> {
    family(
        families::LEGACY_TABLE_ROWS@,
        families::LEGACY_TABLE_ROWS_HELP@,
        families::GAUGE@,
    ) + lines_of_each(
        LEGACY_TABLES@,
        |table: &'static str| table_lines(row_counts, table),
    )
}

/// All lines that are exposed.
pub open spec fn exposition(
    checkpoints: Seq<CheckpointRow>,
    row_counts: Seq<LegacyTableRowCount>,
    scopes: Seq<ConfiguredScopeMetricsRow>,
    rows: Seq<RuntimeMetricsRow<String>>,
) -> Seq<Line> {
    checkpoint_section(checkpoints) + scope_section(checkpoints, scopes) + runtime_section(rows)
        + table_section(row_counts)
}

/// Whether some checkpoint belongs to the configured scope.
fn has_checkpoint(checkpoints: &[CheckpointRow], scope: &ConfiguredScopeMetricsRow) -> (found: bool)
    ensures
        found == is_checkpointed(checkpoints@, *scope),
{
    let chain_id = decimal_text(scope.chain_id);
    for index in 0..checkpoints.len()
        invariant
            chain_id@ == decimal(scope.chain_id as nat),
            forall|i: int| 0 <= i < index ==> !belongs_to(#[trigger] checkpoints@[i], *scope),
    {
        if checkpoints[index].chain_id == chain_id && checkpoints[index].dataset == scope.dataset {
            assert(belongs_to(checkpoints@[index as int], *scope));
            return true;
        }
    }
    false
}

/// Whether the checkpoint belongs to some configured scope.
fn has_scope(scopes: &[ConfiguredScopeMetricsRow], checkpoint: &CheckpointRow) -> (found: bool)
    ensures
        found == is_configured(scopes@, *checkpoint),
{
    for index in 0..scopes.len()
        invariant
            forall|i: int| 0 <= i < index ==> !belongs_to(*checkpoint, #[trigger] scopes@[i]),
    {
        if checkpoint.chain_id == decimal_text(scopes[index].chain_id) && checkpoint.dataset
            == scopes[index].dataset {
            assert(belongs_to(*checkpoint, scopes@[index as int]));
            return true;
        }
    }
    false
}

/// Looks up how many rows a table has.
fn count_of_table(row_counts: &[LegacyTableRowCount], table: &str) -> (count: i64)
    ensures
        count == table_count(row_counts@, table@),
{
    assert(row_counts@.skip(0) =~= row_counts@);
    for index in 0..row_counts.len()
        invariant
            table_count(row_counts@, table@) == table_count(row_counts@.skip(index as int), table@),
    {
        if same_text(row_counts[index].table_name.as_str(), table) {
            return row_counts[index].row_count;
        }
        assert(row_counts@.skip(index as int).drop_first() =~= row_counts@.skip(index + 1));
    }
    0
}

/// Writes the samples of a checkpoint.
fn append_checkpoint_metrics(body: &mut String, checkpoint: &CheckpointRow)
    ensures
        final(body)@ == old(body)@ + render(checkpoint_lines(*checkpoint)),
{
    broadcast use lemma_render_append;

    let labels = text_labels(&checkpoint.chain_id, &checkpoint.dataset);
    append_metric(
        body,
        families::CHECKPOINT_NEXT_BLOCK,
        labels.as_slice(),
        checkpoint.next_block.as_str(),
    );
    append_optional_metric(
        body,
        families::CHECKPOINT_UPDATED_TIMESTAMP_SECONDS,
        labels.as_slice(),
        checkpoint.updated_timestamp_seconds.as_ref(),
    );
}

/// Writes the samples of a configured scope.
fn append_scope_metrics(
    body: &mut String,
    checkpoints: &[CheckpointRow],
    scope: &ConfiguredScopeMetricsRow,
)
    ensures
        final(body)@ == old(body)@ + render(scope_lines(checkpoints@, *scope)),
{
    broadcast use lemma_render_append;

    let labels = runtime_labels(scope.chain_id, scope.dataset.as_str());
    let mut info_labels = runtime_labels(scope.chain_id, scope.dataset.as_str());
    let ghost shorter = info_labels@;
    info_labels.push(("start_block", decimal_text(scope.start_block)));
    info_labels.push(("batch_size", decimal_text(scope.batch_size)));
    assert(labels_view(info_labels@) =~= scope_info_labels(*scope)) by {
        assert(labels_view(info_labels@) =~= labels_view(shorter).push(
            ("start_block"@, decimal(scope.start_block as nat)),
        ).push(("batch_size"@, decimal(scope.batch_size as nat))));
    }
    append_metric(body, families::CONFIGURED_SCOPE_INFO, info_labels.as_slice(), "1");
    let present = if has_checkpoint(checkpoints, scope) {
        "1"
    } else {
        "0"
    };
    append_metric(body, families::CHECKPOINT_PRESENT, labels.as_slice(), present);
}

/// Writes the sample of a checkpoint that belongs to no configured scope.
fn append_stray_metrics(
    body: &mut String,
    scopes: &[ConfiguredScopeMetricsRow],
    checkpoint: &CheckpointRow,
)
    ensures
        final(body)@ == old(body)@ + render(stray_lines(scopes@, *checkpoint)),
{
    if has_scope(scopes, checkpoint) {
        assert(old(body)@ + render(seq![]) =~= old(body)@);
        return;
    }
    let labels = text_labels(&checkpoint.chain_id, &checkpoint.dataset);
    append_metric(body, families::CHECKPOINT_PRESENT, labels.as_slice(), "1");
}

/// Writes the sample of a table.
fn append_table_metrics(
    body: &mut String,
    row_counts: &[LegacyTableRowCount],
    table: &'static str,
)
    ensures
        final(body)@ == old(body)@ + render(table_lines(row_counts@, table)),
{
    let labels = vec![("table", table.to_owned())];
    assert(labels_view(labels@) =~= seq![("table"@, table@)]);
    append_metric(
        body,
        families::LEGACY_TABLE_ROWS,
        labels.as_slice(),
        signed_decimal_text(count_of_table(row_counts, table)).as_str(),
    );
}

/// Writes the samples of the checkpoints.
fn append_all_checkpoints(body: &mut String, checkpoints: &[CheckpointRow])
    ensures
        final(body)@ == old(body)@ + render(
            lines_of_each(
                checkpoints@,
                |checkpoint: CheckpointRow| checkpoint_lines(checkpoint),
            ),
        ),
{
    let ghost start = body@;
    let ghost lines = |checkpoint: CheckpointRow| checkpoint_lines(checkpoint);
    assert(start + render(lines_of_each(checkpoints@.take(0), lines)) =~= start);
    for index in 0..checkpoints.len()
        invariant
            lines == (|checkpoint: CheckpointRow| checkpoint_lines(checkpoint)),
            body@ == start + render(lines_of_each(checkpoints@.take(index as int), lines)),
    {
        append_checkpoint_metrics(body, &checkpoints[index]);
        proof {
            lemma_render_next(start, checkpoints@, lines, index as int);
        }
    }
    assert(checkpoints@.take(checkpoints@.len() as int) =~= checkpoints@);
}

/// Writes what is exposed of the checkpoints.
fn append_checkpoint_section(body: &mut String, checkpoints: &[CheckpointRow])
    ensures
        final(body)@ == old(body)@ + render(checkpoint_section(checkpoints@)),
{
    broadcast use lemma_render_append;

    append_family(
        body,
        families::CHECKPOINT_NEXT_BLOCK,
        families::CHECKPOINT_NEXT_BLOCK_HELP,
        families::GAUGE,
    );
    append_family(
        body,
        families::CHECKPOINT_UPDATED_TIMESTAMP_SECONDS,
        families::CHECKPOINT_UPDATED_TIMESTAMP_SECONDS_HELP,
        families::GAUGE,
    );
    append_all_checkpoints(body, checkpoints);
    append_family(
        body,
        families::CHECKPOINT_ROWS,
        families::CHECKPOINT_ROWS_HELP,
        families::GAUGE,
    );
    append_bare_metric(
        body,
        families::CHECKPOINT_ROWS,
        decimal_text(checkpoints.len() as u64).as_str(),
    );
}

/// Writes the samples of the configured scopes.
fn append_all_scopes(
    body: &mut String,
    checkpoints: &[CheckpointRow],
    scopes: &[ConfiguredScopeMetricsRow],
)
    ensures
        final(body)@ == old(body)@ + render(
            lines_of_each(
                scopes@,
                |scope: ConfiguredScopeMetricsRow| scope_lines(checkpoints@, scope),
            ),
        ),
{
    let ghost start = body@;
    let ghost lines = |scope: ConfiguredScopeMetricsRow| scope_lines(checkpoints@, scope);
    assert(start + render(lines_of_each(scopes@.take(0), lines)) =~= start);
    for index in 0..scopes.len()
        invariant
            lines == (|scope: ConfiguredScopeMetricsRow| scope_lines(checkpoints@, scope)),
            body@ == start + render(lines_of_each(scopes@.take(index as int), lines)),
    {
        append_scope_metrics(body, checkpoints, &scopes[index]);
        proof {
            lemma_render_next(start, scopes@, lines, index as int);
        }
    }
    assert(scopes@.take(scopes@.len() as int) =~= scopes@);
}

/// Writes the samples of the checkpoints that belong to no configured scope.
fn append_all_strays(
    body: &mut String,
    checkpoints: &[CheckpointRow],
    scopes: &[ConfiguredScopeMetricsRow],
)
    ensures
        final(body)@ == old(body)@ + render(
            lines_of_each(
                checkpoints@,
                |checkpoint: CheckpointRow| stray_lines(scopes@, checkpoint),
            ),
        ),
{
    let ghost start = body@;
    let ghost lines = |checkpoint: CheckpointRow| stray_lines(scopes@, checkpoint);
    assert(start + render(lines_of_each(checkpoints@.take(0), lines)) =~= start);
    for index in 0..checkpoints.len()
        invariant
            lines == (|checkpoint: CheckpointRow| stray_lines(scopes@, checkpoint)),
            body@ == start + render(lines_of_each(checkpoints@.take(index as int), lines)),
    {
        append_stray_metrics(body, scopes, &checkpoints[index]);
        proof {
            lemma_render_next(start, checkpoints@, lines, index as int);
        }
    }
    assert(checkpoints@.take(checkpoints@.len() as int) =~= checkpoints@);
}

/// Writes what is exposed of the configured scopes, and of the checkpoints that belong to none.
fn append_scope_section(
    body: &mut String,
    checkpoints: &[CheckpointRow],
    scopes: &[ConfiguredScopeMetricsRow],
)
    ensures
        final(body)@ == old(body)@ + render(scope_section(checkpoints@, scopes@)),
{
    broadcast use lemma_render_append;

    append_family(
        body,
        families::CONFIGURED_SCOPE_INFO,
        families::CONFIGURED_SCOPE_INFO_HELP,
        families::GAUGE,
    );
    append_family(
        body,
        families::CHECKPOINT_PRESENT,
        families::CHECKPOINT_PRESENT_HELP,
        families::GAUGE,
    );
    append_all_scopes(body, checkpoints, scopes);
    append_all_strays(body, checkpoints, scopes);
}

/// Writes the samples of the tables.
fn append_all_tables(
    body: &mut String,
    row_counts: &[LegacyTableRowCount],
    tables: &[&'static str],
)
    ensures
        final(body)@ == old(body)@ + render(
            lines_of_each(
                tables@,
                |table: &'static str| table_lines(row_counts@, table),
            ),
        ),
{
    let ghost start = body@;
    let ghost lines = |table: &'static str| table_lines(row_counts@, table);
    assert(start + render(lines_of_each(tables@.take(0), lines)) =~= start);
    for index in 0..tables.len()
        invariant
            lines == (|table: &'static str| table_lines(row_counts@, table)),
            body@ == start + render(lines_of_each(tables@.take(index as int), lines)),
    {
        append_table_metrics(body, row_counts, tables[index]);
        proof {
            lemma_render_next(start, tables@, lines, index as int);
        }
    }
    assert(tables@.take(tables@.len() as int) =~= tables@);
}

/// Writes what is exposed of the tables.
fn append_table_section(body: &mut String, row_counts: &[LegacyTableRowCount])
    ensures
        final(body)@ == old(body)@ + render(table_section(row_counts@)),
{
    broadcast use lemma_render_append;

    append_family(
        body,
        families::LEGACY_TABLE_ROWS,
        families::LEGACY_TABLE_ROWS_HELP,
        families::GAUGE,
    );
    let tables = LEGACY_TABLES;
    append_all_tables(body, row_counts, tables.as_slice());
}

/// Writes out all metrics, where the points in time and the durations of the runtime rows are
/// given by their text.
pub fn format_rendered_metrics(
    checkpoints: &[CheckpointRow],
    row_counts: &[LegacyTableRowCount],
    scopes: &[ConfiguredScopeMetricsRow],
    rows: &[RuntimeMetricsRow<String>],
) -> (body: String)
    ensures
        body@ == render(exposition(checkpoints@, row_counts@, scopes@, rows@)),
{
    broadcast use lemma_render_append;

    let mut body = String::new();
    append_checkpoint_section(&mut body, checkpoints);
    append_scope_section(&mut body, checkpoints, scopes);
    append_runtime_section(&mut body, rows);
    append_table_section(&mut body, row_counts);
    proof {
        let lines = exposition(checkpoints@, row_counts@, scopes@, rows@);
        assert(Seq::<char>::empty() + render(lines) =~= render(lines));
    }
    body
}

/// Writes out all metrics: those of the checkpoints and of the tables as they are given, those
/// of the configured scopes and of the runtime rows as the snapshot holds them.
pub fn format_metrics<S: core::fmt::Display>(
    checkpoints: &[CheckpointRow],
    row_counts: &[LegacyTableRowCount],
    runtime: &MetricsSnapshot<S>,
) -> (body: String)
    ensures
        exists|rows: Seq<RuntimeMetricsRow<String>>|
            {
                &&& #[trigger] rendered_rows(runtime.runtime_rows@, rows)
                &&& body@ == render(
                    exposition(checkpoints@, row_counts@, runtime.configured_scopes@, rows),
                )
            },
{
    let mut rows: Vec<RuntimeMetricsRow<String>> = Vec::new();
    for index in 0..runtime.runtime_rows.len()
        invariant
            rows@.len() == index,
            forall|i: int|
                0 <= i < index ==> rendered_row(
                    #[trigger] runtime.runtime_rows@[i],
                    #[trigger] rows@[i],
                ),
    {
        rows.push(render_row(&runtime.runtime_rows[index]));
    }
    assert(rendered_rows(runtime.runtime_rows@, rows@));
    format_rendered_metrics(
        checkpoints,
        row_counts,
        runtime.configured_scopes.as_slice(),
        rows.as_slice(),
    )
}

} // verus!
