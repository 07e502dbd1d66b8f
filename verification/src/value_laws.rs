//! What value each series has: for everything that is exposed, the one sample that there is of it.
use crate::decimal::{decimal, signed_decimal};
use crate::exposition::{family, lines_of_each, optional_sample, sample, Label, Line};
use crate::families;
use crate::labels::{
    scope_labels, scope_operation_labels, scope_result_labels, scope_stage_labels,
};
use crate::metrics::{ConfiguredScopeMetricsRow, RuntimeMetricsRow};
use crate::ops::{
    belongs_to, checkpoint_lines, checkpoint_section, exposition, is_checkpointed, is_configured,
    scope_info_labels, scope_lines, scope_section, stray_lines, table_count, table_lines,
    table_section, CheckpointRow, LegacyTableRowCount, LEGACY_TABLES,
};
use crate::report_laws::{lemma_scopes_carry_different_labels, sample_name};
use crate::runtime_report::{
    observation_families, observation_lines, outcome_lines, request_lines, row_lines,
    runtime_section, throughput_lines, total_families,
};
use crate::scope::ascending;
use crate::series_laws::{
    checkpoints_are_distinct, labelled, lemma_observations_are_named, lemma_outcomes_are_distinct,
    lemma_requests_are_distinct, lemma_row_is_distinct, lemma_scope_labels_differ,
    lemma_tables_are_told_apart, lemma_throughput_is_distinct, named, observation_names,
    outcome_names, request_names, rollback_names, runtime_names, series, throughput_names,
};
use vstd::prelude::*;

verus! {

/// The values of all samples of the series with the given name and labels, in their order.
pub open spec fn values_of(
    lines: Seq<Line>,
    name: Seq<char>,
    labels: Seq<(Seq<char>, Seq<char>)>,
) -> Seq<Seq<char>>
    decreases lines.len(),
{
    if lines.len() == 0 {
        seq![]
    } else {
        let earlier = values_of(lines.drop_last(), name, labels);
        match lines.last() {
            Line::Sample { name: own_name, labels: own_labels, value } => if own_name == name
                && own_labels == labels {
                earlier.push(value)
            } else {
                earlier
            },
            _ => earlier,
        }
    }
}

broadcast proof fn lemma_values_concat(
    a: Seq<Line>,
    b: Seq<Line>,
    name: Seq<char>,
    labels: Seq<Label>,
)
    ensures
        #[trigger] values_of(a + b, name, labels) == values_of(a, name, labels) + values_of(
            b,
            name,
            labels,
        ),
    decreases b.len(),
{
    if b.len() == 0 {
        assert(a + b =~= a);
        assert(values_of(b, name, labels) =~= seq![]);
    } else {
        lemma_values_concat(a, b.drop_last(), name, labels);
        assert((a + b).drop_last() =~= a + b.drop_last());
        assert((a + b).last() == b.last());
        assert(values_of(a + b, name, labels) =~= values_of(a, name, labels) + values_of(
            b,
            name,
            labels,
        ));
    }
}

broadcast proof fn lemma_values_of_sample(
    own_name: Seq<char>,
    own_labels: Seq<Label>,
    value: Seq<char>,
    name: Seq<char>,
    labels: Seq<Label>,
)
    ensures
        #[trigger] values_of(sample(own_name, own_labels, value), name, labels) == (if own_name
            == name && own_labels == labels {
            seq![value]
        } else {
            seq![]
        }),
{
    let lines = sample(own_name, own_labels, value);
    assert(lines.drop_last() =~= seq![]);
    assert(values_of(lines.drop_last(), name, labels) =~= seq![]);
    assert(seq![].push(value) =~= seq![value]);
}

broadcast proof fn lemma_values_of_optional(
    own_name: Seq<char>,
    own_labels: Seq<Label>,
    value: Option<Seq<char>>,
    name: Seq<char>,
    labels: Seq<Label>,
)
    ensures
        #[trigger] values_of(optional_sample(own_name, own_labels, value), name, labels) == (
        if own_name == name && own_labels == labels && value is Some {
            seq![value->0]
        } else {
            seq![]
        }),
{
    match value {
        Some(value) => {
            lemma_values_of_sample(own_name, own_labels, value, name, labels);
        },
        None => {},
    }
}

broadcast proof fn lemma_values_of_family(
    own_name: Seq<char>,
    help: Seq<char>,
    kind: Seq<char>,
    name: Seq<char>,
    labels: Seq<Label>,
)
    ensures
        #[trigger] values_of(family(own_name, help, kind), name, labels) == Seq::<
            Seq<char>,
        >::empty(),
{
    let lines = family(own_name, help, kind);
    assert(lines.drop_last().drop_last() =~= seq![]);
    assert(values_of(lines.drop_last().drop_last(), name, labels) =~= seq![]);
    assert(values_of(lines.drop_last(), name, labels) =~= seq![]);
}

/// Lines among which no sample has the name give no value.
proof fn lemma_no_value_by_name(
    lines: Seq<Line>,
    names: Set<Seq<char>>,
    name: Seq<char>,
    labels: Seq<Label>,
)
    requires
        named(lines, names),
        !names.contains(name),
    ensures
        values_of(lines, name, labels) == Seq::<Seq<char>>::empty(),
    decreases lines.len(),
{
    if lines.len() > 0 {
        let shorter = lines.drop_last();
        assert forall|i: int| 0 <= i < shorter.len() implies (sample_name(
            #[trigger] shorter[i],
        ) matches Some(own) ==> names.contains(own)) by {
            assert(shorter[i] == lines[i]);
        }
        lemma_no_value_by_name(shorter, names, name, labels);
        assert(sample_name(lines[lines.len() - 1]) != Some(name));
    }
}

/// Lines whose samples all carry other labels give no value.
proof fn lemma_no_value_by_labels(
    lines: Seq<Line>,
    own: Seq<Label>,
    name: Seq<char>,
    labels: Seq<Label>,
)
    requires
        labelled(lines, own),
        labels.take(own.len() as int) != own,
    ensures
        values_of(lines, name, labels) == Seq::<Seq<char>>::empty(),
    decreases lines.len(),
{
    if lines.len() > 0 {
        let shorter = lines.drop_last();
        assert forall|i: int| 0 <= i < shorter.len() implies (series(
            #[trigger] shorter[i],
        ) matches Some(found) ==> found.labels.take(own.len() as int) == own) by {
            assert(shorter[i] == lines[i]);
        }
        lemma_no_value_by_labels(shorter, own, name, labels);
        assert(series(lines[lines.len() - 1]) is Some ==> series(
            lines[lines.len() - 1],
        ).unwrap().labels.take(own.len() as int) == own);
    }
}

/// Items of which none gives a value give none together.
proof fn lemma_no_value_of_each<T>(
    items: Seq<T>,
    lines: spec_fn(T) -> Seq<Line>,
    name: Seq<char>,
    labels: Seq<Label>,
)
    requires
        forall|i: int|
            0 <= i < items.len() ==> values_of(lines(#[trigger] items[i]), name, labels).len() == 0,
    ensures
        values_of(lines_of_each(items, lines), name, labels) == Seq::<Seq<char>>::empty(),
    decreases items.len(),
{
    if items.len() > 0 {
        let shorter = items.drop_last();
        assert forall|i: int| 0 <= i < shorter.len() implies values_of(
            lines(#[trigger] shorter[i]),
            name,
            labels,
        ).len() == 0 by {
            assert(shorter[i] == items[i]);
        }
        lemma_no_value_of_each(shorter, lines, name, labels);
        lemma_values_concat(lines_of_each(shorter, lines), lines(items.last()), name, labels);
        assert(items.last() == items[items.len() - 1]);
        assert(values_of(lines_of_each(items, lines), name, labels) =~= seq![]);
    } else {
        assert(values_of(lines_of_each(items, lines), name, labels) =~= seq![]);
    }
}

/// Items of which one alone gives values give its values together.
proof fn lemma_values_of_one<T>(
    items: Seq<T>,
    lines: spec_fn(T) -> Seq<Line>,
    i: int,
    name: Seq<char>,
    labels: Seq<Label>,
)
    requires
        0 <= i < items.len(),
        forall|j: int|
            0 <= j < items.len() && j != i ==> values_of(
                lines(#[trigger] items[j]),
                name,
                labels,
            ).len() == 0,
    ensures
        values_of(lines_of_each(items, lines), name, labels) == values_of(
            lines(items[i]),
            name,
            labels,
        ),
    decreases items.len(),
{
    let shorter = items.drop_last();
    let last = items.len() - 1;
    assert(items.last() == items[last]);
    assert forall|j: int| 0 <= j < shorter.len() && j != i implies values_of(
        lines(#[trigger] shorter[j]),
        name,
        labels,
    ).len() == 0 by {
        assert(shorter[j] == items[j]);
    }
    lemma_values_concat(lines_of_each(shorter, lines), lines(items.last()), name, labels);
    if i == last {
        lemma_no_value_of_each(shorter, lines, name, labels);
    } else {
        lemma_values_of_one(shorter, lines, i, name, labels);
        assert(values_of(lines(items[last]), name, labels) =~= seq![]);
    }
    assert(values_of(lines_of_each(items, lines), name, labels) =~= values_of(
        lines(items[i]),
        name,
        labels,
    ));
}

proof fn lemma_no_value_in_checkpoint_section(
    checkpoints: Seq<CheckpointRow>,
    name: Seq<char>,
    labels: Seq<Label>,
)
    requires
        name != families::CHECKPOINT_NEXT_BLOCK@,
        name != families::CHECKPOINT_UPDATED_TIMESTAMP_SECONDS@,
    ensures
        values_of(checkpoint_section(checkpoints), name, labels) == Seq::<Seq<char>>::empty(),
{
    let lines = |checkpoint: CheckpointRow| checkpoint_lines(checkpoint);
    assert forall|i: int| 0 <= i < checkpoints.len() implies values_of(
        lines(#[trigger] checkpoints[i]),
        name,
        labels,
    ).len() == 0 by {
        broadcast use {lemma_values_concat, lemma_values_of_sample, lemma_values_of_optional};

        assert(lines(checkpoints[i]) == checkpoint_lines(checkpoints[i]));
    }
    lemma_no_value_of_each(checkpoints, lines, name, labels);
    lemma_values_in_checkpoint_section(checkpoints, name, labels);
}

proof fn lemma_values_in_checkpoint_section(
    checkpoints: Seq<CheckpointRow>,
    name: Seq<char>,
    labels: Seq<Label>,
)
    ensures
        values_of(checkpoint_section(checkpoints), name, labels) == values_of(
            lines_of_each(checkpoints, |checkpoint: CheckpointRow| checkpoint_lines(checkpoint)),
            name,
            labels,
        ),
{
    broadcast use {lemma_values_concat, lemma_values_of_family};

    let each = lines_of_each(
        checkpoints,
        |checkpoint: CheckpointRow| checkpoint_lines(checkpoint),
    );
    let bare = seq![
        Line::Bare { name: families::CHECKPOINT_ROWS@, value: decimal(checkpoints.len()) },
    ];
    assert(values_of(bare, name, labels) =~= seq![]) by {
        assert(bare.drop_last() =~= seq![]);
        assert(values_of(bare.drop_last(), name, labels) =~= seq![]);
    }
    assert(values_of(checkpoint_section(checkpoints), name, labels) =~= values_of(
        each,
        name,
        labels,
    ));
}

proof fn lemma_values_in_scope_section(
    checkpoints: Seq<CheckpointRow>,
    scopes: Seq<ConfiguredScopeMetricsRow>,
    name: Seq<char>,
    labels: Seq<Label>,
)
    ensures
        values_of(scope_section(checkpoints, scopes), name, labels) == values_of(
            lines_of_each(
                scopes,
                |scope: ConfiguredScopeMetricsRow| scope_lines(checkpoints, scope),
            ),
            name,
            labels,
        ) + values_of(
            lines_of_each(
                checkpoints,
                |checkpoint: CheckpointRow| stray_lines(scopes, checkpoint),
            ),
            name,
            labels,
        ),
{
    broadcast use {lemma_values_concat, lemma_values_of_family};

    let a = lines_of_each(
        scopes,
        |scope: ConfiguredScopeMetricsRow| scope_lines(checkpoints, scope),
    );
    let b = lines_of_each(
        checkpoints,
        |checkpoint: CheckpointRow| stray_lines(scopes, checkpoint),
    );
    assert(values_of(scope_section(checkpoints, scopes), name, labels) =~= values_of(
        a,
        name,
        labels,
    ) + values_of(b, name, labels));
}

proof fn lemma_no_value_in_scope_section(
    checkpoints: Seq<CheckpointRow>,
    scopes: Seq<ConfiguredScopeMetricsRow>,
    name: Seq<char>,
    labels: Seq<Label>,
)
    requires
        name != families::CONFIGURED_SCOPE_INFO@,
        name != families::CHECKPOINT_PRESENT@,
    ensures
        values_of(scope_section(checkpoints, scopes), name, labels) == Seq::<Seq<char>>::empty(),
{
    broadcast use {lemma_values_concat, lemma_values_of_sample};

    let lines = |scope: ConfiguredScopeMetricsRow| scope_lines(checkpoints, scope);
    let strays = |checkpoint: CheckpointRow| stray_lines(scopes, checkpoint);
    assert forall|i: int| 0 <= i < scopes.len() implies values_of(
        lines(#[trigger] scopes[i]),
        name,
        labels,
    ).len() == 0 by {
        assert(lines(scopes[i]) == scope_lines(checkpoints, scopes[i]));
    }
    assert forall|i: int| 0 <= i < checkpoints.len() implies values_of(
        strays(#[trigger] checkpoints[i]),
        name,
        labels,
    ).len() == 0 by {
        assert(strays(checkpoints[i]) == stray_lines(scopes, checkpoints[i]));
    }
    lemma_no_value_of_each(scopes, lines, name, labels);
    lemma_no_value_of_each(checkpoints, strays, name, labels);
    lemma_values_in_scope_section(checkpoints, scopes, name, labels);
    assert(values_of(scope_section(checkpoints, scopes), name, labels) =~= seq![]);
}

proof fn lemma_values_in_runtime_section(
    rows: Seq<RuntimeMetricsRow<String>>,
    name: Seq<char>,
    labels: Seq<Label>,
)
    ensures
        values_of(runtime_section(rows), name, labels) == values_of(
            lines_of_each(rows, |row: RuntimeMetricsRow<String>| row_lines(row)),
            name,
            labels,
        ),
{
    broadcast use {lemma_values_concat, lemma_values_of_family};

    assert(values_of(observation_families(), name, labels) =~= seq![]);
    assert(values_of(total_families(), name, labels) =~= seq![]);
    assert(values_of(runtime_section(rows), name, labels) =~= values_of(
        lines_of_each(rows, |row: RuntimeMetricsRow<String>| row_lines(row)),
        name,
        labels,
    ));
}

proof fn lemma_no_value_in_runtime_section(
    rows: Seq<RuntimeMetricsRow<String>>,
    name: Seq<char>,
    labels: Seq<Label>,
)
    requires
        !runtime_names().contains(name),
    ensures
        values_of(runtime_section(rows), name, labels) == Seq::<Seq<char>>::empty(),
{
    let lines = |row: RuntimeMetricsRow<String>| row_lines(row);
    assert forall|i: int| 0 <= i < rows.len() implies values_of(
        lines(#[trigger] rows[i]),
        name,
        labels,
    ).len() == 0 by {
        lemma_row_is_distinct(rows[i]);
        lemma_no_value_by_name(row_lines(rows[i]), runtime_names(), name, labels);
    }
    lemma_no_value_of_each(rows, lines, name, labels);
    lemma_values_in_runtime_section(rows, name, labels);
}

proof fn lemma_values_in_table_section(
    row_counts: Seq<LegacyTableRowCount>,
    name: Seq<char>,
    labels: Seq<Label>,
)
    ensures
        values_of(table_section(row_counts), name, labels) == values_of(
            lines_of_each(LEGACY_TABLES@, |table: &'static str| table_lines(row_counts, table)),
            name,
            labels,
        ),
{
    broadcast use {lemma_values_concat, lemma_values_of_family};

    assert(values_of(table_section(row_counts), name, labels) =~= values_of(
        lines_of_each(LEGACY_TABLES@, |table: &'static str| table_lines(row_counts, table)),
        name,
        labels,
    ));
}

proof fn lemma_no_value_in_table_section(
    row_counts: Seq<LegacyTableRowCount>,
    name: Seq<char>,
    labels: Seq<Label>,
)
    requires
        name != families::LEGACY_TABLE_ROWS@,
    ensures
        values_of(table_section(row_counts), name, labels) == Seq::<Seq<char>>::empty(),
{
    broadcast use lemma_values_of_sample;

    let lines = |table: &'static str| table_lines(row_counts, table);
    assert forall|i: int| 0 <= i < LEGACY_TABLES@.len() implies values_of(
        lines(#[trigger] LEGACY_TABLES@[i]),
        name,
        labels,
    ).len() == 0 by {
        assert(lines(LEGACY_TABLES@[i]) == table_lines(row_counts, LEGACY_TABLES@[i]));
    }
    lemma_no_value_of_each(LEGACY_TABLES@, lines, name, labels);
    lemma_values_in_table_section(row_counts, name, labels);
}

/// The values in the whole are those in its sections.
proof fn lemma_values_by_section(
    checkpoints: Seq<CheckpointRow>,
    row_counts: Seq<LegacyTableRowCount>,
    scopes: Seq<ConfiguredScopeMetricsRow>,
    rows: Seq<RuntimeMetricsRow<String>>,
    name: Seq<char>,
    labels: Seq<Label>,
)
    ensures
        values_of(exposition(checkpoints, row_counts, scopes, rows), name, labels) == values_of(
            checkpoint_section(checkpoints),
            name,
            labels,
        ) + values_of(scope_section(checkpoints, scopes), name, labels) + values_of(
            runtime_section(rows),
            name,
            labels,
        ) + values_of(table_section(row_counts), name, labels),
{
    broadcast use lemma_values_concat;

}

/// What is exposed of a scope under the name of a metric of the runtime rows comes from the row of
/// that scope.
proof fn lemma_values_come_from_the_row(
    checkpoints: Seq<CheckpointRow>,
    row_counts: Seq<LegacyTableRowCount>,
    scopes: Seq<ConfiguredScopeMetricsRow>,
    rows: Seq<RuntimeMetricsRow<String>>,
    i: int,
    name: Seq<char>,
    labels: Seq<Label>,
)
    requires
        ascending(rows),
        0 <= i < rows.len(),
        runtime_names().contains(name),
        labels.take(2) == scope_labels(decimal(rows[i].chain_id as nat), rows[i].dataset@),
    ensures
        values_of(exposition(checkpoints, row_counts, scopes, rows), name, labels) == values_of(
            row_lines(rows[i]),
            name,
            labels,
        ),
{
    families::lemma_names_are_told_apart();
    lemma_values_by_section(checkpoints, row_counts, scopes, rows, name, labels);
    lemma_no_value_in_checkpoint_section(checkpoints, name, labels);
    lemma_no_value_in_scope_section(checkpoints, scopes, name, labels);
    lemma_no_value_in_table_section(row_counts, name, labels);
    lemma_values_in_runtime_section(rows, name, labels);
    let lines = |row: RuntimeMetricsRow<String>| row_lines(row);
    assert forall|j: int| 0 <= j < rows.len() && j != i implies values_of(
        lines(#[trigger] rows[j]),
        name,
        labels,
    ).len() == 0 by {
        if i < j {
            lemma_scopes_carry_different_labels(rows, i, j);
        } else {
            lemma_scopes_carry_different_labels(rows, j, i);
        }
        lemma_row_is_distinct(rows[j]);
        lemma_no_value_by_labels(
            row_lines(rows[j]),
            scope_labels(decimal(rows[j].chain_id as nat), rows[j].dataset@),
            name,
            labels,
        );
    }
    lemma_values_of_one(rows, lines, i, name, labels);
    assert(values_of(exposition(checkpoints, row_counts, scopes, rows), name, labels) =~= values_of(
        row_lines(rows[i]),
        name,
        labels,
    ));
}

/// The values in a row are those in its parts.
proof fn lemma_values_in_row(row: RuntimeMetricsRow<String>, name: Seq<char>, labels: Seq<Label>)
    ensures
        observation_names().contains(name) ==> values_of(row_lines(row), name, labels) == values_of(
            observation_lines(row),
            name,
            labels,
        ),
        outcome_names().contains(name) ==> values_of(row_lines(row), name, labels) == values_of(
            outcome_lines(row),
            name,
            labels,
        ),
        throughput_names().contains(name) ==> values_of(row_lines(row), name, labels) == values_of(
            throughput_lines(row),
            name,
            labels,
        ),
        request_names().contains(name) ==> values_of(row_lines(row), name, labels) == values_of(
            request_lines(row),
            name,
            labels,
        ),
        rollback_names().contains(name) ==> values_of(row_lines(row), name, labels) == values_of(
            sample(
                families::REORG_ROLLBACKS_TOTAL@,
                scope_labels(decimal(row.chain_id as nat), row.dataset@),
                decimal(row.reorg_rollbacks_total as nat),
            ),
            name,
            labels,
        ),
{
    families::lemma_names_are_told_apart();
    lemma_observations_are_named(row);
    lemma_outcomes_are_distinct(row);
    lemma_throughput_is_distinct(row);
    lemma_requests_are_distinct(row);
    let e = sample(
        families::REORG_ROLLBACKS_TOTAL@,
        scope_labels(decimal(row.chain_id as nat), row.dataset@),
        decimal(row.reorg_rollbacks_total as nat),
    );
    if !observation_names().contains(name) {
        lemma_no_value_by_name(observation_lines(row), observation_names(), name, labels);
    }
    if !outcome_names().contains(name) {
        lemma_no_value_by_name(outcome_lines(row), outcome_names(), name, labels);
    }
    if !throughput_names().contains(name) {
        lemma_no_value_by_name(throughput_lines(row), throughput_names(), name, labels);
    }
    if !request_names().contains(name) {
        lemma_no_value_by_name(request_lines(row), request_names(), name, labels);
    }
    lemma_values_of_sample(
        families::REORG_ROLLBACKS_TOTAL@,
        scope_labels(decimal(row.chain_id as nat), row.dataset@),
        decimal(row.reorg_rollbacks_total as nat),
        name,
        labels,
    );
    let all = values_of(row_lines(row), name, labels);
    assert(all == values_of(observation_lines(row), name, labels) + values_of(
        outcome_lines(row),
        name,
        labels,
    ) + values_of(throughput_lines(row), name, labels) + values_of(request_lines(row), name, labels)
        + values_of(e, name, labels)) by {
        broadcast use lemma_values_concat;

    }
    if observation_names().contains(name) {
        assert(all =~= values_of(observation_lines(row), name, labels));
    }
    if outcome_names().contains(name) {
        assert(all =~= values_of(outcome_lines(row), name, labels));
    }
    if throughput_names().contains(name) {
        assert(all =~= values_of(throughput_lines(row), name, labels));
    }
    if request_names().contains(name) {
        assert(all =~= values_of(request_lines(row), name, labels));
    }
    if rollback_names().contains(name) {
        assert(all =~= values_of(e, name, labels));
    }
}

/// What was last observed in a scope is exposed once each, with the very value that the row of the
/// scope holds, and not at all where nothing was observed.
pub proof fn lemma_observations_are_exposed(
    checkpoints: Seq<CheckpointRow>,
    row_counts: Seq<LegacyTableRowCount>,
    scopes: Seq<ConfiguredScopeMetricsRow>,
    rows: Seq<RuntimeMetricsRow<String>>,
    i: int,
)
    requires
        ascending(rows),
        0 <= i < rows.len(),
    ensures
        ({
            let lines = exposition(checkpoints, row_counts, scopes, rows);
            let row = rows[i];
            &&& values_of(
                lines,
                "ormp_indexer_target_block"@,
                seq![
                    ("chain_id"@, decimal(row.chain_id as nat)),
                    ("dataset"@, row.dataset@),
                ],
            ) == (match row.target_block {
                Some(n) => seq![decimal(n as nat)],
                None => seq![],
            })
            &&& values_of(
                lines,
                "ormp_indexer_remaining_blocks"@,
                seq![
                    ("chain_id"@, decimal(row.chain_id as nat)),
                    ("dataset"@, row.dataset@),
                ],
            ) == (match row.remaining_blocks {
                Some(n) => seq![decimal(n as nat)],
                None => seq![],
            })
            &&& values_of(
                lines,
                "ormp_indexer_datalens_head_height"@,
                seq![
                    ("chain_id"@, decimal(row.chain_id as nat)),
                    ("dataset"@, row.dataset@),
                ],
            ) == (match row.datalens_head_height {
                Some(n) => seq![decimal(n as nat)],
                None => seq![],
            })
            &&& values_of(
                lines,
                "ormp_indexer_datalens_head_observed_timestamp_seconds"@,
                seq![
                    ("chain_id"@, decimal(row.chain_id as nat)),
                    ("dataset"@, row.dataset@),
                ],
            ) == (match row.datalens_head_observed_timestamp_seconds {
                Some(text) => seq![text@],
                None => seq![],
            })
            &&& values_of(
                lines,
                "ormp_indexer_datalens_head_advanced_timestamp_seconds"@,
                seq![
                    ("chain_id"@, decimal(row.chain_id as nat)),
                    ("dataset"@, row.dataset@),
                ],
            ) == (match row.datalens_head_advanced_timestamp_seconds {
                Some(text) => seq![text@],
                None => seq![],
            })
            &&& values_of(
                lines,
                "ormp_indexer_chain_last_success_timestamp_seconds"@,
                seq![
                    ("chain_id"@, decimal(row.chain_id as nat)),
                    ("dataset"@, row.dataset@),
                ],
            ) == (match row.chain_last_success_timestamp_seconds {
                Some(text) => seq![text@],
                None => seq![],
            })
            &&& values_of(
                lines,
                "ormp_indexer_checkpoint_last_forward_advance_timestamp_seconds"@,
                seq![
                    ("chain_id"@, decimal(row.chain_id as nat)),
                    ("dataset"@, row.dataset@),
                ],
            ) == (match row.checkpoint_last_forward_advance_timestamp_seconds {
                Some(text) => seq![text@],
                None => seq![],
            })
        }),
{
    let row = rows[i];
    let chain_id = decimal(row.chain_id as nat);
    let dataset = row.dataset@;
    let part = observation_lines(row);
    families::lemma_names_are_told_apart();
    let own = scope_labels(chain_id, dataset);
    assert(own =~= seq![
        ("chain_id"@, decimal(row.chain_id as nat)),
        ("dataset"@, row.dataset@),
    ]);
    assert(own.take(2) =~= scope_labels(chain_id, dataset));
    lemma_values_come_from_the_row(
        checkpoints,
        row_counts,
        scopes,
        rows,
        i,
        families::TARGET_BLOCK@,
        own,
    );
    lemma_values_in_row(row, families::TARGET_BLOCK@, own);
    assert(values_of(part, families::TARGET_BLOCK@, own)
        =~= (match row.target_block {
        Some(n) => seq![decimal(n as nat)],
        None => seq![],
    })) by {
        broadcast use {lemma_values_concat, lemma_values_of_optional};

    }
    lemma_values_come_from_the_row(
        checkpoints,
        row_counts,
        scopes,
        rows,
        i,
        families::REMAINING_BLOCKS@,
        own,
    );
    lemma_values_in_row(row, families::REMAINING_BLOCKS@, own);
    assert(values_of(part, families::REMAINING_BLOCKS@, own)
        =~= (match row.remaining_blocks {
        Some(n) => seq![decimal(n as nat)],
        None => seq![],
    })) by {
        broadcast use {lemma_values_concat, lemma_values_of_optional};

    }
    lemma_values_come_from_the_row(
        checkpoints,
        row_counts,
        scopes,
        rows,
        i,
        families::DATALENS_HEAD_HEIGHT@,
        own,
    );
    lemma_values_in_row(row, families::DATALENS_HEAD_HEIGHT@, own);
    assert(values_of(part, families::DATALENS_HEAD_HEIGHT@, own)
        =~= (match row.datalens_head_height {
        Some(n) => seq![decimal(n as nat)],
        None => seq![],
    })) by {
        broadcast use {lemma_values_concat, lemma_values_of_optional};

    }
    lemma_values_come_from_the_row(
        checkpoints,
        row_counts,
        scopes,
        rows,
        i,
        families::DATALENS_HEAD_OBSERVED_TIMESTAMP_SECONDS@,
        own,
    );
    lemma_values_in_row(row, families::DATALENS_HEAD_OBSERVED_TIMESTAMP_SECONDS@, own);
    assert(values_of(part, families::DATALENS_HEAD_OBSERVED_TIMESTAMP_SECONDS@, own)
        =~= (match row.datalens_head_observed_timestamp_seconds {
        Some(text) => seq![text@],
        None => seq![],
    })) by {
        broadcast use {lemma_values_concat, lemma_values_of_optional};

    }
    lemma_values_come_from_the_row(
        checkpoints,
        row_counts,
        scopes,
        rows,
        i,
        families::DATALENS_HEAD_ADVANCED_TIMESTAMP_SECONDS@,
        own,
    );
    lemma_values_in_row(row, families::DATALENS_HEAD_ADVANCED_TIMESTAMP_SECONDS@, own);
    assert(values_of(part, families::DATALENS_HEAD_ADVANCED_TIMESTAMP_SECONDS@, own)
        =~= (match row.datalens_head_advanced_timestamp_seconds {
        Some(text) => seq![text@],
        None => seq![],
    })) by {
        broadcast use {lemma_values_concat, lemma_values_of_optional};

    }
    lemma_values_come_from_the_row(
        checkpoints,
        row_counts,
        scopes,
        rows,
        i,
        families::CHAIN_LAST_SUCCESS_TIMESTAMP_SECONDS@,
        own,
    );
    lemma_values_in_row(row, families::CHAIN_LAST_SUCCESS_TIMESTAMP_SECONDS@, own);
    assert(values_of(part, families::CHAIN_LAST_SUCCESS_TIMESTAMP_SECONDS@, own)
        =~= (match row.chain_last_success_timestamp_seconds {
        Some(text) => seq![text@],
        None => seq![],
    })) by {
        broadcast use {lemma_values_concat, lemma_values_of_optional};

    }
    lemma_values_come_from_the_row(
        checkpoints,
        row_counts,
        scopes,
        rows,
        i,
        families::CHECKPOINT_LAST_FORWARD_ADVANCE_TIMESTAMP_SECONDS@,
        own,
    );
    lemma_values_in_row(row, families::CHECKPOINT_LAST_FORWARD_ADVANCE_TIMESTAMP_SECONDS@, own);
    assert(values_of(part, families::CHECKPOINT_LAST_FORWARD_ADVANCE_TIMESTAMP_SECONDS@, own)
        =~= (match row.checkpoint_last_forward_advance_timestamp_seconds {
        Some(text) => seq![text@],
        None => seq![],
    })) by {
        broadcast use {lemma_values_concat, lemma_values_of_optional};

    }
}

/// How passes and ranges ended in a scope is exposed once each: the number of failures in a row,
/// and each total by its result.
pub proof fn lemma_outcomes_are_exposed(
    checkpoints: Seq<CheckpointRow>,
    row_counts: Seq<LegacyTableRowCount>,
    scopes: Seq<ConfiguredScopeMetricsRow>,
    rows: Seq<RuntimeMetricsRow<String>>,
    i: int,
)
    requires
        ascending(rows),
        0 <= i < rows.len(),
    ensures
        ({
            let lines = exposition(checkpoints, row_counts, scopes, rows);
            let row = rows[i];
            &&& values_of(
                lines,
                "ormp_indexer_consecutive_failures"@,
                seq![
                    ("chain_id"@, decimal(row.chain_id as nat)),
                    ("dataset"@, row.dataset@),
                ],
            ) == seq![decimal(row.consecutive_failures as nat)]
            &&& values_of(
                lines,
                "ormp_indexer_chain_passes_total"@,
                seq![
                    ("chain_id"@, decimal(row.chain_id as nat)),
                    ("dataset"@, row.dataset@),
                    ("result"@, "success"@),
                ],
            ) == seq![decimal(row.chain_pass_success_total as nat)]
            &&& values_of(
                lines,
                "ormp_indexer_chain_passes_total"@,
                seq![
                    ("chain_id"@, decimal(row.chain_id as nat)),
                    ("dataset"@, row.dataset@),
                    ("result"@, "failure"@),
                ],
            ) == seq![decimal(row.chain_pass_failure_total as nat)]
            &&& values_of(
                lines,
                "ormp_indexer_ranges_total"@,
                seq![
                    ("chain_id"@, decimal(row.chain_id as nat)),
                    ("dataset"@, row.dataset@),
                    ("result"@, "success"@),
                ],
            ) == seq![decimal(row.ranges_success_total as nat)]
            &&& values_of(
                lines,
                "ormp_indexer_ranges_total"@,
                seq![
                    ("chain_id"@, decimal(row.chain_id as nat)),
                    ("dataset"@, row.dataset@),
                    ("result"@, "failure"@),
                ],
            ) == seq![decimal(row.ranges_failure_total as nat)]
        }),
{
    let row = rows[i];
    let chain_id = decimal(row.chain_id as nat);
    let dataset = row.dataset@;
    let part = outcome_lines(row);
    families::lemma_names_are_told_apart();
    reveal_strlit("success");
    reveal_strlit("failure");
    assert("success"@[0] != "failure"@[0]);
    assert(scope_result_labels(chain_id, dataset, "success"@)[2] != scope_result_labels(
        chain_id,
        dataset,
        "failure"@,
    )[2]);
    let own = scope_labels(chain_id, dataset);
    assert(own =~= seq![
        ("chain_id"@, decimal(row.chain_id as nat)),
        ("dataset"@, row.dataset@),
    ]);
    assert(own.take(2) =~= scope_labels(chain_id, dataset));
    let success_labels = scope_result_labels(chain_id, dataset, "success"@);
    assert(success_labels =~= seq![
        ("chain_id"@, decimal(row.chain_id as nat)),
        ("dataset"@, row.dataset@),
        ("result"@, "success"@),
    ]);
    assert(success_labels.take(2) =~= scope_labels(chain_id, dataset));
    let failure_labels = scope_result_labels(chain_id, dataset, "failure"@);
    assert(failure_labels =~= seq![
        ("chain_id"@, decimal(row.chain_id as nat)),
        ("dataset"@, row.dataset@),
        ("result"@, "failure"@),
    ]);
    assert(failure_labels.take(2) =~= scope_labels(chain_id, dataset));
    lemma_values_come_from_the_row(
        checkpoints,
        row_counts,
        scopes,
        rows,
        i,
        families::CONSECUTIVE_FAILURES@,
        own,
    );
    lemma_values_in_row(row, families::CONSECUTIVE_FAILURES@, own);
    assert(values_of(part, families::CONSECUTIVE_FAILURES@, own)
        =~= seq![decimal(row.consecutive_failures as nat)]) by {
        broadcast use {lemma_values_concat, lemma_values_of_sample};

    }
    lemma_values_come_from_the_row(
        checkpoints,
        row_counts,
        scopes,
        rows,
        i,
        families::CHAIN_PASSES_TOTAL@,
        success_labels,
    );
    lemma_values_in_row(row, families::CHAIN_PASSES_TOTAL@, success_labels);
    assert(values_of(part, families::CHAIN_PASSES_TOTAL@, success_labels)
        =~= seq![decimal(row.chain_pass_success_total as nat)]) by {
        broadcast use {lemma_values_concat, lemma_values_of_sample};

    }
    lemma_values_come_from_the_row(
        checkpoints,
        row_counts,
        scopes,
        rows,
        i,
        families::CHAIN_PASSES_TOTAL@,
        failure_labels,
    );
    lemma_values_in_row(row, families::CHAIN_PASSES_TOTAL@, failure_labels);
    assert(values_of(part, families::CHAIN_PASSES_TOTAL@, failure_labels)
        =~= seq![decimal(row.chain_pass_failure_total as nat)]) by {
        broadcast use {lemma_values_concat, lemma_values_of_sample};

    }
    lemma_values_come_from_the_row(
        checkpoints,
        row_counts,
        scopes,
        rows,
        i,
        families::RANGES_TOTAL@,
        success_labels,
    );
    lemma_values_in_row(row, families::RANGES_TOTAL@, success_labels);
    assert(values_of(part, families::RANGES_TOTAL@, success_labels)
        =~= seq![decimal(row.ranges_success_total as nat)]) by {
        broadcast use {lemma_values_concat, lemma_values_of_sample};

    }
    lemma_values_come_from_the_row(
        checkpoints,
        row_counts,
        scopes,
        rows,
        i,
        families::RANGES_TOTAL@,
        failure_labels,
    );
    lemma_values_in_row(row, families::RANGES_TOTAL@, failure_labels);
    assert(values_of(part, families::RANGES_TOTAL@, failure_labels)
        =~= seq![decimal(row.ranges_failure_total as nat)]) by {
        broadcast use {lemma_values_concat, lemma_values_of_sample};

    }
}

/// How much was processed in a scope is exposed once each: the blocks, the records by stage, and
/// the number and the durations of the batches.
pub proof fn lemma_throughput_is_exposed(
    checkpoints: Seq<CheckpointRow>,
    row_counts: Seq<LegacyTableRowCount>,
    scopes: Seq<ConfiguredScopeMetricsRow>,
    rows: Seq<RuntimeMetricsRow<String>>,
    i: int,
)
    requires
        ascending(rows),
        0 <= i < rows.len(),
    ensures
        ({
            let lines = exposition(checkpoints, row_counts, scopes, rows);
            let row = rows[i];
            &&& values_of(
                lines,
                "ormp_indexer_blocks_processed_total"@,
                seq![
                    ("chain_id"@, decimal(row.chain_id as nat)),
                    ("dataset"@, row.dataset@),
                ],
            ) == seq![decimal(row.blocks_processed_total as nat)]
            &&& values_of(
                lines,
                "ormp_indexer_records_total"@,
                seq![
                    ("chain_id"@, decimal(row.chain_id as nat)),
                    ("dataset"@, row.dataset@),
                    ("stage"@, "read"@),
                ],
            ) == seq![decimal(row.records_read_total as nat)]
            &&& values_of(
                lines,
                "ormp_indexer_records_total"@,
                seq![
                    ("chain_id"@, decimal(row.chain_id as nat)),
                    ("dataset"@, row.dataset@),
                    ("stage"@, "decoded"@),
                ],
            ) == seq![decimal(row.records_decoded_total as nat)]
            &&& values_of(
                lines,
                "ormp_indexer_records_total"@,
                seq![
                    ("chain_id"@, decimal(row.chain_id as nat)),
                    ("dataset"@, row.dataset@),
                    ("stage"@, "written"@),
                ],
            ) == seq![decimal(row.records_written_total as nat)]
            &&& values_of(
                lines,
                "ormp_indexer_batch_duration_seconds_sum"@,
                seq![
                    ("chain_id"@, decimal(row.chain_id as nat)),
                    ("dataset"@, row.dataset@),
                ],
            ) == seq![row.batch_duration_seconds_sum@]
            &&& values_of(
                lines,
                "ormp_indexer_batch_duration_seconds_count"@,
                seq![
                    ("chain_id"@, decimal(row.chain_id as nat)),
                    ("dataset"@, row.dataset@),
                ],
            ) == seq![decimal(row.batch_duration_seconds_count as nat)]
        }),
{
    let row = rows[i];
    let chain_id = decimal(row.chain_id as nat);
    let dataset = row.dataset@;
    let part = throughput_lines(row);
    families::lemma_names_are_told_apart();
    reveal_strlit("read");
    reveal_strlit("decoded");
    reveal_strlit("written");
    assert("read"@.len() == 4 && "decoded"@[0] == 'd' && "written"@[0] == 'w');
    let read = scope_stage_labels(chain_id, dataset, "read"@);
    let decoded = scope_stage_labels(chain_id, dataset, "decoded"@);
    let written = scope_stage_labels(chain_id, dataset, "written"@);
    assert(read[2] != decoded[2] && read[2] != written[2] && decoded[2] != written[2]);
    let own = scope_labels(chain_id, dataset);
    assert(own =~= seq![
        ("chain_id"@, decimal(row.chain_id as nat)),
        ("dataset"@, row.dataset@),
    ]);
    assert(own.take(2) =~= scope_labels(chain_id, dataset));
    let read_labels = scope_stage_labels(chain_id, dataset, "read"@);
    assert(read_labels =~= seq![
        ("chain_id"@, decimal(row.chain_id as nat)),
        ("dataset"@, row.dataset@),
        ("stage"@, "read"@),
    ]);
    assert(read_labels.take(2) =~= scope_labels(chain_id, dataset));
    let decoded_labels = scope_stage_labels(chain_id, dataset, "decoded"@);
    assert(decoded_labels =~= seq![
        ("chain_id"@, decimal(row.chain_id as nat)),
        ("dataset"@, row.dataset@),
        ("stage"@, "decoded"@),
    ]);
    assert(decoded_labels.take(2) =~= scope_labels(chain_id, dataset));
    let written_labels = scope_stage_labels(chain_id, dataset, "written"@);
    assert(written_labels =~= seq![
        ("chain_id"@, decimal(row.chain_id as nat)),
        ("dataset"@, row.dataset@),
        ("stage"@, "written"@),
    ]);
    assert(written_labels.take(2) =~= scope_labels(chain_id, dataset));
    lemma_values_come_from_the_row(
        checkpoints,
        row_counts,
        scopes,
        rows,
        i,
        families::BLOCKS_PROCESSED_TOTAL@,
        own,
    );
    lemma_values_in_row(row, families::BLOCKS_PROCESSED_TOTAL@, own);
    assert(values_of(part, families::BLOCKS_PROCESSED_TOTAL@, own)
        =~= seq![decimal(row.blocks_processed_total as nat)]) by {
        broadcast use {lemma_values_concat, lemma_values_of_sample};

    }
    lemma_values_come_from_the_row(
        checkpoints,
        row_counts,
        scopes,
        rows,
        i,
        families::RECORDS_TOTAL@,
        read_labels,
    );
    lemma_values_in_row(row, families::RECORDS_TOTAL@, read_labels);
    assert(values_of(part, families::RECORDS_TOTAL@, read_labels)
        =~= seq![decimal(row.records_read_total as nat)]) by {
        broadcast use {lemma_values_concat, lemma_values_of_sample};

    }
    lemma_values_come_from_the_row(
        checkpoints,
        row_counts,
        scopes,
        rows,
        i,
        families::RECORDS_TOTAL@,
        decoded_labels,
    );
    lemma_values_in_row(row, families::RECORDS_TOTAL@, decoded_labels);
    assert(values_of(part, families::RECORDS_TOTAL@, decoded_labels)
        =~= seq![decimal(row.records_decoded_total as nat)]) by {
        broadcast use {lemma_values_concat, lemma_values_of_sample};

    }
    lemma_values_come_from_the_row(
        checkpoints,
        row_counts,
        scopes,
        rows,
        i,
        families::RECORDS_TOTAL@,
        written_labels,
    );
    lemma_values_in_row(row, families::RECORDS_TOTAL@, written_labels);
    assert(values_of(part, families::RECORDS_TOTAL@, written_labels)
        =~= seq![decimal(row.records_written_total as nat)]) by {
        broadcast use {lemma_values_concat, lemma_values_of_sample};

    }
    lemma_values_come_from_the_row(
        checkpoints,
        row_counts,
        scopes,
        rows,
        i,
        families::BATCH_DURATION_SECONDS_SUM@,
        own,
    );
    lemma_values_in_row(row, families::BATCH_DURATION_SECONDS_SUM@, own);
    assert(values_of(part, families::BATCH_DURATION_SECONDS_SUM@, own)
        =~= seq![row.batch_duration_seconds_sum@]) by {
        broadcast use {lemma_values_concat, lemma_values_of_sample};

    }
    lemma_values_come_from_the_row(
        checkpoints,
        row_counts,
        scopes,
        rows,
        i,
        families::BATCH_DURATION_SECONDS_COUNT@,
        own,
    );
    lemma_values_in_row(row, families::BATCH_DURATION_SECONDS_COUNT@, own);
    assert(values_of(part, families::BATCH_DURATION_SECONDS_COUNT@, own)
        =~= seq![decimal(row.batch_duration_seconds_count as nat)]) by {
        broadcast use {lemma_values_concat, lemma_values_of_sample};

    }
}

/// The requests that were made in a scope are exposed once for each operation and result, with the
/// total of that operation and that result.
pub proof fn lemma_requests_are_exposed(
    checkpoints: Seq<CheckpointRow>,
    row_counts: Seq<LegacyTableRowCount>,
    scopes: Seq<ConfiguredScopeMetricsRow>,
    rows: Seq<RuntimeMetricsRow<String>>,
    i: int,
)
    requires
        ascending(rows),
        0 <= i < rows.len(),
    ensures
        ({
            let lines = exposition(checkpoints, row_counts, scopes, rows);
            let row = rows[i];
            &&& values_of(
                lines,
                "ormp_indexer_datalens_requests_total"@,
                seq![
                    ("chain_id"@, decimal(row.chain_id as nat)),
                    ("dataset"@, row.dataset@),
                    ("operation"@, "logs"@),
                    ("result"@, "success"@),
                ],
            ) == seq![decimal(row.datalens_log_requests_success_total as nat)]
            &&& values_of(
                lines,
                "ormp_indexer_datalens_requests_total"@,
                seq![
                    ("chain_id"@, decimal(row.chain_id as nat)),
                    ("dataset"@, row.dataset@),
                    ("operation"@, "logs"@),
                    ("result"@, "failure"@),
                ],
            ) == seq![decimal(row.datalens_log_requests_failure_total as nat)]
            &&& values_of(
                lines,
                "ormp_indexer_datalens_requests_total"@,
                seq![
                    ("chain_id"@, decimal(row.chain_id as nat)),
                    ("dataset"@, row.dataset@),
                    ("operation"@, "blocks"@),
                    ("result"@, "success"@),
                ],
            ) == seq![decimal(row.datalens_block_requests_success_total as nat)]
            &&& values_of(
                lines,
                "ormp_indexer_datalens_requests_total"@,
                seq![
                    ("chain_id"@, decimal(row.chain_id as nat)),
                    ("dataset"@, row.dataset@),
                    ("operation"@, "blocks"@),
                    ("result"@, "failure"@),
                ],
            ) == seq![decimal(row.datalens_block_requests_failure_total as nat)]
            &&& values_of(
                lines,
                "ormp_indexer_datalens_requests_total"@,
                seq![
                    ("chain_id"@, decimal(row.chain_id as nat)),
                    ("dataset"@, row.dataset@),
                    ("operation"@, "transactions"@),
                    ("result"@, "success"@),
                ],
            ) == seq![decimal(row.datalens_tx_requests_success_total as nat)]
            &&& values_of(
                lines,
                "ormp_indexer_datalens_requests_total"@,
                seq![
                    ("chain_id"@, decimal(row.chain_id as nat)),
                    ("dataset"@, row.dataset@),
                    ("operation"@, "transactions"@),
                    ("result"@, "failure"@),
                ],
            ) == seq![decimal(row.datalens_tx_requests_failure_total as nat)]
        }),
{
    let row = rows[i];
    let chain_id = decimal(row.chain_id as nat);
    let dataset = row.dataset@;
    let part = request_lines(row);
    families::lemma_names_are_told_apart();
    reveal_strlit("success");
    reveal_strlit("failure");
    reveal_strlit("logs");
    reveal_strlit("blocks");
    reveal_strlit("transactions");
    assert("success"@[0] != "failure"@[0]);
    assert("logs"@.len() == 4 && "blocks"@.len() == 6 && "transactions"@.len() == 12);
    assert forall|operation: Seq<char>, result: Seq<char>|
        (#[trigger] scope_operation_labels(chain_id, dataset, operation, result))[2]
            == ("operation"@, operation) && scope_operation_labels(
            chain_id,
            dataset,
            operation,
            result,
        )[3] == ("result"@, result) by {
    }
    let logs_success_labels = scope_operation_labels(chain_id, dataset, "logs"@, "success"@);
    assert(logs_success_labels =~= seq![
        ("chain_id"@, decimal(row.chain_id as nat)),
        ("dataset"@, row.dataset@),
        ("operation"@, "logs"@),
        ("result"@, "success"@),
    ]);
    assert(logs_success_labels.take(2) =~= scope_labels(chain_id, dataset));
    let logs_failure_labels = scope_operation_labels(chain_id, dataset, "logs"@, "failure"@);
    assert(logs_failure_labels =~= seq![
        ("chain_id"@, decimal(row.chain_id as nat)),
        ("dataset"@, row.dataset@),
        ("operation"@, "logs"@),
        ("result"@, "failure"@),
    ]);
    assert(logs_failure_labels.take(2) =~= scope_labels(chain_id, dataset));
    let blocks_success_labels = scope_operation_labels(chain_id, dataset, "blocks"@, "success"@);
    assert(blocks_success_labels =~= seq![
        ("chain_id"@, decimal(row.chain_id as nat)),
        ("dataset"@, row.dataset@),
        ("operation"@, "blocks"@),
        ("result"@, "success"@),
    ]);
    assert(blocks_success_labels.take(2) =~= scope_labels(chain_id, dataset));
    let blocks_failure_labels = scope_operation_labels(chain_id, dataset, "blocks"@, "failure"@);
    assert(blocks_failure_labels =~= seq![
        ("chain_id"@, decimal(row.chain_id as nat)),
        ("dataset"@, row.dataset@),
        ("operation"@, "blocks"@),
        ("result"@, "failure"@),
    ]);
    assert(blocks_failure_labels.take(2) =~= scope_labels(chain_id, dataset));
    let transactions_success_labels = scope_operation_labels(
        chain_id,
        dataset,
        "transactions"@,
        "success"@,
    );
    assert(transactions_success_labels =~= seq![
        ("chain_id"@, decimal(row.chain_id as nat)),
        ("dataset"@, row.dataset@),
        ("operation"@, "transactions"@),
        ("result"@, "success"@),
    ]);
    assert(transactions_success_labels.take(2) =~= scope_labels(chain_id, dataset));
    let transactions_failure_labels = scope_operation_labels(
        chain_id,
        dataset,
        "transactions"@,
        "failure"@,
    );
    assert(transactions_failure_labels =~= seq![
        ("chain_id"@, decimal(row.chain_id as nat)),
        ("dataset"@, row.dataset@),
        ("operation"@, "transactions"@),
        ("result"@, "failure"@),
    ]);
    assert(transactions_failure_labels.take(2) =~= scope_labels(chain_id, dataset));
    lemma_values_come_from_the_row(
        checkpoints,
        row_counts,
        scopes,
        rows,
        i,
        families::DATALENS_REQUESTS_TOTAL@,
        logs_success_labels,
    );
    lemma_values_in_row(row, families::DATALENS_REQUESTS_TOTAL@, logs_success_labels);
    assert(values_of(part, families::DATALENS_REQUESTS_TOTAL@, logs_success_labels)
        =~= seq![decimal(row.datalens_log_requests_success_total as nat)]) by {
        broadcast use {lemma_values_concat, lemma_values_of_sample};

    }
    lemma_values_come_from_the_row(
        checkpoints,
        row_counts,
        scopes,
        rows,
        i,
        families::DATALENS_REQUESTS_TOTAL@,
        logs_failure_labels,
    );
    lemma_values_in_row(row, families::DATALENS_REQUESTS_TOTAL@, logs_failure_labels);
    assert(values_of(part, families::DATALENS_REQUESTS_TOTAL@, logs_failure_labels)
        =~= seq![decimal(row.datalens_log_requests_failure_total as nat)]) by {
        broadcast use {lemma_values_concat, lemma_values_of_sample};

    }
    lemma_values_come_from_the_row(
        checkpoints,
        row_counts,
        scopes,
        rows,
        i,
        families::DATALENS_REQUESTS_TOTAL@,
        blocks_success_labels,
    );
    lemma_values_in_row(row, families::DATALENS_REQUESTS_TOTAL@, blocks_success_labels);
    assert(values_of(part, families::DATALENS_REQUESTS_TOTAL@, blocks_success_labels)
        =~= seq![decimal(row.datalens_block_requests_success_total as nat)]) by {
        broadcast use {lemma_values_concat, lemma_values_of_sample};

    }
    lemma_values_come_from_the_row(
        checkpoints,
        row_counts,
        scopes,
        rows,
        i,
        families::DATALENS_REQUESTS_TOTAL@,
        blocks_failure_labels,
    );
    lemma_values_in_row(row, families::DATALENS_REQUESTS_TOTAL@, blocks_failure_labels);
    assert(values_of(part, families::DATALENS_REQUESTS_TOTAL@, blocks_failure_labels)
        =~= seq![decimal(row.datalens_block_requests_failure_total as nat)]) by {
        broadcast use {lemma_values_concat, lemma_values_of_sample};

    }
    lemma_values_come_from_the_row(
        checkpoints,
        row_counts,
        scopes,
        rows,
        i,
        families::DATALENS_REQUESTS_TOTAL@,
        transactions_success_labels,
    );
    lemma_values_in_row(row, families::DATALENS_REQUESTS_TOTAL@, transactions_success_labels);
    assert(values_of(part, families::DATALENS_REQUESTS_TOTAL@, transactions_success_labels)
        =~= seq![decimal(row.datalens_tx_requests_success_total as nat)]) by {
        broadcast use {lemma_values_concat, lemma_values_of_sample};

    }
    lemma_values_come_from_the_row(
        checkpoints,
        row_counts,
        scopes,
        rows,
        i,
        families::DATALENS_REQUESTS_TOTAL@,
        transactions_failure_labels,
    );
    lemma_values_in_row(row, families::DATALENS_REQUESTS_TOTAL@, transactions_failure_labels);
    assert(values_of(part, families::DATALENS_REQUESTS_TOTAL@, transactions_failure_labels)
        =~= seq![decimal(row.datalens_tx_requests_failure_total as nat)]) by {
        broadcast use {lemma_values_concat, lemma_values_of_sample};

    }
}

/// The rollbacks in a scope are exposed once, with their total.
pub proof fn lemma_rollbacks_are_exposed(
    checkpoints: Seq<CheckpointRow>,
    row_counts: Seq<LegacyTableRowCount>,
    scopes: Seq<ConfiguredScopeMetricsRow>,
    rows: Seq<RuntimeMetricsRow<String>>,
    i: int,
)
    requires
        ascending(rows),
        0 <= i < rows.len(),
    ensures
        ({
            let lines = exposition(checkpoints, row_counts, scopes, rows);
            let row = rows[i];
            &&& values_of(
                lines,
                "ormp_indexer_reorg_rollbacks_total"@,
                seq![
                    ("chain_id"@, decimal(row.chain_id as nat)),
                    ("dataset"@, row.dataset@),
                ],
            ) == seq![decimal(row.reorg_rollbacks_total as nat)]
        }),
{
    let row = rows[i];
    let chain_id = decimal(row.chain_id as nat);
    let dataset = row.dataset@;
    let part = sample(
        families::REORG_ROLLBACKS_TOTAL@,
        scope_labels(chain_id, dataset),
        decimal(row.reorg_rollbacks_total as nat),
    );
    families::lemma_names_are_told_apart();
    let own = scope_labels(chain_id, dataset);
    assert(own =~= seq![
        ("chain_id"@, decimal(row.chain_id as nat)),
        ("dataset"@, row.dataset@),
    ]);
    assert(own.take(2) =~= scope_labels(chain_id, dataset));
    lemma_values_come_from_the_row(
        checkpoints,
        row_counts,
        scopes,
        rows,
        i,
        families::REORG_ROLLBACKS_TOTAL@,
        own,
    );
    lemma_values_in_row(row, families::REORG_ROLLBACKS_TOTAL@, own);
    assert(values_of(part, families::REORG_ROLLBACKS_TOTAL@, own)
        =~= seq![decimal(row.reorg_rollbacks_total as nat)]) by {
        broadcast use {lemma_values_of_sample};

    }
}

/// How far a checkpoint got is exposed once, with the very text that the checkpoint holds. The time
/// of its update is exposed once where there is one, and not at all where there is none.
pub proof fn lemma_checkpoints_are_exposed(
    checkpoints: Seq<CheckpointRow>,
    row_counts: Seq<LegacyTableRowCount>,
    scopes: Seq<ConfiguredScopeMetricsRow>,
    rows: Seq<RuntimeMetricsRow<String>>,
    i: int,
)
    requires
        checkpoints_are_distinct(checkpoints),
        0 <= i < checkpoints.len(),
    ensures
        ({
            let lines = exposition(checkpoints, row_counts, scopes, rows);
            let checkpoint = checkpoints[i];
            &&& values_of(
                lines,
                "ormp_indexer_checkpoint_next_block"@,
                seq![("chain_id"@, checkpoint.chain_id@), ("dataset"@, checkpoint.dataset@)],
            ) == seq![checkpoint.next_block@]
            &&& values_of(
                lines,
                "ormp_indexer_checkpoint_updated_timestamp_seconds"@,
                seq![("chain_id"@, checkpoint.chain_id@), ("dataset"@, checkpoint.dataset@)],
            ) == (match checkpoint.updated_timestamp_seconds {
                Some(text) => seq![text@],
                None => seq![],
            })
        }),
{
    let checkpoint = checkpoints[i];
    let labels = scope_labels(checkpoint.chain_id@, checkpoint.dataset@);
    assert(labels =~= seq![("chain_id"@, checkpoint.chain_id@), ("dataset"@, checkpoint.dataset@)]);
    lemma_values_of_checkpoint(
        checkpoints,
        row_counts,
        scopes,
        rows,
        i,
        families::CHECKPOINT_NEXT_BLOCK@,
    );
    lemma_values_of_checkpoint(
        checkpoints,
        row_counts,
        scopes,
        rows,
        i,
        families::CHECKPOINT_UPDATED_TIMESTAMP_SECONDS@,
    );
    families::lemma_names_are_told_apart();
    broadcast use {lemma_values_concat, lemma_values_of_sample, lemma_values_of_optional};

    assert(values_of(
        checkpoint_lines(checkpoint),
        families::CHECKPOINT_NEXT_BLOCK@,
        labels,
    ) =~= seq![checkpoint.next_block@]);
    assert(values_of(
        checkpoint_lines(checkpoint),
        families::CHECKPOINT_UPDATED_TIMESTAMP_SECONDS@,
        labels,
    ) =~= (match checkpoint.updated_timestamp_seconds {
        Some(text) => seq![text@],
        None => seq![],
    }));
}

proof fn lemma_values_of_checkpoint(
    checkpoints: Seq<CheckpointRow>,
    row_counts: Seq<LegacyTableRowCount>,
    scopes: Seq<ConfiguredScopeMetricsRow>,
    rows: Seq<RuntimeMetricsRow<String>>,
    i: int,
    name: Seq<char>,
)
    requires
        checkpoints_are_distinct(checkpoints),
        0 <= i < checkpoints.len(),
        name == families::CHECKPOINT_NEXT_BLOCK@ || name
            == families::CHECKPOINT_UPDATED_TIMESTAMP_SECONDS@,
    ensures
        values_of(
            exposition(checkpoints, row_counts, scopes, rows),
            name,
            scope_labels(checkpoints[i].chain_id@, checkpoints[i].dataset@),
        ) == values_of(
            checkpoint_lines(checkpoints[i]),
            name,
            scope_labels(checkpoints[i].chain_id@, checkpoints[i].dataset@),
        ),
{
    let labels = scope_labels(checkpoints[i].chain_id@, checkpoints[i].dataset@);
    let lines = |checkpoint: CheckpointRow| checkpoint_lines(checkpoint);
    families::lemma_names_are_told_apart();
    lemma_values_by_section(checkpoints, row_counts, scopes, rows, name, labels);
    lemma_values_in_checkpoint_section(checkpoints, name, labels);
    lemma_no_value_in_scope_section(checkpoints, scopes, name, labels);
    lemma_no_value_in_runtime_section(rows, name, labels);
    lemma_no_value_in_table_section(row_counts, name, labels);
    assert forall|j: int| 0 <= j < checkpoints.len() && j != i implies values_of(
        lines(#[trigger] checkpoints[j]),
        name,
        labels,
    ).len() == 0 by {
        broadcast use {lemma_values_concat, lemma_values_of_sample, lemma_values_of_optional};

        if i < j {
            assert(checkpoints[i].chain_id@ != checkpoints[j].chain_id@
                || checkpoints[i].dataset@ != checkpoints[j].dataset@);
        } else {
            assert(checkpoints[j].chain_id@ != checkpoints[i].chain_id@
                || checkpoints[j].dataset@ != checkpoints[i].dataset@);
        }
        lemma_scope_labels_differ(
            checkpoints[i].chain_id@,
            checkpoints[i].dataset@,
            checkpoints[j].chain_id@,
            checkpoints[j].dataset@,
        );
        assert(lines(checkpoints[j]) == checkpoint_lines(checkpoints[j]));
    }
    lemma_values_of_one(checkpoints, lines, i, name, labels);
    assert(values_of(exposition(checkpoints, row_counts, scopes, rows), name, labels) =~= values_of(
        checkpoint_lines(checkpoints[i]),
        name,
        labels,
    ));
}

/// A scope gives a value under the labels of its own configuration only.
proof fn lemma_values_of_configuration(
    checkpoints: Seq<CheckpointRow>,
    scope: ConfiguredScopeMetricsRow,
    labels: Seq<Label>,
)
    ensures
        values_of(
            scope_lines(checkpoints, scope),
            families::CONFIGURED_SCOPE_INFO@,
            labels,
        ) == (if scope_info_labels(scope) == labels {
            seq!["1"@]
        } else {
            seq![]
        }),
{
    broadcast use {lemma_values_concat, lemma_values_of_sample};

    families::lemma_names_are_told_apart();
    assert(values_of(
        scope_lines(checkpoints, scope),
        families::CONFIGURED_SCOPE_INFO@,
        labels,
    ) =~= (if scope_info_labels(scope) == labels {
        seq!["1"@]
    } else {
        seq![]
    }));
}

/// The configuration of a scope is exposed once: its first block and its batch size stand in the
/// labels of a sample of the value `1`.
pub proof fn lemma_configurations_are_exposed(
    checkpoints: Seq<CheckpointRow>,
    row_counts: Seq<LegacyTableRowCount>,
    scopes: Seq<ConfiguredScopeMetricsRow>,
    rows: Seq<RuntimeMetricsRow<String>>,
    i: int,
)
    requires
        ascending(scopes),
        0 <= i < scopes.len(),
    ensures
        values_of(
            exposition(checkpoints, row_counts, scopes, rows),
            "ormp_indexer_configured_scope_info"@,
            seq![
                ("chain_id"@, decimal(scopes[i].chain_id as nat)),
                ("dataset"@, scopes[i].dataset@),
                ("start_block"@, decimal(scopes[i].start_block as nat)),
                ("batch_size"@, decimal(scopes[i].batch_size as nat)),
            ],
        ) == seq!["1"@],
{
    let name = families::CONFIGURED_SCOPE_INFO@;
    let labels = scope_info_labels(scopes[i]);
    assert(labels =~= seq![
        ("chain_id"@, decimal(scopes[i].chain_id as nat)),
        ("dataset"@, scopes[i].dataset@),
        ("start_block"@, decimal(scopes[i].start_block as nat)),
        ("batch_size"@, decimal(scopes[i].batch_size as nat)),
    ]);
    families::lemma_names_are_told_apart();
    lemma_values_by_section(checkpoints, row_counts, scopes, rows, name, labels);
    lemma_no_value_in_checkpoint_section(checkpoints, name, labels);
    lemma_values_in_scope_section(checkpoints, scopes, name, labels);
    lemma_no_value_in_runtime_section(rows, name, labels);
    lemma_no_value_in_table_section(row_counts, name, labels);
    let lines = |scope: ConfiguredScopeMetricsRow| scope_lines(checkpoints, scope);
    let strays = |checkpoint: CheckpointRow| stray_lines(scopes, checkpoint);
    assert forall|j: int| 0 <= j < checkpoints.len() implies values_of(
        strays(#[trigger] checkpoints[j]),
        name,
        labels,
    ).len() == 0 by {
        broadcast use lemma_values_of_sample;

        assert(strays(checkpoints[j]) == stray_lines(scopes, checkpoints[j]));
    }
    lemma_no_value_of_each(checkpoints, strays, name, labels);
    assert forall|j: int| 0 <= j < scopes.len() && j != i implies values_of(
        lines(#[trigger] scopes[j]),
        name,
        labels,
    ).len() == 0 by {
        if i < j {
            lemma_scopes_carry_different_labels(scopes, i, j);
        } else {
            lemma_scopes_carry_different_labels(scopes, j, i);
        }
        assert(scope_info_labels(scopes[j]).take(2) =~= scope_labels(
            decimal(scopes[j].chain_id as nat),
            scopes[j].dataset@,
        ));
        assert(labels.take(2) =~= scope_labels(
            decimal(scopes[i].chain_id as nat),
            scopes[i].dataset@,
        ));
        lemma_values_of_configuration(checkpoints, scopes[j], labels);
    }
    lemma_values_of_one(scopes, lines, i, name, labels);
    assert(lines(scopes[i]) == scope_lines(checkpoints, scopes[i]));
    lemma_values_of_configuration(checkpoints, scopes[i], labels);
    assert(values_of(exposition(checkpoints, row_counts, scopes, rows), name, labels)
        =~= seq!["1"@]);
}

/// For a dataset of a chain the presence of a checkpoint is exposed as `1` where there is such a
/// checkpoint, configured or not, as `0` where there is none though the scope is configured, and
/// not at all where there is neither.
pub proof fn lemma_presence_is_exposed(
    checkpoints: Seq<CheckpointRow>,
    row_counts: Seq<LegacyTableRowCount>,
    scopes: Seq<ConfiguredScopeMetricsRow>,
    rows: Seq<RuntimeMetricsRow<String>>,
    chain_id: Seq<char>,
    dataset: Seq<char>,
)
    requires
        checkpoints_are_distinct(checkpoints),
        ascending(scopes),
    ensures
        values_of(
            exposition(checkpoints, row_counts, scopes, rows),
            "ormp_indexer_checkpoint_present"@,
            seq![("chain_id"@, chain_id), ("dataset"@, dataset)],
        ) == (if exists|i: int|
            0 <= i < checkpoints.len() && (#[trigger] checkpoints[i]).chain_id@ == chain_id
                && checkpoints[i].dataset@ == dataset {
            seq!["1"@]
        } else if exists|j: int|
            0 <= j < scopes.len() && decimal((#[trigger] scopes[j]).chain_id as nat) == chain_id
                && scopes[j].dataset@ == dataset {
            seq!["0"@]
        } else {
            seq![]
        }),
{
    broadcast use {lemma_values_concat, lemma_values_of_sample};

    let name = families::CHECKPOINT_PRESENT@;
    let labels = scope_labels(chain_id, dataset);
    assert(labels =~= seq![("chain_id"@, chain_id), ("dataset"@, dataset)]);
    families::lemma_names_are_told_apart();
    lemma_values_by_section(checkpoints, row_counts, scopes, rows, name, labels);
    lemma_no_value_in_checkpoint_section(checkpoints, name, labels);
    lemma_values_in_scope_section(checkpoints, scopes, name, labels);
    lemma_no_value_in_runtime_section(rows, name, labels);
    lemma_no_value_in_table_section(row_counts, name, labels);
    let lines = |scope: ConfiguredScopeMetricsRow| scope_lines(checkpoints, scope);
    let strays = |checkpoint: CheckpointRow| stray_lines(scopes, checkpoint);
    let of_scopes = values_of(lines_of_each(scopes, lines), name, labels);
    let of_strays = values_of(lines_of_each(checkpoints, strays), name, labels);
    assert(values_of(exposition(checkpoints, row_counts, scopes, rows), name, labels) =~= of_scopes
        + of_strays);
    assert forall|scope: ConfiguredScopeMetricsRow|
        values_of(#[trigger] lines(scope), name, labels) == (if decimal(scope.chain_id as nat)
            == chain_id && scope.dataset@ == dataset {
            if is_checkpointed(checkpoints, scope) {
                seq!["1"@]
            } else {
                seq!["0"@]
            }
        } else {
            seq![]
        }) by {
        let own = decimal(scope.chain_id as nat);
        if own != chain_id || scope.dataset@ != dataset {
            lemma_scope_labels_differ(own, scope.dataset@, chain_id, dataset);
        }
        assert(lines(scope) == scope_lines(checkpoints, scope));
        assert(values_of(lines(scope), name, labels) =~= (if own == chain_id && scope.dataset@
            == dataset {
            if is_checkpointed(checkpoints, scope) {
                seq!["1"@]
            } else {
                seq!["0"@]
            }
        } else {
            seq![]
        }));
    }
    assert forall|checkpoint: CheckpointRow|
        values_of(#[trigger] strays(checkpoint), name, labels) == (if checkpoint.chain_id@
            == chain_id && checkpoint.dataset@ == dataset && !is_configured(scopes, checkpoint) {
            seq!["1"@]
        } else {
            seq![]
        }) by {
        if checkpoint.chain_id@ != chain_id || checkpoint.dataset@ != dataset {
            lemma_scope_labels_differ(
                checkpoint.chain_id@,
                checkpoint.dataset@,
                chain_id,
                dataset,
            );
        }
        assert(strays(checkpoint) == stray_lines(scopes, checkpoint));
        assert(values_of(strays(checkpoint), name, labels) =~= (if checkpoint.chain_id@ == chain_id
            && checkpoint.dataset@ == dataset && !is_configured(scopes, checkpoint) {
            seq!["1"@]
        } else {
            seq![]
        }));
    }
    let configured = exists|j: int|
        0 <= j < scopes.len() && decimal((#[trigger] scopes[j]).chain_id as nat) == chain_id
            && scopes[j].dataset@ == dataset;
    let present = exists|i: int|
        0 <= i < checkpoints.len() && (#[trigger] checkpoints[i]).chain_id@ == chain_id
            && checkpoints[i].dataset@ == dataset;
    if configured {
        let j = choose|j: int|
            0 <= j < scopes.len() && decimal((#[trigger] scopes[j]).chain_id as nat) == chain_id
                && scopes[j].dataset@ == dataset;
        assert forall|k: int| 0 <= k < scopes.len() && k != j implies values_of(
            lines(#[trigger] scopes[k]),
            name,
            labels,
        ).len() == 0 by {
            if j < k {
                lemma_scopes_carry_different_labels(scopes, j, k);
            } else {
                lemma_scopes_carry_different_labels(scopes, k, j);
            }
        }
        lemma_values_of_one(scopes, lines, j, name, labels);
        assert forall|i: int| 0 <= i < checkpoints.len() implies values_of(
            strays(#[trigger] checkpoints[i]),
            name,
            labels,
        ).len() == 0 by {
            if checkpoints[i].chain_id@ == chain_id && checkpoints[i].dataset@ == dataset {
                assert(belongs_to(checkpoints[i], scopes[j]));
            }
        }
        lemma_no_value_of_each(checkpoints, strays, name, labels);
        assert(is_checkpointed(checkpoints, scopes[j]) == present) by {
            if present {
                let i = choose|i: int|
                    0 <= i < checkpoints.len() && (#[trigger] checkpoints[i]).chain_id@ == chain_id
                        && checkpoints[i].dataset@ == dataset;
                assert(belongs_to(checkpoints[i], scopes[j]));
            }
        }
    } else {
        lemma_no_value_of_each(scopes, lines, name, labels);
        if present {
            let i = choose|i: int|
                0 <= i < checkpoints.len() && (#[trigger] checkpoints[i]).chain_id@ == chain_id
                    && checkpoints[i].dataset@ == dataset;
            assert forall|k: int| 0 <= k < checkpoints.len() && k != i implies values_of(
                strays(#[trigger] checkpoints[k]),
                name,
                labels,
            ).len() == 0 by {
                if i < k {
                    assert(checkpoints[i].chain_id@ != checkpoints[k].chain_id@
                        || checkpoints[i].dataset@ != checkpoints[k].dataset@);
                } else {
                    assert(checkpoints[k].chain_id@ != checkpoints[i].chain_id@
                        || checkpoints[k].dataset@ != checkpoints[i].dataset@);
                }
            }
            lemma_values_of_one(checkpoints, strays, i, name, labels);
            assert(!is_configured(scopes, checkpoints[i]));
        } else {
            lemma_no_value_of_each(checkpoints, strays, name, labels);
        }
    }
}

/// Seven tables are exposed once each, with the first count that is given for the table, or zero
/// where none is given; no other table is exposed.
pub proof fn lemma_tables_are_exposed(
    checkpoints: Seq<CheckpointRow>,
    row_counts: Seq<LegacyTableRowCount>,
    scopes: Seq<ConfiguredScopeMetricsRow>,
    rows: Seq<RuntimeMetricsRow<String>>,
    table: Seq<char>,
)
    ensures
        values_of(
            exposition(checkpoints, row_counts, scopes, rows),
            "ormp_indexer_legacy_table_rows"@,
            seq![("table"@, table)],
        ) == (if {
            ||| table == "ormp_hash_imported"@
            ||| table == "ormp_message_accepted"@
            ||| table == "ormp_message_assigned"@
            ||| table == "ormp_message_dispatched"@
            ||| table == "msgport_message_recv"@
            ||| table == "msgport_message_sent"@
            ||| table == "signature_pub_signature_submittion"@
        } {
            seq![signed_decimal(table_count(row_counts, table))]
        } else {
            seq![]
        }),
{
    broadcast use lemma_values_of_sample;

    let name = families::LEGACY_TABLE_ROWS@;
    let labels = seq![("table"@, table)];
    families::lemma_names_are_told_apart();
    lemma_tables_are_told_apart();
    lemma_values_by_section(checkpoints, row_counts, scopes, rows, name, labels);
    lemma_no_value_in_checkpoint_section(checkpoints, name, labels);
    lemma_no_value_in_scope_section(checkpoints, scopes, name, labels);
    lemma_no_value_in_runtime_section(rows, name, labels);
    lemma_values_in_table_section(row_counts, name, labels);
    let lines = |own: &'static str| table_lines(row_counts, own);
    assert forall|own: &'static str|
        values_of(#[trigger] lines(own), name, labels) == (if own@ == table {
            seq![signed_decimal(table_count(row_counts, table))]
        } else {
            seq![]
        }) by {
        assert(lines(own) == table_lines(row_counts, own));
        assert(seq![("table"@, own@)][0] == ("table"@, own@));
        assert(labels[0] == ("table"@, table));
    }
    let tables = LEGACY_TABLES@;
    assert(tables[0]@ == "ormp_hash_imported"@);
    assert(tables[1]@ == "ormp_message_accepted"@);
    assert(tables[2]@ == "ormp_message_assigned"@);
    assert(tables[3]@ == "ormp_message_dispatched"@);
    assert(tables[4]@ == "msgport_message_recv"@);
    assert(tables[5]@ == "msgport_message_sent"@);
    assert(tables[6]@ == "signature_pub_signature_submittion"@);
    if exists|t: int| 0 <= t < tables.len() && (#[trigger] tables[t])@ == table {
        let t = choose|t: int| 0 <= t < tables.len() && (#[trigger] tables[t])@ == table;
        assert forall|k: int| 0 <= k < tables.len() && k != t implies values_of(
            lines(#[trigger] tables[k]),
            name,
            labels,
        ).len() == 0 by {
            if t < k {
                assert(tables[t]@ != tables[k]@);
            } else {
                assert(tables[k]@ != tables[t]@);
            }
        }
        lemma_values_of_one(tables, lines, t, name, labels);
        assert(values_of(exposition(checkpoints, row_counts, scopes, rows), name, labels)
            =~= seq![signed_decimal(table_count(row_counts, table))]);
    } else {
        lemma_no_value_of_each(tables, lines, name, labels);
        assert(values_of(exposition(checkpoints, row_counts, scopes, rows), name, labels)
            =~= seq![]);
    }
}

/// Of several counts that are given for a table, the first one stands.
pub proof fn lemma_first_count_stands(
    row_counts: Seq<LegacyTableRowCount>,
    table: Seq<char>,
    i: int,
)
    requires
        0 <= i < row_counts.len(),
        row_counts[i].table_name@ == table,
        forall|j: int| 0 <= j < i ==> (#[trigger] row_counts[j]).table_name@ != table,
    ensures
        table_count(row_counts, table) == row_counts[i].row_count,
    decreases row_counts.len(),
{
    if i > 0 {
        assert(row_counts[0].table_name@ != table);
        let rest = row_counts.drop_first();
        assert forall|j: int| 0 <= j < i - 1 implies (#[trigger] rest[j]).table_name@ != table by {
            assert(rest[j] == row_counts[j + 1]);
        }
        assert(rest[i - 1] == row_counts[i]);
        lemma_first_count_stands(rest, table, i - 1);
    }
}

} // verus!
