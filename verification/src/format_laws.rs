//! How numbers, labels, lines and whole sections are written.
use crate::decimal::{decimal, signed_decimal};
use crate::exposition::{
    escape, family, label_list, label_text, labels_view, line_text, lines_of_each, optional_sample,
    render, sample, Label, Line,
};
use crate::labels::{
    scope_labels, scope_operation_labels, scope_result_labels, scope_stage_labels,
};
use crate::metrics::{ConfiguredScopeMetricsRow, RuntimeMetricsRow};
use crate::ops::{
    belongs_to, checkpoint_lines, checkpoint_section, exposition, is_checkpointed, is_configured,
    scope_info_labels, scope_lines, scope_section, stray_lines, table_count, table_lines,
    table_section, CheckpointRow, LegacyTableRowCount, LEGACY_TABLES,
};
use crate::runtime_report::{
    observation_families, observation_lines, outcome_lines, rendered_row, rendered_rows,
    request_lines, row_lines, runtime_section, throughput_lines, total_families,
};
use vstd::prelude::*;

verus! {

/// A number below ten is written as its digit. A greater one is written as the number without its
/// last digit, followed by that digit. Only zero begins with a zero.
pub proof fn lemma_numbers_are_written_in_digits(n: nat)
    ensures
        n < 10 ==> decimal(n).len() == 1 && decimal(n)[0] as int == '0' as int + n,
        n >= 10 ==> {
            &&& decimal(n).len() == decimal(n / 10).len() + 1
            &&& decimal(n).drop_last() == decimal(n / 10)
            &&& decimal(n).last() as int == '0' as int + n % 10
        },
        decimal(n)[0] == '0' ==> n == 0,
    decreases n,
{
    if n >= 10 {
        lemma_numbers_are_written_in_digits(n / 10);
        assert(decimal(n).drop_last() =~= decimal(n / 10));
        assert(decimal(n)[0] == decimal(n / 10)[0]);
    }
}

/// A negative number is written as a minus sign and its magnitude, any other as its magnitude.
pub proof fn lemma_negative_numbers_have_a_sign(n: int)
    ensures
        n < 0 ==> signed_decimal(n) == "-"@ + decimal((0 - n) as nat),
        n >= 0 ==> signed_decimal(n) == decimal(n as nat),
{
    reveal_strlit("-");
    assert("-"@ =~= seq!['-']);
}

/// In a label value a backslash is written as two backslashes, a double quote as a backslash and a
/// double quote, and any other character as itself.
pub proof fn lemma_escaping_by_character(text: Seq<char>, c: char)
    ensures
        escape(Seq::<char>::empty()) == Seq::<char>::empty(),
        c == '\\' ==> escape(text.push(c)) == escape(text).push('\\').push('\\'),
        c == '"' ==> escape(text.push(c)) == escape(text).push('\\').push('"'),
        c != '\\' && c != '"' ==> escape(text.push(c)) == escape(text).push(c),
{
    assert(text.push(c).drop_last() =~= text);
    assert(escape(Seq::<char>::empty()) =~= Seq::<char>::empty());
    if c == '\\' {
        assert(escape(text.push(c)) =~= escape(text).push('\\').push('\\'));
    } else if c == '"' {
        assert(escape(text.push(c)) =~= escape(text).push('\\').push('"'));
    } else {
        assert(escape(text.push(c)) =~= escape(text).push(c));
    }
}

/// A label is written as its key, an equals sign, and its escaped value in double quotes.
pub proof fn lemma_label_is_written(key: Seq<char>, value: Seq<char>)
    ensures
        label_list(seq![(key, value)]) == key + "=\""@ + escape(value) + "\""@,
{
    reveal_strlit("=\"");
    reveal_strlit("\"");
    assert(label_list(seq![(key, value)]) =~= key + "=\""@ + escape(value) + "\""@);
}

/// Labels are written one after the other with a comma between each two.
pub proof fn lemma_labels_are_separated(a: Seq<Label>, b: Seq<Label>)
    requires
        a.len() > 0,
        b.len() > 0,
    ensures
        label_list(a + b) == label_list(a) + ","@ + label_list(b),
        label_list(Seq::<Label>::empty()) == Seq::<char>::empty(),
    decreases b.len(),
{
    reveal_strlit(",");
    assert(label_list(Seq::<Label>::empty()) =~= Seq::<char>::empty());
    let all = a + b;
    assert(all.last() == b.last());
    if b.len() == 1 {
        assert(all.drop_last() =~= a);
        assert(label_list(b) == label_text(b[0]));
        assert(label_list(all) =~= label_list(a) + ","@ + label_list(b));
    } else {
        assert(all.drop_last() =~= a + b.drop_last());
        lemma_labels_are_separated(a, b.drop_last());
        assert(label_list(all) =~= label_list(a) + ","@ + label_list(b));
    }
}

/// A sample is written as its name, its labels in braces, a space and its value, on a line of its
/// own.
pub proof fn lemma_sample_is_written(name: Seq<char>, labels: Seq<Label>, value: Seq<char>)
    ensures
        render(seq![Line::Sample { name, labels, value }]) == name + "{"@ + label_list(labels)
            + "} "@ + value + "\n"@,
        render(seq![Line::Bare { name, value }]) == name + " "@ + value + "\n"@,
{
    reveal_strlit("{");
    reveal_strlit("} ");
    reveal_strlit("\n");
    crate::exposition::lemma_render_one(Line::Sample { name, labels, value });
    crate::exposition::lemma_render_one(Line::Bare { name, value });
    assert(line_text(Line::Sample { name, labels, value }) =~= name + "{"@ + label_list(labels)
        + "} "@ + value + "\n"@);
    assert(line_text(Line::Bare { name, value }) =~= name + " "@ + value + "\n"@);
}

/// What introduces a metric is written as a line with its help text, and one with its kind.
pub proof fn lemma_introduction_is_written(name: Seq<char>, help: Seq<char>, kind: Seq<char>)
    ensures
        render(seq![Line::Help { name, help }]) == "# HELP "@ + name + " "@ + help + "\n"@,
        render(seq![Line::Type { name, kind }]) == "# TYPE "@ + name + " "@ + kind + "\n"@,
{
    reveal_strlit("\n");
    crate::exposition::lemma_render_one(Line::Help { name, help });
    crate::exposition::lemma_render_one(Line::Type { name, kind });
    assert(line_text(Line::Help { name, help }) =~= "# HELP "@ + name + " "@ + help + "\n"@);
    assert(line_text(Line::Type { name, kind }) =~= "# TYPE "@ + name + " "@ + kind + "\n"@);
}

/// A sample is written as it is given, whatever its labels, and an optional one where there is a
/// value and only there; what introduces a metric is its help text and its kind, in that order.
pub proof fn lemma_pieces_are_as_given(
    name: Seq<char>,
    labels: Seq<Label>,
    value: Seq<char>,
    help: Seq<char>,
    kind: Seq<char>,
)
    ensures
        sample(name, labels, value) == seq![Line::Sample { name, labels, value }],
        optional_sample(name, labels, Some(value)) == seq![Line::Sample { name, labels, value }],
        optional_sample(name, labels, None) == Seq::<Line>::empty(),
        family(name, help, kind) == seq![Line::Help { name, help }, Line::Type { name, kind }],
{
}

/// Labels name the chain and the dataset first, and then the result, the stage, or the operation
/// and its result.
pub proof fn lemma_labels_of_scopes(
    chain_id: Seq<char>,
    dataset: Seq<char>,
    operation: Seq<char>,
    text: Seq<char>,
)
    ensures
        scope_labels(chain_id, dataset) == seq![("chain_id"@, chain_id), ("dataset"@, dataset)],
        scope_result_labels(chain_id, dataset, text) == seq![
            ("chain_id"@, chain_id),
            ("dataset"@, dataset),
            ("result"@, text),
        ],
        scope_stage_labels(chain_id, dataset, text) == seq![
            ("chain_id"@, chain_id),
            ("dataset"@, dataset),
            ("stage"@, text),
        ],
        scope_operation_labels(chain_id, dataset, operation, text) == seq![
            ("chain_id"@, chain_id),
            ("dataset"@, dataset),
            ("operation"@, operation),
            ("result"@, text),
        ],
{
}

/// Every line that is exposed stands in the text, between what comes before and what comes after.
pub proof fn lemma_lines_stand_in_the_text(lines: Seq<Line>, k: int)
    requires
        0 <= k < lines.len(),
    ensures
        render(lines) == render(lines.take(k)) + render(seq![lines[k]]) + render(lines.skip(k + 1)),
        k > 0 ==> render(lines.take(k)).len() > 0 && render(lines.take(k)).last() == '\n',
        render(Seq::<Line>::empty()) == Seq::<char>::empty(),
{
    let before = lines.take(k);
    let own = seq![lines[k]];
    let after = lines.skip(k + 1);
    assert(lines =~= before + own + after);
    crate::exposition::lemma_render_concat(before + own, after);
    crate::exposition::lemma_render_concat(before, own);
    if k > 0 {
        crate::exposition::lemma_text_ends_its_last_line(before);
    }
    assert(render(Seq::<Line>::empty()) =~= Seq::<char>::empty());
}

/// Items are exposed in their order, the lines of one item after those of another.
pub proof fn lemma_items_are_exposed_in_order<T>(
    a: Seq<T>,
    item: T,
    b: Seq<T>,
    lines: spec_fn(T) -> Seq<Line>,
)
    ensures
        lines_of_each(a.push(item) + b, lines) == lines_of_each(a, lines) + lines(item)
            + lines_of_each(b, lines),
        lines_of_each(Seq::<T>::empty(), lines) == Seq::<Line>::empty(),
    decreases b.len(),
{
    assert(lines_of_each(Seq::<T>::empty(), lines) =~= Seq::<Line>::empty());
    let all = a.push(item) + b;
    if b.len() == 0 {
        assert(all =~= a.push(item));
        assert(a.push(item).drop_last() =~= a);
        assert(lines_of_each(all, lines) =~= lines_of_each(a, lines) + lines(item) + lines_of_each(
            b,
            lines,
        ));
    } else {
        assert(all.drop_last() =~= a.push(item) + b.drop_last());
        assert(all.last() == b.last());
        lemma_items_are_exposed_in_order(a, item, b.drop_last(), lines);
        assert(lines_of_each(all, lines) =~= lines_of_each(a, lines) + lines(item) + lines_of_each(
            b,
            lines,
        ));
    }
}

/// Labels are handed to the writer as they are: key by key and value by value.
pub proof fn lemma_labels_are_handed_on(labels: Seq<(&'static str, String)>, i: int)
    requires
        0 <= i < labels.len(),
    ensures
        labels_view(labels).len() == labels.len(),
        labels_view(labels)[i].0 == labels[i].0@,
        labels_view(labels)[i].1 == labels[i].1@,
{
}

/// The checkpoints come first: two introductions, the samples of each checkpoint in their order,
/// another introduction, and the number of checkpoints.
pub proof fn lemma_section_of_checkpoints(checkpoints: Seq<CheckpointRow>)
    ensures
        checkpoint_section(checkpoints) == seq![
            Line::Help {
                name: "ormp_indexer_checkpoint_next_block"@,
                help: "Next block recorded per chain and dataset."@,
            },
            Line::Type { name: "ormp_indexer_checkpoint_next_block"@, kind: "gauge"@ },
            Line::Help {
                name: "ormp_indexer_checkpoint_updated_timestamp_seconds"@,
                help: "Unix timestamp of the checkpoint row update."@,
            },
            Line::Type {
                name: "ormp_indexer_checkpoint_updated_timestamp_seconds"@,
                kind: "gauge"@,
            },
        ] + lines_of_each(
            checkpoints,
            |checkpoint: CheckpointRow|
                {
                    let labels = seq![
                        ("chain_id"@, checkpoint.chain_id@),
                        ("dataset"@, checkpoint.dataset@),
                    ];
                    seq![
                        Line::Sample {
                            name: "ormp_indexer_checkpoint_next_block"@,
                            labels,
                            value: checkpoint.next_block@,
                        },
                    ] + match checkpoint.updated_timestamp_seconds {
                        Some(time) => seq![
                            Line::Sample {
                                name: "ormp_indexer_checkpoint_updated_timestamp_seconds"@,
                                labels,
                                value: time@,
                            },
                        ],
                        None => seq![],
                    }
                },
        ) + seq![
            Line::Help {
                name: "ormp_indexer_checkpoint_rows"@,
                help: "Total checkpoint rows."@,
            },
            Line::Type { name: "ormp_indexer_checkpoint_rows"@, kind: "gauge"@ },
            Line::Bare {
                name: "ormp_indexer_checkpoint_rows"@,
                value: decimal(checkpoints.len()),
            },
        ],
{
    let written = |checkpoint: CheckpointRow|
        {
            let labels = seq![
                ("chain_id"@, checkpoint.chain_id@),
                ("dataset"@, checkpoint.dataset@),
            ];
            seq![
                Line::Sample {
                    name: "ormp_indexer_checkpoint_next_block"@,
                    labels,
                    value: checkpoint.next_block@,
                },
            ] + match checkpoint.updated_timestamp_seconds {
                Some(time) => seq![
                    Line::Sample {
                        name: "ormp_indexer_checkpoint_updated_timestamp_seconds"@,
                        labels,
                        value: time@,
                    },
                ],
                None => seq![],
            }
        };
    let lines = |checkpoint: CheckpointRow| checkpoint_lines(checkpoint);
    assert forall|checkpoint: CheckpointRow| #[trigger]
        lines(checkpoint) == written(checkpoint) by {
        assert(lines(checkpoint) =~= written(checkpoint));
    }
    assert(lines =~= written);
    let first = seq![
        Line::Help {
            name: "ormp_indexer_checkpoint_next_block"@,
            help: "Next block recorded per chain and dataset."@,
        },
        Line::Type { name: "ormp_indexer_checkpoint_next_block"@, kind: "gauge"@ },
        Line::Help {
            name: "ormp_indexer_checkpoint_updated_timestamp_seconds"@,
            help: "Unix timestamp of the checkpoint row update."@,
        },
        Line::Type { name: "ormp_indexer_checkpoint_updated_timestamp_seconds"@, kind: "gauge"@ },
    ];
    let last = seq![
        Line::Help {
            name: "ormp_indexer_checkpoint_rows"@,
            help: "Total checkpoint rows."@,
        },
        Line::Type { name: "ormp_indexer_checkpoint_rows"@, kind: "gauge"@ },
        Line::Bare {
            name: "ormp_indexer_checkpoint_rows"@,
            value: decimal(checkpoints.len()),
        },
    ];
    assert(checkpoint_section(checkpoints) =~= first + lines_of_each(checkpoints, written) + last);
}

/// The configured scopes follow: two introductions, for each scope its configuration and whether
/// it has a checkpoint, and the checkpoints whose scope is not configured.
pub proof fn lemma_section_of_scopes(
    checkpoints: Seq<CheckpointRow>,
    scopes: Seq<ConfiguredScopeMetricsRow>,
)
    ensures
        scope_section(checkpoints, scopes) == seq![
            Line::Help {
                name: "ormp_indexer_configured_scope_info"@,
                help: "Configured ORMP indexer scope information."@,
            },
            Line::Type { name: "ormp_indexer_configured_scope_info"@, kind: "gauge"@ },
            Line::Help {
                name: "ormp_indexer_checkpoint_present"@,
                help: "Whether the configured ORMP indexer scope has a checkpoint row."@,
            },
            Line::Type { name: "ormp_indexer_checkpoint_present"@, kind: "gauge"@ },
        ] + lines_of_each(scopes, written_scope(checkpoints)) + lines_of_each(
            checkpoints,
            written_stray(scopes),
        ),
{
    let lines = |scope: ConfiguredScopeMetricsRow| scope_lines(checkpoints, scope);
    let strays = |checkpoint: CheckpointRow| stray_lines(scopes, checkpoint);
    lemma_scope_is_written(checkpoints, scopes);
    assert(lines =~= written_scope(checkpoints));
    assert(strays =~= written_stray(scopes));
    let first = seq![
        Line::Help {
            name: "ormp_indexer_configured_scope_info"@,
            help: "Configured ORMP indexer scope information."@,
        },
        Line::Type { name: "ormp_indexer_configured_scope_info"@, kind: "gauge"@ },
        Line::Help {
            name: "ormp_indexer_checkpoint_present"@,
            help: "Whether the configured ORMP indexer scope has a checkpoint row."@,
        },
        Line::Type { name: "ormp_indexer_checkpoint_present"@, kind: "gauge"@ },
    ];
    assert(scope_section(checkpoints, scopes) =~= first + lines_of_each(scopes, lines)
        + lines_of_each(checkpoints, strays));
}

/// How a configured scope is written.
pub open spec fn written_scope(checkpoints: Seq<CheckpointRow>) -> spec_fn(
    ConfiguredScopeMetricsRow,
) -> Seq<Line> {
    |scope: ConfiguredScopeMetricsRow|
        {
            let chain_id = decimal(scope.chain_id as nat);
            seq![
                Line::Sample {
                    name: "ormp_indexer_configured_scope_info"@,
                    labels: seq![
                        ("chain_id"@, chain_id),
                        ("dataset"@, scope.dataset@),
                        ("start_block"@, decimal(scope.start_block as nat)),
                        ("batch_size"@, decimal(scope.batch_size as nat)),
                    ],
                    value: "1"@,
                },
                Line::Sample {
                    name: "ormp_indexer_checkpoint_present"@,
                    labels: seq![("chain_id"@, chain_id), ("dataset"@, scope.dataset@)],
                    value: if exists|i: int|
                        0 <= i < checkpoints.len() && (#[trigger] checkpoints[i]).chain_id@
                            == chain_id && checkpoints[i].dataset@ == scope.dataset@ {
                        "1"@
                    } else {
                        "0"@
                    },
                },
            ]
        }
}

/// How a checkpoint is written whose scope is not configured; one whose scope is configured is not
/// written once more.
pub open spec fn written_stray(scopes: Seq<ConfiguredScopeMetricsRow>) -> spec_fn(
    CheckpointRow,
) -> Seq<Line> {
    |checkpoint: CheckpointRow|
        if exists|j: int|
            0 <= j < scopes.len() && decimal((#[trigger] scopes[j]).chain_id as nat)
                == checkpoint.chain_id@ && scopes[j].dataset@ == checkpoint.dataset@ {
            seq![]
        } else {
            seq![
                Line::Sample {
                    name: "ormp_indexer_checkpoint_present"@,
                    labels: seq![
                        ("chain_id"@, checkpoint.chain_id@),
                        ("dataset"@, checkpoint.dataset@),
                    ],
                    value: "1"@,
                },
            ]
        }
}

proof fn lemma_scope_is_written(
    checkpoints: Seq<CheckpointRow>,
    scopes: Seq<ConfiguredScopeMetricsRow>,
)
    ensures
        forall|scope: ConfiguredScopeMetricsRow| #[trigger]
            scope_lines(checkpoints, scope) == written_scope(checkpoints)(scope),
        forall|checkpoint: CheckpointRow| #[trigger]
            stray_lines(scopes, checkpoint) == written_stray(scopes)(checkpoint),
{
    assert forall|scope: ConfiguredScopeMetricsRow| #[trigger]
        scope_lines(checkpoints, scope) == written_scope(checkpoints)(scope) by {
        let chain_id = decimal(scope.chain_id as nat);
        assert(scope_info_labels(scope) =~= seq![
            ("chain_id"@, chain_id),
            ("dataset"@, scope.dataset@),
            ("start_block"@, decimal(scope.start_block as nat)),
            ("batch_size"@, decimal(scope.batch_size as nat)),
        ]);
        if is_checkpointed(checkpoints, scope) {
            let i = choose|i: int|
                0 <= i < checkpoints.len() && belongs_to(#[trigger] checkpoints[i], scope);
            assert(checkpoints[i].chain_id@ == chain_id);
        }
        if exists|i: int|
            0 <= i < checkpoints.len() && (#[trigger] checkpoints[i]).chain_id@ == chain_id
                && checkpoints[i].dataset@ == scope.dataset@ {
            let i = choose|i: int|
                0 <= i < checkpoints.len() && (#[trigger] checkpoints[i]).chain_id@ == chain_id
                    && checkpoints[i].dataset@ == scope.dataset@;
            assert(belongs_to(checkpoints[i], scope));
        }
        assert(scope_lines(checkpoints, scope) =~= written_scope(checkpoints)(scope));
    }
    assert forall|checkpoint: CheckpointRow| #[trigger]
        stray_lines(scopes, checkpoint) == written_stray(scopes)(checkpoint) by {
        if is_configured(scopes, checkpoint) {
            let j = choose|j: int|
                0 <= j < scopes.len() && belongs_to(checkpoint, #[trigger] scopes[j]);
            assert(decimal(scopes[j].chain_id as nat) == checkpoint.chain_id@);
        }
        if exists|j: int|
            0 <= j < scopes.len() && decimal((#[trigger] scopes[j]).chain_id as nat)
                == checkpoint.chain_id@ && scopes[j].dataset@ == checkpoint.dataset@ {
            let j = choose|j: int|
                0 <= j < scopes.len() && decimal((#[trigger] scopes[j]).chain_id as nat)
                    == checkpoint.chain_id@ && scopes[j].dataset@ == checkpoint.dataset@;
            assert(belongs_to(checkpoint, scopes[j]));
        }
        assert(stray_lines(scopes, checkpoint) =~= written_stray(scopes)(checkpoint));
    }
}

/// The runtime rows follow: what introduces all of their metrics, and then the samples of each row
/// in their order.
pub proof fn lemma_section_of_rows(rows: Seq<RuntimeMetricsRow<String>>)
    ensures
        runtime_section(rows) == seq![
            Line::Help {
                name: "ormp_indexer_target_block"@,
                help: "Current target block after Datalens head buffer per chain and dataset."@,
            },
            Line::Type { name: "ormp_indexer_target_block"@, kind: "gauge"@ },
            Line::Help {
                name: "ormp_indexer_remaining_blocks"@,
                help: "Current remaining blocks per chain and dataset."@,
            },
            Line::Type { name: "ormp_indexer_remaining_blocks"@, kind: "gauge"@ },
            Line::Help {
                name: "ormp_indexer_datalens_head_height"@,
                help: "Latest Datalens head height observed by the ORMP indexer."@,
            },
            Line::Type { name: "ormp_indexer_datalens_head_height"@, kind: "gauge"@ },
            Line::Help {
                name: "ormp_indexer_datalens_head_observed_timestamp_seconds"@,
                help: "Unix timestamp of the last Datalens head observation."@,
            },
            Line::Type {
                name: "ormp_indexer_datalens_head_observed_timestamp_seconds"@,
                kind: "gauge"@,
            },
            Line::Help {
                name: "ormp_indexer_datalens_head_advanced_timestamp_seconds"@,
                help: "Unix timestamp of the last Datalens head advancement."@,
            },
            Line::Type {
                name: "ormp_indexer_datalens_head_advanced_timestamp_seconds"@,
                kind: "gauge"@,
            },
            Line::Help {
                name: "ormp_indexer_chain_last_success_timestamp_seconds"@,
                help: "Unix timestamp of the last successful ORMP chain pass."@,
            },
            Line::Type {
                name: "ormp_indexer_chain_last_success_timestamp_seconds"@,
                kind: "gauge"@,
            },
            Line::Help {
                name: "ormp_indexer_checkpoint_last_forward_advance_timestamp_seconds"@,
                help: "Unix timestamp of the last forward checkpoint advancement."@,
            },
            Line::Type {
                name: "ormp_indexer_checkpoint_last_forward_advance_timestamp_seconds"@,
                kind: "gauge"@,
            },
            Line::Help {
                name: "ormp_indexer_consecutive_failures"@,
                help: "Consecutive ORMP chain pass failures."@,
            },
            Line::Type { name: "ormp_indexer_consecutive_failures"@, kind: "gauge"@ },
            Line::Help {
                name: "ormp_indexer_chain_passes_total"@,
                help: "ORMP chain passes by result."@,
            },
            Line::Type { name: "ormp_indexer_chain_passes_total"@, kind: "counter"@ },
            Line::Help {
                name: "ormp_indexer_ranges_total"@,
                help: "ORMP Datalens ranges by result."@,
            },
            Line::Type { name: "ormp_indexer_ranges_total"@, kind: "counter"@ },
            Line::Help {
                name: "ormp_indexer_blocks_processed_total"@,
                help: "ORMP blocks processed successfully."@,
            },
            Line::Type { name: "ormp_indexer_blocks_processed_total"@, kind: "counter"@ },
            Line::Help {
                name: "ormp_indexer_records_total"@,
                help: "ORMP records by result stage."@,
            },
            Line::Type { name: "ormp_indexer_records_total"@, kind: "counter"@ },
            Line::Help {
                name: "ormp_indexer_batch_duration_seconds"@,
                help: "ORMP successful batch duration summary."@,
            },
            Line::Type { name: "ormp_indexer_batch_duration_seconds"@, kind: "summary"@ },
            Line::Help {
                name: "ormp_indexer_datalens_requests_total"@,
                help: "ORMP Datalens requests by operation and result."@,
            },
            Line::Type { name: "ormp_indexer_datalens_requests_total"@, kind: "counter"@ },
            Line::Help {
                name: "ormp_indexer_reorg_rollbacks_total"@,
                help: "ORMP reorg rollbacks."@,
            },
            Line::Type { name: "ormp_indexer_reorg_rollbacks_total"@, kind: "counter"@ },
        ] + lines_of_each(rows, |row: RuntimeMetricsRow<String>| row_lines(row)),
{
    let observed = seq![
        Line::Help {
            name: "ormp_indexer_target_block"@,
            help: "Current target block after Datalens head buffer per chain and dataset."@,
        },
        Line::Type { name: "ormp_indexer_target_block"@, kind: "gauge"@ },
        Line::Help {
            name: "ormp_indexer_remaining_blocks"@,
            help: "Current remaining blocks per chain and dataset."@,
        },
        Line::Type { name: "ormp_indexer_remaining_blocks"@, kind: "gauge"@ },
        Line::Help {
            name: "ormp_indexer_datalens_head_height"@,
            help: "Latest Datalens head height observed by the ORMP indexer."@,
        },
        Line::Type { name: "ormp_indexer_datalens_head_height"@, kind: "gauge"@ },
        Line::Help {
            name: "ormp_indexer_datalens_head_observed_timestamp_seconds"@,
            help: "Unix timestamp of the last Datalens head observation."@,
        },
        Line::Type {
            name: "ormp_indexer_datalens_head_observed_timestamp_seconds"@,
            kind: "gauge"@,
        },
        Line::Help {
            name: "ormp_indexer_datalens_head_advanced_timestamp_seconds"@,
            help: "Unix timestamp of the last Datalens head advancement."@,
        },
        Line::Type {
            name: "ormp_indexer_datalens_head_advanced_timestamp_seconds"@,
            kind: "gauge"@,
        },
        Line::Help {
            name: "ormp_indexer_chain_last_success_timestamp_seconds"@,
            help: "Unix timestamp of the last successful ORMP chain pass."@,
        },
        Line::Type { name: "ormp_indexer_chain_last_success_timestamp_seconds"@, kind: "gauge"@ },
        Line::Help {
            name: "ormp_indexer_checkpoint_last_forward_advance_timestamp_seconds"@,
            help: "Unix timestamp of the last forward checkpoint advancement."@,
        },
        Line::Type {
            name: "ormp_indexer_checkpoint_last_forward_advance_timestamp_seconds"@,
            kind: "gauge"@,
        },
    ];
    let counted = seq![
        Line::Help {
            name: "ormp_indexer_consecutive_failures"@,
            help: "Consecutive ORMP chain pass failures."@,
        },
        Line::Type { name: "ormp_indexer_consecutive_failures"@, kind: "gauge"@ },
        Line::Help {
            name: "ormp_indexer_chain_passes_total"@,
            help: "ORMP chain passes by result."@,
        },
        Line::Type { name: "ormp_indexer_chain_passes_total"@, kind: "counter"@ },
        Line::Help {
            name: "ormp_indexer_ranges_total"@,
            help: "ORMP Datalens ranges by result."@,
        },
        Line::Type { name: "ormp_indexer_ranges_total"@, kind: "counter"@ },
        Line::Help {
            name: "ormp_indexer_blocks_processed_total"@,
            help: "ORMP blocks processed successfully."@,
        },
        Line::Type { name: "ormp_indexer_blocks_processed_total"@, kind: "counter"@ },
        Line::Help {
            name: "ormp_indexer_records_total"@,
            help: "ORMP records by result stage."@,
        },
        Line::Type { name: "ormp_indexer_records_total"@, kind: "counter"@ },
        Line::Help {
            name: "ormp_indexer_batch_duration_seconds"@,
            help: "ORMP successful batch duration summary."@,
        },
        Line::Type { name: "ormp_indexer_batch_duration_seconds"@, kind: "summary"@ },
        Line::Help {
            name: "ormp_indexer_datalens_requests_total"@,
            help: "ORMP Datalens requests by operation and result."@,
        },
        Line::Type { name: "ormp_indexer_datalens_requests_total"@, kind: "counter"@ },
        Line::Help {
            name: "ormp_indexer_reorg_rollbacks_total"@,
            help: "ORMP reorg rollbacks."@,
        },
        Line::Type { name: "ormp_indexer_reorg_rollbacks_total"@, kind: "counter"@ },
    ];
    assert(observation_families() =~= observed);
    assert(total_families() =~= counted);
    assert(observed + counted =~= seq![
        Line::Help {
            name: "ormp_indexer_target_block"@,
            help: "Current target block after Datalens head buffer per chain and dataset."@,
        },
        Line::Type { name: "ormp_indexer_target_block"@, kind: "gauge"@ },
        Line::Help {
            name: "ormp_indexer_remaining_blocks"@,
            help: "Current remaining blocks per chain and dataset."@,
        },
        Line::Type { name: "ormp_indexer_remaining_blocks"@, kind: "gauge"@ },
        Line::Help {
            name: "ormp_indexer_datalens_head_height"@,
            help: "Latest Datalens head height observed by the ORMP indexer."@,
        },
        Line::Type { name: "ormp_indexer_datalens_head_height"@, kind: "gauge"@ },
        Line::Help {
            name: "ormp_indexer_datalens_head_observed_timestamp_seconds"@,
            help: "Unix timestamp of the last Datalens head observation."@,
        },
        Line::Type {
            name: "ormp_indexer_datalens_head_observed_timestamp_seconds"@,
            kind: "gauge"@,
        },
        Line::Help {
            name: "ormp_indexer_datalens_head_advanced_timestamp_seconds"@,
            help: "Unix timestamp of the last Datalens head advancement."@,
        },
        Line::Type {
            name: "ormp_indexer_datalens_head_advanced_timestamp_seconds"@,
            kind: "gauge"@,
        },
        Line::Help {
            name: "ormp_indexer_chain_last_success_timestamp_seconds"@,
            help: "Unix timestamp of the last successful ORMP chain pass."@,
        },
        Line::Type { name: "ormp_indexer_chain_last_success_timestamp_seconds"@, kind: "gauge"@ },
        Line::Help {
            name: "ormp_indexer_checkpoint_last_forward_advance_timestamp_seconds"@,
            help: "Unix timestamp of the last forward checkpoint advancement."@,
        },
        Line::Type {
            name: "ormp_indexer_checkpoint_last_forward_advance_timestamp_seconds"@,
            kind: "gauge"@,
        },
        Line::Help {
            name: "ormp_indexer_consecutive_failures"@,
            help: "Consecutive ORMP chain pass failures."@,
        },
        Line::Type { name: "ormp_indexer_consecutive_failures"@, kind: "gauge"@ },
        Line::Help {
            name: "ormp_indexer_chain_passes_total"@,
            help: "ORMP chain passes by result."@,
        },
        Line::Type { name: "ormp_indexer_chain_passes_total"@, kind: "counter"@ },
        Line::Help {
            name: "ormp_indexer_ranges_total"@,
            help: "ORMP Datalens ranges by result."@,
        },
        Line::Type { name: "ormp_indexer_ranges_total"@, kind: "counter"@ },
        Line::Help {
            name: "ormp_indexer_blocks_processed_total"@,
            help: "ORMP blocks processed successfully."@,
        },
        Line::Type { name: "ormp_indexer_blocks_processed_total"@, kind: "counter"@ },
        Line::Help {
            name: "ormp_indexer_records_total"@,
            help: "ORMP records by result stage."@,
        },
        Line::Type { name: "ormp_indexer_records_total"@, kind: "counter"@ },
        Line::Help {
            name: "ormp_indexer_batch_duration_seconds"@,
            help: "ORMP successful batch duration summary."@,
        },
        Line::Type { name: "ormp_indexer_batch_duration_seconds"@, kind: "summary"@ },
        Line::Help {
            name: "ormp_indexer_datalens_requests_total"@,
            help: "ORMP Datalens requests by operation and result."@,
        },
        Line::Type { name: "ormp_indexer_datalens_requests_total"@, kind: "counter"@ },
        Line::Help {
            name: "ormp_indexer_reorg_rollbacks_total"@,
            help: "ORMP reorg rollbacks."@,
        },
        Line::Type { name: "ormp_indexer_reorg_rollbacks_total"@, kind: "counter"@ },
    ]);
}

proof fn lemma_observations_are_written(row: RuntimeMetricsRow<String>)
    ensures
        ({
            let own = seq![("chain_id"@, decimal(row.chain_id as nat)), ("dataset"@, row.dataset@)];
            observation_lines(row) == (match row.target_block {
                Some(n) => seq![
                    Line::Sample {
                        name: "ormp_indexer_target_block"@,
                        labels: own,
                        value: decimal(n as nat),
                    },
                ],
                None => seq![],
            }) + (match row.remaining_blocks {
                Some(n) => seq![
                    Line::Sample {
                        name: "ormp_indexer_remaining_blocks"@,
                        labels: own,
                        value: decimal(n as nat),
                    },
                ],
                None => seq![],
            }) + (match row.datalens_head_height {
                Some(n) => seq![
                    Line::Sample {
                        name: "ormp_indexer_datalens_head_height"@,
                        labels: own,
                        value: decimal(n as nat),
                    },
                ],
                None => seq![],
            }) + (match row.datalens_head_observed_timestamp_seconds {
                Some(n) => seq![
                    Line::Sample {
                        name: "ormp_indexer_datalens_head_observed_timestamp_seconds"@,
                        labels: own,
                        value: n@,
                    },
                ],
                None => seq![],
            }) + (match row.datalens_head_advanced_timestamp_seconds {
                Some(n) => seq![
                    Line::Sample {
                        name: "ormp_indexer_datalens_head_advanced_timestamp_seconds"@,
                        labels: own,
                        value: n@,
                    },
                ],
                None => seq![],
            }) + (match row.chain_last_success_timestamp_seconds {
                Some(n) => seq![
                    Line::Sample {
                        name: "ormp_indexer_chain_last_success_timestamp_seconds"@,
                        labels: own,
                        value: n@,
                    },
                ],
                None => seq![],
            }) + (match row.checkpoint_last_forward_advance_timestamp_seconds {
                Some(n) => seq![
                    Line::Sample {
                        name: "ormp_indexer_checkpoint_last_forward_advance_timestamp_seconds"@,
                        labels: own,
                        value: n@,
                    },
                ],
                None => seq![],
            })
        }),
{
    let own = seq![("chain_id"@, decimal(row.chain_id as nat)), ("dataset"@, row.dataset@)];
    assert(observation_lines(row) =~= (match row.target_block {
        Some(n) => seq![
            Line::Sample {
                name: "ormp_indexer_target_block"@,
                labels: own,
                value: decimal(n as nat),
            },
        ],
        None => seq![],
    }) + (match row.remaining_blocks {
        Some(n) => seq![
            Line::Sample {
                name: "ormp_indexer_remaining_blocks"@,
                labels: own,
                value: decimal(n as nat),
            },
        ],
        None => seq![],
    }) + (match row.datalens_head_height {
        Some(n) => seq![
            Line::Sample {
                name: "ormp_indexer_datalens_head_height"@,
                labels: own,
                value: decimal(n as nat),
            },
        ],
        None => seq![],
    }) + (match row.datalens_head_observed_timestamp_seconds {
        Some(n) => seq![
            Line::Sample {
                name: "ormp_indexer_datalens_head_observed_timestamp_seconds"@,
                labels: own,
                value: n@,
            },
        ],
        None => seq![],
    }) + (match row.datalens_head_advanced_timestamp_seconds {
        Some(n) => seq![
            Line::Sample {
                name: "ormp_indexer_datalens_head_advanced_timestamp_seconds"@,
                labels: own,
                value: n@,
            },
        ],
        None => seq![],
    }) + (match row.chain_last_success_timestamp_seconds {
        Some(n) => seq![
            Line::Sample {
                name: "ormp_indexer_chain_last_success_timestamp_seconds"@,
                labels: own,
                value: n@,
            },
        ],
        None => seq![],
    }) + (match row.checkpoint_last_forward_advance_timestamp_seconds {
        Some(n) => seq![
            Line::Sample {
                name: "ormp_indexer_checkpoint_last_forward_advance_timestamp_seconds"@,
                labels: own,
                value: n@,
            },
        ],
        None => seq![],
    }));
}

proof fn lemma_outcomes_are_written(row: RuntimeMetricsRow<String>)
    ensures
        ({
            let own = seq![("chain_id"@, decimal(row.chain_id as nat)), ("dataset"@, row.dataset@)];
            outcome_lines(row) == seq![
                Line::Sample {
                    name: "ormp_indexer_consecutive_failures"@,
                    labels: own,
                    value: decimal(row.consecutive_failures as nat),
                },
                Line::Sample {
                    name: "ormp_indexer_chain_passes_total"@,
                    labels: own.push(("result"@, "success"@)),
                    value: decimal(row.chain_pass_success_total as nat),
                },
                Line::Sample {
                    name: "ormp_indexer_chain_passes_total"@,
                    labels: own.push(("result"@, "failure"@)),
                    value: decimal(row.chain_pass_failure_total as nat),
                },
                Line::Sample {
                    name: "ormp_indexer_ranges_total"@,
                    labels: own.push(("result"@, "success"@)),
                    value: decimal(row.ranges_success_total as nat),
                },
                Line::Sample {
                    name: "ormp_indexer_ranges_total"@,
                    labels: own.push(("result"@, "failure"@)),
                    value: decimal(row.ranges_failure_total as nat),
                },
            ]
        }),
{
    let own = seq![("chain_id"@, decimal(row.chain_id as nat)), ("dataset"@, row.dataset@)];
    assert(outcome_lines(row) =~= seq![
        Line::Sample {
            name: "ormp_indexer_consecutive_failures"@,
            labels: own,
            value: decimal(row.consecutive_failures as nat),
        },
        Line::Sample {
            name: "ormp_indexer_chain_passes_total"@,
            labels: own.push(("result"@, "success"@)),
            value: decimal(row.chain_pass_success_total as nat),
        },
        Line::Sample {
            name: "ormp_indexer_chain_passes_total"@,
            labels: own.push(("result"@, "failure"@)),
            value: decimal(row.chain_pass_failure_total as nat),
        },
        Line::Sample {
            name: "ormp_indexer_ranges_total"@,
            labels: own.push(("result"@, "success"@)),
            value: decimal(row.ranges_success_total as nat),
        },
        Line::Sample {
            name: "ormp_indexer_ranges_total"@,
            labels: own.push(("result"@, "failure"@)),
            value: decimal(row.ranges_failure_total as nat),
        },
    ]);
}

proof fn lemma_throughput_is_written(row: RuntimeMetricsRow<String>)
    ensures
        ({
            let own = seq![("chain_id"@, decimal(row.chain_id as nat)), ("dataset"@, row.dataset@)];
            throughput_lines(row) == seq![
                Line::Sample {
                    name: "ormp_indexer_blocks_processed_total"@,
                    labels: own,
                    value: decimal(row.blocks_processed_total as nat),
                },
                Line::Sample {
                    name: "ormp_indexer_records_total"@,
                    labels: own.push(("stage"@, "read"@)),
                    value: decimal(row.records_read_total as nat),
                },
                Line::Sample {
                    name: "ormp_indexer_records_total"@,
                    labels: own.push(("stage"@, "decoded"@)),
                    value: decimal(row.records_decoded_total as nat),
                },
                Line::Sample {
                    name: "ormp_indexer_records_total"@,
                    labels: own.push(("stage"@, "written"@)),
                    value: decimal(row.records_written_total as nat),
                },
                Line::Sample {
                    name: "ormp_indexer_batch_duration_seconds_sum"@,
                    labels: own,
                    value: row.batch_duration_seconds_sum@,
                },
                Line::Sample {
                    name: "ormp_indexer_batch_duration_seconds_count"@,
                    labels: own,
                    value: decimal(row.batch_duration_seconds_count as nat),
                },
            ]
        }),
{
    let own = seq![("chain_id"@, decimal(row.chain_id as nat)), ("dataset"@, row.dataset@)];
    assert(throughput_lines(row) =~= seq![
        Line::Sample {
            name: "ormp_indexer_blocks_processed_total"@,
            labels: own,
            value: decimal(row.blocks_processed_total as nat),
        },
        Line::Sample {
            name: "ormp_indexer_records_total"@,
            labels: own.push(("stage"@, "read"@)),
            value: decimal(row.records_read_total as nat),
        },
        Line::Sample {
            name: "ormp_indexer_records_total"@,
            labels: own.push(("stage"@, "decoded"@)),
            value: decimal(row.records_decoded_total as nat),
        },
        Line::Sample {
            name: "ormp_indexer_records_total"@,
            labels: own.push(("stage"@, "written"@)),
            value: decimal(row.records_written_total as nat),
        },
        Line::Sample {
            name: "ormp_indexer_batch_duration_seconds_sum"@,
            labels: own,
            value: row.batch_duration_seconds_sum@,
        },
        Line::Sample {
            name: "ormp_indexer_batch_duration_seconds_count"@,
            labels: own,
            value: decimal(row.batch_duration_seconds_count as nat),
        },
    ]);
}

/// The requests in a scope are written by operation, and for each operation the successes before
/// the failures.
pub proof fn lemma_requests_are_written<S>(row: RuntimeMetricsRow<S>)
    ensures
        ({
            let own = seq![("chain_id"@, decimal(row.chain_id as nat)), ("dataset"@, row.dataset@)];
            request_lines(row) == seq![
                Line::Sample {
                    name: "ormp_indexer_datalens_requests_total"@,
                    labels: own.push(("operation"@, "logs"@)).push(("result"@, "success"@)),
                    value: decimal(row.datalens_log_requests_success_total as nat),
                },
                Line::Sample {
                    name: "ormp_indexer_datalens_requests_total"@,
                    labels: own.push(("operation"@, "logs"@)).push(("result"@, "failure"@)),
                    value: decimal(row.datalens_log_requests_failure_total as nat),
                },
                Line::Sample {
                    name: "ormp_indexer_datalens_requests_total"@,
                    labels: own.push(("operation"@, "blocks"@)).push(("result"@, "success"@)),
                    value: decimal(row.datalens_block_requests_success_total as nat),
                },
                Line::Sample {
                    name: "ormp_indexer_datalens_requests_total"@,
                    labels: own.push(("operation"@, "blocks"@)).push(("result"@, "failure"@)),
                    value: decimal(row.datalens_block_requests_failure_total as nat),
                },
                Line::Sample {
                    name: "ormp_indexer_datalens_requests_total"@,
                    labels: own.push(("operation"@, "transactions"@)).push(("result"@, "success"@)),
                    value: decimal(row.datalens_tx_requests_success_total as nat),
                },
                Line::Sample {
                    name: "ormp_indexer_datalens_requests_total"@,
                    labels: own.push(("operation"@, "transactions"@)).push(("result"@, "failure"@)),
                    value: decimal(row.datalens_tx_requests_failure_total as nat),
                },
            ]
        }),
{
    let own = seq![("chain_id"@, decimal(row.chain_id as nat)), ("dataset"@, row.dataset@)];
    assert(request_lines(row) =~= seq![
        Line::Sample {
            name: "ormp_indexer_datalens_requests_total"@,
            labels: own.push(("operation"@, "logs"@)).push(("result"@, "success"@)),
            value: decimal(row.datalens_log_requests_success_total as nat),
        },
        Line::Sample {
            name: "ormp_indexer_datalens_requests_total"@,
            labels: own.push(("operation"@, "logs"@)).push(("result"@, "failure"@)),
            value: decimal(row.datalens_log_requests_failure_total as nat),
        },
        Line::Sample {
            name: "ormp_indexer_datalens_requests_total"@,
            labels: own.push(("operation"@, "blocks"@)).push(("result"@, "success"@)),
            value: decimal(row.datalens_block_requests_success_total as nat),
        },
        Line::Sample {
            name: "ormp_indexer_datalens_requests_total"@,
            labels: own.push(("operation"@, "blocks"@)).push(("result"@, "failure"@)),
            value: decimal(row.datalens_block_requests_failure_total as nat),
        },
        Line::Sample {
            name: "ormp_indexer_datalens_requests_total"@,
            labels: own.push(("operation"@, "transactions"@)).push(("result"@, "success"@)),
            value: decimal(row.datalens_tx_requests_success_total as nat),
        },
        Line::Sample {
            name: "ormp_indexer_datalens_requests_total"@,
            labels: own.push(("operation"@, "transactions"@)).push(("result"@, "failure"@)),
            value: decimal(row.datalens_tx_requests_failure_total as nat),
        },
    ]);
}

/// A row is written as what was last observed, as far as anything was, and then, always, as what
/// was counted: eighteen samples in a fixed order.
pub proof fn lemma_row_is_written(row: RuntimeMetricsRow<String>)
    ensures
        ({
            let own = seq![("chain_id"@, decimal(row.chain_id as nat)), ("dataset"@, row.dataset@)];
            row_lines(row) == (match row.target_block {
                Some(n) => seq![
                    Line::Sample {
                        name: "ormp_indexer_target_block"@,
                        labels: own,
                        value: decimal(n as nat),
                    },
                ],
                None => seq![],
            }) + (match row.remaining_blocks {
                Some(n) => seq![
                    Line::Sample {
                        name: "ormp_indexer_remaining_blocks"@,
                        labels: own,
                        value: decimal(n as nat),
                    },
                ],
                None => seq![],
            }) + (match row.datalens_head_height {
                Some(n) => seq![
                    Line::Sample {
                        name: "ormp_indexer_datalens_head_height"@,
                        labels: own,
                        value: decimal(n as nat),
                    },
                ],
                None => seq![],
            }) + (match row.datalens_head_observed_timestamp_seconds {
                Some(n) => seq![
                    Line::Sample {
                        name: "ormp_indexer_datalens_head_observed_timestamp_seconds"@,
                        labels: own,
                        value: n@,
                    },
                ],
                None => seq![],
            }) + (match row.datalens_head_advanced_timestamp_seconds {
                Some(n) => seq![
                    Line::Sample {
                        name: "ormp_indexer_datalens_head_advanced_timestamp_seconds"@,
                        labels: own,
                        value: n@,
                    },
                ],
                None => seq![],
            }) + (match row.chain_last_success_timestamp_seconds {
                Some(n) => seq![
                    Line::Sample {
                        name: "ormp_indexer_chain_last_success_timestamp_seconds"@,
                        labels: own,
                        value: n@,
                    },
                ],
                None => seq![],
            }) + (match row.checkpoint_last_forward_advance_timestamp_seconds {
                Some(n) => seq![
                    Line::Sample {
                        name: "ormp_indexer_checkpoint_last_forward_advance_timestamp_seconds"@,
                        labels: own,
                        value: n@,
                    },
                ],
                None => seq![],
            }) + seq![
                Line::Sample {
                    name: "ormp_indexer_consecutive_failures"@,
                    labels: own,
                    value: decimal(row.consecutive_failures as nat),
                },
                Line::Sample {
                    name: "ormp_indexer_chain_passes_total"@,
                    labels: own.push(("result"@, "success"@)),
                    value: decimal(row.chain_pass_success_total as nat),
                },
                Line::Sample {
                    name: "ormp_indexer_chain_passes_total"@,
                    labels: own.push(("result"@, "failure"@)),
                    value: decimal(row.chain_pass_failure_total as nat),
                },
                Line::Sample {
                    name: "ormp_indexer_ranges_total"@,
                    labels: own.push(("result"@, "success"@)),
                    value: decimal(row.ranges_success_total as nat),
                },
                Line::Sample {
                    name: "ormp_indexer_ranges_total"@,
                    labels: own.push(("result"@, "failure"@)),
                    value: decimal(row.ranges_failure_total as nat),
                },
            ] + seq![
                Line::Sample {
                    name: "ormp_indexer_blocks_processed_total"@,
                    labels: own,
                    value: decimal(row.blocks_processed_total as nat),
                },
                Line::Sample {
                    name: "ormp_indexer_records_total"@,
                    labels: own.push(("stage"@, "read"@)),
                    value: decimal(row.records_read_total as nat),
                },
                Line::Sample {
                    name: "ormp_indexer_records_total"@,
                    labels: own.push(("stage"@, "decoded"@)),
                    value: decimal(row.records_decoded_total as nat),
                },
                Line::Sample {
                    name: "ormp_indexer_records_total"@,
                    labels: own.push(("stage"@, "written"@)),
                    value: decimal(row.records_written_total as nat),
                },
                Line::Sample {
                    name: "ormp_indexer_batch_duration_seconds_sum"@,
                    labels: own,
                    value: row.batch_duration_seconds_sum@,
                },
                Line::Sample {
                    name: "ormp_indexer_batch_duration_seconds_count"@,
                    labels: own,
                    value: decimal(row.batch_duration_seconds_count as nat),
                },
            ] + seq![
                Line::Sample {
                    name: "ormp_indexer_datalens_requests_total"@,
                    labels: own.push(("operation"@, "logs"@)).push(("result"@, "success"@)),
                    value: decimal(row.datalens_log_requests_success_total as nat),
                },
                Line::Sample {
                    name: "ormp_indexer_datalens_requests_total"@,
                    labels: own.push(("operation"@, "logs"@)).push(("result"@, "failure"@)),
                    value: decimal(row.datalens_log_requests_failure_total as nat),
                },
                Line::Sample {
                    name: "ormp_indexer_datalens_requests_total"@,
                    labels: own.push(("operation"@, "blocks"@)).push(("result"@, "success"@)),
                    value: decimal(row.datalens_block_requests_success_total as nat),
                },
                Line::Sample {
                    name: "ormp_indexer_datalens_requests_total"@,
                    labels: own.push(("operation"@, "blocks"@)).push(("result"@, "failure"@)),
                    value: decimal(row.datalens_block_requests_failure_total as nat),
                },
                Line::Sample {
                    name: "ormp_indexer_datalens_requests_total"@,
                    labels: own.push(("operation"@, "transactions"@)).push(("result"@, "success"@)),
                    value: decimal(row.datalens_tx_requests_success_total as nat),
                },
                Line::Sample {
                    name: "ormp_indexer_datalens_requests_total"@,
                    labels: own.push(("operation"@, "transactions"@)).push(("result"@, "failure"@)),
                    value: decimal(row.datalens_tx_requests_failure_total as nat),
                },
            ] + seq![
                Line::Sample {
                    name: "ormp_indexer_reorg_rollbacks_total"@,
                    labels: own,
                    value: decimal(row.reorg_rollbacks_total as nat),
                },
            ]
        }),
{
    lemma_observations_are_written(row);
    lemma_outcomes_are_written(row);
    lemma_throughput_is_written(row);
    lemma_requests_are_written(row);
}

/// The tables come last: an introduction, and one sample for each of seven tables.
pub proof fn lemma_section_of_tables(row_counts: Seq<LegacyTableRowCount>)
    ensures
        ({
            let of = |table: Seq<char>|
                Line::Sample {
                    name: "ormp_indexer_legacy_table_rows"@,
                    labels: seq![("table"@, table)],
                    value: signed_decimal(table_count(row_counts, table)),
                };
            table_section(row_counts) == seq![
                Line::Help {
                    name: "ormp_indexer_legacy_table_rows"@,
                    help: "Legacy GraphQL table row counts."@,
                },
                Line::Type { name: "ormp_indexer_legacy_table_rows"@, kind: "gauge"@ },
                of("ormp_hash_imported"@),
                of("ormp_message_accepted"@),
                of("ormp_message_assigned"@),
                of("ormp_message_dispatched"@),
                of("msgport_message_recv"@),
                of("msgport_message_sent"@),
                of("signature_pub_signature_submittion"@),
            ]
        }),
{
    let lines = |table: &'static str| table_lines(row_counts, table);
    let of = |table: Seq<char>|
        Line::Sample {
            name: "ormp_indexer_legacy_table_rows"@,
            labels: seq![("table"@, table)],
            value: signed_decimal(table_count(row_counts, table)),
        };
    let tables = LEGACY_TABLES@;
    crate::report_laws::lemma_every_table_is_exposed(row_counts, 0);
    crate::report_laws::lemma_every_table_is_exposed(row_counts, 1);
    crate::report_laws::lemma_every_table_is_exposed(row_counts, 2);
    crate::report_laws::lemma_every_table_is_exposed(row_counts, 3);
    crate::report_laws::lemma_every_table_is_exposed(row_counts, 4);
    crate::report_laws::lemma_every_table_is_exposed(row_counts, 5);
    crate::report_laws::lemma_every_table_is_exposed(row_counts, 6);
    assert(table_section(row_counts) =~= seq![
        Line::Help {
            name: "ormp_indexer_legacy_table_rows"@,
            help: "Legacy GraphQL table row counts."@,
        },
        Line::Type { name: "ormp_indexer_legacy_table_rows"@, kind: "gauge"@ },
        of("ormp_hash_imported"@),
        of("ormp_message_accepted"@),
        of("ormp_message_assigned"@),
        of("ormp_message_dispatched"@),
        of("msgport_message_recv"@),
        of("msgport_message_sent"@),
        of("signature_pub_signature_submittion"@),
    ]);
}

/// The checkpoints are exposed first, then the configured scopes, the runtime rows and the tables,
/// and nothing else is.
pub proof fn lemma_sections_in_order(
    checkpoints: Seq<CheckpointRow>,
    row_counts: Seq<LegacyTableRowCount>,
    scopes: Seq<ConfiguredScopeMetricsRow>,
    rows: Seq<RuntimeMetricsRow<String>>,
)
    ensures
        exposition(checkpoints, row_counts, scopes, rows) == checkpoint_section(checkpoints)
            + scope_section(checkpoints, scopes) + runtime_section(rows) + table_section(
            row_counts,
        ),
{
}

/// When times and durations are given by text, each is given by the text that it displays as, a
/// time that is missing stays missing, and all else stays as it is.
pub proof fn lemma_times_are_given_by_their_text<S: core::fmt::Display>(
    row: RuntimeMetricsRow<S>,
    text: RuntimeMetricsRow<String>,
)
    requires
        rendered_row(row, text),
    ensures
        text.chain_id == row.chain_id,
        text.dataset == row.dataset,
        text.target_block == row.target_block,
        text.remaining_blocks == row.remaining_blocks,
        text.datalens_head_height == row.datalens_head_height,
        text.consecutive_failures == row.consecutive_failures,
        text.chain_pass_success_total == row.chain_pass_success_total,
        text.chain_pass_failure_total == row.chain_pass_failure_total,
        text.ranges_success_total == row.ranges_success_total,
        text.ranges_failure_total == row.ranges_failure_total,
        text.blocks_processed_total == row.blocks_processed_total,
        text.records_read_total == row.records_read_total,
        text.records_decoded_total == row.records_decoded_total,
        text.records_written_total == row.records_written_total,
        text.batch_duration_seconds_count == row.batch_duration_seconds_count,
        text.datalens_log_requests_success_total == row.datalens_log_requests_success_total,
        text.datalens_log_requests_failure_total == row.datalens_log_requests_failure_total,
        text.datalens_block_requests_success_total == row.datalens_block_requests_success_total,
        text.datalens_block_requests_failure_total == row.datalens_block_requests_failure_total,
        text.datalens_tx_requests_success_total == row.datalens_tx_requests_success_total,
        text.datalens_tx_requests_failure_total == row.datalens_tx_requests_failure_total,
        text.reorg_rollbacks_total == row.reorg_rollbacks_total,
        text.datalens_head_observed_timestamp_seconds is Some
            == row.datalens_head_observed_timestamp_seconds is Some,
        row.datalens_head_observed_timestamp_seconds is Some
            ==> vstd::string::to_string_from_display_ensures::<S>(
            &row.datalens_head_observed_timestamp_seconds->0,
            text.datalens_head_observed_timestamp_seconds->0,
        ),
        text.datalens_head_advanced_timestamp_seconds is Some
            == row.datalens_head_advanced_timestamp_seconds is Some,
        row.datalens_head_advanced_timestamp_seconds is Some
            ==> vstd::string::to_string_from_display_ensures::<S>(
            &row.datalens_head_advanced_timestamp_seconds->0,
            text.datalens_head_advanced_timestamp_seconds->0,
        ),
        text.chain_last_success_timestamp_seconds is Some
            == row.chain_last_success_timestamp_seconds is Some,
        row.chain_last_success_timestamp_seconds is Some
            ==> vstd::string::to_string_from_display_ensures::<S>(
            &row.chain_last_success_timestamp_seconds->0,
            text.chain_last_success_timestamp_seconds->0,
        ),
        text.checkpoint_last_forward_advance_timestamp_seconds is Some
            == row.checkpoint_last_forward_advance_timestamp_seconds is Some,
        row.checkpoint_last_forward_advance_timestamp_seconds is Some
            ==> vstd::string::to_string_from_display_ensures::<S>(
            &row.checkpoint_last_forward_advance_timestamp_seconds->0,
            text.checkpoint_last_forward_advance_timestamp_seconds->0,
        ),
        vstd::string::to_string_from_display_ensures::<S>(
            &row.batch_duration_seconds_sum,
            text.batch_duration_seconds_sum,
        ),
{
}

/// Every row is written, in its place: there are as many rows with their times given by text as
/// there are rows, and each stands where its row stands.
pub proof fn lemma_every_row_is_rendered<S: core::fmt::Display>(
    rows: Seq<RuntimeMetricsRow<S>>,
    texts: Seq<RuntimeMetricsRow<String>>,
)
    requires
        rendered_rows(rows, texts),
    ensures
        texts.len() == rows.len(),
        forall|i: int|
            0 <= i < rows.len() ==> {
                &&& (#[trigger] texts[i]).chain_id == (#[trigger] rows[i]).chain_id
                &&& texts[i].dataset@ == rows[i].dataset@
                &&& rendered_row(rows[i], texts[i])
            },
{
    assert forall|i: int| 0 <= i < rows.len() implies {
        &&& (#[trigger] texts[i]).chain_id == (#[trigger] rows[i]).chain_id
        &&& texts[i].dataset@ == rows[i].dataset@
        &&& rendered_row(rows[i], texts[i])
    } by {
        assert(rendered_row(rows[i], texts[i]));
    }
}

} // verus!
