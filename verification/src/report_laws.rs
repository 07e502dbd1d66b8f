//! What holds of everything that is exposed, whatever was recorded.
use crate::decimal::{decimal, lemma_decimal_is_injective};
use crate::exposition::{family, lines_of_each, optional_sample, sample, Label, Line};
use crate::families;
use crate::labels::scope_labels;
use crate::metrics::{ConfiguredScopeMetricsRow, RuntimeMetricsRow};
use crate::ops::{
    belongs_to, checkpoint_lines, checkpoint_section, exposition, is_checkpointed, is_configured,
    scope_info_labels, scope_lines, scope_section, stray_lines, table_count, table_lines,
    table_section, CheckpointRow, LegacyTableRowCount, LEGACY_TABLES,
};
use crate::runtime_report::{
    observation_families, observation_lines, outcome_lines, request_lines, row_lines,
    runtime_section, throughput_lines, total_families,
};
use crate::scope::{ascending, lemma_scope_order_is_asymmetric, Scoped};
use vstd::prelude::*;

verus! {

/// The name of the metric of which the line gives a sample, where it gives one.
pub open spec fn sample_name(line: Line) -> Option<Seq<char>> {
    match line {
        Line::Sample { name, .. } => Some(name),
        Line::Bare { name, .. } => Some(name),
        _ => None,
    }
}

/// The line gives the kind of the family to which the metric belongs. The family of a summary
/// has a metric for the sum and one for the count.
pub open spec fn introduces(line: Line, name: Seq<char>) -> bool {
    match line {
        Line::Type { name: family, kind } => {
            ||| family == name
            ||| kind == families::SUMMARY@ && (name == family + "_sum"@ || name == family
                + "_count"@)
        },
        _ => false,
    }
}

/// Some of the lines gives the kind of the family to which the metric belongs.
pub open spec fn knows(lines: Seq<Line>, name: Seq<char>) -> bool {
    exists|i: int| 0 <= i < lines.len() && introduces(#[trigger] lines[i], name)
}

/// Every sample is of a metric whose family was introduced by a line before it.
pub open spec fn introduced_before_use(lines: Seq<Line>) -> bool {
    forall|i: int|
        0 <= i < lines.len() ==> (sample_name(#[trigger] lines[i]) matches Some(name) ==> knows(
            lines.take(i),
            name,
        ))
}

/// Every sample among `lines` is of a metric whose family is introduced in `head`.
spec fn introduced_in(head: Seq<Line>, lines: Seq<Line>) -> bool {
    forall|i: int|
        0 <= i < lines.len() ==> (sample_name(#[trigger] lines[i]) matches Some(name) ==> knows(
            head,
            name,
        ))
}

broadcast proof fn lemma_knows_concat(a: Seq<Line>, b: Seq<Line>, name: Seq<char>)
    ensures
        #[trigger] knows(a + b, name) == (knows(a, name) || knows(b, name)),
{
    if knows(a, name) {
        let i = choose|i: int| 0 <= i < a.len() && introduces(#[trigger] a[i], name);
        assert((a + b)[i] == a[i]);
    }
    if knows(b, name) {
        let i = choose|i: int| 0 <= i < b.len() && introduces(#[trigger] b[i], name);
        assert((a + b)[i + a.len()] == b[i]);
    }
    if knows(a + b, name) {
        let i = choose|i: int| 0 <= i < (a + b).len() && introduces(#[trigger] (a + b)[i], name);
        if i < a.len() {
            assert(introduces(a[i], name));
        } else {
            assert(introduces(b[i - a.len()], name));
        }
    }
}

broadcast proof fn lemma_knows_family(
    own: Seq<char>,
    help: Seq<char>,
    kind: Seq<char>,
    name: Seq<char>,
)
    ensures
        #[trigger] knows(family(own, help, kind), name) == introduces(
            Line::Type { name: own, kind },
            name,
        ),
{
    let lines = family(own, help, kind);
    assert(lines[1] == Line::Type { name: own, kind });
    assert(!introduces(lines[0], name));
}

broadcast proof fn lemma_introduced_in_concat(head: Seq<Line>, a: Seq<Line>, b: Seq<Line>)
    requires
        introduced_in(head, a),
        introduced_in(head, b),
    ensures
        #[trigger] introduced_in(head, a + b),
{
    assert forall|i: int| 0 <= i < (a + b).len() implies (sample_name(
        #[trigger] (a + b)[i],
    ) matches Some(name) ==> knows(head, name)) by {
        if i < a.len() {
            assert((a + b)[i] == a[i]);
        } else {
            assert((a + b)[i] == b[i - a.len()]);
        }
    }
}

broadcast proof fn lemma_introduced_in_sample(
    head: Seq<Line>,
    name: Seq<char>,
    labels: Seq<Label>,
    value: Seq<char>,
)
    requires
        knows(head, name),
    ensures
        #[trigger] introduced_in(head, sample(name, labels, value)),
{
}

broadcast proof fn lemma_introduced_in_optional(
    head: Seq<Line>,
    name: Seq<char>,
    labels: Seq<Label>,
    value: Option<Seq<char>>,
)
    requires
        knows(head, name),
    ensures
        #[trigger] introduced_in(head, optional_sample(name, labels, value)),
{
}

proof fn lemma_introduced_in_each<T>(
    head: Seq<Line>,
    items: Seq<T>,
    lines: spec_fn(T) -> Seq<Line>,
)
    requires
        forall|item: T| introduced_in(head, #[trigger] lines(item)),
    ensures
        introduced_in(head, lines_of_each(items, lines)),
    decreases items.len(),
{
    if items.len() > 0 {
        lemma_introduced_in_each(head, items.drop_last(), lines);
        lemma_introduced_in_concat(
            head,
            lines_of_each(items.drop_last(), lines),
            lines(items.last()),
        );
    }
}

/// Lines may be followed by samples of what they introduce.
proof fn lemma_use_what_is_introduced(head: Seq<Line>, lines: Seq<Line>)
    requires
        introduced_before_use(head),
        introduced_in(head, lines),
    ensures
        introduced_before_use(head + lines),
{
    let all = head + lines;
    assert forall|i: int| 0 <= i < all.len() implies (sample_name(#[trigger] all[i]) matches Some(
        name,
    ) ==> knows(all.take(i), name)) by {
        if i < head.len() {
            assert(all[i] == head[i]);
            assert(all.take(i) =~= head.take(i));
        } else {
            assert(all[i] == lines[i - head.len()]);
            assert(all.take(i) =~= head + lines.take(i - head.len()));
            if let Some(name) = sample_name(all[i]) {
                lemma_knows_concat(head, lines.take(i - head.len()), name);
            }
        }
    }
}

/// Lines may be followed by lines that introduce what they use themselves.
proof fn lemma_use_in_turn(a: Seq<Line>, b: Seq<Line>)
    requires
        introduced_before_use(a),
        introduced_before_use(b),
    ensures
        introduced_before_use(a + b),
{
    let all = a + b;
    assert forall|i: int| 0 <= i < all.len() implies (sample_name(#[trigger] all[i]) matches Some(
        name,
    ) ==> knows(all.take(i), name)) by {
        if i < a.len() {
            assert(all[i] == a[i]);
            assert(all.take(i) =~= a.take(i));
        } else {
            assert(all[i] == b[i - a.len()]);
            assert(all.take(i) =~= a + b.take(i - a.len()));
            if let Some(name) = sample_name(all[i]) {
                lemma_knows_concat(a, b.take(i - a.len()), name);
            }
        }
    }
}

proof fn lemma_checkpoint_section_introduces(checkpoints: Seq<CheckpointRow>)
    ensures
        introduced_before_use(checkpoint_section(checkpoints)),
{
    broadcast use {
        lemma_knows_concat,
        lemma_knows_family,
        lemma_introduced_in_concat,
        lemma_introduced_in_sample,
        lemma_introduced_in_optional,
    };

    let first = family(
        families::CHECKPOINT_NEXT_BLOCK@,
        families::CHECKPOINT_NEXT_BLOCK_HELP@,
        families::GAUGE@,
    );
    let second = family(
        families::CHECKPOINT_UPDATED_TIMESTAMP_SECONDS@,
        families::CHECKPOINT_UPDATED_TIMESTAMP_SECONDS_HELP@,
        families::GAUGE@,
    );
    let third = family(
        families::CHECKPOINT_ROWS@,
        families::CHECKPOINT_ROWS_HELP@,
        families::GAUGE@,
    );
    let head = first + second;
    let lines = |checkpoint: CheckpointRow| checkpoint_lines(checkpoint);
    let bare = seq![
        Line::Bare { name: families::CHECKPOINT_ROWS@, value: decimal(checkpoints.len()) },
    ];
    lemma_use_in_turn(first, second);
    assert(knows(head, families::CHECKPOINT_NEXT_BLOCK@));
    assert(knows(head, families::CHECKPOINT_UPDATED_TIMESTAMP_SECONDS@));
    assert forall|checkpoint: CheckpointRow| introduced_in(head, #[trigger] lines(checkpoint)) by {
        assert(lines(checkpoint) == checkpoint_lines(checkpoint));
    }
    lemma_introduced_in_each(head, checkpoints, lines);
    lemma_use_what_is_introduced(head, lines_of_each(checkpoints, lines));
    lemma_use_in_turn(head + lines_of_each(checkpoints, lines), third);
    let most = head + lines_of_each(checkpoints, lines) + third;
    assert(knows(most, families::CHECKPOINT_ROWS@));
    assert(introduced_in(most, bare));
    lemma_use_what_is_introduced(most, bare);
}

proof fn lemma_scope_section_introduces(
    checkpoints: Seq<CheckpointRow>,
    scopes: Seq<ConfiguredScopeMetricsRow>,
)
    ensures
        introduced_before_use(scope_section(checkpoints, scopes)),
{
    broadcast use {
        lemma_knows_concat,
        lemma_knows_family,
        lemma_introduced_in_concat,
        lemma_introduced_in_sample,
    };

    let first = family(
        families::CONFIGURED_SCOPE_INFO@,
        families::CONFIGURED_SCOPE_INFO_HELP@,
        families::GAUGE@,
    );
    let second = family(
        families::CHECKPOINT_PRESENT@,
        families::CHECKPOINT_PRESENT_HELP@,
        families::GAUGE@,
    );
    let head = first + second;
    let lines = |scope: ConfiguredScopeMetricsRow| scope_lines(checkpoints, scope);
    let strays = |checkpoint: CheckpointRow| stray_lines(scopes, checkpoint);
    lemma_use_in_turn(first, second);
    assert(knows(head, families::CONFIGURED_SCOPE_INFO@));
    assert(knows(head, families::CHECKPOINT_PRESENT@));
    assert forall|scope: ConfiguredScopeMetricsRow| introduced_in(
        head,
        #[trigger] lines(scope),
    ) by {
        assert(lines(scope) == scope_lines(checkpoints, scope));
    }
    lemma_introduced_in_each(head, scopes, lines);
    lemma_use_what_is_introduced(head, lines_of_each(scopes, lines));
    let most = head + lines_of_each(scopes, lines);
    assert(knows(most, families::CHECKPOINT_PRESENT@));
    assert forall|checkpoint: CheckpointRow| introduced_in(
        most,
        #[trigger] strays(checkpoint),
    ) by {
        assert(strays(checkpoint) == stray_lines(scopes, checkpoint));
    }
    lemma_introduced_in_each(most, checkpoints, strays);
    lemma_use_what_is_introduced(most, lines_of_each(checkpoints, strays));
}

/// What introduces the families of the runtime rows.
spec fn runtime_head() -> Seq<Line> {
    observation_families() + total_families()
}

proof fn lemma_runtime_head_knows()
    ensures
        knows(runtime_head(), families::TARGET_BLOCK@),
        knows(runtime_head(), families::REMAINING_BLOCKS@),
        knows(runtime_head(), families::DATALENS_HEAD_HEIGHT@),
        knows(runtime_head(), families::DATALENS_HEAD_OBSERVED_TIMESTAMP_SECONDS@),
        knows(runtime_head(), families::DATALENS_HEAD_ADVANCED_TIMESTAMP_SECONDS@),
        knows(runtime_head(), families::CHAIN_LAST_SUCCESS_TIMESTAMP_SECONDS@),
        knows(runtime_head(), families::CHECKPOINT_LAST_FORWARD_ADVANCE_TIMESTAMP_SECONDS@),
        knows(runtime_head(), families::CONSECUTIVE_FAILURES@),
        knows(runtime_head(), families::CHAIN_PASSES_TOTAL@),
        knows(runtime_head(), families::RANGES_TOTAL@),
        knows(runtime_head(), families::BLOCKS_PROCESSED_TOTAL@),
        knows(runtime_head(), families::RECORDS_TOTAL@),
        knows(runtime_head(), families::BATCH_DURATION_SECONDS@),
        knows(runtime_head(), families::DATALENS_REQUESTS_TOTAL@),
        knows(runtime_head(), families::REORG_ROLLBACKS_TOTAL@),
        knows(runtime_head(), families::BATCH_DURATION_SECONDS_SUM@),
        knows(runtime_head(), families::BATCH_DURATION_SECONDS_COUNT@),
{
    broadcast use {lemma_knows_concat, lemma_knows_family};

    assert(families::BATCH_DURATION_SECONDS_SUM@ == families::BATCH_DURATION_SECONDS@ + "_sum"@)
        by {
        reveal_strlit("ormp_indexer_batch_duration_seconds_sum");
        reveal_strlit("ormp_indexer_batch_duration_seconds");
        reveal_strlit("_sum");
        assert(families::BATCH_DURATION_SECONDS_SUM@ =~= families::BATCH_DURATION_SECONDS@
            + "_sum"@);
    }
    assert(families::BATCH_DURATION_SECONDS_COUNT@ == families::BATCH_DURATION_SECONDS@
        + "_count"@) by {
        reveal_strlit("ormp_indexer_batch_duration_seconds_count");
        reveal_strlit("ormp_indexer_batch_duration_seconds");
        reveal_strlit("_count");
        assert(families::BATCH_DURATION_SECONDS_COUNT@ =~= families::BATCH_DURATION_SECONDS@
            + "_count"@);
    }
}

proof fn lemma_families_need_no_introduction()
    ensures
        introduced_before_use(runtime_head()),
{
    assert forall|i: int| 0 <= i < runtime_head().len() implies sample_name(
        #[trigger] runtime_head()[i],
    ) is None by {
    }
}

proof fn lemma_row_is_introduced(row: RuntimeMetricsRow<String>)
    ensures
        introduced_in(runtime_head(), row_lines(row)),
{
    broadcast use {
        lemma_introduced_in_concat,
        lemma_introduced_in_sample,
        lemma_introduced_in_optional,
    };

    lemma_runtime_head_knows();
    let head = runtime_head();
    assert(introduced_in(head, observation_lines(row)));
    assert(introduced_in(head, outcome_lines(row)));
    assert(introduced_in(head, throughput_lines(row)));
    assert(introduced_in(head, request_lines(row)));
}

proof fn lemma_runtime_section_introduces(rows: Seq<RuntimeMetricsRow<String>>)
    ensures
        introduced_before_use(runtime_section(rows)),
{
    let lines = |row: RuntimeMetricsRow<String>| row_lines(row);
    assert forall|row: RuntimeMetricsRow<String>| introduced_in(
        runtime_head(),
        #[trigger] lines(row),
    ) by {
        lemma_row_is_introduced(row);
    }
    lemma_introduced_in_each(runtime_head(), rows, lines);
    lemma_families_need_no_introduction();
    lemma_use_what_is_introduced(runtime_head(), lines_of_each(rows, lines));
}

proof fn lemma_table_section_introduces(row_counts: Seq<LegacyTableRowCount>)
    ensures
        introduced_before_use(table_section(row_counts)),
{
    broadcast use {lemma_knows_family, lemma_introduced_in_sample};

    let head = family(
        families::LEGACY_TABLE_ROWS@,
        families::LEGACY_TABLE_ROWS_HELP@,
        families::GAUGE@,
    );
    let lines = |table: &'static str| table_lines(row_counts, table);
    assert(knows(head, families::LEGACY_TABLE_ROWS@));
    assert forall|table: &'static str| introduced_in(head, #[trigger] lines(table)) by {
        assert(lines(table) == table_lines(row_counts, table));
    }
    lemma_introduced_in_each(head, LEGACY_TABLES@, lines);
    lemma_use_what_is_introduced(head, lines_of_each(LEGACY_TABLES@, lines));
}

/// Every sample that is exposed is of a metric whose family was introduced by a line before it.
pub proof fn lemma_samples_are_introduced(
    checkpoints: Seq<CheckpointRow>,
    row_counts: Seq<LegacyTableRowCount>,
    scopes: Seq<ConfiguredScopeMetricsRow>,
    rows: Seq<RuntimeMetricsRow<String>>,
)
    ensures
        introduced_before_use(exposition(checkpoints, row_counts, scopes, rows)),
{
    lemma_checkpoint_section_introduces(checkpoints);
    lemma_scope_section_introduces(checkpoints, scopes);
    lemma_runtime_section_introduces(rows);
    lemma_table_section_introduces(row_counts);
    let a = checkpoint_section(checkpoints);
    let b = scope_section(checkpoints, scopes);
    let c = runtime_section(rows);
    lemma_use_in_turn(a, b);
    lemma_use_in_turn(a + b, c);
    lemma_use_in_turn(a + b + c, table_section(row_counts));
}

/// No line gives a sample of the metric.
spec fn avoids(lines: Seq<Line>, name: Seq<char>) -> bool {
    forall|i: int| 0 <= i < lines.len() ==> sample_name(#[trigger] lines[i]) != Some(name)
}

broadcast proof fn lemma_avoids_concat(a: Seq<Line>, b: Seq<Line>, name: Seq<char>)
    requires
        avoids(a, name),
        avoids(b, name),
    ensures
        #[trigger] avoids(a + b, name),
{
    assert forall|i: int| 0 <= i < (a + b).len() implies sample_name(#[trigger] (a + b)[i])
        != Some(name) by {
        if i < a.len() {
            assert((a + b)[i] == a[i]);
        } else {
            assert((a + b)[i] == b[i - a.len()]);
        }
    }
}

broadcast proof fn lemma_avoids_family(
    own: Seq<char>,
    help: Seq<char>,
    kind: Seq<char>,
    name: Seq<char>,
)
    ensures
        #[trigger] avoids(family(own, help, kind), name),
{
}

proof fn lemma_avoids_each<T>(items: Seq<T>, lines: spec_fn(T) -> Seq<Line>, name: Seq<char>)
    requires
        forall|item: T| avoids(#[trigger] lines(item), name),
    ensures
        avoids(lines_of_each(items, lines), name),
    decreases items.len(),
{
    if items.len() > 0 {
        lemma_avoids_each(items.drop_last(), lines, name);
        lemma_avoids_concat(lines_of_each(items.drop_last(), lines), lines(items.last()), name);
    }
}

proof fn lemma_presence_is_in_its_section(
    checkpoints: Seq<CheckpointRow>,
    row_counts: Seq<LegacyTableRowCount>,
    scopes: Seq<ConfiguredScopeMetricsRow>,
    rows: Seq<RuntimeMetricsRow<String>>,
    line: Line,
)
    requires
        exposition(checkpoints, row_counts, scopes, rows).contains(line),
        sample_name(line) == Some(families::CHECKPOINT_PRESENT@),
    ensures
        scope_section(checkpoints, scopes).contains(line),
{
    broadcast use {lemma_avoids_concat, lemma_avoids_family};

    let name = families::CHECKPOINT_PRESENT@;
    families::lemma_names_are_told_apart();
    let a = checkpoint_section(checkpoints);
    let b = scope_section(checkpoints, scopes);
    let c = runtime_section(rows);
    let d = table_section(row_counts);
    assert(avoids(a, name)) by {
        let lines = |checkpoint: CheckpointRow| checkpoint_lines(checkpoint);
        assert forall|checkpoint: CheckpointRow| avoids(#[trigger] lines(checkpoint), name) by {
            assert(lines(checkpoint) == checkpoint_lines(checkpoint));
        }
        lemma_avoids_each(checkpoints, lines, name);
    }
    assert(avoids(c, name)) by {
        lemma_runtime_head_avoids_presence();
        let lines = |row: RuntimeMetricsRow<String>| row_lines(row);
        assert forall|row: RuntimeMetricsRow<String>| avoids(#[trigger] lines(row), name) by {
            lemma_row_is_introduced(row);
        }
        lemma_avoids_each(rows, lines, name);
        assert(avoids(runtime_head(), name)) by {
            assert(avoids(observation_families(), name));
            assert(avoids(total_families(), name));
        }
    }
    assert(avoids(d, name)) by {
        let lines = |table: &'static str| table_lines(row_counts, table);
        assert forall|table: &'static str| avoids(#[trigger] lines(table), name) by {
            assert(lines(table) == table_lines(row_counts, table));
        }
        lemma_avoids_each(LEGACY_TABLES@, lines, name);
    }
    let all = a + b + c + d;
    let i = choose|i: int| 0 <= i < all.len() && all[i] == line;
    if i < a.len() {
        assert(all[i] == a[i]);
    } else if i < a.len() + b.len() {
        assert(all[i] == b[i - a.len()]);
    } else if i < a.len() + b.len() + c.len() {
        assert(all[i] == c[i - a.len() - b.len()]);
    } else {
        assert(all[i] == d[i - a.len() - b.len() - c.len()]);
    }
}

proof fn lemma_runtime_head_avoids_presence()
    ensures
        !knows(runtime_head(), families::CHECKPOINT_PRESENT@),
{
    broadcast use {lemma_knows_concat, lemma_knows_family};

    families::lemma_names_are_told_apart();
    assert(families::BATCH_DURATION_SECONDS@ + "_sum"@ != families::CHECKPOINT_PRESENT@) by {
        reveal_strlit("ormp_indexer_batch_duration_seconds");
        reveal_strlit("ormp_indexer_checkpoint_present");
        reveal_strlit("_sum");
        assert((families::BATCH_DURATION_SECONDS@ + "_sum"@).len()
            != families::CHECKPOINT_PRESENT@.len());
    }
    assert(families::BATCH_DURATION_SECONDS@ + "_count"@ != families::CHECKPOINT_PRESENT@) by {
        reveal_strlit("ormp_indexer_batch_duration_seconds");
        reveal_strlit("ormp_indexer_checkpoint_present");
        reveal_strlit("_count");
        assert((families::BATCH_DURATION_SECONDS@ + "_count"@).len()
            != families::CHECKPOINT_PRESENT@.len());
    }
    assert(families::GAUGE@ != families::SUMMARY@) by {
        reveal_strlit("gauge");
        reveal_strlit("summary");
        assert(families::GAUGE@.len() != families::SUMMARY@.len());
    }
    assert(families::COUNTER@ != families::SUMMARY@) by {
        reveal_strlit("counter");
        reveal_strlit("summary");
        assert(families::COUNTER@[0] != families::SUMMARY@[0]);
    }
}

/// Some checkpoint has the labels.
pub open spec fn some_checkpoint_has(
    checkpoints: Seq<CheckpointRow>,
    labels: Seq<Label>,
) -> bool {
    exists|i: int|
        0 <= i < checkpoints.len() && scope_labels(
            (#[trigger] checkpoints[i]).chain_id@,
            checkpoints[i].dataset@,
        ) == labels
}

/// A line of some item is among the lines of all.
proof fn lemma_each_holds<T>(
    items: Seq<T>,
    lines: spec_fn(T) -> Seq<Line>,
    i: int,
    line: Line,
)
    requires
        0 <= i < items.len(),
        lines(items[i]).contains(line),
    ensures
        lines_of_each(items, lines).contains(line),
    decreases items.len(),
{
    let before = lines_of_each(items.drop_last(), lines);
    let last = lines(items.last());
    if i == items.len() - 1 {
        let j = choose|j: int| 0 <= j < last.len() && last[j] == line;
        assert((before + last)[before.len() + j] == line);
    } else {
        lemma_each_holds(items.drop_last(), lines, i, line);
        let j = choose|j: int| 0 <= j < before.len() && before[j] == line;
        assert((before + last)[j] == line);
    }
}

/// A line among the lines of all items is a line of some item.
proof fn lemma_each_comes_from<T>(items: Seq<T>, lines: spec_fn(T) -> Seq<Line>, line: Line) -> (i:
    int)
    requires
        lines_of_each(items, lines).contains(line),
    ensures
        0 <= i < items.len(),
        lines(items[i]).contains(line),
    decreases items.len(),
{
    let before = lines_of_each(items.drop_last(), lines);
    let last = lines(items.last());
    let j = choose|j: int| 0 <= j < (before + last).len() && (before + last)[j] == line;
    if j < before.len() {
        assert(before[j] == line);
        lemma_each_comes_from(items.drop_last(), lines, line)
    } else {
        assert(last[j - before.len()] == line);
        items.len() - 1
    }
}

/// Two scopes with the same labels have the same chain and the same dataset.
pub proof fn lemma_scope_labels_are_injective(
    chain_id: Seq<char>,
    dataset: Seq<char>,
    other_chain_id: Seq<char>,
    other_dataset: Seq<char>,
)
    requires
        scope_labels(chain_id, dataset) == scope_labels(other_chain_id, other_dataset),
    ensures
        chain_id == other_chain_id,
        dataset == other_dataset,
{
    assert(scope_labels(chain_id, dataset)[0] == scope_labels(other_chain_id, other_dataset)[0]);
    assert(scope_labels(chain_id, dataset)[1] == scope_labels(other_chain_id, other_dataset)[1]);
}

/// What is exposed of the presence of a checkpoint is right: it is `1` where some checkpoint has
/// the labels of the sample, and `0` where none has.
pub proof fn lemma_presence_is_right(
    checkpoints: Seq<CheckpointRow>,
    row_counts: Seq<LegacyTableRowCount>,
    scopes: Seq<ConfiguredScopeMetricsRow>,
    rows: Seq<RuntimeMetricsRow<String>>,
    labels: Seq<Label>,
    value: Seq<char>,
)
    requires
        exposition(checkpoints, row_counts, scopes, rows).contains(
            Line::Sample { name: families::CHECKPOINT_PRESENT@, labels, value },
        ),
    ensures
        value == (if some_checkpoint_has(checkpoints, labels) {
            "1"@
        } else {
            "0"@
        }),
{
    let line = Line::Sample { name: families::CHECKPOINT_PRESENT@, labels, value };
    lemma_presence_is_in_its_section(checkpoints, row_counts, scopes, rows, line);
    families::lemma_names_are_told_apart();
    let head = family(
        families::CONFIGURED_SCOPE_INFO@,
        families::CONFIGURED_SCOPE_INFO_HELP@,
        families::GAUGE@,
    )
        + family(
        families::CHECKPOINT_PRESENT@,
        families::CHECKPOINT_PRESENT_HELP@,
        families::GAUGE@,
    );
    let lines = |scope: ConfiguredScopeMetricsRow| scope_lines(checkpoints, scope);
    let strays = |checkpoint: CheckpointRow| stray_lines(scopes, checkpoint);
    let a = lines_of_each(scopes, lines);
    let b = lines_of_each(checkpoints, strays);
    let all = head + a + b;
    let i = choose|i: int| 0 <= i < all.len() && all[i] == line;
    if i < head.len() {
        assert(all[i] == head[i]);
    } else if i < head.len() + a.len() {
        assert(a[i - head.len()] == line);
        let j = lemma_each_comes_from(scopes, lines, line);
        let scope = scopes[j];
        assert(labels == scope_labels(decimal(scope.chain_id as nat), scope.dataset@));
        if some_checkpoint_has(checkpoints, labels) {
            let k = choose|k: int|
                0 <= k < checkpoints.len() && scope_labels(
                    (#[trigger] checkpoints[k]).chain_id@,
                    checkpoints[k].dataset@,
                ) == labels;
            lemma_scope_labels_are_injective(
                checkpoints[k].chain_id@,
                checkpoints[k].dataset@,
                decimal(scope.chain_id as nat),
                scope.dataset@,
            );
            assert(belongs_to(checkpoints[k], scope));
        }
        if is_checkpointed(checkpoints, scope) {
            let k = choose|k: int|
                0 <= k < checkpoints.len() && belongs_to(#[trigger] checkpoints[k], scope);
            assert(scope_labels(checkpoints[k].chain_id@, checkpoints[k].dataset@) == labels);
        }
    } else {
        assert(b[i - head.len() - a.len()] == line);
        let k = lemma_each_comes_from(checkpoints, strays, line);
        assert(scope_labels(checkpoints[k].chain_id@, checkpoints[k].dataset@) == labels);
    }
}

/// A line of a section is a line of the whole.
proof fn lemma_section_is_exposed(
    checkpoints: Seq<CheckpointRow>,
    row_counts: Seq<LegacyTableRowCount>,
    scopes: Seq<ConfiguredScopeMetricsRow>,
    rows: Seq<RuntimeMetricsRow<String>>,
    line: Line,
)
    requires
        scope_section(checkpoints, scopes).contains(line),
    ensures
        exposition(checkpoints, row_counts, scopes, rows).contains(line),
{
    let a = checkpoint_section(checkpoints);
    let b = scope_section(checkpoints, scopes);
    let i = choose|i: int| 0 <= i < b.len() && b[i] == line;
    assert(exposition(checkpoints, row_counts, scopes, rows)[a.len() + i] == line);
}

/// Every configured scope has a sample of its configuration, and one that tells whether it has a
/// checkpoint.
pub proof fn lemma_every_scope_is_exposed(
    checkpoints: Seq<CheckpointRow>,
    row_counts: Seq<LegacyTableRowCount>,
    scopes: Seq<ConfiguredScopeMetricsRow>,
    rows: Seq<RuntimeMetricsRow<String>>,
    j: int,
)
    requires
        0 <= j < scopes.len(),
    ensures
        exposition(checkpoints, row_counts, scopes, rows).contains(
            Line::Sample {
                name: families::CONFIGURED_SCOPE_INFO@,
                labels: scope_info_labels(scopes[j]),
                value: "1"@,
            },
        ),
        exposition(checkpoints, row_counts, scopes, rows).contains(
            Line::Sample {
                name: families::CHECKPOINT_PRESENT@,
                labels: scope_labels(decimal(scopes[j].chain_id as nat), scopes[j].dataset@),
                value: if is_checkpointed(checkpoints, scopes[j]) {
                    "1"@
                } else {
                    "0"@
                },
            },
        ),
{
    let lines = |scope: ConfiguredScopeMetricsRow| scope_lines(checkpoints, scope);
    let own = lines(scopes[j]);
    assert(own.len() == 2);
    assert(own.contains(own[0]) && own.contains(own[1]));
    lemma_each_holds(scopes, lines, j, own[0]);
    lemma_each_holds(scopes, lines, j, own[1]);
    lemma_scope_part_is_exposed(checkpoints, row_counts, scopes, rows, own[0]);
    lemma_scope_part_is_exposed(checkpoints, row_counts, scopes, rows, own[1]);
}

proof fn lemma_scope_part_is_exposed(
    checkpoints: Seq<CheckpointRow>,
    row_counts: Seq<LegacyTableRowCount>,
    scopes: Seq<ConfiguredScopeMetricsRow>,
    rows: Seq<RuntimeMetricsRow<String>>,
    line: Line,
)
    requires
        lines_of_each(
            scopes,
            |scope: ConfiguredScopeMetricsRow| scope_lines(checkpoints, scope),
        ).contains(line) || lines_of_each(
            checkpoints,
            |checkpoint: CheckpointRow| stray_lines(scopes, checkpoint),
        ).contains(line),
    ensures
        exposition(checkpoints, row_counts, scopes, rows).contains(line),
{
    let head = family(
        families::CONFIGURED_SCOPE_INFO@,
        families::CONFIGURED_SCOPE_INFO_HELP@,
        families::GAUGE@,
    )
        + family(
        families::CHECKPOINT_PRESENT@,
        families::CHECKPOINT_PRESENT_HELP@,
        families::GAUGE@,
    );
    let a = lines_of_each(
        scopes,
        |scope: ConfiguredScopeMetricsRow| scope_lines(checkpoints, scope),
    );
    let b = lines_of_each(
        checkpoints,
        |checkpoint: CheckpointRow| stray_lines(scopes, checkpoint),
    );
    let section = scope_section(checkpoints, scopes);
    assert(section == head + a + b);
    if a.contains(line) {
        let i = choose|i: int| 0 <= i < a.len() && a[i] == line;
        assert(section[head.len() + i] == line);
    } else {
        let i = choose|i: int| 0 <= i < b.len() && b[i] == line;
        assert(section[head.len() + a.len() + i] == line);
    }
    lemma_section_is_exposed(checkpoints, row_counts, scopes, rows, line);
}

/// Every checkpoint is exposed as present, whether it belongs to a configured scope or not.
pub proof fn lemma_every_checkpoint_is_present(
    checkpoints: Seq<CheckpointRow>,
    row_counts: Seq<LegacyTableRowCount>,
    scopes: Seq<ConfiguredScopeMetricsRow>,
    rows: Seq<RuntimeMetricsRow<String>>,
    i: int,
)
    requires
        0 <= i < checkpoints.len(),
    ensures
        exposition(checkpoints, row_counts, scopes, rows).contains(
            Line::Sample {
                name: families::CHECKPOINT_PRESENT@,
                labels: scope_labels(checkpoints[i].chain_id@, checkpoints[i].dataset@),
                value: "1"@,
            },
        ),
{
    let checkpoint = checkpoints[i];
    let line = Line::Sample {
        name: families::CHECKPOINT_PRESENT@,
        labels: scope_labels(checkpoint.chain_id@, checkpoint.dataset@),
        value: "1"@,
    };
    if is_configured(scopes, checkpoint) {
        let j = choose|j: int|
            0 <= j < scopes.len() && belongs_to(checkpoint, #[trigger] scopes[j]);
        assert(is_checkpointed(checkpoints, scopes[j])) by {
            assert(belongs_to(checkpoints[i], scopes[j]));
        }
        lemma_every_scope_is_exposed(checkpoints, row_counts, scopes, rows, j);
    } else {
        let strays = |checkpoint: CheckpointRow| stray_lines(scopes, checkpoint);
        let own = strays(checkpoint);
        assert(own[0] == line);
        lemma_each_holds(checkpoints, strays, i, line);
        lemma_scope_part_is_exposed(checkpoints, row_counts, scopes, rows, line);
    }
}

/// Every runtime row is exposed with all of its samples.
pub proof fn lemma_every_row_is_exposed(
    checkpoints: Seq<CheckpointRow>,
    row_counts: Seq<LegacyTableRowCount>,
    scopes: Seq<ConfiguredScopeMetricsRow>,
    rows: Seq<RuntimeMetricsRow<String>>,
    i: int,
)
    requires
        0 <= i < rows.len(),
    ensures
        forall|line: Line| #[trigger]
            row_lines(rows[i]).contains(line) ==> exposition(
                checkpoints,
                row_counts,
                scopes,
                rows,
            ).contains(line),
{
    let lines = |row: RuntimeMetricsRow<String>| row_lines(row);
    let start = checkpoint_section(checkpoints) + scope_section(checkpoints, scopes);
    let head = observation_families() + total_families();
    let each = lines_of_each(rows, lines);
    assert forall|line: Line| #[trigger] row_lines(rows[i]).contains(line) implies exposition(
        checkpoints,
        row_counts,
        scopes,
        rows,
    ).contains(line) by {
        lemma_each_holds(rows, lines, i, line);
        let k = choose|k: int| 0 <= k < each.len() && each[k] == line;
        assert(runtime_section(rows)[head.len() + k] == line);
        assert(exposition(checkpoints, row_counts, scopes, rows)[start.len() + head.len() + k]
            == line);
    }
}

/// Different rows of a listing carry different scope labels, so that no two of them can expose
/// the same series.
pub proof fn lemma_scopes_carry_different_labels<R: Scoped>(listing: Seq<R>, i: int, j: int)
    requires
        ascending(listing),
        0 <= i < j < listing.len(),
    ensures
        scope_labels(decimal(listing[i].key().chain_id as nat), listing[i].key().dataset)
            != scope_labels(decimal(listing[j].key().chain_id as nat), listing[j].key().dataset),
{
    let a = listing[i].key();
    let b = listing[j].key();
    lemma_scope_order_is_asymmetric(a, b);
    if scope_labels(decimal(a.chain_id as nat), a.dataset) == scope_labels(
        decimal(b.chain_id as nat),
        b.dataset,
    ) {
        lemma_scope_labels_are_injective(
            decimal(a.chain_id as nat),
            a.dataset,
            decimal(b.chain_id as nat),
            b.dataset,
        );
        lemma_decimal_is_injective(a.chain_id as nat, b.chain_id as nat);
        assert(a == b);
    }
}

/// The lines of items that have one line each.
proof fn lemma_each_has_one<T>(items: Seq<T>, lines: spec_fn(T) -> Seq<Line>)
    requires
        forall|item: T| (#[trigger] lines(item)).len() == 1,
    ensures
        lines_of_each(items, lines).len() == items.len(),
        forall|i: int|
            0 <= i < items.len() ==> #[trigger] lines_of_each(items, lines)[i] == lines(
                items[i],
            )[0],
    decreases items.len(),
{
    if items.len() > 0 {
        lemma_each_has_one(items.drop_last(), lines);
    }
}

/// The tables are exposed in their order, each with one sample: the count that is given for it,
/// or zero.
pub proof fn lemma_every_table_is_exposed(row_counts: Seq<LegacyTableRowCount>, t: int)
    requires
        0 <= t < LEGACY_TABLES@.len(),
    ensures
        table_section(row_counts).len() == 2 + LEGACY_TABLES@.len(),
        table_section(row_counts)[2 + t] == (Line::Sample {
            name: families::LEGACY_TABLE_ROWS@,
            labels: seq![("table"@, LEGACY_TABLES@[t]@)],
            value: crate::decimal::signed_decimal(table_count(row_counts, LEGACY_TABLES@[t]@)),
        }),
{
    let lines = |table: &'static str| table_lines(row_counts, table);
    lemma_each_has_one(LEGACY_TABLES@, lines);
}

/// Where no table is given two counts, the count of a table is the one that is given for it,
/// wherever it stands.
pub proof fn lemma_count_is_found_by_name(row_counts: Seq<LegacyTableRowCount>, i: int)
    requires
        0 <= i < row_counts.len(),
        forall|j: int, k: int|
            0 <= j < k < row_counts.len() ==> (#[trigger] row_counts[j]).table_name@ != (
            #[trigger] row_counts[k]).table_name@,
    ensures
        table_count(row_counts, row_counts[i].table_name@) == row_counts[i].row_count,
    decreases row_counts.len(),
{
    if i > 0 {
        assert(row_counts[0].table_name@ != row_counts[i].table_name@);
        assert(row_counts.drop_first()[i - 1] == row_counts[i]);
        lemma_count_is_found_by_name(row_counts.drop_first(), i - 1);
    }
}

/// A table for which no count is given counts zero rows.
pub proof fn lemma_missing_count_is_zero(
    row_counts: Seq<LegacyTableRowCount>,
    table: Seq<char>,
)
    requires
        forall|i: int|
            0 <= i < row_counts.len() ==> (#[trigger] row_counts[i]).table_name@ != table,
    ensures
        table_count(row_counts, table) == 0,
    decreases row_counts.len(),
{
    if row_counts.len() > 0 {
        lemma_missing_count_is_zero(row_counts.drop_first(), table);
    }
}

} // verus!
