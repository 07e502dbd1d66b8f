//! No series is exposed twice: no two samples have the same name and the same labels.
use crate::decimal::decimal;
use crate::exposition::{family, lines_of_each, optional_sample, sample, Label, Line};
use crate::families;
use crate::labels::{
    scope_labels, scope_operation_labels, scope_result_labels, scope_stage_labels,
};
use crate::metrics::{ConfiguredScopeMetricsRow, RuntimeMetricsRow};
use crate::ops::{
    belongs_to, checkpoint_lines, checkpoint_section, exposition, is_configured,
    scope_info_labels, scope_lines, scope_section, stray_lines, table_lines, table_section,
    CheckpointRow, LegacyTableRowCount, LEGACY_TABLES,
};
use crate::report_laws::{
    lemma_scope_labels_are_injective, lemma_scopes_carry_different_labels, sample_name,
};
use crate::runtime_report::{
    observation_families, observation_lines, outcome_lines, rendered_rows, request_lines, row_lines,
    runtime_section, throughput_lines, total_families,
};
use crate::scope::{ascending, Scoped};
use vstd::prelude::*;

verus! {

/// What identifies a series.
pub struct Series {
    pub name: Seq<char>,
    pub labels: Seq<Label>,
}

/// The series of which the line gives a sample, where it gives one.
pub open spec fn series(line: Line) -> Option<Series> {
    match line {
        Line::Sample { name, labels, .. } => Some(Series { name, labels }),
        Line::Bare { name, .. } => Some(Series { name, labels: seq![] }),
        _ => None,
    }
}

/// No two lines give samples of the same series.
pub open spec fn series_are_distinct(lines: Seq<Line>) -> bool {
    forall|i: int, j: int|
        0 <= i < j < lines.len() && series(#[trigger] lines[i]) is Some ==> series(lines[i])
            != series(#[trigger] lines[j])
}

/// No line of `a` gives a sample of a series of which a line of `b` gives one.
spec fn apart(a: Seq<Line>, b: Seq<Line>) -> bool {
    forall|i: int, j: int|
        0 <= i < a.len() && 0 <= j < b.len() && series(#[trigger] a[i]) is Some ==> series(a[i])
            != series(#[trigger] b[j])
}

/// All samples among the lines are of metrics with one of the names.
pub open spec fn named(lines: Seq<Line>, names: Set<Seq<char>>) -> bool {
    forall|i: int|
        0 <= i < lines.len() ==> (sample_name(#[trigger] lines[i]) matches Some(name)
            ==> names.contains(name))
}

/// All samples among the lines carry labels that begin with the given ones.
pub open spec fn labelled(lines: Seq<Line>, labels: Seq<Label>) -> bool {
    forall|i: int|
        0 <= i < lines.len() ==> (series(#[trigger] lines[i]) matches Some(own)
            ==> own.labels.take(labels.len() as int) == labels)
}

broadcast proof fn lemma_distinct_concat(a: Seq<Line>, b: Seq<Line>)
    requires
        series_are_distinct(a),
        series_are_distinct(b),
        apart(a, b),
    ensures
        #[trigger] series_are_distinct(a + b),
{
    let all = a + b;
    assert forall|i: int, j: int|
        0 <= i < j < all.len() && series(#[trigger] all[i]) is Some implies series(all[i])
        != series(#[trigger] all[j]) by {
        if j < a.len() {
            assert(all[i] == a[i] && all[j] == a[j]);
        } else if i < a.len() {
            assert(all[i] == a[i] && all[j] == b[j - a.len()]);
        } else {
            assert(all[i] == b[i - a.len()] && all[j] == b[j - a.len()]);
        }
    }
}

broadcast proof fn lemma_apart_from_concat(a: Seq<Line>, b: Seq<Line>, c: Seq<Line>)
    requires
        apart(a, b),
        apart(a, c),
    ensures
        #[trigger] apart(a, b + c),
{
    let all = b + c;
    assert forall|i: int, j: int|
        0 <= i < a.len() && 0 <= j < all.len() && series(#[trigger] a[i]) is Some implies series(
        a[i],
    ) != series(#[trigger] all[j]) by {
        if j < b.len() {
            assert(all[j] == b[j]);
        } else {
            assert(all[j] == c[j - b.len()]);
        }
    }
}

broadcast proof fn lemma_concat_is_apart(a: Seq<Line>, b: Seq<Line>, c: Seq<Line>)
    requires
        apart(a, c),
        apart(b, c),
    ensures
        #[trigger] apart(a + b, c),
{
    let all = a + b;
    assert forall|i: int, j: int|
        0 <= i < all.len() && 0 <= j < c.len() && series(#[trigger] all[i]) is Some implies series(
        all[i],
    ) != series(#[trigger] c[j]) by {
        if i < a.len() {
            assert(all[i] == a[i]);
        } else {
            assert(all[i] == b[i - a.len()]);
        }
    }
}

broadcast proof fn lemma_named_concat(a: Seq<Line>, b: Seq<Line>, names: Set<Seq<char>>)
    requires
        named(a, names),
        named(b, names),
    ensures
        #[trigger] named(a + b, names),
{
    let all = a + b;
    assert forall|i: int| 0 <= i < all.len() implies (sample_name(
        #[trigger] all[i],
    ) matches Some(name) ==> names.contains(name)) by {
        if i < a.len() {
            assert(all[i] == a[i]);
        } else {
            assert(all[i] == b[i - a.len()]);
        }
    }
}

broadcast proof fn lemma_labelled_concat(a: Seq<Line>, b: Seq<Line>, labels: Seq<Label>)
    requires
        labelled(a, labels),
        labelled(b, labels),
    ensures
        #[trigger] labelled(a + b, labels),
{
    let all = a + b;
    assert forall|i: int| 0 <= i < all.len() implies (series(#[trigger] all[i]) matches Some(own)
        ==> own.labels.take(labels.len() as int) == labels) by {
        if i < a.len() {
            assert(all[i] == a[i]);
        } else {
            assert(all[i] == b[i - a.len()]);
        }
    }
}

/// Lines that introduce families give no samples.
spec fn introduces_only(lines: Seq<Line>) -> bool {
    forall|i: int| 0 <= i < lines.len() ==> series(#[trigger] lines[i]) is None
}

broadcast proof fn lemma_introduces_only_concat(a: Seq<Line>, b: Seq<Line>)
    requires
        introduces_only(a),
        introduces_only(b),
    ensures
        #[trigger] introduces_only(a + b),
{
    let all = a + b;
    assert forall|i: int| 0 <= i < all.len() implies series(#[trigger] all[i]) is None by {
        if i < a.len() {
            assert(all[i] == a[i]);
        } else {
            assert(all[i] == b[i - a.len()]);
        }
    }
}

broadcast proof fn lemma_family_introduces_only(
    name: Seq<char>,
    help: Seq<char>,
    kind: Seq<char>,
)
    ensures
        #[trigger] introduces_only(family(name, help, kind)),
{
}

/// Lines without samples change nothing.
proof fn lemma_introductions_are_neutral(head: Seq<Line>, lines: Seq<Line>, names: Set<Seq<char>>)
    requires
        introduces_only(head),
    ensures
        apart(head, lines),
        apart(lines, head),
        named(head, names),
        series_are_distinct(head),
{
}

/// Samples of differently named metrics are of different series.
proof fn lemma_named_differently(
    a: Seq<Line>,
    b: Seq<Line>,
    names: Set<Seq<char>>,
    other_names: Set<Seq<char>>,
)
    requires
        named(a, names),
        named(b, other_names),
        names.disjoint(other_names),
    ensures
        apart(a, b),
{
    assert forall|i: int, j: int|
        0 <= i < a.len() && 0 <= j < b.len() && series(#[trigger] a[i]) is Some implies series(a[i])
        != series(#[trigger] b[j]) by {
        assert(sample_name(a[i]) == Some(series(a[i]).unwrap().name));
        if series(b[j]) is Some {
            assert(sample_name(b[j]) == Some(series(b[j]).unwrap().name));
            assert(names.contains(series(a[i]).unwrap().name));
            assert(other_names.contains(series(b[j]).unwrap().name));
        }
    }
}

/// Samples whose labels begin differently are of different series.
proof fn lemma_labelled_differently(
    a: Seq<Line>,
    b: Seq<Line>,
    labels: Seq<Label>,
    other_labels: Seq<Label>,
)
    requires
        labelled(a, labels),
        labelled(b, other_labels),
        labels.len() == other_labels.len(),
        labels != other_labels,
    ensures
        apart(a, b),
{
    assert forall|i: int, j: int|
        0 <= i < a.len() && 0 <= j < b.len() && series(#[trigger] a[i]) is Some implies series(a[i])
        != series(#[trigger] b[j]) by {
        if series(b[j]) == series(a[i]) {
            assert(series(a[i]).unwrap().labels.take(labels.len() as int) == labels);
            assert(series(b[j]).unwrap().labels.take(labels.len() as int) == other_labels);
        }
    }
}

proof fn lemma_each_is_named<T>(
    items: Seq<T>,
    lines: spec_fn(T) -> Seq<Line>,
    names: Set<Seq<char>>,
)
    requires
        forall|item: T| named(#[trigger] lines(item), names),
    ensures
        named(lines_of_each(items, lines), names),
    decreases items.len(),
{
    if items.len() > 0 {
        lemma_each_is_named(items.drop_last(), lines, names);
        lemma_named_concat(lines_of_each(items.drop_last(), lines), lines(items.last()), names);
    }
}

/// The lines of items that are all apart from some lines are apart from these.
proof fn lemma_each_is_apart<T>(items: Seq<T>, lines: spec_fn(T) -> Seq<Line>, others: Seq<Line>)
    requires
        forall|i: int| 0 <= i < items.len() ==> apart(lines(#[trigger] items[i]), others),
    ensures
        apart(lines_of_each(items, lines), others),
    decreases items.len(),
{
    if items.len() > 0 {
        let shorter = items.drop_last();
        assert forall|i: int| 0 <= i < shorter.len() implies apart(
            lines(#[trigger] shorter[i]),
            others,
        ) by {
            assert(shorter[i] == items[i]);
        }
        lemma_each_is_apart(shorter, lines, others);
        assert(items.last() == items[items.len() - 1]);
        lemma_concat_is_apart(lines_of_each(shorter, lines), lines(items.last()), others);
    }
}

/// Lines that are apart from those of every item are apart from those of all.
proof fn lemma_apart_from_each<T>(others: Seq<Line>, items: Seq<T>, lines: spec_fn(T) -> Seq<Line>)
    requires
        forall|i: int| 0 <= i < items.len() ==> apart(others, lines(#[trigger] items[i])),
    ensures
        apart(others, lines_of_each(items, lines)),
    decreases items.len(),
{
    if items.len() > 0 {
        let shorter = items.drop_last();
        assert forall|i: int| 0 <= i < shorter.len() implies apart(
            others,
            lines(#[trigger] shorter[i]),
        ) by {
            assert(shorter[i] == items[i]);
        }
        lemma_apart_from_each(others, shorter, lines);
        assert(items.last() == items[items.len() - 1]);
        lemma_apart_from_concat(others, lines_of_each(shorter, lines), lines(items.last()));
    }
}

/// The lines of items that are each distinct, and apart from each other, are distinct.
proof fn lemma_each_is_distinct<T>(items: Seq<T>, lines: spec_fn(T) -> Seq<Line>)
    requires
        forall|item: T| series_are_distinct(#[trigger] lines(item)),
        forall|i: int, j: int|
            0 <= i < j < items.len() ==> apart(
                lines(#[trigger] items[i]),
                lines(#[trigger] items[j]),
            ),
    ensures
        series_are_distinct(lines_of_each(items, lines)),
    decreases items.len(),
{
    if items.len() > 0 {
        let shorter = items.drop_last();
        let end = items.len() - 1;
        assert forall|i: int, j: int| 0 <= i < j < shorter.len() implies apart(
            lines(#[trigger] shorter[i]),
            lines(#[trigger] shorter[j]),
        ) by {
            assert(apart(lines(items[i]), lines(items[j])));
        }
        lemma_each_is_distinct(shorter, lines);
        assert forall|i: int| 0 <= i < shorter.len() implies apart(
            lines(#[trigger] shorter[i]),
            lines(items[end]),
        ) by {
            assert(apart(lines(items[i]), lines(items[end])));
        }
        lemma_each_is_apart(shorter, lines, lines(items[end]));
        lemma_distinct_concat(lines_of_each(shorter, lines), lines(items[end]));
    }
}

/// The names of the metrics of the checkpoints.
spec fn checkpoint_names() -> Set<Seq<char>> {
    set![
        families::CHECKPOINT_NEXT_BLOCK@,
        families::CHECKPOINT_UPDATED_TIMESTAMP_SECONDS@,
        families::CHECKPOINT_ROWS@,
    ]
}

/// The names of the metrics of the configured scopes.
spec fn scope_names() -> Set<Seq<char>> {
    set![
        families::CONFIGURED_SCOPE_INFO@,
        families::CHECKPOINT_PRESENT@,
    ]
}

/// The names of the metrics of what was last observed.
pub open spec fn observation_names() -> Set<Seq<char>> {
    set![
        families::TARGET_BLOCK@,
        families::REMAINING_BLOCKS@,
        families::DATALENS_HEAD_HEIGHT@,
        families::DATALENS_HEAD_OBSERVED_TIMESTAMP_SECONDS@,
        families::DATALENS_HEAD_ADVANCED_TIMESTAMP_SECONDS@,
        families::CHAIN_LAST_SUCCESS_TIMESTAMP_SECONDS@,
        families::CHECKPOINT_LAST_FORWARD_ADVANCE_TIMESTAMP_SECONDS@,
    ]
}

/// The names of the metrics of how passes and ranges ended.
pub open spec fn outcome_names() -> Set<Seq<char>> {
    set![
        families::CONSECUTIVE_FAILURES@,
        families::CHAIN_PASSES_TOTAL@,
        families::RANGES_TOTAL@,
    ]
}

/// The names of the metrics of how much was processed.
pub open spec fn throughput_names() -> Set<Seq<char>> {
    set![
        families::BLOCKS_PROCESSED_TOTAL@,
        families::RECORDS_TOTAL@,
        families::BATCH_DURATION_SECONDS_SUM@,
        families::BATCH_DURATION_SECONDS_COUNT@,
    ]
}

/// The name of the metric of requests.
pub open spec fn request_names() -> Set<Seq<char>> {
    set![
        families::DATALENS_REQUESTS_TOTAL@,
    ]
}

/// The name of the metric of rollbacks.
pub open spec fn rollback_names() -> Set<Seq<char>> {
    set![
        families::REORG_ROLLBACKS_TOTAL@,
    ]
}

/// The names of the metrics of the runtime rows.
pub open spec fn runtime_names() -> Set<Seq<char>> {
    set![
        families::TARGET_BLOCK@,
        families::REMAINING_BLOCKS@,
        families::DATALENS_HEAD_HEIGHT@,
        families::DATALENS_HEAD_OBSERVED_TIMESTAMP_SECONDS@,
        families::DATALENS_HEAD_ADVANCED_TIMESTAMP_SECONDS@,
        families::CHAIN_LAST_SUCCESS_TIMESTAMP_SECONDS@,
        families::CHECKPOINT_LAST_FORWARD_ADVANCE_TIMESTAMP_SECONDS@,
        families::CONSECUTIVE_FAILURES@,
        families::CHAIN_PASSES_TOTAL@,
        families::RANGES_TOTAL@,
        families::BLOCKS_PROCESSED_TOTAL@,
        families::RECORDS_TOTAL@,
        families::BATCH_DURATION_SECONDS_SUM@,
        families::BATCH_DURATION_SECONDS_COUNT@,
        families::DATALENS_REQUESTS_TOTAL@,
        families::REORG_ROLLBACKS_TOTAL@,
    ]
}

/// The name of the metric of the tables.
spec fn table_names() -> Set<Seq<char>> {
    set![
        families::LEGACY_TABLE_ROWS@,
    ]
}

broadcast proof fn lemma_sample_is_distinct(
    name: Seq<char>,
    labels: Seq<Label>,
    value: Seq<char>,
)
    ensures
        #[trigger] series_are_distinct(sample(name, labels, value)),
{
}

broadcast proof fn lemma_optional_is_distinct(
    name: Seq<char>,
    labels: Seq<Label>,
    value: Option<Seq<char>>,
)
    ensures
        #[trigger] series_are_distinct(optional_sample(name, labels, value)),
{
}

broadcast proof fn lemma_samples_are_apart(
    name: Seq<char>,
    labels: Seq<Label>,
    value: Seq<char>,
    other_name: Seq<char>,
    other_labels: Seq<Label>,
    other_value: Seq<char>,
)
    requires
        name != other_name || labels != other_labels,
    ensures
        #[trigger] apart(
            sample(name, labels, value),
            sample(other_name, other_labels, other_value),
        ),
{
}

broadcast proof fn lemma_optionals_are_apart(
    name: Seq<char>,
    labels: Seq<Label>,
    value: Option<Seq<char>>,
    other_name: Seq<char>,
    other_labels: Seq<Label>,
    other_value: Option<Seq<char>>,
)
    requires
        name != other_name,
    ensures
        #[trigger] apart(
            optional_sample(name, labels, value),
            optional_sample(other_name, other_labels, other_value),
        ),
{
}

broadcast proof fn lemma_sample_is_named(
    name: Seq<char>,
    labels: Seq<Label>,
    value: Seq<char>,
    names: Set<Seq<char>>,
)
    requires
        names.contains(name),
    ensures
        #[trigger] named(sample(name, labels, value), names),
{
}

broadcast proof fn lemma_optional_is_named(
    name: Seq<char>,
    labels: Seq<Label>,
    value: Option<Seq<char>>,
    names: Set<Seq<char>>,
)
    requires
        names.contains(name),
    ensures
        #[trigger] named(optional_sample(name, labels, value), names),
{
}

broadcast proof fn lemma_sample_is_labelled(
    name: Seq<char>,
    labels: Seq<Label>,
    value: Seq<char>,
    first: Seq<Label>,
)
    requires
        labels.take(first.len() as int) == first,
    ensures
        #[trigger] labelled(sample(name, labels, value), first),
{
}

broadcast proof fn lemma_optional_is_labelled(
    name: Seq<char>,
    labels: Seq<Label>,
    value: Option<Seq<char>>,
    first: Seq<Label>,
)
    requires
        labels.take(first.len() as int) == first,
    ensures
        #[trigger] labelled(optional_sample(name, labels, value), first),
{
}

/// The labels of everything that is exposed of a scope begin with those of the scope.
proof fn lemma_labels_begin_with_scope(
    chain_id: Seq<char>,
    dataset: Seq<char>,
    operation: Seq<char>,
    text: Seq<char>,
)
    ensures
        scope_labels(chain_id, dataset).take(2) == scope_labels(chain_id, dataset),
        scope_result_labels(chain_id, dataset, text).take(2) == scope_labels(chain_id, dataset),
        scope_stage_labels(chain_id, dataset, text).take(2) == scope_labels(chain_id, dataset),
        scope_operation_labels(chain_id, dataset, operation, text).take(2) == scope_labels(
            chain_id,
            dataset,
        ),
{
    let own = scope_labels(chain_id, dataset);
    assert(own.take(2) =~= own);
    assert(scope_result_labels(chain_id, dataset, text).take(2) =~= own);
    assert(scope_stage_labels(chain_id, dataset, text).take(2) =~= own);
    assert(scope_operation_labels(chain_id, dataset, operation, text).take(2) =~= own);
}

proof fn lemma_observations_are_distinct(row: RuntimeMetricsRow<String>)
    ensures
        series_are_distinct(observation_lines(row)),
{
    broadcast use {
        lemma_distinct_concat,
        lemma_concat_is_apart,
        lemma_optional_is_distinct,
        lemma_optionals_are_apart,
    };

    families::lemma_names_are_told_apart();
}

pub proof fn lemma_observations_are_named(row: RuntimeMetricsRow<String>)
    ensures
        named(observation_lines(row), observation_names()),
{
    broadcast use {lemma_named_concat, lemma_optional_is_named};

}

proof fn lemma_observations_are_labelled(row: RuntimeMetricsRow<String>)
    ensures
        labelled(
            observation_lines(row),
            scope_labels(decimal(row.chain_id as nat), row.dataset@),
        ),
{
    broadcast use {lemma_labelled_concat, lemma_optional_is_labelled};

    lemma_labels_begin_with_scope(decimal(row.chain_id as nat), row.dataset@, seq![], seq![]);
}

pub proof fn lemma_outcomes_are_distinct(row: RuntimeMetricsRow<String>)
    ensures
        series_are_distinct(outcome_lines(row)),
        named(outcome_lines(row), outcome_names()),
        labelled(outcome_lines(row), scope_labels(decimal(row.chain_id as nat), row.dataset@)),
{
    let chain_id = decimal(row.chain_id as nat);
    families::lemma_names_are_told_apart();
    assert(series_are_distinct(outcome_lines(row))) by {
        broadcast use {
            lemma_distinct_concat,
            lemma_concat_is_apart,
            lemma_sample_is_distinct,
            lemma_samples_are_apart,
        };

        reveal_strlit("success");
        reveal_strlit("failure");
        assert("success"@[0] != "failure"@[0]);
        assert(scope_result_labels(chain_id, row.dataset@, "success"@)[2] != scope_result_labels(
            chain_id,
            row.dataset@,
            "failure"@,
        )[2]);
    }
    assert(named(outcome_lines(row), outcome_names())) by {
        broadcast use {lemma_named_concat, lemma_sample_is_named};

    }
    assert(labelled(outcome_lines(row), scope_labels(chain_id, row.dataset@))) by {
        broadcast use {lemma_labelled_concat, lemma_sample_is_labelled};

        lemma_labels_begin_with_scope(chain_id, row.dataset@, seq![], "success"@);
        lemma_labels_begin_with_scope(chain_id, row.dataset@, seq![], "failure"@);
    }
}

pub proof fn lemma_throughput_is_distinct(row: RuntimeMetricsRow<String>)
    ensures
        series_are_distinct(throughput_lines(row)),
        named(throughput_lines(row), throughput_names()),
        labelled(throughput_lines(row), scope_labels(decimal(row.chain_id as nat), row.dataset@)),
{
    let chain_id = decimal(row.chain_id as nat);
    families::lemma_names_are_told_apart();
    assert(series_are_distinct(throughput_lines(row))) by {
        broadcast use {
            lemma_distinct_concat,
            lemma_concat_is_apart,
            lemma_sample_is_distinct,
            lemma_samples_are_apart,
        };

        reveal_strlit("read");
        reveal_strlit("decoded");
        reveal_strlit("written");
        assert("read"@.len() == 4 && "decoded"@[0] == 'd' && "written"@[0] == 'w');
        let read = scope_stage_labels(chain_id, row.dataset@, "read"@);
        let decoded = scope_stage_labels(chain_id, row.dataset@, "decoded"@);
        let written = scope_stage_labels(chain_id, row.dataset@, "written"@);
        assert(read[2] != decoded[2] && read[2] != written[2] && decoded[2] != written[2]);
    }
    assert(named(throughput_lines(row), throughput_names())) by {
        broadcast use {lemma_named_concat, lemma_sample_is_named};

    }
    assert(labelled(throughput_lines(row), scope_labels(chain_id, row.dataset@))) by {
        broadcast use {lemma_labelled_concat, lemma_sample_is_labelled};

        lemma_labels_begin_with_scope(chain_id, row.dataset@, seq![], "read"@);
        lemma_labels_begin_with_scope(chain_id, row.dataset@, seq![], "decoded"@);
        lemma_labels_begin_with_scope(chain_id, row.dataset@, seq![], "written"@);
    }
}

pub proof fn lemma_requests_are_distinct(row: RuntimeMetricsRow<String>)
    ensures
        series_are_distinct(request_lines(row)),
        named(request_lines(row), request_names()),
        labelled(request_lines(row), scope_labels(decimal(row.chain_id as nat), row.dataset@)),
{
    let chain_id = decimal(row.chain_id as nat);
    let dataset = row.dataset@;
    assert(series_are_distinct(request_lines(row))) by {
        broadcast use {
            lemma_distinct_concat,
            lemma_concat_is_apart,
            lemma_apart_from_concat,
            lemma_sample_is_distinct,
            lemma_samples_are_apart,
        };

        reveal_strlit("success");
        reveal_strlit("failure");
        reveal_strlit("logs");
        reveal_strlit("blocks");
        reveal_strlit("transactions");
        assert("success"@[0] != "failure"@[0]);
        assert("logs"@.len() != "blocks"@.len() && "logs"@.len() != "transactions"@.len()
            && "blocks"@.len() != "transactions"@.len());
        assert forall|operation: Seq<char>, result: Seq<char>|
            (#[trigger] scope_operation_labels(chain_id, dataset, operation, result))[2]
                == ("operation"@, operation) && scope_operation_labels(
                chain_id,
                dataset,
                operation,
                result,
            )[3] == ("result"@, result) by {
        }
    }
    assert(named(request_lines(row), request_names())) by {
        broadcast use {lemma_named_concat, lemma_sample_is_named};

    }
    assert(labelled(request_lines(row), scope_labels(chain_id, dataset))) by {
        broadcast use {lemma_labelled_concat, lemma_sample_is_labelled};

        lemma_labels_begin_with_scope(chain_id, dataset, "logs"@, "success"@);
        lemma_labels_begin_with_scope(chain_id, dataset, "logs"@, "failure"@);
        lemma_labels_begin_with_scope(chain_id, dataset, "blocks"@, "success"@);
        lemma_labels_begin_with_scope(chain_id, dataset, "blocks"@, "failure"@);
        lemma_labels_begin_with_scope(chain_id, dataset, "transactions"@, "success"@);
        lemma_labels_begin_with_scope(chain_id, dataset, "transactions"@, "failure"@);
    }
}

/// More names are names too.
proof fn lemma_named_among_more(
    lines: Seq<Line>,
    names: Set<Seq<char>>,
    more_names: Set<Seq<char>>,
)
    requires
        named(lines, names),
        names.subset_of(more_names),
    ensures
        named(lines, more_names),
{
}

pub proof fn lemma_row_is_distinct(row: RuntimeMetricsRow<String>)
    ensures
        series_are_distinct(row_lines(row)),
        named(row_lines(row), runtime_names()),
        labelled(row_lines(row), scope_labels(decimal(row.chain_id as nat), row.dataset@)),
{
    let own = scope_labels(decimal(row.chain_id as nat), row.dataset@);
    let a = observation_lines(row);
    let b = outcome_lines(row);
    let c = throughput_lines(row);
    let d = request_lines(row);
    let e = sample(
        families::REORG_ROLLBACKS_TOTAL@,
        own,
        decimal(row.reorg_rollbacks_total as nat),
    );
    lemma_observations_are_distinct(row);
    lemma_observations_are_named(row);
    lemma_observations_are_labelled(row);
    lemma_outcomes_are_distinct(row);
    lemma_throughput_is_distinct(row);
    lemma_requests_are_distinct(row);
    lemma_sample_is_named(
        families::REORG_ROLLBACKS_TOTAL@,
        own,
        decimal(row.reorg_rollbacks_total as nat),
        rollback_names(),
    );
    lemma_labels_begin_with_scope(decimal(row.chain_id as nat), row.dataset@, seq![], seq![]);
    lemma_sample_is_labelled(
        families::REORG_ROLLBACKS_TOTAL@,
        own,
        decimal(row.reorg_rollbacks_total as nat),
        own,
    );
    lemma_sample_is_distinct(
        families::REORG_ROLLBACKS_TOTAL@,
        own,
        decimal(row.reorg_rollbacks_total as nat),
    );
    families::lemma_names_are_told_apart();
    lemma_named_differently(a, b, observation_names(), outcome_names());
    lemma_named_differently(a, c, observation_names(), throughput_names());
    lemma_named_differently(a, d, observation_names(), request_names());
    lemma_named_differently(a, e, observation_names(), rollback_names());
    lemma_named_differently(b, c, outcome_names(), throughput_names());
    lemma_named_differently(b, d, outcome_names(), request_names());
    lemma_named_differently(b, e, outcome_names(), rollback_names());
    lemma_named_differently(c, d, throughput_names(), request_names());
    lemma_named_differently(c, e, throughput_names(), rollback_names());
    lemma_named_differently(d, e, request_names(), rollback_names());
    lemma_named_among_more(a, observation_names(), runtime_names());
    lemma_named_among_more(b, outcome_names(), runtime_names());
    lemma_named_among_more(c, throughput_names(), runtime_names());
    lemma_named_among_more(d, request_names(), runtime_names());
    lemma_named_among_more(e, rollback_names(), runtime_names());
    broadcast use {
        lemma_distinct_concat,
        lemma_concat_is_apart,
        lemma_named_concat,
        lemma_labelled_concat,
    };

}

/// No two checkpoints are of the same dataset of the same chain.
pub open spec fn checkpoints_are_distinct(checkpoints: Seq<CheckpointRow>) -> bool {
    forall|i: int, j: int|
        0 <= i < j < checkpoints.len() ==> {
            ||| (#[trigger] checkpoints[i]).chain_id@ != (#[trigger] checkpoints[j]).chain_id@
            ||| checkpoints[i].dataset@ != checkpoints[j].dataset@
        }
}

/// Different datasets of chains have different labels.
pub proof fn lemma_scope_labels_differ(
    chain_id: Seq<char>,
    dataset: Seq<char>,
    other_chain_id: Seq<char>,
    other_dataset: Seq<char>,
)
    requires
        chain_id != other_chain_id || dataset != other_dataset,
    ensures
        scope_labels(chain_id, dataset) != scope_labels(other_chain_id, other_dataset),
{
    if scope_labels(chain_id, dataset) == scope_labels(other_chain_id, other_dataset) {
        lemma_scope_labels_are_injective(chain_id, dataset, other_chain_id, other_dataset);
    }
}

proof fn lemma_checkpoint_section_is_distinct(checkpoints: Seq<CheckpointRow>)
    requires
        checkpoints_are_distinct(checkpoints),
    ensures
        series_are_distinct(checkpoint_section(checkpoints)),
        named(checkpoint_section(checkpoints), checkpoint_names()),
{
    broadcast use {lemma_introduces_only_concat, lemma_family_introduces_only};

    families::lemma_names_are_told_apart();
    let names = checkpoint_names();
    let head = family(
        families::CHECKPOINT_NEXT_BLOCK@,
        families::CHECKPOINT_NEXT_BLOCK_HELP@,
        families::GAUGE@,
    )
        + family(
        families::CHECKPOINT_UPDATED_TIMESTAMP_SECONDS@,
        families::CHECKPOINT_UPDATED_TIMESTAMP_SECONDS_HELP@,
        families::GAUGE@,
    );
    let lines = |checkpoint: CheckpointRow| checkpoint_lines(checkpoint);
    let each = lines_of_each(checkpoints, lines);
    let third = family(
        families::CHECKPOINT_ROWS@,
        families::CHECKPOINT_ROWS_HELP@,
        families::GAUGE@,
    );
    let bare = seq![
        Line::Bare { name: families::CHECKPOINT_ROWS@, value: decimal(checkpoints.len()) },
    ];
    let dated = set![
        families::CHECKPOINT_NEXT_BLOCK@,
        families::CHECKPOINT_UPDATED_TIMESTAMP_SECONDS@,
    ];
    assert forall|checkpoint: CheckpointRow|
        series_are_distinct(#[trigger] lines(checkpoint)) && named(lines(checkpoint), dated)
            && labelled(
            lines(checkpoint),
            scope_labels(checkpoint.chain_id@, checkpoint.dataset@),
        ) by {
        let own = scope_labels(checkpoint.chain_id@, checkpoint.dataset@);
        assert(own.take(2) =~= own);
        assert(lines(checkpoint) == checkpoint_lines(checkpoint));
    }
    assert forall|i: int, j: int| 0 <= i < j < checkpoints.len() implies apart(
        lines(#[trigger] checkpoints[i]),
        lines(#[trigger] checkpoints[j]),
    ) by {
        lemma_scope_labels_differ(
            checkpoints[i].chain_id@,
            checkpoints[i].dataset@,
            checkpoints[j].chain_id@,
            checkpoints[j].dataset@,
        );
        lemma_labelled_differently(
            lines(checkpoints[i]),
            lines(checkpoints[j]),
            scope_labels(checkpoints[i].chain_id@, checkpoints[i].dataset@),
            scope_labels(checkpoints[j].chain_id@, checkpoints[j].dataset@),
        );
    }
    lemma_each_is_distinct(checkpoints, lines);
    lemma_each_is_named(checkpoints, lines, dated);
    assert(named(bare, set![families::CHECKPOINT_ROWS@]));
    lemma_named_differently(each, bare, dated, set![families::CHECKPOINT_ROWS@]);
    lemma_named_among_more(each, dated, names);
    lemma_introductions_are_neutral(head, each, names);
    lemma_introductions_are_neutral(head, bare, names);
    lemma_introductions_are_neutral(third, head + each, names);
    lemma_introductions_are_neutral(third, bare, names);
    lemma_distinct_concat(head, each);
    lemma_distinct_concat(head + each, third);
    lemma_concat_is_apart(head, each, bare);
    lemma_concat_is_apart(head + each, third, bare);
    lemma_distinct_concat(head + each + third, bare);
    lemma_named_concat(head, each, names);
    lemma_named_concat(head + each, third, names);
    lemma_named_concat(head + each + third, bare, names);
}

proof fn lemma_scope_section_is_distinct(
    checkpoints: Seq<CheckpointRow>,
    scopes: Seq<ConfiguredScopeMetricsRow>,
)
    requires
        checkpoints_are_distinct(checkpoints),
        ascending(scopes),
    ensures
        series_are_distinct(scope_section(checkpoints, scopes)),
        named(scope_section(checkpoints, scopes), scope_names()),
{
    broadcast use {lemma_introduces_only_concat, lemma_family_introduces_only};

    families::lemma_names_are_told_apart();
    let names = scope_names();
    let head = family(
        families::CONFIGURED_SCOPE_INFO@,
        families::CONFIGURED_SCOPE_INFO_HELP@,
        families::GAUGE@,
    )
        + family(
        families::CHECKPOINT_PRESENT@,
        families::CHECKPOINT_PRESENT_HELP@,
        families::GAUGE@,
    );
    let lines = |scope: ConfiguredScopeMetricsRow| scope_lines(checkpoints, scope);
    let strays = |checkpoint: CheckpointRow| stray_lines(scopes, checkpoint);
    let a = lines_of_each(scopes, lines);
    let b = lines_of_each(checkpoints, strays);
    assert forall|scope: ConfiguredScopeMetricsRow|
        series_are_distinct(#[trigger] lines(scope)) && named(lines(scope), names) && labelled(
            lines(scope),
            scope_labels(decimal(scope.chain_id as nat), scope.dataset@),
        ) by {
        let own = scope_labels(decimal(scope.chain_id as nat), scope.dataset@);
        assert(own.take(2) =~= own);
        assert(scope_info_labels(scope).take(2) =~= own);
        assert(lines(scope) == scope_lines(checkpoints, scope));
    }
    assert forall|checkpoint: CheckpointRow|
        series_are_distinct(#[trigger] strays(checkpoint)) && named(strays(checkpoint), names)
            && labelled(
            strays(checkpoint),
            scope_labels(checkpoint.chain_id@, checkpoint.dataset@),
        ) by {
        let own = scope_labels(checkpoint.chain_id@, checkpoint.dataset@);
        assert(own.take(2) =~= own);
        assert(strays(checkpoint) == stray_lines(scopes, checkpoint));
    }
    assert forall|i: int, j: int| 0 <= i < j < scopes.len() implies apart(
        lines(#[trigger] scopes[i]),
        lines(#[trigger] scopes[j]),
    ) by {
        lemma_scopes_carry_different_labels(scopes, i, j);
        lemma_labelled_differently(
            lines(scopes[i]),
            lines(scopes[j]),
            scope_labels(decimal(scopes[i].chain_id as nat), scopes[i].dataset@),
            scope_labels(decimal(scopes[j].chain_id as nat), scopes[j].dataset@),
        );
    }
    assert forall|i: int, j: int| 0 <= i < j < checkpoints.len() implies apart(
        strays(#[trigger] checkpoints[i]),
        strays(#[trigger] checkpoints[j]),
    ) by {
        lemma_scope_labels_differ(
            checkpoints[i].chain_id@,
            checkpoints[i].dataset@,
            checkpoints[j].chain_id@,
            checkpoints[j].dataset@,
        );
        lemma_labelled_differently(
            strays(checkpoints[i]),
            strays(checkpoints[j]),
            scope_labels(checkpoints[i].chain_id@, checkpoints[i].dataset@),
            scope_labels(checkpoints[j].chain_id@, checkpoints[j].dataset@),
        );
    }
    assert forall|i: int| 0 <= i < scopes.len() implies apart(lines(#[trigger] scopes[i]), b) by {
        assert forall|j: int| 0 <= j < checkpoints.len() implies apart(
            lines(scopes[i]),
            strays(#[trigger] checkpoints[j]),
        ) by {
            if is_configured(scopes, checkpoints[j]) {
                assert(strays(checkpoints[j]) == Seq::<Line>::empty());
            } else {
                assert(!belongs_to(checkpoints[j], scopes[i]));
                lemma_scope_labels_differ(
                    decimal(scopes[i].chain_id as nat),
                    scopes[i].dataset@,
                    checkpoints[j].chain_id@,
                    checkpoints[j].dataset@,
                );
                lemma_labelled_differently(
                    lines(scopes[i]),
                    strays(checkpoints[j]),
                    scope_labels(decimal(scopes[i].chain_id as nat), scopes[i].dataset@),
                    scope_labels(checkpoints[j].chain_id@, checkpoints[j].dataset@),
                );
            }
        }
        lemma_apart_from_each(lines(scopes[i]), checkpoints, strays);
    }
    lemma_each_is_distinct(scopes, lines);
    lemma_each_is_distinct(checkpoints, strays);
    lemma_each_is_named(scopes, lines, names);
    lemma_each_is_named(checkpoints, strays, names);
    lemma_each_is_apart(scopes, lines, b);
    lemma_introductions_are_neutral(head, a, names);
    lemma_introductions_are_neutral(head, b, names);
    lemma_distinct_concat(head, a);
    lemma_concat_is_apart(head, a, b);
    lemma_distinct_concat(head + a, b);
    lemma_named_concat(head, a, names);
    lemma_named_concat(head + a, b, names);
}

proof fn lemma_runtime_section_is_distinct(rows: Seq<RuntimeMetricsRow<String>>)
    requires
        ascending(rows),
    ensures
        series_are_distinct(runtime_section(rows)),
        named(runtime_section(rows), runtime_names()),
{
    let names = runtime_names();
    let head = observation_families() + total_families();
    let lines = |row: RuntimeMetricsRow<String>| row_lines(row);
    let each = lines_of_each(rows, lines);
    assert(introduces_only(head)) by {
        broadcast use {lemma_introduces_only_concat, lemma_family_introduces_only};

        assert(introduces_only(observation_families()));
        assert(introduces_only(total_families()));
    }
    assert forall|row: RuntimeMetricsRow<String>|
        series_are_distinct(#[trigger] lines(row)) && named(lines(row), names) && labelled(
            lines(row),
            scope_labels(decimal(row.chain_id as nat), row.dataset@),
        ) by {
        lemma_row_is_distinct(row);
    }
    assert forall|i: int, j: int| 0 <= i < j < rows.len() implies apart(
        lines(#[trigger] rows[i]),
        lines(#[trigger] rows[j]),
    ) by {
        lemma_scopes_carry_different_labels(rows, i, j);
        lemma_labelled_differently(
            lines(rows[i]),
            lines(rows[j]),
            scope_labels(decimal(rows[i].chain_id as nat), rows[i].dataset@),
            scope_labels(decimal(rows[j].chain_id as nat), rows[j].dataset@),
        );
    }
    lemma_each_is_distinct(rows, lines);
    lemma_each_is_named(rows, lines, names);
    lemma_introductions_are_neutral(head, each, names);
    lemma_distinct_concat(head, each);
    lemma_named_concat(head, each, names);
}

pub proof fn lemma_tables_are_told_apart()
    ensures
        LEGACY_TABLES@.len() == 7,
        forall|i: int, j: int|
            0 <= i < j < LEGACY_TABLES@.len() ==> (#[trigger] LEGACY_TABLES@[i])@ != (
            #[trigger] LEGACY_TABLES@[j])@,
{
    reveal_strlit("ormp_hash_imported");
    reveal_strlit("ormp_message_accepted");
    reveal_strlit("ormp_message_assigned");
    reveal_strlit("ormp_message_dispatched");
    reveal_strlit("msgport_message_recv");
    reveal_strlit("msgport_message_sent");
    reveal_strlit("signature_pub_signature_submittion");
    assert(LEGACY_TABLES@[0]@.len() == 18);
    assert(LEGACY_TABLES@[1]@.len() == 21);
    assert(LEGACY_TABLES@[2]@.len() == 21);
    assert(LEGACY_TABLES@[3]@.len() == 23);
    assert(LEGACY_TABLES@[4]@.len() == 20);
    assert(LEGACY_TABLES@[5]@.len() == 20);
    assert(LEGACY_TABLES@[6]@.len() == 34);
    assert(LEGACY_TABLES@[1]@[14] != LEGACY_TABLES@[2]@[14]);
    assert(LEGACY_TABLES@[4]@[16] != LEGACY_TABLES@[5]@[16]);
}

proof fn lemma_table_section_is_distinct(row_counts: Seq<LegacyTableRowCount>)
    ensures
        series_are_distinct(table_section(row_counts)),
        named(table_section(row_counts), table_names()),
{
    broadcast use lemma_family_introduces_only;

    let names = table_names();
    let head = family(
        families::LEGACY_TABLE_ROWS@,
        families::LEGACY_TABLE_ROWS_HELP@,
        families::GAUGE@,
    );
    let lines = |table: &'static str| table_lines(row_counts, table);
    let each = lines_of_each(LEGACY_TABLES@, lines);
    lemma_tables_are_told_apart();
    assert forall|table: &'static str|
        series_are_distinct(#[trigger] lines(table)) && named(lines(table), names) by {
        assert(lines(table) == table_lines(row_counts, table));
    }
    assert forall|i: int, j: int| 0 <= i < j < LEGACY_TABLES@.len() implies apart(
        lines(#[trigger] LEGACY_TABLES@[i]),
        lines(#[trigger] LEGACY_TABLES@[j]),
    ) by {
        let own: Seq<Label> = seq![("table"@, LEGACY_TABLES@[i]@)];
        let other: Seq<Label> = seq![("table"@, LEGACY_TABLES@[j]@)];
        assert(own[0] != other[0]);
        assert(own != other);
    }
    lemma_each_is_distinct(LEGACY_TABLES@, lines);
    lemma_each_is_named(LEGACY_TABLES@, lines, names);
    lemma_introductions_are_neutral(head, each, names);
    lemma_distinct_concat(head, each);
    lemma_named_concat(head, each, names);
}

/// No series is exposed twice, where no two checkpoints are of the same dataset of the same
/// chain, and the scopes and the rows are listed as a snapshot lists them.
pub proof fn lemma_no_series_is_exposed_twice(
    checkpoints: Seq<CheckpointRow>,
    row_counts: Seq<LegacyTableRowCount>,
    scopes: Seq<ConfiguredScopeMetricsRow>,
    rows: Seq<RuntimeMetricsRow<String>>,
)
    requires
        checkpoints_are_distinct(checkpoints),
        ascending(scopes),
        ascending(rows),
    ensures
        series_are_distinct(exposition(checkpoints, row_counts, scopes, rows)),
{
    let a = checkpoint_section(checkpoints);
    let b = scope_section(checkpoints, scopes);
    let c = runtime_section(rows);
    let d = table_section(row_counts);
    families::lemma_names_are_told_apart();
    lemma_checkpoint_section_is_distinct(checkpoints);
    lemma_scope_section_is_distinct(checkpoints, scopes);
    lemma_runtime_section_is_distinct(rows);
    lemma_table_section_is_distinct(row_counts);
    lemma_named_differently(a, b, checkpoint_names(), scope_names());
    lemma_named_differently(a, c, checkpoint_names(), runtime_names());
    lemma_named_differently(a, d, checkpoint_names(), table_names());
    lemma_named_differently(b, c, scope_names(), runtime_names());
    lemma_named_differently(b, d, scope_names(), table_names());
    lemma_named_differently(c, d, runtime_names(), table_names());
    lemma_distinct_concat(a, b);
    lemma_concat_is_apart(a, b, c);
    lemma_distinct_concat(a + b, c);
    lemma_concat_is_apart(a, b, d);
    lemma_concat_is_apart(a + b, c, d);
    lemma_distinct_concat(a + b + c, d);
}

/// Rows stay listed as they were when their times and durations are given by text.
pub proof fn lemma_rendering_keeps_the_listing<S: core::fmt::Display>(
    rows: Seq<RuntimeMetricsRow<S>>,
    texts: Seq<RuntimeMetricsRow<String>>,
)
    requires
        rendered_rows(rows, texts),
        ascending(rows),
    ensures
        ascending(texts),
{
    assert forall|i: int| 0 <= i < rows.len() implies (#[trigger] texts[i]).key()
        == rows[i].key() by {
        assert(crate::runtime_report::rendered_row(rows[i], texts[i]));
    }
}

} // verus!
