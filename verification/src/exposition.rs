//! The text format in which metrics are exposed: lines that describe a family of metrics, and
//! lines that give one sample each.
use vstd::prelude::*;

verus! {

/// A label of a sample: its key, and its value before escaping.
pub type Label = (Seq<char>, Seq<char>);

/// A line of the exposition.
pub enum Line {
    /// What a family of metrics is about.
    Help { name: Seq<char>, help: Seq<char> },
    /// The kind of a family of metrics.
    Type { name: Seq<char>, kind: Seq<char> },
    /// A sample that has no labels.
    Bare { name: Seq<char>, value: Seq<char> },
    /// A sample with its labels.
    Sample { name: Seq<char>, labels: Seq<Label>, value: Seq<char> },
}

/// A character as it stands inside a quoted label value.
pub open spec fn escaped(c: char) -> Seq<char> {
    if c == '\\' {
        seq!['\\', '\\']
    } else if c == '"' {
        seq!['\\', '"']
    } else {
        seq![c]
    }
}

/// A text as it stands inside a quoted label value: every backslash and every double quote gets
/// a backslash in front of it, and nothing else changes.
pub open spec fn escape(text: Seq<char>) -> Seq<char>
    decreases text.len(),
{
    if text.len() == 0 {
        seq![]
    } else {
        escape(text.drop_last()) + escaped(text.last())
    }
}

/// A label with its value in quotes.
pub open spec fn label_text(label: Label) -> Seq<char> {
    label.0 + seq!['=', '"'] + escape(label.1) + seq!['"']
}

/// Labels separated by commas.
pub open spec fn label_list(labels: Seq<Label>) -> Seq<char>
    decreases labels.len(),
{
    if labels.len() == 0 {
        seq![]
    } else if labels.len() == 1 {
        label_text(labels[0])
    } else {
        label_list(labels.drop_last()) + seq![','] + label_text(labels.last())
    }
}

/// The text of a line, with the newline that ends it.
pub open spec fn line_text(line: Line) -> Seq<char> {
    match line {
        Line::Help { name, help } => "# HELP "@ + name + " "@ + help + seq!['\n'],
        Line::Type { name, kind } => "# TYPE "@ + name + " "@ + kind + seq!['\n'],
        Line::Bare { name, value } => name + " "@ + value + seq!['\n'],
        Line::Sample { name, labels, value } => name + seq!['{'] + label_list(labels) + seq![
            '}',
            ' ',
        ] + value + seq!['\n'],
    }
}

/// The text of some lines, one after the other.
pub open spec fn render(lines: Seq<Line>) -> Seq<char>
    decreases lines.len(),
{
    if lines.len() == 0 {
        seq![]
    } else {
        render(lines.drop_last()) + line_text(lines.last())
    }
}

/// The two lines that introduce a family of metrics.
pub open spec fn family(name: Seq<char>, help: Seq<char>, kind: Seq<char>) -> Seq<Line> {
    seq![Line::Help { name, help }, Line::Type { name, kind }]
}

/// One sample.
pub open spec fn sample(name: Seq<char>, labels: Seq<Label>, value: Seq<char>) -> Seq<Line> {
    seq![Line::Sample { name, labels, value }]
}

/// One sample where there is a value, no line where there is none.
pub open spec fn optional_sample(
    name: Seq<char>,
    labels: Seq<Label>,
    value: Option<Seq<char>>,
) -> Seq<Line> {
    match value {
        Some(value) => sample(name, labels, value),
        None => seq![],
    }
}

/// The lines of some items, one item after the other.
pub open spec fn lines_of_each<T>(items: Seq<T>, lines: spec_fn(T) -> Seq<Line>) -> Seq<Line>
    decreases items.len(),
{
    if items.len() == 0 {
        seq![]
    } else {
        lines_of_each(items.drop_last(), lines) + lines(items.last())
    }
}

/// Labels as the executable code holds them.
pub open spec fn labels_view(labels: Seq<(&'static str, String)>) -> Seq<Label> {
    labels.map_values(|label: (&'static str, String)| (label.0@, label.1@))
}

/// Lines can be rendered in parts.
pub proof fn lemma_render_concat(a: Seq<Line>, b: Seq<Line>)
    ensures
        render(a + b) == render(a) + render(b),
    decreases b.len(),
{
    if b.len() == 0 {
        assert(a + b =~= a);
        assert(render(a) + render(b) =~= render(a));
    } else {
        lemma_render_concat(a, b.drop_last());
        assert((a + b).drop_last() =~= a + b.drop_last());
        assert(render(a) + render(b) =~= render(a) + render(b.drop_last()) + line_text(b.last()));
    }
}

/// Text that grows by some lines and then by others has grown by all of them.
pub broadcast proof fn lemma_render_append(start: Seq<char>, a: Seq<Line>, b: Seq<Line>)
    ensures
        #[trigger] (start + render(a) + render(b)) == start + render(a + b),
{
    lemma_render_concat(a, b);
    assert(start + render(a) + render(b) =~= start + (render(a) + render(b)));
}

/// One line renders as its text.
pub proof fn lemma_render_one(line: Line)
    ensures
        render(seq![line]) == line_text(line),
{
    assert(seq![line].drop_last() =~= Seq::<Line>::empty());
    assert(render(Seq::<Line>::empty()) =~= Seq::<char>::empty());
    assert(render(seq![line]) =~= line_text(line));
}

/// Text that holds the lines of the items before `index` and grows by those of the item there
/// holds the lines of one item more.
pub proof fn lemma_render_next<T>(
    start: Seq<char>,
    items: Seq<T>,
    lines: spec_fn(T) -> Seq<Line>,
    index: int,
)
    requires
        0 <= index < items.len(),
    ensures
        start + render(lines_of_each(items.take(index), lines)) + render(lines(items[index]))
            == start + render(lines_of_each(items.take(index + 1), lines)),
{
    lemma_render_append(start, lines_of_each(items.take(index), lines), lines(items[index]));
    assert(items.take(index + 1).drop_last() =~= items.take(index));
}

/// Reads a label value up to the quote that ends it: the value, and what follows the quote.
pub open spec fn read_label_value(text: Seq<char>) -> Option<(Seq<char>, Seq<char>)>
    decreases text.len(),
{
    if text.len() == 0 {
        None
    } else if text[0] == '"' {
        Some((seq![], text.skip(1)))
    } else if text[0] != '\\' {
        match read_label_value(text.skip(1)) {
            Some((value, rest)) => Some((seq![text[0]] + value, rest)),
            None => None,
        }
    } else if text.len() == 1 {
        None
    } else {
        match read_label_value(text.skip(2)) {
            Some((value, rest)) => Some((seq![text[1]] + value, rest)),
            None => None,
        }
    }
}

/// Text can be escaped in parts.
pub proof fn lemma_escape_concat(a: Seq<char>, b: Seq<char>)
    ensures
        escape(a + b) == escape(a) + escape(b),
    decreases b.len(),
{
    if b.len() == 0 {
        assert(a + b =~= a);
        assert(escape(a) + escape(b) =~= escape(a));
    } else {
        lemma_escape_concat(a, b.drop_last());
        assert((a + b).drop_last() =~= a + b.drop_last());
        assert(escape(a) + escape(b) =~= escape(a) + escape(b.drop_last()) + escaped(b.last()));
    }
}

/// An escaped label value ends where its closing quote stands, whatever the value holds and
/// whatever follows, and the value can be read back.
pub proof fn lemma_label_value_reads_back(value: Seq<char>, rest: Seq<char>)
    ensures
        read_label_value(escape(value) + seq!['"'] + rest) == Some((value, rest)),
    decreases value.len(),
{
    let text = escape(value) + seq!['"'] + rest;
    if value.len() == 0 {
        assert(text.skip(1) =~= rest);
    } else {
        let c = value[0];
        let tail = value.skip(1);
        let shorter = escape(tail) + seq!['"'] + rest;
        lemma_label_value_reads_back(tail, rest);
        lemma_escape_concat(seq![c], tail);
        assert(seq![c] + tail =~= value);
        assert(seq![c].drop_last() =~= Seq::<char>::empty());
        assert(escape(seq![c]) =~= escaped(c)) by {
            assert(escape(Seq::<char>::empty()) =~= Seq::<char>::empty());
        }
        assert(text =~= escaped(c) + shorter);
        if c == '\\' || c == '"' {
            assert(text.skip(2) =~= shorter);
        } else {
            assert(text.skip(1) =~= shorter);
        }
    }
}

/// Different texts have different escaped texts.
pub proof fn lemma_escape_is_injective(a: Seq<char>, b: Seq<char>)
    requires
        escape(a) == escape(b),
    ensures
        a == b,
{
    lemma_label_value_reads_back(a, seq![]);
    lemma_label_value_reads_back(b, seq![]);
}

/// A text without backslashes and double quotes is its own escaped text.
pub proof fn lemma_plain_text_is_kept(text: Seq<char>)
    requires
        forall|i: int| 0 <= i < text.len() ==> #[trigger] text[i] != '\\' && text[i] != '"',
    ensures
        escape(text) == text,
    decreases text.len(),
{
    if text.len() > 0 {
        lemma_plain_text_is_kept(text.drop_last());
        assert(escape(text) =~= text);
    } else {
        assert(escape(text) =~= text);
    }
}

/// A number is exposed as it is written: its decimal text needs no escaping.
pub proof fn lemma_decimal_is_kept(n: nat)
    ensures
        escape(crate::decimal::decimal(n)) == crate::decimal::decimal(n),
{
    crate::decimal::lemma_decimal_is_digits(n);
    lemma_plain_text_is_kept(crate::decimal::decimal(n));
}

/// What follows a common beginning is the same where the whole is.
proof fn lemma_same_beginning(beginning: Seq<char>, a: Seq<char>, b: Seq<char>)
    requires
        beginning + a == beginning + b,
    ensures
        a == b,
{
    assert((beginning + a).skip(beginning.len() as int) =~= a);
    assert((beginning + b).skip(beginning.len() as int) =~= b);
}

/// Labels can be listed from the front as well.
proof fn lemma_label_list_front(labels: Seq<Label>)
    requires
        labels.len() > 1,
    ensures
        label_list(labels) == label_text(labels[0]) + seq![','] + label_list(labels.drop_first()),
    decreases labels.len(),
{
    let shorter = labels.drop_last();
    let rest = labels.drop_first();
    if labels.len() == 2 {
        assert(label_list(shorter) == label_text(labels[0]));
        assert(label_list(rest) == label_text(labels[1]));
    } else {
        lemma_label_list_front(shorter);
        assert(shorter.drop_first() =~= rest.drop_last());
        assert(label_list(labels) =~= label_text(labels[0]) + seq![','] + (label_list(
            rest.drop_last(),
        ) + seq![','] + label_text(labels.last())));
    }
}

/// The two label sets have the same keys in the same order.
pub open spec fn same_keys(a: Seq<Label>, b: Seq<Label>) -> bool {
    &&& a.len() == b.len()
    &&& forall|i: int| 0 <= i < a.len() ==> (#[trigger] a[i]).0 == (#[trigger] b[i]).0
}

/// What follows the value of the first label where labels are listed before `after`.
spec fn after_first_label(labels: Seq<Label>, after: Seq<char>) -> Seq<char> {
    if labels.len() == 1 {
        after
    } else {
        seq![','] + (label_list(labels.drop_first()) + after)
    }
}

/// A list of labels begins with the key and the value of the first one.
proof fn lemma_first_label(labels: Seq<Label>, after: Seq<char>)
    requires
        labels.len() > 0,
    ensures
        label_list(labels) + after == labels[0].0 + seq!['=', '"'] + (escape(labels[0].1) + seq![
            '"',
        ] + after_first_label(labels, after)),
{
    if labels.len() > 1 {
        lemma_label_list_front(labels);
    }
    assert(label_list(labels) + after =~= labels[0].0 + seq!['=', '"'] + (escape(labels[0].1)
        + seq!['"'] + after_first_label(labels, after)));
}

/// Labels can be read back from their list, and so can what follows it.
proof fn lemma_label_list_reads_back(
    a: Seq<Label>,
    b: Seq<Label>,
    after_a: Seq<char>,
    after_b: Seq<char>,
)
    requires
        same_keys(a, b),
        label_list(a) + after_a == label_list(b) + after_b,
    ensures
        a == b,
        after_a == after_b,
    decreases a.len(),
{
    if a.len() == 0 {
        assert(label_list(a) + after_a =~= after_a);
        assert(label_list(b) + after_b =~= after_b);
        assert(a =~= b);
    } else {
        lemma_first_label(a, after_a);
        lemma_first_label(b, after_b);
        let tail_a = after_first_label(a, after_a);
        let tail_b = after_first_label(b, after_b);
        lemma_same_beginning(
            a[0].0 + seq!['=', '"'],
            escape(a[0].1) + seq!['"'] + tail_a,
            escape(b[0].1) + seq!['"'] + tail_b,
        );
        lemma_label_value_reads_back(a[0].1, tail_a);
        lemma_label_value_reads_back(b[0].1, tail_b);
        assert(a[0] == b[0]);
        let rest_a = a.drop_first();
        let rest_b = b.drop_first();
        if a.len() > 1 {
            lemma_same_beginning(
                seq![','],
                label_list(rest_a) + after_a,
                label_list(rest_b) + after_b,
            );
            assert forall|i: int| 0 <= i < rest_a.len() implies (#[trigger] rest_a[i]).0 == (
            #[trigger] rest_b[i]).0 by {
                assert(a[i + 1].0 == b[i + 1].0);
            }
            lemma_label_list_reads_back(rest_a, rest_b, after_a, after_b);
        }
        assert(rest_a =~= rest_b);
        assert(a =~= seq![a[0]] + rest_a);
        assert(b =~= seq![b[0]] + rest_b);
    }
}

/// Two samples of the same metric with the same label keys read the same only where their labels
/// and their values are the same: no label value can pass for another, or reach into what
/// follows it.
pub proof fn lemma_samples_are_told_apart(
    name: Seq<char>,
    a: Seq<Label>,
    b: Seq<Label>,
    value_a: Seq<char>,
    value_b: Seq<char>,
)
    requires
        same_keys(a, b),
        line_text(Line::Sample { name, labels: a, value: value_a }) == line_text(
            Line::Sample { name, labels: b, value: value_b },
        ),
    ensures
        a == b,
        value_a == value_b,
{
    let start = name + seq!['{'];
    let middle = seq!['}', ' '];
    let end_a = middle + (value_a + seq!['\n']);
    let end_b = middle + (value_b + seq!['\n']);
    assert(line_text(Line::Sample { name, labels: a, value: value_a }) =~= start + (label_list(a)
        + end_a));
    assert(line_text(Line::Sample { name, labels: b, value: value_b }) =~= start + (label_list(b)
        + end_b));
    lemma_same_beginning(start, label_list(a) + end_a, label_list(b) + end_b);
    lemma_label_list_reads_back(a, b, end_a, end_b);
    lemma_same_beginning(middle, value_a + seq!['\n'], value_b + seq!['\n']);
    assert((value_a + seq!['\n']).drop_last() =~= value_a);
    assert((value_b + seq!['\n']).drop_last() =~= value_b);
}

/// Text that exposes anything ends with a newline.
pub proof fn lemma_text_ends_its_last_line(lines: Seq<Line>)
    requires
        lines.len() > 0,
    ensures
        render(lines).len() > 0,
        render(lines).last() == '\n',
{
    let text = line_text(lines.last());
    assert(text.len() > 0 && text.last() == '\n');
}

/// What is left to be escaped holds nothing that needs it.
proof fn lemma_escape_plain_end(value: Seq<char>, start: int, end: int)
    requires
        0 <= start <= end <= value.len(),
        forall|j: int| start <= j < end ==> #[trigger] value[j] != '\\' && value[j] != '"',
    ensures
        escape(value.take(end)) == escape(value.take(start)) + value.subrange(start, end),
{
    let run = value.subrange(start, end);
    lemma_plain_text_is_kept(run);
    lemma_escape_concat(value.take(start), run);
    assert(value.take(start) + run =~= value.take(end));
}

/// Writes `value` as it stands inside a quoted label value. Runs of characters that need no
/// escaping are copied as they are.
pub fn escape_label_value(value: &str) -> (text: String)
    ensures
        text@ == escape(value@),
{
    let length: usize = value.unicode_len();
    let mut text = String::new();
    let mut start: usize = 0;
    let mut index: usize = 0;
    for c in chars: value.chars()
        invariant
            chars.seq() == value@,
            length == value@.len(),
            index == chars.index(),
            start <= index,
            text@ == escape(value@.take(start as int)),
            forall|j: int|
                start <= j < index ==> #[trigger] value@[j] != '\\' && value@[j] != '"',
    {
        if c == '\\' || c == '"' {
            text.append(value.substring_char(start, index));
            proof {
                lemma_escape_plain_end(value@, start as int, index as int);
                assert(value@.take(index + 1).drop_last() =~= value@.take(index as int));
                reveal_strlit("\\\\");
                reveal_strlit("\\\"");
            }
            if c == '\\' {
                text.append("\\\\");
            } else {
                text.append("\\\"");
            }
            start = index + 1;
            assert(text@ =~= escape(value@.take(start as int)));
        }
        index += 1;
    }
    text.append(value.substring_char(start, length));
    proof {
        lemma_escape_plain_end(value@, start as int, length as int);
        assert(value@.take(length as int) =~= value@);
    }
    text
}

/// Writes labels separated by commas at the end of `body`.
fn append_labels(body: &mut String, labels: &[(&'static str, String)])
    ensures
        final(body)@ == old(body)@ + label_list(labels_view(labels@)),
{
    let ghost start = body@;
    let ghost all = labels_view(labels@);
    let mut index: usize = 0;
    assert(start + label_list(all.take(0)) =~= start);
    while index < labels.len()
        invariant
            all == labels_view(labels@),
            index <= labels@.len(),
            body@ == start + label_list(all.take(index as int)),
        decreases labels@.len() - index,
    {
        let ghost before = body@;
        proof {
            assert(all.take(index + 1).drop_last() =~= all.take(index as int));
            reveal_strlit("=\"");
            reveal_strlit("\"");
            reveal_strlit(",");
        }
        if index > 0 {
            body.append(",");
        }
        body.append(labels[index].0);
        body.append("=\"");
        body.append(escape_label_value(labels[index].1.as_str()).as_str());
        body.append("\"");
        proof {
            let label = all[index as int];
            if index == 0 {
                assert(label_list(all.take(0)) =~= Seq::<char>::empty());
                assert(body@ =~= start + label_text(label));
            } else {
                assert(body@ =~= start + label_list(all.take(index as int)) + seq![',']
                    + label_text(label));
                assert(body@ =~= start + label_list(all.take(index + 1)));
            }
        }
        index += 1;
    }
    assert(all.take(labels@.len() as int) =~= all);
}

/// Writes a sample at the end of `body`.
pub fn append_metric(body: &mut String, name: &str, labels: &[(&'static str, String)], value: &str)
    ensures
        final(body)@ == old(body)@ + render(sample(name@, labels_view(labels@), value@)),
{
    body.append(name);
    body.append("{");
    append_labels(body, labels);
    body.append("} ");
    body.append(value);
    body.append("\n");
    proof {
        reveal_strlit("{");
        reveal_strlit("} ");
        reveal_strlit("\n");
        let line = Line::Sample { name: name@, labels: labels_view(labels@), value: value@ };
        lemma_render_one(line);
        assert(body@ =~= old(body)@ + line_text(line));
    }
}

/// Writes a sample at the end of `body` where there is a value.
pub fn append_optional_metric(
    body: &mut String,
    name: &str,
    labels: &[(&'static str, String)],
    value: Option<&String>,
)
    ensures
        final(body)@ == old(body)@ + render(
            optional_sample(
                name@,
                labels_view(labels@),
                match value {
                    Some(value) => Some(value@),
                    None => None,
                },
            ),
        ),
{
    match value {
        Some(value) => {
            append_metric(body, name, labels, value.as_str());
        },
        None => {
            assert(old(body)@ + render(seq![]) =~= old(body)@);
        },
    }
}

/// Writes a sample without labels at the end of `body`.
pub fn append_bare_metric(body: &mut String, name: &str, value: &str)
    ensures
        final(body)@ == old(body)@ + render(seq![Line::Bare { name: name@, value: value@ }]),
{
    body.append(name);
    body.append(" ");
    body.append(value);
    body.append("\n");
    proof {
        reveal_strlit("\n");
        let line = Line::Bare { name: name@, value: value@ };
        lemma_render_one(line);
        assert(body@ =~= old(body)@ + line_text(line));
    }
}

/// Writes the lines that introduce a family of metrics at the end of `body`.
pub fn append_family(body: &mut String, name: &str, help: &str, kind: &str)
    ensures
        final(body)@ == old(body)@ + render(family(name@, help@, kind@)),
{
    let ghost start = body@;
    let ghost first = Line::Help { name: name@, help: help@ };
    let ghost second = Line::Type { name: name@, kind: kind@ };
    proof {
        reveal_strlit("\n");
    }
    body.append("# HELP ");
    body.append(name);
    body.append(" ");
    body.append(help);
    body.append("\n");
    assert(body@ =~= start + line_text(first));
    body.append("# TYPE ");
    body.append(name);
    body.append(" ");
    body.append(kind);
    body.append("\n");
    proof {
        assert(body@ =~= start + line_text(first) + line_text(second));
        lemma_render_one(first);
        lemma_render_one(second);
        lemma_render_append(start, seq![first], seq![second]);
        assert(seq![first] + seq![second] =~= family(name@, help@, kind@));
    }
}

} // verus!
