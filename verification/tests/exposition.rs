use ormp_indexer::decimal::{decimal_text, optional_decimal_text, signed_decimal_text};
use ormp_indexer::exposition::{
    append_bare_metric, append_family, append_metric, append_optional_metric, escape_label_value,
};
use ormp_indexer::labels::{
    operation_result_labels, result_labels, runtime_labels, stage_labels, text_labels,
};
use ormp_indexer::metrics::RuntimeMetricsRow;
use ormp_indexer::ops::{
    status_response, ChainProgressRow, CheckpointRow, DatasetProgressRow, LEGACY_TABLES,
};
use ormp_indexer::runtime_report::append_datalens_request_metrics;
use ormp_indexer::text::{place_text, same_text, Placement};

#[test]
fn escapes_backslashes_and_quotes() {
    assert_eq!(escape_label_value(""), "");
    assert_eq!(escape_label_value("plain"), "plain");
    assert_eq!(escape_label_value("a\"b"), "a\\\"b");
    assert_eq!(escape_label_value("a\\b"), "a\\\\b");
    assert_eq!(escape_label_value("\\\""), "\\\\\\\"");
    assert_eq!(escape_label_value("line\nbreak \u{e9}\u{1f600}"), "line\nbreak \u{e9}\u{1f600}");
}

#[test]
fn escaping_is_replacing_twice() {
    for value in ["", "\"", "\\", "\\\"", "\"\\\"", "x\\\\y\"\"z", "\u{1f600}\"\u{e9}\\"] {
        assert_eq!(
            escape_label_value(value),
            value.replace('\\', r"\\").replace('"', "\\\"")
        );
    }
}

#[test]
fn different_values_escape_differently() {
    assert_ne!(escape_label_value("\\\""), escape_label_value("\""));
    assert_ne!(escape_label_value("a\",b=\"c"), escape_label_value("a"));
}

#[test]
fn numbers_in_decimal() {
    for n in [0, 1, 9, 10, 46, 99, 100, 1_000_000, u64::MAX - 1, u64::MAX] {
        assert_eq!(decimal_text(n), n.to_string());
        assert_eq!(optional_decimal_text(Some(n)), Some(n.to_string()));
    }
    for n in [0, 7, -1, -10, 123_456, i64::MIN, i64::MIN + 1, i64::MAX] {
        assert_eq!(signed_decimal_text(n), n.to_string());
    }
    assert_eq!(optional_decimal_text(None), None);
}

#[test]
fn text_is_ordered_by_its_bytes() {
    let texts = ["", "A", "Z", "a", "aa", "ab", "b", "\u{7f}", "\u{e9}", "\u{ffff}", "\u{10000}"];
    for a in texts {
        for b in texts {
            let expected = if a < b {
                Placement::Before
            } else if a == b {
                Placement::Same
            } else {
                Placement::After
            };
            assert_eq!(place_text(a, b), expected);
            assert_eq!(same_text(a, b), a == b);
        }
    }
}

#[test]
fn writes_samples() {
    let mut body = String::from("before\n");
    append_metric(&mut body, "m", &[], "1");
    append_metric(
        &mut body,
        "m",
        &[("a", "x\"y".to_owned()), ("b", "z".to_owned())],
        "2.5",
    );
    assert_eq!(body, "before\nm{} 1\nm{a=\"x\\\"y\",b=\"z\"} 2.5\n");
}

#[test]
fn writes_optional_samples() {
    let mut body = String::new();
    append_optional_metric(&mut body, "m", &[("a", "x".to_owned())], None);
    assert_eq!(body, "");
    append_optional_metric(&mut body, "m", &[("a", "x".to_owned())], Some(&"7".to_owned()));
    assert_eq!(body, "m{a=\"x\"} 7\n");
}

#[test]
fn writes_families_and_bare_samples() {
    let mut body = String::new();
    append_family(&mut body, "m", "Some metric.", "gauge");
    append_bare_metric(&mut body, "m", "3");
    assert_eq!(body, "# HELP m Some metric.\n# TYPE m gauge\nm 3\n");
}

#[test]
fn samples_of_different_labels_read_differently() {
    let mut one = String::new();
    let mut other = String::new();
    append_metric(&mut one, "m", &text_labels(&"1".to_owned(), &"a\",x=\"b".to_owned()), "5");
    append_metric(&mut other, "m", &text_labels(&"1".to_owned(), &"a".to_owned()), "5");
    assert_ne!(one, other);
    assert_eq!(one, "m{chain_id=\"1\",dataset=\"a\\\",x=\\\"b\"} 5\n");
}

#[test]
fn labels_of_a_scope() {
    assert_eq!(
        runtime_labels(46, "d"),
        vec![("chain_id", "46".to_owned()), ("dataset", "d".to_owned())]
    );
    assert_eq!(
        result_labels(46, "d", "success"),
        vec![
            ("chain_id", "46".to_owned()),
            ("dataset", "d".to_owned()),
            ("result", "success".to_owned()),
        ]
    );
    assert_eq!(
        stage_labels(46, "d", "read"),
        vec![
            ("chain_id", "46".to_owned()),
            ("dataset", "d".to_owned()),
            ("stage", "read".to_owned()),
        ]
    );
    assert_eq!(
        operation_result_labels(46, "d", "logs", "failure"),
        vec![
            ("chain_id", "46".to_owned()),
            ("dataset", "d".to_owned()),
            ("operation", "logs".to_owned()),
            ("result", "failure".to_owned()),
        ]
    );
}

#[test]
fn samples_of_requests() {
    let row: RuntimeMetricsRow<f64> = RuntimeMetricsRow {
        chain_id: 1,
        dataset: "d".to_owned(),
        datalens_log_requests_success_total: 1,
        datalens_log_requests_failure_total: 2,
        datalens_block_requests_success_total: 3,
        datalens_block_requests_failure_total: 4,
        datalens_tx_requests_success_total: 5,
        datalens_tx_requests_failure_total: 6,
        ..Default::default()
    };
    let mut body = String::new();
    append_datalens_request_metrics(&mut body, &row);
    let mut expected = String::new();
    for (operation, result, total) in [
        ("logs", "success", 1),
        ("logs", "failure", 2),
        ("blocks", "success", 3),
        ("blocks", "failure", 4),
        ("transactions", "success", 5),
        ("transactions", "failure", 6),
    ] {
        expected.push_str(&format!(
            "ormp_indexer_datalens_requests_total{{chain_id=\"1\",dataset=\"d\",operation=\"{}\",result=\"{}\"}} {}\n",
            operation, result, total
        ));
    }
    assert_eq!(body, expected);
}

#[test]
fn tables_need_no_escaping() {
    assert_eq!(LEGACY_TABLES.len(), 7);
    for table in LEGACY_TABLES {
        assert_eq!(escape_label_value(table), table);
    }
}

#[test]
fn puts_the_status_together() {
    let checkpoint = CheckpointRow {
        chain_id: "46".to_owned(),
        dataset: "d".to_owned(),
        next_block: "9".to_owned(),
        updated_at: "now".to_owned(),
        updated_timestamp_seconds: None,
    };
    let chain = ChainProgressRow {
        chain_id: "46".to_owned(),
        datasets: 1,
        min_next_block: "9".to_owned(),
        max_next_block: "9".to_owned(),
        updated_at: "now".to_owned(),
    };
    let dataset = DatasetProgressRow {
        dataset: "d".to_owned(),
        chains: 1,
        min_next_block: "9".to_owned(),
        max_next_block: "9".to_owned(),
        updated_at: "now".to_owned(),
    };
    let status = status_response(vec![checkpoint.clone()], vec![chain.clone()], vec![dataset.clone()]);
    assert_eq!(status.checkpoints, vec![checkpoint]);
    assert_eq!(status.progress.chains, vec![chain]);
    assert_eq!(status.progress.datasets, vec![dataset]);
}
