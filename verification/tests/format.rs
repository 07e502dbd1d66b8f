use ormp_indexer::metrics::{ConfiguredScopeMetricsRow, MetricsSnapshot, RuntimeMetricsRow};
use ormp_indexer::ops::{
    format_metrics, format_rendered_metrics, CheckpointRow, LegacyTableRowCount,
};

fn concat_lines(lines: &[&str]) -> String {
    let mut text = String::new();
    for line in lines {
        text.push_str(line);
        text.push('\n');
    }
    text
}

fn checkpoint(chain_id: &str, dataset: &str, next_block: &str, updated: Option<&str>) -> CheckpointRow {
    CheckpointRow {
        chain_id: chain_id.to_owned(),
        dataset: dataset.to_owned(),
        next_block: next_block.to_owned(),
        updated_at: "2026-07-30 00:00:00+00".to_owned(),
        updated_timestamp_seconds: updated.map(|text| text.to_owned()),
    }
}

fn scope(chain_id: u64, dataset: &str, start_block: u64, batch_size: u64) -> ConfiguredScopeMetricsRow {
    ConfiguredScopeMetricsRow {
        chain_id,
        dataset: dataset.to_owned(),
        start_block,
        batch_size,
    }
}

fn count(table_name: &str, row_count: i64) -> LegacyTableRowCount {
    LegacyTableRowCount {
        table_name: table_name.to_owned(),
        row_count,
    }
}

#[test]
fn test_format_metrics_emits_runtime_monitoring_metrics() {
    let checkpoints = vec![CheckpointRow {
        chain_id: "46".to_owned(),
        dataset: "datalens-native".to_owned(),
        next_block: "101".to_owned(),
        updated_at: "2026-07-30 00:00:00+00".to_owned(),
        updated_timestamp_seconds: Some("1785369600".to_owned()),
    }];
    let runtime = MetricsSnapshot {
        configured_scopes: vec![ConfiguredScopeMetricsRow {
            chain_id: 46,
            dataset: "datalens-native".to_owned(),
            start_block: 1,
            batch_size: 1000,
        }],
        runtime_rows: vec![RuntimeMetricsRow {
            chain_id: 46,
            dataset: "datalens-native".to_owned(),
            target_block: Some(150),
            remaining_blocks: Some(50),
            datalens_head_height: Some(151),
            datalens_head_observed_timestamp_seconds: Some(1_785_389_000.0),
            datalens_head_advanced_timestamp_seconds: Some(1_785_389_000.0),
            chain_last_success_timestamp_seconds: Some(1_785_389_010.0),
            checkpoint_last_forward_advance_timestamp_seconds: Some(1_785_389_020.0),
            consecutive_failures: 0,
            chain_pass_success_total: 3,
            ranges_success_total: 2,
            blocks_processed_total: 100,
            records_read_total: 4,
            records_decoded_total: 4,
            records_written_total: 4,
            batch_duration_seconds_sum: 1.5,
            batch_duration_seconds_count: 2,
            datalens_log_requests_success_total: 2,
            ..Default::default()
        }],
    };

    let output = format_metrics(&checkpoints, &[], &runtime);

    assert!(output.contains(
        "ormp_indexer_configured_scope_info{chain_id=\"46\",dataset=\"datalens-native\",start_block=\"1\",batch_size=\"1000\"} 1"
    ));
    assert!(output.contains(
        "ormp_indexer_checkpoint_present{chain_id=\"46\",dataset=\"datalens-native\"} 1"
    ));
    assert!(output.contains(
        "ormp_indexer_checkpoint_updated_timestamp_seconds{chain_id=\"46\",dataset=\"datalens-native\"} 1785369600"
    ));
    assert!(output.contains(
        "ormp_indexer_target_block{chain_id=\"46\",dataset=\"datalens-native\"} 150"
    ));
    assert!(output.contains(
        "ormp_indexer_remaining_blocks{chain_id=\"46\",dataset=\"datalens-native\"} 50"
    ));
    assert!(output.contains(
        "ormp_indexer_chain_passes_total{chain_id=\"46\",dataset=\"datalens-native\",result=\"success\"} 3"
    ));
    assert!(output.contains(
        "ormp_indexer_records_total{chain_id=\"46\",dataset=\"datalens-native\",stage=\"written\"} 4"
    ));
    assert!(output.contains(
        "ormp_indexer_datalens_requests_total{chain_id=\"46\",dataset=\"datalens-native\",operation=\"logs\",result=\"success\"} 2"
    ));
}

#[test]
fn formats_every_line() {
    let checkpoints = vec![
        checkpoint("46", "datalens-native", "101", Some("1785369600")),
        checkpoint("1", "odd \"name\" \\ x", "7", None),
    ];
    let counts = vec![
        count("msgport_message_sent", 12),
        count("unknown_table", 5),
        count("msgport_message_sent", 99),
        count("ormp_hash_imported", i64::MIN),
    ];
    let runtime: MetricsSnapshot<f64> = MetricsSnapshot {
        configured_scopes: vec![
            scope(46, "datalens-native", 1, 1000),
            scope(u64::MAX, "empty", 0, 10),
        ],
        runtime_rows: vec![RuntimeMetricsRow {
            chain_id: 46,
            dataset: "datalens-native".to_owned(),
            target_block: Some(150),
            remaining_blocks: Some(50),
            datalens_head_height: Some(151),
            datalens_head_observed_timestamp_seconds: Some(1785389000.25),
            datalens_head_advanced_timestamp_seconds: Some(1785389000.0),
            chain_last_success_timestamp_seconds: Some(1785389010.0),
            checkpoint_last_forward_advance_timestamp_seconds: Some(1785389020.0),
            consecutive_failures: 21,
            chain_pass_success_total: 3,
            chain_pass_failure_total: 4,
            ranges_success_total: 5,
            ranges_failure_total: 6,
            blocks_processed_total: 100,
            records_read_total: 7,
            records_decoded_total: 8,
            records_written_total: 9,
            batch_duration_seconds_sum: 1.5,
            batch_duration_seconds_count: 10,
            datalens_log_requests_success_total: 11,
            datalens_log_requests_failure_total: 12,
            datalens_block_requests_success_total: 13,
            datalens_block_requests_failure_total: 14,
            datalens_tx_requests_success_total: 15,
            datalens_tx_requests_failure_total: 16,
            reorg_rollbacks_total: 17,
            ..Default::default()
        }, RuntimeMetricsRow {
            chain_id: 47,
            dataset: "quiet".to_owned(),
            ..Default::default()
        }],
    };
    let expected = concat_lines(&[
        "# HELP ormp_indexer_checkpoint_next_block Next block recorded per chain and dataset.",
        "# TYPE ormp_indexer_checkpoint_next_block gauge",
        "# HELP ormp_indexer_checkpoint_updated_timestamp_seconds Unix timestamp of the checkpoint row update.",
        "# TYPE ormp_indexer_checkpoint_updated_timestamp_seconds gauge",
        "ormp_indexer_checkpoint_next_block{chain_id=\"46\",dataset=\"datalens-native\"} 101",
        "ormp_indexer_checkpoint_updated_timestamp_seconds{chain_id=\"46\",dataset=\"datalens-native\"} 1785369600",
        "ormp_indexer_checkpoint_next_block{chain_id=\"1\",dataset=\"odd \\\"name\\\" \\\\ x\"} 7",
        "# HELP ormp_indexer_checkpoint_rows Total checkpoint rows.",
        "# TYPE ormp_indexer_checkpoint_rows gauge",
        "ormp_indexer_checkpoint_rows 2",
        "# HELP ormp_indexer_configured_scope_info Configured ORMP indexer scope information.",
        "# TYPE ormp_indexer_configured_scope_info gauge",
        "# HELP ormp_indexer_checkpoint_present Whether the configured ORMP indexer scope has a checkpoint row.",
        "# TYPE ormp_indexer_checkpoint_present gauge",
        "ormp_indexer_configured_scope_info{chain_id=\"46\",dataset=\"datalens-native\",start_block=\"1\",batch_size=\"1000\"} 1",
        "ormp_indexer_checkpoint_present{chain_id=\"46\",dataset=\"datalens-native\"} 1",
        "ormp_indexer_configured_scope_info{chain_id=\"18446744073709551615\",dataset=\"empty\",start_block=\"0\",batch_size=\"10\"} 1",
        "ormp_indexer_checkpoint_present{chain_id=\"18446744073709551615\",dataset=\"empty\"} 0",
        "ormp_indexer_checkpoint_present{chain_id=\"1\",dataset=\"odd \\\"name\\\" \\\\ x\"} 1",
        "# HELP ormp_indexer_target_block Current target block after Datalens head buffer per chain and dataset.",
        "# TYPE ormp_indexer_target_block gauge",
        "# HELP ormp_indexer_remaining_blocks Current remaining blocks per chain and dataset.",
        "# TYPE ormp_indexer_remaining_blocks gauge",
        "# HELP ormp_indexer_datalens_head_height Latest Datalens head height observed by the ORMP indexer.",
        "# TYPE ormp_indexer_datalens_head_height gauge",
        "# HELP ormp_indexer_datalens_head_observed_timestamp_seconds Unix timestamp of the last Datalens head observation.",
        "# TYPE ormp_indexer_datalens_head_observed_timestamp_seconds gauge",
        "# HELP ormp_indexer_datalens_head_advanced_timestamp_seconds Unix timestamp of the last Datalens head advancement.",
        "# TYPE ormp_indexer_datalens_head_advanced_timestamp_seconds gauge",
        "# HELP ormp_indexer_chain_last_success_timestamp_seconds Unix timestamp of the last successful ORMP chain pass.",
        "# TYPE ormp_indexer_chain_last_success_timestamp_seconds gauge",
        "# HELP ormp_indexer_checkpoint_last_forward_advance_timestamp_seconds Unix timestamp of the last forward checkpoint advancement.",
        "# TYPE ormp_indexer_checkpoint_last_forward_advance_timestamp_seconds gauge",
        "# HELP ormp_indexer_consecutive_failures Consecutive ORMP chain pass failures.",
        "# TYPE ormp_indexer_consecutive_failures gauge",
        "# HELP ormp_indexer_chain_passes_total ORMP chain passes by result.",
        "# TYPE ormp_indexer_chain_passes_total counter",
        "# HELP ormp_indexer_ranges_total ORMP Datalens ranges by result.",
        "# TYPE ormp_indexer_ranges_total counter",
        "# HELP ormp_indexer_blocks_processed_total ORMP blocks processed successfully.",
        "# TYPE ormp_indexer_blocks_processed_total counter",
        "# HELP ormp_indexer_records_total ORMP records by result stage.",
        "# TYPE ormp_indexer_records_total counter",
        "# HELP ormp_indexer_batch_duration_seconds ORMP successful batch duration summary.",
        "# TYPE ormp_indexer_batch_duration_seconds summary",
        "# HELP ormp_indexer_datalens_requests_total ORMP Datalens requests by operation and result.",
        "# TYPE ormp_indexer_datalens_requests_total counter",
        "# HELP ormp_indexer_reorg_rollbacks_total ORMP reorg rollbacks.",
        "# TYPE ormp_indexer_reorg_rollbacks_total counter",
        "ormp_indexer_target_block{chain_id=\"46\",dataset=\"datalens-native\"} 150",
        "ormp_indexer_remaining_blocks{chain_id=\"46\",dataset=\"datalens-native\"} 50",
        "ormp_indexer_datalens_head_height{chain_id=\"46\",dataset=\"datalens-native\"} 151",
        "ormp_indexer_datalens_head_observed_timestamp_seconds{chain_id=\"46\",dataset=\"datalens-native\"} 1785389000.25",
        "ormp_indexer_datalens_head_advanced_timestamp_seconds{chain_id=\"46\",dataset=\"datalens-native\"} 1785389000",
        "ormp_indexer_chain_last_success_timestamp_seconds{chain_id=\"46\",dataset=\"datalens-native\"} 1785389010",
        "ormp_indexer_checkpoint_last_forward_advance_timestamp_seconds{chain_id=\"46\",dataset=\"datalens-native\"} 1785389020",
        "ormp_indexer_consecutive_failures{chain_id=\"46\",dataset=\"datalens-native\"} 21",
        "ormp_indexer_chain_passes_total{chain_id=\"46\",dataset=\"datalens-native\",result=\"success\"} 3",
        "ormp_indexer_chain_passes_total{chain_id=\"46\",dataset=\"datalens-native\",result=\"failure\"} 4",
        "ormp_indexer_ranges_total{chain_id=\"46\",dataset=\"datalens-native\",result=\"success\"} 5",
        "ormp_indexer_ranges_total{chain_id=\"46\",dataset=\"datalens-native\",result=\"failure\"} 6",
        "ormp_indexer_blocks_processed_total{chain_id=\"46\",dataset=\"datalens-native\"} 100",
        "ormp_indexer_records_total{chain_id=\"46\",dataset=\"datalens-native\",stage=\"read\"} 7",
        "ormp_indexer_records_total{chain_id=\"46\",dataset=\"datalens-native\",stage=\"decoded\"} 8",
        "ormp_indexer_records_total{chain_id=\"46\",dataset=\"datalens-native\",stage=\"written\"} 9",
        "ormp_indexer_batch_duration_seconds_sum{chain_id=\"46\",dataset=\"datalens-native\"} 1.5",
        "ormp_indexer_batch_duration_seconds_count{chain_id=\"46\",dataset=\"datalens-native\"} 10",
        "ormp_indexer_datalens_requests_total{chain_id=\"46\",dataset=\"datalens-native\",operation=\"logs\",result=\"success\"} 11",
        "ormp_indexer_datalens_requests_total{chain_id=\"46\",dataset=\"datalens-native\",operation=\"logs\",result=\"failure\"} 12",
        "ormp_indexer_datalens_requests_total{chain_id=\"46\",dataset=\"datalens-native\",operation=\"blocks\",result=\"success\"} 13",
        "ormp_indexer_datalens_requests_total{chain_id=\"46\",dataset=\"datalens-native\",operation=\"blocks\",result=\"failure\"} 14",
        "ormp_indexer_datalens_requests_total{chain_id=\"46\",dataset=\"datalens-native\",operation=\"transactions\",result=\"success\"} 15",
        "ormp_indexer_datalens_requests_total{chain_id=\"46\",dataset=\"datalens-native\",operation=\"transactions\",result=\"failure\"} 16",
        "ormp_indexer_reorg_rollbacks_total{chain_id=\"46\",dataset=\"datalens-native\"} 17",
        "ormp_indexer_consecutive_failures{chain_id=\"47\",dataset=\"quiet\"} 0",
        "ormp_indexer_chain_passes_total{chain_id=\"47\",dataset=\"quiet\",result=\"success\"} 0",
        "ormp_indexer_chain_passes_total{chain_id=\"47\",dataset=\"quiet\",result=\"failure\"} 0",
        "ormp_indexer_ranges_total{chain_id=\"47\",dataset=\"quiet\",result=\"success\"} 0",
        "ormp_indexer_ranges_total{chain_id=\"47\",dataset=\"quiet\",result=\"failure\"} 0",
        "ormp_indexer_blocks_processed_total{chain_id=\"47\",dataset=\"quiet\"} 0",
        "ormp_indexer_records_total{chain_id=\"47\",dataset=\"quiet\",stage=\"read\"} 0",
        "ormp_indexer_records_total{chain_id=\"47\",dataset=\"quiet\",stage=\"decoded\"} 0",
        "ormp_indexer_records_total{chain_id=\"47\",dataset=\"quiet\",stage=\"written\"} 0",
        "ormp_indexer_batch_duration_seconds_sum{chain_id=\"47\",dataset=\"quiet\"} 0",
        "ormp_indexer_batch_duration_seconds_count{chain_id=\"47\",dataset=\"quiet\"} 0",
        "ormp_indexer_datalens_requests_total{chain_id=\"47\",dataset=\"quiet\",operation=\"logs\",result=\"success\"} 0",
        "ormp_indexer_datalens_requests_total{chain_id=\"47\",dataset=\"quiet\",operation=\"logs\",result=\"failure\"} 0",
        "ormp_indexer_datalens_requests_total{chain_id=\"47\",dataset=\"quiet\",operation=\"blocks\",result=\"success\"} 0",
        "ormp_indexer_datalens_requests_total{chain_id=\"47\",dataset=\"quiet\",operation=\"blocks\",result=\"failure\"} 0",
        "ormp_indexer_datalens_requests_total{chain_id=\"47\",dataset=\"quiet\",operation=\"transactions\",result=\"success\"} 0",
        "ormp_indexer_datalens_requests_total{chain_id=\"47\",dataset=\"quiet\",operation=\"transactions\",result=\"failure\"} 0",
        "ormp_indexer_reorg_rollbacks_total{chain_id=\"47\",dataset=\"quiet\"} 0",
        "# HELP ormp_indexer_legacy_table_rows Legacy GraphQL table row counts.",
        "# TYPE ormp_indexer_legacy_table_rows gauge",
        "ormp_indexer_legacy_table_rows{table=\"ormp_hash_imported\"} -9223372036854775808",
        "ormp_indexer_legacy_table_rows{table=\"ormp_message_accepted\"} 0",
        "ormp_indexer_legacy_table_rows{table=\"ormp_message_assigned\"} 0",
        "ormp_indexer_legacy_table_rows{table=\"ormp_message_dispatched\"} 0",
        "ormp_indexer_legacy_table_rows{table=\"msgport_message_recv\"} 0",
        "ormp_indexer_legacy_table_rows{table=\"msgport_message_sent\"} 12",
        "ormp_indexer_legacy_table_rows{table=\"signature_pub_signature_submittion\"} 0",
    ]);
    assert_eq!(format_metrics(&checkpoints, &counts, &runtime), expected);
}

#[test]
fn formats_nothing_recorded() {
    let expected = concat_lines(&[
        "# HELP ormp_indexer_checkpoint_next_block Next block recorded per chain and dataset.",
        "# TYPE ormp_indexer_checkpoint_next_block gauge",
        "# HELP ormp_indexer_checkpoint_updated_timestamp_seconds Unix timestamp of the checkpoint row update.",
        "# TYPE ormp_indexer_checkpoint_updated_timestamp_seconds gauge",
        "# HELP ormp_indexer_checkpoint_rows Total checkpoint rows.",
        "# TYPE ormp_indexer_checkpoint_rows gauge",
        "ormp_indexer_checkpoint_rows 0",
        "# HELP ormp_indexer_configured_scope_info Configured ORMP indexer scope information.",
        "# TYPE ormp_indexer_configured_scope_info gauge",
        "# HELP ormp_indexer_checkpoint_present Whether the configured ORMP indexer scope has a checkpoint row.",
        "# TYPE ormp_indexer_checkpoint_present gauge",
        "# HELP ormp_indexer_target_block Current target block after Datalens head buffer per chain and dataset.",
        "# TYPE ormp_indexer_target_block gauge",
        "# HELP ormp_indexer_remaining_blocks Current remaining blocks per chain and dataset.",
        "# TYPE ormp_indexer_remaining_blocks gauge",
        "# HELP ormp_indexer_datalens_head_height Latest Datalens head height observed by the ORMP indexer.",
        "# TYPE ormp_indexer_datalens_head_height gauge",
        "# HELP ormp_indexer_datalens_head_observed_timestamp_seconds Unix timestamp of the last Datalens head observation.",
        "# TYPE ormp_indexer_datalens_head_observed_timestamp_seconds gauge",
        "# HELP ormp_indexer_datalens_head_advanced_timestamp_seconds Unix timestamp of the last Datalens head advancement.",
        "# TYPE ormp_indexer_datalens_head_advanced_timestamp_seconds gauge",
        "# HELP ormp_indexer_chain_last_success_timestamp_seconds Unix timestamp of the last successful ORMP chain pass.",
        "# TYPE ormp_indexer_chain_last_success_timestamp_seconds gauge",
        "# HELP ormp_indexer_checkpoint_last_forward_advance_timestamp_seconds Unix timestamp of the last forward checkpoint advancement.",
        "# TYPE ormp_indexer_checkpoint_last_forward_advance_timestamp_seconds gauge",
        "# HELP ormp_indexer_consecutive_failures Consecutive ORMP chain pass failures.",
        "# TYPE ormp_indexer_consecutive_failures gauge",
        "# HELP ormp_indexer_chain_passes_total ORMP chain passes by result.",
        "# TYPE ormp_indexer_chain_passes_total counter",
        "# HELP ormp_indexer_ranges_total ORMP Datalens ranges by result.",
        "# TYPE ormp_indexer_ranges_total counter",
        "# HELP ormp_indexer_blocks_processed_total ORMP blocks processed successfully.",
        "# TYPE ormp_indexer_blocks_processed_total counter",
        "# HELP ormp_indexer_records_total ORMP records by result stage.",
        "# TYPE ormp_indexer_records_total counter",
        "# HELP ormp_indexer_batch_duration_seconds ORMP successful batch duration summary.",
        "# TYPE ormp_indexer_batch_duration_seconds summary",
        "# HELP ormp_indexer_datalens_requests_total ORMP Datalens requests by operation and result.",
        "# TYPE ormp_indexer_datalens_requests_total counter",
        "# HELP ormp_indexer_reorg_rollbacks_total ORMP reorg rollbacks.",
        "# TYPE ormp_indexer_reorg_rollbacks_total counter",
        "# HELP ormp_indexer_legacy_table_rows Legacy GraphQL table row counts.",
        "# TYPE ormp_indexer_legacy_table_rows gauge",
        "ormp_indexer_legacy_table_rows{table=\"ormp_hash_imported\"} 0",
        "ormp_indexer_legacy_table_rows{table=\"ormp_message_accepted\"} 0",
        "ormp_indexer_legacy_table_rows{table=\"ormp_message_assigned\"} 0",
        "ormp_indexer_legacy_table_rows{table=\"ormp_message_dispatched\"} 0",
        "ormp_indexer_legacy_table_rows{table=\"msgport_message_recv\"} 0",
        "ormp_indexer_legacy_table_rows{table=\"msgport_message_sent\"} 0",
        "ormp_indexer_legacy_table_rows{table=\"signature_pub_signature_submittion\"} 0",
    ]);
    let runtime: MetricsSnapshot<f64> = Default::default();
    assert_eq!(format_metrics(&[], &[], &runtime), expected);
    assert_eq!(format_rendered_metrics(&[], &[], &[], &[]), expected);
}

#[test]
fn formats_times_as_they_display() {
    let row: RuntimeMetricsRow<f64> = RuntimeMetricsRow {
        chain_id: 1,
        dataset: "d".to_owned(),
        chain_last_success_timestamp_seconds: Some(1_785_389_010.125),
        batch_duration_seconds_sum: 0.1 + 0.2,
        ..Default::default()
    };
    let runtime = MetricsSnapshot {
        configured_scopes: vec![],
        runtime_rows: vec![row],
    };
    let output = format_metrics(&[], &[], &runtime);
    assert!(output.contains(
        "ormp_indexer_chain_last_success_timestamp_seconds{chain_id=\"1\",dataset=\"d\"} 1785389010.125\n"
    ));
    assert!(output.contains(
        "ormp_indexer_batch_duration_seconds_sum{chain_id=\"1\",dataset=\"d\"} 0.30000000000000004\n"
    ));
}

#[test]
fn text_in_place_of_times_gives_the_same() {
    let row: RuntimeMetricsRow<f64> = RuntimeMetricsRow {
        chain_id: 1,
        dataset: "d".to_owned(),
        datalens_head_height: Some(5),
        datalens_head_observed_timestamp_seconds: Some(2.5),
        batch_duration_seconds_sum: 1.25,
        ..Default::default()
    };
    let text: RuntimeMetricsRow<String> = RuntimeMetricsRow {
        chain_id: 1,
        dataset: "d".to_owned(),
        datalens_head_height: Some(5),
        datalens_head_observed_timestamp_seconds: Some("2.5".to_owned()),
        batch_duration_seconds_sum: "1.25".to_owned(),
        ..Default::default()
    };
    let scopes = vec![scope(1, "d", 2, 3)];
    let runtime = MetricsSnapshot {
        configured_scopes: scopes.clone(),
        runtime_rows: vec![row],
    };
    assert_eq!(
        format_metrics(&[], &[], &runtime),
        format_rendered_metrics(&[], &[], &scopes, &[text])
    );
}

#[test]
fn a_scope_without_checkpoint_is_not_present() {
    let checkpoints = vec![
        checkpoint("1", "a", "5", None),
        checkpoint("01", "b", "5", None),
        checkpoint("2", "b", "5", None),
    ];
    let runtime: MetricsSnapshot<f64> = MetricsSnapshot {
        configured_scopes: vec![scope(1, "a", 0, 1), scope(1, "b", 0, 1)],
        runtime_rows: vec![],
    };
    let output = format_metrics(&checkpoints, &[], &runtime);
    let present: Vec<&str> = output
        .lines()
        .filter(|line| line.starts_with("ormp_indexer_checkpoint_present{"))
        .collect();
    assert_eq!(
        present,
        vec![
            "ormp_indexer_checkpoint_present{chain_id=\"1\",dataset=\"a\"} 1",
            "ormp_indexer_checkpoint_present{chain_id=\"1\",dataset=\"b\"} 0",
            "ormp_indexer_checkpoint_present{chain_id=\"01\",dataset=\"b\"} 1",
            "ormp_indexer_checkpoint_present{chain_id=\"2\",dataset=\"b\"} 1",
        ]
    );
}

#[test]
fn every_sample_is_introduced_before_it() {
    let checkpoints = vec![checkpoint("46", "x", "101", Some("5"))];
    let runtime: MetricsSnapshot<f64> = MetricsSnapshot {
        configured_scopes: vec![scope(46, "x", 1, 1000)],
        runtime_rows: vec![RuntimeMetricsRow {
            chain_id: 46,
            dataset: "datalens-native".to_owned(),
            target_block: Some(150),
            remaining_blocks: Some(50),
            datalens_head_height: Some(151),
            datalens_head_observed_timestamp_seconds: Some(1785389000.25),
            datalens_head_advanced_timestamp_seconds: Some(1785389000.0),
            chain_last_success_timestamp_seconds: Some(1785389010.0),
            checkpoint_last_forward_advance_timestamp_seconds: Some(1785389020.0),
            consecutive_failures: 21,
            chain_pass_success_total: 3,
            chain_pass_failure_total: 4,
            ranges_success_total: 5,
            ranges_failure_total: 6,
            blocks_processed_total: 100,
            records_read_total: 7,
            records_decoded_total: 8,
            records_written_total: 9,
            batch_duration_seconds_sum: 1.5,
            batch_duration_seconds_count: 10,
            datalens_log_requests_success_total: 11,
            datalens_log_requests_failure_total: 12,
            datalens_block_requests_success_total: 13,
            datalens_block_requests_failure_total: 14,
            datalens_tx_requests_success_total: 15,
            datalens_tx_requests_failure_total: 16,
            reorg_rollbacks_total: 17,
            ..Default::default()
        }],
    };
    let output = format_metrics(&checkpoints, &[], &runtime);
    let mut known: Vec<String> = Vec::new();
    for line in output.lines() {
        if let Some(rest) = line.strip_prefix("# TYPE ") {
            let mut words = rest.split(' ');
            let name = words.next().unwrap().to_owned();
            if words.next() == Some("summary") {
                known.push(format!("{}_sum", name));
                known.push(format!("{}_count", name));
            }
            known.push(name);
        } else if !line.starts_with('#') {
            let end = line.find(|c| c == '{' || c == ' ').unwrap();
            assert!(known.iter().any(|name| name == &line[..end]), "{}", line);
        }
    }
    assert!(output.ends_with('\n'));
}

#[test]
fn the_order_of_the_counts_does_not_matter() {
    let runtime: MetricsSnapshot<f64> = Default::default();
    let one = vec![count("ormp_message_accepted", 3), count("msgport_message_recv", 4)];
    let other = vec![count("msgport_message_recv", 4), count("ormp_message_accepted", 3)];
    assert_eq!(
        format_metrics(&[], &one, &runtime),
        format_metrics(&[], &other, &runtime)
    );
    assert!(format_metrics(&[], &one, &runtime)
        .contains("ormp_indexer_legacy_table_rows{table=\"ormp_message_accepted\"} 3\n"));
}

#[test]
fn no_series_is_exposed_twice() {
    let checkpoints = vec![
        checkpoint("46", "a", "1", Some("5")),
        checkpoint("46", "b", "2", None),
        checkpoint("7", "a", "3", Some("6")),
    ];
    let row = |chain_id: u64, dataset: &str| -> RuntimeMetricsRow<f64> {
        RuntimeMetricsRow {
            chain_id,
            dataset: dataset.to_owned(),
            target_block: Some(1),
            remaining_blocks: Some(1),
            datalens_head_height: Some(1),
            datalens_head_observed_timestamp_seconds: Some(1.0),
            datalens_head_advanced_timestamp_seconds: Some(1.0),
            chain_last_success_timestamp_seconds: Some(1.0),
            checkpoint_last_forward_advance_timestamp_seconds: Some(1.0),
            ..Default::default()
        }
    };
    let runtime = MetricsSnapshot {
        configured_scopes: vec![scope(46, "a", 0, 1), scope(46, "c", 0, 1)],
        runtime_rows: vec![row(46, "a"), row(46, "b"), row(47, "a")],
    };
    let copy = runtime.clone();
    assert_eq!(copy, runtime);
    let output = format_metrics(&checkpoints, &[], &copy);
    let mut series: Vec<&str> = output
        .lines()
        .filter(|line| !line.starts_with('#'))
        .map(|line| &line[..line.rfind(' ').unwrap()])
        .collect();
    let total = series.len();
    series.sort();
    series.dedup();
    assert_eq!(series.len(), total);
}
