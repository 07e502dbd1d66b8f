use ormp_indexer::metrics::{
    record_chain_head, record_chain_pass, record_configured_scopes, record_datalens_request,
    record_range_failure, record_range_success, record_remaining_blocks, record_reorg_rollback,
    snapshot, ConfiguredScopeMetricsRow, EnabledChain, MetricsSnapshot, MetricsState,
    RangeSuccessMetrics, RuntimeConfig, RuntimeMetricsRow,
};

fn range(chain_id: u64, dataset: &str, blocks: u64, duration: f64) -> RangeSuccessMetrics<'_, f64> {
    RangeSuccessMetrics {
        chain_id,
        dataset,
        blocks_processed: blocks,
        records_read: 3,
        records_decoded: 2,
        records_written: 1,
        remaining_blocks: 40,
        duration_seconds: duration,
    }
}

fn chain(chain_id: u64, start_block: u64, batch_size: u64, dataset: Option<&str>) -> EnabledChain {
    EnabledChain {
        chain_id,
        start_block,
        batch_size,
        dataset: dataset.map(|name| name.to_owned()),
    }
}

fn blank(chain_id: u64, dataset: &str) -> RuntimeMetricsRow<f64> {
    RuntimeMetricsRow {
        chain_id,
        dataset: dataset.to_owned(),
        ..Default::default()
    }
}

fn only_row(state: &MetricsState<f64>) -> RuntimeMetricsRow<f64> {
    let rows = snapshot(state).runtime_rows;
    assert_eq!(rows.len(), 1);
    rows[0].clone()
}

#[test]
fn nothing_is_recorded_at_first() {
    let state: MetricsState<f64> = Default::default();
    assert_eq!(snapshot(&state), MetricsSnapshot::default());
}

#[test]
fn default_rows_are_blank() {
    let row: RuntimeMetricsRow<f64> = Default::default();
    assert_eq!(row.batch_duration_seconds_sum, 0.0);
    assert_eq!(row.dataset, "");
    assert_eq!(row.target_block, None);
    assert_eq!(row.reorg_rollbacks_total, 0);
    let scope: ConfiguredScopeMetricsRow = Default::default();
    assert_eq!((scope.chain_id, scope.start_block, scope.batch_size), (0, 0, 0));
    assert_eq!(scope.dataset, "");
}

#[test]
fn heads_advance_upwards_only() {
    let mut state = MetricsState::default();
    record_chain_head(&mut state, 10.0, 46, "d", 151, 150);
    assert_eq!(
        only_row(&state),
        RuntimeMetricsRow {
            target_block: Some(150),
            datalens_head_height: Some(151),
            datalens_head_observed_timestamp_seconds: Some(10.0),
            datalens_head_advanced_timestamp_seconds: Some(10.0),
            ..blank(46, "d")
        }
    );
    record_chain_head(&mut state, 11.0, 46, "d", 151, 149);
    let same = only_row(&state);
    assert_eq!(same.datalens_head_observed_timestamp_seconds, Some(11.0));
    assert_eq!(same.datalens_head_advanced_timestamp_seconds, Some(10.0));
    assert_eq!(same.target_block, Some(149));
    record_chain_head(&mut state, 12.0, 46, "d", 120, 119);
    let lower = only_row(&state);
    assert_eq!(lower.datalens_head_height, Some(120));
    assert_eq!(lower.datalens_head_advanced_timestamp_seconds, Some(10.0));
    record_chain_head(&mut state, 13.0, 46, "d", 121, 120);
    let higher = only_row(&state);
    assert_eq!(higher.datalens_head_observed_timestamp_seconds, Some(13.0));
    assert_eq!(higher.datalens_head_advanced_timestamp_seconds, Some(13.0));
}

#[test]
fn passes_are_counted_by_result() {
    let mut state = MetricsState::default();
    record_chain_pass(&mut state, 1.0, 46, "d", false, 1);
    record_chain_pass(&mut state, 2.0, 46, "d", false, 2);
    assert_eq!(
        only_row(&state),
        RuntimeMetricsRow {
            consecutive_failures: 2,
            chain_pass_failure_total: 2,
            ..blank(46, "d")
        }
    );
    record_chain_pass(&mut state, 3.0, 46, "d", true, 0);
    assert_eq!(
        only_row(&state),
        RuntimeMetricsRow {
            consecutive_failures: 0,
            chain_pass_success_total: 1,
            chain_pass_failure_total: 2,
            chain_last_success_timestamp_seconds: Some(3.0),
            ..blank(46, "d")
        }
    );
}

#[test]
fn the_last_remaining_blocks_count() {
    let mut state = MetricsState::default();
    record_remaining_blocks(&mut state, 46, "d", 9);
    record_remaining_blocks(&mut state, 46, "d", 4);
    assert_eq!(
        only_row(&state),
        RuntimeMetricsRow {
            remaining_blocks: Some(4),
            ..blank(46, "d")
        }
    );
}

#[test]
fn ranges_add_up() {
    let mut state = MetricsState::default();
    record_range_success(&mut state, 5.0, range(46, "d", 100, 1.5), |sum, d| sum + d);
    record_range_success(&mut state, 6.0, range(46, "d", 11, 0.25), |sum, d| sum + d);
    record_range_failure(&mut state, 46, "d");
    assert_eq!(
        only_row(&state),
        RuntimeMetricsRow {
            remaining_blocks: Some(40),
            checkpoint_last_forward_advance_timestamp_seconds: Some(6.0),
            ranges_success_total: 2,
            ranges_failure_total: 1,
            blocks_processed_total: 111,
            records_read_total: 6,
            records_decoded_total: 4,
            records_written_total: 2,
            batch_duration_seconds_sum: 1.75,
            batch_duration_seconds_count: 2,
            ..blank(46, "d")
        }
    );
}

#[test]
fn totals_stop_at_the_greatest_count() {
    let mut state = MetricsState::default();
    record_range_success(&mut state, 5.0, range(46, "d", u64::MAX - 1, 1.0), |sum, d| sum + d);
    record_range_success(&mut state, 6.0, range(46, "d", 5, 1.0), |sum, d| sum + d);
    record_range_success(&mut state, 7.0, range(46, "d", 1, 1.0), |sum, d| sum + d);
    let row = only_row(&state);
    assert_eq!(row.blocks_processed_total, u64::MAX);
    assert_eq!(row.ranges_success_total, 3);
}

#[test]
fn requests_are_counted_by_operation_and_result() {
    let mut state = MetricsState::default();
    for (operation, success, times) in [
        ("logs", true, 1),
        ("logs", false, 2),
        ("blocks", true, 3),
        ("blocks", false, 4),
        ("transactions", true, 5),
        ("transactions", false, 6),
    ] {
        for _ in 0..times {
            record_datalens_request(&mut state, 46, "d", operation, success);
        }
    }
    assert_eq!(
        only_row(&state),
        RuntimeMetricsRow {
            datalens_log_requests_success_total: 1,
            datalens_log_requests_failure_total: 2,
            datalens_block_requests_success_total: 3,
            datalens_block_requests_failure_total: 4,
            datalens_tx_requests_success_total: 5,
            datalens_tx_requests_failure_total: 6,
            ..blank(46, "d")
        }
    );
}

#[test]
fn other_requests_only_open_a_row() {
    let mut state = MetricsState::default();
    record_datalens_request(&mut state, 46, "d", "traces", true);
    record_datalens_request(&mut state, 46, "d", "Logs", false);
    record_datalens_request(&mut state, 46, "d", "", false);
    assert_eq!(only_row(&state), blank(46, "d"));
}

#[test]
fn rollbacks_are_counted() {
    let mut state = MetricsState::default();
    record_reorg_rollback(&mut state, 46, "d");
    record_reorg_rollback(&mut state, 46, "d");
    assert_eq!(
        only_row(&state),
        RuntimeMetricsRow {
            reorg_rollbacks_total: 2,
            ..blank(46, "d")
        }
    );
}

#[test]
fn rows_stand_in_the_order_of_their_scopes() {
    let mut state: MetricsState<f64> = MetricsState::default();
    for (chain_id, dataset) in [
        (46, "b"),
        (2, "z"),
        (46, "a"),
        (100, "a"),
        (46, "\u{e9}"),
        (46, ""),
        (46, "Z"),
        (46, "ab"),
        (2, "z"),
    ] {
        record_reorg_rollback(&mut state, chain_id, dataset);
    }
    let scopes: Vec<(u64, String)> = snapshot(&state)
        .runtime_rows
        .into_iter()
        .map(|row| (row.chain_id, row.dataset))
        .collect();
    let mut sorted = scopes.clone();
    sorted.sort();
    sorted.dedup();
    assert_eq!(scopes, sorted);
    assert_eq!(scopes.len(), 8);
    assert_eq!(scopes[0], (2, "z".to_owned()));
    assert_eq!(scopes[7], (100, "a".to_owned()));
}

#[test]
fn scopes_do_not_touch_each_other() {
    let mut state = MetricsState::default();
    record_remaining_blocks(&mut state, 1, "a", 5);
    record_remaining_blocks(&mut state, 1, "b", 6);
    record_chain_head(&mut state, 9.0, 1, "a", 3, 2);
    let rows = snapshot(&state).runtime_rows;
    assert_eq!(rows[0].datalens_head_height, Some(3));
    assert_eq!(
        rows[1],
        RuntimeMetricsRow {
            remaining_blocks: Some(6),
            ..blank(1, "b")
        }
    );
}

#[test]
fn recordings_for_different_scopes_commute() {
    let mut one = MetricsState::default();
    record_range_success(&mut one, 5.0, range(1, "a", 7, 1.5), |sum, d| sum + d);
    record_chain_head(&mut one, 6.0, 2, "a", 3, 2);
    let mut other = MetricsState::default();
    record_chain_head(&mut other, 6.0, 2, "a", 3, 2);
    record_range_success(&mut other, 5.0, range(1, "a", 7, 1.5), |sum, d| sum + d);
    assert_eq!(snapshot(&one), snapshot(&other));
}

#[test]
fn configured_scopes_are_recorded_once_each() {
    let mut state: MetricsState<f64> = MetricsState::default();
    let config = RuntimeConfig {
        enabled_chains: vec![
            chain(46, 1, 1000, Some("datalens-native")),
            chain(7, 5, 10, None),
            chain(1, 2, 50, Some("datalens-native")),
            chain(46, 3, 2000, Some("datalens-native")),
        ],
    };
    record_configured_scopes(&mut state, &config);
    let expected = vec![
        ConfiguredScopeMetricsRow {
            chain_id: 1,
            dataset: "datalens-native".to_owned(),
            start_block: 2,
            batch_size: 50,
        },
        ConfiguredScopeMetricsRow {
            chain_id: 46,
            dataset: "datalens-native".to_owned(),
            start_block: 3,
            batch_size: 2000,
        },
    ];
    assert_eq!(snapshot(&state).configured_scopes, expected);
    assert_eq!(snapshot(&state).runtime_rows, vec![]);

    record_configured_scopes(&mut state, &config);
    assert_eq!(snapshot(&state).configured_scopes, expected);

    let later = RuntimeConfig {
        enabled_chains: vec![chain(1, 9, 9, Some("datalens-native"))],
    };
    record_configured_scopes(&mut state, &later);
    let scopes = snapshot(&state).configured_scopes;
    assert_eq!(scopes.len(), 2);
    assert_eq!((scopes[0].start_block, scopes[0].batch_size), (9, 9));
    assert_eq!(scopes[1], expected[1]);
}

#[test]
fn what_is_recorded_together_fits_together() {
    let mut state = MetricsState::default();
    record_chain_pass(&mut state, 1.0, 1, "a", false, 1);
    record_range_success(&mut state, 2.0, range(1, "a", 7, 1.5), |sum, d| sum + d);
    record_chain_head(&mut state, 3.0, 1, "b", 5, 4);
    for row in snapshot(&state).runtime_rows {
        assert_eq!(row.target_block.is_some(), row.datalens_head_height.is_some());
        assert_eq!(
            row.datalens_head_advanced_timestamp_seconds.is_some(),
            row.datalens_head_height.is_some()
        );
        assert_eq!(
            row.chain_last_success_timestamp_seconds.is_some(),
            row.chain_pass_success_total > 0
        );
        assert_eq!(row.batch_duration_seconds_count, row.ranges_success_total);
    }
}

#[test]
fn order_of_requests_does_not_show() {
    let requests = [
        (46, "d", "logs", true),
        (46, "d", "logs", false),
        (46, "d", "blocks", true),
        (7, "e", "transactions", false),
        (46, "d", "unknown", true),
        (46, "d", "logs", true),
    ];
    let shown = |order: [usize; 6]| -> MetricsSnapshot<f64> {
        let mut state = MetricsState::default();
        record_reorg_rollback(&mut state, 46, "d");
        for index in order {
            let (chain_id, dataset, operation, success) = requests[index];
            record_datalens_request(&mut state, chain_id, dataset, operation, success);
        }
        snapshot(&state)
    };
    let expected = shown([0, 1, 2, 3, 4, 5]);
    assert_eq!(
        expected.runtime_rows,
        vec![
            RuntimeMetricsRow {
                datalens_tx_requests_failure_total: 1,
                ..blank(7, "e")
            },
            RuntimeMetricsRow {
                datalens_log_requests_success_total: 2,
                datalens_log_requests_failure_total: 1,
                datalens_block_requests_success_total: 1,
                reorg_rollbacks_total: 1,
                ..blank(46, "d")
            },
        ]
    );
    assert_eq!(shown([5, 4, 3, 2, 1, 0]), expected);
    assert_eq!(shown([3, 0, 5, 1, 4, 2]), expected);
    assert_eq!(shown([4, 2, 1, 5, 0, 3]), expected);
}
