//! What the indexer counts while it runs, one row per scope, and the operations that record it.
//!
//! Points in time and durations are values of a type `S` of the caller's choice (seconds in
//! floating point, as a rule): they are stored and handed back, and durations are accumulated by
//! a function that the caller supplies.
use crate::scope::{ascending, by_scope, scope_key, MetricsScopeKey, ScopeTable, Scoped};
use crate::text::same_text;
use vstd::prelude::*;

verus! {

/// What is configured for a scope.
#[derive(Debug, PartialEq, Eq)]
pub struct ConfiguredScopeMetricsRow {
    pub chain_id: u64,
    pub dataset: String,
    pub start_block: u64,
    pub batch_size: u64,
}

impl Clone for ConfiguredScopeMetricsRow {
    fn clone(&self) -> (row: Self)
        ensures
            row == *self,
    {
        ConfiguredScopeMetricsRow {
            chain_id: self.chain_id,
            dataset: self.dataset.clone(),
            start_block: self.start_block,
            batch_size: self.batch_size,
        }
    }
}

impl Default for ConfiguredScopeMetricsRow {
    fn default() -> (row: Self)
        ensures
            row.chain_id == 0,
            row.dataset@ == Seq::<char>::empty(),
            row.start_block == 0,
            row.batch_size == 0,
    {
        ConfiguredScopeMetricsRow {
            chain_id: 0,
            dataset: String::new(),
            start_block: 0,
            batch_size: 0,
        }
    }
}

impl Scoped for ConfiguredScopeMetricsRow {
    open spec fn key(&self) -> MetricsScopeKey {
        scope_key(self.chain_id, self.dataset@)
    }

    fn chain(&self) -> u64 {
        self.chain_id
    }

    fn dataset_name(&self) -> &str {
        self.dataset.as_str()
    }
}

/// What was observed in a scope since the process started.
#[derive(Debug, PartialEq)]
pub struct RuntimeMetricsRow<S> {
    pub chain_id: u64,
    pub dataset: String,
    pub target_block: Option<u64>,
    pub remaining_blocks: Option<u64>,
    pub datalens_head_height: Option<u64>,
    pub datalens_head_observed_timestamp_seconds: Option<S>,
    pub datalens_head_advanced_timestamp_seconds: Option<S>,
    pub chain_last_success_timestamp_seconds: Option<S>,
    pub checkpoint_last_forward_advance_timestamp_seconds: Option<S>,
    pub consecutive_failures: u64,
    pub chain_pass_success_total: u64,
    pub chain_pass_failure_total: u64,
    pub ranges_success_total: u64,
    pub ranges_failure_total: u64,
    pub blocks_processed_total: u64,
    pub records_read_total: u64,
    pub records_decoded_total: u64,
    pub records_written_total: u64,
    pub batch_duration_seconds_sum: S,
    pub batch_duration_seconds_count: u64,
    pub datalens_log_requests_success_total: u64,
    pub datalens_log_requests_failure_total: u64,
    pub datalens_block_requests_success_total: u64,
    pub datalens_block_requests_failure_total: u64,
    pub datalens_tx_requests_success_total: u64,
    pub datalens_tx_requests_failure_total: u64,
    pub reorg_rollbacks_total: u64,
}

impl<S: Copy> Clone for RuntimeMetricsRow<S> {
    fn clone(&self) -> (row: Self)
        ensures
            row == *self,
    {
        RuntimeMetricsRow {
            chain_id: self.chain_id,
            dataset: self.dataset.clone(),
            target_block: self.target_block,
            remaining_blocks: self.remaining_blocks,
            datalens_head_height: self.datalens_head_height,
            datalens_head_observed_timestamp_seconds: self.datalens_head_observed_timestamp_seconds,
            datalens_head_advanced_timestamp_seconds: self.datalens_head_advanced_timestamp_seconds,
            chain_last_success_timestamp_seconds: self.chain_last_success_timestamp_seconds,
            checkpoint_last_forward_advance_timestamp_seconds:
                self.checkpoint_last_forward_advance_timestamp_seconds,
            consecutive_failures: self.consecutive_failures,
            chain_pass_success_total: self.chain_pass_success_total,
            chain_pass_failure_total: self.chain_pass_failure_total,
            ranges_success_total: self.ranges_success_total,
            ranges_failure_total: self.ranges_failure_total,
            blocks_processed_total: self.blocks_processed_total,
            records_read_total: self.records_read_total,
            records_decoded_total: self.records_decoded_total,
            records_written_total: self.records_written_total,
            batch_duration_seconds_sum: self.batch_duration_seconds_sum,
            batch_duration_seconds_count: self.batch_duration_seconds_count,
            datalens_log_requests_success_total: self.datalens_log_requests_success_total,
            datalens_log_requests_failure_total: self.datalens_log_requests_failure_total,
            datalens_block_requests_success_total: self.datalens_block_requests_success_total,
            datalens_block_requests_failure_total: self.datalens_block_requests_failure_total,
            datalens_tx_requests_success_total: self.datalens_tx_requests_success_total,
            datalens_tx_requests_failure_total: self.datalens_tx_requests_failure_total,
            reorg_rollbacks_total: self.reorg_rollbacks_total,
        }
    }
}

impl<S: Default> Default for RuntimeMetricsRow<S> {
    fn default() -> (row: Self)
        ensures
            row.is_blank(0, Seq::<char>::empty()),
    {
        RuntimeMetricsRow {
            chain_id: 0,
            dataset: String::new(),
            target_block: None,
            remaining_blocks: None,
            datalens_head_height: None,
            datalens_head_observed_timestamp_seconds: None,
            datalens_head_advanced_timestamp_seconds: None,
            chain_last_success_timestamp_seconds: None,
            checkpoint_last_forward_advance_timestamp_seconds: None,
            consecutive_failures: 0,
            chain_pass_success_total: 0,
            chain_pass_failure_total: 0,
            ranges_success_total: 0,
            ranges_failure_total: 0,
            blocks_processed_total: 0,
            records_read_total: 0,
            records_decoded_total: 0,
            records_written_total: 0,
            batch_duration_seconds_sum: S::default(),
            batch_duration_seconds_count: 0,
            datalens_log_requests_success_total: 0,
            datalens_log_requests_failure_total: 0,
            datalens_block_requests_success_total: 0,
            datalens_block_requests_failure_total: 0,
            datalens_tx_requests_success_total: 0,
            datalens_tx_requests_failure_total: 0,
            reorg_rollbacks_total: 0,
        }
    }
}

impl<S> Scoped for RuntimeMetricsRow<S> {
    open spec fn key(&self) -> MetricsScopeKey {
        scope_key(self.chain_id, self.dataset@)
    }

    fn chain(&self) -> u64 {
        self.chain_id
    }

    fn dataset_name(&self) -> &str {
        self.dataset.as_str()
    }
}

/// The sum of two counts, held at the greatest count where it would exceed that.
pub open spec fn saturating_sum(a: u64, b: u64) -> u64 {
    if a + b > u64::MAX {
        u64::MAX
    } else {
        (a + b) as u64
    }
}

impl<S: Default> RuntimeMetricsRow<S> {
    /// A row of the given scope in which nothing has been recorded yet.
    pub open spec fn is_blank(&self, chain_id: u64, dataset: Seq<char>) -> bool {
        &&& self.chain_id == chain_id
        &&& self.dataset@ == dataset
        &&& self.target_block is None
        &&& self.remaining_blocks is None
        &&& self.datalens_head_height is None
        &&& self.datalens_head_observed_timestamp_seconds is None
        &&& self.datalens_head_advanced_timestamp_seconds is None
        &&& self.chain_last_success_timestamp_seconds is None
        &&& self.checkpoint_last_forward_advance_timestamp_seconds is None
        &&& self.consecutive_failures == 0
        &&& self.chain_pass_success_total == 0
        &&& self.chain_pass_failure_total == 0
        &&& self.ranges_success_total == 0
        &&& self.ranges_failure_total == 0
        &&& self.blocks_processed_total == 0
        &&& self.records_read_total == 0
        &&& self.records_decoded_total == 0
        &&& self.records_written_total == 0
        &&& call_ensures(S::default, (), self.batch_duration_seconds_sum)
        &&& self.batch_duration_seconds_count == 0
        &&& self.datalens_log_requests_success_total == 0
        &&& self.datalens_log_requests_failure_total == 0
        &&& self.datalens_block_requests_success_total == 0
        &&& self.datalens_block_requests_failure_total == 0
        &&& self.datalens_tx_requests_success_total == 0
        &&& self.datalens_tx_requests_failure_total == 0
        &&& self.reorg_rollbacks_total == 0
    }
}

impl<S> RuntimeMetricsRow<S> {
    /// The row after the head of the chain was observed at the time `now`. The head counts as
    /// advanced where it is the first one or is higher than the one before.
    pub open spec fn with_chain_head(self, now: S, latest_block: u64, target_block: u64) -> Self {
        RuntimeMetricsRow {
            datalens_head_height: Some(latest_block),
            target_block: Some(target_block),
            datalens_head_observed_timestamp_seconds: Some(now),
            datalens_head_advanced_timestamp_seconds: match self.datalens_head_height {
                Some(previous) if latest_block <= previous =>
                    self.datalens_head_advanced_timestamp_seconds,
                _ => Some(now),
            },
            ..self
        }
    }

    /// The row after a pass over the chain ended at the time `now`.
    pub open spec fn with_chain_pass(
        self,
        now: S,
        success: bool,
        consecutive_failures: u64,
    ) -> Self {
        if success {
            RuntimeMetricsRow {
                consecutive_failures,
                chain_pass_success_total: saturating_sum(self.chain_pass_success_total, 1),
                chain_last_success_timestamp_seconds: Some(now),
                ..self
            }
        } else {
            RuntimeMetricsRow {
                consecutive_failures,
                chain_pass_failure_total: saturating_sum(self.chain_pass_failure_total, 1),
                ..self
            }
        }
    }

    /// The row after the number of blocks that remain was observed.
    pub open spec fn with_remaining_blocks(self, remaining_blocks: u64) -> Self {
        RuntimeMetricsRow { remaining_blocks: Some(remaining_blocks), ..self }
    }

    /// The row after a range was processed by the time `now`; `duration_sum` is what the
    /// durations of all batches, this one included, amount to.
    pub open spec fn with_range_success<'a>(
        self,
        metrics: RangeSuccessMetrics<'a, S>,
        now: S,
        duration_sum: S,
    ) -> Self {
        RuntimeMetricsRow {
            ranges_success_total: saturating_sum(self.ranges_success_total, 1),
            blocks_processed_total: saturating_sum(
                self.blocks_processed_total,
                metrics.blocks_processed,
            ),
            records_read_total: saturating_sum(self.records_read_total, metrics.records_read),
            records_decoded_total: saturating_sum(
                self.records_decoded_total,
                metrics.records_decoded,
            ),
            records_written_total: saturating_sum(
                self.records_written_total,
                metrics.records_written,
            ),
            batch_duration_seconds_sum: duration_sum,
            batch_duration_seconds_count: saturating_sum(self.batch_duration_seconds_count, 1),
            remaining_blocks: Some(metrics.remaining_blocks),
            checkpoint_last_forward_advance_timestamp_seconds: Some(now),
            ..self
        }
    }

    /// The row after a range could not be processed.
    pub open spec fn with_range_failure(self) -> Self {
        RuntimeMetricsRow {
            ranges_failure_total: saturating_sum(self.ranges_failure_total, 1),
            ..self
        }
    }

    /// The row after a request. Requests are counted for the operations `logs`, `blocks` and
    /// `transactions`; a request of another operation leaves the row as it is.
    pub open spec fn with_datalens_request(self, operation: Seq<char>, success: bool) -> Self {
        if operation == "logs"@ {
            if success {
                RuntimeMetricsRow {
                    datalens_log_requests_success_total: saturating_sum(
                        self.datalens_log_requests_success_total,
                        1,
                    ),
                    ..self
                }
            } else {
                RuntimeMetricsRow {
                    datalens_log_requests_failure_total: saturating_sum(
                        self.datalens_log_requests_failure_total,
                        1,
                    ),
                    ..self
                }
            }
        } else if operation == "blocks"@ {
            if success {
                RuntimeMetricsRow {
                    datalens_block_requests_success_total: saturating_sum(
                        self.datalens_block_requests_success_total,
                        1,
                    ),
                    ..self
                }
            } else {
                RuntimeMetricsRow {
                    datalens_block_requests_failure_total: saturating_sum(
                        self.datalens_block_requests_failure_total,
                        1,
                    ),
                    ..self
                }
            }
        } else if operation == "transactions"@ {
            if success {
                RuntimeMetricsRow {
                    datalens_tx_requests_success_total: saturating_sum(
                        self.datalens_tx_requests_success_total,
                        1,
                    ),
                    ..self
                }
            } else {
                RuntimeMetricsRow {
                    datalens_tx_requests_failure_total: saturating_sum(
                        self.datalens_tx_requests_failure_total,
                        1,
                    ),
                    ..self
                }
            }
        } else {
            self
        }
    }

    /// The row after blocks were rolled back because the chain had reorganised.
    pub open spec fn with_reorg_rollback(self) -> Self {
        RuntimeMetricsRow {
            reorg_rollbacks_total: saturating_sum(self.reorg_rollbacks_total, 1),
            ..self
        }
    }

    /// What the parts of a row that are recorded together have to do with each other.
    pub open spec fn is_consistent(&self) -> bool {
        &&& self.target_block is Some == self.datalens_head_height is Some
        &&& self.datalens_head_observed_timestamp_seconds is Some
            == self.datalens_head_height is Some
        &&& self.datalens_head_advanced_timestamp_seconds is Some
            == self.datalens_head_height is Some
        &&& self.chain_last_success_timestamp_seconds is Some == (self.chain_pass_success_total > 0)
        &&& self.checkpoint_last_forward_advance_timestamp_seconds is Some == (
        self.ranges_success_total > 0)
        &&& self.batch_duration_seconds_count == self.ranges_success_total
        &&& self.ranges_success_total > 0 ==> self.remaining_blocks is Some
    }
}

/// Configured scopes and runtime rows at one moment, each in the order of the scopes.
#[derive(Debug, PartialEq)]
pub struct MetricsSnapshot<S> {
    pub configured_scopes: Vec<ConfiguredScopeMetricsRow>,
    pub runtime_rows: Vec<RuntimeMetricsRow<S>>,
}

impl<S> Default for MetricsSnapshot<S> {
    fn default() -> (snapshot: Self)
        ensures
            snapshot.configured_scopes@ == Seq::<ConfiguredScopeMetricsRow>::empty(),
            snapshot.runtime_rows@ == Seq::<RuntimeMetricsRow<S>>::empty(),
    {
        MetricsSnapshot { configured_scopes: Vec::new(), runtime_rows: Vec::new() }
    }
}

impl<S: Copy> Clone for MetricsSnapshot<S> {
    fn clone(&self) -> (snapshot: Self)
        ensures
            snapshot.configured_scopes@ == self.configured_scopes@,
            snapshot.runtime_rows@ == self.runtime_rows@,
    {
        MetricsSnapshot {
            configured_scopes: copy_rows(&self.configured_scopes),
            runtime_rows: copy_rows(&self.runtime_rows),
        }
    }
}

/// What a range that was processed amounted to.
pub struct RangeSuccessMetrics<'a, S> {
    pub chain_id: u64,
    pub dataset: &'a str,
    pub blocks_processed: u64,
    pub records_read: u64,
    pub records_decoded: u64,
    pub records_written: u64,
    pub remaining_blocks: u64,
    pub duration_seconds: S,
}

/// The part of the configuration that concerns the metrics.
pub struct RuntimeConfig {
    pub enabled_chains: Vec<EnabledChain>,
}

/// A chain that is to be indexed.
pub struct EnabledChain {
    pub chain_id: u64,
    pub start_block: u64,
    pub batch_size: u64,
    /// The dataset that the planner has for the chain; a chain for which it has none forms no
    /// scope.
    pub dataset: Option<String>,
}

/// All metrics of the process.
pub struct MetricsState<S> {
    configured_scopes: ScopeTable<ConfiguredScopeMetricsRow>,
    runtime_rows: ScopeTable<RuntimeMetricsRow<S>>,
}

impl<S> MetricsState<S> {
    /// The configured scopes.
    pub closed spec fn scopes(&self) -> Map<MetricsScopeKey, ConfiguredScopeMetricsRow> {
        self.configured_scopes.as_map()
    }

    /// The runtime rows by scope.
    pub closed spec fn runtime(&self) -> Map<MetricsScopeKey, RuntimeMetricsRow<S>> {
        self.runtime_rows.as_map()
    }

    pub closed spec fn wf(&self) -> bool {
        &&& self.configured_scopes.wf()
        &&& self.runtime_rows.wf()
        &&& forall|key: MetricsScopeKey| #[trigger]
            self.runtime().contains_key(key) ==> self.runtime()[key].is_consistent()
    }
}

impl<S> Default for MetricsState<S> {
    fn default() -> (state: Self)
        ensures
            state.wf(),
            state.scopes() == Map::<MetricsScopeKey, ConfiguredScopeMetricsRow>::empty(),
            state.runtime() == Map::<MetricsScopeKey, RuntimeMetricsRow<S>>::empty(),
    {
        MetricsState { configured_scopes: ScopeTable::new(), runtime_rows: ScopeTable::new() }
    }
}

/// The row that a recording for the scope `key` starts from: the row that the scope has, or a
/// blank one where it has none.
pub open spec fn starting_row<S: Default>(
    rows: Map<MetricsScopeKey, RuntimeMetricsRow<S>>,
    key: MetricsScopeKey,
    row: RuntimeMetricsRow<S>,
) -> bool {
    if rows.contains_key(key) {
        row == rows[key]
    } else {
        row.is_blank(key.chain_id, key.dataset)
    }
}

/// `after` is `before` with the row of the scope `key` changed from what it was to something
/// that `change` allows, and with no other row touched.
pub open spec fn recorded<S: Default>(
    before: Map<MetricsScopeKey, RuntimeMetricsRow<S>>,
    after: Map<MetricsScopeKey, RuntimeMetricsRow<S>>,
    key: MetricsScopeKey,
    change: spec_fn(RuntimeMetricsRow<S>, RuntimeMetricsRow<S>) -> bool,
) -> bool {
    &&& after == before.insert(key, after[key])
    &&& exists|row: RuntimeMetricsRow<S>| #[trigger]
        starting_row(before, key, row) && change(row, after[key])
}

/// The total of the scope `key` is higher by `by` than it was, or as high as a total gets. A scope
/// that had no row had a total of zero.
pub open spec fn raised<S>(
    before: Map<MetricsScopeKey, RuntimeMetricsRow<S>>,
    after: Map<MetricsScopeKey, RuntimeMetricsRow<S>>,
    key: MetricsScopeKey,
    total: spec_fn(RuntimeMetricsRow<S>) -> u64,
    by: int,
) -> bool {
    let earlier: int = if before.contains_key(key) {
        total(before[key]) as int
    } else {
        0
    };
    total(after[key]) == (if earlier + by <= u64::MAX {
        earlier + by
    } else {
        u64::MAX as int
    })
}

/// A blank row for a scope.
fn runtime_row<S: Default>(chain_id: u64, dataset: &str) -> (row: RuntimeMetricsRow<S>)
    ensures
        row.is_blank(chain_id, dataset@),
{
    let mut row: RuntimeMetricsRow<S> = Default::default();
    row.chain_id = chain_id;
    row.dataset = dataset.to_owned();
    row
}

impl<S: Default> MetricsState<S> {
    /// Gives access to the row of a scope, blank where nothing was recorded for it yet.
    fn runtime_entry(&mut self, chain_id: u64, dataset: &str) -> (row: &mut RuntimeMetricsRow<S>)
        requires
            old(self).wf(),
        ensures
            starting_row(old(self).runtime(), scope_key(chain_id, dataset@), *row),
            row.key() == scope_key(chain_id, dataset@),
            row.is_consistent(),
            final(row).key() == scope_key(chain_id, dataset@) && final(row).is_consistent() ==> {
                &&& final(self).wf()
                &&& final(self).scopes() == old(self).scopes()
                &&& final(self).runtime() == old(self).runtime().insert(
                    scope_key(chain_id, dataset@),
                    *final(row),
                )
            },
    {
        let blank = runtime_row(chain_id, dataset);
        proof {
            let key = scope_key(chain_id, dataset@);
            if self.runtime().contains_key(key) {
                let rows = self.runtime_rows.listing();
                let i = choose|i: int| crate::scope::holds_at(rows, key, i);
                crate::scope::lemma_by_scope(rows, i);
            }
        }
        self.runtime_rows.entry_or_insert(blank)
    }
}

/// The scope that a chain forms with its dataset.
pub open spec fn configured_row(chain: EnabledChain) -> ConfiguredScopeMetricsRow
    recommends
        chain.dataset is Some,
{
    ConfiguredScopeMetricsRow {
        chain_id: chain.chain_id,
        dataset: chain.dataset->0,
        start_block: chain.start_block,
        batch_size: chain.batch_size,
    }
}

/// The configured scopes after those of some chains were added one after the other: a scope
/// that was configured before is configured anew.
pub open spec fn configured(
    before: Map<MetricsScopeKey, ConfiguredScopeMetricsRow>,
    chains: Seq<EnabledChain>,
) -> Map<MetricsScopeKey, ConfiguredScopeMetricsRow>
    decreases chains.len(),
{
    if chains.len() == 0 {
        before
    } else {
        let earlier = configured(before, chains.drop_last());
        match chains.last().dataset {
            Some(dataset) => earlier.insert(
                scope_key(chains.last().chain_id, dataset@),
                configured_row(chains.last()),
            ),
            None => earlier,
        }
    }
}

/// Records what is configured for the scopes of the enabled chains.
pub fn record_configured_scopes<S>(state: &mut MetricsState<S>, config: &RuntimeConfig)
    requires
        old(state).wf(),
    ensures
        final(state).wf(),
        final(state).scopes() == configured(old(state).scopes(), config.enabled_chains@),
        final(state).runtime() == old(state).runtime(),
{
    let ghost chains = config.enabled_chains@;
    let mut index: usize = 0;
    while index < config.enabled_chains.len()
        invariant
            chains == config.enabled_chains@,
            index <= chains.len(),
            state.wf(),
            state.scopes() == configured(old(state).scopes(), chains.take(index as int)),
            state.runtime() == old(state).runtime(),
        decreases chains.len() - index,
    {
        let chain = &config.enabled_chains[index];
        assert(chains.take(index + 1).drop_last() =~= chains.take(index as int));
        match &chain.dataset {
            Some(dataset) => {
                state.configured_scopes.insert(
                    ConfiguredScopeMetricsRow {
                        chain_id: chain.chain_id,
                        dataset: dataset.clone(),
                        start_block: chain.start_block,
                        batch_size: chain.batch_size,
                    },
                );
            },
            None => {},
        }
        index += 1;
    }
    assert(chains.take(chains.len() as int) =~= chains);
}

/// Records that at the time `now` the chain had its head at `latest_block`, of which the blocks
/// up to `target_block` are to be indexed.
pub fn record_chain_head<S: Copy + Default>(
    state: &mut MetricsState<S>,
    now: S,
    chain_id: u64,
    dataset: &str,
    latest_block: u64,
    target_block: u64,
)
    requires
        old(state).wf(),
    ensures
        final(state).wf(),
        final(state).scopes() == old(state).scopes(),
        recorded(
            old(state).runtime(),
            final(state).runtime(),
            scope_key(chain_id, dataset@),
            |row: RuntimeMetricsRow<S>, changed: RuntimeMetricsRow<S>|
                changed == row.with_chain_head(now, latest_block, target_block),
        ),
        final(state).runtime().contains_key(scope_key(chain_id, dataset@)),
        final(state).runtime()[scope_key(chain_id, dataset@)].datalens_head_height == Some(
            latest_block,
        ),
        final(state).runtime()[scope_key(chain_id, dataset@)].target_block == Some(
            target_block,
        ),
        final(state).runtime()[scope_key(
            chain_id,
            dataset@,
        )].datalens_head_observed_timestamp_seconds == Some(now),
        ({
            let key = scope_key(chain_id, dataset@);
            let before = old(state).runtime();
            let after = final(state).runtime();
            let behind = before.contains_key(key) && before[key].datalens_head_height is Some
                && latest_block <= before[key].datalens_head_height->0;
            after[key].datalens_head_advanced_timestamp_seconds == (if behind {
                before[key].datalens_head_advanced_timestamp_seconds
            } else {
                Some(now)
            })
        }),
{
    let row = state.runtime_entry(chain_id, dataset);
    let advanced = match row.datalens_head_height {
        Some(previous) => latest_block > previous,
        None => true,
    };
    row.datalens_head_height = Some(latest_block);
    row.target_block = Some(target_block);
    row.datalens_head_observed_timestamp_seconds = Some(now);
    if advanced {
        row.datalens_head_advanced_timestamp_seconds = Some(now);
    }
}

/// Records that a pass over the chain ended at the time `now`, and how many passes in a row have
/// failed by then.
pub fn record_chain_pass<S: Copy + Default>(
    state: &mut MetricsState<S>,
    now: S,
    chain_id: u64,
    dataset: &str,
    success: bool,
    consecutive_failures: u64,
)
    requires
        old(state).wf(),
    ensures
        final(state).wf(),
        final(state).scopes() == old(state).scopes(),
        recorded(
            old(state).runtime(),
            final(state).runtime(),
            scope_key(chain_id, dataset@),
            |row: RuntimeMetricsRow<S>, changed: RuntimeMetricsRow<S>|
                changed == row.with_chain_pass(now, success, consecutive_failures),
        ),
        final(state).runtime().contains_key(scope_key(chain_id, dataset@)),
        final(state).runtime()[scope_key(chain_id, dataset@)].consecutive_failures
            == consecutive_failures,
        success ==> final(state).runtime()[scope_key(
            chain_id,
            dataset@,
        )].chain_last_success_timestamp_seconds == Some(now),
        raised(
            old(state).runtime(),
            final(state).runtime(),
            scope_key(chain_id, dataset@),
            |row: RuntimeMetricsRow<S>| row.chain_pass_success_total,
            if success {
                1
            } else {
                0
            },
        ),
        raised(
            old(state).runtime(),
            final(state).runtime(),
            scope_key(chain_id, dataset@),
            |row: RuntimeMetricsRow<S>| row.chain_pass_failure_total,
            if !success {
                1
            } else {
                0
            },
        ),
{
    let row = state.runtime_entry(chain_id, dataset);
    row.consecutive_failures = consecutive_failures;
    if success {
        row.chain_pass_success_total = row.chain_pass_success_total.saturating_add(1);
        row.chain_last_success_timestamp_seconds = Some(now);
    } else {
        row.chain_pass_failure_total = row.chain_pass_failure_total.saturating_add(1);
    }
}

/// Records how many blocks remain to be indexed.
pub fn record_remaining_blocks<S: Copy + Default>(
    state: &mut MetricsState<S>,
    chain_id: u64,
    dataset: &str,
    remaining_blocks: u64,
)
    requires
        old(state).wf(),
    ensures
        final(state).wf(),
        final(state).scopes() == old(state).scopes(),
        recorded(
            old(state).runtime(),
            final(state).runtime(),
            scope_key(chain_id, dataset@),
            |row: RuntimeMetricsRow<S>, changed: RuntimeMetricsRow<S>|
                changed == row.with_remaining_blocks(remaining_blocks),
        ),
        final(state).runtime().contains_key(scope_key(chain_id, dataset@)),
        final(state).runtime()[scope_key(chain_id, dataset@)].remaining_blocks == Some(
            remaining_blocks,
        ),
{
    let row = state.runtime_entry(chain_id, dataset);
    row.remaining_blocks = Some(remaining_blocks);
}

/// Records that by the time `now` a range was processed. `accumulate` adds the duration of a
/// batch to the sum of the durations before it.
pub fn record_range_success<S: Copy + Default>(
    state: &mut MetricsState<S>,
    now: S,
    metrics: RangeSuccessMetrics<'_, S>,
    accumulate: impl Fn(S, S) -> S,
)
    requires
        old(state).wf(),
        forall|sum: S| #[trigger] call_requires(accumulate, (sum, metrics.duration_seconds)),
    ensures
        final(state).wf(),
        final(state).scopes() == old(state).scopes(),
        recorded(
            old(state).runtime(),
            final(state).runtime(),
            scope_key(metrics.chain_id, metrics.dataset@),
            |row: RuntimeMetricsRow<S>, changed: RuntimeMetricsRow<S>|
                exists|sum: S|
                    #[trigger] call_ensures(
                        accumulate,
                        (row.batch_duration_seconds_sum, metrics.duration_seconds),
                        sum,
                    ) && changed == row.with_range_success(metrics, now, sum),
        ),
        final(state).runtime().contains_key(scope_key(metrics.chain_id, metrics.dataset@)),
        final(state).runtime()[scope_key(metrics.chain_id, metrics.dataset@)].remaining_blocks
            == Some(metrics.remaining_blocks),
        final(state).runtime()[scope_key(
            metrics.chain_id,
            metrics.dataset@,
        )].checkpoint_last_forward_advance_timestamp_seconds == Some(now),
        raised(
            old(state).runtime(),
            final(state).runtime(),
            scope_key(metrics.chain_id, metrics.dataset@),
            |row: RuntimeMetricsRow<S>| row.ranges_success_total,
            1,
        ),
        raised(
            old(state).runtime(),
            final(state).runtime(),
            scope_key(metrics.chain_id, metrics.dataset@),
            |row: RuntimeMetricsRow<S>| row.batch_duration_seconds_count,
            1,
        ),
        raised(
            old(state).runtime(),
            final(state).runtime(),
            scope_key(metrics.chain_id, metrics.dataset@),
            |row: RuntimeMetricsRow<S>| row.blocks_processed_total,
            metrics.blocks_processed as int,
        ),
        raised(
            old(state).runtime(),
            final(state).runtime(),
            scope_key(metrics.chain_id, metrics.dataset@),
            |row: RuntimeMetricsRow<S>| row.records_read_total,
            metrics.records_read as int,
        ),
        raised(
            old(state).runtime(),
            final(state).runtime(),
            scope_key(metrics.chain_id, metrics.dataset@),
            |row: RuntimeMetricsRow<S>| row.records_decoded_total,
            metrics.records_decoded as int,
        ),
        raised(
            old(state).runtime(),
            final(state).runtime(),
            scope_key(metrics.chain_id, metrics.dataset@),
            |row: RuntimeMetricsRow<S>| row.records_written_total,
            metrics.records_written as int,
        ),
        old(state).runtime().contains_key(scope_key(metrics.chain_id, metrics.dataset@))
            ==> call_ensures(
            accumulate,
            (
                old(state).runtime()[scope_key(
                    metrics.chain_id,
                    metrics.dataset@,
                )].batch_duration_seconds_sum,
                metrics.duration_seconds,
            ),
            final(state).runtime()[scope_key(
                metrics.chain_id,
                metrics.dataset@,
            )].batch_duration_seconds_sum,
        ),
{
    let row = state.runtime_entry(metrics.chain_id, metrics.dataset);
    row.ranges_success_total = row.ranges_success_total.saturating_add(1);
    row.blocks_processed_total = row.blocks_processed_total.saturating_add(
        metrics.blocks_processed,
    );
    row.records_read_total = row.records_read_total.saturating_add(metrics.records_read);
    row.records_decoded_total = row.records_decoded_total.saturating_add(metrics.records_decoded);
    row.records_written_total = row.records_written_total.saturating_add(metrics.records_written);
    row.batch_duration_seconds_sum = accumulate(
        row.batch_duration_seconds_sum,
        metrics.duration_seconds,
    );
    row.batch_duration_seconds_count = row.batch_duration_seconds_count.saturating_add(1);
    row.remaining_blocks = Some(metrics.remaining_blocks);
    row.checkpoint_last_forward_advance_timestamp_seconds = Some(now);
}

/// Records that a range could not be processed.
pub fn record_range_failure<S: Copy + Default>(
    state: &mut MetricsState<S>,
    chain_id: u64,
    dataset: &str,
)
    requires
        old(state).wf(),
    ensures
        final(state).wf(),
        final(state).scopes() == old(state).scopes(),
        recorded(
            old(state).runtime(),
            final(state).runtime(),
            scope_key(chain_id, dataset@),
            |row: RuntimeMetricsRow<S>, changed: RuntimeMetricsRow<S>|
                changed == row.with_range_failure(),
        ),
        final(state).runtime().contains_key(scope_key(chain_id, dataset@)),
        raised(
            old(state).runtime(),
            final(state).runtime(),
            scope_key(chain_id, dataset@),
            |row: RuntimeMetricsRow<S>| row.ranges_failure_total,
            1,
        ),
{
    let row = state.runtime_entry(chain_id, dataset);
    row.ranges_failure_total = row.ranges_failure_total.saturating_add(1);
}

/// Records a request and whether it succeeded.
pub fn record_datalens_request<S: Copy + Default>(
    state: &mut MetricsState<S>,
    chain_id: u64,
    dataset: &str,
    operation: &str,
    success: bool,
)
    requires
        old(state).wf(),
    ensures
        final(state).wf(),
        final(state).scopes() == old(state).scopes(),
        recorded(
            old(state).runtime(),
            final(state).runtime(),
            scope_key(chain_id, dataset@),
            |row: RuntimeMetricsRow<S>, changed: RuntimeMetricsRow<S>|
                changed == row.with_datalens_request(operation@, success),
        ),
        final(state).runtime().contains_key(scope_key(chain_id, dataset@)),
        raised(
            old(state).runtime(),
            final(state).runtime(),
            scope_key(chain_id, dataset@),
            |row: RuntimeMetricsRow<S>| row.datalens_log_requests_success_total,
            if operation@ == "logs"@ && success {
                1
            } else {
                0
            },
        ),
        raised(
            old(state).runtime(),
            final(state).runtime(),
            scope_key(chain_id, dataset@),
            |row: RuntimeMetricsRow<S>| row.datalens_log_requests_failure_total,
            if operation@ == "logs"@ && !success {
                1
            } else {
                0
            },
        ),
        raised(
            old(state).runtime(),
            final(state).runtime(),
            scope_key(chain_id, dataset@),
            |row: RuntimeMetricsRow<S>| row.datalens_block_requests_success_total,
            if operation@ == "blocks"@ && success {
                1
            } else {
                0
            },
        ),
        raised(
            old(state).runtime(),
            final(state).runtime(),
            scope_key(chain_id, dataset@),
            |row: RuntimeMetricsRow<S>| row.datalens_block_requests_failure_total,
            if operation@ == "blocks"@ && !success {
                1
            } else {
                0
            },
        ),
        raised(
            old(state).runtime(),
            final(state).runtime(),
            scope_key(chain_id, dataset@),
            |row: RuntimeMetricsRow<S>| row.datalens_tx_requests_success_total,
            if operation@ == "transactions"@ && success {
                1
            } else {
                0
            },
        ),
        raised(
            old(state).runtime(),
            final(state).runtime(),
            scope_key(chain_id, dataset@),
            |row: RuntimeMetricsRow<S>| row.datalens_tx_requests_failure_total,
            if operation@ == "transactions"@ && !success {
                1
            } else {
                0
            },
        ),
{
    proof {
        reveal_strlit("logs");
        reveal_strlit("blocks");
        reveal_strlit("transactions");
        assert("logs"@.len() == 4 && "blocks"@.len() == 6 && "transactions"@.len() == 12);
    }
    let row = state.runtime_entry(chain_id, dataset);
    if same_text(operation, "logs") {
        if success {
            row.datalens_log_requests_success_total =
            row.datalens_log_requests_success_total.saturating_add(1);
        } else {
            row.datalens_log_requests_failure_total =
            row.datalens_log_requests_failure_total.saturating_add(1);
        }
    } else if same_text(operation, "blocks") {
        if success {
            row.datalens_block_requests_success_total =
            row.datalens_block_requests_success_total.saturating_add(1);
        } else {
            row.datalens_block_requests_failure_total =
            row.datalens_block_requests_failure_total.saturating_add(1);
        }
    } else if same_text(operation, "transactions") {
        if success {
            row.datalens_tx_requests_success_total =
            row.datalens_tx_requests_success_total.saturating_add(1);
        } else {
            row.datalens_tx_requests_failure_total =
            row.datalens_tx_requests_failure_total.saturating_add(1);
        }
    }
}

/// Records that blocks were rolled back because the chain had reorganised.
pub fn record_reorg_rollback<S: Copy + Default>(
    state: &mut MetricsState<S>,
    chain_id: u64,
    dataset: &str,
)
    requires
        old(state).wf(),
    ensures
        final(state).wf(),
        final(state).scopes() == old(state).scopes(),
        recorded(
            old(state).runtime(),
            final(state).runtime(),
            scope_key(chain_id, dataset@),
            |row: RuntimeMetricsRow<S>, changed: RuntimeMetricsRow<S>|
                changed == row.with_reorg_rollback(),
        ),
        final(state).runtime().contains_key(scope_key(chain_id, dataset@)),
        raised(
            old(state).runtime(),
            final(state).runtime(),
            scope_key(chain_id, dataset@),
            |row: RuntimeMetricsRow<S>| row.reorg_rollbacks_total,
            1,
        ),
{
    let row = state.runtime_entry(chain_id, dataset);
    row.reorg_rollbacks_total = row.reorg_rollbacks_total.saturating_add(1);
}

/// Copies rows.
fn copy_rows<R: Clone>(rows: &Vec<R>) -> (copy: Vec<R>)
    requires
        forall|row: R, copy: R| #[trigger] cloned(row, copy) ==> copy == row,
    ensures
        copy@ == rows@,
{
    let mut copy: Vec<R> = Vec::new();
    for index in 0..rows.len()
        invariant
            forall|row: R, copy: R| #[trigger] cloned(row, copy) ==> copy == row,
            copy@ == rows@.take(index as int),
    {
        let row = rows[index].clone();
        assert(cloned(rows@[index as int], row));
        copy.push(row);
        assert(rows@.take(index + 1) =~= rows@.take(index as int).push(row));
    }
    assert(rows@.take(rows@.len() as int) =~= rows@);
    copy
}

/// All configured scopes and all runtime rows, each in the order of the scopes.
pub fn snapshot<S: Copy>(state: &MetricsState<S>) -> (snapshot: MetricsSnapshot<S>)
    requires
        state.wf(),
    ensures
        ascending(snapshot.configured_scopes@),
        by_scope(snapshot.configured_scopes@) == state.scopes(),
        ascending(snapshot.runtime_rows@),
        by_scope(snapshot.runtime_rows@) == state.runtime(),
{
    MetricsSnapshot {
        configured_scopes: copy_rows(state.configured_scopes.rows()),
        runtime_rows: copy_rows(state.runtime_rows.rows()),
    }
}

impl<S> RuntimeMetricsRow<S> {
    /// No total of this row is greater than that of the other.
    pub open spec fn totals_at_most(&self, other: Self) -> bool {
        &&& self.chain_pass_success_total <= other.chain_pass_success_total
        &&& self.chain_pass_failure_total <= other.chain_pass_failure_total
        &&& self.ranges_success_total <= other.ranges_success_total
        &&& self.ranges_failure_total <= other.ranges_failure_total
        &&& self.blocks_processed_total <= other.blocks_processed_total
        &&& self.records_read_total <= other.records_read_total
        &&& self.records_decoded_total <= other.records_decoded_total
        &&& self.records_written_total <= other.records_written_total
        &&& self.batch_duration_seconds_count <= other.batch_duration_seconds_count
        &&& self.datalens_log_requests_success_total <= other.datalens_log_requests_success_total
        &&& self.datalens_log_requests_failure_total <= other.datalens_log_requests_failure_total
        &&& self.datalens_block_requests_success_total
            <= other.datalens_block_requests_success_total
        &&& self.datalens_block_requests_failure_total
            <= other.datalens_block_requests_failure_total
        &&& self.datalens_tx_requests_success_total <= other.datalens_tx_requests_success_total
        &&& self.datalens_tx_requests_failure_total <= other.datalens_tx_requests_failure_total
        &&& self.reorg_rollbacks_total <= other.reorg_rollbacks_total
    }
}

/// Every row of a state stands under its own scope, and what is recorded together in it fits
/// together: the head of the chain is known with its target and its times or not at all, a time
/// of success stands exactly where there was one, and every range that was processed counts as
/// one batch.
pub proof fn lemma_rows_are_consistent<S>(state: MetricsState<S>, key: MetricsScopeKey)
    requires
        state.wf(),
    ensures
        state.runtime().contains_key(key) ==> state.runtime()[key].key() == key
            && state.runtime()[key].is_consistent(),
        state.scopes().contains_key(key) ==> state.scopes()[key].key() == key,
{
    if state.runtime().contains_key(key) {
        let rows = state.runtime_rows.listing();
        let i = choose|i: int| crate::scope::holds_at(rows, key, i);
        crate::scope::lemma_by_scope(rows, i);
    }
    if state.scopes().contains_key(key) {
        let rows = state.configured_scopes.listing();
        let i = choose|i: int| crate::scope::holds_at(rows, key, i);
        crate::scope::lemma_by_scope(rows, i);
    }
}

/// Whatever is recorded in a row, none of its totals decreases.
pub proof fn lemma_totals_never_decrease<S>(
    row: RuntimeMetricsRow<S>,
    now: S,
    first: u64,
    second: u64,
    success: bool,
    operation: Seq<char>,
    metrics: RangeSuccessMetrics<'_, S>,
    duration_sum: S,
)
    ensures
        row.totals_at_most(row.with_chain_head(now, first, second)),
        row.totals_at_most(row.with_chain_pass(now, success, first)),
        row.totals_at_most(row.with_remaining_blocks(first)),
        row.totals_at_most(row.with_range_success(metrics, now, duration_sum)),
        row.totals_at_most(row.with_range_failure()),
        row.totals_at_most(row.with_datalens_request(operation, success)),
        row.totals_at_most(row.with_reorg_rollback()),
{
}

/// A recording that lowers no total of the row that it changes lowers none of any row.
pub proof fn lemma_recording_lowers_no_total<S: Default>(
    before: Map<MetricsScopeKey, RuntimeMetricsRow<S>>,
    after: Map<MetricsScopeKey, RuntimeMetricsRow<S>>,
    key: MetricsScopeKey,
    change: spec_fn(RuntimeMetricsRow<S>, RuntimeMetricsRow<S>) -> bool,
    other: MetricsScopeKey,
)
    requires
        recorded(before, after, key, change),
        forall|row: RuntimeMetricsRow<S>, changed: RuntimeMetricsRow<S>| #[trigger]
            change(row, changed) ==> row.totals_at_most(changed),
        before.contains_key(other),
    ensures
        after.contains_key(other),
        before[other].totals_at_most(after[other]),
{
}

/// A recording for one scope leaves the rows of all other scopes as they were, and leaves that
/// scope with a row.
pub proof fn lemma_recording_touches_one_scope<S: Default>(
    before: Map<MetricsScopeKey, RuntimeMetricsRow<S>>,
    after: Map<MetricsScopeKey, RuntimeMetricsRow<S>>,
    key: MetricsScopeKey,
    change: spec_fn(RuntimeMetricsRow<S>, RuntimeMetricsRow<S>) -> bool,
    other: MetricsScopeKey,
)
    requires
        recorded(before, after, key, change),
    ensures
        after.contains_key(key),
        other != key ==> after.contains_key(other) == before.contains_key(other),
        other != key && before.contains_key(other) ==> after[other] == before[other],
{
}

/// Recordings for two different scopes come to the same in either order.
pub proof fn lemma_recordings_commute<S: Default>(
    before: Map<MetricsScopeKey, RuntimeMetricsRow<S>>,
    between: Map<MetricsScopeKey, RuntimeMetricsRow<S>>,
    after: Map<MetricsScopeKey, RuntimeMetricsRow<S>>,
    first: MetricsScopeKey,
    first_change: spec_fn(RuntimeMetricsRow<S>, RuntimeMetricsRow<S>) -> bool,
    second: MetricsScopeKey,
    second_change: spec_fn(RuntimeMetricsRow<S>, RuntimeMetricsRow<S>) -> bool,
)
    requires
        first != second,
        recorded(before, between, first, first_change),
        recorded(between, after, second, second_change),
    ensures
        exists|other: Map<MetricsScopeKey, RuntimeMetricsRow<S>>|
            recorded(before, other, second, second_change) && recorded(
                other,
                after,
                first,
                first_change,
            ),
{
    let row = choose|row: RuntimeMetricsRow<S>| #[trigger]
        starting_row(before, first, row) && first_change(row, between[first]);
    let other_row = choose|other_row: RuntimeMetricsRow<S>| #[trigger]
        starting_row(between, second, other_row) && second_change(other_row, after[second]);
    let other = before.insert(second, after[second]);
    assert(starting_row(before, second, other_row));
    assert(starting_row(other, first, row));
    assert(after =~= other.insert(first, after[first]));
    assert(recorded(before, other, second, second_change));
    assert(recorded(other, after, first, first_change));
}

/// Two requests recorded in a row come to the same in either order.
pub proof fn lemma_requests_commute<S>(
    row: RuntimeMetricsRow<S>,
    a: Seq<char>,
    x: bool,
    b: Seq<char>,
    y: bool,
)
    ensures
        row.with_datalens_request(a, x).with_datalens_request(b, y)
            == row.with_datalens_request(b, y).with_datalens_request(a, x),
{
}

/// Of two observations of the number of blocks that remain, the later one counts.
pub proof fn lemma_last_remaining_blocks_count<S>(
    row: RuntimeMetricsRow<S>,
    earlier: u64,
    later: u64,
)
    ensures
        row.with_remaining_blocks(earlier).with_remaining_blocks(later)
            == row.with_remaining_blocks(later),
{
}

/// A head that is not above the one before it leaves the time of the last advance as it was,
/// and a head above it sets that time; the time of the last observation is set by either.
pub proof fn lemma_head_advances_upwards_only<S>(
    row: RuntimeMetricsRow<S>,
    earlier: S,
    height: u64,
    target: u64,
    later: S,
    next_height: u64,
    next_target: u64,
)
    ensures
        ({
            let once = row.with_chain_head(earlier, height, target);
            let twice = once.with_chain_head(later, next_height, next_target);
            &&& twice.datalens_head_observed_timestamp_seconds == Some(later)
            &&& twice.datalens_head_advanced_timestamp_seconds == (if next_height > height {
                Some(later)
            } else {
                once.datalens_head_advanced_timestamp_seconds
            })
        }),
{
}

/// The chain forms the scope `key`.
pub open spec fn forms_scope(chain: EnabledChain, key: MetricsScopeKey) -> bool {
    &&& chain.dataset is Some
    &&& scope_key(chain.chain_id, chain.dataset->0@) == key
}

/// What is configured for a scope is what the last of the chains that form it says, and what it
/// was before where no chain forms it.
pub proof fn lemma_last_chain_configures(
    before: Map<MetricsScopeKey, ConfiguredScopeMetricsRow>,
    chains: Seq<EnabledChain>,
    key: MetricsScopeKey,
)
    ensures
        forall|i: int|
            {
                &&& 0 <= i < chains.len()
                &&& forms_scope(#[trigger] chains[i], key)
                &&& forall|j: int| i < j < chains.len() ==> !forms_scope(#[trigger] chains[j], key)
            } ==> configured(before, chains).contains_key(key) && configured(before, chains)[key]
                == configured_row(chains[i]),
        (forall|i: int| 0 <= i < chains.len() ==> !forms_scope(#[trigger] chains[i], key)) ==> {
            &&& configured(before, chains).contains_key(key) == before.contains_key(key)
            &&& before.contains_key(key) ==> configured(before, chains)[key] == before[key]
        },
    decreases chains.len(),
{
    if chains.len() > 0 {
        let shorter = chains.drop_last();
        let end = chains.len() - 1;
        lemma_last_chain_configures(before, shorter, key);
        assert forall|i: int|
            {
                &&& 0 <= i < chains.len()
                &&& forms_scope(#[trigger] chains[i], key)
                &&& forall|j: int| i < j < chains.len() ==> !forms_scope(#[trigger] chains[j], key)
            } implies configured(before, chains).contains_key(key) && configured(
            before,
            chains,
        )[key] == configured_row(chains[i]) by {
            if i < end {
                assert(!forms_scope(chains[end], key));
                assert(forms_scope(shorter[i], key));
                assert forall|j: int| i < j < shorter.len() implies !forms_scope(
                    #[trigger] shorter[j],
                    key,
                ) by {
                    assert(!forms_scope(chains[j], key));
                }
            }
        }
        if forall|i: int| 0 <= i < chains.len() ==> !forms_scope(#[trigger] chains[i], key) {
            assert(!forms_scope(chains[end], key));
            assert forall|i: int| 0 <= i < shorter.len() implies !forms_scope(
                #[trigger] shorter[i],
                key,
            ) by {
                assert(!forms_scope(chains[i], key));
            }
        }
    }
}

/// The last chain that forms the scope, among some of which one does.
proof fn lemma_last_chain_exists(
    chains: Seq<EnabledChain>,
    key: MetricsScopeKey,
    k: int,
) -> (i: int)
    requires
        0 <= k < chains.len(),
        forms_scope(chains[k], key),
    ensures
        0 <= i < chains.len(),
        forms_scope(chains[i], key),
        forall|j: int| i < j < chains.len() ==> !forms_scope(#[trigger] chains[j], key),
    decreases chains.len() - k,
{
    if forall|j: int| k < j < chains.len() ==> !forms_scope(#[trigger] chains[j], key) {
        k
    } else {
        let j = choose|j: int| k < j < chains.len() && forms_scope(#[trigger] chains[j], key);
        lemma_last_chain_exists(chains, key, j)
    }
}

/// Recording the same configuration once more changes nothing.
pub proof fn lemma_reconfiguring_changes_nothing(
    before: Map<MetricsScopeKey, ConfiguredScopeMetricsRow>,
    chains: Seq<EnabledChain>,
)
    ensures
        configured(configured(before, chains), chains) == configured(before, chains),
{
    let once = configured(before, chains);
    let twice = configured(once, chains);
    assert forall|key: MetricsScopeKey|
        (#[trigger] twice.contains_key(key)) == once.contains_key(key) && (once.contains_key(key)
            ==> twice[key] == once[key]) by {
        lemma_last_chain_configures(before, chains, key);
        lemma_last_chain_configures(once, chains, key);
        if exists|k: int| 0 <= k < chains.len() && forms_scope(#[trigger] chains[k], key) {
            let k = choose|k: int| 0 <= k < chains.len() && forms_scope(#[trigger] chains[k], key);
            let i = lemma_last_chain_exists(chains, key, k);
            assert(twice[key] == configured_row(chains[i]));
        }
    }
    assert(twice =~= once);
}

/// A scope that was configured stays configured.
pub proof fn lemma_configured_scopes_stay(
    before: Map<MetricsScopeKey, ConfiguredScopeMetricsRow>,
    chains: Seq<EnabledChain>,
    key: MetricsScopeKey,
)
    requires
        before.contains_key(key),
    ensures
        configured(before, chains).contains_key(key),
    decreases chains.len(),
{
    if chains.len() > 0 {
        lemma_configured_scopes_stay(before, chains.drop_last(), key);
    }
}

/// A listing holds every row of the map that it lists, and no other: what was recorded last for a
/// scope is what a snapshot shows for it.
pub proof fn lemma_listing_shows_every_row<R: Scoped>(
    listing: Seq<R>,
    rows: Map<MetricsScopeKey, R>,
    key: MetricsScopeKey,
)
    requires
        ascending(listing),
        by_scope(listing) == rows,
    ensures
        rows.contains_key(key) ==> exists|i: int|
            0 <= i < listing.len() && #[trigger] listing[i] == rows[key] && listing[i].key()
                == key,
        !rows.contains_key(key) ==> forall|i: int|
            0 <= i < listing.len() ==> (#[trigger] listing[i]).key() != key,
{
    if rows.contains_key(key) {
        let i = choose|i: int| crate::scope::holds_at(listing, key, i);
        crate::scope::lemma_by_scope(listing, i);
        assert(listing[i] == rows[key]);
    } else {
        assert forall|i: int| 0 <= i < listing.len() implies (#[trigger] listing[i]).key()
            != key by {
            crate::scope::lemma_by_scope(listing, i);
        }
    }
}

} // verus!
