//! Requests may be recorded in any order: what a snapshot shows afterwards is the same.
use crate::metrics::{
    lemma_recordings_commute, lemma_requests_commute, recorded, starting_row, MetricsSnapshot,
    MetricsState, RuntimeMetricsRow,
};
use crate::scope::{
    ascending, by_scope, holds_at, lemma_by_scope, lemma_drop_last, lemma_listing_is_unique,
    lemma_scope_order_is_asymmetric, MetricsScopeKey, Scoped,
};
use vstd::prelude::*;

verus! {

/// A request as it is recorded: the scope for which it was made, its operation, and whether it
/// succeeded.
pub struct DatalensRequest {
    pub scope: MetricsScopeKey,
    pub operation: Seq<char>,
    pub success: bool,
}

/// `after` is `before` with the request recorded.
pub open spec fn request_recorded<S: Default>(
    before: Map<MetricsScopeKey, RuntimeMetricsRow<S>>,
    after: Map<MetricsScopeKey, RuntimeMetricsRow<S>>,
    request: DatalensRequest,
) -> bool {
    recorded(
        before,
        after,
        request.scope,
        |row: RuntimeMetricsRow<S>, changed: RuntimeMetricsRow<S>|
            changed == row.with_datalens_request(request.operation, request.success),
    )
}

/// `after` is `before` with the requests recorded one after the other.
pub open spec fn requests_recorded<S: Default>(
    before: Map<MetricsScopeKey, RuntimeMetricsRow<S>>,
    after: Map<MetricsScopeKey, RuntimeMetricsRow<S>>,
    requests: Seq<DatalensRequest>,
) -> bool
    decreases requests.len(),
{
    if requests.len() == 0 {
        after == before
    } else {
        exists|between: Map<MetricsScopeKey, RuntimeMetricsRow<S>>|
            requests_recorded(before, between, requests.drop_last())
                && #[trigger] request_recorded(between, after, requests.last())
    }
}

/// A request recorded after others is the last of all of them.
pub proof fn lemma_next_request<S: Default>(
    before: Map<MetricsScopeKey, RuntimeMetricsRow<S>>,
    between: Map<MetricsScopeKey, RuntimeMetricsRow<S>>,
    after: Map<MetricsScopeKey, RuntimeMetricsRow<S>>,
    requests: Seq<DatalensRequest>,
    request: DatalensRequest,
)
    requires
        requests_recorded(before, between, requests),
        request_recorded(between, after, request),
    ensures
        requests_recorded(before, after, requests.push(request)),
{
    let all = requests.push(request);
    assert(all.drop_last() =~= requests);
    assert(request_recorded(between, after, all.last()));
}

/// Two requests, for the same scope or not, can be recorded in the other order with the same
/// outcome.
proof fn lemma_swap<S: Default>(
    before: Map<MetricsScopeKey, RuntimeMetricsRow<S>>,
    between: Map<MetricsScopeKey, RuntimeMetricsRow<S>>,
    after: Map<MetricsScopeKey, RuntimeMetricsRow<S>>,
    first: DatalensRequest,
    second: DatalensRequest,
) -> (other: Map<MetricsScopeKey, RuntimeMetricsRow<S>>)
    requires
        request_recorded(before, between, first),
        request_recorded(between, after, second),
    ensures
        request_recorded(before, other, second),
        request_recorded(other, after, first),
{
    let first_change = |row: RuntimeMetricsRow<S>, changed: RuntimeMetricsRow<S>|
        changed == row.with_datalens_request(first.operation, first.success);
    let second_change = |row: RuntimeMetricsRow<S>, changed: RuntimeMetricsRow<S>|
        changed == row.with_datalens_request(second.operation, second.success);
    if first.scope == second.scope {
        let key = first.scope;
        let row = choose|row: RuntimeMetricsRow<S>| #[trigger]
            starting_row(before, key, row) && first_change(row, between[key]);
        let other = before.insert(
            key,
            row.with_datalens_request(second.operation, second.success),
        );
        lemma_requests_commute(
            row,
            first.operation,
            first.success,
            second.operation,
            second.success,
        );
        assert(starting_row(before, key, row) && second_change(row, other[key]));
        assert(other =~= before.insert(key, other[key]));
        assert(starting_row(other, key, other[key]) && first_change(other[key], after[key]));
        assert(after =~= other.insert(key, after[key]));
        other
    } else {
        assert(recorded(before, between, first.scope, first_change));
        assert(recorded(between, after, second.scope, second_change));
        lemma_recordings_commute(
            before,
            between,
            after,
            first.scope,
            first_change,
            second.scope,
            second_change,
        );
        choose|other: Map<MetricsScopeKey, RuntimeMetricsRow<S>>|
            recorded(before, other, second.scope, second_change) && recorded(
                other,
                after,
                first.scope,
                first_change,
            )
    }
}

/// The request that was recorded last could have been recorded at an earlier place.
proof fn lemma_moved_forward<S: Default>(
    before: Map<MetricsScopeKey, RuntimeMetricsRow<S>>,
    after: Map<MetricsScopeKey, RuntimeMetricsRow<S>>,
    requests: Seq<DatalensRequest>,
    i: int,
)
    requires
        0 <= i < requests.len(),
        requests_recorded(before, after, requests.remove(i).push(requests[i])),
    ensures
        requests_recorded(before, after, requests),
    decreases requests.len(),
{
    let moved = requests.remove(i).push(requests[i]);
    if i == requests.len() - 1 {
        assert(moved =~= requests);
    } else {
        let shorter = requests.drop_last();
        let rest = requests.remove(i);
        assert(moved.drop_last() =~= rest);
        let between = choose|between: Map<MetricsScopeKey, RuntimeMetricsRow<S>>|
            requests_recorded(before, between, moved.drop_last())
                && #[trigger] request_recorded(between, after, moved.last());
        let start = choose|start: Map<MetricsScopeKey, RuntimeMetricsRow<S>>|
            requests_recorded(before, start, rest.drop_last())
                && #[trigger] request_recorded(start, between, rest.last());
        let other = lemma_swap(start, between, after, requests.last(), requests[i]);
        assert(rest.drop_last() =~= shorter.remove(i));
        lemma_next_request(before, start, other, shorter.remove(i), shorter[i]);
        lemma_moved_forward(before, other, shorter, i);
        lemma_next_request(before, other, after, shorter, requests.last());
        assert(shorter.push(requests.last()) =~= requests);
    }
}

/// Whatever comes of recording requests can come of recording them in any other order.
pub proof fn lemma_requests_in_any_order<S: Default>(
    before: Map<MetricsScopeKey, RuntimeMetricsRow<S>>,
    after: Map<MetricsScopeKey, RuntimeMetricsRow<S>>,
    requests: Seq<DatalensRequest>,
    reordered: Seq<DatalensRequest>,
)
    requires
        requests_recorded(before, after, requests),
        requests.to_multiset() == reordered.to_multiset(),
    ensures
        requests_recorded(before, after, reordered),
    decreases requests.len(),
{
    broadcast use vstd::seq_lib::group_to_multiset_ensures;

    if requests.len() == 0 {
        assert(reordered.to_multiset().len() == 0);
    } else {
        let request = requests.last();
        let shorter = requests.drop_last();
        assert(requests.to_multiset().count(request) > 0);
        let i = reordered.index_of(request);
        assert(requests.remove(requests.len() - 1) =~= shorter);
        let between = choose|between: Map<MetricsScopeKey, RuntimeMetricsRow<S>>|
            requests_recorded(before, between, shorter) && #[trigger] request_recorded(
                between,
                after,
                request,
            );
        lemma_requests_in_any_order(before, between, shorter, reordered.remove(i));
        lemma_next_request(before, between, after, reordered.remove(i), request);
        lemma_moved_forward(before, after, reordered, i);
    }
}

/// Two rows show the same: all fields are equal, the datasets as text.
pub open spec fn same_row<S>(a: RuntimeMetricsRow<S>, b: RuntimeMetricsRow<S>) -> bool {
    &&& a.dataset@ == b.dataset@
    &&& a == RuntimeMetricsRow { dataset: a.dataset, ..b }
}

/// Two rows show the same but for the sums of the durations, which may be two default values.
pub open spec fn alike<S: Default>(a: RuntimeMetricsRow<S>, b: RuntimeMetricsRow<S>) -> bool {
    let sum = a.batch_duration_seconds_sum;
    &&& same_row(a, RuntimeMetricsRow { batch_duration_seconds_sum: sum, ..b })
    &&& sum == b.batch_duration_seconds_sum || {
        &&& call_ensures(S::default, (), sum)
        &&& call_ensures(S::default, (), b.batch_duration_seconds_sum)
    }
}

/// The type has one default value.
pub open spec fn default_is_unique<S: Default>() -> bool {
    forall|a: S, b: S| #[trigger]
        call_ensures(S::default, (), a) && #[trigger] call_ensures(S::default, (), b) ==> a == b
}

/// Rows of the same scopes, each alike.
spec fn all_alike<S: Default>(
    a: Map<MetricsScopeKey, RuntimeMetricsRow<S>>,
    b: Map<MetricsScopeKey, RuntimeMetricsRow<S>>,
) -> bool {
    &&& a.dom() == b.dom()
    &&& forall|key: MetricsScopeKey| #[trigger] a.contains_key(key) ==> alike(a[key], b[key])
}

/// Recording the same request in rows that are alike leaves rows that are alike.
proof fn lemma_request_keeps_alike<S: Default>(
    a: Map<MetricsScopeKey, RuntimeMetricsRow<S>>,
    b: Map<MetricsScopeKey, RuntimeMetricsRow<S>>,
    next_a: Map<MetricsScopeKey, RuntimeMetricsRow<S>>,
    next_b: Map<MetricsScopeKey, RuntimeMetricsRow<S>>,
    request: DatalensRequest,
)
    requires
        all_alike(a, b),
        request_recorded(a, next_a, request),
        request_recorded(b, next_b, request),
    ensures
        all_alike(next_a, next_b),
{
    let key = request.scope;
    let row_a = choose|row: RuntimeMetricsRow<S>| #[trigger]
        starting_row(a, key, row) && next_a[key] == row.with_datalens_request(
            request.operation,
            request.success,
        );
    let row_b = choose|row: RuntimeMetricsRow<S>| #[trigger]
        starting_row(b, key, row) && next_b[key] == row.with_datalens_request(
            request.operation,
            request.success,
        );
    assert(a.contains_key(key) == b.contains_key(key));
    assert(alike(row_a, row_b));
    assert(alike(next_a[key], next_b[key]));
    assert(next_a.dom() =~= next_b.dom());
    assert forall|other: MetricsScopeKey| #[trigger] next_a.contains_key(other) implies alike(
        next_a[other],
        next_b[other],
    ) by {
        if other != key {
            assert(a.contains_key(other));
        }
    }
}

/// Recording the same requests in the same order twice leaves rows that are alike.
proof fn lemma_outcomes_are_alike<S: Default>(
    before: Map<MetricsScopeKey, RuntimeMetricsRow<S>>,
    a: Map<MetricsScopeKey, RuntimeMetricsRow<S>>,
    b: Map<MetricsScopeKey, RuntimeMetricsRow<S>>,
    requests: Seq<DatalensRequest>,
)
    requires
        requests_recorded(before, a, requests),
        requests_recorded(before, b, requests),
    ensures
        all_alike(a, b),
    decreases requests.len(),
{
    if requests.len() > 0 {
        let shorter = requests.drop_last();
        let between_a = choose|between: Map<MetricsScopeKey, RuntimeMetricsRow<S>>|
            requests_recorded(before, between, shorter) && #[trigger] request_recorded(
                between,
                a,
                requests.last(),
            );
        let between_b = choose|between: Map<MetricsScopeKey, RuntimeMetricsRow<S>>|
            requests_recorded(before, between, shorter) && #[trigger] request_recorded(
                between,
                b,
                requests.last(),
            );
        lemma_outcomes_are_alike(before, between_a, between_b, shorter);
        lemma_request_keeps_alike(between_a, between_b, a, b, requests.last());
    }
}
/// Two listings of rows that are alike hold rows that are alike at the same places.
proof fn lemma_listings_are_alike<S: Default>(
    a: Seq<RuntimeMetricsRow<S>>,
    b: Seq<RuntimeMetricsRow<S>>,
)
    requires
        ascending(a),
        ascending(b),
        all_alike(by_scope(a), by_scope(b)),
    ensures
        a.len() == b.len(),
        forall|i: int| 0 <= i < a.len() ==> alike(#[trigger] a[i], #[trigger] b[i]),
    decreases a.len(),
{
    if a.len() == 0 {
        if b.len() > 0 {
            lemma_by_scope(b, 0);
            assert(by_scope(a).contains_key(b[0].key()));
            let i = choose|i: int| holds_at(a, b[0].key(), i);
            assert(holds_at(a, b[0].key(), i));
        }
    } else {
        let last = a.len() - 1;
        let end = b.len() - 1;
        lemma_by_scope(a, last);
        assert(by_scope(b).contains_key(a[last].key()));
        let j = choose|j: int| holds_at(b, a[last].key(), j);
        lemma_by_scope(b, end);
        assert(by_scope(a).contains_key(b[end].key()));
        let i = choose|i: int| holds_at(a, b[end].key(), i);
        lemma_scope_order_is_asymmetric(a[last].key(), b[end].key());
        if j < end {
            assert(a[last].key().precedes(b[end].key()));
            assert(i < last);
            assert(a[i].key().precedes(a[last].key()));
        }
        assert(alike(a[last], b[end]));
        let short_a = a.drop_last();
        let short_b = b.drop_last();
        assert forall|key: MetricsScopeKey| by_scope(short_a).contains_key(key)
            == by_scope(short_b).contains_key(key) by {
            lemma_drop_last(a, key);
            lemma_drop_last(b, key);
        }
        assert forall|key: MetricsScopeKey| #[trigger]
            by_scope(short_a).contains_key(key) implies alike(
            by_scope(short_a)[key],
            by_scope(short_b)[key],
        ) by {
            lemma_drop_last(a, key);
            lemma_drop_last(b, key);
            assert(by_scope(a).contains_key(key));
        }
        assert(by_scope(short_a).dom() =~= by_scope(short_b).dom());
        lemma_listings_are_alike(short_a, short_b);
        assert forall|i: int| 0 <= i < a.len() implies alike(#[trigger] a[i], #[trigger] b[i]) by {
            if i < last {
                assert(a[i] == short_a[i] && b[i] == short_b[i]);
            }
        }
    }
}

/// The snapshot shows the state.
pub open spec fn shows<S>(snapshot: MetricsSnapshot<S>, state: MetricsState<S>) -> bool {
    &&& ascending(snapshot.configured_scopes@)
    &&& by_scope(snapshot.configured_scopes@) == state.scopes()
    &&& ascending(snapshot.runtime_rows@)
    &&& by_scope(snapshot.runtime_rows@) == state.runtime()
}

/// `after` is the state `before` with nothing but the requests recorded, one after the other.
pub open spec fn requests_taken<S: Default>(
    before: MetricsState<S>,
    after: MetricsState<S>,
    requests: Seq<DatalensRequest>,
) -> bool {
    &&& after.scopes() == before.scopes()
    &&& requests_recorded(before.runtime(), after.runtime(), requests)
}

/// The order in which requests are recorded does not matter: recorded in two orders, from the
/// same state, they leave states whose snapshots show the same. Where the type of the durations
/// has several default values, sums that nothing was added to may be different ones of them.
pub proof fn lemma_order_of_requests_does_not_show<S: Default>(
    before: MetricsState<S>,
    requests: Seq<DatalensRequest>,
    reordered: Seq<DatalensRequest>,
    after: MetricsState<S>,
    after_reordered: MetricsState<S>,
    shown: MetricsSnapshot<S>,
    shown_reordered: MetricsSnapshot<S>,
)
    requires
        requests.to_multiset() == reordered.to_multiset(),
        requests_taken(before, after, requests),
        requests_taken(before, after_reordered, reordered),
        shows(shown, after),
        shows(shown_reordered, after_reordered),
    ensures
        shown.configured_scopes@ == shown_reordered.configured_scopes@,
        shown.runtime_rows@.len() == shown_reordered.runtime_rows@.len(),
        forall|i: int|
            0 <= i < shown.runtime_rows@.len() ==> alike(
                #[trigger] shown.runtime_rows@[i],
                #[trigger] shown_reordered.runtime_rows@[i],
            ),
        default_is_unique::<S>() ==> forall|i: int|
            0 <= i < shown.runtime_rows@.len() ==> same_row(
                #[trigger] shown.runtime_rows@[i],
                #[trigger] shown_reordered.runtime_rows@[i],
            ),
{
    lemma_listing_is_unique(shown.configured_scopes@, shown_reordered.configured_scopes@);
    lemma_requests_in_any_order(before.runtime(), after.runtime(), requests, reordered);
    lemma_outcomes_are_alike(
        before.runtime(),
        after.runtime(),
        after_reordered.runtime(),
        reordered,
    );
    lemma_listings_are_alike(shown.runtime_rows@, shown_reordered.runtime_rows@);
}

} // verus!
