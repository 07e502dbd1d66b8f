//! What a snapshot shows: which rows it holds, and in which order.
use crate::metrics::{
    configured, ConfiguredScopeMetricsRow, EnabledChain, MetricsState, RuntimeMetricsRow,
};
use crate::scope::{ascending, by_scope, holds_at, lemma_by_scope, MetricsScopeKey};
use vstd::prelude::*;
use vstd::utf8::encode_utf8;

verus! {

/// A listing of the runtime rows holds, for every chain and dataset for which something was
/// recorded, the row of that chain and dataset, once, and holds no other row.
pub proof fn lemma_runtime_rows_are_shown<S>(
    state: MetricsState<S>,
    listing: Seq<RuntimeMetricsRow<S>>,
    chain_id: u64,
    dataset: Seq<char>,
)
    requires
        ascending(listing),
        by_scope(listing) == state.runtime(),
    ensures
        state.runtime().contains_key(MetricsScopeKey { chain_id, dataset }) ==> exists|i: int|
            {
                &&& 0 <= i < listing.len()
                &&& #[trigger] listing[i] == state.runtime()[MetricsScopeKey { chain_id, dataset }]
                &&& listing[i].chain_id == chain_id
                &&& listing[i].dataset@ == dataset
            },
        !state.runtime().contains_key(MetricsScopeKey { chain_id, dataset }) ==> forall|i: int|
            0 <= i < listing.len() ==> (#[trigger] listing[i]).chain_id != chain_id
                || listing[i].dataset@ != dataset,
        forall|i: int, j: int|
            0 <= i < j < listing.len() ==> (#[trigger] listing[i]).chain_id != (
            #[trigger] listing[j]).chain_id || listing[i].dataset@ != listing[j].dataset@,
{
    let key = MetricsScopeKey { chain_id, dataset };
    if state.runtime().contains_key(key) {
        let i = choose|i: int| holds_at(listing, key, i);
        lemma_by_scope(listing, i);
        assert(listing[i] == state.runtime()[key]);
    }
    assert forall|i: int| 0 <= i < listing.len() && !state.runtime().contains_key(key) implies (
    #[trigger] listing[i]).chain_id != chain_id || listing[i].dataset@ != dataset by {
        lemma_by_scope(listing, i);
    }
    lemma_runtime_rows_are_ordered(listing);
    assert forall|i: int, j: int| 0 <= i < j < listing.len() implies (
    #[trigger] listing[i]).chain_id != (#[trigger] listing[j]).chain_id || listing[i].dataset@
        != listing[j].dataset@ by {
        crate::text::lemma_text_order_is_asymmetric(listing[i].dataset@, listing[j].dataset@);
        crate::text::lemma_text_order_is_asymmetric(listing[i].dataset@, listing[i].dataset@);
    }
}

/// A listing of the configured scopes holds, for every chain and dataset that is configured, the
/// row of that chain and dataset, and holds no other row.
pub proof fn lemma_configured_scopes_are_shown<S>(
    state: MetricsState<S>,
    listing: Seq<ConfiguredScopeMetricsRow>,
    chain_id: u64,
    dataset: Seq<char>,
)
    requires
        ascending(listing),
        by_scope(listing) == state.scopes(),
    ensures
        state.scopes().contains_key(MetricsScopeKey { chain_id, dataset }) ==> exists|i: int|
            {
                &&& 0 <= i < listing.len()
                &&& #[trigger] listing[i] == state.scopes()[MetricsScopeKey { chain_id, dataset }]
                &&& listing[i].chain_id == chain_id
                &&& listing[i].dataset@ == dataset
            },
        !state.scopes().contains_key(MetricsScopeKey { chain_id, dataset }) ==> forall|i: int|
            0 <= i < listing.len() ==> (#[trigger] listing[i]).chain_id != chain_id
                || listing[i].dataset@ != dataset,
{
    let key = MetricsScopeKey { chain_id, dataset };
    if state.scopes().contains_key(key) {
        let i = choose|i: int| holds_at(listing, key, i);
        lemma_by_scope(listing, i);
        assert(listing[i] == state.scopes()[key]);
    }
    assert forall|i: int| 0 <= i < listing.len() && !state.scopes().contains_key(key) implies (
    #[trigger] listing[i]).chain_id != chain_id || listing[i].dataset@ != dataset by {
        lemma_by_scope(listing, i);
    }
}

/// At the place `n` the bytes of `a` and `b` differ for the first time, and there `a` has the
/// lower byte or has ended.
pub open spec fn lower_from(a: Seq<u8>, b: Seq<u8>, n: int) -> bool {
    &&& 0 <= n <= a.len()
    &&& n < b.len()
    &&& a.take(n) == b.take(n)
    &&& n < a.len() ==> a[n] < b[n]
}

/// Runtime rows are listed by the number of the chain, and within a chain by the UTF-8 bytes of
/// the name of the dataset.
pub proof fn lemma_runtime_rows_are_ordered<S>(listing: Seq<RuntimeMetricsRow<S>>)
    requires
        ascending(listing),
    ensures
        forall|i: int, j: int|
            0 <= i < j < listing.len() ==> {
                ||| (#[trigger] listing[i]).chain_id < (#[trigger] listing[j]).chain_id
                ||| {
                    &&& listing[i].chain_id == listing[j].chain_id
                    &&& exists|n: int|
                        lower_from(
                            encode_utf8(listing[i].dataset@),
                            encode_utf8(listing[j].dataset@),
                            n,
                        )
                }
            },
{
    assert forall|i: int, j: int| 0 <= i < j < listing.len() implies {
        ||| (#[trigger] listing[i]).chain_id < (#[trigger] listing[j]).chain_id
        ||| {
            &&& listing[i].chain_id == listing[j].chain_id
            &&& exists|n: int|
                lower_from(
                    encode_utf8(listing[i].dataset@),
                    encode_utf8(listing[j].dataset@),
                    n,
                )
        }
    } by {
        lemma_order_of_datasets(listing[i].dataset@, listing[j].dataset@);
    }
}

/// Configured scopes are listed by the number of the chain, and within a chain by the UTF-8 bytes
/// of the name of the dataset.
pub proof fn lemma_configured_scopes_are_ordered(listing: Seq<ConfiguredScopeMetricsRow>)
    requires
        ascending(listing),
    ensures
        forall|i: int, j: int|
            0 <= i < j < listing.len() ==> {
                ||| (#[trigger] listing[i]).chain_id < (#[trigger] listing[j]).chain_id
                ||| {
                    &&& listing[i].chain_id == listing[j].chain_id
                    &&& exists|n: int|
                        lower_from(
                            encode_utf8(listing[i].dataset@),
                            encode_utf8(listing[j].dataset@),
                            n,
                        )
                }
            },
{
    assert forall|i: int, j: int| 0 <= i < j < listing.len() implies {
        ||| (#[trigger] listing[i]).chain_id < (#[trigger] listing[j]).chain_id
        ||| {
            &&& listing[i].chain_id == listing[j].chain_id
            &&& exists|n: int|
                lower_from(
                    encode_utf8(listing[i].dataset@),
                    encode_utf8(listing[j].dataset@),
                    n,
                )
        }
    } by {
        lemma_order_of_datasets(listing[i].dataset@, listing[j].dataset@);
    }
}

/// Of two texts the one that comes before the other has the lower byte where they first differ,
/// or has ended there.
pub proof fn lemma_order_of_datasets(a: Seq<char>, b: Seq<char>)
    ensures
        crate::text::text_precedes(a, b) == exists|n: int|
            lower_from(encode_utf8(a), encode_utf8(b), n),
{
    let x = encode_utf8(a);
    let y = encode_utf8(b);
    if crate::text::text_precedes(a, b) {
        let n = choose|n: int| #[trigger]
            crate::text::agree(x, y, n) && n < y.len() && (n == x.len() || x[n] < y[n]);
        assert(x.take(n) =~= y.take(n));
        assert(lower_from(x, y, n));
    }
    if exists|n: int| lower_from(x, y, n) {
        let n = choose|n: int| lower_from(x, y, n);
        assert forall|i: int| 0 <= i < n implies x[i] == y[i] by {
            assert(x.take(n)[i] == y.take(n)[i]);
        }
        assert(crate::text::agree(x, y, n));
    }
}

/// What is configured for a chain and a dataset is what the last of the enabled chains with that
/// number and that dataset says. A scope that none of them forms stays as it was.
pub proof fn lemma_scopes_are_configured(
    before: Map<MetricsScopeKey, ConfiguredScopeMetricsRow>,
    chains: Seq<EnabledChain>,
    chain_id: u64,
    dataset: Seq<char>,
    i: int,
)
    requires
        0 <= i < chains.len() ==> chains[i].dataset is Some && chains[i].chain_id == chain_id
            && chains[i].dataset->0@ == dataset,
        -1 <= i < chains.len(),
        forall|j: int|
            i < j < chains.len() && (#[trigger] chains[j]).dataset is Some ==> chains[j].chain_id
                != chain_id || chains[j].dataset->0@ != dataset,
    ensures
        ({
            let key = MetricsScopeKey { chain_id, dataset };
            let after = configured(before, chains);
            &&& 0 <= i ==> {
                &&& after.contains_key(key)
                &&& after[key].chain_id == chain_id
                &&& after[key].dataset@ == dataset
                &&& after[key].start_block == chains[i].start_block
                &&& after[key].batch_size == chains[i].batch_size
            }
            &&& i < 0 ==> {
                &&& after.contains_key(key) == before.contains_key(key)
                &&& before.contains_key(key) ==> after[key] == before[key]
            }
        }),
    decreases chains.len(),
{
    if chains.len() > 0 && i < chains.len() - 1 {
        let shorter = chains.drop_last();
        assert forall|j: int|
            i < j < shorter.len() && (
            #[trigger] shorter[j]).dataset is Some implies shorter[j].chain_id != chain_id
            || shorter[j].dataset->0@ != dataset by {
            assert(chains[j] == shorter[j]);
        }
        lemma_scopes_are_configured(before, shorter, chain_id, dataset, i);
        assert(chains.last() == chains[chains.len() - 1]);
    }
}

} // verus!
