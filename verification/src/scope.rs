//! Tables of rows that each belong to one scope: a chain and a dataset on it.
use crate::text::{place_text, text_precedes, Placement};
use vstd::prelude::*;

verus! {

/// What identifies a scope.
pub struct MetricsScopeKey {
    pub chain_id: u64,
    pub dataset: Seq<char>,
}

/// The key of the scope that `dataset` forms on the chain `chain_id`.
pub open spec fn scope_key(chain_id: u64, dataset: Seq<char>) -> MetricsScopeKey {
    MetricsScopeKey { chain_id, dataset }
}

impl MetricsScopeKey {
    /// The order of scopes: by chain, and by dataset within a chain.
    pub open spec fn precedes(self, other: Self) -> bool {
        ||| self.chain_id < other.chain_id
        ||| self.chain_id == other.chain_id && text_precedes(self.dataset, other.dataset)
    }
}

/// Of two scopes at most one comes before the other, and none comes before itself.
pub proof fn lemma_scope_order_is_asymmetric(a: MetricsScopeKey, b: MetricsScopeKey)
    ensures
        !(a.precedes(b) && b.precedes(a)),
        !a.precedes(a),
{
    crate::text::lemma_text_order_is_asymmetric(a.dataset, b.dataset);
}

/// The order of scopes is transitive.
pub proof fn lemma_scope_order_is_transitive(
    a: MetricsScopeKey,
    b: MetricsScopeKey,
    c: MetricsScopeKey,
)
    requires
        a.precedes(b),
        b.precedes(c),
    ensures
        a.precedes(c),
{
    if a.chain_id == b.chain_id && b.chain_id == c.chain_id {
        crate::text::lemma_text_order_is_transitive(a.dataset, b.dataset, c.dataset);
    }
}

/// A row that belongs to a scope.
pub trait Scoped: Sized {
    spec fn key(&self) -> MetricsScopeKey;

    fn chain(&self) -> (chain_id: u64)
        ensures
            chain_id == self.key().chain_id,
    ;

    fn dataset_name(&self) -> (dataset: &str)
        ensures
            dataset@ == self.key().dataset,
    ;
}

/// The rows stand in the order of their scopes, and no two belong to the same scope.
pub open spec fn ascending<R: Scoped>(rows: Seq<R>) -> bool {
    forall|i: int, j: int|
        0 <= i < j < rows.len() ==> (#[trigger] rows[i]).key().precedes((#[trigger] rows[j]).key())
}

/// The row at `i` belongs to the scope `key`.
pub open spec fn holds_at<R: Scoped>(rows: Seq<R>, key: MetricsScopeKey, i: int) -> bool {
    0 <= i < rows.len() && rows[i].key() == key
}

/// The rows as a map from their scopes.
pub open spec fn by_scope<R: Scoped>(rows: Seq<R>) -> Map<MetricsScopeKey, R> {
    Map::new(
        |key: MetricsScopeKey| exists|i: int| holds_at(rows, key, i),
        |key: MetricsScopeKey| rows[choose|i: int| holds_at(rows, key, i)],
    )
}

/// In ascending rows a scope has one row, which is what the map gives for it.
pub proof fn lemma_by_scope<R: Scoped>(rows: Seq<R>, i: int)
    requires
        ascending(rows),
        0 <= i < rows.len(),
    ensures
        by_scope(rows).contains_key(rows[i].key()),
        by_scope(rows)[rows[i].key()] == rows[i],
{
    let key = rows[i].key();
    assert(holds_at(rows, key, i));
    let j = choose|j: int| holds_at(rows, key, j);
    lemma_scope_order_is_asymmetric(key, key);
    assert(i == j);
}

/// Replacing the row of a scope by another row of that scope.
proof fn lemma_replaced<R: Scoped>(rows: Seq<R>, i: int, row: R)
    requires
        ascending(rows),
        0 <= i < rows.len(),
        row.key() == rows[i].key(),
    ensures
        ascending(rows.update(i, row)),
        by_scope(rows.update(i, row)) == by_scope(rows).insert(row.key(), row),
{
    let after = rows.update(i, row);
    assert(forall|j: int| 0 <= j < rows.len() ==> (#[trigger] after[j]).key() == rows[j].key());
    assert(ascending(after));
    assert forall|key: MetricsScopeKey| by_scope(after).contains_key(key)
        == by_scope(rows).insert(row.key(), row).contains_key(key) by {
        if by_scope(after).contains_key(key) {
            let j = choose|j: int| holds_at(after, key, j);
            assert(holds_at(rows, key, j));
        }
        if by_scope(rows).contains_key(key) {
            let j = choose|j: int| holds_at(rows, key, j);
            assert(holds_at(after, key, j));
        }
        if key == row.key() {
            assert(holds_at(after, key, i));
        }
    }
    assert forall|key: MetricsScopeKey| by_scope(after).contains_key(key) implies by_scope(
        after,
    )[key] == by_scope(rows).insert(row.key(), row)[key] by {
        let j = choose|j: int| holds_at(after, key, j);
        lemma_by_scope(after, j);
        lemma_by_scope(rows, j);
        lemma_by_scope(after, i);
    }
    assert(by_scope(after) =~= by_scope(rows).insert(row.key(), row));
}

/// Inserting a row between those of the scopes before and those of the scopes after its own.
proof fn lemma_inserted<R: Scoped>(rows: Seq<R>, i: int, row: R)
    requires
        ascending(rows),
        0 <= i <= rows.len(),
        forall|j: int| 0 <= j < i ==> (#[trigger] rows[j]).key().precedes(row.key()),
        forall|j: int| i <= j < rows.len() ==> row.key().precedes((#[trigger] rows[j]).key()),
    ensures
        ascending(rows.insert(i, row)),
        by_scope(rows.insert(i, row)) == by_scope(rows).insert(row.key(), row),
        !by_scope(rows).contains_key(row.key()),
{
    let after = rows.insert(i, row);
    assert(forall|j: int| 0 <= j < i ==> (#[trigger] after[j]) == rows[j]);
    assert(forall|j: int| i < j < after.len() ==> (#[trigger] after[j]) == rows[j - 1]);
    assert(ascending(after));
    assert forall|key: MetricsScopeKey| by_scope(after).contains_key(key)
        == by_scope(rows).insert(row.key(), row).contains_key(key) by {
        if by_scope(after).contains_key(key) {
            let j = choose|j: int| holds_at(after, key, j);
            if j < i {
                assert(holds_at(rows, key, j));
            } else if j > i {
                assert(holds_at(rows, key, j - 1));
            }
        }
        if by_scope(rows).contains_key(key) {
            let j = choose|j: int| holds_at(rows, key, j);
            if j < i {
                assert(holds_at(after, key, j));
            } else {
                assert(after[j + 1] == rows[j]);
                assert(holds_at(after, key, j + 1));
            }
        }
        if key == row.key() {
            assert(holds_at(after, key, i));
        }
    }
    assert forall|key: MetricsScopeKey| by_scope(after).contains_key(key) implies by_scope(
        after,
    )[key] == by_scope(rows).insert(row.key(), row)[key] by {
        let j = choose|j: int| holds_at(after, key, j);
        lemma_by_scope(after, j);
        lemma_scope_order_is_asymmetric(key, key);
        if j < i {
            lemma_by_scope(rows, j);
        } else if j > i {
            lemma_by_scope(rows, j - 1);
        }
    }
    assert(by_scope(after) =~= by_scope(rows).insert(row.key(), row));
    if by_scope(rows).contains_key(row.key()) {
        let j = choose|j: int| holds_at(rows, row.key(), j);
        lemma_scope_order_is_asymmetric(row.key(), row.key());
        assert(rows[j].key() == row.key());
    }
}

/// Ascending rows are determined by the map that they form: one map, one listing.
pub proof fn lemma_listing_is_unique<R: Scoped>(a: Seq<R>, b: Seq<R>)
    requires
        ascending(a),
        ascending(b),
        by_scope(a) == by_scope(b),
    ensures
        a == b,
    decreases a.len(),
{
    if a.len() == 0 {
        if b.len() > 0 {
            lemma_by_scope(b, 0);
            let i = choose|i: int| holds_at(a, b[0].key(), i);
            assert(false);
        }
    } else {
        let last = a.len() - 1;
        lemma_by_scope(a, last);
        let j = choose|j: int| holds_at(b, a[last].key(), j);
        let end = b.len() - 1;
        lemma_by_scope(b, end);
        let i = choose|i: int| holds_at(a, b[end].key(), i);
        lemma_scope_order_is_asymmetric(a[last].key(), b[end].key());
        if j < end {
            assert(a[last].key().precedes(b[end].key()));
            assert(i < last);
            assert(a[i].key().precedes(a[last].key()));
            assert(false);
        }
        lemma_by_scope(b, j);
        assert(a[last] == b[end]);
        let short_a = a.drop_last();
        let short_b = b.drop_last();
        assert forall|key: MetricsScopeKey| by_scope(short_a).contains_key(key)
            == by_scope(short_b).contains_key(key) by {
            lemma_drop_last(a, key);
            lemma_drop_last(b, key);
        }
        assert forall|key: MetricsScopeKey| by_scope(short_a).contains_key(key) implies by_scope(
            short_a,
        )[key] == by_scope(short_b)[key] by {
            lemma_drop_last(a, key);
            lemma_drop_last(b, key);
        }
        assert(by_scope(short_a) =~= by_scope(short_b));
        lemma_listing_is_unique(short_a, short_b);
        assert(a =~= short_a.push(a[last]));
        assert(b =~= short_b.push(b[end]));
    }
}

/// What the map loses when the last row goes.
pub proof fn lemma_drop_last<R: Scoped>(rows: Seq<R>, key: MetricsScopeKey)
    requires
        ascending(rows),
        rows.len() > 0,
    ensures
        by_scope(rows.drop_last()).contains_key(key) == (by_scope(rows).contains_key(key) && key
            != rows.last().key()),
        by_scope(rows.drop_last()).contains_key(key) ==> by_scope(rows.drop_last())[key]
            == by_scope(rows)[key],
{
    let short = rows.drop_last();
    let last = rows.len() - 1;
    lemma_scope_order_is_asymmetric(key, key);
    if by_scope(short).contains_key(key) {
        let i = choose|i: int| holds_at(short, key, i);
        assert(holds_at(rows, key, i));
        assert(rows[i].key().precedes(rows[last].key()));
        lemma_by_scope(short, i);
        lemma_by_scope(rows, i);
    }
    if by_scope(rows).contains_key(key) && key != rows.last().key() {
        let i = choose|i: int| holds_at(rows, key, i);
        assert(i != last);
        assert(holds_at(short, key, i));
    }
}

/// Rows kept one per scope and in the order of the scopes.
pub struct ScopeTable<R> {
    rows: Vec<R>,
}

impl<R: Scoped> ScopeTable<R> {
    /// The rows in the order in which the table lists them.
    pub closed spec fn listing(&self) -> Seq<R> {
        self.rows@
    }

    /// The rows as a map from their scopes.
    pub open spec fn as_map(&self) -> Map<MetricsScopeKey, R> {
        by_scope(self.listing())
    }

    pub open spec fn wf(&self) -> bool {
        ascending(self.listing())
    }

    /// A table without rows.
    pub fn new() -> (table: Self)
        ensures
            table.wf(),
            table.as_map() == Map::<MetricsScopeKey, R>::empty(),
    {
        let table = ScopeTable { rows: Vec::new() };
        assert(table.as_map() =~= Map::<MetricsScopeKey, R>::empty());
        table
    }

    /// The rows in the order of their scopes.
    pub fn rows(&self) -> (rows: &Vec<R>)
        ensures
            rows@ == self.listing(),
    {
        &self.rows
    }

    /// Finds where a row of the scope of `row` stands, or where it would have to go.
    fn locate(&self, row: &R) -> (place: (bool, usize))
        requires
            self.wf(),
        ensures
            place.1 <= self.rows@.len(),
            place.0 ==> place.1 < self.rows@.len() && self.rows@[place.1 as int].key()
                == row.key(),
            !place.0 ==> {
                &&& forall|j: int|
                    0 <= j < place.1 ==> (#[trigger] self.rows@[j]).key().precedes(row.key())
                &&& forall|j: int|
                    place.1 <= j < self.rows@.len() ==> row.key().precedes(
                        (#[trigger] self.rows@[j]).key(),
                    )
            },
    {
        let chain_id: u64 = row.chain();
        let dataset = row.dataset_name();
        let mut i: usize = 0;
        while i < self.rows.len()
            invariant
                self.wf(),
                chain_id == row.key().chain_id,
                dataset@ == row.key().dataset,
                i <= self.rows@.len(),
                forall|j: int| 0 <= j < i ==> (#[trigger] self.rows@[j]).key().precedes(row.key()),
            decreases self.rows@.len() - i,
        {
            let other_chain: u64 = self.rows[i].chain();
            let placement = if other_chain < chain_id {
                Placement::Before
            } else if other_chain > chain_id {
                Placement::After
            } else {
                place_text(self.rows[i].dataset_name(), dataset)
            };
            match placement {
                Placement::Before => {
                    i += 1;
                },
                Placement::Same => {
                    return (true, i);
                },
                Placement::After => {
                    proof {
                        assert forall|j: int| i <= j < self.rows@.len() implies row.key().precedes(
                            (#[trigger] self.rows@[j]).key(),
                        ) by {
                            if i < j {
                                lemma_scope_order_is_transitive(
                                    row.key(),
                                    self.rows@[i as int].key(),
                                    self.rows@[j].key(),
                                );
                            }
                        }
                    }
                    return (false, i);
                },
            }
        }
        (false, i)
    }

    /// Puts `row` into the table, in place of the row that its scope had.
    pub fn insert(&mut self, row: R)
        requires
            old(self).wf(),
        ensures
            final(self).wf(),
            final(self).as_map() == old(self).as_map().insert(row.key(), row),
    {
        let (found, index) = self.locate(&row);
        if found {
            proof {
                lemma_replaced(self.rows@, index as int, row);
            }
            self.rows.set(index, row);
        } else {
            proof {
                lemma_inserted(self.rows@, index as int, row);
            }
            self.rows.insert(index, row);
        }
    }

    /// Gives access to the row of the scope of `row`, which is `row` itself where the scope had
    /// none. Whatever row of that scope is left there is the scope's row from then on.
    pub fn entry_or_insert(&mut self, row: R) -> (entry: &mut R)
        requires
            old(self).wf(),
        ensures
            *entry == (if old(self).as_map().contains_key(row.key()) {
                old(self).as_map()[row.key()]
            } else {
                row
            }),
            final(entry).key() == row.key() ==> final(self).wf() && final(self).as_map() == old(
                self,
            ).as_map().insert(row.key(), *final(entry)),
    {
        let ghost before = self.rows@;
        let ghost key = row.key();
        let (found, index) = self.locate(&row);
        if !found {
            proof {
                lemma_inserted(before, index as int, row);
            }
            self.rows.insert(index, row);
        } else {
            proof {
                lemma_by_scope(before, index as int);
            }
        }
        proof {
            let present = self.rows@;
            assert(present[index as int].key() == key);
            assert forall|other: R| #[trigger] other.key() == key implies ascending(
                present.update(index as int, other),
            ) && by_scope(present.update(index as int, other)) == by_scope(before).insert(
                key,
                other,
            ) by {
                lemma_replaced(present, index as int, other);
                assert(by_scope(present).insert(key, other) =~= by_scope(before).insert(
                    key,
                    other,
                ));
            }
        }
        &mut self.rows[index]
    }
}

} // verus!
