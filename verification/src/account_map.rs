//! A small map keyed by accounts, kept as a list of entries with distinct keys.
use crate::types::{DistributionAccount, IntentsAccount};
use vstd::prelude::*;

verus! {

/// An account that can key a map: it is identified by its kind and its name.
pub trait AccountKey: Sized {
    /// The identity of the account.
    spec fn key(&self) -> (bool, Seq<char>);

    /// Whether two accounts are the same account.
    fn same_key(&self, other: &Self) -> (r: bool)
        ensures
            r == (self.key() == other.key()),
    ;

    /// A copy of the account.
    fn copy_key(&self) -> (r: Self)
        ensures
            r == *self,
    ;
}

impl AccountKey for IntentsAccount {
    open spec fn key(&self) -> (bool, Seq<char>) {
        (true, self.0@)
    }

    fn same_key(&self, other: &Self) -> (r: bool) {
        self.0 == other.0
    }

    fn copy_key(&self) -> (r: Self) {
        IntentsAccount(self.0.clone())
    }
}

impl AccountKey for DistributionAccount {
    open spec fn key(&self) -> (bool, Seq<char>) {
        self.identity()
    }

    fn same_key(&self, other: &Self) -> (r: bool) {
        self.same_as(other)
    }

    fn copy_key(&self) -> (r: Self) {
        match self {
            DistributionAccount::Near(s) => DistributionAccount::Near(s.clone()),
            DistributionAccount::Intents(a) => DistributionAccount::Intents(
                IntentsAccount(a.0.clone()),
            ),
        }
    }
}

/// The map that a list of entries stands for; a later entry for a key wins.
pub open spec fn map_of<K: AccountKey, V>(entries: Seq<(K, V)>) -> Map<(bool, Seq<char>), V>
    decreases entries.len(),
{
    if entries.len() == 0 {
        Map::empty()
    } else {
        map_of(entries.drop_last()).insert(entries.last().0.key(), entries.last().1)
    }
}

/// No two entries share a key.
pub open spec fn unique_keys<K: AccountKey, V>(entries: Seq<(K, V)>) -> bool {
    forall|i: int, j: int|
        0 <= i < j < entries.len() ==> #[trigger] entries[i].0.key() != #[trigger] entries[j].0.key()
}

/// A key is in the map exactly when some entry has it, and then the map holds that entry's
/// value.
pub proof fn lemma_map_of_lookup<K: AccountKey, V>(entries: Seq<(K, V)>)
    requires
        unique_keys(entries),
    ensures
        forall|k: (bool, Seq<char>)|
            #[trigger] map_of(entries).contains_key(k) <==> exists|i: int|
                0 <= i < entries.len() && entries[i].0.key() == k,
        forall|i: int|
            0 <= i < entries.len() ==> #[trigger] map_of(entries)[entries[i].0.key()]
                == entries[i].1,
    decreases entries.len(),
{
    if entries.len() > 0 {
        let rest = entries.drop_last();
        assert(unique_keys(rest)) by {
            assert forall|i: int, j: int| 0 <= i < j < rest.len() implies #[trigger] rest[i].0.key()
                != #[trigger] rest[j].0.key() by {
                assert(rest[i] == entries[i] && rest[j] == entries[j]);
            }
        }
        lemma_map_of_lookup(rest);
        let n = entries.len() - 1;
        assert forall|k: (bool, Seq<char>)| #[trigger]
            map_of(entries).contains_key(k) <==> exists|i: int|
                0 <= i < entries.len() && entries[i].0.key() == k by {
            if map_of(entries).contains_key(k) && k != entries[n].0.key() {
                assert(map_of(rest).contains_key(k));
                let i = choose|i: int| 0 <= i < rest.len() && rest[i].0.key() == k;
                assert(entries[i] == rest[i]);
            }
            if exists|i: int| 0 <= i < entries.len() && entries[i].0.key() == k {
                let i = choose|i: int| 0 <= i < entries.len() && entries[i].0.key() == k;
                if i < n {
                    assert(rest[i] == entries[i]);
                    assert(map_of(rest).contains_key(k));
                }
            }
        }
        assert forall|i: int| 0 <= i < entries.len() implies #[trigger] map_of(entries)[entries[
            i
        ].0.key()] == entries[i].1 by {
            if i < n {
                assert(rest[i] == entries[i]);
                assert(entries[i].0.key() != entries[n].0.key());
                assert(map_of(rest)[rest[i].0.key()] == rest[i].1);
            }
        }
    }
}

/// Replacing the value of an entry updates that key in the map.
pub proof fn lemma_map_of_update<K: AccountKey, V>(entries: Seq<(K, V)>, i: int, k: K, v: V)
    requires
        unique_keys(entries),
        0 <= i < entries.len(),
        k.key() == entries[i].0.key(),
    ensures
        map_of(entries.update(i, (k, v))) == map_of(entries).insert(k.key(), v),
        unique_keys(entries.update(i, (k, v))),
    decreases entries.len(),
{
    let u = entries.update(i, (k, v));
    let n = entries.len() - 1;
    assert(unique_keys(u)) by {
        assert forall|a: int, b: int| 0 <= a < b < u.len() implies #[trigger] u[a].0.key()
            != #[trigger] u[b].0.key() by {
            assert(u[a].0.key() == entries[a].0.key());
            assert(u[b].0.key() == entries[b].0.key());
        }
    }
    if i == n {
        assert(u.drop_last() =~= entries.drop_last());
        assert(map_of(u) =~= map_of(entries).insert(k.key(), v));
    } else {
        let rest = entries.drop_last();
        assert(unique_keys(rest)) by {
            assert forall|a: int, b: int| 0 <= a < b < rest.len() implies #[trigger] rest[a].0.key()
                != #[trigger] rest[b].0.key() by {
                assert(rest[a] == entries[a] && rest[b] == entries[b]);
            }
        }
        lemma_map_of_update(rest, i, k, v);
        assert(u.drop_last() =~= rest.update(i, (k, v)));
        assert(entries[n].0.key() != entries[i].0.key());
        assert(map_of(u) =~= map_of(entries).insert(k.key(), v));
    }
}

/// Removing an entry removes its key from the map.
pub proof fn lemma_map_of_remove<K: AccountKey, V>(entries: Seq<(K, V)>, i: int)
    requires
        unique_keys(entries),
        0 <= i < entries.len(),
    ensures
        map_of(entries.remove(i)) == map_of(entries).remove(entries[i].0.key()),
        unique_keys(entries.remove(i)),
    decreases entries.len(),
{
    let r = entries.remove(i);
    let n = entries.len() - 1;
    let key = entries[i].0.key();
    assert(unique_keys(r)) by {
        assert forall|a: int, b: int| 0 <= a < b < r.len() implies #[trigger] r[a].0.key()
            != #[trigger] r[b].0.key() by {
            let ea = if a < i {
                a
            } else {
                a + 1
            };
            let eb = if b < i {
                b
            } else {
                b + 1
            };
            assert(r[a] == entries[ea]);
            assert(r[b] == entries[eb]);
        }
    }
    let rest = entries.drop_last();
    assert(unique_keys(rest)) by {
        assert forall|a: int, b: int| 0 <= a < b < rest.len() implies #[trigger] rest[a].0.key()
            != #[trigger] rest[b].0.key() by {
            assert(rest[a] == entries[a] && rest[b] == entries[b]);
        }
    }
    if i == n {
        assert(r =~= rest);
        lemma_map_of_lookup(rest);
        assert(!map_of(rest).contains_key(key)) by {
            if map_of(rest).contains_key(key) {
                let j = choose|j: int| 0 <= j < rest.len() && rest[j].0.key() == key;
                assert(rest[j] == entries[j]);
            }
        }
        assert(map_of(r) =~= map_of(entries).remove(key));
    } else {
        lemma_map_of_remove(rest, i);
        assert(r.drop_last() =~= rest.remove(i));
        assert(r.last() == entries.last());
        assert(entries[n].0.key() != key);
        assert(map_of(r) =~= map_of(entries).remove(key));
    }
}

/// The sum of `f` over the values of a list of entries.
pub open spec fn sum_of<K, V>(entries: Seq<(K, V)>, f: spec_fn(V) -> int) -> int
    decreases entries.len(),
{
    if entries.len() == 0 {
        0
    } else {
        sum_of(entries.drop_last(), f) + f(entries.last().1)
    }
}

/// Removing an entry takes its value out of the sum.
pub proof fn lemma_sum_of_remove<K, V>(entries: Seq<(K, V)>, i: int, f: spec_fn(V) -> int)
    requires
        0 <= i < entries.len(),
    ensures
        sum_of(entries.remove(i), f) == sum_of(entries, f) - f(entries[i].1),
    decreases entries.len(),
{
    let n = entries.len() - 1;
    if i == n {
        assert(entries.remove(i) =~= entries.drop_last());
    } else {
        lemma_sum_of_remove(entries.drop_last(), i, f);
        assert(entries.remove(i).drop_last() =~= entries.drop_last().remove(i));
        assert(entries.remove(i).last() == entries.last());
    }
}

/// Replacing an entry replaces its value in the sum.
pub proof fn lemma_sum_of_update<K, V>(entries: Seq<(K, V)>, i: int, e: (K, V), f: spec_fn(V) -> int)
    requires
        0 <= i < entries.len(),
    ensures
        sum_of(entries.update(i, e), f) == sum_of(entries, f) - f(entries[i].1) + f(e.1),
    decreases entries.len(),
{
    let n = entries.len() - 1;
    if i == n {
        assert(entries.update(i, e).drop_last() =~= entries.drop_last());
    } else {
        lemma_sum_of_update(entries.drop_last(), i, e, f);
        assert(entries.update(i, e).drop_last() =~= entries.drop_last().update(i, e));
    }
}

/// A sum of values on which `f` is never negative is at least `f` of any one of them.
pub proof fn lemma_sum_of_bounds<K, V>(entries: Seq<(K, V)>, f: spec_fn(V) -> int)
    requires
        forall|v: V| #[trigger] f(v) >= 0,
    ensures
        sum_of(entries, f) >= 0,
        forall|i: int| 0 <= i < entries.len() ==> sum_of(entries, f) >= f(#[trigger] entries[i].1),
    decreases entries.len(),
{
    if entries.len() > 0 {
        let rest = entries.drop_last();
        lemma_sum_of_bounds(rest, f);
        assert forall|i: int| 0 <= i < entries.len() implies sum_of(entries, f) >= f(
            #[trigger] entries[i].1,
        ) by {
            if i < rest.len() {
                assert(rest[i] == entries[i]);
                assert(sum_of(rest, f) >= f(rest[i].1));
            }
        }
    }
}

/// Lists of entries with distinct keys that stand for the same map have the same sum.
pub proof fn lemma_sum_of_same_map<K: AccountKey, V>(
    a: Seq<(K, V)>,
    b: Seq<(K, V)>,
    f: spec_fn(V) -> int,
)
    requires
        unique_keys(a),
        unique_keys(b),
        map_of(a) == map_of(b),
    ensures
        sum_of(a, f) == sum_of(b, f),
    decreases a.len(),
{
    lemma_map_of_lookup(a);
    lemma_map_of_lookup(b);
    if a.len() == 0 {
        if b.len() > 0 {
            assert(map_of(b).contains_key(b[0].0.key()));
            assert(map_of(a) =~= Map::<(bool, Seq<char>), V>::empty());
        }
    } else {
        let n = a.len() - 1;
        let key = a[n].0.key();
        assert(map_of(a).contains_key(key));
        assert(map_of(b).contains_key(key));
        let j = choose|j: int| 0 <= j < b.len() && b[j].0.key() == key;
        assert(map_of(b)[b[j].0.key()] == b[j].1);
        assert(map_of(a)[a[n].0.key()] == a[n].1);
        let rest = a.drop_last();
        assert(unique_keys(rest)) by {
            assert forall|x: int, y: int| 0 <= x < y < rest.len() implies #[trigger] rest[x].0.key()
                != #[trigger] rest[y].0.key() by {
                assert(rest[x] == a[x] && rest[y] == a[y]);
            }
        }
        lemma_map_of_lookup(rest);
        assert(!map_of(rest).contains_key(key)) by {
            if map_of(rest).contains_key(key) {
                let w = choose|w: int| 0 <= w < rest.len() && rest[w].0.key() == key;
                assert(rest[w] == a[w]);
            }
        }
        assert(map_of(rest) =~= map_of(a).remove(key));
        lemma_map_of_remove(b, j);
        lemma_sum_of_same_map(rest, b.remove(j), f);
        lemma_sum_of_remove(b, j, f);
    }
}

/// A map from accounts to values.
pub struct AccountMap<K: AccountKey, V: Copy> {
    entries: Vec<(K, V)>,
}

impl<K: AccountKey, V: Copy> AccountMap<K, V> {
    #[verifier::type_invariant]
    spec fn keys_distinct(self) -> bool {
        unique_keys(self.entries@)
    }

    /// The map as a mathematical map from account identities to values.
    pub closed spec fn view(&self) -> Map<(bool, Seq<char>), V> {
        map_of(self.entries@)
    }

    /// No two entries share a key: what every map keeps.
    pub closed spec fn well_formed(&self) -> bool {
        unique_keys(self.entries@)
    }

    /// The sum of `f` over the values of the map.
    pub closed spec fn total_by(&self, f: spec_fn(V) -> int) -> int {
        sum_of(self.entries@, f)
    }

    /// The index of the entry for `k`, if any.
    fn find(&self, k: &K) -> (r: Option<usize>)
        ensures
            match r {
                Some(i) => i < self.entries@.len() && self.entries@[i as int].0.key() == k.key(),
                None => forall|j: int|
                    0 <= j < self.entries@.len() ==> self.entries@[j].0.key() != k.key(),
            },
    {
        let mut i: usize = 0;
        while i < self.entries.len()
            invariant
                i <= self.entries.len(),
                forall|j: int| 0 <= j < i ==> self.entries@[j].0.key() != k.key(),
            decreases self.entries.len() - i,
        {
            if self.entries[i].0.same_key(k) {
                return Some(i);
            }
            i = i + 1;
        }
        None
    }

    /// An empty map.
    pub fn new() -> (r: Self)
        ensures
            r.view() == Map::<(bool, Seq<char>), V>::empty(),
            r.well_formed(),
    {
        let r = AccountMap { entries: Vec::new() };
        assert(map_of(r.entries@) =~= Map::<(bool, Seq<char>), V>::empty());
        r
    }

    /// The value held for `k`, if any.
    pub fn get(&self, k: &K) -> (r: Option<V>)
        ensures
            r == (if self.view().contains_key(k.key()) {
                Some(self.view()[k.key()])
            } else {
                None
            }),
    {
        proof {
            use_type_invariant(self);
            lemma_map_of_lookup(self.entries@);
        }
        match self.find(k) {
            Some(i) => Some(self.entries[i].1),
            None => None,
        }
    }

    /// Whether the map holds a value for `k`.
    pub fn contains_key(&self, k: &K) -> (r: bool)
        ensures
            r == self.view().contains_key(k.key()),
    {
        proof {
            use_type_invariant(self);
            lemma_map_of_lookup(self.entries@);
        }
        self.find(k).is_some()
    }

    /// Sets the value held for `k`.
    pub fn insert(&mut self, k: K, v: V)
        ensures
            final(self).view() == old(self).view().insert(k.key(), v),
            final(self).well_formed(),
    {
        proof {
            use_type_invariant(&*self);
        }
        let found = self.find(&k);
        let mut entries: Vec<(K, V)> = Vec::new();
        std::mem::swap(&mut entries, &mut self.entries);
        let ghost before = entries@;
        match found {
            Some(i) => {
                proof {
                    lemma_map_of_update(before, i as int, k, v);
                }
                entries.remove(i);
                entries.insert(i, (k, v));
                assert(entries@ =~= before.update(i as int, (k, v)));
            },
            None => {
                proof {
                    assert forall|a: int, b: int|
                        0 <= a < b < before.push((k, v)).len() implies #[trigger] before.push(
                        (k, v),
                    )[a].0.key() != #[trigger] before.push((k, v))[b].0.key() by {
                        if b < before.len() {
                            assert(before.push((k, v))[a] == before[a]);
                            assert(before.push((k, v))[b] == before[b]);
                        } else {
                            assert(before.push((k, v))[a] == before[a]);
                        }
                    }
                    assert(before.push((k, v)).drop_last() =~= before);
                }
                entries.push((k, v));
            },
        }
        self.entries = entries;
    }

    /// The entries of the map, one per key: the list a map with the same contents is rebuilt
    /// from.
    pub fn to_vec(&self) -> (r: Vec<(K, V)>)
        ensures
            unique_keys(r@),
            map_of(r@) == self.view(),
    {
        proof {
            use_type_invariant(self);
        }
        let mut entries: Vec<(K, V)> = Vec::new();
        let mut i: usize = 0;
        while i < self.entries.len()
            invariant
                i <= self.entries.len(),
                entries@ == self.entries@.subrange(0, i as int),
            decreases self.entries.len() - i,
        {
            entries.push((self.entries[i].0.copy_key(), self.entries[i].1));
            i = i + 1;
            assert(entries@ =~= self.entries@.subrange(0, i as int));
        }
        assert(self.entries@.subrange(0, i as int) =~= self.entries@);
        entries
    }

    /// A copy of the map.
    pub fn duplicate(&self) -> (r: Self)
        ensures
            r.view() == self.view(),
            r.well_formed(),
    {
        proof {
            use_type_invariant(self);
        }
        AccountMap { entries: self.to_vec() }
    }

    /// Removes the value held for `k`, if any.
    pub fn remove(&mut self, k: &K)
        ensures
            final(self).view() == old(self).view().remove(k.key()),
            final(self).well_formed(),
    {
        proof {
            use_type_invariant(&*self);
            lemma_map_of_lookup(self.entries@);
        }
        match self.find(k) {
            Some(i) => {
                let mut entries: Vec<(K, V)> = Vec::new();
                std::mem::swap(&mut entries, &mut self.entries);
                proof {
                    lemma_map_of_remove(entries@, i as int);
                }
                entries.remove(i);
                self.entries = entries;
            },
            None => {
                assert(old(self).view().remove(k.key()) =~= old(self).view());
            },
        }
    }
}

/// Maps with the same contents have the same totals.
pub proof fn lemma_total_by_view<K: AccountKey, V: Copy>(
    a: AccountMap<K, V>,
    b: AccountMap<K, V>,
    f: spec_fn(V) -> int,
)
    requires
        a.well_formed(),
        b.well_formed(),
        a.view() == b.view(),
    ensures
        a.total_by(f) == b.total_by(f),
{
    lemma_sum_of_same_map(a.entries@, b.entries@, f);
}

/// An empty map totals zero.
pub proof fn lemma_total_by_empty<K: AccountKey, V: Copy>(a: AccountMap<K, V>, f: spec_fn(V) -> int)
    requires
        a.well_formed(),
        a.view() == Map::<(bool, Seq<char>), V>::empty(),
    ensures
        a.total_by(f) == 0,
{
    let empty = Seq::<(K, V)>::empty();
    assert(map_of(empty) =~= Map::<(bool, Seq<char>), V>::empty());
    lemma_sum_of_same_map(a.entries@, empty, f);
}

/// With `f` never negative, the total is never negative.
pub proof fn lemma_total_by_nonnegative<K: AccountKey, V: Copy>(
    a: AccountMap<K, V>,
    f: spec_fn(V) -> int,
)
    requires
        forall|v: V| #[trigger] f(v) >= 0,
    ensures
        a.total_by(f) >= 0,
{
    lemma_sum_of_bounds(a.entries@, f);
}

/// With `f` never negative, the total is at least `f` of any value of the map.
pub proof fn lemma_total_by_covers<K: AccountKey, V: Copy>(
    a: AccountMap<K, V>,
    key: (bool, Seq<char>),
    f: spec_fn(V) -> int,
)
    requires
        a.well_formed(),
        a.view().contains_key(key),
        forall|v: V| #[trigger] f(v) >= 0,
    ensures
        a.total_by(f) >= f(a.view()[key]),
        a.total_by(f) >= 0,
{
    lemma_map_of_lookup(a.entries@);
    let i = choose|i: int| 0 <= i < a.entries@.len() && a.entries@[i].0.key() == key;
    assert(map_of(a.entries@)[a.entries@[i].0.key()] == a.entries@[i].1);
    lemma_sum_of_bounds(a.entries@, f);
}

/// Setting the value of a key changes the total by the difference between the new value and
/// the old one (none when the key was absent).
pub proof fn lemma_total_by_insert<K: AccountKey, V: Copy>(
    a: AccountMap<K, V>,
    b: AccountMap<K, V>,
    k: K,
    v: V,
    f: spec_fn(V) -> int,
)
    requires
        a.well_formed(),
        b.well_formed(),
        b.view() == a.view().insert(k.key(), v),
    ensures
        b.total_by(f) == a.total_by(f) - (if a.view().contains_key(k.key()) {
            f(a.view()[k.key()])
        } else {
            0
        }) + f(v),
{
    let e = a.entries@;
    lemma_map_of_lookup(e);
    if a.view().contains_key(k.key()) {
        let i = choose|i: int| 0 <= i < e.len() && e[i].0.key() == k.key();
        assert(map_of(e)[e[i].0.key()] == e[i].1);
        lemma_map_of_update(e, i, k, v);
        lemma_sum_of_update(e, i, (k, v), f);
        lemma_sum_of_same_map(e.update(i, (k, v)), b.entries@, f);
    } else {
        let pushed = e.push((k, v));
        assert(pushed.drop_last() =~= e);
        assert(unique_keys(pushed)) by {
            assert forall|x: int, y: int| 0 <= x < y < pushed.len() implies #[trigger] pushed[x].0.key()
                != #[trigger] pushed[y].0.key() by {
                assert(pushed[x] == e[x]);
                if y < e.len() {
                    assert(pushed[y] == e[y]);
                } else if pushed[x].0.key() == pushed[y].0.key() {
                    assert(map_of(e).contains_key(e[x].0.key()));
                }
            }
        }
        lemma_sum_of_same_map(pushed, b.entries@, f);
    }
}

/// The map holds finitely many accounts.
pub proof fn lemma_view_finite<K: AccountKey, V: Copy>(a: AccountMap<K, V>)
    ensures
        a.view().dom().finite(),
{
    lemma_map_of_finite(a.entries@);
}

proof fn lemma_map_of_finite<K: AccountKey, V>(entries: Seq<(K, V)>)
    ensures
        map_of(entries).dom().finite(),
    decreases entries.len(),
{
    if entries.len() > 0 {
        lemma_map_of_finite(entries.drop_last());
    }
}

} // verus!
