//! A small map keyed by strings that keeps its entries in the order in which
//! their keys were first inserted.

use vstd::prelude::*;

verus! {

/// Whether no key occurs twice in `pairs`.
pub open spec fn distinct_keys<T>(pairs: Seq<(Seq<char>, T)>) -> bool {
    forall|i: int, j: int|
        0 <= i < pairs.len() && 0 <= j < pairs.len() && i != j ==> #[trigger] pairs[i].0
            != #[trigger] pairs[j].0
}

/// Whether `k` is the key of some entry of `pairs`.
pub open spec fn has_key<T>(pairs: Seq<(Seq<char>, T)>, k: Seq<char>) -> bool {
    exists|i: int| 0 <= i < pairs.len() && #[trigger] pairs[i].0 == k
}

/// `ks` without the occurrences of `k`.
pub open spec fn without_key(ks: Seq<Seq<char>>, k: Seq<char>) -> Seq<Seq<char>> {
    ks.filter(|x: Seq<char>| x != k)
}

/// The map that a list of entries with distinct keys stands for.
pub open spec fn pairs_to_map<T>(pairs: Seq<(Seq<char>, T)>) -> Map<Seq<char>, T> {
    Map::new(
        |k: Seq<char>| has_key(pairs, k),
        |k: Seq<char>| pairs[choose|i: int| 0 <= i < pairs.len() && #[trigger] pairs[i].0 == k].1,
    )
}

/// The keys of `pairs`, in order.
pub open spec fn pair_keys<T>(pairs: Seq<(Seq<char>, T)>) -> Seq<Seq<char>> {
    Seq::new(pairs.len(), |i: int| pairs[i].0)
}

/// An entry of a list with distinct keys is what the map holds for its key.
pub proof fn lemma_pairs_to_map_at<T>(pairs: Seq<(Seq<char>, T)>, i: int)
    requires
        distinct_keys(pairs),
        0 <= i < pairs.len(),
    ensures
        pairs_to_map(pairs).contains_key(pairs[i].0),
        pairs_to_map(pairs)[pairs[i].0] == pairs[i].1,
{
    let k = pairs[i].0;
    assert(has_key(pairs, k));
    let j = choose|j: int| 0 <= j < pairs.len() && #[trigger] pairs[j].0 == k;
    assert(pairs[j].0 == pairs[i].0);
}

/// A map from strings to values, with the entries kept in first-insertion
/// order and no key stored twice.
pub struct StrMap<T: View> {
    entries: Vec<(String, T)>,
}

impl<T: View> StrMap<T> {
    /// The entries, each key and value taken by its view, in order.
    pub closed spec fn pairs(&self) -> Seq<(Seq<char>, T::V)> {
        Seq::new(self.entries@.len(), |i: int| (self.entries@[i].0@, self.entries@[i].1@))
    }

    /// The keys in the order in which the entries are kept.
    pub open spec fn keys_in_order(&self) -> Seq<Seq<char>> {
        pair_keys(self.pairs())
    }

    #[verifier::type_invariant]
    spec fn no_duplicate_keys(self) -> bool {
        distinct_keys(self.pairs())
    }

    /// The key-value contents of the map.
    pub open spec fn contents(&self) -> Map<Seq<char>, T::V> {
        pairs_to_map(self.pairs())
    }

    /// An empty map.
    pub fn new() -> (m: Self)
        ensures
            m.pairs() == Seq::<(Seq<char>, T::V)>::empty(),
            m.contents() == Map::<Seq<char>, T::V>::empty(),
    {
        let m = StrMap { entries: Vec::new() };
        assert(m.pairs() =~= Seq::<(Seq<char>, T::V)>::empty());
        assert(m.contents() =~= Map::<Seq<char>, T::V>::empty());
        m
    }

    /// Number of entries.
    pub fn len(&self) -> (n: usize)
        ensures
            n == self.pairs().len(),
    {
        self.entries.len()
    }

    /// Whether the map holds no entry.
    pub fn is_empty(&self) -> (b: bool)
        ensures
            b == (self.contents() == Map::<Seq<char>, T::V>::empty()),
            b == (self.pairs().len() == 0),
    {
        proof {
            use_type_invariant(self);
            if self.pairs().len() == 0 {
                assert(self.contents() =~= Map::<Seq<char>, T::V>::empty());
            } else {
                lemma_pairs_to_map_at(self.pairs(), 0);
                assert(!Map::<Seq<char>, T::V>::empty().contains_key(self.pairs()[0].0));
            }
        }
        self.entries.len() == 0
    }

    fn index_of(&self, key: &str) -> (r: Option<usize>)
        ensures
            match r {
                Some(i) => i < self.pairs().len() && self.pairs()[i as int].0 == key@,
                None => !has_key(self.pairs(), key@),
            },
    {
        let mut i: usize = 0;
        while i < self.entries.len()
            invariant
                i <= self.entries@.len(),
                forall|j: int| 0 <= j < i ==> self.pairs()[j].0 != key@,
            decreases self.entries@.len() - i,
        {
            if crate::text::text_eq(self.entries[i].0.as_str(), key) {
                return Some(i);
            }
            i = i + 1;
        }
        None
    }

    /// The value stored under `key`, if any.
    pub fn get(&self, key: &str) -> (r: Option<&T>)
        ensures
            match r {
                Some(v) => self.contents().contains_key(key@) && self.contents()[key@] == v@,
                None => !self.contents().contains_key(key@),
            },
    {
        proof {
            use_type_invariant(self);
        }
        match self.index_of(key) {
            Some(i) => {
                proof {
                    lemma_pairs_to_map_at(self.pairs(), i as int);
                }
                Some(&self.entries[i].1)
            },
            None => None,
        }
    }

    /// Stores `value` under `key`, replacing any earlier value; a new key is
    /// added after the existing ones.
    pub fn insert(&mut self, key: String, value: T)
        ensures
            final(self).contents() == old(self).contents().insert(key@, value@),
            final(self).keys_in_order() == (if old(self).contents().contains_key(key@) {
                old(self).keys_in_order()
            } else {
                old(self).keys_in_order().push(key@)
            }),
    {
        proof {
            use_type_invariant(&*self);
        }
        let ghost old_pairs = self.pairs();
        let ghost kv = key@;
        let ghost vv = value@;
        match self.index_of(key.as_str()) {
            Some(i) => {
                let mut entries: Vec<(String, T)> = Vec::new();
                std::mem::swap(&mut entries, &mut self.entries);
                let ghost before = entries@;
                entries.set(i, (key, value));
                let ghost new_pairs = Seq::new(
                    entries@.len(),
                    |j: int| (entries@[j].0@, entries@[j].1@),
                );
                assert(new_pairs =~= old_pairs.update(i as int, (kv, vv)));
                assert(distinct_keys(new_pairs));
                proof {
                    lemma_replace_view(old_pairs, i as int, kv, vv);
                    assert(pair_keys(new_pairs) =~= pair_keys(old_pairs));
                    lemma_pairs_to_map_at(old_pairs, i as int);
                }
                self.entries = entries;
                assert(self.pairs() =~= new_pairs);
            },
            None => {
                let mut entries: Vec<(String, T)> = Vec::new();
                std::mem::swap(&mut entries, &mut self.entries);
                entries.push((key, value));
                let ghost new_pairs = Seq::new(
                    entries@.len(),
                    |j: int| (entries@[j].0@, entries@[j].1@),
                );
                assert(new_pairs =~= old_pairs.push((kv, vv)));
                assert(distinct_keys(new_pairs));
                proof {
                    lemma_push_view(old_pairs, kv, vv);
                    assert(pair_keys(new_pairs) =~= pair_keys(old_pairs).push(kv));
                    assert(!pairs_to_map(old_pairs).contains_key(kv));
                }
                self.entries = entries;
                assert(self.pairs() =~= new_pairs);
            },
        }
    }

    /// Removes the entry stored under `key`, if there is one; the other
    /// entries keep their order.
    pub fn remove(&mut self, key: &str)
        ensures
            final(self).contents() == old(self).contents().remove(key@),
            final(self).keys_in_order() == without_key(old(self).keys_in_order(), key@),
    {
        proof {
            use_type_invariant(&*self);
        }
        let ghost old_pairs = self.pairs();
        match self.index_of(key) {
            Some(i) => {
                let mut entries: Vec<(String, T)> = Vec::new();
                std::mem::swap(&mut entries, &mut self.entries);
                let _removed = entries.remove(i);
                let ghost new_pairs = Seq::new(
                    entries@.len(),
                    |j: int| (entries@[j].0@, entries@[j].1@),
                );
                assert(new_pairs =~= old_pairs.remove(i as int));
                proof {
                    lemma_remove_view(old_pairs, i as int);
                    lemma_remove_keys(old_pairs, i as int);
                }
                self.entries = entries;
                assert(self.pairs() =~= new_pairs);
            },
            None => {
                proof {
                    assert(pairs_to_map(old_pairs).remove(key@) =~= pairs_to_map(old_pairs));
                    lemma_filter_absent(pair_keys(old_pairs), key@);
                }
            },
        }
    }

    /// Removes every entry.
    pub fn clear(&mut self)
        ensures
            final(self).contents() == Map::<Seq<char>, T::V>::empty(),
            final(self).pairs().len() == 0,
    {
        self.entries = Vec::new();
        assert(self.contents() =~= Map::<Seq<char>, T::V>::empty());
    }

    /// The entries, in order.
    pub fn entries(&self) -> (r: &Vec<(String, T)>)
        ensures
            r@.len() == self.pairs().len(),
            distinct_keys(self.pairs()),
            forall|i: int|
                0 <= i < r@.len() ==> (#[trigger] r@[i]).0@ == self.pairs()[i].0 && r@[i].1@
                    == self.pairs()[i].1,
    {
        proof {
            use_type_invariant(self);
        }
        &self.entries
    }
}

proof fn lemma_replace_view<T>(pairs: Seq<(Seq<char>, T)>, i: int, k: Seq<char>, v: T)
    requires
        distinct_keys(pairs),
        0 <= i < pairs.len(),
        pairs[i].0 == k,
    ensures
        distinct_keys(pairs.update(i, (k, v))),
        pairs_to_map(pairs.update(i, (k, v))) == pairs_to_map(pairs).insert(k, v),
{
    let np = pairs.update(i, (k, v));
    assert(distinct_keys(np)) by {
        assert forall|a: int, b: int|
            0 <= a < np.len() && 0 <= b < np.len() && a != b implies #[trigger] np[a].0
            != #[trigger] np[b].0 by {
            assert(np[a].0 == pairs[a].0);
            assert(np[b].0 == pairs[b].0);
        }
    }
    let m1 = pairs_to_map(np);
    let m2 = pairs_to_map(pairs).insert(k, v);
    assert forall|key: Seq<char>| #[trigger] m1.contains_key(key) <==> m2.contains_key(key) by {
        if has_key(np, key) {
            let j = choose|j: int| 0 <= j < np.len() && #[trigger] np[j].0 == key;
            assert(pairs[j].0 == key);
        }
        if has_key(pairs, key) {
            let j = choose|j: int| 0 <= j < pairs.len() && #[trigger] pairs[j].0 == key;
            assert(np[j].0 == key);
        }
        if key == k {
            assert(np[i].0 == key);
        }
    }
    assert forall|key: Seq<char>| #[trigger] m1.contains_key(key) implies m1[key] == m2[key] by {
        let j = choose|j: int| 0 <= j < np.len() && #[trigger] np[j].0 == key;
        lemma_pairs_to_map_at(np, j);
        if j == i {
        } else {
            lemma_pairs_to_map_at(pairs, j);
            assert(pairs[j].0 == key);
        }
    }
    assert(m1 =~= m2);
}

proof fn lemma_push_view<T>(pairs: Seq<(Seq<char>, T)>, k: Seq<char>, v: T)
    requires
        distinct_keys(pairs),
        !has_key(pairs, k),
    ensures
        distinct_keys(pairs.push((k, v))),
        pairs_to_map(pairs.push((k, v))) == pairs_to_map(pairs).insert(k, v),
{
    let np = pairs.push((k, v));
    assert(distinct_keys(np)) by {
        assert forall|a: int, b: int|
            0 <= a < np.len() && 0 <= b < np.len() && a != b implies #[trigger] np[a].0
            != #[trigger] np[b].0 by {
            if a < pairs.len() && b < pairs.len() {
                assert(np[a].0 == pairs[a].0);
                assert(np[b].0 == pairs[b].0);
            } else if a < pairs.len() {
                assert(np[a].0 == pairs[a].0);
            } else {
                assert(np[b].0 == pairs[b].0);
            }
        }
    }
    let m1 = pairs_to_map(np);
    let m2 = pairs_to_map(pairs).insert(k, v);
    assert forall|key: Seq<char>| #[trigger] m1.contains_key(key) <==> m2.contains_key(key) by {
        if has_key(np, key) {
            let j = choose|j: int| 0 <= j < np.len() && #[trigger] np[j].0 == key;
            if j < pairs.len() {
                assert(pairs[j].0 == key);
            }
        }
        if has_key(pairs, key) {
            let j = choose|j: int| 0 <= j < pairs.len() && #[trigger] pairs[j].0 == key;
            assert(np[j].0 == key);
        }
        if key == k {
            assert(np[pairs.len() as int].0 == key);
        }
    }
    assert forall|key: Seq<char>| #[trigger] m1.contains_key(key) implies m1[key] == m2[key] by {
        let j = choose|j: int| 0 <= j < np.len() && #[trigger] np[j].0 == key;
        lemma_pairs_to_map_at(np, j);
        if j < pairs.len() {
            assert(pairs[j].0 == key);
            lemma_pairs_to_map_at(pairs, j);
        }
    }
    assert(m1 =~= m2);
}

proof fn lemma_remove_view<T>(pairs: Seq<(Seq<char>, T)>, i: int)
    requires
        distinct_keys(pairs),
        0 <= i < pairs.len(),
    ensures
        distinct_keys(pairs.remove(i)),
        pairs_to_map(pairs.remove(i)) == pairs_to_map(pairs).remove(pairs[i].0),
{
    let np = pairs.remove(i);
    let k = pairs[i].0;
    assert forall|a: int| 0 <= a < np.len() implies #[trigger] np[a] == pairs[if a < i {
        a
    } else {
        a + 1
    }] by {}
    assert(distinct_keys(np)) by {
        assert forall|a: int, b: int|
            0 <= a < np.len() && 0 <= b < np.len() && a != b implies #[trigger] np[a].0
            != #[trigger] np[b].0 by {
            let a2 = if a < i { a } else { a + 1 };
            let b2 = if b < i { b } else { b + 1 };
            assert(np[a] == pairs[a2]);
            assert(np[b] == pairs[b2]);
        }
    }
    let m1 = pairs_to_map(np);
    let m2 = pairs_to_map(pairs).remove(k);
    assert forall|key: Seq<char>| #[trigger] m1.contains_key(key) <==> m2.contains_key(key) by {
        if has_key(np, key) {
            let j = choose|j: int| 0 <= j < np.len() && #[trigger] np[j].0 == key;
            let j2 = if j < i { j } else { j + 1 };
            assert(np[j] == pairs[j2]);
            assert(pairs[j2].0 == key);
            assert(j2 != i);
        }
        if has_key(pairs, key) && key != k {
            let j = choose|j: int| 0 <= j < pairs.len() && #[trigger] pairs[j].0 == key;
            assert(j != i);
            let j1 = if j < i { j } else { j - 1 };
            assert(np[j1] == pairs[j]);
            assert(np[j1].0 == key);
        }
    }
    assert forall|key: Seq<char>| #[trigger] m1.contains_key(key) implies m1[key] == m2[key] by {
        let j = choose|j: int| 0 <= j < np.len() && #[trigger] np[j].0 == key;
        lemma_pairs_to_map_at(np, j);
        let j2 = if j < i { j } else { j + 1 };
        assert(np[j] == pairs[j2]);
        lemma_pairs_to_map_at(pairs, j2);
    }
    assert(m1 =~= m2);
}

proof fn lemma_remove_keys<T>(pairs: Seq<(Seq<char>, T)>, i: int)
    requires
        distinct_keys(pairs),
        0 <= i < pairs.len(),
    ensures
        pair_keys(pairs.remove(i)) == without_key(pair_keys(pairs), pairs[i].0),
    decreases pairs.len(),
{
    let k = pairs[i].0;
    let ks = pair_keys(pairs);
    let np = pairs.remove(i);
    reveal_with_fuel(Seq::filter, 1);
    if i == pairs.len() - 1 {
        assert(pairs.remove(i) =~= pairs.drop_last());
        assert(ks.drop_last() =~= pair_keys(pairs.drop_last()));
        lemma_filter_absent(ks.drop_last(), k);
        assert(without_key(ks, k) =~= without_key(ks.drop_last(), k));
    } else {
        let last = pairs.last();
        let rest = pairs.drop_last();
        assert(distinct_keys(rest)) by {
            assert forall|a: int, b: int|
                0 <= a < rest.len() && 0 <= b < rest.len() && a != b implies #[trigger] rest[a].0
                != #[trigger] rest[b].0 by {
                assert(rest[a] == pairs[a]);
                assert(rest[b] == pairs[b]);
            }
        }
        assert(rest[i] == pairs[i]);
        lemma_remove_keys(rest, i);
        assert(ks.drop_last() =~= pair_keys(rest));
        assert(last.0 != k);
        assert(np =~= rest.remove(i).push(last));
        assert(pair_keys(np) =~= pair_keys(rest.remove(i)).push(last.0));
        assert(without_key(ks, k) =~= without_key(ks.drop_last(), k).push(last.0));
    }
}

proof fn lemma_filter_absent(ks: Seq<Seq<char>>, k: Seq<char>)
    requires
        forall|j: int| 0 <= j < ks.len() ==> ks[j] != k,
    ensures
        without_key(ks, k) == ks,
    decreases ks.len(),
{
    reveal_with_fuel(Seq::filter, 1);
    if ks.len() > 0 {
        lemma_filter_absent(ks.drop_last(), k);
        assert(ks.drop_last().push(ks.last()) =~= ks);
    } else {
        assert(without_key(ks, k) =~= ks);
    }
}

} // verus!
