use crate::coords::Position;
use vstd::prelude::*;

verus! {

/// The map that a sequence of `(key, value)` pairs denotes when they are
/// inserted in order: a later pair overrides an earlier one with the same key.
pub open spec fn seq_to_map<V>(s: Seq<(Position, V)>) -> Map<Position, V>
    decreases s.len(),
{
    if s.len() == 0 {
        Map::empty()
    } else {
        seq_to_map(s.drop_last()).insert(s.last().0, s.last().1)
    }
}

/// No key occurs twice.
pub open spec fn unique_keys<V>(s: Seq<(Position, V)>) -> bool {
    forall|i: int, j: int| 0 <= i < j < s.len() ==> s[i].0 != s[j].0
}

/// Whether some pair of `s` has key `k`.
pub open spec fn has_key<V>(s: Seq<(Position, V)>, k: Position) -> bool {
    exists|j: int| 0 <= j < s.len() && s[j].0 == k
}

/// The keys of `seq_to_map(s)` are those of the pairs of `s`, and when keys are
/// unique each pair's value is the one its key maps to.
pub proof fn lemma_seq_to_map<V>(s: Seq<(Position, V)>)
    ensures
        forall|k: Position| #[trigger] seq_to_map(s).contains_key(k) <==> has_key(s, k),
        unique_keys(s) ==> forall|j: int|
            0 <= j < s.len() ==> seq_to_map(s).contains_key(#[trigger] s[j].0) && seq_to_map(
                s,
            )[s[j].0] == s[j].1,
    decreases s.len(),
{
    if s.len() > 0 {
        let p = s.drop_last();
        lemma_seq_to_map(p);
        assert(seq_to_map(s) == seq_to_map(p).insert(s.last().0, s.last().1));
        assert forall|j: int| 0 <= j < p.len() implies #[trigger] p[j] == s[j] by {}
        assert forall|k: Position| #[trigger] seq_to_map(s).contains_key(k) <==> has_key(s, k) by {
            if seq_to_map(s).contains_key(k) {
                if k == s.last().0 {
                    assert(s[s.len() - 1].0 == k);
                } else {
                    assert(has_key(p, k));
                    let j = choose|j: int| 0 <= j < p.len() && p[j].0 == k;
                    assert(s[j].0 == k);
                }
            }
            if has_key(s, k) {
                let j = choose|j: int| 0 <= j < s.len() && s[j].0 == k;
                if j < s.len() - 1 {
                    assert(p[j].0 == k);
                }
            }
        }
        if unique_keys(s) {
            assert(unique_keys(p));
            assert forall|j: int| 0 <= j < s.len() implies seq_to_map(s).contains_key(
                #[trigger] s[j].0,
            ) && seq_to_map(s)[s[j].0] == s[j].1 by {
                if j < s.len() - 1 {
                    assert(p[j] == s[j]);
                    assert(s[j].0 != s.last().0);
                }
            }
        }
    }
}

/// Two sequences of pairs with unique keys that hold the same pairs denote the
/// same map.
pub proof fn lemma_same_entries<V>(s: Seq<(Position, V)>, t: Seq<(Position, V)>)
    requires
        unique_keys(s),
        unique_keys(t),
        forall|i: int| 0 <= i < s.len() ==> #[trigger] t.contains(s[i]),
        forall|j: int| 0 <= j < t.len() ==> #[trigger] s.contains(t[j]),
    ensures
        seq_to_map(s) == seq_to_map(t),
{
    lemma_seq_to_map(s);
    lemma_seq_to_map(t);
    assert forall|k: Position| seq_to_map(s).contains_key(k) implies seq_to_map(t).contains_key(k)
        && seq_to_map(s)[k] == seq_to_map(t)[k] by {
        assert(has_key(s, k));
        let i = choose|i: int| 0 <= i < s.len() && s[i].0 == k;
        assert(t.contains(s[i]));
        let j = choose|j: int| 0 <= j < t.len() && t[j] == s[i];
        assert(t[j].0 == k);
    }
    assert forall|k: Position| seq_to_map(t).contains_key(k) implies seq_to_map(s).contains_key(
        k,
    ) by {
        assert(has_key(t, k));
        let j = choose|j: int| 0 <= j < t.len() && t[j].0 == k;
        assert(s.contains(t[j]));
        let i = choose|i: int| 0 <= i < s.len() && s[i] == t[j];
        assert(s[i].0 == k);
    }
    assert(seq_to_map(s) =~= seq_to_map(t));
}

/// A map keyed by positions that keeps its entries in insertion order, so
/// that walking it is deterministic.
#[derive(Debug)]
pub struct CoordMap<V> {
    entries: Vec<(Position, V)>,
}

impl<V> View for CoordMap<V> {
    type V = Map<Position, V>;

    open spec fn view(&self) -> Map<Position, V> {
        seq_to_map(self.entries())
    }
}

impl<V> CoordMap<V> {
    /// The entries in the order in which they were first inserted.
    pub closed spec fn entries(&self) -> Seq<(Position, V)> {
        self.entries@
    }

    pub open spec fn wf(&self) -> bool {
        unique_keys(self.entries())
    }
}

impl<V: Copy> CoordMap<V> {
    pub fn new() -> (r: CoordMap<V>)
        ensures
            r.wf(),
            r.entries() == Seq::<(Position, V)>::empty(),
            r@ == Map::<Position, V>::empty(),
    {
        CoordMap { entries: Vec::new() }
    }

    pub fn len(&self) -> (r: usize)
        ensures
            r == self.entries().len(),
    {
        self.entries.len()
    }

    /// The entry at position `i` of insertion order.
    pub fn entry(&self, i: usize) -> (r: (Position, V))
        requires
            i < self.entries().len(),
        ensures
            r == self.entries()[i as int],
    {
        self.entries[i]
    }

    fn find(&self, key: &Position) -> (r: Option<usize>)
        ensures
            match r {
                Some(i) => i < self.entries().len() && self.entries()[i as int].0 == *key,
                None => !has_key(self.entries(), *key),
            },
    {
        let mut i: usize = 0;
        while i < self.entries.len()
            invariant
                i <= self.entries().len(),
                forall|j: int| 0 <= j < i ==> self.entries()[j].0 != *key,
            decreases self.entries().len() - i,
        {
            if self.entries[i].0.0 == key.0 && self.entries[i].0.1 == key.1 {
                return Some(i);
            }
            i = i + 1;
        }
        None
    }

    pub fn contains_key(&self, key: &Position) -> (r: bool)
        ensures
            r == self@.contains_key(*key),
    {
        proof {
            lemma_seq_to_map(self.entries());
        }
        self.find(key).is_some()
    }

    pub fn get(&self, key: &Position) -> (r: Option<V>)
        requires
            self.wf(),
        ensures
            r == if self@.contains_key(*key) {
                Some(self@[*key])
            } else {
                None::<V>
            },
    {
        proof {
            lemma_seq_to_map(self.entries());
        }
        match self.find(key) {
            Some(i) => Some(self.entries[i].1),
            None => None,
        }
    }

    /// Sets the value of `key`, overwriting an earlier one; a new key goes last.
    pub fn insert(&mut self, key: Position, value: V)
        requires
            old(self).wf(),
        ensures
            final(self).wf(),
            final(self)@ == old(self)@.insert(key, value),
            has_key(old(self).entries(), key) ==> final(self).entries().len() == old(
                self,
            ).entries().len(),
            !has_key(old(self).entries(), key) ==> final(self).entries() == old(
                self,
            ).entries().push((key, value)),
    {
        let ghost s = self.entries();
        proof {
            lemma_seq_to_map(s);
        }
        match self.find(&key) {
            Some(i) => {
                self.entries.set(i, (key, value));
                proof {
                    let t = self.entries();
                    assert(t == s.update(i as int, (key, value)));
                    assert(unique_keys(t));
                    lemma_seq_to_map(t);
                    assert forall|k: Position| seq_to_map(t).contains_key(k) <==> seq_to_map(
                        s,
                    ).insert(key, value).contains_key(k) by {
                        if has_key(s, k) {
                            let j = choose|j: int| 0 <= j < s.len() && s[j].0 == k;
                            assert(t[j].0 == k);
                        }
                        if has_key(t, k) {
                            let j = choose|j: int| 0 <= j < t.len() && t[j].0 == k;
                            assert(s[j].0 == k);
                        }
                    }
                    assert forall|k: Position| #[trigger]
                        seq_to_map(t).contains_key(k) implies seq_to_map(t)[k] == seq_to_map(
                        s,
                    ).insert(key, value)[k] by {
                        let j = choose|j: int| 0 <= j < t.len() && t[j].0 == k;
                        if j != i {
                            assert(s[j] == t[j]);
                        }
                    }
                    assert(seq_to_map(t) =~= seq_to_map(s).insert(key, value));
                }
            },
            None => {
                self.entries.push((key, value));
                proof {
                    let t = self.entries();
                    assert(t.drop_last() =~= s);
                }
            },
        }
    }

    /// Keeps exactly the entries whose flag in `keep` is set, in their order;
    /// `pred` says of each entry what its flag is.
    pub(crate) fn retain_flagged(
        &mut self,
        keep: &Vec<bool>,
        pred: Ghost<spec_fn(Position, V) -> bool>,
    )
        requires
            old(self).wf(),
            keep@.len() == old(self).entries().len(),
            forall|i: int|
                0 <= i < keep@.len() ==> keep@[i] == pred@(
                    #[trigger] old(self).entries()[i].0,
                    old(self).entries()[i].1,
                ),
        ensures
            final(self).wf(),
            final(self)@ == Map::new(
                |k: Position| old(self)@.contains_key(k) && pred@(k, old(self)@[k]),
                |k: Position| old(self)@[k],
            ),
    {
        let ghost s = self.entries();
        let ghost m = self@;
        proof {
            lemma_seq_to_map(s);
        }
        let mut kept: CoordMap<V> = CoordMap::new();
        let mut i: usize = 0;
        while i < self.entries.len()
            invariant
                s == self.entries(),
                m == seq_to_map(s),
                unique_keys(s),
                i <= s.len(),
                keep@.len() == s.len(),
                forall|j: int| 0 <= j < keep@.len() ==> keep@[j] == pred@(#[trigger] s[j].0, s[j].1),
                forall|j: int|
                    0 <= j < s.len() ==> m.contains_key(#[trigger] s[j].0) && m[s[j].0] == s[j].1,
                kept.wf(),
                kept@ == Map::new(
                    |k: Position| has_key(s.take(i as int), k) && pred@(k, m[k]),
                    |k: Position| m[k],
                ),
            decreases s.len() - i,
        {
            let (k, v) = self.entries[i];
            let ghost before = kept@;
            proof {
                let t0 = s.take(i as int);
                let t1 = s.take(i as int + 1);
                assert(t1 =~= t0.push(s[i as int]));
                assert forall|k2: Position| has_key(t1, k2) <==> (has_key(t0, k2) || k2 == k) by {
                    if has_key(t1, k2) {
                        let j = choose|j: int| 0 <= j < t1.len() && t1[j].0 == k2;
                        if j < i {
                            assert(t0[j].0 == k2);
                        }
                    }
                    if has_key(t0, k2) {
                        let j = choose|j: int| 0 <= j < t0.len() && t0[j].0 == k2;
                        assert(t1[j].0 == k2);
                    }
                    if k2 == k {
                        assert(t1[i as int].0 == k2);
                    }
                }
                assert(!has_key(t0, k)) by {
                    if has_key(t0, k) {
                        let j = choose|j: int| 0 <= j < t0.len() && t0[j].0 == k;
                        assert(s[j].0 == s[i as int].0);
                    }
                }
            }
            if keep[i] {
                kept.insert(k, v);
                proof {
                    assert(kept@ =~= Map::new(
                        |k2: Position| has_key(s.take(i as int + 1), k2) && pred@(k2, m[k2]),
                        |k2: Position| m[k2],
                    ));
                }
            } else {
                proof {
                    assert(kept@ =~= Map::new(
                        |k2: Position| has_key(s.take(i as int + 1), k2) && pred@(k2, m[k2]),
                        |k2: Position| m[k2],
                    ));
                }
            }
            i = i + 1;
        }
        proof {
            assert(s.take(i as int) =~= s);
            assert(kept@ =~= Map::new(
                |k: Position| m.contains_key(k) && pred@(k, m[k]),
                |k: Position| m[k],
            ));
        }
        *self = kept;
    }

    /// Removes `key` and its value, if present; the other entries keep their order.
    pub fn remove(&mut self, key: &Position)
        requires
            old(self).wf(),
        ensures
            final(self).wf(),
            final(self)@ == old(self)@.remove(*key),
    {
        let ghost s = self.entries();
        proof {
            lemma_seq_to_map(s);
        }
        match self.find(key) {
            Some(i) => {
                self.entries.remove(i);
                proof {
                    let t = self.entries();
                    assert(t == s.remove(i as int));
                    assert(unique_keys(t)) by {
                        assert forall|a: int, b: int| 0 <= a < b < t.len() implies t[a].0
                            != t[b].0 by {
                            let sa = if a < i { a } else { a + 1 };
                            let sb = if b < i { b } else { b + 1 };
                            assert(t[a] == s[sa] && t[b] == s[sb]);
                        }
                    }
                    lemma_seq_to_map(t);
                    assert forall|k: Position| seq_to_map(t).contains_key(k) <==> seq_to_map(
                        s,
                    ).remove(*key).contains_key(k) by {
                        if has_key(s, k) && k != *key {
                            let j = choose|j: int| 0 <= j < s.len() && s[j].0 == k;
                            assert(j != i);
                            let tj = if j < i { j } else { j - 1 };
                            assert(t[tj].0 == k);
                        }
                        if has_key(t, k) {
                            let j = choose|j: int| 0 <= j < t.len() && t[j].0 == k;
                            let sj = if j < i { j } else { j + 1 };
                            assert(s[sj].0 == k);
                            assert(sj != i);
                        }
                    }
                    assert forall|k: Position| #[trigger]
                        seq_to_map(t).contains_key(k) implies seq_to_map(t)[k] == seq_to_map(
                        s,
                    )[k] by {
                        let j = choose|j: int| 0 <= j < t.len() && t[j].0 == k;
                        let sj = if j < i { j } else { j + 1 };
                        assert(s[sj] == t[j]);
                    }
                    assert(seq_to_map(t) =~= seq_to_map(s).remove(*key));
                }
            },
            None => {
                assert(seq_to_map(s) =~= seq_to_map(s).remove(*key));
            },
        }
    }
}

} // verus!
