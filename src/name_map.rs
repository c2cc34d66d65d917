use vstd::prelude::*;

use crate::name::Name;

verus! {

/// A map keyed by name, held as a vector of pairs with each name at most once.
pub struct NameMap<V> {
    pairs: Vec<(Name, V)>,
    contents: Ghost<Map<Name, V>>,
}

impl<V> View for NameMap<V> {
    type V = Map<Name, V>;

    closed spec fn view(&self) -> Map<Name, V> {
        self.contents@
    }
}

impl<V> NameMap<V> {
    pub closed spec fn wf(&self) -> bool {
        &&& forall|i: int|
            0 <= i < self.pairs@.len() ==> #[trigger] self.contents@.contains_key(
                self.pairs@[i].0,
            ) && self.contents@[self.pairs@[i].0] == self.pairs@[i].1
        &&& forall|k: Name| #[trigger]
            self.contents@.contains_key(k) ==> exists|i: int|
                0 <= i < self.pairs@.len() && #[trigger] self.pairs@[i].0 == k
        &&& forall|i: int, j: int|
            0 <= i < self.pairs@.len() && 0 <= j < self.pairs@.len() && i != j
                ==> #[trigger] self.pairs@[i].0 != #[trigger] self.pairs@[j].0
    }

    /// An empty map.
    pub fn new() -> (r: NameMap<V>)
        ensures
            r.wf(),
            r@ == Map::<Name, V>::empty(),
    {
        NameMap { pairs: Vec::new(), contents: Ghost(Map::empty()) }
    }

    /// Where `key` stands among the pairs, if it is held.
    fn find(&self, key: &Name) -> (r: Option<usize>)
        requires
            self.wf(),
        ensures
            r is None <==> !self@.contains_key(*key),
            r matches Some(i) ==> i < self.pairs@.len() && self.pairs@[i as int].0 == *key,
    {
        let mut i: usize = 0;
        while i < self.pairs.len()
            invariant
                self.wf(),
                i <= self.pairs@.len(),
                forall|j: int| 0 <= j < i ==> self.pairs@[j].0 != *key,
            decreases self.pairs@.len() - i,
        {
            if self.pairs[i].0.same(key) {
                return Some(i);
            }
            i = i + 1;
        }
        proof {
            if self.contents@.contains_key(*key) {
                let w = choose|j: int| 0 <= j < self.pairs@.len() && self.pairs@[j].0 == *key;
                assert(self.pairs@[w].0 == *key);
            }
        }
        None
    }

    /// Whether `key` is held.
    pub fn contains(&self, key: &Name) -> (r: bool)
        requires
            self.wf(),
        ensures
            r == self@.contains_key(*key),
    {
        self.find(key).is_some()
    }

    /// The value held under `key`, if any.
    pub fn get(&self, key: &Name) -> (r: Option<&V>)
        requires
            self.wf(),
        ensures
            r is None <==> !self@.contains_key(*key),
            r matches Some(v) ==> *v == self@[*key],
    {
        match self.find(key) {
            Some(i) => Some(&self.pairs[i].1),
            None => None,
        }
    }

    /// Adds `key` with `value`; `key` must not be held yet.
    pub fn insert_new(&mut self, key: Name, value: V)
        requires
            old(self).wf(),
            !old(self)@.contains_key(key),
        ensures
            final(self).wf(),
            final(self)@ == old(self)@.insert(key, value),
    {
        let ghost pre = self.pairs@;
        let ghost v = value;
        self.pairs.push((key, value));
        self.contents = Ghost(self.contents@.insert(key, v));
        assert forall|k: Name| #[trigger] self.contents@.contains_key(k) implies exists|i: int|
            0 <= i < self.pairs@.len() && #[trigger] self.pairs@[i].0 == k by {
            if k != key {
                let w = choose|j: int| 0 <= j < pre.len() && pre[j].0 == k;
                assert(self.pairs@[w].0 == k);
            } else {
                assert(self.pairs@[pre.len() as int].0 == k);
            }
        }
    }

    /// Takes the value held under `key` out of the map, if any.
    pub fn take(&mut self, key: &Name) -> (r: Option<V>)
        requires
            old(self).wf(),
        ensures
            final(self).wf(),
            r is None <==> !old(self)@.contains_key(*key),
            r matches Some(v) ==> v == old(self)@[*key],
            final(self)@ == old(self)@.remove(*key),
    {
        let idx = match self.find(key) {
            Some(i) => i,
            None => {
                assert(self.contents@.remove(*key) =~= self.contents@);
                return None;
            },
        };
        let ghost pre = self.pairs@;
        let ghost pc = self.contents@;
        let (_, value) = self.pairs.remove(idx);
        self.contents = Ghost(self.contents@.remove(*key));
        assert forall|i: int| 0 <= i < self.pairs@.len() implies #[trigger] self.contents@.contains_key(
            self.pairs@[i].0,
        ) && self.contents@[self.pairs@[i].0] == self.pairs@[i].1 by {
            let p = if i < idx { i } else { i + 1 };
            assert(self.pairs@[i] == pre[p]);
            assert(pre[p].0 != pre[idx as int].0);
            assert(pc.contains_key(pre[p].0));
        }
        assert forall|k: Name| #[trigger] self.contents@.contains_key(k) implies exists|i: int|
            0 <= i < self.pairs@.len() && #[trigger] self.pairs@[i].0 == k by {
            let w = choose|j: int| 0 <= j < pre.len() && pre[j].0 == k;
            if w < idx {
                assert(self.pairs@[w].0 == k);
            } else {
                assert(w != idx);
                assert(self.pairs@[w - 1].0 == k);
            }
        }
        assert forall|i: int, j: int|
            0 <= i < self.pairs@.len() && 0 <= j < self.pairs@.len() && i != j
                implies #[trigger] self.pairs@[i].0 != #[trigger] self.pairs@[j].0 by {
            let pi = if i < idx { i } else { i + 1 };
            let pj = if j < idx { j } else { j + 1 };
            assert(self.pairs@[i] == pre[pi]);
            assert(self.pairs@[j] == pre[pj]);
        }
        Some(value)
    }

    /// The names held, each once, in no particular order.
    pub fn keys(&self) -> (r: Vec<Name>)
        requires
            self.wf(),
        ensures
            r@.to_set() == self@.dom(),
            r@.no_duplicates(),
    {
        let mut r: Vec<Name> = Vec::new();
        let mut i: usize = 0;
        while i < self.pairs.len()
            invariant
                self.wf(),
                i <= self.pairs@.len(),
                r@.len() == i,
                forall|j: int| 0 <= j < i ==> r@[j] == #[trigger] self.pairs@[j].0,
            decreases self.pairs@.len() - i,
        {
            r.push(self.pairs[i].0);
            i = i + 1;
        }
        assert forall|k: Name| r@.to_set().contains(k) == self@.dom().contains(k) by {
            if self@.dom().contains(k) {
                let w = choose|j: int| 0 <= j < self.pairs@.len() && self.pairs@[j].0 == k;
                assert(r@[w] == k);
            }
            if r@.to_set().contains(k) {
                let w = choose|j: int| 0 <= j < r@.len() && r@[j] == k;
                assert(self.pairs@[w].0 == k);
            }
        }
        assert(r@.to_set() =~= self@.dom());
        assert forall|a: int, b: int| 0 <= a < r@.len() && 0 <= b < r@.len() && a != b implies r@[a] != r@[b] by {
            assert(r@[a] == self.pairs@[a].0);
            assert(r@[b] == self.pairs@[b].0);
        }
        r
    }
}

} // verus!
