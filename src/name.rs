use vstd::prelude::*;

verus! {

/// A fixed-size binary address naming an account or a stored entry.
#[derive(Clone, Copy, Debug)]
pub struct Name(pub [u8; 64]);

/// A sender's signing public key, as raw bytes.
#[derive(Clone, Copy, Debug)]
pub struct PublicKey(pub [u8; 32]);

/// `a` comes before `b` in byte-wise order: they agree up to some byte, where
/// `a`'s is the smaller.
pub open spec fn name_lt(a: Name, b: Name) -> bool {
    exists|i: int|
        0 <= i < 64 && (forall|j: int| 0 <= j < i ==> a.0[j] == b.0[j]) && #[trigger] a.0[i] < b.0[i]
}

/// Each name of `s` comes before the next.
pub open spec fn sorted_names(s: Seq<Name>) -> bool {
    forall|i: int, j: int| 0 <= i < j < s.len() ==> name_lt(#[trigger] s[i], #[trigger] s[j])
}

/// The byte-wise order is transitive.
pub proof fn lemma_name_lt_transitive(a: Name, b: Name, c: Name)
    requires
        name_lt(a, b),
        name_lt(b, c),
    ensures
        name_lt(a, c),
{
    let i = choose|i: int|
        0 <= i < 64 && (forall|j: int| 0 <= j < i ==> a.0[j] == b.0[j]) && #[trigger] a.0[i] < b.0[i];
    let k = choose|k: int|
        0 <= k < 64 && (forall|j: int| 0 <= j < k ==> b.0[j] == c.0[j]) && #[trigger] b.0[k] < c.0[k];
    let m = if i < k { i } else { k };
    assert(forall|j: int| 0 <= j < m ==> a.0[j] == c.0[j]);
    assert(a.0[m] < c.0[m]);
}

/// No name comes before itself.
pub proof fn lemma_name_lt_irreflexive(a: Name)
    ensures
        !name_lt(a, a),
{
}

/// Two listings in byte-wise order of the same names are the same listing.
pub proof fn lemma_sorted_names_unique(a: Seq<Name>, b: Seq<Name>)
    requires
        sorted_names(a),
        sorted_names(b),
        a.to_set() == b.to_set(),
    ensures
        a == b,
    decreases a.len(),
{
    if a.len() == 0 {
        if b.len() > 0 {
            assert(b.to_set().contains(b[0]));
        }
        assert(a =~= b);
    } else {
        assert(a.to_set().contains(a[0]));
        assert(b.len() > 0);
        assert(b.to_set().contains(b[0]));
        if a[0] != b[0] {
            let j = choose|j: int| 0 <= j < a.len() && a[j] == b[0];
            let k = choose|k: int| 0 <= k < b.len() && b[k] == a[0];
            assert(name_lt(a[0], a[j]));
            assert(name_lt(b[0], b[k]));
            lemma_name_lt_transitive(a[0], b[0], a[0]);
            lemma_name_lt_irreflexive(a[0]);
        }
        let a1 = a.drop_first();
        let b1 = b.drop_first();
        assert forall|y: Name| a1.to_set().contains(y) == b1.to_set().contains(y) by {
            if a1.contains(y) {
                let j = choose|j: int| 0 <= j < a1.len() && a1[j] == y;
                assert(a.to_set().contains(a[j + 1]));
                let k = choose|k: int| 0 <= k < b.len() && b[k] == y;
                if k == 0 {
                    assert(name_lt(a[0], a[j + 1]));
                    lemma_name_lt_irreflexive(a[0]);
                }
                assert(b1[k - 1] == y);
            }
            if b1.contains(y) {
                let j = choose|j: int| 0 <= j < b1.len() && b1[j] == y;
                assert(b.to_set().contains(b[j + 1]));
                let k = choose|k: int| 0 <= k < a.len() && a[k] == y;
                if k == 0 {
                    assert(name_lt(b[0], b[j + 1]));
                    lemma_name_lt_irreflexive(b[0]);
                }
                assert(a1[k - 1] == y);
            }
        }
        assert(a1.to_set() =~= b1.to_set());
        lemma_sorted_names_unique(a1, b1);
        assert(a =~= b1.insert(0, b[0]));
        assert(b =~= b1.insert(0, b[0]));
    }
}

/// The names of `s`, each once, in byte-wise order.
pub open spec fn sorted_listing(s: Set<Name>) -> Seq<Name> {
    choose|q: Seq<Name>| sorted_names(q) && q.to_set() == s
}

/// A listing in byte-wise order of the names of `s` is `sorted_listing(s)`.
pub proof fn lemma_sorted_listing(q: Seq<Name>, s: Set<Name>)
    requires
        sorted_names(q),
        q.to_set() == s,
    ensures
        sorted_listing(s) == q,
{
    let c = sorted_listing(s);
    assert(sorted_names(c) && c.to_set() == s);
    lemma_sorted_names_unique(c, q);
}

/// The distinct names of `v`, in byte-wise order.
pub fn sort_names(v: &Vec<Name>) -> (r: Vec<Name>)
    requires
        v@.no_duplicates(),
    ensures
        r@.to_set() == v@.to_set(),
        r@.no_duplicates(),
        sorted_names(r@),
{
    let mut r: Vec<Name> = Vec::new();
    let mut i: usize = 0;
    while i < v.len()
        invariant
            v@.no_duplicates(),
            i <= v@.len(),
            sorted_names(r@),
            r@.to_set() == v@.subrange(0, i as int).to_set(),
        decreases v@.len() - i,
    {
        let x = v[i];
        proof {
            if r@.contains(x) {
                assert(r@.to_set().contains(x));
                let k = choose|k: int| 0 <= k < i && v@.subrange(0, i as int)[k] == x;
                assert(v@[k] == v@[i as int]);
            }
        }
        let mut idx: usize = 0;
        let mut found = false;
        while idx < r.len() && !found
            invariant
                idx <= r@.len(),
                !r@.contains(x),
                forall|k: int| 0 <= k < idx ==> name_lt(#[trigger] r@[k], x),
                found ==> idx < r@.len() && name_lt(x, r@[idx as int]),
            decreases r@.len() - idx + (if found { 0int } else { 1int }),
        {
            match x.compare(&r[idx]) {
                core::cmp::Ordering::Less => {
                    found = true;
                },
                core::cmp::Ordering::Greater => {
                    idx = idx + 1;
                },
                core::cmp::Ordering::Equal => {
                    assert(r@[idx as int] == x);
                    idx = idx + 1;
                },
            }
        }
        let ghost pre = r@;
        r.insert(idx, x);
        proof {
            assert forall|a: int, b: int| 0 <= a < b < r@.len() implies name_lt(#[trigger] r@[a], #[trigger] r@[b]) by {
                if b < idx {
                    assert(r@[a] == pre[a] && r@[b] == pre[b]);
                } else if b == idx {
                    assert(r@[a] == pre[a]);
                } else if a < idx {
                    assert(r@[a] == pre[a] && r@[b] == pre[b - 1]);
                    lemma_name_lt_transitive(pre[a], x, pre[b - 1]);
                } else if a == idx {
                    assert(r@[b] == pre[b - 1]);
                    if b - 1 > idx {
                        lemma_name_lt_transitive(x, pre[idx as int], pre[b - 1]);
                    }
                } else {
                    assert(r@[a] == pre[a - 1] && r@[b] == pre[b - 1]);
                }
            }
            let s0 = v@.subrange(0, i as int);
            assert(v@.subrange(0, i + 1) =~= s0.push(x));
            s0.lemma_push_to_set_commute(x);
            assert forall|y: Name| r@.to_set().contains(y) == pre.to_set().insert(x).contains(y) by {
                if y == x {
                    assert(r@[idx as int] == x);
                } else {
                    if r@.contains(y) {
                        let k = choose|k: int| 0 <= k < r@.len() && r@[k] == y;
                        if k < idx {
                            assert(pre[k] == y);
                        } else {
                            assert(pre[k - 1] == y);
                        }
                    }
                    if pre.contains(y) {
                        let k = choose|k: int| 0 <= k < pre.len() && pre[k] == y;
                        if k < idx {
                            assert(r@[k] == y);
                        } else {
                            assert(r@[k + 1] == y);
                        }
                    }
                }
            }
            assert(r@.to_set() =~= pre.to_set().insert(x));
            assert(r@.to_set() =~= v@.subrange(0, i + 1).to_set());
        }
        i = i + 1;
    }
    assert(v@.subrange(0, v@.len() as int) =~= v@);
    proof {
        assert forall|a: int, b: int| 0 <= a < r@.len() && 0 <= b < r@.len() && a != b implies r@[a] != r@[b] by {
            if a < b {
                assert(name_lt(r@[a], r@[b]));
            } else {
                assert(name_lt(r@[b], r@[a]));
            }
            lemma_name_lt_irreflexive(r@[a]);
        }
    }
    r
}

impl Name {
    /// Compares two names in byte-wise order.
    pub fn compare(&self, other: &Name) -> (r: core::cmp::Ordering)
        ensures
            r == core::cmp::Ordering::Less ==> name_lt(*self, *other),
            r == core::cmp::Ordering::Greater ==> name_lt(*other, *self),
            r == core::cmp::Ordering::Equal ==> *self == *other,
    {
        let mut i: usize = 0;
        while i < 64
            invariant
                i <= 64,
                forall|j: int| 0 <= j < i ==> self.0[j] == other.0[j],
            decreases 64 - i,
        {
            if self.0[i] < other.0[i] {
                assert(self.0[i as int] < other.0[i as int]);
                return core::cmp::Ordering::Less;
            }
            if self.0[i] > other.0[i] {
                assert(other.0[i as int] < self.0[i as int]);
                return core::cmp::Ordering::Greater;
            }
            i = i + 1;
        }
        assert(self.0 =~= other.0);
        core::cmp::Ordering::Equal
    }

    /// Whether two names hold the same bytes.
    pub fn same(&self, other: &Name) -> (r: bool)
        ensures
            r == (*self == *other),
    {
        let mut i: usize = 0;
        while i < 64
            invariant
                i <= 64,
                forall|j: int| 0 <= j < i ==> self.0[j] == other.0[j],
            decreases 64 - i,
        {
            if self.0[i] != other.0[i] {
                return false;
            }
            i = i + 1;
        }
        assert(self.0 =~= other.0);
        true
    }
}

impl PublicKey {
    /// Whether two keys hold the same bytes.
    pub fn same(&self, other: &PublicKey) -> (r: bool)
        ensures
            r == (*self == *other),
    {
        let mut i: usize = 0;
        while i < 32
            invariant
                i <= 32,
                forall|j: int| 0 <= j < i ==> self.0[j] == other.0[j],
            decreases 32 - i,
        {
            if self.0[i] != other.0[i] {
                return false;
            }
            i = i + 1;
        }
        assert(self.0 =~= other.0);
        true
    }
}

} // verus!
