//! Keyed record storage shared by the contract state machines.
//!
//! Every contract keeps its persistent entries in a [`Table`]: a pair of
//! parallel vectors whose abstract view is a finite `Map`. Keys are compared
//! with [`TableKey::same`], whose contract is plain structural equality, so
//! the map view is exactly what a key/value store would hold.
use vstd::prelude::*;

verus! {

/// A 32-byte value: a commitment, a program or award identifier, or the
/// library's stand-in for an on-ledger account address.
pub type Bytes32 = [u8; 32];

/// A key type whose runtime equality is structural equality.
pub trait TableKey: Sized {
    fn same(&self, other: &Self) -> (r: bool)
        ensures
            r == (*self == *other),
    ;
}

impl TableKey for u64 {
    fn same(&self, other: &Self) -> (r: bool) {
        *self == *other
    }
}

impl TableKey for u32 {
    fn same(&self, other: &Self) -> (r: bool) {
        *self == *other
    }
}

impl TableKey for [u8; 32] {
    fn same(&self, other: &Self) -> (r: bool) {
        bytes32_eq(self, other)
    }
}

impl<A: TableKey, B: TableKey> TableKey for (A, B) {
    fn same(&self, other: &Self) -> (r: bool) {
        self.0.same(&other.0) && self.1.same(&other.1)
    }
}

impl<A: TableKey, B: TableKey, C: TableKey> TableKey for (A, B, C) {
    fn same(&self, other: &Self) -> (r: bool) {
        self.0.same(&other.0) && self.1.same(&other.1) && self.2.same(&other.2)
    }
}

/// Byte-wise equality of two 32-byte values.
pub fn bytes32_eq(a: &[u8; 32], b: &[u8; 32]) -> (r: bool)
    ensures
        r == (*a == *b),
{
    broadcast use vstd::array::group_array_axioms;

    let mut i: usize = 0;
    while i < 32
        invariant
            0 <= i <= 32,
            forall|j: int| 0 <= j < i ==> a[j] == b[j],
        decreases 32 - i,
    {
        if a[i] != b[i] {
            return false;
        }
        i = i + 1;
    }
    assert(*a =~= *b);
    true
}

/// True when every byte is zero: the value an unset slot reads as.
pub open spec fn is_zero32(a: [u8; 32]) -> bool {
    forall|j: int| 0 <= j < 32 ==> a@[j] == 0
}

/// The all-zero value.
pub open spec fn zero32() -> Bytes32 {
    choose|a: Bytes32| is_zero32(a)
}

/// Builds the all-zero value.
pub fn new_zero32() -> (z: Bytes32)
    ensures
        z == zero32(),
        is_zero32(z),
{
    broadcast use vstd::array::group_array_axioms;

    let z: Bytes32 = [0u8; 32];
    proof {
        assert(is_zero32(z));
        let c = zero32();
        assert(is_zero32(c));
        assert(c =~= z);
    }
    z
}

/// Whether a 32-byte value is all zeroes.
pub fn bytes32_is_zero(a: &[u8; 32]) -> (r: bool)
    ensures
        r == is_zero32(*a),
{
    let mut i: usize = 0;
    while i < 32
        invariant
            0 <= i <= 32,
            forall|j: int| 0 <= j < i ==> a@[j] == 0,
        decreases 32 - i,
    {
        if a[i] != 0 {
            return false;
        }
        i = i + 1;
    }
    true
}

/// A finite key/value store.
pub struct Table<K, V> {
    keys: Vec<K>,
    vals: Vec<V>,
}

/// The position of `k` in `keys`, when it occurs there.
pub open spec fn index_of<K>(keys: Seq<K>, k: K) -> int {
    choose|i: int| 0 <= i < keys.len() && keys[i] == k
}

impl<K: TableKey, V> Table<K, V> {
    /// Parallel vectors of equal length, with no key stored twice.
    pub closed spec fn wf(&self) -> bool {
        &&& self.keys@.len() == self.vals@.len()
        &&& self.keys@.no_duplicates()
    }

    /// The abstract contents: each stored key mapped to its value.
    pub closed spec fn view(&self) -> Map<K, V> {
        Map::new(
            |k: K| self.keys@.contains(k),
            |k: K| self.vals@[index_of(self.keys@, k)],
        )
    }

    pub fn new() -> (t: Self)
        ensures
            t.wf(),
            t.view() == Map::<K, V>::empty(),
    {
        let t = Table { keys: Vec::new(), vals: Vec::new() };
        assert(t.view() =~= Map::<K, V>::empty());
        t
    }

    /// Number of stored entries.
    pub fn len(&self) -> (n: usize)
        requires
            self.wf(),
        ensures
            n == self.view().dom().len(),
    {
        proof {
            self.lemma_dom_len();
        }
        self.keys.len()
    }

    /// A well-formed table holds finitely many entries.
    pub proof fn lemma_view_finite(&self)
        requires
            self.wf(),
        ensures
            self.view().dom().finite(),
    {
        self.lemma_dom_len();
    }

    proof fn lemma_dom_len(&self)
        requires
            self.wf(),
        ensures
            self.view().dom().finite(),
            self.view().dom().len() == self.keys@.len(),
    {
        self.keys@.unique_seq_to_set();
        assert(self.view().dom() =~= self.keys@.to_set());
    }

    fn find(&self, k: &K) -> (r: Option<usize>)
        requires
            self.wf(),
        ensures
            r is None ==> !self.keys@.contains(*k),
            r matches Some(i) ==> i < self.keys@.len() && self.keys@[i as int] == *k
                && index_of(self.keys@, *k) == i,
    {
        let mut i: usize = 0;
        while i < self.keys.len()
            invariant
                self.wf(),
                0 <= i <= self.keys@.len(),
                forall|j: int| 0 <= j < i ==> self.keys@[j] != *k,
            decreases self.keys@.len() - i,
        {
            if self.keys[i].same(k) {
                proof {
                    let c = index_of(self.keys@, *k);
                    assert(0 <= i < self.keys@.len() && self.keys@[i as int] == *k);
                    assert(0 <= c < self.keys@.len() && self.keys@[c] == *k);
                }
                return Some(i);
            }
            i = i + 1;
        }
        None
    }

    pub fn contains_key(&self, k: &K) -> (r: bool)
        requires
            self.wf(),
        ensures
            r == self.view().dom().contains(*k),
    {
        self.find(k).is_some()
    }

    pub fn get(&self, k: &K) -> (r: Option<&V>)
        requires
            self.wf(),
        ensures
            r is None ==> !self.view().dom().contains(*k),
            r matches Some(v) ==> self.view().dom().contains(*k) && *v == self.view()[*k],
    {
        match self.find(k) {
            Some(i) => Some(&self.vals[i]),
            None => None,
        }
    }

    /// Stores `v` under `k`, replacing any earlier value.
    pub fn insert(&mut self, k: K, v: V)
        requires
            old(self).wf(),
        ensures
            final(self).wf(),
            final(self).view() == old(self).view().insert(k, v),
    {
        let ghost old_keys = self.keys@;
        let ghost old_view = self.view();
        match self.find(&k) {
            Some(i) => {
                self.vals.set(i, v);
                proof {
                    assert(self.keys@ == old_keys);
                    assert forall|x: K| #[trigger] self.keys@.contains(x) implies self.vals@[index_of(
                        self.keys@,
                        x,
                    )] == old_view.insert(k, v)[x] by {
                        let j = index_of(self.keys@, x);
                        assert(0 <= j < self.keys@.len() && self.keys@[j] == x);
                        if x == k {
                            assert(j == i);
                        } else {
                            assert(j != i);
                        }
                    }
                    assert(self.view() =~= old_view.insert(k, v));
                }
            },
            None => {
                self.keys.push(k);
                self.vals.push(v);
                proof {
                    let n = old_keys.len();
                    assert(self.keys@ == old_keys.push(k));
                    assert forall|a: int, b: int|
                        0 <= a < self.keys@.len() && 0 <= b < self.keys@.len() && a != b implies self.keys@[a]
                        != self.keys@[b] by {
                        if a == n {
                            assert(old_keys.contains(self.keys@[b]) || b == n);
                        } else if b == n {
                            assert(old_keys.contains(self.keys@[a]));
                        }
                    }
                    assert forall|x: K| #[trigger] self.keys@.contains(x) implies self.vals@[index_of(
                        self.keys@,
                        x,
                    )] == old_view.insert(k, v)[x] by {
                        let j = index_of(self.keys@, x);
                        assert(0 <= j < self.keys@.len() && self.keys@[j] == x);
                        if x == k {
                            assert(j == n);
                        } else {
                            assert(j < n);
                            assert(old_keys[j] == x);
                            assert(old_keys.contains(x));
                            let oj = index_of(old_keys, x);
                            assert(0 <= oj < n && old_keys[oj] == x);
                            assert(oj == j);
                        }
                    }
                    assert forall|x: K| #[trigger]
                        old_view.insert(k, v).dom().contains(x) implies self.keys@.contains(x) by {
                        if x == k {
                            assert(self.keys@[n as int] == k);
                        } else {
                            assert(old_keys.contains(x));
                            let oj = index_of(old_keys, x);
                            assert(self.keys@[oj] == x);
                        }
                    }
                    assert(self.view() =~= old_view.insert(k, v));
                }
            },
        }
    }

    /// Drops the entry stored under `k`, if there is one.
    pub fn remove(&mut self, k: &K)
        requires
            old(self).wf(),
        ensures
            final(self).wf(),
            final(self).view() == old(self).view().remove(*k),
    {
        let ghost old_keys = self.keys@;
        let ghost old_vals = self.vals@;
        let ghost old_view = self.view();
        match self.find(k) {
            Some(i) => {
                self.keys.remove(i);
                self.vals.remove(i);
                proof {
                    let n = old_keys.len();
                    assert(self.keys@ == old_keys.remove(i as int));
                    assert forall|a: int, b: int|
                        0 <= a < self.keys@.len() && 0 <= b < self.keys@.len() && a != b implies self.keys@[a]
                        != self.keys@[b] by {
                        let oa = if a < i { a } else { a + 1 };
                        let ob = if b < i { b } else { b + 1 };
                        assert(self.keys@[a] == old_keys[oa]);
                        assert(self.keys@[b] == old_keys[ob]);
                    }
                    assert forall|x: K| #[trigger]
                        self.keys@.contains(x) <==> old_view.remove(*k).dom().contains(x) by {
                        if self.keys@.contains(x) {
                            let a = choose|a: int| 0 <= a < self.keys@.len() && self.keys@[a] == x;
                            let oa = if a < i { a } else { a + 1 };
                            assert(old_keys[oa] == x);
                            assert(oa != i);
                        }
                        if old_view.remove(*k).dom().contains(x) {
                            let oj = index_of(old_keys, x);
                            assert(0 <= oj < n && old_keys[oj] == x);
                            assert(oj != i);
                            let a = if oj < i { oj } else { oj - 1 };
                            assert(self.keys@[a] == x);
                        }
                    }
                    assert forall|x: K| #[trigger] self.keys@.contains(x) implies self.vals@[index_of(
                        self.keys@,
                        x,
                    )] == old_view[x] by {
                        let a = index_of(self.keys@, x);
                        assert(0 <= a < self.keys@.len() && self.keys@[a] == x);
                        let oa = if a < i { a } else { a + 1 };
                        assert(old_keys[oa] == x);
                        let oj = index_of(old_keys, x);
                        assert(0 <= oj < n && old_keys[oj] == x);
                        assert(oj == oa);
                        assert(self.vals@[a] == old_vals[oa]);
                    }
                    assert(self.view() =~= old_view.remove(*k));
                }
            },
            None => {
                assert(self.view() =~= old_view.remove(*k));
            },
        }
    }
}

} // verus!
