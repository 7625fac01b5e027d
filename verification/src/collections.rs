//! Finite sets and maps kept as vectors without repeated keys, the storage
//! of the contract state.
//!
//! On the chain the state lives in `concordium_std::StateMap` and
//! `StateSet`, which are handles into the host's key-value store: they are
//! made only through the `StateBuilder` of a running contract instance and
//! every read or write is a call to the host. The library holds the same
//! contents as plain values here; `app/` writes them to and reads them from
//! the chain.

use vstd::prelude::*;
use crate::address::KeyEq;

verus! {

/// `s` lists the members of `set`, each exactly once.
pub open spec fn lists_exactly<K: View>(s: Seq<K>, set: Set<K::V>) -> bool {
    &&& forall|i: int| 0 <= i < s.len() ==> set.contains(#[trigger] s[i]@)
    &&& forall|k: K::V| set.contains(k) ==> exists|i: int| 0 <= i < s.len() && #[trigger] s[i]@ == k
    &&& forall|i: int, j: int| 0 <= i < j < s.len() ==> s[i]@ != s[j]@
}

/// The first components of the pairs in `s`.
pub open spec fn keys_of<K, W>(s: Seq<(K, W)>) -> Seq<K> {
    s.map_values(|e: (K, W)| e.0)
}

/// The keys of the pairs in `s` are the members of `dom`, each listed once.
pub open spec fn lists_keys_exactly<K: View, W>(s: Seq<(K, W)>, dom: Set<K::V>) -> bool {
    lists_exactly(keys_of(s), dom)
}

/// The views of the members of `s`.
pub open spec fn views_of<K: View>(s: Seq<K>) -> Set<K::V> {
    Set::new(|k: K::V| exists|i: int| 0 <= i < s.len() && #[trigger] s[i]@ == k)
}

/// A finite set whose members are kept in a vector, each once.
pub struct ListSet<K> {
    pub items: Vec<K>,
}

impl<K: KeyEq> View for ListSet<K> {
    type V = Set<K::V>;

    open spec fn view(&self) -> Set<K::V> {
        Set::new(|k: K::V| exists|i: int| 0 <= i < self.items@.len() && #[trigger] self.items@[i]@ == k)
    }
}

impl<K: KeyEq> ListSet<K> {
    /// No member is listed twice.
    pub open spec fn wf(&self) -> bool {
        forall|i: int, j: int| 0 <= i < j < self.items@.len() ==> self.items@[i]@ != self.items@[j]@
    }

    pub fn new() -> (r: Self)
        ensures
            r.wf(),
            r@ == Set::<K::V>::empty(),
            r.items@.len() == 0,
    {
        let r = ListSet { items: Vec::new() };
        assert(r@ =~= Set::<K::V>::empty());
        r
    }

    fn find(&self, k: &K) -> (r: Option<usize>)
        ensures
            match r {
                Some(i) => i < self.items@.len() && self.items@[i as int]@ == k@,
                None => forall|i: int| 0 <= i < self.items@.len() ==> self.items@[i]@ != k@,
            },
    {
        let mut i: usize = 0;
        while i < self.items.len()
            invariant
                0 <= i <= self.items@.len(),
                forall|j: int| 0 <= j < i ==> self.items@[j]@ != k@,
            decreases self.items@.len() - i,
        {
            if self.items[i].key_eq(k) {
                return Some(i);
            }
            i = i + 1;
        }
        None
    }

    pub fn contains(&self, k: &K) -> (r: bool)
        ensures
            r == self@.contains(k@),
    {
        match self.find(k) {
            Some(i) => {
                assert(self.items@[i as int]@ == k@);
                true
            },
            None => false,
        }
    }

    /// Adds `k`; answers whether it was not yet a member.
    pub fn insert(&mut self, k: K) -> (r: bool)
        requires
            old(self).wf(),
        ensures
            final(self).wf(),
            r == !old(self)@.contains(k@),
            final(self)@ == old(self)@.insert(k@),
    {
        match self.find(&k) {
            Some(i) => {
                assert(self.items@[i as int]@ == k@);
                assert(self@ =~= old(self)@.insert(k@));
                false
            },
            None => {
                let ghost kv = k@;
                self.items.push(k);
                assert(self.items@[self.items@.len() - 1]@ == kv);
                assert forall|x: K::V| #[trigger] self@.contains(x) == old(self)@.insert(kv).contains(x) by {
                    if old(self)@.contains(x) {
                        let i = choose|i: int| 0 <= i < old(self).items@.len() && #[trigger] old(self).items@[i]@ == x;
                        assert(self.items@[i] == old(self).items@[i]);
                    }
                    if self@.contains(x) {
                        let i = choose|i: int| 0 <= i < self.items@.len() && #[trigger] self.items@[i]@ == x;
                        if i < old(self).items@.len() {
                            assert(old(self).items@[i] == self.items@[i]);
                        }
                    }
                }
                assert(self@ =~= old(self)@.insert(kv));
                true
            },
        }
    }

    /// Removes `k`; answers whether it was a member.
    pub fn remove(&mut self, k: &K) -> (r: bool)
        requires
            old(self).wf(),
        ensures
            final(self).wf(),
            r == old(self)@.contains(k@),
            final(self)@ == old(self)@.remove(k@),
    {
        match self.find(k) {
            Some(i) => {
                let ghost old_items = self.items@;
                let _ = self.items.remove(i);
                assert forall|x: K::V| #[trigger] self@.contains(x) == old(self)@.remove(k@).contains(x) by {
                    if self@.contains(x) {
                        let j = choose|j: int| 0 <= j < self.items@.len() && #[trigger] self.items@[j]@ == x;
                        if j < i {
                            assert(old_items[j] == self.items@[j]);
                        } else {
                            assert(old_items[j + 1] == self.items@[j]);
                        }
                    }
                    if old(self)@.remove(k@).contains(x) {
                        let j = choose|j: int| 0 <= j < old_items.len() && #[trigger] old_items[j]@ == x;
                        if j < i {
                            assert(self.items@[j] == old_items[j]);
                        } else {
                            assert(j != i);
                            assert(self.items@[j - 1] == old_items[j]);
                        }
                    }
                }
                assert(self@ =~= old(self)@.remove(k@));
                true
            },
            None => {
                assert(self@ =~= old(self)@.remove(k@));
                false
            },
        }
    }

    /// The set of the members of `v`.
    pub fn from_vec(v: &Vec<K>) -> (r: Self)
        ensures
            r.wf(),
            r@ == views_of(v@),
    {
        let mut r = ListSet::new();
        let mut i: usize = 0;
        while i < v.len()
            invariant
                0 <= i <= v@.len(),
                r.wf(),
                r@ == views_of(v@.take(i as int)),
            decreases v@.len() - i,
        {
            r.insert(v[i].key_clone());
            proof {
                let a = v@.take(i as int);
                let b = v@.take(i + 1);
                assert forall|x: K::V| #[trigger] views_of(b).contains(x) == views_of(a).insert(v@[i as int]@).contains(x) by {
                    if views_of(a).contains(x) {
                        let j = choose|j: int| 0 <= j < a.len() && #[trigger] a[j]@ == x;
                        assert(b[j] == a[j]);
                    }
                    if views_of(b).contains(x) {
                        let j = choose|j: int| 0 <= j < b.len() && #[trigger] b[j]@ == x;
                        if j < i {
                            assert(a[j] == b[j]);
                        }
                    }
                    if x == v@[i as int]@ {
                        assert(b[i as int]@ == x);
                    }
                }
                assert(views_of(b) =~= views_of(a).insert(v@[i as int]@));
            }
            i = i + 1;
        }
        assert(v@.take(v@.len() as int) =~= v@);
        r
    }

    /// The members, each once, in storage order.
    pub fn to_vec(&self) -> (r: Vec<K>)
        requires
            self.wf(),
        ensures
            lists_exactly(r@, self@),
    {
        let mut r: Vec<K> = Vec::new();
        let mut i: usize = 0;
        while i < self.items.len()
            invariant
                self.wf(),
                0 <= i <= self.items@.len(),
                r@.len() == i,
                forall|j: int| 0 <= j < i ==> #[trigger] r@[j]@ == self.items@[j]@,
            decreases self.items@.len() - i,
        {
            r.push(self.items[i].key_clone());
            i = i + 1;
        }
        assert forall|k: K::V| self@.contains(k) implies exists|j: int| 0 <= j < r@.len() && #[trigger] r@[j]@ == k by {
            let j = choose|j: int| 0 <= j < self.items@.len() && #[trigger] self.items@[j]@ == k;
            assert(r@[j]@ == k);
        }
        assert forall|j: int| 0 <= j < r@.len() implies self@.contains(#[trigger] r@[j]@) by {
            assert(self.items@[j]@ == r@[j]@);
        }
        r
    }
}


/// A finite map whose entries are kept in a vector, each key once.
pub struct ListMap<K, V> {
    pub entries: Vec<(K, V)>,
}

impl<K: KeyEq, V: View> View for ListMap<K, V> {
    type V = Map<K::V, V::V>;

    open spec fn view(&self) -> Map<K::V, V::V> {
        Map::new(
            |k: K::V| exists|i: int| 0 <= i < self.entries@.len() && #[trigger] self.entries@[i].0@ == k,
            |k: K::V|
                self.entries@[choose|i: int| 0 <= i < self.entries@.len() && #[trigger] self.entries@[i].0@ == k].1@,
        )
    }
}

impl<K: KeyEq, V: View> ListMap<K, V> {
    /// No key is listed twice.
    pub open spec fn wf(&self) -> bool {
        forall|i: int, j: int|
            0 <= i < j < self.entries@.len() ==> self.entries@[i].0@ != self.entries@[j].0@
    }

    /// `e` is one of the stored entries.
    pub open spec fn stored(&self, e: (K, V)) -> bool {
        exists|m: int| 0 <= m < self.entries@.len() && self.entries@[m] == e
    }

    /// The entry stored at `i` is what the map holds for its key.
    pub proof fn lemma_entry(&self, i: int)
        requires
            self.wf(),
            0 <= i < self.entries@.len(),
        ensures
            self@.contains_key(self.entries@[i].0@),
            self@[self.entries@[i].0@] == self.entries@[i].1@,
    {
        let k = self.entries@[i].0@;
        assert(self.entries@[i].0@ == k);
        let j = choose|j: int| 0 <= j < self.entries@.len() && #[trigger] self.entries@[j].0@ == k;
        if j != i {
            if j < i {
                assert(self.entries@[j].0@ != self.entries@[i].0@);
            } else {
                assert(self.entries@[i].0@ != self.entries@[j].0@);
            }
        }
    }

    /// Every key of the map is stored at some index.
    pub proof fn lemma_key_stored(&self, k: K::V)
        requires
            self@.contains_key(k),
        ensures
            exists|i: int| 0 <= i < self.entries@.len() && #[trigger] self.entries@[i].0@ == k,
    {
    }

    pub fn new() -> (r: Self)
        ensures
            r.wf(),
            r@ == Map::<K::V, V::V>::empty(),
            r.entries@.len() == 0,
    {
        let r = ListMap { entries: Vec::new() };
        assert(r@ =~= Map::<K::V, V::V>::empty());
        r
    }

    fn find(&self, k: &K) -> (r: Option<usize>)
        ensures
            match r {
                Some(i) => i < self.entries@.len() && self.entries@[i as int].0@ == k@,
                None => forall|i: int| 0 <= i < self.entries@.len() ==> self.entries@[i].0@ != k@,
            },
    {
        let mut i: usize = 0;
        while i < self.entries.len()
            invariant
                0 <= i <= self.entries@.len(),
                forall|j: int| 0 <= j < i ==> self.entries@[j].0@ != k@,
            decreases self.entries@.len() - i,
        {
            if self.entries[i].0.key_eq(k) {
                return Some(i);
            }
            i = i + 1;
        }
        None
    }

    pub fn contains_key(&self, k: &K) -> (r: bool)
        ensures
            r == self@.contains_key(k@),
    {
        match self.find(k) {
            Some(i) => {
                assert(self.entries@[i as int].0@ == k@);
                true
            },
            None => false,
        }
    }

    pub fn get(&self, k: &K) -> (r: Option<&V>)
        requires
            self.wf(),
        ensures
            match r {
                Some(v) => self@.contains_key(k@) && v@ == self@[k@] && exists|m: int|
                    0 <= m < self.entries@.len() && self.entries@[m].1 == *v,
                None => !self@.contains_key(k@),
            },
    {
        match self.find(k) {
            Some(i) => {
                proof {
                    self.lemma_entry(i as int);
                }
                assert(self.entries@[i as int].1 == self.entries@[i as int].1);
                Some(&self.entries[i].1)
            },
            None => None,
        }
    }

    /// Adds an entry for a key that the map does not hold.
    fn push_new(&mut self, k: K, v: V)
        requires
            old(self).wf(),
            !old(self)@.contains_key(k@),
        ensures
            final(self).wf(),
            final(self)@ == old(self)@.insert(k@, v@),
            final(self).entries@ == old(self).entries@.push((k, v)),
    {
        let ghost kv = k@;
        let ghost vv = v@;
        self.entries.push((k, v));
        let ghost n = old(self).entries@.len() as int;
        assert(self.entries@[n].0@ == kv);
        assert(forall|i: int| 0 <= i < n ==> old(self).entries@[i] == self.entries@[i]);
        assert forall|i: int, j: int| 0 <= i < j < self.entries@.len() implies self.entries@[i].0@
            != self.entries@[j].0@ by {
            if j == n {
                assert(old(self).entries@[i].0@ == self.entries@[i].0@);
            }
        }
        let ghost target = old(self)@.insert(kv, vv);
        assert forall|x: K::V| #[trigger] self@.contains_key(x) == target.contains_key(x) by {
            if old(self)@.contains_key(x) {
                let i = choose|i: int| 0 <= i < n && #[trigger] old(self).entries@[i].0@ == x;
                assert(self.entries@[i].0@ == x);
            }
            if self@.contains_key(x) {
                let i = choose|i: int| 0 <= i < self.entries@.len() && #[trigger] self.entries@[i].0@ == x;
                if i < n {
                    assert(old(self).entries@[i].0@ == x);
                }
            }
        }
        assert forall|x: K::V| #[trigger] self@.contains_key(x) implies self@[x] == target[x] by {
            if x == kv {
                self.lemma_entry(n);
            } else {
                let i = choose|i: int| 0 <= i < self.entries@.len() && #[trigger] self.entries@[i].0@ == x;
                assert(i < n);
                self.lemma_entry(i);
                old(self).lemma_entry(i);
            }
        }
        assert(self@ =~= target);
    }

    /// Removes the entry of `k`, handing back its value if there was one.
    pub fn remove(&mut self, k: &K) -> (r: Option<V>)
        requires
            old(self).wf(),
        ensures
            final(self).wf(),
            final(self)@ == old(self)@.remove(k@),
            forall|j: int| 0 <= j < final(self).entries@.len() ==> old(self).stored(#[trigger] final(self).entries@[j]),
            match r {
                Some(v) => old(self)@.contains_key(k@) && v@ == old(self)@[k@] && exists|m: int|
                    0 <= m < old(self).entries@.len() && old(self).entries@[m].1 == v,
                None => !old(self)@.contains_key(k@),
            },
    {
        match self.find(k) {
            Some(i) => {
                proof {
                    self.lemma_entry(i as int);
                }
                let ghost old_entries = self.entries@;
                let entry = self.entries.remove(i);
                let ghost n = self.entries@.len() as int;
                assert(forall|j: int| 0 <= j < i ==> self.entries@[j] == old_entries[j]);
                assert(forall|j: int| i <= j < n ==> self.entries@[j] == old_entries[j + 1]);
                assert forall|a: int, b: int| 0 <= a < b < n implies self.entries@[a].0@
                    != self.entries@[b].0@ by {
                    let oa = if a < i { a } else { a + 1 };
                    let ob = if b < i { b } else { b + 1 };
                    assert(old_entries[oa].0@ != old_entries[ob].0@);
                }
                let ghost target = old(self)@.remove(k@);
                assert forall|x: K::V| #[trigger] self@.contains_key(x) == target.contains_key(x) by {
                    if self@.contains_key(x) {
                        let j = choose|j: int| 0 <= j < n && #[trigger] self.entries@[j].0@ == x;
                        let oj = if j < i { j } else { j + 1 };
                        assert(old_entries[oj].0@ == x);
                        assert(old_entries[i as int].0@ != old_entries[oj].0@);
                    }
                    if target.contains_key(x) {
                        let j = choose|j: int| 0 <= j < old_entries.len() && #[trigger] old_entries[j].0@ == x;
                        if j < i {
                            assert(self.entries@[j].0@ == x);
                        } else {
                            assert(j != i);
                            assert(self.entries@[j - 1].0@ == x);
                        }
                    }
                }
                assert forall|x: K::V| #[trigger] self@.contains_key(x) implies self@[x] == target[x] by {
                    let j = choose|j: int| 0 <= j < n && #[trigger] self.entries@[j].0@ == x;
                    let oj = if j < i { j } else { j + 1 };
                    self.lemma_entry(j);
                    old(self).lemma_entry(oj);
                }
                assert(self@ =~= target);
                assert forall|j: int| 0 <= j < n implies old(self).stored(#[trigger] self.entries@[j]) by {
                    if j < i {
                        assert(old_entries[j] == self.entries@[j]);
                    } else {
                        assert(old_entries[j + 1] == self.entries@[j]);
                    }
                }
                assert(old_entries[i as int] == entry);
                Some(entry.1)
            },
            None => {
                assert(self@ =~= old(self)@.remove(k@));
                assert forall|j: int| 0 <= j < self.entries@.len() implies old(self).stored(#[trigger] self.entries@[j]) by {
                    assert(old(self).entries@[j] == self.entries@[j]);
                }
                None
            },
        }
    }

    /// Sets the value of `k`, replacing any earlier one.
    pub fn insert(&mut self, k: K, v: V)
        requires
            old(self).wf(),
        ensures
            final(self).wf(),
            final(self)@ == old(self)@.insert(k@, v@),
            forall|j: int| 0 <= j < final(self).entries@.len() ==> #[trigger] final(self).entries@[j] == (k, v)
                || old(self).stored(final(self).entries@[j]),
    {
        let _ = self.remove(&k);
        let ghost mid = *self;
        self.push_new(k, v);
        assert(self@ =~= old(self)@.insert(k@, v@));
        assert forall|j: int| 0 <= j < self.entries@.len() implies #[trigger] self.entries@[j] == (k, v)
            || old(self).stored(self.entries@[j]) by {
            if j < mid.entries@.len() {
                assert(self.entries@[j] == mid.entries@[j]);
                assert(old(self).stored(mid.entries@[j]));
            }
        }
    }
}

} // verus!
