//! A small association list keyed by text, the shape in which the game keeps
//! records keyed by a symbol or an address.

use vstd::prelude::*;

verus! {

/// One key and its value.
#[derive(Clone, Debug)]
pub struct TextEntry<V> {
    pub key: String,
    pub value: V,
}

/// Records keyed by text; each key appears at most once.
#[derive(Clone, Debug)]
pub struct TextMap<V> {
    pub entries: Vec<TextEntry<V>>,
}

impl<V> TextMap<V> {
    /// No key appears twice.
    pub open spec fn wf(&self) -> bool {
        forall|i: int, j: int|
            0 <= i < j < self.entries@.len() ==> #[trigger] self.entries@[i].key@
                != #[trigger] self.entries@[j].key@
    }

    /// Whether `k` has an entry.
    pub open spec fn has_key(&self, k: Seq<char>) -> bool {
        exists|i: int| 0 <= i < self.entries@.len() && #[trigger] self.entries@[i].key@ == k
    }

    /// Index of the entry of `k`.
    pub open spec fn index_of(&self, k: Seq<char>) -> int {
        choose|i: int| 0 <= i < self.entries@.len() && #[trigger] self.entries@[i].key@ == k
    }

    /// The value of each key.
    pub open spec fn as_map(&self) -> Map<Seq<char>, V> {
        Map::new(|k: Seq<char>| self.has_key(k), |k: Seq<char>| self.entries@[self.index_of(k)].value)
    }

    /// An empty map.
    pub fn new() -> (r: Self)
        ensures
            r.wf(),
            r.as_map() == Map::<Seq<char>, V>::empty(),
    {
        let r = TextMap { entries: Vec::new() };
        assert(r.as_map() =~= Map::<Seq<char>, V>::empty());
        r
    }

    /// Check that no key appears twice.
    pub fn is_well_formed(&self) -> (r: bool)
        ensures
            r == self.wf(),
    {
        let n = self.entries.len();
        let mut i: usize = 0;
        while i < n
            invariant
                n == self.entries@.len(),
                i <= n,
                forall|a: int, b: int|
                    0 <= a < b < n && a < i ==> #[trigger] self.entries@[a].key@
                        != #[trigger] self.entries@[b].key@,
            decreases n - i,
        {
            let mut j: usize = i + 1;
            while j < n
                invariant
                    n == self.entries@.len(),
                    i < n,
                    i + 1 <= j <= n,
                    forall|a: int, b: int|
                        0 <= a < b < n && a < i ==> #[trigger] self.entries@[a].key@
                            != #[trigger] self.entries@[b].key@,
                    forall|b: int| i < b < j ==> self.entries@[i as int].key@ != #[trigger] self.entries@[b].key@,
                decreases n - j,
            {
                if self.entries[i].key == self.entries[j].key {
                    return false;
                }
                j = j + 1;
            }
            i = i + 1;
        }
        true
    }

    /// Position of the entry of `key`.
    pub fn find(&self, key: &String) -> (r: Option<usize>)
        requires
            self.wf(),
        ensures
            match r {
                Some(i) => i < self.entries@.len() && self.entries@[i as int].key@ == key@
                    && self.has_key(key@) && self.index_of(key@) == i,
                None => !self.has_key(key@),
            },
    {
        let mut i: usize = 0;
        while i < self.entries.len()
            invariant
                self.wf(),
                i <= self.entries@.len(),
                forall|j: int| 0 <= j < i ==> #[trigger] self.entries@[j].key@ != key@,
            decreases self.entries@.len() - i,
        {
            if self.entries[i].key == *key {
                proof {
                    assert(self.has_key(key@));
                    let k = self.index_of(key@);
                    if k != i {
                        if k < i {
                            assert(self.entries@[k].key@ != self.entries@[i as int].key@);
                        } else {
                            assert(self.entries@[i as int].key@ != self.entries@[k].key@);
                        }
                    }
                }
                return Some(i);
            }
            i = i + 1;
        }
        None
    }

    /// The value of `key`, if any.
    pub fn get(&self, key: &String) -> (r: Option<&V>)
        requires
            self.wf(),
        ensures
            match r {
                Some(v) => self.as_map().contains_key(key@) && self.as_map()[key@] == *v,
                None => !self.as_map().contains_key(key@),
            },
    {
        match self.find(key) {
            Some(i) => Some(&self.entries[i].value),
            None => None,
        }
    }

    /// Set the value of `key`, adding the key if it is new.
    pub fn insert(&mut self, key: String, value: V)
        requires
            old(self).wf(),
        ensures
            final(self).wf(),
            final(self).as_map() == old(self).as_map().insert(key@, value),
    {
        let ghost before = *self;
        let ghost k0 = key@;
        match self.find(&key) {
            Some(i) => {
                self.entries.set(i, TextEntry { key, value });
                proof {
                    assert forall|k: Seq<char>| #[trigger] self.has_key(k) == before.has_key(k) by {
                        if before.has_key(k) {
                            let j = before.index_of(k);
                            if j == i { assert(self.entries@[i as int].key@ == k); }
                            else { assert(self.entries@[j].key@ == k); }
                        }
                        if self.has_key(k) {
                            let j = self.index_of(k);
                            if j == i { assert(before.entries@[i as int].key@ == k); }
                            else { assert(before.entries@[j].key@ == k); }
                        }
                    }
                    assert forall|a: int, b: int| 0 <= a < b < self.entries@.len() implies
                        #[trigger] self.entries@[a].key@ != #[trigger] self.entries@[b].key@ by {
                        assert(before.entries@[a].key@ != before.entries@[b].key@);
                    }
                    assert forall|k: Seq<char>| self.has_key(k) implies
                        self.entries@[self.index_of(k)].value == before.as_map().insert(k0, value)[k] by {
                        let j = self.index_of(k);
                        if k == k0 {
                            if j != i {
                                if j < i as int {
                                    assert(self.entries@[j].key@ != self.entries@[i as int].key@);
                                } else {
                                    assert(self.entries@[i as int].key@ != self.entries@[j].key@);
                                }
                            }
                        } else {
                            let j0 = before.index_of(k);
                            assert(before.entries@[j0].key@ == k);
                            if j != j0 {
                                if j < j0 {
                                    assert(self.entries@[j].key@ != self.entries@[j0].key@);
                                } else {
                                    assert(self.entries@[j0].key@ != self.entries@[j].key@);
                                }
                            }
                        }
                    }
                    assert(self.as_map() =~= before.as_map().insert(k0, value));
                }
            },
            None => {
                self.entries.push(TextEntry { key, value });
                proof {
                    let n = before.entries@.len() as int;
                    assert forall|a: int, b: int| 0 <= a < b < self.entries@.len() implies
                        #[trigger] self.entries@[a].key@ != #[trigger] self.entries@[b].key@ by {
                        if b == n {
                            assert(before.entries@[a].key@ != k0);
                        } else {
                            assert(before.entries@[a].key@ != before.entries@[b].key@);
                        }
                    }
                    assert forall|k: Seq<char>| #[trigger] self.has_key(k) == (before.has_key(k) || k == k0) by {
                        if before.has_key(k) {
                            let j = before.index_of(k);
                            assert(self.entries@[j].key@ == k);
                        }
                        if k == k0 {
                            assert(self.entries@[n].key@ == k);
                        }
                        if self.has_key(k) {
                            let j = self.index_of(k);
                            if j < n { assert(before.entries@[j].key@ == k); }
                        }
                    }
                    assert forall|k: Seq<char>| self.has_key(k) implies
                        self.entries@[self.index_of(k)].value == before.as_map().insert(k0, value)[k] by {
                        let j = self.index_of(k);
                        if k == k0 {
                            if j < n { assert(before.entries@[j].key@ == k0); }
                        } else {
                            let j0 = before.index_of(k);
                            assert(before.entries@[j0].key@ == k);
                            assert(self.entries@[j0].key@ == k);
                            if j != j0 {
                                if j < j0 {
                                    assert(self.entries@[j].key@ != self.entries@[j0].key@);
                                } else {
                                    assert(self.entries@[j0].key@ != self.entries@[j].key@);
                                }
                            }
                        }
                    }
                    assert(self.as_map() =~= before.as_map().insert(k0, value));
                }
            },
        }
    }
}

} // verus!
