//! A table of per-address records, the shape of every keyed persistent entry
//! the contracts store (profiles, wallet bindings, payer intent indexes).

use crate::common::Address;
use vstd::prelude::*;

verus! {

/// Records keyed by address, viewed as a finite map from address to record.
pub struct AddressTable<V: View> {
    keys: Vec<Address>,
    vals: Vec<V>,
    contents: Ghost<Map<Address, V::V>>,
}

impl<V: View> AddressTable<V> {
    /// The records the table holds.
    pub closed spec fn view(&self) -> Map<Address, V::V> {
        self.contents@
    }

    /// The keys are distinct and the two columns agree with the map.
    pub closed spec fn wf(&self) -> bool {
        &&& self.keys@.len() == self.vals@.len()
        &&& forall|i: int, j: int|
            0 <= i < j < self.keys@.len() ==> self.keys@[i] != self.keys@[j]
        &&& forall|i: int|
            0 <= i < self.keys@.len() ==> #[trigger] self.contents@.contains_key(self.keys@[i])
                && self.contents@[self.keys@[i]] == self.vals@[i]@
        &&& forall|a: Address|
            #[trigger] self.contents@.contains_key(a) ==> self.keys@.contains(a)
    }

    /// An empty table.
    pub fn new() -> (t: Self)
        ensures
            t.wf(),
            t.view() == Map::<Address, V::V>::empty(),
    {
        AddressTable { keys: Vec::new(), vals: Vec::new(), contents: Ghost(Map::empty()) }
    }

    /// The position of `key` in the table, if present.
    fn find(&self, key: Address) -> (r: Option<usize>)
        requires
            self.wf(),
        ensures
            match r {
                Some(i) => i < self.keys@.len() && self.keys@[i as int] == key,
                None => !self.view().contains_key(key),
            },
    {
        let n = self.keys.len();
        for i in 0..n
            invariant
                n == self.keys@.len(),
                forall|j: int| 0 <= j < i ==> self.keys@[j] != key,
        {
            if self.keys[i] == key {
                return Some(i);
            }
        }
        None
    }

    /// Whether a record is stored for `key`.
    pub fn contains(&self, key: Address) -> (r: bool)
        requires
            self.wf(),
        ensures
            r == self.view().contains_key(key),
    {
        match self.find(key) {
            Some(_) => true,
            None => false,
        }
    }

    /// The record stored for `key`, if any.
    pub fn get(&self, key: Address) -> (r: Option<&V>)
        requires
            self.wf(),
        ensures
            match r {
                Some(v) => self.view().contains_key(key) && v@ == self.view()[key],
                None => !self.view().contains_key(key),
            },
    {
        match self.find(key) {
            Some(i) => {
                assert(self.contents@.contains_key(self.keys@[i as int]));
                Some(&self.vals[i])
            },
            None => None,
        }
    }

    /// Store `value` for `key`, replacing any previous record.
    pub fn insert(&mut self, key: Address, value: V)
        requires
            old(self).wf(),
        ensures
            final(self).wf(),
            final(self).view() == old(self).view().insert(key, value@),
    {
        let ghost v = value@;
        match self.find(key) {
            Some(i) => {
                self.vals.set(i, value);
                self.contents = Ghost(self.contents@.insert(key, v));
                assert forall|j: int| 0 <= j < self.keys@.len() implies #[trigger] self.contents@.contains_key(self.keys@[j])
                    && self.contents@[self.keys@[j]] == self.vals@[j]@ by {
                    if j != i {
                        assert(self.keys@[j] != self.keys@[i as int]);
                    }
                }
                assert forall|a: Address| #[trigger] self.contents@.contains_key(a) implies self.keys@.contains(a) by {
                    if a == key {
                        assert(self.keys@[i as int] == key);
                    }
                }
            },
            None => {
                proof {
                    assert forall|j: int| 0 <= j < self.keys@.len() implies self.keys@[j] != key by {
                        assert(self.contents@.contains_key(self.keys@[j]));
                    }
                }
                self.keys.push(key);
                self.vals.push(value);
                self.contents = Ghost(self.contents@.insert(key, v));
                assert forall|j: int| 0 <= j < self.keys@.len() implies #[trigger] self.contents@.contains_key(self.keys@[j])
                    && self.contents@[self.keys@[j]] == self.vals@[j]@ by {
                    if j < self.keys@.len() - 1 {
                        assert(self.keys@[j] == old(self).keys@[j]);
                        assert(old(self).contents@.contains_key(old(self).keys@[j]));
                    }
                }
                assert forall|a: Address| #[trigger] self.contents@.contains_key(a) implies self.keys@.contains(a) by {
                    if a == key {
                        assert(self.keys@[self.keys@.len() - 1] == key);
                    } else {
                        assert(old(self).contents@.contains_key(a));
                        let k = choose|k: int| 0 <= k < old(self).keys@.len() && old(self).keys@[k] == a;
                        assert(self.keys@[k] == a);
                    }
                }
            },
        }
    }

    /// Remove the record stored for `key`, returning it.
    pub fn remove(&mut self, key: Address) -> (r: Option<V>)
        requires
            old(self).wf(),
        ensures
            final(self).wf(),
            final(self).view() == old(self).view().remove(key),
            match r {
                Some(v) => old(self).view().contains_key(key) && v@ == old(self).view()[key],
                None => !old(self).view().contains_key(key),
            },
    {
        match self.find(key) {
            Some(i) => {
                let ghost ok = self.keys@;
                assert(old(self).contents@.contains_key(ok[i as int]));
                assert(old(self).vals@[i as int]@ == old(self).contents@[key]);
                self.keys.remove(i);
                let v = self.vals.remove(i);
                self.contents = Ghost(self.contents@.remove(key));
                assert forall|j: int| 0 <= j < self.keys@.len() implies #[trigger] self.contents@.contains_key(self.keys@[j])
                    && self.contents@[self.keys@[j]] == self.vals@[j]@ by {
                    if j < i {
                        assert(self.keys@[j] == ok[j]);
                        assert(ok[j] != ok[i as int]);
                    } else {
                        assert(self.keys@[j] == ok[j + 1]);
                        assert(ok[j + 1] != ok[i as int]);
                    }
                }
                assert forall|a: Address| #[trigger] self.contents@.contains_key(a) implies self.keys@.contains(a) by {
                    assert(old(self).contents@.contains_key(a));
                    let k = choose|k: int| 0 <= k < ok.len() && ok[k] == a;
                    assert(k != i);
                    if k < i {
                        assert(self.keys@[k] == a);
                    } else {
                        assert(self.keys@[k - 1] == a);
                    }
                }
                Some(v)
            },
            None => {
                assert(self.contents@.remove(key) =~= self.contents@);
                None
            },
        }
    }
    /// A table holding `entries`; where a key occurs more than once, its
    /// last entry wins.
    pub fn from_entries(entries: Vec<(Address, V)>) -> (t: Self)
        ensures
            t.wf(),
            forall|a: Address|
                #[trigger] t.view().contains_key(a) <==> exists|i: int|
                    0 <= i < entries@.len() && (#[trigger] entries@[i]).0 == a,
            forall|i: int|
                0 <= i < entries@.len() && (forall|j: int| i < j < entries@.len() ==> entries@[j].0 != entries@[i].0)
                    ==> t.view()[(#[trigger] entries@[i]).0] == entries@[i].1@,
    {
        let ghost original = entries@;
        let mut t = Self::new();
        let mut rest = entries;
        let n = rest.len();
        let mut k: usize = n;
        while k > 0
            invariant
                t.wf(),
                n == original.len(),
                k <= n,
                rest@ == original.subrange(0, k as int),
                forall|a: Address|
                    #[trigger] t.view().contains_key(a) <==> exists|i: int|
                        k <= i < n && (#[trigger] original[i]).0 == a,
                forall|i: int|
                    k <= i < n && (forall|j: int| i < j < n ==> original[j].0 != original[i].0)
                        ==> t.view()[(#[trigger] original[i]).0] == original[i].1@,
            decreases k,
        {
            let (key, value) = rest.pop().unwrap();
            k = k - 1;
            assert(original[k as int].0 == key && original[k as int].1 == value);
            assert(rest@ =~= original.subrange(0, k as int));
            let ghost before = t.view();
            if !t.contains(key) {
                t.insert(key, value);
            }
            proof {
                assert forall|a: Address| #[trigger] t.view().contains_key(a) <==> exists|i: int|
                    k <= i < n && (#[trigger] original[i]).0 == a by {
                    if a == key {
                        assert(original[k as int].0 == a);
                    } else if before.contains_key(a) {
                        let i = choose|i: int| k + 1 <= i < n && (#[trigger] original[i]).0 == a;
                        assert(k <= i < n && original[i].0 == a);
                    }
                }
                assert forall|i: int|
                    k <= i < n && (forall|j: int| i < j < n ==> original[j].0 != original[i].0)
                        implies t.view()[(#[trigger] original[i]).0] == original[i].1@ by {
                    if i == k {
                        if before.contains_key(key) {
                            let j = choose|j: int| k + 1 <= j < n && (#[trigger] original[j]).0 == key;
                            assert(original[j].0 == original[i].0);
                        }
                    }
                }
            }
        }
        t
    }

    /// Every record of the table with its key, each key once.
    pub fn into_entries(self) -> (entries: Vec<(Address, V)>)
        requires
            self.wf(),
        ensures
            forall|i: int, j: int|
                0 <= i < j < entries@.len() ==> (#[trigger] entries@[i]).0 != (#[trigger] entries@[j]).0,
            forall|i: int|
                0 <= i < entries@.len() ==> self.view().contains_key((#[trigger] entries@[i]).0)
                    && self.view()[entries@[i].0] == entries@[i].1@,
            forall|a: Address|
                #[trigger] self.view().contains_key(a) ==> exists|i: int|
                    0 <= i < entries@.len() && (#[trigger] entries@[i]).0 == a,
    {
        let ghost keys = self.keys@;
        let ghost vals = self.vals@;
        let ghost contents = self.contents@;
        let AddressTable { keys: mut ks, vals: mut vs, contents: _ } = self;
        let mut out: Vec<(Address, V)> = Vec::new();
        let n = ks.len();
        let mut k: usize = n;
        while k > 0
            invariant
                n == keys.len(),
                keys.len() == vals.len(),
                k <= n,
                ks@ == keys.subrange(0, k as int),
                vs@ == vals.subrange(0, k as int),
                out@.len() == n - k,
                forall|m: int| 0 <= m < out@.len() ==> #[trigger] out@[m] == (keys[n - 1 - m], vals[n - 1 - m]),
            decreases k,
        {
            let key = ks.pop().unwrap();
            let value = vs.pop().unwrap();
            out.push((key, value));
            k = k - 1;
            proof {
                assert(ks@ =~= keys.subrange(0, k as int));
                assert(vs@ =~= vals.subrange(0, k as int));
            }
        }
        proof {
            assert forall|i: int, j: int| 0 <= i < j < out@.len() implies (#[trigger] out@[i]).0 != (#[trigger] out@[j]).0 by {
                assert(out@[i].0 == keys[n - 1 - i]);
                assert(out@[j].0 == keys[n - 1 - j]);
            }
            assert forall|i: int| 0 <= i < out@.len() implies contents.contains_key((#[trigger] out@[i]).0)
                && contents[out@[i].0] == out@[i].1@ by {
                assert(out@[i] == (keys[n - 1 - i], vals[n - 1 - i]));
                assert(contents.contains_key(keys[n - 1 - i]));
            }
            assert forall|a: Address| #[trigger] contents.contains_key(a) implies exists|i: int|
                0 <= i < out@.len() && (#[trigger] out@[i]).0 == a by {
                let m = choose|m: int| 0 <= m < keys.len() && keys[m] == a;
                assert(out@[n - 1 - m].0 == a);
            }
        }
        out
    }
}

} // verus!
