//! A map from strings to values kept as a vector of distinct keys, with the
//! map it stands for held as a ghost value. vstd's specification of std's
//! `HashMap` gives map semantics only to keys whose hashing it models, which
//! excludes `String`; the keys here are table names and keys, so this list
//! carries the map and its proof instead.

use vstd::prelude::*;

verus! {

/// Values that carry an invariant of their own.
pub trait WellFormed {
    spec fn well_formed(&self) -> bool;
}

impl WellFormed for Vec<u8> {
    open spec fn well_formed(&self) -> bool {
        true
    }
}

pub struct AssocList<V: View + WellFormed> {
    items: Vec<(String, V)>,
    map: Ghost<Map<Seq<char>, V::V>>,
}

impl<V: View + WellFormed> View for AssocList<V> {
    type V = Map<Seq<char>, V::V>;

    closed spec fn view(&self) -> Map<Seq<char>, V::V> {
        self.map@
    }
}

impl<V: View + WellFormed> AssocList<V> {
    /// The keys are distinct, and the ghost map holds exactly the pairs.
    pub closed spec fn wf(&self) -> bool {
        let s = self.items@;
        &&& forall|i: int, j: int|
            0 <= i < s.len() && 0 <= j < s.len() && i != j ==> #[trigger] s[i].0@ != #[trigger] s[j].0@
        &&& forall|i: int| 0 <= i < s.len() ==> #[trigger] self.map@.contains_key(s[i].0@)
            && self.map@[s[i].0@] == s[i].1@
        &&& forall|k: Seq<char>| #[trigger] self.map@.contains_key(k) ==> exists|i: int|
            0 <= i < s.len() && #[trigger] s[i].0@ == k
        &&& forall|i: int| 0 <= i < s.len() ==> (#[trigger] s[i]).1.well_formed()
        &&& self.map@.dom().finite()
        &&& self.map@.dom().len() == s.len()
    }

    pub fn new() -> (r: Self)
        ensures
            r.wf(),
            r@ == Map::<Seq<char>, V::V>::empty(),
    {
        AssocList { items: Vec::new(), map: Ghost(Map::empty()) }
    }

    pub fn len(&self) -> (r: usize)
        requires
            self.wf(),
        ensures
            r == self@.dom().len(),
    {
        self.items.len()
    }

    /// The position of `key`, if present.
    fn find(&self, key: &String) -> (r: Option<usize>)
        requires
            self.wf(),
        ensures
            match r {
                Some(i) => i < self.items@.len() && self.items@[i as int].0@ == key@,
                None => !self@.contains_key(key@),
            },
    {
        let mut i: usize = 0;
        while i < self.items.len()
            invariant
                self.wf(),
                i <= self.items@.len(),
                forall|j: int| 0 <= j < i ==> #[trigger] self.items@[j].0@ != key@,
            decreases self.items@.len() - i,
        {
            if self.items[i].0 == *key {
                return Some(i);
            }
            i = i + 1;
        }
        None
    }

    pub fn contains_key(&self, key: &String) -> (r: bool)
        requires
            self.wf(),
        ensures
            r == self@.contains_key(key@),
    {
        self.find(key).is_some()
    }

    pub fn get(&self, key: &String) -> (r: Option<&V>)
        requires
            self.wf(),
        ensures
            match r {
                Some(v) => self@.contains_key(key@) && v@ == self@[key@] && v.well_formed(),
                None => !self@.contains_key(key@),
            },
    {
        match self.find(key) {
            Some(i) => {
                assert(self.map@.contains_key(self.items@[i as int].0@));
                Some(&self.items[i].1)
            },
            None => None,
        }
    }

    /// Removes `key`, returning its value.
    pub fn remove(&mut self, key: &String) -> (r: Option<V>)
        requires
            old(self).wf(),
        ensures
            final(self).wf(),
            final(self)@ == old(self)@.remove(key@),
            match r {
                Some(v) => old(self)@.contains_key(key@) && v@ == old(self)@[key@] && v.well_formed(),
                None => !old(self)@.contains_key(key@),
            },
    {
        match self.find(key) {
            None => {
                assert(self@.remove(key@) =~= self@);
                None
            },
            Some(i) => {
                let ghost s = self.items@;
                let ghost om = self.map@;
                assert(om.contains_key(s[i as int].0@));
                assert(forall|j: int|
                    0 <= j < s.len() ==> #[trigger] om.contains_key(s[j].0@) && om[s[j].0@]
                        == s[j].1@);
                let (_k, v) = self.items.remove(i);
                let ghost m = self.map@.remove(key@);
                self.map = Ghost(m);
                proof {
                    let t = self.items@;
                    assert(t =~= s.remove(i as int));
                    assert forall|a: int| 0 <= a < t.len() implies #[trigger] m.contains_key(t[a].0@)
                        && m[t[a].0@] == t[a].1@ by {
                        let b = if a < i { a } else { a + 1 };
                        assert(t[a] == s[b]);
                        assert(s[b].0@ != s[i as int].0@);
                        assert(om.contains_key(s[b].0@) && om[s[b].0@] == s[b].1@);
                    }
                    assert forall|k: Seq<char>| #[trigger] m.contains_key(k) implies exists|a: int|
                        0 <= a < t.len() && #[trigger] t[a].0@ == k by {
                        let b = choose|b: int| 0 <= b < s.len() && #[trigger] s[b].0@ == k;
                        assert(b != i);
                        let a = if b < i { b } else { b - 1 };
                        assert(t[a] == s[b]);
                    }
                    assert(m.dom() =~= om.dom().remove(key@));
                    assert forall|a: int| 0 <= a < t.len() implies (#[trigger] t[a]).1.well_formed() by {
                        let b = if a < i { a } else { a + 1 };
                        assert(t[a] == s[b]);
                    }
                    assert forall|a: int, c: int|
                        0 <= a < t.len() && 0 <= c < t.len() && a != c implies #[trigger] t[a].0@
                        != #[trigger] t[c].0@ by {
                        let a1 = if a < i { a } else { a + 1 };
                        let c1 = if c < i { c } else { c + 1 };
                        assert(t[a] == s[a1]);
                        assert(t[c] == s[c1]);
                    }
                }
                Some(v)
            },
        }
    }

    /// Sets `key` to `value`, replacing any earlier value.
    pub fn insert(&mut self, key: String, value: V)
        requires
            old(self).wf(),
            value.well_formed(),
        ensures
            final(self).wf(),
            final(self)@ == old(self)@.insert(key@, value@),
    {
        let _ = self.remove(&key);
        let ghost s = self.items@;
        let ghost om = self.map@;
        let ghost m = self.map@.insert(key@, value@);
        self.items.push((key, value));
        self.map = Ghost(m);
        proof {
            let t = self.items@;
            assert(t =~= s.push(t[s.len() as int]));
            assert(t[s.len() as int].0@ == key@);
            assert forall|a: int| 0 <= a < s.len() implies #[trigger] s[a].0@ != key@ by {
                assert(om.contains_key(s[a].0@));
            }
            assert forall|a: int, c: int|
                0 <= a < t.len() && 0 <= c < t.len() && a != c implies #[trigger] t[a].0@
                != #[trigger] t[c].0@ by {
                if a < s.len() {
                    assert(t[a] == s[a]);
                }
                if c < s.len() {
                    assert(t[c] == s[c]);
                }
            }
            assert(m.dom() =~= om.dom().insert(key@));
            assert forall|a: int| 0 <= a < t.len() implies (#[trigger] t[a]).1.well_formed() by {
                if a < s.len() {
                    assert(t[a] == s[a]);
                }
            }
            assert forall|a: int| 0 <= a < t.len() implies #[trigger] m.contains_key(t[a].0@)
                && m[t[a].0@] == t[a].1@ by {
                if a < s.len() {
                    assert(t[a] == s[a]);
                }
            }
            assert forall|k: Seq<char>| #[trigger] m.contains_key(k) implies exists|a: int|
                0 <= a < t.len() && #[trigger] t[a].0@ == k by {
                if k != t[s.len() as int].0@ {
                    let b = choose|b: int| 0 <= b < s.len() && #[trigger] s[b].0@ == k;
                    assert(t[b] == s[b]);
                } else {
                    assert(t[s.len() as int].0@ == k);
                }
            }
        }
    }
}

} // verus!
