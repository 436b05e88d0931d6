//! A map keyed by strings, kept as a list of entries whose keys are distinct.
use vstd::prelude::*;

use crate::text::{chars_eq, chars_of};

verus! {

/// A map from string keys to values. Each key is held once; inserting a key
/// that is present replaces its value.
pub struct StringMap<T> {
    entries: Vec<(Vec<char>, T)>,
}

impl<T> StringMap<T> {
    /// The keys in the order in which they were first inserted.
    pub closed spec fn key_order(self) -> Seq<Seq<char>> {
        Seq::new(self.entries@.len(), |i: int| self.entries@[i].0@)
    }

    #[verifier::type_invariant]
    spec fn distinct_keys(self) -> bool {
        self.key_order().no_duplicates()
    }

    spec fn position(self, k: Seq<char>) -> int {
        choose|i: int| 0 <= i < self.entries@.len() && self.entries@[i].0@ == k
    }

    /// The entries as a map from keys to values.
    pub closed spec fn as_map(self) -> Map<Seq<char>, T> {
        Map::new(
            |k: Seq<char>| self.key_order().contains(k),
            |k: Seq<char>| self.entries@[self.position(k)].1,
        )
    }

    /// An empty map.
    pub fn new() -> (r: Self)
        ensures
            r@ == Map::<Seq<char>, T>::empty(),
    {
        let r = StringMap { entries: Vec::new() };
        assert(r@ =~= Map::<Seq<char>, T>::empty());
        r
    }

    /// The index of the entry with key `key`, if any.
    fn find(&self, key: &[char]) -> (r: Option<usize>)
        ensures
            match r {
                Some(i) => i < self.entries@.len() && self.entries@[i as int].0@ == key@,
                None => !self.key_order().contains(key@),
            },
    {
        let mut i: usize = 0;
        while i < self.entries.len()
            invariant
                i <= self.entries@.len(),
                forall|j: int| 0 <= j < i ==> self.entries@[j].0@ != key@,
            decreases self.entries@.len() - i,
        {
            if chars_eq(self.entries[i].0.as_slice(), key) {
                return Some(i);
            }
            i += 1;
        }
        assert(!self.key_order().contains(key@)) by {
            if self.key_order().contains(key@) {
                let j = choose|j: int| 0 <= j < self.key_order().len() && self.key_order()[j] == key@;
                assert(self.entries@[j].0@ == key@);
            }
        }
        None
    }

    proof fn lemma_position(self, i: int)
        requires
            self.distinct_keys(),
            0 <= i < self.entries@.len(),
        ensures
            self.position(self.entries@[i].0@) == i,
            self.key_order().contains(self.entries@[i].0@),
            self@[self.entries@[i].0@] == self.entries@[i].1,
    {
        let k = self.entries@[i].0@;
        assert(self.key_order()[i] == k);
        let p = self.position(k);
        assert(self.key_order()[p] == k);
        assert(p == i);
    }

    /// Whether `key` is present.
    pub fn contains_key(&self, key: &str) -> (r: bool)
        ensures
            r == self@.dom().contains(key@),
    {
        let k = chars_of(key);
        match self.find(k.as_slice()) {
            Some(i) => {
                proof {
                    use_type_invariant(self);
                    self.lemma_position(i as int);
                }
                true
            },
            None => false,
        }
    }

    /// The value for `key`, if present.
    pub fn get(&self, key: &str) -> (r: Option<&T>)
        ensures
            match r {
                Some(v) => self@.dom().contains(key@) && *v == self@[key@],
                None => !self@.dom().contains(key@),
            },
    {
        let k = chars_of(key);
        match self.find(k.as_slice()) {
            Some(i) => {
                proof {
                    use_type_invariant(self);
                    self.lemma_position(i as int);
                }
                Some(&self.entries[i].1)
            },
            None => None,
        }
    }

    proof fn lemma_lookup(self, k: Seq<char>)
        requires
            self.distinct_keys(),
            self.key_order().contains(k),
        ensures
            0 <= self.position(k) < self.entries@.len(),
            self.entries@[self.position(k)].0@ == k,
            self@.dom().contains(k),
            self@[k] == self.entries@[self.position(k)].1,
    {
        let j = choose|j: int| 0 <= j < self.key_order().len() && self.key_order()[j] == k;
        assert(self.entries@[j].0@ == k);
    }

    /// Sets the value for `key`, replacing any value it had.
    pub fn insert(&mut self, key: &str, value: T)
        ensures
            final(self)@ == old(self)@.insert(key@, value),
    {
        proof {
            use_type_invariant(&*self);
        }
        let ghost before = *self;
        let k = chars_of(key);
        let found = self.find(k.as_slice());
        let mut entries: Vec<(Vec<char>, T)> = Vec::new();
        std::mem::swap(&mut entries, &mut self.entries);
        match found {
            Some(i) => {
                entries.set(i, (k, value));
                proof {
                    let after = StringMap { entries };
                    assert(after.key_order() =~= before.key_order());
                }
            },
            None => {
                entries.push((k, value));
                proof {
                    let after = StringMap { entries };
                    assert(after.key_order() =~= before.key_order().push(key@));
                }
            },
        }
        self.entries = entries;
        proof {
            use_type_invariant(&*self);
            let n = before.entries@.len();
            assert forall|kk: Seq<char>| self.key_order().contains(kk) <==> (before.key_order().contains(kk) || kk == key@) by {
                if self.key_order().contains(kk) {
                    self.lemma_lookup(kk);
                    let p = self.position(kk);
                    if p < n && kk != key@ {
                        assert(before.key_order()[p] == kk);
                    }
                }
                if before.key_order().contains(kk) {
                    before.lemma_lookup(kk);
                    let p = before.position(kk);
                    assert(self.key_order()[p] == kk || found is Some && p == found->0);
                }
                if kk == key@ {
                    match found {
                        Some(i) => { assert(self.key_order()[i as int] == kk); },
                        None => { assert(self.key_order()[n as int] == kk); },
                    }
                }
            }
            assert forall|kk: Seq<char>| #[trigger] self@.dom().contains(kk) implies self@[kk] == before@.insert(
                key@,
                value,
            )[kk] by {
                self.lemma_lookup(kk);
                let p = self.position(kk);
                if kk == key@ {
                    match found {
                        Some(i) => { self.lemma_position(i as int); },
                        None => { self.lemma_position(n as int); },
                    }
                } else {
                    assert(p < n);
                    assert(before.entries@[p] == self.entries@[p]);
                    before.lemma_position(p);
                }
            }
            assert(self@.dom() =~= before@.dom().insert(key@)) by {
                assert forall|kk: Seq<char>| self@.dom().contains(kk) <==> before@.dom().insert(key@).contains(kk) by {
                    if before.key_order().contains(kk) {
                        before.lemma_lookup(kk);
                    }
                }
            }
            assert(self@ =~= before@.insert(key@, value));
        }
    }

    /// References to all values, one for each key, in the order of
    /// `key_order`.
    pub fn values(&self) -> (r: Vec<&T>)
        ensures
            self.key_order().no_duplicates(),
            forall|k: Seq<char>| self@.dom().contains(k) <==> self.key_order().contains(k),
            r@.len() == self.key_order().len(),
            forall|i: int| 0 <= i < r@.len() ==> *r@[i] == self@[self.key_order()[i]],
    {
        proof {
            use_type_invariant(self);
        }
        let mut r: Vec<&T> = Vec::new();
        let mut i: usize = 0;
        while i < self.entries.len()
            invariant
                self.distinct_keys(),
                i <= self.entries@.len(),
                r@.len() == i,
                forall|j: int| 0 <= j < i ==> *r@[j] == self@[self.key_order()[j]],
            decreases self.entries@.len() - i,
        {
            proof {
                self.lemma_position(i as int);
            }
            r.push(&self.entries[i].1);
            i += 1;
        }
        r
    }
}

impl<T> View for StringMap<T> {
    type V = Map<Seq<char>, T>;

    closed spec fn view(&self) -> Map<Seq<char>, T> {
        self.as_map()
    }
}

/// Reading a key after writing it gives the value written, and every other
/// key keeps what it had: the law that `insert`, `get` and `contains_key`
/// keep between them.
pub proof fn law_read_after_write<T>(m: StringMap<T>, key: Seq<char>, value: T, other: Seq<char>)
    ensures
        m@.insert(key, value).dom().contains(key),
        m@.insert(key, value)[key] == value,
        other != key ==> (m@.insert(key, value).dom().contains(other) <==> m@.dom().contains(other)),
        other != key && m@.dom().contains(other) ==> m@.insert(key, value)[other] == m@[other],
{
}

} // verus!
