use vstd::prelude::*;

verus! {

/// A map from string identifiers to values.
///
/// The entries are kept in insertion order, and no identifier occurs twice, so the
/// map reads as a `Map` from the identifiers' characters to the values.
#[derive(Debug)]
pub struct IdMap<V> {
    entries: Vec<(String, V)>,
}

impl<V> View for IdMap<V> {
    type V = Map<Seq<char>, V>;

    /// The map from each entry's identifier to its value.
    closed spec fn view(&self) -> Map<Seq<char>, V> {
        Map::new(
            |k: Seq<char>| exists|i: int| 0 <= i < self.entries@.len() && self.entries@[i].0@ == k,
            |k: Seq<char>| self.entries@[self.position(k)].1,
        )
    }
}

impl<V> IdMap<V> {
    /// No two entries share an identifier.
    #[verifier::type_invariant]
    spec fn keys_distinct(self) -> bool {
        forall|i: int, j: int|
            0 <= i < j < self.entries@.len() ==> #[trigger] self.entries@[i].0@
                != #[trigger] self.entries@[j].0@
    }

    /// The position of the entry whose identifier is `key`, where there is one.
    spec fn position(self, key: Seq<char>) -> int {
        choose|i: int| 0 <= i < self.entries@.len() && self.entries@[i].0@ == key
    }

    /// The entries in insertion order.
    pub closed spec fn entry_seq(self) -> Seq<(String, V)> {
        self.entries@
    }

    proof fn lemma_entry_in_view(self, i: int)
        requires
            self.keys_distinct(),
            0 <= i < self.entries@.len(),
        ensures
            self@.contains_key(self.entries@[i].0@),
            self@[self.entries@[i].0@] == self.entries@[i].1,
    {
        let k = self.entries@[i].0@;
        let p = self.position(k);
        assert(0 <= p < self.entries@.len() && self.entries@[p].0@ == k);
        if p < i {
            assert(self.entries@[p].0@ != self.entries@[i].0@);
        } else if i < p {
            assert(self.entries@[i].0@ != self.entries@[p].0@);
        }
    }

    /// An empty map.
    pub fn new() -> (m: Self)
        ensures
            m@ == Map::<Seq<char>, V>::empty(),
            m.entry_seq() == Seq::<(String, V)>::empty(),
    {
        let m = IdMap { entries: Vec::new() };
        assert(m@ =~= Map::<Seq<char>, V>::empty());
        m
    }

    /// The entries, in insertion order, each identifier once.
    pub fn entries(&self) -> (r: &Vec<(String, V)>)
        ensures
            r@ == self.entry_seq(),
            forall|k: Seq<char>|
                self@.contains_key(k) <==> exists|i: int| 0 <= i < r@.len() && (#[trigger] r@[i]).0@ == k,
            forall|i: int| 0 <= i < r@.len() ==> self@[(#[trigger] r@[i]).0@] == r@[i].1,
    {
        proof {
            use_type_invariant(self);
            assert forall|i: int| 0 <= i < self.entries@.len() implies self@[(
            #[trigger] self.entries@[i]).0@] == self.entries@[i].1 by {
                self.lemma_entry_in_view(i);
            }
        }
        &self.entries
    }

    /// Finds the position of the entry whose identifier is `key`.
    fn find(&self, key: &String) -> (r: Option<usize>)
        ensures
            match r {
                Some(i) => i < self.entries@.len() && self.entries@[i as int].0@ == key@,
                None => forall|j: int|
                    0 <= j < self.entries@.len() ==> self.entries@[j].0@ != key@,
            },
    {
        let mut i: usize = 0;
        while i < self.entries.len()
            invariant
                i <= self.entries@.len(),
                forall|j: int| 0 <= j < i ==> self.entries@[j].0@ != key@,
            decreases self.entries@.len() - i,
        {
            if self.entries[i].0 == *key {
                return Some(i);
            }
            i = i + 1;
        }
        None
    }

    /// The value stored under `key`, if any.
    pub fn get(&self, key: &String) -> (r: Option<&V>)
        ensures
            match r {
                Some(v) => self@.contains_key(key@) && *v == self@[key@],
                None => !self@.contains_key(key@),
            },
    {
        proof {
            use_type_invariant(self);
        }
        match self.find(key) {
            Some(i) => {
                proof {
                    self.lemma_entry_in_view(i as int);
                }
                Some(&self.entries[i].1)
            },
            None => None,
        }
    }

    /// Stores `value` under `key`, replacing the value stored there before, if any. A
    /// replaced entry keeps its place; a new one comes last.
    pub fn insert(&mut self, key: String, value: V)
        ensures
            final(self)@ == old(self)@.insert(key@, value),
            old(self)@.contains_key(key@) ==> exists|i: int|
                0 <= i < old(self).entry_seq().len() && (#[trigger] old(self).entry_seq()[i]).0@ == key@
                    && final(self).entry_seq() == old(self).entry_seq().update(i, (key, value)),
            !old(self)@.contains_key(key@) ==> final(self).entry_seq() == old(self).entry_seq().push(
                (key, value),
            ),
    {
        proof {
            use_type_invariant(&*self);
        }
        let ghost pre = *self;
        let ghost k = key@;
        let ghost new_entry = (key, value);
        let found = self.find(&key);
        let mut entries: Vec<(String, V)> = Vec::new();
        std::mem::swap(&mut entries, &mut self.entries);
        match found {
            Some(i) => {
                entries.set(i, (key, value));
            },
            None => {
                entries.push((key, value));
            },
        }
        self.entries = entries;
        proof {
            use_type_invariant(&*self);
            let post = *self;
            assert forall|a: Seq<char>| #[trigger] post@.contains_key(a) implies pre@.insert(
                k,
                value,
            ).contains_key(a) && post@[a] == pre@.insert(k, value)[a] by {
                let p = post.position(a);
                post.lemma_entry_in_view(p);
                if a != k {
                    pre.lemma_entry_in_view(p);
                }
            }
            assert forall|a: Seq<char>| #[trigger] pre@.insert(k, value).contains_key(a)
                implies post@.contains_key(a) by {
                if a == k {
                    match found {
                        Some(i) => post.lemma_entry_in_view(i as int),
                        None => post.lemma_entry_in_view(pre.entries@.len() as int),
                    }
                } else {
                    let p = pre.position(a);
                    post.lemma_entry_in_view(p);
                }
            }
            assert(post@ =~= pre@.insert(k, value));
            match found {
                Some(i) => {
                    assert(pre@.contains_key(k));
                    assert(pre.entries@[i as int].0@ == k);
                    assert(post.entries@ == pre.entries@.update(i as int, new_entry));
                    assert(pre.entry_seq()[i as int].0@ == k);
                    assert(post.entry_seq() == pre.entry_seq().update(i as int, new_entry));
                },
                None => {
                    assert(!pre@.contains_key(k));
                },
            }
        }
    }
}

impl<V: Clone> Clone for IdMap<V> {
    /// A copy with the same identifiers, each value cloned.
    fn clone(&self) -> (r: Self)
        ensures
            r@.dom() == self@.dom(),
            forall|k: Seq<char>| #[trigger] r@.contains_key(k) ==> cloned::<V>(self@[k], r@[k]),
    {
        proof {
            use_type_invariant(self);
        }
        let mut entries: Vec<(String, V)> = Vec::new();
        let mut i: usize = 0;
        while i < self.entries.len()
            invariant
                i <= self.entries@.len(),
                entries@.len() == i,
                self.keys_distinct(),
                forall|j: int| 0 <= j < i ==> (#[trigger] entries@[j]).0 == self.entries@[j].0 && cloned::<V>(
                    self.entries@[j].1,
                    entries@[j].1,
                ),
            decreases self.entries@.len() - i,
        {
            let k = self.entries[i].0.clone();
            let v = self.entries[i].1.clone();
            entries.push((k, v));
            i = i + 1;
        }
        let r = IdMap { entries };
        proof {
            assert forall|k: Seq<char>| #[trigger] r@.contains_key(k) implies self@.contains_key(k) && cloned::<V>(self@[k], r@[k]) by {
                let p = r.position(k);
                r.lemma_entry_in_view(p);
                self.lemma_entry_in_view(p);
            }
            assert forall|k: Seq<char>| #[trigger] self@.contains_key(k) implies r@.contains_key(k) by {
                let p = self.position(k);
                r.lemma_entry_in_view(p);
            }
            assert(r@.dom() =~= self@.dom());
        }
        r
    }
}

} // verus!
