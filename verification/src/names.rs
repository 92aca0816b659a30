//! Collections keyed by a name: a map and a set whose keys are strings.
use crate::text::eq_str;
use vstd::prelude::*;

verus! {

/// A map from names to values. No name occurs twice.
#[derive(Debug, Clone)]
pub struct NameMap<V> {
    entries: Vec<(String, V)>,
}

impl<V> NameMap<V> {
    /// The names, in the order in which the entries are kept.
    pub closed spec fn names(&self) -> Seq<Seq<char>> {
        Seq::new(self.entries@.len(), |i: int| self.entries@[i].0@)
    }

    /// The values, in the order of `names`.
    pub closed spec fn values(&self) -> Seq<V> {
        Seq::new(self.entries@.len(), |i: int| self.entries@[i].1)
    }

    /// No name occurs twice.
    pub open spec fn wf(&self) -> bool {
        &&& self.names().no_duplicates()
        &&& self.names().len() == self.values().len()
    }

    /// The map from each name to its value.
    pub open spec fn view(&self) -> Map<Seq<char>, V> {
        Map::new(
            |k: Seq<char>| self.names().contains(k),
            |k: Seq<char>| self.values()[self.names().index_of(k)],
        )
    }

    /// What is found at a place is what the map holds under the name there.
    pub proof fn lemma_at(&self, i: int)
        requires
            self.wf(),
            0 <= i < self.names().len(),
        ensures
            self@.dom().contains(self.names()[i]),
            self@[self.names()[i]] == self.values()[i],
    {
        assert(self.names().contains(self.names()[i]));
        assert(self.names().index_of(self.names()[i]) == i);
    }

    /// There are as many names as entries in the map.
    pub proof fn lemma_len(&self)
        requires
            self.wf(),
        ensures
            self@.dom().finite(),
            self@.dom().len() == self.names().len(),
    {
        self.names().unique_seq_to_set();
        assert(self@.dom() =~= self.names().to_set());
    }

    /// The map without entries.
    pub fn new() -> (r: Self)
        ensures
            r.wf(),
            r@ == Map::<Seq<char>, V>::empty(),
            r.names().len() == 0,
    {
        let r = NameMap { entries: Vec::new() };
        assert(r@.dom() =~= Set::empty());
        assert(r@ =~= Map::<Seq<char>, V>::empty());
        r
    }

    /// The number of entries.
    pub fn len(&self) -> (r: usize)
        requires
            self.wf(),
        ensures
            r == self@.dom().len(),
            r == self.names().len(),
    {
        proof {
            self.lemma_len();
        }
        self.entries.len()
    }

    /// Whether there is no entry.
    pub fn is_empty(&self) -> (r: bool)
        requires
            self.wf(),
        ensures
            r == (self@ == Map::<Seq<char>, V>::empty()),
            r == (self@.dom().len() == 0),
    {
        proof {
            self.lemma_len();
            if self.entries@.len() == 0 {
                assert(self@ =~= Map::<Seq<char>, V>::empty());
            } else {
                self.lemma_at(0);
            }
        }
        self.entries.len() == 0
    }

    /// The place of `name`, if it has one.
    pub fn position(&self, name: &str) -> (r: Option<usize>)
        requires
            self.wf(),
        ensures
            r is Some <==> self@.dom().contains(name@),
            r matches Some(i) ==> i < self.names().len() && self.names()[i as int] == name@
                && self.values()[i as int] == self@[name@],
    {
        let mut i: usize = 0;
        while i < self.entries.len()
            invariant
                self.wf(),
                i <= self.entries@.len(),
                forall|j: int| 0 <= j < i ==> #[trigger] self.names()[j] != name@,
            decreases self.entries.len() - i,
        {
            if eq_str(self.entries[i].0.as_str(), name) {
                assert(self.names()[i as int] == name@);
                proof {
                    self.lemma_at(i as int);
                }
                return Some(i);
            }
            assert(self.names()[i as int] == self.entries@[i as int].0@);
            i += 1;
        }
        None
    }

    /// The name at place `i`.
    pub fn name_at(&self, i: usize) -> (r: &String)
        requires
            i < self.names().len(),
        ensures
            r@ == self.names()[i as int],
    {
        &self.entries[i].0
    }

    /// The value at place `i`.
    pub fn value_at(&self, i: usize) -> (r: &V)
        requires
            i < self.values().len(),
        ensures
            *r == self.values()[i as int],
    {
        &self.entries[i].1
    }

    /// Whether `name` has an entry.
    pub fn contains(&self, name: &str) -> (r: bool)
        requires
            self.wf(),
        ensures
            r == self@.dom().contains(name@),
    {
        self.position(name).is_some()
    }

    /// The value of `name`, if it has one.
    pub fn get(&self, name: &str) -> (r: Option<&V>)
        requires
            self.wf(),
        ensures
            r is Some <==> self@.dom().contains(name@),
            r matches Some(v) ==> *v == self@[name@],
    {
        match self.position(name) {
            Some(i) => Some(&self.entries[i].1),
            None => None,
        }
    }

    /// Set the value of `name`, in place of the one that it had.
    pub fn insert(&mut self, name: String, value: V)
        requires
            old(self).wf(),
        ensures
            final(self).wf(),
            final(self)@ == old(self)@.insert(name@, value),
            !old(self)@.dom().contains(name@) ==> {
                &&& final(self).names() == old(self).names().push(name@)
                &&& final(self).values() == old(self).values().push(value)
            },
    {
        let ghost before = *self;
        match self.position(name.as_str()) {
            Some(i) => {
                self.entries.set(i, (name, value));
                proof {
                    assert(self.names() =~= before.names());
                    assert(self.values() =~= before.values().update(i as int, value));
                    assert(self@.dom() =~= before@.insert(name@, value).dom()) by {
                        assert(before.names().contains(name@));
                    }
                    assert forall|k: Seq<char>| self@.dom().contains(k) implies self@[k]
                        == before@.insert(name@, value)[k] by {
                        let j = self.names().index_of(k);
                        assert(self.names()[j] == k);
                        self.lemma_at(j);
                        before.lemma_at(j);
                    }
                    assert(self@ =~= before@.insert(name@, value));
                }
            },
            None => {
                self.entries.push((name, value));
                proof {
                    assert(self.names() =~= before.names().push(name@));
                    assert(self.values() =~= before.values().push(value));
                    assert(!before.names().contains(name@));
                    assert(self.names().no_duplicates());
                    let n = before.names().len() as int;
                    assert(self.names()[n] == name@);
                    assert forall|k: Seq<char>| self@.dom().contains(k) <==> before@.insert(
                        name@,
                        value,
                    ).dom().contains(k) by {
                        if before.names().contains(k) {
                            let j = before.names().index_of(k);
                            assert(self.names()[j] == k);
                        }
                        if self.names().contains(k) && k != name@ {
                            let j = self.names().index_of(k);
                            assert(before.names()[j] == k);
                        }
                    }
                    assert(self@.dom() =~= before@.insert(name@, value).dom());
                    assert forall|k: Seq<char>| self@.dom().contains(k) implies self@[k]
                        == before@.insert(name@, value)[k] by {
                        let j = self.names().index_of(k);
                        assert(self.names()[j] == k);
                        self.lemma_at(j);
                        if j < n {
                            assert(before.names()[j] == k);
                            before.lemma_at(j);
                        }
                    }
                    assert(self@ =~= before@.insert(name@, value));
                }
            },
        }
    }

    /// Take `name` and its value out.
    pub fn remove(&mut self, name: &str) -> (r: Option<V>)
        requires
            old(self).wf(),
        ensures
            final(self).wf(),
            final(self)@ == old(self)@.remove(name@),
            r is Some <==> old(self)@.dom().contains(name@),
            r matches Some(v) ==> v == old(self)@[name@],
    {
        let ghost before = *self;
        match self.position(name) {
            Some(i) => {
                let (_, value) = self.entries.remove(i);
                proof {
                    assert(self.names() =~= before.names().remove(i as int));
                    assert(self.values() =~= before.values().remove(i as int));
                    assert forall|k: Seq<char>| self@.dom().contains(k) <==> before@.remove(
                        name@,
                    ).dom().contains(k) by {
                        if self.names().contains(k) {
                            let j = self.names().index_of(k);
                            let m = if j < i { j } else { j + 1 };
                            assert(before.names()[m] == k);
                        }
                        if before.names().contains(k) && k != name@ {
                            let j = before.names().index_of(k);
                            let m = if j < i { j } else { j - 1 };
                            assert(self.names()[m] == k);
                        }
                    }
                    assert forall|k: Seq<char>| self@.dom().contains(k) implies self@[k]
                        == before@.remove(name@)[k] by {
                        let j = self.names().index_of(k);
                        assert(self.names()[j] == k);
                        let m = if j < i { j } else { j + 1 };
                        assert(before.names()[m] == k);
                        self.lemma_at(j);
                        before.lemma_at(m);
                    }
                    assert(self@ =~= before@.remove(name@));
                }
                Some(value)
            },
            None => {
                assert(self@ =~= before@.remove(name@));
                None
            },
        }
    }

    /// Take every entry out.
    pub fn clear(&mut self)
        ensures
            final(self).wf(),
            final(self)@ == Map::<Seq<char>, V>::empty(),
            final(self).names().len() == 0,
    {
        self.entries.clear();
        assert(self@ =~= Map::<Seq<char>, V>::empty());
    }
}

/// A set of names.
#[derive(Debug)]
pub struct NameSet {
    members: NameMap<()>,
}

impl NameSet {
    /// The names in the set.
    pub closed spec fn view(&self) -> Set<Seq<char>> {
        self.members@.dom()
    }

    /// The names are kept once each.
    pub closed spec fn wf(&self) -> bool {
        self.members.wf()
    }

    /// The set without names.
    pub fn new() -> (r: Self)
        ensures
            r.wf(),
            r@ == Set::<Seq<char>>::empty(),
    {
        NameSet { members: NameMap::new() }
    }

    /// Whether the set has no name.
    pub fn is_empty(&self) -> (r: bool)
        requires
            self.wf(),
        ensures
            r == (self@ == Set::<Seq<char>>::empty()),
    {
        proof {
            self.members.lemma_len();
            if self@.len() == 0 {
                self@.lemma_len0_is_empty();
            }
        }
        self.members.is_empty()
    }

    /// Whether `name` is in the set.
    pub fn contains(&self, name: &str) -> (r: bool)
        requires
            self.wf(),
        ensures
            r == self@.contains(name@),
    {
        self.members.contains(name)
    }

    /// Put `name` in the set.
    pub fn insert(&mut self, name: String)
        requires
            old(self).wf(),
        ensures
            final(self).wf(),
            final(self)@ == old(self)@.insert(name@),
    {
        self.members.insert(name, ());
        assert(self@ =~= old(self)@.insert(name@));
    }

    /// Take `name` out of the set.
    pub fn remove(&mut self, name: &str)
        requires
            old(self).wf(),
        ensures
            final(self).wf(),
            final(self)@ == old(self)@.remove(name@),
    {
        let _ = self.members.remove(name);
        assert(self@ =~= old(self)@.remove(name@));
    }

    /// Take every name out of the set.
    pub fn clear(&mut self)
        ensures
            final(self).wf(),
            final(self)@ == Set::<Seq<char>>::empty(),
    {
        self.members.clear();
    }
}

} // verus!
