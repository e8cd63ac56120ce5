//! Associations from names to values, kept in the order in which the names first came.
use crate::text::str_eq;
use vstd::prelude::*;

verus! {

/// A finite map from strings to values. No name occurs twice.
pub struct NameMap<V> {
    entries: Vec<(String, V)>,
}

impl<V> NameMap<V> {
    #[verifier::type_invariant]
    spec fn names_distinct(self) -> bool {
        forall|i: int, j: int|
            0 <= i < j < self.entries@.len() ==> #[trigger] self.entries@[i].0@ != #[trigger] self.entries@[j].0@
    }

    /// The names, in the order in which they were first inserted.
    pub closed spec fn names(&self) -> Seq<Seq<char>> {
        Seq::new(self.entries@.len(), |i: int| self.entries@[i].0@)
    }

    spec fn spot(&self, name: Seq<char>) -> int {
        choose|i: int| 0 <= i < self.entries@.len() && #[trigger] self.entries@[i].0@ == name
    }

    spec fn has(&self, name: Seq<char>) -> bool {
        exists|i: int| 0 <= i < self.entries@.len() && #[trigger] self.entries@[i].0@ == name
    }
}

impl<V> View for NameMap<V> {
    type V = Map<Seq<char>, V>;

    closed spec fn view(&self) -> Map<Seq<char>, V> {
        Map::new(|k: Seq<char>| self.has(k), |k: Seq<char>| self.entries@[self.spot(k)].1)
    }
}

impl<V> NameMap<V> {
    proof fn lemma_spot(&self, i: int)
        requires
            self.names_distinct(),
            0 <= i < self.entries@.len(),
        ensures
            self.has(self.entries@[i].0@),
            self.spot(self.entries@[i].0@) == i,
            self@.contains_key(self.entries@[i].0@),
            self@[self.entries@[i].0@] == self.entries@[i].1,
    {
        let k = self.entries@[i].0@;
        assert(self.has(k));
        let s = self.spot(k);
        assert(self.entries@[s].0@ == k);
        if s < i {
            assert(self.entries@[s].0@ != self.entries@[i].0@);
        } else if i < s {
            assert(self.entries@[i].0@ != self.entries@[s].0@);
        }
    }

    // The names are those of the map, each once.
    proof fn lemma_names_wf(&self)
        requires
            self.names_distinct(),
        ensures
            self.names().no_duplicates(),
            self.names().to_set() == self@.dom(),
            self@.dom().finite(),
            self@.dom().len() == self.names().len(),
    {
        let n = self.names();
        assert forall|i: int, j: int| 0 <= i < n.len() && 0 <= j < n.len() && i != j implies n[i]
            != n[j] by {
            if i < j {
                assert(self.entries@[i].0@ != self.entries@[j].0@);
            } else {
                assert(self.entries@[j].0@ != self.entries@[i].0@);
            }
        }
        assert forall|k: Seq<char>| n.to_set().contains(k) == self@.dom().contains(k) by {
            if self.has(k) {
                let i = self.spot(k);
                assert(n[i] == k);
            }
            if n.to_set().contains(k) {
                let i = choose|i: int| 0 <= i < n.len() && n[i] == k;
                assert(self.entries@[i].0@ == k);
            }
        }
        assert(n.to_set() =~= self@.dom());
        n.unique_seq_to_set();
        vstd::seq_lib::seq_to_set_is_finite(n);
    }

    /// An empty map.
    pub fn new() -> (r: Self)
        ensures
            r@ == Map::<Seq<char>, V>::empty(),
            r.names() == Seq::<Seq<char>>::empty(),
    {
        let r = NameMap { entries: Vec::new() };
        assert(r@ =~= Map::<Seq<char>, V>::empty());
        assert(r.names() =~= Seq::<Seq<char>>::empty());
        r
    }

    /// How many names there are.
    pub fn len(&self) -> (r: usize)
        ensures
            r == self.names().len(),
            r == self@.dom().len(),
            self@.dom().finite(),
            self.names().no_duplicates(),
            self.names().to_set() == self@.dom(),
    {
        proof {
            use_type_invariant(&*self);
            self.lemma_names_wf();
        }
        self.entries.len()
    }

    /// The name at a place in the order, with its value.
    pub fn entry_at(&self, i: usize) -> (r: (&str, &V))
        requires
            i < self.names().len(),
        ensures
            r.0@ == self.names()[i as int],
            self@.contains_key(self.names()[i as int]),
            *r.1 == self@[self.names()[i as int]],
    {
        proof {
            use_type_invariant(&*self);
            self.lemma_spot(i as int);
        }
        let e = &self.entries[i];
        (e.0.as_str(), &e.1)
    }

    fn position(&self, name: &str) -> (r: Option<usize>)
        ensures
            match r {
                Some(i) => i < self.entries@.len() && self.entries@[i as int].0@ == name@
                    && self@.contains_key(name@) && self@[name@] == self.entries@[i as int].1,
                None => !self.has(name@) && !self@.contains_key(name@),
            },
    {
        proof {
            use_type_invariant(&*self);
        }
        let mut i: usize = 0;
        while i < self.entries.len()
            invariant
                i <= self.entries@.len(),
                self.names_distinct(),
                forall|j: int| 0 <= j < i ==> self.entries@[j].0@ != name@,
            decreases self.entries@.len() - i,
        {
            if str_eq(self.entries[i].0.as_str(), name) {
                proof {
                    self.lemma_spot(i as int);
                }
                return Some(i);
            }
            i += 1;
        }
        None
    }

    /// Whether a name has a value.
    pub fn contains_key(&self, name: &str) -> (r: bool)
        ensures
            r == self@.contains_key(name@),
    {
        self.position(name).is_some()
    }

    /// The value of a name.
    pub fn get(&self, name: &str) -> (r: Option<&V>)
        ensures
            match r {
                Some(v) => self@.contains_key(name@) && *v == self@[name@],
                None => !self@.contains_key(name@),
            },
    {
        match self.position(name) {
            Some(i) => Some(&self.entries[i].1),
            None => None,
        }
    }

    /// Takes a name out, and gives its value back.
    pub fn remove(&mut self, name: &str) -> (r: Option<V>)
        ensures
            final(self)@ == old(self)@.remove(name@),
            old(self).names().no_duplicates(),
            final(self).names().to_set() == final(self)@.dom(),
            match r {
                Some(v) => old(self)@.contains_key(name@) && v == old(self)@[name@] && exists|i: int|
                    0 <= i < old(self).names().len() && #[trigger] old(self).names()[i] == name@
                        && final(self).names() == old(self).names().remove(i),
                None => !old(self)@.contains_key(name@) && final(self).names() == old(self).names(),
            },
    {
        proof {
            use_type_invariant(&*self);
        }
        proof {
            self.lemma_names_wf();
        }
        match self.position(name) {
            None => {
                assert(self@.remove(name@) =~= self@);
                None
            },
            Some(i) => {
                let mut entries: Vec<(String, V)> = Vec::new();
                core::mem::swap(&mut self.entries, &mut entries);
                let ghost before = entries@;
                let e = entries.remove(i);
                proof {
                    let t = NameMap { entries };
                    assert(t.names_distinct()) by {
                        assert forall|a: int, b: int|
                            0 <= a < b < entries@.len() implies #[trigger] entries@[a].0@
                            != #[trigger] entries@[b].0@ by {
                            let x = if a < i { a } else { a + 1 };
                            let y = if b < i { b } else { b + 1 };
                            assert(entries@[a] == before[x]);
                            assert(entries@[b] == before[y]);
                            assert(old(self).entries@[x].0@ != old(self).entries@[y].0@);
                        }
                    }
                }
                self.entries = entries;
                proof {
                    assert forall|k: Seq<char>| self.has(k) == (old(self).has(k) && k != name@) by {
                        if self.has(k) {
                            let p = self.spot(k);
                            let x = if p < i { p } else { p + 1 };
                            assert(self.entries@[p] == old(self).entries@[x]);
                            if x < i {
                                assert(old(self).entries@[x].0@ != old(self).entries@[i as int].0@);
                            } else {
                                assert(old(self).entries@[i as int].0@ != old(self).entries@[x].0@);
                            }
                        }
                        if old(self).has(k) && k != name@ {
                            let p = old(self).spot(k);
                            let x = if p < i { p } else { p - 1 };
                            assert(self.entries@[x] == old(self).entries@[p]);
                        }
                    }
                    assert forall|k: Seq<char>| self.has(k) implies self@[k] == old(self)@[k] by {
                        let p = self.spot(k);
                        let x = if p < i { p } else { p + 1 };
                        assert(self.entries@[p] == old(self).entries@[x]);
                        self.lemma_spot(p);
                        old(self).lemma_spot(x);
                    }
                    assert(self@ =~= old(self)@.remove(name@));
                    assert(old(self).names()[i as int] == name@);
                    assert(self.names() =~= old(self).names().remove(i as int));
                    self.lemma_names_wf();
                }
                Some(e.1)
            },
        }
    }

    /// Gives a name a value; a new name goes to the end of the order.
    pub fn insert(&mut self, name: String, value: V) -> (r: Option<V>)
        ensures
            final(self)@ == old(self)@.insert(name@, value),
            final(self).names() == (if old(self)@.contains_key(name@) {
                old(self).names()
            } else {
                old(self).names().push(name@)
            }),
            match r {
                Some(v) => old(self)@.contains_key(name@) && v == old(self)@[name@],
                None => !old(self)@.contains_key(name@),
            },
    {
        proof {
            use_type_invariant(&*self);
        }
        let found = self.position(name.as_str());
        let mut entries: Vec<(String, V)> = Vec::new();
        core::mem::swap(&mut self.entries, &mut entries);
        let ghost before = entries@;
        match found {
            Some(i) => {
                let e = entries.swap_remove(i);
                let mut last = (e.0, value);
                let n = entries.len();
                if i < n {
                    core::mem::swap(&mut entries[i], &mut last);
                }
                entries.push(last);
                proof {
                    assert(entries@ =~= before.update(i as int, (before[i as int].0, value)));
                    let t = NameMap { entries };
                    assert(t.names_distinct()) by {
                        assert forall|a: int, b: int|
                            0 <= a < b < entries@.len() implies #[trigger] entries@[a].0@
                            != #[trigger] entries@[b].0@ by {
                            assert(old(self).entries@[a].0@ != old(self).entries@[b].0@);
                        }
                    }
                }
                self.entries = entries;
                proof {
                    assert forall|k: Seq<char>| self.has(k) == old(self).has(k) by {
                        if self.has(k) {
                            assert(old(self).entries@[self.spot(k)].0@ == k);
                        }
                        if old(self).has(k) {
                            assert(self.entries@[old(self).spot(k)].0@ == k);
                        }
                    }
                    assert forall|k: Seq<char>| self.has(k) implies self@[k] == old(self)@.insert(
                        name@,
                        value,
                    )[k] by {
                        let p = self.spot(k);
                        self.lemma_spot(p);
                        old(self).lemma_spot(p);
                        if p == i {
                            assert(k == name@);
                        } else {
                            self.lemma_spot(i as int);
                        }
                    }
                    assert(self@ =~= old(self)@.insert(name@, value));
                    assert(self.names() =~= old(self).names());
                }
                Some(e.1)
            },
            None => {
                let ghost key = name@;
                entries.push((name, value));
                proof {
                    let t = NameMap { entries };
                    assert(t.names_distinct()) by {
                        assert forall|a: int, b: int|
                            0 <= a < b < entries@.len() implies #[trigger] entries@[a].0@
                            != #[trigger] entries@[b].0@ by {
                            assert(entries@[a] == old(self).entries@[a]);
                            if b < before.len() {
                                assert(old(self).entries@[a].0@ != old(self).entries@[b].0@);
                            }
                        }
                    }
                }
                self.entries = entries;
                proof {
                    assert forall|k: Seq<char>| self.has(k) == (old(self).has(k) || k == key) by {
                        if self.has(k) {
                            let p = self.spot(k);
                            if p < before.len() {
                                assert(old(self).entries@[p].0@ == k);
                            }
                        }
                        if old(self).has(k) {
                            assert(self.entries@[old(self).spot(k)].0@ == k);
                        }
                        if k == key {
                            assert(self.entries@[before.len() as int].0@ == k);
                        }
                    }
                    assert forall|k: Seq<char>| self.has(k) implies self@[k] == old(self)@.insert(
                        key,
                        value,
                    )[k] by {
                        let p = self.spot(k);
                        self.lemma_spot(p);
                        if p < before.len() {
                            old(self).lemma_spot(p);
                        }
                    }
                    assert(self@ =~= old(self)@.insert(key, value));
                    assert(self.names() =~= old(self).names().push(key));
                }
                None
            },
        }
    }

    /// Forgets every name.
    pub fn clear(&mut self)
        ensures
            final(self)@ == Map::<Seq<char>, V>::empty(),
            final(self).names() == Seq::<Seq<char>>::empty(),
    {
        self.entries = Vec::new();
        assert(self@ =~= Map::<Seq<char>, V>::empty());
        assert(self.names() =~= Seq::<Seq<char>>::empty());
    }
}

} // verus!
