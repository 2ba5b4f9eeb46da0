//! A map from names to values that keeps the order in which the names were
//! first used.

use vstd::prelude::*;

verus! {

/// Values by name. A name has one value; the names are kept in the order in
/// which they were first used.
#[derive(Debug, Clone)]
pub struct StrMap<V> {
    entries: Vec<(String, V)>,
}

/// The place of `key` among the names of `pairs`.
pub open spec fn place_in<V>(pairs: Seq<(String, V)>, key: Seq<char>) -> int {
    choose|i: int| 0 <= i < pairs.len() && pairs[i].0@ == key
}

/// Whether `key` is among the names of `pairs`.
pub open spec fn named_in<V>(pairs: Seq<(String, V)>, key: Seq<char>) -> bool {
    exists|i: int| 0 <= i < pairs.len() && pairs[i].0@ == key
}

/// The names of `pairs`, in their order.
pub open spec fn names_of<V>(pairs: Seq<(String, V)>) -> Seq<Seq<char>> {
    Seq::new(pairs.len(), |i: int| pairs[i].0@)
}

impl<V> View for StrMap<V> {
    type V = Map<Seq<char>, V>;

    closed spec fn view(&self) -> Map<Seq<char>, V> {
        Map::new(
            |key: Seq<char>| named_in(self.entries@, key),
            |key: Seq<char>| self.entries@[place_in(self.entries@, key)].1,
        )
    }
}

impl<V> StrMap<V> {
    /// The names and values as pairs, in the order in which the names were
    /// first used.
    pub closed spec fn pairs(&self) -> Seq<(String, V)> {
        self.entries@
    }

    /// No name occurs twice, and the view holds what the pairs hold.
    pub closed spec fn wf(&self) -> bool {
        &&& forall|i: int, j: int|
            0 <= i < j < self.entries@.len() ==> self.entries@[i].0@ != self.entries@[j].0@
    }

    /// What the view says of a well-formed map: it holds the pairs, and
    /// nothing else.
    pub proof fn lemma_view(&self)
        requires
            self.wf(),
        ensures
            forall|i: int|
                0 <= i < self.pairs().len() ==> self@.dom().contains(#[trigger] self.pairs()[i].0@)
                    && self@[self.pairs()[i].0@] == self.pairs()[i].1,
            forall|key: Seq<char>| self@.dom().contains(key) ==> named_in(self.pairs(), key),
            forall|i: int, j: int|
                0 <= i < j < self.pairs().len() ==> self.pairs()[i].0@ != self.pairs()[j].0@,
    {
        assert forall|i: int| 0 <= i < self.pairs().len() implies self@.dom().contains(
            #[trigger] self.pairs()[i].0@,
        ) && self@[self.pairs()[i].0@] == self.pairs()[i].1 by {
            let key = self.entries@[i].0@;
            let n = place_in(self.entries@, key);
            assert(self.entries@[n].0@ == key);
            if n < i {
                assert(self.entries@[n].0@ != self.entries@[i].0@);
            } else if n > i {
                assert(self.entries@[i].0@ != self.entries@[n].0@);
            }
        }
    }

    /// Where a name of the map stands among the pairs, and that the view
    /// holds the value that stands there.
    pub proof fn lemma_place(&self, key: Seq<char>)
        requires
            self.wf(),
            self@.dom().contains(key),
        ensures
            0 <= place_in(self.pairs(), key) < self.pairs().len(),
            self.pairs()[place_in(self.pairs(), key)].0@ == key,
            self.pairs()[place_in(self.pairs(), key)].1 == self@[key],
    {
        assert(named_in(self.entries@, key));
    }

    /// An empty map.
    pub fn new() -> (map: StrMap<V>)
        ensures
            map.wf(),
            map@ == Map::<Seq<char>, V>::empty(),
            map.pairs().len() == 0,
    {
        let map = StrMap { entries: Vec::new() };
        assert(map@ =~= Map::<Seq<char>, V>::empty());
        map
    }

    /// How many names have a value.
    pub fn len(&self) -> (count: usize)
        ensures
            count == self.pairs().len(),
    {
        self.entries.len()
    }

    /// The place of `key` among the pairs.
    fn find(&self, key: &str) -> (found: Option<usize>)
        requires
            self.wf(),
        ensures
            match found {
                Some(i) => i < self.entries@.len() && self.entries@[i as int].0@ == key@ && place_in(
                    self.entries@,
                    key@,
                ) == i,
                None => !named_in(self.entries@, key@),
            },
    {
        let wanted: String = key.to_owned();
        let mut i: usize = 0;
        while i < self.entries.len()
            invariant
                0 <= i <= self.entries.len(),
                wanted@ == key@,
                self.wf(),
                forall|k: int| 0 <= k < i ==> self.entries@[k].0@ != key@,
            decreases self.entries.len() - i,
        {
            if self.entries[i].0 == wanted {
                proof {
                    let n = place_in(self.entries@, key@);
                    assert(self.entries@[i as int].0@ == key@);
                    assert(self.entries@[n].0@ == key@);
                    assert(n == i) by {
                        if n < i {
                            assert(self.entries@[n].0@ != key@);
                        } else if n > i {
                            assert(self.entries@[i as int].0@ != self.entries@[n].0@);
                        }
                    }
                }
                return Some(i);
            }
            i = i + 1;
        }
        None
    }

    /// Whether `key` has a value.
    pub fn contains_key(&self, key: &str) -> (yes: bool)
        requires
            self.wf(),
        ensures
            yes == self@.dom().contains(key@),
    {
        self.find(key).is_some()
    }

    /// The value under `key`.
    pub fn get(&self, key: &str) -> (value: Option<&V>)
        requires
            self.wf(),
        ensures
            match value {
                Some(v) => self@.dom().contains(key@) && self@[key@] == *v,
                None => !self@.dom().contains(key@),
            },
    {
        match self.find(key) {
            Some(i) => Some(&self.entries[i].1),
            None => None,
        }
    }

    /// Puts `value` under `key`, in place of an earlier value under that
    /// name. A new name comes after the names that are there.
    pub fn insert(&mut self, key: &str, value: V)
        requires
            old(self).wf(),
        ensures
            final(self).wf(),
            final(self)@ == old(self)@.insert(key@, value),
            names_of(final(self).pairs()) == (if old(self)@.dom().contains(key@) {
                names_of(old(self).pairs())
            } else {
                names_of(old(self).pairs()).push(key@)
            }),
    {
        match self.find(key) {
            Some(i) => {
                self.entries[i] = (key.to_owned(), value);
                proof {
                    assert forall|k: Seq<char>| named_in(self.entries@, k) == named_in(
                        old(self).entries@,
                        k,
                    ) by {
                        if named_in(self.entries@, k) {
                            let n = choose|n: int|
                                0 <= n < self.entries@.len() && self.entries@[n].0@ == k;
                            assert(old(self).entries@[n].0@ == k);
                        }
                        if named_in(old(self).entries@, k) {
                            let n = choose|n: int|
                                0 <= n < old(self).entries@.len() && old(self).entries@[n].0@ == k;
                            assert(self.entries@[n].0@ == k);
                        }
                    }
                    assert forall|k: Seq<char>| named_in(self.entries@, k) implies self@[k] == old(
                        self,
                    )@.insert(key@, value)[k] by {
                        let n = place_in(self.entries@, k);
                        let m = place_in(old(self).entries@, k);
                        assert(old(self).entries@[n].0@ == k);
                        assert(n == m);
                    }
                    assert(self@ =~= old(self)@.insert(key@, value));
                    assert(names_of(self.pairs()) =~= names_of(old(self).pairs()));
                }
            },
            None => {
                self.entries.push((key.to_owned(), value));
                proof {
                    let last = old(self).entries@.len() as int;
                    assert(self.entries@[last].0@ == key@);
                    assert forall|k: Seq<char>| named_in(self.entries@, k) == (named_in(
                        old(self).entries@,
                        k,
                    ) || k == key@) by {
                        if named_in(self.entries@, k) && k != key@ {
                            let n = choose|n: int|
                                0 <= n < self.entries@.len() && self.entries@[n].0@ == k;
                            assert(old(self).entries@[n].0@ == k);
                        }
                        if named_in(old(self).entries@, k) {
                            let n = choose|n: int|
                                0 <= n < old(self).entries@.len() && old(self).entries@[n].0@ == k;
                            assert(self.entries@[n].0@ == k);
                        }
                    }
                    assert forall|k: Seq<char>| named_in(self.entries@, k) implies self@[k] == old(
                        self,
                    )@.insert(key@, value)[k] by {
                        let n = place_in(self.entries@, k);
                        if k != key@ {
                            let m = place_in(old(self).entries@, k);
                            assert(old(self).entries@[n].0@ == k);
                            assert(self.entries@[m].0@ == k);
                            assert(n == m);
                        } else {
                            assert(n == last);
                        }
                    }
                    assert(self@ =~= old(self)@.insert(key@, value));
                    assert(names_of(self.pairs()) =~= names_of(old(self).pairs()).push(key@));
                }
            },
        }
    }

    /// The names, in the order in which they were first used.
    pub fn keys(&self) -> (names: Vec<String>)
        ensures
            Seq::new(names@.len(), |i: int| names@[i]@) == names_of(self.pairs()),
    {
        let mut names: Vec<String> = Vec::new();
        let mut i: usize = 0;
        while i < self.entries.len()
            invariant
                0 <= i <= self.entries.len(),
                names@.len() == i,
                forall|k: int| 0 <= k < i ==> names@[k]@ == self.entries@[k].0@,
            decreases self.entries.len() - i,
        {
            names.push(self.entries[i].0.clone());
            i = i + 1;
        }
        assert(Seq::new(names@.len(), |i: int| names@[i]@) =~= names_of(self.pairs()));
        names
    }

    /// The names and values as pairs.
    pub fn entries(&self) -> (entries: &Vec<(String, V)>)
        ensures
            entries@ == self.pairs(),
    {
        &self.entries
    }
}

impl<V> StrMap<V> {
    /// The place of the value under `key` among the pairs.
    pub fn position(&self, key: &str) -> (found: Option<usize>)
        requires
            self.wf(),
        ensures
            match found {
                Some(i) => i < self.pairs().len() && self.pairs()[i as int].0@ == key@
                    && self@.dom().contains(key@) && self@[key@] == self.pairs()[i as int].1,
                None => !self@.dom().contains(key@),
            },
    {
        self.find(key)
    }

    /// The value at a place among the pairs, to change it. The name stays.
    pub fn value_at_mut(&mut self, place: usize) -> (value: &mut V)
        requires
            old(self).wf(),
            place < old(self).pairs().len(),
        ensures
            *value == old(self).pairs()[place as int].1,
            final(self).wf(),
            final(self).pairs().len() == old(self).pairs().len(),
            final(self).pairs()[place as int].0 == old(self).pairs()[place as int].0,
            final(self).pairs()[place as int].1 == *final(value),
            forall|i: int|
                0 <= i < old(self).pairs().len() && i != place ==> #[trigger] final(self).pairs()[i]
                    == old(self).pairs()[i],
            final(self)@ == old(self)@.insert(old(self).pairs()[place as int].0@, *final(value)),
    {
        proof {
            self.lemma_view();
        }
        let ghost before = self.entries@;
        let entry = &mut self.entries[place];
        let value = &mut entry.1;
        proof {
            let after = before.update(place as int, (before[place as int].0, *final(value)));
            assert forall|key: Seq<char>| named_in(after, key) == named_in(before, key) by {
                if named_in(after, key) {
                    let n = choose|n: int| 0 <= n < after.len() && after[n].0@ == key;
                    assert(before[n].0@ == key);
                }
                if named_in(before, key) {
                    let n = choose|n: int| 0 <= n < before.len() && before[n].0@ == key;
                    assert(after[n].0@ == key);
                }
            }
        }
        value
    }

    /// Takes the value under `key` away and returns it.
    pub fn remove(&mut self, key: &str) -> (taken: Option<V>)
        requires
            old(self).wf(),
        ensures
            final(self).wf(),
            final(self)@ == old(self)@.remove(key@),
            match taken {
                Some(v) => old(self)@.dom().contains(key@) && old(self)@[key@] == v,
                None => !old(self)@.dom().contains(key@),
            },
    {
        match self.find(key) {
            Some(i) => {
                let ghost before = self.entries@;
                let pair = self.entries.remove(i);
                proof {
                    let after = self.entries@;
                    assert forall|k: int| 0 <= k < after.len() implies after[k] == (if k < i {
                        before[k]
                    } else {
                        before[k + 1]
                    }) by {}
                    assert forall|a: int, b: int| 0 <= a < b < after.len() implies after[a].0@
                        != after[b].0@ by {
                        let x = if a < i {
                            a
                        } else {
                            a + 1
                        };
                        let y = if b < i {
                            b
                        } else {
                            b + 1
                        };
                        assert(before[x].0@ != before[y].0@);
                    }
                    assert forall|name: Seq<char>| named_in(after, name) == (named_in(before, name)
                        && name != key@) by {
                        if named_in(after, name) {
                            let n = choose|n: int| 0 <= n < after.len() && after[n].0@ == name;
                            let x = if n < i {
                                n
                            } else {
                                n + 1
                            };
                            assert(before[x].0@ == name);
                            if x < i {
                                assert(before[x].0@ != before[i as int].0@);
                            } else {
                                assert(before[i as int].0@ != before[x].0@);
                            }
                        }
                        if named_in(before, name) && name != key@ {
                            let n = choose|n: int| 0 <= n < before.len() && before[n].0@ == name;
                            let x = if n < i {
                                n
                            } else {
                                n - 1
                            };
                            assert(after[x].0@ == name);
                        }
                    }
                    assert forall|name: Seq<char>| named_in(after, name) implies self@[name] == old(
                        self,
                    )@[name] by {
                        let n = place_in(after, name);
                        let m = place_in(before, name);
                        let x = if n < i {
                            n
                        } else {
                            n + 1
                        };
                        assert(before[x].0@ == name);
                        assert(before[m].0@ == name);
                        if x < m {
                            assert(before[x].0@ != before[m].0@);
                        } else if m < x {
                            assert(before[m].0@ != before[x].0@);
                        }
                    }
                    assert(self@ =~= old(self)@.remove(key@));
                }
                Some(pair.1)
            },
            None => {
                assert(self@ =~= old(self)@.remove(key@));
                None
            },
        }
    }

    /// Takes every value away.
    pub fn clear(&mut self)
        ensures
            final(self).wf(),
            final(self)@ == Map::<Seq<char>, V>::empty(),
            final(self).pairs().len() == 0,
    {
        self.entries.clear();
        assert(self@ =~= Map::<Seq<char>, V>::empty());
    }
}

} // verus!
