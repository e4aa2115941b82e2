use vstd::prelude::*;

verus! {

/// A finite mapping from names to values that remembers the order in which
/// the names were first inserted.
#[derive(Debug)]
pub struct NameMap<T> {
    entries: Vec<(String, T)>,
}

impl<T> View for NameMap<T> {
    type V = Map<Seq<char>, T>;

    /// The mapping itself: each name of `keys()` is bound to the value that
    /// stands beside it.
    open spec fn view(&self) -> Map<Seq<char>, T> {
        Map::new(
            |name: Seq<char>| self.keys().contains(name),
            |name: Seq<char>| self.values()[self.keys().index_of(name)],
        )
    }
}

impl<T> NameMap<T> {
    /// No name stands twice among the entries.
    #[verifier::type_invariant]
    spec fn distinct_names(self) -> bool {
        forall|i: int, j: int|
            0 <= i < j < self.entries.len() ==> self.entries[i].0@ != self.entries[j].0@
    }

    /// The names, in the order of their first insertion.
    pub closed spec fn keys(self) -> Seq<Seq<char>> {
        Seq::new(self.entries.len() as nat, |i: int| self.entries[i].0@)
    }

    /// The values, each at the position of its name in `keys()`.
    pub closed spec fn values(self) -> Seq<T> {
        Seq::new(self.entries.len() as nat, |i: int| self.entries[i].1)
    }

    /// A mapping without names.
    pub fn new() -> (map: Self)
        ensures
            map.keys() == Seq::<Seq<char>>::empty(),
            map.values() == Seq::<T>::empty(),
            map@ == Map::<Seq<char>, T>::empty(),
    {
        let map = NameMap { entries: Vec::new() };
        assert(map.keys() =~= Seq::<Seq<char>>::empty());
        assert(map.values() =~= Seq::<T>::empty());
        assert(map@ =~= Map::<Seq<char>, T>::empty());
        map
    }

    /// How many names are bound. No name is bound twice.
    pub fn len(&self) -> (n: usize)
        ensures
            n == self.keys().len(),
            n == self.values().len(),
            self.keys().no_duplicates(),
    {
        proof {
            use_type_invariant(self);
        }
        self.entries.len()
    }

    /// The position of `name` among the names.
    fn find(&self, name: &str) -> (found: Option<usize>)
        ensures
            match found {
                Some(i) => i < self.keys().len() && self.keys()[i as int] == name@,
                None => !self.keys().contains(name@),
            },
    {
        let wanted = name.to_owned();
        let mut i: usize = 0;
        while i < self.entries.len()
            invariant
                i <= self.entries.len(),
                wanted@ == name@,
                forall|j: int| 0 <= j < i ==> self.keys()[j] != name@,
            decreases self.entries.len() - i,
        {
            if self.entries[i].0 == wanted {
                return Some(i);
            }
            i += 1;
        }
        None
    }

    /// The value bound to `name`, if it is bound.
    pub fn get(&self, name: &str) -> (value: Option<&T>)
        ensures
            match value {
                Some(v) => self@.contains_key(name@) && *v == self@[name@],
                None => !self@.contains_key(name@),
            },
    {
        proof {
            use_type_invariant(self);
        }
        match self.find(name) {
            Some(i) => {
                assert(self.keys().index_of(name@) == i as int);
                Some(&self.entries[i].1)
            },
            None => None,
        }
    }

    /// Whether `name` is bound.
    pub fn contains_key(&self, name: &str) -> (found: bool)
        ensures
            found == self@.contains_key(name@),
    {
        self.find(name).is_some()
    }

    /// The name at position `i` of the insertion order.
    pub fn key_at(&self, i: usize) -> (name: &String)
        requires
            i < self.keys().len(),
        ensures
            name@ == self.keys()[i as int],
    {
        &self.entries[i].0
    }

    /// The value bound to the name at position `i` of the insertion order.
    pub fn value_at(&self, i: usize) -> (value: &T)
        requires
            i < self.keys().len(),
        ensures
            *value == self.values()[i as int],
            self@.contains_key(self.keys()[i as int]),
            *value == self@[self.keys()[i as int]],
    {
        proof {
            use_type_invariant(self);
            assert(self.keys().index_of(self.keys()[i as int]) == i as int);
        }
        &self.entries[i].1
    }

    /// Binds `name` to `value`. A name that is already bound keeps its place
    /// in the order and gets the new value; a new name goes to the end.
    pub fn insert(&mut self, name: String, value: T)
        ensures
            final(self)@ == old(self)@.insert(name@, value),
            final(self).keys() == if old(self)@.contains_key(name@) {
                old(self).keys()
            } else {
                old(self).keys().push(name@)
            },
    {
        proof {
            use_type_invariant(&*self);
        }
        let ghost before = *self;
        let found = self.find(name.as_str());
        let mut entries: Vec<(String, T)> = Vec::new();
        core::mem::swap(&mut self.entries, &mut entries);
        match found {
            Some(i) => {
                entries.set(i, (name, value));
                self.entries = entries;
                proof {
                    assert(self.keys() =~= before.keys());
                    assert(self.values() =~= before.values().update(i as int, value));
                    assert(before.keys().index_of(name@) == i as int);
                    assert forall|k: Seq<char>| #[trigger] self.keys().contains(k) implies self@[k]
                        == before@.insert(name@, value)[k] by {
                        let j = self.keys().index_of(k);
                        if k != name@ {
                            assert(j != i);
                        }
                    }
                    assert(self@ =~= before@.insert(name@, value));
                }
            },
            None => {
                entries.push((name, value));
                proof {
                    assert forall|i: int, j: int| 0 <= i < j < entries.len() implies entries[i].0@
                        != entries[j].0@ by {
                        assert(entries[i].0@ == before.keys()[i]);
                        if j < before.keys().len() {
                            assert(entries[j].0@ == before.keys()[j]);
                        }
                    }
                }
                self.entries = entries;
                proof {
                    assert(self.keys() =~= before.keys().push(name@));
                    assert(self.values() =~= before.values().push(value));
                    assert forall|k: Seq<char>| #[trigger] self.keys().contains(k) implies self@[k]
                        == before@.insert(name@, value)[k] by {
                        let j = self.keys().index_of(k);
                        if k != name@ {
                            assert(j < before.keys().len());
                            assert(before.keys()[j] == k);
                            assert(before.keys().index_of(k) == j);
                        } else {
                            assert(self.keys()[before.keys().len() as int] == name@);
                            assert(j == before.keys().len());
                        }
                    }
                    assert forall|k: Seq<char>| before@.insert(name@, value).contains_key(k)
                        implies self.keys().contains(k) by {
                        if k == name@ {
                            assert(self.keys()[before.keys().len() as int] == name@);
                        } else {
                            let j = before.keys().index_of(k);
                            assert(self.keys()[j] == k);
                        }
                    }
                    assert(self@ =~= before@.insert(name@, value));
                }
            },
        }
    }

    /// The position of `name` in the insertion order, if it is bound.
    pub fn position(&self, name: &str) -> (found: Option<usize>)
        ensures
            match found {
                Some(i) => i < self.keys().len() && self.keys()[i as int] == name@
                    && self@.contains_key(name@) && self@[name@] == self.values()[i as int],
                None => !self@.contains_key(name@),
            },
    {
        proof {
            use_type_invariant(self);
        }
        let found = self.find(name);
        proof {
            if let Some(i) = found {
                assert(self.keys().index_of(name@) == i as int);
            }
        }
        found
    }

    /// Puts `value` in the place of the value at position `i` and hands the
    /// former value over. The names and their order stay as they are.
    pub fn replace_at(&mut self, i: usize, value: T) -> (former: T)
        requires
            i < old(self).keys().len(),
        ensures
            former == old(self).values()[i as int],
            final(self).keys() == old(self).keys(),
            final(self).values() == old(self).values().update(i as int, value),
            final(self)@ == old(self)@.insert(old(self).keys()[i as int], value),
    {
        proof {
            use_type_invariant(&*self);
        }
        let ghost before = *self;
        let mut entries: Vec<(String, T)> = Vec::new();
        core::mem::swap(&mut self.entries, &mut entries);
        let mut held = value;
        core::mem::swap(&mut entries[i].1, &mut held);
        self.entries = entries;
        proof {
            let name = before.keys()[i as int];
            assert(self.keys() =~= before.keys());
            assert(self.values() =~= before.values().update(i as int, value));
            assert(before.keys().index_of(name) == i as int);
            assert forall|k: Seq<char>| #[trigger] self.keys().contains(k) implies self@[k]
                == before@.insert(name, value)[k] by {
                let j = self.keys().index_of(k);
                if k != name {
                    assert(j != i);
                }
            }
            assert(self@ =~= before@.insert(name, value));
        }
        held
    }

    /// Takes the binding of `name` out of the mapping and hands its value over.
    pub fn remove(&mut self, name: &str) -> (value: Option<T>)
        ensures
            final(self)@ == old(self)@.remove(name@),
            final(self).keys() == without(old(self).keys(), name@),
            match value {
                Some(v) => old(self)@.contains_key(name@) && v == old(self)@[name@],
                None => !old(self)@.contains_key(name@),
            },
    {
        proof {
            use_type_invariant(&*self);
        }
        let ghost before = *self;
        match self.find(name) {
            Some(i) => {
                let mut entries: Vec<(String, T)> = Vec::new();
                core::mem::swap(&mut self.entries, &mut entries);
                let entry = entries.remove(i);
                self.entries = entries;
                proof {
                    assert(before.keys().index_of(name@) == i as int);
                    assert(self.keys() =~= before.keys().remove(i as int));
                    assert(self.values() =~= before.values().remove(i as int));
                    assert forall|k: Seq<char>| #[trigger] self.keys().contains(k) implies 
                        before.keys().contains(k) && k != name@ && self@[k] == before@[k] by {
                        let j = self.keys().index_of(k);
                        let j0 = if j < i { j } else { j + 1 };
                        assert(before.keys()[j0] == k);
                        assert(before.keys().index_of(k) == j0);
                    }
                    assert forall|k: Seq<char>| before.keys().contains(k) && k != name@ implies 
                        self.keys().contains(k) by {
                        let j0 = before.keys().index_of(k);
                        let j = if j0 < i { j0 } else { j0 - 1 };
                        assert(self.keys()[j] == k);
                    }
                    assert(self@ =~= before@.remove(name@));
                    lemma_filter_removes(before.keys(), name@, i as int);
                }
                Some(entry.1)
            },
            None => {
                proof {
                    assert(self@ =~= before@.remove(name@));
                    lemma_filter_keeps(before.keys(), name@);
                }
                None
            },
        }
    }
}

/// The names of `names` other than `name`, in their order.
pub open spec fn without(names: Seq<Seq<char>>, name: Seq<char>) -> Seq<Seq<char>> {
    names.filter(|k: Seq<char>| k != name)
}

/// Filtering a name out of a sequence that does not hold it changes nothing.
proof fn lemma_filter_keeps(names: Seq<Seq<char>>, name: Seq<char>)
    requires
        !names.contains(name),
    ensures
        without(names, name) == names,
    decreases names.len(),
{
    reveal(Seq::filter);
    if names.len() > 0 {
        let front = names.drop_last();
        assert forall|k: Seq<char>| front.contains(k) implies names.contains(k) by {
            let j = front.index_of(k);
            assert(names[j] == k);
        }
        assert(names.last() != name) by {
            assert(names[names.len() - 1] == names.last());
        }
        lemma_filter_keeps(front, name);
        assert(front.push(names.last()) =~= names);
    }
}

/// Filtering out the one name that stands at `i` removes position `i`.
proof fn lemma_filter_removes(names: Seq<Seq<char>>, name: Seq<char>, i: int)
    requires
        names.no_duplicates(),
        0 <= i < names.len(),
        names[i] == name,
    ensures
        without(names, name) == names.remove(i),
    decreases names.len(),
{
    reveal(Seq::filter);
    let front = names.drop_last();
    if i == names.len() - 1 {
        assert(!front.contains(name)) by {
            if front.contains(name) {
                let j = front.index_of(name);
                assert(names[j] == name);
            }
        }
        lemma_filter_keeps(front, name);
        assert(names.remove(i) =~= front);
    } else {
        lemma_filter_removes(front, name, i);
        assert(names.last() != name);
        assert(front.remove(i).push(names.last()) =~= names.remove(i));
    }
}

} // verus!
