//! A small map from names to values that remembers the order in which its
//! names first came.

use vstd::prelude::*;

verus! {

/// A map keyed by strings. No name occurs twice; a value set under a name
/// that is already there takes the place of the old one. The entries keep
/// the order in which their names were first set.
#[derive(Clone, Debug, PartialEq, Eq)]
pub struct NameMap<V> {
    names: Vec<String>,
    values: Vec<V>,
}

impl<V> NameMap<V> {
    /// The names, in the order in which they were first set.
    pub closed spec fn names(&self) -> Seq<Seq<char>> {
        self.names@.map_values(|s: String| s@)
    }

    /// The values, each at the position of its name.
    pub closed spec fn values(&self) -> Seq<V> {
        self.values@
    }

    /// Every name has one value and occurs once.
    pub open spec fn wf(&self) -> bool {
        &&& self.names().len() == self.values().len()
        &&& self.names().no_duplicates()
    }

    /// The position of `name` among the names, if it is one of them.
    pub open spec fn position(&self, name: Seq<char>) -> Option<int> {
        if self.names().contains(name) {
            Some(self.names().index_of(name))
        } else {
            None
        }
    }

    /// The value that `name` stands for, if any.
    pub open spec fn lookup(&self, name: Seq<char>) -> Option<V> {
        match self.position(name) {
            Some(i) => Some(self.values()[i]),
            None => None,
        }
    }

    /// In a well-formed map, a name found at some position has that position.
    pub proof fn lemma_position(&self, name: Seq<char>, i: int)
        requires
            self.wf(),
            0 <= i < self.names().len(),
            self.names()[i] == name,
        ensures
            self.position(name) == Some(i),
            self.lookup(name) == Some(self.values()[i]),
    {
        assert(self.names().contains(name));
    }

    /// An empty map.
    pub fn new() -> (r: NameMap<V>)
        ensures
            r.wf(),
            r.names() == Seq::<Seq<char>>::empty(),
            r.values() == Seq::<V>::empty(),
    {
        let r = NameMap { names: Vec::new(), values: Vec::new() };
        proof {
            assert(r.names() =~= Seq::<Seq<char>>::empty());
        }
        r
    }

    /// The number of names.
    pub fn len(&self) -> (n: usize)
        requires
            self.wf(),
        ensures
            n == self.names().len(),
    {
        self.names.len()
    }

    /// The name at position `i`.
    pub fn name_at(&self, i: usize) -> (name: &String)
        requires
            self.wf(),
            i < self.names().len(),
        ensures
            name@ == self.names()[i as int],
    {
        &self.names[i]
    }

    /// The value at position `i`.
    pub fn value_at(&self, i: usize) -> (value: &V)
        requires
            self.wf(),
            i < self.names().len(),
        ensures
            *value == self.values()[i as int],
    {
        &self.values[i]
    }

    /// Puts `value` in the place of the value at position `i`.
    pub fn set_value_at(&mut self, i: usize, value: V)
        requires
            old(self).wf(),
            i < old(self).names().len(),
        ensures
            final(self).wf(),
            final(self).names() == old(self).names(),
            final(self).values() == old(self).values().update(i as int, value),
    {
        self.values[i] = value;
    }

    /// The position of `name`, if it is in the map.
    pub fn find(&self, name: &str) -> (r: Option<usize>)
        requires
            self.wf(),
        ensures
            match r {
                Some(i) => self.position(name@) == Some(i as int) && i < self.names().len(),
                None => self.position(name@) is None,
            },
    {
        let key: String = name.to_owned();
        let mut i: usize = 0;
        while i < self.names.len()
            invariant
                self.wf(),
                key@ == name@,
                i <= self.names().len(),
                forall|k: int| 0 <= k < i ==> self.names()[k] != name@,
            decreases self.names().len() - i,
        {
            if self.names[i] == key {
                proof {
                    self.lemma_position(name@, i as int);
                }
                return Some(i);
            }
            i = i + 1;
        }
        None
    }

    /// The value that `name` stands for, if any.
    pub fn get(&self, name: &str) -> (r: Option<&V>)
        requires
            self.wf(),
        ensures
            match r {
                Some(value) => self.lookup(name@) == Some(*value),
                None => self.lookup(name@) is None,
            },
    {
        match self.find(name) {
            Some(i) => Some(&self.values[i]),
            None => None,
        }
    }

    /// Sets the value of `name`. A name that is new comes last; a name that
    /// is there keeps its position and loses its old value.
    pub fn insert(&mut self, name: String, value: V)
        requires
            old(self).wf(),
        ensures
            final(self).wf(),
            final(self).lookup(name@) == Some(value),
            match old(self).position(name@) {
                Some(i) => {
                    &&& final(self).names() == old(self).names()
                    &&& final(self).values() == old(self).values().update(i, value)
                },
                None => {
                    &&& final(self).names() == old(self).names().push(name@)
                    &&& final(self).values() == old(self).values().push(value)
                },
            },
    {
        match self.find(name.as_str()) {
            Some(i) => {
                self.values[i] = value;
                proof {
                    self.lemma_position(name@, i as int);
                }
            },
            None => {
                self.names.push(name);
                self.values.push(value);
                proof {
                    assert(self.names() =~= old(self).names().push(name@));
                    let n = old(self).names().len() as int;
                    self.lemma_position(name@, n);
                }
            },
        }
    }
}

/// The strings of `v` as values.
pub open spec fn strings_view(v: Seq<String>) -> Seq<Seq<char>> {
    v.map_values(|s: String| s@)
}

/// A copy of the strings `v`.
pub fn clone_strings(v: &Vec<String>) -> (r: Vec<String>)
    ensures
        strings_view(r@) == strings_view(v@),
{
    let mut r: Vec<String> = Vec::new();
    let mut i: usize = 0;
    while i < v.len()
        invariant
            i <= v@.len(),
            r@.len() == i,
            forall|k: int| 0 <= k < i ==> (#[trigger] r@[k])@ == v@[k]@,
        decreases v@.len() - i,
    {
        r.push(v[i].clone());
        i = i + 1;
    }
    proof {
        assert(strings_view(r@) =~= strings_view(v@));
    }
    r
}

impl NameMap<String> {
    /// A copy of the map: the same names with the same strings.
    pub fn duplicate(&self) -> (r: NameMap<String>)
        ensures
            r.names() == self.names(),
            strings_view(r.values()) == strings_view(self.values()),
            self.wf() ==> r.wf(),
    {
        let names = clone_strings(&self.names);
        let values = clone_strings(&self.values);
        let r = NameMap { names, values };
        proof {
            assert(strings_view(r.values()).len() == strings_view(self.values()).len());
        }
        r
    }
}

} // verus!
