//! An insertion-ordered dictionary keyed by text, with no name held twice.

use vstd::prelude::*;
use crate::text::str_eq;

verus! {

/// No two entries carry the same name.
pub open spec fn distinct<T>(d: Seq<(Seq<char>, T)>) -> bool {
    forall|i: int, j: int| 0 <= i < j < d.len() ==> d[i].0 != d[j].0
}

/// Some entry carries `name`.
pub open spec fn holds<T>(d: Seq<(Seq<char>, T)>, name: Seq<char>) -> bool {
    exists|i: int| 0 <= i < d.len() && d[i].0 == name
}

/// The position of an entry that carries `name`.
pub open spec fn slot<T>(d: Seq<(Seq<char>, T)>, name: Seq<char>) -> int {
    choose|i: int| 0 <= i < d.len() && d[i].0 == name
}

/// The value stored under `name`, if any.
pub open spec fn lookup<T>(d: Seq<(Seq<char>, T)>, name: Seq<char>) -> Option<T> {
    if holds(d, name) {
        Some(d[slot(d, name)].1)
    } else {
        None
    }
}

/// The entries after `v` is stored under `name`: in place where the name is
/// held, at the end where it is not.
pub open spec fn stored<T>(d: Seq<(Seq<char>, T)>, name: Seq<char>, v: T) -> Seq<(Seq<char>, T)> {
    if holds(d, name) {
        d.update(slot(d, name), (name, v))
    } else {
        d.push((name, v))
    }
}

/// The entries after `name` is dropped.
pub open spec fn dropped<T>(d: Seq<(Seq<char>, T)>, name: Seq<char>) -> Seq<(Seq<char>, T)> {
    if holds(d, name) {
        d.remove(slot(d, name))
    } else {
        d
    }
}

/// In a dictionary without repeated names, the entry found under a name is
/// the only one.
pub proof fn lemma_slot_unique<T>(d: Seq<(Seq<char>, T)>, name: Seq<char>, i: int)
    requires
        distinct(d),
        0 <= i < d.len(),
        d[i].0 == name,
    ensures
        holds(d, name),
        slot(d, name) == i,
        lookup(d, name) == Some(d[i].1),
{
    let j = slot(d, name);
    assert(0 <= j < d.len() && d[j].0 == name);
    if j < i {
        assert(d[j].0 != d[i].0);
    } else if i < j {
        assert(d[i].0 != d[j].0);
    }
}

/// Storing keeps names distinct and makes the value the one found.
pub proof fn lemma_stored<T>(d: Seq<(Seq<char>, T)>, name: Seq<char>, v: T)
    requires
        distinct(d),
    ensures
        distinct(stored(d, name, v)),
        lookup(stored(d, name, v), name) == Some(v),
        forall|other: Seq<char>| other != name ==> lookup(stored(d, name, v), other) == lookup(d, other),
{
    let s = stored(d, name, v);
    if holds(d, name) {
        let k = slot(d, name);
        assert(forall|i: int| 0 <= i < d.len() ==> s[i].0 == d[i].0);
        lemma_slot_unique(s, name, k);
        assert forall|other: Seq<char>| other != name implies lookup(s, other) == lookup(d, other) by {
            if holds(d, other) {
                let i = slot(d, other);
                lemma_slot_unique(s, other, i);
            } else if holds(s, other) {
                let i = slot(s, other);
                assert(d[i].0 == other);
            }
        }
    } else {
        assert forall|i: int, j: int| 0 <= i < j < s.len() implies s[i].0 != s[j].0 by {
            if j == d.len() {
                assert(d[i].0 != name);
            }
        }
        lemma_slot_unique(s, name, d.len() as int);
        assert forall|other: Seq<char>| other != name implies lookup(s, other) == lookup(d, other) by {
            if holds(d, other) {
                let i = slot(d, other);
                assert(s[i] == d[i]);
                lemma_slot_unique(s, other, i);
            } else if holds(s, other) {
                let i = slot(s, other);
                assert(d[i].0 == other);
            }
        }
    }
}

/// Dropping keeps names distinct and leaves nothing under the name.
pub proof fn lemma_dropped<T>(d: Seq<(Seq<char>, T)>, name: Seq<char>)
    requires
        distinct(d),
    ensures
        distinct(dropped(d, name)),
        !holds(dropped(d, name), name),
        forall|other: Seq<char>| other != name ==> lookup(dropped(d, name), other) == lookup(d, other),
{
    let s = dropped(d, name);
    if holds(d, name) {
        let k = slot(d, name);
        assert(forall|i: int| 0 <= i < s.len() ==> s[i] == (if i < k { d[i] } else { d[i + 1] }));
        assert forall|i: int, j: int| 0 <= i < j < s.len() implies s[i].0 != s[j].0 by {
            let a = if i < k { i } else { i + 1 };
            let b = if j < k { j } else { j + 1 };
            assert(d[a].0 != d[b].0);
        }
        if holds(s, name) {
            let i = slot(s, name);
            let a = if i < k { i } else { i + 1 };
            assert(d[a].0 == name);
            lemma_slot_unique(d, name, a);
        }
        assert forall|other: Seq<char>| other != name implies lookup(s, other) == lookup(d, other) by {
            if holds(d, other) {
                let i = slot(d, other);
                let a = if i < k { i } else { i - 1 };
                assert(s[a] == d[i]);
                lemma_slot_unique(s, other, a);
            } else if holds(s, other) {
                let i = slot(s, other);
                let a = if i < k { i } else { i + 1 };
                assert(d[a].0 == other);
            }
        }
    }
}

/// A dictionary from names to values of one type, in the order in which the
/// names were first stored.
pub struct Dict<V> {
    names: Vec<String>,
    vals: Vec<V>,
}

impl<V: View> View for Dict<V> {
    type V = Seq<(Seq<char>, V::V)>;

    closed spec fn view(&self) -> Seq<(Seq<char>, V::V)> {
        Seq::new(self.names@.len(), |i: int| (self.names@[i]@, self.vals@[i]@))
    }
}

impl<V: View> Dict<V> {
    /// The two columns have one length and no name occurs twice.
    pub closed spec fn wf(&self) -> bool {
        &&& self.names@.len() == self.vals@.len()
        &&& distinct(self@)
    }

    /// A well-formed dictionary holds no name twice.
    pub proof fn lemma_wf(&self)
        requires
            self.wf(),
        ensures
            distinct(self@),
    {
    }

    /// The empty dictionary.
    pub fn new() -> (r: Self)
        ensures
            r.wf(),
            r@ == Seq::<(Seq<char>, V::V)>::empty(),
    {
        let r = Dict { names: Vec::new(), vals: Vec::new() };
        assert(r@ =~= Seq::<(Seq<char>, V::V)>::empty());
        r
    }

    /// The number of entries.
    pub fn len(&self) -> (n: usize)
        requires
            self.wf(),
        ensures
            n == self@.len(),
    {
        self.names.len()
    }

    /// The name of the entry at `i`.
    pub fn name_at(&self, i: usize) -> (r: &String)
        requires
            self.wf(),
            i < self@.len(),
        ensures
            r@ == self@[i as int].0,
    {
        &self.names[i]
    }

    /// The value of the entry at `i`.
    pub fn val_at(&self, i: usize) -> (r: &V)
        requires
            self.wf(),
            i < self@.len(),
        ensures
            r@ == self@[i as int].1,
    {
        &self.vals[i]
    }

    /// The position of the entry under `name`.
    pub fn find(&self, name: &str) -> (r: Option<usize>)
        requires
            self.wf(),
        ensures
            r.is_some() == holds(self@, name@),
            r.is_some() ==> r.unwrap() == slot(self@, name@) && r.unwrap() < self@.len(),
    {
        let mut i: usize = 0;
        while i < self.names.len()
            invariant
                self.wf(),
                i <= self.names@.len(),
                forall|k: int| 0 <= k < i ==> self@[k].0 != name@,
            decreases self.names@.len() - i,
        {
            if str_eq(self.names[i].as_str(), name) {
                proof {
                    lemma_slot_unique(self@, name@, i as int);
                }
                return Some(i);
            }
            i += 1;
        }
        None
    }

    /// The value stored under `name`, if any.
    pub fn get(&self, name: &str) -> (r: Option<&V>)
        requires
            self.wf(),
        ensures
            match r {
                Some(v) => lookup(self@, name@) == Some(v@),
                None => lookup(self@, name@).is_none(),
            },
    {
        match self.find(name) {
            Some(i) => Some(&self.vals[i]),
            None => None,
        }
    }

    /// Stores `v` under `name`, in place of what the name held.
    pub fn insert(&mut self, name: String, v: V)
        requires
            old(self).wf(),
        ensures
            final(self).wf(),
            final(self)@ == stored(old(self)@, name@, v@),
    {
        proof {
            lemma_stored(self@, name@, v@);
        }
        match self.find(name.as_str()) {
            Some(i) => {
                self.names.set(i, name);
                self.vals.set(i, v);
            },
            None => {
                self.names.push(name);
                self.vals.push(v);
            },
        }
        assert(self@ =~= stored(old(self)@, name@, v@));
    }

    /// Drops the entry under `name`, if there is one.
    pub fn remove(&mut self, name: &str)
        requires
            old(self).wf(),
        ensures
            final(self).wf(),
            final(self)@ == dropped(old(self)@, name@),
    {
        proof {
            lemma_dropped(self@, name@);
        }
        match self.find(name) {
            Some(i) => {
                self.names.remove(i);
                self.vals.remove(i);
            },
            None => {},
        }
        assert(self@ =~= dropped(old(self)@, name@));
    }

    /// Drops every entry.
    pub fn clear(&mut self)
        requires
            old(self).wf(),
        ensures
            final(self).wf(),
            final(self)@ == Seq::<(Seq<char>, V::V)>::empty(),
    {
        self.names.clear();
        self.vals.clear();
        assert(self@ =~= Seq::<(Seq<char>, V::V)>::empty());
    }
}

} // verus!
