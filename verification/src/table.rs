//! A table from names to values, kept in the order in which the names came.
//! No name stands in it twice.

use crate::text::text_eq;
use vstd::prelude::*;

verus! {

/// A table from names to values of one type.
pub struct Table<V> {
    entries: Vec<(String, V)>,
}

/// Whether `name` stands among the entries.
pub open spec fn listed<V>(entries: Seq<(String, V)>, name: Seq<char>) -> bool {
    exists|i: int| 0 <= i < entries.len() && (#[trigger] entries[i]).0@ == name
}

/// Where `name` stands among the entries.
pub open spec fn place<V>(entries: Seq<(String, V)>, name: Seq<char>) -> int {
    choose|i: int| 0 <= i < entries.len() && (#[trigger] entries[i]).0@ == name
}

/// No name stands among the entries twice.
pub open spec fn distinct<V>(entries: Seq<(String, V)>) -> bool {
    forall|i: int, j: int|
        0 <= i < entries.len() && 0 <= j < entries.len() && (#[trigger] entries[i]).0@ == (
        #[trigger] entries[j]).0@ ==> i == j
}

/// The entries as a map from each name to its value.
pub open spec fn as_map<V>(entries: Seq<(String, V)>) -> Map<Seq<char>, V> {
    Map::new(|name: Seq<char>| listed(entries, name), |name: Seq<char>| entries[place(entries, name)].1)
}

/// With no name twice, the map holds each entry under its name.
proof fn lemma_as_map_at<V>(entries: Seq<(String, V)>, i: int)
    requires
        distinct(entries),
        0 <= i < entries.len(),
    ensures
        as_map(entries).contains_key(entries[i].0@),
        as_map(entries)[entries[i].0@] == entries[i].1,
        place(entries, entries[i].0@) == i,
{
    assert(listed(entries, entries[i].0@));
}

/// A new name, wherever it is put, adds one pair to the map.
proof fn lemma_as_map_insert<V>(entries: Seq<(String, V)>, at: int, name: String, value: V)
    requires
        distinct(entries),
        !listed(entries, name@),
        0 <= at <= entries.len(),
    ensures
        distinct(entries.insert(at, (name, value))),
        as_map(entries.insert(at, (name, value))) == as_map(entries).insert(name@, value),
{
    let after = entries.insert(at, (name, value));
    assert(after[at] == (name, value));
    assert forall|a: int| 0 <= a < after.len() && a != at implies #[trigger] after[a]
        == entries[if a < at {
        a
    } else {
        a - 1
    }] by {}
    assert(distinct(after)) by {
        assert forall|i: int, j: int|
            0 <= i < after.len() && 0 <= j < after.len() && (#[trigger] after[i]).0@ == (
            #[trigger] after[j]).0@ implies i == j by {
            let i2 = if i < at {
                i
            } else {
                i - 1
            };
            let j2 = if j < at {
                j
            } else {
                j - 1
            };
            if i != at && j != at {
                assert(entries[i2].0@ == entries[j2].0@);
            } else if i != at {
                assert(entries[i2].0@ == name@);
            } else if j != at {
                assert(entries[j2].0@ == name@);
            }
        }
    }
    assert forall|k: Seq<char>| as_map(after).contains_key(k) <==> as_map(entries).insert(
        name@,
        value,
    ).contains_key(k) by {
        if listed(after, k) {
            let i = place(after, k);
            if i != at {
                assert(entries[if i < at {
                    i
                } else {
                    i - 1
                }].0@ == k);
            }
        }
        if listed(entries, k) {
            let i = place(entries, k);
            assert(after[if i < at {
                i
            } else {
                i + 1
            }].0@ == k);
        }
        if k == name@ {
            assert(after[at].0@ == k);
        }
    }
    assert forall|k: Seq<char>| as_map(after).contains_key(k) implies as_map(after)[k]
        == as_map(entries).insert(name@, value)[k] by {
        let i = place(after, k);
        lemma_as_map_at(after, i);
        if k != name@ {
            let i2 = if i < at {
                i
            } else {
                i - 1
            };
            assert(entries[i2].0@ == k);
            lemma_as_map_at(entries, i2);
        } else {
            lemma_as_map_at(after, at);
        }
    }
    assert(as_map(after) =~= as_map(entries).insert(name@, value));
}

/// Taking an entry out takes its pair out of the map.
proof fn lemma_as_map_remove<V>(entries: Seq<(String, V)>, i: int)
    requires
        distinct(entries),
        0 <= i < entries.len(),
    ensures
        distinct(entries.remove(i)),
        as_map(entries.remove(i)) == as_map(entries).remove(entries[i].0@),
        !listed(entries.remove(i), entries[i].0@),
{
    let after = entries.remove(i);
    let name = entries[i].0@;
    assert forall|a: int| 0 <= a < after.len() implies #[trigger] after[a] == entries[if a < i {
        a
    } else {
        a + 1
    }] by {}
    assert(distinct(after)) by {
        assert forall|a: int, b: int|
            0 <= a < after.len() && 0 <= b < after.len() && (#[trigger] after[a]).0@ == (
            #[trigger] after[b]).0@ implies a == b by {
            let a2 = if a < i {
                a
            } else {
                a + 1
            };
            let b2 = if b < i {
                b
            } else {
                b + 1
            };
            assert(entries[a2].0@ == entries[b2].0@);
        }
    }
    assert(!listed(after, name)) by {
        if listed(after, name) {
            let a = place(after, name);
            let a2 = if a < i {
                a
            } else {
                a + 1
            };
            assert(entries[a2].0@ == entries[i].0@);
        }
    }
    assert forall|k: Seq<char>| as_map(after).contains_key(k) <==> as_map(entries).remove(
        name,
    ).contains_key(k) by {
        if listed(after, k) {
            let a = place(after, k);
            let a2 = if a < i {
                a
            } else {
                a + 1
            };
            assert(entries[a2].0@ == k);
        }
        if listed(entries, k) && k != name {
            let e = place(entries, k);
            let e2 = if e < i {
                e
            } else {
                e - 1
            };
            assert(after[e2].0@ == k);
        }
    }
    assert forall|k: Seq<char>| as_map(after).contains_key(k) implies as_map(after)[k] == as_map(
        entries,
    ).remove(name)[k] by {
        let a = place(after, k);
        let a2 = if a < i {
            a
        } else {
            a + 1
        };
        assert(entries[a2].0@ == k);
        lemma_as_map_at(entries, a2);
        lemma_as_map_at(after, a);
    }
    assert(as_map(after) =~= as_map(entries).remove(name));
}

impl<V> Table<V> {
    /// What every table is: no name stands in it twice.
    #[verifier::type_invariant]
    pub closed spec fn wf(&self) -> bool {
        distinct(self.entries@)
    }

    /// The table as a map from each name to its value.
    pub closed spec fn view(&self) -> Map<Seq<char>, V> {
        as_map(self.entries@)
    }

    /// The names in the order in which they came.
    pub closed spec fn order(&self) -> Seq<Seq<char>> {
        self.entries@.map_values(|e: (String, V)| e.0@)
    }

    /// The order holds the names of the map, each once.
    pub proof fn lemma_order(self)
        requires
            self.wf(),
        ensures
            forall|name: Seq<char>| self@.contains_key(name) <==> self.order().contains(name),
            self.order().no_duplicates(),
    {
        assert forall|name: Seq<char>| self@.contains_key(name) <==> self.order().contains(
            name,
        ) by {
            if self@.contains_key(name) {
                let i = place(self.entries@, name);
                assert(self.order()[i] == name);
            }
            if self.order().contains(name) {
                let i = choose|i: int| 0 <= i < self.order().len() && self.order()[i] == name;
                assert(self.entries@[i].0@ == name);
            }
        }
        assert forall|i: int, j: int|
            0 <= i < self.order().len() && 0 <= j < self.order().len() && i != j implies self.order()[i]
            != self.order()[j] by {
            assert(self.entries@[i].0@ == self.order()[i]);
            assert(self.entries@[j].0@ == self.order()[j]);
        }
    }

    pub fn new() -> (r: Self)
        ensures
            r@ == Map::<Seq<char>, V>::empty(),
            r.order() == Seq::<Seq<char>>::empty(),
    {
        let r = Table { entries: Vec::new() };
        assert(r@ =~= Map::<Seq<char>, V>::empty());
        assert(r.order() =~= Seq::<Seq<char>>::empty());
        r
    }

    fn find(&self, name: &str) -> (r: Option<usize>)
        ensures
            distinct(self.entries@),
            r is Some <==> self@.contains_key(name@),
            r matches Some(i) ==> {
                &&& i < self.entries@.len()
                &&& self.entries@[i as int].0@ == name@
                &&& self@[name@] == self.entries@[i as int].1
            },
            r is None ==> !listed(self.entries@, name@),
    {
        proof {
            use_type_invariant(self);
        }
        let mut i: usize = 0;
        while i < self.entries.len()
            invariant
                i <= self.entries@.len(),
                distinct(self.entries@),
                forall|j: int| 0 <= j < i ==> (#[trigger] self.entries@[j]).0@ != name@,
            decreases self.entries@.len() - i,
        {
            if text_eq(self.entries[i].0.as_str(), name) {
                proof {
                    lemma_as_map_at(self.entries@, i as int);
                }
                return Some(i);
            }
            i = i + 1;
        }
        None
    }

    /// How many names the table holds.
    pub fn len(&self) -> (r: usize)
        ensures
            r == self.order().len(),
    {
        self.entries.len()
    }

    /// The name at a place of the order.
    pub fn name_at(&self, i: usize) -> (r: &str)
        requires
            i < self.order().len(),
        ensures
            r@ == self.order()[i as int],
            self@.contains_key(r@),
    {
        proof {
            use_type_invariant(self);
            lemma_as_map_at(self.entries@, i as int);
        }
        self.entries[i].0.as_str()
    }

    pub fn contains(&self, name: &str) -> (r: bool)
        ensures
            r == self@.contains_key(name@),
    {
        self.find(name).is_some()
    }

    pub fn get(&self, name: &str) -> (r: Option<&V>)
        ensures
            r is Some <==> self@.contains_key(name@),
            r matches Some(value) ==> *value == self@[name@],
    {
        match self.find(name) {
            Some(i) => Some(&self.entries[i].1),
            None => None,
        }
    }

    /// Puts a value under a name and hands out the value that stood there. A
    /// name that the table holds keeps its place in the order; a new name goes
    /// to the end.
    pub fn put(&mut self, name: String, value: V) -> (r: Option<V>)
        ensures
            final(self)@ == old(self)@.insert(name@, value),
            r is Some <==> old(self)@.contains_key(name@),
            r matches Some(was) ==> was == old(self)@[name@],
            final(self).order() == if old(self)@.contains_key(name@) {
                old(self).order()
            } else {
                old(self).order().push(name@)
            },
    {
        let found = self.find(name.as_str());
        let ghost before = self.entries@;
        let mut entries: Vec<(String, V)> = Vec::new();
        core::mem::swap(&mut entries, &mut self.entries);
        match found {
            None => {
                proof {
                    lemma_as_map_insert(before, before.len() as int, name, value);
                    assert(before.insert(before.len() as int, (name, value)) =~= before.push(
                        (name, value),
                    ));
                    assert(before.push((name, value)).map_values(|e: (String, V)| e.0@)
                        =~= before.map_values(|e: (String, V)| e.0@).push(name@));
                }
                entries.push((name, value));
                self.entries = entries;
                None
            },
            Some(i) => {
                proof {
                    lemma_as_map_remove(before, i as int);
                    lemma_as_map_insert(before.remove(i as int), i as int, name, value);
                    assert(as_map(before).remove(name@).insert(name@, value) =~= as_map(
                        before,
                    ).insert(name@, value));
                    assert(before.remove(i as int).insert(i as int, (name, value)).map_values(
                        |e: (String, V)| e.0@,
                    ) =~= before.map_values(|e: (String, V)| e.0@));
                }
                let (_, was) = entries.remove(i);
                entries.insert(i, (name, value));
                self.entries = entries;
                Some(was)
            },
        }
    }

    /// Takes a name and its value out of the table.
    pub fn take(&mut self, name: &str) -> (r: Option<V>)
        ensures
            r is Some <==> old(self)@.contains_key(name@),
            r matches Some(value) ==> value == old(self)@[name@],
            final(self)@ == old(self)@.remove(name@),
            final(self).order() == old(self).order().remove_value(name@),
    {
        match self.find(name) {
            None => {
                proof {
                    assert(self@ =~= self@.remove(name@));
                    self.lemma_order();
                    self.order().index_of_first_ensures(name@);
                }
                None
            },
            Some(i) => {
                proof {
                    lemma_as_map_remove(self.entries@, i as int);
                    self.lemma_order();
                    let order = self.order();
                    order.index_of_first_ensures(name@);
                    let first = order.index_of_first(name@).unwrap();
                    assert(self.entries@[first].0@ == order[first]);
                    assert(first == i);
                    assert(self.entries@.remove(i as int).map_values(|e: (String, V)| e.0@)
                        =~= order.remove(i as int));
                }
                let mut entries: Vec<(String, V)> = Vec::new();
                core::mem::swap(&mut entries, &mut self.entries);
                let (_, value) = entries.remove(i);
                self.entries = entries;
                Some(value)
            },
        }
    }
}

} // verus!
