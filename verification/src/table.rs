//! A table of values by name.

use vstd::prelude::*;
use vstd::string::*;

use crate::text::same_text;

verus! {

/// Values by name. A name occurs once.
pub struct Table<V> {
    entries: Vec<(String, V)>,
}

spec fn has_name<V>(entries: Seq<(String, V)>, name: Seq<char>, i: int) -> bool {
    0 <= i < entries.len() && entries[i].0@ == name
}

impl<V> View for Table<V> {
    type V = Map<Seq<char>, V>;

    closed spec fn view(&self) -> Map<Seq<char>, V> {
        Map::new(
            |name: Seq<char>| exists|i: int| has_name(self.entries@, name, i),
            |name: Seq<char>| self.entries@[choose|i: int| has_name(self.entries@, name, i)].1,
        )
    }
}

impl<V> Table<V> {
    pub closed spec fn wf(self) -> bool {
        forall|i: int, j: int|
            0 <= i < j < self.entries@.len() ==> (#[trigger] self.entries@[i]).0@ != (
            #[trigger] self.entries@[j]).0@
    }

    proof fn lemma_entry(self, i: int)
        requires
            self.wf(),
            0 <= i < self.entries@.len(),
        ensures
            self@.contains_key(self.entries@[i].0@),
            self@[self.entries@[i].0@] == self.entries@[i].1,
    {
        let name = self.entries@[i].0@;
        assert(has_name(self.entries@, name, i));
        let k = choose|k: int| has_name(self.entries@, name, k);
        assert(k == i) by {
            if k < i {
                assert(self.entries@[k].0@ != self.entries@[i].0@);
            } else if i < k {
                assert(self.entries@[i].0@ != self.entries@[k].0@);
            }
        }
    }

    /// A table without names.
    pub fn new() -> (result: Self)
        ensures
            result.wf(),
            result@ == Map::<Seq<char>, V>::empty(),
    {
        let result = Table { entries: Vec::new() };
        assert(result@ =~= Map::<Seq<char>, V>::empty());
        result
    }

    fn find(&self, name: &str) -> (result: Option<usize>)
        requires
            self.wf(),
        ensures
            match result {
                Some(i) => {
                    &&& i < self.entries@.len()
                    &&& self.entries@[i as int].0@ == name@
                    &&& self@.contains_key(name@)
                    &&& self@[name@] == self.entries@[i as int].1
                },
                None => !self@.contains_key(name@),
            },
    {
        let mut i: usize = 0;
        while i < self.entries.len()
            invariant
                self.wf(),
                i <= self.entries@.len(),
                forall|k: int| 0 <= k < i ==> (#[trigger] self.entries@[k]).0@ != name@,
            decreases self.entries@.len() - i,
        {
            if same_text(&self.entries[i].0, name) {
                proof {
                    self.lemma_entry(i as int);
                }
                return Some(i);
            }
            i += 1;
        }
        None
    }

    pub fn contains_key(&self, name: &str) -> (result: bool)
        requires
            self.wf(),
        ensures
            result == self@.contains_key(name@),
    {
        self.find(name).is_some()
    }

    pub fn get(&self, name: &str) -> (result: Option<&V>)
        requires
            self.wf(),
        ensures
            match result {
                Some(value) => self@.contains_key(name@) && *value == self@[name@],
                None => !self@.contains_key(name@),
            },
    {
        match self.find(name) {
            Some(i) => Some(&self.entries[i].1),
            None => None,
        }
    }

    pub fn get_mut(&mut self, name: &str) -> (result: Option<&mut V>)
        requires
            old(self).wf(),
        ensures
            final(self).wf(),
            match result {
                Some(value) => {
                    &&& old(self)@.contains_key(name@)
                    &&& *value == old(self)@[name@]
                    &&& final(self)@ == old(self)@.insert(name@, *final(value))
                },
                None => !old(self)@.contains_key(name@) && final(self)@ == old(self)@,
            },
    {
        match self.find(name) {
            Some(i) => {
                let ghost before = *self;
                let entry = &mut self.entries[i];
                proof {
                    lemma_replaced(before, i as int, name@);
                }
                Some(&mut entry.1)
            },
            None => None,
        }
    }

    /// Gives a name a value, in place of the one that it may have had.
    pub fn insert(&mut self, name: String, value: V)
        requires
            old(self).wf(),
        ensures
            final(self).wf(),
            final(self)@ == old(self)@.insert(name@, value),
    {
        let ghost before = *self;
        match self.find(&name) {
            Some(i) => {
                self.entries[i] = (name, value);
                proof {
                    lemma_same_names(before, *self, i as int);
                }
            },
            None => {
                self.entries.push((name, value));
                proof {
                    assert(self.wf()) by {
                        assert forall|i: int, j: int| 0 <= i < j < self.entries@.len() implies (
                        #[trigger] self.entries@[i]).0@ != (#[trigger] self.entries@[j]).0@ by {
                            if j == before.entries@.len() {
                                before.lemma_entry(i);
                            }
                        }
                    }
                    assert forall|n: Seq<char>| agree(self@, before@.insert(name@, value), n) by {
                        lemma_lookup(*self, n);
                        lemma_lookup(before, n);
                        if n == name@ {
                            self.lemma_entry(before.entries@.len() as int);
                        } else if exists|i: int| has_name(before.entries@, n, i) {
                            let i = choose|i: int| has_name(before.entries@, n, i);
                            assert(self.entries@[i] == before.entries@[i]);
                            self.lemma_entry(i);
                            before.lemma_entry(i);
                        } else if exists|i: int| has_name(self.entries@, n, i) {
                            let i = choose|i: int| has_name(self.entries@, n, i);
                            assert(has_name(before.entries@, n, i));
                        }
                    }
                    lemma_agree(self@, before@.insert(name@, value));
                }
            },
        }
    }

    /// Takes a name and its value out of the table.
    pub fn remove(&mut self, name: &str) -> (result: Option<V>)
        requires
            old(self).wf(),
        ensures
            final(self).wf(),
            final(self)@ == old(self)@.remove(name@),
            match result {
                Some(value) => old(self)@.contains_key(name@) && value == old(self)@[name@],
                None => !old(self)@.contains_key(name@),
            },
    {
        let ghost before = *self;
        match self.find(name) {
            Some(i) => {
                let entry = self.entries.remove(i);
                proof {
                    assert(forall|k: int|
                        0 <= k < self.entries@.len() ==> #[trigger] self.entries@[k]
                            == before.entries@[if k < i { k } else { k + 1 }]);
                    assert forall|n: Seq<char>| agree(self@, before@.remove(name@), n) by {
                        lemma_lookup(*self, n);
                        lemma_lookup(before, n);
                        if exists|k: int| has_name(self.entries@, n, k) {
                            let k = choose|k: int| has_name(self.entries@, n, k);
                            self.lemma_entry(k);
                            let j = if k < i {
                                k
                            } else {
                                k + 1
                            };
                            before.lemma_entry(j);
                            assert(n != name@);
                        } else if n != name@ && exists|j: int| has_name(before.entries@, n, j) {
                            let j = choose|j: int| has_name(before.entries@, n, j);
                            let k = if j < i {
                                j
                            } else {
                                j - 1
                            };
                            assert(has_name(self.entries@, n, k));
                        }
                    }
                    lemma_agree(self@, before@.remove(name@));
                }
                Some(entry.1)
            },
            None => {
                assert(self@ =~= before@.remove(name@));
                None
            },
        }
    }

    /// Takes everything out of the table.
    pub fn clear(&mut self)
        ensures
            final(self).wf(),
            final(self)@ == Map::<Seq<char>, V>::empty(),
    {
        self.entries.clear();
        assert(self@ =~= Map::<Seq<char>, V>::empty());
    }
}

spec fn agree<V>(a: Map<Seq<char>, V>, b: Map<Seq<char>, V>, name: Seq<char>) -> bool {
    &&& a.contains_key(name) == b.contains_key(name)
    &&& a.contains_key(name) ==> a[name] == b[name]
}

proof fn lemma_agree<V>(a: Map<Seq<char>, V>, b: Map<Seq<char>, V>)
    requires
        forall|name: Seq<char>| agree(a, b, name),
    ensures
        a == b,
{
    assert forall|name: Seq<char>| a.dom().contains(name) <==> b.dom().contains(name) by {
        assert(agree(a, b, name));
    }
    assert forall|name: Seq<char>| a.dom().contains(name) implies a[name] == b[name] by {
        assert(agree(a, b, name));
    }
    assert(a =~= b);
}

proof fn lemma_lookup<V>(table: Table<V>, name: Seq<char>)
    ensures
        table@.contains_key(name) <==> exists|i: int| has_name(table.entries@, name, i),
{
}

proof fn lemma_same_names<V>(before: Table<V>, after: Table<V>, at: int)
    requires
        before.wf(),
        0 <= at < before.entries@.len(),
        after.entries@.len() == before.entries@.len(),
        forall|i: int|
            0 <= i < before.entries@.len() && i != at ==> after.entries@[i]
                == #[trigger] before.entries@[i],
        after.entries@[at].0@ == before.entries@[at].0@,
    ensures
        after.wf(),
        after@ == before@.insert(before.entries@[at].0@, after.entries@[at].1),
{
    let name = before.entries@[at].0@;
    let value = after.entries@[at].1;
    assert forall|i: int| 0 <= i < before.entries@.len() implies (#[trigger] after.entries@[i]).0@
        == before.entries@[i].0@ by {
        if i != at {
            assert(after.entries@[i] == before.entries@[i]);
        }
    }
    assert forall|n: Seq<char>| agree(after@, before@.insert(name, value), n) by {
        assert(has_name(before.entries@, name, at));
        lemma_lookup(after, n);
        lemma_lookup(before, n);
        if exists|i: int| has_name(before.entries@, n, i) {
            let i = choose|i: int| has_name(before.entries@, n, i);
            assert(has_name(after.entries@, n, i));
            before.lemma_entry(i);
            after.lemma_entry(i);
            before.lemma_entry(at);
            after.lemma_entry(at);
        } else if exists|i: int| has_name(after.entries@, n, i) {
            let i = choose|i: int| has_name(after.entries@, n, i);
            assert(has_name(before.entries@, n, i));
        }
    }
    lemma_agree(after@, before@.insert(name, value));
}

proof fn lemma_replaced<V>(before: Table<V>, at: int, name: Seq<char>)
    requires
        before.wf(),
        0 <= at < before.entries@.len(),
        before.entries@[at].0@ == name,
    ensures
        forall|after: Table<V>|
            #![trigger after.wf()]
            #![trigger after@]
            after.entries@.len() == before.entries@.len() && (forall|i: int|
                0 <= i < before.entries@.len() && i != at ==> after.entries@[i]
                    == #[trigger] before.entries@[i]) && after.entries@[at].0@ == name
                ==> after.wf() && after@ == before@.insert(name, after.entries@[at].1),
{
    assert forall|after: Table<V>|
        #![trigger after.wf()]
        #![trigger after@]
        after.entries@.len() == before.entries@.len() && (forall|i: int|
            0 <= i < before.entries@.len() && i != at ==> after.entries@[i]
                == #[trigger] before.entries@[i]) && after.entries@[at].0@
            == name implies after.wf() && after@ == before@.insert(
        name,
        after.entries@[at].1,
    ) by {
        lemma_same_names(before, after, at);
    }
}

/// A name that was given a value has it until the name is taken out, and other names keep theirs.
pub proof fn law_names_keep_their_values<V>(
    giving: &mut Table<V>,
    name: String,
    value: V,
    given: &Table<V>,
    text: &str,
    other: &str,
    found: Option<&V>,
    kept: Option<&V>,
    taking: &mut Table<V>,
    taken: Option<V>,
    left: &Table<V>,
    gone: bool,
    still: bool,
)
    requires
        old(giving).wf(),
        call_ensures(Table::<V>::insert, (giving, name, value), ()),
        *given == *final(giving),
        text@ == name@,
        other@ != name@,
        call_ensures(Table::<V>::get, (given, text), found),
        call_ensures(Table::<V>::get, (given, other), kept),
        *old(taking) == *final(giving),
        call_ensures(Table::<V>::remove, (taking, text), taken),
        *left == *final(taking),
        call_ensures(Table::<V>::contains_key, (left, text), gone),
        call_ensures(Table::<V>::contains_key, (left, other), still),
    ensures
        found matches Some(v) && *v == value,
        kept is Some <==> old(giving)@.contains_key(other@),
        kept matches Some(v) ==> *v == old(giving)@[other@],
        taken == Some(value),
        !gone,
        still <==> old(giving)@.contains_key(other@),
{
}

} // verus!
