//! The tables of a server, each under its name.

use vstd::prelude::*;

verus! {

/// What a server keeps under each name. A name gets its entry when it is first asked for,
/// and keeps it.
pub struct Registry<T> {
    names: Vec<String>,
    tables: Vec<T>,
}

impl<T> View for Registry<T> {
    type V = Map<Seq<char>, T>;

    closed spec fn view(&self) -> Map<Seq<char>, T> {
        Map::new(
            |name: Seq<char>| self.spelled().contains(name),
            |name: Seq<char>| self.tables@[self.spelled().index_of(name)],
        )
    }
}

impl<T> Registry<T> {
    /// The names, as they are spelled.
    closed spec fn spelled(self) -> Seq<Seq<char>> {
        self.names@.map_values(|name: String| name@)
    }

    #[verifier::type_invariant]
    spec fn one_entry_each(self) -> bool {
        &&& self.names@.len() == self.tables@.len()
        &&& self.spelled().no_duplicates()
    }

    /// A registry without entries.
    pub fn new() -> (registry: Registry<T>)
        ensures
            registry@ == Map::<Seq<char>, T>::empty(),
    {
        let registry = Registry { names: Vec::new(), tables: Vec::new() };
        assert(registry@ =~= Map::<Seq<char>, T>::empty());
        registry
    }

    /// Where the entry of `name` stands, if there is one.
    fn position(&self, name: &String) -> (at: Option<usize>)
        ensures
            match at {
                Some(i) => i < self.tables@.len() && self@.dom().contains(name@) && self@[name@]
                    == self.tables@[i as int] && self.spelled()[i as int] == name@,
                None => !self@.dom().contains(name@),
            },
    {
        proof {
            use_type_invariant(self);
        }
        let mut i: usize = 0;
        while i < self.names.len()
            invariant
                i <= self.names@.len(),
                self.names@.len() == self.tables@.len(),
                self.spelled().no_duplicates(),
                forall|j: int| 0 <= j < i ==> self.spelled()[j] != name@,
            decreases self.names@.len() - i,
        {
            if self.names[i] == *name {
                assert(self.spelled()[i as int] == name@);
                assert(self.spelled().contains(name@));
                assert(self.spelled().index_of(name@) == i);
                return Some(i);
            }
            i += 1;
        }
        None
    }

    /// How many entries there are.
    pub fn len(&self) -> (count: usize)
        ensures
            count == self@.dom().len(),
    {
        proof {
            use_type_invariant(self);
            self.spelled().unique_seq_to_set();
            assert(self@.dom() =~= self.spelled().to_set());
        }
        self.names.len()
    }

    /// The entry of `name`, if there is one.
    pub fn get(&self, name: &String) -> (found: Option<&T>)
        ensures
            match found {
                Some(entry) => self@.dom().contains(name@) && *entry == self@[name@],
                None => !self@.dom().contains(name@),
            },
    {
        match self.position(name) {
            Some(i) => Some(&self.tables[i]),
            None => None,
        }
    }

    /// The entry of `name`. Where there is none, `make` makes it.
    pub fn get_or_insert_with<F>(&mut self, name: String, make: F) -> (entry: &T) where
        F: FnOnce() -> T,

        requires
            call_requires(make, ()),
        ensures
            old(self)@.dom().contains(name@) ==> final(self)@ == old(self)@ && *entry == old(
                self,
            )@[name@],
            !old(self)@.dom().contains(name@) ==> call_ensures(make, (), *entry) && final(self)@
                == old(self)@.insert(name@, *entry),
    {
        proof {
            use_type_invariant(&*self);
        }
        let at = match self.position(&name) {
            Some(i) => i,
            None => {
                let mut registry = Registry { names: Vec::new(), tables: Vec::new() };
                std::mem::swap(self, &mut registry);
                let Registry { mut names, mut tables } = registry;
                let ghost before = names@.map_values(|name: String| name@);
                let made = make();
                names.push(name);
                tables.push(made);
                proof {
                    assert(names@.map_values(|name: String| name@) =~= before.push(name@));
                    assert(before.push(name@).no_duplicates());
                }
                *self = Registry { names, tables };
                proof {
                    assert(self@ =~= old(self)@.insert(name@, made)) by {
                        assert forall|n: Seq<char>| self.spelled().contains(n) implies #[trigger] self@[n]
                            == old(self)@.insert(name@, made)[n] by {
                            let j = self.spelled().index_of(n);
                            if n != name@ {
                                assert(before.contains(n));
                                assert(before.index_of(n) == j);
                            }
                        }
                        assert forall|n: Seq<char>|
                            old(self)@.insert(name@, made).dom().contains(
                                n,
                            ) implies self.spelled().contains(n) by {
                            if n != name@ {
                                let j = before.index_of(n);
                                assert(self.spelled()[j] == n);
                            } else {
                                assert(self.spelled()[before.len() as int] == name@);
                            }
                        }
                    }
                }
                self.tables.len() - 1
            },
        };
        &self.tables[at]
    }
}

} // verus!
