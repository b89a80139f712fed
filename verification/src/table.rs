//! A table from names to values in which no name occurs twice: the store
//! behind a scope and behind the function table.

use vstd::prelude::*;
use crate::ast::names_of;

verus! {

/// A mapping from names to values. Binding a name that is bound already
/// overwrites its value.
pub struct Table<V> {
    names: Vec<String>,
    values: Vec<V>,
}

/// The first position of `key` among `names`, if it occurs.
pub open spec fn position(names: Seq<Seq<char>>, key: Seq<char>) -> Option<int>
    decreases names.len(),
{
    if names.len() == 0 {
        None
    } else if names[0] == key {
        Some(0int)
    } else {
        match position(names.drop_first(), key) {
            Some(i) => Some(i + 1),
            None => None,
        }
    }
}

/// `position` finds `key` where it occurs and nowhere else.
pub proof fn lemma_position(names: Seq<Seq<char>>, key: Seq<char>)
    ensures
        match position(names, key) {
            Some(i) => 0 <= i < names.len() && names[i] == key && forall|j: int|
                0 <= j < i ==> names[j] != key,
            None => forall|j: int| 0 <= j < names.len() ==> names[j] != key,
        },
    decreases names.len(),
{
    if names.len() > 0 && names[0] != key {
        lemma_position(names.drop_first(), key);
        match position(names.drop_first(), key) {
            Some(i) => {
                assert forall|j: int| 0 <= j < i + 1 implies names[j] != key by {
                    if j > 0 {
                        assert(names.drop_first()[j - 1] == names[j]);
                    }
                }
            },
            None => {
                assert forall|j: int| 0 <= j < names.len() implies names[j] != key by {
                    if j > 0 {
                        assert(names.drop_first()[j - 1] == names[j]);
                    }
                }
            },
        }
    }
}

/// A name that stands at `i` and nowhere before is found at `i`.
pub proof fn lemma_position_found(names: Seq<Seq<char>>, key: Seq<char>, i: int)
    requires
        0 <= i < names.len(),
        names[i] == key,
        forall|j: int| 0 <= j < i ==> names[j] != key,
    ensures
        position(names, key) == Some(i),
    decreases i,
{
    if i > 0 {
        assert(names[0] != key);
        assert(names.drop_first()[i - 1] == names[i]);
        assert forall|j: int| 0 <= j < i - 1 implies names.drop_first()[j] != key by {
            assert(names.drop_first()[j] == names[j + 1]);
        }
        lemma_position_found(names.drop_first(), key, i - 1);
    }
}

/// A name that stands nowhere is not found.
pub proof fn lemma_position_absent(names: Seq<Seq<char>>, key: Seq<char>)
    requires
        forall|j: int| 0 <= j < names.len() ==> names[j] != key,
    ensures
        position(names, key) is None,
    decreases names.len(),
{
    if names.len() > 0 {
        assert(names[0] != key);
        assert forall|j: int| 0 <= j < names.drop_first().len() implies names.drop_first()[j]
            != key by {
            assert(names.drop_first()[j] == names[j + 1]);
        }
        lemma_position_absent(names.drop_first(), key);
    }
}

/// Whether no name occurs twice in `names`.
pub open spec fn distinct(names: Seq<Seq<char>>) -> bool {
    forall|i: int, j: int| 0 <= i < j < names.len() ==> names[i] != names[j]
}

impl<V: DeepView> Table<V> {
    /// The names, in the order in which they were first bound.
    pub closed spec fn names(&self) -> Seq<Seq<char>> {
        names_of(self.names@)
    }

    /// The value bound to the name at position `i`.
    pub closed spec fn value_at(&self, i: int) -> V::V {
        self.values@[i].deep_view()
    }

    /// Every name has its value, and no name occurs twice.
    pub closed spec fn wf(&self) -> bool {
        &&& self.names@.len() == self.values@.len()
        &&& distinct(self.names())
    }

    /// The mapping that the table holds.
    pub open spec fn model(&self) -> Map<Seq<char>, V::V> {
        Map::new(
            |key: Seq<char>| position(self.names(), key) is Some,
            |key: Seq<char>| self.value_at(position(self.names(), key).unwrap()),
        )
    }

    /// An empty table.
    pub fn new() -> (table: Self)
        ensures
            table.wf(),
            table.model() == Map::<Seq<char>, V::V>::empty(),
    {
        let table = Table { names: Vec::new(), values: Vec::new() };
        proof {
            assert(table.names() =~= Seq::<Seq<char>>::empty());
            assert(table.model() =~= Map::<Seq<char>, V::V>::empty());
        }
        table
    }

    /// Where `key` is bound, if it is.
    fn find(&self, key: &String) -> (r: Option<usize>)
        requires
            self.wf(),
        ensures
            match r {
                Some(i) => position(self.names(), key@) == Some(i as int) && i
                    < self.names().len(),
                None => position(self.names(), key@) is None,
            },
    {
        let mut i: usize = 0;
        while i < self.names.len()
            invariant
                0 <= i <= self.names@.len(),
                forall|j: int| 0 <= j < i ==> self.names()[j] != key@,
            decreases self.names@.len() - i,
        {
            if self.names[i] == *key {
                proof {
                    lemma_position_found(self.names(), key@, i as int);
                }
                return Some(i);
            }
            i += 1;
        }
        proof {
            lemma_position_absent(self.names(), key@);
        }
        None
    }

    /// The value bound to `key`, if it is bound.
    pub fn get(&self, key: &String) -> (r: Option<&V>)
        requires
            self.wf(),
        ensures
            match r {
                Some(value) => self.model().contains_key(key@) && self.model()[key@]
                    == value.deep_view(),
                None => !self.model().contains_key(key@),
            },
    {
        match self.find(key) {
            Some(i) => Some(&self.values[i]),
            None => None,
        }
    }

    /// Binds `key` to `value`.
    pub fn insert(&mut self, key: String, value: V)
        requires
            old(self).wf(),
        ensures
            final(self).wf(),
            final(self).model() == old(self).model().insert(key@, value.deep_view()),
    {
        let ghost before = *self;
        match self.find(&key) {
            Some(i) => {
                self.values.set(i, value);
                proof {
                    let names = before.names();
                    assert(self.names() == names);
                    lemma_position(names, key@);
                    assert forall|k: Seq<char>| position(names, k) is Some implies self.value_at(
                        position(names, k).unwrap(),
                    ) == if k == key@ {
                        value.deep_view()
                    } else {
                        before.value_at(position(names, k).unwrap())
                    } by {
                        lemma_position(names, k);
                    }
                    assert(self.model() =~= before.model().insert(key@, value.deep_view()));
                }
            },
            None => {
                self.names.push(key);
                self.values.push(value);
                proof {
                    let old_names = before.names();
                    let new_names = self.names();
                    assert(new_names =~= old_names.push(key@));
                    lemma_position(old_names, key@);
                    assert forall|k: Seq<char>|
                        position(new_names, k) == if k == key@ {
                            Some(old_names.len() as int)
                        } else {
                            position(old_names, k)
                        } by {
                        lemma_position(old_names, k);
                        if k == key@ {
                            lemma_position_found(new_names, k, old_names.len() as int);
                        } else {
                            match position(old_names, k) {
                                Some(p) => {
                                    lemma_position_found(new_names, k, p);
                                },
                                None => {
                                    lemma_position_absent(new_names, k);
                                },
                            }
                        }
                    }
                    assert forall|k: Seq<char>| position(new_names, k) is Some implies self.value_at(
                        position(new_names, k).unwrap(),
                    ) == if k == key@ {
                        value.deep_view()
                    } else {
                        before.value_at(position(old_names, k).unwrap())
                    } by {
                        lemma_position(old_names, k);
                    }
                    assert(self.model() =~= before.model().insert(key@, value.deep_view()));
                }
            },
        }
    }
}

} // verus!
