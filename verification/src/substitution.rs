//! The value environment: which value each term variable in scope has.

use vstd::prelude::*;
use crate::scope::{bind_all, lemma_bind_all_push, lemma_bind_all_skip};
use crate::terms::{SpecValue, Value};

verus! {

/// A mapping from term-variable identifiers to values. It is a value: to
/// evaluate under more bindings, clone the substitution and insert into the
/// clone.
pub struct Substitution {
    bindings: Vec<(String, Value)>,
}

impl Substitution {
    /// The bindings in the order in which they were inserted.
    pub closed spec fn entries(&self) -> Seq<(Seq<char>, SpecValue)> {
        Seq::new(self.bindings.len() as nat, |i: int| (self.bindings[i].0@, self.bindings[i].1@))
    }

    /// The substitution without any binding.
    pub fn new() -> (subst: Self)
        ensures
            subst@ == Map::<Seq<char>, SpecValue>::empty(),
    {
        Substitution { bindings: Vec::new() }
    }

    /// Binds `id` to `value`, in place of whatever `id` was bound to.
    pub fn insert(&mut self, id: String, value: Value)
        ensures
            final(self)@ == old(self)@.insert(id@, value@),
    {
        proof {
            lemma_bind_all_push(Map::empty(), self.entries(), (id@, value@));
        }
        self.bindings.push((id, value));
        assert(self.entries() =~= old(self).entries().push((id@, value@)));
    }

    /// The value that `id` is bound to, if it is bound.
    pub fn get(&self, id: &String) -> (found: Option<&Value>)
        ensures
            match found {
                Some(value) => self@.contains_key(id@) && value@ == self@[id@],
                None => !self@.contains_key(id@),
            },
    {
        let mut i: usize = self.bindings.len();
        while i > 0
            invariant
                i <= self.bindings.len(),
                forall|j: int| i <= j < self.bindings.len() ==> self.entries()[j].0 != id@,
            decreases i,
        {
            i -= 1;
            if self.bindings[i].0 == *id {
                proof {
                    lemma_bind_all_skip(Map::empty(), self.entries(), id@, i + 1);
                }
                return Some(&self.bindings[i].1);
            }
        }
        proof {
            lemma_bind_all_skip(Map::empty(), self.entries(), id@, 0);
        }
        None
    }
}

impl View for Substitution {
    type V = Map<Seq<char>, SpecValue>;

    closed spec fn view(&self) -> Map<Seq<char>, SpecValue> {
        bind_all(Map::empty(), self.entries())
    }
}

impl Clone for Substitution {
    fn clone(&self) -> (copy: Self)
        ensures
            copy@ == self@,
    {
        let mut bindings: Vec<(String, Value)> = Vec::new();
        let mut i: usize = 0;
        while i < self.bindings.len()
            invariant
                i <= self.bindings.len(),
                bindings.len() == i,
                forall|j: int|
                    0 <= j < i ==> bindings[j].0@ == self.bindings[j].0@ && bindings[j].1@
                        == self.bindings[j].1@,
            decreases self.bindings.len() - i,
        {
            bindings.push((self.bindings[i].0.clone(), self.bindings[i].1.clone()));
            i += 1;
        }
        let copy = Substitution { bindings };
        assert(copy.entries() =~= self.entries());
        copy
    }
}

} // verus!
