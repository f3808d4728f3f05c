//! The kind environment: which kind each type variable in scope has.

use vstd::prelude::*;
use crate::kind::{Kind, SpecKind};
use crate::scope::{bind_all, lemma_bind_all_concat, lemma_bind_all_push, lemma_bind_all_skip};
use crate::types::{parameter_entries, spec_type_bindings, TypeBinding};

verus! {

/// A mapping from type-variable identifiers to kinds. It is a value: to
/// check a type under more bindings, clone the environment and insert into
/// the clone.
pub struct KindEnv {
    bindings: Vec<TypeBinding>,
}

impl KindEnv {
    /// The bindings in the order in which they were inserted.
    pub closed spec fn entries(&self) -> Seq<(Seq<char>, SpecKind)> {
        Seq::new(
            self.bindings.len() as nat,
            |i: int| (self.bindings[i].id@, self.bindings[i].kind@),
        )
    }

    /// The environment without any binding.
    pub fn new() -> (env: Self)
        ensures
            env@ == Map::<Seq<char>, SpecKind>::empty(),
    {
        KindEnv { bindings: Vec::new() }
    }

    /// Binds `id` to `kind`, in place of whatever `id` was bound to.
    pub fn insert(&mut self, id: String, kind: Kind)
        ensures
            final(self)@ == old(self)@.insert(id@, kind@),
    {
        proof {
            lemma_bind_all_push(Map::empty(), self.entries(), (id@, kind@));
        }
        self.bindings.push(TypeBinding { id, kind });
        assert(self.entries() =~= old(self).entries().push((id@, kind@)));
    }

    /// Binds each parameter to its declared kind, in order: of two
    /// parameters with the same identifier the later one stays.
    pub fn extend(&mut self, parameters: Vec<TypeBinding>)
        ensures
            final(self)@ == bind_all(
                old(self)@,
                parameter_entries(spec_type_bindings(&parameters)),
            ),
    {
        let ghost added = parameter_entries(spec_type_bindings(&parameters));
        proof {
            lemma_bind_all_concat(Map::empty(), self.entries(), added);
        }
        let mut parameters = parameters;
        self.bindings.append(&mut parameters);
        assert(self.entries() =~= old(self).entries() + added);
    }

    /// The kind that `id` is bound to, if it is bound.
    pub fn get(&self, id: &String) -> (found: Option<&Kind>)
        ensures
            match found {
                Some(kind) => self@.contains_key(id@) && kind@ == self@[id@],
                None => !self@.contains_key(id@),
            },
    {
        let mut i: usize = self.bindings.len();
        while i > 0
            invariant
                i <= self.bindings.len(),
                forall|j: int| i <= j < self.bindings.len() ==> self.entries()[j].0 != id@,
            decreases i,
        {
            i -= 1;
            if self.bindings[i].id == *id {
                proof {
                    lemma_bind_all_skip(Map::empty(), self.entries(), id@, i + 1);
                }
                return Some(&self.bindings[i].kind);
            }
        }
        proof {
            lemma_bind_all_skip(Map::empty(), self.entries(), id@, 0);
        }
        None
    }
}

impl View for KindEnv {
    type V = Map<Seq<char>, SpecKind>;

    closed spec fn view(&self) -> Map<Seq<char>, SpecKind> {
        bind_all(Map::empty(), self.entries())
    }
}

impl Clone for KindEnv {
    fn clone(&self) -> (copy: Self)
        ensures
            copy@ == self@,
    {
        let copy = KindEnv { bindings: self.bindings.clone() };
        assert(copy.entries() =~= self.entries());
        copy
    }
}

} // verus!
