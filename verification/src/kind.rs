//! Kinds: the classification of types into plain types and type constructors.

use vstd::prelude::*;

verus! {

/// The mathematical value of a [`Kind`].
pub enum SpecKind {
    Star,
    Arrow { from: Seq<SpecKind>, to: Box<SpecKind> },
}

/// The kind of a type: `Star` for an ordinary type, `Arrow` for a type
/// constructor that takes arguments of the kinds `from` to a type of kind `to`.
#[derive(Debug)]
pub enum Kind {
    Star,
    Arrow { from: Vec<Kind>, to: Box<Kind> },
}

impl Kind {
    /// The mathematical value of this kind, by recursion on its structure.
    /// (The bounds on `i` are there for the proof of termination.)
    pub open spec fn to_spec(&self) -> SpecKind
        decreases self,
    {
        match self {
            Kind::Star => SpecKind::Star,
            Kind::Arrow { from, to } => SpecKind::Arrow {
                from: Seq::new(
                    from.len() as nat,
                    |i: int|
                        if 0 <= i < from.len() {
                            from[i].to_spec()
                        } else {
                            SpecKind::Star
                        },
                ),
                to: Box::new(to.to_spec()),
            },
        }
    }
}

impl View for Kind {
    type V = SpecKind;

    open spec fn view(&self) -> SpecKind {
        self.to_spec()
    }
}

/// The mathematical values of a list of kinds, in order.
pub open spec fn spec_kinds(kinds: &Vec<Kind>) -> Seq<SpecKind> {
    Seq::new(kinds.len() as nat, |i: int| kinds[i]@)
}

impl Clone for Kind {
    fn clone(&self) -> (copy: Self)
        ensures
            copy@ == self@,
        decreases self,
    {
        match self {
            Kind::Star => Kind::Star,
            Kind::Arrow { from, to } => {
                let mut kinds: Vec<Kind> = Vec::new();
                let mut i: usize = 0;
                while i < from.len()
                    invariant
                        self is Arrow,
                        self->from == *from,
                        i <= from.len(),
                        kinds.len() == i,
                        forall|j: int| 0 <= j < i ==> kinds[j]@ == from[j]@,
                    decreases from.len() - i,
                {
                    kinds.push(from[i].clone());
                    i += 1;
                }
                let copy = Kind::Arrow { from: kinds, to: Box::new((**to).clone()) };
                assert(copy@->from =~= self@->from);
                copy
            },
        }
    }
}

impl PartialEq for Kind {
    fn eq(&self, other: &Kind) -> (same: bool)
        decreases self,
    {
        match (self, other) {
            (Kind::Star, Kind::Star) => true,
            (Kind::Arrow { from, to }, Kind::Arrow { from: other_from, to: other_to }) => {
                if from.len() != other_from.len() {
                    assert(self@->from.len() != other@->from.len());
                    return false;
                }
                let mut i: usize = 0;
                while i < from.len()
                    invariant
                        self is Arrow,
                        self->from == *from,
                        other is Arrow,
                        other->from == *other_from,
                        from.len() == other_from.len(),
                        i <= from.len(),
                        forall|j: int| 0 <= j < i ==> from[j]@ == other_from[j]@,
                    decreases from.len() - i,
                {
                    if !from[i].eq(&other_from[i]) {
                        assert(self@->from[i as int] != other@->from[i as int]);
                        return false;
                    }
                    i += 1;
                }
                assert(self@->from =~= other@->from);
                (**to).eq(&**other_to)
            },
            _ => false,
        }
    }
}

impl vstd::std_specs::cmp::PartialEqSpecImpl for Kind {
    open spec fn obeys_eq_spec() -> bool {
        true
    }

    open spec fn eq_spec(&self, other: &Kind) -> bool {
        self@ == other@
    }
}

} // verus!
