//! The type language: variables, universal quantification, instantiation,
//! function types and the two primitive types.

use vstd::prelude::*;
use crate::kind::{Kind, SpecKind};

verus! {

/// The mathematical value of a [`TypeBinding`].
pub struct SpecTypeBinding {
    pub id: Seq<char>,
    pub kind: SpecKind,
}

/// The mathematical value of a [`Type`].
pub enum SpecType {
    Variable(Seq<char>),
    ForAll { parameters: Seq<SpecTypeBinding>, typ: Box<SpecType> },
    Instantiate { typ: Box<SpecType>, arguments: Seq<SpecType> },
    Function { arguments: Seq<SpecType>, result: Box<SpecType> },
    Boolean,
    Number,
}

/// A type variable together with the kind that its quantifier declares for it.
#[derive(Debug, PartialEq)]
pub struct TypeBinding {
    pub id: String,
    pub kind: Kind,
}

/// A type of the type language. In `ForAll` the field `typ` is the body of
/// the quantifier, in `Instantiate` it is the head: the type that is applied
/// to the arguments.
#[derive(Debug, PartialEq)]
pub enum Type {
    /// a type variable, e.g. `T`
    Variable(String),
    /// universal quantification, e.g. `forall<T...>. U`
    ForAll { parameters: Vec<TypeBinding>, typ: Box<Type> },
    /// type instantiation, e.g. `T<U...>`
    Instantiate { typ: Box<Type>, arguments: Vec<Type> },
    /// a function, e.g. `(T...) -> U`
    Function { arguments: Vec<Type>, result: Box<Type> },
    /// a boolean
    Boolean,
    /// a number
    Number,
}

impl View for TypeBinding {
    type V = SpecTypeBinding;

    open spec fn view(&self) -> SpecTypeBinding {
        SpecTypeBinding { id: self.id@, kind: self.kind@ }
    }
}

impl Clone for TypeBinding {
    fn clone(&self) -> (copy: Self)
        ensures
            copy@ == self@,
    {
        TypeBinding { id: self.id.clone(), kind: self.kind.clone() }
    }
}

/// The mathematical values of a list of bindings, in order.
pub open spec fn spec_type_bindings(bindings: &Vec<TypeBinding>) -> Seq<SpecTypeBinding> {
    Seq::new(bindings.len() as nat, |i: int| bindings[i]@)
}

/// The entries that a quantifier's parameters add to the environment, in
/// declaration order.
pub open spec fn parameter_entries(parameters: Seq<SpecTypeBinding>) -> Seq<(Seq<char>, SpecKind)> {
    Seq::new(parameters.len(), |i: int| (parameters[i].id, parameters[i].kind))
}

/// The kinds that a quantifier declares for its parameters, in declaration
/// order.
pub open spec fn parameter_kinds(parameters: Seq<SpecTypeBinding>) -> Seq<SpecKind> {
    Seq::new(parameters.len(), |i: int| parameters[i].kind)
}

/// Copies a list of bindings.
fn clone_type_bindings(bindings: &Vec<TypeBinding>) -> (copy: Vec<TypeBinding>)
    ensures
        spec_type_bindings(&copy) == spec_type_bindings(bindings),
{
    let copy = bindings.clone();
    copy
}

impl Type {
    /// The mathematical value of this type, by recursion on its structure.
    /// (The bounds on `i` are there for the proof of termination.)
    pub open spec fn to_spec(&self) -> SpecType
        decreases self,
    {
        match self {
            Type::Variable(id) => SpecType::Variable(id@),
            Type::ForAll { parameters, typ } => SpecType::ForAll {
                parameters: spec_type_bindings(parameters),
                typ: Box::new(typ.to_spec()),
            },
            Type::Instantiate { typ, arguments } => SpecType::Instantiate {
                typ: Box::new(typ.to_spec()),
                arguments: Seq::new(
                    arguments.len() as nat,
                    |i: int|
                        if 0 <= i < arguments.len() {
                            arguments[i].to_spec()
                        } else {
                            SpecType::Boolean
                        },
                ),
            },
            Type::Function { arguments, result } => SpecType::Function {
                arguments: Seq::new(
                    arguments.len() as nat,
                    |i: int|
                        if 0 <= i < arguments.len() {
                            arguments[i].to_spec()
                        } else {
                            SpecType::Boolean
                        },
                ),
                result: Box::new(result.to_spec()),
            },
            Type::Boolean => SpecType::Boolean,
            Type::Number => SpecType::Number,
        }
    }
}

impl View for Type {
    type V = SpecType;

    open spec fn view(&self) -> SpecType {
        self.to_spec()
    }
}

/// The mathematical values of a list of types, in order.
pub open spec fn spec_types(types: &Vec<Type>) -> Seq<SpecType> {
    Seq::new(types.len() as nat, |i: int| types[i]@)
}

/// Copies a list of types.
fn clone_types(types: &Vec<Type>) -> (copy: Vec<Type>)
    ensures
        spec_types(&copy) == spec_types(types),
    decreases types,
{
    let mut copy: Vec<Type> = Vec::new();
    let mut i: usize = 0;
    while i < types.len()
        invariant
            i <= types.len(),
            copy.len() == i,
            forall|j: int| 0 <= j < i ==> copy[j]@ == types[j]@,
        decreases types.len() - i,
    {
        copy.push(types[i].clone());
        i += 1;
    }
    copy
}

impl Clone for Type {
    fn clone(&self) -> (copy: Self)
        ensures
            copy@ == self@,
        decreases self,
    {
        match self {
            Type::Variable(id) => Type::Variable(id.clone()),
            Type::ForAll { parameters, typ } => Type::ForAll {
                parameters: clone_type_bindings(parameters),
                typ: Box::new((**typ).clone()),
            },
            Type::Instantiate { typ, arguments } => {
                let copy = Type::Instantiate {
                    typ: Box::new((**typ).clone()),
                    arguments: clone_types(arguments),
                };
                assert(copy@->Instantiate_arguments =~= spec_types(&copy->Instantiate_arguments));
                assert(self@->Instantiate_arguments =~= spec_types(arguments));
                copy
            },
            Type::Function { arguments, result } => {
                let copy = Type::Function {
                    arguments: clone_types(arguments),
                    result: Box::new((**result).clone()),
                };
                assert(copy@->Function_arguments =~= spec_types(&copy->Function_arguments));
                assert(self@->Function_arguments =~= spec_types(arguments));
                copy
            },
            Type::Boolean => Type::Boolean,
            Type::Number => Type::Number,
        }
    }
}

} // verus!
