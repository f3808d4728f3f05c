//! The kind checker: what kind a type has under a kind environment, or why
//! it has none.

use vstd::prelude::*;
use crate::kind::{spec_kinds, Kind, SpecKind};
use crate::kind_env::KindEnv;
use crate::scope::bind_all;
use crate::types::{
    parameter_entries, parameter_kinds, spec_type_bindings, SpecType, Type, TypeBinding,
};

verus! {

/// The mathematical value of a [`TypeError`].
#[allow(inconsistent_fields)]
pub enum SpecTypeError {
    KindMismatch { expected: SpecKind, found: SpecKind },
    ExpectedQuantifier { found: SpecType },
    UnboundIdentifier(Seq<char>),
}

/// Why a type has no kind.
#[derive(Debug, PartialEq)]
#[allow(inconsistent_fields)]
pub enum TypeError {
    /// A type argument has another kind than the quantifier declares.
    KindMismatch { expected: Kind, found: Kind },
    /// The type that is instantiated is no quantifier.
    ExpectedQuantifier { found: Type },
    /// A type variable is not in scope.
    UnboundIdentifier(String),
}

impl View for TypeError {
    type V = SpecTypeError;

    open spec fn view(&self) -> SpecTypeError {
        match self {
            TypeError::KindMismatch { expected, found } => SpecTypeError::KindMismatch {
                expected: expected@,
                found: found@,
            },
            TypeError::ExpectedQuantifier { found } => SpecTypeError::ExpectedQuantifier {
                found: found@,
            },
            TypeError::UnboundIdentifier(id) => SpecTypeError::UnboundIdentifier(id@),
        }
    }
}

impl Clone for TypeError {
    fn clone(&self) -> (copy: Self)
        ensures
            copy@ == self@,
    {
        match self {
            TypeError::KindMismatch { expected, found } => TypeError::KindMismatch {
                expected: expected.clone(),
                found: found.clone(),
            },
            TypeError::ExpectedQuantifier { found } => TypeError::ExpectedQuantifier {
                found: found.clone(),
            },
            TypeError::UnboundIdentifier(id) => TypeError::UnboundIdentifier(id.clone()),
        }
    }
}

/// The outcome of a kind check as a mathematical value.
pub open spec fn spec_kinding(outcome: Result<Kind, TypeError>) -> Result<SpecKind, SpecTypeError> {
    match outcome {
        Ok(kind) => Ok(kind@),
        Err(error) => Err(error@),
    }
}

/// What is wrong with one type argument, if anything: its own kind check
/// failed, or it has another kind than the one expected.
pub open spec fn argument_error(
    expected: SpecKind,
    found: Result<SpecKind, SpecTypeError>,
) -> Option<SpecTypeError> {
    match found {
        Err(error) => Some(error),
        Ok(kind) => if kind == expected {
            None
        } else {
            Some(SpecTypeError::KindMismatch { expected, found: kind })
        },
    }
}

/// The error of the first argument from position `start` on that does not
/// fit. Positions that only one of the two sequences has are not looked at.
pub open spec fn first_argument_error(
    expected: Seq<SpecKind>,
    found: Seq<Result<SpecKind, SpecTypeError>>,
    start: int,
) -> Option<SpecTypeError>
    decreases expected.len() - start,
{
    if start < 0 || start >= expected.len() || start >= found.len() {
        None
    } else {
        match argument_error(expected[start], found[start]) {
            Some(error) => Some(error),
            None => first_argument_error(expected, found, start + 1),
        }
    }
}

/// The outcome of checking each of `types` under `env`, in order.
pub open spec fn kinds_of(env: Map<Seq<char>, SpecKind>, types: Seq<SpecType>) -> Seq<
    Result<SpecKind, SpecTypeError>,
>
    decreases types, 0nat,
{
    Seq::new(
        types.len(),
        |i: int|
            if 0 <= i < types.len() {
                kind_of(env, types[i])
            } else {
                Ok(SpecKind::Star)
            },
    )
}

/// The kind of `typ` under `env`, or the first error that stands in its way.
pub open spec fn kind_of(env: Map<Seq<char>, SpecKind>, typ: SpecType) -> Result<
    SpecKind,
    SpecTypeError,
>
    decreases typ, 1nat,
{
    match typ {
        SpecType::Variable(id) => if env.contains_key(id) {
            Ok(env[id])
        } else {
            Err(SpecTypeError::UnboundIdentifier(id))
        },
        SpecType::ForAll { parameters, typ } => match kind_of(
            bind_all(env, parameter_entries(parameters)),
            *typ,
        ) {
            Ok(to) => Ok(SpecKind::Arrow { from: parameter_kinds(parameters), to: Box::new(to) }),
            Err(error) => Err(error),
        },
        SpecType::Instantiate { typ, arguments } => match kind_of(env, *typ) {
            Ok(SpecKind::Arrow { from, to }) => match first_argument_error(
                from,
                kinds_of(env, arguments),
                0,
            ) {
                Some(error) => Err(error),
                None => Ok(*to),
            },
            Ok(SpecKind::Star) => Err(SpecTypeError::ExpectedQuantifier { found: *typ }),
            Err(error) => Err(error),
        },
        SpecType::Function { .. } | SpecType::Boolean | SpecType::Number => Ok(SpecKind::Star),
    }
}

/// The kinds that the parameters of a quantifier declare, in declaration
/// order.
fn declared_kinds(parameters: &Vec<TypeBinding>) -> (kinds: Vec<Kind>)
    ensures
        spec_kinds(&kinds) == parameter_kinds(spec_type_bindings(parameters)),
{
    let mut kinds: Vec<Kind> = Vec::new();
    let mut i: usize = 0;
    while i < parameters.len()
        invariant
            i <= parameters.len(),
            kinds.len() == i,
            forall|j: int| 0 <= j < i ==> kinds[j]@ == parameters[j].kind@,
        decreases parameters.len() - i,
    {
        kinds.push(parameters[i].kind.clone());
        i += 1;
    }
    kinds
}

/// Computes the kind of `typ` under `kenv`.
///
/// A variable has the kind that `kenv` gives it. A quantifier has an arrow
/// kind from the kinds it declares to the kind of its body, which is checked
/// with the parameters in scope. An instantiation has the result kind of its
/// head, provided that the arguments have the kinds that the head expects;
/// arguments and expected kinds are paired off in order, and what is left
/// over on either side is ignored. Every other type has kind `Star`.
#[verifier::loop_isolation(false)]
pub fn check_kinds(kenv: &KindEnv, typ: Type) -> (outcome: Result<Kind, TypeError>)
    ensures
        spec_kinding(outcome) == kind_of(kenv@, typ@),
    decreases typ@,
{
    let ghost whole = typ@;
    match typ {
        Type::Variable(id) => match kenv.get(&id) {
            Some(kind) => Ok(kind.clone()),
            None => Err(TypeError::UnboundIdentifier(id)),
        },
        Type::ForAll { parameters, typ: body } => {
            let from = declared_kinds(&parameters);
            let mut extended_kenv = kenv.clone();
            extended_kenv.extend(parameters);
            match check_kinds(&extended_kenv, *body) {
                Ok(to) => {
                    let kind = Kind::Arrow { from, to: Box::new(to) };
                    assert(kind@->from =~= spec_kinds(&from));
                    Ok(kind)
                },
                Err(error) => Err(error),
            }
        },
        Type::Instantiate { typ: head, arguments } => match check_kinds(kenv, (*head).clone()) {
            Ok(Kind::Arrow { from, to }) => {
                let ghost expected = spec_kinds(&from);
                let ghost found = kinds_of(kenv@, whole->Instantiate_arguments);
                assert(kind_of(kenv@, head@) == Ok::<SpecKind, SpecTypeError>(
                    SpecKind::Arrow { from: expected, to: Box::new(to@) },
                )) by {
                    assert(Kind::Arrow { from, to }@->from =~= expected);
                }
                let mut i: usize = 0;
                for argument in it: arguments
                    invariant
                        i == it.index(),
                        it.seq() == arguments@,
                        first_argument_error(expected, found, 0) == first_argument_error(
                            expected,
                            found,
                            i as int,
                        ),
                {
                    if i >= from.len() {
                        return Ok(*to);
                    }
                    assert(argument@ == whole->Instantiate_arguments[i as int]);
                    match check_kinds(kenv, argument) {
                        Ok(kind) => {
                            if from[i] != kind {
                                return Err(
                                    TypeError::KindMismatch {
                                        expected: from[i].clone(),
                                        found: kind,
                                    },
                                );
                            }
                        },
                        Err(error) => {
                            return Err(error);
                        },
                    }
                    i += 1;
                }
                Ok(*to)
            },
            Ok(Kind::Star) => Err(TypeError::ExpectedQuantifier { found: *head }),
            Err(error) => Err(error),
        },
        Type::Function { .. } | Type::Boolean | Type::Number => Ok(Kind::Star),
    }
}

} // verus!
