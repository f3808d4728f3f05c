//! The kinding rules as a relation, what it means for a type variable to
//! occur free in a type, and how the kind checker relates to both.

use vstd::prelude::*;
use crate::kind::SpecKind;
use crate::kind_check::{
    argument_error, first_argument_error, kind_of, kinds_of, SpecTypeError,
};
use crate::scope::{bind_all, lemma_bind_all_agree, lemma_bind_all_contains};
use crate::types::{parameter_entries, parameter_kinds, SpecType};

verus! {

/// The kinds that the kinding rules give `typ` under `env`.
///
/// A variable has the kind that `env` gives it. A quantifier has an arrow
/// kind from the kinds of its parameters to a kind of its body under `env`
/// with the parameters bound. An instantiation has a kind if its head has
/// an arrow kind to it from kinds that the arguments have, position by
/// position as far as both reach. Function types and the primitive types
/// have kind `Star`.
pub open spec fn kinds_under(env: Map<Seq<char>, SpecKind>, typ: SpecType) -> Set<SpecKind>
    decreases typ,
{
    match typ {
        SpecType::Variable(id) => Set::new(|kind: SpecKind| env.contains_key(id) && env[id] == kind),
        SpecType::ForAll { parameters, typ: body } => Set::new(
            |kind: SpecKind|
                {
                    &&& kind matches SpecKind::Arrow { from, to }
                    &&& from =~= parameter_kinds(parameters)
                    &&& kinds_under(bind_all(env, parameter_entries(parameters)), *body).contains(
                        *to,
                    )
                },
        ),
        SpecType::Instantiate { typ: head, arguments } => Set::new(
            |kind: SpecKind|
                exists|from: Seq<SpecKind>|
                    {
                        &&& #[trigger] kinds_under(env, *head).contains(
                            SpecKind::Arrow { from, to: Box::new(kind) },
                        )
                        &&& forall|i: int|
                            0 <= i < from.len() && i < arguments.len() ==> kinds_under(
                                env,
                                #[trigger] arguments[i],
                            ).contains(from[i])
                    },
        ),
        SpecType::Function { .. } | SpecType::Boolean | SpecType::Number => Set::new(
            |kind: SpecKind| kind is Star,
        ),
    }
}

/// Whether `typ` has the kind `kind` under `env`.
pub open spec fn has_kind(env: Map<Seq<char>, SpecKind>, typ: SpecType, kind: SpecKind) -> bool {
    kinds_under(env, typ).contains(kind)
}

/// Whether `typ` has some kind under `env`.
pub open spec fn well_kinded(env: Map<Seq<char>, SpecKind>, typ: SpecType) -> bool {
    exists|kind: SpecKind| has_kind(env, typ, kind)
}

/// Whether the type variable `id` occurs in `typ` outside the scope of every
/// quantifier that binds it.
pub open spec fn occurs_free(id: Seq<char>, typ: SpecType) -> bool
    decreases typ,
{
    match typ {
        SpecType::Variable(name) => name == id,
        SpecType::ForAll { parameters, typ: body } => {
            &&& forall|i: int| 0 <= i < parameters.len() ==> (#[trigger] parameters[i]).id != id
            &&& occurs_free(id, *body)
        },
        SpecType::Instantiate { typ: head, arguments } => {
            ||| occurs_free(id, *head)
            ||| exists|i: int| 0 <= i < arguments.len() && occurs_free(id, #[trigger] arguments[i])
        },
        SpecType::Function { arguments, result } => {
            ||| exists|i: int| 0 <= i < arguments.len() && occurs_free(id, #[trigger] arguments[i])
            ||| occurs_free(id, *result)
        },
        SpecType::Boolean | SpecType::Number => false,
    }
}

/// Whether no type variable occurs free in `typ`.
pub open spec fn closed(typ: SpecType) -> bool {
    forall|id: Seq<char>| !occurs_free(id, typ)
}

/// Whether two environments bind alike every type variable that occurs free
/// in `typ`.
pub open spec fn agree_on(
    first: Map<Seq<char>, SpecKind>,
    second: Map<Seq<char>, SpecKind>,
    typ: SpecType,
) -> bool {
    forall|id: Seq<char>| #[trigger]
        occurs_free(id, typ) ==> {
            &&& first.contains_key(id) == second.contains_key(id)
            &&& first.contains_key(id) ==> first[id] == second[id]
        }
}

/// No argument is in error exactly where each one that is looked at fits.
proof fn lemma_first_argument_error_none(
    expected: Seq<SpecKind>,
    found: Seq<Result<SpecKind, SpecTypeError>>,
    start: int,
)
    requires
        0 <= start,
    ensures
        first_argument_error(expected, found, start) is None <==> forall|i: int|
            start <= i < expected.len() && i < found.len() ==> argument_error(
                expected[i],
                found[i],
            ) is None,
    decreases expected.len() - start,
{
    if start < expected.len() && start < found.len() {
        lemma_first_argument_error_none(expected, found, start + 1);
    }
}

/// The first argument error is the error of one of the arguments that are
/// looked at.
proof fn lemma_first_argument_error_some(
    expected: Seq<SpecKind>,
    found: Seq<Result<SpecKind, SpecTypeError>>,
    start: int,
) -> (at: int)
    requires
        0 <= start,
        first_argument_error(expected, found, start) is Some,
    ensures
        start <= at < expected.len(),
        at < found.len(),
        argument_error(expected[at], found[at]) == first_argument_error(expected, found, start),
    decreases expected.len() - start,
{
    if argument_error(expected[start], found[start]) is Some {
        start
    } else {
        lemma_first_argument_error_some(expected, found, start + 1)
    }
}

/// The kind checker finds every kind that the kinding rules give: a type
/// that has a kind under `env` is given that kind under `env`. In
/// particular a type that is well kinded with no variable in scope is given
/// its kind under the empty environment.
pub proof fn lemma_kinded_type_checks(env: Map<Seq<char>, SpecKind>, typ: SpecType, kind: SpecKind)
    requires
        has_kind(env, typ, kind),
    ensures
        kind_of(env, typ) == Ok::<SpecKind, SpecTypeError>(kind),
    decreases typ,
{
    match typ {
        SpecType::ForAll { parameters, typ: body } => {
            lemma_kinded_type_checks(
                bind_all(env, parameter_entries(parameters)),
                *body,
                *kind->to,
            );
        },
        SpecType::Instantiate { typ: head, arguments } => {
            let from = choose|from: Seq<SpecKind>|
                {
                    &&& #[trigger] kinds_under(env, *head).contains(
                        SpecKind::Arrow { from, to: Box::new(kind) },
                    )
                    &&& forall|i: int|
                        0 <= i < from.len() && i < arguments.len() ==> kinds_under(
                            env,
                            #[trigger] arguments[i],
                        ).contains(from[i])
                };
            lemma_kinded_type_checks(env, *head, SpecKind::Arrow { from, to: Box::new(kind) });
            let found = kinds_of(env, arguments);
            assert forall|i: int| 0 <= i < from.len() && i < found.len() implies argument_error(
                from[i],
                found[i],
            ) is None by {
                lemma_kinded_type_checks(env, arguments[i], from[i]);
            }
            lemma_first_argument_error_none(from, found, 0);
        },
        _ => {},
    }
}

/// The kind checker finds no kind but what the kinding rules give: the
/// kind that it computes for a type under `env` is a kind that the type has
/// under `env`.
pub proof fn lemma_checked_type_is_kinded(
    env: Map<Seq<char>, SpecKind>,
    typ: SpecType,
    kind: SpecKind,
)
    requires
        kind_of(env, typ) == Ok::<SpecKind, SpecTypeError>(kind),
    ensures
        has_kind(env, typ, kind),
    decreases typ,
{
    match typ {
        SpecType::ForAll { parameters, typ: body } => {
            lemma_checked_type_is_kinded(
                bind_all(env, parameter_entries(parameters)),
                *body,
                *kind->to,
            );
        },
        SpecType::Instantiate { typ: head, arguments } => {
            let from = kind_of(env, *head)->Ok_0->from;
            lemma_checked_type_is_kinded(env, *head, SpecKind::Arrow { from, to: Box::new(kind) });
            let found = kinds_of(env, arguments);
            lemma_first_argument_error_none(from, found, 0);
            assert forall|i: int| 0 <= i < from.len() && i < arguments.len() implies has_kind(
                env,
                #[trigger] arguments[i],
                from[i],
            ) by {
                lemma_checked_type_is_kinded(env, arguments[i], from[i]);
            }
        },
        _ => {},
    }
}

/// The kind checker finds a kind under `env` for exactly the types that
/// are well kinded under `env`.
pub proof fn lemma_checks_exactly_the_well_kinded(env: Map<Seq<char>, SpecKind>, typ: SpecType)
    ensures
        kind_of(env, typ) is Ok <==> well_kinded(env, typ),
{
    if kind_of(env, typ) is Ok {
        lemma_checked_type_is_kinded(env, typ, kind_of(env, typ)->Ok_0);
    }
    if well_kinded(env, typ) {
        lemma_kinded_type_checks(env, typ, choose|kind: SpecKind| has_kind(env, typ, kind));
    }
}

/// The kind of a quantifier, where it has one, is an arrow kind from the
/// kinds that its parameters declare, in declaration order.
pub proof fn lemma_quantifier_has_arrow_kind(env: Map<Seq<char>, SpecKind>, typ: SpecType)
    requires
        typ is ForAll,
        kind_of(env, typ) is Ok,
    ensures
        kind_of(env, typ)->Ok_0 is Arrow,
        kind_of(env, typ)->Ok_0->from == parameter_kinds(typ->parameters),
{
}

/// An instantiation has a kind only where its head has an arrow kind, and
/// its kind is then the kind that the arrow leads to.
pub proof fn lemma_instantiated_head_has_arrow_kind(env: Map<Seq<char>, SpecKind>, typ: SpecType)
    requires
        typ is Instantiate,
        kind_of(env, typ) is Ok,
    ensures
        kind_of(env, *typ->Instantiate_typ) matches Ok(SpecKind::Arrow { to, .. }) && *to
            == kind_of(env, typ)->Ok_0,
{
}

/// A type has at most one kind under an environment.
pub proof fn lemma_kind_is_unique(
    env: Map<Seq<char>, SpecKind>,
    typ: SpecType,
    kind: SpecKind,
    other: SpecKind,
)
    requires
        has_kind(env, typ, kind),
        has_kind(env, typ, other),
    ensures
        kind == other,
{
    lemma_kinded_type_checks(env, typ, kind);
    lemma_kinded_type_checks(env, typ, other);
}

/// An identifier that the kind checker reports as unbound occurs free in the
/// type and is not bound by the environment.
pub proof fn lemma_unbound_identifier_is_free(
    env: Map<Seq<char>, SpecKind>,
    typ: SpecType,
    id: Seq<char>,
)
    requires
        kind_of(env, typ) == Err::<SpecKind, SpecTypeError>(SpecTypeError::UnboundIdentifier(id)),
    ensures
        occurs_free(id, typ),
        !env.contains_key(id),
    decreases typ,
{
    match typ {
        SpecType::ForAll { parameters, typ: body } => {
            let entries = parameter_entries(parameters);
            lemma_unbound_identifier_is_free(bind_all(env, entries), *body, id);
            lemma_bind_all_contains(env, entries, id);
            assert forall|i: int| 0 <= i < parameters.len() implies (#[trigger] parameters[i]).id
                != id by {
                assert(entries[i].0 == parameters[i].id);
            }
        },
        SpecType::Instantiate { typ: head, arguments } => {
            match kind_of(env, *head) {
                Ok(SpecKind::Arrow { from, to }) => {
                    let found = kinds_of(env, arguments);
                    let at = lemma_first_argument_error_some(from, found, 0);
                    lemma_unbound_identifier_is_free(env, arguments[at], id);
                },
                _ => {
                    lemma_unbound_identifier_is_free(env, *head, id);
                },
            }
        },
        _ => {},
    }
}

/// The outcome of a check depends on the environment only through the type
/// variables that occur free in the type.
pub proof fn lemma_kind_depends_on_free_variables(
    first: Map<Seq<char>, SpecKind>,
    second: Map<Seq<char>, SpecKind>,
    typ: SpecType,
)
    requires
        agree_on(first, second, typ),
    ensures
        kind_of(first, typ) == kind_of(second, typ),
    decreases typ,
{
    match typ {
        SpecType::Variable(id) => {
            assert(occurs_free(id, typ));
        },
        SpecType::ForAll { parameters, typ: body } => {
            let entries = parameter_entries(parameters);
            let first_inner = bind_all(first, entries);
            let second_inner = bind_all(second, entries);
            assert forall|id: Seq<char>| #[trigger] occurs_free(id, *body) implies {
                &&& first_inner.contains_key(id) == second_inner.contains_key(id)
                &&& first_inner.contains_key(id) ==> first_inner[id] == second_inner[id]
            } by {
                if !exists|i: int| 0 <= i < entries.len() && (#[trigger] entries[i]).0 == id {
                    assert forall|i: int| 0 <= i < parameters.len() implies (
                    #[trigger] parameters[i]).id != id by {
                        assert(entries[i].0 == parameters[i].id);
                    }
                    assert(occurs_free(id, typ));
                }
                lemma_bind_all_agree(first, second, entries, id);
            }
            lemma_kind_depends_on_free_variables(first_inner, second_inner, *body);
        },
        SpecType::Instantiate { typ: head, arguments } => {
            assert forall|id: Seq<char>| #[trigger] occurs_free(id, *head) implies {
                &&& first.contains_key(id) == second.contains_key(id)
                &&& first.contains_key(id) ==> first[id] == second[id]
            } by {
                assert(occurs_free(id, typ));
            }
            lemma_kind_depends_on_free_variables(first, second, *head);
            assert forall|i: int| 0 <= i < arguments.len() implies kinds_of(first, arguments)[i]
                == kinds_of(second, arguments)[i] by {
                assert forall|id: Seq<char>| #[trigger]
                    occurs_free(id, arguments[i]) implies {
                    &&& first.contains_key(id) == second.contains_key(id)
                    &&& first.contains_key(id) ==> first[id] == second[id]
                } by {
                    assert(occurs_free(id, typ));
                }
                lemma_kind_depends_on_free_variables(first, second, arguments[i]);
            }
            assert(kinds_of(first, arguments) =~= kinds_of(second, arguments));
        },
        _ => {},
    }
}

/// The kind checker treats a closed type in the same way under every
/// environment.
pub proof fn lemma_closed_type_ignores_environment(
    first: Map<Seq<char>, SpecKind>,
    second: Map<Seq<char>, SpecKind>,
    typ: SpecType,
)
    requires
        closed(typ),
    ensures
        kind_of(first, typ) == kind_of(second, typ),
{
    lemma_kind_depends_on_free_variables(first, second, typ);
}

/// The kind checker finds a kind under the empty environment for every
/// closed type that is well kinded, under whatever environment.
pub proof fn lemma_closed_well_kinded_type_checks(env: Map<Seq<char>, SpecKind>, typ: SpecType)
    requires
        closed(typ),
        well_kinded(env, typ),
    ensures
        kind_of(Map::empty(), typ) is Ok,
        has_kind(env, typ, kind_of(Map::empty(), typ)->Ok_0),
{
    let kind = choose|kind: SpecKind| has_kind(env, typ, kind);
    lemma_kinded_type_checks(env, typ, kind);
    lemma_closed_type_ignores_environment(env, Map::empty(), typ);
}

/// A closed type is not refused for an unbound identifier, whatever the
/// environment: if its check fails, then on a kind mismatch or on the
/// instantiation of what is no quantifier.
pub proof fn lemma_closed_type_has_no_unbound_identifier(
    env: Map<Seq<char>, SpecKind>,
    typ: SpecType,
)
    requires
        closed(typ),
    ensures
        !(kind_of(env, typ) matches Err(SpecTypeError::UnboundIdentifier(_))),
{
    match kind_of(env, typ) {
        Err(SpecTypeError::UnboundIdentifier(id)) => {
            lemma_unbound_identifier_is_free(env, typ, id);
        },
        _ => {},
    }
}

} // verus!
