//! What evaluation means.
//!
//! Evaluation need not end, and it can go wrong: a variable may be unbound,
//! and what is applied may not be a function. Its meaning is therefore given
//! with a bound on how deep function calls may nest: within a bound an
//! evaluation ends with a value, ends with a fault, or does not end. An
//! expression has a value if its evaluation ends with one within some bound.

use vstd::prelude::*;
use crate::scope::bind_all;
use crate::terms::{SpecBinding, SpecExpression, SpecValue};

verus! {

/// Why an evaluation went wrong.
pub enum SpecFault {
    /// A variable was looked up that the substitution does not bind.
    UnboundVariable(Seq<char>),
    /// Something other than a function was applied.
    NotAFunction,
}

/// How the evaluation of an expression ends within a bound on the depth of
/// nested function calls.
pub enum SpecOutcome {
    /// With a value.
    Done(SpecValue),
    /// With a fault.
    Failed(SpecFault),
    /// Not within the bound.
    Pending,
}

/// How many parameters of a call are paired off with an argument.
pub open spec fn paired_len(parameters: Seq<SpecBinding>, arguments: nat) -> nat {
    if parameters.len() <= arguments {
        parameters.len()
    } else {
        arguments
    }
}

/// The first outcome from position `start` on that is no value.
pub open spec fn first_unfinished(outcomes: Seq<SpecOutcome>, start: int) -> Option<SpecOutcome>
    decreases outcomes.len() - start,
{
    if start < 0 || start >= outcomes.len() {
        None
    } else if outcomes[start] is Done {
        first_unfinished(outcomes, start + 1)
    } else {
        Some(outcomes[start])
    }
}

/// The entries that a call adds to the substitution: each parameter, in
/// order, with the value of the argument at its position.
pub open spec fn argument_entries(parameters: Seq<SpecBinding>, arguments: Seq<SpecOutcome>) -> Seq<
    (Seq<char>, SpecValue),
> {
    Seq::new(arguments.len(), |i: int| (parameters[i].id, arguments[i]->Done_0))
}

/// The outcome of evaluating each of `expressions` under `env`, in order.
pub open spec fn outcomes_of(
    env: Map<Seq<char>, SpecValue>,
    expressions: Seq<SpecExpression>,
    fuel: nat,
) -> Seq<SpecOutcome>
    decreases fuel, expressions, 0nat,
{
    Seq::new(
        expressions.len(),
        |i: int|
            if 0 <= i < expressions.len() {
                outcome_of(env, expressions[i], fuel)
            } else {
                SpecOutcome::Pending
            },
    )
}

/// The outcome of evaluating `expression` under `env` where function calls
/// nest at most `fuel` deep.
///
/// A call first evaluates what is applied, then the arguments that have a
/// parameter, from left to right and all under `env`, and then the body of
/// the function under `env` with the parameters bound to the arguments'
/// values. Parameters without an argument stay as `env` has them, and
/// arguments without a parameter are not evaluated.
pub open spec fn outcome_of(
    env: Map<Seq<char>, SpecValue>,
    expression: SpecExpression,
    fuel: nat,
) -> SpecOutcome
    decreases fuel, expression, 1nat,
{
    match expression {
        SpecExpression::Variable(id) => if env.contains_key(id) {
            SpecOutcome::Done(env[id])
        } else {
            SpecOutcome::Failed(SpecFault::UnboundVariable(id))
        },
        SpecExpression::Boolean(value) => SpecOutcome::Done(SpecValue::Boolean(value)),
        SpecExpression::Number(value) => SpecOutcome::Done(SpecValue::Number(value)),
        SpecExpression::Function { parameters, body } => SpecOutcome::Done(
            SpecValue::Function { parameters, body },
        ),
        SpecExpression::Application { function, arguments } => match outcome_of(
            env,
            *function,
            fuel,
        ) {
            SpecOutcome::Done(SpecValue::Function { parameters, body }) => {
                let paired = outcomes_of(env, arguments, fuel).take(
                    paired_len(parameters, arguments.len()) as int,
                );
                match first_unfinished(paired, 0) {
                    Some(outcome) => outcome,
                    None => if fuel == 0 {
                        SpecOutcome::Pending
                    } else {
                        outcome_of(
                            bind_all(env, argument_entries(parameters, paired)),
                            *body,
                            (fuel - 1) as nat,
                        )
                    },
                }
            },
            SpecOutcome::Done(_) => SpecOutcome::Failed(SpecFault::NotAFunction),
            SpecOutcome::Failed(fault) => SpecOutcome::Failed(fault),
            SpecOutcome::Pending => SpecOutcome::Pending,
        },
    }
}

/// Whether `expression` has a value under `env`.
pub open spec fn evaluates(env: Map<Seq<char>, SpecValue>, expression: SpecExpression) -> bool {
    exists|fuel: nat| outcome_of(env, expression, fuel) is Done
}

/// Whether `fuel` is the least bound under which `expression` has a value.
pub open spec fn is_least_fuel(
    env: Map<Seq<char>, SpecValue>,
    expression: SpecExpression,
    fuel: nat,
) -> bool {
    &&& outcome_of(env, expression, fuel) is Done
    &&& forall|less: nat| less < fuel ==> !(outcome_of(env, expression, less) is Done)
}

/// The least bound under which `expression` has a value, if it has one.
pub open spec fn least_fuel(env: Map<Seq<char>, SpecValue>, expression: SpecExpression) -> nat {
    choose|fuel: nat| is_least_fuel(env, expression, fuel)
}

/// The value of `expression` under `env`, if it has one.
pub open spec fn value_of(env: Map<Seq<char>, SpecValue>, expression: SpecExpression) -> SpecValue {
    outcome_of(env, expression, least_fuel(env, expression))->Done_0
}

/// Where values are followed by an outcome that is no value, that outcome
/// is the first unfinished one.
pub proof fn lemma_first_unfinished_at(outcomes: Seq<SpecOutcome>, start: int, at: int)
    requires
        0 <= start <= at < outcomes.len(),
        forall|j: int| start <= j < at ==> outcomes[j] is Done,
        !(outcomes[at] is Done),
    ensures
        first_unfinished(outcomes, start) == Some(outcomes[at]),
    decreases at - start,
{
    if start < at {
        lemma_first_unfinished_at(outcomes, start + 1, at);
    }
}

/// No outcome is unfinished exactly where all are values, and a value is
/// never the first unfinished outcome.
pub proof fn lemma_first_unfinished_none(outcomes: Seq<SpecOutcome>, start: int)
    requires
        0 <= start,
    ensures
        first_unfinished(outcomes, start) is None <==> forall|j: int|
            start <= j < outcomes.len() ==> outcomes[j] is Done,
        first_unfinished(outcomes, start) matches Some(outcome) ==> !(outcome is Done),
    decreases outcomes.len() - start,
{
    if start < outcomes.len() {
        lemma_first_unfinished_none(outcomes, start + 1);
    }
}

/// Two sequences of outcomes that agree up to and including the first
/// unfinished outcome of the one have the same first unfinished outcome.
proof fn lemma_first_unfinished_agree(first: Seq<SpecOutcome>, second: Seq<SpecOutcome>, start: int)
    requires
        first.len() == second.len(),
        0 <= start,
        forall|i: int|
            start <= i < first.len() && (forall|j: int| start <= j < i ==> first[j] is Done)
                ==> second[i] == first[i],
    ensures
        first_unfinished(second, start) == first_unfinished(first, start),
    decreases first.len() - start,
{
    if start < first.len() {
        if first[start] is Done {
            assert forall|i: int|
                start + 1 <= i < first.len() && (forall|j: int|
                    start + 1 <= j < i ==> first[j] is Done) implies second[i] == first[i] by {
                assert(forall|j: int| start <= j < i ==> first[j] is Done);
            }
            lemma_first_unfinished_agree(first, second, start + 1);
        }
    }
}

/// An evaluation that ends within a bound ends in the same way within
/// every larger bound.
pub proof fn lemma_outcome_stable(
    env: Map<Seq<char>, SpecValue>,
    expression: SpecExpression,
    fuel: nat,
    more: nat,
)
    requires
        fuel <= more,
        !(outcome_of(env, expression, fuel) is Pending),
    ensures
        outcome_of(env, expression, more) == outcome_of(env, expression, fuel),
    decreases fuel, expression,
{
    match expression {
        SpecExpression::Application { function, arguments } => {
            lemma_outcome_stable(env, *function, fuel, more);
            match outcome_of(env, *function, fuel) {
                SpecOutcome::Done(SpecValue::Function { parameters, body }) => {
                    let count = paired_len(parameters, arguments.len()) as int;
                    let paired = outcomes_of(env, arguments, fuel).take(count);
                    let paired_more = outcomes_of(env, arguments, more).take(count);
                    assert forall|i: int|
                        0 <= i < paired.len() && (forall|j: int|
                            0 <= j < i ==> paired[j] is Done) implies paired_more[i]
                        == paired[i] by {
                        if !(paired[i] is Done) {
                            lemma_first_unfinished_at(paired, 0, i);
                        }
                        lemma_outcome_stable(env, arguments[i], fuel, more);
                    }
                    lemma_first_unfinished_agree(paired, paired_more, 0);
                    if first_unfinished(paired, 0) is None {
                        lemma_first_unfinished_none(paired, 0);
                        assert(paired_more =~= paired);
                        lemma_outcome_stable(
                            bind_all(env, argument_entries(parameters, paired)),
                            *body,
                            (fuel - 1) as nat,
                            (more - 1) as nat,
                        );
                    }
                },
                _ => {},
            }
        },
        _ => {},
    }
}

/// Whatever the bounds under which two evaluations of one expression end:
/// they end in the same way.
pub proof fn lemma_outcome_deterministic(
    env: Map<Seq<char>, SpecValue>,
    expression: SpecExpression,
    fuel: nat,
    other: nat,
)
    requires
        !(outcome_of(env, expression, fuel) is Pending),
        !(outcome_of(env, expression, other) is Pending),
    ensures
        outcome_of(env, expression, fuel) == outcome_of(env, expression, other),
{
    if fuel <= other {
        lemma_outcome_stable(env, expression, fuel, other);
    } else {
        lemma_outcome_stable(env, expression, other, fuel);
    }
}

/// Applying what evaluates to something other than a function is a fault,
/// whatever the arguments are: the call has no value, and within every
/// bound within which what is applied is evaluated it ends with that fault.
pub proof fn lemma_applying_non_function_fails(
    env: Map<Seq<char>, SpecValue>,
    function: SpecExpression,
    arguments: Seq<SpecExpression>,
    fuel: nat,
)
    requires
        outcome_of(env, function, fuel) matches SpecOutcome::Done(value) && !(value is Function),
    ensures
        !evaluates(env, SpecExpression::Application { function: Box::new(function), arguments }),
        forall|more: nat|
            fuel <= more ==> #[trigger] outcome_of(
                env,
                SpecExpression::Application { function: Box::new(function), arguments },
                more,
            ) == SpecOutcome::Failed(SpecFault::NotAFunction),
{
    let call = SpecExpression::Application { function: Box::new(function), arguments };
    assert forall|any: nat| !(#[trigger] outcome_of(env, call, any) is Done) by {
        if !(outcome_of(env, function, any) is Pending) {
            lemma_outcome_deterministic(env, function, fuel, any);
        }
    }
    assert forall|more: nat| fuel <= more implies #[trigger] outcome_of(env, call, more)
        == SpecOutcome::Failed(SpecFault::NotAFunction) by {
        lemma_outcome_stable(env, function, fuel, more);
    }
}

/// A variable that the environment does not bind has no value: looking it
/// up is a fault within every bound.
pub proof fn lemma_unbound_variable_fails(env: Map<Seq<char>, SpecValue>, id: Seq<char>)
    requires
        !env.contains_key(id),
    ensures
        !evaluates(env, SpecExpression::Variable(id)),
        forall|fuel: nat| #[trigger]
            outcome_of(env, SpecExpression::Variable(id), fuel) == SpecOutcome::Failed(
                SpecFault::UnboundVariable(id),
            ),
{
}

/// Below every bound under which an expression has a value there is a
/// least one.
proof fn lemma_least_fuel_exists(
    env: Map<Seq<char>, SpecValue>,
    expression: SpecExpression,
    fuel: nat,
)
    requires
        outcome_of(env, expression, fuel) is Done,
    ensures
        exists|least: nat| least <= fuel && is_least_fuel(env, expression, least),
    decreases fuel,
{
    if exists|less: nat| less < fuel && outcome_of(env, expression, less) is Done {
        let less = choose|less: nat| less < fuel && outcome_of(env, expression, less) is Done;
        lemma_least_fuel_exists(env, expression, less);
    } else {
        assert(is_least_fuel(env, expression, fuel));
    }
}

/// An expression that evaluates to a value within some bound has that
/// value, and the least bound under which it has one is no larger.
pub proof fn lemma_value_of(env: Map<Seq<char>, SpecValue>, expression: SpecExpression, fuel: nat)
    requires
        outcome_of(env, expression, fuel) is Done,
    ensures
        evaluates(env, expression),
        least_fuel(env, expression) <= fuel,
        is_least_fuel(env, expression, least_fuel(env, expression)),
        outcome_of(env, expression, fuel) == SpecOutcome::Done(value_of(env, expression)),
{
    lemma_least_fuel_exists(env, expression, fuel);
    lemma_outcome_stable(env, expression, least_fuel(env, expression), fuel);
}

} // verus!
