//! The evaluator.

use vstd::prelude::*;
use crate::scope::{bind_all, lemma_bind_all_push};
use crate::semantics::{
    argument_entries, evaluates, least_fuel, lemma_first_unfinished_at,
    lemma_first_unfinished_none, lemma_value_of, outcome_of, outcomes_of, paired_len, value_of,
    SpecFault, SpecOutcome,
};
use crate::substitution::Substitution;
use crate::terms::{spec_bindings, Expression, Value};

verus! {

/// Why an evaluation went wrong.
#[derive(Debug)]
pub enum Fault {
    /// A variable was looked up that the substitution does not bind.
    UnboundVariable(String),
    /// Something other than a function was applied.
    NotAFunction,
}

/// How an evaluation ended within a bound on the depth of nested function
/// calls.
#[derive(Debug)]
pub enum Outcome {
    /// With a value.
    Done(Value),
    /// With a fault.
    Failed(Fault),
    /// Not within the bound.
    Pending,
}

impl View for Fault {
    type V = SpecFault;

    open spec fn view(&self) -> SpecFault {
        match self {
            Fault::UnboundVariable(id) => SpecFault::UnboundVariable(id@),
            Fault::NotAFunction => SpecFault::NotAFunction,
        }
    }
}

impl View for Outcome {
    type V = SpecOutcome;

    open spec fn view(&self) -> SpecOutcome {
        match self {
            Outcome::Done(value) => SpecOutcome::Done(value@),
            Outcome::Failed(fault) => SpecOutcome::Failed(fault@),
            Outcome::Pending => SpecOutcome::Pending,
        }
    }
}

/// Evaluates `expr` under `subst`.
///
/// A variable has the value that `subst` gives it, a literal has itself as
/// its value, and a function has its parameters and its body as its value.
/// A call evaluates what is applied and the arguments under `subst`, and
/// then the body of the function under a copy of `subst` in which the
/// parameters are bound to the arguments' values; `subst` itself stays as
/// it is.
///
/// The expression must have a value under `subst`: its evaluation meets no
/// unbound variable, applies nothing but functions, and ends.
#[verifier::loop_isolation(false)]
pub fn eval(subst: &Substitution, expr: Expression) -> (value: Value)
    requires
        evaluates(subst@, expr@),
    ensures
        value@ == value_of(subst@, expr@),
    decreases least_fuel(subst@, expr@), expr@,
{
    let ghost whole = expr@;
    let ghost fuel = least_fuel(subst@, whole);
    proof {
        lemma_value_of(
            subst@,
            whole,
            choose|fuel: nat| outcome_of(subst@, whole, fuel) is Done,
        );
    }
    match expr {
        Expression::Variable(identifier) => match subst.get(&identifier) {
            Some(value) => value.clone(),
            None => unreached(),
        },
        Expression::Boolean(value) => Value::Boolean(value),
        Expression::Number(value) => Value::Number(value),
        Expression::Function { parameters, body } => Value::Function { parameters, body },
        Expression::Application { function, arguments } => {
            proof {
                lemma_value_of(subst@, function@, fuel);
            }
            match eval(subst, *function) {
                Value::Function { parameters, body } => {
                    let ghost paired = outcomes_of(subst@, whole->arguments, fuel).take(
                        paired_len(spec_bindings(&parameters), arguments.len() as nat) as int,
                    );
                    let ghost entries = argument_entries(spec_bindings(&parameters), paired);
                    proof {
                        lemma_first_unfinished_none(paired, 0);
                    }
                    let mut arguments = arguments;
                    arguments.truncate(parameters.len());
                    let mut extended_subst = subst.clone();
                    let mut i: usize = 0;
                    for argument in it: arguments
                        invariant
                            i == it.index(),
                            it.seq() == arguments@,
                            extended_subst@ == bind_all(subst@, entries.take(i as int)),
                    {
                        assert(argument@ == whole->arguments[i as int]);
                        proof {
                            assert(paired[i as int] == outcome_of(subst@, argument@, fuel));
                            lemma_value_of(subst@, argument@, fuel);
                            lemma_bind_all_push(
                                subst@,
                                entries.take(i as int),
                                entries[i as int],
                            );
                            assert(entries.take(i + 1) =~= entries.take(i as int).push(
                                entries[i as int],
                            ));
                        }
                        let value = eval(subst, argument);
                        extended_subst.insert(parameters[i].id.clone(), value);
                        i += 1;
                    }
                    proof {
                        assert(entries.take(i as int) =~= entries);
                        lemma_value_of(extended_subst@, body@, (fuel - 1) as nat);
                    }
                    eval(&extended_subst, *body)
                },
                _ => unreached(),
            }
        },
    }
}

/// Evaluates `expr` under `subst` as [`eval`] does, as long as function
/// calls nest no deeper than `depth`, and says how the evaluation ended.
///
/// This is the evaluator for expressions of which it is not known that they
/// have a value: a variable that `subst` does not bind and the application
/// of what is no function end the evaluation with a fault, and a call that
/// would nest deeper than `depth` ends it as pending. Where it ends with a
/// value, the expression has that value, and [`eval`] gives the same.
#[verifier::loop_isolation(false)]
pub fn eval_within(subst: &Substitution, expr: Expression, depth: usize) -> (outcome: Outcome)
    ensures
        outcome@ == outcome_of(subst@, expr@, depth as nat),
        outcome matches Outcome::Done(value) ==> evaluates(subst@, expr@) && value@ == value_of(
            subst@,
            expr@,
        ),
    decreases depth, expr@,
{
    let ghost whole = expr@;
    proof {
        if outcome_of(subst@, whole, depth as nat) is Done {
            lemma_value_of(subst@, whole, depth as nat);
        }
    }
    match expr {
        Expression::Variable(identifier) => match subst.get(&identifier) {
            Some(value) => Outcome::Done(value.clone()),
            None => Outcome::Failed(Fault::UnboundVariable(identifier)),
        },
        Expression::Boolean(value) => Outcome::Done(Value::Boolean(value)),
        Expression::Number(value) => Outcome::Done(Value::Number(value)),
        Expression::Function { parameters, body } => Outcome::Done(
            Value::Function { parameters, body },
        ),
        Expression::Application { function, arguments } => match eval_within(
            subst,
            *function,
            depth,
        ) {
            Outcome::Done(Value::Function { parameters, body }) => {
                let ghost paired = outcomes_of(subst@, whole->arguments, depth as nat).take(
                    paired_len(spec_bindings(&parameters), arguments.len() as nat) as int,
                );
                let ghost entries = argument_entries(spec_bindings(&parameters), paired);
                let mut arguments = arguments;
                arguments.truncate(parameters.len());
                let mut extended_subst = subst.clone();
                let mut i: usize = 0;
                for argument in it: arguments
                    invariant
                        i == it.index(),
                        it.seq() == arguments@,
                        forall|j: int| 0 <= j < i ==> paired[j] is Done,
                        extended_subst@ == bind_all(subst@, entries.take(i as int)),
                {
                    assert(argument@ == whole->arguments[i as int]);
                    assert(paired[i as int] == outcome_of(subst@, argument@, depth as nat));
                    match eval_within(subst, argument, depth) {
                        Outcome::Done(value) => {
                            proof {
                                lemma_bind_all_push(
                                    subst@,
                                    entries.take(i as int),
                                    entries[i as int],
                                );
                                assert(entries.take(i + 1) =~= entries.take(i as int).push(
                                    entries[i as int],
                                ));
                            }
                            extended_subst.insert(parameters[i].id.clone(), value);
                        },
                        unfinished => {
                            proof {
                                lemma_first_unfinished_at(paired, 0, i as int);
                            }
                            return unfinished;
                        },
                    }
                    i += 1;
                }
                proof {
                    lemma_first_unfinished_none(paired, 0);
                    assert(entries.take(i as int) =~= entries);
                }
                if depth == 0 {
                    Outcome::Pending
                } else {
                    eval_within(&extended_subst, *body, depth - 1)
                }
            },
            Outcome::Done(_) => Outcome::Failed(Fault::NotAFunction),
            unfinished => unfinished,
        },
    }
}

/// Evaluates `expr` with no variable bound.
///
/// The expression must have a value under the empty substitution.
pub fn run(expr: Expression) -> (value: Value)
    requires
        evaluates(Map::empty(), expr@),
    ensures
        value@ == value_of(Map::empty(), expr@),
{
    let subst = Substitution::new();
    eval(&subst, expr)
}

} // verus!
