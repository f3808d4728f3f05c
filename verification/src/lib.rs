//! The semantic core of a small typed intermediate representation for a
//! polymorphic lambda calculus.
//!
//! There are two parts, and neither needs the other. The kind checker
//! ([`check_kinds`]) computes the kind of a type of the type language under
//! a kind environment, or says why the type has none. The evaluator
//! ([`eval`], [`run`], [`eval_within`]) computes the value of an expression
//! of the term language under a substitution.
//!
//! Every data type has a mathematical value, its view, and the contracts of
//! the executable functions are stated over these: [`kind_check::kind_of`]
//! says what the kind checker returns, [`semantics::outcome_of`] what the
//! evaluator returns. The module [`kinding`] relates the kind checker to the
//! kinding rules, the module [`semantics`] holds the laws of evaluation.

pub mod eval;
pub mod kind;
pub mod kind_check;
pub mod kind_env;
pub mod kinding;
pub mod scope;
pub mod semantics;
pub mod substitution;
pub mod terms;
pub mod types;

pub use eval::{eval, eval_within, run, Fault, Outcome};
pub use kind::{Kind, SpecKind};
pub use kind_check::{check_kinds, SpecTypeError, TypeError};
pub use kind_env::KindEnv;
pub use semantics::{SpecFault, SpecOutcome};
pub use substitution::Substitution;
pub use terms::{Binding, Expression, SpecBinding, SpecExpression, SpecValue, Value};
pub use types::{SpecType, SpecTypeBinding, Type, TypeBinding};
