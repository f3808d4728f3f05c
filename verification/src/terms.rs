//! The term language and the values that terms evaluate to.

use vstd::prelude::*;
use crate::types::{SpecType, Type};

verus! {

/// The mathematical value of a [`Binding`].
pub struct SpecBinding {
    pub id: Seq<char>,
    pub typ: SpecType,
}

/// The mathematical value of an [`Expression`].
pub enum SpecExpression {
    Variable(Seq<char>),
    Boolean(bool),
    Number(i64),
    Function { parameters: Seq<SpecBinding>, body: Box<SpecExpression> },
    Application { function: Box<SpecExpression>, arguments: Seq<SpecExpression> },
}

/// The mathematical value of a [`Value`].
pub enum SpecValue {
    Boolean(bool),
    Number(i64),
    Function { parameters: Seq<SpecBinding>, body: Box<SpecExpression> },
}

/// A term variable together with its declared type. The type is carried
/// along; evaluation does not look at it.
#[derive(Debug)]
pub struct Binding {
    pub id: String,
    pub typ: Type,
}

/// An expression of the term language.
#[derive(Debug)]
pub enum Expression {
    Variable(String),
    Boolean(bool),
    Number(i64),
    Function { parameters: Vec<Binding>, body: Box<Expression> },
    Application { function: Box<Expression>, arguments: Vec<Expression> },
}

/// What an expression evaluates to. A function value is its parameter list
/// and its body and nothing else: it does not remember the environment in
/// which the function was written.
#[derive(Debug)]
pub enum Value {
    Boolean(bool),
    Number(i64),
    Function { parameters: Vec<Binding>, body: Box<Expression> },
}

impl View for Binding {
    type V = SpecBinding;

    open spec fn view(&self) -> SpecBinding {
        SpecBinding { id: self.id@, typ: self.typ@ }
    }
}

impl Clone for Binding {
    fn clone(&self) -> (copy: Self)
        ensures
            copy@ == self@,
    {
        Binding { id: self.id.clone(), typ: self.typ.clone() }
    }
}

/// The mathematical values of a list of bindings, in order.
pub open spec fn spec_bindings(bindings: &Vec<Binding>) -> Seq<SpecBinding> {
    Seq::new(bindings.len() as nat, |i: int| bindings[i]@)
}

/// Copies a list of bindings.
fn clone_bindings(bindings: &Vec<Binding>) -> (copy: Vec<Binding>)
    ensures
        spec_bindings(&copy) == spec_bindings(bindings),
{
    let copy = bindings.clone();
    copy
}

impl Expression {
    /// The mathematical value of this expression, by recursion on its
    /// structure. (The bounds on `i` are there for the proof of termination.)
    pub open spec fn to_spec(&self) -> SpecExpression
        decreases self,
    {
        match self {
            Expression::Variable(id) => SpecExpression::Variable(id@),
            Expression::Boolean(value) => SpecExpression::Boolean(*value),
            Expression::Number(value) => SpecExpression::Number(*value),
            Expression::Function { parameters, body } => SpecExpression::Function {
                parameters: spec_bindings(parameters),
                body: Box::new(body.to_spec()),
            },
            Expression::Application { function, arguments } => SpecExpression::Application {
                function: Box::new(function.to_spec()),
                arguments: Seq::new(
                    arguments.len() as nat,
                    |i: int|
                        if 0 <= i < arguments.len() {
                            arguments[i].to_spec()
                        } else {
                            SpecExpression::Boolean(false)
                        },
                ),
            },
        }
    }
}

impl View for Expression {
    type V = SpecExpression;

    open spec fn view(&self) -> SpecExpression {
        self.to_spec()
    }
}

/// The mathematical values of a list of expressions, in order.
pub open spec fn spec_expressions(expressions: &Vec<Expression>) -> Seq<SpecExpression> {
    Seq::new(expressions.len() as nat, |i: int| expressions[i]@)
}

/// Copies a list of expressions.
fn clone_expressions(expressions: &Vec<Expression>) -> (copy: Vec<Expression>)
    ensures
        spec_expressions(&copy) == spec_expressions(expressions),
    decreases expressions,
{
    let mut copy: Vec<Expression> = Vec::new();
    let mut i: usize = 0;
    while i < expressions.len()
        invariant
            i <= expressions.len(),
            copy.len() == i,
            forall|j: int| 0 <= j < i ==> copy[j]@ == expressions[j]@,
        decreases expressions.len() - i,
    {
        copy.push(expressions[i].clone());
        i += 1;
    }
    copy
}

impl Clone for Expression {
    fn clone(&self) -> (copy: Self)
        ensures
            copy@ == self@,
        decreases self,
    {
        match self {
            Expression::Variable(id) => Expression::Variable(id.clone()),
            Expression::Boolean(value) => Expression::Boolean(*value),
            Expression::Number(value) => Expression::Number(*value),
            Expression::Function { parameters, body } => Expression::Function {
                parameters: clone_bindings(parameters),
                body: Box::new((**body).clone()),
            },
            Expression::Application { function, arguments } => {
                let copy = Expression::Application {
                    function: Box::new((**function).clone()),
                    arguments: clone_expressions(arguments),
                };
                assert(copy@->arguments =~= spec_expressions(&copy->arguments));
                assert(self@->arguments =~= spec_expressions(arguments));
                copy
            },
        }
    }
}

impl View for Value {
    type V = SpecValue;

    open spec fn view(&self) -> SpecValue {
        match self {
            Value::Boolean(value) => SpecValue::Boolean(*value),
            Value::Number(value) => SpecValue::Number(*value),
            Value::Function { parameters, body } => SpecValue::Function {
                parameters: spec_bindings(parameters),
                body: Box::new(body@),
            },
        }
    }
}

impl Clone for Value {
    fn clone(&self) -> (copy: Self)
        ensures
            copy@ == self@,
    {
        match self {
            Value::Boolean(value) => Value::Boolean(*value),
            Value::Number(value) => Value::Number(*value),
            Value::Function { parameters, body } => Value::Function {
                parameters: clone_bindings(parameters),
                body: Box::new((**body).clone()),
            },
        }
    }
}

} // verus!
