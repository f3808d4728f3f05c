use sgir::{eval, eval_within, run, Binding, Expression, Fault, Outcome, Substitution, Type, Value};

fn number(id: &str) -> Binding {
    Binding { id: id.to_owned(), typ: Type::Number }
}

fn variable(id: &str) -> Expression {
    Expression::Variable(id.to_owned())
}

fn function(parameters: Vec<Binding>, body: Expression) -> Expression {
    Expression::Function { parameters, body: Box::new(body) }
}

fn call(function: Expression, arguments: Vec<Expression>) -> Expression {
    Expression::Application { function: Box::new(function), arguments }
}

/// `(x) => x(x)` applied to itself: an evaluation without end.
fn omega() -> Expression {
    let twice = function(vec![number("x")], call(variable("x"), vec![variable("x")]));
    call(twice.clone(), vec![twice])
}

fn unbounded(expression: Expression) -> Outcome {
    eval_within(&Substitution::new(), expression, usize::MAX)
}

#[test]
fn applying_the_identity_gives_the_argument() {
    let program = call(function(vec![number("x")], variable("x")), vec![Expression::Number(42)]);
    assert!(matches!(run(program.clone()), Value::Number(42)));
    assert!(matches!(unbounded(program), Outcome::Done(Value::Number(42))));
}

#[test]
fn parameters_are_bound_by_position() {
    let first = call(
        function(vec![number("a"), number("b")], variable("a")),
        vec![Expression::Number(1), Expression::Number(2)],
    );
    assert!(matches!(run(first), Value::Number(1)));
    let second = call(
        function(vec![number("a"), number("b")], variable("b")),
        vec![Expression::Number(1), Expression::Number(2)],
    );
    assert!(matches!(run(second), Value::Number(2)));
}

#[test]
fn literals_evaluate_to_themselves() {
    assert!(matches!(run(Expression::Boolean(true)), Value::Boolean(true)));
    assert!(matches!(run(Expression::Boolean(false)), Value::Boolean(false)));
    assert!(matches!(run(Expression::Number(i64::MIN)), Value::Number(i64::MIN)));
    assert!(matches!(run(Expression::Number(694208008135)), Value::Number(694208008135)));
    assert!(matches!(eval_within(&Substitution::new(), Expression::Number(7), 0), Outcome::Done(Value::Number(7))));
}

#[test]
fn a_function_evaluates_to_its_parameters_and_body() {
    let mut subst = Substitution::new();
    subst.insert("y".to_owned(), Value::Number(3));
    let value = eval(&subst, function(vec![number("x")], variable("y")));
    assert_eq!(
        format!("{:?}", value),
        "Function { parameters: [Binding { id: \"x\", typ: Number }], body: Variable(\"y\") }"
    );
}

#[test]
fn a_variable_has_the_value_of_the_substitution() {
    let mut subst = Substitution::new();
    subst.insert("x".to_owned(), Value::Number(1));
    subst.insert("y".to_owned(), Value::Boolean(true));
    subst.insert("x".to_owned(), Value::Number(2));
    assert!(matches!(eval(&subst, variable("x")), Value::Number(2)));
    assert!(matches!(eval(&subst, variable("y")), Value::Boolean(true)));
    assert!(matches!(subst.get(&"x".to_owned()), Some(Value::Number(2))));
    assert!(subst.get(&"z".to_owned()).is_none());
}

#[test]
fn a_cloned_substitution_is_independent() {
    let mut subst = Substitution::new();
    subst.insert("x".to_owned(), Value::Number(1));
    let mut copy = subst.clone();
    copy.insert("x".to_owned(), Value::Number(2));
    copy.insert("y".to_owned(), Value::Number(3));
    assert!(matches!(subst.get(&"x".to_owned()), Some(Value::Number(1))));
    assert!(subst.get(&"y".to_owned()).is_none());
    assert!(matches!(copy.get(&"x".to_owned()), Some(Value::Number(2))));
    assert!(matches!(copy.get(&"y".to_owned()), Some(Value::Number(3))));
}

#[test]
fn evaluation_leaves_the_substitution_as_it_was() {
    let mut subst = Substitution::new();
    subst.insert("x".to_owned(), Value::Number(1));
    let program = call(function(vec![number("x")], variable("x")), vec![Expression::Number(2)]);
    assert!(matches!(eval(&subst, program), Value::Number(2)));
    assert!(matches!(eval(&subst, variable("x")), Value::Number(1)));
}

#[test]
fn arguments_without_a_parameter_are_ignored() {
    let program = call(
        function(vec![number("a")], variable("a")),
        vec![Expression::Number(1), Expression::Number(2)],
    );
    assert!(matches!(run(program), Value::Number(1)));
    // not even evaluated: this one has no value
    let program = call(
        function(vec![number("a")], variable("a")),
        vec![Expression::Number(1), variable("nowhere"), omega()],
    );
    assert!(matches!(run(program), Value::Number(1)));
    let program = call(function(vec![], Expression::Boolean(true)), vec![variable("nowhere")]);
    assert!(matches!(run(program), Value::Boolean(true)));
}

#[test]
fn parameters_without_an_argument_stay_unbound() {
    let program = call(function(vec![number("a"), number("b")], variable("a")), vec![Expression::Number(1)]);
    assert!(matches!(run(program), Value::Number(1)));
    let program = call(function(vec![number("a"), number("b")], variable("b")), vec![Expression::Number(1)]);
    match unbounded(program) {
        Outcome::Failed(Fault::UnboundVariable(id)) => assert_eq!(id, "b"),
        other => panic!("{:?}", other),
    }
}

#[test]
fn parameters_without_an_argument_keep_their_outer_value() {
    let mut subst = Substitution::new();
    subst.insert("b".to_owned(), Value::Number(9));
    let program = call(function(vec![number("a"), number("b")], variable("b")), vec![Expression::Number(1)]);
    assert!(matches!(eval(&subst, program), Value::Number(9)));
}

#[test]
fn a_later_parameter_shadows_an_earlier_one() {
    let program = call(
        function(vec![number("x"), number("x")], variable("x")),
        vec![Expression::Number(1), Expression::Number(2)],
    );
    assert!(matches!(run(program), Value::Number(2)));
}

#[test]
fn arguments_are_evaluated_before_any_parameter_is_bound() {
    // the second argument names the first parameter, which is not yet bound
    let program = call(
        function(vec![number("a"), number("b")], variable("b")),
        vec![Expression::Number(1), variable("a")],
    );
    match unbounded(program) {
        Outcome::Failed(Fault::UnboundVariable(id)) => assert_eq!(id, "a"),
        other => panic!("{:?}", other),
    }
    let mut subst = Substitution::new();
    subst.insert("a".to_owned(), Value::Number(7));
    let program = call(
        function(vec![number("a"), number("b")], variable("b")),
        vec![Expression::Number(1), variable("a")],
    );
    assert!(matches!(eval(&subst, program), Value::Number(7)));
}

#[test]
fn a_function_value_sees_the_bindings_of_its_caller() {
    // ((f) => ((x) => f())(5))(() => x)
    let inner = call(function(vec![number("x")], call(variable("f"), vec![])), vec![Expression::Number(5)]);
    let program = call(function(vec![number("f")], inner), vec![function(vec![], variable("x"))]);
    assert!(matches!(run(program), Value::Number(5)));
}

#[test]
fn what_is_applied_is_evaluated_first() {
    let choose_first = function(vec![number("a"), number("b")], variable("a"));
    let make = call(function(vec![number("f")], variable("f")), vec![choose_first]);
    let program = call(make, vec![Expression::Boolean(false), Expression::Boolean(true)]);
    assert!(matches!(run(program), Value::Boolean(false)));
}

#[test]
fn the_third_of_four_parameters_has_the_third_argument() {
    let program = call(
        function(vec![number("chucc"), number("awe"), number("alex!"), number("j")], variable("alex!")),
        vec![
            Expression::Number(420),
            Expression::Number(11),
            function(vec![number("x")], variable("x")),
            Expression::Number(694208008135),
        ],
    );
    assert_eq!(
        format!("{:?}", run(program)),
        "Function { parameters: [Binding { id: \"x\", typ: Number }], body: Variable(\"x\") }"
    );
}

#[test]
fn applying_what_is_no_function_is_a_fault() {
    let program = call(Expression::Number(1), vec![Expression::Number(2)]);
    assert!(matches!(unbounded(program), Outcome::Failed(Fault::NotAFunction)));
    let program = call(Expression::Boolean(true), vec![]);
    assert!(matches!(unbounded(program), Outcome::Failed(Fault::NotAFunction)));
    // what is applied evaluates to a number
    let constant = call(function(vec![], Expression::Number(3)), vec![]);
    let program = call(constant, vec![variable("nowhere")]);
    assert!(matches!(unbounded(program), Outcome::Failed(Fault::NotAFunction)));
    let program = call(Expression::Number(1), vec![]);
    assert!(matches!(eval_within(&Substitution::new(), program, 0), Outcome::Failed(Fault::NotAFunction)));
}

#[test]
fn an_unbound_variable_is_a_fault() {
    match unbounded(variable("foo")) {
        Outcome::Failed(Fault::UnboundVariable(id)) => assert_eq!(id, "foo"),
        other => panic!("{:?}", other),
    }
    let program = call(variable("f"), vec![Expression::Number(1)]);
    match unbounded(program) {
        Outcome::Failed(Fault::UnboundVariable(id)) => assert_eq!(id, "f"),
        other => panic!("{:?}", other),
    }
}

#[test]
fn the_first_fault_among_the_arguments_is_reported() {
    let program = call(
        function(vec![number("a"), number("b"), number("c")], variable("a")),
        vec![Expression::Number(1), call(Expression::Number(2), vec![]), variable("nowhere")],
    );
    assert!(matches!(unbounded(program), Outcome::Failed(Fault::NotAFunction)));
    let program = call(
        function(vec![number("a"), number("b"), number("c")], variable("a")),
        vec![Expression::Number(1), variable("nowhere"), call(Expression::Number(2), vec![])],
    );
    match unbounded(program) {
        Outcome::Failed(Fault::UnboundVariable(id)) => assert_eq!(id, "nowhere"),
        other => panic!("{:?}", other),
    }
}

#[test]
fn calls_nested_deeper_than_the_bound_are_pending() {
    let identity = || function(vec![number("x")], variable("x"));
    let once = call(identity(), vec![Expression::Number(1)]);
    assert!(matches!(eval_within(&Substitution::new(), once.clone(), 0), Outcome::Pending));
    assert!(matches!(eval_within(&Substitution::new(), once, 1), Outcome::Done(Value::Number(1))));
    // ((f) => f(2))(identity): the call of `f` is nested in the body of the outer call
    let nested = call(
        function(vec![number("f")], call(variable("f"), vec![Expression::Number(2)])),
        vec![identity()],
    );
    assert!(matches!(eval_within(&Substitution::new(), nested.clone(), 1), Outcome::Pending));
    assert!(matches!(eval_within(&Substitution::new(), nested, 2), Outcome::Done(Value::Number(2))));
    // calls among the arguments are not nested in the call that they are arguments of
    let beside = call(identity(), vec![call(identity(), vec![Expression::Number(3)])]);
    assert!(matches!(eval_within(&Substitution::new(), beside, 1), Outcome::Done(Value::Number(3))));
}

#[test]
fn an_evaluation_without_end_is_pending_within_every_bound() {
    assert!(matches!(eval_within(&Substitution::new(), omega(), 0), Outcome::Pending));
    assert!(matches!(eval_within(&Substitution::new(), omega(), 1), Outcome::Pending));
    assert!(matches!(eval_within(&Substitution::new(), omega(), 200), Outcome::Pending));
}

#[test]
fn a_fault_comes_before_the_bound() {
    // the argument is faulty, so the body is never entered
    let program = call(function(vec![number("x")], omega()), vec![variable("nowhere")]);
    match eval_within(&Substitution::new(), program, 0) {
        Outcome::Failed(Fault::UnboundVariable(id)) => assert_eq!(id, "nowhere"),
        other => panic!("{:?}", other),
    }
}

#[test]
fn evaluating_twice_gives_equal_values() {
    let programs = vec![
        Expression::Number(5),
        function(vec![number("x")], variable("y")),
        call(function(vec![number("x")], variable("x")), vec![Expression::Number(42)]),
        call(
            function(vec![number("f")], call(variable("f"), vec![Expression::Boolean(true)])),
            vec![function(vec![number("b")], function(vec![number("c")], variable("b")))],
        ),
    ];
    for program in programs {
        let first = run(program.clone());
        let second = run(program.clone());
        assert_eq!(format!("{:?}", first), format!("{:?}", second));
        let bounded = unbounded(program);
        assert_eq!(format!("{:?}", bounded), format!("Done({:?})", first));
    }
}

#[test]
fn a_cloned_term_equals_what_it_was_cloned_from() {
    let program = call(
        function(vec![number("f"), Binding { id: "g".to_owned(), typ: Type::Boolean }], omega()),
        vec![Expression::Boolean(true), variable("v"), Expression::Number(-1)],
    );
    assert_eq!(format!("{:?}", program.clone()), format!("{:?}", program));
    let value = Value::Function { parameters: vec![number("x")], body: Box::new(program) };
    assert_eq!(format!("{:?}", value.clone()), format!("{:?}", value));
    let binding = number("x");
    assert_eq!(format!("{:?}", binding.clone()), format!("{:?}", binding));
}
