use anthem::asp;
use anthem::context::DeclarationContext;
use anthem::error::{Error, Fault, Feature};
use anthem::fol::{
    BinaryOperator, ComparisonOperator, DeclarationOrigin, Domain, Formula, Term,
    VariableDeclaration,
};
use anthem::scope::VariableDeclarationStack;
use anthem::translate::{choose_value_in_primitive, choose_value_in_term};

fn fresh() -> (DeclarationContext, VariableDeclarationStack) {
    (DeclarationContext::new(), VariableDeclarationStack::new())
}

fn target(stack: &mut VariableDeclarationStack) -> VariableDeclaration {
    stack.find_or_create(&"Z".to_string())
}

fn variable(declaration: &VariableDeclaration) -> Box<Term> {
    Box::new(Term::Variable(declaration.clone()))
}

#[test]
fn primitive_choice_is_plain_equality() {
    let declaration =
        VariableDeclaration { id: 0, origin: DeclarationOrigin::Generated, domain: Domain::Program };
    let formula = choose_value_in_primitive(Box::new(Term::Integer(5)), declaration.clone());
    assert_eq!(
        formula,
        Formula::Compare(
            ComparisonOperator::Equal,
            variable(&declaration),
            Box::new(Term::Integer(5)),
        )
    );
}

#[test]
fn literal_five_yields_exactly_z_equals_5() {
    let (mut context, mut stack) = fresh();
    let z = target(&mut stack);
    let term = asp::Term::Symbol(asp::Symbol::Number(5));
    let formula = choose_value_in_term(&term, &z, &mut context, &mut stack).unwrap();
    // no quantifier wrapper, just Z = 5
    assert_eq!(
        formula,
        Formula::Compare(ComparisonOperator::Equal, variable(&z), Box::new(Term::Integer(5)))
    );
}

#[test]
fn string_and_extrema_literals() {
    let (mut context, mut stack) = fresh();
    let z = target(&mut stack);
    let term = asp::Term::Symbol(asp::Symbol::Str("abc".to_string()));
    let formula = choose_value_in_term(&term, &z, &mut context, &mut stack).unwrap();
    assert_eq!(
        formula,
        Formula::Compare(
            ComparisonOperator::Equal,
            variable(&z),
            Box::new(Term::Str("abc".to_string())),
        )
    );
    let inf = choose_value_in_term(
        &asp::Term::Symbol(asp::Symbol::Infimum),
        &z,
        &mut context,
        &mut stack,
    )
    .unwrap();
    assert_eq!(
        inf,
        Formula::Compare(ComparisonOperator::Equal, variable(&z), Box::new(Term::Infimum))
    );
    let sup = choose_value_in_term(
        &asp::Term::Symbol(asp::Symbol::Supremum),
        &z,
        &mut context,
        &mut stack,
    )
    .unwrap();
    assert_eq!(
        sup,
        Formula::Compare(ComparisonOperator::Equal, variable(&z), Box::new(Term::Supremum))
    );
}

#[test]
fn addition_binds_two_fresh_integer_parameters() {
    let (mut context, mut stack) = fresh();
    let z = target(&mut stack);
    let x = stack.find_or_create(&"X".to_string());
    let term = asp::Term::BinaryOperation(
        BinaryOperator::Add,
        Box::new(asp::Term::Variable("X".to_string())),
        Box::new(asp::Term::Symbol(asp::Symbol::Number(3))),
    );
    let formula = choose_value_in_term(&term, &z, &mut context, &mut stack).unwrap();
    let p = VariableDeclaration {
        id: 2,
        origin: DeclarationOrigin::Generated,
        domain: Domain::Integer,
    };
    let q = VariableDeclaration {
        id: 3,
        origin: DeclarationOrigin::Generated,
        domain: Domain::Integer,
    };
    let expected = Formula::Exists(
        vec![p.clone(), q.clone()],
        Box::new(Formula::And(vec![
            Formula::Compare(
                ComparisonOperator::Equal,
                variable(&z),
                Box::new(Term::BinaryOperation(BinaryOperator::Add, variable(&p), variable(&q))),
            ),
            Formula::Compare(ComparisonOperator::Equal, variable(&p), variable(&x)),
            Formula::Compare(ComparisonOperator::Equal, variable(&q), Box::new(Term::Integer(3))),
        ])),
    );
    assert_eq!(formula, expected);
}

#[test]
fn division_binds_four_integer_parameters_with_remainder_bounds() {
    let (mut context, mut stack) = fresh();
    let z = target(&mut stack);
    let _a = stack.find_or_create(&"A".to_string());
    let _b = stack.find_or_create(&"B".to_string());
    let term = asp::Term::BinaryOperation(
        BinaryOperator::Divide,
        Box::new(asp::Term::Variable("A".to_string())),
        Box::new(asp::Term::Variable("B".to_string())),
    );
    let formula = choose_value_in_term(&term, &z, &mut context, &mut stack).unwrap();
    match formula {
        Formula::Exists(parameters, argument) => {
            assert_eq!(parameters.len(), 4);
            assert!(parameters.iter().all(|p| p.domain == Domain::Integer));
            let pj = &parameters[1];
            let pq = &parameters[2];
            let pr = &parameters[3];
            match *argument {
                Formula::And(conjuncts) => {
                    assert_eq!(conjuncts.len(), 7);
                    assert_eq!(
                        conjuncts[3],
                        Formula::Compare(
                            ComparisonOperator::NotEqual,
                            variable(pj),
                            Box::new(Term::Integer(0)),
                        )
                    );
                    assert_eq!(
                        conjuncts[4],
                        Formula::Compare(
                            ComparisonOperator::GreaterOrEqual,
                            variable(pr),
                            Box::new(Term::Integer(0)),
                        )
                    );
                    assert_eq!(
                        conjuncts[5],
                        Formula::Compare(ComparisonOperator::Less, variable(pr), variable(pj))
                    );
                    // division keeps the quotient
                    assert_eq!(
                        conjuncts[6],
                        Formula::Compare(ComparisonOperator::Equal, variable(&z), variable(pq))
                    );
                }
                other => panic!("expected a conjunction, got {:?}", other),
            }
        }
        other => panic!("expected an existential closure, got {:?}", other),
    }
}

#[test]
fn modulo_keeps_the_remainder() {
    let (mut context, mut stack) = fresh();
    let z = target(&mut stack);
    let term = asp::Term::BinaryOperation(
        BinaryOperator::Modulo,
        Box::new(asp::Term::Symbol(asp::Symbol::Number(7))),
        Box::new(asp::Term::Symbol(asp::Symbol::Number(2))),
    );
    let formula = choose_value_in_term(&term, &z, &mut context, &mut stack).unwrap();
    match formula {
        Formula::Exists(parameters, argument) => {
            let pr = &parameters[3];
            match *argument {
                Formula::And(conjuncts) => {
                    assert_eq!(
                        conjuncts[6],
                        Formula::Compare(ComparisonOperator::Equal, variable(&z), variable(pr))
                    );
                }
                other => panic!("expected a conjunction, got {:?}", other),
            }
        }
        other => panic!("expected an existential closure, got {:?}", other),
    }
}

#[test]
fn interval_one_to_three() {
    let (mut context, mut stack) = fresh();
    let z = target(&mut stack);
    let term = asp::Term::Interval(
        Box::new(asp::Term::Symbol(asp::Symbol::Number(1))),
        Box::new(asp::Term::Symbol(asp::Symbol::Number(3))),
    );
    let formula = choose_value_in_term(&term, &z, &mut context, &mut stack).unwrap();
    let pi = VariableDeclaration {
        id: 1,
        origin: DeclarationOrigin::Generated,
        domain: Domain::Integer,
    };
    let pj = VariableDeclaration {
        id: 2,
        origin: DeclarationOrigin::Generated,
        domain: Domain::Integer,
    };
    let pk = VariableDeclaration {
        id: 3,
        origin: DeclarationOrigin::Generated,
        domain: Domain::Integer,
    };
    let expected = Formula::Exists(
        vec![pi.clone(), pj.clone(), pk.clone()],
        Box::new(Formula::And(vec![
            Formula::Compare(ComparisonOperator::Equal, variable(&pi), Box::new(Term::Integer(1))),
            Formula::Compare(ComparisonOperator::Equal, variable(&pj), Box::new(Term::Integer(3))),
            Formula::Compare(ComparisonOperator::LessOrEqual, variable(&pi), variable(&pk)),
            Formula::Compare(ComparisonOperator::LessOrEqual, variable(&pk), variable(&pj)),
            Formula::Compare(ComparisonOperator::Equal, variable(&z), variable(&pk)),
        ])),
    );
    assert_eq!(formula, expected);
}

#[test]
fn negation_of_a_term() {
    let (mut context, mut stack) = fresh();
    let z = target(&mut stack);
    let x = stack.find_or_create(&"X".to_string());
    let term = asp::Term::UnaryOperation(
        asp::UnaryOperator::Minus,
        Box::new(asp::Term::Variable("X".to_string())),
    );
    let formula = choose_value_in_term(&term, &z, &mut context, &mut stack).unwrap();
    let zp = VariableDeclaration {
        id: 2,
        origin: DeclarationOrigin::Generated,
        domain: Domain::Integer,
    };
    let expected = Formula::Exists(
        vec![zp.clone()],
        Box::new(Formula::And(vec![
            Formula::Compare(
                ComparisonOperator::Equal,
                variable(&z),
                Box::new(Term::Negative(variable(&zp))),
            ),
            Formula::Compare(ComparisonOperator::Equal, variable(&zp), variable(&x)),
        ])),
    );
    assert_eq!(formula, expected);
}

#[test]
fn two_wildcards_register_two_distinct_free_declarations() {
    let (mut context, mut stack) = fresh();
    let z = target(&mut stack);
    let term = asp::Term::BinaryOperation(
        BinaryOperator::Add,
        Box::new(asp::Term::Variable("_".to_string())),
        Box::new(asp::Term::Variable("_".to_string())),
    );
    choose_value_in_term(&term, &z, &mut context, &mut stack).unwrap();
    let pool = &stack.scopes.last().unwrap().free_variable_declarations;
    assert_eq!(pool.len(), 2);
    assert_ne!(pool[0], pool[1]);
    assert_eq!(pool[0].origin, DeclarationOrigin::Generated);
    assert_eq!(pool[1].origin, DeclarationOrigin::Generated);
}

#[test]
fn taking_the_free_pool_empties_it() {
    let (mut context, mut stack) = fresh();
    let z = target(&mut stack);
    let term = asp::Term::Variable("_".to_string());
    choose_value_in_term(&term, &z, &mut context, &mut stack).unwrap();
    let free = stack.take_free_variable_declarations();
    assert_eq!(free.len(), 1);
    assert!(stack.scopes.last().unwrap().free_variable_declarations.is_empty());
}

#[test]
fn unsupported_forms_are_rejected_and_leave_bindings_alone() {
    let (mut context, mut stack) = fresh();
    let z = target(&mut stack);
    let bindings_before = stack.scopes.last().unwrap().bindings.len();
    let cases = vec![
        (
            asp::Term::BinaryOperation(
                BinaryOperator::Exponentiate,
                Box::new(asp::Term::Symbol(asp::Symbol::Number(2))),
                Box::new(asp::Term::Symbol(asp::Symbol::Number(3))),
            ),
            Feature::Exponentiation,
        ),
        (
            asp::Term::UnaryOperation(
                asp::UnaryOperator::AbsoluteValue,
                Box::new(asp::Term::Variable("X".to_string())),
            ),
            Feature::AbsoluteValue,
        ),
        (
            asp::Term::Function { name: "f".to_string(), arguments: vec![asp::Term::Variable("X".to_string())] },
            Feature::SymbolicFunctions,
        ),
        (asp::Term::Pool(vec![]), Feature::Pools),
        (
            asp::Term::ExternalFunction { name: "g".to_string(), arguments: vec![] },
            Feature::ExternalFunctions,
        ),
    ];
    for (term, feature) in cases {
        let result = choose_value_in_term(&term, &z, &mut context, &mut stack);
        assert_eq!(result, Err(Error::UnsupportedLanguageFeature(feature)));
        assert_eq!(stack.scopes.last().unwrap().bindings.len(), bindings_before);
    }
}

#[test]
fn other_unary_operators_are_not_yet_implemented() {
    let (mut context, mut stack) = fresh();
    let z = target(&mut stack);
    let term = asp::Term::UnaryOperation(
        asp::UnaryOperator::Negation,
        Box::new(asp::Term::Variable("X".to_string())),
    );
    let result = choose_value_in_term(&term, &z, &mut context, &mut stack);
    assert_eq!(result, Err(Error::NotYetImplemented));
}

#[test]
fn constant_symbol_resolves_through_the_context() {
    let (mut context, mut stack) = fresh();
    let z = target(&mut stack);
    let term = asp::Term::Symbol(asp::Symbol::Function { name: "c".to_string(), arguments: vec![] });
    let formula = choose_value_in_term(&term, &z, &mut context, &mut stack).unwrap();
    let declaration = context.find_or_create_function_declaration(&"c".to_string(), 0);
    assert_eq!(
        formula,
        Formula::Compare(
            ComparisonOperator::Equal,
            variable(&z),
            Box::new(Term::Function(declaration, vec![])),
        )
    );
}

#[test]
fn constant_symbol_with_arguments_is_a_logic_error() {
    let (mut context, mut stack) = fresh();
    let z = target(&mut stack);
    let term = asp::Term::Symbol(asp::Symbol::Function {
        name: "c".to_string(),
        arguments: vec![asp::Symbol::Number(1)],
    });
    let result = choose_value_in_term(&term, &z, &mut context, &mut stack);
    assert_eq!(result, Err(Error::LogicError(Fault::UnexpectedArguments)));
}

#[test]
fn constant_identity_is_memoized_within_one_context() {
    let mut context = DeclarationContext::new();
    let first = context.find_or_create_function_declaration(&"c".to_string(), 0);
    let second = context.find_or_create_function_declaration(&"c".to_string(), 0);
    assert_eq!(first, second);
    let other_arity = context.find_or_create_function_declaration(&"c".to_string(), 2);
    assert_ne!(first, other_arity);
    // a second, independent context numbers its declarations on its own
    let mut another = DeclarationContext::new();
    let third = another.find_or_create_function_declaration(&"d".to_string(), 0);
    assert_eq!(third.id, 0);
}

#[test]
fn one_name_resolves_to_one_declaration() {
    let mut stack = VariableDeclarationStack::new();
    let first = stack.find_or_create(&"X".to_string());
    let second = stack.find_or_create(&"X".to_string());
    assert_eq!(first, second);
    // an inner scope still sees the outer binding
    stack.push_scope();
    let inner = stack.find_or_create(&"X".to_string());
    assert_eq!(first, inner);
    // a name first bound inside a popped scope is created anew afterwards
    let y_inner = stack.find_or_create(&"Y".to_string());
    stack.pop_scope();
    let y_outer = stack.find_or_create(&"Y".to_string());
    assert_ne!(y_inner, y_outer);
}

#[test]
fn translation_is_deterministic_over_fresh_scopes() {
    let term = asp::Term::BinaryOperation(
        BinaryOperator::Multiply,
        Box::new(asp::Term::Variable("X".to_string())),
        Box::new(asp::Term::Symbol(asp::Symbol::Number(2))),
    );
    let (mut context_1, mut stack_1) = fresh();
    let z_1 = target(&mut stack_1);
    let first = choose_value_in_term(&term, &z_1, &mut context_1, &mut stack_1).unwrap();
    let (mut context_2, mut stack_2) = fresh();
    let z_2 = target(&mut stack_2);
    let second = choose_value_in_term(&term, &z_2, &mut context_2, &mut stack_2).unwrap();
    assert_eq!(first, second);
}
