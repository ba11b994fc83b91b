//! The value-choice translator: maps a source term and a target variable to
//! a formula that holds for an assignment of the target exactly when that
//! value is among the values the term can evaluate to.
//!
//! The specification [`spec_choose_value_in_term`] pins down, for every term,
//! both the produced formula and the effect on the scope stack and the
//! declaration context; [`choose_value_in_term`] is proved to follow it
//! exactly, early failure included.

use vstd::prelude::*;
use crate::asp;
use crate::context::{spec_resolve_function, DeclarationContext};
use crate::error::{Error, Fault, Feature};
use crate::fol::{
    BinaryOperator, ComparisonOperator, DeclarationOrigin, Domain, Formula, FunctionDeclaration,
    SpecFormula, SpecTerm, Term, VariableDeclaration, formulas_view,
};
use crate::scope::{
    spec_find_or_create, spec_fresh_declaration, spec_register_free, SpecStack,
    VariableDeclarationStack,
};

verus! {

/// The state a translation step reads and updates: the scope stack and the
/// function declaration memo.
#[verifier::ext_equal]
pub struct SpecState {
    pub stack: SpecStack,
    pub context: Seq<FunctionDeclaration>,
}

/// One translation step's result, and the state it leaves behind.  A failure
/// keeps the mutations made before the failing subterm was reached.
#[verifier::ext_equal]
pub struct SpecOutcome {
    pub result: Result<SpecFormula, Error>,
    pub state: SpecState,
}

/// The model of an executable translation result.
pub open spec fn result_view(result: Result<Formula, Error>) -> Result<SpecFormula, Error> {
    match result {
        Ok(formula) => Ok(formula@),
        Err(error) => Err(error),
    }
}

/// The formula `target = term`.
pub open spec fn spec_choose_value_in_primitive(
    term: SpecTerm,
    variable_declaration: VariableDeclaration,
) -> SpecFormula {
    SpecFormula::Compare(ComparisonOperator::Equal, SpecTerm::Variable(variable_declaration), term)
}

/// The state after recording a fresh generated declaration of the given
/// domain, with the declaration itself.
pub open spec fn spec_generated(state: SpecState, domain: Domain) -> (
    VariableDeclaration,
    SpecState,
) {
    let declaration = spec_fresh_declaration(state.stack, DeclarationOrigin::Generated, domain);
    (
        declaration,
        SpecState {
            stack: SpecStack {
                declarations: state.stack.declarations.push(declaration),
                scopes: state.stack.scopes,
            },
            context: state.context,
        },
    )
}

/// Translation of a ground symbol: the target equals the literal, or, for a
/// symbol with a name, the resolved 0-ary constant.  A symbol carrying
/// arguments is an invariant violation.
pub open spec fn spec_choose_value_in_symbol(
    symbol: asp::Symbol,
    variable_declaration: VariableDeclaration,
    state: SpecState,
) -> SpecOutcome {
    match symbol {
        asp::Symbol::Number(value) => SpecOutcome {
            result: Ok(
                spec_choose_value_in_primitive(SpecTerm::Integer(value), variable_declaration),
            ),
            state,
        },
        asp::Symbol::Infimum => SpecOutcome {
            result: Ok(spec_choose_value_in_primitive(SpecTerm::Infimum, variable_declaration)),
            state,
        },
        asp::Symbol::Supremum => SpecOutcome {
            result: Ok(spec_choose_value_in_primitive(SpecTerm::Supremum, variable_declaration)),
            state,
        },
        asp::Symbol::Str(value) => SpecOutcome {
            result: Ok(spec_choose_value_in_primitive(SpecTerm::Str(value), variable_declaration)),
            state,
        },
        asp::Symbol::Function { name, arguments } => {
            if arguments@.len() != 0 {
                SpecOutcome { result: Err(Error::LogicError(Fault::UnexpectedArguments)), state }
            } else {
                let (declaration, functions) = spec_resolve_function(state.context, name, 0);
                SpecOutcome {
                    result: Ok(
                        spec_choose_value_in_primitive(
                            SpecTerm::Function(declaration, Seq::empty()),
                            variable_declaration,
                        ),
                    ),
                    state: SpecState { stack: state.stack, context: functions },
                }
            }
        },
    }
}

/// Translation of a term against a target variable: the produced formula and
/// the updated state, or the failure and the state as mutated so far.
pub open spec fn spec_choose_value_in_term(
    term: asp::Term,
    variable_declaration: VariableDeclaration,
    state: SpecState,
) -> SpecOutcome
    decreases term,
{
    match term {
        asp::Term::Symbol(symbol) => spec_choose_value_in_symbol(
            symbol,
            variable_declaration,
            state,
        ),
        asp::Term::Variable(name) => {
            if name@ == "_"@ {
                let (declaration, state1) = spec_generated(state, Domain::Program);
                let state2 = SpecState {
                    stack: spec_register_free(state1.stack, declaration),
                    context: state1.context,
                };
                SpecOutcome {
                    result: Ok(
                        spec_choose_value_in_primitive(
                            SpecTerm::Variable(declaration),
                            variable_declaration,
                        ),
                    ),
                    state: state2,
                }
            } else {
                let (declaration, stack) = spec_find_or_create(state.stack, name);
                SpecOutcome {
                    result: Ok(
                        spec_choose_value_in_primitive(
                            SpecTerm::Variable(declaration),
                            variable_declaration,
                        ),
                    ),
                    state: SpecState { stack, context: state.context },
                }
            }
        },
        asp::Term::BinaryOperation(operator, left, right) => {
            match operator {
                BinaryOperator::Add | BinaryOperator::Subtract | BinaryOperator::Multiply => {
                    let (parameter_1, state1) = spec_generated(state, Domain::Integer);
                    let (parameter_2, state2) = spec_generated(state1, Domain::Integer);
                    let equals = SpecFormula::Compare(
                        ComparisonOperator::Equal,
                        SpecTerm::Variable(variable_declaration),
                        SpecTerm::BinaryOperation(
                            operator,
                            Box::new(SpecTerm::Variable(parameter_1)),
                            Box::new(SpecTerm::Variable(parameter_2)),
                        ),
                    );
                    let outcome_left = spec_choose_value_in_term(*left, parameter_1, state2);
                    match outcome_left.result {
                        Err(_) => outcome_left,
                        Ok(choose_left) => {
                            let outcome_right = spec_choose_value_in_term(
                                *right,
                                parameter_2,
                                outcome_left.state,
                            );
                            match outcome_right.result {
                                Err(_) => outcome_right,
                                Ok(choose_right) => SpecOutcome {
                                    result: Ok(
                                        SpecFormula::Exists(
                                            seq![parameter_1, parameter_2],
                                            Box::new(
                                                SpecFormula::And(
                                                    seq![equals, choose_left, choose_right],
                                                ),
                                            ),
                                        ),
                                    ),
                                    state: outcome_right.state,
                                },
                            }
                        },
                    }
                },
                BinaryOperator::Divide | BinaryOperator::Modulo => {
                    let (parameter_i, state1) = spec_generated(state, Domain::Integer);
                    let (parameter_j, state2) = spec_generated(state1, Domain::Integer);
                    let (parameter_q, state3) = spec_generated(state2, Domain::Integer);
                    let (parameter_r, state4) = spec_generated(state3, Domain::Integer);
                    let i_equals_j_times_q_plus_r = SpecFormula::Compare(
                        ComparisonOperator::Equal,
                        SpecTerm::Variable(parameter_i),
                        SpecTerm::BinaryOperation(
                            BinaryOperator::Add,
                            Box::new(
                                SpecTerm::BinaryOperation(
                                    BinaryOperator::Multiply,
                                    Box::new(SpecTerm::Variable(parameter_j)),
                                    Box::new(SpecTerm::Variable(parameter_q)),
                                ),
                            ),
                            Box::new(SpecTerm::Variable(parameter_r)),
                        ),
                    );
                    let outcome_left = spec_choose_value_in_term(*left, parameter_i, state4);
                    match outcome_left.result {
                        Err(_) => outcome_left,
                        Ok(choose_i) => {
                            let outcome_right = spec_choose_value_in_term(
                                *right,
                                parameter_j,
                                outcome_left.state,
                            );
                            match outcome_right.result {
                                Err(_) => outcome_right,
                                Ok(choose_j) => {
                                    let last_argument = if operator == BinaryOperator::Divide {
                                        SpecFormula::Compare(
                                            ComparisonOperator::Equal,
                                            SpecTerm::Variable(variable_declaration),
                                            SpecTerm::Variable(parameter_q),
                                        )
                                    } else {
                                        SpecFormula::Compare(
                                            ComparisonOperator::Equal,
                                            SpecTerm::Variable(variable_declaration),
                                            SpecTerm::Variable(parameter_r),
                                        )
                                    };
                                    SpecOutcome {
                                        result: Ok(
                                            SpecFormula::Exists(
                                                seq![
                                                    parameter_i,
                                                    parameter_j,
                                                    parameter_q,
                                                    parameter_r,
                                                ],
                                                Box::new(
                                                    SpecFormula::And(
                                                        seq![
                                                            i_equals_j_times_q_plus_r,
                                                            choose_i,
                                                            choose_j,
                                                            SpecFormula::Compare(
                                                                ComparisonOperator::NotEqual,
                                                                SpecTerm::Variable(parameter_j),
                                                                SpecTerm::Integer(0),
                                                            ),
                                                            SpecFormula::Compare(
                                                                ComparisonOperator::GreaterOrEqual,
                                                                SpecTerm::Variable(parameter_r),
                                                                SpecTerm::Integer(0),
                                                            ),
                                                            SpecFormula::Compare(
                                                                ComparisonOperator::Less,
                                                                SpecTerm::Variable(parameter_r),
                                                                SpecTerm::Variable(parameter_j),
                                                            ),
                                                            last_argument,
                                                        ],
                                                    ),
                                                ),
                                            ),
                                        ),
                                        state: outcome_right.state,
                                    }
                                },
                            }
                        },
                    }
                },
                BinaryOperator::Exponentiate => SpecOutcome {
                    result: Err(Error::UnsupportedLanguageFeature(Feature::Exponentiation)),
                    state,
                },
            }
        },
        asp::Term::UnaryOperation(operator, argument) => {
            match operator {
                asp::UnaryOperator::AbsoluteValue => SpecOutcome {
                    result: Err(Error::UnsupportedLanguageFeature(Feature::AbsoluteValue)),
                    state,
                },
                asp::UnaryOperator::Minus => {
                    let (parameter_z, state1) = spec_generated(state, Domain::Integer);
                    let equals = SpecFormula::Compare(
                        ComparisonOperator::Equal,
                        SpecTerm::Variable(variable_declaration),
                        SpecTerm::Negative(Box::new(SpecTerm::Variable(parameter_z))),
                    );
                    let outcome = spec_choose_value_in_term(*argument, parameter_z, state1);
                    match outcome.result {
                        Err(_) => outcome,
                        Ok(choose_z) => SpecOutcome {
                            result: Ok(
                                SpecFormula::Exists(
                                    seq![parameter_z],
                                    Box::new(SpecFormula::And(seq![equals, choose_z])),
                                ),
                            ),
                            state: outcome.state,
                        },
                    }
                },
                asp::UnaryOperator::Negation => SpecOutcome {
                    result: Err(Error::NotYetImplemented),
                    state,
                },
            }
        },
        asp::Term::Interval(left, right) => {
            let (parameter_i, state1) = spec_generated(state, Domain::Integer);
            let (parameter_j, state2) = spec_generated(state1, Domain::Integer);
            let (parameter_k, state3) = spec_generated(state2, Domain::Integer);
            let outcome_left = spec_choose_value_in_term(*left, parameter_i, state3);
            match outcome_left.result {
                Err(_) => outcome_left,
                Ok(choose_i) => {
                    let outcome_right = spec_choose_value_in_term(
                        *right,
                        parameter_j,
                        outcome_left.state,
                    );
                    match outcome_right.result {
                        Err(_) => outcome_right,
                        Ok(choose_j) => SpecOutcome {
                            result: Ok(
                                SpecFormula::Exists(
                                    seq![parameter_i, parameter_j, parameter_k],
                                    Box::new(
                                        SpecFormula::And(
                                            seq![
                                                choose_i,
                                                choose_j,
                                                SpecFormula::Compare(
                                                    ComparisonOperator::LessOrEqual,
                                                    SpecTerm::Variable(parameter_i),
                                                    SpecTerm::Variable(parameter_k),
                                                ),
                                                SpecFormula::Compare(
                                                    ComparisonOperator::LessOrEqual,
                                                    SpecTerm::Variable(parameter_k),
                                                    SpecTerm::Variable(parameter_j),
                                                ),
                                                SpecFormula::Compare(
                                                    ComparisonOperator::Equal,
                                                    SpecTerm::Variable(variable_declaration),
                                                    SpecTerm::Variable(parameter_k),
                                                ),
                                            ],
                                        ),
                                    ),
                                ),
                            ),
                            state: outcome_right.state,
                        },
                    }
                },
            }
        },
        asp::Term::Function { .. } => SpecOutcome {
            result: Err(Error::UnsupportedLanguageFeature(Feature::SymbolicFunctions)),
            state,
        },
        asp::Term::Pool(_) => SpecOutcome {
            result: Err(Error::UnsupportedLanguageFeature(Feature::Pools)),
            state,
        },
        asp::Term::ExternalFunction { .. } => SpecOutcome {
            result: Err(Error::UnsupportedLanguageFeature(Feature::ExternalFunctions)),
            state,
        },
    }
}

/// Translation never opens or closes scopes: it only binds names, registers
/// free declarations, and extends the registries.
pub proof fn lemma_scope_count_preserved(
    term: asp::Term,
    variable_declaration: VariableDeclaration,
    state: SpecState,
)
    requires
        state.stack.scopes.len() >= 1,
    ensures
        spec_choose_value_in_term(
            term,
            variable_declaration,
            state,
        ).state.stack.scopes.len() == state.stack.scopes.len(),
    decreases term,
{
    match term {
        asp::Term::Symbol(_) => {},
        asp::Term::Variable(_) => {},
        asp::Term::BinaryOperation(operator, left, right) => {
            match operator {
                BinaryOperator::Add | BinaryOperator::Subtract | BinaryOperator::Multiply => {
                    let (parameter_1, state1) = spec_generated(state, Domain::Integer);
                    let (parameter_2, state2) = spec_generated(state1, Domain::Integer);
                    lemma_scope_count_preserved(*left, parameter_1, state2);
                    let outcome_left = spec_choose_value_in_term(*left, parameter_1, state2);
                    if outcome_left.result is Ok {
                        lemma_scope_count_preserved(*right, parameter_2, outcome_left.state);
                    }
                },
                BinaryOperator::Divide | BinaryOperator::Modulo => {
                    let (parameter_i, state1) = spec_generated(state, Domain::Integer);
                    let (parameter_j, state2) = spec_generated(state1, Domain::Integer);
                    let (parameter_q, state3) = spec_generated(state2, Domain::Integer);
                    let (parameter_r, state4) = spec_generated(state3, Domain::Integer);
                    lemma_scope_count_preserved(*left, parameter_i, state4);
                    let outcome_left = spec_choose_value_in_term(*left, parameter_i, state4);
                    if outcome_left.result is Ok {
                        lemma_scope_count_preserved(*right, parameter_j, outcome_left.state);
                    }
                },
                BinaryOperator::Exponentiate => {},
            }
        },
        asp::Term::UnaryOperation(operator, argument) => {
            match operator {
                asp::UnaryOperator::Minus => {
                    let (parameter_z, state1) = spec_generated(state, Domain::Integer);
                    lemma_scope_count_preserved(*argument, parameter_z, state1);
                },
                _ => {},
            }
        },
        asp::Term::Interval(left, right) => {
            let (parameter_i, state1) = spec_generated(state, Domain::Integer);
            let (parameter_j, state2) = spec_generated(state1, Domain::Integer);
            let (parameter_k, state3) = spec_generated(state2, Domain::Integer);
            lemma_scope_count_preserved(*left, parameter_i, state3);
            let outcome_left = spec_choose_value_in_term(*left, parameter_i, state3);
            if outcome_left.result is Ok {
                lemma_scope_count_preserved(*right, parameter_j, outcome_left.state);
            }
        },
        asp::Term::Function { .. } => {},
        asp::Term::Pool(_) => {},
        asp::Term::ExternalFunction { .. } => {},
    }
}

/// The formula asserting that the target variable equals the given term.
pub fn choose_value_in_primitive(term: Box<Term>, variable_declaration: VariableDeclaration) -> (
    formula: Formula)
    ensures
        formula@ == spec_choose_value_in_primitive(term@, variable_declaration),
{
    let variable = Term::variable(variable_declaration);
    Formula::equal(Box::new(variable), term)
}

/// Translates a source term against a target variable, following
/// [`spec_choose_value_in_term`] exactly: on success the returned formula is
/// the specified one; on failure the specified error is returned; in both
/// cases the scope stack and the declaration context are left exactly in the
/// specified state.
#[verifier::rlimit(100)]
pub fn choose_value_in_term(
    term: &asp::Term,
    variable_declaration: &VariableDeclaration,
    context: &mut DeclarationContext,
    variable_declaration_stack: &mut VariableDeclarationStack,
) -> (result: Result<Formula, Error>)
    requires
        old(variable_declaration_stack)@.scopes.len() >= 1,
    ensures
        ({
            let outcome = spec_choose_value_in_term(
                *term,
                *variable_declaration,
                SpecState {
                    stack: old(variable_declaration_stack)@,
                    context: old(context)@,
                },
            );
            result_view(result) == outcome.result && final(variable_declaration_stack)@
                == outcome.state.stack && final(context)@ == outcome.state.context
        }),
    decreases *term,
{
    let ghost state0 = SpecState { stack: variable_declaration_stack@, context: context@ };
    match term {
        asp::Term::Symbol(symbol) => match symbol {
            asp::Symbol::Number(value) => Ok(
                choose_value_in_primitive(
                    Box::new(Term::integer(*value)),
                    variable_declaration.clone(),
                ),
            ),
            asp::Symbol::Infimum => Ok(
                choose_value_in_primitive(
                    Box::new(Term::infimum()),
                    variable_declaration.clone(),
                ),
            ),
            asp::Symbol::Supremum => Ok(
                choose_value_in_primitive(
                    Box::new(Term::supremum()),
                    variable_declaration.clone(),
                ),
            ),
            asp::Symbol::Str(value) => Ok(
                choose_value_in_primitive(
                    Box::new(Term::string(value.clone())),
                    variable_declaration.clone(),
                ),
            ),
            asp::Symbol::Function { name, arguments } => {
                // The parser represents symbolic functions with arguments as
                // non-symbol terms, so only 0-ary constants are handled here.
                if arguments.len() != 0 {
                    return Err(Error::LogicError(Fault::UnexpectedArguments));
                }
                let constant_declaration = context.find_or_create_function_declaration(name, 0);
                let function = Term::function(constant_declaration, Vec::new());
                proof {
                    assert(crate::fol::terms_view(Seq::<Term>::empty()) =~= Seq::<
                        SpecTerm,
                    >::empty());
                }
                Ok(choose_value_in_primitive(Box::new(function), variable_declaration.clone()))
            },
        },
        asp::Term::Variable(name) => {
            let underscore: String = "_".to_owned();
            // Every occurrence of an anonymous variable introduces a fresh
            // declaration, registered in the innermost scope's free pool.
            if name.eq(&underscore) {
                let declaration = variable_declaration_stack.new_generated_declaration(
                    Domain::Program,
                );
                variable_declaration_stack.register_free_variable_declaration(
                    declaration.clone(),
                );
                let other_variable = Term::variable(declaration);
                Ok(
                    choose_value_in_primitive(
                        Box::new(other_variable),
                        variable_declaration.clone(),
                    ),
                )
            } else {
                let declaration = variable_declaration_stack.find_or_create(name);
                let other_variable = Term::variable(declaration);
                Ok(
                    choose_value_in_primitive(
                        Box::new(other_variable),
                        variable_declaration.clone(),
                    ),
                )
            }
        },
        asp::Term::BinaryOperation(operator, left, right) => match *operator {
            BinaryOperator::Add | BinaryOperator::Subtract | BinaryOperator::Multiply => {
                let parameter_1 = variable_declaration_stack.new_generated_declaration(
                    Domain::Integer,
                );
                let parameter_2 = variable_declaration_stack.new_generated_declaration(
                    Domain::Integer,
                );
                let ghost p1 = parameter_1;
                let ghost p2 = parameter_2;
                let ghost state2 = SpecState {
                    stack: variable_declaration_stack@,
                    context: context@,
                };
                proof {
                    let (sp1, sstate1) = spec_generated(state0, Domain::Integer);
                    let (sp2, sstate2) = spec_generated(sstate1, Domain::Integer);
                    assert(p1 == sp1 && p2 == sp2 && state2 == sstate2);
                }

                let translated_binary_operation = Term::binary_operation(
                    *operator,
                    Box::new(Term::variable(parameter_1.clone())),
                    Box::new(Term::variable(parameter_2.clone())),
                );
                let equals = Formula::equal(
                    Box::new(Term::variable(variable_declaration.clone())),
                    Box::new(translated_binary_operation),
                );
                let ghost equals_model = equals@;

                proof {
                    lemma_scope_count_preserved(**left, p1, state2);
                }
                let choose_left = match choose_value_in_term(
                    left,
                    &parameter_1,
                    context,
                    variable_declaration_stack,
                ) {
                    Ok(formula) => formula,
                    Err(error) => {
                        return Err(error);
                    },
                };
                let ghost choose_left_model = choose_left@;
                let choose_right = match choose_value_in_term(
                    right,
                    &parameter_2,
                    context,
                    variable_declaration_stack,
                ) {
                    Ok(formula) => formula,
                    Err(error) => {
                        return Err(error);
                    },
                };
                let ghost choose_right_model = choose_right@;

                let mut conjuncts: Vec<Formula> = Vec::new();
                conjuncts.push(equals);
                conjuncts.push(choose_left);
                conjuncts.push(choose_right);
                proof {
                    assert(formulas_view(conjuncts@) =~= seq![
                        equals_model,
                        choose_left_model,
                        choose_right_model,
                    ]);
                }
                let and = Formula::and(conjuncts);

                let mut parameters: Vec<VariableDeclaration> = Vec::new();
                parameters.push(parameter_1);
                parameters.push(parameter_2);
                proof {
                    assert(parameters@ =~= seq![p1, p2]);
                }
                Ok(Formula::existential(parameters, Box::new(and)))
            },
            BinaryOperator::Divide | BinaryOperator::Modulo => {
                let parameter_i = variable_declaration_stack.new_generated_declaration(
                    Domain::Integer,
                );
                let parameter_j = variable_declaration_stack.new_generated_declaration(
                    Domain::Integer,
                );
                let parameter_q = variable_declaration_stack.new_generated_declaration(
                    Domain::Integer,
                );
                let parameter_r = variable_declaration_stack.new_generated_declaration(
                    Domain::Integer,
                );
                let ghost pi = parameter_i;
                let ghost pj = parameter_j;
                let ghost pq = parameter_q;
                let ghost pr = parameter_r;
                let ghost state4 = SpecState {
                    stack: variable_declaration_stack@,
                    context: context@,
                };
                proof {
                    let (si, sstate1) = spec_generated(state0, Domain::Integer);
                    let (sj, sstate2) = spec_generated(sstate1, Domain::Integer);
                    let (sq, sstate3) = spec_generated(sstate2, Domain::Integer);
                    let (sr, sstate4) = spec_generated(sstate3, Domain::Integer);
                    assert(pi == si && pj == sj && pq == sq && pr == sr && state4 == sstate4);
                }

                let j_times_q = Term::multiply(
                    Box::new(Term::variable(parameter_j.clone())),
                    Box::new(Term::variable(parameter_q.clone())),
                );
                let j_times_q_plus_r = Term::add(
                    Box::new(j_times_q),
                    Box::new(Term::variable(parameter_r.clone())),
                );
                let i_equals_j_times_q_plus_r = Formula::equal(
                    Box::new(Term::variable(parameter_i.clone())),
                    Box::new(j_times_q_plus_r),
                );
                let ghost i_equals_model = i_equals_j_times_q_plus_r@;

                proof {
                    lemma_scope_count_preserved(**left, pi, state4);
                }
                let choose_i_in_t1 = match choose_value_in_term(
                    left,
                    &parameter_i,
                    context,
                    variable_declaration_stack,
                ) {
                    Ok(formula) => formula,
                    Err(error) => {
                        return Err(error);
                    },
                };
                let ghost choose_i_model = choose_i_in_t1@;
                let choose_j_in_t2 = match choose_value_in_term(
                    right,
                    &parameter_j,
                    context,
                    variable_declaration_stack,
                ) {
                    Ok(formula) => formula,
                    Err(error) => {
                        return Err(error);
                    },
                };
                let ghost choose_j_model = choose_j_in_t2@;

                let j_not_equal_to_0 = Formula::not_equal(
                    Box::new(Term::variable(parameter_j.clone())),
                    Box::new(Term::integer(0)),
                );
                let r_greater_or_equal_to_0 = Formula::greater_or_equal(
                    Box::new(Term::variable(parameter_r.clone())),
                    Box::new(Term::integer(0)),
                );
                let r_less_than_j = Formula::less(
                    Box::new(Term::variable(parameter_r.clone())),
                    Box::new(Term::variable(parameter_j.clone())),
                );
                let last_argument = if *operator == BinaryOperator::Divide {
                    Formula::equal(
                        Box::new(Term::variable(variable_declaration.clone())),
                        Box::new(Term::variable(parameter_q.clone())),
                    )
                } else {
                    Formula::equal(
                        Box::new(Term::variable(variable_declaration.clone())),
                        Box::new(Term::variable(parameter_r.clone())),
                    )
                };
                let ghost conjunct_models = seq![
                    i_equals_model,
                    choose_i_model,
                    choose_j_model,
                    j_not_equal_to_0@,
                    r_greater_or_equal_to_0@,
                    r_less_than_j@,
                    last_argument@,
                ];

                let mut conjuncts: Vec<Formula> = Vec::new();
                conjuncts.push(i_equals_j_times_q_plus_r);
                conjuncts.push(choose_i_in_t1);
                conjuncts.push(choose_j_in_t2);
                conjuncts.push(j_not_equal_to_0);
                conjuncts.push(r_greater_or_equal_to_0);
                conjuncts.push(r_less_than_j);
                conjuncts.push(last_argument);
                proof {
                    assert(formulas_view(conjuncts@) =~= conjunct_models);
                }
                let and = Formula::and(conjuncts);

                let mut parameters: Vec<VariableDeclaration> = Vec::new();
                parameters.push(parameter_i);
                parameters.push(parameter_j);
                parameters.push(parameter_q);
                parameters.push(parameter_r);
                proof {
                    assert(parameters@ =~= seq![pi, pj, pq, pr]);
                }
                Ok(Formula::existential(parameters, Box::new(and)))
            },
            BinaryOperator::Exponentiate => Err(
                Error::UnsupportedLanguageFeature(Feature::Exponentiation),
            ),
        },
        asp::Term::UnaryOperation(operator, argument) => match operator {
            asp::UnaryOperator::AbsoluteValue => Err(
                Error::UnsupportedLanguageFeature(Feature::AbsoluteValue),
            ),
            asp::UnaryOperator::Minus => {
                let parameter_z_prime = variable_declaration_stack.new_generated_declaration(
                    Domain::Integer,
                );
                let ghost pz = parameter_z_prime;
                let ghost state1 = SpecState {
                    stack: variable_declaration_stack@,
                    context: context@,
                };
                proof {
                    let (sz, sstate1) = spec_generated(state0, Domain::Integer);
                    assert(pz == sz && state1 == sstate1);
                }

                let negative_z_prime = Term::negative(
                    Box::new(Term::variable(parameter_z_prime.clone())),
                );
                let equals = Formula::equal(
                    Box::new(Term::variable(variable_declaration.clone())),
                    Box::new(negative_z_prime),
                );
                let ghost equals_model = equals@;

                let choose_z_prime_in_t_prime = match choose_value_in_term(
                    argument,
                    &parameter_z_prime,
                    context,
                    variable_declaration_stack,
                ) {
                    Ok(formula) => formula,
                    Err(error) => {
                        return Err(error);
                    },
                };
                let ghost choose_z_model = choose_z_prime_in_t_prime@;

                let mut conjuncts: Vec<Formula> = Vec::new();
                conjuncts.push(equals);
                conjuncts.push(choose_z_prime_in_t_prime);
                proof {
                    assert(formulas_view(conjuncts@) =~= seq![equals_model, choose_z_model]);
                }
                let and = Formula::and(conjuncts);

                let mut parameters: Vec<VariableDeclaration> = Vec::new();
                parameters.push(parameter_z_prime);
                proof {
                    assert(parameters@ =~= seq![pz]);
                }
                Ok(Formula::existential(parameters, Box::new(and)))
            },
            asp::UnaryOperator::Negation => Err(Error::NotYetImplemented),
        },
        asp::Term::Interval(left, right) => {
            let parameter_i = variable_declaration_stack.new_generated_declaration(
                Domain::Integer,
            );
            let parameter_j = variable_declaration_stack.new_generated_declaration(
                Domain::Integer,
            );
            let parameter_k = variable_declaration_stack.new_generated_declaration(
                Domain::Integer,
            );
            let ghost pi = parameter_i;
            let ghost pj = parameter_j;
            let ghost pk = parameter_k;
            let ghost state3 = SpecState {
                stack: variable_declaration_stack@,
                context: context@,
            };
            proof {
                let (si, sstate1) = spec_generated(state0, Domain::Integer);
                let (sj, sstate2) = spec_generated(sstate1, Domain::Integer);
                let (sk, sstate3) = spec_generated(sstate2, Domain::Integer);
                assert(pi == si && pj == sj && pk == sk && state3 == sstate3);
            }

            proof {
                lemma_scope_count_preserved(**left, pi, state3);
            }
            let choose_i_in_t_1 = match choose_value_in_term(
                left,
                &parameter_i,
                context,
                variable_declaration_stack,
            ) {
                Ok(formula) => formula,
                Err(error) => {
                    return Err(error);
                },
            };
            let ghost choose_i_model = choose_i_in_t_1@;
            let choose_j_in_t_2 = match choose_value_in_term(
                right,
                &parameter_j,
                context,
                variable_declaration_stack,
            ) {
                Ok(formula) => formula,
                Err(error) => {
                    return Err(error);
                },
            };
            let ghost choose_j_model = choose_j_in_t_2@;

            let i_less_than_or_equal_to_k = Formula::less_or_equal(
                Box::new(Term::variable(parameter_i.clone())),
                Box::new(Term::variable(parameter_k.clone())),
            );
            let k_less_than_or_equal_to_j = Formula::less_or_equal(
                Box::new(Term::variable(parameter_k.clone())),
                Box::new(Term::variable(parameter_j.clone())),
            );
            let z_equals_k = Formula::equal(
                Box::new(Term::variable(variable_declaration.clone())),
                Box::new(Term::variable(parameter_k.clone())),
            );
            let ghost conjunct_models = seq![
                choose_i_model,
                choose_j_model,
                i_less_than_or_equal_to_k@,
                k_less_than_or_equal_to_j@,
                z_equals_k@,
            ];

            let mut conjuncts: Vec<Formula> = Vec::new();
            conjuncts.push(choose_i_in_t_1);
            conjuncts.push(choose_j_in_t_2);
            conjuncts.push(i_less_than_or_equal_to_k);
            conjuncts.push(k_less_than_or_equal_to_j);
            conjuncts.push(z_equals_k);
            proof {
                assert(formulas_view(conjuncts@) =~= conjunct_models);
            }
            let and = Formula::and(conjuncts);

            let mut parameters: Vec<VariableDeclaration> = Vec::new();
            parameters.push(parameter_i);
            parameters.push(parameter_j);
            parameters.push(parameter_k);
            proof {
                assert(parameters@ =~= seq![pi, pj, pk]);
            }
            Ok(Formula::existential(parameters, Box::new(and)))
        },
        asp::Term::Function { .. } => Err(
            Error::UnsupportedLanguageFeature(Feature::SymbolicFunctions),
        ),
        asp::Term::Pool(_) => Err(Error::UnsupportedLanguageFeature(Feature::Pools)),
        asp::Term::ExternalFunction { .. } => Err(
            Error::UnsupportedLanguageFeature(Feature::ExternalFunctions),
        ),
    }
}

} // verus!
