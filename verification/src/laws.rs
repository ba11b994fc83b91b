//! Laws of the translator, proved from the specifications alone: determinism,
//! the exact shapes of literal and arithmetic translations, freshness of
//! wildcard declarations, rejection of unsupported constructs, and the
//! identity guarantees of scopes and declaration contexts.

use vstd::prelude::*;
use crate::asp;
use crate::context::{spec_lookup_function, spec_resolve_function};
use crate::error::{Error, Feature};
use crate::fol::{
    BinaryOperator, ComparisonOperator, DeclarationOrigin, Domain, FunctionDeclaration,
    SpecFormula, SpecTerm, VariableDeclaration,
};
use crate::scope::{spec_find_or_create, spec_lookup, spec_lookup_in_scope, Binding, SpecStack};
use crate::translate::{
    spec_choose_value_in_term, spec_generated, SpecOutcome, SpecState,
};

verus! {

/// Law: translating a literal yields exactly `target = literal` — no
/// quantifier wrapper — and leaves the scope stack and the context untouched.
pub proof fn lemma_literal_identity(
    value: i32,
    variable_declaration: VariableDeclaration,
    state: SpecState,
)
    ensures
        spec_choose_value_in_term(
            asp::Term::Symbol(asp::Symbol::Number(value)),
            variable_declaration,
            state,
        ) == (SpecOutcome {
            result: Ok(
                SpecFormula::Compare(
                    ComparisonOperator::Equal,
                    SpecTerm::Variable(variable_declaration),
                    SpecTerm::Integer(value),
                ),
            ),
            state,
        }),
{
}

/// Law: translating `X + c` with `X` already bound to a declaration yields
/// exactly `∃ p q (target = p + q ∧ p = X ∧ q = c)` over two fresh integer
/// parameters, and changes nothing but the declaration registry.
pub proof fn lemma_additive_case(
    name: String,
    value: i32,
    variable_declaration: VariableDeclaration,
    state: SpecState,
    bound: VariableDeclaration,
)
    requires
        name@ != "_"@,
        spec_lookup(state.stack.scopes, name@) == Some(bound),
    ensures
        ({
            let (parameter_1, state1) = spec_generated(state, Domain::Integer);
            let (parameter_2, state2) = spec_generated(state1, Domain::Integer);
            spec_choose_value_in_term(
                asp::Term::BinaryOperation(
                    BinaryOperator::Add,
                    Box::new(asp::Term::Variable(name)),
                    Box::new(asp::Term::Symbol(asp::Symbol::Number(value))),
                ),
                variable_declaration,
                state,
            ) == (SpecOutcome {
                result: Ok(
                    SpecFormula::Exists(
                        seq![parameter_1, parameter_2],
                        Box::new(
                            SpecFormula::And(
                                seq![
                                    SpecFormula::Compare(
                                        ComparisonOperator::Equal,
                                        SpecTerm::Variable(variable_declaration),
                                        SpecTerm::BinaryOperation(
                                            BinaryOperator::Add,
                                            Box::new(SpecTerm::Variable(parameter_1)),
                                            Box::new(SpecTerm::Variable(parameter_2)),
                                        ),
                                    ),
                                    SpecFormula::Compare(
                                        ComparisonOperator::Equal,
                                        SpecTerm::Variable(parameter_1),
                                        SpecTerm::Variable(bound),
                                    ),
                                    SpecFormula::Compare(
                                        ComparisonOperator::Equal,
                                        SpecTerm::Variable(parameter_2),
                                        SpecTerm::Integer(value),
                                    ),
                                ],
                            ),
                        ),
                    ),
                ),
                state: state2,
            })
        }),
{
    let term = asp::Term::BinaryOperation(
        BinaryOperator::Add,
        Box::new(asp::Term::Variable(name)),
        Box::new(asp::Term::Symbol(asp::Symbol::Number(value))),
    );
    let (parameter_1, state1) = spec_generated(state, Domain::Integer);
    let (parameter_2, state2) = spec_generated(state1, Domain::Integer);
    assert(state2.stack.scopes == state.stack.scopes);
    let outcome_left = spec_choose_value_in_term(asp::Term::Variable(name), parameter_1, state2);
    assert(spec_find_or_create(state2.stack, name) == (bound, state2.stack));
    assert(outcome_left == SpecOutcome {
        result: Ok(
            SpecFormula::Compare(
                ComparisonOperator::Equal,
                SpecTerm::Variable(parameter_1),
                SpecTerm::Variable(bound),
            ),
        ),
        state: state2,
    });
    let outcome_right = spec_choose_value_in_term(
        asp::Term::Symbol(asp::Symbol::Number(value)),
        parameter_2,
        state2,
    );
    assert(outcome_right == SpecOutcome {
        result: Ok(
            SpecFormula::Compare(
                ComparisonOperator::Equal,
                SpecTerm::Variable(parameter_2),
                SpecTerm::Integer(value),
            ),
        ),
        state: state2,
    });
    assert(spec_choose_value_in_term(term, variable_declaration, state).state == state2);
}

/// Law: each wildcard occurrence introduces a fresh declaration of its own:
/// translating a term with two wildcard occurrences grows the innermost free
/// pool by two distinct declarations.
pub proof fn lemma_wildcard_freshness(
    underscore: String,
    variable_declaration: VariableDeclaration,
    state: SpecState,
)
    requires
        state.stack.scopes.len() >= 1,
        underscore@ == "_"@,
        state.stack.declarations.len() + 4 <= usize::MAX,
    ensures
        ({
            let outcome = spec_choose_value_in_term(
                asp::Term::BinaryOperation(
                    BinaryOperator::Add,
                    Box::new(asp::Term::Variable(underscore)),
                    Box::new(asp::Term::Variable(underscore)),
                ),
                variable_declaration,
                state,
            );
            let pool0 = state.stack.scopes.last().free_variable_declarations;
            let pool = outcome.state.stack.scopes.last().free_variable_declarations;
            outcome.result is Ok && pool.len() == pool0.len() + 2 && pool[pool.len() - 2]
                != pool[pool.len() - 1] && pool.take(pool.len() - 2) == pool0
        }),
{
    let wildcard = asp::Term::Variable(underscore);
    let (parameter_1, state1) = spec_generated(state, Domain::Integer);
    let (parameter_2, state2) = spec_generated(state1, Domain::Integer);
    assert(state2.stack.scopes == state.stack.scopes);

    let outcome_left = spec_choose_value_in_term(wildcard, parameter_1, state2);
    let (free_1, state3) = spec_generated(state2, Domain::Program);
    let after_left = crate::scope::spec_register_free(state3.stack, free_1);
    assert(outcome_left.state.stack == after_left);
    let pool0 = state.stack.scopes.last().free_variable_declarations;
    assert(after_left.scopes.len() == state.stack.scopes.len());
    assert(after_left.scopes.last() == (crate::scope::SpecScope {
        bindings: state.stack.scopes.last().bindings,
        free_variable_declarations: pool0.push(free_1),
    }));

    let outcome_right = spec_choose_value_in_term(wildcard, parameter_2, outcome_left.state);
    let (free_2, state4) = spec_generated(outcome_left.state, Domain::Program);
    let after_right = crate::scope::spec_register_free(state4.stack, free_2);
    assert(outcome_right.state.stack == after_right);
    assert(after_right.scopes.last() == (crate::scope::SpecScope {
        bindings: state.stack.scopes.last().bindings,
        free_variable_declarations: pool0.push(free_1).push(free_2),
    }));

    assert(free_1.id == (state.stack.declarations.len() + 2) as usize);
    assert(free_2.id == (state.stack.declarations.len() + 3) as usize);
    assert(free_1 != free_2);

    let outcome = spec_choose_value_in_term(
        asp::Term::BinaryOperation(
            BinaryOperator::Add,
            Box::new(asp::Term::Variable(underscore)),
            Box::new(asp::Term::Variable(underscore)),
        ),
        variable_declaration,
        state,
    );
    assert(outcome.state == outcome_right.state);
    let pool = outcome.state.stack.scopes.last().free_variable_declarations;
    assert(pool == pool0.push(free_1).push(free_2));
    assert(pool.take(pool.len() - 2) =~= pool0);
}

/// Law: exponentiation is rejected as unsupported, with the state untouched.
pub proof fn lemma_exponentiation_rejected(
    left: asp::Term,
    right: asp::Term,
    variable_declaration: VariableDeclaration,
    state: SpecState,
)
    ensures
        spec_choose_value_in_term(
            asp::Term::BinaryOperation(
                BinaryOperator::Exponentiate,
                Box::new(left),
                Box::new(right),
            ),
            variable_declaration,
            state,
        ) == (SpecOutcome {
            result: Err(Error::UnsupportedLanguageFeature(Feature::Exponentiation)),
            state,
        }),
{
}

/// Law: absolute value is rejected as unsupported, with the state untouched.
pub proof fn lemma_absolute_value_rejected(
    argument: asp::Term,
    variable_declaration: VariableDeclaration,
    state: SpecState,
)
    ensures
        spec_choose_value_in_term(
            asp::Term::UnaryOperation(asp::UnaryOperator::AbsoluteValue, Box::new(argument)),
            variable_declaration,
            state,
        ) == (SpecOutcome {
            result: Err(Error::UnsupportedLanguageFeature(Feature::AbsoluteValue)),
            state,
        }),
{
}

/// Law: a symbolic function with arguments is rejected as unsupported, with
/// the state untouched.
pub proof fn lemma_symbolic_function_rejected(
    name: String,
    arguments: Vec<asp::Term>,
    variable_declaration: VariableDeclaration,
    state: SpecState,
)
    ensures
        spec_choose_value_in_term(
            asp::Term::Function { name, arguments },
            variable_declaration,
            state,
        ) == (SpecOutcome {
            result: Err(Error::UnsupportedLanguageFeature(Feature::SymbolicFunctions)),
            state,
        }),
{
}

/// Law: a pool is rejected as unsupported, with the state untouched.
pub proof fn lemma_pool_rejected(
    elements: Vec<asp::Term>,
    variable_declaration: VariableDeclaration,
    state: SpecState,
)
    ensures
        spec_choose_value_in_term(asp::Term::Pool(elements), variable_declaration, state) == (
        SpecOutcome { result: Err(Error::UnsupportedLanguageFeature(Feature::Pools)), state }),
{
}

/// Law: an external function call is rejected as unsupported, with the state
/// untouched.
pub proof fn lemma_external_function_rejected(
    name: String,
    arguments: Vec<asp::Term>,
    variable_declaration: VariableDeclaration,
    state: SpecState,
)
    ensures
        spec_choose_value_in_term(
            asp::Term::ExternalFunction { name, arguments },
            variable_declaration,
            state,
        ) == (SpecOutcome {
            result: Err(Error::UnsupportedLanguageFeature(Feature::ExternalFunctions)),
            state,
        }),
{
}

/// Law: translation reads the declaration registry only through its length:
/// two independent runs over equal scopes, equal contexts, and registries of
/// equal size produce the very same result.  With two fresh (empty) scopes
/// this is determinism of translation up to the shared supply of fresh names.
pub proof fn lemma_determinism(
    term: asp::Term,
    variable_declaration: VariableDeclaration,
    state_1: SpecState,
    state_2: SpecState,
)
    requires
        state_1.stack.scopes == state_2.stack.scopes,
        state_1.stack.declarations.len() == state_2.stack.declarations.len(),
        state_1.context == state_2.context,
    ensures
        ({
            let outcome_1 = spec_choose_value_in_term(term, variable_declaration, state_1);
            let outcome_2 = spec_choose_value_in_term(term, variable_declaration, state_2);
            outcome_1.result == outcome_2.result && outcome_1.state.stack.scopes
                == outcome_2.state.stack.scopes && outcome_1.state.stack.declarations.len()
                == outcome_2.state.stack.declarations.len() && outcome_1.state.context
                == outcome_2.state.context
        }),
    decreases term,
{
    match term {
        asp::Term::Symbol(_) => {},
        asp::Term::Variable(_) => {},
        asp::Term::BinaryOperation(operator, left, right) => {
            match operator {
                BinaryOperator::Add | BinaryOperator::Subtract | BinaryOperator::Multiply => {
                    let (p1, state1a) = spec_generated(state_1, Domain::Integer);
                    let (p2, state2a) = spec_generated(state1a, Domain::Integer);
                    let (q1, state1b) = spec_generated(state_2, Domain::Integer);
                    let (q2, state2b) = spec_generated(state1b, Domain::Integer);
                    lemma_determinism(*left, p1, state2a, state2b);
                    let outcome_left_1 = spec_choose_value_in_term(*left, p1, state2a);
                    let outcome_left_2 = spec_choose_value_in_term(*left, q1, state2b);
                    if outcome_left_1.result is Ok {
                        lemma_determinism(
                            *right,
                            p2,
                            outcome_left_1.state,
                            outcome_left_2.state,
                        );
                    }
                },
                BinaryOperator::Divide | BinaryOperator::Modulo => {
                    let (pi, state1a) = spec_generated(state_1, Domain::Integer);
                    let (pj, state2a) = spec_generated(state1a, Domain::Integer);
                    let (pq, state3a) = spec_generated(state2a, Domain::Integer);
                    let (pr, state4a) = spec_generated(state3a, Domain::Integer);
                    let (qi, state1b) = spec_generated(state_2, Domain::Integer);
                    let (qj, state2b) = spec_generated(state1b, Domain::Integer);
                    let (qq, state3b) = spec_generated(state2b, Domain::Integer);
                    let (qr, state4b) = spec_generated(state3b, Domain::Integer);
                    lemma_determinism(*left, pi, state4a, state4b);
                    let outcome_left_1 = spec_choose_value_in_term(*left, pi, state4a);
                    let outcome_left_2 = spec_choose_value_in_term(*left, qi, state4b);
                    if outcome_left_1.result is Ok {
                        lemma_determinism(
                            *right,
                            pj,
                            outcome_left_1.state,
                            outcome_left_2.state,
                        );
                    }
                },
                BinaryOperator::Exponentiate => {},
            }
        },
        asp::Term::UnaryOperation(operator, argument) => {
            match operator {
                asp::UnaryOperator::Minus => {
                    let (pz, state1a) = spec_generated(state_1, Domain::Integer);
                    let (qz, state1b) = spec_generated(state_2, Domain::Integer);
                    lemma_determinism(*argument, pz, state1a, state1b);
                },
                _ => {},
            }
        },
        asp::Term::Interval(left, right) => {
            let (pi, state1a) = spec_generated(state_1, Domain::Integer);
            let (pj, state2a) = spec_generated(state1a, Domain::Integer);
            let (pk, state3a) = spec_generated(state2a, Domain::Integer);
            let (qi, state1b) = spec_generated(state_2, Domain::Integer);
            let (qj, state2b) = spec_generated(state1b, Domain::Integer);
            let (qk, state3b) = spec_generated(state2b, Domain::Integer);
            lemma_determinism(*left, pi, state3a, state3b);
            let outcome_left_1 = spec_choose_value_in_term(*left, pi, state3a);
            let outcome_left_2 = spec_choose_value_in_term(*left, qi, state3b);
            if outcome_left_1.result is Ok {
                lemma_determinism(*right, pj, outcome_left_1.state, outcome_left_2.state);
            }
        },
        asp::Term::Function { .. } => {},
        asp::Term::Pool(_) => {},
        asp::Term::ExternalFunction { .. } => {},
    }
}

/// Looking a name up in a table extended by one binding finds what the table
/// already bound, or else the new binding if its name matches.
proof fn lemma_lookup_in_scope_push(bindings: Seq<Binding>, binding: Binding, name: Seq<char>)
    ensures
        spec_lookup_in_scope(bindings.push(binding), name) == (match spec_lookup_in_scope(
            bindings,
            name,
        ) {
            Some(declaration) => Some(declaration),
            None => if binding.name@ == name {
                Some(binding.declaration)
            } else {
                None
            },
        }),
    decreases bindings.len(),
{
    let extended = bindings.push(binding);
    assert(extended.len() == bindings.len() + 1);
    if bindings.len() == 0 {
        assert(extended[0] == binding);
        assert(extended.drop_first() =~= Seq::<Binding>::empty());
        if binding.name@ == name {
            assert(spec_lookup_in_scope(extended, name) == Some(binding.declaration));
        } else {
            assert(spec_lookup_in_scope(extended, name) == spec_lookup_in_scope(
                extended.drop_first(),
                name,
            ));
        }
    } else {
        assert(extended[0] == bindings[0]);
        assert(extended.drop_first() =~= bindings.drop_first().push(binding));
        lemma_lookup_in_scope_push(bindings.drop_first(), binding, name);
        if bindings[0].name@ == name {
            assert(spec_lookup_in_scope(extended, name) == Some(bindings[0].declaration));
        } else {
            assert(spec_lookup_in_scope(extended, name) == spec_lookup_in_scope(
                extended.drop_first(),
                name,
            ));
        }
    }
}

/// Law: one name resolves to one declaration for the life of its scope:
/// resolving the same name twice, with no intervening scope change, yields
/// the same declaration, and the second resolution changes nothing.
pub proof fn lemma_scope_resolution_stable(stack: SpecStack, name: String)
    requires
        stack.scopes.len() >= 1,
    ensures
        ({
            let (first, stack1) = spec_find_or_create(stack, name);
            let (second, stack2) = spec_find_or_create(stack1, name);
            second == first && stack2 == stack1
        }),
{
    let (first, stack1) = spec_find_or_create(stack, name);
    if spec_lookup(stack.scopes, name@) is None {
        let inner = stack.scopes.last();
        let binding = Binding { name, declaration: first };
        lemma_lookup_in_scope_push(inner.bindings, binding, name@);
        assert(stack1.scopes.last() == (crate::scope::SpecScope {
            bindings: inner.bindings.push(binding),
            free_variable_declarations: inner.free_variable_declarations,
        }));
        assert(spec_lookup(stack1.scopes, name@) == Some(first));
    }
}

/// The memo lookup after appending one declaration: what was found before is
/// still found; otherwise the new declaration is found exactly on its pair.
proof fn lemma_lookup_function_push(
    functions: Seq<FunctionDeclaration>,
    declaration: FunctionDeclaration,
    name: Seq<char>,
    arity: usize,
)
    ensures
        spec_lookup_function(functions.push(declaration), name, arity) == (
        match spec_lookup_function(functions, name, arity) {
            Some(found) => Some(found),
            None => if declaration.name@ == name && declaration.arity == arity {
                Some(declaration)
            } else {
                None
            },
        }),
    decreases functions.len(),
{
    if functions.len() == 0 {
        assert(functions.push(declaration)[0] == declaration);
        assert(functions.push(declaration).drop_first() =~= Seq::<FunctionDeclaration>::empty());
    } else {
        assert(functions.push(declaration)[0] == functions[0]);
        assert(functions.push(declaration).drop_first() =~= functions.drop_first().push(
            declaration,
        ));
        lemma_lookup_function_push(functions.drop_first(), declaration, name, arity);
    }
}

/// Law: within one context, two resolutions of the same (name, arity) pair
/// return the identical declaration, and the second changes nothing.  No such
/// guarantee relates two distinct contexts: each numbers its declarations
/// independently.
pub proof fn lemma_constant_identity(
    functions: Seq<FunctionDeclaration>,
    name: String,
    arity: usize,
)
    ensures
        ({
            let (first, functions1) = spec_resolve_function(functions, name, arity);
            let (second, functions2) = spec_resolve_function(functions1, name, arity);
            second == first && functions2 == functions1
        }),
{
    let (first, functions1) = spec_resolve_function(functions, name, arity);
    if spec_lookup_function(functions, name@, arity) is None {
        lemma_lookup_function_push(functions, first, name@, arity);
        assert(spec_lookup_function(functions1, name@, arity) == Some(first));
    }
}

} // verus!
