//! A semantics for the produced formulas, and the satisfiability laws of the
//! arithmetic translations: the division and modulo formulas pin the target
//! to the quotient and remainder, and the interval formula is satisfiable
//! exactly on the integers of the range.

use vstd::prelude::*;
use vstd::map::*;
use crate::asp;
use crate::fol::{
    BinaryOperator, ComparisonOperator, Domain, SpecFormula, SpecTerm, VariableDeclaration,
};
use crate::scope::spec_lookup;
use crate::translate::{spec_choose_value_in_term, spec_generated, SpecState};

verus! {

/// A value of the evaluation domain: the least element, an integer, a string,
/// or the greatest element.
pub enum Value {
    Infimum,
    Int(int),
    Str(Seq<char>),
    Supremum,
}

/// The lexicographic order on strings, by character code.
pub open spec fn chars_le(left: Seq<char>, right: Seq<char>) -> bool
    decreases left.len(),
{
    if left.len() == 0 {
        true
    } else if right.len() == 0 {
        false
    } else if left[0] == right[0] {
        chars_le(left.drop_first(), right.drop_first())
    } else {
        (left[0] as u32) < (right[0] as u32)
    }
}

/// The total order on values: the infimum below everything, integers below
/// strings, the supremum above everything.
pub open spec fn value_le(left: Value, right: Value) -> bool {
    match (left, right) {
        (Value::Infimum, _) => true,
        (_, Value::Supremum) => true,
        (_, Value::Infimum) => false,
        (Value::Supremum, _) => false,
        (Value::Int(a), Value::Int(b)) => a <= b,
        (Value::Int(_), Value::Str(_)) => true,
        (Value::Str(_), Value::Int(_)) => false,
        (Value::Str(a), Value::Str(b)) => chars_le(a, b),
    }
}

/// Integer arithmetic on values.  The translator eliminates division, modulo
/// and exponentiation before formulas are built, so only addition,
/// subtraction and multiplication are given a meaning.
pub open spec fn eval_binary(operator: BinaryOperator, left: Value, right: Value) -> Value {
    match (left, right) {
        (Value::Int(a), Value::Int(b)) => match operator {
            BinaryOperator::Add => Value::Int(a + b),
            BinaryOperator::Subtract => Value::Int(a - b),
            BinaryOperator::Multiply => Value::Int(a * b),
            _ => arbitrary(),
        },
        _ => arbitrary(),
    }
}

/// The value of a term under an assignment of variable identities to values
/// and an interpretation of constant identities.
pub open spec fn eval_term(
    term: SpecTerm,
    assignment: Map<int, Value>,
    interpretation: Map<int, Value>,
) -> Value
    decreases term,
{
    match term {
        SpecTerm::Integer(value) => Value::Int(value as int),
        SpecTerm::Str(value) => Value::Str(value@),
        SpecTerm::Infimum => Value::Infimum,
        SpecTerm::Supremum => Value::Supremum,
        SpecTerm::Variable(declaration) => assignment[declaration.id as int],
        SpecTerm::Function(declaration, arguments) => if arguments.len() == 0 {
            interpretation[declaration.id as int]
        } else {
            arbitrary()
        },
        SpecTerm::BinaryOperation(operator, left, right) => eval_binary(
            operator,
            eval_term(*left, assignment, interpretation),
            eval_term(*right, assignment, interpretation),
        ),
        SpecTerm::Negative(argument) => match eval_term(*argument, assignment, interpretation) {
            Value::Int(a) => Value::Int(-a),
            _ => arbitrary(),
        },
    }
}

/// Whether a comparison holds between two values.
pub open spec fn compare_values(operator: ComparisonOperator, left: Value, right: Value) -> bool {
    match operator {
        ComparisonOperator::Equal => left == right,
        ComparisonOperator::NotEqual => left != right,
        ComparisonOperator::Less => value_le(left, right) && left != right,
        ComparisonOperator::LessOrEqual => value_le(left, right),
        ComparisonOperator::Greater => value_le(right, left) && left != right,
        ComparisonOperator::GreaterOrEqual => value_le(right, left),
    }
}

/// Whether a value belongs to a declaration's domain.
pub open spec fn value_in_domain(value: Value, domain: Domain) -> bool {
    match domain {
        Domain::Integer => value is Int,
        Domain::Program => true,
    }
}

/// Whether a binding assigns exactly the given parameters, each a value of
/// its domain.
pub open spec fn binds_parameters(
    binding: Map<int, Value>,
    parameters: Seq<VariableDeclaration>,
) -> bool {
    (forall|i: int|
        0 <= i < parameters.len() ==> binding.dom().contains(
            (#[trigger] parameters[i]).id as int,
        ) && value_in_domain(binding[parameters[i].id as int], parameters[i].domain)) && (forall|
        id: int,
    |
        #[trigger] binding.dom().contains(id) ==> exists|i: int|
            0 <= i < parameters.len() && (#[trigger] parameters[i]).id as int == id)
}

/// Whether every formula of a sequence holds.
pub open spec fn all_hold(
    conjuncts: Seq<SpecFormula>,
    assignment: Map<int, Value>,
    interpretation: Map<int, Value>,
) -> bool
    decreases conjuncts,
{
    if conjuncts.len() == 0 {
        true
    } else {
        holds(conjuncts[0], assignment, interpretation) && all_hold(
            conjuncts.drop_first(),
            assignment,
            interpretation,
        )
    }
}

/// When every formula of a sequence holds, each one does.
pub proof fn lemma_all_hold_index(
    conjuncts: Seq<SpecFormula>,
    assignment: Map<int, Value>,
    interpretation: Map<int, Value>,
    index: int,
)
    requires
        all_hold(conjuncts, assignment, interpretation),
        0 <= index < conjuncts.len(),
    ensures
        holds(conjuncts[index], assignment, interpretation),
    decreases index,
{
    if index > 0 {
        lemma_all_hold_index(conjuncts.drop_first(), assignment, interpretation, index - 1);
        assert(conjuncts.drop_first()[index - 1] == conjuncts[index]);
    }
}

/// When each formula of a sequence holds, they all do.
pub proof fn lemma_all_hold_intro(
    conjuncts: Seq<SpecFormula>,
    assignment: Map<int, Value>,
    interpretation: Map<int, Value>,
)
    requires
        forall|i: int|
            0 <= i < conjuncts.len() ==> #[trigger] holds(conjuncts[i], assignment, interpretation),
    ensures
        all_hold(conjuncts, assignment, interpretation),
    decreases conjuncts.len(),
{
    if conjuncts.len() > 0 {
        assert(holds(conjuncts[0], assignment, interpretation));
        let tail = conjuncts.drop_first();
        assert forall|i: int| 0 <= i < tail.len() implies #[trigger] holds(
            tail[i],
            assignment,
            interpretation,
        ) by {
            assert(tail[i] == conjuncts[i + 1]);
            assert(holds(conjuncts[i + 1], assignment, interpretation));
        }
        lemma_all_hold_intro(tail, assignment, interpretation);
    }
}

/// A witness binding of the parameters that makes the body hold makes the
/// existential closure hold.
pub proof fn lemma_holds_exists_intro(
    parameters: Seq<VariableDeclaration>,
    body: SpecFormula,
    assignment: Map<int, Value>,
    interpretation: Map<int, Value>,
    binding: Map<int, Value>,
)
    requires
        binds_parameters(binding, parameters),
        holds(body, assignment.union_prefer_right(binding), interpretation),
    ensures
        holds(SpecFormula::Exists(parameters, Box::new(body)), assignment, interpretation),
{
    let closure = SpecFormula::Exists(parameters, Box::new(body));
    assert(closure matches SpecFormula::Exists(ps, argument) && ps == parameters && *argument
        == body);
    assert(exists|b: Map<int, Value>|
        #[trigger] binds_parameters(b, parameters) && holds(
            body,
            assignment.union_prefer_right(b),
            interpretation,
        ));
}

/// An existential closure that holds has a witness binding of its parameters
/// under which the body holds.
pub proof fn lemma_holds_exists_elim(
    parameters: Seq<VariableDeclaration>,
    body: SpecFormula,
    assignment: Map<int, Value>,
    interpretation: Map<int, Value>,
)
    requires
        holds(SpecFormula::Exists(parameters, Box::new(body)), assignment, interpretation),
    ensures
        exists|binding: Map<int, Value>|
            #[trigger] binds_parameters(binding, parameters) && holds(
                body,
                assignment.union_prefer_right(binding),
                interpretation,
            ),
{
}

/// Whether a formula holds under an assignment and an interpretation.  An
/// existential closure holds when some binding of exactly its parameters,
/// each within its domain, makes the body hold.
pub open spec fn holds(
    formula: SpecFormula,
    assignment: Map<int, Value>,
    interpretation: Map<int, Value>,
) -> bool
    decreases formula,
{
    match formula {
        SpecFormula::Compare(operator, left, right) => compare_values(
            operator,
            eval_term(left, assignment, interpretation),
            eval_term(right, assignment, interpretation),
        ),
        SpecFormula::And(conjuncts) => all_hold(conjuncts, assignment, interpretation),
        SpecFormula::Exists(parameters, argument) => exists|binding: Map<int, Value>|
            #[trigger] binds_parameters(binding, parameters) && holds(
                *argument,
                assignment.union_prefer_right(binding),
                interpretation,
            ),
    }
}


/// The integer inside a value, where there is one.
pub open spec fn int_of(value: Value) -> int {
    match value {
        Value::Int(a) => a,
        _ => arbitrary(),
    }
}

/// Law: translating `A / B` or `A % B` (both pre-bound) binds exactly four
/// fresh integer parameters i, j, q, r under the constraints
/// `i = j * q + r`, `j != 0`, `0 <= r < j`; under the bindings A = 7 and
/// B = 2 the division formula is satisfiable exactly where the target is 3,
/// and the modulo formula exactly where the target is 1.
#[verifier::rlimit(100)]
#[verifier::spinoff_prover]
pub proof fn lemma_division_correctness(
    name_left: String,
    name_right: String,
    variable_declaration: VariableDeclaration,
    state: SpecState,
    left_declaration: VariableDeclaration,
    right_declaration: VariableDeclaration,
    assignment: Map<int, Value>,
    interpretation: Map<int, Value>,
    divide: bool,
)
    requires
        state.stack.scopes.len() >= 1,
        name_left@ != "_"@,
        name_right@ != "_"@,
        spec_lookup(state.stack.scopes, name_left@) == Some(left_declaration),
        spec_lookup(state.stack.scopes, name_right@) == Some(right_declaration),
        // declarations in use come from the registry, below the fresh ones
        left_declaration.id < state.stack.declarations.len(),
        right_declaration.id < state.stack.declarations.len(),
        variable_declaration.id < state.stack.declarations.len(),
        state.stack.declarations.len() + 4 <= usize::MAX,
        assignment.dom().contains(left_declaration.id as int),
        assignment.dom().contains(right_declaration.id as int),
        assignment.dom().contains(variable_declaration.id as int),
        assignment[left_declaration.id as int] == Value::Int(7),
        assignment[right_declaration.id as int] == Value::Int(2),
    ensures
        ({
            let operator = if divide {
                BinaryOperator::Divide
            } else {
                BinaryOperator::Modulo
            };
            let outcome = spec_choose_value_in_term(
                asp::Term::BinaryOperation(
                    operator,
                    Box::new(asp::Term::Variable(name_left)),
                    Box::new(asp::Term::Variable(name_right)),
                ),
                variable_declaration,
                state,
            );
            let expected: int = if divide {
                3
            } else {
                1
            };
            outcome.result matches Ok(formula) && (holds(formula, assignment, interpretation)
                <==> assignment[variable_declaration.id as int] == Value::Int(expected))
        }),
{
    let operator = if divide {
        BinaryOperator::Divide
    } else {
        BinaryOperator::Modulo
    };
    let expected: int = if divide {
        3
    } else {
        1
    };
    let (pi, s1) = spec_generated(state, Domain::Integer);
    let (pj, s2) = spec_generated(s1, Domain::Integer);
    let (pq, s3) = spec_generated(s2, Domain::Integer);
    let (pr, s4) = spec_generated(s3, Domain::Integer);
    let n = state.stack.declarations.len() as int;
    assert(pi.id as int == n && pj.id as int == n + 1 && pq.id as int == n + 2 && pr.id as int == n
        + 3);
    assert(s4.stack.scopes == state.stack.scopes);

    let outcome_left = spec_choose_value_in_term(asp::Term::Variable(name_left), pi, s4);
    assert(outcome_left.result == Ok::<SpecFormula, crate::error::Error>(
        SpecFormula::Compare(
            ComparisonOperator::Equal,
            SpecTerm::Variable(pi),
            SpecTerm::Variable(left_declaration),
        ),
    ) && outcome_left.state == s4);
    let outcome_right = spec_choose_value_in_term(asp::Term::Variable(name_right), pj, s4);
    assert(outcome_right.result == Ok::<SpecFormula, crate::error::Error>(
        SpecFormula::Compare(
            ComparisonOperator::Equal,
            SpecTerm::Variable(pj),
            SpecTerm::Variable(right_declaration),
        ),
    ) && outcome_right.state == s4);

    let params = seq![pi, pj, pq, pr];
    let conjuncts = seq![
        SpecFormula::Compare(
            ComparisonOperator::Equal,
            SpecTerm::Variable(pi),
            SpecTerm::BinaryOperation(
                BinaryOperator::Add,
                Box::new(
                    SpecTerm::BinaryOperation(
                        BinaryOperator::Multiply,
                        Box::new(SpecTerm::Variable(pj)),
                        Box::new(SpecTerm::Variable(pq)),
                    ),
                ),
                Box::new(SpecTerm::Variable(pr)),
            ),
        ),
        SpecFormula::Compare(
            ComparisonOperator::Equal,
            SpecTerm::Variable(pi),
            SpecTerm::Variable(left_declaration),
        ),
        SpecFormula::Compare(
            ComparisonOperator::Equal,
            SpecTerm::Variable(pj),
            SpecTerm::Variable(right_declaration),
        ),
        SpecFormula::Compare(
            ComparisonOperator::NotEqual,
            SpecTerm::Variable(pj),
            SpecTerm::Integer(0),
        ),
        SpecFormula::Compare(
            ComparisonOperator::GreaterOrEqual,
            SpecTerm::Variable(pr),
            SpecTerm::Integer(0),
        ),
        SpecFormula::Compare(
            ComparisonOperator::Less,
            SpecTerm::Variable(pr),
            SpecTerm::Variable(pj),
        ),
        SpecFormula::Compare(
            ComparisonOperator::Equal,
            SpecTerm::Variable(variable_declaration),
            SpecTerm::Variable(if divide { pq } else { pr }),
        ),
    ];
    let body = SpecFormula::And(conjuncts);
    let formula = SpecFormula::Exists(params, Box::new(body));
    let outcome = spec_choose_value_in_term(
        asp::Term::BinaryOperation(
            operator,
            Box::new(asp::Term::Variable(name_left)),
            Box::new(asp::Term::Variable(name_right)),
        ),
        variable_declaration,
        state,
    );
    assert(outcome.result == Ok::<SpecFormula, crate::error::Error>(formula));

    let target_id = variable_declaration.id as int;
    let left_id = left_declaration.id as int;
    let right_id = right_declaration.id as int;

    if holds(formula, assignment, interpretation) {
        lemma_holds_exists_elim(params, body, assignment, interpretation);
        let binding = choose|binding: Map<int, Value>|
            #[trigger] binds_parameters(binding, params) && holds(
                body,
                assignment.union_prefer_right(binding),
                interpretation,
            );
        let union = assignment.union_prefer_right(binding);
        assert(binds_parameters(binding, params));
        assert(holds(body, union, interpretation));
        assert(all_hold(conjuncts, union, interpretation));
        assert(conjuncts.len() == 7);
        lemma_all_hold_index(conjuncts, union, interpretation, 0);
        lemma_all_hold_index(conjuncts, union, interpretation, 1);
        lemma_all_hold_index(conjuncts, union, interpretation, 2);
        lemma_all_hold_index(conjuncts, union, interpretation, 4);
        lemma_all_hold_index(conjuncts, union, interpretation, 5);
        lemma_all_hold_index(conjuncts, union, interpretation, 6);

        assert(params[0] == pi && params[1] == pj && params[2] == pq && params[3] == pr);
        assert(binding.dom().contains(n) && binding[n] is Int);
        assert(binding.dom().contains(n + 1) && binding[n + 1] is Int);
        assert(binding.dom().contains(n + 2) && binding[n + 2] is Int);
        assert(binding.dom().contains(n + 3) && binding[n + 3] is Int);
        assert(!binding.dom().contains(target_id)) by {
            if binding.dom().contains(target_id) {
                let i = choose|i: int|
                    0 <= i < params.len() && (#[trigger] params[i]).id as int == target_id;
                assert(params[i] == pi || params[i] == pj || params[i] == pq || params[i] == pr);
            }
        }
        assert(!binding.dom().contains(left_id)) by {
            if binding.dom().contains(left_id) {
                let i = choose|i: int|
                    0 <= i < params.len() && (#[trigger] params[i]).id as int == left_id;
                assert(params[i] == pi || params[i] == pj || params[i] == pq || params[i] == pr);
            }
        }
        assert(!binding.dom().contains(right_id)) by {
            if binding.dom().contains(right_id) {
                let i = choose|i: int|
                    0 <= i < params.len() && (#[trigger] params[i]).id as int == right_id;
                assert(params[i] == pi || params[i] == pj || params[i] == pq || params[i] == pr);
            }
        }
        let vi = int_of(binding[n]);
        let vj = int_of(binding[n + 1]);
        let vq = int_of(binding[n + 2]);
        let vr = int_of(binding[n + 3]);
        assert(conjuncts[1] == SpecFormula::Compare(
            ComparisonOperator::Equal,
            SpecTerm::Variable(pi),
            SpecTerm::Variable(left_declaration),
        ));
        assert(holds(conjuncts[1], union, interpretation));
        assert(union.dom().contains(n) && union[n] == binding[n]);
        assert(union[left_id] == assignment[left_id]);
        assert(eval_term(SpecTerm::Variable(pi), union, interpretation) == union[n]);
        assert(eval_term(SpecTerm::Variable(left_declaration), union, interpretation)
            == union[left_id]);
        assert(union[n] == union[left_id]);
        assert(vi == 7);
        assert(holds(conjuncts[2], union, interpretation));
        assert(vj == 2);
        assert(holds(conjuncts[4], union, interpretation));
        assert(0 <= vr);
        assert(holds(conjuncts[5], union, interpretation));
        assert(vr < 2);
        assert(holds(conjuncts[0], union, interpretation));
        assert(union[n + 1] == binding[n + 1] && union[n + 2] == binding[n + 2] && union[n + 3]
            == binding[n + 3]);
        assert(binding[n] == Value::Int(vi) && binding[n + 1] == Value::Int(vj) && binding[n + 2]
            == Value::Int(vq) && binding[n + 3] == Value::Int(vr));
        let product = SpecTerm::BinaryOperation(
            BinaryOperator::Multiply,
            Box::new(SpecTerm::Variable(pj)),
            Box::new(SpecTerm::Variable(pq)),
        );
        let sum = SpecTerm::BinaryOperation(
            BinaryOperator::Add,
            Box::new(product),
            Box::new(SpecTerm::Variable(pr)),
        );
        reveal_with_fuel(eval_term, 3);
        assert(eval_term(product, union, interpretation) == Value::Int(vj * vq));
        assert(eval_term(sum, union, interpretation) == Value::Int(vj * vq + vr));
        assert(vi == vj * vq + vr);
        assert(vq == 3 && vr == 1) by (nonlinear_arith)
            requires
                7 == vj * vq + vr,
                vj == 2,
                0 <= vr < 2,
        ;
        assert(holds(conjuncts[6], union, interpretation));
        assert(assignment[target_id] == Value::Int(expected));
    }

    if assignment[target_id] == Value::Int(expected) {
        let binding = map![
            n => Value::Int(7),
            n + 1 => Value::Int(2),
            n + 2 => Value::Int(3),
            n + 3 => Value::Int(1),
        ];
        let union = assignment.union_prefer_right(binding);
        assert(binding.dom() =~= set![n, n + 1, n + 2, n + 3]);
        assert(binds_parameters(binding, params)) by {
            assert(params[0] == pi && params[1] == pj && params[2] == pq && params[3] == pr);
            assert forall|i: int| 0 <= i < params.len() implies binding.dom().contains(
                (#[trigger] params[i]).id as int,
            ) && value_in_domain(binding[params[i].id as int], params[i].domain) by {
                assert(params[i] == pi || params[i] == pj || params[i] == pq || params[i] == pr);
            }
            assert forall|id: int| #[trigger] binding.dom().contains(id) implies exists|i: int|
                0 <= i < params.len() && (#[trigger] params[i]).id as int == id by {
                if id == n {
                    assert(0 <= 0 < params.len() && params[0].id as int == id);
                } else if id == n + 1 {
                    assert(0 <= 1 < params.len() && params[1].id as int == id);
                } else if id == n + 2 {
                    assert(0 <= 2 < params.len() && params[2].id as int == id);
                } else {
                    assert(0 <= 3 < params.len() && params[3].id as int == id);
                }
            }
        }
        assert(union[n] == Value::Int(7) && union[n + 1] == Value::Int(2) && union[n + 2]
            == Value::Int(3) && union[n + 3] == Value::Int(1));
        assert(union[left_id] == Value::Int(7) && union[right_id] == Value::Int(2)
            && union[target_id] == Value::Int(expected));
        let product = SpecTerm::BinaryOperation(
            BinaryOperator::Multiply,
            Box::new(SpecTerm::Variable(pj)),
            Box::new(SpecTerm::Variable(pq)),
        );
        let sum = SpecTerm::BinaryOperation(
            BinaryOperator::Add,
            Box::new(product),
            Box::new(SpecTerm::Variable(pr)),
        );
        reveal_with_fuel(eval_term, 3);
        assert(union.dom().contains(n + 1) && union[n + 1] == Value::Int(2));
        assert(union.dom().contains(n + 2) && union[n + 2] == Value::Int(3));
        assert(eval_term(SpecTerm::Variable(pj), union, interpretation) == Value::Int(2));
        assert(eval_term(SpecTerm::Variable(pq), union, interpretation) == Value::Int(3));
        assert(eval_binary(BinaryOperator::Multiply, Value::Int(2), Value::Int(3)) == Value::Int(
            6,
        ));
        assert(eval_term(product, union, interpretation) == Value::Int(6));
        assert(eval_term(sum, union, interpretation) == Value::Int(7));
        assert(holds(conjuncts[0], union, interpretation));
        assert(holds(conjuncts[1], union, interpretation));
        assert(holds(conjuncts[2], union, interpretation));
        assert(holds(conjuncts[3], union, interpretation));
        assert(holds(conjuncts[4], union, interpretation));
        assert(holds(conjuncts[5], union, interpretation));
        assert(holds(conjuncts[6], union, interpretation));
        assert forall|i: int| 0 <= i < conjuncts.len() implies #[trigger] holds(
            conjuncts[i],
            union,
            interpretation,
        ) by {
            assert(conjuncts.len() == 7);
        }
        lemma_all_hold_intro(conjuncts, union, interpretation);
        assert(holds(body, union, interpretation));
        lemma_holds_exists_intro(params, body, assignment, interpretation, binding);
        assert(holds(formula, assignment, interpretation));
    }
}


/// Law: translating the interval `1..3` binds three fresh integer parameters
/// and is satisfiable exactly where the target is one of 1, 2, 3.
#[verifier::rlimit(100)]
#[verifier::spinoff_prover]
pub proof fn lemma_interval_enumeration(
    variable_declaration: VariableDeclaration,
    state: SpecState,
    assignment: Map<int, Value>,
    interpretation: Map<int, Value>,
)
    requires
        state.stack.scopes.len() >= 1,
        variable_declaration.id < state.stack.declarations.len(),
        state.stack.declarations.len() + 3 <= usize::MAX,
        assignment.dom().contains(variable_declaration.id as int),
    ensures
        ({
            let outcome = spec_choose_value_in_term(
                asp::Term::Interval(
                    Box::new(asp::Term::Symbol(asp::Symbol::Number(1))),
                    Box::new(asp::Term::Symbol(asp::Symbol::Number(3))),
                ),
                variable_declaration,
                state,
            );
            outcome.result matches Ok(formula) && (holds(formula, assignment, interpretation)
                <==> exists|z: int|
                1 <= z <= 3 && assignment[variable_declaration.id as int] == Value::Int(z))
        }),
{
    let (pi, s1) = spec_generated(state, Domain::Integer);
    let (pj, s2) = spec_generated(s1, Domain::Integer);
    let (pk, s3) = spec_generated(s2, Domain::Integer);
    let n = state.stack.declarations.len() as int;
    assert(pi.id as int == n && pj.id as int == n + 1 && pk.id as int == n + 2);

    let outcome_left = spec_choose_value_in_term(
        asp::Term::Symbol(asp::Symbol::Number(1)),
        pi,
        s3,
    );
    assert(outcome_left.result == Ok::<SpecFormula, crate::error::Error>(
        SpecFormula::Compare(
            ComparisonOperator::Equal,
            SpecTerm::Variable(pi),
            SpecTerm::Integer(1),
        ),
    ) && outcome_left.state == s3);
    let outcome_right = spec_choose_value_in_term(
        asp::Term::Symbol(asp::Symbol::Number(3)),
        pj,
        s3,
    );

    let params = seq![pi, pj, pk];
    let conjuncts = seq![
        SpecFormula::Compare(
            ComparisonOperator::Equal,
            SpecTerm::Variable(pi),
            SpecTerm::Integer(1),
        ),
        SpecFormula::Compare(
            ComparisonOperator::Equal,
            SpecTerm::Variable(pj),
            SpecTerm::Integer(3),
        ),
        SpecFormula::Compare(
            ComparisonOperator::LessOrEqual,
            SpecTerm::Variable(pi),
            SpecTerm::Variable(pk),
        ),
        SpecFormula::Compare(
            ComparisonOperator::LessOrEqual,
            SpecTerm::Variable(pk),
            SpecTerm::Variable(pj),
        ),
        SpecFormula::Compare(
            ComparisonOperator::Equal,
            SpecTerm::Variable(variable_declaration),
            SpecTerm::Variable(pk),
        ),
    ];
    let body = SpecFormula::And(conjuncts);
    let formula = SpecFormula::Exists(params, Box::new(body));
    let outcome = spec_choose_value_in_term(
        asp::Term::Interval(
            Box::new(asp::Term::Symbol(asp::Symbol::Number(1))),
            Box::new(asp::Term::Symbol(asp::Symbol::Number(3))),
        ),
        variable_declaration,
        state,
    );
    assert(outcome.result == Ok::<SpecFormula, crate::error::Error>(formula));

    let target_id = variable_declaration.id as int;

    if holds(formula, assignment, interpretation) {
        lemma_holds_exists_elim(params, body, assignment, interpretation);
        let binding = choose|binding: Map<int, Value>|
            #[trigger] binds_parameters(binding, params) && holds(
                body,
                assignment.union_prefer_right(binding),
                interpretation,
            );
        let union = assignment.union_prefer_right(binding);
        assert(binds_parameters(binding, params));
        assert(holds(body, union, interpretation));
        assert(all_hold(conjuncts, union, interpretation));
        assert(params[0] == pi && params[1] == pj && params[2] == pk);
        assert(binding.dom().contains(n) && binding[n] is Int);
        assert(binding.dom().contains(n + 1) && binding[n + 1] is Int);
        assert(binding.dom().contains(n + 2) && binding[n + 2] is Int);
        assert(!binding.dom().contains(target_id)) by {
            if binding.dom().contains(target_id) {
                let i = choose|i: int|
                    0 <= i < params.len() && (#[trigger] params[i]).id as int == target_id;
                assert(params[i] == pi || params[i] == pj || params[i] == pk);
            }
        }
        let vk = int_of(binding[n + 2]);
        lemma_all_hold_index(conjuncts, union, interpretation, 0);
        lemma_all_hold_index(conjuncts, union, interpretation, 1);
        lemma_all_hold_index(conjuncts, union, interpretation, 2);
        lemma_all_hold_index(conjuncts, union, interpretation, 3);
        lemma_all_hold_index(conjuncts, union, interpretation, 4);
        assert(union[n] == binding[n] && union[n + 1] == binding[n + 1] && union[n + 2]
            == binding[n + 2]);
        assert(binding[n] == Value::Int(1));
        assert(binding[n + 1] == Value::Int(3));
        assert(1 <= vk && vk <= 3);
        assert(union[target_id] == assignment[target_id]);
        assert(assignment[target_id] == Value::Int(vk));
        assert(1 <= vk <= 3 && assignment[target_id] == Value::Int(vk));
    }

    if exists|z: int| 1 <= z <= 3 && assignment[target_id] == Value::Int(z) {
        let z = choose|z: int| 1 <= z <= 3 && assignment[target_id] == Value::Int(z);
        let binding = map![n => Value::Int(1), n + 1 => Value::Int(3), n + 2 => Value::Int(z)];
        let union = assignment.union_prefer_right(binding);
        assert(binding.dom() =~= set![n, n + 1, n + 2]);
        assert(binds_parameters(binding, params)) by {
            assert(params[0] == pi && params[1] == pj && params[2] == pk);
            assert forall|i: int| 0 <= i < params.len() implies binding.dom().contains(
                (#[trigger] params[i]).id as int,
            ) && value_in_domain(binding[params[i].id as int], params[i].domain) by {
                assert(params[i] == pi || params[i] == pj || params[i] == pk);
            }
            assert forall|id: int| #[trigger] binding.dom().contains(id) implies exists|i: int|
                0 <= i < params.len() && (#[trigger] params[i]).id as int == id by {
                if id == n {
                    assert(0 <= 0 < params.len() && params[0].id as int == id);
                } else if id == n + 1 {
                    assert(0 <= 1 < params.len() && params[1].id as int == id);
                } else {
                    assert(0 <= 2 < params.len() && params[2].id as int == id);
                }
            }
        }
        assert(union[n] == Value::Int(1) && union[n + 1] == Value::Int(3) && union[n + 2]
            == Value::Int(z));
        assert(union[target_id] == assignment[target_id]);
        assert(holds(conjuncts[0], union, interpretation));
        assert(holds(conjuncts[1], union, interpretation));
        assert(holds(conjuncts[2], union, interpretation));
        assert(holds(conjuncts[3], union, interpretation));
        assert(holds(conjuncts[4], union, interpretation));
        assert forall|i: int| 0 <= i < conjuncts.len() implies #[trigger] holds(
            conjuncts[i],
            union,
            interpretation,
        ) by {
            assert(conjuncts.len() == 5);
        }
        lemma_all_hold_intro(conjuncts, union, interpretation);
        assert(holds(body, union, interpretation));
        lemma_holds_exists_intro(params, body, assignment, interpretation, binding);
        assert(holds(formula, assignment, interpretation));
    }
}

} // verus!
