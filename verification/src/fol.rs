//! The target algebra: first-order terms and formulas over shared variable
//! and function declarations.
//!
//! Declarations carry an identity (`id`) in addition to their content; two
//! declarations are the same declaration only when their identities agree,
//! never merely because they share a name.  Formulas reference declarations
//! by value, so the identity is what ties two occurrences of one variable
//! together.

use vstd::prelude::*;

verus! {

/// The semantic sort of a variable or value: a plain integer, or any
/// admissible program value.
#[derive(Clone, Copy, PartialEq, Eq, Structural, Debug)]
pub enum Domain {
    Integer,
    Program,
}

/// Arithmetic operators of the term algebra.
#[derive(Clone, Copy, PartialEq, Eq, Structural, Debug)]
pub enum BinaryOperator {
    Add,
    Subtract,
    Multiply,
    Divide,
    Modulo,
    Exponentiate,
}

/// Comparison operators of the formula algebra.
#[derive(Clone, Copy, PartialEq, Eq, Structural, Debug)]
pub enum ComparisonOperator {
    Equal,
    NotEqual,
    Less,
    LessOrEqual,
    Greater,
    GreaterOrEqual,
}

/// How a variable declaration came to be: written by the user under a name,
/// or generated during translation (auxiliary parameters and wildcards).
#[derive(Debug, PartialEq, Eq)]
pub enum DeclarationOrigin {
    Named(String),
    Generated,
}

impl Clone for DeclarationOrigin {
    fn clone(&self) -> (result: Self)
        ensures
            result == *self,
    {
        match self {
            DeclarationOrigin::Named(name) => DeclarationOrigin::Named(name.clone()),
            DeclarationOrigin::Generated => DeclarationOrigin::Generated,
        }
    }
}

/// An identity-bearing variable declaration.  The `id` is unique among all
/// declarations created through one scope stack.
#[derive(Debug, PartialEq, Eq)]
pub struct VariableDeclaration {
    pub id: usize,
    pub origin: DeclarationOrigin,
    pub domain: Domain,
}

impl Clone for VariableDeclaration {
    fn clone(&self) -> (result: Self)
        ensures
            result == *self,
    {
        VariableDeclaration { id: self.id, origin: self.origin.clone(), domain: self.domain }
    }
}

/// An identity-bearing function declaration, resolved through a
/// [`crate::context::DeclarationContext`].
#[derive(Debug, PartialEq, Eq)]
pub struct FunctionDeclaration {
    pub id: usize,
    pub name: String,
    pub arity: usize,
}

impl Clone for FunctionDeclaration {
    fn clone(&self) -> (result: Self)
        ensures
            result == *self,
    {
        FunctionDeclaration { id: self.id, name: self.name.clone(), arity: self.arity }
    }
}

/// A first-order term.
#[derive(Debug, PartialEq, Eq)]
pub enum Term {
    Integer(i32),
    Str(String),
    Infimum,
    Supremum,
    Variable(VariableDeclaration),
    Function(FunctionDeclaration, Vec<Term>),
    BinaryOperation(BinaryOperator, Box<Term>, Box<Term>),
    Negative(Box<Term>),
}

/// The mathematical model of a [`Term`]: the same tree with sequences in
/// place of vectors.
#[verifier::ext_equal]
pub enum SpecTerm {
    Integer(i32),
    Str(String),
    Infimum,
    Supremum,
    Variable(VariableDeclaration),
    Function(FunctionDeclaration, Seq<SpecTerm>),
    BinaryOperation(BinaryOperator, Box<SpecTerm>, Box<SpecTerm>),
    Negative(Box<SpecTerm>),
}

/// The models of a vector of terms, element by element.
pub open spec fn terms_view(terms: Seq<Term>) -> Seq<SpecTerm>
    decreases terms,
{
    Seq::new(
        terms.len(),
        |i: int|
            if 0 <= i < terms.len() {
                terms[i]@
            } else {
                arbitrary()
            },
    )
}

impl View for Term {
    type V = SpecTerm;

    open spec fn view(&self) -> SpecTerm
        decreases self,
    {
        match self {
            Term::Integer(value) => SpecTerm::Integer(*value),
            Term::Str(value) => SpecTerm::Str(*value),
            Term::Infimum => SpecTerm::Infimum,
            Term::Supremum => SpecTerm::Supremum,
            Term::Variable(declaration) => SpecTerm::Variable(*declaration),
            Term::Function(declaration, arguments) => SpecTerm::Function(
                *declaration,
                terms_view(arguments@),
            ),
            Term::BinaryOperation(operator, left, right) => SpecTerm::BinaryOperation(
                *operator,
                Box::new((**left)@),
                Box::new((**right)@),
            ),
            Term::Negative(argument) => SpecTerm::Negative(Box::new((**argument)@)),
        }
    }
}

/// A first-order formula, in the fragment that value-choice translation
/// produces: comparisons, conjunctions, and existential closures.
#[derive(Debug, PartialEq, Eq)]
pub enum Formula {
    Compare(ComparisonOperator, Box<Term>, Box<Term>),
    And(Vec<Formula>),
    Exists(Vec<VariableDeclaration>, Box<Formula>),
}

/// The mathematical model of a [`Formula`].
#[verifier::ext_equal]
pub enum SpecFormula {
    Compare(ComparisonOperator, SpecTerm, SpecTerm),
    And(Seq<SpecFormula>),
    Exists(Seq<VariableDeclaration>, Box<SpecFormula>),
}

impl View for Formula {
    type V = SpecFormula;

    open spec fn view(&self) -> SpecFormula
        decreases self,
    {
        match self {
            Formula::Compare(operator, left, right) => SpecFormula::Compare(
                *operator,
                (**left)@,
                (**right)@,
            ),
            Formula::And(conjuncts) => SpecFormula::And(formulas_view(conjuncts@)),
            Formula::Exists(parameters, argument) => SpecFormula::Exists(
                parameters@,
                Box::new((**argument)@),
            ),
        }
    }
}

impl Term {
    /// The integer literal term.
    pub fn integer(value: i32) -> (term: Term)
        ensures
            term@ == SpecTerm::Integer(value),
    {
        Term::Integer(value)
    }

    /// The string literal term.
    pub fn string(value: String) -> (term: Term)
        ensures
            term@ == SpecTerm::Str(value),
    {
        Term::Str(value)
    }

    /// The least element of the value ordering.
    pub fn infimum() -> (term: Term)
        ensures
            term@ == SpecTerm::Infimum,
    {
        Term::Infimum
    }

    /// The greatest element of the value ordering.
    pub fn supremum() -> (term: Term)
        ensures
            term@ == SpecTerm::Supremum,
    {
        Term::Supremum
    }

    /// A variable occurrence of the given declaration.
    pub fn variable(declaration: VariableDeclaration) -> (term: Term)
        ensures
            term@ == SpecTerm::Variable(declaration),
    {
        Term::Variable(declaration)
    }

    /// An application of a declared function to arguments.
    pub fn function(declaration: FunctionDeclaration, arguments: Vec<Term>) -> (term: Term)
        ensures
            term@ == SpecTerm::Function(declaration, terms_view(arguments@)),
    {
        Term::Function(declaration, arguments)
    }

    /// A binary operation applied to two terms.
    pub fn binary_operation(operator: BinaryOperator, left: Box<Term>, right: Box<Term>) -> (term:
        Term)
        ensures
            term@ == SpecTerm::BinaryOperation(operator, Box::new(left@), Box::new(right@)),
    {
        Term::BinaryOperation(operator, left, right)
    }

    /// The sum of two terms.
    pub fn add(left: Box<Term>, right: Box<Term>) -> (term: Term)
        ensures
            term@ == SpecTerm::BinaryOperation(
                BinaryOperator::Add,
                Box::new(left@),
                Box::new(right@),
            ),
    {
        Term::BinaryOperation(BinaryOperator::Add, left, right)
    }

    /// The product of two terms.
    pub fn multiply(left: Box<Term>, right: Box<Term>) -> (term: Term)
        ensures
            term@ == SpecTerm::BinaryOperation(
                BinaryOperator::Multiply,
                Box::new(left@),
                Box::new(right@),
            ),
    {
        Term::BinaryOperation(BinaryOperator::Multiply, left, right)
    }

    /// The negation of a term.
    pub fn negative(argument: Box<Term>) -> (term: Term)
        ensures
            term@ == SpecTerm::Negative(Box::new(argument@)),
    {
        Term::Negative(argument)
    }
}

impl Formula {
    /// The equality of two terms.
    pub fn equal(left: Box<Term>, right: Box<Term>) -> (formula: Formula)
        ensures
            formula@ == SpecFormula::Compare(ComparisonOperator::Equal, left@, right@),
    {
        Formula::Compare(ComparisonOperator::Equal, left, right)
    }

    /// The disequality of two terms.
    pub fn not_equal(left: Box<Term>, right: Box<Term>) -> (formula: Formula)
        ensures
            formula@ == SpecFormula::Compare(ComparisonOperator::NotEqual, left@, right@),
    {
        Formula::Compare(ComparisonOperator::NotEqual, left, right)
    }

    /// The strict order of two terms.
    pub fn less(left: Box<Term>, right: Box<Term>) -> (formula: Formula)
        ensures
            formula@ == SpecFormula::Compare(ComparisonOperator::Less, left@, right@),
    {
        Formula::Compare(ComparisonOperator::Less, left, right)
    }

    /// The non-strict order of two terms.
    pub fn less_or_equal(left: Box<Term>, right: Box<Term>) -> (formula: Formula)
        ensures
            formula@ == SpecFormula::Compare(ComparisonOperator::LessOrEqual, left@, right@),
    {
        Formula::Compare(ComparisonOperator::LessOrEqual, left, right)
    }

    /// The reversed non-strict order of two terms.
    pub fn greater_or_equal(left: Box<Term>, right: Box<Term>) -> (formula: Formula)
        ensures
            formula@ == SpecFormula::Compare(ComparisonOperator::GreaterOrEqual, left@, right@),
    {
        Formula::Compare(ComparisonOperator::GreaterOrEqual, left, right)
    }

    /// The conjunction of the given formulas.
    pub fn and(conjuncts: Vec<Formula>) -> (formula: Formula)
        ensures
            formula@ == SpecFormula::And(formulas_view(conjuncts@)),
    {
        Formula::And(conjuncts)
    }

    /// The existential closure of a formula over the given parameters.
    pub fn existential(parameters: Vec<VariableDeclaration>, argument: Box<Formula>) -> (formula:
        Formula)
        ensures
            formula@ == SpecFormula::Exists(parameters@, Box::new(argument@)),
    {
        Formula::Exists(parameters, argument)
    }
}

/// The models of a vector of formulas, element by element.
pub open spec fn formulas_view(formulas: Seq<Formula>) -> Seq<SpecFormula>
    decreases formulas,
{
    Seq::new(
        formulas.len(),
        |i: int|
            if 0 <= i < formulas.len() {
                formulas[i]@
            } else {
                arbitrary()
            },
    )
}

} // verus!
