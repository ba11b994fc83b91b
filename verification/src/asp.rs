//! The source language: terms of answer set programs, as the translator
//! receives them from the enclosing rule translator.

use vstd::prelude::*;
use crate::fol::BinaryOperator;

verus! {

/// A ground symbol: a literal value of the source language.
#[derive(Debug, PartialEq, Eq)]
pub enum Symbol {
    Number(i32),
    Infimum,
    Supremum,
    Str(String),
    /// A symbolic constant, or, with arguments, a ground symbolic function.
    /// The parser hands symbolic functions with arguments to the translator
    /// as non-symbol terms, so only 0-ary constants are expected here.
    Function { name: String, arguments: Vec<Symbol> },
}

/// Unary operators of the source language.
#[derive(Clone, Copy, PartialEq, Eq, Structural, Debug)]
pub enum UnaryOperator {
    Minus,
    AbsoluteValue,
    Negation,
}

/// A term of the source language.  A variable named `_` is an anonymous
/// wildcard: every occurrence of it stands for a fresh variable.
#[derive(Debug, PartialEq, Eq)]
pub enum Term {
    Symbol(Symbol),
    Variable(String),
    BinaryOperation(BinaryOperator, Box<Term>, Box<Term>),
    UnaryOperation(UnaryOperator, Box<Term>),
    Interval(Box<Term>, Box<Term>),
    Function { name: String, arguments: Vec<Term> },
    Pool(Vec<Term>),
    ExternalFunction { name: String, arguments: Vec<Term> },
}

} // verus!
