//! Translation failures.  The first failure anywhere in a subterm aborts
//! translation of the whole enclosing term; no partial formula is assembled.

use vstd::prelude::*;

verus! {

/// A construct of the source language that the translator recognizes but
/// intentionally does not implement.
#[derive(Clone, Copy, PartialEq, Eq, Structural, Debug)]
pub enum Feature {
    Exponentiation,
    AbsoluteValue,
    SymbolicFunctions,
    Pools,
    ExternalFunctions,
}

/// An invariant violation in the term handed to the translator.
#[derive(Clone, Copy, PartialEq, Eq, Structural, Debug)]
pub enum Fault {
    /// A symbol that should be a 0-ary constant carries arguments.
    UnexpectedArguments,
}

/// A translation failure.
#[derive(Clone, Copy, PartialEq, Eq, Structural, Debug)]
pub enum Error {
    /// Syntactically recognized but intentionally unimplemented.
    UnsupportedLanguageFeature(Feature),
    /// A recognized gap reserved for future operator coverage (currently:
    /// unary operators other than minus and absolute value).
    NotYetImplemented,
    /// An invariant violation.
    LogicError(Fault),
}

} // verus!
