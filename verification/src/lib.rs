//! Translation of answer set program (ASP) terms into first-order formulas.
//!
//! The core of this crate is the value-choice translator in [`translate`]: a
//! recursive function that, given an ASP term and a designated target
//! variable, produces a first-order formula that holds for an assignment of
//! the target exactly when that value is among the values the term can
//! evaluate to.  The translator relies on a nested variable-declaration scope
//! stack and on a memoizing function-declaration context.

pub mod asp;
pub mod context;
pub mod error;
pub mod fol;
pub mod laws;
pub mod scope;
pub mod semantics;
pub mod translate;
