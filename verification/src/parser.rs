//! The declaration grammar.
//!
//! Every rule comes twice: as a `spec` function over a sequence of
//! characters and a position in it, and as an executable function that is
//! proved to compute it.

pub mod error;
pub mod function;
pub mod variable;
