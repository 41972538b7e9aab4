//! Reads one-line function signatures of a small interface language and
//! produces the matching C type header, function header and stub source.
//!
//! * [`text`] holds the character classes, the scanning primitives and the
//!   decimal conversions that the rest is built from.
//! * [`parser`] holds the declaration grammar.
//! * [`driver`] applies the grammar to a sequence of lines.
//! * [`generator`] turns declarations into the three artifacts.
//! * [`policy`] holds the rules on which files are read and written.

pub mod driver;
pub mod generator;
pub mod parser;
pub mod policy;
pub mod text;
