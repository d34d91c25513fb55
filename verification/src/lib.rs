//! A verified parser for a small subset of the C language.
//!
//! Source text is parsed into an abstract syntax tree by explicit
//! recursive-descent grammar rules.  The grammar itself is stated as a
//! family of specification functions over sequences of characters
//! (`grammar`); the executable parser (`parser`) is proved to return
//! exactly what those functions describe, for every input.

pub mod ast;
pub mod error;
pub mod grammar;
pub mod laws;
pub mod parser;
