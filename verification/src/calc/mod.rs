//! Parsing of mathematical expressions for the calculator command.

pub mod token;
pub mod ops;
pub mod grammar;
pub mod stream;
pub mod parse;
pub mod program;
pub mod precedence;
pub mod message;
pub mod errors;
