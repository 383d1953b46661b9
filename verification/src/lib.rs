//! An interpreter for Asa, a small imperative language with integers,
//! booleans, strings, variables, functions and conditionals.
//!
//! [`parser`] turns source text into a [`Node`] tree, [`interpreter`]
//! evaluates such a tree, and [`run`] does both.  Every executable function
//! carries a contract that relates it to the mathematical definitions in
//! [`grammar`] and [`semantics`]; [`laws`] and [`spacing`] hold what is
//! proved of those definitions themselves.

pub mod ast;
pub mod entry;
pub mod grammar;
pub mod interpreter;
pub mod laws;
pub mod operators;
pub mod parser;
pub mod semantics;
pub mod spacing;
pub mod text;
pub mod tokens;
pub mod value;

pub use crate::ast::{Node, Tree};
pub use crate::entry::{run, Failure};
pub use crate::interpreter::{start, start_interpreter, Runtime};
pub use crate::parser::program;
pub use crate::semantics::Fault;
pub use crate::tokens::ParseError;
pub use crate::value::{Datum, Value};
