//! Running source text: parse it as a program, then evaluate the program.

use crate::grammar;
use crate::interpreter::start;
use crate::parser::program;
use crate::semantics::{outcome, Fault};
use crate::tokens::ParseError;
use crate::value::{Datum, Value};
use vstd::prelude::*;

verus! {

/// Why running a source text gave no value.
#[derive(Debug, PartialEq, Eq, Clone, Copy)]
pub enum Failure {
    /// The text does not start with a program.
    Syntax(ParseError),
    /// A program was parsed, but text is left after it.
    TrailingInput,
    /// The program was parsed whole and its evaluation failed.
    Runtime(Fault),
}

/// What running `source` gives: the program must take up the whole text, and
/// then its evaluation decides.
pub open spec fn run_result(source: Seq<char>) -> Result<Datum, Failure> {
    match grammar::program(source) {
        Ok((rest, tree)) => if rest.len() == 0 {
            match outcome(tree) {
                Ok(value) => Ok(value),
                Err(fault) => Err(Failure::Runtime(fault)),
            }
        } else {
            Err(Failure::TrailingInput)
        },
        Err(e) => Err(Failure::Syntax(e)),
    }
}

/// Parses `source` as a program and evaluates it.  Text that is left after
/// the program is an error: a value, or a failure of the evaluation, comes
/// back only where the program is the whole of `source`.
pub fn run(source: &str) -> (result: Result<Value, Failure>)
    ensures
        match result {
            Ok(value) => run_result(source@) == Ok::<Datum, Failure>(value@),
            Err(failure) => run_result(source@) == Err::<Datum, Failure>(failure),
        },
{
    match program(source) {
        Ok((rest, tree)) => {
            if rest.is_empty() {
                match start(&tree) {
                    Ok(value) => Ok(value),
                    Err(fault) => Err(Failure::Runtime(fault)),
                }
            } else {
                Err(Failure::TrailingInput)
            }
        },
        Err(e) => Err(Failure::Syntax(e)),
    }
}

} // verus!
