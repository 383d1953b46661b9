//! Runtime values.

use vstd::prelude::*;

verus! {

/// A value that evaluation produces.
#[derive(Debug, PartialEq, PartialOrd)]
pub enum Value {
    String(String),
    Number(i32),
    Bool(bool),
}

/// The mathematical model of a [`Value`].
pub enum Datum {
    Str(Seq<char>),
    Int(i32),
    Bool(bool),
}

impl View for Value {
    type V = Datum;

    open spec fn view(&self) -> Datum {
        match self {
            Value::String(s) => Datum::Str(s@),
            Value::Number(n) => Datum::Int(*n),
            Value::Bool(b) => Datum::Bool(*b),
        }
    }
}

impl Clone for Value {
    fn clone(&self) -> (copy: Value)
        ensures
            copy@ == self@,
    {
        match self {
            Value::String(s) => Value::String(s.clone()),
            Value::Number(n) => Value::Number(*n),
            Value::Bool(b) => Value::Bool(*b),
        }
    }
}

} // verus!
