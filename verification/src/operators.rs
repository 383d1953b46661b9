//! The arithmetic and comparison operators on values.

use crate::semantics::{
    arithmetic, before, compare, operate, power, quotient, text_before, wrap, yields, Fault,
};
use crate::text::chars_of;
use crate::value::Value;
use vstd::arithmetic::div_mod::{lemma_mod_multiples_vanish, lemma_mul_mod_noop_left};
use vstd::prelude::*;

verus! {

/// Multiplying a wrapped product on wraps to the same integer as multiplying
/// the product itself.
pub proof fn lemma_wrap_mul(a: int, b: int)
    ensures
        wrap(wrap(a) * b) == wrap(a * b),
{
    let m = 0x1_0000_0000int;
    let r = a % m;
    lemma_mul_mod_noop_left(a, b, m);
    if r > i32::MAX {
        assert((r - m) * b == m * (-b) + r * b) by (nonlinear_arith);
        lemma_mod_multiples_vanish(-b, r * b, m);
    }
}

/// `base` raised to `exponent` by repeated multiplication, wrapping around.
pub fn raise(base: i32, exponent: i32) -> (result: i32)
    ensures
        result == wrap(power(base as int, exponent as int)),
{
    let mut result: i32 = 1;
    let mut i: i32 = 0;
    if exponent <= 0 {
        return result;
    }
    while i < exponent
        invariant
            0 <= i <= exponent,
            result == wrap(power(base as int, i as int)),
        decreases exponent - i,
    {
        proof {
            lemma_wrap_mul(power(base as int, i as int), base as int);
            assert(power(base as int, i + 1) == base * power(base as int, i as int));
            assert(base * power(base as int, i as int) == power(base as int, i as int) * base)
                by (nonlinear_arith);
        }
        result = result.wrapping_mul(base);
        i = i + 1;
    }
    result
}

/// `l / r` rounded toward zero, wrapping around; `r` is not zero.
pub fn divide(l: i32, r: i32) -> (result: i32)
    requires
        r != 0,
    ensures
        result == wrap(quotient(l as int, r as int)),
{
    match l.checked_div(r) {
        Some(q) => q,
        None => i32::MIN,
    }
}

/// The arithmetic operator `op` on two values.
pub fn apply(op: &str, l: &Value, r: &Value) -> (result: Result<Value, Fault>)
    ensures
        yields(result, operate(op@, l@, r@)),
{
    match (l, r) {
        (Value::Number(a), Value::Number(b)) => {
            let name = chars_of(op);
            proof {
                reveal_strlit("+");
                reveal_strlit("-");
                reveal_strlit("*");
                reveal_strlit("/");
                reveal_strlit("^");
                assert("+"@ =~= seq!['+']);
                assert("-"@ =~= seq!['-']);
                assert("*"@ =~= seq!['*']);
                assert("/"@ =~= seq!['/']);
                assert("^"@ =~= seq!['^']);
            }
            if name.len() != 1 {
                return Err(Fault::UndefinedOperator);
            }
            let c = name[0];
            assert(name@ =~= seq![c]);
            if c == '+' {
                Ok(Value::Number(a.wrapping_add(*b)))
            } else if c == '-' {
                Ok(Value::Number(a.wrapping_sub(*b)))
            } else if c == '*' {
                Ok(Value::Number(a.wrapping_mul(*b)))
            } else if c == '/' {
                if *b == 0 {
                    Err(Fault::DivisionByZero)
                } else {
                    Ok(Value::Number(divide(*a, *b)))
                }
            } else if c == '^' {
                Ok(Value::Number(raise(*a, *b)))
            } else {
                Err(Fault::UndefinedOperator)
            }
        },
        _ => Err(Fault::CannotDoMath),
    }
}

/// Whether `a` comes before `b` in the lexicographic order of code points.
pub fn precedes(a: &str, b: &str) -> (result: bool)
    ensures
        result == text_before(a@, b@),
{
    let x = chars_of(a);
    let y = chars_of(b);
    let mut i: usize = 0;
    assert(a@.skip(0) =~= a@ && b@.skip(0) =~= b@);
    while i < x.len() && i < y.len()
        invariant
            x@ == a@,
            y@ == b@,
            i <= x.len(),
            i <= y.len(),
            text_before(a@, b@) == text_before(a@.skip(i as int), b@.skip(i as int)),
        decreases x.len() - i,
    {
        proof {
            assert(a@.skip(i as int).drop_first() =~= a@.skip(i + 1));
            assert(b@.skip(i as int).drop_first() =~= b@.skip(i + 1));
        }
        if x[i] != y[i] {
            return x[i] < y[i];
        }
        i += 1;
    }
    i < y.len()
}

/// Whether `l` comes before `r`; false for values of different kinds.
pub fn value_before(l: &Value, r: &Value) -> (result: bool)
    ensures
        result == before(l@, r@),
{
    match (l, r) {
        (Value::Number(a), Value::Number(b)) => *a < *b,
        (Value::Bool(a), Value::Bool(b)) => !*a && *b,
        (Value::String(a), Value::String(b)) => precedes(a.as_str(), b.as_str()),
        _ => false,
    }
}

/// Whether two values of the same kind are equal.
pub fn value_equal(l: &Value, r: &Value) -> (result: bool)
    ensures
        result == (l@ == r@),
{
    match (l, r) {
        (Value::Number(a), Value::Number(b)) => *a == *b,
        (Value::Bool(a), Value::Bool(b)) => *a == *b,
        (Value::String(a), Value::String(b)) => *a == *b,
        _ => false,
    }
}

/// The comparison `l op r`, where `op` is the value of the operator node.
pub fn compare_values(l: &Value, op: &Value, r: &Value) -> (result: Result<Value, Fault>)
    ensures
        yields(result, compare(l@, op@, r@)),
{
    let alike = match (l, r) {
        (Value::Number(_), Value::Number(_)) => true,
        (Value::Bool(_), Value::Bool(_)) => true,
        (Value::String(_), Value::String(_)) => true,
        _ => false,
    };
    if !alike {
        return Err(Fault::CannotCompare);
    }
    match op {
        Value::String(s) => {
            let name = chars_of(s.as_str());
            proof {
                reveal_strlit("<");
                reveal_strlit(">");
                reveal_strlit("==");
                reveal_strlit("!=");
                reveal_strlit(">=");
                reveal_strlit("<=");
                assert("<"@ =~= seq!['<']);
                assert(">"@ =~= seq!['>']);
                assert("=="@ =~= seq!['=', '=']);
                assert("!="@ =~= seq!['!', '=']);
                assert(">="@ =~= seq!['>', '=']);
                assert("<="@ =~= seq!['<', '=']);
            }
            if name.len() == 1 {
                let c = name[0];
                assert(name@ =~= seq![c]);
                if c == '<' {
                    Ok(Value::Bool(value_before(l, r)))
                } else if c == '>' {
                    Ok(Value::Bool(value_before(r, l)))
                } else {
                    Err(Fault::UnknownOperator)
                }
            } else if name.len() == 2 && name[1] == '=' {
                let c = name[0];
                assert(name@ =~= seq![c, '=']);
                if c == '=' {
                    Ok(Value::Bool(value_equal(l, r)))
                } else if c == '!' {
                    Ok(Value::Bool(!value_equal(l, r)))
                } else if c == '>' {
                    Ok(Value::Bool(!value_before(l, r)))
                } else if c == '<' {
                    Ok(Value::Bool(!value_before(r, l)))
                } else {
                    Err(Fault::UnknownOperator)
                }
            } else {
                Err(Fault::UnknownOperator)
            }
        },
        _ => Err(Fault::UnknownOperator),
    }
}

} // verus!
