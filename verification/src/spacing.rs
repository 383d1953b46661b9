//! Spaces around binary operators do not matter.
//!
//! The module proves that the tree of a text stays the same when a space is
//! put next to one of the operators `+ - * / ^`, and so when one is taken
//! away there.  The proof follows the grammar rule by rule: each lemma says
//! of one rule that it makes the same of a text and of the text with the
//! space, and that it leaves less than it was given.

use crate::ast::Tree;
use crate::entry::run_result;
use crate::grammar::{
    arguments, blank, blanks, block, body_item, body_items, boolean, comparison_pair,
    comparison_pairs, conditional_exp, conditional_operator, conditional_val, else_if, else_ifs,
    else_statement, elses, expect, expression, function_body, function_call,
    function_definition, function_return, guarded_block, identifier, if_else_statements,
    if_statement, join, l1, l1_infix, l1_tail, l2, l2_infix, l2_tail, l3, l3_infix, l3_tail, l4,
    math_expression, more_returns, newline, newlines, number, optional_arguments, other_arg,
    other_args, pad, parenthetical_expression, program, program_item, program_items,
    return_statement, space, spaces, statement, statements, string, strip, terminator, textual,
    variable_define, white, whitespace, Parsed, ParsedMany,
};
use crate::tokens::{
    alnum_run, alnums, digits, leading, lemma_leading, lemma_leading_is, ParseError,
};
use vstd::prelude::*;

verus! {

/// One of the binary operators of arithmetic.
pub open spec fn is_operator(c: char) -> bool {
    c == '+' || c == '-' || c == '*' || c == '/' || c == '^'
}

/// `s` with a space put in before index `p`.
pub open spec fn spaced(s: Seq<char>, p: int) -> Seq<char> {
    s.take(p) + seq![' '] + s.skip(p)
}

/// The place `p` of `s` is next to an operator: right before one or right
/// after one.
pub open spec fn beside_operator(s: Seq<char>, p: int) -> bool {
    &&& 0 <= p <= s.len()
    &&& (p < s.len() && is_operator(s[p])) || (p > 0 && is_operator(s[p - 1]))
}

/// `t` is `s`, or `s` with one space more next to an operator at place
/// `from` or later.
pub open spec fn respaced_from(s: Seq<char>, t: Seq<char>, from: int) -> bool {
    s == t || exists|p: int| from <= p && #[trigger] beside_operator(s, p) && t == spaced(s, p)
}

/// `t` is `s`, or `s` with one space more next to an operator.
pub open spec fn respaced(s: Seq<char>, t: Seq<char>) -> bool {
    respaced_from(s, t, 0)
}

/// `t` is `s` respaced, or `s` behind one space.
pub open spec fn fronted(s: Seq<char>, t: Seq<char>) -> bool {
    respaced(s, t) || t == seq![' '] + s
}

/// Two results agree: they fail alike, or give the same tree and leave
/// respaced remainders.
pub open spec fn alike(a: Parsed, b: Parsed) -> bool {
    match (a, b) {
        (Ok((r1, t1)), Ok((r2, t2))) => t1 == t2 && respaced(r1, r2),
        (Err(e1), Err(e2)) => e1 == e2,
        _ => false,
    }
}

/// Two results of a repetition agree.
pub open spec fn alike_many(a: ParsedMany, b: ParsedMany) -> bool {
    match (a, b) {
        (Ok((r1, t1)), Ok((r2, t2))) => t1 == t2 && respaced(r1, r2),
        (Err(e1), Err(e2)) => e1 == e2,
        _ => false,
    }
}

/// The characters of a spaced sequence.
proof fn lemma_spaced(s: Seq<char>, p: int)
    requires
        0 <= p <= s.len(),
    ensures
        spaced(s, p).len() == s.len() + 1,
        forall|i: int| 0 <= i < p ==> #[trigger] spaced(s, p)[i] == s[i],
        spaced(s, p)[p] == ' ',
        forall|i: int| p < i <= s.len() ==> #[trigger] spaced(s, p)[i] == s[i - 1],
{
}

/// Respacing adds at most one character.
proof fn lemma_respaced_len(s: Seq<char>, t: Seq<char>)
    requires
        fronted(s, t),
    ensures
        s.len() <= t.len() <= s.len() + 1,
        t.len() == s.len() ==> t == s,
{
    if s != t && t != seq![' '] + s {
        let p = choose|p: int| 0 <= p && #[trigger] beside_operator(s, p) && t == spaced(s, p);
        lemma_spaced(s, p);
    }
}

/// A run of a class that holds neither the space nor an operator is the
/// same before and after respacing, and what follows it is respaced.
proof fn lemma_run_respaced(s: Seq<char>, t: Seq<char>, class: spec_fn(char) -> bool)
    requires
        respaced(s, t),
        !class(' '),
        forall|c: char| is_operator(c) ==> !class(c),
    ensures
        leading(t, class) == leading(s, class),
        leading(s, class) <= s.len(),
        t.take(leading(s, class) as int) == s.take(leading(s, class) as int),
        respaced(s.skip(leading(s, class) as int), t.skip(leading(s, class) as int)),
{
    lemma_leading(s, class);
    let n = leading(s, class) as int;
    if s != t {
        let p = choose|p: int| 0 <= p && #[trigger] beside_operator(s, p) && t == spaced(s, p);
        lemma_spaced(s, p);
        if p < s.len() && is_operator(s[p]) {
            if p < n {
                assert(class(s[p]));
            }
        } else {
            if p - 1 < n {
                assert(class(s[p - 1]));
            }
        }
        assert(n <= p);
        assert forall|i: int| 0 <= i < n implies class(#[trigger] t[i]) by {
            assert(t[i] == s[i]);
        }
        lemma_leading_is(t, class, n);
        assert(t.take(n) =~= s.take(n));
        let rest = s.skip(n);
        assert(t.skip(n) =~= spaced(rest, p - n));
        assert(beside_operator(rest, p - n)) by {
            if p < s.len() && is_operator(s[p]) {
                assert(rest[p - n] == s[p]);
            } else {
                assert(p - 1 >= n);
                assert(rest[p - n - 1] == s[p - 1]);
            }
        }
    }
}

/// Stripping a class that holds the space and no operator leaves respaced
/// remainders, the new space not at their front.
proof fn lemma_strip_respaced(s: Seq<char>, t: Seq<char>, class: spec_fn(char) -> bool)
    requires
        fronted(s, t),
        class(' '),
        forall|c: char| is_operator(c) ==> !class(c),
    ensures
        respaced_from(strip(s, class), strip(t, class), 1),
        strip(s, class).len() <= s.len(),
{
    lemma_leading(s, class);
    let m = leading(s, class) as int;
    if s == t {
    } else if t == seq![' '] + s {
        assert(t.drop_first() =~= s);
        assert(t.skip(1 + m) =~= s.skip(m));
    } else {
        let p = choose|p: int| 0 <= p && #[trigger] beside_operator(s, p) && t == spaced(s, p);
        lemma_spaced(s, p);
        if p < s.len() && is_operator(s[p]) {
            if p < m {
                assert(class(s[p]));
            }
        } else {
            if p - 1 < m {
                assert(class(s[p - 1]));
            }
            assert(p > m);
        }
        assert(m <= p);
        if p == m {
            assert(is_operator(s[p]));
            assert forall|i: int| 0 <= i < m + 1 implies class(#[trigger] t[i]) by {
                if i < m {
                    assert(t[i] == s[i]);
                }
            }
            assert(t[m + 1] == s[m]);
            lemma_leading_is(t, class, m + 1);
            assert(t.skip(m + 1) =~= s.skip(m));
        } else {
            assert forall|i: int| 0 <= i < m implies class(#[trigger] t[i]) by {
                assert(t[i] == s[i]);
            }
            assert(t[m] == s[m]);
            lemma_leading_is(t, class, m);
            let rest = s.skip(m);
            assert(t.skip(m) =~= spaced(rest, p - m));
            assert(beside_operator(rest, p - m)) by {
                if p < s.len() && is_operator(s[p]) {
                    assert(rest[p - m] == s[p]);
                } else {
                    assert(rest[p - m - 1] == s[p - 1]);
                }
            }
        }
    }
}

/// A literal without spaces and operators is found before respacing exactly
/// where it is found after, and what follows it is respaced.
proof fn lemma_expect_plain(s: Seq<char>, t: Seq<char>, literal: Seq<char>)
    requires
        respaced(s, t),
        literal.len() > 0,
        forall|i: int|
            0 <= i < literal.len() ==> #[trigger] literal[i] != ' ' && !is_operator(literal[i]),
    ensures
        match (expect(s, literal), expect(t, literal)) {
            (Some(a), Some(b)) => respaced(a, b) && a.len() < s.len(),
            (None, None) => true,
            _ => false,
        },
{
    let n = literal.len() as int;
    if s != t {
        let p = choose|p: int| 0 <= p && #[trigger] beside_operator(s, p) && t == spaced(s, p);
        lemma_spaced(s, p);
        if literal.is_prefix_of(s) {
            assert(p >= n) by {
                if p < s.len() && is_operator(s[p]) {
                    if p < n {
                        assert(s[p] == literal[p]);
                    }
                } else {
                    if p - 1 < n {
                        assert(s[p - 1] == literal[p - 1]);
                    }
                }
            }
            assert(literal =~= t.subrange(0, n));
            let rest = s.skip(n);
            assert(t.skip(n) =~= spaced(rest, p - n));
            assert(beside_operator(rest, p - n)) by {
                if p < s.len() && is_operator(s[p]) {
                    assert(rest[p - n] == s[p]);
                } else {
                    assert(p - 1 >= n) by {
                        if p - 1 < n {
                            assert(s[p - 1] == literal[p - 1]);
                        }
                    }
                    assert(rest[p - n - 1] == s[p - 1]);
                }
            }
        } else if literal.is_prefix_of(t) {
            assert(p >= n) by {
                if p < n {
                    assert(t[p] == literal[p]);
                }
            }
            assert(literal =~= s.subrange(0, n)) by {
                assert forall|i: int| 0 <= i < n implies literal[i] == s.subrange(0, n)[i] by {
                    assert(t.subrange(0, n)[i] == t[i]);
                    assert(t[i] == s[i]);
                }
            }
        }
    }
}

/// A literal of one character is found before respacing exactly where it is
/// found after, provided that the new space is not at the front; what
/// follows it is respaced, or has the new space at its front.
proof fn lemma_expect_first(s: Seq<char>, t: Seq<char>, literal: Seq<char>)
    requires
        respaced_from(s, t, 1),
        literal.len() == 1,
    ensures
        match (expect(s, literal), expect(t, literal)) {
            (Some(a), Some(b)) => fronted(a, b) && a.len() < s.len(),
            (None, None) => true,
            _ => false,
        },
{
    if s != t {
        let p = choose|p: int| 1 <= p && #[trigger] beside_operator(s, p) && t == spaced(s, p);
        lemma_spaced(s, p);
        assert(t[0] == s[0]);
        if literal.is_prefix_of(s) {
            assert(s.subrange(0, 1)[0] == s[0]);
            assert(literal =~= t.subrange(0, 1));
            let rest = s.skip(1);
            if p == 1 {
                assert(t.skip(1) =~= seq![' '] + rest);
            } else {
                assert(t.skip(1) =~= spaced(rest, p - 1));
                assert(beside_operator(rest, p - 1)) by {
                    if p < s.len() && is_operator(s[p]) {
                        assert(rest[p - 1] == s[p]);
                    } else {
                        assert(rest[p - 2] == s[p - 1]);
                    }
                }
            }
        } else if literal.is_prefix_of(t) {
            assert(t.subrange(0, 1)[0] == t[0]);
            assert(literal =~= s.subrange(0, 1));
        }
    }
}

/// A successful result leaves less than the input.
pub open spec fn consumes(r: Parsed, s: Seq<char>) -> bool {
    r matches Ok((rest, _)) ==> rest.len() < s.len()
}

/// Stripping leaves no more than there was.
proof fn lemma_strip_len(s: Seq<char>, class: spec_fn(char) -> bool)
    ensures
        strip(s, class).len() <= s.len(),
{
    lemma_leading(s, class);
}

proof fn lemma_identifier(s: Seq<char>, t: Seq<char>)
    requires
        respaced(s, t),
    ensures
        alike(identifier(s), identifier(t)),
        consumes(identifier(s), s),
{
    lemma_run_respaced(s, t, alnums());
}

proof fn lemma_number(s: Seq<char>, t: Seq<char>)
    requires
        respaced(s, t),
    ensures
        alike(number(s), number(t)),
        consumes(number(s), s),
{
    lemma_run_respaced(s, t, digits());
}

proof fn lemma_boolean(s: Seq<char>, t: Seq<char>)
    requires
        respaced(s, t),
    ensures
        alike(boolean(s), boolean(t)),
        consumes(boolean(s), s),
{
    reveal_strlit("true");
    reveal_strlit("false");
    lemma_expect_plain(s, t, "true"@);
    lemma_expect_plain(s, t, "false"@);
}

/// The run of a string literal's characters before and after respacing:
/// it is the same and what follows it is respaced, or it ends before an
/// operator and grows by the new space.
proof fn lemma_textual_run(body: Seq<char>, p: int)
    requires
        beside_operator(body, p),
    ensures
        ({
            let other = spaced(body, p);
            let n = leading(body, textual()) as int;
            let m = leading(other, textual()) as int;
            &&& n <= body.len()
            &&& m <= other.len()
            &&& if n == p {
                &&& m == n + 1
                &&& n < body.len()
                &&& is_operator(body[n])
                &&& other[m] == body[n]
            } else {
                &&& m == n
                &&& other.take(n) == body.take(n)
                &&& respaced(body.skip(n), other.skip(n))
            }
        }),
{
    let other = spaced(body, p);
    lemma_leading(body, textual());
    lemma_leading(other, textual());
    lemma_spaced(body, p);
    let n = leading(body, textual()) as int;
    assert(n <= p) by {
        if p < body.len() && is_operator(body[p]) {
            if p < n {
                assert(textual()(body[p]));
            }
        } else {
            if p - 1 < n {
                assert(textual()(body[p - 1]));
            }
        }
    }
    if n == p {
        assert(p < body.len() && is_operator(body[p])) by {
            if p > 0 && is_operator(body[p - 1]) {
                assert(textual()(body[p - 1]));
            }
        }
        assert forall|i: int| 0 <= i < n + 1 implies textual()(#[trigger] other[i]) by {
            if i < n {
                assert(other[i] == body[i]);
            }
        }
        assert(other[n + 1] == body[n]);
        lemma_leading_is(other, textual(), n + 1);
    } else {
        assert forall|i: int| 0 <= i < n implies textual()(#[trigger] other[i]) by {
            assert(other[i] == body[i]);
        }
        assert(other[n] == body[n]);
        lemma_leading_is(other, textual(), n);
        assert(other.take(n) =~= body.take(n));
        let rest = body.skip(n);
        assert(other.skip(n) =~= spaced(rest, p - n));
        assert(beside_operator(rest, p - n)) by {
            if p < body.len() && is_operator(body[p]) {
                assert(rest[p - n] == body[p]);
            } else {
                assert(rest[p - n - 1] == body[p - 1]);
            }
        }
    }
}

/// No quotation mark stands where an operator stands.
proof fn lemma_no_quote(s: Seq<char>)
    requires
        s.len() > 0,
        is_operator(s[0]),
    ensures
        expect(s, "\""@) is None,
{
    reveal_strlit("\"");
    if "\""@.is_prefix_of(s) {
        assert(s.subrange(0, 1)[0] == s[0]);
    }
}

proof fn lemma_string(s: Seq<char>, t: Seq<char>)
    requires
        respaced(s, t),
    ensures
        alike(string(s), string(t)),
        consumes(string(s), s),
{
    reveal_strlit("\"");
    let quote = "\""@;
    lemma_expect_plain(s, t, quote);
    match (expect(s, quote), expect(t, quote)) {
        (Some(body), Some(body_t)) => {
            lemma_leading(body, textual());
            let n = leading(body, textual()) as int;
            if body != body_t {
                let p = choose|p: int|
                    0 <= p && #[trigger] beside_operator(body, p) && body_t == spaced(body, p);
                lemma_textual_run(body, p);
                if n == p {
                    lemma_no_quote(body.skip(n));
                    lemma_no_quote(body_t.skip(n + 1));
                } else {
                    lemma_expect_plain(body.skip(n), body_t.skip(n), quote);
                }
            }
        },
        _ => {},
    }
}

proof fn lemma_function_call(s: Seq<char>, t: Seq<char>)
    requires
        respaced(s, t),
    ensures
        alike(function_call(s), function_call(t)),
        consumes(function_call(s), s),
    decreases s.len(), 0nat,
{
    reveal(function_call);
    reveal(arguments);
    reveal_strlit("(");
    reveal_strlit(")");
    lemma_run_respaced(s, t, alnums());
    lemma_leading(t, alnums());
    lemma_respaced_len(s, t);
    let n = alnum_run(s) as int;
    if n > 0 {
        lemma_expect_plain(s.skip(n), t.skip(n), "("@);
        match (expect(s.skip(n), "("@), expect(t.skip(n), "("@)) {
            (Some(inner), Some(inner_t)) => {
                lemma_arguments(inner, inner_t);
                match (arguments(inner), arguments(inner_t)) {
                    (Ok((after, _)), Ok((after_t, _))) => {
                        lemma_expect_plain(after, after_t, ")"@);
                    },
                    (Err(ParseError::Mismatch), _) => {
                        lemma_expect_plain(inner, inner_t, ")"@);
                    },
                    _ => {},
                }
            },
            _ => {},
        }
    }
}

proof fn lemma_parenthetical_expression(s: Seq<char>, t: Seq<char>)
    requires
        respaced(s, t),
    ensures
        alike(parenthetical_expression(s), parenthetical_expression(t)),
        consumes(parenthetical_expression(s), s),
    decreases s.len(), 0nat,
{
    reveal(parenthetical_expression);
    reveal(l1);
    reveal_strlit("(");
    reveal_strlit(")");
    lemma_strip_respaced(s, t, space());
    lemma_strip_len(t, space());
    lemma_respaced_len(s, t);
    lemma_expect_plain(spaces(s), spaces(t), "("@);
    match (expect(spaces(s), "("@), expect(spaces(t), "("@)) {
        (Some(opened), Some(opened_t)) => {
            lemma_strip_respaced(opened, opened_t, space());
            lemma_strip_len(opened_t, space());
            let inner = spaces(opened);
            let inner_t = spaces(opened_t);
            lemma_respaced_len(inner, inner_t);
            lemma_l1(inner, inner_t);
            match (l1(inner), l1(inner_t)) {
                (Ok((after, _)), Ok((after_t, _))) => {
                    lemma_strip_respaced(after, after_t, space());
                    lemma_expect_plain(spaces(after), spaces(after_t), ")"@);
                    match (expect(spaces(after), ")"@), expect(spaces(after_t), ")"@)) {
                        (Some(closed), Some(closed_t)) => {
                            lemma_strip_respaced(closed, closed_t, space());
                        },
                        _ => {},
                    }
                },
                _ => {},
            }
        },
        _ => {},
    }
}

proof fn lemma_l4(s: Seq<char>, t: Seq<char>)
    requires
        respaced(s, t),
    ensures
        alike(l4(s), l4(t)),
        consumes(l4(s), s),
    decreases s.len(), 1nat,
{
    reveal(l4);
    reveal(function_call);
    reveal(parenthetical_expression);
    lemma_function_call(s, t);
    lemma_number(s, t);
    lemma_identifier(s, t);
    lemma_parenthetical_expression(s, t);
}

proof fn lemma_l3_infix(s: Seq<char>, t: Seq<char>)
    requires
        respaced(s, t),
    ensures
        alike(l3_infix(s), l3_infix(t)),
        consumes(l3_infix(s), s),
    decreases s.len(), 0nat,
{
    reveal(l3_infix);
    reveal(l4);
    reveal_strlit("^");
    lemma_strip_respaced(s, t, space());
    lemma_strip_len(t, space());
    let start = spaces(s);
    let start_t = spaces(t);
    lemma_expect_first(start, start_t, "^"@);
    let found = expect(start, "^"@);
    let found_t = expect(start_t, "^"@);
    match (found, found_t) {
        (Some(after), Some(after_t)) => {
            lemma_strip_respaced(after, after_t, space());
            lemma_strip_len(after_t, space());
            lemma_respaced_len(s, t);
            lemma_respaced_len(spaces(after), spaces(after_t));
            lemma_l4(spaces(after), spaces(after_t));
        },
        _ => {},
    }
}

proof fn lemma_l3_tail(s: Seq<char>, t: Seq<char>, head: Tree)
    requires
        respaced(s, t),
    ensures
        alike(l3_tail(s, head), l3_tail(t, head)),
        l3_tail(s, head) matches Ok((rest, _)) ==> rest.len() <= s.len(),
    decreases s.len(), 1nat,
{
    reveal(l3_tail);
    reveal(l3_infix);
    lemma_l3_infix(s, t);
    lemma_respaced_len(s, t);
    match (l3_infix(s), l3_infix(t)) {
        (Ok((rest, tail)), Ok((rest_t, _))) => {
            lemma_respaced_len(rest, rest_t);
            lemma_l3_tail(rest, rest_t, join(head, tail));
        },
        _ => {},
    }
}

proof fn lemma_l3(s: Seq<char>, t: Seq<char>)
    requires
        respaced(s, t),
    ensures
        alike(l3(s), l3(t)),
        consumes(l3(s), s),
    decreases s.len(), 2nat,
{
    reveal(l3);
    reveal(l4);
    reveal(l3_tail);
    lemma_l4(s, t);
    lemma_respaced_len(s, t);
    match (l4(s), l4(t)) {
        (Ok((rest, head)), Ok((rest_t, _))) => {
            lemma_respaced_len(rest, rest_t);
            lemma_l3_tail(rest, rest_t, head);
        },
        _ => {},
    }
}

proof fn lemma_l2_infix(s: Seq<char>, t: Seq<char>)
    requires
        respaced(s, t),
    ensures
        alike(l2_infix(s), l2_infix(t)),
        consumes(l2_infix(s), s),
    decreases s.len(), 0nat,
{
    reveal(l2_infix);
    reveal(l3);
    reveal_strlit("*");
    reveal_strlit("/");
    lemma_strip_respaced(s, t, space());
    lemma_strip_len(t, space());
    let start = spaces(s);
    let start_t = spaces(t);
    lemma_expect_first(start, start_t, "*"@);
    lemma_expect_first(start, start_t, "/"@);
    let found = match expect(start, "*"@) {
        Some(after) => Some(after),
        None => expect(start, "/"@),
    };
    let found_t = match expect(start_t, "*"@) {
        Some(after) => Some(after),
        None => expect(start_t, "/"@),
    };
    match (found, found_t) {
        (Some(after), Some(after_t)) => {
            lemma_strip_respaced(after, after_t, space());
            lemma_strip_len(after_t, space());
            lemma_respaced_len(s, t);
            lemma_respaced_len(spaces(after), spaces(after_t));
            lemma_l3(spaces(after), spaces(after_t));
        },
        _ => {},
    }
}

proof fn lemma_l2_tail(s: Seq<char>, t: Seq<char>, head: Tree)
    requires
        respaced(s, t),
    ensures
        alike(l2_tail(s, head), l2_tail(t, head)),
        l2_tail(s, head) matches Ok((rest, _)) ==> rest.len() <= s.len(),
    decreases s.len(), 1nat,
{
    reveal(l2_tail);
    reveal(l2_infix);
    lemma_l2_infix(s, t);
    lemma_respaced_len(s, t);
    match (l2_infix(s), l2_infix(t)) {
        (Ok((rest, tail)), Ok((rest_t, _))) => {
            lemma_respaced_len(rest, rest_t);
            lemma_l2_tail(rest, rest_t, join(head, tail));
        },
        _ => {},
    }
}

proof fn lemma_l2(s: Seq<char>, t: Seq<char>)
    requires
        respaced(s, t),
    ensures
        alike(l2(s), l2(t)),
        consumes(l2(s), s),
    decreases s.len(), 3nat,
{
    reveal(l2);
    reveal(l3);
    reveal(l2_tail);
    lemma_l3(s, t);
    lemma_respaced_len(s, t);
    match (l3(s), l3(t)) {
        (Ok((rest, head)), Ok((rest_t, _))) => {
            lemma_respaced_len(rest, rest_t);
            lemma_l2_tail(rest, rest_t, head);
        },
        _ => {},
    }
}

proof fn lemma_l1_infix(s: Seq<char>, t: Seq<char>)
    requires
        respaced(s, t),
    ensures
        alike(l1_infix(s), l1_infix(t)),
        consumes(l1_infix(s), s),
    decreases s.len(), 0nat,
{
    reveal(l1_infix);
    reveal(l2);
    reveal_strlit("+");
    reveal_strlit("-");
    lemma_strip_respaced(s, t, space());
    lemma_strip_len(t, space());
    let start = spaces(s);
    let start_t = spaces(t);
    lemma_expect_first(start, start_t, "+"@);
    lemma_expect_first(start, start_t, "-"@);
    let found = match expect(start, "+"@) {
        Some(after) => Some(after),
        None => expect(start, "-"@),
    };
    let found_t = match expect(start_t, "+"@) {
        Some(after) => Some(after),
        None => expect(start_t, "-"@),
    };
    match (found, found_t) {
        (Some(after), Some(after_t)) => {
            lemma_strip_respaced(after, after_t, space());
            lemma_strip_len(after_t, space());
            lemma_respaced_len(s, t);
            lemma_respaced_len(spaces(after), spaces(after_t));
            lemma_l2(spaces(after), spaces(after_t));
        },
        _ => {},
    }
}

proof fn lemma_l1_tail(s: Seq<char>, t: Seq<char>, head: Tree)
    requires
        respaced(s, t),
    ensures
        alike(l1_tail(s, head), l1_tail(t, head)),
        l1_tail(s, head) matches Ok((rest, _)) ==> rest.len() <= s.len(),
    decreases s.len(), 1nat,
{
    reveal(l1_tail);
    reveal(l1_infix);
    lemma_l1_infix(s, t);
    lemma_respaced_len(s, t);
    match (l1_infix(s), l1_infix(t)) {
        (Ok((rest, tail)), Ok((rest_t, _))) => {
            lemma_respaced_len(rest, rest_t);
            lemma_l1_tail(rest, rest_t, join(head, tail));
        },
        _ => {},
    }
}

proof fn lemma_l1(s: Seq<char>, t: Seq<char>)
    requires
        respaced(s, t),
    ensures
        alike(l1(s), l1(t)),
        consumes(l1(s), s),
    decreases s.len(), 4nat,
{
    reveal(l1);
    reveal(l2);
    reveal(l1_tail);
    lemma_l2(s, t);
    lemma_respaced_len(s, t);
    match (l2(s), l2(t)) {
        (Ok((rest, head)), Ok((rest_t, _))) => {
            lemma_respaced_len(rest, rest_t);
            lemma_l1_tail(rest, rest_t, head);
        },
        _ => {},
    }
}

proof fn lemma_math_expression(s: Seq<char>, t: Seq<char>)
    requires
        respaced(s, t),
    ensures
        alike(math_expression(s), math_expression(t)),
        consumes(math_expression(s), s),
    decreases s.len(), 5nat,
{
    reveal(math_expression);
    reveal(l1);
    lemma_l1(s, t);
}

proof fn lemma_expression(s: Seq<char>, t: Seq<char>)
    requires
        respaced(s, t),
    ensures
        alike(expression(s), expression(t)),
        consumes(expression(s), s),
    decreases s.len(), 6nat,
{
    reveal(expression);
    reveal(function_call);
    reveal(math_expression);
    lemma_boolean(s, t);
    lemma_math_expression(s, t);
    lemma_function_call(s, t);
    lemma_string(s, t);
}

proof fn lemma_other_arg(s: Seq<char>, t: Seq<char>)
    requires
        respaced(s, t),
    ensures
        alike(other_arg(s), other_arg(t)),
        consumes(other_arg(s), s),
    decreases s.len(), 0nat,
{
    reveal(other_arg);
    reveal(expression);
    reveal_strlit(",");
    lemma_respaced_len(s, t);
    lemma_expect_plain(s, t, ","@);
    match (expect(s, ","@), expect(t, ","@)) {
        (Some(after), Some(after_t)) => {
            lemma_expression(after, after_t);
        },
        _ => {},
    }
}

proof fn lemma_other_args(s: Seq<char>, t: Seq<char>, list: Seq<Tree>)
    requires
        respaced(s, t),
    ensures
        alike_many(other_args(s, list), other_args(t, list)),
        other_args(s, list) matches Ok((rest, _)) ==> rest.len() <= s.len(),
    decreases s.len(), 1nat,
{
    reveal(other_args);
    reveal(other_arg);
    lemma_other_arg(s, t);
    lemma_respaced_len(s, t);
    match (other_arg(s), other_arg(t)) {
        (Ok((rest, tree)), Ok((rest_t, _))) => {
            lemma_respaced_len(rest, rest_t);
            lemma_other_args(rest, rest_t, list.push(tree));
        },
        _ => {},
    }
}

proof fn lemma_arguments(s: Seq<char>, t: Seq<char>)
    requires
        respaced(s, t),
    ensures
        alike(arguments(s), arguments(t)),
        consumes(arguments(s), s),
    decreases s.len(), 7nat,
{
    reveal(arguments);
    reveal(expression);
    reveal(other_args);
    lemma_expression(s, t);
    lemma_respaced_len(s, t);
    match (expression(s), expression(t)) {
        (Ok((rest, first)), Ok((rest_t, _))) => {
            lemma_respaced_len(rest, rest_t);
            lemma_other_args(rest, rest_t, seq![first]);
        },
        _ => {},
    }
}

/// A literal without operators is found before respacing wherever it is
/// found after, and then what follows it is respaced; where it is found only
/// after respacing, an operator follows it.
proof fn lemma_expect_keyword(s: Seq<char>, t: Seq<char>, literal: Seq<char>)
    requires
        respaced(s, t),
        literal.len() > 0,
        forall|i: int| 0 <= i < literal.len() ==> !is_operator(#[trigger] literal[i]),
    ensures
        match (expect(s, literal), expect(t, literal)) {
            (Some(a), Some(b)) => respaced(a, b) && a.len() < s.len(),
            (None, None) => true,
            (None, Some(b)) => b.len() > 0 && is_operator(b[0]) && b.len() < t.len(),
            (Some(_), None) => false,
        },
{
    let n = literal.len() as int;
    if s != t {
        let p = choose|p: int| 0 <= p && #[trigger] beside_operator(s, p) && t == spaced(s, p);
        lemma_spaced(s, p);
        if literal.is_prefix_of(s) {
            assert(p >= n) by {
                if p < s.len() && is_operator(s[p]) {
                    if p < n {
                        assert(s[p] == literal[p]);
                    }
                } else {
                    if p - 1 < n {
                        assert(s[p - 1] == literal[p - 1]);
                    }
                }
            }
            assert(literal =~= t.subrange(0, n));
            let rest = s.skip(n);
            assert(t.skip(n) =~= spaced(rest, p - n));
            assert(beside_operator(rest, p - n)) by {
                if p < s.len() && is_operator(s[p]) {
                    assert(rest[p - n] == s[p]);
                } else {
                    assert(p - 1 >= n) by {
                        if p - 1 < n {
                            assert(s[p - 1] == literal[p - 1]);
                        }
                    }
                    assert(rest[p - n - 1] == s[p - 1]);
                }
            }
        } else if literal.is_prefix_of(t) {
            if p >= n {
                assert(literal =~= s.subrange(0, n)) by {
                    assert forall|i: int| 0 <= i < n implies literal[i] == s.subrange(0, n)[i] by {
                        assert(t.subrange(0, n)[i] == t[i]);
                        assert(t[i] == s[i]);
                    }
                }
            } else {
                assert(t.subrange(0, n)[p] == t[p]);
                if p > 0 {
                    assert(t.subrange(0, n)[p - 1] == t[p - 1]);
                    assert(t[p - 1] == s[p - 1]);
                    assert(!is_operator(literal[p - 1]));
                }
                assert(p < s.len() && is_operator(s[p]));
                if p + 1 < n {
                    assert(t.subrange(0, n)[p + 1] == t[p + 1]);
                    assert(t[p + 1] == s[p]);
                    assert(!is_operator(literal[p + 1]));
                }
                assert(p == n - 1);
                assert(t.skip(n)[0] == t[n]);
                assert(t[n] == s[p]);
            }
        }
    }
}

/// A text that starts with an operator is no operand.
proof fn lemma_operator_start(s: Seq<char>)
    requires
        s.len() > 0,
        is_operator(s[0]),
    ensures
        identifier(s) == Err::<(Seq<char>, Tree), ParseError>(ParseError::Mismatch),
        function_call(s) == Err::<(Seq<char>, Tree), ParseError>(ParseError::Mismatch),
        expression(s) == Err::<(Seq<char>, Tree), ParseError>(ParseError::Mismatch),
        conditional_val(s) == Err::<(Seq<char>, Tree), ParseError>(ParseError::Mismatch),
        conditional_exp(spaces(s)) == Err::<(Seq<char>, Tree), ParseError>(ParseError::Mismatch),
        expect(s, "{"@) is None,
{
    reveal(function_call);
    reveal(parenthetical_expression);
    reveal(l4);
    reveal(l3);
    reveal(l2);
    reveal(l1);
    reveal(math_expression);
    reveal(expression);
    reveal(conditional_val);
    reveal(conditional_exp);
    reveal(arguments);
    reveal(l3_tail);
    reveal(l2_tail);
    reveal(l1_tail);
    reveal(comparison_pair);
    reveal(comparison_pairs);
    reveal_strlit("true");
    reveal_strlit("false");
    reveal_strlit("\"");
    reveal_strlit("(");
    reveal_strlit("{");
    assert(leading(s, alnums()) == 0);
    assert(leading(s, digits()) == 0);
    assert(leading(s, space()) == 0);
    assert(spaces(s) =~= s);
    assert(expect(s, "true"@) is None) by {
        if "true"@.is_prefix_of(s) {
            assert(s.subrange(0, 4)[0] == s[0]);
        }
    }
    assert(expect(s, "false"@) is None) by {
        if "false"@.is_prefix_of(s) {
            assert(s.subrange(0, 5)[0] == s[0]);
        }
    }
    assert(expect(s, "\""@) is None) by {
        if "\""@.is_prefix_of(s) {
            assert(s.subrange(0, 1)[0] == s[0]);
        }
    }
    assert(expect(s, "("@) is None) by {
        if "("@.is_prefix_of(s) {
            assert(s.subrange(0, 1)[0] == s[0]);
        }
    }
    assert(expect(s, "{"@) is None) by {
        if "{"@.is_prefix_of(s) {
            assert(s.subrange(0, 1)[0] == s[0]);
        }
    }
    assert(function_call(s) == Err::<(Seq<char>, Tree), ParseError>(ParseError::Mismatch));
    assert(number(s) == Err::<(Seq<char>, Tree), ParseError>(ParseError::Mismatch));
    assert(identifier(s) == Err::<(Seq<char>, Tree), ParseError>(ParseError::Mismatch));
    assert(parenthetical_expression(s) == Err::<(Seq<char>, Tree), ParseError>(
        ParseError::Mismatch,
    ));
    assert(l4(s) == Err::<(Seq<char>, Tree), ParseError>(ParseError::Mismatch));
    assert(l3(s) == Err::<(Seq<char>, Tree), ParseError>(ParseError::Mismatch));
    assert(l2(s) == Err::<(Seq<char>, Tree), ParseError>(ParseError::Mismatch));
    assert(l1(s) == Err::<(Seq<char>, Tree), ParseError>(ParseError::Mismatch));
    assert(math_expression(s) == Err::<(Seq<char>, Tree), ParseError>(ParseError::Mismatch));
    assert(boolean(s) == Err::<(Seq<char>, Tree), ParseError>(ParseError::Mismatch));
    assert(string(s) == Err::<(Seq<char>, Tree), ParseError>(ParseError::Mismatch));
    assert(conditional_val(s) == Err::<(Seq<char>, Tree), ParseError>(ParseError::Mismatch));
}

proof fn lemma_conditional_operator(s: Seq<char>, t: Seq<char>)
    requires
        respaced(s, t),
    ensures
        alike(conditional_operator(s), conditional_operator(t)),
        consumes(conditional_operator(s), s),
{
    reveal_strlit("<=");
    reveal_strlit(">=");
    reveal_strlit("==");
    reveal_strlit("!=");
    reveal_strlit("<");
    reveal_strlit(">");
    lemma_expect_plain(s, t, "<="@);
    lemma_expect_plain(s, t, ">="@);
    lemma_expect_plain(s, t, "=="@);
    lemma_expect_plain(s, t, "!="@);
    lemma_expect_plain(s, t, "<"@);
    lemma_expect_plain(s, t, ">"@);
}

proof fn lemma_conditional_val(s: Seq<char>, t: Seq<char>)
    requires
        respaced(s, t),
    ensures
        alike(conditional_val(s), conditional_val(t)),
        consumes(conditional_val(s), s),
    decreases s.len(), 6nat,
{
    reveal(conditional_val);
    reveal(math_expression);
    lemma_boolean(s, t);
    lemma_math_expression(s, t);
    lemma_number(s, t);
    lemma_identifier(s, t);
}

proof fn lemma_comparison_pair(s: Seq<char>, t: Seq<char>)
    requires
        respaced(s, t),
    ensures
        alike_many(comparison_pair(s), comparison_pair(t)),
        comparison_pair(s) matches Ok((rest, _)) ==> rest.len() < s.len(),
    decreases s.len(), 7nat,
{
    reveal(comparison_pair);
    reveal(conditional_val);
    lemma_respaced_len(s, t);
    lemma_strip_respaced(s, t, space());
    lemma_strip_len(t, space());
    lemma_conditional_operator(spaces(s), spaces(t));
    lemma_conditional_operator(spaces(t), spaces(t));
    match (conditional_operator(spaces(s)), conditional_operator(spaces(t))) {
        (Ok((after, _)), Ok((after_t, _))) => {
            lemma_strip_respaced(after, after_t, space());
            lemma_strip_len(after_t, space());
            lemma_respaced_len(spaces(after), spaces(after_t));
            lemma_conditional_val(spaces(after), spaces(after_t));
        },
        _ => {},
    }
}

proof fn lemma_comparison_pairs(s: Seq<char>, t: Seq<char>, list: Seq<Tree>)
    requires
        respaced(s, t),
    ensures
        alike_many(comparison_pairs(s, list), comparison_pairs(t, list)),
        comparison_pairs(s, list) matches Ok((rest, _)) ==> rest.len() <= s.len(),
    decreases s.len(), 8nat,
{
    reveal(comparison_pairs);
    reveal(comparison_pair);
    lemma_comparison_pair(s, t);
    lemma_respaced_len(s, t);
    match (comparison_pair(s), comparison_pair(t)) {
        (Ok((rest, pair)), Ok((rest_t, _))) => {
            lemma_respaced_len(rest, rest_t);
            lemma_comparison_pairs(rest, rest_t, list + pair);
        },
        _ => {},
    }
}

proof fn lemma_conditional_exp(s: Seq<char>, t: Seq<char>)
    requires
        respaced(s, t),
    ensures
        alike(conditional_exp(s), conditional_exp(t)),
        consumes(conditional_exp(s), s),
    decreases s.len(), 9nat,
{
    reveal(conditional_exp);
    reveal(conditional_val);
    reveal(comparison_pair);
    reveal(comparison_pairs);
    lemma_conditional_val(s, t);
    lemma_respaced_len(s, t);
    match (conditional_val(s), conditional_val(t)) {
        (Ok((after, left)), Ok((after_t, _))) => {
            lemma_respaced_len(after, after_t);
            lemma_comparison_pair(after, after_t);
            match (comparison_pair(after), comparison_pair(after_t)) {
                (Ok((rest, pair)), Ok((rest_t, _))) => {
                    lemma_respaced_len(rest, rest_t);
                    lemma_comparison_pairs(rest, rest_t, seq![left] + pair);
                },
                _ => {},
            }
        },
        _ => {},
    }
}

proof fn lemma_variable_define(s: Seq<char>, t: Seq<char>)
    requires
        respaced(s, t),
    ensures
        alike(variable_define(s), variable_define(t)),
        consumes(variable_define(s), s),
    decreases s.len(), 0nat,
{
    reveal(variable_define);
    reveal(expression);
    reveal_strlit("let ");
    reveal_strlit("=");
    lemma_respaced_len(s, t);
    lemma_expect_keyword(s, t, "let "@);
    match (expect(s, "let "@), expect(t, "let "@)) {
        (Some(after), Some(after_t)) => {
            lemma_identifier(after, after_t);
            lemma_identifier(after_t, after_t);
            match (identifier(after), identifier(after_t)) {
                (Ok((after_name, _)), Ok((after_name_t, _))) => {
                    lemma_strip_respaced(after_name, after_name_t, space());
                    lemma_strip_len(after_name_t, space());
                    lemma_expect_plain(spaces(after_name), spaces(after_name_t), "="@);
                    match (
                        expect(spaces(after_name), "="@),
                        expect(spaces(after_name_t), "="@),
                    ) {
                        (Some(after_sign), Some(after_sign_t)) => {
                            lemma_strip_respaced(after_sign, after_sign_t, space());
                            lemma_strip_len(after_sign_t, space());
                            lemma_respaced_len(spaces(after_sign), spaces(after_sign_t));
                            lemma_expression(spaces(after_sign), spaces(after_sign_t));
                        },
                        _ => {},
                    }
                },
                _ => {},
            }
        },
        (None, Some(after_t)) => {
            lemma_operator_start(after_t);
        },
        _ => {},
    }
}

proof fn lemma_function_return(s: Seq<char>, t: Seq<char>)
    requires
        respaced(s, t),
    ensures
        alike(function_return(s), function_return(t)),
        consumes(function_return(s), s),
    decreases s.len(), 0nat,
{
    reveal(function_return);
    reveal(function_call);
    reveal(expression);
    reveal_strlit("return ");
    lemma_respaced_len(s, t);
    lemma_expect_keyword(s, t, "return "@);
    match (expect(s, "return "@), expect(t, "return "@)) {
        (Some(after), Some(after_t)) => {
            lemma_respaced_len(after, after_t);
            lemma_function_call(after, after_t);
            lemma_expression(after, after_t);
            lemma_identifier(after, after_t);
        },
        (None, Some(after_t)) => {
            lemma_operator_start(after_t);
        },
        _ => {},
    }
}

proof fn lemma_terminator(s: Seq<char>, t: Seq<char>)
    requires
        respaced(s, t),
    ensures
        match (terminator(s), terminator(t)) {
            (Some(a), Some(b)) => respaced(a, b) && a.len() < s.len(),
            (None, None) => true,
            _ => false,
        },
{
    reveal_strlit(";");
    lemma_expect_plain(s, t, ";"@);
    match (expect(s, ";"@), expect(t, ";"@)) {
        (Some(a), Some(b)) => {
            lemma_strip_respaced(a, b, space());
            lemma_run_respaced(spaces(a), spaces(b), newline());
        },
        _ => {},
    }
}

proof fn lemma_statement(s: Seq<char>, t: Seq<char>)
    requires
        respaced(s, t),
    ensures
        alike(statement(s), statement(t)),
        consumes(statement(s), s),
    decreases s.len(), 1nat,
{
    reveal(statement);
    reveal(variable_define);
    lemma_respaced_len(s, t);
    lemma_strip_respaced(s, t, blank());
    lemma_strip_len(t, blank());
    lemma_variable_define(blanks(s), blanks(t));
    match (variable_define(blanks(s)), variable_define(blanks(t))) {
        (Ok((after, _)), Ok((after_t, _))) => {
            lemma_terminator(after, after_t);
        },
        _ => {},
    }
}

proof fn lemma_return_statement(s: Seq<char>, t: Seq<char>)
    requires
        respaced(s, t),
    ensures
        alike(return_statement(s), return_statement(t)),
        consumes(return_statement(s), s),
    decreases s.len(), 1nat,
{
    reveal(return_statement);
    reveal(function_return);
    lemma_respaced_len(s, t);
    lemma_strip_respaced(s, t, blank());
    lemma_strip_len(t, blank());
    lemma_function_return(blanks(s), blanks(t));
    match (function_return(blanks(s)), function_return(blanks(t))) {
        (Ok((after, _)), Ok((after_t, _))) => {
            lemma_terminator(after, after_t);
        },
        _ => {},
    }
}

proof fn lemma_body_item(s: Seq<char>, t: Seq<char>)
    requires
        respaced(s, t),
    ensures
        alike(body_item(s), body_item(t)),
        consumes(body_item(s), s),
    decreases s.len(), 2nat,
{
    reveal(body_item);
    reveal(statement);
    reveal(return_statement);
    lemma_statement(s, t);
    lemma_return_statement(s, t);
}

proof fn lemma_body_items(s: Seq<char>, t: Seq<char>, list: Seq<Tree>)
    requires
        respaced(s, t),
    ensures
        alike_many(body_items(s, list), body_items(t, list)),
        body_items(s, list) matches Ok((rest, _)) ==> rest.len() <= s.len(),
    decreases s.len(), 3nat,
{
    reveal(body_items);
    reveal(body_item);
    lemma_body_item(s, t);
    lemma_respaced_len(s, t);
    match (body_item(s), body_item(t)) {
        (Ok((rest, tree)), Ok((rest_t, _))) => {
            lemma_respaced_len(rest, rest_t);
            lemma_body_items(rest, rest_t, list.push(tree));
        },
        _ => {},
    }
}

proof fn lemma_statements(s: Seq<char>, t: Seq<char>, list: Seq<Tree>)
    requires
        respaced(s, t),
    ensures
        alike_many(statements(s, list), statements(t, list)),
        statements(s, list) matches Ok((rest, _)) ==> rest.len() <= s.len(),
    decreases s.len(), 3nat,
{
    reveal(statements);
    reveal(statement);
    lemma_statement(s, t);
    lemma_respaced_len(s, t);
    match (statement(s), statement(t)) {
        (Ok((rest, tree)), Ok((rest_t, _))) => {
            lemma_respaced_len(rest, rest_t);
            lemma_statements(rest, rest_t, list.push(tree));
        },
        _ => {},
    }
}

proof fn lemma_more_returns(s: Seq<char>, t: Seq<char>, list: Seq<Tree>)
    requires
        respaced(s, t),
    ensures
        alike_many(more_returns(s, list), more_returns(t, list)),
        more_returns(s, list) matches Ok((rest, _)) ==> rest.len() <= s.len(),
    decreases s.len(), 3nat,
{
    reveal(more_returns);
    reveal(function_return);
    lemma_function_return(s, t);
    lemma_respaced_len(s, t);
    match (function_return(s), function_return(t)) {
        (Ok((rest, tree)), Ok((rest_t, _))) => {
            lemma_respaced_len(rest, rest_t);
            lemma_more_returns(rest, rest_t, list.push(tree));
        },
        _ => {},
    }
}

proof fn lemma_block(s: Seq<char>, t: Seq<char>, list: Seq<Tree>)
    requires
        respaced(s, t),
    ensures
        alike_many(block(s, list), block(t, list)),
        block(s, list) matches Ok((rest, _)) ==> rest.len() < s.len(),
    decreases s.len(), 5nat,
{
    reveal(block);
    reveal(function_return);
    reveal(statements);
    reveal(more_returns);
    reveal_strlit(";");
    reveal_strlit("}");
    lemma_respaced_len(s, t);
    lemma_strip_respaced(s, t, white());
    lemma_strip_len(t, white());
    let start = whitespace(s);
    let start_t = whitespace(t);
    lemma_respaced_len(start, start_t);
    lemma_statements(start, start_t, list);
    match (statements(start, list), statements(start_t, list)) {
        (Ok((after, items)), Ok((after_t, _))) => {
            lemma_respaced_len(after, after_t);
            lemma_strip_respaced(after, after_t, white());
            lemma_strip_len(after_t, white());
            let value = whitespace(after);
            let value_t = whitespace(after_t);
            lemma_respaced_len(value, value_t);
            lemma_function_return(value, value_t);
            match (function_return(value), function_return(value_t)) {
                (Ok((more, first)), Ok((more_t, _))) => {
                    lemma_respaced_len(more, more_t);
                    lemma_more_returns(more, more_t, items.push(first));
                    match (
                        more_returns(more, items.push(first)),
                        more_returns(more_t, items.push(first)),
                    ) {
                        (Ok((end, _)), Ok((end_t, _))) => {
                            lemma_expect_plain(end, end_t, ";"@);
                            match (expect(end, ";"@), expect(end_t, ";"@)) {
                                (Some(last), Some(last_t)) => {
                                    lemma_strip_respaced(last, last_t, white());
                                    lemma_expect_plain(
                                        whitespace(last),
                                        whitespace(last_t),
                                        "}"@,
                                    );
                                    match (
                                        expect(whitespace(last), "}"@),
                                        expect(whitespace(last_t), "}"@),
                                    ) {
                                        (Some(closed), Some(closed_t)) => {
                                            lemma_strip_respaced(closed, closed_t, white());
                                        },
                                        _ => {},
                                    }
                                },
                                _ => {},
                            }
                        },
                        _ => {},
                    }
                },
                _ => {},
            }
        },
        _ => {},
    }
}

proof fn lemma_guarded_block(s: Seq<char>, t: Seq<char>)
    requires
        respaced(s, t),
    ensures
        alike_many(guarded_block(s), guarded_block(t)),
        guarded_block(s) matches Ok((rest, _)) ==> rest.len() < s.len(),
    decreases s.len(), 10nat,
{
    reveal(guarded_block);
    reveal(conditional_exp);
    reveal(block);
    reveal_strlit("{");
    lemma_respaced_len(s, t);
    lemma_strip_respaced(s, t, space());
    lemma_strip_len(t, space());
    let start = spaces(s);
    let start_t = spaces(t);
    lemma_respaced_len(start, start_t);
    lemma_conditional_exp(start, start_t);
    match (conditional_exp(start), conditional_exp(start_t)) {
        (Ok((after, condition)), Ok((after_t, _))) => {
            lemma_respaced_len(after, after_t);
            lemma_strip_respaced(after, after_t, space());
            lemma_strip_len(after_t, space());
            lemma_expect_plain(spaces(after), spaces(after_t), "{"@);
            match (expect(spaces(after), "{"@), expect(spaces(after_t), "{"@)) {
                (Some(opened), Some(opened_t)) => {
                    lemma_respaced_len(opened, opened_t);
                    lemma_block(opened, opened_t, seq![condition]);
                },
                _ => {},
            }
        },
        _ => {},
    }
}

proof fn lemma_if_statement(s: Seq<char>, t: Seq<char>)
    requires
        respaced(s, t),
    ensures
        alike(if_statement(s), if_statement(t)),
        consumes(if_statement(s), s),
    decreases s.len(), 0nat,
{
    reveal(if_statement);
    reveal(guarded_block);
    reveal_strlit("if ");
    lemma_respaced_len(s, t);
    lemma_expect_keyword(s, t, "if "@);
    match (expect(s, "if "@), expect(t, "if "@)) {
        (Some(after), Some(after_t)) => {
            lemma_respaced_len(after, after_t);
            lemma_guarded_block(after, after_t);
        },
        (None, Some(after_t)) => {
            lemma_operator_start(after_t);
        },
        _ => {},
    }
}

proof fn lemma_else_if(s: Seq<char>, t: Seq<char>)
    requires
        respaced(s, t),
    ensures
        alike(else_if(s), else_if(t)),
        consumes(else_if(s), s),
    decreases s.len(), 0nat,
{
    reveal(else_if);
    reveal(guarded_block);
    reveal_strlit("else if ");
    lemma_respaced_len(s, t);
    lemma_expect_keyword(s, t, "else if "@);
    match (expect(s, "else if "@), expect(t, "else if "@)) {
        (Some(after), Some(after_t)) => {
            lemma_respaced_len(after, after_t);
            lemma_guarded_block(after, after_t);
        },
        (None, Some(after_t)) => {
            lemma_operator_start(after_t);
        },
        _ => {},
    }
}

proof fn lemma_else_statement(s: Seq<char>, t: Seq<char>)
    requires
        respaced(s, t),
    ensures
        alike(else_statement(s), else_statement(t)),
        consumes(else_statement(s), s),
    decreases s.len(), 0nat,
{
    reveal(else_statement);
    reveal(block);
    reveal_strlit("else ");
    reveal_strlit("{");
    lemma_respaced_len(s, t);
    lemma_expect_keyword(s, t, "else "@);
    match (expect(s, "else "@), expect(t, "else "@)) {
        (Some(after), Some(after_t)) => {
            lemma_expect_plain(after, after_t, "{"@);
            match (expect(after, "{"@), expect(after_t, "{"@)) {
                (Some(opened), Some(opened_t)) => {
                    lemma_respaced_len(opened, opened_t);
                    lemma_block(opened, opened_t, seq![]);
                },
                _ => {},
            }
        },
        (None, Some(after_t)) => {
            lemma_operator_start(after_t);
        },
        _ => {},
    }
}

proof fn lemma_else_ifs(s: Seq<char>, t: Seq<char>, list: Seq<Tree>)
    requires
        respaced(s, t),
    ensures
        alike_many(else_ifs(s, list), else_ifs(t, list)),
        else_ifs(s, list) matches Ok((rest, _)) ==> rest.len() <= s.len(),
    decreases s.len(), 1nat,
{
    reveal(else_ifs);
    reveal(else_if);
    lemma_else_if(s, t);
    lemma_respaced_len(s, t);
    match (else_if(s), else_if(t)) {
        (Ok((rest, tree)), Ok((rest_t, _))) => {
            lemma_respaced_len(rest, rest_t);
            lemma_else_ifs(rest, rest_t, list.push(tree));
        },
        _ => {},
    }
}

proof fn lemma_elses(s: Seq<char>, t: Seq<char>, list: Seq<Tree>)
    requires
        respaced(s, t),
    ensures
        alike_many(elses(s, list), elses(t, list)),
        elses(s, list) matches Ok((rest, _)) ==> rest.len() <= s.len(),
    decreases s.len(), 1nat,
{
    reveal(elses);
    reveal(else_statement);
    lemma_else_statement(s, t);
    lemma_respaced_len(s, t);
    match (else_statement(s), else_statement(t)) {
        (Ok((rest, tree)), Ok((rest_t, _))) => {
            lemma_respaced_len(rest, rest_t);
            lemma_elses(rest, rest_t, list.push(tree));
        },
        _ => {},
    }
}

proof fn lemma_if_else_statements(s: Seq<char>, t: Seq<char>)
    requires
        respaced(s, t),
    ensures
        alike(if_else_statements(s), if_else_statements(t)),
        consumes(if_else_statements(s), s),
    decreases s.len(), 12nat,
{
    reveal(if_else_statements);
    reveal(if_statement);
    reveal(else_statement);
    reveal(else_ifs);
    reveal(elses);
    lemma_respaced_len(s, t);
    lemma_if_statement(s, t);
    match (if_statement(s), if_statement(t)) {
        (Ok((after, first)), Ok((after_t, _))) => {
            lemma_respaced_len(after, after_t);
            lemma_else_ifs(after, after_t, seq![first]);
            match (else_ifs(after, seq![first]), else_ifs(after_t, seq![first])) {
                (Ok((next, list)), Ok((next_t, _))) => {
                    lemma_respaced_len(next, next_t);
                    lemma_else_statement(next, next_t);
                    match (else_statement(next), else_statement(next_t)) {
                        (Ok((more, last)), Ok((more_t, _))) => {
                            lemma_respaced_len(more, more_t);
                            lemma_elses(more, more_t, list.push(last));
                        },
                        _ => {},
                    }
                },
                _ => {},
            }
        },
        _ => {},
    }
}

proof fn lemma_function_body(s: Seq<char>, t: Seq<char>, list: Seq<Tree>)
    requires
        respaced(s, t),
    ensures
        alike_many(function_body(s, list), function_body(t, list)),
        function_body(s, list) matches Ok((rest, _)) ==> rest.len() < s.len(),
    decreases s.len(), 5nat,
{
    reveal(function_body);
    reveal(body_item);
    reveal(body_items);
    reveal_strlit("{");
    reveal_strlit("}");
    lemma_respaced_len(s, t);
    lemma_strip_respaced(s, t, space());
    lemma_strip_len(t, space());
    lemma_expect_plain(spaces(s), spaces(t), "{"@);
    match (expect(spaces(s), "{"@), expect(spaces(t), "{"@)) {
        (Some(opened), Some(opened_t)) => {
            lemma_run_respaced(opened, opened_t, newline());
            lemma_strip_len(opened_t, newline());
            let start = newlines(opened);
            let start_t = newlines(opened_t);
            lemma_respaced_len(start, start_t);
            lemma_body_item(start, start_t);
            match (body_item(start), body_item(start_t)) {
                (Ok((after, first)), Ok((after_t, _))) => {
                    lemma_respaced_len(after, after_t);
                    lemma_body_items(after, after_t, list.push(first));
                    match (
                        body_items(after, list.push(first)),
                        body_items(after_t, list.push(first)),
                    ) {
                        (Ok((end, _)), Ok((end_t, _))) => {
                            lemma_expect_plain(end, end_t, "}"@);
                            match (expect(end, "}"@), expect(end_t, "}"@)) {
                                (Some(closed), Some(closed_t)) => {
                                    lemma_strip_respaced(closed, closed_t, pad());
                                },
                                _ => {},
                            }
                        },
                        _ => {},
                    }
                },
                _ => {},
            }
        },
        _ => {},
    }
}

proof fn lemma_function_definition(s: Seq<char>, t: Seq<char>)
    requires
        respaced(s, t),
    ensures
        alike(function_definition(s), function_definition(t)),
        consumes(function_definition(s), s),
    decreases s.len(), 0nat,
{
    reveal(function_definition);
    reveal(optional_arguments);
    reveal(function_body);
    reveal_strlit("fn ");
    reveal_strlit("(");
    reveal_strlit(")");
    lemma_respaced_len(s, t);
    lemma_expect_keyword(s, t, "fn "@);
    match (expect(s, "fn "@), expect(t, "fn "@)) {
        (Some(after), Some(after_t)) => {
            lemma_identifier(after, after_t);
            lemma_identifier(after_t, after_t);
            match (identifier(after), identifier(after_t)) {
                (Ok((after_name, name)), Ok((after_name_t, _))) => {
                    lemma_expect_plain(after_name, after_name_t, "("@);
                    match (expect(after_name, "("@), expect(after_name_t, "("@)) {
                        (Some(inner), Some(inner_t)) => {
                            lemma_respaced_len(inner, inner_t);
                            lemma_arguments(inner, inner_t);
                            match (
                                optional_arguments(inner, seq![name]),
                                optional_arguments(inner_t, seq![name]),
                            ) {
                                (Ok((next, list)), Ok((next_t, _))) => {
                                    lemma_expect_plain(next, next_t, ")"@);
                                    match (expect(next, ")"@), expect(next_t, ")"@)) {
                                        (Some(closed), Some(closed_t)) => {
                                            lemma_respaced_len(closed, closed_t);
                                            lemma_function_body(closed, closed_t, list);
                                        },
                                        _ => {},
                                    }
                                },
                                _ => {},
                            }
                        },
                        _ => {},
                    }
                },
                _ => {},
            }
        },
        (None, Some(after_t)) => {
            lemma_operator_start(after_t);
        },
        _ => {},
    }
}

proof fn lemma_program_item(s: Seq<char>, t: Seq<char>)
    requires
        respaced(s, t),
    ensures
        alike(program_item(s), program_item(t)),
        consumes(program_item(s), s),
    decreases s.len(), 18nat,
{
    reveal(program_item);
    reveal(function_call);
    reveal(expression);
    reveal(conditional_exp);
    reveal(variable_define);
    reveal(statement);
    reveal(if_else_statements);
    reveal(function_definition);
    lemma_function_definition(s, t);
    lemma_if_else_statements(s, t);
    lemma_function_call(s, t);
    lemma_statement(s, t);
    lemma_variable_define(s, t);
    lemma_conditional_exp(s, t);
    lemma_expression(s, t);
}

proof fn lemma_program_items(s: Seq<char>, t: Seq<char>, list: Seq<Tree>)
    requires
        respaced(s, t),
    ensures
        alike_many(program_items(s, list), program_items(t, list)),
        program_items(s, list) matches Ok((rest, _)) ==> rest.len() <= s.len(),
    decreases s.len(), 19nat,
{
    reveal(program_items);
    reveal(program_item);
    lemma_program_item(s, t);
    lemma_respaced_len(s, t);
    match (program_item(s), program_item(t)) {
        (Ok((rest, tree)), Ok((rest_t, _))) => {
            lemma_respaced_len(rest, rest_t);
            lemma_program_items(rest, rest_t, list.push(tree));
        },
        _ => {},
    }
}

proof fn lemma_program(s: Seq<char>, t: Seq<char>)
    requires
        respaced(s, t),
    ensures
        alike(program(s), program(t)),
        consumes(program(s), s),
    decreases s.len(), 20nat,
{
    reveal(program);
    reveal(program_item);
    reveal(program_items);
    lemma_program_item(s, t);
    lemma_respaced_len(s, t);
    match (program_item(s), program_item(t)) {
        (Ok((rest, first)), Ok((rest_t, _))) => {
            lemma_respaced_len(rest, rest_t);
            lemma_program_items(rest, rest_t, seq![first]);
        },
        _ => {},
    }
}

/// Whether two parse results hold the same tree or the same error.
pub open spec fn same_tree(a: Parsed, b: Parsed) -> bool {
    match (a, b) {
        (Ok((_, tree)), Ok((_, other))) => tree == other,
        (Err(e), Err(f)) => e == f,
        _ => false,
    }
}

/// Putting a space next to a binary operator changes neither whether a text
/// parses nor the tree that it parses to, be it parsed as an arithmetic
/// expression, as an expression or as a program.  Read from right to left,
/// the same holds of taking such a space away.
pub proof fn law_spaces_around_operators(s: Seq<char>, p: int)
    requires
        beside_operator(s, p),
    ensures
        same_tree(math_expression(s), math_expression(spaced(s, p))),
        same_tree(expression(s), expression(spaced(s, p))),
        same_tree(program(s), program(spaced(s, p))),
{
    lemma_math_expression(s, spaced(s, p));
    lemma_expression(s, spaced(s, p));
    lemma_program(s, spaced(s, p));
}

/// Running a source text gives the same, a value or a failure, with and
/// without a space next to a binary operator.
pub proof fn law_spaces_do_not_change_the_run(source: Seq<char>, p: int)
    requires
        beside_operator(source, p),
    ensures
        run_result(source) == run_result(spaced(source, p)),
{
    lemma_program(source, spaced(source, p));
    match (program(source), program(spaced(source, p))) {
        (Ok((rest, _)), Ok((rest_spaced, _))) => {
            lemma_respaced_len(rest, rest_spaced);
            if rest != rest_spaced {
                let q = choose|q: int|
                    0 <= q && #[trigger] beside_operator(rest, q) && rest_spaced == spaced(
                        rest,
                        q,
                    );
                assert(rest.len() > 0);
            }
        },
        _ => {},
    }
}

/// Every rule that makes a tree of a text leaves less of the text than it
/// was given: the conditions `shorter(..)` in the grammar hold wherever a
/// rule gets to them.
pub proof fn law_rules_consume(s: Seq<char>)
    ensures
        consumes(identifier(s), s),
        consumes(number(s), s),
        consumes(boolean(s), s),
        consumes(string(s), s),
        consumes(conditional_operator(s), s),
        consumes(function_call(s), s),
        consumes(parenthetical_expression(s), s),
        consumes(l4(s), s),
        consumes(l3_infix(s), s),
        consumes(l3(s), s),
        consumes(l2_infix(s), s),
        consumes(l2(s), s),
        consumes(l1_infix(s), s),
        consumes(l1(s), s),
        consumes(math_expression(s), s),
        consumes(expression(s), s),
        consumes(other_arg(s), s),
        consumes(arguments(s), s),
        consumes(conditional_val(s), s),
        consumes(conditional_exp(s), s),
        consumes(variable_define(s), s),
        consumes(function_return(s), s),
        consumes(statement(s), s),
        consumes(if_statement(s), s),
        consumes(else_if(s), s),
        consumes(else_statement(s), s),
        consumes(if_else_statements(s), s),
        consumes(function_definition(s), s),
        consumes(program(s), s),
{
    lemma_identifier(s, s);
    lemma_number(s, s);
    lemma_boolean(s, s);
    lemma_string(s, s);
    lemma_conditional_operator(s, s);
    lemma_function_call(s, s);
    lemma_parenthetical_expression(s, s);
    lemma_l4(s, s);
    lemma_l3_infix(s, s);
    lemma_l3(s, s);
    lemma_l2_infix(s, s);
    lemma_l2(s, s);
    lemma_l1_infix(s, s);
    lemma_l1(s, s);
    lemma_math_expression(s, s);
    lemma_expression(s, s);
    lemma_other_arg(s, s);
    lemma_arguments(s, s);
    lemma_conditional_val(s, s);
    lemma_conditional_exp(s, s);
    lemma_variable_define(s, s);
    lemma_function_return(s, s);
    lemma_statement(s, s);
    lemma_if_statement(s, s);
    lemma_else_if(s, s);
    lemma_else_statement(s, s);
    lemma_if_else_statements(s, s);
    lemma_function_definition(s, s);
    lemma_program(s, s);
}

} // verus!
