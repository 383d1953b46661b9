//! The parser: one function for each rule of the grammar.
//!
//! Each function returns exactly what the rule of the same name in
//! [`crate::grammar`] makes of the input.

use crate::ast::{trees, Node, Tree};
use crate::grammar;
use crate::grammar::{expect, strip, Parsed, ParsedMany};
use crate::text::chars_of;
use crate::tokens::{
    alnum_run, alnums, alphanumeric1, digit1, digits, is_digit, leading, lemma_leading,
    lemma_leading_is, tag, ParseError,
};
use vstd::prelude::*;

verus! {

/// The mathematical form of a parse result.
pub open spec fn parsed(r: Result<(&str, Node), ParseError>) -> Parsed {
    match r {
        Ok((rest, node)) => Ok((rest@, node@)),
        Err(e) => Err(e),
    }
}

/// The mathematical form of the result of a repetition.
pub open spec fn parsed_many(r: Result<(&str, Vec<Node>), ParseError>) -> ParsedMany {
    match r {
        Ok((rest, nodes)) => Ok((rest@, trees(nodes@))),
        Err(e) => Err(e),
    }
}

/// A successful parse leaves less than it was given.
pub open spec fn advances<T>(r: Result<(&str, T), ParseError>, input: Seq<char>) -> bool {
    r matches Ok((rest, _)) ==> rest@.len() < input.len()
}

/// The input without a leading character of the class, where it has one.
proof fn lemma_strip_step(s: Seq<char>, class: spec_fn(char) -> bool)
    ensures
        s.len() > 0 && class(s[0]) ==> strip(s, class) == strip(s.drop_first(), class),
        !(s.len() > 0 && class(s[0])) ==> strip(s, class) == s,
        strip(s, class).len() <= s.len(),
{
    lemma_leading(s, class);
    if s.len() > 0 && class(s[0]) {
        let t = s.drop_first();
        assert(s.skip(1 + leading(t, class) as int) =~= t.skip(leading(t, class) as int));
    } else {
        assert(s.skip(0) =~= s);
    }
}

/// The input after `pattern`, where it starts with it.
fn literal<'a>(input: &'a str, pattern: &str) -> (r: Option<&'a str>)
    ensures
        match r {
            Some(rest) => expect(input@, pattern@) == Some(rest@) && rest@.len() + pattern@.len()
                == input@.len(),
            None => expect(input@, pattern@) is None,
        },
{
    match tag(pattern, input) {
        Ok((rest, _)) => Some(rest),
        Err(_) => None,
    }
}

/// The input without leading spaces.
fn skip_spaces(input: &str) -> (rest: &str)
    ensures
        rest@ == grammar::spaces(input@),
        rest@.len() <= input@.len(),
{
    let mut cur = input;
    loop
        invariant
            grammar::spaces(cur@) == grammar::spaces(input@),
            cur@.len() <= input@.len(),
        decreases cur@.len(),
    {
        proof {
            reveal_strlit(" ");
            lemma_strip_step(cur@, grammar::space());
        }
        match tag(" ", cur) {
            Ok((rest, _)) => {
                assert(rest@ =~= cur@.drop_first());
                cur = rest;
            },
            Err(_) => {
                return cur;
            },
        }
    }
}

/// `identifier ::= alnum+`
pub fn identifier(input: &str) -> (r: Result<(&str, Node), ParseError>)
    ensures
        parsed(r) == grammar::identifier(input@),
        advances(r, input@),
{
    proof {
        lemma_leading(input@, alnums());
    }
    match alphanumeric1(input) {
        Ok((rest, found)) => Ok((rest, Node::Identifier { value: String::from_str(found) })),
        Err(_) => Err(ParseError::Mismatch),
    }
}

/// The digits of a number lie between nothing and the whole.
proof fn lemma_decimal_grows(s: Seq<char>, k: int)
    requires
        0 <= k <= s.len(),
        forall|i: int| 0 <= i < s.len() ==> is_digit(#[trigger] s[i]),
    ensures
        0 <= grammar::decimal(s.take(k)) <= grammar::decimal(s),
    decreases s.len() - k,
{
    if k < s.len() {
        lemma_decimal_grows(s, k + 1);
        assert(s.take(k + 1).drop_last() =~= s.take(k));
        assert(is_digit(s[k]));
        assert(s.take(k + 1).last() == s[k]);
    } else {
        assert(s.take(k) =~= s);
        lemma_decimal_positive(s);
    }
}

/// A sequence of digits denotes no negative number.
proof fn lemma_decimal_positive(s: Seq<char>)
    requires
        forall|i: int| 0 <= i < s.len() ==> is_digit(#[trigger] s[i]),
    ensures
        0 <= grammar::decimal(s),
    decreases s.len(),
{
    if s.len() > 0 {
        lemma_decimal_positive(s.drop_last());
        assert(is_digit(s[s.len() - 1]));
    }
}

/// The number that a run of digits denotes, where it fits 32 bits.
fn to_number(text: &str) -> (r: Option<i32>)
    requires
        forall|i: int| 0 <= i < text@.len() ==> is_digit(#[trigger] text@[i]),
    ensures
        r == if grammar::decimal(text@) <= i32::MAX {
            Some(grammar::decimal(text@) as i32)
        } else {
            None
        },
{
    let figures = chars_of(text);
    let mut value: i32 = 0;
    let mut i: usize = 0;
    assert(figures@.take(0) =~= Seq::<char>::empty());
    while i < figures.len()
        invariant
            i <= figures.len(),
            figures@ == text@,
            forall|j: int| 0 <= j < text@.len() ==> is_digit(#[trigger] text@[j]),
            value == grammar::decimal(figures@.take(i as int)),
        decreases figures.len() - i,
    {
        let c = figures[i];
        assert(is_digit(figures@[i as int]));
        let digit: i32 = (c as u32 - '0' as u32) as i32;
        proof {
            assert(figures@.take(i + 1).drop_last() =~= figures@.take(i as int));
            assert(figures@.take(i + 1).last() == c);
            lemma_decimal_grows(figures@, i + 1);
            lemma_decimal_grows(figures@, i as int);
        }
        if value > (i32::MAX - digit) / 10 {
            return None;
        }
        value = value * 10 + digit;
        i += 1;
    }
    assert(figures@.take(i as int) =~= figures@);
    Some(value)
}

/// `number ::= digit+`
pub fn number(input: &str) -> (r: Result<(&str, Node), ParseError>)
    ensures
        parsed(r) == grammar::number(input@),
        advances(r, input@),
{
    proof {
        lemma_leading(input@, digits());
    }
    match digit1(input) {
        Ok((rest, found)) => {
            match to_number(found) {
                Some(value) => Ok((rest, Node::Number { value })),
                None => Err(ParseError::NumberOutOfRange),
            }
        },
        Err(_) => Err(ParseError::Mismatch),
    }
}

/// `boolean ::= "true" | "false"`
pub fn boolean(input: &str) -> (r: Result<(&str, Node), ParseError>)
    ensures
        parsed(r) == grammar::boolean(input@),
        advances(r, input@),
{
    proof {
        reveal_strlit("true");
        reveal_strlit("false");
    }
    match literal(input, "true") {
        Some(rest) => Ok((rest, Node::Bool { value: true })),
        None => match literal(input, "false") {
            Some(rest) => Ok((rest, Node::Bool { value: false })),
            None => Err(ParseError::Mismatch),
        },
    }
}

/// `string ::= '"' (alnum | " ")+ '"'`
pub fn string(input: &str) -> (r: Result<(&str, Node), ParseError>)
    ensures
        parsed(r) == grammar::string(input@),
        advances(r, input@),
{
    proof {
        reveal_strlit("\"");
        reveal_strlit(" ");
    }
    let body = match literal(input, "\"") {
        Some(body) => body,
        None => {
            return Err(ParseError::Mismatch);
        },
    };
    let mut value = String::new();
    let mut cur = body;
    let ghost mut n: int = 0;
    assert(body@.take(0) =~= Seq::<char>::empty());
    assert(body@.skip(0) =~= body@);
    loop
        invariant
            0 <= n <= body@.len(),
            cur@ == body@.skip(n),
            value@ == body@.take(n),
            forall|i: int| 0 <= i < n ==> grammar::textual()(#[trigger] body@[i]),
            expect(input@, "\""@) == Some(body@),
            body@.len() < input@.len(),
        decreases cur@.len(),
    {
        proof {
            reveal_strlit("\"");
            reveal_strlit(" ");
            lemma_leading(cur@, alnums());
        }
        match alphanumeric1(cur) {
            Ok((rest, found)) => {
                value.append(found);
                proof {
                    let k = alnum_run(cur@) as int;
                    assert(body@.take(n) + cur@.take(k) =~= body@.take(n + k));
                    assert(rest@ =~= body@.skip(n + k));
                    assert forall|i: int| 0 <= i < n + k implies grammar::textual()(
                        #[trigger] body@[i],
                    ) by {
                        if i >= n {
                            assert(body@[i] == cur@[i - n]);
                            assert(alnums()(cur@[i - n]));
                        }
                    }
                    n = n + k;
                }
                cur = rest;
            },
            Err(_) => {
                match tag(" ", cur) {
                    Ok((rest, found)) => {
                        value.append(found);
                        proof {
                            assert(body@.take(n) + " "@ =~= body@.take(n + 1));
                            assert(rest@ =~= body@.skip(n + 1));
                            assert(body@[n] == cur@[0]);
                            assert(" "@[0] == ' ');
                            assert(cur@.subrange(0, 1)[0] == cur@[0]);
                            assert forall|i: int| 0 <= i < n + 1 implies grammar::textual()(
                                #[trigger] body@[i],
                            ) by {}
                            n = n + 1;
                        }
                        cur = rest;
                    },
                    Err(_) => {
                        proof {
                            if n < body@.len() {
                                assert(body@[n] == cur@[0]);
                                assert(!alnums()(cur@[0]));
                                assert(!" "@.is_prefix_of(cur@));
                                assert(cur@[0] != ' ') by {
                                    if cur@[0] == ' ' {
                                        assert(" "@ =~= cur@.subrange(0, 1));
                                    }
                                }
                            }
                            lemma_leading_is(body@, grammar::textual(), n);
                        }
                        if value.as_str().is_empty() {
                            return Err(ParseError::Mismatch);
                        }
                        return match literal(cur, "\"") {
                            Some(rest) => Ok((rest, Node::String { value })),
                            None => Err(ParseError::Mismatch),
                        };
                    },
                }
            },
        }
    }
}

/// `conditional_operator ::= "<=" | ">=" | "==" | "!=" | "<" | ">"`
pub fn conditional_operator(input: &str) -> (r: Result<(&str, Node), ParseError>)
    ensures
        parsed(r) == grammar::conditional_operator(input@),
        advances(r, input@),
{
    proof {
        reveal_strlit("<=");
        reveal_strlit(">=");
        reveal_strlit("==");
        reveal_strlit("!=");
        reveal_strlit("<");
        reveal_strlit(">");
    }
    if let Some(rest) = literal(input, "<=") {
        Ok((rest, Node::ConditionalOperator { value: String::from_str("<=") }))
    } else if let Some(rest) = literal(input, ">=") {
        Ok((rest, Node::ConditionalOperator { value: String::from_str(">=") }))
    } else if let Some(rest) = literal(input, "==") {
        Ok((rest, Node::ConditionalOperator { value: String::from_str("==") }))
    } else if let Some(rest) = literal(input, "!=") {
        Ok((rest, Node::ConditionalOperator { value: String::from_str("!=") }))
    } else if let Some(rest) = literal(input, "<") {
        Ok((rest, Node::ConditionalOperator { value: String::from_str("<") }))
    } else if let Some(rest) = literal(input, ">") {
        Ok((rest, Node::ConditionalOperator { value: String::from_str(">") }))
    } else {
        Err(ParseError::Mismatch)
    }
}

/// The node of `head operator operand`, where `tail` holds the operator and
/// the operand.
fn fold(head: Node, tail: Node) -> (r: Node)
    ensures
        r@ == grammar::join(head@, tail@),
{
    match tail {
        Node::MathExpression { name, children } => {
            let mut rest = children;
            let mut list: Vec<Node> = Vec::new();
            list.push(head);
            list.append(&mut rest);
            assert(trees(list@) =~= seq![head@] + trees(children@));
            Node::MathExpression { name, children: list }
        },
        _ => head,
    }
}

/// `function_call ::= alnum+ "(" arguments? ")"`
pub fn function_call(input: &str) -> (r: Result<(&str, Node), ParseError>)
    ensures
        parsed(r) == grammar::function_call(input@),
        advances(r, input@),
    decreases input@.len(), 0nat,
{
    reveal(grammar::function_call);
    reveal(grammar::arguments);
    proof {
        reveal_strlit("(");
        reveal_strlit(")");
        lemma_leading(input@, alnums());
    }
    let (after, name) = match alphanumeric1(input) {
        Ok(found) => found,
        Err(_) => {
            return Err(ParseError::Mismatch);
        },
    };
    let inner = match literal(after, "(") {
        Some(inner) => inner,
        None => {
            return Err(ParseError::Mismatch);
        },
    };
    match arguments(inner) {
        Ok((after, list)) => match literal(after, ")") {
            Some(rest) => {
                let mut children: Vec<Node> = Vec::new();
                children.push(list);
                assert(trees(children@) =~= seq![list@]);
                Ok((rest, Node::FunctionCall { name: String::from_str(name), children }))
            },
            None => Err(ParseError::Mismatch),
        },
        Err(ParseError::Mismatch) => match literal(inner, ")") {
            Some(rest) => {
                let children: Vec<Node> = Vec::new();
                assert(trees(children@) =~= Seq::<Tree>::empty());
                Ok((rest, Node::FunctionCall { name: String::from_str(name), children }))
            },
            None => Err(ParseError::Mismatch),
        },
        Err(e) => Err(e),
    }
}

/// `parenthetical ::= " "* "(" " "* l1 " "* ")" " "*`
pub fn parenthetical_expression(input: &str) -> (r: Result<(&str, Node), ParseError>)
    ensures
        parsed(r) == grammar::parenthetical_expression(input@),
        advances(r, input@),
    decreases input@.len(), 0nat,
{
    reveal(grammar::parenthetical_expression);
    reveal(grammar::l1);
    proof {
        reveal_strlit("(");
        reveal_strlit(")");
    }
    let opened = match literal(skip_spaces(input), "(") {
        Some(opened) => opened,
        None => {
            return Err(ParseError::Mismatch);
        },
    };
    let inner = skip_spaces(opened);
    match l1(inner) {
        Ok((after, node)) => match literal(skip_spaces(after), ")") {
            Some(closed) => Ok((skip_spaces(closed), node)),
            None => Err(ParseError::Mismatch),
        },
        Err(e) => Err(e),
    }
}

/// `l4 ::= function_call | number | identifier | parenthetical`
pub fn l4(input: &str) -> (r: Result<(&str, Node), ParseError>)
    ensures
        parsed(r) == grammar::l4(input@),
        advances(r, input@),
    decreases input@.len(), 1nat,
{
    reveal(grammar::l4);
    reveal(grammar::function_call);
    reveal(grammar::parenthetical_expression);
    match function_call(input) {
        Err(ParseError::Mismatch) => match number(input) {
            Err(ParseError::Mismatch) => match identifier(input) {
                Err(ParseError::Mismatch) => parenthetical_expression(input),
                other => other,
            },
            other => other,
        },
        other => other,
    }
}

/// `l3_infix ::= " "* "^" " "* l4`; the node holds the operator and
/// the right operand.
pub fn l3_infix(input: &str) -> (r: Result<(&str, Node), ParseError>)
    ensures
        parsed(r) == grammar::l3_infix(input@),
        advances(r, input@),
    decreases input@.len(), 0nat,
{
    reveal(grammar::l3_infix);
    reveal(grammar::l4);
    proof {
        reveal_strlit("^");
    }
    let start = skip_spaces(input);
    let after = match literal(start, "^") {
        Some(after) => after,
        None => {
            return Err(ParseError::Mismatch);
        },
    };
    let name = String::from_str("^");
    let right = skip_spaces(after);
    match l4(right) {
        Ok((rest, operand)) => {
            let mut children: Vec<Node> = Vec::new();
            children.push(operand);
            assert(trees(children@) =~= seq![operand@]);
            Ok((rest, Node::MathExpression { name, children }))
        },
        Err(e) => Err(e),
    }
}

/// `l3 ::= l4 l3_infix*`, associating to the left.
pub fn l3(input: &str) -> (r: Result<(&str, Node), ParseError>)
    ensures
        parsed(r) == grammar::l3(input@),
        advances(r, input@),
    decreases input@.len(), 2nat,
{
    reveal(grammar::l3);
    reveal(grammar::l3_tail);
    reveal(grammar::l4);
    reveal(grammar::l3_infix);
    let (first, node) = match l4(input) {
        Ok(found) => found,
        Err(e) => {
            return Err(e);
        },
    };
    let mut cur = first;
    let mut head = node;
    loop
        invariant
            grammar::l3_tail(cur@, head@) == grammar::l3(input@),
            cur@.len() < input@.len(),
        decreases cur@.len(),
    {
        proof {
            reveal(grammar::function_call);
            reveal(grammar::parenthetical_expression);
            reveal(grammar::l4);
            reveal(grammar::l3_infix);
            reveal(grammar::l3_tail);
            reveal(grammar::l3);
            reveal(grammar::arguments);
            reveal(grammar::l1);
        }
        match l3_infix(cur) {
            Ok((rest, tail)) => {
                head = fold(head, tail);
                cur = rest;
            },
            Err(ParseError::Mismatch) => {
                return Ok((cur, head));
            },
            Err(e) => {
                return Err(e);
            },
        }
    }
}

/// `l2_infix ::= " "* ("*" | "/") " "* l3`; the node holds the operator and
/// the right operand.
pub fn l2_infix(input: &str) -> (r: Result<(&str, Node), ParseError>)
    ensures
        parsed(r) == grammar::l2_infix(input@),
        advances(r, input@),
    decreases input@.len(), 0nat,
{
    reveal(grammar::l2_infix);
    reveal(grammar::l3);
    proof {
        reveal_strlit("*");
        reveal_strlit("/");
    }
    let start = skip_spaces(input);
    let (name, after) = match literal(start, "*") {
        Some(after) => (String::from_str("*"), after),
        None => match literal(start, "/") {
            Some(after) => (String::from_str("/"), after),
            None => {
                return Err(ParseError::Mismatch);
            },
        },
    };
    let right = skip_spaces(after);
    match l3(right) {
        Ok((rest, operand)) => {
            let mut children: Vec<Node> = Vec::new();
            children.push(operand);
            assert(trees(children@) =~= seq![operand@]);
            Ok((rest, Node::MathExpression { name, children }))
        },
        Err(e) => Err(e),
    }
}

/// `l2 ::= l3 l2_infix*`, associating to the left.
pub fn l2(input: &str) -> (r: Result<(&str, Node), ParseError>)
    ensures
        parsed(r) == grammar::l2(input@),
        advances(r, input@),
    decreases input@.len(), 3nat,
{
    reveal(grammar::l2);
    reveal(grammar::l2_tail);
    reveal(grammar::l3);
    reveal(grammar::l2_infix);
    let (first, node) = match l3(input) {
        Ok(found) => found,
        Err(e) => {
            return Err(e);
        },
    };
    let mut cur = first;
    let mut head = node;
    loop
        invariant
            grammar::l2_tail(cur@, head@) == grammar::l2(input@),
            cur@.len() < input@.len(),
        decreases cur@.len(),
    {
        proof {
            reveal(grammar::l2_tail);
            reveal(grammar::l2);
            reveal(grammar::l2_infix);
            reveal(grammar::l3);
        }
        match l2_infix(cur) {
            Ok((rest, tail)) => {
                head = fold(head, tail);
                cur = rest;
            },
            Err(ParseError::Mismatch) => {
                return Ok((cur, head));
            },
            Err(e) => {
                return Err(e);
            },
        }
    }
}

/// `l1_infix ::= " "* ("+" | "-") " "* l2`; the node holds the operator and
/// the right operand.
pub fn l1_infix(input: &str) -> (r: Result<(&str, Node), ParseError>)
    ensures
        parsed(r) == grammar::l1_infix(input@),
        advances(r, input@),
    decreases input@.len(), 0nat,
{
    reveal(grammar::l1_infix);
    reveal(grammar::l2);
    proof {
        reveal_strlit("+");
        reveal_strlit("-");
    }
    let start = skip_spaces(input);
    let (name, after) = match literal(start, "+") {
        Some(after) => (String::from_str("+"), after),
        None => match literal(start, "-") {
            Some(after) => (String::from_str("-"), after),
            None => {
                return Err(ParseError::Mismatch);
            },
        },
    };
    let right = skip_spaces(after);
    match l2(right) {
        Ok((rest, operand)) => {
            let mut children: Vec<Node> = Vec::new();
            children.push(operand);
            assert(trees(children@) =~= seq![operand@]);
            Ok((rest, Node::MathExpression { name, children }))
        },
        Err(e) => Err(e),
    }
}

/// `l1 ::= l2 l1_infix*`, associating to the left.
pub fn l1(input: &str) -> (r: Result<(&str, Node), ParseError>)
    ensures
        parsed(r) == grammar::l1(input@),
        advances(r, input@),
    decreases input@.len(), 4nat,
{
    reveal(grammar::l1);
    reveal(grammar::l1_tail);
    reveal(grammar::l2);
    reveal(grammar::l1_infix);
    let (first, node) = match l2(input) {
        Ok(found) => found,
        Err(e) => {
            return Err(e);
        },
    };
    let mut cur = first;
    let mut head = node;
    loop
        invariant
            grammar::l1_tail(cur@, head@) == grammar::l1(input@),
            cur@.len() < input@.len(),
        decreases cur@.len(),
    {
        proof {
            reveal(grammar::l1_tail);
            reveal(grammar::l1);
            reveal(grammar::l1_infix);
            reveal(grammar::l2);
        }
        match l1_infix(cur) {
            Ok((rest, tail)) => {
                head = fold(head, tail);
                cur = rest;
            },
            Err(ParseError::Mismatch) => {
                return Ok((cur, head));
            },
            Err(e) => {
                return Err(e);
            },
        }
    }
}

/// `math_expression ::= l1`
pub fn math_expression(input: &str) -> (r: Result<(&str, Node), ParseError>)
    ensures
        parsed(r) == grammar::math_expression(input@),
        advances(r, input@),
    decreases input@.len(), 5nat,
{
    reveal(grammar::math_expression);
    reveal(grammar::l1);
    l1(input)
}

/// `expression ::= boolean | math_expression | function_call | string`,
/// wrapped in an expression node.
pub fn expression(input: &str) -> (r: Result<(&str, Node), ParseError>)
    ensures
        parsed(r) == grammar::expression(input@),
        advances(r, input@),
    decreases input@.len(), 6nat,
{
    reveal(grammar::expression);
    reveal(grammar::function_call);
    reveal(grammar::math_expression);
    let inner = match boolean(input) {
        Err(ParseError::Mismatch) => match math_expression(input) {
            Err(ParseError::Mismatch) => match function_call(input) {
                Err(ParseError::Mismatch) => string(input),
                other => other,
            },
            other => other,
        },
        other => other,
    };
    match inner {
        Ok((rest, node)) => {
            let mut children: Vec<Node> = Vec::new();
            children.push(node);
            assert(trees(children@) =~= seq![node@]);
            Ok((rest, Node::Expression { children }))
        },
        Err(e) => Err(e),
    }
}

/// `other_arg ::= "," expression`
pub fn other_arg(input: &str) -> (r: Result<(&str, Node), ParseError>)
    ensures
        parsed(r) == grammar::other_arg(input@),
        advances(r, input@),
    decreases input@.len(), 0nat,
{
    reveal(grammar::other_arg);
    reveal(grammar::expression);
    proof {
        reveal_strlit(",");
    }
    match literal(input, ",") {
        Some(after) => expression(after),
        None => Err(ParseError::Mismatch),
    }
}

/// `arguments ::= expression other_arg*`
pub fn arguments(input: &str) -> (r: Result<(&str, Node), ParseError>)
    ensures
        parsed(r) == grammar::arguments(input@),
        advances(r, input@),
    decreases input@.len(), 7nat,
{
    reveal(grammar::arguments);
    reveal(grammar::other_args);
    reveal(grammar::expression);
    reveal(grammar::other_arg);
    let (first, node) = match expression(input) {
        Ok(found) => found,
        Err(e) => {
            return Err(e);
        },
    };
    let mut cur = first;
    let mut list: Vec<Node> = Vec::new();
    list.push(node);
    assert(trees(list@) =~= seq![node@]);
    loop
        invariant
            match grammar::other_args(cur@, trees(list@)) {
                Ok((rest, all)) => grammar::arguments(input@) == Ok::<
                    (Seq<char>, Tree),
                    ParseError,
                >((rest, Tree::FunctionArguments { children: all })),
                Err(e) => grammar::arguments(input@) == Err::<(Seq<char>, Tree), ParseError>(e),
            },
            cur@.len() < input@.len(),
        decreases cur@.len(),
    {
        proof {
            reveal(grammar::other_args);
            reveal(grammar::arguments);
            reveal(grammar::other_arg);
            reveal(grammar::expression);
        }
        match other_arg(cur) {
            Ok((rest, node)) => {
                assert(trees(list@.push(node)) =~= trees(list@).push(node@));
                list.push(node);
                cur = rest;
            },
            Err(ParseError::Mismatch) => {
                return Ok((cur, Node::FunctionArguments { children: list }));
            },
            Err(e) => {
                return Err(e);
            },
        }
    }
}


/// The input without leading spaces and tabs.
fn skip_blanks(input: &str) -> (rest: &str)
    ensures
        rest@ == grammar::blanks(input@),
        rest@.len() <= input@.len(),
{
    let mut cur = input;
    loop
        invariant
            grammar::blanks(cur@) == grammar::blanks(input@),
            cur@.len() <= input@.len(),
        decreases cur@.len(),
    {
        proof {
            reveal_strlit(" ");
            reveal_strlit("\t");
            lemma_strip_step(cur@, grammar::blank());
        }
        match tag(" ", cur) {
            Ok((rest, _)) => {
                assert(rest@ =~= cur@.drop_first());
                cur = rest;
            },
            Err(_) => {
                match tag("\t", cur) {
                    Ok((rest, _)) => {
                        assert(rest@ =~= cur@.drop_first());
                        cur = rest;
                    },
                    Err(_) => {
                        return cur;
                    },
                }
            },
        }
    }
}

/// The input without leading line feeds.
fn skip_newlines(input: &str) -> (rest: &str)
    ensures
        rest@ == grammar::newlines(input@),
        rest@.len() <= input@.len(),
{
    let mut cur = input;
    loop
        invariant
            grammar::newlines(cur@) == grammar::newlines(input@),
            cur@.len() <= input@.len(),
        decreases cur@.len(),
    {
        proof {
            reveal_strlit("\n");
            lemma_strip_step(cur@, grammar::newline());
        }
        match tag("\n", cur) {
            Ok((rest, _)) => {
                assert(rest@ =~= cur@.drop_first());
                cur = rest;
            },
            Err(_) => {
                return cur;
            },
        }
    }
}

/// The input without leading line feeds and spaces.
fn skip_padding(input: &str) -> (rest: &str)
    ensures
        rest@ == grammar::padding(input@),
        rest@.len() <= input@.len(),
{
    let mut cur = input;
    loop
        invariant
            grammar::padding(cur@) == grammar::padding(input@),
            cur@.len() <= input@.len(),
        decreases cur@.len(),
    {
        proof {
            reveal_strlit("\n");
            reveal_strlit(" ");
            lemma_strip_step(cur@, grammar::pad());
        }
        match tag("\n", cur) {
            Ok((rest, _)) => {
                assert(rest@ =~= cur@.drop_first());
                cur = rest;
            },
            Err(_) => {
                match tag(" ", cur) {
                    Ok((rest, _)) => {
                        assert(rest@ =~= cur@.drop_first());
                        cur = rest;
                    },
                    Err(_) => {
                        return cur;
                    },
                }
            },
        }
    }
}

/// The input without leading spaces, tabs and line feeds.
fn skip_whitespace(input: &str) -> (rest: &str)
    ensures
        rest@ == grammar::whitespace(input@),
        rest@.len() <= input@.len(),
{
    let mut cur = input;
    loop
        invariant
            grammar::whitespace(cur@) == grammar::whitespace(input@),
            cur@.len() <= input@.len(),
        decreases cur@.len(),
    {
        proof {
            reveal_strlit(" ");
            reveal_strlit("\t");
            reveal_strlit("\n");
            lemma_strip_step(cur@, grammar::white());
        }
        match tag(" ", cur) {
            Ok((rest, _)) => {
                assert(rest@ =~= cur@.drop_first());
                cur = rest;
            },
            Err(_) => {
                match tag("\t", cur) {
                    Ok((rest, _)) => {
                        assert(rest@ =~= cur@.drop_first());
                        cur = rest;
                    },
                    Err(_) => {
                        match tag("\n", cur) {
                            Ok((rest, _)) => {
                                assert(rest@ =~= cur@.drop_first());
                                cur = rest;
                            },
                            Err(_) => {
                                return cur;
                            },
                        }
                    },
                }
            },
        }
    }
}

/// One node as a list.
fn single(node: Node) -> (list: Vec<Node>)
    ensures
        trees(list@) == seq![node@],
{
    let mut list: Vec<Node> = Vec::new();
    list.push(node);
    assert(trees(list@) =~= seq![node@]);
    list
}

/// `list` with `node` at its end.
fn with(list: Vec<Node>, node: Node) -> (all: Vec<Node>)
    ensures
        trees(all@) == trees(list@).push(node@),
{
    let mut all = list;
    all.push(node);
    assert(trees(all@) =~= trees(list@).push(node@));
    all
}

/// `conditional_val ::= boolean | math_expression | number | identifier`,
/// wrapped in a comparand node.
pub fn conditional_val(input: &str) -> (r: Result<(&str, Node), ParseError>)
    ensures
        parsed(r) == grammar::conditional_val(input@),
        advances(r, input@),
    decreases input@.len(), 6nat,
{
    reveal(grammar::conditional_val);
    reveal(grammar::math_expression);
    let inner = match boolean(input) {
        Err(ParseError::Mismatch) => match math_expression(input) {
            Err(ParseError::Mismatch) => match number(input) {
                Err(ParseError::Mismatch) => identifier(input),
                other => other,
            },
            other => other,
        },
        other => other,
    };
    match inner {
        Ok((rest, node)) => Ok((rest, Node::ConditionalValue { children: single(node) })),
        Err(e) => Err(e),
    }
}

/// `" "* conditional_operator " "* conditional_val`: the operator and the
/// comparand after it.
fn comparison_pair(input: &str) -> (r: Result<(&str, Node, Node), ParseError>)
    ensures
        match r {
            Ok((rest, operator, value)) => grammar::comparison_pair(input@) == Ok::<
                (Seq<char>, Seq<Tree>),
                ParseError,
            >((rest@, seq![operator@, value@])) && rest@.len() < input@.len(),
            Err(e) => grammar::comparison_pair(input@) == Err::<(Seq<char>, Seq<Tree>), ParseError>(
                e,
            ),
        },
    decreases input@.len(), 7nat,
{
    reveal(grammar::comparison_pair);
    reveal(grammar::conditional_val);
    let (after, operator) = match conditional_operator(skip_spaces(input)) {
        Ok(found) => found,
        Err(e) => {
            return Err(e);
        },
    };
    match conditional_val(skip_spaces(after)) {
        Ok((rest, value)) => Ok((rest, operator, value)),
        Err(e) => Err(e),
    }
}

/// `conditional_exp ::= conditional_val (" "* conditional_operator " "*
/// conditional_val)+`
pub fn conditional_exp(input: &str) -> (r: Result<(&str, Node), ParseError>)
    ensures
        parsed(r) == grammar::conditional_exp(input@),
        advances(r, input@),
    decreases input@.len(), 9nat,
{
    reveal(grammar::conditional_exp);
    reveal(grammar::comparison_pairs);
    reveal(grammar::conditional_val);
    reveal(grammar::comparison_pair);
    let (after, left) = match conditional_val(input) {
        Ok(found) => found,
        Err(e) => {
            return Err(e);
        },
    };
    let (first, operator, right) = match comparison_pair(after) {
        Ok(found) => found,
        Err(e) => {
            return Err(e);
        },
    };
    let mut cur = first;
    let mut list = with(with(single(left), operator), right);
    assert(trees(list@) =~= seq![left@] + seq![operator@, right@]);
    loop
        invariant
            match grammar::comparison_pairs(cur@, trees(list@)) {
                Ok((rest, all)) => grammar::conditional_exp(input@) == Ok::<
                    (Seq<char>, Tree),
                    ParseError,
                >((rest, Tree::ConditionalExpression { children: all })),
                Err(e) => grammar::conditional_exp(input@) == Err::<(Seq<char>, Tree), ParseError>(
                    e,
                ),
            },
            cur@.len() < input@.len(),
        decreases cur@.len(),
    {
        proof {
            reveal(grammar::conditional_val);
            reveal(grammar::comparison_pair);
            reveal(grammar::comparison_pairs);
            reveal(grammar::conditional_exp);
            reveal(grammar::math_expression);
        }
        match comparison_pair(cur) {
            Ok((rest, operator, value)) => {
                let ghost before = trees(list@);
                list = with(with(list, operator), value);
                assert(trees(list@) =~= before + seq![operator@, value@]);
                cur = rest;
            },
            Err(ParseError::Mismatch) => {
                return Ok((cur, Node::ConditionalExpression { children: list }));
            },
            Err(e) => {
                return Err(e);
            },
        }
    }
}

/// `variable_define ::= "let " identifier " "* "=" " "* expression`
pub fn variable_define(input: &str) -> (r: Result<(&str, Node), ParseError>)
    ensures
        parsed(r) == grammar::variable_define(input@),
        advances(r, input@),
    decreases input@.len(), 0nat,
{
    reveal(grammar::variable_define);
    reveal(grammar::expression);
    proof {
        reveal_strlit("let ");
        reveal_strlit("=");
    }
    let after = match literal(input, "let ") {
        Some(after) => after,
        None => {
            return Err(ParseError::Mismatch);
        },
    };
    let (after_name, name) = match identifier(after) {
        Ok(found) => found,
        Err(e) => {
            return Err(e);
        },
    };
    let after_sign = match literal(skip_spaces(after_name), "=") {
        Some(after_sign) => after_sign,
        None => {
            return Err(ParseError::Mismatch);
        },
    };
    match expression(skip_spaces(after_sign)) {
        Ok((rest, value)) => {
            let children = with(single(name), value);
            assert(trees(children@) =~= seq![name@, value@]);
            Ok((rest, Node::VariableDefine { children }))
        },
        Err(e) => Err(e),
    }
}

/// `function_return ::= "return " (function_call | expression | identifier)`
pub fn function_return(input: &str) -> (r: Result<(&str, Node), ParseError>)
    ensures
        parsed(r) == grammar::function_return(input@),
        advances(r, input@),
    decreases input@.len(), 0nat,
{
    reveal(grammar::function_return);
    reveal(grammar::function_call);
    reveal(grammar::expression);
    proof {
        reveal_strlit("return ");
    }
    let after = match literal(input, "return ") {
        Some(after) => after,
        None => {
            return Err(ParseError::Mismatch);
        },
    };
    let value = match function_call(after) {
        Err(ParseError::Mismatch) => match expression(after) {
            Err(ParseError::Mismatch) => identifier(after),
            other => other,
        },
        other => other,
    };
    match value {
        Ok((rest, node)) => Ok((rest, Node::FunctionReturn { children: single(node) })),
        Err(e) => Err(e),
    }
}

/// The end of a statement after its content: `";" " "* "\n"*`.
fn terminator(input: &str) -> (r: Option<&str>)
    ensures
        match r {
            Some(rest) => grammar::terminator(input@) == Some(rest@) && rest@.len() < input@.len(),
            None => grammar::terminator(input@) is None,
        },
{
    proof {
        reveal_strlit(";");
    }
    match literal(input, ";") {
        Some(after) => Some(skip_newlines(skip_spaces(after))),
        None => None,
    }
}

/// `statement ::= (" " | "\t")* variable_define ";" " "* "\n"*`, wrapped in
/// a statement node.
pub fn statement(input: &str) -> (r: Result<(&str, Node), ParseError>)
    ensures
        parsed(r) == grammar::statement(input@),
        advances(r, input@),
    decreases input@.len(), 1nat,
{
    reveal(grammar::statement);
    reveal(grammar::variable_define);
    match variable_define(skip_blanks(input)) {
        Ok((after, definition)) => match terminator(after) {
            Some(rest) => Ok((rest, Node::Statement { children: single(definition) })),
            None => Err(ParseError::Mismatch),
        },
        Err(e) => Err(e),
    }
}

/// A return in a function body: `(" " | "\t")* function_return ";" " "*
/// "\n"*`, wrapped in a statement node.
fn return_statement(input: &str) -> (r: Result<(&str, Node), ParseError>)
    ensures
        parsed(r) == grammar::return_statement(input@),
        advances(r, input@),
    decreases input@.len(), 1nat,
{
    reveal(grammar::return_statement);
    reveal(grammar::function_return);
    match function_return(skip_blanks(input)) {
        Ok((after, value)) => match terminator(after) {
            Some(rest) => Ok((rest, Node::Statement { children: single(value) })),
            None => Err(ParseError::Mismatch),
        },
        Err(e) => Err(e),
    }
}

/// One item of a function body: `statement | return_statement`.
fn body_item(input: &str) -> (r: Result<(&str, Node), ParseError>)
    ensures
        parsed(r) == grammar::body_item(input@),
        advances(r, input@),
    decreases input@.len(), 2nat,
{
    reveal(grammar::body_item);
    reveal(grammar::statement);
    reveal(grammar::return_statement);
    match statement(input) {
        Err(ParseError::Mismatch) => return_statement(input),
        other => other,
    }
}

/// `body_item*` after `list`.
fn body_items<'a>(input: &'a str, list: Vec<Node>) -> (r: Result<
    (&'a str, Vec<Node>),
    ParseError,
>)
    ensures
        parsed_many(r) == grammar::body_items(input@, trees(list@)),
        r matches Ok((rest, _)) ==> rest@.len() <= input@.len(),
    decreases input@.len(), 3nat,
{
    reveal(grammar::body_items);
    reveal(grammar::body_item);
    let mut cur = input;
    let mut all = list;
    loop
        invariant
            grammar::body_items(cur@, trees(all@)) == grammar::body_items(
                input@,
                trees(list@),
            ),
            cur@.len() <= input@.len(),
        decreases cur@.len(),
    {
        proof {
            reveal(grammar::body_items);
            reveal(grammar::body_item);
        }
        match body_item(cur) {
            Ok((rest, node)) => {
                all = with(all, node);
                cur = rest;
            },
            Err(ParseError::Mismatch) => {
                return Ok((cur, all));
            },
            Err(e) => {
                return Err(e);
            },
        }
    }
}

/// `statement*` after `list`.
fn statements<'a>(input: &'a str, list: Vec<Node>) -> (r: Result<
    (&'a str, Vec<Node>),
    ParseError,
>)
    ensures
        parsed_many(r) == grammar::statements(input@, trees(list@)),
        r matches Ok((rest, _)) ==> rest@.len() <= input@.len(),
    decreases input@.len(), 3nat,
{
    reveal(grammar::statements);
    reveal(grammar::statement);
    let mut cur = input;
    let mut all = list;
    loop
        invariant
            grammar::statements(cur@, trees(all@)) == grammar::statements(
                input@,
                trees(list@),
            ),
            cur@.len() <= input@.len(),
        decreases cur@.len(),
    {
        proof {
            reveal(grammar::statements);
            reveal(grammar::statement);
        }
        match statement(cur) {
            Ok((rest, node)) => {
                all = with(all, node);
                cur = rest;
            },
            Err(ParseError::Mismatch) => {
                return Ok((cur, all));
            },
            Err(e) => {
                return Err(e);
            },
        }
    }
}

/// `function_return*` after `list`.
fn more_returns<'a>(input: &'a str, list: Vec<Node>) -> (r: Result<
    (&'a str, Vec<Node>),
    ParseError,
>)
    ensures
        parsed_many(r) == grammar::more_returns(input@, trees(list@)),
        r matches Ok((rest, _)) ==> rest@.len() <= input@.len(),
    decreases input@.len(), 3nat,
{
    reveal(grammar::more_returns);
    reveal(grammar::function_return);
    let mut cur = input;
    let mut all = list;
    loop
        invariant
            grammar::more_returns(cur@, trees(all@)) == grammar::more_returns(
                input@,
                trees(list@),
            ),
            cur@.len() <= input@.len(),
        decreases cur@.len(),
    {
        proof {
            reveal(grammar::more_returns);
            reveal(grammar::function_return);
        }
        match function_return(cur) {
            Ok((rest, node)) => {
                all = with(all, node);
                cur = rest;
            },
            Err(ParseError::Mismatch) => {
                return Ok((cur, all));
            },
            Err(e) => {
                return Err(e);
            },
        }
    }
}

/// The inside of a conditional block and its end, after `list`:
/// `ws statement* ws function_return+ ";" ws "}" ws`.
fn block<'a>(input: &'a str, list: Vec<Node>) -> (r: Result<
    (&'a str, Vec<Node>),
    ParseError,
>)
    ensures
        parsed_many(r) == grammar::block(input@, trees(list@)),
        advances(r, input@),
    decreases input@.len(), 5nat,
{
    reveal(grammar::block);
    reveal(grammar::function_return);
    reveal(grammar::statements);
    reveal(grammar::more_returns);
    proof {
        reveal_strlit(";");
        reveal_strlit("}");
    }
    let (after, list) = match statements(skip_whitespace(input), list) {
        Ok(found) => found,
        Err(e) => {
            return Err(e);
        },
    };
    let (after, first) = match function_return(skip_whitespace(after)) {
        Ok(found) => found,
        Err(e) => {
            return Err(e);
        },
    };
    let (after, list) = match more_returns(after, with(list, first)) {
        Ok(found) => found,
        Err(e) => {
            return Err(e);
        },
    };
    let after = match literal(after, ";") {
        Some(after) => after,
        None => {
            return Err(ParseError::Mismatch);
        },
    };
    match literal(skip_whitespace(after), "}") {
        Some(closed) => Ok((skip_whitespace(closed), list)),
        None => Err(ParseError::Mismatch),
    }
}

/// A branch with a condition, after its keyword: `" "* conditional_exp " "*
/// "{" block`.
fn guarded_block(input: &str) -> (r: Result<(&str, Vec<Node>), ParseError>)
    ensures
        parsed_many(r) == grammar::guarded_block(input@),
        advances(r, input@),
    decreases input@.len(), 10nat,
{
    reveal(grammar::guarded_block);
    reveal(grammar::conditional_exp);
    reveal(grammar::block);
    proof {
        reveal_strlit("{");
    }
    let (after, condition) = match conditional_exp(skip_spaces(input)) {
        Ok(found) => found,
        Err(e) => {
            return Err(e);
        },
    };
    match literal(skip_spaces(after), "{") {
        Some(opened) => block(opened, single(condition)),
        None => Err(ParseError::Mismatch),
    }
}

/// `if ::= "if " " "* conditional_exp " "* "{" block`
pub fn if_statement(input: &str) -> (r: Result<(&str, Node), ParseError>)
    ensures
        parsed(r) == grammar::if_statement(input@),
        advances(r, input@),
    decreases input@.len(), 0nat,
{
    reveal(grammar::if_statement);
    reveal(grammar::guarded_block);
    proof {
        reveal_strlit("if ");
    }
    match literal(input, "if ") {
        Some(after) => match guarded_block(after) {
            Ok((rest, children)) => Ok((rest, Node::IfStatement { children })),
            Err(e) => Err(e),
        },
        None => Err(ParseError::Mismatch),
    }
}

/// `else_if ::= "else if " " "* conditional_exp " "* "{" block`
pub fn else_if(input: &str) -> (r: Result<(&str, Node), ParseError>)
    ensures
        parsed(r) == grammar::else_if(input@),
        advances(r, input@),
    decreases input@.len(), 0nat,
{
    reveal(grammar::else_if);
    reveal(grammar::guarded_block);
    proof {
        reveal_strlit("else if ");
    }
    match literal(input, "else if ") {
        Some(after) => match guarded_block(after) {
            Ok((rest, children)) => Ok((rest, Node::ElseIfStatement { children })),
            Err(e) => Err(e),
        },
        None => Err(ParseError::Mismatch),
    }
}

/// `else ::= "else " "{" block`
pub fn else_statement(input: &str) -> (r: Result<(&str, Node), ParseError>)
    ensures
        parsed(r) == grammar::else_statement(input@),
        advances(r, input@),
    decreases input@.len(), 0nat,
{
    reveal(grammar::else_statement);
    reveal(grammar::block);
    proof {
        reveal_strlit("else ");
        reveal_strlit("{");
    }
    let after = match literal(input, "else ") {
        Some(after) => after,
        None => {
            return Err(ParseError::Mismatch);
        },
    };
    let opened = match literal(after, "{") {
        Some(opened) => opened,
        None => {
            return Err(ParseError::Mismatch);
        },
    };
    let none: Vec<Node> = Vec::new();
    assert(trees(none@) =~= Seq::<Tree>::empty());
    match block(opened, none) {
        Ok((rest, children)) => Ok((rest, Node::ElseStatement { children })),
        Err(e) => Err(e),
    }
}

/// `else_if*` after `list`.
fn else_ifs<'a>(input: &'a str, list: Vec<Node>) -> (r: Result<
    (&'a str, Vec<Node>),
    ParseError,
>)
    ensures
        parsed_many(r) == grammar::else_ifs(input@, trees(list@)),
        r matches Ok((rest, _)) ==> rest@.len() <= input@.len(),
    decreases input@.len(), 1nat,
{
    reveal(grammar::else_ifs);
    reveal(grammar::else_if);
    let mut cur = input;
    let mut all = list;
    loop
        invariant
            grammar::else_ifs(cur@, trees(all@)) == grammar::else_ifs(
                input@,
                trees(list@),
            ),
            cur@.len() <= input@.len(),
        decreases cur@.len(),
    {
        proof {
            reveal(grammar::else_ifs);
            reveal(grammar::else_if);
        }
        match else_if(cur) {
            Ok((rest, node)) => {
                all = with(all, node);
                cur = rest;
            },
            Err(ParseError::Mismatch) => {
                return Ok((cur, all));
            },
            Err(e) => {
                return Err(e);
            },
        }
    }
}

/// `else*` after `list`.
fn elses<'a>(input: &'a str, list: Vec<Node>) -> (r: Result<
    (&'a str, Vec<Node>),
    ParseError,
>)
    ensures
        parsed_many(r) == grammar::elses(input@, trees(list@)),
        r matches Ok((rest, _)) ==> rest@.len() <= input@.len(),
    decreases input@.len(), 1nat,
{
    reveal(grammar::elses);
    reveal(grammar::else_statement);
    let mut cur = input;
    let mut all = list;
    loop
        invariant
            grammar::elses(cur@, trees(all@)) == grammar::elses(
                input@,
                trees(list@),
            ),
            cur@.len() <= input@.len(),
        decreases cur@.len(),
    {
        proof {
            reveal(grammar::elses);
            reveal(grammar::else_statement);
        }
        match else_statement(cur) {
            Ok((rest, node)) => {
                all = with(all, node);
                cur = rest;
            },
            Err(ParseError::Mismatch) => {
                return Ok((cur, all));
            },
            Err(e) => {
                return Err(e);
            },
        }
    }
}

/// `if_else_statements ::= if else_if* else+`
pub fn if_else_statements(input: &str) -> (r: Result<(&str, Node), ParseError>)
    ensures
        parsed(r) == grammar::if_else_statements(input@),
        advances(r, input@),
    decreases input@.len(), 12nat,
{
    reveal(grammar::if_else_statements);
    reveal(grammar::if_statement);
    reveal(grammar::else_statement);
    reveal(grammar::else_ifs);
    reveal(grammar::elses);
    let (after, first) = match if_statement(input) {
        Ok(found) => found,
        Err(e) => {
            return Err(e);
        },
    };
    let (after, list) = match else_ifs(after, single(first)) {
        Ok(found) => found,
        Err(e) => {
            return Err(e);
        },
    };
    let (after, last) = match else_statement(after) {
        Ok(found) => found,
        Err(e) => {
            return Err(e);
        },
    };
    match elses(after, with(list, last)) {
        Ok((rest, children)) => Ok((rest, Node::IfElseStatements { children })),
        Err(e) => Err(e),
    }
}

/// The body of a function definition and its end, after `list`:
/// `" "* "{" "\n"* body_item+ "}" ("\n" | " ")*`.
fn function_body<'a>(input: &'a str, list: Vec<Node>) -> (r: Result<
    (&'a str, Vec<Node>),
    ParseError,
>)
    ensures
        parsed_many(r) == grammar::function_body(input@, trees(list@)),
        advances(r, input@),
    decreases input@.len(), 5nat,
{
    reveal(grammar::function_body);
    reveal(grammar::body_item);
    reveal(grammar::body_items);
    proof {
        reveal_strlit("{");
        reveal_strlit("}");
    }
    let opened = match literal(skip_spaces(input), "{") {
        Some(opened) => opened,
        None => {
            return Err(ParseError::Mismatch);
        },
    };
    let (after, first) = match body_item(skip_newlines(opened)) {
        Ok(found) => found,
        Err(e) => {
            return Err(e);
        },
    };
    let (after, list) = match body_items(after, with(list, first)) {
        Ok(found) => found,
        Err(e) => {
            return Err(e);
        },
    };
    match literal(after, "}") {
        Some(closed) => Ok((skip_padding(closed), list)),
        None => Err(ParseError::Mismatch),
    }
}

/// `function_definition ::= "fn " identifier "(" arguments? ")" " "* "{"
/// "\n"* body_item+ "}" ("\n" | " ")*`
pub fn function_definition(input: &str) -> (r: Result<(&str, Node), ParseError>)
    ensures
        parsed(r) == grammar::function_definition(input@),
        advances(r, input@),
    decreases input@.len(), 0nat,
{
    reveal(grammar::function_definition);
    reveal(grammar::optional_arguments);
    reveal(grammar::function_body);
    proof {
        reveal_strlit("fn ");
        reveal_strlit("(");
        reveal_strlit(")");
    }
    let after = match literal(input, "fn ") {
        Some(after) => after,
        None => {
            return Err(ParseError::Mismatch);
        },
    };
    let (after_name, name) = match identifier(after) {
        Ok(found) => found,
        Err(e) => {
            return Err(e);
        },
    };
    let inner = match literal(after_name, "(") {
        Some(inner) => inner,
        None => {
            return Err(ParseError::Mismatch);
        },
    };
    let (after, list) = match arguments(inner) {
        Ok((after, node)) => (after, with(single(name), node)),
        Err(ParseError::Mismatch) => (inner, single(name)),
        Err(e) => {
            return Err(e);
        },
    };
    let closed = match literal(after, ")") {
        Some(closed) => closed,
        None => {
            return Err(ParseError::Mismatch);
        },
    };
    match function_body(closed, list) {
        Ok((rest, children)) => Ok((rest, Node::FunctionDefine { children })),
        Err(e) => Err(e),
    }
}

/// One top-level item: `function_definition | if_else_statements |
/// function_call | statement | variable_define | conditional_exp |
/// expression`.
fn program_item(input: &str) -> (r: Result<(&str, Node), ParseError>)
    ensures
        parsed(r) == grammar::program_item(input@),
        advances(r, input@),
    decreases input@.len(), 18nat,
{
    reveal(grammar::program_item);
    reveal(grammar::function_call);
    reveal(grammar::expression);
    reveal(grammar::conditional_exp);
    reveal(grammar::variable_define);
    reveal(grammar::statement);
    reveal(grammar::if_else_statements);
    reveal(grammar::function_definition);
    match function_definition(input) {
        Err(ParseError::Mismatch) => match if_else_statements(input) {
            Err(ParseError::Mismatch) => match function_call(input) {
                Err(ParseError::Mismatch) => match statement(input) {
                    Err(ParseError::Mismatch) => match variable_define(input) {
                        Err(ParseError::Mismatch) => match conditional_exp(input) {
                            Err(ParseError::Mismatch) => expression(input),
                            other => other,
                        },
                        other => other,
                    },
                    other => other,
                },
                other => other,
            },
            other => other,
        },
        other => other,
    }
}

/// `program_item*` after `list`.
fn program_items<'a>(input: &'a str, list: Vec<Node>) -> (r: Result<
    (&'a str, Vec<Node>),
    ParseError,
>)
    ensures
        parsed_many(r) == grammar::program_items(input@, trees(list@)),
        r matches Ok((rest, _)) ==> rest@.len() <= input@.len(),
    decreases input@.len(), 19nat,
{
    reveal(grammar::program_items);
    reveal(grammar::program_item);
    let mut cur = input;
    let mut all = list;
    loop
        invariant
            grammar::program_items(cur@, trees(all@)) == grammar::program_items(
                input@,
                trees(list@),
            ),
            cur@.len() <= input@.len(),
        decreases cur@.len(),
    {
        proof {
            reveal(grammar::program_items);
            reveal(grammar::program_item);
        }
        match program_item(cur) {
            Ok((rest, node)) => {
                all = with(all, node);
                cur = rest;
            },
            Err(ParseError::Mismatch) => {
                return Ok((cur, all));
            },
            Err(e) => {
                return Err(e);
            },
        }
    }
}

/// `program ::= program_item+`
pub fn program(input: &str) -> (r: Result<(&str, Node), ParseError>)
    ensures
        parsed(r) == grammar::program(input@),
        advances(r, input@),
    decreases input@.len(), 20nat,
{
    reveal(grammar::program);
    reveal(grammar::program_item);
    reveal(grammar::program_items);
    let (after, first) = match program_item(input) {
        Ok(found) => found,
        Err(e) => {
            return Err(e);
        },
    };
    match program_items(after, single(first)) {
        Ok((rest, children)) => Ok((rest, Node::Program { children })),
        Err(e) => Err(e),
    }
}

} // verus!
