//! The grammar of the language.
//!
//! Each rule is a mathematical function from the input text to what the
//! rule makes of it: the text that is left and the tree, or the reason why
//! the rule does not apply.  Alternatives are tried in the order written and
//! the first that matches is taken; a repetition takes as many items as
//! match.  The executable parser is proved to compute exactly these
//! functions.
//!
//! Every rule consumes at least one character where it succeeds.  The
//! conditions `shorter(..)` below say so where a rule goes on after a part
//! of itself; they never fail (`spacing::law_rules_consume`), and they let
//! the definitions be seen to terminate.
//!
//! The rules that refer to one another are opaque, so that a proof unfolds
//! only those that it names with `reveal`.

use crate::ast::Tree;
use crate::tokens::{alnum_run, digit_run, is_alnum, leading, ParseError};
use vstd::prelude::*;

verus! {

/// What a rule makes of an input: the rest of the input and the tree.
pub type Parsed = Result<(Seq<char>, Tree), ParseError>;

/// What a repeated rule makes of an input: the rest of the input and the
/// trees, in order.
pub type ParsedMany = Result<(Seq<char>, Seq<Tree>), ParseError>;

/// `r` is shorter than `s`.
pub open spec fn shorter(r: Seq<char>, s: Seq<char>) -> bool {
    r.len() < s.len()
}

/// The input after `literal`, where it starts with it.
pub open spec fn expect(s: Seq<char>, literal: Seq<char>) -> Option<Seq<char>> {
    if literal.is_prefix_of(s) {
        Some(s.skip(literal.len() as int))
    } else {
        None
    }
}

/// The input without its leading characters of `class`.
pub open spec fn strip(s: Seq<char>, class: spec_fn(char) -> bool) -> Seq<char> {
    s.skip(leading(s, class) as int)
}

/// The class that holds the space alone.
pub open spec fn space() -> spec_fn(char) -> bool {
    |c: char| c == ' '
}

/// The class of the space and the tab.
pub open spec fn blank() -> spec_fn(char) -> bool {
    |c: char| c == ' ' || c == '\t'
}

/// The class that holds the line feed alone.
pub open spec fn newline() -> spec_fn(char) -> bool {
    |c: char| c == '\n'
}

/// The class of the line feed and the space.
pub open spec fn pad() -> spec_fn(char) -> bool {
    |c: char| c == '\n' || c == ' '
}

/// The class of the space, the tab and the line feed.
pub open spec fn white() -> spec_fn(char) -> bool {
    |c: char| c == ' ' || c == '\t' || c == '\n'
}

/// The class of the characters of a string literal: ASCII letters, digits
/// and the space.
pub open spec fn textual() -> spec_fn(char) -> bool {
    |c: char| is_alnum(c) || c == ' '
}

/// The input without leading spaces.
pub open spec fn spaces(s: Seq<char>) -> Seq<char> {
    strip(s, space())
}

/// The input without leading spaces and tabs.
pub open spec fn blanks(s: Seq<char>) -> Seq<char> {
    strip(s, blank())
}

/// The input without leading line feeds.
pub open spec fn newlines(s: Seq<char>) -> Seq<char> {
    strip(s, newline())
}

/// The input without leading line feeds and spaces.
pub open spec fn padding(s: Seq<char>) -> Seq<char> {
    strip(s, pad())
}

/// The input without leading spaces, tabs and line feeds.
pub open spec fn whitespace(s: Seq<char>) -> Seq<char> {
    strip(s, white())
}

/// The number that a sequence of decimal digits denotes.
pub open spec fn decimal(digits: Seq<char>) -> int
    decreases digits.len(),
{
    if digits.len() == 0 {
        0
    } else {
        decimal(digits.drop_last()) * 10 + (digits.last() as int - '0' as int)
    }
}

/// The tree of `head operator operand`, where `tail` holds the operator and
/// the operand.
pub open spec fn join(head: Tree, tail: Tree) -> Tree {
    match tail {
        Tree::MathExpression { name, children } => Tree::MathExpression {
            name,
            children: seq![head] + children,
        },
        _ => head,
    }
}

// ---------------------------------------------------------------------------
// Atoms
// ---------------------------------------------------------------------------

/// `identifier ::= alnum+`
pub open spec fn identifier(s: Seq<char>) -> Parsed {
    let n = alnum_run(s) as int;
    if n > 0 {
        Ok((s.skip(n), Tree::Identifier { value: s.take(n) }))
    } else {
        Err(ParseError::Mismatch)
    }
}

/// `number ::= digit+`, denoting a signed 32-bit integer.  Digits that
/// denote a greater number stop the whole parse.
pub open spec fn number(s: Seq<char>) -> Parsed {
    let n = digit_run(s) as int;
    if n == 0 {
        Err(ParseError::Mismatch)
    } else if decimal(s.take(n)) > i32::MAX {
        Err(ParseError::NumberOutOfRange)
    } else {
        Ok((s.skip(n), Tree::Number { value: decimal(s.take(n)) as i32 }))
    }
}

/// `boolean ::= "true" | "false"`
pub open spec fn boolean(s: Seq<char>) -> Parsed {
    match expect(s, "true"@) {
        Some(rest) => Ok((rest, Tree::Bool { value: true })),
        None => match expect(s, "false"@) {
            Some(rest) => Ok((rest, Tree::Bool { value: false })),
            None => Err(ParseError::Mismatch),
        },
    }
}

/// `string ::= '"' (alnum | " ")+ '"'`
pub open spec fn string(s: Seq<char>) -> Parsed {
    match expect(s, "\""@) {
        Some(body) => {
            let n = leading(body, textual()) as int;
            if n > 0 {
                match expect(body.skip(n), "\""@) {
                    Some(rest) => Ok((rest, Tree::String { value: body.take(n) })),
                    None => Err(ParseError::Mismatch),
                }
            } else {
                Err(ParseError::Mismatch)
            }
        },
        None => Err(ParseError::Mismatch),
    }
}

/// `conditional_operator ::= "<=" | ">=" | "==" | "!=" | "<" | ">"`
pub open spec fn conditional_operator(s: Seq<char>) -> Parsed {
    match expect(s, "<="@) {
        Some(rest) => Ok((rest, Tree::ConditionalOperator { value: "<="@ })),
        None => match expect(s, ">="@) {
            Some(rest) => Ok((rest, Tree::ConditionalOperator { value: ">="@ })),
            None => match expect(s, "=="@) {
                Some(rest) => Ok((rest, Tree::ConditionalOperator { value: "=="@ })),
                None => match expect(s, "!="@) {
                    Some(rest) => Ok((rest, Tree::ConditionalOperator { value: "!="@ })),
                    None => match expect(s, "<"@) {
                        Some(rest) => Ok((rest, Tree::ConditionalOperator { value: "<"@ })),
                        None => match expect(s, ">"@) {
                            Some(rest) => Ok((rest, Tree::ConditionalOperator { value: ">"@ })),
                            None => Err(ParseError::Mismatch),
                        },
                    },
                },
            },
        },
    }
}

// ---------------------------------------------------------------------------
// Expressions
// ---------------------------------------------------------------------------

/// `function_call ::= alnum+ "(" arguments? ")"`
#[verifier::opaque]
pub open spec fn function_call(s: Seq<char>) -> Parsed
    decreases s.len(), 0nat,
{
    let n = alnum_run(s) as int;
    if n > 0 {
        match expect(s.skip(n), "("@) {
            Some(inner) => if shorter(inner, s) {
                match arguments(inner) {
                    Ok((after, list)) => match expect(after, ")"@) {
                        Some(rest) => Ok(
                            (rest, Tree::FunctionCall { name: s.take(n), children: seq![list] }),
                        ),
                        None => Err(ParseError::Mismatch),
                    },
                    Err(ParseError::Mismatch) => match expect(inner, ")"@) {
                        Some(rest) => Ok(
                            (rest, Tree::FunctionCall { name: s.take(n), children: seq![] }),
                        ),
                        None => Err(ParseError::Mismatch),
                    },
                    Err(e) => Err(e),
                }
            } else {
                Err(ParseError::Mismatch)
            },
            None => Err(ParseError::Mismatch),
        }
    } else {
        Err(ParseError::Mismatch)
    }
}

/// `parenthetical ::= " "* "(" " "* l1 " "* ")" " "*`
#[verifier::opaque]
pub open spec fn parenthetical_expression(s: Seq<char>) -> Parsed
    decreases s.len(), 0nat,
{
    match expect(spaces(s), "("@) {
        Some(opened) => {
            let inner = spaces(opened);
            if shorter(inner, s) {
                match l1(inner) {
                    Ok((after, tree)) => match expect(spaces(after), ")"@) {
                        Some(closed) => Ok((spaces(closed), tree)),
                        None => Err(ParseError::Mismatch),
                    },
                    Err(e) => Err(e),
                }
            } else {
                Err(ParseError::Mismatch)
            }
        },
        None => Err(ParseError::Mismatch),
    }
}

/// `l4 ::= function_call | number | identifier | parenthetical`
#[verifier::opaque]
pub open spec fn l4(s: Seq<char>) -> Parsed
    decreases s.len(), 1nat,
{
    match function_call(s) {
        Err(ParseError::Mismatch) => match number(s) {
            Err(ParseError::Mismatch) => match identifier(s) {
                Err(ParseError::Mismatch) => parenthetical_expression(s),
                other => other,
            },
            other => other,
        },
        other => other,
    }
}

/// `l3_infix ::= " "* "^" " "* l4`; the tree holds the operator and the
/// right operand.
#[verifier::opaque]
pub open spec fn l3_infix(s: Seq<char>) -> Parsed
    decreases s.len(), 0nat,
{
    match expect(spaces(s), "^"@) {
        Some(after) => {
            let right = spaces(after);
            if shorter(right, s) {
                match l4(right) {
                    Ok((rest, operand)) => Ok(
                        (rest, Tree::MathExpression { name: "^"@, children: seq![operand] }),
                    ),
                    Err(e) => Err(e),
                }
            } else {
                Err(ParseError::Mismatch)
            }
        },
        None => Err(ParseError::Mismatch),
    }
}

/// The repetition in `l3`: folds each further `l3_infix` onto `head`.
#[verifier::opaque]
pub open spec fn l3_tail(s: Seq<char>, head: Tree) -> Parsed
    decreases s.len(), 1nat,
{
    match l3_infix(s) {
        Ok((rest, tail)) => if shorter(rest, s) {
            l3_tail(rest, join(head, tail))
        } else {
            Err(ParseError::Mismatch)
        },
        Err(ParseError::Mismatch) => Ok((s, head)),
        Err(e) => Err(e),
    }
}

/// `l3 ::= l4 l3_infix*`, associating to the left.
#[verifier::opaque]
pub open spec fn l3(s: Seq<char>) -> Parsed
    decreases s.len(), 2nat,
{
    match l4(s) {
        Ok((rest, head)) => if shorter(rest, s) {
            l3_tail(rest, head)
        } else {
            Err(ParseError::Mismatch)
        },
        Err(e) => Err(e),
    }
}

/// `l2_infix ::= " "* ("*" | "/") " "* l3`; the tree holds the operator and
/// the right operand.
#[verifier::opaque]
pub open spec fn l2_infix(s: Seq<char>) -> Parsed
    decreases s.len(), 0nat,
{
    let start = spaces(s);
    let operator = match expect(start, "*"@) {
        Some(after) => Some(("*"@, after)),
        None => match expect(start, "/"@) {
            Some(after) => Some(("/"@, after)),
            None => None,
        },
    };
    match operator {
        Some((name, after)) => {
            let right = spaces(after);
            if shorter(right, s) {
                match l3(right) {
                    Ok((rest, operand)) => Ok(
                        (rest, Tree::MathExpression { name, children: seq![operand] }),
                    ),
                    Err(e) => Err(e),
                }
            } else {
                Err(ParseError::Mismatch)
            }
        },
        None => Err(ParseError::Mismatch),
    }
}

/// The repetition in `l2`: folds each further `l2_infix` onto `head`.
#[verifier::opaque]
pub open spec fn l2_tail(s: Seq<char>, head: Tree) -> Parsed
    decreases s.len(), 1nat,
{
    match l2_infix(s) {
        Ok((rest, tail)) => if shorter(rest, s) {
            l2_tail(rest, join(head, tail))
        } else {
            Err(ParseError::Mismatch)
        },
        Err(ParseError::Mismatch) => Ok((s, head)),
        Err(e) => Err(e),
    }
}

/// `l2 ::= l3 l2_infix*`, associating to the left.
#[verifier::opaque]
pub open spec fn l2(s: Seq<char>) -> Parsed
    decreases s.len(), 3nat,
{
    match l3(s) {
        Ok((rest, head)) => if shorter(rest, s) {
            l2_tail(rest, head)
        } else {
            Err(ParseError::Mismatch)
        },
        Err(e) => Err(e),
    }
}

/// `l1_infix ::= " "* ("+" | "-") " "* l2`; the tree holds the operator and
/// the right operand.
#[verifier::opaque]
pub open spec fn l1_infix(s: Seq<char>) -> Parsed
    decreases s.len(), 0nat,
{
    let start = spaces(s);
    let operator = match expect(start, "+"@) {
        Some(after) => Some(("+"@, after)),
        None => match expect(start, "-"@) {
            Some(after) => Some(("-"@, after)),
            None => None,
        },
    };
    match operator {
        Some((name, after)) => {
            let right = spaces(after);
            if shorter(right, s) {
                match l2(right) {
                    Ok((rest, operand)) => Ok(
                        (rest, Tree::MathExpression { name, children: seq![operand] }),
                    ),
                    Err(e) => Err(e),
                }
            } else {
                Err(ParseError::Mismatch)
            }
        },
        None => Err(ParseError::Mismatch),
    }
}

/// The repetition in `l1`: folds each further `l1_infix` onto `head`.
#[verifier::opaque]
pub open spec fn l1_tail(s: Seq<char>, head: Tree) -> Parsed
    decreases s.len(), 1nat,
{
    match l1_infix(s) {
        Ok((rest, tail)) => if shorter(rest, s) {
            l1_tail(rest, join(head, tail))
        } else {
            Err(ParseError::Mismatch)
        },
        Err(ParseError::Mismatch) => Ok((s, head)),
        Err(e) => Err(e),
    }
}

/// `l1 ::= l2 l1_infix*`, associating to the left.
#[verifier::opaque]
pub open spec fn l1(s: Seq<char>) -> Parsed
    decreases s.len(), 4nat,
{
    match l2(s) {
        Ok((rest, head)) => if shorter(rest, s) {
            l1_tail(rest, head)
        } else {
            Err(ParseError::Mismatch)
        },
        Err(e) => Err(e),
    }
}

/// `math_expression ::= l1`
#[verifier::opaque]
pub open spec fn math_expression(s: Seq<char>) -> Parsed
    decreases s.len(), 5nat,
{
    l1(s)
}

/// `expression ::= boolean | math_expression | function_call | string`,
/// wrapped in an expression node.
#[verifier::opaque]
pub open spec fn expression(s: Seq<char>) -> Parsed
    decreases s.len(), 6nat,
{
    let inner = match boolean(s) {
        Err(ParseError::Mismatch) => match math_expression(s) {
            Err(ParseError::Mismatch) => match function_call(s) {
                Err(ParseError::Mismatch) => string(s),
                other => other,
            },
            other => other,
        },
        other => other,
    };
    match inner {
        Ok((rest, tree)) => Ok((rest, Tree::Expression { children: seq![tree] })),
        Err(e) => Err(e),
    }
}

/// `other_arg ::= "," expression`
#[verifier::opaque]
pub open spec fn other_arg(s: Seq<char>) -> Parsed
    decreases s.len(), 0nat,
{
    match expect(s, ","@) {
        Some(after) => if shorter(after, s) {
            expression(after)
        } else {
            Err(ParseError::Mismatch)
        },
        None => Err(ParseError::Mismatch),
    }
}

/// The repetition in `arguments`: each further `other_arg` after `list`.
#[verifier::opaque]
pub open spec fn other_args(s: Seq<char>, list: Seq<Tree>) -> ParsedMany
    decreases s.len(), 1nat,
{
    match other_arg(s) {
        Ok((rest, tree)) => if shorter(rest, s) {
            other_args(rest, list.push(tree))
        } else {
            Err(ParseError::Mismatch)
        },
        Err(ParseError::Mismatch) => Ok((s, list)),
        Err(e) => Err(e),
    }
}

/// `arguments ::= expression other_arg*`
#[verifier::opaque]
pub open spec fn arguments(s: Seq<char>) -> Parsed
    decreases s.len(), 7nat,
{
    match expression(s) {
        Ok((rest, first)) => if shorter(rest, s) {
            match other_args(rest, seq![first]) {
                Ok((rest, list)) => Ok((rest, Tree::FunctionArguments { children: list })),
                Err(e) => Err(e),
            }
        } else {
            Err(ParseError::Mismatch)
        },
        Err(e) => Err(e),
    }
}

// ---------------------------------------------------------------------------
// Comparisons
// ---------------------------------------------------------------------------

/// `conditional_val ::= boolean | math_expression | number | identifier`,
/// wrapped in a comparand node.
#[verifier::opaque]
pub open spec fn conditional_val(s: Seq<char>) -> Parsed
    decreases s.len(), 6nat,
{
    let inner = match boolean(s) {
        Err(ParseError::Mismatch) => match math_expression(s) {
            Err(ParseError::Mismatch) => match number(s) {
                Err(ParseError::Mismatch) => identifier(s),
                other => other,
            },
            other => other,
        },
        other => other,
    };
    match inner {
        Ok((rest, tree)) => Ok((rest, Tree::ConditionalValue { children: seq![tree] })),
        Err(e) => Err(e),
    }
}

/// `" "* conditional_operator " "* conditional_val`: the operator and the
/// comparand after it.
#[verifier::opaque]
pub open spec fn comparison_pair(s: Seq<char>) -> ParsedMany
    decreases s.len(), 7nat,
{
    match conditional_operator(spaces(s)) {
        Ok((after, operator)) => {
            let right = spaces(after);
            if shorter(right, s) {
                match conditional_val(right) {
                    Ok((rest, value)) => Ok((rest, seq![operator, value])),
                    Err(e) => Err(e),
                }
            } else {
                Err(ParseError::Mismatch)
            }
        },
        Err(e) => Err(e),
    }
}

/// The repetition in `conditional_exp`: each further pair after `list`.
#[verifier::opaque]
pub open spec fn comparison_pairs(s: Seq<char>, list: Seq<Tree>) -> ParsedMany
    decreases s.len(), 8nat,
{
    match comparison_pair(s) {
        Ok((rest, pair)) => if shorter(rest, s) {
            comparison_pairs(rest, list + pair)
        } else {
            Err(ParseError::Mismatch)
        },
        Err(ParseError::Mismatch) => Ok((s, list)),
        Err(e) => Err(e),
    }
}

/// `conditional_exp ::= conditional_val (" "* conditional_operator " "*
/// conditional_val)+`
#[verifier::opaque]
pub open spec fn conditional_exp(s: Seq<char>) -> Parsed
    decreases s.len(), 9nat,
{
    match conditional_val(s) {
        Ok((after, left)) => if shorter(after, s) {
            match comparison_pair(after) {
                Ok((rest, pair)) => if shorter(rest, s) {
                    match comparison_pairs(rest, seq![left] + pair) {
                        Ok((rest, list)) => Ok(
                            (rest, Tree::ConditionalExpression { children: list }),
                        ),
                        Err(e) => Err(e),
                    }
                } else {
                    Err(ParseError::Mismatch)
                },
                Err(e) => Err(e),
            }
        } else {
            Err(ParseError::Mismatch)
        },
        Err(e) => Err(e),
    }
}

// ---------------------------------------------------------------------------
// Statements
// ---------------------------------------------------------------------------

/// `variable_define ::= "let " identifier " "* "=" " "* expression`
#[verifier::opaque]
pub open spec fn variable_define(s: Seq<char>) -> Parsed
    decreases s.len(), 0nat,
{
    match expect(s, "let "@) {
        Some(after) => match identifier(after) {
            Ok((after_name, name)) => match expect(spaces(after_name), "="@) {
                Some(after_sign) => {
                    let right = spaces(after_sign);
                    if shorter(right, s) {
                        match expression(right) {
                            Ok((rest, value)) => Ok(
                                (rest, Tree::VariableDefine { children: seq![name, value] }),
                            ),
                            Err(e) => Err(e),
                        }
                    } else {
                        Err(ParseError::Mismatch)
                    }
                },
                None => Err(ParseError::Mismatch),
            },
            Err(e) => Err(e),
        },
        None => Err(ParseError::Mismatch),
    }
}

/// `function_return ::= "return " (function_call | expression | identifier)`
#[verifier::opaque]
pub open spec fn function_return(s: Seq<char>) -> Parsed
    decreases s.len(), 0nat,
{
    match expect(s, "return "@) {
        Some(after) => if shorter(after, s) {
            let value = match function_call(after) {
                Err(ParseError::Mismatch) => match expression(after) {
                    Err(ParseError::Mismatch) => identifier(after),
                    other => other,
                },
                other => other,
            };
            match value {
                Ok((rest, tree)) => Ok((rest, Tree::FunctionReturn { children: seq![tree] })),
                Err(e) => Err(e),
            }
        } else {
            Err(ParseError::Mismatch)
        },
        None => Err(ParseError::Mismatch),
    }
}

/// The end of a statement after its content: `";" " "* "\n"*`.
pub open spec fn terminator(s: Seq<char>) -> Option<Seq<char>> {
    match expect(s, ";"@) {
        Some(after) => Some(newlines(spaces(after))),
        None => None,
    }
}

/// `statement ::= (" " | "\t")* variable_define ";" " "* "\n"*`, wrapped in
/// a statement node.
#[verifier::opaque]
pub open spec fn statement(s: Seq<char>) -> Parsed
    decreases s.len(), 1nat,
{
    let start = blanks(s);
    if start.len() <= s.len() {
        match variable_define(start) {
            Ok((after, definition)) => match terminator(after) {
                Some(rest) => Ok((rest, Tree::Statement { children: seq![definition] })),
                None => Err(ParseError::Mismatch),
            },
            Err(e) => Err(e),
        }
    } else {
        Err(ParseError::Mismatch)
    }
}

/// A return in a function body: `(" " | "\t")* function_return ";" " "*
/// "\n"*`, wrapped in a statement node.
#[verifier::opaque]
pub open spec fn return_statement(s: Seq<char>) -> Parsed
    decreases s.len(), 1nat,
{
    let start = blanks(s);
    if start.len() <= s.len() {
        match function_return(start) {
            Ok((after, value)) => match terminator(after) {
                Some(rest) => Ok((rest, Tree::Statement { children: seq![value] })),
                None => Err(ParseError::Mismatch),
            },
            Err(e) => Err(e),
        }
    } else {
        Err(ParseError::Mismatch)
    }
}

/// One item of a function body: `statement | return_statement`.
#[verifier::opaque]
pub open spec fn body_item(s: Seq<char>) -> Parsed
    decreases s.len(), 2nat,
{
    match statement(s) {
        Err(ParseError::Mismatch) => return_statement(s),
        other => other,
    }
}

/// `body_item*` after `list`.
#[verifier::opaque]
pub open spec fn body_items(s: Seq<char>, list: Seq<Tree>) -> ParsedMany
    decreases s.len(), 3nat,
{
    match body_item(s) {
        Ok((rest, tree)) => if shorter(rest, s) {
            body_items(rest, list.push(tree))
        } else {
            Err(ParseError::Mismatch)
        },
        Err(ParseError::Mismatch) => Ok((s, list)),
        Err(e) => Err(e),
    }
}

/// `statement*` after `list`.
#[verifier::opaque]
pub open spec fn statements(s: Seq<char>, list: Seq<Tree>) -> ParsedMany
    decreases s.len(), 3nat,
{
    match statement(s) {
        Ok((rest, tree)) => if shorter(rest, s) {
            statements(rest, list.push(tree))
        } else {
            Err(ParseError::Mismatch)
        },
        Err(ParseError::Mismatch) => Ok((s, list)),
        Err(e) => Err(e),
    }
}

/// `function_return*` after `list`.
#[verifier::opaque]
pub open spec fn more_returns(s: Seq<char>, list: Seq<Tree>) -> ParsedMany
    decreases s.len(), 3nat,
{
    match function_return(s) {
        Ok((rest, tree)) => if shorter(rest, s) {
            more_returns(rest, list.push(tree))
        } else {
            Err(ParseError::Mismatch)
        },
        Err(ParseError::Mismatch) => Ok((s, list)),
        Err(e) => Err(e),
    }
}

// ---------------------------------------------------------------------------
// Conditionals
// ---------------------------------------------------------------------------

/// The inside of a conditional block and its end, after `list`:
/// `ws statement* ws function_return+ ";" ws "}" ws`, where `ws` is any run
/// of spaces, tabs and line feeds.
#[verifier::opaque]
pub open spec fn block(s: Seq<char>, list: Seq<Tree>) -> ParsedMany
    decreases s.len(), 5nat,
{
    let start = whitespace(s);
    if start.len() <= s.len() {
        match statements(start, list) {
            Ok((after, list)) => {
                let value = whitespace(after);
                if value.len() <= s.len() {
                    match function_return(value) {
                        Ok((after, first)) => if shorter(after, s) {
                            match more_returns(after, list.push(first)) {
                                Ok((after, list)) => match expect(after, ";"@) {
                                    Some(after) => match expect(whitespace(after), "}"@) {
                                        Some(closed) => Ok((whitespace(closed), list)),
                                        None => Err(ParseError::Mismatch),
                                    },
                                    None => Err(ParseError::Mismatch),
                                },
                                Err(e) => Err(e),
                            }
                        } else {
                            Err(ParseError::Mismatch)
                        },
                        Err(e) => Err(e),
                    }
                } else {
                    Err(ParseError::Mismatch)
                }
            },
            Err(e) => Err(e),
        }
    } else {
        Err(ParseError::Mismatch)
    }
}

/// A branch with a condition, after its keyword: `" "* conditional_exp " "*
/// "{" block`.  The children are the condition, the statements and the
/// return nodes.
#[verifier::opaque]
pub open spec fn guarded_block(s: Seq<char>) -> ParsedMany
    decreases s.len(), 10nat,
{
    let start = spaces(s);
    if start.len() <= s.len() {
        match conditional_exp(start) {
            Ok((after, condition)) => match expect(spaces(after), "{"@) {
                Some(opened) => if shorter(opened, s) {
                    block(opened, seq![condition])
                } else {
                    Err(ParseError::Mismatch)
                },
                None => Err(ParseError::Mismatch),
            },
            Err(e) => Err(e),
        }
    } else {
        Err(ParseError::Mismatch)
    }
}

/// `if ::= "if " " "* conditional_exp " "* "{" block`
#[verifier::opaque]
pub open spec fn if_statement(s: Seq<char>) -> Parsed
    decreases s.len(), 0nat,
{
    match expect(s, "if "@) {
        Some(after) => if shorter(after, s) {
            match guarded_block(after) {
                Ok((rest, children)) => Ok((rest, Tree::IfStatement { children })),
                Err(e) => Err(e),
            }
        } else {
            Err(ParseError::Mismatch)
        },
        None => Err(ParseError::Mismatch),
    }
}

/// `else_if ::= "else if " " "* conditional_exp " "* "{" block`
#[verifier::opaque]
pub open spec fn else_if(s: Seq<char>) -> Parsed
    decreases s.len(), 0nat,
{
    match expect(s, "else if "@) {
        Some(after) => if shorter(after, s) {
            match guarded_block(after) {
                Ok((rest, children)) => Ok((rest, Tree::ElseIfStatement { children })),
                Err(e) => Err(e),
            }
        } else {
            Err(ParseError::Mismatch)
        },
        None => Err(ParseError::Mismatch),
    }
}

/// `else ::= "else " "{" block`
#[verifier::opaque]
pub open spec fn else_statement(s: Seq<char>) -> Parsed
    decreases s.len(), 0nat,
{
    match expect(s, "else "@) {
        Some(after) => match expect(after, "{"@) {
            Some(opened) => if shorter(opened, s) {
                match block(opened, seq![]) {
                    Ok((rest, children)) => Ok((rest, Tree::ElseStatement { children })),
                    Err(e) => Err(e),
                }
            } else {
                Err(ParseError::Mismatch)
            },
            None => Err(ParseError::Mismatch),
        },
        None => Err(ParseError::Mismatch),
    }
}

/// `else_if*` after `list`.
#[verifier::opaque]
pub open spec fn else_ifs(s: Seq<char>, list: Seq<Tree>) -> ParsedMany
    decreases s.len(), 1nat,
{
    match else_if(s) {
        Ok((rest, tree)) => if shorter(rest, s) {
            else_ifs(rest, list.push(tree))
        } else {
            Err(ParseError::Mismatch)
        },
        Err(ParseError::Mismatch) => Ok((s, list)),
        Err(e) => Err(e),
    }
}

/// `else*` after `list`.
#[verifier::opaque]
pub open spec fn elses(s: Seq<char>, list: Seq<Tree>) -> ParsedMany
    decreases s.len(), 1nat,
{
    match else_statement(s) {
        Ok((rest, tree)) => if shorter(rest, s) {
            elses(rest, list.push(tree))
        } else {
            Err(ParseError::Mismatch)
        },
        Err(ParseError::Mismatch) => Ok((s, list)),
        Err(e) => Err(e),
    }
}

/// `if_else_statements ::= if else_if* else+`
#[verifier::opaque]
pub open spec fn if_else_statements(s: Seq<char>) -> Parsed
    decreases s.len(), 12nat,
{
    match if_statement(s) {
        Ok((after, first)) => if shorter(after, s) {
            match else_ifs(after, seq![first]) {
                Ok((after, list)) => if shorter(after, s) {
                    match else_statement(after) {
                        Ok((after, last)) => if shorter(after, s) {
                            match elses(after, list.push(last)) {
                                Ok((rest, list)) => Ok(
                                    (rest, Tree::IfElseStatements { children: list }),
                                ),
                                Err(e) => Err(e),
                            }
                        } else {
                            Err(ParseError::Mismatch)
                        },
                        Err(e) => Err(e),
                    }
                } else {
                    Err(ParseError::Mismatch)
                },
                Err(e) => Err(e),
            }
        } else {
            Err(ParseError::Mismatch)
        },
        Err(e) => Err(e),
    }
}

// ---------------------------------------------------------------------------
// Functions and programs
// ---------------------------------------------------------------------------

/// `arguments?` after `list`.
#[verifier::opaque]
pub open spec fn optional_arguments(s: Seq<char>, list: Seq<Tree>) -> ParsedMany
    decreases s.len(), 8nat,
{
    match arguments(s) {
        Ok((rest, tree)) => Ok((rest, list.push(tree))),
        Err(ParseError::Mismatch) => Ok((s, list)),
        Err(e) => Err(e),
    }
}

/// The body of a function definition and its end, after `list`:
/// `" "* "{" "\n"* body_item+ "}" ("\n" | " ")*`.
#[verifier::opaque]
pub open spec fn function_body(s: Seq<char>, list: Seq<Tree>) -> ParsedMany
    decreases s.len(), 5nat,
{
    match expect(spaces(s), "{"@) {
        Some(opened) => {
            let start = newlines(opened);
            if shorter(start, s) {
                match body_item(start) {
                    Ok((after, first)) => if shorter(after, s) {
                        match body_items(after, list.push(first)) {
                            Ok((after, list)) => match expect(after, "}"@) {
                                Some(closed) => Ok((padding(closed), list)),
                                None => Err(ParseError::Mismatch),
                            },
                            Err(e) => Err(e),
                        }
                    } else {
                        Err(ParseError::Mismatch)
                    },
                    Err(e) => Err(e),
                }
            } else {
                Err(ParseError::Mismatch)
            }
        },
        None => Err(ParseError::Mismatch),
    }
}

/// `function_definition ::= "fn " identifier "(" arguments? ")" " "* "{"
/// "\n"* body_item+ "}" ("\n" | " ")*`.  The children are the name, the
/// argument list where there is one, and the items of the body.
#[verifier::opaque]
pub open spec fn function_definition(s: Seq<char>) -> Parsed
    decreases s.len(), 0nat,
{
    match expect(s, "fn "@) {
        Some(after) => match identifier(after) {
            Ok((after_name, name)) => match expect(after_name, "("@) {
                Some(inner) => if shorter(inner, s) {
                    match optional_arguments(inner, seq![name]) {
                        Ok((after, list)) => match expect(after, ")"@) {
                            Some(closed) => if shorter(closed, s) {
                                match function_body(closed, list) {
                                    Ok((rest, children)) => Ok(
                                        (rest, Tree::FunctionDefine { children }),
                                    ),
                                    Err(e) => Err(e),
                                }
                            } else {
                                Err(ParseError::Mismatch)
                            },
                            None => Err(ParseError::Mismatch),
                        },
                        Err(e) => Err(e),
                    }
                } else {
                    Err(ParseError::Mismatch)
                },
                None => Err(ParseError::Mismatch),
            },
            Err(e) => Err(e),
        },
        None => Err(ParseError::Mismatch),
    }
}

/// One top-level item: `function_definition | if_else_statements |
/// function_call | statement | variable_define | conditional_exp |
/// expression`.
#[verifier::opaque]
pub open spec fn program_item(s: Seq<char>) -> Parsed
    decreases s.len(), 18nat,
{
    match function_definition(s) {
        Err(ParseError::Mismatch) => match if_else_statements(s) {
            Err(ParseError::Mismatch) => match function_call(s) {
                Err(ParseError::Mismatch) => match statement(s) {
                    Err(ParseError::Mismatch) => match variable_define(s) {
                        Err(ParseError::Mismatch) => match conditional_exp(s) {
                            Err(ParseError::Mismatch) => expression(s),
                            other => other,
                        },
                        other => other,
                    },
                    other => other,
                },
                other => other,
            },
            other => other,
        },
        other => other,
    }
}

/// `program_item*` after `list`.
#[verifier::opaque]
pub open spec fn program_items(s: Seq<char>, list: Seq<Tree>) -> ParsedMany
    decreases s.len(), 19nat,
{
    match program_item(s) {
        Ok((rest, tree)) => if shorter(rest, s) {
            program_items(rest, list.push(tree))
        } else {
            Err(ParseError::Mismatch)
        },
        Err(ParseError::Mismatch) => Ok((s, list)),
        Err(e) => Err(e),
    }
}

/// `program ::= program_item+`
#[verifier::opaque]
pub open spec fn program(s: Seq<char>) -> Parsed
    decreases s.len(), 20nat,
{
    match program_item(s) {
        Ok((rest, first)) => if shorter(rest, s) {
            match program_items(rest, seq![first]) {
                Ok((rest, list)) => Ok((rest, Tree::Program { children: list })),
                Err(e) => Err(e),
            }
        } else {
            Err(ParseError::Mismatch)
        },
        Err(e) => Err(e),
    }
}

} // verus!
