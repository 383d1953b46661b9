//! Laws of the language, proved of the definitions in [`crate::grammar`] and
//! [`crate::semantics`].

use crate::ast::Tree;
use crate::entry::{run_result, Failure};
use crate::grammar;
use crate::semantics::{
    enter, eval, eval_arguments, eval_body, eval_call, first_statement, parameters, Machine, Step,
};
use crate::value::Datum;
use vstd::prelude::*;

verus! {

/// A pure arithmetic expression: a number, an arithmetic node over pure
/// arithmetic expressions, or an expression node around them.
pub open spec fn is_arithmetic(t: Tree) -> bool
    decreases t,
{
    match t {
        Tree::Number { .. } => true,
        Tree::MathExpression { children, .. } => forall|i: int|
            0 <= i < children.len() ==> is_arithmetic(#[trigger] children[i]),
        Tree::Expression { children } => forall|i: int|
            0 <= i < children.len() ==> is_arithmetic(#[trigger] children[i]),
        _ => false,
    }
}

/// Evaluating a pure arithmetic expression gives the same result in every
/// machine and under every call budget, and leaves the machine as it was: its
/// value does not depend on what was evaluated before, nor on how often it
/// is evaluated.
pub proof fn law_arithmetic_is_pure(t: Tree, m1: Machine, d1: nat, m2: Machine, d2: nat)
    requires
        is_arithmetic(t),
    ensures
        eval(t, m1, d1).result == eval(t, m2, d2).result,
        eval(t, m1, d1).machine == m1,
    decreases t,
{
    match t {
        Tree::MathExpression { name, children } => {
            if children.len() >= 2 {
                law_arithmetic_is_pure(children[0], m1, d1, m2, d2);
                law_arithmetic_is_pure(children[0], m2, d2, m1, d1);
                law_arithmetic_is_pure(children[1], m1, d1, m2, d2);
            }
        },
        Tree::Expression { children } => {
            if children.len() > 0 {
                law_arithmetic_is_pure(children[0], m1, d1, m2, d2);
            }
        },
        _ => {},
    }
}

/// Evaluating a body up to its last node and then that node is evaluating
/// the body.
proof fn lemma_body_ends_with_last(
    body: Seq<Tree>,
    from: int,
    last: Datum,
    machine: Machine,
    depth: nat,
)
    requires
        0 <= from < body.len(),
    ensures
        ({
            let before = eval_body(body.drop_last(), from, last, machine, depth);
            eval_body(body, from, last, machine, depth) == match before.result {
                Ok(_) => eval(body.last(), before.machine, depth),
                Err(_) => before,
            }
        }),
    decreases body.len() - from,
{
    let front = body.drop_last();
    if from + 1 < body.len() {
        assert(front[from] == body[from]);
        let step = eval(body[from], machine, depth);
        match step.result {
            Ok(v) => {
                lemma_body_ends_with_last(body, from + 1, v, step.machine, depth);
            },
            Err(_) => {},
        }
    } else {
        let step = eval(body[from], machine, depth);
        match step.result {
            Ok(v) => {
                assert(eval_body(body, from + 1, v, step.machine, depth) == Step {
                    result: Ok(v),
                    machine: step.machine,
                });
            },
            Err(_) => {},
        }
    }
}

/// A call yields what the last node of the function's body yields, evaluated
/// after the nodes before it; a `return` earlier in the body does not end
/// the call.  Where a node before the last one fails, the call fails as that
/// node does.
pub proof fn law_call_yields_last_node(
    name: Seq<char>,
    arguments: Seq<Tree>,
    machine: Machine,
    depth: nat,
)
    requires
        machine.functions.contains_key(name),
        depth > 0,
        first_statement(machine.functions[name]) < machine.functions[name].len(),
        eval_arguments(
            parameters(machine.functions[name]),
            arguments,
            0,
            Map::empty(),
            machine,
            depth,
        ).frame is Ok,
    ensures
        ({
            let body = machine.functions[name];
            let bound = eval_arguments(
                parameters(body),
                arguments,
                0,
                Map::empty(),
                machine,
                depth,
            );
            let before = eval_body(
                body.drop_last(),
                first_statement(body),
                Datum::Bool(true),
                enter(bound.frame->Ok_0, bound.machine),
                (depth - 1) as nat,
            );
            eval_call(name, arguments, machine, depth).result == match before.result {
                Ok(_) => eval(body.last(), before.machine, (depth - 1) as nat).result,
                Err(fault) => Err(fault),
            }
        }),
{
    let body = machine.functions[name];
    let bound = eval_arguments(parameters(body), arguments, 0, Map::empty(), machine, depth);
    lemma_body_ends_with_last(
        body,
        first_statement(body),
        Datum::Bool(true),
        enter(bound.frame->Ok_0, bound.machine),
        (depth - 1) as nat,
    );
}

/// Running a source text gives a value, or fails in the evaluation, only
/// where the program that was parsed left nothing of the text.
pub proof fn law_run_takes_whole_source(source: Seq<char>)
    ensures
        match run_result(source) {
            Ok(_) | Err(Failure::Runtime(_)) => match grammar::program(source) {
                Ok((rest, _)) => rest.len() == 0,
                Err(_) => false,
            },
            _ => true,
        },
{
}

} // verus!
