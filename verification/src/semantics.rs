//! The meaning of a syntax tree.
//!
//! [`eval`] is a total mathematical function from a tree, a machine state
//! and a call budget to a result and the state that evaluation leaves
//! behind.  The executable evaluator is proved to compute exactly this
//! function.

use crate::ast::Tree;
use crate::value::{Datum, Value};
use vstd::prelude::*;

verus! {

/// The deepest nesting of function calls that evaluation follows.
pub const MAX_CALL_DEPTH: usize = 128;

/// Why an evaluation stopped without a value.
#[derive(Debug, PartialEq, Eq, Clone, Copy)]
pub enum Fault {
    /// A call names a function that the table does not hold.
    UndefinedFunction,
    /// A name has no binding in the current frame.
    UndefinedVariable,
    /// An arithmetic node carries an operator other than `+ - * / ^`.
    UndefinedOperator,
    /// A comparison's operator is none of `< > <= >= == !=`.
    UnknownOperator,
    /// A statement or comparand wraps a node of the wrong kind.
    UnknownStatement,
    /// An expression or branch wraps a node of the wrong kind.
    UnknownExpression,
    /// An arithmetic operand is a string or a boolean.
    CannotDoMath,
    /// The two sides of a comparison are values of different kinds.
    CannotCompare,
    /// The node cannot be evaluated, or lacks a child that evaluation reads.
    UnhandledNode,
    /// The right operand of `/` is zero.
    DivisionByZero,
    /// A call passes fewer arguments than the function has parameters.
    MissingArgument,
    /// A variable is defined while no frame is on the stack.
    StackUnderflow,
    /// Calls nest deeper than [`MAX_CALL_DEPTH`].
    CallDepthExceeded,
}

impl Fault {
    /// The text under which the fault is reported.
    pub open spec fn text(self) -> Seq<char> {
        match self {
            Fault::UndefinedFunction => "Undefined function"@,
            Fault::UndefinedVariable => "Undefined variable"@,
            Fault::UndefinedOperator => "Undefined operator"@,
            Fault::UnknownOperator => "Unknown operator"@,
            Fault::UnknownStatement => "Unknown Statement"@,
            Fault::UnknownExpression => "Unknown Expression"@,
            Fault::CannotDoMath => "Cannot do math on String or Bool"@,
            Fault::CannotCompare => "Cannot compare these two values"@,
            Fault::UnhandledNode => "Unhandled Node"@,
            Fault::DivisionByZero => "Division by zero"@,
            Fault::MissingArgument => "Missing argument"@,
            Fault::StackUnderflow => "Stack underflow"@,
            Fault::CallDepthExceeded => "Call depth exceeded"@,
        }
    }

    /// The fault's text as a string.
    pub fn message(self) -> (s: String)
        ensures
            s@ == self.text(),
    {
        match self {
            Fault::UndefinedFunction => String::from_str("Undefined function"),
            Fault::UndefinedVariable => String::from_str("Undefined variable"),
            Fault::UndefinedOperator => String::from_str("Undefined operator"),
            Fault::UnknownOperator => String::from_str("Unknown operator"),
            Fault::UnknownStatement => String::from_str("Unknown Statement"),
            Fault::UnknownExpression => String::from_str("Unknown Expression"),
            Fault::CannotDoMath => String::from_str("Cannot do math on String or Bool"),
            Fault::CannotCompare => String::from_str("Cannot compare these two values"),
            Fault::UnhandledNode => String::from_str("Unhandled Node"),
            Fault::DivisionByZero => String::from_str("Division by zero"),
            Fault::MissingArgument => String::from_str("Missing argument"),
            Fault::StackUnderflow => String::from_str("Stack underflow"),
            Fault::CallDepthExceeded => String::from_str("Call depth exceeded"),
        }
    }
}

/// Whether an executable result is the given mathematical one.
pub open spec fn yields(r: Result<Value, Fault>, expected: Result<Datum, Fault>) -> bool {
    match (r, expected) {
        (Ok(v), Ok(d)) => v@ == d,
        (Err(e), Err(f)) => e == f,
        _ => false,
    }
}

/// Whether a result with a string-coded error is the given mathematical one.
pub open spec fn reports(r: Result<Value, String>, expected: Result<Datum, Fault>) -> bool {
    match (r, expected) {
        (Ok(v), Ok(d)) => v@ == d,
        (Err(e), Err(f)) => e@ == f.text(),
        _ => false,
    }
}

/// Whether an executable result and the state it left are those of `step`.
pub open spec fn matches_step(r: Result<Value, Fault>, after: Machine, step: Step) -> bool {
    yields(r, step.result) && after == step.machine
}

/// A frame: the variables of one activation.
pub type Frame = Map<Seq<char>, Datum>;

/// The function table: each name with the nodes registered under it.
pub type Table = Map<Seq<char>, Seq<Tree>>;

/// The state that evaluation reads and changes.
pub struct Machine {
    /// The registered functions.
    pub functions: Table,
    /// The frames of the active calls, the current one last.
    pub stack: Seq<Frame>,
}

/// What evaluating one node yields.
pub struct Step {
    /// The value, or the fault that stopped the evaluation.
    pub result: Result<Datum, Fault>,
    /// The state afterwards.
    pub machine: Machine,
}

/// Evaluation that ends with a value.
pub open spec fn done(value: Datum, machine: Machine) -> Step {
    Step { result: Ok(value), machine }
}

/// Evaluation that ends with a fault.
pub open spec fn fail(fault: Fault, machine: Machine) -> Step {
    Step { result: Err(fault), machine }
}

/// The call budget that a machine has left.
pub open spec fn budget(machine: Machine) -> nat {
    if machine.stack.len() >= MAX_CALL_DEPTH {
        0
    } else {
        (MAX_CALL_DEPTH - machine.stack.len()) as nat
    }
}

// ---------------------------------------------------------------------------
// Arithmetic
// ---------------------------------------------------------------------------

/// The signed 32-bit integer congruent to `x` modulo 2^32.
pub open spec fn wrap(x: int) -> i32 {
    let r = x % 0x1_0000_0000;
    if r > i32::MAX {
        (r - 0x1_0000_0000) as i32
    } else {
        r as i32
    }
}

/// `l / r` rounded toward zero, for `r != 0`.
pub open spec fn quotient(l: int, r: int) -> int {
    if l >= 0 && r > 0 {
        l / r
    } else if l >= 0 {
        -(l / (-r))
    } else if r > 0 {
        -((-l) / r)
    } else {
        (-l) / (-r)
    }
}

/// `base` multiplied by itself `exponent` times; 1 where `exponent <= 0`.
pub open spec fn power(base: int, exponent: int) -> int
    decreases exponent,
{
    if exponent <= 0 {
        1
    } else {
        base * power(base, exponent - 1)
    }
}

/// The result of the arithmetic operator `op` on two integers.  Results
/// outside the signed 32-bit range wrap around.
pub open spec fn arithmetic(op: Seq<char>, l: i32, r: i32) -> Result<Datum, Fault> {
    if op == "+"@ {
        Ok(Datum::Int(wrap(l + r)))
    } else if op == "-"@ {
        Ok(Datum::Int(wrap(l - r)))
    } else if op == "*"@ {
        Ok(Datum::Int(wrap(l * r)))
    } else if op == "/"@ {
        if r == 0 {
            Err(Fault::DivisionByZero)
        } else {
            Ok(Datum::Int(wrap(quotient(l as int, r as int))))
        }
    } else if op == "^"@ {
        Ok(Datum::Int(wrap(power(l as int, r as int))))
    } else {
        Err(Fault::UndefinedOperator)
    }
}

/// The result of the arithmetic operator `op` on two values.
pub open spec fn operate(op: Seq<char>, l: Datum, r: Datum) -> Result<Datum, Fault> {
    match (l, r) {
        (Datum::Int(a), Datum::Int(b)) => arithmetic(op, a, b),
        _ => Err(Fault::CannotDoMath),
    }
}

// ---------------------------------------------------------------------------
// Comparison
// ---------------------------------------------------------------------------

/// Whether `a` comes before `b` in the lexicographic order of code points.
pub open spec fn text_before(a: Seq<char>, b: Seq<char>) -> bool
    decreases a.len(),
{
    if b.len() == 0 {
        false
    } else if a.len() == 0 {
        true
    } else if a[0] != b[0] {
        a[0] < b[0]
    } else {
        text_before(a.drop_first(), b.drop_first())
    }
}

/// Whether `l` comes before `r` in the natural order of their common kind.
/// Values of different kinds stand in no order.
pub open spec fn before(l: Datum, r: Datum) -> bool {
    match (l, r) {
        (Datum::Int(a), Datum::Int(b)) => a < b,
        (Datum::Bool(a), Datum::Bool(b)) => !a && b,
        (Datum::Str(a), Datum::Str(b)) => text_before(a, b),
        _ => false,
    }
}

/// Whether two values are of the same kind.
pub open spec fn same_kind(l: Datum, r: Datum) -> bool {
    match (l, r) {
        (Datum::Int(_), Datum::Int(_)) => true,
        (Datum::Bool(_), Datum::Bool(_)) => true,
        (Datum::Str(_), Datum::Str(_)) => true,
        _ => false,
    }
}

/// The result of the comparison `l op r`, where `op` is the value that the
/// operator node evaluated to.
pub open spec fn compare(l: Datum, op: Datum, r: Datum) -> Result<Datum, Fault> {
    if !same_kind(l, r) {
        Err(Fault::CannotCompare)
    } else {
        match op {
            Datum::Str(s) => {
                if s == "<"@ {
                    Ok(Datum::Bool(before(l, r)))
                } else if s == ">"@ {
                    Ok(Datum::Bool(before(r, l)))
                } else if s == "=="@ {
                    Ok(Datum::Bool(l == r))
                } else if s == "!="@ {
                    Ok(Datum::Bool(l != r))
                } else if s == ">="@ {
                    Ok(Datum::Bool(!before(l, r)))
                } else if s == "<="@ {
                    Ok(Datum::Bool(!before(r, l)))
                } else {
                    Err(Fault::UnknownOperator)
                }
            },
            _ => Err(Fault::UnknownOperator),
        }
    }
}

// ---------------------------------------------------------------------------
// Variables
// ---------------------------------------------------------------------------

/// The value of `name` in the current frame.
pub open spec fn lookup(name: Seq<char>, machine: Machine) -> Result<Datum, Fault> {
    if machine.stack.len() > 0 && machine.stack.last().contains_key(name) {
        Ok(machine.stack.last()[name])
    } else {
        Err(Fault::UndefinedVariable)
    }
}

/// Binds `name` to `value` in the current frame, replacing an earlier
/// binding, and yields `value`.
pub open spec fn bind(name: Seq<char>, value: Datum, machine: Machine) -> Step {
    if machine.stack.len() == 0 {
        fail(Fault::StackUnderflow, machine)
    } else {
        done(
            value,
            Machine {
                stack: machine.stack.update(
                    machine.stack.len() - 1,
                    machine.stack.last().insert(name, value),
                ),
                ..machine
            },
        )
    }
}

/// The name that a definition binds: the identifier's text, or the empty
/// name where the node is no identifier.
pub open spec fn variable_name(target: Tree) -> Seq<char> {
    match target {
        Tree::Identifier { value } => value,
        _ => Seq::empty(),
    }
}

// ---------------------------------------------------------------------------
// The function table
// ---------------------------------------------------------------------------

/// The table after the function definition with the given children: the
/// nodes after the name are registered under it.  A definition whose first
/// child is no identifier changes nothing.
pub open spec fn define(children: Seq<Tree>, functions: Table) -> Table {
    if children.len() > 0 {
        match children[0] {
            Tree::Identifier { value } => functions.insert(value, children.skip(1)),
            _ => functions,
        }
    } else {
        functions
    }
}

/// The table after one top-level item of a program.
pub open spec fn register(item: Tree, functions: Table) -> Table {
    match item {
        Tree::FunctionDefine { children } => define(children, functions),
        Tree::IfElseStatements { .. }
        | Tree::ConditionalExpression { .. }
        | Tree::Expression { .. } => functions.insert(
            "main"@,
            seq![Tree::FunctionReturn { children: seq![item] }],
        ),
        Tree::Statement { .. } => functions.insert("main"@, seq![item]),
        _ => functions,
    }
}

/// The table after the items of a program from index `from` on, in order.
pub open spec fn register_from(items: Seq<Tree>, from: int, functions: Table) -> Table
    decreases items.len() - from,
{
    if 0 <= from < items.len() {
        register_from(items, from + 1, register(items[from], functions))
    } else {
        functions
    }
}

/// The parameter nodes of a function body: the children of its leading
/// argument list, if it has one.
pub open spec fn parameters(body: Seq<Tree>) -> Seq<Tree> {
    if body.len() > 0 {
        match body[0] {
            Tree::FunctionArguments { children } => children,
            _ => Seq::empty(),
        }
    } else {
        Seq::empty()
    }
}

/// The index of the first node of a body that is evaluated: the one after
/// the leading argument list, if it has one.
pub open spec fn first_statement(body: Seq<Tree>) -> int {
    if body.len() > 0 && body[0] is FunctionArguments {
        1
    } else {
        0
    }
}

/// The name that a parameter node binds, if it is an expression around an
/// identifier.
pub open spec fn parameter_name(parameter: Tree) -> Option<Seq<char>> {
    match parameter {
        Tree::Expression { children } => if children.len() > 0 {
            match children[0] {
                Tree::Identifier { value } => Some(value),
                _ => None,
            }
        } else {
            None
        },
        _ => None,
    }
}

// ---------------------------------------------------------------------------
// Node kinds
// ---------------------------------------------------------------------------

/// The kinds of node that an expression may wrap.
pub open spec fn is_operand(t: Tree) -> bool {
    t is MathExpression || t is Number || t is FunctionCall || t is String || t is Bool
        || t is Identifier
}

/// The kinds of node that a comparand may wrap.
pub open spec fn is_comparand(t: Tree) -> bool {
    t is Number || t is Identifier || t is Bool || t is MathExpression
}

/// The kinds of node that a statement may wrap.
pub open spec fn is_action(t: Tree) -> bool {
    t is VariableDefine || t is FunctionReturn
}

// ---------------------------------------------------------------------------
// Evaluation
// ---------------------------------------------------------------------------

/// The machine before anything is registered: no functions, no frames.
pub open spec fn initial() -> Machine {
    Machine { functions: Map::empty(), stack: Seq::empty() }
}

/// The call that starts a program: `main` without arguments.
pub open spec fn entry() -> Tree {
    Tree::FunctionCall { name: "main"@, children: Seq::empty() }
}

/// The result of a whole run: `program` is evaluated in the initial machine,
/// whatever it yields, and then `main` is called in the machine that this
/// leaves.
pub open spec fn outcome(program: Tree) -> Result<Datum, Fault> {
    let loaded = eval(program, initial(), budget(initial())).machine;
    eval(entry(), loaded, budget(loaded)).result
}

/// What a call yields once its arguments are bound.
pub struct Bound {
    /// The callee's frame, or the fault that stopped an argument.
    pub frame: Result<Frame, Fault>,
    /// The state after the arguments were evaluated.
    pub machine: Machine,
}

/// Evaluates `t` in `machine`.  `depth` is the number of nested calls that
/// evaluation may still enter.
pub open spec fn eval(t: Tree, machine: Machine, depth: nat) -> Step
    decreases depth, t, 0nat,
{
    match t {
        Tree::Number { value } => done(Datum::Int(value), machine),
        Tree::Bool { value } => done(Datum::Bool(value), machine),
        Tree::String { value } => done(Datum::Str(value), machine),
        Tree::ConditionalOperator { value } => done(Datum::Str(value), machine),
        Tree::Identifier { value } => Step { result: lookup(value, machine), machine },
        Tree::Program { children } => done(
            Datum::Bool(true),
            Machine { functions: register_from(children, 0, machine.functions), ..machine },
        ),
        Tree::FunctionDefine { children } => done(
            Datum::Bool(true),
            Machine { functions: define(children, machine.functions), ..machine },
        ),
        Tree::FunctionArguments { .. } => fail(Fault::UnhandledNode, machine),
        Tree::FunctionReturn { children } => if children.len() > 0 {
            eval(children[0], machine, depth)
        } else {
            fail(Fault::UnhandledNode, machine)
        },
        Tree::Expression { children } => if children.len() > 0 && is_operand(children[0]) {
            eval(children[0], machine, depth)
        } else {
            fail(Fault::UnknownExpression, machine)
        },
        Tree::Statement { children } => if children.len() > 0 && is_action(children[0]) {
            eval(children[0], machine, depth)
        } else {
            fail(Fault::UnknownStatement, machine)
        },
        Tree::ConditionalValue { children } => if children.len() > 0 && is_comparand(
            children[0],
        ) {
            eval(children[0], machine, depth)
        } else {
            fail(Fault::UnknownStatement, machine)
        },
        Tree::VariableDefine { children } => if children.len() >= 2 {
            let value = eval(children[1], machine, depth);
            match value.result {
                Ok(v) => bind(variable_name(children[0]), v, value.machine),
                Err(_) => value,
            }
        } else {
            fail(Fault::UnhandledNode, machine)
        },
        Tree::MathExpression { name, children } => if children.len() >= 2 {
            let left = eval(children[0], machine, depth);
            match left.result {
                Ok(l) => {
                    let right = eval(children[1], left.machine, depth);
                    match right.result {
                        Ok(r) => Step { result: operate(name, l, r), machine: right.machine },
                        Err(_) => right,
                    }
                },
                Err(_) => left,
            }
        } else {
            fail(Fault::UnhandledNode, machine)
        },
        Tree::ConditionalExpression { children } => if children.len() >= 3 {
            let left = eval(children[0], machine, depth);
            match left.result {
                Ok(l) => {
                    let operator = eval(children[1], left.machine, depth);
                    match operator.result {
                        Ok(op) => {
                            let right = eval(children[2], operator.machine, depth);
                            match right.result {
                                Ok(r) => Step {
                                    result: compare(l, op, r),
                                    machine: right.machine,
                                },
                                Err(_) => right,
                            }
                        },
                        Err(_) => operator,
                    }
                },
                Err(_) => left,
            }
        } else {
            fail(Fault::UnhandledNode, machine)
        },
        Tree::IfElseStatements { children } => if children.len() > 0 {
            eval(children[0], machine, depth)
        } else {
            done(Datum::Bool(true), machine)
        },
        Tree::IfStatement { children } => eval_branch(
            children,
            Fault::UnknownExpression,
            machine,
            depth,
        ),
        Tree::ElseIfStatement { children } => eval_branch(
            children,
            Fault::UnknownStatement,
            machine,
            depth,
        ),
        Tree::ElseStatement { children } => {
            let block = eval_statements(children, 0, machine, depth);
            match block.result {
                Ok(_) => done(Datum::Bool(true), block.machine),
                Err(_) => block,
            }
        },
        Tree::FunctionCall { name, children } => if children.len() > 0 {
            match children[0] {
                Tree::FunctionArguments { children: arguments } => eval_call(
                    name,
                    arguments,
                    machine,
                    depth,
                ),
                _ => eval_call(name, children, machine, depth),
            }
        } else {
            eval_call(name, children, machine, depth)
        },
    }
}

/// Evaluates a conditional branch: the condition, which must be a comparison
/// (else `wrong_kind`), and, where it holds, the statements among the
/// children.  The branch yields the condition's value.
pub open spec fn eval_branch(
    children: Seq<Tree>,
    wrong_kind: Fault,
    machine: Machine,
    depth: nat,
) -> Step
    decreases depth, children, children.len() + 1,
{
    if children.len() > 0 && children[0] is ConditionalExpression {
        let condition = eval(children[0], machine, depth);
        match condition.result {
            Ok(Datum::Bool(true)) => {
                let block = eval_statements(children, 0, condition.machine, depth);
                match block.result {
                    Ok(_) => Step { result: condition.result, machine: block.machine },
                    Err(_) => block,
                }
            },
            _ => condition,
        }
    } else {
        fail(wrong_kind, machine)
    }
}

/// Evaluates, in order, the statements among `children[from..]`; children of
/// other kinds are passed over.  Stops at the first fault.
pub open spec fn eval_statements(
    children: Seq<Tree>,
    from: int,
    machine: Machine,
    depth: nat,
) -> Step
    decreases depth, children, children.len() - from,
{
    if 0 <= from < children.len() {
        if children[from] is Statement {
            let step = eval(children[from], machine, depth);
            match step.result {
                Ok(_) => eval_statements(children, from + 1, step.machine, depth),
                Err(_) => step,
            }
        } else {
            eval_statements(children, from + 1, machine, depth)
        }
    } else {
        done(Datum::Bool(true), machine)
    }
}

/// Calls the function `name` with the argument nodes `arguments`: binds the
/// parameters in a fresh frame, pushes it, evaluates the body, and pops the
/// frame again whether or not the body succeeded.
pub open spec fn eval_call(
    name: Seq<char>,
    arguments: Seq<Tree>,
    machine: Machine,
    depth: nat,
) -> Step
    decreases depth, arguments, parameters(machine.functions[name]).len() + 1,
{
    if !machine.functions.contains_key(name) {
        fail(Fault::UndefinedFunction, machine)
    } else if depth == 0 {
        fail(Fault::CallDepthExceeded, machine)
    } else {
        let body = machine.functions[name];
        let bound = eval_arguments(parameters(body), arguments, 0, Map::empty(), machine, depth);
        match bound.frame {
            Ok(frame) => {
                let last = eval_body(
                    body,
                    first_statement(body),
                    Datum::Bool(true),
                    enter(frame, bound.machine),
                    (depth - 1) as nat,
                );
                Step { result: last.result, machine: leave(last.machine) }
            },
            Err(fault) => fail(fault, bound.machine),
        }
    }
}

/// The machine with `frame` pushed as its current frame.
pub open spec fn enter(frame: Frame, machine: Machine) -> Machine {
    Machine { stack: machine.stack.push(frame), ..machine }
}

/// The machine with its current frame popped.
pub open spec fn leave(machine: Machine) -> Machine {
    if machine.stack.len() > 0 {
        Machine { stack: machine.stack.drop_last(), ..machine }
    } else {
        machine
    }
}

/// Evaluates the arguments for `parameters[from..]`, each in the caller's
/// state, and adds the bindings to `frame`.  An argument is evaluated even
/// where its parameter binds no name.
pub open spec fn eval_arguments(
    parameters: Seq<Tree>,
    arguments: Seq<Tree>,
    from: int,
    frame: Frame,
    machine: Machine,
    depth: nat,
) -> Bound
    decreases depth, arguments, parameters.len() - from,
{
    if 0 <= from < parameters.len() {
        if from < arguments.len() {
            let step = eval(arguments[from], machine, depth);
            match step.result {
                Ok(v) => eval_arguments(
                    parameters,
                    arguments,
                    from + 1,
                    match parameter_name(parameters[from]) {
                        Some(name) => frame.insert(name, v),
                        None => frame,
                    },
                    step.machine,
                    depth,
                ),
                Err(fault) => Bound { frame: Err(fault), machine: step.machine },
            }
        } else {
            Bound { frame: Err(Fault::MissingArgument), machine }
        }
    } else {
        Bound { frame: Ok(frame), machine }
    }
}

/// Evaluates the nodes `body[from..]` in order and yields the value of the
/// last one, or `last` where there is none.  Stops at the first fault.
pub open spec fn eval_body(
    body: Seq<Tree>,
    from: int,
    last: Datum,
    machine: Machine,
    depth: nat,
) -> Step
    decreases depth, body, body.len() - from,
{
    if 0 <= from < body.len() {
        let step = eval(body[from], machine, depth);
        match step.result {
            Ok(v) => eval_body(body, from + 1, v, step.machine, depth),
            Err(_) => step,
        }
    } else {
        done(last, machine)
    }
}

} // verus!
