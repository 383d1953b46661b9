//! The evaluator: a tree walk over a function table and a stack of frames.

use crate::ast::{clone_nodes, trees, Node, Tree};
use crate::semantics::{
    bind, budget, define, entry, eval, eval_arguments, eval_body, eval_branch, eval_call,
    eval_statements, initial, is_action, is_comparand, is_operand, lookup, matches_step,
    outcome, parameters, register, register_from, reports, yields, Fault, Frame, Machine, Table,
    MAX_CALL_DEPTH,
};
use crate::operators::{apply, compare_values};
use crate::value::{Datum, Value};
use vstd::hash_map::StringHashMap;
use vstd::prelude::*;

verus! {

/// The model of a frame's contents.
pub open spec fn frame_model(frame: Map<Seq<char>, Value>) -> Frame {
    Map::new(|name: Seq<char>| frame.contains_key(name), |name: Seq<char>| frame[name]@)
}

/// The model of a function table's contents.
pub open spec fn table_model(table: Map<Seq<char>, Vec<Node>>) -> Table {
    Map::new(|name: Seq<char>| table.contains_key(name), |name: Seq<char>| trees(table[name]@))
}

/// The model of a frame stack.
pub open spec fn stack_model(stack: Seq<StringHashMap<Value>>) -> Seq<Frame> {
    Seq::new(stack.len(), |i: int| frame_model(stack[i]@))
}

/// The interpreter's state: the function table and the frame stack.
pub struct Runtime {
    functions: StringHashMap<Vec<Node>>,
    stack: Vec<StringHashMap<Value>>,
}

impl View for Runtime {
    type V = Machine;

    closed spec fn view(&self) -> Machine {
        Machine {
            functions: table_model(self.functions@),
            stack: stack_model(self.stack@),
        }
    }
}

proof fn lemma_frame_insert(frame: Map<Seq<char>, Value>, name: Seq<char>, value: Value)
    ensures
        frame_model(frame.insert(name, value)) == frame_model(frame).insert(name, value@),
{
    assert(frame_model(frame.insert(name, value)) =~= frame_model(frame).insert(name, value@));
}

proof fn lemma_table_insert(table: Map<Seq<char>, Vec<Node>>, name: Seq<char>, body: Vec<Node>)
    ensures
        table_model(table.insert(name, body)) == table_model(table).insert(name, trees(body@)),
{
    assert(table_model(table.insert(name, body)) =~= table_model(table).insert(
        name,
        trees(body@),
    ));
}

/// Whether an expression may wrap `node`.
fn operand(node: &Node) -> (r: bool)
    ensures
        r == is_operand(node@),
{
    match node {
        Node::MathExpression { .. }
        | Node::Number { .. }
        | Node::FunctionCall { .. }
        | Node::String { .. }
        | Node::Bool { .. }
        | Node::Identifier { .. } => true,
        _ => false,
    }
}

/// Whether a comparand may wrap `node`.
fn compared(node: &Node) -> (r: bool)
    ensures
        r == is_comparand(node@),
{
    match node {
        Node::Number { .. }
        | Node::Identifier { .. }
        | Node::Bool { .. }
        | Node::MathExpression { .. } => true,
        _ => false,
    }
}

/// Whether a statement may wrap `node`.
fn action(node: &Node) -> (r: bool)
    ensures
        r == is_action(node@),
{
    match node {
        Node::VariableDefine { .. } | Node::FunctionReturn { .. } => true,
        _ => false,
    }
}

/// Copies the nodes `nodes[from..]`.
fn clone_tail(nodes: &Vec<Node>, from: usize) -> (copy: Vec<Node>)
    requires
        from <= nodes.len(),
    ensures
        trees(copy@) == trees(nodes@).skip(from as int),
{
    let mut copy: Vec<Node> = Vec::new();
    let mut i: usize = from;
    while i < nodes.len()
        invariant
            from <= i <= nodes.len(),
            copy.len() == i - from,
            forall|j: int| 0 <= j < copy.len() ==> copy[j]@ == nodes[from + j]@,
        decreases nodes.len() - i,
    {
        copy.push(nodes[i].clone());
        i += 1;
    }
    assert(trees(copy@) =~= trees(nodes@).skip(from as int));
    copy
}

impl Runtime {
    /// A runtime with no functions and no frames.
    pub fn new() -> (runtime: Runtime)
        ensures
            runtime@ == initial(),
    {
        let runtime = Runtime { functions: StringHashMap::new(), stack: Vec::new() };
        assert(runtime@.functions =~= Map::empty());
        assert(runtime@.stack =~= Seq::empty());
        runtime
    }

    /// Registers the function definition with the given children.
    fn define(&mut self, children: &Vec<Node>)
        ensures
            final(self)@ == (Machine {
                functions: define(trees(children@), old(self)@.functions),
                ..old(self)@
            }),
    {
        if children.len() > 0 {
            match &children[0] {
                Node::Identifier { value } => {
                    let body = clone_tail(children, 1);
                    proof {
                        lemma_table_insert(self.functions@, value@, body);
                    }
                    self.functions.insert(value.clone(), body);
                },
                _ => {},
            }
        }
    }

    /// Registers one top-level item of a program.
    fn register(&mut self, item: &Node)
        ensures
            final(self)@ == (Machine {
                functions: register(item@, old(self)@.functions),
                ..old(self)@
            }),
    {
        match item {
            Node::FunctionDefine { children } => self.define(children),
            Node::IfElseStatements { .. }
            | Node::ConditionalExpression { .. }
            | Node::Expression { .. } => {
                let mut inner: Vec<Node> = Vec::new();
                inner.push(item.clone());
                let mut body: Vec<Node> = Vec::new();
                body.push(Node::FunctionReturn { children: inner });
                proof {
                    lemma_table_insert(self.functions@, "main"@, body);
                    assert(trees(inner@) =~= seq![item@]);
                    assert(trees(body@) =~= seq![Tree::FunctionReturn { children: seq![item@] }]);
                }
                self.functions.insert(String::from_str("main"), body);
            },
            Node::Statement { .. } => {
                let mut body: Vec<Node> = Vec::new();
                body.push(item.clone());
                proof {
                    lemma_table_insert(self.functions@, "main"@, body);
                    assert(trees(body@) =~= seq![item@]);
                }
                self.functions.insert(String::from_str("main"), body);
            },
            _ => {},
        }
    }

    /// Registers the top-level items of a program, in order.
    fn register_all(&mut self, items: &Vec<Node>)
        ensures
            final(self)@ == (Machine {
                functions: register_from(trees(items@), 0, old(self)@.functions),
                ..old(self)@
            }),
    {
        let mut i: usize = 0;
        while i < items.len()
            invariant
                i <= items.len(),
                self@.stack == old(self)@.stack,
                register_from(trees(items@), i as int, self@.functions) == register_from(
                    trees(items@),
                    0,
                    old(self)@.functions,
                ),
            decreases items.len() - i,
        {
            self.register(&items[i]);
            i += 1;
        }
    }

    /// The value of `name` in the current frame.
    fn fetch(&self, name: &str) -> (result: Result<Value, Fault>)
        ensures
            yields(result, lookup(name@, self@)),
    {
        let depth = self.stack.len();
        if depth == 0 {
            return Err(Fault::UndefinedVariable);
        }
        match self.stack[depth - 1].get(name) {
            Some(value) => Ok(value.clone()),
            None => Err(Fault::UndefinedVariable),
        }
    }

    /// Binds `name` to `value` in the current frame and hands `value` back.
    fn store(&mut self, name: String, value: Value) -> (result: Result<Value, Fault>)
        ensures
            matches_step(result, final(self)@, bind(name@, value@, old(self)@)),
            final(self)@.stack.len() == old(self)@.stack.len(),
    {
        match self.stack.pop() {
            Some(top) => {
                let mut top = top;
                let kept = value.clone();
                proof {
                    lemma_frame_insert(top@, name@, value);
                }
                top.insert(name, value);
                self.stack.push(top);
                assert(self@.stack =~= old(self)@.stack.update(
                    old(self)@.stack.len() - 1,
                    old(self)@.stack.last().insert(name@, value@),
                ));
                Ok(kept)
            },
            None => Err(Fault::StackUnderflow),
        }
    }

    /// Evaluates `node`; a failure is reported by its text.
    ///
    /// This is [`Runtime::evaluate`] with the fault turned into a string.
    pub fn run(&mut self, node: &Node) -> (result: Result<Value, String>)
        ensures
            reports(result, eval(node@, old(self)@, budget(old(self)@)).result),
            final(self)@ == eval(node@, old(self)@, budget(old(self)@)).machine,
            final(self)@.stack.len() == old(self)@.stack.len(),
    {
        match self.evaluate(node) {
            Ok(value) => Ok(value),
            Err(fault) => Err(fault.message()),
        }
    }

    /// Evaluates `node` and says why where it cannot.
    ///
    /// The result and the state afterwards are exactly those of
    /// [`eval`]; the frame stack is as deep afterwards as it was before,
    /// whether or not the evaluation succeeded.
    pub fn evaluate(&mut self, node: &Node) -> (result: Result<Value, Fault>)
        ensures
            matches_step(
                result,
                final(self)@,
                eval(node@, old(self)@, budget(old(self)@)),
            ),
            final(self)@.stack.len() == old(self)@.stack.len(),
        decreases budget(old(self)@), node, 0nat,
    {
        match node {
            Node::Number { value } => Ok(Value::Number(*value)),
            Node::Bool { value } => Ok(Value::Bool(*value)),
            Node::String { value } => Ok(Value::String(value.clone())),
            Node::ConditionalOperator { value } => Ok(Value::String(value.clone())),
            Node::Identifier { value } => self.fetch(value.as_str()),
            Node::Program { children } => {
                self.register_all(children);
                Ok(Value::Bool(true))
            },
            Node::FunctionDefine { children } => {
                self.define(children);
                Ok(Value::Bool(true))
            },
            Node::FunctionArguments { .. } => Err(Fault::UnhandledNode),
            Node::FunctionReturn { children } => self.unwrap(children),
            Node::Expression { children } => self.expression(children),
            Node::Statement { children } => self.statement(children),
            Node::ConditionalValue { children } => self.comparand(children),
            Node::VariableDefine { children } => self.define_variable(children),
            Node::MathExpression { name, children } => self.math(name.as_str(), children),
            Node::ConditionalExpression { children } => self.comparison(children),
            Node::IfElseStatements { children } => self.chain(children),
            Node::IfStatement { children } => self.branch(children, Fault::UnknownExpression),
            Node::ElseIfStatement { children } => self.branch(children, Fault::UnknownStatement),
            Node::ElseStatement { children } => self.otherwise(children),
            Node::FunctionCall { name, children } => self.invoke(name.as_str(), children),
        }
    }

    /// Evaluates a return with the given children.
    fn unwrap(&mut self, children: &Vec<Node>) -> (result: Result<Value, Fault>)
        ensures
            matches_step(
                result,
                final(self)@,
                eval(
                    Tree::FunctionReturn { children: trees(children@) },
                    old(self)@,
                    budget(old(self)@),
                ),
            ),
            final(self)@.stack.len() == old(self)@.stack.len(),
        decreases budget(old(self)@), children, 0nat,
    {
        if children.len() > 0 {
            self.evaluate(&children[0])
        } else {
            Err(Fault::UnhandledNode)
        }
    }

    /// Evaluates an expression with the given children.
    fn expression(&mut self, children: &Vec<Node>) -> (result: Result<Value, Fault>)
        ensures
            matches_step(
                result,
                final(self)@,
                eval(
                    Tree::Expression { children: trees(children@) },
                    old(self)@,
                    budget(old(self)@),
                ),
            ),
            final(self)@.stack.len() == old(self)@.stack.len(),
        decreases budget(old(self)@), children, 0nat,
    {
        if children.len() > 0 && operand(&children[0]) {
            self.evaluate(&children[0])
        } else {
            Err(Fault::UnknownExpression)
        }
    }

    /// Evaluates a statement with the given children.
    fn statement(&mut self, children: &Vec<Node>) -> (result: Result<Value, Fault>)
        ensures
            matches_step(
                result,
                final(self)@,
                eval(
                    Tree::Statement { children: trees(children@) },
                    old(self)@,
                    budget(old(self)@),
                ),
            ),
            final(self)@.stack.len() == old(self)@.stack.len(),
        decreases budget(old(self)@), children, 0nat,
    {
        if children.len() > 0 && action(&children[0]) {
            self.evaluate(&children[0])
        } else {
            Err(Fault::UnknownStatement)
        }
    }

    /// Evaluates a comparand with the given children.
    fn comparand(&mut self, children: &Vec<Node>) -> (result: Result<Value, Fault>)
        ensures
            matches_step(
                result,
                final(self)@,
                eval(
                    Tree::ConditionalValue { children: trees(children@) },
                    old(self)@,
                    budget(old(self)@),
                ),
            ),
            final(self)@.stack.len() == old(self)@.stack.len(),
        decreases budget(old(self)@), children, 0nat,
    {
        if children.len() > 0 && compared(&children[0]) {
            self.evaluate(&children[0])
        } else {
            Err(Fault::UnknownStatement)
        }
    }

    /// Evaluates a chain of conditional branches with the given children.
    fn chain(&mut self, children: &Vec<Node>) -> (result: Result<Value, Fault>)
        ensures
            matches_step(
                result,
                final(self)@,
                eval(
                    Tree::IfElseStatements { children: trees(children@) },
                    old(self)@,
                    budget(old(self)@),
                ),
            ),
            final(self)@.stack.len() == old(self)@.stack.len(),
        decreases budget(old(self)@), children, 0nat,
    {
        if children.len() > 0 {
            self.evaluate(&children[0])
        } else {
            Ok(Value::Bool(true))
        }
    }

    /// Evaluates an else block with the given children.
    fn otherwise(&mut self, children: &Vec<Node>) -> (result: Result<Value, Fault>)
        ensures
            matches_step(
                result,
                final(self)@,
                eval(
                    Tree::ElseStatement { children: trees(children@) },
                    old(self)@,
                    budget(old(self)@),
                ),
            ),
            final(self)@.stack.len() == old(self)@.stack.len(),
        decreases budget(old(self)@), children, 2nat,
    {
        match self.statements(children) {
            Ok(_) => Ok(Value::Bool(true)),
            Err(fault) => Err(fault),
        }
    }

    /// Evaluates a call of `name` with the given children.
    fn invoke(&mut self, name: &str, children: &Vec<Node>) -> (result: Result<Value, Fault>)
        ensures
            matches_step(
                result,
                final(self)@,
                eval(
                    Tree::FunctionCall { name: name@, children: trees(children@) },
                    old(self)@,
                    budget(old(self)@),
                ),
            ),
            final(self)@.stack.len() == old(self)@.stack.len(),
        decreases budget(old(self)@), children, 2nat,
    {
        if children.len() > 0 {
            match &children[0] {
                Node::FunctionArguments { children: arguments } => self.call(name, arguments),
                _ => self.call(name, children),
            }
        } else {
            self.call(name, children)
        }
    }

    /// Evaluates a variable definition with the given children.
    fn define_variable(&mut self, children: &Vec<Node>) -> (result: Result<Value, Fault>)
        ensures
            matches_step(
                result,
                final(self)@,
                eval(
                    Tree::VariableDefine { children: trees(children@) },
                    old(self)@,
                    budget(old(self)@),
                ),
            ),
            final(self)@.stack.len() == old(self)@.stack.len(),
        decreases budget(old(self)@), children, 0nat,
    {
        if children.len() < 2 {
            return Err(Fault::UnhandledNode);
        }
        let name = match &children[0] {
            Node::Identifier { value } => value.clone(),
            _ => String::new(),
        };
        match self.evaluate(&children[1]) {
            Ok(value) => self.store(name, value),
            Err(fault) => Err(fault),
        }
    }

    /// Evaluates an arithmetic node with the given operator and children.
    fn math(&mut self, name: &str, children: &Vec<Node>) -> (result: Result<Value, Fault>)
        ensures
            matches_step(
                result,
                final(self)@,
                eval(
                    Tree::MathExpression { name: name@, children: trees(children@) },
                    old(self)@,
                    budget(old(self)@),
                ),
            ),
            final(self)@.stack.len() == old(self)@.stack.len(),
        decreases budget(old(self)@), children, 0nat,
    {
        if children.len() < 2 {
            return Err(Fault::UnhandledNode);
        }
        let left = match self.evaluate(&children[0]) {
            Ok(value) => value,
            Err(fault) => {
                return Err(fault);
            },
        };
        let right = match self.evaluate(&children[1]) {
            Ok(value) => value,
            Err(fault) => {
                return Err(fault);
            },
        };
        apply(name, &left, &right)
    }

    /// Evaluates a comparison with the given children.
    fn comparison(&mut self, children: &Vec<Node>) -> (result: Result<Value, Fault>)
        ensures
            matches_step(
                result,
                final(self)@,
                eval(
                    Tree::ConditionalExpression { children: trees(children@) },
                    old(self)@,
                    budget(old(self)@),
                ),
            ),
            final(self)@.stack.len() == old(self)@.stack.len(),
        decreases budget(old(self)@), children, 0nat,
    {
        if children.len() < 3 {
            return Err(Fault::UnhandledNode);
        }
        let left = match self.evaluate(&children[0]) {
            Ok(value) => value,
            Err(fault) => {
                return Err(fault);
            },
        };
        let operator = match self.evaluate(&children[1]) {
            Ok(value) => value,
            Err(fault) => {
                return Err(fault);
            },
        };
        let right = match self.evaluate(&children[2]) {
            Ok(value) => value,
            Err(fault) => {
                return Err(fault);
            },
        };
        compare_values(&left, &operator, &right)
    }

    /// Evaluates a conditional branch with the given children.
    fn branch(&mut self, children: &Vec<Node>, wrong_kind: Fault) -> (result: Result<
        Value,
        Fault,
    >)
        ensures
            matches_step(
                result,
                final(self)@,
                eval_branch(trees(children@), wrong_kind, old(self)@, budget(old(self)@)),
            ),
            final(self)@.stack.len() == old(self)@.stack.len(),
        decreases budget(old(self)@), children, 2nat,
    {
        if children.len() == 0 {
            return Err(wrong_kind);
        }
        match &children[0] {
            Node::ConditionalExpression { .. } => {},
            _ => {
                return Err(wrong_kind);
            },
        }
        let condition = match self.evaluate(&children[0]) {
            Ok(value) => value,
            Err(fault) => {
                return Err(fault);
            },
        };
        let holds = match &condition {
            Value::Bool(b) => *b,
            _ => false,
        };
        if holds {
            match self.statements(children) {
                Ok(_) => Ok(condition),
                Err(fault) => Err(fault),
            }
        } else {
            Ok(condition)
        }
    }

    /// Evaluates the statements among `children`, in order.
    fn statements(&mut self, children: &Vec<Node>) -> (result: Result<Value, Fault>)
        ensures
            matches_step(
                result,
                final(self)@,
                eval_statements(trees(children@), 0, old(self)@, budget(old(self)@)),
            ),
            final(self)@.stack.len() == old(self)@.stack.len(),
        decreases budget(old(self)@), children, 1nat,
    {
        let mut i: usize = 0;
        while i < children.len()
            invariant
                i <= children.len(),
                self@.stack.len() == old(self)@.stack.len(),
                eval_statements(trees(children@), i as int, self@, budget(old(self)@))
                    == eval_statements(trees(children@), 0, old(self)@, budget(old(self)@)),
            decreases children.len() - i,
        {
            match &children[i] {
                Node::Statement { .. } => {
                    match self.evaluate(&children[i]) {
                        Ok(_) => {},
                        Err(fault) => {
                            return Err(fault);
                        },
                    }
                },
                _ => {},
            }
            i += 1;
        }
        Ok(Value::Bool(true))
    }

    /// Calls the function `name` with the given argument nodes.
    fn call(&mut self, name: &str, arguments: &Vec<Node>) -> (result: Result<Value, Fault>)
        ensures
            matches_step(
                result,
                final(self)@,
                eval_call(name@, trees(arguments@), old(self)@, budget(old(self)@)),
            ),
            final(self)@.stack.len() == old(self)@.stack.len(),
        decreases budget(old(self)@), arguments, 1nat,
    {
        let body = match self.functions.get(name) {
            Some(nodes) => clone_nodes(nodes),
            None => {
                return Err(Fault::UndefinedFunction);
            },
        };
        if self.stack.len() >= MAX_CALL_DEPTH {
            return Err(Fault::CallDepthExceeded);
        }
        let none: Vec<Node> = Vec::new();
        let mut first: usize = 0;
        let named: &Vec<Node> = if body.len() > 0 {
            match &body[0] {
                Node::FunctionArguments { children } => {
                    first = 1;
                    children
                },
                _ => &none,
            }
        } else {
            &none
        };
        assert(trees(named@) =~= parameters(trees(body@)));
        let frame = match self.bind_arguments(named, arguments) {
            Ok(frame) => frame,
            Err(fault) => {
                return Err(fault);
            },
        };
        let ghost bound = self@;
        self.stack.push(frame);
        assert(self@.stack =~= bound.stack.push(frame_model(frame@)));
        let result = self.run_body(&body, first);
        let ghost last = self@;
        self.stack.pop();
        assert(self@.stack =~= last.stack.drop_last());
        result
    }

    /// Evaluates the arguments of a call and binds them to the parameters.
    fn bind_arguments(&mut self, parameters: &Vec<Node>, arguments: &Vec<Node>) -> (result:
        Result<StringHashMap<Value>, Fault>)
        ensures
            ({
                let bound = eval_arguments(
                    trees(parameters@),
                    trees(arguments@),
                    0,
                    Map::empty(),
                    old(self)@,
                    budget(old(self)@),
                );
                &&& final(self)@ == bound.machine
                &&& match result {
                    Ok(frame) => bound.frame == Ok::<Frame, Fault>(frame_model(frame@)),
                    Err(fault) => bound.frame == Err::<Frame, Fault>(fault),
                }
            }),
            final(self)@.stack.len() == old(self)@.stack.len(),
        decreases budget(old(self)@), arguments, 0nat,
    {
        let mut frame: StringHashMap<Value> = StringHashMap::new();
        assert(frame_model(frame@) =~= Map::empty());
        let mut i: usize = 0;
        while i < parameters.len()
            invariant
                i <= parameters.len(),
                self@.stack.len() == old(self)@.stack.len(),
                eval_arguments(
                    trees(parameters@),
                    trees(arguments@),
                    i as int,
                    frame_model(frame@),
                    self@,
                    budget(old(self)@),
                ) == eval_arguments(
                    trees(parameters@),
                    trees(arguments@),
                    0,
                    Map::empty(),
                    old(self)@,
                    budget(old(self)@),
                ),
            decreases parameters.len() - i,
        {
            if i >= arguments.len() {
                return Err(Fault::MissingArgument);
            }
            let value = match self.evaluate(&arguments[i]) {
                Ok(value) => value,
                Err(fault) => {
                    return Err(fault);
                },
            };
            assert(trees(parameters@)[i as int] == parameters[i as int]@);
            match &parameters[i] {
                Node::Expression { children } => {
                    if children.len() > 0 {
                        assert(trees(children@)[0] == children[0]@);
                        match &children[0] {
                            Node::Identifier { value: name } => {
                                proof {
                                    lemma_frame_insert(frame@, name@, value);
                                }
                                frame.insert(name.clone(), value);
                            },
                            _ => {},
                        }
                    }
                },
                _ => {},
            }
            i += 1;
        }
        Ok(frame)
    }

    /// Evaluates the nodes `body[first..]` in order; the last value counts.
    fn run_body(&mut self, body: &Vec<Node>, first: usize) -> (result: Result<Value, Fault>)
        requires
            first <= body.len(),
        ensures
            matches_step(
                result,
                final(self)@,
                eval_body(
                    trees(body@),
                    first as int,
                    Datum::Bool(true),
                    old(self)@,
                    budget(old(self)@),
                ),
            ),
            final(self)@.stack.len() == old(self)@.stack.len(),
        decreases budget(old(self)@), body, 0nat,
    {
        let mut last = Value::Bool(true);
        let mut i: usize = first;
        while i < body.len()
            invariant
                first <= i <= body.len(),
                self@.stack.len() == old(self)@.stack.len(),
                eval_body(trees(body@), i as int, last@, self@, budget(old(self)@)) == eval_body(
                    trees(body@),
                    first as int,
                    Datum::Bool(true),
                    old(self)@,
                    budget(old(self)@),
                ),
            decreases body.len() - i,
        {
            match self.evaluate(&body[i]) {
                Ok(value) => {
                    last = value;
                },
                Err(fault) => {
                    return Err(fault);
                },
            }
            i += 1;
        }
        Ok(last)
    }
}

/// Runs a program: evaluates `node`, which registers the functions of a
/// program node, and then calls `main`.  What the first evaluation yields is
/// not looked at.
pub fn start(node: &Node) -> (result: Result<Value, Fault>)
    ensures
        yields(result, outcome(node@)),
{
    let mut runtime = Runtime::new();
    let _ = runtime.evaluate(node);
    let call = Node::FunctionCall { name: String::from_str("main"), children: Vec::new() };
    assert(call@ == entry()) by {
        assert(trees(Seq::<Node>::empty()) =~= Seq::<Tree>::empty());
    }
    runtime.evaluate(&call)
}

/// Runs a program as [`start`] does; a failure is reported by its text.
pub fn start_interpreter(node: &Node) -> (result: Result<Value, String>)
    ensures
        reports(result, outcome(node@)),
{
    match start(node) {
        Ok(value) => Ok(value),
        Err(fault) => Err(fault.message()),
    }
}

} // verus!
