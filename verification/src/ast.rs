//! The syntax tree shared by the parser and the evaluator.

use vstd::prelude::*;

verus! {

/// A node of the syntax tree.
#[derive(Debug, PartialEq)]
#[allow(inconsistent_fields)]
pub enum Node {
    Program { children: Vec<Node> },
    Statement { children: Vec<Node> },
    FunctionReturn { children: Vec<Node> },
    FunctionDefine { children: Vec<Node> },
    FunctionArguments { children: Vec<Node> },
    Expression { children: Vec<Node> },
    MathExpression { name: String, children: Vec<Node> },
    FunctionCall { name: String, children: Vec<Node> },
    VariableDefine { children: Vec<Node> },
    Number { value: i32 },
    Bool { value: bool },
    Identifier { value: String },
    String { value: String },
    ConditionalOperator { value: String },
    ConditionalValue { children: Vec<Node> },
    ConditionalExpression { children: Vec<Node> },
    IfStatement { children: Vec<Node> },
    ElseStatement { children: Vec<Node> },
    ElseIfStatement { children: Vec<Node> },
    IfElseStatements { children: Vec<Node> },
}

/// The mathematical model of a [`Node`]: the same tree over sequences.
#[allow(inconsistent_fields)]
pub enum Tree {
    Program { children: Seq<Tree> },
    Statement { children: Seq<Tree> },
    FunctionReturn { children: Seq<Tree> },
    FunctionDefine { children: Seq<Tree> },
    FunctionArguments { children: Seq<Tree> },
    Expression { children: Seq<Tree> },
    MathExpression { name: Seq<char>, children: Seq<Tree> },
    FunctionCall { name: Seq<char>, children: Seq<Tree> },
    VariableDefine { children: Seq<Tree> },
    Number { value: i32 },
    Bool { value: bool },
    Identifier { value: Seq<char> },
    String { value: Seq<char> },
    ConditionalOperator { value: Seq<char> },
    ConditionalValue { children: Seq<Tree> },
    ConditionalExpression { children: Seq<Tree> },
    IfStatement { children: Seq<Tree> },
    ElseStatement { children: Seq<Tree> },
    ElseIfStatement { children: Seq<Tree> },
    IfElseStatements { children: Seq<Tree> },
}

/// The models of a sequence of nodes, in order.
pub open spec fn trees(nodes: Seq<Node>) -> Seq<Tree>
    decreases nodes,
{
    Seq::new(
        nodes.len(),
        |i: int|
            if 0 <= i < nodes.len() {
                nodes[i].view()
            } else {
                arbitrary()
            },
    )
}

impl View for Node {
    type V = Tree;

    open spec fn view(&self) -> Tree
        decreases self,
    {
        match self {
            Node::Program { children } => Tree::Program { children: trees(children@) },
            Node::Statement { children } => Tree::Statement { children: trees(children@) },
            Node::FunctionReturn { children } => Tree::FunctionReturn {
                children: trees(children@),
            },
            Node::FunctionDefine { children } => Tree::FunctionDefine {
                children: trees(children@),
            },
            Node::FunctionArguments { children } => Tree::FunctionArguments {
                children: trees(children@),
            },
            Node::Expression { children } => Tree::Expression { children: trees(children@) },
            Node::MathExpression { name, children } => Tree::MathExpression {
                name: name@,
                children: trees(children@),
            },
            Node::FunctionCall { name, children } => Tree::FunctionCall {
                name: name@,
                children: trees(children@),
            },
            Node::VariableDefine { children } => Tree::VariableDefine {
                children: trees(children@),
            },
            Node::Number { value } => Tree::Number { value: *value },
            Node::Bool { value } => Tree::Bool { value: *value },
            Node::Identifier { value } => Tree::Identifier { value: value@ },
            Node::String { value } => Tree::String { value: value@ },
            Node::ConditionalOperator { value } => Tree::ConditionalOperator { value: value@ },
            Node::ConditionalValue { children } => Tree::ConditionalValue {
                children: trees(children@),
            },
            Node::ConditionalExpression { children } => Tree::ConditionalExpression {
                children: trees(children@),
            },
            Node::IfStatement { children } => Tree::IfStatement { children: trees(children@) },
            Node::ElseStatement { children } => Tree::ElseStatement {
                children: trees(children@),
            },
            Node::ElseIfStatement { children } => Tree::ElseIfStatement {
                children: trees(children@),
            },
            Node::IfElseStatements { children } => Tree::IfElseStatements {
                children: trees(children@),
            },
        }
    }
}

/// Copies a list of nodes.
pub fn clone_nodes(nodes: &Vec<Node>) -> (copy: Vec<Node>)
    ensures
        trees(copy@) == trees(nodes@),
    decreases nodes,
{
    let mut copy: Vec<Node> = Vec::new();
    let mut i: usize = 0;
    while i < nodes.len()
        invariant
            i <= nodes.len(),
            copy.len() == i,
            forall|j: int| 0 <= j < i ==> copy[j]@ == nodes[j]@,
        decreases nodes.len() - i,
    {
        copy.push(nodes[i].clone());
        i += 1;
    }
    assert(trees(copy@) =~= trees(nodes@));
    copy
}

impl Clone for Node {
    fn clone(&self) -> (copy: Node)
        ensures
            copy@ == self@,
        decreases self,
    {
        match self {
            Node::Program { children } => Node::Program { children: clone_nodes(children) },
            Node::Statement { children } => Node::Statement { children: clone_nodes(children) },
            Node::FunctionReturn { children } => Node::FunctionReturn {
                children: clone_nodes(children),
            },
            Node::FunctionDefine { children } => Node::FunctionDefine {
                children: clone_nodes(children),
            },
            Node::FunctionArguments { children } => Node::FunctionArguments {
                children: clone_nodes(children),
            },
            Node::Expression { children } => Node::Expression { children: clone_nodes(children) },
            Node::MathExpression { name, children } => Node::MathExpression {
                name: name.clone(),
                children: clone_nodes(children),
            },
            Node::FunctionCall { name, children } => Node::FunctionCall {
                name: name.clone(),
                children: clone_nodes(children),
            },
            Node::VariableDefine { children } => Node::VariableDefine {
                children: clone_nodes(children),
            },
            Node::Number { value } => Node::Number { value: *value },
            Node::Bool { value } => Node::Bool { value: *value },
            Node::Identifier { value } => Node::Identifier { value: value.clone() },
            Node::String { value } => Node::String { value: value.clone() },
            Node::ConditionalOperator { value } => Node::ConditionalOperator {
                value: value.clone(),
            },
            Node::ConditionalValue { children } => Node::ConditionalValue {
                children: clone_nodes(children),
            },
            Node::ConditionalExpression { children } => Node::ConditionalExpression {
                children: clone_nodes(children),
            },
            Node::IfStatement { children } => Node::IfStatement {
                children: clone_nodes(children),
            },
            Node::ElseStatement { children } => Node::ElseStatement {
                children: clone_nodes(children),
            },
            Node::ElseIfStatement { children } => Node::ElseIfStatement {
                children: clone_nodes(children),
            },
            Node::IfElseStatements { children } => Node::IfElseStatements {
                children: clone_nodes(children),
            },
        }
    }
}

} // verus!
