use asalang::{program, run, start, start_interpreter, Failure, Fault, Node, ParseError, Runtime, Value};

fn id(name: &str) -> Node {
    Node::Identifier { value: name.to_string() }
}

fn num(value: i32) -> Node {
    Node::Number { value }
}

fn text(value: &str) -> Node {
    Node::String { value: value.to_string() }
}

fn math(name: &str, l: Node, r: Node) -> Node {
    Node::MathExpression { name: name.to_string(), children: vec![l, r] }
}

fn expr(inner: Node) -> Node {
    Node::Expression { children: vec![inner] }
}

fn comparand(inner: Node) -> Node {
    Node::ConditionalValue { children: vec![inner] }
}

fn operator(symbol: &str) -> Node {
    Node::ConditionalOperator { value: symbol.to_string() }
}

fn comparison(l: Node, symbol: &str, r: Node) -> Node {
    Node::ConditionalExpression { children: vec![comparand(l), operator(symbol), comparand(r)] }
}

fn define(name: &str, value: Node) -> Node {
    Node::Statement {
        children: vec![Node::VariableDefine { children: vec![id(name), expr(value)] }],
    }
}

fn give(value: Node) -> Node {
    Node::FunctionReturn { children: vec![value] }
}

fn function(name: &str, body: Vec<Node>) -> Node {
    let mut children = vec![id(name)];
    children.extend(body);
    Node::FunctionDefine { children }
}

fn call(name: &str, arguments: Vec<Node>) -> Node {
    let children = if arguments.is_empty() {
        vec![]
    } else {
        vec![Node::FunctionArguments { children: arguments }]
    };
    Node::FunctionCall { name: name.to_string(), children }
}

/// Evaluates `body` as the body of `main`.
fn in_main(body: Vec<Node>) -> Result<Value, Fault> {
    start(&Node::Program { children: vec![function("main", body)] })
}

fn source(text: &str) -> Result<Value, Failure> {
    run(text)
}

#[test]
fn addition_wraps_around() {
    assert_eq!(source("2147483647 + 1"), Ok(Value::Number(i32::MIN)));
    assert_eq!(source("0 - 2147483647 - 2"), Ok(Value::Number(i32::MAX)));
}

#[test]
fn multiplication_wraps_around() {
    assert_eq!(source("65536 * 65536"), Ok(Value::Number(0)));
    assert_eq!(source("46341 * 46341"), Ok(Value::Number(-2147479015)));
}

#[test]
fn division_rounds_toward_zero() {
    assert_eq!(source("7 / 2"), Ok(Value::Number(3)));
    assert_eq!(source("(0 - 7) / 2"), Ok(Value::Number(-3)));
    assert_eq!(source("7 / (0 - 2)"), Ok(Value::Number(-3)));
    assert_eq!(source("(0 - 7) / (0 - 2)"), Ok(Value::Number(3)));
}

#[test]
fn division_of_the_least_integer_wraps() {
    assert_eq!(source("(0 - 2147483647 - 1) / (0 - 1)"), Ok(Value::Number(i32::MIN)));
}

#[test]
fn division_by_zero_is_a_fault() {
    assert_eq!(source("1 / 0"), Err(Failure::Runtime(Fault::DivisionByZero)));
    let tree = program("1 / 0").unwrap().1;
    assert_eq!(start_interpreter(&tree), Err("Division by zero".to_string()));
}

#[test]
fn power_multiplies_repeatedly() {
    assert_eq!(source("2 ^ 10"), Ok(Value::Number(1024)));
    assert_eq!(source("(0 - 3) ^ 3"), Ok(Value::Number(-27)));
    assert_eq!(source("2 ^ 3 ^ 2"), Ok(Value::Number(64)));
    assert_eq!(source("2 ^ 31"), Ok(Value::Number(i32::MIN)));
    assert_eq!(source("2 ^ 32"), Ok(Value::Number(0)));
}

#[test]
fn power_with_no_positive_exponent_is_one() {
    assert_eq!(source("5 ^ 0"), Ok(Value::Number(1)));
    assert_eq!(source("5 ^ (0 - 2)"), Ok(Value::Number(1)));
    assert_eq!(source("0 ^ 0"), Ok(Value::Number(1)));
}

#[test]
fn left_association_decides_the_value() {
    assert_eq!(source("8 / 4 / 2"), Ok(Value::Number(1)));
    assert_eq!(source("10 - 4 - 3"), Ok(Value::Number(3)));
}

#[test]
fn unknown_arithmetic_operator() {
    let mut runtime = Runtime::new();
    assert_eq!(runtime.evaluate(&math("%", num(1), num(2))), Err(Fault::UndefinedOperator));
    assert_eq!(runtime.run(&math("", num(1), num(2))), Err("Undefined operator".to_string()));
    assert_eq!(runtime.run(&math("++", num(1), num(2))), Err("Undefined operator".to_string()));
}

#[test]
fn arithmetic_needs_integers() {
    let mut runtime = Runtime::new();
    let fault = Err("Cannot do math on String or Bool".to_string());
    assert_eq!(runtime.run(&math("+", Node::Bool { value: true }, num(1))), fault);
    assert_eq!(runtime.run(&math("+", num(1), text("a"))), fault);
    // The operands are looked at before the operator.
    assert_eq!(runtime.run(&math("%", text("a"), num(1))), fault);
}

#[test]
fn a_failing_operand_fails_the_arithmetic() {
    assert_eq!(source("x + 1"), Err(Failure::Runtime(Fault::UndefinedVariable)));
    assert_eq!(source("1 + f()"), Err(Failure::Runtime(Fault::UndefinedFunction)));
}

#[test]
fn arithmetic_lacking_an_operand_is_unhandled() {
    let mut runtime = Runtime::new();
    let node = Node::MathExpression { name: "+".to_string(), children: vec![num(1)] };
    assert_eq!(runtime.run(&node), Err("Unhandled Node".to_string()));
}

#[test]
fn comparisons_of_integers() {
    let cases = [
        ("1 < 2", true),
        ("2 < 2", false),
        ("3 > 2", true),
        ("2 > 2", false),
        ("2 <= 2", true),
        ("3 <= 2", false),
        ("2 >= 2", true),
        ("1 >= 2", false),
        ("2 == 2", true),
        ("1 == 2", false),
        ("1 != 2", true),
        ("2 != 2", false),
    ];
    for (text, expected) in cases {
        assert_eq!(source(text), Ok(Value::Bool(expected)), "{}", text);
    }
}

#[test]
fn comparisons_of_booleans() {
    assert_eq!(source("false < true"), Ok(Value::Bool(true)));
    assert_eq!(source("true < false"), Ok(Value::Bool(false)));
    assert_eq!(source("true == true"), Ok(Value::Bool(true)));
    assert_eq!(source("true >= false"), Ok(Value::Bool(true)));
}

#[test]
fn comparisons_of_strings() {
    let compare = |l: &str, symbol: &str, r: &str| {
        in_main(vec![
            define("a", text(l)),
            define("b", text(r)),
            give(comparison(id("a"), symbol, id("b"))),
        ])
    };
    assert_eq!(compare("abc", "<", "abd"), Ok(Value::Bool(true)));
    assert_eq!(compare("abc", "<", "abc"), Ok(Value::Bool(false)));
    assert_eq!(compare("ab", "<", "abc"), Ok(Value::Bool(true)));
    assert_eq!(compare("abc", "<", "ab"), Ok(Value::Bool(false)));
    assert_eq!(compare("b", ">", "abc"), Ok(Value::Bool(true)));
    assert_eq!(compare("Zebra", "<", "apple"), Ok(Value::Bool(true)));
    assert_eq!(compare("abc", "==", "abc"), Ok(Value::Bool(true)));
    assert_eq!(compare("abc", "!=", "abd"), Ok(Value::Bool(true)));
    assert_eq!(compare("abc", "<=", "abc"), Ok(Value::Bool(true)));
    assert_eq!(compare("", ">=", "a"), Ok(Value::Bool(false)));
}

#[test]
fn values_of_different_kinds_do_not_compare() {
    assert_eq!(source("7 > true"), Err(Failure::Runtime(Fault::CannotCompare)));
    assert_eq!(source("true == 1"), Err(Failure::Runtime(Fault::CannotCompare)));
    let mixed = in_main(vec![define("a", text("1")), give(comparison(id("a"), "==", num(1)))]);
    assert_eq!(mixed, Err(Fault::CannotCompare));
}

#[test]
fn unknown_comparison_operator() {
    let mut runtime = Runtime::new();
    let node = Node::ConditionalExpression {
        children: vec![comparand(num(1)), operator("<>"), comparand(num(2))],
    };
    assert_eq!(runtime.run(&node), Err("Unknown operator".to_string()));
    let node = Node::ConditionalExpression {
        children: vec![comparand(num(1)), num(5), comparand(num(2))],
    };
    assert_eq!(runtime.run(&node), Err("Unknown operator".to_string()));
}

#[test]
fn only_the_first_comparison_of_a_chain_counts() {
    assert_eq!(source("1 < 2 < 0"), Ok(Value::Bool(true)));
    assert_eq!(source("2 < 1 == 7"), Ok(Value::Bool(false)));
}

#[test]
fn comparand_takes_few_kinds() {
    let mut runtime = Runtime::new();
    assert_eq!(runtime.run(&comparand(text("a"))), Err("Unknown Statement".to_string()));
    assert_eq!(
        runtime.run(&Node::ConditionalValue { children: vec![] }),
        Err("Unknown Statement".to_string())
    );
    assert_eq!(runtime.run(&comparand(num(3))), Ok(Value::Number(3)));
}

#[test]
fn operator_node_yields_its_text() {
    let mut runtime = Runtime::new();
    assert_eq!(runtime.run(&operator("<=")), Ok(Value::String("<=".to_string())));
}

#[test]
fn statement_takes_definitions_and_returns() {
    let mut runtime = Runtime::new();
    let node = Node::Statement { children: vec![num(1)] };
    assert_eq!(runtime.run(&node), Err("Unknown Statement".to_string()));
    let node = Node::Statement { children: vec![] };
    assert_eq!(runtime.run(&node), Err("Unknown Statement".to_string()));
    let node = Node::Statement { children: vec![give(num(4))] };
    assert_eq!(runtime.run(&node), Ok(Value::Number(4)));
}

#[test]
fn expression_takes_few_kinds() {
    let mut runtime = Runtime::new();
    let node = expr(comparison(num(1), "<", num(2)));
    assert_eq!(runtime.run(&node), Err("Unknown Expression".to_string()));
    let node = Node::Expression { children: vec![] };
    assert_eq!(runtime.run(&node), Err("Unknown Expression".to_string()));
}

#[test]
fn argument_list_cannot_be_evaluated() {
    let mut runtime = Runtime::new();
    let node = Node::FunctionArguments { children: vec![expr(num(1))] };
    assert_eq!(runtime.run(&node), Err("Unhandled Node".to_string()));
    assert_eq!(runtime.evaluate(&give_nothing()), Err(Fault::UnhandledNode));
}

fn give_nothing() -> Node {
    Node::FunctionReturn { children: vec![] }
}

#[test]
fn variables_live_in_the_current_frame() {
    assert_eq!(in_main(vec![define("x", num(5)), give(expr(id("x")))]), Ok(Value::Number(5)));
    assert_eq!(in_main(vec![give(expr(id("x")))]), Err(Fault::UndefinedVariable));
}

#[test]
fn a_later_definition_replaces_an_earlier_one() {
    let body = vec![define("x", num(1)), define("x", num(2)), give(expr(id("x")))];
    assert_eq!(in_main(body), Ok(Value::Number(2)));
}

#[test]
fn a_callee_does_not_see_the_callers_variables() {
    let tree = Node::Program {
        children: vec![
            function("main", vec![define("x", num(1)), give(call("inner", vec![]))]),
            function("inner", vec![give(expr(id("x")))]),
        ],
    };
    assert_eq!(start(&tree), Err(Fault::UndefinedVariable));
}

#[test]
fn a_definition_without_a_frame_underflows() {
    let mut runtime = Runtime::new();
    assert_eq!(runtime.run(&define("x", num(1))), Err("Stack underflow".to_string()));
    assert_eq!(runtime.run(&id("x")), Err("Undefined variable".to_string()));
}

#[test]
fn a_definition_with_one_child_is_unhandled() {
    let node = Node::VariableDefine { children: vec![id("x")] };
    assert_eq!(in_main(vec![node]), Err(Fault::UnhandledNode));
}

#[test]
fn arguments_are_bound_by_position() {
    assert_eq!(
        source("fn main(){return sub(10,3);} fn sub(a,b){return a-b;}"),
        Ok(Value::Number(7))
    );
}

#[test]
fn arguments_are_evaluated_in_the_callers_frame() {
    assert_eq!(
        source("fn main(){let a = 4; return twice(a + 1);} fn twice(a){return a * 2;}"),
        Ok(Value::Number(10))
    );
}

#[test]
fn arguments_beyond_the_parameters_are_passed_over() {
    assert_eq!(source("fn main(){return f(1,2,3);} fn f(a){return a;}"), Ok(Value::Number(1)));
    assert_eq!(source("fn main(){return f(1,nothing);} fn f(a){return a;}"), Ok(Value::Number(1)));
}

#[test]
fn a_missing_argument_is_a_fault() {
    assert_eq!(
        source("fn main(){return f(1);} fn f(a,b){return a;}"),
        Err(Failure::Runtime(Fault::MissingArgument))
    );
    assert_eq!(
        source("fn main(){return f();} fn f(a){return a;}"),
        Err(Failure::Runtime(Fault::MissingArgument))
    );
    let tree = program("fn main(){return f();} fn f(a){return a;}").unwrap().1;
    assert_eq!(start_interpreter(&tree), Err("Missing argument".to_string()));
}

#[test]
fn a_failing_argument_fails_the_call() {
    assert_eq!(
        source("fn main(){return f(x);} fn f(a){return 1;}"),
        Err(Failure::Runtime(Fault::UndefinedVariable))
    );
}

#[test]
fn the_last_node_of_a_body_decides() {
    assert_eq!(source("fn main(){return 1;return 2;}"), Ok(Value::Number(2)));
    assert_eq!(source("fn main(){return 1;let x = 7;}"), Ok(Value::Number(7)));
    assert_eq!(
        source("fn main(){return 1;return x;}"),
        Err(Failure::Runtime(Fault::UndefinedVariable))
    );
}

#[test]
fn a_body_of_parameters_alone_yields_true() {
    let tree = Node::Program {
        children: vec![
            function("main", vec![give(call("f", vec![expr(num(1))]))]),
            function("f", vec![Node::FunctionArguments { children: vec![expr(id("a"))] }]),
        ],
    };
    assert_eq!(start(&tree), Ok(Value::Bool(true)));
}

#[test]
fn the_last_definition_of_a_name_counts() {
    assert_eq!(source("fn main(){return 1;} fn main(){return 2;}"), Ok(Value::Number(2)));
    assert_eq!(source("fn main(){return 1;} 5"), Ok(Value::Number(5)));
    assert_eq!(source("5fn main(){return 1;}"), Ok(Value::Number(1)));
}

#[test]
fn a_program_without_main_has_no_function_to_call() {
    assert_eq!(source("fn f(){return 1;}"), Err(Failure::Runtime(Fault::UndefinedFunction)));
    assert_eq!(start_interpreter(&num(1)), Err("Undefined function".to_string()));
}

#[test]
fn runaway_recursion_is_stopped() {
    assert_eq!(
        source("fn main(){return main();}"),
        Err(Failure::Runtime(Fault::CallDepthExceeded))
    );
    let tree = program("fn main(){return f();} fn f(){return main();}").unwrap().1;
    assert_eq!(start_interpreter(&tree), Err("Call depth exceeded".to_string()));
}

#[test]
fn a_failed_call_leaves_no_frame() {
    let mut runtime = Runtime::new();
    let tree = program("fn main(){let x = 1; return y;}").unwrap().1;
    assert_eq!(runtime.run(&tree), Ok(Value::Bool(true)));
    assert_eq!(runtime.run(&call("main", vec![])), Err("Undefined variable".to_string()));
    // With the frame still there this would bind `z`, or find `x`.
    assert_eq!(runtime.run(&define("z", num(1))), Err("Stack underflow".to_string()));
    assert_eq!(runtime.run(&id("x")), Err("Undefined variable".to_string()));
}

#[test]
fn evaluating_a_program_only_registers() {
    let mut runtime = Runtime::new();
    let tree = program("fn f(){return nothing();} 1 / 0").unwrap().1;
    assert_eq!(runtime.run(&tree), Ok(Value::Bool(true)));
    assert_eq!(runtime.run(&call("main", vec![])), Err("Division by zero".to_string()));
    assert_eq!(runtime.run(&call("f", vec![])), Err("Undefined function".to_string()));
}

#[test]
fn a_definition_without_a_name_registers_nothing() {
    let mut runtime = Runtime::new();
    let node = Node::FunctionDefine { children: vec![num(1), give(num(2))] };
    assert_eq!(runtime.run(&node), Ok(Value::Bool(true)));
    assert_eq!(runtime.run(&Node::FunctionDefine { children: vec![] }), Ok(Value::Bool(true)));
    assert_eq!(runtime.run(&call("1", vec![])), Err("Undefined function".to_string()));
}

#[test]
fn a_branch_yields_its_condition() {
    let branch = |kind: fn(Vec<Node>) -> Node, l: i32| {
        in_main(vec![give(kind(vec![comparison(num(l), "<", num(2)), give(num(9))]))])
    };
    let as_if = |children| Node::IfStatement { children };
    let as_else_if = |children| Node::ElseIfStatement { children };
    assert_eq!(branch(as_if, 1), Ok(Value::Bool(true)));
    assert_eq!(branch(as_if, 3), Ok(Value::Bool(false)));
    assert_eq!(branch(as_else_if, 1), Ok(Value::Bool(true)));
    assert_eq!(branch(as_else_if, 3), Ok(Value::Bool(false)));
}

#[test]
fn a_branch_runs_its_statements_where_the_condition_holds() {
    let body = |l: i32| {
        vec![
            define("x", num(0)),
            Node::IfStatement {
                children: vec![comparison(num(l), "<", num(2)), define("x", num(9)), give(num(1))],
            },
            give(expr(id("x"))),
        ]
    };
    assert_eq!(in_main(body(1)), Ok(Value::Number(9)));
    assert_eq!(in_main(body(3)), Ok(Value::Number(0)));
}

#[test]
fn a_failing_statement_fails_the_branch() {
    let node = Node::IfStatement {
        children: vec![comparison(num(1), "<", num(2)), define("x", id("missing")), give(num(1))],
    };
    assert_eq!(in_main(vec![node]), Err(Fault::UndefinedVariable));
}

#[test]
fn a_branch_needs_a_comparison_first() {
    let mut runtime = Runtime::new();
    let bad = vec![num(1), give(num(2))];
    assert_eq!(
        runtime.run(&Node::IfStatement { children: bad.clone() }),
        Err("Unknown Expression".to_string())
    );
    assert_eq!(
        runtime.run(&Node::ElseIfStatement { children: bad }),
        Err("Unknown Statement".to_string())
    );
    assert_eq!(
        runtime.run(&Node::IfStatement { children: vec![] }),
        Err("Unknown Expression".to_string())
    );
}

#[test]
fn an_else_block_runs_its_statements_and_yields_true() {
    let body = vec![
        Node::ElseStatement { children: vec![define("x", num(3)), give(num(0))] },
        give(expr(id("x"))),
    ];
    assert_eq!(in_main(body), Ok(Value::Number(3)));
    assert_eq!(
        in_main(vec![Node::ElseStatement { children: vec![give(num(0))] }]),
        Ok(Value::Bool(true))
    );
}

#[test]
fn a_chain_yields_its_first_branch() {
    let chain = |l: i32| Node::IfElseStatements {
        children: vec![
            Node::IfStatement { children: vec![comparison(num(l), "<", num(2)), give(num(1))] },
            Node::ElseStatement { children: vec![give(num(2))] },
        ],
    };
    assert_eq!(in_main(vec![give(chain(1))]), Ok(Value::Bool(true)));
    assert_eq!(in_main(vec![give(chain(5))]), Ok(Value::Bool(false)));
    let empty = Node::IfElseStatements { children: vec![] };
    assert_eq!(in_main(vec![give(empty)]), Ok(Value::Bool(true)));
}

#[test]
fn run_wants_the_whole_source() {
    assert_eq!(source("1 x"), Err(Failure::TrailingInput));
    assert_eq!(source("1 + "), Err(Failure::TrailingInput));
    assert_eq!(source("if 1 < 2 { return 1; }"), Err(Failure::TrailingInput));
    assert_eq!(source("1"), Ok(Value::Number(1)));
}

#[test]
fn run_reports_what_the_parser_reports() {
    assert_eq!(source(""), Err(Failure::Syntax(ParseError::Mismatch)));
    assert_eq!(source("; 1"), Err(Failure::Syntax(ParseError::Mismatch)));
    assert_eq!(source("1 + 4294967296"), Err(Failure::Syntax(ParseError::NumberOutOfRange)));
}

#[test]
fn spaces_around_operators_do_not_change_the_value() {
    let dense = source("fn main(){return 1+2*3-8/4^1;}");
    assert_eq!(dense, Ok(Value::Number(5)));
    assert_eq!(source("fn main(){return 1 + 2 * 3 - 8 / 4 ^ 1;}"), dense);
    assert_eq!(source("fn main(){return 1  +2*   3 -8/  4   ^1;}"), dense);
}

#[test]
fn arithmetic_does_not_depend_on_the_state() {
    let tree = program("(1 + 2) * 3 - 4").unwrap().1;
    let inner = match &tree {
        Node::Program { children } => children[0].clone(),
        other => panic!("{:?}", other),
    };
    let mut fresh = Runtime::new();
    let mut used = Runtime::new();
    assert_eq!(used.run(&program("fn f(a){return a;} 7").unwrap().1), Ok(Value::Bool(true)));
    let first = fresh.run(&inner);
    assert_eq!(first, Ok(Value::Number(5)));
    assert_eq!(fresh.run(&inner), first);
    assert_eq!(used.run(&inner), first);
}

#[test]
fn every_fault_has_its_text() {
    let texts = [
        (Fault::UndefinedFunction, "Undefined function"),
        (Fault::UndefinedVariable, "Undefined variable"),
        (Fault::UndefinedOperator, "Undefined operator"),
        (Fault::UnknownOperator, "Unknown operator"),
        (Fault::UnknownStatement, "Unknown Statement"),
        (Fault::UnknownExpression, "Unknown Expression"),
        (Fault::CannotDoMath, "Cannot do math on String or Bool"),
        (Fault::CannotCompare, "Cannot compare these two values"),
        (Fault::UnhandledNode, "Unhandled Node"),
        (Fault::DivisionByZero, "Division by zero"),
        (Fault::MissingArgument, "Missing argument"),
        (Fault::StackUnderflow, "Stack underflow"),
        (Fault::CallDepthExceeded, "Call depth exceeded"),
    ];
    for (fault, text) in texts {
        assert_eq!(fault.message(), text);
    }
}

#[test]
fn nodes_and_values_copy_whole() {
    let tree = program("fn main(){let s = \"a b\"; return f(s,1 + 2);} fn f(a,b){return a;}")
        .unwrap()
        .1;
    assert_eq!(tree.clone(), tree);
    let value = Value::String("a b".to_string());
    assert_eq!(value.clone(), value);
    assert_eq!(start_interpreter(&tree.clone()), Ok(value));
}
