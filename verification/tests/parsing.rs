use asalang::parser;
use asalang::{Node, ParseError};

fn id(name: &str) -> Node {
    Node::Identifier { value: name.to_string() }
}

fn num(value: i32) -> Node {
    Node::Number { value }
}

fn math(name: &str, l: Node, r: Node) -> Node {
    Node::MathExpression { name: name.to_string(), children: vec![l, r] }
}

fn expr(inner: Node) -> Node {
    Node::Expression { children: vec![inner] }
}

fn comparand(inner: Node) -> Node {
    Node::ConditionalValue { children: vec![inner] }
}

fn operator(text: &str) -> Node {
    Node::ConditionalOperator { value: text.to_string() }
}

#[test]
fn identifier_takes_the_alphanumeric_run() {
    assert_eq!(parser::identifier("abc1 def"), Ok((" def", id("abc1"))));
    assert_eq!(parser::identifier("9lives"), Ok(("", id("9lives"))));
    assert_eq!(parser::identifier(" x"), Err(ParseError::Mismatch));
    assert_eq!(parser::identifier(""), Err(ParseError::Mismatch));
    assert_eq!(parser::identifier("é"), Err(ParseError::Mismatch));
}

#[test]
fn number_takes_the_digit_run() {
    assert_eq!(parser::number("123abc"), Ok(("abc", num(123))));
    assert_eq!(parser::number("007"), Ok(("", num(7))));
    assert_eq!(parser::number("x1"), Err(ParseError::Mismatch));
    assert_eq!(parser::number("-1"), Err(ParseError::Mismatch));
}

#[test]
fn number_stops_at_the_32_bit_range() {
    assert_eq!(parser::number("2147483647"), Ok(("", num(i32::MAX))));
    assert_eq!(parser::number("2147483648"), Err(ParseError::NumberOutOfRange));
    assert_eq!(parser::number("99999999999999999999"), Err(ParseError::NumberOutOfRange));
}

#[test]
fn number_out_of_range_stops_the_whole_parse() {
    assert_eq!(parser::program("1 + 99999999999"), Err(ParseError::NumberOutOfRange));
    assert_eq!(parser::l4("99999999999"), Err(ParseError::NumberOutOfRange));
}

#[test]
fn boolean_literals() {
    assert_eq!(parser::boolean("true"), Ok(("", Node::Bool { value: true })));
    assert_eq!(parser::boolean("falsey"), Ok(("y", Node::Bool { value: false })));
    assert_eq!(parser::boolean("True"), Err(ParseError::Mismatch));
}

#[test]
fn string_literals() {
    assert_eq!(
        parser::string("\"hello world\" rest"),
        Ok((" rest", Node::String { value: "hello world".to_string() }))
    );
    assert_eq!(parser::string("\" a  b \""), Ok(("", Node::String { value: " a  b ".to_string() })));
    assert_eq!(parser::string("\"\""), Err(ParseError::Mismatch));
    assert_eq!(parser::string("\"a-b\""), Err(ParseError::Mismatch));
    assert_eq!(parser::string("\"open"), Err(ParseError::Mismatch));
    assert_eq!(parser::string("plain"), Err(ParseError::Mismatch));
}

#[test]
fn conditional_operators() {
    for text in ["<", ">", "<=", ">=", "==", "!="] {
        assert_eq!(parser::conditional_operator(text), Ok(("", operator(text))));
    }
    assert_eq!(parser::conditional_operator("<=="), Ok(("=", operator("<="))));
    assert_eq!(parser::conditional_operator("="), Err(ParseError::Mismatch));
    assert_eq!(parser::conditional_operator("!"), Err(ParseError::Mismatch));
}

#[test]
fn function_call_shapes() {
    assert_eq!(
        parser::function_call("foo()"),
        Ok(("", Node::FunctionCall { name: "foo".to_string(), children: vec![] }))
    );
    assert_eq!(
        parser::function_call("foo(1,x)+2"),
        Ok((
            "+2",
            Node::FunctionCall {
                name: "foo".to_string(),
                children: vec![Node::FunctionArguments {
                    children: vec![expr(num(1)), expr(id("x"))],
                }],
            }
        ))
    );
    assert_eq!(parser::function_call("foo"), Err(ParseError::Mismatch));
    assert_eq!(parser::function_call("foo (1)"), Err(ParseError::Mismatch));
    assert_eq!(parser::function_call("foo(1"), Err(ParseError::Mismatch));
}

#[test]
fn parentheses_take_spaces_on_both_sides() {
    assert_eq!(parser::parenthetical_expression(" ( 1 ) x"), Ok(("x", num(1))));
    assert_eq!(parser::parenthetical_expression("(1+2)"), Ok(("", math("+", num(1), num(2)))));
    assert_eq!(parser::parenthetical_expression("(1"), Err(ParseError::Mismatch));
    assert_eq!(parser::parenthetical_expression("()"), Err(ParseError::Mismatch));
}

#[test]
fn l4_tries_call_number_identifier_parentheses() {
    assert_eq!(
        parser::l4("f()"),
        Ok(("", Node::FunctionCall { name: "f".to_string(), children: vec![] }))
    );
    assert_eq!(parser::l4("12"), Ok(("", num(12))));
    assert_eq!(parser::l4("a1"), Ok(("", id("a1"))));
    assert_eq!(parser::l4("(a)"), Ok(("", id("a"))));
    assert_eq!(parser::l4("+"), Err(ParseError::Mismatch));
}

#[test]
fn infix_rules_hold_operator_and_right_operand() {
    let single = |name: &str, operand: Node| Node::MathExpression {
        name: name.to_string(),
        children: vec![operand],
    };
    assert_eq!(parser::l3_infix(" ^ 2"), Ok(("", single("^", num(2)))));
    assert_eq!(parser::l2_infix("*x"), Ok(("", single("*", id("x")))));
    assert_eq!(parser::l2_infix(" / 2^3"), Ok(("", single("/", math("^", num(2), num(3))))));
    assert_eq!(parser::l1_infix("  -  1*2"), Ok(("", single("-", math("*", num(1), num(2))))));
    assert_eq!(parser::l1_infix("+ 1"), Ok(("", single("+", num(1)))));
    assert_eq!(parser::l1_infix("* 1"), Err(ParseError::Mismatch));
    assert_eq!(parser::l3_infix("^"), Err(ParseError::Mismatch));
}

#[test]
fn levels_associate_to_the_left() {
    assert_eq!(parser::l3("2^3^2"), Ok(("", math("^", math("^", num(2), num(3)), num(2)))));
    assert_eq!(parser::l2("8/4/2"), Ok(("", math("/", math("/", num(8), num(4)), num(2)))));
    assert_eq!(parser::l1("2-3-4"), Ok(("", math("-", math("-", num(2), num(3)), num(4)))));
}

#[test]
fn levels_order_by_precedence() {
    assert_eq!(
        parser::math_expression("1 + 2 * 3 ^ 4"),
        Ok(("", math("+", num(1), math("*", num(2), math("^", num(3), num(4))))))
    );
    assert_eq!(
        parser::math_expression("(1 + 2) * 3"),
        Ok(("", math("*", math("+", num(1), num(2)), num(3))))
    );
}

#[test]
fn a_failed_infix_gives_its_spaces_back() {
    assert_eq!(parser::l1("1 + "), Ok((" + ", num(1))));
    assert_eq!(parser::l1("1 < 2"), Ok((" < 2", num(1))));
}

#[test]
fn expression_tries_boolean_first() {
    assert_eq!(parser::expression("true"), Ok(("", expr(Node::Bool { value: true }))));
    assert_eq!(parser::expression("truest"), Ok(("st", expr(Node::Bool { value: true }))));
    assert_eq!(parser::expression("truth"), Ok(("", expr(id("truth")))));
    assert_eq!(parser::expression("x+1"), Ok(("", expr(math("+", id("x"), num(1))))));
    assert_eq!(
        parser::expression("\"s\""),
        Ok(("", expr(Node::String { value: "s".to_string() })))
    );
    assert_eq!(parser::expression(";"), Err(ParseError::Mismatch));
}

#[test]
fn arguments_are_separated_by_commas() {
    assert_eq!(
        parser::arguments("1,true,\"s\")"),
        Ok((
            ")",
            Node::FunctionArguments {
                children: vec![
                    expr(num(1)),
                    expr(Node::Bool { value: true }),
                    expr(Node::String { value: "s".to_string() }),
                ],
            }
        ))
    );
    assert_eq!(parser::arguments("1, 2"), Ok((", 2", Node::FunctionArguments {
        children: vec![expr(num(1))],
    })));
    assert_eq!(parser::other_arg(",x"), Ok(("", expr(id("x")))));
    assert_eq!(parser::other_arg("x"), Err(ParseError::Mismatch));
}

#[test]
fn variable_define_shapes() {
    assert_eq!(
        parser::variable_define("let x  =  1;"),
        Ok((";", Node::VariableDefine { children: vec![id("x"), expr(num(1))] }))
    );
    assert_eq!(parser::variable_define("letx = 1"), Err(ParseError::Mismatch));
    assert_eq!(parser::variable_define("let x 1"), Err(ParseError::Mismatch));
}

#[test]
fn statement_takes_blanks_and_line_ends() {
    let define = Node::VariableDefine { children: vec![id("x"), expr(num(1))] };
    assert_eq!(
        parser::statement(" \t let x = 1;  \n\nnext"),
        Ok(("next", Node::Statement { children: vec![define] }))
    );
    assert_eq!(parser::statement("let x = 1"), Err(ParseError::Mismatch));
    assert_eq!(parser::statement("\nlet x = 1;"), Err(ParseError::Mismatch));
    assert_eq!(parser::statement("return 1;"), Err(ParseError::Mismatch));
}

#[test]
fn function_return_tries_the_call_first() {
    assert_eq!(
        parser::function_return("return f();"),
        Ok((
            ";",
            Node::FunctionReturn {
                children: vec![Node::FunctionCall { name: "f".to_string(), children: vec![] }],
            }
        ))
    );
    assert_eq!(
        parser::function_return("return x;"),
        Ok((";", Node::FunctionReturn { children: vec![expr(id("x"))] }))
    );
    assert_eq!(parser::function_return("returnx"), Err(ParseError::Mismatch));
}

#[test]
fn conditional_val_wraps_its_operand() {
    assert_eq!(parser::conditional_val("1+1 <"), Ok((" <", comparand(math("+", num(1), num(1))))));
    assert_eq!(parser::conditional_val("true"), Ok(("", comparand(Node::Bool { value: true }))));
    assert_eq!(parser::conditional_val("\"s\""), Err(ParseError::Mismatch));
}

#[test]
fn conditional_exp_needs_one_comparison() {
    assert_eq!(
        parser::conditional_exp("a<=1"),
        Ok((
            "",
            Node::ConditionalExpression {
                children: vec![comparand(id("a")), operator("<="), comparand(num(1))],
            }
        ))
    );
    assert_eq!(parser::conditional_exp("a"), Err(ParseError::Mismatch));
    assert_eq!(parser::conditional_exp("a <"), Err(ParseError::Mismatch));
}

#[test]
fn conditional_exp_takes_further_pairs() {
    assert_eq!(
        parser::conditional_exp("1 < 2 < 3 {"),
        Ok((
            " {",
            Node::ConditionalExpression {
                children: vec![
                    comparand(num(1)),
                    operator("<"),
                    comparand(num(2)),
                    operator("<"),
                    comparand(num(3)),
                ],
            }
        ))
    );
}

#[test]
fn if_statement_children_are_condition_statements_returns() {
    let (rest, node) = parser::if_statement("if  1 < 2  {\n let x = 1;\n return x;\n}\n else").unwrap();
    assert_eq!(rest, "else");
    match node {
        Node::IfStatement { children } => {
            assert_eq!(children.len(), 3);
            assert!(matches!(children[0], Node::ConditionalExpression { .. }));
            assert!(matches!(children[1], Node::Statement { .. }));
            assert!(matches!(children[2], Node::FunctionReturn { .. }));
        },
        other => panic!("{:?}", other),
    }
    assert_eq!(parser::if_statement("if 1 < 2 { let x = 1; }"), Err(ParseError::Mismatch));
    assert_eq!(parser::if_statement("if 1 < 2 { return 1 }"), Err(ParseError::Mismatch));
    assert_eq!(parser::if_statement("if1 < 2 { return 1; }"), Err(ParseError::Mismatch));
}

#[test]
fn else_if_and_else_shapes() {
    let (rest, node) = parser::else_if("else if a == 1 {return true;}x").unwrap();
    assert_eq!(rest, "x");
    assert!(matches!(node, Node::ElseIfStatement { ref children } if children.len() == 2));
    let (rest, node) = parser::else_statement("else {let y = 2; return y;} ").unwrap();
    assert_eq!(rest, "");
    assert!(matches!(node, Node::ElseStatement { ref children } if children.len() == 2));
    assert_eq!(parser::else_statement("else  {return 1;}"), Err(ParseError::Mismatch));
    assert_eq!(parser::else_statement("else{return 1;}"), Err(ParseError::Mismatch));
}

#[test]
fn if_else_statements_need_an_else() {
    let (rest, node) = parser::if_else_statements(
        "if 1 < 2 {return 1;} else if 2 < 3 {return 2;} else if 3 < 4 {return 3;} else {return 4;} else {return 5;}",
    )
    .unwrap();
    assert_eq!(rest, "");
    match node {
        Node::IfElseStatements { children } => {
            assert_eq!(children.len(), 5);
            assert!(matches!(children[0], Node::IfStatement { .. }));
            assert!(matches!(children[1], Node::ElseIfStatement { .. }));
            assert!(matches!(children[2], Node::ElseIfStatement { .. }));
            assert!(matches!(children[3], Node::ElseStatement { .. }));
            assert!(matches!(children[4], Node::ElseStatement { .. }));
        },
        other => panic!("{:?}", other),
    }
    assert_eq!(parser::if_else_statements("if 1 < 2 {return 1;}"), Err(ParseError::Mismatch));
    assert_eq!(
        parser::if_else_statements("if 1 < 2 {return 1;} else if 2 < 3 {return 2;}"),
        Err(ParseError::Mismatch)
    );
}

#[test]
fn function_definition_keeps_the_argument_list() {
    let (rest, node) = parser::function_definition("fn add(a,b) {\nlet c = a + b;\nreturn c;\n}\n \n").unwrap();
    assert_eq!(rest, "");
    match node {
        Node::FunctionDefine { children } => {
            assert_eq!(children.len(), 4);
            assert_eq!(children[0], id("add"));
            assert_eq!(
                children[1],
                Node::FunctionArguments { children: vec![expr(id("a")), expr(id("b"))] }
            );
            assert!(matches!(children[2], Node::Statement { .. }));
            assert_eq!(
                children[3],
                Node::Statement {
                    children: vec![Node::FunctionReturn { children: vec![expr(id("c"))] }],
                }
            );
        },
        other => panic!("{:?}", other),
    }
}

#[test]
fn function_definition_needs_a_body() {
    assert_eq!(parser::function_definition("fn f(){}"), Err(ParseError::Mismatch));
    assert_eq!(parser::function_definition("fn f() return 1;"), Err(ParseError::Mismatch));
    assert_eq!(parser::function_definition("fnf(){return 1;}"), Err(ParseError::Mismatch));
    assert_eq!(parser::function_definition("fn f (){return 1;}"), Err(ParseError::Mismatch));
}

#[test]
fn program_keeps_its_items_in_order() {
    let (rest, node) = parser::program("fn a(){return 1;}fn b(){return 2;}3").unwrap();
    assert_eq!(rest, "");
    match node {
        Node::Program { children } => {
            assert_eq!(children.len(), 3);
            assert!(matches!(children[0], Node::FunctionDefine { .. }));
            assert!(matches!(children[1], Node::FunctionDefine { .. }));
            assert_eq!(children[2], expr(num(3)));
        },
        other => panic!("{:?}", other),
    }
}

#[test]
fn program_stops_where_no_item_matches() {
    let (rest, node) = parser::program("1 x").unwrap();
    assert_eq!(rest, " x");
    assert_eq!(node, Node::Program { children: vec![expr(num(1))] });
    assert_eq!(parser::program(""), Err(ParseError::Mismatch));
    assert_eq!(parser::program(" 1"), Err(ParseError::Mismatch));
}

#[test]
fn spaces_around_operators_do_not_change_the_tree() {
    let dense = parser::math_expression("1+2*3-f(4^5)/x").unwrap().1;
    for spaced in [
        "1 + 2 * 3 - f(4 ^ 5) / x",
        "1  +2*  3   -f(4   ^5)/    x",
        "1+ 2 *3 - f(4^ 5) /x",
    ] {
        assert_eq!(parser::math_expression(spaced), Ok(("", dense.clone())));
    }
}
