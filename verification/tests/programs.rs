use asalang::parser::program;
use asalang::{start_interpreter, Value};

fn run(source: &str) -> Result<Value, String> {
    match program(source) {
        Ok((rest, tree)) => {
            assert_eq!(rest, "");
            start_interpreter(&tree)
        },
        Err(e) => panic!("{:?}", e),
    }
}

fn number(n: i32) -> Result<Value, String> {
    Ok(Value::Number(n))
}

fn boolean(b: bool) -> Result<Value, String> {
    Ok(Value::Bool(b))
}

fn error(text: &str) -> Result<Value, String> {
    Err(text.to_string())
}

#[test]
fn numeric() {
    assert_eq!(run("123"), number(123));
}

#[test]
fn identifier() {
    assert_eq!(run("x"), error("Undefined variable"));
}

#[test]
fn string() {
    assert_eq!(run("\"hello world\""), Ok(Value::String("hello world".to_string())));
}

#[test]
fn bool_true() {
    assert_eq!(run("true"), boolean(true));
}

#[test]
fn bool_false() {
    assert_eq!(run("false"), boolean(false));
}

#[test]
fn function_call() {
    assert_eq!(run("foo()"), error("Undefined function"));
}

#[test]
fn function_call_one_arg() {
    assert_eq!(run("foo(a)"), error("Undefined function"));
}

#[test]
fn function_call_more_args() {
    assert_eq!(run("foo(a,b,c)"), error("Undefined function"));
}

#[test]
fn variable_define() {
    assert_eq!(run("let x = 123;"), number(123));
}

#[test]
fn variable_init() {
    assert_eq!(run("let x = 1;"), number(1));
}

#[test]
fn variable_bool() {
    assert_eq!(run("let bool = true;"), boolean(true));
}

#[test]
fn variable_string() {
    assert_eq!(
        run("let string = \"Hello World\";"),
        Ok(Value::String("Hello World".to_string()))
    );
}

#[test]
fn variable_init_no_space() {
    assert_eq!(run("let x=1;"), number(1));
}

#[test]
fn math() {
    assert_eq!(run("1 + 1"), number(2));
}

#[test]
fn math_no_space() {
    assert_eq!(run("1+1"), number(2));
}

#[test]
fn math_subtraction() {
    assert_eq!(run("1 - 1"), number(0));
}

#[test]
fn math_multiply() {
    assert_eq!(run("2 * 4"), number(8));
}

#[test]
fn math_divide() {
    assert_eq!(run("6 / 2"), number(3));
}

#[test]
fn math_exponent() {
    assert_eq!(run("2 ^ 4"), number(16));
}

#[test]
fn math_more_terms() {
    assert_eq!(run("10 + 2*6"), number(22));
}

#[test]
fn math_more_terms_paren() {
    assert_eq!(run("((10+2)*6)/4"), number(18));
}

#[test]
fn assign_math() {
    assert_eq!(run("let x = 1 + 1;"), number(2));
}

#[test]
fn assign_function() {
    assert_eq!(run("let x = foo();"), error("Undefined function"));
}

#[test]
fn assign_function_arguments() {
    assert_eq!(run("let x = foo(a,b,c);"), error("Undefined function"));
}

#[test]
fn define_function() {
    assert_eq!(run("fn main(){return foo();} fn foo(){return 5;}"), number(5));
}

#[test]
fn define_function_args() {
    assert_eq!(
        run("fn main(){return foo(1,2,3);} fn foo(a,b,c){return a+b+c;}"),
        number(6)
    );
}

#[test]
fn define_function_with_local() {
    let source = "fn main() {\n  return foo();\n}\nfn foo(){\n  let x = 5;\n  return x;\n}";
    assert_eq!(run(source), number(5));
}

#[test]
fn define_full_program() {
    let source = "fn foo(a,b,c) {\n  let x = a + 1;\n  let y = bar(c - b);\n  return x * y;\n}\n\nfn bar(a) {\n  return a * 3;\n}\n\nfn main() {\n  return foo(1,2,3);  \n}";
    assert_eq!(run(source), number(6));
}

#[test]
fn string_new() {
    assert_eq!(run("\"hi\""), Ok(Value::String("hi".to_string())));
}

#[test]
fn math_new() {
    assert_eq!(run("7 + 7"), number(14));
}

#[test]
fn variable_def_new() {
    assert_eq!(run("let z = 99;"), number(99));
}

#[test]
fn math_exponent_new() {
    assert_eq!(run("3 ^ 2"), number(9));
}

#[test]
fn conditional_ex1() {
    assert_eq!(run("5 < 7"), boolean(true));
}

#[test]
fn conditional_ex2() {
    assert_eq!(run("11 + 6 * 2 < 5 * 2 - 3"), boolean(false));
}

#[test]
fn conditional_ex3() {
    assert_eq!(run("7 > true"), error("Cannot compare these two values"));
}

#[test]
fn if_else_ex1() {
    let source = "if 1 < 2 {\n  let x = 9;\n  return true;\n  } else if 3 == 2 {\n  return false;\n  } else {\n      return true;\n  }\n  ";
    assert_eq!(run(source), boolean(true));
}

#[test]
fn if_else_on_one_line() {
    let source =
        "if 1 < 2 { let x = 9; return true; } else if 3 == 2 { return false; } else { return true; }";
    assert_eq!(run(source), boolean(true));
}

#[test]
fn if_else_ex3() {
    let source =
        "if 4 > 3 {return true;} else if 7 == 9 {return false;} else {return true;}\n      ";
    assert_eq!(run(source), boolean(true));
}

// A chain yields the value of its first branch, which is the value of that
// branch's condition: here 8 > 9.
#[test]
fn if_else_yields_first_condition() {
    let source = "if 1+7 > 9 {\n    return true;\n    } else if 9 != 2 {\n    return true;\n    } else {\n        return false;\n    }\n    ";
    assert_eq!(run(source), boolean(false));
}
