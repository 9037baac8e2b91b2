use interpreter_monkey::evaluator::environment::Environment;
use interpreter_monkey::evaluator::value::{HashKey, Value};
use interpreter_monkey::evaluator::{evaluate, evaluate_within, DEFAULT_CALL_DEPTH};
use interpreter_monkey::lexer::Lexer;
use interpreter_monkey::parser::Parser;

fn run_in(input: &str, env: &mut Environment) -> Value {
    let mut parser = Parser::new(Lexer::new(input));
    let program = parser.parse_program();
    assert_eq!(parser.errors.len(), 0, "parse errors: {:?}", parser.errors);
    evaluate(&program, env)
}

fn run(input: &str) -> Value {
    let mut env = Environment::new();
    run_in(input, &mut env)
}

fn check_integer(input: &str, expected: i64) {
    assert_eq!(run(input), Value::Integer(expected), "input: {}", input);
}

fn check_boolean(input: &str, expected: bool) {
    assert_eq!(run(input), Value::Boolean(expected), "input: {}", input);
}

fn check_null(input: &str) {
    assert_eq!(run(input), Value::Null, "input: {}", input);
}

fn check_error(input: &str, expected: &str) {
    assert_eq!(
        run(input),
        Value::ErrorSignal(expected.to_string()),
        "input: {}",
        input
    );
}

#[test]
fn test_eval_integer_expressions() {
    check_integer("5", 5);
    check_integer("10", 10);
    check_integer("-5", -5);
    check_integer("-10", -10);
    check_integer("5 + 5 + 5 + 5 - 10", 10);
    check_integer("2 * 2 * 2 * 2 * 2", 32);
    check_integer("-50 + 100 + -50", 0);
    check_integer("5 * 2 + 10", 20);
    check_integer("5 + 2 * 10", 25);
    check_integer("20 + 2 * -10", 0);
    check_integer("50 / 2 * 2 + 10", 60);
    check_integer("2 * (5 + 10)", 30);
    check_integer("3 * 3 * 3 + 10", 37);
    check_integer("3 * (3 * 3) + 10", 37);
    check_integer("(5 + 10 * 2 + 15 / 3) * 2 + -10", 50);
}

#[test]
fn test_eval_division_rounds_towards_zero() {
    check_integer("7 / 2", 3);
    check_integer("-7 / 2", -3);
    check_integer("7 / -2", -3);
    check_integer("-7 / -2", 3);
    check_integer("0 / 5", 0);
    check_integer("6 / 3", 2);
}

#[test]
fn test_eval_arithmetic_wraps() {
    check_integer("9223372036854775807 + 1", i64::MIN);
    check_integer("-9223372036854775807 - 2", i64::MAX);
    check_integer("9223372036854775807 * 2", -2);
    check_integer("(-9223372036854775807 - 1) / -1", i64::MIN);
    check_integer("-(-9223372036854775807 - 1)", i64::MIN);
}

#[test]
fn test_eval_boolean_expressions() {
    check_boolean("true", true);
    check_boolean("false", false);
    check_boolean("1 < 2", true);
    check_boolean("1 > 2", false);
    check_boolean("1 < 1", false);
    check_boolean("1 > 1", false);
    check_boolean("1 <= 1", true);
    check_boolean("1 >= 2", false);
    check_boolean("2 >= 2", true);
    check_boolean("1 == 1", true);
    check_boolean("1 != 1", false);
    check_boolean("1 == 2", false);
    check_boolean("1 != 2", true);
    check_boolean("true == true", true);
    check_boolean("false == false", true);
    check_boolean("true == false", false);
    check_boolean("true != false", true);
    check_boolean("(1 < 2) == true", true);
    check_boolean("(1 > 2) == true", false);
    check_boolean("true && true", true);
    check_boolean("true && false", false);
    check_boolean("false || true", true);
    check_boolean("false || false", false);
    check_boolean("1 < 2 && 2 < 3", true);
}

#[test]
fn test_eval_equality_of_all_kinds() {
    check_boolean("\"a\" == \"a\"", true);
    check_boolean("\"a\" == \"b\"", false);
    check_boolean("\"a\" != \"b\"", true);
    check_boolean("1 == true", false);
    check_boolean("1 != true", true);
    check_boolean("[1, 2] == [1, 2]", true);
    check_boolean("[1, 2] == [2, 1]", false);
    check_boolean("[1, [2, 3]] == [1, [2, 3]]", true);
    check_boolean("{1: 2, 3: 4} == {3: 4, 1: 2}", true);
    check_boolean("{1: 2} == {1: 3}", false);
    check_boolean("len == len", true);
    check_boolean("len == first", false);
    check_boolean("fn(x) { x } == fn(x) { x }", true);
    check_boolean("fn(x) { x } == fn(y) { y }", false);
    check_boolean("if (false) { 1 } == if (false) { 2 }", true);
}

#[test]
fn test_eval_bang_operator() {
    check_boolean("!true", false);
    check_boolean("!false", true);
    check_boolean("!5", false);
    check_boolean("!!true", true);
    check_boolean("!!false", false);
    check_boolean("!!5", true);
    check_boolean("!0", false);
    check_boolean("!\"\"", false);
    check_boolean("![]", false);
    check_boolean("!if (false) { 1 }", true);
}

#[test]
fn test_eval_truthiness() {
    check_integer("if (true) { 10 }", 10);
    check_null("if (false) { 10 }");
    check_integer("if (1) { 10 }", 10);
    check_integer("if (0) { 10 } else { 20 }", 10);
    check_integer("if (\"\") { 10 } else { 20 }", 10);
    check_integer("if ([]) { 10 } else { 20 }", 10);
    check_integer("if (1 < 2) { 10 }", 10);
    check_null("if (1 > 2) { 10 }");
    check_integer("if (1 > 2) { 10 } else { 20 }", 20);
    check_integer("if (1 < 2) { 10 } else { 20 }", 10);
    check_integer("if (if (false) { 1 }) { 10 } else { 20 }", 20);
}

#[test]
fn test_eval_return_statements() {
    check_integer("return 10;", 10);
    check_integer("return 10; 9;", 10);
    check_integer("return 2 * 5; 9;", 10);
    check_integer("9; return 2 * 5; 9;", 10);
    check_integer(
        "if (10 > 1) { if (10 > 1) { return 10; } return 1; }",
        10,
    );
    check_integer("let f = fn(x) { return x; x + 10; }; f(10);", 10);
    check_integer(
        "let f = fn(x) { let result = x + 10; return result; return 10; }; f(10);",
        20,
    );
    check_integer(
        "let f = fn() { if (true) { return 1; } 2 }; f() + 10",
        11,
    );
}

#[test]
fn test_eval_errors() {
    check_error("5 + true;", "type mismatch: INTEGER + BOOLEAN");
    check_error("5 + true; 5;", "type mismatch: INTEGER + BOOLEAN");
    check_error("-true", "unknown operator: -BOOLEAN");
    check_error("true + false;", "type mismatch: BOOLEAN + BOOLEAN");
    check_error("5; true + false; 5", "type mismatch: BOOLEAN + BOOLEAN");
    check_error(
        "if (10 > 1) { true + false; }",
        "type mismatch: BOOLEAN + BOOLEAN",
    );
    check_error(
        "if (10 > 1) { if (10 > 1) { return true + false; } return 1; }",
        "type mismatch: BOOLEAN + BOOLEAN",
    );
    check_error("foobar", "identifier not found: foobar");
    check_error("\"Hello\" - \"World\"", "type mismatch: STRING - STRING");
    check_error("\"a\" + \"b\"", "type mismatch: STRING + STRING");
    check_error("1 < true", "type mismatch: INTEGER < BOOLEAN");
    check_error("true && 1", "type mismatch: BOOLEAN && INTEGER");
    check_error("1 || 2", "type mismatch: INTEGER || INTEGER");
    check_error("5(1)", "not a function: INTEGER");
    check_error("\"f\"()", "not a function: STRING");
    check_error("{[1]: 2}", "unusable as hash key: ARRAY");
    check_error("{fn(x) { x }: 2}", "unusable as hash key: FUNCTION");
    check_error("1[0]", "index operator not supported: INTEGER");
    check_error("[1][true]", "index operator not supported: ARRAY");
    check_error("{1: 2}[[1]]", "index operator not supported: HASH");
    check_error("return foobar; 5", "identifier not found: foobar");
    check_error("let a = foobar; 5", "identifier not found: foobar");
    check_error("[1, foobar, 3]", "identifier not found: foobar");
    check_error("{foobar: 1}", "identifier not found: foobar");
    check_error("{1: foobar}", "identifier not found: foobar");
    check_error("len(foobar)", "identifier not found: foobar");
    check_error("foobar(1)", "identifier not found: foobar");
    check_error("!foobar", "identifier not found: foobar");
    check_error("foobar[1]", "identifier not found: foobar");
    check_error("[1][foobar]", "identifier not found: foobar");
    check_error("1 + foobar", "identifier not found: foobar");
}

#[test]
fn test_eval_division_by_zero() {
    check_error("10 / 0", "division by zero");
    check_error("0 / 0", "division by zero");
    check_error("let f = fn(x) { 10 / x }; f(0) + 1", "division by zero");
    match run("10 / 0") {
        Value::ErrorSignal(message) => assert!(message.contains("division by zero")),
        other => panic!("not an error: {:?}", other),
    }
}

#[test]
fn test_eval_error_stops_what_follows() {
    let mut env = Environment::new();
    let value = run_in("puts(1); foobar; puts(2);", &mut env);
    assert_eq!(
        value,
        Value::ErrorSignal("identifier not found: foobar".to_string())
    );
    assert_eq!(env.output, vec!["1".to_string()]);

    let mut env = Environment::new();
    let value = run_in("[puts(1), foobar, puts(2)]", &mut env);
    assert_eq!(
        value,
        Value::ErrorSignal("identifier not found: foobar".to_string())
    );
    assert_eq!(env.output, vec!["1".to_string()]);

    let mut env = Environment::new();
    let value = run_in("len(puts(1), foobar, puts(2))", &mut env);
    assert_eq!(
        value,
        Value::ErrorSignal("identifier not found: foobar".to_string())
    );
    assert_eq!(env.output, vec!["1".to_string()]);
}

#[test]
fn test_eval_let_statements() {
    check_integer("let a = 5; a;", 5);
    check_integer("let a = 5 * 5; a;", 25);
    check_integer("let a = 5; let b = a; b;", 5);
    check_integer("let a = 5; let b = a; let c = a + b + 5; c;", 15);
    check_integer("let a = 1; let a = 2; a", 2);
    check_null("let a = 5;");
    check_null("");
}

#[test]
fn test_eval_function_values() {
    match run("fn(x) { x + 2; };") {
        Value::Function(f) => {
            assert_eq!(f.parameters.len(), 1);
            assert_eq!(f.parameters[0].value, "x");
            assert_eq!(f.body.to_string(), "(x + 2)\n");
            assert_eq!(f.scope, 0);
        }
        other => panic!("not a function: {:?}", other),
    }
    assert_eq!(
        run("fn(x, y) { x + y; }").to_string(),
        "fn(x, y) {\n(x + y)\n}"
    );
}

#[test]
fn test_eval_function_calls() {
    check_integer("let identity = fn(x) { x; }; identity(5);", 5);
    check_integer("let identity = fn(x) { return x; }; identity(5);", 5);
    check_integer("let double = fn(x) { x * 2; }; double(5);", 10);
    check_integer("let add = fn(x, y) { x + y; }; add(5, 5);", 10);
    check_integer("let add = fn(x, y) { x + y; }; add(5 + 5, add(5, 5));", 20);
    check_integer("fn(x) { x; }(5)", 5);
    check_null("fn() {}()");
    check_integer("let f = fn(x, x) { x }; f(1, 2)", 2);
    check_error(
        "let add = fn(x, y) { x + y; }; add(1);",
        "wrong number of arguments. got=1, want=2",
    );
    check_error("fn() { 1 }(1, 2, 3)", "wrong number of arguments. got=3, want=0");
}

#[test]
fn test_eval_closures() {
    check_integer(
        "let newAdder = fn(x) { fn(y) { x + y } }; let addTwo = newAdder(2); addTwo(3);",
        5,
    );
    check_integer(
        "let newAdder = fn(x) { fn(y) { x + y } }; let a = newAdder(2); let b = newAdder(10); a(1) + b(1)",
        14,
    );
    check_integer(
        "let counter = fn(x) { fn() { fn() { x } } }; counter(7)()()",
        7,
    );
}

#[test]
fn test_eval_closure_sees_later_bindings() {
    check_integer("let f = fn() { x }; let x = 7; f()", 7);
    check_integer("let x = 1; let f = fn() { x }; let x = 2; f()", 2);
    check_integer(
        "let make = fn() { let get = fn() { y }; let y = 3; get }; make()()",
        3,
    );
}

#[test]
fn test_eval_blocks_open_no_scope() {
    check_integer("if (true) { let a = 5; } a", 5);
    check_integer("let f = fn() { if (true) { let a = 5; } a }; f()", 5);
    check_error(
        "let f = fn() { let a = 5; a }; f(); a",
        "identifier not found: a",
    );
    check_integer("let a = 1; let f = fn() { let a = 2; a }; f() + a", 3);
    check_integer("let a = 1; let f = fn(a) { a }; f(5) + a", 6);
}

#[test]
fn test_eval_recursion() {
    check_integer(
        "let fib = fn(n) { if (n < 2) { return n; } fib(n - 1) + fib(n - 2) }; fib(15)",
        610,
    );
    check_integer(
        "let sum = fn(n) { if (n == 0) { 0 } else { n + sum(n - 1) } }; sum(100)",
        5050,
    );
}

#[test]
fn test_eval_call_depth() {
    check_error("let f = fn(x) { f(x + 1) }; f(1)", "call depth exceeded");
    assert_eq!(DEFAULT_CALL_DEPTH, 200);

    let program = interpreter_monkey::parser::parse(
        "let down = fn(n) { if (n == 0) { 0 } else { down(n - 1) } }; down(3)",
    );
    let mut env = Environment::new();
    assert_eq!(evaluate_within(&program, &mut env, 4), Value::Integer(0));
    let mut env = Environment::new();
    assert_eq!(
        evaluate_within(&program, &mut env, 3),
        Value::ErrorSignal("call depth exceeded".to_string())
    );
    let mut env = Environment::new();
    assert_eq!(
        evaluate_within(&program, &mut env, 0),
        Value::ErrorSignal("call depth exceeded".to_string())
    );
    let builtin_only = interpreter_monkey::parser::parse("len(\"abc\")");
    let mut env = Environment::new();
    assert_eq!(
        evaluate_within(&builtin_only, &mut env, 0),
        Value::Integer(3)
    );
}

#[test]
fn test_eval_strings() {
    assert_eq!(
        run("\"Hello World!\""),
        Value::String("Hello World!".to_string())
    );
    assert_eq!(run("let s = \"abc\"; s"), Value::String("abc".to_string()));
}

#[test]
fn test_eval_array_literals() {
    assert_eq!(
        run("[1, 2 * 2, 3 + 3]"),
        Value::Array(vec![
            Value::Integer(1),
            Value::Integer(4),
            Value::Integer(6)
        ])
    );
    assert_eq!(run("[]"), Value::Array(vec![]));
}

#[test]
fn test_eval_array_index() {
    check_integer("[1, 2, 3][0]", 1);
    check_integer("[1, 2, 3][1]", 2);
    check_integer("[1, 2, 3][2]", 3);
    check_integer("let i = 0; [1][i];", 1);
    check_integer("[1, 2, 3][1 + 1];", 3);
    check_integer("let myArray = [1, 2, 3]; myArray[2];", 3);
    check_integer(
        "let myArray = [1, 2, 3]; myArray[0] + myArray[1] + myArray[2];",
        6,
    );
    check_integer(
        "let myArray = [1, 2, 3]; let i = myArray[0]; myArray[i]",
        2,
    );
    check_null("[1, 2, 3][3]");
    check_null("[1, 2, 3][5]");
    check_null("[1, 2, 3][-1]");
    check_null("[][0]");
}

#[test]
fn test_eval_hash_literals() {
    let value = run(
        "let two = \"two\"; {\"one\": 10 - 9, two: 1 + 1, \"thr\" + \"\" == \"thr\": 3, 4: 4, true: 5, false: 6}",
    );
    assert_eq!(
        value,
        Value::ErrorSignal("type mismatch: STRING + STRING".to_string())
    );
    let value = run("let two = \"two\"; {\"one\": 10 - 9, two: 1 + 1, 4: 4, true: 5, false: 6}");
    assert_eq!(
        value,
        Value::HashMap(vec![
            (HashKey::Integer(4), Value::Integer(4)),
            (HashKey::Boolean(false), Value::Integer(6)),
            (HashKey::Boolean(true), Value::Integer(5)),
            (HashKey::String("one".to_string()), Value::Integer(1)),
            (HashKey::String("two".to_string()), Value::Integer(2)),
        ])
    );
    assert_eq!(run("{}"), Value::HashMap(vec![]));
}

#[test]
fn test_eval_hash_index() {
    check_integer("{\"foo\": 5}[\"foo\"]", 5);
    check_null("{\"foo\": 5}[\"bar\"]");
    check_integer("let key = \"foo\"; {\"foo\": 5}[key]", 5);
    check_null("{}[\"foo\"]");
    check_integer("{5: 5}[5]", 5);
    check_integer("{true: 5}[true]", 5);
    check_integer("{false: 5}[false]", 5);
    check_integer("{\"one\": 1, \"two\": 2, \"three\": 3}[\"two\"]", 2);
    check_integer("{1: 1, true: 2, \"1\": 3}[1]", 1);
    check_integer("{1: 1, true: 2, \"1\": 3}[true]", 2);
    check_integer("{1: 1, true: 2, \"1\": 3}[\"1\"]", 3);
    check_null("{1: 1}[true]");
}

#[test]
fn test_eval_hash_last_write_wins() {
    check_integer("{\"a\": 1, \"a\": 2}[\"a\"]", 2);
    check_integer("{1: 1, 2: 2, 1: 3}[1]", 3);
    check_integer("len([{1: 1, 1: 2}])", 1);
    assert_eq!(
        run("{1: 1, 2: 2, 1: 3}"),
        Value::HashMap(vec![
            (HashKey::Integer(1), Value::Integer(3)),
            (HashKey::Integer(2), Value::Integer(2)),
        ])
    );
}

#[test]
fn test_eval_hash_keys_in_order() {
    assert_eq!(
        run("{\"b\": 1, \"a\": 2, \"ab\": 3, \"\": 4, 2: 5, -1: 6}").to_string(),
        "{-1: 6, 2: 5, : 4, a: 2, ab: 3, b: 1}"
    );
}

#[test]
fn test_builtin_len() {
    check_integer("len(\"\")", 0);
    check_integer("len(\"four\")", 4);
    check_integer("len(\"hello world\")", 11);
    check_integer("len([1, 2, 3])", 3);
    check_integer("len([])", 0);
    check_error("len(1)", "argument to `len` not supported, got INTEGER");
    check_error(
        "len(\"one\", \"two\")",
        "wrong number of arguments. got=2, want=1",
    );
    check_error("len()", "wrong number of arguments. got=0, want=1");
}

#[test]
fn test_builtin_first_last_rest() {
    check_integer("first([1, 2, 3])", 1);
    check_null("first([])");
    check_error("first(1)", "argument to `first` not supported, got INTEGER");
    check_integer("last([1, 2, 3])", 3);
    check_null("last([])");
    check_error(
        "last(\"abc\")",
        "argument to `last` not supported, got STRING",
    );
    assert_eq!(
        run("rest([1, 2, 3])"),
        Value::Array(vec![Value::Integer(2), Value::Integer(3)])
    );
    assert_eq!(run("rest([1])"), Value::Array(vec![]));
    check_null("rest([])");
    check_error("rest(true)", "argument to `rest` not supported, got BOOLEAN");
    check_error("first([1], [2])", "wrong number of arguments. got=2, want=1");
}

#[test]
fn test_builtin_push() {
    assert_eq!(
        run("push([1], 2)"),
        Value::Array(vec![Value::Integer(1), Value::Integer(2)])
    );
    assert_eq!(run("push([], 1)"), Value::Array(vec![Value::Integer(1)]));
    check_error("push(1, 1)", "argument to `push` not supported, got INTEGER");
    check_error("push([1])", "wrong number of arguments. got=1, want=2");
}

#[test]
fn test_builtins_leave_their_argument_alone() {
    check_integer("let a = [1]; let b = push(a, 2); len(a)", 1);
    check_integer("let a = [1]; let b = push(a, 2); len(b)", 2);
    check_integer("let a = [1, 2, 3]; let b = rest(a); len(a)", 3);
    check_integer("let a = [1, 2, 3]; let b = rest(a); first(a)", 1);
}

#[test]
fn test_builtin_puts() {
    let mut env = Environment::new();
    let value = run_in("puts(\"hello\", 5, [1, true], if (false) { 1 })", &mut env);
    assert_eq!(value, Value::Null);
    assert_eq!(
        env.output,
        vec![
            "hello".to_string(),
            "5".to_string(),
            "[1, true]".to_string(),
            "null".to_string()
        ]
    );
    let value = run_in("puts()", &mut env);
    assert_eq!(value, Value::Null);
    assert_eq!(env.output.len(), 4);
}

#[test]
fn test_builtin_names_can_be_bound() {
    check_integer("let len = fn(x) { 42 }; len(\"abc\")", 42);
    assert_eq!(run("len").to_string(), "builtin function");
}

#[test]
fn test_environment_outlives_one_program() {
    let mut env = Environment::new();
    assert_eq!(run_in("let x = 5;", &mut env), Value::Null);
    assert_eq!(run_in("x", &mut env), Value::Integer(5));
    assert_eq!(
        run_in("let add = fn(a) { a + x };", &mut env),
        Value::Null
    );
    assert_eq!(run_in("add(10)", &mut env), Value::Integer(15));
    assert_eq!(run_in("let x = 6; add(10)", &mut env), Value::Integer(16));

    let mut fresh = Environment::new();
    assert_eq!(
        run_in("x", &mut fresh),
        Value::ErrorSignal("identifier not found: x".to_string())
    );
}

#[test]
fn test_environment_bind_and_lookup() {
    let mut env = Environment::new();
    assert_eq!(env.lookup(0, "a"), None);
    env.bind(0, "a".to_string(), Value::Integer(1));
    assert_eq!(env.lookup(0, "a"), Some(Value::Integer(1)));
    let inner = env.enter(0);
    assert_eq!(inner, 1);
    assert_eq!(env.lookup(inner, "a"), Some(Value::Integer(1)));
    env.bind(inner, "a".to_string(), Value::Integer(2));
    assert_eq!(env.lookup(inner, "a"), Some(Value::Integer(2)));
    assert_eq!(env.lookup(0, "a"), Some(Value::Integer(1)));
    env.bind(0, "a".to_string(), Value::Integer(3));
    assert_eq!(env.lookup(0, "a"), Some(Value::Integer(3)));
    assert_eq!(env.scopes[0].bindings.len(), 1);
    env.bind(0, "b".to_string(), Value::Boolean(true));
    assert_eq!(env.lookup(inner, "b"), Some(Value::Boolean(true)));
    assert_eq!(env.lookup(7, "a"), None);
    env.bind(7, "c".to_string(), Value::Null);
    assert_eq!(env.scopes.len(), 2);
    env.print("line".to_string());
    assert_eq!(env.output, vec!["line".to_string()]);
}

#[test]
fn test_value_display() {
    assert_eq!(run("5").to_string(), "5");
    assert_eq!(run("-5").to_string(), "-5");
    assert_eq!(run("true").to_string(), "true");
    assert_eq!(run("\"text\"").to_string(), "text");
    assert_eq!(run("if (false) { 1 }").to_string(), "null");
    assert_eq!(run("[1, \"a\", [true]]").to_string(), "[1, a, [true]]");
    assert_eq!(run("{\"a\": [1], 2: {}}").to_string(), "{2: {}, a: [1]}");
    assert_eq!(run("fn() {}").to_string(), "fn() {\n}");
    assert_eq!(run("1 / 0").to_string(), "ERROR: division by zero");
    assert_eq!(
        Value::ReturnSignal(Box::new(Value::Integer(3))).to_string(),
        "3"
    );
}

#[test]
fn test_value_helpers() {
    assert!(Value::Integer(0).is_truthy());
    assert!(!Value::Null.is_truthy());
    assert!(!Value::Boolean(false).is_truthy());
    assert!(Value::Boolean(true).is_truthy());
    assert!(Value::ErrorSignal(String::new()).is_error());
    assert!(!Value::Null.is_error());
    assert_eq!(Value::Integer(1).kind_name(), "INTEGER");
    assert_eq!(Value::Array(vec![]).kind_name(), "ARRAY");
    assert_eq!(Value::HashMap(vec![]).kind_name(), "HASH");
    assert_eq!(Value::Null.kind_name(), "NULL");
    assert_eq!(
        Value::Integer(1).hash_key(),
        Some(HashKey::Integer(1))
    );
    assert_eq!(Value::Null.hash_key(), None);
    assert_eq!(HashKey::Boolean(true).to_value(), Value::Boolean(true));
    assert!(Value::Integer(1).same(&Value::Integer(1)));
    assert!(!Value::Integer(1).same(&Value::Boolean(true)));
    let copy = run("[1, {2: fn(x) { x }}]").clone();
    assert_eq!(copy, run("[1, {2: fn(x) { x }}]"));
}
