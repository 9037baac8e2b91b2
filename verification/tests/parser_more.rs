use interpreter_monkey::lexer::token::{Token, TokenKind};
use interpreter_monkey::lexer::Lexer;
use interpreter_monkey::parser::ast::{
    clone_identifiers, Expression, Identifier, Primitive, Program, Statement,
};
use interpreter_monkey::parser::equality::identifiers_same;
use interpreter_monkey::parser::grammar::Precedence;
use interpreter_monkey::parser::{expected_message, named, parse, token_is, Parser, ParserErrors};

fn parse_with_errors(input: &str) -> (Program, Vec<String>) {
    let mut parser = Parser::new(Lexer::new(input));
    let program = parser.parse_program();
    (program, parser.errors.errors)
}

fn printed(input: &str) -> String {
    let (program, errors) = parse_with_errors(input);
    assert_eq!(errors, Vec::<String>::new(), "input: {}", input);
    program.to_string()
}

#[test]
fn test_error_accumulation() {
    let (program, errors) = parse_with_errors("let x 5; let = 10; let 838383;");
    assert_eq!(
        errors,
        vec![
            "expected next token to be =, got 5 instead".to_string(),
            "expected next token to be , got = instead".to_string(),
            "no prefix parse function for = found".to_string(),
            "expected next token to be , got 838383 instead".to_string(),
        ]
    );
    let mut distinct = errors.clone();
    distinct.sort();
    distinct.dedup();
    assert!(distinct.len() >= 3);
    assert_eq!(program.to_string(), "5\n10\n838383\n");
}

#[test]
fn test_parsing_goes_on_behind_an_error() {
    let (program, errors) = parse_with_errors("let x 5; let y = 7; y");
    assert_eq!(errors.len(), 1);
    assert_eq!(program.to_string(), "5\nlet y = 7;\ny\n");
}

#[test]
fn test_expected_token_errors() {
    let cases = vec![
        ("(1 + 2", "expected next token to be ), got EOF instead"),
        ("(1 + 2;", "expected next token to be ), got ; instead"),
        ("[1, 2", "expected next token to be ], got EOF instead"),
        ("[1 2]", "expected next token to be ], got 2 instead"),
        ("a[1", "expected next token to be ], got EOF instead"),
        ("f(1, 2", "expected next token to be ), got EOF instead"),
        ("if x { 1 }", "expected next token to be (, got x instead"),
        ("if (x { 1 }", "expected next token to be ), got { instead"),
        ("if (x) 1", "expected next token to be {, got 1 instead"),
        ("if (x) { 1 } else 2", "expected next token to be {, got 2 instead"),
        ("if (x) { 1", "expected next token to be }, got EOF instead"),
        ("fn x { 1 }", "expected next token to be (, got x instead"),
        ("fn (x { 1 }", "expected next token to be ), got { instead"),
        ("fn (x,) { 1 }", "expected next token to be , got ) instead"),
        ("fn (1) { 1 }", "expected next token to be , got 1 instead"),
        ("fn (x) 1", "expected next token to be {, got 1 instead"),
        ("fn (x) { 1", "expected next token to be }, got EOF instead"),
        ("{1 2}", "expected next token to be :, got 2 instead"),
        ("{1: 2 3: 4}", "expected next token to be ,, got 3 instead"),
        ("{1: 2", "expected next token to be ,, got EOF instead"),
        ("let x = ", "no prefix parse function for EOF found"),
        ("return", "no prefix parse function for EOF found"),
    ];
    for (input, expected) in cases {
        let (_, errors) = parse_with_errors(input);
        assert!(!errors.is_empty(), "input: {}", input);
        assert_eq!(errors[0], expected, "input: {}", input);
    }
}

#[test]
fn test_no_prefix_rule_errors() {
    let cases = vec![
        (")", "no prefix parse function for ) found"),
        ("}", "no prefix parse function for } found"),
        ("+ 1", "no prefix parse function for + found"),
        ("1 + ;", "no prefix parse function for ; found"),
        ("@", "no prefix parse function for @ found"),
        ("else", "no prefix parse function for else found"),
        ("let x = =;", "no prefix parse function for = found"),
    ];
    for (input, expected) in cases {
        let (_, errors) = parse_with_errors(input);
        assert!(!errors.is_empty(), "input: {}", input);
        assert_eq!(errors[0], expected, "input: {}", input);
    }
}

#[test]
fn test_integer_literal_that_does_not_fit() {
    let (program, errors) = parse_with_errors("9223372036854775808");
    assert_eq!(
        errors,
        vec!["could not parse 9223372036854775808 as integer".to_string()]
    );
    assert_eq!(program.statements.len(), 0);
    assert_eq!(printed("9223372036854775807"), "9223372036854775807\n");
}

#[test]
fn test_logical_and_comparison_precedence() {
    assert_eq!(printed("a || b && c"), "((a || b) && c)\n");
    assert_eq!(printed("a && b || c"), "((a && b) || c)\n");
    assert_eq!(printed("a == b && c < d"), "((a == b) && (c < d))\n");
    assert_eq!(printed("a <= b == c >= d"), "((a <= b) == (c >= d))\n");
    assert_eq!(printed("!a && -b"), "((!a) && (-b))\n");
    assert_eq!(printed("a + b <= c * d"), "((a + b) <= (c * d))\n");
    assert_eq!(printed("-a[0]"), "(-(a[0]))\n");
    assert_eq!(printed("-f(x)"), "(-f(x))\n");
    assert_eq!(printed("!f(x)[1]"), "(!(f(x)[1]))\n");
    assert_eq!(printed("a - b - c"), "((a - b) - c)\n");
    assert_eq!(printed("a / b / c"), "((a / b) / c)\n");
    assert_eq!(printed("a < b < c"), "((a < b) < c)\n");
}

#[test]
fn test_printing_is_independent_of_source_parentheses() {
    let groups = vec![
        vec!["a + b * c", "a + (b * c)", "(a + (b * c))", "((a) + ((b) * (c)))"],
        vec!["-a * b", "(-a) * b", "((-a) * b)"],
        vec!["a + b + c", "(a + b) + c", "((a + b)) + c"],
        vec!["a * [1, 2][b] * d", "(a * ([1, 2][b])) * d", "(a * [1, (2)][(b)]) * (d)"],
        vec!["f(a + b)", "f((a + b))", "(f)(a + b)"],
    ];
    for group in groups {
        let first = printed(group[0]);
        for source in &group {
            assert_eq!(printed(source), first, "source: {}", source);
            assert_eq!(printed(&first), first, "printed: {}", first);
        }
    }
    assert_ne!(printed("(a + b) * c"), printed("a + b * c"));
}

#[test]
fn test_statement_printing() {
    assert_eq!(printed("let x = 5;"), "let x = 5;\n");
    assert_eq!(printed("let x = 1 + 2"), "let x = (1 + 2);\n");
    assert_eq!(printed("return x;"), "return x;\n");
    assert_eq!(printed(""), "");
    assert_eq!(printed("\"a b\""), "\"a b\"\n");
    assert_eq!(printed("{1: 2, \"a\": b}"), "{1: 2, \"a\": b}\n");
    assert_eq!(printed("if (a) { b } else { c; d }"), "if a {\nb\n} else {\nc\nd\n}\n");
    assert_eq!(printed("if (a) { }"), "if a {\n}\n");
    assert_eq!(printed("fn(x, y) { x + y }"), "fn(x, y) {\n(x + y)\n}\n");
    assert_eq!(
        printed("let add = fn(x) { x };"),
        "let add = fn<add>(x) {\nx\n};\n"
    );
}

#[test]
fn test_let_names_only_a_function_literal() {
    let program = parse("let a = fn() {}; let b = [fn() {}]; let c = 1;");
    assert_eq!(program.statements.len(), 3);
    match &program.statements[0] {
        Statement::Let(l) => match &l.value {
            Expression::FunctionLiteral(f) => assert_eq!(f.name, Some("a".to_string())),
            _ => panic!("not a function literal"),
        },
        _ => panic!("not a let statement"),
    }
    match &program.statements[1] {
        Statement::Let(l) => match &l.value {
            Expression::ArrayLiteral(a) => match &a.elements[0] {
                Expression::FunctionLiteral(f) => assert_eq!(f.name, None),
                _ => panic!("not a function literal"),
            },
            _ => panic!("not an array literal"),
        },
        _ => panic!("not a let statement"),
    }
    let renamed = named(
        Expression::Primitive(Primitive::IntegerLiteral(1)),
        &Token::Ident("x".to_string()),
    );
    assert_eq!(renamed, Expression::Primitive(Primitive::IntegerLiteral(1)));
}

#[test]
fn test_let_and_return_shapes() {
    let program = parse("let x = 5; return true;");
    assert_eq!(program.statements.len(), 2);
    match &program.statements[0] {
        Statement::Let(l) => {
            assert_eq!(l.name.value, "x");
            assert_eq!(l.name.token, Token::Ident("x".to_string()));
            assert_eq!(l.value, Expression::Primitive(Primitive::IntegerLiteral(5)));
        }
        _ => panic!("not a let statement"),
    }
    match &program.statements[1] {
        Statement::Return(r) => {
            assert_eq!(
                r.return_value,
                Expression::Primitive(Primitive::BooleanLiteral(true))
            );
        }
        _ => panic!("not a return statement"),
    }
}

#[test]
fn test_hash_map_pairs_keep_source_order() {
    let program = parse("{\"one\": 1, \"two\": 2, \"three\": 3, \"a\": 0, 1: 1}");
    match &program.statements[0] {
        Statement::Expression(Expression::HashMapLiteral(h)) => {
            let keys: Vec<String> = h.pairs.iter().map(|p| p.0.to_string()).collect();
            assert_eq!(
                keys,
                vec!["\"one\"", "\"two\"", "\"three\"", "\"a\"", "1"]
            );
        }
        _ => panic!("not a hash map literal"),
    }
}

#[test]
fn test_parse_drops_errors() {
    let program = parse("let x 5; 1 + 2");
    assert_eq!(program.to_string(), "5\n(1 + 2)\n");
    assert_eq!(parse("").statements.len(), 0);
}

#[test]
fn test_parser_errors_list() {
    let mut errors = ParserErrors::new();
    assert!(errors.is_empty());
    assert_eq!(errors.len(), 0);
    assert_eq!(errors.to_string(), "Parser errors:\n");
    errors.add_error("first".to_string());
    assert!(!errors.is_empty());
    assert_eq!(errors.len(), 1);
    errors.add_errors(vec!["second".to_string(), "third".to_string()]);
    assert_eq!(errors.len(), 3);
    assert_eq!(
        errors.errors,
        vec![
            "first".to_string(),
            "second".to_string(),
            "third".to_string()
        ]
    );
    assert_eq!(
        errors.to_string(),
        "Parser errors:\n\tfirst\n\tsecond\n\tthird\n"
    );
    errors.add_errors(vec![]);
    assert_eq!(errors.len(), 3);
    assert!(ParserErrors::default().is_empty());
}

#[test]
fn test_parser_steps() {
    let mut parser = Parser::new(Lexer::new("let x = 5"));
    assert_eq!(parser.current_token, Token::Let);
    assert_eq!(parser.peek_token, Token::Ident("x".to_string()));
    assert_eq!(parser.current_kind(), TokenKind::Let);
    assert_eq!(parser.current(), Token::Let);
    assert!(parser.current_token_is(&Token::Let));
    assert!(!parser.current_token_is(&Token::Return));
    assert!(parser.peek_token_is(&Token::Ident(String::new())));
    assert!(parser.peek_token_is(&Token::Ident("other".to_string())));
    assert!(!parser.peek_token_is(&Token::Int("x".to_string())));
    assert!(!parser.expect_peek(&Token::Assign));
    assert_eq!(parser.errors.len(), 1);
    assert_eq!(
        parser.errors.errors[0],
        "expected next token to be =, got x instead"
    );
    assert_eq!(parser.current_token, Token::Let);
    assert!(parser.expect_peek(&Token::Ident(String::new())));
    assert_eq!(parser.current_token, Token::Ident("x".to_string()));
    assert_eq!(parser.errors.len(), 1);
    parser.next_token();
    assert_eq!(parser.current_token, Token::Assign);
    assert_eq!(parser.peek_token, Token::Int("5".to_string()));
    assert!(parser.peek_token_is(&Token::Int("7".to_string())));
    parser.next_token();
    assert_eq!(parser.peek_token, Token::Eof);
    parser.next_token();
    assert_eq!(parser.current_token, Token::Eof);
    parser.next_token();
    assert_eq!(parser.current_token, Token::Eof);
    assert_eq!(parser.peek_token, Token::Eof);
    parser.report("extra".to_string());
    assert_eq!(parser.errors.len(), 2);
}

#[test]
fn test_parser_precedences() {
    let mut parser = Parser::new(Lexer::new("a + b"));
    assert_eq!(parser.current_precedence(), Precedence::Lowest);
    assert_eq!(parser.peek_precedence(), Precedence::Sum);
    let cases = vec![
        (TokenKind::And, Precedence::Logical, 1),
        (TokenKind::Or, Precedence::Logical, 1),
        (TokenKind::Equal, Precedence::Equals, 2),
        (TokenKind::NotEqual, Precedence::Equals, 2),
        (TokenKind::LT, Precedence::LessGreater, 3),
        (TokenKind::GTE, Precedence::LessGreater, 3),
        (TokenKind::Plus, Precedence::Sum, 4),
        (TokenKind::Minus, Precedence::Sum, 4),
        (TokenKind::Asterisk, Precedence::Product, 5),
        (TokenKind::Slash, Precedence::Product, 5),
        (TokenKind::LParen, Precedence::Call, 7),
        (TokenKind::LBracket, Precedence::Call, 7),
        (TokenKind::Semicolon, Precedence::Lowest, 0),
        (TokenKind::Bang, Precedence::Lowest, 0),
        (TokenKind::Eof, Precedence::Lowest, 0),
    ];
    for (kind, precedence, level) in cases {
        assert_eq!(Precedence::of(kind), precedence);
        assert_eq!(precedence.level(), level);
    }
    assert_eq!(Precedence::Prefix.level(), 6);
}

#[test]
fn test_expression_parse_entry() {
    let mut parser = Parser::new(Lexer::new("1 + 2 * 3; 4"));
    let sum = Expression::parse(&mut parser, Precedence::Lowest);
    assert_eq!(sum.map(|e| e.to_string()), Ok("(1 + (2 * 3))".to_string()));
    assert_eq!(parser.current_token, Token::Int("3".to_string()));

    let mut parser = Parser::new(Lexer::new("1 + 2 * 3"));
    let one = Expression::parse(&mut parser, Precedence::Product);
    assert_eq!(one.map(|e| e.to_string()), Ok("1".to_string()));
    assert_eq!(parser.current_token, Token::Int("1".to_string()));

    let mut parser = Parser::new(Lexer::new("1 * 2 + 3"));
    let product = Expression::parse(&mut parser, Precedence::Sum);
    assert_eq!(product.map(|e| e.to_string()), Ok("(1 * 2)".to_string()));

    let mut parser = Parser::new(Lexer::new(")"));
    let failed = Expression::parse(&mut parser, Precedence::Lowest);
    assert_eq!(
        failed,
        Err("no prefix parse function for ) found".to_string())
    );
    assert!(parser.errors.is_empty());

    let mut parser = Parser::new(Lexer::new("(1"));
    let failed = Expression::parse(&mut parser, Precedence::Lowest);
    assert_eq!(failed, Err(String::new()));
    assert_eq!(parser.errors.len(), 1);
}

#[test]
fn test_token_helpers() {
    assert!(token_is(
        &Token::Ident("a".to_string()),
        &Token::Ident("b".to_string())
    ));
    assert!(token_is(
        &Token::Int("1".to_string()),
        &Token::Int("2".to_string())
    ));
    assert!(!token_is(
        &Token::String("a".to_string()),
        &Token::String("b".to_string())
    ));
    assert!(token_is(
        &Token::String("a".to_string()),
        &Token::String("a".to_string())
    ));
    assert!(token_is(&Token::Comma, &Token::Comma));
    assert!(!token_is(&Token::Comma, &Token::Colon));
    assert!(!token_is(&Token::Comma, &Token::Ident(String::new())));
    assert_eq!(
        expected_message(&Token::RParen, &Token::Eof),
        "expected next token to be ), got EOF instead"
    );
}

#[test]
fn test_tree_equality_and_copies() {
    let source = "let f = fn(x, y) { if (x < y) { return [x, {y: -x}][0]; } else { g(\"s\", !true) } }; f(1, 2)";
    let a = parse(source);
    let b = parse(source);
    assert_eq!(a, b);
    assert_eq!(a.clone(), a);
    for (x, y) in a.statements.iter().zip(b.statements.iter()) {
        assert!(x.same(y));
        assert!(x.same(&y.clone()));
    }
    let c = parse("let f = fn(x, y) { if (x < y) { return [x, {y: -x}][1]; } else { g(\"s\", !true) } }; f(1, 3)");
    for (x, y) in a.statements.iter().zip(c.statements.iter()) {
        assert!(!x.same(y));
    }
    assert!(!a.statements[0].same(&a.statements[1]));
    let one = Expression::Primitive(Primitive::IntegerLiteral(1));
    assert!(one.same(&Expression::Primitive(Primitive::IntegerLiteral(1))));
    assert!(!one.same(&Expression::Primitive(Primitive::BooleanLiteral(true))));
    assert!(!Primitive::StringLiteral("a".to_string()).same(&Primitive::StringLiteral("b".to_string())));
    let x = Identifier {
        token: Token::Ident("x".to_string()),
        value: "x".to_string(),
    };
    let y = Identifier {
        token: Token::Ident("y".to_string()),
        value: "y".to_string(),
    };
    assert!(x.same(&x.clone()));
    assert!(!x.same(&y));
    assert_eq!(x.to_string(), "x");
    let list = vec![x, y];
    assert!(identifiers_same(&list, &clone_identifiers(&list)));
    assert!(!identifiers_same(&list, &Vec::new()));
    assert_eq!(Primitive::StringLiteral("a".to_string()).to_string(), "\"a\"");
    assert_eq!(Primitive::IntegerLiteral(-3).to_string(), "-3");
}
