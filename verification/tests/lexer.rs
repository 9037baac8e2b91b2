use interpreter_monkey::lexer::token::{fixed_text, text_is, Token, TokenKind};
use interpreter_monkey::lexer::Lexer;
use interpreter_monkey::text::{chars_of, integer_to_string, is_digit, parse_integer, string_of};

fn tokens_of(input: &str) -> Vec<Token> {
    let mut lexer = Lexer::new(input);
    let mut tokens = Vec::new();
    loop {
        let token = lexer.next_token();
        if token == Token::Eof {
            break;
        }
        tokens.push(token);
    }
    assert_eq!(lexer.next_token(), Token::Eof);
    assert_eq!(lexer.next_token(), Token::Eof);
    tokens
}

#[test]
fn test_lexer_symbols() {
    assert_eq!(
        tokens_of("=+(){},;"),
        vec![
            Token::Assign,
            Token::Plus,
            Token::LParen,
            Token::RParen,
            Token::LSquirly,
            Token::RSquirly,
            Token::Comma,
            Token::Semicolon,
        ]
    );
    assert_eq!(
        tokens_of("!-/*5; 5 < 10 > 5; [1]:"),
        vec![
            Token::Bang,
            Token::Minus,
            Token::Slash,
            Token::Asterisk,
            Token::Int("5".to_string()),
            Token::Semicolon,
            Token::Int("5".to_string()),
            Token::LT,
            Token::Int("10".to_string()),
            Token::GT,
            Token::Int("5".to_string()),
            Token::Semicolon,
            Token::LBracket,
            Token::Int("1".to_string()),
            Token::RBracket,
            Token::Colon,
        ]
    );
}

#[test]
fn test_lexer_two_character_operators() {
    assert_eq!(
        tokens_of("== != <= >= && ||"),
        vec![
            Token::Equal,
            Token::NotEqual,
            Token::LTE,
            Token::GTE,
            Token::And,
            Token::Or,
        ]
    );
    assert_eq!(
        tokens_of("==="),
        vec![Token::Equal, Token::Assign]
    );
    assert_eq!(tokens_of("!=="), vec![Token::NotEqual, Token::Assign]);
    assert_eq!(tokens_of("<=="), vec![Token::LTE, Token::Assign]);
    assert_eq!(tokens_of("= ="), vec![Token::Assign, Token::Assign]);
}

#[test]
fn test_lexer_illegal_characters() {
    assert_eq!(
        tokens_of("& | @ a&b"),
        vec![
            Token::Illegal("&".to_string()),
            Token::Illegal("|".to_string()),
            Token::Illegal("@".to_string()),
            Token::Ident("a".to_string()),
            Token::Illegal("&".to_string()),
            Token::Ident("b".to_string()),
        ]
    );
    assert_eq!(tokens_of("é"), vec![Token::Illegal("é".to_string())]);
}

#[test]
fn test_lexer_words() {
    assert_eq!(
        tokens_of("fn let true false if else return foo _bar Let fnx x1"),
        vec![
            Token::Function,
            Token::Let,
            Token::True,
            Token::False,
            Token::If,
            Token::Else,
            Token::Return,
            Token::Ident("foo".to_string()),
            Token::Ident("_bar".to_string()),
            Token::Ident("Let".to_string()),
            Token::Ident("fnx".to_string()),
            Token::Ident("x".to_string()),
            Token::Int("1".to_string()),
        ]
    );
}

#[test]
fn test_lexer_strings() {
    assert_eq!(
        tokens_of("\"foobar\" \"foo bar\" \"\""),
        vec![
            Token::String("foobar".to_string()),
            Token::String("foo bar".to_string()),
            Token::String(String::new()),
        ]
    );
    assert_eq!(
        tokens_of("\"open"),
        vec![Token::String("open".to_string())]
    );
    assert_eq!(tokens_of("\""), vec![Token::String(String::new())]);
    assert_eq!(
        tokens_of("\"a\nb\"x"),
        vec![
            Token::String("a\nb".to_string()),
            Token::Ident("x".to_string())
        ]
    );
}

#[test]
fn test_lexer_whitespace_and_end() {
    assert_eq!(tokens_of(""), vec![]);
    assert_eq!(tokens_of(" \t\r\n "), vec![]);
    assert_eq!(
        tokens_of("\n  let\tx\r\n=  5 ;\n"),
        vec![
            Token::Let,
            Token::Ident("x".to_string()),
            Token::Assign,
            Token::Int("5".to_string()),
            Token::Semicolon,
        ]
    );
}

#[test]
fn test_lexer_program() {
    let input = "let five = 5;
let add = fn(x, y) {
  x + y;
};
let result = add(five, 10);
if (5 < 10) { return true; } else { return false; }
{\"foo\": \"bar\"}
";
    assert_eq!(
        tokens_of(input),
        vec![
            Token::Let,
            Token::Ident("five".to_string()),
            Token::Assign,
            Token::Int("5".to_string()),
            Token::Semicolon,
            Token::Let,
            Token::Ident("add".to_string()),
            Token::Assign,
            Token::Function,
            Token::LParen,
            Token::Ident("x".to_string()),
            Token::Comma,
            Token::Ident("y".to_string()),
            Token::RParen,
            Token::LSquirly,
            Token::Ident("x".to_string()),
            Token::Plus,
            Token::Ident("y".to_string()),
            Token::Semicolon,
            Token::RSquirly,
            Token::Semicolon,
            Token::Let,
            Token::Ident("result".to_string()),
            Token::Assign,
            Token::Ident("add".to_string()),
            Token::LParen,
            Token::Ident("five".to_string()),
            Token::Comma,
            Token::Int("10".to_string()),
            Token::RParen,
            Token::Semicolon,
            Token::If,
            Token::LParen,
            Token::Int("5".to_string()),
            Token::LT,
            Token::Int("10".to_string()),
            Token::RParen,
            Token::LSquirly,
            Token::Return,
            Token::True,
            Token::Semicolon,
            Token::RSquirly,
            Token::Else,
            Token::LSquirly,
            Token::Return,
            Token::False,
            Token::Semicolon,
            Token::RSquirly,
            Token::LSquirly,
            Token::String("foo".to_string()),
            Token::Colon,
            Token::String("bar".to_string()),
            Token::RSquirly,
        ]
    );
}

#[test]
fn test_token_text_and_kind() {
    assert_eq!(Token::Ident("abc".to_string()).to_string(), "abc");
    assert_eq!(Token::Int("12".to_string()).to_string(), "12");
    assert_eq!(Token::String("s t".to_string()).to_string(), "s t");
    assert_eq!(Token::Illegal("@".to_string()).to_string(), "@");
    assert_eq!(Token::Eof.to_string(), "EOF");
    assert_eq!(Token::Assign.to_string(), "=");
    assert_eq!(Token::LTE.to_string(), "<=");
    assert_eq!(Token::GTE.to_string(), ">=");
    assert_eq!(Token::And.to_string(), "&&");
    assert_eq!(Token::Or.to_string(), "||");
    assert_eq!(Token::Function.to_string(), "fn");
    assert_eq!(Token::Return.to_string(), "return");
    assert_eq!(Token::LSquirly.to_string(), "{");
    assert_eq!(Token::RBracket.to_string(), "]");
    assert_eq!(fixed_text(TokenKind::Colon), ":");
    assert_eq!(fixed_text(TokenKind::Ident), "");
    assert_eq!(Token::Ident("abc".to_string()).kind(), TokenKind::Ident);
    assert_eq!(Token::Slash.kind(), TokenKind::Slash);
    assert_eq!(Token::plain(TokenKind::Else), Token::Else);
    assert_eq!(Token::plain(TokenKind::Int), Token::Int(String::new()));
    assert_eq!(Token::from_word("let".to_string()), Token::Let);
    assert_eq!(
        Token::from_word("lets".to_string()),
        Token::Ident("lets".to_string())
    );
    assert!(text_is(&"fn".to_string(), "fn"));
    assert!(!text_is(&"fn".to_string(), "f"));
}

#[test]
fn test_token_same_and_clone() {
    let a = Token::Ident("a".to_string());
    let b = Token::Ident("b".to_string());
    assert!(a.same(&a.clone()));
    assert!(!a.same(&b));
    assert!(!a.same(&Token::Int("a".to_string())));
    assert!(Token::Let.same(&Token::Let));
    assert!(!Token::Let.same(&Token::Return));
    assert!(Token::String("x".to_string()).same(&Token::String("x".to_string())));
    assert!(!Token::Illegal("x".to_string()).same(&Token::Illegal("y".to_string())));
    assert_eq!(b.clone(), Token::Ident("b".to_string()));
}

#[test]
fn test_integer_to_string() {
    assert_eq!(integer_to_string(0), "0");
    assert_eq!(integer_to_string(7), "7");
    assert_eq!(integer_to_string(10), "10");
    assert_eq!(integer_to_string(-1), "-1");
    assert_eq!(integer_to_string(1234567890), "1234567890");
    assert_eq!(integer_to_string(i64::MAX), "9223372036854775807");
    assert_eq!(integer_to_string(i64::MIN), "-9223372036854775808");
}

#[test]
fn test_parse_integer() {
    assert_eq!(parse_integer("0"), Some(0));
    assert_eq!(parse_integer("007"), Some(7));
    assert_eq!(parse_integer("838383"), Some(838383));
    assert_eq!(parse_integer("9223372036854775807"), Some(i64::MAX));
    assert_eq!(parse_integer("9223372036854775808"), None);
    assert_eq!(parse_integer("99999999999999999999999"), None);
    assert_eq!(parse_integer(""), None);
    assert_eq!(parse_integer("-1"), None);
    assert_eq!(parse_integer("+1"), None);
    assert_eq!(parse_integer("12a"), None);
    assert_eq!(parse_integer(" 1"), None);
}

#[test]
fn test_text_helpers() {
    assert_eq!(chars_of("aé"), vec!['a', 'é']);
    assert_eq!(chars_of(""), Vec::<char>::new());
    let chars = vec!['h', 'e', 'l', 'l', 'o'];
    assert_eq!(string_of(&chars, 1, 4), "ell");
    assert_eq!(string_of(&chars, 2, 2), "");
    assert_eq!(string_of(&chars, 0, 5), "hello");
    assert!(is_digit('0'));
    assert!(is_digit('9'));
    assert!(!is_digit('a'));
    assert!(!is_digit('/'));
    assert!(!is_digit(':'));
}
