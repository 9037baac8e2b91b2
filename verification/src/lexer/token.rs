//! Lexical tokens.

use vstd::prelude::*;
use vstd::string::*;

verus! {

/// What sort of token a token is, without the text it carries.
#[derive(Clone, Copy, Debug, PartialEq, Eq, Structural)]
pub enum TokenKind {
    Illegal,
    Eof,
    Ident,
    Int,
    String,
    Assign,
    Plus,
    Minus,
    Bang,
    Asterisk,
    Slash,
    LT,
    GT,
    LTE,
    GTE,
    Equal,
    NotEqual,
    And,
    Or,
    Comma,
    Semicolon,
    Colon,
    LParen,
    RParen,
    LSquirly,
    RSquirly,
    LBracket,
    RBracket,
    Function,
    Let,
    True,
    False,
    If,
    Else,
    Return,
}

/// A token of the language. Identifiers, integer literals, string literals
/// and illegal input carry their text.
#[derive(Debug, PartialEq, Eq)]
pub enum Token {
    Illegal(String),
    Eof,
    Ident(String),
    Int(String),
    String(String),
    Assign,
    Plus,
    Minus,
    Bang,
    Asterisk,
    Slash,
    LT,
    GT,
    LTE,
    GTE,
    Equal,
    NotEqual,
    And,
    Or,
    Comma,
    Semicolon,
    Colon,
    LParen,
    RParen,
    LSquirly,
    RSquirly,
    LBracket,
    RBracket,
    Function,
    Let,
    True,
    False,
    If,
    Else,
    Return,
}

/// The mathematical model of a token: its kind and the text it shows as.
pub struct SpecToken {
    pub kind: TokenKind,
    pub text: Seq<char>,
}

/// Whether tokens of this kind carry a text of their own.
pub open spec fn spec_carries_text(kind: TokenKind) -> bool {
    kind == TokenKind::Illegal || kind == TokenKind::Ident || kind == TokenKind::Int || kind
        == TokenKind::String
}

/// The text of a token that carries none of its own; empty for the kinds that
/// do.
pub open spec fn spec_fixed_text(kind: TokenKind) -> Seq<char> {
    match kind {
        TokenKind::Illegal => ""@,
        TokenKind::Eof => "EOF"@,
        TokenKind::Ident => ""@,
        TokenKind::Int => ""@,
        TokenKind::String => ""@,
        TokenKind::Assign => "="@,
        TokenKind::Plus => "+"@,
        TokenKind::Minus => "-"@,
        TokenKind::Bang => "!"@,
        TokenKind::Asterisk => "*"@,
        TokenKind::Slash => "/"@,
        TokenKind::LT => "<"@,
        TokenKind::GT => ">"@,
        TokenKind::LTE => "<="@,
        TokenKind::GTE => ">="@,
        TokenKind::Equal => "=="@,
        TokenKind::NotEqual => "!="@,
        TokenKind::And => "&&"@,
        TokenKind::Or => "||"@,
        TokenKind::Comma => ","@,
        TokenKind::Semicolon => ";"@,
        TokenKind::Colon => ":"@,
        TokenKind::LParen => "("@,
        TokenKind::RParen => ")"@,
        TokenKind::LSquirly => "{"@,
        TokenKind::RSquirly => "}"@,
        TokenKind::LBracket => "["@,
        TokenKind::RBracket => "]"@,
        TokenKind::Function => "fn"@,
        TokenKind::Let => "let"@,
        TokenKind::True => "true"@,
        TokenKind::False => "false"@,
        TokenKind::If => "if"@,
        TokenKind::Else => "else"@,
        TokenKind::Return => "return"@,
    }
}

/// The model of the token of `kind` that carries no text of its own.
pub open spec fn spec_plain(kind: TokenKind) -> SpecToken {
    SpecToken { kind, text: spec_fixed_text(kind) }
}

/// The kind of token that a word of letters denotes: a keyword, or an
/// identifier.
pub open spec fn spec_word_kind(word: Seq<char>) -> TokenKind {
    if word == "fn"@ {
        TokenKind::Function
    } else if word == "let"@ {
        TokenKind::Let
    } else if word == "true"@ {
        TokenKind::True
    } else if word == "false"@ {
        TokenKind::False
    } else if word == "if"@ {
        TokenKind::If
    } else if word == "else"@ {
        TokenKind::Else
    } else if word == "return"@ {
        TokenKind::Return
    } else {
        TokenKind::Ident
    }
}

/// The model of the token that a word of letters denotes.
pub open spec fn spec_word_token(word: Seq<char>) -> SpecToken {
    let kind = spec_word_kind(word);
    if kind == TokenKind::Ident {
        SpecToken { kind, text: word }
    } else {
        spec_plain(kind)
    }
}

impl View for Token {
    type V = SpecToken;

    open spec fn view(&self) -> SpecToken {
        match self {
            Token::Illegal(s) => SpecToken { kind: TokenKind::Illegal, text: s@ },
            Token::Eof => spec_plain(TokenKind::Eof),
            Token::Ident(s) => SpecToken { kind: TokenKind::Ident, text: s@ },
            Token::Int(s) => SpecToken { kind: TokenKind::Int, text: s@ },
            Token::String(s) => SpecToken { kind: TokenKind::String, text: s@ },
            Token::Assign => spec_plain(TokenKind::Assign),
            Token::Plus => spec_plain(TokenKind::Plus),
            Token::Minus => spec_plain(TokenKind::Minus),
            Token::Bang => spec_plain(TokenKind::Bang),
            Token::Asterisk => spec_plain(TokenKind::Asterisk),
            Token::Slash => spec_plain(TokenKind::Slash),
            Token::LT => spec_plain(TokenKind::LT),
            Token::GT => spec_plain(TokenKind::GT),
            Token::LTE => spec_plain(TokenKind::LTE),
            Token::GTE => spec_plain(TokenKind::GTE),
            Token::Equal => spec_plain(TokenKind::Equal),
            Token::NotEqual => spec_plain(TokenKind::NotEqual),
            Token::And => spec_plain(TokenKind::And),
            Token::Or => spec_plain(TokenKind::Or),
            Token::Comma => spec_plain(TokenKind::Comma),
            Token::Semicolon => spec_plain(TokenKind::Semicolon),
            Token::Colon => spec_plain(TokenKind::Colon),
            Token::LParen => spec_plain(TokenKind::LParen),
            Token::RParen => spec_plain(TokenKind::RParen),
            Token::LSquirly => spec_plain(TokenKind::LSquirly),
            Token::RSquirly => spec_plain(TokenKind::RSquirly),
            Token::LBracket => spec_plain(TokenKind::LBracket),
            Token::RBracket => spec_plain(TokenKind::RBracket),
            Token::Function => spec_plain(TokenKind::Function),
            Token::Let => spec_plain(TokenKind::Let),
            Token::True => spec_plain(TokenKind::True),
            Token::False => spec_plain(TokenKind::False),
            Token::If => spec_plain(TokenKind::If),
            Token::Else => spec_plain(TokenKind::Else),
            Token::Return => spec_plain(TokenKind::Return),
        }
    }
}

impl Clone for Token {
    fn clone(&self) -> (res: Self)
        ensures
            res@ == self@,
    {
        match self {
            Token::Illegal(s) => Token::Illegal(s.clone()),
            Token::Eof => Token::Eof,
            Token::Ident(s) => Token::Ident(s.clone()),
            Token::Int(s) => Token::Int(s.clone()),
            Token::String(s) => Token::String(s.clone()),
            Token::Assign => Token::Assign,
            Token::Plus => Token::Plus,
            Token::Minus => Token::Minus,
            Token::Bang => Token::Bang,
            Token::Asterisk => Token::Asterisk,
            Token::Slash => Token::Slash,
            Token::LT => Token::LT,
            Token::GT => Token::GT,
            Token::LTE => Token::LTE,
            Token::GTE => Token::GTE,
            Token::Equal => Token::Equal,
            Token::NotEqual => Token::NotEqual,
            Token::And => Token::And,
            Token::Or => Token::Or,
            Token::Comma => Token::Comma,
            Token::Semicolon => Token::Semicolon,
            Token::Colon => Token::Colon,
            Token::LParen => Token::LParen,
            Token::RParen => Token::RParen,
            Token::LSquirly => Token::LSquirly,
            Token::RSquirly => Token::RSquirly,
            Token::LBracket => Token::LBracket,
            Token::RBracket => Token::RBracket,
            Token::Function => Token::Function,
            Token::Let => Token::Let,
            Token::True => Token::True,
            Token::False => Token::False,
            Token::If => Token::If,
            Token::Else => Token::Else,
            Token::Return => Token::Return,
        }
    }
}

/// The text of the tokens that carry none of their own.
pub fn fixed_text(kind: TokenKind) -> (s: &'static str)
    ensures
        s@ == spec_fixed_text(kind),
{
    match kind {
        TokenKind::Illegal => "",
        TokenKind::Eof => "EOF",
        TokenKind::Ident => "",
        TokenKind::Int => "",
        TokenKind::String => "",
        TokenKind::Assign => "=",
        TokenKind::Plus => "+",
        TokenKind::Minus => "-",
        TokenKind::Bang => "!",
        TokenKind::Asterisk => "*",
        TokenKind::Slash => "/",
        TokenKind::LT => "<",
        TokenKind::GT => ">",
        TokenKind::LTE => "<=",
        TokenKind::GTE => ">=",
        TokenKind::Equal => "==",
        TokenKind::NotEqual => "!=",
        TokenKind::And => "&&",
        TokenKind::Or => "||",
        TokenKind::Comma => ",",
        TokenKind::Semicolon => ";",
        TokenKind::Colon => ":",
        TokenKind::LParen => "(",
        TokenKind::RParen => ")",
        TokenKind::LSquirly => "{",
        TokenKind::RSquirly => "}",
        TokenKind::LBracket => "[",
        TokenKind::RBracket => "]",
        TokenKind::Function => "fn",
        TokenKind::Let => "let",
        TokenKind::True => "true",
        TokenKind::False => "false",
        TokenKind::If => "if",
        TokenKind::Else => "else",
        TokenKind::Return => "return",
    }
}

impl Token {
    /// The kind of this token.
    pub fn kind(&self) -> (k: TokenKind)
        ensures
            k == self@.kind,
    {
        match self {
            Token::Illegal(_) => TokenKind::Illegal,
            Token::Eof => TokenKind::Eof,
            Token::Ident(_) => TokenKind::Ident,
            Token::Int(_) => TokenKind::Int,
            Token::String(_) => TokenKind::String,
            Token::Assign => TokenKind::Assign,
            Token::Plus => TokenKind::Plus,
            Token::Minus => TokenKind::Minus,
            Token::Bang => TokenKind::Bang,
            Token::Asterisk => TokenKind::Asterisk,
            Token::Slash => TokenKind::Slash,
            Token::LT => TokenKind::LT,
            Token::GT => TokenKind::GT,
            Token::LTE => TokenKind::LTE,
            Token::GTE => TokenKind::GTE,
            Token::Equal => TokenKind::Equal,
            Token::NotEqual => TokenKind::NotEqual,
            Token::And => TokenKind::And,
            Token::Or => TokenKind::Or,
            Token::Comma => TokenKind::Comma,
            Token::Semicolon => TokenKind::Semicolon,
            Token::Colon => TokenKind::Colon,
            Token::LParen => TokenKind::LParen,
            Token::RParen => TokenKind::RParen,
            Token::LSquirly => TokenKind::LSquirly,
            Token::RSquirly => TokenKind::RSquirly,
            Token::LBracket => TokenKind::LBracket,
            Token::RBracket => TokenKind::RBracket,
            Token::Function => TokenKind::Function,
            Token::Let => TokenKind::Let,
            Token::True => TokenKind::True,
            Token::False => TokenKind::False,
            Token::If => TokenKind::If,
            Token::Else => TokenKind::Else,
            Token::Return => TokenKind::Return,
        }
    }

    /// The token of `kind` that carries no text; for a kind that carries
    /// text, the token with the empty text.
    pub fn plain(kind: TokenKind) -> (t: Token)
        ensures
            t@ == spec_plain(kind),
    {
        let t = match kind {
            TokenKind::Illegal => Token::Illegal(String::new()),
            TokenKind::Eof => Token::Eof,
            TokenKind::Ident => Token::Ident(String::new()),
            TokenKind::Int => Token::Int(String::new()),
            TokenKind::String => Token::String(String::new()),
            TokenKind::Assign => Token::Assign,
            TokenKind::Plus => Token::Plus,
            TokenKind::Minus => Token::Minus,
            TokenKind::Bang => Token::Bang,
            TokenKind::Asterisk => Token::Asterisk,
            TokenKind::Slash => Token::Slash,
            TokenKind::LT => Token::LT,
            TokenKind::GT => Token::GT,
            TokenKind::LTE => Token::LTE,
            TokenKind::GTE => Token::GTE,
            TokenKind::Equal => Token::Equal,
            TokenKind::NotEqual => Token::NotEqual,
            TokenKind::And => Token::And,
            TokenKind::Or => Token::Or,
            TokenKind::Comma => Token::Comma,
            TokenKind::Semicolon => Token::Semicolon,
            TokenKind::Colon => Token::Colon,
            TokenKind::LParen => Token::LParen,
            TokenKind::RParen => Token::RParen,
            TokenKind::LSquirly => Token::LSquirly,
            TokenKind::RSquirly => Token::RSquirly,
            TokenKind::LBracket => Token::LBracket,
            TokenKind::RBracket => Token::RBracket,
            TokenKind::Function => Token::Function,
            TokenKind::Let => Token::Let,
            TokenKind::True => Token::True,
            TokenKind::False => Token::False,
            TokenKind::If => Token::If,
            TokenKind::Else => Token::Else,
            TokenKind::Return => Token::Return,
        };
        proof {
            reveal_strlit("");
            assert(t@.text =~= spec_fixed_text(kind));
        }
        t
    }

    /// The text this token shows as: the text it carries, or its fixed
    /// spelling.
    pub fn to_string(&self) -> (s: String)
        ensures
            s@ == self@.text,
    {
        match self {
            Token::Illegal(s) => s.clone(),
            Token::Ident(s) => s.clone(),
            Token::Int(s) => s.clone(),
            Token::String(s) => s.clone(),
            _ => String::from_str(fixed_text(self.kind())),
        }
    }

    /// Whether the two tokens have the same kind and the same text.
    pub fn same(&self, other: &Token) -> (b: bool)
        ensures
            b == (self@ == other@),
    {
        let k: TokenKind = self.kind();
        if k != other.kind() {
            return false;
        }
        proof {
            lemma_plain_view(*self);
            lemma_plain_view(*other);
        }
        match (self, other) {
            (Token::Illegal(a), Token::Illegal(b)) => *a == *b,
            (Token::Ident(a), Token::Ident(b)) => *a == *b,
            (Token::Int(a), Token::Int(b)) => *a == *b,
            (Token::String(a), Token::String(b)) => *a == *b,
            _ => true,
        }
    }

    /// The keyword that `word` spells, or the identifier `word`.
    pub fn from_word(word: String) -> (t: Token)
        ensures
            t@ == spec_word_token(word@),
    {
        if text_is(&word, "fn") {
            Token::Function
        } else if text_is(&word, "let") {
            Token::Let
        } else if text_is(&word, "true") {
            Token::True
        } else if text_is(&word, "false") {
            Token::False
        } else if text_is(&word, "if") {
            Token::If
        } else if text_is(&word, "else") {
            Token::Else
        } else if text_is(&word, "return") {
            Token::Return
        } else {
            Token::Ident(word)
        }
    }
}

/// A token that carries no text is the plain token of its kind.
pub proof fn lemma_plain_view(t: Token)
    ensures
        !spec_carries_text(t@.kind) ==> t@ == spec_plain(t@.kind),
        t@.kind == TokenKind::Illegal <==> t is Illegal,
        t@.kind == TokenKind::Ident <==> t is Ident,
        t@.kind == TokenKind::Int <==> t is Int,
        t@.kind == TokenKind::String <==> t is String,
{
}

/// Whether the string holds exactly the characters of `literal`.
pub fn text_is(s: &String, literal: &str) -> (b: bool)
    ensures
        b == (s@ == literal@),
{
    let other = String::from_str(literal);
    *s == other
}

} // verus!
