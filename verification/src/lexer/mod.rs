//! The lexer: cuts source text into tokens, one at a time.

pub mod token;

use crate::lexer::token::{spec_plain, spec_word_token, SpecToken, Token, TokenKind};
use crate::text::{chars_of, is_digit, spec_is_digit, string_of};
use vstd::prelude::*;

verus! {

/// The classes of characters that the lexer reads in runs.
#[derive(Clone, Copy, Debug, PartialEq, Eq, Structural)]
pub enum CharClass {
    /// Blanks, tabs and line ends.
    Whitespace,
    /// The letters of identifiers and keywords.
    Letter,
    /// Decimal digits.
    Digit,
    /// Whatever may stand inside a string literal: all but the double quote.
    StringBody,
}

pub open spec fn spec_is_whitespace(c: char) -> bool {
    c == ' ' || c == '\t' || c == '\n' || c == '\r'
}

pub open spec fn spec_is_letter(c: char) -> bool {
    ('a' <= c && c <= 'z') || ('A' <= c && c <= 'Z') || c == '_'
}

pub open spec fn spec_in_class(class: CharClass, c: char) -> bool {
    match class {
        CharClass::Whitespace => spec_is_whitespace(c),
        CharClass::Letter => spec_is_letter(c),
        CharClass::Digit => spec_is_digit(c),
        CharClass::StringBody => c != '"',
    }
}

/// Where the run of characters of `class` that starts at `from` ends: the
/// first position at or after `from` that holds no character of the class.
pub open spec fn spec_run_end(input: Seq<char>, from: int, class: CharClass) -> int
    decreases input.len() - from,
{
    if 0 <= from < input.len() && spec_in_class(class, input[from]) {
        spec_run_end(input, from + 1, class)
    } else {
        from
    }
}

/// The operator that the two characters spell together, if they do.
pub open spec fn spec_pair_kind(c: char, d: char) -> Option<TokenKind> {
    if c == '=' && d == '=' {
        Some(TokenKind::Equal)
    } else if c == '!' && d == '=' {
        Some(TokenKind::NotEqual)
    } else if c == '<' && d == '=' {
        Some(TokenKind::LTE)
    } else if c == '>' && d == '=' {
        Some(TokenKind::GTE)
    } else if c == '&' && d == '&' {
        Some(TokenKind::And)
    } else if c == '|' && d == '|' {
        Some(TokenKind::Or)
    } else {
        None
    }
}

/// The token that the single character spells; `Illegal` if it spells none.
pub open spec fn spec_symbol_kind(c: char) -> TokenKind {
    if c == '=' {
        TokenKind::Assign
    } else if c == '+' {
        TokenKind::Plus
    } else if c == '-' {
        TokenKind::Minus
    } else if c == '!' {
        TokenKind::Bang
    } else if c == '*' {
        TokenKind::Asterisk
    } else if c == '/' {
        TokenKind::Slash
    } else if c == '<' {
        TokenKind::LT
    } else if c == '>' {
        TokenKind::GT
    } else if c == ',' {
        TokenKind::Comma
    } else if c == ';' {
        TokenKind::Semicolon
    } else if c == ':' {
        TokenKind::Colon
    } else if c == '(' {
        TokenKind::LParen
    } else if c == ')' {
        TokenKind::RParen
    } else if c == '{' {
        TokenKind::LSquirly
    } else if c == '}' {
        TokenKind::RSquirly
    } else if c == '[' {
        TokenKind::LBracket
    } else if c == ']' {
        TokenKind::RBracket
    } else {
        TokenKind::Illegal
    }
}

/// The token that starts at or after `pos`, and the position behind it.
///
/// Whitespace before the token is skipped. A word of letters is a keyword or
/// an identifier, a run of digits an integer literal. A double quote opens a
/// string literal that runs to the next double quote, or to the end of the
/// input where there is none. Two characters that spell an operator together
/// are one token. Any other character is a token by itself, `Illegal` where
/// the language has no use for it. At the end of the input the token is
/// `Eof`.
pub open spec fn spec_scan(input: Seq<char>, pos: int) -> (SpecToken, int) {
    let start = spec_run_end(input, pos, CharClass::Whitespace);
    if !(0 <= start < input.len()) {
        (spec_plain(TokenKind::Eof), start)
    } else {
        let c = input[start];
        if spec_is_letter(c) {
            let end = spec_run_end(input, start, CharClass::Letter);
            (spec_word_token(input.subrange(start, end)), end)
        } else if spec_is_digit(c) {
            let end = spec_run_end(input, start, CharClass::Digit);
            (SpecToken { kind: TokenKind::Int, text: input.subrange(start, end) }, end)
        } else if c == '"' {
            let end = spec_run_end(input, start + 1, CharClass::StringBody);
            (
                SpecToken { kind: TokenKind::String, text: input.subrange(start + 1, end) },
                if end < input.len() {
                    end + 1
                } else {
                    end
                },
            )
        } else if start + 1 < input.len() && spec_pair_kind(c, input[start + 1]) is Some {
            (spec_plain(spec_pair_kind(c, input[start + 1])->0), start + 2)
        } else if spec_symbol_kind(c) == TokenKind::Illegal {
            (SpecToken { kind: TokenKind::Illegal, text: seq![c] }, start + 1)
        } else {
            (spec_plain(spec_symbol_kind(c)), start + 1)
        }
    }
}

/// The tokens of `input` from `pos` on, up to the end of the input. The
/// closing `Eof` is not among them.
pub open spec fn spec_tokens(input: Seq<char>, pos: int) -> Seq<SpecToken>
    decreases input.len() - pos,
{
    let (token, next) = spec_scan(input, pos);
    if token.kind == TokenKind::Eof || !(pos < next <= input.len()) {
        Seq::empty()
    } else {
        seq![token] + spec_tokens(input, next)
    }
}

/// A run that starts inside the input ends inside the input, at or after its
/// start.
pub proof fn lemma_run_end_bounds(input: Seq<char>, from: int, class: CharClass)
    requires
        0 <= from <= input.len(),
    ensures
        from <= spec_run_end(input, from, class) <= input.len(),
    decreases input.len() - from,
{
    if from < input.len() && spec_in_class(class, input[from]) {
        lemma_run_end_bounds(input, from + 1, class);
    }
}

/// Every token but `Eof` takes at least one character and ends inside the
/// input; `Eof` comes at the end of the input and nowhere else.
pub proof fn lemma_scan_advances(input: Seq<char>, pos: int)
    requires
        0 <= pos <= input.len(),
    ensures
        spec_scan(input, pos).0.kind != TokenKind::Eof ==> pos < spec_scan(input, pos).1
            <= input.len(),
        spec_scan(input, pos).0.kind == TokenKind::Eof ==> spec_scan(input, pos).1 == input.len(),
{
    lemma_run_end_bounds(input, pos, CharClass::Whitespace);
    let start = spec_run_end(input, pos, CharClass::Whitespace);
    if start < input.len() {
        lemma_run_end_bounds(input, start + 1, CharClass::Letter);
        lemma_run_end_bounds(input, start + 1, CharClass::Digit);
        lemma_run_end_bounds(input, start + 1, CharClass::StringBody);
    }
}

/// None of the tokens of an input is `Eof`.
pub proof fn lemma_tokens_hold_no_eof(input: Seq<char>, pos: int)
    ensures
        forall|i: int|
            0 <= i < spec_tokens(input, pos).len() ==> (#[trigger] spec_tokens(input, pos)[i]).kind
                != TokenKind::Eof,
    decreases input.len() - pos,
{
    let (token, next) = spec_scan(input, pos);
    if !(token.kind == TokenKind::Eof || !(pos < next <= input.len())) {
        lemma_tokens_hold_no_eof(input, next);
    }
}

fn is_whitespace(c: char) -> (b: bool)
    ensures
        b == spec_is_whitespace(c),
{
    c == ' ' || c == '\t' || c == '\n' || c == '\r'
}

fn is_letter(c: char) -> (b: bool)
    ensures
        b == spec_is_letter(c),
{
    ('a' <= c && c <= 'z') || ('A' <= c && c <= 'Z') || c == '_'
}

fn in_class(class: CharClass, c: char) -> (b: bool)
    ensures
        b == spec_in_class(class, c),
{
    match class {
        CharClass::Whitespace => is_whitespace(c),
        CharClass::Letter => is_letter(c),
        CharClass::Digit => is_digit(c),
        CharClass::StringBody => c != '"',
    }
}

fn pair_kind(c: char, d: char) -> (k: Option<TokenKind>)
    ensures
        k == spec_pair_kind(c, d),
{
    if c == '=' && d == '=' {
        Some(TokenKind::Equal)
    } else if c == '!' && d == '=' {
        Some(TokenKind::NotEqual)
    } else if c == '<' && d == '=' {
        Some(TokenKind::LTE)
    } else if c == '>' && d == '=' {
        Some(TokenKind::GTE)
    } else if c == '&' && d == '&' {
        Some(TokenKind::And)
    } else if c == '|' && d == '|' {
        Some(TokenKind::Or)
    } else {
        None
    }
}

fn symbol_kind(c: char) -> (k: TokenKind)
    ensures
        k == spec_symbol_kind(c),
{
    if c == '=' {
        TokenKind::Assign
    } else if c == '+' {
        TokenKind::Plus
    } else if c == '-' {
        TokenKind::Minus
    } else if c == '!' {
        TokenKind::Bang
    } else if c == '*' {
        TokenKind::Asterisk
    } else if c == '/' {
        TokenKind::Slash
    } else if c == '<' {
        TokenKind::LT
    } else if c == '>' {
        TokenKind::GT
    } else if c == ',' {
        TokenKind::Comma
    } else if c == ';' {
        TokenKind::Semicolon
    } else if c == ':' {
        TokenKind::Colon
    } else if c == '(' {
        TokenKind::LParen
    } else if c == ')' {
        TokenKind::RParen
    } else if c == '{' {
        TokenKind::LSquirly
    } else if c == '}' {
        TokenKind::RSquirly
    } else if c == '[' {
        TokenKind::LBracket
    } else if c == ']' {
        TokenKind::RBracket
    } else {
        TokenKind::Illegal
    }
}

/// A lexer over one source text. It hands out the tokens of the text one by
/// one, and `Eof` from the end of the text on.
pub struct Lexer {
    input: Vec<char>,
    position: usize,
}

impl Lexer {
    #[verifier::type_invariant]
    spec fn inv(&self) -> bool {
        self.position <= self.input.len()
    }

    /// The source text.
    pub closed spec fn source(&self) -> Seq<char> {
        self.input@
    }

    /// How many characters of the source text have been read.
    pub closed spec fn offset(&self) -> int {
        self.position as int
    }

    /// The tokens that are still to come, `Eof` not among them.
    pub open spec fn remaining(&self) -> Seq<SpecToken> {
        spec_tokens(self.source(), self.offset())
    }

    /// A lexer at the start of `input`.
    pub fn new(input: &str) -> (lexer: Lexer)
        ensures
            lexer.source() == input@,
            lexer.offset() == 0,
            lexer.remaining() == spec_tokens(input@, 0),
    {
        Lexer { input: chars_of(input), position: 0 }
    }

    fn run_end(&self, from: usize, class: CharClass) -> (end: usize)
        requires
            from <= self.input.len(),
        ensures
            end == spec_run_end(self.input@, from as int, class),
            from <= end <= self.input.len(),
    {
        let mut end: usize = from;
        while end < self.input.len() && in_class(class, self.input[end])
            invariant
                from <= end <= self.input.len(),
                spec_run_end(self.input@, from as int, class) == spec_run_end(
                    self.input@,
                    end as int,
                    class,
                ),
            decreases self.input.len() - end,
        {
            end += 1;
        }
        end
    }

    /// Reads the next token. Past the last token, every call returns `Eof`.
    pub fn next_token(&mut self) -> (token: Token)
        ensures
            final(self).source() == old(self).source(),
            (token@, final(self).offset()) == spec_scan(old(self).source(), old(self).offset()),
            token@.kind != TokenKind::Eof ==> old(self).remaining() == seq![token@]
                + final(self).remaining(),
            token@.kind == TokenKind::Eof ==> old(self).remaining().len() == 0,
            token@.kind == TokenKind::Eof ==> final(self).remaining().len() == 0,
    {
        proof {
            use_type_invariant(&*self);
            lemma_scan_advances(self.input@, self.position as int);
        }
        let start: usize = self.run_end(self.position, CharClass::Whitespace);
        if start >= self.input.len() {
            self.position = start;
            proof {
                lemma_scan_advances(self.input@, self.position as int);
            }
            return Token::Eof;
        }
        let c: char = self.input[start];
        if is_letter(c) {
            let end: usize = self.run_end(start, CharClass::Letter);
            let word = string_of(&self.input, start, end);
            self.position = end;
            Token::from_word(word)
        } else if is_digit(c) {
            let end: usize = self.run_end(start, CharClass::Digit);
            let digits = string_of(&self.input, start, end);
            self.position = end;
            Token::Int(digits)
        } else if c == '"' {
            let end: usize = self.run_end(start + 1, CharClass::StringBody);
            let body = string_of(&self.input, start + 1, end);
            self.position = if end < self.input.len() {
                end + 1
            } else {
                end
            };
            Token::String(body)
        } else {
            if start + 1 < self.input.len() {
                if let Some(kind) = pair_kind(c, self.input[start + 1]) {
                    self.position = start + 2;
                    return Token::plain(kind);
                }
            }
            let kind: TokenKind = symbol_kind(c);
            self.position = start + 1;
            if kind == TokenKind::Illegal {
                let mut text = String::new();
                text.push(c);
                Token::Illegal(text)
            } else {
                Token::plain(kind)
            }
        }
    }
}

} // verus!
