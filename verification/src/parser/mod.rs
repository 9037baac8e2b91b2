//! The parser: from tokens to a syntax tree, by operator precedence.

pub mod ast;
pub mod canonical;
pub mod equality;
pub mod expression;
pub mod grammar;
pub mod laws;
pub mod printer;
pub mod round_trip;
pub mod rules;

use crate::lexer::token::{lemma_plain_view, SpecToken, Token, TokenKind};
use crate::lexer::{spec_tokens, Lexer};
use crate::parser::ast::{
    Expression, FunctionLiteral, Identifier, LetStatement, Program, ReturnStatement,
    SpecStatement, Statement,
};
use crate::parser::grammar::{
    spec_expected_message, spec_named, spec_parse_expression, spec_parse_expression_statement, spec_parse_let_statement,
    spec_parse_program, spec_parse_program_statements, spec_parse_return_statement,
    spec_parse_statement, spec_precedence, spec_token_is, Precedence, SpecParser,
};
use vstd::prelude::*;
use vstd::string::*;

verus! {

/// The errors that a parser has recorded, in the order in which it met them.
#[derive(Debug)]
pub struct ParserErrors {
    pub errors: Vec<String>,
}

/// The texts of a sequence of strings.
pub open spec fn spec_texts(strings: Seq<String>) -> Seq<Seq<char>> {
    Seq::new(strings.len(), |i: int| strings[i]@)
}

/// The text that shows a list of errors: a heading, then each error on a
/// line of its own behind a tab.
pub open spec fn spec_errors_text(errors: Seq<Seq<char>>) -> Seq<char>
    decreases errors.len(),
{
    if errors.len() == 0 {
        "Parser errors:\n"@
    } else {
        spec_errors_text(errors.drop_last()) + "\t"@ + errors.last() + "\n"@
    }
}

impl View for ParserErrors {
    type V = Seq<Seq<char>>;

    open spec fn view(&self) -> Seq<Seq<char>> {
        spec_texts(self.errors@)
    }
}

impl Default for ParserErrors {
    fn default() -> (errors: Self)
        ensures
            errors@ == Seq::<Seq<char>>::empty(),
    {
        ParserErrors::new()
    }
}

impl ParserErrors {
    /// No errors.
    pub fn new() -> (errors: ParserErrors)
        ensures
            errors@ == Seq::<Seq<char>>::empty(),
    {
        let errors = ParserErrors { errors: Vec::new() };
        assert(errors@ =~= Seq::<Seq<char>>::empty());
        errors
    }

    /// Records one more error.
    pub fn add_error(&mut self, err: String)
        ensures
            final(self)@ == old(self)@.push(err@),
    {
        self.errors.push(err);
        assert(self@ =~= old(self)@.push(err@));
    }

    /// Records the given errors, in their order.
    pub fn add_errors(&mut self, errors: Vec<String>)
        ensures
            final(self)@ == old(self)@ + spec_texts(errors@),
    {
        let mut errors = errors;
        let ghost added = errors@;
        self.errors.append(&mut errors);
        assert(self@ =~= old(self)@ + spec_texts(added));
    }

    /// Whether no error is on record.
    pub fn is_empty(&self) -> (b: bool)
        ensures
            b == (self@.len() == 0),
    {
        self.errors.is_empty()
    }

    /// How many errors are on record.
    pub fn len(&self) -> (n: usize)
        ensures
            n == self@.len(),
    {
        self.errors.len()
    }

    /// The errors as one text, ready to be shown.
    pub fn to_string(&self) -> (s: String)
        ensures
            s@ == spec_errors_text(self@),
    {
        let mut s = String::from_str("Parser errors:\n");
        let mut i: usize = 0;
        assert(self@.take(0) =~= Seq::<Seq<char>>::empty());
        while i < self.errors.len()
            invariant
                i <= self.errors.len(),
                s@ == spec_errors_text(self@.take(i as int)),
            decreases self.errors.len() - i,
        {
            s.append("\t");
            s.append(self.errors[i].as_str());
            s.append("\n");
            i += 1;
            assert(self@.take(i as int).drop_last() =~= self@.take(i - 1));
        }
        assert(self@.take(i as int) =~= self@);
        s
    }
}

/// The error for a token that is not the expected one.
pub fn expected_message(expected: &Token, actual: &Token) -> (message: String)
    ensures
        message@ == spec_expected_message(expected@.text, actual@.text),
{
    let mut message = String::from_str("expected next token to be ");
    let expected_text = expected.to_string();
    message.append(expected_text.as_str());
    message.append(", got ");
    let actual_text = actual.to_string();
    message.append(actual_text.as_str());
    message.append(" instead");
    assert(message@ =~= spec_expected_message(expected@.text, actual@.text));
    message
}

/// Whether the token `actual` is the one that was `expected`: an identifier
/// passes for any identifier and an integer literal for any integer literal,
/// every other token only for itself.
pub fn token_is(actual: &Token, expected: &Token) -> (b: bool)
    ensures
        b == spec_token_is(actual@, expected@),
{
    match actual {
        Token::Ident(_) => expected.kind() == TokenKind::Ident,
        Token::Int(_) => expected.kind() == TokenKind::Int,
        _ => actual.same(expected),
    }
}

/// The model of a statement that may be absent.
pub open spec fn statement_option(statement: Option<Statement>) -> Option<SpecStatement> {
    match statement {
        Some(s) => Some(s@),
        None => None,
    }
}

/// The expression `value` as the value that a `let` statement binds to the
/// name at `token`: a function literal takes the name.
pub fn named(value: Expression, token: &Token) -> (r: Expression)
    ensures
        r@ == spec_named(value@, token@.text),
{
    match value {
        Expression::FunctionLiteral(literal) => Expression::FunctionLiteral(
            FunctionLiteral {
                parameters: literal.parameters,
                body: literal.body,
                name: Some(token.to_string()),
            },
        ),
        other => other,
    }
}

/// A parser over the tokens of one lexer. It holds the current token and
/// the one after it, and takes the others from the lexer as it goes.
pub struct Parser {
    lexer: Lexer,
    pub errors: ParserErrors,
    pub current_token: Token,
    pub peek_token: Token,
}

impl View for Parser {
    type V = SpecParser;

    /// The tokens from the current one on, and the errors on record.
    closed spec fn view(&self) -> SpecParser {
        SpecParser { tokens: self.stream(), errors: self.errors@ }
    }
}

impl Parser {
    /// The tokens that the lexer still holds: those behind the token after
    /// the current one.
    pub closed spec fn upcoming(&self) -> Seq<SpecToken> {
        self.lexer.remaining()
    }

    /// The two tokens that the parser holds agree with the end of the input:
    /// behind `Eof` comes nothing but `Eof`.
    pub closed spec fn wf(&self) -> bool {
        &&& self.current_token@.kind == TokenKind::Eof ==> self.peek_token@.kind == TokenKind::Eof
        &&& self.peek_token@.kind == TokenKind::Eof ==> self.upcoming().len() == 0
    }

    /// The tokens from the current one on, up to the end of the input.
    pub closed spec fn stream(&self) -> Seq<SpecToken> {
        if self.current_token@.kind == TokenKind::Eof {
            Seq::empty()
        } else if self.peek_token@.kind == TokenKind::Eof {
            seq![self.current_token@]
        } else {
            seq![self.current_token@, self.peek_token@] + self.upcoming()
        }
    }

    /// The model's current token and the one after it are the two tokens that
    /// the parser holds.
    proof fn lemma_held_tokens(&self)
        requires
            self.wf(),
        ensures
            self@.current() == self.current_token@,
            self@.peek() == self.peek_token@,
            self@.errors == self.errors@,
    {
        lemma_plain_view(self.current_token);
        lemma_plain_view(self.peek_token);
    }

    /// A parser at the first token of the lexer, with no error on record.
    pub fn new(lexer: Lexer) -> (parser: Parser)
        ensures
            parser.wf(),
            parser@ == (SpecParser { tokens: lexer.remaining(), errors: Seq::empty() }),
    {
        let mut parser = Parser {
            lexer,
            errors: ParserErrors::new(),
            current_token: Token::Illegal(String::new()),
            peek_token: Token::Illegal(String::new()),
        };
        assert(parser@.tokens.skip(1).skip(1) =~= lexer.remaining());
        parser.next_token();
        parser.next_token();
        parser
    }

    /// Steps to the next token: the token after the current one becomes the
    /// current one, and the lexer gives the one after it.
    pub fn next_token(&mut self)
        requires
            old(self).wf(),
        ensures
            final(self).wf(),
            final(self)@ == old(self)@.next(),
    {
        self.current_token = self.peek_token.clone();
        self.peek_token = self.lexer.next_token();
        proof {
            lemma_plain_view(old(self).current_token);
            lemma_plain_view(old(self).peek_token);
            lemma_plain_view(self.peek_token);
            assert(self@.tokens =~= old(self)@.next().tokens);
        }
    }

    /// Whether the current token is the given one; an identifier passes for
    /// any identifier and an integer literal for any integer literal.
    pub fn current_token_is(&self, token: &Token) -> (b: bool)
        requires
            self.wf(),
        ensures
            b == spec_token_is(self@.current(), token@),
    {
        proof {
            self.lemma_held_tokens();
        }
        token_is(&self.current_token, token)
    }

    /// Whether the token after the current one is the given one; an
    /// identifier passes for any identifier and an integer literal for any
    /// integer literal.
    pub fn peek_token_is(&self, token: &Token) -> (b: bool)
        requires
            self.wf(),
        ensures
            b == spec_token_is(self@.peek(), token@),
    {
        proof {
            self.lemma_held_tokens();
        }
        token_is(&self.peek_token, token)
    }

    /// Steps to the next token if that is the given one. Otherwise the
    /// parser stays where it is and records an error.
    pub fn expect_peek(&mut self, token: &Token) -> (b: bool)
        requires
            old(self).wf(),
        ensures
            final(self).wf(),
            (b, final(self)@) == old(self)@.expect_peek(token@),
    {
        if self.peek_token_is(token) {
            self.next_token();
            true
        } else {
            self.peek_error(token);
            false
        }
    }

    fn peek_error(&mut self, token: &Token)
        requires
            old(self).wf(),
        ensures
            final(self).wf(),
            final(self)@ == old(self)@.report(
                spec_expected_message(token@.text, old(self)@.peek().text),
            ),
    {
        proof {
            self.lemma_held_tokens();
        }
        let message = expected_message(token, &self.peek_token);
        self.errors.add_error(message);
    }

    /// The precedence of the token after the current one.
    pub fn peek_precedence(&mut self) -> (p: Precedence)
        requires
            old(self).wf(),
        ensures
            p == spec_precedence(old(self)@.peek().kind),
            *final(self) == *old(self),
    {
        proof {
            self.lemma_held_tokens();
        }
        Precedence::of(self.peek_token.kind())
    }

    /// The precedence of the current token.
    pub fn current_precedence(&mut self) -> (p: Precedence)
        requires
            old(self).wf(),
        ensures
            p == spec_precedence(old(self)@.current().kind),
            *final(self) == *old(self),
    {
        proof {
            self.lemma_held_tokens();
        }
        Precedence::of(self.current_token.kind())
    }

    /// Parses the whole input: statement after statement up to the end. A
    /// statement that fails is left out and its errors are on record; the
    /// parser goes on with the token behind the place where it stopped.
    #[verifier::loop_isolation(false)]
    pub fn parse_program(&mut self) -> (program: Program)
        requires
            old(self).wf(),
        ensures
            final(self).wf(),
            (program@, final(self)@) == spec_parse_program(old(self)@),
    {
        let ghost start = self@;
        let mut program = Program { statements: Vec::new() };
        assert(program@ =~= Seq::empty());
        loop
            invariant
                self.wf(),
                spec_parse_program(start) == spec_parse_program_statements(self@, program@),
            decreases self@.tokens.len(),
        {
            if self.current_kind() == TokenKind::Eof {
                return program;
            }
            match self.parse_statement() {
                Some(statement) => {
                    let ghost before = program@;
                    program.statements.push(statement);
                    assert(program@ =~= before.push(statement@));
                },
                None => {},
            }
            self.next_token();
        }
    }

    /// Parses one statement, chosen by the current token: a `let` statement,
    /// a `return` statement, or an expression. A statement that fails gives
    /// `None` and leaves its errors on record.
    pub fn parse_statement(&mut self) -> (statement: Option<Statement>)
        requires
            old(self).wf(),
        ensures
            final(self).wf(),
            (statement_option(statement), final(self)@) == spec_parse_statement(old(self)@),
            final(self)@.tokens.len() <= old(self)@.tokens.len(),
        decreases old(self)@.tokens.len(), 5int,
    {
        proof {
            reveal(spec_parse_statement);
            reveal(spec_parse_let_statement);
            reveal(spec_parse_return_statement);
            reveal(spec_parse_expression_statement);
        }
        match self.current_kind() {
            TokenKind::Let => match self.parse_let_statement() {
                Some(statement) => Some(Statement::Let(statement)),
                None => None,
            },
            TokenKind::Return => match self.parse_return_statement() {
                Some(statement) => Some(Statement::Return(statement)),
                None => None,
            },
            _ => match self.parse_expression_statement() {
                Some(expression) => Some(Statement::Expression(expression)),
                None => None,
            },
        }
    }

    fn parse_let_statement(&mut self) -> (statement: Option<LetStatement>)
        requires
            old(self).wf(),
        ensures
            final(self).wf(),
            (
                match statement {
                    Some(l) => Some(Statement::Let(l)@),
                    None => None,
                },
                final(self)@,
            ) == spec_parse_let_statement(old(self)@),
            final(self)@.tokens.len() <= old(self)@.tokens.len(),
        decreases old(self)@.tokens.len(), 4int,
    {
        proof {
            reveal(spec_parse_let_statement);
            reveal(spec_parse_expression);
        }
        if !self.expect_peek(&Token::plain(TokenKind::Ident)) {
            return None;
        }
        let token = self.current();
        let name = Identifier { value: token.to_string(), token };
        if !self.expect_peek(&Token::Assign) {
            return None;
        }
        self.next_token();
        let value = match Expression::parse(self, Precedence::Lowest) {
            Ok(value) => value,
            Err(message) => {
                self.push_error(message);
                return None;
            },
        };
        let value = named(value, &name.token);
        if self.peek_token_is(&Token::Semicolon) {
            self.next_token();
        }
        Some(LetStatement { name, value })
    }

    fn parse_return_statement(&mut self) -> (statement: Option<ReturnStatement>)
        requires
            old(self).wf(),
        ensures
            final(self).wf(),
            (
                match statement {
                    Some(r) => Some(Statement::Return(r)@),
                    None => None,
                },
                final(self)@,
            ) == spec_parse_return_statement(old(self)@),
            final(self)@.tokens.len() <= old(self)@.tokens.len(),
        decreases old(self)@.tokens.len(), 4int,
    {
        proof {
            reveal(spec_parse_return_statement);
            reveal(spec_parse_expression);
        }
        self.next_token();
        let return_value = match Expression::parse(self, Precedence::Lowest) {
            Ok(value) => value,
            Err(message) => {
                self.push_error(message);
                return None;
            },
        };
        if self.peek_token_is(&Token::Semicolon) {
            self.next_token();
        }
        Some(ReturnStatement { return_value })
    }

    fn parse_expression_statement(&mut self) -> (expression: Option<Expression>)
        requires
            old(self).wf(),
        ensures
            final(self).wf(),
            (
                match expression {
                    Some(e) => Some(Statement::Expression(e)@),
                    None => None,
                },
                final(self)@,
            ) == spec_parse_expression_statement(old(self)@),
            final(self)@.tokens.len() <= old(self)@.tokens.len(),
        decreases old(self)@.tokens.len(), 4int,
    {
        proof {
            reveal(spec_parse_expression_statement);
            reveal(spec_parse_expression);
        }
        let expression = Expression::parse(self, Precedence::Lowest);
        if self.peek_token_is(&Token::Semicolon) {
            self.next_token();
        }
        match expression {
            Ok(expression) => Some(expression),
            Err(message) => {
                self.push_error(message);
                None
            },
        }
    }

    /// The kind of the current token.
    pub fn current_kind(&self) -> (kind: TokenKind)
        requires
            self.wf(),
        ensures
            kind == self@.current().kind,
    {
        proof {
            self.lemma_held_tokens();
        }
        self.current_token.kind()
    }

    /// A copy of the current token.
    pub fn current(&self) -> (token: Token)
        requires
            self.wf(),
        ensures
            token@ == self@.current(),
    {
        proof {
            self.lemma_held_tokens();
        }
        self.current_token.clone()
    }

    /// Records an error, whatever its message.
    pub fn report(&mut self, message: String)
        requires
            old(self).wf(),
        ensures
            final(self).wf(),
            final(self)@ == old(self)@.report(message@),
    {
        self.errors.add_error(message);
    }

    fn push_error(&mut self, message: String)
        requires
            old(self).wf(),
        ensures
            final(self).wf(),
            final(self)@ == old(self)@.note(message@),
    {
        if !message.as_str().is_empty() {
            self.errors.add_error(message);
        }
    }
}

/// Parses a source text into a program. The errors are dropped: who wants
/// them makes a `Parser` and asks it.
pub fn parse(input: &str) -> (program: Program)
    ensures
        program@ == spec_parse_program(
            SpecParser { tokens: spec_tokens(input@, 0), errors: Seq::empty() },
        ).0,
{
    let lexer = Lexer::new(input);
    let mut parser = Parser::new(lexer);
    parser.parse_program()
}

} // verus!
