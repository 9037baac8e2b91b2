//! What the parser computes, stated on the mathematical model of its state:
//! the tokens that are still to come and the errors recorded so far.
//!
//! Each function here is the definition of one parsing routine. It takes the
//! state before the routine and gives what the routine returns together with
//! the state after it. By convention a routine starts with its first token
//! as the current one and ends with its last token as the current one.
//!
//! The routines call each other in a circle, so their definitions are
//! opaque: a proof reveals the definitions that it unfolds, those of the
//! routine it speaks of and of the routines that this one calls, and no
//! others.

use crate::lexer::token::{spec_plain, SpecToken, TokenKind};
use crate::parser::ast::{SpecExpression, SpecIdentifier, SpecPrimitive, SpecStatement};
use crate::text::spec_parse_integer;
use vstd::prelude::*;

verus! {

/// How strongly an operator binds, from the weakest to the strongest.
#[derive(Clone, Copy, Debug, PartialEq, Eq, Structural)]
pub enum Precedence {
    Lowest,
    /// `&&` and `||`.
    Logical,
    /// `==` and `!=`.
    Equals,
    /// `<`, `>`, `<=` and `>=`.
    LessGreater,
    /// `+` and `-`.
    Sum,
    /// `*` and `/`.
    Product,
    /// `!` and `-` before an operand.
    Prefix,
    /// A call `f(..)` and an index `a[..]`.
    Call,
}

impl Precedence {
    /// The place of this precedence in the order: the greater, the stronger.
    pub open spec fn spec_level(self) -> int {
        match self {
            Precedence::Lowest => 0,
            Precedence::Logical => 1,
            Precedence::Equals => 2,
            Precedence::LessGreater => 3,
            Precedence::Sum => 4,
            Precedence::Product => 5,
            Precedence::Prefix => 6,
            Precedence::Call => 7,
        }
    }

    /// The place of this precedence in the order: the greater, the stronger.
    pub fn level(self) -> (l: u8)
        ensures
            l == self.spec_level(),
    {
        match self {
            Precedence::Lowest => 0,
            Precedence::Logical => 1,
            Precedence::Equals => 2,
            Precedence::LessGreater => 3,
            Precedence::Sum => 4,
            Precedence::Product => 5,
            Precedence::Prefix => 6,
            Precedence::Call => 7,
        }
    }

    /// The precedence with which a token of `kind` binds what stands on its
    /// left: that of the operator it is, and the lowest for any other token.
    pub fn of(kind: TokenKind) -> (p: Precedence)
        ensures
            p == spec_precedence(kind),
    {
        match kind {
            TokenKind::And => Precedence::Logical,
            TokenKind::Or => Precedence::Logical,
            TokenKind::Equal => Precedence::Equals,
            TokenKind::NotEqual => Precedence::Equals,
            TokenKind::LT => Precedence::LessGreater,
            TokenKind::GT => Precedence::LessGreater,
            TokenKind::LTE => Precedence::LessGreater,
            TokenKind::GTE => Precedence::LessGreater,
            TokenKind::Plus => Precedence::Sum,
            TokenKind::Minus => Precedence::Sum,
            TokenKind::Asterisk => Precedence::Product,
            TokenKind::Slash => Precedence::Product,
            TokenKind::LParen => Precedence::Call,
            TokenKind::LBracket => Precedence::Call,
            _ => Precedence::Lowest,
        }
    }
}

/// The precedence with which a token of `kind` binds what stands on its left.
pub open spec fn spec_precedence(kind: TokenKind) -> Precedence {
    match kind {
        TokenKind::And => Precedence::Logical,
        TokenKind::Or => Precedence::Logical,
        TokenKind::Equal => Precedence::Equals,
        TokenKind::NotEqual => Precedence::Equals,
        TokenKind::LT => Precedence::LessGreater,
        TokenKind::GT => Precedence::LessGreater,
        TokenKind::LTE => Precedence::LessGreater,
        TokenKind::GTE => Precedence::LessGreater,
        TokenKind::Plus => Precedence::Sum,
        TokenKind::Minus => Precedence::Sum,
        TokenKind::Asterisk => Precedence::Product,
        TokenKind::Slash => Precedence::Product,
        TokenKind::LParen => Precedence::Call,
        TokenKind::LBracket => Precedence::Call,
        _ => Precedence::Lowest,
    }
}

/// Whether a token of `kind` is an operator between two operands.
pub open spec fn spec_is_binary_operator(kind: TokenKind) -> bool {
    kind == TokenKind::And || kind == TokenKind::Or || kind == TokenKind::Equal || kind
        == TokenKind::NotEqual || kind == TokenKind::LT || kind == TokenKind::GT || kind
        == TokenKind::LTE || kind == TokenKind::GTE || kind == TokenKind::Plus || kind
        == TokenKind::Minus || kind == TokenKind::Asterisk || kind == TokenKind::Slash
}

/// Whether the token `actual` is the one that was `expected`. An identifier
/// passes for any identifier and an integer literal for any integer literal;
/// every other token only for itself.
pub open spec fn spec_token_is(actual: SpecToken, expected: SpecToken) -> bool {
    if actual.kind == TokenKind::Ident || actual.kind == TokenKind::Int {
        expected.kind == actual.kind
    } else {
        actual == expected
    }
}

/// The error for a token that is not the expected one.
pub open spec fn spec_expected_message(expected: Seq<char>, actual: Seq<char>) -> Seq<char> {
    "expected next token to be "@ + expected + ", got "@ + actual + " instead"@
}

/// The error for a token that no expression can start with.
pub open spec fn spec_no_prefix_message(token: Seq<char>) -> Seq<char> {
    "no prefix parse function for "@ + token + " found"@
}

/// The error for an integer literal that does not fit 64 bits.
pub open spec fn spec_integer_message(digits: Seq<char>) -> Seq<char> {
    "could not parse "@ + digits + " as integer"@
}

/// The model of a parser: the tokens from the current one on, up to the end
/// of the input, and the errors recorded so far. The token after the last is
/// `Eof`, however often it is asked for.
pub struct SpecParser {
    pub tokens: Seq<SpecToken>,
    pub errors: Seq<Seq<char>>,
}

impl SpecParser {
    /// The current token.
    pub open spec fn current(self) -> SpecToken {
        if self.tokens.len() > 0 {
            self.tokens[0]
        } else {
            spec_plain(TokenKind::Eof)
        }
    }

    /// The token after the current one.
    pub open spec fn peek(self) -> SpecToken {
        if self.tokens.len() > 1 {
            self.tokens[1]
        } else {
            spec_plain(TokenKind::Eof)
        }
    }

    /// The parser one token further.
    pub open spec fn next(self) -> SpecParser {
        if self.tokens.len() > 0 {
            SpecParser { tokens: self.tokens.skip(1), errors: self.errors }
        } else {
            self
        }
    }

    /// The parser with one more error on record.
    pub open spec fn report(self, message: Seq<char>) -> SpecParser {
        SpecParser { tokens: self.tokens, errors: self.errors.push(message) }
    }

    /// The parser with `message` on record, unless the message is empty: an
    /// empty message stands for an error that is on record already.
    pub open spec fn note(self, message: Seq<char>) -> SpecParser {
        if message.len() > 0 {
            self.report(message)
        } else {
            self
        }
    }

    /// Whether the token after the current one is the plain token of `kind`.
    pub open spec fn peek_is(self, kind: TokenKind) -> bool {
        spec_token_is(self.peek(), spec_plain(kind))
    }

    /// Steps to the next token if that is the `expected` one, and records an
    /// error and stays otherwise.
    pub open spec fn expect_peek(self, expected: SpecToken) -> (bool, SpecParser) {
        if spec_token_is(self.peek(), expected) {
            (true, self.next())
        } else {
            (false, self.report(spec_expected_message(expected.text, self.peek().text)))
        }
    }

    /// `expect_peek` for the plain token of `kind`.
    pub open spec fn expect(self, kind: TokenKind) -> (bool, SpecParser) {
        self.expect_peek(spec_plain(kind))
    }

    /// Steps over a semicolon if one follows.
    pub open spec fn skip_semicolon(self) -> SpecParser {
        if self.peek_is(TokenKind::Semicolon) {
            self.next()
        } else {
            self
        }
    }
}

/// An expression or the message of an error, and the parser after it.
pub type ParsedExpression = (Result<SpecExpression, Seq<char>>, SpecParser);

/// A list of expressions or the message of an error, and the parser after it.
pub type ParsedList = (Result<Seq<SpecExpression>, Seq<char>>, SpecParser);

/// A block or the message of an error, and the parser after it.
pub type ParsedBlock = (Result<Seq<SpecStatement>, Seq<char>>, SpecParser);

/// An expression of at least the given precedence: an operand, and then for
/// as long as an operator follows that binds more strongly than
/// `precedence`, that operator applied to what was read so far.
#[verifier::opaque]
pub open spec fn spec_parse_expression(p: SpecParser, precedence: Precedence) -> ParsedExpression
    decreases p.tokens.len(), 3int,
{
    let (left, pa) = spec_parse_prefix(p);
    match left {
        Ok(left) => if pa.tokens.len() <= p.tokens.len() {
            spec_parse_infix_loop(pa, left, precedence)
        } else {
            (Ok(left), pa)
        },
        Err(message) => (Err(message), pa),
    }
}

/// The operators that follow the operand `left`, as far as they bind more
/// strongly than `precedence`.
#[verifier::opaque]
pub open spec fn spec_parse_infix_loop(
    p: SpecParser,
    left: SpecExpression,
    precedence: Precedence,
) -> ParsedExpression
    decreases p.tokens.len(), 1int,
{
    if !p.peek_is(TokenKind::Semicolon) && precedence.spec_level() < spec_precedence(
        p.peek().kind,
    ).spec_level() {
        let (folded, pa) = spec_parse_infix(p.next(), left);
        match folded {
            Ok(folded) => if pa.tokens.len() < p.tokens.len() {
                spec_parse_infix_loop(pa, folded, precedence)
            } else {
                (Ok(folded), pa)
            },
            Err(message) => (Err(message), pa),
        }
    } else {
        (Ok(left), p)
    }
}

/// The operand `left` with the operator at the current token applied to it:
/// a binary operator with its right operand, which binds more strongly than
/// the operator itself, so that operators of one precedence group to the
/// left; a call with its arguments; or an index.
#[verifier::opaque]
pub open spec fn spec_parse_infix(p: SpecParser, left: SpecExpression) -> ParsedExpression
    decreases p.tokens.len(), 2int,
{
    let token = p.current();
    if spec_is_binary_operator(token.kind) {
        let (right, pa) = spec_parse_expression(p.next(), spec_precedence(token.kind));
        match right {
            Ok(right) => (
                Ok(SpecExpression::Infix { token, left: Box::new(left), right: Box::new(right) }),
                pa,
            ),
            Err(message) => (Err(message), pa),
        }
    } else if token.kind == TokenKind::LParen {
        let (arguments, pa) = spec_parse_expression_list(p, TokenKind::RParen);
        match arguments {
            Ok(arguments) => (
                Ok(SpecExpression::FunctionCall { function: Box::new(left), arguments }),
                pa,
            ),
            Err(message) => (Err(message), pa),
        }
    } else if token.kind == TokenKind::LBracket {
        let (index, pa) = spec_parse_expression(p.next(), Precedence::Lowest);
        match index {
            Ok(index) => {
                let (ok, pb) = pa.expect(TokenKind::RBracket);
                if ok {
                    (Ok(SpecExpression::Index { left: Box::new(left), index: Box::new(index) }), pb)
                } else {
                    (Err(Seq::empty()), pb)
                }
            },
            Err(message) => (Err(message), pa),
        }
    } else {
        (Ok(left), p)
    }
}

/// An operand: what an expression starts with, chosen by the current token.
#[verifier::opaque]
pub open spec fn spec_parse_prefix(p: SpecParser) -> ParsedExpression
    decreases p.tokens.len(), 2int,
{
    let token = p.current();
    match token.kind {
        TokenKind::Ident => (
            Ok(SpecExpression::Identifier(SpecIdentifier { token, value: token.text })),
            p,
        ),
        TokenKind::Int => match spec_parse_integer(token.text) {
            Some(n) => (Ok(SpecExpression::Primitive(SpecPrimitive::Integer(n))), p),
            None => (Err(spec_integer_message(token.text)), p),
        },
        TokenKind::True => (Ok(SpecExpression::Primitive(SpecPrimitive::Boolean(true))), p),
        TokenKind::False => (Ok(SpecExpression::Primitive(SpecPrimitive::Boolean(false))), p),
        TokenKind::String => (Ok(SpecExpression::Primitive(SpecPrimitive::Text(token.text))), p),
        TokenKind::Bang | TokenKind::Minus => {
            let (right, pa) = spec_parse_expression(p.next(), Precedence::Prefix);
            match right {
                Ok(right) => (Ok(SpecExpression::Prefix { token, right: Box::new(right) }), pa),
                Err(message) => (Err(message), pa),
            }
        },
        TokenKind::LParen => {
            let (inner, pa) = spec_parse_expression(p.next(), Precedence::Lowest);
            match inner {
                Ok(inner) => {
                    let (ok, pb) = pa.expect(TokenKind::RParen);
                    if ok {
                        (Ok(inner), pb)
                    } else {
                        (Err(Seq::empty()), pb)
                    }
                },
                Err(message) => (Err(message), pa),
            }
        },
        TokenKind::If => spec_parse_conditional(p),
        TokenKind::Function => spec_parse_function_literal(p),
        TokenKind::LBracket => {
            let (elements, pa) = spec_parse_expression_list(p, TokenKind::RBracket);
            match elements {
                Ok(elements) => (Ok(SpecExpression::ArrayLiteral { elements }), pa),
                Err(message) => (Err(message), pa),
            }
        },
        TokenKind::LSquirly => {
            let (pairs, pa) = spec_parse_hash_pairs(p, Seq::empty());
            match pairs {
                Ok(pairs) => (Ok(SpecExpression::HashMapLiteral { pairs }), pa),
                Err(message) => (Err(message), pa),
            }
        },
        _ => (Err(spec_no_prefix_message(token.text)), p),
    }
}

/// The expressions between the current bracket and the closing token of kind
/// `end`, with commas between them.
#[verifier::opaque]
pub open spec fn spec_parse_expression_list(p: SpecParser, end: TokenKind) -> ParsedList
    decreases p.tokens.len(), 1int,
{
    if p.peek_is(end) {
        (Ok(Seq::empty()), p.next())
    } else if p.tokens.len() == 0 {
        (Err(Seq::empty()), p)
    } else {
        let (first, pa) = spec_parse_expression(p.next(), Precedence::Lowest);
        match first {
            Ok(first) => if pa.tokens.len() < p.tokens.len() {
                spec_parse_list_tail(pa, seq![first], end)
            } else {
                (Err(Seq::empty()), pa)
            },
            Err(message) => (Err(message), pa),
        }
    }
}

/// The rest of a list of expressions after the elements `read`: for as long
/// as a comma follows, one more element; then the closing token.
#[verifier::opaque]
pub open spec fn spec_parse_list_tail(
    p: SpecParser,
    read: Seq<SpecExpression>,
    end: TokenKind,
) -> ParsedList
    decreases p.tokens.len(), 0int,
{
    if p.peek_is(TokenKind::Comma) {
        let (element, pa) = spec_parse_expression(p.next().next(), Precedence::Lowest);
        match element {
            Ok(element) => if pa.tokens.len() < p.tokens.len() {
                spec_parse_list_tail(pa, read.push(element), end)
            } else {
                (Err(Seq::empty()), pa)
            },
            Err(message) => (Err(message), pa),
        }
    } else {
        let (ok, pa) = p.expect(end);
        if ok {
            (Ok(read), pa)
        } else {
            (Err(Seq::empty()), pa)
        }
    }
}

/// The pairs of a hash map literal after the pairs `read`: for as long as no
/// closing brace follows, a key, a colon and a value, and a comma unless the
/// closing brace follows. The current token is the opening brace or the
/// comma before the next pair.
#[verifier::opaque]
pub open spec fn spec_parse_hash_pairs(
    p: SpecParser,
    read: Seq<(SpecExpression, SpecExpression)>,
) -> (Result<Seq<(SpecExpression, SpecExpression)>, Seq<char>>, SpecParser)
    decreases p.tokens.len(), 1int,
{
    if p.peek_is(TokenKind::RSquirly) {
        (Ok(read), p.next())
    } else if p.tokens.len() == 0 {
        (Err(Seq::empty()), p)
    } else {
        let (key, pa) = spec_parse_expression(p.next(), Precedence::Lowest);
        match key {
            Ok(key) => {
                let (colon, pb) = pa.expect(TokenKind::Colon);
                if !colon || pb.tokens.len() >= p.tokens.len() {
                    (Err(Seq::empty()), pb)
                } else {
                    let (value, pc) = spec_parse_expression(pb.next(), Precedence::Lowest);
                    match value {
                        Ok(value) => {
                            let (comma, pd) = if pc.peek_is(TokenKind::RSquirly) {
                                (true, pc)
                            } else {
                                pc.expect(TokenKind::Comma)
                            };
                            if !comma || pd.tokens.len() >= p.tokens.len() {
                                (Err(Seq::empty()), pd)
                            } else {
                                spec_parse_hash_pairs(pd, read.push((key, value)))
                            }
                        },
                        Err(message) => (Err(message), pc),
                    }
                }
            },
            Err(message) => (Err(message), pa),
        }
    }
}

/// A conditional: `if`, the condition between parentheses, the consequence
/// between braces and, where `else` follows, the alternative between braces.
#[verifier::opaque]
pub open spec fn spec_parse_conditional(p: SpecParser) -> ParsedExpression
    decreases p.tokens.len(), 1int,
{
    let (open, pa) = p.expect(TokenKind::LParen);
    if !open {
        (Err(Seq::empty()), pa)
    } else {
        let (condition, pb) = spec_parse_expression(pa.next(), Precedence::Lowest);
        match condition {
            Ok(condition) => {
                let (close, pc) = pb.expect(TokenKind::RParen);
                if !close {
                    (Err(Seq::empty()), pc)
                } else {
                    let (brace, pd) = pc.expect(TokenKind::LSquirly);
                    if !brace || pd.tokens.len() >= p.tokens.len() {
                        (Err(Seq::empty()), pd)
                    } else {
                        let (consequence, pe) = spec_parse_block(pd);
                        match consequence {
                            Ok(consequence) => if !pe.peek_is(TokenKind::Else) {
                                (
                                    Ok(
                                        SpecExpression::Conditional {
                                            condition: Box::new(condition),
                                            consequence,
                                            alternative: None,
                                        },
                                    ),
                                    pe,
                                )
                            } else {
                                let (brace, pf) = pe.next().expect(TokenKind::LSquirly);
                                if !brace || pf.tokens.len() >= p.tokens.len() {
                                    (Err(Seq::empty()), pf)
                                } else {
                                    let (alternative, pg) = spec_parse_block(pf);
                                    match alternative {
                                        Ok(alternative) => (
                                            Ok(
                                                SpecExpression::Conditional {
                                                    condition: Box::new(condition),
                                                    consequence,
                                                    alternative: Some(alternative),
                                                },
                                            ),
                                            pg,
                                        ),
                                        Err(message) => (Err(message), pg),
                                    }
                                }
                            },
                            Err(message) => (Err(message), pe),
                        }
                    }
                }
            },
            Err(message) => (Err(message), pb),
        }
    }
}

/// The parameters of a function literal between the current opening
/// parenthesis and the closing one: identifiers with commas between them.
pub open spec fn spec_parse_parameters(p: SpecParser) -> (
    Result<Seq<SpecIdentifier>, Seq<char>>,
    SpecParser,
) {
    if p.peek_is(TokenKind::RParen) {
        (Ok(Seq::empty()), p.next())
    } else {
        let (first, pa) = p.expect(TokenKind::Ident);
        if !first {
            (Err(Seq::empty()), pa)
        } else {
            spec_parse_parameters_tail(
                pa,
                seq![SpecIdentifier { token: pa.current(), value: pa.current().text }],
            )
        }
    }
}

/// The rest of the parameters after the parameters `read`.
pub open spec fn spec_parse_parameters_tail(p: SpecParser, read: Seq<SpecIdentifier>) -> (
    Result<Seq<SpecIdentifier>, Seq<char>>,
    SpecParser,
)
    decreases p.tokens.len(),
{
    if p.peek_is(TokenKind::Comma) {
        let (more, pa) = p.next().expect(TokenKind::Ident);
        if !more {
            (Err(Seq::empty()), pa)
        } else {
            spec_parse_parameters_tail(
                pa,
                read.push(SpecIdentifier { token: pa.current(), value: pa.current().text }),
            )
        }
    } else {
        let (close, pa) = p.expect(TokenKind::RParen);
        if close {
            (Ok(read), pa)
        } else {
            (Err(Seq::empty()), pa)
        }
    }
}

/// A function literal: `fn`, the parameters between parentheses, the body
/// between braces. It has no name yet.
#[verifier::opaque]
pub open spec fn spec_parse_function_literal(p: SpecParser) -> ParsedExpression
    decreases p.tokens.len(), 1int,
{
    let (open, pa) = p.expect(TokenKind::LParen);
    if !open {
        (Err(Seq::empty()), pa)
    } else {
        let (parameters, pb) = spec_parse_parameters(pa);
        match parameters {
            Ok(parameters) => {
                let (brace, pc) = pb.expect(TokenKind::LSquirly);
                if !brace || pc.tokens.len() >= p.tokens.len() {
                    (Err(Seq::empty()), pc)
                } else {
                    let (body, pd) = spec_parse_block(pc);
                    match body {
                        Ok(body) => (
                            Ok(SpecExpression::FunctionLiteral { parameters, body, name: None }),
                            pd,
                        ),
                        Err(message) => (Err(message), pd),
                    }
                }
            },
            Err(message) => (Err(message), pb),
        }
    }
}

/// A block: the statements between the current opening brace and the closing
/// one. A block that the end of the input cuts short is an error.
#[verifier::opaque]
pub open spec fn spec_parse_block(p: SpecParser) -> ParsedBlock
    decreases p.tokens.len(), 7int,
{
    spec_parse_block_statements(p.next(), Seq::empty())
}

/// The rest of a block after the statements `read`. A statement that fails
/// leaves its errors on record and is left out; the block goes on behind it.
#[verifier::opaque]
pub open spec fn spec_parse_block_statements(p: SpecParser, read: Seq<SpecStatement>) -> ParsedBlock
    decreases p.tokens.len(), 6int,
{
    if p.current().kind == TokenKind::RSquirly {
        (Ok(read), p)
    } else if p.current().kind == TokenKind::Eof {
        (
            Err(Seq::empty()),
            p.report(
                spec_expected_message(
                    spec_plain(TokenKind::RSquirly).text,
                    spec_plain(TokenKind::Eof).text,
                ),
            ),
        )
    } else {
        let (statement, pa) = spec_parse_statement(p);
        let read = match statement {
            Some(statement) => read.push(statement),
            None => read,
        };
        if pa.next().tokens.len() < p.tokens.len() {
            spec_parse_block_statements(pa.next(), read)
        } else {
            (Err(Seq::empty()), pa)
        }
    }
}

/// One statement, chosen by the current token: a `let` statement, a `return`
/// statement, or an expression. A statement that fails gives nothing and
/// leaves its errors on record.
#[verifier::opaque]
pub open spec fn spec_parse_statement(p: SpecParser) -> (Option<SpecStatement>, SpecParser)
    decreases p.tokens.len(), 5int,
{
    match p.current().kind {
        TokenKind::Let => spec_parse_let_statement(p),
        TokenKind::Return => spec_parse_return_statement(p),
        _ => spec_parse_expression_statement(p),
    }
}

/// The expression `value` as the value that a `let` statement binds to
/// `name`: a function literal takes the name.
pub open spec fn spec_named(value: SpecExpression, name: Seq<char>) -> SpecExpression {
    match value {
        SpecExpression::FunctionLiteral { parameters, body, name: _ } => {
            SpecExpression::FunctionLiteral { parameters, body, name: Some(name) }
        },
        _ => value,
    }
}

/// `let`, an identifier, `=`, an expression, and a semicolon if one follows.
#[verifier::opaque]
pub open spec fn spec_parse_let_statement(p: SpecParser) -> (Option<SpecStatement>, SpecParser)
    decreases p.tokens.len(), 4int,
{
    let (named, pa) = p.expect(TokenKind::Ident);
    if !named {
        (None, pa)
    } else {
        let name = SpecIdentifier { token: pa.current(), value: pa.current().text };
        let (assigned, pb) = pa.expect(TokenKind::Assign);
        if !assigned {
            (None, pb)
        } else {
            let (value, pc) = spec_parse_expression(pb.next(), Precedence::Lowest);
            match value {
                Ok(value) => (
                    Some(SpecStatement::Let { name, value: spec_named(value, name.token.text) }),
                    pc.skip_semicolon(),
                ),
                Err(message) => (None, pc.note(message)),
            }
        }
    }
}

/// `return`, an expression, and a semicolon if one follows.
#[verifier::opaque]
pub open spec fn spec_parse_return_statement(p: SpecParser) -> (Option<SpecStatement>, SpecParser)
    decreases p.tokens.len(), 4int,
{
    let (value, pa) = spec_parse_expression(p.next(), Precedence::Lowest);
    match value {
        Ok(value) => (Some(SpecStatement::Return { value }), pa.skip_semicolon()),
        Err(message) => (None, pa.note(message)),
    }
}

/// An expression, and a semicolon if one follows.
#[verifier::opaque]
pub open spec fn spec_parse_expression_statement(p: SpecParser) -> (
    Option<SpecStatement>,
    SpecParser,
)
    decreases p.tokens.len(), 4int,
{
    let (value, pa) = spec_parse_expression(p, Precedence::Lowest);
    let pb = pa.skip_semicolon();
    match value {
        Ok(value) => (Some(SpecStatement::Expression { value }), pb),
        Err(message) => (None, pb.note(message)),
    }
}

/// The rest of a program after the statements `read`: statements up to the
/// end of the input. A statement that fails leaves its errors on record and
/// is left out; the program goes on with the token behind the place where
/// the statement stopped.
pub open spec fn spec_parse_program_statements(p: SpecParser, read: Seq<SpecStatement>) -> (
    Seq<SpecStatement>,
    SpecParser,
)
    decreases p.tokens.len(),
{
    if p.current().kind == TokenKind::Eof {
        (read, p)
    } else {
        let (statement, pa) = spec_parse_statement(p);
        let read = match statement {
            Some(statement) => read.push(statement),
            None => read,
        };
        if pa.next().tokens.len() < p.tokens.len() {
            spec_parse_program_statements(pa.next(), read)
        } else {
            (read, pa)
        }
    }
}

/// The program that the parser reads, and the parser at the end of the
/// input with all errors on record.
pub open spec fn spec_parse_program(p: SpecParser) -> (Seq<SpecStatement>, SpecParser) {
    spec_parse_program_statements(p, Seq::empty())
}

} // verus!
