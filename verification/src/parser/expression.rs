//! Parsing of expressions: operands, and operators by their precedence.

use crate::lexer::token::{Token, TokenKind};
use crate::parser::ast::{
    expressions_model, identifiers_model, pairs_model, statements_model, ArrayLiteral,
    BlockStatement, Conditional, Expression, FunctionCall, FunctionLiteral, HashMapLiteral,
    Identifier, IndexExpression, InfixOperator, PrefixOperator, Primitive, SpecExpression,
    SpecIdentifier, SpecStatement, Statement,
};
use crate::parser::grammar::{
    spec_integer_message, spec_is_binary_operator, spec_no_prefix_message, spec_parse_block,
    spec_parse_block_statements, spec_parse_conditional, spec_parse_expression,
    spec_parse_expression_list, spec_parse_function_literal, spec_parse_hash_pairs,
    spec_parse_infix, spec_parse_infix_loop, spec_parse_list_tail, spec_parse_parameters,
    spec_parse_parameters_tail, spec_parse_prefix, Precedence,
};
use crate::parser::{expected_message, Parser};
use crate::text::parse_integer;
use vstd::prelude::*;
use vstd::string::*;

verus! {

/// The model of what parsing an expression returns.
pub open spec fn expression_result(r: Result<Expression, String>) -> Result<
    SpecExpression,
    Seq<char>,
> {
    match r {
        Ok(e) => Ok(e@),
        Err(message) => Err(message@),
    }
}

/// The model of what parsing a list of expressions returns.
pub open spec fn list_result(r: Result<Vec<Expression>, String>) -> Result<
    Seq<SpecExpression>,
    Seq<char>,
> {
    match r {
        Ok(list) => Ok(expressions_model(list@)),
        Err(message) => Err(message@),
    }
}

/// The model of what parsing the pairs of a hash map literal returns.
pub open spec fn pairs_result(r: Result<Vec<(Expression, Expression)>, String>) -> Result<
    Seq<(SpecExpression, SpecExpression)>,
    Seq<char>,
> {
    match r {
        Ok(pairs) => Ok(pairs_model(pairs@)),
        Err(message) => Err(message@),
    }
}

/// The model of what parsing parameters returns.
pub open spec fn parameters_result(r: Result<Vec<Identifier>, String>) -> Result<
    Seq<SpecIdentifier>,
    Seq<char>,
> {
    match r {
        Ok(parameters) => Ok(identifiers_model(parameters@)),
        Err(message) => Err(message@),
    }
}

/// The model of what parsing a block returns.
pub open spec fn block_result(r: Result<BlockStatement, String>) -> Result<
    Seq<SpecStatement>,
    Seq<char>,
> {
    match r {
        Ok(block) => Ok(block@),
        Err(message) => Err(message@),
    }
}

fn is_binary_operator(kind: TokenKind) -> (b: bool)
    ensures
        b == spec_is_binary_operator(kind),
{
    kind == TokenKind::And || kind == TokenKind::Or || kind == TokenKind::Equal || kind
        == TokenKind::NotEqual || kind == TokenKind::LT || kind == TokenKind::GT || kind
        == TokenKind::LTE || kind == TokenKind::GTE || kind == TokenKind::Plus || kind
        == TokenKind::Minus || kind == TokenKind::Asterisk || kind == TokenKind::Slash
}

fn peek_is(parser: &Parser, kind: TokenKind) -> (b: bool)
    requires
        parser.wf(),
    ensures
        b == parser@.peek_is(kind),
{
    parser.peek_token_is(&Token::plain(kind))
}

fn expect(parser: &mut Parser, kind: TokenKind) -> (b: bool)
    requires
        old(parser).wf(),
    ensures
        final(parser).wf(),
        (b, final(parser)@) == old(parser)@.expect(kind),
{
    parser.expect_peek(&Token::plain(kind))
}

fn no_prefix_message(token: &Token) -> (message: String)
    ensures
        message@ == spec_no_prefix_message(token@.text),
{
    let mut message = String::from_str("no prefix parse function for ");
    let text = token.to_string();
    message.append(text.as_str());
    message.append(" found");
    assert(message@ =~= spec_no_prefix_message(token@.text));
    message
}

fn integer_message(digits: &String) -> (message: String)
    ensures
        message@ == spec_integer_message(digits@),
{
    let mut message = String::from_str("could not parse ");
    message.append(digits.as_str());
    message.append(" as integer");
    assert(message@ =~= spec_integer_message(digits@));
    message
}

/// The identifier at the current token.
fn identifier_here(parser: &Parser) -> (identifier: Identifier)
    requires
        parser.wf(),
    ensures
        identifier@ == (SpecIdentifier {
            token: parser@.current(),
            value: parser@.current().text,
        }),
{
    let token = parser.current();
    let value = token.to_string();
    Identifier { token, value }
}

impl Expression {
    /// Parses an expression that starts at the current token, as far as its
    /// operators bind more strongly than `precedence`. On success the
    /// current token is the last token of the expression. On failure the
    /// error is the result, or is on record already and the result is the
    /// empty message.
    #[verifier::loop_isolation(false)]
    pub fn parse(parser: &mut Parser, precedence: Precedence) -> (r: Result<Expression, String>)
        requires
            old(parser).wf(),
        ensures
            final(parser).wf(),
            (expression_result(r), final(parser)@) == spec_parse_expression(
                old(parser)@,
                precedence,
            ),
            final(parser)@.tokens.len() <= old(parser)@.tokens.len(),
        decreases old(parser)@.tokens.len(), 3int,
    {
        proof {
            reveal(spec_parse_expression);
            reveal(spec_parse_prefix);
            reveal(spec_parse_infix_loop);
            reveal(spec_parse_infix);
        }
        let ghost start = parser@;
        let mut left = match parse_prefix(parser) {
            Ok(e) => e,
            Err(message) => {
                return Err(message);
            },
        };
        loop
            invariant
                parser.wf(),
                parser@.tokens.len() <= start.tokens.len(),
                spec_parse_expression(start, precedence) == spec_parse_infix_loop(
                    parser@,
                    left@,
                    precedence,
                ),
            decreases parser@.tokens.len(),
        {
            if parser.peek_token_is(&Token::Semicolon) {
                return Ok(left);
            }
            let next: Precedence = parser.peek_precedence();
            if precedence.level() >= next.level() {
                return Ok(left);
            }
            parser.next_token();
            left = match parse_infix(parser, left) {
                Ok(e) => e,
                Err(message) => {
                    return Err(message);
                },
            };
        }
    }
}

fn parse_prefix(parser: &mut Parser) -> (r: Result<Expression, String>)
    requires
        old(parser).wf(),
    ensures
        final(parser).wf(),
        (expression_result(r), final(parser)@) == spec_parse_prefix(old(parser)@),
        final(parser)@.tokens.len() <= old(parser)@.tokens.len(),
    decreases old(parser)@.tokens.len(), 2int,
{
    proof {
        reveal(spec_parse_prefix);
        reveal(spec_parse_expression);
        reveal(spec_parse_conditional);
        reveal(spec_parse_function_literal);
        reveal(spec_parse_expression_list);
        reveal(spec_parse_hash_pairs);
    }
    let token = parser.current();
    match token.kind() {
        TokenKind::Ident => {
            let value = token.to_string();
            Ok(Expression::Identifier(Identifier { token, value }))
        },
        TokenKind::Int => {
            let digits = token.to_string();
            match parse_integer(digits.as_str()) {
                Some(n) => Ok(Expression::Primitive(Primitive::IntegerLiteral(n))),
                None => Err(integer_message(&digits)),
            }
        },
        TokenKind::True => Ok(Expression::Primitive(Primitive::BooleanLiteral(true))),
        TokenKind::False => Ok(Expression::Primitive(Primitive::BooleanLiteral(false))),
        TokenKind::String => Ok(Expression::Primitive(Primitive::StringLiteral(token.to_string()))),
        TokenKind::Bang | TokenKind::Minus => {
            parser.next_token();
            match Expression::parse(parser, Precedence::Prefix) {
                Ok(right) => Ok(
                    Expression::Prefix(PrefixOperator { token, right: Box::new(right) }),
                ),
                Err(message) => Err(message),
            }
        },
        TokenKind::LParen => {
            parser.next_token();
            match Expression::parse(parser, Precedence::Lowest) {
                Ok(inner) => {
                    if expect(parser, TokenKind::RParen) {
                        Ok(inner)
                    } else {
                        Err(String::new())
                    }
                },
                Err(message) => Err(message),
            }
        },
        TokenKind::If => parse_conditional(parser),
        TokenKind::Function => parse_function_literal(parser),
        TokenKind::LBracket => {
            match parse_expression_list(parser, TokenKind::RBracket) {
                Ok(elements) => Ok(Expression::ArrayLiteral(ArrayLiteral { elements })),
                Err(message) => Err(message),
            }
        },
        TokenKind::LSquirly => {
            match parse_hash_pairs(parser) {
                Ok(pairs) => Ok(Expression::HashMapLiteral(HashMapLiteral { pairs })),
                Err(message) => Err(message),
            }
        },
        _ => Err(no_prefix_message(&token)),
    }
}

fn parse_infix(parser: &mut Parser, left: Expression) -> (r: Result<Expression, String>)
    requires
        old(parser).wf(),
    ensures
        final(parser).wf(),
        (expression_result(r), final(parser)@) == spec_parse_infix(old(parser)@, left@),
        final(parser)@.tokens.len() <= old(parser)@.tokens.len(),
    decreases old(parser)@.tokens.len(), 2int,
{
    proof {
        reveal(spec_parse_infix);
        reveal(spec_parse_expression);
        reveal(spec_parse_expression_list);
    }
    let token = parser.current();
    let kind: TokenKind = token.kind();
    if is_binary_operator(kind) {
        let precedence: Precedence = parser.current_precedence();
        parser.next_token();
        match Expression::parse(parser, precedence) {
            Ok(right) => Ok(
                Expression::Infix(
                    InfixOperator { token, left: Box::new(left), right: Box::new(right) },
                ),
            ),
            Err(message) => Err(message),
        }
    } else if kind == TokenKind::LParen {
        match parse_expression_list(parser, TokenKind::RParen) {
            Ok(arguments) => Ok(
                Expression::FunctionCall(FunctionCall { function: Box::new(left), arguments }),
            ),
            Err(message) => Err(message),
        }
    } else if kind == TokenKind::LBracket {
        parser.next_token();
        match Expression::parse(parser, Precedence::Lowest) {
            Ok(index) => {
                if expect(parser, TokenKind::RBracket) {
                    Ok(
                        Expression::IndexExpression(
                            IndexExpression { left: Box::new(left), index: Box::new(index) },
                        ),
                    )
                } else {
                    Err(String::new())
                }
            },
            Err(message) => Err(message),
        }
    } else {
        Ok(left)
    }
}

#[verifier::loop_isolation(false)]
fn parse_expression_list(parser: &mut Parser, end: TokenKind) -> (r: Result<
    Vec<Expression>,
    String,
>)
    requires
        old(parser).wf(),
        old(parser)@.tokens.len() > 0,
    ensures
        final(parser).wf(),
        (list_result(r), final(parser)@) == spec_parse_expression_list(old(parser)@, end),
        final(parser)@.tokens.len() <= old(parser)@.tokens.len(),
    decreases old(parser)@.tokens.len(), 1int,
{
    proof {
        reveal(spec_parse_expression_list);
        reveal(spec_parse_expression);
        reveal(spec_parse_list_tail);
    }
    let ghost start = parser@;
    let mut list: Vec<Expression> = Vec::new();
    if peek_is(parser, end) {
        parser.next_token();
        assert(expressions_model(list@) =~= Seq::empty());
        return Ok(list);
    }
    parser.next_token();
    match Expression::parse(parser, Precedence::Lowest) {
        Ok(first) => {
            list.push(first);
            assert(expressions_model(list@) =~= seq![first@]);
        },
        Err(message) => {
            return Err(message);
        },
    }
    loop
        invariant
            parser.wf(),
            parser@.tokens.len() < start.tokens.len(),
            spec_parse_expression_list(start, end) == spec_parse_list_tail(
                parser@,
                expressions_model(list@),
                end,
            ),
        decreases parser@.tokens.len(),
    {
        if !peek_is(parser, TokenKind::Comma) {
            if expect(parser, end) {
                return Ok(list);
            } else {
                return Err(String::new());
            }
        }
        parser.next_token();
        parser.next_token();
        match Expression::parse(parser, Precedence::Lowest) {
            Ok(element) => {
                let ghost before = expressions_model(list@);
                list.push(element);
                assert(expressions_model(list@) =~= before.push(element@));
            },
            Err(message) => {
                return Err(message);
            },
        }
    }
}

#[verifier::loop_isolation(false)]
fn parse_hash_pairs(parser: &mut Parser) -> (r: Result<Vec<(Expression, Expression)>, String>)
    requires
        old(parser).wf(),
        old(parser)@.tokens.len() > 0,
    ensures
        final(parser).wf(),
        (pairs_result(r), final(parser)@) == spec_parse_hash_pairs(old(parser)@, Seq::empty()),
        final(parser)@.tokens.len() <= old(parser)@.tokens.len(),
    decreases old(parser)@.tokens.len(), 1int,
{
    proof {
        reveal(spec_parse_hash_pairs);
        reveal(spec_parse_expression);
    }
    let ghost start = parser@;
    let mut pairs: Vec<(Expression, Expression)> = Vec::new();
    assert(pairs_model(pairs@) =~= Seq::empty());
    loop
        invariant
            parser.wf(),
            0 < parser@.tokens.len() <= start.tokens.len(),
            spec_parse_hash_pairs(start, Seq::empty()) == spec_parse_hash_pairs(
                parser@,
                pairs_model(pairs@),
            ),
        decreases parser@.tokens.len(),
    {
        if peek_is(parser, TokenKind::RSquirly) {
            parser.next_token();
            return Ok(pairs);
        }
        parser.next_token();
        let key = match Expression::parse(parser, Precedence::Lowest) {
            Ok(key) => key,
            Err(message) => {
                return Err(message);
            },
        };
        if !expect(parser, TokenKind::Colon) {
            return Err(String::new());
        }
        parser.next_token();
        let value = match Expression::parse(parser, Precedence::Lowest) {
            Ok(value) => value,
            Err(message) => {
                return Err(message);
            },
        };
        if !peek_is(parser, TokenKind::RSquirly) {
            if !expect(parser, TokenKind::Comma) {
                return Err(String::new());
            }
        }
        let ghost before = pairs_model(pairs@);
        pairs.push((key, value));
        assert(pairs_model(pairs@) =~= before.push((key@, value@)));
    }
}

fn parse_conditional(parser: &mut Parser) -> (r: Result<Expression, String>)
    requires
        old(parser).wf(),
    ensures
        final(parser).wf(),
        (expression_result(r), final(parser)@) == spec_parse_conditional(old(parser)@),
        final(parser)@.tokens.len() <= old(parser)@.tokens.len(),
    decreases old(parser)@.tokens.len(), 1int,
{
    proof {
        reveal(spec_parse_conditional);
        reveal(spec_parse_expression);
        reveal(spec_parse_block);
    }
    if !expect(parser, TokenKind::LParen) {
        return Err(String::new());
    }
    parser.next_token();
    let condition = match Expression::parse(parser, Precedence::Lowest) {
        Ok(condition) => condition,
        Err(message) => {
            return Err(message);
        },
    };
    if !expect(parser, TokenKind::RParen) {
        return Err(String::new());
    }
    if !expect(parser, TokenKind::LSquirly) {
        return Err(String::new());
    }
    let consequence = match parse_block(parser) {
        Ok(block) => block,
        Err(message) => {
            return Err(message);
        },
    };
    if !peek_is(parser, TokenKind::Else) {
        return Ok(
            Expression::Conditional(
                Conditional { condition: Box::new(condition), consequence, alternative: None },
            ),
        );
    }
    parser.next_token();
    if !expect(parser, TokenKind::LSquirly) {
        return Err(String::new());
    }
    match parse_block(parser) {
        Ok(block) => Ok(
            Expression::Conditional(
                Conditional {
                    condition: Box::new(condition),
                    consequence,
                    alternative: Some(block),
                },
            ),
        ),
        Err(message) => Err(message),
    }
}

#[verifier::loop_isolation(false)]
fn parse_parameters(parser: &mut Parser) -> (r: Result<Vec<Identifier>, String>)
    requires
        old(parser).wf(),
    ensures
        final(parser).wf(),
        (parameters_result(r), final(parser)@) == spec_parse_parameters(old(parser)@),
        final(parser)@.tokens.len() <= old(parser)@.tokens.len(),
{
    let ghost start = parser@;
    let mut parameters: Vec<Identifier> = Vec::new();
    if peek_is(parser, TokenKind::RParen) {
        parser.next_token();
        assert(identifiers_model(parameters@) =~= Seq::empty());
        return Ok(parameters);
    }
    if !expect(parser, TokenKind::Ident) {
        return Err(String::new());
    }
    let first = identifier_here(parser);
    parameters.push(first);
    assert(identifiers_model(parameters@) =~= seq![first@]);
    loop
        invariant
            parser.wf(),
            parser@.tokens.len() <= start.tokens.len(),
            spec_parse_parameters(start) == spec_parse_parameters_tail(
                parser@,
                identifiers_model(parameters@),
            ),
        decreases parser@.tokens.len(),
    {
        if !peek_is(parser, TokenKind::Comma) {
            if expect(parser, TokenKind::RParen) {
                return Ok(parameters);
            } else {
                return Err(String::new());
            }
        }
        parser.next_token();
        if !expect(parser, TokenKind::Ident) {
            return Err(String::new());
        }
        let more = identifier_here(parser);
        let ghost before = identifiers_model(parameters@);
        parameters.push(more);
        assert(identifiers_model(parameters@) =~= before.push(more@));
    }
}

fn parse_function_literal(parser: &mut Parser) -> (r: Result<Expression, String>)
    requires
        old(parser).wf(),
    ensures
        final(parser).wf(),
        (expression_result(r), final(parser)@) == spec_parse_function_literal(old(parser)@),
        final(parser)@.tokens.len() <= old(parser)@.tokens.len(),
    decreases old(parser)@.tokens.len(), 1int,
{
    proof {
        reveal(spec_parse_function_literal);
        reveal(spec_parse_block);
    }
    if !expect(parser, TokenKind::LParen) {
        return Err(String::new());
    }
    let parameters = match parse_parameters(parser) {
        Ok(parameters) => parameters,
        Err(message) => {
            return Err(message);
        },
    };
    if !expect(parser, TokenKind::LSquirly) {
        return Err(String::new());
    }
    match parse_block(parser) {
        Ok(body) => Ok(
            Expression::FunctionLiteral(FunctionLiteral { parameters, body, name: None }),
        ),
        Err(message) => Err(message),
    }
}

/// Parses the block that opens at the current token, an opening brace. On
/// success the current token is the closing brace.
#[verifier::loop_isolation(false)]
pub fn parse_block(parser: &mut Parser) -> (r: Result<BlockStatement, String>)
    requires
        old(parser).wf(),
    ensures
        final(parser).wf(),
        (block_result(r), final(parser)@) == spec_parse_block(old(parser)@),
        final(parser)@.tokens.len() <= old(parser)@.tokens.len(),
    decreases old(parser)@.tokens.len(), 7int,
{
    proof {
        reveal(spec_parse_block);
        reveal(spec_parse_block_statements);
    }
    let ghost start = parser@;
    parser.next_token();
    let mut statements: Vec<Statement> = Vec::new();
    assert(statements_model(statements@) =~= Seq::empty());
    loop
        invariant
            parser.wf(),
            parser@.tokens.len() <= start.tokens.len(),
            spec_parse_block(start) == spec_parse_block_statements(
                parser@,
                statements_model(statements@),
            ),
        decreases parser@.tokens.len(),
    {
        let kind: TokenKind = parser.current_kind();
        if kind == TokenKind::RSquirly {
            return Ok(BlockStatement { statements });
        }
        if kind == TokenKind::Eof {
            parser.report(expected_message(&Token::RSquirly, &Token::Eof));
            return Err(String::new());
        }
        match parser.parse_statement() {
            Some(statement) => {
                let ghost before = statements_model(statements@);
                statements.push(statement);
                assert(statements_model(statements@) =~= before.push(statement@));
            },
            None => {},
        }
        parser.next_token();
    }
}

} // verus!
