//! The rules of the grammar, one by one: what each parsing routine gives
//! where the tokens are as the rule wants them.

use crate::lexer::token::{spec_plain, SpecToken, TokenKind};
use crate::parser::ast::{SpecExpression, SpecIdentifier, SpecStatement};
use crate::parser::grammar::{
    spec_is_binary_operator, spec_named, spec_parse_block, spec_parse_block_statements,
    spec_parse_conditional, spec_parse_expression, spec_parse_expression_list,
    spec_parse_expression_statement, spec_parse_infix, spec_parse_infix_loop,
    spec_parse_let_statement, spec_parse_prefix, spec_parse_return_statement,
    spec_parse_statement, spec_precedence, Precedence, SpecParser,
};
use vstd::prelude::*;

verus! {

/// Whether a token of this kind ends an operand: no operator that would
/// take the operand starts with it.
pub open spec fn spec_ends_operand(token: SpecToken) -> bool {
    token == spec_plain(TokenKind::RParen) || token == spec_plain(TokenKind::RBracket) || token
        == spec_plain(TokenKind::RSquirly) || token == spec_plain(TokenKind::Comma) || token
        == spec_plain(TokenKind::Colon) || token == spec_plain(TokenKind::Semicolon) || token
        == spec_plain(TokenKind::Eof)
}

/// Behind a token that ends the operand no operator follows: the operand is
/// the whole expression.
pub proof fn lemma_loop_stops(p: SpecParser, left: SpecExpression, precedence: Precedence)
    requires
        spec_ends_operand(p.peek()) || spec_precedence(p.peek().kind).spec_level()
            <= precedence.spec_level(),
    ensures
        spec_parse_infix_loop(p, left, precedence) == (Ok::<SpecExpression, Seq<char>>(left), p),
{
    reveal(spec_parse_infix_loop);
}

/// Behind an operator that binds more strongly than `precedence` the
/// expression goes on: the operator is applied, and then what follows it.
pub proof fn lemma_loop_steps(p: SpecParser, left: SpecExpression, precedence: Precedence)
    requires
        p.peek().kind != TokenKind::Semicolon,
        p.peek().kind != TokenKind::Ident,
        p.peek().kind != TokenKind::Int,
        precedence.spec_level() < spec_precedence(p.peek().kind).spec_level(),
    ensures
        spec_parse_infix_loop(p, left, precedence) == match spec_parse_infix(p.next(), left) {
            (Ok(folded), pa) => if pa.tokens.len() < p.tokens.len() {
                spec_parse_infix_loop(pa, folded, precedence)
            } else {
                (Ok(folded), pa)
            },
            (Err(message), pa) => (Err(message), pa),
        },
{
    reveal(spec_parse_infix_loop);
    reveal(spec_parse_infix);
}

/// The definition of `spec_parse_expression`, at a parser where the operand
/// is known.
pub proof fn lemma_expression_from_operand(
    p: SpecParser,
    precedence: Precedence,
    operand: SpecExpression,
    pa: SpecParser,
)
    requires
        spec_parse_prefix(p) == (Ok::<SpecExpression, Seq<char>>(operand), pa),
        pa.tokens.len() <= p.tokens.len(),
    ensures
        spec_parse_expression(p, precedence) == spec_parse_infix_loop(pa, operand, precedence),
{
    reveal(spec_parse_expression);
    reveal(spec_parse_prefix);
    reveal(spec_parse_infix_loop);
}

/// A prefix operator takes the operand that follows it.
pub proof fn lemma_prefix_operator(p: SpecParser, right: SpecExpression, pa: SpecParser)
    requires
        p.current().kind == TokenKind::Bang || p.current().kind == TokenKind::Minus,
        spec_parse_expression(p.next(), Precedence::Prefix) == (
            Ok::<SpecExpression, Seq<char>>(right),
            pa,
        ),
    ensures
        spec_parse_prefix(p) == (
            Ok::<SpecExpression, Seq<char>>(
                SpecExpression::Prefix { token: p.current(), right: Box::new(right) },
            ),
            pa,
        ),
{
    reveal(spec_parse_prefix);
    reveal(spec_parse_expression);
}

/// Parentheses group the expression between them and leave no trace in the
/// tree.
pub proof fn lemma_prefix_grouped(p: SpecParser, inner: SpecExpression, pa: SpecParser)
    requires
        p.current().kind == TokenKind::LParen,
        spec_parse_expression(p.next(), Precedence::Lowest) == (
            Ok::<SpecExpression, Seq<char>>(inner),
            pa,
        ),
        pa.peek() == spec_plain(TokenKind::RParen),
    ensures
        spec_parse_prefix(p) == (Ok::<SpecExpression, Seq<char>>(inner), pa.next()),
{
    reveal(spec_parse_prefix);
    reveal(spec_parse_expression);
}

/// A binary operator takes the operand on its left and, as its right
/// operand, what binds more strongly than itself.
pub proof fn lemma_infix_binary(
    p: SpecParser,
    left: SpecExpression,
    right: SpecExpression,
    pa: SpecParser,
)
    requires
        spec_is_binary_operator(p.current().kind),
        spec_parse_expression(p.next(), spec_precedence(p.current().kind)) == (
            Ok::<SpecExpression, Seq<char>>(right),
            pa,
        ),
    ensures
        spec_parse_infix(p, left) == (
            Ok::<SpecExpression, Seq<char>>(
                SpecExpression::Infix {
                    token: p.current(),
                    left: Box::new(left),
                    right: Box::new(right),
                },
            ),
            pa,
        ),
{
    reveal(spec_parse_infix);
    reveal(spec_parse_expression);
}

/// An opening bracket behind an operand indexes it.
pub proof fn lemma_infix_index(
    p: SpecParser,
    left: SpecExpression,
    index: SpecExpression,
    pa: SpecParser,
)
    requires
        p.current().kind == TokenKind::LBracket,
        spec_parse_expression(p.next(), Precedence::Lowest) == (
            Ok::<SpecExpression, Seq<char>>(index),
            pa,
        ),
        pa.peek() == spec_plain(TokenKind::RBracket),
    ensures
        spec_parse_infix(p, left) == (
            Ok::<SpecExpression, Seq<char>>(
                SpecExpression::Index { left: Box::new(left), index: Box::new(index) },
            ),
            pa.next(),
        ),
{
    reveal(spec_parse_infix);
    reveal(spec_parse_expression);
}

/// An opening parenthesis behind an operand calls it.
pub proof fn lemma_infix_call(
    p: SpecParser,
    left: SpecExpression,
    arguments: Seq<SpecExpression>,
    pa: SpecParser,
)
    requires
        p.current().kind == TokenKind::LParen,
        spec_parse_expression_list(p, TokenKind::RParen) == (
            Ok::<Seq<SpecExpression>, Seq<char>>(arguments),
            pa,
        ),
    ensures
        spec_parse_infix(p, left) == (
            Ok::<SpecExpression, Seq<char>>(
                SpecExpression::FunctionCall { function: Box::new(left), arguments },
            ),
            pa,
        ),
{
    reveal(spec_parse_infix);
}

/// `if` starts a conditional.
pub proof fn lemma_prefix_conditional(p: SpecParser)
    requires
        p.current().kind == TokenKind::If,
    ensures
        spec_parse_prefix(p) == spec_parse_conditional(p),
{
    reveal(spec_parse_prefix);
    reveal(spec_parse_conditional);
}

/// A conditional without an alternative: `if`, the condition between
/// parentheses and the consequence between braces, where no `else` follows.
pub proof fn lemma_conditional_without_else(
    p: SpecParser,
    condition: SpecExpression,
    pb: SpecParser,
    consequence: Seq<SpecStatement>,
    pe: SpecParser,
)
    requires
        p.peek() == spec_plain(TokenKind::LParen),
        spec_parse_expression(p.next().next(), Precedence::Lowest) == (
            Ok::<SpecExpression, Seq<char>>(condition),
            pb,
        ),
        pb.peek() == spec_plain(TokenKind::RParen),
        pb.next().peek() == spec_plain(TokenKind::LSquirly),
        pb.next().next().tokens.len() < p.tokens.len(),
        spec_parse_block(pb.next().next()) == (
            Ok::<Seq<SpecStatement>, Seq<char>>(consequence),
            pe,
        ),
        !pe.peek_is(TokenKind::Else),
    ensures
        spec_parse_conditional(p) == (
            Ok::<SpecExpression, Seq<char>>(
                (SpecExpression::Conditional {
                    condition: Box::new(condition),
                    consequence,
                    alternative: None,
                }),
            ),
            pe,
        ),
{
    reveal(spec_parse_conditional);
    reveal(spec_parse_expression);
    reveal(spec_parse_block);
}

/// A conditional with an alternative: behind the consequence `else` and the
/// alternative between braces.
pub proof fn lemma_conditional_with_else(
    p: SpecParser,
    condition: SpecExpression,
    pb: SpecParser,
    consequence: Seq<SpecStatement>,
    pe: SpecParser,
    alternative: Seq<SpecStatement>,
    pg: SpecParser,
)
    requires
        p.peek() == spec_plain(TokenKind::LParen),
        spec_parse_expression(p.next().next(), Precedence::Lowest) == (
            Ok::<SpecExpression, Seq<char>>(condition),
            pb,
        ),
        pb.peek() == spec_plain(TokenKind::RParen),
        pb.next().peek() == spec_plain(TokenKind::LSquirly),
        pb.next().next().tokens.len() < p.tokens.len(),
        spec_parse_block(pb.next().next()) == (
            Ok::<Seq<SpecStatement>, Seq<char>>(consequence),
            pe,
        ),
        pe.peek() == spec_plain(TokenKind::Else),
        pe.next().peek() == spec_plain(TokenKind::LSquirly),
        pe.next().next().tokens.len() < p.tokens.len(),
        spec_parse_block(pe.next().next()) == (
            Ok::<Seq<SpecStatement>, Seq<char>>(alternative),
            pg,
        ),
    ensures
        spec_parse_conditional(p) == (
            Ok::<SpecExpression, Seq<char>>(
                (SpecExpression::Conditional {
                    condition: Box::new(condition),
                    consequence,
                    alternative: Some(alternative),
                }),
            ),
            pg,
        ),
{
    reveal(spec_parse_conditional);
    reveal(spec_parse_expression);
    reveal(spec_parse_block);
}

/// At the closing brace a block is complete.
pub proof fn lemma_block_ends(p: SpecParser, read: Seq<SpecStatement>)
    requires
        p.current().kind == TokenKind::RSquirly,
    ensures
        spec_parse_block_statements(p, read) == (Ok::<Seq<SpecStatement>, Seq<char>>(read), p),
{
    reveal(spec_parse_block_statements);
}

/// Before the closing brace a block goes on with one more statement.
pub proof fn lemma_block_goes_on(
    p: SpecParser,
    read: Seq<SpecStatement>,
    statement: SpecStatement,
    pa: SpecParser,
)
    requires
        p.current().kind != TokenKind::RSquirly,
        p.current().kind != TokenKind::Eof,
        spec_parse_statement(p) == (Some(statement), pa),
        pa.next().tokens.len() < p.tokens.len(),
    ensures
        spec_parse_block_statements(p, read) == spec_parse_block_statements(
            pa.next(),
            read.push(statement),
        ),
{
    reveal(spec_parse_block_statements);
    reveal(spec_parse_statement);
}

/// A statement that starts with `return` returns the expression that
/// follows; the semicolon behind it ends the statement.
pub proof fn lemma_statement_return(p: SpecParser, value: SpecExpression, pa: SpecParser)
    requires
        p.current().kind == TokenKind::Return,
        spec_parse_expression(p.next(), Precedence::Lowest) == (
            Ok::<SpecExpression, Seq<char>>(value),
            pa,
        ),
    ensures
        spec_parse_statement(p) == (
            Some((SpecStatement::Return { value })),
            pa.skip_semicolon(),
        ),
{
    reveal(spec_parse_statement);
    reveal(spec_parse_return_statement);
    reveal(spec_parse_expression);
}

/// A statement that starts with neither is the expression that it starts
/// with; the semicolon behind it ends the statement.
pub proof fn lemma_statement_expression(p: SpecParser, value: SpecExpression, pa: SpecParser)
    requires
        p.current().kind != TokenKind::Let,
        p.current().kind != TokenKind::Return,
        spec_parse_expression(p, Precedence::Lowest) == (
            Ok::<SpecExpression, Seq<char>>(value),
            pa,
        ),
    ensures
        spec_parse_statement(p) == (
            Some((SpecStatement::Expression { value })),
            pa.skip_semicolon(),
        ),
{
    reveal(spec_parse_statement);
    reveal(spec_parse_expression_statement);
    reveal(spec_parse_expression);
}

/// A statement that starts with `let` binds the name that follows to the
/// expression behind `=`; a function literal takes the name. The semicolon
/// behind the expression ends the statement.
pub proof fn lemma_statement_binds(p: SpecParser, value: SpecExpression, pc: SpecParser)
    requires
        p.current().kind == TokenKind::Let,
        p.peek().kind == TokenKind::Ident,
        p.next().peek() == spec_plain(TokenKind::Assign),
        spec_parse_expression(p.next().next().next(), Precedence::Lowest) == (
            Ok::<SpecExpression, Seq<char>>(value),
            pc,
        ),
    ensures
        spec_parse_statement(p) == (
            Some(
                (SpecStatement::Let {
                    name: SpecIdentifier { token: p.peek(), value: p.peek().text },
                    value: spec_named(value, p.peek().text),
                }),
            ),
            pc.skip_semicolon(),
        ),
{
    reveal(spec_parse_statement);
    reveal(spec_parse_let_statement);
    reveal(spec_parse_expression);
}

} // verus!
