//! Laws of the grammar: whatever the tokens, a parsing routine only moves
//! forward in them and only adds to the errors, and a program is read to the
//! end of its input.

use crate::lexer::token::TokenKind;
use crate::parser::ast::{SpecExpression, SpecIdentifier, SpecStatement};
use crate::parser::grammar::{
    spec_is_binary_operator, spec_parse_block, spec_parse_block_statements, spec_parse_conditional, spec_parse_expression,
    spec_parse_expression_list, spec_parse_expression_statement, spec_parse_function_literal,
    spec_parse_hash_pairs, spec_parse_infix, spec_parse_infix_loop, spec_parse_let_statement,
    spec_parse_list_tail, spec_parse_parameters, spec_parse_parameters_tail, spec_parse_prefix,
    spec_parse_program, spec_parse_program_statements, spec_parse_return_statement,
    spec_parse_statement, spec_precedence, Precedence, SpecParser,
};
use vstd::prelude::*;

verus! {

/// The parser `after` is the parser `before` some tokens further: its tokens
/// are an end of the tokens of `before`, and its errors begin with the
/// errors of `before`.
#[verifier::opaque]
pub open spec fn spec_follows(before: SpecParser, after: SpecParser) -> bool {
    &&& after.tokens.len() <= before.tokens.len()
    &&& after.tokens == before.tokens.skip(before.tokens.len() - after.tokens.len())
    &&& before.errors.len() <= after.errors.len()
    &&& before.errors == after.errors.take(before.errors.len() as int)
}

/// A parser that follows another has no more tokens and no fewer errors.
pub proof fn lemma_follows_lengths(before: SpecParser, after: SpecParser)
    requires
        spec_follows(before, after),
    ensures
        after.tokens.len() <= before.tokens.len(),
        before.errors.len() <= after.errors.len(),
{
    reveal(spec_follows);
}

/// Every parser follows itself.
pub proof fn lemma_follows_itself(p: SpecParser)
    ensures
        spec_follows(p, p),
{
    reveal(spec_follows);
    assert(p.tokens.skip(0) =~= p.tokens);
    assert(p.errors.take(p.errors.len() as int) =~= p.errors);
}

/// What follows a parser that follows another follows that other.
pub proof fn lemma_follows_transitive(a: SpecParser, b: SpecParser, c: SpecParser)
    requires
        spec_follows(a, b),
        spec_follows(b, c),
    ensures
        spec_follows(a, c),
{
    reveal(spec_follows);
    assert(c.tokens =~= a.tokens.skip(a.tokens.len() - c.tokens.len()));
    assert(a.errors =~= c.errors.take(a.errors.len() as int));
}

/// A step to the next token moves forward.
pub proof fn lemma_next_follows(a: SpecParser, p: SpecParser)
    requires
        spec_follows(a, p),
    ensures
        spec_follows(a, p.next()),
        p.next().tokens.len() <= p.tokens.len(),
{
    reveal(spec_follows);
    lemma_follows_itself(p);
    if p.tokens.len() > 0 {
        assert(p.next().tokens =~= p.tokens.skip(p.tokens.len() - p.next().tokens.len()));
    }
    lemma_follows_transitive(a, p, p.next());
}

/// Recording an error moves forward.
pub proof fn lemma_report_follows(a: SpecParser, p: SpecParser, message: Seq<char>)
    requires
        spec_follows(a, p),
    ensures
        spec_follows(a, p.report(message)),
        spec_follows(a, p.note(message)),
{
    reveal(spec_follows);
    assert(p.tokens.skip(0) =~= p.tokens);
    assert(p.errors =~= p.report(message).errors.take(p.errors.len() as int));
    lemma_follows_itself(p);
    lemma_follows_transitive(a, p, p.report(message));
}

/// Expecting a token moves forward, whether the token is there or not.
pub proof fn lemma_expect_follows(a: SpecParser, p: SpecParser, kind: TokenKind)
    requires
        spec_follows(a, p),
    ensures
        spec_follows(a, p.expect(kind).1),
        p.expect(kind).1.tokens.len() <= p.tokens.len(),
{
    lemma_next_follows(a, p);
    lemma_report_follows(
        a,
        p,
        crate::parser::grammar::spec_expected_message(
            crate::lexer::token::spec_plain(kind).text,
            p.peek().text,
        ),
    );
}

/// Stepping over a semicolon, if one follows, moves forward.
pub proof fn lemma_skip_semicolon_follows(a: SpecParser, p: SpecParser)
    requires
        spec_follows(a, p),
    ensures
        spec_follows(a, p.skip_semicolon()),
        p.skip_semicolon().tokens.len() <= p.tokens.len(),
{
    lemma_next_follows(a, p);
}

/// Parsing an expression only moves forward. So the test on the lengths in
/// the definition of `spec_parse_expression` always succeeds.
pub proof fn lemma_expression_follows(p: SpecParser, precedence: Precedence)
    ensures
        spec_follows(p, spec_parse_expression(p, precedence).1),
        spec_parse_expression(p, precedence).1.tokens.len() <= p.tokens.len(),
    decreases p.tokens.len(), 3int,
{
    reveal(spec_parse_expression);
    reveal(spec_parse_prefix);
    reveal(spec_parse_infix_loop);
    lemma_prefix_follows(p);
    let (left, pa) = spec_parse_prefix(p);
    if let Ok(left) = left {
        lemma_infix_loop_follows(pa, left, precedence);
        lemma_follows_transitive(p, pa, spec_parse_infix_loop(pa, left, precedence).1);
    }
}

/// Parsing the operators behind an operand only moves forward, and each
/// operator takes at least one token. So the test on the lengths in the
/// definition of `spec_parse_infix_loop` always succeeds.
pub proof fn lemma_infix_loop_follows(p: SpecParser, left: SpecExpression, precedence: Precedence)
    ensures
        spec_follows(p, spec_parse_infix_loop(p, left, precedence).1),
        spec_parse_infix_loop(p, left, precedence).1.tokens.len() <= p.tokens.len(),
    decreases p.tokens.len(), 1int,
{
    reveal(spec_parse_infix_loop);
    reveal(spec_parse_infix);
    lemma_follows_itself(p);
    if !p.peek_is(TokenKind::Semicolon) && precedence.spec_level() < spec_precedence(
        p.peek().kind,
    ).spec_level() {
        lemma_next_follows(p, p);
        lemma_infix_follows(p.next(), left);
        let (folded, pa) = spec_parse_infix(p.next(), left);
        lemma_follows_transitive(p, p.next(), pa);
        if let Ok(folded) = folded {
            lemma_infix_loop_follows(pa, folded, precedence);
            lemma_follows_transitive(p, pa, spec_parse_infix_loop(pa, folded, precedence).1);
        }
    }
}

/// Applying an operator to an operand only moves forward.
pub proof fn lemma_infix_follows(p: SpecParser, left: SpecExpression)
    ensures
        spec_follows(p, spec_parse_infix(p, left).1),
        spec_parse_infix(p, left).1.tokens.len() <= p.tokens.len(),
    decreases p.tokens.len(), 2int,
{
    reveal(spec_parse_infix);
    reveal(spec_parse_expression);
    reveal(spec_parse_expression_list);
    lemma_follows_itself(p);
    lemma_next_follows(p, p);
    let token = p.current();
    if spec_is_binary_operator(token.kind) {
        lemma_expression_follows(p.next(), spec_precedence(token.kind));
        lemma_follows_transitive(
            p,
            p.next(),
            spec_parse_expression(p.next(), spec_precedence(token.kind)).1,
        );
    } else if token.kind == TokenKind::LParen {
        lemma_expression_list_follows(p, TokenKind::RParen);
    } else if token.kind == TokenKind::LBracket {
        lemma_expression_follows(p.next(), Precedence::Lowest);
        let pa = spec_parse_expression(p.next(), Precedence::Lowest).1;
        lemma_follows_transitive(p, p.next(), pa);
        lemma_expect_follows(p, pa, TokenKind::RBracket);
    }
}

/// Parsing an operand only moves forward.
pub proof fn lemma_prefix_follows(p: SpecParser)
    ensures
        spec_follows(p, spec_parse_prefix(p).1),
        spec_parse_prefix(p).1.tokens.len() <= p.tokens.len(),
    decreases p.tokens.len(), 2int,
{
    reveal(spec_parse_prefix);
    reveal(spec_parse_expression);
    reveal(spec_parse_conditional);
    reveal(spec_parse_function_literal);
    reveal(spec_parse_expression_list);
    reveal(spec_parse_hash_pairs);
    lemma_follows_itself(p);
    lemma_next_follows(p, p);
    let token = p.current();
    match token.kind {
        TokenKind::Bang | TokenKind::Minus => {
            lemma_expression_follows(p.next(), Precedence::Prefix);
            lemma_follows_transitive(
                p,
                p.next(),
                spec_parse_expression(p.next(), Precedence::Prefix).1,
            );
        },
        TokenKind::LParen => {
            lemma_expression_follows(p.next(), Precedence::Lowest);
            let pa = spec_parse_expression(p.next(), Precedence::Lowest).1;
            lemma_follows_transitive(p, p.next(), pa);
            lemma_expect_follows(p, pa, TokenKind::RParen);
        },
        TokenKind::If => {
            lemma_conditional_follows(p);
        },
        TokenKind::Function => {
            lemma_function_literal_follows(p);
        },
        TokenKind::LBracket => {
            lemma_expression_list_follows(p, TokenKind::RBracket);
        },
        TokenKind::LSquirly => {
            lemma_hash_pairs_follows(p, Seq::empty());
        },
        _ => {},
    }
}

/// Parsing a list of expressions only moves forward.
pub proof fn lemma_expression_list_follows(p: SpecParser, end: TokenKind)
    ensures
        spec_follows(p, spec_parse_expression_list(p, end).1),
        spec_parse_expression_list(p, end).1.tokens.len() <= p.tokens.len(),
    decreases p.tokens.len(), 1int,
{
    reveal(spec_parse_expression_list);
    reveal(spec_parse_expression);
    reveal(spec_parse_list_tail);
    lemma_follows_itself(p);
    lemma_next_follows(p, p);
    if !p.peek_is(end) && p.tokens.len() > 0 {
        lemma_expression_follows(p.next(), Precedence::Lowest);
        let (first, pa) = spec_parse_expression(p.next(), Precedence::Lowest);
        lemma_follows_transitive(p, p.next(), pa);
        if let Ok(first) = first {
            lemma_list_tail_follows(pa, seq![first], end);
            lemma_follows_transitive(p, pa, spec_parse_list_tail(pa, seq![first], end).1);
        }
    }
}

/// Parsing the rest of a list of expressions only moves forward.
pub proof fn lemma_list_tail_follows(p: SpecParser, read: Seq<SpecExpression>, end: TokenKind)
    ensures
        spec_follows(p, spec_parse_list_tail(p, read, end).1),
        spec_parse_list_tail(p, read, end).1.tokens.len() <= p.tokens.len(),
    decreases p.tokens.len(), 0int,
{
    reveal(spec_parse_list_tail);
    reveal(spec_parse_expression);
    lemma_follows_itself(p);
    lemma_expect_follows(p, p, end);
    if p.peek_is(TokenKind::Comma) {
        lemma_next_follows(p, p);
        lemma_next_follows(p, p.next());
        let behind = p.next().next();
        lemma_expression_follows(behind, Precedence::Lowest);
        let (element, pa) = spec_parse_expression(behind, Precedence::Lowest);
        lemma_follows_transitive(p, behind, pa);
        if let Ok(element) = element {
            lemma_list_tail_follows(pa, read.push(element), end);
            lemma_follows_transitive(p, pa, spec_parse_list_tail(pa, read.push(element), end).1);
        }
    }
}

/// Parsing the pairs of a hash map literal only moves forward.
pub proof fn lemma_hash_pairs_follows(p: SpecParser, read: Seq<(SpecExpression, SpecExpression)>)
    ensures
        spec_follows(p, spec_parse_hash_pairs(p, read).1),
        spec_parse_hash_pairs(p, read).1.tokens.len() <= p.tokens.len(),
    decreases p.tokens.len(), 1int,
{
    reveal(spec_parse_hash_pairs);
    reveal(spec_parse_expression);
    lemma_follows_itself(p);
    lemma_next_follows(p, p);
    if !p.peek_is(TokenKind::RSquirly) && p.tokens.len() > 0 {
        lemma_expression_follows(p.next(), Precedence::Lowest);
        let (key, pa) = spec_parse_expression(p.next(), Precedence::Lowest);
        lemma_follows_transitive(p, p.next(), pa);
        if let Ok(key) = key {
            lemma_expect_follows(p, pa, TokenKind::Colon);
            let (colon, pb) = pa.expect(TokenKind::Colon);
            if colon {
                lemma_next_follows(p, pb);
                lemma_expression_follows(pb.next(), Precedence::Lowest);
                let (value, pc) = spec_parse_expression(pb.next(), Precedence::Lowest);
                lemma_follows_transitive(p, pb.next(), pc);
                if let Ok(value) = value {
                    lemma_expect_follows(p, pc, TokenKind::Comma);
                    let (comma, pd) = if pc.peek_is(TokenKind::RSquirly) {
                        (true, pc)
                    } else {
                        pc.expect(TokenKind::Comma)
                    };
                    if comma {
                        lemma_hash_pairs_follows(pd, read.push((key, value)));
                        lemma_follows_transitive(
                            p,
                            pd,
                            spec_parse_hash_pairs(pd, read.push((key, value))).1,
                        );
                    }
                }
            }
        }
    }
}

/// Parsing a conditional only moves forward.
pub proof fn lemma_conditional_follows(p: SpecParser)
    ensures
        spec_follows(p, spec_parse_conditional(p).1),
        spec_parse_conditional(p).1.tokens.len() <= p.tokens.len(),
    decreases p.tokens.len(), 1int,
{
    reveal(spec_parse_conditional);
    reveal(spec_parse_expression);
    reveal(spec_parse_block);
    lemma_follows_itself(p);
    lemma_expect_follows(p, p, TokenKind::LParen);
    let (open, pa) = p.expect(TokenKind::LParen);
    if open {
        lemma_next_follows(p, pa);
        lemma_expression_follows(pa.next(), Precedence::Lowest);
        let (condition, pb) = spec_parse_expression(pa.next(), Precedence::Lowest);
        lemma_follows_transitive(p, pa.next(), pb);
        if condition is Ok {
            lemma_expect_follows(p, pb, TokenKind::RParen);
            let (close, pc) = pb.expect(TokenKind::RParen);
            if close {
                lemma_expect_follows(p, pc, TokenKind::LSquirly);
                let (brace, pd) = pc.expect(TokenKind::LSquirly);
                if brace {
                    lemma_block_follows(pd);
                    let (consequence, pe) = spec_parse_block(pd);
                    lemma_follows_transitive(p, pd, pe);
                    if consequence is Ok && pe.peek_is(TokenKind::Else) {
                        lemma_next_follows(p, pe);
                        lemma_expect_follows(p, pe.next(), TokenKind::LSquirly);
                        let (brace, pf) = pe.next().expect(TokenKind::LSquirly);
                        if brace {
                            lemma_block_follows(pf);
                            lemma_follows_transitive(p, pf, spec_parse_block(pf).1);
                        }
                    }
                }
            }
        }
    }
}

/// Parsing the parameters of a function literal only moves forward.
pub proof fn lemma_parameters_follows(p: SpecParser)
    ensures
        spec_follows(p, spec_parse_parameters(p).1),
        spec_parse_parameters(p).1.tokens.len() <= p.tokens.len(),
{
    lemma_follows_itself(p);
    lemma_next_follows(p, p);
    lemma_expect_follows(p, p, TokenKind::Ident);
    if !p.peek_is(TokenKind::RParen) {
        let (first, pa) = p.expect(TokenKind::Ident);
        if first {
            let read = seq![SpecIdentifier { token: pa.current(), value: pa.current().text }];
            lemma_parameters_tail_follows(pa, read);
            lemma_follows_transitive(p, pa, spec_parse_parameters_tail(pa, read).1);
        }
    }
}

/// Parsing the rest of the parameters only moves forward.
pub proof fn lemma_parameters_tail_follows(p: SpecParser, read: Seq<SpecIdentifier>)
    ensures
        spec_follows(p, spec_parse_parameters_tail(p, read).1),
        spec_parse_parameters_tail(p, read).1.tokens.len() <= p.tokens.len(),
    decreases p.tokens.len(),
{
    lemma_follows_itself(p);
    lemma_expect_follows(p, p, TokenKind::RParen);
    if p.peek_is(TokenKind::Comma) {
        lemma_next_follows(p, p);
        lemma_expect_follows(p, p.next(), TokenKind::Ident);
        let (more, pa) = p.next().expect(TokenKind::Ident);
        if more {
            let longer = read.push(SpecIdentifier { token: pa.current(), value: pa.current().text });
            lemma_parameters_tail_follows(pa, longer);
            lemma_follows_transitive(p, pa, spec_parse_parameters_tail(pa, longer).1);
        }
    }
}

/// Parsing a function literal only moves forward.
pub proof fn lemma_function_literal_follows(p: SpecParser)
    ensures
        spec_follows(p, spec_parse_function_literal(p).1),
        spec_parse_function_literal(p).1.tokens.len() <= p.tokens.len(),
    decreases p.tokens.len(), 1int,
{
    reveal(spec_parse_function_literal);
    reveal(spec_parse_block);
    lemma_follows_itself(p);
    lemma_expect_follows(p, p, TokenKind::LParen);
    let (open, pa) = p.expect(TokenKind::LParen);
    if open {
        lemma_parameters_follows(pa);
        let (parameters, pb) = spec_parse_parameters(pa);
        lemma_follows_transitive(p, pa, pb);
        if parameters is Ok {
            lemma_expect_follows(p, pb, TokenKind::LSquirly);
            let (brace, pc) = pb.expect(TokenKind::LSquirly);
            if brace {
                lemma_block_follows(pc);
                lemma_follows_transitive(p, pc, spec_parse_block(pc).1);
            }
        }
    }
}

/// Parsing a block only moves forward.
pub proof fn lemma_block_follows(p: SpecParser)
    ensures
        spec_follows(p, spec_parse_block(p).1),
        spec_parse_block(p).1.tokens.len() <= p.tokens.len(),
    decreases p.tokens.len(), 7int,
{
    reveal(spec_parse_block);
    reveal(spec_parse_block_statements);
    lemma_follows_itself(p);
    lemma_next_follows(p, p);
    lemma_block_statements_follows(p.next(), Seq::empty());
    lemma_follows_transitive(p, p.next(), spec_parse_block_statements(p.next(), Seq::empty()).1);
}

/// Parsing the rest of a block only moves forward, and each statement takes
/// at least one token. So the test on the lengths in the definition of
/// `spec_parse_block_statements` always succeeds.
pub proof fn lemma_block_statements_follows(p: SpecParser, read: Seq<SpecStatement>)
    ensures
        spec_follows(p, spec_parse_block_statements(p, read).1),
        spec_parse_block_statements(p, read).1.tokens.len() <= p.tokens.len(),
    decreases p.tokens.len(), 6int,
{
    reveal(spec_parse_block_statements);
    reveal(spec_parse_statement);
    lemma_follows_itself(p);
    if p.current().kind == TokenKind::RSquirly {
    } else if p.current().kind == TokenKind::Eof {
        lemma_report_follows(
            p,
            p,
            crate::parser::grammar::spec_expected_message(
                crate::lexer::token::spec_plain(TokenKind::RSquirly).text,
                crate::lexer::token::spec_plain(TokenKind::Eof).text,
            ),
        );
    } else {
        lemma_statement_follows(p);
        let (statement, pa) = spec_parse_statement(p);
        let longer = match statement {
            Some(statement) => read.push(statement),
            None => read,
        };
        lemma_next_follows(p, pa);
        lemma_block_statements_follows(pa.next(), longer);
        lemma_follows_transitive(p, pa.next(), spec_parse_block_statements(pa.next(), longer).1);
    }
}

/// Parsing a statement only moves forward.
pub proof fn lemma_statement_follows(p: SpecParser)
    ensures
        spec_follows(p, spec_parse_statement(p).1),
        spec_parse_statement(p).1.tokens.len() <= p.tokens.len(),
    decreases p.tokens.len(), 5int,
{
    reveal(spec_parse_statement);
    reveal(spec_parse_let_statement);
    reveal(spec_parse_return_statement);
    reveal(spec_parse_expression_statement);
    match p.current().kind {
        TokenKind::Let => {
            lemma_let_statement_follows(p);
        },
        TokenKind::Return => {
            lemma_return_statement_follows(p);
        },
        _ => {
            lemma_expression_statement_follows(p);
        },
    }
}

/// Parsing a `let` statement only moves forward.
pub proof fn lemma_let_statement_follows(p: SpecParser)
    ensures
        spec_follows(p, spec_parse_let_statement(p).1),
        spec_parse_let_statement(p).1.tokens.len() <= p.tokens.len(),
    decreases p.tokens.len(), 4int,
{
    reveal(spec_parse_let_statement);
    reveal(spec_parse_expression);
    lemma_follows_itself(p);
    lemma_expect_follows(p, p, TokenKind::Ident);
    let (is_named, pa) = p.expect(TokenKind::Ident);
    if is_named {
        lemma_expect_follows(p, pa, TokenKind::Assign);
        let (assigned, pb) = pa.expect(TokenKind::Assign);
        if assigned {
            lemma_next_follows(p, pb);
            lemma_expression_follows(pb.next(), Precedence::Lowest);
            let (value, pc) = spec_parse_expression(pb.next(), Precedence::Lowest);
            lemma_follows_transitive(p, pb.next(), pc);
            lemma_skip_semicolon_follows(p, pc);
            if let Err(message) = value {
                lemma_report_follows(p, pc, message);
            }
        }
    }
}

/// Parsing a `return` statement only moves forward.
pub proof fn lemma_return_statement_follows(p: SpecParser)
    ensures
        spec_follows(p, spec_parse_return_statement(p).1),
        spec_parse_return_statement(p).1.tokens.len() <= p.tokens.len(),
    decreases p.tokens.len(), 4int,
{
    reveal(spec_parse_return_statement);
    reveal(spec_parse_expression);
    lemma_follows_itself(p);
    lemma_next_follows(p, p);
    lemma_expression_follows(p.next(), Precedence::Lowest);
    let (value, pa) = spec_parse_expression(p.next(), Precedence::Lowest);
    lemma_follows_transitive(p, p.next(), pa);
    lemma_skip_semicolon_follows(p, pa);
    if let Err(message) = value {
        lemma_report_follows(p, pa, message);
    }
}

/// Parsing an expression statement only moves forward.
pub proof fn lemma_expression_statement_follows(p: SpecParser)
    ensures
        spec_follows(p, spec_parse_expression_statement(p).1),
        spec_parse_expression_statement(p).1.tokens.len() <= p.tokens.len(),
    decreases p.tokens.len(), 4int,
{
    reveal(spec_parse_expression_statement);
    reveal(spec_parse_expression);
    lemma_expression_follows(p, Precedence::Lowest);
    let (value, pa) = spec_parse_expression(p, Precedence::Lowest);
    lemma_skip_semicolon_follows(p, pa);
    if let Err(message) = value {
        lemma_report_follows(p, pa.skip_semicolon(), message);
    }
}

/// Parsing a program only moves forward and ends at the end of the input:
/// the parser does not stop at an error. Each statement takes at least one
/// token, so the test on the lengths in the definition of
/// `spec_parse_program_statements` always succeeds.
pub proof fn lemma_program_statements_read_all(p: SpecParser, read: Seq<SpecStatement>)
    ensures
        spec_follows(p, spec_parse_program_statements(p, read).1),
        spec_parse_program_statements(p, read).1.current().kind == TokenKind::Eof,
    decreases p.tokens.len(),
{
    lemma_follows_itself(p);
    if p.current().kind != TokenKind::Eof {
        lemma_statement_follows(p);
        let (statement, pa) = spec_parse_statement(p);
        let longer = match statement {
            Some(statement) => read.push(statement),
            None => read,
        };
        lemma_next_follows(p, pa);
        lemma_program_statements_read_all(pa.next(), longer);
        lemma_follows_transitive(
            p,
            pa.next(),
            spec_parse_program_statements(pa.next(), longer).1,
        );
    }
}

/// A program is read to the end of its input whatever errors it holds, and
/// every error that was on record before is on record after, at its place.
pub proof fn lemma_program_reads_all(p: SpecParser)
    ensures
        spec_follows(p, spec_parse_program(p).1),
        spec_parse_program(p).1.current().kind == TokenKind::Eof,
{
    lemma_program_statements_read_all(p, Seq::empty());
}

} // verus!
