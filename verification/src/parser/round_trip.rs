//! The law that the grammar reads the canonical token form of a program
//! back as the program: the parentheses that the printer sets are exactly
//! those that make the parser group an expression as the tree says.

use crate::lexer::token::{spec_plain, SpecToken, TokenKind};
use crate::parser::ast::{SpecExpression, SpecIdentifier, SpecPrimitive, SpecStatement};
use crate::parser::canonical::{
    lemma_block_tokens, lemma_decimal_round_trip, lemma_tokens_start, spec_all_canonical,
    spec_all_pairs_canonical, spec_block_tokens, spec_canonical, spec_canonical_block,
    spec_canonical_identifier, spec_canonical_identifiers, spec_canonical_statement,
    spec_expression_tokens, spec_function_tokens, spec_list_tokens, spec_pairs_tokens,
    spec_parameter_tokens, spec_starts_statement, spec_statement_tokens, spec_unnamed,
};
use crate::parser::grammar::{
    spec_named, spec_parse_block, spec_parse_block_statements, spec_parse_expression,
    spec_parse_expression_list, spec_parse_function_literal, spec_parse_hash_pairs,
    spec_parse_infix_loop, spec_parse_list_tail, spec_parse_parameters, spec_parse_parameters_tail,
    spec_parse_prefix, spec_parse_program, spec_parse_program_statements, spec_parse_statement,
    spec_precedence, Precedence, SpecParser,
};
use crate::parser::rules::{
    lemma_block_ends, lemma_block_goes_on, lemma_conditional_with_else,
    lemma_conditional_without_else, lemma_expression_from_operand, lemma_infix_binary,
    lemma_infix_call, lemma_infix_index, lemma_loop_steps, lemma_loop_stops,
    lemma_prefix_conditional, lemma_prefix_grouped, lemma_prefix_operator, lemma_statement_binds,
    lemma_statement_expression, lemma_statement_return, spec_ends_operand,
};
use vstd::prelude::*;

verus! {

/// The parser at position `k` of the tokens `ts`.
pub open spec fn spec_parser_at(ts: Seq<SpecToken>, k: int, errors: Seq<Seq<char>>) -> SpecParser {
    SpecParser { tokens: ts.skip(k), errors }
}

/// Whether the tokens `part` stand in `ts` from position `k` on.
pub open spec fn spec_stands_at(ts: Seq<SpecToken>, k: int, part: Seq<SpecToken>) -> bool {
    0 <= k && k + part.len() <= ts.len() && ts.subrange(k, k + part.len()) == part
}

/// What the parser at a position sees, and where a step takes it.
pub proof fn lemma_parser_at(ts: Seq<SpecToken>, k: int, errors: Seq<Seq<char>>)
    requires
        0 <= k <= ts.len(),
    ensures
        spec_parser_at(ts, k, errors).tokens.len() == ts.len() - k,
        spec_parser_at(ts, k, errors).errors == errors,
        k < ts.len() ==> spec_parser_at(ts, k, errors).current() == ts[k],
        k < ts.len() ==> spec_parser_at(ts, k, errors).next() == spec_parser_at(ts, k + 1, errors),
        k >= ts.len() ==> spec_parser_at(ts, k, errors).current() == spec_plain(TokenKind::Eof),
        k + 1 < ts.len() ==> spec_parser_at(ts, k, errors).peek() == ts[k + 1],
        k + 1 >= ts.len() ==> spec_parser_at(ts, k, errors).peek() == spec_plain(TokenKind::Eof),
{
    if k < ts.len() {
        assert(ts.skip(k).skip(1) =~= ts.skip(k + 1));
    }
}

/// Where two runs of tokens stand one behind the other, each stands at its
/// place.
pub proof fn lemma_stands_split(ts: Seq<SpecToken>, k: int, a: Seq<SpecToken>, b: Seq<SpecToken>)
    requires
        spec_stands_at(ts, k, a + b),
    ensures
        spec_stands_at(ts, k, a),
        spec_stands_at(ts, k + a.len(), b),
{
    let whole = ts.subrange(k, k + (a + b).len());
    assert(ts.subrange(k, k + a.len()) =~= whole.subrange(0, a.len() as int));
    assert((a + b).subrange(0, a.len() as int) =~= a);
    assert(ts.subrange(k + a.len(), k + a.len() + b.len()) =~= whole.subrange(
        a.len() as int,
        (a + b).len() as int,
    ));
    assert((a + b).subrange(a.len() as int, (a + b).len() as int) =~= b);
}

/// The tokens of a run that stands at a place are the tokens at that place.
pub proof fn lemma_stands_index(ts: Seq<SpecToken>, k: int, part: Seq<SpecToken>, i: int)
    requires
        spec_stands_at(ts, k, part),
        0 <= i < part.len(),
    ensures
        ts[k + i] == part[i],
{
    assert(ts.subrange(k, k + part.len())[i] == ts[k + i]);
}

/// The tokens behind the element before position `i` of a list: a comma and
/// the elements from `i` on, or nothing where the list ends.
pub open spec fn spec_tail_tokens(es: Seq<SpecExpression>, i: int) -> Seq<SpecToken> {
    if i < es.len() {
        seq![spec_plain(TokenKind::Comma)] + spec_list_tokens(es, i)
    } else {
        Seq::empty()
    }
}

/// Whether no `else` stands at position `i` of the tokens. A conditional
/// without an alternative can only be read back where no `else` follows it.
pub open spec fn spec_no_else_at(ts: Seq<SpecToken>, i: int) -> bool {
    !(0 <= i < ts.len()) || ts[i] != spec_plain(TokenKind::Else)
}

/// The canonical token form of a canonical expression reads back as the
/// expression, whatever follows it but `else` and whatever precedence it is
/// read with:
/// the grammar finds the expression as its operand and goes on behind it
/// with the operators that follow.
pub proof fn lemma_round_trip(
    e: SpecExpression,
    ts: Seq<SpecToken>,
    k: int,
    errors: Seq<Seq<char>>,
    precedence: Precedence,
)
    requires
        spec_canonical(e),
        spec_stands_at(ts, k, spec_expression_tokens(e)),
        spec_no_else_at(ts, k + spec_expression_tokens(e).len()),
        precedence.spec_level() < Precedence::Call.spec_level(),
    ensures
        spec_expression_tokens(e).len() >= 1,
        spec_parse_expression(spec_parser_at(ts, k, errors), precedence) == spec_parse_infix_loop(
            spec_parser_at(ts, k + spec_expression_tokens(e).len() - 1, errors),
            e,
            precedence,
        ),
    decreases e, 3nat,
{
    reveal(spec_canonical);
    reveal(spec_all_canonical);
    reveal(spec_expression_tokens);
    reveal(spec_list_tokens);
    let n = spec_expression_tokens(e).len() as int;
    lemma_tokens_start(e);
    match e {
        SpecExpression::FunctionCall { function, arguments } => {
            let f = *function;
            let tf = spec_expression_tokens(f);
            let tl = spec_list_tokens(arguments, 0);
            let open = seq![spec_plain(TokenKind::LParen)];
            let close = seq![spec_plain(TokenKind::RParen)];
            lemma_tokens_start(f);
            assert(spec_expression_tokens(e) =~= tf + (open + (tl + close)));
            lemma_stands_split(ts, k, tf, open + (tl + close));
            lemma_stands_split(ts, k + tf.len(), open, tl + close);
            lemma_stands_index(ts, k + tf.len(), open, 0);
            lemma_round_trip(f, ts, k, errors, precedence);
            let j = k + tf.len() - 1;
            lemma_parser_at(ts, j, errors);
            lemma_parser_at(ts, j + 1, errors);
            lemma_loop_steps(spec_parser_at(ts, j, errors), f, precedence);
            lemma_list_round_trip(arguments, ts, j + 1, errors, TokenKind::RParen);
            let after = spec_parser_at(ts, j + 2 + tl.len(), errors);
            lemma_infix_call(spec_parser_at(ts, j + 1, errors), f, arguments, after);
            lemma_parser_at(ts, j + 2 + tl.len(), errors);
        },
        _ => {
            lemma_operand_round_trip(e, ts, k, errors);
            lemma_parser_at(ts, k, errors);
            lemma_parser_at(ts, k + n - 1, errors);
            lemma_expression_from_operand(
                spec_parser_at(ts, k, errors),
                precedence,
                e,
                spec_parser_at(ts, k + n - 1, errors),
            );
        },
    }
}

/// The canonical token form of a canonical expression that is no call
/// reads back as one operand.
pub proof fn lemma_operand_round_trip(
    e: SpecExpression,
    ts: Seq<SpecToken>,
    k: int,
    errors: Seq<Seq<char>>,
)
    requires
        spec_canonical(e),
        !(e is FunctionCall),
        spec_stands_at(ts, k, spec_expression_tokens(e)),
        spec_no_else_at(ts, k + spec_expression_tokens(e).len()),
    ensures
        spec_expression_tokens(e).len() >= 1,
        spec_parse_prefix(spec_parser_at(ts, k, errors)) == (
            Ok::<SpecExpression, Seq<char>>(e),
            spec_parser_at(ts, k + spec_expression_tokens(e).len() - 1, errors),
        ),
    decreases e, 2nat,
{
    reveal(spec_canonical);
    reveal(spec_all_pairs_canonical);
    reveal(spec_canonical_block);
    reveal(spec_expression_tokens);
    reveal(spec_pairs_tokens);
    reveal(spec_block_tokens);
    reveal(spec_parse_prefix);
    reveal(spec_parse_hash_pairs);
    match e {
        SpecExpression::Identifier(_) => {
            lemma_parser_at(ts, k, errors);
            lemma_stands_index(ts, k, spec_expression_tokens(e), 0);
        },
        SpecExpression::Primitive(p) => {
            lemma_parser_at(ts, k, errors);
            lemma_stands_index(ts, k, spec_expression_tokens(e), 0);
            if let SpecPrimitive::Integer(n) = p {
                lemma_decimal_round_trip(n);
            }
        },
        SpecExpression::Prefix { .. } => {
            lemma_prefix_round_trip(e, ts, k, errors);
        },
        SpecExpression::Infix { .. } => {
            lemma_infix_round_trip(e, ts, k, errors);
        },
        SpecExpression::Index { .. } => {
            lemma_index_round_trip(e, ts, k, errors);
        },
        SpecExpression::ArrayLiteral { .. } => {
            lemma_array_round_trip(e, ts, k, errors);
        },
        SpecExpression::Conditional { .. } => {
            lemma_conditional_round_trip(e, ts, k, errors);
        },
        SpecExpression::FunctionLiteral { parameters, body, name } => {
            lemma_function_round_trip(parameters, body, ts, k, errors);
        },
        SpecExpression::HashMapLiteral { pairs } => {
            let tp = spec_pairs_tokens(pairs, 0);
            let brace = seq![spec_plain(TokenKind::LSquirly)];
            let closing = seq![spec_plain(TokenKind::RSquirly)];
            lemma_parser_at(ts, k, errors);
            lemma_stands_index(ts, k, spec_expression_tokens(e), 0);
            assert(spec_expression_tokens(e) =~= brace + (tp + closing));
            lemma_stands_split(ts, k, brace, tp + closing);
            assert(pairs.take(0) =~= Seq::<(SpecExpression, SpecExpression)>::empty());
            lemma_pairs_round_trip(pairs, 0, ts, k, errors);
        },
        _ => {},
    }
}

/// The canonical token form of a prefix operator with its operand reads back as one operand.
pub proof fn lemma_prefix_round_trip(e: SpecExpression, ts: Seq<SpecToken>, k: int, errors: Seq<Seq<char>>)
    requires
        spec_canonical(e),
        e is Prefix,
        spec_stands_at(ts, k, spec_expression_tokens(e)),
    ensures
        spec_expression_tokens(e).len() >= 1,
        spec_parse_prefix(spec_parser_at(ts, k, errors)) == (
            Ok::<SpecExpression, Seq<char>>(e),
            spec_parser_at(ts, k + spec_expression_tokens(e).len() - 1, errors),
        ),
    decreases e, 1nat,
{
    reveal(spec_canonical);
    reveal(spec_expression_tokens);
    let n = spec_expression_tokens(e).len() as int;
    lemma_tokens_start(e);
    lemma_parser_at(ts, k, errors);
    lemma_stands_index(ts, k, spec_expression_tokens(e), 0);
    let open = seq![spec_plain(TokenKind::LParen)];
    let close = seq![spec_plain(TokenKind::RParen)];
    let token = e->Prefix_token;
    let right = e->Prefix_right;
    let r = *right;
    let tr = spec_expression_tokens(r);
    lemma_tokens_start(r);
    assert(spec_expression_tokens(e) =~= open + (seq![token] + (tr + close)));
    lemma_stands_split(ts, k, open, seq![token] + (tr + close));
    lemma_stands_split(ts, k + 1, seq![token], tr + close);
    lemma_stands_split(ts, k + 2, tr, close);
    lemma_stands_index(ts, k + 1, seq![token], 0);
    lemma_stands_index(ts, k + 2 + tr.len(), close, 0);
    lemma_parser_at(ts, k + 1, errors);
    lemma_parser_at(ts, k + 2, errors);
    let last = k + 1 + tr.len();
    lemma_parser_at(ts, last, errors);
    lemma_parser_at(ts, last + 1, errors);
    lemma_round_trip(r, ts, k + 2, errors, Precedence::Prefix);
    lemma_loop_stops(spec_parser_at(ts, last, errors), r, Precedence::Prefix);
    lemma_prefix_operator(
        spec_parser_at(ts, k + 1, errors),
        r,
        spec_parser_at(ts, last, errors),
    );
    lemma_expression_from_operand(
        spec_parser_at(ts, k + 1, errors),
        Precedence::Lowest,
        e,
        spec_parser_at(ts, last, errors),
    );
    lemma_loop_stops(spec_parser_at(ts, last, errors), e, Precedence::Lowest);
    lemma_prefix_grouped(
        spec_parser_at(ts, k, errors),
        e,
        spec_parser_at(ts, last, errors),
    );
}

/// The canonical token form of a binary operator with its operands reads back as one operand.
pub proof fn lemma_infix_round_trip(e: SpecExpression, ts: Seq<SpecToken>, k: int, errors: Seq<Seq<char>>)
    requires
        spec_canonical(e),
        e is Infix,
        spec_stands_at(ts, k, spec_expression_tokens(e)),
    ensures
        spec_expression_tokens(e).len() >= 1,
        spec_parse_prefix(spec_parser_at(ts, k, errors)) == (
            Ok::<SpecExpression, Seq<char>>(e),
            spec_parser_at(ts, k + spec_expression_tokens(e).len() - 1, errors),
        ),
    decreases e, 1nat,
{
    reveal(spec_canonical);
    reveal(spec_expression_tokens);
    let n = spec_expression_tokens(e).len() as int;
    lemma_tokens_start(e);
    lemma_parser_at(ts, k, errors);
    lemma_stands_index(ts, k, spec_expression_tokens(e), 0);
    let open = seq![spec_plain(TokenKind::LParen)];
    let close = seq![spec_plain(TokenKind::RParen)];
    let token = e->Infix_token;
    let left = e->Infix_left;
    let right = e->Infix_right;
    let l = *left;
    let r = *right;
    let tl = spec_expression_tokens(l);
    let tr = spec_expression_tokens(r);
    lemma_tokens_start(l);
    lemma_tokens_start(r);
    assert(spec_expression_tokens(e) =~= open + (tl + (seq![token] + (tr + close))));
    lemma_stands_split(ts, k, open, tl + (seq![token] + (tr + close)));
    lemma_stands_split(ts, k + 1, tl, seq![token] + (tr + close));
    lemma_stands_split(ts, k + 1 + tl.len(), seq![token], tr + close);
    lemma_stands_split(ts, k + 2 + tl.len(), tr, close);
    lemma_stands_index(ts, k + 1 + tl.len(), seq![token], 0);
    lemma_stands_index(ts, k + 2 + tl.len() + tr.len(), close, 0);
    let end_left = k + tl.len();
    let at_operator = end_left + 1;
    let last = at_operator + tr.len();
    lemma_parser_at(ts, k + 1, errors);
    lemma_parser_at(ts, end_left, errors);
    lemma_parser_at(ts, at_operator, errors);
    lemma_parser_at(ts, at_operator + 1, errors);
    lemma_parser_at(ts, last, errors);
    lemma_parser_at(ts, last + 1, errors);
    lemma_round_trip(l, ts, k + 1, errors, Precedence::Lowest);
    lemma_loop_steps(spec_parser_at(ts, end_left, errors), l, Precedence::Lowest);
    lemma_round_trip(r, ts, at_operator + 1, errors, spec_precedence(token.kind));
    lemma_loop_stops(spec_parser_at(ts, last, errors), r, spec_precedence(token.kind));
    lemma_infix_binary(
        spec_parser_at(ts, at_operator, errors),
        l,
        r,
        spec_parser_at(ts, last, errors),
    );
    lemma_loop_stops(spec_parser_at(ts, last, errors), e, Precedence::Lowest);
    lemma_prefix_grouped(
        spec_parser_at(ts, k, errors),
        e,
        spec_parser_at(ts, last, errors),
    );
}

/// The canonical token form of an index reads back as one operand.
pub proof fn lemma_index_round_trip(e: SpecExpression, ts: Seq<SpecToken>, k: int, errors: Seq<Seq<char>>)
    requires
        spec_canonical(e),
        e is Index,
        spec_stands_at(ts, k, spec_expression_tokens(e)),
    ensures
        spec_expression_tokens(e).len() >= 1,
        spec_parse_prefix(spec_parser_at(ts, k, errors)) == (
            Ok::<SpecExpression, Seq<char>>(e),
            spec_parser_at(ts, k + spec_expression_tokens(e).len() - 1, errors),
        ),
    decreases e, 1nat,
{
    reveal(spec_canonical);
    reveal(spec_expression_tokens);
    let n = spec_expression_tokens(e).len() as int;
    lemma_tokens_start(e);
    lemma_parser_at(ts, k, errors);
    lemma_stands_index(ts, k, spec_expression_tokens(e), 0);
    let open = seq![spec_plain(TokenKind::LParen)];
    let close = seq![spec_plain(TokenKind::RParen)];
    let left = e->Index_left;
    let index = e->Index_index;
    let l = *left;
    let x = *index;
    let tl = spec_expression_tokens(l);
    let tx = spec_expression_tokens(x);
    let bracket = seq![spec_plain(TokenKind::LBracket)];
    let closing = seq![spec_plain(TokenKind::RBracket), spec_plain(TokenKind::RParen)];
    lemma_tokens_start(l);
    lemma_tokens_start(x);
    assert(spec_expression_tokens(e) =~= open + (tl + (bracket + (tx + closing))));
    lemma_stands_split(ts, k, open, tl + (bracket + (tx + closing)));
    lemma_stands_split(ts, k + 1, tl, bracket + (tx + closing));
    lemma_stands_split(ts, k + 1 + tl.len(), bracket, tx + closing);
    lemma_stands_split(ts, k + 2 + tl.len(), tx, closing);
    lemma_stands_index(ts, k + 1 + tl.len(), bracket, 0);
    lemma_stands_index(ts, k + 2 + tl.len() + tx.len(), closing, 0);
    lemma_stands_index(ts, k + 2 + tl.len() + tx.len(), closing, 1);
    let end_left = k + tl.len();
    let at_bracket = end_left + 1;
    let end_index = at_bracket + tx.len();
    lemma_parser_at(ts, k + 1, errors);
    lemma_parser_at(ts, end_left, errors);
    lemma_parser_at(ts, at_bracket, errors);
    lemma_parser_at(ts, at_bracket + 1, errors);
    lemma_parser_at(ts, end_index, errors);
    lemma_parser_at(ts, end_index + 1, errors);
    lemma_parser_at(ts, end_index + 2, errors);
    lemma_round_trip(l, ts, k + 1, errors, Precedence::Lowest);
    lemma_loop_steps(spec_parser_at(ts, end_left, errors), l, Precedence::Lowest);
    lemma_round_trip(x, ts, at_bracket + 1, errors, Precedence::Lowest);
    lemma_loop_stops(spec_parser_at(ts, end_index, errors), x, Precedence::Lowest);
    lemma_infix_index(
        spec_parser_at(ts, at_bracket, errors),
        l,
        x,
        spec_parser_at(ts, end_index, errors),
    );
    lemma_loop_stops(spec_parser_at(ts, end_index + 1, errors), e, Precedence::Lowest);
    lemma_prefix_grouped(
        spec_parser_at(ts, k, errors),
        e,
        spec_parser_at(ts, end_index + 1, errors),
    );
}

/// The canonical token form of an array literal reads back as one operand.
pub proof fn lemma_array_round_trip(e: SpecExpression, ts: Seq<SpecToken>, k: int, errors: Seq<Seq<char>>)
    requires
        spec_canonical(e),
        e is ArrayLiteral,
        spec_stands_at(ts, k, spec_expression_tokens(e)),
    ensures
        spec_expression_tokens(e).len() >= 1,
        spec_parse_prefix(spec_parser_at(ts, k, errors)) == (
            Ok::<SpecExpression, Seq<char>>(e),
            spec_parser_at(ts, k + spec_expression_tokens(e).len() - 1, errors),
        ),
    decreases e, 0nat,
{
    reveal(spec_canonical);
    reveal(spec_all_canonical);
    reveal(spec_expression_tokens);
    reveal(spec_list_tokens);
    reveal(spec_parse_prefix);
    reveal(spec_parse_expression_list);
    let n = spec_expression_tokens(e).len() as int;
    lemma_tokens_start(e);
    lemma_parser_at(ts, k, errors);
    lemma_stands_index(ts, k, spec_expression_tokens(e), 0);
    let open = seq![spec_plain(TokenKind::LParen)];
    let close = seq![spec_plain(TokenKind::RParen)];
    let elements = e->elements;
    let tl = spec_list_tokens(elements, 0);
    let bracket = seq![spec_plain(TokenKind::LBracket)];
    let closing = seq![spec_plain(TokenKind::RBracket)];
    assert(spec_expression_tokens(e) =~= bracket + (tl + closing));
    lemma_stands_split(ts, k, bracket, tl + closing);
    lemma_list_round_trip(elements, ts, k, errors, TokenKind::RBracket);
}

/// The canonical token form of a list of canonical expressions between
/// brackets reads back as the list.
pub proof fn lemma_list_round_trip(
    es: Seq<SpecExpression>,
    ts: Seq<SpecToken>,
    k: int,
    errors: Seq<Seq<char>>,
    end: TokenKind,
)
    requires
        spec_all_canonical(es),
        0 <= k < ts.len(),
        end == TokenKind::RParen || end == TokenKind::RBracket,
        spec_stands_at(ts, k + 1, spec_list_tokens(es, 0) + seq![spec_plain(end)]),
    ensures
        spec_parse_expression_list(spec_parser_at(ts, k, errors), end) == (
            Ok::<Seq<SpecExpression>, Seq<char>>(es),
            spec_parser_at(ts, k + 1 + spec_list_tokens(es, 0).len(), errors),
        ),
    decreases es, es.len() + 1,
{
    reveal(spec_all_canonical);
    reveal(spec_canonical);
    reveal(spec_list_tokens);
    reveal(spec_expression_tokens);
    reveal(spec_parse_expression_list);
    reveal(spec_parse_expression);
    reveal(spec_parse_list_tail);
    let tl = spec_list_tokens(es, 0);
    let closing = seq![spec_plain(end)];
    lemma_parser_at(ts, k, errors);
    lemma_parser_at(ts, k + 1, errors);
    lemma_stands_split(ts, k + 1, tl, closing);
    if es.len() == 0 {
        lemma_stands_index(ts, k + 1, closing, 0);
        assert(es =~= Seq::<SpecExpression>::empty());
    } else {
        let first = es[0];
        let tf = spec_expression_tokens(first);
        lemma_tokens_start(first);
        let tail = spec_tail_tokens(es, 1);
        assert(tl =~= tf + tail);
        assert(tl + closing =~= tf + (tail + closing));
        lemma_stands_split(ts, k + 1, tf, tail + closing);
        lemma_stands_index(ts, k + 1, tf, 0);
        let last = k + tf.len();
        lemma_next_after_element(es, 0, ts, last, end);
        lemma_round_trip(first, ts, k + 1, errors, Precedence::Lowest);
        lemma_parser_at(ts, last, errors);
        lemma_loop_stops(spec_parser_at(ts, last, errors), first, Precedence::Lowest);
        assert(es.take(1) =~= seq![first]);
        lemma_list_tail_round_trip(es, 1, ts, last, errors, end);
    }
}

/// Behind an element of a list stands a comma or the closing bracket.
pub proof fn lemma_next_after_element(
    es: Seq<SpecExpression>,
    i: int,
    ts: Seq<SpecToken>,
    last: int,
    end: TokenKind,
)
    requires
        0 <= i < es.len(),
        end == TokenKind::RParen || end == TokenKind::RBracket,
        spec_stands_at(ts, last + 1, spec_tail_tokens(es, i + 1) + seq![spec_plain(end)]),
    ensures
        last + 1 < ts.len(),
        0 <= last + 1,
        i + 1 < es.len() ==> ts[last + 1] == spec_plain(TokenKind::Comma),
        i + 1 >= es.len() ==> ts[last + 1] == spec_plain(end),
        spec_ends_operand(ts[last + 1]),
        spec_no_else_at(ts, last + 1),
{
    let tail = spec_tail_tokens(es, i + 1);
    let closing = seq![spec_plain(end)];
    lemma_stands_index(ts, last + 1, tail + closing, 0);
}

/// The rest of the canonical token form of a list reads back as the rest of
/// the list.
pub proof fn lemma_list_tail_round_trip(
    es: Seq<SpecExpression>,
    i: int,
    ts: Seq<SpecToken>,
    j: int,
    errors: Seq<Seq<char>>,
    end: TokenKind,
)
    requires
        spec_all_canonical(es),
        1 <= i <= es.len(),
        0 <= j < ts.len(),
        end == TokenKind::RParen || end == TokenKind::RBracket,
        spec_stands_at(ts, j + 1, spec_tail_tokens(es, i) + seq![spec_plain(end)]),
    ensures
        spec_parse_list_tail(spec_parser_at(ts, j, errors), es.take(i), end) == (
            Ok::<Seq<SpecExpression>, Seq<char>>(es),
            spec_parser_at(ts, j + 1 + spec_tail_tokens(es, i).len(), errors),
        ),
    decreases es, es.len() - i,
{
    reveal(spec_all_canonical);
    reveal(spec_canonical);
    reveal(spec_list_tokens);
    reveal(spec_expression_tokens);
    reveal(spec_parse_list_tail);
    reveal(spec_parse_expression);
    let tail = spec_tail_tokens(es, i);
    let closing = seq![spec_plain(end)];
    lemma_parser_at(ts, j, errors);
    lemma_parser_at(ts, j + 1, errors);
    lemma_stands_split(ts, j + 1, tail, closing);
    if i == es.len() {
        lemma_stands_index(ts, j + 1, closing, 0);
        assert(es.take(i) =~= es);
    } else {
        let element = es[i];
        let te = spec_expression_tokens(element);
        let comma = seq![spec_plain(TokenKind::Comma)];
        let rest = spec_tail_tokens(es, i + 1);
        lemma_tokens_start(element);
        assert(spec_list_tokens(es, i) =~= te + rest);
        assert(tail + closing =~= comma + (te + (rest + closing)));
        lemma_stands_split(ts, j + 1, comma, te + (rest + closing));
        lemma_stands_split(ts, j + 2, te, rest + closing);
        lemma_stands_index(ts, j + 1, comma, 0);
        lemma_parser_at(ts, j + 2, errors);
        let last = j + 1 + te.len();
        lemma_next_after_element(es, i, ts, last, end);
        lemma_round_trip(element, ts, j + 2, errors, Precedence::Lowest);
        lemma_parser_at(ts, last, errors);
        lemma_loop_stops(spec_parser_at(ts, last, errors), element, Precedence::Lowest);
        assert(es.take(i).push(element) =~= es.take(i + 1));
        lemma_list_tail_round_trip(es, i + 1, ts, last, errors, end);
    }
}

/// The canonical token form of the pairs of a hash map literal reads back
/// as the pairs, in their order.
pub proof fn lemma_pairs_round_trip(
    pairs: Seq<(SpecExpression, SpecExpression)>,
    i: int,
    ts: Seq<SpecToken>,
    j: int,
    errors: Seq<Seq<char>>,
)
    requires
        spec_all_pairs_canonical(pairs),
        0 <= i <= pairs.len(),
        0 <= j < ts.len(),
        spec_stands_at(
            ts,
            j + 1,
            spec_pairs_tokens(pairs, i) + seq![spec_plain(TokenKind::RSquirly)],
        ),
    ensures
        spec_parse_hash_pairs(spec_parser_at(ts, j, errors), pairs.take(i)) == (
            Ok::<Seq<(SpecExpression, SpecExpression)>, Seq<char>>(pairs),
            spec_parser_at(ts, j + 1 + spec_pairs_tokens(pairs, i).len(), errors),
        ),
    decreases pairs, pairs.len() - i,
{
    reveal(spec_all_pairs_canonical);
    reveal(spec_canonical);
    reveal(spec_pairs_tokens);
    reveal(spec_expression_tokens);
    reveal(spec_parse_hash_pairs);
    reveal(spec_parse_expression);
    let tp = spec_pairs_tokens(pairs, i);
    let closing = seq![spec_plain(TokenKind::RSquirly)];
    let colon = seq![spec_plain(TokenKind::Colon)];
    let comma = seq![spec_plain(TokenKind::Comma)];
    lemma_parser_at(ts, j, errors);
    lemma_parser_at(ts, j + 1, errors);
    if i == pairs.len() {
        lemma_stands_index(ts, j + 1, tp + closing, 0);
        assert(pairs.take(i) =~= pairs);
    } else {
        let key = pairs[i].0;
        let value = pairs[i].1;
        let tk = spec_expression_tokens(key);
        let tv = spec_expression_tokens(value);
        lemma_tokens_start(key);
        lemma_tokens_start(value);
        let rest = if i == pairs.len() - 1 {
            Seq::<SpecToken>::empty()
        } else {
            comma + spec_pairs_tokens(pairs, i + 1)
        };
        assert(tp + closing =~= tk + (colon + (tv + (rest + closing))));
        lemma_stands_split(ts, j + 1, tk, colon + (tv + (rest + closing)));
        lemma_stands_split(ts, j + 1 + tk.len(), colon, tv + (rest + closing));
        lemma_stands_split(ts, j + 2 + tk.len(), tv, rest + closing);
        lemma_stands_index(ts, j + 1, tk, 0);
        lemma_stands_index(ts, j + 1 + tk.len(), colon, 0);
        lemma_stands_index(ts, j + 2 + tk.len() + tv.len(), rest + closing, 0);
        let end_key = j + tk.len();
        let end_value = end_key + 1 + tv.len();
        lemma_parser_at(ts, end_key, errors);
        lemma_parser_at(ts, end_key + 1, errors);
        lemma_parser_at(ts, end_key + 2, errors);
        lemma_parser_at(ts, end_value, errors);
        lemma_parser_at(ts, end_value + 1, errors);
        lemma_round_trip(key, ts, j + 1, errors, Precedence::Lowest);
        lemma_loop_stops(spec_parser_at(ts, end_key, errors), key, Precedence::Lowest);
        lemma_round_trip(value, ts, end_key + 2, errors, Precedence::Lowest);
        lemma_loop_stops(spec_parser_at(ts, end_value, errors), value, Precedence::Lowest);
        assert(pairs.take(i).push((key, value)) =~= pairs.take(i + 1));
        if i == pairs.len() - 1 {
            assert(rest + closing =~= closing);
            lemma_pairs_round_trip(pairs, i + 1, ts, end_value, errors);
        } else {
            assert(rest + closing =~= comma + (spec_pairs_tokens(pairs, i + 1) + closing));
            lemma_stands_split(
                ts,
                end_value + 1,
                comma,
                spec_pairs_tokens(pairs, i + 1) + closing,
            );
            lemma_pairs_round_trip(pairs, i + 1, ts, end_value + 1, errors);
        }
    }
}

/// The canonical token form of a function literal reads back as one
/// operand: the function literal without a name.
pub proof fn lemma_function_round_trip(
    parameters: Seq<SpecIdentifier>,
    body: Seq<SpecStatement>,
    ts: Seq<SpecToken>,
    k: int,
    errors: Seq<Seq<char>>,
)
    requires
        spec_canonical_identifiers(parameters),
        spec_canonical_block(body),
        spec_stands_at(ts, k, spec_function_tokens(parameters, body)),
    ensures
        spec_function_tokens(parameters, body).len() >= 5,
        spec_parse_prefix(spec_parser_at(ts, k, errors)) == (
            Ok::<SpecExpression, Seq<char>>(
                (SpecExpression::FunctionLiteral { parameters, body, name: None }),
            ),
            spec_parser_at(ts, k + spec_function_tokens(parameters, body).len() - 1, errors),
        ),
    decreases body, body.len() + 2,
{
    reveal(spec_parse_prefix);
    reveal(spec_parse_function_literal);
    reveal(spec_parse_block);
    let head = seq![spec_plain(TokenKind::Function), spec_plain(TokenKind::LParen)];
    let tp = spec_parameter_tokens(parameters, 0);
    let middle = seq![spec_plain(TokenKind::RParen), spec_plain(TokenKind::LSquirly)];
    let tb = spec_block_tokens(body, 0);
    let closing = seq![spec_plain(TokenKind::RSquirly)];
    let all = spec_function_tokens(parameters, body);
    assert(all =~= head + (tp + (middle + (tb + closing))));
    lemma_stands_split(ts, k, head, tp + (middle + (tb + closing)));
    lemma_stands_split(ts, k + 2, tp, middle + (tb + closing));
    lemma_stands_split(ts, k + 2 + tp.len(), middle, tb + closing);
    lemma_stands_index(ts, k, head, 0);
    lemma_stands_index(ts, k, head, 1);
    lemma_stands_index(ts, k + 2 + tp.len(), middle, 0);
    lemma_stands_index(ts, k + 2 + tp.len(), middle, 1);
    let close_paren = k + 2 + tp.len();
    lemma_parser_at(ts, k, errors);
    lemma_parser_at(ts, k + 1, errors);
    lemma_parser_at(ts, close_paren, errors);
    lemma_parser_at(ts, close_paren + 1, errors);
    assert(tp + (middle + (tb + closing)) =~= (tp + seq![spec_plain(TokenKind::RParen)]) + (
    seq![spec_plain(TokenKind::LSquirly)] + (tb + closing)));
    lemma_stands_split(
        ts,
        k + 2,
        tp + seq![spec_plain(TokenKind::RParen)],
        seq![spec_plain(TokenKind::LSquirly)] + (tb + closing),
    );
    lemma_parameters_round_trip(parameters, ts, k + 1, errors);
    lemma_block_round_trip(body, ts, close_paren + 1, errors);
    lemma_parser_at(ts, close_paren + 2 + tb.len(), errors);
}

/// Where the parts of a conditional stand in its canonical token form.
pub open spec fn spec_conditional_stands_at(
    ts: Seq<SpecToken>,
    k: int,
    condition: SpecExpression,
    consequence: Seq<SpecStatement>,
    alternative: Option<Seq<SpecStatement>>,
) -> bool {
    let end_condition = k + 1 + spec_expression_tokens(condition).len();
    let close_brace = end_condition + 3 + spec_block_tokens(consequence, 0).len();
    &&& 0 <= k
    &&& close_brace < ts.len()
    &&& ts[k] == spec_plain(TokenKind::If)
    &&& ts[k + 1] == spec_plain(TokenKind::LParen)
    &&& spec_stands_at(ts, k + 2, spec_expression_tokens(condition))
    &&& ts[end_condition + 1] == spec_plain(TokenKind::RParen)
    &&& ts[end_condition + 2] == spec_plain(TokenKind::LSquirly)
    &&& spec_stands_at(
        ts,
        end_condition + 3,
        spec_block_tokens(consequence, 0) + seq![spec_plain(TokenKind::RSquirly)],
    )
    &&& match alternative {
        Some(block) => {
            &&& close_brace + 2 < ts.len()
            &&& ts[close_brace + 1] == spec_plain(TokenKind::Else)
            &&& ts[close_brace + 2] == spec_plain(TokenKind::LSquirly)
            &&& spec_stands_at(
                ts,
                close_brace + 3,
                spec_block_tokens(block, 0) + seq![spec_plain(TokenKind::RSquirly)],
            )
        },
        None => spec_no_else_at(ts, close_brace + 1),
    }
}

/// The position of the last token of a conditional whose parts stand at
/// `k`.
pub open spec fn spec_conditional_end(
    k: int,
    condition: SpecExpression,
    consequence: Seq<SpecStatement>,
    alternative: Option<Seq<SpecStatement>>,
) -> int {
    let close_brace = k + 4 + spec_expression_tokens(condition).len() + spec_block_tokens(
        consequence,
        0,
    ).len();
    match alternative {
        Some(block) => close_brace + 3 + spec_block_tokens(block, 0).len(),
        None => close_brace,
    }
}

/// The canonical token form of a conditional holds its parts at their
/// places.
pub proof fn lemma_conditional_layout(e: SpecExpression, ts: Seq<SpecToken>, k: int)
    requires
        spec_canonical(e),
        e is Conditional,
        spec_stands_at(ts, k, spec_expression_tokens(e)),
        spec_no_else_at(ts, k + spec_expression_tokens(e).len()),
    ensures
        spec_canonical(*e->condition),
        spec_canonical_block(e->consequence),
        e->alternative is Some ==> spec_canonical_block(e->alternative->0),
        spec_conditional_stands_at(ts, k, *e->condition, e->consequence, e->alternative),
        spec_conditional_end(k, *e->condition, e->consequence, e->alternative) == k
            + spec_expression_tokens(e).len() - 1,
{
    reveal(spec_canonical);
    reveal(spec_canonical_block);
    reveal(spec_expression_tokens);
    reveal(spec_block_tokens);
    let condition = *e->condition;
    let consequence = e->consequence;
    let alternative = e->alternative;
    let head = seq![spec_plain(TokenKind::If), spec_plain(TokenKind::LParen)];
    let tc = spec_expression_tokens(condition);
    let middle = seq![spec_plain(TokenKind::RParen), spec_plain(TokenKind::LSquirly)];
    let tb = spec_block_tokens(consequence, 0);
    let closing = seq![spec_plain(TokenKind::RSquirly)];
    let otherwise = match alternative {
        Some(block) => seq![spec_plain(TokenKind::Else), spec_plain(TokenKind::LSquirly)]
            + spec_block_tokens(block, 0) + closing,
        None => Seq::<SpecToken>::empty(),
    };
    assert(spec_expression_tokens(e) =~= head + (tc + (middle + ((tb + closing) + otherwise))));
    lemma_stands_split(ts, k, head, tc + (middle + ((tb + closing) + otherwise)));
    lemma_stands_split(ts, k + 2, tc, middle + ((tb + closing) + otherwise));
    lemma_stands_split(ts, k + 2 + tc.len(), middle, (tb + closing) + otherwise);
    lemma_stands_split(ts, k + 4 + tc.len(), tb + closing, otherwise);
    lemma_stands_index(ts, k, head, 0);
    lemma_stands_index(ts, k, head, 1);
    lemma_stands_index(ts, k + 2 + tc.len(), middle, 0);
    lemma_stands_index(ts, k + 2 + tc.len(), middle, 1);
    let close_brace = k + 4 + tc.len() + tb.len();
    match alternative {
        Some(block) => {
            let ta = spec_block_tokens(block, 0);
            let opening = seq![spec_plain(TokenKind::Else), spec_plain(TokenKind::LSquirly)];
            assert(otherwise =~= opening + (ta + closing));
            lemma_stands_split(ts, close_brace + 1, opening, ta + closing);
            lemma_stands_index(ts, close_brace + 1, opening, 0);
            lemma_stands_index(ts, close_brace + 1, opening, 1);
        },
        None => {},
    }
}

/// The canonical token form of a conditional reads back as one operand.
pub proof fn lemma_conditional_round_trip(
    e: SpecExpression,
    ts: Seq<SpecToken>,
    k: int,
    errors: Seq<Seq<char>>,
)
    requires
        spec_canonical(e),
        e is Conditional,
        spec_stands_at(ts, k, spec_expression_tokens(e)),
        spec_no_else_at(ts, k + spec_expression_tokens(e).len()),
    ensures
        spec_expression_tokens(e).len() >= 1,
        spec_parse_prefix(spec_parser_at(ts, k, errors)) == (
            Ok::<SpecExpression, Seq<char>>(e),
            spec_parser_at(ts, k + spec_expression_tokens(e).len() - 1, errors),
        ),
    decreases e, 1nat,
{
    let condition = *e->condition;
    let consequence = e->consequence;
    let alternative = e->alternative;
    lemma_conditional_layout(e, ts, k);
    lemma_tokens_start(e);
    lemma_tokens_start(condition);
    let tc = spec_expression_tokens(condition);
    let tb = spec_block_tokens(consequence, 0);
    let end_condition = k + 1 + tc.len();
    let open_brace = end_condition + 2;
    let close_brace = open_brace + 1 + tb.len();
    lemma_parser_at(ts, k, errors);
    lemma_parser_at(ts, k + 1, errors);
    lemma_parser_at(ts, end_condition, errors);
    lemma_parser_at(ts, end_condition + 1, errors);
    lemma_parser_at(ts, open_brace, errors);
    lemma_parser_at(ts, close_brace, errors);
    lemma_round_trip(condition, ts, k + 2, errors, Precedence::Lowest);
    lemma_loop_stops(spec_parser_at(ts, end_condition, errors), condition, Precedence::Lowest);
    lemma_block_round_trip(consequence, ts, open_brace, errors);
    lemma_prefix_conditional(spec_parser_at(ts, k, errors));
    match alternative {
        Some(block) => {
            let ta = spec_block_tokens(block, 0);
            lemma_parser_at(ts, close_brace + 1, errors);
            lemma_parser_at(ts, close_brace + 2, errors);
            lemma_block_round_trip(block, ts, close_brace + 2, errors);
            lemma_conditional_with_else(
                spec_parser_at(ts, k, errors),
                condition,
                spec_parser_at(ts, end_condition, errors),
                consequence,
                spec_parser_at(ts, close_brace, errors),
                block,
                spec_parser_at(ts, close_brace + 3 + ta.len(), errors),
            );
        },
        None => {
            lemma_conditional_without_else(
                spec_parser_at(ts, k, errors),
                condition,
                spec_parser_at(ts, end_condition, errors),
                consequence,
                spec_parser_at(ts, close_brace, errors),
            );
        },
    }
}

/// The parameters of a function literal read back.
pub proof fn lemma_parameters_round_trip(
    parameters: Seq<SpecIdentifier>,
    ts: Seq<SpecToken>,
    k: int,
    errors: Seq<Seq<char>>,
)
    requires
        spec_canonical_identifiers(parameters),
        0 <= k < ts.len(),
        spec_stands_at(
            ts,
            k + 1,
            spec_parameter_tokens(parameters, 0) + seq![spec_plain(TokenKind::RParen)],
        ),
    ensures
        spec_parse_parameters(spec_parser_at(ts, k, errors)) == (
            Ok::<Seq<SpecIdentifier>, Seq<char>>(parameters),
            spec_parser_at(ts, k + 1 + spec_parameter_tokens(parameters, 0).len(), errors),
        ),
{
    let tp = spec_parameter_tokens(parameters, 0);
    let closing = seq![spec_plain(TokenKind::RParen)];
    lemma_parser_at(ts, k, errors);
    lemma_parser_at(ts, k + 1, errors);
    lemma_stands_index(ts, k + 1, tp + closing, 0);
    if parameters.len() == 0 {
        assert(parameters =~= Seq::<SpecIdentifier>::empty());
    } else {
        let first = parameters[0];
        let rest = spec_parameter_tail_tokens(parameters, 1);
        assert(tp =~= seq![first.token] + rest);
        assert(tp + closing =~= seq![first.token] + (rest + closing));
        lemma_stands_split(ts, k + 1, seq![first.token], rest + closing);
        assert(parameters.take(1) =~= seq![first]);
        lemma_parameters_tail_round_trip(parameters, 1, ts, k + 1, errors);
    }
}

/// The tokens behind the parameter before position `i`: a comma and the
/// parameters from `i` on, or nothing where the parameters end.
pub open spec fn spec_parameter_tail_tokens(ids: Seq<SpecIdentifier>, i: int) -> Seq<SpecToken> {
    if i < ids.len() {
        seq![spec_plain(TokenKind::Comma)] + spec_parameter_tokens(ids, i)
    } else {
        Seq::empty()
    }
}

/// The rest of the parameters of a function literal reads back.
pub proof fn lemma_parameters_tail_round_trip(
    parameters: Seq<SpecIdentifier>,
    i: int,
    ts: Seq<SpecToken>,
    j: int,
    errors: Seq<Seq<char>>,
)
    requires
        spec_canonical_identifiers(parameters),
        1 <= i <= parameters.len(),
        0 <= j < ts.len(),
        spec_stands_at(
            ts,
            j + 1,
            spec_parameter_tail_tokens(parameters, i) + seq![spec_plain(TokenKind::RParen)],
        ),
    ensures
        spec_parse_parameters_tail(spec_parser_at(ts, j, errors), parameters.take(i)) == (
            Ok::<Seq<SpecIdentifier>, Seq<char>>(parameters),
            spec_parser_at(ts, j + 1 + spec_parameter_tail_tokens(parameters, i).len(), errors),
        ),
    decreases parameters.len() - i,
{
    let tail = spec_parameter_tail_tokens(parameters, i);
    let closing = seq![spec_plain(TokenKind::RParen)];
    lemma_parser_at(ts, j, errors);
    lemma_parser_at(ts, j + 1, errors);
    lemma_stands_index(ts, j + 1, tail + closing, 0);
    if i == parameters.len() {
        assert(parameters.take(i) =~= parameters);
    } else {
        let parameter = parameters[i];
        let comma = seq![spec_plain(TokenKind::Comma)];
        let rest = spec_parameter_tail_tokens(parameters, i + 1);
        assert(spec_parameter_tokens(parameters, i) =~= seq![parameter.token] + rest);
        assert(tail + closing =~= comma + (seq![parameter.token] + (rest + closing)));
        lemma_stands_split(ts, j + 1, comma, seq![parameter.token] + (rest + closing));
        lemma_stands_split(ts, j + 2, seq![parameter.token], rest + closing);
        lemma_stands_index(ts, j + 2, seq![parameter.token], 0);
        lemma_parser_at(ts, j + 2, errors);
        assert(parameters.take(i).push(parameter) =~= parameters.take(i + 1));
        lemma_parameters_tail_round_trip(parameters, i + 1, ts, j + 2, errors);
    }
}

/// The canonical token form of a block between braces reads back as the
/// block, and the parser stands at the closing brace.
pub proof fn lemma_block_round_trip(
    statements: Seq<SpecStatement>,
    ts: Seq<SpecToken>,
    k: int,
    errors: Seq<Seq<char>>,
)
    requires
        spec_canonical_block(statements),
        0 <= k < ts.len(),
        spec_stands_at(
            ts,
            k + 1,
            spec_block_tokens(statements, 0) + seq![spec_plain(TokenKind::RSquirly)],
        ),
    ensures
        spec_parse_block(spec_parser_at(ts, k, errors)) == (
            Ok::<Seq<SpecStatement>, Seq<char>>(statements),
            spec_parser_at(ts, k + 1 + spec_block_tokens(statements, 0).len(), errors),
        ),
    decreases statements, statements.len() + 1,
{
    reveal(spec_parse_block);
    lemma_parser_at(ts, k, errors);
    assert(statements.take(0) =~= Seq::<SpecStatement>::empty());
    lemma_block_statements_round_trip(statements, 0, ts, k + 1, errors);
}

/// Sequences may be joined in any grouping.
pub proof fn lemma_join_grouping(a: Seq<SpecToken>, b: Seq<SpecToken>, c: Seq<SpecToken>)
    ensures
        (a + b) + c == a + (b + c),
{
    assert((a + b) + c =~= a + (b + c));
}

/// The rest of the canonical token form of a block reads back as the rest
/// of the block.
pub proof fn lemma_block_statements_round_trip(
    statements: Seq<SpecStatement>,
    i: int,
    ts: Seq<SpecToken>,
    j: int,
    errors: Seq<Seq<char>>,
)
    requires
        spec_canonical_block(statements),
        0 <= i <= statements.len(),
        spec_stands_at(
            ts,
            j,
            spec_block_tokens(statements, i) + seq![spec_plain(TokenKind::RSquirly)],
        ),
    ensures
        spec_parse_block_statements(spec_parser_at(ts, j, errors), statements.take(i)) == (
            Ok::<Seq<SpecStatement>, Seq<char>>(statements),
            spec_parser_at(ts, j + spec_block_tokens(statements, i).len(), errors),
        ),
    decreases statements, statements.len() - i,
{
    let tb = spec_block_tokens(statements, i);
    let closing = seq![spec_plain(TokenKind::RSquirly)];
    lemma_parser_at(ts, j, errors);
    lemma_block_tokens(statements, i);
    if i == statements.len() {
        lemma_stands_index(ts, j, tb + closing, 0);
        assert(statements.take(i) == statements) by {
            assert(statements.take(i) =~= statements);
        }
        lemma_block_ends(spec_parser_at(ts, j, errors), statements);
    } else {
        let statement = statements[i];
        let tokens = spec_statement_tokens(statement);
        let rest = spec_block_tokens(statements, i + 1);
        lemma_join_grouping(tokens, rest, closing);
        lemma_stands_split(ts, j, tokens, rest + closing);
        lemma_statement_round_trip(statement, ts, j, errors);
        lemma_stands_index(ts, j, tokens, 0);
        lemma_parser_at(ts, j + tokens.len() - 1, errors);
        lemma_parser_at(ts, j + tokens.len(), errors);
        assert(statements.take(i).push(statement) == statements.take(i + 1)) by {
            assert(statements.take(i).push(statement) =~= statements.take(i + 1));
        }
        lemma_block_goes_on(
            spec_parser_at(ts, j, errors),
            statements.take(i),
            statement,
            spec_parser_at(ts, j + tokens.len() - 1, errors),
        );
        lemma_block_statements_round_trip(statements, i + 1, ts, j + tokens.len(), errors);
    }
}

/// The canonical token form of a statement reads back as the statement, and
/// the parser stands at the semicolon that ends it.
pub proof fn lemma_statement_round_trip(
    s: SpecStatement,
    ts: Seq<SpecToken>,
    j: int,
    errors: Seq<Seq<char>>,
)
    requires
        spec_canonical_statement(s),
        spec_stands_at(ts, j, spec_statement_tokens(s)),
    ensures
        spec_statement_tokens(s).len() >= 2,
        spec_starts_statement(spec_statement_tokens(s)[0].kind),
        spec_parse_statement(spec_parser_at(ts, j, errors)) == (
            Some(s),
            spec_parser_at(ts, j + spec_statement_tokens(s).len() - 1, errors),
        ),
    decreases s, 1nat,
{
    match s {
        SpecStatement::Let { name, value } => {
            lemma_let_round_trip(s, ts, j, errors);
        },
        SpecStatement::Return { value } => {
            lemma_return_round_trip(s, ts, j, errors);
        },
        SpecStatement::Expression { value } => {
            lemma_expression_statement_round_trip(s, ts, j, errors);
        },
    }
}

/// The canonical token form of a `return` statement reads back as the
/// statement.
pub proof fn lemma_return_round_trip(
    s: SpecStatement,
    ts: Seq<SpecToken>,
    j: int,
    errors: Seq<Seq<char>>,
)
    requires
        s is Return,
        spec_canonical_statement(s),
        spec_stands_at(ts, j, spec_statement_tokens(s)),
    ensures
        spec_statement_tokens(s).len() >= 2,
        spec_starts_statement(spec_statement_tokens(s)[0].kind),
        spec_parse_statement(spec_parser_at(ts, j, errors)) == (
            Some(s),
            spec_parser_at(ts, j + spec_statement_tokens(s).len() - 1, errors),
        ),
    decreases s, 0nat,
{
    reveal(spec_canonical_statement);
    reveal(spec_canonical);
    reveal(spec_statement_tokens);
    reveal(spec_expression_tokens);
    let value = s->Return_value;
    let tv = spec_expression_tokens(value);
    let head = seq![spec_plain(TokenKind::Return)];
    let closing = seq![spec_plain(TokenKind::Semicolon)];
    lemma_tokens_start(value);
    lemma_join_grouping(head, tv, closing);
    lemma_stands_split(ts, j, head, tv + closing);
    lemma_stands_split(ts, j + 1, tv, closing);
    lemma_stands_index(ts, j, head, 0);
    lemma_stands_index(ts, j + 1 + tv.len(), closing, 0);
    let last = j + tv.len();
    lemma_parser_at(ts, j, errors);
    lemma_parser_at(ts, j + 1, errors);
    lemma_parser_at(ts, last, errors);
    lemma_parser_at(ts, last + 1, errors);
    lemma_round_trip(value, ts, j + 1, errors, Precedence::Lowest);
    lemma_loop_stops(spec_parser_at(ts, last, errors), value, Precedence::Lowest);
    lemma_statement_return(
        spec_parser_at(ts, j, errors),
        value,
        spec_parser_at(ts, last, errors),
    );
}

/// The canonical token form of an expression statement reads back as the
/// statement.
pub proof fn lemma_expression_statement_round_trip(
    s: SpecStatement,
    ts: Seq<SpecToken>,
    j: int,
    errors: Seq<Seq<char>>,
)
    requires
        s is Expression,
        spec_canonical_statement(s),
        spec_stands_at(ts, j, spec_statement_tokens(s)),
    ensures
        spec_statement_tokens(s).len() >= 2,
        spec_starts_statement(spec_statement_tokens(s)[0].kind),
        spec_parse_statement(spec_parser_at(ts, j, errors)) == (
            Some(s),
            spec_parser_at(ts, j + spec_statement_tokens(s).len() - 1, errors),
        ),
    decreases s, 0nat,
{
    reveal(spec_canonical_statement);
    reveal(spec_canonical);
    reveal(spec_statement_tokens);
    reveal(spec_expression_tokens);
    let value = s->Expression_value;
    let tv = spec_expression_tokens(value);
    let closing = seq![spec_plain(TokenKind::Semicolon)];
    lemma_tokens_start(value);
    lemma_stands_split(ts, j, tv, closing);
    lemma_stands_index(ts, j, tv, 0);
    lemma_stands_index(ts, j + tv.len(), closing, 0);
    let last = j + tv.len() - 1;
    lemma_parser_at(ts, j, errors);
    lemma_parser_at(ts, last, errors);
    lemma_parser_at(ts, last + 1, errors);
    lemma_round_trip(value, ts, j, errors, Precedence::Lowest);
    lemma_loop_stops(spec_parser_at(ts, last, errors), value, Precedence::Lowest);
    lemma_statement_expression(
        spec_parser_at(ts, j, errors),
        value,
        spec_parser_at(ts, last, errors),
    );
}

/// The canonical token form of a `let` statement holds its parts at their
/// places.
pub proof fn lemma_let_layout(s: SpecStatement, ts: Seq<SpecToken>, j: int)
    requires
        s is Let,
        spec_canonical_statement(s),
        spec_stands_at(ts, j, spec_statement_tokens(s)),
    ensures
        spec_statement_tokens(s).len() == spec_expression_tokens(s->Let_value).len() + 4,
        spec_statement_tokens(s)[0].kind == TokenKind::Let,
        0 <= j,
        j + spec_statement_tokens(s).len() <= ts.len(),
        ts[j] == spec_plain(TokenKind::Let),
        ts[j + 1] == s->name.token,
        ts[j + 2] == spec_plain(TokenKind::Assign),
        spec_stands_at(ts, j + 3, spec_expression_tokens(s->Let_value)),
        ts[j + 3 + spec_expression_tokens(s->Let_value).len()] == spec_plain(TokenKind::Semicolon),
        spec_canonical_identifier(s->name),
        spec_canonical(spec_unnamed(s->Let_value)),
        spec_expression_tokens(spec_unnamed(s->Let_value)) == spec_expression_tokens(
            s->Let_value,
        ),
        spec_named(spec_unnamed(s->Let_value), s->name.token.text) == s->Let_value,
        s->Let_value is FunctionLiteral ==> spec_canonical_identifiers(
            s->Let_value->parameters,
        ) && spec_canonical_block(s->Let_value->body) && spec_expression_tokens(s->Let_value)
            == spec_function_tokens(s->Let_value->parameters, s->Let_value->body),
{
    reveal(spec_canonical_statement);
    reveal(spec_canonical);
    reveal(spec_canonical_block);
    reveal(spec_statement_tokens);
    reveal(spec_expression_tokens);
    reveal(spec_block_tokens);
    let name = s->name;
    let value = s->Let_value;
    let tv = spec_expression_tokens(value);
    let head = seq![spec_plain(TokenKind::Let), name.token, spec_plain(TokenKind::Assign)];
    let closing = seq![spec_plain(TokenKind::Semicolon)];
    lemma_join_grouping(head, tv, closing);
    lemma_stands_split(ts, j, head, tv + closing);
    lemma_stands_split(ts, j + 3, tv, closing);
    lemma_stands_index(ts, j, head, 0);
    lemma_stands_index(ts, j, head, 1);
    lemma_stands_index(ts, j, head, 2);
    lemma_stands_index(ts, j + 3 + tv.len(), closing, 0);
    assert(spec_expression_tokens(spec_unnamed(value)) =~= tv);
    if value is FunctionLiteral {
        assert(tv =~= spec_function_tokens(value->parameters, value->body));
    }
}

/// The canonical token form of a `let` statement reads back as the
/// statement: a function literal gets the name that the statement binds.
pub proof fn lemma_let_round_trip(s: SpecStatement, ts: Seq<SpecToken>, j: int, errors: Seq<Seq<char>>)
    requires
        s is Let,
        spec_canonical_statement(s),
        spec_stands_at(ts, j, spec_statement_tokens(s)),
    ensures
        spec_statement_tokens(s).len() >= 2,
        spec_starts_statement(spec_statement_tokens(s)[0].kind),
        spec_parse_statement(spec_parser_at(ts, j, errors)) == (
            Some(s),
            spec_parser_at(ts, j + spec_statement_tokens(s).len() - 1, errors),
        ),
    decreases s, 0nat,
{
    let name = s->name;
    let value = s->Let_value;
    let unnamed = spec_unnamed(value);
    let tv = spec_expression_tokens(value);
    lemma_let_layout(s, ts, j);
    let last = j + 2 + tv.len();
    lemma_parser_at(ts, j, errors);
    lemma_parser_at(ts, j + 1, errors);
    lemma_parser_at(ts, j + 2, errors);
    lemma_parser_at(ts, j + 3, errors);
    lemma_parser_at(ts, last, errors);
    lemma_parser_at(ts, last + 1, errors);
    match value {
        SpecExpression::FunctionLiteral { parameters, body, name: given } => {
            lemma_function_round_trip(parameters, body, ts, j + 3, errors);
            lemma_expression_from_operand(
                spec_parser_at(ts, j + 3, errors),
                Precedence::Lowest,
                unnamed,
                spec_parser_at(ts, last, errors),
            );
        },
        _ => {
            lemma_round_trip(value, ts, j + 3, errors, Precedence::Lowest);
        },
    }
    lemma_loop_stops(spec_parser_at(ts, last, errors), unnamed, Precedence::Lowest);
    lemma_statement_binds(
        spec_parser_at(ts, j, errors),
        unnamed,
        spec_parser_at(ts, last, errors),
    );
}

/// The canonical token form of a canonical program reads back as exactly
/// the program, to the end of the input and without an error.
pub proof fn lemma_program_round_trip(statements: Seq<SpecStatement>, errors: Seq<Seq<char>>)
    requires
        spec_canonical_block(statements),
    ensures
        spec_parse_program(SpecParser { tokens: spec_block_tokens(statements, 0), errors }) == (
            statements,
            SpecParser { tokens: Seq::<SpecToken>::empty(), errors },
        ),
{
    let ts = spec_block_tokens(statements, 0);
    assert(ts.subrange(0, ts.len() as int) =~= ts);
    assert(statements.take(0) =~= Seq::<SpecStatement>::empty());
    lemma_program_statements_round_trip(statements, 0, ts, 0, errors);
    assert(ts.skip(0) =~= ts);
    assert(ts.skip(ts.len() as int) =~= Seq::<SpecToken>::empty());
}

/// The rest of the canonical token form of a program reads back as the rest
/// of the program.
pub proof fn lemma_program_statements_round_trip(
    statements: Seq<SpecStatement>,
    i: int,
    ts: Seq<SpecToken>,
    j: int,
    errors: Seq<Seq<char>>,
)
    requires
        spec_canonical_block(statements),
        0 <= i <= statements.len(),
        spec_stands_at(ts, j, spec_block_tokens(statements, i)),
        j + spec_block_tokens(statements, i).len() == ts.len(),
    ensures
        spec_parse_program_statements(spec_parser_at(ts, j, errors), statements.take(i)) == (
            statements,
            spec_parser_at(ts, ts.len() as int, errors),
        ),
    decreases statements.len() - i,
{
    reveal(spec_canonical_block);
    reveal(spec_canonical_statement);
    reveal(spec_block_tokens);
    reveal(spec_statement_tokens);
    let tb = spec_block_tokens(statements, i);
    lemma_parser_at(ts, j, errors);
    if i == statements.len() {
        assert(statements.take(i) =~= statements);
    } else {
        let statement = statements[i];
        let tokens = spec_statement_tokens(statement);
        let rest = spec_block_tokens(statements, i + 1);
        lemma_stands_split(ts, j, tokens, rest);
        lemma_statement_round_trip(statement, ts, j, errors);
        lemma_stands_index(ts, j, tokens, 0);
        lemma_parser_at(ts, j + tokens.len() - 1, errors);
        lemma_parser_at(ts, j + tokens.len(), errors);
        assert(statements.take(i).push(statement) =~= statements.take(i + 1));
        lemma_program_statements_round_trip(statements, i + 1, ts, j + tokens.len(), errors);
    }
}

/// The canonical token form of a canonical expression, alone or before a
/// token that ends it, reads back as exactly the expression, and the parser
/// stands at its last token with no error added.
pub proof fn lemma_canonical_form_reads_back(
    e: SpecExpression,
    rest: Seq<SpecToken>,
    errors: Seq<Seq<char>>,
    precedence: Precedence,
)
    requires
        spec_canonical(e),
        rest.len() == 0 || spec_ends_operand(rest[0]),
        precedence.spec_level() < Precedence::Call.spec_level(),
    ensures
        spec_expression_tokens(e).len() >= 1,
        spec_parse_expression(
            SpecParser { tokens: spec_expression_tokens(e) + rest, errors },
            precedence,
        ) == (
            Ok::<SpecExpression, Seq<char>>(e),
            SpecParser { tokens: seq![spec_expression_tokens(e).last()] + rest, errors },
        ),
{
    let te = spec_expression_tokens(e);
    let ts = te + rest;
    lemma_tokens_start(e);
    assert(ts.subrange(0, te.len() as int) =~= te);
    if rest.len() > 0 {
        assert(ts[te.len() as int] == rest[0]);
    }
    lemma_round_trip(e, ts, 0, errors, precedence);
    let last = te.len() - 1;
    lemma_parser_at(ts, last, errors);
    lemma_loop_stops(spec_parser_at(ts, last, errors), e, precedence);
    assert(ts.skip(0) =~= ts);
    assert(ts.skip(last) =~= seq![te.last()] + rest);
}

} // verus!
