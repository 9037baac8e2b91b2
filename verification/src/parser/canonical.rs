//! The canonical token form of a program: the tokens of a source that the
//! parser reads as exactly that program. Operators stand between
//! parentheses with their operands, as the printer sets them.

use crate::lexer::token::{spec_plain, SpecToken, TokenKind};
use crate::parser::ast::{SpecExpression, SpecIdentifier, SpecPrimitive, SpecStatement};
use crate::parser::grammar::spec_is_binary_operator;
use crate::text::{
    spec_all_digits, spec_decimal, spec_digit_char, spec_digit_value, spec_digits,
    spec_digits_value, spec_is_digit, spec_parse_integer,
};
use vstd::prelude::*;

verus! {

/// Whether the identifier is one that the parser makes: it has the token of
/// an identifier and holds the text of its token.
pub open spec fn spec_canonical_identifier(i: SpecIdentifier) -> bool {
    i.token.kind == TokenKind::Ident && i.token.text == i.value
}

/// Whether each of the identifiers is canonical.
pub open spec fn spec_canonical_identifiers(ids: Seq<SpecIdentifier>) -> bool {
    forall|i: int| 0 <= i < ids.len() ==> spec_canonical_identifier(#[trigger] ids[i])
}

/// Whether the expression is one that the parser makes of some source: a
/// name holds the text of its token, an integer literal is not negative, an
/// operator is the plain token of its kind, and a function literal has no
/// name, for a function literal gets its name from the `let` statement that
/// binds it.
#[verifier::opaque]
pub open spec fn spec_canonical(e: SpecExpression) -> bool
    decreases e, 0nat,
{
    match e {
        SpecExpression::Identifier(i) => spec_canonical_identifier(i),
        SpecExpression::Primitive(p) => match p {
            SpecPrimitive::Integer(n) => n >= 0,
            _ => true,
        },
        SpecExpression::Prefix { token, right } => (token == spec_plain(TokenKind::Bang) || token
            == spec_plain(TokenKind::Minus)) && spec_canonical(*right),
        SpecExpression::Infix { token, left, right } => spec_is_binary_operator(token.kind)
            && token == spec_plain(token.kind) && spec_canonical(*left) && spec_canonical(*right),
        SpecExpression::Conditional { condition, consequence, alternative } => spec_canonical(
            *condition,
        ) && spec_canonical_block(consequence) && match alternative {
            Some(block) => spec_canonical_block(block),
            None => true,
        },
        SpecExpression::FunctionLiteral { parameters, body, name } => name is None
            && spec_canonical_identifiers(parameters) && spec_canonical_block(body),
        SpecExpression::FunctionCall { function, arguments } => spec_canonical(*function)
            && spec_all_canonical(arguments),
        SpecExpression::ArrayLiteral { elements } => spec_all_canonical(elements),
        SpecExpression::Index { left, index } => spec_canonical(*left) && spec_canonical(*index),
        SpecExpression::HashMapLiteral { pairs } => spec_all_pairs_canonical(pairs),
    }
}

/// Whether each of the expressions is canonical.
#[verifier::opaque]
pub open spec fn spec_all_canonical(es: Seq<SpecExpression>) -> bool
    decreases es, 0nat,
{
    forall|i: int| 0 <= i < es.len() ==> spec_canonical(#[trigger] es[i])
}

/// Whether the key and the value of each of the pairs are canonical.
#[verifier::opaque]
pub open spec fn spec_all_pairs_canonical(pairs: Seq<(SpecExpression, SpecExpression)>) -> bool
    decreases pairs, 0nat,
{
    forall|i: int|
        0 <= i < pairs.len() ==> spec_canonical((#[trigger] pairs[i]).0) && spec_canonical(
            pairs[i].1,
        )
}

/// Whether each of the statements is canonical.
#[verifier::opaque]
pub open spec fn spec_canonical_block(statements: Seq<SpecStatement>) -> bool
    decreases statements, 0nat,
{
    forall|i: int| 0 <= i < statements.len() ==> spec_canonical_statement(#[trigger] statements[i])
}

/// Whether the statement is one that the parser makes of some source. The
/// value of a `let` statement, where it is a function literal, has the name
/// that the statement binds.
#[verifier::opaque]
pub open spec fn spec_canonical_statement(s: SpecStatement) -> bool
    decreases s, 0nat,
{
    match s {
        SpecStatement::Let { name, value } => spec_canonical_identifier(name) && match value {
            SpecExpression::FunctionLiteral { parameters, body, name: given } => given == Some(
                name.value,
            ) && spec_canonical_identifiers(parameters) && spec_canonical_block(body),
            _ => spec_canonical(value),
        },
        SpecStatement::Return { value } => spec_canonical(value),
        SpecStatement::Expression { value } => spec_canonical(value),
    }
}

/// The tokens of the identifiers from position `from` on, with commas
/// between them.
pub open spec fn spec_parameter_tokens(ids: Seq<SpecIdentifier>, from: int) -> Seq<SpecToken>
    decreases ids.len() - from,
{
    if from < 0 || from >= ids.len() {
        Seq::empty()
    } else if from == ids.len() - 1 {
        seq![ids[from].token]
    } else {
        seq![ids[from].token, spec_plain(TokenKind::Comma)] + spec_parameter_tokens(ids, from + 1)
    }
}

/// The canonical token form of an expression: a prefix operator, a binary
/// operator and an index stand between parentheses with their operands, and
/// nothing else does. The name of a function literal has no token.
#[verifier::opaque]
pub open spec fn spec_expression_tokens(e: SpecExpression) -> Seq<SpecToken>
    decreases e, 0nat,
{
    match e {
        SpecExpression::Identifier(i) => seq![i.token],
        SpecExpression::Primitive(p) => match p {
            SpecPrimitive::Integer(n) => seq![
                SpecToken { kind: TokenKind::Int, text: spec_decimal(n as int) },
            ],
            SpecPrimitive::Boolean(b) => if b {
                seq![spec_plain(TokenKind::True)]
            } else {
                seq![spec_plain(TokenKind::False)]
            },
            SpecPrimitive::Text(s) => seq![SpecToken { kind: TokenKind::String, text: s }],
        },
        SpecExpression::Prefix { token, right } => seq![spec_plain(TokenKind::LParen), token]
            + spec_expression_tokens(*right) + seq![spec_plain(TokenKind::RParen)],
        SpecExpression::Infix { token, left, right } => seq![spec_plain(TokenKind::LParen)]
            + spec_expression_tokens(*left) + seq![token] + spec_expression_tokens(*right)
            + seq![spec_plain(TokenKind::RParen)],
        SpecExpression::Conditional { condition, consequence, alternative } => seq![
            spec_plain(TokenKind::If),
            spec_plain(TokenKind::LParen),
        ] + spec_expression_tokens(*condition) + seq![
            spec_plain(TokenKind::RParen),
            spec_plain(TokenKind::LSquirly),
        ] + spec_block_tokens(consequence, 0) + seq![spec_plain(TokenKind::RSquirly)]
            + match alternative {
            Some(block) => seq![spec_plain(TokenKind::Else), spec_plain(TokenKind::LSquirly)]
                + spec_block_tokens(block, 0) + seq![spec_plain(TokenKind::RSquirly)],
            None => Seq::empty(),
        },
        SpecExpression::FunctionLiteral { parameters, body, name } => seq![
            spec_plain(TokenKind::Function),
            spec_plain(TokenKind::LParen),
        ] + spec_parameter_tokens(parameters, 0) + seq![
            spec_plain(TokenKind::RParen),
            spec_plain(TokenKind::LSquirly),
        ] + spec_block_tokens(body, 0) + seq![spec_plain(TokenKind::RSquirly)],
        SpecExpression::FunctionCall { function, arguments } => spec_expression_tokens(*function)
            + seq![spec_plain(TokenKind::LParen)] + spec_list_tokens(arguments, 0)
            + seq![spec_plain(TokenKind::RParen)],
        SpecExpression::ArrayLiteral { elements } => seq![spec_plain(TokenKind::LBracket)]
            + spec_list_tokens(elements, 0) + seq![spec_plain(TokenKind::RBracket)],
        SpecExpression::Index { left, index } => seq![spec_plain(TokenKind::LParen)]
            + spec_expression_tokens(*left) + seq![spec_plain(TokenKind::LBracket)]
            + spec_expression_tokens(*index) + seq![
            spec_plain(TokenKind::RBracket),
            spec_plain(TokenKind::RParen),
        ],
        SpecExpression::HashMapLiteral { pairs } => seq![spec_plain(TokenKind::LSquirly)]
            + spec_pairs_tokens(pairs, 0) + seq![spec_plain(TokenKind::RSquirly)],
    }
}

/// The canonical token form of the expressions from position `from` on,
/// with commas between them.
#[verifier::opaque]
pub open spec fn spec_list_tokens(es: Seq<SpecExpression>, from: int) -> Seq<SpecToken>
    decreases es, es.len() - from,
{
    if from < 0 || from >= es.len() {
        Seq::empty()
    } else if from == es.len() - 1 {
        spec_expression_tokens(es[from])
    } else {
        spec_expression_tokens(es[from]) + seq![spec_plain(TokenKind::Comma)] + spec_list_tokens(
            es,
            from + 1,
        )
    }
}

/// The canonical token form of the pairs from position `from` on: key,
/// colon, value, with commas between the pairs.
#[verifier::opaque]
pub open spec fn spec_pairs_tokens(pairs: Seq<(SpecExpression, SpecExpression)>, from: int) -> Seq<
    SpecToken,
>
    decreases pairs, pairs.len() - from,
{
    if from < 0 || from >= pairs.len() {
        Seq::empty()
    } else if from == pairs.len() - 1 {
        spec_expression_tokens(pairs[from].0) + seq![spec_plain(TokenKind::Colon)]
            + spec_expression_tokens(pairs[from].1)
    } else {
        spec_expression_tokens(pairs[from].0) + seq![spec_plain(TokenKind::Colon)]
            + spec_expression_tokens(pairs[from].1) + seq![spec_plain(TokenKind::Comma)]
            + spec_pairs_tokens(pairs, from + 1)
    }
}

/// The canonical token form of the statements from position `from` on, one
/// behind the other.
#[verifier::opaque]
pub open spec fn spec_block_tokens(statements: Seq<SpecStatement>, from: int) -> Seq<SpecToken>
    decreases statements, statements.len() - from,
{
    if from < 0 || from >= statements.len() {
        Seq::empty()
    } else {
        spec_statement_tokens(statements[from]) + spec_block_tokens(statements, from + 1)
    }
}

/// The canonical token form of a statement. It ends with a semicolon.
#[verifier::opaque]
pub open spec fn spec_statement_tokens(s: SpecStatement) -> Seq<SpecToken>
    decreases s, 0nat,
{
    match s {
        SpecStatement::Let { name, value } => seq![
            spec_plain(TokenKind::Let),
            name.token,
            spec_plain(TokenKind::Assign),
        ] + spec_expression_tokens(value) + seq![spec_plain(TokenKind::Semicolon)],
        SpecStatement::Return { value } => seq![spec_plain(TokenKind::Return)]
            + spec_expression_tokens(value) + seq![spec_plain(TokenKind::Semicolon)],
        SpecStatement::Expression { value } => spec_expression_tokens(value) + seq![
            spec_plain(TokenKind::Semicolon),
        ],
    }
}

/// Whether an expression can start with a token of this kind.
pub open spec fn spec_starts_expression(kind: TokenKind) -> bool {
    kind == TokenKind::Ident || kind == TokenKind::Int || kind == TokenKind::True || kind
        == TokenKind::False || kind == TokenKind::String || kind == TokenKind::LParen || kind
        == TokenKind::LBracket || kind == TokenKind::LSquirly || kind == TokenKind::If || kind
        == TokenKind::Function
}

/// The canonical token form of a canonical expression is not empty and
/// starts with a token that an expression can start with.
pub proof fn lemma_tokens_start(e: SpecExpression)
    requires
        spec_canonical(e),
    ensures
        spec_expression_tokens(e).len() >= 1,
        spec_starts_expression(spec_expression_tokens(e)[0].kind),
    decreases e,
{
    reveal(spec_canonical);
    reveal(spec_expression_tokens);
    match e {
        SpecExpression::FunctionCall { function, arguments } => {
            lemma_tokens_start(*function);
        },
        _ => {},
    }
}

/// The digits of a number are digits and denote the number.
pub proof fn lemma_digits_round_trip(n: nat)
    ensures
        spec_digits(n).len() >= 1,
        spec_all_digits(spec_digits(n)),
        spec_digits_value(spec_digits(n)) == n,
    decreases n,
{
    if n >= 10 {
        lemma_digits_round_trip(n / 10);
        let front = spec_digits(n / 10);
        let all = spec_digits(n);
        assert(all.drop_last() =~= front);
        assert(spec_is_digit(spec_digit_char((n % 10) as int)));
        assert(all.last() as int - '0' as int == n % 10);
        assert forall|i: int| 0 <= i < all.len() implies spec_is_digit(#[trigger] all[i]) by {
            if i < front.len() {
                assert(all[i] == front[i]);
            }
        }
        assert(spec_digits_value(all) == spec_digits_value(all.drop_last()) * 10
            + spec_digit_value(all.last()));
    } else {
        let all = spec_digits(n);
        assert(all.drop_last() =~= Seq::<char>::empty());
        assert(spec_is_digit(spec_digit_char(n as int)));
        assert(all.last() as int - '0' as int == n);
        assert(spec_digits_value(all.drop_last()) == 0);
        assert(spec_digits_value(all) == spec_digits_value(all.drop_last()) * 10
            + spec_digit_value(all.last()));
    }
}

/// An integer literal reads back the number that was written.
pub proof fn lemma_decimal_round_trip(n: i64)
    requires
        n >= 0,
    ensures
        spec_parse_integer(spec_decimal(n as int)) == Some(n),
{
    lemma_digits_round_trip(n as nat);
}

/// The tokens of a function literal with the given parameters and body.
pub open spec fn spec_function_tokens(
    parameters: Seq<SpecIdentifier>,
    body: Seq<SpecStatement>,
) -> Seq<SpecToken> {
    seq![spec_plain(TokenKind::Function), spec_plain(TokenKind::LParen)] + spec_parameter_tokens(
        parameters,
        0,
    ) + seq![spec_plain(TokenKind::RParen), spec_plain(TokenKind::LSquirly)] + spec_block_tokens(
        body,
        0,
    ) + seq![spec_plain(TokenKind::RSquirly)]
}

/// The canonical token form of the statements from a position on is that of
/// the statement at the position, and then that of those behind it; and
/// each statement of a canonical block is canonical.
pub proof fn lemma_block_tokens(statements: Seq<SpecStatement>, i: int)
    requires
        0 <= i <= statements.len(),
    ensures
        i == statements.len() ==> spec_block_tokens(statements, i) == Seq::<SpecToken>::empty(),
        i < statements.len() ==> spec_block_tokens(statements, i) == spec_statement_tokens(
            statements[i],
        ) + spec_block_tokens(statements, i + 1),
        i < statements.len() && spec_canonical_block(statements) ==> spec_canonical_statement(
            statements[i],
        ),
{
    reveal(spec_canonical_block);
    reveal(spec_canonical_statement);
    reveal(spec_block_tokens);
    reveal(spec_statement_tokens);
}

/// Whether a statement can start with a token of this kind.
pub open spec fn spec_starts_statement(kind: TokenKind) -> bool {
    kind == TokenKind::Let || kind == TokenKind::Return || spec_starts_expression(kind)
}

/// The value that a canonical `let` statement holds, as the parser reads it
/// before the statement names it: a function literal has no name yet.
pub open spec fn spec_unnamed(value: SpecExpression) -> SpecExpression {
    match value {
        SpecExpression::FunctionLiteral { parameters, body, name } => {
            SpecExpression::FunctionLiteral { parameters, body, name: None }
        },
        _ => value,
    }
}

} // verus!
