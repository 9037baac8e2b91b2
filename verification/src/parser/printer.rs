//! The canonical text of a syntax tree. Operators are printed with all
//! their parentheses, so the text shows how an expression was grouped.

use crate::parser::ast::{
    expression_model, expressions_model, identifiers_model, name_model, pairs_model,
    statements_model, ArrayLiteral, BlockStatement, Conditional, Expression, FunctionCall,
    FunctionLiteral, HashMapLiteral, Identifier, IndexExpression, InfixOperator, PrefixOperator,
    Primitive, Program, SpecExpression, SpecIdentifier, SpecPrimitive, SpecStatement, Statement,
};
use crate::text::{push_integer, spec_decimal};
use vstd::prelude::*;
use vstd::string::*;

verus! {

broadcast use vstd::std_specs::vec::axiom_vec_index_decreases;

/// The parts with `sep` between each two of them.
pub open spec fn spec_join(parts: Seq<Seq<char>>, sep: Seq<char>) -> Seq<char>
    decreases parts.len(),
{
    if parts.len() == 0 {
        Seq::empty()
    } else if parts.len() == 1 {
        parts[0]
    } else {
        spec_join(parts.drop_last(), sep) + sep + parts.last()
    }
}

/// The parts, each followed by a line end.
pub open spec fn spec_lines(parts: Seq<Seq<char>>) -> Seq<char>
    decreases parts.len(),
{
    if parts.len() == 0 {
        Seq::empty()
    } else {
        spec_lines(parts.drop_last()) + parts.last() + "\n"@
    }
}

/// The names of the identifiers.
pub open spec fn spec_identifier_texts(ids: Seq<SpecIdentifier>) -> Seq<Seq<char>> {
    Seq::new(ids.len(), |i: int| ids[i].value)
}

/// The text of a literal: an integer in decimal notation, `true` or
/// `false`, a string between double quotes.
pub open spec fn spec_primitive_text(p: SpecPrimitive) -> Seq<char> {
    match p {
        SpecPrimitive::Integer(n) => spec_decimal(n as int),
        SpecPrimitive::Boolean(b) => if b {
            "true"@
        } else {
            "false"@
        },
        SpecPrimitive::Text(s) => "\""@ + s + "\""@,
    }
}

/// The head of a function literal: `fn`, and the name between angle brackets
/// where the literal has one.
pub open spec fn spec_function_head(name: Option<Seq<char>>) -> Seq<char> {
    match name {
        Some(n) => "fn<"@ + n + ">"@,
        None => "fn"@,
    }
}

/// The canonical text of an expression.
pub open spec fn spec_expression_text(e: SpecExpression) -> Seq<char>
    decreases e,
{
    match e {
        SpecExpression::Identifier(i) => i.value,
        SpecExpression::Primitive(p) => spec_primitive_text(p),
        SpecExpression::Prefix { token, right } => "("@ + token.text + spec_expression_text(*right)
            + ")"@,
        SpecExpression::Infix { token, left, right } => "("@ + spec_expression_text(*left) + " "@
            + token.text + " "@ + spec_expression_text(*right) + ")"@,
        SpecExpression::Conditional { condition, consequence, alternative } => "if "@
            + spec_expression_text(*condition) + " {\n"@ + spec_lines(
            spec_statement_texts(consequence),
        ) + "}"@ + match alternative {
            Some(block) => " else {\n"@ + spec_lines(spec_statement_texts(block)) + "}"@,
            None => Seq::empty(),
        },
        SpecExpression::FunctionLiteral { parameters, body, name } => spec_function_head(name)
            + "("@ + spec_join(spec_identifier_texts(parameters), ", "@) + ") {\n"@ + spec_lines(
            spec_statement_texts(body),
        ) + "}"@,
        SpecExpression::FunctionCall { function, arguments } => spec_expression_text(*function)
            + "("@ + spec_join(spec_expression_texts(arguments), ", "@) + ")"@,
        SpecExpression::ArrayLiteral { elements } => "["@ + spec_join(
            spec_expression_texts(elements),
            ", "@,
        ) + "]"@,
        SpecExpression::Index { left, index } => "("@ + spec_expression_text(*left) + "["@
            + spec_expression_text(*index) + "])"@,
        SpecExpression::HashMapLiteral { pairs } => "{"@ + spec_join(spec_pair_texts(pairs), ", "@)
            + "}"@,
    }
}

/// The texts of the expressions.
pub open spec fn spec_expression_texts(es: Seq<SpecExpression>) -> Seq<Seq<char>>
    decreases es,
{
    Seq::new(
        es.len(),
        |i: int|
            if 0 <= i < es.len() {
                spec_expression_text(es[i])
            } else {
                Seq::empty()
            },
    )
}

/// The texts of the pairs of a hash map literal: key, colon, value.
pub open spec fn spec_pair_texts(pairs: Seq<(SpecExpression, SpecExpression)>) -> Seq<Seq<char>>
    decreases pairs,
{
    Seq::new(
        pairs.len(),
        |i: int|
            if 0 <= i < pairs.len() {
                spec_expression_text(pairs[i].0) + ": "@ + spec_expression_text(pairs[i].1)
            } else {
                Seq::empty()
            },
    )
}

/// The canonical text of a statement.
pub open spec fn spec_statement_text(s: SpecStatement) -> Seq<char>
    decreases s,
{
    match s {
        SpecStatement::Let { name, value } => "let "@ + name.value + " = "@ + spec_expression_text(
            value,
        ) + ";"@,
        SpecStatement::Return { value } => "return "@ + spec_expression_text(value) + ";"@,
        SpecStatement::Expression { value } => spec_expression_text(value),
    }
}

/// The texts of the statements.
pub open spec fn spec_statement_texts(ss: Seq<SpecStatement>) -> Seq<Seq<char>>
    decreases ss,
{
    Seq::new(
        ss.len(),
        |i: int|
            if 0 <= i < ss.len() {
                spec_statement_text(ss[i])
            } else {
                Seq::empty()
            },
    )
}

/// The canonical text of a block or of a program: each statement on a line
/// of its own. The text of no statements is empty.
pub open spec fn spec_block_text(ss: Seq<SpecStatement>) -> Seq<char> {
    spec_lines(spec_statement_texts(ss))
}

/// Joining one part more.
pub proof fn lemma_join_step(parts: Seq<Seq<char>>, sep: Seq<char>, i: int)
    requires
        0 <= i < parts.len(),
    ensures
        spec_join(parts.take(i + 1), sep) == if i == 0 {
            parts[0]
        } else {
            spec_join(parts.take(i), sep) + sep + parts[i]
        },
{
    assert(parts.take(i + 1).drop_last() == parts.take(i));
}

/// One line more.
pub proof fn lemma_lines_step(parts: Seq<Seq<char>>, i: int)
    requires
        0 <= i < parts.len(),
    ensures
        spec_lines(parts.take(i + 1)) == spec_lines(parts.take(i)) + parts[i] + "\n"@,
{
    assert(parts.take(i + 1).drop_last() == parts.take(i));
}

fn write_primitive(p: &Primitive, out: &mut String)
    ensures
        final(out)@ == old(out)@ + spec_primitive_text(p@),
{
    match p {
        Primitive::IntegerLiteral(n) => push_integer(out, *n),
        Primitive::BooleanLiteral(b) => {
            if *b {
                out.append("true");
            } else {
                out.append("false");
            }
        },
        Primitive::StringLiteral(s) => {
            out.append("\"");
            out.append(s.as_str());
            out.append("\"");
            assert(out@ =~= old(out)@ + spec_primitive_text(p@));
        },
    }
}

/// Appends the names of the parameters, with commas between them.
pub fn write_parameters(parameters: &Vec<Identifier>, out: &mut String)
    ensures
        final(out)@ == old(out)@ + spec_join(
            spec_identifier_texts(identifiers_model(parameters@)),
            ", "@,
        ),
{
    let ghost start = out@;
    let ghost parts = spec_identifier_texts(identifiers_model(parameters@));
    let mut i: usize = 0;
    assert(parts.take(0) =~= Seq::empty());
    assert(out@ =~= start + spec_join(parts.take(0), ", "@));
    while i < parameters.len()
        invariant
            i <= parameters.len(),
            parts == spec_identifier_texts(identifiers_model(parameters@)),
            out@ == start + spec_join(parts.take(i as int), ", "@),
        decreases parameters.len() - i,
    {
        proof {
            lemma_join_step(parts, ", "@, i as int);
        }
        if i > 0 {
            out.append(", ");
        }
        out.append(parameters[i].value.as_str());
        i += 1;
        assert(out@ =~= start + spec_join(parts.take(i as int), ", "@));
    }
    assert(parts.take(i as int) =~= parts);
}

fn write_expression(e: &Expression, out: &mut String)
    ensures
        final(out)@ == old(out)@ + spec_expression_text(e@),
    decreases e, 1nat,
{
    match e {
        Expression::Identifier(i) => {
            out.append(i.value.as_str());
        },
        Expression::Primitive(p) => {
            write_primitive(p, out);
        },
        Expression::Prefix(p) => write_prefix(p, out),
        Expression::Infix(p) => write_infix(p, out),
        Expression::Conditional(c) => write_conditional(c, out),
        Expression::FunctionLiteral(f) => write_function_literal(f, out),
        Expression::FunctionCall(c) => write_call(c, out),
        Expression::ArrayLiteral(a) => write_array(a, out),
        Expression::IndexExpression(x) => write_index(x, out),
        Expression::HashMapLiteral(h) => write_hash_map(h, out),
    }
}

fn write_prefix(p: &PrefixOperator, out: &mut String)
    ensures
        final(out)@ == old(out)@ + spec_expression_text(expression_model(Expression::Prefix(*p))),
    decreases p, 0nat,
{
    out.append("(");
    let text = p.token.to_string();
    out.append(text.as_str());
    write_expression(&p.right, out);
    out.append(")");
    assert(out@ =~= old(out)@ + spec_expression_text(expression_model(Expression::Prefix(*p))));
}

fn write_infix(p: &InfixOperator, out: &mut String)
    ensures
        final(out)@ == old(out)@ + spec_expression_text(expression_model(Expression::Infix(*p))),
    decreases p, 0nat,
{
    out.append("(");
    write_expression(&p.left, out);
    out.append(" ");
    let text = p.token.to_string();
    out.append(text.as_str());
    out.append(" ");
    write_expression(&p.right, out);
    out.append(")");
    assert(out@ =~= old(out)@ + spec_expression_text(expression_model(Expression::Infix(*p))));
}

fn write_conditional(c: &Conditional, out: &mut String)
    ensures
        final(out)@ == old(out)@ + spec_expression_text(
            expression_model(Expression::Conditional(*c)),
        ),
    decreases c, 0nat,
{
    out.append("if ");
    write_expression(&c.condition, out);
    out.append(" {\n");
    write_block(&c.consequence, out);
    out.append("}");
    match &c.alternative {
        Some(block) => {
            out.append(" else {\n");
            write_block(block, out);
            out.append("}");
        },
        None => {},
    }
    assert(out@ =~= old(out)@ + spec_expression_text(
        expression_model(Expression::Conditional(*c)),
    ));
}

fn write_function_literal(f: &FunctionLiteral, out: &mut String)
    ensures
        final(out)@ == old(out)@ + spec_expression_text(
            expression_model(Expression::FunctionLiteral(*f)),
        ),
    decreases f, 0nat,
{
    match &f.name {
        Some(name) => {
            out.append("fn<");
            out.append(name.as_str());
            out.append(">");
        },
        None => {
            out.append("fn");
        },
    }
    assert(out@ =~= old(out)@ + spec_function_head(name_model(f.name)));
    out.append("(");
    write_parameters(&f.parameters, out);
    out.append(") {\n");
    write_block(&f.body, out);
    out.append("}");
    assert(out@ =~= old(out)@ + spec_expression_text(
        expression_model(Expression::FunctionLiteral(*f)),
    ));
}

fn write_call(c: &FunctionCall, out: &mut String)
    ensures
        final(out)@ == old(out)@ + spec_expression_text(
            expression_model(Expression::FunctionCall(*c)),
        ),
    decreases c, 0nat,
{
    write_expression(&c.function, out);
    out.append("(");
    write_list(&c.arguments, out);
    out.append(")");
    assert(out@ =~= old(out)@ + spec_expression_text(
        expression_model(Expression::FunctionCall(*c)),
    ));
}

fn write_array(a: &ArrayLiteral, out: &mut String)
    ensures
        final(out)@ == old(out)@ + spec_expression_text(
            expression_model(Expression::ArrayLiteral(*a)),
        ),
    decreases a, 0nat,
{
    out.append("[");
    write_list(&a.elements, out);
    out.append("]");
    assert(out@ =~= old(out)@ + spec_expression_text(
        expression_model(Expression::ArrayLiteral(*a)),
    ));
}

fn write_index(x: &IndexExpression, out: &mut String)
    ensures
        final(out)@ == old(out)@ + spec_expression_text(
            expression_model(Expression::IndexExpression(*x)),
        ),
    decreases x, 0nat,
{
    out.append("(");
    write_expression(&x.left, out);
    out.append("[");
    write_expression(&x.index, out);
    out.append("])");
    assert(out@ =~= old(out)@ + spec_expression_text(
        expression_model(Expression::IndexExpression(*x)),
    ));
}

#[verifier::loop_isolation(false)]
fn write_hash_map(h: &HashMapLiteral, out: &mut String)
    ensures
        final(out)@ == old(out)@ + spec_expression_text(
            expression_model(Expression::HashMapLiteral(*h)),
        ),
    decreases h, 0nat,
{
    out.append("{");
    let ghost inner = out@;
    let ghost parts = spec_pair_texts(pairs_model(h.pairs@));
    let mut i: usize = 0;
    assert(parts.take(0) =~= Seq::empty());
    assert(out@ =~= inner + spec_join(parts.take(0), ", "@));
    while i < h.pairs.len()
        invariant
            i <= h.pairs.len(),
            out@ == inner + spec_join(parts.take(i as int), ", "@),
        decreases h.pairs.len() - i,
    {
        proof {
            lemma_join_step(parts, ", "@, i as int);
        }
        if i > 0 {
            out.append(", ");
        }
        write_expression(&h.pairs[i].0, out);
        out.append(": ");
        write_expression(&h.pairs[i].1, out);
        i += 1;
        assert(out@ =~= inner + spec_join(parts.take(i as int), ", "@));
    }
    assert(parts.take(i as int) =~= parts);
    out.append("}");
    assert(out@ =~= old(out)@ + spec_expression_text(
        expression_model(Expression::HashMapLiteral(*h)),
    ));
}

#[verifier::loop_isolation(false)]
fn write_list(es: &Vec<Expression>, out: &mut String)
    ensures
        final(out)@ == old(out)@ + spec_join(spec_expression_texts(expressions_model(es@)), ", "@),
    decreases es, 0nat,
{
    let ghost start = out@;
    let ghost parts = spec_expression_texts(expressions_model(es@));
    let mut i: usize = 0;
    assert(parts.take(0) =~= Seq::empty());
    assert(out@ =~= start + spec_join(parts.take(0), ", "@));
    while i < es.len()
        invariant
            i <= es.len(),
            out@ == start + spec_join(parts.take(i as int), ", "@),
        decreases es.len() - i,
    {
        proof {
            lemma_join_step(parts, ", "@, i as int);
        }
        if i > 0 {
            out.append(", ");
        }
        write_expression(&es[i], out);
        i += 1;
        assert(out@ =~= start + spec_join(parts.take(i as int), ", "@));
    }
    assert(parts.take(i as int) =~= parts);
}

fn write_statement(s: &Statement, out: &mut String)
    ensures
        final(out)@ == old(out)@ + spec_statement_text(s@),
    decreases s, 0nat,
{
    match s {
        Statement::Let(l) => {
            out.append("let ");
            out.append(l.name.value.as_str());
            out.append(" = ");
            write_expression(&l.value, out);
            out.append(";");
            assert(out@ =~= old(out)@ + spec_statement_text(s@));
        },
        Statement::Return(r) => {
            out.append("return ");
            write_expression(&r.return_value, out);
            out.append(";");
            assert(out@ =~= old(out)@ + spec_statement_text(s@));
        },
        Statement::Expression(e) => {
            write_expression(e, out);
        },
    }
}

#[verifier::loop_isolation(false)]
fn write_statements(statements: &Vec<Statement>, out: &mut String)
    ensures
        final(out)@ == old(out)@ + spec_block_text(statements_model(statements@)),
    decreases statements, 0nat,
{
    let ghost start = out@;
    let ghost parts = spec_statement_texts(statements_model(statements@));
    let mut i: usize = 0;
    assert(parts.take(0) =~= Seq::empty());
    assert(out@ =~= start + spec_lines(parts.take(0)));
    while i < statements.len()
        invariant
            i <= statements.len(),
            out@ == start + spec_lines(parts.take(i as int)),
        decreases statements.len() - i,
    {
        proof {
            lemma_lines_step(parts, i as int);
        }
        write_statement(&statements[i], out);
        out.append("\n");
        i += 1;
        assert(out@ =~= start + spec_lines(parts.take(i as int)));
    }
    assert(parts.take(i as int) =~= parts);
}

/// Appends the canonical text of the block.
pub fn write_block(block: &BlockStatement, out: &mut String)
    ensures
        final(out)@ == old(out)@ + spec_block_text(block@),
    decreases block, 0nat,
{
    write_statements(&block.statements, out);
}

impl Identifier {
    /// The name.
    pub fn to_string(&self) -> (s: String)
        ensures
            s@ == self@.value,
    {
        self.value.clone()
    }
}

impl Primitive {
    /// The text of the literal.
    pub fn to_string(&self) -> (s: String)
        ensures
            s@ == spec_primitive_text(self@),
    {
        let mut s = String::new();
        write_primitive(self, &mut s);
        assert(s@ =~= spec_primitive_text(self@));
        s
    }
}

impl Expression {
    /// The canonical text of the expression.
    pub fn to_string(&self) -> (s: String)
        ensures
            s@ == spec_expression_text(self@),
    {
        let mut s = String::new();
        write_expression(self, &mut s);
        assert(s@ =~= spec_expression_text(self@));
        s
    }
}

impl Statement {
    /// The canonical text of the statement.
    pub fn to_string(&self) -> (s: String)
        ensures
            s@ == spec_statement_text(self@),
    {
        let mut s = String::new();
        write_statement(self, &mut s);
        assert(s@ =~= spec_statement_text(self@));
        s
    }
}

impl BlockStatement {
    /// The canonical text of the block: each statement on a line of its own.
    pub fn to_string(&self) -> (s: String)
        ensures
            s@ == spec_block_text(self@),
    {
        let mut s = String::new();
        write_block(self, &mut s);
        assert(s@ =~= spec_block_text(self@));
        s
    }
}

impl Program {
    /// The canonical text of the program: each statement on a line of its
    /// own.
    pub fn to_string(&self) -> (s: String)
        ensures
            s@ == spec_block_text(self@),
    {
        let mut s = String::new();
        write_statements(&self.statements, &mut s);
        assert(s@ =~= spec_block_text(self@));
        s
    }
}

} // verus!
