//! The syntax tree: programs, statements and expressions, and the
//! mathematical model that the contracts speak of.

use crate::lexer::token::{SpecToken, Token};
use vstd::prelude::*;

verus! {

broadcast use vstd::std_specs::vec::axiom_vec_index_decreases;

/// A name, with the token it was read from.
#[derive(Debug, PartialEq)]
pub struct Identifier {
    pub token: Token,
    pub value: String,
}

/// A literal of one of the three plain types.
#[derive(Debug, PartialEq)]
pub enum Primitive {
    IntegerLiteral(i64),
    BooleanLiteral(bool),
    StringLiteral(String),
}

/// A prefix operator applied to its operand.
#[derive(Debug, PartialEq)]
pub struct PrefixOperator {
    pub token: Token,
    pub right: Box<Expression>,
}

/// A binary operator applied to its two operands.
#[derive(Debug, PartialEq)]
pub struct InfixOperator {
    pub token: Token,
    pub left: Box<Expression>,
    pub right: Box<Expression>,
}

/// `if (condition) { consequence } else { alternative }`.
#[derive(Debug, PartialEq)]
pub struct Conditional {
    pub condition: Box<Expression>,
    pub consequence: BlockStatement,
    pub alternative: Option<BlockStatement>,
}

/// `fn(parameters) { body }`. The name is that of the `let` statement that
/// binds the literal, if one does; it shows when the literal is printed and
/// has no other use.
#[derive(Debug, PartialEq)]
pub struct FunctionLiteral {
    pub parameters: Vec<Identifier>,
    pub body: BlockStatement,
    pub name: Option<String>,
}

/// `function(arguments)`.
#[derive(Debug, PartialEq)]
pub struct FunctionCall {
    pub function: Box<Expression>,
    pub arguments: Vec<Expression>,
}

/// `[elements]`.
#[derive(Debug, PartialEq)]
pub struct ArrayLiteral {
    pub elements: Vec<Expression>,
}

/// `left[index]`.
#[derive(Debug, PartialEq)]
pub struct IndexExpression {
    pub left: Box<Expression>,
    pub index: Box<Expression>,
}

/// `{key: value, ...}`, the pairs in the order of the source.
#[derive(Debug, PartialEq)]
pub struct HashMapLiteral {
    pub pairs: Vec<(Expression, Expression)>,
}

#[derive(Debug, PartialEq)]
pub enum Expression {
    Identifier(Identifier),
    Primitive(Primitive),
    Prefix(PrefixOperator),
    Infix(InfixOperator),
    Conditional(Conditional),
    FunctionLiteral(FunctionLiteral),
    FunctionCall(FunctionCall),
    ArrayLiteral(ArrayLiteral),
    IndexExpression(IndexExpression),
    HashMapLiteral(HashMapLiteral),
}

/// `let name = value;`.
#[derive(Debug, PartialEq)]
pub struct LetStatement {
    pub name: Identifier,
    pub value: Expression,
}

/// `return return_value;`.
#[derive(Debug, PartialEq)]
pub struct ReturnStatement {
    pub return_value: Expression,
}

#[derive(Debug, PartialEq)]
pub enum Statement {
    Let(LetStatement),
    Return(ReturnStatement),
    Expression(Expression),
}

/// The statements between a pair of braces. A block opens no scope of its
/// own.
#[derive(Debug, PartialEq)]
pub struct BlockStatement {
    pub statements: Vec<Statement>,
}

/// A whole program: its statements in order.
#[derive(Debug, PartialEq)]
pub struct Program {
    pub statements: Vec<Statement>,
}

/// The model of an identifier.
pub struct SpecIdentifier {
    pub token: SpecToken,
    pub value: Seq<char>,
}

/// The model of a literal.
pub enum SpecPrimitive {
    Integer(i64),
    Boolean(bool),
    Text(Seq<char>),
}

/// The model of an expression. A block is the sequence of its statements.
pub enum SpecExpression {
    Identifier(SpecIdentifier),
    Primitive(SpecPrimitive),
    Prefix { token: SpecToken, right: Box<SpecExpression> },
    Infix { token: SpecToken, left: Box<SpecExpression>, right: Box<SpecExpression> },
    Conditional {
        condition: Box<SpecExpression>,
        consequence: Seq<SpecStatement>,
        alternative: Option<Seq<SpecStatement>>,
    },
    FunctionLiteral {
        parameters: Seq<SpecIdentifier>,
        body: Seq<SpecStatement>,
        name: Option<Seq<char>>,
    },
    FunctionCall { function: Box<SpecExpression>, arguments: Seq<SpecExpression> },
    ArrayLiteral { elements: Seq<SpecExpression> },
    Index { left: Box<SpecExpression>, index: Box<SpecExpression> },
    HashMapLiteral { pairs: Seq<(SpecExpression, SpecExpression)> },
}

/// The model of a statement.
pub enum SpecStatement {
    Let { name: SpecIdentifier, value: SpecExpression },
    Return { value: SpecExpression },
    Expression { value: SpecExpression },
}

impl View for Identifier {
    type V = SpecIdentifier;

    open spec fn view(&self) -> SpecIdentifier {
        SpecIdentifier { token: self.token@, value: self.value@ }
    }
}

impl View for Primitive {
    type V = SpecPrimitive;

    open spec fn view(&self) -> SpecPrimitive {
        match self {
            Primitive::IntegerLiteral(n) => SpecPrimitive::Integer(*n),
            Primitive::BooleanLiteral(b) => SpecPrimitive::Boolean(*b),
            Primitive::StringLiteral(s) => SpecPrimitive::Text(s@),
        }
    }
}

/// The models of a sequence of identifiers.
pub open spec fn identifiers_model(v: Seq<Identifier>) -> Seq<SpecIdentifier> {
    Seq::new(v.len(), |i: int| v[i]@)
}

/// The model of a name that may be absent.
pub open spec fn name_model(name: Option<String>) -> Option<Seq<char>> {
    match name {
        Some(s) => Some(s@),
        None => None,
    }
}

/// The model of an expression.
pub open spec fn expression_model(e: Expression) -> SpecExpression
    decreases e,
{
    match e {
        Expression::Identifier(i) => SpecExpression::Identifier(i@),
        Expression::Primitive(p) => SpecExpression::Primitive(p@),
        Expression::Prefix(p) => SpecExpression::Prefix {
            token: p.token@,
            right: Box::new(expression_model(*p.right)),
        },
        Expression::Infix(p) => SpecExpression::Infix {
            token: p.token@,
            left: Box::new(expression_model(*p.left)),
            right: Box::new(expression_model(*p.right)),
        },
        Expression::Conditional(c) => SpecExpression::Conditional {
            condition: Box::new(expression_model(*c.condition)),
            consequence: statements_model(c.consequence.statements@),
            alternative: match c.alternative {
                Some(b) => Some(statements_model(b.statements@)),
                None => None,
            },
        },
        Expression::FunctionLiteral(f) => SpecExpression::FunctionLiteral {
            parameters: identifiers_model(f.parameters@),
            body: statements_model(f.body.statements@),
            name: name_model(f.name),
        },
        Expression::FunctionCall(c) => SpecExpression::FunctionCall {
            function: Box::new(expression_model(*c.function)),
            arguments: expressions_model(c.arguments@),
        },
        Expression::ArrayLiteral(a) => SpecExpression::ArrayLiteral {
            elements: expressions_model(a.elements@),
        },
        Expression::IndexExpression(i) => SpecExpression::Index {
            left: Box::new(expression_model(*i.left)),
            index: Box::new(expression_model(*i.index)),
        },
        Expression::HashMapLiteral(h) => SpecExpression::HashMapLiteral {
            pairs: pairs_model(h.pairs@),
        },
    }
}

/// The models of a sequence of expressions.
pub open spec fn expressions_model(v: Seq<Expression>) -> Seq<SpecExpression>
    decreases v,
{
    Seq::new(
        v.len(),
        |i: int|
            if 0 <= i < v.len() {
                expression_model(v[i])
            } else {
                arbitrary()
            },
    )
}

/// The models of a sequence of key and value expressions.
pub open spec fn pairs_model(v: Seq<(Expression, Expression)>) -> Seq<
    (SpecExpression, SpecExpression),
>
    decreases v,
{
    Seq::new(
        v.len(),
        |i: int|
            if 0 <= i < v.len() {
                (expression_model(v[i].0), expression_model(v[i].1))
            } else {
                arbitrary()
            },
    )
}

/// The model of a statement.
pub open spec fn statement_model(s: Statement) -> SpecStatement
    decreases s,
{
    match s {
        Statement::Let(l) => SpecStatement::Let { name: l.name@, value: expression_model(l.value) },
        Statement::Return(r) => SpecStatement::Return { value: expression_model(r.return_value) },
        Statement::Expression(e) => SpecStatement::Expression { value: expression_model(e) },
    }
}

/// The models of a sequence of statements.
pub open spec fn statements_model(v: Seq<Statement>) -> Seq<SpecStatement>
    decreases v,
{
    Seq::new(
        v.len(),
        |i: int|
            if 0 <= i < v.len() {
                statement_model(v[i])
            } else {
                arbitrary()
            },
    )
}

impl View for Expression {
    type V = SpecExpression;

    open spec fn view(&self) -> SpecExpression {
        expression_model(*self)
    }
}

impl View for Statement {
    type V = SpecStatement;

    open spec fn view(&self) -> SpecStatement {
        statement_model(*self)
    }
}

impl View for BlockStatement {
    type V = Seq<SpecStatement>;

    open spec fn view(&self) -> Seq<SpecStatement> {
        statements_model(self.statements@)
    }
}

impl View for Program {
    type V = Seq<SpecStatement>;

    open spec fn view(&self) -> Seq<SpecStatement> {
        statements_model(self.statements@)
    }
}

impl Clone for Identifier {
    fn clone(&self) -> (res: Self)
        ensures
            res@ == self@,
    {
        Identifier { token: self.token.clone(), value: self.value.clone() }
    }
}

impl Clone for Primitive {
    fn clone(&self) -> (res: Self)
        ensures
            res@ == self@,
    {
        match self {
            Primitive::IntegerLiteral(n) => Primitive::IntegerLiteral(*n),
            Primitive::BooleanLiteral(b) => Primitive::BooleanLiteral(*b),
            Primitive::StringLiteral(s) => Primitive::StringLiteral(s.clone()),
        }
    }
}

/// A copy of a list of identifiers.
pub fn clone_identifiers(v: &Vec<Identifier>) -> (res: Vec<Identifier>)
    ensures
        identifiers_model(res@) == identifiers_model(v@),
{
    let mut out: Vec<Identifier> = Vec::new();
    let mut i: usize = 0;
    while i < v.len()
        invariant
            i <= v.len(),
            out@.len() == i,
            forall|j: int| 0 <= j < i ==> (#[trigger] out@[j])@ == v@[j]@,
        decreases v.len() - i,
    {
        out.push(v[i].clone());
        i += 1;
    }
    assert(identifiers_model(out@) =~= identifiers_model(v@));
    out
}

fn clone_name(name: &Option<String>) -> (res: Option<String>)
    ensures
        name_model(res) == name_model(*name),
{
    match name {
        Some(s) => Some(s.clone()),
        None => None,
    }
}

impl Clone for Expression {
    #[verifier::loop_isolation(false)]
    fn clone(&self) -> (res: Self)
        ensures
            res@ == self@,
        decreases self,
    {
        match self {
            Expression::Identifier(i) => Expression::Identifier(i.clone()),
            Expression::Primitive(p) => Expression::Primitive(p.clone()),
            Expression::Prefix(p) => Expression::Prefix(
                PrefixOperator { token: p.token.clone(), right: Box::new((*p.right).clone()) },
            ),
            Expression::Infix(p) => Expression::Infix(
                InfixOperator {
                    token: p.token.clone(),
                    left: Box::new((*p.left).clone()),
                    right: Box::new((*p.right).clone()),
                },
            ),
            Expression::Conditional(c) => {
                let alternative = match &c.alternative {
                    Some(b) => Some(b.clone()),
                    None => None,
                };
                Expression::Conditional(
                    Conditional {
                        condition: Box::new((*c.condition).clone()),
                        consequence: c.consequence.clone(),
                        alternative,
                    },
                )
            },
            Expression::FunctionLiteral(f) => Expression::FunctionLiteral(
                FunctionLiteral {
                    parameters: clone_identifiers(&f.parameters),
                    body: f.body.clone(),
                    name: clone_name(&f.name),
                },
            ),
            Expression::FunctionCall(c) => {
                let mut arguments: Vec<Expression> = Vec::new();
                let mut i: usize = 0;
                while i < c.arguments.len()
                    invariant
                        i <= c.arguments.len(),
                        arguments@.len() == i,
                        forall|j: int|
                            0 <= j < i ==> expression_model(#[trigger] arguments@[j])
                                == expression_model(c.arguments@[j]),
                    decreases c.arguments.len() - i,
                {
                    arguments.push(c.arguments[i].clone());
                    i += 1;
                }
                assert(expressions_model(arguments@) =~= expressions_model(c.arguments@));
                Expression::FunctionCall(
                    FunctionCall { function: Box::new((*c.function).clone()), arguments },
                )
            },
            Expression::ArrayLiteral(a) => {
                let mut elements: Vec<Expression> = Vec::new();
                let mut i: usize = 0;
                while i < a.elements.len()
                    invariant
                        i <= a.elements.len(),
                        elements@.len() == i,
                        forall|j: int|
                            0 <= j < i ==> expression_model(#[trigger] elements@[j])
                                == expression_model(a.elements@[j]),
                    decreases a.elements.len() - i,
                {
                    elements.push(a.elements[i].clone());
                    i += 1;
                }
                assert(expressions_model(elements@) =~= expressions_model(a.elements@));
                Expression::ArrayLiteral(ArrayLiteral { elements })
            },
            Expression::IndexExpression(x) => Expression::IndexExpression(
                IndexExpression {
                    left: Box::new((*x.left).clone()),
                    index: Box::new((*x.index).clone()),
                },
            ),
            Expression::HashMapLiteral(h) => {
                let mut pairs: Vec<(Expression, Expression)> = Vec::new();
                let mut i: usize = 0;
                while i < h.pairs.len()
                    invariant
                        i <= h.pairs.len(),
                        pairs@.len() == i,
                        forall|j: int|
                            0 <= j < i ==> expression_model((#[trigger] pairs@[j]).0)
                                == expression_model(h.pairs@[j].0) && expression_model(pairs@[j].1)
                                == expression_model(h.pairs@[j].1),
                    decreases h.pairs.len() - i,
                {
                    let key = h.pairs[i].0.clone();
                    let value = h.pairs[i].1.clone();
                    pairs.push((key, value));
                    i += 1;
                }
                assert(pairs_model(pairs@) =~= pairs_model(h.pairs@));
                Expression::HashMapLiteral(HashMapLiteral { pairs })
            },
        }
    }
}

impl Clone for Statement {
    fn clone(&self) -> (res: Self)
        ensures
            res@ == self@,
        decreases self,
    {
        match self {
            Statement::Let(l) => Statement::Let(
                LetStatement { name: l.name.clone(), value: l.value.clone() },
            ),
            Statement::Return(r) => Statement::Return(
                ReturnStatement { return_value: r.return_value.clone() },
            ),
            Statement::Expression(e) => Statement::Expression(e.clone()),
        }
    }
}

impl Clone for BlockStatement {
    #[verifier::loop_isolation(false)]
    fn clone(&self) -> (res: Self)
        ensures
            res@ == self@,
        decreases self,
    {
        let mut statements: Vec<Statement> = Vec::new();
        let mut i: usize = 0;
        while i < self.statements.len()
            invariant
                i <= self.statements.len(),
                statements@.len() == i,
                forall|j: int|
                    0 <= j < i ==> statement_model(#[trigger] statements@[j]) == statement_model(
                        self.statements@[j],
                    ),
            decreases self.statements.len() - i,
        {
            statements.push(self.statements[i].clone());
            i += 1;
        }
        assert(statements_model(statements@) =~= statements_model(self.statements@));
        BlockStatement { statements }
    }
}

impl Clone for Program {
    fn clone(&self) -> (res: Self)
        ensures
            res@ == self@,
    {
        let mut statements: Vec<Statement> = Vec::new();
        let mut i: usize = 0;
        while i < self.statements.len()
            invariant
                i <= self.statements.len(),
                statements@.len() == i,
                forall|j: int|
                    0 <= j < i ==> statement_model(#[trigger] statements@[j]) == statement_model(
                        self.statements@[j],
                    ),
            decreases self.statements.len() - i,
        {
            statements.push(self.statements[i].clone());
            i += 1;
        }
        assert(statements_model(statements@) =~= statements_model(self.statements@));
        Program { statements }
    }
}

} // verus!
