//! Equality of syntax trees, decided node by node.

use crate::parser::ast::{
    expression_model, expressions_model, identifiers_model, name_model, pairs_model,
    statement_model, statements_model, BlockStatement, Expression, Identifier, Primitive,
    Statement,
};
use vstd::prelude::*;
use vstd::string::*;

verus! {

broadcast use vstd::std_specs::vec::axiom_vec_index_decreases;

impl Identifier {
    /// Whether the two identifiers have the same token and the same name.
    pub fn same(&self, other: &Identifier) -> (b: bool)
        ensures
            b == (self@ == other@),
    {
        self.token.same(&other.token) && self.value == other.value
    }
}

impl Primitive {
    /// Whether the two literals have the same type and the same value.
    pub fn same(&self, other: &Primitive) -> (b: bool)
        ensures
            b == (self@ == other@),
    {
        match (self, other) {
            (Primitive::IntegerLiteral(a), Primitive::IntegerLiteral(b)) => *a == *b,
            (Primitive::BooleanLiteral(a), Primitive::BooleanLiteral(b)) => *a == *b,
            (Primitive::StringLiteral(a), Primitive::StringLiteral(b)) => *a == *b,
            _ => false,
        }
    }
}

/// Whether the two lists hold the same identifiers in the same order.
pub fn identifiers_same(a: &Vec<Identifier>, b: &Vec<Identifier>) -> (r: bool)
    ensures
        r == (identifiers_model(a@) == identifiers_model(b@)),
{
    if a.len() != b.len() {
        assert(identifiers_model(a@).len() != identifiers_model(b@).len());
        return false;
    }
    let mut i: usize = 0;
    while i < a.len()
        invariant
            i <= a.len(),
            a.len() == b.len(),
            forall|j: int| 0 <= j < i ==> (#[trigger] a@[j])@ == b@[j]@,
        decreases a.len() - i,
    {
        if !a[i].same(&b[i]) {
            assert(identifiers_model(a@)[i as int] != identifiers_model(b@)[i as int]);
            return false;
        }
        i += 1;
    }
    assert(identifiers_model(a@) =~= identifiers_model(b@));
    true
}

fn names_same(a: &Option<String>, b: &Option<String>) -> (r: bool)
    ensures
        r == (name_model(*a) == name_model(*b)),
{
    match (a, b) {
        (Some(x), Some(y)) => *x == *y,
        (None, None) => true,
        _ => false,
    }
}

#[verifier::loop_isolation(false)]
fn expressions_same(a: &Vec<Expression>, b: &Vec<Expression>) -> (r: bool)
    ensures
        r == (expressions_model(a@) == expressions_model(b@)),
    decreases a,
{
    if a.len() != b.len() {
        assert(expressions_model(a@).len() != expressions_model(b@).len());
        return false;
    }
    let mut i: usize = 0;
    while i < a.len()
        invariant
            i <= a.len(),
            a.len() == b.len(),
            forall|j: int| 0 <= j < i ==> expression_model(#[trigger] a@[j]) == expression_model(b@[j]),
        decreases a.len() - i,
    {
        if !a[i].same(&b[i]) {
            assert(expressions_model(a@)[i as int] != expressions_model(b@)[i as int]);
            return false;
        }
        i += 1;
    }
    assert(expressions_model(a@) =~= expressions_model(b@));
    true
}

#[verifier::loop_isolation(false)]
fn pairs_same(a: &Vec<(Expression, Expression)>, b: &Vec<(Expression, Expression)>) -> (r: bool)
    ensures
        r == (pairs_model(a@) == pairs_model(b@)),
    decreases a,
{
    if a.len() != b.len() {
        assert(pairs_model(a@).len() != pairs_model(b@).len());
        return false;
    }
    let mut i: usize = 0;
    while i < a.len()
        invariant
            i <= a.len(),
            a.len() == b.len(),
            forall|j: int|
                0 <= j < i ==> expression_model((#[trigger] a@[j]).0) == expression_model(b@[j].0)
                    && expression_model(a@[j].1) == expression_model(b@[j].1),
        decreases a.len() - i,
    {
        if !a[i].0.same(&b[i].0) || !a[i].1.same(&b[i].1) {
            assert(pairs_model(a@)[i as int] != pairs_model(b@)[i as int]);
            return false;
        }
        i += 1;
    }
    assert(pairs_model(a@) =~= pairs_model(b@));
    true
}

#[verifier::loop_isolation(false)]
fn statements_same(a: &Vec<Statement>, b: &Vec<Statement>) -> (r: bool)
    ensures
        r == (statements_model(a@) == statements_model(b@)),
    decreases a,
{
    if a.len() != b.len() {
        assert(statements_model(a@).len() != statements_model(b@).len());
        return false;
    }
    let mut i: usize = 0;
    while i < a.len()
        invariant
            i <= a.len(),
            a.len() == b.len(),
            forall|j: int| 0 <= j < i ==> statement_model(#[trigger] a@[j]) == statement_model(b@[j]),
        decreases a.len() - i,
    {
        if !a[i].same(&b[i]) {
            assert(statements_model(a@)[i as int] != statements_model(b@)[i as int]);
            return false;
        }
        i += 1;
    }
    assert(statements_model(a@) =~= statements_model(b@));
    true
}

fn alternatives_same(a: &Option<BlockStatement>, b: &Option<BlockStatement>) -> (r: bool)
    ensures
        r == (match *a {
            Some(x) => Some(x@),
            None => None,
        } == match *b {
            Some(y) => Some(y@),
            None => None,
        }),
    decreases a,
{
    match (a, b) {
        (Some(x), Some(y)) => statements_same(&x.statements, &y.statements),
        (None, None) => true,
        _ => false,
    }
}

impl Expression {
    /// Whether the two expressions are the same tree.
    pub fn same(&self, other: &Expression) -> (b: bool)
        ensures
            b == (self@ == other@),
        decreases self,
    {
        match (self, other) {
            (Expression::Identifier(a), Expression::Identifier(b)) => a.same(b),
            (Expression::Primitive(a), Expression::Primitive(b)) => a.same(b),
            (Expression::Prefix(a), Expression::Prefix(b)) => a.token.same(&b.token)
                && a.right.same(&b.right),
            (Expression::Infix(a), Expression::Infix(b)) => a.token.same(&b.token) && a.left.same(
                &b.left,
            ) && a.right.same(&b.right),
            (Expression::Conditional(a), Expression::Conditional(b)) => a.condition.same(
                &b.condition,
            ) && statements_same(&a.consequence.statements, &b.consequence.statements)
                && alternatives_same(&a.alternative, &b.alternative),
            (Expression::FunctionLiteral(a), Expression::FunctionLiteral(b)) => identifiers_same(
                &a.parameters,
                &b.parameters,
            ) && statements_same(&a.body.statements, &b.body.statements) && names_same(
                &a.name,
                &b.name,
            ),
            (Expression::FunctionCall(a), Expression::FunctionCall(b)) => a.function.same(
                &b.function,
            ) && expressions_same(&a.arguments, &b.arguments),
            (Expression::ArrayLiteral(a), Expression::ArrayLiteral(b)) => expressions_same(
                &a.elements,
                &b.elements,
            ),
            (Expression::IndexExpression(a), Expression::IndexExpression(b)) => a.left.same(&b.left)
                && a.index.same(&b.index),
            (Expression::HashMapLiteral(a), Expression::HashMapLiteral(b)) => pairs_same(
                &a.pairs,
                &b.pairs,
            ),
            _ => false,
        }
    }
}

impl Statement {
    /// Whether the two statements are the same tree.
    pub fn same(&self, other: &Statement) -> (b: bool)
        ensures
            b == (self@ == other@),
        decreases self,
    {
        match (self, other) {
            (Statement::Let(a), Statement::Let(b)) => a.name.same(&b.name) && a.value.same(
                &b.value,
            ),
            (Statement::Return(a), Statement::Return(b)) => a.return_value.same(&b.return_value),
            (Statement::Expression(a), Statement::Expression(b)) => a.same(b),
            _ => false,
        }
    }
}

impl BlockStatement {
    /// Whether the two blocks hold the same statements in the same order.
    pub fn same(&self, other: &BlockStatement) -> (b: bool)
        ensures
            b == (self@ == other@),
    {
        statements_same(&self.statements, &other.statements)
    }
}

} // verus!
