//! The evaluator: runs a syntax tree against chained scopes.

pub mod builtins;
pub mod display;
pub mod environment;
pub mod hash;
pub mod laws;
pub mod operators;
pub mod semantics;
pub mod value;

use crate::evaluator::builtins::{apply_builtin, count_message};
use crate::evaluator::environment::Environment;
use crate::evaluator::hash::insert_entry;
use crate::evaluator::operators::{eval_index, eval_infix, eval_prefix};
use crate::evaluator::semantics::{
    spec_bind_parameters, spec_call_frame, spec_eval_block, spec_eval_expression,
    spec_eval_identifier, spec_eval_list, spec_eval_pairs, spec_eval_primitive,
    spec_eval_statement, spec_evaluate, spec_unwrap_return,
};
use crate::evaluator::value::{
    entries_model, lemma_values_model, values_model, Builtin, Function, HashKey, SpecValue, Value,
};
use crate::parser::ast::{
    clone_identifiers, expression_model, expressions_model, identifiers_model, pairs_model,
    statements_model, Conditional, Expression, FunctionCall, IndexExpression, InfixOperator,
    PrefixOperator, Primitive, Program, Statement,
};
use vstd::prelude::*;
use vstd::string::*;

verus! {

broadcast use vstd::std_specs::vec::axiom_vec_index_decreases;

/// How deep the calls of a program may nest unless the caller says
/// otherwise.
pub const DEFAULT_CALL_DEPTH: usize = 200;

/// The model of the values of a list of expressions, or of the error among
/// them.
pub open spec fn list_outcome(r: Result<Vec<Value>, Value>) -> Result<Seq<SpecValue>, SpecValue> {
    match r {
        Ok(values) => Ok(values_model(values@)),
        Err(error) => Err(error@),
    }
}

fn message_with(head: &str, tail: &str) -> (v: Value)
    ensures
        v@ == SpecValue::ErrorSignal(head@ + tail@),
{
    let mut message = String::from_str(head);
    message.append(tail);
    Value::ErrorSignal(message)
}

fn eval_primitive(p: &Primitive) -> (v: Value)
    ensures
        v@ == spec_eval_primitive(p@),
{
    match p {
        Primitive::IntegerLiteral(n) => Value::Integer(*n),
        Primitive::BooleanLiteral(b) => Value::Boolean(*b),
        Primitive::StringLiteral(s) => Value::String(s.clone()),
    }
}

fn eval_identifier(name: &String, scope: usize, env: &Environment) -> (v: Value)
    ensures
        v@ == spec_eval_identifier(name@, scope as nat, env@),
{
    match env.lookup(scope, name.as_str()) {
        Some(v) => v,
        None => match Builtin::named(name.as_str()) {
            Some(b) => Value::Builtin(b),
            None => message_with("identifier not found: ", name.as_str()),
        },
    }
}

fn unwrap_return(v: Value) -> (r: Value)
    ensures
        r@ == spec_unwrap_return(v@),
{
    match v {
        Value::ReturnSignal(inner) => *inner,
        other => other,
    }
}

/// Opens the frame of a call: a new scope inside the scope that the function
/// was made in, with the parameters bound to the arguments. Returns the
/// index of the new scope.
fn call_frame(env: &mut Environment, f: &Function, args: &Vec<Value>) -> (inner: usize)
    requires
        args.len() == f.parameters.len(),
    ensures
        inner == old(env)@.scopes.len(),
        final(env)@ == spec_call_frame(
            old(env)@,
            f.scope as nat,
            identifiers_model(f.parameters@),
            values_model(args@),
        ),
{
    let inner: usize = env.enter(f.scope);
    let ghost parameters = identifiers_model(f.parameters@);
    let ghost arguments = values_model(args@);
    let mut i: usize = 0;
    while i < f.parameters.len()
        invariant
            i <= f.parameters.len(),
            args.len() == f.parameters.len(),
            parameters == identifiers_model(f.parameters@),
            arguments == values_model(args@),
            inner == old(env)@.scopes.len(),
            spec_call_frame(old(env)@, f.scope as nat, parameters, arguments)
                == spec_bind_parameters(env@, inner as nat, parameters, arguments, i as int),
        decreases f.parameters.len() - i,
    {
        proof {
            lemma_values_model(args@);
        }
        env.bind(inner, f.parameters[i].value.clone(), args[i].clone());
        i += 1;
    }
    proof {
        lemma_values_model(args@);
    }
    inner
}

/// Evaluates an expression in `scope`.
pub fn eval_expression(e: &Expression, scope: usize, env: &mut Environment, depth: usize) -> (v:
    Value)
    ensures
        (v@, final(env)@) == spec_eval_expression(e@, scope as nat, old(env)@, depth as nat),
    decreases depth, e, 1nat,
{
    match e {
        Expression::Identifier(i) => eval_identifier(&i.value, scope, env),
        Expression::Primitive(p) => eval_primitive(p),
        Expression::Prefix(p) => eval_prefix_expression(p, scope, env, depth),
        Expression::Infix(p) => eval_infix_expression(p, scope, env, depth),
        Expression::Conditional(c) => eval_conditional(c, scope, env, depth),
        Expression::FunctionLiteral(f) => Value::Function(
            Function { parameters: clone_identifiers(&f.parameters), body: f.body.clone(), scope },
        ),
        Expression::FunctionCall(c) => eval_call(c, scope, env, depth),
        Expression::ArrayLiteral(a) => match eval_list(&a.elements, scope, env, depth) {
            Ok(values) => Value::Array(values),
            Err(error) => error,
        },
        Expression::IndexExpression(x) => eval_index_expression(x, scope, env, depth),
        Expression::HashMapLiteral(h) => eval_pairs(&h.pairs, scope, env, depth),
    }
}

fn eval_prefix_expression(p: &PrefixOperator, scope: usize, env: &mut Environment, depth: usize) -> (v:
    Value)
    ensures
        (v@, final(env)@) == spec_eval_expression(
            expression_model(Expression::Prefix(*p)),
            scope as nat,
            old(env)@,
            depth as nat,
        ),
    decreases depth, p, 0nat,
{
    let right = eval_expression(&p.right, scope, env, depth);
    if right.is_error() {
        return right;
    }
    eval_prefix(&p.token, &right)
}

fn eval_infix_expression(p: &InfixOperator, scope: usize, env: &mut Environment, depth: usize) -> (v:
    Value)
    ensures
        (v@, final(env)@) == spec_eval_expression(
            expression_model(Expression::Infix(*p)),
            scope as nat,
            old(env)@,
            depth as nat,
        ),
    decreases depth, p, 0nat,
{
    let left = eval_expression(&p.left, scope, env, depth);
    if left.is_error() {
        return left;
    }
    let right = eval_expression(&p.right, scope, env, depth);
    if right.is_error() {
        return right;
    }
    eval_infix(&p.token, &left, &right)
}

fn eval_index_expression(x: &IndexExpression, scope: usize, env: &mut Environment, depth: usize) -> (v:
    Value)
    ensures
        (v@, final(env)@) == spec_eval_expression(
            expression_model(Expression::IndexExpression(*x)),
            scope as nat,
            old(env)@,
            depth as nat,
        ),
    decreases depth, x, 0nat,
{
    let left = eval_expression(&x.left, scope, env, depth);
    if left.is_error() {
        return left;
    }
    let index = eval_expression(&x.index, scope, env, depth);
    if index.is_error() {
        return index;
    }
    eval_index(&left, &index)
}

fn eval_conditional(c: &Conditional, scope: usize, env: &mut Environment, depth: usize) -> (v: Value)
    ensures
        (v@, final(env)@) == spec_eval_expression(
            expression_model(Expression::Conditional(*c)),
            scope as nat,
            old(env)@,
            depth as nat,
        ),
    decreases depth, c, 0nat,
{
    let condition = eval_expression(&c.condition, scope, env, depth);
    if condition.is_error() {
        return condition;
    }
    if condition.is_truthy() {
        eval_statements(&c.consequence.statements, scope, env, depth)
    } else {
        match &c.alternative {
            Some(block) => eval_statements(&block.statements, scope, env, depth),
            None => Value::Null,
        }
    }
}

fn eval_call(c: &FunctionCall, scope: usize, env: &mut Environment, depth: usize) -> (v: Value)
    ensures
        (v@, final(env)@) == spec_eval_expression(
            expression_model(Expression::FunctionCall(*c)),
            scope as nat,
            old(env)@,
            depth as nat,
        ),
    decreases depth, c, 0nat,
{
    let callee = eval_expression(&c.function, scope, env, depth);
    match &callee {
        Value::ErrorSignal(_) => {
            return callee;
        },
        Value::Function(_) => {},
        Value::Builtin(_) => {},
        _ => {
            return message_with("not a function: ", callee.kind_name());
        },
    }
    let args = match eval_list(&c.arguments, scope, env, depth) {
        Ok(args) => args,
        Err(error) => {
            return error;
        },
    };
    match &callee {
        Value::Function(f) => {
            proof {
                lemma_values_model(args@);
            }
            if args.len() != f.parameters.len() {
                return Value::ErrorSignal(count_message(args.len(), f.parameters.len()));
            }
            if depth == 0 {
                return Value::ErrorSignal(String::from_str("call depth exceeded"));
            }
            let inner: usize = call_frame(env, f, &args);
            let result = eval_statements(&f.body.statements, inner, env, depth - 1);
            unwrap_return(result)
        },
        Value::Builtin(b) => apply_builtin(*b, &args, env),
        _ => message_with("not a function: ", callee.kind_name()),
    }
}

#[verifier::loop_isolation(false)]
fn eval_list(es: &Vec<Expression>, scope: usize, env: &mut Environment, depth: usize) -> (r: Result<
    Vec<Value>,
    Value,
>)
    ensures
        (list_outcome(r), final(env)@) == spec_eval_list(
            expressions_model(es@),
            0,
            scope as nat,
            old(env)@,
            depth as nat,
            Seq::empty(),
        ),
    decreases depth, es, 0nat,
{
    let ghost model = expressions_model(es@);
    let mut values: Vec<Value> = Vec::new();
    let mut i: usize = 0;
    assert(values_model(values@) =~= Seq::empty());
    while i < es.len()
        invariant
            i <= es.len(),
            spec_eval_list(model, 0, scope as nat, old(env)@, depth as nat, Seq::empty())
                == spec_eval_list(
                model,
                i as nat,
                scope as nat,
                env@,
                depth as nat,
                values_model(values@),
            ),
        decreases es.len() - i,
    {
        let v = eval_expression(&es[i], scope, env, depth);
        if v.is_error() {
            return Err(v);
        }
        let ghost before = values_model(values@);
        values.push(v);
        assert(values_model(values@) =~= before.push(v@));
        i += 1;
    }
    Ok(values)
}

#[verifier::loop_isolation(false)]
fn eval_pairs(
    pairs: &Vec<(Expression, Expression)>,
    scope: usize,
    env: &mut Environment,
    depth: usize,
) -> (v: Value)
    ensures
        (v@, final(env)@) == spec_eval_pairs(
            pairs_model(pairs@),
            0,
            scope as nat,
            old(env)@,
            depth as nat,
            Seq::empty(),
        ),
    decreases depth, pairs, 0nat,
{
    let ghost model = pairs_model(pairs@);
    let mut entries: Vec<(HashKey, Value)> = Vec::new();
    let mut i: usize = 0;
    assert(entries_model(entries@) =~= Seq::empty());
    while i < pairs.len()
        invariant
            i <= pairs.len(),
            spec_eval_pairs(model, 0, scope as nat, old(env)@, depth as nat, Seq::empty())
                == spec_eval_pairs(
                model,
                i as nat,
                scope as nat,
                env@,
                depth as nat,
                entries_model(entries@),
            ),
        decreases pairs.len() - i,
    {
        let key = eval_expression(&pairs[i].0, scope, env, depth);
        if key.is_error() {
            return key;
        }
        let hash_key = match key.hash_key() {
            Some(k) => k,
            None => {
                return message_with("unusable as hash key: ", key.kind_name());
            },
        };
        let value = eval_expression(&pairs[i].1, scope, env, depth);
        if value.is_error() {
            return value;
        }
        insert_entry(&mut entries, hash_key, value);
        i += 1;
    }
    Value::HashMap(entries)
}

/// Evaluates the statements of a block or of a program in `scope`, up to
/// the first `return` or error.
#[verifier::loop_isolation(false)]
pub fn eval_statements(
    statements: &Vec<Statement>,
    scope: usize,
    env: &mut Environment,
    depth: usize,
) -> (v: Value)
    ensures
        (v@, final(env)@) == spec_eval_block(
            statements_model(statements@),
            0,
            scope as nat,
            old(env)@,
            depth as nat,
            SpecValue::Null,
        ),
    decreases depth, statements, 0nat,
{
    let ghost model = statements_model(statements@);
    let mut last = Value::Null;
    let mut i: usize = 0;
    while i < statements.len()
        invariant
            i <= statements.len(),
            spec_eval_block(model, 0, scope as nat, old(env)@, depth as nat, SpecValue::Null)
                == spec_eval_block(model, i as nat, scope as nat, env@, depth as nat, last@),
        decreases statements.len() - i,
    {
        let v = eval_statement(&statements[i], scope, env, depth);
        match &v {
            Value::ReturnSignal(_) => {
                return v;
            },
            Value::ErrorSignal(_) => {
                return v;
            },
            _ => {},
        }
        last = v;
        i += 1;
    }
    last
}

/// Evaluates one statement in `scope`.
pub fn eval_statement(s: &Statement, scope: usize, env: &mut Environment, depth: usize) -> (v: Value)
    ensures
        (v@, final(env)@) == spec_eval_statement(s@, scope as nat, old(env)@, depth as nat),
    decreases depth, s, 0nat,
{
    match s {
        Statement::Let(l) => {
            let v = eval_expression(&l.value, scope, env, depth);
            if v.is_error() {
                return v;
            }
            env.bind(scope, l.name.value.clone(), v);
            Value::Null
        },
        Statement::Return(r) => {
            let v = eval_expression(&r.return_value, scope, env, depth);
            if v.is_error() {
                return v;
            }
            Value::ReturnSignal(Box::new(v))
        },
        Statement::Expression(e) => eval_expression(e, scope, env, depth),
    }
}

/// Evaluates a program in the scope of the program, with calls nested at
/// most `depth` deep. What the program binds stays bound in `env`, and what
/// it prints is added to the output of `env`.
pub fn evaluate_within(program: &Program, env: &mut Environment, depth: usize) -> (v: Value)
    ensures
        (v@, final(env)@) == spec_evaluate(program@, old(env)@, depth as nat),
{
    let v = eval_statements(&program.statements, 0, env, depth);
    unwrap_return(v)
}

/// Evaluates a program in the scope of the program, with calls nested at
/// most `DEFAULT_CALL_DEPTH` deep. What the program binds stays bound in
/// `env`, and what it prints is added to the output of `env`.
pub fn evaluate(program: &Program, env: &mut Environment) -> (v: Value)
    ensures
        (v@, final(env)@) == spec_evaluate(program@, old(env)@, DEFAULT_CALL_DEPTH as nat),
{
    evaluate_within(program, env, DEFAULT_CALL_DEPTH)
}

} // verus!
