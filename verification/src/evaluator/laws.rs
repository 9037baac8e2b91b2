//! Laws of evaluation: what holds of every value and every environment.

use crate::evaluator::builtins::{spec_apply_builtin, spec_print_all};
use crate::evaluator::display::spec_value_text;
use crate::evaluator::environment::SpecEnvironment;
use crate::evaluator::operators::{
    spec_eval_index, spec_eval_infix, spec_eval_prefix, spec_quotient, spec_wrap,
};
use crate::evaluator::semantics::{
    spec_bind_parameters, spec_call_frame, spec_eval_block, spec_eval_expression, spec_eval_list,
    spec_eval_pairs, spec_eval_statement, spec_evaluate,
};
use crate::evaluator::hash::{lemma_insert_keeps_sorted, spec_insert, spec_sorted};
use crate::evaluator::value::{spec_hash_key, spec_truthy, Builtin, SpecKey, SpecValue};
use crate::lexer::token::{SpecToken, TokenKind};
use crate::parser::ast::{SpecExpression, SpecIdentifier, SpecStatement};
use vstd::prelude::*;

verus! {

/// An array indexed outside its bounds gives `null`, not an error; inside
/// its bounds it gives the element at the index.
pub proof fn lemma_index_of_array(elements: Seq<SpecValue>, i: i64)
    ensures
        0 <= i < elements.len() ==> spec_eval_index(
            SpecValue::Array(elements),
            SpecValue::Integer(i),
        ) == elements[i as int],
        !(0 <= i < elements.len()) ==> spec_eval_index(
            SpecValue::Array(elements),
            SpecValue::Integer(i),
        ) == SpecValue::Null,
{
}

/// Whatever integer is divided by zero, the result is the error `division
/// by zero`.
pub proof fn lemma_division_by_zero(token: SpecToken, a: i64)
    requires
        token.kind == TokenKind::Slash,
    ensures
        spec_eval_infix(token, SpecValue::Integer(a), SpecValue::Integer(0))
            == SpecValue::ErrorSignal("division by zero"@),
{
}

/// Only `false` and `null` count as false: `!` gives `true` on these two and
/// `false` on every other value.
pub proof fn lemma_truthiness(token: SpecToken, v: SpecValue)
    requires
        token.kind == TokenKind::Bang,
    ensures
        spec_truthy(v) <==> (v != SpecValue::Boolean(false) && v != SpecValue::Null),
        spec_eval_prefix(token, v) == SpecValue::Boolean(
            v == SpecValue::Boolean(false) || v == SpecValue::Null,
        ),
{
}

/// `==` holds of a value and itself, and `!=` is its negation.
pub proof fn lemma_equality(equal: SpecToken, unequal: SpecToken, a: SpecValue, b: SpecValue)
    requires
        equal.kind == TokenKind::Equal,
        unequal.kind == TokenKind::NotEqual,
    ensures
        spec_eval_infix(equal, a, a) == SpecValue::Boolean(true),
        spec_eval_infix(equal, a, b) == spec_eval_infix(equal, b, a),
        spec_eval_infix(unequal, a, b) == SpecValue::Boolean(
            spec_eval_infix(equal, a, b) != SpecValue::Boolean(true),
        ),
{
}

/// Arithmetic is exact where the exact result fits 64 bits.
pub proof fn lemma_wrap_of_what_fits(n: int)
    requires
        i64::MIN <= n <= i64::MAX,
    ensures
        spec_wrap(n) == n,
{
}

/// The quotient rounds towards zero: the remainder is smaller in magnitude
/// than the divisor, and it is zero or has the sign of the dividend.
pub proof fn lemma_quotient(a: int, b: int)
    requires
        b != 0,
    ensures
        ({
            let r = a - spec_quotient(a, b) * b;
            &&& -b < r < b || b < r < -b
            &&& a >= 0 ==> r >= 0
            &&& a <= 0 ==> r <= 0
        }),
{
    let x = if a >= 0 {
        a
    } else {
        -a
    };
    let d = if b > 0 {
        b
    } else {
        -b
    };
    vstd::arithmetic::div_mod::lemma_fundamental_div_mod(x, d);
    vstd::arithmetic::div_mod::lemma_mod_bound(x, d);
    let q = x / d;
    assert(x == d * q + x % d);
    assert(spec_quotient(a, b) == if (a >= 0) == (b > 0) {
        q
    } else {
        -q
    });
    assert(spec_quotient(a, b) * b == if a >= 0 {
        d * q
    } else {
        -(d * q)
    }) by (nonlinear_arith)
        requires
            spec_quotient(a, b) == if (a >= 0) == (b > 0) {
                q
            } else {
                -q
            },
            d == if b > 0 {
                b
            } else {
                -b
            },
    ;
}

/// The hash map that a hash map literal evaluates to holds its entries in
/// the order of their keys, each key once, whatever the order of the pairs
/// in the source.
pub proof fn lemma_hash_literal_in_order(
    pairs: Seq<(SpecExpression, SpecExpression)>,
    i: nat,
    scope: nat,
    env: SpecEnvironment,
    depth: nat,
    read: Seq<(SpecKey, SpecValue)>,
)
    requires
        spec_sorted(read),
    ensures
        spec_eval_pairs(pairs, i, scope, env, depth, read).0 is HashMap ==> spec_sorted(
            spec_eval_pairs(pairs, i, scope, env, depth, read).0->HashMap_0,
        ),
    decreases pairs.len() - i,
{
    if i < pairs.len() {
        let (key, env1) = spec_eval_expression(pairs[i as int].0, scope, env, depth);
        if !(key is ErrorSignal) && spec_hash_key(key) is Some {
            let (value, env2) = spec_eval_expression(pairs[i as int].1, scope, env1, depth);
            if !(value is ErrorSignal) {
                lemma_insert_keeps_sorted(read, spec_hash_key(key)->0, value);
                lemma_hash_literal_in_order(
                    pairs,
                    i + 1,
                    scope,
                    env2,
                    depth,
                    spec_insert(read, spec_hash_key(key)->0, value),
                );
            }
        }
    }
}

/// The environment `after` is the environment `before` grown: no scope is
/// gone, every scope has the outer scope it had, and nothing that was
/// printed is gone.
#[verifier::opaque]
pub open spec fn spec_extends(before: SpecEnvironment, after: SpecEnvironment) -> bool {
    &&& before.scopes.len() <= after.scopes.len()
    &&& forall|i: int|
        0 <= i < before.scopes.len() ==> (#[trigger] after.scopes[i]).outer
            == before.scopes[i].outer
    &&& before.output.len() <= after.output.len()
    &&& before.output == after.output.take(before.output.len() as int)
}

/// Every environment extends itself.
pub proof fn lemma_extends_itself(env: SpecEnvironment)
    ensures
        spec_extends(env, env),
{
    reveal(spec_extends);
    assert(env.output.take(env.output.len() as int) =~= env.output);
}

/// What extends an environment that extends another extends that other.
pub proof fn lemma_extends_transitive(a: SpecEnvironment, b: SpecEnvironment, c: SpecEnvironment)
    requires
        spec_extends(a, b),
        spec_extends(b, c),
    ensures
        spec_extends(a, c),
{
    reveal(spec_extends);
    assert forall|i: int| 0 <= i < a.scopes.len() implies (#[trigger] c.scopes[i]).outer
        == a.scopes[i].outer by {
        assert(b.scopes[i].outer == a.scopes[i].outer);
    }
    assert(a.output =~= c.output.take(a.output.len() as int));
}

/// Binding a name extends the environment.
pub proof fn lemma_bind_extends(
    a: SpecEnvironment,
    env: SpecEnvironment,
    scope: nat,
    name: Seq<char>,
    value: SpecValue,
)
    requires
        spec_extends(a, env),
    ensures
        spec_extends(a, env.bind(scope, name, value)),
{
    reveal(spec_extends);
    let after = env.bind(scope, name, value);
    assert(env.output.take(env.output.len() as int) =~= env.output);
    assert(spec_extends(env, after));
    lemma_extends_transitive(a, env, after);
}

/// Opening a scope extends the environment.
pub proof fn lemma_enter_extends(a: SpecEnvironment, env: SpecEnvironment, outer: nat)
    requires
        spec_extends(a, env),
    ensures
        spec_extends(a, env.enter(outer)),
{
    reveal(spec_extends);
    assert(env.output.take(env.output.len() as int) =~= env.output);
    assert(spec_extends(env, env.enter(outer)));
    lemma_extends_transitive(a, env, env.enter(outer));
}

/// Printing a line extends the environment.
pub proof fn lemma_print_extends(a: SpecEnvironment, env: SpecEnvironment, line: Seq<char>)
    requires
        spec_extends(a, env),
    ensures
        spec_extends(a, env.print(line)),
{
    reveal(spec_extends);
    assert(env.print(line).output.take(env.output.len() as int) =~= env.output);
    assert(spec_extends(env, env.print(line)));
    lemma_extends_transitive(a, env, env.print(line));
}

/// Printing values extends the environment.
pub proof fn lemma_print_all_extends(env: SpecEnvironment, values: Seq<SpecValue>, i: int)
    ensures
        spec_extends(env, spec_print_all(env, values, i)),
    decreases values.len() - i,
{
    lemma_extends_itself(env);
    if !(i < 0 || i >= values.len()) {
        let printed = env.print(spec_value_text(values[i]));
        lemma_print_extends(env, env, spec_value_text(values[i]));
        lemma_print_all_extends(printed, values, i + 1);
        lemma_extends_transitive(env, printed, spec_print_all(printed, values, i + 1));
    }
}

/// Applying a built-in function extends the environment.
pub proof fn lemma_builtin_extends(b: Builtin, args: Seq<SpecValue>, env: SpecEnvironment)
    ensures
        spec_extends(env, spec_apply_builtin(b, args, env).1),
{
    lemma_extends_itself(env);
    lemma_print_all_extends(env, args, 0);
}

/// Binding parameters extends the environment.
pub proof fn lemma_bind_parameters_extends(
    env: SpecEnvironment,
    scope: nat,
    parameters: Seq<SpecIdentifier>,
    args: Seq<SpecValue>,
    i: int,
)
    ensures
        spec_extends(env, spec_bind_parameters(env, scope, parameters, args, i)),
    decreases parameters.len() - i,
{
    lemma_extends_itself(env);
    if !(i < 0 || i >= parameters.len() || i >= args.len()) {
        let bound = env.bind(scope, parameters[i].value, args[i]);
        lemma_bind_extends(env, env, scope, parameters[i].value, args[i]);
        lemma_bind_parameters_extends(bound, scope, parameters, args, i + 1);
        lemma_extends_transitive(
            env,
            bound,
            spec_bind_parameters(bound, scope, parameters, args, i + 1),
        );
    }
}

/// Opening the frame of a call extends the environment.
pub proof fn lemma_call_frame_extends(
    env: SpecEnvironment,
    made_in: nat,
    parameters: Seq<SpecIdentifier>,
    args: Seq<SpecValue>,
)
    ensures
        spec_extends(env, spec_call_frame(env, made_in, parameters, args)),
{
    lemma_extends_itself(env);
    lemma_enter_extends(env, env, made_in);
    lemma_bind_parameters_extends(env.enter(made_in), env.scopes.len(), parameters, args, 0);
    lemma_extends_transitive(
        env,
        env.enter(made_in),
        spec_call_frame(env, made_in, parameters, args),
    );
}

/// Evaluating an expression extends the environment: the scopes that
/// function values hold on to stay, with their outer scopes, whatever is
/// called and whatever returns.
pub proof fn lemma_expression_extends(
    e: SpecExpression,
    scope: nat,
    env: SpecEnvironment,
    depth: nat,
)
    ensures
        spec_extends(env, spec_eval_expression(e, scope, env, depth).1),
    decreases depth, e, 1nat,
{
    lemma_extends_itself(env);
    match e {
        SpecExpression::Identifier(_) => {},
        SpecExpression::Primitive(_) => {},
        SpecExpression::Prefix { token, right } => {
            lemma_expression_extends(*right, scope, env, depth);
        },
        SpecExpression::Infix { token, left, right } => {
            lemma_expression_extends(*left, scope, env, depth);
            let (l, env1) = spec_eval_expression(*left, scope, env, depth);
            if !(l is ErrorSignal) {
                lemma_expression_extends(*right, scope, env1, depth);
                lemma_extends_transitive(
                    env,
                    env1,
                    spec_eval_expression(*right, scope, env1, depth).1,
                );
            }
        },
        SpecExpression::Conditional { condition, consequence, alternative } => {
            lemma_expression_extends(*condition, scope, env, depth);
            let (c, env1) = spec_eval_expression(*condition, scope, env, depth);
            if !(c is ErrorSignal) {
                if spec_truthy(c) {
                    lemma_block_extends(consequence, 0, scope, env1, depth, SpecValue::Null);
                    lemma_extends_transitive(
                        env,
                        env1,
                        spec_eval_block(consequence, 0, scope, env1, depth, SpecValue::Null).1,
                    );
                } else if let Some(block) = alternative {
                    lemma_block_extends(block, 0, scope, env1, depth, SpecValue::Null);
                    lemma_extends_transitive(
                        env,
                        env1,
                        spec_eval_block(block, 0, scope, env1, depth, SpecValue::Null).1,
                    );
                }
            }
        },
        SpecExpression::FunctionLiteral { .. } => {},
        SpecExpression::FunctionCall { .. } => {
            lemma_call_extends(e, scope, env, depth);
        },
        SpecExpression::ArrayLiteral { elements } => {
            lemma_list_extends(elements, 0, scope, env, depth, Seq::empty());
        },
        SpecExpression::Index { left, index } => {
            lemma_expression_extends(*left, scope, env, depth);
            let (l, env1) = spec_eval_expression(*left, scope, env, depth);
            if !(l is ErrorSignal) {
                lemma_expression_extends(*index, scope, env1, depth);
                lemma_extends_transitive(
                    env,
                    env1,
                    spec_eval_expression(*index, scope, env1, depth).1,
                );
            }
        },
        SpecExpression::HashMapLiteral { pairs } => {
            lemma_pairs_extends(pairs, 0, scope, env, depth, Seq::empty());
        },
    }
}

/// Evaluating a call extends the environment.
proof fn lemma_call_extends(e: SpecExpression, scope: nat, env: SpecEnvironment, depth: nat)
    requires
        e is FunctionCall,
    ensures
        spec_extends(env, spec_eval_expression(e, scope, env, depth).1),
    decreases depth, e, 0nat,
{
    let function = *e->function;
    let arguments = e->arguments;
    lemma_extends_itself(env);
    lemma_expression_extends(function, scope, env, depth);
    let (callee, env1) = spec_eval_expression(function, scope, env, depth);
    if !(callee is ErrorSignal) && (callee is Function || callee is Builtin) {
        lemma_list_extends(arguments, 0, scope, env1, depth, Seq::empty());
        let (args, env2) = spec_eval_list(arguments, 0, scope, env1, depth, Seq::empty());
        lemma_extends_transitive(env, env1, env2);
        if let Ok(args) = args {
            match callee {
                SpecValue::Function { parameters, body, scope: made_in } => {
                    if args.len() == parameters.len() && depth > 0 {
                        let frame = spec_call_frame(env2, made_in, parameters, args);
                        lemma_call_frame_extends(env2, made_in, parameters, args);
                        lemma_extends_transitive(env, env2, frame);
                        lemma_block_extends(
                            body,
                            0,
                            env2.scopes.len(),
                            frame,
                            (depth - 1) as nat,
                            SpecValue::Null,
                        );
                        lemma_extends_transitive(
                            env,
                            frame,
                            spec_eval_block(
                                body,
                                0,
                                env2.scopes.len(),
                                frame,
                                (depth - 1) as nat,
                                SpecValue::Null,
                            ).1,
                        );
                    }
                },
                SpecValue::Builtin(b) => {
                    lemma_builtin_extends(b, args, env2);
                    lemma_extends_transitive(env, env2, spec_apply_builtin(b, args, env2).1);
                },
                _ => {},
            }
        }
    }
}

/// Evaluating a list of expressions extends the environment.
pub proof fn lemma_list_extends(
    es: Seq<SpecExpression>,
    i: nat,
    scope: nat,
    env: SpecEnvironment,
    depth: nat,
    read: Seq<SpecValue>,
)
    ensures
        spec_extends(env, spec_eval_list(es, i, scope, env, depth, read).1),
    decreases depth, es, es.len() - i,
{
    lemma_extends_itself(env);
    if i < es.len() {
        lemma_expression_extends(es[i as int], scope, env, depth);
        let (v, env1) = spec_eval_expression(es[i as int], scope, env, depth);
        if !(v is ErrorSignal) {
            lemma_list_extends(es, i + 1, scope, env1, depth, read.push(v));
            lemma_extends_transitive(
                env,
                env1,
                spec_eval_list(es, i + 1, scope, env1, depth, read.push(v)).1,
            );
        }
    }
}

/// Evaluating the pairs of a hash map literal extends the environment.
pub proof fn lemma_pairs_extends(
    pairs: Seq<(SpecExpression, SpecExpression)>,
    i: nat,
    scope: nat,
    env: SpecEnvironment,
    depth: nat,
    read: Seq<(SpecKey, SpecValue)>,
)
    ensures
        spec_extends(env, spec_eval_pairs(pairs, i, scope, env, depth, read).1),
    decreases depth, pairs, pairs.len() - i,
{
    lemma_extends_itself(env);
    if i < pairs.len() {
        lemma_expression_extends(pairs[i as int].0, scope, env, depth);
        let (key, env1) = spec_eval_expression(pairs[i as int].0, scope, env, depth);
        if !(key is ErrorSignal) && spec_hash_key(key) is Some {
            lemma_expression_extends(pairs[i as int].1, scope, env1, depth);
            let (value, env2) = spec_eval_expression(pairs[i as int].1, scope, env1, depth);
            lemma_extends_transitive(env, env1, env2);
            if !(value is ErrorSignal) {
                let longer = spec_insert(read, spec_hash_key(key)->0, value);
                lemma_pairs_extends(pairs, i + 1, scope, env2, depth, longer);
                lemma_extends_transitive(
                    env,
                    env2,
                    spec_eval_pairs(pairs, i + 1, scope, env2, depth, longer).1,
                );
            }
        }
    }
}

/// Evaluating a block extends the environment.
pub proof fn lemma_block_extends(
    statements: Seq<SpecStatement>,
    i: nat,
    scope: nat,
    env: SpecEnvironment,
    depth: nat,
    last: SpecValue,
)
    ensures
        spec_extends(env, spec_eval_block(statements, i, scope, env, depth, last).1),
    decreases depth, statements, statements.len() - i,
{
    lemma_extends_itself(env);
    if i < statements.len() {
        lemma_statement_extends(statements[i as int], scope, env, depth);
        let (v, env1) = spec_eval_statement(statements[i as int], scope, env, depth);
        if !(v is ReturnSignal || v is ErrorSignal) {
            lemma_block_extends(statements, i + 1, scope, env1, depth, v);
            lemma_extends_transitive(
                env,
                env1,
                spec_eval_block(statements, i + 1, scope, env1, depth, v).1,
            );
        }
    }
}

/// Evaluating a statement extends the environment.
pub proof fn lemma_statement_extends(
    s: SpecStatement,
    scope: nat,
    env: SpecEnvironment,
    depth: nat,
)
    ensures
        spec_extends(env, spec_eval_statement(s, scope, env, depth).1),
    decreases depth, s, 0nat,
{
    match s {
        SpecStatement::Let { name, value } => {
            lemma_expression_extends(value, scope, env, depth);
            let (v, env1) = spec_eval_expression(value, scope, env, depth);
            lemma_bind_extends(env, env1, scope, name.value, v);
        },
        SpecStatement::Return { value } => {
            lemma_expression_extends(value, scope, env, depth);
        },
        SpecStatement::Expression { value } => {
            lemma_expression_extends(value, scope, env, depth);
        },
    }
}

/// Evaluating a program extends the environment.
pub proof fn lemma_evaluate_extends(
    program: Seq<SpecStatement>,
    env: SpecEnvironment,
    depth: nat,
)
    ensures
        spec_extends(env, spec_evaluate(program, env, depth).1),
{
    lemma_block_extends(program, 0, 0, env, depth, SpecValue::Null);
}

} // verus!
