//! What evaluation computes, stated on the mathematical model: the meaning
//! of every expression and statement as a function from the environment
//! before to a value and the environment after.
//!
//! `depth` is how many calls of functions may still be nested. A program
//! that nests its calls deeper gets an error in place of a result.

use crate::evaluator::builtins::{spec_apply_builtin, spec_count_message};
use crate::evaluator::environment::SpecEnvironment;
use crate::evaluator::hash::spec_insert;
use crate::evaluator::operators::{spec_eval_index, spec_eval_infix, spec_eval_prefix};
use crate::evaluator::value::{
    spec_builtin_named, spec_hash_key, spec_kind_name, spec_truthy, SpecKey, SpecValue,
};
use crate::parser::ast::{SpecExpression, SpecIdentifier, SpecPrimitive, SpecStatement};
use vstd::prelude::*;

verus! {

/// The error for a name that nothing binds.
pub open spec fn spec_not_found_message(name: Seq<char>) -> Seq<char> {
    "identifier not found: "@ + name
}

/// The error for a call of a value that is no function.
pub open spec fn spec_not_a_function_message(callee: SpecValue) -> Seq<char> {
    "not a function: "@ + spec_kind_name(callee)
}

/// The error for a key of a type that cannot be one.
pub open spec fn spec_unusable_key_message(key: SpecValue) -> Seq<char> {
    "unusable as hash key: "@ + spec_kind_name(key)
}

/// The error for calls nested deeper than the evaluation admits.
pub open spec fn spec_depth_message() -> Seq<char> {
    "call depth exceeded"@
}

/// The value of a literal.
pub open spec fn spec_eval_primitive(p: SpecPrimitive) -> SpecValue {
    match p {
        SpecPrimitive::Integer(n) => SpecValue::Integer(n),
        SpecPrimitive::Boolean(b) => SpecValue::Boolean(b),
        SpecPrimitive::Text(s) => SpecValue::Text(s),
    }
}

/// The value of a name as seen from `scope`: what the scopes bind it to,
/// innermost first; else the built-in function of that name; else an error.
pub open spec fn spec_eval_identifier(name: Seq<char>, scope: nat, env: SpecEnvironment) -> SpecValue {
    match env.lookup(scope, name) {
        Some(v) => v,
        None => match spec_builtin_named(name) {
            Some(b) => SpecValue::Builtin(b),
            None => SpecValue::ErrorSignal(spec_not_found_message(name)),
        },
    }
}

/// The value without the wrapper that `return` put round it.
pub open spec fn spec_unwrap_return(v: SpecValue) -> SpecValue {
    match v {
        SpecValue::ReturnSignal(inner) => *inner,
        _ => v,
    }
}

/// The environment with the parameters from position `i` on bound in
/// `scope`, each to the argument at its position.
pub open spec fn spec_bind_parameters(
    env: SpecEnvironment,
    scope: nat,
    parameters: Seq<SpecIdentifier>,
    args: Seq<SpecValue>,
    i: int,
) -> SpecEnvironment
    decreases parameters.len() - i,
{
    if i < 0 || i >= parameters.len() || i >= args.len() {
        env
    } else {
        spec_bind_parameters(
            env.bind(scope, parameters[i].value, args[i]),
            scope,
            parameters,
            args,
            i + 1,
        )
    }
}

/// The environment in which the body of a function runs: the environment of
/// the call with one more scope, inside the scope that the function was made
/// in, and in it the parameters bound to the arguments. The new scope has
/// the index `env.scopes.len()`.
pub open spec fn spec_call_frame(
    env: SpecEnvironment,
    made_in: nat,
    parameters: Seq<SpecIdentifier>,
    args: Seq<SpecValue>,
) -> SpecEnvironment {
    spec_bind_parameters(env.enter(made_in), env.scopes.len(), parameters, args, 0)
}

/// The value of an expression in `scope`, and the environment after it.
///
/// An error in a part of the expression is the value of the whole, and what
/// would have come after that part is not evaluated. A call evaluates the
/// callee, which must be a function, and then the arguments from left to
/// right. A built-in function is applied to them. For a function value the
/// number of arguments must be that of the parameters; its body then runs in
/// the frame of the call, one level deeper, and what the body returns is the
/// value of the call: a `return` ends here.
pub open spec fn spec_eval_expression(
    e: SpecExpression,
    scope: nat,
    env: SpecEnvironment,
    depth: nat,
) -> (SpecValue, SpecEnvironment)
    decreases depth, e, 0nat,
{
    match e {
        SpecExpression::Identifier(i) => (spec_eval_identifier(i.value, scope, env), env),
        SpecExpression::Primitive(p) => (spec_eval_primitive(p), env),
        SpecExpression::Prefix { token, right } => {
            let (right, env1) = spec_eval_expression(*right, scope, env, depth);
            if right is ErrorSignal {
                (right, env1)
            } else {
                (spec_eval_prefix(token, right), env1)
            }
        },
        SpecExpression::Infix { token, left, right } => {
            let (left, env1) = spec_eval_expression(*left, scope, env, depth);
            if left is ErrorSignal {
                (left, env1)
            } else {
                let (right, env2) = spec_eval_expression(*right, scope, env1, depth);
                if right is ErrorSignal {
                    (right, env2)
                } else {
                    (spec_eval_infix(token, left, right), env2)
                }
            }
        },
        SpecExpression::Conditional { condition, consequence, alternative } => {
            let (condition, env1) = spec_eval_expression(*condition, scope, env, depth);
            if condition is ErrorSignal {
                (condition, env1)
            } else if spec_truthy(condition) {
                spec_eval_block(consequence, 0, scope, env1, depth, SpecValue::Null)
            } else {
                match alternative {
                    Some(block) => spec_eval_block(block, 0, scope, env1, depth, SpecValue::Null),
                    None => (SpecValue::Null, env1),
                }
            }
        },
        SpecExpression::FunctionLiteral { parameters, body, name } => (
            SpecValue::Function { parameters, body, scope },
            env,
        ),
        SpecExpression::FunctionCall { function, arguments } => {
            let (callee, env1) = spec_eval_expression(*function, scope, env, depth);
            if callee is ErrorSignal {
                (callee, env1)
            } else if !(callee is Function || callee is Builtin) {
                (SpecValue::ErrorSignal(spec_not_a_function_message(callee)), env1)
            } else {
                let (args, env2) = spec_eval_list(arguments, 0, scope, env1, depth, Seq::empty());
                match args {
                    Ok(args) => match callee {
                        SpecValue::Function { parameters, body, scope: made_in } => {
                            if args.len() != parameters.len() {
                                (
                                    SpecValue::ErrorSignal(
                                        spec_count_message(args.len(), parameters.len()),
                                    ),
                                    env2,
                                )
                            } else if depth == 0 {
                                (SpecValue::ErrorSignal(spec_depth_message()), env2)
                            } else {
                                let inner = env2.scopes.len();
                                let (result, after) = spec_eval_block(
                                    body,
                                    0,
                                    inner,
                                    spec_call_frame(env2, made_in, parameters, args),
                                    (depth - 1) as nat,
                                    SpecValue::Null,
                                );
                                (spec_unwrap_return(result), after)
                            }
                        },
                        SpecValue::Builtin(b) => spec_apply_builtin(b, args, env2),
                        _ => (SpecValue::ErrorSignal(spec_not_a_function_message(callee)), env2),
                    },
                    Err(error) => (error, env2),
                }
            }
        },
        SpecExpression::ArrayLiteral { elements } => {
            let (values, env1) = spec_eval_list(elements, 0, scope, env, depth, Seq::empty());
            match values {
                Ok(values) => (SpecValue::Array(values), env1),
                Err(error) => (error, env1),
            }
        },
        SpecExpression::Index { left, index } => {
            let (left, env1) = spec_eval_expression(*left, scope, env, depth);
            if left is ErrorSignal {
                (left, env1)
            } else {
                let (index, env2) = spec_eval_expression(*index, scope, env1, depth);
                if index is ErrorSignal {
                    (index, env2)
                } else {
                    (spec_eval_index(left, index), env2)
                }
            }
        },
        SpecExpression::HashMapLiteral { pairs } => spec_eval_pairs(
            pairs,
            0,
            scope,
            env,
            depth,
            Seq::empty(),
        ),
    }
}

/// The values of the expressions from position `i` on, from left to right,
/// behind the values `read`; or the first error among them.
pub open spec fn spec_eval_list(
    es: Seq<SpecExpression>,
    i: nat,
    scope: nat,
    env: SpecEnvironment,
    depth: nat,
    read: Seq<SpecValue>,
) -> (Result<Seq<SpecValue>, SpecValue>, SpecEnvironment)
    decreases depth, es, es.len() - i,
{
    if i >= es.len() {
        (Ok(read), env)
    } else {
        let (v, env1) = spec_eval_expression(es[i as int], scope, env, depth);
        if v is ErrorSignal {
            (Err(v), env1)
        } else {
            spec_eval_list(es, i + 1, scope, env1, depth, read.push(v))
        }
    }
}

/// The hash map of the pairs from position `i` on, written in their order
/// over the entries `read`: of each pair first the key, which must be of a
/// type that can be one, then the value. Of two pairs with the same key the
/// later one stays.
pub open spec fn spec_eval_pairs(
    pairs: Seq<(SpecExpression, SpecExpression)>,
    i: nat,
    scope: nat,
    env: SpecEnvironment,
    depth: nat,
    read: Seq<(SpecKey, SpecValue)>,
) -> (SpecValue, SpecEnvironment)
    decreases depth, pairs, pairs.len() - i,
{
    if i >= pairs.len() {
        (SpecValue::HashMap(read), env)
    } else {
        let (key, env1) = spec_eval_expression(pairs[i as int].0, scope, env, depth);
        if key is ErrorSignal {
            (key, env1)
        } else if spec_hash_key(key) is None {
            (SpecValue::ErrorSignal(spec_unusable_key_message(key)), env1)
        } else {
            let (value, env2) = spec_eval_expression(pairs[i as int].1, scope, env1, depth);
            if value is ErrorSignal {
                (value, env2)
            } else {
                spec_eval_pairs(
                    pairs,
                    i + 1,
                    scope,
                    env2,
                    depth,
                    spec_insert(read, spec_hash_key(key)->0, value),
                )
            }
        }
    }
}

/// The value of the statements from position `i` on, where `last` is the
/// value of the statement before: the value of the last statement, or the
/// first `return` or error, behind which no statement runs. A block opens no
/// scope: it runs in the scope it stands in.
pub open spec fn spec_eval_block(
    statements: Seq<SpecStatement>,
    i: nat,
    scope: nat,
    env: SpecEnvironment,
    depth: nat,
    last: SpecValue,
) -> (SpecValue, SpecEnvironment)
    decreases depth, statements, statements.len() - i,
{
    if i >= statements.len() {
        (last, env)
    } else {
        let (v, env1) = spec_eval_statement(statements[i as int], scope, env, depth);
        if v is ReturnSignal || v is ErrorSignal {
            (v, env1)
        } else {
            spec_eval_block(statements, i + 1, scope, env1, depth, v)
        }
    }
}

/// The value of a statement. `let` binds the name in `scope` and gives
/// `null`; `return` wraps the value so that it travels up to the call; an
/// expression gives its value. An error in the expression is the value of
/// the statement.
pub open spec fn spec_eval_statement(
    s: SpecStatement,
    scope: nat,
    env: SpecEnvironment,
    depth: nat,
) -> (SpecValue, SpecEnvironment)
    decreases depth, s, 0nat,
{
    match s {
        SpecStatement::Let { name, value } => {
            let (v, env1) = spec_eval_expression(value, scope, env, depth);
            if v is ErrorSignal {
                (v, env1)
            } else {
                (SpecValue::Null, env1.bind(scope, name.value, v))
            }
        },
        SpecStatement::Return { value } => {
            let (v, env1) = spec_eval_expression(value, scope, env, depth);
            if v is ErrorSignal {
                (v, env1)
            } else {
                (SpecValue::ReturnSignal(Box::new(v)), env1)
            }
        },
        SpecStatement::Expression { value } => spec_eval_expression(value, scope, env, depth),
    }
}

/// The value of a program in the scope of the program, scope 0: that of its
/// last statement, or what the first `return` returns, or the first error;
/// `null` for the empty program.
pub open spec fn spec_evaluate(program: Seq<SpecStatement>, env: SpecEnvironment, depth: nat) -> (
    SpecValue,
    SpecEnvironment,
) {
    let (v, after) = spec_eval_block(program, 0, 0, env, depth, SpecValue::Null);
    (spec_unwrap_return(v), after)
}

} // verus!
