//! The built-in functions: `len`, `first`, `last`, `rest`, `push`, `puts`.

use crate::evaluator::display::spec_value_text;
use crate::evaluator::environment::{Environment, SpecEnvironment};
use crate::evaluator::value::{
    clone_values, lemma_values_model, spec_builtin_name, spec_kind_name, value_model,
    values_model, Builtin, SpecValue, Value,
};
use crate::text::{push_integer, spec_decimal};
use vstd::prelude::*;
use vstd::string::*;

verus! {

/// A length as an integer value; the greatest integer where it does not fit.
pub open spec fn spec_length_value(n: nat) -> i64 {
    if n <= i64::MAX {
        n as i64
    } else {
        i64::MAX
    }
}

/// The error for a call with the wrong number of arguments.
pub open spec fn spec_count_message(got: nat, want: nat) -> Seq<char> {
    "wrong number of arguments. got="@ + spec_decimal(spec_length_value(got) as int) + ", want="@
        + spec_decimal(spec_length_value(want) as int)
}

/// The error for an argument of a type that the built-in function does not
/// take.
pub open spec fn spec_unsupported_message(b: Builtin, argument: SpecValue) -> Seq<char> {
    "argument to `"@ + spec_builtin_name(b) + "` not supported, got "@ + spec_kind_name(argument)
}

/// How many arguments the built-in function takes, if that is fixed.
pub open spec fn spec_arity(b: Builtin) -> Option<nat> {
    match b {
        Builtin::Len => Some(1),
        Builtin::First => Some(1),
        Builtin::Last => Some(1),
        Builtin::Rest => Some(1),
        Builtin::Push => Some(2),
        Builtin::Puts => None,
    }
}

/// The environment with the text of each of the values from position `i` on
/// printed on a line of its own.
pub open spec fn spec_print_all(env: SpecEnvironment, values: Seq<SpecValue>, i: int) -> SpecEnvironment
    decreases values.len() - i,
{
    if i < 0 || i >= values.len() {
        env
    } else {
        spec_print_all(env.print(spec_value_text(values[i])), values, i + 1)
    }
}

/// What a built-in function returns on the given arguments, which number as
/// many as it takes.
///
/// `len` gives the number of characters of a string or of elements of an
/// array. `first` and `last` give the first and the last element of an array
/// and `rest` the array without its first element, each `null` for the empty
/// array. `push` gives the array with one more element at its end. None of
/// them changes its argument. `puts` gives `null`. An argument of a type
/// that the function does not take is an error.
pub open spec fn spec_builtin_result(b: Builtin, args: Seq<SpecValue>) -> SpecValue
    recommends
        spec_arity(b) is Some ==> args.len() == spec_arity(b)->0,
{
    match b {
        Builtin::Len => match args[0] {
            SpecValue::Text(s) => SpecValue::Integer(spec_length_value(s.len())),
            SpecValue::Array(elements) => SpecValue::Integer(spec_length_value(elements.len())),
            _ => SpecValue::ErrorSignal(spec_unsupported_message(b, args[0])),
        },
        Builtin::First => match args[0] {
            SpecValue::Array(elements) => if elements.len() > 0 {
                elements[0]
            } else {
                SpecValue::Null
            },
            _ => SpecValue::ErrorSignal(spec_unsupported_message(b, args[0])),
        },
        Builtin::Last => match args[0] {
            SpecValue::Array(elements) => if elements.len() > 0 {
                elements[elements.len() - 1]
            } else {
                SpecValue::Null
            },
            _ => SpecValue::ErrorSignal(spec_unsupported_message(b, args[0])),
        },
        Builtin::Rest => match args[0] {
            SpecValue::Array(elements) => if elements.len() > 0 {
                SpecValue::Array(elements.skip(1))
            } else {
                SpecValue::Null
            },
            _ => SpecValue::ErrorSignal(spec_unsupported_message(b, args[0])),
        },
        Builtin::Push => match args[0] {
            SpecValue::Array(elements) => SpecValue::Array(elements.push(args[1])),
            _ => SpecValue::ErrorSignal(spec_unsupported_message(b, args[0])),
        },
        Builtin::Puts => SpecValue::Null,
    }
}

/// A built-in function applied to arguments: its result, and the environment
/// after it. Only `puts` changes the environment: it prints each argument on
/// a line of its own. The wrong number of arguments is an error.
pub open spec fn spec_apply_builtin(b: Builtin, args: Seq<SpecValue>, env: SpecEnvironment) -> (
    SpecValue,
    SpecEnvironment,
) {
    if spec_arity(b) is Some && args.len() != spec_arity(b)->0 {
        (SpecValue::ErrorSignal(spec_count_message(args.len(), spec_arity(b)->0)), env)
    } else if b == Builtin::Puts {
        (SpecValue::Null, spec_print_all(env, args, 0))
    } else {
        (spec_builtin_result(b, args), env)
    }
}

/// A length as an integer value; the greatest integer where it does not fit.
pub fn length_value(n: usize) -> (v: i64)
    ensures
        v == spec_length_value(n as nat),
{
    let wide: u64 = n as u64;
    if wide <= 0x7fff_ffff_ffff_ffff {
        wide as i64
    } else {
        i64::MAX
    }
}

/// The error for a call with the wrong number of arguments.
pub fn count_message(got: usize, want: usize) -> (message: String)
    ensures
        message@ == spec_count_message(got as nat, want as nat),
{
    let mut message = String::from_str("wrong number of arguments. got=");
    push_integer(&mut message, length_value(got));
    message.append(", want=");
    push_integer(&mut message, length_value(want));
    assert(message@ =~= spec_count_message(got as nat, want as nat));
    message
}

fn unsupported(b: Builtin, argument: &Value) -> (v: Value)
    ensures
        v@ == SpecValue::ErrorSignal(spec_unsupported_message(b, argument@)),
{
    let mut message = String::from_str("argument to `");
    message.append(b.name());
    message.append("` not supported, got ");
    message.append(argument.kind_name());
    assert(message@ =~= spec_unsupported_message(b, argument@));
    Value::ErrorSignal(message)
}

fn arity(b: Builtin) -> (n: Option<usize>)
    ensures
        match n {
            Some(n) => Some(n as nat),
            None => None,
        } == spec_arity(b),
{
    match b {
        Builtin::Len => Some(1),
        Builtin::First => Some(1),
        Builtin::Last => Some(1),
        Builtin::Rest => Some(1),
        Builtin::Push => Some(2),
        Builtin::Puts => None,
    }
}

fn rest_of(elements: &Vec<Value>) -> (rest: Vec<Value>)
    requires
        elements.len() > 0,
    ensures
        values_model(rest@) == values_model(elements@).skip(1),
{
    let mut rest: Vec<Value> = Vec::new();
    let mut i: usize = 1;
    while i < elements.len()
        invariant
            1 <= i <= elements.len(),
            rest@.len() == i - 1,
            forall|j: int| 0 <= j < i - 1 ==> value_model(#[trigger] rest@[j]) == value_model(
                elements@[j + 1],
            ),
        decreases elements.len() - i,
    {
        rest.push(elements[i].clone());
        i += 1;
    }
    assert(values_model(rest@) =~= values_model(elements@).skip(1));
    rest
}

fn builtin_result(b: Builtin, args: &Vec<Value>) -> (v: Value)
    requires
        spec_arity(b) is Some ==> args.len() == spec_arity(b)->0,
    ensures
        v@ == spec_builtin_result(b, values_model(args@)),
{
    proof {
        lemma_values_model(args@);
    }
    match b {
        Builtin::Len => match &args[0] {
            Value::String(s) => Value::Integer(length_value(s.as_str().unicode_len())),
            Value::Array(elements) => {
                proof {
                    lemma_values_model(elements@);
                }
                Value::Integer(length_value(elements.len()))
            },
            other => unsupported(b, other),
        },
        Builtin::First => match &args[0] {
            Value::Array(elements) => {
                proof {
                    lemma_values_model(elements@);
                }
                if elements.len() > 0 {
                    elements[0].clone()
                } else {
                    Value::Null
                }
            },
            other => unsupported(b, other),
        },
        Builtin::Last => match &args[0] {
            Value::Array(elements) => {
                proof {
                    lemma_values_model(elements@);
                }
                if elements.len() > 0 {
                    elements[elements.len() - 1].clone()
                } else {
                    Value::Null
                }
            },
            other => unsupported(b, other),
        },
        Builtin::Rest => match &args[0] {
            Value::Array(elements) => {
                proof {
                    lemma_values_model(elements@);
                }
                if elements.len() > 0 {
                    Value::Array(rest_of(elements))
                } else {
                    Value::Null
                }
            },
            other => unsupported(b, other),
        },
        Builtin::Push => match &args[0] {
            Value::Array(elements) => {
                let mut longer = clone_values(elements);
                let ghost before = values_model(longer@);
                let added = args[1].clone();
                longer.push(added);
                assert(values_model(longer@) =~= before.push(added@));
                Value::Array(longer)
            },
            other => unsupported(b, other),
        },
        Builtin::Puts => Value::Null,
    }
}

/// Applies a built-in function to arguments.
pub fn apply_builtin(b: Builtin, args: &Vec<Value>, env: &mut Environment) -> (v: Value)
    ensures
        (v@, final(env)@) == spec_apply_builtin(b, values_model(args@), old(env)@),
{
    proof {
        lemma_values_model(args@);
    }
    if let Some(want) = arity(b) {
        if args.len() != want {
            return Value::ErrorSignal(count_message(args.len(), want));
        }
    }
    if b == Builtin::Puts {
        let mut i: usize = 0;
        while i < args.len()
            invariant
                i <= args.len(),
                spec_print_all(old(env)@, values_model(args@), 0) == spec_print_all(
                    env@,
                    values_model(args@),
                    i as int,
                ),
            decreases args.len() - i,
        {
            proof {
                lemma_values_model(args@);
            }
            env.print(args[i].to_string());
            i += 1;
        }
        return Value::Null;
    }
    builtin_result(b, args)
}

} // verus!
