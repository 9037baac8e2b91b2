//! Operators on values: the prefix and the binary operators, and indexing.

use crate::evaluator::hash::{get_entry, spec_get};
use crate::evaluator::value::{
    lemma_values_model, spec_hash_key, spec_kind_name, spec_truthy, SpecValue, Value,
};
use crate::lexer::token::{SpecToken, Token, TokenKind};
use vstd::prelude::*;
use vstd::string::*;

verus! {

/// The 64-bit signed integer that differs from `n` by a multiple of 2^64:
/// what arithmetic on integers gives when the exact result does not fit.
pub open spec fn spec_wrap(n: int) -> i64 {
    let m = n % 0x1_0000_0000_0000_0000;
    if m > i64::MAX {
        (m - 0x1_0000_0000_0000_0000) as i64
    } else {
        m as i64
    }
}

/// The quotient of `a` by `b`, rounded towards zero.
pub open spec fn spec_quotient(a: int, b: int) -> int
    recommends
        b != 0,
{
    if a >= 0 && b > 0 {
        a / b
    } else if a < 0 && b > 0 {
        -((-a) / b)
    } else if a >= 0 && b < 0 {
        -(a / (-b))
    } else {
        (-a) / (-b)
    }
}

/// The error for an operator that its operand does not admit.
pub open spec fn spec_unknown_prefix_message(operator: Seq<char>, right: SpecValue) -> Seq<char> {
    "unknown operator: "@ + operator + spec_kind_name(right)
}

/// The error for operands of the wrong type.
pub open spec fn spec_mismatch_message(
    left: SpecValue,
    operator: Seq<char>,
    right: SpecValue,
) -> Seq<char> {
    "type mismatch: "@ + spec_kind_name(left) + " "@ + operator + " "@ + spec_kind_name(right)
}

/// The error for a token that is no binary operator.
pub open spec fn spec_unknown_infix_message(
    left: SpecValue,
    operator: Seq<char>,
    right: SpecValue,
) -> Seq<char> {
    "unknown operator: "@ + spec_kind_name(left) + " "@ + operator + " "@ + spec_kind_name(right)
}

/// The error for a value that cannot be indexed, or not by such an index.
pub open spec fn spec_index_message(collection: SpecValue) -> Seq<char> {
    "index operator not supported: "@ + spec_kind_name(collection)
}

/// A prefix operator applied to a value. `!` gives whether the value counts
/// as false. `-` negates an integer and is an error on anything else.
pub open spec fn spec_eval_prefix(token: SpecToken, right: SpecValue) -> SpecValue {
    if token.kind == TokenKind::Bang {
        SpecValue::Boolean(!spec_truthy(right))
    } else if token.kind == TokenKind::Minus && right is Integer {
        SpecValue::Integer(spec_wrap(-(right->Integer_0 as int)))
    } else {
        SpecValue::ErrorSignal(spec_unknown_prefix_message(token.text, right))
    }
}

/// An arithmetic or relational operator applied to two integers.
pub open spec fn spec_eval_integers(kind: TokenKind, a: i64, b: i64) -> SpecValue
    recommends
        spec_takes_integers(kind),
{
    match kind {
        TokenKind::Plus => SpecValue::Integer(spec_wrap(a + b)),
        TokenKind::Minus => SpecValue::Integer(spec_wrap(a - b)),
        TokenKind::Asterisk => SpecValue::Integer(spec_wrap(a * b)),
        TokenKind::Slash => if b == 0 {
            SpecValue::ErrorSignal("division by zero"@)
        } else {
            SpecValue::Integer(spec_wrap(spec_quotient(a as int, b as int)))
        },
        TokenKind::LT => SpecValue::Boolean(a < b),
        TokenKind::GT => SpecValue::Boolean(a > b),
        TokenKind::LTE => SpecValue::Boolean(a <= b),
        _ => SpecValue::Boolean(a >= b),
    }
}

/// Whether the operator is one of those that take two integers.
pub open spec fn spec_takes_integers(kind: TokenKind) -> bool {
    kind == TokenKind::Plus || kind == TokenKind::Minus || kind == TokenKind::Asterisk || kind
        == TokenKind::Slash || kind == TokenKind::LT || kind == TokenKind::GT || kind
        == TokenKind::LTE || kind == TokenKind::GTE
}

/// A binary operator applied to two values. `==` and `!=` compare any two
/// values; the arithmetic and the relational operators take integers, `&&`
/// and `||` take booleans, and operands of another type are an error.
pub open spec fn spec_eval_infix(token: SpecToken, left: SpecValue, right: SpecValue) -> SpecValue {
    if token.kind == TokenKind::Equal {
        SpecValue::Boolean(left == right)
    } else if token.kind == TokenKind::NotEqual {
        SpecValue::Boolean(left != right)
    } else if spec_takes_integers(token.kind) {
        if left is Integer && right is Integer {
            spec_eval_integers(token.kind, left->Integer_0, right->Integer_0)
        } else {
            SpecValue::ErrorSignal(spec_mismatch_message(left, token.text, right))
        }
    } else if token.kind == TokenKind::And || token.kind == TokenKind::Or {
        if left is Boolean && right is Boolean {
            if token.kind == TokenKind::And {
                SpecValue::Boolean(left->Boolean_0 && right->Boolean_0)
            } else {
                SpecValue::Boolean(left->Boolean_0 || right->Boolean_0)
            }
        } else {
            SpecValue::ErrorSignal(spec_mismatch_message(left, token.text, right))
        }
    } else {
        SpecValue::ErrorSignal(spec_unknown_infix_message(left, token.text, right))
    }
}

/// A value indexed by another. An array gives the element at an integer
/// index, and `null` where the index is negative or too large. A hash map
/// gives the value of a key, and `null` where the key is not bound. Anything
/// else is an error.
pub open spec fn spec_eval_index(collection: SpecValue, index: SpecValue) -> SpecValue {
    if collection is Array && index is Integer {
        let elements = collection->Array_0;
        let i = index->Integer_0;
        if 0 <= i < elements.len() {
            elements[i as int]
        } else {
            SpecValue::Null
        }
    } else if collection is HashMap && spec_hash_key(index) is Some {
        match spec_get(collection->HashMap_0, spec_hash_key(index)->0) {
            Some(v) => v,
            None => SpecValue::Null,
        }
    } else {
        SpecValue::ErrorSignal(spec_index_message(collection))
    }
}

fn takes_integers(kind: TokenKind) -> (b: bool)
    ensures
        b == spec_takes_integers(kind),
{
    kind == TokenKind::Plus || kind == TokenKind::Minus || kind == TokenKind::Asterisk || kind
        == TokenKind::Slash || kind == TokenKind::LT || kind == TokenKind::GT || kind
        == TokenKind::LTE || kind == TokenKind::GTE
}

fn operands_message(head: &str, left: &Value, token: &Token, right: &Value) -> (message: String)
    ensures
        message@ == head@ + spec_kind_name(left@) + " "@ + token@.text + " "@ + spec_kind_name(
            right@,
        ),
{
    let mut message = String::from_str(head);
    message.append(left.kind_name());
    message.append(" ");
    let operator = token.to_string();
    message.append(operator.as_str());
    message.append(" ");
    message.append(right.kind_name());
    assert(message@ =~= head@ + spec_kind_name(left@) + " "@ + token@.text + " "@
        + spec_kind_name(right@));
    message
}

/// Applies a prefix operator.
pub fn eval_prefix(token: &Token, right: &Value) -> (v: Value)
    ensures
        v@ == spec_eval_prefix(token@, right@),
{
    let kind: TokenKind = token.kind();
    if kind == TokenKind::Bang {
        return Value::Boolean(!right.is_truthy());
    }
    if kind == TokenKind::Minus {
        if let Value::Integer(n) = right {
            return Value::Integer(0i64.wrapping_sub(*n));
        }
    }
    let mut message = String::from_str("unknown operator: ");
    let operator = token.to_string();
    message.append(operator.as_str());
    message.append(right.kind_name());
    assert(message@ =~= spec_unknown_prefix_message(token@.text, right@));
    Value::ErrorSignal(message)
}

/// The quotient of `a` by `b`, rounded towards zero and wrapped into 64 bits.
pub fn wrapping_quotient(a: i64, b: i64) -> (q: i64)
    requires
        b != 0,
    ensures
        q == spec_wrap(spec_quotient(a as int, b as int)),
{
    let ghost x: int = if a >= 0 {
        a as int
    } else {
        -a
    };
    let ghost d: int = if b > 0 {
        b as int
    } else {
        -b
    };
    proof {
        vstd::arithmetic::div_mod::lemma_div_nonincreasing(x, d);
        vstd::arithmetic::div_mod::lemma_div_pos_is_pos(x, d);
        vstd::arithmetic::div_mod::lemma_div_of0(d);
        if d > 1 && x > 0 {
            vstd::arithmetic::div_mod::lemma_div_is_strictly_smaller(x, d);
        }
    }
    match a.checked_div(b) {
        Some(q) => q,
        None => i64::MIN,
    }
}

fn eval_integers(kind: TokenKind, a: i64, b: i64) -> (v: Value)
    requires
        spec_takes_integers(kind),
    ensures
        v@ == spec_eval_integers(kind, a, b),
{
    match kind {
        TokenKind::Plus => Value::Integer(a.wrapping_add(b)),
        TokenKind::Minus => Value::Integer(a.wrapping_sub(b)),
        TokenKind::Asterisk => Value::Integer(a.wrapping_mul(b)),
        TokenKind::Slash => {
            if b == 0 {
                Value::ErrorSignal(String::from_str("division by zero"))
            } else {
                Value::Integer(wrapping_quotient(a, b))
            }
        },
        TokenKind::LT => Value::Boolean(a < b),
        TokenKind::GT => Value::Boolean(a > b),
        TokenKind::LTE => Value::Boolean(a <= b),
        _ => Value::Boolean(a >= b),
    }
}

/// Applies a binary operator.
pub fn eval_infix(token: &Token, left: &Value, right: &Value) -> (v: Value)
    ensures
        v@ == spec_eval_infix(token@, left@, right@),
{
    let kind: TokenKind = token.kind();
    if kind == TokenKind::Equal {
        return Value::Boolean(left.same(right));
    }
    if kind == TokenKind::NotEqual {
        return Value::Boolean(!left.same(right));
    }
    if takes_integers(kind) {
        return match (left, right) {
            (Value::Integer(a), Value::Integer(b)) => eval_integers(kind, *a, *b),
            _ => Value::ErrorSignal(operands_message("type mismatch: ", left, token, right)),
        };
    }
    if kind == TokenKind::And || kind == TokenKind::Or {
        return match (left, right) {
            (Value::Boolean(a), Value::Boolean(b)) => {
                if kind == TokenKind::And {
                    Value::Boolean(*a && *b)
                } else {
                    Value::Boolean(*a || *b)
                }
            },
            _ => Value::ErrorSignal(operands_message("type mismatch: ", left, token, right)),
        };
    }
    Value::ErrorSignal(operands_message("unknown operator: ", left, token, right))
}

/// Indexes a value by another.
pub fn eval_index(collection: &Value, index: &Value) -> (v: Value)
    ensures
        v@ == spec_eval_index(collection@, index@),
{
    match collection {
        Value::Array(elements) => {
            if let Value::Integer(i) = index {
                let n: usize = elements.len();
                proof {
                    lemma_values_model(elements@);
                }
                if 0 <= *i && (*i as u64) < (n as u64) {
                    let at: usize = *i as usize;
                    return elements[at].clone();
                } else {
                    return Value::Null;
                }
            }
        },
        Value::HashMap(entries) => {
            if let Some(key) = index.hash_key() {
                return match get_entry(entries, &key) {
                    Some(v) => v,
                    None => Value::Null,
                };
            }
        },
        _ => {},
    }
    let mut message = String::from_str("index operator not supported: ");
    message.append(collection.kind_name());
    Value::ErrorSignal(message)
}

} // verus!
