//! The text that shows a value.

use crate::evaluator::value::{entries_model, values_model, HashKey, SpecKey, SpecValue, Value};
use crate::parser::printer::{
    lemma_join_step, spec_block_text, spec_identifier_texts, spec_join, write_block,
    write_parameters,
};
use crate::text::{push_integer, spec_decimal};
use vstd::prelude::*;
use vstd::string::*;

verus! {

broadcast use vstd::std_specs::vec::axiom_vec_index_decreases;

/// `true` or `false`.
pub open spec fn spec_boolean_text(b: bool) -> Seq<char> {
    if b {
        "true"@
    } else {
        "false"@
    }
}

/// The text of a hash key: that of the value it is.
pub open spec fn spec_key_text(k: SpecKey) -> Seq<char> {
    match k {
        SpecKey::Integer(n) => spec_decimal(n as int),
        SpecKey::Boolean(b) => spec_boolean_text(b),
        SpecKey::Text(s) => s,
    }
}

/// The text that shows a value. A string shows as its characters, an array
/// between square brackets, a hash map between braces with its entries in
/// the order of their keys, a function as its literal, a returned value as
/// the value, an error as `ERROR: ` and its message.
pub open spec fn spec_value_text(v: SpecValue) -> Seq<char>
    decreases v,
{
    match v {
        SpecValue::Integer(n) => spec_decimal(n as int),
        SpecValue::Boolean(b) => spec_boolean_text(b),
        SpecValue::Text(s) => s,
        SpecValue::Null => "null"@,
        SpecValue::Array(elements) => "["@ + spec_join(spec_value_texts(elements), ", "@) + "]"@,
        SpecValue::HashMap(entries) => "{"@ + spec_join(spec_entry_texts(entries), ", "@) + "}"@,
        SpecValue::Function { parameters, body, scope } => "fn("@ + spec_join(
            spec_identifier_texts(parameters),
            ", "@,
        ) + ") {\n"@ + spec_block_text(body) + "}"@,
        SpecValue::Builtin(_) => "builtin function"@,
        SpecValue::ReturnSignal(inner) => spec_value_text(*inner),
        SpecValue::ErrorSignal(message) => "ERROR: "@ + message,
    }
}

/// The texts of the values.
pub open spec fn spec_value_texts(vs: Seq<SpecValue>) -> Seq<Seq<char>>
    decreases vs,
{
    Seq::new(
        vs.len(),
        |i: int|
            if 0 <= i < vs.len() {
                spec_value_text(vs[i])
            } else {
                Seq::empty()
            },
    )
}

/// The texts of the entries of a hash map: key, colon, value.
pub open spec fn spec_entry_texts(entries: Seq<(SpecKey, SpecValue)>) -> Seq<Seq<char>>
    decreases entries,
{
    Seq::new(
        entries.len(),
        |i: int|
            if 0 <= i < entries.len() {
                spec_key_text(entries[i].0) + ": "@ + spec_value_text(entries[i].1)
            } else {
                Seq::empty()
            },
    )
}

fn write_boolean(b: bool, out: &mut String)
    ensures
        final(out)@ == old(out)@ + spec_boolean_text(b),
{
    if b {
        out.append("true");
    } else {
        out.append("false");
    }
}

fn write_key(key: &HashKey, out: &mut String)
    ensures
        final(out)@ == old(out)@ + spec_key_text(key@),
{
    match key {
        HashKey::Integer(n) => push_integer(out, *n),
        HashKey::Boolean(b) => write_boolean(*b, out),
        HashKey::String(s) => out.append(s.as_str()),
    }
}

/// Appends the text that shows the value.
pub fn write_value(v: &Value, out: &mut String)
    ensures
        final(out)@ == old(out)@ + spec_value_text(v@),
    decreases v, 1nat,
{
    match v {
        Value::Integer(n) => push_integer(out, *n),
        Value::Boolean(b) => write_boolean(*b, out),
        Value::String(s) => out.append(s.as_str()),
        Value::Null => out.append("null"),
        Value::Array(elements) => {
            out.append("[");
            write_values(elements, out);
            out.append("]");
            assert(out@ =~= old(out)@ + spec_value_text(v@));
        },
        Value::HashMap(entries) => {
            out.append("{");
            write_entries(entries, out);
            out.append("}");
            assert(out@ =~= old(out)@ + spec_value_text(v@));
        },
        Value::Function(f) => {
            out.append("fn(");
            write_parameters(&f.parameters, out);
            out.append(") {\n");
            write_block(&f.body, out);
            out.append("}");
            assert(out@ =~= old(out)@ + spec_value_text(v@));
        },
        Value::Builtin(_) => out.append("builtin function"),
        Value::ReturnSignal(inner) => write_value(inner, out),
        Value::ErrorSignal(message) => {
            out.append("ERROR: ");
            out.append(message.as_str());
            assert(out@ =~= old(out)@ + spec_value_text(v@));
        },
    }
}

#[verifier::loop_isolation(false)]
fn write_values(values: &Vec<Value>, out: &mut String)
    ensures
        final(out)@ == old(out)@ + spec_join(spec_value_texts(values_model(values@)), ", "@),
    decreases values, 0nat,
{
    let ghost start = out@;
    let ghost parts = spec_value_texts(values_model(values@));
    let mut i: usize = 0;
    assert(parts.take(0) =~= Seq::empty());
    assert(out@ =~= start + spec_join(parts.take(0), ", "@));
    while i < values.len()
        invariant
            i <= values.len(),
            out@ == start + spec_join(parts.take(i as int), ", "@),
        decreases values.len() - i,
    {
        proof {
            lemma_join_step(parts, ", "@, i as int);
        }
        if i > 0 {
            out.append(", ");
        }
        write_value(&values[i], out);
        i += 1;
        assert(out@ =~= start + spec_join(parts.take(i as int), ", "@));
    }
    assert(parts.take(i as int) =~= parts);
}

#[verifier::loop_isolation(false)]
fn write_entries(entries: &Vec<(HashKey, Value)>, out: &mut String)
    ensures
        final(out)@ == old(out)@ + spec_join(spec_entry_texts(entries_model(entries@)), ", "@),
    decreases entries, 0nat,
{
    let ghost start = out@;
    let ghost parts = spec_entry_texts(entries_model(entries@));
    let mut i: usize = 0;
    assert(parts.take(0) =~= Seq::empty());
    assert(out@ =~= start + spec_join(parts.take(0), ", "@));
    while i < entries.len()
        invariant
            i <= entries.len(),
            out@ == start + spec_join(parts.take(i as int), ", "@),
        decreases entries.len() - i,
    {
        proof {
            lemma_join_step(parts, ", "@, i as int);
        }
        if i > 0 {
            out.append(", ");
        }
        write_key(&entries[i].0, out);
        out.append(": ");
        write_value(&entries[i].1, out);
        i += 1;
        assert(out@ =~= start + spec_join(parts.take(i as int), ", "@));
    }
    assert(parts.take(i as int) =~= parts);
}

impl Value {
    /// The text that shows the value.
    pub fn to_string(&self) -> (s: String)
        ensures
            s@ == spec_value_text(self@),
    {
        let mut s = String::new();
        write_value(self, &mut s);
        assert(s@ =~= spec_value_text(self@));
        s
    }
}

} // verus!
