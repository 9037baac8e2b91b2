//! The values that a program computes, and the mathematical model that the
//! contracts speak of.

use crate::parser::ast::{
    clone_identifiers, identifiers_model, BlockStatement, Identifier, SpecIdentifier,
    SpecStatement,
};
use crate::parser::equality::identifiers_same;
use vstd::prelude::*;
use vstd::string::*;

verus! {

broadcast use vstd::std_specs::vec::axiom_vec_index_decreases;

/// The built-in functions.
#[derive(Clone, Copy, Debug, PartialEq, Eq, Structural)]
pub enum Builtin {
    Len,
    First,
    Last,
    Rest,
    Push,
    Puts,
}

/// A key of a hash map: one of the three types of values that can be one.
#[derive(Debug, PartialEq)]
pub enum HashKey {
    Integer(i64),
    Boolean(bool),
    String(String),
}

/// A function value: the parameters and the body of a function literal, and
/// the scope in which the literal was evaluated.
#[derive(Debug, PartialEq)]
pub struct Function {
    pub parameters: Vec<Identifier>,
    pub body: BlockStatement,
    pub scope: usize,
}

/// A value. A hash map holds its entries in the order of their keys.
/// `ReturnSignal` and `ErrorSignal` are how `return` and errors travel up
/// through the evaluation.
#[derive(Debug, PartialEq)]
pub enum Value {
    Integer(i64),
    Boolean(bool),
    String(String),
    Null,
    Array(Vec<Value>),
    HashMap(Vec<(HashKey, Value)>),
    Function(Function),
    Builtin(Builtin),
    ReturnSignal(Box<Value>),
    ErrorSignal(String),
}

/// The model of a hash key.
pub enum SpecKey {
    Integer(i64),
    Boolean(bool),
    Text(Seq<char>),
}

/// The model of a value.
pub enum SpecValue {
    Integer(i64),
    Boolean(bool),
    Text(Seq<char>),
    Null,
    Array(Seq<SpecValue>),
    HashMap(Seq<(SpecKey, SpecValue)>),
    Function { parameters: Seq<SpecIdentifier>, body: Seq<SpecStatement>, scope: nat },
    Builtin(Builtin),
    ReturnSignal(Box<SpecValue>),
    ErrorSignal(Seq<char>),
}

impl View for HashKey {
    type V = SpecKey;

    open spec fn view(&self) -> SpecKey {
        match self {
            HashKey::Integer(n) => SpecKey::Integer(*n),
            HashKey::Boolean(b) => SpecKey::Boolean(*b),
            HashKey::String(s) => SpecKey::Text(s@),
        }
    }
}

/// The model of a value.
pub open spec fn value_model(v: Value) -> SpecValue
    decreases v,
{
    match v {
        Value::Integer(n) => SpecValue::Integer(n),
        Value::Boolean(b) => SpecValue::Boolean(b),
        Value::String(s) => SpecValue::Text(s@),
        Value::Null => SpecValue::Null,
        Value::Array(elements) => SpecValue::Array(values_model(elements@)),
        Value::HashMap(entries) => SpecValue::HashMap(entries_model(entries@)),
        Value::Function(f) => SpecValue::Function {
            parameters: identifiers_model(f.parameters@),
            body: f.body@,
            scope: f.scope as nat,
        },
        Value::Builtin(b) => SpecValue::Builtin(b),
        Value::ReturnSignal(inner) => SpecValue::ReturnSignal(Box::new(value_model(*inner))),
        Value::ErrorSignal(message) => SpecValue::ErrorSignal(message@),
    }
}

/// The models of a sequence of values.
pub open spec fn values_model(v: Seq<Value>) -> Seq<SpecValue>
    decreases v,
{
    Seq::new(
        v.len(),
        |i: int|
            if 0 <= i < v.len() {
                value_model(v[i])
            } else {
                arbitrary()
            },
    )
}

/// The models of the entries of a hash map.
pub open spec fn entries_model(v: Seq<(HashKey, Value)>) -> Seq<(SpecKey, SpecValue)>
    decreases v,
{
    Seq::new(
        v.len(),
        |i: int|
            if 0 <= i < v.len() {
                (v[i].0@, value_model(v[i].1))
            } else {
                arbitrary()
            },
    )
}

/// The model of a sequence of values holds the model of each value at its
/// place.
pub proof fn lemma_values_model(v: Seq<Value>)
    ensures
        values_model(v).len() == v.len(),
        forall|i: int| 0 <= i < v.len() ==> #[trigger] values_model(v)[i] == value_model(v[i]),
{
}

/// The model of the entries of a hash map holds the model of each entry at
/// its place.
pub proof fn lemma_entries_model(v: Seq<(HashKey, Value)>)
    ensures
        entries_model(v).len() == v.len(),
        forall|i: int|
            0 <= i < v.len() ==> #[trigger] entries_model(v)[i] == (v[i].0@, value_model(v[i].1)),
{
}

impl View for Value {
    type V = SpecValue;

    open spec fn view(&self) -> SpecValue {
        value_model(*self)
    }
}

impl Clone for HashKey {
    fn clone(&self) -> (res: Self)
        ensures
            res@ == self@,
    {
        match self {
            HashKey::Integer(n) => HashKey::Integer(*n),
            HashKey::Boolean(b) => HashKey::Boolean(*b),
            HashKey::String(s) => HashKey::String(s.clone()),
        }
    }
}

impl Clone for Function {
    fn clone(&self) -> (res: Self)
        ensures
            Value::Function(res)@ == Value::Function(*self)@,
    {
        Function {
            parameters: clone_identifiers(&self.parameters),
            body: self.body.clone(),
            scope: self.scope,
        }
    }
}

/// A copy of a list of values.
#[verifier::loop_isolation(false)]
pub fn clone_values(values: &Vec<Value>) -> (res: Vec<Value>)
    ensures
        values_model(res@) == values_model(values@),
    decreases values,
{
    let mut out: Vec<Value> = Vec::new();
    let mut i: usize = 0;
    while i < values.len()
        invariant
            i <= values.len(),
            out@.len() == i,
            forall|j: int| 0 <= j < i ==> value_model(#[trigger] out@[j]) == value_model(values@[j]),
        decreases values.len() - i,
    {
        out.push(values[i].clone());
        i += 1;
    }
    assert(values_model(out@) =~= values_model(values@));
    out
}

/// A copy of the entries of a hash map.
#[verifier::loop_isolation(false)]
pub fn clone_entries(entries: &Vec<(HashKey, Value)>) -> (res: Vec<(HashKey, Value)>)
    ensures
        entries_model(res@) == entries_model(entries@),
    decreases entries,
{
    let mut out: Vec<(HashKey, Value)> = Vec::new();
    let mut i: usize = 0;
    while i < entries.len()
        invariant
            i <= entries.len(),
            out@.len() == i,
            forall|j: int|
                0 <= j < i ==> (#[trigger] out@[j]).0@ == entries@[j].0@ && value_model(out@[j].1)
                    == value_model(entries@[j].1),
        decreases entries.len() - i,
    {
        let key = entries[i].0.clone();
        let value = entries[i].1.clone();
        out.push((key, value));
        i += 1;
    }
    assert(entries_model(out@) =~= entries_model(entries@));
    out
}

impl Clone for Value {
    fn clone(&self) -> (res: Self)
        ensures
            res@ == self@,
        decreases self,
    {
        match self {
            Value::Integer(n) => Value::Integer(*n),
            Value::Boolean(b) => Value::Boolean(*b),
            Value::String(s) => Value::String(s.clone()),
            Value::Null => Value::Null,
            Value::Array(elements) => Value::Array(clone_values(elements)),
            Value::HashMap(entries) => Value::HashMap(clone_entries(entries)),
            Value::Function(f) => Value::Function(f.clone()),
            Value::Builtin(b) => Value::Builtin(*b),
            Value::ReturnSignal(inner) => Value::ReturnSignal(Box::new((**inner).clone())),
            Value::ErrorSignal(message) => Value::ErrorSignal(message.clone()),
        }
    }
}

/// The name of the type of a value, as error messages show it.
pub open spec fn spec_kind_name(v: SpecValue) -> Seq<char> {
    match v {
        SpecValue::Integer(_) => "INTEGER"@,
        SpecValue::Boolean(_) => "BOOLEAN"@,
        SpecValue::Text(_) => "STRING"@,
        SpecValue::Null => "NULL"@,
        SpecValue::Array(_) => "ARRAY"@,
        SpecValue::HashMap(_) => "HASH"@,
        SpecValue::Function { .. } => "FUNCTION"@,
        SpecValue::Builtin(_) => "BUILTIN"@,
        SpecValue::ReturnSignal(_) => "RETURN_VALUE"@,
        SpecValue::ErrorSignal(_) => "ERROR"@,
    }
}

/// Whether a value counts as true: every value does but `false` and `null`.
pub open spec fn spec_truthy(v: SpecValue) -> bool {
    match v {
        SpecValue::Boolean(b) => b,
        SpecValue::Null => false,
        _ => true,
    }
}

/// The key that a value makes, if it is of a type that can be one.
pub open spec fn spec_hash_key(v: SpecValue) -> Option<SpecKey> {
    match v {
        SpecValue::Integer(n) => Some(SpecKey::Integer(n)),
        SpecValue::Boolean(b) => Some(SpecKey::Boolean(b)),
        SpecValue::Text(s) => Some(SpecKey::Text(s)),
        _ => None,
    }
}

/// The name under which a program calls the built-in function.
pub open spec fn spec_builtin_name(b: Builtin) -> Seq<char> {
    match b {
        Builtin::Len => "len"@,
        Builtin::First => "first"@,
        Builtin::Last => "last"@,
        Builtin::Rest => "rest"@,
        Builtin::Push => "push"@,
        Builtin::Puts => "puts"@,
    }
}

/// The built-in function of the given name, if there is one.
pub open spec fn spec_builtin_named(name: Seq<char>) -> Option<Builtin> {
    if name == "len"@ {
        Some(Builtin::Len)
    } else if name == "first"@ {
        Some(Builtin::First)
    } else if name == "last"@ {
        Some(Builtin::Last)
    } else if name == "rest"@ {
        Some(Builtin::Rest)
    } else if name == "push"@ {
        Some(Builtin::Push)
    } else if name == "puts"@ {
        Some(Builtin::Puts)
    } else {
        None
    }
}

impl Builtin {
    /// The name under which a program calls the built-in function.
    pub fn name(self) -> (s: &'static str)
        ensures
            s@ == spec_builtin_name(self),
    {
        match self {
            Builtin::Len => "len",
            Builtin::First => "first",
            Builtin::Last => "last",
            Builtin::Rest => "rest",
            Builtin::Push => "push",
            Builtin::Puts => "puts",
        }
    }

    /// The built-in function of the given name, if there is one.
    pub fn named(name: &str) -> (b: Option<Builtin>)
        ensures
            b == spec_builtin_named(name@),
    {
        let name = String::from_str(name);
        if name == String::from_str("len") {
            Some(Builtin::Len)
        } else if name == String::from_str("first") {
            Some(Builtin::First)
        } else if name == String::from_str("last") {
            Some(Builtin::Last)
        } else if name == String::from_str("rest") {
            Some(Builtin::Rest)
        } else if name == String::from_str("push") {
            Some(Builtin::Push)
        } else if name == String::from_str("puts") {
            Some(Builtin::Puts)
        } else {
            None
        }
    }
}

impl HashKey {
    /// Whether the two keys have the same type and the same value.
    pub fn same(&self, other: &HashKey) -> (b: bool)
        ensures
            b == (self@ == other@),
    {
        match (self, other) {
            (HashKey::Integer(a), HashKey::Integer(b)) => *a == *b,
            (HashKey::Boolean(a), HashKey::Boolean(b)) => *a == *b,
            (HashKey::String(a), HashKey::String(b)) => *a == *b,
            _ => false,
        }
    }

    /// The key as a value.
    pub fn to_value(&self) -> (v: Value)
        ensures
            spec_hash_key(v@) == Some(self@),
    {
        match self {
            HashKey::Integer(n) => Value::Integer(*n),
            HashKey::Boolean(b) => Value::Boolean(*b),
            HashKey::String(s) => Value::String(s.clone()),
        }
    }
}

impl Value {
    /// The name of the type of the value, as error messages show it.
    pub fn kind_name(&self) -> (s: &'static str)
        ensures
            s@ == spec_kind_name(self@),
    {
        match self {
            Value::Integer(_) => "INTEGER",
            Value::Boolean(_) => "BOOLEAN",
            Value::String(_) => "STRING",
            Value::Null => "NULL",
            Value::Array(_) => "ARRAY",
            Value::HashMap(_) => "HASH",
            Value::Function(_) => "FUNCTION",
            Value::Builtin(_) => "BUILTIN",
            Value::ReturnSignal(_) => "RETURN_VALUE",
            Value::ErrorSignal(_) => "ERROR",
        }
    }

    /// Whether the value counts as true: every value does but `false` and
    /// `null`.
    pub fn is_truthy(&self) -> (b: bool)
        ensures
            b == spec_truthy(self@),
    {
        match self {
            Value::Boolean(b) => *b,
            Value::Null => false,
            _ => true,
        }
    }

    /// Whether the value is an error on its way up.
    pub fn is_error(&self) -> (b: bool)
        ensures
            b == (self@ is ErrorSignal),
    {
        match self {
            Value::ErrorSignal(_) => true,
            _ => false,
        }
    }

    /// The key that the value makes, if it is of a type that can be one.
    pub fn hash_key(&self) -> (key: Option<HashKey>)
        ensures
            match key {
                Some(k) => Some(k@),
                None => None,
            } == spec_hash_key(self@),
    {
        match self {
            Value::Integer(n) => Some(HashKey::Integer(*n)),
            Value::Boolean(b) => Some(HashKey::Boolean(*b)),
            Value::String(s) => Some(HashKey::String(s.clone())),
            _ => None,
        }
    }

    /// Whether the two values are equal: of the same type and, part by part,
    /// of the same content.
    pub fn same(&self, other: &Value) -> (b: bool)
        ensures
            b == (self@ == other@),
        decreases self,
    {
        match (self, other) {
            (Value::Integer(a), Value::Integer(b)) => *a == *b,
            (Value::Boolean(a), Value::Boolean(b)) => *a == *b,
            (Value::String(a), Value::String(b)) => *a == *b,
            (Value::Null, Value::Null) => true,
            (Value::Array(a), Value::Array(b)) => values_same(a, b),
            (Value::HashMap(a), Value::HashMap(b)) => entries_same(a, b),
            (Value::Function(a), Value::Function(b)) => identifiers_same(
                &a.parameters,
                &b.parameters,
            ) && a.body.same(&b.body) && a.scope == b.scope,
            (Value::Builtin(a), Value::Builtin(b)) => *a == *b,
            (Value::ReturnSignal(a), Value::ReturnSignal(b)) => a.same(b),
            (Value::ErrorSignal(a), Value::ErrorSignal(b)) => *a == *b,
            _ => false,
        }
    }
}

#[verifier::loop_isolation(false)]
fn values_same(a: &Vec<Value>, b: &Vec<Value>) -> (r: bool)
    ensures
        r == (values_model(a@) == values_model(b@)),
    decreases a,
{
    if a.len() != b.len() {
        assert(values_model(a@).len() != values_model(b@).len());
        return false;
    }
    let mut i: usize = 0;
    while i < a.len()
        invariant
            i <= a.len(),
            a.len() == b.len(),
            forall|j: int| 0 <= j < i ==> value_model(#[trigger] a@[j]) == value_model(b@[j]),
        decreases a.len() - i,
    {
        if !a[i].same(&b[i]) {
            assert(values_model(a@)[i as int] != values_model(b@)[i as int]);
            return false;
        }
        i += 1;
    }
    assert(values_model(a@) =~= values_model(b@));
    true
}

#[verifier::loop_isolation(false)]
fn entries_same(a: &Vec<(HashKey, Value)>, b: &Vec<(HashKey, Value)>) -> (r: bool)
    ensures
        r == (entries_model(a@) == entries_model(b@)),
    decreases a,
{
    if a.len() != b.len() {
        assert(entries_model(a@).len() != entries_model(b@).len());
        return false;
    }
    let mut i: usize = 0;
    while i < a.len()
        invariant
            i <= a.len(),
            a.len() == b.len(),
            forall|j: int|
                0 <= j < i ==> (#[trigger] a@[j]).0@ == b@[j].0@ && value_model(a@[j].1)
                    == value_model(b@[j].1),
        decreases a.len() - i,
    {
        if !a[i].0.same(&b[i].0) || !a[i].1.same(&b[i].1) {
            assert(entries_model(a@)[i as int] != entries_model(b@)[i as int]);
            return false;
        }
        i += 1;
    }
    assert(entries_model(a@) =~= entries_model(b@));
    true
}

} // verus!
