//! Hash maps: entries held in the order of their keys, so that two maps
//! with the same entries are the same value.

use crate::evaluator::value::{entries_model, HashKey, SpecKey, SpecValue, Value};
use crate::text::chars_of;
use vstd::prelude::*;

verus! {

/// Whether the text `a` comes before the text `b`: at the first place where
/// they differ `a` has the smaller character, or `a` ends there and `b`
/// does not.
pub open spec fn spec_text_less(a: Seq<char>, b: Seq<char>) -> bool
    decreases a.len(),
{
    if b.len() == 0 {
        false
    } else if a.len() == 0 {
        true
    } else if a[0] != b[0] {
        a[0] < b[0]
    } else {
        spec_text_less(a.skip(1), b.skip(1))
    }
}

/// Integers come before booleans and booleans before strings.
pub open spec fn spec_key_rank(k: SpecKey) -> int {
    match k {
        SpecKey::Integer(_) => 0,
        SpecKey::Boolean(_) => 1,
        SpecKey::Text(_) => 2,
    }
}

/// The order of keys: by type, and within a type by value.
pub open spec fn spec_key_less(a: SpecKey, b: SpecKey) -> bool {
    match (a, b) {
        (SpecKey::Integer(x), SpecKey::Integer(y)) => x < y,
        (SpecKey::Boolean(x), SpecKey::Boolean(y)) => !x && y,
        (SpecKey::Text(x), SpecKey::Text(y)) => spec_text_less(x, y),
        _ => spec_key_rank(a) < spec_key_rank(b),
    }
}

/// The entries with `key` bound to `value`, looking from position `i` on:
/// the entry of that key takes the value; where there is none, the new entry
/// goes in before the first entry with a greater key.
pub open spec fn spec_insert_from(
    entries: Seq<(SpecKey, SpecValue)>,
    i: int,
    key: SpecKey,
    value: SpecValue,
) -> Seq<(SpecKey, SpecValue)>
    decreases entries.len() - i,
{
    if i < 0 || i >= entries.len() {
        entries.push((key, value))
    } else if entries[i].0 == key {
        entries.update(i, (key, value))
    } else if spec_key_less(key, entries[i].0) {
        entries.insert(i, (key, value))
    } else {
        spec_insert_from(entries, i + 1, key, value)
    }
}

/// The entries with `key` bound to `value`. An earlier value of the key is
/// gone: the last write wins.
pub open spec fn spec_insert(entries: Seq<(SpecKey, SpecValue)>, key: SpecKey, value: SpecValue) -> Seq<
    (SpecKey, SpecValue),
> {
    spec_insert_from(entries, 0, key, value)
}

/// The value of the first entry of `key` at or after position `i`.
pub open spec fn spec_get_from(entries: Seq<(SpecKey, SpecValue)>, i: int, key: SpecKey) -> Option<
    SpecValue,
>
    decreases entries.len() - i,
{
    if i < 0 || i >= entries.len() {
        None
    } else if entries[i].0 == key {
        Some(entries[i].1)
    } else {
        spec_get_from(entries, i + 1, key)
    }
}

/// The value that the entries bind `key` to, if they bind it.
pub open spec fn spec_get(entries: Seq<(SpecKey, SpecValue)>, key: SpecKey) -> Option<SpecValue> {
    spec_get_from(entries, 0, key)
}

/// Whether the text `a` comes before the text `b`.
pub fn text_less(a: &str, b: &str) -> (r: bool)
    ensures
        r == spec_text_less(a@, b@),
{
    let x = chars_of(a);
    let y = chars_of(b);
    let mut i: usize = 0;
    assert(x@.skip(0) =~= x@ && y@.skip(0) =~= y@);
    while i < x.len() && i < y.len()
        invariant
            i <= x.len(),
            i <= y.len(),
            x@ == a@,
            y@ == b@,
            spec_text_less(x@, y@) == spec_text_less(x@.skip(i as int), y@.skip(i as int)),
        decreases x.len() - i,
    {
        if x[i] != y[i] {
            return x[i] < y[i];
        }
        assert(x@.skip(i as int).skip(1) =~= x@.skip(i + 1));
        assert(y@.skip(i as int).skip(1) =~= y@.skip(i + 1));
        i += 1;
    }
    i < y.len()
}

/// Whether the key `a` comes before the key `b`.
pub fn key_less(a: &HashKey, b: &HashKey) -> (r: bool)
    ensures
        r == spec_key_less(a@, b@),
{
    match (a, b) {
        (HashKey::Integer(x), HashKey::Integer(y)) => *x < *y,
        (HashKey::Boolean(x), HashKey::Boolean(y)) => !*x && *y,
        (HashKey::String(x), HashKey::String(y)) => text_less(x.as_str(), y.as_str()),
        (HashKey::Integer(_), _) => true,
        (HashKey::Boolean(_), HashKey::String(_)) => true,
        _ => false,
    }
}

/// Binds `key` to `value` in the entries. An earlier value of the key is
/// gone.
pub fn insert_entry(entries: &mut Vec<(HashKey, Value)>, key: HashKey, value: Value)
    ensures
        entries_model(final(entries)@) == spec_insert(entries_model(old(entries)@), key@, value@),
{
    let ghost before = entries_model(entries@);
    let mut i: usize = 0;
    while i < entries.len()
        invariant
            i <= entries.len(),
            entries@ == old(entries)@,
            before == entries_model(entries@),
            spec_insert(before, key@, value@) == spec_insert_from(before, i as int, key@, value@),
        decreases entries.len() - i,
    {
        if entries[i].0.same(&key) {
            entries[i] = (key, value);
            assert(entries_model(entries@) =~= before.update(i as int, (key@, value@)));
            return ;
        }
        if key_less(&key, &entries[i].0) {
            entries.insert(i, (key, value));
            assert(entries_model(entries@) =~= before.insert(i as int, (key@, value@)));
            return ;
        }
        i += 1;
    }
    entries.push((key, value));
    assert(entries_model(entries@) =~= before.push((key@, value@)));
}

/// A copy of the value that the entries bind `key` to, if they bind it.
pub fn get_entry(entries: &Vec<(HashKey, Value)>, key: &HashKey) -> (r: Option<Value>)
    ensures
        match r {
            Some(v) => Some(v@),
            None => None,
        } == spec_get(entries_model(entries@), key@),
{
    let mut i: usize = 0;
    while i < entries.len()
        invariant
            i <= entries.len(),
            spec_get(entries_model(entries@), key@) == spec_get_from(
                entries_model(entries@),
                i as int,
                key@,
            ),
        decreases entries.len() - i,
    {
        if entries[i].0.same(key) {
            return Some(entries[i].1.clone());
        }
        i += 1;
    }
    None
}

/// The key that was written last is bound to the value that was written with
/// it.
pub proof fn lemma_insert_then_get(
    entries: Seq<(SpecKey, SpecValue)>,
    key: SpecKey,
    value: SpecValue,
)
    ensures
        spec_get(spec_insert(entries, key, value), key) == Some(value),
{
    lemma_insert_then_get_from(entries, 0, key, value);
}

proof fn lemma_insert_then_get_from(
    entries: Seq<(SpecKey, SpecValue)>,
    i: int,
    key: SpecKey,
    value: SpecValue,
)
    requires
        0 <= i <= entries.len(),
        forall|j: int| 0 <= j < i ==> (#[trigger] entries[j]).0 != key,
    ensures
        spec_get(spec_insert_from(entries, i, key, value), key) == Some(value),
    decreases entries.len() - i,
{
    let after = spec_insert_from(entries, i, key, value);
    if i >= entries.len() {
        lemma_get_skips(after, 0, entries.len() as int, key);
    } else if entries[i].0 == key {
        lemma_get_skips(after, 0, i, key);
    } else if spec_key_less(key, entries[i].0) {
        lemma_get_skips(after, 0, i, key);
    } else {
        lemma_insert_then_get_from(entries, i + 1, key, value);
    }
}

/// Looking for a key from `from` on is looking for it from `to` on, where no
/// entry between the two has the key.
pub proof fn lemma_get_skips(entries: Seq<(SpecKey, SpecValue)>, from: int, to: int, key: SpecKey)
    requires
        0 <= from <= to <= entries.len(),
        forall|j: int| from <= j < to ==> (#[trigger] entries[j]).0 != key,
    ensures
        spec_get_from(entries, from, key) == spec_get_from(entries, to, key),
    decreases to - from,
{
    if from < to {
        lemma_get_skips(entries, from + 1, to, key);
    }
}

/// Writing one key leaves what every other key is bound to as it was.
pub proof fn lemma_insert_keeps_others(
    entries: Seq<(SpecKey, SpecValue)>,
    key: SpecKey,
    value: SpecValue,
    other: SpecKey,
)
    requires
        other != key,
    ensures
        spec_get(spec_insert(entries, key, value), other) == spec_get(entries, other),
{
    lemma_insert_keeps_others_from(entries, 0, key, value, other);
    lemma_get_same_prefix(spec_insert(entries, key, value), entries, 0, 0, other);
}

proof fn lemma_insert_keeps_others_from(
    entries: Seq<(SpecKey, SpecValue)>,
    i: int,
    key: SpecKey,
    value: SpecValue,
    other: SpecKey,
)
    requires
        0 <= i <= entries.len(),
        other != key,
    ensures
        spec_insert_from(entries, i, key, value).len() >= i,
        forall|j: int| 0 <= j < i ==> spec_insert_from(entries, i, key, value)[j] == entries[j],
        spec_get_from(spec_insert_from(entries, i, key, value), i, other) == spec_get_from(
            entries,
            i,
            other,
        ),
    decreases entries.len() - i,
{
    let after = spec_insert_from(entries, i, key, value);
    if i >= entries.len() {
        assert(spec_get_from(after, i + 1, other) == None::<SpecValue>);
    } else if entries[i].0 == key {
        lemma_get_same_suffix(after, entries, i + 1, 0, other);
    } else if spec_key_less(key, entries[i].0) {
        lemma_get_same_suffix(after, entries, i + 1, -1, other);
    } else {
        lemma_insert_keeps_others_from(entries, i + 1, key, value, other);
    }
}

/// Two sequences of entries that agree from some place on, one shifted
/// against the other, bind a key to the same value from there on.
proof fn lemma_get_same_suffix(
    a: Seq<(SpecKey, SpecValue)>,
    b: Seq<(SpecKey, SpecValue)>,
    from: int,
    shift: int,
    key: SpecKey,
)
    requires
        0 <= from,
        0 <= from + shift,
        a.len() + shift == b.len(),
        forall|j: int| from <= j < a.len() ==> a[j] == b[j + shift],
    ensures
        spec_get_from(a, from, key) == spec_get_from(b, from + shift, key),
    decreases a.len() - from,
{
    if from < a.len() {
        lemma_get_same_suffix(a, b, from + 1, shift, key);
    }
}

/// Two sequences of entries that agree up to `to` and bind the key to the
/// same value from `to` on bind it to the same value from `from` on.
proof fn lemma_get_same_prefix(
    a: Seq<(SpecKey, SpecValue)>,
    b: Seq<(SpecKey, SpecValue)>,
    from: int,
    to: int,
    key: SpecKey,
)
    requires
        0 <= from <= to,
        to <= a.len(),
        to <= b.len(),
        forall|j: int| from <= j < to ==> a[j] == b[j],
        spec_get_from(a, to, key) == spec_get_from(b, to, key),
    ensures
        spec_get_from(a, from, key) == spec_get_from(b, from, key),
    decreases to - from,
{
    if from < to {
        lemma_get_same_prefix(a, b, from + 1, to, key);
    }
}

/// Whether the entries stand in the order of their keys, each key once.
pub open spec fn spec_sorted(entries: Seq<(SpecKey, SpecValue)>) -> bool {
    forall|i: int, j: int|
        0 <= i < j < entries.len() ==> spec_key_less(
            (#[trigger] entries[i]).0,
            (#[trigger] entries[j]).0,
        )
}

/// No text comes before itself.
pub proof fn lemma_text_order_irreflexive(a: Seq<char>)
    ensures
        !spec_text_less(a, a),
    decreases a.len(),
{
    if a.len() > 0 {
        lemma_text_order_irreflexive(a.skip(1));
    }
}

/// What comes before a text that comes before another comes before that
/// other.
pub proof fn lemma_text_order_transitive(a: Seq<char>, b: Seq<char>, c: Seq<char>)
    requires
        spec_text_less(a, b),
        spec_text_less(b, c),
    ensures
        spec_text_less(a, c),
    decreases a.len(),
{
    if a.len() > 0 && b.len() > 0 && c.len() > 0 && a[0] == b[0] && b[0] == c[0] {
        lemma_text_order_transitive(a.skip(1), b.skip(1), c.skip(1));
    }
}

/// Of two different texts one comes before the other.
pub proof fn lemma_text_order_total(a: Seq<char>, b: Seq<char>)
    requires
        a != b,
    ensures
        spec_text_less(a, b) || spec_text_less(b, a),
    decreases a.len(),
{
    if a.len() > 0 && b.len() > 0 && a[0] == b[0] {
        if a.skip(1) == b.skip(1) {
            assert(a =~= b) by {
                assert(a.len() == a.skip(1).len() + 1);
                assert(b.len() == b.skip(1).len() + 1);
                assert forall|i: int| 0 <= i < a.len() implies a[i] == b[i] by {
                    if i > 0 {
                        assert(a[i] == a.skip(1)[i - 1]);
                        assert(b[i] == b.skip(1)[i - 1]);
                    }
                }
            }
        }
        lemma_text_order_total(a.skip(1), b.skip(1));
    } else if a.len() == 0 && b.len() == 0 {
        assert(a =~= b);
    }
}

/// No key comes before itself.
pub proof fn lemma_key_order_irreflexive(a: SpecKey)
    ensures
        !spec_key_less(a, a),
{
    if let SpecKey::Text(s) = a {
        lemma_text_order_irreflexive(s);
    }
}

/// What comes before a key that comes before another comes before that
/// other.
pub proof fn lemma_key_order_transitive(a: SpecKey, b: SpecKey, c: SpecKey)
    requires
        spec_key_less(a, b),
        spec_key_less(b, c),
    ensures
        spec_key_less(a, c),
{
    match (a, b, c) {
        (SpecKey::Text(x), SpecKey::Text(y), SpecKey::Text(z)) => {
            lemma_text_order_transitive(x, y, z);
        },
        _ => {},
    }
}

/// Of two different keys one comes before the other.
pub proof fn lemma_key_order_total(a: SpecKey, b: SpecKey)
    requires
        a != b,
    ensures
        spec_key_less(a, b) || spec_key_less(b, a),
{
    match (a, b) {
        (SpecKey::Text(x), SpecKey::Text(y)) => {
            lemma_text_order_total(x, y);
        },
        _ => {},
    }
}

/// Entries in order stay in order when a key is written.
pub proof fn lemma_insert_keeps_sorted(
    entries: Seq<(SpecKey, SpecValue)>,
    key: SpecKey,
    value: SpecValue,
)
    requires
        spec_sorted(entries),
    ensures
        spec_sorted(spec_insert(entries, key, value)),
{
    lemma_insert_from_keeps_sorted(entries, 0, key, value);
}

proof fn lemma_insert_from_keeps_sorted(
    entries: Seq<(SpecKey, SpecValue)>,
    i: int,
    key: SpecKey,
    value: SpecValue,
)
    requires
        spec_sorted(entries),
        0 <= i <= entries.len(),
        forall|j: int| 0 <= j < i ==> spec_key_less((#[trigger] entries[j]).0, key),
    ensures
        spec_sorted(spec_insert_from(entries, i, key, value)),
    decreases entries.len() - i,
{
    let after = spec_insert_from(entries, i, key, value);
    if i >= entries.len() {
        assert forall|a: int, b: int| 0 <= a < b < after.len() implies spec_key_less(
            (#[trigger] after[a]).0,
            (#[trigger] after[b]).0,
        ) by {
            if b < entries.len() {
                assert(after[a] == entries[a] && after[b] == entries[b]);
            } else {
                assert(after[a] == entries[a]);
            }
        }
    } else if entries[i].0 == key {
        assert forall|a: int, b: int| 0 <= a < b < after.len() implies spec_key_less(
            (#[trigger] after[a]).0,
            (#[trigger] after[b]).0,
        ) by {
            assert(after[a].0 == entries[a].0 && after[b].0 == entries[b].0);
        }
    } else if spec_key_less(key, entries[i].0) {
        assert forall|a: int, b: int| 0 <= a < b < after.len() implies spec_key_less(
            (#[trigger] after[a]).0,
            (#[trigger] after[b]).0,
        ) by {
            if b < i {
                assert(after[a] == entries[a] && after[b] == entries[b]);
            } else if b == i {
                assert(after[a] == entries[a]);
            } else if a < i {
                assert(after[a] == entries[a] && after[b] == entries[b - 1]);
            } else if a == i {
                assert(after[b] == entries[b - 1]);
                if b - 1 > i {
                    assert(spec_key_less(entries[i].0, entries[b - 1].0));
                    lemma_key_order_transitive(key, entries[i].0, entries[b - 1].0);
                }
            } else {
                assert(after[a] == entries[a - 1] && after[b] == entries[b - 1]);
            }
        }
    } else {
        lemma_key_order_total(key, entries[i].0);
        assert forall|j: int| 0 <= j < i + 1 implies spec_key_less(
            (#[trigger] entries[j]).0,
            key,
        ) by {}
        lemma_insert_from_keeps_sorted(entries, i + 1, key, value);
    }
}

/// Among entries in order a key is bound by the entry that holds it, and by
/// no entry where none holds it.
pub proof fn lemma_get_of_sorted(entries: Seq<(SpecKey, SpecValue)>, from: int, key: SpecKey)
    requires
        spec_sorted(entries),
        0 <= from <= entries.len(),
    ensures
        forall|i: int|
            from <= i < entries.len() && (#[trigger] entries[i]).0 == key ==> spec_get_from(
                entries,
                from,
                key,
            ) == Some(entries[i].1),
        (forall|i: int| from <= i < entries.len() ==> (#[trigger] entries[i]).0 != key)
            ==> spec_get_from(entries, from, key) == None::<SpecValue>,
    decreases entries.len() - from,
{
    if from < entries.len() {
        lemma_get_of_sorted(entries, from + 1, key);
        if entries[from].0 == key {
            assert forall|i: int|
                from <= i < entries.len() && (#[trigger] entries[i]).0 == key implies i
                == from by {
                if i > from {
                    assert(spec_key_less(entries[from].0, entries[i].0));
                    lemma_key_order_irreflexive(key);
                }
            }
        }
    }
}

/// Two hash maps in order that bind every key alike are the same value:
/// the order in which the entries were written leaves no trace.
pub proof fn lemma_sorted_maps_are_equal(
    a: Seq<(SpecKey, SpecValue)>,
    b: Seq<(SpecKey, SpecValue)>,
)
    requires
        spec_sorted(a),
        spec_sorted(b),
        forall|key: SpecKey| spec_get(a, key) == spec_get(b, key),
    ensures
        a == b,
    decreases a.len(),
{
    if a.len() == 0 {
        if b.len() > 0 {
            lemma_get_of_sorted(b, 0, b[0].0);
            assert(spec_get(a, b[0].0) == spec_get(b, b[0].0));
        }
        assert(a =~= b);
    } else if b.len() == 0 {
        lemma_get_of_sorted(a, 0, a[0].0);
        assert(spec_get(a, a[0].0) == spec_get(b, a[0].0));
    } else {
        lemma_get_of_sorted(a, 0, a[0].0);
        lemma_get_of_sorted(b, 0, b[0].0);
        lemma_get_of_sorted(a, 0, b[0].0);
        lemma_get_of_sorted(b, 0, a[0].0);
        assert(spec_get(a, a[0].0) == spec_get(b, a[0].0));
        assert(spec_get(a, b[0].0) == spec_get(b, b[0].0));
        if a[0].0 != b[0].0 {
            let i = choose|i: int| 0 <= i < a.len() && (#[trigger] a[i]).0 == b[0].0;
            let j = choose|j: int| 0 <= j < b.len() && (#[trigger] b[j]).0 == a[0].0;
            assert(i > 0 && j > 0);
            assert(spec_key_less(a[0].0, a[i].0));
            assert(spec_key_less(b[0].0, b[j].0));
            lemma_key_order_transitive(a[0].0, b[0].0, a[0].0);
            lemma_key_order_irreflexive(a[0].0);
        }
        let rest_a = a.skip(1);
        let rest_b = b.skip(1);
        assert(spec_sorted(rest_a)) by {
            assert forall|i: int, j: int| 0 <= i < j < rest_a.len() implies spec_key_less(
                (#[trigger] rest_a[i]).0,
                (#[trigger] rest_a[j]).0,
            ) by {
                assert(rest_a[i] == a[i + 1] && rest_a[j] == a[j + 1]);
            }
        }
        assert(spec_sorted(rest_b)) by {
            assert forall|i: int, j: int| 0 <= i < j < rest_b.len() implies spec_key_less(
                (#[trigger] rest_b[i]).0,
                (#[trigger] rest_b[j]).0,
            ) by {
                assert(rest_b[i] == b[i + 1] && rest_b[j] == b[j + 1]);
            }
        }
        assert forall|key: SpecKey| spec_get(rest_a, key) == spec_get(rest_b, key) by {
            lemma_get_of_rest(a, key);
            lemma_get_of_rest(b, key);
            assert(spec_get(a, key) == spec_get(b, key));
        }
        lemma_sorted_maps_are_equal(rest_a, rest_b);
        assert(a =~= seq![a[0]] + rest_a);
        assert(b =~= seq![b[0]] + rest_b);
    }
}

/// What the entries in order behind the first bind: nothing for the key of
/// the first, and for every other key what all the entries bind.
proof fn lemma_get_of_rest(entries: Seq<(SpecKey, SpecValue)>, key: SpecKey)
    requires
        spec_sorted(entries),
        entries.len() > 0,
    ensures
        key == entries[0].0 ==> spec_get(entries.skip(1), key) == None::<SpecValue>,
        key != entries[0].0 ==> spec_get(entries.skip(1), key) == spec_get(entries, key),
{
    let rest = entries.skip(1);
    lemma_get_same_suffix(rest, entries, 0, 1, key);
    if key == entries[0].0 {
        assert forall|i: int| 1 <= i < entries.len() implies (#[trigger] entries[i]).0 != key by {
            assert(spec_key_less(entries[0].0, entries[i].0));
            lemma_key_order_irreflexive(key);
        }
        lemma_get_of_sorted(entries, 1, key);
    }
}

/// Two different keys may be written in either order: the hash map is the
/// same.
pub proof fn lemma_insert_commutes(
    entries: Seq<(SpecKey, SpecValue)>,
    first: SpecKey,
    first_value: SpecValue,
    second: SpecKey,
    second_value: SpecValue,
)
    requires
        spec_sorted(entries),
        first != second,
    ensures
        spec_insert(spec_insert(entries, first, first_value), second, second_value) == spec_insert(
            spec_insert(entries, second, second_value),
            first,
            first_value,
        ),
{
    let one = spec_insert(entries, first, first_value);
    let other = spec_insert(entries, second, second_value);
    let a = spec_insert(one, second, second_value);
    let b = spec_insert(other, first, first_value);
    lemma_insert_keeps_sorted(entries, first, first_value);
    lemma_insert_keeps_sorted(entries, second, second_value);
    lemma_insert_keeps_sorted(one, second, second_value);
    lemma_insert_keeps_sorted(other, first, first_value);
    assert forall|key: SpecKey| spec_get(a, key) == spec_get(b, key) by {
        if key == second {
            lemma_insert_then_get(one, second, second_value);
            lemma_insert_keeps_others(other, first, first_value, second);
            lemma_insert_then_get(entries, second, second_value);
        } else if key == first {
            lemma_insert_keeps_others(one, second, second_value, first);
            lemma_insert_then_get(entries, first, first_value);
            lemma_insert_then_get(other, first, first_value);
        } else {
            lemma_insert_keeps_others(one, second, second_value, key);
            lemma_insert_keeps_others(entries, first, first_value, key);
            lemma_insert_keeps_others(other, first, first_value, key);
            lemma_insert_keeps_others(entries, second, second_value, key);
        }
    }
    lemma_sorted_maps_are_equal(a, b);
}

} // verus!
