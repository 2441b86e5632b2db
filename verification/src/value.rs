//! An ordered YAML/JSON document tree and its mathematical model.
//!
//! Mappings keep their entries in insertion order, as `serde_yaml::Mapping` does:
//! inserting an existing key replaces its value in place, inserting a new key
//! appends it, and removing a key moves the last entry into its slot.

use vstd::prelude::*;

verus! {

/// A number as a document holds it; a float keeps its text.
pub enum Number {
    /// A non-negative integer.
    PosInt(u64),
    /// A negative integer.
    NegInt(i64),
    /// A floating point number, as written.
    Float(String),
}

/// A document node.
pub enum Value {
    /// `null` / `~`.
    Null,
    /// A boolean.
    Bool(bool),
    /// A number.
    Number(Number),
    /// A string.
    String(String),
    /// A sequence.
    Sequence(Vec<Value>),
    /// A mapping, in entry order.
    Mapping(Vec<(Value, Value)>),
    /// A tagged node such as `!reset value`.
    Tagged(String, Box<Value>),
}

/// The mathematical model of a document node.
pub enum Yaml {
    Null,
    Bool(bool),
    Int(int),
    Float(Seq<char>),
    Text(Seq<char>),
    List(Seq<Yaml>),
    Dict(Seq<(Yaml, Yaml)>),
    Tag(Seq<char>, Box<Yaml>),
}

/// The model of a node.
pub open spec fn yv(v: Value) -> Yaml
    decreases v,
{
    match v {
        Value::Null => Yaml::Null,
        Value::Bool(b) => Yaml::Bool(b),
        Value::Number(Number::PosInt(n)) => Yaml::Int(n as int),
        Value::Number(Number::NegInt(n)) => Yaml::Int(n as int),
        Value::Number(Number::Float(t)) => Yaml::Float(t@),
        Value::String(s) => Yaml::Text(s@),
        Value::Sequence(items) => Yaml::List(yv_list(items@)),
        Value::Mapping(entries) => Yaml::Dict(yv_entries(entries@)),
        Value::Tagged(t, b) => Yaml::Tag(t@, Box::new(yv(*b))),
    }
}

/// The models of a sequence of nodes.
pub open spec fn yv_list(s: Seq<Value>) -> Seq<Yaml>
    decreases s,
{
    if s.len() == 0 {
        Seq::empty()
    } else {
        yv_list(s.drop_last()).push(yv(s.last()))
    }
}

/// The models of a sequence of mapping entries.
pub open spec fn yv_entries(s: Seq<(Value, Value)>) -> Seq<(Yaml, Yaml)>
    decreases s,
{
    if s.len() == 0 {
        Seq::empty()
    } else {
        yv_entries(s.drop_last()).push((yv(s.last().0), yv(s.last().1)))
    }
}

// ---------------------------------------------------------------------------
// Mapping operations on the model
// ---------------------------------------------------------------------------

/// First entry index at or after `i` whose key is the string `k`.
pub open spec fn dict_find_from(es: Seq<(Yaml, Yaml)>, k: Seq<char>, i: int) -> Option<int>
    decreases es.len() - i,
{
    if i < 0 || i >= es.len() {
        None
    } else if es[i].0 == Yaml::Text(k) {
        Some(i)
    } else {
        dict_find_from(es, k, i + 1)
    }
}

/// Index of the entry whose key is the string `k`.
pub open spec fn dict_find(es: Seq<(Yaml, Yaml)>, k: Seq<char>) -> Option<int> {
    dict_find_from(es, k, 0)
}

/// Value stored under the string key `k`.
pub open spec fn dict_get(es: Seq<(Yaml, Yaml)>, k: Seq<char>) -> Option<Yaml> {
    match dict_find(es, k) {
        Some(i) => Some(es[i].1),
        None => None,
    }
}

/// Whether a string key `k` is present.
pub open spec fn dict_has(es: Seq<(Yaml, Yaml)>, k: Seq<char>) -> bool {
    dict_find(es, k) is Some
}

/// `Mapping::insert`: replaces the value in place, or appends a new entry.
pub open spec fn dict_insert(es: Seq<(Yaml, Yaml)>, k: Seq<char>, v: Yaml) -> Seq<(Yaml, Yaml)> {
    match dict_find(es, k) {
        Some(i) => es.update(i, (Yaml::Text(k), v)),
        None => es.push((Yaml::Text(k), v)),
    }
}

/// `Mapping::remove`: the last entry takes the removed entry's place.
pub open spec fn dict_remove(es: Seq<(Yaml, Yaml)>, k: Seq<char>) -> Seq<(Yaml, Yaml)> {
    match dict_find(es, k) {
        Some(i) => es.update(i, es.last()).drop_last(),
        None => es,
    }
}

/// `Mapping::entry(k).or_insert(v)`: appends only when the key is absent.
pub open spec fn dict_or_insert(es: Seq<(Yaml, Yaml)>, k: Seq<char>, v: Yaml) -> Seq<(Yaml, Yaml)> {
    match dict_find(es, k) {
        Some(_) => es,
        None => es.push((Yaml::Text(k), v)),
    }
}

/// `Value::get(k)`: the entry of a mapping node under the string key `k`.
pub open spec fn yaml_get(y: Yaml, k: Seq<char>) -> Option<Yaml> {
    match y {
        Yaml::Dict(es) => dict_get(es, k),
        _ => None,
    }
}

/// Models an optional index.
pub open spec fn opt_idx(r: Option<usize>) -> Option<int> {
    match r {
        Some(i) => Some(i as int),
        None => None,
    }
}

// ---------------------------------------------------------------------------
// Lemmas about the model of nodes
// ---------------------------------------------------------------------------

/// The model of a list keeps its length and maps each element.
pub proof fn lemma_yv_list(s: Seq<Value>)
    ensures
        yv_list(s).len() == s.len(),
        forall|i: int| 0 <= i < s.len() ==> #[trigger] yv_list(s)[i] == yv(s[i]),
    decreases s.len(),
{
    if s.len() > 0 {
        lemma_yv_list(s.drop_last());
    }
}

/// The model of a list of entries keeps its length and maps each entry.
pub proof fn lemma_yv_entries(s: Seq<(Value, Value)>)
    ensures
        yv_entries(s).len() == s.len(),
        forall|i: int|
            0 <= i < s.len() ==> #[trigger] yv_entries(s)[i] == (yv(s[i].0), yv(s[i].1)),
    decreases s.len(),
{
    if s.len() > 0 {
        lemma_yv_entries(s.drop_last());
    }
}

/// Two lists whose elements have equal models have equal models.
pub proof fn lemma_yv_list_ext(a: Seq<Value>, b: Seq<Value>)
    requires
        a.len() == b.len(),
        forall|i: int| 0 <= i < a.len() ==> yv(#[trigger] a[i]) == yv(b[i]),
    ensures
        yv_list(a) == yv_list(b),
{
    lemma_yv_list(a);
    lemma_yv_list(b);
    assert(yv_list(a) =~= yv_list(b));
}

/// Two entry lists whose entries have equal models have equal models.
pub proof fn lemma_yv_entries_ext(a: Seq<(Value, Value)>, b: Seq<(Value, Value)>)
    requires
        a.len() == b.len(),
        forall|i: int|
            0 <= i < a.len() ==> yv(#[trigger] a[i].0) == yv(b[i].0) && yv(a[i].1) == yv(
                b[i].1,
            ),
    ensures
        yv_entries(a) == yv_entries(b),
{
    lemma_yv_entries(a);
    lemma_yv_entries(b);
    assert(yv_entries(a) =~= yv_entries(b));
}

/// The model of a list after `push`.
pub proof fn lemma_yv_list_push(s: Seq<Value>, x: Value)
    ensures
        yv_list(s.push(x)) == yv_list(s).push(yv(x)),
{
    assert(s.push(x).drop_last() =~= s);
}

/// The model of an entry list after `push`.
pub proof fn lemma_yv_entries_push(s: Seq<(Value, Value)>, x: (Value, Value))
    ensures
        yv_entries(s.push(x)) == yv_entries(s).push((yv(x.0), yv(x.1))),
{
    assert(s.push(x).drop_last() =~= s);
}

/// The model of an entry list after `update`.
pub proof fn lemma_yv_entries_update(s: Seq<(Value, Value)>, i: int, x: (Value, Value))
    requires
        0 <= i < s.len(),
    ensures
        yv_entries(s.update(i, x)) == yv_entries(s).update(i, (yv(x.0), yv(x.1))),
{
    lemma_yv_entries(s);
    lemma_yv_entries(s.update(i, x));
    assert(yv_entries(s.update(i, x)) =~= yv_entries(s).update(i, (yv(x.0), yv(x.1))));
}

proof fn lemma_dict_find_from(es: Seq<(Yaml, Yaml)>, k: Seq<char>, i: int)
    requires
        0 <= i,
    ensures
        match dict_find_from(es, k, i) {
            Some(j) => i <= j < es.len() && es[j].0 == Yaml::Text(k) && forall|m: int|
                i <= m < j ==> es[m].0 != Yaml::Text(k),
            None => forall|m: int| i <= m < es.len() ==> es[m].0 != Yaml::Text(k),
        },
    decreases es.len() - i,
{
    if i < es.len() && es[i].0 != Yaml::Text(k) {
        lemma_dict_find_from(es, k, i + 1);
    }
}

/// What `dict_find` gives, stated over positions.
pub proof fn lemma_dict_find(es: Seq<(Yaml, Yaml)>, k: Seq<char>)
    ensures
        match dict_find(es, k) {
            Some(j) => 0 <= j < es.len() && es[j].0 == Yaml::Text(k) && forall|m: int|
                0 <= m < j ==> es[m].0 != Yaml::Text(k),
            None => forall|m: int| 0 <= m < es.len() ==> es[m].0 != Yaml::Text(k),
        },
{
    lemma_dict_find_from(es, k, 0);
}

/// Inserting under one key leaves the value under another key as it was.
pub proof fn lemma_dict_insert_other(es: Seq<(Yaml, Yaml)>, k1: Seq<char>, v: Yaml, k2: Seq<char>)
    requires
        k1 != k2,
    ensures
        dict_get(dict_insert(es, k1, v), k2) == dict_get(es, k2),
{
    let n = dict_insert(es, k1, v);
    lemma_dict_find(es, k1);
    lemma_dict_find(es, k2);
    lemma_dict_find(n, k2);
    match dict_find(es, k2) {
        Some(j) => {
            assert(n[j].0 == Yaml::Text(k2));
            assert(dict_find(n, k2) == Some(j));
        },
        None => {
            assert(dict_find(n, k2) is None);
        },
    }
}

/// Reading a key back after inserting it gives the inserted value.
pub proof fn law_dict_insert_get(es: Seq<(Yaml, Yaml)>, k: Seq<char>, v: Yaml)
    ensures
        dict_get(dict_insert(es, k, v), k) == Some(v),
{
    let n = dict_insert(es, k, v);
    lemma_dict_find(es, k);
    lemma_dict_find(n, k);
    match dict_find(es, k) {
        Some(i) => {
            assert(n[i].0 == Yaml::Text(k));
            assert(dict_find(n, k) == Some(i));
        },
        None => {
            assert(n[es.len() as int].0 == Yaml::Text(k));
            assert(dict_find(n, k) == Some(es.len() as int));
        },
    }
}

/// No two entries of a mapping share a key, as in every mapping that a parser builds.
pub open spec fn distinct_keys(es: Seq<(Yaml, Yaml)>) -> bool {
    forall|i: int, j: int| 0 <= i < j < es.len() ==> es[i].0 != es[j].0
}

/// Inserting keeps the keys distinct.
pub proof fn lemma_dict_insert_distinct(es: Seq<(Yaml, Yaml)>, k: Seq<char>, v: Yaml)
    requires
        distinct_keys(es),
    ensures
        distinct_keys(dict_insert(es, k, v)),
{
    lemma_dict_find(es, k);
    let n = dict_insert(es, k, v);
    assert forall|i: int, j: int| 0 <= i < j < n.len() implies n[i].0 != n[j].0 by {
        match dict_find(es, k) {
            Some(m) => {
                if i == m {
                    assert(es[j].0 != es[m].0);
                } else if j == m {
                    assert(es[i].0 != es[m].0);
                }
            },
            None => {
                if j == es.len() {
                    assert(es[i].0 != Yaml::Text(k));
                }
            },
        }
    }
}

/// Removing keeps the keys distinct, and the value under every other key.
pub proof fn lemma_dict_remove_other(es: Seq<(Yaml, Yaml)>, k1: Seq<char>, k2: Seq<char>)
    requires
        distinct_keys(es),
        k1 != k2,
    ensures
        distinct_keys(dict_remove(es, k1)),
        dict_get(dict_remove(es, k1), k2) == dict_get(es, k2),
{
    lemma_dict_find(es, k1);
    lemma_dict_find(es, k2);
    match dict_find(es, k1) {
        Some(m) => {
            let n = dict_remove(es, k1);
            let last = es.len() - 1;
            assert(n.len() == last);
            assert forall|i: int, j: int| 0 <= i < j < n.len() implies n[i].0 != n[j].0 by {
                if i == m {
                    assert(es[last].0 != es[j].0);
                } else if j == m {
                    assert(es[i].0 != es[last].0);
                }
            }
            lemma_dict_find(n, k2);
            match dict_find(es, k2) {
                Some(j) => {
                    assert(j != m);
                    if j == last {
                        assert(n[m].0 == Yaml::Text(k2));
                        assert forall|q: int| 0 <= q < n.len() && q != m implies n[q].0 != Yaml::Text(k2) by {
                            assert(es[q].0 != es[last].0);
                        }
                        assert(dict_find(n, k2) == Some(m));
                    } else {
                        assert(n[j].0 == Yaml::Text(k2));
                        assert forall|q: int| 0 <= q < n.len() && q != j implies n[q].0 != Yaml::Text(k2) by {
                            if q == m {
                                assert(es[last].0 != es[j].0);
                            } else {
                                assert(es[q].0 != es[j].0);
                            }
                        }
                        assert(dict_find(n, k2) == Some(j));
                    }
                },
                None => {
                    assert forall|q: int| 0 <= q < n.len() implies n[q].0 != Yaml::Text(k2) by {
                        if q == m {
                            assert(es[last].0 != Yaml::Text(k2));
                        }
                    }
                    assert(dict_find(n, k2) is None);
                },
            }
        },
        None => {},
    }
}

/// Inserting the value that a key already holds changes nothing.
pub proof fn lemma_dict_insert_same(es: Seq<(Yaml, Yaml)>, k: Seq<char>, v: Yaml)
    requires
        dict_get(es, k) == Some(v),
    ensures
        dict_insert(es, k, v) == es,
{
    lemma_dict_find(es, k);
    let i = dict_find(es, k)->0;
    assert(dict_insert(es, k, v) =~= es);
}

// ---------------------------------------------------------------------------
// Executable operations
// ---------------------------------------------------------------------------

/// Whether a node is the string `key`.
pub fn is_key(v: &Value, key: &str) -> (r: bool)
    ensures
        r == (yv(*v) == Yaml::Text(key@)),
{
    match v {
        Value::String(s) => crate::text::str_eq(s.as_str(), key),
        _ => false,
    }
}

/// Index of the entry whose key is the string `key`.
pub fn find_key(es: &Vec<(Value, Value)>, key: &str) -> (r: Option<usize>)
    ensures
        opt_idx(r) == dict_find(yv_entries(es@), key@),
{
    proof {
        lemma_yv_entries(es@);
    }
    let mut i: usize = 0;
    while i < es.len()
        invariant
            i <= es.len(),
            yv_entries(es@).len() == es@.len(),
            forall|m: int|
                0 <= m < es@.len() ==> #[trigger] yv_entries(es@)[m] == (
                    yv(es@[m].0),
                    yv(es@[m].1),
                ),
            dict_find(yv_entries(es@), key@) == dict_find_from(yv_entries(es@), key@, i as int),
        decreases es.len() - i,
    {
        if is_key(&es[i].0, key) {
            return Some(i);
        }
        i = i + 1;
    }
    None
}

/// The value stored under the string `key`.
pub fn get_key<'a>(es: &'a Vec<(Value, Value)>, key: &str) -> (r: Option<&'a Value>)
    ensures
        match r {
            Some(v) => dict_get(yv_entries(es@), key@) == Some(yv(*v)),
            None => dict_get(yv_entries(es@), key@) is None,
        },
{
    proof {
        lemma_yv_entries(es@);
        lemma_dict_find(yv_entries(es@), key@);
    }
    match find_key(es, key) {
        Some(i) => Some(&es[i].1),
        None => None,
    }
}

/// The node stored under the string `key` of a mapping node.
pub fn value_get<'a>(v: &'a Value, key: &str) -> (r: Option<&'a Value>)
    ensures
        match r {
            Some(x) => yaml_get(yv(*v), key@) == Some(yv(*x)),
            None => yaml_get(yv(*v), key@) is None,
        },
{
    match v {
        Value::Mapping(es) => get_key(es, key),
        _ => None,
    }
}

/// A string node.
pub fn text_value(s: &str) -> (r: Value)
    ensures
        yv(r) == Yaml::Text(s@),
{
    Value::String(s.to_owned())
}

/// `Mapping::insert` with a string key.
pub fn insert_key(es: &mut Vec<(Value, Value)>, key: &str, v: Value)
    ensures
        yv_entries(final(es)@) == dict_insert(yv_entries(old(es)@), key@, yv(v)),
{
    proof {
        lemma_yv_entries(old(es)@);
        lemma_dict_find(yv_entries(old(es)@), key@);
    }
    let ghost vv = yv(v);
    let k = text_value(key);
    match find_key(es, key) {
        Some(i) => {
            proof {
                lemma_yv_entries_update(old(es)@, i as int, (k, v));
            }
            es.set(i, (k, v));
        },
        None => {
            proof {
                lemma_yv_entries_push(old(es)@, (k, v));
            }
            es.push((k, v));
        },
    }
}

/// `Mapping::remove` with a string key.
pub fn remove_key(es: &mut Vec<(Value, Value)>, key: &str)
    ensures
        yv_entries(final(es)@) == dict_remove(yv_entries(old(es)@), key@),
{
    proof {
        lemma_yv_entries(old(es)@);
        lemma_dict_find(yv_entries(old(es)@), key@);
    }
    match find_key(es, key) {
        Some(i) => {
            let _ = es.swap_remove(i);
            proof {
                let s = old(es)@;
                lemma_yv_entries(final(es)@);
                assert(yv_entries(final(es)@) =~= yv_entries(s).update(
                    i as int,
                    yv_entries(s).last(),
                ).drop_last());
            }
        },
        None => {},
    }
}

/// `Mapping::entry(key).or_insert(v)` with a string key.
pub fn or_insert_key(es: &mut Vec<(Value, Value)>, key: &str, v: Value)
    ensures
        yv_entries(final(es)@) == dict_or_insert(yv_entries(old(es)@), key@, yv(v)),
{
    match find_key(es, key) {
        Some(_) => {},
        None => {
            let k = text_value(key);
            proof {
                lemma_yv_entries_push(old(es)@, (k, v));
            }
            es.push((k, v));
        },
    }
}

/// A copy of a node.
pub fn copy_value(v: &Value) -> (r: Value)
    ensures
        yv(r) == yv(*v),
    decreases *v,
{
    match v {
        Value::Null => Value::Null,
        Value::Bool(b) => Value::Bool(*b),
        Value::Number(Number::PosInt(n)) => Value::Number(Number::PosInt(*n)),
        Value::Number(Number::NegInt(n)) => Value::Number(Number::NegInt(*n)),
        Value::Number(Number::Float(t)) => Value::Number(Number::Float(t.clone())),
        Value::String(s) => Value::String(s.clone()),
        Value::Sequence(items) => {
            let mut out: Vec<Value> = Vec::new();
            let mut i: usize = 0;
            while i < items.len()
                invariant
                    i <= items.len(),
                    *v == Value::Sequence(*items),
                    out@.len() == i,
                    forall|m: int| 0 <= m < i ==> yv(#[trigger] out@[m]) == yv(items@[m]),
                decreases items.len() - i,
            {
                proof {
                    assert(decreases_to!(*v => (*v)->Sequence_0));
                    assert(decreases_to!(*items => items@));
                    assert(decreases_to!(items@ => items@[i as int]));
                    assert(decreases_to!(*v => items@[i as int]));
                }
                let c = copy_value(&items[i]);
                out.push(c);
                i = i + 1;
            }
            proof {
                lemma_yv_list_ext(out@, items@);
            }
            Value::Sequence(out)
        },
        Value::Mapping(es) => {
            let mut out: Vec<(Value, Value)> = Vec::new();
            let mut i: usize = 0;
            while i < es.len()
                invariant
                    i <= es.len(),
                    *v == Value::Mapping(*es),
                    out@.len() == i,
                    forall|m: int|
                        0 <= m < i ==> yv(#[trigger] out@[m].0) == yv(es@[m].0) && yv(out@[m].1)
                            == yv(es@[m].1),
                decreases es.len() - i,
            {
                proof {
                    assert(decreases_to!(*v => (*v)->Mapping_0));
                    assert(decreases_to!(*es => es@));
                    assert(decreases_to!(es@ => es@[i as int]));
                    assert(decreases_to!(es@[i as int] => es@[i as int].0));
                    assert(decreases_to!(es@[i as int] => es@[i as int].1));
                    assert(decreases_to!(*v => es@[i as int].0));
                    assert(decreases_to!(*v => es@[i as int].1));
                }
                let a = copy_value(&es[i].0);
                let b = copy_value(&es[i].1);
                out.push((a, b));
                i = i + 1;
            }
            proof {
                lemma_yv_entries_ext(out@, es@);
            }
            Value::Mapping(out)
        },
        Value::Tagged(t, b) => Value::Tagged(t.clone(), Box::new(copy_value(b))),
    }
}

} // verus!
