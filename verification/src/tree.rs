//! Navigation and in-place edits of document trees, as `serde_yaml::Value`'s
//! accessors perform them: reads look through tags, writes keep them.

use crate::text::str_eq;
use crate::value::{
    Value, Yaml, copy_value, dict_get, dict_insert, get_key, insert_key, law_dict_insert_get,
    lemma_yv_entries_ext, lemma_yv_list, lemma_yv_list_ext, lemma_yv_list_push, yv, yv_entries,
    yv_list,
};
use vstd::prelude::*;

verus! {

// ---------------------------------------------------------------------------
// Specifications
// ---------------------------------------------------------------------------

/// A node with its tags removed, as `Value::untag_ref` sees it.
pub open spec fn untag(y: Yaml) -> Yaml
    decreases y,
{
    match y {
        Yaml::Tag(_, b) => untag(*b),
        _ => y,
    }
}

/// `y` with the node under its tags replaced by `inner`.
pub open spec fn retag(y: Yaml, inner: Yaml) -> Yaml
    decreases y,
{
    match y {
        Yaml::Tag(t, b) => Yaml::Tag(t, Box::new(retag(*b, inner))),
        _ => inner,
    }
}

/// The string of a node, as `Value::as_str` reads it.
pub open spec fn str_of(y: Yaml) -> Option<Seq<char>> {
    match untag(y) {
        Yaml::Text(t) => Some(t),
        _ => None,
    }
}

/// The list under `key` as a list is made sure of: empty when the key is absent,
/// none when its value is not a list.
pub open spec fn list_under(es: Seq<(Yaml, Yaml)>, key: Seq<char>) -> Option<Seq<Yaml>> {
    match dict_get(es, key) {
        Some(v) => match untag(v) {
            Yaml::List(items) => Some(items),
            _ => None,
        },
        None => Some(Seq::empty()),
    }
}

/// `es` with the list under `key` replaced by `items`, keeping its tags; a new entry
/// when the key is absent.
pub open spec fn set_list(es: Seq<(Yaml, Yaml)>, key: Seq<char>, items: Seq<Yaml>) -> Seq<
    (Yaml, Yaml),
> {
    dict_insert(
        es,
        key,
        match dict_get(es, key) {
            Some(v) => retag(v, Yaml::List(items)),
            None => Yaml::List(items),
        },
    )
}

/// The mapping under `key` as a mapping is made sure of: empty when the key is
/// absent, none when its value is not a mapping.
pub open spec fn dict_under(es: Seq<(Yaml, Yaml)>, key: Seq<char>) -> Option<Seq<(Yaml, Yaml)>> {
    match dict_get(es, key) {
        Some(v) => match untag(v) {
            Yaml::Dict(inner) => Some(inner),
            _ => None,
        },
        None => Some(Seq::empty()),
    }
}

/// `es` with the mapping under `key` replaced by `inner`, keeping its tags; a new
/// entry when the key is absent.
pub open spec fn set_dict(es: Seq<(Yaml, Yaml)>, key: Seq<char>, inner: Seq<(Yaml, Yaml)>) -> Seq<
    (Yaml, Yaml),
> {
    dict_insert(
        es,
        key,
        match dict_get(es, key) {
            Some(v) => retag(v, Yaml::Dict(inner)),
            None => Yaml::Dict(inner),
        },
    )
}

/// The list stored under `key` itself, without looking through tags.
pub open spec fn plain_list(es: Seq<(Yaml, Yaml)>, key: Seq<char>) -> Option<Seq<Yaml>> {
    match dict_get(es, key) {
        Some(Yaml::List(items)) => Some(items),
        _ => None,
    }
}

/// Whether some element of `items` reads as the string `s`.
pub open spec fn has_text(items: Seq<Yaml>, s: Seq<char>) -> bool {
    exists|i: int| 0 <= i < items.len() && str_of(#[trigger] items[i]) == Some(s)
}

/// `items` with the string `s` appended, unless some element already reads as `s`.
pub open spec fn append_unique(items: Seq<Yaml>, s: Seq<char>) -> Seq<Yaml> {
    if has_text(items, s) {
        items
    } else {
        items.push(Yaml::Text(s))
    }
}

/// `append_unique` of each string in turn.
pub open spec fn append_all(items: Seq<Yaml>, ss: Seq<Seq<char>>) -> Seq<Yaml>
    decreases ss.len(),
{
    if ss.len() == 0 {
        items
    } else {
        append_unique(append_all(items, ss.drop_last()), ss.last())
    }
}

// ---------------------------------------------------------------------------
// Lemmas
// ---------------------------------------------------------------------------

/// Reading through the tags of a retagged node gives what was put under them.
pub proof fn lemma_untag_retag(y: Yaml, inner: Yaml)
    ensures
        untag(retag(y, inner)) == untag(inner),
    decreases y,
{
    match y {
        Yaml::Tag(_, b) => lemma_untag_retag(*b, inner),
        _ => {},
    }
}

/// Putting back the node under a node's tags gives the node.
pub proof fn lemma_retag_untag(y: Yaml)
    ensures
        retag(y, untag(y)) == y,
    decreases y,
{
    match y {
        Yaml::Tag(t, b) => {
            lemma_retag_untag(*b);
        },
        _ => {},
    }
}

/// The list just set under a key reads back.
pub proof fn lemma_set_list_under(es: Seq<(Yaml, Yaml)>, key: Seq<char>, items: Seq<Yaml>)
    ensures
        list_under(set_list(es, key, items), key) == Some(items),
{
    let v = match dict_get(es, key) {
        Some(v) => retag(v, Yaml::List(items)),
        None => Yaml::List(items),
    };
    law_dict_insert_get(es, key, v);
    match dict_get(es, key) {
        Some(w) => lemma_untag_retag(w, Yaml::List(items)),
        None => {},
    }
}

/// The mapping stored by `set_dict` is what `dict_under` reads back.
pub proof fn lemma_set_dict_under(es: Seq<(Yaml, Yaml)>, key: Seq<char>, inner: Seq<(Yaml, Yaml)>)
    ensures
        dict_under(set_dict(es, key, inner), key) == Some(inner),
{
    let v = match dict_get(es, key) {
        Some(v) => retag(v, Yaml::Dict(inner)),
        None => Yaml::Dict(inner),
    };
    law_dict_insert_get(es, key, v);
    match dict_get(es, key) {
        Some(w) => lemma_untag_retag(w, Yaml::Dict(inner)),
        None => {},
    }
}

// ---------------------------------------------------------------------------
// Executable operations
// ---------------------------------------------------------------------------

/// The node under the tags of `v`.
pub fn untagged(v: &Value) -> (r: &Value)
    ensures
        yv(*r) == untag(yv(*v)),
    decreases v,
{
    match v {
        Value::Tagged(_, b) => untagged(b),
        _ => v,
    }
}

/// The string of a node, looking through tags.
pub fn as_text(v: &Value) -> (r: Option<&String>)
    ensures
        match r {
            Some(s) => str_of(yv(*v)) == Some(s@),
            None => str_of(yv(*v)) is None,
        },
{
    match untagged(v) {
        Value::String(s) => Some(s),
        _ => None,
    }
}

/// `v` with the node under its tags replaced by `inner`.
pub fn retag_value(v: &Value, inner: Value) -> (r: Value)
    ensures
        yv(r) == retag(yv(*v), yv(inner)),
    decreases v,
{
    match v {
        Value::Tagged(t, b) => Value::Tagged(t.clone(), Box::new(retag_value(b, inner))),
        _ => inner,
    }
}

/// A copy of a list of nodes.
pub fn copy_list(items: &Vec<Value>) -> (r: Vec<Value>)
    ensures
        yv_list(r@) == yv_list(items@),
{
    let mut out: Vec<Value> = Vec::new();
    let mut i: usize = 0;
    while i < items.len()
        invariant
            i <= items.len(),
            out@.len() == i,
            forall|m: int| 0 <= m < i ==> yv(#[trigger] out@[m]) == yv(items@[m]),
        decreases items.len() - i,
    {
        out.push(copy_value(&items[i]));
        i = i + 1;
    }
    proof {
        lemma_yv_list_ext(out@, items@);
    }
    out
}

/// A copy of a list of mapping entries.
pub fn copy_entries(es: &Vec<(Value, Value)>) -> (r: Vec<(Value, Value)>)
    ensures
        yv_entries(r@) == yv_entries(es@),
{
    let mut out: Vec<(Value, Value)> = Vec::new();
    let mut i: usize = 0;
    while i < es.len()
        invariant
            i <= es.len(),
            out@.len() == i,
            forall|m: int|
                0 <= m < i ==> yv(#[trigger] out@[m].0) == yv(es@[m].0) && yv(out@[m].1) == yv(
                    es@[m].1,
                ),
        decreases es.len() - i,
    {
        let a = copy_value(&es[i].0);
        let b = copy_value(&es[i].1);
        out.push((a, b));
        i = i + 1;
    }
    proof {
        lemma_yv_entries_ext(out@, es@);
    }
    out
}

/// A copy of the list under `key`: empty when the key is absent, none when its value
/// is not a list.
pub fn list_under_exec(es: &Vec<(Value, Value)>, key: &str) -> (r: Option<Vec<Value>>)
    ensures
        match r {
            Some(items) => list_under(yv_entries(es@), key@) == Some(yv_list(items@)),
            None => list_under(yv_entries(es@), key@) is None,
        },
{
    match get_key(es, key) {
        Some(v) => match untagged(v) {
            Value::Sequence(items) => Some(copy_list(items)),
            _ => None,
        },
        None => Some(Vec::new()),
    }
}

/// Replaces the list under `key` by `items`, keeping its tags.
pub fn set_list_exec(es: &mut Vec<(Value, Value)>, key: &str, items: Vec<Value>)
    ensures
        yv_entries(final(es)@) == set_list(yv_entries(old(es)@), key@, yv_list(items@)),
{
    let nv = match get_key(es, key) {
        Some(v) => retag_value(v, Value::Sequence(items)),
        None => Value::Sequence(items),
    };
    insert_key(es, key, nv);
}

/// A copy of the mapping under `key`: empty when the key is absent, none when its
/// value is not a mapping.
pub fn dict_under_exec(es: &Vec<(Value, Value)>, key: &str) -> (r: Option<Vec<(Value, Value)>>)
    ensures
        match r {
            Some(inner) => dict_under(yv_entries(es@), key@) == Some(yv_entries(inner@)),
            None => dict_under(yv_entries(es@), key@) is None,
        },
{
    match get_key(es, key) {
        Some(v) => match untagged(v) {
            Value::Mapping(inner) => Some(copy_entries(inner)),
            _ => None,
        },
        None => Some(Vec::new()),
    }
}

/// Replaces the mapping under `key` by `inner`, keeping its tags.
pub fn set_dict_exec(es: &mut Vec<(Value, Value)>, key: &str, inner: Vec<(Value, Value)>)
    ensures
        yv_entries(final(es)@) == set_dict(yv_entries(old(es)@), key@, yv_entries(inner@)),
{
    let nv = match get_key(es, key) {
        Some(v) => retag_value(v, Value::Mapping(inner)),
        None => Value::Mapping(inner),
    };
    insert_key(es, key, nv);
}

/// A copy of the list stored under `key` itself.
pub fn plain_list_exec(es: &Vec<(Value, Value)>, key: &str) -> (r: Option<Vec<Value>>)
    ensures
        match r {
            Some(items) => plain_list(yv_entries(es@), key@) == Some(yv_list(items@)),
            None => plain_list(yv_entries(es@), key@) is None,
        },
{
    match get_key(es, key) {
        Some(Value::Sequence(items)) => Some(copy_list(items)),
        _ => None,
    }
}

/// Whether some element of `items` reads as the string `s`.
pub fn has_text_exec(items: &Vec<Value>, s: &str) -> (r: bool)
    ensures
        r == has_text(yv_list(items@), s@),
{
    proof {
        lemma_yv_list(items@);
    }
    let mut i: usize = 0;
    while i < items.len()
        invariant
            i <= items.len(),
            yv_list(items@).len() == items@.len(),
            forall|m: int| 0 <= m < items@.len() ==> #[trigger] yv_list(items@)[m] == yv(items@[m]),
            forall|m: int| 0 <= m < i ==> str_of(#[trigger] yv_list(items@)[m]) != Some(s@),
        decreases items.len() - i,
    {
        match as_text(&items[i]) {
            Some(t) => {
                if str_eq(t.as_str(), s) {
                    assert(str_of(yv_list(items@)[i as int]) == Some(s@));
                    return true;
                }
            },
            None => {},
        }
        i = i + 1;
    }
    false
}

/// Appends the string `s` unless some element already reads as `s`.
pub fn append_unique_exec(items: &mut Vec<Value>, s: &str)
    ensures
        yv_list(final(items)@) == append_unique(yv_list(old(items)@), s@),
{
    if !has_text_exec(items, s) {
        let x = Value::String(s.to_owned());
        proof {
            lemma_yv_list_push(items@, x);
        }
        items.push(x);
    }
}

/// Appending strings to a list without duplicates keeps the list in front, leaves
/// every string in the list, adds only strings that were asked for, and never adds a
/// string that is already there or twice.
pub proof fn law_append_all_unique(items: Seq<Yaml>, ss: Seq<Seq<char>>)
    ensures
        append_all(items, ss).len() >= items.len(),
        append_all(items, ss).take(items.len() as int) == items,
        forall|i: int| 0 <= i < ss.len() ==> has_text(append_all(items, ss), #[trigger] ss[i]),
        forall|b: int|
            items.len() <= b < append_all(items, ss).len() ==> exists|i: int|
                0 <= i < ss.len() && #[trigger] append_all(items, ss)[b] == Yaml::Text(ss[i]),
        forall|a: int, b: int|
            0 <= a < b < append_all(items, ss).len() && items.len() <= b ==> str_of(
                #[trigger] append_all(items, ss)[a],
            ) != str_of(#[trigger] append_all(items, ss)[b]),
    decreases ss.len(),
{
    if ss.len() == 0 {
        assert(items.take(items.len() as int) =~= items);
    } else {
        let init = ss.drop_last();
        let s = ss.last();
        law_append_all_unique(items, init);
        let r0 = append_all(items, init);
        let r = append_all(items, ss);
        assert(r == append_unique(r0, s));
        assert forall|i: int| 0 <= i < init.len() implies #[trigger] init[i] == ss[i] by {}
        if has_text(r0, s) {
            assert(r == r0);
            assert forall|i: int| 0 <= i < ss.len() implies has_text(r, #[trigger] ss[i]) by {
                if i < init.len() {
                    assert(has_text(r0, init[i]));
                }
            }
            assert forall|b: int| items.len() <= b < r.len() implies exists|i: int|
                0 <= i < ss.len() && #[trigger] r[b] == Yaml::Text(ss[i]) by {
                let i = choose|i: int| 0 <= i < init.len() && r0[b] == Yaml::Text(init[i]);
                assert(r[b] == Yaml::Text(ss[i]));
            }
        } else {
            assert(r == r0.push(Yaml::Text(s)));
            assert(r.take(items.len() as int) =~= r0.take(items.len() as int));
            assert(str_of(Yaml::Text(s)) == Some(s));
            assert forall|i: int| 0 <= i < ss.len() implies has_text(r, #[trigger] ss[i]) by {
                if i < init.len() {
                    assert(has_text(r0, init[i]));
                    let w = choose|w: int| 0 <= w < r0.len() && str_of(#[trigger] r0[w]) == Some(init[i]);
                    assert(r[w] == r0[w]);
                } else {
                    assert(r[r0.len() as int] == Yaml::Text(s));
                }
            }
            assert forall|b: int| items.len() <= b < r.len() implies exists|i: int|
                0 <= i < ss.len() && #[trigger] r[b] == Yaml::Text(ss[i]) by {
                if b < r0.len() {
                    let i = choose|i: int| 0 <= i < init.len() && r0[b] == Yaml::Text(init[i]);
                    assert(r[b] == r0[b]);
                    assert(r[b] == Yaml::Text(ss[i]));
                } else {
                    assert(r[b] == Yaml::Text(ss[ss.len() - 1]));
                }
            }
            assert forall|a: int, b: int|
                0 <= a < b < r.len() && items.len() <= b implies str_of(#[trigger] r[a]) != str_of(
                #[trigger] r[b],
            ) by {
                if b < r0.len() {
                    assert(r[a] == r0[a]);
                    assert(r[b] == r0[b]);
                } else {
                    assert(r[a] == r0[a]);
                    assert(r[b] == Yaml::Text(s));
                    if str_of(r0[a]) == Some(s) {
                        assert(has_text(r0, s));
                    }
                }
            }
        }
    }
}

} // verus!
