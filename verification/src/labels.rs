//! Reading and rewriting the Traefik labels that application generation writes.
//!
//! A generated label key has the form `traefik.http.routers.NAME-INDEX...` or
//! `traefik.http.services.NAME-INDEX...`, where `INDEX` is a run of decimal
//! digits; every other label is the user's own.

use crate::text::{
    all_digits, all_digits_exec, before_char, before_char_exec, chars_of, ends_with, ends_with_exec,
    find_sub, find_sub_exec, lemma_find_sub, occurs_at, parse_bounded, parse_bounded_exec,
    split_once, split_once_exec, starts_with, starts_with_exec, sub_chars,
};
use crate::gen::{join_middleware_refs, join_refs};
use crate::names::{split_all, split_all_exec};
use crate::text::{decimal, decimal_string, string_of};
use crate::tree::{as_text, copy_list, plain_list, plain_list_exec, str_of, untag, untagged};
use crate::types::{Middleware, Route, RouteView, middleware_of_ref, route_view, routes_view};
use crate::value::{
    Value, Yaml, copy_value, dict_get, dict_insert, get_key, insert_key, lemma_yv_entries,
    lemma_yv_list, lemma_yv_list_push, yv, yv_entries, yv_list,
};
use vstd::prelude::*;

verus! {

// ---------------------------------------------------------------------------
// Specifications
// ---------------------------------------------------------------------------

/// Key prefix of the generated router labels of project `name`.
pub open spec fn routers_prefix(name: Seq<char>) -> Seq<char> {
    "traefik.http.routers."@ + name + "-"@
}

/// Key prefix of the generated load-balancer labels of project `name`.
pub open spec fn services_prefix(name: Seq<char>) -> Seq<char> {
    "traefik.http.services."@ + name + "-"@
}

/// The text after `prefix` up to the first `.`: the route index of a generated key.
pub open spec fn index_text(key: Seq<char>, prefix: Seq<char>) -> Seq<char> {
    before_char(key.skip(prefix.len() as int), '.')
}

/// Whether `key` starts with `prefix` followed by a non-empty run of digits that ends
/// at a `.` or at the end.
pub open spec fn is_generated_key(key: Seq<char>, prefix: Seq<char>) -> bool {
    &&& starts_with(key, prefix)
    &&& index_text(key, prefix).len() > 0
    &&& all_digits(index_text(key, prefix))
}

/// Key and value of a `KEY=VALUE` string label.
pub open spec fn label_pair(y: Yaml) -> Option<(Seq<char>, Seq<char>)> {
    match str_of(y) {
        Some(t) => split_once(t, '='),
        None => None,
    }
}

/// A generated load-balancer port key.
pub open spec fn is_port_key(name: Seq<char>, k: Seq<char>) -> bool {
    is_generated_key(k, services_prefix(name)) && ends_with(k, ".loadbalancer.server.port"@)
}

/// A generated router rule key.
pub open spec fn is_rule_key(name: Seq<char>, k: Seq<char>) -> bool {
    is_generated_key(k, routers_prefix(name)) && ends_with(k, ".rule"@)
}

/// A generated router middlewares key.
pub open spec fn is_middlewares_key(name: Seq<char>, k: Seq<char>) -> bool {
    is_generated_key(k, routers_prefix(name)) && ends_with(k, ".middlewares"@)
}

/// The first defined result of `f` over `s`, from the front.
pub open spec fn first_some<A>(s: Seq<Yaml>, f: spec_fn(Yaml) -> Option<A>) -> Option<A>
    decreases s.len(),
{
    if s.len() == 0 {
        None
    } else {
        match f(s[0]) {
            Some(a) => Some(a),
            None => first_some(s.drop_first(), f),
        }
    }
}

/// The port of a generated load-balancer label that reads as a port number.
pub open spec fn port_label(name: Seq<char>) -> spec_fn(Yaml) -> Option<nat> {
    |y: Yaml|
        match label_pair(y) {
            Some((k, v)) => if is_port_key(name, k) {
                parse_bounded(v, 65535)
            } else {
                None
            },
            None => None,
        }
}

/// The port of the first generated load-balancer label that has one.
pub open spec fn existing_container_port(name: Seq<char>, labels: Seq<Yaml>) -> Option<nat> {
    first_some(labels, port_label(name))
}

/// The router named by a rule key.
pub open spec fn router_of_key(k: Seq<char>) -> Option<Seq<char>> {
    let p = "traefik.http.routers."@;
    let rest = k.skip(p.len() as int);
    if starts_with(k, p) && ends_with(rest, ".rule"@) {
        Some(rest.take(rest.len() - ".rule"@.len()))
    } else {
        None
    }
}

/// The host of a rule that starts with ``Host(`...`)``.
pub open spec fn extract_host(rule: Seq<char>) -> Option<Seq<char>> {
    let rest = rule.skip("Host(`"@.len() as int);
    if starts_with(rule, "Host(`"@) {
        match find_sub(rest, "`)"@) {
            Some(e) => Some(rest.take(e)),
            None => None,
        }
    } else {
        None
    }
}

/// The prefix of the first ``PathPrefix(`...`)`` in a rule.
pub open spec fn extract_prefix(rule: Seq<char>) -> Option<Seq<char>> {
    match find_sub(rule, "PathPrefix(`"@) {
        Some(i) => {
            let rest = rule.skip(i + "PathPrefix(`"@.len());
            match find_sub(rest, "`)"@) {
                Some(e) => Some(rest.take(e)),
                None => None,
            }
        },
        None => None,
    }
}

/// The key prefix of the port label of `router`.
pub open spec fn port_key(router: Seq<char>) -> Seq<char> {
    "traefik.http.services."@ + router + ".loadbalancer.server.port="@
}

/// The port written in a port label of `router`.
pub open spec fn router_port_label(router: Seq<char>) -> spec_fn(Yaml) -> Option<nat> {
    |y: Yaml|
        match str_of(y) {
            Some(t) => if starts_with(t, port_key(router)) {
                parse_bounded(t.skip(port_key(router).len() as int), 65535)
            } else {
                None
            },
            None => None,
        }
}

/// The port of `router`, 80 when no label gives one.
pub open spec fn router_port(labels: Seq<Yaml>, router: Seq<char>) -> nat {
    match first_some(labels, router_port_label(router)) {
        Some(p) => p,
        None => 80,
    }
}

/// A route read back from a generated rule label: host, path prefix and the port of
/// its router.
pub open spec fn route_of_label(name: Seq<char>, labels: Seq<Yaml>) -> spec_fn(Yaml) -> Option<
    RouteView,
> {
    |y: Yaml|
        match label_pair(y) {
            Some((k, rule)) => if is_rule_key(name, k) {
                match router_of_key(k) {
                    Some(router) => match extract_host(rule) {
                        Some(h) => Some(
                            RouteView {
                                host: h,
                                path_prefix: extract_prefix(rule),
                                container_port: router_port(labels, router),
                            },
                        ),
                        None => None,
                    },
                    None => None,
                }
            } else {
                None
            },
            None => None,
        }
}

/// The routes that the generated rule labels describe, in label order.
pub open spec fn existing_routes(name: Seq<char>, labels: Seq<Yaml>) -> Seq<RouteView> {
    labels.filter_map(route_of_label(name, labels))
}

/// The route index of a generated rule label, when it fits in `usize`.
pub open spec fn rule_index(name: Seq<char>) -> spec_fn(Yaml) -> Option<nat> {
    |y: Yaml|
        match label_pair(y) {
            Some((k, _)) => if is_rule_key(name, k) {
                parse_bounded(index_text(k, routers_prefix(name)), usize::MAX as nat)
            } else {
                None
            },
            None => None,
        }
}

/// The least element.
pub open spec fn min_of(s: Seq<nat>) -> Option<nat>
    decreases s.len(),
{
    if s.len() == 0 {
        None
    } else {
        match min_of(s.drop_last()) {
            Some(m) => Some(if s.last() < m {
                s.last()
            } else {
                m
            }),
            None => Some(s.last()),
        }
    }
}

/// The greatest element.
pub open spec fn max_of(s: Seq<nat>) -> Option<nat>
    decreases s.len(),
{
    if s.len() == 0 {
        None
    } else {
        match max_of(s.drop_last()) {
            Some(m) => Some(if s.last() > m {
                s.last()
            } else {
                m
            }),
            None => Some(s.last()),
        }
    }
}

/// The least route index of a service's generated rules, 0 without any.
pub open spec fn existing_route_offset(name: Seq<char>, labels: Seq<Yaml>) -> nat {
    match min_of(labels.filter_map(rule_index(name))) {
        Some(m) => m,
        None => 0,
    }
}

/// The labels of a service's entries, as `service.get("labels")` and
/// `Value::as_sequence` read them: empty when absent or not a list.
pub open spec fn labels_in(es: Seq<(Yaml, Yaml)>) -> Seq<Yaml> {
    match dict_get(es, "labels"@) {
        Some(l) => match untag(l) {
            Yaml::List(items) => items,
            _ => Seq::empty(),
        },
        None => Seq::empty(),
    }
}

/// The labels of a service node.
pub open spec fn node_labels(v: Yaml) -> Seq<Yaml> {
    match untag(v) {
        Yaml::Dict(es) => labels_in(es),
        _ => Seq::empty(),
    }
}

/// The route indexes of the generated rules of every service, in order.
pub open spec fn project_indexes(svcs: Seq<(Yaml, Yaml)>, name: Seq<char>) -> Seq<nat>
    decreases svcs.len(),
{
    if svcs.len() == 0 {
        Seq::empty()
    } else {
        project_indexes(svcs.drop_last(), name) + node_labels(svcs.last().1).filter_map(
            rule_index(name),
        )
    }
}

/// The first route index that no service of the project uses: one past the greatest.
pub open spec fn project_route_offset(svcs: Seq<(Yaml, Yaml)>, name: Seq<char>) -> nat {
    match max_of(project_indexes(svcs, name)) {
        Some(m) => m + 1,
        None => 0,
    }
}

/// The value of a generated middlewares label.
pub open spec fn middlewares_value(name: Seq<char>, y: Yaml) -> Option<Seq<char>> {
    match label_pair(y) {
        Some((k, v)) => if is_middlewares_key(name, k) {
            Some(v)
        } else {
            None
        },
        None => None,
    }
}

/// `acc` with the middlewares that the references name added in order, skipping
/// unknown references and ones already present.
pub open spec fn add_refs(acc: Seq<Middleware>, refs: Seq<Seq<char>>) -> Seq<Middleware>
    decreases refs.len(),
{
    if refs.len() == 0 {
        acc
    } else {
        let a = add_refs(acc, refs.drop_last());
        match middleware_of_ref(refs.last()) {
            Some(m) => if a.contains(m) {
                a
            } else {
                a.push(m)
            },
            None => a,
        }
    }
}

/// The middlewares that the generated middlewares labels reference, each once.
pub open spec fn existing_middlewares(name: Seq<char>, ls: Seq<Yaml>) -> Seq<Middleware>
    decreases ls.len(),
{
    if ls.len() == 0 {
        Seq::empty()
    } else {
        let a = existing_middlewares(name, ls.drop_last());
        match middlewares_value(name, ls.last()) {
            Some(v) => add_refs(a, split_all(v, ',')),
            None => a,
        }
    }
}

/// A generated load-balancer port label rewritten to `port`; other labels kept.
pub open spec fn port_rewrite(name: Seq<char>, port: nat) -> spec_fn(Yaml) -> Yaml {
    |y: Yaml|
        match label_pair(y) {
            Some((k, _)) => if is_port_key(name, k) {
                Yaml::Text(k + "="@ + decimal(port))
            } else {
                y
            },
            None => y,
        }
}

/// A generated middlewares label rewritten to `joined`; other labels kept.
pub open spec fn middlewares_rewrite(name: Seq<char>, joined: Seq<char>) -> spec_fn(Yaml) -> Yaml {
    |y: Yaml|
        match label_pair(y) {
            Some((k, _)) => if is_middlewares_key(name, k) {
                Yaml::Text(k + "="@ + joined)
            } else {
                y
            },
            None => y,
        }
}

/// Whether a label is kept when the generated route labels are removed.
pub open spec fn keeps_label(name: Seq<char>) -> spec_fn(Yaml) -> bool {
    |y: Yaml|
        match str_of(y) {
            Some(t) => !is_generated_key(before_char(t, '='), routers_prefix(name))
                && !is_generated_key(before_char(t, '='), services_prefix(name)),
            None => true,
        }
}

/// The entries with each generated port label set to `port`; unchanged unless the
/// labels are a plain list.
pub open spec fn update_port_labels(es: Seq<(Yaml, Yaml)>, name: Seq<char>, port: nat) -> Seq<
    (Yaml, Yaml),
> {
    match plain_list(es, "labels"@) {
        Some(items) => dict_insert(es, "labels"@, Yaml::List(items.map_values(port_rewrite(name, port)))),
        None => es,
    }
}

/// The entries with each generated middlewares label set to `ms`; unchanged unless
/// the labels are a plain list.
pub open spec fn update_middleware_labels(es: Seq<(Yaml, Yaml)>, name: Seq<char>, ms: Seq<Middleware>) -> Seq<
    (Yaml, Yaml),
> {
    match plain_list(es, "labels"@) {
        Some(items) => dict_insert(
            es,
            "labels"@,
            Yaml::List(items.map_values(middlewares_rewrite(name, join_refs(ms)))),
        ),
        None => es,
    }
}

/// The entries without the generated route labels; unchanged unless the labels are
/// a plain list.
pub open spec fn remove_generated_labels(es: Seq<(Yaml, Yaml)>, name: Seq<char>) -> Seq<(Yaml, Yaml)> {
    match plain_list(es, "labels"@) {
        Some(items) => dict_insert(es, "labels"@, Yaml::List(items.filter(keeps_label(name)))),
        None => es,
    }
}

// ---------------------------------------------------------------------------
// Lemmas
// ---------------------------------------------------------------------------

/// Appending an element to a sequence and taking the least.
pub proof fn lemma_min_of_push(s: Seq<nat>, x: nat)
    ensures
        min_of(s.push(x)) == Some(
            match min_of(s) {
                Some(m) => if x < m {
                    x
                } else {
                    m
                },
                None => x,
            },
        ),
{
    assert(s.push(x).drop_last() =~= s);
}

/// Appending an element to a sequence and taking the greatest.
pub proof fn lemma_max_of_push(s: Seq<nat>, x: nat)
    ensures
        max_of(s.push(x)) == Some(
            match max_of(s) {
                Some(m) => if x > m {
                    x
                } else {
                    m
                },
                None => x,
            },
        ),
{
    assert(s.push(x).drop_last() =~= s);
}

/// Whatever an element maps to is among the results of `filter_map`.
pub proof fn lemma_filter_map_has<A, B>(s: Seq<A>, f: spec_fn(A) -> Option<B>, i: int)
    requires
        0 <= i < s.len(),
        f(s[i]) is Some,
    ensures
        s.filter_map(f).contains(f(s[i])->0),
    decreases s.len(),
{
    let rest = s.drop_last();
    let r = rest.filter_map(f);
    if i == s.len() - 1 {
        assert(s.filter_map(f) == r + seq![f(s.last())->0]);
        assert((r + seq![f(s.last())->0])[r.len() as int] == f(s[i])->0);
    } else {
        lemma_filter_map_has(rest, f, i);
        assert(rest[i] == s[i]);
        let w = choose|k: int| 0 <= k < r.len() && r[k] == f(s[i])->0;
        match f(s.last()) {
            Some(x) => {
                assert((r + seq![x])[w] == r[w]);
            },
            None => {},
        }
    }
}

/// The greatest element is at least every element.
pub proof fn lemma_max_of_ge(s: Seq<nat>, x: nat)
    requires
        s.contains(x),
    ensures
        max_of(s) matches Some(m) && x <= m,
    decreases s.len(),
{
    let rest = s.drop_last();
    if s.last() != x {
        let k = choose|k: int| 0 <= k < s.len() && s[k] == x;
        assert(rest[k] == x);
        lemma_max_of_ge(rest, x);
    }
}

/// The project's indexes hold the rule indexes of every service.
proof fn lemma_project_indexes_has(svcs: Seq<(Yaml, Yaml)>, name: Seq<char>, j: int, l: int)
    requires
        0 <= j < svcs.len(),
        0 <= l < node_labels(svcs[j].1).len(),
        rule_index(name)(node_labels(svcs[j].1)[l]) is Some,
    ensures
        project_indexes(svcs, name).contains(rule_index(name)(node_labels(svcs[j].1)[l])->0),
    decreases svcs.len(),
{
    let rest = svcs.drop_last();
    let a = project_indexes(rest, name);
    let b = node_labels(svcs.last().1).filter_map(rule_index(name));
    let x = rule_index(name)(node_labels(svcs[j].1)[l])->0;
    if j == svcs.len() - 1 {
        lemma_filter_map_has(node_labels(svcs.last().1), rule_index(name), l);
        let w = choose|k: int| 0 <= k < b.len() && b[k] == x;
        assert((a + b)[a.len() + w] == x);
    } else {
        assert(rest[j] == svcs[j]);
        lemma_project_indexes_has(rest, name, j, l);
        let w = choose|k: int| 0 <= k < a.len() && a[k] == x;
        assert((a + b)[w] == x);
    }
}

/// The route offset of a project lies past every route index that a generated rule
/// of any of its services uses, so routes numbered from it never take the name of
/// another service's router.
pub proof fn law_route_offset_past_every_index(svcs: Seq<(Yaml, Yaml)>, name: Seq<char>, j: int, l: int)
    requires
        0 <= j < svcs.len(),
        0 <= l < node_labels(svcs[j].1).len(),
        rule_index(name)(node_labels(svcs[j].1)[l]) is Some,
    ensures
        rule_index(name)(node_labels(svcs[j].1)[l])->0 < project_route_offset(svcs, name),
{
    lemma_project_indexes_has(svcs, name, j, l);
    lemma_max_of_ge(project_indexes(svcs, name), rule_index(name)(node_labels(svcs[j].1)[l])->0);
}

// ---------------------------------------------------------------------------
// Executable parsing
// ---------------------------------------------------------------------------

/// `traefik.http.routers.NAME-`.
pub fn routers_prefix_exec(name: &str) -> (r: Vec<char>)
    ensures
        r@ == routers_prefix(name@),
{
    let mut s = String::from_str("traefik.http.routers.");
    s.append(name);
    s.append("-");
    chars_of(s.as_str())
}

/// `traefik.http.services.NAME-`.
pub fn services_prefix_exec(name: &str) -> (r: Vec<char>)
    ensures
        r@ == services_prefix(name@),
{
    let mut s = String::from_str("traefik.http.services.");
    s.append(name);
    s.append("-");
    chars_of(s.as_str())
}

/// The route index text of a key that starts with `prefix`.
fn index_text_exec(key: &[char], prefix: &[char]) -> (r: Vec<char>)
    requires
        prefix@.len() <= key@.len(),
    ensures
        r@ == index_text(key@, prefix@),
{
    let rest = sub_chars(key, prefix.len(), key.len());
    assert(rest@ =~= key@.skip(prefix@.len() as int));
    before_char_exec(&rest, '.')
}

/// Whether `key` is a generated key under `prefix`.
pub fn is_generated_key_exec(key: &[char], prefix: &[char]) -> (r: bool)
    ensures
        r == is_generated_key(key@, prefix@),
{
    if !starts_with_exec(key, prefix) {
        return false;
    }
    let digits = index_text_exec(key, prefix);
    digits.len() > 0 && all_digits_exec(&digits)
}

/// Key and value of a `KEY=VALUE` string label.
pub fn label_pair_exec(y: &Value) -> (r: Option<(Vec<char>, Vec<char>)>)
    ensures
        match r {
            Some((k, v)) => label_pair(yv(*y)) == Some((k@, v@)),
            None => label_pair(yv(*y)) is None,
        },
{
    match as_text(y) {
        Some(t) => {
            let cs = chars_of(t.as_str());
            split_once_exec(&cs, '=')
        },
        None => None,
    }
}

/// Whether `k` is a generated load-balancer port key; `sp` is the services prefix.
fn is_port_key_exec(name: &str, sp: &[char], k: &[char]) -> (r: bool)
    requires
        sp@ == services_prefix(name@),
    ensures
        r == is_port_key(name@, k@),
{
    let suffix = chars_of(".loadbalancer.server.port");
    is_generated_key_exec(k, sp) && ends_with_exec(k, &suffix)
}

/// Whether `k` is a generated rule key; `rp` is the routers prefix.
fn is_rule_key_exec(name: &str, rp: &[char], k: &[char]) -> (r: bool)
    requires
        rp@ == routers_prefix(name@),
    ensures
        r == is_rule_key(name@, k@),
{
    let suffix = chars_of(".rule");
    is_generated_key_exec(k, rp) && ends_with_exec(k, &suffix)
}

/// Whether `k` is a generated middlewares key; `rp` is the routers prefix.
fn is_middlewares_key_exec(name: &str, rp: &[char], k: &[char]) -> (r: bool)
    requires
        rp@ == routers_prefix(name@),
    ensures
        r == is_middlewares_key(name@, k@),
{
    let suffix = chars_of(".middlewares");
    is_generated_key_exec(k, rp) && ends_with_exec(k, &suffix)
}

/// A port number as `str::parse::<u16>` reads it.
fn parse_port_chars(s: &[char]) -> (r: Option<u16>)
    ensures
        match r {
            Some(p) => parse_bounded(s@, 65535) == Some(p as nat),
            None => parse_bounded(s@, 65535) is None,
        },
{
    match parse_bounded_exec(s, 65535) {
        Some(v) => Some(v as u16),
        None => None,
    }
}

/// The port of the first generated load-balancer label that has one.
pub fn existing_container_port_exec(name: &str, labels: &Vec<Value>) -> (r: Option<u16>)
    ensures
        match r {
            Some(p) => existing_container_port(name@, yv_list(labels@)) == Some(p as nat),
            None => existing_container_port(name@, yv_list(labels@)) is None,
        },
{
    let ghost ls = yv_list(labels@);
    let ghost f = port_label(name@);
    proof {
        lemma_yv_list(labels@);
    }
    let sp = services_prefix_exec(name);
    let mut i: usize = 0;
    assert(ls.skip(0) =~= ls);
    while i < labels.len()
        invariant
            i <= labels.len(),
            ls == yv_list(labels@),
            f == port_label(name@),
            sp@ == services_prefix(name@),
            ls.len() == labels@.len(),
            forall|m: int| 0 <= m < labels@.len() ==> #[trigger] ls[m] == yv(labels@[m]),
            first_some(ls, f) == first_some(ls.skip(i as int), f),
        decreases labels.len() - i,
    {
        let ghost here = ls.skip(i as int);
        assert(here[0] == ls[i as int]);
        assert(here.drop_first() =~= ls.skip(i + 1));
        match label_pair_exec(&labels[i]) {
            Some((k, v)) => {
                if is_port_key_exec(name, &sp, &k) {
                    match parse_port_chars(&v) {
                        Some(p) => {
                            return Some(p);
                        },
                        None => {},
                    }
                }
            },
            None => {},
        }
        i = i + 1;
    }
    proof {
        assert(ls.skip(i as int).len() == 0);
    }
    None
}

/// The router named by a rule key.
fn router_of_key_exec(k: &[char]) -> (r: Option<Vec<char>>)
    ensures
        match r {
            Some(x) => router_of_key(k@) == Some(x@),
            None => router_of_key(k@) is None,
        },
{
    let p = chars_of("traefik.http.routers.");
    if !starts_with_exec(k, &p) {
        return None;
    }
    let rest = sub_chars(k, p.len(), k.len());
    assert(rest@ =~= k@.skip(p@.len() as int));
    let suffix = chars_of(".rule");
    if !ends_with_exec(&rest, &suffix) {
        return None;
    }
    Some(sub_chars(&rest, 0, rest.len() - suffix.len()))
}

/// The host of a rule that starts with ``Host(`...`)``.
pub fn extract_host_exec(rule: &[char]) -> (r: Option<Vec<char>>)
    ensures
        match r {
            Some(h) => extract_host(rule@) == Some(h@),
            None => extract_host(rule@) is None,
        },
{
    let p = chars_of("Host(`");
    if !starts_with_exec(rule, &p) {
        return None;
    }
    let rest = sub_chars(rule, p.len(), rule.len());
    assert(rest@ =~= rule@.skip(p@.len() as int));
    let close = chars_of("`)");
    proof {
        lemma_find_sub(rest@, close@);
    }
    match find_sub_exec(&rest, &close) {
        Some(e) => {
            let h = sub_chars(&rest, 0, e);
            assert(h@ =~= rest@.take(e as int));
            Some(h)
        },
        None => None,
    }
}

/// The prefix of the first ``PathPrefix(`...`)`` in a rule.
pub fn extract_prefix_exec(rule: &[char]) -> (r: Option<Vec<char>>)
    ensures
        match r {
            Some(x) => extract_prefix(rule@) == Some(x@),
            None => extract_prefix(rule@) is None,
        },
{
    let open = chars_of("PathPrefix(`");
    proof {
        lemma_find_sub(rule@, open@);
    }
    match find_sub_exec(rule, &open) {
        Some(i) => {
            assert(occurs_at(rule@, open@, i as int));
            let n = rule.len();
            assert(i + open.len() <= n);
            let rest = sub_chars(rule, i + open.len(), rule.len());
            assert(rest@ =~= rule@.skip(i + open@.len()));
            let close = chars_of("`)");
            proof {
                lemma_find_sub(rest@, close@);
            }
            match find_sub_exec(&rest, &close) {
                Some(e) => {
                    let x = sub_chars(&rest, 0, e);
                    assert(x@ =~= rest@.take(e as int));
                    Some(x)
                },
                None => None,
            }
        },
        None => None,
    }
}

/// The port written in a port label of `router`.
fn router_port_label_exec(key: &[char], y: &Value) -> (r: Option<u16>)
    ensures
        forall|router: Seq<char>|
            port_key(router) == key@ ==> match r {
                Some(p) => (#[trigger] router_port_label(router))(yv(*y)) == Some(p as nat),
                None => router_port_label(router)(yv(*y)) is None,
            },
{
    match as_text(y) {
        Some(t) => {
            let cs = chars_of(t.as_str());
            if starts_with_exec(&cs, key) {
                let rest = sub_chars(&cs, key.len(), cs.len());
                assert(rest@ =~= cs@.skip(key@.len() as int));
                parse_port_chars(&rest)
            } else {
                None
            }
        },
        None => None,
    }
}

/// The port of `router`, 80 when no label gives one.
pub fn router_port_exec(labels: &Vec<Value>, router: &[char]) -> (r: u16)
    ensures
        r as nat == router_port(yv_list(labels@), router@),
{
    let ghost ls = yv_list(labels@);
    let ghost f = router_port_label(router@);
    proof {
        lemma_yv_list(labels@);
    }
    let mut key: Vec<char> = chars_of("traefik.http.services.");
    crate::text::extend_chars(&mut key, router);
    let tail = chars_of(".loadbalancer.server.port=");
    crate::text::extend_chars(&mut key, &tail);
    assert(key@ =~= port_key(router@));
    let mut i: usize = 0;
    assert(ls.skip(0) =~= ls);
    while i < labels.len()
        invariant
            i <= labels.len(),
            ls == yv_list(labels@),
            f == router_port_label(router@),
            key@ == port_key(router@),
            ls.len() == labels@.len(),
            forall|m: int| 0 <= m < labels@.len() ==> #[trigger] ls[m] == yv(labels@[m]),
            first_some(ls, f) == first_some(ls.skip(i as int), f),
        decreases labels.len() - i,
    {
        let ghost here = ls.skip(i as int);
        assert(here[0] == ls[i as int]);
        assert(here.drop_first() =~= ls.skip(i + 1));
        match router_port_label_exec(&key, &labels[i]) {
            Some(p) => {
                return p;
            },
            None => {},
        }
        i = i + 1;
    }
    proof {
        assert(ls.skip(i as int).len() == 0);
    }
    80
}

/// The routes that the generated rule labels describe, in label order.
pub fn existing_routes_exec(name: &str, labels: &Vec<Value>) -> (r: Vec<Route>)
    ensures
        routes_view(r@) == existing_routes(name@, yv_list(labels@)),
{
    let ghost ls = yv_list(labels@);
    let ghost f = route_of_label(name@, ls);
    proof {
        lemma_yv_list(labels@);
    }
    let rp = routers_prefix_exec(name);
    let mut out: Vec<Route> = Vec::new();
    let mut i: usize = 0;
    while i < labels.len()
        invariant
            i <= labels.len(),
            ls == yv_list(labels@),
            f == route_of_label(name@, ls),
            rp@ == routers_prefix(name@),
            ls.len() == labels@.len(),
            forall|m: int| 0 <= m < labels@.len() ==> #[trigger] ls[m] == yv(labels@[m]),
            routes_view(out@) == ls.take(i as int).filter_map(f),
        decreases labels.len() - i,
    {
        proof {
            ls.lemma_filter_map_take_succ(f, i as int);
        }
        let ghost before = out@;
        match label_pair_exec(&labels[i]) {
            Some((k, rule)) => {
                if is_rule_key_exec(name, &rp, &k) {
                    match router_of_key_exec(&k) {
                        Some(router) => match extract_host_exec(&rule) {
                            Some(h) => {
                                let prefix = match extract_prefix_exec(&rule) {
                                    Some(x) => Some(string_of(&x)),
                                    None => None,
                                };
                                let port = router_port_exec(labels, &router);
                                let route = Route {
                                    host: string_of(&h),
                                    path_prefix: prefix,
                                    container_port: port,
                                };
                                out.push(route);
                                assert(routes_view(out@) =~= routes_view(before).push(
                                    route_view(route),
                                ));
                            },
                            None => {},
                        },
                        None => {},
                    }
                }
            },
            None => {},
        }
        i = i + 1;
    }
    assert(ls.take(i as int) =~= ls);
    out
}

/// The route index of a generated rule label; `rp` is the routers prefix.
fn rule_index_exec(name: &str, rp: &[char], y: &Value) -> (r: Option<u64>)
    requires
        rp@ == routers_prefix(name@),
    ensures
        match r {
            Some(v) => rule_index(name@)(yv(*y)) == Some(v as nat) && v <= usize::MAX,
            None => rule_index(name@)(yv(*y)) is None,
        },
{
    match label_pair_exec(y) {
        Some((k, _)) => {
            if is_rule_key_exec(name, rp, &k) {
                let digits = index_text_exec(&k, rp);
                parse_bounded_exec(&digits, usize::MAX as u64)
            } else {
                None
            }
        },
        None => None,
    }
}

/// The least route index of a service's generated rules, 0 without any.
pub fn existing_route_offset_exec(name: &str, labels: &Vec<Value>) -> (r: u128)
    ensures
        r == existing_route_offset(name@, yv_list(labels@)),
        r <= usize::MAX,
{
    let ghost ls = yv_list(labels@);
    let ghost f = rule_index(name@);
    proof {
        lemma_yv_list(labels@);
    }
    let rp = routers_prefix_exec(name);
    let mut cur: Option<u64> = None;
    let mut i: usize = 0;
    while i < labels.len()
        invariant
            i <= labels.len(),
            ls == yv_list(labels@),
            f == rule_index(name@),
            rp@ == routers_prefix(name@),
            ls.len() == labels@.len(),
            forall|m: int| 0 <= m < labels@.len() ==> #[trigger] ls[m] == yv(labels@[m]),
            match cur {
                Some(c) => min_of(ls.take(i as int).filter_map(f)) == Some(c as nat) && c
                    <= usize::MAX,
                None => min_of(ls.take(i as int).filter_map(f)) is None,
            },
        decreases labels.len() - i,
    {
        proof {
            ls.lemma_filter_map_take_succ(f, i as int);
        }
        match rule_index_exec(name, &rp, &labels[i]) {
            Some(v) => {
                proof {
                    lemma_min_of_push(ls.take(i as int).filter_map(f), v as nat);
                    assert(ls.take(i as int).filter_map(f) + seq![v as nat] =~= ls.take(
                        i as int,
                    ).filter_map(f).push(v as nat));
                }
                cur = match cur {
                    Some(c) => if v < c {
                        Some(v)
                    } else {
                        Some(c)
                    },
                    None => Some(v),
                };
            },
            None => {
                assert(ls.take(i as int).filter_map(f) + Seq::<nat>::empty() =~= ls.take(
                    i as int,
                ).filter_map(f));
            },
        }
        i = i + 1;
    }
    assert(ls.take(i as int) =~= ls);
    match cur {
        Some(c) => c as u128,
        None => 0,
    }
}

/// A copy of the labels of a service's entries.
pub fn labels_in_exec(es: &Vec<(Value, Value)>) -> (r: Vec<Value>)
    ensures
        yv_list(r@) == labels_in(yv_entries(es@)),
{
    match get_key(es, "labels") {
        Some(l) => match untagged(l) {
            Value::Sequence(items) => copy_list(items),
            _ => Vec::new(),
        },
        None => Vec::new(),
    }
}

/// A copy of the labels of a service node.
fn node_labels_exec(v: &Value) -> (r: Vec<Value>)
    ensures
        yv_list(r@) == node_labels(yv(*v)),
{
    match untagged(v) {
        Value::Mapping(es) => labels_in_exec(es),
        _ => Vec::new(),
    }
}

/// The first route index that no service of the project uses.
pub fn project_route_offset_exec(svcs: &Vec<(Value, Value)>, name: &str) -> (r: u128)
    ensures
        r == project_route_offset(yv_entries(svcs@), name@),
        r <= usize::MAX + 1,
{
    let ghost ss = yv_entries(svcs@);
    let ghost f = rule_index(name@);
    proof {
        lemma_yv_entries(svcs@);
    }
    let rp = routers_prefix_exec(name);
    let mut cur: Option<u64> = None;
    let mut i: usize = 0;
    while i < svcs.len()
        invariant
            i <= svcs.len(),
            ss == yv_entries(svcs@),
            f == rule_index(name@),
            rp@ == routers_prefix(name@),
            ss.len() == svcs@.len(),
            forall|m: int|
                0 <= m < svcs@.len() ==> #[trigger] ss[m] == (yv(svcs@[m].0), yv(svcs@[m].1)),
            match cur {
                Some(c) => max_of(project_indexes(ss.take(i as int), name@)) == Some(c as nat)
                    && c <= usize::MAX,
                None => max_of(project_indexes(ss.take(i as int), name@)) is None,
            },
        decreases svcs.len() - i,
    {
        let labels = node_labels_exec(&svcs[i].1);
        let ghost ls = yv_list(labels@);
        let ghost done = project_indexes(ss.take(i as int), name@);
        proof {
            lemma_yv_list(labels@);
            assert(ss.take(i + 1).drop_last() =~= ss.take(i as int));
            assert(ss.take(i + 1).last() == ss[i as int]);
            assert(project_indexes(ss.take(i + 1), name@) == done + ls.filter_map(f));
            assert(done + ls.take(0).filter_map(f) =~= done);
        }
        let mut j: usize = 0;
        while j < labels.len()
            invariant
                j <= labels.len(),
                ls == yv_list(labels@),
                f == rule_index(name@),
                rp@ == routers_prefix(name@),
                ls.len() == labels@.len(),
                forall|m: int| 0 <= m < labels@.len() ==> #[trigger] ls[m] == yv(labels@[m]),
                match cur {
                    Some(c) => max_of(done + ls.take(j as int).filter_map(f)) == Some(c as nat)
                        && c <= usize::MAX,
                    None => max_of(done + ls.take(j as int).filter_map(f)) is None,
                },
            decreases labels.len() - j,
        {
            proof {
                ls.lemma_filter_map_take_succ(f, j as int);
            }
            match rule_index_exec(name, &rp, &labels[j]) {
                Some(v) => {
                    proof {
                        let a = done + ls.take(j as int).filter_map(f);
                        lemma_max_of_push(a, v as nat);
                        assert(done + ls.take(j + 1).filter_map(f) =~= a.push(v as nat));
                    }
                    cur = match cur {
                        Some(c) => if v > c {
                            Some(v)
                        } else {
                            Some(c)
                        },
                        None => Some(v),
                    };
                },
                None => {
                    assert(done + ls.take(j + 1).filter_map(f) =~= done + ls.take(
                        j as int,
                    ).filter_map(f));
                },
            }
            j = j + 1;
        }
        assert(ls.take(j as int) =~= ls);
        i = i + 1;
    }
    assert(ss.take(i as int) =~= ss);
    match cur {
        Some(c) => c as u128 + 1,
        None => 0,
    }
}

/// Whether `m` occurs in `ms`.
fn contains_middleware(ms: &Vec<Middleware>, m: Middleware) -> (r: bool)
    ensures
        r == ms@.contains(m),
{
    let mut i: usize = 0;
    while i < ms.len()
        invariant
            i <= ms.len(),
            forall|j: int| 0 <= j < i ==> ms@[j] != m,
        decreases ms.len() - i,
    {
        if ms[i] == m {
            return true;
        }
        i = i + 1;
    }
    false
}

/// The middlewares that the generated middlewares labels reference, each once.
pub fn existing_middlewares_exec(name: &str, labels: &Vec<Value>) -> (r: Vec<Middleware>)
    ensures
        r@ == existing_middlewares(name@, yv_list(labels@)),
{
    let ghost ls = yv_list(labels@);
    proof {
        lemma_yv_list(labels@);
    }
    let rp = routers_prefix_exec(name);
    let mut out: Vec<Middleware> = Vec::new();
    let mut i: usize = 0;
    while i < labels.len()
        invariant
            i <= labels.len(),
            ls == yv_list(labels@),
            rp@ == routers_prefix(name@),
            ls.len() == labels@.len(),
            forall|m: int| 0 <= m < labels@.len() ==> #[trigger] ls[m] == yv(labels@[m]),
            out@ == existing_middlewares(name@, ls.take(i as int)),
        decreases labels.len() - i,
    {
        proof {
            assert(ls.take(i + 1).drop_last() =~= ls.take(i as int));
            assert(ls.take(i + 1).last() == ls[i as int]);
        }
        match label_pair_exec(&labels[i]) {
            Some((k, v)) => {
                if is_middlewares_key_exec(name, &rp, &k) {
                    let refs = split_all_exec(&v, ',');
                    let ghost rs = split_all(v@, ',');
                    let ghost acc = out@;
                    assert(rs.take(0) =~= Seq::<Seq<char>>::empty());
                    let mut j: usize = 0;
                    while j < refs.len()
                        invariant
                            j <= refs.len(),
                            refs@.len() == rs.len(),
                            forall|m: int| 0 <= m < refs@.len() ==> (#[trigger] refs@[m])@ == rs[m],
                            out@ == add_refs(acc, rs.take(j as int)),
                        decreases refs.len() - j,
                    {
                        proof {
                            assert(rs.take(j + 1).drop_last() =~= rs.take(j as int));
                            assert(rs.take(j + 1).last() == rs[j as int]);
                        }
                        let text = string_of(&refs[j]);
                        match Middleware::from_label_ref(text.as_str()) {
                            Some(m) => {
                                if !contains_middleware(&out, m) {
                                    out.push(m);
                                }
                            },
                            None => {},
                        }
                        j = j + 1;
                    }
                    assert(rs.take(j as int) =~= rs);
                }
            },
            None => {},
        }
        i = i + 1;
    }
    assert(ls.take(i as int) =~= ls);
    out
}

/// A generated load-balancer port label set to `port`; other labels copied.
fn port_rewrite_exec(name: &str, sp: &[char], port: u16, y: &Value) -> (r: Value)
    requires
        sp@ == services_prefix(name@),
    ensures
        yv(r) == port_rewrite(name@, port as nat)(yv(*y)),
{
    match label_pair_exec(y) {
        Some((k, _)) => {
            if is_port_key_exec(name, sp, &k) {
                let mut t = string_of(&k);
                t.append("=");
                let d = decimal_string(port as u128);
                t.append(d.as_str());
                Value::String(t)
            } else {
                copy_value(y)
            }
        },
        None => copy_value(y),
    }
}

/// Sets each generated load-balancer port label to `port`.
pub fn update_port_labels_exec(es: &mut Vec<(Value, Value)>, name: &str, port: u16)
    ensures
        yv_entries(final(es)@) == update_port_labels(yv_entries(old(es)@), name@, port as nat),
{
    match plain_list_exec(es, "labels") {
        Some(items) => {
            let ghost f = port_rewrite(name@, port as nat);
            let ghost ls = yv_list(items@);
            proof {
                lemma_yv_list(items@);
            }
            let sp = services_prefix_exec(name);
            let mut out: Vec<Value> = Vec::new();
            let mut i: usize = 0;
            while i < items.len()
                invariant
                    i <= items.len(),
                    ls == yv_list(items@),
                    f == port_rewrite(name@, port as nat),
                    sp@ == services_prefix(name@),
                    ls.len() == items@.len(),
                    forall|m: int| 0 <= m < items@.len() ==> #[trigger] ls[m] == yv(items@[m]),
                    yv_list(out@) == ls.take(i as int).map_values(f),
                decreases items.len() - i,
            {
                let x = port_rewrite_exec(name, &sp, port, &items[i]);
                proof {
                    lemma_yv_list_push(out@, x);
                }
                out.push(x);
                assert(ls.take(i + 1).map_values(f) =~= ls.take(i as int).map_values(f).push(
                    f(ls[i as int]),
                ));
                i = i + 1;
            }
            assert(ls.take(i as int) =~= ls);
            insert_key(es, "labels", Value::Sequence(out));
        },
        None => {},
    }
}

/// A generated middlewares label set to `joined`; other labels copied.
fn middlewares_rewrite_exec(name: &str, rp: &[char], joined: &str, y: &Value) -> (r: Value)
    requires
        rp@ == routers_prefix(name@),
    ensures
        yv(r) == middlewares_rewrite(name@, joined@)(yv(*y)),
{
    match label_pair_exec(y) {
        Some((k, _)) => {
            if is_middlewares_key_exec(name, rp, &k) {
                let mut t = string_of(&k);
                t.append("=");
                t.append(joined);
                Value::String(t)
            } else {
                copy_value(y)
            }
        },
        None => copy_value(y),
    }
}

/// Sets each generated middlewares label to `ms`.
pub fn update_middleware_labels_exec(es: &mut Vec<(Value, Value)>, name: &str, ms: &[Middleware])
    ensures
        yv_entries(final(es)@) == update_middleware_labels(yv_entries(old(es)@), name@, ms@),
{
    match plain_list_exec(es, "labels") {
        Some(items) => {
            let joined = join_middleware_refs(ms);
            let ghost f = middlewares_rewrite(name@, join_refs(ms@));
            let ghost ls = yv_list(items@);
            proof {
                lemma_yv_list(items@);
            }
            let rp = routers_prefix_exec(name);
            let mut out: Vec<Value> = Vec::new();
            let mut i: usize = 0;
            while i < items.len()
                invariant
                    i <= items.len(),
                    ls == yv_list(items@),
                    f == middlewares_rewrite(name@, join_refs(ms@)),
                    joined@ == join_refs(ms@),
                    rp@ == routers_prefix(name@),
                    ls.len() == items@.len(),
                    forall|m: int| 0 <= m < items@.len() ==> #[trigger] ls[m] == yv(items@[m]),
                    yv_list(out@) == ls.take(i as int).map_values(f),
                decreases items.len() - i,
            {
                let x = middlewares_rewrite_exec(name, &rp, joined.as_str(), &items[i]);
                proof {
                    lemma_yv_list_push(out@, x);
                }
                out.push(x);
                assert(ls.take(i + 1).map_values(f) =~= ls.take(i as int).map_values(f).push(
                    f(ls[i as int]),
                ));
                i = i + 1;
            }
            assert(ls.take(i as int) =~= ls);
            insert_key(es, "labels", Value::Sequence(out));
        },
        None => {},
    }
}

/// Whether a label is kept when the generated route labels are removed.
fn keeps_label_exec(name: &str, rp: &[char], sp: &[char], y: &Value) -> (r: bool)
    requires
        rp@ == routers_prefix(name@),
        sp@ == services_prefix(name@),
    ensures
        r == keeps_label(name@)(yv(*y)),
{
    match as_text(y) {
        Some(t) => {
            let cs = chars_of(t.as_str());
            let k = before_char_exec(&cs, '=');
            !is_generated_key_exec(&k, rp) && !is_generated_key_exec(&k, sp)
        },
        None => true,
    }
}

/// Removes the generated route labels, keeping the user's own.
pub fn remove_generated_labels_exec(es: &mut Vec<(Value, Value)>, name: &str)
    ensures
        yv_entries(final(es)@) == remove_generated_labels(yv_entries(old(es)@), name@),
{
    match plain_list_exec(es, "labels") {
        Some(items) => {
            let ghost p = keeps_label(name@);
            let ghost ls = yv_list(items@);
            proof {
                lemma_yv_list(items@);
            }
            let rp = routers_prefix_exec(name);
            let sp = services_prefix_exec(name);
            let mut out: Vec<Value> = Vec::new();
            let mut i: usize = 0;
            assert(ls.take(0) =~= Seq::<Yaml>::empty());
            while i < items.len()
                invariant
                    i <= items.len(),
                    ls == yv_list(items@),
                    p == keeps_label(name@),
                    rp@ == routers_prefix(name@),
                    sp@ == services_prefix(name@),
                    ls.len() == items@.len(),
                    forall|m: int| 0 <= m < items@.len() ==> #[trigger] ls[m] == yv(items@[m]),
                    yv_list(out@) == ls.take(i as int).filter(p),
                decreases items.len() - i,
            {
                proof {
                    assert(ls.take(i + 1) =~= ls.take(i as int).push(ls[i as int]));
                    ls.take(i as int).lemma_filter_push(ls[i as int], p);
                }
                if keeps_label_exec(name, &rp, &sp, &items[i]) {
                    let x = copy_value(&items[i]);
                    proof {
                        lemma_yv_list_push(out@, x);
                    }
                    out.push(x);
                }
                i = i + 1;
            }
            assert(ls.take(i as int) =~= ls);
            insert_key(es, "labels", Value::Sequence(out));
        },
        None => {},
    }
}

} // verus!
