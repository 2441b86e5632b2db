//! Reading generated route labels back: the routes that an application's labels were
//! generated from are the routes that an edit reads from them.

use crate::gen::{join_refs, one_route_labels, route_labels, route_rule, router_name, routes_labels};
use crate::labels::{
    existing_routes, extract_host, extract_prefix, first_some, index_text, is_rule_key, label_pair,
    port_key, route_of_label, router_of_key, router_port, router_port_label, routers_prefix,
};
use crate::names::{valid_host, valid_stack_name};
use crate::text::{
    before_char, decimal, ends_with, find_char, find_sub, has_char, is_digit, lemma_decimal_digits,
    lemma_find_char, lemma_find_sub, law_decimal_parse_round_trip, occurs_at, starts_with,
};
use crate::types::{Middleware, RouteView};
use crate::value::Yaml;
use vstd::prelude::*;

verus! {

// ---------------------------------------------------------------------------
// Specifications
// ---------------------------------------------------------------------------

/// A route whose labels read back: a valid host, a port that fits a port number and
/// a path prefix without backquotes.
pub open spec fn readable_route(r: RouteView) -> bool {
    &&& valid_host(r.host)
    &&& r.container_port <= 65535
    &&& match r.path_prefix {
        Some(p) => !has_char(p, '`'),
        None => true,
    }
}

/// Labels as the string nodes of a label list.
pub open spec fn label_nodes(ls: Seq<Seq<char>>) -> Seq<Yaml> {
    ls.map_values(|l: Seq<char>| Yaml::Text(l))
}

// ---------------------------------------------------------------------------
// Characters
// ---------------------------------------------------------------------------

/// A sequence without `c` joined to another without `c` has no `c`.
proof fn lemma_concat_lacks(a: Seq<char>, b: Seq<char>, c: char)
    requires
        !has_char(a, c),
        !has_char(b, c),
    ensures
        !has_char(a + b, c),
{
    assert forall|i: int| 0 <= i < (a + b).len() implies (a + b)[i] != c by {
        if i < a.len() {
            assert((a + b)[i] == a[i]);
        } else {
            assert((a + b)[i] == b[i - a.len()]);
        }
    }
}

/// A project name holds no `=` and no `.`.
proof fn lemma_name_chars(name: Seq<char>)
    requires
        valid_stack_name(name),
    ensures
        !has_char(name, '='),
        !has_char(name, '.'),
{
    assert forall|i: int| 0 <= i < name.len() implies name[i] != '=' && name[i] != '.' by {
        assert(is_digit(name[i]) || ('a' <= name[i] && name[i] <= 'z') || name[i] == '-' || name[i] == '_');
    }
}

/// Decimal text holds no `=` and no `.`.
proof fn lemma_decimal_chars(n: nat)
    ensures
        !has_char(decimal(n), '='),
        !has_char(decimal(n), '.'),
        decimal(n).len() > 0,
        is_digit(decimal(n).last()),
{
    lemma_decimal_digits(n);
    assert forall|i: int| 0 <= i < decimal(n).len() implies decimal(n)[i] != '=' && decimal(n)[i] != '.' by {
        assert(is_digit(decimal(n)[i]));
    }
    assert(is_digit(decimal(n)[decimal(n).len() - 1]));
}

/// The label `a=v` splits into `a` and `v` when `a` holds no `=`.
proof fn lemma_label_pair(a: Seq<char>, v: Seq<char>)
    requires
        !has_char(a, '='),
    ensures
        label_pair(Yaml::Text(a + "="@ + v)) == Some((a, v)),
{
    reveal_strlit("=");
    let t = a + "="@ + v;
    assert(t[a.len() as int] == '=');
    lemma_find_char(t, '=');
    let k = find_char(t, '=')->0;
    if k < a.len() {
        assert(t[k] == a[k]);
    }
    assert(k == a.len());
    assert(t.take(k) =~= a);
    assert(t.skip(k + 1) =~= v);
}


// ---------------------------------------------------------------------------
// Rules
// ---------------------------------------------------------------------------

/// A host name holds no backquote and no `(`.
proof fn lemma_host_chars(h: Seq<char>)
    requires
        valid_host(h),
    ensures
        forall|i: int| 0 <= i < h.len() ==> #[trigger] h[i] != '`' && h[i] != '(',
{
    assert forall|i: int| 0 <= i < h.len() implies #[trigger] h[i] != '`' && h[i] != '(' by {
        assert(is_digit(h[i]) || ('a' <= h[i] && h[i] <= 'z') || h[i] == '-' || h[i] == '.');
    }
}

/// The first `` `) `` of `x` followed by `` `) `` and more, where `x` holds no
/// backquote, is right after `x`.
proof fn lemma_find_close(x: Seq<char>, tail: Seq<char>)
    requires
        !has_char(x, '`'),
    ensures
        find_sub(x + "`)"@ + tail, "`)"@) == Some(x.len() as int),
{
    reveal_strlit("`)");
    let s = x + "`)"@ + tail;
    lemma_find_sub(s, "`)"@);
    assert(s.subrange(x.len() as int, x.len() as int + 2) =~= "`)"@);
    assert(occurs_at(s, "`)"@, x.len() as int));
    let k = find_sub(s, "`)"@)->0;
    if k < x.len() {
        assert(s.subrange(k, k + 2)[0] == s[k]);
        assert(s[k] == x[k]);
    }
}

/// The host of a generated rule reads back.
proof fn lemma_rule_host(r: RouteView)
    requires
        readable_route(r),
    ensures
        extract_host(route_rule(r)) == Some(r.host),
{
    reveal_strlit("Host(`");
    lemma_host_chars(r.host);
    let tail = match r.path_prefix {
        Some(p) => " && PathPrefix(`"@ + p + "`)"@,
        None => Seq::empty(),
    };
    let rule = route_rule(r);
    assert(rule =~= "Host(`"@ + (r.host + "`)"@ + tail));
    assert(rule.take(6) =~= "Host(`"@);
    assert(rule.skip(6) =~= r.host + "`)"@ + tail);
    lemma_find_close(r.host, tail);
}

/// The path prefix of a generated rule reads back.
proof fn lemma_rule_prefix(r: RouteView)
    requires
        readable_route(r),
    ensures
        extract_prefix(route_rule(r)) == r.path_prefix,
{
    reveal_strlit("Host(`");
    reveal_strlit("`)");
    reveal_strlit(" && PathPrefix(`");
    reveal_strlit("PathPrefix(`");
    lemma_host_chars(r.host);
    let h = r.host;
    let rule = route_rule(r);
    let pat = "PathPrefix(`"@;
    lemma_find_sub(rule, pat);
    let n = h.len() as int;
    // The first place the pattern can start is inside the tail after the host.
    assert forall|j: int| 0 <= j < n + 12 implies !occurs_at(rule, pat, j) by {
        if occurs_at(rule, pat, j) {
            assert(rule.subrange(j, j + 12)[11] == rule[j + 11]);
            assert(rule.subrange(j, j + 12)[10] == rule[j + 10]);
            assert(rule[j + 11] == '`');
            assert(rule[j + 10] == '(');
            if j + 11 < n + 6 {
                assert(rule[j + 11] == h[j + 5]);
            } else if j + 11 == n + 6 {
                assert(rule[j + 10] == h[n - 1]);
            } else if j + 11 == n + 7 {
                assert(rule[j + 11] == ')');
            } else {
                assert(rule[j + 11] == (" && PathPrefix(`"@)[j + 11 - n - 8]);
            }
        }
    }
    match r.path_prefix {
        None => {
            assert(rule.len() == n + 8);
            assert forall|j: int| 0 <= j implies !occurs_at(rule, pat, j) by {
                if j < n + 12 {
                } else {
                    assert(j + 12 > rule.len());
                }
            }
        },
        Some(p) => {
            let j0 = n + 12;
            assert(rule.subrange(j0, j0 + 12) =~= pat);
            assert(occurs_at(rule, pat, j0));
            let k = find_sub(rule, pat)->0;
            assert(k == j0);
            assert(rule.skip(j0 + 12) =~= p + "`)"@ + Seq::<char>::empty());
            lemma_find_close(p, Seq::empty());
            assert((p + "`)"@ + Seq::<char>::empty()).take(p.len() as int) =~= p);
        },
    }
}


// ---------------------------------------------------------------------------
// Label keys
// ---------------------------------------------------------------------------

/// The key of a router label: `traefik.http.routers.NAME-INDEX` and a suffix.
pub open spec fn router_key(name: Seq<char>, index: nat, suffix: Seq<char>) -> Seq<char> {
    "traefik.http.routers."@ + router_name(name, index) + suffix
}

/// A router name holds no `=`.
proof fn lemma_router_name_chars(name: Seq<char>, index: nat)
    requires
        valid_stack_name(name),
    ensures
        !has_char(router_name(name, index), '='),
        router_name(name, index).len() > 0,
        is_digit(router_name(name, index).last()),
{
    reveal_strlit("-");
    lemma_name_chars(name);
    lemma_decimal_chars(index);
    lemma_concat_lacks(name, "-"@, '=');
    lemma_concat_lacks(name + "-"@, decimal(index), '=');
    assert(router_name(name, index).last() == decimal(index).last());
}

/// The key of a router label holds no `=` when its suffix holds none.
proof fn lemma_router_key_chars(name: Seq<char>, index: nat, suffix: Seq<char>)
    requires
        valid_stack_name(name),
        !has_char(suffix, '='),
    ensures
        !has_char(router_key(name, index, suffix), '='),
{
    reveal_strlit("traefik.http.routers.");
    lemma_router_name_chars(name, index);
    assert(!has_char("traefik.http.routers."@, '=')) by {
        assert forall|i: int| 0 <= i < "traefik.http.routers."@.len() implies "traefik.http.routers."@[i] != '=' by {}
    }
    lemma_concat_lacks("traefik.http.routers."@, router_name(name, index), '=');
    lemma_concat_lacks("traefik.http.routers."@ + router_name(name, index), suffix, '=');
}

/// The rule label of a route splits into the rule key and the rule, and the key
/// names the route's router as one of the project's generated rules.
proof fn lemma_rule_key(name: Seq<char>, index: nat)
    requires
        valid_stack_name(name),
    ensures
        is_rule_key(name, router_key(name, index, ".rule"@)),
        router_of_key(router_key(name, index, ".rule"@)) == Some(router_name(name, index)),
{
    reveal_strlit("traefik.http.routers.");
    reveal_strlit(".rule");
    reveal_strlit("-");
    let k = router_key(name, index, ".rule"@);
    let rp = routers_prefix(name);
    let d = decimal(index);
    lemma_decimal_chars(index);
    lemma_decimal_digits(index);
    assert(k =~= rp + (d + ".rule"@));
    assert(k.take(rp.len() as int) =~= rp);
    let after = k.skip(rp.len() as int);
    assert(after =~= d + ".rule"@);
    lemma_find_char(after, '.');
    assert(after[d.len() as int] == '.');
    let f = find_char(after, '.')->0;
    if f < d.len() {
        assert(after[f] == d[f]);
    }
    assert(f == d.len());
    assert(before_char(after, '.') =~= d);
    assert(index_text(k, rp) == d);
    assert(k.skip(k.len() - 5) =~= ".rule"@);
    let p = "traefik.http.routers."@;
    assert(k.take(p.len() as int) =~= p);
    let rest = k.skip(p.len() as int);
    assert(rest =~= router_name(name, index) + ".rule"@);
    assert(rest.skip(rest.len() - 5) =~= ".rule"@);
    assert(rest.take(rest.len() - 5) =~= router_name(name, index));
}

/// A label whose key holds no `=` and does not end in `le` is no rule label.
proof fn lemma_not_rule_label(name: Seq<char>, labels: Seq<Yaml>, a: Seq<char>, v: Seq<char>)
    requires
        !has_char(a, '='),
        a.len() >= 2,
        !(a[a.len() - 2] == 'l' && a[a.len() - 1] == 'e'),
    ensures
        route_of_label(name, labels)(Yaml::Text(a + "="@ + v)) is None,
{
    lemma_label_pair(a, v);
    reveal_strlit(".rule");
    if ends_with(a, ".rule"@) {
        assert(a.skip(a.len() - 5)[3] == a[a.len() - 2]);
        assert(a.skip(a.len() - 5)[4] == a[a.len() - 1]);
    }
}

/// A label that does not start with the prefix of port labels gives no port.
proof fn lemma_not_port_label(router: Seq<char>, t: Seq<char>, i: int)
    requires
        0 <= i < t.len(),
        i < port_key(router).len(),
        t[i] != port_key(router)[i],
    ensures
        router_port_label(router)(Yaml::Text(t)) is None,
{
    if starts_with(t, port_key(router)) {
        assert(t.take(port_key(router).len() as int)[i] == t[i]);
    }
}


/// The port label of one router gives its port to that router and nothing to any
/// other router of the project.
proof fn lemma_port_label(name: Seq<char>, i: nat, j: nat, port: nat)
    requires
        valid_stack_name(name),
        port <= 65535,
    ensures
        router_port_label(router_name(name, i))(
            Yaml::Text("traefik.http.services."@ + router_name(name, j) + ".loadbalancer.server.port="@ + decimal(port)),
        ) == (if i == j {
            Some(port)
        } else {
            None::<nat>
        }),
{
    reveal_strlit("traefik.http.services.");
    reveal_strlit(".loadbalancer.server.port=");
    reveal_strlit("-");
    let sp = "traefik.http.services."@;
    let lb = ".loadbalancer.server.port="@;
    let t = sp + router_name(name, j) + lb + decimal(port);
    let key = port_key(router_name(name, i));
    if i == j {
        assert(t.take(key.len() as int) =~= key);
        assert(t.skip(key.len() as int) =~= decimal(port));
        law_decimal_parse_round_trip(port, 65535);
    } else {
        let di = decimal(i);
        let dj = decimal(j);
        lemma_decimal_digits(i);
        lemma_decimal_digits(j);
        let o: int = (sp.len() + name.len() + 1) as int;
        assert(key =~= sp + name + "-"@ + di + lb);
        assert(t =~= sp + name + "-"@ + dj + lb + decimal(port));
        if di.len() == dj.len() {
            if forall|q: int| 0 <= q < di.len() ==> di[q] == dj[q] {
                assert(di =~= dj);
            }
            let q = choose|q: int| 0 <= q < di.len() && di[q] != dj[q];
            assert(key[o + q] == di[q]);
            assert(t[o + q] == dj[q]);
            lemma_not_port_label(router_name(name, i), t, o + q);
        } else if di.len() < dj.len() {
            assert(key[o + di.len() as int] == '.');
            assert(t[o + di.len() as int] == dj[di.len() as int]);
            assert(is_digit(dj[di.len() as int]));
            lemma_not_port_label(router_name(name, i), t, o + di.len() as int);
        } else {
            assert(key[o + dj.len() as int] == di[dj.len() as int]);
            assert(is_digit(di[dj.len() as int]));
            assert(t[o + dj.len() as int] == '.');
            lemma_not_port_label(router_name(name, i), t, o + dj.len() as int);
        }
    }
}

// ---------------------------------------------------------------------------
// Sequences
// ---------------------------------------------------------------------------

/// `filter_map` of a concatenation is the concatenation of the two results.
proof fn lemma_filter_map_concat<A, B>(a: Seq<A>, b: Seq<A>, f: spec_fn(A) -> Option<B>)
    ensures
        (a + b).filter_map(f) == a.filter_map(f) + b.filter_map(f),
    decreases b.len(),
{
    if b.len() == 0 {
        assert(a + b =~= a);
        assert(a.filter_map(f) + b.filter_map(f) =~= a.filter_map(f));
    } else {
        lemma_filter_map_concat(a, b.drop_last(), f);
        assert((a + b).drop_last() =~= a + b.drop_last());
        assert((a + b).last() == b.last());
        match f(b.last()) {
            Some(x) => {
                assert(a.filter_map(f) + b.drop_last().filter_map(f) + seq![x] =~= a.filter_map(f) + (
                b.drop_last().filter_map(f) + seq![x]));
            },
            None => {},
        }
    }
}

/// The first result over a concatenation comes from the first part when it has one.
proof fn lemma_first_some_concat<A>(a: Seq<Yaml>, b: Seq<Yaml>, f: spec_fn(Yaml) -> Option<A>)
    ensures
        first_some(a + b, f) == (match first_some(a, f) {
            Some(x) => Some(x),
            None => first_some(b, f),
        }),
    decreases a.len(),
{
    if a.len() == 0 {
        assert(a + b =~= b);
    } else {
        assert((a + b)[0] == a[0]);
        assert((a + b).drop_first() =~= a.drop_first() + b);
        lemma_first_some_concat(a.drop_first(), b, f);
    }
}

/// Label nodes of a concatenation.
proof fn lemma_label_nodes_concat(a: Seq<Seq<char>>, b: Seq<Seq<char>>)
    ensures
        label_nodes(a + b) == label_nodes(a) + label_nodes(b),
{
    assert(label_nodes(a + b) =~= label_nodes(a) + label_nodes(b));
}


/// `filter_map` of elements that all map to nothing is empty.
proof fn lemma_filter_map_nothing<A, B>(s: Seq<A>, f: spec_fn(A) -> Option<B>)
    requires
        forall|i: int| 0 <= i < s.len() ==> f(#[trigger] s[i]) is None,
    ensures
        s.filter_map(f) == Seq::<B>::empty(),
    decreases s.len(),
{
    if s.len() > 0 {
        assert(f(s[s.len() - 1]) is None);
        assert forall|i: int| 0 <= i < s.drop_last().len() implies f(#[trigger] s.drop_last()[i]) is None by {
            assert(s.drop_last()[i] == s[i]);
        }
        lemma_filter_map_nothing(s.drop_last(), f);
    }
}

/// The first result over elements that all give nothing is nothing.
proof fn lemma_first_some_nothing<A>(s: Seq<Yaml>, f: spec_fn(Yaml) -> Option<A>)
    requires
        forall|i: int| 0 <= i < s.len() ==> f(#[trigger] s[i]) is None,
    ensures
        first_some(s, f) is None,
    decreases s.len(),
{
    if s.len() > 0 {
        assert(f(s[0]) is None);
        assert forall|i: int| 0 <= i < s.drop_first().len() implies f(#[trigger] s.drop_first()[i]) is None by {
            assert(s.drop_first()[i] == s[i + 1]);
        }
        lemma_first_some_nothing(s.drop_first(), f);
    }
}

/// The first result over one element is that element's result.
proof fn lemma_first_some_one<A>(x: Yaml, f: spec_fn(Yaml) -> Option<A>)
    ensures
        first_some(seq![x], f) == f(x),
{
    assert(seq![x].drop_first() =~= Seq::<Yaml>::empty());
    assert(seq![x][0] == x);
    assert(first_some(Seq::<Yaml>::empty(), f) is None);
}

// ---------------------------------------------------------------------------
// The labels of one route
// ---------------------------------------------------------------------------

/// A router label (one that starts with `traefik.http.routers.`) gives no port.
proof fn lemma_router_label_no_port(router: Seq<char>, name: Seq<char>, index: nat, rest: Seq<char>)
    ensures
        router_port_label(router)(Yaml::Text("traefik.http.routers."@ + router_name(name, index) + rest)) is None,
{
    reveal_strlit("traefik.http.routers.");
    reveal_strlit("traefik.http.services.");
    let t = "traefik.http.routers."@ + router_name(name, index) + rest;
    assert(t[13] == 'r');
    assert(port_key(router)[13] == 's');
    lemma_not_port_label(router, t, 13);
}

/// A router label other than the rule label is neither a route nor a port.
proof fn lemma_plain_router_label(
    name: Seq<char>,
    index: nat,
    labels: Seq<Yaml>,
    other: nat,
    suffix: Seq<char>,
    value: Seq<char>,
)
    requires
        valid_stack_name(name),
        !has_char(suffix, '='),
        suffix.len() >= 2,
        !(suffix[suffix.len() - 2] == 'l' && suffix[suffix.len() - 1] == 'e'),
    ensures
        route_of_label(name, labels)(Yaml::Text(router_key(name, index, suffix) + "="@ + value)) is None,
        router_port_label(router_name(name, other))(Yaml::Text(router_key(name, index, suffix) + "="@ + value))
            is None,
{
    let key = router_key(name, index, suffix);
    lemma_router_key_chars(name, index, suffix);
    assert(key[key.len() - 1] == suffix[suffix.len() - 1]);
    assert(key[key.len() - 2] == suffix[suffix.len() - 2]);
    lemma_not_rule_label(name, labels, key, value);
    assert(key + "="@ + value =~= "traefik.http.routers."@ + router_name(name, index) + (suffix + "="@ + value));
    lemma_router_label_no_port(router_name(name, other), name, index, suffix + "="@ + value);
}

/// A literal holds no `=` when none of its characters is `=`.
proof fn lemma_literal_lacks(s: Seq<char>)
    requires
        forall|q: int| 0 <= q < s.len() ==> s[q] != '=',
    ensures
        !has_char(s, '='),
{
}

/// The rule label of a route reads as the route, and gives no port.
proof fn lemma_rule_label(name: Seq<char>, r: RouteView, index: nat, labels: Seq<Yaml>, other: nat)
    requires
        valid_stack_name(name),
        readable_route(r),
    ensures
        route_of_label(name, labels)(Yaml::Text("traefik.http.routers."@ + router_name(name, index) + ".rule="@ + route_rule(r)))
            == Some(
            RouteView {
                host: r.host,
                path_prefix: r.path_prefix,
                container_port: router_port(labels, router_name(name, index)),
            },
        ),
        router_port_label(router_name(name, other))(
            Yaml::Text("traefik.http.routers."@ + router_name(name, index) + ".rule="@ + route_rule(r)),
        ) is None,
{
    reveal_strlit(".rule=");
    reveal_strlit(".rule");
    reveal_strlit("=");
    let k0 = router_key(name, index, ".rule"@);
    lemma_literal_lacks(".rule"@);
    lemma_router_key_chars(name, index, ".rule"@);
    assert("traefik.http.routers."@ + router_name(name, index) + ".rule="@ + route_rule(r) =~= k0 + "="@ + route_rule(r));
    lemma_label_pair(k0, route_rule(r));
    lemma_rule_key(name, index);
    lemma_rule_host(r);
    lemma_rule_prefix(r);
    assert("traefik.http.routers."@ + router_name(name, index) + ".rule="@ + route_rule(r) =~= "traefik.http.routers."@
        + router_name(name, index) + (".rule="@ + route_rule(r)));
    lemma_router_label_no_port(router_name(name, other), name, index, ".rule="@ + route_rule(r));
}

/// The port label of a route is no route, and gives its port to its own router only.
proof fn lemma_port_label_block(name: Seq<char>, port: nat, index: nat, labels: Seq<Yaml>, other: nat)
    requires
        valid_stack_name(name),
        port <= 65535,
    ensures
        route_of_label(name, labels)(
            Yaml::Text("traefik.http.services."@ + router_name(name, index) + ".loadbalancer.server.port="@ + decimal(port)),
        ) is None,
        router_port_label(router_name(name, other))(
            Yaml::Text("traefik.http.services."@ + router_name(name, index) + ".loadbalancer.server.port="@ + decimal(port)),
        ) == (if other == index {
            Some(port)
        } else {
            None::<nat>
        }),
{
    reveal_strlit("traefik.http.services.");
    reveal_strlit(".loadbalancer.server.port=");
    reveal_strlit(".loadbalancer.server.port");
    reveal_strlit("=");
    let router = router_name(name, index);
    let pk = "traefik.http.services."@ + router + ".loadbalancer.server.port"@;
    lemma_router_name_chars(name, index);
    lemma_literal_lacks("traefik.http.services."@);
    lemma_literal_lacks(".loadbalancer.server.port"@);
    lemma_concat_lacks("traefik.http.services."@, router, '=');
    lemma_concat_lacks("traefik.http.services."@ + router, ".loadbalancer.server.port"@, '=');
    assert(pk[pk.len() - 1] == 't');
    assert("traefik.http.services."@ + router + ".loadbalancer.server.port="@ + decimal(port) =~= pk + "="@ + decimal(port));
    lemma_not_rule_label(name, labels, pk, decimal(port));
    lemma_port_label(name, other, index, port);
}

/// The labels of one route, label by label.
proof fn lemma_route_label_shapes(name: Seq<char>, r: RouteView, ms: Seq<Middleware>, index: nat)
    ensures
        ({
            let ls = one_route_labels(name, r, ms, index);
            let router = router_name(name, index);
            &&& ls.len() == (if ms.len() == 0 {
                5int
            } else {
                6int
            })
            &&& ls[0] == "traefik.http.routers."@ + router + ".rule="@ + route_rule(r)
            &&& ls[1] == router_key(name, index, ".entrypoints"@) + "="@ + "https"@
            &&& ls[2] == router_key(name, index, ".tls"@) + "="@ + "true"@
            &&& ls[3] == router_key(name, index, ".tls.certresolver"@) + "="@ + "cloudflare"@
            &&& ls[4] == "traefik.http.services."@ + router + ".loadbalancer.server.port="@ + decimal(r.container_port)
            &&& ms.len() > 0 ==> ls[5] == router_key(name, index, ".middlewares"@) + "="@ + join_refs(ms)
        }),
{
    reveal_strlit(".entrypoints=https");
    reveal_strlit(".entrypoints");
    reveal_strlit("https");
    reveal_strlit(".tls=true");
    reveal_strlit(".tls");
    reveal_strlit("true");
    reveal_strlit(".tls.certresolver=cloudflare");
    reveal_strlit(".tls.certresolver");
    reveal_strlit("cloudflare");
    reveal_strlit(".middlewares=");
    reveal_strlit(".middlewares");
    reveal_strlit("=");
    let ls = one_route_labels(name, r, ms, index);
    let router = router_name(name, index);
    assert(ls[1] =~= router_key(name, index, ".entrypoints"@) + "="@ + "https"@);
    assert(ls[2] =~= router_key(name, index, ".tls"@) + "="@ + "true"@);
    assert(ls[3] =~= router_key(name, index, ".tls.certresolver"@) + "="@ + "cloudflare"@);
    if ms.len() > 0 {
        assert(ls[5] =~= router_key(name, index, ".middlewares"@) + "="@ + join_refs(ms));
    }
}

/// What the labels of one route give: its route, once, when read as routes, and its
/// port to its own router only.
proof fn lemma_route_block(
    name: Seq<char>,
    r: RouteView,
    ms: Seq<Middleware>,
    index: nat,
    labels: Seq<Yaml>,
    other: nat,
)
    requires
        valid_stack_name(name),
        readable_route(r),
    ensures
        label_nodes(one_route_labels(name, r, ms, index)).filter_map(route_of_label(name, labels)) == seq![
            RouteView {
                host: r.host,
                path_prefix: r.path_prefix,
                container_port: router_port(labels, router_name(name, index)),
            },
        ],
        first_some(label_nodes(one_route_labels(name, r, ms, index)), router_port_label(router_name(name, other)))
            == (if other == index {
            Some(r.container_port)
        } else {
            None::<nat>
        }),
{
    reveal_strlit(".entrypoints");
    reveal_strlit(".tls");
    reveal_strlit(".tls.certresolver");
    reveal_strlit(".middlewares");
    let router = router_name(name, index);
    let f = route_of_label(name, labels);
    let g = router_port_label(router_name(name, other));
    let ls = one_route_labels(name, r, ms, index);
    lemma_route_label_shapes(name, r, ms, index);
    lemma_rule_label(name, r, index, labels, other);
    lemma_literal_lacks(".entrypoints"@);
    lemma_literal_lacks(".tls"@);
    lemma_literal_lacks(".tls.certresolver"@);
    lemma_plain_router_label(name, index, labels, other, ".entrypoints"@, "https"@);
    lemma_plain_router_label(name, index, labels, other, ".tls"@, "true"@);
    lemma_plain_router_label(name, index, labels, other, ".tls.certresolver"@, "cloudflare"@);
    lemma_port_label_block(name, r.container_port, index, labels, other);
    let mw = if ms.len() == 0 {
        Seq::<Seq<char>>::empty()
    } else {
        seq![ls[5]]
    };
    if ms.len() > 0 {
        lemma_literal_lacks(".middlewares"@);
        lemma_plain_router_label(name, index, labels, other, ".middlewares"@, join_refs(ms));
    }
    assert(ls =~= seq![ls[0]] + seq![ls[1], ls[2], ls[3]] + seq![ls[4]] + mw);
    let n0 = label_nodes(seq![ls[0]]);
    let n1 = label_nodes(seq![ls[1], ls[2], ls[3]]);
    let n5 = label_nodes(seq![ls[4]]);
    let nm = label_nodes(mw);
    assert(label_nodes(ls) =~= n0 + n1 + n5 + nm);
    assert forall|i: int| 0 <= i < n1.len() implies f(#[trigger] n1[i]) is None && g(n1[i]) is None by {
        assert(n1[i] == Yaml::Text(ls[i + 1]));
    }
    assert forall|i: int| 0 <= i < nm.len() implies f(#[trigger] nm[i]) is None && g(nm[i]) is None by {
        assert(nm[i] == Yaml::Text(ls[5]));
    }
    assert forall|i: int| 0 <= i < n5.len() implies f(#[trigger] n5[i]) is None by {
        assert(n5[i] == Yaml::Text(ls[4]));
    }
    lemma_block_assembly(n0, n1, n5, nm, f, g);
    assert(n0 =~= seq![Yaml::Text(ls[0])]);
    assert(n5 =~= seq![Yaml::Text(ls[4])]);
    Seq::lemma_filter_map_singleton(Yaml::Text(ls[0]), f);
    lemma_first_some_one(Yaml::Text(ls[0]), g);
    lemma_first_some_one(Yaml::Text(ls[4]), g);
    assert(label_nodes(ls).filter_map(f) =~= seq![
        RouteView { host: r.host, path_prefix: r.path_prefix, container_port: router_port(labels, router) },
    ]);
}

/// Reading four runs of labels where only the first gives a route and the first and
/// third may give a port.
proof fn lemma_block_assembly(
    n0: Seq<Yaml>,
    n1: Seq<Yaml>,
    n5: Seq<Yaml>,
    nm: Seq<Yaml>,
    f: spec_fn(Yaml) -> Option<RouteView>,
    g: spec_fn(Yaml) -> Option<nat>,
)
    requires
        forall|i: int| 0 <= i < n1.len() ==> f(#[trigger] n1[i]) is None && g(n1[i]) is None,
        forall|i: int| 0 <= i < nm.len() ==> f(#[trigger] nm[i]) is None && g(nm[i]) is None,
        forall|i: int| 0 <= i < n5.len() ==> f(#[trigger] n5[i]) is None,
    ensures
        (n0 + n1 + n5 + nm).filter_map(f) == n0.filter_map(f),
        first_some(n0 + n1 + n5 + nm, g) == (match first_some(n0, g) {
            Some(x) => Some(x),
            None => first_some(n5, g),
        }),
{
    lemma_filter_map_concat(n0 + n1 + n5, nm, f);
    lemma_filter_map_concat(n0 + n1, n5, f);
    lemma_filter_map_concat(n0, n1, f);
    lemma_filter_map_nothing(n1, f);
    lemma_filter_map_nothing(n5, f);
    lemma_filter_map_nothing(nm, f);
    assert(n0.filter_map(f) + Seq::<RouteView>::empty() + Seq::<RouteView>::empty() + Seq::<RouteView>::empty()
        =~= n0.filter_map(f));
    lemma_first_some_concat(n0 + n1 + n5, nm, g);
    lemma_first_some_concat(n0 + n1, n5, g);
    lemma_first_some_concat(n0, n1, g);
    lemma_first_some_nothing(n1, g);
    lemma_first_some_nothing(nm, g);
}


// ---------------------------------------------------------------------------
// The labels of all routes
// ---------------------------------------------------------------------------

/// The labels of the first `n` routes give each of them its port, and nothing to
/// the routers that come later.
proof fn lemma_routes_ports(name: Seq<char>, routes: Seq<RouteView>, ms: Seq<Middleware>, offset: nat, n: int, j: nat)
    requires
        valid_stack_name(name),
        forall|i: int| 0 <= i < routes.len() ==> readable_route(#[trigger] routes[i]),
        0 <= n <= routes.len(),
    ensures
        first_some(
            label_nodes(routes_labels(name, routes.take(n), ms, offset)),
            router_port_label(router_name(name, offset + j)),
        ) == (if j < n {
            Some(routes[j as int].container_port)
        } else {
            None::<nat>
        }),
    decreases n,
{
    let g = router_port_label(router_name(name, offset + j));
    if n == 0 {
        assert(routes.take(0) =~= Seq::<RouteView>::empty());
        assert(label_nodes(Seq::<Seq<char>>::empty()) =~= Seq::<Yaml>::empty());
    } else {
        let t = routes.take(n);
        assert(t.drop_last() =~= routes.take(n - 1));
        assert(t.last() == routes[n - 1]);
        let index = (offset + n - 1) as nat;
        lemma_routes_ports(name, routes, ms, offset, n - 1, j);
        lemma_label_nodes_concat(
            routes_labels(name, routes.take(n - 1), ms, offset),
            one_route_labels(name, routes[n - 1], ms, index),
        );
        lemma_first_some_concat(
            label_nodes(routes_labels(name, routes.take(n - 1), ms, offset)),
            label_nodes(one_route_labels(name, routes[n - 1], ms, index)),
            g,
        );
        lemma_route_block(name, routes[n - 1], ms, index, Seq::empty(), offset + j);
    }
}

/// The labels of the first `n` routes read back as those routes, when every router
/// finds its own port.
proof fn lemma_routes_read(name: Seq<char>, routes: Seq<RouteView>, ms: Seq<Middleware>, offset: nat, n: int, labels: Seq<Yaml>)
    requires
        valid_stack_name(name),
        forall|i: int| 0 <= i < routes.len() ==> readable_route(#[trigger] routes[i]),
        forall|i: int|
            0 <= i < routes.len() ==> router_port(labels, router_name(name, (offset + i) as nat))
                == (#[trigger] routes[i]).container_port,
        0 <= n <= routes.len(),
    ensures
        label_nodes(routes_labels(name, routes.take(n), ms, offset)).filter_map(route_of_label(name, labels))
            == routes.take(n),
    decreases n,
{
    let f = route_of_label(name, labels);
    if n == 0 {
        assert(routes.take(0) =~= Seq::<RouteView>::empty());
        assert(label_nodes(Seq::<Seq<char>>::empty()) =~= Seq::<Yaml>::empty());
    } else {
        let t = routes.take(n);
        assert(t.drop_last() =~= routes.take(n - 1));
        assert(t.last() == routes[n - 1]);
        let index = (offset + n - 1) as nat;
        lemma_routes_read(name, routes, ms, offset, n - 1, labels);
        lemma_label_nodes_concat(
            routes_labels(name, routes.take(n - 1), ms, offset),
            one_route_labels(name, routes[n - 1], ms, index),
        );
        lemma_filter_map_concat(
            label_nodes(routes_labels(name, routes.take(n - 1), ms, offset)),
            label_nodes(one_route_labels(name, routes[n - 1], ms, index)),
            f,
        );
        lemma_route_block(name, routes[n - 1], ms, index, labels, 0);
        assert(router_port(labels, router_name(name, index)) == routes[n - 1].container_port);
        assert(routes.take(n - 1) + seq![routes[n - 1]] =~= routes.take(n));
    }
}

/// The two labels that open the labels of a routed service are neither routes nor
/// ports.
proof fn lemma_opening_labels(name: Seq<char>, labels: Seq<Yaml>, router: Seq<char>)
    requires
        valid_stack_name(name),
    ensures
        route_of_label(name, labels)(Yaml::Text("traefik.enable=true"@)) is None,
        route_of_label(name, labels)(Yaml::Text("traefik.docker.network=nihility-traefik"@)) is None,
        router_port_label(router)(Yaml::Text("traefik.enable=true"@)) is None,
        router_port_label(router)(Yaml::Text("traefik.docker.network=nihility-traefik"@)) is None,
{
    reveal_strlit("traefik.enable=true");
    reveal_strlit("traefik.enable");
    reveal_strlit("true");
    reveal_strlit("traefik.docker.network=nihility-traefik");
    reveal_strlit("traefik.docker.network");
    reveal_strlit("nihility-traefik");
    reveal_strlit("=");
    reveal_strlit("traefik.http.routers.");
    reveal_strlit("traefik.http.services.");
    reveal_strlit("-");
    lemma_literal_lacks("traefik.enable"@);
    lemma_literal_lacks("traefik.docker.network"@);
    assert("traefik.enable=true"@ =~= "traefik.enable"@ + "="@ + "true"@);
    lemma_label_pair("traefik.enable"@, "true"@);
    assert(routers_prefix(name).len() > "traefik.enable"@.len());
    assert("traefik.docker.network=nihility-traefik"@ =~= "traefik.docker.network"@ + "="@ + "nihility-traefik"@);
    lemma_not_rule_label(name, labels, "traefik.docker.network"@, "nihility-traefik"@);
    assert(port_key(router)[8] == 'h');
    lemma_not_port_label(router, "traefik.enable=true"@, 8);
    lemma_not_port_label(router, "traefik.docker.network=nihility-traefik"@, 8);
}

/// The routes that an application's labels were generated from are the routes that
/// an edit reads back from those labels, in order, with their path prefixes and
/// ports, for any valid project name, middlewares and first route index.
pub proof fn law_generated_routes_read_back(name: Seq<char>, routes: Seq<RouteView>, ms: Seq<Middleware>, offset: nat)
    requires
        valid_stack_name(name),
        forall|i: int| 0 <= i < routes.len() ==> readable_route(#[trigger] routes[i]),
    ensures
        existing_routes(name, label_nodes(route_labels(name, routes, ms, offset))) == routes,
{
    let labels = label_nodes(route_labels(name, routes, ms, offset));
    let f = route_of_label(name, labels);
    if routes.len() == 0 {
        assert(labels =~= Seq::<Yaml>::empty());
        assert(routes =~= Seq::<RouteView>::empty());
    } else {
        let opening = seq!["traefik.enable=true"@, "traefik.docker.network=nihility-traefik"@];
        let body = routes_labels(name, routes, ms, offset);
        assert(routes.take(routes.len() as int) =~= routes);
        lemma_label_nodes_concat(opening, body);
        let on = label_nodes(opening);
        assert(on =~= seq![Yaml::Text("traefik.enable=true"@), Yaml::Text("traefik.docker.network=nihility-traefik"@)]);
        assert forall|i: int|
            0 <= i < routes.len() implies router_port(labels, router_name(name, (offset + i) as nat))
                == (#[trigger] routes[i]).container_port by {
            let g = router_port_label(router_name(name, (offset + i) as nat));
            lemma_opening_labels(name, labels, router_name(name, (offset + i) as nat));
            assert forall|q: int| 0 <= q < on.len() implies g(#[trigger] on[q]) is None by {}
            lemma_first_some_nothing(on, g);
            lemma_first_some_concat(on, label_nodes(body), g);
            lemma_routes_ports(name, routes, ms, offset, routes.len() as int, i as nat);
        }
        lemma_opening_labels(name, labels, Seq::empty());
        assert forall|q: int| 0 <= q < on.len() implies f(#[trigger] on[q]) is None by {}
        lemma_filter_map_nothing(on, f);
        lemma_filter_map_concat(on, label_nodes(body), f);
        lemma_routes_read(name, routes, ms, offset, routes.len() as int, labels);
        assert(Seq::<RouteView>::empty() + routes =~= routes);
    }
}

} // verus!
