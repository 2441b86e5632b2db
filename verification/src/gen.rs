//! Generation of single-service applications and static sites.

use crate::compose::{Document, Healthcheck, Network, Service, Volume as ComposeVolume};
use crate::error::{InvalidInput, first_failure};
use crate::kv::{kv_get, kv_insert, lemma_str_lt_trans, sorted_keys, str_lt, str_lt_exec};
use crate::names::{
    valid_host, valid_host_exec, valid_image_repository, valid_image_repository_exec,
    valid_image_version, valid_image_version_exec, valid_stack_name, valid_stack_name_exec,
};
use crate::text::{
    chars_of, decimal, decimal_string, has_char, has_char_exec, has_line_break_or_nul,
    has_line_break_or_nul_exec, is_digit, is_upper, is_alnum, starts_with, string_of,
};
use crate::types::{
    AppSpec, GeneratedFile, GeneratedStack, Middleware, NamedVolume, NetworkMode, PublishedPort,
    Route, RouteView, StaticSiteSpec, Volume, middleware_ref, protocol_suffix, route_view,
    routes_view,
};
use vstd::prelude::*;

verus! {

// ---------------------------------------------------------------------------
// Specifications
// ---------------------------------------------------------------------------

/// The character sequences of some strings.
pub open spec fn strs(v: Seq<String>) -> Seq<Seq<char>> {
    v.map_values(|s: String| s@)
}

/// Middleware references joined with commas.
pub open spec fn join_refs(ms: Seq<Middleware>) -> Seq<char>
    decreases ms.len(),
{
    if ms.len() == 0 {
        Seq::empty()
    } else if ms.len() == 1 {
        middleware_ref(ms[0])
    } else {
        join_refs(ms.drop_last()) + ","@ + middleware_ref(ms.last())
    }
}

/// The Traefik rule of a route.
pub open spec fn route_rule(r: RouteView) -> Seq<char> {
    "Host(`"@ + r.host + "`)"@ + match r.path_prefix {
        Some(p) => " && PathPrefix(`"@ + p + "`)"@,
        None => Seq::empty(),
    }
}

/// The router name of the route with the given index.
pub open spec fn router_name(name: Seq<char>, index: nat) -> Seq<char> {
    name + "-"@ + decimal(index)
}

/// The labels of one route.
pub open spec fn one_route_labels(name: Seq<char>, r: RouteView, ms: Seq<Middleware>, index: nat) -> Seq<
    Seq<char>,
> {
    let router = router_name(name, index);
    seq![
        "traefik.http.routers."@ + router + ".rule="@ + route_rule(r),
        "traefik.http.routers."@ + router + ".entrypoints=https"@,
        "traefik.http.routers."@ + router + ".tls=true"@,
        "traefik.http.routers."@ + router + ".tls.certresolver=cloudflare"@,
        "traefik.http.services."@ + router + ".loadbalancer.server.port="@ + decimal(
            r.container_port,
        ),
    ] + if ms.len() == 0 {
        Seq::<Seq<char>>::empty()
    } else {
        seq!["traefik.http.routers."@ + router + ".middlewares="@ + join_refs(ms)]
    }
}

/// The labels of all routes, the first numbered `offset`.
pub open spec fn routes_labels(name: Seq<char>, routes: Seq<RouteView>, ms: Seq<Middleware>, offset: nat) -> Seq<
    Seq<char>,
>
    decreases routes.len(),
{
    if routes.len() == 0 {
        Seq::empty()
    } else {
        routes_labels(name, routes.drop_last(), ms, offset) + one_route_labels(
            name,
            routes.last(),
            ms,
            (offset + routes.len() - 1) as nat,
        )
    }
}

/// The Traefik labels of an application's routes; none without routes.
pub open spec fn route_labels(name: Seq<char>, routes: Seq<RouteView>, ms: Seq<Middleware>, offset: nat) -> Seq<
    Seq<char>,
> {
    if routes.len() == 0 {
        Seq::empty()
    } else {
        seq!["traefik.enable=true"@, "traefik.docker.network=nihility-traefik"@] + routes_labels(
            name,
            routes,
            ms,
            offset,
        )
    }
}

/// A Compose port mapping, `HOST:CONTAINER/PROTOCOL`.
pub open spec fn port_text(p: PublishedPort) -> Seq<char> {
    decimal(p.host_port as nat) + ":"@ + decimal(p.container_port as nat) + "/"@ + protocol_suffix(
        p.protocol,
    )
}

/// A Compose bind mount, `HOST:CONTAINER` with `:ro` when read-only.
pub open spec fn volume_text(v: Volume) -> Seq<char> {
    v.host_path@ + ":"@ + v.container_path@ + if v.read_only {
        ":ro"@
    } else {
        Seq::empty()
    }
}

/// A named volume mount, `NAME:CONTAINER`.
pub open spec fn named_volume_text(v: NamedVolume) -> Seq<char> {
    v.name@ + ":"@ + v.container_path@
}

/// A character escaped for a double-quoted environment file value.
pub open spec fn escape_env_char(c: char) -> Seq<char> {
    if c == '\\' {
        seq!['\\', '\\']
    } else if c == '"' {
        seq!['\\', '"']
    } else {
        seq![c]
    }
}

/// A value escaped for a double-quoted environment file value.
pub open spec fn escape_env(s: Seq<char>) -> Seq<char>
    decreases s.len(),
{
    if s.len() == 0 {
        Seq::empty()
    } else {
        escape_env(s.drop_last()) + escape_env_char(s.last())
    }
}

/// A value quoted for an environment file.
pub open spec fn quote_env_spec(s: Seq<char>) -> Seq<char> {
    "\""@ + escape_env(s) + "\""@
}

/// The text of a double-quoted environment file value read back: a backslash
/// takes the character after it literally.
pub open spec fn unescape_env(e: Seq<char>) -> Seq<char>
    decreases e.len(),
{
    if e.len() == 0 {
        Seq::empty()
    } else if e[0] == '\\' && e.len() >= 2 {
        seq![e[1]] + unescape_env(e.skip(2))
    } else {
        seq![e[0]] + unescape_env(e.skip(1))
    }
}

/// Whether a quoted value's inside is well formed: every `"` and `\` is escaped by
/// a backslash, so no bare quote ends the value early.
pub open spec fn escapes_closed(e: Seq<char>) -> bool
    decreases e.len(),
{
    if e.len() == 0 {
        true
    } else if e[0] == '\\' {
        e.len() >= 2 && (e[1] == '\\' || e[1] == '"') && escapes_closed(e.skip(2))
    } else {
        e[0] != '"' && escapes_closed(e.skip(1))
    }
}

proof fn lemma_escape_env_prepend(c: char, s: Seq<char>)
    ensures
        escape_env(seq![c] + s) == escape_env_char(c) + escape_env(s),
    decreases s.len(),
{
    let t = seq![c] + s;
    if s.len() == 0 {
        assert(t.drop_last() =~= Seq::<char>::empty());
        assert(escape_env(t.drop_last()) == Seq::<char>::empty());
        assert(t.last() == c);
        assert(escape_env(t) == escape_env(t.drop_last()) + escape_env_char(c));
        assert(escape_env(s) == Seq::<char>::empty());
        assert(escape_env_char(c) + escape_env(s) =~= escape_env_char(c));
        assert(escape_env(t) =~= escape_env_char(c));
    } else {
        lemma_escape_env_prepend(c, s.drop_last());
        assert((seq![c] + s).drop_last() =~= seq![c] + s.drop_last());
        assert((seq![c] + s).last() == s.last());
        assert(escape_env_char(c) + escape_env(s.drop_last()) + escape_env_char(s.last())
            =~= escape_env_char(c) + (escape_env(s.drop_last()) + escape_env_char(s.last())));
    }
}

/// Undoing the two escapes of an environment file value gives the value back, and
/// no bare quote stands inside the quotes: the file holds every value exactly.
pub proof fn law_quote_env_round_trip(v: Seq<char>)
    ensures
        quote_env_spec(v) == "\""@ + escape_env(v) + "\""@,
        escapes_closed(escape_env(v)),
        unescape_env(escape_env(v)) == v,
    decreases v.len(),
{
    if v.len() == 0 {
        assert(unescape_env(escape_env(v)) =~= v);
    } else {
        let c = v[0];
        let rest = v.drop_first();
        assert(v =~= seq![c] + rest);
        lemma_escape_env_prepend(c, rest);
        law_quote_env_round_trip(rest);
        let e = escape_env(v);
        let r = escape_env(rest);
        if c == '\\' || c == '"' {
            assert(e =~= seq!['\\', c] + r);
            assert(e.skip(2) =~= r);
            assert(unescape_env(e) =~= seq![c] + unescape_env(r));
        } else {
            assert(e =~= seq![c] + r);
            assert(e.skip(1) =~= r);
            assert(unescape_env(e) =~= seq![c] + unescape_env(r));
        }
        assert(seq![c] + rest =~= v);
    }
}

/// The lines `KEY="VALUE"` of an environment file.
pub open spec fn env_file_text(env: Seq<(String, String)>) -> Seq<char>
    decreases env.len(),
{
    if env.len() == 0 {
        Seq::empty()
    } else {
        env_file_text(env.drop_last()) + env.last().0@ + "="@ + quote_env_spec(env.last().1@)
            + "\n"@
    }
}

/// A valid environment variable name: upper case letters, digits and `_`, not empty.
pub open spec fn valid_env_key(k: Seq<char>) -> bool {
    k.len() > 0 && forall|i: int|
        0 <= i < k.len() ==> is_upper(#[trigger] k[i]) || is_digit(k[i]) || k[i] == '_'
}

/// A valid external network name.
pub open spec fn valid_network_name(n: Seq<char>) -> bool {
    n.len() > 0 && forall|i: int|
        0 <= i < n.len() ==> is_alnum(#[trigger] n[i]) || n[i] == '-' || n[i] == '_' || n[i]
            == '.'
}

/// A valid bind mount.
pub open spec fn valid_volume(v: Volume) -> bool {
    &&& v.host_path@.len() > 0
    &&& starts_with(v.container_path@, "/"@)
    &&& !has_line_break_or_nul(v.host_path@)
    &&& !has_line_break_or_nul(v.container_path@)
}

/// A valid route.
pub open spec fn valid_route(r: Route) -> bool {
    &&& r.container_port != 0
    &&& valid_host(r.host@)
    &&& match r.path_prefix {
        Some(p) => starts_with(p@, "/"@) && !has_char(p@, '`') && !has_char(p@, '\n') && !has_char(
            p@,
            '\r',
        ),
        None => true,
    }
}

/// What `validate_app` accepts.
pub open spec fn valid_app(s: AppSpec) -> bool {
    &&& valid_stack_name(s.name@)
    &&& valid_stack_name(s.service@)
    &&& valid_image_repository(s.image@)
    &&& valid_image_version(s.version@)
    &&& !(s.network_mode is Host && s.routes@.len() > 0)
    &&& match s.network_mode {
        NetworkMode::External(n) => valid_network_name(n@),
        _ => true,
    }
    &&& forall|i: int|
        0 <= i < s.environment@.len() ==> valid_env_key((#[trigger] s.environment@[i]).0@)
            && !has_line_break_or_nul(s.environment@[i].1@)
    &&& sorted_keys(s.environment@)
    &&& forall|i: int| 0 <= i < s.volumes@.len() ==> valid_volume(#[trigger] s.volumes@[i])
    &&& forall|i: int| 0 <= i < s.routes@.len() ==> valid_route(#[trigger] s.routes@[i])
}

/// The checks of `validate_app` before the lists: names, image and network.
pub open spec fn app_head_ok(s: AppSpec) -> bool {
    &&& valid_stack_name(s.name@) && valid_stack_name(s.service@)
    &&& valid_image_repository(s.image@)
    &&& valid_image_version(s.version@)
    &&& !(s.network_mode is Host && s.routes@.len() > 0)
    &&& !(s.network_mode is External && !valid_network_name(s.network_mode->External_0@))
}

/// Whether every variable has a valid name and a one-line value.
pub open spec fn app_env_ok(s: AppSpec) -> bool {
    forall|i: int|
        0 <= i < s.environment@.len() ==> valid_env_key((#[trigger] s.environment@[i]).0@)
            && !has_line_break_or_nul(s.environment@[i].1@)
}

/// Whether every bind mount is valid.
pub open spec fn app_volumes_ok(s: AppSpec) -> bool {
    forall|i: int| 0 <= i < s.volumes@.len() ==> valid_volume(#[trigger] s.volumes@[i])
}

/// Whether variable `i` has an invalid name or value.
pub open spec fn env_entry_fails(env: Seq<(String, String)>) -> spec_fn(int) -> bool {
    |i: int| !(valid_env_key(env[i].0@) && !has_line_break_or_nul(env[i].1@))
}

/// The message of an invalid variable.
pub open spec fn env_entry_message(env: Seq<(String, String)>) -> spec_fn(int) -> Seq<char> {
    |i: int| "环境变量 "@ + env[i].0@ + " 的名称或值无效"@
}

/// Whether route `i` is invalid.
pub open spec fn route_entry_fails(rs: Seq<Route>) -> spec_fn(int) -> bool {
    |i: int| !valid_route(rs[i])
}

/// Why route `i` is invalid: no port, then its host, then its path prefix.
pub open spec fn route_entry_message(rs: Seq<Route>) -> spec_fn(int) -> Seq<char> {
    |i: int|
        if rs[i].container_port == 0 {
            "配置 HTTP 路由时必须指定容器端口"@
        } else if !valid_host(rs[i].host@) {
            "域名格式无效: "@ + rs[i].host@
        } else {
            "路由路径必须以 / 开头且不能包含控制字符"@
        }
}

/// Whether `m` is why `validate_app` refuses a specification: the first check that
/// fails.
pub open spec fn app_refusal(s: AppSpec, m: Seq<char>) -> bool {
    if !valid_stack_name(s.name@) || !valid_stack_name(s.service@) {
        m == "项目名必须以小写字母开头，只能包含小写字母、数字、-、_，且不超过 63 个字符"@
    } else if !valid_image_repository(s.image@) {
        m == "镜像名不能为空、不能包含版本标签、摘要或控制字符"@
    } else if !valid_image_version(s.version@) {
        m == "镜像版本不能使用 latest，且必须以字母、数字或下划线开头，只能包含字母、数字、点、下划线和连字符，且不超过 128 个字符"@
    } else if s.network_mode is Host && s.routes@.len() > 0 {
        m == "host 网络模式不能同时使用 Traefik 路由"@
    } else if s.network_mode is External && !valid_network_name(s.network_mode->External_0@) {
        m == "外部网络名包含无效字符"@
    } else if !app_env_ok(s) {
        first_failure(
            s.environment@.len() as int,
            env_entry_fails(s.environment@),
            env_entry_message(s.environment@),
            m,
        )
    } else if !sorted_keys(s.environment@) {
        m == "环境变量必须按名称排序且不能重复"@
    } else if !app_volumes_ok(s) {
        m == "卷挂载路径无效"@
    } else {
        first_failure(s.routes@.len() as int, route_entry_fails(s.routes@), route_entry_message(s.routes@), m)
    }
}

/// The service that `build_service` makes of a valid specification.
pub open spec fn built_service(svc: Service, s: AppSpec, offset: nat, container_name: Seq<char>) -> bool {
    &&& svc.image@ == s.image@ + ":"@ + s.version@
    &&& (svc.container_name matches Some(c) && c@ == container_name)
    &&& svc.command@ == s.command@
    &&& (svc.restart matches Some(r) && r@ == "unless-stopped"@)
    &&& match s.network_mode {
        NetworkMode::Host => (svc.network_mode matches Some(m) && m@ == "host"@),
        _ => svc.network_mode is None,
    }
    &&& strs(svc.networks@) == (if s.network_mode is External {
        seq!["application"@]
    } else {
        Seq::empty()
    }) + (if s.routes@.len() > 0 {
        seq!["traefik"@]
    } else {
        Seq::empty()
    })
    &&& strs(svc.ports@) == s.published_ports@.map_values(|p: PublishedPort| port_text(p))
    &&& strs(svc.volumes@) == s.volumes@.map_values(|v: Volume| volume_text(v))
        + s.named_volumes@.map_values(|v: NamedVolume| named_volume_text(v))
    &&& svc.environment@.len() == 0
    &&& strs(svc.env_file@) == seq![".env"@]
    &&& strs(svc.labels@) == route_labels(s.name@, routes_view(s.routes@), s.middlewares@, offset) + strs(
        s.labels@,
    )
    &&& match s.healthcheck {
        Some(h) => (svc.healthcheck matches Some(c) && strs(c.test@) == seq![
            "CMD-SHELL"@,
            h.command@,
        ] && c.interval@ == h.interval@ && c.timeout@ == h.timeout@ && (match h.start_period {
            Some(p) => (c.start_period matches Some(q) && q@ == p@),
            None => c.start_period is None,
        }) && c.retries == h.retries),
        None => svc.healthcheck is None,
    }
    &&& svc.logging is None
    &&& svc.wf()
}

/// The networks and volumes that an application's service needs.
pub open spec fn built_fragment(d: Document, s: AppSpec) -> bool {
    &&& d.wf()
    &&& strs(d.networks@.map_values(|e: (String, Network)| e.0)) == (if s.network_mode is External {
        seq!["application"@]
    } else {
        Seq::empty()
    }) + (if s.routes@.len() > 0 {
        seq!["traefik"@]
    } else {
        Seq::empty()
    })
    &&& forall|i: int| 0 <= i < d.networks@.len() ==> (#[trigger] d.networks@[i]).1.external == Some(true)
    &&& forall|i: int|
        0 <= i < d.networks@.len() ==> ((#[trigger] d.networks@[i]).1.name matches Some(n) && n@ == (
        if d.networks@[i].0@ == "traefik"@ {
            "nihility-traefik"@
        } else {
            s.network_mode->External_0@
        }))
    &&& forall|k: Seq<char>|
        #![trigger kv_get(d.volumes@, k)]
        kv_get(d.volumes@, k) is Some <==> exists|i: int|
            0 <= i < s.named_volumes@.len() && (#[trigger] s.named_volumes@[i]).name@ == k
}

// ---------------------------------------------------------------------------
// Text building
// ---------------------------------------------------------------------------

/// `a` followed by `b`.
pub fn cat(a: &str, b: &str) -> (r: String)
    ensures
        r@ == a@ + b@,
{
    let mut s = String::from_str(a);
    s.append(b);
    s
}

/// Middleware references joined with commas.
pub fn join_middleware_refs(ms: &[Middleware]) -> (r: String)
    ensures
        r@ == join_refs(ms@),
{
    let mut out = String::new();
    let mut i: usize = 0;
    while i < ms.len()
        invariant
            i <= ms.len(),
            out@ == join_refs(ms@.take(i as int)),
        decreases ms.len() - i,
    {
        if i > 0 {
            out.append(",");
        }
        out.append(ms[i].label_ref());
        i = i + 1;
        assert(ms@.take(i as int).drop_last() =~= ms@.take(i - 1));
        assert(ms@.take(i as int).last() == ms@[i - 1]);
        if i == 1 {
            assert(out@ =~= join_refs(ms@.take(i as int)));
        }
    }
    assert(ms@.take(i as int) =~= ms@);
    out
}

/// The Traefik rule of a route.
fn route_rule_exec(r: &Route) -> (s: String)
    ensures
        s@ == route_rule(route_view(*r)),
{
    let mut s = String::from_str("Host(`");
    s.append(r.host.as_str());
    s.append("`)");
    match &r.path_prefix {
        Some(p) => {
            s.append(" && PathPrefix(`");
            s.append(p.as_str());
            s.append("`)");
        },
        None => {
            assert(s@ + Seq::<char>::empty() =~= s@);
        },
    }
    assert(s@ =~= route_rule(route_view(*r)));
    s
}

/// `prefix` + `router` + `suffix`.
fn label3(prefix: &str, router: &str, suffix: &str) -> (s: String)
    ensures
        s@ == prefix@ + router@ + suffix@,
{
    let mut s = String::from_str(prefix);
    s.append(router);
    s.append(suffix);
    s
}

fn push_route_labels(
    out: &mut Vec<String>,
    name: &str,
    r: &Route,
    ms: &[Middleware],
    joined: &str,
    index: u128,
)
    requires
        joined@ == join_refs(ms@),
    ensures
        strs(final(out)@) == strs(old(out)@) + one_route_labels(name@, route_view(*r), ms@, index as nat),
{
    let ghost o = strs(old(out)@);
    let mut router = String::from_str(name);
    router.append("-");
    let idx = decimal_string(index);
    router.append(idx.as_str());
    let rule = route_rule_exec(r);
    let mut l1 = label3("traefik.http.routers.", router.as_str(), ".rule=");
    l1.append(rule.as_str());
    out.push(l1);
    out.push(label3("traefik.http.routers.", router.as_str(), ".entrypoints=https"));
    out.push(label3("traefik.http.routers.", router.as_str(), ".tls=true"));
    out.push(label3("traefik.http.routers.", router.as_str(), ".tls.certresolver=cloudflare"));
    let mut l6 = label3(
        "traefik.http.services.",
        router.as_str(),
        ".loadbalancer.server.port=",
    );
    let port = decimal_string(r.container_port as u128);
    l6.append(port.as_str());
    out.push(l6);
    if ms.len() > 0 {
        let mut l7 = label3("traefik.http.routers.", router.as_str(), ".middlewares=");
        l7.append(joined);
        out.push(l7);
    }
    assert(strs(out@) =~= o + one_route_labels(name@, route_view(*r), ms@, index as nat));
}

/// The Traefik labels of an application's routes, numbering routers from `offset`.
pub fn application_route_labels(
    name: &str,
    routes: &[Route],
    middlewares: &[Middleware],
    offset: u128,
) -> (r: Vec<String>)
    requires
        offset <= 0x1_0000_0000_0000_0000,
    ensures
        strs(r@) == route_labels(name@, routes_view(routes@), middlewares@, offset as nat),
{
    let mut out: Vec<String> = Vec::new();
    if routes.len() == 0 {
        assert(strs(out@) =~= Seq::<Seq<char>>::empty());
        return out;
    }
    out.push(String::from_str("traefik.enable=true"));
    out.push(String::from_str("traefik.docker.network=nihility-traefik"));
    let ghost head = seq!["traefik.enable=true"@, "traefik.docker.network=nihility-traefik"@];
    assert(strs(out@) =~= head);
    let joined = join_middleware_refs(middlewares);
    let mut i: usize = 0;
    while i < routes.len()
        invariant
            i <= routes.len(),
            joined@ == join_refs(middlewares@),
            offset <= 0x1_0000_0000_0000_0000,
            strs(out@) == head + routes_labels(
                name@,
                routes_view(routes@.take(i as int)),
                middlewares@,
                offset as nat,
            ),
        decreases routes.len() - i,
    {
        let index: u128 = offset + i as u128;
        push_route_labels(&mut out, name, &routes[i], middlewares, joined.as_str(), index);
        i = i + 1;
        assert(routes_view(routes@.take(i as int)).drop_last() =~= routes_view(routes@.take(i - 1)));
        assert(routes_view(routes@.take(i as int)).last() == route_view(routes@[i - 1]));
        assert(strs(out@) =~= head + routes_labels(
            name@,
            routes_view(routes@.take(i as int)),
            middlewares@,
            offset as nat,
        ));
    }
    assert(routes@.take(i as int) =~= routes@);
    assert(routes_view(routes@) =~= routes_view(routes@.take(i as int)));
    out
}

/// A Compose port mapping.
pub fn format_port(p: &PublishedPort) -> (r: String)
    ensures
        r@ == port_text(*p),
{
    let mut s = decimal_string(p.host_port as u128);
    s.append(":");
    let c = decimal_string(p.container_port as u128);
    s.append(c.as_str());
    s.append("/");
    s.append(p.protocol.compose_suffix());
    s
}

/// A Compose bind mount.
pub fn format_volume(v: &Volume) -> (r: String)
    ensures
        r@ == volume_text(*v),
{
    let mut s = String::from_str(v.host_path.as_str());
    s.append(":");
    s.append(v.container_path.as_str());
    if v.read_only {
        s.append(":ro");
    } else {
        assert(s@ + Seq::<char>::empty() =~= s@);
    }
    s
}

/// A named volume mount.
pub fn format_named_volume(v: &NamedVolume) -> (r: String)
    ensures
        r@ == named_volume_text(*v),
{
    let mut s = String::from_str(v.name.as_str());
    s.append(":");
    s.append(v.container_path.as_str());
    s
}

/// A value quoted and escaped for an environment file.
pub fn quote_env(value: &str) -> (r: String)
    ensures
        r@ == quote_env_spec(value@),
{
    let cs = chars_of(value);
    let mut out: Vec<char> = Vec::new();
    out.push('"');
    let mut i: usize = 0;
    while i < cs.len()
        invariant
            i <= cs.len(),
            cs@ == value@,
            out@ == seq!['"'] + escape_env(cs@.take(i as int)),
        decreases cs.len() - i,
    {
        let c = cs[i];
        if c == '\\' {
            out.push('\\');
            out.push('\\');
        } else if c == '"' {
            out.push('\\');
            out.push('"');
        } else {
            out.push(c);
        }
        i = i + 1;
        assert(cs@.take(i as int).drop_last() =~= cs@.take(i - 1));
        assert(out@ =~= seq!['"'] + escape_env(cs@.take(i as int)));
    }
    out.push('"');
    assert(cs@.take(i as int) =~= cs@);
    proof {
        reveal_strlit("\"");
    }
    assert(out@ =~= quote_env_spec(value@));
    string_of(&out)
}

/// The content of an application's environment file.
pub fn env_file_content(env: &Vec<(String, String)>) -> (r: String)
    ensures
        r@ == env_file_text(env@),
{
    let mut out = String::new();
    let mut i: usize = 0;
    while i < env.len()
        invariant
            i <= env.len(),
            out@ == env_file_text(env@.take(i as int)),
        decreases env.len() - i,
    {
        out.append(env[i].0.as_str());
        out.append("=");
        let q = quote_env(env[i].1.as_str());
        out.append(q.as_str());
        out.append("\n");
        i = i + 1;
        assert(env@.take(i as int).drop_last() =~= env@.take(i - 1));
        assert(env@.take(i as int).last() == env@[i - 1]);
    }
    assert(env@.take(i as int) =~= env@);
    out
}

// ---------------------------------------------------------------------------
// Validation
// ---------------------------------------------------------------------------

fn valid_env_key_exec(k: &str) -> (r: bool)
    ensures
        r == valid_env_key(k@),
{
    let cs = chars_of(k);
    if cs.len() == 0 {
        return false;
    }
    let mut i: usize = 0;
    while i < cs.len()
        invariant
            i <= cs.len(),
            cs@ == k@,
            forall|j: int|
                0 <= j < i ==> is_upper(#[trigger] cs@[j]) || is_digit(cs@[j]) || cs@[j] == '_',
        decreases cs.len() - i,
    {
        let c = cs[i];
        if !(('A' <= c && c <= 'Z') || ('0' <= c && c <= '9') || c == '_') {
            return false;
        }
        i = i + 1;
    }
    true
}

fn valid_network_name_exec(n: &str) -> (r: bool)
    ensures
        r == valid_network_name(n@),
{
    let cs = chars_of(n);
    if cs.len() == 0 {
        return false;
    }
    let mut i: usize = 0;
    while i < cs.len()
        invariant
            i <= cs.len(),
            cs@ == n@,
            forall|j: int|
                0 <= j < i ==> is_alnum(#[trigger] cs@[j]) || cs@[j] == '-' || cs@[j] == '_'
                    || cs@[j] == '.',
        decreases cs.len() - i,
    {
        let c = cs[i];
        if !(crate::names::is_alnum_exec(c) || c == '-' || c == '_' || c == '.') {
            return false;
        }
        i = i + 1;
    }
    true
}

fn starts_with_slash(s: &str) -> (r: bool)
    ensures
        r == starts_with(s@, "/"@),
{
    proof {
        reveal_strlit("/");
    }
    let cs = chars_of(s);
    let slash = chars_of("/");
    crate::text::starts_with_exec(&cs, &slash)
}

fn valid_volume_exec(v: &Volume) -> (r: bool)
    ensures
        r == valid_volume(*v),
{
    let host = chars_of(v.host_path.as_str());
    let container = chars_of(v.container_path.as_str());
    host.len() > 0 && starts_with_slash(v.container_path.as_str())
        && !has_line_break_or_nul_exec(&host) && !has_line_break_or_nul_exec(&container)
}

fn valid_route_exec(r: &Route) -> (ok: bool)
    ensures
        ok == valid_route(*r),
{
    if r.container_port == 0 || !valid_host_exec(r.host.as_str()) {
        return false;
    }
    match &r.path_prefix {
        Some(p) => {
            let cs = chars_of(p.as_str());
            starts_with_slash(p.as_str()) && !has_char_exec(&cs, '`') && !has_char_exec(&cs, '\n')
                && !has_char_exec(&cs, '\r')
        },
        None => true,
    }
}

/// Checks an application specification.
pub fn validate_app(spec: &AppSpec) -> (r: Result<(), InvalidInput>)
    ensures
        r is Ok <==> valid_app(*spec),
        r matches Err(e) ==> app_refusal(*spec, e.0@),
{
    if !valid_stack_name_exec(spec.name.as_str()) || !valid_stack_name_exec(spec.service.as_str()) {
        return Err(InvalidInput::new("项目名必须以小写字母开头，只能包含小写字母、数字、-、_，且不超过 63 个字符"));
    }
    if !valid_image_repository_exec(spec.image.as_str()) {
        return Err(InvalidInput::new("镜像名不能为空、不能包含版本标签、摘要或控制字符"));
    }
    if !valid_image_version_exec(spec.version.as_str()) {
        return Err(InvalidInput::new("镜像版本不能使用 latest，且必须以字母、数字或下划线开头，只能包含字母、数字、点、下划线和连字符，且不超过 128 个字符"));
    }
    if spec.routes.len() > 0 {
        if let NetworkMode::Host = spec.network_mode {
            return Err(InvalidInput::new("host 网络模式不能同时使用 Traefik 路由"));
        }
    }
    if let NetworkMode::External(name) = &spec.network_mode {
        if !valid_network_name_exec(name.as_str()) {
            return Err(InvalidInput::new("外部网络名包含无效字符"));
        }
    }
    let mut i: usize = 0;
    while i < spec.environment.len()
        invariant
            i <= spec.environment@.len(),
            app_head_ok(*spec),
            forall|j: int|
                0 <= j < i ==> valid_env_key((#[trigger] spec.environment@[j]).0@)
                    && !has_line_break_or_nul(spec.environment@[j].1@),
        decreases spec.environment.len() - i,
    {
        let value = chars_of(spec.environment[i].1.as_str());
        if !valid_env_key_exec(spec.environment[i].0.as_str()) || has_line_break_or_nul_exec(&value) {
            proof {
                let f = env_entry_fails(spec.environment@);
                assert(f(i as int));
                assert forall|j: int| 0 <= j < i implies !#[trigger] f(j) by {}
            }
            let mut m = String::from_str("环境变量 ");
            m.append(spec.environment[i].0.as_str());
            m.append(" 的名称或值无效");
            return Err(InvalidInput(m));
        }
        i = i + 1;
    }
    let mut i: usize = 1;
    proof {
        if spec.environment@.len() > 0 {
            assert(spec.environment@.take(1).len() == 1);
        }
    }
    while i < spec.environment.len()
        invariant
            1 <= i,
            app_head_ok(*spec),
            app_env_ok(*spec),
            spec.environment@.len() > 0 ==> i <= spec.environment@.len(),
            spec.environment@.len() > 0 ==> sorted_keys(spec.environment@.take(i as int)),
        decreases spec.environment.len() - i,
    {
        let prev = chars_of(spec.environment[i - 1].0.as_str());
        let cur = chars_of(spec.environment[i].0.as_str());
        if !str_lt_exec(&prev, &cur) {
            proof {
                assert(!str_lt(spec.environment@[i - 1].0@, spec.environment@[i as int].0@));
            }
            return Err(InvalidInput::new("环境变量必须按名称排序且不能重复"));
        }
        let ghost env = spec.environment@;
        proof {
            assert forall|a: int, b: int| 0 <= a < b < i + 1 implies str_lt(
                (#[trigger] env.take(i + 1)[a]).0@,
                (#[trigger] env.take(i + 1)[b]).0@,
            ) by {
                assert(env.take(i + 1)[a] == env[a]);
                assert(env.take(i + 1)[b] == env[b]);
                if b < i {
                    assert(env.take(i as int)[a] == env[a]);
                    assert(env.take(i as int)[b] == env[b]);
                } else if a < i - 1 {
                    assert(env.take(i as int)[a] == env[a]);
                    assert(env.take(i as int)[i - 1] == env[i - 1]);
                    lemma_str_lt_trans(env[a].0@, env[i - 1].0@, env[b].0@);
                }
            }
        }
        i = i + 1;
    }
    proof {
        if spec.environment@.len() > 0 {
            assert(spec.environment@.take(i as int) =~= spec.environment@);
        }
    }
    let mut i: usize = 0;
    while i < spec.volumes.len()
        invariant
            i <= spec.volumes@.len(),
            app_head_ok(*spec),
            app_env_ok(*spec),
            sorted_keys(spec.environment@),
            forall|j: int| 0 <= j < i ==> valid_volume(#[trigger] spec.volumes@[j]),
        decreases spec.volumes.len() - i,
    {
        if !valid_volume_exec(&spec.volumes[i]) {
            return Err(InvalidInput::new("卷挂载路径无效"));
        }
        i = i + 1;
    }
    let mut i: usize = 0;
    while i < spec.routes.len()
        invariant
            i <= spec.routes@.len(),
            app_head_ok(*spec),
            app_env_ok(*spec),
            sorted_keys(spec.environment@),
            app_volumes_ok(*spec),
            forall|j: int| 0 <= j < i ==> valid_route(#[trigger] spec.routes@[j]),
        decreases spec.routes.len() - i,
    {
        if !valid_route_exec(&spec.routes[i]) {
            proof {
                let f = route_entry_fails(spec.routes@);
                assert(f(i as int));
                assert forall|j: int| 0 <= j < i implies !#[trigger] f(j) by {}
            }
            let r = &spec.routes[i];
            if r.container_port == 0 {
                return Err(InvalidInput::new("配置 HTTP 路由时必须指定容器端口"));
            }
            if !valid_host_exec(r.host.as_str()) {
                let mut m = String::from_str("域名格式无效: ");
                m.append(r.host.as_str());
                return Err(InvalidInput(m));
            }
            return Err(InvalidInput::new("路由路径必须以 / 开头且不能包含控制字符"));
        }
        i = i + 1;
    }
    Ok(())
}

// ---------------------------------------------------------------------------
// Generation
// ---------------------------------------------------------------------------

/// Builds the service of an application and the networks and volumes that it needs,
/// numbering its routers from `route_offset`.
pub fn build_service(spec: &AppSpec, route_offset: u128, container_name: &str) -> (r: Result<
    (Service, Document),
    InvalidInput,
>)
    requires
        route_offset <= 0x1_0000_0000_0000_0000,
    ensures
        match r {
            Ok((svc, frag)) => valid_app(*spec) && built_service(
                svc,
                *spec,
                route_offset as nat,
                container_name@,
            ) && built_fragment(frag, *spec) && frag.services@.len() == 0,
            Err(e) => !valid_app(*spec) && app_refusal(*spec, e.0@),
        },
{
    validate_app(spec)?;
    let mut image = String::from_str(spec.image.as_str());
    image.append(":");
    image.append(spec.version.as_str());

    // Networks of the service and of the document, in alias order.
    let mut networks: Vec<String> = Vec::new();
    let mut net_defs: Vec<(String, Network)> = Vec::new();
    let mut network_mode: Option<String> = None;
    match &spec.network_mode {
        NetworkMode::Bridge => {},
        NetworkMode::Host => {
            network_mode = Some(String::from_str("host"));
        },
        NetworkMode::External(name) => {
            networks.push(String::from_str("application"));
            net_defs.push(
                (
                    String::from_str("application"),
                    Network { name: Some(name.clone()), external: Some(true) },
                ),
            );
        },
    }
    if spec.routes.len() > 0 {
        networks.push(String::from_str("traefik"));
        net_defs.push(
            (
                String::from_str("traefik"),
                Network { name: Some(String::from_str("nihility-traefik")), external: Some(true) },
            ),
        );
    }
    proof {
        reveal_strlit("application");
        reveal_strlit("traefik");
        assert(crate::kv::str_lt("application"@, "traefik"@));
        assert(strs(networks@) =~= (if spec.network_mode is External {
            seq!["application"@]
        } else {
            Seq::empty()
        }) + (if spec.routes@.len() > 0 {
            seq!["traefik"@]
        } else {
            Seq::empty()
        }));
        assert(strs(net_defs@.map_values(|e: (String, Network)| e.0)) =~= strs(networks@));
        if net_defs@.len() == 2 {
            assert(net_defs@[0].0@ == "application"@);
            assert(net_defs@[1].0@ == "traefik"@);
        }
        if net_defs@.len() > 0 {
            assert("application"@ != "traefik"@);
        }
    }

    let mut ports: Vec<String> = Vec::new();
    let mut i: usize = 0;
    while i < spec.published_ports.len()
        invariant
            i <= spec.published_ports@.len(),
            strs(ports@) == spec.published_ports@.take(i as int).map_values(
                |p: PublishedPort| port_text(p),
            ),
        decreases spec.published_ports.len() - i,
    {
        ports.push(format_port(&spec.published_ports[i]));
        i = i + 1;
        assert(spec.published_ports@.take(i as int).map_values(|p: PublishedPort| port_text(p))
            =~= spec.published_ports@.take(i - 1).map_values(|p: PublishedPort| port_text(p)).push(
            port_text(spec.published_ports@[i - 1]),
        ));
        assert(strs(ports@) =~= strs(ports@.drop_last()).push(ports@.last()@));
    }
    assert(spec.published_ports@.take(i as int) =~= spec.published_ports@);

    let mut volumes: Vec<String> = Vec::new();
    let mut i: usize = 0;
    while i < spec.volumes.len()
        invariant
            i <= spec.volumes@.len(),
            strs(volumes@) == spec.volumes@.take(i as int).map_values(|v: Volume| volume_text(v)),
        decreases spec.volumes.len() - i,
    {
        volumes.push(format_volume(&spec.volumes[i]));
        i = i + 1;
        assert(spec.volumes@.take(i as int).map_values(|v: Volume| volume_text(v))
            =~= spec.volumes@.take(i - 1).map_values(|v: Volume| volume_text(v)).push(
            volume_text(spec.volumes@[i - 1]),
        ));
        assert(strs(volumes@) =~= strs(volumes@.drop_last()).push(volumes@.last()@));
    }
    assert(spec.volumes@.take(i as int) =~= spec.volumes@);
    let ghost bind_mounts = strs(volumes@);
    let mut declared: Vec<(String, ComposeVolume)> = Vec::new();
    let mut i: usize = 0;
    while i < spec.named_volumes.len()
        invariant
            i <= spec.named_volumes@.len(),
            strs(volumes@) == bind_mounts + spec.named_volumes@.take(i as int).map_values(
                |v: NamedVolume| named_volume_text(v),
            ),
            sorted_keys(declared@),
            forall|k: Seq<char>|
                #![trigger kv_get(declared@, k)]
                kv_get(declared@, k) is Some <==> exists|j: int|
                    0 <= j < i && (#[trigger] spec.named_volumes@[j]).name@ == k,
        decreases spec.named_volumes.len() - i,
    {
        volumes.push(format_named_volume(&spec.named_volumes[i]));
        let ghost before = declared@;
        kv_insert(&mut declared, spec.named_volumes[i].name.clone(), ComposeVolume {});
        i = i + 1;
        assert(spec.named_volumes@.take(i as int).map_values(|v: NamedVolume| named_volume_text(v))
            =~= spec.named_volumes@.take(i - 1).map_values(|v: NamedVolume| named_volume_text(v)).push(
            named_volume_text(spec.named_volumes@[i - 1]),
        ));
        assert(strs(volumes@) =~= strs(volumes@.drop_last()).push(volumes@.last()@));
        assert(bind_mounts + spec.named_volumes@.take(i as int).map_values(|v: NamedVolume| named_volume_text(v))
            =~= (bind_mounts + spec.named_volumes@.take(i - 1).map_values(|v: NamedVolume| named_volume_text(v))).push(
            named_volume_text(spec.named_volumes@[i - 1])));
        assert forall|k: Seq<char>|
            #![trigger kv_get(declared@, k)]
            kv_get(declared@, k) is Some <==> exists|j: int|
                0 <= j < i && (#[trigger] spec.named_volumes@[j]).name@ == k by {
            if k == spec.named_volumes@[i - 1].name@ {
                assert(spec.named_volumes@[i - 1].name@ == k);
            } else {
                assert(kv_get(declared@, k) == kv_get(before, k));
                if exists|j: int| 0 <= j < i && (#[trigger] spec.named_volumes@[j]).name@ == k {
                    let j = choose|j: int| 0 <= j < i && (#[trigger] spec.named_volumes@[j]).name@ == k;
                    assert(j < i - 1);
                }
            }
        }
    }
    assert(spec.named_volumes@.take(i as int) =~= spec.named_volumes@);

    let mut labels = application_route_labels(
        spec.name.as_str(),
        spec.routes.as_slice(),
        spec.middlewares.as_slice(),
        route_offset,
    );
    let ghost generated = strs(labels@);
    let mut i: usize = 0;
    while i < spec.labels.len()
        invariant
            i <= spec.labels@.len(),
            strs(labels@) == generated + strs(spec.labels@.take(i as int)),
        decreases spec.labels.len() - i,
    {
        labels.push(spec.labels[i].clone());
        i = i + 1;
        assert(strs(spec.labels@.take(i as int)) =~= strs(spec.labels@.take(i - 1)).push(
            spec.labels@[i - 1]@,
        ));
        assert(strs(labels@) =~= strs(labels@.drop_last()).push(labels@.last()@));
        assert(generated + strs(spec.labels@.take(i as int)) =~= (generated + strs(spec.labels@.take(i - 1))).push(
            spec.labels@[i - 1]@));
    }
    assert(spec.labels@.take(i as int) =~= spec.labels@);

    let healthcheck = match &spec.healthcheck {
        Some(h) => {
            let mut test: Vec<String> = Vec::new();
            test.push(String::from_str("CMD-SHELL"));
            test.push(h.command.clone());
            assert(strs(test@) =~= seq!["CMD-SHELL"@, h.command@]);
            Some(
                Healthcheck {
                    test,
                    interval: h.interval.clone(),
                    timeout: h.timeout.clone(),
                    start_period: match &h.start_period {
                        Some(p) => Some(p.clone()),
                        None => None,
                    },
                    retries: h.retries,
                },
            )
        },
        None => None,
    };
    let mut env_file: Vec<String> = Vec::new();
    env_file.push(String::from_str(".env"));
    assert(strs(env_file@) =~= seq![".env"@]);
    let environment: Vec<(String, String)> = Vec::new();
    let svc = Service {
        image,
        container_name: Some(String::from_str(container_name)),
        command: spec.command.clone(),
        restart: Some(String::from_str("unless-stopped")),
        network_mode,
        networks,
        ports,
        volumes,
        environment,
        env_file,
        labels,
        healthcheck,
        logging: None,
    };
    let services: Vec<(String, Service)> = Vec::new();
    let frag = Document { services, networks: net_defs, volumes: declared };
    Ok((svc, frag))
}

/// Generates a single-service application project.
pub fn generate_application(spec: &AppSpec) -> (r: Result<GeneratedStack, InvalidInput>)
    ensures
        match r {
            Ok(stack) => {
                &&& valid_app(*spec)
                &&& stack.name@ == spec.name@
                &&& stack.compose.services@.len() == 1
                &&& stack.compose.services@[0].0@ == spec.service@
                &&& built_service(
                    stack.compose.services@[0].1,
                    *spec,
                    0,
                    "nihility-"@ + spec.name@,
                )
                &&& built_fragment(stack.compose, *spec)
                &&& stack.env_file@ == env_file_text(spec.environment@)
                &&& stack.files@.len() == 0
            },
            Err(e) => !valid_app(*spec) && app_refusal(*spec, e.0@),
        },
{
    let container_name = cat("nihility-", spec.name.as_str());
    let (service, fragment) = build_service(spec, 0, container_name.as_str())?;
    let mut document = fragment;
    document.services.push((spec.service.clone(), service));
    let env_file = env_file_content(&spec.environment);
    Ok(GeneratedStack { name: spec.name.clone(), compose: document, env_file, files: Vec::new() })
}

/// `Path::join` on `/`-separated paths: an absolute `p` replaces `base`; a
/// separator goes between them unless `base` is empty or already ends with one.
pub open spec fn path_join(base: Seq<char>, p: Seq<char>) -> Seq<char> {
    if starts_with(p, "/"@) {
        p
    } else if base.len() == 0 {
        p
    } else if base.last() == '/' {
        base + p
    } else {
        base + "/"@ + p
    }
}

/// `Path::join` on `/`-separated paths.
pub fn join_path(base: &str, p: &str) -> (r: String)
    ensures
        r@ == path_join(base@, p@),
{
    if starts_with_slash(p) {
        return String::from_str(p);
    }
    let bc = chars_of(base);
    if bc.len() == 0 {
        return String::from_str(p);
    }
    if bc[bc.len() - 1] == '/' {
        return cat(base, p);
    }
    let mut s = String::from_str(base);
    s.append("/");
    s.append(p);
    s
}

/// Whether a static site specification yields a project.
pub open spec fn valid_static_site(s: StaticSiteSpec) -> bool {
    &&& s.assets@.len() > 0
    &&& valid_host(s.host@)
    &&& valid_stack_name(s.name@)
    &&& valid_image_version(s.nginx_version@)
}

/// The application that serves a static site.
pub fn static_site_app(spec: &StaticSiteSpec) -> (app: AppSpec)
    ensures
        app.name@ == spec.name@,
        app.service@ == "web"@,
        app.image@ == "nginx"@,
        app.version@ == spec.nginx_version@,
        app.command@.len() == 0,
        app.container_port == 80,
        app.routes@.len() == 1,
        app.routes@[0].host@ == spec.host@,
        app.routes@[0].path_prefix is None,
        app.routes@[0].container_port == 80,
        app.published_ports@.len() == 0,
        app.volumes@.len() == 1,
        app.volumes@[0].host_path@ == "./site"@,
        app.volumes@[0].container_path@ == "/usr/share/nginx/html"@,
        app.volumes@[0].read_only,
        app.environment@.len() == 0,
        app.network_mode is Bridge,
        app.middlewares@ == spec.middlewares@,
        app.labels@.len() == 0,
        app.named_volumes@.len() == 0,
        app.healthcheck is None,
{
    let mut routes: Vec<Route> = Vec::new();
    routes.push(Route { host: spec.host.clone(), path_prefix: None, container_port: 80 });
    let mut volumes: Vec<Volume> = Vec::new();
    volumes.push(
        Volume {
            host_path: String::from_str("./site"),
            container_path: String::from_str("/usr/share/nginx/html"),
            read_only: true,
        },
    );
    let mut middlewares: Vec<Middleware> = Vec::new();
    let mut i: usize = 0;
    while i < spec.middlewares.len()
        invariant
            i <= spec.middlewares@.len(),
            middlewares@ == spec.middlewares@.take(i as int),
        decreases spec.middlewares.len() - i,
    {
        middlewares.push(spec.middlewares[i]);
        i = i + 1;
        assert(middlewares@ =~= spec.middlewares@.take(i as int));
    }
    assert(spec.middlewares@.take(i as int) =~= spec.middlewares@);
    AppSpec {
        name: spec.name.clone(),
        service: String::from_str("web"),
        image: String::from_str("nginx"),
        version: spec.nginx_version.clone(),
        command: Vec::new(),
        container_port: 80,
        routes,
        published_ports: Vec::new(),
        volumes,
        environment: Vec::new(),
        network_mode: NetworkMode::Bridge,
        middlewares,
        labels: Vec::new(),
        named_volumes: Vec::new(),
        healthcheck: None,
    }
}

proof fn lemma_site_app_valid(spec: StaticSiteSpec, app: AppSpec)
    requires
        app.name@ == spec.name@,
        app.service@ == "web"@,
        app.image@ == "nginx"@,
        app.version@ == spec.nginx_version@,
        app.routes@.len() == 1,
        app.routes@[0].host@ == spec.host@,
        app.routes@[0].path_prefix is None,
        app.routes@[0].container_port == 80,
        app.volumes@.len() == 1,
        app.volumes@[0].host_path@ == "./site"@,
        app.volumes@[0].container_path@ == "/usr/share/nginx/html"@,
        app.environment@.len() == 0,
        app.network_mode is Bridge,
    ensures
        valid_app(app) <==> (valid_host(spec.host@) && valid_stack_name(spec.name@)
            && valid_image_version(spec.nginx_version@)),
        forall|m: Seq<char>|
            valid_host(spec.host@) && !valid_app(app) && #[trigger] app_refusal(app, m) ==> m == (
            if !valid_stack_name(spec.name@) {
                "项目名必须以小写字母开头，只能包含小写字母、数字、-、_，且不超过 63 个字符"@
            } else {
                "镜像版本不能使用 latest，且必须以字母、数字或下划线开头，只能包含字母、数字、点、下划线和连字符，且不超过 128 个字符"@
            }),
{
    reveal_strlit("web");
    reveal_strlit("nginx");
    reveal_strlit("./site");
    reveal_strlit("/usr/share/nginx/html");
    reveal_strlit("/");
    let n = "nginx"@;
    crate::text::lemma_find_char(n, '@');
    crate::names::lemma_rfind_char_none(n, '/');
    crate::names::lemma_rfind_char_none(n, ':');
    assert(n.skip(0) =~= n);
    assert(crate::names::image_repository(n) == Some(n));
    assert(!crate::text::is_blank(n)) by {
        assert(!crate::text::is_whitespace(n[0]));
    }
    assert(valid_image_repository(n));
    assert(valid_stack_name("web"@));
    assert(starts_with("/usr/share/nginx/html"@, "/"@)) by {
        assert("/usr/share/nginx/html"@.take(1) =~= "/"@);
    }
    assert(valid_volume(app.volumes@[0]));
    assert(forall|i: int| 0 <= i < app.volumes@.len() ==> valid_volume(#[trigger] app.volumes@[i]));
    if valid_host(spec.host@) {
        assert(valid_route(app.routes@[0]));
        assert(forall|i: int| 0 <= i < app.routes@.len() ==> valid_route(#[trigger] app.routes@[i]));
    }
    if valid_app(app) {
        assert(valid_route(app.routes@[0]));
    }
    assert(app_volumes_ok(app));
    assert(app_env_ok(app));
    assert(sorted_keys(app.environment@));
}

/// The service of a static site: Nginx at the requested version, the site mounted
/// read-only at its web root, and one route of the host to port 80.
pub open spec fn site_service(svc: Service, spec: StaticSiteSpec) -> bool {
    &&& svc.image@ == "nginx:"@ + spec.nginx_version@
    &&& (svc.container_name matches Some(c) && c@ == "nihility-"@ + spec.name@)
    &&& svc.command@.len() == 0
    &&& (svc.restart matches Some(r) && r@ == "unless-stopped"@)
    &&& svc.network_mode is None
    &&& strs(svc.networks@) == seq!["traefik"@]
    &&& svc.ports@.len() == 0
    &&& strs(svc.volumes@) == seq!["./site:/usr/share/nginx/html:ro"@]
    &&& svc.environment@.len() == 0
    &&& strs(svc.env_file@) == seq![".env"@]
    &&& strs(svc.labels@) == route_labels(
        spec.name@,
        seq![RouteView { host: spec.host@, path_prefix: None, container_port: 80 }],
        spec.middlewares@,
        0,
    )
    &&& svc.healthcheck is None
    &&& svc.logging is None
    &&& svc.wf()
}

proof fn lemma_site_service(svc: Service, spec: StaticSiteSpec, app: AppSpec)
    requires
        app.name@ == spec.name@,
        app.image@ == "nginx"@,
        app.version@ == spec.nginx_version@,
        app.command@.len() == 0,
        app.routes@.len() == 1,
        app.routes@[0].host@ == spec.host@,
        app.routes@[0].path_prefix is None,
        app.routes@[0].container_port == 80,
        app.published_ports@.len() == 0,
        app.volumes@.len() == 1,
        app.volumes@[0].host_path@ == "./site"@,
        app.volumes@[0].container_path@ == "/usr/share/nginx/html"@,
        app.volumes@[0].read_only,
        app.network_mode is Bridge,
        app.middlewares@ == spec.middlewares@,
        app.labels@.len() == 0,
        app.named_volumes@.len() == 0,
        app.healthcheck is None,
        built_service(svc, app, 0, "nihility-"@ + spec.name@),
    ensures
        site_service(svc, spec),
{
    reveal_strlit("nginx");
    reveal_strlit(":");
    reveal_strlit("nginx:");
    reveal_strlit("./site");
    reveal_strlit("/usr/share/nginx/html");
    reveal_strlit(":ro");
    reveal_strlit("./site:/usr/share/nginx/html:ro");
    assert("nginx"@ + ":"@ =~= "nginx:"@);
    assert(svc.image@ =~= "nginx:"@ + spec.nginx_version@);
    assert(volume_text(app.volumes@[0]) =~= "./site:/usr/share/nginx/html:ro"@);
    assert(app.volumes@.map_values(|v: Volume| volume_text(v)) =~= seq![
        "./site:/usr/share/nginx/html:ro"@,
    ]);
    assert(app.named_volumes@.map_values(|v: NamedVolume| named_volume_text(v)) =~= Seq::<
        Seq<char>,
    >::empty());
    assert(strs(svc.volumes@) =~= seq!["./site:/usr/share/nginx/html:ro"@]);
    assert(app.published_ports@.map_values(|p: PublishedPort| port_text(p)) =~= Seq::<
        Seq<char>,
    >::empty());
    assert(strs(svc.ports@).len() == 0);
    assert(routes_view(app.routes@) =~= seq![
        RouteView { host: spec.host@, path_prefix: None, container_port: 80 },
    ]);
    assert(strs(app.labels@) =~= Seq::<Seq<char>>::empty());
    assert(strs(svc.labels@) =~= route_labels(
        spec.name@,
        seq![RouteView { host: spec.host@, path_prefix: None, container_port: 80 }],
        spec.middlewares@,
        0,
    ));
    assert(strs(svc.networks@) =~= seq!["traefik"@]);
}

/// Why a static site specification is refused: no files, an invalid host, an
/// invalid project name, then an invalid Nginx version.
pub open spec fn site_error(s: StaticSiteSpec) -> Seq<char> {
    if s.assets@.len() == 0 {
        "静态站点至少需要一个文件"@
    } else if !valid_host(s.host@) {
        "域名格式无效: "@ + s.host@
    } else if !valid_stack_name(s.name@) {
        "项目名必须以小写字母开头，只能包含小写字母、数字、-、_，且不超过 63 个字符"@
    } else {
        "镜像版本不能使用 latest，且必须以字母、数字或下划线开头，只能包含字母、数字、点、下划线和连字符，且不超过 128 个字符"@
    }
}

/// Generates an Nginx static site project; its files go under `site/`.
pub fn generate_static_site(spec: &StaticSiteSpec) -> (r: Result<GeneratedStack, InvalidInput>)
    ensures
        match r {
            Ok(stack) => {
                &&& valid_static_site(*spec)
                &&& stack.name@ == spec.name@
                &&& stack.compose.services@.len() == 1
                &&& stack.compose.services@[0].0@ == "web"@
                &&& site_service(stack.compose.services@[0].1, *spec)
                &&& stack.env_file@.len() == 0
                &&& stack.files@.len() == spec.assets@.len()
                &&& forall|i: int|
                    0 <= i < stack.files@.len() ==> (#[trigger] stack.files@[i]).path@ == path_join(
                        "site"@,
                        spec.assets@[i].path@,
                    ) && stack.files@[i].content@ == spec.assets@[i].content@
                        && stack.files@[i].mode == 0o640
            },
            Err(e) => !valid_static_site(*spec) && e.0@ == site_error(*spec),
        },
{
    if spec.assets.len() == 0 {
        return Err(InvalidInput::new("静态站点至少需要一个文件"));
    }
    if !valid_host_exec(spec.host.as_str()) {
        let mut m = String::from_str("域名格式无效: ");
        m.append(spec.host.as_str());
        return Err(InvalidInput(m));
    }
    let app = static_site_app(spec);
    proof {
        lemma_site_app_valid(*spec, app);
    }
    let mut generated = generate_application(&app)?;
    proof {
        assert(generated.env_file@ =~= env_file_text(app.environment@));
        lemma_site_service(generated.compose.services@[0].1, *spec, app);
    }
    let mut files: Vec<GeneratedFile> = Vec::new();
    let mut i: usize = 0;
    while i < spec.assets.len()
        invariant
            i <= spec.assets@.len(),
            files@.len() == i,
            forall|j: int|
                0 <= j < i ==> (#[trigger] files@[j]).path@ == path_join(
                    "site"@,
                    spec.assets@[j].path@,
                ) && files@[j].content@ == spec.assets@[j].content@ && files@[j].mode == 0o640,
        decreases spec.assets.len() - i,
    {
        let p = &spec.assets[i].path;
        let path = if starts_with_slash(p.as_str()) {
            p.clone()
        } else {
            cat("site/", p.as_str())
        };
        proof {
            reveal_strlit("site/");
            reveal_strlit("site");
            reveal_strlit("/");
            assert("site/"@ =~= "site"@ + "/"@);
        }
        files.push(GeneratedFile { path, content: spec.assets[i].content.clone(), mode: 0o640 });
        i = i + 1;
    }
    generated.files = files;
    Ok(generated)
}

} // verus!
