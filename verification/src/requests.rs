//! Requests that clients send to the daemon, and their checked conversion into
//! generation parameters and edits.

use crate::edit::{ApplicationEdit, opt_chars};
use crate::error::{InvalidInput, first_failure};
use crate::gen::{valid_volume, strs};
use crate::kv::{kv_get, kv_get_exec, kv_insert, sorted_keys};
use crate::names::{valid_image_version, valid_image_version_exec};
use crate::text::{
    chars_of, has_char, has_char_exec, has_line_break_or_nul, has_line_break_or_nul_exec, is_blank,
    is_blank_exec, is_digit, is_lower, split_once, split_once_exec, starts_with, string_of,
};
use crate::types::{
    AppSpec, HealthcheckSpec, InfraSpec, Middleware, NamedVolume, NetworkMode, PortProtocol,
    PublishedPort, Route, RouteView, StaticAsset, StaticSiteSpec, Volume, route_view, routes_view,
};
use vstd::prelude::*;

verus! {

// ---------------------------------------------------------------------------
// Request types
// ---------------------------------------------------------------------------

/// Network mode of a request.
#[derive(Clone, Copy, Debug, PartialEq, Eq, Structural)]
pub enum RequestNetworkMode {
    /// Not given; the Compose bridge network.
    Unspecified,
    /// The Compose bridge network.
    Bridge,
    /// The host network.
    Host,
    /// A named external network.
    External,
}

/// Transport protocol of a requested port mapping.
#[derive(Clone, Copy, Debug, PartialEq, Eq, Structural)]
pub enum RequestProtocol {
    /// Not given; TCP.
    Unspecified,
    /// TCP.
    Tcp,
    /// UDP.
    Udp,
}

/// A middleware of a request.
#[derive(Clone, Copy, Debug, PartialEq, Eq, Structural)]
pub enum RequestMiddleware {
    /// Not given; refused.
    Unspecified,
    /// Response compression.
    Gzip,
    /// HTTPS forwarding headers.
    ForwardedHeaders,
    /// Private address allow list.
    InternalOnly,
}

/// A requested route; an empty prefix means none, a zero port the default port.
pub struct RouteRequest {
    /// Host name, or a single label under the configured domain.
    pub host: String,
    /// URL path prefix.
    pub path_prefix: String,
    /// Container port.
    pub container_port: u32,
}

/// A requested host port mapping.
pub struct PortRequest {
    /// Host port.
    pub host_port: u32,
    /// Container port.
    pub container_port: u32,
    /// Protocol.
    pub protocol: RequestProtocol,
}

/// A requested bind mount.
pub struct VolumeRequest {
    /// Host path.
    pub host_path: String,
    /// Container path.
    pub container_path: String,
    /// Whether the mount is read-only.
    pub read_only: bool,
}

/// A requested named volume.
pub struct NamedVolumeRequest {
    /// Volume name.
    pub name: String,
    /// Container path.
    pub container_path: String,
}

/// A requested environment variable.
pub struct EnvironmentVariable {
    /// Name.
    pub key: String,
    /// Value.
    pub value: String,
}

/// A requested health check; empty settings take their defaults.
pub struct HealthcheckRequest {
    /// Command.
    pub command: String,
    /// Interval, `30s` when empty.
    pub interval: String,
    /// Timeout, `30s` when empty.
    pub timeout: String,
    /// Start period.
    pub start_period: Option<String>,
    /// Retries, 3 when zero.
    pub retries: u32,
}

/// A request to create an application.
pub struct CreateApplicationRequest {
    /// Compose project name.
    pub name: String,
    /// Compose service name.
    pub service: String,
    /// Image repository.
    pub image: String,
    /// Image version tag.
    pub version: String,
    /// Command arguments.
    pub command: Vec<String>,
    /// Default container port.
    pub container_port: u32,
    /// Routes.
    pub routes: Vec<RouteRequest>,
    /// Host port mappings.
    pub published_ports: Vec<PortRequest>,
    /// Bind mounts.
    pub volumes: Vec<VolumeRequest>,
    /// Environment variables.
    pub environment: Vec<EnvironmentVariable>,
    /// Network mode.
    pub network_mode: RequestNetworkMode,
    /// External network name.
    pub external_network: String,
    /// Middlewares.
    pub middlewares: Vec<RequestMiddleware>,
    /// Custom labels, `KEY=VALUE`.
    pub labels: Vec<String>,
    /// Named volumes.
    pub named_volumes: Vec<NamedVolumeRequest>,
    /// Health check.
    pub healthcheck: Option<HealthcheckRequest>,
    /// Whether to add the service to an existing project.
    pub join: bool,
    /// Whether to start the application.
    pub start: bool,
    /// Whether to replace an existing project or service.
    pub force: bool,
}

/// A request to edit an application; absent settings stay as they are.
pub struct UpdateApplicationRequest {
    /// Compose project name.
    pub name: String,
    /// Compose service name.
    pub service: Option<String>,
    /// Image repository.
    pub image: Option<String>,
    /// Image version tag.
    pub version: Option<String>,
    /// Command arguments.
    pub command: Vec<String>,
    /// Default container port.
    pub container_port: Option<u32>,
    /// Routes.
    pub routes: Vec<RouteRequest>,
    /// Host port mappings.
    pub published_ports: Vec<PortRequest>,
    /// Bind mounts.
    pub volumes: Vec<VolumeRequest>,
    /// Environment variables.
    pub environment: Vec<EnvironmentVariable>,
    /// Network mode.
    pub network_mode: Option<RequestNetworkMode>,
    /// External network name.
    pub external_network: Option<String>,
    /// Middlewares.
    pub middlewares: Vec<RequestMiddleware>,
    /// Custom labels, `KEY=VALUE`.
    pub labels: Vec<String>,
    /// Named volumes.
    pub named_volumes: Vec<NamedVolumeRequest>,
    /// URL path prefix of every route.
    pub path_prefix: Option<String>,
    /// Host names to route.
    pub hosts: Vec<String>,
    /// Health check.
    pub healthcheck: Option<HealthcheckRequest>,
    /// Whether to remove the health check.
    pub remove_healthcheck: bool,
    /// Whether to start the application.
    pub start: bool,
}

/// A request to create the Traefik infrastructure; zero ports take the defaults.
pub struct InitializeInfrastructureRequest {
    /// Primary domain; the configured one when empty.
    pub domain: String,
    /// ACME notification address.
    pub acme_email: String,
    /// Cloudflare API token.
    pub cloudflare_token: String,
    /// Traefik version.
    pub traefik_version: String,
    /// Host HTTP port, 80 when zero.
    pub http_port: u32,
    /// Host HTTPS port, 443 when zero.
    pub https_port: u32,
    /// Whether to start the project.
    pub start: bool,
    /// Whether to replace an existing project.
    pub force: bool,
}

/// A request to create a static site.
pub struct CreateStaticSiteRequest {
    /// Compose project name.
    pub name: String,
    /// Host name, or a single label under the configured domain.
    pub host: String,
    /// Site files.
    pub assets: Vec<StaticAsset>,
    /// Middlewares.
    pub middlewares: Vec<RequestMiddleware>,
    /// Nginx version.
    pub nginx_version: String,
    /// Whether to start the project.
    pub start: bool,
    /// Whether to replace an existing project.
    pub force: bool,
}

// ---------------------------------------------------------------------------
// Specifications
// ---------------------------------------------------------------------------

/// A port number in `1..=65535`.
pub open spec fn valid_port(v: u32) -> bool {
    0 < v <= 65535
}

/// A single DNS label: lowercase letters, digits and `-`, at most 63 characters,
/// starting and ending with a letter or digit.
pub open spec fn valid_short_host(h: Seq<char>) -> bool {
    &&& 0 < h.len() <= 63
    &&& forall|i: int| 0 <= i < h.len() ==> is_lower(#[trigger] h[i]) || is_digit(h[i]) || h[i] == '-'
    &&& (is_lower(h[0]) || is_digit(h[0]))
    &&& (is_lower(h.last()) || is_digit(h.last()))
}

/// A host with a dot as given; a single label under `domain`.
pub open spec fn resolved_host(host: Seq<char>, domain: Seq<char>) -> Option<Seq<char>> {
    if has_char(host, '.') {
        Some(host)
    } else if valid_short_host(host) {
        Some(host + "."@ + domain)
    } else {
        None
    }
}

/// The middleware that a request names.
pub open spec fn middleware_of(m: RequestMiddleware) -> Option<Middleware> {
    match m {
        RequestMiddleware::Unspecified => None,
        RequestMiddleware::Gzip => Some(Middleware::Gzip),
        RequestMiddleware::ForwardedHeaders => Some(Middleware::ForwardedHeaders),
        RequestMiddleware::InternalOnly => Some(Middleware::InternalOnly),
    }
}

/// Whether every middleware is named.
pub open spec fn valid_middlewares(ms: Seq<RequestMiddleware>) -> bool {
    forall|i: int| 0 <= i < ms.len() ==> middleware_of(#[trigger] ms[i]) is Some
}

/// The middlewares that a request names.
pub open spec fn middlewares_of(ms: Seq<RequestMiddleware>) -> Seq<Middleware> {
    ms.map_values(|m: RequestMiddleware| middleware_of(m)->Some_0)
}

/// The protocol of a requested port mapping.
pub open spec fn protocol_of(p: RequestProtocol) -> PortProtocol {
    match p {
        RequestProtocol::Udp => PortProtocol::Udp,
        _ => PortProtocol::Tcp,
    }
}

/// Whether every requested port mapping has valid ports.
pub open spec fn valid_ports(ps: Seq<PortRequest>) -> bool {
    forall|i: int| 0 <= i < ps.len() ==> valid_port((#[trigger] ps[i]).host_port) && valid_port(ps[i].container_port)
}

/// Whether `out` holds the requested port mappings.
pub open spec fn ports_match(out: Seq<PublishedPort>, ps: Seq<PortRequest>) -> bool {
    &&& out.len() == ps.len()
    &&& forall|i: int|
        0 <= i < ps.len() ==> (#[trigger] out[i]).host_port == ps[i].host_port && out[i].container_port
            == ps[i].container_port && out[i].protocol == protocol_of(ps[i].protocol)
}

/// Whether a requested bind mount is valid.
pub open spec fn valid_volume_request(v: VolumeRequest) -> bool {
    valid_volume(Volume { host_path: v.host_path, container_path: v.container_path, read_only: v.read_only })
}

/// Whether `out` holds the requested bind mounts.
pub open spec fn volumes_match(out: Seq<Volume>, vs: Seq<VolumeRequest>) -> bool {
    &&& out.len() == vs.len()
    &&& forall|i: int|
        0 <= i < vs.len() ==> (#[trigger] out[i]).host_path@ == vs[i].host_path@ && out[i].container_path@
            == vs[i].container_path@ && out[i].read_only == vs[i].read_only
}

/// A valid named volume name: lowercase letters, digits, `-`, `_` and `.`, at most
/// 63 characters.
pub open spec fn valid_volume_name(n: Seq<char>) -> bool {
    &&& 0 < n.len() <= 63
    &&& forall|i: int|
        0 <= i < n.len() ==> is_lower(#[trigger] n[i]) || is_digit(n[i]) || n[i] == '-' || n[i] == '_'
            || n[i] == '.'
}

/// Whether a requested named volume is valid.
pub open spec fn valid_named_volume_request(v: NamedVolumeRequest) -> bool {
    &&& valid_volume_name(v.name@)
    &&& starts_with(v.container_path@, "/"@)
    &&& !has_line_break_or_nul(v.container_path@)
}

/// Whether `out` holds the requested named volumes.
pub open spec fn named_volumes_match(out: Seq<NamedVolume>, vs: Seq<NamedVolumeRequest>) -> bool {
    &&& out.len() == vs.len()
    &&& forall|i: int|
        0 <= i < vs.len() ==> (#[trigger] out[i]).name@ == vs[i].name@ && out[i].container_path@
            == vs[i].container_path@
}

/// Whether some variable name occurs twice.
pub open spec fn has_duplicate_key(vars: Seq<EnvironmentVariable>) -> bool {
    exists|i: int, j: int| 0 <= i < j < vars.len() && (#[trigger] vars[i]).key@ == (#[trigger] vars[j]).key@
}

/// The value of the variable named `k`.
pub open spec fn env_value(vars: Seq<EnvironmentVariable>, k: Seq<char>) -> Option<Seq<char>>
    decreases vars.len(),
{
    if vars.len() == 0 {
        None
    } else if vars.last().key@ == k {
        Some(vars.last().value@)
    } else {
        env_value(vars.drop_last(), k)
    }
}

/// Whether an optional string holds the optional characters.
pub open spec fn same_text(a: Option<String>, b: Option<Seq<char>>) -> bool {
    match (a, b) {
        (Some(x), Some(y)) => x@ == y,
        (None, None) => true,
        _ => false,
    }
}

/// Whether the sorted map `m` holds exactly the variables.
pub open spec fn env_matches(m: Seq<(String, String)>, vars: Seq<EnvironmentVariable>) -> bool {
    &&& sorted_keys(m)
    &&& forall|k: Seq<char>| #[trigger] same_text(kv_get(m, k), env_value(vars, k))
}

/// The key of a custom label.
pub open spec fn label_key(l: Seq<char>) -> Seq<char> {
    match split_once(l, '=') {
        Some((k, _)) => k,
        None => l,
    }
}

/// Whether the custom labels are `KEY=VALUE` with a non-blank key, both on one line,
/// and no key twice.
pub open spec fn valid_custom_labels(ls: Seq<Seq<char>>) -> bool {
    &&& forall|i: int|
        0 <= i < ls.len() ==> match split_once(#[trigger] ls[i], '=') {
            Some((k, v)) => !is_blank(k) && !has_line_break_or_nul(k) && !has_line_break_or_nul(v),
            None => false,
        }
    &&& forall|i: int, j: int| 0 <= i < j < ls.len() ==> label_key(#[trigger] ls[i]) != label_key(#[trigger] ls[j])
}

/// Whether a duration setting is free of line breaks, NUL and spaces.
pub open spec fn plain_duration(v: Seq<char>) -> bool {
    !has_line_break_or_nul(v) && !has_char(v, ' ')
}

/// `v`, or `default` when `v` is empty.
pub open spec fn or_default(v: Seq<char>, default: Seq<char>) -> Seq<char> {
    if v.len() == 0 {
        default
    } else {
        v
    }
}

/// Whether a requested health check is valid.
pub open spec fn valid_healthcheck_request(h: HealthcheckRequest) -> bool {
    &&& !is_blank(h.command@)
    &&& !has_line_break_or_nul(h.command@)
    &&& plain_duration(or_default(h.interval@, "30s"@))
    &&& plain_duration(or_default(h.timeout@, "30s"@))
    &&& match h.start_period {
        Some(p) => plain_duration(p@),
        None => true,
    }
}

/// Whether `out` is the requested health check with its defaults filled in.
pub open spec fn healthcheck_matches(out: HealthcheckSpec, h: HealthcheckRequest) -> bool {
    &&& out.command@ == h.command@
    &&& out.interval@ == or_default(h.interval@, "30s"@)
    &&& out.timeout@ == or_default(h.timeout@, "30s"@)
    &&& opt_chars(out.start_period) == match h.start_period {
        Some(p) => if p@.len() == 0 {
            None
        } else {
            Some(p@)
        },
        None => None,
    }
    &&& out.retries == if h.retries == 0 {
        3
    } else {
        h.retries
    }
}

/// Whether `out` is the optional requested health check.
pub open spec fn opt_healthcheck_matches(out: Option<HealthcheckSpec>, h: Option<HealthcheckRequest>) -> bool {
    match (out, h) {
        (Some(o), Some(r)) => healthcheck_matches(o, r),
        (None, None) => true,
        _ => false,
    }
}

/// Whether an optional health check request is valid.
pub open spec fn valid_opt_healthcheck(h: Option<HealthcheckRequest>) -> bool {
    match h {
        Some(r) => valid_healthcheck_request(r),
        None => true,
    }
}

/// The port of a requested route: its own, or `default` when zero.
pub open spec fn route_port(r: RouteRequest, default: u32) -> u32 {
    if r.container_port == 0 {
        default
    } else {
        r.container_port
    }
}

/// The prefix of a requested route: none when empty.
pub open spec fn route_prefix(r: RouteRequest) -> Option<Seq<char>> {
    if r.path_prefix@.len() == 0 {
        None
    } else {
        Some(r.path_prefix@)
    }
}

/// Whether every requested route resolves and has a valid port.
pub open spec fn valid_route_requests(rs: Seq<RouteRequest>, default: u32, domain: Seq<char>) -> bool {
    forall|i: int|
        0 <= i < rs.len() ==> resolved_host((#[trigger] rs[i]).host@, domain) is Some && valid_port(
            route_port(rs[i], default),
        )
}

/// The routes that the requests describe.
pub open spec fn routes_of(rs: Seq<RouteRequest>, default: u32, domain: Seq<char>) -> Seq<RouteView> {
    rs.map_values(
        |r: RouteRequest|
            RouteView {
                host: resolved_host(r.host@, domain)->Some_0,
                path_prefix: route_prefix(r),
                container_port: route_port(r, default) as nat,
            },
    )
}

/// Whether a creation request's network mode is usable: an external network needs a
/// name.
pub open spec fn valid_network(mode: RequestNetworkMode, external: Seq<char>) -> bool {
    mode == RequestNetworkMode::External ==> external.len() > 0
}

/// Whether `out` is the network mode that a request names.
pub open spec fn network_matches(out: NetworkMode, mode: RequestNetworkMode, external: Seq<char>) -> bool {
    match mode {
        RequestNetworkMode::Host => out is Host,
        RequestNetworkMode::External => (out matches NetworkMode::External(n) && n@ == external),
        _ => out is Bridge,
    }
}


/// Whether an edit request's path prefix is usable: it starts with `/` and has no
/// backquote or line break.
pub open spec fn valid_edit_prefix(p: Seq<char>) -> bool {
    starts_with(p, "/"@) && !has_char(p, '`') && !has_char(p, '\n') && !has_char(p, '\r')
}

// ---------------------------------------------------------------------------
// Error messages
// ---------------------------------------------------------------------------

/// The message of a refused short host name.
pub open spec fn host_error(h: Seq<char>) -> Seq<char> {
    "短子域名格式无效: "@ + h
}

/// The message of a port out of range, named by `label`.
pub open spec fn port_error(label: Seq<char>) -> Seq<char> {
    label + "必须在 1..=65535 范围内"@
}

/// Whether route `i` of a creation request fails.
pub open spec fn route_fails(rs: Seq<RouteRequest>, default: u32, domain: Seq<char>) -> spec_fn(int) -> bool {
    |i: int| !(resolved_host(rs[i].host@, domain) is Some && valid_port(route_port(rs[i], default)))
}

/// Why route `i` of a creation request fails.
pub open spec fn route_message(rs: Seq<RouteRequest>, domain: Seq<char>) -> spec_fn(int) -> Seq<char> {
    |i: int|
        if resolved_host(rs[i].host@, domain) is None {
            host_error(rs[i].host@)
        } else if rs[i].container_port == 0 {
            port_error("容器端口"@)
        } else {
            port_error("路由容器端口"@)
        }
}

/// Whether route `i` of an edit request fails.
pub open spec fn edit_route_fails(rs: Seq<RouteRequest>, cp: Option<u32>, domain: Seq<char>) -> spec_fn(int) -> bool {
    |i: int|
        !(resolved_host(rs[i].host@, domain) is Some && if rs[i].container_port == 0 {
            cp is Some
        } else {
            valid_port(rs[i].container_port)
        })
}

/// Why route `i` of an edit request fails.
pub open spec fn edit_route_message(rs: Seq<RouteRequest>, domain: Seq<char>) -> spec_fn(int) -> Seq<char> {
    |i: int|
        if resolved_host(rs[i].host@, domain) is None {
            host_error(rs[i].host@)
        } else if rs[i].container_port == 0 {
            "配置 HTTP 路由时必须指定容器端口"@
        } else {
            port_error("路由容器端口"@)
        }
}

/// Whether host `i` fails to resolve.
pub open spec fn host_fails(hs: Seq<String>, domain: Seq<char>) -> spec_fn(int) -> bool {
    |i: int| resolved_host(hs[i]@, domain) is None
}

/// Why host `i` fails.
pub open spec fn host_message(hs: Seq<String>) -> spec_fn(int) -> Seq<char> {
    |i: int| host_error(hs[i]@)
}

/// Whether port mapping `i` fails.
pub open spec fn port_fails(ps: Seq<PortRequest>) -> spec_fn(int) -> bool {
    |i: int| !(valid_port(ps[i].host_port) && valid_port(ps[i].container_port))
}

/// Why port mapping `i` fails: its host port first.
pub open spec fn port_message(ps: Seq<PortRequest>) -> spec_fn(int) -> Seq<char> {
    |i: int|
        if !valid_port(ps[i].host_port) {
            port_error("宿主机端口"@)
        } else {
            port_error("容器端口"@)
        }
}

/// Whether variable `i` repeats an earlier name.
pub open spec fn env_fails(vars: Seq<EnvironmentVariable>) -> spec_fn(int) -> bool {
    |i: int| exists|j: int| 0 <= j < i && (#[trigger] vars[j]).key@ == vars[i].key@
}

/// The message of a repeated variable name.
pub open spec fn env_message(vars: Seq<EnvironmentVariable>) -> spec_fn(int) -> Seq<char> {
    |i: int| "环境变量重复: "@ + vars[i].key@
}

/// Whether a custom label's parts are usable.
pub open spec fn label_parts_ok(k: Seq<char>, v: Seq<char>) -> bool {
    !is_blank(k) && !has_line_break_or_nul(k) && !has_line_break_or_nul(v)
}

/// Whether custom label `i` fails: no `=`, unusable parts, or a key given earlier.
pub open spec fn label_fails(ls: Seq<Seq<char>>) -> spec_fn(int) -> bool {
    |i: int|
        match split_once(ls[i], '=') {
            Some((k, v)) => !label_parts_ok(k, v) || exists|j: int|
                0 <= j < i && label_key(#[trigger] ls[j]) == k,
            None => true,
        }
}

/// Why custom label `i` fails.
pub open spec fn label_message(ls: Seq<Seq<char>>) -> spec_fn(int) -> Seq<char> {
    |i: int|
        match split_once(ls[i], '=') {
            Some((k, v)) => if !label_parts_ok(k, v) {
                "自定义标签 "@ + k + " 的名称或值无效"@
            } else {
                "自定义标签重复: "@ + k
            },
            None => "自定义标签格式必须为 KEY=VALUE"@,
        }
}

/// Why a requested health check is refused: the first of its settings that fails.
pub open spec fn healthcheck_error(h: HealthcheckRequest) -> Seq<char> {
    if is_blank(h.command@) || has_line_break_or_nul(h.command@) {
        "健康检查命令不能为空或包含控制字符"@
    } else if !plain_duration(or_default(h.interval@, "30s"@)) {
        "健康检查间隔格式无效: "@ + or_default(h.interval@, "30s"@)
    } else if !plain_duration(or_default(h.timeout@, "30s"@)) {
        "健康检查超时格式无效: "@ + or_default(h.timeout@, "30s"@)
    } else {
        "健康检查启动宽限期格式无效: "@ + h.start_period->0@
    }
}

/// Why the lists shared by creation and edit requests are refused, checked in the
/// order ports, bind mounts, variables, middlewares, labels, named volumes, health
/// check.
pub open spec fn lists_error(
    ports: Seq<PortRequest>,
    volumes: Seq<VolumeRequest>,
    env: Seq<EnvironmentVariable>,
    ms: Seq<RequestMiddleware>,
    labels: Seq<Seq<char>>,
    named: Seq<NamedVolumeRequest>,
    h: Option<HealthcheckRequest>,
    m: Seq<char>,
) -> bool {
    if !valid_ports(ports) {
        first_failure(ports.len() as int, port_fails(ports), port_message(ports), m)
    } else if !valid_volume_requests(volumes) {
        m == "卷挂载路径无效"@
    } else if has_duplicate_key(env) {
        first_failure(env.len() as int, env_fails(env), env_message(env), m)
    } else if !valid_middlewares(ms) {
        m == "中间件类型不能为未指定"@
    } else if !valid_custom_labels(labels) {
        first_failure(labels.len() as int, label_fails(labels), label_message(labels), m)
    } else if !valid_named_volume_requests(named) {
        m == "命名卷名称或容器路径无效"@
    } else {
        m == healthcheck_error(h->0)
    }
}

/// Why a creation request is refused: the first check that fails.
pub open spec fn create_request_error(r: CreateApplicationRequest, domain: Seq<char>, m: Seq<char>) -> bool {
    if !valid_network(r.network_mode, r.external_network@) {
        m == "external 网络模式必须指定网络名"@
    } else if !valid_port(r.container_port) {
        m == port_error("容器端口"@)
    } else if !valid_route_requests(r.routes@, r.container_port, domain) {
        first_failure(
            r.routes@.len() as int,
            route_fails(r.routes@, r.container_port, domain),
            route_message(r.routes@, domain),
            m,
        )
    } else {
        lists_error(
            r.published_ports@,
            r.volumes@,
            r.environment@,
            r.middlewares@,
            strs(r.labels@),
            r.named_volumes@,
            r.healthcheck,
            m,
        )
    }
}

/// Why an edit request is refused: the first check that fails.
pub open spec fn edit_request_error(r: UpdateApplicationRequest, domain: Seq<char>, m: Seq<char>) -> bool {
    if r.network_mode == Some(RequestNetworkMode::External) && !(r.external_network matches Some(n)
        && n@.len() > 0) {
        m == "external 网络模式必须指定网络名"@
    } else if !valid_edit_network(r.network_mode, r.external_network) {
        m == "--external-network 只能与 --network external 一起使用"@
    } else if r.container_port matches Some(p) && !valid_port(p) {
        m == port_error("容器端口"@)
    } else if r.version matches Some(v) && !valid_image_version(v@) {
        m
            == "镜像版本不能使用 latest，且必须以字母、数字或下划线开头，只能包含字母、数字、点、下划线和连字符，且不超过 128 个字符"@
    } else if r.path_prefix matches Some(p) && !valid_edit_prefix(p@) {
        m == "路由路径必须以 / 开头且不能包含控制字符"@
    } else if !valid_edit_routes(r.routes@, r.container_port, domain) {
        first_failure(
            r.routes@.len() as int,
            edit_route_fails(r.routes@, r.container_port, domain),
            edit_route_message(r.routes@, domain),
            m,
        )
    } else if !valid_hosts(r.hosts@, domain) {
        first_failure(r.hosts@.len() as int, host_fails(r.hosts@, domain), host_message(r.hosts@), m)
    } else {
        lists_error(
            r.published_ports@,
            r.volumes@,
            r.environment@,
            r.middlewares@,
            strs(r.labels@),
            r.named_volumes@,
            r.healthcheck,
            m,
        )
    }
}

// ---------------------------------------------------------------------------
// Lemmas
// ---------------------------------------------------------------------------

proof fn lemma_env_value(vars: Seq<EnvironmentVariable>, k: Seq<char>)
    ensures
        env_value(vars, k) is Some <==> exists|j: int| 0 <= j < vars.len() && (#[trigger] vars[j]).key@ == k,
    decreases vars.len(),
{
    if vars.len() > 0 {
        lemma_env_value(vars.drop_last(), k);
        if env_value(vars.drop_last(), k) is Some {
            let j = choose|j: int| 0 <= j < vars.drop_last().len() && (#[trigger] vars.drop_last()[j]).key@ == k;
            assert(vars[j] == vars.drop_last()[j]);
        }
        if exists|j: int| 0 <= j < vars.len() && (#[trigger] vars[j]).key@ == k {
            let j = choose|j: int| 0 <= j < vars.len() && (#[trigger] vars[j]).key@ == k;
            if j < vars.len() - 1 {
                assert(vars.drop_last()[j] == vars[j]);
            }
        }
    }
}

// ---------------------------------------------------------------------------
// Conversions
// ---------------------------------------------------------------------------

/// A requested port narrowed to `1..=65535`; the error names the port by `label`.
pub fn checked_port(value: u32, label: &str) -> (r: Result<u16, InvalidInput>)
    ensures
        match r {
            Ok(p) => valid_port(value) && p == value,
            Err(e) => !valid_port(value) && e.0@ == label@ + "必须在 1..=65535 范围内"@,
        },
{
    if value == 0 || value > 65535 {
        let mut m = String::from_str(label);
        m.append("必须在 1..=65535 范围内");
        Err(InvalidInput(m))
    } else {
        Ok(value as u16)
    }
}

/// Resolving a resolved host changes nothing: a short name is expanded once, and a
/// full name is kept as given.
pub proof fn law_resolve_host_idempotent(host: Seq<char>, domain: Seq<char>)
    requires
        resolved_host(host, domain) is Some,
    ensures
        resolved_host(resolved_host(host, domain)->0, domain) == resolved_host(host, domain),
{
    if !has_char(host, '.') {
        reveal_strlit(".");
        let full = host + "."@ + domain;
        assert(full[host.len() as int] == '.');
    }
}

/// The error of a refused short host name.
fn host_invalid(host: &str) -> (e: InvalidInput)
    ensures
        e.0@ == host_error(host@),
{
    let mut m = String::from_str("短子域名格式无效: ");
    m.append(host);
    InvalidInput(m)
}

/// A host as given when it has a dot; a single label expanded under `domain`.
pub fn resolve_host(host: &str, domain: &str) -> (r: Result<String, InvalidInput>)
    ensures
        match r {
            Ok(h) => resolved_host(host@, domain@) == Some(h@),
            Err(e) => resolved_host(host@, domain@) is None && e.0@ == host_error(host@),
        },
{
    let cs = chars_of(host);
    if has_char_exec(&cs, '.') {
        return Ok(String::from_str(host));
    }
    if cs.len() == 0 || cs.len() > 63 {
        return Err(host_invalid(host));
    }
    let mut i: usize = 0;
    while i < cs.len()
        invariant
            i <= cs@.len(),
            cs@ == host@,
            !has_char(host@, '.'),
            forall|j: int| 0 <= j < i ==> is_lower(#[trigger] cs@[j]) || is_digit(cs@[j]) || cs@[j] == '-',
        decreases cs.len() - i,
    {
        let c = cs[i];
        if !(('a' <= c && c <= 'z') || ('0' <= c && c <= '9') || c == '-') {
            return Err(host_invalid(host));
        }
        i = i + 1;
    }
    let first = cs[0];
    let last = cs[cs.len() - 1];
    if first == '-' || last == '-' {
        return Err(host_invalid(host));
    }
    let mut out = String::from_str(host);
    out.append(".");
    out.append(domain);
    Ok(out)
}

/// The middleware that a request names; unspecified ones are refused.
pub fn middleware_from_proto(m: RequestMiddleware) -> (r: Result<Middleware, InvalidInput>)
    ensures
        match r {
            Ok(x) => middleware_of(m) == Some(x),
            Err(e) => middleware_of(m) is None && e.0@ == "中间件类型不能为未指定"@,
        },
{
    match m {
        RequestMiddleware::Unspecified => Err(InvalidInput::new("中间件类型不能为未指定")),
        RequestMiddleware::Gzip => Ok(Middleware::Gzip),
        RequestMiddleware::ForwardedHeaders => Ok(Middleware::ForwardedHeaders),
        RequestMiddleware::InternalOnly => Ok(Middleware::InternalOnly),
    }
}

/// The middlewares that a request names.
fn middlewares_from_proto(ms: &Vec<RequestMiddleware>) -> (r: Result<Vec<Middleware>, InvalidInput>)
    ensures
        match r {
            Ok(v) => valid_middlewares(ms@) && v@ == middlewares_of(ms@),
            Err(e) => !valid_middlewares(ms@) && e.0@ == "中间件类型不能为未指定"@,
        },
{
    let mut out: Vec<Middleware> = Vec::new();
    let mut i: usize = 0;
    while i < ms.len()
        invariant
            i <= ms@.len(),
            out@ == middlewares_of(ms@.take(i as int)),
            valid_middlewares(ms@.take(i as int)),
        decreases ms.len() - i,
    {
        let m = middleware_from_proto(ms[i])?;
        out.push(m);
        assert(ms@.take(i + 1) =~= ms@.take(i as int).push(ms@[i as int]));
        assert(out@ =~= middlewares_of(ms@.take(i + 1)));
        i = i + 1;
    }
    assert(ms@.take(i as int) =~= ms@);
    Ok(out)
}

/// The variables as a sorted map; a name given twice is refused.
pub fn environment_map(vars: &Vec<EnvironmentVariable>) -> (r: Result<Vec<(String, String)>, InvalidInput>)
    ensures
        match r {
            Ok(m) => !has_duplicate_key(vars@) && env_matches(m@, vars@),
            Err(e) => has_duplicate_key(vars@) && first_failure(
                vars@.len() as int,
                env_fails(vars@),
                env_message(vars@),
                e.0@,
            ),
        },
{
    let mut m: Vec<(String, String)> = Vec::new();
    let mut i: usize = 0;
    assert(vars@.take(0) =~= Seq::<EnvironmentVariable>::empty());
    while i < vars.len()
        invariant
            i <= vars@.len(),
            !has_duplicate_key(vars@.take(i as int)),
            sorted_keys(m@),
            forall|k: Seq<char>| #[trigger] same_text(kv_get(m@, k), env_value(vars@.take(i as int), k)),
        decreases vars.len() - i,
    {
        let ghost t = vars@.take(i as int);
        let ghost t1 = vars@.take(i + 1);
        assert(t1.drop_last() =~= t);
        assert(t1.last() == vars@[i as int]);
        let key = &vars[i].key;
        match kv_get_exec(&m, key.as_str()) {
            Some(_) => {
                proof {
                    assert(same_text(kv_get(m@, key@), env_value(t, key@)));
                    lemma_env_value(t, key@);
                    let j = choose|j: int| 0 <= j < t.len() && (#[trigger] t[j]).key@ == key@;
                    assert(vars@[j] == t[j]);
                    assert(has_duplicate_key(vars@));
                    let f = env_fails(vars@);
                    assert(f(i as int));
                    assert forall|a: int| 0 <= a < i implies !#[trigger] f(a) by {
                        if f(a) {
                            let b = choose|b: int| 0 <= b < a && (#[trigger] vars@[b]).key@ == vars@[a].key@;
                            assert(t[b] == vars@[b]);
                            assert(t[a] == vars@[a]);
                        }
                    }
                }
                let mut message = String::from_str("环境变量重复: ");
                message.append(key.as_str());
                return Err(InvalidInput(message));
            },
            None => {
                proof {
                    assert(same_text(kv_get(m@, key@), env_value(t, key@)));
                    lemma_env_value(t, key@);
                    assert forall|a: int, b: int| 0 <= a < b < t1.len() implies (#[trigger] t1[a]).key@
                        != (#[trigger] t1[b]).key@ by {
                        if b < t.len() {
                            assert(t1[a] == t[a]);
                            assert(t1[b] == t[b]);
                        } else {
                            assert(t1[a] == t[a]);
                        }
                    }
                }
                let ghost before = m@;
                kv_insert(&mut m, key.clone(), vars[i].value.clone());
                proof {
                    assert forall|k: Seq<char>| #[trigger] same_text(kv_get(m@, k), env_value(t1, k)) by {
                        if k != key@ {
                            assert(kv_get(m@, k) == kv_get(before, k));
                            assert(same_text(kv_get(before, k), env_value(t, k)));
                            assert(env_value(t1, k) == env_value(t, k));
                        } else {
                            assert(env_value(t1, k) == Some(vars@[i as int].value@));
                        }
                    }
                }
            },
        }
        i = i + 1;
    }
    assert(vars@.take(i as int) =~= vars@);
    Ok(m)
}

/// The custom labels, checked: `KEY=VALUE`, a non-blank key, both on one line, and no
/// key twice.
pub fn custom_labels(labels: &Vec<String>) -> (r: Result<Vec<String>, InvalidInput>)
    ensures
        match r {
            Ok(v) => valid_custom_labels(strs(labels@)) && strs(v@) == strs(labels@),
            Err(e) => !valid_custom_labels(strs(labels@)) && first_failure(
                labels@.len() as int,
                label_fails(strs(labels@)),
                label_message(strs(labels@)),
                e.0@,
            ),
        },
{
    let ghost ls = strs(labels@);
    let mut keys: Vec<Vec<char>> = Vec::new();
    let mut out: Vec<String> = Vec::new();
    let mut i: usize = 0;
    while i < labels.len()
        invariant
            i <= labels@.len(),
            ls == strs(labels@),
            ls.len() == labels@.len(),
            keys@.len() == i,
            forall|j: int| 0 <= j < i ==> (#[trigger] keys@[j])@ == label_key(ls[j]),
            valid_custom_labels(ls.take(i as int)),
            strs(out@) == ls.take(i as int),
        decreases labels.len() - i,
    {
        let cs = chars_of(labels[i].as_str());
        assert(cs@ == ls[i as int]);
        let ghost f = label_fails(ls);
        proof {
            assert forall|a: int| 0 <= a < i implies !#[trigger] f(a) by {
                let t = ls.take(i as int);
                assert(t[a] == ls[a]);
                assert forall|b: int| 0 <= b < a implies label_key(#[trigger] ls[b]) != label_key(ls[a]) by {
                    assert(t[b] == ls[b]);
                }
            }
        }
        match split_once_exec(&cs, '=') {
            Some((k, v)) => {
                if is_blank_exec(&k) || has_line_break_or_nul_exec(&k) || has_line_break_or_nul_exec(&v) {
                    proof {
                        assert(ls.take(i + 1)[i as int] == ls[i as int]);
                        assert(f(i as int));
                    }
                    let mut message = String::from_str("自定义标签 ");
                    message.append(string_of(&k).as_str());
                    message.append(" 的名称或值无效");
                    return Err(InvalidInput(message));
                }
                assert(label_key(ls[i as int]) == k@);
                let mut j: usize = 0;
                while j < keys.len()
                    invariant
                        ls == strs(labels@),
                        ls.len() == labels@.len(),
                        i < labels@.len(),
                        label_key(ls[i as int]) == k@,
                        split_once(ls[i as int], '=') == Some((k@, v@)),
                        label_parts_ok(k@, v@),
                        f == label_fails(ls),
                        forall|a: int| 0 <= a < i ==> !#[trigger] f(a),
                        j <= keys@.len() == i,
                        forall|m: int| 0 <= m < i ==> (#[trigger] keys@[m])@ == label_key(ls[m]),
                        forall|m: int| 0 <= m < j ==> label_key(ls[m]) != k@,
                    decreases keys.len() - j,
                {
                    if crate::text::chars_eq(&keys[j], &k) {
                        proof {
                            assert(label_key(ls[j as int]) == label_key(ls[i as int]));
                            assert(f(i as int));
                        }
                        let mut message = String::from_str("自定义标签重复: ");
                        message.append(string_of(&k).as_str());
                        return Err(InvalidInput(message));
                    }
                    j = j + 1;
                }
                proof {
                    let t1 = ls.take(i + 1);
                    assert forall|a: int| 0 <= a < t1.len() implies match split_once(#[trigger] t1[a], '=') {
                        Some((kk, vv)) => !is_blank(kk) && !has_line_break_or_nul(kk) && !has_line_break_or_nul(vv),
                        None => false,
                    } by {
                        if a < i {
                            assert(t1[a] == ls.take(i as int)[a]);
                        }
                    }
                    assert forall|a: int, b: int| 0 <= a < b < t1.len() implies label_key(#[trigger] t1[a])
                        != label_key(#[trigger] t1[b]) by {
                        if b < i {
                            assert(t1[a] == ls.take(i as int)[a]);
                            assert(t1[b] == ls.take(i as int)[b]);
                        }
                    }
                }
                keys.push(k);
                let ghost before = out@;
                let copy = labels[i].clone();
                assert(copy@ == ls[i as int]);
                out.push(copy);
                assert(strs(out@) =~= strs(before).push(copy@));
                assert(ls.take(i + 1) =~= ls.take(i as int).push(ls[i as int]));
            },
            None => {
                proof {
                    assert(ls.take(i + 1)[i as int] == ls[i as int]);
                    assert(f(i as int));
                }
                return Err(InvalidInput::new("自定义标签格式必须为 KEY=VALUE"));
            },
        }
        i = i + 1;
    }
    assert(ls.take(i as int) =~= ls);
    Ok(out)
}


/// Whether every requested named volume is valid.
pub open spec fn valid_named_volume_requests(vs: Seq<NamedVolumeRequest>) -> bool {
    forall|i: int| 0 <= i < vs.len() ==> valid_named_volume_request(#[trigger] vs[i])
}

/// Whether every requested bind mount is valid.
pub open spec fn valid_volume_requests(vs: Seq<VolumeRequest>) -> bool {
    forall|i: int| 0 <= i < vs.len() ==> valid_volume_request(#[trigger] vs[i])
}

fn valid_volume_name_exec(n: &str) -> (r: bool)
    ensures
        r == valid_volume_name(n@),
{
    let cs = chars_of(n);
    if cs.len() == 0 || cs.len() > 63 {
        return false;
    }
    let mut i: usize = 0;
    while i < cs.len()
        invariant
            i <= cs@.len(),
            cs@ == n@,
            forall|j: int|
                0 <= j < i ==> is_lower(#[trigger] cs@[j]) || is_digit(cs@[j]) || cs@[j] == '-' || cs@[j]
                    == '_' || cs@[j] == '.',
        decreases cs.len() - i,
    {
        let c = cs[i];
        if !(('a' <= c && c <= 'z') || ('0' <= c && c <= '9') || c == '-' || c == '_' || c == '.') {
            return false;
        }
        i = i + 1;
    }
    true
}

/// Whether a path starts with `/`.
fn starts_with_slash(p: &str) -> (r: bool)
    ensures
        r == starts_with(p@, "/"@),
{
    let cs = chars_of(p);
    let slash = chars_of("/");
    crate::text::starts_with_exec(&cs, &slash)
}

/// The requested named volumes, checked.
pub fn named_volumes(input: &Vec<NamedVolumeRequest>) -> (r: Result<Vec<NamedVolume>, InvalidInput>)
    ensures
        match r {
            Ok(v) => valid_named_volume_requests(input@) && named_volumes_match(v@, input@),
            Err(e) => !valid_named_volume_requests(input@) && e.0@ == "命名卷名称或容器路径无效"@,
        },
{
    let mut out: Vec<NamedVolume> = Vec::new();
    let mut i: usize = 0;
    while i < input.len()
        invariant
            i <= input@.len(),
            out@.len() == i,
            forall|j: int| 0 <= j < i ==> valid_named_volume_request(#[trigger] input@[j]),
            forall|j: int|
                0 <= j < i ==> (#[trigger] out@[j]).name@ == input@[j].name@ && out@[j].container_path@
                    == input@[j].container_path@,
        decreases input.len() - i,
    {
        let v = &input[i];
        let path = chars_of(v.container_path.as_str());
        if !valid_volume_name_exec(v.name.as_str()) || !starts_with_slash(v.container_path.as_str())
            || has_line_break_or_nul_exec(&path) {
            return Err(InvalidInput::new("命名卷名称或容器路径无效"));
        }
        out.push(NamedVolume { name: v.name.clone(), container_path: v.container_path.clone() });
        i = i + 1;
    }
    Ok(out)
}

/// The requested bind mounts, checked.
pub fn application_volumes(input: &Vec<VolumeRequest>) -> (r: Result<Vec<Volume>, InvalidInput>)
    ensures
        match r {
            Ok(v) => valid_volume_requests(input@) && volumes_match(v@, input@),
            Err(e) => !valid_volume_requests(input@) && e.0@ == "卷挂载路径无效"@,
        },
{
    let mut out: Vec<Volume> = Vec::new();
    let mut i: usize = 0;
    while i < input.len()
        invariant
            i <= input@.len(),
            out@.len() == i,
            forall|j: int| 0 <= j < i ==> valid_volume_request(#[trigger] input@[j]),
            forall|j: int|
                0 <= j < i ==> (#[trigger] out@[j]).host_path@ == input@[j].host_path@ && out@[j].container_path@
                    == input@[j].container_path@ && out@[j].read_only == input@[j].read_only,
        decreases input.len() - i,
    {
        let v = &input[i];
        let host = chars_of(v.host_path.as_str());
        let container = chars_of(v.container_path.as_str());
        if host.len() == 0 || !starts_with_slash(v.container_path.as_str()) || has_line_break_or_nul_exec(
            &host,
        ) || has_line_break_or_nul_exec(&container) {
            return Err(InvalidInput::new("卷挂载路径无效"));
        }
        out.push(
            Volume {
                host_path: v.host_path.clone(),
                container_path: v.container_path.clone(),
                read_only: v.read_only,
            },
        );
        i = i + 1;
    }
    Ok(out)
}

/// The requested host port mappings, checked; an unspecified protocol is TCP.
pub fn published_ports(input: &Vec<PortRequest>) -> (r: Result<Vec<PublishedPort>, InvalidInput>)
    ensures
        match r {
            Ok(v) => valid_ports(input@) && ports_match(v@, input@),
            Err(e) => !valid_ports(input@) && first_failure(
                input@.len() as int,
                port_fails(input@),
                port_message(input@),
                e.0@,
            ),
        },
{
    let mut out: Vec<PublishedPort> = Vec::new();
    let mut i: usize = 0;
    while i < input.len()
        invariant
            i <= input@.len(),
            out@.len() == i,
            forall|j: int|
                0 <= j < i ==> valid_port((#[trigger] input@[j]).host_port) && valid_port(input@[j].container_port),
            forall|j: int|
                0 <= j < i ==> (#[trigger] out@[j]).host_port == input@[j].host_port && out@[j].container_port
                    == input@[j].container_port && out@[j].protocol == protocol_of(input@[j].protocol),
        decreases input.len() - i,
    {
        let p = &input[i];
        proof {
            let f = port_fails(input@);
            assert forall|j: int| 0 <= j < i implies !#[trigger] f(j) by {}
        }
        let host_port = match checked_port(p.host_port, "宿主机端口") {
            Ok(v) => v,
            Err(e) => {
                proof {
                    reveal_strlit("宿主机端口");
                    assert(port_fails(input@)(i as int));
                }
                return Err(e);
            },
        };
        let container_port = match checked_port(p.container_port, "容器端口") {
            Ok(v) => v,
            Err(e) => {
                proof {
                    reveal_strlit("容器端口");
                    assert(port_fails(input@)(i as int));
                }
                return Err(e);
            },
        };
        let protocol = match p.protocol {
            RequestProtocol::Udp => PortProtocol::Udp,
            _ => PortProtocol::Tcp,
        };
        out.push(PublishedPort { host_port, container_port, protocol });
        i = i + 1;
    }
    Ok(out)
}

/// `v`, or `default` when empty.
fn or_default_exec(v: &String, default: &str) -> (r: String)
    ensures
        r@ == or_default(v@, default@),
{
    if v.as_str().is_empty() {
        String::from_str(default)
    } else {
        v.clone()
    }
}

/// Whether a duration is free of line breaks, NUL and spaces.
fn plain_duration_exec(v: &str) -> (r: bool)
    ensures
        r == plain_duration(v@),
{
    let cs = chars_of(v);
    !has_line_break_or_nul_exec(&cs) && !has_char_exec(&cs, ' ')
}

/// A requested health check with its defaults: `30s` interval and timeout, 3 retries.
pub fn normalize_healthcheck(input: &HealthcheckRequest) -> (r: Result<HealthcheckSpec, InvalidInput>)
    ensures
        match r {
            Ok(h) => valid_healthcheck_request(*input) && healthcheck_matches(h, *input),
            Err(e) => !valid_healthcheck_request(*input) && e.0@ == healthcheck_error(*input),
        },
{
    let cmd = chars_of(input.command.as_str());
    if is_blank_exec(&cmd) || has_line_break_or_nul_exec(&cmd) {
        return Err(InvalidInput::new("健康检查命令不能为空或包含控制字符"));
    }
    proof {
        reveal_strlit("30s");
    }
    let interval = or_default_exec(&input.interval, "30s");
    let timeout = or_default_exec(&input.timeout, "30s");
    let retries: u32 = if input.retries == 0 {
        3
    } else {
        input.retries
    };
    if !plain_duration_exec(interval.as_str()) {
        let mut m = String::from_str("健康检查间隔格式无效: ");
        m.append(interval.as_str());
        return Err(InvalidInput(m));
    }
    if !plain_duration_exec(timeout.as_str()) {
        let mut m = String::from_str("健康检查超时格式无效: ");
        m.append(timeout.as_str());
        return Err(InvalidInput(m));
    }
    let start_period = match &input.start_period {
        Some(p) => {
            if !plain_duration_exec(p.as_str()) {
                let mut m = String::from_str("健康检查启动宽限期格式无效: ");
                m.append(p.as_str());
                return Err(InvalidInput(m));
            }
            if p.as_str().is_empty() {
                None
            } else {
                Some(p.clone())
            }
        },
        None => None,
    };
    Ok(HealthcheckSpec { command: input.command.clone(), interval, timeout, start_period, retries })
}

/// An optional requested health check, normalised.
fn normalize_opt_healthcheck(input: &Option<HealthcheckRequest>) -> (r: Result<Option<HealthcheckSpec>, InvalidInput>)
    ensures
        match r {
            Ok(h) => valid_opt_healthcheck(*input) && opt_healthcheck_matches(h, *input),
            Err(e) => !valid_opt_healthcheck(*input) && e.0@ == healthcheck_error(input->0),
        },
{
    match input {
        Some(h) => match normalize_healthcheck(h) {
            Ok(n) => Ok(Some(n)),
            Err(e) => Err(e),
        },
        None => Ok(None),
    }
}

/// A copy of some strings.
pub fn copy_strings(v: &Vec<String>) -> (r: Vec<String>)
    ensures
        strs(r@) == strs(v@),
{
    let mut out: Vec<String> = Vec::new();
    let mut i: usize = 0;
    while i < v.len()
        invariant
            i <= v@.len(),
            strs(out@) == strs(v@.take(i as int)),
        decreases v.len() - i,
    {
        let ghost before = out@;
        let c = v[i].clone();
        out.push(c);
        assert(strs(out@) =~= strs(before).push(c@));
        assert(strs(v@.take(i + 1)) =~= strs(v@.take(i as int)).push(v@[i as int]@));
        i = i + 1;
    }
    assert(v@.take(i as int) =~= v@);
    out
}

/// The requested routes, each resolved under `domain`, with `default` for a zero port.
fn routes_from_requests(rs: &Vec<RouteRequest>, default: u32, domain: &str) -> (r: Result<Vec<Route>, InvalidInput>)
    ensures
        match r {
            Ok(v) => valid_route_requests(rs@, default, domain@) && routes_view(v@) == routes_of(rs@, default, domain@),
            Err(e) => !valid_route_requests(rs@, default, domain@) && first_failure(
                rs@.len() as int,
                route_fails(rs@, default, domain@),
                route_message(rs@, domain@),
                e.0@,
            ),
        },
{
    let mut out: Vec<Route> = Vec::new();
    let mut i: usize = 0;
    while i < rs.len()
        invariant
            i <= rs@.len(),
            valid_route_requests(rs@.take(i as int), default, domain@),
            routes_view(out@) == routes_of(rs@.take(i as int), default, domain@),
        decreases rs.len() - i,
    {
        let r = &rs[i];
        let ghost f = route_fails(rs@, default, domain@);
        proof {
            assert(rs@.take(i + 1) =~= rs@.take(i as int).push(rs@[i as int]));
            assert forall|a: int| 0 <= a < i implies !#[trigger] f(a) by {
                assert(rs@.take(i as int)[a] == rs@[a]);
            }
        }
        let host = match resolve_host(r.host.as_str(), domain) {
            Ok(h) => h,
            Err(e) => {
                proof {
                    assert(rs@.take(i + 1)[i as int] == rs@[i as int]);
                    assert(f(i as int));
                }
                return Err(e);
            },
        };
        let port_value = if r.container_port == 0 {
            default
        } else {
            r.container_port
        };
        let label = if r.container_port == 0 {
            "容器端口"
        } else {
            "路由容器端口"
        };
        let port = match checked_port(port_value, label) {
            Ok(p) => p,
            Err(e) => {
                proof {
                    reveal_strlit("容器端口");
                    reveal_strlit("路由容器端口");
                    assert(rs@.take(i + 1)[i as int] == rs@[i as int]);
                    assert(f(i as int));
                }
                return Err(e);
            },
        };
        let prefix = if r.path_prefix.as_str().is_empty() {
            None
        } else {
            Some(r.path_prefix.clone())
        };
        let ghost before = out@;
        let route = Route { host, path_prefix: prefix, container_port: port };
        out.push(route);
        assert(routes_view(out@) =~= routes_view(before).push(route_view(route)));
        assert(routes_of(rs@.take(i + 1), default, domain@) =~= routes_of(rs@.take(i as int), default, domain@).push(
            route_view(route),
        ));
        i = i + 1;
    }
    assert(rs@.take(i as int) =~= rs@);
    Ok(out)
}


// ---------------------------------------------------------------------------
// Whole requests
// ---------------------------------------------------------------------------

/// What `application_spec` accepts.
pub open spec fn valid_create_request(r: CreateApplicationRequest, domain: Seq<char>) -> bool {
    &&& valid_network(r.network_mode, r.external_network@)
    &&& valid_port(r.container_port)
    &&& valid_route_requests(r.routes@, r.container_port, domain)
    &&& valid_ports(r.published_ports@)
    &&& valid_volume_requests(r.volumes@)
    &&& !has_duplicate_key(r.environment@)
    &&& valid_middlewares(r.middlewares@)
    &&& valid_custom_labels(strs(r.labels@))
    &&& valid_named_volume_requests(r.named_volumes@)
    &&& valid_opt_healthcheck(r.healthcheck)
}

/// Whether `a` is the application that a valid creation request describes.
pub open spec fn app_matches(a: AppSpec, r: CreateApplicationRequest, domain: Seq<char>) -> bool {
    &&& a.name@ == r.name@
    &&& a.service@ == r.service@
    &&& a.image@ == r.image@
    &&& a.version@ == r.version@
    &&& strs(a.command@) == strs(r.command@)
    &&& a.container_port == r.container_port
    &&& routes_view(a.routes@) == routes_of(r.routes@, r.container_port, domain)
    &&& ports_match(a.published_ports@, r.published_ports@)
    &&& volumes_match(a.volumes@, r.volumes@)
    &&& env_matches(a.environment@, r.environment@)
    &&& network_matches(a.network_mode, r.network_mode, r.external_network@)
    &&& a.middlewares@ == middlewares_of(r.middlewares@)
    &&& strs(a.labels@) == strs(r.labels@)
    &&& named_volumes_match(a.named_volumes@, r.named_volumes@)
    &&& opt_healthcheck_matches(a.healthcheck, r.healthcheck)
}

/// Whether an edit's network settings fit together: an external mode with a named
/// network, or no network name at all.
pub open spec fn valid_edit_network(m: Option<RequestNetworkMode>, ext: Option<String>) -> bool {
    match m {
        Some(RequestNetworkMode::External) => (ext matches Some(n) && n@.len() > 0),
        _ => ext is None,
    }
}

/// Whether `out` is the network mode that an edit names.
pub open spec fn edit_network_matches(out: Option<NetworkMode>, m: Option<RequestNetworkMode>, ext: Option<String>) -> bool {
    match m {
        None => out is None,
        Some(RequestNetworkMode::Host) => (out matches Some(NetworkMode::Host)),
        Some(RequestNetworkMode::External) => (out matches Some(NetworkMode::External(n)) && ext
            matches Some(e) && n@ == e@),
        Some(_) => (out matches Some(NetworkMode::Bridge)),
    }
}

/// Whether every requested edit route resolves and has a port: its own, or the
/// edit's container port when zero.
pub open spec fn valid_edit_routes(rs: Seq<RouteRequest>, cp: Option<u32>, domain: Seq<char>) -> bool {
    forall|i: int|
        0 <= i < rs.len() ==> resolved_host((#[trigger] rs[i]).host@, domain) is Some && if rs[i].container_port
            == 0 {
            cp is Some
        } else {
            valid_port(rs[i].container_port)
        }
}

/// The routes that an edit request describes.
pub open spec fn edit_routes_of(rs: Seq<RouteRequest>, cp: Option<u32>, domain: Seq<char>) -> Seq<RouteView> {
    rs.map_values(
        |r: RouteRequest|
            RouteView {
                host: resolved_host(r.host@, domain)->Some_0,
                path_prefix: route_prefix(r),
                container_port: (if r.container_port == 0 {
                    cp->Some_0
                } else {
                    r.container_port
                }) as nat,
            },
    )
}

/// Whether every host resolves.
pub open spec fn valid_hosts(hs: Seq<String>, domain: Seq<char>) -> bool {
    forall|i: int| 0 <= i < hs.len() ==> resolved_host((#[trigger] hs[i])@, domain) is Some
}

/// The resolved hosts.
pub open spec fn hosts_of(hs: Seq<String>, domain: Seq<char>) -> Seq<Seq<char>> {
    hs.map_values(|h: String| resolved_host(h@, domain)->Some_0)
}

/// An optional string, none when empty.
pub open spec fn non_empty(o: Option<String>) -> Option<Seq<char>> {
    match o {
        Some(s) => if s@.len() == 0 {
            None
        } else {
            Some(s@)
        },
        None => None,
    }
}

/// What `application_edit` accepts.
pub open spec fn valid_update_request(r: UpdateApplicationRequest, domain: Seq<char>) -> bool {
    &&& valid_edit_network(r.network_mode, r.external_network)
    &&& match r.container_port {
        Some(p) => valid_port(p),
        None => true,
    }
    &&& match r.version {
        Some(v) => valid_image_version(v@),
        None => true,
    }
    &&& match r.path_prefix {
        Some(p) => valid_edit_prefix(p@),
        None => true,
    }
    &&& valid_edit_routes(r.routes@, r.container_port, domain)
    &&& valid_hosts(r.hosts@, domain)
    &&& valid_ports(r.published_ports@)
    &&& valid_volume_requests(r.volumes@)
    &&& !has_duplicate_key(r.environment@)
    &&& valid_middlewares(r.middlewares@)
    &&& valid_custom_labels(strs(r.labels@))
    &&& valid_named_volume_requests(r.named_volumes@)
    &&& valid_opt_healthcheck(r.healthcheck)
}

/// Whether `e` is the edit that a valid edit request describes; empty optional
/// strings count as absent.
pub open spec fn edit_matches(e: ApplicationEdit, r: UpdateApplicationRequest, domain: Seq<char>) -> bool {
    &&& e.name@ == r.name@
    &&& opt_chars(e.service) == non_empty(r.service)
    &&& opt_chars(e.image) == non_empty(r.image)
    &&& opt_chars(e.version) == non_empty(r.version)
    &&& strs(e.command@) == strs(r.command@)
    &&& match (e.container_port, r.container_port) {
        (Some(a), Some(b)) => a == b,
        (None, None) => true,
        _ => false,
    }
    &&& strs(e.hosts@) == hosts_of(r.hosts@, domain)
    &&& routes_view(e.routes@) == edit_routes_of(r.routes@, r.container_port, domain)
    &&& opt_chars(e.path_prefix) == non_empty(r.path_prefix)
    &&& ports_match(e.published_ports@, r.published_ports@)
    &&& volumes_match(e.volumes@, r.volumes@)
    &&& env_matches(e.environment@, r.environment@)
    &&& edit_network_matches(e.network_mode, r.network_mode, r.external_network)
    &&& e.middlewares@ == middlewares_of(r.middlewares@)
    &&& strs(e.labels@) == strs(r.labels@)
    &&& named_volumes_match(e.named_volumes@, r.named_volumes@)
    &&& opt_healthcheck_matches(e.healthcheck, r.healthcheck)
    &&& e.remove_healthcheck == r.remove_healthcheck
    &&& e.start == r.start
}

/// The application that a creation request describes, with single-label hosts
/// placed under `domain`.
pub fn application_spec(input: &CreateApplicationRequest, domain: &str) -> (r: Result<AppSpec, InvalidInput>)
    ensures
        match r {
            Ok(a) => valid_create_request(*input, domain@) && app_matches(a, *input, domain@),
            Err(e) => !valid_create_request(*input, domain@) && create_request_error(*input, domain@, e.0@),
        },
{
    let network_mode = match input.network_mode {
        RequestNetworkMode::Host => NetworkMode::Host,
        RequestNetworkMode::External => {
            if input.external_network.as_str().is_empty() {
                return Err(InvalidInput::new("external 网络模式必须指定网络名"));
            }
            NetworkMode::External(input.external_network.clone())
        },
        _ => NetworkMode::Bridge,
    };
    let container_port = checked_port(input.container_port, "容器端口")?;
    let routes = routes_from_requests(&input.routes, input.container_port, domain)?;
    let published_ports = published_ports(&input.published_ports)?;
    let volumes = application_volumes(&input.volumes)?;
    let environment = environment_map(&input.environment)?;
    let middlewares = middlewares_from_proto(&input.middlewares)?;
    let labels = custom_labels(&input.labels)?;
    let named_volumes = named_volumes(&input.named_volumes)?;
    let healthcheck = normalize_opt_healthcheck(&input.healthcheck)?;
    Ok(
        AppSpec {
            name: input.name.clone(),
            service: input.service.clone(),
            image: input.image.clone(),
            version: input.version.clone(),
            command: copy_strings(&input.command),
            container_port,
            routes,
            published_ports,
            volumes,
            environment,
            network_mode,
            middlewares,
            labels,
            named_volumes,
            healthcheck,
        },
    )
}

/// A copy of an optional string, none when empty.
fn non_empty_exec(o: &Option<String>) -> (r: Option<String>)
    ensures
        opt_chars(r) == non_empty(*o),
{
    match o {
        Some(s) => if s.as_str().is_empty() {
            None
        } else {
            Some(s.clone())
        },
        None => None,
    }
}

/// The requested edit routes.
fn edit_routes_from_requests(rs: &Vec<RouteRequest>, cp: Option<u32>, domain: &str) -> (r: Result<Vec<Route>, InvalidInput>)
    requires
        match cp {
            Some(p) => valid_port(p),
            None => true,
        },
    ensures
        match r {
            Ok(v) => valid_edit_routes(rs@, cp, domain@) && routes_view(v@) == edit_routes_of(rs@, cp, domain@),
            Err(e) => !valid_edit_routes(rs@, cp, domain@) && first_failure(
                rs@.len() as int,
                edit_route_fails(rs@, cp, domain@),
                edit_route_message(rs@, domain@),
                e.0@,
            ),
        },
{
    let mut out: Vec<Route> = Vec::new();
    let mut i: usize = 0;
    while i < rs.len()
        invariant
            i <= rs@.len(),
            match cp {
                Some(p) => valid_port(p),
                None => true,
            },
            valid_edit_routes(rs@.take(i as int), cp, domain@),
            routes_view(out@) == edit_routes_of(rs@.take(i as int), cp, domain@),
        decreases rs.len() - i,
    {
        let r = &rs[i];
        let ghost f = edit_route_fails(rs@, cp, domain@);
        proof {
            assert(rs@.take(i + 1) =~= rs@.take(i as int).push(rs@[i as int]));
            assert(rs@.take(i + 1)[i as int] == rs@[i as int]);
            assert forall|a: int| 0 <= a < i implies !#[trigger] f(a) by {
                assert(rs@.take(i as int)[a] == rs@[a]);
            }
        }
        let host = match resolve_host(r.host.as_str(), domain) {
            Ok(h) => h,
            Err(e) => {
                proof {
                    assert(f(i as int));
                }
                return Err(e);
            },
        };
        let port: u16 = if r.container_port == 0 {
            match cp {
                Some(p) => p as u16,
                None => {
                    proof {
                        assert(f(i as int));
                    }
                    return Err(InvalidInput::new("配置 HTTP 路由时必须指定容器端口"));
                },
            }
        } else {
            match checked_port(r.container_port, "路由容器端口") {
                Ok(p) => p,
                Err(e) => {
                    proof {
                        reveal_strlit("路由容器端口");
                        assert(f(i as int));
                    }
                    return Err(e);
                },
            }
        };
        let prefix = if r.path_prefix.as_str().is_empty() {
            None
        } else {
            Some(r.path_prefix.clone())
        };
        let ghost before = out@;
        let route = Route { host, path_prefix: prefix, container_port: port };
        out.push(route);
        assert(routes_view(out@) =~= routes_view(before).push(route_view(route)));
        assert(edit_routes_of(rs@.take(i + 1), cp, domain@) =~= edit_routes_of(rs@.take(i as int), cp, domain@).push(
            route_view(route),
        ));
        i = i + 1;
    }
    assert(rs@.take(i as int) =~= rs@);
    Ok(out)
}

/// The requested hosts, resolved.
fn hosts_from_requests(hs: &Vec<String>, domain: &str) -> (r: Result<Vec<String>, InvalidInput>)
    ensures
        match r {
            Ok(v) => valid_hosts(hs@, domain@) && strs(v@) == hosts_of(hs@, domain@),
            Err(e) => !valid_hosts(hs@, domain@) && first_failure(
                hs@.len() as int,
                host_fails(hs@, domain@),
                host_message(hs@),
                e.0@,
            ),
        },
{
    let mut out: Vec<String> = Vec::new();
    let mut i: usize = 0;
    while i < hs.len()
        invariant
            i <= hs@.len(),
            valid_hosts(hs@.take(i as int), domain@),
            strs(out@) == hosts_of(hs@.take(i as int), domain@),
        decreases hs.len() - i,
    {
        let ghost f = host_fails(hs@, domain@);
        proof {
            assert(hs@.take(i + 1) =~= hs@.take(i as int).push(hs@[i as int]));
            assert(hs@.take(i + 1)[i as int] == hs@[i as int]);
            assert forall|a: int| 0 <= a < i implies !#[trigger] f(a) by {
                assert(hs@.take(i as int)[a] == hs@[a]);
            }
        }
        let h = match resolve_host(hs[i].as_str(), domain) {
            Ok(h) => h,
            Err(e) => {
                proof {
                    assert(f(i as int));
                }
                return Err(e);
            },
        };
        let ghost before = out@;
        let ghost hv = h@;
        out.push(h);
        assert(strs(out@) =~= strs(before).push(hv));
        assert(hosts_of(hs@.take(i + 1), domain@) =~= hosts_of(hs@.take(i as int), domain@).push(hv));
        i = i + 1;
    }
    assert(hs@.take(i as int) =~= hs@);
    Ok(out)
}

/// Whether an edit's path prefix is usable.
fn valid_edit_prefix_exec(p: &str) -> (r: bool)
    ensures
        r == valid_edit_prefix(p@),
{
    let cs = chars_of(p);
    starts_with_slash(p) && !has_char_exec(&cs, '`') && !has_char_exec(&cs, '\n') && !has_char_exec(&cs, '\r')
}

/// The edit that an edit request describes, with single-label hosts placed under
/// `domain`.
pub fn application_edit(input: &UpdateApplicationRequest, domain: &str) -> (r: Result<ApplicationEdit, InvalidInput>)
    ensures
        match r {
            Ok(e) => valid_update_request(*input, domain@) && edit_matches(e, *input, domain@),
            Err(e) => !valid_update_request(*input, domain@) && edit_request_error(*input, domain@, e.0@),
        },
{
    let network_mode: Option<NetworkMode> = match input.network_mode {
        None => None,
        Some(RequestNetworkMode::Host) => Some(NetworkMode::Host),
        Some(RequestNetworkMode::External) => match &input.external_network {
            Some(n) => {
                if n.as_str().is_empty() {
                    return Err(InvalidInput::new("external 网络模式必须指定网络名"));
                }
                Some(NetworkMode::External(n.clone()))
            },
            None => {
                return Err(InvalidInput::new("external 网络模式必须指定网络名"));
            },
        },
        Some(_) => Some(NetworkMode::Bridge),
    };
    let external_mode = match &network_mode {
        Some(NetworkMode::External(_)) => true,
        _ => false,
    };
    if input.external_network.is_some() && !external_mode {
        return Err(InvalidInput::new("--external-network 只能与 --network external 一起使用"));
    }
    let container_port: Option<u16> = match input.container_port {
        Some(p) => Some(checked_port(p, "容器端口")?),
        None => None,
    };
    match &input.version {
        Some(v) => {
            if !valid_image_version_exec(v.as_str()) {
                return Err(InvalidInput::new("镜像版本不能使用 latest，且必须以字母、数字或下划线开头，只能包含字母、数字、点、下划线和连字符，且不超过 128 个字符"));
            }
        },
        None => {},
    }
    match &input.path_prefix {
        Some(p) => {
            if !valid_edit_prefix_exec(p.as_str()) {
                return Err(InvalidInput::new("路由路径必须以 / 开头且不能包含控制字符"));
            }
        },
        None => {},
    }
    let routes = edit_routes_from_requests(&input.routes, input.container_port, domain)?;
    let hosts = hosts_from_requests(&input.hosts, domain)?;
    let published_ports = published_ports(&input.published_ports)?;
    let volumes = application_volumes(&input.volumes)?;
    let environment = environment_map(&input.environment)?;
    let middlewares = middlewares_from_proto(&input.middlewares)?;
    let labels = custom_labels(&input.labels)?;
    let named_volumes = named_volumes(&input.named_volumes)?;
    let healthcheck = normalize_opt_healthcheck(&input.healthcheck)?;
    Ok(
        ApplicationEdit {
            name: input.name.clone(),
            service: non_empty_exec(&input.service),
            image: non_empty_exec(&input.image),
            version: non_empty_exec(&input.version),
            command: copy_strings(&input.command),
            container_port,
            hosts,
            routes,
            path_prefix: non_empty_exec(&input.path_prefix),
            published_ports,
            volumes,
            environment,
            network_mode,
            middlewares,
            labels,
            named_volumes,
            healthcheck,
            remove_healthcheck: input.remove_healthcheck,
            start: input.start,
        },
    )
}


/// What `infrastructure_spec` accepts: given ports in range, and a valid domain,
/// the configured one when the request leaves it empty.
pub open spec fn valid_infra_request(r: InitializeInfrastructureRequest, domain: Seq<char>) -> bool {
    &&& (r.http_port == 0 || valid_port(r.http_port))
    &&& (r.https_port == 0 || valid_port(r.https_port))
    &&& crate::names::valid_domain(or_default(r.domain@, domain))
}

/// Whether `s` holds the infrastructure parameters of a valid request.
pub open spec fn infra_matches(s: InfraSpec, r: InitializeInfrastructureRequest, domain: Seq<char>) -> bool {
    &&& s.domain@ == or_default(r.domain@, domain)
    &&& s.acme_email@ == r.acme_email@
    &&& s.cloudflare_token@ == r.cloudflare_token@
    &&& s.traefik_version@ == r.traefik_version@
    &&& s.http_port == if r.http_port == 0 {
        80
    } else {
        r.http_port
    }
    &&& s.https_port == if r.https_port == 0 {
        443
    } else {
        r.https_port
    }
}

/// The infrastructure parameters of a request: ports 80 and 443 unless given, the
/// configured domain unless given.
pub fn infrastructure_spec(input: &InitializeInfrastructureRequest, domain: &str) -> (r: Result<InfraSpec, InvalidInput>)
    ensures
        match r {
            Ok(s) => valid_infra_request(*input, domain@) && infra_matches(s, *input, domain@),
            Err(e) => !valid_infra_request(*input, domain@) && e.0@ == (if !(input.http_port == 0
                || valid_port(input.http_port)) {
                port_error("Traefik HTTP 宿主机端口"@)
            } else if !(input.https_port == 0 || valid_port(input.https_port)) {
                port_error("Traefik HTTPS 宿主机端口"@)
            } else {
                "domain 必须是有效的全小写完整域名"@
            }),
        },
{
    let http_port: u16 = if input.http_port == 0 {
        80
    } else {
        checked_port(input.http_port, "Traefik HTTP 宿主机端口")?
    };
    let https_port: u16 = if input.https_port == 0 {
        443
    } else {
        checked_port(input.https_port, "Traefik HTTPS 宿主机端口")?
    };
    let chosen = or_default_exec(&input.domain, domain);
    crate::config::validate_domain(chosen.as_str())?;
    Ok(
        InfraSpec {
            domain: chosen,
            acme_email: input.acme_email.clone(),
            cloudflare_token: input.cloudflare_token.clone(),
            traefik_version: input.traefik_version.clone(),
            http_port,
            https_port,
        },
    )
}

/// What `static_site_spec` accepts: a resolvable host and named middlewares.
pub open spec fn valid_site_request(r: CreateStaticSiteRequest, domain: Seq<char>) -> bool {
    resolved_host(r.host@, domain) is Some && valid_middlewares(r.middlewares@)
}

/// Whether `s` holds the static site of a valid request.
pub open spec fn site_matches(s: StaticSiteSpec, r: CreateStaticSiteRequest, domain: Seq<char>) -> bool {
    &&& s.name@ == r.name@
    &&& resolved_host(r.host@, domain) == Some(s.host@)
    &&& s.assets@.len() == r.assets@.len()
    &&& forall|i: int|
        0 <= i < r.assets@.len() ==> (#[trigger] s.assets@[i]).path@ == r.assets@[i].path@ && s.assets@[i].content@
            == r.assets@[i].content@
    &&& s.middlewares@ == middlewares_of(r.middlewares@)
    &&& s.nginx_version@ == r.nginx_version@
}

/// The static site of a request.
pub fn static_site_spec(input: &CreateStaticSiteRequest, domain: &str) -> (r: Result<StaticSiteSpec, InvalidInput>)
    ensures
        match r {
            Ok(s) => valid_site_request(*input, domain@) && site_matches(s, *input, domain@),
            Err(e) => !valid_site_request(*input, domain@) && e.0@ == (if resolved_host(input.host@, domain@)
                is None {
                host_error(input.host@)
            } else {
                "中间件类型不能为未指定"@
            }),
        },
{
    let host = resolve_host(input.host.as_str(), domain)?;
    let mut assets: Vec<StaticAsset> = Vec::new();
    let mut i: usize = 0;
    while i < input.assets.len()
        invariant
            i <= input.assets@.len(),
            assets@.len() == i,
            forall|j: int|
                0 <= j < i ==> (#[trigger] assets@[j]).path@ == input.assets@[j].path@ && assets@[j].content@
                    == input.assets@[j].content@,
        decreases input.assets.len() - i,
    {
        let a = &input.assets[i];
        assets.push(StaticAsset { path: a.path.clone(), content: a.content.clone() });
        i = i + 1;
    }
    let middlewares = middlewares_from_proto(&input.middlewares)?;
    Ok(
        StaticSiteSpec {
            name: input.name.clone(),
            host,
            assets,
            middlewares,
            nginx_version: input.nginx_version.clone(),
        },
    )
}

} // verus!
