//! The command line: its commands and arguments, the parsing of single arguments,
//! and the requests that commands send.

use crate::edit::opt_chars;
use crate::gen::strs;
use crate::names::{valid_image_version, valid_image_version_exec};
use crate::requests::{
    copy_strings, CreateApplicationRequest, CreateStaticSiteRequest, EnvironmentVariable,
    HealthcheckRequest, InitializeInfrastructureRequest, NamedVolumeRequest, PortRequest,
    RequestMiddleware, RequestNetworkMode, RequestProtocol, RouteRequest, UpdateApplicationRequest,
    VolumeRequest,
};
use crate::system::ServiceAction;
use crate::text::{
    chars_of, extend_chars, has_line_break_or_nul, has_line_break_or_nul_exec, is_blank,
    is_blank_exec, is_digit, is_upper, parse_bounded, parse_bounded_exec, split_once,
    split_once_exec, string_of, sub_chars, decimal, find_char, lemma_find_char,
    lemma_decimal_digits, law_decimal_parse_round_trip,
};
use crate::types::StaticAsset;
use vstd::prelude::*;

verus! {

// ---------------------------------------------------------------------------
// Commands
// ---------------------------------------------------------------------------

/// The command line of the management tool.
pub struct Cli {
    /// The command.
    pub command: Commands,
}

/// The commands of the management tool.
pub enum Commands {
    /// Install the system service from the running executable.
    Init {
        /// Overwrite an existing installation.
        force: bool,
    },
    /// Run the daemon.
    Daemon,
    /// Control the installed service.
    Service {
        /// The operation.
        action: ServiceCmd,
    },
    /// Manage the Traefik infrastructure.
    Infra {
        /// The operation.
        action: InfraCmd,
    },
    /// Generate managed applications.
    App {
        /// The operation.
        action: AppCmd,
    },
    /// Call a running daemon at an explicit endpoint.
    Rpc {
        /// Endpoint; the local one when absent.
        endpoint: Option<String>,
        /// File holding the TCP bearer token.
        token_file: Option<String>,
        /// The operation.
        action: RpcCmd,
    },
    /// Create or update a project from Compose and environment files.
    Deploy {
        /// Project name.
        name: String,
        /// Compose file.
        compose: String,
        /// Environment file; an empty one when absent.
        env_file: Option<String>,
        /// Start the project afterwards.
        start: bool,
    },
    /// Show a project's recent logs.
    Logs {
        /// Project name.
        app: String,
        /// Lines kept per service.
        tail: u32,
        /// Keep following new lines.
        follow: bool,
    },
    /// List the projects.
    List,
    /// Start a project.
    Start {
        /// Project name.
        app: String,
    },
    /// Stop a project.
    Stop {
        /// Project name.
        app: String,
    },
    /// Restart a project.
    Restart {
        /// Project name.
        app: String,
    },
    /// Set an application's image version and recreate it.
    Upgrade {
        /// Project name.
        app: String,
        /// Service; may be left out for single-service applications.
        service: Option<String>,
        /// New version tag.
        version: String,
    },
    /// Pull a project's images.
    Pull {
        /// Project name.
        app: String,
    },
    /// Build a project's images.
    Build {
        /// Project name.
        app: String,
    },
    /// Show a project.
    Show {
        /// Project name.
        app: String,
    },
    /// Remove an application.
    Remove {
        /// Project name.
        app: String,
        /// Skip the confirmation.
        force: bool,
        /// Remove named volumes too.
        purge: bool,
    },
    /// Check the local environment.
    Status,
}

/// Operations on the installed service.
#[derive(Clone, Copy, Debug, PartialEq, Eq, Structural)]
pub enum ServiceCmd {
    /// Start it.
    Start,
    /// Stop it.
    Stop,
    /// Restart it.
    Restart,
    /// Show its status.
    Status,
}

/// Operations on a daemon at an explicit endpoint.
pub enum RpcCmd {
    /// Daemon and Docker health.
    Health,
    /// List the projects.
    List,
    /// Create or update a project.
    Deploy {
        /// Project name.
        name: String,
        /// Compose file.
        compose: String,
        /// Environment file.
        env_file: Option<String>,
        /// Start the project afterwards.
        start: bool,
    },
    /// Remove a project.
    Remove {
        /// Project name.
        name: String,
        /// Remove named volumes too.
        volumes: bool,
    },
    /// Start a project.
    Start {
        /// Project name.
        name: String,
    },
    /// Stop a project.
    Stop {
        /// Project name.
        name: String,
    },
    /// Restart a project.
    Restart {
        /// Project name.
        name: String,
    },
    /// Set a service's image version and update it.
    Upgrade {
        /// Project name.
        name: String,
        /// Service.
        service: Option<String>,
        /// New version tag.
        version: String,
    },
    /// Pull a project's images.
    Pull {
        /// Project name.
        name: String,
    },
    /// Build a project's images.
    Build {
        /// Project name.
        name: String,
    },
    /// Show a project.
    Show {
        /// Project name.
        name: String,
    },
    /// Show a project's logs.
    Logs {
        /// Project name.
        name: String,
        /// Lines kept per service.
        tail: u32,
        /// Keep following new lines.
        follow: bool,
    },
}

/// Infrastructure operations.
pub enum InfraCmd {
    /// Generate the Traefik project.
    Init {
        /// Primary domain; the configured one when absent.
        domain: Option<String>,
        /// ACME notification address.
        acme_email: String,
        /// File holding the Cloudflare DNS API token.
        cloudflare_token_file: String,
        /// Traefik version.
        traefik_version: String,
        /// Host HTTP port.
        http_port: u16,
        /// Host HTTPS port.
        https_port: u16,
        /// Start the project afterwards.
        start: bool,
        /// Replace an existing project.
        force: bool,
    },
}

/// Application operations.
pub enum AppCmd {
    /// Generate an application from an image.
    Add(Box<AddArgs>),
    /// Edit an application by parameters, or replace its Compose file.
    Edit(Box<EditArgs>),
    /// Generate an Nginx static site from a directory.
    AddStatic {
        /// Project name.
        name: String,
        /// Directory of the site's files.
        source: String,
        /// Host name.
        host: String,
        /// Middlewares.
        middleware: Vec<MiddlewareArg>,
        /// Nginx version.
        nginx_version: String,
        /// Start the project afterwards.
        start: bool,
        /// Replace an existing project.
        force: bool,
    },
}

/// The arguments of a new application.
pub struct AddArgs {
    /// Project name.
    pub name: String,
    /// Image repository.
    pub image: String,
    /// Image version tag.
    pub version: String,
    /// Service name; `app` unless joining a project.
    pub service: Option<String>,
    /// Settings of the service.
    pub params: AppParams,
    /// Add the service to an existing project.
    pub join: bool,
    /// Start the application afterwards.
    pub start: bool,
    /// Replace an existing project or service.
    pub force: bool,
}

/// The arguments of an edit.
pub struct EditArgs {
    /// Project name.
    pub name: String,
    /// Compose file that replaces the project's.
    pub compose: Option<String>,
    /// Environment file that goes with it.
    pub env_file: Option<String>,
    /// Service to edit.
    pub service: Option<String>,
    /// New image repository.
    pub image: Option<String>,
    /// New version tag.
    pub version: Option<String>,
    /// Settings to change.
    pub params: AppParams,
    /// Start the application afterwards.
    pub start: bool,
    /// Remove the health check.
    pub no_healthcheck: bool,
}

/// Settings of an application service.
pub struct AppParams {
    /// Arguments that replace the image's command.
    pub command: Vec<String>,
    /// Default container port of the routes.
    pub container_port: Option<u16>,
    /// Host names to route.
    pub hosts: Vec<String>,
    /// Explicit routes.
    pub routes: Vec<RouteArg>,
    /// URL path prefix of every route.
    pub path_prefix: Option<String>,
    /// TCP port mappings.
    pub tcp_ports: Vec<PortMappingArg>,
    /// UDP port mappings.
    pub udp_ports: Vec<PortMappingArg>,
    /// Writable bind mounts.
    pub volumes: Vec<MountArg>,
    /// Read-only bind mounts.
    pub read_only_volumes: Vec<MountArg>,
    /// Environment variables.
    pub environment: Vec<EnvironmentArg>,
    /// Network mode.
    pub network: Option<NetworkArg>,
    /// External network name.
    pub external_network: Option<String>,
    /// Middlewares.
    pub middleware: Vec<MiddlewareArg>,
    /// Custom labels.
    pub labels: Vec<LabelArg>,
    /// Named volumes.
    pub named_volumes: Vec<NamedVolumeArg>,
    /// Health check command.
    pub healthcheck_cmd: Option<String>,
    /// Health check interval.
    pub healthcheck_interval: Option<String>,
    /// Health check timeout.
    pub healthcheck_timeout: Option<String>,
    /// Health check start period.
    pub healthcheck_start_period: Option<String>,
    /// Health check retries.
    pub healthcheck_retries: Option<u32>,
}

/// Network mode on the command line.
#[derive(Clone, Copy, Debug, PartialEq, Eq, Structural)]
pub enum NetworkArg {
    /// The Compose bridge network.
    Bridge,
    /// The host network.
    Host,
    /// A named external network.
    External,
}

/// A middleware on the command line.
#[derive(Clone, Copy, Debug, PartialEq, Eq, Structural)]
pub enum MiddlewareArg {
    /// Response compression.
    Gzip,
    /// HTTPS forwarding headers.
    ForwardedHeaders,
    /// Private address allow list.
    InternalOnly,
}

/// A port mapping, `HOST:CONTAINER`.
#[derive(Clone, Copy)]
pub struct PortMappingArg {
    /// Host port.
    pub host: u16,
    /// Container port.
    pub container: u16,
}

/// A bind mount, `HOST:CONTAINER`.
pub struct MountArg {
    /// Host path.
    pub host: String,
    /// Container path.
    pub container: String,
}

/// An environment variable, `KEY=VALUE`.
pub struct EnvironmentArg {
    /// Name.
    pub key: String,
    /// Value.
    pub value: String,
}

/// A route, `HOST:PORT`.
pub struct RouteArg {
    /// Host name.
    pub host: String,
    /// Container port.
    pub container_port: u16,
}

/// A custom label, `KEY=VALUE`.
pub struct LabelArg {
    /// Key.
    pub key: String,
    /// Value.
    pub value: String,
}

/// A named volume, `NAME:CONTAINER`.
pub struct NamedVolumeArg {
    /// Volume name.
    pub name: String,
    /// Container path.
    pub container: String,
}

// ---------------------------------------------------------------------------
// Parsing single arguments
// ---------------------------------------------------------------------------

/// A port in `1..=65535`, as `str::parse::<u16>` reads it.
pub open spec fn port_arg(v: Seq<char>) -> Option<nat> {
    match parse_bounded(v, 65535) {
        Some(p) => if p > 0 {
            Some(p)
        } else {
            None
        },
        None => None,
    }
}

/// A non-zero port.
pub fn parse_port(value: &str) -> (r: Result<u16, String>)
    ensures
        match r {
            Ok(p) => port_arg(value@) == Some(p as nat),
            Err(e) => port_arg(value@) is None && e@ == "端口必须在 1..=65535 范围内"@,
        },
{
    let cs = chars_of(value);
    match parse_bounded_exec(&cs, 65535) {
        Some(p) => if p > 0 {
            Ok(p as u16)
        } else {
            Err(String::from_str("端口必须在 1..=65535 范围内"))
        },
        None => Err(String::from_str("端口必须在 1..=65535 范围内")),
    }
}

/// An explicit image version.
pub fn validate_version_arg(value: &str) -> (r: Result<String, String>)
    ensures
        match r {
            Ok(v) => valid_image_version(value@) && v@ == value@,
            Err(e) => !valid_image_version(value@) && e@ == "必须指定明确的镜像版本标签，且不能使用 latest"@,
        },
{
    if valid_image_version_exec(value) {
        Ok(String::from_str(value))
    } else {
        Err(String::from_str("必须指定明确的镜像版本标签，且不能使用 latest"))
    }
}

/// A port mapping written as `HOST:CONTAINER` with two non-zero ports splits at the
/// `:` between them and parses back to the same two ports.
pub proof fn law_port_mapping_text_round_trip(host: u16, container: u16)
    requires
        host > 0,
        container > 0,
    ensures
        split_once(decimal(host as nat) + ":"@ + decimal(container as nat), ':') == Some(
            (decimal(host as nat), decimal(container as nat)),
        ),
        port_arg(decimal(host as nat)) == Some(host as nat),
        port_arg(decimal(container as nat)) == Some(container as nat),
{
    let h = decimal(host as nat);
    let c = decimal(container as nat);
    lemma_decimal_digits(host as nat);
    law_decimal_parse_round_trip(host as nat, 65535);
    law_decimal_parse_round_trip(container as nat, 65535);
    reveal_strlit(":");
    let t = h + ":"@ + c;
    assert(t[h.len() as int] == ':');
    lemma_find_char(t, ':');
    let k = find_char(t, ':')->0;
    if k < h.len() {
        assert(t[k] == h[k]);
        assert(is_digit(h[k]));
    }
    assert(k == h.len());
    assert(t.take(k) =~= h);
    assert(t.skip(k + 1) =~= c);
}

impl PortMappingArg {
    /// A port mapping, `HOST:CONTAINER`, both non-zero ports.
    pub fn parse(value: &str) -> (r: Result<PortMappingArg, String>)
        ensures
            match r {
                Ok(m) => (split_once(value@, ':') matches Some((h, c)) && port_arg(h) == Some(m.host as nat)
                    && port_arg(c) == Some(m.container as nat)),
                Err(e) => !(split_once(value@, ':') matches Some((h, c)) && port_arg(h) is Some && port_arg(
                    c,
                ) is Some) && e@ == (if split_once(value@, ':') is None {
                    "端口映射格式必须为 HOST:CONTAINER"@
                } else {
                    "端口必须在 1..=65535 范围内"@
                }),
            },
    {
        let cs = chars_of(value);
        match split_once_exec(&cs, ':') {
            Some((h, c)) => {
                let hs = string_of(&h);
                let host = parse_port(hs.as_str())?;
                let c2 = string_of(&c);
                let container = parse_port(c2.as_str())?;
                Ok(PortMappingArg { host, container })
            },
            None => Err(String::from_str("端口映射格式必须为 HOST:CONTAINER")),
        }
    }
}

impl MountArg {
    /// A bind mount, `HOST:CONTAINER`, split at the first `:`, both parts non-empty.
    pub fn parse(value: &str) -> (r: Result<MountArg, String>)
        ensures
            match r {
                Ok(m) => (split_once(value@, ':') matches Some((h, c)) && h.len() > 0 && c.len() > 0
                    && m.host@ == h && m.container@ == c),
                Err(e) => !(split_once(value@, ':') matches Some((h, c)) && h.len() > 0 && c.len() > 0) && e@
                    == (if split_once(value@, ':') is None {
                    "卷挂载格式必须为 HOST:CONTAINER"@
                } else {
                    "卷挂载路径不能为空"@
                }),
            },
    {
        let cs = chars_of(value);
        match split_once_exec(&cs, ':') {
            Some((h, c)) => {
                if h.len() == 0 || c.len() == 0 {
                    return Err(String::from_str("卷挂载路径不能为空"));
                }
                Ok(MountArg { host: string_of(&h), container: string_of(&c) })
            },
            None => Err(String::from_str("卷挂载格式必须为 HOST:CONTAINER")),
        }
    }
}

/// A valid variable name: upper-case letters, digits and `_`, not empty.
pub open spec fn valid_variable_name(k: Seq<char>) -> bool {
    k.len() > 0 && forall|i: int| 0 <= i < k.len() ==> is_upper(#[trigger] k[i]) || is_digit(k[i]) || k[i] == '_'
}

impl EnvironmentArg {
    /// A variable, `KEY=VALUE`, split at the first `=`, with a valid name.
    pub fn parse(value: &str) -> (r: Result<EnvironmentArg, String>)
        ensures
            match r {
                Ok(e) => (split_once(value@, '=') matches Some((k, v)) && valid_variable_name(k) && e.key@ == k
                    && e.value@ == v),
                Err(e) => !(split_once(value@, '=') matches Some((k, v)) && valid_variable_name(k)) && e@ == (
                if split_once(value@, '=') is None {
                    "环境变量格式必须为 KEY=VALUE"@
                } else {
                    "环境变量名只能包含大写字母、数字和下划线"@
                }),
            },
    {
        let cs = chars_of(value);
        match split_once_exec(&cs, '=') {
            Some((k, v)) => {
                if k.len() == 0 {
                    return Err(String::from_str("环境变量名只能包含大写字母、数字和下划线"));
                }
                let mut i: usize = 0;
                while i < k.len()
                    invariant
                        i <= k@.len(),
                        split_once(value@, '=') == Some((k@, v@)),
                        forall|j: int| 0 <= j < i ==> is_upper(#[trigger] k@[j]) || is_digit(k@[j]) || k@[j] == '_',
                    decreases k.len() - i,
                {
                    let c = k[i];
                    if !(('A' <= c && c <= 'Z') || ('0' <= c && c <= '9') || c == '_') {
                        proof {
                            assert(!(is_upper(k@[i as int]) || is_digit(k@[i as int]) || k@[i as int] == '_'));
                            assert(!valid_variable_name(k@));
                        }
                        return Err(String::from_str("环境变量名只能包含大写字母、数字和下划线"));
                    }
                    i = i + 1;
                }
                Ok(EnvironmentArg { key: string_of(&k), value: string_of(&v) })
            },
            None => Err(String::from_str("环境变量格式必须为 KEY=VALUE")),
        }
    }
}


impl RouteArg {
    /// A route, `HOST:PORT`, split at the first `:`, with a host name and a non-zero port.
    pub fn parse(value: &str) -> (r: Result<RouteArg, String>)
        ensures
            match r {
                Ok(a) => (split_once(value@, ':') matches Some((h, p)) && h.len() > 0 && a.host@ == h
                    && port_arg(p) == Some(a.container_port as nat)),
                Err(e) => !(split_once(value@, ':') matches Some((h, p)) && h.len() > 0 && port_arg(p) is Some)
                    && e@ == (match split_once(value@, ':') {
                    None => "路由格式必须为 HOST:PORT"@,
                    Some((h, _)) => if h.len() == 0 {
                        "路由域名不能为空"@
                    } else {
                        "端口必须在 1..=65535 范围内"@
                    },
                }),
            },
    {
        let cs = chars_of(value);
        match split_once_exec(&cs, ':') {
            Some((h, p)) => {
                if h.len() == 0 {
                    return Err(String::from_str("路由域名不能为空"));
                }
                let ps = string_of(&p);
                let container_port = parse_port(ps.as_str())?;
                Ok(RouteArg { host: string_of(&h), container_port })
            },
            None => Err(String::from_str("路由格式必须为 HOST:PORT")),
        }
    }
}

impl LabelArg {
    /// A label, `KEY=VALUE`, split at the first `=`, with a non-empty key.
    pub fn parse(value: &str) -> (r: Result<LabelArg, String>)
        ensures
            match r {
                Ok(l) => (split_once(value@, '=') matches Some((k, v)) && k.len() > 0 && l.key@ == k
                    && l.value@ == v),
                Err(e) => !(split_once(value@, '=') matches Some((k, v)) && k.len() > 0) && e@ == (if split_once(
                    value@,
                    '=',
                ) is None {
                    "标签格式必须为 KEY=VALUE"@
                } else {
                    "标签名不能为空"@
                }),
            },
    {
        let cs = chars_of(value);
        match split_once_exec(&cs, '=') {
            Some((k, v)) => {
                if k.len() == 0 {
                    return Err(String::from_str("标签名不能为空"));
                }
                Ok(LabelArg { key: string_of(&k), value: string_of(&v) })
            },
            None => Err(String::from_str("标签格式必须为 KEY=VALUE")),
        }
    }
}

impl NamedVolumeArg {
    /// A named volume, `NAME:CONTAINER`, split at the first `:`, both parts non-empty.
    pub fn parse(value: &str) -> (r: Result<NamedVolumeArg, String>)
        ensures
            match r {
                Ok(m) => (split_once(value@, ':') matches Some((n, c)) && n.len() > 0 && c.len() > 0
                    && m.name@ == n && m.container@ == c),
                Err(e) => !(split_once(value@, ':') matches Some((n, c)) && n.len() > 0 && c.len() > 0) && e@
                    == (if split_once(value@, ':') is None {
                    "命名卷格式必须为 NAME:CONTAINER"@
                } else {
                    "命名卷名称和容器路径不能为空"@
                }),
            },
    {
        let cs = chars_of(value);
        match split_once_exec(&cs, ':') {
            Some((n, c)) => {
                if n.len() == 0 || c.len() == 0 {
                    return Err(String::from_str("命名卷名称和容器路径不能为空"));
                }
                Ok(NamedVolumeArg { name: string_of(&n), container: string_of(&c) })
            },
            None => Err(String::from_str("命名卷格式必须为 NAME:CONTAINER")),
        }
    }
}

// ---------------------------------------------------------------------------
// Requests built from arguments
// ---------------------------------------------------------------------------

/// The request for one port mapping.
pub open spec fn port_request(m: PortMappingArg, protocol: RequestProtocol) -> PortRequest {
    PortRequest { host_port: m.host as u32, container_port: m.container as u32, protocol }
}

/// The requested port mappings: the TCP ones, then the UDP ones, in order.
pub open spec fn port_requests(tcp: Seq<PortMappingArg>, udp: Seq<PortMappingArg>) -> Seq<PortRequest> {
    tcp.map_values(|m: PortMappingArg| port_request(m, RequestProtocol::Tcp)) + udp.map_values(
        |m: PortMappingArg| port_request(m, RequestProtocol::Udp),
    )
}

/// The port mappings of a request, TCP first, then UDP.
pub fn published_ports(tcp: &Vec<PortMappingArg>, udp: &Vec<PortMappingArg>) -> (r: Vec<PortRequest>)
    ensures
        r@ == port_requests(tcp@, udp@),
{
    let mut out: Vec<PortRequest> = Vec::new();
    let mut i: usize = 0;
    while i < tcp.len()
        invariant
            i <= tcp@.len(),
            out@ == tcp@.take(i as int).map_values(|m: PortMappingArg| port_request(m, RequestProtocol::Tcp)),
        decreases tcp.len() - i,
    {
        let m = tcp[i];
        out.push(PortRequest { host_port: m.host as u32, container_port: m.container as u32, protocol: RequestProtocol::Tcp });
        assert(tcp@.take(i + 1) =~= tcp@.take(i as int).push(m));
        i = i + 1;
    }
    assert(tcp@.take(tcp@.len() as int) =~= tcp@);
    let ghost head = out@;
    let mut j: usize = 0;
    while j < udp.len()
        invariant
            j <= udp@.len(),
            out@ == head + udp@.take(j as int).map_values(|m: PortMappingArg| port_request(m, RequestProtocol::Udp)),
        decreases udp.len() - j,
    {
        let m = udp[j];
        out.push(PortRequest { host_port: m.host as u32, container_port: m.container as u32, protocol: RequestProtocol::Udp });
        assert(udp@.take(j + 1) =~= udp@.take(j as int).push(m));
        j = j + 1;
    }
    assert(udp@.take(udp@.len() as int) =~= udp@);
    out
}

/// The request for one bind mount.
pub open spec fn volume_request(m: MountArg, read_only: bool) -> VolumeRequest {
    VolumeRequest { host_path: m.host, container_path: m.container, read_only }
}

/// The requested bind mounts: the writable ones, then the read-only ones, in order.
pub open spec fn volume_requests(volumes: Seq<MountArg>, read_only: Seq<MountArg>) -> Seq<VolumeRequest> {
    volumes.map_values(|m: MountArg| volume_request(m, false)) + read_only.map_values(
        |m: MountArg| volume_request(m, true),
    )
}

/// The bind mounts of a request, writable first, then read-only.
pub fn application_volumes(volumes: &Vec<MountArg>, read_only: &Vec<MountArg>) -> (r: Vec<VolumeRequest>)
    ensures
        r@ == volume_requests(volumes@, read_only@),
{
    let mut out: Vec<VolumeRequest> = Vec::new();
    let mut i: usize = 0;
    while i < volumes.len()
        invariant
            i <= volumes@.len(),
            out@ == volumes@.take(i as int).map_values(|m: MountArg| volume_request(m, false)),
        decreases volumes.len() - i,
    {
        let m = &volumes[i];
        out.push(VolumeRequest { host_path: m.host.clone(), container_path: m.container.clone(), read_only: false });
        assert(volumes@.take(i + 1) =~= volumes@.take(i as int).push(*m));
        i = i + 1;
    }
    assert(volumes@.take(volumes@.len() as int) =~= volumes@);
    let ghost head = out@;
    let mut j: usize = 0;
    while j < read_only.len()
        invariant
            j <= read_only@.len(),
            out@ == head + read_only@.take(j as int).map_values(|m: MountArg| volume_request(m, true)),
        decreases read_only.len() - j,
    {
        let m = &read_only[j];
        out.push(VolumeRequest { host_path: m.host.clone(), container_path: m.container.clone(), read_only: true });
        assert(read_only@.take(j + 1) =~= read_only@.take(j as int).push(*m));
        j = j + 1;
    }
    assert(read_only@.take(read_only@.len() as int) =~= read_only@);
    out
}

/// The request for one environment variable.
pub open spec fn environment_request(e: EnvironmentArg) -> EnvironmentVariable {
    EnvironmentVariable { key: e.key, value: e.value }
}

/// The environment variables of a request, in order.
pub fn application_environment(environment: &Vec<EnvironmentArg>) -> (r: Vec<EnvironmentVariable>)
    ensures
        r@ == environment@.map_values(|e: EnvironmentArg| environment_request(e)),
{
    let mut out: Vec<EnvironmentVariable> = Vec::new();
    let mut i: usize = 0;
    while i < environment.len()
        invariant
            i <= environment@.len(),
            out@ == environment@.take(i as int).map_values(|e: EnvironmentArg| environment_request(e)),
        decreases environment.len() - i,
    {
        let e = &environment[i];
        out.push(EnvironmentVariable { key: e.key.clone(), value: e.value.clone() });
        assert(environment@.take(i + 1) =~= environment@.take(i as int).push(*e));
        i = i + 1;
    }
    assert(environment@.take(environment@.len() as int) =~= environment@);
    out
}

/// A custom label as `KEY=VALUE` text.
pub open spec fn label_text(l: LabelArg) -> Seq<char> {
    l.key@ + seq!['='] + l.value@
}

/// The custom labels of a request, `KEY=VALUE`, in order.
pub fn application_labels(labels: &Vec<LabelArg>) -> (r: Vec<String>)
    ensures
        strs(r@) == labels@.map_values(|l: LabelArg| label_text(l)),
{
    let mut out: Vec<String> = Vec::new();
    let mut i: usize = 0;
    while i < labels.len()
        invariant
            i <= labels@.len(),
            strs(out@) == labels@.take(i as int).map_values(|l: LabelArg| label_text(l)),
        decreases labels.len() - i,
    {
        let l = &labels[i];
        let mut cs = chars_of(l.key.as_str());
        cs.push('=');
        let vs = chars_of(l.value.as_str());
        extend_chars(&mut cs, &vs);
        let text = string_of(&cs);
        assert(text@ =~= label_text(*l));
        let ghost before = out@;
        out.push(text);
        assert(strs(out@) =~= strs(before).push(text@));
        assert(labels@.take(i + 1) =~= labels@.take(i as int).push(*l));
        i = i + 1;
    }
    assert(labels@.take(labels@.len() as int) =~= labels@);
    out
}

/// The request for one named volume.
pub open spec fn named_volume_request(v: NamedVolumeArg) -> NamedVolumeRequest {
    NamedVolumeRequest { name: v.name, container_path: v.container }
}

/// The named volumes of a request, in order.
pub fn application_named_volumes(named_volumes: &Vec<NamedVolumeArg>) -> (r: Vec<NamedVolumeRequest>)
    ensures
        r@ == named_volumes@.map_values(|v: NamedVolumeArg| named_volume_request(v)),
{
    let mut out: Vec<NamedVolumeRequest> = Vec::new();
    let mut i: usize = 0;
    while i < named_volumes.len()
        invariant
            i <= named_volumes@.len(),
            out@ == named_volumes@.take(i as int).map_values(|v: NamedVolumeArg| named_volume_request(v)),
        decreases named_volumes.len() - i,
    {
        let v = &named_volumes[i];
        out.push(NamedVolumeRequest { name: v.name.clone(), container_path: v.container.clone() });
        assert(named_volumes@.take(i + 1) =~= named_volumes@.take(i as int).push(*v));
        i = i + 1;
    }
    assert(named_volumes@.take(named_volumes@.len() as int) =~= named_volumes@);
    out
}

/// The middleware of a request for a middleware argument.
pub open spec fn middleware_request(m: MiddlewareArg) -> RequestMiddleware {
    match m {
        MiddlewareArg::Gzip => RequestMiddleware::Gzip,
        MiddlewareArg::ForwardedHeaders => RequestMiddleware::ForwardedHeaders,
        MiddlewareArg::InternalOnly => RequestMiddleware::InternalOnly,
    }
}

/// The middleware of a request for a middleware argument.
pub fn middleware_input(m: MiddlewareArg) -> (r: RequestMiddleware)
    ensures
        r == middleware_request(m),
{
    match m {
        MiddlewareArg::Gzip => RequestMiddleware::Gzip,
        MiddlewareArg::ForwardedHeaders => RequestMiddleware::ForwardedHeaders,
        MiddlewareArg::InternalOnly => RequestMiddleware::InternalOnly,
    }
}

/// The middlewares of a request, in order.
pub fn middleware_inputs(ms: &Vec<MiddlewareArg>) -> (r: Vec<RequestMiddleware>)
    ensures
        r@ == ms@.map_values(|m: MiddlewareArg| middleware_request(m)),
{
    let mut out: Vec<RequestMiddleware> = Vec::new();
    let mut i: usize = 0;
    while i < ms.len()
        invariant
            i <= ms@.len(),
            out@ == ms@.take(i as int).map_values(|m: MiddlewareArg| middleware_request(m)),
        decreases ms.len() - i,
    {
        out.push(middleware_input(ms[i]));
        assert(ms@.take(i + 1) =~= ms@.take(i as int).push(ms@[i as int]));
        i = i + 1;
    }
    assert(ms@.take(ms@.len() as int) =~= ms@);
    out
}

/// The network mode and external network name that a network argument asks for,
/// or the message that refuses the combination.
pub open spec fn network_choice(network: NetworkArg, external: Option<Seq<char>>) -> Result<
    (RequestNetworkMode, Seq<char>),
    Seq<char>,
> {
    match external {
        None => match network {
            NetworkArg::Bridge => Ok((RequestNetworkMode::Bridge, Seq::empty())),
            NetworkArg::Host => Ok((RequestNetworkMode::Host, Seq::empty())),
            NetworkArg::External => Err("--network external 必须同时指定 --external-network"@),
        },
        Some(n) => if network == NetworkArg::External && n.len() > 0 {
            Ok((RequestNetworkMode::External, n))
        } else {
            Err("--external-network 只能与 --network external 一起使用"@)
        },
    }
}

/// The network mode and external network name of a request.
pub fn network_input(network: NetworkArg, external: &Option<String>) -> (r: Result<(RequestNetworkMode, String), String>)
    ensures
        match r {
            Ok((m, n)) => network_choice(network, opt_chars(*external)) == Ok::<(RequestNetworkMode, Seq<char>), Seq<char>>((m, n@)),
            Err(e) => network_choice(network, opt_chars(*external)) == Err::<(RequestNetworkMode, Seq<char>), Seq<char>>(e@),
        },
{
    match external {
        None => match network {
            NetworkArg::Bridge => Ok((RequestNetworkMode::Bridge, String::new())),
            NetworkArg::Host => Ok((RequestNetworkMode::Host, String::new())),
            NetworkArg::External => Err(String::from_str("--network external 必须同时指定 --external-network")),
        },
        Some(n) => {
            if network == NetworkArg::External && !n.as_str().is_empty() {
                Ok((RequestNetworkMode::External, n.clone()))
            } else {
                Err(String::from_str("--external-network 只能与 --network external 一起使用"))
            }
        },
    }
}

/// Whether any health check setting is given.
pub open spec fn healthcheck_given(
    cmd: Option<String>,
    interval: Option<String>,
    timeout: Option<String>,
    start_period: Option<String>,
    retries: Option<u32>,
) -> bool {
    cmd is Some || interval is Some || timeout is Some || start_period is Some || retries is Some
}

/// The text of an optional setting, empty when absent.
pub open spec fn text_or_empty(o: Option<String>) -> Seq<char> {
    match o {
        Some(s) => s@,
        None => Seq::empty(),
    }
}

/// The health check of a request: none when no setting is given; otherwise the
/// command must be given, not blank and free of line breaks and NUL.
pub fn healthcheck_input(
    cmd: &Option<String>,
    interval: &Option<String>,
    timeout: &Option<String>,
    start_period: &Option<String>,
    retries: Option<u32>,
) -> (r: Result<Option<HealthcheckRequest>, String>)
    ensures
        match r {
            Ok(None) => !healthcheck_given(*cmd, *interval, *timeout, *start_period, retries),
            Ok(Some(h)) => {
                &&& healthcheck_given(*cmd, *interval, *timeout, *start_period, retries)
                &&& cmd matches Some(c) && !is_blank(c@) && !has_line_break_or_nul(c@) && h.command@ == c@
                &&& h.interval@ == text_or_empty(*interval)
                &&& h.timeout@ == text_or_empty(*timeout)
                &&& opt_chars(h.start_period) == opt_chars(*start_period)
                &&& h.retries == (match retries {
                    Some(n) => n,
                    None => 0,
                })
            },
            Err(e) => {
                &&& healthcheck_given(*cmd, *interval, *timeout, *start_period, retries)
                &&& match cmd {
                    None => e@ == "指定健康检查参数时必须提供 --healthcheck-cmd"@,
                    Some(c) => (is_blank(c@) || has_line_break_or_nul(c@)) && e@
                        == "健康检查命令不能为空或包含控制字符"@,
                }
            },
        },
{
    let specified = cmd.is_some() || interval.is_some() || timeout.is_some() || start_period.is_some()
        || retries.is_some();
    if !specified {
        return Ok(None);
    }
    let command = match cmd {
        Some(c) => c,
        None => {
            return Err(String::from_str("指定健康检查参数时必须提供 --healthcheck-cmd"));
        },
    };
    let cs = chars_of(command.as_str());
    if is_blank_exec(&cs) || has_line_break_or_nul_exec(&cs) {
        return Err(String::from_str("健康检查命令不能为空或包含控制字符"));
    }
    let interval_text = match interval {
        Some(s) => s.clone(),
        None => String::new(),
    };
    let timeout_text = match timeout {
        Some(s) => s.clone(),
        None => String::new(),
    };
    let start_text = match start_period {
        Some(s) => Some(s.clone()),
        None => None,
    };
    let retries_value = match retries {
        Some(n) => n,
        None => 0,
    };
    Ok(
        Some(
            HealthcheckRequest {
                command: command.clone(),
                interval: interval_text,
                timeout: timeout_text,
                start_period: start_text,
                retries: retries_value,
            },
        ),
    )
}


/// A copy of an optional string.
fn clone_opt(o: &Option<String>) -> (r: Option<String>)
    ensures
        r == *o,
{
    match o {
        Some(s) => Some(s.clone()),
        None => None,
    }
}

/// Whether the parameters give any health check setting.
pub open spec fn params_healthcheck_given(p: AppParams) -> bool {
    healthcheck_given(
        p.healthcheck_cmd,
        p.healthcheck_interval,
        p.healthcheck_timeout,
        p.healthcheck_start_period,
        p.healthcheck_retries,
    )
}

/// Whether the health check settings are accepted: none given, or a command that
/// is not blank and holds no line break or NUL.
pub open spec fn healthcheck_settings_ok(p: AppParams) -> bool {
    !params_healthcheck_given(p) || (p.healthcheck_cmd matches Some(c) && !is_blank(c@)
        && !has_line_break_or_nul(c@))
}

/// The message that refuses the health check settings.
pub open spec fn healthcheck_error(p: AppParams) -> Seq<char> {
    match p.healthcheck_cmd {
        None => "指定健康检查参数时必须提供 --healthcheck-cmd"@,
        Some(_) => "健康检查命令不能为空或包含控制字符"@,
    }
}

/// Whether a requested health check is the one the settings describe.
pub open spec fn healthcheck_request_matches(h: Option<HealthcheckRequest>, p: AppParams) -> bool {
    match h {
        None => !params_healthcheck_given(p),
        Some(h) => {
            &&& params_healthcheck_given(p)
            &&& p.healthcheck_cmd matches Some(c) && h.command@ == c@
            &&& h.interval@ == text_or_empty(p.healthcheck_interval)
            &&& h.timeout@ == text_or_empty(p.healthcheck_timeout)
            &&& opt_chars(h.start_period) == opt_chars(p.healthcheck_start_period)
            &&& h.retries == (match p.healthcheck_retries {
                Some(n) => n,
                None => 0,
            })
        },
    }
}

/// The health check of some parameters.
fn params_healthcheck(p: &AppParams) -> (r: Result<Option<HealthcheckRequest>, String>)
    ensures
        match r {
            Ok(h) => healthcheck_settings_ok(*p) && healthcheck_request_matches(h, *p),
            Err(e) => !healthcheck_settings_ok(*p) && e@ == healthcheck_error(*p),
        },
{
    healthcheck_input(
        &p.healthcheck_cmd,
        &p.healthcheck_interval,
        &p.healthcheck_timeout,
        &p.healthcheck_start_period,
        p.healthcheck_retries,
    )
}

/// Whether the routes of a request are: one per host name, then one per explicit
/// route, each under `prefix`, the host routes on `port`.
pub open spec fn routes_match(
    out: Seq<RouteRequest>,
    hosts: Seq<String>,
    routes: Seq<RouteArg>,
    prefix: Seq<char>,
    port: u16,
) -> bool {
    &&& out.len() == hosts.len() + routes.len()
    &&& forall|i: int|
        0 <= i < hosts.len() ==> (#[trigger] out[i]).host == hosts[i] && out[i].path_prefix@ == prefix
            && out[i].container_port == port as u32
    &&& forall|j: int|
        0 <= j < routes.len() ==> out[hosts.len() + j].host == (#[trigger] routes[j]).host
            && out[hosts.len() + j].path_prefix@ == prefix && out[hosts.len() + j].container_port
            == routes[j].container_port as u32
}

/// The routes of a request: one per host name on `port`, then the explicit ones,
/// all under `prefix`.
pub fn route_requests(hosts: &Vec<String>, routes: &Vec<RouteArg>, prefix: &str, port: u16) -> (r: Vec<
    RouteRequest,
>)
    ensures
        routes_match(r@, hosts@, routes@, prefix@, port),
{
    let mut out: Vec<RouteRequest> = Vec::new();
    let mut i: usize = 0;
    while i < hosts.len()
        invariant
            i <= hosts@.len(),
            out@.len() == i,
            forall|k: int|
                0 <= k < i ==> (#[trigger] out@[k]).host == hosts@[k] && out@[k].path_prefix@ == prefix@
                    && out@[k].container_port == port as u32,
        decreases hosts.len() - i,
    {
        out.push(
            RouteRequest {
                host: hosts[i].clone(),
                path_prefix: String::from_str(prefix),
                container_port: port as u32,
            },
        );
        i = i + 1;
    }
    let mut j: usize = 0;
    while j < routes.len()
        invariant
            j <= routes@.len(),
            out@.len() == hosts@.len() + j,
            forall|k: int|
                0 <= k < hosts@.len() ==> (#[trigger] out@[k]).host == hosts@[k] && out@[k].path_prefix@
                    == prefix@ && out@[k].container_port == port as u32,
            forall|k: int|
                0 <= k < j ==> out@[hosts@.len() + k].host == (#[trigger] routes@[k]).host
                    && out@[hosts@.len() + k].path_prefix@ == prefix@ && out@[hosts@.len() + k].container_port
                    == routes@[k].container_port as u32,
        decreases routes.len() - j,
    {
        let route = &routes[j];
        out.push(
            RouteRequest {
                host: route.host.clone(),
                path_prefix: String::from_str(prefix),
                container_port: route.container_port as u32,
            },
        );
        j = j + 1;
    }
    out
}

/// The network mode of an application argument list: the bridge when not given.
pub open spec fn network_or_bridge(n: Option<NetworkArg>) -> NetworkArg {
    match n {
        Some(n) => n,
        None => NetworkArg::Bridge,
    }
}

/// The default container port of an application: 80 when not given.
pub open spec fn port_or_default(p: Option<u16>) -> u16 {
    match p {
        Some(p) => p,
        None => 80,
    }
}

/// Whether the arguments of a new application are accepted.
pub open spec fn add_accepted(a: AddArgs) -> bool {
    &&& !(a.join && a.service is None)
    &&& network_choice(network_or_bridge(a.params.network), opt_chars(a.params.external_network)) is Ok
    &&& healthcheck_settings_ok(a.params)
}

/// The message that refuses the arguments of a new application.
pub open spec fn add_error(a: AddArgs) -> Seq<char> {
    if a.join && a.service is None {
        "追加服务时必须指定 --service"@
    } else {
        match network_choice(network_or_bridge(a.params.network), opt_chars(a.params.external_network)) {
            Err(m) => m,
            Ok(_) => healthcheck_error(a.params),
        }
    }
}

/// Whether a request is the one that the arguments of a new application describe.
pub open spec fn add_request_matches(q: CreateApplicationRequest, a: AddArgs) -> bool {
    let p = a.params;
    let port = port_or_default(p.container_port);
    &&& q.name == a.name
    &&& q.service@ == (match a.service {
        Some(s) => s@,
        None => "app"@,
    })
    &&& q.image == a.image
    &&& q.version == a.version
    &&& strs(q.command@) == strs(p.command@)
    &&& q.container_port == port as u32
    &&& routes_match(q.routes@, p.hosts@, p.routes@, text_or_empty(p.path_prefix), port)
    &&& q.published_ports@ == port_requests(p.tcp_ports@, p.udp_ports@)
    &&& q.volumes@ == volume_requests(p.volumes@, p.read_only_volumes@)
    &&& q.environment@ == p.environment@.map_values(|e: EnvironmentArg| environment_request(e))
    &&& network_choice(network_or_bridge(p.network), opt_chars(p.external_network)) == Ok::<
        (RequestNetworkMode, Seq<char>),
        Seq<char>,
    >((q.network_mode, q.external_network@))
    &&& q.middlewares@ == p.middleware@.map_values(|m: MiddlewareArg| middleware_request(m))
    &&& strs(q.labels@) == p.labels@.map_values(|l: LabelArg| label_text(l))
    &&& q.named_volumes@ == p.named_volumes@.map_values(|v: NamedVolumeArg| named_volume_request(v))
    &&& healthcheck_request_matches(q.healthcheck, p)
    &&& q.join == a.join
    &&& q.start == a.start
    &&& q.force == a.force
}

/// The request that creates an application from its arguments: the container port
/// defaults to 80, the service to `app` unless the service joins a project, every
/// host name becomes a route on the container port, and every route shares the
/// path prefix.
pub fn create_application_request(a: &AddArgs) -> (r: Result<CreateApplicationRequest, String>)
    ensures
        match r {
            Ok(q) => add_accepted(*a) && add_request_matches(q, *a),
            Err(e) => !add_accepted(*a) && e@ == add_error(*a),
        },
{
    let p = &a.params;
    let port: u16 = match p.container_port {
        Some(v) => v,
        None => 80,
    };
    let service = match &a.service {
        Some(s) => s.clone(),
        None => {
            if a.join {
                return Err(String::from_str("追加服务时必须指定 --service"));
            }
            String::from_str("app")
        },
    };
    let network = match p.network {
        Some(n) => n,
        None => NetworkArg::Bridge,
    };
    let (network_mode, external_network) = network_input(network, &p.external_network)?;
    let healthcheck = params_healthcheck(p)?;
    let prefix = match &p.path_prefix {
        Some(s) => s.clone(),
        None => String::new(),
    };
    Ok(
        CreateApplicationRequest {
            name: a.name.clone(),
            service,
            image: a.image.clone(),
            version: a.version.clone(),
            command: copy_strings(&p.command),
            container_port: port as u32,
            routes: route_requests(&p.hosts, &p.routes, prefix.as_str(), port),
            published_ports: published_ports(&p.tcp_ports, &p.udp_ports),
            volumes: application_volumes(&p.volumes, &p.read_only_volumes),
            environment: application_environment(&p.environment),
            network_mode,
            external_network,
            middlewares: middleware_inputs(&p.middleware),
            labels: application_labels(&p.labels),
            named_volumes: application_named_volumes(&p.named_volumes),
            healthcheck,
            join: a.join,
            start: a.start,
            force: a.force,
        },
    )
}


/// Whether an edit gives any change.
pub open spec fn edit_changes(p: AppParams, service: bool, image: bool, version: bool, no_healthcheck: bool) -> bool {
    service || image || version || no_healthcheck || p.command@.len() > 0 || p.container_port is Some
        || p.hosts@.len() > 0 || p.routes@.len() > 0 || p.path_prefix is Some || p.tcp_ports@.len() > 0
        || p.udp_ports@.len() > 0 || p.volumes@.len() > 0 || p.read_only_volumes@.len() > 0
        || p.environment@.len() > 0 || p.network is Some || p.external_network is Some
        || p.middleware@.len() > 0 || p.labels@.len() > 0 || p.named_volumes@.len() > 0
        || params_healthcheck_given(p)
}

/// Whether an edit gives any change.
pub fn edit_has_changes(p: &AppParams, service: bool, image: bool, version: bool, no_healthcheck: bool) -> (r:
    bool)
    ensures
        r == edit_changes(*p, service, image, version, no_healthcheck),
{
    service || image || version || no_healthcheck || p.command.len() > 0 || p.container_port.is_some()
        || p.hosts.len() > 0 || p.routes.len() > 0 || p.path_prefix.is_some() || p.tcp_ports.len() > 0
        || p.udp_ports.len() > 0 || p.volumes.len() > 0 || p.read_only_volumes.len() > 0
        || p.environment.len() > 0 || p.network.is_some() || p.external_network.is_some()
        || p.middleware.len() > 0 || p.labels.len() > 0 || p.named_volumes.len() > 0
        || p.healthcheck_cmd.is_some() || p.healthcheck_interval.is_some() || p.healthcheck_timeout.is_some()
        || p.healthcheck_start_period.is_some() || p.healthcheck_retries.is_some()
}

/// The network change of an edit: none when neither mode nor external network is
/// given; an external network alone is refused; an empty name means none.
pub open spec fn edit_network_choice(network: Option<NetworkArg>, external: Option<Seq<char>>) -> Result<
    (Option<RequestNetworkMode>, Option<Seq<char>>),
    Seq<char>,
> {
    match network {
        Some(n) => match network_choice(n, external) {
            Ok((m, name)) => Ok(
                (
                    Some(m),
                    if name.len() > 0 {
                        Some(name)
                    } else {
                        None
                    },
                ),
            ),
            Err(e) => Err(e),
        },
        None => match external {
            Some(_) => Err("--external-network 只能与 --network external 一起使用"@),
            None => Ok((None, None)),
        },
    }
}

/// Whether an edit is accepted.
pub open spec fn update_accepted(a: EditArgs) -> bool {
    &&& edit_changes(a.params, a.service is Some, a.image is Some, a.version is Some, a.no_healthcheck)
    &&& edit_network_choice(a.params.network, opt_chars(a.params.external_network)) is Ok
    &&& healthcheck_settings_ok(a.params)
    &&& !(a.no_healthcheck && params_healthcheck_given(a.params))
}

/// The message that refuses an edit.
pub open spec fn update_error(a: EditArgs) -> Seq<char> {
    if !edit_changes(a.params, a.service is Some, a.image is Some, a.version is Some, a.no_healthcheck) {
        "未提供任何修改参数或 --compose"@
    } else {
        match edit_network_choice(a.params.network, opt_chars(a.params.external_network)) {
            Err(m) => m,
            Ok(_) => if !healthcheck_settings_ok(a.params) {
                healthcheck_error(a.params)
            } else {
                "--no-healthcheck 不能与健康检查参数同时使用"@
            },
        }
    }
}

/// Whether a request is the one that an edit describes.
pub open spec fn update_request_matches(q: UpdateApplicationRequest, a: EditArgs) -> bool {
    let p = a.params;
    &&& q.name == a.name
    &&& opt_chars(q.service) == opt_chars(a.service)
    &&& opt_chars(q.image) == opt_chars(a.image)
    &&& opt_chars(q.version) == opt_chars(a.version)
    &&& strs(q.command@) == strs(p.command@)
    &&& q.container_port == (match p.container_port {
        Some(v) => Some(v as u32),
        None => None,
    })
    &&& routes_match(q.routes@, Seq::empty(), p.routes@, Seq::empty(), 0)
    &&& q.published_ports@ == port_requests(p.tcp_ports@, p.udp_ports@)
    &&& q.volumes@ == volume_requests(p.volumes@, p.read_only_volumes@)
    &&& q.environment@ == p.environment@.map_values(|e: EnvironmentArg| environment_request(e))
    &&& edit_network_choice(p.network, opt_chars(p.external_network)) == Ok::<
        (Option<RequestNetworkMode>, Option<Seq<char>>),
        Seq<char>,
    >((q.network_mode, opt_chars(q.external_network)))
    &&& q.middlewares@ == p.middleware@.map_values(|m: MiddlewareArg| middleware_request(m))
    &&& strs(q.labels@) == p.labels@.map_values(|l: LabelArg| label_text(l))
    &&& q.named_volumes@ == p.named_volumes@.map_values(|v: NamedVolumeArg| named_volume_request(v))
    &&& opt_chars(q.path_prefix) == opt_chars(p.path_prefix)
    &&& strs(q.hosts@) == strs(p.hosts@)
    &&& healthcheck_request_matches(q.healthcheck, p)
    &&& q.remove_healthcheck == a.no_healthcheck
    &&& q.start == a.start
}

/// The request of an edit by parameters; settings not given stay as they are.
/// Explicit routes carry no path prefix of their own: the prefix is a separate change.
pub fn update_application_request(a: &EditArgs) -> (r: Result<UpdateApplicationRequest, String>)
    ensures
        match r {
            Ok(q) => update_accepted(*a) && update_request_matches(q, *a),
            Err(e) => !update_accepted(*a) && e@ == update_error(*a),
        },
{
    let p = &a.params;
    if !edit_has_changes(p, a.service.is_some(), a.image.is_some(), a.version.is_some(), a.no_healthcheck) {
        return Err(String::from_str("未提供任何修改参数或 --compose"));
    }
    let (network_mode, external_network) = match p.network {
        Some(n) => {
            let (mode, name) = network_input(n, &p.external_network)?;
            let external = if name.as_str().is_empty() {
                None
            } else {
                Some(name)
            };
            (Some(mode), external)
        },
        None => match &p.external_network {
            Some(_) => {
                return Err(String::from_str("--external-network 只能与 --network external 一起使用"));
            },
            None => (None, None),
        },
    };
    let healthcheck = params_healthcheck(p)?;
    if a.no_healthcheck && healthcheck.is_some() {
        return Err(String::from_str("--no-healthcheck 不能与健康检查参数同时使用"));
    }
    let container_port = match p.container_port {
        Some(v) => Some(v as u32),
        None => None,
    };
    let no_hosts: Vec<String> = Vec::new();
    proof {
        reveal_strlit("");
        assert(""@ =~= Seq::<char>::empty());
    }
    Ok(
        UpdateApplicationRequest {
            name: a.name.clone(),
            service: clone_opt(&a.service),
            image: clone_opt(&a.image),
            version: clone_opt(&a.version),
            command: copy_strings(&p.command),
            container_port,
            routes: route_requests(&no_hosts, &p.routes, "", 0),
            published_ports: published_ports(&p.tcp_ports, &p.udp_ports),
            volumes: application_volumes(&p.volumes, &p.read_only_volumes),
            environment: application_environment(&p.environment),
            network_mode,
            external_network,
            middlewares: middleware_inputs(&p.middleware),
            labels: application_labels(&p.labels),
            named_volumes: application_named_volumes(&p.named_volumes),
            path_prefix: clone_opt(&p.path_prefix),
            hosts: copy_strings(&p.hosts),
            healthcheck,
            remove_healthcheck: a.no_healthcheck,
            start: a.start,
        },
    )
}


/// The service operation of a service command.
pub open spec fn service_action_of(cmd: ServiceCmd) -> ServiceAction {
    match cmd {
        ServiceCmd::Start => ServiceAction::Start,
        ServiceCmd::Stop => ServiceAction::Stop,
        ServiceCmd::Restart => ServiceAction::Restart,
        ServiceCmd::Status => ServiceAction::Status,
    }
}

/// The service operation of a service command.
pub fn service_action(cmd: ServiceCmd) -> (r: ServiceAction)
    ensures
        r == service_action_of(cmd),
{
    match cmd {
        ServiceCmd::Start => ServiceAction::Start,
        ServiceCmd::Stop => ServiceAction::Stop,
        ServiceCmd::Restart => ServiceAction::Restart,
        ServiceCmd::Status => ServiceAction::Status,
    }
}

/// `s` without trailing line feeds and carriage returns, as
/// `str::trim_end_matches(['\n', '\r'])` gives it.
pub open spec fn trim_line_ends(s: Seq<char>) -> Seq<char>
    decreases s.len(),
{
    if s.len() > 0 && (s.last() == '\n' || s.last() == '\r') {
        trim_line_ends(s.drop_last())
    } else {
        s
    }
}

/// The secret held in a file's content, without trailing line breaks; an empty
/// secret is refused with a message that names the file.
pub fn secret_value(content: &str, path: &str) -> (r: Result<String, String>)
    ensures
        match r {
            Ok(v) => v@ == trim_line_ends(content@) && v@.len() > 0,
            Err(e) => trim_line_ends(content@).len() == 0 && e@ == "密钥文件不能为空: "@ + path@,
        },
{
    let cs = chars_of(content);
    let mut end: usize = cs.len();
    assert(cs@.take(end as int) =~= cs@);
    while end > 0 && (cs[end - 1] == '\n' || cs[end - 1] == '\r')
        invariant
            end <= cs@.len(),
            trim_line_ends(cs@.take(end as int)) == trim_line_ends(cs@),
        decreases end,
    {
        assert(cs@.take(end - 1) =~= cs@.take(end as int).drop_last());
        end = end - 1;
    }
    let kept = sub_chars(&cs, 0, end);
    assert(kept@ =~= cs@.take(end as int));
    assert(trim_line_ends(cs@.take(end as int)) == cs@.take(end as int));
    if end == 0 {
        let mut message = chars_of("密钥文件不能为空: ");
        let ps = chars_of(path);
        extend_chars(&mut message, &ps);
        return Err(string_of(&message));
    }
    Ok(string_of(&kept))
}

/// The request that creates the Traefik infrastructure: the configured domain when
/// none is given, with the secret read from the token file.
pub fn infrastructure_request(cmd: &InfraCmd, cloudflare_token: String) -> (r: InitializeInfrastructureRequest)
    ensures
        match *cmd {
            InfraCmd::Init { domain, acme_email, traefik_version, http_port, https_port, start, force, .. } => {
                &&& r.domain@ == text_or_empty(domain)
                &&& r.acme_email == acme_email
                &&& r.cloudflare_token == cloudflare_token
                &&& r.traefik_version == traefik_version
                &&& r.http_port == http_port as u32
                &&& r.https_port == https_port as u32
                &&& r.start == start
                &&& r.force == force
            },
        },
{
    match cmd {
        InfraCmd::Init { domain, acme_email, traefik_version, http_port, https_port, start, force, .. } => {
            InitializeInfrastructureRequest {
                domain: match domain {
                    Some(d) => d.clone(),
                    None => String::new(),
                },
                acme_email: acme_email.clone(),
                cloudflare_token,
                traefik_version: traefik_version.clone(),
                http_port: *http_port as u32,
                https_port: *https_port as u32,
                start: *start,
                force: *force,
            }
        },
    }
}

/// The request that creates a static site from its arguments and collected files.
pub fn static_site_request(
    name: &String,
    host: &String,
    assets: Vec<StaticAsset>,
    middleware: &Vec<MiddlewareArg>,
    nginx_version: &String,
    start: bool,
    force: bool,
) -> (r: CreateStaticSiteRequest)
    ensures
        r.name == *name,
        r.host == *host,
        r.assets == assets,
        r.middlewares@ == middleware@.map_values(|m: MiddlewareArg| middleware_request(m)),
        r.nginx_version == *nginx_version,
        r.start == start,
        r.force == force,
{
    CreateStaticSiteRequest {
        name: name.clone(),
        host: host.clone(),
        assets,
        middlewares: middleware_inputs(middleware),
        nginx_version: nginx_version.clone(),
        start,
        force,
    }
}

/// Most files a static site may hold.
pub const MAX_SITE_FILES: usize = 10000;

/// Most bytes a static site may hold: 64 MiB.
pub const MAX_SITE_BYTES: u64 = 67108864;

/// The running total of a static site's bytes after one more file of `size` bytes,
/// with `count` files collected before it; refused once the site would pass either
/// limit.
pub fn accept_asset(count: usize, total: u64, size: u64) -> (r: Result<u64, String>)
    ensures
        match r {
            Ok(t) => count < MAX_SITE_FILES && t == total + size && t <= MAX_SITE_BYTES,
            Err(e) => (count >= MAX_SITE_FILES || total + size > MAX_SITE_BYTES) && e@
                == "静态站点最多包含 10000 个文件且总大小不能超过 64 MiB"@,
        },
{
    let message = "静态站点最多包含 10000 个文件且总大小不能超过 64 MiB";
    if count >= MAX_SITE_FILES {
        return Err(String::from_str(message));
    }
    match total.checked_add(size) {
        Some(t) => if t > MAX_SITE_BYTES {
            Err(String::from_str(message))
        } else {
            Ok(t)
        },
        None => Err(String::from_str(message)),
    }
}

} // verus!
