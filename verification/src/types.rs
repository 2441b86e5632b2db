//! Typed inputs and outputs of stack generation.

use vstd::prelude::*;

verus! {

/// Parameters of the Traefik infrastructure stack.
pub struct InfraSpec {
    /// Primary domain.
    pub domain: String,
    /// ACME notification address.
    pub acme_email: String,
    /// Cloudflare API token.
    pub cloudflare_token: String,
    /// Traefik image version.
    pub traefik_version: String,
    /// Host port mapped to the HTTP entry point.
    pub http_port: u16,
    /// Host port mapped to the HTTPS and HTTP/3 entry point.
    pub https_port: u16,
}

/// Parameters of a single-service application.
pub struct AppSpec {
    /// Compose project name.
    pub name: String,
    /// Compose service name.
    pub service: String,
    /// Image repository, without a tag.
    pub image: String,
    /// Image version tag.
    pub version: String,
    /// Arguments that replace the image's default command.
    pub command: Vec<String>,
    /// Container port that routes default to.
    pub container_port: u16,
    /// HTTP routes.
    pub routes: Vec<Route>,
    /// Host port mappings.
    pub published_ports: Vec<PublishedPort>,
    /// Bind mounts.
    pub volumes: Vec<Volume>,
    /// Environment variables, sorted by name, no name twice.
    pub environment: Vec<(String, String)>,
    /// Network mode.
    pub network_mode: NetworkMode,
    /// Traefik middlewares.
    pub middlewares: Vec<Middleware>,
    /// Extra Docker labels, `KEY=VALUE`.
    pub labels: Vec<String>,
    /// Named volumes.
    pub named_volumes: Vec<NamedVolume>,
    /// Container health check.
    pub healthcheck: Option<HealthcheckSpec>,
}

/// Health check parameters.
pub struct HealthcheckSpec {
    /// Command, run in `CMD-SHELL` form.
    pub command: String,
    /// Interval between checks.
    pub interval: String,
    /// Timeout of one check.
    pub timeout: String,
    /// Start period.
    pub start_period: Option<String>,
    /// Retries before the container counts as unhealthy.
    pub retries: u32,
}

/// A named volume of an application.
pub struct NamedVolume {
    /// Volume name.
    pub name: String,
    /// Path inside the container.
    pub container_path: String,
}

/// Parameters of a static site.
pub struct StaticSiteSpec {
    /// Compose project name.
    pub name: String,
    /// Fully qualified host name.
    pub host: String,
    /// Site files.
    pub assets: Vec<StaticAsset>,
    /// Traefik middlewares.
    pub middlewares: Vec<Middleware>,
    /// Nginx image version.
    pub nginx_version: String,
}

/// An HTTP route of an application.
pub struct Route {
    /// Fully qualified host name.
    pub host: String,
    /// Optional URL path prefix.
    pub path_prefix: Option<String>,
    /// Container port this route reaches.
    pub container_port: u16,
}

/// The model of a route.
pub struct RouteView {
    /// Host name.
    pub host: Seq<char>,
    /// Path prefix.
    pub path_prefix: Option<Seq<char>>,
    /// Container port.
    pub container_port: nat,
}

/// The model of a route.
pub open spec fn route_view(r: Route) -> RouteView {
    RouteView {
        host: r.host@,
        path_prefix: match r.path_prefix {
            Some(p) => Some(p@),
            None => None,
        },
        container_port: r.container_port as nat,
    }
}

/// The models of some routes.
pub open spec fn routes_view(v: Seq<Route>) -> Seq<RouteView> {
    v.map_values(|r: Route| route_view(r))
}

/// A host port mapping.
#[derive(Clone, Copy)]
pub struct PublishedPort {
    /// Host port.
    pub host_port: u16,
    /// Container port.
    pub container_port: u16,
    /// Transport protocol.
    pub protocol: PortProtocol,
}

/// Transport protocol of a port mapping.
#[derive(Clone, Copy, Debug, PartialEq, Eq, Structural)]
pub enum PortProtocol {
    /// TCP.
    Tcp,
    /// UDP.
    Udp,
}

/// The suffix that a Compose port mapping uses for `p`.
pub open spec fn protocol_suffix(p: PortProtocol) -> Seq<char> {
    match p {
        PortProtocol::Tcp => "tcp"@,
        PortProtocol::Udp => "udp"@,
    }
}

impl PortProtocol {
    /// The suffix that a Compose port mapping uses.
    pub fn compose_suffix(self) -> (r: &'static str)
        ensures
            r@ == protocol_suffix(self),
    {
        match self {
            PortProtocol::Tcp => "tcp",
            PortProtocol::Udp => "udp",
        }
    }
}

/// A bind mount of an application.
pub struct Volume {
    /// Host path.
    pub host_path: String,
    /// Container path.
    pub container_path: String,
    /// Whether the mount is read-only.
    pub read_only: bool,
}

/// Network mode of an application.
pub enum NetworkMode {
    /// The Compose default bridge network.
    Bridge,
    /// The host network.
    Host,
    /// A named external network.
    External(String),
}

/// A Traefik middleware that applications may reference.
#[derive(Clone, Copy, Debug, PartialEq, Eq, Structural)]
pub enum Middleware {
    /// Response compression.
    Gzip,
    /// HTTPS forwarding headers.
    ForwardedHeaders,
    /// Private address allow list.
    InternalOnly,
}

/// The file-provider reference of `m`.
pub open spec fn middleware_ref(m: Middleware) -> Seq<char> {
    match m {
        Middleware::Gzip => "gzip@file"@,
        Middleware::ForwardedHeaders => "forwarded-headers@file"@,
        Middleware::InternalOnly => "internal-only@file"@,
    }
}

/// The middleware whose file-provider reference is `s`.
pub open spec fn middleware_of_ref(s: Seq<char>) -> Option<Middleware> {
    if s == "gzip@file"@ {
        Some(Middleware::Gzip)
    } else if s == "forwarded-headers@file"@ {
        Some(Middleware::ForwardedHeaders)
    } else if s == "internal-only@file"@ {
        Some(Middleware::InternalOnly)
    } else {
        None
    }
}

impl Middleware {
    /// The Traefik file-provider reference.
    pub fn label_ref(self) -> (r: &'static str)
        ensures
            r@ == middleware_ref(self),
    {
        match self {
            Middleware::Gzip => "gzip@file",
            Middleware::ForwardedHeaders => "forwarded-headers@file",
            Middleware::InternalOnly => "internal-only@file",
        }
    }

    /// The middleware named by a Traefik file-provider reference.
    pub fn from_label_ref(value: &str) -> (r: Option<Middleware>)
        ensures
            r == middleware_of_ref(value@),
    {
        if crate::text::str_eq(value, "gzip@file") {
            Some(Middleware::Gzip)
        } else if crate::text::str_eq(value, "forwarded-headers@file") {
            Some(Middleware::ForwardedHeaders)
        } else if crate::text::str_eq(value, "internal-only@file") {
            Some(Middleware::InternalOnly)
        } else {
            None
        }
    }
}

/// Reading back a middleware's reference gives the middleware, and a reference that
/// reads back as a middleware is that middleware's reference.
pub proof fn law_middleware_ref_round_trip(m: Middleware, s: Seq<char>)
    ensures
        middleware_of_ref(middleware_ref(m)) == Some(m),
        middleware_of_ref(s) == Some(m) ==> middleware_ref(m) == s,
{
    reveal_strlit("gzip@file");
    reveal_strlit("forwarded-headers@file");
    reveal_strlit("internal-only@file");
    assert("gzip@file"@.len() == 9);
    assert("forwarded-headers@file"@.len() == 22);
    assert("internal-only@file"@.len() == 18);
}

/// One file of a static site.
pub struct StaticAsset {
    /// Path relative to the site root.
    pub path: String,
    /// File content.
    pub content: Vec<u8>,
}

/// A generated Compose project, ready to deploy.
pub struct GeneratedStack {
    /// Compose project name.
    pub name: String,
    /// The Compose document.
    pub compose: crate::compose::Document,
    /// Content of the environment file.
    pub env_file: String,
    /// Extra files of the project.
    pub files: Vec<GeneratedFile>,
}

/// An extra file of a Compose project.
pub struct GeneratedFile {
    /// Path relative to the project directory.
    pub path: String,
    /// File content.
    pub content: Vec<u8>,
    /// Unix permission bits.
    pub mode: u32,
}

} // verus!
