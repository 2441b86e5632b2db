//! Generation of the Traefik infrastructure project.

use crate::compose::{Document, Healthcheck, Logging, Network, Service};
use crate::error::InvalidInput;
use crate::gen::{join_path, path_join, quote_env, quote_env_spec, strs};
use crate::kv::{sorted_keys, str_lt};
use crate::text::{
    chars_of, decimal, decimal_string, has_char, has_char_exec, has_line_break_or_nul,
    has_line_break_or_nul_exec, is_blank, is_blank_exec,
};
use crate::types::{GeneratedFile, GeneratedStack, InfraSpec, PortProtocol};
use vstd::prelude::*;

verus! {

// ---------------------------------------------------------------------------
// Specifications
// ---------------------------------------------------------------------------

/// A setting that may not be blank nor hold a line break or NUL.
pub open spec fn valid_setting(v: Seq<char>) -> bool {
    !is_blank(v) && !has_line_break_or_nul(v)
}

/// What the infrastructure generator accepts: every setting filled in, and a domain
/// with a dot and without `/`, `` ` `` or spaces.
pub open spec fn valid_infra(s: InfraSpec) -> bool {
    &&& valid_setting(s.domain@)
    &&& valid_setting(s.acme_email@)
    &&& valid_setting(s.cloudflare_token@)
    &&& valid_setting(s.traefik_version@)
    &&& has_char(s.domain@, '.')
    &&& !has_char(s.domain@, '/')
    &&& !has_char(s.domain@, '`')
    &&& !has_char(s.domain@, ' ')
}

/// Why the infrastructure generator refuses its parameters: the first check that
/// fails, in the order the settings are checked.
pub open spec fn infra_error(s: InfraSpec) -> Seq<char> {
    if !valid_setting(s.domain@) {
        "主域名不能为空或包含换行/空字符"@
    } else if !valid_setting(s.acme_email@) {
        "ACME 邮箱不能为空或包含换行/空字符"@
    } else if !valid_setting(s.cloudflare_token@) {
        "Cloudflare 令牌不能为空或包含换行/空字符"@
    } else if !valid_setting(s.traefik_version@) {
        "Traefik 版本不能为空或包含换行/空字符"@
    } else {
        "主域名格式无效: "@ + s.domain@
    }
}

/// Where plain HTTP is redirected: the HTTPS entry point, or the host HTTPS port
/// when it is not 443.
pub open spec fn redirect_target(https_port: u16) -> Seq<char> {
    if https_port == 443 {
        "https"@
    } else {
        ":"@ + decimal(https_port as nat)
    }
}

/// The arguments that Traefik starts with; the HTTP redirect and the advertised
/// HTTP/3 port follow the host HTTPS port.
pub open spec fn traefik_args(https_port: u16) -> Seq<Seq<char>> {
    seq![
        "--global.sendanonymoususage=false"@,
        "--global.checknewversion=false"@,
        "--api=true"@,
        "--api.dashboard=true"@,
        "--api.debug=false"@,
        "--api.disabledashboardad=true"@,
        "--api.insecure=false"@,
        "--ping=true"@,
        "--log.level=INFO"@,
        "--log.format=common"@,
        "--log.nocolor=true"@,
        "--accesslog=false"@,
        "--metrics.prometheus=false"@,
        "--tracing=false"@,
        "--providers.docker=true"@,
        "--providers.docker.endpoint=unix:///var/run/docker.sock"@,
        "--providers.docker.watch=true"@,
        "--providers.docker.exposedbydefault=false"@,
        "--providers.docker.usebindportip=false"@,
        "--providers.docker.network=nihility-traefik"@,
        "--providers.file=true"@,
        "--providers.file.directory=/etc/traefik/config"@,
        "--providers.file.watch=true"@,
        "--entrypoints.http.address=:80"@,
    ] + seq![
        "--entrypoints.http.http.redirections.entrypoint.to="@ + redirect_target(https_port),
        "--entrypoints.http.http.redirections.entrypoint.scheme=https"@,
        "--entrypoints.http.http.redirections.entrypoint.permanent=true"@,
        "--entrypoints.https.address=:443"@,
        "--entrypoints.https.asdefault=true"@,
        "--entrypoints.https.http3=true"@,
        "--entrypoints.https.http3.advertisedport="@ + decimal(https_port as nat),
    ] + seq![
        "--certificatesresolvers.cloudflare.acme.email=${ACME_EMAIL}"@,
        "--certificatesresolvers.cloudflare.acme.storage=/data/acme.json"@,
        "--certificatesresolvers.cloudflare.acme.keytype=EC256"@,
        "--certificatesresolvers.cloudflare.acme.dnschallenge=true"@,
        "--certificatesresolvers.cloudflare.acme.dnschallenge.provider=cloudflare"@,
        "--certificatesresolvers.cloudflare.acme.dnschallenge.resolvers=1.1.1.1:53,8.8.8.8:53"@,
        "--certificatesresolvers.cloudflare.acme.dnschallenge.propagation.delaybeforechecks=30s"@,
    ]
}

/// The labels of the Traefik service, with the dashboard on `traefik.DOMAIN`.
pub open spec fn traefik_labels(domain: Seq<char>) -> Seq<Seq<char>> {
    seq![
        "traefik.enable=true"@,
        "traefik.docker.network=nihility-traefik"@,
        "traefik.http.routers.dashboard.entrypoints=https"@,
        "traefik.http.routers.dashboard.rule=Host(`traefik."@ + domain + "`)"@,
        "traefik.http.routers.dashboard.service=api@internal"@,
        "traefik.http.routers.dashboard.tls=true"@,
        "traefik.http.routers.dashboard.tls.certresolver=cloudflare"@,
        "traefik.http.routers.dashboard.tls.domains[0].main="@ + domain,
        "traefik.http.routers.dashboard.tls.domains[0].sans=*."@ + domain,
        "traefik.http.routers.dashboard.middlewares=internal-only@file"@,
    ]
}

/// The port mappings of the Traefik service: HTTP, HTTPS and HTTP/3.
pub open spec fn traefik_ports(s: InfraSpec) -> Seq<Seq<char>> {
    seq![
        decimal(s.http_port as nat) + ":80"@,
        decimal(s.https_port as nat) + ":443"@,
        decimal(s.https_port as nat) + ":443/udp"@,
    ]
}

/// The volume mounts of the Traefik service; its data lives under `data_root`.
pub open spec fn traefik_volumes(data_root: Seq<char>) -> Seq<Seq<char>> {
    seq![
        "/var/run/docker.sock:/var/run/docker.sock:ro"@,
        "./config:/etc/traefik/config:ro"@,
        path_join(data_root, "traefik"@) + ":/data"@,
    ]
}

/// The environment file of the Traefik project.
pub open spec fn traefik_env_file(s: InfraSpec) -> Seq<char> {
    "TRAEFIK_VERSION="@ + quote_env_spec(s.traefik_version@) + "\nACME_EMAIL="@ + quote_env_spec(
        s.acme_email@,
    ) + "\nCF_DNS_API_TOKEN="@ + quote_env_spec(s.cloudflare_token@) + "\n"@
}

/// The Traefik service.
pub open spec fn traefik_service(svc: Service, s: InfraSpec, data_root: Seq<char>) -> bool {
    &&& svc.image@ == "traefik:${TRAEFIK_VERSION}"@
    &&& (svc.container_name matches Some(c) && c@ == "nihility-traefik"@)
    &&& strs(svc.command@) == traefik_args(s.https_port)
    &&& (svc.restart matches Some(r) && r@ == "unless-stopped"@)
    &&& svc.network_mode is None
    &&& strs(svc.networks@) == seq!["traefik"@]
    &&& strs(svc.ports@) == traefik_ports(s)
    &&& strs(svc.volumes@) == traefik_volumes(data_root)
    &&& svc.environment@.len() == 1
    &&& svc.environment@[0].0@ == "DOCKER_API_VERSION"@
    &&& svc.environment@[0].1@ == "1.40"@
    &&& strs(svc.env_file@) == seq![".env"@]
    &&& strs(svc.labels@) == traefik_labels(s.domain@)
    &&& (svc.healthcheck matches Some(h) && strs(h.test@) == seq![
        "CMD"@,
        "traefik"@,
        "healthcheck"@,
        "--ping"@,
    ] && h.interval@ == "10s"@ && h.timeout@ == "3s"@ && h.start_period is None && h.retries
        == 3)
    &&& (svc.logging matches Some(l) && l.driver@ == "json-file"@ && l.options@.len() == 2
        && l.options@[0].0@ == "max-file"@ && l.options@[0].1@ == "3"@ && l.options@[1].0@
        == "max-size"@ && l.options@[1].1@ == "10m"@)
    &&& svc.wf()
}

/// The file-provider configuration files, with their paths and contents.
pub open spec fn middleware_file_specs() -> Seq<(Seq<char>, Seq<char>)> {
    seq![
        ("config/tls.yml"@, "tls:\n  options:\n    default:\n      minVersion: VersionTLS12\n"@),
        ("config/gzip.yml"@, "http:\n  middlewares:\n    gzip:\n      compress: {}\n"@),
        (
            "config/forwarded-headers.yml"@,
            "http:\n  middlewares:\n    forwarded-headers:\n      headers:\n        customRequestHeaders:\n          X-Forwarded-Proto: https\n          X-Forwarded-Ssl: on\n          X-Forwarded-Port: '443'\n"@,
        ),
        (
            "config/internal-only.yml"@,
            "http:\n  middlewares:\n    internal-only:\n      ipAllowList:\n        sourceRange:\n          - 127.0.0.0/8\n          - 10.0.0.0/8\n          - 172.16.0.0/12\n          - 192.168.0.0/16\n"@,
        ),
    ]
}

/// Whether `f` is the file that `expected` describes, written with mode `0o640`.
pub open spec fn is_config_file(f: GeneratedFile, expected: (Seq<char>, Seq<char>)) -> bool {
    &&& f.path@ == expected.0
    &&& f.content@ == vstd::utf8::encode_utf8(expected.1)
    &&& f.mode == 0o640
}

/// The Traefik project.
pub open spec fn traefik_stack(st: GeneratedStack, s: InfraSpec, data_root: Seq<char>) -> bool {
    &&& st.name@ == "traefik"@
    &&& st.compose.wf()
    &&& st.compose.services@.len() == 1
    &&& st.compose.services@[0].0@ == "traefik"@
    &&& traefik_service(st.compose.services@[0].1, s, data_root)
    &&& st.compose.networks@.len() == 1
    &&& st.compose.networks@[0].0@ == "traefik"@
    &&& (st.compose.networks@[0].1.name matches Some(n) && n@ == "nihility-traefik"@)
    &&& st.compose.networks@[0].1.external is None
    &&& st.compose.volumes@.len() == 0
    &&& st.env_file@ == traefik_env_file(s)
    &&& st.files@.len() == 4
    &&& forall|i: int| 0 <= i < 4 ==> is_config_file(#[trigger] st.files@[i], middleware_file_specs()[i])
}

// ---------------------------------------------------------------------------
// Executable generation
// ---------------------------------------------------------------------------

/// Whether a setting is filled in and on one line.
fn valid_setting_exec(v: &str) -> (r: bool)
    ensures
        r == valid_setting(v@),
{
    let cs = chars_of(v);
    !is_blank_exec(&cs) && !has_line_break_or_nul_exec(&cs)
}

/// Checks the infrastructure parameters.
pub fn validate_infra(spec: &InfraSpec) -> (r: Result<(), InvalidInput>)
    ensures
        r is Ok <==> valid_infra(*spec),
        r matches Err(e) ==> e.0@ == infra_error(*spec),
{
    if !valid_setting_exec(spec.domain.as_str()) {
        return Err(InvalidInput::new("主域名不能为空或包含换行/空字符"));
    }
    if !valid_setting_exec(spec.acme_email.as_str()) {
        return Err(InvalidInput::new("ACME 邮箱不能为空或包含换行/空字符"));
    }
    if !valid_setting_exec(spec.cloudflare_token.as_str()) {
        return Err(InvalidInput::new("Cloudflare 令牌不能为空或包含换行/空字符"));
    }
    if !valid_setting_exec(spec.traefik_version.as_str()) {
        return Err(InvalidInput::new("Traefik 版本不能为空或包含换行/空字符"));
    }
    let d = chars_of(spec.domain.as_str());
    if !has_char_exec(&d, '.') || has_char_exec(&d, '/') || has_char_exec(&d, '`') || has_char_exec(
        &d,
        ' ',
    ) {
        let mut m = String::from_str("主域名格式无效: ");
        m.append(spec.domain.as_str());
        return Err(InvalidInput(m));
    }
    Ok(())
}

/// Owned strings of some literals.
fn owned(v: &[&str]) -> (r: Vec<String>)
    ensures
        r@.len() == v@.len(),
        forall|i: int| 0 <= i < v@.len() ==> (#[trigger] r@[i])@ == v@[i]@,
{
    let mut out: Vec<String> = Vec::new();
    let mut i: usize = 0;
    while i < v.len()
        invariant
            i <= v@.len(),
            out@.len() == i,
            forall|j: int| 0 <= j < i ==> (#[trigger] out@[j])@ == v@[j]@,
        decreases v.len() - i,
    {
        out.push(String::from_str(v[i]));
        i = i + 1;
    }
    out
}

/// The arguments that Traefik starts with.
fn traefik_command(https_port: u16) -> (r: Vec<String>)
    ensures
        strs(r@) == traefik_args(https_port),
{
    let head: [&str; 24] = [
        "--global.sendanonymoususage=false",
        "--global.checknewversion=false",
        "--api=true",
        "--api.dashboard=true",
        "--api.debug=false",
        "--api.disabledashboardad=true",
        "--api.insecure=false",
        "--ping=true",
        "--log.level=INFO",
        "--log.format=common",
        "--log.nocolor=true",
        "--accesslog=false",
        "--metrics.prometheus=false",
        "--tracing=false",
        "--providers.docker=true",
        "--providers.docker.endpoint=unix:///var/run/docker.sock",
        "--providers.docker.watch=true",
        "--providers.docker.exposedbydefault=false",
        "--providers.docker.usebindportip=false",
        "--providers.docker.network=nihility-traefik",
        "--providers.file=true",
        "--providers.file.directory=/etc/traefik/config",
        "--providers.file.watch=true",
        "--entrypoints.http.address=:80",
    ];
    let tail: [&str; 7] = [
        "--certificatesresolvers.cloudflare.acme.email=${ACME_EMAIL}",
        "--certificatesresolvers.cloudflare.acme.storage=/data/acme.json",
        "--certificatesresolvers.cloudflare.acme.keytype=EC256",
        "--certificatesresolvers.cloudflare.acme.dnschallenge=true",
        "--certificatesresolvers.cloudflare.acme.dnschallenge.provider=cloudflare",
        "--certificatesresolvers.cloudflare.acme.dnschallenge.resolvers=1.1.1.1:53,8.8.8.8:53",
        "--certificatesresolvers.cloudflare.acme.dnschallenge.propagation.delaybeforechecks=30s",
    ];
    let mut out = owned(&head);
    let ghost head_view = strs(out@);
    assert(head_view =~= traefik_args(https_port).take(24));
    let mut redirect = String::from_str("--entrypoints.http.http.redirections.entrypoint.to=");
    if https_port == 443 {
        redirect.append("https");
    } else {
        redirect.append(":");
        redirect.append(decimal_string(https_port as u128).as_str());
    }
    assert(redirect@ == "--entrypoints.http.http.redirections.entrypoint.to="@ + redirect_target(https_port));
    out.push(redirect);
    out.push(String::from_str("--entrypoints.http.http.redirections.entrypoint.scheme=https"));
    out.push(String::from_str("--entrypoints.http.http.redirections.entrypoint.permanent=true"));
    out.push(String::from_str("--entrypoints.https.address=:443"));
    out.push(String::from_str("--entrypoints.https.asdefault=true"));
    out.push(String::from_str("--entrypoints.https.http3=true"));
    let mut advertised = String::from_str("--entrypoints.https.http3.advertisedport=");
    advertised.append(decimal_string(https_port as u128).as_str());
    out.push(advertised);
    assert(strs(out@) =~= traefik_args(https_port).take(31));
    let rest = owned(&tail);
    assert(strs(rest@) =~= traefik_args(https_port).skip(31));
    let ghost middle = strs(out@);
    let mut i: usize = 0;
    while i < rest.len()
        invariant
            i <= rest@.len(),
            strs(out@) == middle + strs(rest@).take(i as int),
        decreases rest.len() - i,
    {
        let ghost before = strs(out@);
        out.push(rest[i].clone());
        assert(strs(out@) =~= before.push(rest@[i as int]@));
        assert(strs(rest@).take(i + 1) =~= strs(rest@).take(i as int).push(rest@[i as int]@));
        i = i + 1;
    }
    assert(strs(rest@).take(rest@.len() as int) =~= strs(rest@));
    assert(strs(out@) =~= traefik_args(https_port));
    out
}


/// The labels of the Traefik service.
fn traefik_label_list(domain: &str) -> (r: Vec<String>)
    ensures
        strs(r@) == traefik_labels(domain@),
{
    let mut out: Vec<String> = Vec::new();
    out.push(String::from_str("traefik.enable=true"));
    out.push(String::from_str("traefik.docker.network=nihility-traefik"));
    out.push(String::from_str("traefik.http.routers.dashboard.entrypoints=https"));
    let mut rule = String::from_str("traefik.http.routers.dashboard.rule=Host(`traefik.");
    rule.append(domain);
    rule.append("`)");
    out.push(rule);
    out.push(String::from_str("traefik.http.routers.dashboard.service=api@internal"));
    out.push(String::from_str("traefik.http.routers.dashboard.tls=true"));
    out.push(String::from_str("traefik.http.routers.dashboard.tls.certresolver=cloudflare"));
    let mut main = String::from_str("traefik.http.routers.dashboard.tls.domains[0].main=");
    main.append(domain);
    out.push(main);
    let mut sans = String::from_str("traefik.http.routers.dashboard.tls.domains[0].sans=*.");
    sans.append(domain);
    out.push(sans);
    out.push(String::from_str("traefik.http.routers.dashboard.middlewares=internal-only@file"));
    assert(strs(out@) =~= traefik_labels(domain@));
    out
}

/// `decimal(port)` followed by `suffix`.
fn port_mapping(port: u16, suffix: &str) -> (r: String)
    ensures
        r@ == decimal(port as nat) + suffix@,
{
    let mut s = decimal_string(port as u128);
    s.append(suffix);
    s
}

/// The Traefik service.
fn traefik_service_value(spec: &InfraSpec, data_root: &str) -> (svc: Service)
    ensures
        traefik_service(svc, *spec, data_root@),
{
    let mut ports: Vec<String> = Vec::new();
    ports.push(port_mapping(spec.http_port, ":80"));
    ports.push(port_mapping(spec.https_port, ":443"));
    ports.push(port_mapping(spec.https_port, ":443/udp"));
    assert(strs(ports@) =~= traefik_ports(*spec));
    let mut volumes: Vec<String> = Vec::new();
    volumes.push(String::from_str("/var/run/docker.sock:/var/run/docker.sock:ro"));
    volumes.push(String::from_str("./config:/etc/traefik/config:ro"));
    let mut data = join_path(data_root, "traefik");
    data.append(":/data");
    volumes.push(data);
    assert(strs(volumes@) =~= traefik_volumes(data_root@));
    let mut networks: Vec<String> = Vec::new();
    networks.push(String::from_str("traefik"));
    assert(strs(networks@) =~= seq!["traefik"@]);
    let mut environment: Vec<(String, String)> = Vec::new();
    environment.push((String::from_str("DOCKER_API_VERSION"), String::from_str("1.40")));
    let mut env_file: Vec<String> = Vec::new();
    env_file.push(String::from_str(".env"));
    assert(strs(env_file@) =~= seq![".env"@]);
    let mut test: Vec<String> = Vec::new();
    test.push(String::from_str("CMD"));
    test.push(String::from_str("traefik"));
    test.push(String::from_str("healthcheck"));
    test.push(String::from_str("--ping"));
    assert(strs(test@) =~= seq!["CMD"@, "traefik"@, "healthcheck"@, "--ping"@]);
    let mut options: Vec<(String, String)> = Vec::new();
    options.push((String::from_str("max-file"), String::from_str("3")));
    options.push((String::from_str("max-size"), String::from_str("10m")));
    proof {
        reveal_strlit("max-file");
        reveal_strlit("max-size");
        reveal_with_fuel(str_lt, 6);
        assert(str_lt("max-file"@, "max-size"@));
        assert(sorted_keys(options@));
        assert(sorted_keys(environment@));
    }
    Service {
        image: String::from_str("traefik:${TRAEFIK_VERSION}"),
        container_name: Some(String::from_str("nihility-traefik")),
        command: traefik_command(spec.https_port),
        restart: Some(String::from_str("unless-stopped")),
        network_mode: None,
        networks,
        ports,
        volumes,
        environment,
        env_file,
        labels: traefik_label_list(spec.domain.as_str()),
        healthcheck: Some(
            Healthcheck {
                test,
                interval: String::from_str("10s"),
                timeout: String::from_str("3s"),
                start_period: None,
                retries: 3,
            },
        ),
        logging: Some(Logging { driver: String::from_str("json-file"), options }),
    }
}

/// A configuration file of the file provider.
fn config_file(path: &str, content: &str) -> (f: GeneratedFile)
    ensures
        is_config_file(f, (path@, content@)),
{
    GeneratedFile { path: String::from_str(path), content: content.as_bytes_vec(), mode: 0o640 }
}

/// The file-provider configuration files.
fn middleware_files() -> (r: Vec<GeneratedFile>)
    ensures
        r@.len() == 4,
        forall|i: int| 0 <= i < 4 ==> is_config_file(#[trigger] r@[i], middleware_file_specs()[i]),
{
    let mut out: Vec<GeneratedFile> = Vec::new();
    out.push(config_file("config/tls.yml", "tls:\n  options:\n    default:\n      minVersion: VersionTLS12\n"));
    out.push(config_file("config/gzip.yml", "http:\n  middlewares:\n    gzip:\n      compress: {}\n"));
    out.push(
        config_file(
            "config/forwarded-headers.yml",
            "http:\n  middlewares:\n    forwarded-headers:\n      headers:\n        customRequestHeaders:\n          X-Forwarded-Proto: https\n          X-Forwarded-Ssl: on\n          X-Forwarded-Port: '443'\n",
        ),
    );
    out.push(
        config_file(
            "config/internal-only.yml",
            "http:\n  middlewares:\n    internal-only:\n      ipAllowList:\n        sourceRange:\n          - 127.0.0.0/8\n          - 10.0.0.0/8\n          - 172.16.0.0/12\n          - 192.168.0.0/16\n",
        ),
    );
    out
}

/// The Traefik project.
fn generate_traefik(spec: &InfraSpec, data_root: &str) -> (st: GeneratedStack)
    ensures
        traefik_stack(st, *spec, data_root@),
{
    let svc = traefik_service_value(spec, data_root);
    let mut services: Vec<(String, Service)> = Vec::new();
    services.push((String::from_str("traefik"), svc));
    let mut networks: Vec<(String, Network)> = Vec::new();
    networks.push(
        (
            String::from_str("traefik"),
            Network { name: Some(String::from_str("nihility-traefik")), external: None },
        ),
    );
    let document = Document { services, networks, volumes: Vec::new() };
    let mut env_file = String::from_str("TRAEFIK_VERSION=");
    env_file.append(quote_env(spec.traefik_version.as_str()).as_str());
    env_file.append("\nACME_EMAIL=");
    env_file.append(quote_env(spec.acme_email.as_str()).as_str());
    env_file.append("\nCF_DNS_API_TOKEN=");
    env_file.append(quote_env(spec.cloudflare_token.as_str()).as_str());
    env_file.append("\n");
    GeneratedStack {
        name: String::from_str("traefik"),
        compose: document,
        env_file,
        files: middleware_files(),
    }
}

/// Generates the Traefik infrastructure project, keeping its data under `data_root`.
pub fn generate_infrastructure(spec: &InfraSpec, data_root: &str) -> (r: Result<
    Vec<GeneratedStack>,
    InvalidInput,
>)
    ensures
        match r {
            Ok(stacks) => valid_infra(*spec) && stacks@.len() == 1 && traefik_stack(
                stacks@[0],
                *spec,
                data_root@,
            ),
            Err(e) => !valid_infra(*spec) && e.0@ == infra_error(*spec),
        },
{
    validate_infra(spec)?;
    let mut stacks: Vec<GeneratedStack> = Vec::new();
    stacks.push(generate_traefik(spec, data_root));
    Ok(stacks)
}

/// The Traefik service publishes its entry points where the parameters say: every
/// port mapping reads back; container port 80 is reached from the host HTTP port
/// over TCP, container port 443 only from the host HTTPS port, over both TCP and
/// UDP.
pub proof fn law_traefik_entry_points(st: GeneratedStack, s: InfraSpec, data_root: Seq<char>)
    requires
        traefik_stack(st, s, data_root),
    ensures
        ({
            let ps = strs(st.compose.services@[0].1.ports@);
            &&& forall|i: int| 0 <= i < ps.len() ==> (crate::stacks::mapping_port())(ps[i]) is Some
            &&& forall|i: int|
                0 <= i < ps.len() && crate::stacks::mapping_container(ps[i]) == "443"@ ==> (
                crate::stacks::mapping_port())(ps[i])->Some_0.0 == s.https_port as nat
            &&& forall|i: int|
                0 <= i < ps.len() && crate::stacks::mapping_container(ps[i]) == "80"@ ==> (
                crate::stacks::mapping_port())(ps[i]) == Some((s.http_port as nat, PortProtocol::Tcp))
            &&& exists|i: int|
                0 <= i < ps.len() && crate::stacks::mapping_container(ps[i]) == "443"@ && (
                crate::stacks::mapping_port())(ps[i]) == Some((s.https_port as nat, PortProtocol::Tcp))
            &&& exists|i: int|
                0 <= i < ps.len() && crate::stacks::mapping_container(ps[i]) == "443"@ && (
                crate::stacks::mapping_port())(ps[i]) == Some((s.https_port as nat, PortProtocol::Udp))
            &&& exists|i: int|
                0 <= i < ps.len() && crate::stacks::mapping_container(ps[i]) == "80"@ && (
                crate::stacks::mapping_port())(ps[i]) == Some((s.http_port as nat, PortProtocol::Tcp))
        }),
{
    reveal_strlit(":80");
    reveal_strlit(":443");
    reveal_strlit(":443/udp");
    reveal_strlit("80");
    reveal_strlit("443");
    reveal_strlit("udp");
    reveal_strlit(":");
    reveal_strlit("/");
    let ps = strs(st.compose.services@[0].1.ports@);
    assert(ps == traefik_ports(s));
    let h = s.http_port as nat;
    let t = s.https_port as nat;
    assert(forall|j: int| 0 <= j < "80"@.len() ==> "80"@[j] != '/');
    assert(forall|j: int| 0 <= j < "443"@.len() ==> "443"@[j] != '/');
    assert(forall|j: int| 0 <= j < "udp"@.len() ==> "udp"@[j] != '/');
    crate::stacks::lemma_mapping_reads(h, "80"@, None);
    crate::stacks::lemma_mapping_reads(t, "443"@, None);
    crate::stacks::lemma_mapping_reads(t, "443"@, Some("udp"@));
    assert(ps[0] =~= crate::stacks::mapping_text(h, "80"@, None));
    assert(ps[1] =~= crate::stacks::mapping_text(t, "443"@, None));
    assert(ps[2] =~= crate::stacks::mapping_text(t, "443"@, Some("udp"@)));
    assert("80"@ != "443"@);
    assert(ps.len() == 3);
}

} // verus!
