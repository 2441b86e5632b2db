//! Checks of the daemon's own rules: names, paths, tokens, commands and progress.

use nsetup::config::{validate_domain, Config};
use nsetup::docker::{
    append_detail, compose_logs, compose_up, ensure_success, parse_pull_progress, stream_outcome,
    stream_step, ComposeError, ProjectFiles, StreamAction, StreamEvent, StreamKind, StreamState,
};
use nsetup::gen::{join_path, quote_env};
use nsetup::installer::{check_destination, parse_effective_uid, render_unit, temporary_name};
use nsetup::progress::{aggregate_pull_progress, progress_bar, PullNode, PullState};
use nsetup::requests::{checked_port, resolve_host};
use nsetup::stacks::{
    deploy_generated_stack, generated_file_path, project_names, stack_dir, validate_stack_name,
    ContainerHealth, ContainerState, ProjectEntry,
};
use nsetup::system::{control_args, control_succeeded, ServiceAction};
use nsetup::token::{ensure_auth_token, generate_auth_token};
use nsetup::transport::{authorize, constant_time_eq, listen_target, ListenTarget};
use nsetup::types::{GeneratedFile, Middleware};
use nsetup::value::Value;

/// Files of a complete project.
fn all_files() -> ProjectFiles {
    ProjectFiles { directory: true, compose_file: true, env_file: true }
}

#[test]
fn generated_tokens_are_long_alphanumeric_and_vary() {
    let a = generate_auth_token();
    let b = generate_auth_token();
    assert_eq!(a.chars().count(), 64);
    assert!(a.chars().all(|c| c.is_ascii_alphanumeric()));
    assert_ne!(a, b);
    assert_eq!(ensure_auth_token(Some(&format!("{a}\n"))).unwrap(), a);
}

#[test]
fn stored_tokens_must_be_long_enough() {
    assert!(ensure_auth_token(Some("  short \n")).is_err());
    let long = "x".repeat(32);
    assert_eq!(ensure_auth_token(Some(&format!(" {long} "))).unwrap(), long);
    assert_eq!(ensure_auth_token(None).unwrap().len(), 64);
}

#[test]
fn bearer_tokens_compare_exactly() {
    assert!(constant_time_eq(b"secret", b"secret"));
    assert!(!constant_time_eq(b"secret", b"secreT"));
    assert!(!constant_time_eq(b"secret", b"secret2"));
    assert!(constant_time_eq(b"", b""));
    assert!(authorize(Some("Bearer abc"), "abc"));
    assert!(!authorize(Some("bearer abc"), "abc"));
    assert!(!authorize(Some("Bearer abcd"), "abc"));
    assert!(!authorize(None, "abc"));
}

#[test]
fn listen_addresses_choose_socket_or_tcp() {
    match listen_target("unix:///run/nsetup/nsetup.sock") {
        ListenTarget::Unix(p) => assert_eq!(p, "/run/nsetup/nsetup.sock"),
        ListenTarget::Tcp(_) => panic!("expected a socket"),
    }
    match listen_target("tcp://tcp://0.0.0.0:50051") {
        ListenTarget::Tcp(a) => assert_eq!(a, "0.0.0.0:50051"),
        ListenTarget::Unix(_) => panic!("expected TCP"),
    }
}

#[test]
fn pull_progress_aggregates_known_totals() {
    let nodes = vec![
        (String::from("a"), PullNode { current: 50, total: 100 }),
        (String::from("b"), PullNode { current: 500, total: 100 }),
        (String::from("c"), PullNode { current: 7, total: 0 }),
    ];
    assert_eq!(aggregate_pull_progress(&nodes), (150, 200, 75));
    assert_eq!(aggregate_pull_progress(&Vec::new()), (0, 0, 0));
    let big = vec![(String::from("a"), PullNode { current: u64::MAX, total: u64::MAX })];
    assert_eq!(aggregate_pull_progress(&big), (u64::MAX, u64::MAX, 100));
}

#[test]
fn pull_state_keys_nodes_by_id_or_text() {
    let mut state = PullState::new(String::from("web"));
    assert_eq!(state.activity, "等待 Docker 返回进度");
    let line = parse_pull_progress(&Some(json_object(&[
        ("id", Value::String(String::from("layer1"))),
        ("status", Value::String(String::from("Downloading"))),
        ("current", Value::Number(nsetup::value::Number::PosInt(10))),
        ("total", Value::Number(nsetup::value::Number::PosInt(40))),
    ])))
    .unwrap()
    .unwrap();
    state.update(&line);
    assert_eq!(state.nodes.len(), 1);
    assert_eq!(state.nodes[0].0, "layer1");
    assert_eq!(state.activity, "layer1");
    let mut again = line;
    again.current = 40;
    state.update(&again);
    assert_eq!(state.nodes.len(), 1);
    assert_eq!(state.nodes[0].1.current, 40);
}

/// A JSON object of the given fields.
fn json_object(fields: &[(&str, Value)]) -> Value {
    Value::Mapping(
        fields
            .iter()
            .map(|(k, v)| (Value::String(k.to_string()), nsetup::value::copy_value(v)))
            .collect(),
    )
}

#[test]
fn pull_errors_and_blank_events() {
    let failed = json_object(&[
        ("error", Value::Bool(true)),
        ("message", Value::String(String::from("denied"))),
    ]);
    assert_eq!(parse_pull_progress(&Some(failed)).err(), Some(String::from("denied")));
    let blank = json_object(&[("current", Value::Number(nsetup::value::Number::PosInt(3)))]);
    assert!(parse_pull_progress(&Some(blank)).unwrap().is_none());
    assert!(parse_pull_progress(&None).unwrap().is_none());
}

#[test]
fn streamed_commands_report_failures() {
    assert!(stream_outcome("docker compose pull", true, false, Some(1), "x").is_ok());
    assert!(stream_outcome("docker compose pull", false, true, Some(0), "x").is_ok());
    assert_eq!(
        stream_outcome("docker compose pull", false, false, Some(-2), "  no such image \n"),
        Err(String::from("docker compose pull 执行失败，退出码 Some(-2): no such image"))
    );
    assert_eq!(
        stream_outcome("docker compose logs", false, false, None, ""),
        Err(String::from("docker compose logs 执行失败，退出码 None: "))
    );
}

#[test]
fn failed_commands_name_their_output() {
    assert!(ensure_success(true, "", "", "docker compose up -d").is_ok());
    assert_eq!(
        ensure_success(false, " boom\n", "out", "docker compose up -d"),
        Err(String::from("docker compose up -d 执行失败: boom"))
    );
    assert_eq!(
        ensure_success(false, "  ", " out ", "docker compose up -d"),
        Err(String::from("docker compose up -d 执行失败: out"))
    );
}

#[test]
fn failure_detail_is_bounded() {
    let mut detail = String::new();
    append_detail(&mut detail, "first");
    append_detail(&mut detail, "second");
    assert_eq!(detail, "first\nsecond\n");
    let long = "x".repeat(20000);
    append_detail(&mut detail, &long);
    assert!(detail.len() <= 16 * 1024 + 1);
    let before = detail.clone();
    append_detail(&mut detail, "more");
    assert_eq!(detail, before);
}

#[test]
fn compose_invocations_name_the_project() {
    let c = compose_up("/var/lib/nsetup/stacks/web", all_files()).unwrap();
    assert_eq!(c.current_dir, "/var/lib/nsetup/stacks/web");
    assert_eq!(
        c.args,
        vec![
            "compose",
            "--project-directory",
            "/var/lib/nsetup/stacks/web",
            "--env-file",
            "/var/lib/nsetup/stacks/web/.env",
            "--file",
            "/var/lib/nsetup/stacks/web/compose.yaml",
            "--project-name",
            "web",
            "up",
            "-d",
        ]
    );
    let missing = ProjectFiles { directory: true, compose_file: false, env_file: true };
    assert_eq!(compose_up("/srv/web", missing).err(), Some(ComposeError::MissingComposeFile));
    let logs = compose_logs("/srv/web", all_files(), 0, true).unwrap();
    assert_eq!(&logs.args[logs.args.len() - 5..], &["logs", "--no-color", "--tail", "1", "--follow"]);
    let logs = compose_logs("/srv/web", all_files(), 50000, false).unwrap();
    assert_eq!(&logs.args[logs.args.len() - 4..], &["logs", "--no-color", "--tail", "10000"]);
}

#[test]
fn project_names_and_directories() {
    assert!(validate_stack_name("web-1").is_ok());
    assert!(validate_stack_name("1web").is_err());
    assert!(validate_stack_name("../etc").is_err());
    assert!(validate_stack_name("").is_err());
    let config = Config::default_system();
    assert_eq!(stack_dir(&config, "web").unwrap(), "/var/lib/nsetup/stacks/web");
    assert!(stack_dir(&config, "Web").is_err());
    assert!(deploy_generated_stack(&config, "web", true, false).is_err());
    assert_eq!(
        deploy_generated_stack(&config, "web", true, true).unwrap(),
        "/var/lib/nsetup/stacks/web"
    );
}

#[test]
fn listed_projects_are_sorted_and_valid() {
    let entry = |name: Option<&str>, is_dir: bool, is_symlink: bool, has_files: bool| ProjectEntry {
        name: name.map(String::from),
        is_dir,
        is_symlink,
        has_files,
    };
    let entries = vec![
        entry(Some("web"), true, false, true),
        entry(Some("api"), true, false, true),
        entry(Some("link"), true, true, true),
        entry(Some("empty"), true, false, false),
        entry(Some("Bad"), true, false, true),
        entry(None, true, false, true),
        entry(Some("file"), false, false, true),
    ];
    assert_eq!(project_names(&entries), vec![String::from("api"), String::from("web")]);
}

#[test]
fn generated_files_stay_inside_the_project() {
    let file = |path: &str| GeneratedFile { path: path.to_string(), content: Vec::new(), mode: 0o640 };
    assert_eq!(
        generated_file_path("/srv/traefik", &file("config/tls.yml")).unwrap(),
        "/srv/traefik/config/tls.yml"
    );
    assert!(generated_file_path("/srv/traefik", &file("../etc/passwd")).is_err());
    assert!(generated_file_path("/srv/traefik", &file("/etc/passwd")).is_err());
}

#[test]
fn container_states_read_docker_words() {
    assert_eq!(ContainerState::from_docker("running"), ContainerState::Running);
    assert_eq!(ContainerState::from_docker("exited"), ContainerState::Exited);
    assert_eq!(ContainerState::from_docker("weird"), ContainerState::Unknown);
    assert_eq!(ContainerState::Running.label(), "运行中");
    assert_eq!(ContainerHealth::from_docker("healthy"), ContainerHealth::Healthy);
    assert_eq!(ContainerHealth::from_docker(""), ContainerHealth::Unconfigured);
    assert_eq!(ContainerHealth::Unconfigured.label(), "未配置");
}

#[test]
fn short_hosts_expand_under_the_domain() {
    assert_eq!(resolve_host("whoami", "example.com").unwrap(), "whoami.example.com");
    assert_eq!(resolve_host("a.example.org", "example.com").unwrap(), "a.example.org");
    assert!(resolve_host("-bad", "example.com").is_err());
    assert!(resolve_host("UPPER", "example.com").is_err());
    let once = resolve_host("s3", "example.com").unwrap();
    assert_eq!(resolve_host(&once, "example.com").unwrap(), once);
    assert_eq!(checked_port(443, "容器端口").unwrap(), 443);
    assert_eq!(checked_port(0, "容器端口").unwrap_err().message(), "容器端口必须在 1..=65535 范围内");
    assert!(checked_port(65536, "宿主机端口").is_err());
}

#[test]
fn domains_and_configuration() {
    assert!(validate_domain("example.com").is_ok());
    assert!(validate_domain("localhost").is_err());
    let config = Config::default_system();
    assert!(config.validate().is_ok());
    assert_eq!(config.grpc.listen, "unix:///run/nsetup/nsetup.sock");
    assert_eq!(nsetup::config::config_path("/etc/nsetup"), "/etc/nsetup/config.toml");
    assert_eq!(join_path("/var/lib/nsetup/data", "traefik"), "/var/lib/nsetup/data/traefik");
    assert_eq!(join_path("/data/", "/abs"), "/abs");
}

#[test]
fn environment_values_are_quoted() {
    assert_eq!(quote_env("plain"), "\"plain\"");
    assert_eq!(quote_env("a\"b\\c"), "\"a\\\"b\\\\c\"");
}

#[test]
fn installer_helpers() {
    let unit = render_unit("ExecStart=/usr/bin/nsetup daemon\n", "/usr/local/bin/nsetup");
    assert_eq!(unit, "ExecStart=/usr/local/bin/nsetup daemon\n");
    assert!(check_destination(None, false).is_ok());
    assert!(check_destination(Some(true), false).is_err());
    assert!(check_destination(Some(true), true).is_ok());
    assert!(check_destination(Some(false), true).is_err());
    assert_eq!(parse_effective_uid("Name:\tx\nUid:\t1000\t0\t1000\t1000\n"), Some(0));
    assert_eq!(parse_effective_uid("Name:\tx\n"), None);
    let a = temporary_name("nsetup", 42);
    let b = temporary_name("nsetup", 42);
    assert!(a.starts_with(".nsetup.tmp-42-"));
    assert_eq!(a.len(), ".nsetup.tmp-42-".len() + 16);
    assert_ne!(a, b);
}

#[test]
fn service_control_arguments() {
    assert_eq!(control_args(ServiceAction::Restart), vec!["restart", "nsetup.service"]);
    assert_eq!(
        control_args(ServiceAction::Status),
        vec!["--no-pager", "--full", "status", "nsetup.service"]
    );
    assert!(control_succeeded(ServiceAction::Status, false, Some(3)));
    assert!(!control_succeeded(ServiceAction::Start, false, Some(3)));
}

#[test]
fn middleware_references_read_back() {
    for m in [Middleware::Gzip, Middleware::ForwardedHeaders, Middleware::InternalOnly] {
        assert_eq!(Middleware::from_label_ref(m.label_ref()), Some(m));
    }
    assert_eq!(Middleware::from_label_ref("gzip"), None);
}

#[test]
fn progress_bars_fill_their_share() {
    assert_eq!(progress_bar(0), " ".repeat(30));
    assert_eq!(progress_bar(100), "=".repeat(30));
    assert_eq!(progress_bar(50), format!("{}{}", "=".repeat(15), " ".repeat(15)));
    assert_eq!(progress_bar(9), format!("{}{}", "=".repeat(2), " ".repeat(28)));
}

#[test]
fn generated_route_labels_read_back() {
    let routes = vec![
        nsetup::types::Route {
            host: String::from("a.example.com"),
            path_prefix: None,
            container_port: 8080,
        },
        nsetup::types::Route {
            host: String::from("b.example.com"),
            path_prefix: Some(String::from("/api")),
            container_port: 9000,
        },
    ];
    let labels = nsetup::gen::application_route_labels("web", &routes, &[Middleware::Gzip], 9);
    assert!(labels.contains(&String::from("traefik.http.routers.web-10.rule=Host(`b.example.com`) && PathPrefix(`/api`)")));
    let nodes: Vec<Value> = labels.into_iter().map(Value::String).collect();
    let read = nsetup::labels::existing_routes_exec("web", &nodes);
    assert_eq!(read.len(), 2);
    for (got, want) in read.iter().zip(routes.iter()) {
        assert_eq!(got.host, want.host);
        assert_eq!(got.path_prefix, want.path_prefix);
        assert_eq!(got.container_port, want.container_port);
    }
}

/// A line of output with its JSON reading.
fn line(text: &str, json: Option<Value>) -> StreamEvent {
    StreamEvent::Line { text: text.to_string(), json }
}

#[test]
fn pull_stream_reports_events_in_order_and_stops_on_errors() {
    let mut state = StreamState::new(StreamKind::Pull);
    let event = json_object(&[
        ("id", Value::String(String::from("layer1"))),
        ("status", Value::String(String::from("Pulling"))),
    ]);
    match stream_step(&mut state, line("{}", Some(event))) {
        StreamAction::Report(p) => {
            assert_eq!(p.id, "layer1");
            assert_eq!(p.status, "Pulling");
        }
        _ => panic!("expected a report"),
    }
    assert!(matches!(stream_step(&mut state, line("plain text", None)), StreamAction::Continue));
    assert_eq!(state.detail, "plain text\n");
    match stream_step(&mut state, StreamEvent::Exited { success: false, code: Some(1) }) {
        StreamAction::Stop { kill, outcome } => {
            assert!(!kill);
            assert_eq!(
                outcome,
                Err(String::from("docker compose pull 执行失败，退出码 Some(1): plain text"))
            );
        }
        _ => panic!("expected the end"),
    }
    let failed = json_object(&[
        ("error", Value::Bool(true)),
        ("message", Value::String(String::from("denied"))),
    ]);
    match stream_step(&mut state, line("{}", Some(failed))) {
        StreamAction::Stop { kill, outcome } => {
            assert!(!kill);
            assert_eq!(outcome, Err(String::from("denied")));
        }
        _ => panic!("expected the end"),
    }
    match stream_step(&mut state, StreamEvent::Exited { success: true, code: Some(0) }) {
        StreamAction::Stop { outcome, .. } => assert_eq!(outcome, Ok(())),
        _ => panic!("expected the end"),
    }
}

#[test]
fn log_stream_reports_every_line_and_stops_when_refused() {
    let mut state = StreamState::new(StreamKind::Logs);
    match stream_step(&mut state, line("hello", None)) {
        StreamAction::ReportLine(l) => assert_eq!(l, "hello"),
        _ => panic!("expected a line"),
    }
    assert_eq!(state.detail, "hello\n");
    for event in [StreamEvent::Refused, StreamEvent::Disconnected] {
        match stream_step(&mut state, event) {
            StreamAction::Stop { kill, outcome } => {
                assert!(kill);
                assert_eq!(outcome, Ok(()));
            }
            _ => panic!("expected the end"),
        }
    }
    match stream_step(&mut state, StreamEvent::Exited { success: false, code: None }) {
        StreamAction::Stop { outcome, .. } => {
            assert_eq!(outcome, Err(String::from("docker compose logs 执行失败，退出码 None: hello")))
        }
        _ => panic!("expected the end"),
    }
}

/// A double-quoted environment value read back.
fn unquote(text: &str) -> String {
    let inner = &text[1..text.len() - 1];
    let mut out = String::new();
    let mut chars = inner.chars();
    while let Some(c) = chars.next() {
        if c == '\\' {
            out.push(chars.next().unwrap());
        } else {
            assert_ne!(c, '"');
            out.push(c);
        }
    }
    out
}

#[test]
fn quoted_environment_values_read_back() {
    for value in ["plain", "a\"b\\c", "\\\"", "", "x y=z"] {
        assert_eq!(unquote(&quote_env(value)), value);
    }
}

#[test]
fn configuration_is_checked_when_loaded() {
    let default = Config::load_or_default(None).unwrap();
    assert!(default.validate().is_ok());
    assert_eq!(default.paths.apps_root, "/var/lib/nsetup/stacks");
    let mut bad = Config::default_system();
    bad.paths.data_root = String::from("/var/lib/nsetup/stacks/");
    assert!(Config::load_or_default(Some(bad)).is_err());
    let good = Config::default_system();
    assert_eq!(Config::load_or_default(Some(good)).unwrap().home.domain, "example.com");
}

#[test]
fn route_labels_follow_the_generator() {
    let routes = vec![nsetup::types::Route {
        host: String::from("whoami.example.com"),
        path_prefix: Some(String::from("/api")),
        container_port: 8080,
    }];
    let labels = nsetup::gen::application_route_labels(
        "whoami",
        &routes,
        &[Middleware::Gzip, Middleware::InternalOnly],
        0,
    );
    assert_eq!(
        labels,
        vec![
            "traefik.enable=true",
            "traefik.docker.network=nihility-traefik",
            "traefik.http.routers.whoami-0.rule=Host(`whoami.example.com`) && PathPrefix(`/api`)",
            "traefik.http.routers.whoami-0.entrypoints=https",
            "traefik.http.routers.whoami-0.tls=true",
            "traefik.http.routers.whoami-0.tls.certresolver=cloudflare",
            "traefik.http.services.whoami-0.loadbalancer.server.port=8080",
            "traefik.http.routers.whoami-0.middlewares=gzip@file,internal-only@file",
        ]
    );
}

/// A creation request for `whoami` with nothing else set.
fn create_request() -> nsetup::requests::CreateApplicationRequest {
    nsetup::requests::CreateApplicationRequest {
        name: String::from("whoami"),
        service: String::from("whoami"),
        image: String::from("traefik/whoami"),
        version: String::from("v1.11"),
        command: Vec::new(),
        container_port: 8080,
        routes: Vec::new(),
        published_ports: Vec::new(),
        volumes: Vec::new(),
        environment: Vec::new(),
        network_mode: nsetup::requests::RequestNetworkMode::Bridge,
        external_network: String::new(),
        middlewares: Vec::new(),
        labels: Vec::new(),
        named_volumes: Vec::new(),
        healthcheck: None,
        join: false,
        start: false,
        force: false,
    }
}

/// The message with which a creation request is refused.
fn refusal(request: &nsetup::requests::CreateApplicationRequest) -> String {
    nsetup::requests::application_spec(request, "example.com").err().unwrap().message().to_string()
}

#[test]
fn refused_requests_name_what_is_wrong() {
    let mut request = create_request();
    request.container_port = 0;
    assert_eq!(refusal(&request), "容器端口必须在 1..=65535 范围内");
    let mut request = create_request();
    request.routes.push(nsetup::requests::RouteRequest {
        host: String::from("-bad"),
        path_prefix: String::new(),
        container_port: 0,
    });
    assert_eq!(refusal(&request), "短子域名格式无效: -bad");
    let mut request = create_request();
    request.published_ports.push(nsetup::requests::PortRequest {
        host_port: 70000,
        container_port: 80,
        protocol: nsetup::requests::RequestProtocol::Tcp,
    });
    assert_eq!(refusal(&request), "宿主机端口必须在 1..=65535 范围内");
    let mut request = create_request();
    for value in ["1", "2"] {
        request.environment.push(nsetup::requests::EnvironmentVariable {
            key: String::from("A"),
            value: String::from(value),
        });
    }
    assert_eq!(refusal(&request), "环境变量重复: A");
    let mut request = create_request();
    request.labels = vec![String::from("a=1"), String::from("a=2")];
    assert_eq!(refusal(&request), "自定义标签重复: a");
    let mut request = create_request();
    request.labels = vec![String::from(" =1")];
    assert_eq!(refusal(&request), "自定义标签   的名称或值无效");
    let mut request = create_request();
    request.healthcheck = Some(nsetup::requests::HealthcheckRequest {
        command: String::from("true"),
        interval: String::from("3 s"),
        timeout: String::new(),
        start_period: None,
        retries: 0,
    });
    assert_eq!(refusal(&request), "健康检查间隔格式无效: 3 s");
}

#[test]
fn infrastructure_refusal_names_the_domain() {
    let spec = nsetup::types::InfraSpec {
        domain: String::from("localhost"),
        acme_email: String::from("admin@example.com"),
        cloudflare_token: String::from("token"),
        traefik_version: String::from("v3.7"),
        http_port: 80,
        https_port: 443,
    };
    let error = nsetup::infra::generate_infrastructure(&spec, "/var/lib/nsetup/data").err().unwrap();
    assert_eq!(error.message(), "主域名格式无效: localhost");
}

#[test]
fn refused_configurations_and_deployments_say_why() {
    let mut config = Config::default_system();
    config.paths.data_root = String::from("data");
    assert_eq!(config.validate().unwrap_err().message(), "data_root 必须是绝对路径: data");
    let config = Config::default_system();
    let error = deploy_generated_stack(&config, "web", true, false).unwrap_err();
    assert_eq!(error.message(), "项目 web 已存在；确认覆盖请使用 --force");
    let file = GeneratedFile { path: String::from("../x"), content: Vec::new(), mode: 0o640 };
    assert_eq!(generated_file_path("/srv/web", &file).unwrap_err().message(), "附属文件路径不安全: ../x");
}
