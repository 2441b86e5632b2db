//! Arguments of the command line and the requests built from them.

use nsetup::cli::{
    accept_asset, create_application_request, edit_has_changes, healthcheck_input, network_input,
    parse_port, secret_value, service_action, update_application_request, validate_version_arg,
    AddArgs, AppParams, EditArgs, EnvironmentArg, LabelArg, MiddlewareArg, MountArg,
    NamedVolumeArg, NetworkArg, PortMappingArg, RouteArg, ServiceCmd,
};
use nsetup::requests::{RequestMiddleware, RequestNetworkMode, RequestProtocol};
use nsetup::system::ServiceAction;

/// Settings with nothing given.
fn no_params() -> AppParams {
    AppParams {
        command: Vec::new(),
        container_port: None,
        hosts: Vec::new(),
        routes: Vec::new(),
        path_prefix: None,
        tcp_ports: Vec::new(),
        udp_ports: Vec::new(),
        volumes: Vec::new(),
        read_only_volumes: Vec::new(),
        environment: Vec::new(),
        network: None,
        external_network: None,
        middleware: Vec::new(),
        labels: Vec::new(),
        named_volumes: Vec::new(),
        healthcheck_cmd: None,
        healthcheck_interval: None,
        healthcheck_timeout: None,
        healthcheck_start_period: None,
        healthcheck_retries: None,
    }
}

/// The arguments of a new application.
fn add_args(params: AppParams) -> AddArgs {
    AddArgs {
        name: String::from("whoami"),
        image: String::from("traefik/whoami"),
        version: String::from("v1.11"),
        service: None,
        params,
        join: false,
        start: true,
        force: false,
    }
}

/// The arguments of an edit.
fn edit_args(params: AppParams) -> EditArgs {
    EditArgs {
        name: String::from("api"),
        compose: None,
        env_file: None,
        service: None,
        image: None,
        version: None,
        params,
        start: false,
        no_healthcheck: false,
    }
}

#[test]
fn port_arguments_accept_only_nonzero_ports() {
    assert_eq!(parse_port("80"), Ok(80));
    assert_eq!(parse_port("+443"), Ok(443));
    assert_eq!(parse_port("65535"), Ok(65535));
    assert!(parse_port("0").is_err());
    assert!(parse_port("65536").is_err());
    assert!(parse_port("").is_err());
    assert!(parse_port("8o").is_err());
}

#[test]
fn port_mapping_text_reads_back() {
    for (host, container) in [(1_u16, 1_u16), (12780, 8080), (65535, 443)] {
        let text = format!("{host}:{container}");
        let parsed = PortMappingArg::parse(&text).unwrap();
        assert_eq!((parsed.host, parsed.container), (host, container));
    }
    assert!(PortMappingArg::parse("8080").is_err());
    assert!(PortMappingArg::parse("0:80").is_err());
    assert!(PortMappingArg::parse("80:80:80").is_err());
}

#[test]
fn mounts_and_variables_split_at_the_first_separator() {
    let m = MountArg::parse("/srv/a:/data:ro").unwrap();
    assert_eq!((m.host.as_str(), m.container.as_str()), ("/srv/a", "/data:ro"));
    assert!(MountArg::parse(":/data").is_err());
    assert!(MountArg::parse("/srv").is_err());
    let e = EnvironmentArg::parse("LOG_LEVEL=a=b").unwrap();
    assert_eq!((e.key.as_str(), e.value.as_str()), ("LOG_LEVEL", "a=b"));
    assert!(EnvironmentArg::parse("log_level=debug").is_err());
    assert!(EnvironmentArg::parse("=x").is_err());
    assert!(EnvironmentArg::parse("NOVALUE").is_err());
}

#[test]
fn routes_labels_and_named_volumes_parse() {
    let r = RouteArg::parse("s3:9000").unwrap();
    assert_eq!((r.host.as_str(), r.container_port), ("s3", 9000));
    assert!(RouteArg::parse(":9000").is_err());
    assert!(RouteArg::parse("s3:0").is_err());
    let l = LabelArg::parse("com.example.team=core").unwrap();
    assert_eq!((l.key.as_str(), l.value.as_str()), ("com.example.team", "core"));
    assert!(LabelArg::parse("=core").is_err());
    let v = NamedVolumeArg::parse("data:/var/lib/data").unwrap();
    assert_eq!((v.name.as_str(), v.container.as_str()), ("data", "/var/lib/data"));
    assert!(NamedVolumeArg::parse("data:").is_err());
}

#[test]
fn version_argument_refuses_latest() {
    assert_eq!(validate_version_arg("v1.12"), Ok(String::from("v1.12")));
    assert!(validate_version_arg("latest").is_err());
    assert!(validate_version_arg("").is_err());
}

#[test]
fn new_application_defaults_service_and_port() {
    let mut params = no_params();
    params.hosts = vec![String::from("whoami")];
    params.routes = vec![RouteArg { host: String::from("grpc"), container_port: 9000 }];
    params.path_prefix = Some(String::from("/api"));
    params.tcp_ports = vec![PortMappingArg { host: 12780, container: 8080 }];
    params.udp_ports = vec![PortMappingArg { host: 12781, container: 8081 }];
    params.volumes = vec![MountArg { host: String::from("/srv"), container: String::from("/data") }];
    params.read_only_volumes =
        vec![MountArg { host: String::from("/etc/x"), container: String::from("/x") }];
    params.labels = vec![LabelArg { key: String::from("a.b"), value: String::from("c") }];
    params.middleware = vec![MiddlewareArg::Gzip, MiddlewareArg::InternalOnly];
    let q = create_application_request(&add_args(params)).unwrap();
    assert_eq!(q.service, "app");
    assert_eq!(q.container_port, 80);
    assert_eq!(q.routes.len(), 2);
    assert_eq!(
        (q.routes[0].host.as_str(), q.routes[0].path_prefix.as_str(), q.routes[0].container_port),
        ("whoami", "/api", 80)
    );
    assert_eq!(
        (q.routes[1].host.as_str(), q.routes[1].path_prefix.as_str(), q.routes[1].container_port),
        ("grpc", "/api", 9000)
    );
    assert_eq!(q.published_ports.len(), 2);
    assert_eq!(q.published_ports[0].protocol, RequestProtocol::Tcp);
    assert_eq!(
        (q.published_ports[1].host_port, q.published_ports[1].container_port),
        (12781, 8081)
    );
    assert_eq!(q.published_ports[1].protocol, RequestProtocol::Udp);
    assert!(!q.volumes[0].read_only && q.volumes[1].read_only);
    assert_eq!(q.labels, vec![String::from("a.b=c")]);
    assert_eq!(q.middlewares, vec![RequestMiddleware::Gzip, RequestMiddleware::InternalOnly]);
    assert_eq!(q.network_mode, RequestNetworkMode::Bridge);
    assert_eq!(q.external_network, "");
    assert!(q.healthcheck.is_none());
    assert!(q.start && !q.join && !q.force);
}

#[test]
fn joining_a_project_needs_a_service_name() {
    let mut args = add_args(no_params());
    args.join = true;
    assert_eq!(
        create_application_request(&args).err(),
        Some(String::from("追加服务时必须指定 --service"))
    );
    args.service = Some(String::from("worker"));
    assert_eq!(create_application_request(&args).unwrap().service, "worker");
}

#[test]
fn network_arguments_combine_only_as_documented() {
    assert_eq!(
        network_input(NetworkArg::Bridge, &None),
        Ok((RequestNetworkMode::Bridge, String::new()))
    );
    assert_eq!(
        network_input(NetworkArg::Host, &None),
        Ok((RequestNetworkMode::Host, String::new()))
    );
    assert_eq!(
        network_input(NetworkArg::External, &Some(String::from("edge"))),
        Ok((RequestNetworkMode::External, String::from("edge")))
    );
    assert_eq!(
        network_input(NetworkArg::External, &None).err(),
        Some(String::from("--network external 必须同时指定 --external-network"))
    );
    assert_eq!(
        network_input(NetworkArg::Host, &Some(String::from("edge"))).err(),
        Some(String::from("--external-network 只能与 --network external 一起使用"))
    );
    assert!(network_input(NetworkArg::External, &Some(String::new())).is_err());
}

#[test]
fn healthcheck_settings_need_a_command() {
    assert!(healthcheck_input(&None, &None, &None, &None, None).unwrap().is_none());
    assert_eq!(
        healthcheck_input(&None, &Some(String::from("30s")), &None, &None, None).err(),
        Some(String::from("指定健康检查参数时必须提供 --healthcheck-cmd"))
    );
    assert!(healthcheck_input(&Some(String::from("  ")), &None, &None, &None, None).is_err());
    assert!(healthcheck_input(&Some(String::from("a\nb")), &None, &None, &None, None).is_err());
    let h = healthcheck_input(&Some(String::from("curl -f x")), &None, &None, &None, Some(5))
        .unwrap()
        .unwrap();
    assert_eq!(
        (h.command.as_str(), h.interval.as_str(), h.timeout.as_str(), h.retries),
        ("curl -f x", "", "", 5)
    );
}

#[test]
fn edit_without_changes_is_refused() {
    let p = no_params();
    assert!(!edit_has_changes(&p, false, false, false, false));
    assert!(edit_has_changes(&p, false, false, true, false));
    assert_eq!(
        update_application_request(&edit_args(no_params())).err(),
        Some(String::from("未提供任何修改参数或 --compose"))
    );
}

#[test]
fn edit_request_keeps_route_prefix_separate() {
    let mut params = no_params();
    params.routes = vec![RouteArg { host: String::from("s3"), container_port: 9000 }];
    params.path_prefix = Some(String::from("/x"));
    params.hosts = vec![String::from("web")];
    params.container_port = Some(8080);
    let q = update_application_request(&edit_args(params)).unwrap();
    assert_eq!(q.routes.len(), 1);
    assert_eq!((q.routes[0].host.as_str(), q.routes[0].path_prefix.as_str()), ("s3", ""));
    assert_eq!(q.path_prefix, Some(String::from("/x")));
    assert_eq!(q.hosts, vec![String::from("web")]);
    assert_eq!(q.container_port, Some(8080));
    assert!(q.network_mode.is_none() && q.external_network.is_none());
}

#[test]
fn edit_network_and_healthcheck_conflicts() {
    let mut params = no_params();
    params.external_network = Some(String::from("edge"));
    assert_eq!(
        update_application_request(&edit_args(params)).err(),
        Some(String::from("--external-network 只能与 --network external 一起使用"))
    );
    let mut params = no_params();
    params.network = Some(NetworkArg::External);
    params.external_network = Some(String::from("edge"));
    let q = update_application_request(&edit_args(params)).unwrap();
    assert_eq!(q.network_mode, Some(RequestNetworkMode::External));
    assert_eq!(q.external_network, Some(String::from("edge")));
    let mut params = no_params();
    params.healthcheck_cmd = Some(String::from("true"));
    let mut args = edit_args(params);
    args.no_healthcheck = true;
    assert_eq!(
        update_application_request(&args).err(),
        Some(String::from("--no-healthcheck 不能与健康检查参数同时使用"))
    );
}

#[test]
fn secret_files_lose_trailing_line_breaks() {
    assert_eq!(secret_value("abc\r\n\n", "/t"), Ok(String::from("abc")));
    assert_eq!(secret_value(" abc \n", "/t"), Ok(String::from(" abc ")));
    assert_eq!(secret_value("\n\r", "/t"), Err(String::from("密钥文件不能为空: /t")));
}

#[test]
fn static_sites_stop_at_their_limits() {
    assert_eq!(accept_asset(0, 0, 10), Ok(10));
    assert_eq!(accept_asset(9999, 67108864 - 5, 5), Ok(67108864));
    assert!(accept_asset(10000, 0, 1).is_err());
    assert!(accept_asset(1, 67108864, 1).is_err());
    assert!(accept_asset(1, 1, u64::MAX).is_err());
}

#[test]
fn service_commands_map_to_service_actions() {
    assert_eq!(service_action(ServiceCmd::Start), ServiceAction::Start);
    assert_eq!(service_action(ServiceCmd::Stop), ServiceAction::Stop);
    assert_eq!(service_action(ServiceCmd::Restart), ServiceAction::Restart);
    assert_eq!(service_action(ServiceCmd::Status), ServiceAction::Status);
}
