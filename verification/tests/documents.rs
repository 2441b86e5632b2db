//! Edits of Compose documents and generated projects, checked through YAML.

use nsetup::compose::Document;
use nsetup::edit::{add_service_to_document, apply_edit, ApplicationEdit};
use nsetup::infra::generate_infrastructure;
use nsetup::gen::{generate_application, generate_static_site};
use nsetup::types::{
    AppSpec, HealthcheckSpec, InfraSpec, NamedVolume, NetworkMode, PortProtocol, PublishedPort,
    Route, StaticAsset, StaticSiteSpec, Volume,
};
use nsetup::value::{Number, Value};
use serde_yaml::Value as Yaml;

/// The document tree of a parsed YAML node.
fn from_yaml(v: &Yaml) -> Value {
    match v {
        Yaml::Null => Value::Null,
        Yaml::Bool(b) => Value::Bool(*b),
        Yaml::Number(n) => {
            if let Some(u) = n.as_u64() {
                Value::Number(Number::PosInt(u))
            } else if let Some(i) = n.as_i64() {
                Value::Number(Number::NegInt(i))
            } else {
                Value::Number(Number::Float(n.to_string()))
            }
        }
        Yaml::String(s) => Value::String(s.clone()),
        Yaml::Sequence(items) => Value::Sequence(items.iter().map(from_yaml).collect()),
        Yaml::Mapping(m) => {
            Value::Mapping(m.iter().map(|(k, v)| (from_yaml(k), from_yaml(v))).collect())
        }
        Yaml::Tagged(t) => Value::Tagged(t.tag.to_string(), Box::new(from_yaml(&t.value))),
    }
}

/// The YAML node of a document tree.
fn to_yaml(v: &Value) -> Yaml {
    match v {
        Value::Null => Yaml::Null,
        Value::Bool(b) => Yaml::Bool(*b),
        Value::Number(Number::PosInt(u)) => Yaml::Number((*u).into()),
        Value::Number(Number::NegInt(i)) => Yaml::Number((*i).into()),
        Value::Number(Number::Float(t)) => serde_yaml::from_str(t).unwrap(),
        Value::String(s) => Yaml::String(s.clone()),
        Value::Sequence(items) => Yaml::Sequence(items.iter().map(to_yaml).collect()),
        Value::Mapping(entries) => {
            let mut m = serde_yaml::Mapping::new();
            for (k, v) in entries {
                m.insert(to_yaml(k), to_yaml(v));
            }
            Yaml::Mapping(m)
        }
        Value::Tagged(t, b) => Yaml::Tagged(Box::new(serde_yaml::value::TaggedValue {
            tag: serde_yaml::value::Tag::new(t.clone()),
            value: to_yaml(b),
        })),
    }
}

/// A document tree read from YAML text.
fn parse(text: &str) -> Value {
    from_yaml(&serde_yaml::from_str::<Yaml>(text).unwrap())
}

/// A document tree written to YAML text and read back.
fn reread(v: &Value) -> Yaml {
    serde_yaml::from_str(&serde_yaml::to_string(&to_yaml(v)).unwrap()).unwrap()
}

/// The YAML text of a generated Compose document.
fn compose_text(d: &Document) -> String {
    serde_yaml::to_string(&to_yaml(&d.to_value())).unwrap()
}

/// A parameter set for adding a service.
fn service_spec(name: &str, service: &str) -> AppSpec {
    AppSpec {
        name: name.to_string(),
        service: service.to_string(),
        image: String::from("example/worker"),
        version: String::from("1.0"),
        command: Vec::new(),
        container_port: 8081,
        routes: Vec::new(),
        published_ports: Vec::new(),
        volumes: Vec::new(),
        environment: Vec::new(),
        network_mode: NetworkMode::Bridge,
        middlewares: Vec::new(),
        labels: Vec::new(),
        named_volumes: Vec::new(),
        healthcheck: None,
    }
}

/// A document as the application generator writes it.
fn sample_document() -> Value {
    parse(
        r#"
services:
  app:
    image: traefik/whoami:v1.11
    container_name: nihility-whoami
    restart: unless-stopped
    ports:
      - "12780:8080/tcp"
    volumes:
      - /var/lib/whoami:/data
    env_file:
      - .env
    labels:
      - traefik.enable=true
      - traefik.docker.network=nihility-traefik
      - traefik.http.routers.whoami-0.rule=Host(`whoami.example.com`)
      - traefik.http.routers.whoami-0.entrypoints=https
      - traefik.http.routers.whoami-0.tls=true
      - traefik.http.routers.whoami-0.tls.certresolver=cloudflare
      - traefik.http.routers.whoami-0.service=whoami-0
      - traefik.http.services.whoami-0.loadbalancer.server.port=8080
      - traefik.http.routers.whoami-grpc.rule=Host(`whoami.example.com`) && (PathPrefix(`/grpc`))
    networks:
      - traefik
networks:
  traefik:
    name: nihility-traefik
    external: true
"#,
    )
}

/// An edit that changes nothing yet.
fn edit(name: &str) -> ApplicationEdit {
    ApplicationEdit {
        name: name.to_string(),
        service: None,
        image: None,
        version: None,
        command: Vec::new(),
        container_port: None,
        hosts: Vec::new(),
        routes: Vec::new(),
        path_prefix: None,
        published_ports: Vec::new(),
        volumes: Vec::new(),
        environment: Vec::new(),
        network_mode: None,
        middlewares: Vec::new(),
        labels: Vec::new(),
        named_volumes: Vec::new(),
        healthcheck: None,
        remove_healthcheck: false,
        start: false,
    }
}

/// The string labels of a service.
fn labels_of(service: &Yaml) -> Vec<String> {
    service["labels"]
        .as_sequence()
        .unwrap()
        .iter()
        .map(|value| value.as_str().unwrap().to_string())
        .collect()
}

#[test]
fn applies_scalar_and_healthcheck_edits() {
    let mut document = sample_document();
    let mut request = edit("whoami");
    request.version = Some(String::from("v1.12"));
    request.environment.push((String::from("LOG_LEVEL"), String::from("info")));
    request.published_ports = vec![PublishedPort {
        host_port: 12781,
        container_port: 8081,
        protocol: PortProtocol::Tcp,
    }];
    request.healthcheck = Some(HealthcheckSpec {
        command: String::from("curl -f http://localhost:8080/health || exit 1"),
        interval: String::from("30s"),
        timeout: String::from("3s"),
        start_period: Some(String::from("10s")),
        retries: 5,
    });

    apply_edit(&mut document, &request).unwrap();
    let updated = reread(&document);
    let service = &updated["services"]["app"];
    assert_eq!(service["image"], Yaml::String(String::from("traefik/whoami:v1.12")));
    assert_eq!(
        service["ports"],
        Yaml::Sequence(vec![Yaml::String(String::from("12781:8081/tcp"))])
    );
    assert_eq!(service["environment"]["LOG_LEVEL"], Yaml::String(String::from("info")));
    let healthcheck = &service["healthcheck"];
    assert_eq!(
        healthcheck["test"],
        Yaml::Sequence(vec![
            Yaml::String(String::from("CMD-SHELL")),
            Yaml::String(String::from("curl -f http://localhost:8080/health || exit 1")),
        ])
    );
    assert_eq!(healthcheck["interval"], Yaml::String(String::from("30s")));
    assert_eq!(healthcheck["retries"], Yaml::Number(serde_yaml::Number::from(5_u64)));
    assert_eq!(healthcheck["start_period"], Yaml::String(String::from("10s")));
}

#[test]
fn rebuilds_route_labels_and_keeps_custom_labels() {
    let mut document = sample_document();
    let mut request = edit("whoami");
    request.hosts = vec![String::from("new.example.com")];
    request.container_port = Some(9000);

    apply_edit(&mut document, &request).unwrap();
    let updated = reread(&document);
    let labels = labels_of(&updated["services"]["app"]);
    assert!(labels
        .iter()
        .any(|label| label == "traefik.http.routers.whoami-0.rule=Host(`new.example.com`)"));
    assert!(labels
        .iter()
        .any(|label| label == "traefik.http.services.whoami-0.loadbalancer.server.port=9000"));
    assert!(labels.iter().any(|label| label.contains("whoami-grpc.rule")));
}

#[test]
fn updates_loadbalancer_port_only() {
    let mut document = sample_document();
    let mut request = edit("whoami");
    request.container_port = Some(9090);

    apply_edit(&mut document, &request).unwrap();
    let updated = reread(&document);
    let labels = labels_of(&updated["services"]["app"]);
    assert!(labels
        .iter()
        .any(|label| label == "traefik.http.services.whoami-0.loadbalancer.server.port=9090"));
    assert_eq!(
        updated["services"]["app"]["image"],
        Yaml::String(String::from("traefik/whoami:v1.11"))
    );
}

#[test]
fn removes_healthcheck() {
    let mut yaml: Yaml = to_yaml(&sample_document());
    yaml["services"]["app"]["healthcheck"] = Yaml::Mapping(serde_yaml::Mapping::new());
    let mut document = from_yaml(&yaml);
    let mut request = edit("whoami");
    request.remove_healthcheck = true;

    apply_edit(&mut document, &request).unwrap();
    let updated = reread(&document);
    assert!(updated["services"]["app"].get("healthcheck").is_none());
}

#[test]
fn multi_service_requires_service_name() {
    let mut document = parse(
        r#"
services:
  web:
    image: example/web:1.0
  worker:
    image: example/worker:1.0
"#,
    );
    let request = edit("multi");
    let result = apply_edit(&mut document, &request);
    assert!(result.is_err());
}

#[test]
fn appends_service_with_next_route_offset() {
    let mut document = sample_document();
    let mut spec = service_spec("whoami", "worker");
    spec.routes = vec![Route {
        host: String::from("worker.example.com"),
        path_prefix: None,
        container_port: 8081,
    }];
    spec.published_ports = vec![PublishedPort {
        host_port: 18081,
        container_port: 8081,
        protocol: PortProtocol::Tcp,
    }];
    spec.environment.push((String::from("ROLE"), String::from("worker")));
    spec.network_mode = NetworkMode::External(String::from("extra-net"));
    spec.named_volumes = vec![NamedVolume {
        name: String::from("worker-data"),
        container_path: String::from("/var/lib/worker"),
    }];
    spec.labels = vec![String::from("traefik.http.routers.whoami-worker.priority=1")];

    add_service_to_document(&mut document, &spec, false).unwrap();
    let updated = reread(&document);
    let worker = &updated["services"]["worker"];
    assert_eq!(
        worker["container_name"],
        Yaml::String(String::from("nihility-whoami-worker"))
    );
    assert_eq!(worker["environment"]["ROLE"], Yaml::String(String::from("worker")));
    let labels = labels_of(worker);
    assert!(labels
        .iter()
        .any(|label| label == "traefik.http.routers.whoami-1.rule=Host(`worker.example.com`)"));
    assert!(labels.contains(&String::from("traefik.http.routers.whoami-worker.priority=1")));
    assert!(updated["volumes"]["worker-data"].is_mapping());
    assert_eq!(
        updated["networks"]["application"]["name"],
        Yaml::String(String::from("extra-net"))
    );
}

#[test]
fn duplicate_service_rejected_unless_forced() {
    let mut document = sample_document();
    let spec = service_spec("whoami", "app");
    assert!(add_service_to_document(&mut document, &spec, false).is_err());

    add_service_to_document(&mut document, &spec, true).unwrap();
    let updated = reread(&document);
    assert_eq!(
        updated["services"]["app"]["image"],
        Yaml::String(String::from("example/worker:1.0"))
    );
    assert_eq!(
        updated["services"]["app"]["container_name"],
        Yaml::String(String::from("nihility-whoami-app"))
    );
}

/// Infrastructure parameters with the given host ports.
fn infra_spec(http_port: u16, https_port: u16) -> InfraSpec {
    InfraSpec {
        domain: String::from("example.com"),
        acme_email: String::from("admin@example.com"),
        cloudflare_token: String::from("secret-token"),
        traefik_version: String::from("v3.7.8"),
        http_port,
        https_port,
    }
}

#[test]
fn generates_traefik_v3_7_secure_config() {
    let stacks = generate_infrastructure(&infra_spec(80, 443), "/var/lib/nsetup/data").unwrap();
    let stack = stacks.first().expect("应生成 Traefik 项目");
    let compose_yaml = compose_text(&stack.compose);
    for setting in [
        "--global.sendanonymoususage=false",
        "--global.checknewversion=false",
        "--accesslog=false",
        "--metrics.prometheus=false",
        "--tracing=false",
        "--log.nocolor=true",
        "--entrypoints.https.http3=true",
        "DOCKER_API_VERSION: '1.40'",
        "443:443/udp",
        "max-size: 10m",
    ] {
        assert!(compose_yaml.contains(setting), "缺少配置: {setting}");
    }
    assert!(stack.files.iter().any(|file| file.path == "config/tls.yml"));
    assert!(!compose_yaml.contains("insecureskipverify"));
}

#[test]
fn custom_host_ports_follow_into_redirect_and_http3() {
    let stacks = generate_infrastructure(&infra_spec(8080, 8443), "/var/lib/nsetup/data").unwrap();
    let compose_yaml = compose_text(&stacks[0].compose);
    assert!(compose_yaml.contains("8080:80"));
    assert!(compose_yaml.contains("8443:443/udp"));
    assert!(compose_yaml.contains("--entrypoints.https.http3.advertisedport=8443"));
    assert!(compose_yaml.contains("--entrypoints.http.http.redirections.entrypoint.to=:8443"));
    assert!(compose_yaml.contains("/var/lib/nsetup/data/traefik:/data"));
    assert_eq!(
        stacks[0].env_file,
        "TRAEFIK_VERSION=\"v3.7.8\"\nACME_EMAIL=\"admin@example.com\"\nCF_DNS_API_TOKEN=\"secret-token\"\n"
    );
}

#[test]
fn infrastructure_refuses_domain_without_dot() {
    let mut spec = infra_spec(80, 443);
    spec.domain = String::from("localhost");
    assert!(generate_infrastructure(&spec, "/data").is_err());
    let mut spec = infra_spec(80, 443);
    spec.cloudflare_token = String::from("  ");
    assert!(generate_infrastructure(&spec, "/data").is_err());
}

#[test]
fn empty_edit_leaves_document_as_it_was() {
    let mut document = sample_document();
    let before = reread(&document);
    apply_edit(&mut document, &edit("whoami")).unwrap();
    assert_eq!(reread(&document), before);
}

#[test]
fn edit_leaves_other_services_alone() {
    let mut document = parse(
        r#"
services:
  web:
    image: example/web:1.0
    environment:
      A: "1"
  worker:
    image: example/worker:1.0
"#,
    );
    let mut request = edit("multi");
    request.service = Some(String::from("web"));
    request.image = Some(String::from("example/site"));
    request.environment.push((String::from("B"), String::from("2")));
    apply_edit(&mut document, &request).unwrap();
    let updated = reread(&document);
    assert_eq!(
        updated["services"]["web"]["image"],
        Yaml::String(String::from("example/site:1.0"))
    );
    assert_eq!(updated["services"]["web"]["environment"]["A"], Yaml::String(String::from("1")));
    assert_eq!(updated["services"]["web"]["environment"]["B"], Yaml::String(String::from("2")));
    assert_eq!(
        updated["services"]["worker"]["image"],
        Yaml::String(String::from("example/worker:1.0"))
    );
}

#[test]
fn edit_refuses_latest_version_and_leaves_document() {
    let mut document = sample_document();
    let before = reread(&document);
    let mut request = edit("whoami");
    request.version = Some(String::from("latest"));
    assert!(apply_edit(&mut document, &request).is_err());
    assert_eq!(reread(&document), before);
}

#[test]
fn adding_a_service_keeps_the_others() {
    let mut document = sample_document();
    let before = reread(&document);
    let mut spec = service_spec("whoami", "worker");
    spec.environment.push((String::from("A"), String::from("1")));
    spec.environment.push((String::from("B"), String::from("2")));
    add_service_to_document(&mut document, &spec, false).unwrap();
    let updated = reread(&document);
    assert_eq!(updated["services"]["app"], before["services"]["app"]);
    assert_eq!(updated["services"]["worker"]["environment"]["A"], Yaml::String(String::from("1")));
    assert_eq!(updated["services"]["worker"]["environment"]["B"], Yaml::String(String::from("2")));
    assert_eq!(
        updated["services"]["worker"]["image"],
        Yaml::String(String::from("example/worker:1.0"))
    );
}

#[test]
fn edit_replaces_ports_and_appends_volumes_once() {
    let mut document = sample_document();
    let mut request = edit("whoami");
    request.published_ports = vec![
        PublishedPort { host_port: 9000, container_port: 80, protocol: PortProtocol::Tcp },
        PublishedPort { host_port: 9001, container_port: 81, protocol: PortProtocol::Udp },
    ];
    request.volumes = vec![
        Volume {
            host_path: String::from("/var/lib/whoami"),
            container_path: String::from("/data"),
            read_only: false,
        },
        Volume { host_path: String::from("/srv/cache"), container_path: String::from("/cache"), read_only: true },
        Volume { host_path: String::from("/srv/cache"), container_path: String::from("/cache"), read_only: true },
    ];
    request.named_volumes =
        vec![NamedVolume { name: String::from("whoami-db"), container_path: String::from("/db") }];
    apply_edit(&mut document, &request).unwrap();
    let updated = reread(&document);
    let service = &updated["services"]["app"];
    assert_eq!(
        service["ports"],
        Yaml::Sequence(vec![
            Yaml::String(String::from("9000:80/tcp")),
            Yaml::String(String::from("9001:81/udp")),
        ])
    );
    assert_eq!(
        service["volumes"],
        Yaml::Sequence(vec![
            Yaml::String(String::from("/var/lib/whoami:/data")),
            Yaml::String(String::from("/srv/cache:/cache:ro")),
            Yaml::String(String::from("whoami-db:/db")),
        ])
    );
}

#[test]
fn unsorted_environment_is_refused() {
    let mut spec = service_spec("worker", "worker");
    spec.environment = vec![
        (String::from("B"), String::from("2")),
        (String::from("A"), String::from("x")),
    ];
    assert!(generate_application(&spec).is_err());
    spec.environment = vec![
        (String::from("A"), String::from("x")),
        (String::from("A"), String::from("y")),
    ];
    assert!(generate_application(&spec).is_err());
    spec.environment = vec![
        (String::from("A"), String::from("x")),
        (String::from("B"), String::from("2")),
    ];
    let stack = generate_application(&spec).unwrap();
    assert_eq!(stack.env_file, "A=\"x\"\nB=\"2\"\n");
}

#[test]
fn static_site_serves_its_files_with_nginx() {
    let spec = StaticSiteSpec {
        name: String::from("docs"),
        host: String::from("docs.example.com"),
        assets: vec![StaticAsset { path: String::from("index.html"), content: b"<h1>hi</h1>".to_vec() }],
        middlewares: Vec::new(),
        nginx_version: String::from("1.27-alpine"),
    };
    let stack = generate_static_site(&spec).unwrap();
    assert_eq!(stack.files.len(), 1);
    assert_eq!(stack.files[0].path, "site/index.html");
    let text = compose_text(&stack.compose);
    let doc: Yaml = serde_yaml::from_str(&text).unwrap();
    let web = &doc["services"]["web"];
    assert_eq!(web["image"], Yaml::String(String::from("nginx:1.27-alpine")));
    assert_eq!(
        web["volumes"],
        Yaml::Sequence(vec![Yaml::String(String::from("./site:/usr/share/nginx/html:ro"))])
    );
    let labels = labels_of(web);
    assert!(labels.contains(&String::from("traefik.http.routers.docs-0.rule=Host(`docs.example.com`)")));
    assert!(labels.contains(&String::from("traefik.http.services.docs-0.loadbalancer.server.port=80")));
}

#[test]
fn edit_labels_replace_those_with_their_key() {
    let mut document = sample_document();
    let mut request = edit("whoami");
    request.labels = vec![
        String::from("traefik.enable=false"),
        String::from("custom.one=1"),
        String::from("custom.one=2"),
    ];
    apply_edit(&mut document, &request).unwrap();
    let updated = reread(&document);
    let labels = labels_of(&updated["services"]["app"]);
    assert!(!labels.contains(&String::from("traefik.enable=true")));
    assert!(!labels.contains(&String::from("custom.one=1")));
    assert!(labels.contains(&String::from("traefik.docker.network=nihility-traefik")));
    assert_eq!(labels[labels.len() - 2], "traefik.enable=false");
    assert_eq!(labels[labels.len() - 1], "custom.one=2");
}

#[test]
fn refused_edits_name_what_is_wrong() {
    let mut document = sample_document();
    let mut request = edit("whoami");
    request.service = Some(String::from("nope"));
    let error = apply_edit(&mut document, &request).unwrap_err();
    assert_eq!(error.message(), "Compose 服务不存在: nope");
    let mut request = edit("whoami");
    request.healthcheck = Some(HealthcheckSpec {
        command: String::from("true"),
        interval: String::from("30s"),
        timeout: String::from("3 s"),
        start_period: None,
        retries: 3,
    });
    let error = apply_edit(&mut document, &request).unwrap_err();
    assert_eq!(error.message(), "健康检查超时格式无效: 3 s");
    let mut document = parse("services: []\n");
    let error = apply_edit(&mut document, &edit("whoami")).unwrap_err();
    assert_eq!(error.message(), "Compose YAML 必须包含 services 对象");
}

#[test]
fn refused_applications_name_what_is_wrong() {
    let mut spec = service_spec("worker", "worker");
    spec.environment = vec![(String::from("bad-key"), String::from("1"))];
    assert_eq!(generate_application(&spec).err().unwrap().message(), "环境变量 bad-key 的名称或值无效");
    let mut spec = service_spec("worker", "worker");
    spec.routes = vec![Route { host: String::from("Bad.example.com"), path_prefix: None, container_port: 80 }];
    assert_eq!(generate_application(&spec).err().unwrap().message(), "域名格式无效: Bad.example.com");
    let site = StaticSiteSpec {
        name: String::from("docs"),
        host: String::from("localhost"),
        assets: vec![StaticAsset { path: String::from("index.html"), content: Vec::new() }],
        middlewares: Vec::new(),
        nginx_version: String::from("1.27"),
    };
    assert_eq!(generate_static_site(&site).err().unwrap().message(), "域名格式无效: localhost");
}

#[test]
fn refused_additions_name_the_service() {
    let mut document = sample_document();
    let spec = service_spec("whoami", "app");
    let error = add_service_to_document(&mut document, &spec, false).unwrap_err();
    assert_eq!(error.message(), "服务 app 已存在；确认替换请使用 --force");
}
