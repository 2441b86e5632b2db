//! Edits of an existing Compose application, by parameters.
//!
//! Every step works on the document tree as the YAML file held it, so keys,
//! comments-free ordering and the user's own settings stay as they were; only the
//! settings that an edit names change.

use crate::compose::{
    Document, Network, Service, healthcheck_yaml, list_field, logging_yaml, network_yaml, opt_field,
    pairs_field, service_entries, text_list, txt, txt_list,
};
use crate::error::InvalidInput;
use crate::gen::{
    application_route_labels, build_service, built_fragment, join_refs, built_service,
    format_named_volume, format_port, format_volume, named_volume_text, port_text, route_labels,
    strs, valid_app, volume_text,
};
use crate::labels::{
    project_route_offset, project_route_offset_exec, existing_container_port,
    existing_container_port_exec, existing_middlewares, existing_middlewares_exec,
    existing_route_offset, existing_route_offset_exec, existing_routes, existing_routes_exec,
    labels_in, labels_in_exec, remove_generated_labels, remove_generated_labels_exec,
    update_middleware_labels, update_middleware_labels_exec, update_port_labels,
    update_port_labels_exec, port_rewrite, middlewares_rewrite, keeps_label,
};
use crate::names::{
    current_tag, current_tag_exec, image_repository, image_repository_exec, valid_duration,
    valid_duration_exec, valid_image_repository, valid_image_repository_exec, valid_image_version,
    valid_image_version_exec, valid_stack_name, valid_stack_name_exec,
};
use crate::kv::kv_keys;
use crate::text::{
    chars_of, has_line_break_or_nul, has_line_break_or_nul_exec, is_blank, is_blank_exec,
    split_once, split_once_exec, starts_with, starts_with_exec, string_of, lemma_find_char,
};
use crate::tree::{
    append_all, append_unique, lemma_untag_retag, lemma_retag_untag, lemma_set_dict_under,
    lemma_set_list_under,
    append_unique_exec, as_text, copy_entries, dict_under, dict_under_exec, list_under,
    list_under_exec, retag, retag_value, set_dict, set_dict_exec, set_list, set_list_exec, str_of,
    untag, untagged, plain_list, has_text,
};
use crate::types::{
    AppSpec, HealthcheckSpec, Middleware, NamedVolume, NetworkMode, PublishedPort, Route, RouteView,
    Volume, routes_view,
};
use crate::value::{
    Value, Yaml, dict_find, dict_get, dict_has, lemma_dict_find, lemma_dict_insert_other,
    dict_insert, distinct_keys, lemma_dict_insert_distinct, lemma_dict_remove_other,
    lemma_dict_insert_same, law_dict_insert_get, dict_or_insert, dict_remove, find_key, get_key,
    insert_key, lemma_yv_entries, lemma_yv_list, lemma_yv_list_push, or_insert_key, remove_key,
    text_value, yv, yv_entries, yv_list,
};
use vstd::prelude::*;

verus! {

/// A parameterised edit of an existing application; absent settings stay as they are.
pub struct ApplicationEdit {
    /// Compose project name.
    pub name: String,
    /// The Compose service to edit.
    pub service: Option<String>,
    /// New image repository.
    pub image: Option<String>,
    /// New image version tag.
    pub version: Option<String>,
    /// Arguments that replace the image's default command.
    pub command: Vec<String>,
    /// Default container port of the routes.
    pub container_port: Option<u16>,
    /// Host names to rebuild the routes from.
    pub hosts: Vec<String>,
    /// Explicit routes to rebuild the routes from.
    pub routes: Vec<Route>,
    /// URL path prefix for every route.
    pub path_prefix: Option<String>,
    /// Host port mappings that replace the current ones.
    pub published_ports: Vec<PublishedPort>,
    /// Bind mounts to add.
    pub volumes: Vec<Volume>,
    /// Environment variables to merge, sorted by name, no name twice.
    pub environment: Vec<(String, String)>,
    /// New network mode.
    pub network_mode: Option<NetworkMode>,
    /// Traefik middlewares that replace the current ones.
    pub middlewares: Vec<Middleware>,
    /// Custom Docker labels, `KEY=VALUE`, replacing labels with the same key.
    pub labels: Vec<String>,
    /// Named volumes to add.
    pub named_volumes: Vec<NamedVolume>,
    /// New health check.
    pub healthcheck: Option<HealthcheckSpec>,
    /// Whether to remove the current health check.
    pub remove_healthcheck: bool,
    /// Whether to start the application after a successful edit.
    pub start: bool,
}

// ---------------------------------------------------------------------------
// Specifications
// ---------------------------------------------------------------------------

/// The characters of an optional string.
pub open spec fn opt_chars(o: Option<String>) -> Option<Seq<char>> {
    match o {
        Some(s) => Some(s@),
        None => None,
    }
}

/// The service to edit: the one asked for, which must exist and have a valid name,
/// or else the only service, whose name must be a string.
pub open spec fn select_service(svcs: Seq<(Yaml, Yaml)>, requested: Option<String>) -> Option<Seq<char>> {
    match requested {
        Some(s) => if valid_stack_name(s@) && dict_has(svcs, s@) {
            Some(s@)
        } else {
            None
        },
        None => if svcs.len() == 1 {
            str_of(svcs[0].0)
        } else {
            None
        },
    }
}

/// Image and version: the repository and tag that the edit gives, the current ones
/// otherwise.
pub open spec fn edit_image(es: Seq<(Yaml, Yaml)>, e: ApplicationEdit) -> Option<Seq<(Yaml, Yaml)>> {
    if e.image is None && e.version is None {
        Some(es)
    } else {
        match dict_get(es, "image"@) {
            Some(v) => match str_of(v) {
                Some(cur) => {
                    let repo = match e.image {
                        Some(i) => if valid_image_repository(i@) {
                            Some(i@)
                        } else {
                            None
                        },
                        None => image_repository(cur),
                    };
                    let tag = match e.version {
                        Some(t) => if valid_image_version(t@) {
                            Some(t@)
                        } else {
                            None
                        },
                        None => current_tag(cur),
                    };
                    match (repo, tag) {
                        (Some(r), Some(t)) => Some(
                            dict_insert(es, "image"@, Yaml::Text(r + ":"@ + t)),
                        ),
                        _ => None,
                    }
                },
                None => None,
            },
            None => None,
        }
    }
}

/// The command, replaced when the edit gives one.
pub open spec fn edit_command(es: Seq<(Yaml, Yaml)>, e: ApplicationEdit) -> Seq<(Yaml, Yaml)> {
    if e.command@.len() == 0 {
        es
    } else {
        dict_insert(es, "command"@, Yaml::List(txt_list(e.command@)))
    }
}

/// `es` with each variable inserted in turn.
pub open spec fn env_insert_all(es: Seq<(Yaml, Yaml)>, pairs: Seq<(String, String)>) -> Seq<(Yaml, Yaml)>
    decreases pairs.len(),
{
    if pairs.len() == 0 {
        es
    } else {
        dict_insert(
            env_insert_all(es, pairs.drop_last()),
            pairs.last().0@,
            Yaml::Text(pairs.last().1@),
        )
    }
}

/// The entries with the variables merged into their environment mapping; none when
/// the environment is not a mapping.
pub open spec fn with_environment(es: Seq<(Yaml, Yaml)>, env: Seq<(String, String)>) -> Option<Seq<(Yaml, Yaml)>> {
    if env.len() == 0 {
        Some(es)
    } else {
        match dict_under(es, "environment"@) {
            Some(inner) => Some(set_dict(es, "environment"@, env_insert_all(inner, env))),
            None => None,
        }
    }
}

/// The environment, with the edit's variables merged in.
pub open spec fn edit_environment(es: Seq<(Yaml, Yaml)>, e: ApplicationEdit) -> Option<Seq<(Yaml, Yaml)>> {
    with_environment(es, e.environment@)
}

/// The port mappings, replaced when the edit gives some.
pub open spec fn edit_ports(es: Seq<(Yaml, Yaml)>, e: ApplicationEdit) -> Seq<(Yaml, Yaml)> {
    if e.published_ports@.len() == 0 {
        es
    } else {
        dict_insert(
            es,
            "ports"@,
            Yaml::List(e.published_ports@.map_values(|p: PublishedPort| Yaml::Text(port_text(p)))),
        )
    }
}

/// The volume mounts, with the edit's bind mounts and then its named volumes added.
pub open spec fn edit_volumes(es: Seq<(Yaml, Yaml)>, e: ApplicationEdit) -> Option<Seq<(Yaml, Yaml)>> {
    let binds = e.volumes@.map_values(|v: Volume| volume_text(v));
    let named = e.named_volumes@.map_values(|v: NamedVolume| named_volume_text(v));
    let s1 = if e.volumes@.len() > 0 {
        match list_under(es, "volumes"@) {
            Some(items) => Some(set_list(es, "volumes"@, append_all(items, binds))),
            None => None,
        }
    } else {
        Some(es)
    };
    match s1 {
        Some(s) => if e.named_volumes@.len() > 0 {
            match list_under(s, "volumes"@) {
                Some(items) => Some(set_list(s, "volumes"@, append_all(items, named))),
                None => None,
            }
        } else {
            Some(s)
        },
        None => None,
    }
}

/// Whether a node does not read as the string `alias`.
pub open spec fn not_text(alias: Seq<char>) -> spec_fn(Yaml) -> bool {
    |y: Yaml| str_of(y) != Some(alias)
}

/// The network list without `alias`; an error when the networks are not a plain list.
pub open spec fn remove_network_ref(es: Seq<(Yaml, Yaml)>, alias: Seq<char>) -> Option<Seq<(Yaml, Yaml)>> {
    match dict_get(es, "networks"@) {
        Some(Yaml::List(items)) => Some(
            dict_insert(es, "networks"@, Yaml::List(items.filter(not_text(alias)))),
        ),
        Some(_) => None,
        None => Some(es),
    }
}

/// The network mode and network list for the edit's network mode.
pub open spec fn edit_networks(es: Seq<(Yaml, Yaml)>, e: ApplicationEdit) -> Option<Seq<(Yaml, Yaml)>> {
    match e.network_mode {
        None => Some(es),
        Some(NetworkMode::Bridge) => remove_network_ref(dict_remove(es, "network_mode"@), "application"@),
        Some(NetworkMode::Host) => match remove_network_ref(
            dict_insert(es, "network_mode"@, Yaml::Text("host"@)),
            "application"@,
        ) {
            Some(s) => remove_network_ref(s, "traefik"@),
            None => None,
        },
        Some(NetworkMode::External(_)) => {
            let s = dict_remove(es, "network_mode"@);
            match list_under(s, "networks"@) {
                Some(items) => Some(set_list(s, "networks"@, append_unique(items, "application"@))),
                None => None,
            }
        },
    }
}

/// Whether the edit rebuilds the routes.
pub open spec fn rebuilds_routes(e: ApplicationEdit) -> bool {
    e.hosts@.len() > 0 || e.routes@.len() > 0 || e.path_prefix is Some
}

/// The route for a host: the edit's path prefix, the default port.
pub open spec fn host_route(e: ApplicationEdit, default_port: nat) -> spec_fn(String) -> RouteView {
    |h: String| RouteView { host: h@, path_prefix: opt_chars(e.path_prefix), container_port: default_port }
}

/// An explicit route, with the edit's path prefix when it gives one.
pub open spec fn explicit_route(e: ApplicationEdit) -> spec_fn(Route) -> RouteView {
    |r: Route|
        RouteView {
            host: r.host@,
            path_prefix: match e.path_prefix {
                Some(p) => Some(p@),
                None => opt_chars(r.path_prefix),
            },
            container_port: r.container_port as nat,
        }
}

/// The routes that the edit asks for: one per host at `default_port`, then its
/// explicit routes; the edit's path prefix applies to all of them.
pub open spec fn requested_routes(e: ApplicationEdit, default_port: nat) -> Seq<RouteView> {
    e.hosts@.map_values(host_route(e, default_port)) + e.routes@.map_values(explicit_route(e))
}

/// A route with the edit's path prefix, when it gives one.
pub open spec fn with_edit_prefix(e: ApplicationEdit) -> spec_fn(RouteView) -> RouteView {
    |r: RouteView|
        match e.path_prefix {
            Some(p) => RouteView { host: r.host, path_prefix: Some(p@), container_port: r.container_port },
            None => r,
        }
}

/// The routing labels for the edit: without a rebuild, the generated port and
/// middlewares labels are updated in place; with one, the generated labels are
/// replaced by those of the new routes, numbered from the service's first index.
pub open spec fn edit_routing(es: Seq<(Yaml, Yaml)>, e: ApplicationEdit) -> Option<Seq<(Yaml, Yaml)>> {
    let name = e.name@;
    if !rebuilds_routes(e) {
        let s1 = match e.container_port {
            Some(p) => update_port_labels(es, name, p as nat),
            None => es,
        };
        Some(
            if e.middlewares@.len() > 0 {
                update_middleware_labels(s1, name, e.middlewares@)
            } else {
                s1
            },
        )
    } else {
        let labels = labels_in(es);
        let default_port: nat = match e.container_port {
            Some(p) => p as nat,
            None => match existing_container_port(name, labels) {
                Some(p) => p,
                None => 80,
            },
        };
        let asked = requested_routes(e, default_port);
        let routes = if asked.len() == 0 {
            existing_routes(name, labels).map_values(with_edit_prefix(e))
        } else {
            asked
        };
        let ms = if e.middlewares@.len() == 0 {
            existing_middlewares(name, labels)
        } else {
            e.middlewares@
        };
        let offset = existing_route_offset(name, labels);
        let s1 = remove_generated_labels(es, name);
        match list_under(s1, "labels"@) {
            Some(items) => Some(
                set_list(s1, "labels"@, append_all(items, route_labels(name, routes, ms, offset))),
            ),
            None => None,
        }
    }
}

/// Whether a node does not read as a string that starts with `prefix`.
pub open spec fn not_prefixed(prefix: Seq<char>) -> spec_fn(Yaml) -> bool {
    |y: Yaml|
        match str_of(y) {
            Some(t) => !starts_with(t, prefix),
            None => true,
        }
}

/// `items` with each `KEY=VALUE` label replacing the labels with its key, in turn;
/// none when a label has no `=`.
pub open spec fn replace_labels(items: Seq<Yaml>, ls: Seq<Seq<char>>) -> Option<Seq<Yaml>>
    decreases ls.len(),
{
    if ls.len() == 0 {
        Some(items)
    } else {
        match replace_labels(items, ls.drop_last()) {
            Some(a) => match split_once(ls.last(), '=') {
                Some((k, _)) => Some(a.filter(not_prefixed(k + "="@)).push(Yaml::Text(ls.last()))),
                None => None,
            },
            None => None,
        }
    }
}

/// The custom labels, replaced by key.
pub open spec fn edit_labels(es: Seq<(Yaml, Yaml)>, e: ApplicationEdit) -> Option<Seq<(Yaml, Yaml)>> {
    if e.labels@.len() == 0 {
        Some(es)
    } else {
        match list_under(es, "labels"@) {
            Some(items) => match replace_labels(items, strs(e.labels@)) {
                Some(n) => Some(set_list(es, "labels"@, n)),
                None => None,
            },
            None => None,
        }
    }
}

/// What a health check edit accepts.
pub open spec fn valid_healthcheck(h: HealthcheckSpec) -> bool {
    &&& valid_duration(h.interval@)
    &&& valid_duration(h.timeout@)
    &&& match h.start_period {
        Some(p) => valid_duration(p@),
        None => true,
    }
    &&& !is_blank(h.command@)
    &&& !has_line_break_or_nul(h.command@)
}

/// The tree of a health check definition.
pub open spec fn healthcheck_node(h: HealthcheckSpec) -> Yaml {
    Yaml::Dict(
        seq![
            (txt("test"@), Yaml::List(seq![txt("CMD-SHELL"@), txt(h.command@)])),
            (txt("interval"@), txt(h.interval@)),
            (txt("timeout"@), txt(h.timeout@)),
        ] + match h.start_period {
            Some(p) => seq![(txt("start_period"@), txt(p@))],
            None => Seq::empty(),
        } + seq![(txt("retries"@), Yaml::Int(h.retries as int))],
    )
}

/// The health check: removed when asked, then replaced when the edit gives one.
pub open spec fn edit_healthcheck(es: Seq<(Yaml, Yaml)>, e: ApplicationEdit) -> Option<Seq<(Yaml, Yaml)>> {
    let s = if e.remove_healthcheck {
        dict_remove(es, "healthcheck"@)
    } else {
        es
    };
    match e.healthcheck {
        None => Some(s),
        Some(h) => if valid_healthcheck(h) {
            Some(dict_insert(s, "healthcheck"@, healthcheck_node(h)))
        } else {
            None
        },
    }
}

/// A service's entries after every step of the edit; none when a step refuses.
pub open spec fn edit_service(es: Seq<(Yaml, Yaml)>, e: ApplicationEdit) -> Option<Seq<(Yaml, Yaml)>> {
    match edit_image(es, e) {
        None => None,
        Some(s1) => match edit_environment(edit_command(s1, e), e) {
            None => None,
            Some(s3) => match edit_volumes(edit_ports(s3, e), e) {
                None => None,
                Some(s5) => match edit_networks(s5, e) {
                    None => None,
                    Some(s6) => match edit_routing(s6, e) {
                        None => None,
                        Some(s7) => match edit_labels(s7, e) {
                            None => None,
                            Some(s8) => edit_healthcheck(s8, e),
                        },
                    },
                },
            },
        },
    }
}

/// `es` with each name given an empty definition unless it has one.
pub open spec fn declare_names(es: Seq<(Yaml, Yaml)>, names: Seq<Seq<char>>) -> Seq<(Yaml, Yaml)>
    decreases names.len(),
{
    if names.len() == 0 {
        es
    } else {
        dict_or_insert(declare_names(es, names.drop_last()), names.last(), Yaml::Dict(Seq::empty()))
    }
}

/// The names of some named volumes.
pub open spec fn volume_names(vs: Seq<NamedVolume>) -> Seq<Seq<char>> {
    vs.map_values(|v: NamedVolume| v.name@)
}

/// The document's volume declarations, with the edit's named volumes.
pub open spec fn declare_volumes(top: Seq<(Yaml, Yaml)>, e: ApplicationEdit) -> Option<Seq<(Yaml, Yaml)>> {
    if e.named_volumes@.len() == 0 {
        Some(top)
    } else {
        match dict_under(top, "volumes"@) {
            Some(inner) => Some(
                set_dict(
                    top,
                    "volumes"@,
                    declare_names(inner, volume_names(e.named_volumes@)),
                ),
            ),
            None => None,
        }
    }
}

/// The definition of the external network `n` under the alias `application`.
pub open spec fn external_network(n: Seq<char>) -> Yaml {
    Yaml::Dict(seq![(txt("name"@), txt(n)), (txt("external"@), Yaml::Bool(true))])
}

/// The document's network declarations, with the edit's external network.
pub open spec fn declare_networks(top: Seq<(Yaml, Yaml)>, e: ApplicationEdit) -> Option<Seq<(Yaml, Yaml)>> {
    match e.network_mode {
        Some(NetworkMode::External(n)) => match dict_under(top, "networks"@) {
            Some(inner) => Some(
                set_dict(top, "networks"@, dict_insert(inner, "application"@, external_network(n@))),
            ),
            None => None,
        },
        _ => Some(top),
    }
}

/// The document after the edit; none when the edit is refused. The document must be
/// a mapping with a `services` mapping, the selected service a mapping.
pub open spec fn edit_document(doc: Yaml, e: ApplicationEdit) -> Option<Yaml> {
    match untag(doc) {
        Yaml::Dict(top) => match dict_get(top, "services"@) {
            Some(sv) => match untag(sv) {
                Yaml::Dict(svcs) => match select_service(svcs, e.service) {
                    Some(sel) => match dict_get(svcs, sel) {
                        Some(Yaml::Dict(svc)) => match edit_service(svc, e) {
                            Some(svc2) => {
                                let top2 = dict_insert(
                                    top,
                                    "services"@,
                                    retag(sv, Yaml::Dict(dict_insert(svcs, sel, Yaml::Dict(svc2)))),
                                );
                                match declare_volumes(top2, e) {
                                    Some(top3) => match declare_networks(top3, e) {
                                        Some(top4) => Some(retag(doc, Yaml::Dict(top4))),
                                        None => None,
                                    },
                                    None => None,
                                }
                            },
                            None => None,
                        },
                        _ => None,
                    },
                    None => None,
                },
                _ => None,
            },
            None => None,
        },
        _ => None,
    }
}

// ---------------------------------------------------------------------------
// Why an edit is refused
// ---------------------------------------------------------------------------

/// The message of a document without a `services` mapping.
pub open spec fn no_services_message() -> Seq<char> {
    "Compose YAML 必须包含 services 对象"@
}

/// Why no service is selected.
pub open spec fn select_failure(svcs: Seq<(Yaml, Yaml)>, requested: Option<String>) -> Seq<char> {
    match requested {
        Some(s) => if !valid_stack_name(s@) {
            "服务名必须以小写字母开头，只能包含小写字母、数字、-、_，且不超过 63 个字符"@
        } else {
            "Compose 服务不存在: "@ + s@
        },
        None => if svcs.len() == 1 {
            "Compose 服务名必须是字符串"@
        } else {
            "该应用包含多个服务，请使用 --service 指定要修改的 Compose 服务"@
        },
    }
}

/// Why the image cannot be edited: no image string, then the repository, then the
/// tag.
pub open spec fn image_failure(es: Seq<(Yaml, Yaml)>, e: ApplicationEdit) -> Seq<char> {
    match dict_get(es, "image"@) {
        Some(v) => match str_of(v) {
            Some(cur) => {
                let repo_ok = match e.image {
                    Some(i) => valid_image_repository(i@),
                    None => image_repository(cur) is Some,
                };
                if !repo_ok {
                    match e.image {
                        Some(_) => "镜像名不能为空、不能包含版本标签、摘要或控制字符"@,
                        None => "现有镜像名无效"@,
                    }
                } else {
                    match e.version {
                        Some(_) => "镜像版本不能使用 latest，且必须以字母、数字或下划线开头，只能包含字母、数字、点、下划线和连字符，且不超过 128 个字符"@,
                        None => "现有镜像缺少版本标签，或按摘要部署"@,
                    }
                }
            },
            None => "Compose 服务没有声明 image，无法修改镜像"@,
        },
        None => "Compose 服务没有声明 image，无法修改镜像"@,
    }
}

/// Why the network step fails.
pub open spec fn networks_failure(e: ApplicationEdit) -> Seq<char> {
    match e.network_mode {
        Some(NetworkMode::External(_)) => "networks 必须是列表"@,
        _ => "networks 必须是列表形式，暂不支持通过参数修改"@,
    }
}

/// Why the custom labels cannot be set.
pub open spec fn labels_failure(es: Seq<(Yaml, Yaml)>) -> Seq<char> {
    if list_under(es, "labels"@) is None {
        "labels 必须是列表"@
    } else {
        "自定义标签格式必须为 KEY=VALUE"@
    }
}

/// Why a health check is refused: its interval, timeout, start period, then command.
pub open spec fn healthcheck_failure(h: HealthcheckSpec) -> Seq<char> {
    if !valid_duration(h.interval@) {
        "健康检查间隔格式无效: "@ + h.interval@
    } else if !valid_duration(h.timeout@) {
        "健康检查超时格式无效: "@ + h.timeout@
    } else if h.start_period matches Some(p) && !valid_duration(p@) {
        "健康检查启动宽限期格式无效: "@ + h.start_period->0@
    } else {
        "健康检查命令不能为空或包含控制字符"@
    }
}

/// Why a service's edit is refused: the first step that fails.
pub open spec fn service_failure(es: Seq<(Yaml, Yaml)>, e: ApplicationEdit) -> Seq<char> {
    match edit_image(es, e) {
        None => image_failure(es, e),
        Some(s1) => match edit_environment(edit_command(s1, e), e) {
            None => "environment 必须是键值映射"@,
            Some(s3) => match edit_volumes(edit_ports(s3, e), e) {
                None => "volumes 必须是列表"@,
                Some(s5) => match edit_networks(s5, e) {
                    None => networks_failure(e),
                    Some(s6) => match edit_routing(s6, e) {
                        None => "labels 必须是列表"@,
                        Some(s7) => match edit_labels(s7, e) {
                            None => labels_failure(s7),
                            Some(_) => healthcheck_failure(e.healthcheck->0),
                        },
                    },
                },
            },
        },
    }
}

/// Why an edit of a document is refused, following `edit_document` step by step.
pub open spec fn edit_failure(doc: Yaml, e: ApplicationEdit) -> Seq<char> {
    match untag(doc) {
        Yaml::Dict(top) => match dict_get(top, "services"@) {
            Some(sv) => match untag(sv) {
                Yaml::Dict(svcs) => match select_service(svcs, e.service) {
                    Some(sel) => match dict_get(svcs, sel) {
                        Some(Yaml::Dict(svc)) => match edit_service(svc, e) {
                            Some(svc2) => {
                                let top2 = dict_insert(
                                    top,
                                    "services"@,
                                    retag(sv, Yaml::Dict(dict_insert(svcs, sel, Yaml::Dict(svc2)))),
                                );
                                if declare_volumes(top2, e) is None {
                                    "volumes 必须是键值映射"@
                                } else {
                                    "networks 必须是键值映射"@
                                }
                            },
                            None => service_failure(svc, e),
                        },
                        _ => "Compose 服务不存在: "@ + sel,
                    },
                    None => select_failure(svcs, e.service),
                },
                _ => no_services_message(),
            },
            None => no_services_message(),
        },
        _ => no_services_message(),
    }
}

// ---------------------------------------------------------------------------
// Laws of edits
// ---------------------------------------------------------------------------

/// The service settings that an edit names, by their keys in the service mapping.
pub open spec fn edit_touches(e: ApplicationEdit, k: Seq<char>) -> bool {
    ||| k == "image"@ && (e.image is Some || e.version is Some)
    ||| k == "command"@ && e.command@.len() > 0
    ||| k == "environment"@ && e.environment@.len() > 0
    ||| k == "ports"@ && e.published_ports@.len() > 0
    ||| k == "volumes"@ && (e.volumes@.len() > 0 || e.named_volumes@.len() > 0)
    ||| (k == "network_mode"@ || k == "networks"@) && e.network_mode is Some
    ||| k == "labels"@ && (rebuilds_routes(e) || e.container_port is Some || e.middlewares@.len() > 0
        || e.labels@.len() > 0)
    ||| k == "healthcheck"@ && (e.remove_healthcheck || e.healthcheck is Some)
}

/// An edit that names no setting at all.
pub open spec fn names_nothing(e: ApplicationEdit) -> bool {
    forall|k: Seq<char>| !#[trigger] edit_touches(e, k)
}

/// Inserting under `k1` keeps the keys distinct and the value under `k`.
proof fn lemma_insert_keeps(es: Seq<(Yaml, Yaml)>, k1: Seq<char>, v: Yaml, k: Seq<char>)
    requires
        distinct_keys(es),
        k1 != k,
    ensures
        distinct_keys(dict_insert(es, k1, v)),
        dict_get(dict_insert(es, k1, v), k) == dict_get(es, k),
{
    lemma_dict_insert_distinct(es, k1, v);
    lemma_dict_insert_other(es, k1, v, k);
}

/// Removing a network reference touches only `networks`.
proof fn lemma_remove_network_ref_keeps(es: Seq<(Yaml, Yaml)>, alias: Seq<char>, k: Seq<char>)
    requires
        distinct_keys(es),
        remove_network_ref(es, alias) is Some,
        k != "networks"@,
    ensures
        distinct_keys(remove_network_ref(es, alias)->0),
        dict_get(remove_network_ref(es, alias)->0, k) == dict_get(es, k),
{
    match dict_get(es, "networks"@) {
        Some(Yaml::List(items)) => lemma_insert_keeps(es, "networks"@, Yaml::List(items.filter(not_text(alias))), k),
        _ => {},
    }
}

/// The network step touches only `network_mode` and `networks`.
proof fn lemma_networks_keeps(es: Seq<(Yaml, Yaml)>, e: ApplicationEdit, k: Seq<char>)
    requires
        distinct_keys(es),
        edit_networks(es, e) is Some,
        k != "network_mode"@ && k != "networks"@ || e.network_mode is None,
    ensures
        distinct_keys(edit_networks(es, e)->0),
        dict_get(edit_networks(es, e)->0, k) == dict_get(es, k),
{
    match e.network_mode {
        None => {},
        Some(NetworkMode::Bridge) => {
            let s = dict_remove(es, "network_mode"@);
            lemma_dict_remove_other(es, "network_mode"@, k);
            lemma_remove_network_ref_keeps(s, "application"@, k);
        },
        Some(NetworkMode::Host) => {
            let s = dict_insert(es, "network_mode"@, Yaml::Text("host"@));
            lemma_insert_keeps(es, "network_mode"@, Yaml::Text("host"@), k);
            lemma_remove_network_ref_keeps(s, "application"@, k);
            let s2 = remove_network_ref(s, "application"@)->0;
            lemma_remove_network_ref_keeps(s2, "traefik"@, k);
        },
        Some(NetworkMode::External(_)) => {
            let s = dict_remove(es, "network_mode"@);
            lemma_dict_remove_other(es, "network_mode"@, k);
            let items = list_under(s, "networks"@)->0;
            let v = match dict_get(s, "networks"@) {
                Some(w) => retag(w, Yaml::List(append_unique(items, "application"@))),
                None => Yaml::List(append_unique(items, "application"@)),
            };
            lemma_insert_keeps(s, "networks"@, v, k);
        },
    }
}

/// The routing step touches only `labels`, and only when the edit changes routing.
proof fn lemma_routing_keeps(es: Seq<(Yaml, Yaml)>, e: ApplicationEdit, k: Seq<char>)
    requires
        distinct_keys(es),
        edit_routing(es, e) is Some,
        k != "labels"@ || !(rebuilds_routes(e) || e.container_port is Some || e.middlewares@.len() > 0),
    ensures
        distinct_keys(edit_routing(es, e)->0),
        dict_get(edit_routing(es, e)->0, k) == dict_get(es, k),
        !(rebuilds_routes(e) || e.container_port is Some || e.middlewares@.len() > 0) ==> edit_routing(es, e)->0 == es,
{
    let name = e.name@;
    if !rebuilds_routes(e) {
        let s1 = match e.container_port {
            Some(p) => update_port_labels(es, name, p as nat),
            None => es,
        };
        if let Some(p) = e.container_port {
            match plain_list(es, "labels"@) {
                Some(items) => lemma_insert_keeps(es, "labels"@, Yaml::List(items.map_values(port_rewrite(name, p as nat))), k),
                None => {},
            }
        }
        if e.middlewares@.len() > 0 {
            match plain_list(s1, "labels"@) {
                Some(items) => lemma_insert_keeps(
                    s1,
                    "labels"@,
                    Yaml::List(items.map_values(middlewares_rewrite(name, join_refs(e.middlewares@)))),
                    k,
                ),
                None => {},
            }
        }
    } else {
        let labels = labels_in(es);
        let default_port: nat = match e.container_port {
            Some(p) => p as nat,
            None => match existing_container_port(name, labels) {
                Some(p) => p,
                None => 80,
            },
        };
        let asked = requested_routes(e, default_port);
        let routes = if asked.len() == 0 {
            existing_routes(name, labels).map_values(with_edit_prefix(e))
        } else {
            asked
        };
        let ms = if e.middlewares@.len() == 0 {
            existing_middlewares(name, labels)
        } else {
            e.middlewares@
        };
        let offset = existing_route_offset(name, labels);
        let s1 = remove_generated_labels(es, name);
        match plain_list(es, "labels"@) {
            Some(items) => lemma_insert_keeps(es, "labels"@, Yaml::List(items.filter(keeps_label(name))), k),
            None => {},
        }
        let items = list_under(s1, "labels"@)->0;
        let added = append_all(items, route_labels(name, routes, ms, offset));
        let v = match dict_get(s1, "labels"@) {
            Some(w) => retag(w, Yaml::List(added)),
            None => Yaml::List(added),
        };
        lemma_insert_keeps(s1, "labels"@, v, k);
    }
}

/// Each step of an edit keeps the keys distinct and every setting the edit does not
/// name.
proof fn lemma_service_steps_keep(es: Seq<(Yaml, Yaml)>, e: ApplicationEdit, k: Seq<char>)
    requires
        distinct_keys(es),
        edit_service(es, e) is Some,
        !edit_touches(e, k),
    ensures
        distinct_keys(edit_service(es, e)->0),
        dict_get(edit_service(es, e)->0, k) == dict_get(es, k),
{
    if e.image is Some || e.version is Some {
        let cur = str_of(dict_get(es, "image"@)->0)->0;
        let repo = match e.image {
            Some(i) => i@,
            None => image_repository(cur)->0,
        };
        let tag = match e.version {
            Some(t) => t@,
            None => current_tag(cur)->0,
        };
        lemma_insert_keeps(es, "image"@, Yaml::Text(repo + ":"@ + tag), k);
    }
    lemma_after_image_keeps(edit_image(es, e)->0, e, k);
}

/// The steps after the image touch only the settings after it that the edit names.
proof fn lemma_after_image_keeps(s1: Seq<(Yaml, Yaml)>, e: ApplicationEdit, k: Seq<char>)
    requires
        distinct_keys(s1),
        edit_environment(edit_command(s1, e), e) is Some,
        edit_volumes(edit_ports(edit_environment(edit_command(s1, e), e)->0, e), e) is Some,
        edit_networks(edit_volumes(edit_ports(edit_environment(edit_command(s1, e), e)->0, e), e)->0, e) is Some,
        edit_routing(
            edit_networks(edit_volumes(edit_ports(edit_environment(edit_command(s1, e), e)->0, e), e)->0, e)->0,
            e,
        ) is Some,
        edit_labels(
            edit_routing(
                edit_networks(edit_volumes(edit_ports(edit_environment(edit_command(s1, e), e)->0, e), e)->0, e)->0,
                e,
            )->0,
            e,
        ) is Some,
        edit_healthcheck(
            edit_labels(
                edit_routing(
                    edit_networks(
                        edit_volumes(edit_ports(edit_environment(edit_command(s1, e), e)->0, e), e)->0,
                        e,
                    )->0,
                    e,
                )->0,
                e,
            )->0,
            e,
        ) is Some,
        !edit_touches(e, k) || (k != "command"@ && k != "environment"@ && k != "ports"@ && k != "volumes"@
            && k != "network_mode"@ && k != "networks"@ && k != "labels"@ && k != "healthcheck"@),
    ensures
        ({
            let s9 = edit_healthcheck(
                edit_labels(
                    edit_routing(
                        edit_networks(
                            edit_volumes(edit_ports(edit_environment(edit_command(s1, e), e)->0, e), e)->0,
                            e,
                        )->0,
                        e,
                    )->0,
                    e,
                )->0,
                e,
            )->0;
            distinct_keys(s9) && dict_get(s9, k) == dict_get(s1, k)
        }),
{
    let s2 = edit_command(s1, e);
    if e.command@.len() > 0 {
        lemma_insert_keeps(s1, "command"@, Yaml::List(txt_list(e.command@)), k);
    }
    let s3 = edit_environment(s2, e)->0;
    if e.environment@.len() > 0 {
        let inner = dict_under(s2, "environment"@)->0;
        let v = match dict_get(s2, "environment"@) {
            Some(w) => retag(w, Yaml::Dict(env_insert_all(inner, e.environment@))),
            None => Yaml::Dict(env_insert_all(inner, e.environment@)),
        };
        lemma_insert_keeps(s2, "environment"@, v, k);
    }
    lemma_after_environment_keeps(s3, e, k);
}

/// The steps after the environment touch only the ports, volumes, networks, labels
/// and health check, and only those that the edit names.
proof fn lemma_after_environment_keeps(s3: Seq<(Yaml, Yaml)>, e: ApplicationEdit, k: Seq<char>)
    requires
        distinct_keys(s3),
        edit_volumes(edit_ports(s3, e), e) is Some,
        edit_networks(edit_volumes(edit_ports(s3, e), e)->0, e) is Some,
        edit_routing(edit_networks(edit_volumes(edit_ports(s3, e), e)->0, e)->0, e) is Some,
        edit_labels(edit_routing(edit_networks(edit_volumes(edit_ports(s3, e), e)->0, e)->0, e)->0, e) is Some,
        edit_healthcheck(
            edit_labels(edit_routing(edit_networks(edit_volumes(edit_ports(s3, e), e)->0, e)->0, e)->0, e)->0,
            e,
        ) is Some,
        !edit_touches(e, k) || (k != "ports"@ && k != "volumes"@ && k != "network_mode"@ && k != "networks"@
            && k != "labels"@ && k != "healthcheck"@),
    ensures
        ({
            let s9 = edit_healthcheck(
                edit_labels(edit_routing(edit_networks(edit_volumes(edit_ports(s3, e), e)->0, e)->0, e)->0, e)->0,
                e,
            )->0;
            distinct_keys(s9) && dict_get(s9, k) == dict_get(s3, k)
        }),
{
    let s4 = edit_ports(s3, e);
    if e.published_ports@.len() > 0 {
        lemma_insert_keeps(
            s3,
            "ports"@,
            Yaml::List(e.published_ports@.map_values(|p: PublishedPort| Yaml::Text(port_text(p)))),
            k,
        );
    }
    let s5 = edit_volumes(s4, e)->0;
    let binds = e.volumes@.map_values(|v: Volume| volume_text(v));
    let named = e.named_volumes@.map_values(|v: NamedVolume| named_volume_text(v));
    let t1 = if e.volumes@.len() > 0 {
        let items = list_under(s4, "volumes"@)->0;
        let v = match dict_get(s4, "volumes"@) {
            Some(w) => retag(w, Yaml::List(append_all(items, binds))),
            None => Yaml::List(append_all(items, binds)),
        };
        lemma_insert_keeps(s4, "volumes"@, v, k);
        set_list(s4, "volumes"@, append_all(items, binds))
    } else {
        s4
    };
    if e.named_volumes@.len() > 0 {
        let items = list_under(t1, "volumes"@)->0;
        let v = match dict_get(t1, "volumes"@) {
            Some(w) => retag(w, Yaml::List(append_all(items, named))),
            None => Yaml::List(append_all(items, named)),
        };
        lemma_insert_keeps(t1, "volumes"@, v, k);
    }
    let s6 = edit_networks(s5, e)->0;
    lemma_networks_keeps(s5, e, k);
    let s7 = edit_routing(s6, e)->0;
    lemma_routing_keeps(s6, e, k);
    let s8 = edit_labels(s7, e)->0;
    if e.labels@.len() > 0 {
        let items = list_under(s7, "labels"@)->0;
        let n = replace_labels(items, strs(e.labels@))->0;
        let v = match dict_get(s7, "labels"@) {
            Some(w) => retag(w, Yaml::List(n)),
            None => Yaml::List(n),
        };
        lemma_insert_keeps(s7, "labels"@, v, k);
    }
    let t2 = if e.remove_healthcheck {
        lemma_dict_remove_other(s8, "healthcheck"@, k);
        dict_remove(s8, "healthcheck"@)
    } else {
        s8
    };
    match e.healthcheck {
        Some(h) => lemma_insert_keeps(t2, "healthcheck"@, healthcheck_node(h), k),
        None => {},
    }
}

/// The entries of the service `name` of a document, when it is a mapping.
pub open spec fn service_of(doc: Yaml, name: Seq<char>) -> Option<Seq<(Yaml, Yaml)>> {
    match doc_services(doc) {
        Some(svcs) => match dict_get(svcs, name) {
            Some(Yaml::Dict(es)) => Some(es),
            _ => None,
        },
        None => None,
    }
}

/// The service that an edit of a document selects.
pub open spec fn selected_service(doc: Yaml, e: ApplicationEdit) -> Option<Seq<char>> {
    match doc_services(doc) {
        Some(svcs) => select_service(svcs, e.service),
        None => None,
    }
}

/// No two variables of an edit share a name.
pub open spec fn distinct_names(pairs: Seq<(String, String)>) -> bool {
    forall|a: int, b: int| 0 <= a < b < pairs.len() ==> pairs[a].0@ != pairs[b].0@
}

/// The literal keys of the service settings differ from one another.
proof fn lemma_setting_keys_differ()
    ensures
        "image"@ != "command"@,
        "image"@ != "environment"@,
        "image"@ != "ports"@,
        "image"@ != "volumes"@,
        "image"@ != "network_mode"@,
        "image"@ != "networks"@,
        "image"@ != "labels"@,
        "image"@ != "healthcheck"@,
        "environment"@ != "ports"@,
        "environment"@ != "volumes"@,
        "environment"@ != "network_mode"@,
        "environment"@ != "networks"@,
        "environment"@ != "labels"@,
        "environment"@ != "healthcheck"@,
        "environment"@ != "command"@,
        "services"@ != "volumes"@,
        "services"@ != "networks"@,
{
    reveal_strlit("image");
    reveal_strlit("command");
    reveal_strlit("environment");
    reveal_strlit("ports");
    reveal_strlit("volumes");
    reveal_strlit("network_mode");
    reveal_strlit("networks");
    reveal_strlit("labels");
    reveal_strlit("healthcheck");
    reveal_strlit("services");
    assert("image"@[0] != "command"@[0]);
    assert("image"@[0] != "environment"@[0]);
    assert("image"@[0] != "ports"@[0]);
    assert("image"@[0] != "volumes"@[0]);
    assert("image"@[0] != "network_mode"@[0]);
    assert("image"@[0] != "networks"@[0]);
    assert("image"@[0] != "labels"@[0]);
    assert("image"@[0] != "healthcheck"@[0]);
    assert("environment"@[0] != "ports"@[0]);
    assert("environment"@[0] != "volumes"@[0]);
    assert("environment"@[0] != "network_mode"@[0]);
    assert("environment"@[0] != "networks"@[0]);
    assert("environment"@[0] != "labels"@[0]);
    assert("environment"@[0] != "healthcheck"@[0]);
    assert("environment"@[0] != "command"@[0]);
    assert("services"@[0] != "volumes"@[0]);
    assert("services"@[0] != "networks"@[0]);
}

/// What a successful edit does to the document: the selected service is replaced by
/// its edited entries, and nothing else under `services` changes.
proof fn lemma_edit_document_shape(doc: Yaml, e: ApplicationEdit)
    requires
        edit_document(doc, e) is Some,
    ensures
        selected_service(doc, e) is Some,
        service_of(doc, selected_service(doc, e)->0) is Some,
        edit_service(service_of(doc, selected_service(doc, e)->0)->0, e) is Some,
        doc_services(edit_document(doc, e)->0) == Some(
            dict_insert(
                doc_services(doc)->0,
                selected_service(doc, e)->0,
                Yaml::Dict(edit_service(service_of(doc, selected_service(doc, e)->0)->0, e)->0),
            ),
        ),
{
    let top = untag(doc)->Dict_0;
    let sv = dict_get(top, "services"@)->0;
    let svcs = untag(sv)->Dict_0;
    let sel = select_service(svcs, e.service)->0;
    let svc = dict_get(svcs, sel)->0->Dict_0;
    let svc2 = edit_service(svc, e)->0;
    let svcs2 = dict_insert(svcs, sel, Yaml::Dict(svc2));
    let top2 = dict_insert(top, "services"@, retag(sv, Yaml::Dict(svcs2)));
    law_dict_insert_get(top, "services"@, retag(sv, Yaml::Dict(svcs2)));
    lemma_setting_keys_differ();
    let top3 = declare_volumes(top2, e)->0;
    if e.named_volumes@.len() > 0 {
        let inner = dict_under(top2, "volumes"@)->0;
        let v = match dict_get(top2, "volumes"@) {
            Some(w) => retag(w, Yaml::Dict(declare_names(inner, volume_names(e.named_volumes@)))),
            None => Yaml::Dict(declare_names(inner, volume_names(e.named_volumes@))),
        };
        lemma_dict_insert_other(top2, "volumes"@, v, "services"@);
    }
    let top4 = declare_networks(top3, e)->0;
    match e.network_mode {
        Some(NetworkMode::External(n)) => {
            let inner = dict_under(top3, "networks"@)->0;
            let v = match dict_get(top3, "networks"@) {
                Some(w) => retag(w, Yaml::Dict(dict_insert(inner, "application"@, external_network(n@)))),
                None => Yaml::Dict(dict_insert(inner, "application"@, external_network(n@))),
            };
            lemma_dict_insert_other(top3, "networks"@, v, "services"@);
        },
        _ => {},
    }
    lemma_untag_retag(doc, Yaml::Dict(top4));
    lemma_untag_retag(sv, Yaml::Dict(svcs2));
}

/// An edit changes nothing under `services` but the service it selects.
pub proof fn law_edit_keeps_other_services(doc: Yaml, e: ApplicationEdit, name: Seq<char>)
    requires
        edit_document(doc, e) is Some,
        selected_service(doc, e) != Some(name),
    ensures
        doc_services(edit_document(doc, e)->0) is Some,
        dict_get(doc_services(edit_document(doc, e)->0)->0, name) == dict_get(doc_services(doc)->0, name),
{
    lemma_edit_document_shape(doc, e);
    let sel = selected_service(doc, e)->0;
    let es2 = edit_service(service_of(doc, sel)->0, e)->0;
    lemma_dict_insert_other(doc_services(doc)->0, sel, Yaml::Dict(es2), name);
}

/// An edit leaves every setting of the selected service that it does not name as it
/// was.
pub proof fn law_edit_keeps_unnamed_settings(doc: Yaml, e: ApplicationEdit, k: Seq<char>)
    requires
        edit_document(doc, e) is Some,
        distinct_keys(service_of(doc, selected_service(doc, e)->0)->0),
        !edit_touches(e, k),
    ensures
        service_of(edit_document(doc, e)->0, selected_service(doc, e)->0) is Some,
        dict_get(service_of(edit_document(doc, e)->0, selected_service(doc, e)->0)->0, k) == dict_get(
            service_of(doc, selected_service(doc, e)->0)->0,
            k,
        ),
{
    lemma_edit_document_shape(doc, e);
    let sel = selected_service(doc, e)->0;
    let es = service_of(doc, sel)->0;
    law_dict_insert_get(doc_services(doc)->0, sel, Yaml::Dict(edit_service(es, e)->0));
    lemma_service_steps_keep(es, e, k);
}

/// `env_insert_all` leaves the keys it does not insert as they were.
proof fn lemma_env_insert_all_other(es: Seq<(Yaml, Yaml)>, pairs: Seq<(String, String)>, k: Seq<char>)
    requires
        forall|j: int| 0 <= j < pairs.len() ==> (#[trigger] pairs[j]).0@ != k,
    ensures
        dict_get(env_insert_all(es, pairs), k) == dict_get(es, k),
    decreases pairs.len(),
{
    if pairs.len() > 0 {
        lemma_env_insert_all_other(es, pairs.drop_last(), k);
        assert(pairs[pairs.len() - 1].0@ != k);
        lemma_dict_insert_other(
            env_insert_all(es, pairs.drop_last()),
            pairs.last().0@,
            Yaml::Text(pairs.last().1@),
            k,
        );
    }
}

/// After `env_insert_all`, each variable reads back with its value.
proof fn lemma_env_insert_all_get(es: Seq<(Yaml, Yaml)>, pairs: Seq<(String, String)>, i: int)
    requires
        distinct_names(pairs),
        0 <= i < pairs.len(),
    ensures
        dict_get(env_insert_all(es, pairs), pairs[i].0@) == Some(Yaml::Text(pairs[i].1@)),
    decreases pairs.len(),
{
    let rest = env_insert_all(es, pairs.drop_last());
    if i == pairs.len() - 1 {
        law_dict_insert_get(rest, pairs.last().0@, Yaml::Text(pairs.last().1@));
    } else {
        assert(distinct_names(pairs.drop_last()));
        lemma_env_insert_all_get(es, pairs.drop_last(), i);
        assert(pairs[i].0@ != pairs[pairs.len() - 1].0@);
        lemma_dict_insert_other(rest, pairs.last().0@, Yaml::Text(pairs.last().1@), pairs[i].0@);
    }
}

/// The environment of the selected service after an edit: the edit's variables are
/// merged into it, replacing those with the same names, and every other variable
/// stays as it was.
pub proof fn law_edit_merges_environment(doc: Yaml, e: ApplicationEdit, i: int, k: Seq<char>)
    requires
        edit_document(doc, e) is Some,
        distinct_keys(service_of(doc, selected_service(doc, e)->0)->0),
        distinct_names(e.environment@),
        0 <= i < e.environment@.len(),
        forall|j: int| 0 <= j < e.environment@.len() ==> (#[trigger] e.environment@[j]).0@ != k,
    ensures
        service_of(edit_document(doc, e)->0, selected_service(doc, e)->0) is Some,
        dict_under(service_of(edit_document(doc, e)->0, selected_service(doc, e)->0)->0, "environment"@) is Some,
        dict_get(
            dict_under(service_of(edit_document(doc, e)->0, selected_service(doc, e)->0)->0, "environment"@)->0,
            e.environment@[i].0@,
        ) == Some(Yaml::Text(e.environment@[i].1@)),
        dict_under(service_of(doc, selected_service(doc, e)->0)->0, "environment"@) is Some,
        dict_get(
            dict_under(service_of(edit_document(doc, e)->0, selected_service(doc, e)->0)->0, "environment"@)->0,
            k,
        ) == dict_get(dict_under(service_of(doc, selected_service(doc, e)->0)->0, "environment"@)->0, k),
{
    lemma_edit_document_shape(doc, e);
    lemma_setting_keys_differ();
    let sel = selected_service(doc, e)->0;
    let es = service_of(doc, sel)->0;
    law_dict_insert_get(doc_services(doc)->0, sel, Yaml::Dict(edit_service(es, e)->0));
    let s1 = edit_image(es, e)->0;
    if e.image is Some || e.version is Some {
        let cur = str_of(dict_get(es, "image"@)->0)->0;
        let repo = match e.image {
            Some(x) => x@,
            None => image_repository(cur)->0,
        };
        let tag = match e.version {
            Some(t) => t@,
            None => current_tag(cur)->0,
        };
        lemma_insert_keeps(es, "image"@, Yaml::Text(repo + ":"@ + tag), "environment"@);
    }
    let s2 = edit_command(s1, e);
    if e.command@.len() > 0 {
        lemma_insert_keeps(s1, "command"@, Yaml::List(txt_list(e.command@)), "environment"@);
    }
    let inner = dict_under(s2, "environment"@)->0;
    let merged = env_insert_all(inner, e.environment@);
    let s3 = set_dict(s2, "environment"@, merged);
    lemma_set_dict_under(s2, "environment"@, merged);
    let v = match dict_get(s2, "environment"@) {
        Some(w) => retag(w, Yaml::Dict(merged)),
        None => Yaml::Dict(merged),
    };
    lemma_dict_insert_distinct(s2, "environment"@, v);
    lemma_after_environment_keeps(s3, e, "environment"@);
    lemma_env_insert_all_get(inner, e.environment@, i);
    lemma_env_insert_all_other(inner, e.environment@, k);
}

/// An image edit sets the image to the repository and tag that it gives, keeping
/// the current repository when only a version is given and the current tag when only
/// a repository is given.
pub proof fn law_edit_image_keeps_unnamed_part(doc: Yaml, e: ApplicationEdit)
    requires
        edit_document(doc, e) is Some,
        distinct_keys(service_of(doc, selected_service(doc, e)->0)->0),
        e.image is Some || e.version is Some,
    ensures
        service_of(edit_document(doc, e)->0, selected_service(doc, e)->0) is Some,
        ({
            let cur = str_of(dict_get(service_of(doc, selected_service(doc, e)->0)->0, "image"@)->0)->0;
            let repo = match e.image {
                Some(x) => x@,
                None => image_repository(cur)->0,
            };
            let tag = match e.version {
                Some(t) => t@,
                None => current_tag(cur)->0,
            };
            dict_get(service_of(edit_document(doc, e)->0, selected_service(doc, e)->0)->0, "image"@) == Some(
                Yaml::Text(repo + ":"@ + tag),
            )
        }),
{
    lemma_edit_document_shape(doc, e);
    lemma_setting_keys_differ();
    let sel = selected_service(doc, e)->0;
    let es = service_of(doc, sel)->0;
    law_dict_insert_get(doc_services(doc)->0, sel, Yaml::Dict(edit_service(es, e)->0));
    let cur = str_of(dict_get(es, "image"@)->0)->0;
    let repo = match e.image {
        Some(x) => x@,
        None => image_repository(cur)->0,
    };
    let tag = match e.version {
        Some(t) => t@,
        None => current_tag(cur)->0,
    };
    law_dict_insert_get(es, "image"@, Yaml::Text(repo + ":"@ + tag));
    lemma_dict_insert_distinct(es, "image"@, Yaml::Text(repo + ":"@ + tag));
    lemma_after_image_keeps(edit_image(es, e)->0, e, "image"@);
}

/// An edit that names no setting leaves the document as it was.
pub proof fn law_empty_edit_keeps_document(doc: Yaml, e: ApplicationEdit)
    requires
        names_nothing(e),
        edit_document(doc, e) is Some,
    ensures
        edit_document(doc, e) == Some(doc),
{
    assert(!edit_touches(e, "image"@));
    assert(!edit_touches(e, "command"@));
    assert(!edit_touches(e, "environment"@));
    assert(!edit_touches(e, "ports"@));
    assert(!edit_touches(e, "volumes"@));
    assert(!edit_touches(e, "networks"@));
    assert(!edit_touches(e, "labels"@));
    assert(!edit_touches(e, "healthcheck"@));
    let top = untag(doc)->Dict_0;
    let sv = dict_get(top, "services"@)->0;
    let svcs = untag(sv)->Dict_0;
    let sel = select_service(svcs, e.service)->0;
    let svc = dict_get(svcs, sel)->0->Dict_0;
    assert(edit_service(svc, e) == Some(svc));
    lemma_dict_insert_same(svcs, sel, Yaml::Dict(svc));
    lemma_retag_untag(sv);
    lemma_dict_insert_same(top, "services"@, sv);
    lemma_retag_untag(doc);
}

/// The keys of the port and volume settings differ from the other setting keys.
proof fn lemma_port_volume_keys_differ()
    ensures
        "ports"@ != "image"@ && "ports"@ != "command"@ && "ports"@ != "environment"@ && "ports"@
            != "volumes"@ && "ports"@ != "network_mode"@ && "ports"@ != "networks"@ && "ports"@
            != "labels"@ && "ports"@ != "healthcheck"@,
        "volumes"@ != "image"@ && "volumes"@ != "command"@ && "volumes"@ != "environment"@
            && "volumes"@ != "network_mode"@ && "volumes"@ != "networks"@ && "volumes"@
            != "labels"@ && "volumes"@ != "healthcheck"@,
{
    reveal_strlit("image");
    reveal_strlit("command");
    reveal_strlit("environment");
    reveal_strlit("ports");
    reveal_strlit("volumes");
    reveal_strlit("network_mode");
    reveal_strlit("networks");
    reveal_strlit("labels");
    reveal_strlit("healthcheck");
    assert("ports"@[0] != "image"@[0]);
    assert("ports"@[0] != "command"@[0]);
    assert("ports"@[0] != "environment"@[0]);
    assert("ports"@[0] != "volumes"@[0]);
    assert("ports"@[0] != "network_mode"@[0]);
    assert("ports"@[0] != "networks"@[0]);
    assert("ports"@[0] != "labels"@[0]);
    assert("ports"@[0] != "healthcheck"@[0]);
    assert("volumes"@[0] != "image"@[0]);
    assert("volumes"@[0] != "command"@[0]);
    assert("volumes"@[0] != "environment"@[0]);
    assert("volumes"@[0] != "network_mode"@[0]);
    assert("volumes"@[0] != "networks"@[0]);
    assert("volumes"@[0] != "labels"@[0]);
    assert("volumes"@[0] != "healthcheck"@[0]);
}

/// The entries of a service before its port step.
pub open spec fn before_ports(es: Seq<(Yaml, Yaml)>, e: ApplicationEdit) -> Seq<(Yaml, Yaml)> {
    edit_environment(edit_command(edit_image(es, e)->0, e), e)->0
}

/// The entries of a service after its volume step.
pub open spec fn after_volumes(es: Seq<(Yaml, Yaml)>, e: ApplicationEdit) -> Seq<(Yaml, Yaml)> {
    edit_volumes(edit_ports(before_ports(es, e), e), e)->0
}

/// The image, command and environment steps keep the keys distinct and touch only
/// their own settings.
proof fn lemma_before_ports_keeps(es: Seq<(Yaml, Yaml)>, e: ApplicationEdit, k: Seq<char>)
    requires
        distinct_keys(es),
        edit_service(es, e) is Some,
        k != "image"@ && k != "command"@ && k != "environment"@,
    ensures
        distinct_keys(before_ports(es, e)),
        dict_get(before_ports(es, e), k) == dict_get(es, k),
{
    if e.image is Some || e.version is Some {
        let cur = str_of(dict_get(es, "image"@)->0)->0;
        let repo = match e.image {
            Some(i) => i@,
            None => image_repository(cur)->0,
        };
        let tag = match e.version {
            Some(t) => t@,
            None => current_tag(cur)->0,
        };
        lemma_insert_keeps(es, "image"@, Yaml::Text(repo + ":"@ + tag), k);
    }
    let s1 = edit_image(es, e)->0;
    let s2 = edit_command(s1, e);
    if e.command@.len() > 0 {
        lemma_insert_keeps(s1, "command"@, Yaml::List(txt_list(e.command@)), k);
    }
    if e.environment@.len() > 0 {
        let inner = dict_under(s2, "environment"@)->0;
        let v = match dict_get(s2, "environment"@) {
            Some(w) => retag(w, Yaml::Dict(env_insert_all(inner, e.environment@))),
            None => Yaml::Dict(env_insert_all(inner, e.environment@)),
        };
        lemma_insert_keeps(s2, "environment"@, v, k);
    }
}

/// The volume step keeps the keys distinct and touches only `volumes`.
proof fn lemma_volumes_step_keeps(s4: Seq<(Yaml, Yaml)>, e: ApplicationEdit, k: Seq<char>)
    requires
        distinct_keys(s4),
        edit_volumes(s4, e) is Some,
        k != "volumes"@,
    ensures
        distinct_keys(edit_volumes(s4, e)->0),
        dict_get(edit_volumes(s4, e)->0, k) == dict_get(s4, k),
{
    let binds = e.volumes@.map_values(|v: Volume| volume_text(v));
    let named = e.named_volumes@.map_values(|v: NamedVolume| named_volume_text(v));
    let t1 = if e.volumes@.len() > 0 {
        let items = list_under(s4, "volumes"@)->0;
        let v = match dict_get(s4, "volumes"@) {
            Some(w) => retag(w, Yaml::List(append_all(items, binds))),
            None => Yaml::List(append_all(items, binds)),
        };
        lemma_insert_keeps(s4, "volumes"@, v, k);
        set_list(s4, "volumes"@, append_all(items, binds))
    } else {
        s4
    };
    if e.named_volumes@.len() > 0 {
        let items = list_under(t1, "volumes"@)->0;
        let v = match dict_get(t1, "volumes"@) {
            Some(w) => retag(w, Yaml::List(append_all(items, named))),
            None => Yaml::List(append_all(items, named)),
        };
        lemma_insert_keeps(t1, "volumes"@, v, k);
    }
}

/// The network, routing, label and health check steps keep the keys distinct and
/// touch nothing else.
proof fn lemma_after_volumes_keeps(s5: Seq<(Yaml, Yaml)>, e: ApplicationEdit, k: Seq<char>)
    requires
        distinct_keys(s5),
        edit_networks(s5, e) is Some,
        edit_routing(edit_networks(s5, e)->0, e) is Some,
        edit_labels(edit_routing(edit_networks(s5, e)->0, e)->0, e) is Some,
        edit_healthcheck(edit_labels(edit_routing(edit_networks(s5, e)->0, e)->0, e)->0, e) is Some,
        k != "network_mode"@ && k != "networks"@ && k != "labels"@ && k != "healthcheck"@,
    ensures
        ({
            let s9 = edit_healthcheck(edit_labels(edit_routing(edit_networks(s5, e)->0, e)->0, e)->0, e)->0;
            distinct_keys(s9) && dict_get(s9, k) == dict_get(s5, k)
        }),
{
    let s6 = edit_networks(s5, e)->0;
    lemma_networks_keeps(s5, e, k);
    let s7 = edit_routing(s6, e)->0;
    lemma_routing_keeps(s6, e, k);
    let s8 = edit_labels(s7, e)->0;
    if e.labels@.len() > 0 {
        let items = list_under(s7, "labels"@)->0;
        let n = replace_labels(items, strs(e.labels@))->0;
        let v = match dict_get(s7, "labels"@) {
            Some(w) => retag(w, Yaml::List(n)),
            None => Yaml::List(n),
        };
        lemma_insert_keeps(s7, "labels"@, v, k);
    }
    let t2 = if e.remove_healthcheck {
        lemma_dict_remove_other(s8, "healthcheck"@, k);
        dict_remove(s8, "healthcheck"@)
    } else {
        s8
    };
    match e.healthcheck {
        Some(h) => lemma_insert_keeps(t2, "healthcheck"@, healthcheck_node(h), k),
        None => {},
    }
}

/// The edited entries of the selected service, and what they are made of.
proof fn lemma_edited_service(doc: Yaml, e: ApplicationEdit)
    requires
        edit_document(doc, e) is Some,
    ensures
        selected_service(doc, e) is Some,
        service_of(doc, selected_service(doc, e)->0) is Some,
        edit_service(service_of(doc, selected_service(doc, e)->0)->0, e) is Some,
        service_of(edit_document(doc, e)->0, selected_service(doc, e)->0) == edit_service(
            service_of(doc, selected_service(doc, e)->0)->0,
            e,
        ),
        ({
            let es = service_of(doc, selected_service(doc, e)->0)->0;
            let s5 = after_volumes(es, e);
            &&& edit_volumes(edit_ports(before_ports(es, e), e), e) is Some
            &&& edit_networks(s5, e) is Some
            &&& edit_routing(edit_networks(s5, e)->0, e) is Some
            &&& edit_labels(edit_routing(edit_networks(s5, e)->0, e)->0, e) is Some
            &&& edit_healthcheck(edit_labels(edit_routing(edit_networks(s5, e)->0, e)->0, e)->0, e) is Some
            &&& edit_service(es, e)->0 == edit_healthcheck(
                edit_labels(edit_routing(edit_networks(s5, e)->0, e)->0, e)->0,
                e,
            )->0
        }),
{
    lemma_edit_document_shape(doc, e);
    let sel = selected_service(doc, e)->0;
    let es = service_of(doc, sel)->0;
    law_dict_insert_get(doc_services(doc)->0, sel, Yaml::Dict(edit_service(es, e)->0));
}

/// An edit that gives port mappings replaces the selected service's ports with them.
pub proof fn law_edit_replaces_ports(doc: Yaml, e: ApplicationEdit)
    requires
        edit_document(doc, e) is Some,
        distinct_keys(service_of(doc, selected_service(doc, e)->0)->0),
        e.published_ports@.len() > 0,
    ensures
        service_of(edit_document(doc, e)->0, selected_service(doc, e)->0) is Some,
        dict_get(service_of(edit_document(doc, e)->0, selected_service(doc, e)->0)->0, "ports"@)
            == Some(Yaml::List(e.published_ports@.map_values(|p: PublishedPort| Yaml::Text(port_text(p))))),
{
    lemma_edited_service(doc, e);
    lemma_port_volume_keys_differ();
    let es = service_of(doc, selected_service(doc, e)->0)->0;
    let s3 = before_ports(es, e);
    lemma_before_ports_keeps(es, e, "ports"@);
    let l = Yaml::List(e.published_ports@.map_values(|p: PublishedPort| Yaml::Text(port_text(p))));
    let s4 = edit_ports(s3, e);
    assert(s4 == dict_insert(s3, "ports"@, l));
    law_dict_insert_get(s3, "ports"@, l);
    lemma_dict_insert_distinct(s3, "ports"@, l);
    lemma_volumes_step_keeps(s4, e, "ports"@);
    lemma_after_volumes_keeps(after_volumes(es, e), e, "ports"@);
}

/// An edit that asks for host networking leaves the selected service with
/// `network_mode: host`, and takes `application` and `traefik` out of its network
/// list.
pub proof fn law_edit_host_network(doc: Yaml, e: ApplicationEdit)
    requires
        edit_document(doc, e) is Some,
        distinct_keys(service_of(doc, selected_service(doc, e)->0)->0),
        e.network_mode == Some(NetworkMode::Host),
    ensures
        service_of(edit_document(doc, e)->0, selected_service(doc, e)->0) is Some,
        dict_get(service_of(edit_document(doc, e)->0, selected_service(doc, e)->0)->0, "network_mode"@)
            == Some(Yaml::Text("host"@)),
        dict_get(service_of(edit_document(doc, e)->0, selected_service(doc, e)->0)->0, "networks"@) matches Some(
            Yaml::List(items),
        ) ==> forall|i: int|
            0 <= i < items.len() ==> str_of(#[trigger] items[i]) != Some("application"@) && str_of(items[i])
                != Some("traefik"@),
{
    lemma_edited_service(doc, e);
    lemma_port_volume_keys_differ();
    lemma_labels_key_differs();
    reveal_strlit("network_mode");
    reveal_strlit("networks");
    reveal_strlit("labels");
    reveal_strlit("healthcheck");
    assert("network_mode"@.len() != "networks"@.len());
    assert("network_mode"@.len() != "labels"@.len());
    assert("network_mode"@.len() != "healthcheck"@.len());
    assert("network_mode"@ != "networks"@ && "network_mode"@ != "labels"@ && "network_mode"@
        != "healthcheck"@);
    let es = service_of(doc, selected_service(doc, e)->0)->0;
    let s3 = before_ports(es, e);
    lemma_before_ports_keeps(es, e, "ports"@);
    let s4 = edit_ports(s3, e);
    if e.published_ports@.len() > 0 {
        lemma_dict_insert_distinct(
            s3,
            "ports"@,
            Yaml::List(e.published_ports@.map_values(|p: PublishedPort| Yaml::Text(port_text(p)))),
        );
    }
    lemma_volumes_step_keeps(s4, e, "ports"@);
    let s5 = after_volumes(es, e);
    let host = Yaml::Text("host"@);
    let a = dict_insert(s5, "network_mode"@, host);
    law_dict_insert_get(s5, "network_mode"@, host);
    lemma_dict_insert_distinct(s5, "network_mode"@, host);
    lemma_remove_network_ref_keeps(a, "application"@, "network_mode"@);
    let b = remove_network_ref(a, "application"@)->0;
    lemma_remove_network_ref_keeps(b, "traefik"@, "network_mode"@);
    let s6 = edit_networks(s5, e)->0;
    assert(s6 == remove_network_ref(b, "traefik"@)->0);
    assert(dict_get(s6, "network_mode"@) == Some(host));
    lemma_networks_cleared(a);
    lemma_routing_keeps(s6, e, "network_mode"@);
    lemma_routing_keeps(s6, e, "networks"@);
    let s7 = edit_routing(s6, e)->0;
    let s8 = edit_labels(s7, e)->0;
    if e.labels@.len() > 0 {
        let items = list_under(s7, "labels"@)->0;
        let n = replace_labels(items, strs(e.labels@))->0;
        let v = match dict_get(s7, "labels"@) {
            Some(w) => retag(w, Yaml::List(n)),
            None => Yaml::List(n),
        };
        lemma_insert_keeps(s7, "labels"@, v, "network_mode"@);
        lemma_insert_keeps(s7, "labels"@, v, "networks"@);
    }
    let t2 = if e.remove_healthcheck {
        lemma_dict_remove_other(s8, "healthcheck"@, "network_mode"@);
        lemma_dict_remove_other(s8, "healthcheck"@, "networks"@);
        dict_remove(s8, "healthcheck"@)
    } else {
        s8
    };
    match e.healthcheck {
        Some(h) => {
            lemma_insert_keeps(t2, "healthcheck"@, healthcheck_node(h), "network_mode"@);
            lemma_insert_keeps(t2, "healthcheck"@, healthcheck_node(h), "networks"@);
        },
        None => {},
    }
}

/// Removing `application` and then `traefik` from a network list leaves neither.
proof fn lemma_networks_cleared(a: Seq<(Yaml, Yaml)>)
    requires
        distinct_keys(a),
        remove_network_ref(a, "application"@) is Some,
        remove_network_ref(remove_network_ref(a, "application"@)->0, "traefik"@) is Some,
    ensures
        ({
            let c = remove_network_ref(remove_network_ref(a, "application"@)->0, "traefik"@)->0;
            dict_get(c, "networks"@) matches Some(Yaml::List(items)) ==> forall|i: int|
                0 <= i < items.len() ==> str_of(#[trigger] items[i]) != Some("application"@) && str_of(
                    items[i],
                ) != Some("traefik"@)
        }),
{
    let b = remove_network_ref(a, "application"@)->0;
    let c = remove_network_ref(b, "traefik"@)->0;
    match dict_get(a, "networks"@) {
        Some(Yaml::List(items)) => {
            let f1 = items.filter(not_text("application"@));
            law_dict_insert_get(a, "networks"@, Yaml::List(f1));
            assert(dict_get(b, "networks"@) == Some(Yaml::List(f1)));
            let f2 = f1.filter(not_text("traefik"@));
            law_dict_insert_get(b, "networks"@, Yaml::List(f2));
            assert(dict_get(c, "networks"@) == Some(Yaml::List(f2)));
            assert forall|i: int| 0 <= i < f2.len() implies str_of(#[trigger] f2[i]) != Some("application"@)
                && str_of(f2[i]) != Some("traefik"@) by {
                f1.lemma_filter_pred(not_text("traefik"@), i);
                assert(f2.contains(f2[i]));
                f1.lemma_filter_contains_rev(not_text("traefik"@), f2[i]);
                let w = choose|w: int| 0 <= w < f1.len() && f1[w] == f2[i];
                items.lemma_filter_pred(not_text("application"@), w);
            }
        },
        _ => {
            assert(b == a);
            assert(c == b);
        },
    }
}

/// An edit keeps the keys of the selected service distinct: no setting appears
/// twice after it.
pub proof fn law_edit_keeps_keys_distinct(doc: Yaml, e: ApplicationEdit)
    requires
        edit_document(doc, e) is Some,
        distinct_keys(service_of(doc, selected_service(doc, e)->0)->0),
    ensures
        service_of(edit_document(doc, e)->0, selected_service(doc, e)->0) is Some,
        distinct_keys(service_of(edit_document(doc, e)->0, selected_service(doc, e)->0)->0),
{
    lemma_edited_service(doc, e);
    lemma_port_volume_keys_differ();
    let es = service_of(doc, selected_service(doc, e)->0)->0;
    let s3 = before_ports(es, e);
    lemma_before_ports_keeps(es, e, "ports"@);
    let s4 = edit_ports(s3, e);
    if e.published_ports@.len() > 0 {
        lemma_dict_insert_distinct(
            s3,
            "ports"@,
            Yaml::List(e.published_ports@.map_values(|p: PublishedPort| Yaml::Text(port_text(p)))),
        );
    }
    lemma_volumes_step_keeps(s4, e, "ports"@);
    lemma_after_volumes_keeps(after_volumes(es, e), e, "ports"@);
}

/// An edit that gives bind mounts or named volumes appends them to the selected
/// service's volume list, in order and without duplicates (see
/// `law_append_all_unique`): first the bind mounts, then the named volumes.
pub proof fn law_edit_appends_volumes(doc: Yaml, e: ApplicationEdit)
    requires
        edit_document(doc, e) is Some,
        distinct_keys(service_of(doc, selected_service(doc, e)->0)->0),
        e.volumes@.len() > 0 || e.named_volumes@.len() > 0,
    ensures
        list_under(service_of(doc, selected_service(doc, e)->0)->0, "volumes"@) is Some,
        service_of(edit_document(doc, e)->0, selected_service(doc, e)->0) is Some,
        list_under(service_of(edit_document(doc, e)->0, selected_service(doc, e)->0)->0, "volumes"@)
            == Some(
            append_all(
                append_all(
                    list_under(service_of(doc, selected_service(doc, e)->0)->0, "volumes"@)->0,
                    e.volumes@.map_values(|v: Volume| volume_text(v)),
                ),
                e.named_volumes@.map_values(|v: NamedVolume| named_volume_text(v)),
            ),
        ),
{
    lemma_edited_service(doc, e);
    lemma_port_volume_keys_differ();
    let es = service_of(doc, selected_service(doc, e)->0)->0;
    let s3 = before_ports(es, e);
    lemma_before_ports_keeps(es, e, "volumes"@);
    let s4 = edit_ports(s3, e);
    if e.published_ports@.len() > 0 {
        lemma_insert_keeps(
            s3,
            "ports"@,
            Yaml::List(e.published_ports@.map_values(|p: PublishedPort| Yaml::Text(port_text(p)))),
            "volumes"@,
        );
    }
    assert(dict_get(s4, "volumes"@) == dict_get(es, "volumes"@));
    assert(distinct_keys(s4));
    let binds = e.volumes@.map_values(|v: Volume| volume_text(v));
    let named = e.named_volumes@.map_values(|v: NamedVolume| named_volume_text(v));
    let items0 = list_under(s4, "volumes"@)->0;
    let t1 = if e.volumes@.len() > 0 {
        lemma_set_list_under(s4, "volumes"@, append_all(items0, binds));
        let v = match dict_get(s4, "volumes"@) {
            Some(w) => retag(w, Yaml::List(append_all(items0, binds))),
            None => Yaml::List(append_all(items0, binds)),
        };
        lemma_dict_insert_distinct(s4, "volumes"@, v);
        set_list(s4, "volumes"@, append_all(items0, binds))
    } else {
        s4
    };
    assert(list_under(t1, "volumes"@) == Some(append_all(items0, binds)));
    let s5 = after_volumes(es, e);
    if e.named_volumes@.len() > 0 {
        let items1 = append_all(items0, binds);
        lemma_set_list_under(t1, "volumes"@, append_all(items1, named));
        let v = match dict_get(t1, "volumes"@) {
            Some(w) => retag(w, Yaml::List(append_all(items1, named))),
            None => Yaml::List(append_all(items1, named)),
        };
        lemma_dict_insert_distinct(t1, "volumes"@, v);
    }
    assert(list_under(s5, "volumes"@) == Some(append_all(append_all(items0, binds), named)));
    assert(distinct_keys(s5));
    lemma_after_volumes_keeps(s5, e, "volumes"@);
}

/// The key of a label given to an edit: the text before its first `=`.
pub open spec fn given_key(l: Seq<char>) -> Option<Seq<char>> {
    match split_once(l, '=') {
        Some((k, _)) => Some(k),
        None => None,
    }
}

/// A key holds no `=`.
proof fn lemma_given_key_plain(l: Seq<char>)
    requires
        given_key(l) is Some,
    ensures
        forall|j: int| 0 <= j < given_key(l)->0.len() ==> given_key(l)->0[j] != '=',
{
    lemma_find_char(l, '=');
}

/// A text that starts with a key and `=` has that key.
proof fn lemma_key_prefix(t: Seq<char>, k: Seq<char>)
    requires
        forall|j: int| 0 <= j < k.len() ==> k[j] != '=',
        starts_with(t, k + "="@),
    ensures
        given_key(t) == Some(k),
{
    reveal_strlit("=");
    lemma_find_char(t, '=');
    let n = k.len() as int;
    assert(t.take(n + 1) == k + "="@);
    assert(t[n] == t.take(n + 1)[n]);
    assert forall|j: int| 0 <= j < n implies t[j] != '=' by {
        assert(t[j] == t.take(n + 1)[j]);
    }
    assert(crate::text::find_char(t, '=') == Some(n));
    assert(t.take(n) =~= k) by {
        assert forall|j: int| 0 <= j < n implies t.take(n)[j] == k[j] by {
            assert(t[j] == t.take(n + 1)[j]);
        }
    }
}

/// A label that no later label's key covers survives a filter by that key.
proof fn lemma_label_survives(a: Seq<Yaml>, y: Yaml, k: Seq<char>)
    requires
        a.contains(y),
        (not_prefixed(k + "="@))(y),
    ensures
        a.filter(not_prefixed(k + "="@)).contains(y),
{
    let w = choose|w: int| 0 <= w < a.len() && a[w] == y;
    a.lemma_filter_contains(not_prefixed(k + "="@), w);
}

/// What survives a filter passed it.
proof fn lemma_filtered_label(a: Seq<Yaml>, y: Yaml, k: Seq<char>)
    requires
        a.filter(not_prefixed(k + "="@)).contains(y),
    ensures
        a.contains(y),
        (not_prefixed(k + "="@))(y),
{
    a.lemma_filter_contains_rev(not_prefixed(k + "="@), y);
    let f = a.filter(not_prefixed(k + "="@));
    let w = choose|w: int| 0 <= w < f.len() && f[w] == y;
    a.lemma_filter_pred(not_prefixed(k + "="@), w);
}

/// A label given to an edit replaces the labels with its key, unless a later label
/// has the same key: it is then present, and every label with its key is it.
pub proof fn law_labels_replace_by_key(items: Seq<Yaml>, ls: Seq<Seq<char>>, i: int)
    requires
        replace_labels(items, ls) is Some,
        0 <= i < ls.len(),
        forall|j: int| i < j < ls.len() ==> given_key(#[trigger] ls[j]) != given_key(ls[i]),
    ensures
        given_key(ls[i]) is Some,
        replace_labels(items, ls)->0.contains(Yaml::Text(ls[i])),
        forall|y: Yaml|
            #![trigger replace_labels(items, ls)->0.contains(y)]
            replace_labels(items, ls)->0.contains(y) && (str_of(y) matches Some(t) && starts_with(
                t,
                given_key(ls[i])->0 + "="@,
            )) ==> y == Yaml::Text(ls[i]),
    decreases ls.len(),
{
    let n = ls.len() - 1;
    let init = ls.drop_last();
    let last = ls.last();
    let a = replace_labels(items, init)->0;
    let k = given_key(last)->0;
    let r = replace_labels(items, ls)->0;
    assert(r == a.filter(not_prefixed(k + "="@)).push(Yaml::Text(last)));
    assert(r[r.len() - 1] == Yaml::Text(last));
    lemma_given_key_plain(last);
    if i == n {
        assert forall|y: Yaml|
            r.contains(y) && (str_of(y) matches Some(t) && starts_with(t, k + "="@)) implies y
                == Yaml::Text(last) by {
            if y != Yaml::Text(last) {
                let w = choose|w: int| 0 <= w < r.len() && r[w] == y;
                assert(w < r.len() - 1);
                assert(a.filter(not_prefixed(k + "="@)).contains(y)) by {
                    assert(a.filter(not_prefixed(k + "="@))[w] == y);
                }
                lemma_filtered_label(a, y, k);
            }
        }
    } else {
        assert(init[i] == ls[i]);
        assert forall|j: int| i < j < init.len() implies given_key(#[trigger] init[j]) != given_key(init[i]) by {
            assert(init[j] == ls[j]);
        }
        law_labels_replace_by_key(items, init, i);
        let ki = given_key(ls[i])->0;
        lemma_given_key_plain(ls[i]);
        assert(given_key(last) != given_key(ls[i]));
        // The label itself survives the filter by the last key.
        if starts_with(ls[i], k + "="@) {
            lemma_key_prefix(ls[i], k);
        }
        assert(str_of(Yaml::Text(ls[i])) == Some(ls[i]));
        lemma_label_survives(a, Yaml::Text(ls[i]), k);
        let f = a.filter(not_prefixed(k + "="@));
        let w = choose|w: int| 0 <= w < f.len() && f[w] == Yaml::Text(ls[i]);
        assert(r[w] == Yaml::Text(ls[i]));
        assert forall|y: Yaml|
            r.contains(y) && (str_of(y) matches Some(t) && starts_with(t, ki + "="@)) implies y
                == Yaml::Text(ls[i]) by {
            let v = choose|v: int| 0 <= v < r.len() && r[v] == y;
            if v == r.len() - 1 {
                assert(y == Yaml::Text(last));
                assert(str_of(y) == Some(last));
                lemma_key_prefix(last, ki);
            } else {
                assert(f[v] == y);
                assert(f.contains(y));
                lemma_filtered_label(a, y, k);
            }
        }
    }
}

/// A label of the list that no given label's key covers stays.
pub proof fn law_labels_keep_others(items: Seq<Yaml>, ls: Seq<Seq<char>>, y: Yaml)
    requires
        replace_labels(items, ls) is Some,
        items.contains(y),
        forall|j: int|
            0 <= j < ls.len() ==> !(str_of(y) matches Some(t) && starts_with(
                t,
                given_key(#[trigger] ls[j])->0 + "="@,
            )),
    ensures
        replace_labels(items, ls)->0.contains(y),
    decreases ls.len(),
{
    if ls.len() > 0 {
        let init = ls.drop_last();
        assert forall|j: int| 0 <= j < init.len() implies !(str_of(y) matches Some(t) && starts_with(
            t,
            given_key(#[trigger] init[j])->0 + "="@,
        )) by {
            assert(init[j] == ls[j]);
        }
        law_labels_keep_others(items, init, y);
        let a = replace_labels(items, init)->0;
        let k = given_key(ls.last())->0;
        assert(!(str_of(y) matches Some(t) && starts_with(t, given_key(ls[ls.len() - 1])->0 + "="@)));
        lemma_label_survives(a, y, k);
        let f = a.filter(not_prefixed(k + "="@));
        let w = choose|w: int| 0 <= w < f.len() && f[w] == y;
        assert(f.push(Yaml::Text(ls.last()))[w] == y);
    }
}

/// The key of the label setting differs from the other setting keys.
proof fn lemma_labels_key_differs()
    ensures
        "labels"@ != "image"@ && "labels"@ != "command"@ && "labels"@ != "environment"@
            && "labels"@ != "ports"@ && "labels"@ != "volumes"@ && "labels"@ != "network_mode"@
            && "labels"@ != "networks"@ && "labels"@ != "healthcheck"@,
{
    reveal_strlit("image");
    reveal_strlit("command");
    reveal_strlit("environment");
    reveal_strlit("ports");
    reveal_strlit("volumes");
    reveal_strlit("network_mode");
    reveal_strlit("networks");
    reveal_strlit("labels");
    reveal_strlit("healthcheck");
    assert("labels"@[0] != "image"@[0]);
    assert("labels"@[0] != "command"@[0]);
    assert("labels"@[0] != "environment"@[0]);
    assert("labels"@[0] != "ports"@[0]);
    assert("labels"@[0] != "volumes"@[0]);
    assert("labels"@[0] != "network_mode"@[0]);
    assert("labels"@[0] != "networks"@[0]);
    assert("labels"@[0] != "healthcheck"@[0]);
}

/// An edit that gives labels, and leaves routing alone, replaces the selected
/// service's labels by key: each given label replaces those with its key, in order
/// (see `law_labels_replace_by_key` and `law_labels_keep_others`).
pub proof fn law_edit_sets_labels(doc: Yaml, e: ApplicationEdit)
    requires
        edit_document(doc, e) is Some,
        distinct_keys(service_of(doc, selected_service(doc, e)->0)->0),
        e.labels@.len() > 0,
        !(rebuilds_routes(e) || e.container_port is Some || e.middlewares@.len() > 0),
    ensures
        list_under(service_of(doc, selected_service(doc, e)->0)->0, "labels"@) is Some,
        replace_labels(
            list_under(service_of(doc, selected_service(doc, e)->0)->0, "labels"@)->0,
            strs(e.labels@),
        ) is Some,
        service_of(edit_document(doc, e)->0, selected_service(doc, e)->0) is Some,
        list_under(service_of(edit_document(doc, e)->0, selected_service(doc, e)->0)->0, "labels"@)
            == replace_labels(
            list_under(service_of(doc, selected_service(doc, e)->0)->0, "labels"@)->0,
            strs(e.labels@),
        ),
{
    lemma_edited_service(doc, e);
    lemma_labels_key_differs();
    let es = service_of(doc, selected_service(doc, e)->0)->0;
    let s3 = before_ports(es, e);
    lemma_before_ports_keeps(es, e, "labels"@);
    let s4 = edit_ports(s3, e);
    if e.published_ports@.len() > 0 {
        lemma_insert_keeps(
            s3,
            "ports"@,
            Yaml::List(e.published_ports@.map_values(|p: PublishedPort| Yaml::Text(port_text(p)))),
            "labels"@,
        );
    }
    lemma_volumes_step_keeps(s4, e, "labels"@);
    let s5 = after_volumes(es, e);
    lemma_networks_keeps(s5, e, "labels"@);
    let s6 = edit_networks(s5, e)->0;
    lemma_routing_keeps(s6, e, "labels"@);
    let s7 = edit_routing(s6, e)->0;
    assert(s7 == s6);
    assert(list_under(s7, "labels"@) == list_under(es, "labels"@));
    let items = list_under(s7, "labels"@)->0;
    let n = replace_labels(items, strs(e.labels@))->0;
    let s8 = set_list(s7, "labels"@, n);
    assert(edit_labels(s7, e) == Some(s8));
    lemma_set_list_under(s7, "labels"@, n);
    let v = match dict_get(s7, "labels"@) {
        Some(w) => retag(w, Yaml::List(n)),
        None => Yaml::List(n),
    };
    lemma_dict_insert_distinct(s7, "labels"@, v);
    let t2 = if e.remove_healthcheck {
        lemma_dict_remove_other(s8, "healthcheck"@, "labels"@);
        dict_remove(s8, "healthcheck"@)
    } else {
        s8
    };
    match e.healthcheck {
        Some(h) => lemma_dict_insert_other(t2, "healthcheck"@, healthcheck_node(h), "labels"@),
        None => {},
    }
}

/// `append_all` keeps every element it starts from.
proof fn lemma_append_all_keeps(items: Seq<Yaml>, ss: Seq<Seq<char>>, y: Yaml)
    requires
        items.contains(y),
    ensures
        append_all(items, ss).contains(y),
    decreases ss.len(),
{
    if ss.len() > 0 {
        lemma_append_all_keeps(items, ss.drop_last(), y);
        let a = append_all(items, ss.drop_last());
        if !has_text(a, ss.last()) {
            let w = choose|k: int| 0 <= k < a.len() && a[k] == y;
            assert(a.push(Yaml::Text(ss.last()))[w] == y);
        }
    }
}

/// A label that is not a generated route label of the project is left alone by both
/// rewrites of generated labels.
proof fn lemma_custom_label_not_rewritten(name: Seq<char>, y: Yaml, port: nat, joined: Seq<char>)
    requires
        keeps_label(name)(y),
    ensures
        port_rewrite(name, port)(y) == y,
        middlewares_rewrite(name, joined)(y) == y,
{
    match str_of(y) {
        Some(t) => {
            lemma_find_char(t, '=');
        },
        None => {},
    }
}

/// A rewrite that leaves `y` alone keeps it among the mapped labels.
proof fn lemma_map_keeps(items: Seq<Yaml>, f: spec_fn(Yaml) -> Yaml, y: Yaml)
    requires
        items.contains(y),
        f(y) == y,
    ensures
        items.map_values(f).contains(y),
{
    let w = choose|k: int| 0 <= k < items.len() && items[k] == y;
    assert(items.map_values(f)[w] == y);
}

/// Updating or rebuilding the routes keeps every label that is not one of the
/// project's generated route labels.
pub proof fn law_routing_keeps_custom_labels(es: Seq<(Yaml, Yaml)>, e: ApplicationEdit, y: Yaml)
    requires
        edit_routing(es, e) is Some,
        plain_list(es, "labels"@) is Some,
        plain_list(es, "labels"@)->0.contains(y),
        keeps_label(e.name@)(y),
    ensures
        list_under(edit_routing(es, e)->0, "labels"@) is Some,
        list_under(edit_routing(es, e)->0, "labels"@)->0.contains(y),
{
    let name = e.name@;
    let items = plain_list(es, "labels"@)->0;
    if !rebuilds_routes(e) {
        let s1 = match e.container_port {
            Some(p) => update_port_labels(es, name, p as nat),
            None => es,
        };
        let items1 = match e.container_port {
            Some(p) => {
                lemma_custom_label_not_rewritten(name, y, p as nat, Seq::empty());
                lemma_map_keeps(items, port_rewrite(name, p as nat), y);
                law_dict_insert_get(es, "labels"@, Yaml::List(items.map_values(port_rewrite(name, p as nat))));
                items.map_values(port_rewrite(name, p as nat))
            },
            None => items,
        };
        assert(plain_list(s1, "labels"@) == Some(items1));
        if e.middlewares@.len() > 0 {
            let joined = join_refs(e.middlewares@);
            lemma_custom_label_not_rewritten(name, y, 0, joined);
            lemma_map_keeps(items1, middlewares_rewrite(name, joined), y);
            law_dict_insert_get(s1, "labels"@, Yaml::List(items1.map_values(middlewares_rewrite(name, joined))));
        }
    } else {
        let labels = labels_in(es);
        let default_port: nat = match e.container_port {
            Some(p) => p as nat,
            None => match existing_container_port(name, labels) {
                Some(p) => p,
                None => 80,
            },
        };
        let asked = requested_routes(e, default_port);
        let routes = if asked.len() == 0 {
            existing_routes(name, labels).map_values(with_edit_prefix(e))
        } else {
            asked
        };
        let ms = if e.middlewares@.len() == 0 {
            existing_middlewares(name, labels)
        } else {
            e.middlewares@
        };
        let offset = existing_route_offset(name, labels);
        let kept = items.filter(keeps_label(name));
        let w = choose|k: int| 0 <= k < items.len() && items[k] == y;
        items.lemma_filter_contains(keeps_label(name), w);
        let s1 = remove_generated_labels(es, name);
        law_dict_insert_get(es, "labels"@, Yaml::List(kept));
        assert(list_under(s1, "labels"@) == Some(kept));
        let added = append_all(kept, route_labels(name, routes, ms, offset));
        lemma_append_all_keeps(kept, route_labels(name, routes, ms, offset), y);
        let v = match dict_get(s1, "labels"@) {
            Some(x) => retag(x, Yaml::List(added)),
            None => Yaml::List(added),
        };
        law_dict_insert_get(s1, "labels"@, v);
        match dict_get(s1, "labels"@) {
            Some(x) => lemma_untag_retag(x, Yaml::List(added)),
            None => {},
        }
    }
}

// ---------------------------------------------------------------------------
// Executable steps
// ---------------------------------------------------------------------------

/// The service to edit.
fn select_service_exec(svcs: &Vec<(Value, Value)>, requested: &Option<String>) -> (r: Result<
    String,
    InvalidInput,
>)
    ensures
        match r {
            Ok(s) => select_service(yv_entries(svcs@), *requested) == Some(s@),
            Err(x) => select_service(yv_entries(svcs@), *requested) is None && x.0@ == select_failure(
                yv_entries(svcs@),
                *requested,
            ),
        },
{
    match requested {
        Some(s) => {
            if !valid_stack_name_exec(s.as_str()) {
                return Err(InvalidInput::new("服务名必须以小写字母开头，只能包含小写字母、数字、-、_，且不超过 63 个字符"));
            }
            match find_key(svcs, s.as_str()) {
                Some(_) => Ok(s.clone()),
                None => {
                    let mut m = String::from_str("Compose 服务不存在: ");
                    m.append(s.as_str());
                    Err(InvalidInput(m))
                },
            }
        },
        None => {
            if svcs.len() == 1 {
                proof {
                    lemma_yv_entries(svcs@);
                }
                match as_text(&svcs[0].0) {
                    Some(t) => Ok(t.clone()),
                    None => Err(InvalidInput::new("Compose 服务名必须是字符串")),
                }
            } else {
                proof {
                    lemma_yv_entries(svcs@);
                }
                Err(InvalidInput::new("该应用包含多个服务，请使用 --service 指定要修改的 Compose 服务"))
            }
        },
    }
}

/// Image and version.
fn edit_image_exec(es: &mut Vec<(Value, Value)>, e: &ApplicationEdit) -> (r: Result<(), InvalidInput>)
    ensures
        match edit_image(yv_entries(old(es)@), *e) {
            Some(n) => r is Ok && yv_entries(final(es)@) == n,
            None => r is Err,
        },
        r matches Err(x) ==> x.0@ == image_failure(yv_entries(old(es)@), *e),
{
    if e.image.is_none() && e.version.is_none() {
        return Ok(());
    }
    let cur: Vec<char> = match get_key(es, "image") {
        Some(v) => match as_text(v) {
            Some(t) => chars_of(t.as_str()),
            None => {
                return Err(InvalidInput::new("Compose 服务没有声明 image，无法修改镜像"));
            },
        },
        None => {
            return Err(InvalidInput::new("Compose 服务没有声明 image，无法修改镜像"));
        },
    };
    let repo: Vec<char> = match &e.image {
        Some(i) => {
            if !valid_image_repository_exec(i.as_str()) {
                return Err(InvalidInput::new("镜像名不能为空、不能包含版本标签、摘要或控制字符"));
            }
            chars_of(i.as_str())
        },
        None => match image_repository_exec(&cur) {
            Some(x) => x,
            None => {
                return Err(InvalidInput::new("现有镜像名无效"));
            },
        },
    };
    let tag: Vec<char> = match &e.version {
        Some(t) => {
            if !valid_image_version_exec(t.as_str()) {
                return Err(InvalidInput::new("镜像版本不能使用 latest，且必须以字母、数字或下划线开头，只能包含字母、数字、点、下划线和连字符，且不超过 128 个字符"));
            }
            chars_of(t.as_str())
        },
        None => match current_tag_exec(&cur) {
            Some(x) => x,
            None => {
                return Err(InvalidInput::new("现有镜像缺少版本标签，或按摘要部署"));
            },
        },
    };
    let mut image = string_of(&repo);
    image.append(":");
    let t = string_of(&tag);
    image.append(t.as_str());
    insert_key(es, "image", Value::String(image));
    Ok(())
}

/// The command.
fn edit_command_exec(es: &mut Vec<(Value, Value)>, e: &ApplicationEdit)
    ensures
        yv_entries(final(es)@) == edit_command(yv_entries(old(es)@), *e),
{
    if e.command.len() > 0 {
        let items = text_list(&e.command);
        insert_key(es, "command", Value::Sequence(items));
    }
}

/// Merges variables into the environment mapping.
fn merge_environment_exec(es: &mut Vec<(Value, Value)>, env: &Vec<(String, String)>) -> (r: Result<
    (),
    InvalidInput,
>)
    ensures
        match with_environment(yv_entries(old(es)@), env@) {
            Some(n) => r is Ok && yv_entries(final(es)@) == n,
            None => r is Err,
        },
        r matches Err(x) ==> x.0@ == "environment 必须是键值映射"@,
{
    if env.len() == 0 {
        return Ok(());
    }
    match dict_under_exec(es, "environment") {
        Some(mut inner) => {
            let ghost inner0 = yv_entries(inner@);
            let mut i: usize = 0;
            assert(env@.take(0) =~= Seq::<(String, String)>::empty());
            while i < env.len()
                invariant
                    i <= env@.len(),
                    yv_entries(inner@) == env_insert_all(inner0, env@.take(i as int)),
                decreases env.len() - i,
            {
                proof {
                    assert(env@.take(i + 1).drop_last() =~= env@.take(i as int));
                    assert(env@.take(i + 1).last() == env@[i as int]);
                }
                let v = Value::String(env[i].1.clone());
                insert_key(&mut inner, env[i].0.as_str(), v);
                i = i + 1;
            }
            assert(env@.take(i as int) =~= env@);
            set_dict_exec(es, "environment", inner);
            Ok(())
        },
        None => Err(InvalidInput::new("environment 必须是键值映射")),
    }
}

/// The port mappings.
fn edit_ports_exec(es: &mut Vec<(Value, Value)>, e: &ApplicationEdit)
    ensures
        yv_entries(final(es)@) == edit_ports(yv_entries(old(es)@), *e),
{
    if e.published_ports.len() == 0 {
        return;
    }
    let mut out: Vec<Value> = Vec::new();
    let mut i: usize = 0;
    while i < e.published_ports.len()
        invariant
            i <= e.published_ports@.len(),
            yv_list(out@) == e.published_ports@.take(i as int).map_values(
                |p: PublishedPort| Yaml::Text(port_text(p)),
            ),
        decreases e.published_ports.len() - i,
    {
        let x = Value::String(format_port(&e.published_ports[i]));
        proof {
            lemma_yv_list_push(out@, x);
        }
        out.push(x);
        assert(e.published_ports@.take(i + 1).map_values(|p: PublishedPort| Yaml::Text(port_text(p)))
            =~= e.published_ports@.take(i as int).map_values(
            |p: PublishedPort| Yaml::Text(port_text(p)),
        ).push(Yaml::Text(port_text(e.published_ports@[i as int]))));
        i = i + 1;
    }
    assert(e.published_ports@.take(i as int) =~= e.published_ports@);
    insert_key(es, "ports", Value::Sequence(out));
}

/// Appends each string of `ss` unless present.
fn append_all_exec(items: &mut Vec<Value>, ss: &Vec<String>)
    ensures
        yv_list(final(items)@) == append_all(yv_list(old(items)@), strs(ss@)),
{
    let ghost start = yv_list(items@);
    let mut i: usize = 0;
    assert(strs(ss@).take(0) =~= Seq::<Seq<char>>::empty());
    while i < ss.len()
        invariant
            i <= ss@.len(),
            yv_list(items@) == append_all(start, strs(ss@).take(i as int)),
        decreases ss.len() - i,
    {
        proof {
            assert(strs(ss@).take(i + 1).drop_last() =~= strs(ss@).take(i as int));
            assert(strs(ss@).take(i + 1).last() == ss@[i as int]@);
        }
        append_unique_exec(items, ss[i].as_str());
        i = i + 1;
    }
    assert(strs(ss@).take(i as int) =~= strs(ss@));
}

/// The volume mounts.
fn edit_volumes_exec(es: &mut Vec<(Value, Value)>, e: &ApplicationEdit) -> (r: Result<(), InvalidInput>)
    ensures
        match edit_volumes(yv_entries(old(es)@), *e) {
            Some(n) => r is Ok && yv_entries(final(es)@) == n,
            None => r is Err,
        },
        r matches Err(x) ==> x.0@ == "volumes 必须是列表"@,
{
    if e.volumes.len() > 0 {
        let mut texts: Vec<String> = Vec::new();
        let mut i: usize = 0;
        while i < e.volumes.len()
            invariant
                i <= e.volumes@.len(),
                strs(texts@) == e.volumes@.take(i as int).map_values(|v: Volume| volume_text(v)),
            decreases e.volumes.len() - i,
        {
            let ghost before = texts@;
            let t = format_volume(&e.volumes[i]);
            texts.push(t);
            assert(strs(texts@) =~= strs(before).push(t@));
            assert(e.volumes@.take(i + 1).map_values(|v: Volume| volume_text(v)) =~= e.volumes@.take(
                i as int,
            ).map_values(|v: Volume| volume_text(v)).push(volume_text(e.volumes@[i as int])));
            i = i + 1;
        }
        assert(e.volumes@.take(i as int) =~= e.volumes@);
        match list_under_exec(es, "volumes") {
            Some(mut items) => {
                append_all_exec(&mut items, &texts);
                set_list_exec(es, "volumes", items);
            },
            None => {
                return Err(InvalidInput::new("volumes 必须是列表"));
            },
        }
    }
    if e.named_volumes.len() > 0 {
        let mut texts: Vec<String> = Vec::new();
        let mut i: usize = 0;
        while i < e.named_volumes.len()
            invariant
                i <= e.named_volumes@.len(),
                strs(texts@) == e.named_volumes@.take(i as int).map_values(
                    |v: NamedVolume| named_volume_text(v),
                ),
            decreases e.named_volumes.len() - i,
        {
            let ghost before = texts@;
            let t = format_named_volume(&e.named_volumes[i]);
            texts.push(t);
            assert(strs(texts@) =~= strs(before).push(t@));
            assert(e.named_volumes@.take(i + 1).map_values(|v: NamedVolume| named_volume_text(v))
                =~= e.named_volumes@.take(i as int).map_values(
                |v: NamedVolume| named_volume_text(v),
            ).push(named_volume_text(e.named_volumes@[i as int])));
            i = i + 1;
        }
        assert(e.named_volumes@.take(i as int) =~= e.named_volumes@);
        match list_under_exec(es, "volumes") {
            Some(mut items) => {
                append_all_exec(&mut items, &texts);
                set_list_exec(es, "volumes", items);
            },
            None => {
                return Err(InvalidInput::new("volumes 必须是列表"));
            },
        }
    }
    Ok(())
}

/// Removes `alias` from a plain network list.
fn remove_network_ref_exec(es: &mut Vec<(Value, Value)>, alias: &str) -> (r: Result<(), InvalidInput>)
    ensures
        match remove_network_ref(yv_entries(old(es)@), alias@) {
            Some(n) => r is Ok && yv_entries(final(es)@) == n,
            None => r is Err,
        },
        r matches Err(x) ==> x.0@ == "networks 必须是列表形式，暂不支持通过参数修改"@,
{
    let present = match get_key(es, "networks") {
        Some(_) => true,
        None => false,
    };
    match crate::tree::plain_list_exec(es, "networks") {
        Some(items) => {
            let ghost p = not_text(alias@);
            let ghost ls = yv_list(items@);
            proof {
                lemma_yv_list(items@);
            }
            let mut out: Vec<Value> = Vec::new();
            let mut i: usize = 0;
            assert(ls.take(0) =~= Seq::<Yaml>::empty());
            proof {
            }
            while i < items.len()
                invariant
                    i <= items.len(),
                    ls == yv_list(items@),
                    p == not_text(alias@),
                    ls.len() == items@.len(),
                    forall|m: int| 0 <= m < items@.len() ==> #[trigger] ls[m] == yv(items@[m]),
                    yv_list(out@) == ls.take(i as int).filter(p),
                decreases items.len() - i,
            {
                proof {
                    assert(ls.take(i + 1) =~= ls.take(i as int).push(ls[i as int]));
                    ls.take(i as int).lemma_filter_push(ls[i as int], p);
                }
                let keep = match as_text(&items[i]) {
                    Some(t) => !crate::text::str_eq(t.as_str(), alias),
                    None => true,
                };
                if keep {
                    let x = crate::value::copy_value(&items[i]);
                    proof {
                        lemma_yv_list_push(out@, x);
                    }
                    out.push(x);
                }
                i = i + 1;
            }
            assert(ls.take(i as int) =~= ls);
            insert_key(es, "networks", Value::Sequence(out));
            Ok(())
        },
        None => {
            if present {
                Err(InvalidInput::new("networks 必须是列表形式，暂不支持通过参数修改"))
            } else {
                Ok(())
            }
        },
    }
}

/// The network mode and network list.
fn edit_networks_exec(es: &mut Vec<(Value, Value)>, e: &ApplicationEdit) -> (r: Result<(), InvalidInput>)
    ensures
        match edit_networks(yv_entries(old(es)@), *e) {
            Some(n) => r is Ok && yv_entries(final(es)@) == n,
            None => r is Err,
        },
        r matches Err(x) ==> x.0@ == networks_failure(*e),
{
    match &e.network_mode {
        None => Ok(()),
        Some(NetworkMode::Bridge) => {
            remove_key(es, "network_mode");
            remove_network_ref_exec(es, "application")
        },
        Some(NetworkMode::Host) => {
            insert_key(es, "network_mode", text_value("host"));
            remove_network_ref_exec(es, "application")?;
            remove_network_ref_exec(es, "traefik")
        },
        Some(NetworkMode::External(_)) => {
            remove_key(es, "network_mode");
            match list_under_exec(es, "networks") {
                Some(mut items) => {
                    append_unique_exec(&mut items, "application");
                    set_list_exec(es, "networks", items);
                    Ok(())
                },
                None => Err(InvalidInput::new("networks 必须是列表")),
            }
        },
    }
}

/// A copy of an optional string.
fn clone_opt(o: &Option<String>) -> (r: Option<String>)
    ensures
        opt_chars(r) == opt_chars(*o),
{
    match o {
        Some(s) => Some(s.clone()),
        None => None,
    }
}

/// The routes that the edit asks for.
fn requested_routes_exec(e: &ApplicationEdit, default_port: u16) -> (r: Vec<Route>)
    ensures
        routes_view(r@) == requested_routes(*e, default_port as nat),
{
    let ghost fh = host_route(*e, default_port as nat);
    let ghost fr = explicit_route(*e);
    let mut out: Vec<Route> = Vec::new();
    let mut i: usize = 0;
    while i < e.hosts.len()
        invariant
            i <= e.hosts@.len(),
            fh == host_route(*e, default_port as nat),
            routes_view(out@) == e.hosts@.take(i as int).map_values(fh),
        decreases e.hosts.len() - i,
    {
        let ghost before = out@;
        let route = Route {
            host: e.hosts[i].clone(),
            path_prefix: clone_opt(&e.path_prefix),
            container_port: default_port,
        };
        out.push(route);
        assert(routes_view(out@) =~= routes_view(before).push(crate::types::route_view(route)));
        assert(e.hosts@.take(i + 1).map_values(fh) =~= e.hosts@.take(i as int).map_values(fh).push(
            fh(e.hosts@[i as int]),
        ));
        i = i + 1;
    }
    assert(e.hosts@.take(i as int) =~= e.hosts@);
    let ghost head = e.hosts@.map_values(fh);
    let mut j: usize = 0;
    assert(head + e.routes@.take(0).map_values(fr) =~= head);
    while j < e.routes.len()
        invariant
            j <= e.routes@.len(),
            fr == explicit_route(*e),
            routes_view(out@) == head + e.routes@.take(j as int).map_values(fr),
        decreases e.routes.len() - j,
    {
        let ghost before = out@;
        let r = &e.routes[j];
        let prefix = match &e.path_prefix {
            Some(p) => Some(p.clone()),
            None => clone_opt(&r.path_prefix),
        };
        let route = Route { host: r.host.clone(), path_prefix: prefix, container_port: r.container_port };
        out.push(route);
        assert(routes_view(out@) =~= routes_view(before).push(crate::types::route_view(route)));
        assert(head + e.routes@.take(j + 1).map_values(fr) =~= (head + e.routes@.take(
            j as int,
        ).map_values(fr)).push(fr(e.routes@[j as int])));
        j = j + 1;
    }
    assert(e.routes@.take(j as int) =~= e.routes@);
    out
}

/// Existing routes with the edit's path prefix.
fn prefixed_routes(existing: &Vec<Route>, e: &ApplicationEdit) -> (r: Vec<Route>)
    ensures
        routes_view(r@) == routes_view(existing@).map_values(with_edit_prefix(*e)),
{
    let ghost f = with_edit_prefix(*e);
    let mut out: Vec<Route> = Vec::new();
    let mut i: usize = 0;
    while i < existing.len()
        invariant
            i <= existing@.len(),
            f == with_edit_prefix(*e),
            routes_view(out@) == routes_view(existing@.take(i as int)).map_values(f),
        decreases existing.len() - i,
    {
        let ghost before = out@;
        let x = &existing[i];
        let prefix = match &e.path_prefix {
            Some(p) => Some(p.clone()),
            None => clone_opt(&x.path_prefix),
        };
        let route = Route { host: x.host.clone(), path_prefix: prefix, container_port: x.container_port };
        out.push(route);
        assert(routes_view(out@) =~= routes_view(before).push(crate::types::route_view(route)));
        assert(routes_view(existing@.take(i + 1)) =~= routes_view(existing@.take(i as int)).push(
            crate::types::route_view(existing@[i as int]),
        ));
        assert(routes_view(existing@.take(i + 1)).map_values(f) =~= routes_view(
            existing@.take(i as int),
        ).map_values(f).push(f(crate::types::route_view(existing@[i as int]))));
        i = i + 1;
    }
    assert(existing@.take(i as int) =~= existing@);
    out
}

/// A copy of a list of middlewares.
fn copy_middlewares(ms: &Vec<Middleware>) -> (r: Vec<Middleware>)
    ensures
        r@ == ms@,
{
    let mut out: Vec<Middleware> = Vec::new();
    let mut i: usize = 0;
    while i < ms.len()
        invariant
            i <= ms@.len(),
            out@ == ms@.take(i as int),
        decreases ms.len() - i,
    {
        out.push(ms[i]);
        assert(out@ =~= ms@.take(i + 1));
        i = i + 1;
    }
    assert(ms@.take(i as int) =~= ms@);
    out
}

/// The routing labels.
fn edit_routing_exec(es: &mut Vec<(Value, Value)>, e: &ApplicationEdit) -> (r: Result<(), InvalidInput>)
    ensures
        match edit_routing(yv_entries(old(es)@), *e) {
            Some(n) => r is Ok && yv_entries(final(es)@) == n,
            None => r is Err,
        },
        r matches Err(x) ==> x.0@ == "labels 必须是列表"@,
{
    let name = e.name.as_str();
    let rebuild = e.hosts.len() > 0 || e.routes.len() > 0 || e.path_prefix.is_some();
    if !rebuild {
        match e.container_port {
            Some(p) => update_port_labels_exec(es, name, p),
            None => {},
        }
        if e.middlewares.len() > 0 {
            update_middleware_labels_exec(es, name, e.middlewares.as_slice());
        }
        return Ok(());
    }
    let labels = labels_in_exec(es);
    let default_port: u16 = match e.container_port {
        Some(p) => p,
        None => match existing_container_port_exec(name, &labels) {
            Some(p) => p,
            None => 80,
        },
    };
    let mut routes = requested_routes_exec(e, default_port);
    if routes.len() == 0 {
        let existing = existing_routes_exec(name, &labels);
        routes = prefixed_routes(&existing, e);
    }
    let ms = if e.middlewares.len() == 0 {
        existing_middlewares_exec(name, &labels)
    } else {
        copy_middlewares(&e.middlewares)
    };
    let offset = existing_route_offset_exec(name, &labels);
    remove_generated_labels_exec(es, name);
    let new_labels = application_route_labels(name, routes.as_slice(), ms.as_slice(), offset);
    match list_under_exec(es, "labels") {
        Some(mut items) => {
            append_all_exec(&mut items, &new_labels);
            set_list_exec(es, "labels", items);
            Ok(())
        },
        None => Err(InvalidInput::new("labels 必须是列表")),
    }
}

proof fn lemma_replace_labels_prefix_none(items: Seq<Yaml>, ls: Seq<Seq<char>>, k: int)
    requires
        0 <= k <= ls.len(),
        replace_labels(items, ls.take(k)) is None,
    ensures
        replace_labels(items, ls) is None,
    decreases ls.len() - k,
{
    if k < ls.len() {
        assert(ls.take(k + 1).drop_last() =~= ls.take(k));
        lemma_replace_labels_prefix_none(items, ls, k + 1);
    } else {
        assert(ls.take(k) =~= ls);
    }
}

/// The custom labels.
fn edit_labels_exec(es: &mut Vec<(Value, Value)>, e: &ApplicationEdit) -> (r: Result<(), InvalidInput>)
    ensures
        match edit_labels(yv_entries(old(es)@), *e) {
            Some(n) => r is Ok && yv_entries(final(es)@) == n,
            None => r is Err,
        },
        r matches Err(x) ==> x.0@ == labels_failure(yv_entries(old(es)@)),
{
    if e.labels.len() == 0 {
        return Ok(());
    }
    let ghost ls = strs(e.labels@);
    match list_under_exec(es, "labels") {
        Some(mut items) => {
            let ghost items0 = yv_list(items@);
            let mut i: usize = 0;
            assert(ls.take(0) =~= Seq::<Seq<char>>::empty());
            while i < e.labels.len()
                invariant
                    i <= e.labels@.len(),
                    ls == strs(e.labels@),
                    es@ == old(es)@,
                    list_under(yv_entries(old(es)@), "labels"@) == Some(items0),
                    replace_labels(items0, ls.take(i as int)) == Some(yv_list(items@)),
                decreases e.labels.len() - i,
            {
                proof {
                    assert(ls.take(i + 1).drop_last() =~= ls.take(i as int));
                    assert(ls.take(i + 1).last() == e.labels@[i as int]@);
                }
                let cs = chars_of(e.labels[i].as_str());
                match split_once_exec(&cs, '=') {
                    Some((k, _)) => {
                        let mut prefix = k;
                        prefix.push('=');
                        proof {
                            reveal_strlit("=");
                        }
                        assert(prefix@ =~= k@ + "="@);
                        let ghost p = not_prefixed(prefix@);
                        let ghost a = yv_list(items@);
                        proof {
                            lemma_yv_list(items@);
                        }
                        let mut kept: Vec<Value> = Vec::new();
                        let mut j: usize = 0;
                        assert(a.take(0) =~= Seq::<Yaml>::empty());
                        proof {
                        }
                        while j < items.len()
                            invariant
                                j <= items.len(),
                                a == yv_list(items@),
                                p == not_prefixed(prefix@),
                                a.len() == items@.len(),
                                forall|m: int|
                                    0 <= m < items@.len() ==> #[trigger] a[m] == yv(items@[m]),
                                yv_list(kept@) == a.take(j as int).filter(p),
                            decreases items.len() - j,
                        {
                            proof {
                                assert(a.take(j + 1) =~= a.take(j as int).push(a[j as int]));
                                a.take(j as int).lemma_filter_push(a[j as int], p);
                            }
                            let keep = match as_text(&items[j]) {
                                Some(t) => {
                                    let tc = chars_of(t.as_str());
                                    !starts_with_exec(&tc, &prefix)
                                },
                                None => true,
                            };
                            if keep {
                                let x = crate::value::copy_value(&items[j]);
                                proof {
                                    lemma_yv_list_push(kept@, x);
                                }
                                kept.push(x);
                            }
                            j = j + 1;
                        }
                        assert(a.take(j as int) =~= a);
                        let x = Value::String(e.labels[i].clone());
                        proof {
                            lemma_yv_list_push(kept@, x);
                        }
                        kept.push(x);
                        items = kept;
                    },
                    None => {
                        proof {
                            assert(split_once(ls.take(i + 1).last(), '=') is None);
                            assert(replace_labels(items0, ls.take(i + 1)) is None);
                            lemma_replace_labels_prefix_none(items0, ls, i + 1);
                        }
                        return Err(InvalidInput::new("自定义标签格式必须为 KEY=VALUE"));
                    },
                }
                i = i + 1;
            }
            assert(ls.take(i as int) =~= ls);
            set_list_exec(es, "labels", items);
            Ok(())
        },
        None => Err(InvalidInput::new("labels 必须是列表")),
    }
}

/// The tree of a health check definition.
fn healthcheck_value(h: &HealthcheckSpec) -> (r: Value)
    ensures
        yv(r) == healthcheck_node(*h),
{
    let mut test: Vec<Value> = Vec::new();
    test.push(text_value("CMD-SHELL"));
    test.push(Value::String(h.command.clone()));
    proof {
        lemma_yv_list(test@);
    }
    assert(yv_list(test@) =~= seq![txt("CMD-SHELL"@), txt(h.command@)]);
    let mut es: Vec<(Value, Value)> = Vec::new();
    es.push((text_value("test"), Value::Sequence(test)));
    es.push((text_value("interval"), Value::String(h.interval.clone())));
    es.push((text_value("timeout"), Value::String(h.timeout.clone())));
    match &h.start_period {
        Some(p) => {
            es.push((text_value("start_period"), Value::String(p.clone())));
        },
        None => {},
    }
    es.push((text_value("retries"), Value::Number(crate::value::Number::PosInt(h.retries as u64))));
    proof {
        lemma_yv_entries(es@);
    }
    assert(yv_entries(es@) =~= healthcheck_node(*h)->Dict_0);
    Value::Mapping(es)
}

/// The health check.
fn edit_healthcheck_exec(es: &mut Vec<(Value, Value)>, e: &ApplicationEdit) -> (r: Result<(), InvalidInput>)
    ensures
        match edit_healthcheck(yv_entries(old(es)@), *e) {
            Some(n) => r is Ok && yv_entries(final(es)@) == n,
            None => r is Err,
        },
        r matches Err(x) ==> x.0@ == healthcheck_failure(e.healthcheck->0),
{
    if e.remove_healthcheck {
        remove_key(es, "healthcheck");
    }
    match &e.healthcheck {
        None => Ok(()),
        Some(h) => {
            if !valid_duration_exec(h.interval.as_str()) {
                let mut m = String::from_str("健康检查间隔格式无效: ");
                m.append(h.interval.as_str());
                return Err(InvalidInput(m));
            }
            if !valid_duration_exec(h.timeout.as_str()) {
                let mut m = String::from_str("健康检查超时格式无效: ");
                m.append(h.timeout.as_str());
                return Err(InvalidInput(m));
            }
            match &h.start_period {
                Some(p) => {
                    if !valid_duration_exec(p.as_str()) {
                        let mut m = String::from_str("健康检查启动宽限期格式无效: ");
                        m.append(p.as_str());
                        return Err(InvalidInput(m));
                    }
                },
                None => {},
            }
            let cmd = chars_of(h.command.as_str());
            if is_blank_exec(&cmd) || has_line_break_or_nul_exec(&cmd) {
                return Err(InvalidInput::new("健康检查命令不能为空或包含控制字符"));
            }
            insert_key(es, "healthcheck", healthcheck_value(h));
            Ok(())
        },
    }
}

/// A service's entries after the edit.
fn edited_service(svc: &Vec<(Value, Value)>, e: &ApplicationEdit) -> (r: Result<
    Vec<(Value, Value)>,
    InvalidInput,
>)
    ensures
        match r {
            Ok(v) => edit_service(yv_entries(svc@), *e) == Some(yv_entries(v@)),
            Err(x) => edit_service(yv_entries(svc@), *e) is None && x.0@ == service_failure(
                yv_entries(svc@),
                *e,
            ),
        },
{
    let mut s = copy_entries(svc);
    edit_image_exec(&mut s, e)?;
    edit_command_exec(&mut s, e);
    merge_environment_exec(&mut s, &e.environment)?;
    edit_ports_exec(&mut s, e);
    edit_volumes_exec(&mut s, e)?;
    edit_networks_exec(&mut s, e)?;
    edit_routing_exec(&mut s, e)?;
    edit_labels_exec(&mut s, e)?;
    edit_healthcheck_exec(&mut s, e)?;
    Ok(s)
}

/// The volume declarations.
fn declare_volumes_exec(top: &mut Vec<(Value, Value)>, e: &ApplicationEdit) -> (r: Result<(), InvalidInput>)
    ensures
        match declare_volumes(yv_entries(old(top)@), *e) {
            Some(n) => r is Ok && yv_entries(final(top)@) == n,
            None => r is Err,
        },
        r matches Err(x) ==> x.0@ == "volumes 必须是键值映射"@,
{
    if e.named_volumes.len() == 0 {
        return Ok(());
    }
    let ghost names = volume_names(e.named_volumes@);
    match dict_under_exec(top, "volumes") {
        Some(mut inner) => {
            let ghost inner0 = yv_entries(inner@);
            let mut i: usize = 0;
            assert(names.take(0) =~= Seq::<Seq<char>>::empty());
            while i < e.named_volumes.len()
                invariant
                    i <= e.named_volumes@.len(),
                    names == volume_names(e.named_volumes@),
                    yv_entries(inner@) == declare_names(inner0, names.take(i as int)),
                decreases e.named_volumes.len() - i,
            {
                proof {
                    assert(names.take(i + 1).drop_last() =~= names.take(i as int));
                    assert(names.take(i + 1).last() == e.named_volumes@[i as int].name@);
                }
                let empty: Vec<(Value, Value)> = Vec::new();
                assert(yv_entries(empty@) =~= Seq::<(Yaml, Yaml)>::empty());
                or_insert_key(&mut inner, e.named_volumes[i].name.as_str(), Value::Mapping(empty));
                i = i + 1;
            }
            assert(names.take(i as int) =~= names);
            set_dict_exec(top, "volumes", inner);
            Ok(())
        },
        None => Err(InvalidInput::new("volumes 必须是键值映射")),
    }
}

/// The definition of an external network.
fn external_network_value(n: &str) -> (r: Value)
    ensures
        yv(r) == external_network(n@),
{
    let mut es: Vec<(Value, Value)> = Vec::new();
    es.push((text_value("name"), text_value(n)));
    es.push((text_value("external"), Value::Bool(true)));
    proof {
        lemma_yv_entries(es@);
    }
    assert(yv_entries(es@) =~= external_network(n@)->Dict_0);
    Value::Mapping(es)
}

/// The network declarations.
fn declare_networks_exec(top: &mut Vec<(Value, Value)>, e: &ApplicationEdit) -> (r: Result<(), InvalidInput>)
    ensures
        match declare_networks(yv_entries(old(top)@), *e) {
            Some(n) => r is Ok && yv_entries(final(top)@) == n,
            None => r is Err,
        },
        r matches Err(x) ==> x.0@ == "networks 必须是键值映射"@,
{
    match &e.network_mode {
        Some(NetworkMode::External(n)) => match dict_under_exec(top, "networks") {
            Some(mut inner) => {
                insert_key(&mut inner, "application", external_network_value(n.as_str()));
                set_dict_exec(top, "networks", inner);
                Ok(())
            },
            None => Err(InvalidInput::new("networks 必须是键值映射")),
        },
        _ => Ok(()),
    }
}

/// The document after the edit.
fn edited_document(doc: &Value, e: &ApplicationEdit) -> (r: Result<Value, InvalidInput>)
    ensures
        match r {
            Ok(v) => edit_document(yv(*doc), *e) == Some(yv(v)),
            Err(x) => edit_document(yv(*doc), *e) is None && x.0@ == edit_failure(yv(*doc), *e),
        },
{
    let top = match untagged(doc) {
        Value::Mapping(t) => t,
        _ => {
            return Err(InvalidInput::new("Compose YAML 必须包含 services 对象"));
        },
    };
    let sv = match get_key(top, "services") {
        Some(v) => v,
        None => {
            return Err(InvalidInput::new("Compose YAML 必须包含 services 对象"));
        },
    };
    let svcs = match untagged(sv) {
        Value::Mapping(s) => s,
        _ => {
            return Err(InvalidInput::new("Compose YAML 必须包含 services 对象"));
        },
    };
    let sel = select_service_exec(svcs, &e.service)?;
    let svc = match get_key(svcs, sel.as_str()) {
        Some(Value::Mapping(s)) => s,
        _ => {
            let mut m = String::from_str("Compose 服务不存在: ");
            m.append(sel.as_str());
            return Err(InvalidInput(m));
        },
    };
    let svc2 = edited_service(svc, e)?;
    let mut svcs2 = copy_entries(svcs);
    insert_key(&mut svcs2, sel.as_str(), Value::Mapping(svc2));
    let mut top2 = copy_entries(top);
    let sv2 = retag_value(sv, Value::Mapping(svcs2));
    insert_key(&mut top2, "services", sv2);
    declare_volumes_exec(&mut top2, e)?;
    declare_networks_exec(&mut top2, e)?;
    Ok(retag_value(doc, Value::Mapping(top2)))
}

/// Applies a parameterised edit to a Compose document. On success the document is
/// the one that [`edit_document`] describes; on an error it is left unchanged.
pub fn apply_edit(document: &mut Value, edit: &ApplicationEdit) -> (r: Result<(), InvalidInput>)
    ensures
        r is Ok <==> edit_document(yv(*old(document)), *edit) is Some,
        r is Ok ==> edit_document(yv(*old(document)), *edit) == Some(yv(*final(document))),
        r is Err ==> *final(document) == *old(document),
        r matches Err(x) ==> x.0@ == edit_failure(yv(*old(document)), *edit),
{
    let updated = edited_document(document, edit)?;
    *document = updated;
    Ok(())
}


// ---------------------------------------------------------------------------
// Adding a service
// ---------------------------------------------------------------------------

/// The services mapping of a document, when the document is a mapping whose
/// `services` is a mapping.
pub open spec fn doc_services(doc: Yaml) -> Option<Seq<(Yaml, Yaml)>> {
    match untag(doc) {
        Yaml::Dict(top) => match dict_get(top, "services"@) {
            Some(sv) => match untag(sv) {
                Yaml::Dict(svcs) => Some(svcs),
                _ => None,
            },
            None => None,
        },
        _ => None,
    }
}

/// The services without the one that the specification replaces.
pub open spec fn remaining_services(svcs: Seq<(Yaml, Yaml)>, s: AppSpec) -> Seq<(Yaml, Yaml)> {
    if dict_has(svcs, s.service@) {
        dict_remove(svcs, s.service@)
    } else {
        svcs
    }
}

/// The first route index of the added service: one past every index the project's
/// other services use.
pub open spec fn add_offset(doc: Yaml, s: AppSpec) -> nat {
    match doc_services(doc) {
        Some(svcs) => project_route_offset(remaining_services(svcs, s), s.name@),
        None => 0,
    }
}

/// The container name of an added service: `nihility-PROJECT-SERVICE`.
pub open spec fn added_container_name(s: AppSpec) -> Seq<char> {
    "nihility-"@ + s.name@ + "-"@ + s.service@
}

/// `es` with each network definition inserted in turn.
pub open spec fn insert_networks(es: Seq<(Yaml, Yaml)>, defs: Seq<(String, Network)>) -> Seq<(Yaml, Yaml)>
    decreases defs.len(),
{
    if defs.len() == 0 {
        es
    } else {
        dict_insert(insert_networks(es, defs.drop_last()), defs.last().0@, network_yaml(defs.last().1))
    }
}

/// The document with `svc` added as the specification's service, its environment
/// merged in, and the fragment's networks and volumes declared; none when the
/// document has no services mapping, the service exists and `force` is not set, or
/// the top-level networks or volumes are not mappings.
pub open spec fn service_added(doc: Yaml, s: AppSpec, force: bool, svc: Service, frag: Document) -> Option<Yaml> {
    match untag(doc) {
        Yaml::Dict(top) => match dict_get(top, "services"@) {
            Some(sv) => match untag(sv) {
                Yaml::Dict(svcs) => if dict_has(svcs, s.service@) && !force {
                    None
                } else {
                    match with_environment(service_entries(svc), s.environment@) {
                        Some(entries) => {
                            let svcs2 = dict_insert(
                                remaining_services(svcs, s),
                                s.service@,
                                Yaml::Dict(entries),
                            );
                            let top2 = dict_insert(top, "services"@, retag(sv, Yaml::Dict(svcs2)));
                            match dict_under(top2, "networks"@) {
                                Some(nets) => {
                                    let top3 = set_dict(top2, "networks"@, insert_networks(nets, frag.networks@));
                                    match dict_under(top3, "volumes"@) {
                                        Some(vols) => Some(
                                            retag(
                                                doc,
                                                Yaml::Dict(
                                                    set_dict(
                                                        top3,
                                                        "volumes"@,
                                                        declare_names(vols, kv_keys(frag.volumes@)),
                                                    ),
                                                ),
                                            ),
                                        ),
                                        None => None,
                                    }
                                },
                                None => None,
                            }
                        },
                        None => None,
                    }
                },
                _ => None,
            },
            None => None,
        },
        _ => None,
    }
}

/// Whether `m` is why adding an application's service to a document is refused:
/// no `services` mapping, an existing service without `force`, an invalid
/// specification, then top-level networks or volumes that are not mappings.
pub open spec fn add_refusal(doc: Yaml, s: AppSpec, force: bool, m: Seq<char>) -> bool {
    match untag(doc) {
        Yaml::Dict(top) => match dict_get(top, "services"@) {
            Some(sv) => match untag(sv) {
                Yaml::Dict(svcs) => if dict_has(svcs, s.service@) && !force {
                    m == "服务 "@ + s.service@ + " 已存在；确认替换请使用 --force"@
                } else if !valid_app(s) {
                    crate::gen::app_refusal(s, m)
                } else if dict_under(top, "networks"@) is None {
                    m == "networks 必须是键值映射"@
                } else {
                    m == "volumes 必须是键值映射"@
                },
                _ => m == no_services_message(),
            },
            None => m == no_services_message(),
        },
        _ => m == no_services_message(),
    }
}

/// Whether no entry has the string key `k`.
pub open spec fn no_key(es: Seq<(Yaml, Yaml)>, k: Seq<char>) -> bool {
    forall|m: int| 0 <= m < es.len() ==> (#[trigger] es[m]).0 != Yaml::Text(k)
}

proof fn lemma_no_key_concat(a: Seq<(Yaml, Yaml)>, b: Seq<(Yaml, Yaml)>, k: Seq<char>)
    requires
        no_key(a, k),
        no_key(b, k),
    ensures
        no_key(a + b, k),
{
    assert forall|m: int| 0 <= m < (a + b).len() implies (#[trigger] (a + b)[m]).0 != Yaml::Text(k) by {
        if m < a.len() {
            assert((a + b)[m] == a[m]);
        } else {
            assert((a + b)[m] == b[m - a.len()]);
        }
    }
}

/// The services of a document after adding a service: the added service under its
/// name, the other services of the document as they were.
proof fn lemma_service_added_shape(doc: Yaml, s: AppSpec, force: bool, svc: Service, frag: Document)
    requires
        service_added(doc, s, force, svc, frag) is Some,
    ensures
        doc_services(doc) is Some,
        with_environment(service_entries(svc), s.environment@) is Some,
        doc_services(service_added(doc, s, force, svc, frag)->0) == Some(
            dict_insert(
                remaining_services(doc_services(doc)->0, s),
                s.service@,
                Yaml::Dict(with_environment(service_entries(svc), s.environment@)->0),
            ),
        ),
{
    let top = untag(doc)->Dict_0;
    let sv = dict_get(top, "services"@)->0;
    let svcs = untag(sv)->Dict_0;
    let entries = with_environment(service_entries(svc), s.environment@)->0;
    let svcs2 = dict_insert(remaining_services(svcs, s), s.service@, Yaml::Dict(entries));
    let top2 = dict_insert(top, "services"@, retag(sv, Yaml::Dict(svcs2)));
    law_dict_insert_get(top, "services"@, retag(sv, Yaml::Dict(svcs2)));
    lemma_setting_keys_differ();
    let nets = dict_under(top2, "networks"@)->0;
    let top3 = set_dict(top2, "networks"@, insert_networks(nets, frag.networks@));
    let v3 = match dict_get(top2, "networks"@) {
        Some(w) => retag(w, Yaml::Dict(insert_networks(nets, frag.networks@))),
        None => Yaml::Dict(insert_networks(nets, frag.networks@)),
    };
    lemma_dict_insert_other(top2, "networks"@, v3, "services"@);
    let vols = dict_under(top3, "volumes"@)->0;
    let v4 = match dict_get(top3, "volumes"@) {
        Some(w) => retag(w, Yaml::Dict(declare_names(vols, kv_keys(frag.volumes@)))),
        None => Yaml::Dict(declare_names(vols, kv_keys(frag.volumes@))),
    };
    lemma_dict_insert_other(top3, "volumes"@, v4, "services"@);
    let top4 = set_dict(top3, "volumes"@, declare_names(vols, kv_keys(frag.volumes@)));
    lemma_untag_retag(doc, Yaml::Dict(top4));
    lemma_untag_retag(sv, Yaml::Dict(svcs2));
}

/// Adding a service under a name that the project already uses is refused unless
/// replacing it is asked for.
pub proof fn law_add_existing_service_needs_force(doc: Yaml, s: AppSpec, svc: Service, frag: Document)
    requires
        doc_services(doc) is Some,
        dict_has(doc_services(doc)->0, s.service@),
    ensures
        service_added(doc, s, false, svc, frag) is None,
{
}

/// After adding a service, the project's services hold the added service, its
/// variables merged into its own environment, and every other service as it was.
pub proof fn law_add_service_reads_back(doc: Yaml, s: AppSpec, force: bool, svc: Service, frag: Document, name: Seq<char>)
    requires
        service_added(doc, s, force, svc, frag) is Some,
        distinct_keys(doc_services(doc)->0),
    ensures
        doc_services(service_added(doc, s, force, svc, frag)->0) is Some,
        dict_get(doc_services(service_added(doc, s, force, svc, frag)->0)->0, s.service@) == Some(
            Yaml::Dict(with_environment(service_entries(svc), s.environment@)->0),
        ),
        name != s.service@ ==> dict_get(doc_services(service_added(doc, s, force, svc, frag)->0)->0, name)
            == dict_get(doc_services(doc)->0, name),
{
    lemma_service_added_shape(doc, s, force, svc, frag);
    let svcs = doc_services(doc)->0;
    let entries = with_environment(service_entries(svc), s.environment@)->0;
    let rest = remaining_services(svcs, s);
    law_dict_insert_get(rest, s.service@, Yaml::Dict(entries));
    if name != s.service@ {
        lemma_dict_insert_other(rest, s.service@, Yaml::Dict(entries), name);
        if dict_has(svcs, s.service@) {
            lemma_dict_remove_other(svcs, s.service@, name);
        }
    }
}

/// A service without environment variables has no `environment` entry, so merging
/// variables into it always succeeds.
proof fn lemma_merge_into_service(svc: Service, env: Seq<(String, String)>)
    requires
        svc.environment@.len() == 0,
    ensures
        with_environment(service_entries(svc), env) is Some,
{
    let k = "environment"@;
    reveal_strlit("environment");
    reveal_strlit("image");
    reveal_strlit("container_name");
    reveal_strlit("command");
    reveal_strlit("restart");
    reveal_strlit("network_mode");
    reveal_strlit("networks");
    reveal_strlit("ports");
    reveal_strlit("volumes");
    reveal_strlit("env_file");
    reveal_strlit("labels");
    reveal_strlit("healthcheck");
    reveal_strlit("logging");
    assert(k.len() == 11);
    assert("image"@.len() == 5);
    assert("container_name"@.len() == 14);
    assert("command"@.len() == 7);
    assert("restart"@.len() == 7);
    assert("network_mode"@.len() == 12);
    assert("networks"@.len() == 8);
    assert("ports"@.len() == 5);
    assert("volumes"@.len() == 7);
    assert("env_file"@.len() == 8);
    assert("labels"@.len() == 6);
    assert("healthcheck"@[0] != k[0]);
    assert("logging"@.len() == 7);
    let p1 = seq![(txt("image"@), txt(svc.image@))];
    let p2 = opt_field("container_name"@, svc.container_name);
    let p3 = list_field("command"@, svc.command@);
    let p4 = opt_field("restart"@, svc.restart);
    let p5 = opt_field("network_mode"@, svc.network_mode);
    let p6 = list_field("networks"@, svc.networks@);
    let p7 = list_field("ports"@, svc.ports@);
    let p8 = list_field("volumes"@, svc.volumes@);
    let p9 = pairs_field("environment"@, svc.environment@);
    let p10 = list_field("env_file"@, svc.env_file@);
    let p11 = list_field("labels"@, svc.labels@);
    let p12: Seq<(Yaml, Yaml)> = match svc.healthcheck {
        Some(h) => seq![(txt("healthcheck"@), healthcheck_yaml(h))],
        None => Seq::empty(),
    };
    let p13: Seq<(Yaml, Yaml)> = match svc.logging {
        Some(l) => seq![(txt("logging"@), logging_yaml(l))],
        None => Seq::empty(),
    };
    assert(no_key(p1, k));
    assert(no_key(p2, k));
    assert(no_key(p3, k));
    assert(no_key(p4, k));
    assert(no_key(p5, k));
    assert(no_key(p6, k));
    assert(no_key(p7, k));
    assert(no_key(p8, k));
    assert(no_key(p9, k));
    assert(no_key(p10, k));
    assert(no_key(p11, k));
    assert(no_key(p12, k));
    assert(no_key(p13, k));
    lemma_no_key_concat(p1, p2, k);
    lemma_no_key_concat(p1 + p2, p3, k);
    lemma_no_key_concat(p1 + p2 + p3, p4, k);
    lemma_no_key_concat(p1 + p2 + p3 + p4, p5, k);
    lemma_no_key_concat(p1 + p2 + p3 + p4 + p5, p6, k);
    lemma_no_key_concat(p1 + p2 + p3 + p4 + p5 + p6, p7, k);
    lemma_no_key_concat(p1 + p2 + p3 + p4 + p5 + p6 + p7, p8, k);
    lemma_no_key_concat(p1 + p2 + p3 + p4 + p5 + p6 + p7 + p8, p9, k);
    lemma_no_key_concat(p1 + p2 + p3 + p4 + p5 + p6 + p7 + p8 + p9, p10, k);
    lemma_no_key_concat(p1 + p2 + p3 + p4 + p5 + p6 + p7 + p8 + p9 + p10, p11, k);
    lemma_no_key_concat(p1 + p2 + p3 + p4 + p5 + p6 + p7 + p8 + p9 + p10 + p11, p12, k);
    lemma_no_key_concat(p1 + p2 + p3 + p4 + p5 + p6 + p7 + p8 + p9 + p10 + p11 + p12, p13, k);
    let es = service_entries(svc);
    assert(es == p1 + p2 + p3 + p4 + p5 + p6 + p7 + p8 + p9 + p10 + p11 + p12 + p13);
    lemma_dict_find(es, k);
    assert(dict_find(es, k) is None);
}


/// Inserts each network definition in turn.
fn insert_networks_exec(es: &mut Vec<(Value, Value)>, defs: &Vec<(String, Network)>)
    ensures
        yv_entries(final(es)@) == insert_networks(yv_entries(old(es)@), defs@),
{
    let ghost start = yv_entries(es@);
    let mut i: usize = 0;
    assert(defs@.take(0) =~= Seq::<(String, Network)>::empty());
    while i < defs.len()
        invariant
            i <= defs@.len(),
            yv_entries(es@) == insert_networks(start, defs@.take(i as int)),
        decreases defs.len() - i,
    {
        proof {
            assert(defs@.take(i + 1).drop_last() =~= defs@.take(i as int));
            assert(defs@.take(i + 1).last() == defs@[i as int]);
        }
        let v = defs[i].1.to_value();
        insert_key(es, defs[i].0.as_str(), v);
        i = i + 1;
    }
    assert(defs@.take(i as int) =~= defs@);
}

/// Gives each volume an empty definition unless it has one.
fn declare_names_exec(es: &mut Vec<(Value, Value)>, vols: &Vec<(String, crate::compose::Volume)>)
    ensures
        yv_entries(final(es)@) == declare_names(yv_entries(old(es)@), kv_keys(vols@)),
{
    let ghost start = yv_entries(es@);
    let ghost names = kv_keys(vols@);
    let mut i: usize = 0;
    assert(names.take(0) =~= Seq::<Seq<char>>::empty());
    while i < vols.len()
        invariant
            i <= vols@.len(),
            names == kv_keys(vols@),
            yv_entries(es@) == declare_names(start, names.take(i as int)),
        decreases vols.len() - i,
    {
        proof {
            assert(names.take(i + 1).drop_last() =~= names.take(i as int));
            assert(names.take(i + 1).last() == vols@[i as int].0@);
        }
        let empty: Vec<(Value, Value)> = Vec::new();
        assert(yv_entries(empty@) =~= Seq::<(Yaml, Yaml)>::empty());
        or_insert_key(es, vols[i].0.as_str(), Value::Mapping(empty));
        i = i + 1;
    }
    assert(names.take(i as int) =~= names);
}

/// The document with the application's service added.
#[verifier::rlimit(50)]
fn service_added_exec(doc: &Value, spec: &AppSpec, force: bool) -> (r: Result<Value, InvalidInput>)
    ensures
        match r {
            Ok(v) => valid_app(*spec) && exists|svc: Service, frag: Document|
                #![trigger built_service(svc, *spec, add_offset(yv(*doc), *spec), added_container_name(*spec)), built_fragment(frag, *spec)]
                built_service(svc, *spec, add_offset(yv(*doc), *spec), added_container_name(*spec))
                    && built_fragment(frag, *spec) && service_added(yv(*doc), *spec, force, svc, frag)
                    == Some(yv(v)),
            Err(_) => !valid_app(*spec) || forall|svc: Service, frag: Document|
                #![trigger built_service(svc, *spec, add_offset(yv(*doc), *spec), added_container_name(*spec)), built_fragment(frag, *spec)]
                built_service(svc, *spec, add_offset(yv(*doc), *spec), added_container_name(*spec))
                    && built_fragment(frag, *spec) ==> service_added(yv(*doc), *spec, force, svc, frag) is None,
        },
        r matches Err(e) ==> add_refusal(yv(*doc), *spec, force, e.0@),
{
    let top = match untagged(doc) {
        Value::Mapping(t) => t,
        _ => {
            return Err(InvalidInput::new("Compose YAML 必须包含 services 对象"));
        },
    };
    let sv = match get_key(top, "services") {
        Some(v) => v,
        None => {
            return Err(InvalidInput::new("Compose YAML 必须包含 services 对象"));
        },
    };
    let svcs = match untagged(sv) {
        Value::Mapping(x) => x,
        _ => {
            return Err(InvalidInput::new("Compose YAML 必须包含 services 对象"));
        },
    };
    let ghost top0 = yv_entries(top@);
    let ghost sv0 = yv(*sv);
    let ghost svcs0 = yv_entries(svcs@);
    let exists = match find_key(svcs, spec.service.as_str()) {
        Some(_) => true,
        None => false,
    };
    if exists && !force {
        let mut m = String::from_str("服务 ");
        m.append(spec.service.as_str());
        m.append(" 已存在；确认替换请使用 --force");
        return Err(InvalidInput(m));
    }
    let mut rest = copy_entries(svcs);
    if exists {
        remove_key(&mut rest, spec.service.as_str());
    }
    assert(yv_entries(rest@) == remaining_services(svcs0, *spec));
    let offset = project_route_offset_exec(&rest, spec.name.as_str());
    let mut cname = String::from_str("nihility-");
    cname.append(spec.name.as_str());
    cname.append("-");
    cname.append(spec.service.as_str());
    assert(doc_services(yv(*doc)) == Some(svcs0));
    assert(offset == add_offset(yv(*doc), *spec));
    assert(cname@ == added_container_name(*spec));
    let (svc, frag) = build_service(spec, offset, cname.as_str())?;
    let sval = svc.to_value();
    let mut entries = match sval {
        Value::Mapping(x) => x,
        _ => {
            return Err(InvalidInput::new("无法序列化生成的服务"));
        },
    };
    proof {
        lemma_merge_into_service(svc, spec.environment@);
    }
    merge_environment_exec(&mut entries, &spec.environment)?;
    insert_key(&mut rest, spec.service.as_str(), Value::Mapping(entries));
    let mut top2 = copy_entries(top);
    let sv2 = retag_value(sv, Value::Mapping(rest));
    let ghost sv2v = yv(sv2);
    insert_key(&mut top2, "services", sv2);
    proof {
        reveal_strlit("services");
        reveal_strlit("networks");
        reveal_strlit("volumes");
        assert("services"@[0] != "networks"@[0]);
        assert("services"@.len() != "volumes"@.len());
        assert("networks"@.len() != "volumes"@.len());
    }
    let mut nets = match dict_under_exec(&top2, "networks") {
        Some(n) => n,
        None => {
            proof {
                lemma_dict_insert_other(top0, "services"@, sv2v, "networks"@);
                assert forall|svc2: Service, frag2: Document|
                    built_service(svc2, *spec, add_offset(yv(*doc), *spec), added_container_name(*spec))
                        && built_fragment(frag2, *spec) implies service_added(yv(*doc), *spec, force, svc2, frag2) is None by {
                    lemma_merge_into_service(svc2, spec.environment@);
                    let entries2 = with_environment(service_entries(svc2), spec.environment@)->Some_0;
                    let svcs2 = dict_insert(remaining_services(svcs0, *spec), spec.service@, Yaml::Dict(entries2));
                    lemma_dict_insert_other(top0, "services"@, retag(sv0, Yaml::Dict(svcs2)), "networks"@);
                }
            }
            return Err(InvalidInput::new("networks 必须是键值映射"));
        },
    };
    let ghost top2v = yv_entries(top2@);
    proof {
        lemma_dict_insert_other(top0, "services"@, sv2v, "networks"@);
        assert(dict_under(top0, "networks"@) is Some);
    }
    insert_networks_exec(&mut nets, &frag.networks);
    let ghost netsv = yv_entries(nets@);
    set_dict_exec(&mut top2, "networks", nets);
    let mut vols = match dict_under_exec(&top2, "volumes") {
        Some(v) => v,
        None => {
            proof {
                lemma_dict_insert_other(top0, "services"@, sv2v, "volumes"@);
                lemma_dict_insert_other(
                    top2v,
                    "networks"@,
                    match dict_get(top2v, "networks"@) {
                        Some(v) => retag(v, Yaml::Dict(netsv)),
                        None => Yaml::Dict(netsv),
                    },
                    "volumes"@,
                );
                assert forall|svc2: Service, frag2: Document|
                    built_service(svc2, *spec, add_offset(yv(*doc), *spec), added_container_name(*spec))
                        && built_fragment(frag2, *spec) implies service_added(yv(*doc), *spec, force, svc2, frag2) is None by {
                    lemma_merge_into_service(svc2, spec.environment@);
                    let entries2 = with_environment(service_entries(svc2), spec.environment@)->Some_0;
                    let svcs2 = dict_insert(remaining_services(svcs0, *spec), spec.service@, Yaml::Dict(entries2));
                    let t2 = dict_insert(top0, "services"@, retag(sv0, Yaml::Dict(svcs2)));
                    lemma_dict_insert_other(top0, "services"@, retag(sv0, Yaml::Dict(svcs2)), "networks"@);
                    lemma_dict_insert_other(top0, "services"@, retag(sv0, Yaml::Dict(svcs2)), "volumes"@);
                    match dict_under(t2, "networks"@) {
                        Some(n2) => {
                            let v2 = match dict_get(t2, "networks"@) {
                                Some(v) => retag(v, Yaml::Dict(insert_networks(n2, frag2.networks@))),
                                None => Yaml::Dict(insert_networks(n2, frag2.networks@)),
                            };
                            lemma_dict_insert_other(t2, "networks"@, v2, "volumes"@);
                        },
                        None => {},
                    }
                }
            }
            return Err(InvalidInput::new("volumes 必须是键值映射"));
        },
    };
    declare_names_exec(&mut vols, &frag.volumes);
    set_dict_exec(&mut top2, "volumes", vols);
    let out = retag_value(doc, Value::Mapping(top2));
    assert(service_added(yv(*doc), *spec, force, svc, frag) == Some(yv(out)));
    assert(built_service(svc, *spec, add_offset(yv(*doc), *spec), added_container_name(*spec)));
    assert(built_fragment(frag, *spec));
    Ok(out)
}


/// Adds the service of an application specification to an existing Compose document:
/// the service that [`build_service`] makes, numbered after the project's other
/// routes, with the specification's environment merged in and its networks and
/// volumes declared. An existing service of that name is refused unless `force` is
/// set, in which case it is replaced. On an error the document is left unchanged.
pub fn add_service_to_document(document: &mut Value, spec: &AppSpec, force: bool) -> (r: Result<
    (),
    InvalidInput,
>)
    ensures
        match r {
            Ok(()) => valid_app(*spec) && exists|svc: Service, frag: Document|
                #![trigger built_service(svc, *spec, add_offset(yv(*old(document)), *spec), added_container_name(*spec)), built_fragment(frag, *spec)]
                built_service(svc, *spec, add_offset(yv(*old(document)), *spec), added_container_name(*spec))
                    && built_fragment(frag, *spec) && service_added(yv(*old(document)), *spec, force, svc, frag)
                    == Some(yv(*final(document))),
            Err(_) => *final(document) == *old(document) && (!valid_app(*spec) || forall|svc: Service, frag: Document|
                #![trigger built_service(svc, *spec, add_offset(yv(*old(document)), *spec), added_container_name(*spec)), built_fragment(frag, *spec)]
                built_service(svc, *spec, add_offset(yv(*old(document)), *spec), added_container_name(*spec))
                    && built_fragment(frag, *spec) ==> service_added(yv(*old(document)), *spec, force, svc, frag) is None),
        },
        r matches Err(e) ==> add_refusal(yv(*old(document)), *spec, force, e.0@),
{
    let updated = service_added_exec(document, spec, force)?;
    *document = updated;
    Ok(())
}

} // verus!
