//! Compose projects: names, directories, container status and the checks made
//! before a project is deployed.

use crate::config::Config;
use crate::error::{InvalidInput, StackNotFound};
use crate::gen::{join_path, path_join, strs};
use crate::kv::{
    kv_find, kv_get, kv_insert, lemma_kv_find, lemma_kv_find_sorted, sorted_keys, str_lt,
};
use crate::names::{split_all, split_all_exec, valid_stack_name, valid_stack_name_exec};
use crate::text::{chars_eq, chars_of, has_char, has_char_exec, starts_with, str_eq};
use crate::tree::{as_text, str_of, untag, untagged};
use crate::types::GeneratedFile;
use crate::value::{
    Value, Yaml, dict_get, get_key, lemma_yv_entries, lemma_yv_list, yv, yv_entries, yv_list,
};
use vstd::prelude::*;

verus! {

// ---------------------------------------------------------------------------
// Types
// ---------------------------------------------------------------------------

/// A lifecycle operation on a project.
#[derive(Clone, Copy, Debug, PartialEq, Eq, Structural)]
pub enum StackAction {
    /// Start the project.
    Start,
    /// Stop the project.
    Stop,
    /// Restart the project.
    Restart,
    /// Build the project's images.
    Build,
}

/// The run state of a container.
#[derive(Clone, Copy, Debug, PartialEq, Eq, Structural)]
pub enum ContainerState {
    /// Not reported, or not known.
    Unknown,
    /// Created but not running.
    Created,
    /// Running.
    Running,
    /// Paused.
    Paused,
    /// Restarting.
    Restarting,
    /// Being removed.
    Removing,
    /// Exited.
    Exited,
    /// Dead.
    Dead,
}

/// The health check state of a container.
#[derive(Clone, Copy, Debug, PartialEq, Eq, Structural)]
pub enum ContainerHealth {
    /// No health check.
    Unconfigured,
    /// Waiting for the first result.
    Starting,
    /// Passing.
    Healthy,
    /// Failing.
    Unhealthy,
    /// Not known.
    Unknown,
}

/// A container of a project.
pub struct ContainerInfo {
    /// Compose service name.
    pub service: String,
    /// Container name.
    pub name: String,
    /// Run state.
    pub state: ContainerState,
    /// Health state.
    pub health: ContainerHealth,
}

/// A project and its files.
pub struct StackInfo {
    /// Project name.
    pub name: String,
    /// Project directory.
    pub project_directory: String,
    /// Compose file.
    pub compose_file: String,
    /// Environment file.
    pub env_file: String,
    /// Containers of the project.
    pub containers: Vec<ContainerInfo>,
}

/// What is found at a project's directory.
#[derive(Clone, Copy, Debug, PartialEq, Eq, Structural)]
pub enum DirState {
    /// Nothing.
    Missing,
    /// A symbolic link or something other than a directory.
    NotRegular,
    /// A plain directory.
    Regular,
}

/// Why a project cannot be read.
pub enum StackError {
    /// The name is invalid.
    Invalid(InvalidInput),
    /// The project does not exist or lacks its files.
    NotFound(StackNotFound),
    /// The project path is not a plain directory.
    NotRegular,
}

// ---------------------------------------------------------------------------
// Specifications
// ---------------------------------------------------------------------------

/// The run state that Docker reports as `s`.
pub open spec fn state_of(s: Seq<char>) -> ContainerState {
    if s == "created"@ {
        ContainerState::Created
    } else if s == "running"@ {
        ContainerState::Running
    } else if s == "paused"@ {
        ContainerState::Paused
    } else if s == "restarting"@ {
        ContainerState::Restarting
    } else if s == "removing"@ {
        ContainerState::Removing
    } else if s == "exited"@ || s == "stopped"@ {
        ContainerState::Exited
    } else if s == "dead"@ {
        ContainerState::Dead
    } else {
        ContainerState::Unknown
    }
}

/// The health state that Docker reports as `s`.
pub open spec fn health_of(s: Seq<char>) -> ContainerHealth {
    if s.len() == 0 || s == "none"@ {
        ContainerHealth::Unconfigured
    } else if s == "starting"@ {
        ContainerHealth::Starting
    } else if s == "healthy"@ {
        ContainerHealth::Healthy
    } else if s == "unhealthy"@ {
        ContainerHealth::Unhealthy
    } else {
        ContainerHealth::Unknown
    }
}

/// Docker's health words are read apart: `healthy` and only `healthy` reads as
/// healthy, `unhealthy` and only `unhealthy` as unhealthy, `starting` and only
/// `starting` as starting.
pub proof fn law_health_words_distinct(s: Seq<char>)
    ensures
        health_of(s) == ContainerHealth::Healthy <==> s == "healthy"@,
        health_of(s) == ContainerHealth::Unhealthy <==> s == "unhealthy"@,
        health_of(s) == ContainerHealth::Starting <==> s == "starting"@,
        health_of(s) == ContainerHealth::Unconfigured <==> (s.len() == 0 || s == "none"@),
        health_of("unhealthy"@) != health_of("healthy"@),
{
    reveal_strlit("none");
    reveal_strlit("starting");
    reveal_strlit("healthy");
    reveal_strlit("unhealthy");
    assert("healthy"@ != "unhealthy"@);
    assert("healthy"@ != "starting"@) by {
        assert("healthy"@[0] != "starting"@[0]);
    }
    assert("unhealthy"@ != "starting"@) by {
        assert("unhealthy"@[0] != "starting"@[0]);
    }
    assert("none"@ != "healthy"@ && "none"@ != "unhealthy"@ && "none"@ != "starting"@);
}

/// The label of a run state./// The label of a run state.
pub open spec fn state_label(s: ContainerState) -> Seq<char> {
    match s {
        ContainerState::Unknown => "未知"@,
        ContainerState::Created => "已创建"@,
        ContainerState::Running => "运行中"@,
        ContainerState::Paused => "已暂停"@,
        ContainerState::Restarting => "重启中"@,
        ContainerState::Removing => "删除中"@,
        ContainerState::Exited => "已退出"@,
        ContainerState::Dead => "不可恢复"@,
    }
}

/// The label of a health state.
pub open spec fn health_label(h: ContainerHealth) -> Seq<char> {
    match h {
        ContainerHealth::Unconfigured => "未配置"@,
        ContainerHealth::Starting => "检查中"@,
        ContainerHealth::Healthy => "健康"@,
        ContainerHealth::Unhealthy => "不健康"@,
        ContainerHealth::Unknown => "未知"@,
    }
}

/// The model of a container.
pub struct ContainerView {
    /// Service name.
    pub service: Seq<char>,
    /// Container name.
    pub name: Seq<char>,
    /// Run state.
    pub state: ContainerState,
    /// Health state.
    pub health: ContainerHealth,
}

/// The model of a container.
pub open spec fn container_view(c: ContainerInfo) -> ContainerView {
    ContainerView { service: c.service@, name: c.name@, state: c.state, health: c.health }
}

/// The models of some containers.
pub open spec fn containers_view(cs: Seq<ContainerInfo>) -> Seq<ContainerView> {
    cs.map_values(|c: ContainerInfo| container_view(c))
}

/// A field of a JSON object, looked up by its upper-case name and then its
/// lower-case one; empty unless it is a string.
pub open spec fn json_text(v: Yaml, upper: Seq<char>, lower: Seq<char>) -> Seq<char> {
    let got = match v {
        Yaml::Dict(es) => match dict_get(es, upper) {
            Some(x) => Some(x),
            None => dict_get(es, lower),
        },
        _ => None,
    };
    match got {
        Some(Yaml::Text(t)) => t,
        _ => Seq::empty(),
    }
}

/// The container that a status object describes; none without a service name.
pub open spec fn container_of() -> spec_fn(Yaml) -> Option<ContainerView> {
    |v: Yaml|
        if json_text(v, "Service"@, "service"@).len() == 0 {
            None
        } else {
            Some(
                ContainerView {
                    service: json_text(v, "Service"@, "service"@),
                    name: json_text(v, "Name"@, "name"@),
                    state: state_of(json_text(v, "State"@, "state"@)),
                    health: health_of(json_text(v, "Health"@, "health"@)),
                },
            )
        }
}

/// The containers of the status output: a JSON array of objects, a single object,
/// or, when the whole output is not JSON, one object per line.
pub open spec fn status_containers(whole: Option<Yaml>, lines: Seq<Option<Yaml>>) -> Seq<ContainerView> {
    match whole {
        Some(Yaml::List(items)) => items.filter_map(container_of()),
        Some(Yaml::Dict(es)) => seq![Yaml::Dict(es)].filter_map(container_of()),
        Some(_) => Seq::empty(),
        None => lines.filter_map(line_container()),
    }
}

/// The container that one line of the status output describes.
pub open spec fn line_container() -> spec_fn(Option<Yaml>) -> Option<ContainerView> {
    |l: Option<Yaml>|
        match l {
            Some(y) => container_of()(y),
            None => None,
        }
}

/// The model of an optional node.
pub open spec fn opt_yv(o: Option<Value>) -> Option<Yaml> {
    match o {
        Some(v) => Some(yv(v)),
        None => None,
    }
}

/// The models of some optional nodes.
pub open spec fn opt_yvs(s: Seq<Option<Value>>) -> Seq<Option<Yaml>> {
    s.map_values(|o: Option<Value>| opt_yv(o))
}


// ---------------------------------------------------------------------------
// Container status
// ---------------------------------------------------------------------------

impl Default for ContainerState {
    fn default() -> (r: Self)
        ensures
            r == ContainerState::Unknown,
    {
        ContainerState::Unknown
    }
}

impl Default for ContainerHealth {
    fn default() -> (r: Self)
        ensures
            r == ContainerHealth::Unconfigured,
    {
        ContainerHealth::Unconfigured
    }
}

impl ContainerState {
    /// The run state that Docker reports as `value`.
    pub fn from_docker(value: &str) -> (r: ContainerState)
        ensures
            r == state_of(value@),
    {
        if str_eq(value, "created") {
            ContainerState::Created
        } else if str_eq(value, "running") {
            ContainerState::Running
        } else if str_eq(value, "paused") {
            ContainerState::Paused
        } else if str_eq(value, "restarting") {
            ContainerState::Restarting
        } else if str_eq(value, "removing") {
            ContainerState::Removing
        } else if str_eq(value, "exited") || str_eq(value, "stopped") {
            ContainerState::Exited
        } else if str_eq(value, "dead") {
            ContainerState::Dead
        } else {
            ContainerState::Unknown
        }
    }

    /// The label shown for this state.
    pub fn label(self) -> (r: &'static str)
        ensures
            r@ == state_label(self),
    {
        match self {
            ContainerState::Unknown => "未知",
            ContainerState::Created => "已创建",
            ContainerState::Running => "运行中",
            ContainerState::Paused => "已暂停",
            ContainerState::Restarting => "重启中",
            ContainerState::Removing => "删除中",
            ContainerState::Exited => "已退出",
            ContainerState::Dead => "不可恢复",
        }
    }
}

impl ContainerHealth {
    /// The health state that Docker reports as `value`.
    pub fn from_docker(value: &str) -> (r: ContainerHealth)
        ensures
            r == health_of(value@),
    {
        if value.is_empty() || str_eq(value, "none") {
            ContainerHealth::Unconfigured
        } else if str_eq(value, "starting") {
            ContainerHealth::Starting
        } else if str_eq(value, "healthy") {
            ContainerHealth::Healthy
        } else if str_eq(value, "unhealthy") {
            ContainerHealth::Unhealthy
        } else {
            ContainerHealth::Unknown
        }
    }

    /// The label shown for this state.
    pub fn label(self) -> (r: &'static str)
        ensures
            r@ == health_label(self),
    {
        match self {
            ContainerHealth::Unconfigured => "未配置",
            ContainerHealth::Starting => "检查中",
            ContainerHealth::Healthy => "健康",
            ContainerHealth::Unhealthy => "不健康",
            ContainerHealth::Unknown => "未知",
        }
    }
}

/// A field of a JSON object by its upper-case name, then its lower-case one.
fn json_text_exec(v: &Value, upper: &str, lower: &str) -> (r: String)
    ensures
        r@ == json_text(yv(*v), upper@, lower@),
{
    match v {
        Value::Mapping(es) => {
            let got = match get_key(es, upper) {
                Some(x) => Some(x),
                None => get_key(es, lower),
            };
            match got {
                Some(Value::String(t)) => t.clone(),
                _ => String::new(),
            }
        },
        _ => String::new(),
    }
}

/// The container that a status object describes.
fn parse_container(v: &Value) -> (r: Option<ContainerInfo>)
    ensures
        match r {
            Some(c) => container_of()(yv(*v)) == Some(container_view(c)),
            None => container_of()(yv(*v)) is None,
        },
{
    let service = json_text_exec(v, "Service", "service");
    if service.as_str().is_empty() {
        return None;
    }
    let name = json_text_exec(v, "Name", "name");
    let state = json_text_exec(v, "State", "state");
    let health = json_text_exec(v, "Health", "health");
    Some(
        ContainerInfo {
            service,
            name,
            state: ContainerState::from_docker(state.as_str()),
            health: ContainerHealth::from_docker(health.as_str()),
        },
    )
}

/// The containers that `docker compose ps --format json` reports: `whole` is the
/// output read as one JSON value, `lines` each line read as one, none where the
/// text is not JSON.
pub fn parse_container_status(whole: &Option<Value>, lines: &Vec<Option<Value>>) -> (r: Vec<ContainerInfo>)
    ensures
        containers_view(r@) == status_containers(opt_yv(*whole), opt_yvs(lines@)),
{
    let mut out: Vec<ContainerInfo> = Vec::new();
    match whole {
        Some(Value::Sequence(items)) => {
            let ghost ls = yv_list(items@);
            let ghost f = container_of();
            proof {
                lemma_yv_list(items@);
            }
            let mut i: usize = 0;
            while i < items.len()
                invariant
                    i <= items@.len(),
                    ls == yv_list(items@),
                    f == container_of(),
                    ls.len() == items@.len(),
                    forall|m: int| 0 <= m < items@.len() ==> #[trigger] ls[m] == yv(items@[m]),
                    containers_view(out@) == ls.take(i as int).filter_map(f),
                decreases items.len() - i,
            {
                proof {
                    ls.lemma_filter_map_take_succ(f, i as int);
                }
                let ghost before = out@;
                match parse_container(&items[i]) {
                    Some(c) => {
                        let ghost cv = container_view(c);
                        out.push(c);
                        assert(containers_view(out@) =~= containers_view(before).push(cv));
                    },
                    None => {},
                }
                i = i + 1;
            }
            assert(ls.take(i as int) =~= ls);
            out
        },
        Some(Value::Mapping(_)) => {
            let v = whole.as_ref().unwrap();
            let ghost one = seq![yv(*v)];
            proof {
                one.lemma_filter_map_take_succ(container_of(), 0);
                assert(one.take(1) =~= one);
                assert(one.take(0) =~= Seq::<Yaml>::empty());
            }
            match parse_container(v) {
                Some(c) => {
                    let ghost cv = container_view(c);
                    out.push(c);
                    assert(containers_view(out@) =~= seq![cv]);
                },
                None => {},
            }
            out
        },
        Some(_) => out,
        None => {
            let ghost ls = opt_yvs(lines@);
            let ghost f = line_container();
            let mut i: usize = 0;
            while i < lines.len()
                invariant
                    i <= lines@.len(),
                    ls == opt_yvs(lines@),
                    f == line_container(),
                    ls.len() == lines@.len(),
                    containers_view(out@) == ls.take(i as int).filter_map(f),
                decreases lines.len() - i,
            {
                proof {
                    ls.lemma_filter_map_take_succ(f, i as int);
                }
                let ghost before = out@;
                match &lines[i] {
                    Some(v) => {
                        match parse_container(v) {
                            Some(c) => {
                                let ghost cv = container_view(c);
                                out.push(c);
                                assert(containers_view(out@) =~= containers_view(before).push(cv));
                            },
                            None => {},
                        }
                    },
                    None => {},
                }
                i = i + 1;
            }
            assert(ls.take(i as int) =~= ls);
            out
        },
    }
}


// ---------------------------------------------------------------------------
// Names and directories
// ---------------------------------------------------------------------------

/// The message of an invalid project name.
pub open spec fn stack_name_message() -> Seq<char> {
    "项目名必须以小写字母开头，只能包含小写字母、数字、-、_，且不超过 63 个字符"@
}

/// Checks a project name, which keeps paths inside the projects root and meets
/// Docker Compose's naming rules.
pub fn validate_stack_name(name: &str) -> (r: Result<(), InvalidInput>)
    ensures
        r is Ok <==> valid_stack_name(name@),
        r matches Err(e) ==> e.0@ == stack_name_message(),
{
    if valid_stack_name_exec(name) {
        Ok(())
    } else {
        Err(InvalidInput::new("项目名必须以小写字母开头，只能包含小写字母、数字、-、_，且不超过 63 个字符"))
    }
}

/// An entry of the projects root directory, as the daemon finds it.
pub struct ProjectEntry {
    /// The entry's name, when it is valid UTF-8.
    pub name: Option<String>,
    /// Whether the entry is a directory.
    pub is_dir: bool,
    /// Whether the entry is a symbolic link.
    pub is_symlink: bool,
    /// Whether it holds both a Compose file and an environment file.
    pub has_files: bool,
}

/// Whether an entry is a listed project: a real directory with both files, under a
/// valid project name.
pub open spec fn is_listed(e: ProjectEntry) -> bool {
    e.is_dir && !e.is_symlink && e.has_files && (e.name matches Some(n) && valid_stack_name(n@))
}

/// Whether `k` is the name of a listed entry.
pub open spec fn lists_name(entries: Seq<ProjectEntry>, k: Seq<char>) -> bool {
    exists|i: int| 0 <= i < entries.len() && is_listed(#[trigger] entries[i]) && entries[i].name->0@ == k
}

/// The names of the listed projects, sorted, each once.
pub fn project_names(entries: &Vec<ProjectEntry>) -> (r: Vec<String>)
    ensures
        forall|a: int, b: int| 0 <= a < b < r@.len() ==> str_lt(#[trigger] r@[a]@, #[trigger] r@[b]@),
        forall|k: Seq<char>| strs(r@).contains(k) <==> lists_name(entries@, k),
{
    let mut found: Vec<(String, ())> = Vec::new();
    let mut i: usize = 0;
    while i < entries.len()
        invariant
            i <= entries@.len(),
            sorted_keys(found@),
            forall|k: Seq<char>| #[trigger] kv_get(found@, k) is Some <==> lists_name(entries@.take(i as int), k),
        decreases entries.len() - i,
    {
        let e = &entries[i];
        proof {
            assert forall|k: Seq<char>| lists_name(entries@.take(i as int), k) implies lists_name(entries@.take(i + 1), k) by {
                let j = choose|j: int| 0 <= j < i && is_listed(#[trigger] entries@.take(i as int)[j]) && entries@.take(i as int)[j].name->0@ == k;
                assert(entries@.take(i + 1)[j] == entries@.take(i as int)[j]);
            }
        }
        let listed = match &e.name {
            Some(n) => e.is_dir && !e.is_symlink && e.has_files && valid_stack_name_exec(n.as_str()),
            None => false,
        };
        if listed {
            let n = e.name.as_ref().unwrap().clone();
            let ghost key = n@;
            let ghost before = found@;
            kv_insert(&mut found, n, ());
            proof {
                assert(entries@.take(i + 1)[i as int] == entries@[i as int]);
                assert forall|k: Seq<char>| #[trigger] kv_get(found@, k) is Some <==> lists_name(entries@.take(i + 1), k) by {
                    if k == key {
                        assert(is_listed(entries@.take(i + 1)[i as int]));
                    } else {
                        if lists_name(entries@.take(i + 1), k) {
                            let j = choose|j: int| 0 <= j < i + 1 && is_listed(#[trigger] entries@.take(i + 1)[j]) && entries@.take(i + 1)[j].name->0@ == k;
                            assert(j != i);
                            assert(entries@.take(i as int)[j] == entries@.take(i + 1)[j]);
                            assert(kv_get(before, k) is Some);
                        }
                    }
                }
            }
        } else {
            proof {
                assert forall|k: Seq<char>| lists_name(entries@.take(i + 1), k) implies lists_name(entries@.take(i as int), k) by {
                    let j = choose|j: int| 0 <= j < i + 1 && is_listed(#[trigger] entries@.take(i + 1)[j]) && entries@.take(i + 1)[j].name->0@ == k;
                    assert(j != i);
                    assert(entries@.take(i as int)[j] == entries@.take(i + 1)[j]);
                }
            }
        }
        i = i + 1;
    }
    assert(entries@.take(entries@.len() as int) =~= entries@);
    let mut out: Vec<String> = Vec::new();
    let mut j: usize = 0;
    while j < found.len()
        invariant
            j <= found@.len(),
            sorted_keys(found@),
            out@.len() == j,
            forall|x: int| 0 <= x < j ==> (#[trigger] out@[x])@ == found@[x].0@,
        decreases found.len() - j,
    {
        out.push(found[j].0.clone());
        j = j + 1;
    }
    proof {
        assert forall|a: int, b: int| 0 <= a < b < out@.len() implies str_lt(#[trigger] out@[a]@, #[trigger] out@[b]@) by {
            assert(str_lt(found@[a].0@, found@[b].0@));
        }
        assert forall|k: Seq<char>| strs(out@).contains(k) <==> lists_name(entries@, k) by {
            lemma_kv_find(found@, k);
            if strs(out@).contains(k) {
                let x = choose|x: int| 0 <= x < strs(out@).len() && strs(out@)[x] == k;
                lemma_kv_find_sorted(found@, x);
            }
            if lists_name(entries@, k) {
                assert(kv_get(found@, k) is Some);
                let x = kv_find(found@, k)->0;
                assert(strs(out@)[x] == k);
            }
        }
    }
    out
}

/// The directory of a project.
pub fn stack_dir(config: &Config, name: &str) -> (r: Result<String, InvalidInput>)
    ensures
        match r {
            Ok(d) => valid_stack_name(name@) && d@ == path_join(config.paths.apps_root@, name@),
            Err(e) => !valid_stack_name(name@) && e.0@ == stack_name_message(),
        },
{
    validate_stack_name(name)?;
    Ok(join_path(config.paths.apps_root.as_str(), name))
}

/// The Compose file of a project directory.
pub open spec fn compose_file_of(dir: Seq<char>) -> Seq<char> {
    path_join(dir, "compose.yaml"@)
}

/// The environment file of a project directory.
pub open spec fn env_file_of(dir: Seq<char>) -> Seq<char> {
    path_join(dir, ".env"@)
}

/// A project's information, given what was found on disk and the containers that
/// Docker reports: the project must be a plain directory holding its Compose and
/// environment files.
pub fn get_stack(
    config: &Config,
    name: &str,
    dir: DirState,
    compose_present: bool,
    env_present: bool,
    containers: Vec<ContainerInfo>,
) -> (r: Result<StackInfo, StackError>)
    ensures
        match r {
            Ok(info) => {
                &&& valid_stack_name(name@)
                &&& dir == DirState::Regular && compose_present && env_present
                &&& info.name@ == name@
                &&& info.project_directory@ == path_join(config.paths.apps_root@, name@)
                &&& info.compose_file@ == compose_file_of(info.project_directory@)
                &&& info.env_file@ == env_file_of(info.project_directory@)
                &&& info.containers@ == containers@
            },
            Err(StackError::Invalid(e)) => !valid_stack_name(name@) && e.0@ == stack_name_message(),
            Err(StackError::NotFound(n)) => valid_stack_name(name@) && (dir == DirState::Missing || (dir
                == DirState::Regular && !(compose_present && env_present))) && n.0@ == (if dir
                == DirState::Missing {
                "Compose 项目不存在"@
            } else {
                "项目缺少 compose.yaml 或 .env"@
            }),
            Err(StackError::NotRegular) => valid_stack_name(name@) && dir == DirState::NotRegular,
        },
{
    let directory = match stack_dir(config, name) {
        Ok(d) => d,
        Err(e) => {
            return Err(StackError::Invalid(e));
        },
    };
    match dir {
        DirState::Missing => {
            return Err(StackError::NotFound(StackNotFound::new("Compose 项目不存在")));
        },
        DirState::NotRegular => {
            return Err(StackError::NotRegular);
        },
        DirState::Regular => {},
    }
    if !compose_present || !env_present {
        return Err(StackError::NotFound(StackNotFound::new("项目缺少 compose.yaml 或 .env")));
    }
    let compose_file = join_path(directory.as_str(), "compose.yaml");
    let env_file = join_path(directory.as_str(), ".env");
    Ok(
        StackInfo {
            name: String::from_str(name),
            project_directory: directory,
            compose_file,
            env_file,
            containers,
        },
    )
}

// ---------------------------------------------------------------------------
// Deployment checks
// ---------------------------------------------------------------------------

/// What a deployable Compose document is: a mapping whose `services` is a non-empty
/// mapping.
pub open spec fn valid_compose(doc: Option<Yaml>) -> bool {
    match doc {
        Some(d) => match untag(d) {
            Yaml::Dict(top) => match dict_get(top, "services"@) {
                Some(s) => match untag(s) {
                    Yaml::Dict(es) => es.len() > 0,
                    _ => false,
                },
                None => false,
            },
            _ => false,
        },
        None => false,
    }
}

/// Why a Compose document cannot be deployed.
pub open spec fn compose_error(doc: Option<Yaml>) -> Seq<char> {
    match doc {
        Some(d) => match untag(d) {
            Yaml::Dict(top) => match dict_get(top, "services"@) {
                Some(s) => match untag(s) {
                    Yaml::Dict(_) => "Compose YAML 的 services 不能为空"@,
                    _ => "Compose YAML 必须包含 services 对象"@,
                },
                None => "Compose YAML 必须包含 services 对象"@,
            },
            _ => "Compose YAML 顶层必须是对象"@,
        },
        None => "Compose YAML 格式错误"@,
    }
}

/// Checks the basic structure of a Compose document; `None` stands for text that is
/// not YAML.
pub fn validate_compose(doc: &Option<Value>) -> (r: Result<(), InvalidInput>)
    ensures
        r is Ok <==> valid_compose(opt_yv(*doc)),
        r matches Err(e) ==> e.0@ == compose_error(opt_yv(*doc)),
{
    let d = match doc {
        Some(d) => d,
        None => {
            return Err(InvalidInput::new("Compose YAML 格式错误"));
        },
    };
    let top = match untagged(d) {
        Value::Mapping(t) => t,
        _ => {
            return Err(InvalidInput::new("Compose YAML 顶层必须是对象"));
        },
    };
    let services = match get_key(top, "services") {
        Some(s) => match untagged(s) {
            Value::Mapping(es) => es,
            _ => {
                return Err(InvalidInput::new("Compose YAML 必须包含 services 对象"));
            },
        },
        None => {
            return Err(InvalidInput::new("Compose YAML 必须包含 services 对象"));
        },
    };
    proof {
        lemma_yv_entries(services@);
    }
    if services.len() == 0 {
        return Err(InvalidInput::new("Compose YAML 的 services 不能为空"));
    }
    Ok(())
}

/// Checks a deployment: a valid project name, a valid Compose document and an
/// environment file without NUL.
pub fn validate_deployment(name: &str, compose: &Option<Value>, env_file: &str) -> (r: Result<(), InvalidInput>)
    ensures
        r is Ok <==> valid_stack_name(name@) && valid_compose(opt_yv(*compose)) && !has_char(env_file@, '\0'),
        r matches Err(e) ==> e.0@ == (if !valid_stack_name(name@) {
            stack_name_message()
        } else if !valid_compose(opt_yv(*compose)) {
            compose_error(opt_yv(*compose))
        } else {
            "环境变量文件不能包含空字符"@
        }),
{
    validate_stack_name(name)?;
    validate_compose(compose)?;
    let cs = chars_of(env_file);
    if has_char_exec(&cs, '\0') {
        return Err(InvalidInput::new("环境变量文件不能包含空字符"));
    }
    Ok(())
}

/// Where a generated project is deployed: its directory, refused when the project
/// exists and `force` is not set. The caller deploys the document and writes the
/// project's files there.
pub fn deploy_generated_stack(config: &Config, name: &str, exists: bool, force: bool) -> (r: Result<String, InvalidInput>)
    ensures
        match r {
            Ok(d) => valid_stack_name(name@) && !(exists && !force) && d@ == path_join(config.paths.apps_root@, name@),
            Err(e) => (!valid_stack_name(name@) || (exists && !force)) && e.0@ == (if !valid_stack_name(name@) {
                stack_name_message()
            } else {
                "项目 "@ + name@ + " 已存在；确认覆盖请使用 --force"@
            }),
        },
{
    let directory = stack_dir(config, name)?;
    if exists && !force {
        let mut m = String::from_str("项目 ");
        m.append(name);
        m.append(" 已存在；确认覆盖请使用 --force");
        return Err(InvalidInput(m));
    }
    Ok(directory)
}

/// The error of a generated file path that could leave the project directory.
fn unsafe_path(file: &GeneratedFile) -> (e: InvalidInput)
    ensures
        e.0@ == "附属文件路径不安全: "@ + file.path@,
{
    let mut m = String::from_str("附属文件路径不安全: ");
    m.append(file.path.as_str());
    InvalidInput(m)
}

/// A relative path whose components are all plain names: not empty, not absolute,
/// not starting with `.` and without `..`.
pub open spec fn safe_relative_path(p: Seq<char>) -> bool {
    &&& p.len() > 0
    &&& !starts_with(p, "/"@)
    &&& split_all(p, '/')[0] != "."@
    &&& forall|i: int| 0 <= i < split_all(p, '/').len() ==> #[trigger] split_all(p, '/')[i] != ".."@
}

/// Where a generated file goes inside the project directory; paths that could leave
/// it are refused.
pub fn generated_file_path(directory: &str, file: &GeneratedFile) -> (r: Result<String, InvalidInput>)
    ensures
        match r {
            Ok(d) => safe_relative_path(file.path@) && d@ == path_join(directory@, file.path@),
            Err(e) => !safe_relative_path(file.path@) && e.0@ == "附属文件路径不安全: "@ + file.path@,
        },
{
    let cs = chars_of(file.path.as_str());
    let slash = chars_of("/");
    if cs.len() == 0 || crate::text::starts_with_exec(&cs, &slash) {
        return Err(unsafe_path(file));
    }
    let segs = split_all_exec(&cs, '/');
    let dot = chars_of(".");
    let dotdot = chars_of("..");
    proof {
        crate::names::lemma_split_all_len(cs@, '/');
    }
    if chars_eq(&segs[0], &dot) {
        return Err(unsafe_path(file));
    }
    let mut i: usize = 0;
    while i < segs.len()
        invariant
            i <= segs@.len(),
            segs@.len() == split_all(file.path@, '/').len(),
            forall|m: int| 0 <= m < segs@.len() ==> (#[trigger] segs@[m])@ == split_all(file.path@, '/')[m],
            dotdot@ == ".."@,
            forall|m: int| 0 <= m < i ==> #[trigger] split_all(file.path@, '/')[m] != ".."@,
        decreases segs.len() - i,
    {
        if chars_eq(&segs[i], &dotdot) {
            return Err(unsafe_path(file));
        }
        i = i + 1;
    }
    Ok(join_path(directory, file.path.as_str()))
}


// ---------------------------------------------------------------------------
// Host and port conflicts
// ---------------------------------------------------------------------------

/// The list under `field` of a service node, looking through tags; empty when absent
/// or not a list.
pub open spec fn node_list(v: Yaml, field: Seq<char>) -> Seq<Yaml> {
    match untag(v) {
        Yaml::Dict(es) => match dict_get(es, field) {
            Some(l) => match untag(l) {
                Yaml::List(items) => items,
                _ => Seq::empty(),
            },
            None => Seq::empty(),
        },
        _ => Seq::empty(),
    }
}

/// The service entries of a document; empty unless it has a services mapping.
pub open spec fn doc_service_nodes(doc: Yaml) -> Seq<(Yaml, Yaml)> {
    match untag(doc) {
        Yaml::Dict(top) => match dict_get(top, "services"@) {
            Some(sv) => match untag(sv) {
                Yaml::Dict(es) => es,
                _ => Seq::empty(),
            },
            None => Seq::empty(),
        },
        _ => Seq::empty(),
    }
}

/// The string of a node.
pub open spec fn text_of() -> spec_fn(Yaml) -> Option<Seq<char>> {
    |y: Yaml| str_of(y)
}

/// The strings in the lists under `field` of all services, in order.
pub open spec fn service_strings(svcs: Seq<(Yaml, Yaml)>, field: Seq<char>) -> Seq<Seq<char>>
    decreases svcs.len(),
{
    if svcs.len() == 0 {
        Seq::empty()
    } else {
        service_strings(svcs.drop_last(), field) + node_list(svcs.last().1, field).filter_map(text_of())
    }
}

/// The host of the first ``Host(`...`)`` in a label.
pub open spec fn label_host() -> spec_fn(Seq<char>) -> Option<Seq<char>> {
    |t: Seq<char>|
        match crate::text::find_sub(t, "Host(`"@) {
            Some(i) => {
                let rest = t.skip(i + "Host(`"@.len());
                match crate::text::find_sub(rest, "`)"@) {
                    Some(e) => Some(rest.take(e)),
                    None => None,
                }
            },
            None => None,
        }
}

/// The host port and protocol of a port mapping: the part before the first `:` of
/// what precedes the last `/`, UDP when the suffix is `udp`.
pub open spec fn mapping_port() -> spec_fn(Seq<char>) -> Option<(nat, crate::types::PortProtocol)> {
    |m: Seq<char>|
        {
            let (mapping, proto) = match crate::names::rfind_char(m, '/') {
                Some(i) => (
                    m.take(i),
                    if m.skip(i + 1) == "udp"@ {
                        crate::types::PortProtocol::Udp
                    } else {
                        crate::types::PortProtocol::Tcp
                    },
                ),
                None => (m, crate::types::PortProtocol::Tcp),
            };
            match crate::text::parse_bounded(crate::text::before_char(mapping, ':'), 65535) {
                Some(p) => Some((p, proto)),
                None => None,
            }
        }
}

/// The container part of a port mapping: what follows the first `:` of the text
/// before the last `/`; empty without a `:`.
pub open spec fn mapping_container(m: Seq<char>) -> Seq<char> {
    let mapping = match crate::names::rfind_char(m, '/') {
        Some(i) => m.take(i),
        None => m,
    };
    match crate::text::find_char(mapping, ':') {
        Some(i) => mapping.skip(i + 1),
        None => Seq::empty(),
    }
}

/// The mapping `HOST:CONTAINER`, with `/SUFFIX` when a suffix is given.
pub open spec fn mapping_text(h: nat, c: Seq<char>, suffix: Option<Seq<char>>) -> Seq<char> {
    crate::text::decimal(h) + ":"@ + c + match suffix {
        Some(x) => "/"@ + x,
        None => Seq::empty(),
    }
}

/// A mapping written from a host port, a container part and an optional protocol
/// suffix reads back as that host port, that container part and UDP exactly when
/// the suffix is `udp`.
pub proof fn lemma_mapping_reads(h: nat, c: Seq<char>, suffix: Option<Seq<char>>)
    requires
        h <= 65535,
        forall|j: int| 0 <= j < c.len() ==> c[j] != '/',
        suffix matches Some(x) ==> forall|j: int| 0 <= j < x.len() ==> x[j] != '/',
    ensures
        mapping_port()(mapping_text(h, c, suffix)) == Some(
            (
                h,
                if suffix == Some("udp"@) {
                    crate::types::PortProtocol::Udp
                } else {
                    crate::types::PortProtocol::Tcp
                },
            ),
        ),
        mapping_container(mapping_text(h, c, suffix)) == c,
{
    reveal_strlit(":");
    reveal_strlit("/");
    crate::text::lemma_decimal_digits(h);
    let d = crate::text::decimal(h);
    let head = d + ":"@ + c;
    let m = mapping_text(h, c, suffix);
    assert(forall|j: int| 0 <= j < d.len() ==> crate::text::is_digit(#[trigger] d[j]));
    assert forall|j: int| 0 <= j < head.len() implies #[trigger] head[j] != '/' by {
        if j < d.len() {
            assert(head[j] == d[j]);
            assert(crate::text::is_digit(d[j]));
        } else if j > d.len() {
            assert(head[j] == c[j - d.len() - 1]);
        }
    }
    crate::names::lemma_rfind_char(m, '/');
    match suffix {
        Some(x) => {
            let k = head.len() as int;
            assert(m =~= head + ("/"@ + x));
            assert(m[k] == '/');
            assert forall|j: int| k < j < m.len() implies m[j] != '/' by {
                assert(m[j] == x[j - k - 1]);
            }
            let r = crate::names::rfind_char(m, '/')->Some_0;
            if r < k {
                assert(m[k] == '/');
            }
            assert(r == k);
            assert(m.take(k) =~= head);
            assert(m.skip(k + 1) =~= x);
        },
        None => {
            assert(m =~= head);
            assert(crate::names::rfind_char(m, '/') is None) by {
                if crate::names::rfind_char(m, '/') is Some {
                    let r = crate::names::rfind_char(m, '/')->Some_0;
                    assert(m[r] == head[r]);
                }
            }
        },
    }
    crate::text::lemma_find_char(head, ':');
    let n = d.len() as int;
    assert(head[n] == ':');
    assert forall|j: int| 0 <= j < n implies head[j] != ':' by {
        assert(head[j] == d[j]);
        assert(crate::text::is_digit(d[j]));
    }
    let f = crate::text::find_char(head, ':')->Some_0;
    if f > n {
        assert(head[n] == ':');
    }
    assert(f == n);
    assert(head.take(n) =~= d);
    assert(head.skip(n + 1) =~= c);
    assert(crate::text::before_char(head, ':') == d);
    crate::text::law_decimal_parse_round_trip(h, 65535);
}

/// A port mapping that the generator writes reads back, in the conflict scan, as
/// the host port and protocol it was written from.
pub proof fn law_generated_mapping_reads_back(p: crate::types::PublishedPort)
    ensures
        mapping_port()(crate::gen::port_text(p)) == Some((p.host_port as nat, p.protocol)),
{
    reveal_strlit("tcp");
    reveal_strlit("udp");
    let c = crate::text::decimal(p.container_port as nat);
    let x = crate::types::protocol_suffix(p.protocol);
    crate::text::lemma_decimal_digits(p.container_port as nat);
    assert forall|j: int| 0 <= j < c.len() implies c[j] != '/' by {
        assert(crate::text::is_digit(c[j]));
    }
    assert(forall|j: int| 0 <= j < x.len() ==> x[j] != '/');
    lemma_mapping_reads(p.host_port as nat, c, Some(x));
    assert(mapping_text(p.host_port as nat, c, Some(x)) =~= crate::gen::port_text(p));
    assert("tcp"@ != "udp"@) by {
        assert("tcp"@[0] != "udp"@[0]);
    }
    match p.protocol {
        crate::types::PortProtocol::Tcp => assert(Some(x) != Some("udp"@)),
        crate::types::PortProtocol::Udp => {},
    }
}

/// The hosts that a document's services route.
pub open spec fn existing_hosts(doc: Yaml) -> Seq<Seq<char>> {
    service_strings(doc_service_nodes(doc), "labels"@).filter_map(label_host())
}

/// The host ports that a document's services publish.
pub open spec fn existing_ports(doc: Yaml) -> Seq<(nat, crate::types::PortProtocol)> {
    service_strings(doc_service_nodes(doc), "ports"@).filter_map(mapping_port())
}

/// Whether two routes share a host.
pub open spec fn duplicate_hosts(routes: Seq<crate::types::Route>) -> bool {
    exists|i: int, j: int| 0 <= i < j < routes.len() && (#[trigger] routes[i]).host@ == (#[trigger] routes[j]).host@
}

/// Whether two port mappings share a host port and protocol.
pub open spec fn duplicate_ports(ports: Seq<crate::types::PublishedPort>) -> bool {
    exists|i: int, j: int|
        0 <= i < j < ports.len() && (#[trigger] ports[i]).host_port == (#[trigger] ports[j]).host_port
            && ports[i].protocol == ports[j].protocol
}

/// Whether a document routes one of the hosts or publishes one of the ports.
pub open spec fn conflicts_with(doc: Yaml, routes: Seq<crate::types::Route>, ports: Seq<crate::types::PublishedPort>) -> bool {
    ||| exists|i: int, j: int|
        0 <= i < existing_hosts(doc).len() && 0 <= j < routes.len() && #[trigger] existing_hosts(doc)[i]
            == (#[trigger] routes[j]).host@
    ||| exists|i: int, j: int|
        0 <= i < existing_ports(doc).len() && 0 <= j < ports.len() && #[trigger] existing_ports(doc)[i]
            == ((#[trigger] ports[j]).host_port as nat, ports[j].protocol)
}

/// Whether another project's document conflicts.
pub open spec fn has_conflict(
    project: Seq<char>,
    routes: Seq<crate::types::Route>,
    ports: Seq<crate::types::PublishedPort>,
    others: Seq<(String, Option<Value>)>,
) -> bool {
    exists|k: int|
        0 <= k < others.len() && (#[trigger] others[k]).0@ != project && (others[k].1 matches Some(d)
            && conflicts_with(yv(d), routes, ports))
}

/// The list under `field` of a service node.
fn node_list_exec(v: &Value, field: &str) -> (r: Vec<Value>)
    ensures
        yv_list(r@) == node_list(yv(*v), field@),
{
    match untagged(v) {
        Value::Mapping(es) => match get_key(es, field) {
            Some(l) => match untagged(l) {
                Value::Sequence(items) => crate::tree::copy_list(items),
                _ => Vec::new(),
            },
            None => Vec::new(),
        },
        _ => Vec::new(),
    }
}

/// The strings in the lists under `field` of all services of a document.
fn service_strings_exec(doc: &Value, field: &str) -> (r: Vec<String>)
    ensures
        crate::gen::strs(r@) == service_strings(doc_service_nodes(yv(*doc)), field@),
{
    let mut out: Vec<String> = Vec::new();
    let empty: Vec<(Value, Value)> = Vec::new();
    let svcs: &Vec<(Value, Value)> = match untagged(doc) {
        Value::Mapping(top) => match get_key(top, "services") {
            Some(sv) => match untagged(sv) {
                Value::Mapping(es) => es,
                _ => &empty,
            },
            None => &empty,
        },
        _ => &empty,
    };
    assert(yv_entries(empty@) =~= Seq::<(Yaml, Yaml)>::empty());
    let ghost ss = yv_entries(svcs@);
    assert(ss == doc_service_nodes(yv(*doc)));
    proof {
        lemma_yv_entries(svcs@);
    }
    let ghost f = text_of();
    let mut i: usize = 0;
    assert(service_strings(ss.take(0), field@) =~= Seq::<Seq<char>>::empty());
    while i < svcs.len()
        invariant
            i <= svcs@.len(),
            ss == yv_entries(svcs@),
            f == text_of(),
            ss.len() == svcs@.len(),
            forall|m: int| 0 <= m < svcs@.len() ==> #[trigger] ss[m] == (yv(svcs@[m].0), yv(svcs@[m].1)),
            crate::gen::strs(out@) == service_strings(ss.take(i as int), field@),
        decreases svcs.len() - i,
    {
        let items = node_list_exec(&svcs[i].1, field);
        let ghost ls = yv_list(items@);
        let ghost done = service_strings(ss.take(i as int), field@);
        proof {
            lemma_yv_list(items@);
            assert(ss.take(i + 1).drop_last() =~= ss.take(i as int));
            assert(ss.take(i + 1).last() == ss[i as int]);
            assert(service_strings(ss.take(i + 1), field@) == done + ls.filter_map(f));
            assert(done + ls.take(0).filter_map(f) =~= done);
        }
        let mut j: usize = 0;
        while j < items.len()
            invariant
                j <= items@.len(),
                ls == yv_list(items@),
                f == text_of(),
                ls.len() == items@.len(),
                forall|m: int| 0 <= m < items@.len() ==> #[trigger] ls[m] == yv(items@[m]),
                crate::gen::strs(out@) == done + ls.take(j as int).filter_map(f),
            decreases items.len() - j,
        {
            proof {
                ls.lemma_filter_map_take_succ(f, j as int);
            }
            let ghost before = out@;
            match as_text(&items[j]) {
                Some(t) => {
                    let c = t.clone();
                    out.push(c);
                    assert(crate::gen::strs(out@) =~= crate::gen::strs(before).push(c@));
                    assert(done + ls.take(j + 1).filter_map(f) =~= (done + ls.take(j as int).filter_map(f)).push(c@));
                },
                None => {
                    assert(done + ls.take(j + 1).filter_map(f) =~= done + ls.take(j as int).filter_map(f));
                },
            }
            j = j + 1;
        }
        assert(ls.take(j as int) =~= ls);
        i = i + 1;
    }
    assert(ss.take(i as int) =~= ss);
    out
}


/// The host of the first ``Host(`...`)`` in a label.
fn label_host_exec(t: &[char]) -> (r: Option<Vec<char>>)
    ensures
        match r {
            Some(h) => label_host()(t@) == Some(h@),
            None => label_host()(t@) is None,
        },
{
    let open = chars_of("Host(`");
    proof {
        crate::text::lemma_find_sub(t@, open@);
    }
    match crate::text::find_sub_exec(t, &open) {
        Some(i) => {
            assert(crate::text::occurs_at(t@, open@, i as int));
            let n = t.len();
            assert(i + open.len() <= n);
            let rest = crate::text::sub_chars(t, i + open.len(), t.len());
            assert(rest@ =~= t@.skip(i + open@.len()));
            let close = chars_of("`)");
            proof {
                crate::text::lemma_find_sub(rest@, close@);
            }
            match crate::text::find_sub_exec(&rest, &close) {
                Some(e) => {
                    let h = crate::text::sub_chars(&rest, 0, e);
                    assert(h@ =~= rest@.take(e as int));
                    Some(h)
                },
                None => None,
            }
        },
        None => None,
    }
}

/// The host port and protocol of a port mapping.
fn mapping_port_exec(m: &[char]) -> (r: Option<(u16, crate::types::PortProtocol)>)
    ensures
        match r {
            Some((p, proto)) => mapping_port()(m@) == Some((p as nat, proto)),
            None => mapping_port()(m@) is None,
        },
{
    proof {
        crate::names::lemma_rfind_char(m@, '/');
    }
    let (mapping, proto) = match crate::names::rfind_char_exec(m, '/') {
        Some(i) => {
            let head = crate::text::sub_chars(m, 0, i);
            assert(head@ =~= m@.take(i as int));
            let tail = crate::text::sub_chars(m, i + 1, m.len());
            assert(tail@ =~= m@.skip(i + 1));
            let udp = chars_of("udp");
            let proto = if chars_eq(&tail, &udp) {
                crate::types::PortProtocol::Udp
            } else {
                crate::types::PortProtocol::Tcp
            };
            (head, proto)
        },
        None => (crate::text::sub_chars(m, 0, m.len()), crate::types::PortProtocol::Tcp),
    };
    assert(m@.subrange(0, m@.len() as int) =~= m@);
    let first = crate::text::before_char_exec(&mapping, ':');
    match crate::text::parse_bounded_exec(&first, 65535) {
        Some(p) => Some((p as u16, proto)),
        None => None,
    }
}

/// The hosts that a document's services route.
pub fn existing_hosts_exec(doc: &Value) -> (r: Vec<String>)
    ensures
        crate::gen::strs(r@) == existing_hosts(yv(*doc)),
{
    let labels = service_strings_exec(doc, "labels");
    let ghost ls = crate::gen::strs(labels@);
    let ghost f = label_host();
    let mut out: Vec<String> = Vec::new();
    let mut i: usize = 0;
    while i < labels.len()
        invariant
            i <= labels@.len(),
            ls == crate::gen::strs(labels@),
            ls.len() == labels@.len(),
            f == label_host(),
            crate::gen::strs(out@) == ls.take(i as int).filter_map(f),
        decreases labels.len() - i,
    {
        proof {
            ls.lemma_filter_map_take_succ(f, i as int);
        }
        let cs = chars_of(labels[i].as_str());
        let ghost before = out@;
        match label_host_exec(&cs) {
            Some(h) => {
                let hs = crate::text::string_of(&h);
                out.push(hs);
                assert(crate::gen::strs(out@) =~= crate::gen::strs(before).push(hs@));
            },
            None => {},
        }
        i = i + 1;
    }
    assert(ls.take(i as int) =~= ls);
    out
}

/// The models of some host ports.
pub open spec fn ports_view(v: Seq<(u16, crate::types::PortProtocol)>) -> Seq<(nat, crate::types::PortProtocol)> {
    v.map_values(|e: (u16, crate::types::PortProtocol)| (e.0 as nat, e.1))
}

/// The host ports that a document's services publish.
pub fn existing_ports_exec(doc: &Value) -> (r: Vec<(u16, crate::types::PortProtocol)>)
    ensures
        ports_view(r@) == existing_ports(yv(*doc)),
{
    let mappings = service_strings_exec(doc, "ports");
    let ghost ls = crate::gen::strs(mappings@);
    let ghost f = mapping_port();
    let mut out: Vec<(u16, crate::types::PortProtocol)> = Vec::new();
    let mut i: usize = 0;
    while i < mappings.len()
        invariant
            i <= mappings@.len(),
            ls == crate::gen::strs(mappings@),
            ls.len() == mappings@.len(),
            f == mapping_port(),
            ports_view(out@) == ls.take(i as int).filter_map(f),
        decreases mappings.len() - i,
    {
        proof {
            ls.lemma_filter_map_take_succ(f, i as int);
        }
        let cs = chars_of(mappings[i].as_str());
        let ghost before = out@;
        match mapping_port_exec(&cs) {
            Some(x) => {
                out.push(x);
                assert(ports_view(out@) =~= ports_view(before).push((x.0 as nat, x.1)));
            },
            None => {},
        }
        i = i + 1;
    }
    assert(ls.take(i as int) =~= ls);
    out
}

/// Whether the document conflicts with the requested hosts and ports.
fn conflicts_with_exec(doc: &Value, routes: &Vec<crate::types::Route>, ports: &Vec<crate::types::PublishedPort>) -> (r: bool)
    ensures
        r == conflicts_with(yv(*doc), routes@, ports@),
{
    let hosts = existing_hosts_exec(doc);
    let ghost hs = existing_hosts(yv(*doc));
    let mut i: usize = 0;
    while i < hosts.len()
        invariant
            i <= hosts@.len(),
            crate::gen::strs(hosts@) == hs,
            hs == existing_hosts(yv(*doc)),
            forall|a: int, b: int| 0 <= a < i && 0 <= b < routes@.len() ==> #[trigger] hs[a] != (#[trigger] routes@[b]).host@,
        decreases hosts.len() - i,
    {
        assert(hs[i as int] == hosts@[i as int]@);
        assert(hs.len() == hosts@.len());
        let mut j: usize = 0;
        while j < routes.len()
            invariant
                i < hosts@.len(),
                j <= routes@.len(),
                crate::gen::strs(hosts@) == hs,
                hs == existing_hosts(yv(*doc)),
                hs.len() == hosts@.len(),
                hs[i as int] == hosts@[i as int]@,
                forall|b: int| 0 <= b < j ==> hs[i as int] != (#[trigger] routes@[b]).host@,
            decreases routes.len() - j,
        {
            if str_eq(hosts[i].as_str(), routes[j].host.as_str()) {
                assert(existing_hosts(yv(*doc))[i as int] == routes@[j as int].host@);
                return true;
            }
            j = j + 1;
        }
        i = i + 1;
    }
    let existing = existing_ports_exec(doc);
    let ghost ps = existing_ports(yv(*doc));
    let mut i: usize = 0;
    while i < existing.len()
        invariant
            i <= existing@.len(),
            ports_view(existing@) == ps,
            ps == existing_ports(yv(*doc)),
            forall|a: int, b: int| 0 <= a < hs.len() && 0 <= b < routes@.len() ==> #[trigger] hs[a] != (#[trigger] routes@[b]).host@,
            forall|a: int, b: int|
                0 <= a < i && 0 <= b < ports@.len() ==> #[trigger] ps[a] != ((#[trigger] ports@[b]).host_port as nat, ports@[b].protocol),
        decreases existing.len() - i,
    {
        assert(ps[i as int] == (existing@[i as int].0 as nat, existing@[i as int].1));
        assert(ps.len() == existing@.len());
        let mut j: usize = 0;
        while j < ports.len()
            invariant
                i < existing@.len(),
                j <= ports@.len(),
                ps == existing_ports(yv(*doc)),
                ps.len() == existing@.len(),
                ps[i as int] == (existing@[i as int].0 as nat, existing@[i as int].1),
                forall|b: int| 0 <= b < j ==> ps[i as int] != ((#[trigger] ports@[b]).host_port as nat, ports@[b].protocol),
            decreases ports.len() - j,
        {
            if existing[i].0 == ports[j].host_port && existing[i].1 == ports[j].protocol {
                assert(existing_ports(yv(*doc))[i as int] == (ports@[j as int].host_port as nat, ports@[j as int].protocol));
                return true;
            }
            j = j + 1;
        }
        i = i + 1;
    }
    false
}

/// Checks that the requested hosts and host ports are neither repeated nor used by
/// another project; `others` holds each other project directory's name and its
/// Compose document, `None` where it could not be read.
pub fn ensure_no_conflicts(
    project: &str,
    routes: &Vec<crate::types::Route>,
    ports: &Vec<crate::types::PublishedPort>,
    others: &Vec<(String, Option<Value>)>,
) -> (r: Result<(), InvalidInput>)
    ensures
        r is Err <==> duplicate_hosts(routes@) || duplicate_ports(ports@) || has_conflict(
            project@,
            routes@,
            ports@,
            others@,
        ),
        r matches Err(e) ==> e.0@ == (if duplicate_hosts(routes@) {
            "同一应用不能重复声明域名"@
        } else if duplicate_ports(ports@) {
            "同一应用不能重复发布宿主机端口"@
        } else {
            "域名或宿主机端口已被其他项目使用"@
        }),
{
    let mut i: usize = 0;
    while i < routes.len()
        invariant
            i <= routes@.len(),
            forall|a: int, b: int| 0 <= a < b < i ==> (#[trigger] routes@[a]).host@ != (#[trigger] routes@[b]).host@,
        decreases routes.len() - i,
    {
        let mut j: usize = 0;
        while j < i
            invariant
                i < routes@.len(),
                j <= i,
                forall|a: int| 0 <= a < j ==> (#[trigger] routes@[a]).host@ != routes@[i as int].host@,
            decreases i - j,
        {
            if str_eq(routes[j].host.as_str(), routes[i].host.as_str()) {
                return Err(InvalidInput::new("同一应用不能重复声明域名"));
            }
            j = j + 1;
        }
        i = i + 1;
    }
    let mut i: usize = 0;
    while i < ports.len()
        invariant
            i <= ports@.len(),
            !duplicate_hosts(routes@),
            forall|a: int, b: int|
                0 <= a < b < i ==> !((#[trigger] ports@[a]).host_port == (#[trigger] ports@[b]).host_port
                    && ports@[a].protocol == ports@[b].protocol),
        decreases ports.len() - i,
    {
        let mut j: usize = 0;
        while j < i
            invariant
                i < ports@.len(),
                j <= i,
                !duplicate_hosts(routes@),
                forall|a: int|
                    0 <= a < j ==> !((#[trigger] ports@[a]).host_port == ports@[i as int].host_port
                        && ports@[a].protocol == ports@[i as int].protocol),
            decreases i - j,
        {
            if ports[j].host_port == ports[i].host_port && ports[j].protocol == ports[i].protocol {
                return Err(InvalidInput::new("同一应用不能重复发布宿主机端口"));
            }
            j = j + 1;
        }
        i = i + 1;
    }
    let mut k: usize = 0;
    while k < others.len()
        invariant
            k <= others@.len(),
            !duplicate_hosts(routes@),
            !duplicate_ports(ports@),
            forall|m: int|
                0 <= m < k ==> !((#[trigger] others@[m]).0@ != project@ && (others@[m].1 matches Some(d)
                    && conflicts_with(yv(d), routes@, ports@))),
        decreases others.len() - k,
    {
        if !str_eq(others[k].0.as_str(), project) {
            match &others[k].1 {
                Some(d) => {
                    if conflicts_with_exec(d, routes, ports) {
                        return Err(InvalidInput::new("域名或宿主机端口已被其他项目使用"));
                    }
                },
                None => {},
            }
        }
        k = k + 1;
    }
    Ok(())
}

} // verus!
