//! Docker Compose invocations, their pull progress and their failure details.

use crate::config::path_parts;
use crate::gen::{join_path, path_join, strs};
use crate::text::{
    chars_eq, chars_of, decimal, decimal_string, is_blank, is_blank_exec, string_of, trim,
    trim_chars,
};
use crate::value::{Number, Value, Yaml, dict_get, get_key, yv};
use vstd::prelude::*;

verus! {

// ---------------------------------------------------------------------------
// Invocations
// ---------------------------------------------------------------------------

/// A `docker` invocation: the directory it runs in and its arguments.
pub struct ComposeCommand {
    /// Working directory.
    pub current_dir: String,
    /// Arguments after `docker`.
    pub args: Vec<String>,
}

/// What exists of a project on disk.
#[derive(Clone, Copy)]
pub struct ProjectFiles {
    /// Whether the project directory exists.
    pub directory: bool,
    /// Whether its Compose file exists.
    pub compose_file: bool,
    /// Whether its environment file exists.
    pub env_file: bool,
}

/// Why a Compose invocation cannot be made.
#[derive(Clone, Copy, Debug, PartialEq, Eq, Structural)]
pub enum ComposeError {
    /// The project directory does not exist.
    MissingDirectory,
    /// The Compose file does not exist.
    MissingComposeFile,
    /// The environment file does not exist.
    MissingEnvFile,
    /// The directory has no final name to use as the project name.
    NoProjectName,
}

/// The final name of a path, as `Path::file_name` gives it: none for a path that
/// ends in `..` or has no normal component.
pub open spec fn file_name(p: Seq<char>) -> Option<Seq<char>> {
    let parts = path_parts(p);
    if parts.len() == 0 || parts.last() == ".."@ {
        None
    } else {
        Some(parts.last())
    }
}

/// The arguments that select a project explicitly, so that the invocation does not
/// depend on the current directory.
pub open spec fn project_args(dir: Seq<char>, name: Seq<char>) -> Seq<Seq<char>> {
    seq![
        "compose"@,
        "--project-directory"@,
        dir,
        "--env-file"@,
        path_join(dir, ".env"@),
        "--file"@,
        path_join(dir, "compose.yaml"@),
        "--project-name"@,
        name,
    ]
}

/// The invocation of a Compose subcommand, or why there is none.
pub open spec fn invocation(dir: Seq<char>, files: ProjectFiles, sub: Seq<Seq<char>>) -> Result<Seq<Seq<char>>, ComposeError> {
    if !files.directory {
        Err(ComposeError::MissingDirectory)
    } else if !files.compose_file {
        Err(ComposeError::MissingComposeFile)
    } else if !files.env_file {
        Err(ComposeError::MissingEnvFile)
    } else {
        match file_name(dir) {
            Some(name) => Ok(project_args(dir, name) + sub),
            None => Err(ComposeError::NoProjectName),
        }
    }
}

/// Whether `r` is the invocation of `sub` in `dir`.
pub open spec fn is_invocation(
    r: Result<ComposeCommand, ComposeError>,
    dir: Seq<char>,
    files: ProjectFiles,
    sub: Seq<Seq<char>>,
) -> bool {
    match (r, invocation(dir, files, sub)) {
        (Ok(c), Ok(args)) => c.current_dir@ == dir && strs(c.args@) == args,
        (Err(a), Err(b)) => a == b,
        _ => false,
    }
}

/// The final name of a path.
fn file_name_exec(p: &str) -> (r: Option<Vec<char>>)
    ensures
        match r {
            Some(n) => file_name(p@) == Some(n@),
            None => file_name(p@) is None,
        },
{
    let parts = crate::config::path_parts_exec(p);
    if parts.len() == 0 {
        return None;
    }
    let last = &parts[parts.len() - 1];
    let dotdot = chars_of("..");
    if chars_eq(last, &dotdot) {
        return None;
    }
    Some(crate::text::sub_chars(last, 0, last.len()))
}

/// The invocation of the Compose subcommand `sub` for the project in `dir`.
pub fn compose_command(dir: &str, files: ProjectFiles, sub: &[&str]) -> (r: Result<ComposeCommand, ComposeError>)
    ensures
        is_invocation(r, dir@, files, sub@.map_values(|s: &str| s@)),
{
    if !files.directory {
        return Err(ComposeError::MissingDirectory);
    }
    if !files.compose_file {
        return Err(ComposeError::MissingComposeFile);
    }
    if !files.env_file {
        return Err(ComposeError::MissingEnvFile);
    }
    let name = match file_name_exec(dir) {
        Some(n) => n,
        None => {
            return Err(ComposeError::NoProjectName);
        },
    };
    let mut args: Vec<String> = Vec::new();
    args.push(String::from_str("compose"));
    args.push(String::from_str("--project-directory"));
    args.push(String::from_str(dir));
    args.push(String::from_str("--env-file"));
    args.push(join_path(dir, ".env"));
    args.push(String::from_str("--file"));
    args.push(join_path(dir, "compose.yaml"));
    args.push(String::from_str("--project-name"));
    args.push(string_of(&name));
    let ghost head = strs(args@);
    assert(head =~= project_args(dir@, name@));
    let mut i: usize = 0;
    while i < sub.len()
        invariant
            i <= sub@.len(),
            strs(args@) == head + sub@.take(i as int).map_values(|s: &str| s@),
        decreases sub.len() - i,
    {
        let ghost before = args@;
        let a = String::from_str(sub[i]);
        args.push(a);
        assert(strs(args@) =~= strs(before).push(a@));
        assert(sub@.take(i + 1).map_values(|s: &str| s@) =~= sub@.take(i as int).map_values(|s: &str| s@).push(
            sub@[i as int]@,
        ));
        i = i + 1;
    }
    assert(sub@.take(i as int) =~= sub@);
    Ok(ComposeCommand { current_dir: String::from_str(dir), args })
}

/// `docker compose up -d`.
pub fn compose_up(dir: &str, files: ProjectFiles) -> (r: Result<ComposeCommand, ComposeError>)
    ensures
        is_invocation(r, dir@, files, seq!["up"@, "-d"@]),
{
    let sub: [&str; 2] = ["up", "-d"];
    let r = compose_command(dir, files, &sub);
    assert(sub@.map_values(|s: &str| s@) =~= seq!["up"@, "-d"@]);
    r
}

/// `docker compose down`, with `--volumes` when named volumes go too.
pub fn compose_down(dir: &str, files: ProjectFiles, remove_volumes: bool) -> (r: Result<ComposeCommand, ComposeError>)
    ensures
        is_invocation(
            r,
            dir@,
            files,
            if remove_volumes {
                seq!["down"@, "--volumes"@]
            } else {
                seq!["down"@]
            },
        ),
{
    if remove_volumes {
        let sub: [&str; 2] = ["down", "--volumes"];
        let r = compose_command(dir, files, &sub);
        assert(sub@.map_values(|s: &str| s@) =~= seq!["down"@, "--volumes"@]);
        r
    } else {
        let sub: [&str; 1] = ["down"];
        let r = compose_command(dir, files, &sub);
        assert(sub@.map_values(|s: &str| s@) =~= seq!["down"@]);
        r
    }
}

/// `docker compose stop`.
pub fn compose_stop(dir: &str, files: ProjectFiles) -> (r: Result<ComposeCommand, ComposeError>)
    ensures
        is_invocation(r, dir@, files, seq!["stop"@]),
{
    let sub: [&str; 1] = ["stop"];
    let r = compose_command(dir, files, &sub);
    assert(sub@.map_values(|s: &str| s@) =~= seq!["stop"@]);
    r
}

/// `docker compose restart`.
pub fn compose_restart(dir: &str, files: ProjectFiles) -> (r: Result<ComposeCommand, ComposeError>)
    ensures
        is_invocation(r, dir@, files, seq!["restart"@]),
{
    let sub: [&str; 1] = ["restart"];
    let r = compose_command(dir, files, &sub);
    assert(sub@.map_values(|s: &str| s@) =~= seq!["restart"@]);
    r
}

/// `docker compose build`.
pub fn compose_build(dir: &str, files: ProjectFiles) -> (r: Result<ComposeCommand, ComposeError>)
    ensures
        is_invocation(r, dir@, files, seq!["build"@]),
{
    let sub: [&str; 1] = ["build"];
    let r = compose_command(dir, files, &sub);
    assert(sub@.map_values(|s: &str| s@) =~= seq!["build"@]);
    r
}

/// `docker compose ps --format json`.
pub fn compose_ps_json(dir: &str, files: ProjectFiles) -> (r: Result<ComposeCommand, ComposeError>)
    ensures
        is_invocation(r, dir@, files, seq!["ps"@, "--format"@, "json"@]),
{
    let sub: [&str; 3] = ["ps", "--format", "json"];
    let r = compose_command(dir, files, &sub);
    assert(sub@.map_values(|s: &str| s@) =~= seq!["ps"@, "--format"@, "json"@]);
    r
}

/// `docker compose config --quiet`, which checks the project's configuration.
pub fn compose_validate(dir: &str, files: ProjectFiles) -> (r: Result<ComposeCommand, ComposeError>)
    ensures
        is_invocation(r, dir@, files, seq!["config"@, "--quiet"@]),
{
    let sub: [&str; 2] = ["config", "--quiet"];
    let r = compose_command(dir, files, &sub);
    assert(sub@.map_values(|s: &str| s@) =~= seq!["config"@, "--quiet"@]);
    r
}

/// `docker compose --progress json pull`.
pub fn compose_pull(dir: &str, files: ProjectFiles) -> (r: Result<ComposeCommand, ComposeError>)
    ensures
        is_invocation(r, dir@, files, seq!["--progress"@, "json"@, "pull"@]),
{
    let sub: [&str; 3] = ["--progress", "json", "pull"];
    let r = compose_command(dir, files, &sub);
    assert(sub@.map_values(|s: &str| s@) =~= seq!["--progress"@, "json"@, "pull"@]);
    r
}

/// The number of log lines kept per service: `tail` within `1..=10000`.
pub open spec fn clamped_tail(tail: u32) -> nat {
    if tail < 1 {
        1
    } else if tail > 10000 {
        10000
    } else {
        tail as nat
    }
}

/// The arguments of a logs invocation.
pub open spec fn logs_args(tail: u32, follow: bool) -> Seq<Seq<char>> {
    seq!["logs"@, "--no-color"@, "--tail"@, decimal(clamped_tail(tail))] + if follow {
        seq!["--follow"@]
    } else {
        Seq::empty()
    }
}

/// `docker compose logs --no-color --tail N`, with `--follow` when following.
pub fn compose_logs(dir: &str, files: ProjectFiles, tail: u32, follow: bool) -> (r: Result<ComposeCommand, ComposeError>)
    ensures
        is_invocation(r, dir@, files, logs_args(tail, follow)),
{
    let kept: u32 = if tail < 1 {
        1
    } else if tail > 10000 {
        10000
    } else {
        tail
    };
    let count = decimal_string(kept as u128);
    let mut r = if follow {
        let sub: [&str; 5] = ["logs", "--no-color", "--tail", count.as_str(), "--follow"];
        let r = compose_command(dir, files, &sub);
        assert(sub@.map_values(|s: &str| s@) =~= logs_args(tail, follow));
        r
    } else {
        let sub: [&str; 4] = ["logs", "--no-color", "--tail", count.as_str()];
        let r = compose_command(dir, files, &sub);
        assert(sub@.map_values(|s: &str| s@) =~= logs_args(tail, follow));
        r
    };
    r
}

/// A logs invocation keeps as many lines as asked for: after `--tail` it passes a
/// number that reads back as the requested count when that count is within
/// `1..=10000`, and as the nearest bound otherwise.
pub proof fn law_logs_tail_reads_back(
    r: Result<ComposeCommand, ComposeError>,
    dir: Seq<char>,
    files: ProjectFiles,
    tail: u32,
    follow: bool,
)
    requires
        is_invocation(r, dir, files, logs_args(tail, follow)),
        r is Ok,
    ensures
        strs(r->Ok_0.args@).len() >= 13,
        strs(r->Ok_0.args@)[9] == "logs"@,
        strs(r->Ok_0.args@)[11] == "--tail"@,
        1 <= tail <= 10000 ==> crate::text::parse_bounded(strs(r->Ok_0.args@)[12], 10000) == Some(tail as nat),
        tail < 1 ==> crate::text::parse_bounded(strs(r->Ok_0.args@)[12], 10000) == Some(1nat),
        tail > 10000 ==> crate::text::parse_bounded(strs(r->Ok_0.args@)[12], 10000) == Some(10000nat),
        follow <==> strs(r->Ok_0.args@).len() == 14,
        follow ==> strs(r->Ok_0.args@)[13] == "--follow"@,
{
    let args = invocation(dir, files, logs_args(tail, follow))->Ok_0;
    let name = file_name(dir)->Some_0;
    assert(args == project_args(dir, name) + logs_args(tail, follow));
    assert(project_args(dir, name).len() == 9);
    assert(args[9] == logs_args(tail, follow)[0]);
    assert(args[11] == logs_args(tail, follow)[2]);
    assert(args[12] == logs_args(tail, follow)[3]);
    if follow {
        assert(args[13] == logs_args(tail, follow)[4]);
    }
    crate::text::law_decimal_parse_round_trip(clamped_tail(tail), 10000);
}

// ---------------------------------------------------------------------------
// Failures
// ---------------------------------------------------------------------------

/// The detail of a failed command: its trimmed error output, or its trimmed standard
/// output when the error output is blank.
pub open spec fn failure_detail(stderr: Seq<char>, stdout: Seq<char>) -> Seq<char> {
    if is_blank(stderr) {
        trim(stdout)
    } else {
        trim(stderr)
    }
}

/// Checks a finished command: an error naming the operation and the most useful
/// output when it failed.
pub fn ensure_success(success: bool, stderr: &str, stdout: &str, operation: &str) -> (r: Result<(), String>)
    ensures
        match r {
            Ok(()) => success,
            Err(m) => !success && m@ == operation@ + " 执行失败: "@ + failure_detail(stderr@, stdout@),
        },
{
    if success {
        return Ok(());
    }
    let err = chars_of(stderr);
    let detail = if is_blank_exec(&err) {
        let out = chars_of(stdout);
        trim_chars(&out)
    } else {
        trim_chars(&err)
    };
    let mut message = String::from_str(operation);
    message.append(" 执行失败: ");
    let d = string_of(&detail);
    message.append(d.as_str());
    Err(message)
}


/// An exit code as `{:?}` writes an `Option<i32>`.
pub open spec fn exit_code_text(code: Option<i32>) -> Seq<char> {
    match code {
        Some(n) => "Some("@ + (if n < 0 {
            "-"@ + decimal((-n) as nat)
        } else {
            decimal(n as nat)
        }) + ")"@,
        None => "None"@,
    }
}

/// An exit code as `{:?}` writes an `Option<i32>`.
fn exit_code_string(code: Option<i32>) -> (r: String)
    ensures
        r@ == exit_code_text(code),
{
    match code {
        Some(n) => {
            let mut s = String::from_str("Some(");
            if n < 0 {
                s.append("-");
                let magnitude: u128 = (-(n as i64)) as u128;
                s.append(decimal_string(magnitude).as_str());
            } else {
                s.append(decimal_string(n as u128).as_str());
            }
            s.append(")");
            s
        },
        None => String::from_str("None"),
    }
}

/// How a streamed operation (a pull or a log stream) ends: fine when the client went
/// away or the command succeeded; otherwise an error with the exit code and the
/// output that was not reported.
pub fn stream_outcome(operation: &str, disconnected: bool, success: bool, code: Option<i32>, detail: &str) -> (r:
    Result<(), String>)
    ensures
        match r {
            Ok(()) => disconnected || success,
            Err(m) => !disconnected && !success && m@ == operation@ + " 执行失败，退出码 "@ + exit_code_text(code)
                + ": "@ + trim(detail@),
        },
{
    if disconnected || success {
        return Ok(());
    }
    let mut message = String::from_str(operation);
    message.append(" 执行失败，退出码 ");
    message.append(exit_code_string(code).as_str());
    message.append(": ");
    let d = chars_of(detail);
    let t = string_of(&trim_chars(&d));
    message.append(t.as_str());
    Err(message)
}

// ---------------------------------------------------------------------------
// Pull progress
// ---------------------------------------------------------------------------

/// A pull progress event that Docker Compose reports.
pub struct PullProgress {
    /// Progress node.
    pub id: String,
    /// Node status.
    pub status: String,
    /// Description.
    pub text: String,
    /// Bytes done.
    pub current: u64,
    /// Bytes in all.
    pub total: u64,
}

/// A field of a JSON object.
pub open spec fn json_field(v: Yaml, k: Seq<char>) -> Option<Yaml> {
    match v {
        Yaml::Dict(es) => dict_get(es, k),
        _ => None,
    }
}

/// A string field of a JSON object; empty unless it is a string.
pub open spec fn json_str(v: Yaml, k: Seq<char>) -> Seq<char> {
    match json_field(v, k) {
        Some(Yaml::Text(t)) => t,
        _ => Seq::empty(),
    }
}

/// An unsigned field of a JSON object; zero unless it is a non-negative integer.
pub open spec fn json_count(v: Yaml, k: Seq<char>) -> nat {
    match json_field(v, k) {
        Some(Yaml::Int(n)) => if n >= 0 {
            n as nat
        } else {
            0
        },
        _ => 0,
    }
}

/// What a progress line reports: an error when it says `"error": true`, nothing
/// when it is not JSON or names no node, status or text, an event otherwise.
pub open spec fn progress_of(v: Option<Yaml>) -> Result<Option<(Seq<char>, Seq<char>, Seq<char>, nat, nat)>, Seq<char>> {
    match v {
        None => Ok(None),
        Some(x) => if json_field(x, "error"@) == Some(Yaml::Bool(true)) {
            Err(
                match json_field(x, "message"@) {
                    Some(Yaml::Text(m)) => m,
                    _ => "Docker Compose 拉取失败"@,
                },
            )
        } else if json_str(x, "id"@).len() == 0 && json_str(x, "status"@).len() == 0 && json_str(
            x,
            "text"@,
        ).len() == 0 {
            Ok(None)
        } else {
            Ok(
                Some(
                    (
                        json_str(x, "id"@),
                        json_str(x, "status"@),
                        json_str(x, "text"@),
                        json_count(x, "current"@),
                        json_count(x, "total"@),
                    ),
                ),
            )
        },
    }
}

/// A string field of a JSON object.
fn json_str_exec(v: &Value, k: &str) -> (r: String)
    ensures
        r@ == json_str(yv(*v), k@),
{
    match v {
        Value::Mapping(es) => match get_key(es, k) {
            Some(Value::String(t)) => t.clone(),
            _ => String::new(),
        },
        _ => String::new(),
    }
}

/// An unsigned field of a JSON object.
fn json_count_exec(v: &Value, k: &str) -> (r: u64)
    ensures
        r as nat == json_count(yv(*v), k@),
{
    match v {
        Value::Mapping(es) => match get_key(es, k) {
            Some(Value::Number(Number::PosInt(n))) => *n,
            Some(Value::Number(Number::NegInt(n))) => if *n >= 0 {
                *n as u64
            } else {
                0
            },
            _ => 0,
        },
        _ => 0,
    }
}

/// The event of one line of `docker compose --progress json pull`; `line` is the line
/// read as JSON, `None` when it is not JSON.
pub fn parse_pull_progress(line: &Option<Value>) -> (r: Result<Option<PullProgress>, String>)
    ensures
        match (r, progress_of(crate::stacks::opt_yv(*line))) {
            (Ok(Some(p)), Ok(Some(e))) => (p.id@, p.status@, p.text@, p.current as nat, p.total as nat) == e,
            (Ok(None), Ok(None)) => true,
            (Err(m), Err(e)) => m@ == e,
            _ => false,
        },
{
    let v = match line {
        Some(v) => v,
        None => {
            return Ok(None);
        },
    };
    let error = match v {
        Value::Mapping(es) => match get_key(es, "error") {
            Some(Value::Bool(b)) => *b,
            _ => false,
        },
        _ => false,
    };
    if error {
        let message = match v {
            Value::Mapping(es) => match get_key(es, "message") {
                Some(Value::String(m)) => m.clone(),
                _ => String::from_str("Docker Compose 拉取失败"),
            },
            _ => String::from_str("Docker Compose 拉取失败"),
        };
        return Err(message);
    }
    let id = json_str_exec(v, "id");
    let status = json_str_exec(v, "status");
    let text = json_str_exec(v, "text");
    if id.as_str().is_empty() && status.as_str().is_empty() && text.as_str().is_empty() {
        return Ok(None);
    }
    let current = json_count_exec(v, "current");
    let total = json_count_exec(v, "total");
    Ok(Some(PullProgress { id, status, text, current, total }))
}

/// The number of UTF-8 bytes of a character.
pub open spec fn char_bytes(c: char) -> nat {
    if (c as u32) < 0x80 {
        1
    } else if (c as u32) < 0x800 {
        2
    } else if (c as u32) < 0x10000 {
        3
    } else {
        4
    }
}

/// The number of UTF-8 bytes of a text.
pub open spec fn utf8_len(s: Seq<char>) -> nat
    decreases s.len(),
{
    if s.len() == 0 {
        0
    } else {
        utf8_len(s.drop_last()) + char_bytes(s.last())
    }
}

/// How many leading characters of `s` fit in `limit` bytes.
pub open spec fn fit_count(s: Seq<char>, limit: nat) -> nat
    decreases s.len(),
{
    if s.len() == 0 {
        0
    } else if char_bytes(s[0]) <= limit {
        1 + fit_count(s.drop_first(), (limit - char_bytes(s[0])) as nat)
    } else {
        0
    }
}

/// The most detail kept, in bytes.
pub open spec fn max_detail() -> nat {
    16384
}

/// `detail` with `line` and a line break added, the line cut at a character
/// boundary so that the detail stays within its limit; unchanged once full.
pub open spec fn detail_after(detail: Seq<char>, line: Seq<char>) -> Seq<char> {
    if utf8_len(detail) >= max_detail() {
        detail
    } else {
        let remaining = (max_detail() - utf8_len(detail)) as nat;
        let kept = if utf8_len(line) <= remaining {
            line
        } else {
            line.take(fit_count(line, remaining) as int)
        };
        detail + kept + "\n"@
    }
}

/// The number of UTF-8 bytes of a character.
fn char_bytes_exec(c: char) -> (r: u128)
    ensures
        r as nat == char_bytes(c),
{
    let v = c as u32;
    if v < 0x80 {
        1
    } else if v < 0x800 {
        2
    } else if v < 0x10000 {
        3
    } else {
        4
    }
}

/// The number of UTF-8 bytes of a text.
pub fn utf8_len_exec(s: &[char]) -> (r: u128)
    ensures
        r as nat == utf8_len(s@),
        r <= 4 * s@.len(),
{
    let mut total: u128 = 0;
    let mut i: usize = 0;
    while i < s.len()
        invariant
            i <= s@.len(),
            total as nat == utf8_len(s@.take(i as int)),
            total <= 4 * i,
        decreases s.len() - i,
    {
        assert(s@.take(i + 1).drop_last() =~= s@.take(i as int));
        total = total + char_bytes_exec(s[i]);
        i = i + 1;
    }
    assert(s@.take(i as int) =~= s@);
    total
}

proof fn lemma_fit_count_bound(s: Seq<char>, limit: nat)
    ensures
        fit_count(s, limit) <= s.len(),
    decreases s.len(),
{
    if s.len() > 0 && char_bytes(s[0]) <= limit {
        lemma_fit_count_bound(s.drop_first(), (limit - char_bytes(s[0])) as nat);
    }
}

/// How many leading characters fit in `limit` bytes.
fn fit_count_exec(s: &[char], limit: u128) -> (r: usize)
    ensures
        r as nat == fit_count(s@, limit as nat),
{
    let mut left: u128 = limit;
    let mut i: usize = 0;
    assert(s@.skip(0) =~= s@);
    while i < s.len()
        invariant
            i <= s@.len(),
            left <= limit,
            fit_count(s@, limit as nat) == i + fit_count(s@.skip(i as int), left as nat),
        decreases s.len() - i,
    {
        let ghost rest = s@.skip(i as int);
        assert(rest[0] == s@[i as int]);
        let b = char_bytes_exec(s[i]);
        if b > left {
            return i;
        }
        assert(rest.drop_first() =~= s@.skip(i + 1));
        left = left - b;
        i = i + 1;
    }
    assert(s@.skip(i as int).len() == 0);
    i
}

/// Adds a line of non-JSON output to a failure's detail, keeping it within 16 KiB.
pub fn append_detail(detail: &mut String, line: &str)
    ensures
        final(detail)@ == detail_after(old(detail)@, line@),
{
    let mut cs = chars_of(detail.as_str());
    let used = utf8_len_exec(&cs);
    if used >= 16384 {
        return;
    }
    let remaining: u128 = 16384 - used;
    let lc = chars_of(line);
    let line_bytes = utf8_len_exec(&lc);
    let kept = if line_bytes <= remaining {
        lc
    } else {
        let n = fit_count_exec(&lc, remaining);
        proof {
            lemma_fit_count_bound(lc@, remaining as nat);
        }
        let k = crate::text::sub_chars(&lc, 0, n);
        assert(k@ =~= lc@.take(n as int));
        k
    };
    crate::text::extend_chars(&mut cs, &kept);
    cs.push('\n');
    proof {
        reveal_strlit("\n");
    }
    assert(cs@ =~= old(detail)@ + kept@ + "\n"@);
    *detail = string_of(&cs);
}


// ---------------------------------------------------------------------------
// Streamed operations
// ---------------------------------------------------------------------------

/// A streamed Compose operation.
#[derive(Clone, Copy, Debug, PartialEq, Eq, Structural)]
pub enum StreamKind {
    /// `docker compose pull`, reporting progress events.
    Pull,
    /// `docker compose logs`, reporting output lines.
    Logs,
}

/// The name under which a streamed operation fails.
pub open spec fn stream_operation(kind: StreamKind) -> Seq<char> {
    match kind {
        StreamKind::Pull => "docker compose pull"@,
        StreamKind::Logs => "docker compose logs"@,
    }
}

/// What happens while a streamed operation runs.
pub enum StreamEvent {
    /// A line of output, in the order it arrived, with its reading as JSON
    /// (`None` when it is not JSON).
    Line { text: String, json: Option<Value> },
    /// The client refused the last report.
    Refused,
    /// The client is no longer connected.
    Disconnected,
    /// All output was read and the command ended with this status.
    Exited { success: bool, code: Option<i32> },
}

/// What to do next.
pub enum StreamAction {
    /// Report a progress event to the client.
    Report(PullProgress),
    /// Report an output line to the client.
    ReportLine(String),
    /// Read the next line.
    Continue,
    /// End the operation: stop the command first when `kill` is set, then return
    /// `outcome`.
    Stop { kill: bool, outcome: Result<(), String> },
}

/// The state of a streamed operation: its kind and the output kept for an error.
pub struct StreamState {
    /// The operation.
    pub kind: StreamKind,
    /// Output that was not reported as progress, within its limit.
    pub detail: String,
}

/// How a command that ran to its end finishes: fine when it succeeded, otherwise
/// an error with its exit code and the kept output.
pub open spec fn stream_result(kind: StreamKind, success: bool, code: Option<i32>, detail: Seq<char>) -> Result<
    (),
    Seq<char>,
> {
    if success {
        Ok(())
    } else {
        Err(stream_operation(kind) + " 执行失败，退出码 "@ + exit_code_text(code) + ": "@ + trim(detail))
    }
}

/// Whether an outcome is the one described.
pub open spec fn outcome_is(r: Result<(), String>, e: Result<(), Seq<char>>) -> bool {
    match (r, e) {
        (Ok(()), Ok(())) => true,
        (Err(m), Err(t)) => m@ == t,
        _ => false,
    }
}

/// The progress event that `p` carries.
pub open spec fn progress_view(p: PullProgress) -> (Seq<char>, Seq<char>, Seq<char>, nat, nat) {
    (p.id@, p.status@, p.text@, p.current as nat, p.total as nat)
}

impl StreamState {
    /// A streamed operation that has seen nothing yet.
    pub fn new(kind: StreamKind) -> (s: StreamState)
        ensures
            s.kind == kind,
            s.detail@.len() == 0,
    {
        StreamState { kind, detail: String::new() }
    }
}

/// One step of a streamed operation.
///
/// A pull reports each line that carries a progress event, ends with the message of
/// an error event, and keeps other lines for a failure's detail. A log stream keeps
/// and reports every line. A refused report or a lost client stops the command and
/// ends well; a command that ran to its end decides the outcome by its status.
pub fn stream_step(state: &mut StreamState, event: StreamEvent) -> (a: StreamAction)
    ensures
        final(state).kind == old(state).kind,
        match event {
            StreamEvent::Line { text, json } => match old(state).kind {
                StreamKind::Pull => match progress_of(crate::stacks::opt_yv(json)) {
                    Err(m) => {
                        &&& final(state).detail@ == old(state).detail@
                        &&& (a matches StreamAction::Stop { kill: false, outcome: Err(e) } && e@ == m)
                    },
                    Ok(Some(p)) => {
                        &&& final(state).detail@ == old(state).detail@
                        &&& (a matches StreamAction::Report(q) && progress_view(q) == p)
                    },
                    Ok(None) => {
                        &&& final(state).detail@ == detail_after(old(state).detail@, text@)
                        &&& a is Continue
                    },
                },
                StreamKind::Logs => {
                    &&& final(state).detail@ == detail_after(old(state).detail@, text@)
                    &&& (a matches StreamAction::ReportLine(l) && l@ == text@)
                },
            },
            StreamEvent::Refused | StreamEvent::Disconnected => {
                &&& final(state).detail@ == old(state).detail@
                &&& a matches StreamAction::Stop { kill: true, outcome: Ok(()) }
            },
            StreamEvent::Exited { success, code } => {
                &&& final(state).detail@ == old(state).detail@
                &&& (a matches StreamAction::Stop { kill: false, outcome } && outcome_is(
                    outcome,
                    stream_result(old(state).kind, success, code, old(state).detail@),
                ))
            },
        },
{
    match event {
        StreamEvent::Line { text, json } => match state.kind {
            StreamKind::Pull => match parse_pull_progress(&json) {
                Err(m) => StreamAction::Stop { kill: false, outcome: Err(m) },
                Ok(Some(p)) => StreamAction::Report(p),
                Ok(None) => {
                    append_detail(&mut state.detail, text.as_str());
                    StreamAction::Continue
                },
            },
            StreamKind::Logs => {
                append_detail(&mut state.detail, text.as_str());
                StreamAction::ReportLine(text)
            },
        },
        StreamEvent::Refused | StreamEvent::Disconnected => StreamAction::Stop {
            kill: true,
            outcome: Ok(()),
        },
        StreamEvent::Exited { success, code } => {
            let operation = match state.kind {
                StreamKind::Pull => "docker compose pull",
                StreamKind::Logs => "docker compose logs",
            };
            proof {
                reveal_strlit("docker compose pull");
                reveal_strlit("docker compose logs");
            }
            let outcome = stream_outcome(operation, false, success, code, state.detail.as_str());
            StreamAction::Stop { kill: false, outcome }
        },
    }
}

} // verus!
