//! The daemon's configuration, its defaults and its checks.

use crate::error::InvalidInput;
use crate::gen::{join_path, path_join};
use crate::names::{split_all, split_all_exec, valid_domain, valid_domain_exec};
use crate::text::{chars_eq, chars_of, is_blank, is_blank_exec, lemma_find_char, starts_with};
use vstd::prelude::*;

verus! {

/// The daemon's configuration.
pub struct Config {
    /// Paths.
    pub paths: PathsConfig,
    /// Domain.
    pub home: HomeConfig,
    /// RPC listener.
    pub grpc: GrpcConfig,
}

/// Paths of the daemon.
pub struct PathsConfig {
    /// Root directory of the Compose projects.
    pub apps_root: String,
    /// Root directory of persistent data.
    pub data_root: String,
}

/// RPC listener settings.
pub struct GrpcConfig {
    /// Listen address; a local Unix socket by default, so that Docker control is not
    /// exposed.
    pub listen: String,
}

/// Domain settings.
pub struct HomeConfig {
    /// Primary domain.
    pub domain: String,
}

/// The default listen address: the local Unix socket.
pub open spec fn default_listen() -> Seq<char> {
    "unix:///run/nsetup/nsetup.sock"@
}

impl Default for GrpcConfig {
    fn default() -> (r: Self)
        ensures
            r.listen@ == default_listen(),
    {
        GrpcConfig { listen: String::from_str("unix:///run/nsetup/nsetup.sock") }
    }
}

/// Whether a path segment names a directory step: not empty and not `.`.
pub open spec fn is_part() -> spec_fn(Seq<char>) -> bool {
    |s: Seq<char>| s.len() > 0 && s != "."@
}

/// The normal components of a `/`-separated path, as `Path::components` yields them
/// after the root: empty segments and `.` are skipped.
pub open spec fn path_parts(p: Seq<char>) -> Seq<Seq<char>> {
    split_all(p, '/').filter(is_part())
}

/// Whether an absolute path names the filesystem root.
pub open spec fn is_root_path(p: Seq<char>) -> bool {
    path_parts(p).len() == 0
}

/// What `Config::validate` accepts: a valid domain; absolute roots that are not `/`
/// and name different directories; a listen address that is not blank.
pub open spec fn valid_config(c: Config) -> bool {
    &&& valid_domain(c.home.domain@)
    &&& starts_with(c.paths.apps_root@, "/"@)
    &&& !is_root_path(c.paths.apps_root@)
    &&& starts_with(c.paths.data_root@, "/"@)
    &&& !is_root_path(c.paths.data_root@)
    &&& path_parts(c.paths.apps_root@) != path_parts(c.paths.data_root@)
    &&& !is_blank(c.grpc.listen@)
}

/// The normal components of a path.
pub fn path_parts_exec(p: &str) -> (r: Vec<Vec<char>>)
    ensures
        r@.len() == path_parts(p@).len(),
        forall|i: int| 0 <= i < r@.len() ==> (#[trigger] r@[i])@ == path_parts(p@)[i],
{
    let cs = chars_of(p);
    let segs = split_all_exec(&cs, '/');
    let ghost all = split_all(p@, '/');
    let ghost f = is_part();
    let dot = chars_of(".");
    let mut out: Vec<Vec<char>> = Vec::new();
    let mut i: usize = 0;
    proof {
    }
    assert(all.take(0) =~= Seq::<Seq<char>>::empty());
    while i < segs.len()
        invariant
            i <= segs@.len(),
            segs@.len() == all.len(),
            all == split_all(p@, '/'),
            f == is_part(),
            dot@ == "."@,
            forall|m: int| 0 <= m < segs@.len() ==> (#[trigger] segs@[m])@ == all[m],
            out@.len() == all.take(i as int).filter(f).len(),
            forall|m: int| 0 <= m < out@.len() ==> (#[trigger] out@[m])@ == all.take(i as int).filter(f)[m],
        decreases segs.len() - i,
    {
        proof {
            assert(all.take(i + 1) =~= all.take(i as int).push(all[i as int]));
            all.take(i as int).lemma_filter_push(all[i as int], f);
        }
        if segs[i].len() > 0 && !chars_eq(&segs[i], &dot) {
            let seg = crate::text::sub_chars(&segs[i], 0, segs[i].len());
            assert(seg@ =~= segs@[i as int]@);
            out.push(seg);
        }
        i = i + 1;
    }
    assert(all.take(i as int) =~= all);
    out
}

/// Whether two paths have the same normal components.
fn same_parts(a: &str, b: &str) -> (r: bool)
    ensures
        r == (path_parts(a@) == path_parts(b@)),
{
    let x = path_parts_exec(a);
    let y = path_parts_exec(b);
    if x.len() != y.len() {
        return false;
    }
    let mut i: usize = 0;
    while i < x.len()
        invariant
            i <= x@.len() == y@.len(),
            x@.len() == path_parts(a@).len(),
            y@.len() == path_parts(b@).len(),
            forall|m: int| 0 <= m < x@.len() ==> (#[trigger] x@[m])@ == path_parts(a@)[m],
            forall|m: int| 0 <= m < y@.len() ==> (#[trigger] y@[m])@ == path_parts(b@)[m],
            forall|m: int| 0 <= m < i ==> path_parts(a@)[m] == path_parts(b@)[m],
        decreases x.len() - i,
    {
        if !chars_eq(&x[i], &y[i]) {
            return false;
        }
        i = i + 1;
    }
    assert(path_parts(a@) =~= path_parts(b@));
    true
}

/// Whether a path starts with `/`.
fn is_absolute(p: &str) -> (r: bool)
    ensures
        r == starts_with(p@, "/"@),
{
    let cs = chars_of(p);
    let slash = chars_of("/");
    crate::text::starts_with_exec(&cs, &slash)
}

/// Splitting at the first occurrence of the separator.
proof fn lemma_split_at(s: Seq<char>, c: char, k: int)
    requires
        0 <= k < s.len(),
        s[k] == c,
        forall|j: int| 0 <= j < k ==> s[j] != c,
    ensures
        split_all(s, c) == seq![s.take(k)] + split_all(s.skip(k + 1), c),
{
    lemma_find_char(s, c);
}

/// A text without the separator splits into itself.
proof fn lemma_split_none(s: Seq<char>, c: char)
    requires
        forall|j: int| 0 <= j < s.len() ==> s[j] != c,
    ensures
        split_all(s, c) == seq![s],
{
    lemma_find_char(s, c);
}

/// Whether a path segment has no separator, is not empty and is not `.`.
spec fn plain_segment(a: Seq<char>) -> bool {
    &&& a.len() > 1
    &&& forall|j: int| 0 <= j < a.len() ==> a[j] != '/'
}

/// `a/rest`, split at its first separator.
proof fn lemma_split_segment(a: Seq<char>, rest: Seq<char>)
    requires
        plain_segment(a),
    ensures
        split_all(a + "/"@ + rest, '/') == seq![a] + split_all(rest, '/'),
{
    reveal_strlit("/");
    let s = a + "/"@ + rest;
    assert(s[a.len() as int] == '/');
    assert forall|j: int| 0 <= j < a.len() implies s[j] != '/' by {
        assert(s[j] == a[j]);
    }
    lemma_split_at(s, '/', a.len() as int);
    assert(s.take(a.len() as int) =~= a);
    assert(s.skip(a.len() as int + 1) =~= rest);
}

/// A filtered single segment.
proof fn lemma_filter_one(x: Seq<char>)
    ensures
        seq![x].filter(is_part()) == (if x.len() > 0 && x != "."@ {
            seq![x]
        } else {
            Seq::empty()
        }),
{
    reveal_with_fuel(Seq::filter, 2);
    assert(seq![x].drop_last() =~= Seq::<Seq<char>>::empty());
    assert(seq![x].last() == x);
    if x.len() > 0 && x != "."@ {
        assert(Seq::<Seq<char>>::empty().push(x) =~= seq![x]);
    }
}

/// An absolute path of four plain segments splits into an empty piece and them.
proof fn lemma_four_split(a: Seq<char>, b: Seq<char>, c: Seq<char>, d: Seq<char>)
    requires
        plain_segment(a),
        plain_segment(b),
        plain_segment(c),
        plain_segment(d),
    ensures
        split_all("/"@ + a + "/"@ + b + "/"@ + c + "/"@ + d, '/') == seq![Seq::<char>::empty()] + (
        seq![a] + (seq![b] + (seq![c] + seq![d]))),
{
    reveal_strlit("/");
    let p = "/"@ + a + "/"@ + b + "/"@ + c + "/"@ + d;
    let r = a + "/"@ + b + "/"@ + c + "/"@ + d;
    lemma_split_at(p, '/', 0);
    assert(p.take(0) =~= Seq::<char>::empty());
    assert(p.skip(1) =~= r);
    assert(r =~= a + "/"@ + (b + "/"@ + c + "/"@ + d));
    lemma_split_segment(a, b + "/"@ + c + "/"@ + d);
    assert(b + "/"@ + c + "/"@ + d =~= b + "/"@ + (c + "/"@ + d));
    lemma_split_segment(b, c + "/"@ + d);
    lemma_split_segment(c, d);
    lemma_split_none(d, '/');
}

/// Filtering a segment in front of others.
proof fn lemma_filter_front(x: Seq<char>, rest: Seq<Seq<char>>)
    requires
        x.len() > 1,
    ensures
        (seq![x] + rest).filter(is_part()) == seq![x] + rest.filter(is_part()),
{
    reveal_strlit(".");
    assert(x != "."@);
    Seq::filter_distributes_over_add(seq![x], rest, is_part());
    lemma_filter_one(x);
}

/// The components of an absolute path of four plain segments.
proof fn lemma_four_parts(a: Seq<char>, b: Seq<char>, c: Seq<char>, d: Seq<char>)
    requires
        plain_segment(a),
        plain_segment(b),
        plain_segment(c),
        plain_segment(d),
    ensures
        path_parts("/"@ + a + "/"@ + b + "/"@ + c + "/"@ + d) == seq![a, b, c, d],
{
    lemma_four_split(a, b, c, d);
    let e = Seq::<char>::empty();
    let f = is_part();
    let t4 = seq![d];
    let t3 = seq![c] + t4;
    let t2 = seq![b] + t3;
    let t1 = seq![a] + t2;
    assert(t4.filter(f) == seq![d]) by {
        lemma_filter_front(d, Seq::empty());
        assert(seq![d] + Seq::<Seq<char>>::empty() =~= seq![d]);
        assert(Seq::<Seq<char>>::empty().filter(f) =~= Seq::<Seq<char>>::empty()) by {
            reveal(Seq::filter);
        }
        assert(seq![d] + Seq::<Seq<char>>::empty().filter(f) =~= seq![d]);
    }
    assert(t3.filter(f) =~= seq![c, d]) by {
        lemma_filter_front(c, t4);
    }
    assert(t2.filter(f) =~= seq![b, c, d]) by {
        lemma_filter_front(b, t3);
    }
    assert(t1.filter(f) =~= seq![a, b, c, d]) by {
        lemma_filter_front(a, t2);
    }
    assert((seq![e] + t1).filter(f) =~= seq![a, b, c, d]) by {
        Seq::filter_distributes_over_add(seq![e], t1, f);
        lemma_filter_one(e);
    }
}

/// The parts of the default configuration pass `validate`.
proof fn lemma_default_valid()
    ensures
        valid_domain("example.com"@),
        starts_with("/var/lib/nsetup/stacks"@, "/"@),
        starts_with("/var/lib/nsetup/data"@, "/"@),
        path_parts("/var/lib/nsetup/stacks"@).len() > 0,
        path_parts("/var/lib/nsetup/data"@).len() > 0,
        path_parts("/var/lib/nsetup/stacks"@) != path_parts("/var/lib/nsetup/data"@),
        !is_blank(default_listen()),
{
    reveal_strlit("/");
    reveal_strlit("var");
    reveal_strlit("lib");
    reveal_strlit("nsetup");
    reveal_strlit("stacks");
    reveal_strlit("data");
    reveal_strlit("/var/lib/nsetup/stacks");
    reveal_strlit("/var/lib/nsetup/data");
    reveal_strlit("example.com");
    reveal_strlit("unix:///run/nsetup/nsetup.sock");
    let (v, l, n) = ("var"@, "lib"@, "nsetup"@);
    assert(plain_segment(v) && plain_segment(l) && plain_segment(n));
    assert(plain_segment("stacks"@) && plain_segment("data"@));
    assert("/var/lib/nsetup/stacks"@ =~= "/"@ + v + "/"@ + l + "/"@ + n + "/"@ + "stacks"@);
    assert("/var/lib/nsetup/data"@ =~= "/"@ + v + "/"@ + l + "/"@ + n + "/"@ + "data"@);
    lemma_four_parts(v, l, n, "stacks"@);
    lemma_four_parts(v, l, n, "data"@);
    assert(seq![v, l, n, "stacks"@][3] != seq![v, l, n, "data"@][3]);
    assert("/var/lib/nsetup/stacks"@.take(1) =~= "/"@);
    assert("/var/lib/nsetup/data"@.take(1) =~= "/"@);
    let d = "example.com"@;
    lemma_split_at(d, '.', 7);
    let com = d.skip(8);
    lemma_split_none(com, '.');
    let parts = split_all(d, '.');
    assert(parts =~= seq![d.take(7), com]);
    assert(crate::names::valid_domain_label(d.take(7)));
    assert(crate::names::valid_domain_label(com));
    assert(d[7] == '.');
    assert(crate::text::has_char(d, '.'));
    let listen = default_listen();
    assert(!crate::text::is_whitespace(listen[0]));
}

/// Why `Config::validate` refuses a configuration: the first check that fails.
pub open spec fn config_error(c: Config) -> Seq<char> {
    if !valid_domain(c.home.domain@) {
        "domain 必须是有效的全小写完整域名"@
    } else if !starts_with(c.paths.apps_root@, "/"@) {
        "stacks_root 必须是绝对路径: "@ + c.paths.apps_root@
    } else if is_root_path(c.paths.apps_root@) {
        "stacks_root 不能使用文件系统根目录"@
    } else if !starts_with(c.paths.data_root@, "/"@) {
        "data_root 必须是绝对路径: "@ + c.paths.data_root@
    } else if is_root_path(c.paths.data_root@) {
        "data_root 不能使用文件系统根目录"@
    } else if path_parts(c.paths.apps_root@) == path_parts(c.paths.data_root@) {
        "stacks_root 和 data_root 不能指向同一目录"@
    } else {
        "grpc.listen 不能为空"@
    }
}

impl Config {
    /// The default configuration of the system service, following the Linux
    /// filesystem hierarchy.
    pub fn default_system() -> (c: Config)
        ensures
            c.paths.apps_root@ == "/var/lib/nsetup/stacks"@,
            c.paths.data_root@ == "/var/lib/nsetup/data"@,
            c.home.domain@ == "example.com"@,
            c.grpc.listen@ == default_listen(),
            valid_config(c),
    {
        proof {
            lemma_default_valid();
        }
        Config {
            paths: PathsConfig {
                apps_root: String::from_str("/var/lib/nsetup/stacks"),
                data_root: String::from_str("/var/lib/nsetup/data"),
            },
            home: HomeConfig { domain: String::from_str("example.com") },
            grpc: GrpcConfig::default(),
        }
    }

    /// The loaded configuration once it passes `validate`, or the default one when
    /// there is none; an invalid loaded configuration is refused, never replaced.
    pub fn load_or_default(loaded: Option<Config>) -> (r: Result<Config, InvalidInput>)
        ensures
            match loaded {
                Some(l) => match r {
                    Ok(c) => c == l && valid_config(l),
                    Err(e) => !valid_config(l) && e.0@ == config_error(l),
                },
                None => (r matches Ok(c) && c.paths.apps_root@ == "/var/lib/nsetup/stacks"@
                    && c.paths.data_root@ == "/var/lib/nsetup/data"@ && c.home.domain@
                    == "example.com"@ && c.grpc.listen@ == default_listen() && valid_config(c)),
            },
    {
        match loaded {
            Some(c) => {
                c.validate()?;
                Ok(c)
            },
            None => Ok(Config::default_system()),
        }
    }

    /// Checks the domain, the paths and the listen address.
    pub fn validate(&self) -> (r: Result<(), InvalidInput>)
        ensures
            r is Ok <==> valid_config(*self),
            r matches Err(e) ==> e.0@ == config_error(*self),
    {
        validate_domain(self.home.domain.as_str())?;
        if !is_absolute(self.paths.apps_root.as_str()) {
            let mut m = String::from_str("stacks_root 必须是绝对路径: ");
            m.append(self.paths.apps_root.as_str());
            return Err(InvalidInput(m));
        }
        if path_parts_exec(self.paths.apps_root.as_str()).len() == 0 {
            return Err(InvalidInput::new("stacks_root 不能使用文件系统根目录"));
        }
        if !is_absolute(self.paths.data_root.as_str()) {
            let mut m = String::from_str("data_root 必须是绝对路径: ");
            m.append(self.paths.data_root.as_str());
            return Err(InvalidInput(m));
        }
        if path_parts_exec(self.paths.data_root.as_str()).len() == 0 {
            return Err(InvalidInput::new("data_root 不能使用文件系统根目录"));
        }
        if same_parts(self.paths.apps_root.as_str(), self.paths.data_root.as_str()) {
            return Err(InvalidInput::new("stacks_root 和 data_root 不能指向同一目录"));
        }
        let listen = chars_of(self.grpc.listen.as_str());
        if is_blank_exec(&listen) {
            return Err(InvalidInput::new("grpc.listen 不能为空"));
        }
        Ok(())
    }
}

/// Checks a primary domain that application subdomains are formed under.
pub fn validate_domain(domain: &str) -> (r: Result<(), InvalidInput>)
    ensures
        r is Ok <==> valid_domain(domain@),
        r matches Err(e) ==> e.0@ == "domain 必须是有效的全小写完整域名"@,
{
    if valid_domain_exec(domain) {
        Ok(())
    } else {
        Err(InvalidInput::new("domain 必须是有效的全小写完整域名"))
    }
}

/// The configuration file in the configuration directory `dir`.
pub fn config_path(dir: &str) -> (r: String)
    ensures
        r@ == path_join(dir@, "config.toml"@),
{
    join_path(dir, "config.toml")
}

} // verus!
