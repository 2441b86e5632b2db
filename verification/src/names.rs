//! Validation of names, host names, image references and durations.

use crate::text::{
    before_char, before_char_exec, chars_eq, chars_of, find_char, has_char, has_char_exec,
    has_line_break_or_nul, has_line_break_or_nul_exec, is_alnum, is_blank, is_blank_exec, is_digit,
    is_lower, lemma_find_char, split_once_exec, str_eq, sub_chars,
};
use vstd::prelude::*;

verus! {

// ---------------------------------------------------------------------------
// Specifications
// ---------------------------------------------------------------------------

/// Last index where `c` occurs.
pub open spec fn rfind_char(s: Seq<char>, c: char) -> Option<int>
    decreases s.len(),
{
    if s.len() == 0 {
        None
    } else if s.last() == c {
        Some(s.len() - 1)
    } else {
        rfind_char(s.drop_last(), c)
    }
}

/// `s` cut at every `c`, as `str::split` does.
pub open spec fn split_all(s: Seq<char>, c: char) -> Seq<Seq<char>>
    decreases s.len(),
{
    match find_char(s, c) {
        Some(i) => {
            if 0 <= i < s.len() {
                seq![s.take(i)] + split_all(s.skip(i + 1), c)
            } else {
                seq![s]
            }
        },
        None => seq![s],
    }
}

/// A Compose project name: a lowercase letter, then lowercase letters, digits,
/// `-` and `_`, at most 63 characters.
pub open spec fn valid_stack_name(name: Seq<char>) -> bool {
    &&& 0 < name.len() <= 63
    &&& is_lower(name[0])
    &&& forall|i: int|
        0 <= i < name.len() ==> is_lower(#[trigger] name[i]) || is_digit(name[i]) || name[i]
            == '-' || name[i] == '_'
}

/// A fully qualified host name as applications may use it: not empty, with a dot,
/// made of lowercase letters, digits, `-` and `.`.
pub open spec fn valid_host(host: Seq<char>) -> bool {
    &&& host.len() > 0
    &&& has_char(host, '.')
    &&& forall|i: int|
        0 <= i < host.len() ==> is_lower(#[trigger] host[i]) || is_digit(host[i]) || host[i]
            == '-' || host[i] == '.'
}

/// One label of a domain name.
pub open spec fn valid_domain_label(l: Seq<char>) -> bool {
    &&& 0 < l.len() <= 63
    &&& forall|i: int|
        0 <= i < l.len() ==> is_lower(#[trigger] l[i]) || is_digit(l[i]) || l[i] == '-'
    &&& is_alnum(l[0])
    &&& is_alnum(l.last())
}

/// A lowercase fully qualified domain name.
pub open spec fn valid_domain(d: Seq<char>) -> bool {
    &&& 0 < d.len() <= 253
    &&& has_char(d, '.')
    &&& forall|i: int| 0 <= i < split_all(d, '.').len() ==> valid_domain_label(#[trigger] split_all(d, '.')[i])
}

/// An image tag: a letter, digit or `_`, then letters, digits, `_`, `.` and `-`,
/// at most 128 characters, and not `latest`.
pub open spec fn valid_image_version(v: Seq<char>) -> bool {
    &&& 0 < v.len() <= 128
    &&& (is_alnum(v[0]) || v[0] == '_')
    &&& forall|i: int|
        0 <= i < v.len() ==> is_alnum(#[trigger] v[i]) || v[i] == '_' || v[i] == '.' || v[i]
            == '-'
    &&& v != "latest"@
}

/// The repository part of an image reference: the reference without its digest and
/// without a `:tag` after the last `/`; none when that part is empty.
pub open spec fn image_repository(image: Seq<char>) -> Option<Seq<char>> {
    let name = before_char(image, '@');
    let start = match rfind_char(name, '/') {
        Some(i) => i + 1,
        None => 0,
    };
    let repo = match rfind_char(name.skip(start), ':') {
        Some(j) => name.take(start + j),
        None => name,
    };
    if repo.len() == 0 {
        None
    } else {
        Some(repo)
    }
}

/// An image repository given without a tag or digest.
pub open spec fn valid_image_repository(image: Seq<char>) -> bool {
    &&& !is_blank(image)
    &&& !has_line_break_or_nul(image)
    &&& !has_char(image, '@')
    &&& image_repository(image) == Some(image)
}

/// The tag of an image reference without a digest.
pub open spec fn current_tag(image: Seq<char>) -> Option<Seq<char>> {
    if has_char(image, '@') {
        None
    } else {
        match image_repository(image) {
            Some(repo) => {
                let rest = image.skip(repo.len() as int);
                if rest.len() > 1 && rest[0] == ':' {
                    Some(rest.drop_first())
                } else {
                    None
                }
            },
            None => None,
        }
    }
}

/// A duration such as `30s`: not blank, without spaces, line breaks or NUL.
pub open spec fn valid_duration(v: Seq<char>) -> bool {
    !is_blank(v) && !has_line_break_or_nul(v) && !has_char(v, ' ')
}

// ---------------------------------------------------------------------------
// Lemmas
// ---------------------------------------------------------------------------

pub proof fn lemma_rfind_char(s: Seq<char>, c: char)
    ensures
        match rfind_char(s, c) {
            Some(k) => 0 <= k < s.len() && s[k] == c && forall|j: int| k < j < s.len() ==> s[j] != c,
            None => forall|j: int| 0 <= j < s.len() ==> s[j] != c,
        },
    decreases s.len(),
{
    if s.len() > 0 && s.last() != c {
        lemma_rfind_char(s.drop_last(), c);
        assert(forall|j: int| 0 <= j < s.len() - 1 ==> s.drop_last()[j] == s[j]);
    }
}

/// Splitting gives at least one piece.
pub proof fn lemma_split_all_len(s: Seq<char>, c: char)
    ensures
        split_all(s, c).len() >= 1,
    decreases s.len(),
{
    lemma_find_char(s, c);
    match find_char(s, c) {
        Some(i) => {
            if 0 <= i < s.len() {
                lemma_split_all_len(s.skip(i + 1), c);
            }
        },
        None => {},
    }
}

/// A character that does not occur is not found from the end.
pub proof fn lemma_rfind_char_none(s: Seq<char>, c: char)
    requires
        forall|j: int| 0 <= j < s.len() ==> s[j] != c,
    ensures
        rfind_char(s, c) is None,
{
    lemma_rfind_char(s, c);
}

// ---------------------------------------------------------------------------
// Executable checks
// ---------------------------------------------------------------------------

/// Last index of `c` in `s`.
pub fn rfind_char_exec(s: &[char], c: char) -> (r: Option<usize>)
    ensures
        match r {
            Some(i) => rfind_char(s@, c) == Some(i as int),
            None => rfind_char(s@, c) is None,
        },
{
    let mut n: usize = s.len();
    assert(s@.take(n as int) =~= s@);
    while n > 0
        invariant
            n <= s.len(),
            rfind_char(s@, c) == rfind_char(s@.take(n as int), c),
        decreases n,
    {
        assert(s@.take(n as int).drop_last() =~= s@.take(n - 1));
        if s[n - 1] == c {
            return Some(n - 1);
        }
        n = n - 1;
    }
    None
}

/// `s` cut at every `c`.
pub fn split_all_exec(s: &[char], c: char) -> (r: Vec<Vec<char>>)
    ensures
        r@.len() == split_all(s@, c).len(),
        forall|i: int| 0 <= i < r@.len() ==> (#[trigger] r@[i])@ == split_all(s@, c)[i],
{
    let mut out: Vec<Vec<char>> = Vec::new();
    let mut rest: Vec<char> = sub_chars(s, 0, s.len());
    let ghost done: Seq<Seq<char>> = Seq::empty();
    assert(rest@ =~= s@);
    loop
        invariant
            out@.len() == done.len(),
            forall|i: int| 0 <= i < out@.len() ==> (#[trigger] out@[i])@ == done[i],
            split_all(s@, c) == done + split_all(rest@, c),
        decreases rest@.len(),
    {
        proof {
            lemma_find_char(rest@, c);
        }
        match split_once_exec(&rest, c) {
            Some((a, b)) => {
                proof {
                    done = done.push(a@);
                    assert(split_all(rest@, c) == seq![a@] + split_all(b@, c));
                    assert(done.drop_last() + seq![a@] =~= done);
                }
                out.push(a);
                rest = b;
            },
            None => {
                proof {
                    assert(split_all(rest@, c) == seq![rest@]);
                    done = done.push(rest@);
                }
                out.push(rest);
                assert(split_all(s@, c) =~= done);
                return out;
            },
        }
    }
}

/// Whether `name` is a valid Compose project name.
pub fn valid_stack_name_exec(name: &str) -> (r: bool)
    ensures
        r == valid_stack_name(name@),
{
    let cs = chars_of(name);
    if cs.len() == 0 || cs.len() > 63 {
        return false;
    }
    if !('a' <= cs[0] && cs[0] <= 'z') {
        return false;
    }
    let mut i: usize = 0;
    while i < cs.len()
        invariant
            i <= cs.len(),
            cs@ == name@,
            forall|j: int|
                0 <= j < i ==> is_lower(#[trigger] cs@[j]) || is_digit(cs@[j]) || cs@[j] == '-'
                    || cs@[j] == '_',
        decreases cs.len() - i,
    {
        let c = cs[i];
        if !(('a' <= c && c <= 'z') || ('0' <= c && c <= '9') || c == '-' || c == '_') {
            return false;
        }
        i = i + 1;
    }
    true
}

/// Whether `host` is a valid fully qualified host name.
pub fn valid_host_exec(host: &str) -> (r: bool)
    ensures
        r == valid_host(host@),
{
    let cs = chars_of(host);
    if cs.len() == 0 || !has_char_exec(&cs, '.') {
        return false;
    }
    let mut i: usize = 0;
    while i < cs.len()
        invariant
            i <= cs.len(),
            cs@ == host@,
            forall|j: int|
                0 <= j < i ==> is_lower(#[trigger] cs@[j]) || is_digit(cs@[j]) || cs@[j] == '-'
                    || cs@[j] == '.',
        decreases cs.len() - i,
    {
        let c = cs[i];
        if !(('a' <= c && c <= 'z') || ('0' <= c && c <= '9') || c == '-' || c == '.') {
            return false;
        }
        i = i + 1;
    }
    true
}

/// Whether `c` is an ASCII letter or digit.
pub fn is_alnum_exec(c: char) -> (r: bool)
    ensures
        r == is_alnum(c),
{
    ('a' <= c && c <= 'z') || ('A' <= c && c <= 'Z') || ('0' <= c && c <= '9')
}

fn valid_domain_label_exec(l: &[char]) -> (r: bool)
    ensures
        r == valid_domain_label(l@),
{
    if l.len() == 0 || l.len() > 63 {
        return false;
    }
    let mut i: usize = 0;
    while i < l.len()
        invariant
            i <= l.len(),
            forall|j: int|
                0 <= j < i ==> is_lower(#[trigger] l@[j]) || is_digit(l@[j]) || l@[j] == '-',
        decreases l.len() - i,
    {
        let c = l[i];
        if !(('a' <= c && c <= 'z') || ('0' <= c && c <= '9') || c == '-') {
            return false;
        }
        i = i + 1;
    }
    is_alnum_exec(l[0]) && is_alnum_exec(l[l.len() - 1])
}

/// Whether `d` is a valid lowercase fully qualified domain name.
pub fn valid_domain_exec(d: &str) -> (r: bool)
    ensures
        r == valid_domain(d@),
{
    let cs = chars_of(d);
    if cs.len() == 0 || cs.len() > 253 || !has_char_exec(&cs, '.') {
        return false;
    }
    let labels = split_all_exec(&cs, '.');
    let mut i: usize = 0;
    while i < labels.len()
        invariant
            i <= labels@.len(),
            cs@ == d@,
            labels@.len() == split_all(cs@, '.').len(),
            forall|j: int| 0 <= j < labels@.len() ==> (#[trigger] labels@[j])@ == split_all(cs@, '.')[j],
            forall|j: int| 0 <= j < i ==> valid_domain_label(#[trigger] split_all(cs@, '.')[j]),
        decreases labels.len() - i,
    {
        if !valid_domain_label_exec(&labels[i]) {
            return false;
        }
        i = i + 1;
    }
    true
}

/// Whether `v` is a valid, explicit image tag.
pub fn valid_image_version_exec(v: &str) -> (r: bool)
    ensures
        r == valid_image_version(v@),
{
    let cs = chars_of(v);
    if cs.len() == 0 || cs.len() > 128 {
        return false;
    }
    if !(is_alnum_exec(cs[0]) || cs[0] == '_') {
        return false;
    }
    let mut i: usize = 0;
    while i < cs.len()
        invariant
            i <= cs.len(),
            cs@ == v@,
            forall|j: int|
                0 <= j < i ==> is_alnum(#[trigger] cs@[j]) || cs@[j] == '_' || cs@[j] == '.'
                    || cs@[j] == '-',
        decreases cs.len() - i,
    {
        let c = cs[i];
        if !(is_alnum_exec(c) || c == '_' || c == '.' || c == '-') {
            return false;
        }
        i = i + 1;
    }
    !str_eq(v, "latest")
}

/// The repository part of an image reference.
pub fn image_repository_exec(image: &[char]) -> (r: Option<Vec<char>>)
    ensures
        match r {
            Some(x) => image_repository(image@) == Some(x@),
            None => image_repository(image@) is None,
        },
{
    let name = before_char_exec(image, '@');
    proof {
        lemma_rfind_char(name@, '/');
    }
    let start: usize = match rfind_char_exec(&name, '/') {
        Some(i) => {
            assert(i < name.len());
            i + 1
        },
        None => 0,
    };
    let tail = sub_chars(&name, start, name.len());
    assert(tail@ =~= name@.skip(start as int));
    proof {
        lemma_rfind_char(tail@, ':');
    }
    let repo = match rfind_char_exec(&tail, ':') {
        Some(j) => sub_chars(&name, 0, start + j),
        None => name,
    };
    proof {
        if rfind_char(tail@, ':') is Some {
            assert(repo@ =~= name@.take(start + rfind_char(tail@, ':').unwrap()));
        }
    }
    if repo.len() == 0 {
        None
    } else {
        Some(repo)
    }
}

/// Whether `image` names a repository without a tag or digest.
pub fn valid_image_repository_exec(image: &str) -> (r: bool)
    ensures
        r == valid_image_repository(image@),
{
    let cs = chars_of(image);
    if is_blank_exec(&cs) || has_line_break_or_nul_exec(&cs) || has_char_exec(&cs, '@') {
        return false;
    }
    match image_repository_exec(&cs) {
        Some(repo) => chars_eq(&repo, &cs),
        None => false,
    }
}

/// The tag of an image reference without a digest.
pub fn current_tag_exec(image: &[char]) -> (r: Option<Vec<char>>)
    ensures
        match r {
            Some(x) => current_tag(image@) == Some(x@),
            None => current_tag(image@) is None,
        },
{
    if has_char_exec(image, '@') {
        return None;
    }
    proof {
        lemma_find_char(image@, '@');
        assert(before_char(image@, '@') == image@);
    }
    match image_repository_exec(image) {
        Some(repo) => {
            proof {
                let name = image@;
                let start = match rfind_char(name, '/') {
                    Some(i) => i + 1,
                    None => 0,
                };
                lemma_rfind_char(name, '/');
                lemma_rfind_char(name.skip(start), ':');
            }
            if repo.len() <= image.len() && image.len() - repo.len() > 1 && image[repo.len()] == ':' {
                let tag = sub_chars(image, repo.len() + 1, image.len());
                assert(tag@ =~= image@.skip(repo@.len() as int).drop_first());
                Some(tag)
            } else {
                None
            }
        },
        None => None,
    }
}

/// Whether `v` is a valid duration.
pub fn valid_duration_exec(v: &str) -> (r: bool)
    ensures
        r == valid_duration(v@),
{
    let cs = chars_of(v);
    !is_blank_exec(&cs) && !has_line_break_or_nul_exec(&cs) && !has_char_exec(&cs, ' ')
}

} // verus!
