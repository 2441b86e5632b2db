//! Decisions of the single-file installation: who runs it, what it may overwrite,
//! and what it writes.

use crate::error::InvalidInput;
use crate::names::{split_all, split_all_exec};
use crate::text::{
    chars_of, decimal, decimal_string, hex_fixed, hex_fixed_chars, is_whitespace,
    is_whitespace_exec, parse_bounded, parse_bounded_exec, replace_all, starts_with,
    starts_with_exec, string_of, sub_chars,
};
use vstd::prelude::*;

verus! {

/// A random 64-bit number drawn by `rand::random` from the thread-local generator;
/// any value may come back, so nothing is stated of it.
#[verifier::external_body]
fn random_u64() -> u64 {
    rand::random::<u64>()
}

// ---------------------------------------------------------------------------
// Specifications
// ---------------------------------------------------------------------------

/// The length of the run of non-whitespace characters at the start of `s`.
pub open spec fn word_len(s: Seq<char>) -> nat
    decreases s.len(),
{
    if s.len() == 0 || is_whitespace(s[0]) {
        0
    } else {
        1 + word_len(s.drop_first())
    }
}

/// A word is no longer than the text.
pub proof fn lemma_word_len(s: Seq<char>)
    ensures
        word_len(s) <= s.len(),
    decreases s.len(),
{
    if s.len() > 0 && !is_whitespace(s[0]) {
        lemma_word_len(s.drop_first());
    }
}

/// The whitespace-separated words of `s`, as `str::split_whitespace` yields them.
pub open spec fn words(s: Seq<char>) -> Seq<Seq<char>>
    decreases s.len(),
{
    if s.len() == 0 {
        Seq::empty()
    } else if is_whitespace(s[0]) {
        words(s.drop_first())
    } else {
        proof {
            lemma_word_len(s);
        }
        seq![s.take(word_len(s) as int)] + words(s.skip(word_len(s) as int))
    }
}

/// The first line that starts with `p`, without `p`.
pub open spec fn after_prefix(lines: Seq<Seq<char>>, p: Seq<char>) -> Option<Seq<char>>
    decreases lines.len(),
{
    if lines.len() == 0 {
        None
    } else if starts_with(lines[0], p) {
        Some(lines[0].skip(p.len() as int))
    } else {
        after_prefix(lines.drop_first(), p)
    }
}

/// The effective user id in a `/proc/self/status` text: the second number of its
/// `Uid:` line.
pub open spec fn effective_uid(status: Seq<char>) -> Option<nat> {
    match after_prefix(split_all(status, '\n'), "Uid:"@) {
        Some(rest) => if words(rest).len() >= 2 {
            parse_bounded(words(rest)[1], u32::MAX as nat)
        } else {
            None
        },
        None => None,
    }
}

// ---------------------------------------------------------------------------
// Lemmas
// ---------------------------------------------------------------------------

proof fn lemma_word_len_run(s: Seq<char>, n: int)
    requires
        0 <= n <= s.len(),
        forall|k: int| 0 <= k < n ==> !is_whitespace(#[trigger] s[k]),
        n == s.len() || is_whitespace(s[n]),
    ensures
        word_len(s) == n,
    decreases n,
{
    if n > 0 {
        let t = s.drop_first();
        assert forall|k: int| 0 <= k < n - 1 implies !is_whitespace(#[trigger] t[k]) by {
            assert(t[k] == s[k + 1]);
        }
        if n - 1 < t.len() {
            assert(t[n - 1] == s[n]);
        }
        lemma_word_len_run(t, n - 1);
    }
}

// ---------------------------------------------------------------------------
// Executable decisions
// ---------------------------------------------------------------------------

/// The whitespace-separated words of `s`.
fn words_exec(s: &[char]) -> (r: Vec<Vec<char>>)
    ensures
        r@.len() == words(s@).len(),
        forall|i: int| 0 <= i < r@.len() ==> (#[trigger] r@[i])@ == words(s@)[i],
{
    let mut out: Vec<Vec<char>> = Vec::new();
    let ghost done: Seq<Seq<char>> = Seq::empty();
    let mut i: usize = 0;
    assert(s@.skip(0) =~= s@);
    while i < s.len()
        invariant
            i <= s@.len(),
            out@.len() == done.len(),
            forall|k: int| 0 <= k < out@.len() ==> (#[trigger] out@[k])@ == done[k],
            words(s@) == done + words(s@.skip(i as int)),
        decreases s.len() - i,
    {
        let ghost here = s@.skip(i as int);
        assert(here[0] == s@[i as int]);
        if is_whitespace_exec(s[i]) {
            assert(here.drop_first() =~= s@.skip(i + 1));
            i = i + 1;
        } else {
            let mut j: usize = i;
            while j < s.len() && !is_whitespace_exec(s[j])
                invariant
                    i <= j <= s@.len(),
                    forall|k: int| i <= k < j ==> !is_whitespace(#[trigger] s@[k]),
                decreases s.len() - j,
            {
                j = j + 1;
            }
            proof {
                assert forall|k: int| 0 <= k < j - i implies !is_whitespace(#[trigger] here[k]) by {
                    assert(here[k] == s@[i + k]);
                }
                if j < s.len() {
                    assert(here[j - i] == s@[j as int]);
                }
                lemma_word_len_run(here, j - i);
            }
            let w = sub_chars(s, i, j);
            assert(w@ =~= here.take(j - i));
            assert(here.skip(j - i) =~= s@.skip(j as int));
            proof {
                done = done.push(w@);
            }
            out.push(w);
            assert(words(s@) =~= done + words(s@.skip(j as int)));
            i = j;
        }
    }
    assert(s@.skip(i as int) =~= Seq::<char>::empty());
    assert(done + Seq::<Seq<char>>::empty() =~= done);
    out
}

/// The effective user id in a `/proc/self/status` text.
pub fn parse_effective_uid(status: &str) -> (r: Option<u32>)
    ensures
        match r {
            Some(u) => effective_uid(status@) == Some(u as nat),
            None => effective_uid(status@) is None,
        },
{
    let cs = chars_of(status);
    let lines = split_all_exec(&cs, '\n');
    let prefix = chars_of("Uid:");
    let ghost ls = split_all(status@, '\n');
    let mut i: usize = 0;
    assert(ls.skip(0) =~= ls);
    while i < lines.len()
        invariant
            i <= lines@.len(),
            lines@.len() == ls.len(),
            ls == split_all(status@, '\n'),
            prefix@ == "Uid:"@,
            forall|m: int| 0 <= m < lines@.len() ==> (#[trigger] lines@[m])@ == ls[m],
            after_prefix(ls, "Uid:"@) == after_prefix(ls.skip(i as int), "Uid:"@),
        decreases lines.len() - i,
    {
        let ghost here = ls.skip(i as int);
        assert(here[0] == ls[i as int]);
        if starts_with_exec(&lines[i], &prefix) {
            let rest = sub_chars(&lines[i], prefix.len(), lines[i].len());
            assert(rest@ =~= ls[i as int].skip(prefix@.len() as int));
            let ws = words_exec(&rest);
            if ws.len() < 2 {
                return None;
            }
            return match parse_bounded_exec(&ws[1], u32::MAX as u64) {
                Some(v) => Some(v as u32),
                None => None,
            };
        }
        assert(here.drop_first() =~= ls.skip(i + 1));
        i = i + 1;
    }
    assert(ls.skip(i as int).len() == 0);
    None
}

/// `s` with every `from` replaced by `to`, scanning left to right.
fn replace_exec(s: &[char], from: &[char], to: &[char]) -> (r: Vec<char>)
    requires
        from@.len() > 0,
    ensures
        r@ == replace_all(s@, from@, to@),
{
    let mut out: Vec<char> = Vec::new();
    let mut i: usize = 0;
    assert(s@.skip(0) =~= s@);
    while i < s.len()
        invariant
            i <= s@.len(),
            from@.len() > 0,
            replace_all(s@, from@, to@) == out@ + replace_all(s@.skip(i as int), from@, to@),
        decreases s.len() - i,
    {
        let ghost here = s@.skip(i as int);
        let fits = from.len() <= s.len() - i;
        let mut matched = fits;
        if fits {
            let window = sub_chars(s, i, i + from.len());
            matched = crate::text::chars_eq(&window, from);
            assert(here.take(from@.len() as int) =~= window@);
        }
        if matched {
            crate::text::extend_chars(&mut out, to);
            assert(here.skip(from@.len() as int) =~= s@.skip(i + from@.len()));
            i = i + from.len();
        } else {
            assert(here[0] == s@[i as int]);
            out.push(s[i]);
            assert(here.drop_first() =~= s@.skip(i + 1));
            assert(out@ + replace_all(s@.skip(i + 1), from@, to@) =~= out@.drop_last() + (seq![s@[i as int]]
                + replace_all(here.drop_first(), from@, to@)));
            i = i + 1;
        }
    }
    assert(s@.skip(i as int) =~= Seq::<char>::empty());
    assert(out@ + Seq::<char>::empty() =~= out@);
    out
}

/// The systemd unit of a single-file installation: the packaged unit with the
/// packaged binary path replaced by `binary`.
pub fn render_unit(template: &str, binary: &str) -> (r: String)
    ensures
        r@ == replace_all(template@, "/usr/bin/nsetup"@, binary@),
{
    let t = chars_of(template);
    let from = chars_of("/usr/bin/nsetup");
    let to = chars_of(binary);
    proof {
        reveal_strlit("/usr/bin/nsetup");
    }
    let out = replace_exec(&t, &from, &to);
    string_of(&out)
}

/// Whether an installation target may be written: refused when it exists but is not
/// a plain file, or exists and `force` is not set. `existing` tells whether something
/// exists there and, if so, whether it is a plain file.
pub fn check_destination(existing: Option<bool>, force: bool) -> (r: Result<(), InvalidInput>)
    ensures
        r is Ok <==> match existing {
            Some(plain) => plain && force,
            None => true,
        },
        r matches Err(e) ==> e.0@ == (if existing == Some(false) {
            "拒绝覆盖非普通文件"@
        } else {
            "目标文件已存在；确认覆盖请使用 --force"@
        }),
{
    match existing {
        Some(false) => Err(InvalidInput::new("拒绝覆盖非普通文件")),
        Some(true) => if force {
            Ok(())
        } else {
            Err(InvalidInput::new("目标文件已存在；确认覆盖请使用 --force"))
        },
        None => Ok(()),
    }
}

/// The name of a temporary file beside `name`: `.NAME.tmp-PID-NONCE`, with a random
/// nonce written as 16 hexadecimal digits.
pub fn temporary_name(name: &str, pid: u32) -> (r: String)
    ensures
        exists|nonce: nat|
            nonce < 0x1_0000_0000_0000_0000 && r@ == "."@ + name@ + ".tmp-"@ + decimal(pid as nat) + "-"@
                + #[trigger] hex_fixed(nonce, 16),
{
    let nonce = random_u64();
    let mut out = String::from_str(".");
    out.append(name);
    out.append(".tmp-");
    let p = decimal_string(pid as u128);
    out.append(p.as_str());
    out.append("-");
    let h = hex_fixed_chars(nonce, 16);
    let hs = string_of(&h);
    out.append(hs.as_str());
    assert(out@ == "."@ + name@ + ".tmp-"@ + decimal(pid as nat) + "-"@ + hex_fixed(nonce as nat, 16));
    out
}

} // verus!
