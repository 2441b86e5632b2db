//! Where the daemon listens, and how TCP requests are authenticated.

use crate::text::{chars_of, starts_with, starts_with_exec, string_of, sub_chars};
use vstd::prelude::*;

verus! {

/// Where the daemon listens.
pub enum ListenTarget {
    /// A Unix domain socket at this path.
    Unix(String),
    /// A TCP address.
    Tcp(String),
}

/// `s` with every leading `p` removed, as `str::trim_start_matches` gives it.
pub open spec fn trim_prefixes(s: Seq<char>, p: Seq<char>) -> Seq<char>
    decreases s.len(),
{
    if p.len() > 0 && starts_with(s, p) {
        trim_prefixes(s.skip(p.len() as int), p)
    } else {
        s
    }
}

/// The listen address `unix://PATH` is a socket at `PATH`; any other address is TCP,
/// without its leading `tcp://` prefixes.
pub open spec fn listen_target_of(listen: Seq<char>) -> (bool, Seq<char>) {
    if starts_with(listen, "unix://"@) {
        (true, listen.skip("unix://"@.len() as int))
    } else {
        (false, trim_prefixes(listen, "tcp://"@))
    }
}

/// Where a listen address points.
pub fn listen_target(listen: &str) -> (r: ListenTarget)
    ensures
        match r {
            ListenTarget::Unix(p) => listen_target_of(listen@) == (true, p@),
            ListenTarget::Tcp(a) => listen_target_of(listen@) == (false, a@),
        },
{
    let cs = chars_of(listen);
    let unix = chars_of("unix://");
    if starts_with_exec(&cs, &unix) {
        let rest = sub_chars(&cs, unix.len(), cs.len());
        assert(rest@ =~= listen@.skip(unix@.len() as int));
        return ListenTarget::Unix(string_of(&rest));
    }
    let tcp = chars_of("tcp://");
    proof {
        reveal_strlit("tcp://");
    }
    let mut rest = sub_chars(&cs, 0, cs.len());
    assert(rest@ =~= listen@);
    while starts_with_exec(&rest, &tcp)
        invariant
            tcp@ == "tcp://"@,
            tcp@.len() > 0,
            trim_prefixes(rest@, tcp@) == trim_prefixes(listen@, tcp@),
        decreases rest@.len(),
    {
        let next = sub_chars(&rest, tcp.len(), rest.len());
        assert(next@ =~= rest@.skip(tcp@.len() as int));
        rest = next;
    }
    ListenTarget::Tcp(string_of(&rest))
}

/// Whether two byte strings are equal, compared in a loop whose length depends only
/// on the longer input, so that timing does not reveal where they differ.
pub fn constant_time_eq(left: &[u8], right: &[u8]) -> (r: bool)
    ensures
        r == (left@ == right@),
{
    let mut difference: usize = left.len() ^ right.len();
    let length = if left.len() > right.len() {
        left.len()
    } else {
        right.len()
    };
    proof {
        let a = left.len();
        let b = right.len();
        assert((a ^ b) == 0usize <==> a == b) by (bit_vector);
    }
    let mut index: usize = 0;
    while index < length
        invariant
            index <= length,
            length == if left@.len() > right@.len() {
                left@.len()
            } else {
                right@.len()
            },
            (difference == 0) == (left@.len() == right@.len() && forall|k: int|
                0 <= k < index ==> left@[k] == right@[k]),
        decreases length - index,
    {
        let l: u8 = if index < left.len() {
            left[index]
        } else {
            0
        };
        let r: u8 = if index < right.len() {
            right[index]
        } else {
            0
        };
        let x: u8 = l ^ r;
        let d0 = difference;
        difference = difference | (x as usize);
        proof {
            assert((l ^ r) == 0u8 <==> l == r) by (bit_vector);
            assert(((d0 | (x as usize)) == 0usize) <==> (d0 == 0usize && x == 0u8)) by (bit_vector);
            if left@.len() == right@.len() {
                assert(l == left@[index as int] && r == right@[index as int]);
            }
        }
        index = index + 1;
    }
    proof {
        if difference == 0 {
            assert(left@ =~= right@);
        }
    }
    difference == 0
}

/// Whether a TCP request's `authorization` value carries the expected bearer token.
pub fn authorize(header: Option<&str>, expected: &str) -> (r: bool)
    ensures
        r == (header matches Some(h) && starts_with(h@, "Bearer "@) && vstd::utf8::encode_utf8(
            h@.skip("Bearer "@.len() as int),
        ) == vstd::utf8::encode_utf8(expected@)),
{
    match header {
        Some(h) => {
            let cs = chars_of(h);
            let prefix = chars_of("Bearer ");
            if !starts_with_exec(&cs, &prefix) {
                return false;
            }
            let rest = sub_chars(&cs, prefix.len(), cs.len());
            assert(rest@ =~= h@.skip(prefix@.len() as int));
            let token = string_of(&rest);
            constant_time_eq(token.as_str().as_bytes(), expected.as_bytes())
        },
        None => false,
    }
}

} // verus!
