//! The bearer token that authenticates TCP clients.

use crate::docker::{utf8_len, utf8_len_exec};
use crate::error::InvalidInput;
use crate::text::{
    chars_of, is_digit, is_lower, is_upper, string_of, trim, trim_chars, trim_end, trim_start,
};
use vstd::prelude::*;

verus! {

/// A number below `bound`, drawn by `rand::random_range` from the thread-local
/// generator; the crate documents a uniform draw from the half-open range, which
/// must not be empty.
#[verifier::external_body]
fn random_below(bound: usize) -> (r: usize)
    requires
        bound > 0,
    ensures
        r < bound,
{
    rand::random_range(0..bound)
}

/// A character that tokens are made of: an ASCII letter or digit.
pub open spec fn token_char(c: char) -> bool {
    is_lower(c) || is_upper(c) || is_digit(c)
}

/// The characters that tokens are drawn from.
pub open spec fn token_alphabet() -> Seq<char> {
    "abcdefghijklmnopqrstuvwxyzABCDEFGHIJKLMNOPQRSTUVWXYZ0123456789"@
}

/// A new random token of 64 ASCII letters and digits.
pub fn generate_auth_token() -> (r: String)
    ensures
        r@.len() == 64,
        forall|i: int| 0 <= i < 64 ==> token_alphabet().contains(#[trigger] r@[i]),
{
    let alphabet = chars_of("abcdefghijklmnopqrstuvwxyzABCDEFGHIJKLMNOPQRSTUVWXYZ0123456789");
    proof {
        reveal_strlit("abcdefghijklmnopqrstuvwxyzABCDEFGHIJKLMNOPQRSTUVWXYZ0123456789");
    }
    let mut out: Vec<char> = Vec::new();
    let mut i: usize = 0;
    while i < 64
        invariant
            i <= 64,
            out@.len() == i,
            alphabet@ == token_alphabet(),
            alphabet@.len() == 62,
            forall|j: int| 0 <= j < i ==> token_alphabet().contains(#[trigger] out@[j]),
        decreases 64 - i,
    {
        let k = random_below(alphabet.len());
        let c = alphabet[k];
        assert(token_alphabet()[k as int] == c);
        out.push(c);
        i = i + 1;
    }
    string_of(&out)
}

/// Every character of a text counts at least one UTF-8 byte.
proof fn lemma_utf8_len_at_least_chars(s: Seq<char>)
    ensures
        utf8_len(s) >= s.len(),
    decreases s.len(),
{
    if s.len() > 0 {
        lemma_utf8_len_at_least_chars(s.drop_last());
    }
}

/// A token that the daemon generated is accepted back unchanged once stored: it has
/// no surrounding whitespace to trim and is long enough.
pub proof fn law_generated_token_reads_back(t: Seq<char>)
    requires
        t.len() == 64,
        forall|i: int| 0 <= i < 64 ==> token_alphabet().contains(#[trigger] t[i]),
    ensures
        trim(t) == t,
        utf8_len(trim(t)) >= 32,
{
    reveal_strlit("abcdefghijklmnopqrstuvwxyzABCDEFGHIJKLMNOPQRSTUVWXYZ0123456789");
    let a = token_alphabet();
    assert(forall|k: int| 0 <= k < a.len() ==> token_char(#[trigger] a[k]));
    assert(token_char(t[0]));
    assert(token_char(t[63]));
    assert(trim_start(t) == t);
    assert(trim_end(t) == t);
    lemma_utf8_len_at_least_chars(t);
}

/// A generated token, stored with the line break that ends the token file, reads
/// back as the same token: the stored text trims to it and is long enough.
pub proof fn law_stored_token_reads_back(t: Seq<char>)
    requires
        t.len() == 64,
        forall|i: int| 0 <= i < 64 ==> token_alphabet().contains(#[trigger] t[i]),
    ensures
        trim(t + "\n"@) == t,
        utf8_len(trim(t + "\n"@)) >= 32,
{
    reveal_strlit("\n");
    law_generated_token_reads_back(t);
    reveal_strlit("abcdefghijklmnopqrstuvwxyzABCDEFGHIJKLMNOPQRSTUVWXYZ0123456789");
    let a = token_alphabet();
    assert(forall|k: int| 0 <= k < a.len() ==> token_char(#[trigger] a[k]));
    let s = t + "\n"@;
    assert(token_char(t[0]));
    assert(s[0] == t[0]);
    assert(trim_start(s) == s);
    assert(s.last() == '\n');
    assert(s.drop_last() =~= t);
    assert(trim_end(s) == trim_end(t));
}

/// The token to use: the stored one, trimmed, which must be at least 32 bytes long;
/// a new random token when none is stored, which the caller then stores.
pub fn ensure_auth_token(existing: Option<&str>) -> (r: Result<String, InvalidInput>)
    ensures
        match existing {
            Some(content) => match r {
                Ok(t) => t@ == trim(content@) && utf8_len(trim(content@)) >= 32,
                Err(e) => utf8_len(trim(content@)) < 32 && e.0@ == "认证令牌无效或过短"@,
            },
            None => (r matches Ok(t) && t@.len() == 64 && forall|i: int|
                0 <= i < 64 ==> token_alphabet().contains(#[trigger] t@[i])),
        },
{
    match existing {
        Some(content) => {
            let cs = chars_of(content);
            let token = trim_chars(&cs);
            if utf8_len_exec(&token) < 32 {
                return Err(InvalidInput::new("认证令牌无效或过短"));
            }
            Ok(string_of(&token))
        },
        None => Ok(generate_auth_token()),
    }
}

} // verus!
