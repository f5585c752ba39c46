//! Short identifiers: random strings over a URL-safe alphabet.
use vstd::prelude::*;

verus! {

/// Shortest identifier that is generated.
pub const MIN_ID_LEN: usize = 1;

/// Longest identifier that is generated.
pub const MAX_ID_LEN: usize = 7;

/// A character of the URL-safe alphabet: `_`, `-`, ASCII digits and ASCII letters.
pub open spec fn is_safe_char(c: char) -> bool {
    c == '_' || c == '-' || ('0' <= c && c <= '9') || ('a' <= c && c <= 'z') || ('A' <= c
        && c <= 'Z')
}

/// A well-formed identifier: between `MIN_ID_LEN` and `MAX_ID_LEN` safe characters.
pub open spec fn is_identifier(s: Seq<char>) -> bool {
    MIN_ID_LEN <= s.len() <= MAX_ID_LEN && forall|i: int|
        0 <= i < s.len() ==> is_safe_char(#[trigger] s[i])
}

/// Relies on rand's `Rng::gen_range` on `thread_rng()`: a value of the inclusive
/// range `lo..=hi` (it panics on an empty range).
#[verifier::external_body]
fn random_length(lo: usize, hi: usize) -> (r: usize)
    requires
        lo <= hi,
    ensures
        lo <= r <= hi,
{
    rand::Rng::gen_range(&mut rand::thread_rng(), lo..=hi)
}

/// Relies on `nanoid::format` with `nanoid::rngs::default` and the alphabet
/// `nanoid::alphabet::SAFE`: exactly `size` characters, each one of that alphabet
/// (64 ASCII characters, so no byte is rejected). For `size == 0` it never returns.
#[verifier::external_body]
fn random_safe_string(size: usize) -> (r: String)
    requires
        size >= 1,
    ensures
        r@.len() == size,
        forall|i: int| 0 <= i < r@.len() ==> is_safe_char(#[trigger] r@[i]),
{
    nanoid::format(nanoid::rngs::default, &nanoid::alphabet::SAFE, size)
}

/// Draws a candidate identifier: a length uniformly from
/// `MIN_ID_LEN..=MAX_ID_LEN`, then that many safe characters.
pub fn generate_id() -> (r: String)
    ensures
        is_identifier(r@),
{
    let len = random_length(MIN_ID_LEN, MAX_ID_LEN);
    random_safe_string(len)
}

} // verus!
