//! Short-code generation: fixed-length random identifiers over the
//! URL-safe alphabet.

use vstd::prelude::*;

verus! {

/// Length of every generated short code.
pub const CODE_LEN: usize = 10;

/// The URL-safe alphabet: ASCII letters, digits, `_` and `-`.
pub open spec fn url_safe_char(c: char) -> bool {
    ('a' <= c && c <= 'z') || ('A' <= c && c <= 'Z') || ('0' <= c && c <= '9') || c == '_' || c
        == '-'
}

/// A well-formed short code: exactly `CODE_LEN` characters, all drawn from
/// the URL-safe alphabet.
pub open spec fn valid_code(s: Seq<char>) -> bool {
    &&& s.len() == CODE_LEN
    &&& forall|i: int| 0 <= i < s.len() ==> url_safe_char(s[i])
}

/// Relies on `nanoid::format` with the crate's URL-safe alphabet
/// `nanoid::alphabet::SAFE` (the 64 characters `A`-`Z`, `a`-`z`, `0`-`9`,
/// `_` and `-`) and its default cryptographically secure random source
/// `nanoid::rngs::default`: the result holds exactly `len` characters, each
/// drawn from that alphabet. The result is random, so nothing more is
/// stated of it.
#[verifier::external_body]
fn random_code(len: usize) -> (r: String)
    ensures
        r@.len() == len,
        forall|i: int| 0 <= i < r@.len() ==> url_safe_char(r@[i]),
{
    nanoid::format(nanoid::rngs::default, &nanoid::alphabet::SAFE, len)
}

/// Produce a fresh random short code of length `CODE_LEN` over the URL-safe
/// alphabet. Distinct calls draw independently from the shared random
/// source, so collisions are possible and left to the caller to handle.
pub fn generate() -> (r: String)
    ensures
        valid_code(r@),
{
    random_code(CODE_LEN)
}

} // verus!
