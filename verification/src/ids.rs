//! Random identifiers made of URL-safe characters (salts, activation links).

use vstd::prelude::*;

verus! {

/// Whether `c` is one of the 64 URL-safe characters `_`, `-`, `0-9`, `a-z`, `A-Z`.
pub open spec fn is_url_safe_char(c: char) -> bool {
    c == '_' || c == '-' || ('0' <= c && c <= '9') || ('a' <= c && c <= 'z') || ('A' <= c
        && c <= 'Z')
}

/// Whether `s` is a random identifier of `size` URL-safe characters.
pub open spec fn is_url_safe_id(s: Seq<char>, size: nat) -> bool {
    s.len() == size && forall|i: int| 0 <= i < s.len() ==> is_url_safe_char(#[trigger] s[i])
}

/// A random identifier of `size` characters: `nanoid::format` with the
/// default random source and the `SAFE` alphabet, which is what
/// `nanoid!(size)` expands to. It is random: only its shape is stated.
#[verifier::external_body]
pub(crate) fn random_url_safe_id(size: usize) -> (r: String)
    requires
        0 < size <= usize::MAX / 8,
    ensures
        is_url_safe_id(r@, size as nat),
{
    nanoid::format(nanoid::rngs::default, &nanoid::alphabet::SAFE, size)
}

} // verus!
