//! Password hashes: bcrypt with a random URL-safe salt, and their check.

use vstd::prelude::*;
use crate::decimal::digit_char;
use crate::ids::{is_url_safe_char, random_url_safe_id};

verus! {

broadcast use vstd::string::group_string_axioms;

/// The bcrypt cost that passwords are hashed with (bcrypt's `DEFAULT_COST`).
pub const HASH_COST: u32 = 12;

/// The hash text that `bcrypt::hash_with_salt(password, cost, salt)` gives,
/// written out by its `to_string`; `None` when bcrypt refuses.
pub uninterp spec fn bcrypt_hash(password: Seq<u8>, cost: u32, salt: Seq<u8>) -> Option<Seq<char>>;

/// What `bcrypt::verify(password, hash)` answers: whether the password
/// matches the hash, or `None` when the hash cannot be read.
pub uninterp spec fn bcrypt_verify(password: Seq<u8>, hash: Seq<char>) -> Option<bool>;

/// Whether bcrypt can read the hash text `h` whatever password it is
/// checked against: `verify` never fails on it.
pub open spec fn hash_readable(h: Seq<char>) -> bool {
    forall|p: Seq<u8>| #[trigger] bcrypt_verify(p, h) is Some
}

/// `bcrypt::hash_with_salt` followed by `HashParts::to_string`. bcrypt
/// refuses only a cost outside 4..=31, and `verify` accepts the password
/// against the hash it made (bcrypt's own tests check both). The text it
/// writes (`$2y$`, the cost, 22 characters of salt, 31 of hash) is what
/// `verify` splits and decodes without error, and the cost it carries is
/// one `verify` hashes with, so `verify` answers on it for every password.
/// That text is 60 characters: `$2y$`, the cost in two digits, `$`, then
/// the 22 characters of salt and 31 of hash.
#[verifier::external_body]
fn bcrypt_hash_with_salt(password: &[u8], cost: u32, salt: [u8; 16]) -> (r: Option<String>)
    ensures
        match r {
            Some(h) => bcrypt_hash(password@, cost, salt@) == Some(h@),
            None => bcrypt_hash(password@, cost, salt@) is None,
        },
        4 <= cost <= 31 ==> r is Some,
        r matches Some(h) ==> bcrypt_verify(password@, h@) == Some(true),
        r matches Some(h) ==> forall|p: Seq<u8>| #[trigger] bcrypt_verify(p, h@) is Some,
        r matches Some(h) ==> h@.len() == 60 && h@[0] == '$' && h@[1] == '2' && h@[2] == 'y'
            && h@[3] == '$' && h@[4] == digit_char((cost / 10) as int) && h@[5] == digit_char(
            (cost % 10) as int,
        ) && h@[6] == '$',
{
    match bcrypt::hash_with_salt(password, cost, salt) {
        Ok(parts) => Some(parts.to_string()),
        Err(_) => None,
    }
}

/// `bcrypt::verify`, with its error (an unreadable hash) as `None`.
#[verifier::external_body]
fn bcrypt_verify_password(password: &[u8], hash: &str) -> (r: Option<bool>)
    ensures
        r == bcrypt_verify(password@, hash@),
{
    match bcrypt::verify(password, hash) {
        Ok(b) => Some(b),
        Err(_) => None,
    }
}

/// Whether `h` has the shape of the hashes the service stores: 60
/// characters starting `$2y$12$`.
pub open spec fn is_service_hash_text(h: Seq<char>) -> bool {
    h.len() == 60 && h.take(7) == seq!['$', '2', 'y', '$', '1', '2', '$']
}

/// Whether `salt` is a salt the service draws: 16 URL-safe characters.
pub open spec fn is_salt(salt: Seq<u8>) -> bool {
    salt.len() == 16 && forall|i: int| 0 <= i < 16 ==> is_url_safe_char(#[trigger] salt[i] as char)
}

/// A random salt: the bytes of a 16-character URL-safe identifier.
pub fn random_salt() -> (salt: [u8; 16])
    ensures
        is_salt(salt@),
{
    let id = random_url_safe_id(16);
    let text = id.as_str();
    assert(vstd::string::is_ascii(text)) by {
        assert forall|i: int| 0 <= i < text@.len() implies '\0' <= #[trigger] text@[i] <= '\u{7f}' by {
            assert(is_url_safe_char(text@[i]));
        }
    }
    let b = text.as_bytes();
    assert(b@.len() == 16);
    let salt = [b[0], b[1], b[2], b[3], b[4], b[5], b[6], b[7], b[8], b[9], b[10], b[11], b[12], b[13], b[14], b[15]];
    assert forall|i: int| 0 <= i < 16 implies is_url_safe_char(#[trigger] salt@[i] as char) by {
        assert(salt@[i] == b@[i]);
        assert(b@[i] == text@[i] as u8);
        assert(is_url_safe_char(text@[i]));
    }
    salt
}

/// The bytes of a password text, as bcrypt reads it (its UTF-8 encoding).
pub open spec fn password_bytes(password: Seq<char>) -> Seq<u8> {
    vstd::utf8::encode_utf8(password)
}

/// The hash of `password` with `salt` at the service's cost. It always
/// exists, and `check_password` accepts `password` against it.
pub fn hash_password_with_salt(password: &str, salt: [u8; 16]) -> (h: String)
    ensures
        bcrypt_hash(password_bytes(password@), HASH_COST, salt@) == Some(h@),
        bcrypt_verify(password_bytes(password@), h@) == Some(true),
        hash_readable(h@),
        is_service_hash_text(h@),
{
    let h = bcrypt_hash_with_salt(password.as_bytes(), HASH_COST, salt).unwrap();
    assert(h@.take(7) =~= seq!['$', '2', 'y', '$', '1', '2', '$']);
    h
}

/// Whether `h` is a hash the service may store for `password`: its bcrypt
/// hash at the service's cost with some salt that the service draws.
pub open spec fn is_hash_of(password: Seq<u8>, h: Seq<char>) -> bool {
    exists|salt: Seq<u8>| is_salt(salt) && #[trigger] bcrypt_hash(password, HASH_COST, salt) == Some(h)
}

/// The hash of `password` with a fresh random salt.
pub fn hash_password(password: &str) -> (h: String)
    ensures
        is_hash_of(password_bytes(password@), h@),
        bcrypt_verify(password_bytes(password@), h@) == Some(true),
        hash_readable(h@),
        is_service_hash_text(h@),
{
    let salt = random_salt();
    hash_password_with_salt(password, salt)
}

/// Whether `password` matches the stored `hash`; `None` when the hash
/// cannot be read.
pub fn check_password(password: &str, hash: &str) -> (r: Option<bool>)
    ensures
        r == bcrypt_verify(password_bytes(password@), hash@),
{
    bcrypt_verify_password(password.as_bytes(), hash)
}

} // verus!
