//! Who is asking: the bearer token of the `Authorization` header and the
//! user id that a verified token names.

use vstd::prelude::*;
use crate::decimal::{parse_i32, push_char, spec_parse_i32};
use crate::decimal::{int_decimal, lemma_parse_i32_of_decimal};
use crate::error::{bad_request, ServiceError, is_bad_request};
use crate::token::{
    claims_json, decode_agrees, hs256_token, is_base64url_char, is_jwt_text, jwt_secret_text,
    lemma_issued_claims_come_back,
};

verus! {

/// The user on whose behalf a request is made.
#[derive(Debug, Clone, Copy, PartialEq, Eq)]
pub struct AuthUser {
    pub id: i32,
}

/// Whether a header byte is visible ASCII or a tab, the bytes that a
/// header value may hold to be read as text.
pub open spec fn is_visible_ascii(b: u8) -> bool {
    (32 <= b && b < 127) || b == 9
}

/// Whether a header value reads as text.
pub open spec fn header_is_text(h: Seq<u8>) -> bool {
    forall|i: int| 0 <= i < h.len() ==> is_visible_ascii(#[trigger] h[i])
}

/// The bytes of `"Bearer "`.
pub open spec fn bearer_marker() -> Seq<u8> {
    seq![66u8, 101u8, 97u8, 114u8, 101u8, 114u8, 32u8]
}

/// `"Bearer "` stands in `h` at index `i`.
pub open spec fn marker_at(h: Seq<u8>, i: int) -> bool {
    0 <= i && i + 7 <= h.len() && h.subrange(i, i + 7) == bearer_marker()
}

/// The first index at or after `from` where `"Bearer "` stands in `h`, or -1.
pub open spec fn find_marker(h: Seq<u8>, from: int) -> int
    decreases h.len() - from,
{
    if from < 0 || from + 7 > h.len() {
        -1
    } else if marker_at(h, from) {
        from
    } else {
        find_marker(h, from + 1)
    }
}

/// The second piece of `h` split at `"Bearer "`: what follows the first
/// `"Bearer "` up to the next one, or to the end; `None` when `h` holds none.
pub open spec fn bearer_token_bytes(h: Seq<u8>) -> Option<Seq<u8>> {
    let i = find_marker(h, 0);
    if i < 0 {
        None
    } else {
        let j = find_marker(h, i + 7);
        Some(h.subrange(i + 7, if j < 0 { h.len() as int } else { j }))
    }
}

/// ASCII bytes read as characters.
pub open spec fn ascii_text(b: Seq<u8>) -> Seq<char> {
    b.map_values(|x: u8| x as char)
}

/// The answer to an `Authorization` header `header` (`None` when absent):
/// the bearer token, or the error that the request is refused with.
pub open spec fn bearer_token_answer(header: Option<Seq<u8>>, r: Result<String, ServiceError>) -> bool {
    match header {
        None => is_bad_request(r, "No authorization header"@),
        Some(h) => if header_is_text(h) && bearer_token_bytes(h) is Some {
            r matches Ok(t) && t@ == ascii_text(bearer_token_bytes(h).unwrap())
        } else {
            is_bad_request(r, "Ivalid authorization header"@)
        },
    }
}

proof fn lemma_find_marker(h: Seq<u8>, from: int)
    ensures
        find_marker(h, from) == -1 || (from <= find_marker(h, from) && marker_at(
            h,
            find_marker(h, from),
        )),
    decreases h.len() - from,
{
    if !(from < 0 || from + 7 > h.len()) && !marker_at(h, from) {
        lemma_find_marker(h, from + 1);
    }
}

fn is_header_text(h: &[u8]) -> (r: bool)
    ensures
        r == header_is_text(h@),
{
    let mut i: usize = 0;
    while i < h.len()
        invariant
            i <= h.len(),
            forall|k: int| 0 <= k < i ==> is_visible_ascii(#[trigger] h@[k]),
        decreases h.len() - i,
    {
        let b = h[i];
        if !((32 <= b && b < 127) || b == 9) {
            return false;
        }
        i = i + 1;
    }
    true
}

fn marker_at_exec(h: &[u8], i: usize) -> (r: bool)
    requires
        i + 7 <= h.len(),
    ensures
        r == marker_at(h@, i as int),
{
    let r = h[i] == 66 && h[i + 1] == 101 && h[i + 2] == 97 && h[i + 3] == 114 && h[i + 4] == 101
        && h[i + 5] == 114 && h[i + 6] == 32;
    proof {
        let s = h@.subrange(i as int, i + 7);
        if r {
            assert(s =~= bearer_marker());
        } else if s == bearer_marker() {
            assert(s[0] == h@[i as int]);
            assert(s[1] == h@[i + 1]);
            assert(s[2] == h@[i + 2]);
            assert(s[3] == h@[i + 3]);
            assert(s[4] == h@[i + 4]);
            assert(s[5] == h@[i + 5]);
            assert(s[6] == h@[i + 6]);
        }
    }
    r
}

fn find_marker_exec(h: &[u8], from: usize) -> (r: Option<usize>)
    ensures
        match r {
            Some(i) => find_marker(h@, from as int) == i as int,
            None => find_marker(h@, from as int) == -1,
        },
{
    let mut i = from;
    while i <= h.len() && h.len() - i >= 7
        invariant
            from <= i,
            find_marker(h@, from as int) == find_marker(h@, i as int),
        decreases h.len() - i,
    {
        if marker_at_exec(h, i) {
            return Some(i);
        }
        i = i + 1;
    }
    None
}

/// The bearer token in the value of an `Authorization` header.
///
/// The header must be present, read as text, and hold `"Bearer "`; the
/// token is what follows the first `"Bearer "`, up to a second one if any.
pub fn bearer_token(header: Option<&[u8]>) -> (r: Result<String, ServiceError>)
    ensures
        bearer_token_answer(
            match header {
                Some(h) => Some(h@),
                None => None,
            },
            r,
        ),
{
    let h = match header {
        None => {
            return Err(bad_request("No authorization header"));
        },
        Some(h) => h,
    };
    if !is_header_text(h) {
        return Err(bad_request("Ivalid authorization header"));
    }
    proof {
        lemma_find_marker(h@, 0);
    }
    let start = match find_marker_exec(h, 0) {
        None => {
            return Err(bad_request("Ivalid authorization header"));
        },
        Some(i) => {
            assert(marker_at(h@, i as int));
            assert(i + 7 <= h.len());
            i + 7
        },
    };
    let end = match find_marker_exec(h, start) {
        None => h.len(),
        Some(j) => j,
    };
    proof {
        lemma_find_marker(h@, start as int);
    }
    let mut token = String::new();
    let mut k = start;
    while k < end
        invariant
            start <= k <= end <= h.len(),
            token@ =~= ascii_text(h@.subrange(start as int, k as int)),
        decreases end - k,
    {
        push_char(&mut token, h[k] as char);
        k = k + 1;
    }
    Ok(token)
}

proof fn lemma_find_marker_shift(t: Seq<u8>, k: int)
    requires
        0 <= k,
        find_marker(t, k) == -1,
    ensures
        find_marker(bearer_marker() + t, k + 7) == -1,
    decreases t.len() - k,
{
    let h = bearer_marker() + t;
    if k + 7 <= t.len() {
        assert(h.subrange(k + 7, k + 14) =~= t.subrange(k, k + 7));
        lemma_find_marker_shift(t, k + 1);
    }
}

/// A header `"Bearer <token>"`, with a token of visible ASCII that holds
/// no `"Bearer "` of its own, yields exactly that token.
pub proof fn lemma_bearer_header_yields_token(token: Seq<u8>)
    requires
        header_is_text(token),
        find_marker(token, 0) == -1,
    ensures
        header_is_text(bearer_marker() + token),
        bearer_token_bytes(bearer_marker() + token) == Some(token),
{
    let h = bearer_marker() + token;
    assert forall|i: int| 0 <= i < h.len() implies is_visible_ascii(#[trigger] h[i]) by {
        if i >= 7 {
            assert(h[i] == token[i - 7]);
        }
    }
    assert(h.subrange(0, 7) =~= bearer_marker());
    assert(marker_at(h, 0));
    lemma_find_marker_shift(token, 0);
    assert(h.subrange(7, h.len() as int) =~= token);
}

/// Characters read as ASCII bytes.
pub open spec fn ascii_bytes(t: Seq<char>) -> Seq<u8> {
    t.map_values(|c: char| c as u8)
}

proof fn lemma_no_space_no_marker(h: Seq<u8>, k: int)
    requires
        0 <= k,
        forall|i: int| 0 <= i < h.len() ==> #[trigger] h[i] != 32u8,
    ensures
        find_marker(h, k) == -1,
    decreases h.len() - k,
{
    if k + 7 <= h.len() {
        if marker_at(h, k) {
            assert(h.subrange(k, k + 7)[6] == h[k + 6]);
        }
        lemma_no_space_no_marker(h, k + 1);
    }
}

/// The text of a token that `jsonwebtoken` writes, sent as the header
/// `"Bearer <token>"`, yields that very token.
pub proof fn lemma_jwt_header_yields_token(token: Seq<char>)
    requires
        is_jwt_text(token),
    ensures
        header_is_text(bearer_marker() + ascii_bytes(token)),
        bearer_token_bytes(bearer_marker() + ascii_bytes(token)) == Some(ascii_bytes(token)),
        ascii_text(ascii_bytes(token)) == token,
{
    let b = ascii_bytes(token);
    assert forall|i: int| 0 <= i < b.len() implies is_visible_ascii(#[trigger] b[i]) && b[i] != 32u8 by {
        assert(is_base64url_char(token[i]) || token[i] == '.');
    }
    assert(header_is_text(b));
    lemma_no_space_no_marker(b, 0);
    lemma_bearer_header_yields_token(b);
    assert forall|i: int| 0 <= i < token.len() implies #[trigger] ascii_text(b)[i] == token[i] by {
        assert(is_base64url_char(token[i]) || token[i] == '.');
    }
    assert(ascii_text(b) =~= token);
}

/// A session token for user `uid` goes the whole way back: sent as
/// `"Bearer <token>"` it is the token the header yields; if its check
/// succeeds, the claims that come back are those it was made from; and the
/// subject of those claims names `uid`.
pub proof fn lemma_session_token_round_trip(uid: i32, exp: u64, token: Seq<char>, decoded: Seq<char>)
    requires
        hs256_token(jwt_secret_text(), claims_json(uid as int, exp as nat)) == Some(token),
        is_jwt_text(token),
        decode_agrees(jwt_secret_text(), token, decoded),
    ensures
        bearer_token_bytes(bearer_marker() + ascii_bytes(token)) == Some(ascii_bytes(token)),
        ascii_text(ascii_bytes(token)) == token,
        decoded == claims_json(uid as int, exp as nat),
        spec_parse_i32(int_decimal(uid as int)) == Some(uid),
{
    lemma_jwt_header_yields_token(token);
    lemma_issued_claims_come_back(uid, exp, token, decoded);
    lemma_parse_i32_of_decimal(uid);
}

/// The user named by the subject of a verified token: the subject must be
/// the decimal text of an `i32`, else the token is refused.
pub fn user_from_subject(subject: &str) -> (r: Result<AuthUser, ServiceError>)
    ensures
        match spec_parse_i32(subject@) {
            Some(id) => r == Ok::<AuthUser, ServiceError>(AuthUser { id }),
            None => r == Err::<AuthUser, ServiceError>(ServiceError::JWTInvalidToken),
        },
{
    match parse_i32(subject) {
        Some(id) => Ok(AuthUser { id }),
        None => Err(ServiceError::JWTInvalidToken),
    }
}

} // verus!
