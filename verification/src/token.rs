//! JSON web tokens for user sessions: HS256 tokens whose claims name the
//! user (`sub`) and the time the token expires (`exp`).

use vstd::prelude::*;
use crate::decimal::{i32_to_decimal, int_decimal, lemma_parse_i32_of_decimal, nat_digits, push_digits};
use crate::error::ServiceError;

verus! {

/// The text of the key that tokens are signed and checked with.
pub open spec fn jwt_secret_text() -> Seq<char> {
    "gioryegioergb389458y85w4huuhierghlgrezhlgh89y5w48954w4w5huoiyh"@
}

fn jwt_secret() -> (s: &'static str)
    ensures
        s@ == jwt_secret_text(),
{
    "gioryegioergb389458y85w4huuhierghlgrezhlgh89y5w48954w4w5huoiyh"
}

/// How long a token stays valid, in seconds.
pub const TOKEN_LIFETIME_SECS: i64 = 60;

/// The token that `jsonwebtoken::encode` makes with the default header
/// (HS256) for claims whose JSON text is `claims`, signed with the key
/// whose text is `secret`; `None` when it refuses.
pub uninterp spec fn hs256_token(secret: Seq<char>, claims: Seq<char>) -> Option<Seq<char>>;

/// Whether `c` is a character that JSON reads as white space.
pub open spec fn is_json_space(c: char) -> bool {
    c == ' ' || c == '\n' || c == '\r' || c == '\t'
}

/// Whether the JSON text `c` neither starts nor ends with white space.
pub open spec fn json_trimmed(c: Seq<char>) -> bool {
    c.len() > 0 && !is_json_space(c[0]) && !is_json_space(c.last())
}

/// What a successful decode of `token` with `secret` may hand back: for a
/// token that `hs256_token` made from trimmed claims `c`, exactly `c`.
pub open spec fn decode_agrees(secret: Seq<char>, token: Seq<char>, claims: Seq<char>) -> bool {
    forall|c: Seq<char>|
        #[trigger] hs256_token(secret, c) == Some(token) && json_trimmed(c) ==> claims == c
}

/// What `jsonwebtoken::crypto::verify(signature, message, key, HS256)`
/// answers for the key whose text is `secret`: whether `signature` is the
/// base64url HMAC-SHA256 of `message` under that key.
pub uninterp spec fn hs256_signed(secret: Seq<char>, message: Seq<char>, signature: Seq<char>) -> bool;

/// Whether `jsonwebtoken::decode_header(token)` reads from the first part
/// of `token` a header that names the algorithm HS256.
pub uninterp spec fn jwt_header_is_hs256(token: Seq<char>) -> bool;

/// The index of the last `.` in `t`, or -1.
pub open spec fn last_dot(t: Seq<char>) -> int
    decreases t.len(),
{
    if t.len() == 0 {
        -1
    } else if t.last() == '.' {
        t.len() - 1
    } else {
        last_dot(t.drop_last())
    }
}

/// Whether `token` is signed with the key whose text is `secret`: it is
/// a header and a payload joined by `.`, then a `.` and the HS256 signature
/// of that message, as `jsonwebtoken` splits and checks it.
pub open spec fn hs256_signed_token(secret: Seq<char>, token: Seq<char>) -> bool {
    let i = last_dot(token);
    &&& i >= 0
    &&& last_dot(token.take(i)) >= 0
    &&& hs256_signed(secret, token.take(i), token.skip(i + 1))
}

/// Whether `c` is a character of base64url text.
pub open spec fn is_base64url_char(c: char) -> bool {
    ('A' <= c && c <= 'Z') || ('a' <= c && c <= 'z') || ('0' <= c && c <= '9') || c == '-' || c
        == '_'
}

/// Whether `t` is made only of base64url characters and dots, as the
/// tokens `jsonwebtoken` writes are.
pub open spec fn is_jwt_text(t: Seq<char>) -> bool {
    forall|i: int| 0 <= i < t.len() ==> is_base64url_char(#[trigger] t[i]) || t[i] == '.'
}

/// Signs the claims whose JSON text is `claims` into a token:
/// `jsonwebtoken::encode` with `Header::default()` and
/// `EncodingKey::from_secret`, the claims handed over as their raw JSON text
/// (`serde_json::value::RawValue`), so that the token carries that text
/// byte for byte. The result is named by `hs256_token`. A token is the
/// base64url of the header and of the claims and the base64url signature,
/// joined by dots; so it is base64url text with dots, its header names
/// HS256, its signature checks, and no other trimmed claims give the same
/// token. `RawValue::from_string` refuses only text that is not JSON and
/// HMAC signing with an HMAC key does not fail, so the service's own claims
/// (which are JSON) are always signed.
#[verifier::external_body]
fn encode_hs256(secret: &str, claims: &str) -> (r: Option<String>)
    ensures
        match r {
            Some(t) => hs256_token(secret@, claims@) == Some(t@),
            None => hs256_token(secret@, claims@) is None,
        },
        r matches Some(t) ==> is_jwt_text(t@),
        r matches Some(t) ==> last_dot(t@) >= 0 && last_dot(t@.take(last_dot(t@))) >= 0,
        r matches Some(t) ==> hs256_signed(
            secret@,
            t@.take(last_dot(t@)),
            t@.skip(last_dot(t@) + 1),
        ),
        r matches Some(t) ==> (json_trimmed(claims@) ==> decode_agrees(secret@, t@, claims@)),
        r matches Some(t) ==> jwt_header_is_hs256(t@),
        (exists|u: i32, e: u64| #[trigger] claims_json(u as int, e as nat) == claims@) ==> r is Some,
{
    let raw = match serde_json::value::RawValue::from_string(claims.to_string()) {
        Ok(raw) => raw,
        Err(_) => return None,
    };
    let key = jsonwebtoken::EncodingKey::from_secret(secret.as_bytes());
    match jsonwebtoken::encode(&jsonwebtoken::Header::default(), &raw, &key) {
        Ok(t) => Some(t),
        Err(_) => None,
    }
}

/// Checks `token` with `jsonwebtoken::decode` under `Validation::default()`
/// (HS256 signature with `DecodingKey::from_secret`, an `exp` claim that is
/// not past by more than the default leeway) and hands back the JSON text
/// of its claims. Whether it succeeds depends on the clock, so nothing is
/// said of when; what is said is that it succeeds only on a token whose
/// header names HS256 (the only algorithm allowed) and whose signature
/// checks (`decode` runs `crypto::verify` on the split token),
/// and that a token made by `hs256_token` from trimmed claims gives back
/// exactly those claims. The expiry check refuses an `exp` below the
/// clock's reading less the leeway, which `u64::MAX` never is; so a token
/// that `hs256_token` made from the service's claims with that expiry
/// passes every check, whatever the clock reads.
#[verifier::external_body]
fn decode_hs256(secret: &str, token: &str) -> (r: Option<String>)
    ensures
        r is Some ==> last_dot(token@) >= 0 && last_dot(token@.take(last_dot(token@))) >= 0,
        r is Some ==> jwt_header_is_hs256(token@),
        r is Some ==> hs256_signed(
            secret@,
            token@.take(last_dot(token@)),
            token@.skip(last_dot(token@) + 1),
        ),
        r matches Some(c) ==> decode_agrees(secret@, token@, c@),
        (exists|u: i32|
            #[trigger] hs256_token(secret@, claims_json(u as int, u64::MAX as nat)) == Some(token@))
            ==> r is Some,
{
    let key = jsonwebtoken::DecodingKey::from_secret(secret.as_bytes());
    match jsonwebtoken::decode::<Box<serde_json::value::RawValue>>(
        token,
        &key,
        &jsonwebtoken::Validation::default(),
    ) {
        Ok(data) => Some(data.claims.get().to_string()),
        Err(_) => None,
    }
}

/// The current UNIX time in seconds: `Utc::now().timestamp()`. It is the
/// clock: only that chrono can hold it is said (`Utc::now` builds it with
/// `DateTime::from_timestamp(..).unwrap()`).
#[verifier::external_body]
fn utc_now_timestamp() -> (r: i64)
    ensures
        MIN_TIMESTAMP <= r <= MAX_TIMESTAMP,
{
    chrono::Utc::now().timestamp()
}

/// The first second that chrono's `DateTime<Utc>` can hold
/// (-262143-01-01T00:00:00Z).
pub const MIN_TIMESTAMP: i64 = -8334601228800;

/// The last second that chrono's `DateTime<Utc>` can hold
/// (262142-12-31T23:59:59Z).
pub const MAX_TIMESTAMP: i64 = 8210266876799;

/// The expiry of a session started at UNIX time `now`: a lifetime later,
/// if chrono can hold that time.
pub open spec fn spec_session_expiry(now: int) -> Option<int> {
    let e = now + TOKEN_LIFETIME_SECS;
    if MIN_TIMESTAMP <= e <= MAX_TIMESTAMP {
        Some(e)
    } else {
        None
    }
}

/// The expiry of a session started at UNIX time `now`, as
/// `checked_add_signed` of the lifetime gives it.
pub fn session_expiry(now: i64) -> (r: Option<i64>)
    ensures
        match spec_session_expiry(now as int) {
            Some(e) => r == Some(e as i64),
            None => r is None,
        },
{
    if now > MAX_TIMESTAMP - TOKEN_LIFETIME_SECS || now < MIN_TIMESTAMP - TOKEN_LIFETIME_SECS {
        None
    } else {
        Some(now + TOKEN_LIFETIME_SECS)
    }
}

/// The JSON text of the claims of a token for user `uid` that expires at
/// `exp`, field for field as `serde_json` writes `{sub, exp}`.
pub open spec fn claims_json(uid: int, exp: nat) -> Seq<char> {
    seq!['{', '"', 's', 'u', 'b', '"', ':', '"'] + int_decimal(uid) + seq![
        '"',
        ',',
        '"',
        'e',
        'x',
        'p',
        '"',
        ':',
    ] + nat_digits(exp) + seq!['}']
}

fn append_chars(s: &mut String, lit: &str)
    ensures
        final(s)@ == old(s)@ + lit@,
{
    s.append(lit);
}

/// The JSON text of the claims of a token for user `uid` that expires at `exp`.
pub fn claims_json_text(uid: i32, exp: u64) -> (r: String)
    ensures
        r@ == claims_json(uid as int, exp as nat),
{
    let mut r = String::new();
    append_chars(&mut r, "{\"sub\":\"");
    proof {
        reveal_strlit("{\"sub\":\"");
    }
    let sub = i32_to_decimal(uid);
    append_chars(&mut r, sub.as_str());
    append_chars(&mut r, "\",\"exp\":");
    proof {
        reveal_strlit("\",\"exp\":");
    }
    push_digits(&mut r, exp);
    append_chars(&mut r, "}");
    proof {
        reveal_strlit("}");
    }
    assert(r@ =~= claims_json(uid as int, exp as nat));
    r
}

/// Why a token could not be made.
#[derive(Debug, PartialEq, Eq)]
pub enum TokenError {
    /// The expiry time is out of chrono's range.
    ClockOutOfRange,
}

/// `r` is the answer to making the token for user `uid` that expires at
/// UNIX time `expiration`; the claims carry the expiry as an unsigned number
/// (`expiration as u64`).
pub open spec fn token_answer(uid: int, expiration: i64, r: Result<String, TokenError>) -> bool {
    let claims = claims_json(uid, (expiration as u64) as nat);
    &&& r matches Ok(s)
    &&& hs256_token(jwt_secret_text(), claims) == Some(r->Ok_0@)
    &&& is_jwt_text(r->Ok_0@)
    &&& jwt_header_is_hs256(r->Ok_0@)
    &&& hs256_signed_token(jwt_secret_text(), r->Ok_0@)
    &&& decode_agrees(jwt_secret_text(), r->Ok_0@, claims)
}

/// The token for user `uid` that expires at UNIX time `expiration`; it is
/// always made.
pub fn create_jwt_at(uid: i32, expiration: i64) -> (r: Result<String, TokenError>)
    ensures
        token_answer(uid as int, expiration, r),
{
    let claims = claims_json_text(uid, expiration as u64);
    proof {
        lemma_claims_json_trimmed(uid as int, (expiration as u64) as nat);
    }
    assert(claims_json(uid as int, (expiration as u64) as nat) == claims@);
    Ok(encode_hs256(jwt_secret(), claims.as_str()).unwrap())
}

/// `r` is the answer to making a session token for user `uid` when the
/// clock reads `now`.
pub open spec fn session_token_answer(uid: int, now: i64, r: Result<String, TokenError>) -> bool {
    match spec_session_expiry(now as int) {
        Some(e) => token_answer(uid, e as i64, r),
        None => r == Err::<String, TokenError>(TokenError::ClockOutOfRange),
    }
}

/// The session token for user `uid` when the clock reads `now`: it expires
/// a lifetime later.
pub fn create_jwt_at_time(uid: i32, now: i64) -> (r: Result<String, TokenError>)
    ensures
        session_token_answer(uid as int, now, r),
{
    match session_expiry(now) {
        None => Err(TokenError::ClockOutOfRange),
        Some(e) => create_jwt_at(uid, e),
    }
}

/// A session token for user `uid` that expires a lifetime from now. What
/// it holds depends only on the clock's reading.
pub fn create_jwt(uid: i32) -> (r: Result<String, TokenError>)
    ensures
        exists|now: i64|
            MIN_TIMESTAMP <= now <= MAX_TIMESTAMP && #[trigger] session_token_answer(uid as int, now, r),
{
    let now = utc_now_timestamp();
    let r = create_jwt_at_time(uid, now);
    assert(session_token_answer(uid as int, now, r));
    r
}

/// The answer to a token whose check gave `decoded`: its claims, or a
/// refusal when the check failed.
pub fn claims_or_refusal(decoded: Option<String>) -> (r: Result<String, ServiceError>)
    ensures
        match decoded {
            Some(c) => r matches Ok(x) && x@ == c@,
            None => r == Err::<String, ServiceError>(ServiceError::JWTInvalidToken),
        },
{
    match decoded {
        Some(c) => Ok(c),
        None => Err(ServiceError::JWTInvalidToken),
    }
}

/// `r` is an answer to checking `token`: claims only from a token with an
/// HS256 header and a valid signature under the service's key, and exactly
/// the claims it was made from; a refusal is `JWTInvalidToken`; and a token
/// made from the service's claims with the expiry `u64::MAX`, which never
/// passes, is never refused.
pub open spec fn decode_answer(token: Seq<char>, r: Result<String, ServiceError>) -> bool {
    &&& match r {
        Ok(c) => jwt_header_is_hs256(token) && hs256_signed_token(jwt_secret_text(), token)
            && decode_agrees(jwt_secret_text(), token, c@),
        Err(e) => e == ServiceError::JWTInvalidToken,
    }
    &&& (exists|u: i32|
        #[trigger] hs256_token(jwt_secret_text(), claims_json(u as int, u64::MAX as nat)) == Some(
            token,
        )) ==> r is Ok
}

/// The JSON text of the claims of `token`, if it verifies with the
/// service's key and has not expired; else the token is refused.
pub fn decode_jwt_token(token: &str) -> (r: Result<String, ServiceError>)
    ensures
        match r {
            Ok(c) => jwt_header_is_hs256(token@) && hs256_signed_token(jwt_secret_text(), token@) && decode_agrees(
                jwt_secret_text(),
                token@,
                c@,
            ),
            Err(e) => e == ServiceError::JWTInvalidToken,
        },
        decode_answer(token@, r),
{
    claims_or_refusal(decode_hs256(jwt_secret(), token))
}

/// The claims that the service writes are trimmed JSON text, so a token
/// made from them decodes to exactly those claims.
pub proof fn lemma_issued_claims_come_back(uid: i32, exp: u64, token: Seq<char>, decoded: Seq<char>)
    requires
        hs256_token(jwt_secret_text(), claims_json(uid as int, exp as nat)) == Some(token),
        decode_agrees(jwt_secret_text(), token, decoded),
    ensures
        decoded == claims_json(uid as int, exp as nat),
{
    lemma_claims_json_trimmed(uid as int, exp as nat);
}

proof fn lemma_claims_json_trimmed(uid: int, exp: nat)
    ensures
        json_trimmed(claims_json(uid, exp)),
{
    let c = claims_json(uid, exp);
    assert(c[0] == '{');
    assert(c.last() == '}');
}

/// Tokens made for the same expiry are equal only for the same user: the
/// signed claims name the user, and no other claims give the same token.
pub proof fn lemma_token_names_one_user(u1: i32, u2: i32, exp: u64, t: Seq<char>)
    requires
        hs256_token(jwt_secret_text(), claims_json(u1 as int, exp as nat)) == Some(t),
        hs256_token(jwt_secret_text(), claims_json(u2 as int, exp as nat)) == Some(t),
        decode_agrees(jwt_secret_text(), t, claims_json(u1 as int, exp as nat)),
    ensures
        u1 == u2,
{
    let c1 = claims_json(u1 as int, exp as nat);
    let c2 = claims_json(u2 as int, exp as nat);
    lemma_claims_json_trimmed(u2 as int, exp as nat);
    assert(c1 == c2);
    let d1 = int_decimal(u1 as int);
    let d2 = int_decimal(u2 as int);
    let tail = seq!['"', ',', '"', 'e', 'x', 'p', '"', ':'] + nat_digits(exp as nat) + seq!['}'];
    assert(c1 =~= seq!['{', '"', 's', 'u', 'b', '"', ':', '"'] + d1 + tail);
    assert(c2 =~= seq!['{', '"', 's', 'u', 'b', '"', ':', '"'] + d2 + tail);
    assert(d1.len() == d2.len());
    assert(d1 =~= c1.subrange(8, 8 + d1.len() as int));
    assert(d2 =~= c2.subrange(8, 8 + d2.len() as int));
    lemma_parse_i32_of_decimal(u1);
    lemma_parse_i32_of_decimal(u2);
}

/// At one clock reading whose expiry chrono can hold, a session token is
/// made for every user, and two users get the same token only if they are
/// the same user.
pub proof fn lemma_same_clock_tokens(
    u1: i32,
    u2: i32,
    now: i64,
    r1: Result<String, TokenError>,
    r2: Result<String, TokenError>,
)
    requires
        spec_session_expiry(now as int) is Some,
        session_token_answer(u1 as int, now, r1),
        session_token_answer(u2 as int, now, r2),
    ensures
        r1 is Ok,
        r2 is Ok,
        (r1->Ok_0@ == r2->Ok_0@) <==> u1 == u2,
{
    let e = spec_session_expiry(now as int).unwrap();
    let exp: u64 = (e as i64) as u64;
    if r1->Ok_0@ == r2->Ok_0@ {
        lemma_token_names_one_user(u1, u2, exp, r1->Ok_0@);
    }
}

/// A session token expires exactly a lifetime after the clock reading it
/// was made at: at every reading whose expiry chrono can hold, the token is
/// made, and the only claims it decodes to name the user and that expiry.
pub proof fn lemma_session_token_expires_after_lifetime(
    uid: i32,
    now: i64,
    r: Result<String, TokenError>,
)
    requires
        MIN_TIMESTAMP <= now + TOKEN_LIFETIME_SECS <= MAX_TIMESTAMP,
        session_token_answer(uid as int, now, r),
    ensures
        r is Ok,
        hs256_token(
            jwt_secret_text(),
            claims_json(uid as int, ((now + TOKEN_LIFETIME_SECS) as u64) as nat),
        ) == Some(r->Ok_0@),
        decode_agrees(
            jwt_secret_text(),
            r->Ok_0@,
            claims_json(uid as int, ((now + TOKEN_LIFETIME_SECS) as u64) as nat),
        ),
{
    lemma_claims_json_trimmed(uid as int, ((now + TOKEN_LIFETIME_SECS) as u64) as nat);
}

/// A token made for user `uid` with the expiry `u64::MAX` (the expiry
/// `-1` read as unsigned) is accepted, whatever the clock reads, and gives
/// back exactly its claims.
pub proof fn lemma_unexpiring_token_is_accepted(
    uid: i32,
    made: Result<String, TokenError>,
    checked: Result<String, ServiceError>,
)
    requires
        token_answer(uid as int, -1i64, made),
        decode_answer(made->Ok_0@, checked),
    ensures
        checked matches Ok(c) && c@ == claims_json(uid as int, u64::MAX as nat),
{
    assert((-1i64) as u64 == u64::MAX) by (bit_vector);
    let t = made->Ok_0@;
    assert(hs256_token(jwt_secret_text(), claims_json(uid as int, u64::MAX as nat)) == Some(t));
    lemma_issued_claims_come_back(uid, u64::MAX, t, checked->Ok_0@);
}

} // verus!
