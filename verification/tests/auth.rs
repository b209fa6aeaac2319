use kantyna::auth::{bearer_token, user_from_subject, AuthUser};
use kantyna::error::ServiceError;

fn bad(msg: &str) -> Result<String, ServiceError> {
    Err(ServiceError::BadRequest(msg.to_string()))
}

/// What the route's header handling gives, written with std.
fn reference(header: Option<&[u8]>) -> Result<String, ServiceError> {
    let h = match header {
        None => return bad("No authorization header"),
        Some(h) => h,
    };
    if !h.iter().all(|&b| (32..127).contains(&b) || b == b'\t') {
        return bad("Ivalid authorization header");
    }
    let s = std::str::from_utf8(h).unwrap();
    match s.split("Bearer ").nth(1) {
        Some(t) => Ok(t.to_string()),
        None => bad("Ivalid authorization header"),
    }
}

#[test]
fn missing_header_is_refused() {
    assert_eq!(bearer_token(None), bad("No authorization header"));
}

#[test]
fn bearer_header_gives_token() {
    assert_eq!(bearer_token(Some(b"Bearer abc.def.ghi")), Ok("abc.def.ghi".to_string()));
}

#[test]
fn empty_token_after_marker() {
    assert_eq!(bearer_token(Some(b"Bearer ")), Ok(String::new()));
}

#[test]
fn token_stops_at_second_marker() {
    assert_eq!(bearer_token(Some(b"xBearer abcBearer def")), Ok("abc".to_string()));
}

#[test]
fn header_without_marker_is_refused() {
    assert_eq!(bearer_token(Some(b"Token abc")), bad("Ivalid authorization header"));
    assert_eq!(bearer_token(Some(b"bearer abc")), bad("Ivalid authorization header"));
    assert_eq!(bearer_token(Some(b"Bearer")), bad("Ivalid authorization header"));
}

#[test]
fn non_text_header_is_refused() {
    assert_eq!(bearer_token(Some(b"Bearer a\x80b")), bad("Ivalid authorization header"));
    assert_eq!(bearer_token(Some(b"Bearer a\nb")), bad("Ivalid authorization header"));
}

#[test]
fn tab_is_text() {
    assert_eq!(bearer_token(Some(b"Bearer a\tb")), Ok("a\tb".to_string()));
}

#[test]
fn agrees_with_split_on_samples() {
    let samples: [&[u8]; 12] = [
        b"", b"Bearer", b"Bearer ", b"Bearer x", b"Bearer Bearer x", b"BearerBearer x",
        b" Bearer y", b"Bearer a Bearer b Bearer c", b"Basic dXNlcg==", b"Bearer \x7f",
        b"Bearer \t\t", b"Bear er x",
    ];
    for h in samples {
        assert_eq!(bearer_token(Some(h)), reference(Some(h)), "{:?}", h);
    }
}

#[test]
fn subject_names_user() {
    assert_eq!(user_from_subject("17"), Ok(AuthUser { id: 17 }));
    assert_eq!(user_from_subject("-3"), Ok(AuthUser { id: -3 }));
}

#[test]
fn bad_subject_is_refused() {
    assert_eq!(user_from_subject("abc"), Err(ServiceError::JWTInvalidToken));
    assert_eq!(user_from_subject("99999999999"), Err(ServiceError::JWTInvalidToken));
    assert_eq!(user_from_subject(""), Err(ServiceError::JWTInvalidToken));
}
