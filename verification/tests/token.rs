use kantyna::token::claims_or_refusal;
use kantyna::error::ServiceError;
use kantyna::token::{
    claims_json_text, create_jwt, create_jwt_at, create_jwt_at_time, decode_jwt_token, session_expiry,
    TokenError, MAX_TIMESTAMP, MIN_TIMESTAMP,
};

const SECRET: &[u8] = b"gioryegioergb389458y85w4huuhierghlgrezhlgh89y5w48954w4w5huoiyh";

fn now() -> i64 {
    std::time::SystemTime::now()
        .duration_since(std::time::UNIX_EPOCH)
        .unwrap()
        .as_secs() as i64
}

#[test]
fn claims_text_is_serde_layout() {
    assert_eq!(claims_json_text(5, 100), r#"{"sub":"5","exp":100}"#);
    assert_eq!(claims_json_text(-12, 0), r#"{"sub":"-12","exp":0}"#);
    assert_eq!(
        claims_json_text(i32::MIN, u64::MAX),
        r#"{"sub":"-2147483648","exp":18446744073709551615}"#
    );
}

#[test]
fn token_carries_claims() {
    let exp = now() + 3600;
    let token = create_jwt_at(42, exp).unwrap();
    assert_eq!(token.split('.').count(), 3);
    let data = jsonwebtoken::decode::<serde_json::Value>(
        &token,
        &jsonwebtoken::DecodingKey::from_secret(SECRET),
        &jsonwebtoken::Validation::default(),
    )
    .unwrap();
    assert_eq!(data.claims.get("sub").and_then(|v| v.as_str()), Some("42"));
    assert_eq!(data.claims.get("exp").and_then(|v| v.as_i64()), Some(exp));
    assert_eq!(data.header.alg, jsonwebtoken::Algorithm::HS256);
}

#[test]
fn issued_token_decodes_to_its_claims() {
    let exp = now() + 3600;
    let token = create_jwt_at(7, exp).unwrap();
    assert_eq!(decode_jwt_token(&token), Ok(claims_json_text(7, exp as u64)));
}

#[test]
fn fresh_session_token_decodes() {
    let token = create_jwt(99).unwrap();
    let claims = decode_jwt_token(&token).unwrap();
    assert!(claims.starts_with(r#"{"sub":"99","exp":"#), "{}", claims);
}

#[test]
fn expired_token_is_refused() {
    let token = create_jwt_at(7, now() - 3600).unwrap();
    assert_eq!(decode_jwt_token(&token), Err(ServiceError::JWTInvalidToken));
}

#[test]
fn token_within_leeway_is_accepted() {
    let token = create_jwt_at(7, now() - 10).unwrap();
    assert!(decode_jwt_token(&token).is_ok());
}

#[test]
fn tampered_token_is_refused() {
    let token = create_jwt_at(7, now() + 3600).unwrap();
    let mut forged = token.clone();
    forged.push('x');
    assert_eq!(decode_jwt_token(&forged), Err(ServiceError::JWTInvalidToken));
    let other = jsonwebtoken::encode(
        &jsonwebtoken::Header::default(),
        &serde_json::Value::Null,
        &jsonwebtoken::EncodingKey::from_secret(b"another key"),
    )
    .unwrap();
    assert_eq!(decode_jwt_token(&other), Err(ServiceError::JWTInvalidToken));
}

#[test]
fn garbage_is_refused() {
    assert_eq!(decode_jwt_token(""), Err(ServiceError::JWTInvalidToken));
    assert_eq!(decode_jwt_token("a.b.c"), Err(ServiceError::JWTInvalidToken));
}

#[test]
fn token_is_made_for_any_user() {
    for uid in [i32::MIN, -1, 0, 5, i32::MAX] {
        assert!(create_jwt_at_time(uid, 1000).is_ok());
        assert!(create_jwt_at(uid, 0).is_ok());
    }
    assert_eq!(create_jwt_at_time(5, MAX_TIMESTAMP - 30), Err(TokenError::ClockOutOfRange));
}

#[test]
fn other_algorithm_is_refused() {
    let claims: serde_json::Value = serde_json::from_str(r#"{"sub":"1","exp":99999999999}"#).unwrap();
    let token = jsonwebtoken::encode(
        &jsonwebtoken::Header::new(jsonwebtoken::Algorithm::HS384),
        &claims,
        &jsonwebtoken::EncodingKey::from_secret(SECRET),
    )
    .unwrap();
    assert_eq!(decode_jwt_token(&token), Err(ServiceError::JWTInvalidToken));
}

#[test]
fn claims_or_refusal_maps() {
    assert_eq!(claims_or_refusal(Some("{}".to_string())), Ok("{}".to_string()));
    assert_eq!(claims_or_refusal(None), Err(ServiceError::JWTInvalidToken));
}

#[test]
fn timestamp_bounds_are_chronos() {
    assert_eq!(chrono::DateTime::<chrono::Utc>::MAX_UTC.timestamp(), MAX_TIMESTAMP);
    assert_eq!(chrono::DateTime::<chrono::Utc>::MIN_UTC.timestamp(), MIN_TIMESTAMP);
}

#[test]
fn session_expiry_is_a_minute_later() {
    assert_eq!(session_expiry(1_700_000_000), Some(1_700_000_060));
    assert_eq!(session_expiry(MAX_TIMESTAMP - 60), Some(MAX_TIMESTAMP));
    assert_eq!(session_expiry(MAX_TIMESTAMP - 59), None);
    assert_eq!(session_expiry(i64::MAX), None);
}

#[test]
fn session_expiry_agrees_with_chrono() {
    for now in [0i64, 1_700_000_000, MAX_TIMESTAMP - 61, MAX_TIMESTAMP - 60, MAX_TIMESTAMP - 59, MAX_TIMESTAMP] {
        let t = chrono::DateTime::<chrono::Utc>::from_timestamp(now, 0).unwrap();
        let chrono_expiry = t
            .checked_add_signed(chrono::Duration::seconds(60))
            .map(|t| t.timestamp());
        assert_eq!(session_expiry(now), chrono_expiry, "{}", now);
    }
}

#[test]
fn token_at_time_carries_expiry() {
    let now = 1_700_000_000;
    let token = create_jwt_at_time(3, now).unwrap();
    assert_eq!(token, create_jwt_at(3, now + 60).unwrap());
    assert_eq!(create_jwt_at_time(3, MAX_TIMESTAMP), Err(TokenError::ClockOutOfRange));
}

#[test]
fn token_text_is_base64url_with_two_dots() {
    let token = create_jwt_at(-5, 1_000).unwrap();
    assert_eq!(token.matches('.').count(), 2);
    assert!(token.chars().all(|c| c.is_ascii_alphanumeric() || c == '-' || c == '_' || c == '.'));
}

#[test]
fn tokens_differ_per_user() {
    assert_ne!(create_jwt_at(1, 1_000).unwrap(), create_jwt_at(2, 1_000).unwrap());
    assert_eq!(create_jwt_at(1, 1_000).unwrap(), create_jwt_at(1, 1_000).unwrap());
}

#[test]
fn session_token_through_bearer_header() {
    let token = create_jwt(11).unwrap();
    let header = format!("Bearer {}", token);
    let got = kantyna::auth::bearer_token(Some(header.as_bytes())).unwrap();
    assert_eq!(got, token);
    let claims = decode_jwt_token(&got).unwrap();
    assert!(claims.starts_with(r#"{"sub":"11","exp":"#));
}
