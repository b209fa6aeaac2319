use kantyna::users::session_reply;
use kantyna::token::TokenError;
use kantyna::activation::ActivationRegistry;
use kantyna::entity::user::Model;
use kantyna::error::ServiceError;
use kantyna::password::{check_password, hash_password_with_salt};
use kantyna::token::decode_jwt_token;
use kantyna::users::{
    activate_after_lookup, activate_after_store, activation_email, change_password_after_lookup,
    change_password_after_store, login_after_lookup, register_after_insert, register_after_lookup,
    user_data_reply, PasswordChange, Registration, UserLookup, WriteOutcome,
};

fn user(password_hash: &str) -> Model {
    Model {
        id: 5,
        email: "ola@example.com".to_string(),
        username: "ola".to_string(),
        password: password_hash.to_string(),
        balance: 120,
        verified: 0,
        admin: 0,
    }
}

fn bad(msg: &str) -> ServiceError {
    ServiceError::BadRequest(msg.to_string())
}

#[test]
fn user_data_answers() {
    assert_eq!(user_data_reply(UserLookup::Failed), Err(ServiceError::InternalError));
    assert_eq!(user_data_reply(UserLookup::Missing), Err(bad("Account does not exist")));
    assert_eq!(user_data_reply(UserLookup::Found(user("h"))), Ok("User data: ola".to_string()));
}

#[test]
fn login_with_right_password_gets_token() {
    let h = hash_password_with_salt("secret1", *b"0123456789abcdef");
    let r = login_after_lookup(UserLookup::Found(user(&h)), "secret1").unwrap();
    let token = r.unwrap();
    let claims = decode_jwt_token(&token).unwrap();
    assert!(claims.starts_with(r#"{"sub":"5","exp":"#));
}

#[test]
fn login_with_wrong_password_is_unauthorized() {
    let h = hash_password_with_salt("secret1", *b"0123456789abcdef");
    let r = login_after_lookup(UserLookup::Found(user(&h)), "secret2");
    assert_eq!(r, Some(Err(ServiceError::Unauthorized("Invalid credentials".to_string()))));
}

#[test]
fn login_lookup_failures() {
    assert_eq!(login_after_lookup(UserLookup::Failed, "x"), Some(Err(ServiceError::InternalError)));
    assert_eq!(login_after_lookup(UserLookup::Missing, "x"), Some(Err(bad("Account does not exist"))));
}

#[test]
fn login_with_unreadable_hash_gives_up() {
    assert_eq!(login_after_lookup(UserLookup::Found(user("garbage")), "x"), None);
}

#[test]
fn change_password_stores_new_hash() {
    let h = hash_password_with_salt("old-pass", *b"0123456789abcdef");
    let r = change_password_after_lookup(UserLookup::Found(user(&h)), "old-pass", "new-pass");
    match r {
        Some(PasswordChange::Store(v)) => {
            assert_eq!(v.id, 5);
            assert_eq!(v.email, "ola@example.com");
            assert_eq!(v.username, "ola");
            assert_eq!(v.balance, 120);
            assert_ne!(v.password, h);
            assert_eq!(check_password("new-pass", &v.password), Some(true));
            assert_eq!(check_password("old-pass", &v.password), Some(false));
            // After the change, login with the new password succeeds.
            let login = login_after_lookup(UserLookup::Found(v), "new-pass").unwrap();
            assert!(login.is_ok());
        }
        _ => panic!("expected a store"),
    }
}

#[test]
fn change_password_refusals() {
    let h = hash_password_with_salt("old-pass", *b"0123456789abcdef");
    match change_password_after_lookup(UserLookup::Found(user(&h)), "nope", "new-pass") {
        Some(PasswordChange::Reply(r)) => assert_eq!(r, Err(bad("Old password is incorrect"))),
        _ => panic!("expected a reply"),
    }
    match change_password_after_lookup(UserLookup::Missing, "a", "b") {
        Some(PasswordChange::Reply(r)) => assert_eq!(r, Err(bad("Account does not exist"))),
        _ => panic!("expected a reply"),
    }
    match change_password_after_lookup(UserLookup::Failed, "a", "b") {
        Some(PasswordChange::Reply(r)) => assert_eq!(r, Err(ServiceError::InternalError)),
        _ => panic!("expected a reply"),
    }
    assert!(change_password_after_lookup(UserLookup::Found(user("bad")), "a", "b").is_none());
}

#[test]
fn change_password_store_answers() {
    assert_eq!(change_password_after_store(WriteOutcome::Done), Ok("Password changed".to_string()));
    assert_eq!(change_password_after_store(WriteOutcome::Failed), Err(ServiceError::InternalError));
}

#[test]
fn register_new_account() {
    let form = user("plain-pass");
    match register_after_lookup(UserLookup::Missing, form) {
        Registration::Insert(n) => {
            assert_eq!(n.username, "ola");
            assert_eq!(n.email, "ola@example.com");
            assert_eq!(check_password("plain-pass", &n.password), Some(true));
        }
        _ => panic!("expected an insert"),
    }
}

#[test]
fn register_refusals() {
    match register_after_lookup(UserLookup::Found(user("x")), user("y")) {
        Registration::Reply(r) => assert_eq!(r, Err(bad("Account already exists"))),
        _ => panic!("expected a reply"),
    }
    match register_after_lookup(UserLookup::Failed, user("y")) {
        Registration::Reply(r) => assert_eq!(r, Err(ServiceError::InternalError)),
        _ => panic!("expected a reply"),
    }
}

#[test]
fn register_then_activate() {
    let mut reg = ActivationRegistry::new();
    assert_eq!(
        register_after_insert(WriteOutcome::Failed, "ola@example.com", &mut reg).err(),
        Some(ServiceError::InternalError)
    );
    let mail = register_after_insert(WriteOutcome::Done, "ola@example.com", &mut reg).unwrap();
    let email = activation_email(&reg, &mail.link).unwrap();
    assert_eq!(email, "ola@example.com");
    let v = activate_after_lookup(UserLookup::Found(user("h"))).unwrap();
    assert_eq!(v.verified, 1);
    assert_eq!(v.password, "h");
    assert_eq!(activate_after_store(WriteOutcome::Done), Ok("account verified successfully".to_string()));
}

#[test]
fn activation_failures() {
    assert_eq!(activate_after_lookup(UserLookup::Missing), Err(ServiceError::InternalError));
    assert_eq!(activate_after_lookup(UserLookup::Failed), Err(ServiceError::InternalError));
    assert_eq!(activate_after_store(WriteOutcome::Failed), Err(ServiceError::InternalError));
}

#[test]
fn session_reply_maps() {
    assert_eq!(session_reply(Ok("t".to_string())), Ok("t".to_string()));
    assert_eq!(session_reply(Err(TokenError::ClockOutOfRange)), Err(ServiceError::InternalError));
}

#[test]
fn service_hashes_never_make_login_give_up() {
    let h = hash_password_with_salt("abc", *b"ABCDEFGHIJKLMNOP");
    for p in ["abc", "", "other", "x".repeat(100).as_str()] {
        assert!(login_after_lookup(UserLookup::Found(user(&h)), p).is_some());
        assert!(change_password_after_lookup(UserLookup::Found(user(&h)), p, "n").is_some());
    }
}
