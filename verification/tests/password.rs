use kantyna::password::{check_password, hash_password, hash_password_with_salt, random_salt};

#[test]
fn hash_with_fixed_salt_is_bcrypt() {
    let salt = *b"abcdefghijklmnop";
    let h = hash_password_with_salt("hunter2", salt);
    let expected = bcrypt::hash_with_salt("hunter2", 12, salt).unwrap().to_string();
    assert_eq!(h, expected);
    assert!(h.starts_with("$2y$12$"));
    assert_eq!(h.len(), 60);
}

#[test]
fn hashed_password_checks() {
    let h = hash_password("correct horse");
    assert_eq!(check_password("correct horse", &h), Some(true));
    assert_eq!(check_password("wrong horse", &h), Some(false));
}

#[test]
fn unreadable_hash_gives_none() {
    assert_eq!(check_password("x", "not a hash"), None);
    assert_eq!(check_password("x", ""), None);
}

#[test]
fn salt_is_url_safe() {
    let s = random_salt();
    assert!(s.iter().all(|&b| b.is_ascii_alphanumeric() || b == b'_' || b == b'-'));
}

#[test]
fn known_hash_from_other_tool() {
    let h = "$2b$04$EGdrhbKUv8Oc9vGiXX0HQOxSg445d458Muh7DAHskb6QbtCvdxcie";
    assert_eq!(check_password("correctbatteryhorsestapler", h), Some(true));
    assert_eq!(check_password("wrong", h), Some(false));
}
