use kantyna::mail::prepare_verification_mail_with_link;
use kantyna::activation::ActivationRegistry;
use kantyna::error::ServiceError;
use kantyna::mail::{prepare_verification_mail, verification_mail_reply, MailDelivery};
use kantyna::users::activation_email;

#[test]
fn empty_registry_knows_nothing() {
    let r = ActivationRegistry::new();
    assert_eq!(r.get(&"abc".to_string()), None);
}

#[test]
fn read_after_write() {
    let mut r = ActivationRegistry::new();
    assert_eq!(r.insert("l1".to_string(), "a@x.pl".to_string()), None);
    assert_eq!(r.insert("l2".to_string(), "b@x.pl".to_string()), None);
    assert_eq!(r.get(&"l1".to_string()), Some("a@x.pl".to_string()));
    assert_eq!(r.get(&"l2".to_string()), Some("b@x.pl".to_string()));
    assert_eq!(r.get(&"l3".to_string()), None);
}

#[test]
fn insert_replaces() {
    let mut r = ActivationRegistry::new();
    r.insert("l1".to_string(), "a@x.pl".to_string());
    assert_eq!(r.insert("l1".to_string(), "c@x.pl".to_string()), Some("a@x.pl".to_string()));
    assert_eq!(r.get(&"l1".to_string()), Some("c@x.pl".to_string()));
}

#[test]
fn mail_link_leads_to_email() {
    let mut r = ActivationRegistry::new();
    let mail = prepare_verification_mail("jan@example.com", &mut r).unwrap();
    assert_eq!(mail.link.len(), 21);
    assert!(mail.link.chars().all(|c| c.is_ascii_alphanumeric() || c == '_' || c == '-'));
    assert_eq!(mail.body, format!("http://127.0.0.1:4765/api/user/activate/{}", mail.link));
    assert_eq!(mail.subject, "Twój kod do kantyny");
    assert_eq!(mail.to, "jan@example.com");
    assert_eq!(mail.from, "Kantyna-App <kantyna.noreply@mikut.dev>");
    let from: lettre::message::Mailbox = mail.from.parse().unwrap();
    assert_eq!(from.email.to_string(), "kantyna.noreply@mikut.dev");
    assert_eq!(from.name.as_deref(), Some("Kantyna-App"));
    assert_eq!(activation_email(&r, &mail.link), Ok("jan@example.com".to_string()));
}

#[test]
fn bad_address_records_nothing() {
    let mut r = ActivationRegistry::new();
    r.insert("old".to_string(), "o@x.pl".to_string());
    assert_eq!(prepare_verification_mail("not an address", &mut r).err(), Some(ServiceError::InternalError));
    assert_eq!(prepare_verification_mail("a <b@c.d", &mut r).err(), Some(ServiceError::InternalError));
    assert_eq!(r.get(&"old".to_string()), Some("o@x.pl".to_string()));
}

#[test]
fn named_address_is_accepted() {
    let mut r = ActivationRegistry::new();
    assert!(prepare_verification_mail("Jan <jan@example.com>", &mut r).is_ok());
}

#[test]
fn unknown_link_is_internal_error() {
    let r = ActivationRegistry::new();
    assert_eq!(activation_email(&r, &"nope".to_string()), Err(ServiceError::InternalError));
}

#[test]
fn mail_delivery_replies() {
    assert_eq!(verification_mail_reply(MailDelivery::Sent), Ok("Registered successfully; email send".to_string()));
    assert_eq!(verification_mail_reply(MailDelivery::Failed), Err(ServiceError::InternalError));
    assert_eq!(verification_mail_reply(MailDelivery::NotBuilt), Err(ServiceError::InternalError));
}

#[test]
fn mail_with_given_link() {
    let mut r = ActivationRegistry::new();
    let mail = prepare_verification_mail_with_link("jan@example.com", "abc_DEF-123".to_string(), &mut r).unwrap();
    assert_eq!(mail.link, "abc_DEF-123");
    assert_eq!(mail.to, "jan@example.com");
    assert_eq!(mail.body, "http://127.0.0.1:4765/api/user/activate/abc_DEF-123");
    assert_eq!(r.get(&"abc_DEF-123".to_string()), Some("jan@example.com".to_string()));
    let mut r2 = ActivationRegistry::new();
    assert_eq!(
        prepare_verification_mail_with_link("@@", "l".to_string(), &mut r2).err(),
        Some(ServiceError::InternalError)
    );
    assert_eq!(r2.get(&"l".to_string()), None);
}
