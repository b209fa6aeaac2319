//! The verification mail sent after registration: its addresses, its text,
//! and the activation link that it records.

use vstd::prelude::*;
use crate::activation::ActivationRegistry;
use crate::error::ServiceError;
use crate::ids::{is_url_safe_id, random_url_safe_id};

verus! {

/// Whether `lettre` reads `text` as a mailbox (`Mailbox::from_str`), that
/// is an address, optionally with a display name in front of it in `<>`.
pub uninterp spec fn mailbox_parses(text: Seq<char>) -> bool;

/// Whether `text.parse::<lettre::message::Mailbox>()` succeeds.
#[verifier::external_body]
fn parse_mailbox(text: &str) -> (r: bool)
    ensures
        r == mailbox_parses(text@),
{
    text.parse::<lettre::message::Mailbox>().is_ok()
}

/// The mailbox that verification mails are sent from.
pub open spec fn sender_text() -> Seq<char> {
    "Kantyna-App <kantyna.noreply@mikut.dev>"@
}

/// The subject of verification mails.
pub open spec fn mail_subject() -> Seq<char> {
    "Twój kod do kantyny"@
}

/// The address that an activation link is appended to.
pub open spec fn activation_url_prefix() -> Seq<char> {
    "http://127.0.0.1:4765/api/user/activate/"@
}

/// The number of characters of an activation link.
pub const ACTIVATION_LINK_LEN: usize = 21;

/// A verification mail ready to be sent. Its addresses are mailbox texts
/// that `lettre` reads as mailboxes.
pub struct VerificationMail {
    /// The sender's mailbox.
    pub from: String,
    /// The recipient's mailbox.
    pub to: String,
    pub subject: String,
    pub body: String,
    /// The activation link that the body carries.
    pub link: String,
}

fn append_text(s: &mut String, t: &str)
    ensures
        final(s)@ == old(s)@ + t@,
{
    s.append(t);
}

/// `r` is what preparing the verification mail for `email` answers when
/// the registry of activation links goes from `before` to `after`.
pub open spec fn mail_prepared(
    email: Seq<char>,
    before: Map<Seq<char>, Seq<char>>,
    after: Map<Seq<char>, Seq<char>>,
    r: Result<VerificationMail, ServiceError>,
) -> bool {
    match r {
        Err(e) => {
            &&& e == ServiceError::InternalError
            &&& !(mailbox_parses(sender_text()) && mailbox_parses(email))
            &&& after == before
        },
        Ok(m) => {
            &&& mailbox_parses(sender_text())
            &&& mailbox_parses(email)
            &&& m.from@ == sender_text()
            &&& m.to@ == email
            &&& m.subject@ == mail_subject()
            &&& is_url_safe_id(m.link@, ACTIVATION_LINK_LEN as nat)
            &&& !before.dom().contains(m.link@)
            &&& m.body@ == activation_url_prefix() + m.link@
            &&& after == before.insert(m.link@, email)
        },
    }
}

/// `r` is what preparing the verification mail for `email` with the
/// activation link `link` answers when the registry goes from `before` to
/// `after`.
pub open spec fn mail_prepared_with_link(
    email: Seq<char>,
    link: Seq<char>,
    before: Map<Seq<char>, Seq<char>>,
    after: Map<Seq<char>, Seq<char>>,
    r: Result<VerificationMail, ServiceError>,
) -> bool {
    if mailbox_parses(sender_text()) && mailbox_parses(email) {
        &&& r matches Ok(m)
        &&& m.from@ == sender_text()
        &&& m.to@ == email
        &&& m.subject@ == mail_subject()
        &&& m.link@ == link
        &&& m.body@ == activation_url_prefix() + link
        &&& after == before.insert(link, email)
    } else {
        &&& r matches Err(e)
        &&& e == ServiceError::InternalError
        &&& after == before
    }
}

/// Prepares the verification mail for `email` that carries `link`.
///
/// Both the sender and `email` must read as mailboxes; else the service
/// answers `InternalError` and records nothing. Otherwise `link` is
/// recorded as activating `email`, and the mail carries it.
pub fn prepare_verification_mail_with_link(
    email: &str,
    link: String,
    activators: &mut ActivationRegistry,
) -> (r: Result<VerificationMail, ServiceError>)
    ensures
        mail_prepared_with_link(email@, link@, old(activators)@, final(activators)@, r),
{
    let sender = "Kantyna-App <kantyna.noreply@mikut.dev>";
    if !(parse_mailbox(sender) && parse_mailbox(email)) {
        return Err(ServiceError::InternalError);
    }
    let _ = activators.insert(link.clone(), String::from_str(email));
    let mut body = String::from_str("http://127.0.0.1:4765/api/user/activate/");
    append_text(&mut body, link.as_str());
    Ok(
        VerificationMail {
            from: String::from_str(sender),
            to: String::from_str(email),
            subject: String::from_str("Twój kod do kantyny"),
            body,
            link,
        },
    )
}

/// Prepares the verification mail for `email` with a fresh random link; a
/// drawn link that is already pending is replaced by one that is not, so
/// no earlier link is taken over.
pub fn prepare_verification_mail(email: &str, activators: &mut ActivationRegistry) -> (r: Result<
    VerificationMail,
    ServiceError,
>)
    ensures
        mail_prepared(email@, old(activators)@, final(activators)@, r),
{
    let drawn = random_url_safe_id(ACTIVATION_LINK_LEN);
    let link = activators.unused_link(drawn);
    prepare_verification_mail_with_link(email, link, activators)
}

/// How sending the verification mail went.
#[derive(Debug, Clone, Copy, PartialEq, Eq)]
pub enum MailDelivery {
    /// The message could not be put together.
    NotBuilt,
    /// The mail server did not take it.
    Failed,
    /// The mail was sent.
    Sent,
}

/// The answer to a registration once its verification mail went out, or did not.
pub fn verification_mail_reply(delivery: MailDelivery) -> (r: Result<String, ServiceError>)
    ensures
        match delivery {
            MailDelivery::Sent => r matches Ok(t) && t@ == "Registered successfully; email send"@,
            _ => r == Err::<String, ServiceError>(ServiceError::InternalError),
        },
{
    match delivery {
        MailDelivery::Sent => Ok(String::from_str("Registered successfully; email send")),
        _ => Err(ServiceError::InternalError),
    }
}

} // verus!
