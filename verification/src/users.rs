//! The decisions of the user routes. Each route reads or writes the
//! database between its decisions; the caller performs those reads and
//! writes and hands their outcome to the next decision here.

use vstd::prelude::*;
use crate::activation::ActivationRegistry;
use crate::entity::user::Model;
use crate::error::{
    bad_request, unauthorized, is_bad_request, is_internal_error, is_ok_text, is_unauthorized,
    ServiceError,
};
use crate::mail::{mail_prepared, prepare_verification_mail, VerificationMail};
use crate::password::{
    bcrypt_verify, check_password, hash_password, hash_readable, is_hash_of, is_service_hash_text,
    password_bytes,
};
use crate::token::{
    claims_json, create_jwt, hs256_token, jwt_secret_text, session_token_answer, spec_session_expiry,
    TokenError, MAX_TIMESTAMP, MIN_TIMESTAMP, TOKEN_LIFETIME_SECS,
};

verus! {

/// The outcome of looking a user up in the database.
#[derive(Debug, PartialEq, Eq)]
pub enum UserLookup {
    /// The database failed.
    Failed,
    /// No such user.
    Missing,
    /// The user's row.
    Found(Model),
}

/// The outcome of writing to the database.
#[derive(Debug, Clone, Copy, PartialEq, Eq)]
pub enum WriteOutcome {
    Failed,
    Done,
}

fn text(s: &str) -> (r: String)
    ensures
        r@ == s@,
{
    String::from_str(s)
}

// ----- get-user-data -----

/// The answer of `get-user-data` once the user was looked up by id.
pub open spec fn user_data_answer(lookup: UserLookup, r: Result<String, ServiceError>) -> bool {
    match lookup {
        UserLookup::Failed => is_internal_error(r),
        UserLookup::Missing => is_bad_request(r, "Account does not exist"@),
        UserLookup::Found(u) => is_ok_text(r, "User data: "@ + u.username@),
    }
}

/// Answers `get-user-data` from the lookup of the asking user.
pub fn user_data_reply(lookup: UserLookup) -> (r: Result<String, ServiceError>)
    ensures
        user_data_answer(lookup, r),
{
    match lookup {
        UserLookup::Failed => Err(ServiceError::InternalError),
        UserLookup::Missing => Err(bad_request("Account does not exist")),
        UserLookup::Found(u) => {
            let mut t = text("User data: ");
            t.append(u.username.as_str());
            Ok(t)
        },
    }
}

// ----- login -----

/// The answer to a matching password for user `uid` when the clock reads
/// `now`: the session token that expires a lifetime later, or
/// `InternalError` when chrono cannot hold that time.
pub open spec fn session_reply_answer(uid: int, now: i64, x: Result<String, ServiceError>) -> bool {
    match spec_session_expiry(now as int) {
        Some(e) => x matches Ok(t) && hs256_token(
            jwt_secret_text(),
            claims_json(uid, ((e as i64) as u64) as nat),
        ) == Some(t@),
        None => is_internal_error(x),
    }
}

/// `x` is the answer to a matching password for user `uid` at some
/// reading of the clock.
pub open spec fn session_reply_at_some_time(uid: int, x: Result<String, ServiceError>) -> bool {
    exists|now: i64|
        MIN_TIMESTAMP <= now <= MAX_TIMESTAMP && #[trigger] session_reply_answer(uid, now, x)
}

/// The answer of `login` for `password` once the user was looked up by
/// email. `None` stands for a stored hash that bcrypt cannot read, on which
/// the route gives up (it panics).
pub open spec fn login_answer(
    lookup: UserLookup,
    password: Seq<u8>,
    r: Option<Result<String, ServiceError>>,
) -> bool {
    match lookup {
        UserLookup::Failed => r matches Some(x) && is_internal_error(x),
        UserLookup::Missing => r matches Some(x) && is_bad_request(x, "Account does not exist"@),
        UserLookup::Found(u) => match bcrypt_verify(password, u.password@) {
            None => r is None,
            Some(false) => r matches Some(x) && is_unauthorized(x, "Invalid credentials"@),
            Some(true) => r matches Some(x) && session_reply_at_some_time(u.id as int, x),
        },
    }
}

/// The answer to a successful login once the session token was made, or not.
pub fn session_reply(token: Result<String, TokenError>) -> (r: Result<String, ServiceError>)
    ensures
        match token {
            Ok(t) => r matches Ok(x) && x@ == t@,
            Err(_) => is_internal_error(r),
        },
{
    match token {
        Ok(t) => Ok(t),
        Err(_) => Err(ServiceError::InternalError),
    }
}

/// Answers `login` with `password`, given the lookup of the user by email:
/// a session token when the password matches the stored hash.
pub fn login_after_lookup(lookup: UserLookup, password: &str) -> (r: Option<
    Result<String, ServiceError>,
>)
    ensures
        login_answer(lookup, password_bytes(password@), r),
{
    match lookup {
        UserLookup::Failed => Some(Err(ServiceError::InternalError)),
        UserLookup::Missing => Some(Err(bad_request("Account does not exist"))),
        UserLookup::Found(u) => match check_password(password, u.password.as_str()) {
            None => None,
            Some(false) => Some(Err(unauthorized("Invalid credentials"))),
            Some(true) => {
                let token = create_jwt(u.id);
                let x = session_reply(token);
                proof {
                    let now = choose|now: i64|
                        MIN_TIMESTAMP <= now <= MAX_TIMESTAMP && #[trigger] session_token_answer(
                            u.id as int,
                            now,
                            token,
                        );
                    assert(session_reply_answer(u.id as int, now, x));
                }
                Some(x)
            },
        },
    }
}

// ----- change-password -----

/// What `change-password` does next after looking the user up.
#[derive(Debug)]
pub enum PasswordChange {
    /// Store this row, whose password hash changed.
    Store(Model),
    /// Answer the request.
    Reply(Result<String, ServiceError>),
}

/// `v` is `u` with only its password hash changed.
pub open spec fn same_but_password(u: Model, v: Model) -> bool {
    &&& v.id == u.id
    &&& v.email == u.email
    &&& v.username == u.username
    &&& v.balance == u.balance
    &&& v.verified == u.verified
    &&& v.admin == u.admin
}

/// The decision of `change-password` from `old_password` to
/// `new_password` once the user was looked up by id. `None` stands for a
/// stored hash that bcrypt cannot read, on which the route gives up.
pub open spec fn password_change_answer(
    lookup: UserLookup,
    old_password: Seq<u8>,
    new_password: Seq<u8>,
    r: Option<PasswordChange>,
) -> bool {
    match lookup {
        UserLookup::Failed => r matches Some(PasswordChange::Reply(x)) && is_internal_error(x),
        UserLookup::Missing => r matches Some(PasswordChange::Reply(x)) && is_bad_request(
            x,
            "Account does not exist"@,
        ),
        UserLookup::Found(u) => match bcrypt_verify(old_password, u.password@) {
            None => r is None,
            Some(false) => r matches Some(PasswordChange::Reply(x)) && is_bad_request(
                x,
                "Old password is incorrect"@,
            ),
            Some(true) => r matches Some(PasswordChange::Store(v)) && same_but_password(u, v)
                && is_hash_of(new_password, v.password@) && bcrypt_verify(new_password, v.password@)
                == Some(true) && hash_readable(v.password@) && is_service_hash_text(v.password@),
        },
    }
}

/// Decides `change-password`, given the lookup of the asking user: the old
/// password must match the stored hash, and then the new one is hashed
/// with a fresh salt.
pub fn change_password_after_lookup(
    lookup: UserLookup,
    old_password: &str,
    new_password: &str,
) -> (r: Option<PasswordChange>)
    ensures
        password_change_answer(lookup, password_bytes(old_password@), password_bytes(new_password@), r),
{
    match lookup {
        UserLookup::Failed => Some(PasswordChange::Reply(Err(ServiceError::InternalError))),
        UserLookup::Missing => Some(
            PasswordChange::Reply(Err(bad_request("Account does not exist"))),
        ),
        UserLookup::Found(u) => match check_password(old_password, u.password.as_str()) {
            None => None,
            Some(false) => Some(
                PasswordChange::Reply(Err(bad_request("Old password is incorrect"))),
            ),
            Some(true) => {
                let hashed = hash_password(new_password);
                Some(
                    PasswordChange::Store(
                        Model {
                            id: u.id,
                            email: u.email,
                            username: u.username,
                            password: hashed,
                            balance: u.balance,
                            verified: u.verified,
                            admin: u.admin,
                        },
                    ),
                )
            },
        },
    }
}

/// Answers `change-password` once the new hash was stored, or not.
pub fn change_password_after_store(outcome: WriteOutcome) -> (r: Result<String, ServiceError>)
    ensures
        match outcome {
            WriteOutcome::Done => is_ok_text(r, "Password changed"@),
            WriteOutcome::Failed => is_internal_error(r),
        },
{
    match outcome {
        WriteOutcome::Done => Ok(text("Password changed")),
        WriteOutcome::Failed => Err(ServiceError::InternalError),
    }
}

// ----- register -----

/// A user row to insert; the other columns take their defaults.
#[derive(Debug, PartialEq, Eq)]
pub struct NewUser {
    pub username: String,
    pub email: String,
    /// The bcrypt hash of the password.
    pub password: String,
}

/// What `register` does next after looking the email up.
#[derive(Debug)]
pub enum Registration {
    /// Insert this row.
    Insert(NewUser),
    /// Answer the request.
    Reply(Result<String, ServiceError>),
}

/// The decision of `register` for the submitted `form` once its email was
/// looked up.
pub open spec fn registration_answer(lookup: UserLookup, form: Model, r: Registration) -> bool {
    match lookup {
        UserLookup::Failed => r matches Registration::Reply(x) && is_internal_error(x),
        UserLookup::Found(_) => r matches Registration::Reply(x) && is_bad_request(
            x,
            "Account already exists"@,
        ),
        UserLookup::Missing => r matches Registration::Insert(n) && n.username == form.username
            && n.email == form.email && is_hash_of(password_bytes(form.password@), n.password@)
            && bcrypt_verify(password_bytes(form.password@), n.password@) == Some(true)
            && hash_readable(n.password@) && is_service_hash_text(n.password@),
    }
}

/// Decides `register` for the submitted `form`, given the lookup of its
/// email: a new email gets a row whose password is hashed with a fresh salt.
pub fn register_after_lookup(lookup: UserLookup, form: Model) -> (r: Registration)
    ensures
        registration_answer(lookup, form, r),
{
    match lookup {
        UserLookup::Failed => Registration::Reply(Err(ServiceError::InternalError)),
        UserLookup::Found(_) => Registration::Reply(Err(bad_request("Account already exists"))),
        UserLookup::Missing => {
            let hashed = hash_password(form.password.as_str());
            Registration::Insert(
                NewUser { username: form.username, email: form.email, password: hashed },
            )
        },
    }
}

/// Once the row for `email` was inserted, or not: prepares the
/// verification mail, recording its activation link.
pub fn register_after_insert(
    outcome: WriteOutcome,
    email: &str,
    activators: &mut ActivationRegistry,
) -> (r: Result<VerificationMail, ServiceError>)
    ensures
        match outcome {
            WriteOutcome::Failed => r is Err && is_internal_error(r) && final(activators)@ == old(
                activators,
            )@,
            WriteOutcome::Done => mail_prepared(email@, old(activators)@, final(activators)@, r),
        },
{
    match outcome {
        WriteOutcome::Failed => Err(ServiceError::InternalError),
        WriteOutcome::Done => prepare_verification_mail(email, activators),
    }
}

// ----- activate -----

/// The email address that the pending link `token` activates, if any.
pub open spec fn activation_target(
    activators: Map<Seq<char>, Seq<char>>,
    token: Seq<char>,
) -> Option<Seq<char>> {
    if activators.dom().contains(token) {
        Some(activators[token])
    } else {
        None
    }
}

/// The email address that the activation link `token` leads to; an
/// unknown link is answered `InternalError`.
pub fn activation_email(activators: &ActivationRegistry, token: &String) -> (r: Result<
    String,
    ServiceError,
>)
    ensures
        match activation_target(activators@, token@) {
            Some(email) => r matches Ok(e) && e@ == email,
            None => is_internal_error(r),
        },
{
    match activators.get(token) {
        Some(email) => Ok(email),
        None => Err(ServiceError::InternalError),
    }
}

/// `v` is `u` marked as activated.
pub open spec fn activated(u: Model, v: Model) -> bool {
    &&& v.id == u.id
    &&& v.email == u.email
    &&& v.username == u.username
    &&& v.password == u.password
    &&& v.balance == u.balance
    &&& v.verified == 1
    &&& v.admin == u.admin
}

/// Decides activation once the user of the link's email was looked up:
/// the row to store, marked as activated; a failed lookup or a missing
/// user is answered `InternalError`.
pub fn activate_after_lookup(lookup: UserLookup) -> (r: Result<Model, ServiceError>)
    ensures
        match lookup {
            UserLookup::Found(u) => r matches Ok(v) && activated(u, v),
            _ => is_internal_error(r),
        },
{
    match lookup {
        UserLookup::Found(u) => Ok(
            Model {
                id: u.id,
                email: u.email,
                username: u.username,
                password: u.password,
                balance: u.balance,
                verified: 1,
                admin: u.admin,
            },
        ),
        _ => Err(ServiceError::InternalError),
    }
}

/// Answers activation once the activated row was stored, or not.
pub fn activate_after_store(outcome: WriteOutcome) -> (r: Result<String, ServiceError>)
    ensures
        match outcome {
            WriteOutcome::Done => is_ok_text(r, "account verified successfully"@),
            WriteOutcome::Failed => is_internal_error(r),
        },
{
    match outcome {
        WriteOutcome::Done => Ok(text("account verified successfully")),
        WriteOutcome::Failed => Err(ServiceError::InternalError),
    }
}

/// The link that the verification mail carries leads back to the email it
/// was mailed to, and every other pending link still leads where it did.
pub proof fn lemma_mailed_link_leads_to_email(
    email: Seq<char>,
    before: Map<Seq<char>, Seq<char>>,
    after: Map<Seq<char>, Seq<char>>,
    mail: VerificationMail,
    other: Seq<char>,
)
    requires
        mail_prepared(email, before, after, Ok(mail)),
    ensures
        activation_target(after, mail.link@) == Some(email),
        other != mail.link@ ==> activation_target(after, other) == activation_target(before, other),
{
}

/// After a password change, logging in with the new password is never
/// refused: it gets the session token for the clock's reading (or
/// `InternalError` when chrono cannot hold its expiry).
pub proof fn lemma_changed_password_logs_in(
    u: Model,
    old_password: Seq<u8>,
    new_password: Seq<u8>,
    v: Model,
    r: Option<Result<String, ServiceError>>,
)
    requires
        password_change_answer(
            UserLookup::Found(u),
            old_password,
            new_password,
            Some(PasswordChange::Store(v)),
        ),
        login_answer(UserLookup::Found(v), new_password, r),
    ensures
        r matches Some(x) && session_reply_at_some_time(u.id as int, x),
{
}

/// A registered account whose row holds the hash that registration made
/// logs in with the password it was registered with.
pub proof fn lemma_registered_password_logs_in(
    form: Model,
    new_user: NewUser,
    stored: Model,
    r: Option<Result<String, ServiceError>>,
)
    requires
        registration_answer(UserLookup::Missing, form, Registration::Insert(new_user)),
        stored.password == new_user.password,
        login_answer(UserLookup::Found(stored), password_bytes(form.password@), r),
    ensures
        r matches Some(x) && session_reply_at_some_time(stored.id as int, x),
{
}

/// Login never gives up on a stored hash that bcrypt can read, as every
/// hash the service writes is: it answers with `Some`.
pub proof fn lemma_login_answers_on_readable_hash(
    u: Model,
    password: Seq<u8>,
    r: Option<Result<String, ServiceError>>,
)
    requires
        hash_readable(u.password@),
        login_answer(UserLookup::Found(u), password, r),
    ensures
        r is Some,
{
    assert(bcrypt_verify(password, u.password@) is Some);
}

/// A password change never gives up on a stored hash that bcrypt can
/// read, as every hash the service writes is: it answers with `Some`.
pub proof fn lemma_change_password_answers_on_readable_hash(
    u: Model,
    old_password: Seq<u8>,
    new_password: Seq<u8>,
    r: Option<PasswordChange>,
)
    requires
        hash_readable(u.password@),
        password_change_answer(UserLookup::Found(u), old_password, new_password, r),
    ensures
        r is Some,
{
    assert(bcrypt_verify(old_password, u.password@) is Some);
}

/// No two rows of `table` share an email address.
pub open spec fn emails_unique(table: Seq<Model>) -> bool {
    forall|i: int, j: int|
        0 <= i < table.len() && 0 <= j < table.len() && i != j ==> #[trigger] table[i].email@
            != #[trigger] table[j].email@
}

/// `lookup` is a lookup of `email` in `table`: missing only when no row
/// has that email, and found only as a row with that email.
pub open spec fn looked_up_by_email(table: Seq<Model>, email: Seq<char>, lookup: UserLookup) -> bool {
    match lookup {
        UserLookup::Failed => true,
        UserLookup::Missing => forall|i: int| 0 <= i < table.len() ==> #[trigger] table[i].email@ != email,
        UserLookup::Found(u) => u.email@ == email && exists|i: int| 0 <= i < table.len() && #[trigger] table[i] == u,
    }
}

/// Registration keeps the email column unique: it inserts only after the
/// email was looked up and found missing, and the row it inserts carries
/// that email; otherwise it answers without inserting.
pub proof fn lemma_register_keeps_emails_unique(
    table: Seq<Model>,
    form: Model,
    lookup: UserLookup,
    r: Registration,
    row: Model,
)
    requires
        emails_unique(table),
        looked_up_by_email(table, form.email@, lookup),
        registration_answer(lookup, form, r),
        r matches Registration::Insert(n) ==> row.email == n.email,
    ensures
        r is Insert ==> emails_unique(table.push(row)),
{
    if r is Insert {
        let t = table.push(row);
        assert forall|i: int, j: int|
            0 <= i < t.len() && 0 <= j < t.len() && i != j implies #[trigger] t[i].email@
            != #[trigger] t[j].email@ by {
            if i < table.len() && j < table.len() {
                assert(t[i] == table[i] && t[j] == table[j]);
            } else if i < table.len() {
                assert(t[i] == table[i]);
            } else {
                assert(t[j] == table[j]);
            }
        }
    }
}

/// A matching password gets a session token, unless the clock reads
/// within a lifetime of the last second chrono can hold.
pub proof fn lemma_matching_password_gets_token(
    u: Model,
    password: Seq<u8>,
    r: Option<Result<String, ServiceError>>,
)
    requires
        bcrypt_verify(password, u.password@) == Some(true),
        login_answer(UserLookup::Found(u), password, r),
    ensures
        r matches Some(x) && (x is Ok || exists|now: i64|
            MAX_TIMESTAMP - TOKEN_LIFETIME_SECS < now <= MAX_TIMESTAMP
                && #[trigger] session_reply_answer(u.id as int, now, x)),
{
    let x = r.unwrap();
    let now = choose|now: i64|
        MIN_TIMESTAMP <= now <= MAX_TIMESTAMP && #[trigger] session_reply_answer(u.id as int, now, x);
    if x is Err {
        assert(MAX_TIMESTAMP - TOKEN_LIFETIME_SECS < now);
    }
}

/// At one clock reading, the answer to a matching password depends only
/// on the user's id: two such answers for the same id are the same text.
pub proof fn lemma_same_clock_same_answer(
    uid: int,
    now: i64,
    x1: Result<String, ServiceError>,
    x2: Result<String, ServiceError>,
)
    requires
        session_reply_answer(uid, now, x1),
        session_reply_answer(uid, now, x2),
    ensures
        x1 is Ok <==> x2 is Ok,
        x1 is Ok ==> x1->Ok_0@ == x2->Ok_0@,
        x1 is Err ==> x1 == x2,
{
}

/// Preparing a verification mail records a link that was not pending, and
/// every link that was pending still leads to the email it led to.
pub proof fn lemma_pending_links_survive(
    email: Seq<char>,
    before: Map<Seq<char>, Seq<char>>,
    after: Map<Seq<char>, Seq<char>>,
    mail: VerificationMail,
    link: Seq<char>,
)
    requires
        mail_prepared(email, before, after, Ok(mail)),
        before.dom().contains(link),
    ensures
        link != mail.link@,
        activation_target(after, link) == activation_target(before, link),
{
}

/// Two registrations one after the other mail different links, and each
/// link leads to the email it was mailed to.
pub proof fn lemma_two_registrations_keep_their_links(
    a: Seq<char>,
    b: Seq<char>,
    r0: Map<Seq<char>, Seq<char>>,
    r1: Map<Seq<char>, Seq<char>>,
    r2: Map<Seq<char>, Seq<char>>,
    ma: VerificationMail,
    mb: VerificationMail,
)
    requires
        mail_prepared(a, r0, r1, Ok(ma)),
        mail_prepared(b, r1, r2, Ok(mb)),
    ensures
        ma.link@ != mb.link@,
        activation_target(r2, ma.link@) == Some(a),
        activation_target(r2, mb.link@) == Some(b),
{
    assert(r1.dom().contains(ma.link@));
}

} // verus!
