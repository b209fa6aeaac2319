//! The errors that the service answers with.

use vstd::prelude::*;

verus! {

/// An error answer of the service.
#[derive(Debug, PartialEq, Eq)]
pub enum ServiceError {
    /// Something failed on the server's side (database, mail, hashing).
    InternalError,
    /// The request cannot be served as asked; the text says why.
    BadRequest(String),
    /// The credentials were refused; the text says why.
    Unauthorized(String),
    /// The bearer token could not be verified.
    JWTInvalidToken,
}

/// `r` is a `BadRequest` with the text `msg`.
pub open spec fn is_bad_request<T>(r: Result<T, ServiceError>, msg: Seq<char>) -> bool {
    r matches Err(ServiceError::BadRequest(m)) && m@ == msg
}

/// `r` is an `Unauthorized` with the text `msg`.
pub open spec fn is_unauthorized<T>(r: Result<T, ServiceError>, msg: Seq<char>) -> bool {
    r matches Err(ServiceError::Unauthorized(m)) && m@ == msg
}

/// `r` is an `InternalError`.
pub open spec fn is_internal_error<T>(r: Result<T, ServiceError>) -> bool {
    r matches Err(ServiceError::InternalError)
}

/// `r` is a success whose text is `msg`.
pub open spec fn is_ok_text(r: Result<String, ServiceError>, msg: Seq<char>) -> bool {
    r matches Ok(t) && t@ == msg
}

/// A `BadRequest` with the text `msg`.
pub fn bad_request(msg: &str) -> (e: ServiceError)
    ensures
        e matches ServiceError::BadRequest(m) && m@ == msg@,
{
    ServiceError::BadRequest(String::from_str(msg))
}

/// An `Unauthorized` with the text `msg`.
pub fn unauthorized(msg: &str) -> (e: ServiceError)
    ensures
        e matches ServiceError::Unauthorized(m) && m@ == msg@,
{
    ServiceError::Unauthorized(String::from_str(msg))
}

} // verus!
