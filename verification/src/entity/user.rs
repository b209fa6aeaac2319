//! A row of the `user` table.

use vstd::prelude::*;

verus! {

/// A user account as stored in the `user` table.
#[derive(Debug, PartialEq, Eq)]
pub struct Model {
    /// The primary key.
    pub id: i32,
    /// The account's email address; unique.
    pub email: String,
    pub username: String,
    /// The bcrypt hash of the password.
    pub password: String,
    pub balance: i32,
    /// 1 once the account is activated, else 0.
    pub verified: i8,
    /// 1 for administrators, else 0.
    pub admin: i8,
}

} // verus!
