//! Verified core of the Kantyna canteen back end: bearer-token handling,
//! JSON web tokens for user sessions, password hashing, account activation
//! links and the decisions that the user routes make between database calls.

pub mod decimal;
pub mod error;
pub mod auth;
pub mod token;
pub mod ids;
pub mod password;
pub mod activation;
pub mod mail;
pub mod entity;
pub mod users;
