//! The database rows that the library reads and writes.

pub mod user;
