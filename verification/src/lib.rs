//! Host filesystem abstraction and credential security layer.
//!
//! A user registers "hosts" (a local directory, an HTTP endpoint, or an SFTP
//! server) and performs uniform file operations against them. This crate holds
//! the verified core of that service:
//!
//! * a credential vault that encrypts and decrypts host secrets with
//!   authenticated encryption (`vault`),
//! * a path resolver that keeps every requested path inside its root
//!   (`paths`),
//! * the ordering rules for directory listings (`listing`),
//! * the ownership guard and the dispatcher that validates a host's
//!   configuration and routes an operation to the right backend (`guard`,
//!   `dispatch`),
//! * password hashing for user accounts (`auth`).
//!
//! I/O itself (disk, HTTP, SFTP, the database) lives outside this crate; the
//! functions here compute plans, validate inputs and transform values, and
//! every one of them carries a contract.

pub mod auth;
pub mod dispatch;
pub mod errors;
pub mod guard;
pub mod listing;
pub mod models;
pub mod paths;
pub mod text;
pub mod vault;
