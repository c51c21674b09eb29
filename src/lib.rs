//! Authentication and authorization core of a user-account service: Argon2 password
//! hashing, HMAC-signed expiring session tokens, a role-based request guard, and the
//! decisions of the register, login and listing endpoints.

pub mod auth;
pub mod dtos;
pub mod error;
pub mod handler;
pub mod models;
pub mod password;
pub mod text;
pub mod token;
