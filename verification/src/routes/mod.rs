//! The decisions of the server's request handlers.
pub mod auth;
pub mod environments;
pub mod projects;
pub mod tokens;
pub mod variables;
