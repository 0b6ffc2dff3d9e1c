//! Verified core of a self-hosted `.env` manager: the stored-secret format,
//! the `.env` file renderer, token scoping and the request decisions of the
//! server, with the I/O left to the surrounding program.
use vstd::prelude::*;

pub mod auth;
pub mod client;
pub mod crypto;
pub mod dotenv;
pub mod error;
pub mod hashing;
pub mod ids;
pub mod models;
pub mod routes;
pub mod scope;
pub mod setup;
pub mod text;
