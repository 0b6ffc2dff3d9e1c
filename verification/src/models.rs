//! The rows of the server's tables.
use vstd::prelude::*;

verus! {

/// A project: one application whose environments hold variables.
#[derive(Debug)]
pub struct Project {
    pub id: String,
    pub name: String,
    pub slug: String,
    pub created_at: String,
}

/// An environment of a project, such as `development` or `production`.
#[derive(Debug)]
pub struct Environment {
    pub id: String,
    pub project_id: String,
    pub name: String,
    pub created_at: String,
}

/// A variable of an environment, its value stored sealed.
#[derive(Debug)]
pub struct Variable {
    pub id: String,
    pub environment_id: String,
    pub key: String,
    pub value_encrypted: String,
    pub updated_at: String,
}

/// An API token: its bcrypt hash and its project scope as a JSON list.
#[derive(Debug)]
pub struct Token {
    pub id: String,
    pub name: String,
    pub token_hash: String,
    pub project_ids: String,
    pub last_used_at: Option<String>,
    pub created_at: String,
}

/// The one admin user.
#[derive(Debug)]
pub struct AdminUser {
    pub id: String,
    pub username: String,
    pub password_hash: String,
}

/// An entry of the audit log.
#[derive(Debug)]
pub struct AuditLog {
    pub id: String,
    pub action: String,
    pub actor: String,
    pub project_id: Option<String>,
    pub environment_id: Option<String>,
    pub details: Option<String>,
    pub created_at: String,
}

} // verus!
