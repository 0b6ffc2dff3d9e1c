//! Admin login: checking the credentials and opening a session.
use vstd::prelude::*;
use crate::auth::token_matches;
use crate::error::AppError;
use crate::hashing::{bcrypt_check, password_matches, sha256_hex, sha256_hex_text};
use crate::ids::{is_uuid_v4_text, new_record_id};

verus! {

/// A login request's body.
#[derive(Debug)]
pub struct LoginRequest {
    pub username: String,
    pub password: String,
}

/// A successful login's answer: the admin's name and the session token,
/// handed out once.
#[derive(Debug)]
pub struct LoginResponse {
    pub username: String,
    pub token: String,
}

/// The stored credentials of the admin user.
#[derive(Debug)]
pub struct AdminCredentials {
    pub username: String,
    pub password_hash: String,
}

/// The outcome of a login with `password` against the stored admin user
/// with the requested name, if there is one.
pub open spec fn login_outcome(password: Seq<char>, user: Option<AdminCredentials>) -> Result<
    Seq<char>,
    AppError,
> {
    match user {
        Some(u) => if token_matches(password, u.password_hash@) {
            Ok(u.username@)
        } else {
            Err(AppError::Unauthorized)
        },
        None => Err(AppError::Unauthorized),
    }
}

/// Checks a login: the admin user with the requested name must exist and the
/// password must match its bcrypt hash; otherwise `Unauthorized`.
pub fn check_login(request: &LoginRequest, user: Option<AdminCredentials>) -> (res: Result<
    String,
    AppError,
>)
    ensures
        match res {
            Ok(name) => login_outcome(request.password@, user) == Ok::<Seq<char>, AppError>(name@),
            Err(e) => login_outcome(request.password@, user) == Err::<Seq<char>, AppError>(e),
        },
{
    match user {
        None => Err(AppError::Unauthorized),
        Some(u) => {
            if password_matches(request.password.as_str(), u.password_hash.as_str()) {
                Ok(u.username)
            } else {
                Err(AppError::Unauthorized)
            }
        },
    }
}

/// The stored form of a session token: the SHA-256 digest of its UTF-8
/// bytes in lowercase hex, 64 characters.
pub fn hash_token(token: &str) -> (res: String)
    ensures
        res@ == sha256_hex_text(token@),
        res@.len() == 64,
{
    sha256_hex(token)
}

/// A new admin session: the token handed to the client and the hash that is
/// stored for it.
#[derive(Debug)]
pub struct SessionGrant {
    pub token: String,
    pub token_hash: String,
}

/// Opens a session: a fresh random token in UUID form and its stored hash,
/// which is the hash the session lookup computes from that bearer token.
pub fn new_session() -> (res: SessionGrant)
    ensures
        is_uuid_v4_text(res.token@),
        res.token_hash@ == sha256_hex_text(res.token@),
{
    let token = new_record_id();
    let token_hash = hash_token(token.as_str());
    SessionGrant { token, token_hash }
}

/// The answer to a successful login.
pub fn login_response(username: String, grant: &SessionGrant) -> (res: LoginResponse)
    ensures
        res.username == username,
        res.token@ == grant.token@,
{
    LoginResponse { username, token: grant.token.clone() }
}

/// The admin seeded on first start can log in with the configured password:
/// a stored hash that bcrypt accepts for the password lets the login through
/// under the stored name.
pub proof fn lemma_seeded_admin_logs_in(password: Seq<char>, user: AdminCredentials)
    requires
        bcrypt_check(password, user.password_hash@) == Some(true),
    ensures
        login_outcome(password, Some(user)) == Ok::<Seq<char>, AppError>(user.username@),
{
}

} // verus!
