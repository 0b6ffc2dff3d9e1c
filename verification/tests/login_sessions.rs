use centralenv::error::AppError;
use centralenv::hashing::sha256_hex;
use centralenv::routes::auth::{check_login, login_response, new_session, AdminCredentials, LoginRequest};

fn admin(password: &str) -> AdminCredentials {
    AdminCredentials { username: "admin".to_string(), password_hash: bcrypt::hash(password, 4).unwrap() }
}

fn request(password: &str) -> LoginRequest {
    LoginRequest { username: "admin".to_string(), password: password.to_string() }
}

#[test]
fn right_password_logs_in() {
    assert_eq!(check_login(&request("changeme"), Some(admin("changeme"))).unwrap(), "admin");
}

#[test]
fn wrong_password_is_unauthorized() {
    assert_eq!(check_login(&request("guess"), Some(admin("changeme"))), Err(AppError::Unauthorized));
}

#[test]
fn unknown_user_is_unauthorized() {
    assert_eq!(check_login(&request("changeme"), None), Err(AppError::Unauthorized));
}

#[test]
fn broken_stored_hash_is_unauthorized() {
    let user = AdminCredentials { username: "admin".to_string(), password_hash: "$2b$xx".to_string() };
    assert_eq!(check_login(&request("changeme"), Some(user)), Err(AppError::Unauthorized));
}

#[test]
fn new_session_stores_hash_of_its_token() {
    let grant = new_session();
    assert_eq!(grant.token.len(), 36);
    assert_eq!(grant.token_hash, sha256_hex(&grant.token));
    let other = new_session();
    assert_ne!(grant.token, other.token);
    let resp = login_response("admin".to_string(), &grant);
    assert_eq!(resp.username, "admin");
    assert_eq!(resp.token, grant.token);
}
