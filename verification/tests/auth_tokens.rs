use centralenv::auth::{admin_session, authenticate_token, find_token, StoredToken};
use centralenv::routes::auth::hash_token;
use centralenv::error::AppError;
use centralenv::hashing::{hash_secret, password_matches, sha256_hex};

fn stored(id: &str, secret: &str) -> StoredToken {
    StoredToken { id: id.to_string(), token_hash: bcrypt::hash(secret, 4).unwrap() }
}

#[test]
fn sha256_hex_of_abc() {
    assert_eq!(
        sha256_hex("abc"),
        "ba7816bf8f01cfea414140de5dae2223b00361a396177a9cb410ff61f20015ad"
    );
    assert_eq!(hash_token("abc"), sha256_hex("abc"));
    assert_eq!(sha256_hex("").len(), 64);
}

#[test]
fn first_matching_token_wins() {
    let tokens = vec![stored("t1", "alpha"), stored("t2", "beta"), stored("t3", "beta")];
    assert_eq!(find_token("beta", &tokens), Some(1));
    assert_eq!(find_token("alpha", &tokens), Some(0));
    assert_eq!(find_token("gamma", &tokens), None);
    assert_eq!(authenticate_token("beta", &tokens).unwrap().0, "t2");
}

#[test]
fn unknown_token_is_unauthorized() {
    let tokens = vec![stored("t1", "alpha")];
    assert_eq!(authenticate_token("nope", &tokens).unwrap_err(), AppError::Unauthorized);
    assert_eq!(authenticate_token("x", &vec![]).unwrap_err(), AppError::Unauthorized);
}

#[test]
fn unreadable_hash_matches_nothing() {
    let tokens = vec![StoredToken { id: "bad".to_string(), token_hash: "not-a-hash".to_string() }];
    assert_eq!(find_token("anything", &tokens), None);
    assert!(!password_matches("anything", "not-a-hash"));
}

#[test]
fn hashed_secret_is_accepted() {
    let h = hash_secret("s3cret").unwrap();
    assert!(password_matches("s3cret", &h));
    assert!(!password_matches("other", &h));
    let tokens = vec![stored("a", "x"), StoredToken { id: "b".to_string(), token_hash: h }];
    assert_eq!(authenticate_token("s3cret", &tokens).unwrap().0, "b");
}

#[test]
fn session_lookup_answers() {
    assert_eq!(admin_session(Some("s1".to_string())).unwrap().0, "s1");
    assert_eq!(admin_session(None).unwrap_err(), AppError::Unauthorized);
}

#[test]
fn hashed_secret_is_version_2b_at_cost_12() {
    let h = hash_secret("correct horse").unwrap();
    assert_eq!(h.len(), 60);
    assert!(h.starts_with("$2b$12$"));
    assert!(h[7..].chars().all(|c| c == '.' || c == '/' || c.is_ascii_alphanumeric()));
}

#[test]
fn token_authenticates_as_its_row_and_not_after_delete() {
    let mut tokens = vec![stored("a", "other-1"), stored("b", "mine"), stored("c", "other-2")];
    match authenticate_token("mine", &tokens) {
        Ok(auth) => assert_eq!(auth.0, "b"),
        Err(e) => panic!("unexpected {:?}", e),
    }
    tokens.remove(1);
    assert_eq!(authenticate_token("mine", &tokens).err(), Some(AppError::Unauthorized));
}
