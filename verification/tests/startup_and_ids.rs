use base64::engine::general_purpose::STANDARD;
use base64::Engine;
use centralenv::error::{require_affected, require_found, AppError, Failure};
use centralenv::hashing::password_matches;
use centralenv::ids::{new_api_token, new_record_id};
use centralenv::setup::{parse_master_key, plan_admin_seed, trim, MasterKeyError};

#[test]
fn trim_removes_unicode_whitespace_at_both_ends() {
    assert_eq!(trim("  a b \n"), "a b");
    assert_eq!(trim("\u{3000}\tx\u{a0}"), "x");
    assert_eq!(trim("   "), "");
    assert_eq!(trim(""), "");
    let samples = ["\u{85}k\u{2028}", " \u{1680}mid dle\u{202f} ", "\u{200a}"];
    for sample in samples {
        assert_eq!(trim(sample), sample.trim());
    }
}

#[test]
fn master_key_is_read_from_trimmed_base64() {
    let raw: Vec<u8> = (100u8..132).collect();
    let text = format!("  {}\n", STANDARD.encode(&raw));
    assert_eq!(parse_master_key(&text).unwrap(), raw);
}

#[test]
fn master_key_of_wrong_length_is_refused() {
    let text = STANDARD.encode([1u8; 16]);
    assert_eq!(parse_master_key(&text), Err(MasterKeyError::WrongLength));
}

#[test]
fn master_key_that_is_not_base64_is_refused() {
    assert_eq!(parse_master_key("not base64!"), Err(MasterKeyError::InvalidBase64));
    assert_eq!(parse_master_key("ab cd"), Err(MasterKeyError::InvalidBase64));
}

#[test]
fn admin_is_seeded_only_when_none_exists() {
    assert!(matches!(plan_admin_seed(1, None, None), Ok(None)));
    let seed = plan_admin_seed(0, None, Some("pw".to_string())).unwrap().unwrap();
    assert_eq!(seed.username, "admin");
    assert!(password_matches("pw", &seed.password_hash));
    let named = plan_admin_seed(0, Some("root".to_string()), Some("pw".to_string())).unwrap().unwrap();
    assert_eq!(named.username, "root");
    let _ = Failure::Hashing;
}

#[test]
fn record_ids_are_version_4_uuids() {
    let id = new_record_id();
    let parsed = uuid::Uuid::parse_str(&id).unwrap();
    assert_eq!(parsed.get_version_num(), 4);
    assert_eq!(id, parsed.to_string());
    assert_ne!(new_record_id(), id);
}

#[test]
fn api_tokens_are_48_alphanumerics() {
    let t = new_api_token();
    assert_eq!(t.len(), 48);
    assert!(t.chars().all(|c| c.is_ascii_alphanumeric()));
    assert_ne!(new_api_token(), t);
}

#[test]
fn missing_rows_are_not_found() {
    assert_eq!(require_found(Some(5)), Ok(5));
    assert_eq!(require_found::<u8>(None), Err(AppError::NotFound));
    assert_eq!(require_affected(0), Err(AppError::NotFound));
    assert_eq!(require_affected(3), Ok(()));
}
