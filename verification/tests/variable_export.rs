use base64::engine::general_purpose::STANDARD;
use base64::Engine;
use centralenv::auth::TokenAuth;
use centralenv::crypto::{encrypt, CryptoError};
use centralenv::error::{AppError, Failure};
use centralenv::routes::variables::{
    advance_export, environment_name, seal_value, start_export, variable_responses, EnvQuery,
    ExportAction, ExportEvent, ExportState, UpsertVariable, VariableRow,
};

fn key() -> Vec<u8> {
    vec![42u8; 32]
}

fn s(x: &str) -> String {
    x.to_string()
}

#[test]
fn environment_defaults_to_development() {
    assert_eq!(environment_name(EnvQuery { environment: None }), "development");
    assert_eq!(environment_name(EnvQuery { environment: Some(s("prod")) }), "prod");
}

#[test]
fn upserted_value_is_sealed_and_opens_back() {
    let stored = seal_value(&key(), &UpsertVariable { key: s("K"), value: s("v 1") }).unwrap();
    let rows = vec![VariableRow { id: s("id1"), key: s("K"), value_encrypted: stored, updated_at: s("u") }];
    let list = variable_responses(&key(), &rows).unwrap().unwrap();
    assert_eq!(list.len(), 1);
    assert_eq!(list[0].value, "v 1");
    assert_eq!(list[0].key, "K");
    assert_eq!(list[0].id, "id1");
    assert_eq!(list[0].updated_at, "u");
}

#[test]
fn sealing_with_bad_key_is_internal_error() {
    let r = seal_value(&[1u8; 3], &UpsertVariable { key: s("K"), value: s("v") });
    assert_eq!(r, Err(AppError::Internal(Failure::Crypto(CryptoError::InvalidKey))));
}

#[test]
fn listing_stops_at_first_bad_value() {
    let good = encrypt(&key(), "a").unwrap();
    let rows = vec![
        VariableRow { id: s("1"), key: s("A"), value_encrypted: good, updated_at: s("u") },
        VariableRow { id: s("2"), key: s("B"), value_encrypted: s("garbage"), updated_at: s("u") },
    ];
    let r = variable_responses(&key(), &rows).unwrap();
    assert_eq!(r.unwrap_err(), AppError::Internal(Failure::Crypto(CryptoError::InvalidFormat)));
}

#[test]
fn listing_stops_on_misfit_nonce() {
    let bad = format!("{}:{}", STANDARD.encode([0u8; 4]), STANDARD.encode([0u8; 20]));
    let rows = vec![VariableRow { id: s("1"), key: s("A"), value_encrypted: bad, updated_at: s("u") }];
    assert!(variable_responses(&key(), &rows).is_none());
}

fn begin(scope: Option<&str>) -> (ExportState, ExportAction) {
    let (state, action) = start_export(TokenAuth(s("tok")), s("acme"), EnvQuery { environment: None });
    match action {
        ExportAction::FindProject { slug } => assert_eq!(slug, "acme"),
        other => panic!("unexpected {:?}", other),
    }
    let (state, action) = advance_export(&key(), state, ExportEvent::Project(Some(s("p1"))));
    match action {
        ExportAction::FindTokenScope { token_id } => assert_eq!(token_id, "tok"),
        other => panic!("unexpected {:?}", other),
    }
    advance_export(&key(), state, ExportEvent::TokenScope(scope.map(s)))
}

#[test]
fn export_returns_opened_variables() {
    let (state, action) = begin(Some("[]"));
    match action {
        ExportAction::FindEnvironment { project_id, name } => {
            assert_eq!(project_id, "p1");
            assert_eq!(name, "development");
        },
        other => panic!("unexpected {:?}", other),
    }
    let (state, action) = advance_export(&key(), state, ExportEvent::Environment(Some(s("e1"))));
    match action {
        ExportAction::LoadVariables { environment_id } => assert_eq!(environment_id, "e1"),
        other => panic!("unexpected {:?}", other),
    }
    let rows = vec![
        (s("A"), encrypt(&key(), "1").unwrap()),
        (s("B"), encrypt(&key(), "two").unwrap()),
    ];
    let (state, action) = advance_export(&key(), state, ExportEvent::Variables(rows));
    assert!(matches!(state, ExportState::Finished));
    match action {
        ExportAction::Respond(Ok(pairs)) => assert_eq!(pairs, vec![(s("A"), s("1")), (s("B"), s("two"))]),
        other => panic!("unexpected {:?}", other),
    }
}

#[test]
fn export_of_unknown_project_is_not_found() {
    let (state, _) = start_export(TokenAuth(s("tok")), s("nope"), EnvQuery { environment: Some(s("dev")) });
    let (state, action) = advance_export(&key(), state, ExportEvent::Project(None));
    assert!(matches!(state, ExportState::Finished));
    assert!(matches!(action, ExportAction::Respond(Err(AppError::NotFound))));
}

#[test]
fn export_for_deleted_token_is_unauthorized() {
    let (_, action) = begin(None);
    assert!(matches!(action, ExportAction::Respond(Err(AppError::Unauthorized))));
}

#[test]
fn export_outside_token_scope_is_unauthorized() {
    let (_, action) = begin(Some("[\"p2\"]"));
    assert!(matches!(action, ExportAction::Respond(Err(AppError::Unauthorized))));
}

#[test]
fn export_inside_token_scope_goes_on() {
    let (_, action) = begin(Some("[\"p2\",\"p1\"]"));
    assert!(matches!(action, ExportAction::FindEnvironment { .. }));
    let (_, action) = begin(Some("garbage"));
    assert!(matches!(action, ExportAction::FindEnvironment { .. }));
}

#[test]
fn export_of_unknown_environment_is_not_found() {
    let (state, _) = begin(Some("[]"));
    let (_, action) = advance_export(&key(), state, ExportEvent::Environment(None));
    assert!(matches!(action, ExportAction::Respond(Err(AppError::NotFound))));
}

#[test]
fn export_with_undecryptable_value_is_internal_error() {
    let (state, _) = begin(Some("[]"));
    let (state, _) = advance_export(&key(), state, ExportEvent::Environment(Some(s("e"))));
    let rows = vec![(s("A"), encrypt(&[1u8; 32], "x").unwrap())];
    let (_, action) = advance_export(&key(), state, ExportEvent::Variables(rows));
    assert!(matches!(
        action,
        ExportAction::Respond(Err(AppError::Internal(Failure::Crypto(CryptoError::DecryptionFailed))))
    ));
}

#[test]
fn export_with_misfit_nonce_aborts() {
    let (state, _) = begin(Some("[]"));
    let (state, _) = advance_export(&key(), state, ExportEvent::Environment(Some(s("e"))));
    let bad = format!("{}:{}", STANDARD.encode([0u8; 4]), STANDARD.encode([0u8; 20]));
    let (_, action) = advance_export(&key(), state, ExportEvent::Variables(vec![(s("A"), bad)]));
    assert!(matches!(action, ExportAction::Abort));
}

#[test]
fn sealed_values_read_back_in_order() {
    let a = seal_value(&key(), &UpsertVariable { key: s("A"), value: s("first value") }).unwrap();
    let b = seal_value(&key(), &UpsertVariable { key: s("B"), value: s("") }).unwrap();
    let c = seal_value(&key(), &UpsertVariable { key: s("C"), value: s("ünï=#") }).unwrap();
    let rows = vec![
        VariableRow { id: s("1"), key: s("A"), value_encrypted: a, updated_at: s("t1") },
        VariableRow { id: s("2"), key: s("B"), value_encrypted: b, updated_at: s("t2") },
        VariableRow { id: s("3"), key: s("C"), value_encrypted: c, updated_at: s("t3") },
    ];
    let list = variable_responses(&key(), &rows).unwrap().unwrap();
    let values: Vec<&str> = list.iter().map(|v| v.value.as_str()).collect();
    assert_eq!(values, vec!["first value", "", "ünï=#"]);
}
