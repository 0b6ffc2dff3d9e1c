use centralenv::hashing::password_matches;
use centralenv::routes::tokens::{issue_token, issued_token, token_item, CreateToken, TokenListRow};
use centralenv::scope::{read_scope, scope_permits, write_scope};

fn strings(items: &[&str]) -> Vec<String> {
    items.iter().map(|s| s.to_string()).collect()
}

#[test]
fn scope_round_trips_through_json() {
    let ids = strings(&["p1", "p\"2", "ü"]);
    let text = write_scope(&ids);
    assert_eq!(text, serde_json::to_string(&ids).unwrap());
    assert_eq!(read_scope(&text), ids);
}

#[test]
fn unreadable_scope_names_no_projects() {
    assert!(read_scope("not json").is_empty());
    assert!(read_scope("[1, 2]").is_empty());
    assert_eq!(read_scope("[]"), Vec::<String>::new());
}

#[test]
fn empty_scope_allows_every_project() {
    assert!(scope_permits(&vec![], &"anything".to_string()));
}

#[test]
fn non_empty_scope_allows_only_named_projects() {
    let ids = strings(&["a", "b"]);
    assert!(scope_permits(&ids, &"b".to_string()));
    assert!(!scope_permits(&ids, &"c".to_string()));
}

#[test]
fn issued_token_is_accepted_by_its_hash() {
    let issued = issue_token(CreateToken { name: "ci".to_string(), project_ids: Some(strings(&["p1"])) }).unwrap();
    let token = &issued.created.token;
    assert_eq!(token.len(), 48);
    assert!(token.chars().all(|c| c.is_ascii_alphanumeric()));
    assert!(password_matches(token, &issued.row.token_hash));
    assert!(issued.row.token_hash.starts_with("$2b$12$"));
    assert_eq!(issued.row.token_hash.len(), 60);
    assert_eq!(issued.row.id, issued.created.id);
    assert_eq!(issued.row.id.len(), 36);
    assert_eq!(issued.row.name, "ci");
    assert_eq!(issued.created.name, "ci");
    assert_eq!(issued.created.project_ids, strings(&["p1"]));
    assert_eq!(issued.row.project_ids, "[\"p1\"]");
}

#[test]
fn token_without_scope_gets_empty_list() {
    let issued = issue_token(CreateToken { name: "all".to_string(), project_ids: None }).unwrap();
    assert!(issued.created.project_ids.is_empty());
    assert_eq!(issued.row.project_ids, "[]");
}

#[test]
fn token_list_item_reads_scope() {
    let item = token_item(TokenListRow {
        id: "i".to_string(),
        name: "n".to_string(),
        project_ids: "[\"x\",\"y\"]".to_string(),
        last_used_at: None,
        created_at: "2024-01-01 00:00:00".to_string(),
    });
    assert_eq!(item.project_ids, strings(&["x", "y"]));
    assert_eq!(item.id, "i");
    assert_eq!(item.last_used_at, None);
    let broken = token_item(TokenListRow {
        id: "j".to_string(),
        name: "m".to_string(),
        project_ids: "oops".to_string(),
        last_used_at: Some("t".to_string()),
        created_at: "c".to_string(),
    });
    assert!(broken.project_ids.is_empty());
    assert_eq!(broken.last_used_at.as_deref(), Some("t"));
}

#[test]
fn issued_token_is_assembled_from_its_parts() {
    let body = CreateToken { name: "deploy".to_string(), project_ids: Some(strings(&["a", "b\"c"])) };
    let issued = issued_token(body, "id-1".to_string(), "raw".to_string(), "hash".to_string());
    assert_eq!(issued.row.id, "id-1");
    assert_eq!(issued.row.name, "deploy");
    assert_eq!(issued.row.token_hash, "hash");
    assert_eq!(issued.row.project_ids, "[\"a\",\"b\\\"c\"]");
    assert_eq!(issued.created.id, "id-1");
    assert_eq!(issued.created.name, "deploy");
    assert_eq!(issued.created.token, "raw");
    assert_eq!(issued.created.project_ids, strings(&["a", "b\"c"]));
    let open = issued_token(
        CreateToken { name: "all".to_string(), project_ids: None },
        "id-2".to_string(),
        "t".to_string(),
        "h".to_string(),
    );
    assert_eq!(open.row.project_ids, "[]");
    assert!(open.created.project_ids.is_empty());
}
