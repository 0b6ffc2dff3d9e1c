//! API tokens: issuing one (shown once, stored as a bcrypt hash with its
//! project scope) and listing them.
use vstd::prelude::*;
use crate::auth::token_matches;
use crate::dotenv::string_views;
use crate::error::{AppError, Failure};
use crate::hashing::{hash_secret, is_default_bcrypt_hash};
use crate::ids::{is_ascii_alphanumeric, is_uuid_v4_text, new_api_token, new_record_id, API_TOKEN_LEN};
use crate::scope::{json_list_text, read_scope, scope_ids, write_scope};

verus! {

/// A request to issue a token. The optional list of project ids scopes it;
/// none or an empty list lets it read every project.
#[derive(Debug)]
pub struct CreateToken {
    pub name: String,
    pub project_ids: Option<Vec<String>>,
}

/// The answer to issuing a token; the only time the token itself is shown.
#[derive(Debug)]
pub struct TokenCreated {
    pub id: String,
    pub name: String,
    pub token: String,
    pub project_ids: Vec<String>,
}

/// A token as the token list shows it.
#[derive(Debug)]
pub struct TokenItem {
    pub id: String,
    pub name: String,
    pub project_ids: Vec<String>,
    pub last_used_at: Option<String>,
    pub created_at: String,
}

/// The row to store for a newly issued token.
#[derive(Debug)]
pub struct NewToken {
    pub id: String,
    pub name: String,
    pub token_hash: String,
    pub project_ids: String,
}

/// A newly issued token: the row to store and the answer to give.
#[derive(Debug)]
pub struct IssuedToken {
    pub row: NewToken,
    pub created: TokenCreated,
}

/// A stored token as the token list reads it.
#[derive(Debug)]
pub struct TokenListRow {
    pub id: String,
    pub name: String,
    pub project_ids: String,
    pub last_used_at: Option<String>,
    pub created_at: String,
}

/// The project ids a request asks for: the ids given, or none.
pub open spec fn requested_ids(body: CreateToken) -> Seq<String> {
    match body.project_ids {
        Some(ids) => ids@,
        None => seq![],
    }
}

/// The scope a token is issued with is the request's list itself, every id
/// kept and in the order given, or no ids when the request names none.
pub proof fn lemma_requested_ids_are_the_request(body: CreateToken)
    ensures
        body.project_ids matches Some(ids) ==> requested_ids(body).len() == ids@.len() && forall|i: int|
            0 <= i < ids@.len() ==> #[trigger] requested_ids(body)[i] == ids@[i],
        body.project_ids is None ==> requested_ids(body).len() == 0,
{
}

/// The scope a request asks for: the characters of the requested ids.
pub open spec fn requested_scope(body: CreateToken) -> Seq<Seq<char>> {
    string_views(requested_ids(body))
}

/// Assembles an issued token from the request, the fresh id, the raw token
/// and its hash: the row stores the id, the name, the hash and the requested
/// ids as their JSON list; the answer gives the id, the name, the raw token
/// and the requested ids. The stored scope reads back as the requested ids.
pub fn issued_token(body: CreateToken, id: String, token: String, token_hash: String) -> (res:
    IssuedToken)
    ensures
        res.row.id@ == id@,
        res.row.name@ == body.name@,
        res.row.token_hash == token_hash,
        res.row.project_ids@ == json_list_text(requested_scope(body)),
        scope_ids(res.row.project_ids@) == requested_scope(body),
        res.created.id@ == id@,
        res.created.name@ == body.name@,
        res.created.token == token,
        res.created.project_ids@ == requested_ids(body),
        body.project_ids matches Some(ids) ==> res.created.project_ids@ == ids@,
        body.project_ids is None ==> res.created.project_ids@.len() == 0,
        res.row.project_ids@ == json_list_text(string_views(res.created.project_ids@)),
        scope_ids(res.row.project_ids@) == string_views(res.created.project_ids@),
{
    let project_ids = match body.project_ids {
        Some(ids) => ids,
        None => Vec::new(),
    };
    let scope_text = write_scope(&project_ids);
    let row = NewToken {
        id: id.clone(),
        name: body.name.clone(),
        token_hash,
        project_ids: scope_text,
    };
    let created = TokenCreated { id, name: body.name, token, project_ids };
    IssuedToken { row, created }
}

/// Issues a token: 48 random alphanumeric characters, stored as their bcrypt
/// hash (version 2b, cost 12) under a fresh id with the requested ids written
/// as their JSON list. The stored hash accepts the token, and the stored
/// scope reads back as the requested ids. The one failure is bcrypt's, while
/// hashing the token.
pub fn issue_token(body: CreateToken) -> (res: Result<IssuedToken, AppError>)
    ensures
        match res {
            Ok(t) => {
                &&& t.created.token@.len() == API_TOKEN_LEN
                &&& forall|i: int|
                    0 <= i < API_TOKEN_LEN ==> is_ascii_alphanumeric(#[trigger] t.created.token@[i])
                &&& token_matches(t.created.token@, t.row.token_hash@)
                &&& is_default_bcrypt_hash(t.row.token_hash@)
                &&& is_uuid_v4_text(t.row.id@)
                &&& t.created.id@ == t.row.id@
                &&& t.row.name@ == body.name@
                &&& t.created.name@ == body.name@
                &&& t.created.project_ids@ == requested_ids(body)
                &&& body.project_ids matches Some(ids) ==> t.created.project_ids@ == ids@
                &&& body.project_ids is None ==> t.created.project_ids@.len() == 0
                &&& t.row.project_ids@ == json_list_text(string_views(t.created.project_ids@))
                &&& scope_ids(t.row.project_ids@) == string_views(t.created.project_ids@)
                &&& t.row.project_ids@ == json_list_text(requested_scope(body))
                &&& scope_ids(t.row.project_ids@) == requested_scope(body)
            },
            Err(e) => e == AppError::Internal(Failure::Hashing),
        },
{
    let token = new_api_token();
    let token_hash = match hash_secret(token.as_str()) {
        Some(h) => h,
        None => {
            return Err(AppError::Internal(Failure::Hashing));
        },
    };
    let id = new_record_id();
    Ok(issued_token(body, id, token, token_hash))
}

/// A stored token as the list shows it: its scope read from the stored JSON
/// (text that is not a JSON list of strings shows as no ids).
pub fn token_item(row: TokenListRow) -> (res: TokenItem)
    ensures
        res.id == row.id,
        res.name == row.name,
        string_views(res.project_ids@) == scope_ids(row.project_ids@),
        res.last_used_at == row.last_used_at,
        res.created_at == row.created_at,
{
    let project_ids = read_scope(row.project_ids.as_str());
    TokenItem {
        id: row.id,
        name: row.name,
        project_ids,
        last_used_at: row.last_used_at,
        created_at: row.created_at,
    }
}

} // verus!
