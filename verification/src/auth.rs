//! Who a request speaks for: API tokens, checked with bcrypt against every
//! stored token hash, and admin sessions, looked up by the SHA-256 hex of the
//! bearer token.
use vstd::prelude::*;
use crate::error::AppError;
use crate::hashing::{bcrypt_check, password_matches};

verus! {

/// An authenticated API token: the id of its row.
#[derive(Debug)]
pub struct TokenAuth(pub String);

/// An authenticated admin session: the id of its row.
#[derive(Debug)]
pub struct AdminSession(pub String);

/// A stored API token as the authentication reads it.
#[derive(Debug)]
pub struct StoredToken {
    pub id: String,
    pub token_hash: String,
}

/// `raw` matches the bcrypt hash `hash` (an unreadable hash matches nothing).
pub open spec fn token_matches(raw: Seq<char>, hash: Seq<char>) -> bool {
    bcrypt_check(raw, hash) == Some(true)
}

/// `i` is the first stored token that `raw` matches.
pub open spec fn is_first_match(raw: Seq<char>, tokens: Seq<StoredToken>, i: int) -> bool {
    &&& 0 <= i < tokens.len()
    &&& token_matches(raw, tokens[i].token_hash@)
    &&& forall|j: int| 0 <= j < i ==> !token_matches(raw, #[trigger] tokens[j].token_hash@)
}

/// The position of the first stored token that the bearer token `raw`
/// matches, in the order given; `None` when it matches none.
pub fn find_token(raw: &str, tokens: &Vec<StoredToken>) -> (res: Option<usize>)
    ensures
        match res {
            Some(i) => is_first_match(raw@, tokens@, i as int),
            None => forall|j: int|
                0 <= j < tokens@.len() ==> !token_matches(raw@, #[trigger] tokens@[j].token_hash@),
        },
{
    let n = tokens.len();
    for i in 0..n
        invariant
            n == tokens@.len(),
            forall|j: int| 0 <= j < i ==> !token_matches(raw@, #[trigger] tokens@[j].token_hash@),
    {
        if password_matches(raw, tokens[i].token_hash.as_str()) {
            return Some(i);
        }
    }
    None
}

/// The answer to the bearer token `raw` against the stored tokens: the id of
/// the first one it matches, or `Unauthorized` when it matches none.
pub open spec fn token_auth_outcome(raw: Seq<char>, tokens: Seq<StoredToken>, res: Result<TokenAuth, AppError>) -> bool {
    match res {
        Ok(auth) => exists|i: int|
            is_first_match(raw, tokens, i) && auth.0@ == #[trigger] tokens[i].id@,
        Err(e) => e == AppError::Unauthorized && forall|j: int|
            0 <= j < tokens.len() ==> !token_matches(raw, #[trigger] tokens[j].token_hash@),
    }
}

/// Authenticates the bearer token `raw` against the stored tokens: the first
/// one it matches speaks for the request, and `Unauthorized` when it matches
/// none.
pub fn authenticate_token(raw: &str, tokens: &Vec<StoredToken>) -> (res: Result<TokenAuth, AppError>)
    ensures
        token_auth_outcome(raw@, tokens@, res),
{
    match find_token(raw, tokens) {
        Some(i) => {
            let id = tokens[i].id.clone();
            assert(is_first_match(raw@, tokens@, i as int) && id@ == tokens@[i as int].id@);
            Ok(TokenAuth(id))
        },
        None => Err(AppError::Unauthorized),
    }
}

/// The session lookup's answer: the id of the live session whose stored
/// hash is that of the bearer token, or `Unauthorized`.
pub fn admin_session(row: Option<String>) -> (res: Result<AdminSession, AppError>)
    ensures
        match row {
            Some(id) => res matches Ok(s) && s.0 == id,
            None => res == Err::<AdminSession, AppError>(AppError::Unauthorized),
        },
{
    match row {
        Some(id) => Ok(AdminSession(id)),
        None => Err(AppError::Unauthorized),
    }
}

/// A bearer token that matches a stored token's hash authenticates: the
/// first stored token that it matches stands at or before that one. So a
/// token is accepted once its issued hash is stored.
pub proof fn lemma_matching_token_authenticates(raw: Seq<char>, tokens: Seq<StoredToken>, i: int)
    requires
        0 <= i < tokens.len(),
        token_matches(raw, tokens[i].token_hash@),
    ensures
        exists|k: int| k <= i && is_first_match(raw, tokens, k),
    decreases i,
{
    if forall|j: int| 0 <= j < i ==> !token_matches(raw, #[trigger] tokens[j].token_hash@) {
        assert(is_first_match(raw, tokens, i));
    } else {
        let j = choose|j: int| 0 <= j < i && token_matches(raw, #[trigger] tokens[j].token_hash@);
        lemma_matching_token_authenticates(raw, tokens, j);
    }
}

/// At most one stored token is the first that a bearer token matches.
pub proof fn lemma_first_match_unique(raw: Seq<char>, tokens: Seq<StoredToken>, i: int, k: int)
    requires
        is_first_match(raw, tokens, i),
        is_first_match(raw, tokens, k),
    ensures
        i == k,
{
    if i < k {
        assert(!token_matches(raw, tokens[i].token_hash@));
    } else if k < i {
        assert(!token_matches(raw, tokens[k].token_hash@));
    }
}

/// An issued token authenticates as its own row: when the stored hash of
/// row `i` accepts the bearer token and no other stored hash does, the
/// answer is that row's id.
pub proof fn lemma_token_authenticates_as_its_row(
    raw: Seq<char>,
    tokens: Seq<StoredToken>,
    i: int,
    res: Result<TokenAuth, AppError>,
)
    requires
        0 <= i < tokens.len(),
        token_matches(raw, tokens[i].token_hash@),
        forall|j: int| 0 <= j < tokens.len() && j != i ==> !token_matches(raw, #[trigger] tokens[j].token_hash@),
        token_auth_outcome(raw, tokens, res),
    ensures
        res matches Ok(auth) && auth.0@ == tokens[i].id@,
{
    assert(is_first_match(raw, tokens, i));
    if let Ok(auth) = res {
        let k = choose|k: int| is_first_match(raw, tokens, k) && auth.0@ == #[trigger] tokens[k].id@;
        lemma_first_match_unique(raw, tokens, i, k);
    } else {
        assert(!token_matches(raw, tokens[i].token_hash@));
    }
}

/// A bearer token that no stored hash accepts, such as one whose row was
/// deleted, is refused with `Unauthorized`.
pub proof fn lemma_unmatched_token_refused(raw: Seq<char>, tokens: Seq<StoredToken>, res: Result<TokenAuth, AppError>)
    requires
        forall|j: int| 0 <= j < tokens.len() ==> !token_matches(raw, #[trigger] tokens[j].token_hash@),
        token_auth_outcome(raw, tokens, res),
    ensures
        res == Err::<TokenAuth, AppError>(AppError::Unauthorized),
{
    if let Ok(auth) = res {
        let k = choose|k: int| is_first_match(raw, tokens, k) && auth.0@ == #[trigger] tokens[k].id@;
        assert(token_matches(raw, tokens[k].token_hash@));
    }
}

} // verus!
