//! Variables: sealing values on upsert, opening them for the admin list, and
//! the token-authenticated export that the command-line client pulls.
use vstd::prelude::*;
use vstd::utf8::encode_utf8;
use crate::auth::TokenAuth;
use crate::crypto::{
    decrypt, decrypt_checked, encrypt, nonce_misfit, open_outcome, seal_outcome, sealed_fits, text_result,
    CryptoError, NONCE_LEN, PLAINTEXT_MAX, KEY_LEN,
};
use crate::error::{AppError, Failure};
use crate::scope::{read_scope, scope_allows, scope_ids, scope_permits};
use crate::dotenv::string_views;

verus! {

/// The body of an upsert: the variable's key and its plain value.
#[derive(Debug)]
pub struct UpsertVariable {
    pub key: String,
    pub value: String,
}

/// A variable as the admin list shows it, with its value opened.
#[derive(Debug)]
pub struct VariableResponse {
    pub id: String,
    pub key: String,
    pub value: String,
    pub updated_at: String,
}

/// The export's query: the environment's name, `development` when absent.
#[derive(Debug)]
pub struct EnvQuery {
    pub environment: Option<String>,
}

/// A stored variable as the admin list reads it.
#[derive(Debug)]
pub struct VariableRow {
    pub id: String,
    pub key: String,
    pub value_encrypted: String,
    pub updated_at: String,
}

/// The name of the environment that an export asks for.
pub open spec fn requested_environment(query: EnvQuery) -> Seq<char> {
    match query.environment {
        Some(name) => name@,
        None => "development"@,
    }
}

/// The environment an export asks for: the one named in the query, else
/// `development`.
pub fn environment_name(query: EnvQuery) -> (res: String)
    ensures
        res@ == requested_environment(query),
{
    match query.environment {
        Some(name) => name,
        None => "development".to_owned(),
    }
}

/// Seals an upserted value for storage under the master key; a failure is an
/// internal error.
pub fn seal_value(master_key: &[u8], body: &UpsertVariable) -> (res: Result<String, AppError>)
    requires
        sealed_fits(encode_utf8(body.value@).len() as int),
    ensures
        master_key@.len() != KEY_LEN ==> res == Err::<String, AppError>(
            AppError::Internal(Failure::Crypto(CryptoError::InvalidKey)),
        ),
        master_key@.len() == KEY_LEN && encode_utf8(body.value@).len() > PLAINTEXT_MAX ==> res
            == Err::<String, AppError>(AppError::Internal(Failure::Crypto(CryptoError::EncryptionFailed))),
        master_key@.len() == KEY_LEN && encode_utf8(body.value@).len() <= PLAINTEXT_MAX ==> res is Ok,
        res is Ok ==> open_outcome(master_key@, res->Ok_0@) == Ok::<Seq<char>, CryptoError>(body.value@),
        res is Ok ==> !nonce_misfit(master_key@, res->Ok_0@),
{
    match encrypt(master_key, body.value.as_str()) {
        Ok(stored) => Ok(stored),
        Err(e) => Err(AppError::Internal(Failure::Crypto(e))),
    }
}

/// The stored values of the rows.
pub open spec fn stored_values(rows: Seq<VariableRow>) -> Seq<Seq<char>> {
    rows.map_values(|r: VariableRow| r.value_encrypted@)
}

/// Once opening a prefix has stopped, opening the whole stops the same way.
proof fn lemma_open_all_stops(key: Seq<u8>, stored: Seq<Seq<char>>, i: int)
    requires
        0 <= i <= stored.len(),
        !(open_all(key, stored.take(i)) matches Some(Ok(_))),
    ensures
        open_all(key, stored) == open_all(key, stored.take(i)),
    decreases stored.len() - i,
{
    if i < stored.len() {
        assert(stored.take(i + 1).drop_last() =~= stored.take(i));
        lemma_open_all_stops(key, stored, i + 1);
    } else {
        assert(stored.take(i) =~= stored);
    }
}

/// Opening stored values one after the other, stopping at the first
/// failure: `None` when a value's nonce does not fit the cipher before any
/// failure, else the plain values or the first failure.
pub open spec fn open_all(key: Seq<u8>, stored: Seq<Seq<char>>) -> Option<Result<Seq<Seq<char>>, CryptoError>>
    decreases stored.len(),
{
    if stored.len() == 0 {
        Some(Ok(seq![]))
    } else {
        match open_all(key, stored.drop_last()) {
            Some(Ok(plain)) => if nonce_misfit(key, stored.last()) {
                None
            } else {
                match open_outcome(key, stored.last()) {
                    Ok(p) => Some(Ok(plain.push(p))),
                    Err(e) => Some(Err(e)),
                }
            },
            other => other,
        }
    }
}

/// Opens stored values in order, as `open_all` says.
pub fn open_values(master_key: &[u8], stored: &Vec<String>) -> (res: Option<Result<Vec<String>, CryptoError>>)
    ensures
        match res {
            None => open_all(master_key@, string_views(stored@)) is None,
            Some(Ok(v)) => open_all(master_key@, string_views(stored@)) == Some(
                Ok::<Seq<Seq<char>>, CryptoError>(string_views(v@)),
            ),
            Some(Err(e)) => open_all(master_key@, string_views(stored@)) == Some(
                Err::<Seq<Seq<char>>, CryptoError>(e),
            ),
        },
{
    let ghost views = string_views(stored@);
    let mut plain: Vec<String> = Vec::new();
    let n = stored.len();
    assert(views.take(0) =~= Seq::<Seq<char>>::empty());
    assert(string_views(plain@) =~= Seq::<Seq<char>>::empty());
    for i in 0..n
        invariant
            n == stored@.len(),
            views == string_views(stored@),
            open_all(master_key@, views.take(i as int)) == Some(
                Ok::<Seq<Seq<char>>, CryptoError>(string_views(plain@)),
            ),
    {
        proof {
            assert(views.take(i + 1).drop_last() =~= views.take(i as int));
            assert(views.take(i + 1).last() == stored@[i as int]@);
        }
        match decrypt_checked(master_key, stored[i].as_str()) {
            None => {
                proof {
                    lemma_open_all_stops(master_key@, views, i + 1);
                }
                return None;
            },
            Some(Err(e)) => {
                proof {
                    lemma_open_all_stops(master_key@, views, i + 1);
                }
                return Some(Err(e));
            },
            Some(Ok(p)) => {
                let ghost before = string_views(plain@);
                plain.push(p);
                proof {
                    assert(string_views(plain@) =~= before.push(p@));
                }
            },
        }
    }
    proof {
        assert(views.take(n as int) =~= views);
    }
    Some(Ok(plain))
}

/// The admin list of an environment's variables with their values opened:
/// `None` when a stored nonce does not fit the cipher, else the list or an
/// internal error for the first value that fails to open.
pub fn variable_responses(master_key: &[u8], rows: &Vec<VariableRow>) -> (res: Option<
    Result<Vec<VariableResponse>, AppError>,
>)
    ensures
        ({
            let stored = stored_values(rows@);
            match res {
                None => open_all(master_key@, stored) is None,
                Some(Err(e)) => exists|c: CryptoError|
                    e == AppError::Internal(Failure::Crypto(c)) && open_all(master_key@, stored)
                        == Some(Err::<Seq<Seq<char>>, CryptoError>(c)),
                Some(Ok(list)) => open_all(master_key@, stored) matches Some(Ok(plain)) && list@.len()
                    == rows@.len() && forall|i: int|
                    0 <= i < rows@.len() ==> {
                        &&& (#[trigger] list@[i]).id == rows@[i].id
                        &&& list@[i].key == rows@[i].key
                        &&& list@[i].value@ == plain[i]
                        &&& list@[i].updated_at == rows@[i].updated_at
                    },
            }
        }),
{
    let ghost rows0 = rows@;
    let mut stored: Vec<String> = Vec::new();
    let n = rows.len();
    for i in 0..n
        invariant
            n == rows@.len(),
            rows@ == rows0,
            string_views(stored@) == stored_values(rows0.take(i as int)),
    {
        let ghost before = string_views(stored@);
        let value = rows[i].value_encrypted.clone();
        stored.push(value);
        proof {
            assert(string_views(stored@) =~= before.push(rows0[i as int].value_encrypted@));
            assert(rows0.take(i + 1).drop_last() =~= rows0.take(i as int));
            assert(string_views(stored@) =~= stored_values(rows0.take(i + 1)));
        }
    }
    proof {
        assert(rows0.take(n as int) =~= rows0);
    }
    let plain = match open_values(master_key, &stored) {
        None => {
            return None;
        },
        Some(Err(e)) => {
            return Some(Err(AppError::Internal(Failure::Crypto(e))));
        },
        Some(Ok(p)) => p,
    };
    proof {
        lemma_open_all_len(master_key@, string_views(stored@));
    }
    let ghost plain_views = string_views(plain@);
    let mut list: Vec<VariableResponse> = Vec::new();
    for i in 0..n
        invariant
            n == rows@.len(),
            plain_views == string_views(plain@),
            plain@.len() == n,
            list@.len() == i,
            forall|j: int|
                0 <= j < i ==> {
                    &&& (#[trigger] list@[j]).id == rows@[j].id
                    &&& list@[j].key == rows@[j].key
                    &&& list@[j].value@ == plain_views[j]
                    &&& list@[j].updated_at == rows@[j].updated_at
                },
    {
        let item = VariableResponse {
            id: rows[i].id.clone(),
            key: rows[i].key.clone(),
            value: plain[i].clone(),
            updated_at: rows[i].updated_at.clone(),
        };
        list.push(item);
    }
    Some(Ok(list))
}

/// What was written is read back: values that each open under the master key
/// to their plain value (as every value that `seal_value` stores does) open
/// all together, in order, to those plain values, both in the admin list and
/// in the export.
pub proof fn lemma_sealed_values_open(key: Seq<u8>, stored: Seq<Seq<char>>, plain: Seq<Seq<char>>)
    requires
        stored.len() == plain.len(),
        forall|i: int|
            0 <= i < stored.len() ==> open_outcome(key, #[trigger] stored[i]) == Ok::<
                Seq<char>,
                CryptoError,
            >(plain[i]),
        forall|i: int| 0 <= i < stored.len() ==> !nonce_misfit(key, #[trigger] stored[i]),
    ensures
        open_all(key, stored) == Some(Ok::<Seq<Seq<char>>, CryptoError>(plain)),
    decreases stored.len(),
{
    if stored.len() > 0 {
        let n = stored.len() - 1;
        assert(open_outcome(key, stored[n]) == Ok::<Seq<char>, CryptoError>(plain[n]));
        assert(!nonce_misfit(key, stored[n]));
        lemma_sealed_values_open(key, stored.drop_last(), plain.drop_last());
        assert(plain.drop_last().push(plain.last()) =~= plain);
    } else {
        assert(plain =~= Seq::<Seq<char>>::empty());
    }
}

proof fn lemma_open_all_len(key: Seq<u8>, stored: Seq<Seq<char>>)
    ensures
        open_all(key, stored) matches Some(Ok(plain)) ==> plain.len() == stored.len(),
    decreases stored.len(),
{
    if stored.len() > 0 {
        lemma_open_all_len(key, stored.drop_last());
    }
}

/// What the export handler does next: a lookup to make, its answer, or a
/// stop on a stored value whose nonce does not fit the cipher.
#[derive(Debug)]
pub enum ExportAction {
    /// Look up the id of the project with this slug.
    FindProject { slug: String },
    /// Look up the stored project scope of this token.
    FindTokenScope { token_id: String },
    /// Look up the id of the project's environment with this name.
    FindEnvironment { project_id: String, name: String },
    /// Load the environment's variables (key and stored value), by key.
    LoadVariables { environment_id: String },
    /// Answer with the variables (key and plain value), or an error.
    Respond(Result<Vec<(String, String)>, AppError>),
    /// Stop: a stored value holds a nonce that the cipher cannot take.
    Abort,
}

/// Where the export stands.
#[derive(Debug)]
pub enum ExportState {
    /// Waiting for the project lookup.
    AwaitingProject { token_id: String, environment: String },
    /// Waiting for the token's scope.
    AwaitingScope { environment: String, project_id: String },
    /// Waiting for the environment lookup.
    AwaitingEnvironment,
    /// Waiting for the variables.
    AwaitingVariables,
    /// Answered or stopped.
    Finished,
}

/// What a lookup found.
#[derive(Debug)]
pub enum ExportEvent {
    /// The project's id, if a project has the slug.
    Project(Option<String>),
    /// The token's stored scope, if the token still exists.
    TokenScope(Option<String>),
    /// The environment's id, if the project has one by that name.
    Environment(Option<String>),
    /// The environment's variables: key and stored value.
    Variables(Vec<(String, String)>),
}

/// The event answers the lookup that the state waits for.
pub open spec fn event_fits(state: ExportState, event: ExportEvent) -> bool {
    match state {
        ExportState::AwaitingProject { .. } => event is Project,
        ExportState::AwaitingScope { .. } => event is TokenScope,
        ExportState::AwaitingEnvironment => event is Environment,
        ExportState::AwaitingVariables => event is Variables,
        ExportState::Finished => false,
    }
}

/// The keys of variable rows.
pub open spec fn pair_keys(rows: Seq<(String, String)>) -> Seq<Seq<char>> {
    rows.map_values(|r: (String, String)| r.0@)
}

/// The stored values of variable rows.
pub open spec fn pair_values(rows: Seq<(String, String)>) -> Seq<Seq<char>> {
    rows.map_values(|r: (String, String)| r.1@)
}

/// The answer for loaded variables under the master key `key`: `Abort` when
/// a nonce does not fit before any failure, an internal error for the first
/// value that fails to open, else each key with its plain value.
pub open spec fn export_answer(key: Seq<u8>, rows: Seq<(String, String)>, action: ExportAction) -> bool {
    match open_all(key, pair_values(rows)) {
        None => action is Abort,
        Some(Err(c)) => action == ExportAction::Respond(
            Err(AppError::Internal(Failure::Crypto(c))),
        ),
        Some(Ok(plain)) => action matches ExportAction::Respond(Ok(pairs)) && pair_keys(pairs@)
            == pair_keys(rows) && pair_values(pairs@) == plain,
    }
}

/// Starts the export of environment `query` of project `slug` for the
/// authenticated token: first the project is looked up.
pub fn start_export(auth: TokenAuth, slug: String, query: EnvQuery) -> (res: (ExportState, ExportAction))
    ensures
        res.0 matches ExportState::AwaitingProject { token_id, environment } && token_id == auth.0
            && environment@ == requested_environment(query),
        res.1 == (ExportAction::FindProject { slug }),
{
    let environment = environment_name(query);
    (ExportState::AwaitingProject { token_id: auth.0, environment }, ExportAction::FindProject { slug })
}

/// One step of the export: what `advance_export` gives for `event` in
/// `state` under the master key `key`.
pub open spec fn export_step(
    key: Seq<u8>,
    state: ExportState,
    event: ExportEvent,
    res: (ExportState, ExportAction),
) -> bool {
    match (state, event) {
        (ExportState::AwaitingProject { token_id, environment }, ExportEvent::Project(found)) => match found {
            None => res.0 is Finished && res.1 == ExportAction::Respond(Err(AppError::NotFound)),
            Some(project_id) => res.0 == (ExportState::AwaitingScope { environment, project_id })
                && res.1 == (ExportAction::FindTokenScope { token_id }),
        },
        (ExportState::AwaitingScope { environment, project_id }, ExportEvent::TokenScope(found)) => match found {
            None => res.0 is Finished && res.1 == ExportAction::Respond(Err(AppError::Unauthorized)),
            Some(scope) => if scope_allows(scope_ids(scope@), project_id@) {
                res.0 is AwaitingEnvironment && res.1 == (ExportAction::FindEnvironment {
                    project_id,
                    name: environment,
                })
            } else {
                res.0 is Finished && res.1 == ExportAction::Respond(Err(AppError::Unauthorized))
            },
        },
        (ExportState::AwaitingEnvironment, ExportEvent::Environment(found)) => match found {
            None => res.0 is Finished && res.1 == ExportAction::Respond(Err(AppError::NotFound)),
            Some(environment_id) => res.0 is AwaitingVariables
                && res.1 == (ExportAction::LoadVariables { environment_id }),
        },
        (ExportState::AwaitingVariables, ExportEvent::Variables(rows)) => res.0 is Finished
            && export_answer(key, rows@, res.1),
        _ => false,
    }
}

/// A lookup that the export asks the database for.
pub open spec fn is_lookup(action: ExportAction) -> bool {
    ||| action is FindProject
    ||| action is FindTokenScope
    ||| action is FindEnvironment
    ||| action is LoadVariables
}

/// The export only reads: every step either asks for one more lookup and
/// waits for it, or finishes with the answer (or the stop). No step asks for
/// anything but a lookup of a project, a token's scope, an environment or
/// its variables.
pub proof fn lemma_export_only_reads(
    key: Seq<u8>,
    state: ExportState,
    event: ExportEvent,
    res: (ExportState, ExportAction),
)
    requires
        export_step(key, state, event, res),
    ensures
        is_lookup(res.1) <==> !(res.0 is Finished),
        !is_lookup(res.1) ==> (res.1 is Respond || res.1 is Abort),
{
}

/// The access decision of the export: once the requesting token's stored
/// scope is found, the export goes on to look up the requested environment
/// of the project exactly when the scope names no project or names this one
/// among its ids, wherever it stands in the list; otherwise it answers
/// `Unauthorized`. A token that is gone is refused too.
pub proof fn lemma_export_scope_decision(
    key: Seq<u8>,
    environment: String,
    project_id: String,
    found: Option<String>,
    res: (ExportState, ExportAction),
)
    requires
        export_step(
            key,
            ExportState::AwaitingScope { environment, project_id },
            ExportEvent::TokenScope(found),
            res,
        ),
    ensures
        found is None ==> res.1 == ExportAction::Respond(Err(AppError::Unauthorized)),
        found matches Some(scope) ==> {
            let ids = scope_ids(scope@);
            &&& (ids.len() == 0 || exists|i: int| 0 <= i < ids.len() && ids[i] == project_id@) ==> res.1
                == (ExportAction::FindEnvironment { project_id, name: environment })
            &&& !(ids.len() == 0 || exists|i: int| 0 <= i < ids.len() && ids[i] == project_id@) ==> res.1
                == ExportAction::Respond(Err(AppError::Unauthorized))
        },
{
}

/// The export hands out variables only to a token that may read the
/// project: in any run from its start, an answer with variables comes at the
/// fourth step, after the project was found, after the scope of the
/// requesting token was found, and only when that scope allows the project;
/// the environment looked up is the requested one of that project.
pub proof fn lemma_export_answer_needs_access(
    key: Seq<u8>,
    states: Seq<ExportState>,
    events: Seq<ExportEvent>,
    actions: Seq<ExportAction>,
    k: int,
)
    requires
        states.len() == events.len() + 1,
        actions.len() == events.len(),
        states[0] is AwaitingProject,
        forall|i: int|
            0 <= i < events.len() ==> export_step(key, #[trigger] states[i], events[i], (states[i + 1], actions[i])),
        0 <= k < actions.len(),
        actions[k] matches ExportAction::Respond(Ok(_)),
    ensures
        k == 3,
        states[0] matches ExportState::AwaitingProject { token_id, environment } ==> {
            &&& events[0] matches ExportEvent::Project(Some(project_id))
            &&& actions[0] == (ExportAction::FindTokenScope { token_id })
            &&& events[1] matches ExportEvent::TokenScope(Some(scope))
            &&& scope_allows(scope_ids(scope@), project_id@)
            &&& actions[1] == (ExportAction::FindEnvironment { project_id, name: environment })
        },
{
    assert(export_step(key, states[k], events[k], (states[k + 1], actions[k])));
    assert(states[k] is AwaitingVariables);
    assert(k >= 1);
    assert(export_step(key, states[k - 1], events[k - 1], (states[k], actions[k - 1])));
    assert(states[k - 1] is AwaitingEnvironment);
    assert(k >= 2);
    assert(export_step(key, states[k - 2], events[k - 2], (states[k - 1], actions[k - 2])));
    assert(states[k - 2] is AwaitingScope);
    assert(k >= 3);
    assert(export_step(key, states[k - 3], events[k - 3], (states[k - 2], actions[k - 3])));
    assert(states[k - 3] is AwaitingProject);
    if k > 3 {
        assert(export_step(key, states[k - 4], events[k - 4], (states[k - 3], actions[k - 4])));
        assert(false);
    }
}

/// Advances the export on what a lookup found. A missing project or
/// environment answers `NotFound`; a missing token, or a token whose
/// non-empty scope does not name the project, answers `Unauthorized`; the
/// loaded variables are opened in order.
pub fn advance_export(master_key: &[u8], state: ExportState, event: ExportEvent) -> (res: (
    ExportState,
    ExportAction,
))
    requires
        event_fits(state, event),
    ensures
        export_step(master_key@, state, event, res),
{
    match state {
        ExportState::AwaitingProject { token_id, environment } => {
            match event {
                ExportEvent::Project(None) => (
                    ExportState::Finished,
                    ExportAction::Respond(Err(AppError::NotFound)),
                ),
                ExportEvent::Project(Some(project_id)) => (
                    ExportState::AwaitingScope { environment, project_id },
                    ExportAction::FindTokenScope { token_id },
                ),
                _ => (ExportState::Finished, ExportAction::Abort),
            }
        },
        ExportState::AwaitingScope { environment, project_id } => {
            match event {
                ExportEvent::TokenScope(None) => (
                    ExportState::Finished,
                    ExportAction::Respond(Err(AppError::Unauthorized)),
                ),
                ExportEvent::TokenScope(Some(scope)) => {
                    let allowed = read_scope(scope.as_str());
                    if scope_permits(&allowed, &project_id) {
                        (
                            ExportState::AwaitingEnvironment,
                            ExportAction::FindEnvironment { project_id, name: environment },
                        )
                    } else {
                        (ExportState::Finished, ExportAction::Respond(Err(AppError::Unauthorized)))
                    }
                },
                _ => (ExportState::Finished, ExportAction::Abort),
            }
        },
        ExportState::AwaitingEnvironment => {
            match event {
                ExportEvent::Environment(None) => (
                    ExportState::Finished,
                    ExportAction::Respond(Err(AppError::NotFound)),
                ),
                ExportEvent::Environment(Some(environment_id)) => (
                    ExportState::AwaitingVariables,
                    ExportAction::LoadVariables { environment_id },
                ),
                _ => (ExportState::Finished, ExportAction::Abort),
            }
        },
        ExportState::AwaitingVariables => {
            match event {
                ExportEvent::Variables(rows) => (ExportState::Finished, open_variables(master_key, &rows)),
                _ => (ExportState::Finished, ExportAction::Abort),
            }
        },
        ExportState::Finished => (ExportState::Finished, ExportAction::Abort),
    }
}

/// Opens the loaded variables into the export's answer.
fn open_variables(master_key: &[u8], rows: &Vec<(String, String)>) -> (res: ExportAction)
    ensures
        export_answer(master_key@, rows@, res),
{
    let n = rows.len();
    let mut stored: Vec<String> = Vec::new();
    for i in 0..n
        invariant
            n == rows@.len(),
            string_views(stored@) == pair_values(rows@.take(i as int)),
    {
        let ghost before = string_views(stored@);
        let value = rows[i].1.clone();
        stored.push(value);
        proof {
            assert(string_views(stored@) =~= before.push(rows@[i as int].1@));
            assert(string_views(stored@) =~= pair_values(rows@.take(i + 1)));
        }
    }
    proof {
        assert(rows@.take(n as int) =~= rows@);
    }
    let plain = match open_values(master_key, &stored) {
        None => {
            return ExportAction::Abort;
        },
        Some(Err(e)) => {
            return ExportAction::Respond(Err(AppError::Internal(Failure::Crypto(e))));
        },
        Some(Ok(p)) => p,
    };
    proof {
        lemma_open_all_len(master_key@, string_views(stored@));
    }
    let mut pairs: Vec<(String, String)> = Vec::new();
    for i in 0..n
        invariant
            n == rows@.len(),
            plain@.len() == n,
            open_all(master_key@, pair_values(rows@)) == Some(
                Ok::<Seq<Seq<char>>, CryptoError>(string_views(plain@)),
            ),
            pair_keys(pairs@) == pair_keys(rows@.take(i as int)),
            pair_values(pairs@) == string_views(plain@).take(i as int),
    {
        let ghost keys_before = pair_keys(pairs@);
        let ghost values_before = pair_values(pairs@);
        let key = rows[i].0.clone();
        let value = plain[i].clone();
        pairs.push((key, value));
        proof {
            assert(pair_keys(pairs@) =~= keys_before.push(rows@[i as int].0@));
            assert(pair_keys(pairs@) =~= pair_keys(rows@.take(i + 1)));
            assert(pair_values(pairs@) =~= values_before.push(plain@[i as int]@));
            assert(pair_values(pairs@) =~= string_views(plain@).take(i + 1));
        }
    }
    proof {
        assert(rows@.take(n as int) =~= rows@);
        assert(string_views(plain@).take(n as int) =~= string_views(plain@));
    }
    ExportAction::Respond(Ok(pairs))
}

} // verus!
