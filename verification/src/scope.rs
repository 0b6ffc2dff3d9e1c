//! The project scope of an API token: the project ids it may read, stored as
//! a JSON list of strings. An empty list lets the token read every project.
use vstd::prelude::*;
use crate::dotenv::string_views;

verus! {

/// What `serde_json::from_str::<Vec<String>>` reads from `text`: the list of
/// strings, or `None` when `text` is not a JSON list of strings.
pub uninterp spec fn json_string_list(text: Seq<char>) -> Option<Seq<Seq<char>>>;

/// `serde_json::from_str` into a `Vec<String>`, its error read as `None`.
#[verifier::external_body]
fn parse_json_string_list(text: &str) -> (res: Option<Vec<String>>)
    ensures
        match res {
            Some(v) => json_string_list(text@) == Some(string_views(v@)),
            None => json_string_list(text@) is None,
        },
{
    serde_json::from_str::<Vec<String>>(text).ok()
}

/// The JSON text that `serde_json::to_string` writes for a list of strings.
pub uninterp spec fn json_list_text(items: Seq<Seq<char>>) -> Seq<char>;

/// `serde_json::to_string` of a `Vec<String>`, its error read as `None`.
/// Claimed: it succeeds (its documentation names as the only causes of
/// failure a `Serialize` impl that fails or a map with non-string keys, and
/// a list of strings written into a `Vec<u8>` has neither), and reading the
/// JSON back gives the same strings. The text is named by the strings.
#[verifier::external_body]
fn write_json_string_list(items: &Vec<String>) -> (res: Option<String>)
    ensures
        res is Some,
        res matches Some(text) ==> text@ == json_list_text(string_views(items@)),
        res matches Some(text) ==> json_string_list(text@) == Some(string_views(items@)),
{
    serde_json::to_string(items).ok()
}

/// The project ids that a stored scope names; text that is not a JSON list
/// of strings names none.
pub open spec fn scope_ids(text: Seq<char>) -> Seq<Seq<char>> {
    match json_string_list(text) {
        Some(ids) => ids,
        None => seq![],
    }
}

/// A scope allows a project when it is empty or names the project.
pub open spec fn scope_allows(ids: Seq<Seq<char>>, project_id: Seq<char>) -> bool {
    ids.len() == 0 || ids.contains(project_id)
}

/// Reads a stored scope: the project ids of the JSON list, or none when the
/// text is not such a list.
pub fn read_scope(text: &str) -> (res: Vec<String>)
    ensures
        string_views(res@) == scope_ids(text@),
{
    match parse_json_string_list(text) {
        Some(ids) => ids,
        None => {
            let empty: Vec<String> = Vec::new();
            assert(string_views(empty@) =~= Seq::<Seq<char>>::empty());
            empty
        },
    }
}

/// Writes a scope as the JSON list of the project ids. Writing a list of
/// strings always succeeds, and reading the text back gives the same ids.
pub fn write_scope(ids: &Vec<String>) -> (res: String)
    ensures
        res@ == json_list_text(string_views(ids@)),
        scope_ids(res@) == string_views(ids@),
{
    write_json_string_list(ids).unwrap()
}

/// Whether a token with the scope `ids` may read the project `project_id`:
/// yes when the scope is empty or names the project.
pub fn scope_permits(ids: &Vec<String>, project_id: &String) -> (res: bool)
    ensures
        res == scope_allows(string_views(ids@), project_id@),
{
    let n = ids.len();
    if n == 0 {
        return true;
    }
    for i in 0..n
        invariant
            n == ids@.len(),
            forall|j: int| 0 <= j < i ==> #[trigger] ids@[j]@ != project_id@,
    {
        if ids[i] == *project_id {
            assert(string_views(ids@)[i as int] == project_id@);
            return true;
        }
    }
    assert(!string_views(ids@).contains(project_id@));
    false
}

/// The empty scope allows every project, and a non-empty scope allows
/// exactly the projects it names.
pub proof fn lemma_scope_semantics(ids: Seq<Seq<char>>, project_id: Seq<char>)
    ensures
        ids.len() == 0 ==> scope_allows(ids, project_id),
        ids.len() > 0 ==> (scope_allows(ids, project_id) <==> ids.contains(project_id)),
{
}

} // verus!
