//! What the command-line client decides around its one request: the saved
//! configuration, the address it asks, and how it reads the answer's status.
use vstd::prelude::*;
use vstd::string::*;
use crate::text::chars_of;

verus! {

/// The client's saved configuration: where the server is and which API
/// token to present.
#[derive(Debug)]
pub struct Config {
    pub server_url: String,
    pub token: String,
}

/// `s` without the `/` characters at its end.
pub open spec fn trim_trailing_slashes(s: Seq<char>) -> Seq<char>
    decreases s.len(),
{
    if s.len() > 0 && s.last() == '/' {
        trim_trailing_slashes(s.drop_last())
    } else {
        s
    }
}

/// What trimming the server address removes: the text kept is a prefix of
/// the address that does not end with `/`, and all that is cut off is `/`.
pub proof fn lemma_trim_trailing_slashes_shape(s: Seq<char>)
    ensures
        trim_trailing_slashes(s).len() <= s.len(),
        trim_trailing_slashes(s) == s.take(trim_trailing_slashes(s).len() as int),
        trim_trailing_slashes(s).len() > 0 ==> trim_trailing_slashes(s).last() != '/',
        forall|j: int| trim_trailing_slashes(s).len() <= j < s.len() ==> #[trigger] s[j] == '/',
    decreases s.len(),
{
    if s.len() > 0 && s.last() == '/' {
        lemma_trim_trailing_slashes_shape(s.drop_last());
        let t = trim_trailing_slashes(s);
        assert(s.drop_last().take(t.len() as int) =~= s.take(t.len() as int));
        assert forall|j: int| t.len() <= j < s.len() implies #[trigger] s[j] == '/' by {
            if j < s.len() - 1 {
                assert(s[j] == s.drop_last()[j]);
            }
        }
    } else {
        assert(s.take(s.len() as int) =~= s);
    }
}

/// The address of the export of environment `env` of project `project`.
pub open spec fn env_url_text(server_url: Seq<char>, project: Seq<char>, env: Seq<char>) -> Seq<char> {
    trim_trailing_slashes(server_url) + "/api/projects/"@ + project + "/env?environment="@ + env
}

/// The address the client asks for the variables of environment `env` of
/// project `project`: the server address without its trailing slashes,
/// then `/api/projects/{project}/env?environment={env}`.
pub fn env_url(server_url: &str, project: &str, env: &str) -> (res: String)
    ensures
        res@ == env_url_text(server_url@, project@, env@),
{
    let chars = chars_of(server_url);
    let mut end: usize = chars.len();
    assert(server_url@.take(end as int) =~= server_url@);
    while end > 0 && chars[end - 1] == '/'
        invariant
            chars@ == server_url@,
            end <= chars@.len(),
            trim_trailing_slashes(server_url@) == trim_trailing_slashes(server_url@.take(end as int)),
        decreases end,
    {
        assert(server_url@.take(end as int).drop_last() =~= server_url@.take(end - 1));
        end = end - 1;
    }
    let base = server_url.substring_char(0, end);
    let mut url = base.to_owned();
    url.append("/api/projects/");
    url.append(project);
    url.append("/env?environment=");
    url.append(env);
    url
}

/// How the client reads an unsuccessful answer.
#[derive(Debug, Clone, Copy, PartialEq, Eq, Structural)]
pub enum FetchError {
    /// 401: the token was refused.
    Unauthorized,
    /// 404: no such project or environment.
    NotFound,
    /// Any other status outside 200..=299.
    Server(u16),
}

/// Reads the status of the server's answer: 401 and 404 have their own
/// errors, any other status outside 200..=299 is a server error, and a
/// success status lets the client read the body.
pub fn check_status(status: u16) -> (res: Result<(), FetchError>)
    ensures
        status == 401 ==> res == Err::<(), FetchError>(FetchError::Unauthorized),
        status == 404 ==> res == Err::<(), FetchError>(FetchError::NotFound),
        status != 401 && status != 404 && !(200 <= status <= 299) ==> res == Err::<(), FetchError>(
            FetchError::Server(status),
        ),
        200 <= status <= 299 ==> res == Ok::<(), FetchError>(()),
{
    if status == 401 {
        Err(FetchError::Unauthorized)
    } else if status == 404 {
        Err(FetchError::NotFound)
    } else if status < 200 || status > 299 {
        Err(FetchError::Server(status))
    } else {
        Ok(())
    }
}

} // verus!
