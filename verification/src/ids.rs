//! Fresh identifiers and secrets: random version-4 UUIDs for row ids and
//! session tokens, random alphanumeric text for API tokens.
use vstd::prelude::*;
use rand::Rng;
use crate::hashing::is_lower_hex_digit;

verus! {

/// Text in the hyphenated lowercase form of a version-4 UUID:
/// `xxxxxxxx-xxxx-4xxx-yxxx-xxxxxxxxxxxx` with `y` among `8`, `9`, `a`, `b`.
pub open spec fn is_uuid_v4_text(s: Seq<char>) -> bool {
    &&& s.len() == 36
    &&& forall|i: int|
        0 <= i < 36 ==> if i == 8 || i == 13 || i == 18 || i == 23 {
            #[trigger] s[i] == '-'
        } else {
            is_lower_hex_digit(s[i])
        }
    &&& s[14] == '4'
    &&& (s[19] == '8' || s[19] == '9' || s[19] == 'a' || s[19] == 'b')
}

/// A character among `A`..`Z`, `a`..`z` and `0`..`9`.
pub open spec fn is_ascii_alphanumeric(c: char) -> bool {
    ('A' <= c && c <= 'Z') || ('a' <= c && c <= 'z') || ('0' <= c && c <= '9')
}

/// `uuid::Uuid::new_v4` written with its `Display` (hyphenated, lowercase).
/// Claimed: the text has the version-4 form. Its value is random.
#[verifier::external_body]
fn uuid_v4_text() -> (res: String)
    ensures
        is_uuid_v4_text(res@),
{
    uuid::Uuid::new_v4().to_string()
}

/// `len` characters drawn with `rand::distributions::Alphanumeric` from the
/// thread's generator. Claimed: exactly `len` characters, each alphanumeric
/// ASCII. Their values are random.
#[verifier::external_body]
fn random_alphanumeric(len: usize) -> (res: String)
    ensures
        res@.len() == len,
        forall|i: int| 0 <= i < len ==> is_ascii_alphanumeric(#[trigger] res@[i]),
{
    rand::thread_rng().sample_iter(&rand::distributions::Alphanumeric).take(len).map(char::from).collect()
}

/// A fresh random row id in the hyphenated form of a version-4 UUID.
pub fn new_record_id() -> (res: String)
    ensures
        is_uuid_v4_text(res@),
{
    uuid_v4_text()
}

/// Length of a newly issued API token.
pub const API_TOKEN_LEN: usize = 48;

/// A fresh random API token: 48 alphanumeric ASCII characters.
pub fn new_api_token() -> (res: String)
    ensures
        res@.len() == API_TOKEN_LEN,
        forall|i: int| 0 <= i < API_TOKEN_LEN ==> is_ascii_alphanumeric(#[trigger] res@[i]),
{
    random_alphanumeric(API_TOKEN_LEN)
}

} // verus!
