//! Digests and password hashes: SHA-256 in lowercase hex for session tokens,
//! bcrypt for API tokens and the admin password.
use vstd::prelude::*;
use vstd::utf8::encode_utf8;
use sha2::{Digest, Sha256};

verus! {

/// The SHA-256 digest of `bytes`.
pub uninterp spec fn sha256(bytes: Seq<u8>) -> Seq<u8>;

/// What `bcrypt::verify` answers for `password` against the stored `hash`:
/// `Some(true)` when they match, `Some(false)` when they do not, `None` when
/// `hash` is not a bcrypt hash it can read.
pub uninterp spec fn bcrypt_check(password: Seq<char>, hash: Seq<char>) -> Option<bool>;

/// The lowercase hex digit of `n` (below 16).
pub open spec fn hex_digit(n: int) -> char {
    if n < 10 {
        (48 + n) as char
    } else {
        (87 + n) as char
    }
}

/// A character among `0`..`9` and `a`..`f`.
pub open spec fn is_lower_hex_digit(c: char) -> bool {
    ('0' <= c && c <= '9') || ('a' <= c && c <= 'f')
}

/// Each byte as two lowercase hex digits, high half first.
pub open spec fn lower_hex(bytes: Seq<u8>) -> Seq<char>
    decreases bytes.len(),
{
    if bytes.len() == 0 {
        seq![]
    } else {
        seq![hex_digit(bytes[0] as int / 16), hex_digit(bytes[0] as int % 16)] + lower_hex(bytes.drop_first())
    }
}

/// A character of bcrypt's base64 alphabet: `.`, `/`, `A`..`Z`, `a`..`z`,
/// `0`..`9`.
pub open spec fn is_bcrypt_base64_char(c: char) -> bool {
    c == '.' || c == '/' || ('A' <= c && c <= 'Z') || ('a' <= c && c <= 'z') || ('0' <= c && c <= '9')
}

/// The start of a bcrypt hash of version 2b made at cost 12, bcrypt's
/// default cost: `$2b$12$`.
pub open spec fn default_cost_prefix() -> Seq<char> {
    seq!['$', '2', 'b', '$', '1', '2', '$']
}

/// A bcrypt hash as `bcrypt::hash` writes it at the default cost: `$2b$12$`,
/// then 22 characters of salt and 31 of digest in bcrypt's base64 alphabet.
pub open spec fn is_default_bcrypt_hash(h: Seq<char>) -> bool {
    &&& h.len() == 60
    &&& h.take(7) == default_cost_prefix()
    &&& forall|i: int| 7 <= i < 60 ==> is_bcrypt_base64_char(#[trigger] h[i])
}

/// The hex text of a session token's digest: SHA-256 of its UTF-8 bytes.
pub open spec fn sha256_hex_text(input: Seq<char>) -> Seq<char> {
    lower_hex(sha256(encode_utf8(input)))
}

/// `Digest::digest` of `sha2::Sha256`: the 32-byte SHA-256 digest.
#[verifier::external_body]
fn sha256_digest(bytes: &[u8]) -> (res: Vec<u8>)
    ensures
        res@ == sha256(bytes@),
        res@.len() == 32,
{
    Sha256::digest(bytes).to_vec()
}

/// `hex::encode`: each byte as two lowercase hex digits, high half first
/// (the crate's lower-case character table).
#[verifier::external_body]
fn hex_encode(bytes: &[u8]) -> (res: String)
    ensures
        res@ == lower_hex(bytes@),
{
    hex::encode(bytes)
}

/// `bcrypt::verify` of `password` against `hash`, its error read as `None`.
#[verifier::external_body]
fn bcrypt_verify(password: &str, hash: &str) -> (res: Option<bool>)
    ensures
        res == bcrypt_check(password@, hash@),
{
    bcrypt::verify(password, hash).ok()
}

/// `bcrypt::hash` of `password` at `bcrypt::DEFAULT_COST`, with a random
/// salt; its error (the system random source failing) read as `None`.
/// Claimed: `bcrypt::verify` accepts `password` against the hash made, and
/// the hash is written as version 2b at cost 12 (`HashParts::format`: the
/// version, the two-digit cost, then the 16-byte salt and 23 bytes of the
/// digest in bcrypt's unpadded base64).
#[verifier::external_body]
fn bcrypt_hash(password: &str) -> (res: Option<String>)
    ensures
        res matches Some(h) ==> bcrypt_check(password@, h@) == Some(true),
        res matches Some(h) ==> is_default_bcrypt_hash(h@),
{
    bcrypt::hash(password, bcrypt::DEFAULT_COST).ok()
}

proof fn lemma_lower_hex_shape(bytes: Seq<u8>)
    ensures
        lower_hex(bytes).len() == 2 * bytes.len(),
        forall|i: int| 0 <= i < lower_hex(bytes).len() ==> is_lower_hex_digit(#[trigger] lower_hex(bytes)[i]),
    decreases bytes.len(),
{
    if bytes.len() > 0 {
        lemma_lower_hex_shape(bytes.drop_first());
        let h = lower_hex(bytes);
        let rest = lower_hex(bytes.drop_first());
        assert forall|i: int| 0 <= i < h.len() implies is_lower_hex_digit(#[trigger] h[i]) by {
            if i >= 2 {
                assert(h[i] == rest[i - 2]);
            }
        }
    }
}

/// The SHA-256 digest of `input`'s UTF-8 bytes in lowercase hex: 64 hex
/// digits. This is the form in which session tokens are stored.
pub fn sha256_hex(input: &str) -> (res: String)
    ensures
        res@ == sha256_hex_text(input@),
        res@.len() == 64,
        forall|i: int| 0 <= i < res@.len() ==> is_lower_hex_digit(#[trigger] res@[i]),
{
    let digest = sha256_digest(input.as_bytes());
    proof {
        lemma_lower_hex_shape(digest@);
    }
    hex_encode(digest.as_slice())
}

/// Checks `password` against a bcrypt `hash`; an unreadable hash counts as
/// no match.
pub fn password_matches(password: &str, hash: &str) -> (res: bool)
    ensures
        res == (bcrypt_check(password@, hash@) == Some(true)),
{
    match bcrypt_verify(password, hash) {
        Some(ok) => ok,
        None => false,
    }
}

/// Hashes `secret` with bcrypt at the default cost and a fresh salt. The
/// hash made is a version-2b hash at cost 12 and accepts `secret`.
pub fn hash_secret(secret: &str) -> (res: Option<String>)
    ensures
        res matches Some(h) ==> bcrypt_check(secret@, h@) == Some(true),
        res matches Some(h) ==> is_default_bcrypt_hash(h@),
{
    bcrypt_hash(secret)
}

} // verus!
