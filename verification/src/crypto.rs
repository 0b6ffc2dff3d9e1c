//! The at-rest format of variable values: `base64(nonce) ":" base64(ciphertext)`,
//! where the ciphertext is AES-256-GCM under the master key with a fresh
//! 12-byte nonce and no associated data.
use vstd::prelude::*;
use vstd::utf8::*;
use vstd::string::*;
use aes_gcm::aead::rand_core::RngCore;
use aes_gcm::aead::{Aead, KeyInit, OsRng};
use aes_gcm::{Aes256Gcm, Key, Nonce};
use base64::Engine;
use base64::engine::general_purpose::STANDARD;
use crate::text::chars_of;

verus! {

/// Length of an AES-256 key in bytes.
pub const KEY_LEN: usize = 32;

/// Length of an AES-GCM nonce in bytes.
pub const NONCE_LEN: usize = 12;

/// Largest plaintext, in bytes, that AES-GCM encrypts (2^36).
pub const PLAINTEXT_MAX: u64 = 68719476736u64;

/// Why sealing or opening a stored value failed.
#[derive(Debug, Clone, Copy, PartialEq, Eq, Structural)]
pub enum CryptoError {
    /// The master key is not 32 bytes long.
    InvalidKey,
    /// The cipher refused the plaintext.
    EncryptionFailed,
    /// The stored value holds no `:`.
    InvalidFormat,
    /// One of the two halves is not standard base64.
    InvalidBase64,
    /// Authentication failed: wrong key or altered value.
    DecryptionFailed,
    /// The decrypted bytes are not UTF-8.
    InvalidUtf8,
}

/// AES-256-GCM encryption of `plaintext` under `key` and `nonce`, with empty
/// associated data: the ciphertext followed by the 16-byte tag.
pub uninterp spec fn aes256gcm_seal(key: Seq<u8>, nonce: Seq<u8>, plaintext: Seq<u8>) -> Seq<u8>;

/// AES-256-GCM decryption of `ciphertext` (ciphertext and tag) under `key`
/// and `nonce`, with empty associated data; `None` when authentication fails.
pub uninterp spec fn aes256gcm_open(key: Seq<u8>, nonce: Seq<u8>, ciphertext: Seq<u8>) -> Option<Seq<u8>>;

/// Standard base64 (RFC 4648 alphabet, `=` padding) of `bytes`.
pub uninterp spec fn base64_encode(bytes: Seq<u8>) -> Seq<char>;

/// Standard base64 decoding of `text`; `None` when it is not valid base64.
pub uninterp spec fn base64_decode(text: Seq<char>) -> Option<Seq<u8>>;

/// A character of the standard base64 alphabet, or the padding `=`.
pub open spec fn is_base64_char(c: char) -> bool {
    ||| ('A' <= c && c <= 'Z')
    ||| ('a' <= c && c <= 'z')
    ||| ('0' <= c && c <= '9')
    ||| c == '+'
    ||| c == '/'
    ||| c == '='
}

/// `KeyInit::new_from_slice` of `aes_gcm::Aes256Gcm`: it accepts a key
/// exactly when the key is 32 bytes long (its source compares the length with
/// the key size and nothing else).
#[verifier::external_body]
fn aes256gcm_accepts_key(key: &[u8]) -> (res: bool)
    ensures
        res == (key@.len() == KEY_LEN),
{
    Aes256Gcm::new_from_slice(key).is_ok()
}

/// `Aead::encrypt` of `aes_gcm::Aes256Gcm` with a plaintext payload (no
/// associated data). Claimed: it fails exactly when the plaintext exceeds
/// 2^36 bytes (the only check in `encrypt_in_place_detached`), its result is
/// the named seal, and opening that result under the same key and nonce gives
/// the plaintext back (AES-GCM correctness).
#[verifier::external_body]
fn aes256gcm_encrypt(key: &[u8], nonce: &[u8], plaintext: &[u8]) -> (res: Option<Vec<u8>>)
    requires
        key@.len() == KEY_LEN,
        nonce@.len() == NONCE_LEN,
    ensures
        res is Some <==> plaintext@.len() <= PLAINTEXT_MAX,
        res matches Some(c) ==> c@ == aes256gcm_seal(key@, nonce@, plaintext@),
        res matches Some(c) ==> c@.len() == plaintext@.len() + 16,
        res matches Some(c) ==> aes256gcm_open(key@, nonce@, c@) == Some(plaintext@),
{
    let cipher = Aes256Gcm::new(Key::<Aes256Gcm>::from_slice(key));
    cipher.encrypt(Nonce::from_slice(nonce), plaintext).ok()
}

/// `Aead::decrypt` of `aes_gcm::Aes256Gcm` with no associated data. Claimed:
/// its result is the named opening of its arguments.
#[verifier::external_body]
fn aes256gcm_decrypt(key: &[u8], nonce: &[u8], ciphertext: &[u8]) -> (res: Option<Vec<u8>>)
    requires
        key@.len() == KEY_LEN,
        nonce@.len() == NONCE_LEN,
    ensures
        res matches Some(p) ==> aes256gcm_open(key@, nonce@, ciphertext@) == Some(p@),
        res is None ==> aes256gcm_open(key@, nonce@, ciphertext@) is None,
{
    let cipher = Aes256Gcm::new(Key::<Aes256Gcm>::from_slice(key));
    cipher.decrypt(Nonce::from_slice(nonce), ciphertext).ok()
}

/// `RngCore::fill_bytes` of `OsRng` on a 12-byte buffer: 12 bytes from the
/// operating system's generator. Nothing is claimed of their values.
#[verifier::external_body]
fn random_nonce() -> (res: Vec<u8>)
    ensures
        res@.len() == NONCE_LEN,
{
    let mut nonce = vec![0u8; NONCE_LEN];
    OsRng.fill_bytes(&mut nonce);
    nonce
}

/// `Engine::encode` of `base64::engine::general_purpose::STANDARD`. Claimed:
/// the result is the named encoding, uses only the standard alphabet and `=`,
/// and decodes back to `bytes` with the same engine. The length bound keeps
/// clear of the overflow of the encoded length on which `encode` panics.
#[verifier::external_body]
fn standard_base64_encode(bytes: &[u8]) -> (res: String)
    requires
        base64_fits(bytes@.len() as int),
    ensures
        res@ == base64_encode(bytes@),
        base64_decode(res@) == Some(bytes@),
        forall|i: int| 0 <= i < res@.len() ==> is_base64_char(#[trigger] res@[i]),
{
    STANDARD.encode(bytes)
}

/// `Engine::decode` of `base64::engine::general_purpose::STANDARD` on the
/// bytes of `text`. Claimed: the result is the named decoding.
#[verifier::external_body]
pub(crate) fn standard_base64_decode(text: &str) -> (res: Option<Vec<u8>>)
    ensures
        res matches Some(b) ==> base64_decode(text@) == Some(b@),
        res is None ==> base64_decode(text@) is None,
{
    STANDARD.decode(text).ok()
}

/// `String::from_utf8`: succeeds exactly on valid UTF-8, and the string then
/// holds the characters those bytes encode.
#[verifier::external_body]
fn string_from_utf8(bytes: Vec<u8>) -> (res: Option<String>)
    ensures
        res is Some <==> valid_utf8(bytes@),
        res matches Some(s) ==> s@ == decode_utf8(bytes@),
{
    String::from_utf8(bytes).ok()
}

/// `i` is the position of the first `:` in `s`.
pub open spec fn is_first_colon(s: Seq<char>, i: int) -> bool {
    &&& 0 <= i < s.len()
    &&& s[i] == ':'
    &&& forall|j: int| 0 <= j < i ==> s[j] != ':'
}

/// `s` cut at its first `:` into the part before and the part after.
pub open spec fn colon_split(s: Seq<char>) -> Option<(Seq<char>, Seq<char>)> {
    if exists|i: int| is_first_colon(s, i) {
        let i = choose|i: int| is_first_colon(s, i);
        Some((s.take(i), s.skip(i + 1)))
    } else {
        None
    }
}

/// The stored text for `plaintext` sealed under `key` with `nonce`.
pub open spec fn sealed_text(key: Seq<u8>, nonce: Seq<u8>, plaintext: Seq<char>) -> Seq<char> {
    base64_encode(nonce) + seq![':'] + base64_encode(
        aes256gcm_seal(key, nonce, encode_utf8(plaintext)),
    )
}

/// The outcome of sealing `plaintext` under `key` with `nonce`.
pub open spec fn seal_outcome(key: Seq<u8>, nonce: Seq<u8>, plaintext: Seq<char>) -> Result<
    Seq<char>,
    CryptoError,
> {
    if key.len() != KEY_LEN {
        Err(CryptoError::InvalidKey)
    } else if encode_utf8(plaintext).len() > PLAINTEXT_MAX {
        Err(CryptoError::EncryptionFailed)
    } else {
        Ok(sealed_text(key, nonce, plaintext))
    }
}

/// The outcome of opening decoded parts: the nonce and the ciphertext.
pub open spec fn open_parts_outcome(key: Seq<u8>, nonce: Seq<u8>, ciphertext: Seq<u8>) -> Result<
    Seq<char>,
    CryptoError,
> {
    if key.len() != KEY_LEN {
        Err(CryptoError::InvalidKey)
    } else {
        match aes256gcm_open(key, nonce, ciphertext) {
            None => Err(CryptoError::DecryptionFailed),
            Some(p) => if valid_utf8(p) {
                Ok(decode_utf8(p))
            } else {
                Err(CryptoError::InvalidUtf8)
            },
        }
    }
}

/// The outcome of opening the stored text `stored` under `key`.
pub open spec fn open_outcome(key: Seq<u8>, stored: Seq<char>) -> Result<Seq<char>, CryptoError> {
    match colon_split(stored) {
        None => Err(CryptoError::InvalidFormat),
        Some((nonce_text, ct_text)) => match base64_decode(nonce_text) {
            None => Err(CryptoError::InvalidBase64),
            Some(nonce) => match base64_decode(ct_text) {
                None => Err(CryptoError::InvalidBase64),
                Some(ct) => open_parts_outcome(key, nonce, ct),
            },
        },
    }
}

/// The stored text decodes, under a valid key, to a nonce that is not 12
/// bytes long: the cipher cannot take such a nonce.
pub open spec fn nonce_misfit(key: Seq<u8>, stored: Seq<char>) -> bool {
    &&& key.len() == KEY_LEN
    &&& colon_split(stored) matches Some((nonce_text, ct_text))
    &&& base64_decode(nonce_text) matches Some(nonce)
    &&& base64_decode(ct_text) is Some
    &&& nonce.len() != NONCE_LEN
}

/// A result carrying a `String` seen as one carrying its characters.
pub open spec fn text_result(r: Result<String, CryptoError>) -> Result<Seq<char>, CryptoError> {
    match r {
        Ok(s) => Ok(s@),
        Err(e) => Err(e),
    }
}

/// The base64 text of `n` bytes has a length that fits in `usize` (the
/// encoder panics on an overflow of the encoded length).
pub open spec fn base64_fits(n: int) -> bool {
    n / 3 * 4 + 4 <= usize::MAX
}

/// The stored text of a plaintext of `n` bytes that the cipher accepts has a
/// length that fits in `usize`: its ciphertext is `n + 16` bytes.
pub open spec fn sealed_fits(n: int) -> bool {
    n <= PLAINTEXT_MAX ==> base64_fits(n + 16)
}

/// `s` holds no `:`.
pub open spec fn no_colon(s: Seq<char>) -> bool {
    forall|j: int| 0 <= j < s.len() ==> s[j] != ':'
}

/// `s` holds exactly one `:`.
pub open spec fn one_colon(s: Seq<char>) -> bool {
    exists|k: int| 0 <= k < s.len() && s[k] == ':' && forall|j: int| 0 <= j < s.len() && #[trigger] s[j] == ':' ==> j == k
}

/// The text `a ':' b` holds exactly one `:` when `a` and `b` hold none.
proof fn lemma_one_colon(a: Seq<char>, b: Seq<char>)
    requires
        no_colon(a),
        no_colon(b),
    ensures
        one_colon(a + seq![':'] + b),
{
    let s = a + seq![':'] + b;
    let k = a.len() as int;
    assert(s[k] == ':');
    assert forall|j: int| 0 <= j < s.len() && #[trigger] s[j] == ':' implies j == k by {
        if j < k {
            assert(s[j] == a[j]);
        } else if j > k {
            assert(s[j] == b[j - k - 1]);
        }
    }
}

proof fn lemma_first_colon_unique(s: Seq<char>, i: int, k: int)
    requires
        is_first_colon(s, i),
        is_first_colon(s, k),
    ensures
        i == k,
{
    if i < k {
        assert(s[i] != ':');
    } else if k < i {
        assert(s[k] != ':');
    }
}

proof fn lemma_colon_split_at(s: Seq<char>, i: int)
    requires
        is_first_colon(s, i),
    ensures
        colon_split(s) == Some((s.take(i), s.skip(i + 1))),
{
    let k = choose|k: int| is_first_colon(s, k);
    lemma_first_colon_unique(s, i, k);
}

/// The text `a ':' b` splits back into `a` and `b` when `a` has no `:`.
proof fn lemma_colon_split_join(a: Seq<char>, b: Seq<char>)
    requires
        forall|j: int| 0 <= j < a.len() ==> a[j] != ':',
    ensures
        colon_split(a + seq![':'] + b) == Some((a, b)),
{
    let s = a + seq![':'] + b;
    assert(is_first_colon(s, a.len() as int));
    lemma_colon_split_at(s, a.len() as int);
    assert(s.take(a.len() as int) =~= a);
    assert(s.skip(a.len() as int + 1) =~= b);
}

/// Splits `stored` at its first `:`.
fn split_stored(stored: &str) -> (res: Option<(&str, &str)>)
    ensures
        match res {
            Some((a, b)) => colon_split(stored@) == Some((a@, b@)),
            None => colon_split(stored@) is None,
        },
{
    let chars = chars_of(stored);
    let n = chars.len();
    let mut i: usize = 0;
    while i < n
        invariant
            n == chars@.len(),
            chars@ == stored@,
            i <= n,
            forall|j: int| 0 <= j < i ==> stored@[j] != ':',
        decreases n - i,
    {
        if chars[i] == ':' {
            proof {
                lemma_colon_split_at(stored@, i as int);
            }
            let before = stored.substring_char(0, i);
            let after = stored.substring_char(i + 1, n);
            return Some((before, after));
        }
        i = i + 1;
    }
    assert(!exists|k: int| is_first_colon(stored@, k));
    None
}

/// Seals `plaintext` under `master_key` with the given `nonce` into the
/// stored text `base64(nonce):base64(ciphertext)`, the ciphertext being 16
/// bytes longer than the plaintext. The text holds exactly one `:`, and
/// opening it under the same key gives `plaintext` back.
pub fn seal_with_nonce(master_key: &[u8], nonce: &[u8], plaintext: &str) -> (res: Result<
    String,
    CryptoError,
>)
    requires
        nonce@.len() == NONCE_LEN,
        sealed_fits(encode_utf8(plaintext@).len() as int),
    ensures
        text_result(res) == seal_outcome(master_key@, nonce@, plaintext@),
        res is Ok ==> aes256gcm_seal(master_key@, nonce@, encode_utf8(plaintext@)).len()
            == encode_utf8(plaintext@).len() + 16,
        res is Ok ==> one_colon(res->Ok_0@),
        res is Ok ==> open_outcome(master_key@, res->Ok_0@) == Ok::<Seq<char>, CryptoError>(plaintext@),
        res is Ok ==> !nonce_misfit(master_key@, res->Ok_0@),
{
    if !aes256gcm_accepts_key(master_key) {
        return Err(CryptoError::InvalidKey);
    }
    let bytes = plaintext.as_bytes();
    let sealed = match aes256gcm_encrypt(master_key, nonce, bytes) {
        Some(c) => c,
        None => {
            return Err(CryptoError::EncryptionFailed);
        },
    };
    let nonce_text = standard_base64_encode(nonce);
    let sealed_text_part = standard_base64_encode(sealed.as_slice());
    let mut out = nonce_text;
    let ghost a = out@;
    out.append(":");
    proof {
        reveal_strlit(":");
    }
    out.append(sealed_text_part.as_str());
    proof {
        let b = sealed_text_part@;
        assert(out@ =~= a + seq![':'] + b);
        assert forall|j: int| 0 <= j < a.len() implies a[j] != ':' by {
            assert(is_base64_char(a[j]));
        }
        assert forall|j: int| 0 <= j < b.len() implies b[j] != ':' by {
            assert(is_base64_char(b[j]));
        }
        lemma_colon_split_join(a, b);
        lemma_one_colon(a, b);
        encode_utf8_valid_utf8(plaintext@);
        encode_utf8_decode_utf8(plaintext@);
    }
    Ok(out)
}

/// Encrypts `plaintext` under `master_key` with a fresh random nonce, giving
/// `base64(nonce):base64(ciphertext)`. Fails with `InvalidKey` when the key
/// is not 32 bytes, and with `EncryptionFailed` when the plaintext is over
/// 2^36 bytes. Whatever nonce was drawn, the ciphertext is 16 bytes longer
/// than the plaintext, the text holds exactly one `:`, and decrypting it
/// under the same key gives `plaintext` back.
pub fn encrypt(master_key: &[u8], plaintext: &str) -> (res: Result<String, CryptoError>)
    requires
        sealed_fits(encode_utf8(plaintext@).len() as int),
    ensures
        master_key@.len() != KEY_LEN ==> res == Err::<String, CryptoError>(CryptoError::InvalidKey),
        master_key@.len() == KEY_LEN && encode_utf8(plaintext@).len() > PLAINTEXT_MAX ==> res
            == Err::<String, CryptoError>(CryptoError::EncryptionFailed),
        master_key@.len() == KEY_LEN && encode_utf8(plaintext@).len() <= PLAINTEXT_MAX ==> (
        exists|nonce: Seq<u8>|
            {
                &&& nonce.len() == NONCE_LEN
                &&& aes256gcm_seal(master_key@, nonce, encode_utf8(plaintext@)).len()
                    == encode_utf8(plaintext@).len() + 16
                &&& text_result(res) == Ok::<Seq<char>, CryptoError>(
                    #[trigger] sealed_text(master_key@, nonce, plaintext@),
                )
            }),
        res is Ok ==> one_colon(res->Ok_0@),
        res is Ok ==> open_outcome(master_key@, res->Ok_0@) == Ok::<Seq<char>, CryptoError>(plaintext@),
        res is Ok ==> !nonce_misfit(master_key@, res->Ok_0@),
{
    if !aes256gcm_accepts_key(master_key) {
        return Err(CryptoError::InvalidKey);
    }
    let nonce = random_nonce();
    let res = seal_with_nonce(master_key, nonce.as_slice(), plaintext);
    assert(text_result(res) == seal_outcome(master_key@, nonce@, plaintext@));
    res
}

/// Opens decoded parts: decrypts `ciphertext` under `master_key` and `nonce`
/// and reads the plaintext as UTF-8.
pub fn open_parts(master_key: &[u8], nonce: &[u8], ciphertext: &[u8]) -> (res: Result<
    String,
    CryptoError,
>)
    requires
        master_key@.len() == KEY_LEN ==> nonce@.len() == NONCE_LEN,
    ensures
        text_result(res) == open_parts_outcome(master_key@, nonce@, ciphertext@),
{
    if !aes256gcm_accepts_key(master_key) {
        return Err(CryptoError::InvalidKey);
    }
    let plain = match aes256gcm_decrypt(master_key, nonce, ciphertext) {
        Some(p) => p,
        None => {
            return Err(CryptoError::DecryptionFailed);
        },
    };
    match string_from_utf8(plain) {
        Some(s) => Ok(s),
        None => Err(CryptoError::InvalidUtf8),
    }
}

/// Decrypts a stored value `base64(nonce):base64(ciphertext)` under
/// `master_key`. Fails with `InvalidFormat` when there is no `:`, with
/// `InvalidBase64` when either half is not base64 (the nonce half first),
/// with `InvalidKey` when the key is not 32 bytes, with `DecryptionFailed`
/// when authentication fails and with `InvalidUtf8` when the plaintext is
/// not UTF-8.
pub fn decrypt(master_key: &[u8], stored: &str) -> (res: Result<String, CryptoError>)
    requires
        !nonce_misfit(master_key@, stored@),
    ensures
        text_result(res) == open_outcome(master_key@, stored@),
{
    let (nonce_text, ct_text) = match split_stored(stored) {
        Some(parts) => parts,
        None => {
            return Err(CryptoError::InvalidFormat);
        },
    };
    let nonce = match standard_base64_decode(nonce_text) {
        Some(n) => n,
        None => {
            return Err(CryptoError::InvalidBase64);
        },
    };
    let ciphertext = match standard_base64_decode(ct_text) {
        Some(c) => c,
        None => {
            return Err(CryptoError::InvalidBase64);
        },
    };
    open_parts(master_key, nonce.as_slice(), ciphertext.as_slice())
}

/// Decrypts a stored value as `decrypt` does, except where the stored nonce
/// decodes to a length the cipher cannot take: then it returns `None`
/// without decrypting.
pub fn decrypt_checked(master_key: &[u8], stored: &str) -> (res: Option<Result<String, CryptoError>>)
    ensures
        res is None <==> nonce_misfit(master_key@, stored@),
        res matches Some(r) ==> text_result(r) == open_outcome(master_key@, stored@),
{
    if aes256gcm_accepts_key(master_key) {
        if let Some((nonce_text, ct_text)) = split_stored(stored) {
            if let Some(nonce) = standard_base64_decode(nonce_text) {
                if let Some(_) = standard_base64_decode(ct_text) {
                    if nonce.len() != NONCE_LEN {
                        return None;
                    }
                }
            }
        }
    }
    Some(decrypt(master_key, stored))
}

} // verus!
