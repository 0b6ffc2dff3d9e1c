//! Server start-up: reading the master key and seeding the admin user.
use vstd::prelude::*;
use crate::crypto::{base64_decode, standard_base64_decode, KEY_LEN};
use crate::error::Failure;
use crate::hashing::{bcrypt_check, hash_secret, is_default_bcrypt_hash};
use crate::text::chars_of;
use vstd::string::*;

verus! {

/// A whitespace character as `char::is_whitespace` counts it (the Unicode
/// `White_Space` property).
pub open spec fn is_whitespace(c: char) -> bool {
    let u = c as u32;
    ||| (0x9 <= u && u <= 0xd)
    ||| u == 0x20
    ||| u == 0x85
    ||| u == 0xa0
    ||| u == 0x1680
    ||| (0x2000 <= u && u <= 0x200a)
    ||| u == 0x2028
    ||| u == 0x2029
    ||| u == 0x202f
    ||| u == 0x205f
    ||| u == 0x3000
}

/// `s` without whitespace at its start and at its end.
pub open spec fn trim_whitespace(s: Seq<char>) -> Seq<char>
    decreases s.len(),
{
    if s.len() > 0 && is_whitespace(s[0]) {
        trim_whitespace(s.drop_first())
    } else if s.len() > 0 && is_whitespace(s.last()) {
        trim_whitespace(s.drop_last())
    } else {
        s
    }
}

/// The whitespace characters are exactly those of the Unicode `White_Space`
/// property, which `char::is_whitespace` and `str::trim` use: tab, line
/// feed, vertical tab, form feed, carriage return, space, next line,
/// no-break space, ogham space mark, the spaces from en quad to hair space,
/// line and paragraph separators, narrow no-break space, medium
/// mathematical space and ideographic space.
pub proof fn lemma_whitespace_chars(c: char)
    ensures
        is_whitespace(c) <==> (c == '\t' || c == '\n' || c == '\u{b}' || c == '\u{c}' || c == '\r'
            || c == ' ' || c == '\u{85}' || c == '\u{a0}' || c == '\u{1680}' || c == '\u{2000}'
            || c == '\u{2001}' || c == '\u{2002}' || c == '\u{2003}' || c == '\u{2004}'
            || c == '\u{2005}' || c == '\u{2006}' || c == '\u{2007}' || c == '\u{2008}'
            || c == '\u{2009}' || c == '\u{200a}' || c == '\u{2028}' || c == '\u{2029}'
            || c == '\u{202f}' || c == '\u{205f}' || c == '\u{3000}'),
{
}

/// What trimming removes: the text kept is one stretch of `s` that neither
/// starts nor ends with whitespace, and everything before and after it is
/// whitespace.
pub proof fn lemma_trim_whitespace_shape(s: Seq<char>) -> (bounds: (int, int))
    ensures
        0 <= bounds.0 <= bounds.1 <= s.len(),
        trim_whitespace(s) == s.subrange(bounds.0, bounds.1),
        forall|j: int| 0 <= j < bounds.0 ==> is_whitespace(#[trigger] s[j]),
        forall|j: int| bounds.1 <= j < s.len() ==> is_whitespace(#[trigger] s[j]),
        bounds.0 < bounds.1 ==> !is_whitespace(s[bounds.0]) && !is_whitespace(s[bounds.1 - 1]),
    decreases s.len(),
{
    if s.len() > 0 && is_whitespace(s[0]) {
        let (a, b) = lemma_trim_whitespace_shape(s.drop_first());
        assert(s.drop_first().subrange(a, b) =~= s.subrange(a + 1, b + 1));
        assert forall|j: int| 0 <= j < a + 1 implies is_whitespace(#[trigger] s[j]) by {
            if j > 0 {
                assert(s[j] == s.drop_first()[j - 1]);
            }
        }
        assert forall|j: int| b + 1 <= j < s.len() implies is_whitespace(#[trigger] s[j]) by {
            assert(s[j] == s.drop_first()[j - 1]);
        }
        (a + 1, b + 1)
    } else if s.len() > 0 && is_whitespace(s.last()) {
        let (a, b) = lemma_trim_whitespace_shape(s.drop_last());
        assert(s.drop_last().subrange(a, b) =~= s.subrange(a, b));
        assert forall|j: int| 0 <= j < a implies is_whitespace(#[trigger] s[j]) by {
            assert(s[j] == s.drop_last()[j]);
        }
        assert forall|j: int| b <= j < s.len() implies is_whitespace(#[trigger] s[j]) by {
            if j < s.len() - 1 {
                assert(s[j] == s.drop_last()[j]);
            }
        }
        (a, b)
    } else {
        assert(s.subrange(0, s.len() as int) =~= s);
        (0, s.len() as int)
    }
}

fn is_whitespace_exec(c: char) -> (res: bool)
    ensures
        res == is_whitespace(c),
{
    let u: u32 = c as u32;
    (0x9 <= u && u <= 0xd) || u == 0x20 || u == 0x85 || u == 0xa0 || u == 0x1680 || (0x2000 <= u
        && u <= 0x200a) || u == 0x2028 || u == 0x2029 || u == 0x202f || u == 0x205f || u == 0x3000
}

proof fn lemma_trim_inner(s: Seq<char>, start: int, end: int)
    requires
        0 <= start <= end <= s.len(),
        forall|j: int| 0 <= j < start ==> is_whitespace(#[trigger] s[j]),
        forall|j: int| end <= j < s.len() ==> is_whitespace(#[trigger] s[j]),
        start < end ==> !is_whitespace(s[start]) && !is_whitespace(s[end - 1]),
    ensures
        trim_whitespace(s) == s.subrange(start, end),
    decreases s.len(),
{
    if start > 0 {
        assert(is_whitespace(s[0]));
        lemma_trim_inner(s.drop_first(), start - 1, end - 1);
        assert(s.drop_first().subrange(start - 1, end - 1) =~= s.subrange(start, end));
    } else if end < s.len() {
        assert(is_whitespace(s.last()));
        if s.len() > 0 && is_whitespace(s[0]) {
            assert(start == end && end == 0);
            lemma_trim_inner(s.drop_first(), 0, 0);
            assert(s.drop_first().subrange(0, 0) =~= s.subrange(0, 0));
        } else {
            lemma_trim_inner(s.drop_last(), start, end);
            assert(s.drop_last().subrange(start, end) =~= s.subrange(start, end));
        }
    } else {
        assert(s.subrange(0, s.len() as int) =~= s);
    }
}

/// `s` without the whitespace at its start and end, as `str::trim` gives it.
pub fn trim(s: &str) -> (res: &str)
    ensures
        res@ == trim_whitespace(s@),
{
    let chars = chars_of(s);
    let n = chars.len();
    let mut start: usize = 0;
    while start < n && is_whitespace_exec(chars[start])
        invariant
            n == chars@.len(),
            chars@ == s@,
            start <= n,
            forall|j: int| 0 <= j < start ==> is_whitespace(#[trigger] s@[j]),
        decreases n - start,
    {
        start = start + 1;
    }
    let mut end: usize = n;
    while end > start && is_whitespace_exec(chars[end - 1])
        invariant
            n == chars@.len(),
            chars@ == s@,
            start <= end <= n,
            forall|j: int| end <= j < n ==> is_whitespace(#[trigger] s@[j]),
        decreases end - start,
    {
        end = end - 1;
    }
    proof {
        lemma_trim_inner(s@, start as int, end as int);
    }
    s.substring_char(start, end)
}

/// Why the master key could not be read.
#[derive(Debug, Clone, Copy, PartialEq, Eq, Structural)]
pub enum MasterKeyError {
    /// The trimmed text is not standard base64.
    InvalidBase64,
    /// The decoded key is not 32 bytes long.
    WrongLength,
}

/// Reads the master key from its base64 text: the text is trimmed of
/// whitespace and decoded, and the key must be 32 bytes long.
pub fn parse_master_key(text: &str) -> (res: Result<Vec<u8>, MasterKeyError>)
    ensures
        match base64_decode(trim_whitespace(text@)) {
            None => res == Err::<Vec<u8>, MasterKeyError>(MasterKeyError::InvalidBase64),
            Some(bytes) => if bytes.len() == KEY_LEN {
                res matches Ok(key) && key@ == bytes
            } else {
                res == Err::<Vec<u8>, MasterKeyError>(MasterKeyError::WrongLength)
            },
        },
{
    let trimmed = trim(text);
    match standard_base64_decode(trimmed) {
        None => Err(MasterKeyError::InvalidBase64),
        Some(key) => {
            if key.len() == KEY_LEN {
                Ok(key)
            } else {
                Err(MasterKeyError::WrongLength)
            }
        },
    }
}

/// The admin user to create on first start.
#[derive(Debug)]
pub struct AdminSeed {
    pub username: String,
    pub password_hash: String,
}

/// The name of the first admin: the configured one, else `admin`.
pub open spec fn seed_username(configured: Option<String>) -> Seq<char> {
    match configured {
        Some(name) => name@,
        None => "admin"@,
    }
}

/// Decides the admin seeding from the number of admin users already stored:
/// with none, the admin to create (the configured name, else `admin`, and a
/// bcrypt hash of the configured password at the default cost); with some, nothing. A failed
/// hash is a hashing failure.
pub fn plan_admin_seed(count: i64, username: Option<String>, password: Option<String>) -> (res: Result<
    Option<AdminSeed>,
    Failure,
>)
    requires
        count == 0 ==> password is Some,
    ensures
        count != 0 ==> res matches Ok(None),
        count == 0 ==> match res {
            Ok(Some(seed)) => seed.username@ == seed_username(username) && bcrypt_check(
                password->Some_0@,
                seed.password_hash@,
            ) == Some(true) && is_default_bcrypt_hash(seed.password_hash@),
            Ok(None) => false,
            Err(f) => f == Failure::Hashing,
        },
{
    if count != 0 {
        return Ok(None);
    }
    let name = match username {
        Some(n) => n,
        None => "admin".to_owned(),
    };
    let password = match password {
        Some(p) => p,
        None => {
            return Ok(None);
        },
    };
    match hash_secret(password.as_str()) {
        Some(password_hash) => Ok(Some(AdminSeed { username: name, password_hash })),
        None => Err(Failure::Hashing),
    }
}

} // verus!
