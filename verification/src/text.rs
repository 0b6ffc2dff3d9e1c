//! Character-level helpers over `str` and `String`.
use vstd::prelude::*;

verus! {

/// Collects the characters of `s` into a vector.
pub fn chars_of(s: &str) -> (res: Vec<char>)
    ensures
        res@ == s@,
{
    let mut res: Vec<char> = Vec::new();
    for c in it: s.chars()
        invariant
            res@ == it.seq().take(it.index() as int),
    {
        res.push(c);
    }
    res
}

/// Whether `s` holds the character `c`.
pub fn contains_char(s: &Vec<char>, c: char) -> (res: bool)
    ensures
        res == s@.contains(c),
{
    let n = s.len();
    for i in 0..n
        invariant
            n == s@.len(),
            forall|j: int| 0 <= j < i ==> s@[j] != c,
    {
        if s[i] == c {
            assert(s@[i as int] == c);
            return true;
        }
    }
    false
}

/// Lexicographic `<=` on character sequences, characters compared by code
/// point (for UTF-8 text this is the byte order that `String`'s `Ord` uses).
pub open spec fn chars_le(a: Seq<char>, b: Seq<char>) -> bool
    decreases a.len(),
{
    if a.len() == 0 {
        true
    } else if b.len() == 0 {
        false
    } else if a[0] != b[0] {
        (a[0] as u32) < (b[0] as u32)
    } else {
        chars_le(a.drop_first(), b.drop_first())
    }
}

/// `chars_le` as a relation.
pub open spec fn chars_order() -> spec_fn(Seq<char>, Seq<char>) -> bool {
    |a: Seq<char>, b: Seq<char>| chars_le(a, b)
}

proof fn lemma_chars_le_reflexive(a: Seq<char>)
    ensures
        chars_le(a, a),
    decreases a.len(),
{
    if a.len() > 0 {
        lemma_chars_le_reflexive(a.drop_first());
    }
}

proof fn lemma_chars_le_antisymmetric(a: Seq<char>, b: Seq<char>)
    requires
        chars_le(a, b),
        chars_le(b, a),
    ensures
        a == b,
    decreases a.len(),
{
    if a.len() > 0 && b.len() > 0 {
        if a[0] == b[0] {
            lemma_chars_le_antisymmetric(a.drop_first(), b.drop_first());
            assert(a =~= seq![a[0]] + a.drop_first());
            assert(b =~= seq![b[0]] + b.drop_first());
        }
    }
}

proof fn lemma_chars_le_transitive(a: Seq<char>, b: Seq<char>, c: Seq<char>)
    requires
        chars_le(a, b),
        chars_le(b, c),
    ensures
        chars_le(a, c),
    decreases a.len(),
{
    if a.len() > 0 && b.len() > 0 && c.len() > 0 {
        if a[0] == b[0] && b[0] == c[0] {
            lemma_chars_le_transitive(a.drop_first(), b.drop_first(), c.drop_first());
        }
    }
}

proof fn lemma_chars_le_total(a: Seq<char>, b: Seq<char>)
    ensures
        chars_le(a, b) || chars_le(b, a),
    decreases a.len(),
{
    if a.len() > 0 && b.len() > 0 {
        if a[0] == b[0] {
            lemma_chars_le_total(a.drop_first(), b.drop_first());
        } else {
            vstd::utf8::char_u32_cast(a[0], a[0] as u32);
            vstd::utf8::char_u32_cast(b[0], b[0] as u32);
        }
    }
}

/// `chars_le` is a total order.
pub proof fn lemma_chars_order_total()
    ensures
        vstd::relations::total_ordering(chars_order()),
{
    let r = chars_order();
    assert forall|x: Seq<char>| #[trigger] r(x, x) by {
        lemma_chars_le_reflexive(x);
    }
    assert forall|x: Seq<char>, y: Seq<char>| #[trigger] r(x, y) && #[trigger] r(y, x) implies x
        == y by {
        lemma_chars_le_antisymmetric(x, y);
    }
    assert forall|x: Seq<char>, y: Seq<char>, z: Seq<char>|
        #[trigger] r(x, y) && #[trigger] r(y, z) implies r(x, z) by {
        lemma_chars_le_transitive(x, y, z);
    }
    assert forall|x: Seq<char>, y: Seq<char>| #[trigger] r(x, y) || #[trigger] r(y, x) by {
        lemma_chars_le_total(x, y);
    }
}

/// The order compares text character by character: a text comes no later
/// than any text it is a prefix of, and otherwise the first position where
/// the two differ decides, by the characters' code points.
pub proof fn lemma_chars_le_lexicographic(a: Seq<char>, b: Seq<char>)
    ensures
        a.len() <= b.len() && a == b.take(a.len() as int) ==> chars_le(a, b),
        forall|k: int|
            0 <= k < a.len() && k < b.len() && a.take(k) == b.take(k) && a[k] != b[k] ==> (chars_le(a, b)
                <==> (#[trigger] a[k] as u32) < (b[k] as u32)),
    decreases a.len(),
{
    if a.len() > 0 && b.len() > 0 {
        lemma_chars_le_lexicographic(a.drop_first(), b.drop_first());
        if a.len() <= b.len() && a == b.take(a.len() as int) {
            assert(a.drop_first() =~= b.drop_first().take(a.drop_first().len() as int));
        }
        assert forall|k: int|
            0 <= k < a.len() && k < b.len() && a.take(k) == b.take(k) && a[k] != b[k] implies (chars_le(
                a,
                b,
            ) <==> (#[trigger] a[k] as u32) < (b[k] as u32)) by {
            if k > 0 {
                assert(a[0] == a.take(k)[0]);
                assert(b[0] == b.take(k)[0]);
                assert(a.drop_first().take(k - 1) =~= a.take(k).drop_first());
                assert(b.drop_first().take(k - 1) =~= b.take(k).drop_first());
                assert(a.drop_first()[k - 1] == a[k]);
                assert(b.drop_first()[k - 1] == b[k]);
            }
        }
    }
}

/// Compares two character vectors by `chars_le`.
pub fn chars_le_exec(a: &Vec<char>, b: &Vec<char>) -> (res: bool)
    ensures
        res == chars_le(a@, b@),
{
    let mut i: usize = 0;
    assert(a@.skip(0) =~= a@);
    assert(b@.skip(0) =~= b@);
    while i < a.len() && i < b.len()
        invariant
            i <= a@.len(),
            i <= b@.len(),
            forall|j: int| 0 <= j < i ==> a@[j] == b@[j],
            chars_le(a@, b@) == chars_le(a@.skip(i as int), b@.skip(i as int)),
        decreases a@.len() - i,
    {
        if a[i] != b[i] {
            let x: u32 = a[i] as u32;
            let y: u32 = b[i] as u32;
            return x < y;
        }
        assert(a@.skip(i as int).drop_first() =~= a@.skip(i + 1));
        assert(b@.skip(i as int).drop_first() =~= b@.skip(i + 1));
        i = i + 1;
    }
    i == a.len()
}

} // verus!
