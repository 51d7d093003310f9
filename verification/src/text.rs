//! Character-level text helpers: name normalization and string building.

use vstd::prelude::*;

verus! {

/// ASCII lower-casing of one character; every other character is unchanged.
pub open spec fn ascii_lower(c: char) -> char {
    if 'A' <= c <= 'Z' {
        ((c as u32) + 32) as char
    } else {
        c
    }
}

/// One character of a normalized name: lower-cased, with `_` and space
/// turned into `-`.
pub open spec fn normalize_char(c: char) -> char {
    if ascii_lower(c) == '_' || ascii_lower(c) == ' ' {
        '-'
    } else {
        ascii_lower(c)
    }
}

/// A name normalized for lookup: ASCII lower-case, `_` and space as `-`.
pub open spec fn normalize(s: Seq<char>) -> Seq<char> {
    s.map_values(|c: char| normalize_char(c))
}

/// ASCII lower-casing moves every letter `A`..=`Z` to its lower-case form,
/// 32 code points up, and leaves every other character alone.
pub proof fn lemma_ascii_lower(c: char)
    ensures
        'A' <= c <= 'Z' ==> ascii_lower(c) as int == c as int + 32 && 'a' <= ascii_lower(c) <= 'z',
        !('A' <= c <= 'Z') ==> ascii_lower(c) == c,
{
}

/// `a` and `b` are the same letter up to ASCII case, or the same character.
pub open spec fn same_up_to_case(a: char, b: char) -> bool {
    ||| a == b
    ||| 'A' <= a <= 'Z' && b as int == a as int + 32
    ||| 'A' <= b <= 'Z' && a as int == b as int + 32
}

/// `a` and `b` are interchangeable word separators: `_`, space or `-`.
pub open spec fn both_separators(a: char, b: char) -> bool {
    (a == '_' || a == ' ' || a == '-') && (b == '_' || b == ' ' || b == '-')
}

/// Two names that differ only in ASCII letter case and in which of `_`, space
/// and `-` separates their words.
pub open spec fn equivalent_names(s: Seq<char>, t: Seq<char>) -> bool {
    &&& s.len() == t.len()
    &&& forall|k: int|
        0 <= k < s.len() ==> same_up_to_case(#[trigger] s[k], t[k]) || both_separators(
            s[k],
            t[k],
        )
}

/// Normalization ignores ASCII letter case and the choice of word separator:
/// equivalent names normalize to the same text.
pub proof fn lemma_normalize_equivalent(s: Seq<char>, t: Seq<char>)
    requires
        equivalent_names(s, t),
    ensures
        normalize(s) == normalize(t),
{
    assert forall|k: int| 0 <= k < s.len() implies normalize(s)[k] == normalize(t)[k] by {
        let (a, b) = (s[k], t[k]);
        if 'A' <= a <= 'Z' && b as int == a as int + 32 {
            assert(ascii_lower(a) == b);
        }
        if 'A' <= b <= 'Z' && a as int == b as int + 32 {
            assert(ascii_lower(b) == a);
        }
    }
    assert(normalize(s) =~= normalize(t));
}

/// A normalized name holds no ASCII upper-case letter, no `_` and no space.
pub proof fn lemma_normalize_is_lower(s: Seq<char>)
    ensures
        normalize(s).len() == s.len(),
        forall|k: int|
            0 <= k < s.len() ==> !('A' <= #[trigger] normalize(s)[k] <= 'Z') && normalize(s)[k]
                != '_' && normalize(s)[k] != ' ',
{
}

/// Lower-case one ASCII letter; every other character is returned unchanged.
pub fn to_ascii_lower(c: char) -> (r: char)
    ensures
        r == ascii_lower(c),
        'A' <= c <= 'Z' ==> r as int == c as int + 32,
        !('A' <= c <= 'Z') ==> r == c,
{
    if 'A' <= c && c <= 'Z' {
        ((c as u8) + 32) as char
    } else {
        c
    }
}

/// `String::push` from std: appends one character at the end.
#[verifier::external_body]
fn push_char(s: &mut String, c: char)
    ensures
        final(s)@ == old(s)@.push(c),
{
    s.push(c);
}

/// The characters of `s`, in order.
pub fn chars_of(s: &str) -> (chars: Vec<char>)
    ensures
        chars@ == s@,
{
    let mut chars: Vec<char> = Vec::new();
    for c in iter: s.chars()
        invariant
            chars@ == iter.seq().take(iter.index() as int),
            iter.seq() == s@,
    {
        chars.push(c);
    }
    chars
}

/// The normalized form of `s` (see [`normalize`]).
pub fn normalized(s: &str) -> (n: Vec<char>)
    ensures
        n@ == normalize(s@),
{
    let chars = chars_of(s);
    let mut n: Vec<char> = Vec::new();
    let mut i: usize = 0;
    while i < chars.len()
        invariant
            i <= chars.len(),
            chars@ == s@,
            n@ =~= normalize(s@).take(i as int),
        decreases chars.len() - i,
    {
        let lower = to_ascii_lower(chars[i]);
        let c = if lower == '_' || lower == ' ' {
            '-'
        } else {
            lower
        };
        n.push(c);
        i = i + 1;
        assert(n@ =~= normalize(s@).take(i as int));
    }
    n
}

/// Whether two character sequences are equal.
pub fn chars_equal(a: &Vec<char>, b: &Vec<char>) -> (eq: bool)
    ensures
        eq == (a@ == b@),
{
    if a.len() != b.len() {
        return false;
    }
    let mut i: usize = 0;
    while i < a.len()
        invariant
            i <= a.len() == b.len(),
            a@.take(i as int) == b@.take(i as int),
        decreases a.len() - i,
    {
        if a[i] != b[i] {
            assert(a@[i as int] != b@[i as int]);
            return false;
        }
        i = i + 1;
        assert(a@.take(i as int) =~= b@.take(i as int));
    }
    assert(a@ =~= a@.take(i as int));
    assert(b@ =~= b@.take(i as int));
    true
}

/// Whether the characters of `a` spell out `b`.
pub fn chars_equal_str(a: &Vec<char>, b: &str) -> (eq: bool)
    ensures
        eq == (a@ == b@),
{
    let b_chars = chars_of(b);
    chars_equal(a, &b_chars)
}

/// A string made of `chars[lo..hi]`.
pub fn string_from_chars(chars: &Vec<char>, lo: usize, hi: usize) -> (s: String)
    requires
        lo <= hi <= chars.len(),
    ensures
        s@ == chars@.subrange(lo as int, hi as int),
{
    let mut s = String::new();
    let mut i = lo;
    while i < hi
        invariant
            lo <= i <= hi <= chars.len(),
            s@ =~= chars@.subrange(lo as int, i as int),
        decreases hi - i,
    {
        push_char(&mut s, chars[i]);
        i = i + 1;
        assert(s@ =~= chars@.subrange(lo as int, i as int));
    }
    s
}

/// Append the characters of `extra` to `s`.
pub fn append_chars(s: &mut String, extra: &Vec<char>)
    ensures
        final(s)@ == old(s)@ + extra@,
{
    let mut i: usize = 0;
    while i < extra.len()
        invariant
            i <= extra.len(),
            s@ =~= old(s)@ + extra@.take(i as int),
        decreases extra.len() - i,
    {
        push_char(s, extra[i]);
        i = i + 1;
        assert(s@ =~= old(s)@ + extra@.take(i as int));
    }
    assert(extra@.take(i as int) =~= extra@);
}

/// Append the characters of `extra` to `s`.
pub fn append_str(s: &mut String, extra: &str)
    ensures
        final(s)@ == old(s)@ + extra@,
{
    let chars = chars_of(extra);
    append_chars(s, &chars);
}

} // verus!
