//! Sequences of characters and bytes: prefixes, ASCII case folding, the
//! lexicographic order, and the conversions between `str`, `String` and
//! vectors of characters.

use vstd::prelude::*;
use vstd::std_specs::iter::IteratorSpec;
use vstd::utf8::{decode_utf8, valid_utf8};

verus! {

/// `p` is a prefix of `s`.
pub open spec fn is_prefix<T>(p: Seq<T>, s: Seq<T>) -> bool {
    p.len() <= s.len() && s.subrange(0, p.len() as int) == p
}

/// `c` occurs in `s`.
pub open spec fn has_char(s: Seq<char>, c: char) -> bool {
    exists|i: int| 0 <= i < s.len() && s[i] == c
}

/// An ASCII capital letter becomes the small letter; any other character
/// stays as it is.
pub open spec fn ascii_lower(c: char) -> char {
    if 'A' <= c && c <= 'Z' {
        ((c as u8 + 32) as u8) as char
    } else {
        c
    }
}

/// [`ascii_lower`] applied to every character of `s`.
pub open spec fn ascii_lower_seq(s: Seq<char>) -> Seq<char> {
    Seq::new(s.len(), |i: int| ascii_lower(s[i]))
}

/// From index `i` on, `a` comes before `b` or equals it, character by
/// character, a shorter text before each of its extensions.
pub open spec fn lex_le_from(a: Seq<char>, b: Seq<char>, i: int) -> bool
    decreases a.len() - i,
{
    if i < 0 || i >= a.len() {
        true
    } else if i >= b.len() {
        false
    } else if a[i] != b[i] {
        a[i] < b[i]
    } else {
        lex_le_from(a, b, i + 1)
    }
}

/// The lexicographic order of texts by the code points of their characters.
pub open spec fn lex_le(a: Seq<char>, b: Seq<char>) -> bool {
    lex_le_from(a, b, 0)
}

/// Two texts that agree up to `i` compare one way or the other.
pub proof fn lemma_lex_total_from(a: Seq<char>, b: Seq<char>, i: int)
    requires
        0 <= i,
    ensures
        lex_le_from(a, b, i) || lex_le_from(b, a, i),
    decreases a.len() - i,
{
    if i < a.len() && i < b.len() {
        if a[i] == b[i] {
            lemma_lex_total_from(a, b, i + 1);
        }
    }
}

/// The order is total.
pub proof fn lemma_lex_total(a: Seq<char>, b: Seq<char>)
    ensures
        lex_le(a, b) || lex_le(b, a),
{
    lemma_lex_total_from(a, b, 0);
}

/// Transitivity, for texts that agree up to `i`.
pub proof fn lemma_lex_trans_from(a: Seq<char>, b: Seq<char>, c: Seq<char>, i: int)
    requires
        0 <= i,
        lex_le_from(a, b, i),
        lex_le_from(b, c, i),
    ensures
        lex_le_from(a, c, i),
    decreases a.len() - i,
{
    if i < a.len() && i < b.len() && i < c.len() && a[i] == b[i] && b[i] == c[i] {
        lemma_lex_trans_from(a, b, c, i + 1);
    }
}

/// The order is transitive.
pub proof fn lemma_lex_trans(a: Seq<char>, b: Seq<char>, c: Seq<char>)
    requires
        lex_le(a, b),
        lex_le(b, c),
    ensures
        lex_le(a, c),
{
    lemma_lex_trans_from(a, b, c, 0);
}

/// Every text compares at most itself.
pub proof fn lemma_lex_refl_from(a: Seq<char>, i: int)
    requires
        0 <= i,
    ensures
        lex_le_from(a, a, i),
    decreases a.len() - i,
{
    if i < a.len() {
        lemma_lex_refl_from(a, i + 1);
    }
}

/// The characters of `s`, in order.
pub fn chars_of(s: &str) -> (v: Vec<char>)
    ensures
        v@ == s@,
{
    let mut v: Vec<char> = Vec::new();
    let mut it = s.chars();
    loop
        invariant
            it.obeys_prophetic_iter_laws(),
            it.decrease() is Some,
            v@ + it.remaining() == s@,
        ensures
            v@ == s@,
        decreases it.decrease()->0,
    {
        match it.next() {
            Some(c) => {
                v.push(c);
            },
            None => {
                assert(v@ =~= s@);
                break ;
            },
        }
    }
    v
}

/// `String::push` of std appends one character to the text.
pub assume_specification[ std::string::String::push ](s: &mut std::string::String, c: char)
    ensures
        final(s)@ == old(s)@.push(c),
;

/// Appends the characters `v[from..to]` to `s`.
pub fn push_chars(s: &mut String, v: &Vec<char>, from: usize, to: usize)
    requires
        from <= to <= v.len(),
    ensures
        final(s)@ == old(s)@ + v@.subrange(from as int, to as int),
{
    let mut i: usize = from;
    while i < to
        invariant
            from <= i <= to <= v.len(),
            s@ == old(s)@ + v@.subrange(from as int, i as int),
        decreases to - i,
    {
        s.push(v[i]);
        i += 1;
        assert(s@ =~= old(s)@ + v@.subrange(from as int, i as int));
    }
}

/// The text made of the characters `v[from..to]`.
pub fn text_of(v: &Vec<char>, from: usize, to: usize) -> (s: String)
    requires
        from <= to <= v.len(),
    ensures
        s@ == v@.subrange(from as int, to as int),
{
    let mut s = String::new();
    push_chars(&mut s, v, from, to);
    assert(s@ =~= v@.subrange(from as int, to as int));
    s
}

/// The small letter of an ASCII capital, any other character unchanged.
pub fn to_ascii_lower(c: char) -> (r: char)
    ensures
        r == ascii_lower(c),
{
    if 'A' <= c && c <= 'Z' {
        ((c as u8 + 32) as u8) as char
    } else {
        c
    }
}

/// Whether `c` occurs in `v`.
pub fn contains_char(v: &Vec<char>, c: char) -> (r: bool)
    ensures
        r == has_char(v@, c),
{
    let mut i: usize = 0;
    while i < v.len()
        invariant
            i <= v.len(),
            forall|j: int| 0 <= j < i ==> v@[j] != c,
        decreases v.len() - i,
    {
        if v[i] == c {
            return true;
        }
        i += 1;
    }
    false
}

/// Whether the bytes `p` open the bytes `s`.
pub fn starts_with_bytes(s: &[u8], p: &[u8]) -> (r: bool)
    ensures
        r == is_prefix(p@, s@),
{
    if p.len() > s.len() {
        return false;
    }
    let mut i: usize = 0;
    while i < p.len()
        invariant
            i <= p.len() <= s.len(),
            forall|j: int| 0 <= j < i ==> s@[j] == p@[j],
        decreases p.len() - i,
    {
        if s[i] != p[i] {
            assert(s@.subrange(0, p.len() as int)[i as int] != p@[i as int]);
            return false;
        }
        i += 1;
    }
    assert(s@.subrange(0, p.len() as int) =~= p@);
    true
}

/// Whether the characters `p` open the characters `s`.
pub fn starts_with_chars(s: &Vec<char>, p: &Vec<char>) -> (r: bool)
    ensures
        r == is_prefix(p@, s@),
{
    if p.len() > s.len() {
        return false;
    }
    let mut i: usize = 0;
    while i < p.len()
        invariant
            i <= p.len() <= s.len(),
            forall|j: int| 0 <= j < i ==> s@[j] == p@[j],
        decreases p.len() - i,
    {
        if s[i] != p[i] {
            assert(s@.subrange(0, p.len() as int)[i as int] != p@[i as int]);
            return false;
        }
        i += 1;
    }
    assert(s@.subrange(0, p.len() as int) =~= p@);
    true
}

/// What `String::from_utf8_lossy` of std makes of a sequence of bytes: the
/// text that the bytes encode, with U+FFFD in place of each part that is not
/// UTF-8.
pub uninterp spec fn utf8_lossy(bytes: Seq<u8>) -> Seq<char>;

/// Calls `String::from_utf8_lossy`. The result is a function of the bytes
/// alone; where the bytes are UTF-8 it is the text that they encode.
#[verifier::external_body]
pub(crate) fn lossy_text(bytes: &[u8]) -> (s: String)
    ensures
        s@ == utf8_lossy(bytes@),
        valid_utf8(bytes@) ==> s@ == decode_utf8(bytes@),
{
    String::from_utf8_lossy(bytes).into_owned()
}

/// The texts of a list of strings.
pub open spec fn texts(v: Seq<String>) -> Seq<Seq<char>> {
    v.map_values(|s: String| s@)
}

/// Whether one of the strings of `v` reads `t`.
pub fn contains_text(v: &Vec<String>, t: &String) -> (r: bool)
    ensures
        r == texts(v@).contains(t@),
{
    let mut i: usize = 0;
    while i < v.len()
        invariant
            i <= v.len(),
            forall|j: int| 0 <= j < i ==> texts(v@)[j] != t@,
        decreases v.len() - i,
    {
        if v[i] == *t {
            assert(texts(v@)[i as int] == t@);
            return true;
        }
        i += 1;
    }
    false
}

/// Whether `a` comes before `b`, or equals it, in the lexicographic order.
pub fn lex_le_chars(a: &Vec<char>, b: &Vec<char>) -> (r: bool)
    ensures
        r == lex_le(a@, b@),
{
    let mut i: usize = 0;
    while i < a.len()
        invariant
            i <= a.len(),
            lex_le(a@, b@) == lex_le_from(a@, b@, i as int),
        decreases a.len() - i,
    {
        if i >= b.len() {
            return false;
        }
        if a[i] != b[i] {
            return a[i] < b[i];
        }
        i += 1;
    }
    true
}

} // verus!
