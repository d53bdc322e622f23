//! The test that decides whether a directory entry completes a typed name.

use vstd::prelude::*;
use crate::text::{ascii_lower, ascii_lower_seq, chars_of, is_prefix, to_ascii_lower};

verus! {

/// `partial` is a prefix of `from` once the ASCII capitals of both are made
/// small letters.
pub open spec fn matches_spec(partial: Seq<char>, from: Seq<char>) -> bool {
    is_prefix(ascii_lower_seq(partial), ascii_lower_seq(from))
}

/// [`matches`] on characters already taken out of the two texts.
pub fn matches_chars(partial: &Vec<char>, from: &Vec<char>) -> (r: bool)
    ensures
        r == matches_spec(partial@, from@),
{
    if partial.len() > from.len() {
        return false;
    }
    let ghost lp = ascii_lower_seq(partial@);
    let ghost lf = ascii_lower_seq(from@);
    let mut i: usize = 0;
    while i < partial.len()
        invariant
            i <= partial.len() <= from.len(),
            lp == ascii_lower_seq(partial@),
            lf == ascii_lower_seq(from@),
            forall|j: int| 0 <= j < i ==> lp[j] == lf[j],
        decreases partial.len() - i,
    {
        if to_ascii_lower(partial[i]) != to_ascii_lower(from[i]) {
            assert(lf.subrange(0, lp.len() as int)[i as int] != lp[i as int]);
            return false;
        }
        i += 1;
    }
    assert(lf.subrange(0, lp.len() as int) =~= lp);
    true
}

/// Whether the entry name `from` completes the typed name `partial`: a prefix
/// test that takes no account of the case of ASCII letters.
pub fn matches(partial: &str, from: &str) -> (r: bool)
    ensures
        r == matches_spec(partial@, from@),
{
    let p = chars_of(partial);
    let f = chars_of(from);
    matches_chars(&p, &f)
}

/// The test takes no account of case: folding either side changes nothing.
pub proof fn lemma_matches_ignores_case(partial: Seq<char>, from: Seq<char>)
    ensures
        matches_spec(partial, from) == matches_spec(ascii_lower_seq(partial), from),
        matches_spec(partial, from) == matches_spec(partial, ascii_lower_seq(from)),
{
    assert forall|c: char| ascii_lower(ascii_lower(c)) == #[trigger] ascii_lower(c) by {}
    assert(ascii_lower_seq(ascii_lower_seq(partial)) =~= ascii_lower_seq(partial));
    assert(ascii_lower_seq(ascii_lower_seq(from)) =~= ascii_lower_seq(from));
}

} // verus!
