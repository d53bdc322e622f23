//! The order in which candidates are returned: by replacement text, and
//! among equal texts as they came.

use vstd::prelude::*;
use crate::candidate::{shown, shown_one, Span};
use crate::text::{chars_of, lemma_lex_refl_from, lemma_lex_total, lemma_lex_trans, lex_le, lex_le_chars};

verus! {

/// A candidate as contracts see it.
pub type Shown = (Span, Seq<char>);

/// Each candidate's text comes before, or equals, the text of every
/// candidate after it.
pub open spec fn is_sorted(s: Seq<Shown>) -> bool {
    forall|i: int, j: int| 0 <= i < j < s.len() ==> lex_le(#[trigger] s[i].1, #[trigger] s[j].1)
}

/// The sorted list `s` with `c` put behind the last candidate whose text
/// comes before the text of `c` or equals it.
pub open spec fn insert_sorted(s: Seq<Shown>, c: Shown) -> Seq<Shown>
    decreases s.len(),
{
    if s.len() == 0 || lex_le(s.last().1, c.1) {
        s.push(c)
    } else {
        insert_sorted(s.drop_last(), c).push(s.last())
    }
}

/// The candidates of `s` in ascending order of their texts, candidates with
/// the same text in the order they have in `s`.
pub open spec fn sorted_by_text(s: Seq<Shown>) -> Seq<Shown>
    decreases s.len(),
{
    if s.len() == 0 {
        Seq::empty()
    } else {
        insert_sorted(sorted_by_text(s.drop_last()), s.last())
    }
}

/// The candidates of `s` whose text is `t`, in their order.
pub open spec fn with_text(s: Seq<Shown>, t: Seq<char>) -> Seq<Shown> {
    s.filter(|c: Shown| c.1 == t)
}

/// Where every candidate from `p` on comes after `c`, and the one before
/// `p` does not, `c` is put at `p`.
pub proof fn lemma_insert_at(s: Seq<Shown>, c: Shown, p: int)
    requires
        0 <= p <= s.len(),
        p > 0 ==> lex_le(s[p - 1].1, c.1),
        forall|j: int| p <= j < s.len() ==> !lex_le(#[trigger] s[j].1, c.1),
    ensures
        insert_sorted(s, c) == s.insert(p, c),
    decreases s.len(),
{
    if s.len() == 0 || p == s.len() {
        assert(s.push(c) =~= s.insert(p, c));
    } else {
        lemma_insert_at(s.drop_last(), c, p);
        assert(s.drop_last().insert(p, c).push(s.last()) =~= s.insert(p, c));
    }
}

/// Putting a candidate into a sorted list keeps the list sorted, adds one
/// candidate, and changes nothing else.
pub proof fn lemma_insert_sorted(s: Seq<Shown>, c: Shown)
    requires
        is_sorted(s),
    ensures
        is_sorted(insert_sorted(s, c)),
        insert_sorted(s, c).len() == s.len() + 1,
        insert_sorted(s, c).to_multiset() == s.to_multiset().insert(c),
    decreases s.len(),
{
    broadcast use vstd::seq_lib::group_to_multiset_ensures;

    let out = insert_sorted(s, c);
    if s.len() == 0 || lex_le(s.last().1, c.1) {
        assert forall|i: int, j: int| 0 <= i < j < out.len() implies lex_le(
            #[trigger] out[i].1,
            #[trigger] out[j].1,
        ) by {
            if j == s.len() && i < s.len() - 1 {
                lemma_lex_trans(s[i].1, s.last().1, c.1);
            }
        }
    } else {
        let front = s.drop_last();
        let mid = insert_sorted(front, c);
        assert forall|i: int, j: int| 0 <= i < j < front.len() implies lex_le(
            #[trigger] front[i].1,
            #[trigger] front[j].1,
        ) by {
            assert(front[i] == s[i] && front[j] == s[j]);
        }
        lemma_insert_sorted(front, c);
        lemma_lex_total(s.last().1, c.1);
        assert forall|i: int| 0 <= i < mid.len() implies lex_le(#[trigger] mid[i].1, s.last().1) by {
            assert(mid.to_multiset().count(mid[i]) > 0);
            if mid[i] != c {
                assert(front.to_multiset().count(mid[i]) > 0);
                let k = choose|k: int| 0 <= k < front.len() && front[k] == mid[i];
                assert(s[k] == mid[i]);
            }
        }
        assert forall|i: int, j: int| 0 <= i < j < out.len() implies lex_le(
            #[trigger] out[i].1,
            #[trigger] out[j].1,
        ) by {
            if j < mid.len() {
                assert(out[i] == mid[i] && out[j] == mid[j]);
            } else {
                assert(out[i] == mid[i]);
            }
        }
        assert(s =~= front.push(s.last()));
    }
}

/// Putting `c` into a list adds it behind the candidates with the same text,
/// and leaves the candidates with any other text as they were.
pub proof fn lemma_insert_keeps_order(s: Seq<Shown>, c: Shown, t: Seq<char>)
    ensures
        with_text(insert_sorted(s, c), t) == if c.1 == t {
            with_text(s, t).push(c)
        } else {
            with_text(s, t)
        },
    decreases s.len(),
{
    reveal(Seq::filter);
    let pred = |c: Shown| c.1 == t;
    if s.len() == 0 || lex_le(s.last().1, c.1) {
        assert(s.push(c).drop_last() =~= s);
        assert(s.push(c).last() == c);
        assert(s.push(c).filter(pred) == if pred(c) {
            s.filter(pred).push(c)
        } else {
            s.filter(pred)
        });
    } else {
        let front = s.drop_last();
        let mid = insert_sorted(front, c);
        lemma_insert_keeps_order(front, c, t);
        assert(mid.push(s.last()).drop_last() =~= mid);
        assert(mid.push(s.last()).last() == s.last());
        assert(mid.push(s.last()).filter(pred) == if pred(s.last()) {
            mid.filter(pred).push(s.last())
        } else {
            mid.filter(pred)
        });
        assert(s.filter(pred) == if pred(s.last()) {
            front.filter(pred).push(s.last())
        } else {
            front.filter(pred)
        });
        if c.1 == t {
            lemma_lex_refl_from(c.1, 0);
            assert(s.last().1 != t);
        }
    }
}

/// Ordering: the sorted list is in ascending order of the texts; it holds
/// the same candidates as the list given, each as often; and candidates with
/// the same text keep the order they had.
pub proof fn lemma_sorted_by_text(s: Seq<Shown>)
    ensures
        is_sorted(sorted_by_text(s)),
        sorted_by_text(s).len() == s.len(),
        sorted_by_text(s).to_multiset() == s.to_multiset(),
        forall|t: Seq<char>| #[trigger] with_text(sorted_by_text(s), t) == with_text(s, t),
    decreases s.len(),
{
    broadcast use vstd::seq_lib::group_to_multiset_ensures;

    reveal(Seq::filter);
    if s.len() > 0 {
        let front = s.drop_last();
        lemma_sorted_by_text(front);
        lemma_insert_sorted(sorted_by_text(front), s.last());
        assert(s =~= front.push(s.last()));
        assert forall|t: Seq<char>| #[trigger]
            with_text(sorted_by_text(s), t) == with_text(s, t) by {
            lemma_insert_keeps_order(sorted_by_text(front), s.last(), t);
            assert(with_text(sorted_by_text(front), t) == with_text(front, t));
        }
    }
}

/// The candidates of `items` in ascending lexicographic order of their
/// replacement texts. The sort is stable: candidates with the same text
/// stay in the order in which they were given.
pub fn sort_by_text(items: Vec<(Span, String)>) -> (out: Vec<(Span, String)>)
    ensures
        shown(out@) == sorted_by_text(shown(items@)),
{
    let mut out: Vec<(Span, String)> = Vec::new();
    let mut keys: Vec<Vec<char>> = Vec::new();
    assert(shown(items@).subrange(0, 0) =~= Seq::empty());
    assert(shown(out@) =~= Seq::empty());
    let mut i: usize = 0;
    while i < items.len()
        invariant
            i <= items.len(),
            keys@.len() == out@.len(),
            forall|k: int| 0 <= k < out@.len() ==> (#[trigger] keys@[k])@ == out@[k].1@,
            shown(out@) == sorted_by_text(shown(items@).subrange(0, i as int)),
        decreases items.len() - i,
    {
        let key = chars_of(items[i].1.as_str());
        let ghost c = shown_one(items@[i as int]);
        let ghost s = shown(out@);
        assert(shown(items@).subrange(0, i + 1).drop_last() =~= shown(items@).subrange(0, i as int));
        assert(shown(items@).subrange(0, i + 1).last() == c);
        let mut p: usize = out.len();
        while p > 0 && !lex_le_chars(&keys[p - 1], &key)
            invariant
                p <= out@.len(),
                keys@.len() == out@.len(),
                key@ == c.1,
                s == shown(out@),
                forall|k: int| 0 <= k < out@.len() ==> (#[trigger] keys@[k])@ == out@[k].1@,
                forall|j: int| p <= j < s.len() ==> !lex_le(#[trigger] s[j].1, c.1),
            decreases p,
        {
            p -= 1;
        }
        proof {
            lemma_insert_at(s, c, p as int);
        }
        let item = (items[i].0, items[i].1.clone());
        out.insert(p, item);
        keys.insert(p, key);
        assert(shown(out@) =~= s.insert(p as int, c));
        i += 1;
    }
    assert(shown(items@).subrange(0, items.len() as int) =~= shown(items@));
    out
}

} // verus!
