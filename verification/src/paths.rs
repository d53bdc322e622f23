//! Completion of file system paths: a typed partial path is split into a base
//! directory and a name, and the entries of that directory whose names
//! complete the name become candidates.

use vstd::prelude::*;
use crate::candidate::{lemma_shown_push, shown, Span};
use crate::matcher::{matches_chars, matches_spec};
use crate::text::{chars_of, contains_char, has_char, push_chars, text_of};

verus! {

/// Which characters separate the components of a path, and which of them the
/// platform writes.
#[derive(Clone, Copy, Debug, PartialEq, Eq, Structural)]
pub enum PathStyle {
    /// `/` separates.
    Unix,
    /// `\` and `/` separate; `\` is written.
    Windows,
}

impl PathStyle {
    /// The separator that the platform writes.
    pub open spec fn spec_separator(self) -> char {
        match self {
            PathStyle::Unix => '/',
            PathStyle::Windows => '\\',
        }
    }

    /// Whether `c` separates path components.
    pub open spec fn spec_is_separator(self, c: char) -> bool {
        match self {
            PathStyle::Unix => c == '/',
            PathStyle::Windows => c == '/' || c == '\\',
        }
    }

    /// The style of the platform whose written separator is `main`.
    pub open spec fn spec_of_separator(main: char) -> PathStyle {
        if main == '\\' {
            PathStyle::Windows
        } else {
            PathStyle::Unix
        }
    }

    #[verifier::when_used_as_spec(spec_separator)]
    pub fn separator(self) -> (c: char)
        ensures
            c == self.spec_separator(),
            self.spec_is_separator(c),
            c != ' ',
            c != '"',
    {
        match self {
            PathStyle::Unix => '/',
            PathStyle::Windows => '\\',
        }
    }

    #[verifier::when_used_as_spec(spec_is_separator)]
    pub fn is_separator(self, c: char) -> (r: bool)
        ensures
            r == self.spec_is_separator(c),
    {
        match self {
            PathStyle::Unix => c == '/',
            PathStyle::Windows => c == '/' || c == '\\',
        }
    }

    #[verifier::when_used_as_spec(spec_of_separator)]
    pub fn of_separator(main: char) -> (s: PathStyle)
        ensures
            s == Self::spec_of_separator(main),
    {
        if main == '\\' {
            PathStyle::Windows
        } else {
            PathStyle::Unix
        }
    }
}

/// One entry of a directory: its name, and whether it is a directory itself.
#[derive(Clone, Debug)]
pub struct DirEntry {
    pub name: String,
    pub is_dir: bool,
}

impl DirEntry {
    /// A name as a directory listing gives it: not empty, and without a
    /// separator.
    pub open spec fn wf(self, style: PathStyle) -> bool {
        self.name@.len() > 0 && forall|i: int|
            0 <= i < self.name@.len() ==> !style.spec_is_separator(#[trigger] self.name@[i])
    }
}

/// What is known of the directory that a partial path points into.
#[derive(Clone, Debug)]
pub enum BaseDir {
    /// The base resolved to the empty path: no directory was looked at.
    Empty,
    /// The directory could not be read.
    Unreadable,
    /// The directory's immediate entries, in the order of the listing.
    Listed(Vec<DirEntry>),
}

/// A partial path, split.
#[derive(Clone, Debug)]
pub struct PathQuery {
    /// The directory part as typed, separators made uniform, with one
    /// separator at its end; `.` and a separator where none was typed.
    pub base: String,
    /// What was typed of the entry's name.
    pub name: String,
}

/// `s` without one double quote at its start, and then without one at its end.
pub open spec fn strip_quotes(s: Seq<char>) -> Seq<char> {
    let a = if s.len() > 0 && s[0] == '"' {
        s.subrange(1, s.len() as int)
    } else {
        s
    };
    if a.len() > 0 && a.last() == '"' {
        a.subrange(0, a.len() - 1)
    } else {
        a
    }
}

/// The index of the last separator in `s`, or -1 where it holds none.
pub open spec fn last_separator(s: Seq<char>, style: PathStyle) -> int
    decreases s.len(),
{
    if s.len() == 0 {
        -1
    } else if style.spec_is_separator(s.last()) {
        s.len() - 1
    } else {
        last_separator(s.drop_last(), style)
    }
}

/// `s` with each separator replaced by the one that the platform writes.
pub open spec fn normalized(s: Seq<char>, style: PathStyle) -> Seq<char> {
    Seq::new(
        s.len(),
        |i: int|
            if style.spec_is_separator(s[i]) {
                style.spec_separator()
            } else {
                s[i]
            },
    )
}

/// The directory part of the unquoted partial path `s`.
pub open spec fn base_portion(s: Seq<char>, style: PathStyle) -> Seq<char> {
    let k = last_separator(s, style);
    if k < 0 {
        seq!['.', style.spec_separator()]
    } else {
        normalized(s.subrange(0, k), style).push(style.spec_separator())
    }
}

/// The name part of the unquoted partial path `s`.
pub open spec fn name_portion(s: Seq<char>, style: PathStyle) -> Seq<char> {
    let k = last_separator(s, style);
    if k < 0 {
        s
    } else {
        s.subrange(k + 1, s.len() as int)
    }
}

/// The path of an entry below `base`, before any quoting: a directory gets
/// one separator at its end.
pub open spec fn entry_path(base: Seq<char>, name: Seq<char>, is_dir: bool, style: PathStyle) -> Seq<
    char,
> {
    if is_dir {
        (base + name).push(style.spec_separator())
    } else {
        base + name
    }
}

/// `p` between two double quotes.
pub open spec fn quoted(p: Seq<char>) -> Seq<char> {
    seq!['"'] + p + seq!['"']
}

/// `p`, between double quotes where it holds a space.
pub open spec fn quoted_if_spaced(p: Seq<char>) -> Seq<char> {
    if has_char(p, ' ') {
        quoted(p)
    } else {
        p
    }
}

/// The replacement text for an entry below `base`.
pub open spec fn replacement(base: Seq<char>, name: Seq<char>, is_dir: bool, style: PathStyle) -> Seq<
    char,
> {
    quoted_if_spaced(entry_path(base, name, is_dir, style))
}

/// The candidates that the entries give for the name `part` below `base`:
/// one for each entry whose name completes `part`, in the order of the
/// entries, each with the span `span`.
pub open spec fn path_candidates(
    span: Span,
    base: Seq<char>,
    part: Seq<char>,
    entries: Seq<DirEntry>,
    style: PathStyle,
) -> Seq<(Span, Seq<char>)>
    decreases entries.len(),
{
    if entries.len() == 0 {
        Seq::empty()
    } else {
        let rest = path_candidates(span, base, part, entries.drop_last(), style);
        let e = entries.last();
        if matches_spec(part, e.name@) {
            rest.push((span, replacement(base, e.name@, e.is_dir, style)))
        } else {
            rest
        }
    }
}

/// The candidates for the partial path `partial`, given what is known of the
/// directory it points into.
pub open spec fn file_path_candidates(
    span: Span,
    partial: Seq<char>,
    base_dir: BaseDir,
    style: PathStyle,
) -> Seq<(Span, Seq<char>)> {
    match base_dir {
        BaseDir::Listed(entries) => path_candidates(
            span,
            base_portion(strip_quotes(partial), style),
            name_portion(strip_quotes(partial), style),
            entries@,
            style,
        ),
        _ => Seq::empty(),
    }
}

/// Where `s[k]` is a separator and none follows it, `k` is the last one.
pub proof fn lemma_last_separator_at(s: Seq<char>, style: PathStyle, k: int)
    requires
        0 <= k < s.len(),
        style.spec_is_separator(s[k]),
        forall|j: int| k < j < s.len() ==> !style.spec_is_separator(s[j]),
    ensures
        last_separator(s, style) == k,
    decreases s.len(),
{
    if k < s.len() - 1 {
        lemma_last_separator_at(s.drop_last(), style, k);
    }
}

/// Where `s` holds no separator, there is no last one.
pub proof fn lemma_last_separator_none(s: Seq<char>, style: PathStyle)
    requires
        forall|j: int| 0 <= j < s.len() ==> !style.spec_is_separator(s[j]),
    ensures
        last_separator(s, style) == -1,
    decreases s.len(),
{
    if s.len() > 0 {
        lemma_last_separator_none(s.drop_last(), style);
    }
}

/// The entries whose names complete the typed name `part`, in their order.
pub open spec fn completing_entries(part: Seq<char>, entries: Seq<DirEntry>) -> Seq<DirEntry> {
    entries.filter(|e: DirEntry| matches_spec(part, e.name@))
}

/// Prefix correctness: the candidates are the replacements for the entries
/// whose names complete the typed name, one for one and in the same order;
/// so an entry of the listing gives a candidate if and only if its name,
/// ASCII capitals made small, starts with the typed name made small likewise.
pub proof fn lemma_prefix_correctness(
    span: Span,
    base: Seq<char>,
    part: Seq<char>,
    entries: Seq<DirEntry>,
    style: PathStyle,
)
    ensures
        path_candidates(span, base, part, entries, style) == completing_entries(
            part,
            entries,
        ).map_values(|e: DirEntry| (span, replacement(base, e.name@, e.is_dir, style))),
        forall|e: DirEntry| #[trigger]
            entries.contains(e) ==> (completing_entries(part, entries).contains(e) <==> matches_spec(
                part,
                e.name@,
            )),
        forall|e: DirEntry| #[trigger]
            completing_entries(part, entries).contains(e) ==> entries.contains(e),
    decreases entries.len(),
{
    reveal(Seq::filter);
    let pred = |e: DirEntry| matches_spec(part, e.name@);
    let make = |e: DirEntry| (span, replacement(base, e.name@, e.is_dir, style));
    if entries.len() > 0 {
        let front = entries.drop_last();
        lemma_prefix_correctness(span, base, part, front, style);
        if pred(entries.last()) {
            assert(front.filter(pred).push(entries.last()).map_values(make) =~= front.filter(
                pred,
            ).map_values(make).push(make(entries.last())));
        }
    } else {
        assert(path_candidates(span, base, part, entries, style) =~= entries.filter(
            pred,
        ).map_values(make));
    }
    assert forall|e: DirEntry| #[trigger] entries.contains(e) implies (completing_entries(
        part,
        entries,
    ).contains(e) <==> matches_spec(part, e.name@)) by {
        if matches_spec(part, e.name@) {
            let i = choose|i: int| 0 <= i < entries.len() && entries[i] == e;
            entries.lemma_filter_contains(pred, i);
        }
        if entries.filter(pred).contains(e) {
            let k = choose|k: int| 0 <= k < entries.filter(pred).len() && entries.filter(pred)[k] == e;
            entries.lemma_filter_pred(pred, k);
        }
    }
    assert forall|e: DirEntry| #[trigger]
        completing_entries(part, entries).contains(e) implies entries.contains(e) by {
        entries.lemma_filter_contains_rev(pred, e);
    }
}

/// Quoting: a replacement whose path holds a space is that path between one
/// pair of double quotes; a replacement whose path holds none is the path
/// itself.
pub proof fn lemma_quoting(base: Seq<char>, name: Seq<char>, is_dir: bool, style: PathStyle)
    ensures
        ({
            let p = entry_path(base, name, is_dir, style);
            let r = replacement(base, name, is_dir, style);
            &&& has_char(p, ' ') ==> r.len() == p.len() + 2 && r[0] == '"' && r.last() == '"'
                && r.subrange(1, r.len() - 1) == p
            &&& !has_char(p, ' ') ==> r == p
        }),
{
    let p = entry_path(base, name, is_dir, style);
    let r = replacement(base, name, is_dir, style);
    if has_char(p, ' ') {
        assert(r.subrange(1, r.len() - 1) =~= p);
    }
}

/// Directory marker: the path of a directory entry ends with the platform's
/// separator, and with one only: the character before it is no separator.
/// Where the path holds no space, it is the replacement itself.
pub proof fn lemma_directory_marker(base: Seq<char>, entry: DirEntry, style: PathStyle)
    requires
        entry.wf(style),
        entry.is_dir,
    ensures
        ({
            let p = entry_path(base, entry.name@, true, style);
            &&& p.len() >= 2
            &&& p.last() == style.spec_separator()
            &&& !style.spec_is_separator(p[p.len() - 2])
            &&& !has_char(p, ' ') ==> replacement(base, entry.name@, true, style) == p
            &&& has_char(p, ' ') ==> replacement(base, entry.name@, true, style) == quoted(p)
        }),
{
    let p = entry_path(base, entry.name@, true, style);
    assert(p[p.len() - 2] == entry.name@[entry.name@.len() - 1]);
}

/// Empty-base safety: where the base resolved to the empty path, or the
/// directory could not be read, there is no candidate.
pub proof fn lemma_no_listing_no_candidate(
    span: Span,
    partial: Seq<char>,
    base_dir: BaseDir,
    style: PathStyle,
)
    requires
        !(base_dir is Listed),
    ensures
        file_path_candidates(span, partial, base_dir, style).len() == 0,
{
}

/// The index of the last separator among `chars[lo..hi]`, counted from `lo`.
fn find_last_separator(chars: &Vec<char>, lo: usize, hi: usize, style: PathStyle) -> (r: Option<
    usize,
>)
    requires
        lo <= hi <= chars.len(),
    ensures
        match r {
            Some(k) => lo <= k < hi && last_separator(
                chars@.subrange(lo as int, hi as int),
                style,
            ) == k - lo,
            None => last_separator(chars@.subrange(lo as int, hi as int), style) == -1,
        },
{
    let ghost s = chars@.subrange(lo as int, hi as int);
    let mut k: usize = hi;
    while k > lo
        invariant
            lo <= k <= hi <= chars.len(),
            s == chars@.subrange(lo as int, hi as int),
            forall|j: int| k - lo <= j < s.len() ==> !style.spec_is_separator(s[j]),
        decreases k,
    {
        if style.is_separator(chars[k - 1]) {
            proof {
                lemma_last_separator_at(s, style, k - 1 - lo);
            }
            return Some(k - 1);
        }
        k -= 1;
    }
    proof {
        lemma_last_separator_none(s, style);
    }
    None
}

/// The text of `chars[lo..hi]` with each separator written as the platform
/// writes it.
fn normalized_text(chars: &Vec<char>, lo: usize, hi: usize, style: PathStyle) -> (r: String)
    requires
        lo <= hi <= chars.len(),
    ensures
        r@ == normalized(chars@.subrange(lo as int, hi as int), style),
{
    let ghost want = normalized(chars@.subrange(lo as int, hi as int), style);
    let sep = style.separator();
    let mut r = String::new();
    let mut i: usize = lo;
    while i < hi
        invariant
            lo <= i <= hi <= chars.len(),
            sep == style.spec_separator(),
            want == normalized(chars@.subrange(lo as int, hi as int), style),
            r@ == want.subrange(0, i - lo),
        decreases hi - i,
    {
        let c = chars[i];
        if style.is_separator(c) {
            r.push(sep);
        } else {
            r.push(c);
        }
        i += 1;
        assert(r@ =~= want.subrange(0, i - lo));
    }
    assert(r@ =~= want);
    r
}

/// Splits a typed partial path into its directory part and its name part.
pub fn split_partial(partial: &str, style: PathStyle) -> (q: PathQuery)
    ensures
        q.base@ == base_portion(strip_quotes(partial@), style),
        q.name@ == name_portion(strip_quotes(partial@), style),
{
    let chars = chars_of(partial);
    let n = chars.len();
    let lo: usize = if n > 0 && chars[0] == '"' {
        1
    } else {
        0
    };
    let hi: usize = if n > lo && chars[n - 1] == '"' {
        n - 1
    } else {
        n
    };
    let ghost s = strip_quotes(partial@);
    assert(s =~= chars@.subrange(lo as int, hi as int));
    match find_last_separator(&chars, lo, hi, style) {
        None => {
            let mut base = String::new();
            base.push('.');
            base.push(style.separator());
            assert(base@ =~= seq!['.', style.spec_separator()]);
            let name = text_of(&chars, lo, hi);
            PathQuery { base, name }
        },
        Some(k) => {
            let mut base = normalized_text(&chars, lo, k, style);
            assert(chars@.subrange(lo as int, k as int) =~= s.subrange(0, k - lo));
            base.push(style.separator());
            let name = text_of(&chars, k + 1, hi);
            assert(name@ =~= s.subrange(k - lo + 1, s.len() as int));
            PathQuery { base, name }
        },
    }
}

/// The replacement text for the entry `name` below `base`.
pub fn entry_replacement(base: &Vec<char>, name: &Vec<char>, is_dir: bool, style: PathStyle) -> (r:
    String)
    ensures
        r@ == replacement(base@, name@, is_dir, style),
{
    let mut path: Vec<char> = Vec::new();
    let mut i: usize = 0;
    while i < base.len()
        invariant
            i <= base.len(),
            path@ == base@.subrange(0, i as int),
        decreases base.len() - i,
    {
        path.push(base[i]);
        i += 1;
        assert(path@ =~= base@.subrange(0, i as int));
    }
    assert(path@ =~= base@);
    let mut j: usize = 0;
    while j < name.len()
        invariant
            j <= name.len(),
            path@ == base@ + name@.subrange(0, j as int),
        decreases name.len() - j,
    {
        path.push(name[j]);
        j += 1;
        assert(path@ =~= base@ + name@.subrange(0, j as int));
    }
    assert(path@ =~= base@ + name@);
    if is_dir {
        path.push(style.separator());
    }
    assert(path@ == entry_path(base@, name@, is_dir, style));
    let mut r = String::new();
    if contains_char(&path, ' ') {
        r.push('"');
        push_chars(&mut r, &path, 0, path.len());
        r.push('"');
        assert(r@ =~= quoted(path@));
    } else {
        push_chars(&mut r, &path, 0, path.len());
        assert(r@ =~= path@);
    }
    r
}

/// The file system candidates for the token `partial` at `span`: the entries
/// of the base directory whose names complete the typed name, each as the
/// typed directory part followed by the entry's name. Nothing where the base
/// resolved to the empty path or could not be read.
pub fn file_path_completion(span: Span, partial: &str, base_dir: &BaseDir, style: PathStyle) -> (out:
    Vec<(Span, String)>)
    ensures
        shown(out@) == file_path_candidates(span, partial@, *base_dir, style),
        forall|i: int| 0 <= i < out@.len() ==> (#[trigger] out@[i]).0 == span,
{
    let mut out: Vec<(Span, String)> = Vec::new();
    assert(shown(out@) =~= Seq::empty());
    match base_dir {
        BaseDir::Listed(entries) => {
            let q = split_partial(partial, style);
            let base = chars_of(q.base.as_str());
            let part = chars_of(q.name.as_str());
            let mut i: usize = 0;
            assert(entries@.subrange(0, 0) =~= Seq::empty());
            while i < entries.len()
                invariant
                    i <= entries.len(),
                    shown(out@) == path_candidates(
                        span,
                        base@,
                        part@,
                        entries@.subrange(0, i as int),
                        style,
                    ),
                    forall|j: int| 0 <= j < out@.len() ==> (#[trigger] out@[j]).0 == span,
                decreases entries.len() - i,
            {
                let name = chars_of(entries[i].name.as_str());
                assert(entries@.subrange(0, i + 1).drop_last() =~= entries@.subrange(0, i as int));
                if matches_chars(&part, &name) {
                    let text = entry_replacement(&base, &name, entries[i].is_dir, style);
                    proof {
                        lemma_shown_push(out@, (span, text));
                    }
                    out.push((span, text));
                }
                i += 1;
            }
            assert(entries@.subrange(0, entries.len() as int) =~= entries@);
        },
        _ => {},
    }
    out
}

} // verus!
