//! The scan of the search path for executable files whose names start with a
//! typed prefix.

use vstd::prelude::*;
use crate::text::{chars_of, contains_text, is_prefix, starts_with_chars, texts};

verus! {

/// One entry of a directory of the search path.
#[derive(Clone, Debug)]
pub struct PathEntry {
    /// The file's name, with U+FFFD for what is not Unicode in it.
    pub name: String,
    /// Whether `name` is the file's name exactly.
    pub is_unicode: bool,
    /// Whether the platform marks the file as executable.
    pub is_executable: bool,
}

/// Whether an entry adds its name to the names `found` so far: the name is
/// not among them, starts with `prefix`, and belongs to an executable file
/// whose name is Unicode.
pub open spec fn is_new_executable(prefix: Seq<char>, found: Seq<Seq<char>>, e: PathEntry) -> bool {
    &&& !found.contains(e.name@)
    &&& is_prefix(prefix, e.name@)
    &&& e.is_executable
    &&& e.is_unicode
}

/// The names found once the entries of one directory have been looked at
/// in their order, starting from the names `found`.
pub open spec fn scan_entries(prefix: Seq<char>, found: Seq<Seq<char>>, entries: Seq<PathEntry>) -> Seq<
    Seq<char>,
>
    decreases entries.len(),
{
    if entries.len() == 0 {
        found
    } else {
        let before = scan_entries(prefix, found, entries.drop_last());
        if is_new_executable(prefix, before, entries.last()) {
            before.push(entries.last().name@)
        } else {
            before
        }
    }
}

/// The names found in the directories of the search path, taken in their
/// order: a name that an earlier directory gave is not given again.
pub open spec fn executable_names(prefix: Seq<char>, dirs: Seq<Vec<PathEntry>>) -> Seq<Seq<char>>
    decreases dirs.len(),
{
    if dirs.len() == 0 {
        Seq::empty()
    } else {
        scan_entries(prefix, executable_names(prefix, dirs.drop_last()), dirs.last()@)
    }
}

/// A scan keeps the names it started from, adds only names that start with
/// the prefix, and never holds a name twice.
pub proof fn lemma_scan_entries(prefix: Seq<char>, found: Seq<Seq<char>>, entries: Seq<PathEntry>)
    requires
        found.no_duplicates(),
        forall|i: int| 0 <= i < found.len() ==> is_prefix(prefix, #[trigger] found[i]),
    ensures
        ({
            let out = scan_entries(prefix, found, entries);
            &&& out.no_duplicates()
            &&& found.len() <= out.len()
            &&& out.subrange(0, found.len() as int) == found
            &&& forall|i: int| 0 <= i < out.len() ==> is_prefix(prefix, #[trigger] out[i])
            &&& forall|i: int|
                0 <= i < entries.len() && is_prefix(prefix, entries[i].name@)
                    && entries[i].is_executable && entries[i].is_unicode ==> out.contains(
                    #[trigger] entries[i].name@,
                )
        }),
    decreases entries.len(),
{
    let out = scan_entries(prefix, found, entries);
    if entries.len() == 0 {
        assert(out.subrange(0, found.len() as int) =~= found);
    } else {
        let front = entries.drop_last();
        let before = scan_entries(prefix, found, front);
        lemma_scan_entries(prefix, found, front);
        assert(out.subrange(0, found.len() as int) =~= before.subrange(0, found.len() as int));
        assert forall|i: int|
            0 <= i < entries.len() && is_prefix(prefix, entries[i].name@)
                && entries[i].is_executable && entries[i].is_unicode implies out.contains(
            #[trigger] entries[i].name@,
        ) by {
            if i < entries.len() - 1 {
                assert(front[i] == entries[i]);
                let k = choose|k: int| 0 <= k < before.len() && before[k] == front[i].name@;
                assert(out[k] == entries[i].name@);
            } else if before.contains(entries[i].name@) {
                let k = choose|k: int| 0 <= k < before.len() && before[k] == entries[i].name@;
                assert(out[k] == entries[i].name@);
            } else {
                assert(out[out.len() - 1] == entries[i].name@);
            }
        }
    }
}

/// Of the names that the search path gives: each starts with the prefix,
/// none occurs twice, and every executable file of a listed directory whose
/// Unicode name starts with the prefix is among them.
pub proof fn lemma_executable_names(prefix: Seq<char>, dirs: Seq<Vec<PathEntry>>)
    ensures
        ({
            let out = executable_names(prefix, dirs);
            &&& out.no_duplicates()
            &&& forall|i: int| 0 <= i < out.len() ==> is_prefix(prefix, #[trigger] out[i])
            &&& forall|d: int, i: int|
                0 <= d < dirs.len() && 0 <= i < dirs[d]@.len() && is_prefix(
                    prefix,
                    dirs[d]@[i].name@,
                ) && dirs[d]@[i].is_executable && dirs[d]@[i].is_unicode ==> out.contains(
                    #[trigger] dirs[d]@[i].name@,
                )
        }),
    decreases dirs.len(),
{
    let out = executable_names(prefix, dirs);
    if dirs.len() > 0 {
        let front = dirs.drop_last();
        let before = executable_names(prefix, front);
        lemma_executable_names(prefix, front);
        lemma_scan_entries(prefix, before, dirs.last()@);
        assert forall|d: int, i: int|
            0 <= d < dirs.len() && 0 <= i < dirs[d]@.len() && is_prefix(prefix, dirs[d]@[i].name@)
                && dirs[d]@[i].is_executable && dirs[d]@[i].is_unicode implies out.contains(
            #[trigger] dirs[d]@[i].name@,
        ) by {
            if d < dirs.len() - 1 {
                assert(front[d] == dirs[d]);
                let k = choose|k: int| 0 <= k < before.len() && before[k] == front[d]@[i].name@;
                assert(out.subrange(0, before.len() as int)[k] == out[k]);
            }
        }
    }
}

/// The names of the executable files, in the listed directories of the
/// search path, that start with `prefix`. The directories are taken in their
/// order and each name is given once, as the first directory that holds it
/// gives it. A directory that could not be read is listed as empty.
pub fn external_command_completion(prefix: &str, dirs: &Vec<Vec<PathEntry>>) -> (out: Vec<String>)
    ensures
        texts(out@) == executable_names(prefix@, dirs@),
{
    let p = chars_of(prefix);
    let mut out: Vec<String> = Vec::new();
    assert(texts(out@) =~= Seq::empty());
    assert(dirs@.subrange(0, 0) =~= Seq::empty());
    let mut d: usize = 0;
    while d < dirs.len()
        invariant
            d <= dirs.len(),
            p@ == prefix@,
            texts(out@) == executable_names(prefix@, dirs@.subrange(0, d as int)),
        decreases dirs.len() - d,
    {
        let entries = &dirs[d];
        let ghost before = texts(out@);
        assert(dirs@.subrange(0, d + 1).drop_last() =~= dirs@.subrange(0, d as int));
        assert(entries@.subrange(0, 0) =~= Seq::empty());
        let mut i: usize = 0;
        while i < entries.len()
            invariant
                i <= entries.len(),
                p@ == prefix@,
                texts(out@) == scan_entries(prefix@, before, entries@.subrange(0, i as int)),
            decreases entries.len() - i,
        {
            let e = &entries[i];
            assert(entries@.subrange(0, i + 1).drop_last() =~= entries@.subrange(0, i as int));
            if !contains_text(&out, &e.name) {
                let name = chars_of(e.name.as_str());
                if starts_with_chars(&name, &p) && e.is_executable && e.is_unicode {
                    let ghost old_out = out@;
                    out.push(e.name.clone());
                    assert(texts(out@) =~= texts(old_out).push(e.name@));
                }
            }
            i += 1;
        }
        assert(entries@.subrange(0, entries.len() as int) =~= entries@);
        d += 1;
    }
    assert(dirs@.subrange(0, dirs.len() as int) =~= dirs@);
    out
}

} // verus!
