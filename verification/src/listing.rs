//! The decisions of the `ls` command: which of the paths that a pattern
//! matched are shown, under which name, and with which columns. Reading
//! the file system is the caller's part; it hands over what it read.

use vstd::prelude::*;
use crate::text::{chars_of, contains_char, has_char, is_prefix, starts_with_chars};

verus! {

/// The `ls` command.
#[derive(Clone, Copy, Debug)]
pub struct Ls;

impl Ls {
    /// The command's name.
    pub fn name(&self) -> (r: &'static str)
        ensures
            r@ == "ls"@,
    {
        "ls"
    }

    /// One line on what the command does.
    pub fn usage(&self) -> (r: &'static str)
        ensures
            r@ == "List the files in a directory."@,
    {
        "List the files in a directory."
    }
}

/// What an attempt to read a directory gave.
#[derive(Clone, Copy, Debug, PartialEq, Eq, Structural)]
pub enum DirProbe {
    /// The directory may not be read by this user.
    Denied,
    /// The directory could not be read, for another reason.
    Failed,
    /// The directory was read and holds no entry.
    Empty,
    /// The directory was read and holds an entry.
    Occupied,
}

/// Whether the directory may not be read by this user.
pub fn permission_denied(probe: DirProbe) -> (r: bool)
    ensures
        r == (probe == DirProbe::Denied),
{
    match probe {
        DirProbe::Denied => true,
        DirProbe::Failed => false,
        DirProbe::Empty => false,
        DirProbe::Occupied => false,
    }
}

/// Whether the directory has nothing to list: it holds no entry, or could
/// not be read.
pub fn is_empty_dir(probe: DirProbe) -> (r: bool)
    ensures
        r == (probe != DirProbe::Occupied),
{
    match probe {
        DirProbe::Occupied => false,
        DirProbe::Denied => true,
        DirProbe::Failed => true,
        DirProbe::Empty => true,
    }
}

/// A file's name marks it as hidden: it starts with a dot.
pub open spec fn is_hidden_name(name: Option<Seq<char>>) -> bool {
    match name {
        Some(n) => n.len() > 0 && n[0] == '.',
        None => false,
    }
}

/// Whether a file with this last path component, if it has one, is hidden by
/// its name.
pub fn is_hidden_dir(file_name: Option<&str>) -> (r: bool)
    ensures
        r == is_hidden_name(
            match file_name {
                Some(n) => Some(n@),
                None => None,
            },
        ),
{
    match file_name {
        Some(n) => {
            let chars = chars_of(n);
            chars.len() > 0 && chars[0] == '.'
        },
        None => false,
    }
}

/// Whether the file attributes that Windows keeps mark a file as hidden.
pub fn has_hidden_attribute(attributes: u32) -> (r: bool)
    ensures
        r == (attributes & 0x2 != 0),
{
    attributes & 0x2 != 0
}

/// The text of some folder of `folders` opens the text of `path`.
pub open spec fn below_hidden(path: Seq<char>, folders: Seq<Seq<char>>) -> bool {
    exists|i: int| 0 <= i < folders.len() && is_prefix(#[trigger] folders[i], path)
}

/// Whether `path` lies in one of the hidden folders: whether the text of
/// one of them opens the text of the path.
pub fn path_contains_hidden_folder(path: &str, folders: &Vec<String>) -> (r: bool)
    ensures
        r == below_hidden(path@, crate::text::texts(folders@)),
{
    let p = chars_of(path);
    let ghost names = crate::text::texts(folders@);
    let mut i: usize = 0;
    while i < folders.len()
        invariant
            i <= folders.len(),
            p@ == path@,
            names == crate::text::texts(folders@),
            forall|j: int| 0 <= j < i ==> !is_prefix(#[trigger] names[j], path@),
        decreases folders.len() - i,
    {
        let f = chars_of(folders[i].as_str());
        if starts_with_chars(&p, &f) {
            assert(is_prefix(names[i as int], path@));
            return true;
        }
        i += 1;
    }
    false
}

/// What the type of a file is and is not, as the platform tells it.
#[derive(Clone, Copy, Debug, PartialEq, Eq, Structural)]
pub struct FileType {
    pub is_dir: bool,
    pub is_file: bool,
    pub is_symlink: bool,
    pub is_block_device: bool,
    pub is_char_device: bool,
    pub is_fifo: bool,
    pub is_socket: bool,
}

/// The name under which a file type is listed.
pub open spec fn file_type_name(t: FileType) -> Seq<char> {
    if t.is_dir {
        "dir"@
    } else if t.is_file {
        "file"@
    } else if t.is_symlink {
        "symlink"@
    } else if t.is_block_device {
        "block device"@
    } else if t.is_char_device {
        "char device"@
    } else if t.is_fifo {
        "pipe"@
    } else if t.is_socket {
        "socket"@
    } else {
        "unknown"@
    }
}

/// The name under which a file type is listed: the first that applies of
/// directory, file, symbolic link, block device, character device, pipe and
/// socket; `unknown` where none does.
pub fn get_file_type(t: &FileType) -> (r: &'static str)
    ensures
        r@ == file_type_name(*t),
{
    if t.is_dir {
        "dir"
    } else if t.is_file {
        "file"
    } else if t.is_symlink {
        "symlink"
    } else if t.is_block_device {
        "block device"
    } else if t.is_char_device {
        "char device"
    } else if t.is_fifo {
        "pipe"
    } else if t.is_socket {
        "socket"
    } else {
        "unknown"
    }
}

/// One component of a path.
#[derive(Clone, Debug)]
pub struct PathPart {
    /// The component's text.
    pub text: String,
    /// Whether it is an ordinary name: not a root, a prefix, `.` or `..`.
    pub is_normal: bool,
}

/// The component holds what makes a pattern of a path: it is an ordinary
/// name with a star in it.
pub open spec fn is_pattern_part(part: PathPart) -> bool {
    part.is_normal && has_char(part.text@, '*')
}

/// How many components come before the first that is a pattern: all of
/// them where none is.
pub open spec fn literal_parts(parts: Seq<PathPart>) -> int
    decreases parts.len(),
{
    if parts.len() == 0 {
        0
    } else if is_pattern_part(parts[0]) {
        0
    } else {
        1 + literal_parts(parts.drop_first())
    }
}

/// Of the components of a pattern, how many make the longest path before
/// the first star: the directory below which the pattern's matches lie.
pub fn glob_prefix_len(parts: &Vec<PathPart>) -> (n: usize)
    ensures
        n == literal_parts(parts@),
        n <= parts.len(),
        forall|i: int| 0 <= i < n ==> !is_pattern_part(#[trigger] parts@[i]),
        n < parts.len() ==> is_pattern_part(parts@[n as int]),
{
    let mut i: usize = 0;
    assert(parts@.subrange(0, parts.len() as int) =~= parts@);
    while i < parts.len()
        invariant
            i <= parts.len(),
            forall|j: int| 0 <= j < i ==> !is_pattern_part(#[trigger] parts@[j]),
            literal_parts(parts@) == i + literal_parts(parts@.subrange(i as int, parts.len() as int)),
        decreases parts.len() - i,
    {
        let ghost rest = parts@.subrange(i as int, parts.len() as int);
        assert(rest[0] == parts@[i as int]);
        assert(rest.drop_first() =~= parts@.subrange(i + 1, parts.len() as int));
        if parts[i].is_normal {
            let text = chars_of(parts[i].text.as_str());
            if contains_char(&text, '*') {
                return i;
            }
        }
        i += 1;
    }
    assert(parts@.subrange(i as int, parts.len() as int).len() == 0);
    i
}

/// A path that the pattern matched.
#[derive(Clone, Debug)]
pub struct Found {
    /// The path as text.
    pub path: String,
    /// Whether the platform's convention marks it as hidden.
    pub is_hidden: bool,
    /// Whether it is a directory.
    pub is_dir: bool,
}

/// A path is left out because it lies in a hidden folder met before, or
/// because it is hidden itself and hidden files are not asked for.
pub open spec fn is_left_out(f: Found, hidden: Seq<Seq<char>>, show_hidden: bool) -> bool {
    below_hidden(f.path@, hidden) || (!show_hidden && f.is_hidden)
}

/// The hidden folders known once the paths have been looked at in their
/// order: a hidden directory that is left out, and lies in none known
/// already, is one more.
pub open spec fn hidden_folders(found: Seq<Found>, show_hidden: bool) -> Seq<Seq<char>>
    decreases found.len(),
{
    if found.len() == 0 {
        Seq::empty()
    } else {
        let before = hidden_folders(found.drop_last(), show_hidden);
        let f = found.last();
        if !below_hidden(f.path@, before) && !show_hidden && f.is_hidden && f.is_dir {
            before.push(f.path@)
        } else {
            before
        }
    }
}

/// Whether the path at `i` is shown.
pub open spec fn is_shown(found: Seq<Found>, show_hidden: bool, i: int) -> bool {
    !is_left_out(found[i], hidden_folders(found.subrange(0, i), show_hidden), show_hidden)
}

/// Which of the paths that the pattern matched are shown. Hidden files are
/// shown where all files are asked for, or where the pattern itself names a
/// hidden directory; else a hidden file is left out, and where it is a
/// directory, so is every later path below it.
pub fn visible_entries(found: &Vec<Found>, all: bool, hidden_dir_specified: bool) -> (shown: Vec<
    bool,
>)
    ensures
        shown@.len() == found@.len(),
        forall|i: int|
            0 <= i < found@.len() ==> #[trigger] shown@[i] == is_shown(
                found@,
                all || hidden_dir_specified,
                i,
            ),
{
    let show_hidden = all || hidden_dir_specified;
    let mut shown: Vec<bool> = Vec::new();
    let mut hidden: Vec<String> = Vec::new();
    assert(crate::text::texts(hidden@) =~= Seq::<Seq<char>>::empty());
    assert(found@.subrange(0, 0) =~= Seq::<Found>::empty());
    let mut i: usize = 0;
    while i < found.len()
        invariant
            i <= found.len(),
            shown@.len() == i,
            show_hidden == (all || hidden_dir_specified),
            crate::text::texts(hidden@) == hidden_folders(found@.subrange(0, i as int), show_hidden),
            forall|j: int| 0 <= j < i ==> #[trigger] shown@[j] == is_shown(found@, show_hidden, j),
        decreases found.len() - i,
    {
        let f = &found[i];
        assert(found@.subrange(0, i + 1).drop_last() =~= found@.subrange(0, i as int));
        assert(found@.subrange(0, i + 1).last() == found@[i as int]);
        if path_contains_hidden_folder(f.path.as_str(), &hidden) {
            shown.push(false);
        } else if !show_hidden && f.is_hidden {
            if f.is_dir {
                let ghost before = hidden@;
                hidden.push(f.path.clone());
                assert(crate::text::texts(hidden@) =~= crate::text::texts(before).push(f.path@));
            }
            shown.push(false);
        } else {
            shown.push(true);
        }
        i += 1;
    }
    shown
}

/// The name under which a path is listed: its last component where short
/// names are asked for, which a path may lack; else the whole path where
/// full paths are asked for; else the path as it reads from the working
/// directory, where that could be made out; else the whole path.
pub fn display_name(
    short_names: bool,
    full_paths: bool,
    file_name: Option<String>,
    path: String,
    relative: Option<String>,
) -> (r: Option<String>)
    ensures
        r == if short_names {
            file_name
        } else if full_paths {
            Some(path)
        } else {
            match relative {
                Some(p) => Some(p),
                None => Some(path),
            }
        },
{
    if short_names {
        file_name
    } else if full_paths {
        Some(path)
    } else {
        match relative {
            Some(p) => Some(p),
            None => Some(path),
        }
    }
}

/// The columns of a listed entry, in their order: `long` adds the columns
/// that only the long listing has, some of them only where the file's
/// metadata could be read (`with_metadata`) and only on Unix (`unix`).
pub open spec fn column_names(long: bool, with_metadata: bool, unix: bool) -> Seq<Seq<char>> {
    seq!["name"@, "type"@] + (if long {
        seq!["target"@]
    } else {
        Seq::empty()
    }) + (if long && with_metadata {
        seq!["readonly"@] + (if unix {
            seq!["mode"@, "num_links"@, "inode"@, "uid"@, "group"@]
        } else {
            Seq::empty()
        })
    } else {
        Seq::empty()
    }) + seq!["size"@] + (if long {
        seq!["created"@, "accessed"@]
    } else {
        Seq::empty()
    }) + seq!["modified"@]
}

/// The names of the columns of a listed entry.
pub fn entry_columns(long: bool, with_metadata: bool, unix: bool) -> (cols: Vec<&'static str>)
    ensures
        cols@.len() == column_names(long, with_metadata, unix).len(),
        forall|i: int|
            0 <= i < cols@.len() ==> (#[trigger] cols@[i])@ == column_names(
                long,
                with_metadata,
                unix,
            )[i],
{
    let mut cols: Vec<&'static str> = Vec::new();
    cols.push("name");
    cols.push("type");
    if long {
        cols.push("target");
    }
    if long && with_metadata {
        cols.push("readonly");
        if unix {
            cols.push("mode");
            cols.push("num_links");
            cols.push("inode");
            cols.push("uid");
            cols.push("group");
        }
    }
    cols.push("size");
    if long {
        cols.push("created");
        cols.push("accessed");
    }
    cols.push("modified");
    cols
}

/// The nine characters that show the permission bits of a file mode: for
/// the owner, the group and the others, `r`, `w` and `x` where the bit is
/// set and `-` where it is not.
pub open spec fn mode_chars(mode: u32) -> Seq<char> {
    seq![
        mode_mark(mode, 0o400, 'r'),
        mode_mark(mode, 0o200, 'w'),
        mode_mark(mode, 0o100, 'x'),
        mode_mark(mode, 0o040, 'r'),
        mode_mark(mode, 0o020, 'w'),
        mode_mark(mode, 0o010, 'x'),
        mode_mark(mode, 0o004, 'r'),
        mode_mark(mode, 0o002, 'w'),
        mode_mark(mode, 0o001, 'x'),
    ]
}

/// `c` where the bit is set in the mode, `-` where it is not.
pub open spec fn mode_mark(mode: u32, bit: u32, c: char) -> char {
    if mode & bit == bit {
        c
    } else {
        '-'
    }
}

/// Calls `umask::Mode::from` and the mode's `to_string`: the nine
/// characters of the permission bits.
#[verifier::external_body]
pub(crate) fn mode_string(mode: u32) -> (r: String)
    ensures
        r@ == mode_chars(mode),
{
    umask::Mode::from(mode).to_string()
}

/// Calls `pathdiff::diff_paths`: `path` as it reads from `base`, where the
/// two can be related. A path reads from itself as the empty path.
#[verifier::external_body]
pub(crate) fn diff_paths(path: &str, base: &str) -> (r: Option<String>)
    ensures
        path@ == base@ ==> r is Some && r->0@.len() == 0,
{
    pathdiff::diff_paths(path, base).map(|p| p.to_string_lossy().into_owned())
}

/// The directory below which the listed entries lie, as it is shown: as it
/// reads from the working directory, where the two could be related, else
/// as it is.
pub fn shown_prefix(relative: Option<String>, prefix: &str) -> (r: String)
    ensures
        r@ == match relative {
            Some(p) => p@,
            None => prefix@,
        },
{
    match relative {
        Some(p) => p,
        None => prefix.to_owned(),
    }
}

/// The directory below which the listed entries lie, as it reads from the
/// working directory; the directory itself where the two cannot be related.
/// The working directory reads from itself as the empty path, so that what
/// lies in it is listed by its bare name.
pub fn listing_prefix(prefix: &str, cwd: &str) -> (r: String)
    ensures
        prefix@ == cwd@ ==> r@.len() == 0,
{
    shown_prefix(diff_paths(prefix, cwd), prefix)
}

/// The text that shows the permission bits of a file mode in a listing.
pub fn mode_text(mode: u32) -> (r: String)
    ensures
        r@ == mode_chars(mode),
        r@.len() == 9,
{
    mode_string(mode)
}

/// A point in time: seconds since the start of 1970, and nanoseconds beyond
/// them.
#[derive(Clone, Copy, Debug, PartialEq, Eq, Structural)]
pub struct Timestamp {
    pub secs: i64,
    pub nanos: u32,
}

/// What Unix keeps of a file.
#[derive(Clone, Debug)]
pub struct UnixMetadata {
    /// The file mode.
    pub mode: u32,
    /// The number of hard links.
    pub nlink: u64,
    /// The inode's number.
    pub inode: u64,
    /// The name of the owner, where the user is known.
    pub user: Option<String>,
    /// The name of the owning group, where the group is known.
    pub group: Option<String>,
}

/// What the file system tells of a path, links not followed.
#[derive(Clone, Debug)]
pub struct Metadata {
    pub file_type: FileType,
    /// The size in bytes.
    pub len: u64,
    pub readonly: bool,
    /// What only Unix keeps.
    pub unix: Option<UnixMetadata>,
    /// Where a symbolic link points, if that could be read.
    pub link_target: Option<String>,
    /// The size of a symbolic link itself, if that could be read.
    pub link_len: Option<u64>,
    pub created: Option<Timestamp>,
    pub accessed: Option<Timestamp>,
    pub modified: Option<Timestamp>,
}

/// One value of a listed entry.
#[derive(Clone, Debug)]
pub enum Cell {
    Nothing,
    Text(String),
    Bool(bool),
    Int(i64),
    Filesize(i64),
    Date(Timestamp),
}

/// A value of a listed entry as contracts see it.
pub enum CellView {
    Nothing,
    Text(Seq<char>),
    Bool(bool),
    Int(i64),
    Filesize(i64),
    Date(Timestamp),
}

impl View for Cell {
    type V = CellView;

    open spec fn view(&self) -> CellView {
        match *self {
            Cell::Nothing => CellView::Nothing,
            Cell::Text(s) => CellView::Text(s@),
            Cell::Bool(b) => CellView::Bool(b),
            Cell::Int(n) => CellView::Int(n),
            Cell::Filesize(n) => CellView::Filesize(n),
            Cell::Date(t) => CellView::Date(t),
        }
    }
}

/// A listed entry: the names of its columns and its values, in their order.
/// The values are fewer than the names where a value cannot be told: the
/// target of an entry without metadata, the size of what is neither
/// directory, file nor link.
#[derive(Clone, Debug)]
pub struct Record {
    pub cols: Vec<String>,
    pub vals: Vec<Cell>,
}

/// A text where there is one, nothing where there is none.
pub open spec fn text_or_nothing(text: Option<String>) -> CellView {
    match text {
        Some(s) => CellView::Text(s@),
        None => CellView::Nothing,
    }
}

/// A time where there is one, nothing where there is none.
pub open spec fn date_or_nothing(time: Option<Timestamp>) -> CellView {
    match time {
        Some(t) => CellView::Date(t),
        None => CellView::Nothing,
    }
}

/// The value under `target` in the long listing of an entry with metadata.
pub open spec fn target_value(md: Metadata) -> CellView {
    if md.file_type.is_symlink {
        match md.link_target {
            Some(t) => CellView::Text(t@),
            None => CellView::Text("Could not obtain target file's path"@),
        }
    } else {
        CellView::Nothing
    }
}

/// The values that only the long listing has, after the target.
pub open spec fn long_values(md: Metadata) -> Seq<CellView> {
    seq![CellView::Bool(md.readonly)] + (match md.unix {
        Some(u) => seq![
            CellView::Text(mode_chars(u.mode)),
            CellView::Int(u.nlink as i64),
            CellView::Int(u.inode as i64),
            text_or_nothing(u.user),
            text_or_nothing(u.group),
        ],
        None => Seq::empty(),
    })
}

/// The value under `size`, where one can be told.
pub open spec fn size_values(md: Metadata) -> Seq<CellView> {
    if md.file_type.is_dir || md.file_type.is_file {
        seq![CellView::Filesize(md.len as i64)]
    } else if md.file_type.is_symlink {
        match md.link_len {
            Some(n) => seq![CellView::Filesize(n as i64)],
            None => seq![CellView::Nothing],
        }
    } else {
        Seq::empty()
    }
}

/// The values of a listed entry, in the order of its columns.
pub open spec fn entry_values(display_name: Seq<char>, metadata: Option<Metadata>, long: bool) -> Seq<
    CellView,
> {
    match metadata {
        Some(md) => seq![
            CellView::Text(display_name),
            CellView::Text(file_type_name(md.file_type)),
        ] + (if long {
            seq![target_value(md)] + long_values(md)
        } else {
            Seq::empty()
        }) + size_values(md) + (if long {
            seq![date_or_nothing(md.created), date_or_nothing(md.accessed)]
        } else {
            Seq::empty()
        }) + seq![date_or_nothing(md.modified)],
        None => seq![CellView::Text(display_name), CellView::Nothing, CellView::Nothing] + (if long {
            seq![CellView::Nothing, CellView::Nothing]
        } else {
            Seq::empty()
        }) + seq![CellView::Nothing],
    }
}

/// The values of a list of cells.
pub open spec fn cell_views(cells: Seq<Cell>) -> Seq<CellView> {
    cells.map_values(|c: Cell| c@)
}

fn text_cell(text: &Option<String>) -> (c: Cell)
    ensures
        c@ == text_or_nothing(*text),
{
    match text {
        Some(s) => Cell::Text(s.clone()),
        None => Cell::Nothing,
    }
}

fn date_cell(time: Option<Timestamp>) -> (c: Cell)
    ensures
        c@ == date_or_nothing(time),
{
    match time {
        Some(t) => Cell::Date(t),
        None => Cell::Nothing,
    }
}

fn push_cell(vals: &mut Vec<Cell>, cell: Cell)
    ensures
        cell_views(final(vals)@) == cell_views(old(vals)@).push(cell@),
{
    vals.push(cell);
    assert(cell_views(vals@) =~= cell_views(old(vals)@).push(cell@));
}

/// The row that lists one entry: under `name` the name to display, then the
/// type, the size and the time of the last change, and in the long listing
/// the target of a link, the permissions, the owner and the other times
/// besides. What the file system did not tell is listed as nothing.
pub fn dir_entry_dict(display_name: &str, metadata: Option<&Metadata>, long: bool) -> (record: Record)
    ensures
        record.cols@.len() == column_names(
            long,
            metadata is Some,
            metadata is Some && metadata->0.unix is Some,
        ).len(),
        forall|i: int|
            0 <= i < record.cols@.len() ==> (#[trigger] record.cols@[i])@ == column_names(
                long,
                metadata is Some,
                metadata is Some && metadata->0.unix is Some,
            )[i],
        cell_views(record.vals@) == entry_values(
            display_name@,
            match metadata {
                Some(md) => Some(*md),
                None => None,
            },
            long,
        ),
{
    let names = entry_columns(
        long,
        metadata.is_some(),
        match metadata {
            Some(md) => md.unix.is_some(),
            None => false,
        },
    );
    let mut cols: Vec<String> = Vec::new();
    let mut k: usize = 0;
    while k < names.len()
        invariant
            k <= names.len(),
            cols@.len() == k,
            forall|j: int| 0 <= j < k ==> (#[trigger] cols@[j])@ == names@[j]@,
        decreases names.len() - k,
    {
        cols.push(names[k].to_owned());
        k += 1;
    }
    let mut vals: Vec<Cell> = Vec::new();
    assert(cell_views(vals@) =~= Seq::<CellView>::empty());
    push_cell(&mut vals, Cell::Text(display_name.to_owned()));
    match metadata {
        Some(md) => {
            push_cell(&mut vals, Cell::Text(get_file_type(&md.file_type).to_owned()));
            if long {
                if md.file_type.is_symlink {
                    match &md.link_target {
                        Some(t) => push_cell(&mut vals, Cell::Text(t.clone())),
                        None => push_cell(
                            &mut vals,
                            Cell::Text("Could not obtain target file's path".to_owned()),
                        ),
                    }
                } else {
                    push_cell(&mut vals, Cell::Nothing);
                }
                push_cell(&mut vals, Cell::Bool(md.readonly));
                match &md.unix {
                    Some(u) => {
                        push_cell(&mut vals, Cell::Text(mode_text(u.mode)));
                        push_cell(&mut vals, Cell::Int(#[verifier::truncate] (u.nlink as i64)));
                        push_cell(&mut vals, Cell::Int(#[verifier::truncate] (u.inode as i64)));
                        push_cell(&mut vals, text_cell(&u.user));
                        push_cell(&mut vals, text_cell(&u.group));
                    },
                    None => {},
                }
            }
            if md.file_type.is_dir || md.file_type.is_file {
                push_cell(&mut vals, Cell::Filesize(#[verifier::truncate] (md.len as i64)));
            } else if md.file_type.is_symlink {
                match md.link_len {
                    Some(n) => push_cell(&mut vals, Cell::Filesize(#[verifier::truncate] (n as i64))),
                    None => push_cell(&mut vals, Cell::Nothing),
                }
            }
            if long {
                push_cell(&mut vals, date_cell(md.created));
                push_cell(&mut vals, date_cell(md.accessed));
            }
            push_cell(&mut vals, date_cell(md.modified));
            assert(cell_views(vals@) =~= entry_values(display_name@, Some(*md), long));
        },
        None => {
            push_cell(&mut vals, Cell::Nothing);
            push_cell(&mut vals, Cell::Nothing);
            if long {
                push_cell(&mut vals, Cell::Nothing);
                push_cell(&mut vals, Cell::Nothing);
            }
            push_cell(&mut vals, Cell::Nothing);
            assert(cell_views(vals@) =~= entry_values(display_name@, None, long));
        },
    }
    Record { cols, vals }
}

} // verus!
