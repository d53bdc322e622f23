//! The decisions of the `length` command: how many rows, or how many
//! columns, its input has.

use vstd::prelude::*;

verus! {

/// The `length` command.
#[derive(Clone, Copy, Debug)]
pub struct Length;

impl Length {
    /// The command's name.
    pub fn name(&self) -> (r: &'static str)
        ensures
            r@ == "length"@,
    {
        "length"
    }

    /// One line on what the command does.
    pub fn usage(&self) -> (r: &'static str)
        ensures
            r@ == "Count the number of elements in the input."@,
    {
        "Count the number of elements in the input."
    }
}

/// The input of the command, as far as counting goes.
#[derive(Clone, Debug)]
pub enum Input {
    /// No value at all.
    Nothing,
    /// A value that is no list: the number of values it yields when it is
    /// walked, which is one but for a range.
    Value(usize),
    /// A list or a stream: for each item its column names where it is a
    /// record, `None` where it is not.
    Rows(Vec<Option<Vec<String>>>),
}

/// The number of rows of an input.
pub open spec fn row_count(input: Input) -> nat {
    match input {
        Input::Nothing => 0,
        Input::Value(n) => n as nat,
        Input::Rows(rows) => rows@.len(),
    }
}

/// The column names found once `cols` have been looked at: each name once,
/// where it was first met.
pub open spec fn merged(found: Seq<Seq<char>>, cols: Seq<String>) -> Seq<Seq<char>>
    decreases cols.len(),
{
    if cols.len() == 0 {
        found
    } else {
        let before = merged(found, cols.drop_last());
        if before.contains(cols.last()@) {
            before
        } else {
            before.push(cols.last()@)
        }
    }
}

/// Every item is a record.
pub open spec fn all_records(rows: Seq<Option<Vec<String>>>) -> bool {
    forall|i: int| 0 <= i < rows.len() ==> #[trigger] rows[i] is Some
}

/// The column names of a table whose rows are all records: each name once,
/// in the order in which the rows bring them up.
pub open spec fn table_columns(rows: Seq<Option<Vec<String>>>) -> Seq<Seq<char>>
    decreases rows.len(),
{
    if rows.len() == 0 {
        Seq::empty()
    } else {
        let before = table_columns(rows.drop_last());
        match rows.last() {
            Some(cols) => merged(before, cols@),
            None => before,
        }
    }
}

/// The number of columns of an input: of a list or a stream of records,
/// the number of different column names; of one that holds an item that is
/// no record, none; of anything else, one, for it is counted as one record
/// without columns.
pub open spec fn column_count(input: Input) -> nat {
    match input {
        Input::Rows(rows) => if all_records(rows@) {
            table_columns(rows@).len()
        } else {
            0
        },
        _ => 1,
    }
}

/// The number of elements of the input: none for no value, else as many as
/// the input yields.
pub fn length_row(input: &Input) -> (n: usize)
    ensures
        n == row_count(*input),
{
    match input {
        Input::Nothing => 0,
        Input::Value(n) => *n,
        Input::Rows(rows) => rows.len(),
    }
}

/// The column names of a list or a stream: each name once, in the order in
/// which the rows bring them up; none where an item is no record.
pub fn getcol(rows: &Vec<Option<Vec<String>>>) -> (cols: Vec<String>)
    ensures
        crate::text::texts(cols@) == if all_records(rows@) {
            table_columns(rows@)
        } else {
            Seq::<Seq<char>>::empty()
        },
{
    let mut cols: Vec<String> = Vec::new();
    assert(crate::text::texts(cols@) =~= Seq::<Seq<char>>::empty());
    assert(rows@.subrange(0, 0) =~= Seq::<Option<Vec<String>>>::empty());
    let mut i: usize = 0;
    while i < rows.len()
        invariant
            i <= rows.len(),
            all_records(rows@.subrange(0, i as int)),
            crate::text::texts(cols@) == table_columns(rows@.subrange(0, i as int)),
        decreases rows.len() - i,
    {
        assert(rows@.subrange(0, i + 1).drop_last() =~= rows@.subrange(0, i as int));
        match &rows[i] {
            None => {
                assert(rows@[i as int] is None);
                let empty: Vec<String> = Vec::new();
                assert(crate::text::texts(empty@) =~= Seq::<Seq<char>>::empty());
                return empty;
            },
            Some(names) => {
                let ghost before = crate::text::texts(cols@);
                assert(names@.subrange(0, 0) =~= Seq::<String>::empty());
                let mut k: usize = 0;
                while k < names.len()
                    invariant
                        k <= names.len(),
                        crate::text::texts(cols@) == merged(before, names@.subrange(0, k as int)),
                    decreases names.len() - k,
                {
                    assert(names@.subrange(0, k + 1).drop_last() =~= names@.subrange(0, k as int));
                    if !crate::text::contains_text(&cols, &names[k]) {
                        let ghost old_cols = cols@;
                        cols.push(names[k].clone());
                        assert(crate::text::texts(cols@) =~= crate::text::texts(old_cols).push(
                            names@[k as int]@,
                        ));
                    }
                    k += 1;
                }
                assert(names@.subrange(0, names.len() as int) =~= names@);
                assert forall|j: int| 0 <= j < i + 1 implies #[trigger] rows@.subrange(
                    0,
                    i + 1,
                )[j] is Some by {
                    if j < i {
                        assert(rows@.subrange(0, i as int)[j] is Some);
                    }
                }
            },
        }
        i += 1;
    }
    assert(rows@.subrange(0, rows.len() as int) =~= rows@);
    cols
}

/// The number of columns of the input.
pub fn length_col(input: &Input) -> (n: usize)
    ensures
        n == column_count(*input),
{
    match input {
        Input::Rows(rows) => {
            let cols = getcol(rows);
            assert(crate::text::texts(cols@).len() == cols@.len());
            cols.len()
        },
        _ => 1,
    }
}

/// What the command gives for its input: the number of columns where the
/// switch `column` is set, else the number of rows.
pub fn run(column: bool, input: &Input) -> (n: usize)
    ensures
        n == if column {
            column_count(*input)
        } else {
            row_count(*input)
        },
{
    if column {
        length_col(input)
    } else {
        length_row(input)
    }
}

} // verus!
