//! Comparing two sorted texts line by line.

use crate::failure::Failure;
use crate::split::texts;
use crate::text::{join, join_with, rank, rank_texts, Rank};
use vstd::prelude::*;

verus! {

/// Which columns are printed, and what stands between them.
#[derive(Debug)]
pub struct Columns {
    pub show_col1: bool,
    pub show_col2: bool,
    pub show_col3: bool,
    pub delimiter: String,
}

/// The cells of the line that shows `val` in column `col`, counted from
/// one: an empty cell for each column that is printed before it. There
/// are no cells where the column itself is not printed.
pub open spec fn cells(col: nat, val: Seq<char>, show: (bool, bool, bool)) -> Seq<Seq<char>> {
    let empty: Seq<char> = Seq::empty();
    let before1: Seq<Seq<char>> = if show.0 {
        seq![empty]
    } else {
        Seq::empty()
    };
    let before2: Seq<Seq<char>> = if show.1 {
        seq![empty]
    } else {
        Seq::empty()
    };
    if col == 1 {
        if show.0 {
            seq![val]
        } else {
            Seq::empty()
        }
    } else if col == 2 {
        if show.1 {
            before1.push(val)
        } else {
            Seq::empty()
        }
    } else {
        if show.2 {
            (before1 + before2).push(val)
        } else {
            Seq::empty()
        }
    }
}

/// `out` with the line that shows `val` in column `col`, if it has cells.
pub open spec fn with_line(
    out: Seq<Seq<char>>,
    col: nat,
    val: Seq<char>,
    show: (bool, bool, bool),
    delimiter: Seq<char>,
) -> Seq<Seq<char>> {
    if cells(col, val, show).len() > 0 {
        out.push(join_with(cells(col, val, show), delimiter))
    } else {
        out
    }
}

/// What is printed for the lines `a` of the first text and `b` of the
/// second, behind `out`. The smaller of the two first lines goes to its
/// own column, a line that both have goes to the third.
pub open spec fn comm_spec(
    out: Seq<Seq<char>>,
    a: Seq<Seq<char>>,
    b: Seq<Seq<char>>,
    show: (bool, bool, bool),
    delimiter: Seq<char>,
) -> Seq<Seq<char>>
    decreases a.len() + b.len(),
{
    if a.len() == 0 && b.len() == 0 {
        out
    } else if b.len() == 0 {
        comm_spec(with_line(out, 1, a[0], show, delimiter), a.drop_first(), b, show, delimiter)
    } else if a.len() == 0 {
        comm_spec(with_line(out, 2, b[0], show, delimiter), a, b.drop_first(), show, delimiter)
    } else {
        match rank(a[0], b[0]) {
            Rank::Same => comm_spec(
                with_line(out, 3, a[0], show, delimiter),
                a.drop_first(),
                b.drop_first(),
                show,
                delimiter,
            ),
            Rank::Before => comm_spec(
                with_line(out, 1, a[0], show, delimiter),
                a.drop_first(),
                b,
                show,
                delimiter,
            ),
            Rank::After => comm_spec(
                with_line(out, 2, b[0], show, delimiter),
                a,
                b.drop_first(),
                show,
                delimiter,
            ),
        }
    }
}

/// Appends to `out` the line that shows `val` in column `col`.
fn write_line(out: &mut Vec<String>, col: u8, val: &str, columns: &Columns)
    requires
        1 <= col <= 3,
    ensures
        texts(final(out)@) == with_line(
            texts(old(out)@),
            col as nat,
            val@,
            (columns.show_col1, columns.show_col2, columns.show_col3),
            columns.delimiter@,
        ),
{
    let ghost before = texts(out@);
    let ghost show = (columns.show_col1, columns.show_col2, columns.show_col3);
    let mut row: Vec<String> = Vec::new();
    proof {
        assert(texts(row@) =~= Seq::<Seq<char>>::empty());
    }
    let shown = if col == 1 {
        columns.show_col1
    } else if col == 2 {
        columns.show_col2
    } else {
        columns.show_col3
    };
    if shown {
        if col >= 2 && columns.show_col1 {
            row.push(String::new());
        }
        if col >= 3 && columns.show_col2 {
            row.push(String::new());
        }
        row.push(val.to_owned());
        proof {
            assert(texts(row@) =~= cells(col as nat, val@, show));
        }
    }
    if row.len() > 0 {
        out.push(join(&row, columns.delimiter.as_str()));
        proof {
            assert(texts(out@) =~= before.push(
                join_with(cells(col as nat, val@, show), columns.delimiter@),
            ));
        }
    }
}

/// Compares the lines of two texts, which are to be sorted.
pub fn comm(lines1: &Vec<String>, lines2: &Vec<String>, columns: &Columns) -> (out: Vec<String>)
    ensures
        texts(out@) == comm_spec(
            Seq::empty(),
            texts(lines1@),
            texts(lines2@),
            (columns.show_col1, columns.show_col2, columns.show_col3),
            columns.delimiter@,
        ),
{
    let ghost a = texts(lines1@);
    let ghost b = texts(lines2@);
    let ghost show = (columns.show_col1, columns.show_col2, columns.show_col3);
    let ghost delimiter = columns.delimiter@;
    let mut out: Vec<String> = Vec::new();
    let mut i: usize = 0;
    let mut j: usize = 0;
    proof {
        assert(a.skip(0) =~= a);
        assert(b.skip(0) =~= b);
        assert(texts(out@) =~= Seq::<Seq<char>>::empty());
    }
    while i < lines1.len() || j < lines2.len()
        invariant
            i <= lines1@.len(),
            j <= lines2@.len(),
            a == texts(lines1@),
            b == texts(lines2@),
            show == (columns.show_col1, columns.show_col2, columns.show_col3),
            delimiter == columns.delimiter@,
            comm_spec(Seq::empty(), a, b, show, delimiter) == comm_spec(
                texts(out@),
                a.skip(i as int),
                b.skip(j as int),
                show,
                delimiter,
            ),
        decreases lines1@.len() - i + lines2@.len() - j,
    {
        proof {
            if i < lines1@.len() {
                assert(a.skip(i as int).drop_first() =~= a.skip(i + 1));
                assert(a.skip(i as int)[0] == lines1@[i as int]@);
            }
            if j < lines2@.len() {
                assert(b.skip(j as int).drop_first() =~= b.skip(j + 1));
                assert(b.skip(j as int)[0] == lines2@[j as int]@);
            }
        }
        if j >= lines2.len() {
            write_line(&mut out, 1, lines1[i].as_str(), columns);
            i = i + 1;
        } else if i >= lines1.len() {
            write_line(&mut out, 2, lines2[j].as_str(), columns);
            j = j + 1;
        } else {
            match rank_texts(lines1[i].as_str(), lines2[j].as_str()) {
                Rank::Same => {
                    write_line(&mut out, 3, lines1[i].as_str(), columns);
                    i = i + 1;
                    j = j + 1;
                },
                Rank::Before => {
                    write_line(&mut out, 1, lines1[i].as_str(), columns);
                    i = i + 1;
                },
                Rank::After => {
                    write_line(&mut out, 2, lines2[j].as_str(), columns);
                    j = j + 1;
                },
            }
        }
    }
    out
}

/// Both texts are to be read from the standard input, which cannot be.
pub open spec fn both_stdin(file1: Seq<char>, file2: Seq<char>) -> bool {
    file1 == "-"@ && file2 == "-"@
}

/// Refuses two inputs that are both the standard input.
pub fn check_inputs(file1: &str, file2: &str) -> (r: Result<(), Failure>)
    ensures
        r is Err <==> both_stdin(file1@, file2@),
        r matches Err(failure) ==> failure@ == "Both input files cannot be STDIN (\"-\")"@,
{
    let first = String::from_str(file1);
    let second = String::from_str(file2);
    let dash = String::from_str("-");
    if first == dash && second == dash {
        Err(Failure::from_text("Both input files cannot be STDIN (\"-\")"))
    } else {
        Ok(())
    }
}

/// The lines of a text as they are compared: in lower case where case
/// is ignored.
pub fn fold_case(lines: Vec<String>, insensitive: bool) -> (out: Vec<String>)
    ensures
        out@.len() == lines@.len(),
        forall|i: int|
            0 <= i < lines@.len() ==> (#[trigger] out@[i])@ == if insensitive {
                crate::text::lowercase(lines@[i]@)
            } else {
                lines@[i]@
            },
{
    if !insensitive {
        return lines;
    }
    let mut out: Vec<String> = Vec::new();
    let mut i: usize = 0;
    while i < lines.len()
        invariant
            i <= lines@.len(),
            out@.len() == i,
            forall|k: int|
                0 <= k < i ==> (#[trigger] out@[k])@ == crate::text::lowercase(lines@[k]@),
        decreases lines@.len() - i,
    {
        out.push(lines[i].as_str().to_lowercase());
        i = i + 1;
    }
    out
}

} // verus!
