//! Printing a text, with its lines numbered where that is asked for.

use crate::split::{bare_lines, lines_of, texts};
use crate::text::{decimal_string, decimal_text};
use vstd::prelude::*;
use vstd::string::StringExecFns;

verus! {

/// How the lines are numbered.
#[derive(Debug, Clone, Copy, PartialEq, Eq, Structural)]
pub enum Numbering {
    /// No line has a number.
    Off,
    /// Every line has a number.
    All,
    /// Every line but the empty ones has a number.
    NonBlank,
}

/// The numbering that the two switches of the command line ask for; the
/// one for all lines goes first.
pub open spec fn numbering_spec(number_lines: bool, number_nonblank_lines: bool) -> Numbering {
    if number_lines {
        Numbering::All
    } else if number_nonblank_lines {
        Numbering::NonBlank
    } else {
        Numbering::Off
    }
}

/// Chooses the numbering.
pub fn numbering(number_lines: bool, number_nonblank_lines: bool) -> (mode: Numbering)
    ensures
        mode == numbering_spec(number_lines, number_nonblank_lines),
{
    if number_lines {
        Numbering::All
    } else if number_nonblank_lines {
        Numbering::NonBlank
    } else {
        Numbering::Off
    }
}

/// How many of `lines` have a number.
pub open spec fn numbered(lines: Seq<Seq<char>>, mode: Numbering) -> nat
    decreases lines.len(),
{
    if lines.len() == 0 {
        0
    } else {
        numbered(lines.drop_last(), mode) + if has_number(lines.last(), mode) {
            1nat
        } else {
            0nat
        }
    }
}

/// The line `line` has a number.
pub open spec fn has_number(line: Seq<char>, mode: Numbering) -> bool {
    match mode {
        Numbering::Off => false,
        Numbering::All => true,
        Numbering::NonBlank => line.len() > 0,
    }
}

/// What is printed for a line: the line itself, or behind its number `n`
/// and a space where all lines are numbered, a tab where only those with
/// text are.
pub open spec fn shown_line(line: Seq<char>, n: nat, mode: Numbering) -> Seq<char> {
    if !has_number(line, mode) {
        line
    } else if mode == Numbering::All {
        decimal_text(n) + " "@ + line
    } else {
        decimal_text(n) + "\t"@ + line
    }
}

/// What is printed for `lines`, line by line. The numbers start at one.
pub open spec fn shown(lines: Seq<Seq<char>>, mode: Numbering) -> Seq<Seq<char>> {
    Seq::new(lines.len(), |i: int| shown_line(lines[i], numbered(lines.take(i + 1), mode), mode))
}

/// Writes the lines of `text` as they are printed.
pub fn render(text: &str, mode: Numbering) -> (out: Vec<String>)
    ensures
        texts(out@) == shown(bare_lines(text@), mode),
{
    let lines = lines_of(text);
    let ghost all = texts(lines@);
    let mut out: Vec<String> = Vec::new();
    let mut line_number: u64 = 0;
    let mut i: usize = 0;
    let n = lines.len();
    proof {
        assert(all.take(0) =~= Seq::<Seq<char>>::empty());
    }
    while i < n
        invariant
            i <= n == lines@.len(),
            all == texts(lines@),
            line_number == numbered(all.take(i as int), mode),
            line_number <= i,
            out@.len() == i,
            forall|j: int| 0 <= j < i ==> out@[j]@ == shown(all, mode)[j],
        decreases lines@.len() - i,
    {
        proof {
            let longer = all.take(i + 1);
            assert(longer.drop_last() =~= all.take(i as int));
            assert(longer.last() == lines@[i as int]@);
        }
        let line = lines[i].as_str();
        let with_number = match mode {
            Numbering::Off => false,
            Numbering::All => true,
            Numbering::NonBlank => !line.is_empty(),
        };
        if with_number {
            line_number = line_number + 1;
            let mut numbered_line = decimal_string(line_number);
            match mode {
                Numbering::All => numbered_line.append(" "),
                _ => numbered_line.append("\t"),
            }
            numbered_line.append(line);
            out.push(numbered_line);
        } else {
            out.push(String::from_str(line));
        }
        i = i + 1;
    }
    proof {
        assert(texts(out@) =~= shown(all, mode));
    }
    out
}

} // verus!
