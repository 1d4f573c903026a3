//! Folding runs of equal lines into one.

use crate::split::{lines_with_ends, split_lines, texts};
use crate::text::{decimal_string, decimal_text, pad_left, push_repeated, trim_end, trimmed_end};
use vstd::prelude::*;
use vstd::string::{StrSliceExecFns, StringExecFns};

verus! {

/// The state between two lines: what was written, the line that stands
/// for the run that is being read, and how many lines that run has so far.
pub struct Folding {
    pub written: Seq<Seq<char>>,
    pub previous: Seq<char>,
    pub count: nat,
}

/// What is written for a run of `count` lines that `text` stands for:
/// nothing for no lines, else the text, behind the count where counts are
/// shown. The count is right-aligned in four characters and a space
/// follows it.
pub open spec fn run_text(count: nat, text: Seq<char>, show_count: bool) -> Option<Seq<char>> {
    if count == 0 {
        None
    } else if show_count {
        Some(pad_left(decimal_text(count), 4) + " "@ + text)
    } else {
        Some(text)
    }
}

/// `written` with what is written for a run.
pub open spec fn with_run(
    written: Seq<Seq<char>>,
    count: nat,
    text: Seq<char>,
    show_count: bool,
) -> Seq<Seq<char>> {
    match run_text(count, text, show_count) {
        Some(t) => written.push(t),
        None => written,
    }
}

/// Reading one more line. Two lines are equal where they differ in
/// nothing but the white space at their ends; a line that is not equal to
/// the one that stands for the run ends that run and stands for the next.
pub open spec fn fold_line(state: Folding, line: Seq<char>, show_count: bool) -> Folding {
    if trim_end(line) != trim_end(state.previous) {
        Folding {
            written: with_run(state.written, state.count, state.previous, show_count),
            previous: line,
            count: 1,
        }
    } else {
        Folding { written: state.written, previous: state.previous, count: state.count + 1 }
    }
}

/// Reading `lines`, one after the other, from the start: no run, and the
/// empty text standing for it.
pub open spec fn fold_lines(lines: Seq<Seq<char>>, show_count: bool) -> Folding
    decreases lines.len(),
{
    if lines.len() == 0 {
        Folding { written: Seq::empty(), previous: Seq::empty(), count: 0 }
    } else {
        fold_line(fold_lines(lines.drop_last(), show_count), lines.last(), show_count)
    }
}

/// What is written for the text `s`: its runs of equal lines, each as
/// the line that stands for it.
pub open spec fn uniq_spec(s: Seq<char>, show_count: bool) -> Seq<Seq<char>> {
    let end = fold_lines(split_lines(s), show_count);
    with_run(end.written, end.count, end.previous, show_count)
}

/// Writes one run to `out`.
fn write_run(out: &mut Vec<String>, count: u64, text: &str, show_count: bool)
    ensures
        texts(final(out)@) == with_run(texts(old(out)@), count as nat, text@, show_count),
{
    let ghost before = texts(out@);
    if count > 0 {
        if show_count {
            let digits = decimal_string(count);
            let len = digits.as_str().unicode_len();
            let mut line = String::new();
            if len < 4 {
                push_repeated(&mut line, ' ', 4 - len);
            }
            line.append(digits.as_str());
            proof {
                assert(line@ =~= pad_left(decimal_text(count as nat), 4));
            }
            line.append(" ");
            line.append(text);
            out.push(line);
        } else {
            out.push(String::from_str(text));
        }
        proof {
            assert(texts(out@) =~= before.push(run_text(count as nat, text@, show_count)->0));
        }
    }
}

/// Folds the runs of equal lines of `text`.
pub fn uniq(text: &str, show_count: bool) -> (out: Vec<String>)
    ensures
        texts(out@) == uniq_spec(text@, show_count),
{
    let lines = lines_with_ends(text);
    let ghost all = texts(lines@);
    let mut out: Vec<String> = Vec::new();
    let mut previous = String::new();
    let mut previous_trimmed = String::new();
    let mut count: u64 = 0;
    let mut i: usize = 0;
    let n = lines.len();
    proof {
        assert(all.take(0) =~= Seq::<Seq<char>>::empty());
        assert(texts(out@) =~= Seq::<Seq<char>>::empty());
    }
    while i < n
        invariant
            i <= n == lines@.len(),
            all == texts(lines@),
            count <= i,
            previous_trimmed@ == trim_end(previous@),
            ({
                let state = fold_lines(all.take(i as int), show_count);
                &&& texts(out@) == state.written
                &&& previous@ == state.previous
                &&& count == state.count
            }),
        decreases n - i,
    {
        proof {
            let longer = all.take(i + 1);
            assert(longer.drop_last() =~= all.take(i as int));
            assert(longer.last() == lines@[i as int]@);
        }
        let line = lines[i].as_str();
        let line_trimmed = trimmed_end(line);
        if line_trimmed != previous_trimmed {
            write_run(&mut out, count, previous.as_str(), show_count);
            previous = String::from_str(line);
            previous_trimmed = line_trimmed;
            count = 0;
        }
        count = count + 1;
        i = i + 1;
    }
    proof {
        assert(all.take(i as int) =~= all);
    }
    write_run(&mut out, count, previous.as_str(), show_count);
    out
}

} // verus!
