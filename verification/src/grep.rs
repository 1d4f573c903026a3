//! Searching the lines of a text for a pattern.

use crate::failure::Failure;
use crate::pattern::{regex_valid, Pattern};
use crate::split::{lines_with_ends, split_lines, texts};
use crate::text::{decimal_string, decimal_text, not_utf8_message, text_of};
use vstd::prelude::*;
use vstd::string::StringExecFns;
use vstd::utf8::{decode_utf8, valid_utf8};

verus! {

/// The message for a pattern that is no regular expression.
pub open spec fn invalid_pattern(source: Seq<char>) -> Seq<char> {
    "Invalid pattern \""@ + source + "\""@
}

/// Reads the pattern to search for.
pub fn parse_pattern(source: &str, insensitive: bool) -> (r: Result<Pattern, Failure>)
    ensures
        r is Ok <==> regex_valid(source@, insensitive),
        r matches Ok(p) ==> p.source() == source@ && p.insensitive() == insensitive,
        r matches Err(failure) ==> failure@ == invalid_pattern(source@),
{
    match Pattern::new(source, insensitive) {
        Some(pattern) => Ok(pattern),
        None => Err(Failure::about("Invalid pattern \"", source, "\"")),
    }
}

/// Those of `lines` that the search selects, in their order: the ones
/// that `pattern` matches, or with `invert` the ones that it does not.
pub open spec fn selected(lines: Seq<Seq<char>>, pattern: Pattern, invert: bool) -> Seq<
    Seq<char>,
>
    decreases lines.len(),
{
    if lines.len() == 0 {
        Seq::empty()
    } else if pattern.accepts(lines.last()) != invert {
        selected(lines.drop_last(), pattern, invert).push(lines.last())
    } else {
        selected(lines.drop_last(), pattern, invert)
    }
}

/// Finds the lines of `data` that the search selects. A line is matched
/// and handed out with the newline that ends it. The data must be UTF-8.
pub fn find_lines(data: &[u8], pattern: &Pattern, invert_match: bool) -> (r: Result<
    Vec<String>,
    Failure,
>)
    ensures
        valid_utf8(data@) ==> r is Ok && texts(r->Ok_0@) == selected(
            split_lines(decode_utf8(data@)),
            *pattern,
            invert_match,
        ),
        !valid_utf8(data@) ==> r is Err && r->Err_0@ == not_utf8_message(),
{
    let text = match text_of(data) {
        Ok(text) => text,
        Err(failure) => {
            return Err(failure);
        },
    };
    let lines = lines_with_ends(text);
    let mut found: Vec<String> = Vec::new();
    let mut i: usize = 0;
    proof {
        assert(texts(lines@).take(0) =~= Seq::<Seq<char>>::empty());
        assert(texts(found@) =~= Seq::<Seq<char>>::empty());
    }
    while i < lines.len()
        invariant
            i <= lines@.len(),
            texts(found@) == selected(texts(lines@).take(i as int), *pattern, invert_match),
        decreases lines@.len() - i,
    {
        proof {
            let longer = texts(lines@).take(i + 1);
            assert(longer.drop_last() =~= texts(lines@).take(i as int));
            assert(longer.last() == lines@[i as int]@);
        }
        if pattern.is_match(lines[i].as_str()) != invert_match {
            let ghost before = texts(found@);
            found.push(lines[i].clone());
            proof {
                assert(texts(found@) =~= before.push(lines@[i as int]@));
            }
        }
        i = i + 1;
    }
    proof {
        assert(texts(lines@).take(i as int) =~= texts(lines@));
    }
    Ok(found)
}

/// What is printed for `value` found in the file `filename`: with more
/// than one file, the name of the file and a colon go before it.
pub open spec fn labelled(filename: Seq<char>, value: Seq<char>, num_files: nat) -> Seq<char> {
    if num_files > 1 {
        filename + ":"@ + value
    } else {
        value
    }
}

/// Writes one piece of output with the name of its file where that is due.
pub fn label(filename: &str, value: &str, num_files: usize) -> (text: String)
    ensures
        text@ == labelled(filename@, value@, num_files as nat),
{
    if num_files > 1 {
        let mut text = String::from_str(filename);
        text.append(":");
        text.append(value);
        text
    } else {
        String::from_str(value)
    }
}

/// What is printed for the lines `found` in one file: each of them, or
/// with `count` only their number on a line of its own.
pub open spec fn report_spec(
    filename: Seq<char>,
    found: Seq<Seq<char>>,
    count: bool,
    num_files: nat,
) -> Seq<Seq<char>> {
    if count {
        seq![labelled(filename, decimal_text(found.len()) + "\n"@, num_files)]
    } else {
        found.map_values(|line: Seq<char>| labelled(filename, line, num_files))
    }
}

/// Writes the output for the lines found in one file.
pub fn report(filename: &str, found: &Vec<String>, count: bool, num_files: usize) -> (out: Vec<
    String,
>)
    ensures
        texts(out@) == report_spec(filename@, texts(found@), count, num_files as nat),
{
    let mut out: Vec<String> = Vec::new();
    if count {
        let mut number = decimal_string(found.len() as u64);
        number.append("\n");
        out.push(label(filename, number.as_str(), num_files));
        proof {
            assert(texts(out@) =~= report_spec(
                filename@,
                texts(found@),
                count,
                num_files as nat,
            ));
        }
    } else {
        let mut i: usize = 0;
        while i < found.len()
            invariant
                i <= found@.len(),
                out@.len() == i,
                forall|j: int|
                    0 <= j < i ==> out@[j]@ == labelled(filename@, found@[j]@, num_files as nat),
            decreases found@.len() - i,
        {
            out.push(label(filename, found[i].as_str(), num_files));
            i = i + 1;
        }
        proof {
            assert(texts(out@) =~= report_spec(
                filename@,
                texts(found@),
                count,
                num_files as nat,
            ));
        }
    }
    out
}

/// What a path of the command line is.
#[derive(Debug, Clone, Copy, PartialEq, Eq, Structural)]
pub enum PathKind {
    File,
    Dir,
    Other,
}

/// What is done with a path of the command line.
#[derive(Debug)]
pub enum Step {
    /// The path is searched.
    Take,
    /// The files below the path are searched.
    Walk,
    /// The path is passed over.
    Skip,
    /// The path is reported with this failure.
    Fail(Failure),
}

/// `path` stands for the standard input, which is searched as it is.
pub fn is_stdin(path: &str) -> (r: bool)
    ensures
        r == (path@ == "-"@),
{
    String::from_str(path) == String::from_str("-")
}

/// The message for a directory that is not searched.
pub open spec fn is_a_directory(path: Seq<char>) -> Seq<char> {
    path + " is a directory"@
}

/// Decides what is done with a path that exists: a file is searched, a
/// directory only with `recursive`, and then all below it; anything else
/// is passed over.
pub fn classify(path: &str, kind: PathKind, recursive: bool) -> (step: Step)
    ensures
        kind == PathKind::File ==> step matches Step::Take,
        kind == PathKind::Other ==> step matches Step::Skip,
        kind == PathKind::Dir && recursive ==> step matches Step::Walk,
        kind == PathKind::Dir && !recursive ==> (step matches Step::Fail(failure) && failure@
            == is_a_directory(path@)),
{
    match kind {
        PathKind::File => Step::Take,
        PathKind::Other => Step::Skip,
        PathKind::Dir => {
            if recursive {
                Step::Walk
            } else {
                let mut message = String::from_str(path);
                message.append(" is a directory");
                Step::Fail(Failure::new(message))
            }
        },
    }
}

/// The failure for a path that cannot be looked up, with the reason
/// that the system gave.
pub fn unreadable(path: &str, reason: &str) -> (failure: Failure)
    ensures
        failure@ == path@ + ":"@ + reason@,
{
    Failure::about(path, ":", reason)
}

} // verus!
