//! Counting the lines, words, bytes and characters of a text.

use crate::failure::Failure;
use crate::text::{
    char_is_whitespace, decimal_string, decimal_text, ends_word, lemma_counts_bound,
    not_utf8_message, occurrences, pad_left, push_repeated, text_of, total_lines, total_words,
    word_count,
};
use vstd::prelude::*;
use vstd::std_specs::iter::IteratorSpec;
use vstd::string::{StrSliceExecFns, StringExecFns, StringSliceAdditionalSpecFns};
use vstd::utf8::{decode_utf8, valid_utf8};

verus! {

/// The counts of one input.
#[derive(Debug, Clone, Copy, PartialEq, Eq, Structural)]
pub struct FileInfo {
    pub num_lines: usize,
    pub num_words: usize,
    pub num_bytes: usize,
    pub num_chars: usize,
}

/// The counts of the text `chars` that is encoded in `num_bytes` bytes.
pub open spec fn file_info(chars: Seq<char>, num_bytes: nat) -> FileInfo {
    FileInfo {
        num_lines: total_lines(chars) as usize,
        num_words: total_words(chars) as usize,
        num_bytes: num_bytes as usize,
        num_chars: chars.len() as usize,
    }
}

/// Counts the lines, words and characters of `text`.
pub fn count_text(text: &str) -> (info: FileInfo)
    ensures
        info == file_info(text@, text.spec_bytes().len()),
{
    let num_chars = text.unicode_len();
    let mut it = text.chars();
    let ghost mut seen: int = 0;
    let mut newlines: usize = 0;
    let mut words: usize = 0;
    let mut in_word = false;
    let mut unfinished = false;
    loop
        invariant
            0 <= seen <= text@.len() == num_chars,
            it.remaining() == text@.skip(seen),
            newlines == occurrences(text@.take(seen), '\n'),
            words == word_count(text@.take(seen)),
            in_word == ends_word(text@.take(seen)),
            unfinished == (seen > 0 && text@.take(seen).last() != '\n'),
        decreases text@.len() - seen,
    {
        proof {
            lemma_counts_bound(text@.take(seen));
        }
        match it.next() {
            None => {
                proof {
                    assert(text@.take(seen) =~= text@);
                }
                return FileInfo {
                    num_lines: if unfinished {
                        newlines + 1
                    } else {
                        newlines
                    },
                    num_words: if in_word {
                        words + 1
                    } else {
                        words
                    },
                    num_bytes: text.len(),
                    num_chars,
                };
            },
            Some(c) => {
                proof {
                    let longer = text@.take(seen + 1);
                    assert(longer.drop_last() =~= text@.take(seen));
                    assert(longer.last() == c);
                    assert(text@.skip(seen).drop_first() =~= text@.skip(seen + 1));
                    lemma_counts_bound(longer);
                }
                let space = char_is_whitespace(c);
                if in_word && space {
                    words = words + 1;
                }
                in_word = !space;
                if c == '\n' {
                    newlines = newlines + 1;
                    unfinished = false;
                } else {
                    unfinished = true;
                }
                proof {
                    seen = seen + 1;
                }
            },
        }
    }
}

/// Counts the lines, words, bytes and characters of `data`, which must be
/// UTF-8.
pub fn count(data: &[u8]) -> (r: Result<FileInfo, Failure>)
    ensures
        valid_utf8(data@) ==> r == Ok::<FileInfo, Failure>(
            file_info(decode_utf8(data@), data@.len()),
        ),
        !valid_utf8(data@) ==> r is Err && r->Err_0@ == not_utf8_message(),
{
    match text_of(data) {
        Ok(text) => Ok(count_text(text)),
        Err(failure) => Err(failure),
    }
}

/// A count as one column of the report: right-aligned in eight
/// characters where it is shown, else nothing.
pub open spec fn field_text(value: usize, show: bool) -> Seq<char> {
    if show {
        pad_left(decimal_text(value as nat), 8)
    } else {
        Seq::empty()
    }
}

/// Writes one column of the report.
pub fn format_field(value: usize, show: bool) -> (text: String)
    ensures
        text@ == field_text(value, show),
{
    let mut text = String::new();
    if show {
        let digits = decimal_string(value as u64);
        let len = digits.as_str().unicode_len();
        if len < 8 {
            push_repeated(&mut text, ' ', 8 - len);
        }
        text.append(digits.as_str());
        proof {
            assert(text@ =~= pad_left(decimal_text(value as nat), 8));
        }
    }
    text
}

/// Which counts are shown.
#[derive(Debug, Clone, Copy, PartialEq, Eq, Structural)]
pub struct Shown {
    pub lines: bool,
    pub words: bool,
    pub bytes: bool,
    pub chars: bool,
}

/// The counts that are shown for the switches of the command line: where
/// none is set, lines, words and bytes.
pub open spec fn shown_spec(lines: bool, words: bool, bytes: bool, chars: bool) -> Shown {
    if !lines && !words && !bytes && !chars {
        Shown { lines: true, words: true, bytes: true, chars: false }
    } else {
        Shown { lines, words, bytes, chars }
    }
}

/// Chooses the counts that are shown.
pub fn shown(lines: bool, words: bool, bytes: bool, chars: bool) -> (r: Shown)
    ensures
        r == shown_spec(lines, words, bytes, chars),
{
    if !lines && !words && !bytes && !chars {
        Shown { lines: true, words: true, bytes: true, chars: false }
    } else {
        Shown { lines, words, bytes, chars }
    }
}

/// The counts of two inputs together.
pub open spec fn sum_spec(a: FileInfo, b: FileInfo) -> FileInfo {
    FileInfo {
        num_lines: (a.num_lines + b.num_lines) as usize,
        num_words: (a.num_words + b.num_words) as usize,
        num_bytes: (a.num_bytes + b.num_bytes) as usize,
        num_chars: (a.num_chars + b.num_chars) as usize,
    }
}

/// Adds the counts of two inputs, where none of the sums is too large.
pub fn sum(a: &FileInfo, b: &FileInfo) -> (total: Option<FileInfo>)
    ensures
        total == if a.num_lines + b.num_lines <= usize::MAX && a.num_words + b.num_words
            <= usize::MAX && a.num_bytes + b.num_bytes <= usize::MAX && a.num_chars
            + b.num_chars <= usize::MAX {
            Some(sum_spec(*a, *b))
        } else {
            None
        },
{
    let num_lines = a.num_lines.checked_add(b.num_lines);
    let num_words = a.num_words.checked_add(b.num_words);
    let num_bytes = a.num_bytes.checked_add(b.num_bytes);
    let num_chars = a.num_chars.checked_add(b.num_chars);
    match (num_lines, num_words, num_bytes, num_chars) {
        (Some(num_lines), Some(num_words), Some(num_bytes), Some(num_chars)) => Some(
            FileInfo { num_lines, num_words, num_bytes, num_chars },
        ),
        _ => None,
    }
}

/// The four columns of a line of the report.
pub open spec fn fields_text(info: FileInfo, shown: Shown) -> Seq<char> {
    field_text(info.num_lines, shown.lines) + field_text(info.num_words, shown.words)
        + field_text(info.num_bytes, shown.bytes) + field_text(info.num_chars, shown.chars)
}

/// The line of the report for one input: its counts, and its name
/// behind a space unless it is the standard input, `-`.
pub open spec fn report_line_spec(info: FileInfo, shown: Shown, filename: Seq<char>) -> Seq<char> {
    fields_text(info, shown) + if filename == "-"@ {
        Seq::empty()
    } else {
        " "@ + filename
    }
}

/// The last line of the report for several inputs.
pub open spec fn total_line_spec(total: FileInfo, shown: Shown) -> Seq<char> {
    fields_text(total, shown) + " total"@
}

/// Writes the four columns of a line.
fn format_fields(info: &FileInfo, shown: &Shown) -> (text: String)
    ensures
        text@ == fields_text(*info, *shown),
{
    let mut text = format_field(info.num_lines, shown.lines);
    text.append(format_field(info.num_words, shown.words).as_str());
    text.append(format_field(info.num_bytes, shown.bytes).as_str());
    text.append(format_field(info.num_chars, shown.chars).as_str());
    text
}

/// Writes the line of the report for one input.
pub fn report_line(info: &FileInfo, shown: &Shown, filename: &str) -> (text: String)
    ensures
        text@ == report_line_spec(*info, *shown, filename@),
{
    let mut text = format_fields(info, shown);
    let dash = String::from_str("-");
    let name = String::from_str(filename);
    if name != dash {
        text.append(" ");
        text.append(filename);
        proof {
            assert(text@ =~= fields_text(*info, *shown) + (" "@ + filename@));
        }
    } else {
        proof {
            assert(text@ =~= fields_text(*info, *shown) + Seq::<char>::empty());
        }
    }
    text
}

/// Writes the last line of the report for several inputs.
pub fn total_line(total: &FileInfo, shown: &Shown) -> (text: String)
    ensures
        text@ == total_line_spec(*total, *shown),
{
    let mut text = format_fields(total, shown);
    text.append(" total");
    text
}

} // verus!
