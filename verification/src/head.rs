//! Printing the start of a stream.

use crate::decimal::Decimal;
use crate::failure::Failure;
use crate::tail::lines::drop_lines;
use crate::tail::stream::skip_lines;
use vstd::prelude::*;
use vstd::string::StringExecFns;

verus! {

/// The positive number that `text` writes, if it writes one.
pub open spec fn positive_int(text: Seq<char>) -> Option<usize> {
    match usize::read_spec(text) {
        Some(n) => if n > 0 {
            Some(n)
        } else {
            None
        },
        None => None,
    }
}

/// Reads a number of lines or bytes, which must be above zero.
pub fn parse_positive_int(val: &str) -> (r: Result<usize, Failure>)
    ensures
        match positive_int(val@) {
            Some(n) => r == Ok::<usize, Failure>(n),
            None => r is Err && r->Err_0@ == "invalid positive integer"@,
        },
{
    match usize::read(val) {
        Some(n) => {
            if n > 0 {
                Ok(n)
            } else {
                Err(Failure::from_text("invalid positive integer"))
            }
        },
        None => Err(Failure::from_text("invalid positive integer")),
    }
}


/// The first `n` bytes of `data`, or all of it where it has fewer.
pub open spec fn first_bytes_spec(data: Seq<u8>, n: nat) -> Seq<u8> {
    if n < data.len() {
        data.take(n as int)
    } else {
        data
    }
}

/// The part of `data` that is printed for a count of bytes.
pub fn first_bytes(data: &[u8], n: usize) -> (out: &[u8])
    ensures
        out@ == first_bytes_spec(data@, n as nat),
{
    let end = if n < data.len() {
        n
    } else {
        data.len()
    };
    let out = &data[0..end];
    proof {
        assert(out@ =~= data@.take(end as int));
        assert(data@.take(data@.len() as int) =~= data@);
    }
    out
}

/// The first `n` lines of `data`, or all of it where it has fewer: what
/// stands before the rest that [`drop_lines`] leaves.
pub open spec fn first_lines_spec(data: Seq<u8>, n: nat) -> Seq<u8> {
    data.take(data.len() - drop_lines(data, n).len())
}

/// The part of `data` that is printed for a count of lines.
pub fn first_lines(data: &[u8], n: usize) -> (out: &[u8])
    ensures
        out@ == first_lines_spec(data@, n as nat),
        out@ + drop_lines(data@, n as nat) == data@,
{
    let (end, _) = skip_lines(data, n as u64);
    let out = &data[0..end];
    proof {
        assert(out@ =~= data@.take(end as int));
        assert(data@.skip(end as int).len() == data@.len() - end);
        assert(data@.take(end as int) + data@.skip(end as int) =~= data@);
    }
    out
}

/// The line that names a file before what is printed of it.
pub open spec fn header_spec(filename: Seq<char>) -> Seq<char> {
    "==> "@ + filename + " <==\n"@
}

/// Writes the line that names a file.
pub fn header(filename: &str) -> (text: String)
    ensures
        text@ == header_spec(filename@),
{
    let mut text = String::from_str("==> ");
    text.append(filename);
    text.append(" <==\n");
    text
}

/// Reads the count of lines of the command line.
pub fn parse_lines(val: &str) -> (r: Result<usize, Failure>)
    ensures
        match positive_int(val@) {
            Some(n) => r == Ok::<usize, Failure>(n),
            None => r is Err && r->Err_0@ == "illegal line count -- invalid positive integer"@,
        },
{
    match parse_positive_int(val) {
        Ok(n) => Ok(n),
        Err(_) => Err(Failure::from_text("illegal line count -- invalid positive integer")),
    }
}

/// Reads the count of bytes of the command line.
pub fn parse_bytes(val: &str) -> (r: Result<usize, Failure>)
    ensures
        match positive_int(val@) {
            Some(n) => r == Ok::<usize, Failure>(n),
            None => r is Err && r->Err_0@ == "illegal byte count -- invalid positive integer"@,
        },
{
    match parse_positive_int(val) {
        Ok(n) => Ok(n),
        Err(_) => Err(Failure::from_text("illegal byte count -- invalid positive integer")),
    }
}

} // verus!
