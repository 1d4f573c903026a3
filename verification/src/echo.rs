//! Printing the arguments.

use crate::split::texts;
use crate::text::{join, join_with};
use vstd::prelude::*;
use vstd::string::StringExecFns;

verus! {

/// What is printed for the arguments `text`: all of them with a space
/// between each two, and a newline at the end unless it is left out.
pub open spec fn echo_spec(text: Seq<Seq<char>>, omit_newline: bool) -> Seq<char> {
    join_with(text, " "@) + if omit_newline {
        ""@
    } else {
        "\n"@
    }
}

/// Writes what is printed for the arguments.
pub fn echo(text: &Vec<String>, omit_newline: bool) -> (out: String)
    ensures
        out@ == echo_spec(texts(text@), omit_newline),
{
    let mut out = join(text, " ");
    out.append(if omit_newline {
        ""
    } else {
        "\n"
    });
    out
}

} // verus!
