//! The header that names a file where several are printed.

use vstd::prelude::*;
use vstd::string::StringExecFns;

verus! {

/// The header of the file `filename`, the `file_num`-th of `num_files`
/// counted from zero, or `None` where no header is printed.
///
/// A header is printed where there is more than one file and `quiet` is
/// off. It is the line `==> filename <==`; an empty line goes before it
/// for every file but the first.
pub open spec fn header_spec(
    filename: Seq<char>,
    file_num: nat,
    num_files: nat,
    quiet: bool,
) -> Option<Seq<char>> {
    if quiet || num_files <= 1 {
        None
    } else if file_num > 0 {
        Some("\n"@ + "==> "@ + filename + " <==\n"@)
    } else {
        Some("==> "@ + filename + " <==\n"@)
    }
}

/// Writes the header of a file, as [`header_spec`] gives it.
pub fn header(filename: &str, file_num: usize, num_files: usize, quiet: bool) -> (text: Option<
    String,
>)
    ensures
        match header_spec(filename@, file_num as nat, num_files as nat, quiet) {
            Some(expected) => text is Some && text->0@ == expected,
            None => text is None,
        },
{
    if quiet || num_files <= 1 {
        return None;
    }
    let mut text = if file_num > 0 {
        String::from_str("\n")
    } else {
        String::new()
    };
    text.append("==> ");
    text.append(filename);
    text.append(" <==\n");
    proof {
        if file_num == 0 {
            assert(Seq::<char>::empty() + "==> "@ =~= "==> "@);
        }
    }
    Some(text)
}

} // verus!
