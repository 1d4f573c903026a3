//! Regular expressions, matched by the `regex` crate.
//!
//! Nothing here is proved of the matcher: the contracts below state what
//! its documentation says of the calls that the utilities make.

use crate::decimal::all_digits;
use regex::{Regex, RegexBuilder};
use vstd::prelude::*;

verus! {

/// The sign and the digits that were captured, as sequences of characters.
pub open spec fn groups_view(groups: Option<(Option<String>, Option<String>)>) -> Option<
    (Option<Seq<char>>, Option<Seq<char>>),
> {
    match groups {
        None => None,
        Some((sign, digits)) => Some(
            (
                match sign {
                    None => None,
                    Some(s) => Some(s@),
                },
                match digits {
                    None => None,
                    Some(d) => Some(d@),
                },
            ),
        ),
    }
}

/// What `^([+-])?(\d+)$` captures in `text`: nothing where `text` does not
/// match, else the first and the second group.
pub uninterp spec fn count_captures(text: Seq<char>) -> Option<
    (Option<Seq<char>>, Option<Seq<char>>),
>;

/// What is known of the groups that `^([+-])?(\d+)$` captures in `text`.
///
/// The pattern is anchored at both ends, so the groups make up all of
/// `text`: the first is a leading `+` or `-`, absent where `text` has
/// neither, and the second is all that follows, which is not empty. The
/// class `\d` holds the ASCII digits among others, so a text of an optional
/// sign and ASCII digits always matches.
pub open spec fn count_captures_fit(
    text: Seq<char>,
    groups: Option<(Option<Seq<char>>, Option<Seq<char>>)>,
) -> bool {
    let signed = text.len() > 0 && (text[0] == '+' || text[0] == '-');
    let rest = if signed {
        text.skip(1)
    } else {
        text
    };
    match groups {
        None => !(rest.len() > 0 && all_digits(rest)),
        Some((sign, digits)) => {
            &&& rest.len() > 0
            &&& digits == Some(rest)
            &&& sign == if signed {
                Some(text.take(1))
            } else {
                None
            }
        },
    }
}

/// Matches `text` against `^([+-])?(\d+)$` with `Regex::captures` and hands
/// out the two groups as text. Trusted: the result is the value that
/// [`count_captures`] names, and [`count_captures_fit`] holds of it.
#[verifier::external_body]
pub(crate) fn capture_count(text: &str) -> (groups: Option<(Option<String>, Option<String>)>)
    ensures
        groups_view(groups) == count_captures(text@),
        count_captures_fit(text@, groups_view(groups)),
{
    let re = Regex::new(r"^([+-])?(\d+)$").ok()?;
    let caps = re.captures(text)?;
    Some(
        (
            caps.get(1).map(|m| m.as_str().to_string()),
            caps.get(2).map(|m| m.as_str().to_string()),
        ),
    )
}

/// `source` is a regular expression that the matcher accepts, with or
/// without the flag that makes it ignore case.
pub uninterp spec fn regex_valid(source: Seq<char>, insensitive: bool) -> bool;

/// The regular expression `source` matches somewhere in `text`.
pub uninterp spec fn regex_match(source: Seq<char>, insensitive: bool, text: Seq<char>) -> bool;

/// Compiles `source` with `RegexBuilder::build` and says whether that
/// succeeded. Trusted: the result is the value that [`regex_valid`] names.
#[verifier::external_body]
pub(crate) fn compiles(source: &str, insensitive: bool) -> (valid: bool)
    ensures
        valid == regex_valid(source@, insensitive),
{
    RegexBuilder::new(source).case_insensitive(insensitive).build().is_ok()
}

/// Compiles `source` and searches `text` with `Regex::is_match`. Trusted:
/// there is a result where [`regex_valid`] holds of the expression, and it
/// is the value that [`regex_match`] names.
#[verifier::external_body]
pub(crate) fn search(source: &str, insensitive: bool, text: &str) -> (found: Option<bool>)
    ensures
        found == if regex_valid(source@, insensitive) {
            Some(regex_match(source@, insensitive, text@))
        } else {
            None
        },
{
    let re = RegexBuilder::new(source).case_insensitive(insensitive).build().ok()?;
    Some(re.is_match(text))
}

/// A regular expression that the matcher accepts.
#[derive(Debug)]
pub struct Pattern {
    source: String,
    insensitive: bool,
}

impl Pattern {
    #[verifier::type_invariant]
    spec fn well_formed(self) -> bool {
        regex_valid(self.source@, self.insensitive)
    }

    /// The text of the expression.
    pub closed spec fn source(&self) -> Seq<char> {
        self.source@
    }

    /// Whether the expression ignores case.
    pub closed spec fn insensitive(&self) -> bool {
        self.insensitive
    }

    /// The expression matches somewhere in `text`.
    pub open spec fn accepts(&self, text: Seq<char>) -> bool {
        regex_match(self.source(), self.insensitive(), text)
    }

    /// The pattern that `source` writes, if it writes one.
    pub fn new(source: &str, insensitive: bool) -> (pattern: Option<Pattern>)
        ensures
            pattern is Some <==> regex_valid(source@, insensitive),
            pattern matches Some(p) ==> p.source() == source@ && p.insensitive() == insensitive,
    {
        if compiles(source, insensitive) {
            Some(Pattern { source: source.to_owned(), insensitive })
        } else {
            None
        }
    }

    /// Searches `text` for a match.
    pub fn is_match(&self, text: &str) -> (found: bool)
        ensures
            found == self.accepts(text@),
    {
        proof {
            use_type_invariant(self);
        }
        match search(self.source.as_str(), self.insensitive, text) {
            Some(found) => found,
            None => false,
        }
    }
}

} // verus!
