//! The count given on the command line: its grammar and its meaning.

use crate::decimal::{
    all_digits, bounded_decimal, first_char, integer_value, is_digit, parse_decimal, parse_i64,
};
use crate::failure::Failure;
use crate::pattern::{capture_count, count_captures, groups_view};
use vstd::prelude::*;
use vstd::string::StringExecFns;

verus! {

/// How much of a stream to print, as asked for on the command line.
#[derive(Debug, Clone, Copy, PartialEq, Eq, Structural)]
pub enum TakeValue {
    /// `+0`: everything, from the first element on.
    PlusZero,
    /// A signed count. A positive `n` starts at the `n`-th element, counted
    /// from one; a negative `n` keeps the last `-n` elements; zero keeps
    /// nothing.
    TakeNum(i64),
}

/// `s` begins with `+` or `-`.
pub open spec fn has_sign(s: Seq<char>) -> bool {
    s.len() > 0 && (s[0] == '+' || s[0] == '-')
}

/// `s` begins with `+`.
pub open spec fn has_plus(s: Seq<char>) -> bool {
    s.len() > 0 && s[0] == '+'
}

/// What follows the sign of `s`, or all of `s` where it has no sign.
pub open spec fn count_digits(s: Seq<char>) -> Seq<char> {
    if has_sign(s) {
        s.skip(1)
    } else {
        s
    }
}

/// The count that `s` writes: an optional sign and one or more ASCII digits.
/// Only a leading `+` makes the number positive; without a sign it is
/// negative, as with `-`. The number must fit in 64 bits, and `+0` alone is
/// [`TakeValue::PlusZero`].
pub open spec fn parse_count(s: Seq<char>) -> Option<TakeValue> {
    match bounded_decimal(count_digits(s), !has_plus(s), i64::MIN as int, i64::MAX as int) {
        None => None,
        Some(n) => if n == 0 && has_plus(s) {
            Some(TakeValue::PlusZero)
        } else {
            Some(TakeValue::TakeNum(n as i64))
        },
    }
}

/// A character that is neither a digit nor a leading sign makes the whole
/// text no count.
pub proof fn lemma_stray_character(s: Seq<char>, i: int)
    requires
        0 <= i < s.len(),
        !is_digit(s[i]),
        i > 0 || !has_sign(s),
    ensures
        parse_count(s) is None,
{
    let digits = count_digits(s);
    if has_sign(s) {
        assert(digits[i - 1] == s[i]);
    } else {
        assert(digits[i] == s[i]);
    }
    assert(!all_digits(digits));
}

/// Without a sign a count means what it means behind `-`.
pub proof fn lemma_bare_is_negative(s: Seq<char>)
    requires
        !has_sign(s),
    ensures
        parse_count(s) == parse_count(seq!['-'] + s),
{
    let signed = seq!['-'] + s;
    assert(signed[0] == '-');
    assert(signed.skip(1) =~= s);
}

/// A count is `+0` only where it is written with `+` and digits that are
/// worth nothing; every other count that is written with `+` is above
/// zero, and every count without `+` is zero or below.
pub proof fn lemma_sign_of_count(s: Seq<char>)
    ensures
        match parse_count(s) {
            Some(TakeValue::PlusZero) => has_plus(s),
            Some(TakeValue::TakeNum(n)) => if has_plus(s) {
                n > 0
            } else {
                n <= 0
            },
            None => true,
        },
{
}

/// Reads a count from `val`, or fails with `val` as the message.
pub fn parse_num_without_regex(val: &str) -> (r: Result<TakeValue, Failure>)
    ensures
        match parse_count(val@) {
            Some(take) => r == Ok::<TakeValue, Failure>(take),
            None => r is Err && r->Err_0@ == val@,
        },
{
    let first = first_char(val);
    let plus = first == Some('+');
    let skip: usize = if plus || first == Some('-') {
        1
    } else {
        0
    };
    proof {
        assert(val@.skip(0) =~= val@);
    }
    match parse_decimal(val, skip, !plus, i64::MIN as i128, i64::MAX as i128) {
        Some(n) => {
            if n == 0 && plus {
                Ok(TakeValue::PlusZero)
            } else {
                Ok(TakeValue::TakeNum(n as i64))
            }
        },
        None => Err(Failure::from_text(val)),
    }
}

/// The count that a captured sign and captured digits write together. A
/// missing sign stands for `-`; the two are read as one signed 64-bit
/// integer, and a zero behind the sign `+` is [`TakeValue::PlusZero`].
pub open spec fn count_of_groups(sign: Option<Seq<char>>, digits: Seq<char>) -> Option<TakeValue> {
    let sign = match sign {
        Some(s) => s,
        None => seq!['-'],
    };
    match integer_value(sign + digits, true, i64::MIN as int, i64::MAX as int) {
        None => None,
        Some(n) => if n == 0 && sign == seq!['+'] {
            Some(TakeValue::PlusZero)
        } else {
            Some(TakeValue::TakeNum(n as i64))
        },
    }
}

/// The count that the groups captured in a text write, if the text matched
/// and they write one.
pub open spec fn count_of_captures(
    groups: Option<(Option<Seq<char>>, Option<Seq<char>>)>,
) -> Option<TakeValue> {
    match groups {
        Some((sign, Some(digits))) => count_of_groups(sign, digits),
        _ => None,
    }
}

/// `text` is the one character `c`.
fn is_single(text: &str, c: char) -> (r: bool)
    ensures
        r == (text@ == seq![c]),
{
    let mut it = text.chars();
    match it.next() {
        Some(first) => {
            let rest = it.next();
            proof {
                if rest is None {
                    assert(text@.drop_first().len() == 0);
                    assert(text@ =~= seq![first]);
                } else {
                    assert(text@.len() >= 2);
                }
            }
            first == c && rest.is_none()
        },
        None => false,
    }
}

/// Turns a captured sign and captured digits into a count.
pub fn take_value_of_groups(sign: Option<&str>, digits: &str) -> (take: Option<TakeValue>)
    ensures
        take == count_of_groups(
            match sign {
                Some(s) => Some(s@),
                None => None,
            },
            digits@,
        ),
{
    let sign_text = match sign {
        Some(s) => s,
        None => "-",
    };
    proof {
        reveal_strlit("-");
        assert("-"@ =~= seq!['-']);
    }
    let mut num = String::from_str(sign_text);
    num.append(digits);
    match parse_i64(num.as_str()) {
        Some(n) => {
            if n == 0 && is_single(sign_text, '+') {
                Some(TakeValue::PlusZero)
            } else {
                Some(TakeValue::TakeNum(n))
            }
        },
        None => None,
    }
}

/// A text and the groups that the count pattern captures in it write the
/// same count.
pub proof fn lemma_captures_agree(
    text: Seq<char>,
    groups: Option<(Option<Seq<char>>, Option<Seq<char>>)>,
)
    requires
        crate::pattern::count_captures_fit(text, groups),
    ensures
        count_of_captures(groups) == parse_count(text),
{
    match groups {
        None => {},
        Some((sign, digits)) => {
            let rest = count_digits(text);
            if has_sign(text) {
                assert(text.take(1) + rest =~= text);
                if text[0] == '+' {
                    assert(text.take(1) =~= seq!['+']);
                } else {
                    assert(text.take(1) =~= seq!['-']);
                    assert(seq!['-'] != seq!['+']) by {
                        assert(seq!['-'][0] != seq!['+'][0]);
                    }
                }
            } else {
                let whole = seq!['-'] + text;
                assert(whole.skip(1) =~= text);
                assert(whole[0] == '-');
                assert(seq!['-'] != seq!['+']) by {
                    assert(seq!['-'][0] != seq!['+'][0]);
                }
            }
        },
    }
}

/// Reads a count from `val` as [`parse_num_without_regex`] does, finding
/// the sign and the digits with a regular expression.
pub fn parse_num(val: &str) -> (r: Result<TakeValue, Failure>)
    ensures
        match parse_count(val@) {
            Some(take) => r == Ok::<TakeValue, Failure>(take),
            None => r is Err && r->Err_0@ == val@,
        },
        parse_count(val@) == count_of_captures(count_captures(val@)),
{
    let groups = capture_count(val);
    proof {
        lemma_captures_agree(val@, groups_view(groups));
    }
    let take = match groups {
        Some((sign, Some(digits))) => {
            match sign {
                Some(s) => take_value_of_groups(Some(s.as_str()), digits.as_str()),
                None => take_value_of_groups(None, digits.as_str()),
            }
        },
        _ => None,
    };
    match take {
        Some(take) => Ok(take),
        None => Err(Failure::from_text(val)),
    }
}

/// The message for text that is no count of lines.
pub open spec fn illegal_line_count(text: Seq<char>) -> Seq<char> {
    "illegal line count -- "@ + text
}

/// The message for text that is no count of bytes.
pub open spec fn illegal_byte_count(text: Seq<char>) -> Seq<char> {
    "illegal byte count -- "@ + text
}

/// Reads the count of lines of the command line.
pub fn parse_lines(val: &str) -> (r: Result<TakeValue, Failure>)
    ensures
        match parse_count(val@) {
            Some(take) => r == Ok::<TakeValue, Failure>(take),
            None => r is Err && r->Err_0@ == illegal_line_count(val@),
        },
{
    match parse_num_without_regex(val) {
        Ok(take) => Ok(take),
        Err(failure) => {
            let mut message = String::from_str("illegal line count -- ");
            message.append(failure.to_string().as_str());
            Err(Failure::new(message))
        },
    }
}

/// Reads the count of bytes of the command line.
pub fn parse_bytes(val: &str) -> (r: Result<TakeValue, Failure>)
    ensures
        match parse_count(val@) {
            Some(take) => r == Ok::<TakeValue, Failure>(take),
            None => r is Err && r->Err_0@ == illegal_byte_count(val@),
        },
{
    match parse_num(val) {
        Ok(take) => Ok(take),
        Err(failure) => {
            let mut message = String::from_str("illegal byte count -- ");
            message.append(failure.to_string().as_str());
            Err(Failure::new(message))
        },
    }
}

} // verus!
