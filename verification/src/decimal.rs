//! Decimal numerals: what a run of digits denotes, and reading one
//! within given bounds.

use vstd::prelude::*;
use vstd::std_specs::iter::IteratorSpec;

verus! {

/// `c` is one of the ten ASCII digits.
pub open spec fn is_digit(c: char) -> bool {
    '0' <= c && c <= '9'
}

/// The value of the digit `c`.
pub open spec fn digit_value(c: char) -> nat {
    (c as u32 - '0' as u32) as nat
}

/// Every character of `s` is an ASCII digit.
pub open spec fn all_digits(s: Seq<char>) -> bool {
    forall|i: int| 0 <= i < s.len() ==> is_digit(#[trigger] s[i])
}

/// The number that the digits `s` write in base ten; zero for no digits.
pub open spec fn decimal_value(s: Seq<char>) -> nat
    decreases s.len(),
{
    if s.len() == 0 {
        0
    } else {
        decimal_value(s.drop_last()) * 10 + digit_value(s.last())
    }
}

/// The number that `digits` write, negated where `negative`.
pub open spec fn signed_value(digits: Seq<char>, negative: bool) -> int {
    if negative {
        -(decimal_value(digits) as int)
    } else {
        decimal_value(digits) as int
    }
}

/// The signed number that `digits` write, where they are one or more
/// ASCII digits and the number lies within `min..=max`.
pub open spec fn bounded_decimal(digits: Seq<char>, negative: bool, min: int, max: int) -> Option<
    int,
> {
    if digits.len() > 0 && all_digits(digits) && min <= signed_value(digits, negative) <= max {
        Some(signed_value(digits, negative))
    } else {
        None
    }
}

/// A numeral is worth at least as much as each of its prefixes.
pub proof fn lemma_prefix_value(s: Seq<char>, k: int)
    requires
        0 <= k <= s.len(),
    ensures
        decimal_value(s.take(k)) <= decimal_value(s),
    decreases s.len(),
{
    if k == s.len() {
        assert(s.take(k) =~= s);
    } else {
        assert(s.drop_last().take(k) =~= s.take(k));
        lemma_prefix_value(s.drop_last(), k);
    }
}

/// Reads the digits of `val` that follow its first `skip` characters.
pub(crate) fn parse_decimal(
    val: &str,
    skip: usize,
    negative: bool,
    min: i128,
    max: i128,
) -> (r: Option<i128>)
    requires
        skip <= val@.len(),
        -0x1_0000_0000_0000_0000_0000 <= min <= 0,
        0 <= max <= 0x1_0000_0000_0000_0000_0000,
    ensures
        r matches Some(v) ==> bounded_decimal(
            val@.skip(skip as int),
            negative,
            min as int,
            max as int,
        ) == Some(v as int),
        r is None ==> bounded_decimal(
            val@.skip(skip as int),
            negative,
            min as int,
            max as int,
        ) is None,
{
    let mut it = val.chars();
    let mut skipped: usize = 0;
    while skipped < skip
        invariant
            skipped <= skip <= val@.len(),
            it.remaining() == val@.skip(skipped as int),
        decreases skip - skipped,
    {
        match it.next() {
            None => {
                return None;
            },
            Some(_) => {
                assert(val@.skip(skipped as int).drop_first() =~= val@.skip(skipped + 1));
                skipped = skipped + 1;
            },
        }
    }
    let ghost digits = val@.skip(skip as int);
    let ghost mut seen: int = 0;
    let mut acc: i128 = 0;
    let mut any = false;
    loop
        invariant
            -0x1_0000_0000_0000_0000_0000 <= min <= 0,
            0 <= max <= 0x1_0000_0000_0000_0000_0000,
            digits == val@.skip(skip as int),
            0 <= seen <= digits.len(),
            it.remaining() == digits.skip(seen),
            all_digits(digits.take(seen)),
            acc == signed_value(digits.take(seen), negative),
            min <= acc <= max,
            any == (seen > 0),
        decreases digits.len() - seen,
    {
        match it.next() {
            None => {
                assert(digits.take(seen) =~= digits);
                if any {
                    return Some(acc);
                } else {
                    return None;
                }
            },
            Some(c) => {
                assert(c == digits[seen]);
                if !(c >= '0' && c <= '9') {
                    return None;
                }
                let d: i128 = (c as u32 - '0' as u32) as i128;
                let next: i128 = if negative {
                    acc * 10 - d
                } else {
                    acc * 10 + d
                };
                proof {
                    let longer = digits.take(seen + 1);
                    assert(longer.drop_last() =~= digits.take(seen));
                    assert(longer.last() == c);
                    assert(next == signed_value(longer, negative));
                    assert(all_digits(longer)) by {
                        assert forall|i: int| 0 <= i < longer.len() implies is_digit(
                            #[trigger] longer[i],
                        ) by {
                            if i < seen {
                                assert(longer[i] == digits.take(seen)[i]);
                            }
                        }
                    }
                    assert(digits.skip(seen).drop_first() =~= digits.skip(seen + 1));
                    lemma_prefix_value(digits, seen + 1);
                }
                if next < min || next > max {
                    return None;
                }
                acc = next;
                any = true;
                proof {
                    seen = seen + 1;
                }
            },
        }
    }
}


/// The integer that `s` writes: an optional `+`, or `-` where `signed`,
/// then one or more ASCII digits, with the value within `min..=max`.
pub open spec fn integer_value(s: Seq<char>, signed: bool, min: int, max: int) -> Option<int> {
    if s.len() > 0 && s[0] == '+' {
        bounded_decimal(s.skip(1), false, min, max)
    } else if signed && s.len() > 0 && s[0] == '-' {
        bounded_decimal(s.skip(1), true, min, max)
    } else {
        bounded_decimal(s, false, min, max)
    }
}

/// The first character of `val`, if it has one.
pub fn first_char(val: &str) -> (first: Option<char>)
    ensures
        val@.len() == 0 ==> first is None,
        val@.len() > 0 ==> first == Some(val@[0]),
{
    let mut it = val.chars();
    it.next()
}

/// Reads an integer as [`integer_value`] defines it.
pub(crate) fn parse_integer(val: &str, signed: bool, min: i128, max: i128) -> (r: Option<i128>)
    requires
        -0x1_0000_0000_0000_0000_0000 <= min <= 0,
        0 <= max <= 0x1_0000_0000_0000_0000_0000,
    ensures
        r matches Some(v) ==> integer_value(val@, signed, min as int, max as int) == Some(v as int),
        r is None ==> integer_value(val@, signed, min as int, max as int) is None,
{
    match first_char(val) {
        Some('+') => parse_decimal(val, 1, false, min, max),
        Some('-') => {
            if signed {
                parse_decimal(val, 1, true, min, max)
            } else {
                assert(!is_digit(val@[0]));
                assert(val@.skip(0) =~= val@);
                None
            }
        },
        _ => {
            assert(val@.skip(0) =~= val@);
            parse_decimal(val, 0, false, min, max)
        },
    }
}

/// Reads a signed 64-bit integer.
pub fn parse_i64(val: &str) -> (r: Option<i64>)
    ensures
        r matches Some(v) ==> integer_value(val@, true, i64::MIN as int, i64::MAX as int) == Some(
            v as int,
        ),
        r is None ==> integer_value(val@, true, i64::MIN as int, i64::MAX as int) is None,
{
    match parse_integer(val, true, i64::MIN as i128, i64::MAX as i128) {
        Some(v) => Some(v as i64),
        None => None,
    }
}


/// An integer type that is read from decimal text as the standard library
/// reads it: an optional `+`, for a signed type an optional `-`, then one or
/// more ASCII digits that write a value of the type.
pub trait Decimal: Sized {
    /// The value that `text` writes, if it writes one of this type.
    spec fn read_spec(text: Seq<char>) -> Option<Self>;

    /// Reads a value of this type.
    fn read(text: &str) -> (r: Option<Self>)
        ensures
            r == Self::read_spec(text@),
    ;
}

impl Decimal for i32 {
    open spec fn read_spec(text: Seq<char>) -> Option<i32> {
        match integer_value(text, true, i32::MIN as int, i32::MAX as int) {
            Some(v) => Some(v as i32),
            None => None,
        }
    }

    fn read(text: &str) -> (r: Option<i32>) {
        match parse_integer(text, true, i32::MIN as i128, i32::MAX as i128) {
            Some(v) => Some(v as i32),
            None => None,
        }
    }
}

impl Decimal for i64 {
    open spec fn read_spec(text: Seq<char>) -> Option<i64> {
        match integer_value(text, true, i64::MIN as int, i64::MAX as int) {
            Some(v) => Some(v as i64),
            None => None,
        }
    }

    fn read(text: &str) -> (r: Option<i64>) {
        parse_i64(text)
    }
}

impl Decimal for u32 {
    open spec fn read_spec(text: Seq<char>) -> Option<u32> {
        match integer_value(text, false, 0, u32::MAX as int) {
            Some(v) => Some(v as u32),
            None => None,
        }
    }

    fn read(text: &str) -> (r: Option<u32>) {
        match parse_integer(text, false, 0, u32::MAX as i128) {
            Some(v) => Some(v as u32),
            None => None,
        }
    }
}

impl Decimal for u64 {
    open spec fn read_spec(text: Seq<char>) -> Option<u64> {
        match integer_value(text, false, 0, u64::MAX as int) {
            Some(v) => Some(v as u64),
            None => None,
        }
    }

    fn read(text: &str) -> (r: Option<u64>) {
        match parse_integer(text, false, 0, u64::MAX as i128) {
            Some(v) => Some(v as u64),
            None => None,
        }
    }
}

impl Decimal for usize {
    open spec fn read_spec(text: Seq<char>) -> Option<usize> {
        match integer_value(text, false, 0, usize::MAX as int) {
            Some(v) => Some(v as usize),
            None => None,
        }
    }

    fn read(text: &str) -> (r: Option<usize>) {
        match parse_integer(text, false, 0, usize::MAX as i128) {
            Some(v) => Some(v as usize),
            None => None,
        }
    }
}

} // verus!
