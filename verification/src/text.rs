//! Text as sequences of characters: building strings, writing numbers,
//! padding, white space, the order of strings, lower case and UTF-8.

use crate::decimal::{all_digits, decimal_value, is_digit};
use crate::failure::Failure;
use vstd::prelude::*;
use vstd::std_specs::iter::IteratorSpec;
use vstd::string::{StringExecFns, StringSliceAdditionalSpecFns};
use vstd::utf8::{decode_utf8, valid_utf8};

verus! {

/// `String::push` appends one character. Trusted, as the standard library
/// documents it.
pub assume_specification[ String::push ](text: &mut String, ch: char)
    ensures
        final(text)@ == old(text)@.push(ch),
;

/// The digit that writes `d`, for `d` below ten.
pub open spec fn digit_char(d: nat) -> char {
    (d + 0x30) as char
}

/// `n` written in base ten, without leading zeros.
pub open spec fn decimal_text(n: nat) -> Seq<char>
    decreases n,
{
    if n < 10 {
        seq![digit_char(n)]
    } else {
        decimal_text(n / 10).push(digit_char(n % 10))
    }
}

/// `width` times the character `fill`.
pub open spec fn repeated(fill: char, width: nat) -> Seq<char> {
    Seq::new(width, |i: int| fill)
}

/// How many characters `text` is short of `width`.
pub open spec fn shortfall(text: Seq<char>, width: nat) -> nat {
    if text.len() < width {
        (width - text.len()) as nat
    } else {
        0
    }
}

/// `text` behind as many spaces as bring it to `width` characters.
pub open spec fn pad_left(text: Seq<char>, width: nat) -> Seq<char> {
    repeated(' ', shortfall(text, width)) + text
}

/// `text` before as many spaces as bring it to `width` characters.
pub open spec fn pad_right(text: Seq<char>, width: nat) -> Seq<char> {
    text + repeated(' ', shortfall(text, width))
}

/// What is written for a number is read back as that number.
pub proof fn lemma_decimal_text_value(n: nat)
    ensures
        decimal_text(n).len() > 0,
        all_digits(decimal_text(n)),
        decimal_value(decimal_text(n)) == n,
    decreases n,
{
    if n < 10 {
        let s = seq![digit_char(n)];
        assert(s.drop_last().len() == 0);
        assert(decimal_value(s.drop_last()) == 0);
        assert(s.last() == digit_char(n));
    } else {
        lemma_decimal_text_value(n / 10);
        let front = decimal_text(n / 10);
        let s = front.push(digit_char(n % 10));
        assert(s.drop_last() =~= front);
        assert(s.last() == digit_char(n % 10));
        assert forall|i: int| 0 <= i < s.len() implies is_digit(#[trigger] s[i]) by {
            if i < front.len() {
                assert(s[i] == front[i]);
            }
        }
    }
}

/// Appends `count` times the character `fill` to `text`.
pub fn push_repeated(text: &mut String, fill: char, count: usize)
    ensures
        final(text)@ == old(text)@ + repeated(fill, count as nat),
{
    let mut i: usize = 0;
    proof {
        assert(text@ + repeated(fill, 0) =~= text@);
    }
    while i < count
        invariant
            i <= count,
            text@ == old(text)@ + repeated(fill, i as nat),
        decreases count - i,
    {
        text.push(fill);
        proof {
            assert(repeated(fill, i as nat).push(fill) =~= repeated(fill, (i + 1) as nat));
            assert((old(text)@ + repeated(fill, i as nat)).push(fill) =~= old(text)@ + repeated(
                fill,
                (i + 1) as nat,
            ));
        }
        i = i + 1;
    }
}

/// Writes `n` in base ten.
pub fn decimal_string(n: u64) -> (text: String)
    ensures
        text@ == decimal_text(n as nat),
{
    let mut low_first: Vec<u8> = Vec::new();
    let mut rest: u64 = n;
    while rest >= 10
        invariant
            forall|i: int| 0 <= i < low_first.len() ==> low_first[i] < 10,
            decimal_text(n as nat) == decimal_text(rest as nat) + Seq::new(
                low_first.len() as nat,
                |i: int| digit_char(low_first[low_first.len() - 1 - i] as nat),
            ),
        decreases rest,
    {
        let ghost before = low_first@;
        low_first.push((rest % 10) as u8);
        proof {
            let tail_before = Seq::new(
                before.len() as nat,
                |i: int| digit_char(before[before.len() - 1 - i] as nat),
            );
            let tail_after = Seq::new(
                low_first.len() as nat,
                |i: int| digit_char(low_first[low_first.len() - 1 - i] as nat),
            );
            assert(decimal_text((rest / 10) as nat).push(digit_char((rest % 10) as nat))
                + tail_before =~= decimal_text((rest / 10) as nat) + tail_after);
        }
        rest = rest / 10;
    }
    let mut text = String::new();
    text.push((rest as u8 + 0x30) as char);
    let mut i: usize = low_first.len();
    while i > 0
        invariant
            i <= low_first.len(),
            rest < 10,
            forall|j: int| 0 <= j < low_first.len() ==> low_first[j] < 10,
            text@ == seq![digit_char(rest as nat)] + Seq::new(
                (low_first.len() - i) as nat,
                |j: int| digit_char(low_first[low_first.len() - 1 - j] as nat),
            ),
        decreases i,
    {
        i = i - 1;
        let ghost before = text@;
        text.push((low_first[i] + 0x30) as char);
        proof {
            assert(text@ =~= seq![digit_char(rest as nat)] + Seq::new(
                (low_first.len() - i) as nat,
                |j: int| digit_char(low_first[low_first.len() - 1 - j] as nat),
            ));
        }
    }
    text
}


/// `c` has the Unicode property `White_Space`.
pub open spec fn is_whitespace(c: char) -> bool {
    let code = c as u32;
    ||| 0x0009 <= code <= 0x000d
    ||| code == 0x0020
    ||| code == 0x0085
    ||| code == 0x00a0
    ||| code == 0x1680
    ||| 0x2000 <= code <= 0x200a
    ||| code == 0x2028
    ||| code == 0x2029
    ||| code == 0x202f
    ||| code == 0x205f
    ||| code == 0x3000
}

/// Tells whether `c` is white space.
pub fn char_is_whitespace(c: char) -> (r: bool)
    ensures
        r == is_whitespace(c),
{
    let code: u32 = c as u32;
    (0x0009 <= code && code <= 0x000d) || code == 0x0020 || code == 0x0085 || code == 0x00a0
        || code == 0x1680 || (0x2000 <= code && code <= 0x200a) || code == 0x2028 || code
        == 0x2029 || code == 0x202f || code == 0x205f || code == 0x3000
}

/// How many words `s` holds: runs of characters that are not white space.
/// Each word is counted where it ends.
pub open spec fn word_count(s: Seq<char>) -> nat
    decreases s.len(),
{
    if s.len() == 0 {
        0
    } else {
        word_count(s.drop_last()) + if ends_word(s.drop_last()) && is_whitespace(s.last()) {
            1nat
        } else {
            0nat
        }
    }
}

/// `s` ends in a character that is not white space.
pub open spec fn ends_word(s: Seq<char>) -> bool {
    s.len() > 0 && !is_whitespace(s.last())
}

/// How many words `s` holds, one at its end included.
pub open spec fn total_words(s: Seq<char>) -> nat {
    word_count(s) + if ends_word(s) {
        1nat
    } else {
        0nat
    }
}

/// How many times `s` holds the character `c`.
pub open spec fn occurrences(s: Seq<char>, c: char) -> nat
    decreases s.len(),
{
    if s.len() == 0 {
        0
    } else {
        occurrences(s.drop_last(), c) + if s.last() == c {
            1nat
        } else {
            0nat
        }
    }
}

/// How many lines `s` holds: one for each newline, and one for what
/// follows the last newline, if anything does.
pub open spec fn total_lines(s: Seq<char>) -> nat {
    occurrences(s, '\n') + if s.len() > 0 && s.last() != '\n' {
        1nat
    } else {
        0nat
    }
}

/// There are no more words or lines than characters.
pub proof fn lemma_counts_bound(s: Seq<char>)
    ensures
        total_words(s) <= s.len(),
        total_lines(s) <= s.len(),
        occurrences(s, '\n') <= total_lines(s),
        word_count(s) <= total_words(s),
    decreases s.len(),
{
    if s.len() > 0 {
        lemma_counts_bound(s.drop_last());
    }
}


/// `pieces` with `between` between each two of them.
pub open spec fn join_with(pieces: Seq<Seq<char>>, between: Seq<char>) -> Seq<char>
    decreases pieces.len(),
{
    if pieces.len() == 0 {
        Seq::empty()
    } else if pieces.len() == 1 {
        pieces[0]
    } else {
        join_with(pieces.drop_last(), between) + between + pieces.last()
    }
}

/// Puts `pieces` together with `between` between each two of them.
pub fn join(pieces: &Vec<String>, between: &str) -> (text: String)
    ensures
        text@ == join_with(crate::split::texts(pieces@), between@),
{
    let ghost all = crate::split::texts(pieces@);
    let mut text = String::new();
    let mut i: usize = 0;
    proof {
        assert(all.take(0) =~= Seq::<Seq<char>>::empty());
    }
    while i < pieces.len()
        invariant
            i <= pieces@.len(),
            all == crate::split::texts(pieces@),
            text@ == join_with(all.take(i as int), between@),
        decreases pieces@.len() - i,
    {
        proof {
            let longer = all.take(i + 1);
            assert(longer.drop_last() =~= all.take(i as int));
            assert(longer.last() == pieces@[i as int]@);
            if i == 0 {
                assert(Seq::<char>::empty() + pieces@[0]@ =~= pieces@[0]@);
            }
        }
        if i > 0 {
            text.append(between);
        }
        text.append(pieces[i].as_str());
        i = i + 1;
    }
    proof {
        assert(all.take(i as int) =~= all);
    }
    text
}


/// `s` without the white space at its end.
pub open spec fn trim_end(s: Seq<char>) -> Seq<char>
    decreases s.len(),
{
    if s.len() > 0 && is_whitespace(s.last()) {
        trim_end(s.drop_last())
    } else {
        s
    }
}

/// Copies `text` without the white space at its end.
pub fn trimmed_end(text: &str) -> (trimmed: String)
    ensures
        trimmed@ == trim_end(text@),
{
    let mut trimmed = text.to_owned();
    loop
        invariant
            trim_end(trimmed@) == trim_end(text@),
        decreases trimmed@.len(),
    {
        match trimmed.pop() {
            None => {
                return trimmed;
            },
            Some(c) => {
                if !char_is_whitespace(c) {
                    let ghost rest = trimmed@;
                    trimmed.push(c);
                    proof {
                        assert(trimmed@.last() == c);
                    }
                    return trimmed;
                }
            },
        }
    }
}

/// How the first of two values stands to the second.
#[derive(Debug, Clone, Copy, PartialEq, Eq, Structural)]
pub enum Rank {
    Before,
    Same,
    After,
}

/// How the text `a` stands to the text `b` in the order of strings: the
/// first character in which they differ decides, by its code point, and a
/// text goes before every text that it begins.
pub open spec fn rank(a: Seq<char>, b: Seq<char>) -> Rank
    decreases a.len(),
{
    if a.len() == 0 && b.len() == 0 {
        Rank::Same
    } else if a.len() == 0 {
        Rank::Before
    } else if b.len() == 0 {
        Rank::After
    } else if a[0] < b[0] {
        Rank::Before
    } else if a[0] > b[0] {
        Rank::After
    } else {
        rank(a.drop_first(), b.drop_first())
    }
}

/// Texts of the same rank are the same text.
pub proof fn lemma_rank_same(a: Seq<char>, b: Seq<char>)
    ensures
        rank(a, b) == Rank::Same <==> a == b,
    decreases a.len(),
{
    if a.len() > 0 && b.len() > 0 {
        if a[0] == b[0] {
            lemma_rank_same(a.drop_first(), b.drop_first());
            if a.drop_first() == b.drop_first() {
                assert(a =~= seq![a[0]] + a.drop_first());
                assert(b =~= seq![b[0]] + b.drop_first());
            }
        }
    } else if a.len() == 0 && b.len() == 0 {
        assert(a =~= b);
    }
}

/// Ranks `a` against `b` in the order of strings.
pub fn rank_texts(a: &str, b: &str) -> (r: Rank)
    ensures
        r == rank(a@, b@),
{
    let mut left = a.chars();
    let mut right = b.chars();
    let ghost mut seen: int = 0;
    proof {
        assert(a@.skip(0) =~= a@);
        assert(b@.skip(0) =~= b@);
    }
    loop
        invariant
            0 <= seen <= a@.len(),
            seen <= b@.len(),
            left.remaining() == a@.skip(seen),
            right.remaining() == b@.skip(seen),
            rank(a@, b@) == rank(a@.skip(seen), b@.skip(seen)),
        decreases a@.len() - seen,
    {
        let x = left.next();
        let y = right.next();
        match (x, y) {
            (None, None) => {
                return Rank::Same;
            },
            (None, Some(_)) => {
                return Rank::Before;
            },
            (Some(_), None) => {
                return Rank::After;
            },
            (Some(c), Some(d)) => {
                if c < d {
                    return Rank::Before;
                }
                if c > d {
                    return Rank::After;
                }
                proof {
                    assert(a@.skip(seen).drop_first() =~= a@.skip(seen + 1));
                    assert(b@.skip(seen).drop_first() =~= b@.skip(seen + 1));
                    seen = seen + 1;
                }
            },
        }
    }
}

/// `text` begins with `prefix`.
pub fn starts_with(text: &str, prefix: &str) -> (r: bool)
    ensures
        r == prefix@.is_prefix_of(text@),
{
    let mut whole = text.chars();
    let mut start = prefix.chars();
    let ghost mut seen: int = 0;
    proof {
        assert(text@.skip(0) =~= text@);
        assert(prefix@.skip(0) =~= prefix@);
    }
    loop
        invariant
            0 <= seen <= prefix@.len(),
            seen <= text@.len(),
            whole.remaining() == text@.skip(seen),
            start.remaining() == prefix@.skip(seen),
            prefix@.take(seen) == text@.take(seen),
        decreases prefix@.len() - seen,
    {
        match start.next() {
            None => {
                proof {
                    assert(prefix@.take(seen) =~= prefix@);
                    assert(prefix@ =~= text@.subrange(0, prefix@.len() as int));
                }
                return true;
            },
            Some(p) => {
                match whole.next() {
                    None => {
                        return false;
                    },
                    Some(c) => {
                        if c != p {
                            proof {
                                if prefix@.is_prefix_of(text@) {
                                    assert(text@.subrange(0, prefix@.len() as int)[seen]
                                        == prefix@[seen]);
                                }
                            }
                            return false;
                        }
                        proof {
                            assert(text@.skip(seen).drop_first() =~= text@.skip(seen + 1));
                            assert(prefix@.skip(seen).drop_first() =~= prefix@.skip(seen + 1));
                            assert(prefix@.take(seen + 1) =~= prefix@.take(seen).push(p));
                            assert(text@.take(seen + 1) =~= text@.take(seen).push(c));
                            seen = seen + 1;
                        }
                    },
                }
            },
        }
    }
}

/// `text` in lower case, as Unicode defines it.
pub uninterp spec fn lowercase(text: Seq<char>) -> Seq<char>;

/// `str::to_lowercase` hands out the text in lower case. Trusted: the
/// result is the value that [`lowercase`] names.
pub assume_specification[ str::to_lowercase ](text: &str) -> (lower: String)
    ensures
        lower@ == lowercase(text@),
;


/// `n` written in base ten, with a minus sign where it is negative.
pub open spec fn int_text(n: int) -> Seq<char> {
    if n < 0 {
        seq!['-'] + decimal_text((-n) as nat)
    } else {
        decimal_text(n as nat)
    }
}

/// Writes `n` in base ten.
pub fn int_string(n: i64) -> (text: String)
    ensures
        text@ == int_text(n as int),
{
    if n < 0 {
        let mut text = String::new();
        text.push('-');
        let magnitude: u64 = if n == i64::MIN {
            0x8000_0000_0000_0000
        } else {
            (-n) as u64
        };
        text.append(decimal_string(magnitude).as_str());
        proof {
            assert(Seq::<char>::empty().push('-') =~= seq!['-']);
        }
        text
    } else {
        decimal_string(n as u64)
    }
}

/// `text` in the middle of `width` characters: of the spaces that bring
/// it to that width, half go before it, and the odd one behind.
pub open spec fn centered(text: Seq<char>, width: nat) -> Seq<char> {
    let short = shortfall(text, width);
    repeated(' ', short / 2) + text + repeated(' ', (short - short / 2) as nat)
}

/// Copies `text` into the middle of `width` characters.
pub fn center(text: &str, width: usize) -> (out: String)
    ensures
        out@ == centered(text@, width as nat),
{
    let len = vstd::string::StrSliceExecFns::unicode_len(text);
    let short = if len < width {
        width - len
    } else {
        0
    };
    let mut out = String::new();
    push_repeated(&mut out, ' ', short / 2);
    out.append(text);
    push_repeated(&mut out, ' ', short - short / 2);
    proof {
        assert(out@ =~= centered(text@, width as nat));
    }
    out
}

/// Copies `text` behind the spaces that bring it to `width` characters.
pub fn pad_start(text: &str, width: usize) -> (out: String)
    ensures
        out@ == pad_left(text@, width as nat),
{
    let len = vstd::string::StrSliceExecFns::unicode_len(text);
    let mut out = String::new();
    if len < width {
        push_repeated(&mut out, ' ', width - len);
    }
    out.append(text);
    proof {
        assert(out@ =~= pad_left(text@, width as nat));
    }
    out
}

/// Copies `text` before the spaces that bring it to `width` characters.
pub fn pad_end(text: &str, width: usize) -> (out: String)
    ensures
        out@ == pad_right(text@, width as nat),
{
    let len = vstd::string::StrSliceExecFns::unicode_len(text);
    let mut out = String::from_str(text);
    if len < width {
        push_repeated(&mut out, ' ', width - len);
    }
    proof {
        assert(out@ =~= pad_right(text@, width as nat));
    }
    out
}

/// The error of `core::str::from_utf8`, which the library only tells from
/// success.
#[verifier::external_type_specification]
#[verifier::external_body]
pub struct ExUtf8Error(core::str::Utf8Error);

/// `core::str::from_utf8` accepts exactly the well-formed UTF-8, and the
/// text it hands out has the bytes it was given. Trusted, as the standard
/// library documents it.
pub assume_specification[ core::str::from_utf8 ](bytes: &[u8]) -> (r: Result<
    &str,
    core::str::Utf8Error,
>)
    ensures
        r is Ok <==> valid_utf8(bytes@),
        r matches Ok(text) ==> text.spec_bytes() == bytes@,
;

/// The message of the failure on input that is not UTF-8.
pub open spec fn not_utf8_message() -> Seq<char> {
    "stream did not contain valid UTF-8"@
}

/// Reads `data` as text, which it is where it is UTF-8.
pub fn text_of(data: &[u8]) -> (r: Result<&str, Failure>)
    ensures
        valid_utf8(data@) ==> r is Ok && r->Ok_0@ == decode_utf8(data@) && r->Ok_0.spec_bytes()
            == data@,
        !valid_utf8(data@) ==> r is Err && r->Err_0@ == not_utf8_message(),
{
    match core::str::from_utf8(data) {
        Ok(text) => {
            proof {
                vstd::utf8::encode_utf8_decode_utf8(text@);
            }
            Ok(text)
        },
        Err(_) => Err(Failure::from_text("stream did not contain valid UTF-8")),
    }
}

} // verus!
