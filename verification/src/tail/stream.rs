//! The printing pass: which bytes of a stream are printed.

use crate::failure::Failure;
use crate::tail::lines::{
    drop_lines, lemma_drop_lines_concat, lemma_drop_lines_count, lemma_drop_lines_short,
    lemma_line_count_bound, lemma_newline_count_concat, line_count, newline_count, NEWLINE,
};
use crate::tail::take::TakeValue;
use crate::tail::totals::{count_lines_bytes, too_long_message};
use crate::tail::window::{get_start_index, start_index};
use vstd::prelude::*;

verus! {

/// How many of `k` lines are still to be dropped behind `data`.
pub open spec fn lines_left(data: Seq<u8>, k: nat) -> nat {
    if newline_count(data) >= k {
        0
    } else {
        (k - newline_count(data)) as nat
    }
}

/// Finds where `data` continues behind its first `k` lines, and how many of
/// the `k` lines it fell short.
pub fn skip_lines(data: &[u8], k: u64) -> (r: (usize, u64))
    ensures
        r.0 <= data@.len(),
        data@.skip(r.0 as int) == drop_lines(data@, k as nat),
        r.1 == lines_left(data@, k as nat),
{
    let mut i: usize = 0;
    let mut left: u64 = k;
    proof {
        assert(data@.skip(0) =~= data@);
        assert(data@.take(0).len() == 0);
    }
    while i < data.len() && left > 0
        invariant
            i <= data@.len(),
            left <= k,
            newline_count(data@.take(i as int)) == k - left,
            drop_lines(data@, k as nat) == drop_lines(data@.skip(i as int), left as nat),
        decreases data@.len() - i,
    {
        proof {
            let rest = data@.skip(i as int);
            assert(rest[0] == data@[i as int]);
            assert(rest.drop_first() =~= data@.skip(i + 1));
            let longer = data@.take(i + 1);
            assert(longer.drop_last() =~= data@.take(i as int));
            assert(longer.last() == data@[i as int]);
        }
        if data[i] == NEWLINE {
            left = left - 1;
        }
        i = i + 1;
    }
    proof {
        let front = data@.take(i as int);
        let rest = data@.skip(i as int);
        assert(front + rest =~= data@);
        lemma_newline_count_concat(front, rest);
        if i == data@.len() {
            assert(rest.len() == 0);
            assert(newline_count(rest) == 0);
        }
    }
    (i, left)
}

/// The printing pass over a stream that comes in pieces: it drops the
/// first lines and passes on what follows them.
pub struct LineWindow {
    left: u64,
    start: Ghost<nat>,
    seen: Ghost<Seq<u8>>,
}

impl LineWindow {
    #[verifier::type_invariant]
    spec fn well_formed(self) -> bool {
        self.left == lines_left(self.seen@, self.start@)
    }

    /// The zero-based line at which printing starts.
    pub closed spec fn start(&self) -> nat {
        self.start@
    }

    /// All the bytes fed so far, in order.
    pub closed spec fn seen(&self) -> Seq<u8> {
        self.seen@
    }

    /// All the bytes passed on so far, in order.
    pub open spec fn passed(&self) -> Seq<u8> {
        drop_lines(self.seen(), self.start())
    }

    /// A pass that will print from line `start` on, counted from zero.
    pub fn new(start: u64) -> (window: LineWindow)
        ensures
            window.start() == start,
            window.seen() == Seq::<u8>::empty(),
    {
        LineWindow { left: start, start: Ghost(start as nat), seen: Ghost(Seq::empty()) }
    }

    /// Takes in the next piece of the stream and says from which of its
    /// bytes on it is printed: from `offset` to its end.
    pub fn feed(&mut self, chunk: &[u8]) -> (offset: usize)
        ensures
            offset <= chunk@.len(),
            final(self).start() == old(self).start(),
            final(self).seen() == old(self).seen() + chunk@,
            final(self).passed() == old(self).passed() + chunk@.skip(offset as int),
    {
        proof {
            use_type_invariant(&*self);
        }
        let ghost before = self.seen@;
        let ghost start = self.start@;
        let (offset, left) = skip_lines(chunk, self.left);
        proof {
            lemma_drop_lines_concat(before, chunk@, start);
            lemma_newline_count_concat(before, chunk@);
            if newline_count(before) >= start {
                assert(chunk@.skip(0) =~= chunk@);
            } else {
                lemma_drop_lines_short(before, start);
                assert(drop_lines(before, start) + chunk@.skip(offset as int) =~= chunk@.skip(
                    offset as int,
                ));
            }
        }
        *self = LineWindow { left, start: Ghost(start), seen: Ghost(before + chunk@) };
        offset
    }
}

/// What line mode prints of `data`, for a count and a number of lines.
pub open spec fn selected_lines(data: Seq<u8>, num_lines: TakeValue, total_lines: i64) -> Seq<u8> {
    match start_index(num_lines, total_lines) {
        Some(start) => drop_lines(data, start as nat),
        None => Seq::empty(),
    }
}

/// What byte mode prints of `data`, for a count and a number of bytes.
pub open spec fn selected_bytes(data: Seq<u8>, num_bytes: TakeValue, total_bytes: i64) -> Seq<u8> {
    match start_index(num_bytes, total_bytes) {
        Some(start) => if start <= data.len() {
            data.skip(start as int)
        } else {
            Seq::empty()
        },
        None => Seq::empty(),
    }
}

/// What is printed of a stream that holds `data`: by bytes where a byte
/// count is given, else by lines.
pub open spec fn tail_spec(data: Seq<u8>, lines: TakeValue, bytes: Option<TakeValue>) -> Seq<u8> {
    match bytes {
        Some(num_bytes) => selected_bytes(data, num_bytes, data.len() as i64),
        None => selected_lines(data, lines, line_count(data) as i64),
    }
}

/// The part of `data` that line mode prints.
pub fn select_lines<'a>(data: &'a [u8], num_lines: &TakeValue, total_lines: i64) -> (out: &'a [u8])
    ensures
        out@ == selected_lines(data@, *num_lines, total_lines),
{
    match get_start_index(num_lines, total_lines) {
        Some(start) => {
            let (offset, _) = skip_lines(data, start);
            let out = &data[offset..data.len()];
            proof {
                assert(out@ =~= data@.skip(offset as int));
            }
            out
        },
        None => {
            let out = &data[0..0];
            proof {
                assert(out@ =~= Seq::<u8>::empty());
            }
            out
        },
    }
}

/// The part of `data` that byte mode prints.
pub fn select_bytes<'a>(data: &'a [u8], num_bytes: &TakeValue, total_bytes: i64) -> (out: &'a [u8])
    ensures
        out@ == selected_bytes(data@, *num_bytes, total_bytes),
{
    let offset: usize = match get_start_index(num_bytes, total_bytes) {
        Some(start) => {
            if start <= data.len() as u64 {
                start as usize
            } else {
                data.len()
            }
        },
        None => data.len(),
    };
    let out = &data[offset..data.len()];
    proof {
        assert(out@ =~= data@.skip(offset as int));
        assert(data@.skip(data@.len() as int) =~= Seq::<u8>::empty());
    }
    out
}

/// The part of `data` that is printed: both passes over a stream that is
/// held in memory. It fails only on data that is too long to count.
pub fn tail<'a>(data: &'a [u8], lines: &TakeValue, bytes: Option<&TakeValue>) -> (r: Result<
    &'a [u8],
    Failure,
>)
    ensures
        data@.len() <= i64::MAX ==> r is Ok && r->Ok_0@ == tail_spec(
            data@,
            *lines,
            match bytes {
                Some(num_bytes) => Some(*num_bytes),
                None => None,
            },
        ),
        data@.len() > i64::MAX ==> r is Err && r->Err_0@ == too_long_message(),
{
    let (total_lines, total_bytes) = match count_lines_bytes(data) {
        Ok(totals) => totals,
        Err(failure) => {
            return Err(failure);
        },
    };
    Ok(
        match bytes {
            Some(num_bytes) => select_bytes(data, num_bytes, total_bytes),
            None => select_lines(data, lines, total_lines),
        },
    )
}

/// Of an empty stream nothing is printed, whatever was asked for.
pub proof fn lemma_tail_of_nothing(lines: TakeValue, bytes: Option<TakeValue>)
    ensures
        tail_spec(Seq::empty(), lines, bytes).len() == 0,
        start_index(lines, 0) is None,
        bytes matches Some(num_bytes) ==> start_index(num_bytes, 0) is None,
{
}

/// A negative count `-n` prints the last `n` lines, or all of them where
/// there are fewer, and what is printed is an end of the stream.
pub proof fn lemma_last_lines(data: Seq<u8>, n: i64)
    requires
        n < 0,
        data.len() <= i64::MAX,
    ensures
        ({
            let out = tail_spec(data, TakeValue::TakeNum(n), None);
            &&& line_count(out) == if line_count(data) + n > 0 {
                -n
            } else {
                line_count(data) as int
            }
            &&& out.len() <= data.len()
            &&& out == data.skip(data.len() - out.len())
        }),
{
    lemma_line_count_bound(data);
    let total = line_count(data);
    if total == 0 {
        assert(data.skip(data.len() as int) =~= Seq::<u8>::empty());
    } else {
        let start: nat = if total + n > 0 {
            (total + n) as nat
        } else {
            0
        };
        lemma_drop_lines_count(data, start);
        crate::tail::lines::lemma_drop_lines_suffix(data, start);
    }
}

/// A positive count `n` prints from the `n`-th byte on, counted from one,
/// and nothing where the stream is shorter.
pub proof fn lemma_bytes_from(data: Seq<u8>, n: i64)
    requires
        n > 0,
        data.len() <= i64::MAX,
    ensures
        tail_spec(data, TakeValue::PlusZero, Some(TakeValue::TakeNum(n))) == if n <= data.len() {
            data.skip(n - 1)
        } else {
            Seq::empty()
        },
{
}

/// A negative count `-n` prints the last `n` bytes, or all of them where
/// there are fewer.
pub proof fn lemma_last_bytes(data: Seq<u8>, n: i64)
    requires
        n < 0,
        data.len() <= i64::MAX,
    ensures
        tail_spec(data, TakeValue::PlusZero, Some(TakeValue::TakeNum(n))) == if data.len() + n
            > 0 {
            data.skip(data.len() + n)
        } else {
            data
        },
{
    if data.len() + n <= 0 {
        assert(data.skip(0) =~= data);
        if data.len() == 0 {
            assert(data =~= Seq::<u8>::empty());
        }
    }
}

} // verus!
