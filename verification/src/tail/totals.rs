//! The counting pass: the lines and bytes of a stream, taken in piece by
//! piece without keeping any of it.

use crate::failure::Failure;
use crate::tail::lines::{
    ends_unfinished, lemma_line_count_bound, lemma_newline_count_concat, line_count,
    newline_count, NEWLINE,
};
use vstd::prelude::*;

verus! {

/// The running totals of a stream that is fed in pieces.
pub struct StreamTotals {
    newlines: i64,
    bytes: i64,
    unfinished: bool,
    seen: Ghost<Seq<u8>>,
}

impl StreamTotals {
    #[verifier::type_invariant]
    spec fn well_formed(self) -> bool {
        &&& self.bytes == self.seen@.len()
        &&& self.newlines == newline_count(self.seen@)
        &&& self.unfinished == ends_unfinished(self.seen@)
    }

    /// All the bytes fed so far, in order.
    pub closed spec fn seen(&self) -> Seq<u8> {
        self.seen@
    }

    /// The totals of a stream of which nothing was read yet.
    pub fn new() -> (totals: StreamTotals)
        ensures
            totals.seen() == Seq::<u8>::empty(),
    {
        StreamTotals { newlines: 0, bytes: 0, unfinished: false, seen: Ghost(Seq::empty()) }
    }

    /// Takes in the next piece of the stream.
    pub fn feed(&mut self, chunk: &[u8])
        requires
            old(self).seen().len() + chunk@.len() <= i64::MAX,
        ensures
            final(self).seen() == old(self).seen() + chunk@,
    {
        proof {
            use_type_invariant(&*self);
        }
        let ghost before = self.seen@;
        let mut newlines: i64 = self.newlines;
        let mut unfinished: bool = self.unfinished;
        let mut i: usize = 0;
        while i < chunk.len()
            invariant
                i <= chunk@.len(),
                before.len() + chunk@.len() <= i64::MAX,
                newlines == newline_count(before + chunk@.take(i as int)),
                unfinished == ends_unfinished(before + chunk@.take(i as int)),
            decreases chunk@.len() - i,
        {
            proof {
                let longer = before + chunk@.take(i + 1);
                assert(longer.drop_last() =~= before + chunk@.take(i as int));
                assert(longer.last() == chunk@[i as int]);
                lemma_line_count_bound(longer);
            }
            if chunk[i] == NEWLINE {
                newlines = newlines + 1;
                unfinished = false;
            } else {
                unfinished = true;
            }
            i = i + 1;
        }
        proof {
            assert(chunk@.take(i as int) =~= chunk@);
        }
        let bytes: i64 = self.bytes + chunk.len() as i64;
        *self = StreamTotals { newlines, bytes, unfinished, seen: Ghost(before + chunk@) };
    }

    /// How many lines were fed so far.
    pub fn total_lines(&self) -> (n: i64)
        ensures
            n == line_count(self.seen()),
    {
        proof {
            use_type_invariant(self);
            lemma_line_count_bound(self.seen@);
        }
        if self.unfinished {
            self.newlines + 1
        } else {
            self.newlines
        }
    }

    /// How many bytes were fed so far.
    pub fn total_bytes(&self) -> (n: i64)
        ensures
            n == self.seen().len(),
    {
        proof {
            use_type_invariant(self);
        }
        self.bytes
    }
}

/// The message of the failure on data that is too long to count.
pub open spec fn too_long_message() -> Seq<char> {
    "too many bytes to count"@
}

/// The lines and the bytes of `data`, in this order, where their numbers
/// fit in 64 bits.
pub fn count_lines_bytes(data: &[u8]) -> (r: Result<(i64, i64), Failure>)
    ensures
        data@.len() <= i64::MAX ==> r == Ok::<(i64, i64), Failure>(
            (line_count(data@) as i64, data@.len() as i64),
        ),
        data@.len() > i64::MAX ==> r is Err && r->Err_0@ == too_long_message(),
{
    if data.len() as u64 > i64::MAX as u64 {
        return Err(Failure::from_text("too many bytes to count"));
    }
    let mut running = StreamTotals::new();
    running.feed(data);
    proof {
        assert(Seq::<u8>::empty() + data@ =~= data@);
    }
    Ok((running.total_lines(), running.total_bytes()))
}

/// Feeding a stream in two pieces counts what feeding it at once counts.
pub proof fn lemma_line_count_concat(a: Seq<u8>, b: Seq<u8>)
    ensures
        line_count(a + b) == if b.len() > 0 {
            newline_count(a) + line_count(b)
        } else {
            line_count(a)
        },
{
    lemma_newline_count_concat(a, b);
    if b.len() > 0 {
        assert((a + b).last() == b.last());
    } else {
        assert(a + b =~= a);
    }
}

} // verus!
