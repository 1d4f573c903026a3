//! Lines in a stream of bytes: how many there are, and what is left when
//! the first of them are dropped.
//!
//! A line is a run of bytes that ends with a newline byte, which belongs to
//! it. Bytes after the last newline are a line too.

use vstd::prelude::*;

verus! {

/// The byte that ends a line.
pub const NEWLINE: u8 = 0x0a;

/// How many newline bytes `data` holds.
pub open spec fn newline_count(data: Seq<u8>) -> nat
    decreases data.len(),
{
    if data.len() == 0 {
        0
    } else {
        newline_count(data.drop_last()) + if data.last() == NEWLINE {
            1nat
        } else {
            0nat
        }
    }
}

/// `data` ends in the middle of a line.
pub open spec fn ends_unfinished(data: Seq<u8>) -> bool {
    data.len() > 0 && data.last() != NEWLINE
}

/// How many lines `data` holds, an unfinished last one included.
pub open spec fn line_count(data: Seq<u8>) -> nat {
    newline_count(data) + if ends_unfinished(data) {
        1nat
    } else {
        0nat
    }
}

/// What is left of `data` without its first `k` lines; nothing where it
/// has no more than `k`.
pub open spec fn drop_lines(data: Seq<u8>, k: nat) -> Seq<u8>
    decreases data.len(),
{
    if k == 0 || data.len() == 0 {
        data
    } else if data[0] == NEWLINE {
        drop_lines(data.drop_first(), (k - 1) as nat)
    } else {
        drop_lines(data.drop_first(), k)
    }
}

/// The newlines of two pieces add up.
pub proof fn lemma_newline_count_concat(a: Seq<u8>, b: Seq<u8>)
    ensures
        newline_count(a + b) == newline_count(a) + newline_count(b),
    decreases b.len(),
{
    if b.len() == 0 {
        assert(a + b =~= a);
    } else {
        assert((a + b).drop_last() =~= a + b.drop_last());
        lemma_newline_count_concat(a, b.drop_last());
    }
}

/// The newlines of data are that of its first byte and those of the rest.
pub proof fn lemma_newline_count_first(data: Seq<u8>)
    requires
        data.len() > 0,
    ensures
        newline_count(data) == newline_count(data.drop_first()) + if data[0] == NEWLINE {
            1nat
        } else {
            0nat
        },
{
    let head = seq![data[0]];
    assert(head + data.drop_first() =~= data);
    lemma_newline_count_concat(head, data.drop_first());
    assert(head.drop_last().len() == 0);
    assert(newline_count(head.drop_last()) == 0);
}

/// There are no more lines than bytes.
pub proof fn lemma_line_count_bound(data: Seq<u8>)
    ensures
        newline_count(data) <= line_count(data) <= data.len(),
    decreases data.len(),
{
    if data.len() > 0 {
        lemma_line_count_bound(data.drop_last());
    }
}

/// Dropping lines from two pieces in a row: the drop ends in the first
/// piece where that has enough newlines, else it goes on in the second.
pub proof fn lemma_drop_lines_concat(a: Seq<u8>, b: Seq<u8>, k: nat)
    ensures
        drop_lines(a + b, k) == if newline_count(a) >= k {
            drop_lines(a, k) + b
        } else {
            drop_lines(b, (k - newline_count(a)) as nat)
        },
    decreases a.len(),
{
    if a.len() == 0 {
        assert(a + b =~= b);
        if k == 0 {
            assert(drop_lines(a, k) + b =~= b);
        }
    } else if k == 0 {
    } else {
        lemma_newline_count_first(a);
        assert((a + b).drop_first() =~= a.drop_first() + b);
        if a[0] == NEWLINE {
            lemma_drop_lines_concat(a.drop_first(), b, (k - 1) as nat);
        } else {
            lemma_drop_lines_concat(a.drop_first(), b, k);
        }
    }
}

/// Dropping lines leaves an end of the data, and dropping as many lines as
/// there are leaves nothing.
pub proof fn lemma_drop_lines_suffix(data: Seq<u8>, k: nat)
    ensures
        drop_lines(data, k).len() <= data.len(),
        drop_lines(data, k) == data.skip(data.len() - drop_lines(data, k).len()),
        k >= line_count(data) && k > 0 ==> drop_lines(data, k).len() == 0,
    decreases data.len(),
{
    if k == 0 || data.len() == 0 {
        assert(data.skip(0) =~= data);
    } else {
        let rest = data.drop_first();
        lemma_newline_count_first(data);
        let k1 = if data[0] == NEWLINE {
            (k - 1) as nat
        } else {
            k
        };
        lemma_drop_lines_suffix(rest, k1);
        let kept = drop_lines(rest, k1);
        assert(rest.skip(rest.len() - kept.len()) =~= data.skip(data.len() - kept.len()));
        if rest.len() > 0 {
            assert(rest.last() == data.last());
        }
        if k >= line_count(data) {
            if k1 == 0 {
                assert(newline_count(rest) == 0);
                assert(line_count(data) <= 1);
                assert(!ends_unfinished(data));
                assert(rest.len() == 0) by {
                    if rest.len() > 0 {
                        lemma_no_newline_unfinished(rest);
                    }
                }
            }
        }
    }
}

/// Data without a newline, if there is any, ends unfinished.
pub proof fn lemma_no_newline_unfinished(data: Seq<u8>)
    requires
        data.len() > 0,
        newline_count(data) == 0,
    ensures
        ends_unfinished(data),
{
}

/// Data with fewer than `k` newlines has nothing behind its first `k`
/// lines.
pub proof fn lemma_drop_lines_short(data: Seq<u8>, k: nat)
    requires
        newline_count(data) < k,
    ensures
        drop_lines(data, k).len() == 0,
    decreases data.len(),
{
    if data.len() > 0 {
        lemma_newline_count_first(data);
        if data[0] == NEWLINE {
            lemma_drop_lines_short(data.drop_first(), (k - 1) as nat);
        } else {
            lemma_drop_lines_short(data.drop_first(), k);
        }
    }
}

/// Dropping `k` lines of data that has them leaves the other lines.
pub proof fn lemma_drop_lines_count(data: Seq<u8>, k: nat)
    requires
        k <= line_count(data),
    ensures
        line_count(drop_lines(data, k)) == line_count(data) - k,
    decreases data.len(),
{
    if k == 0 || data.len() == 0 {
    } else {
        let rest = data.drop_first();
        lemma_newline_count_first(data);
        if rest.len() > 0 {
            assert(rest.last() == data.last());
            if data[0] == NEWLINE {
                lemma_drop_lines_count(rest, (k - 1) as nat);
            } else {
                lemma_drop_lines_count(rest, k);
            }
        } else {
            assert(drop_lines(rest, (k - 1) as nat).len() == 0);
            assert(drop_lines(rest, k).len() == 0);
        }
    }
}

} // verus!
