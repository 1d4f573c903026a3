//! Where the output starts, given how much was asked for and how much there is.

use crate::tail::take::TakeValue;
use vstd::prelude::*;

verus! {

/// The zero-based position of the first element to print out of `total`,
/// or `None` where nothing is to be printed.
pub open spec fn start_index(take: TakeValue, total: i64) -> Option<u64> {
    match take {
        TakeValue::PlusZero => if total > 0 {
            Some(0)
        } else {
            None
        },
        TakeValue::TakeNum(n) => if n == 0 || total == 0 || (n > 0 && n > total) {
            None
        } else if n > 0 {
            Some((n - 1) as u64)
        } else if total + n > 0 {
            Some((total + n) as u64)
        } else {
            Some(0)
        },
    }
}

/// Computes [`start_index`] without overflow on any pair of inputs.
pub fn get_start_index(take_val: &TakeValue, total: i64) -> (start: Option<u64>)
    ensures
        start == start_index(*take_val, total),
{
    match take_val {
        TakeValue::PlusZero => {
            if total > 0 {
                Some(0)
            } else {
                None
            }
        },
        TakeValue::TakeNum(num) => {
            let n: i64 = *num;
            if n == 0 || total == 0 || (n > 0 && n > total) {
                None
            } else if n > 0 {
                Some((n - 1) as u64)
            } else if total < 0 {
                Some(0)
            } else {
                let from_end: i64 = total + n;
                if from_end > 0 {
                    Some(from_end as u64)
                } else {
                    Some(0)
                }
            }
        },
    }
}

/// `+0` prints from the start of every stream but an empty one.
pub proof fn lemma_plus_zero(total: i64)
    requires
        total >= 0,
    ensures
        start_index(TakeValue::PlusZero, total) is None <==> total == 0,
        total > 0 ==> start_index(TakeValue::PlusZero, total) == Some(0u64),
{
}

/// A count of zero prints nothing.
pub proof fn lemma_zero_count(total: i64)
    requires
        total >= 0,
    ensures
        start_index(TakeValue::TakeNum(0), total) is None,
{
}

/// A positive count is a position counted from one: past the end it
/// prints nothing, otherwise it starts one below.
pub proof fn lemma_positive_count(n: i64, total: i64)
    requires
        n > 0,
        total >= 0,
    ensures
        n > total ==> start_index(TakeValue::TakeNum(n), total) is None,
        n <= total ==> start_index(TakeValue::TakeNum(n), total) == Some((n - 1) as u64),
{
}

/// A negative count keeps that many elements of the end, and all of a
/// stream that is shorter. Of an empty stream there is nothing to keep.
pub proof fn lemma_negative_count(n: i64, total: i64)
    requires
        n < 0,
        total > 0,
    ensures
        start_index(TakeValue::TakeNum(n), total) == Some(
            (if total + n > 0 {
                total + n
            } else {
                0
            }) as u64,
        ),
        start_index(TakeValue::TakeNum(n), 0) is None,
{
}

/// The most negative count keeps all of a stream that is not empty.
pub proof fn lemma_most_negative_count(total: i64)
    requires
        total > 0,
    ensures
        start_index(TakeValue::TakeNum(i64::MIN), total) == Some(0u64),
{
}

/// A start that is given lies within the stream.
pub proof fn lemma_start_within(take: TakeValue, total: i64)
    requires
        total >= 0,
    ensures
        start_index(take, total) matches Some(start) ==> start < total,
{
}

} // verus!
