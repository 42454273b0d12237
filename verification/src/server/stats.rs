//! Quartile statistics over stored salary samples.
//!
//! The five quartile figures of a sample are half- or
//! quarter-integers, so they are computed here exactly, scaled by
//! four; the shell divides by four in floating point only at its
//! edge when serving them.

use vstd::prelude::*;

verus! {

/// The index of the median element for a sequence of the given
/// length: the left middle element when `even` is set.
pub open spec fn median_index_of(len: int, even: bool) -> int {
    if len == 1 {
        0
    } else if even {
        len / 2 - 1
    } else {
        (len + 1) / 2 - 1
    }
}

/// The median position of a sequence of the given length, or the
/// fixed error when the sequence is empty.
pub fn calculate_median_index(sequence_length: usize, even: bool) -> (r: Result<
    usize,
    &'static str,
>)
    ensures
        sequence_length == 0 ==> r == Result::<usize, &'static str>::Err("give non-empty slice"),
        sequence_length > 0 ==> r == Result::<usize, &'static str>::Ok(
            median_index_of(sequence_length as int, even) as usize,
        ),
{
    if sequence_length == 0 {
        return Err("give non-empty slice");
    }
    if sequence_length == 1 {
        return Ok(0);
    }
    if even {
        Ok(sequence_length / 2 - 1)
    } else {
        let h = sequence_length / 2;
        if sequence_length % 2 == 0 {
            proof {
                assert(median_index_of(sequence_length as int, false) == sequence_length as int / 2
                    - 1);
            }
            Ok(h - 1)
        } else {
            proof {
                assert(median_index_of(sequence_length as int, false) == sequence_length as int
                    / 2);
            }
            Ok(h)
        }
    }
}

/// Twice the median of a sequence: an integer even where the median
/// itself is a half-integer.
pub open spec fn median2_of(s: Seq<u64>) -> int
    recommends
        s.len() > 0,
{
    let even = s.len() % 2 == 0;
    let mi = median_index_of(s.len() as int, even);
    if s.len() == 1 {
        2 * s[0]
    } else if even {
        s[mi] + s[mi + 1]
    } else {
        2 * s[mi]
    }
}

/// Twice the median of the sample, or the fixed error when the
/// sample is empty.
pub fn calculate_median_doubled(sequence: &[u64]) -> (r: Result<u128, &'static str>)
    ensures
        sequence@.len() == 0 ==> r == Result::<u128, &'static str>::Err("give non-empty slice"),
        sequence@.len() > 0 ==> r == Result::<u128, &'static str>::Ok(
            median2_of(sequence@) as u128,
        ),
{
    let n = sequence.len();
    if n == 0 {
        return Err("give non-empty slice");
    }
    let even = n % 2 == 0;
    let mi = match calculate_median_index(n, even) {
        Ok(mi) => mi,
        Err(e) => {
            return Err(e);
        },
    };
    if n == 1 {
        return Ok(2 * (sequence[0] as u128));
    }
    proof {
        assert(mi < n);
        assert(even ==> mi + 1 < n);
    }
    if even {
        Ok((sequence[mi] as u128) + (sequence[mi + 1] as u128))
    } else {
        Ok(2 * (sequence[mi] as u128))
    }
}

/// The left half of a sample, as the quartile computation cuts it:
/// up to and including the median element when the length is even,
/// up to and excluding it otherwise.
pub open spec fn left_part(s: Seq<u64>) -> Seq<u64> {
    let even = s.len() % 2 == 0;
    let mi = median_index_of(s.len() as int, even);
    if even {
        s.take(mi + 1)
    } else {
        s.take(mi)
    }
}

/// The right half of a sample: everything past the median element.
pub open spec fn right_part(s: Seq<u64>) -> Seq<u64> {
    let even = s.len() % 2 == 0;
    let mi = median_index_of(s.len() as int, even);
    s.skip(mi + 1)
}

/// The first quartile, scaled by four.
pub open spec fn first4_of(s: Seq<u64>) -> int {
    2 * median2_of(left_part(s))
}

/// The third quartile, scaled by four.
pub open spec fn third4_of(s: Seq<u64>) -> int {
    2 * median2_of(right_part(s))
}

/// The median, scaled by four.
pub open spec fn median4_of(s: Seq<u64>) -> int {
    2 * median2_of(s)
}

/// Three halves of the interquartile range, scaled by four.
pub open spec fn fence_margin4_of(s: Seq<u64>) -> int {
    3 * (median2_of(right_part(s)) - median2_of(left_part(s)))
}

/// The five quartile figures of a sample, each scaled by four so
/// that all of them are integers.
#[derive(Clone, Copy, Debug, PartialEq, Eq, Structural)]
pub struct QuartilesScaled {
    pub lower_fence: i128,
    pub first: i128,
    pub median: i128,
    pub third: i128,
    pub upper_fence: i128,
}

/// The quartiles and Tukey fences of a sample, scaled by four. A
/// sample of fewer than two values yields the fixed error, since one
/// of its halves would be empty.
pub fn calculate_quartiles_scaled(sequence: &[u64]) -> (r: Result<QuartilesScaled, &'static str>)
    ensures
        sequence@.len() <= 1 ==> r == Result::<QuartilesScaled, &'static str>::Err(
            "give non-empty slice",
        ),
        sequence@.len() >= 2 ==> (r matches Ok(q) && {
            &&& q.first == first4_of(sequence@)
            &&& q.median == median4_of(sequence@)
            &&& q.third == third4_of(sequence@)
            &&& q.lower_fence == first4_of(sequence@) - fence_margin4_of(sequence@)
            &&& q.upper_fence == third4_of(sequence@) + fence_margin4_of(sequence@)
        }),
{
    let seq_len = sequence.len();
    if seq_len == 0 {
        return Err("give non-empty slice");
    }
    let even = seq_len % 2 == 0;
    let median_index = match calculate_median_index(seq_len, even) {
        Ok(mi) => mi,
        Err(e) => {
            return Err(e);
        },
    };
    proof {
        assert(median_index < seq_len);
        assert(even ==> median_index + 1 <= seq_len);
    }
    let left = if even {
        vstd::slice::slice_subrange(sequence, 0, median_index + 1)
    } else {
        vstd::slice::slice_subrange(sequence, 0, median_index)
    };
    let m2l = match calculate_median_doubled(left) {
        Ok(v) => v,
        Err(e) => {
            return Err(e);
        },
    };
    let right = vstd::slice::slice_subrange(sequence, median_index + 1, seq_len);
    let m2r = match calculate_median_doubled(right) {
        Ok(v) => v,
        Err(e) => {
            return Err(e);
        },
    };
    let m2 = match calculate_median_doubled(sequence) {
        Ok(v) => v,
        Err(e) => {
            return Err(e);
        },
    };
    let first = 2 * (m2l as i128);
    let third = 2 * (m2r as i128);
    let median = 2 * (m2 as i128);
    let margin = 3 * ((m2r as i128) - (m2l as i128));
    let lower_fence = first - margin;
    let upper_fence = third + margin;
    Ok(QuartilesScaled { lower_fence, first, median, third, upper_fence })
}

} // verus!
