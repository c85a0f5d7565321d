//! Deterministic PCM16 rate conversion.
//!
//! The converter maps each output position back to the input sample at the
//! proportional offset, so the output length is the rounded proportional
//! length — exactly what a vendor-mandated streaming rate needs.

use vstd::arithmetic::div_mod::{lemma_div_is_ordered, lemma_fundamental_div_mod, lemma_mod_bound};
use vstd::arithmetic::mul::lemma_mul_inequality;
use vstd::prelude::*;

use crate::errors::{FormatIssue, SttError};

verus! {

/// The number of samples a conversion from `from` to `to` produces for `len`
/// input samples: `len * to / from`, rounded to the nearest integer.
pub open spec fn spec_resampled_len(len: int, from: int, to: int) -> int
    recommends
        from > 0,
{
    (len * to + from / 2) / from
}

/// Every output index reads an input index that is in bounds.
proof fn lemma_src_index_bound(j: int, len: int, from: int, to: int)
    requires
        0 < from,
        0 < to,
        0 <= j,
        j < spec_resampled_len(len, from, to),
        len >= 0,
    ensures
        0 <= (j * from) / to < len,
        j * from <= len * to,
{
    let x = len * to + from / 2;
    let big = spec_resampled_len(len, from, to);
    lemma_fundamental_div_mod(x, from);
    lemma_mod_bound(x, from);
    assert(from * big <= x);
    assert(big * from == from * big) by (nonlinear_arith);
    lemma_mul_inequality(j + 1, big, from);
    assert((j + 1) * from <= big * from);
    assert((j + 1) * from == j * from + from) by (nonlinear_arith);
    assert(j * from + from <= x);
    assert(from / 2 + 1 <= from);
    assert(j * from <= len * to - 1);
    if len == 0 {
        assert(x == from / 2);
        assert(x < from);
        assert(big == 0) by {
            lemma_div_is_ordered(x, from - 1, from);
            assert((from - 1) / from == 0);
        }
    }
    assert(len >= 1);
    lemma_div_is_ordered(j * from, len * to - 1, to);
    assert((len * to - 1) / to == len - 1) by {
        assert(len * to - 1 == (len - 1) * to + (to - 1)) by {
            assert((len - 1) * to == len * to - to) by (nonlinear_arith);
        }
        vstd::arithmetic::div_mod::lemma_fundamental_div_mod_converse_div(
            len * to - 1,
            to,
            len - 1,
            to - 1,
        );
    }
    assert((j * from) / to <= len - 1);
    assert(j * from >= 0) by (nonlinear_arith)
        requires
            j >= 0 && from > 0,
    ;
    assert((j * from) / to >= 0) by {
        lemma_div_is_ordered(0, j * from, to);
    }
}

/// Convert `pcm` recorded at `from_rate` into samples at `to_rate`.
///
/// The output length is the input length scaled by `to_rate / from_rate`,
/// rounded to the nearest whole sample; each output sample is the input
/// sample at the proportionally scaled position.  A zero rate is rejected.
pub fn resample_i16(pcm: &Vec<i16>, from_rate: u32, to_rate: u32) -> (r: Result<Vec<i16>, SttError>)
    requires
        pcm@.len() * to_rate + from_rate <= u64::MAX,
        from_rate > 0 ==> spec_resampled_len(pcm@.len() as int, from_rate as int, to_rate as int)
            <= usize::MAX,
    ensures
        r is Ok <==> (from_rate > 0 && to_rate > 0),
        match r {
            Ok(out) => {
                &&& out@.len() == spec_resampled_len(
                    pcm@.len() as int,
                    from_rate as int,
                    to_rate as int,
                )
                &&& forall|j: int|
                    0 <= j < out@.len() ==> out@[j] == pcm@[(j * from_rate) / to_rate as int]
            },
            Err(e) => e == SttError::Format { issue: FormatIssue::ZeroRate },
        },
{
    if from_rate == 0 || to_rate == 0 {
        return Err(SttError::Format { issue: FormatIssue::ZeroRate });
    }
    let len: usize = pcm.len();
    let num: u64 = (len as u64) * (to_rate as u64) + (from_rate as u64) / 2;
    let out_len64: u64 = num / (from_rate as u64);
    proof {
        assert(out_len64 == spec_resampled_len(len as int, from_rate as int, to_rate as int));
    }
    let out_len: usize = out_len64 as usize;
    let mut out: Vec<i16> = Vec::new();
    let mut j: usize = 0;
    while j < out_len
        invariant
            0 <= j <= out_len,
            len == pcm@.len(),
            from_rate > 0,
            to_rate > 0,
            out_len == spec_resampled_len(len as int, from_rate as int, to_rate as int),
            pcm@.len() * to_rate + from_rate <= u64::MAX,
            out@.len() == j,
            forall|k: int| 0 <= k < j ==> out@[k] == pcm@[(k * from_rate) / to_rate as int],
        decreases out_len - j,
    {
        proof {
            lemma_src_index_bound(j as int, len as int, from_rate as int, to_rate as int);
        }
        let src64: u64 = ((j as u64) * (from_rate as u64)) / (to_rate as u64);
        let src: usize = src64 as usize;
        out.push(pcm[src]);
        j = j + 1;
    }
    Ok(out)
}

} // verus!
