//! Linear-interpolation sample-rate converter between an arbitrary source
//! rate and the pipeline's fixed internal rate.
//!
//! Converting `n` samples from rate `src` to rate `dst` yields
//! `floor(n * dst / src)` samples, which is within one of the rounded ratio
//! `round(n * dst / src)`. Each output sample is the linear interpolation of
//! the two source samples its position falls between (holding the last
//! source sample when the position falls past the end).

use vstd::prelude::*;

verus! {

/// Number of samples produced when `n` source samples at rate `src` are
/// converted to rate `dst`.
pub open spec fn resampled_len(n: int, src: int, dst: int) -> int {
    (n * dst) / src
}

/// The conventional rounding of `n * dst / src` to the nearest integer
/// (half away from zero).
pub open spec fn rounded_ratio(n: int, src: int, dst: int) -> int {
    (2 * n * dst + src) / (2 * src)
}

/// Linear interpolation between samples `a` and `b` at fraction
/// `frac / den`, with the division carried out on the non-negative
/// difference so that it truncates the same way for either sign.
pub open spec fn lerp(a: i16, b: i16, frac: int, den: int) -> int {
    if b >= a {
        a + ((b - a) * frac) / den
    } else {
        a - ((a - b) * frac) / den
    }
}

/// The source sample pair the `k`-th output sample interpolates between:
/// index `floor(k * src / dst)` and its successor, the last sample standing
/// in for a missing successor.
pub open spec fn resampled_at(input: Seq<i16>, src: int, dst: int, k: int) -> int {
    let idx = (k * src) / dst;
    let frac = (k * src) % dst;
    let a = input[idx];
    let b = if idx + 1 < input.len() {
        input[idx + 1]
    } else {
        input[idx]
    };
    lerp(a, b, frac, dst)
}

/// The whole resampled signal.
pub open spec fn resampled(input: Seq<i16>, src: int, dst: int) -> Seq<int> {
    Seq::new(
        resampled_len(input.len() as int, src, dst) as nat,
        |k: int| resampled_at(input, src, dst, k),
    )
}

/// Interpolation never leaves the closed range spanned by its endpoints.
pub proof fn lemma_lerp_bounds(a: i16, b: i16, frac: int, den: int)
    requires
        0 <= frac < den,
    ensures
        lerp(a, b, frac, den) <= if a >= b {
            a as int
        } else {
            b as int
        },
        lerp(a, b, frac, den) >= if a <= b {
            a as int
        } else {
            b as int
        },
{
    if b >= a {
        let d = b - a;
        assert(0 <= (d * frac) / den <= d) by (nonlinear_arith)
            requires
                0 <= frac < den,
                d >= 0,
        {
        }
    } else {
        let d = a - b;
        assert(0 <= (d * frac) / den <= d) by (nonlinear_arith)
            requires
                0 <= frac < den,
                d >= 0,
        {
        }
    }
}

/// Resampling sample-count bound: the produced count differs from the
/// rounded ratio `round(n * dst / src)` by at most one.
pub proof fn lemma_resampled_len_near_rounded(n: int, src: int, dst: int)
    requires
        n >= 0,
        src >= 1,
        dst >= 1,
    ensures
        rounded_ratio(n, src, dst) - 1 <= resampled_len(n, src, dst) <= rounded_ratio(n, src, dst),
{
    let a = n * dst;
    let q = a / src;
    let r = a % src;
    assert(a >= 0) by (nonlinear_arith)
        requires
            a == n * dst,
            n >= 0,
            dst >= 1,
    {
    }
    assert(a == q * src + r && 0 <= r < src) by (nonlinear_arith)
        requires
            src >= 1,
            q == a / src,
            r == a % src,
    {
    }
    assert(2 * a + src == q * (2 * src) + (2 * r + src)) by (nonlinear_arith)
        requires
            a == q * src + r,
    {
    }
    if 2 * r + src < 2 * src {
        assert((2 * a + src) / (2 * src) == q) by (nonlinear_arith)
            requires
                2 * a + src == q * (2 * src) + (2 * r + src),
                0 <= 2 * r + src < 2 * src,
                src >= 1,
        {
        }
    } else {
        assert((2 * a + src) / (2 * src) == q + 1) by (nonlinear_arith)
            requires
                2 * a + src == q * (2 * src) + (2 * r + src),
                2 * src <= 2 * r + src < 4 * src,
                src >= 1,
        {
        }
    }
    assert(2 * n * dst == 2 * a) by (nonlinear_arith)
        requires
            a == n * dst,
    {
    }
}

/// Convert `input` from rate `src` to rate `dst` by linear interpolation.
pub fn resample(input: &Vec<i16>, src: u32, dst: u32) -> (out: Vec<i16>)
    requires
        src >= 1,
        dst >= 1,
        input@.len() * (dst as int) <= u64::MAX,
        resampled_len(input@.len() as int, src as int, dst as int) <= usize::MAX,
    ensures
        out@.len() == resampled_len(input@.len() as int, src as int, dst as int),
        forall|k: int|
            0 <= k < out@.len() ==> out@[k] == resampled_at(input@, src as int, dst as int, k),
{
    let n = input.len();
    let total: u64 = (n as u64) * (dst as u64);
    let out_len_u64: u64 = total / (src as u64);
    proof {
        assert(total / (src as u64) == resampled_len(n as int, src as int, dst as int));
    }
    let out_len: usize = out_len_u64 as usize;
    let mut out: Vec<i16> = Vec::new();
    let mut k: usize = 0;
    while k < out_len
        invariant
            k <= out_len,
            out_len == resampled_len(n as int, src as int, dst as int),
            n == input@.len(),
            src >= 1,
            dst >= 1,
            (n as int) * (dst as int) <= u64::MAX,
            out@.len() == k,
            forall|j: int|
                0 <= j < k ==> out@[j] == resampled_at(input@, src as int, dst as int, j),
        decreases out_len - k,
    {
        proof {
            assert((k as int) * (src as int) + (src as int) <= (n as int) * (dst as int))
                by (nonlinear_arith)
                requires
                    (k as int) + 1 <= ((n as int) * (dst as int)) / (src as int),
                    src >= 1,
                    n >= 0,
                    dst >= 1,
            {
            }
        }
        let num: u64 = (k as u64) * (src as u64);
        let idx_u64: u64 = num / (dst as u64);
        let frac: u64 = num % (dst as u64);
        proof {
            assert(idx_u64 < n) by (nonlinear_arith)
                requires
                    idx_u64 == ((k as int) * (src as int)) / (dst as int),
                    (k as int) * (src as int) < (n as int) * (dst as int),
                    dst >= 1,
                    n >= 0,
            {
            }
        }
        let idx: usize = idx_u64 as usize;
        let a = input[idx];
        let b = if idx + 1 < n {
            input[idx + 1]
        } else {
            a
        };
        let val: i16 = lerp_exec(a, b, frac, dst as u64);
        out.push(val);
        k = k + 1;
    }
    out
}

/// Executable counterpart of [`lerp`]; the result fits in a sample because
/// interpolation stays between its endpoints.
fn lerp_exec(a: i16, b: i16, frac: u64, den: u64) -> (r: i16)
    requires
        frac < den,
        den <= u32::MAX,
    ensures
        r as int == lerp(a, b, frac as int, den as int),
{
    proof {
        lemma_lerp_bounds(a, b, frac as int, den as int);
    }
    if b >= a {
        let d: u64 = (b as i64 - a as i64) as u64;
        proof {
            assert(d * frac <= 0x10000 * 0x100000000) by (nonlinear_arith)
                requires
                    d <= 0x10000,
                    frac <= 0x100000000,
            {
            }
        }
        let off: u64 = (d * frac) / den;
        proof {
            assert((d as int * frac as int) / (den as int) <= d as int) by (nonlinear_arith)
                requires
                    frac < den,
                    den >= 1,
            {
            }
        }
        (a as i64 + off as i64) as i16
    } else {
        let d: u64 = (a as i64 - b as i64) as u64;
        proof {
            assert(d * frac <= 0x10000 * 0x100000000) by (nonlinear_arith)
                requires
                    d <= 0x10000,
                    frac <= 0x100000000,
            {
            }
        }
        let off: u64 = (d * frac) / den;
        proof {
            assert((d as int * frac as int) / (den as int) <= d as int) by (nonlinear_arith)
                requires
                    frac < den,
                    den >= 1,
            {
            }
        }
        (a as i64 - off as i64) as i16
    }
}

} // verus!
