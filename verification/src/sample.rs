//! Samples of a time series, held as the raw bit patterns of the backend's
//! floating-point numbers, and the peak-preserving downsampler that bounds
//! how many points a series hands to the renderer.
//!
//! A sample's value is carried as the 64 bits of its IEEE 754 double. The
//! chart and the comparisons here never need the number itself: finiteness
//! is a test on the exponent bits, and the order of two finite values is
//! the order of `val_key`, an order-preserving integer transform of the
//! bits (negative zero sorts just below positive zero).

use vstd::arithmetic::div_mod::lemma_fundamental_div_mod;
use vstd::arithmetic::div_mod::lemma_fundamental_div_mod_converse;
use vstd::prelude::*;

verus! {

/// One data point: a timestamp and a value, both as raw double bits.
#[derive(Clone, Copy, Debug, PartialEq, Eq, Structural)]
pub struct Sample {
    /// Unix timestamp in seconds, as double bits.
    pub ts_bits: u64,
    /// Sample value, as double bits.
    pub val_bits: u64,
}

/// Whether double bits denote a finite number: the exponent field is not
/// all ones.
pub open spec fn finite_bits(b: u64) -> bool {
    (b >> 52) & 0x7ff != 0x7ff
}

/// Runtime test for `finite_bits`.
pub fn is_finite_bits(b: u64) -> (r: bool)
    ensures
        r == finite_bits(b),
{
    (b >> 52) & 0x7ff != 0x7ff
}

/// An order-preserving key for double bits: values compare as the doubles
/// they encode (for finite values; negative zero sorts below positive
/// zero).
pub open spec fn val_key(b: u64) -> u64 {
    if b < 0x8000_0000_0000_0000 {
        (b + 0x8000_0000_0000_0000) as u64
    } else {
        (0xffff_ffff_ffff_ffff - b) as u64
    }
}

/// Runtime computation of `val_key`.
pub fn val_key_of(b: u64) -> (r: u64)
    ensures
        r == val_key(b),
{
    if b < 0x8000_0000_0000_0000 {
        b + 0x8000_0000_0000_0000
    } else {
        0xffff_ffff_ffff_ffff - b
    }
}

/// Two bit patterns with equal keys are equal.
pub proof fn lemma_val_key_injective(a: u64, b: u64)
    requires
        val_key(a) == val_key(b),
    ensures
        a == b,
{
}

/// The ceiling of `len / k`, written without overflow for `len >= 1`.
pub open spec fn div_ceil(len: int, k: int) -> int {
    (len - 1) / k + 1
}

/// The index of the first sample with the greatest value key; 0 for a
/// sequence of one.
pub open spec fn max_first_idx(s: Seq<Sample>) -> int
    decreases s.len(),
{
    if s.len() <= 1 {
        0
    } else {
        let r = 1 + max_first_idx(s.skip(1));
        if val_key(s[r].val_bits) > val_key(s[0].val_bits) {
            r
        } else {
            0
        }
    }
}

/// The first sample with the greatest value key.
pub open spec fn max_first(s: Seq<Sample>) -> Sample {
    s[max_first_idx(s)]
}

/// `max_first_idx` names a valid index, carries the maximum key, and is
/// the first index to do so.
pub proof fn lemma_max_first_idx(s: Seq<Sample>)
    requires
        s.len() >= 1,
    ensures
        0 <= max_first_idx(s) < s.len(),
        forall|t: int|
            0 <= t < s.len() ==> #[trigger] val_key(s[t].val_bits) <= val_key(
                s[max_first_idx(s)].val_bits,
            ),
        forall|t: int|
            0 <= t < max_first_idx(s) ==> #[trigger] val_key(s[t].val_bits) < val_key(
                s[max_first_idx(s)].val_bits,
            ),
    decreases s.len(),
{
    if s.len() == 1 {
    } else {
        lemma_max_first_idx(s.skip(1));
        let r = 1 + max_first_idx(s.skip(1));
        assert(forall|t: int| 0 <= t < s.skip(1).len() ==> s.skip(1)[t] == s[t + 1]);
        assert(s[r] == s.skip(1)[r - 1]);
        if val_key(s[r].val_bits) > val_key(s[0].val_bits) {
            assert forall|t: int| 0 <= t < s.len() implies #[trigger] val_key(s[t].val_bits)
                <= val_key(s[r].val_bits) by {
                if t > 0 {
                    assert(s[t] == s.skip(1)[t - 1]);
                }
            }
            assert forall|t: int| 0 <= t < r implies #[trigger] val_key(s[t].val_bits)
                < val_key(s[r].val_bits) by {
                if t > 0 {
                    assert(s[t] == s.skip(1)[t - 1]);
                }
            }
        } else {
            assert forall|t: int| 0 <= t < s.len() implies #[trigger] val_key(s[t].val_bits)
                <= val_key(s[0].val_bits) by {
                if t > 0 {
                    assert(s[t] == s.skip(1)[t - 1]);
                }
            }
        }
    }
}

/// The chunk of `p` at chunk index `j`, for chunk size `c`: up to `c`
/// consecutive samples, shorter only at the tail.
pub open spec fn chunk_at(p: Seq<Sample>, c: int, j: int) -> Seq<Sample> {
    p.subrange(
        j * c,
        if (j + 1) * c <= p.len() {
            (j + 1) * c
        } else {
            p.len() as int
        },
    )
}

/// Peak-preserving reduction of `p` to at most `k` points: unchanged when
/// already small enough, else the first-of-the-maxima of each chunk of
/// `div_ceil(len, k)` consecutive samples.
pub open spec fn downsample_spec(p: Seq<Sample>, k: int) -> Seq<Sample> {
    if p.len() <= k {
        p
    } else {
        let c = div_ceil(p.len() as int, k);
        let m = div_ceil(p.len() as int, c);
        Seq::new(m as nat, |j: int| max_first(chunk_at(p, c, j)))
    }
}

/// For `1 <= k < len`, the chunk size is at least 2 and the number of
/// chunks stays within the bound `k`.
proof fn lemma_chunk_arith(len: int, k: int)
    requires
        1 <= k < len,
    ensures
        ({
            let c = div_ceil(len, k);
            &&& c >= 2
            &&& 1 <= div_ceil(len, c) <= k
        }),
{
    let q = (len - 1) / k;
    lemma_fundamental_div_mod(len - 1, k);
    let c = q + 1;
    // len - 1 >= k, so q >= 1 and c >= 2
    assert(q >= 1) by {
        if q <= 0 {
            assert(len - 1 == k * q + ((len - 1) % k));
            assert((len - 1) % k < k);
            assert(k * q <= 0) by (nonlinear_arith)
                requires
                    k >= 1,
                    q <= 0,
            ;
        }
    }
    // len - 1 < c * k, so at most k chunks
    assert(len - 1 < c * k) by {
        assert(len - 1 == k * q + ((len - 1) % k));
        assert((len - 1) % k < k);
        assert(c * k == k * q + k) by (nonlinear_arith)
            requires
                c == q + 1,
        ;
    }
    let q2 = (len - 1) / c;
    lemma_fundamental_div_mod(len - 1, c);
    assert(q2 < k) by {
        if q2 >= k {
            assert(len - 1 == c * q2 + ((len - 1) % c));
            assert(c * q2 >= c * k) by (nonlinear_arith)
                requires
                    q2 >= k,
                    c >= 2,
            ;
        }
    }
    assert(q2 >= 0) by {
        assert(len - 1 == c * q2 + ((len - 1) % c));
        assert((len - 1) % c < c);
        if q2 < 0 {
            assert(c * q2 <= c * -1) by (nonlinear_arith)
                requires
                    q2 <= -1,
                    c >= 2,
            ;
        }
    }
}

/// Law: the result never exceeds the bound.
pub proof fn lemma_downsample_len(p: Seq<Sample>, k: int)
    requires
        k >= 1,
    ensures
        downsample_spec(p, k).len() <= k,
{
    if p.len() > k {
        lemma_chunk_arith(p.len() as int, k);
    }
}

/// Law: downsampling is idempotent beyond the bound; a second pass with
/// the same bound changes nothing.
pub proof fn lemma_downsample_idempotent(p: Seq<Sample>, k: int)
    requires
        k >= 1,
    ensures
        downsample_spec(downsample_spec(p, k), k) == downsample_spec(p, k),
{
    lemma_downsample_len(p, k);
}

/// Law: for samples whose values never decrease, the last output sample
/// carries the last input value, so the peak at the tail survives.
pub proof fn lemma_downsample_tail(p: Seq<Sample>, k: int)
    requires
        k >= 1,
        p.len() >= 1,
        forall|i: int, j: int|
            0 <= i <= j < p.len() ==> #[trigger] val_key(p[i].val_bits) <= #[trigger] val_key(
                p[j].val_bits,
            ),
    ensures
        downsample_spec(p, k).len() >= 1,
        downsample_spec(p, k).last().val_bits == p.last().val_bits,
{
    let len = p.len() as int;
    if len <= k {
    } else {
        lemma_chunk_arith(len, k);
        let c = div_ceil(len, k);
        let m = div_ceil(len, c);
        let last_chunk = chunk_at(p, c, m - 1);
        // the last chunk reaches exactly to the end of `p`
        lemma_fundamental_div_mod(len - 1, c);
        assert((m - 1) * c <= len - 1) by (nonlinear_arith)
            requires
                m - 1 == (len - 1) / c,
                c >= 2,
                len - 1 == c * ((len - 1) / c) + ((len - 1) % c),
                (len - 1) % c >= 0,
        ;
        assert(len - 1 < m * c) by (nonlinear_arith)
            requires
                m - 1 == (len - 1) / c,
                c >= 2,
                len - 1 == c * ((len - 1) / c) + ((len - 1) % c),
                (len - 1) % c < c,
        ;
        assert(last_chunk.len() >= 1);
        lemma_max_first_idx(last_chunk);
        let idx = max_first_idx(last_chunk);
        assert(last_chunk[idx] == p[(m - 1) * c + idx]);
        assert(last_chunk.last() == p[len - 1]);
        // values never decrease, so the chunk's maximum key is the key of
        // its final sample, and key equality forces bit equality
        assert(val_key(last_chunk[idx].val_bits) <= val_key(p[len - 1].val_bits));
        assert(val_key(p[len - 1].val_bits) <= val_key(last_chunk[idx].val_bits));
        lemma_val_key_injective(last_chunk[idx].val_bits, p[len - 1].val_bits);
        assert(downsample_spec(p, k)[m - 1] == max_first(last_chunk));
    }
}

/// Reduces `points` to at most `max_points` samples: a list already within
/// the bound is returned unchanged; a longer one is cut into chunks of
/// `div_ceil(len, max_points)` consecutive samples, and from each chunk
/// only the first sample with the greatest value is kept.
pub fn downsample(points: Vec<Sample>, max_points: usize) -> (r: Vec<Sample>)
    requires
        max_points >= 1,
    ensures
        r@ == downsample_spec(points@, max_points as int),
        r@.len() <= max_points,
{
    proof {
        lemma_downsample_len(points@, max_points as int);
    }
    let len = points.len();
    if len <= max_points {
        return points;
    }
    let c = (len - 1) / max_points + 1;
    proof {
        lemma_chunk_arith(len as int, max_points as int);
    }
    let ghost m = div_ceil(len as int, c as int);
    let mut out: Vec<Sample> = Vec::new();
    let mut start: usize = 0;
    proof {
        assert(out@.len() * c == 0) by (nonlinear_arith)
            requires
                out@.len() == 0,
        ;
    }
    while start < len
        invariant
            1 <= max_points < len,
            len == points@.len(),
            c == div_ceil(len as int, max_points as int),
            2 <= c,
            m == div_ceil(len as int, c as int),
            start <= len,
            out@.len() * c == start || (start == len && (out@.len() - 1) * c < len <= out@.len()
                * c),
            forall|j: int|
                0 <= j < out@.len() ==> out@[j] == max_first(
                    chunk_at(points@, c as int, j),
                ),
        decreases len - start,
    {
        let ghost j = out@.len() as int;
        proof {
            assert(j * c == start);
            assert((j + 1) * c == j * c + c) by (nonlinear_arith);
        }
        let end = if len - start < c {
            len
        } else {
            start + c
        };
        proof {
            assert(chunk_at(points@, c as int, j) =~= points@.subrange(
                start as int,
                end as int,
            ));
        }
        let ghost chunk = points@.subrange(start as int, end as int);
        let mut best: usize = start;
        let mut t: usize = start + 1;
        while t < end
            invariant
                start < end <= len,
                len == points@.len(),
                start <= best < t <= end,
                chunk == points@.subrange(start as int, end as int),
                forall|u: int|
                    start <= u < t ==> #[trigger] val_key(points@[u].val_bits) <= val_key(
                        points@[best as int].val_bits,
                    ),
                forall|u: int|
                    start <= u < best ==> #[trigger] val_key(points@[u].val_bits) < val_key(
                        points@[best as int].val_bits,
                    ),
            decreases end - t,
        {
            if val_key_of(points[t].val_bits) > val_key_of(points[best].val_bits) {
                best = t;
            }
            t += 1;
        }
        proof {
            lemma_max_first_idx(chunk);
            let idx = max_first_idx(chunk);
            assert(forall|u: int| 0 <= u < chunk.len() ==> chunk[u] == points@[start + u]);
            // `best` satisfies the same first-maximum characterisation as
            // `idx`, and that characterisation is unique
            assert(val_key(chunk[best - start].val_bits) <= val_key(chunk[idx].val_bits));
            assert(val_key(chunk[idx].val_bits) <= val_key(chunk[best - start].val_bits));
            if idx < best - start {
                assert(val_key(chunk[idx].val_bits) < val_key(chunk[best - start].val_bits));
                assert(false);
            }
            if best - start < idx {
                assert(false);
            }
            assert(points@[best as int] == max_first(chunk));
        }
        out.push(points[best]);
        proof {
            assert(out@.len() == j + 1);
            assert((j + 1) * c == j * c + c) by (nonlinear_arith);
            if end == len {
                assert((out@.len() - 1) * c == start);
                assert(len <= start + c);
            } else {
                assert(out@.len() * c == start + c);
            }
        }
        start = end;
    }
    proof {
        let n = out@.len() as int;
        assert(n * c == (n - 1) * c + c) by (nonlinear_arith);
        assert((n - 1) * c < len <= n * c);
        lemma_fundamental_div_mod_converse(
            len - 1,
            c as int,
            n - 1,
            len - 1 - (n - 1) * c,
        );
        assert(n == m);
        assert(out@ =~= downsample_spec(points@, max_points as int));
    }
    out
}

} // verus!
