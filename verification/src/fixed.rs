//! Fixed-point helpers: sign-preserving scaling of an integer quantity by a
//! rational factor `num / den`, truncating the magnitude toward zero.

use vstd::prelude::*;

verus! {

/// Magnitude of `v`.
pub open spec fn abs(v: int) -> int {
    if v >= 0 {
        v
    } else {
        -v
    }
}

/// `v` scaled by `num / den`, rounding the magnitude down (toward zero).
pub open spec fn scale_floor(v: int, num: int, den: int) -> int
    recommends
        num >= 0,
        den > 0,
{
    if v >= 0 {
        (v * num) / den
    } else {
        -(((-v) * num) / den)
    }
}

/// Computes `scale_floor(v, num, den)`: `v` scaled by `num / den` with the
/// magnitude rounded toward zero and the sign of `v` preserved.
pub fn scale_i64(v: i64, num: i64, den: i64) -> (r: i64)
    requires
        num >= 0,
        den > 0,
        -0x7fff_ffff_ffff_ffff <= v,
        abs(v as int) * num <= i64::MAX,
    ensures
        r == scale_floor(v as int, num as int, den as int),
        abs(r as int) <= (abs(v as int) * num) / (den as int),
        v >= 0 ==> r >= 0,
        v < 0 ==> r <= 0,
{
    let m: u64 = if v < 0 {
        (-v) as u64
    } else {
        v as u64
    };
    let p: u64 = m * (num as u64);
    let q: u64 = p / (den as u64);
    proof {
        assert(q <= p);
        assert(m * (num as int) == abs(v as int) * num);
    }
    let qi: i64 = q as i64;
    if v < 0 {
        -qi
    } else {
        qi
    }
}

/// The integer square root of `n`, rounded down: the largest `r` with
/// `r * r <= n`.  Defined by counting up from `sqrt_floor(n - 1)`.
pub open spec fn sqrt_floor(n: int) -> int
    decreases n,
{
    if n < 1 {
        0
    } else if (sqrt_floor(n - 1) + 1) * (sqrt_floor(n - 1) + 1) <= n {
        sqrt_floor(n - 1) + 1
    } else {
        sqrt_floor(n - 1)
    }
}

/// `sqrt_floor(n)` is the floor of the real square root: it is non-negative,
/// its square is at most `n`, and the next square is beyond `n`.
pub proof fn lemma_sqrt_floor_props(n: int)
    requires
        n >= 0,
    ensures
        0 <= sqrt_floor(n),
        sqrt_floor(n) * sqrt_floor(n) <= n,
        n < (sqrt_floor(n) + 1) * (sqrt_floor(n) + 1),
    decreases n,
{
    if n >= 1 {
        lemma_sqrt_floor_props(n - 1);
        let r = sqrt_floor(n - 1);
        if (r + 1) * (r + 1) <= n {
            assert(n - 1 < (r + 1) * (r + 1));
            assert(n == (r + 1) * (r + 1));
            assert((r + 1) * (r + 1) < (r + 2) * (r + 2)) by (nonlinear_arith)
                requires
                    r >= 0,
            ;
        }
    }
}

/// Any `s` whose square brackets `n` the same way is `sqrt_floor(n)`.
pub proof fn lemma_sqrt_floor_unique(n: int, s: int)
    requires
        n >= 0,
        s >= 0,
        s * s <= n,
        n < (s + 1) * (s + 1),
    ensures
        s == sqrt_floor(n),
{
    lemma_sqrt_floor_props(n);
    let r = sqrt_floor(n);
    assert(s == r) by (nonlinear_arith)
        requires
            s >= 0,
            r >= 0,
            s * s <= n,
            n < (s + 1) * (s + 1),
            r * r <= n,
            n < (r + 1) * (r + 1),
    ;
}

/// Computes `sqrt_floor(n)` by binary search on the answer.
pub fn isqrt64(n: u64) -> (r: u64)
    ensures
        r == sqrt_floor(n as int),
        r * r <= n,
        n < (r + 1) * (r + 1),
{
    if n == 0 {
        proof {
            lemma_sqrt_floor_unique(n as int, 0);
        }
        return 0;
    }
    let mut lo: u64 = 0;
    let mut hi: u64 = 0x1_0000_0000;
    while hi - lo > 1
        invariant
            lo < hi <= 0x1_0000_0000,
            lo * lo <= n,
            (n as int) < (hi as int) * (hi as int),
        decreases hi - lo,
    {
        let mid: u64 = lo + (hi - lo) / 2;
        assert(mid * mid <= 0xffff_fffe_0000_0001) by (nonlinear_arith)
            requires
                mid <= 0xffff_ffff,
        ;
        let sq: u64 = mid * mid;
        if sq <= n {
            lo = mid;
        } else {
            hi = mid;
        }
    }
    proof {
        lemma_sqrt_floor_unique(n as int, lo as int);
    }
    lo
}

} // verus!
