//! Fixed-point scalar arithmetic.
//!
//! A quantity is stored as an `i64` counting units of `1 / SCALE`; a stored
//! value `v` denotes the real number `v / SCALE`. Multiplication and division
//! round toward negative infinity, so every operation here is pinned to an
//! exact integer formula (Euclidean `/` with a positive divisor is floor
//! division).

use vstd::prelude::*;
use vstd::arithmetic::div_mod::{
    lemma_div_is_ordered, lemma_div_multiples_vanish, lemma_fundamental_div_mod,
    lemma_fundamental_div_mod_converse,
};

verus! {

/// Number of fixed-point units in one whole unit (16 fractional bits).
pub const SCALE: i64 = 65536;

/// Floor division of `a` by a positive divisor `b`.
pub fn div_floor(a: i128, b: i128) -> (q: i128)
    requires
        b > 0,
        a != i128::MIN,
    ensures
        q == (a as int) / (b as int),
{
    if a >= 0 {
        let au: u128 = a as u128;
        let bu: u128 = b as u128;
        let qu: u128 = au / bu;
        proof {
            assert((au as int) / (bu as int) <= au as int && (au as int) / (bu as int) >= 0)
                by (nonlinear_arith)
                requires au >= 0 && bu > 0;
        }
        qu as i128
    } else {
        let m: u128 = (-a) as u128;
        let bu: u128 = b as u128;
        let qm: u128 = (m + (bu - 1)) / bu;
        proof {
            let mi: int = m as int;
            let bi: int = bu as int;
            lemma_fundamental_div_mod(mi + bi - 1, bi);
            let s: int = (mi + bi - 1) % bi;
            assert(mi + bi - 1 == bi * (qm as int) + s);
            assert(0 <= s < bi) by (nonlinear_arith)
                requires bi > 0 && s == (mi + bi - 1) % bi;
            // qm * bi == mi + bi - 1 - s, so the Euclidean remainder of
            // -mi by bi is bi - 1 - s, which lies in [0, bi).
            assert((-mi) == (-(qm as int)) * bi + (bi - 1 - s)) by (nonlinear_arith)
                requires bi > 0 && mi + bi - 1 == bi * (qm as int) + s;
            lemma_fundamental_div_mod_converse(-mi, bi, -(qm as int), bi - 1 - s);
            assert((qm as int) <= mi) by (nonlinear_arith)
                requires
                    bi >= 1 && mi >= 1 && qm >= 0 && 0 <= s < bi
                        && bi * (qm as int) + s == mi + bi - 1;
            assert(qm <= m);
        }
        -(qm as i128)
    }
}

/// Product of two values bounded by `m` is bounded by `m * m`.
pub proof fn lemma_prod_bound(a: int, b: int, m: int)
    by (nonlinear_arith)
    requires
        m >= 0,
        -m <= a <= m,
        -m <= b <= m,
    ensures
        -(m * m) <= a * b <= m * m,
{
}

/// Product of values bounded by `ma` and `mb` is bounded by `ma * mb`.
pub proof fn lemma_prod_bound2(a: int, b: int, ma: int, mb: int)
    by (nonlinear_arith)
    requires
        ma >= 0,
        mb >= 0,
        -ma <= a <= ma,
        -mb <= b <= mb,
    ensures
        -(ma * mb) <= a * b <= ma * mb,
{
}

/// Scaling a bounded value by a factor of at most one unit keeps the bound:
/// `|a * b / SCALE| <= m` when `|a| <= m` and `|b| <= SCALE`.
pub proof fn lemma_scaled_bound(a: int, b: int, m: int)
    requires
        m >= 0,
        -m <= a <= m,
        -(SCALE as int) <= b <= SCALE as int,
    ensures
        -m <= a * b / (SCALE as int) <= m,
{
    lemma_prod_bound2(a, b, m, SCALE as int);
    lemma_div_is_ordered(a * b, m * (SCALE as int), SCALE as int);
    lemma_div_is_ordered(-(m * (SCALE as int)), a * b, SCALE as int);
    assert(m * (SCALE as int) == (SCALE as int) * m && -(m * (SCALE as int)) == (SCALE as int) * (
    -m)) by (nonlinear_arith);
    lemma_div_multiples_vanish(m, SCALE as int);
    lemma_div_multiples_vanish(-m, SCALE as int);
}

/// A value within `k * d` divides by `d` to a quotient within `k`.
pub proof fn lemma_div_const_range(p: int, k: int, d: int)
    requires
        d >= 1,
        k >= 0,
        -(k * d) <= p <= k * d,
    ensures
        -k <= p / d <= k,
{
    lemma_div_is_ordered(p, k * d, d);
    lemma_div_is_ordered(-(k * d), p, d);
    assert(k * d == d * k && -(k * d) == d * (-k)) by (nonlinear_arith);
    lemma_div_multiples_vanish(k, d);
    lemma_div_multiples_vanish(-k, d);
}

/// Floor division by a positive divisor never grows a value's magnitude.
pub proof fn lemma_div_range(p: int, d: int)
    requires
        d >= 1,
    ensures
        p >= 0 ==> 0 <= p / d <= p,
        p < 0 ==> p <= p / d <= 0,
{
    lemma_fundamental_div_mod(p, d);
    vstd::arithmetic::div_mod::lemma_mod_bound(p, d);
    let q = p / d;
    let r = p % d;
    assert((p >= 0 ==> 0 <= q <= p) && (p < 0 ==> p <= q <= 0)) by (nonlinear_arith)
        requires d >= 1 && 0 <= r < d && p == d * q + r;
}

/// Mathematical floor square root, the reference for the executable roots.
pub open spec fn sqrt_spec(n: int) -> int
    decreases n,
{
    if n < 1 {
        0
    } else {
        let r = sqrt_spec(n - 1);
        if (r + 1) * (r + 1) <= n {
            r + 1
        } else {
            r
        }
    }
}

/// `sqrt_spec(n)` is the floor square root: its square is at most `n` and the
/// next square is beyond `n`.
pub proof fn lemma_sqrt_spec_bounds(n: int)
    requires
        n >= 0,
    ensures
        0 <= sqrt_spec(n),
        sqrt_spec(n) * sqrt_spec(n) <= n,
        n < (sqrt_spec(n) + 1) * (sqrt_spec(n) + 1),
    decreases n,
{
    if n == 0 {
    } else {
        lemma_sqrt_spec_bounds(n - 1);
        let r = sqrt_spec(n - 1);
        if (r + 1) * (r + 1) <= n {
            assert(n < ((r + 1) + 1) * ((r + 1) + 1)) by (nonlinear_arith)
                requires r >= 0 && n - 1 < (r + 1) * (r + 1);
        }
    }
}

/// Any integer satisfying the floor-square-root sandwich is `sqrt_spec(n)`.
pub proof fn lemma_sqrt_unique(n: int, r: int)
    requires
        n >= 0,
        r >= 0,
        r * r <= n,
        n < (r + 1) * (r + 1),
    ensures
        r == sqrt_spec(n),
{
    lemma_sqrt_spec_bounds(n);
    let s = sqrt_spec(n);
    assert(r == s) by (nonlinear_arith)
        requires
            r >= 0 && s >= 0 && r * r <= n && n < (r + 1) * (r + 1) && s * s <= n
                && n < (s + 1) * (s + 1);
}

/// Integer square root: the greatest `r` with `r * r <= n`.
pub fn isqrt(n: u128) -> (r: u128)
    requires
        n < 0x4000_0000_0000_0000_0000_0000_0000_0000u128,
    ensures
        (r as int) * (r as int) <= n as int,
        (n as int) < (r as int + 1) * (r as int + 1),
        r == sqrt_spec(n as int),
{
    let mut lo: u128 = 0;
    let mut hi: u128 = 0x8000_0000_0000_0000u128;
    proof {
        assert((n as int) < (hi as int) * (hi as int)) by (nonlinear_arith)
            requires
                n < 0x4000_0000_0000_0000_0000_0000_0000_0000u128
                    && hi == 0x8000_0000_0000_0000u128;
    }
    while lo + 1 < hi
        invariant
            (lo as int) * (lo as int) <= n as int,
            (n as int) < (hi as int) * (hi as int),
            lo < hi,
            hi <= 0x8000_0000_0000_0000u128,
        decreases hi - lo,
    {
        let mid: u128 = lo + (hi - lo) / 2;
        proof {
            assert((mid as int) * (mid as int) < u128::MAX as int) by (nonlinear_arith)
                requires mid <= 0x8000_0000_0000_0000u128;
        }
        if mid * mid <= n {
            lo = mid;
        } else {
            hi = mid;
        }
    }
    proof {
        lemma_sqrt_unique(n as int, lo as int);
    }
    lo
}

/// Fixed-point product: `floor(a * b / SCALE)`.
pub fn fmul(a: i64, b: i64) -> (r: i64)
    requires
        i64::MIN <= ((a as int) * (b as int)) / (SCALE as int) <= i64::MAX,
    ensures
        r == ((a as int) * (b as int)) / (SCALE as int),
{
    proof {
        assert(i128::MIN < (a as int) * (b as int) < i128::MAX) by (nonlinear_arith)
            requires i64::MIN <= a <= i64::MAX && i64::MIN <= b <= i64::MAX;
    }
    let p: i128 = (a as i128) * (b as i128);
    let q: i128 = div_floor(p, SCALE as i128);
    q as i64
}

/// Fixed-point quotient by a positive divisor: `floor(a * SCALE / b)`.
pub fn fdiv(a: i64, b: i64) -> (r: i64)
    requires
        b > 0,
        i64::MIN <= ((a as int) * (SCALE as int)) / (b as int) <= i64::MAX,
    ensures
        r == ((a as int) * (SCALE as int)) / (b as int),
{
    let p: i128 = (a as i128) * (SCALE as i128);
    let q: i128 = div_floor(p, b as i128);
    q as i64
}

/// Fixed-point square root of a non-negative value: the greatest `r` with
/// `r * r <= a * SCALE`, so that `r / SCALE` approximates `sqrt(a / SCALE)`
/// from below.
pub fn fsqrt(a: i64) -> (r: i64)
    requires
        a >= 0,
    ensures
        r >= 0,
        (r as int) * (r as int) <= (a as int) * (SCALE as int),
        (a as int) * (SCALE as int) < (r as int + 1) * (r as int + 1),
        r == sqrt_spec((a as int) * (SCALE as int)),
{
    proof {
        assert((a as int) * (SCALE as int) < 0x4000_0000_0000_0000_0000_0000_0000_0000)
            by (nonlinear_arith)
            requires 0 <= a <= i64::MAX && SCALE == 65536;
    }
    let p: u128 = (a as u128) * (SCALE as u128);
    let r: u128 = isqrt(p);
    proof {
        assert(r < 0x8000_0000_0000_0000u128) by (nonlinear_arith)
            requires
                (r as int) * (r as int) <= (a as int) * (SCALE as int)
                    && 0 <= a <= i64::MAX && SCALE == 65536 && r >= 0;
    }
    r as i64
}

} // verus!
