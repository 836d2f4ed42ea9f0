//! Fixed-point arithmetic shared by the book, the metrics and the validator.
//!
//! A ratio is carried as an integer count of millionths: `SCALE` stands for 1.0.
use vstd::prelude::*;

verus! {

/// The fixed-point unit: one million parts stand for 1.0.
pub const SCALE: i64 = 1_000_000;

/// `num / den` in millionths, truncated toward zero; 0 when `den` is 0.
pub open spec fn ratio_ppm(num: int, den: int) -> int {
    if den == 0 {
        0
    } else if num >= 0 {
        num * (SCALE as int) / den
    } else {
        -((-num) * (SCALE as int) / den)
    }
}

proof fn lemma_scaled_fraction_bounded(n: int, d: int)
    requires
        0 <= n <= d,
        0 < d,
    ensures
        0 <= n * (SCALE as int) / d <= SCALE as int,
{
    assert(n * (SCALE as int) <= d * (SCALE as int)) by (nonlinear_arith)
        requires
            0 <= n <= d,
    ;
    assert(0 <= n * (SCALE as int)) by (nonlinear_arith)
        requires
            0 <= n,
    ;
    vstd::arithmetic::div_mod::lemma_div_is_ordered(n * (SCALE as int), d * (SCALE as int), d);
    vstd::arithmetic::div_mod::lemma_div_multiples_vanish(SCALE as int, d);
    vstd::arithmetic::div_mod::lemma_div_pos_is_pos(n * (SCALE as int), d);
}

/// Twice a fraction no larger than one, in millionths, is at most 2.0.
pub proof fn lemma_doubled_fraction_bounded(n: int, d: int)
    requires
        0 <= n <= d,
        0 < d,
    ensures
        0 <= 2 * n * 1_000_000 / d <= 2_000_000,
{
    assert(2 * n * 1_000_000 <= d * 2_000_000) by (nonlinear_arith)
        requires
            0 <= n <= d,
    ;
    assert(0 <= 2 * n * 1_000_000) by (nonlinear_arith)
        requires
            0 <= n,
    ;
    vstd::arithmetic::div_mod::lemma_div_is_ordered(2 * n * 1_000_000, d * 2_000_000, d);
    vstd::arithmetic::div_mod::lemma_div_multiples_vanish(2_000_000, d);
    vstd::arithmetic::div_mod::lemma_div_pos_is_pos(2 * n * 1_000_000, d);
}

/// A ratio whose numerator is no larger in size than its denominator lies in [-1, 1].
pub proof fn lemma_ratio_ppm_bounded(num: int, den: int)
    requires
        -den <= num <= den,
    ensures
        -(SCALE as int) <= ratio_ppm(num, den) <= SCALE as int,
{
    if den > 0 {
        if num >= 0 {
            lemma_scaled_fraction_bounded(num, den);
        } else {
            lemma_scaled_fraction_bounded(-num, den);
        }
    }
}

/// Computes `(a - b) / den` in millionths, truncated toward zero.
pub fn difference_ratio_ppm(a: u128, b: u128, den: u128) -> (r: i64)
    requires
        a <= den,
        b <= den,
        den < 0x10_0000_0000_0000_0000_0000_0000,
    ensures
        r == ratio_ppm(a - b, den as int),
        -SCALE <= r <= SCALE,
{
    proof {
        lemma_ratio_ppm_bounded(a - b, den as int);
    }
    if den == 0 {
        0
    } else if a >= b {
        let n: u128 = a - b;
        assert(n * 1_000_000 <= den * 1_000_000) by (nonlinear_arith)
            requires
                n <= den,
        ;
        let q: u128 = n * 1_000_000 / den;
        q as i64
    } else {
        let n: u128 = b - a;
        assert(n * 1_000_000 <= den * 1_000_000) by (nonlinear_arith)
            requires
                n <= den,
        ;
        let q: u128 = n * 1_000_000 / den;
        -(q as i64)
    }
}

/// `r` is the integer square root of `v`: the largest `r` with `r * r <= v`.
pub open spec fn is_floor_sqrt(v: int, r: int) -> bool {
    0 <= r && r * r <= v < (r + 1) * (r + 1)
}

/// The integer square root of `v`.
pub open spec fn floor_sqrt(v: int) -> int {
    choose|r: int| is_floor_sqrt(v, r)
}

proof fn lemma_floor_sqrt_unique(v: int, a: int, b: int)
    requires
        is_floor_sqrt(v, a),
        is_floor_sqrt(v, b),
    ensures
        a == b,
{
    if a < b {
        assert((a + 1) * (a + 1) <= b * b) by (nonlinear_arith)
            requires
                0 <= a + 1 <= b,
        ;
    }
    if b < a {
        assert((b + 1) * (b + 1) <= a * a) by (nonlinear_arith)
            requires
                0 <= b + 1 <= a,
        ;
    }
}

/// Every non-negative integer has an integer square root.
pub proof fn lemma_floor_sqrt_exists(v: int)
    requires
        v >= 0,
    ensures
        is_floor_sqrt(v, floor_sqrt(v)),
    decreases v,
{
    if v == 0 {
        assert(is_floor_sqrt(0, 0));
    } else {
        lemma_floor_sqrt_exists(v - 1);
        let r = floor_sqrt(v - 1);
        if (r + 1) * (r + 1) <= v {
            assert((r + 2) * (r + 2) > v) by (nonlinear_arith)
                requires
                    r >= 0,
                    v - 1 < (r + 1) * (r + 1),
            ;
            assert(is_floor_sqrt(v, r + 1));
        } else {
            assert(is_floor_sqrt(v, r));
        }
    }
}

/// The integer square root of a value no larger than `d * d` is at most `d`.
pub proof fn lemma_floor_sqrt_at_most(v: int, d: int)
    requires
        0 <= v <= d * d,
        d >= 0,
    ensures
        0 <= floor_sqrt(v) <= d,
{
    lemma_floor_sqrt_exists(v);
    let r = floor_sqrt(v);
    if r > d {
        assert(r * r > d * d) by (nonlinear_arith)
            requires
                r > d,
                d >= 0,
        ;
    }
}

/// The integer square root of a value at least `d * d` is at least `d`.
pub proof fn lemma_floor_sqrt_at_least(v: int, d: int)
    requires
        v >= d * d,
        d >= 0,
    ensures
        floor_sqrt(v) >= d,
{
    lemma_floor_sqrt_exists(v);
    let r = floor_sqrt(v);
    if r < d {
        assert((r + 1) * (r + 1) <= d * d) by (nonlinear_arith)
            requires
                0 <= r + 1 <= d,
        ;
    }
}

/// Computes the integer square root of `v` by bisection.
pub fn isqrt(v: u64) -> (r: u64)
    ensures
        r == floor_sqrt(v as int),
        is_floor_sqrt(v as int, r as int),
{
    let mut lo: u128 = 0;
    let mut hi: u128 = 0x1_0000_0000;
    assert(hi * hi > v);
    while hi - lo > 1
        invariant
            lo < hi <= 0x1_0000_0000,
            lo * lo <= v,
            v < hi * hi,
        decreases hi - lo,
    {
        let mid: u128 = lo + (hi - lo) / 2;
        assert(mid * mid <= 0x1_0000_0000u128 * 0x1_0000_0000u128) by (nonlinear_arith)
            requires
                mid <= 0x1_0000_0000u128,
        ;
        if mid * mid <= v as u128 {
            lo = mid;
        } else {
            hi = mid;
        }
    }
    assert(hi == lo + 1);
    proof {
        assert(is_floor_sqrt(v as int, lo as int));
        lemma_floor_sqrt_unique(v as int, lo as int, floor_sqrt(v as int));
    }
    lo as u64
}

} // verus!
