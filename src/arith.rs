//! Fixed-point arithmetic: exact floor division, saturation, wraparound and clamping.
use vstd::prelude::*;
use vstd::arithmetic::div_mod::{lemma_fundamental_div_mod, lemma_fundamental_div_mod_converse};

verus! {

/// The fixed-point representation of `1.0`: values count billionths.
pub const SCALE: i64 = 1_000_000_000;

/// `x` limited to the range of `i64`.
pub open spec fn sat(x: int) -> int {
    if x < i64::MIN {
        i64::MIN as int
    } else if x > i64::MAX {
        i64::MAX as int
    } else {
        x
    }
}

/// Reduces `e` into the closed interval `[-m/2, m/2]`, modulo `m`.
pub open spec fn wrap(e: int, m: int) -> int {
    let r = e % m;
    if 2 * r > m {
        r - m
    } else {
        r
    }
}

/// `v` raised to `lo`, then lowered to `hi`.
pub open spec fn clamp(v: int, lo: int, hi: int) -> int {
    let a = if v < lo { lo } else { v };
    if a > hi {
        hi
    } else {
        a
    }
}

/// The product of two fixed-point numbers, rounded down.
pub open spec fn fixed_mul(a: int, b: int) -> int {
    (a * b) / (SCALE as int)
}

/// Floor division and the matching nonnegative remainder.
pub fn floor_div_rem(a: i128, b: i128) -> (r: (i128, i128))
    requires
        0 < b,
    ensures
        r.0 == a as int / b as int,
        r.1 == a as int % b as int,
{
    if a >= 0 {
        (a / b, a % b)
    } else {
        let n: i128 = -(a + 1);
        let k: i128 = n / b;
        let q: i128 = n % b;
        proof {
            lemma_fundamental_div_mod(n as int, b as int);
            assert(a as int == (-(k + 1)) * b + (b - 1 - q)) by (nonlinear_arith)
                requires
                    n as int == b * k + q,
                    a as int == -(n as int) - 1,
            ;
            lemma_fundamental_div_mod_converse(a as int, b as int, -(k + 1), b - 1 - q);
        }
        (-k - 1, b - 1 - q)
    }
}

/// Folds `e` into `[-m/2, m/2]` around zero, keeping it congruent modulo `m`.
pub fn fold(e: i128, m: i128) -> (r: i128)
    requires
        0 < m,
    ensures
        r == wrap(e as int, m as int),
        -m <= 2 * r <= m,
{
    let (_, r) = floor_div_rem(e, m);
    if r > m - r {
        r - m
    } else {
        r
    }
}

/// `x` limited to the range of `i64`.
pub fn saturate(x: i128) -> (r: i64)
    ensures
        r == sat(x as int),
{
    if x < i64::MIN as i128 {
        i64::MIN
    } else if x > i64::MAX as i128 {
        i64::MAX
    } else {
        x as i64
    }
}

/// The product of two fixed-point numbers, rounded down.
pub fn mul_fixed(a: i64, b: i64) -> (r: i128)
    ensures
        r == fixed_mul(a as int, b as int),
        -0x100_0000_0000_0000_0000_0000_0000_0000 < r < 0x100_0000_0000_0000_0000_0000_0000_0000,
{
    proof {
        assert(-0x4000_0000_0000_0000_0000_0000_0000_0000 <= a as int * b as int
            <= 0x4000_0000_0000_0000_0000_0000_0000_0000) by (nonlinear_arith)
            requires
                i64::MIN <= a <= i64::MAX,
                i64::MIN <= b <= i64::MAX,
        ;
    }
    let p: i128 = a as i128 * b as i128;
    let (q, _) = floor_div_rem(p, SCALE as i128);
    proof {
        assert(-0x100_0000_0000_0000_0000_0000_0000_0000 < q < 0x100_0000_0000_0000_0000_0000_0000_0000)
            by (nonlinear_arith)
            requires
                q == p / 1_000_000_000,
                -0x4000_0000_0000_0000_0000_0000_0000_0000 <= p <= 0x4000_0000_0000_0000_0000_0000_0000_0000,
        ;
    }
    q
}

/// Wrapping a value changes it by a whole number of periods and leaves it in
/// the closed interval from minus half a period to plus half a period.
pub proof fn lemma_wrap_bounds(e: int, m: int)
    requires
        0 < m,
    ensures
        -m <= 2 * wrap(e, m) <= m,
        (e - wrap(e, m)) % m == 0,
{
    lemma_fundamental_div_mod(e, m);
    let k = e / m;
    assert((k + 1) * m == m * k + m && k * m == m * k) by (nonlinear_arith);
    if 2 * (e % m) > m {
        lemma_fundamental_div_mod_converse(e - wrap(e, m), m, k + 1, 0);
    } else {
        lemma_fundamental_div_mod_converse(e - wrap(e, m), m, k, 0);
    }
}

} // verus!
