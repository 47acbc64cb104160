//! Fixed-point scalar arithmetic.
//!
//! A scalar is an `i64` counting fractions of [`FX_ONE`]; the real number it
//! stands for is the integer divided by `FX_ONE`. Products and quotients are
//! truncated toward zero, as machine division is. Checked operations return
//! `None` when the exact result does not fit an `i64`; `None` plays the role
//! a non-finite float plays in an unverified simulation. Saturating
//! operations clamp instead, for quantities that must stay representable.

use vstd::arithmetic::div_mod::{
    lemma_div_by_multiple, lemma_div_is_ordered, lemma_div_nonincreasing, lemma_div_pos_is_pos,
};
use vstd::prelude::*;

verus! {

/// One whole unit of the fixed-point scale.
pub open const FX_ONE: i64 = 65536;

/// Whether an exact integer value fits an `i64`.
pub open spec fn in_i64(v: int) -> bool {
    i64::MIN <= v <= i64::MAX
}

/// Checked narrowing: the exact value where it fits, `None` where it does not.
pub open spec fn ck(v: int) -> Option<i64> {
    if in_i64(v) {
        Some(v as i64)
    } else {
        None
    }
}

/// Saturating narrowing.
pub open spec fn sat(v: int) -> i64 {
    if v > i64::MAX {
        i64::MAX
    } else if v < i64::MIN {
        i64::MIN
    } else {
        v as i64
    }
}

/// Absolute value.
pub open spec fn iabs(x: int) -> int {
    if x < 0 {
        -x
    } else {
        x
    }
}

/// Division truncated toward zero, as machine division behaves.
/// Meaningful only for `d != 0`.
pub open spec fn tdiv(x: int, d: int) -> int {
    let q = iabs(x) / iabs(d);
    if (x < 0) != (d < 0) {
        -q
    } else {
        q
    }
}

/// The exact (unbounded) value of a fixed-point product.
pub open spec fn fx_mul_v(a: int, b: int) -> int {
    tdiv(a * b, FX_ONE as int)
}

/// The exact (unbounded) value of a fixed-point quotient; meaningful for `b != 0`.
pub open spec fn fx_div_v(a: int, b: int) -> int {
    tdiv(a * FX_ONE, b)
}

/// Integer square root, rounded down; 0 for non-positive arguments.
pub open spec fn isqrt_v(n: int) -> int
    decreases n,
{
    if n <= 0 {
        0
    } else {
        let r = isqrt_v(n - 1);
        if (r + 1) * (r + 1) <= n {
            r + 1
        } else {
            r
        }
    }
}

/// Truncating division keeps the sign of the exact quotient and never grows
/// the magnitude of the dividend.
pub proof fn lemma_tdiv_facts(x: int, d: int)
    requires
        d > 0,
    ensures
        iabs(tdiv(x, d)) <= iabs(x),
        x >= 0 ==> 0 <= tdiv(x, d) <= x,
        x <= 0 ==> x <= tdiv(x, d) <= 0,
{
    lemma_div_pos_is_pos(iabs(x), d);
    lemma_div_nonincreasing(iabs(x), d);
}

/// Truncating division by a positive divisor is monotone on non-negative
/// dividends.
pub proof fn lemma_tdiv_mono(x: int, y: int, d: int)
    requires
        0 <= x <= y,
        d > 0,
    ensures
        tdiv(x, d) <= tdiv(y, d),
{
    lemma_div_is_ordered(x, y, d);
}

/// The integer square root is the unique `r >= 0` with `r * r <= n < (r + 1) * (r + 1)`.
pub proof fn lemma_isqrt_bounds(n: int)
    requires
        n >= 0,
    ensures
        isqrt_v(n) >= 0,
        isqrt_v(n) * isqrt_v(n) <= n,
        n < (isqrt_v(n) + 1) * (isqrt_v(n) + 1),
    decreases n,
{
    if n > 0 {
        lemma_isqrt_bounds(n - 1);
        let r = isqrt_v(n - 1);
        if (r + 1) * (r + 1) <= n {
            assert(n < (r + 2) * (r + 2)) by (nonlinear_arith)
                requires
                    r >= 0,
                    n - 1 < (r + 1) * (r + 1),
                    (r + 1) * (r + 1) <= n;
        }
    }
}

pub proof fn lemma_isqrt_unique(n: int, r: int)
    requires
        n >= 0,
        r >= 0,
        r * r <= n,
        (r + 1) * (r + 1) > n,
    ensures
        r == isqrt_v(n),
{
    lemma_isqrt_bounds(n);
    let s = isqrt_v(n);
    if r < s {
        assert((r + 1) * (r + 1) <= s * s) by (nonlinear_arith)
            requires
                0 <= r,
                r + 1 <= s;
    }
    if s < r {
        assert((s + 1) * (s + 1) <= r * r) by (nonlinear_arith)
            requires
                0 <= s,
                s + 1 <= r;
    }
}

/// A fixed-point product of non-negative factors keeps any bound of the
/// form `m * FX_ONE` on the exact product.
pub proof fn lemma_fx_mul_bound(a: int, b: int, m: int)
    requires
        0 <= a,
        0 <= b,
        0 <= m,
        a * b <= m * FX_ONE,
    ensures
        0 <= fx_mul_v(a, b) <= m,
{
    assert(a * b >= 0) by (nonlinear_arith)
        requires
            a >= 0,
            b >= 0;
    lemma_div_pos_is_pos(a * b, FX_ONE as int);
    lemma_div_is_ordered(a * b, m * FX_ONE, FX_ONE as int);
    lemma_div_by_multiple(m, FX_ONE as int);
}

/// Widening product of two `i64` values.
pub(crate) fn mul_wide(a: i64, b: i64) -> (p: i128)
    ensures
        p == a as int * b as int,
{
    proof {
        assert(i128::MIN <= (a as int) * (b as int) <= i128::MAX) by (nonlinear_arith)
            requires
                i64::MIN <= a <= i64::MAX,
                i64::MIN <= b <= i64::MAX;
    }
    (a as i128) * (b as i128)
}

/// Truncating `i128` division by a positive divisor.
pub(crate) fn tdiv_i128(x: i128, d: i128) -> (q: i128)
    requires
        d > 0,
    ensures
        q == tdiv(x as int, d as int),
{
    proof {
        lemma_tdiv_facts(x as int, d as int);
    }
    let r = x.checked_div(d);
    r.unwrap()
}

pub(crate) fn narrow_ck(q: i128) -> (r: Option<i64>)
    ensures
        r == ck(q as int),
{
    if q >= i64::MIN as i128 && q <= i64::MAX as i128 {
        Some(q as i64)
    } else {
        None
    }
}

pub(crate) fn narrow_sat(q: i128) -> (r: i64)
    ensures
        r == sat(q as int),
{
    if q > i64::MAX as i128 {
        i64::MAX
    } else if q < i64::MIN as i128 {
        i64::MIN
    } else {
        q as i64
    }
}

/// Checked fixed-point addition.
pub fn fx_add(a: i64, b: i64) -> (r: Option<i64>)
    ensures
        r == ck(a + b),
{
    a.checked_add(b)
}

/// Checked fixed-point subtraction.
pub fn fx_sub(a: i64, b: i64) -> (r: Option<i64>)
    ensures
        r == ck(a - b),
{
    a.checked_sub(b)
}

/// Checked negation.
pub fn fx_neg(a: i64) -> (r: Option<i64>)
    ensures
        r == ck(-a),
{
    if a == i64::MIN {
        None
    } else {
        Some(-a)
    }
}

/// Checked fixed-point product.
pub fn fx_mul(a: i64, b: i64) -> (r: Option<i64>)
    ensures
        r == ck(fx_mul_v(a as int, b as int)),
{
    let p = mul_wide(a, b);
    let q = tdiv_i128(p, FX_ONE as i128);
    narrow_ck(q)
}

/// Checked fixed-point quotient; `None` for a zero divisor.
pub fn fx_div(a: i64, b: i64) -> (r: Option<i64>)
    ensures
        b != 0 ==> r == ck(fx_div_v(a as int, b as int)),
        b == 0 ==> r is None,
{
    if b == 0 {
        None
    } else {
        let p = mul_wide(a, FX_ONE);
        if b > 0 {
            let q = tdiv_i128(p, b as i128);
            narrow_ck(q)
        } else {
            proof {
                lemma_tdiv_facts(p as int, -(b as int));
            }
            let q = tdiv_i128(p, -(b as i128));
            narrow_ck(-q)
        }
    }
}

/// Truncating division of a fixed-point value by a plain positive integer;
/// the result always fits.
pub fn div_int(a: i64, d: i64) -> (r: i64)
    requires
        d > 0,
    ensures
        r == tdiv(a as int, d as int),
{
    proof {
        lemma_tdiv_facts(a as int, d as int);
    }
    let q = tdiv_i128(a as i128, d as i128);
    q as i64
}

/// Saturating fixed-point addition.
pub fn sat_add(a: i64, b: i64) -> (r: i64)
    ensures
        r == sat(a + b),
{
    narrow_sat((a as i128) + (b as i128))
}

/// Saturating fixed-point product.
pub fn sat_fx_mul(a: i64, b: i64) -> (r: i64)
    ensures
        r == sat(fx_mul_v(a as int, b as int)),
{
    let p = mul_wide(a, b);
    let q = tdiv_i128(p, FX_ONE as i128);
    narrow_sat(q)
}

/// Checked product on optional scalars; `None` propagates.
pub open spec fn cmul_v(a: Option<i64>, b: Option<i64>) -> Option<i64> {
    match (a, b) {
        (Some(a), Some(b)) => ck(fx_mul_v(a as int, b as int)),
        _ => None,
    }
}

/// Checked quotient on optional scalars; `None` propagates and a zero
/// divisor yields `None`.
pub open spec fn cdiv_v(a: Option<i64>, b: Option<i64>) -> Option<i64> {
    match (a, b) {
        (Some(a), Some(b)) => if b == 0 {
            None
        } else {
            ck(fx_div_v(a as int, b as int))
        },
        _ => None,
    }
}

/// Checked negation on optional scalars.
pub open spec fn cneg_v(a: Option<i64>) -> Option<i64> {
    match a {
        Some(a) => ck(-a),
        None => None,
    }
}

/// Checked sum on optional scalars.
pub open spec fn cadd_v(a: Option<i64>, b: Option<i64>) -> Option<i64> {
    match (a, b) {
        (Some(a), Some(b)) => ck(a + b),
        _ => None,
    }
}

/// Checked difference on optional scalars.
pub open spec fn csub_v(a: Option<i64>, b: Option<i64>) -> Option<i64> {
    match (a, b) {
        (Some(a), Some(b)) => ck(a - b),
        _ => None,
    }
}

pub fn c_mul(a: Option<i64>, b: Option<i64>) -> (r: Option<i64>)
    ensures
        r == cmul_v(a, b),
{
    match (a, b) {
        (Some(a), Some(b)) => fx_mul(a, b),
        _ => None,
    }
}

pub fn c_div(a: Option<i64>, b: Option<i64>) -> (r: Option<i64>)
    ensures
        r == cdiv_v(a, b),
{
    match (a, b) {
        (Some(a), Some(b)) => fx_div(a, b),
        _ => None,
    }
}

pub fn c_neg(a: Option<i64>) -> (r: Option<i64>)
    ensures
        r == cneg_v(a),
{
    match a {
        Some(a) => fx_neg(a),
        None => None,
    }
}

pub fn c_add(a: Option<i64>, b: Option<i64>) -> (r: Option<i64>)
    ensures
        r == cadd_v(a, b),
{
    match (a, b) {
        (Some(a), Some(b)) => fx_add(a, b),
        _ => None,
    }
}

pub fn c_sub(a: Option<i64>, b: Option<i64>) -> (r: Option<i64>)
    ensures
        r == csub_v(a, b),
{
    match (a, b) {
        (Some(a), Some(b)) => fx_sub(a, b),
        _ => None,
    }
}

/// Fixed-point square root of a non-negative value.
pub fn fx_sqrt(a: i64) -> (r: i64)
    requires
        a >= 0,
    ensures
        r == isqrt_v(a * FX_ONE),
        r >= 0,
{
    let aw: u128 = a as u128;
    let n: u128 = aw * 65536;
    proof {
        assert(aw == a as int);
        assert(n == a as int * FX_ONE);
        assert(n <= 0x8000_0000_0000_0000_0000u128);
    }
    let s = isqrt_u128(n);
    proof {
        lemma_isqrt_bounds(n as int);
        assert(isqrt_v(n as int) <= i64::MAX) by (nonlinear_arith)
            requires
                n <= 0x8000_0000_0000_0000_0000u128,
                isqrt_v(n as int) >= 0,
                isqrt_v(n as int) * isqrt_v(n as int) <= n,
                n < (isqrt_v(n as int) + 1) * (isqrt_v(n as int) + 1);
    }
    s as i64
}

fn isqrt_u128(n: u128) -> (r: u128)
    ensures
        r == isqrt_v(n as int),
{
    let mut lo: u128 = 0;
    let mut hi: u128 = 0x1_0000_0000_0000_0000u128;
    proof {
        assert((hi as int) * (hi as int) > n as int) by (nonlinear_arith)
            requires
                hi == 0x1_0000_0000_0000_0000u128,
                n < 0x1_0000_0000_0000_0000_0000_0000_0000_0000int;
    }
    while lo + 1 < hi
        invariant
            lo < hi <= 0x1_0000_0000_0000_0000u128,
            (lo as int) * (lo as int) <= n as int,
            (hi as int) * (hi as int) > n as int,
        decreases hi - lo,
    {
        let mid = lo + (hi - lo) / 2;
        proof {
            assert((mid as int) * (mid as int) < 0x1_0000_0000_0000_0000_0000_0000_0000_0000int)
                by (nonlinear_arith)
                requires
                    mid < 0x1_0000_0000_0000_0000u128;
        }
        let sq = mid * mid;
        if sq <= n {
            lo = mid;
        } else {
            hi = mid;
        }
    }
    proof {
        lemma_isqrt_unique(n as int, lo as int);
    }
    lo
}

} // verus!
