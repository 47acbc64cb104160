//! Two-component fixed-point vectors and their checked arithmetic.
//!
//! A force or velocity in mid-computation is an `Option<Vec2x>`: `None`
//! stands for a value that left the representable range, the way a float
//! computation turns non-finite, and it propagates through every combinator.

use crate::fx::{
    ck, fx_add, fx_div, fx_div_v, fx_sub, fx_mul, fx_mul_v, fx_sqrt, in_i64, isqrt_v, iabs,
    lemma_isqrt_bounds, lemma_tdiv_facts, lemma_tdiv_mono, mul_wide, sat, sat_add,
    sat_fx_mul, tdiv, tdiv_i128, FX_ONE,
};
use vstd::arithmetic::div_mod::{lemma_div_by_multiple, lemma_div_is_ordered, lemma_div_pos_is_pos};
use vstd::prelude::*;

verus! {

/// Coordinates of positions the spatial grid can hold stay within this bound,
/// so that squared distances between them fit the representation.
pub const MAX_COORD: i64 = 0x20_0000_0000;

/// Upper bound on the distance between two in-grid positions.
pub const MAX_DIST: i64 = 0x80_0000_0000;

/// A two-component fixed-point vector.
#[derive(Clone, Copy, PartialEq, Eq, Structural, Debug)]
pub struct Vec2x {
    pub x: i64,
    pub y: i64,
}

impl Vec2x {
    /// The zero vector.
    pub fn zero() -> (r: Vec2x)
        ensures
            r == (Vec2x { x: 0, y: 0 }),
    {
        Vec2x { x: 0, y: 0 }
    }

    pub fn new(x: i64, y: i64) -> (r: Vec2x)
        ensures
            r == (Vec2x { x, y }),
    {
        Vec2x { x, y }
    }
}

/// Checked narrowing of an exact coordinate pair.
pub open spec fn ck2(x: int, y: int) -> Option<Vec2x> {
    if in_i64(x) && in_i64(y) {
        Some(Vec2x { x: x as i64, y: y as i64 })
    } else {
        None
    }
}

pub open spec fn ov_add_v(a: Option<Vec2x>, b: Option<Vec2x>) -> Option<Vec2x> {
    match (a, b) {
        (Some(a), Some(b)) => ck2(a.x + b.x, a.y + b.y),
        _ => None,
    }
}

pub open spec fn ov_sub_v(a: Option<Vec2x>, b: Option<Vec2x>) -> Option<Vec2x> {
    match (a, b) {
        (Some(a), Some(b)) => ck2(a.x - b.x, a.y - b.y),
        _ => None,
    }
}

pub open spec fn ov_scale_v(a: Option<Vec2x>, s: Option<i64>) -> Option<Vec2x> {
    match (a, s) {
        (Some(a), Some(s)) => ck2(fx_mul_v(a.x as int, s as int), fx_mul_v(a.y as int, s as int)),
        _ => None,
    }
}

pub open spec fn ov_div_v(a: Option<Vec2x>, s: Option<i64>) -> Option<Vec2x> {
    match (a, s) {
        (Some(a), Some(s)) => if s == 0 {
            None
        } else {
            ck2(fx_div_v(a.x as int, s as int), fx_div_v(a.y as int, s as int))
        },
        _ => None,
    }
}

/// Checked vector addition; `None` propagates.
pub fn ov_add(a: Option<Vec2x>, b: Option<Vec2x>) -> (r: Option<Vec2x>)
    ensures
        r == ov_add_v(a, b),
{
    match (a, b) {
        (Some(a), Some(b)) => match (fx_add(a.x, b.x), fx_add(a.y, b.y)) {
            (Some(x), Some(y)) => Some(Vec2x { x, y }),
            _ => None,
        },
        _ => None,
    }
}

/// Checked vector subtraction; `None` propagates.
pub fn ov_sub(a: Option<Vec2x>, b: Option<Vec2x>) -> (r: Option<Vec2x>)
    ensures
        r == ov_sub_v(a, b),
{
    match (a, b) {
        (Some(a), Some(b)) => match (fx_sub(a.x, b.x), fx_sub(a.y, b.y)) {
            (Some(x), Some(y)) => Some(Vec2x { x, y }),
            _ => None,
        },
        _ => None,
    }
}

/// Checked product of a vector and a fixed-point scalar; `None` propagates.
pub fn ov_scale(a: Option<Vec2x>, s: Option<i64>) -> (r: Option<Vec2x>)
    ensures
        r == ov_scale_v(a, s),
{
    match (a, s) {
        (Some(a), Some(s)) => match (fx_mul(a.x, s), fx_mul(a.y, s)) {
            (Some(x), Some(y)) => Some(Vec2x { x, y }),
            _ => None,
        },
        _ => None,
    }
}

/// Checked quotient of a vector by a fixed-point scalar; `None` propagates
/// and a zero divisor yields `None`.
pub fn ov_div(a: Option<Vec2x>, s: Option<i64>) -> (r: Option<Vec2x>)
    ensures
        r == ov_div_v(a, s),
{
    match (a, s) {
        (Some(a), Some(s)) => if s == 0 {
            None
        } else {
            match (fx_div(a.x, s), fx_div(a.y, s)) {
                (Some(x), Some(y)) => Some(Vec2x { x, y }),
                _ => None,
            }
        },
        _ => None,
    }
}

/// Saturating vector addition.
pub fn sat_v_add(a: Vec2x, b: Vec2x) -> (r: Vec2x)
    ensures
        r.x == sat(a.x + b.x),
        r.y == sat(a.y + b.y),
{
    Vec2x { x: sat_add(a.x, b.x), y: sat_add(a.y, b.y) }
}

/// Saturating product of a vector and a fixed-point scalar.
pub fn sat_v_scale(a: Vec2x, s: i64) -> (r: Vec2x)
    ensures
        r.x == sat(fx_mul_v(a.x as int, s as int)),
        r.y == sat(fx_mul_v(a.y as int, s as int)),
{
    Vec2x { x: sat_fx_mul(a.x, s), y: sat_fx_mul(a.y, s) }
}

/// Truncating division of both components by a plain positive integer.
pub fn v_div_int(a: Vec2x, d: i64) -> (r: Vec2x)
    requires
        d > 0,
    ensures
        r.x == tdiv(a.x as int, d as int),
        r.y == tdiv(a.y as int, d as int),
{
    proof {
        lemma_tdiv_facts(a.x as int, d as int);
        lemma_tdiv_facts(a.y as int, d as int);
    }
    let qx = tdiv_i128(a.x as i128, d as i128);
    let qy = tdiv_i128(a.y as i128, d as i128);
    Vec2x { x: qx as i64, y: qy as i64 }
}

/// The exact squared distance between two points, in fixed-point units.
pub open spec fn dist_sq_v(a: Vec2x, b: Vec2x) -> int {
    tdiv((a.x - b.x) * (a.x - b.x) + (a.y - b.y) * (a.y - b.y), FX_ONE as int)
}

/// The exact distance between two points, in fixed-point units.
pub open spec fn dist_v(a: Vec2x, b: Vec2x) -> int {
    isqrt_v(dist_sq_v(a, b) * FX_ONE)
}

/// Distance is symmetric in its two points.
pub proof fn lemma_distance_symmetric(a: Vec2x, b: Vec2x)
    ensures
        dist_sq_v(a, b) == dist_sq_v(b, a),
        dist_v(a, b) == dist_v(b, a),
{
    assert((a.x - b.x) * (a.x - b.x) == (b.x - a.x) * (b.x - a.x)) by (nonlinear_arith);
    assert((a.y - b.y) * (a.y - b.y) == (b.y - a.y) * (b.y - a.y)) by (nonlinear_arith);
}

/// Squared distances and distances are never negative.
pub proof fn lemma_dist_nonneg(a: Vec2x, b: Vec2x)
    ensures
        dist_sq_v(a, b) >= 0,
        dist_v(a, b) >= 0,
{
    assert((a.x - b.x) * (a.x - b.x) >= 0 && (a.y - b.y) * (a.y - b.y) >= 0) by (nonlinear_arith);
    lemma_tdiv_facts(
        (a.x - b.x) * (a.x - b.x) + (a.y - b.y) * (a.y - b.y),
        FX_ONE as int,
    );
    lemma_isqrt_bounds(dist_sq_v(a, b) * FX_ONE);
}

/// Distance between two bounded (in-grid) points: always representable.
pub fn distance(a: Vec2x, b: Vec2x) -> (r: i64)
    requires
        iabs(a.x as int) <= MAX_COORD,
        iabs(a.y as int) <= MAX_COORD,
        iabs(b.x as int) <= MAX_COORD,
        iabs(b.y as int) <= MAX_COORD,
    ensures
        r == dist_v(a, b),
        0 <= r <= MAX_DIST,
{
    let dx = a.x - b.x;
    let dy = a.y - b.y;
    let sx = mul_wide(dx, dx);
    let sy = mul_wide(dy, dy);
    proof {
        // |dx| <= 2^38, so each square is at most 2^76.
        assert(sx <= 75557863725914323419136int && sx >= 0) by (nonlinear_arith)
            requires
                sx == dx as int * dx as int,
                iabs(dx as int) <= 0x40_0000_0000int;
        assert(sy <= 75557863725914323419136int && sy >= 0) by (nonlinear_arith)
            requires
                sy == dy as int * dy as int,
                iabs(dy as int) <= 0x40_0000_0000int;
    }
    let s = sx + sy;
    let q = tdiv_i128(s, FX_ONE as i128);
    proof {
        assert(iabs(s as int) == s as int);
        lemma_div_pos_is_pos(s as int, 65536);
        // s <= 2^77, so the quotient is at most 2^61.
        lemma_div_is_ordered(s as int, 151115727451828646838272int, 65536);
        assert(151115727451828646838272int == 2305843009213693952int * 65536) by (nonlinear_arith);
        lemma_div_by_multiple(2305843009213693952int, 65536);
        assert(q == s as int / 65536);
        assert(0 <= q <= 2305843009213693952int);
    }
    let d2 = q as i64;
    let r = fx_sqrt(d2);
    proof {
        lemma_isqrt_bounds(d2 as int * FX_ONE as int);
        assert(isqrt_v(d2 as int * FX_ONE as int) <= MAX_DIST) by (nonlinear_arith)
            requires
                d2 as int * FX_ONE as int <= 151115727451828646838272int,
                FX_ONE == 65536,
                isqrt_v(d2 as int * FX_ONE as int) >= 0,
                isqrt_v(d2 as int * FX_ONE as int) * isqrt_v(d2 as int * FX_ONE as int) <= d2 as int
                    * FX_ONE as int;
        assert(d2 as int * FX_ONE as int == dist_sq_v(a, b) * FX_ONE);
    }
    r
}

/// The checked squared distance between two arbitrary points; `None` when
/// the exact value does not fit.
pub fn dist_sq_checked(a: Vec2x, b: Vec2x) -> (r: Option<i64>)
    ensures
        r == ck(dist_sq_v(a, b)),
{
    let dx: i128 = (a.x as i128) - (b.x as i128);
    let dy: i128 = (a.y as i128) - (b.y as i128);
    let udx: u128 = if dx < 0 {
        (-dx) as u128
    } else {
        dx as u128
    };
    let udy: u128 = if dy < 0 {
        (-dy) as u128
    } else {
        dy as u128
    };
    proof {
        assert(udx == iabs(dx as int));
        assert(udy == iabs(dy as int));
        assert(udx as int * udx as int == dx as int * dx as int) by (nonlinear_arith)
            requires
                udx == iabs(dx as int);
        assert(udy as int * udy as int == dy as int * dy as int) by (nonlinear_arith)
            requires
                udy == iabs(dy as int);
        // |dx| < 2^64, so each square stays below 2^128.
        assert((udx as int) * (udx as int) < 340282366920938463463374607431768211456int)
            by (nonlinear_arith)
            requires
                udx < 0x1_0000_0000_0000_0000u128;
        assert((udy as int) * (udy as int) < 340282366920938463463374607431768211456int)
            by (nonlinear_arith)
            requires
                udy < 0x1_0000_0000_0000_0000u128;
    }
    let sqx: u128 = udx * udx;
    let sqy: u128 = udy * udy;
    // Either square alone past this bound makes the quotient exceed `i64`.
    let lim: u128 = 0x7FFF_FFFF_FFFF_FFFFu128 * 65536u128 + 65535u128;
    if sqx > lim || sqy > lim {
        proof {
            let sum = dx as int * dx as int + dy as int * dy as int;
            assert(dx as int * dx as int >= 0 && dy as int * dy as int >= 0) by (nonlinear_arith);
            assert(sum >= lim as int + 1);
            assert(lim as int + 1 == 9223372036854775808int * 65536) by (nonlinear_arith)
                requires
                    lim as int == 0x7FFF_FFFF_FFFF_FFFFint * 65536 + 65535;
            lemma_div_by_multiple(9223372036854775808int, 65536);
            lemma_tdiv_mono(lim as int + 1, sum, 65536);
            assert(tdiv(sum, FX_ONE as int) >= 9223372036854775808int);
        }
        None
    } else {
        let s: u128 = sqx + sqy;
        let q: u128 = s / 65536u128;
        proof {
            let sum = dx as int * dx as int + dy as int * dy as int;
            assert(iabs(sum) == sum);
            assert(q == tdiv(sum, FX_ONE as int));
        }
        if q > 0x7FFF_FFFF_FFFF_FFFFu128 {
            None
        } else {
            Some(q as i64)
        }
    }
}

} // verus!
