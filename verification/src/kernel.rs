//! The smoothing kernels.
//!
//! Pure radial weighting functions, each cut off at the smoothing radius:
//! the density kernel `(h - r)^2 / volume`, its radial derivative
//! `(r - h) * 12 / (pi * h^4)`, and the viscosity kernel `(h^2 - r^2)^3`.
//! All three are zero at and beyond the radius, and the density kernel is
//! continuous there: near the cutoff its value is bounded by the square of
//! the remaining gap.

use crate::config::SimConfig;
use crate::fx::{
    fx_div, fx_div_v, fx_mul, fx_mul_v, lemma_fx_mul_bound, lemma_tdiv_facts, lemma_tdiv_mono,
    tdiv, FX_ONE,
};
use crate::vec2::MAX_DIST;
use vstd::arithmetic::div_mod::lemma_div_pos_is_pos;
use vstd::prelude::*;

verus! {

/// The density kernel: `(h - r)^2 / volume` below the radius, 0 at and
/// beyond it.
pub open spec fn smoothing_kernel_v(d: int, cfg: SimConfig) -> int {
    if d >= cfg.smoothing_radius {
        0
    } else {
        fx_div_v(
            fx_mul_v(cfg.smoothing_radius - d, cfg.smoothing_radius - d),
            cfg.kernel_volume as int,
        )
    }
}

/// The density kernel's radial derivative: `(r - h) * scale` below the
/// radius, 0 at and beyond it.
pub open spec fn smoothing_kernel_derivative_v(d: int, cfg: SimConfig) -> int {
    if d >= cfg.smoothing_radius {
        0
    } else {
        fx_mul_v(d - cfg.smoothing_radius, cfg.kernel_derivative_scale as int)
    }
}

/// The viscosity kernel: `max(0, h^2 - r^2)^3`.
pub open spec fn viscosity_smoothing_v(d: int, cfg: SimConfig) -> int {
    let h2 = fx_mul_v(cfg.smoothing_radius as int, cfg.smoothing_radius as int);
    let d2 = fx_mul_v(d, d);
    let value = if h2 - d2 > 0 {
        h2 - d2
    } else {
        0
    };
    fx_mul_v(fx_mul_v(value, value), value)
}

/// The density kernel, evaluated.
pub fn smoothing_kernel(distance: i64, cfg: &SimConfig) -> (r: i64)
    requires
        cfg.wf(),
        distance >= 0,
    ensures
        r == smoothing_kernel_v(distance as int, *cfg),
        0 <= r <= 0x4000_0000_0000i64,
{
    if distance >= cfg.smoothing_radius {
        return 0;
    }
    let diff = cfg.smoothing_radius - distance;
    proof {
        assert(diff as int * diff as int <= 0x4000_0000int * 65536) by (nonlinear_arith)
            requires
                0 <= diff <= 0x80_0000i64;
        lemma_fx_mul_bound(diff as int, diff as int, 0x4000_0000);
    }
    let sq = fx_mul(diff, diff).unwrap();
    proof {
        lemma_tdiv_facts(sq as int * FX_ONE, cfg.kernel_volume as int);
        lemma_div_pos_is_pos(sq as int * FX_ONE, cfg.kernel_volume as int);
        assert(sq as int * FX_ONE <= 0x4000_0000_0000_0000int) by (nonlinear_arith)
            requires
                0 <= sq <= 0x4000_0000i64,
                FX_ONE == 65536i64;
    }
    let r = fx_div(sq, cfg.kernel_volume).unwrap();
    r
}

/// The density kernel's radial derivative, evaluated; never positive.
pub fn smoothing_kernel_derivative(distance: i64, cfg: &SimConfig) -> (r: i64)
    requires
        cfg.wf(),
        distance >= 0,
    ensures
        r == smoothing_kernel_derivative_v(distance as int, *cfg),
        r <= 0,
{
    if distance >= cfg.smoothing_radius {
        return 0;
    }
    let diff = distance - cfg.smoothing_radius;
    proof {
        assert(-0x8_0000_0000_0000int <= diff as int * cfg.kernel_derivative_scale as int <= 0)
            by (nonlinear_arith)
            requires
                -0x80_0000i64 <= diff < 0,
                0 <= cfg.kernel_derivative_scale <= 0x10_0000i64;
        lemma_tdiv_facts(diff as int * cfg.kernel_derivative_scale as int, FX_ONE as int);
    }
    let r = fx_mul(diff, cfg.kernel_derivative_scale).unwrap();
    r
}

/// The viscosity kernel, evaluated.
pub fn viscosity_smoothing(distance: i64, cfg: &SimConfig) -> (r: i64)
    requires
        cfg.wf(),
        0 <= distance <= MAX_DIST,
    ensures
        r == viscosity_smoothing_v(distance as int, *cfg),
        r >= 0,
{
    proof {
        assert(cfg.smoothing_radius as int * cfg.smoothing_radius as int <= 0x4000_0000int * 65536)
            by (nonlinear_arith)
            requires
                0 <= cfg.smoothing_radius <= 0x80_0000i64;
        lemma_fx_mul_bound(cfg.smoothing_radius as int, cfg.smoothing_radius as int, 0x4000_0000);
        assert(distance as int * distance as int <= 0x4000_0000_0000_0000int * 65536)
            by (nonlinear_arith)
            requires
                0 <= distance <= 0x80_0000_0000i64;
        lemma_fx_mul_bound(distance as int, distance as int, 0x4000_0000_0000_0000);
    }
    let h2 = fx_mul(cfg.smoothing_radius, cfg.smoothing_radius).unwrap();
    let d2 = fx_mul(distance, distance).unwrap();
    let value: i64 = if h2 - d2 > 0 {
        h2 - d2
    } else {
        0
    };
    proof {
        assert(value as int * value as int <= 0x1000_0000_0000int * 65536) by (nonlinear_arith)
            requires
                0 <= value <= 0x4000_0000i64;
        lemma_fx_mul_bound(value as int, value as int, 0x1000_0000_0000);
    }
    let v2 = fx_mul(value, value).unwrap();
    proof {
        assert(v2 as int * value as int <= 288230376151711744int * 65536) by (nonlinear_arith)
            requires
                0 <= v2 <= 0x1000_0000_0000i64,
                0 <= value <= 0x4000_0000i64;
        lemma_fx_mul_bound(v2 as int, value as int, 288230376151711744);
    }
    let r = fx_mul(v2, value).unwrap();
    r
}

/// The density kernel's value always lies between 0 and `2^46`.
pub proof fn lemma_kernel_bounds(d: int, cfg: SimConfig)
    requires
        cfg.wf(),
        0 <= d,
    ensures
        0 <= smoothing_kernel_v(d, cfg) <= 0x4000_0000_0000,
{
    let h = cfg.smoothing_radius as int;
    let vol = cfg.kernel_volume as int;
    if d < h {
        let diff = h - d;
        assert(diff * diff <= 0x4000_0000int * 65536) by (nonlinear_arith)
            requires
                0 <= diff <= 0x80_0000int;
        lemma_fx_mul_bound(diff, diff, 0x4000_0000);
        let sq = fx_mul_v(diff, diff);
        assert(0 <= sq * FX_ONE <= 0x4000_0000_0000_0000int) by (nonlinear_arith)
            requires
                0 <= sq <= 0x4000_0000int,
                FX_ONE == 65536i64;
        lemma_tdiv_facts(sq * FX_ONE, vol);
        lemma_div_pos_is_pos(sq * FX_ONE, vol);
    }
}

/// All three kernels evaluate to exactly 0 at and beyond the smoothing
/// radius.
pub proof fn lemma_kernels_zero_beyond_radius(d: int, cfg: SimConfig)
    requires
        cfg.wf(),
        d >= cfg.smoothing_radius,
    ensures
        smoothing_kernel_v(d, cfg) == 0,
        smoothing_kernel_derivative_v(d, cfg) == 0,
        viscosity_smoothing_v(d, cfg) == 0,
{
    let h = cfg.smoothing_radius as int;
    assert(h * h <= d * d) by (nonlinear_arith)
        requires
            0 < h <= d;
    lemma_tdiv_mono(h * h, d * d, FX_ONE as int);
    assert(fx_mul_v(0, 0) == 0);
    assert(fx_mul_v(h, h) - fx_mul_v(d, d) <= 0);
}

/// Within the radius the density kernel is bounded by the kernel of the
/// remaining gap: as the distance tends to the radius, the kernel and its
/// derivative tend to 0, so both are continuous at the cutoff.
pub proof fn lemma_kernel_continuous_at_radius(d: int, e: int, cfg: SimConfig)
    requires
        cfg.wf(),
        0 <= d,
        0 <= e,
        cfg.smoothing_radius - e <= d,
    ensures
        0 <= smoothing_kernel_v(d, cfg) <= fx_div_v(fx_mul_v(e, e), cfg.kernel_volume as int),
        0 >= smoothing_kernel_derivative_v(d, cfg) >= fx_mul_v(
            -e,
            cfg.kernel_derivative_scale as int,
        ),
{
    let h = cfg.smoothing_radius as int;
    let vol = cfg.kernel_volume as int;
    let scale = cfg.kernel_derivative_scale as int;
    assert(e * e >= 0) by (nonlinear_arith);
    lemma_tdiv_facts(e * e, FX_ONE as int);
    assert(fx_mul_v(e, e) * FX_ONE >= 0) by (nonlinear_arith)
        requires
            fx_mul_v(e, e) >= 0,
            FX_ONE == 65536i64;
    lemma_tdiv_facts(fx_mul_v(e, e) * FX_ONE, vol);
    lemma_tdiv_facts(-e * scale, FX_ONE as int);
    assert(-e * scale <= 0) by (nonlinear_arith)
        requires
            e >= 0,
            scale >= 0;
    if d < h {
        let diff = h - d;
        assert(diff * diff <= e * e) by (nonlinear_arith)
            requires
                0 <= diff <= e;
        lemma_tdiv_mono(diff * diff, e * e, FX_ONE as int);
        assert(fx_mul_v(diff, diff) * FX_ONE <= fx_mul_v(e, e) * FX_ONE) by (nonlinear_arith)
            requires
                fx_mul_v(diff, diff) <= fx_mul_v(e, e);
        assert(fx_mul_v(diff, diff) * FX_ONE >= 0) by (nonlinear_arith)
            requires
                fx_mul_v(diff, diff) >= 0;
        lemma_tdiv_mono(fx_mul_v(diff, diff) * FX_ONE, fx_mul_v(e, e) * FX_ONE, vol);
        lemma_tdiv_facts(diff * diff, FX_ONE as int);
        lemma_tdiv_facts(fx_mul_v(diff, diff) * FX_ONE, vol);
        // Derivative side: |d - h| <= e and scale >= 0.
        assert(-e * scale <= (d - h) * scale <= 0) by (nonlinear_arith)
            requires
                -e <= d - h <= 0,
                scale >= 0;
        lemma_tdiv_mono_neg(-e * scale, (d - h) * scale, FX_ONE as int);
        lemma_tdiv_facts((d - h) * scale, FX_ONE as int);
    }
}

/// Truncating division by a positive divisor is monotone on non-positive
/// dividends too.
pub proof fn lemma_tdiv_mono_neg(x: int, y: int, d: int)
    requires
        x <= y <= 0,
        d > 0,
    ensures
        tdiv(x, d) <= tdiv(y, d),
{
    lemma_tdiv_mono(-y, -x, d);
}

/// The density kernel is largest at distance zero.
pub proof fn lemma_kernel_max(d: int, cfg: SimConfig)
    requires
        cfg.wf(),
        0 <= d,
    ensures
        0 <= smoothing_kernel_v(d, cfg) <= smoothing_kernel_v(0, cfg),
{
    let h = cfg.smoothing_radius as int;
    let vol = cfg.kernel_volume as int;
    assert(h * h >= 0) by (nonlinear_arith);
    lemma_tdiv_facts(h * h, FX_ONE as int);
    assert(fx_mul_v(h, h) * FX_ONE >= 0) by (nonlinear_arith)
        requires
            fx_mul_v(h, h) >= 0;
    lemma_tdiv_facts(fx_mul_v(h, h) * FX_ONE, vol);
    if d < h {
        let diff = h - d;
        assert(diff * diff <= h * h) by (nonlinear_arith)
            requires
                0 <= diff <= h;
        lemma_tdiv_mono(diff * diff, h * h, FX_ONE as int);
        assert(fx_mul_v(diff, diff) * FX_ONE <= fx_mul_v(h, h) * FX_ONE) by (nonlinear_arith)
            requires
                fx_mul_v(diff, diff) <= fx_mul_v(h, h);
        assert(fx_mul_v(diff, diff) * FX_ONE >= 0) by (nonlinear_arith)
            requires
                fx_mul_v(diff, diff) >= 0;
        lemma_tdiv_mono(fx_mul_v(diff, diff) * FX_ONE, fx_mul_v(h, h) * FX_ONE, vol);
        lemma_tdiv_facts(diff * diff, FX_ONE as int);
        lemma_tdiv_facts(fx_mul_v(diff, diff) * FX_ONE, vol);
    }
}

} // verus!
