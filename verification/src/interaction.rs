//! The pointer interaction force.
//!
//! An external pointer attracts or repels particles within a fixed radius.
//! Beyond the radius, or exactly at the pointer, the force is the neutral
//! zero vector. Within it, each component is
//! `(strength * sign - velocity) / max(distSq, floor)` projected through the
//! unnormalized direction `(pointer - position) / distSq`: closer particles
//! feel a stronger pull, and the velocity term damps runaway acceleration.

use crate::config::SimConfig;
use crate::fx::{
    ck, cdiv_v, cmul_v, csub_v, c_div, c_mul, c_sub, fx_div, fx_div_v, fx_mul, fx_mul_v, iabs,
    lemma_fx_mul_bound, lemma_tdiv_mono, FX_ONE,
};
use crate::vec2::{dist_sq_checked, dist_sq_v, lemma_dist_nonneg, Vec2x};
use vstd::prelude::*;

verus! {

/// Below this squared distance the interaction divisor stops shrinking
/// (80 whole units).
pub const INTERACTION_DIST_FLOOR: i64 = 5242880;

/// One component of the near-pointer force.
pub open spec fn interaction_component_v(
    delta: int,
    vel: i64,
    d2: int,
    m: int,
    ks: Option<i64>,
) -> Option<i64> {
    cmul_v(cdiv_v(csub_v(ks, Some(vel)), ck(m)), ck(fx_div_v(delta, d2)))
}

/// The pointer force on one particle: neutral outside the radius or exactly
/// at the pointer, the damped inverse-square pull or push within it. A
/// non-finite velocity makes the near force non-finite too.
pub open spec fn interaction_force_v(
    pos: Vec2x,
    pointer: Vec2x,
    force_sign: i64,
    velocity: Option<Vec2x>,
    cfg: SimConfig,
) -> Option<Vec2x> {
    let d2 = dist_sq_v(pointer, pos);
    let thr = fx_mul_v(cfg.interaction_radius as int, cfg.interaction_radius as int);
    if d2 > thr || d2 == 0 {
        Some(Vec2x { x: 0, y: 0 })
    } else {
        let m = if d2 > INTERACTION_DIST_FLOOR {
            d2
        } else {
            INTERACTION_DIST_FLOOR as int
        };
        let ks = cmul_v(Some(cfg.interaction_strength), Some(force_sign));
        match velocity {
            Some(v) => {
                let fx = interaction_component_v(pointer.x - pos.x, v.x, d2, m, ks);
                let fy = interaction_component_v(pointer.y - pos.y, v.y, d2, m, ks);
                match (fx, fy) {
                    (Some(x), Some(y)) => Some(Vec2x { x, y }),
                    _ => None,
                }
            },
            None => None,
        }
    }
}

/// Computes the pointer force on one particle.
pub fn calculate_interaction_force(
    pos: Vec2x,
    mouse_pos: Vec2x,
    force_sign: i64,
    velocity: Option<Vec2x>,
    cfg: &SimConfig,
) -> (r: Option<Vec2x>)
    requires
        cfg.wf(),
    ensures
        r == interaction_force_v(pos, mouse_pos, force_sign, velocity, *cfg),
{
    proof {
        assert(cfg.interaction_radius as int * cfg.interaction_radius as int
            <= 0x4000_0000_0000_0000int * 65536) by (nonlinear_arith)
            requires
                0 <= cfg.interaction_radius <= 0x80_0000_0000i64;
        lemma_fx_mul_bound(
            cfg.interaction_radius as int,
            cfg.interaction_radius as int,
            0x4000_0000_0000_0000,
        );
        lemma_dist_nonneg(mouse_pos, pos);
    }
    let thr = fx_mul(cfg.interaction_radius, cfg.interaction_radius).unwrap();
    let d2_opt = dist_sq_checked(mouse_pos, pos);
    let d2 = match d2_opt {
        Some(d2) => d2,
        None => {
            return Some(Vec2x { x: 0, y: 0 });
        },
    };
    if d2 > thr || d2 == 0 {
        return Some(Vec2x { x: 0, y: 0 });
    }
    // In the near branch the offsets are small: a large offset would have
    // pushed the squared distance past the threshold.
    let dxw: i128 = (mouse_pos.x as i128) - (pos.x as i128);
    let dyw: i128 = (mouse_pos.y as i128) - (pos.y as i128);
    proof {
        let sum = (mouse_pos.x - pos.x) * (mouse_pos.x - pos.x) + (mouse_pos.y - pos.y) * (
        mouse_pos.y - pos.y);
        assert(dxw * dxw >= 0 && dyw * dyw >= 0) by (nonlinear_arith);
        if iabs(dxw as int) > 0x100_0000_0000int || iabs(dyw as int) > 0x100_0000_0000int {
            assert(sum >= 1208925819614629174706176int) by (nonlinear_arith)
                requires
                    iabs(dxw as int) > 0x100_0000_0000int || iabs(dyw as int) > 0x100_0000_0000int,
                    dxw == mouse_pos.x - pos.x,
                    dyw == mouse_pos.y - pos.y,
                    dxw * dxw >= 0,
                    dyw * dyw >= 0,
                    sum == dxw * dxw + dyw * dyw;
            lemma_tdiv_mono(1208925819614629174706176int, sum, FX_ONE as int);
            assert(false);
        }
    }
    let dx = dxw as i64;
    let dy = dyw as i64;
    let m: i64 = if d2 > INTERACTION_DIST_FLOOR {
        d2
    } else {
        INTERACTION_DIST_FLOOR
    };
    let ks = fx_mul(cfg.interaction_strength, force_sign);
    match velocity {
        Some(v) => {
            let dirx = fx_div(dx, d2);
            let diry = fx_div(dy, d2);
            let fx = c_mul(c_div(c_sub(ks, Some(v.x)), Some(m)), dirx);
            let fy = c_mul(c_div(c_sub(ks, Some(v.y)), Some(m)), diry);
            match (fx, fy) {
                (Some(x), Some(y)) => Some(Vec2x { x, y }),
                _ => None,
            }
        },
        None => None,
    }
}

} // verus!
