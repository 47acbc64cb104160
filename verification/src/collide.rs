//! The boundary collision resolver.
//!
//! Each axis is resolved independently: a position component past the
//! interior half bound is clamped back to it, keeping its sign, and the
//! velocity component on that axis is reversed and damped. A corner hit
//! therefore damps both components in the same tick.

use crate::config::SimConfig;
use crate::fx::{fx_mul_v, sat, sat_fx_mul};
use crate::vec2::Vec2x;
use vstd::prelude::*;

verus! {

/// One axis of collision resolution: the clamped position and the damped,
/// reversed velocity; both unchanged while the position is in bounds.
pub open spec fn resolve_axis_v(p: i64, v: i64, hb: i64, damping: i64) -> (i64, i64) {
    if p > hb {
        (hb, sat(fx_mul_v(v as int, -(damping as int))))
    } else if p < -hb {
        ((-(hb as int)) as i64, sat(fx_mul_v(v as int, -(damping as int))))
    } else {
        (p, v)
    }
}

/// Both axes resolved independently.
pub open spec fn resolve_collisions_v(position: Vec2x, velocity: Vec2x, cfg: SimConfig) -> (
    Vec2x,
    Vec2x,
) {
    let (px, vx) = resolve_axis_v(position.x, velocity.x, cfg.half_bounds.x, cfg.collision_damping);
    let (py, vy) = resolve_axis_v(position.y, velocity.y, cfg.half_bounds.y, cfg.collision_damping);
    (Vec2x { x: px, y: py }, Vec2x { x: vx, y: vy })
}

/// Clamps a particle's position to the interior of the bounding box and
/// reflects the velocity component of every crossed axis with energy loss.
pub fn resolve_collisions(position: Vec2x, velocity: Vec2x, cfg: &SimConfig) -> (r: (Vec2x, Vec2x))
    requires
        cfg.wf(),
    ensures
        r == resolve_collisions_v(position, velocity, *cfg),
{
    let damp = cfg.collision_damping;
    let mut px = position.x;
    let mut py = position.y;
    let mut vx = velocity.x;
    let mut vy = velocity.y;
    if px > cfg.half_bounds.x {
        px = cfg.half_bounds.x;
        vx = sat_fx_mul(vx, -damp);
    } else if px < -cfg.half_bounds.x {
        px = -cfg.half_bounds.x;
        vx = sat_fx_mul(vx, -damp);
    }
    if py > cfg.half_bounds.y {
        py = cfg.half_bounds.y;
        vy = sat_fx_mul(vy, -damp);
    } else if py < -cfg.half_bounds.y {
        py = -cfg.half_bounds.y;
        vy = sat_fx_mul(vy, -damp);
    }
    (Vec2x { x: px, y: py }, Vec2x { x: vx, y: vy })
}

} // verus!
