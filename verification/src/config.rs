//! Simulation configuration.
//!
//! Every tunable the simulation depends on is fixed at construction:
//! gravity, the smoothing radius, the equation-of-state constants, the force
//! coefficients, the bounding box and the grid derived from it. The checked
//! constructor validates the parameters and precomputes the kernel
//! normalization constants; [`SimConfig::wf`] records what every verified
//! function may rely on.

use crate::fx::{
    fx_div, fx_div_v, fx_mul, fx_mul_v, lemma_fx_mul_bound, lemma_tdiv_facts, tdiv, tdiv_i128, FX_ONE,
};
use crate::vec2::{Vec2x, MAX_COORD, MAX_DIST};
use vstd::prelude::*;

verus! {

/// The circle constant, in fixed-point units.
pub const FX_PI: i64 = 205887;

/// Largest accepted smoothing radius (128 whole units), keeping every kernel
/// value representable.
pub const H_MAX: i64 = 8388608;

/// Largest accepted influence modifier (1024 whole units).
pub const INFLUENCE_MOD_MAX: i64 = 67108864;

/// Largest value the derivative scale can reach for an accepted radius.
pub const DERIV_SCALE_MAX: i64 = 1048576;

/// Largest accepted number of grid cells.
pub const N_CELLS_MAX: usize = 16777216;

/// The tunables handed to the constructor, as the caller states them.
#[derive(Clone, Copy, PartialEq, Eq, Structural, Debug)]
pub struct SimParams {
    /// Constant external acceleration applied each tick.
    pub gravity: Vec2x,
    /// Kernel cutoff radius; also the grid cell size.
    pub smoothing_radius: i64,
    /// Density the equation of state drives toward.
    pub target_density: i64,
    /// Linear equation-of-state factor from density error to pressure.
    pub pressure_multiplier: i64,
    /// Factor applied to the accumulated pressure force.
    pub pressure_force_modifier: i64,
    /// Factor applied to every kernel contribution in the density sum.
    pub influence_modifier: i64,
    /// Drag factor (air density folded in).
    pub drag_coefficient: i64,
    /// Factor applied to the accumulated viscosity force.
    pub viscosity_strength: i64,
    /// Half extents of the bounding box.
    pub bounds_half_extent: Vec2x,
    /// Rendered footprint of one particle; half of it is kept inside the box.
    pub particle_footprint: i64,
    /// Fraction of speed kept (and reversed) on a wall hit.
    pub collision_damping: i64,
    /// Pointer interaction cutoff radius.
    pub interaction_radius: i64,
    /// Pointer interaction strength.
    pub interaction_strength: i64,
    /// Multiplier applied to every frame delta.
    pub time_scale: i64,
}

/// The validated configuration, with derived values precomputed.
#[derive(Clone, Copy, PartialEq, Eq, Structural, Debug)]
pub struct SimConfig {
    pub gravity: Vec2x,
    pub smoothing_radius: i64,
    pub target_density: i64,
    pub pressure_multiplier: i64,
    pub pressure_force_modifier: i64,
    pub influence_modifier: i64,
    pub drag_coefficient: i64,
    pub viscosity_strength: i64,
    /// Interior half extents positions are clamped to: half the box less
    /// half a particle footprint.
    pub half_bounds: Vec2x,
    pub collision_damping: i64,
    pub interaction_radius: i64,
    pub interaction_strength: i64,
    pub time_scale: i64,
    /// Normalization volume of the density kernel.
    pub kernel_volume: i64,
    /// Scale of the density kernel's radial derivative.
    pub kernel_derivative_scale: i64,
    /// Grid cells along x.
    pub grid_w: usize,
    /// Grid cells along y.
    pub grid_h: usize,
    /// Total cell count, `grid_w * grid_h`.
    pub n_cells: usize,
}

/// `pi * h^4` in fixed-point units.
pub open spec fn pi_h4_v(h: int) -> int {
    fx_mul_v(FX_PI as int, fx_mul_v(fx_mul_v(h, h), fx_mul_v(h, h)))
}

/// The density kernel's normalization volume, `pi * h^4 / 6`.
pub open spec fn kernel_volume_v(h: int) -> int {
    tdiv(pi_h4_v(h), 6)
}

/// The density kernel derivative's scale, `12 / (pi * h^4)`.
pub open spec fn deriv_scale_v(h: int) -> int {
    if pi_h4_v(h) > 0 {
        fx_div_v(12 * FX_ONE, pi_h4_v(h))
    } else {
        0
    }
}

/// Cells needed to cover a span at cell size `h`, at least one.
pub open spec fn grid_count_v(span: int, h: int) -> int {
    let c = tdiv(span + h - 1, h);
    if c < 1 {
        1
    } else {
        c
    }
}

/// The configuration the parameters derive to, before validation.
pub open spec fn config_of(p: SimParams) -> SimConfig {
    let h = p.smoothing_radius as int;
    let gw = grid_count_v(2 * p.bounds_half_extent.x, h);
    let gh = grid_count_v(2 * p.bounds_half_extent.y, h);
    SimConfig {
        gravity: p.gravity,
        smoothing_radius: p.smoothing_radius,
        target_density: p.target_density,
        pressure_multiplier: p.pressure_multiplier,
        pressure_force_modifier: p.pressure_force_modifier,
        influence_modifier: p.influence_modifier,
        drag_coefficient: p.drag_coefficient,
        viscosity_strength: p.viscosity_strength,
        half_bounds: Vec2x {
            x: (p.bounds_half_extent.x - tdiv(p.particle_footprint as int, 2)) as i64,
            y: (p.bounds_half_extent.y - tdiv(p.particle_footprint as int, 2)) as i64,
        },
        collision_damping: p.collision_damping,
        interaction_radius: p.interaction_radius,
        interaction_strength: p.interaction_strength,
        time_scale: p.time_scale,
        kernel_volume: kernel_volume_v(h) as i64,
        kernel_derivative_scale: deriv_scale_v(h) as i64,
        grid_w: gw as usize,
        grid_h: gh as usize,
        n_cells: (gw * gh) as usize,
    }
}

/// Whether the parameters pass every validation the constructor makes.
pub open spec fn params_ok(p: SimParams) -> bool {
    let h = p.smoothing_radius as int;
    let gw = grid_count_v(2 * p.bounds_half_extent.x, h);
    let gh = grid_count_v(2 * p.bounds_half_extent.y, h);
    let hbx = p.bounds_half_extent.x - tdiv(p.particle_footprint as int, 2);
    let hby = p.bounds_half_extent.y - tdiv(p.particle_footprint as int, 2);
    &&& FX_ONE <= h <= H_MAX
    &&& 1 <= kernel_volume_v(h)
    &&& 0 <= deriv_scale_v(h) <= DERIV_SCALE_MAX
    &&& 0 <= p.influence_modifier <= INFLUENCE_MOD_MAX
    &&& 0 <= p.bounds_half_extent.x
    &&& 0 <= p.bounds_half_extent.y
    &&& 0 <= p.particle_footprint
    &&& 0 <= hbx <= MAX_COORD
    &&& 0 <= hby <= MAX_COORD
    &&& gw * h <= MAX_COORD
    &&& gh * h <= MAX_COORD
    &&& gw * gh <= N_CELLS_MAX
    &&& 0 <= p.collision_damping <= FX_ONE
    &&& 0 <= p.interaction_radius <= MAX_DIST
    &&& 0 <= p.time_scale
}

impl SimConfig {
    /// What every verified function relies on of a configuration.
    pub open spec fn wf(self) -> bool {
        let h = self.smoothing_radius as int;
        &&& FX_ONE <= h <= H_MAX
        &&& self.kernel_volume == kernel_volume_v(h)
        &&& self.kernel_derivative_scale == deriv_scale_v(h)
        &&& 1 <= self.kernel_volume
        &&& 0 <= self.kernel_derivative_scale <= DERIV_SCALE_MAX
        &&& 0 <= self.influence_modifier <= INFLUENCE_MOD_MAX
        &&& 1 <= self.grid_w
        &&& 1 <= self.grid_h
        &&& self.grid_w * h <= MAX_COORD
        &&& self.grid_h * h <= MAX_COORD
        &&& self.n_cells == self.grid_w * self.grid_h
        &&& self.n_cells <= N_CELLS_MAX
        &&& 0 <= self.half_bounds.x <= MAX_COORD
        &&& 0 <= self.half_bounds.y <= MAX_COORD
        &&& 0 <= self.collision_damping <= FX_ONE
        &&& 0 <= self.interaction_radius <= MAX_DIST
        &&& 0 <= self.time_scale
    }

    /// Validates the parameters and derives the full configuration; `None`
    /// exactly when a validation fails.
    pub fn new(p: SimParams) -> (r: Option<SimConfig>)
        ensures
            r == (if params_ok(p) {
                Some(config_of(p))
            } else {
                None::<SimConfig>
            }),
            r is Some ==> r.unwrap().wf(),
    {
        let h = p.smoothing_radius;
        if h < FX_ONE || h > H_MAX {
            return None;
        }
        proof {
            assert(h as int * h as int <= 0x4000_0000int * 65536) by (nonlinear_arith)
                requires
                    0 <= h <= 0x80_0000i64;
            lemma_fx_mul_bound(h as int, h as int, 0x4000_0000);
        }
        let h2 = fx_mul(h, h).unwrap();
        proof {
            assert(h2 as int * h2 as int <= 0x1000_0000_0000int * 65536) by (nonlinear_arith)
                requires
                    0 <= h2 <= 0x4000_0000i64;
            lemma_fx_mul_bound(h2 as int, h2 as int, 0x1000_0000_0000);
        }
        let h4 = fx_mul(h2, h2).unwrap();
        proof {
            assert(FX_PI as int * h4 as int <= 0x4000_0000_0000int * 65536) by (nonlinear_arith)
                requires
                    0 <= h4 <= 0x1000_0000_0000i64,
                    FX_PI == 205887i64;
            lemma_fx_mul_bound(FX_PI as int, h4 as int, 0x4000_0000_0000);
        }
        let pih4 = fx_mul(FX_PI, h4).unwrap();
        let vol = crate::fx::div_int(pih4, 6);
        if vol < 1 {
            return None;
        }
        let dscale: i64 = if pih4 > 0 {
            match fx_div(786432, pih4) {
                Some(v) => v,
                None => {
                    proof {
                        lemma_tdiv_facts(786432 * FX_ONE as int, pih4 as int);
                    }
                    return None;
                },
            }
        } else {
            0
        };
        proof {
            if pih4 > 0 {
                lemma_tdiv_facts(786432 * FX_ONE as int, pih4 as int);
            }
            assert(dscale == deriv_scale_v(h as int));
        }
        if dscale < 0 || dscale > DERIV_SCALE_MAX {
            return None;
        }
        if p.influence_modifier < 0 || p.influence_modifier > INFLUENCE_MOD_MAX {
            return None;
        }
        if p.bounds_half_extent.x < 0 || p.bounds_half_extent.y < 0 || p.particle_footprint < 0 {
            return None;
        }
        let half_foot = crate::fx::div_int(p.particle_footprint, 2);
        let hbx_w: i128 = (p.bounds_half_extent.x as i128) - (half_foot as i128);
        let hby_w: i128 = (p.bounds_half_extent.y as i128) - (half_foot as i128);
        if hbx_w < 0 || hbx_w > MAX_COORD as i128 || hby_w < 0 || hby_w > MAX_COORD as i128 {
            return None;
        }
        let gw_w = grid_count(p.bounds_half_extent.x, h);
        let gh_w = grid_count(p.bounds_half_extent.y, h);
        proof {
            assert(gw_w * h as int <= 170141183460469231731687303715884105727int) by (nonlinear_arith)
                requires
                    1 <= gw_w <= 36893488147419103232int,
                    0 < h <= 0x80_0000i64;
            assert(gh_w * h as int <= 170141183460469231731687303715884105727int) by (nonlinear_arith)
                requires
                    1 <= gh_w <= 36893488147419103232int,
                    0 < h <= 0x80_0000i64;
        }
        if gw_w * (h as i128) > MAX_COORD as i128 || gh_w * (h as i128) > MAX_COORD as i128 {
            return None;
        }
        proof {
            assert(gw_w <= 0x20_0000int && gh_w <= 0x20_0000int) by (nonlinear_arith)
                requires
                    gw_w >= 1,
                    gh_w >= 1,
                    h >= 0x1_0000i64,
                    gw_w * h as int <= 0x20_0000_0000int,
                    gh_w * h as int <= 0x20_0000_0000int;
            assert(0 <= gw_w * gh_w <= 0x400_0000_0000int) by (nonlinear_arith)
                requires
                    1 <= gw_w <= 0x20_0000int,
                    1 <= gh_w <= 0x20_0000int;
        }
        if gw_w * gh_w > N_CELLS_MAX as i128 {
            return None;
        }
        if p.collision_damping < 0 || p.collision_damping > FX_ONE {
            return None;
        }
        if p.interaction_radius < 0 || p.interaction_radius > MAX_DIST {
            return None;
        }
        if p.time_scale < 0 {
            return None;
        }
        proof {
            assert(gw_w * gh_w >= 1) by (nonlinear_arith)
                requires
                    gw_w >= 1,
                    gh_w >= 1;
        }
        Some(
            SimConfig {
                gravity: p.gravity,
                smoothing_radius: p.smoothing_radius,
                target_density: p.target_density,
                pressure_multiplier: p.pressure_multiplier,
                pressure_force_modifier: p.pressure_force_modifier,
                influence_modifier: p.influence_modifier,
                drag_coefficient: p.drag_coefficient,
                viscosity_strength: p.viscosity_strength,
                half_bounds: Vec2x { x: hbx_w as i64, y: hby_w as i64 },
                collision_damping: p.collision_damping,
                interaction_radius: p.interaction_radius,
                interaction_strength: p.interaction_strength,
                time_scale: p.time_scale,
                kernel_volume: vol,
                kernel_derivative_scale: dscale,
                grid_w: gw_w as usize,
                grid_h: gh_w as usize,
                n_cells: (gw_w * gh_w) as usize,
            },
        )
    }
}

/// Cells needed to cover twice the half extent at cell size `h`.
fn grid_count(half_extent: i64, h: i64) -> (r: i128)
    requires
        half_extent >= 0,
        h >= 1,
    ensures
        r == grid_count_v(2 * half_extent, h as int),
        1 <= r <= 2 * half_extent + h,
{
    let span: i128 = 2 * (half_extent as i128);
    let c = tdiv_i128(span + (h as i128) - 1, h as i128);
    proof {
        lemma_tdiv_facts(span as int + h as int - 1, h as int);
    }
    if c < 1 {
        1
    } else {
        c
    }
}

} // verus!
