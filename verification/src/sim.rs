//! The simulation step orchestrator.
//!
//! One tick runs six strictly ordered stages over a fixed set of particles:
//! predict (gravity, look-ahead position), index (neighbor-cell cache and
//! grid), density, force accumulation (pressure, drag, pointer interaction),
//! viscosity against the post-force velocity snapshot, and integrate with
//! boundary collisions. No stage reads another particle's output of the same
//! stage, only completed prior-stage arrays, so the per-particle work within
//! a stage is independent. A velocity that left the representable range
//! (`None`, the analogue of a non-finite float) is recovered at the last
//! stage by reverting to the previous tick's velocity.

use crate::collide::{resolve_collisions, resolve_collisions_v};
use crate::config::{SimConfig, FX_PI};
use crate::density::{
    calculate_density_for_every_particle, max_influence_v, neighbor_cells_seq, particle_density_v,
};
use crate::fx::{
    ck, fx_mul, fx_mul_v, fx_sqrt, in_i64, isqrt_v, lemma_fx_mul_bound, lemma_isqrt_bounds,
    lemma_tdiv_facts, sat, tdiv, FX_ONE,
};
use crate::grid::{
    buckets, calculate_connected_cells_for_every_particle, cell_of, grid_math, grid_wf,
    neighbor_index_v, split_particles_into_grid,
};
use crate::interaction::{calculate_interaction_force, interaction_force_v};
use crate::pressure::{calculate_pressure_force, pressure_force_v};
use crate::vec2::{
    ck2, dist_sq_checked, dist_sq_v, dist_v, lemma_dist_nonneg, ov_add, ov_add_v, ov_div, ov_div_v,
    ov_scale, ov_scale_v, ov_sub, ov_sub_v, sat_v_add, sat_v_scale, v_div_int, Vec2x,
};
use crate::viscosity::{calculate_viscosity_force, viscosity_force_v};
use crate::fx::{cmul_v, c_mul, fx_div, fx_div_v, div_int};
use vstd::prelude::*;

verus! {

/// Largest accepted particle radius.
pub const PARTICLE_RADIUS_MAX: i64 = 8388608;

/// Ratio of a particle's rendered footprint to its radius, in whole units.
pub const PARTICLE_RESOLUTION: i64 = 50;

/// The look-ahead position divides the velocity by this constant.
pub const LOOKAHEAD_DIVISOR: i64 = 120;

/// One simulation entity. The `index` is the particle's stable identity and
/// must stay equal to its slot for the per-tick auxiliary arrays to line up.
#[derive(Clone, Copy, PartialEq, Eq, Structural, Debug)]
pub struct Particle {
    pub position: Vec2x,
    pub velocity: Vec2x,
    /// The previous tick's velocity, kept only as the rollback value when a
    /// velocity turns non-finite.
    pub last_velocity: Vec2x,
    /// The one-substep look-ahead position every neighbor query of the tick
    /// uses.
    pub predicted_position: Vec2x,
    pub mass: i64,
    pub radius: i64,
    /// Derived from the radius at creation, fixed afterwards.
    pub area: i64,
    pub index: usize,
    /// The last computed density, kept for external (visual) consumption
    /// only.
    pub density: i64,
}

/// The rendered area a radius derives to.
pub open spec fn area_of(radius: int) -> int {
    PARTICLE_RESOLUTION * fx_mul_v(FX_PI as int, fx_mul_v(radius, radius))
}

impl Particle {
    /// A fresh particle: zero position, look-ahead and density, the given
    /// velocity, and an area derived from the radius.
    pub fn new(mass: i64, velocity: Vec2x, radius: i64, index: usize) -> (p: Particle)
        requires
            0 <= radius <= PARTICLE_RADIUS_MAX,
        ensures
            p == (Particle {
                position: Vec2x { x: 0, y: 0 },
                velocity,
                last_velocity: Vec2x { x: 0, y: 0 },
                predicted_position: Vec2x { x: 0, y: 0 },
                mass,
                radius,
                area: area_of(radius as int) as i64,
                index,
                density: 0,
            }),
    {
        proof {
            assert(radius as int * radius as int <= 0x4000_0000int * 65536) by (nonlinear_arith)
                requires
                    0 <= radius <= 0x80_0000i64;
            lemma_fx_mul_bound(radius as int, radius as int, 0x4000_0000);
            assert(FX_PI as int * fx_mul_v(radius as int, radius as int) <= 0x1_0000_0000int
                * 65536) by (nonlinear_arith)
                requires
                    0 <= fx_mul_v(radius as int, radius as int) <= 0x4000_0000int,
                    FX_PI == 205887i64;
            lemma_fx_mul_bound(
                FX_PI as int,
                fx_mul_v(radius as int, radius as int),
                0x1_0000_0000,
            );
        }
        let rr = fx_mul(radius, radius).unwrap();
        let pir2 = fx_mul(FX_PI, rr).unwrap();
        let area = PARTICLE_RESOLUTION * pir2;
        Particle {
            position: Vec2x { x: 0, y: 0 },
            velocity,
            last_velocity: Vec2x { x: 0, y: 0 },
            predicted_position: Vec2x { x: 0, y: 0 },
            mass,
            radius,
            area,
            index,
            density: 0,
        }
    }
}

/// External interaction input for one tick: a world-space pointer position
/// and a signed strength factor.
#[derive(Clone, Copy, PartialEq, Eq, Structural, Debug)]
pub struct PointerInput {
    pub position: Vec2x,
    pub force_sign: i64,
}

/// The drag force on a particle: quadratic in speed, opposing the velocity
/// direction, scaled by the drag coefficient and the particle's area. Zero
/// for a velocity whose speed truncates to zero — a direction is never
/// normalized from a zero vector; `None` propagates from a non-finite
/// velocity or an overflowing term.
pub open spec fn drag_force_v(velocity: Option<Vec2x>, area: i64, cfg: SimConfig) -> Option<
    Vec2x,
> {
    match velocity {
        None => None,
        Some(v) => {
            let zero = Vec2x { x: 0, y: 0 };
            let speed = dist_v(v, zero);
            if speed == 0 {
                Some(zero)
            } else {
                let s2 = ck(dist_sq_v(v, zero));
                let m1 = cmul_v(s2, Some(cfg.drag_coefficient));
                let m2 = cmul_v(m1, Some(area));
                let m3 = match m2 {
                    Some(x) => ck(tdiv(x as int, 2)),
                    None => None,
                };
                let ux = ck(fx_div_v(v.x as int, speed));
                let uy = ck(fx_div_v(v.y as int, speed));
                let fx = cmul_v(m3, ux);
                let fy = cmul_v(m3, uy);
                match (fx, fy) {
                    (Some(x), Some(y)) => Some(Vec2x { x, y }),
                    _ => None,
                }
            }
        },
    }
}

/// Computes the drag force on one particle.
pub fn calc_drag_force(velocity: Option<Vec2x>, area: i64, cfg: &SimConfig) -> (r: Option<Vec2x>)
    ensures
        r == drag_force_v(velocity, area, *cfg),
{
    let v = match velocity {
        Some(v) => v,
        None => {
            return None;
        },
    };
    let zero = Vec2x { x: 0, y: 0 };
    proof {
        lemma_dist_nonneg(v, zero);
    }
    let s2o = dist_sq_checked(v, zero);
    match s2o {
        Some(s2) => {
            let speed = fx_sqrt(s2);
            if speed == 0 {
                Some(zero)
            } else {
                let m1 = c_mul(Some(s2), Some(cfg.drag_coefficient));
                let m2 = c_mul(m1, Some(area));
                let m3 = match m2 {
                    Some(x) => {
                        proof {
                            lemma_tdiv_facts(x as int, 2);
                        }
                        Some(div_int(x, 2))
                    },
                    None => None,
                };
                let ux = fx_div(v.x, speed);
                let uy = fx_div(v.y, speed);
                let fx = c_mul(m3, ux);
                let fy = c_mul(m3, uy);
                match (fx, fy) {
                    (Some(x), Some(y)) => Some(Vec2x { x, y }),
                    _ => None,
                }
            }
        },
        None => {
            // The exact squared speed exceeds the representation, so the
            // exact speed is positive and the first product is `None`.
            proof {
                lemma_isqrt_bounds(dist_sq_v(v, zero) * FX_ONE);
                assert(dist_sq_v(v, zero) * FX_ONE >= 65536) by (nonlinear_arith)
                    requires
                        dist_sq_v(v, zero) >= 1,
                        FX_ONE == 65536i64;
                assert(dist_v(v, zero) >= 1) by {
                    let r = isqrt_v(dist_sq_v(v, zero) * FX_ONE);
                    if r <= 0 {
                        assert((r + 1) * (r + 1) <= 1) by (nonlinear_arith)
                            requires
                                0 <= r + 1 <= 1;
                        assert(false);
                    }
                }
            }
            None
        },
    }
}

/// The non-finite-velocity guard of the integration stage: a `None`
/// candidate reverts to the previous tick's velocity, a finite candidate is
/// kept as is.
pub fn apply_velocity_guard(candidate: Option<Vec2x>, last_velocity: Vec2x) -> (r: Vec2x)
    ensures
        candidate is Some ==> r == candidate.unwrap(),
        candidate is None ==> r == last_velocity,
{
    match candidate {
        Some(v) => v,
        None => last_velocity,
    }
}

/// The scaled frame delta.
pub open spec fn delta_v(delta_time: i64, cfg: SimConfig) -> int {
    fx_mul_v(delta_time as int, cfg.time_scale as int)
}

/// Stage 1, velocity side: the checked post-gravity velocity candidate.
pub open spec fn cand1_v(p: Particle, delta: i64, cfg: SimConfig) -> Option<Vec2x> {
    ov_add_v(Some(p.velocity), ov_scale_v(Some(cfg.gravity), Some(delta)))
}

/// Stage 1, position side: the saturating look-ahead position, which
/// behaves like an infinity and maps to the invalid grid cell when the
/// velocity blew up.
pub open spec fn predicted_v(p: Particle, delta: i64, cfg: SimConfig) -> Vec2x {
    let gdx = sat(fx_mul_v(cfg.gravity.x as int, delta as int));
    let gdy = sat(fx_mul_v(cfg.gravity.y as int, delta as int));
    let v1x = sat(p.velocity.x + gdx);
    let v1y = sat(p.velocity.y + gdy);
    let lkx = tdiv(v1x as int, LOOKAHEAD_DIVISOR as int);
    let lky = tdiv(v1y as int, LOOKAHEAD_DIVISOR as int);
    Vec2x { x: sat(p.position.x + lkx), y: sat(p.position.y + lky) }
}

/// All look-ahead positions of a tick.
pub open spec fn preds_seq(ps: Seq<Particle>, delta: i64, cfg: SimConfig) -> Seq<Vec2x> {
    Seq::new(ps.len(), |i: int| predicted_v(ps[i], delta, cfg))
}

/// All stage-1 velocity candidates of a tick.
pub open spec fn cands1_seq(ps: Seq<Particle>, delta: i64, cfg: SimConfig) -> Seq<Option<Vec2x>> {
    Seq::new(ps.len(), |i: int| cand1_v(ps[i], delta, cfg))
}

/// All densities of a tick, from the grid the look-ahead positions
/// determine.
pub open spec fn densities_seq(preds: Seq<Vec2x>, cfg: SimConfig) -> Seq<i64> {
    Seq::new(preds.len(), |i: int| particle_density_v(i, preds, grid_math(preds, cfg), cfg) as i64)
}

/// Stage 4: the velocity candidate after the pressure, drag and interaction
/// forces.
pub open spec fn cand2_v(
    i: int,
    ps: Seq<Particle>,
    preds: Seq<Vec2x>,
    densities: Seq<i64>,
    cands1: Seq<Option<Vec2x>>,
    delta: i64,
    pointer: Option<PointerInput>,
    cfg: SimConfig,
) -> Option<Vec2x> {
    let pf = pressure_force_v(
        i,
        neighbor_cells_seq(preds[i], cfg),
        grid_math(preds, cfg),
        preds,
        densities,
        cfg,
    );
    let modded = ov_scale_v(pf, Some(cfg.pressure_force_modifier));
    let drag = drag_force_v(cands1[i], ps[i].area, cfg);
    let inter = match pointer {
        Some(pt) => interaction_force_v(preds[i], pt.position, pt.force_sign, cands1[i], cfg),
        None => Some(Vec2x { x: 0, y: 0 }),
    };
    let force = ov_add_v(ov_sub_v(modded, drag), inter);
    let acc = ov_div_v(force, Some(ps[i].mass));
    ov_add_v(cands1[i], ov_scale_v(acc, Some(delta)))
}

/// All stage-4 candidates of a tick.
pub open spec fn cands2_seq(
    ps: Seq<Particle>,
    preds: Seq<Vec2x>,
    densities: Seq<i64>,
    delta: i64,
    pointer: Option<PointerInput>,
    cfg: SimConfig,
) -> Seq<Option<Vec2x>> {
    Seq::new(
        ps.len(),
        |i: int| cand2_v(i, ps, preds, densities, cands1_seq(ps, delta, cfg), delta, pointer, cfg),
    )
}

/// Stage 5: the candidate after viscosity, evaluated against the full
/// stage-4 snapshot.
pub open spec fn cand3_v(
    i: int,
    preds: Seq<Vec2x>,
    cands2: Seq<Option<Vec2x>>,
    cfg: SimConfig,
) -> Option<Vec2x> {
    ov_add_v(
        cands2[i],
        viscosity_force_v(
            preds[i],
            cands2[i],
            neighbor_cells_seq(preds[i], cfg),
            grid_math(preds, cfg),
            preds,
            cands2,
            cfg,
        ),
    )
}

/// Stage 6 and the whole tick for one particle: the guarded velocity, the
/// saturating position advance, and the boundary collision resolution.
pub open spec fn step_particle_v(
    ps: Seq<Particle>,
    i: int,
    delta: i64,
    pointer: Option<PointerInput>,
    cfg: SimConfig,
) -> Particle {
    let preds = preds_seq(ps, delta, cfg);
    let densities = densities_seq(preds, cfg);
    let cands2 = cands2_seq(ps, preds, densities, delta, pointer, cfg);
    let cand3 = cand3_v(i, preds, cands2, cfg);
    let vel = match cand3 {
        Some(v) => v,
        None => ps[i].last_velocity,
    };
    let moved = Vec2x {
        x: sat(ps[i].position.x + sat(fx_mul_v(vel.x as int, delta as int))),
        y: sat(ps[i].position.y + sat(fx_mul_v(vel.y as int, delta as int))),
    };
    let (cpos, cvel) = resolve_collisions_v(moved, vel, cfg);
    Particle {
        position: cpos,
        velocity: cvel,
        last_velocity: vel,
        predicted_position: preds[i],
        mass: ps[i].mass,
        radius: ps[i].radius,
        area: ps[i].area,
        index: ps[i].index,
        density: densities[i],
    }
}

/// Law: a tick never publishes a negative density — for every particle, in
/// every state the step can reach.
pub proof fn lemma_step_density_nonnegative(
    ps: Seq<Particle>,
    i: int,
    delta: i64,
    pointer: Option<PointerInput>,
    cfg: SimConfig,
)
    requires
        cfg.wf(),
        0 <= i < ps.len(),
        9 * ps.len() * max_influence_v(cfg) <= i64::MAX,
    ensures
        step_particle_v(ps, i, delta, pointer, cfg).density >= 0,
{
    let preds = preds_seq(ps, delta, cfg);
    let mgrid = grid_math(preds, cfg);
    let cc = neighbor_cells_seq(preds[i], cfg);
    crate::density::lemma_density_nonnegative(preds[i], cc, 9, mgrid, preds, cfg);
    assert forall|k2: int|
        0 <= k2 < cc.len() && cc[k2] is Some implies #[trigger] cc[k2].unwrap()
        < mgrid.len() by {
        crate::grid::lemma_cell_index_bound(
            crate::grid::neighbor_cell_v(cell_of(preds[i], cfg), k2, cfg),
            cfg,
        );
    }
    assert forall|c: int| 0 <= c < mgrid.len() implies #[trigger] mgrid[c].len()
        <= preds.len() by {
        crate::grid::lemma_cell_members_len(preds, cfg, c, preds.len() as int);
    }
    crate::density::lemma_density_bounded(preds[i], cc, 9, mgrid, preds, cfg);
    crate::density::lemma_influence_bounds(preds[i], preds[i], cfg);
    assert(9 * preds.len() * max_influence_v(cfg) <= i64::MAX);
    let d = particle_density_v(i, preds, mgrid, cfg);
    assert(0 <= d <= i64::MAX);
    assert(densities_seq(preds, cfg)[i] == d as i64);
}

/// Law: a particle whose tick velocity turned non-finite ends the tick
/// carrying the previous tick's velocity forward — the published rollback
/// value is exactly the old one.
pub proof fn lemma_step_recovers_non_finite_velocity(
    ps: Seq<Particle>,
    i: int,
    delta: i64,
    pointer: Option<PointerInput>,
    cfg: SimConfig,
)
    requires
        0 <= i < ps.len(),
    ensures
        ({
            let preds = preds_seq(ps, delta, cfg);
            let densities = densities_seq(preds, cfg);
            let cands2 = cands2_seq(ps, preds, densities, delta, pointer, cfg);
            cand3_v(i, preds, cands2, cfg) is None
        }) ==> step_particle_v(ps, i, delta, pointer, cfg).last_velocity == ps[i].last_velocity,
{
}

/// A running simulation: the validated configuration and the step that
/// advances a particle set one tick.
#[derive(Clone, Copy, PartialEq, Eq, Structural, Debug)]
pub struct Simulation {
    pub config: SimConfig,
}

impl Simulation {
    pub fn new(config: SimConfig) -> (s: Simulation)
        ensures
            s.config == config,
    {
        Simulation { config }
    }

    /// Advances every particle one tick: predict, index, density, forces,
    /// viscosity, integrate and collide, exactly as [`step_particle_v`]
    /// states it, particle by particle.
    pub fn step(
        &self,
        particles: &mut Vec<Particle>,
        delta_time: i64,
        pointer: Option<PointerInput>,
    )
        requires
            self.config.wf(),
            in_i64(delta_v(delta_time, self.config)),
            9 * old(particles)@.len() <= usize::MAX,
            9 * old(particles)@.len() * max_influence_v(self.config) <= i64::MAX,
            forall|i: int|
                0 <= i < old(particles)@.len() ==> #[trigger] old(particles)@[i].index == i,
        ensures
            final(particles)@.len() == old(particles)@.len(),
            forall|i: int|
                0 <= i < final(particles)@.len() ==> #[trigger] final(particles)@[i]
                    == step_particle_v(
                    old(particles)@,
                    i,
                    (delta_v(delta_time, self.config)) as i64,
                    pointer,
                    self.config,
                ),
    {
        let cfg = &self.config;
        let ghost ops = old(particles)@;
        let n = particles.len();
        let delta = fx_mul(delta_time, cfg.time_scale).unwrap();

        // Stage 1: apply gravity to the velocity candidates and compute the
        // look-ahead positions.
        let mut cands1: Vec<Option<Vec2x>> = Vec::new();
        let mut preds: Vec<Vec2x> = Vec::new();
        let mut i: usize = 0;
        while i < n
            invariant
                cfg == &self.config,
                cfg.wf(),
                i <= n,
                n == particles@.len(),
                particles@ == ops,
                delta == delta_v(delta_time, self.config),
                cands1@.len() == i,
                preds@.len() == i,
                forall|j: int| 0 <= j < i ==> cands1@[j] == cand1_v(ops[j], delta, self.config),
                forall|j: int| 0 <= j < i ==> preds@[j] == predicted_v(ops[j], delta, self.config),
            decreases n - i,
        {
            let p = particles[i];
            let c1 = ov_add(Some(p.velocity), ov_scale(Some(cfg.gravity), Some(delta)));
            let gd = sat_v_scale(cfg.gravity, delta);
            let v1 = sat_v_add(p.velocity, gd);
            let lk = v_div_int(v1, LOOKAHEAD_DIVISOR);
            let pred = sat_v_add(p.position, lk);
            cands1.push(c1);
            preds.push(pred);
            i = i + 1;
        }
        proof {
            assert(preds@ =~= preds_seq(ops, delta, self.config));
            assert(cands1@ =~= cands1_seq(ops, delta, self.config));
        }

        // Stage 2: the per-particle neighbor-cell cache and the grid, both
        // from the look-ahead positions.
        let ccells = calculate_connected_cells_for_every_particle(&preds, cfg);
        let grid = split_particles_into_grid(&preds, cfg);

        // Stage 3: densities against the completed grid.
        let densities = calculate_density_for_every_particle(&grid, &preds, &ccells, cfg);
        proof {
            assert(densities@ =~= densities_seq(preds@, self.config));
        }

        // Stage 4: pressure, drag and interaction forces update the
        // candidates.
        let mut cands2: Vec<Option<Vec2x>> = Vec::new();
        let mut i: usize = 0;
        while i < n
            invariant
                cfg == &self.config,
                cfg.wf(),
                i <= n,
                n == particles@.len(),
                particles@ == ops,
                9 * n <= usize::MAX,
                delta == delta_v(delta_time, self.config),
                preds@ == preds_seq(ops, delta, self.config),
                cands1@ == cands1_seq(ops, delta, self.config),
                preds@.len() == n,
                cands1@.len() == n,
                grid_wf(grid@, preds@, self.config),
                buckets(grid@) == grid_math(preds@, self.config),
                densities@.len() == n,
                densities@ == densities_seq(preds@, self.config),
                ccells@.len() == 9 * n,
                forall|i2: int, k: int|
                    0 <= i2 < n && 0 <= k < 9 ==> ccells@[9 * i2 + k] == neighbor_index_v(
                        cell_of(preds@[i2], self.config),
                        k,
                        self.config,
                    ),
                cands2@.len() == i,
                forall|j: int|
                    0 <= j < i ==> cands2@[j] == cand2_v(
                        j,
                        ops,
                        preds@,
                        densities@,
                        cands1@,
                        delta,
                        pointer,
                        self.config,
                    ),
            decreases n - i,
        {
            let mut cc: Vec<Option<usize>> = Vec::new();
            let mut k: usize = 0;
            while k < 9
                invariant
                    i < n,
                    k <= 9,
                    9 * n <= usize::MAX,
                    ccells@.len() == 9 * n,
                    preds@.len() == n,
                    forall|i2: int, k2: int|
                        0 <= i2 < n && 0 <= k2 < 9 ==> ccells@[9 * i2 + k2] == neighbor_index_v(
                            cell_of(preds@[i2], self.config),
                            k2,
                            self.config,
                        ),
                    cc@.len() == k,
                    forall|k2: int|
                        0 <= k2 < k ==> cc@[k2] == neighbor_index_v(
                            cell_of(preds@[i as int], self.config),
                            k2,
                            self.config,
                        ),
                decreases 9 - k,
            {
                cc.push(ccells[9 * i + k]);
                k = k + 1;
            }
            proof {
                assert(cc@ =~= neighbor_cells_seq(preds@[i as int], self.config));
            }
            let pf = calculate_pressure_force(i, &cc, &preds, &grid, &densities, cfg);
            let modded = ov_scale(pf, Some(cfg.pressure_force_modifier));
            let p = particles[i];
            let drag = calc_drag_force(cands1[i], p.area, cfg);
            let inter: Option<Vec2x> = match pointer {
                Some(pt) => calculate_interaction_force(
                    preds[i],
                    pt.position,
                    pt.force_sign,
                    cands1[i],
                    cfg,
                ),
                None => Some(Vec2x { x: 0, y: 0 }),
            };
            let force = ov_add(ov_sub(modded, drag), inter);
            let acc = ov_div(force, Some(p.mass));
            let c2 = ov_add(cands1[i], ov_scale(acc, Some(delta)));
            cands2.push(c2);
            i = i + 1;
        }
        proof {
            assert(cands2@ =~= cands2_seq(ops, preds@, densities@, delta, pointer, self.config));
        }

        // Stage 5: viscosity against the full stage-4 snapshot.
        let mut cands3: Vec<Option<Vec2x>> = Vec::new();
        let mut i: usize = 0;
        while i < n
            invariant
                cfg == &self.config,
                cfg.wf(),
                i <= n,
                n == particles@.len(),
                particles@ == ops,
                9 * n <= usize::MAX,
                delta == delta_v(delta_time, self.config),
                preds@ == preds_seq(ops, delta, self.config),
                preds@.len() == n,
                grid_wf(grid@, preds@, self.config),
                buckets(grid@) == grid_math(preds@, self.config),
                densities@ == densities_seq(preds@, self.config),
                cands2@ == cands2_seq(ops, preds@, densities@, delta, pointer, self.config),
                cands2@.len() == n,
                ccells@.len() == 9 * n,
                forall|i2: int, k: int|
                    0 <= i2 < n && 0 <= k < 9 ==> ccells@[9 * i2 + k] == neighbor_index_v(
                        cell_of(preds@[i2], self.config),
                        k,
                        self.config,
                    ),
                cands3@.len() == i,
                forall|j: int|
                    0 <= j < i ==> cands3@[j] == cand3_v(j, preds@, cands2@, self.config),
            decreases n - i,
        {
            let mut cc: Vec<Option<usize>> = Vec::new();
            let mut k: usize = 0;
            while k < 9
                invariant
                    i < n,
                    k <= 9,
                    9 * n <= usize::MAX,
                    ccells@.len() == 9 * n,
                    preds@.len() == n,
                    forall|i2: int, k2: int|
                        0 <= i2 < n && 0 <= k2 < 9 ==> ccells@[9 * i2 + k2] == neighbor_index_v(
                            cell_of(preds@[i2], self.config),
                            k2,
                            self.config,
                        ),
                    cc@.len() == k,
                    forall|k2: int|
                        0 <= k2 < k ==> cc@[k2] == neighbor_index_v(
                            cell_of(preds@[i as int], self.config),
                            k2,
                            self.config,
                        ),
                decreases 9 - k,
            {
                cc.push(ccells[9 * i + k]);
                k = k + 1;
            }
            proof {
                assert(cc@ =~= neighbor_cells_seq(preds@[i as int], self.config));
            }
            let visc = calculate_viscosity_force(
                preds[i],
                cands2[i],
                &preds,
                &cc,
                &grid,
                &cands2,
                cfg,
            );
            let c3 = ov_add(cands2[i], visc);
            cands3.push(c3);
            i = i + 1;
        }

        // Stage 6: guard the velocity, advance the position, resolve the
        // boundary collisions, and publish the density.
        let mut i: usize = 0;
        while i < n
            invariant
                cfg == &self.config,
                cfg.wf(),
                i <= n,
                n == particles@.len(),
                delta == delta_v(delta_time, self.config),
                preds@ == preds_seq(ops, delta, self.config),
                preds@.len() == n,
                densities@ == densities_seq(preds@, self.config),
                densities@.len() == n,
                cands2@ == cands2_seq(ops, preds@, densities@, delta, pointer, self.config),
                cands3@.len() == n,
                forall|j: int|
                    0 <= j < n ==> cands3@[j] == cand3_v(j, preds@, cands2@, self.config),
                forall|j: int| i <= j < n ==> particles@[j] == ops[j],
                forall|j: int|
                    0 <= j < i ==> #[trigger] particles@[j] == step_particle_v(
                        ops,
                        j,
                        delta,
                        pointer,
                        self.config,
                    ),
            decreases n - i,
        {
            let p = particles[i];
            let vel = apply_velocity_guard(cands3[i], p.last_velocity);
            let mv = sat_v_scale(vel, delta);
            let moved = sat_v_add(p.position, mv);
            let (cpos, cvel) = resolve_collisions(moved, vel, cfg);
            let q = Particle {
                position: cpos,
                velocity: cvel,
                last_velocity: vel,
                predicted_position: preds[i],
                mass: p.mass,
                radius: p.radius,
                area: p.area,
                index: p.index,
                density: densities[i],
            };
            particles[i] = q;
            i = i + 1;
        }
    }
}

} // verus!
