//! The pairwise pressure force.
//!
//! For a sample particle, every *other* particle found in its nine neighbor
//! cells contributes `-sharedPressure * direction(other -> sample) * slope *
//! influenceModifier / density(other)`: particles above the target density
//! push apart, particles below it pull together. Exactly coincident
//! neighbors, and neighbors whose distance truncates to zero, are skipped so
//! a direction is never normalized from a zero vector; the divisor density
//! is clamped to a small positive floor so a near-vacuum neighbor cannot
//! inject an unbounded term. Any term or partial sum that leaves the
//! representation turns the whole force into `None`, which the integration
//! stage recovers from.

use crate::config::SimConfig;
use crate::density::shared_pressure_v;
use crate::fx::{ck, cmul_v, cdiv_v, cneg_v, c_div, c_mul, c_neg, fx_div, fx_div_v, iabs};
use crate::grid::{buckets, cell_of, grid_wf, lemma_cell_index_bound, lemma_in_grid_bounded, neighbor_index_v};
use crate::kernel::{smoothing_kernel_derivative, smoothing_kernel_derivative_v};
use crate::vec2::{distance, dist_v, lemma_dist_nonneg, ov_add, ov_add_v, Vec2x, MAX_COORD};
use crate::density::calculate_shared_pressure;
use vstd::prelude::*;

verus! {

/// Smallest divisor density the pressure force divides by.
pub const DENSITY_FLOOR: i64 = 1;

/// One neighbor's pressure term, with every checked step spelled out in the
/// order the computation performs them.
pub open spec fn pressure_term_v(
    sample_pos: Vec2x,
    other_pos: Vec2x,
    sample_density: i64,
    other_density: i64,
    cfg: SimConfig,
) -> Option<Vec2x> {
    let dist = dist_v(sample_pos, other_pos);
    let slope = smoothing_kernel_derivative_v(dist, cfg);
    let dirx = ck(fx_div_v(sample_pos.x - other_pos.x, dist));
    let diry = ck(fx_div_v(sample_pos.y - other_pos.y, dist));
    let sp = shared_pressure_v(other_density, sample_density, cfg);
    let s1 = cmul_v(sp, ck(slope));
    let s2 = cmul_v(s1, Some(cfg.influence_modifier));
    let denom = if other_density > DENSITY_FLOOR {
        other_density
    } else {
        DENSITY_FLOOR
    };
    let s3 = cdiv_v(s2, Some(denom));
    let tx = cneg_v(cmul_v(s3, dirx));
    let ty = cneg_v(cmul_v(s3, diry));
    match (tx, ty) {
        (Some(x), Some(y)) => Some(Vec2x { x, y }),
        _ => None,
    }
}

/// Folds one cell's members into the accumulated force, skipping the sample
/// itself, coincident neighbors, and zero-truncated distances.
pub open spec fn pressure_over_cell(
    sample: int,
    members: Seq<usize>,
    j: int,
    positions: Seq<Vec2x>,
    densities: Seq<i64>,
    cfg: SimConfig,
    acc: Option<Vec2x>,
) -> Option<Vec2x>
    decreases j,
{
    if j <= 0 {
        acc
    } else {
        let prev = pressure_over_cell(sample, members, j - 1, positions, densities, cfg, acc);
        let m = members[j - 1] as int;
        if m == sample || positions[m] == positions[sample] || dist_v(positions[sample], positions[m])
            == 0 {
            prev
        } else {
            ov_add_v(
                prev,
                pressure_term_v(positions[sample], positions[m], densities[sample], densities[m], cfg),
            )
        }
    }
}

/// Folds the first `k` neighbor cells; invalid cells contribute nothing.
pub open spec fn pressure_over_cells(
    sample: int,
    ccells: Seq<Option<usize>>,
    k: int,
    grid: Seq<Seq<usize>>,
    positions: Seq<Vec2x>,
    densities: Seq<i64>,
    cfg: SimConfig,
) -> Option<Vec2x>
    decreases k,
{
    if k <= 0 {
        Some(Vec2x { x: 0, y: 0 })
    } else {
        let prev = pressure_over_cells(sample, ccells, k - 1, grid, positions, densities, cfg);
        match ccells[k - 1] {
            Some(ci) => pressure_over_cell(
                sample,
                grid[ci as int],
                grid[ci as int].len() as int,
                positions,
                densities,
                cfg,
                prev,
            ),
            None => prev,
        }
    }
}

/// The full pressure force on one particle.
pub open spec fn pressure_force_v(
    sample: int,
    ccells: Seq<Option<usize>>,
    grid: Seq<Seq<usize>>,
    positions: Seq<Vec2x>,
    densities: Seq<i64>,
    cfg: SimConfig,
) -> Option<Vec2x> {
    pressure_over_cells(sample, ccells, 9, grid, positions, densities, cfg)
}

/// Law: the raw per-pair pressure contribution before the directional
/// projection and the divisor density — the shared pressure times the kernel
/// slope of the pair's distance, times the influence modifier — is the same
/// whichever particle of the pair is the sample.
pub proof fn lemma_pressure_pair_symmetric(
    a_pos: Vec2x,
    b_pos: Vec2x,
    a_density: i64,
    b_density: i64,
    cfg: SimConfig,
)
    ensures
        cmul_v(
            cmul_v(
                shared_pressure_v(b_density, a_density, cfg),
                ck(smoothing_kernel_derivative_v(dist_v(a_pos, b_pos), cfg)),
            ),
            Some(cfg.influence_modifier),
        ) == cmul_v(
            cmul_v(
                shared_pressure_v(a_density, b_density, cfg),
                ck(smoothing_kernel_derivative_v(dist_v(b_pos, a_pos), cfg)),
            ),
            Some(cfg.influence_modifier),
        ),
{
    crate::density::lemma_shared_pressure_symmetric(b_density, a_density, cfg);
    crate::vec2::lemma_distance_symmetric(a_pos, b_pos);
}

/// Accumulates the pressure force on the sample particle over its nine
/// neighbor cells; `None` exactly when some step left the representation.
pub fn calculate_pressure_force(
    sample_particle_index: usize,
    sample_connected_cells: &Vec<Option<usize>>,
    particles_pos: &Vec<Vec2x>,
    particle_grid: &Vec<Vec<usize>>,
    densities: &Vec<i64>,
    cfg: &SimConfig,
) -> (r: Option<Vec2x>)
    requires
        cfg.wf(),
        grid_wf(particle_grid@, particles_pos@, *cfg),
        sample_particle_index < particles_pos@.len(),
        densities@.len() == particles_pos@.len(),
        sample_connected_cells@.len() == 9,
        forall|k: int|
            0 <= k < 9 ==> sample_connected_cells@[k] == neighbor_index_v(
                cell_of(particles_pos@[sample_particle_index as int], *cfg),
                k,
                *cfg,
            ),
    ensures
        r == pressure_force_v(
            sample_particle_index as int,
            sample_connected_cells@,
            buckets(particle_grid@),
            particles_pos@,
            densities@,
            *cfg,
        ),
{
    let sample_point = particles_pos[sample_particle_index];
    let sample_density = densities[sample_particle_index];
    let ghost si = sample_particle_index as int;
    let mut acc: Option<Vec2x> = Some(Vec2x { x: 0, y: 0 });
    let mut k: usize = 0;
    while k < 9
        invariant
            cfg.wf(),
            grid_wf(particle_grid@, particles_pos@, *cfg),
            si == sample_particle_index as int,
            sample_particle_index < particles_pos@.len(),
            densities@.len() == particles_pos@.len(),
            sample_point == particles_pos@[si],
            sample_density == densities@[si],
            sample_connected_cells@.len() == 9,
            forall|k2: int|
                0 <= k2 < 9 ==> sample_connected_cells@[k2] == neighbor_index_v(
                    cell_of(particles_pos@[si], *cfg),
                    k2,
                    *cfg,
                ),
            k <= 9,
            acc == pressure_over_cells(
                si,
                sample_connected_cells@,
                k as int,
                buckets(particle_grid@),
                particles_pos@,
                densities@,
                *cfg,
            ),
        decreases 9 - k,
    {
        match sample_connected_cells[k] {
            Some(ci) => {
                proof {
                    lemma_cell_index_bound(
                        crate::grid::neighbor_cell_v(cell_of(particles_pos@[si], *cfg), k as int, *cfg),
                        *cfg,
                    );
                    lemma_in_grid_bounded(particles_pos@[si], *cfg);
                }
                let cell = &particle_grid[ci];
                let len = cell.len();
                let mut j: usize = 0;
                let ghost acc_k = acc;
                while j < len
                    invariant
                        cfg.wf(),
                        grid_wf(particle_grid@, particles_pos@, *cfg),
                        si == sample_particle_index as int,
                        sample_particle_index < particles_pos@.len(),
                        densities@.len() == particles_pos@.len(),
                        sample_point == particles_pos@[si],
                        sample_density == densities@[si],
                        j <= len,
                        ci < particle_grid@.len(),
                        cell == &particle_grid[ci as int],
                        len == cell@.len(),
                        iabs(sample_point.x as int) <= MAX_COORD,
                        iabs(sample_point.y as int) <= MAX_COORD,
                        acc == pressure_over_cell(
                            si,
                            cell@,
                            j as int,
                            particles_pos@,
                            densities@,
                            *cfg,
                            acc_k,
                        ),
                    decreases len - j,
                {
                    let m = cell[j];
                    proof {
                        assert(cell@[j as int] < particles_pos@.len());
                        assert(crate::grid::pos_cell_index(particles_pos@[m as int], *cfg)
                            == Some(ci));
                        lemma_in_grid_bounded(particles_pos@[m as int], *cfg);
                        lemma_dist_nonneg(sample_point, particles_pos@[m as int]);
                    }
                    let pos = particles_pos[m];
                    if m == sample_particle_index || (pos.x == sample_point.x && pos.y
                        == sample_point.y) {
                        proof {
                            assert(pos == particles_pos@[m as int]);
                        }
                    } else {
                        let dist = distance(sample_point, pos);
                        if dist != 0 {
                            let dirx = fx_div(sample_point.x - pos.x, dist);
                            let diry = fx_div(sample_point.y - pos.y, dist);
                            let slope = smoothing_kernel_derivative(dist, cfg);
                            let sp = calculate_shared_pressure(densities[m], sample_density, cfg);
                            let s1 = c_mul(sp, Some(slope));
                            let s2 = c_mul(s1, Some(cfg.influence_modifier));
                            let dj = densities[m];
                            let denom: i64 = if dj > DENSITY_FLOOR {
                                dj
                            } else {
                                DENSITY_FLOOR
                            };
                            let s3 = c_div(s2, Some(denom));
                            let tx = c_neg(c_mul(s3, dirx));
                            let ty = c_neg(c_mul(s3, diry));
                            let term: Option<Vec2x> = match (tx, ty) {
                                (Some(x), Some(y)) => Some(Vec2x { x, y }),
                                _ => None,
                            };
                            proof {
                                assert(term == pressure_term_v(
                                    particles_pos@[si],
                                    particles_pos@[m as int],
                                    densities@[si],
                                    densities@[m as int],
                                    *cfg,
                                ));
                            }
                            acc = ov_add(acc, term);
                        }
                    }
                    j = j + 1;
                }
            },
            None => {},
        }
        k = k + 1;
    }
    acc
}

} // verus!
