//! The viscosity force.
//!
//! A velocity-smoothing force: for every particle in the sample's nine
//! neighbor cells, the velocity difference toward that neighbor weighted by
//! the viscosity kernel of their distance, the whole sum scaled by the
//! viscosity strength. It is evaluated against the velocity field snapshot
//! taken after the pressure, drag and interaction forces have been applied;
//! a non-finite (`None`) velocity anywhere in the neighborhood turns the
//! force `None`, as a non-finite float would poison the sum.

use crate::config::SimConfig;
use crate::fx::{ck, iabs};
use crate::grid::{buckets, cell_of, grid_wf, lemma_cell_index_bound, lemma_in_grid_bounded, neighbor_index_v};
use crate::kernel::{viscosity_smoothing, viscosity_smoothing_v};
use crate::vec2::{
    distance, dist_v, lemma_dist_nonneg, ov_add, ov_add_v, ov_scale, ov_scale_v, ov_sub, ov_sub_v,
    Vec2x, MAX_COORD,
};
use vstd::prelude::*;

verus! {

/// One neighbor's viscosity term: the velocity difference weighted by the
/// viscosity kernel of the distance.
pub open spec fn viscosity_term_v(
    sample_pos: Vec2x,
    other_pos: Vec2x,
    sample_vel: Option<Vec2x>,
    other_vel: Option<Vec2x>,
    cfg: SimConfig,
) -> Option<Vec2x> {
    ov_scale_v(
        ov_sub_v(other_vel, sample_vel),
        ck(viscosity_smoothing_v(dist_v(sample_pos, other_pos), cfg)),
    )
}

/// Folds one cell's members into the accumulated viscosity force; every
/// member contributes, the sample itself included (its own term is zero).
pub open spec fn viscosity_over_cell(
    sample_pos: Vec2x,
    sample_vel: Option<Vec2x>,
    members: Seq<usize>,
    j: int,
    positions: Seq<Vec2x>,
    velocities: Seq<Option<Vec2x>>,
    cfg: SimConfig,
    acc: Option<Vec2x>,
) -> Option<Vec2x>
    decreases j,
{
    if j <= 0 {
        acc
    } else {
        let prev = viscosity_over_cell(
            sample_pos,
            sample_vel,
            members,
            j - 1,
            positions,
            velocities,
            cfg,
            acc,
        );
        let m = members[j - 1] as int;
        ov_add_v(
            prev,
            viscosity_term_v(sample_pos, positions[m], sample_vel, velocities[m], cfg),
        )
    }
}

/// Folds the first `k` neighbor cells; invalid cells contribute nothing.
pub open spec fn viscosity_over_cells(
    sample_pos: Vec2x,
    sample_vel: Option<Vec2x>,
    ccells: Seq<Option<usize>>,
    k: int,
    grid: Seq<Seq<usize>>,
    positions: Seq<Vec2x>,
    velocities: Seq<Option<Vec2x>>,
    cfg: SimConfig,
) -> Option<Vec2x>
    decreases k,
{
    if k <= 0 {
        Some(Vec2x { x: 0, y: 0 })
    } else {
        let prev = viscosity_over_cells(
            sample_pos,
            sample_vel,
            ccells,
            k - 1,
            grid,
            positions,
            velocities,
            cfg,
        );
        match ccells[k - 1] {
            Some(ci) => viscosity_over_cell(
                sample_pos,
                sample_vel,
                grid[ci as int],
                grid[ci as int].len() as int,
                positions,
                velocities,
                cfg,
                prev,
            ),
            None => prev,
        }
    }
}

/// The full viscosity force on one particle: the neighborhood sum scaled by
/// the viscosity strength.
pub open spec fn viscosity_force_v(
    sample_pos: Vec2x,
    sample_vel: Option<Vec2x>,
    ccells: Seq<Option<usize>>,
    grid: Seq<Seq<usize>>,
    positions: Seq<Vec2x>,
    velocities: Seq<Option<Vec2x>>,
    cfg: SimConfig,
) -> Option<Vec2x> {
    ov_scale_v(
        viscosity_over_cells(sample_pos, sample_vel, ccells, 9, grid, positions, velocities, cfg),
        Some(cfg.viscosity_strength),
    )
}

/// Accumulates the viscosity force on one particle over its nine neighbor
/// cells, against the post-force velocity snapshot.
pub fn calculate_viscosity_force(
    sample_point: Vec2x,
    sample_velocity: Option<Vec2x>,
    particles_pos: &Vec<Vec2x>,
    sample_connected_cells: &Vec<Option<usize>>,
    particles_grid: &Vec<Vec<usize>>,
    velocities: &Vec<Option<Vec2x>>,
    cfg: &SimConfig,
) -> (r: Option<Vec2x>)
    requires
        cfg.wf(),
        grid_wf(particles_grid@, particles_pos@, *cfg),
        velocities@.len() == particles_pos@.len(),
        sample_connected_cells@.len() == 9,
        forall|k: int|
            0 <= k < 9 ==> sample_connected_cells@[k] == neighbor_index_v(
                cell_of(sample_point, *cfg),
                k,
                *cfg,
            ),
    ensures
        r == viscosity_force_v(
            sample_point,
            sample_velocity,
            sample_connected_cells@,
            buckets(particles_grid@),
            particles_pos@,
            velocities@,
            *cfg,
        ),
{
    let mut acc: Option<Vec2x> = Some(Vec2x { x: 0, y: 0 });
    let mut k: usize = 0;
    while k < 9
        invariant
            cfg.wf(),
            grid_wf(particles_grid@, particles_pos@, *cfg),
            velocities@.len() == particles_pos@.len(),
            sample_connected_cells@.len() == 9,
            forall|k2: int|
                0 <= k2 < 9 ==> sample_connected_cells@[k2] == neighbor_index_v(
                    cell_of(sample_point, *cfg),
                    k2,
                    *cfg,
                ),
            k <= 9,
            acc == viscosity_over_cells(
                sample_point,
                sample_velocity,
                sample_connected_cells@,
                k as int,
                buckets(particles_grid@),
                particles_pos@,
                velocities@,
                *cfg,
            ),
        decreases 9 - k,
    {
        match sample_connected_cells[k] {
            Some(ci) => {
                proof {
                    lemma_cell_index_bound(
                        crate::grid::neighbor_cell_v(cell_of(sample_point, *cfg), k as int, *cfg),
                        *cfg,
                    );
                    lemma_in_grid_bounded(sample_point, *cfg);
                }
                let cell = &particles_grid[ci];
                let len = cell.len();
                let mut j: usize = 0;
                let ghost acc_k = acc;
                while j < len
                    invariant
                        cfg.wf(),
                        grid_wf(particles_grid@, particles_pos@, *cfg),
                        velocities@.len() == particles_pos@.len(),
                        j <= len,
                        ci < particles_grid@.len(),
                        cell == &particles_grid[ci as int],
                        len == cell@.len(),
                        iabs(sample_point.x as int) <= MAX_COORD,
                        iabs(sample_point.y as int) <= MAX_COORD,
                        acc == viscosity_over_cell(
                            sample_point,
                            sample_velocity,
                            cell@,
                            j as int,
                            particles_pos@,
                            velocities@,
                            *cfg,
                            acc_k,
                        ),
                    decreases len - j,
                {
                    let m = cell[j];
                    proof {
                        assert(cell@[j as int] < particles_pos@.len());
                        assert(crate::grid::pos_cell_index(particles_pos@[m as int], *cfg)
                            == Some(ci));
                        lemma_in_grid_bounded(particles_pos@[m as int], *cfg);
                        lemma_dist_nonneg(sample_point, particles_pos@[m as int]);
                    }
                    let pos = particles_pos[m];
                    let dist = distance(sample_point, pos);
                    let w = viscosity_smoothing(dist, cfg);
                    let diff = ov_sub(velocities[m], sample_velocity);
                    let term = ov_scale(diff, Some(w));
                    acc = ov_add(acc, term);
                    j = j + 1;
                }
            },
            None => {},
        }
        k = k + 1;
    }
    ov_scale(acc, Some(cfg.viscosity_strength))
}

} // verus!
