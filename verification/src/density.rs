//! The density engine and the equation of state.
//!
//! Each particle's density is the kernel-weighted sum of contributions from
//! every particle found in its nine neighbor cells, itself included; the
//! invalid cells are skipped. Density maps to pressure by a linear equation
//! of state, and a pair of particles shares the arithmetic mean of their two
//! pressures, which is what makes the pairwise pressure force symmetric.

use crate::config::SimConfig;
use crate::fx::{
    ck, div_int, fx_mul, fx_mul_v, fx_sub, lemma_fx_mul_bound, lemma_tdiv_facts,
    lemma_tdiv_mono, tdiv, FX_ONE,
};
use crate::grid::{buckets, cell_of, grid_wf, lemma_cell_index_bound, lemma_in_grid_bounded, neighbor_index_v};
use crate::kernel::{lemma_kernel_bounds, lemma_kernel_max, smoothing_kernel, smoothing_kernel_v};
use crate::vec2::{distance, dist_v, lemma_dist_nonneg, Vec2x};
use vstd::prelude::*;

verus! {

/// One neighbor's contribution to a density sum: the kernel of the distance,
/// scaled by the influence modifier.
pub open spec fn influence_v(sample: Vec2x, other: Vec2x, cfg: SimConfig) -> int {
    fx_mul_v(smoothing_kernel_v(dist_v(sample, other), cfg), cfg.influence_modifier as int)
}

/// The largest contribution one neighbor can make.
pub open spec fn max_influence_v(cfg: SimConfig) -> int {
    fx_mul_v(smoothing_kernel_v(0, cfg), cfg.influence_modifier as int)
}

/// Sum of the contributions of a cell's first `j` members.
pub open spec fn cell_density_v(
    sample: Vec2x,
    members: Seq<usize>,
    j: int,
    positions: Seq<Vec2x>,
    cfg: SimConfig,
) -> int
    decreases j,
{
    if j <= 0 {
        0
    } else {
        cell_density_v(sample, members, j - 1, positions, cfg) + influence_v(
            sample,
            positions[members[j - 1] as int],
            cfg,
        )
    }
}

/// Density accumulated over the first `k` neighbor cells; invalid entries
/// contribute nothing.
pub open spec fn density_v(
    sample: Vec2x,
    ccells: Seq<Option<usize>>,
    k: int,
    grid: Seq<Seq<usize>>,
    positions: Seq<Vec2x>,
    cfg: SimConfig,
) -> int
    decreases k,
{
    if k <= 0 {
        0
    } else {
        density_v(sample, ccells, k - 1, grid, positions, cfg) + match ccells[k - 1] {
            Some(ci) => cell_density_v(
                sample,
                grid[ci as int],
                grid[ci as int].len() as int,
                positions,
                cfg,
            ),
            None => 0,
        }
    }
}

/// The full density sampled at one particle: all nine neighbor cells.
pub open spec fn sample_density_v(
    sample: Vec2x,
    ccells: Seq<Option<usize>>,
    grid: Seq<Seq<usize>>,
    positions: Seq<Vec2x>,
    cfg: SimConfig,
) -> int {
    density_v(sample, ccells, 9, grid, positions, cfg)
}

/// The nine neighbor-cell indices cached for a position.
pub open spec fn neighbor_cells_seq(p: Vec2x, cfg: SimConfig) -> Seq<Option<usize>> {
    Seq::new(9, |k: int| neighbor_index_v(cell_of(p, cfg), k, cfg))
}

/// The density of particle `i` against the grid of predicted positions.
pub open spec fn particle_density_v(
    i: int,
    positions: Seq<Vec2x>,
    grid: Seq<Seq<usize>>,
    cfg: SimConfig,
) -> int {
    sample_density_v(positions[i], neighbor_cells_seq(positions[i], cfg), grid, positions, cfg)
}

/// Every single contribution lies between 0 and the maximum influence, and
/// both fit the representation.
pub proof fn lemma_influence_bounds(sample: Vec2x, other: Vec2x, cfg: SimConfig)
    requires
        cfg.wf(),
    ensures
        0 <= influence_v(sample, other, cfg) <= max_influence_v(cfg),
        max_influence_v(cfg) <= 0x100_0000_0000_0000,
{
    lemma_dist_nonneg(sample, other);
    let d = dist_v(sample, other);
    let k = smoothing_kernel_v(d, cfg);
    let k0 = smoothing_kernel_v(0, cfg);
    let m = cfg.influence_modifier as int;
    lemma_kernel_max(d, cfg);
    lemma_kernel_bounds(0, cfg);
    assert(0 <= k * m <= k0 * m) by (nonlinear_arith)
        requires
            0 <= k <= k0,
            0 <= m;
    lemma_tdiv_mono(k * m, k0 * m, FX_ONE as int);
    lemma_tdiv_facts(k * m, FX_ONE as int);
    assert(k0 * m <= 0x100_0000_0000_0000int * 65536) by (nonlinear_arith)
        requires
            0 <= k0 <= 0x4000_0000_0000int,
            0 <= m <= 0x400_0000int;
    lemma_fx_mul_bound(k0, m, 0x100_0000_0000_0000);
}

/// Law: a sampled density is never negative, whatever the grid and the cell
/// cache hold.
pub proof fn lemma_density_nonnegative(
    sample: Vec2x,
    ccells: Seq<Option<usize>>,
    k: int,
    grid: Seq<Seq<usize>>,
    positions: Seq<Vec2x>,
    cfg: SimConfig,
)
    requires
        cfg.wf(),
    ensures
        density_v(sample, ccells, k, grid, positions, cfg) >= 0,
    decreases k,
{
    if k > 0 {
        lemma_density_nonnegative(sample, ccells, k - 1, grid, positions, cfg);
        if 0 <= k - 1 < ccells.len() && ccells[k - 1] is Some {
            let ci = ccells[k - 1].unwrap() as int;
            if 0 <= ci < grid.len() {
                lemma_cell_density_nonnegative(
                    sample,
                    grid[ci],
                    grid[ci].len() as int,
                    positions,
                    cfg,
                );
            } else {
                lemma_cell_density_arbitrary_nonneg(sample, ccells, k, grid, positions, cfg);
            }
        } else {
            if !(0 <= k - 1 < ccells.len()) {
                lemma_cell_density_arbitrary_nonneg(sample, ccells, k, grid, positions, cfg);
            }
        }
    }
}

/// Out-of-range sequence reads yield an arbitrary but fixed value; its cell
/// density is still a sum of non-negative influences.
proof fn lemma_cell_density_arbitrary_nonneg(
    sample: Vec2x,
    ccells: Seq<Option<usize>>,
    k: int,
    grid: Seq<Seq<usize>>,
    positions: Seq<Vec2x>,
    cfg: SimConfig,
)
    requires
        cfg.wf(),
        k >= 1,
    ensures
        (match ccells[k - 1] {
            Some(ci) => cell_density_v(
                sample,
                grid[ci as int],
                grid[ci as int].len() as int,
                positions,
                cfg,
            ),
            None => 0,
        }) >= 0,
{
    match ccells[k - 1] {
        Some(ci) => {
            lemma_cell_density_nonnegative(
                sample,
                grid[ci as int],
                grid[ci as int].len() as int,
                positions,
                cfg,
            );
        },
        None => {},
    }
}

/// Every cell's partial density sum is non-negative.
pub proof fn lemma_cell_density_nonnegative(
    sample: Vec2x,
    members: Seq<usize>,
    j: int,
    positions: Seq<Vec2x>,
    cfg: SimConfig,
)
    requires
        cfg.wf(),
    ensures
        cell_density_v(sample, members, j, positions, cfg) >= 0,
    decreases j,
{
    if j > 0 {
        lemma_cell_density_nonnegative(sample, members, j - 1, positions, cfg);
        lemma_influence_bounds(sample, positions[members[j - 1] as int], cfg);
    }
}

/// A cell's partial density sum is bounded by its member count times the
/// largest influence.
pub proof fn lemma_cell_density_bounded(
    sample: Vec2x,
    members: Seq<usize>,
    j: int,
    positions: Seq<Vec2x>,
    cfg: SimConfig,
)
    requires
        cfg.wf(),
        j >= 0,
    ensures
        cell_density_v(sample, members, j, positions, cfg) <= j * max_influence_v(cfg),
    decreases j,
{
    let mi = max_influence_v(cfg);
    if j > 0 {
        lemma_cell_density_bounded(sample, members, j - 1, positions, cfg);
        lemma_influence_bounds(sample, positions[members[j - 1] as int], cfg);
        assert((j - 1) * mi + mi == j * mi) by (nonlinear_arith);
    } else {
        lemma_influence_bounds(sample, sample, cfg);
        assert(0 <= j * mi) by (nonlinear_arith)
            requires
                j >= 0,
                mi >= 0;
    }
}

/// The density over the first `k` neighbor cells is bounded by the particle
/// count, the cell count and the largest influence.
pub proof fn lemma_density_bounded(
    sample: Vec2x,
    ccells: Seq<Option<usize>>,
    k: int,
    grid: Seq<Seq<usize>>,
    positions: Seq<Vec2x>,
    cfg: SimConfig,
)
    requires
        cfg.wf(),
        0 <= k <= ccells.len(),
        forall|k2: int|
            0 <= k2 < ccells.len() && ccells[k2] is Some ==> #[trigger] ccells[k2].unwrap()
                < grid.len(),
        forall|c: int| 0 <= c < grid.len() ==> #[trigger] grid[c].len() <= positions.len(),
    ensures
        density_v(sample, ccells, k, grid, positions, cfg) <= k * positions.len()
            * max_influence_v(cfg),
    decreases k,
{
    let mi = max_influence_v(cfg);
    let n = positions.len() as int;
    lemma_influence_bounds(sample, sample, cfg);
    if k > 0 {
        lemma_density_bounded(sample, ccells, k - 1, grid, positions, cfg);
        match ccells[k - 1] {
            Some(ci) => {
                let members = grid[ci as int];
                lemma_cell_density_bounded(sample, members, members.len() as int, positions, cfg);
                assert(members.len() as int * mi <= n * mi) by (nonlinear_arith)
                    requires
                        members.len() as int <= n,
                        mi >= 0;
                assert((k - 1) * n * mi + n * mi == k * n * mi) by (nonlinear_arith);
            },
            None => {
                assert((k - 1) * n * mi <= k * n * mi) by (nonlinear_arith)
                    requires
                        n >= 0,
                        mi >= 0,
                        k >= 1;
            },
        }
    } else {
        assert(0 <= k * n * mi) by (nonlinear_arith)
            requires
                k >= 0,
                n >= 0,
                mi >= 0;
    }
}

/// Samples the density at one particle's position: sums the influence of
/// every particle in the nine neighbor cells, skipping invalid cells. The
/// result is exactly the specification sum, and it is never negative.
pub fn sample_density(
    sample_particle_pos: Vec2x,
    sample_connected_cells: &Vec<Option<usize>>,
    particle_grid: &Vec<Vec<usize>>,
    particles: &Vec<Vec2x>,
    cfg: &SimConfig,
) -> (density: i64)
    requires
        cfg.wf(),
        grid_wf(particle_grid@, particles@, *cfg),
        sample_connected_cells@.len() == 9,
        forall|k: int|
            0 <= k < 9 ==> sample_connected_cells@[k] == neighbor_index_v(
                cell_of(sample_particle_pos, *cfg),
                k,
                *cfg,
            ),
        9 * particles@.len() * max_influence_v(*cfg) <= i64::MAX,
    ensures
        density == sample_density_v(
            sample_particle_pos,
            sample_connected_cells@,
            buckets(particle_grid@),
            particles@,
            *cfg,
        ),
        density >= 0,
{
    let n = particles.len();
    let ghost mi = max_influence_v(*cfg);
    let mut density: i64 = 0;
    let mut k: usize = 0;
    proof {
        lemma_influence_bounds(sample_particle_pos, sample_particle_pos, *cfg);
    }
    while k < 9
        invariant
            cfg.wf(),
            grid_wf(particle_grid@, particles@, *cfg),
            sample_connected_cells@.len() == 9,
            forall|k2: int|
                0 <= k2 < 9 ==> sample_connected_cells@[k2] == neighbor_index_v(
                    cell_of(sample_particle_pos, *cfg),
                    k2,
                    *cfg,
                ),
            9 * particles@.len() * mi <= i64::MAX,
            mi == max_influence_v(*cfg),
            mi >= 0,
            n == particles@.len(),
            k <= 9,
            density == density_v(
                sample_particle_pos,
                sample_connected_cells@,
                k as int,
                buckets(particle_grid@),
                particles@,
                *cfg,
            ),
            0 <= density,
            density <= k * n * mi,
        decreases 9 - k,
    {
        match sample_connected_cells[k] {
            Some(ci) => {
                proof {
                    lemma_cell_index_bound(
                        crate::grid::neighbor_cell_v(cell_of(sample_particle_pos, *cfg), k as int, *cfg),
                        *cfg,
                    );
                    lemma_in_grid_bounded(sample_particle_pos, *cfg);
                }
                let cell = &particle_grid[ci];
                let len = cell.len();
                let mut j: usize = 0;
                let ghost dk = density_v(
                    sample_particle_pos,
                    sample_connected_cells@,
                    k as int,
                    buckets(particle_grid@),
                    particles@,
                    *cfg,
                );
                while j < len
                    invariant
                        cfg.wf(),
                        grid_wf(particle_grid@, particles@, *cfg),
                        9 * particles@.len() * mi <= i64::MAX,
                        mi == max_influence_v(*cfg),
                        mi >= 0,
                        n == particles@.len(),
                        k < 9,
                        j <= len,
                        ci < particle_grid@.len(),
                        cell == &particle_grid[ci as int],
                        len == cell@.len(),
                        len <= n,
                        crate::fx::iabs(sample_particle_pos.x as int) <= crate::vec2::MAX_COORD,
                        crate::fx::iabs(sample_particle_pos.y as int) <= crate::vec2::MAX_COORD,
                        dk == density_v(
                            sample_particle_pos,
                            sample_connected_cells@,
                            k as int,
                            buckets(particle_grid@),
                            particles@,
                            *cfg,
                        ),
                        0 <= dk <= (k as int) * n * mi,
                        density == dk + cell_density_v(
                            sample_particle_pos,
                            cell@,
                            j as int,
                            particles@,
                            *cfg,
                        ),
                        0 <= density,
                        density <= ((k as int) * n + j) * mi,
                    decreases len - j,
                {
                    let m = cell[j];
                    proof {
                        assert(cell@[j as int] < particles@.len());
                        assert(crate::grid::pos_cell_index(particles@[m as int], *cfg) == Some(
                            ci,
                        ));
                        lemma_in_grid_bounded(particles@[m as int], *cfg);
                        lemma_influence_bounds(sample_particle_pos, particles@[m as int], *cfg);
                        lemma_dist_nonneg(sample_particle_pos, particles@[m as int]);
                    }
                    let other = particles[m];
                    let d = distance(sample_particle_pos, other);
                    let w = smoothing_kernel(d, cfg);
                    proof {
                        lemma_kernel_bounds(d as int, *cfg);
                        assert(w as int * cfg.influence_modifier as int <= 0x100_0000_0000_0000int
                            * 65536) by (nonlinear_arith)
                            requires
                                0 <= w <= 0x4000_0000_0000i64,
                                0 <= cfg.influence_modifier <= 0x400_0000i64;
                        lemma_fx_mul_bound(
                            w as int,
                            cfg.influence_modifier as int,
                            0x100_0000_0000_0000,
                        );
                    }
                    let infl = fx_mul(w, cfg.influence_modifier).unwrap();
                    proof {
                        assert(infl == influence_v(sample_particle_pos, particles@[m as int], *cfg));
                        assert(infl <= mi);
                        assert(((k as int) * n + j) * mi + mi == ((k as int) * n + j + 1) * mi)
                            by (nonlinear_arith);
                        assert((k as int) * n + j + 1 <= 9 * n) by (nonlinear_arith)
                            requires
                                k < 9,
                                j < n,
                                n >= 0;
                        assert(((k as int) * n + j + 1) * mi <= 9 * n * mi) by (nonlinear_arith)
                            requires
                                (k as int) * n + j + 1 <= 9 * n,
                                mi >= 0;
                    }
                    density = density + infl;
                    j = j + 1;
                }
                proof {
                    assert(((k as int) * n + len as int) * mi <= ((k as int) + 1) * n * mi)
                        by (nonlinear_arith)
                        requires
                            len as int <= n,
                            mi >= 0,
                            0 <= k < 9,
                            n >= 0;
                }
            },
            None => {
                proof {
                    assert((k as int) * n * mi <= ((k as int) + 1) * n * mi) by (nonlinear_arith)
                        requires
                            mi >= 0,
                            n >= 0,
                            k >= 0;
                }
            },
        }
        k = k + 1;
    }
    density
}

/// Computes the density of every particle from the grid and the cached
/// neighbor cells: one entry per particle, each the exact specification sum
/// and never negative.
pub fn calculate_density_for_every_particle(
    particles_grid: &Vec<Vec<usize>>,
    particles_pos: &Vec<Vec2x>,
    connected_cells: &Vec<Option<usize>>,
    cfg: &SimConfig,
) -> (densities: Vec<i64>)
    requires
        cfg.wf(),
        grid_wf(particles_grid@, particles_pos@, *cfg),
        connected_cells@.len() == 9 * particles_pos@.len(),
        forall|i: int, k: int|
            0 <= i < particles_pos@.len() && 0 <= k < 9 ==> connected_cells@[9 * i + k]
                == neighbor_index_v(cell_of(particles_pos@[i], *cfg), k, *cfg),
        9 * particles_pos@.len() * max_influence_v(*cfg) <= i64::MAX,
    ensures
        densities@.len() == particles_pos@.len(),
        forall|i: int|
            0 <= i < particles_pos@.len() ==> #[trigger] densities@[i] == particle_density_v(
                i,
                particles_pos@,
                buckets(particles_grid@),
                *cfg,
            ) && densities@[i] >= 0,
{
    let n = particles_pos.len();
    let total = connected_cells.len();
    let mut densities: Vec<i64> = Vec::new();
    let mut i: usize = 0;
    while i < n
        invariant
            cfg.wf(),
            i <= n,
            n == particles_pos@.len(),
            9 * n <= usize::MAX,
            grid_wf(particles_grid@, particles_pos@, *cfg),
            connected_cells@.len() == 9 * n,
            forall|i2: int, k: int|
                0 <= i2 < n && 0 <= k < 9 ==> connected_cells@[9 * i2 + k] == neighbor_index_v(
                    cell_of(particles_pos@[i2], *cfg),
                    k,
                    *cfg,
                ),
            9 * n * max_influence_v(*cfg) <= i64::MAX,
            densities@.len() == i,
            forall|i2: int|
                0 <= i2 < i ==> #[trigger] densities@[i2] == particle_density_v(
                    i2,
                    particles_pos@,
                    buckets(particles_grid@),
                    *cfg,
                ) && densities@[i2] >= 0,
        decreases n - i,
    {
        let mut cc: Vec<Option<usize>> = Vec::new();
        let mut k: usize = 0;
        while k < 9
            invariant
                i < n,
                k <= 9,
                n == particles_pos@.len(),
                9 * n <= usize::MAX,
                connected_cells@.len() == 9 * n,
                forall|i2: int, k2: int|
                    0 <= i2 < n && 0 <= k2 < 9 ==> connected_cells@[9 * i2 + k2]
                        == neighbor_index_v(cell_of(particles_pos@[i2], *cfg), k2, *cfg),
                cc@.len() == k,
                forall|k2: int|
                    0 <= k2 < k ==> cc@[k2] == neighbor_index_v(
                        cell_of(particles_pos@[i as int], *cfg),
                        k2,
                        *cfg,
                    ),
            decreases 9 - k,
        {
            cc.push(connected_cells[9 * i + k]);
            k = k + 1;
        }
        let d = sample_density(particles_pos[i], &cc, particles_grid, particles_pos, cfg);
        proof {
            assert(cc@ =~= neighbor_cells_seq(particles_pos@[i as int], *cfg));
        }
        densities.push(d);
        i = i + 1;
    }
    densities
}

/// Whether `n` particles leave the density sums inside the representation:
/// the executable check for the headroom bound the density pass asks for.
pub fn density_headroom(n: usize, cfg: &SimConfig) -> (r: bool)
    requires
        cfg.wf(),
    ensures
        r == (9 * n * max_influence_v(*cfg) <= i64::MAX),
{
    let k0 = smoothing_kernel(0, cfg);
    proof {
        lemma_kernel_bounds(0, *cfg);
        assert(k0 as int * cfg.influence_modifier as int <= 0x100_0000_0000_0000int * 65536)
            by (nonlinear_arith)
            requires
                0 <= k0 <= 0x4000_0000_0000i64,
                0 <= cfg.influence_modifier <= 0x400_0000i64;
        lemma_fx_mul_bound(k0 as int, cfg.influence_modifier as int, 0x100_0000_0000_0000);
    }
    let mi = fx_mul(k0, cfg.influence_modifier).unwrap();
    proof {
        assert(9 * (n as int) * (mi as int) < 170141183460469231731687303715884105727int)
            by (nonlinear_arith)
            requires
                0 <= n <= 18446744073709551615int,
                0 <= mi <= 0x100_0000_0000_0000i64;
    }
    let lhs: i128 = 9 * (n as i128) * (mi as i128);
    lhs <= i64::MAX as i128
}

/// The linear equation of state: pressure from density error. `None` when
/// the exact value leaves the representation.
pub open spec fn density_to_pressure_v(d: i64, cfg: SimConfig) -> Option<i64> {
    match ck(d - cfg.target_density) {
        Some(e) => ck(fx_mul_v(e as int, cfg.pressure_multiplier as int)),
        None => None,
    }
}

/// The pressure a pair of particles shares: the arithmetic mean of their two
/// pressures.
pub open spec fn shared_pressure_v(da: i64, db: i64, cfg: SimConfig) -> Option<i64> {
    match (density_to_pressure_v(da, cfg), density_to_pressure_v(db, cfg)) {
        (Some(pa), Some(pb)) => match ck(pa + pb) {
            Some(s) => ck(tdiv(s as int, 2)),
            None => None,
        },
        _ => None,
    }
}

/// Law: the shared pressure of a pair does not depend on which particle is
/// the sample, including when either pressure leaves the representation.
pub proof fn lemma_shared_pressure_symmetric(da: i64, db: i64, cfg: SimConfig)
    ensures
        shared_pressure_v(da, db, cfg) == shared_pressure_v(db, da, cfg),
{
}

/// Pressure from density, by the linear equation of state. A density below
/// the target gives a negative pressure: intentional, a net attraction.
pub fn density_to_pressure(density: i64, cfg: &SimConfig) -> (r: Option<i64>)
    ensures
        r == density_to_pressure_v(density, *cfg),
{
    match fx_sub(density, cfg.target_density) {
        Some(e) => fx_mul(e, cfg.pressure_multiplier),
        None => None,
    }
}

/// The mean of the two particles' pressures.
pub fn calculate_shared_pressure(density_a: i64, density_b: i64, cfg: &SimConfig) -> (r: Option<
    i64,
>)
    ensures
        r == shared_pressure_v(density_a, density_b, *cfg),
{
    let pa = density_to_pressure(density_a, cfg);
    let pb = density_to_pressure(density_b, cfg);
    match (pa, pb) {
        (Some(pa), Some(pb)) => match pa.checked_add(pb) {
            Some(s) => {
                proof {
                    lemma_tdiv_facts(s as int, 2);
                }
                Some(div_int(s, 2))
            },
            None => None,
        },
        _ => None,
    }
}

} // verus!
