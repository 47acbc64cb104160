//! The uniform spatial hash grid.
//!
//! The bounded simulation area is split into cells the size of the smoothing
//! radius. A position maps to a cell coordinate, a coordinate to a row-major
//! index, and positions outside the grid map to the tagged invalid value
//! (`None`) that consumers must filter before indexing. The grid itself is a
//! per-tick bucket list: for each cell, the indices of the particles whose
//! position falls in it, in increasing order.

use crate::config::SimConfig;
use crate::fx::{iabs, tdiv_i128};
use crate::vec2::{Vec2x, MAX_COORD};
use vstd::arithmetic::div_mod::{
    lemma_div_by_multiple, lemma_div_is_ordered, lemma_div_pos_is_pos,
};
use vstd::prelude::*;

verus! {

/// The cell a position falls in, or `None` when it lies outside the grid.
pub open spec fn cell_of(p: Vec2x, cfg: SimConfig) -> Option<(usize, usize)> {
    let h = cfg.smoothing_radius as int;
    let sx = 2 * p.x + cfg.grid_w * h;
    let sy = 2 * p.y + cfg.grid_h * h;
    if sx < 0 || sy < 0 {
        None
    } else {
        let cx = sx / (2 * h);
        let cy = sy / (2 * h);
        if cx < cfg.grid_w && cy < cfg.grid_h {
            Some(((cx as usize), (cy as usize)))
        } else {
            None
        }
    }
}

/// Row-major index of a cell coordinate; the invalid coordinate and
/// out-of-grid coordinates keep the `None` tag.
pub open spec fn cell_index_of(c: Option<(usize, usize)>, cfg: SimConfig) -> Option<usize> {
    match c {
        Some((x, y)) => if x < cfg.grid_w && y < cfg.grid_h {
            Some((y * cfg.grid_w + x) as usize)
        } else {
            None
        },
        None => None,
    }
}

/// The grid index a position falls in.
pub open spec fn pos_cell_index(p: Vec2x, cfg: SimConfig) -> Option<usize> {
    cell_index_of(cell_of(p, cfg), cfg)
}

/// The `k`-th member of the 3-by-3 block around a cell, in raster order from
/// the bottom-left; members outside the grid degenerate to `None`.
pub open spec fn neighbor_cell_v(c: Option<(usize, usize)>, k: int, cfg: SimConfig) -> Option<
    (usize, usize),
> {
    match c {
        Some((x, y)) => {
            let nx = x + (k % 3) - 1;
            let ny = y + (k / 3) - 1;
            if 0 <= nx < cfg.grid_w && 0 <= ny < cfg.grid_h {
                Some(((nx as usize), (ny as usize)))
            } else {
                None
            }
        },
        None => None,
    }
}

/// The grid index of the `k`-th neighbor cell.
pub open spec fn neighbor_index_v(c: Option<(usize, usize)>, k: int, cfg: SimConfig) -> Option<
    usize,
> {
    cell_index_of(neighbor_cell_v(c, k, cfg), cfg)
}

/// The center member of a cell's 3-by-3 block is the cell itself, so every
/// particle with a valid cell contributes its own self-term to its density.
pub proof fn lemma_center_neighbor_is_self(c: Option<(usize, usize)>, cfg: SimConfig)
    requires
        c is Some,
        c.unwrap().0 < cfg.grid_w,
        c.unwrap().1 < cfg.grid_h,
    ensures
        neighbor_cell_v(c, 4, cfg) == c,
{
}

/// The grid dimensions of a well-formed configuration are small.
pub proof fn lemma_grid_dims(cfg: SimConfig)
    requires
        cfg.wf(),
    ensures
        cfg.grid_w <= 0x20_0000,
        cfg.grid_h <= 0x20_0000,
{
    assert(cfg.grid_w <= 0x20_0000 && cfg.grid_h <= 0x20_0000) by (nonlinear_arith)
        requires
            cfg.grid_w >= 1,
            cfg.grid_h >= 1,
            cfg.smoothing_radius >= 0x1_0000i64,
            cfg.grid_w * cfg.smoothing_radius as int <= 0x20_0000_0000int,
            cfg.grid_h * cfg.smoothing_radius as int <= 0x20_0000_0000int;
}

/// A valid cell index lies below the cell count.
pub proof fn lemma_cell_index_bound(c: Option<(usize, usize)>, cfg: SimConfig)
    requires
        cfg.wf(),
        cell_index_of(c, cfg) is Some,
    ensures
        cell_index_of(c, cfg).unwrap() < cfg.n_cells,
{
    let (x, y) = c.unwrap();
    assert(y * cfg.grid_w + x < cfg.grid_w * cfg.grid_h) by (nonlinear_arith)
        requires
            x < cfg.grid_w,
            y < cfg.grid_h;
}

/// A position with a valid cell lies within the grid's span.
pub proof fn lemma_in_grid_bounded(p: Vec2x, cfg: SimConfig)
    requires
        cfg.wf(),
        cell_of(p, cfg) is Some,
    ensures
        iabs(p.x as int) <= MAX_COORD,
        iabs(p.y as int) <= MAX_COORD,
{
    let h = cfg.smoothing_radius as int;
    let sx = 2 * p.x + cfg.grid_w * h;
    let sy = 2 * p.y + cfg.grid_h * h;
    assert(sx / (2 * h) < cfg.grid_w && sy / (2 * h) < cfg.grid_h);
    if sx >= 2 * h * cfg.grid_w {
        lemma_div_is_ordered(2 * h * cfg.grid_w, sx, 2 * h);
        lemma_div_by_multiple(cfg.grid_w as int, 2 * h);
        assert(2 * h * cfg.grid_w == cfg.grid_w * (2 * h)) by (nonlinear_arith);
        assert(false);
    }
    if sy >= 2 * h * cfg.grid_h {
        lemma_div_is_ordered(2 * h * cfg.grid_h, sy, 2 * h);
        lemma_div_by_multiple(cfg.grid_h as int, 2 * h);
        assert(2 * h * cfg.grid_h == cfg.grid_h * (2 * h)) by (nonlinear_arith);
        assert(false);
    }
    assert(2 * h * cfg.grid_w == 2 * (cfg.grid_w * h)) by (nonlinear_arith);
    assert(2 * h * cfg.grid_h == 2 * (cfg.grid_h * h)) by (nonlinear_arith);
    assert(2 * p.x < cfg.grid_w * h);
    assert(2 * p.x >= -(cfg.grid_w * h));
    assert(2 * p.y < cfg.grid_h * h);
    assert(2 * p.y >= -(cfg.grid_h * h));
}

/// Maps a position to its cell coordinate: divide by the cell size, offset
/// by half the grid extent, truncate.
pub fn pixel_pos_to_grid_pos(p: Vec2x, cfg: &SimConfig) -> (r: Option<(usize, usize)>)
    requires
        cfg.wf(),
    ensures
        r == cell_of(p, *cfg),
{
    let h = cfg.smoothing_radius;
    let two_h: i128 = 2 * (h as i128);
    let sx: i128 = 2 * (p.x as i128) + (cfg.grid_w as i128) * (h as i128);
    let sy: i128 = 2 * (p.y as i128) + (cfg.grid_h as i128) * (h as i128);
    if sx < 0 || sy < 0 {
        return None;
    }
    let cx = tdiv_i128(sx, two_h);
    let cy = tdiv_i128(sy, two_h);
    proof {
        assert(iabs(sx as int) == sx as int);
        assert(iabs(sy as int) == sy as int);
        lemma_div_pos_is_pos(sx as int, 2 * h as int);
        lemma_div_pos_is_pos(sy as int, 2 * h as int);
    }
    if cx < cfg.grid_w as i128 && cy < cfg.grid_h as i128 {
        proof {
            lemma_grid_dims(*cfg);
        }
        Some((cx as usize, cy as usize))
    } else {
        None
    }
}

/// Row-major flatten of a cell coordinate; keeps the invalid tag.
pub fn grid_pos_to_index(c: Option<(usize, usize)>, cfg: &SimConfig) -> (r: Option<usize>)
    requires
        cfg.wf(),
    ensures
        r == cell_index_of(c, *cfg),
        r is Some ==> r.unwrap() < cfg.n_cells,
{
    match c {
        Some((x, y)) => {
            if x < cfg.grid_w && y < cfg.grid_h {
                proof {
                    lemma_grid_dims(*cfg);
                    assert(y * cfg.grid_w + x < cfg.grid_w * cfg.grid_h) by (nonlinear_arith)
                        requires
                            x < cfg.grid_w,
                            y < cfg.grid_h;
                }
                Some(y * cfg.grid_w + x)
            } else {
                None
            }
        },
        None => None,
    }
}

/// The grid index a position falls in; the composition is deterministic, so
/// two lookups of one unmoved position always agree.
pub fn pos_to_grid_index(p: Vec2x, cfg: &SimConfig) -> (r: Option<usize>)
    requires
        cfg.wf(),
    ensures
        r == pos_cell_index(p, *cfg),
        r is Some ==> r.unwrap() < cfg.n_cells,
{
    let c = pixel_pos_to_grid_pos(p, cfg);
    grid_pos_to_index(c, cfg)
}

/// Two equal positions always map to the same grid index: the lookup is a
/// pure function of the position and the configuration.
pub proof fn lemma_cell_index_stable(p: Vec2x, q: Vec2x, cfg: SimConfig)
    requires
        p == q,
    ensures
        pos_cell_index(p, cfg) == pos_cell_index(q, cfg),
{
}

/// The 3-by-3 block of cell coordinates around a cell, bottom row first;
/// always exactly nine entries, valid or invalid.
pub fn get_connected_cells(c: Option<(usize, usize)>, cfg: &SimConfig) -> (r: Vec<
    Option<(usize, usize)>,
>)
    requires
        cfg.wf(),
    ensures
        r@.len() == 9,
        forall|k: int| 0 <= k < 9 ==> r@[k] == neighbor_cell_v(c, k, *cfg),
{
    let mut out: Vec<Option<(usize, usize)>> = Vec::new();
    let mut k: usize = 0;
    proof {
        lemma_grid_dims(*cfg);
    }
    while k < 9
        invariant
            cfg.wf(),
            k <= 9,
            out@.len() == k,
            cfg.grid_w <= 0x20_0000,
            cfg.grid_h <= 0x20_0000,
            forall|j: int| 0 <= j < k ==> out@[j] == neighbor_cell_v(c, j, *cfg),
        decreases 9 - k,
    {
        match c {
            Some((x, y)) => {
                let nx: i128 = x as i128 + (k % 3) as i128 - 1;
                let ny: i128 = y as i128 + (k / 3) as i128 - 1;
                if 0 <= nx && nx < cfg.grid_w as i128 && 0 <= ny && ny < cfg.grid_h as i128 {
                    out.push(Some((nx as usize, ny as usize)));
                } else {
                    out.push(None);
                }
            },
            None => {
                out.push(None);
            },
        }
        k = k + 1;
    }
    out
}

/// The grid indices of the 3-by-3 block around a cell; always exactly nine
/// entries, each a valid index or the invalid tag.
pub fn get_connected_cells_indexes(c: Option<(usize, usize)>, cfg: &SimConfig) -> (r: Vec<
    Option<usize>,
>)
    requires
        cfg.wf(),
    ensures
        r@.len() == 9,
        forall|k: int| 0 <= k < 9 ==> r@[k] == neighbor_index_v(c, k, *cfg),
        forall|k: int| 0 <= k < 9 && r@[k] is Some ==> r@[k].unwrap() < cfg.n_cells,
{
    let cells = get_connected_cells(c, cfg);
    let mut out: Vec<Option<usize>> = Vec::new();
    let mut k: usize = 0;
    while k < 9
        invariant
            cfg.wf(),
            k <= 9,
            out@.len() == k,
            cells@.len() == 9,
            forall|j: int| 0 <= j < 9 ==> cells@[j] == neighbor_cell_v(c, j, *cfg),
            forall|j: int| 0 <= j < k ==> out@[j] == neighbor_index_v(c, j, *cfg),
            forall|j: int| 0 <= j < k && out@[j] is Some ==> out@[j].unwrap() < cfg.n_cells,
        decreases 9 - k,
    {
        let idx = grid_pos_to_index(cells[k], cfg);
        out.push(idx);
        k = k + 1;
    }
    out
}

/// The per-particle neighbor-cell cache: for every particle, the nine grid
/// indices of the 3-by-3 block around its cell, flattened at stride nine so
/// both the density and the force passes reuse them.
pub fn calculate_connected_cells_for_every_particle(positions: &Vec<Vec2x>, cfg: &SimConfig) -> (r:
    Vec<Option<usize>>)
    requires
        cfg.wf(),
        9 * positions@.len() <= usize::MAX,
    ensures
        r@.len() == 9 * positions@.len(),
        forall|i: int, k: int|
            0 <= i < positions@.len() && 0 <= k < 9 ==> r@[9 * i + k] == neighbor_index_v(
                cell_of(positions@[i], *cfg),
                k,
                *cfg,
            ),
{
    let n = positions.len();
    let mut out: Vec<Option<usize>> = Vec::new();
    let mut i: usize = 0;
    while i < n
        invariant
            cfg.wf(),
            i <= n,
            n == positions@.len(),
            9 * n <= usize::MAX,
            out@.len() == 9 * i,
            forall|i2: int, k: int|
                0 <= i2 < i && 0 <= k < 9 ==> out@[9 * i2 + k] == neighbor_index_v(
                    cell_of(positions@[i2], *cfg),
                    k,
                    *cfg,
                ),
        decreases n - i,
    {
        let c = pixel_pos_to_grid_pos(positions[i], cfg);
        let cells = get_connected_cells_indexes(c, cfg);
        let mut k: usize = 0;
        while k < 9
            invariant
                i < n,
                k <= 9,
                n == positions@.len(),
                9 * n <= usize::MAX,
                out@.len() == 9 * i + k,
                cells@.len() == 9,
                forall|k2: int|
                    0 <= k2 < 9 ==> cells@[k2] == neighbor_index_v(
                        cell_of(positions@[i as int], *cfg),
                        k2,
                        *cfg,
                    ),
                forall|i2: int, k2: int|
                    0 <= i2 < i && 0 <= k2 < 9 ==> out@[9 * i2 + k2] == neighbor_index_v(
                        cell_of(positions@[i2], *cfg),
                        k2,
                        *cfg,
                    ),
                forall|k2: int|
                    0 <= k2 < k ==> out@[9 * (i as int) + k2] == neighbor_index_v(
                        cell_of(positions@[i as int], *cfg),
                        k2,
                        *cfg,
                    ),
            decreases 9 - k,
        {
            out.push(cells[k]);
            k = k + 1;
        }
        i = i + 1;
    }
    out
}

/// The member lists of an executable grid, as plain sequences.
pub open spec fn buckets(grid: Seq<Vec<usize>>) -> Seq<Seq<usize>> {
    Seq::new(grid.len(), |c: int| grid[c]@)
}

/// The indices of the first `n` positions whose cell index is `c`, in
/// increasing order: the unique content of bucket `c`.
pub open spec fn cell_members(positions: Seq<Vec2x>, cfg: SimConfig, c: int, n: int) -> Seq<usize>
    decreases n,
{
    if n <= 0 {
        Seq::empty()
    } else {
        let prev = cell_members(positions, cfg, c, n - 1);
        if pos_cell_index(positions[n - 1], cfg) == Some(c as usize) {
            prev.push((n - 1) as usize)
        } else {
            prev
        }
    }
}

/// A cell's member list never outgrows the position count.
pub proof fn lemma_cell_members_len(positions: Seq<Vec2x>, cfg: SimConfig, c: int, n: int)
    requires
        n >= 0,
    ensures
        cell_members(positions, cfg, c, n).len() <= n,
    decreases n,
{
    if n > 0 {
        lemma_cell_members_len(positions, cfg, c, n - 1);
    }
}

/// The grid a position sequence determines, cell by cell.
pub open spec fn grid_math(positions: Seq<Vec2x>, cfg: SimConfig) -> Seq<Seq<usize>> {
    Seq::new(cfg.n_cells as nat, |c: int| cell_members(positions, cfg, c, positions.len() as int))
}

/// What the grid build guarantees: one bucket per cell; every bucket holds
/// indices of particles whose position maps to exactly that cell, in
/// increasing order; and every particle with a valid cell is in its bucket.
pub open spec fn grid_wf(grid: Seq<Vec<usize>>, positions: Seq<Vec2x>, cfg: SimConfig) -> bool {
    &&& grid.len() == cfg.n_cells
    &&& forall|c: int, j: int|
        0 <= c < grid.len() && 0 <= j < grid[c]@.len() ==> #[trigger] grid[c]@[j] < positions.len()
            && pos_cell_index(positions[grid[c]@[j] as int], cfg) == Some(c as usize)
    &&& forall|c: int| 0 <= c < grid.len() ==> #[trigger] grid[c]@.len() <= positions.len()
    &&& forall|c: int, j1: int, j2: int|
        0 <= c < grid.len() && 0 <= j1 < j2 < grid[c]@.len() ==> #[trigger] grid[c]@[j1]
            < #[trigger] grid[c]@[j2]
    &&& forall|i: int|
        0 <= i < positions.len() && #[trigger] pos_cell_index(positions[i], cfg) is Some
            ==> grid[pos_cell_index(positions[i], cfg).unwrap() as int]@.contains(i as usize)
}

/// Builds the per-tick grid: buckets each particle index by the cell of its
/// position, skipping positions outside the grid.
pub fn split_particles_into_grid(positions: &Vec<Vec2x>, cfg: &SimConfig) -> (grid: Vec<Vec<usize>>)
    requires
        cfg.wf(),
    ensures
        grid_wf(grid@, positions@, *cfg),
        buckets(grid@) == grid_math(positions@, *cfg),
{
    let mut grid: Vec<Vec<usize>> = Vec::new();
    while grid.len() < cfg.n_cells
        invariant
            grid@.len() <= cfg.n_cells,
            forall|c: int| 0 <= c < grid@.len() ==> #[trigger] grid@[c]@.len() == 0,
        decreases cfg.n_cells - grid@.len(),
    {
        grid.push(Vec::new());
    }
    let n = positions.len();
    let mut i: usize = 0;
    while i < n
        invariant
            cfg.wf(),
            i <= n,
            n == positions@.len(),
            grid@.len() == cfg.n_cells,
            forall|c: int, j: int|
                0 <= c < grid@.len() && 0 <= j < grid@[c]@.len() ==> #[trigger] grid@[c]@[j] < i
                    && pos_cell_index(positions@[grid@[c]@[j] as int], *cfg) == Some(c as usize),
            forall|c: int| 0 <= c < grid@.len() ==> #[trigger] grid@[c]@.len() <= i,
            forall|c: int, j1: int, j2: int|
                0 <= c < grid@.len() && 0 <= j1 < j2 < grid@[c]@.len() ==> #[trigger] grid@[c]@[j1]
                    < #[trigger] grid@[c]@[j2],
            forall|i2: int|
                0 <= i2 < i && #[trigger] pos_cell_index(positions@[i2], *cfg) is Some
                    ==> grid@[pos_cell_index(positions@[i2], *cfg).unwrap() as int]@.contains(
                    i2 as usize,
                ),
            forall|c: int|
                0 <= c < grid@.len() ==> #[trigger] grid@[c]@ == cell_members(
                    positions@,
                    *cfg,
                    c,
                    i as int,
                ),
        decreases n - i,
    {
        let ghost old_grid = grid@;
        let ci_opt = pos_to_grid_index(positions[i], cfg);
        match ci_opt {
            Some(ci) => {
                grid[ci].push(i);
                proof {
                    assert(grid@[ci as int]@ == old_grid[ci as int]@.push(i));
                    assert forall|i2: int|
                        0 <= i2 < i + 1 && #[trigger] pos_cell_index(
                            positions@[i2],
                            *cfg,
                        ) is Some implies grid@[pos_cell_index(
                        positions@[i2],
                        *cfg,
                    ).unwrap() as int]@.contains(i2 as usize) by {
                        let c2 = pos_cell_index(positions@[i2], *cfg).unwrap() as int;
                        lemma_cell_index_bound(cell_of(positions@[i2], *cfg), *cfg);
                        assert(0 <= c2 < grid@.len());
                        if i2 < i {
                            assert(old_grid[c2]@.contains(i2 as usize));
                            let w = choose|w: int|
                                0 <= w < old_grid[c2]@.len() && old_grid[c2]@[w] == i2 as usize;
                            assert(grid@[c2]@[w] == i2 as usize);
                        } else {
                            assert(grid@[ci as int]@[old_grid[ci as int]@.len() as int]
                                == i as usize);
                        }
                    }
                }
            },
            None => {},
        }
        proof {
            assert forall|c: int| 0 <= c < grid@.len() implies #[trigger] grid@[c]@
                == cell_members(positions@, *cfg, c, i + 1) by {
                assert(grid@[c]@ == cell_members(positions@, *cfg, c, i + 1));
            }
        }
        i = i + 1;
    }
    proof {
        assert(buckets(grid@) =~= grid_math(positions@, *cfg));
    }
    grid
}

} // verus!
