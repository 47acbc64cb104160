use sph_core::collide::resolve_collisions;
use sph_core::config::{SimConfig, SimParams};
use sph_core::density::{calculate_shared_pressure, density_to_pressure};
use sph_core::fx::{fx_sqrt, FX_ONE};
use sph_core::grid::{
    get_connected_cells, get_connected_cells_indexes, grid_pos_to_index, pixel_pos_to_grid_pos,
    pos_to_grid_index, split_particles_into_grid,
};
use sph_core::interaction::calculate_interaction_force;
use sph_core::kernel::{smoothing_kernel, smoothing_kernel_derivative, viscosity_smoothing};
use sph_core::vec2::Vec2x;

fn base_params() -> SimParams {
    SimParams {
        gravity: Vec2x { x: 0, y: -15 * FX_ONE },
        smoothing_radius: 10 * FX_ONE,
        target_density: 9830,
        pressure_multiplier: 100000 * FX_ONE,
        pressure_force_modifier: 39321,
        influence_modifier: 10 * FX_ONE,
        drag_coefficient: 655,
        viscosity_strength: 1,
        bounds_half_extent: Vec2x { x: 850 * FX_ONE, y: 500 * FX_ONE },
        particle_footprint: 98304,
        collision_damping: 32768,
        interaction_radius: 62176829,
        interaction_strength: 90000000 * FX_ONE,
        time_scale: 2 * FX_ONE,
    }
}

fn base_config() -> SimConfig {
    SimConfig::new(base_params()).expect("the base parameters validate")
}

#[test]
fn config_derives_grid_and_kernels() {
    let cfg = base_config();
    assert_eq!(cfg.grid_w, 170);
    assert_eq!(cfg.grid_h, 100);
    assert_eq!(cfg.n_cells, 17000);
    assert_eq!(cfg.kernel_volume, 343145000);
    assert_eq!(cfg.kernel_derivative_scale, 25);
    assert_eq!(cfg.half_bounds, Vec2x { x: 55656448, y: 32718848 });
}

#[test]
fn config_rejects_bad_parameters() {
    let mut p = base_params();
    p.smoothing_radius = 0;
    assert!(SimConfig::new(p).is_none());
    let mut p = base_params();
    p.collision_damping = FX_ONE + 1;
    assert!(SimConfig::new(p).is_none());
    let mut p = base_params();
    p.particle_footprint = -1;
    assert!(SimConfig::new(p).is_none());
}

#[test]
fn fixed_point_sqrt_is_exact_on_squares() {
    assert_eq!(fx_sqrt(4 * FX_ONE), 2 * FX_ONE);
    assert_eq!(fx_sqrt(0), 0);
    assert_eq!(fx_sqrt(FX_ONE), FX_ONE);
}

#[test]
fn kernels_vanish_at_and_beyond_radius() {
    let cfg = base_config();
    let h = cfg.smoothing_radius;
    assert_eq!(smoothing_kernel(h, &cfg), 0);
    assert_eq!(smoothing_kernel(h + 1, &cfg), 0);
    assert_eq!(smoothing_kernel(100 * FX_ONE, &cfg), 0);
    assert_eq!(smoothing_kernel_derivative(h, &cfg), 0);
    assert_eq!(smoothing_kernel_derivative(h + 1, &cfg), 0);
    assert_eq!(viscosity_smoothing(h, &cfg), 0);
    assert_eq!(viscosity_smoothing(h + 1, &cfg), 0);
}

#[test]
fn kernels_are_continuous_at_the_radius() {
    // One representable step inside the cutoff the kernel has already
    // decayed to zero: no jump at the boundary.
    let cfg = base_config();
    let h = cfg.smoothing_radius;
    assert_eq!(smoothing_kernel(h - 1, &cfg), 0);
    assert_eq!(smoothing_kernel_derivative(h - 1, &cfg), 0);
}

#[test]
fn kernels_exact_values() {
    let cfg = base_config();
    assert_eq!(smoothing_kernel(0, &cfg), 1251);
    assert_eq!(smoothing_kernel(5 * FX_ONE, &cfg), 312);
    assert_eq!(smoothing_kernel_derivative(5 * FX_ONE, &cfg), -125);
    assert_eq!(viscosity_smoothing(5 * FX_ONE, &cfg), 27648000000);
    assert!(smoothing_kernel_derivative(5 * FX_ONE, &cfg) < 0);
}

#[test]
fn pressure_follows_density_error() {
    let cfg = base_config();
    assert_eq!(density_to_pressure(15630, &cfg), Some(580000000));
    // Below the target the pressure is negative: intentional attraction.
    assert!(density_to_pressure(0, &cfg).unwrap() < 0);
    assert_eq!(density_to_pressure(cfg.target_density, &cfg), Some(0));
}

#[test]
fn shared_pressure_is_symmetric() {
    let cfg = base_config();
    let ab = calculate_shared_pressure(15630, 9830, &cfg);
    let ba = calculate_shared_pressure(9830, 15630, &cfg);
    assert_eq!(ab, ba);
    let ab = calculate_shared_pressure(0, 123456, &cfg);
    let ba = calculate_shared_pressure(123456, 0, &cfg);
    assert_eq!(ab, ba);
}

#[test]
fn origin_maps_to_center_cell() {
    let cfg = base_config();
    let c = pixel_pos_to_grid_pos(Vec2x { x: 0, y: 0 }, &cfg);
    assert_eq!(c, Some((85, 50)));
    assert_eq!(grid_pos_to_index(c, &cfg), Some(8585));
}

#[test]
fn out_of_bounds_position_is_invalid() {
    let cfg = base_config();
    let far = Vec2x { x: 900 * FX_ONE, y: 0 };
    assert_eq!(pixel_pos_to_grid_pos(far, &cfg), None);
    assert_eq!(pos_to_grid_index(far, &cfg), None);
    let below = Vec2x { x: 0, y: -600 * FX_ONE };
    assert_eq!(pos_to_grid_index(below, &cfg), None);
}

#[test]
fn cell_index_is_stable_for_unmoved_position() {
    let cfg = base_config();
    let p = Vec2x { x: 123456, y: -654321 };
    let first = pos_to_grid_index(p, &cfg);
    let second = pos_to_grid_index(p, &cfg);
    assert_eq!(first, second);
    assert!(first.is_some());
}

#[test]
fn neighbor_enumeration_always_yields_nine() {
    let cfg = base_config();
    // A corner, two edges, the center, and the invalid coordinate.
    let corners = [
        Some((0usize, 0usize)),
        Some((169usize, 0usize)),
        Some((0usize, 99usize)),
        Some((169usize, 99usize)),
        Some((85usize, 50usize)),
        Some((169usize, 50usize)),
        None,
    ];
    for c in corners {
        assert_eq!(get_connected_cells(c, &cfg).len(), 9);
        assert_eq!(get_connected_cells_indexes(c, &cfg).len(), 9);
    }
}

#[test]
fn corner_neighbors_degenerate_to_invalid() {
    let cfg = base_config();
    let idx = get_connected_cells_indexes(Some((0, 0)), &cfg);
    // Raster order from the bottom-left: the bottom row and the left column
    // fall off the grid.
    assert_eq!(idx[0], None);
    assert_eq!(idx[1], None);
    assert_eq!(idx[2], None);
    assert_eq!(idx[3], None);
    assert_eq!(idx[4], Some(0));
    assert_eq!(idx[5], Some(1));
    assert_eq!(idx[6], None);
    assert_eq!(idx[7], Some(170));
    assert_eq!(idx[8], Some(171));
}

#[test]
fn invalid_cell_has_only_invalid_neighbors() {
    let cfg = base_config();
    let idx = get_connected_cells_indexes(None, &cfg);
    for k in 0..9 {
        assert_eq!(idx[k], None);
    }
}

#[test]
fn grid_build_buckets_by_cell_in_order() {
    let cfg = base_config();
    let positions = vec![
        Vec2x { x: 0, y: 0 },
        Vec2x { x: 1000, y: 1000 },
        Vec2x { x: 900 * FX_ONE, y: 0 },
        Vec2x { x: 20 * FX_ONE, y: 0 },
    ];
    let grid = split_particles_into_grid(&positions, &cfg);
    assert_eq!(grid.len(), 17000);
    // The first two share the center cell, in index order; the third is out
    // of bounds and in no bucket; the fourth sits two cells to the right.
    assert_eq!(grid[8585], vec![0, 1]);
    assert_eq!(grid[8587], vec![3]);
    let total: usize = grid.iter().map(|c| c.len()).sum();
    assert_eq!(total, 3);
}

#[test]
fn boundary_collision_clamps_and_damps() {
    let cfg = base_config();
    let hb = cfg.half_bounds.x;
    // Ten whole units past the right wall, moving right at 2 units/s.
    let pos = Vec2x { x: hb + 10 * FX_ONE, y: 0 };
    let vel = Vec2x { x: 2 * FX_ONE, y: 0 };
    let (cpos, cvel) = resolve_collisions(pos, vel, &cfg);
    assert_eq!(cpos, Vec2x { x: hb, y: 0 });
    assert_eq!(cvel, Vec2x { x: -FX_ONE, y: 0 });
}

#[test]
fn corner_collision_damps_both_axes() {
    let cfg = base_config();
    let pos = Vec2x { x: -(cfg.half_bounds.x + FX_ONE), y: -(cfg.half_bounds.y + FX_ONE) };
    let vel = Vec2x { x: -4 * FX_ONE, y: -2 * FX_ONE };
    let (cpos, cvel) = resolve_collisions(pos, vel, &cfg);
    assert_eq!(cpos, Vec2x { x: -cfg.half_bounds.x, y: -cfg.half_bounds.y });
    assert_eq!(cvel, Vec2x { x: 2 * FX_ONE, y: FX_ONE });
}

#[test]
fn collision_leaves_interior_positions_alone() {
    let cfg = base_config();
    let pos = Vec2x { x: 12345, y: -54321 };
    let vel = Vec2x { x: 777, y: -888 };
    assert_eq!(resolve_collisions(pos, vel, &cfg), (pos, vel));
}

#[test]
fn interaction_force_is_neutral_far_and_at_pointer() {
    let cfg = base_config();
    let zero = Vec2x { x: 0, y: 0 };
    let far = calculate_interaction_force(
        Vec2x { x: -800 * FX_ONE, y: 0 },
        Vec2x { x: 800 * FX_ONE, y: 0 },
        -FX_ONE,
        Some(zero),
        &cfg,
    );
    assert_eq!(far, Some(zero));
    let coincident = calculate_interaction_force(zero, zero, -FX_ONE, Some(zero), &cfg);
    assert_eq!(coincident, Some(zero));
}

#[test]
fn interaction_force_pushes_away_for_negative_sign() {
    let cfg = base_config();
    let zero = Vec2x { x: 0, y: 0 };
    let r = calculate_interaction_force(
        zero,
        Vec2x { x: FX_ONE, y: 0 },
        -FX_ONE,
        Some(zero),
        &cfg,
    );
    assert_eq!(r, Some(Vec2x { x: -73728000000, y: 0 }));
}
