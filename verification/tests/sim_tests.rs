use sph_core::config::{SimConfig, SimParams};
use sph_core::density::{calculate_density_for_every_particle, sample_density};
use sph_core::fx::FX_ONE;
use sph_core::grid::{
    calculate_connected_cells_for_every_particle, pixel_pos_to_grid_pos,
    get_connected_cells_indexes, split_particles_into_grid,
};
use sph_core::sim::{apply_velocity_guard, calc_drag_force, Particle, Simulation};
use sph_core::vec2::Vec2x;

fn quiet_params() -> SimParams {
    // The usual tunables, with gravity, drag and viscosity switched off
    // so single effects can be observed in isolation.
    SimParams {
        gravity: Vec2x { x: 0, y: 0 },
        smoothing_radius: 10 * FX_ONE,
        target_density: 9830,
        pressure_multiplier: 100000 * FX_ONE,
        pressure_force_modifier: 39321,
        influence_modifier: 10 * FX_ONE,
        drag_coefficient: 0,
        viscosity_strength: 0,
        bounds_half_extent: Vec2x { x: 850 * FX_ONE, y: 500 * FX_ONE },
        particle_footprint: 98304,
        collision_damping: 32768,
        interaction_radius: 62176829,
        interaction_strength: 90000000 * FX_ONE,
        time_scale: 2 * FX_ONE,
    }
}

fn quiet_config() -> SimConfig {
    SimConfig::new(quiet_params()).expect("the test parameters validate")
}

// One sixtieth of a second; the time scale of 2 doubles it.
const DT: i64 = 1092;

#[test]
fn particle_new_derives_area() {
    let p = Particle::new(2 * FX_ONE, Vec2x { x: FX_ONE, y: 0 }, 1966, 7);
    assert_eq!(p.area, 9100);
    assert_eq!(p.index, 7);
    assert_eq!(p.velocity, Vec2x { x: FX_ONE, y: 0 });
    assert_eq!(p.last_velocity, Vec2x { x: 0, y: 0 });
    assert_eq!(p.density, 0);
}

#[test]
fn velocity_guard_reverts_non_finite() {
    let last = Vec2x { x: 4 * FX_ONE, y: -FX_ONE };
    assert_eq!(apply_velocity_guard(None, last), last);
    let fine = Vec2x { x: 7, y: 8 };
    assert_eq!(apply_velocity_guard(Some(fine), last), fine);
}

#[test]
fn drag_is_zero_for_resting_particles() {
    let cfg = SimConfig::new(SimParams { drag_coefficient: 655, ..quiet_params() }).unwrap();
    let zero = Vec2x { x: 0, y: 0 };
    assert_eq!(calc_drag_force(Some(zero), 9100, &cfg), Some(zero));
    // A sub-unit speed truncates to zero: still no drag, no division.
    assert_eq!(calc_drag_force(Some(Vec2x { x: 3, y: 4 }), 9100, &cfg), Some(zero));
    assert_eq!(calc_drag_force(None, 9100, &cfg), None);
}

#[test]
fn drag_opposes_motion() {
    let cfg = SimConfig::new(SimParams { drag_coefficient: 655, ..quiet_params() }).unwrap();
    let v = Vec2x { x: 2 * FX_ONE, y: 0 };
    assert_eq!(calc_drag_force(Some(v), 9100, &cfg), Some(Vec2x { x: 181, y: 0 }));
}

#[test]
fn density_of_pair_half_radius_apart() {
    let cfg = quiet_config();
    let positions = vec![
        Vec2x { x: -163840, y: 0 },
        Vec2x { x: 163840, y: 0 },
    ];
    let grid = split_particles_into_grid(&positions, &cfg);
    let ccells = calculate_connected_cells_for_every_particle(&positions, &cfg);
    let densities = calculate_density_for_every_particle(&grid, &positions, &ccells, &cfg);
    // Each particle sees itself and one neighbor half a radius away.
    assert_eq!(densities, vec![15630, 15630]);
    assert!(densities[0] > cfg.target_density);
}

#[test]
fn sample_density_skips_invalid_cells() {
    let cfg = quiet_config();
    // A position outside the grid: all nine cached cells are invalid, so its
    // density is zero even with particles elsewhere.
    let outside = Vec2x { x: 2000 * FX_ONE, y: 0 };
    let positions = vec![Vec2x { x: 0, y: 0 }];
    let grid = split_particles_into_grid(&positions, &cfg);
    let cc = get_connected_cells_indexes(pixel_pos_to_grid_pos(outside, &cfg), &cfg);
    let d = sample_density(outside, &cc, &grid, &positions, &cfg);
    assert_eq!(d, 0);
}

#[test]
fn pair_above_target_density_accelerates_apart() {
    let cfg = quiet_config();
    let sim = Simulation::new(cfg);
    let mut particles = vec![
        Particle::new(2 * FX_ONE, Vec2x { x: 0, y: 0 }, 1966, 0),
        Particle::new(2 * FX_ONE, Vec2x { x: 0, y: 0 }, 1966, 1),
    ];
    particles[0].position = Vec2x { x: -163840, y: 0 };
    particles[1].position = Vec2x { x: 163840, y: 0 };
    sim.step(&mut particles, DT, None);
    // Both sampled densities exceed the target, so the pair repels: the left
    // particle accelerates left, the right one right, symmetrically.
    assert_eq!(particles[0].density, 15630);
    assert_eq!(particles[1].density, 15630);
    assert!(particles[0].velocity.x < 0);
    assert!(particles[1].velocity.x > 0);
    assert_eq!(particles[0].velocity.x, -particles[1].velocity.x);
    assert_eq!(particles[0].velocity.y, 0);
    assert_eq!(particles[1].velocity.y, 0);
    assert!(particles[0].position.x < -163840);
    assert!(particles[1].position.x > 163840);
}

#[test]
fn stray_particle_is_clamped_back_with_halved_reversed_velocity() {
    let cfg = quiet_config();
    let sim = Simulation::new(cfg);
    let hb = cfg.half_bounds.x;
    let mut particles = vec![Particle::new(2 * FX_ONE, Vec2x { x: 2 * FX_ONE, y: 0 }, 1966, 0)];
    // Alone, beyond the right wall, still drifting outward; no gravity, no
    // drag, no neighbors.
    particles[0].position = Vec2x { x: hb + 10 * FX_ONE, y: 0 };
    sim.step(&mut particles, DT, None);
    assert_eq!(particles[0].position, Vec2x { x: hb, y: 0 });
    assert_eq!(particles[0].velocity, Vec2x { x: -FX_ONE, y: 0 });
    // The rollback value keeps the pre-collision velocity.
    assert_eq!(particles[0].last_velocity, Vec2x { x: 2 * FX_ONE, y: 0 });
}

#[test]
fn non_finite_velocity_reverts_to_last_velocity() {
    let cfg = quiet_config();
    let sim = Simulation::new(cfg);
    // A zero mass makes the force-to-acceleration division non-finite, the
    // fixed-point analogue of a velocity forced to NaN before integration.
    let mut particles = vec![Particle::new(0, Vec2x { x: 2 * FX_ONE, y: 0 }, 1966, 0)];
    particles[0].position = Vec2x { x: 0, y: 0 };
    particles[0].last_velocity = Vec2x { x: -3 * FX_ONE, y: FX_ONE };
    sim.step(&mut particles, DT, None);
    assert_eq!(particles[0].velocity, Vec2x { x: -3 * FX_ONE, y: FX_ONE });
    assert_eq!(particles[0].last_velocity, Vec2x { x: -3 * FX_ONE, y: FX_ONE });
}

#[test]
fn gravity_accelerates_and_lookahead_predicts() {
    let cfg = SimConfig::new(SimParams {
        gravity: Vec2x { x: 0, y: -15 * FX_ONE },
        ..quiet_params()
    })
    .unwrap();
    let sim = Simulation::new(cfg);
    let mut particles = vec![Particle::new(2 * FX_ONE, Vec2x { x: 0, y: 0 }, 1966, 0)];
    sim.step(&mut particles, DT, None);
    // delta = 2184; the gravity pull per tick is -15 * 2184 = -32760 (one
    // lone particle: no pressure, drag or viscosity).
    assert_eq!(particles[0].velocity, Vec2x { x: 0, y: -32760 });
    // The look-ahead position divides the fresh velocity by 120.
    assert_eq!(particles[0].predicted_position, Vec2x { x: 0, y: -273 });
    // Integration moves by velocity * delta, truncated toward zero.
    assert_eq!(particles[0].position, Vec2x { x: 0, y: -1091 });
}

#[test]
fn step_keeps_identity_and_count() {
    let cfg = quiet_config();
    let sim = Simulation::new(cfg);
    let mut particles = vec![
        Particle::new(2 * FX_ONE, Vec2x { x: 0, y: 0 }, 1966, 0),
        Particle::new(2 * FX_ONE, Vec2x { x: 0, y: 0 }, 1966, 1),
        Particle::new(2 * FX_ONE, Vec2x { x: 0, y: 0 }, 1966, 2),
    ];
    particles[0].position = Vec2x { x: -5 * FX_ONE, y: 0 };
    particles[1].position = Vec2x { x: 0, y: 3 * FX_ONE };
    particles[2].position = Vec2x { x: 5 * FX_ONE, y: 0 };
    sim.step(&mut particles, DT, None);
    assert_eq!(particles.len(), 3);
    for (i, p) in particles.iter().enumerate() {
        assert_eq!(p.index, i);
        assert_eq!(p.mass, 2 * FX_ONE);
        assert_eq!(p.radius, 1966);
    }
}

#[test]
fn pointer_interaction_moves_particles() {
    let cfg = quiet_config();
    let sim = Simulation::new(cfg);
    let mut particles = vec![Particle::new(2 * FX_ONE, Vec2x { x: 0, y: 0 }, 1966, 0)];
    let pointer = sph_core::sim::PointerInput {
        position: Vec2x { x: 10 * FX_ONE, y: 0 },
        force_sign: -FX_ONE,
    };
    sim.step(&mut particles, DT, Some(pointer));
    // A negative sign pushes the particle away from the pointer on its left
    // side: it accelerates toward negative x.
    assert!(particles[0].velocity.x < 0);
    assert_eq!(particles[0].velocity.y, 0);
}

#[test]
fn coincident_pair_is_skipped_not_divided() {
    // Two particles at exactly the same point: the pairwise force skips the
    // coincident neighbor instead of normalizing a zero direction, so with
    // nothing else acting the pair stays at rest.
    let cfg = quiet_config();
    let sim = Simulation::new(cfg);
    let mut particles = vec![
        Particle::new(2 * FX_ONE, Vec2x { x: 0, y: 0 }, 1966, 0),
        Particle::new(2 * FX_ONE, Vec2x { x: 0, y: 0 }, 1966, 1),
    ];
    particles[0].position = Vec2x { x: 7 * FX_ONE, y: 0 };
    particles[1].position = Vec2x { x: 7 * FX_ONE, y: 0 };
    sim.step(&mut particles, DT, None);
    assert_eq!(particles[0].velocity, Vec2x { x: 0, y: 0 });
    assert_eq!(particles[1].velocity, Vec2x { x: 0, y: 0 });
    // Each still sees both self-terms in its density.
    assert_eq!(particles[0].density, 25020);
}

#[test]
fn step_handles_no_particles() {
    let cfg = quiet_config();
    let sim = Simulation::new(cfg);
    let mut particles: Vec<Particle> = vec![];
    sim.step(&mut particles, DT, None);
    assert!(particles.is_empty());
}

#[test]
fn positions_stay_inside_the_box() {
    // Whatever the dynamics do, the collision resolver ends every tick with
    // every particle inside the interior half bounds.
    let cfg = SimConfig::new(SimParams {
        gravity: Vec2x { x: 0, y: -15 * FX_ONE },
        drag_coefficient: 655,
        ..quiet_params()
    })
    .unwrap();
    let sim = Simulation::new(cfg);
    let mut particles = vec![
        Particle::new(2 * FX_ONE, Vec2x { x: 300 * FX_ONE, y: -200 * FX_ONE }, 1966, 0),
        Particle::new(2 * FX_ONE, Vec2x { x: -250 * FX_ONE, y: 100 * FX_ONE }, 1966, 1),
    ];
    particles[0].position = Vec2x { x: 849 * FX_ONE, y: -499 * FX_ONE };
    particles[1].position = Vec2x { x: -849 * FX_ONE, y: 499 * FX_ONE };
    for _ in 0..30 {
        sim.step(&mut particles, DT, None);
        for p in &particles {
            assert!(p.position.x.abs() <= cfg.half_bounds.x);
            assert!(p.position.y.abs() <= cfg.half_bounds.y);
        }
    }
}
