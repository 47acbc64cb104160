//! A two-dimensional smoothed-particle hydrodynamics core.
//!
//! Particles carry a position and a velocity; the local fluid density is
//! estimated by kernel-weighted summation over nearby particles, and the
//! deviation of that density from a target value drives a pressure force,
//! combined with drag, viscosity, an optional pointer interaction and
//! boundary collisions.
//!
//! Every scalar quantity is a fixed-point number: an `i64` counting
//! fractions of [`fx::FX_ONE`]. Arithmetic that the simulation cannot bound
//! in advance is checked: an operation whose exact result does not fit the
//! representation yields `None`, the fixed-point analogue of a non-finite
//! float, and the per-tick velocity guard recovers from it by reverting to
//! the previous tick's velocity.

pub mod collide;
pub mod config;
pub mod density;
pub mod fx;
pub mod grid;
pub mod interaction;
pub mod kernel;
pub mod pressure;
pub mod sim;
pub mod viscosity;
pub mod vec2;
