//! A small two-dimensional gravity playground: circular bodies attract one
//! another under softened Newtonian gravity and push each other apart with
//! impulse-based collision response.
//!
//! All physical quantities are fixed-point numbers: an `i64` counts grid
//! units of one millionth (`fx::SCALE` grid units per whole unit).
//! Arithmetic on that grid is exact, so every contract pins the result of a
//! computation down to the last grid unit.

pub mod fx;
pub mod vec2;
pub mod galaxy;
pub mod galaxy_controller;
pub mod laws;
