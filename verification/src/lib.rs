//! A verified core for a 2-D rope simulation: a chain of point masses
//! advanced by Verlet integration and relaxed by iterative constraints,
//! with collision response against rigid and static bodies.
//!
//! Geometry is fixed-point: every coordinate is an `i64` in host-chosen
//! subunits, confined to a bounded world so that all arithmetic is exact
//! and total. The host engine owns rendering, broad-phase collision
//! queries and scheduling; it talks to this core in plain values.

pub mod vec2;
pub mod num;
pub mod rope_point;
pub mod constraints;
pub mod rope_engine;
pub mod rope_2d;
pub mod collision;
pub mod laws;
