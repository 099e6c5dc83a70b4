//! Constraints: the units of work of the relaxation pass.
//!
//! A constraint references particles by stable handle — a rope index in
//! the registry plus a particle index inside that rope — never by
//! pointer; a reference whose rope is gone resolves to "absent" and the
//! solve step becomes a no-op.
//!
//! The distance solver's mathematics lives here as pure functions on
//! positions, stated exactly over the fixed-point model.

use vstd::prelude::*;
use crate::vec2::{Vec2, in_world, clamp_i, clamp_vec, tdiv, div_i64, clamp_coord, WORLD_BOUND};
use crate::num::{sqrt_floor, isqrt, lemma_sqrt_floor_monotone, lemma_sqrt_floor_square};

verus! {

/// A stable reference to one particle: the owning rope's handle in the
/// registry and the particle's index in that rope.
#[derive(Clone, Copy, PartialEq, Eq, Structural, Debug)]
pub struct ParticleRef {
    pub rope: usize,
    pub index: usize,
}

/// Keeps two particles at a target separation, moving both ends by half
/// the error each.
#[derive(Clone, Copy, PartialEq, Eq, Structural, Debug)]
pub struct DistanceContraint {
    pub start: ParticleRef,
    pub end: ParticleRef,
    pub distance: i64,
}

/// Clamps one particle to a fixed world position captured at build time.
#[derive(Clone, Copy, PartialEq, Eq, Structural, Debug)]
pub struct PinConstraint {
    pub pin_position: Vec2,
    pub rope_point: ParticleRef,
}

/// Clamps one particle to the live position of an external transform
/// owner, addressed by an opaque host handle.
#[derive(Clone, Copy, PartialEq, Eq, Structural, Debug)]
pub struct Node2DPinContraint {
    pub rope_point: ParticleRef,
    pub node: u64,
}

/// The closed set of constraint variants, dispatched by pattern matching
/// in one uniform relaxation pass.
#[derive(Clone, Copy, PartialEq, Eq, Structural, Debug)]
pub enum Constraint {
    Distance(DistanceContraint),
    Pin(PinConstraint),
    Node2DPin(Node2DPinContraint),
}

impl DistanceContraint {
    /// The rest length is clamped into `[0, WORLD_BOUND]`: a separation
    /// the world cannot hold is no meaningful target.
    pub fn new(start: ParticleRef, end: ParticleRef, distance: i64) -> (r: DistanceContraint)
        ensures
            r.start == start,
            r.end == end,
            r.distance as int == if distance < 0 { 0int } else { clamp_i(distance as int) },
            0 <= r.distance <= WORLD_BOUND,
    {
        let d: i64 = if distance < 0 {
            0
        } else {
            clamp_coord(distance)
        };
        DistanceContraint { start, end, distance: d }
    }
}

impl PinConstraint {
    pub fn new(pin_position: Vec2, rope_point: ParticleRef) -> (r: PinConstraint)
        ensures
            r.pin_position == clamp_vec(pin_position),
            r.rope_point == rope_point,
            in_world(r.pin_position),
    {
        PinConstraint { pin_position: pin_position.clamped(), rope_point }
    }
}

impl Node2DPinContraint {
    pub fn new(rope_point: ParticleRef, node: u64) -> (r: Node2DPinContraint)
        ensures
            r.rope_point == rope_point,
            r.node == node,
    {
        Node2DPinContraint { rope_point, node }
    }
}

/// A vector built from mathematical coordinates, clamped into the world.
pub open spec fn vec_of(x: int, y: int) -> Vec2 {
    Vec2 { x: clamp_i(x) as i64, y: clamp_i(y) as i64 }
}

/// Squared separation of two positions.
pub open spec fn dist_sq(a: Vec2, b: Vec2) -> int {
    (b.x - a.x) * (b.x - a.x) + (b.y - a.y) * (b.y - a.y)
}

/// Separation of two positions: the floor of the Euclidean distance.
pub open spec fn dist(a: Vec2, b: Vec2) -> int {
    sqrt_floor(dist_sq(a, b) as nat) as int
}

/// One component of the correction `((dist - rest) / dist) * delta / 2`
/// applied by a distance solve. Meaningful when the positions differ.
pub open spec fn corr_x(a: Vec2, b: Vec2, rest: int) -> int {
    tdiv((dist(a, b) - rest) * (b.x - a.x), 2 * dist(a, b))
}

pub open spec fn corr_y(a: Vec2, b: Vec2, rest: int) -> int {
    tdiv((dist(a, b) - rest) * (b.y - a.y), 2 * dist(a, b))
}

/// Where a distance solve puts the start particle. Coincident particles
/// are the degenerate case: the correction is skipped entirely.
pub open spec fn solved_start(a: Vec2, b: Vec2, rest: int) -> Vec2 {
    if dist(a, b) == 0 {
        a
    } else {
        vec_of(a.x + corr_x(a, b, rest), a.y + corr_y(a, b, rest))
    }
}

/// Where a distance solve puts the end particle.
pub open spec fn solved_end(a: Vec2, b: Vec2, rest: int) -> Vec2 {
    if dist(a, b) == 0 {
        b
    } else {
        vec_of(b.x - corr_x(a, b, rest), b.y - corr_y(a, b, rest))
    }
}

/// The squared separation of two world positions fits well below the
/// integer square root's input ceiling.
pub proof fn lemma_dist_sq_bounds(a: Vec2, b: Vec2)
    requires
        in_world(a),
        in_world(b),
    ensures
        0 <= (b.x - a.x) * (b.x - a.x) <= 0x400000000000000,
        0 <= (b.y - a.y) * (b.y - a.y) <= 0x400000000000000,
        0 <= dist_sq(a, b) <= 0x800000000000000,
        0 <= dist(a, b) <= 0x40000000,
{
    let dx = b.x - a.x;
    let dy = b.y - a.y;
    assert(0 <= dx * dx <= 0x400000000000000 && 0 <= dy * dy <= 0x400000000000000)
        by (nonlinear_arith)
        requires
            -0x20000000 <= dx <= 0x20000000,
            -0x20000000 <= dy <= 0x20000000,
    ;
    lemma_sqrt_floor_monotone(dist_sq(a, b) as nat, 0x1000000000000000 as nat);
    lemma_sqrt_floor_square(0x40000000 as nat);
    assert((0x40000000 as nat) * (0x40000000 as nat) == 0x1000000000000000 as nat)
        by (nonlinear_arith);
}

/// One distance solve on a pair of positions: both ends move half the
/// error toward the rest separation, the degenerate coincident pair is
/// left untouched, and the results are clamped into the world.
pub fn solve_distance_positions(a: Vec2, b: Vec2, rest: i64) -> (r: (Vec2, Vec2))
    requires
        in_world(a),
        in_world(b),
        0 <= rest <= WORLD_BOUND,
    ensures
        r.0 == solved_start(a, b, rest as int),
        r.1 == solved_end(a, b, rest as int),
        in_world(r.0),
        in_world(r.1),
{
    let dx: i64 = b.x - a.x;
    let dy: i64 = b.y - a.y;
    proof {
        lemma_dist_sq_bounds(a, b);
    }
    let d2: i64 = dx * dx + dy * dy;
    let d: i64 = isqrt(d2 as u64) as i64;
    if d == 0 {
        (a, b)
    } else {
        let e: i64 = d - rest;
        proof {
            assert(-0x2000000000000000 <= (e as int) * (dx as int) <= 0x2000000000000000
                && -0x2000000000000000 <= (e as int) * (dy as int) <= 0x2000000000000000)
                by (nonlinear_arith)
                requires
                    -0x50000000 <= e <= 0x50000000,
                    -0x20000000 <= dx <= 0x20000000,
                    -0x20000000 <= dy <= 0x20000000,
            ;
            crate::vec2::lemma_tdiv_magnitude((e as int) * (dx as int), 2 * d as int);
            crate::vec2::lemma_tdiv_magnitude((e as int) * (dy as int), 2 * d as int);
        }
        let cx: i64 = div_i64(e * dx, 2 * d);
        let cy: i64 = div_i64(e * dy, 2 * d);
        let sx: i64 = clamp_coord(a.x + cx);
        let sy: i64 = clamp_coord(a.y + cy);
        let ex: i64 = clamp_coord(b.x - cx);
        let ey: i64 = clamp_coord(b.y - cy);
        (Vec2 { x: sx, y: sy }, Vec2 { x: ex, y: ey })
    }
}

} // verus!
