//! The library's stated laws, proved once and for all over the
//! fixed-point model: what the integrator, the constraint solvers and
//! the collision response promise on every input their statement admits.

use vstd::prelude::*;
use vstd::arithmetic::div_mod::{lemma_div_denominator, lemma_div_multiples_vanish};
use crate::vec2::{Vec2, in_world, coord_in_world, tdiv, WORLD_BOUND, MAX_TICK_RATE};
use crate::rope_point::RopeParticle;
use crate::constraints::{PinConstraint, Constraint, dist, dist_sq, corr_x, corr_y, solved_start, solved_end};
use crate::num::{sqrt_floor, lemma_sqrt_floor_square};
use crate::rope_2d::{verlet_step, apply_constraint, model_set_pos, ref_live, chain_constraints, pin_constraints};
use crate::collision::{BodyKind, pair_displaced, pair_impulses, pair_valid};

verus! {

/// A particle at rest under zero gravity does not move: one Verlet step
/// keeps its position exactly.
pub proof fn lemma_integrator_at_rest(p: RopeParticle, fps: int)
    requires
        p.wf(),
        p.position == p.prev_position,
        1 <= fps <= MAX_TICK_RATE,
    ensures
        verlet_step(p, Vec2 { x: 0, y: 0 }, fps).position == p.position,
        verlet_step(p, Vec2 { x: 0, y: 0 }, fps).prev_position == p.position,
{
    assert(2 * fps * fps >= 2) by (nonlinear_arith)
        requires
            fps >= 1,
    ;
    assert(tdiv(0, 2 * fps * fps) == 0) by {
        vstd::arithmetic::div_mod::lemma_div_of0(2 * fps * fps);
    }
}

/// One Verlet step displaces a particle by exactly the displacement of
/// the previous tick plus half the gravity acceleration over one squared
/// time step, whenever the result stays inside the world.
pub proof fn lemma_integrator_displacement(p: RopeParticle, g: Vec2, fps: int)
    requires
        p.wf(),
        1 <= fps <= MAX_TICK_RATE,
        coord_in_world(
            p.position.x + (p.position.x - p.prev_position.x) + tdiv(g.x as int, 2 * fps * fps),
        ),
        coord_in_world(
            p.position.y + (p.position.y - p.prev_position.y) + tdiv(g.y as int, 2 * fps * fps),
        ),
    ensures
        verlet_step(p, g, fps).position.x - p.position.x == (p.position.x - p.prev_position.x)
            + tdiv(g.x as int, 2 * fps * fps),
        verlet_step(p, g, fps).position.y - p.position.y == (p.position.y - p.prev_position.y)
            + tdiv(g.y as int, 2 * fps * fps),
        verlet_step(p, g, fps).prev_position == p.position,
{
}

/// For a particle at rest, one Verlet step displaces it by exactly the
/// gravity term, in each axis the truncated quotient of the acceleration
/// by twice the squared tick rate.
pub proof fn lemma_integrator_gravity_displacement(p: RopeParticle, g: Vec2, fps: int)
    requires
        p.wf(),
        p.position == p.prev_position,
        1 <= fps <= MAX_TICK_RATE,
        coord_in_world(p.position.x + tdiv(g.x as int, 2 * fps * fps)),
        coord_in_world(p.position.y + tdiv(g.y as int, 2 * fps * fps)),
    ensures
        verlet_step(p, g, fps).position.x - p.position.x == tdiv(g.x as int, 2 * fps * fps),
        verlet_step(p, g, fps).position.y - p.position.y == tdiv(g.y as int, 2 * fps * fps),
{
    lemma_integrator_displacement(p, g, fps);
}

/// One distance solve moves the two particles by exactly opposite
/// amounts: their displacements sum to zero on each axis, so the pair's
/// midpoint is unchanged. Holds whenever the corrected positions stay
/// inside the world; the degenerate coincident pair moves nothing.
pub proof fn lemma_distance_solve_symmetric(a: Vec2, b: Vec2, rest: int)
    requires
        in_world(a),
        in_world(b),
        dist(a, b) != 0 ==> {
            &&& coord_in_world(a.x + corr_x(a, b, rest))
            &&& coord_in_world(a.y + corr_y(a, b, rest))
            &&& coord_in_world(b.x - corr_x(a, b, rest))
            &&& coord_in_world(b.y - corr_y(a, b, rest))
        },
    ensures
        (solved_start(a, b, rest).x - a.x) + (solved_end(a, b, rest).x - b.x) == 0,
        (solved_start(a, b, rest).y - a.y) + (solved_end(a, b, rest).y - b.y) == 0,
{
}

/// Two coincident particles are left untouched by a distance solve: the
/// correction is skipped rather than dividing by a zero separation.
pub proof fn lemma_distance_solve_degenerate(a: Vec2, rest: int)
    ensures
        solved_start(a, a, rest) == a,
        solved_end(a, a, rest) == a,
{
    assert(dist_sq(a, a) == 0);
    assert(sqrt_floor(0nat) == 0);
}

/// After a pin constraint's solve, the pinned particle's position equals
/// the pin target exactly, whatever it was before.
pub proof fn lemma_pin_solve(
    m: Seq<Seq<RopeParticle>>,
    alive: Seq<bool>,
    nodes: Seq<(u64, Vec2)>,
    pc: PinConstraint,
)
    requires
        ref_live(m, alive, pc.rope_point),
    ensures
        apply_constraint(m, alive, nodes, Constraint::Pin(pc))[pc.rope_point.rope as int][
            pc.rope_point.index as int].position == pc.pin_position,
{
    let m2 = model_set_pos(m, pc.rope_point, pc.pin_position);
    assert(m2[pc.rope_point.rope as int][pc.rope_point.index as int].position
        == pc.pin_position);
}

/// How many configured pin indices name an existing particle.
pub open spec fn valid_pin_count(plen: nat, pins: Seq<usize>) -> nat
    decreases pins.len(),
{
    if pins.len() == 0 {
        0
    } else {
        (if (pins[0] as int) < plen {
            1nat
        } else {
            0nat
        }) + valid_pin_count(plen, pins.drop_first())
    }
}

/// A chain built from `n` polyline points carries exactly `n - 1`
/// adjacent distance constraints, followed by one pin constraint per
/// configured pin index that names a particle.
pub proof fn lemma_chain_construction(h: int, parts: Seq<RopeParticle>, pins: Seq<usize>, rest: i64)
    ensures
        chain_constraints(h, parts.len(), rest).len() == if parts.len() == 0 {
            0int
        } else {
            parts.len() - 1
        },
        pin_constraints(h, parts, pins).len() == valid_pin_count(parts.len(), pins),
        (chain_constraints(h, parts.len(), rest) + pin_constraints(h, parts, pins)).len() == (
        if parts.len() == 0 {
            0int
        } else {
            parts.len() - 1
        }) + valid_pin_count(parts.len(), pins),
    decreases pins.len(),
{
    if pins.len() > 0 {
        lemma_chain_construction(h, parts, pins.drop_first(), rest);
    }
}

/// Against a static body, one contact displaces the particle by exactly
/// the negated contact vector, whenever the result stays inside the
/// world: the static body is immovable and the particle takes the whole
/// correction.
pub proof fn lemma_collision_static(p: Vec2, a: Vec2, b: Vec2)
    requires
        in_world(p),
        pair_valid(a, b),
        coord_in_world(p.x - (b.x - a.x)),
        coord_in_world(p.y - (b.y - a.y)),
    ensures
        pair_displaced(p, a, b, BodyKind::Static).x == p.x - (b.x - a.x),
        pair_displaced(p, a, b, BodyKind::Static).y == p.y - (b.y - a.y),
        pair_impulses(a, b, BodyKind::Static, 1).len() == 0,
{
}

/// Against a rigid body of mass `m`, one contact displaces the particle
/// by exactly half the negated contact vector, and forwards the impulse
/// of one tenth of the contact vector per time step, times the mass.
pub proof fn lemma_collision_rigid(p: Vec2, a: Vec2, b: Vec2, mass: i64, fps: int)
    requires
        in_world(p),
        pair_valid(a, b),
        1 <= fps <= MAX_TICK_RATE,
        coord_in_world(p.x - tdiv(b.x - a.x, 2)),
        coord_in_world(p.y - tdiv(b.y - a.y, 2)),
    ensures
        pair_displaced(p, a, b, BodyKind::Rigid { mass }).x == p.x - tdiv(b.x - a.x, 2),
        pair_displaced(p, a, b, BodyKind::Rigid { mass }).y == p.y - tdiv(b.y - a.y, 2),
        pair_impulses(a, b, BodyKind::Rigid { mass }, fps) == seq![
            Vec2 {
                x: tdiv((b.x - a.x) * fps * (mass as int), 10) as i64,
                y: tdiv((b.y - a.y) * fps * (mass as int), 10) as i64,
            },
        ],
{
}

} // verus!

// --- Convergence of the distance solve --------------------------------

verus! {

/// For two distinct particles on one horizontal line, a single distance
/// solve brings their separation to within one subunit of the rest
/// length and never grows the error; repeated solves therefore reduce
/// `|separation - rest|` monotonically until it is at most one subunit.
/// (On general positions the same drive toward the rest length holds
/// only up to the rounding of the square root.)
pub proof fn lemma_distance_solve_converges_collinear(a: Vec2, b: Vec2, rest: int)
    requires
        in_world(a),
        in_world(b),
        a.y == b.y,
        a.x < b.x,
        0 <= rest <= WORLD_BOUND,
        coord_in_world(a.x + corr_x(a, b, rest)),
        coord_in_world(b.x - corr_x(a, b, rest)),
    ensures
        ({
            let s = solved_start(a, b, rest);
            let e = solved_end(a, b, rest);
            &&& s.y == a.y
            &&& e.y == b.y
            &&& vstd::math::abs(dist(s, e) - rest) <= vstd::math::abs(dist(a, b) - rest)
            &&& vstd::math::abs(dist(s, e) - rest) <= 1
        }),
{
    let dx = b.x - a.x;
    assert(dx >= 1);
    assert(dist_sq(a, b) == dx * dx);
    assert((dx as nat) * (dx as nat) == (dx * dx) as nat);
    lemma_sqrt_floor_square(dx as nat);
    let d0 = dist(a, b);
    assert(d0 == dx);
    let err = d0 - rest;

    vstd::arithmetic::div_mod::lemma_div_of0(2 * d0);
    assert(err * (b.y - a.y) == 0) by (nonlinear_arith)
        requires
            b.y - a.y == 0,
    ;
    assert(corr_y(a, b, rest) == 0);

    let c = corr_x(a, b, rest);
    if err >= 0 {
        assert(err * dx >= 0) by (nonlinear_arith)
            requires
                err >= 0,
                dx >= 1,
        ;
        assert(c == (err * dx) / (2 * dx));
        lemma_div_denominator(err * dx, dx, 2);
        assert(err * dx == dx * err) by (nonlinear_arith);
        lemma_div_multiples_vanish(err, dx);
        assert(dx * 2 == 2 * dx);
        assert(c == err / 2);
    } else {
        assert(err * dx < 0) by (nonlinear_arith)
            requires
                err < 0,
                dx >= 1,
        ;
        assert(c == -((-(err * dx)) / (2 * dx)));
        assert(-(err * dx) == (-err) * dx) by (nonlinear_arith);
        assert((-err) * dx == dx * (-err)) by (nonlinear_arith);
        lemma_div_denominator((-err) * dx, dx, 2);
        lemma_div_multiples_vanish(-err, dx);
        assert(dx * 2 == 2 * dx);
        assert(c == -((-err) / 2));
    }

    let s = solved_start(a, b, rest);
    let e = solved_end(a, b, rest);
    assert(s.x == a.x + c && s.y == a.y);
    assert(e.x == b.x - c && e.y == b.y);

    let dx1 = e.x - s.x;
    assert(dx1 == dx - 2 * c);
    if err >= 0 {
        assert(err == 2 * (err / 2) + err % 2);
        assert(0 <= err % 2 < 2);
        assert(dx1 == rest + err % 2);
    } else {
        assert(-err == 2 * ((-err) / 2) + (-err) % 2);
        assert(0 <= (-err) % 2 < 2);
        assert(dx1 == rest - (-err) % 2);
        assert(rest > dx);
        assert(dx1 >= 1);
    }
    assert(dx1 >= 0);

    assert(dist_sq(s, e) == dx1 * dx1);
    assert((dx1 as nat) * (dx1 as nat) == (dx1 * dx1) as nat);
    lemma_sqrt_floor_square(dx1 as nat);
    assert(dist(s, e) == dx1);
}

} // verus!
