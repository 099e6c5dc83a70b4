//! Fixed-point 2-D vectors on a bounded world.
//!
//! A coordinate is an `i64` number of host-chosen subunits. Positions the
//! simulation stores are kept inside `[-WORLD_BOUND, WORLD_BOUND]` on each
//! axis; every write goes through clamping, which makes each operation
//! total and keeps all intermediate arithmetic far from `i64` overflow.

use vstd::prelude::*;

verus! {

/// Half-width of the simulated world, in subunits, per axis.
pub const WORLD_BOUND: i64 = 268435456;

/// Largest tick rate (ticks per second) the core accepts.
pub const MAX_TICK_RATE: i64 = 1024;

#[derive(Clone, Copy, PartialEq, Eq, Structural, Debug)]
pub struct Vec2 {
    pub x: i64,
    pub y: i64,
}

/// A coordinate the world may store.
pub open spec fn coord_in_world(x: int) -> bool {
    -WORLD_BOUND <= x <= WORLD_BOUND
}

/// A position the world may store.
pub open spec fn in_world(v: Vec2) -> bool {
    coord_in_world(v.x as int) && coord_in_world(v.y as int)
}

/// Mathematical clamp of one coordinate into the world.
pub open spec fn clamp_i(x: int) -> int {
    if x < -WORLD_BOUND {
        -WORLD_BOUND as int
    } else if x > WORLD_BOUND {
        WORLD_BOUND as int
    } else {
        x
    }
}

/// Truncating division, the semantics of machine signed division:
/// the quotient is rounded toward zero. Meaningful for `b > 0`.
pub open spec fn tdiv(a: int, b: int) -> int {
    if a >= 0 {
        a / b
    } else {
        -((-a) / b)
    }
}

/// Truncating division never grows the magnitude of the dividend.
pub proof fn lemma_tdiv_magnitude(a: int, b: int)
    requires
        b >= 1,
    ensures
        a >= 0 ==> 0 <= tdiv(a, b) <= a,
        a < 0 ==> a <= tdiv(a, b) <= 0,
{
    if a >= 0 {
        vstd::arithmetic::div_mod::lemma_div_nonincreasing(a, b);
        vstd::arithmetic::div_mod::lemma_div_pos_is_pos(a, b);
    } else {
        vstd::arithmetic::div_mod::lemma_div_nonincreasing(-a, b);
        vstd::arithmetic::div_mod::lemma_div_pos_is_pos(-a, b);
    }
}

/// Multiplying and then dividing by the same positive number is exact.
pub proof fn lemma_tdiv_mul_cancel(a: int, b: int)
    requires
        b >= 1,
    ensures
        tdiv(a * b, b) == a,
{
    if a >= 0 {
        vstd::arithmetic::div_mod::lemma_div_multiples_vanish(a, b);
        assert(a * b == b * a) by (nonlinear_arith);
        assert(a * b >= 0) by (nonlinear_arith)
            requires
                a >= 0 && b >= 1,
        ;
    } else {
        vstd::arithmetic::div_mod::lemma_div_multiples_vanish(-a, b);
        assert(-(a * b) == b * (-a)) by (nonlinear_arith);
        assert(a * b < 0) by (nonlinear_arith)
            requires
                a < 0 && b >= 1,
        ;
    }
}

/// Mathematical clamp of a whole vector into the world.
pub open spec fn clamp_vec(v: Vec2) -> Vec2 {
    Vec2 { x: clamp_i(v.x as int) as i64, y: clamp_i(v.y as int) as i64 }
}

/// Clamp one coordinate into the world.
pub fn clamp_coord(x: i64) -> (r: i64)
    ensures
        r as int == clamp_i(x as int),
        coord_in_world(r as int),
{
    if x < -WORLD_BOUND {
        -WORLD_BOUND
    } else if x > WORLD_BOUND {
        WORLD_BOUND
    } else {
        x
    }
}

impl Vec2 {
    pub fn new(x: i64, y: i64) -> (r: Vec2)
        ensures
            r.x == x,
            r.y == y,
    {
        Vec2 { x, y }
    }

    /// Clamp both coordinates into the world.
    pub fn clamped(self) -> (r: Vec2)
        ensures
            r == clamp_vec(self),
            in_world(r),
            in_world(self) ==> r == self,
    {
        Vec2 { x: clamp_coord(self.x), y: clamp_coord(self.y) }
    }
}

/// Difference `a - b` clamped into the world, total for any `b` as long
/// as `a` itself lies inside the world.
pub fn sub_clamped(a: i64, b: i64) -> (r: i64)
    requires
        coord_in_world(a as int),
    ensures
        r as int == clamp_i(a - b),
{
    if b >= a + WORLD_BOUND {
        -WORLD_BOUND
    } else if b <= a - WORLD_BOUND {
        WORLD_BOUND
    } else {
        a - b
    }
}

/// Truncating division of machine integers, total for a positive divisor.
pub fn div_i64(a: i64, b: i64) -> (r: i64)
    requires
        b >= 1,
    ensures
        r as int == tdiv(a as int, b as int),
{
    proof {
        lemma_tdiv_magnitude(a as int, b as int);
    }
    match a.checked_div(b) {
        Some(q) => q,
        None => 0,
    }
}

} // verus!
