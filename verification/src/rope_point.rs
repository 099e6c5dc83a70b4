//! A rope particle: a point mass carrying its current and previous
//! position, from which velocity is derived implicitly (Verlet form).
//!
//! Time is handled through the host's fixed tick rate `fps` (ticks per
//! second, so the time step is `1 / fps` seconds). Velocities are in
//! subunits per second.

use vstd::prelude::*;
use crate::vec2::{Vec2, in_world, clamp_i, clamp_vec, tdiv, div_i64, sub_clamped, MAX_TICK_RATE};

verus! {

#[derive(Clone, Copy, PartialEq, Eq, Structural, Debug)]
pub struct RopeParticle {
    pub position: Vec2,
    pub prev_position: Vec2,
}

impl RopeParticle {
    /// Both stored positions lie inside the world.
    pub open spec fn wf(self) -> bool {
        in_world(self.position) && in_world(self.prev_position)
    }

    pub fn new(position: Vec2) -> (r: RopeParticle)
        ensures
            r.position == clamp_vec(position),
            r.prev_position == clamp_vec(position),
            r.wf(),
    {
        let p = position.clamped();
        RopeParticle { position: p, prev_position: p }
    }

    /// The implicit velocity, in subunits per second: the displacement of
    /// the last tick times the tick rate.
    pub fn get_velocity(&self, fps: i64) -> (r: Vec2)
        requires
            self.wf(),
            1 <= fps <= MAX_TICK_RATE,
        ensures
            r.x as int == (self.position.x - self.prev_position.x) * fps,
            r.y as int == (self.position.y - self.prev_position.y) * fps,
    {
        let dx: i64 = self.position.x - self.prev_position.x;
        let dy: i64 = self.position.y - self.prev_position.y;
        proof {
            assert(-0x20000000000 <= (dx as int) * (fps as int) <= 0x20000000000)
                by (nonlinear_arith)
                requires
                    -0x20000000 <= dx <= 0x20000000,
                    1 <= fps <= 0x400,
            ;
            assert(-0x20000000000 <= (dy as int) * (fps as int) <= 0x20000000000)
                by (nonlinear_arith)
                requires
                    -0x20000000 <= dy <= 0x20000000,
                    1 <= fps <= 0x400,
            ;
        }
        Vec2 { x: dx * fps, y: dy * fps }
    }

    /// Impose a velocity by rewriting the previous position to
    /// `position - velocity / fps`, clamped into the world.
    pub fn set_velocity(&mut self, velocity: Vec2, fps: i64)
        requires
            old(self).wf(),
            1 <= fps <= MAX_TICK_RATE,
        ensures
            final(self).position == old(self).position,
            final(self).prev_position.x as int == clamp_i(
                old(self).position.x - tdiv(velocity.x as int, fps as int),
            ),
            final(self).prev_position.y as int == clamp_i(
                old(self).position.y - tdiv(velocity.y as int, fps as int),
            ),
            final(self).wf(),
    {
        let sx: i64 = div_i64(velocity.x, fps);
        let sy: i64 = div_i64(velocity.y, fps);
        let px: i64 = sub_clamped(self.position.x, sx);
        let py: i64 = sub_clamped(self.position.y, sy);
        self.prev_position = Vec2 { x: px, y: py };
    }

    /// The one sanctioned way to advance a particle: the current position
    /// becomes the previous one, and the new position (clamped into the
    /// world) becomes current.
    pub fn update_position(&mut self, new_position: Vec2)
        requires
            old(self).wf(),
        ensures
            final(self).prev_position == old(self).position,
            final(self).position == clamp_vec(new_position),
            final(self).wf(),
    {
        self.prev_position = self.position;
        self.position = new_position.clamped();
    }
}

} // verus!
