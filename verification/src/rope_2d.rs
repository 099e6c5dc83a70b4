//! The rope registry: ropes addressed by stable handles, each owning an
//! ordered arena of particles and an ordered list of constraints.
//!
//! A destroyed rope keeps its slot but is marked dead; every reference
//! into it then resolves to "absent" and the operation holding it
//! becomes a benign no-op. One simulation tick for a rope runs the
//! Verlet integrator over its particles, then the fixed-iteration
//! relaxation over its constraints, then collision response.

use vstd::prelude::*;
use crate::vec2::{Vec2, in_world, clamp_vec, tdiv, div_i64, lemma_tdiv_magnitude, lemma_tdiv_mul_cancel, WORLD_BOUND, MAX_TICK_RATE};
use crate::rope_point::RopeParticle;
use crate::constraints::{ParticleRef, DistanceContraint, PinConstraint, Node2DPinContraint, Constraint, vec_of, solved_start, solved_end, solve_distance_positions};
use crate::rope_engine::RopeEngine;
use crate::collision::{BodyKind, MAX_BODY_MASS, contacts_displaced, contacts_impulses, resolve_particle_contacts};

verus! {

/// One rope: its particle arena, its constraints in solve order, and its
/// per-rope configuration.
pub struct Rope2D {
    /// Cleared when the rope is destroyed; its slot then answers every
    /// lookup with "absent".
    pub alive: bool,
    pub rope_particles: Vec<RopeParticle>,
    pub constraints: Vec<Constraint>,
    pub pin_indices: Vec<usize>,
    pub segment_distance: i64,
    pub use_colliders: bool,
    pub colliding_bodies: Vec<u64>,
    pub iteration_count: usize,
    /// Gravity acceleration, in subunits per second squared.
    pub gravity_accel: Vec2,
}

/// What a stored constraint must satisfy for the solver to be total.
pub open spec fn constraint_wf(c: Constraint) -> bool {
    match c {
        Constraint::Distance(dc) => 0 <= dc.distance <= WORLD_BOUND,
        Constraint::Pin(pc) => in_world(pc.pin_position),
        Constraint::Node2DPin(_) => true,
    }
}

impl Rope2D {
    pub open spec fn wf(self) -> bool {
        &&& forall|i: int|
            0 <= i < self.rope_particles@.len() ==> self.rope_particles@[i].wf()
        &&& forall|j: int|
            0 <= j < self.constraints@.len() ==> constraint_wf(self.constraints@[j])
        &&& in_world(self.gravity_accel)
        &&& 0 <= self.segment_distance <= WORLD_BOUND
    }

    /// A fresh, empty, live rope with its host-supplied configuration.
    /// Gravity and the segment rest length are clamped into the world.
    pub fn init(
        segment_distance: i64,
        pin_indices: Vec<usize>,
        use_colliders: bool,
        gravity_accel: Vec2,
    ) -> (r: Rope2D)
        ensures
            r.alive,
            r.rope_particles@.len() == 0,
            r.constraints@.len() == 0,
            r.pin_indices == pin_indices,
            r.segment_distance as int == if segment_distance < 0 {
                0int
            } else {
                crate::vec2::clamp_i(segment_distance as int)
            },
            r.use_colliders == use_colliders,
            r.colliding_bodies@.len() == 0,
            r.iteration_count == 50,
            r.gravity_accel == clamp_vec(gravity_accel),
            r.wf(),
    {
        let sd: i64 = if segment_distance < 0 {
            0
        } else {
            crate::vec2::clamp_coord(segment_distance)
        };
        Rope2D {
            alive: true,
            rope_particles: Vec::new(),
            constraints: Vec::new(),
            pin_indices,
            segment_distance: sd,
            use_colliders,
            colliding_bodies: Vec::new(),
            iteration_count: 50,
            gravity_accel: gravity_accel.clamped(),
        }
    }
}

/// Everything of a rope except its particles.
pub open spec fn meta_eq(a: Rope2D, b: Rope2D) -> bool {
    &&& a.alive == b.alive
    &&& a.constraints@ == b.constraints@
    &&& a.pin_indices@ == b.pin_indices@
    &&& a.segment_distance == b.segment_distance
    &&& a.use_colliders == b.use_colliders
    &&& a.colliding_bodies@ == b.colliding_bodies@
    &&& a.iteration_count == b.iteration_count
    &&& a.gravity_accel == b.gravity_accel
}

/// The registry of every rope in the simulation.
pub struct RopeWorld {
    pub ropes: Vec<Rope2D>,
}

/// One particle reference resolves iff its rope handle names a live rope
/// and its index lies inside that rope's arena.
pub open spec fn ref_live(m: Seq<Seq<RopeParticle>>, alive: Seq<bool>, r: ParticleRef) -> bool {
    &&& (r.rope as int) < m.len()
    &&& alive[r.rope as int]
    &&& (r.index as int) < m[r.rope as int].len()
}

/// Overwrite one particle's current position in the model, keeping its
/// previous position.
pub open spec fn model_set_pos(
    m: Seq<Seq<RopeParticle>>,
    r: ParticleRef,
    p: Vec2,
) -> Seq<Seq<RopeParticle>> {
    m.update(
        r.rope as int,
        m[r.rope as int].update(
            r.index as int,
            RopeParticle { position: p, prev_position: m[r.rope as int][r.index as int].prev_position },
        ),
    )
}

/// One Verlet step: the displacement of the last tick is carried over and
/// the gravity displacement of half the acceleration over one squared
/// time step is added; the result is clamped into the world.
pub open spec fn verlet_step(p: RopeParticle, g: Vec2, fps: int) -> RopeParticle {
    RopeParticle {
        position: vec_of(
            p.position.x + (p.position.x - p.prev_position.x) + tdiv(g.x as int, 2 * fps * fps),
            p.position.y + (p.position.y - p.prev_position.y) + tdiv(g.y as int, 2 * fps * fps),
        ),
        prev_position: p.position,
    }
}

impl RopeWorld {
    pub open spec fn wf(self) -> bool {
        forall|i: int| 0 <= i < self.ropes@.len() ==> self.ropes@[i].wf()
    }

    /// The particle model: every rope's particle sequence, by handle.
    pub open spec fn pm(self) -> Seq<Seq<RopeParticle>> {
        self.ropes@.map(|i: int, r: Rope2D| r.rope_particles@)
    }

    /// Which handles name live ropes.
    pub open spec fn alive_map(self) -> Seq<bool> {
        self.ropes@.map(|i: int, r: Rope2D| r.alive)
    }

    /// The ropes agree on everything except particle state.
    pub open spec fn meta_unchanged(self, other: RopeWorld) -> bool {
        &&& self.ropes@.len() == other.ropes@.len()
        &&& forall|i: int| 0 <= i < self.ropes@.len() ==> meta_eq(self.ropes@[i], other.ropes@[i])
    }

    pub fn new() -> (r: RopeWorld)
        ensures
            r.ropes@.len() == 0,
            r.wf(),
    {
        RopeWorld { ropes: Vec::new() }
    }

    /// Register a rope; its handle is its slot index, stable for the
    /// life of the registry.
    pub fn add_rope(&mut self, rope: Rope2D) -> (h: usize)
        requires
            old(self).wf(),
            rope.wf(),
        ensures
            final(self).ropes@ == old(self).ropes@.push(rope),
            h as int == old(self).ropes@.len(),
            final(self).wf(),
    {
        let h = self.ropes.len();
        self.ropes.push(rope);
        h
    }

    /// Destroy a rope: its slot stays, marked dead, and every reference
    /// into it resolves to "absent" from now on.
    pub fn remove_rope(&mut self, h: usize)
        requires
            old(self).wf(),
        ensures
            final(self).wf(),
            final(self).ropes@.len() == old(self).ropes@.len(),
            forall|i: int|
                0 <= i < old(self).ropes@.len() && i != h as int ==> final(self).ropes@[i]
                    == old(self).ropes@[i],
            (h as int) < old(self).ropes@.len() ==> {
                &&& !final(self).ropes@[h as int].alive
                &&& final(self).ropes@[h as int].rope_particles@ == old(
                    self,
                ).ropes@[h as int].rope_particles@
                &&& final(self).ropes@[h as int].constraints@ == old(
                    self,
                ).ropes@[h as int].constraints@
            },
    {
        if h < self.ropes.len() {
            self.ropes[h].alive = false;
        }
    }

    /// Resolve a particle reference: the position, or "absent".
    pub fn get_position(&self, r: ParticleRef) -> (res: Option<Vec2>)
        ensures
            res == if ref_live(self.pm(), self.alive_map(), r) {
                Some(self.pm()[r.rope as int][r.index as int].position)
            } else {
                Option::<Vec2>::None
            },
    {
        if r.rope < self.ropes.len() && self.ropes[r.rope].alive
            && r.index < self.ropes[r.rope].rope_particles.len() {
            Some(self.ropes[r.rope].rope_particles[r.index].position)
        } else {
            None
        }
    }

    /// Overwrite one resolved particle's current position.
    fn set_position(&mut self, r: ParticleRef, p: Vec2)
        requires
            old(self).wf(),
            ref_live(old(self).pm(), old(self).alive_map(), r),
            in_world(p),
        ensures
            final(self).wf(),
            final(self).meta_unchanged(*old(self)),
            final(self).alive_map() == old(self).alive_map(),
            final(self).pm() == model_set_pos(old(self).pm(), r, p),
    {
        let mut part: RopeParticle = self.ropes[r.rope].rope_particles[r.index];
        part.position = p;
        self.ropes[r.rope].rope_particles[r.index] = part;
        proof {
            assert(self.pm() =~~= model_set_pos(old(self).pm(), r, p));
            assert(self.alive_map() =~= old(self).alive_map());
        }
    }

    /// Advance every particle of rope `h` by one Verlet step, with the
    /// rope's gravity and the host's tick rate.
    pub fn update_position(&mut self, h: usize, fps: i64)
        requires
            old(self).wf(),
            (h as int) < old(self).ropes@.len(),
            1 <= fps <= MAX_TICK_RATE,
        ensures
            final(self).wf(),
            final(self).meta_unchanged(*old(self)),
            final(self).alive_map() == old(self).alive_map(),
            final(self).pm() == old(self).pm().update(
                h as int,
                old(self).pm()[h as int].map(
                    |i: int, p: RopeParticle|
                        verlet_step(p, old(self).ropes@[h as int].gravity_accel, fps as int),
                ),
            ),
    {
        let g: Vec2 = self.ropes[h].gravity_accel;
        proof {
            assert(1 <= 2 * (fps as int) * (fps as int) <= 0x200000) by (nonlinear_arith)
                requires
                    1 <= fps <= 0x400,
            ;
        }
        let den: i64 = 2 * fps * fps;
        let gdx: i64 = div_i64(g.x, den);
        let gdy: i64 = div_i64(g.y, den);
        proof {
            lemma_tdiv_magnitude(g.x as int, den as int);
            lemma_tdiv_magnitude(g.y as int, den as int);
        }
        let ghost gm = old(self).pm()[h as int].map(
            |i: int, p: RopeParticle| verlet_step(p, g, fps as int),
        );
        let n: usize = self.ropes[h].rope_particles.len();
        let mut i: usize = 0;
        while i < n
            invariant
                self.wf(),
                self.meta_unchanged(*old(self)),
                self.alive_map() == old(self).alive_map(),
                (h as int) < self.ropes@.len(),
                self.ropes@[h as int].gravity_accel == g,
                n == self.ropes@[h as int].rope_particles@.len(),
                i <= n,
                1 <= fps <= MAX_TICK_RATE,
                den == 2 * fps * fps,
                gdx as int == tdiv(g.x as int, den as int),
                gdy as int == tdiv(g.y as int, den as int),
                -WORLD_BOUND <= gdx <= WORLD_BOUND,
                -WORLD_BOUND <= gdy <= WORLD_BOUND,
                in_world(g),
                gm.len() == n,
                gm == old(self).pm()[h as int].map(
                    |q: int, p: RopeParticle| verlet_step(p, g, fps as int),
                ),
                forall|k: int|
                    0 <= k < self.ropes@.len() && k != h as int ==> self.ropes@[k].rope_particles@
                        == old(self).ropes@[k].rope_particles@,
                forall|j: int|
                    0 <= j < i ==> self.ropes@[h as int].rope_particles@[j] == gm[j],
                forall|j: int|
                    i <= j < n ==> self.ropes@[h as int].rope_particles@[j] == old(
                        self,
                    ).ropes@[h as int].rope_particles@[j],
            decreases n - i,
        {
            let ghost prev_part = self.ropes@[h as int].rope_particles@[i as int];
            let mut part: RopeParticle = self.ropes[h].rope_particles[i];
            proof {
                assert(part.wf());
            }
            let vel: Vec2 = part.get_velocity(fps);
            let sdx: i64 = div_i64(vel.x, fps);
            let sdy: i64 = div_i64(vel.y, fps);
            proof {
                lemma_tdiv_mul_cancel(part.position.x - part.prev_position.x, fps as int);
                lemma_tdiv_mul_cancel(part.position.y - part.prev_position.y, fps as int);
                assert(sdx as int == part.position.x - part.prev_position.x);
                assert(sdy as int == part.position.y - part.prev_position.y);
            }
            let nx: i64 = part.position.x + sdx + gdx;
            let ny: i64 = part.position.y + sdy + gdy;
            part.update_position(Vec2 { x: nx, y: ny });
            proof {
                assert(gm[i as int] == verlet_step(prev_part, g, fps as int));
                assert(part.position == verlet_step(prev_part, g, fps as int).position);
                assert(part == gm[i as int]);
            }
            self.ropes[h].rope_particles[i] = part;
            i = i + 1;
        }
        proof {
            assert(self.pm() =~~= old(self).pm().update(h as int, gm));
            assert(self.alive_map() =~= old(self).alive_map());
        }
    }
}

} // verus!

// --- The relaxation solver and its functional model -------------------

verus! {

/// Resolve an external transform handle in the host-supplied table:
/// the first entry with the handle wins; a missing handle is an
/// expired reference.
pub open spec fn node_lookup(nodes: Seq<(u64, Vec2)>, id: u64) -> Option<Vec2>
    decreases nodes.len(),
{
    if nodes.len() == 0 {
        None
    } else if nodes[0].0 == id {
        Some(nodes[0].1)
    } else {
        node_lookup(nodes.drop_first(), id)
    }
}

/// What one constraint's solve does to the particle model. A reference
/// that does not resolve makes the solve a no-op.
pub open spec fn apply_constraint(
    m: Seq<Seq<RopeParticle>>,
    alive: Seq<bool>,
    nodes: Seq<(u64, Vec2)>,
    c: Constraint,
) -> Seq<Seq<RopeParticle>> {
    match c {
        Constraint::Distance(dc) => if ref_live(m, alive, dc.start) && ref_live(m, alive, dc.end) {
            let a = m[dc.start.rope as int][dc.start.index as int].position;
            let b = m[dc.end.rope as int][dc.end.index as int].position;
            model_set_pos(
                model_set_pos(m, dc.start, solved_start(a, b, dc.distance as int)),
                dc.end,
                solved_end(a, b, dc.distance as int),
            )
        } else {
            m
        },
        Constraint::Pin(pc) => if ref_live(m, alive, pc.rope_point) {
            model_set_pos(m, pc.rope_point, pc.pin_position)
        } else {
            m
        },
        Constraint::Node2DPin(nc) => if ref_live(m, alive, nc.rope_point) {
            match node_lookup(nodes, nc.node) {
                Some(p) => model_set_pos(m, nc.rope_point, clamp_vec(p)),
                None => m,
            }
        } else {
            m
        },
    }
}

/// The first `k` constraints applied in order: one partial pass.
pub open spec fn apply_prefix(
    m: Seq<Seq<RopeParticle>>,
    alive: Seq<bool>,
    nodes: Seq<(u64, Vec2)>,
    cs: Seq<Constraint>,
    k: nat,
) -> Seq<Seq<RopeParticle>>
    decreases k,
{
    if k == 0 {
        m
    } else {
        apply_constraint(apply_prefix(m, alive, nodes, cs, (k - 1) as nat), alive, nodes, cs[k - 1])
    }
}

/// `k` full relaxation passes over the constraint list, in order.
pub open spec fn apply_rounds(
    m: Seq<Seq<RopeParticle>>,
    alive: Seq<bool>,
    nodes: Seq<(u64, Vec2)>,
    cs: Seq<Constraint>,
    k: nat,
) -> Seq<Seq<RopeParticle>>
    decreases k,
{
    if k == 0 {
        m
    } else {
        apply_prefix(apply_rounds(m, alive, nodes, cs, (k - 1) as nat), alive, nodes, cs, cs.len())
    }
}

/// Linear search of the host's transform table.
fn lookup_node(nodes: &Vec<(u64, Vec2)>, id: u64) -> (r: Option<Vec2>)
    ensures
        r == node_lookup(nodes@, id),
{
    let mut i: usize = 0;
    proof {
        assert(nodes@.skip(0) =~= nodes@);
    }
    while i < nodes.len()
        invariant
            i <= nodes@.len(),
            node_lookup(nodes@, id) == node_lookup(nodes@.skip(i as int), id),
        decreases nodes@.len() - i,
    {
        if nodes[i].0 == id {
            proof {
                assert(nodes@.skip(i as int)[0] == nodes@[i as int]);
            }
            return Some(nodes[i].1);
        }
        proof {
            assert(nodes@.skip(i as int).drop_first() =~= nodes@.skip(i as int + 1));
        }
        i = i + 1;
    }
    proof {
        assert(nodes@.skip(i as int).len() == 0);
    }
    None
}

impl RopeWorld {
    /// Solve one constraint: read the referenced particles, correct them,
    /// write them back; an unresolved reference is a benign no-op.
    fn solve_one(&mut self, c: Constraint, nodes: &Vec<(u64, Vec2)>)
        requires
            old(self).wf(),
            constraint_wf(c),
        ensures
            final(self).wf(),
            final(self).meta_unchanged(*old(self)),
            final(self).alive_map() == old(self).alive_map(),
            final(self).pm() == apply_constraint(old(self).pm(), old(self).alive_map(), nodes@, c),
    {
        match c {
            Constraint::Distance(dc) => {
                let pa = self.get_position(dc.start);
                let pb = self.get_position(dc.end);
                match (pa, pb) {
                    (Some(a), Some(b)) => {
                        proof {
                            assert(self.ropes@[dc.start.rope as int].rope_particles@[dc.start.index as int].wf());
                            assert(self.ropes@[dc.end.rope as int].rope_particles@[dc.end.index as int].wf());
                        }
                        let solved = solve_distance_positions(a, b, dc.distance);
                        self.set_position(dc.start, solved.0);
                        proof {
                            assert(ref_live(self.pm(), self.alive_map(), dc.end));
                        }
                        self.set_position(dc.end, solved.1);
                    },
                    _ => {},
                }
            },
            Constraint::Pin(pc) => {
                match self.get_position(pc.rope_point) {
                    Some(_) => {
                        self.set_position(pc.rope_point, pc.pin_position);
                    },
                    None => {},
                }
            },
            Constraint::Node2DPin(nc) => {
                match self.get_position(nc.rope_point) {
                    Some(_) => {
                        match lookup_node(nodes, nc.node) {
                            Some(p) => {
                                self.set_position(nc.rope_point, p.clamped());
                            },
                            None => {},
                        }
                    },
                    None => {},
                }
            },
        }
    }

    /// The relaxation loop: the rope's configured number of full passes,
    /// each applying every constraint in insertion order. No convergence
    /// check is made: the cost per tick is fixed by design.
    pub fn solve_constraints(&mut self, h: usize, nodes: &Vec<(u64, Vec2)>)
        requires
            old(self).wf(),
            (h as int) < old(self).ropes@.len(),
        ensures
            final(self).wf(),
            final(self).meta_unchanged(*old(self)),
            final(self).alive_map() == old(self).alive_map(),
            final(self).pm() == apply_rounds(
                old(self).pm(),
                old(self).alive_map(),
                nodes@,
                old(self).ropes@[h as int].constraints@,
                old(self).ropes@[h as int].iteration_count as nat,
            ),
    {
        let iters: usize = self.ropes[h].iteration_count;
        let ghost cs = self.ropes@[h as int].constraints@;
        let ghost alive0 = self.alive_map();
        let mut it: usize = 0;
        while it < iters
            invariant
                self.wf(),
                self.meta_unchanged(*old(self)),
                self.alive_map() == alive0,
                alive0 == old(self).alive_map(),
                (h as int) < self.ropes@.len(),
                self.ropes@[h as int].constraints@ == cs,
                cs == old(self).ropes@[h as int].constraints@,
                it <= iters,
                self.pm() == apply_rounds(old(self).pm(), alive0, nodes@, cs, it as nat),
            decreases iters - it,
        {
            let n: usize = self.ropes[h].constraints.len();
            let ghost m0 = self.pm();
            let mut j: usize = 0;
            while j < n
                invariant
                    self.wf(),
                    self.meta_unchanged(*old(self)),
                    self.alive_map() == alive0,
                    alive0 == old(self).alive_map(),
                    (h as int) < self.ropes@.len(),
                    self.ropes@[h as int].constraints@ == cs,
                    cs == old(self).ropes@[h as int].constraints@,
                    n == cs.len(),
                    j <= n,
                    self.pm() == apply_prefix(m0, alive0, nodes@, cs, j as nat),
                decreases n - j,
            {
                let c: Constraint = self.ropes[h].constraints[j];
                proof {
                    assert(constraint_wf(cs[j as int]));
                }
                self.solve_one(c, nodes);
                j = j + 1;
            }
            it = it + 1;
        }
    }
}

} // verus!

// --- Chain construction, binding, and the per-tick entry point --------

verus! {

/// The adjacent distance constraints of a chain of `n` particles owned
/// by rope `h`: one per adjacent pair, at the rope's rest length.
pub open spec fn chain_constraints(h: int, n: nat, rest: i64) -> Seq<Constraint> {
    if n == 0 {
        Seq::empty()
    } else {
        Seq::new(
            (n - 1) as nat,
            |i: int|
                Constraint::Distance(
                    DistanceContraint {
                        start: ParticleRef { rope: h as usize, index: i as usize },
                        end: ParticleRef { rope: h as usize, index: (i + 1) as usize },
                        distance: rest,
                    },
                ),
        )
    }
}

/// The pin constraints of a chain: one per configured pin index that
/// names an existing particle, capturing that particle's build-time
/// position as the pin target; an out-of-range index yields none.
pub open spec fn pin_constraints(h: int, parts: Seq<RopeParticle>, pins: Seq<usize>) -> Seq<Constraint>
    decreases pins.len(),
{
    if pins.len() == 0 {
        Seq::empty()
    } else {
        let head: Seq<Constraint> = if (pins[0] as int) < parts.len() {
            seq![
                Constraint::Pin(
                    PinConstraint {
                        pin_position: parts[pins[0] as int].position,
                        rope_point: ParticleRef { rope: h as usize, index: pins[0] },
                    },
                ),
            ]
        } else {
            Seq::empty()
        };
        head + pin_constraints(h, parts, pins.drop_first())
    }
}

/// The cross-rope coupling constraint `bind_to_rope` creates: a distance
/// constraint of unit rest length between the two named particles.
pub open spec fn bind_constraint(
    h: usize,
    other_rope: usize,
    self_index: usize,
    other_index: usize,
) -> Constraint {
    Constraint::Distance(
        DistanceContraint {
            start: ParticleRef { rope: h, index: self_index },
            end: ParticleRef { rope: other_rope, index: other_index },
            distance: 1,
        },
    )
}

/// A body list with every entry equal to `b` removed.
pub open spec fn removed(s: Seq<u64>, b: u64) -> Seq<u64>
    decreases s.len(),
{
    if s.len() == 0 {
        Seq::empty()
    } else {
        (if s[0] == b {
            Seq::<u64>::empty()
        } else {
            seq![s[0]]
        }) + removed(s.drop_first(), b)
    }
}

impl RopeWorld {
    /// Append one constraint to rope `h`'s solve list.
    fn add_constraint(&mut self, h: usize, c: Constraint)
        requires
            old(self).wf(),
            (h as int) < old(self).ropes@.len(),
            constraint_wf(c),
        ensures
            final(self).wf(),
            final(self).ropes@.len() == old(self).ropes@.len(),
            forall|k: int|
                0 <= k < old(self).ropes@.len() && k != h as int ==> final(self).ropes@[k] == old(
                    self,
                ).ropes@[k],
            final(self).ropes@[h as int].constraints@ == old(
                self,
            ).ropes@[h as int].constraints@.push(c),
            final(self).ropes@[h as int].rope_particles@ == old(
                self,
            ).ropes@[h as int].rope_particles@,
            final(self).ropes@[h as int].alive == old(self).ropes@[h as int].alive,
            final(self).ropes@[h as int].pin_indices@ == old(self).ropes@[h as int].pin_indices@,
            final(self).ropes@[h as int].segment_distance == old(
                self,
            ).ropes@[h as int].segment_distance,
            final(self).ropes@[h as int].use_colliders == old(self).ropes@[h as int].use_colliders,
            final(self).ropes@[h as int].colliding_bodies@ == old(
                self,
            ).ropes@[h as int].colliding_bodies@,
            final(self).ropes@[h as int].iteration_count == old(
                self,
            ).ropes@[h as int].iteration_count,
            final(self).ropes@[h as int].gravity_accel == old(self).ropes@[h as int].gravity_accel,
            final(self).pm() == old(self).pm(),
            final(self).alive_map() == old(self).alive_map(),
    {
        self.ropes[h].constraints.push(c);
        proof {
            assert(self.pm() =~~= old(self).pm());
            assert(self.alive_map() =~= old(self).alive_map());
        }
    }

    /// Couple a particle of this rope to a particle of another rope with
    /// a unit-length distance constraint. If either named particle does
    /// not resolve, no constraint is created.
    pub fn bind_to_rope(&mut self, h: usize, other_rope: usize, self_index: usize, other_index: usize)
        requires
            old(self).wf(),
        ensures
            final(self).wf(),
            final(self).pm() == old(self).pm(),
            final(self).alive_map() == old(self).alive_map(),
            final(self).ropes@.len() == old(self).ropes@.len(),
            ({
                let ok = ref_live(
                    old(self).pm(),
                    old(self).alive_map(),
                    ParticleRef { rope: h, index: self_index },
                ) && ref_live(
                    old(self).pm(),
                    old(self).alive_map(),
                    ParticleRef { rope: other_rope, index: other_index },
                );
                if ok {
                    final(self).ropes@[h as int].constraints@ == old(
                        self,
                    ).ropes@[h as int].constraints@.push(
                        bind_constraint(h, other_rope, self_index, other_index),
                    ) && (forall|k: int|
                        0 <= k < old(self).ropes@.len() && k != h as int ==> final(self).ropes@[k]
                            == old(self).ropes@[k])
                } else {
                    final(self).ropes@ == old(self).ropes@
                }
            }),
    {
        let a = self.get_position(ParticleRef { rope: h, index: self_index });
        let b = self.get_position(ParticleRef { rope: other_rope, index: other_index });
        match (a, b) {
            (Some(_), Some(_)) => {
                let dc = DistanceContraint::new(
                    ParticleRef { rope: h, index: self_index },
                    ParticleRef { rope: other_rope, index: other_index },
                    1,
                );
                self.add_constraint(h, Constraint::Distance(dc));
            },
            _ => {},
        }
    }

    /// Pin a particle of rope `h` to the live position of an external
    /// transform owner. If the named particle does not resolve, no
    /// constraint is created.
    pub fn bind_to_node(&mut self, h: usize, node: u64, at_index: usize)
        requires
            old(self).wf(),
        ensures
            final(self).wf(),
            final(self).pm() == old(self).pm(),
            final(self).alive_map() == old(self).alive_map(),
            final(self).ropes@.len() == old(self).ropes@.len(),
            ({
                let ok = ref_live(
                    old(self).pm(),
                    old(self).alive_map(),
                    ParticleRef { rope: h, index: at_index },
                );
                if ok {
                    final(self).ropes@[h as int].constraints@ == old(
                        self,
                    ).ropes@[h as int].constraints@.push(
                        Constraint::Node2DPin(
                            Node2DPinContraint {
                                rope_point: ParticleRef { rope: h, index: at_index },
                                node,
                            },
                        ),
                    ) && (forall|k: int|
                        0 <= k < old(self).ropes@.len() && k != h as int ==> final(self).ropes@[k]
                            == old(self).ropes@[k])
                } else {
                    final(self).ropes@ == old(self).ropes@
                }
            }),
    {
        match self.get_position(ParticleRef { rope: h, index: at_index }) {
            Some(_) => {
                let nc = Node2DPinContraint::new(ParticleRef { rope: h, index: at_index }, node);
                self.add_constraint(h, Constraint::Node2DPin(nc));
            },
            None => {},
        }
    }

    /// A body began touching rope `h`: remember it.
    pub fn body_entered(&mut self, h: usize, body: u64)
        requires
            old(self).wf(),
        ensures
            final(self).wf(),
            final(self).ropes@.len() == old(self).ropes@.len(),
            forall|k: int|
                0 <= k < old(self).ropes@.len() && k != h as int ==> final(self).ropes@[k] == old(
                    self,
                ).ropes@[k],
            (h as int) < old(self).ropes@.len() ==> {
                &&& final(self).ropes@[h as int].colliding_bodies@ == old(
                    self,
                ).ropes@[h as int].colliding_bodies@.push(body)
                &&& final(self).ropes@[h as int].rope_particles@ == old(
                    self,
                ).ropes@[h as int].rope_particles@
                &&& final(self).ropes@[h as int].constraints@ == old(
                    self,
                ).ropes@[h as int].constraints@
            },
            (h as int) >= old(self).ropes@.len() ==> final(self).ropes@ == old(self).ropes@,
    {
        if h < self.ropes.len() {
            self.ropes[h].colliding_bodies.push(body);
        }
    }

    /// A body stopped touching rope `h`: forget every entry of it.
    pub fn body_exited(&mut self, h: usize, body: u64)
        requires
            old(self).wf(),
        ensures
            final(self).wf(),
            final(self).ropes@.len() == old(self).ropes@.len(),
            forall|k: int|
                0 <= k < old(self).ropes@.len() && k != h as int ==> final(self).ropes@[k] == old(
                    self,
                ).ropes@[k],
            (h as int) < old(self).ropes@.len() ==> {
                &&& final(self).ropes@[h as int].colliding_bodies@ == removed(
                    old(self).ropes@[h as int].colliding_bodies@,
                    body,
                )
                &&& final(self).ropes@[h as int].rope_particles@ == old(
                    self,
                ).ropes@[h as int].rope_particles@
                &&& final(self).ropes@[h as int].constraints@ == old(
                    self,
                ).ropes@[h as int].constraints@
            },
            (h as int) >= old(self).ropes@.len() ==> final(self).ropes@ == old(self).ropes@,
    {
        if h < self.ropes.len() {
            let ghost full = self.ropes@[h as int].colliding_bodies@;
            let n: usize = self.ropes[h].colliding_bodies.len();
            let mut kept: Vec<u64> = Vec::new();
            let mut i: usize = 0;
            proof {
                assert(full.skip(0) =~= full);
            }
            while i < n
                invariant
                    i <= n,
                    n == full.len(),
                    (h as int) < self.ropes@.len(),
                    self.ropes@[h as int].colliding_bodies@ == full,
                    removed(full, body) == kept@ + removed(full.skip(i as int), body),
                decreases n - i,
            {
                let e: u64 = self.ropes[h].colliding_bodies[i];
                proof {
                    assert(full.skip(i as int)[0] == full[i as int]);
                    assert(full.skip(i as int).drop_first() =~= full.skip(i as int + 1));
                }
                if e != body {
                    kept.push(e);
                }
                proof {
                    assert(removed(full, body) == kept@ + removed(full.skip(i as int + 1), body));
                }
                i = i + 1;
            }
            proof {
                assert(full.skip(n as int).len() == 0);
                assert(kept@ + removed(full.skip(n as int), body) =~= kept@);
            }
            self.ropes[h].colliding_bodies = kept;
        }
    }

    /// The positions of rope `h`'s particles in chain order, for the host
    /// to hand to its line renderer and proxy shapes.
    pub fn render_points(&self, h: usize) -> (r: Vec<Vec2>)
        ensures
            r@ == if (h as int) < self.ropes@.len() {
                self.ropes@[h as int].rope_particles@.map(|i: int, p: RopeParticle| p.position)
            } else {
                Seq::<Vec2>::empty()
            },
    {
        let mut r: Vec<Vec2> = Vec::new();
        if h < self.ropes.len() {
            let ghost target = self.ropes@[h as int].rope_particles@.map(
                |i: int, p: RopeParticle| p.position,
            );
            let n: usize = self.ropes[h].rope_particles.len();
            let mut i: usize = 0;
            while i < n
                invariant
                    i <= n,
                    (h as int) < self.ropes@.len(),
                    n == self.ropes@[h as int].rope_particles@.len(),
                    target == self.ropes@[h as int].rope_particles@.map(
                        |q: int, p: RopeParticle| p.position,
                    ),
                    r@.len() == i,
                    forall|j: int| 0 <= j < i ==> r@[j] == target[j],
                decreases n - i,
            {
                r.push(self.ropes[h].rope_particles[i].position);
                i = i + 1;
            }
            proof {
                assert(r@ =~= target);
            }
        }
        r
    }

    /// One full simulation step for rope `h` without collision response:
    /// the Verlet integrator over every particle, then the fixed-count
    /// relaxation over every constraint. Collision response follows
    /// separately, from the host's narrow-phase results.
    pub fn physics_process(&mut self, h: usize, fps: i64, nodes: &Vec<(u64, Vec2)>)
        requires
            old(self).wf(),
            (h as int) < old(self).ropes@.len(),
            1 <= fps <= MAX_TICK_RATE,
        ensures
            final(self).wf(),
            final(self).meta_unchanged(*old(self)),
            final(self).alive_map() == old(self).alive_map(),
            final(self).pm() == apply_rounds(
                old(self).pm().update(
                    h as int,
                    old(self).pm()[h as int].map(
                        |i: int, p: RopeParticle|
                            verlet_step(p, old(self).ropes@[h as int].gravity_accel, fps as int),
                    ),
                ),
                old(self).alive_map(),
                nodes@,
                old(self).ropes@[h as int].constraints@,
                old(self).ropes@[h as int].iteration_count as nat,
            ),
    {
        self.update_position(h, fps);
        self.solve_constraints(h, nodes);
    }
}

} // verus!

// --- Building the chain from a source polyline ------------------------

verus! {

impl RopeWorld {
    /// (Re)build rope `h` from a source polyline: one particle per point,
    /// at rest at that point; a distance constraint at the rope's rest
    /// length for every adjacent pair; and a pin constraint for every
    /// configured pin index that names a particle, capturing that
    /// particle's build-time position. The relaxation pass count is read
    /// once from the shared engine configuration.
    pub fn initialize(&mut self, h: usize, points: &Vec<Vec2>, engine: &RopeEngine)
        requires
            old(self).wf(),
            (h as int) < old(self).ropes@.len(),
        ensures
            final(self).wf(),
            final(self).ropes@.len() == old(self).ropes@.len(),
            final(self).alive_map() == old(self).alive_map(),
            forall|k: int|
                0 <= k < old(self).ropes@.len() && k != h as int ==> final(self).ropes@[k] == old(
                    self,
                ).ropes@[k],
            final(self).ropes@[h as int].rope_particles@ == points@.map(
                |i: int, p: Vec2| RopeParticle { position: clamp_vec(p), prev_position: clamp_vec(p) },
            ),
            final(self).ropes@[h as int].constraints@ == chain_constraints(
                h as int,
                points@.len(),
                old(self).ropes@[h as int].segment_distance,
            ) + pin_constraints(
                h as int,
                points@.map(
                    |i: int, p: Vec2| RopeParticle {
                        position: clamp_vec(p),
                        prev_position: clamp_vec(p),
                    },
                ),
                old(self).ropes@[h as int].pin_indices@,
            ),
            final(self).ropes@[h as int].iteration_count as int == if engine.iteration_count >= 0 {
                engine.iteration_count as int
            } else {
                0int
            },
            final(self).ropes@[h as int].alive == old(self).ropes@[h as int].alive,
            final(self).ropes@[h as int].pin_indices@ == old(self).ropes@[h as int].pin_indices@,
            final(self).ropes@[h as int].segment_distance == old(
                self,
            ).ropes@[h as int].segment_distance,
            final(self).ropes@[h as int].use_colliders == old(self).ropes@[h as int].use_colliders,
            final(self).ropes@[h as int].colliding_bodies@ == old(
                self,
            ).ropes@[h as int].colliding_bodies@,
            final(self).ropes@[h as int].gravity_accel == old(self).ropes@[h as int].gravity_accel,
    {
        let iters: usize = engine.passes();
        let n: usize = points.len();
        let ghost target_parts = points@.map(
            |i: int, p: Vec2| RopeParticle { position: clamp_vec(p), prev_position: clamp_vec(p) },
        );

        let mut parts: Vec<RopeParticle> = Vec::new();
        let mut i: usize = 0;
        while i < n
            invariant
                i <= n,
                n == points@.len(),
                target_parts == points@.map(
                    |q: int, p: Vec2| RopeParticle {
                        position: clamp_vec(p),
                        prev_position: clamp_vec(p),
                    },
                ),
                parts@.len() == i,
                forall|j: int| 0 <= j < i ==> parts@[j] == target_parts[j],
                forall|j: int| 0 <= j < i ==> parts@[j].wf(),
            decreases n - i,
        {
            parts.push(RopeParticle::new(points[i]));
            i = i + 1;
        }
        proof {
            assert(parts@ =~= target_parts);
        }

        let sd: i64 = self.ropes[h].segment_distance;
        let ghost chain = chain_constraints(h as int, n as nat, sd);
        let mut cons: Vec<Constraint> = Vec::new();
        if n > 0 {
            let mut i: usize = 0;
            while i < n - 1
                invariant
                    n >= 1,
                    i <= n - 1,
                    n == points@.len(),
                    (h as int) < self.ropes@.len(),
                    0 <= sd <= WORLD_BOUND,
                    chain == chain_constraints(h as int, n as nat, sd),
                    cons@.len() == i,
                    forall|j: int| 0 <= j < i ==> cons@[j] == chain[j],
                    forall|j: int| 0 <= j < i ==> constraint_wf(cons@[j]),
                decreases n - i,
            {
                let dc = DistanceContraint::new(
                    ParticleRef { rope: h, index: i },
                    ParticleRef { rope: h, index: i + 1 },
                    sd,
                );
                cons.push(Constraint::Distance(dc));
                i = i + 1;
            }
        }
        proof {
            assert(cons@ =~= chain);
        }

        let ghost pins = self.ropes@[h as int].pin_indices@;
        let ghost pin_target = pin_constraints(h as int, parts@, pins);
        let pcount: usize = self.ropes[h].pin_indices.len();
        let mut k: usize = 0;
        proof {
            assert(pins.skip(0) =~= pins);
            assert(cons@ + pin_constraints(h as int, parts@, pins.skip(0)) =~= chain
                + pin_constraints(h as int, parts@, pins));
        }
        while k < pcount
            invariant
                k <= pcount,
                (h as int) < self.ropes@.len(),
                self.ropes@[h as int].pin_indices@ == pins,
                pcount == pins.len(),
                parts@ == target_parts,
                forall|j: int| 0 <= j < parts@.len() ==> parts@[j].wf(),
                forall|j: int| 0 <= j < cons@.len() ==> constraint_wf(cons@[j]),
                cons@ + pin_constraints(h as int, parts@, pins.skip(k as int)) == chain
                    + pin_constraints(h as int, parts@, pins),
            decreases pcount - k,
        {
            let idx: usize = self.ropes[h].pin_indices[k];
            proof {
                assert(pins.skip(k as int)[0] == pins[k as int]);
                assert(pins.skip(k as int).drop_first() =~= pins.skip(k as int + 1));
            }
            if idx < parts.len() {
                let pc = PinConstraint::new(parts[idx].position, ParticleRef { rope: h, index: idx });
                proof {
                    assert(parts@[idx as int].wf());
                    assert(clamp_vec(parts@[idx as int].position) == parts@[idx as int].position);
                }
                cons.push(Constraint::Pin(pc));
            }
            proof {
                assert(cons@ + pin_constraints(h as int, parts@, pins.skip(k as int + 1)) =~= chain
                    + pin_constraints(h as int, parts@, pins));
            }
            k = k + 1;
        }
        proof {
            assert(pins.skip(pcount as int).len() == 0);
            assert(cons@ =~= chain + pin_target);
        }

        self.ropes[h].rope_particles = parts;
        self.ropes[h].constraints = cons;
        self.ropes[h].iteration_count = iters;
        proof {
            assert(self.alive_map() =~= old(self).alive_map());
        }
    }
}

} // verus!

// --- Collision response on the registry -------------------------------

verus! {

impl RopeWorld {
    /// Resolve one particle of rope `h` against one touching shape,
    /// using the contact pairs the host's narrow-phase query returned
    /// for exactly this (particle proxy, shape) pairing. The particle is
    /// displaced in place; the returned impulses are owed to the body,
    /// in contact order, for the host to apply. A rope without its
    /// collision flag, or an unresolved particle reference, does
    /// nothing.
    pub fn apply_collisions_with_shape(
        &mut self,
        h: usize,
        particle_index: usize,
        kind: BodyKind,
        contacts: &Vec<Vec2>,
        fps: i64,
    ) -> (imps: Vec<Vec2>)
        requires
            old(self).wf(),
            1 <= fps <= MAX_TICK_RATE,
            kind matches BodyKind::Rigid { mass } ==> 0 <= mass <= MAX_BODY_MASS,
        ensures
            final(self).wf(),
            final(self).meta_unchanged(*old(self)),
            final(self).alive_map() == old(self).alive_map(),
            ({
                let pr = ParticleRef { rope: h, index: particle_index };
                let active = ref_live(old(self).pm(), old(self).alive_map(), pr) && old(
                    self,
                ).ropes@[h as int].use_colliders;
                if active {
                    final(self).pm() == model_set_pos(
                        old(self).pm(),
                        pr,
                        contacts_displaced(
                            old(self).pm()[h as int][particle_index as int].position,
                            contacts@,
                            kind,
                        ),
                    ) && imps@ == contacts_impulses(contacts@, kind, fps as int)
                } else {
                    final(self).ropes@ == old(self).ropes@ && imps@ == Seq::<Vec2>::empty()
                }
            }),
    {
        let pr = ParticleRef { rope: h, index: particle_index };
        if h < self.ropes.len() && self.ropes[h].use_colliders {
            match self.get_position(pr) {
                Some(p) => {
                    proof {
                        assert(self.ropes@[h as int].rope_particles@[particle_index as int].wf());
                    }
                    let resolved = resolve_particle_contacts(p, contacts, kind, fps);
                    self.set_position(pr, resolved.0);
                    resolved.1
                },
                None => Vec::new(),
            }
        } else {
            Vec::new()
        }
    }
}

} // verus!
