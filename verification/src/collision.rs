//! Collision response: contact pairs from the host's narrow-phase query
//! are turned into particle displacements and, for rigid bodies, into
//! corrective impulses handed back for the host to apply.
//!
//! Contacts arrive as a flat sequence of point pairs `[a0, b0, a1, b1,
//! ...]`; each pair's contact vector is `b - a`. An odd-length sequence
//! is malformed and treated as zero contacts; a pair with a point
//! outside the world likewise resolves to no contact.

use vstd::prelude::*;
use crate::vec2::{Vec2, in_world, tdiv, div_i64, lemma_tdiv_magnitude, MAX_TICK_RATE};
use crate::constraints::vec_of;

verus! {

/// Largest body mass, in host mass units, the impulse computation
/// accepts; it keeps the impulse product inside machine integers.
pub const MAX_BODY_MASS: i64 = 1048576;

/// What kind of body a contact came from, with the data the response
/// needs: a rigid body's mass for the forwarded impulse.
#[derive(Clone, Copy, PartialEq, Eq, Structural, Debug)]
pub enum BodyKind {
    Rigid { mass: i64 },
    Static,
    Other,
}

/// A contact pair is usable when both points lie inside the world.
pub open spec fn pair_valid(a: Vec2, b: Vec2) -> bool {
    in_world(a) && in_world(b)
}

/// Where one contact pair pushes a particle. A rigid body takes an
/// equal-mass split: the particle moves by half the contact vector. A
/// static body is immovable: the particle moves by the whole vector.
/// An unrecognized body moves nothing.
pub open spec fn pair_displaced(p: Vec2, a: Vec2, b: Vec2, kind: BodyKind) -> Vec2 {
    if !pair_valid(a, b) {
        p
    } else {
        match kind {
            BodyKind::Rigid { mass } => vec_of(
                p.x - tdiv(b.x - a.x, 2),
                p.y - tdiv(b.y - a.y, 2),
            ),
            BodyKind::Static => vec_of(p.x - (b.x - a.x), p.y - (b.y - a.y)),
            BodyKind::Other => p,
        }
    }
}

/// The impulse one contact pair forwards to a rigid body: the contact
/// vector scaled by one tenth per time step, times the body's mass.
pub open spec fn pair_impulses(a: Vec2, b: Vec2, kind: BodyKind, fps: int) -> Seq<Vec2> {
    if !pair_valid(a, b) {
        Seq::empty()
    } else {
        match kind {
            BodyKind::Rigid { mass } => seq![
                Vec2 {
                    x: tdiv((b.x - a.x) * fps * mass, 10) as i64,
                    y: tdiv((b.y - a.y) * fps * mass, 10) as i64,
                },
            ],
            BodyKind::Static => Seq::empty(),
            BodyKind::Other => Seq::empty(),
        }
    }
}

/// The position after every pair of an even-length contact run, front to
/// back.
pub open spec fn fold_displaced(p: Vec2, contacts: Seq<Vec2>, kind: BodyKind) -> Vec2
    decreases contacts.len(),
{
    if contacts.len() < 2 {
        p
    } else {
        fold_displaced(pair_displaced(p, contacts[0], contacts[1], kind), contacts.skip(2), kind)
    }
}

/// Every impulse of an even-length contact run, in contact order.
pub open spec fn fold_impulses(contacts: Seq<Vec2>, kind: BodyKind, fps: int) -> Seq<Vec2>
    decreases contacts.len(),
{
    if contacts.len() < 2 {
        Seq::empty()
    } else {
        pair_impulses(contacts[0], contacts[1], kind, fps) + fold_impulses(
            contacts.skip(2),
            kind,
            fps,
        )
    }
}

/// The position after a whole contact run; a malformed (odd-length) run
/// counts as zero contacts.
pub open spec fn contacts_displaced(p: Vec2, contacts: Seq<Vec2>, kind: BodyKind) -> Vec2 {
    if contacts.len() % 2 != 0 {
        p
    } else {
        fold_displaced(p, contacts, kind)
    }
}

/// The impulses of a whole contact run; a malformed run forwards none.
pub open spec fn contacts_impulses(contacts: Seq<Vec2>, kind: BodyKind, fps: int) -> Seq<Vec2> {
    if contacts.len() % 2 != 0 {
        Seq::empty()
    } else {
        fold_impulses(contacts, kind, fps)
    }
}

/// Resolve one particle's contacts against one body: the corrected
/// position and the impulses owed to the body, in contact order.
pub fn resolve_particle_contacts(
    position: Vec2,
    contacts: &Vec<Vec2>,
    kind: BodyKind,
    fps: i64,
) -> (r: (Vec2, Vec<Vec2>))
    requires
        in_world(position),
        1 <= fps <= MAX_TICK_RATE,
        kind matches BodyKind::Rigid { mass } ==> 0 <= mass <= MAX_BODY_MASS,
    ensures
        r.0 == contacts_displaced(position, contacts@, kind),
        r.1@ == contacts_impulses(contacts@, kind, fps as int),
        in_world(r.0),
{
    let n: usize = contacts.len();
    let mut imps: Vec<Vec2> = Vec::new();
    if n % 2 != 0 {
        return (position, imps);
    }
    let mut pos: Vec2 = position;
    let mut i: usize = 0;
    proof {
        assert(contacts@.skip(0) =~= contacts@);
    }
    while i + 1 < n
        invariant
            n == contacts@.len(),
            n % 2 == 0,
            i % 2 == 0,
            i <= n,
            1 <= fps <= MAX_TICK_RATE,
            kind matches BodyKind::Rigid { mass } ==> 0 <= mass <= MAX_BODY_MASS,
            in_world(pos),
            fold_displaced(position, contacts@, kind) == fold_displaced(
                pos,
                contacts@.skip(i as int),
                kind,
            ),
            fold_impulses(contacts@, kind, fps as int) == imps@ + fold_impulses(
                contacts@.skip(i as int),
                kind,
                fps as int,
            ),
        decreases n - i,
    {
        let a: Vec2 = contacts[i];
        let b: Vec2 = contacts[i + 1];
        proof {
            assert(contacts@.skip(i as int)[0] == contacts@[i as int]);
            assert(contacts@.skip(i as int)[1] == contacts@[i as int + 1]);
            assert(contacts@.skip(i as int).skip(2) =~= contacts@.skip(i as int + 2));
        }
        let a_ok: bool = -crate::vec2::WORLD_BOUND <= a.x && a.x <= crate::vec2::WORLD_BOUND
            && -crate::vec2::WORLD_BOUND <= a.y && a.y <= crate::vec2::WORLD_BOUND;
        let b_ok: bool = -crate::vec2::WORLD_BOUND <= b.x && b.x <= crate::vec2::WORLD_BOUND
            && -crate::vec2::WORLD_BOUND <= b.y && b.y <= crate::vec2::WORLD_BOUND;
        if a_ok && b_ok {
            let vx: i64 = b.x - a.x;
            let vy: i64 = b.y - a.y;
            match kind {
                BodyKind::Rigid { mass } => {
                    let hx: i64 = div_i64(vx, 2);
                    let hy: i64 = div_i64(vy, 2);
                    proof {
                        lemma_tdiv_magnitude(vx as int, 2);
                        lemma_tdiv_magnitude(vy as int, 2);
                    }
                    pos = Vec2 { x: pos.x - hx, y: pos.y - hy }.clamped();
                    proof {
                        assert(-0x8000000000 <= (vx as int) * (fps as int) <= 0x8000000000
                            && -0x8000000000 <= (vy as int) * (fps as int) <= 0x8000000000)
                            by (nonlinear_arith)
                            requires
                                -0x20000000 <= vx <= 0x20000000,
                                -0x20000000 <= vy <= 0x20000000,
                                1 <= fps <= 0x400,
                        ;
                        assert(-0x800000000000000 <= (vx as int) * (fps as int) * (mass as int)
                            <= 0x800000000000000 && -0x800000000000000 <= (vy as int) * (fps as int)
                            * (mass as int) <= 0x800000000000000) by (nonlinear_arith)
                            requires
                                -0x8000000000 <= (vx as int) * (fps as int) <= 0x8000000000,
                                -0x8000000000 <= (vy as int) * (fps as int) <= 0x8000000000,
                                0 <= mass <= 0x100000,
                        ;
                    }
                    let ix: i64 = div_i64(vx * fps * mass, 10);
                    let iy: i64 = div_i64(vy * fps * mass, 10);
                    imps.push(Vec2 { x: ix, y: iy });
                },
                BodyKind::Static => {
                    pos = Vec2 { x: pos.x - vx, y: pos.y - vy }.clamped();
                },
                BodyKind::Other => {},
            }
        }
        i = i + 2;
    }
    proof {
        assert(contacts@.skip(i as int).len() < 2);
        assert(imps@ + fold_impulses(contacts@.skip(i as int), kind, fps as int) =~= imps@);
    }
    (pos, imps)
}

} // verus!
