//! Tests of the pure simulation mathematics: particles, the distance
//! solve, and collision response on contact pairs.

use verlet_rope::vec2::Vec2;
use verlet_rope::rope_point::RopeParticle;
use verlet_rope::constraints::{DistanceContraint, ParticleRef, solve_distance_positions};
use verlet_rope::collision::{BodyKind, resolve_particle_contacts};
use verlet_rope::vec2::WORLD_BOUND;

fn v(x: i64, y: i64) -> Vec2 {
    Vec2 { x, y }
}

fn dist_f64(a: Vec2, b: Vec2) -> f64 {
    let dx = (b.x - a.x) as f64;
    let dy = (b.y - a.y) as f64;
    (dx * dx + dy * dy).sqrt()
}

#[test]
fn particle_update_position_shifts_history() {
    let mut p = RopeParticle::new(v(10, 20));
    assert_eq!(p.position, v(10, 20));
    assert_eq!(p.prev_position, v(10, 20));
    p.update_position(v(13, 24));
    assert_eq!(p.position, v(13, 24));
    assert_eq!(p.prev_position, v(10, 20));
}

#[test]
fn particle_velocity_roundtrip() {
    let mut p = RopeParticle::new(v(100, 200));
    p.update_position(v(110, 205));
    // Displacement (10, 5) over one tick at 60 ticks per second.
    let vel = p.get_velocity(60);
    assert_eq!(vel, v(600, 300));
    // Imposing the same velocity reconstructs the same previous position.
    p.set_velocity(v(600, 300), 60);
    assert_eq!(p.prev_position, v(100, 200));
    assert_eq!(p.position, v(110, 205));
}

#[test]
fn distance_solve_exact_on_pythagorean_pair() {
    // Distance 50, rest 10: both ends move 20 units along the separation.
    let (a, b) = {
        let r = solve_distance_positions(v(0, 0), v(30, 40), 10);
        (r.0, r.1)
    };
    assert_eq!(a, v(12, 16));
    assert_eq!(b, v(18, 24));
    let d = dist_f64(a, b);
    assert!((d - 10.0).abs() < 1e-9);
}

#[test]
fn distance_solve_symmetric_displacements() {
    let a0 = v(0, 0);
    let b0 = v(30, 40);
    let r = solve_distance_positions(a0, b0, 10);
    assert_eq!((r.0.x - a0.x) + (r.1.x - b0.x), 0);
    assert_eq!((r.0.y - a0.y) + (r.1.y - b0.y), 0);
}

#[test]
fn distance_solve_converges_monotonically() {
    // Start at separation 50, rest length 30: the error must shrink on
    // every solve and reach (at most) one subunit.
    let mut a = v(0, 0);
    let mut b = v(30, 40);
    let rest: i64 = 30;
    let mut err = (dist_f64(a, b) - rest as f64).abs();
    for _ in 0..6 {
        let r = solve_distance_positions(a, b, rest);
        a = r.0;
        b = r.1;
        let e = (dist_f64(a, b) - rest as f64).abs();
        assert!(e <= err + 1e-9);
        err = e;
    }
    assert!(err <= 1.5);
}

#[test]
fn distance_solve_stretches_apart_when_too_close() {
    let r = solve_distance_positions(v(0, 0), v(10, 0), 60);
    assert_eq!(r.0, v(-25, 0));
    assert_eq!(r.1, v(35, 0));
}

#[test]
fn distance_solve_coincident_pair_unchanged() {
    let r = solve_distance_positions(v(7, 9), v(7, 9), 25);
    assert_eq!(r.0, v(7, 9));
    assert_eq!(r.1, v(7, 9));
}

#[test]
fn distance_constraint_new_clamps_negative_rest() {
    let pr = ParticleRef { rope: 0, index: 0 };
    let qr = ParticleRef { rope: 0, index: 1 };
    let c = DistanceContraint::new(pr, qr, -5);
    assert_eq!(c.distance, 0);
    let c2 = DistanceContraint::new(pr, qr, 123);
    assert_eq!(c2.distance, 123);
}

#[test]
fn collision_static_full_displacement() {
    // One contact pair with contact vector (0, -6): the particle takes
    // the whole correction, and a static body gets no impulse.
    let contacts = vec![v(0, 10), v(0, 4)];
    let r = resolve_particle_contacts(v(0, 0), &contacts, BodyKind::Static, 60);
    assert_eq!(r.0, v(0, 6));
    assert_eq!(r.1.len(), 0);
}

#[test]
fn collision_rigid_split_and_impulse() {
    // Contact vector (3, 4), mass 5, 60 ticks per second: the particle
    // moves by half the vector, the body is owed (3, 4) * 60 * 5 / 10.
    let contacts = vec![v(0, 0), v(3, 4)];
    let r = resolve_particle_contacts(v(100, 100), &contacts, BodyKind::Rigid { mass: 5 }, 60);
    assert_eq!(r.0, v(99, 98));
    assert_eq!(r.1.len(), 1);
    assert_eq!(r.1[0], v(90, 120));
}

#[test]
fn collision_unrecognized_body_ignored() {
    let contacts = vec![v(0, 0), v(3, 4)];
    let r = resolve_particle_contacts(v(100, 100), &contacts, BodyKind::Other, 60);
    assert_eq!(r.0, v(100, 100));
    assert_eq!(r.1.len(), 0);
}

#[test]
fn collision_odd_length_contacts_are_zero_contacts() {
    let contacts = vec![v(0, 0), v(3, 4), v(9, 9)];
    let r = resolve_particle_contacts(v(100, 100), &contacts, BodyKind::Static, 60);
    assert_eq!(r.0, v(100, 100));
    assert_eq!(r.1.len(), 0);
}

#[test]
fn collision_out_of_world_pair_skipped() {
    let far = v(i64::MAX / 2, 0);
    let contacts = vec![far, v(3, 4), v(0, 0), v(2, 2)];
    let r = resolve_particle_contacts(v(100, 100), &contacts, BodyKind::Static, 60);
    // The malformed first pair moves nothing; the second pair applies.
    assert_eq!(r.0, v(98, 98));
}

#[test]
fn collision_multiple_pairs_accumulate() {
    let contacts = vec![v(0, 0), v(2, 0), v(0, 0), v(0, 4)];
    let r = resolve_particle_contacts(v(10, 10), &contacts, BodyKind::Static, 60);
    assert_eq!(r.0, v(8, 6));
}

#[test]
fn positions_clamp_at_world_edge() {
    let mut p = RopeParticle::new(v(WORLD_BOUND - 1, 0));
    p.update_position(v(WORLD_BOUND + 5000, -(WORLD_BOUND + 1)));
    assert_eq!(p.position, v(WORLD_BOUND, -WORLD_BOUND));
    assert_eq!(p.prev_position, v(WORLD_BOUND - 1, 0));
}

#[test]
fn set_velocity_extreme_value_saturates() {
    let mut p = RopeParticle::new(v(0, 0));
    p.set_velocity(v(i64::MIN, i64::MAX), 1);
    // The reconstructed previous position saturates at the world edge
    // instead of overflowing.
    assert_eq!(p.prev_position, v(WORLD_BOUND, -WORLD_BOUND));
    assert_eq!(p.position, v(0, 0));
}
