//! Tests of the rope registry: chain construction, the integrator and
//! relaxation over whole ropes, binding, body tracking, and collision
//! response through the registry.

use verlet_rope::vec2::Vec2;
use verlet_rope::rope_2d::{Rope2D, RopeWorld};
use verlet_rope::rope_engine::RopeEngine;
use verlet_rope::constraints::{Constraint, ParticleRef};
use verlet_rope::collision::BodyKind;

fn v(x: i64, y: i64) -> Vec2 {
    Vec2 { x, y }
}

fn no_nodes() -> Vec<(u64, Vec2)> {
    Vec::new()
}

fn make_world(
    points: &[Vec2],
    segment: i64,
    pins: Vec<usize>,
    gravity: Vec2,
) -> (RopeWorld, usize) {
    let mut w = RopeWorld::new();
    let rope = Rope2D::init(segment, pins, false, gravity);
    let h = w.add_rope(rope);
    let engine = RopeEngine::init();
    let pts: Vec<Vec2> = points.to_vec();
    w.initialize(h, &pts, &engine);
    (w, h)
}

fn positions(w: &RopeWorld, h: usize) -> Vec<Vec2> {
    w.render_points(h)
}

fn dist_f64(a: Vec2, b: Vec2) -> f64 {
    let dx = (b.x - a.x) as f64;
    let dy = (b.y - a.y) as f64;
    (dx * dx + dy * dy).sqrt()
}

#[test]
fn chain_construction_counts() {
    // Five points, pins at 0 and 2 plus one out-of-range index: exactly
    // four distance constraints and two pin constraints.
    let pts = [v(0, 0), v(10, 0), v(20, 0), v(30, 0), v(40, 0)];
    let (w, h) = make_world(&pts, 10, vec![0, 17, 2], v(0, 0));
    let cons = &w.ropes[h].constraints;
    assert_eq!(cons.len(), 6);
    let mut dist_count: usize = 0;
    let mut pin_count: usize = 0;
    for c in cons.iter() {
        match c {
            Constraint::Distance(_) => dist_count += 1,
            Constraint::Pin(_) => pin_count += 1,
            Constraint::Node2DPin(_) => panic!("no node pins were configured"),
        }
    }
    assert_eq!(dist_count, 4);
    assert_eq!(pin_count, 2);
    assert_eq!(w.ropes[h].rope_particles.len(), 5);
}

#[test]
fn chain_construction_empty_polyline() {
    let (w, h) = make_world(&[], 10, vec![0], v(0, 0));
    assert_eq!(w.ropes[h].rope_particles.len(), 0);
    assert_eq!(w.ropes[h].constraints.len(), 0);
}

#[test]
fn integrator_at_rest_zero_gravity_is_still() {
    let pts = [v(5000, 5000)];
    let (mut w, h) = make_world(&pts, 10, vec![], v(0, 0));
    w.update_position(h, 60);
    assert_eq!(positions(&w, h)[0], v(5000, 5000));
}

#[test]
fn integrator_gravity_displacement_exact() {
    // Gravity 980000 subunits per second squared straight down, at 60
    // ticks per second: one step falls 980000 / (2 * 60 * 60) = 136.
    let pts = [v(5000, 5000)];
    let (mut w, h) = make_world(&pts, 10, vec![], v(0, 980000));
    w.update_position(h, 60);
    assert_eq!(positions(&w, h)[0], v(5000, 5136));
    // The next step carries the inherited velocity plus gravity again.
    w.update_position(h, 60);
    assert_eq!(positions(&w, h)[0], v(5000, 5408));
}

#[test]
fn pin_constraint_holds_exactly() {
    // One pinned particle under gravity: the integrator moves it, the
    // solver puts it back on the pin target exactly.
    let pts = [v(100, 200)];
    let (mut w, h) = make_world(&pts, 10, vec![0], v(0, 980000));
    w.update_position(h, 60);
    assert_ne!(positions(&w, h)[0], v(100, 200));
    w.solve_constraints(h, &no_nodes());
    assert_eq!(positions(&w, h)[0], v(100, 200));
}

#[test]
fn end_to_end_rope_settles_to_rest_length() {
    // A five-point horizontal rope, rest length 10000 subunits, first
    // point pinned, zero gravity, 50 relaxation passes per tick, run 60
    // ticks at one sixtieth of a second each: every adjacent separation
    // settles within 10 subunits of the rest length, and the pinned
    // point never leaves its target.
    let pts = [v(0, 0), v(10500, 0), v(21000, 0), v(31500, 0), v(42000, 0)];
    let (mut w, h) = make_world(&pts, 10000, vec![0], v(0, 0));
    assert_eq!(w.ropes[h].iteration_count, 50);
    for _ in 0..60 {
        w.physics_process(h, 60, &no_nodes());
        assert_eq!(positions(&w, h)[0], v(0, 0));
    }
    let ps = positions(&w, h);
    for i in 0..ps.len() - 1 {
        let d = dist_f64(ps[i], ps[i + 1]);
        assert!((d - 10000.0).abs() <= 10.0, "separation {} drifted: {}", i, d);
    }
}

#[test]
fn negative_iteration_count_means_no_passes() {
    let pts = [v(100, 200)];
    let mut w = RopeWorld::new();
    let h = w.add_rope(Rope2D::init(10, vec![0], false, v(0, 0)));
    let engine = RopeEngine { iteration_count: -3 };
    let p: Vec<Vec2> = pts.to_vec();
    w.initialize(h, &p, &engine);
    assert_eq!(w.ropes[h].iteration_count, 0);
    // Knock the particle off the pin; zero passes leave it there.
    w.ropes[h].rope_particles[0].position = v(1, 1);
    w.solve_constraints(h, &no_nodes());
    assert_eq!(positions(&w, h)[0], v(1, 1));
}

#[test]
fn bind_to_rope_couples_two_chains() {
    let mut w = RopeWorld::new();
    let ha = w.add_rope(Rope2D::init(10, vec![], false, v(0, 0)));
    let hb = w.add_rope(Rope2D::init(10, vec![], false, v(0, 0)));
    let engine = RopeEngine::init();
    let pa: Vec<Vec2> = vec![v(0, 0), v(10, 0)];
    let pb: Vec<Vec2> = vec![v(1000, 0), v(1010, 0)];
    w.initialize(ha, &pa, &engine);
    w.initialize(hb, &pb, &engine);
    let before = w.ropes[ha].constraints.len();
    w.bind_to_rope(ha, hb, 1, 0);
    assert_eq!(w.ropes[ha].constraints.len(), before + 1);
    match w.ropes[ha].constraints[before] {
        Constraint::Distance(dc) => {
            assert_eq!(dc.start, ParticleRef { rope: ha, index: 1 });
            assert_eq!(dc.end, ParticleRef { rope: hb, index: 0 });
            assert_eq!(dc.distance, 1);
        },
        _ => panic!("binding must create a distance constraint"),
    }
    // Solving the binding pulls the two named particles together.
    w.solve_constraints(ha, &no_nodes());
    let d = dist_f64(positions(&w, ha)[1], positions(&w, hb)[0]);
    assert!(d <= 2.0, "bound particles still {} apart", d);
}

#[test]
fn bind_to_rope_invalid_index_is_a_no_op() {
    let mut w = RopeWorld::new();
    let ha = w.add_rope(Rope2D::init(10, vec![], false, v(0, 0)));
    let hb = w.add_rope(Rope2D::init(10, vec![], false, v(0, 0)));
    let engine = RopeEngine::init();
    let pa: Vec<Vec2> = vec![v(0, 0), v(10, 0)];
    let pb: Vec<Vec2> = vec![v(1000, 0)];
    w.initialize(ha, &pa, &engine);
    w.initialize(hb, &pb, &engine);
    w.bind_to_rope(ha, hb, 1, 5);
    assert_eq!(w.ropes[ha].constraints.len(), 1);
}

#[test]
fn destroyed_rope_makes_binding_a_no_op() {
    // A constraint into a destroyed rope resolves to "absent": the solve
    // must neither fault nor move the surviving particle.
    let mut w = RopeWorld::new();
    let ha = w.add_rope(Rope2D::init(10, vec![], false, v(0, 0)));
    let hb = w.add_rope(Rope2D::init(10, vec![], false, v(0, 0)));
    let engine = RopeEngine::init();
    let pa: Vec<Vec2> = vec![v(0, 0), v(10, 0)];
    let pb: Vec<Vec2> = vec![v(1000, 0)];
    w.initialize(ha, &pa, &engine);
    w.initialize(hb, &pb, &engine);
    w.bind_to_rope(ha, hb, 1, 0);
    w.remove_rope(hb);
    let before = positions(&w, ha);
    w.solve_constraints(ha, &no_nodes());
    // The ordinary chain constraint still ran; only the cross-rope one
    // was skipped, so the far particle was not dragged toward slot hb.
    let after = positions(&w, ha);
    assert!(after[1].x <= before[1].x + 1);
    assert_eq!(positions(&w, hb)[0], v(1000, 0));
}

#[test]
fn bind_to_node_follows_external_transform() {
    let pts = [v(0, 0), v(10, 0)];
    let (mut w, h) = make_world(&pts, 10, vec![], v(0, 0));
    w.bind_to_node(h, 42, 0);
    let nodes: Vec<(u64, Vec2)> = vec![(42, v(500, 600))];
    w.solve_constraints(h, &nodes);
    assert_eq!(positions(&w, h)[0], v(500, 600));
}

#[test]
fn bind_to_node_missing_handle_is_a_no_op() {
    let pts = [v(0, 0)];
    let (mut w, h) = make_world(&pts, 10, vec![], v(0, 0));
    w.bind_to_node(h, 42, 0);
    let nodes: Vec<(u64, Vec2)> = vec![(7, v(500, 600))];
    w.solve_constraints(h, &nodes);
    assert_eq!(positions(&w, h)[0], v(0, 0));
}

#[test]
fn body_tracking_removes_all_matching_entries() {
    let pts = [v(0, 0)];
    let (mut w, h) = make_world(&pts, 10, vec![], v(0, 0));
    w.body_entered(h, 5);
    w.body_entered(h, 7);
    w.body_entered(h, 5);
    assert_eq!(w.ropes[h].colliding_bodies, vec![5u64, 7, 5]);
    w.body_exited(h, 5);
    assert_eq!(w.ropes[h].colliding_bodies, vec![7u64]);
}

#[test]
fn collisions_through_registry_respect_flag() {
    let mut w = RopeWorld::new();
    let h = w.add_rope(Rope2D::init(10, vec![], true, v(0, 0)));
    let engine = RopeEngine::init();
    let pts: Vec<Vec2> = vec![v(100, 100)];
    w.initialize(h, &pts, &engine);
    let contacts: Vec<Vec2> = vec![v(0, 0), v(3, 4)];
    let imps = w.apply_collisions_with_shape(h, 0, BodyKind::Rigid { mass: 5 }, &contacts, 60);
    assert_eq!(positions(&w, h)[0], v(99, 98));
    assert_eq!(imps, vec![v(90, 120)]);

    // The same setup without the collision flag does nothing.
    let mut w2 = RopeWorld::new();
    let h2 = w2.add_rope(Rope2D::init(10, vec![], false, v(0, 0)));
    w2.initialize(h2, &pts, &engine);
    let imps2 = w2.apply_collisions_with_shape(h2, 0, BodyKind::Rigid { mass: 5 }, &contacts, 60);
    assert_eq!(positions(&w2, h2)[0], v(100, 100));
    assert_eq!(imps2.len(), 0);
}

#[test]
fn collision_static_body_through_registry() {
    let mut w = RopeWorld::new();
    let h = w.add_rope(Rope2D::init(10, vec![], true, v(0, 0)));
    let engine = RopeEngine::init();
    let pts: Vec<Vec2> = vec![v(0, 0)];
    w.initialize(h, &pts, &engine);
    let contacts: Vec<Vec2> = vec![v(0, 10), v(0, 4)];
    let imps = w.apply_collisions_with_shape(h, 0, BodyKind::Static, &contacts, 60);
    assert_eq!(positions(&w, h)[0], v(0, 6));
    assert_eq!(imps.len(), 0);
}
