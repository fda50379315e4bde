//! The physics world: integration, collision, raycasts and their laws, on
//! fixed-point values (millionths).

use elria_engine::math::Vector3D;
use elria_engine::objects::BoundingBox;
use elria_engine::physics::{CollisionLayer, PhysicsWorld, RigidBody, RigidBodyType, FIXED_DT};

#[test]
fn test_rigid_body_creation() {
    let body = RigidBody::new(
        Vector3D::new(0, 0, 0),
        Vector3D::new(1_000_000, 1_000_000, 1_000_000),
    );
    assert_eq!(body.position, Vector3D::new(0, 0, 0));
    assert_eq!(body.body_type, RigidBodyType::Dynamic);
    assert!(body.use_gravity);
}

#[test]
fn test_physics_world() {
    let mut world = PhysicsWorld::new();
    let body = RigidBody::new(
        Vector3D::new(0, 10_000_000, 0),
        Vector3D::new(1_000_000, 1_000_000, 1_000_000),
    );
    let id = world.add_rigid_body(body);

    // One frame slightly over the fixed sub-step, so a sub-step runs.
    world.step(17_000);

    let updated_body = world.get_rigid_body(id).unwrap();
    assert!(updated_body.position.y < 10_000_000); // fallen under gravity
}

#[test]
fn test_collision_detection() {
    let mut world = PhysicsWorld::new();

    let body1 = RigidBody::new(
        Vector3D::new(0, 0, 0),
        Vector3D::new(1_000_000, 1_000_000, 1_000_000),
    );
    let body2 = RigidBody::new(
        Vector3D::new(500_000, 0, 0),
        Vector3D::new(1_000_000, 1_000_000, 1_000_000),
    );

    let _id1 = world.add_rigid_body(body1);
    let _id2 = world.add_rigid_body(body2);

    world.detect_collisions();
    assert!(!world.collision_pairs.is_empty());
}

#[test]
fn gravity_integration_closed_form() {
    // A lone unit-mass body without drag follows semi-implicit Euler
    // exactly: after n sub-steps the velocity is n times g*h.
    let mut world = PhysicsWorld::new();
    world.set_air_resistance(0);
    let body = RigidBody::new(
        Vector3D::new(0, 10_000_000, 0),
        Vector3D::new(1_000_000, 1_000_000, 1_000_000),
    );
    let id = world.add_rigid_body(body);
    for _ in 0..60 {
        world.step(FIXED_DT);
    }
    let b = world.get_rigid_body(id).unwrap();
    // g*h = trunc(9_810_000 * 16_667 / 1_000_000) = 163_503 per sub-step.
    assert_eq!(b.velocity.y, -163_503 * 60);
    // The height tracks y0 - g*h^2*n*(n+1)/2, about 5.01 units down.
    assert!(b.position.y < 5_100_000 && b.position.y > 4_900_000);
}

#[test]
fn determinism_across_runs() {
    let build = || {
        let mut world = PhysicsWorld::new();
        let mut b1 = RigidBody::new(
            Vector3D::new(0, 5_000_000, 0),
            Vector3D::new(1_000_000, 1_000_000, 1_000_000),
        );
        b1.velocity = Vector3D::new(300_000, 0, -200_000);
        world.add_rigid_body(b1);
        let b2 = RigidBody::new_static(
            Vector3D::new(0, -1_000_000, 0),
            Vector3D::new(20_000_000, 1_000_000, 20_000_000),
        );
        world.add_rigid_body(b2);
        world
    };
    let mut w1 = build();
    let mut w2 = build();
    let deltas = [16_667i64, 33_000, 5_000, 100_000, 16_667];
    for dt in deltas {
        w1.step(dt);
        w2.step(dt);
    }
    for id in 0..2usize {
        let a = w1.get_rigid_body(id).unwrap();
        let b = w2.get_rigid_body(id).unwrap();
        assert_eq!(a.position, b.position);
        assert_eq!(a.velocity, b.velocity);
    }
}

#[test]
fn static_bodies_never_move() {
    let mut world = PhysicsWorld::new();
    let s = RigidBody::new_static(
        Vector3D::new(1_000_000, 2_000_000, 3_000_000),
        Vector3D::new(2_000_000, 2_000_000, 2_000_000),
    );
    let id = world.add_rigid_body(s);
    // Forces and impulses are no-ops on a Static body.
    world.body_add_force(id, Vector3D::new(9_000_000, 9_000_000, 9_000_000));
    world.body_add_impulse(id, Vector3D::new(9_000_000, 9_000_000, 9_000_000));
    world.body_set_velocity(id, Vector3D::new(1_000_000, 0, 0));
    for _ in 0..120 {
        world.step(16_667);
    }
    let b = world.get_rigid_body(id).unwrap();
    assert_eq!(b.position, Vector3D::new(1_000_000, 2_000_000, 3_000_000));
    assert_eq!(b.velocity, Vector3D::zero());
}

#[test]
fn velocity_clamp_holds_under_sustained_force() {
    let mut world = PhysicsWorld::new();
    let mut body = RigidBody::new(
        Vector3D::new(0, 0, 0),
        Vector3D::new(1_000_000, 1_000_000, 1_000_000),
    );
    body.max_velocity = 5_000_000;
    body.use_gravity = false;
    let id = world.add_rigid_body(body);
    for _ in 0..240 {
        world.body_add_force(id, Vector3D::new(500_000_000, 0, 200_000_000));
        world.step(16_667);
        let b = world.get_rigid_body(id).unwrap();
        assert!(b.velocity.magnitude() <= 5_000_000);
    }
}

#[test]
fn mutable_body_lookup_edits_in_place() {
    let mut world = PhysicsWorld::new();
    let id = world.add_rigid_body(RigidBody::new(
        Vector3D::new(0, 0, 0),
        Vector3D::new(1_000_000, 1_000_000, 1_000_000),
    ));
    world.get_rigid_body_mut(id).unwrap().set_mass(3_000_000);
    assert_eq!(world.get_rigid_body(id).unwrap().mass, 3_000_000);
    assert!(world.get_rigid_body_mut(999).is_none());
}

#[test]
fn named_collision_layers_are_disjoint_bits() {
    let layers = [
        CollisionLayer::default_layer(),
        CollisionLayer::player(),
        CollisionLayer::enemy(),
        CollisionLayer::environment(),
        CollisionLayer::projectile(),
        CollisionLayer::trigger(),
    ];
    for (i, a) in layers.iter().enumerate() {
        for (j, b) in layers.iter().enumerate() {
            assert_eq!(a.intersects(*b), i == j);
        }
    }
}

#[test]
fn aabb_intersection_is_symmetric() {
    let a = BoundingBox::from_center_size(
        Vector3D::new(0, 0, 0),
        Vector3D::new(2_000_000, 2_000_000, 2_000_000),
    );
    let b = BoundingBox::from_center_size(
        Vector3D::new(1_500_000, 0, 0),
        Vector3D::new(2_000_000, 2_000_000, 2_000_000),
    );
    let c = BoundingBox::from_center_size(
        Vector3D::new(9_000_000, 0, 0),
        Vector3D::new(1_000_000, 1_000_000, 1_000_000),
    );
    assert_eq!(a.intersects(&b), b.intersects(&a));
    assert!(a.intersects(&b));
    assert_eq!(a.intersects(&c), c.intersects(&a));
    assert!(!a.intersects(&c));
}

#[test]
fn elastic_head_on_collision_swaps_velocities() {
    let mut world = PhysicsWorld::new();
    world.set_air_resistance(0);
    let mut b1 = RigidBody::new(
        Vector3D::new(0, 0, 0),
        Vector3D::new(1_000_000, 1_000_000, 1_000_000),
    );
    b1.use_gravity = false;
    b1.restitution = 1_000_000;
    b1.velocity = Vector3D::new(1_000_000, 0, 0);
    let mut b2 = RigidBody::new(
        Vector3D::new(500_000, 0, 0),
        Vector3D::new(1_000_000, 1_000_000, 1_000_000),
    );
    b2.use_gravity = false;
    b2.restitution = 1_000_000;
    b2.velocity = Vector3D::new(-1_000_000, 0, 0);
    let id1 = world.add_rigid_body(b1);
    let id2 = world.add_rigid_body(b2);
    world.step(FIXED_DT);
    let a = world.get_rigid_body(id1).unwrap();
    let b = world.get_rigid_body(id2).unwrap();
    assert_eq!(a.velocity.x, -1_000_000);
    assert_eq!(b.velocity.x, 1_000_000);
}

#[test]
fn inelastic_head_on_collision_matches_velocities() {
    let mut world = PhysicsWorld::new();
    world.set_air_resistance(0);
    let mut b1 = RigidBody::new(
        Vector3D::new(0, 0, 0),
        Vector3D::new(1_000_000, 1_000_000, 1_000_000),
    );
    b1.use_gravity = false;
    b1.restitution = 0;
    b1.velocity = Vector3D::new(2_000_000, 0, 0);
    let mut b2 = RigidBody::new(
        Vector3D::new(500_000, 0, 0),
        Vector3D::new(1_000_000, 1_000_000, 1_000_000),
    );
    b2.use_gravity = false;
    b2.restitution = 0;
    b2.velocity = Vector3D::new(0, 0, 0);
    let id1 = world.add_rigid_body(b1);
    let id2 = world.add_rigid_body(b2);
    world.step(FIXED_DT);
    let a = world.get_rigid_body(id1).unwrap();
    let b = world.get_rigid_body(id2).unwrap();
    assert_eq!(a.velocity.x, b.velocity.x);
    assert_eq!(a.velocity.x, 1_000_000);
}

#[test]
fn raycast_straight_down_hits_box_top() {
    let mut world = PhysicsWorld::new();
    // A static body centered at the origin with half-size one unit.
    let body = RigidBody::new_static(
        Vector3D::new(0, 0, 0),
        Vector3D::new(2_000_000, 2_000_000, 2_000_000),
    );
    let id = world.add_rigid_body(body);
    let hit = world
        .raycast(
            Vector3D::new(0, 10_000_000, 0),
            Vector3D::new(0, -1_000_000, 0),
            20_000_000,
        )
        .unwrap();
    assert_eq!(hit.body_id, id);
    assert_eq!(hit.point.y, 1_000_000);
    assert_eq!(hit.distance, 9_000_000);
    assert_eq!(hit.normal, Vector3D::new(0, 1_000_000, 0));
}

#[test]
fn raycast_respects_max_distance_and_misses() {
    let mut world = PhysicsWorld::new();
    let body = RigidBody::new_static(
        Vector3D::new(0, 0, 0),
        Vector3D::new(2_000_000, 2_000_000, 2_000_000),
    );
    world.add_rigid_body(body);
    // Too short a ray finds nothing: the hit must lie strictly within range.
    let short = world.raycast(
        Vector3D::new(0, 10_000_000, 0),
        Vector3D::new(0, -1_000_000, 0),
        9_000_000,
    );
    assert!(short.is_none());
    // A ray pointing away finds nothing.
    let away = world.raycast(
        Vector3D::new(0, 10_000_000, 0),
        Vector3D::new(0, 1_000_000, 0),
        20_000_000,
    );
    assert!(away.is_none());
}

#[test]
fn removed_bodies_are_gone_and_handles_never_return() {
    let mut world = PhysicsWorld::new();
    let id0 = world.add_rigid_body(RigidBody::new(
        Vector3D::new(0, 0, 0),
        Vector3D::new(1_000_000, 1_000_000, 1_000_000),
    ));
    world.remove_rigid_body(id0);
    assert!(world.get_rigid_body(id0).is_none());
    // Removal is a silent no-op the second time.
    world.remove_rigid_body(id0);
    // A later body gets a fresh handle, never the dead one.
    let id1 = world.add_rigid_body(RigidBody::new(
        Vector3D::new(0, 0, 0),
        Vector3D::new(1_000_000, 1_000_000, 1_000_000),
    ));
    assert!(id1 > id0);
}

#[test]
fn trigger_bodies_report_overlap_without_response() {
    let mut world = PhysicsWorld::new();
    world.set_air_resistance(0);
    let trigger = RigidBody::new_trigger(
        Vector3D::new(0, 0, 0),
        Vector3D::new(2_000_000, 2_000_000, 2_000_000),
    );
    let mut mover = RigidBody::new(
        Vector3D::new(500_000, 0, 0),
        Vector3D::new(1_000_000, 1_000_000, 1_000_000),
    );
    mover.use_gravity = false;
    mover.velocity = Vector3D::new(-1_000_000, 0, 0);
    world.add_rigid_body(trigger);
    let id = world.add_rigid_body(mover);
    world.step(FIXED_DT);
    // The overlap is recorded, yet the mover keeps its velocity.
    assert!(!world.collision_pairs.is_empty());
    let b = world.get_rigid_body(id).unwrap();
    assert_eq!(b.velocity.x, -1_000_000);
}
