//! Scenes, the scene manager and the end-to-end scenarios, on fixed-point
//! values (millionths).

use elria_engine::math::Vector3D;
use elria_engine::objects::GameObjectKind;
use elria_engine::scene::{Scene, SceneManager, SceneTemplates, TransitionType};

#[test]
fn test_scene_creation() {
    let scene = Scene::new("Test");
    assert_eq!(scene.get_name(), "Test");
    assert!(scene.is_active());
    assert_eq!(scene.get_object_count(), 0);
}

#[test]
fn test_scene_manager() {
    let mut manager = SceneManager::new();
    let scene1 = Scene::new("Scene1");
    let scene2 = Scene::new("Scene2");

    manager.add_scene(scene1);
    manager.add_scene(scene2);

    assert!(manager.set_active_scene("Scene1"));
    assert_eq!(manager.get_active_scene_name(), Some(&"Scene1".to_string()));

    assert!(manager.set_active_scene("Scene2"));
    assert_eq!(manager.get_active_scene_name(), Some(&"Scene2".to_string()));
}

#[test]
fn test_object_management() {
    let mut scene = Scene::new("Test");

    let player_id = scene.add_player(Vector3D::new(0, 0, 0));
    let collectible_id = scene.add_collectible(Vector3D::new(1_000_000, 0, 0), 10);

    assert_eq!(scene.get_object_count(), 2);

    assert!(scene.remove_object(player_id));
    assert_eq!(scene.get_object_count(), 1);

    assert!(scene.remove_object(collectible_id));
    assert_eq!(scene.get_object_count(), 0);
}

#[test]
fn add_then_remove_restores_scene_and_world() {
    let mut scene = Scene::new("Roundtrip");
    scene.add_platform(
        Vector3D::new(10_000_000, 1_000_000, 10_000_000),
        Vector3D::new(0, -1_000_000, 0),
    );
    let before = scene.get_object_count();
    let id = scene.add_player(Vector3D::new(0, 5_000_000, 0));
    assert_eq!(scene.get_object_count(), before + 1);
    assert!(scene.remove_object(id));
    assert_eq!(scene.get_object_count(), before);
    // The paired physics body is gone with the object.
    assert!(scene.get_physics_world().get_rigid_body(id).is_none());
    // Removing the same handle again reports failure.
    assert!(!scene.remove_object(id));
}

#[test]
fn player_falls_onto_platform_and_rests() {
    // An empty scene, a player dropped from five units, a broad static
    // platform below: after five simulated seconds gravity has set the
    // player down on the platform, not through it.
    let mut scene = Scene::new("Drop");
    let player_id = scene.add_player(Vector3D::new(0, 5_000_000, 0));
    scene.add_platform(
        Vector3D::new(20_000_000, 500_000, 20_000_000),
        Vector3D::new(0, -1_000_000, 0),
    );
    for _ in 0..300 {
        scene.update(16_667);
    }
    let player = scene.get_object(player_id).expect("player lives");
    let y = player.get_position().y;
    // The platform's top face is at -0.75; the player's half-height is 1,
    // so it rests near 0.25, and never below the platform top.
    assert!(y > -750_000, "player sank into the platform: y = {}", y);
    assert!(
        (y - 250_000).abs() < 200_000,
        "player did not settle near the platform top: y = {}",
        y
    );
}

#[test]
fn scene_raycast_straight_down() {
    let mut scene = Scene::new("Ray");
    // A platform body centered at the origin with half-size one unit.
    let id = scene.add_platform(
        Vector3D::new(2_000_000, 2_000_000, 2_000_000),
        Vector3D::new(0, 0, 0),
    );
    let hit = scene
        .raycast(
            Vector3D::new(0, 10_000_000, 0),
            Vector3D::new(0, -1_000_000, 0),
            20_000_000,
        )
        .expect("the ray hits the platform");
    assert_eq!(hit.object_id, id);
    assert_eq!(hit.point.y, 1_000_000);
    assert_eq!(hit.distance, 9_000_000);
}

#[test]
fn inactive_scene_does_not_simulate() {
    let mut scene = Scene::new("Paused");
    let id = scene.add_player(Vector3D::new(0, 5_000_000, 0));
    scene.set_active(false);
    for _ in 0..60 {
        scene.update(16_667);
    }
    let player = scene.get_object(id).unwrap();
    assert_eq!(player.get_position().y, 5_000_000);
    scene.set_active(true);
    scene.update(16_667);
    let player = scene.get_object(id).unwrap();
    assert!(player.get_position().y < 5_000_000);
}

#[test]
fn inactive_objects_are_pruned_with_their_bodies() {
    let mut scene = Scene::new("Sweep");
    let keep = scene.add_player(Vector3D::new(0, 0, 0));
    let dropped = scene.add_collectible(Vector3D::new(3_000_000, 0, 0), 5);
    assert_eq!(scene.get_object_count(), 2);
    // Deactivate the collectible; the next frame sweeps it and its body.
    scene.get_object_mut(dropped).unwrap().set_active(false);
    scene.update(16_667);
    assert_eq!(scene.get_object_count(), 1);
    assert!(scene.get_object(keep).is_some());
    assert!(scene.get_object(dropped).is_none());
    assert!(scene.get_physics_world().get_rigid_body(dropped).is_none());
    assert!(scene.get_physics_world().get_rigid_body(keep).is_some());
}

#[test]
fn radius_queries_and_closest_object() {
    let mut scene = Scene::new("Query");
    let near = scene.add_collectible(Vector3D::new(1_000_000, 0, 0), 1);
    let far = scene.add_collectible(Vector3D::new(9_000_000, 0, 0), 1);
    let center = Vector3D::new(0, 0, 0);
    let inside = scene.get_objects_in_radius(center, 2_000_000);
    assert_eq!(inside, vec![near]);
    let all = scene.overlap_sphere(center, 20_000_000);
    assert_eq!(all, vec![near, far]);
    let (closest_id, d) = scene.get_closest_object(center).unwrap();
    assert_eq!(closest_id, near);
    assert_eq!(d, 1_000_000);
}

#[test]
fn scene_clear_resets_handles() {
    let mut scene = Scene::new("Clear");
    scene.add_player(Vector3D::new(0, 0, 0));
    scene.add_enemy(Vector3D::new(1_000_000, 0, 0));
    scene.clear();
    assert_eq!(scene.get_object_count(), 0);
    let id = scene.add_player(Vector3D::new(0, 0, 0));
    assert_eq!(id, 0);
}

#[test]
fn manager_transitions_complete_after_half_second() {
    let mut manager = SceneManager::new();
    manager.add_scene(Scene::new("A"));
    manager.add_scene(Scene::new("B"));
    assert!(manager.set_active_scene("A"));
    assert!(manager.transition_to_scene("B", TransitionType::Fade));
    assert!(manager.is_transitioning());
    // Progress advances at twice the frame delta: 0.5 seconds in total.
    for _ in 0..29 {
        manager.update_transition(16_667);
    }
    assert!(manager.is_transitioning());
    manager.update_transition(16_667);
    assert!(!manager.is_transitioning());
    assert_eq!(manager.get_active_scene_name(), Some(&"B".to_string()));
    // The old scene went inactive, the new one active.
    assert!(!manager.get_scene("A").unwrap().is_active());
    assert!(manager.get_scene("B").unwrap().is_active());
}

#[test]
fn manager_rejects_unknown_scenes() {
    let mut manager = SceneManager::new();
    manager.add_scene(Scene::new("Only"));
    assert!(!manager.set_active_scene("Missing"));
    assert!(!manager.transition_to_scene("Missing", TransitionType::Instant));
    assert!(manager.remove_scene("Only"));
    assert!(!manager.remove_scene("Only"));
}

#[test]
fn scene_templates_have_expected_contents() {
    let test_scene = SceneTemplates::create_test_scene();
    assert_eq!(test_scene.get_object_count(), 11);
    let platform_scene = SceneTemplates::create_platform_scene();
    assert_eq!(platform_scene.get_object_count(), 12);
    let empty = SceneTemplates::create_empty_scene("Fresh");
    assert_eq!(empty.get_object_count(), 0);
    assert_eq!(empty.get_name(), "Fresh");
}

#[test]
fn find_object_by_name_sees_the_player() {
    let mut scene = Scene::new("Names");
    let id = scene.add_player(Vector3D::new(0, 0, 0));
    let (found, obj) = scene.find_object_by_name("Player").unwrap();
    assert_eq!(found, id);
    assert_eq!(obj.get_name(), "Player");
    assert!(scene.find_object_by_name("Ghost").is_none());
}

#[test]
fn fresh_scenes_carry_the_default_world() {
    // A new scene and a cleared scene embed the same fresh physics world:
    // same gravity, drag and friction, and a zeroed time accumulator — so
    // identical runs from either are identical.
    let mut a = Scene::new("One");
    let mut b = Scene::new("Two");
    b.add_enemy(Vector3D::new(0, 0, 0));
    b.clear();
    let pa = a.add_player(Vector3D::new(0, 5_000_000, 0));
    let pb = b.add_player(Vector3D::new(0, 5_000_000, 0));
    for _ in 0..30 {
        a.update(16_667);
        b.update(16_667);
    }
    let ya = a.get_object(pa).unwrap().get_position().y;
    let yb = b.get_object(pb).unwrap().get_position().y;
    assert_eq!(ya, yb);
    assert!(ya < 5_000_000);
}

#[test]
fn find_objects_by_type_filters_by_kind() {
    let mut scene = Scene::new("Kinds");
    let p = scene.add_player(Vector3D::new(0, 0, 0));
    let c1 = scene.add_collectible(Vector3D::new(1_000_000, 0, 0), 1);
    let c2 = scene.add_collectible(Vector3D::new(2_000_000, 0, 0), 2);
    let f = scene.add_platform(
        Vector3D::new(4_000_000, 1_000_000, 4_000_000),
        Vector3D::new(0, -2_000_000, 0),
    );
    assert_eq!(scene.find_objects_by_type(GameObjectKind::Player), vec![p]);
    assert_eq!(
        scene.find_objects_by_type(GameObjectKind::Collectible),
        vec![c1, c2]
    );
    assert_eq!(scene.find_objects_by_type(GameObjectKind::Platform), vec![f]);
    assert_eq!(scene.find_objects_by_type(GameObjectKind::Enemy), Vec::<usize>::new());
}

#[test]
fn mutable_lookups_edit_in_place() {
    let mut scene = Scene::new("Mut");
    let id = scene.add_player(Vector3D::new(0, 0, 0));
    scene
        .get_object_mut(id)
        .unwrap()
        .set_position(Vector3D::new(7_000_000, 0, 0));
    assert_eq!(
        scene.get_object(id).unwrap().get_position(),
        Vector3D::new(7_000_000, 0, 0)
    );
    assert!(scene.get_object_mut(999).is_none());

    let mut manager = SceneManager::new();
    manager.add_scene(scene);
    manager.get_scene_mut("Mut").unwrap().set_ambient_light(700_000);
    assert_eq!(manager.get_scene("Mut").unwrap().get_ambient_light(), 700_000);
    assert!(manager.get_scene_mut("Missing").is_none());
    assert!(manager.get_active_scene_mut().is_none());
    assert!(manager.set_active_scene("Mut"));
    manager
        .get_active_scene_mut()
        .unwrap()
        .set_camera_target(Vector3D::new(0, 0, -3_000_000));
    assert_eq!(
        manager.get_active_scene().unwrap().get_camera_target(),
        Vector3D::new(0, 0, -3_000_000)
    );
}
