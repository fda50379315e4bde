//! The inventory, the dialogue engine, objects, and the small framework
//! types.

use elria_engine::framework::{
    DialogueAction, DialogueChoice, DialogueNode, DialogueSystem, DialogueTree, Inventory, Item,
    ItemRarity, ItemType,
};
use elria_engine::idle::{current_timestamp_secs, GeneratorState, ResourceType};
use elria_engine::math::Vector3D;
use elria_engine::objects::{CollectibleType, Enemy, EnemyAIState, GameObject, Player};
use elria_engine::physics::CollisionLayer;
use elria_engine::state::{GameState, GameStateContext, MenuChoice};
use elria_engine::templates::GameTemplateFactory;
use elria_engine::{get_version, EngineConfig};

fn coin(id: &str, stackable: bool, max_stack: i32) -> Item {
    Item {
        id: id.to_string(),
        name: id.to_string(),
        description: "a test item".to_string(),
        item_type: ItemType::Misc,
        rarity: ItemRarity::Common,
        value: 1,
        stackable,
        max_stack,
    }
}

#[test]
fn inventory_stacks_and_counts() {
    let mut inv = Inventory::new(3);
    assert!(inv.add_item(coin("gold", true, 10), 6));
    assert!(inv.add_item(coin("gold", true, 10), 4));
    // Ten pieces in one slot: the stack is full now.
    assert!(inv.has_item("gold", 10));
    assert!(!inv.has_item("gold", 11));
    assert!(inv.remove_item("gold", 3));
    assert!(inv.has_item("gold", 7));
    assert!(!inv.remove_item("gold", 8));
}

#[test]
fn inventory_rejects_overflow() {
    let mut inv = Inventory::new(1);
    assert!(inv.add_item(coin("sword", false, 1), 1));
    // The single slot is taken; nothing else fits.
    assert!(!inv.add_item(coin("shield", false, 1), 1));
}

#[test]
fn inventory_clears_emptied_slots() {
    let mut inv = Inventory::new(2);
    assert!(inv.add_item(coin("herb", true, 99), 5));
    assert!(inv.remove_item("herb", 5));
    assert!(!inv.has_item("herb", 1));
    // The emptied slot takes a new item again.
    assert!(inv.add_item(coin("stone", false, 1), 1));
    assert!(inv.has_item("stone", 1));
}

fn node(id: &str, next: &str, action: Option<(&str, &str, &str)>) -> DialogueNode {
    let actions = match action {
        Some((t, k, v)) => vec![DialogueAction {
            action_type: t.to_string(),
            target: k.to_string(),
            value: v.to_string(),
        }],
        None => Vec::new(),
    };
    DialogueNode {
        id: id.to_string(),
        speaker: "npc".to_string(),
        text: "...".to_string(),
        choices: vec![DialogueChoice {
            text: "next".to_string(),
            next_node_id: next.to_string(),
            conditions: Vec::new(),
        }],
        conditions: Vec::new(),
        actions,
    }
}

#[test]
fn dialogue_walks_and_sets_variables() {
    let mut ds = DialogueSystem::new();
    ds.dialogue_trees.push(DialogueTree {
        id: "intro".to_string(),
        nodes: vec![
            node("start", "middle", Some(("set_variable", "met", "yes"))),
            node("middle", "absent", None),
        ],
    });
    ds.start_dialogue("intro");
    assert_eq!(ds.current_node.as_ref().unwrap().id, "start");
    // The first choice runs the node's action and moves on.
    ds.choose_option(0);
    assert_eq!(ds.current_node.as_ref().unwrap().id, "middle");
    assert_eq!(ds.variables.len(), 1);
    assert_eq!(ds.variables[0].0, "met");
    assert_eq!(ds.variables[0].1, "yes");
    // The next hop names a missing node: the dialogue ends.
    ds.choose_option(0);
    assert!(ds.current_node.is_none());
    assert!(ds.current_dialogue.is_none());
    // Choosing with nothing running changes nothing.
    ds.choose_option(0);
    assert!(ds.current_node.is_none());
}

#[test]
fn player_health_and_jumping() {
    let mut p = Player::new(Vector3D::new(0, 0, 0));
    assert_eq!(p.get_health(), 100);
    assert!(!p.take_damage(30));
    assert_eq!(p.get_health(), 70);
    p.heal(50);
    assert_eq!(p.get_health(), 100);
    assert!(p.take_damage(1000));
    assert_eq!(p.get_health(), 0);
    // Jumping works only from the ground.
    p.jump();
    assert_eq!(p.velocity.y, 0);
    p.set_grounded(true);
    assert!(p.is_grounded());
    p.jump();
    assert_eq!(p.velocity.y, 10_000_000);
    assert!(!p.is_grounded());
}

#[test]
fn enemy_ai_chases_a_close_player() {
    let mut e = Enemy::new(Vector3D::new(0, 0, 0));
    assert_eq!(e.get_ai_state(), EnemyAIState::Idle);
    // The player inside the detection range draws the chase.
    e.update_ai(Vector3D::new(5_000_000, 0, 0), 0);
    assert_eq!(e.get_ai_state(), EnemyAIState::Chasing);
    e.update_ai(Vector3D::new(5_000_000, 0, 0), 0);
    assert!(e.velocity.x > 0);
    // Within attack range the enemy turns to attacking, and its strikes
    // respect the cooldown.
    e.update_ai(Vector3D::new(1_000_000, 0, 0), 0);
    assert_eq!(e.get_ai_state(), EnemyAIState::Attacking);
    assert_eq!(e.attack(1_000_000), 10);
    assert_eq!(e.attack(1_200_000), 0);
    assert_eq!(e.attack(2_000_000), 10);
}

#[test]
fn collectibles_collect_once() {
    let mut g = GameObject::Collectible(elria_engine::objects::Collectible::new(
        Vector3D::new(0, 0, 0),
        25,
        CollectibleType::Gem,
    ));
    assert!(g.is_active());
    let player = GameObject::Player(Player::new(Vector3D::new(0, 0, 0)));
    g.on_collision(&player);
    assert!(!g.is_active());
    match g {
        GameObject::Collectible(ref c) => {
            assert!(c.is_collected());
            assert_eq!(c.get_value(), 25);
        },
        _ => unreachable!(),
    }
}

#[test]
fn collision_layers_intersect_by_shared_bits() {
    let a = CollisionLayer(0b0011);
    let b = CollisionLayer(0b0010);
    let c = CollisionLayer(0b0100);
    assert!(a.intersects(b));
    assert!(b.intersects(a));
    assert!(!a.intersects(c));
}

#[test]
fn engine_wide_odds_and_ends() {
    assert_eq!(get_version(), "0.1.0");
    let config = EngineConfig::default();
    assert_eq!(config.window_width, 1024);
    assert_eq!(config.window_height, 768);
    assert!(config.enable_physics);
    let g = GeneratorState::new("mine".to_string(), ResourceType::Gold);
    assert_eq!(g.level, 1);
    assert_eq!(g.resource_type, ResourceType::Gold);
    assert!(current_timestamp_secs() >= 0);
    let templates = GameTemplateFactory::get_available_templates();
    assert_eq!(templates.len(), 8);
    assert_eq!(templates[0].1, "3D RPG Adventure");
    assert_eq!(templates[7].1, "Strategy Game");
    assert_eq!(templates, GameTemplateFactory::get_available_templates());
    let mut ctx = GameStateContext::new();
    assert_eq!(ctx.current_state, GameState::MainMenu);
    ctx.apply_menu_choice(MenuChoice::Play);
    assert_eq!(ctx.current_state, GameState::Playing);
}

#[test]
fn health_percentage_is_a_fixed_fraction() {
    let mut p = Player::new(Vector3D::new(0, 0, 0));
    assert_eq!(p.get_health_percentage(), 1_000_000);
    p.take_damage(50);
    assert_eq!(p.get_health_percentage(), 500_000);
}
