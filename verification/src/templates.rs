//! Ready-made game templates and the data shapes their instances exchange
//! with the engine: update outcomes, events, and menu and interface
//! descriptors.

use vstd::prelude::*;

verus! {

/// The kinds of game a template can produce.
#[derive(Debug, Clone, PartialEq)]
pub enum GameTemplate {
    Platformer2D,
    RPG3D,
    FirstPersonShooter,
    RacingGame,
    PuzzleGame,
    SurvivalGame,
    AdventureGame,
    StrategyGame,
    Custom(String),
}

/// How a game session is played.
#[derive(Debug, Clone, PartialEq, Eq, Structural)]
pub enum GameMode {
    SinglePlayer,
    Cooperative,
    Competitive,
    Sandbox,
    Campaign,
    Endless,
}

/// What one frame of a game instance asks of the engine.
#[derive(Debug, Clone)]
pub enum GameUpdateResult {
    Continue,
    StateChange(crate::framework::GameState),
    Victory,
    GameOver,
    Restart,
    Quit,
}

/// What happened in the game world.
#[derive(Debug)]
pub enum GameEvent {
    PlayerDied,
    EnemyDefeated { enemy_id: usize },
    ItemCollected { item_id: String, quantity: i32 },
    QuestCompleted { quest_id: String },
    LevelCompleted,
    CheckpointReached { checkpoint_id: String },
    DialogueStarted { npc_id: usize },
    DialogueEnded,
    Custom { event_type: String, data: Vec<(String, String)> },
}

/// The kinds of interface element a game instance can ask for.
#[derive(Debug, Clone, PartialEq, Eq, Structural)]
pub enum UIElementType {
    Text,
    Button,
    Image,
    ProgressBar,
    HealthBar,
    Inventory,
    Minimap,
    DialogueBox,
    Menu,
    HUD,
}

/// One entry of a menu.
#[derive(Debug)]
pub struct MenuItem {
    pub text: String,
    pub action: MenuAction,
    pub enabled: bool,
    pub submenu: Option<Vec<MenuItem>>,
}

/// What choosing a menu entry does.
#[derive(Debug, Clone)]
pub enum MenuAction {
    StartGame,
    LoadGame,
    SaveGame,
    Settings,
    Quit,
    Resume,
    Restart,
    Custom(String),
}

/// The builder of the role-playing template.
#[derive(Debug, Clone, Copy, PartialEq, Eq, Structural)]
pub struct RPGGameTemplate;

/// The builder of the platformer template.
#[derive(Debug, Clone, Copy, PartialEq, Eq, Structural)]
pub struct PlatformerGameTemplate;

/// The kinds of damage the combat rules know.
#[derive(Debug, Clone, Copy, PartialEq, Eq, Structural)]
pub enum DamageType {
    Physical,
    Fire,
    Ice,
    Lightning,
    Poison,
    Holy,
    Dark,
}

/// The lasting conditions combat can inflict.
#[derive(Debug, Clone, Copy, PartialEq, Eq, Structural)]
pub enum StatusEffectType {
    Poison,
    Burn,
    Freeze,
    Stun,
    Slow,
    Haste,
    Regeneration,
    Shield,
}

/// Running combat bookkeeping.
#[derive(Debug)]
pub struct CombatStats {
    pub battles_won: i32,
    pub battles_lost: i32,
    pub total_damage_dealt: i32,
    pub total_damage_taken: i32,
    pub enemies_defeated: Vec<(String, i32)>,
}

/// The settings a level can be staged in.
#[derive(Debug, Clone, Copy, PartialEq, Eq, Structural)]
pub enum EnvironmentType {
    Forest,
    Desert,
    Mountains,
    Cave,
    City,
    Dungeon,
    Castle,
    Swamp,
    Beach,
    Volcano,
}

/// The kinds of hidden find.
#[derive(Debug, Clone, Copy, PartialEq, Eq, Structural)]
pub enum SecretType {
    HiddenChest,
    SecretArea,
    EasterEgg,
    Lore,
    PowerUp,
}

/// The boosts a platformer pickup can grant.
#[derive(Debug, Clone, Copy, PartialEq, Eq, Structural)]
pub enum PowerUpType {
    SpeedBoost,
    JumpBoost,
    Invincibility,
    DoubleJump,
    FirePower,
    Shield,
}

/// The catalogue of templates.
pub struct GameTemplateFactory;

impl GameTemplateFactory {
    /// The full fixed catalogue, the same on every call: eight templates,
    /// each with its display name and description.
    pub fn get_available_templates() -> (r: Vec<(GameTemplate, &'static str, &'static str)>)
        ensures
            r@.len() == 8,
            r@[0].0 is RPG3D,
            r@[0].1@ == "3D RPG Adventure"@,
            r@[0].2@ == "A classic 3D RPG with character progression, quests, and combat"@,
            r@[1].0 is Platformer2D,
            r@[1].1@ == "2D Platformer"@,
            r@[1].2@ == "A classic 2D platformer with jumping and collectibles"@,
            r@[2].0 is FirstPersonShooter,
            r@[2].1@ == "First Person Shooter"@,
            r@[2].2@ == "Fast-paced FPS action"@,
            r@[3].0 is RacingGame,
            r@[3].1@ == "Racing Game"@,
            r@[3].2@ == "High-speed racing with customizable vehicles"@,
            r@[4].0 is PuzzleGame,
            r@[4].1@ == "Puzzle Game"@,
            r@[4].2@ == "Brain-teasing puzzles and challenges"@,
            r@[5].0 is SurvivalGame,
            r@[5].1@ == "Survival Game"@,
            r@[5].2@ == "Survive in harsh environments with crafting"@,
            r@[6].0 is AdventureGame,
            r@[6].1@ == "Adventure Game"@,
            r@[6].2@ == "Story-driven adventure with exploration"@,
            r@[7].0 is StrategyGame,
            r@[7].1@ == "Strategy Game"@,
            r@[7].2@ == "Tactical gameplay with resource management"@,
    {
        let mut templates: Vec<(GameTemplate, &'static str, &'static str)> = Vec::new();
        templates.push(
            (
                GameTemplate::RPG3D,
                "3D RPG Adventure",
                "A classic 3D RPG with character progression, quests, and combat",
            ),
        );
        templates.push(
            (
                GameTemplate::Platformer2D,
                "2D Platformer",
                "A classic 2D platformer with jumping and collectibles",
            ),
        );
        templates.push((GameTemplate::FirstPersonShooter, "First Person Shooter", "Fast-paced FPS action"));
        templates.push(
            (GameTemplate::RacingGame, "Racing Game", "High-speed racing with customizable vehicles"),
        );
        templates.push((GameTemplate::PuzzleGame, "Puzzle Game", "Brain-teasing puzzles and challenges"));
        templates.push(
            (GameTemplate::SurvivalGame, "Survival Game", "Survive in harsh environments with crafting"),
        );
        templates.push(
            (GameTemplate::AdventureGame, "Adventure Game", "Story-driven adventure with exploration"),
        );
        templates.push(
            (GameTemplate::StrategyGame, "Strategy Game", "Tactical gameplay with resource management"),
        );
        templates
    }
}

} // verus!
