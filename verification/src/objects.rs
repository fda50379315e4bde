//! Game objects and their bounding boxes.
//!
//! The scene is polymorphic over a small capability set: every object can be
//! updated, has a position, a velocity, an active flag, a name, a size and a
//! bounding box, and can react to a collision.  The concrete kinds are a
//! closed set, so the capability set is a tagged union with one dispatching
//! method per capability.

use vstd::prelude::*;
use crate::fixed::{FX_ONE, FX_HALF, fx_add_s, fx_sub_s, fx_mul_s, fx_add, fx_sub, fx_mul};
use crate::math::{
    Vector3D, v3, v3_zero, v3_add, v3_sub, v3_scale, v3_normalize, v3_dist,
};

verus! {

/// An axis-aligned box given by its two extreme corners.  The constructor
/// from a center and a size keeps `min` below `max` on every axis; a box
/// built directly from corners is the caller's responsibility.
#[derive(Debug, Clone, Copy, PartialEq, Eq, Structural)]
pub struct BoundingBox {
    pub min: Vector3D,
    pub max: Vector3D,
}

pub open spec fn bb_from_center_size(center: Vector3D, size: Vector3D) -> BoundingBox {
    let half = v3_scale(size, FX_HALF as int);
    BoundingBox { min: v3_sub(center, half), max: v3_add(center, half) }
}

/// Separating-axis overlap test: the boxes meet exactly when their intervals
/// overlap on all three axes.
pub open spec fn bb_intersects(a: BoundingBox, b: BoundingBox) -> bool {
    &&& a.min.x <= b.max.x && a.max.x >= b.min.x
    &&& a.min.y <= b.max.y && a.max.y >= b.min.y
    &&& a.min.z <= b.max.z && a.max.z >= b.min.z
}

pub open spec fn bb_contains_point(a: BoundingBox, p: Vector3D) -> bool {
    &&& a.min.x <= p.x <= a.max.x
    &&& a.min.y <= p.y <= a.max.y
    &&& a.min.z <= p.z <= a.max.z
}

pub open spec fn bb_center(a: BoundingBox) -> Vector3D {
    v3_scale(v3_add(a.min, a.max), FX_HALF as int)
}

pub open spec fn bb_size(a: BoundingBox) -> Vector3D {
    v3_sub(a.max, a.min)
}

impl BoundingBox {
    pub fn new(min: Vector3D, max: Vector3D) -> (r: Self)
        ensures
            r == (BoundingBox { min, max }),
    {
        BoundingBox { min, max }
    }

    pub fn from_center_size(center: Vector3D, size: Vector3D) -> (r: Self)
        ensures
            r == bb_from_center_size(center, size),
    {
        let half: Vector3D = size.scale(FX_HALF);
        BoundingBox { min: center.sub(half), max: center.add(half) }
    }

    pub fn intersects(&self, other: &BoundingBox) -> (r: bool)
        ensures
            r == bb_intersects(*self, *other),
    {
        self.min.x <= other.max.x && self.max.x >= other.min.x && self.min.y <= other.max.y
            && self.max.y >= other.min.y && self.min.z <= other.max.z && self.max.z >= other.min.z
    }

    pub fn contains_point(&self, point: Vector3D) -> (r: bool)
        ensures
            r == bb_contains_point(*self, point),
    {
        point.x >= self.min.x && point.x <= self.max.x && point.y >= self.min.y && point.y
            <= self.max.y && point.z >= self.min.z && point.z <= self.max.z
    }

    pub fn center(&self) -> (r: Vector3D)
        ensures
            r == bb_center(*self),
    {
        self.min.add(self.max).scale(FX_HALF)
    }

    pub fn size(&self) -> (r: Vector3D)
        ensures
            r == bb_size(*self),
    {
        self.max.sub(self.min)
    }
}

/// Box overlap is symmetric: `a.intersects(b)` and `b.intersects(a)` agree
/// for every pair of boxes.
pub proof fn lemma_intersects_symmetric(a: BoundingBox, b: BoundingBox)
    ensures
        bb_intersects(a, b) == bb_intersects(b, a),
{
}

/// The kinds of collectible.
#[derive(Debug, Clone, Copy, PartialEq, Eq, Structural)]
pub enum CollectibleType {
    Coin,
    Gem,
    PowerUp,
    HealthPack,
}

/// The states of the enemy's pursuit logic.
#[derive(Debug, Clone, Copy, PartialEq, Eq, Structural)]
pub enum EnemyAIState {
    Idle,
    Patrolling,
    Chasing,
    Attacking,
    Returning,
}

/// The kinds of platform.
#[derive(Debug, Clone, Copy, PartialEq, Eq, Structural)]
pub enum PlatformType {
    Static,
    Moving,
    Breakable,
    Bouncy,
}

/// Clamping of an `i64` intermediate into the `i32` range, used for health
/// and damage bookkeeping.
pub open spec fn clamp_i32_s(x: int) -> int {
    if x > i32::MAX as int {
        i32::MAX as int
    } else if x < i32::MIN as int {
        i32::MIN as int
    } else {
        x
    }
}

fn clamp_i32(x: i64) -> (r: i32)
    ensures
        r as int == clamp_i32_s(x as int),
{
    if x > i32::MAX as i64 {
        i32::MAX
    } else if x < i32::MIN as i64 {
        i32::MIN
    } else {
        x as i32
    }
}

/// The player avatar.
pub struct Player {
    pub name: String,
    pub position: Vector3D,
    pub velocity: Vector3D,
    pub acceleration: Vector3D,
    pub speed: i64,
    pub jump_force: i64,
    pub active: bool,
    pub grounded: bool,
    pub health: i32,
    pub max_health: i32,
    pub size: Vector3D,
}

/// One frame of the player's own motion: accelerate, move, then damp the
/// horizontal velocity and clear the acceleration.
pub open spec fn player_update(p: Player, dt: int) -> Player {
    if p.active {
        let vel = v3_add(p.velocity, v3_scale(p.acceleration, dt));
        let pos = v3_add(p.position, v3_scale(vel, dt));
        Player {
            position: pos,
            velocity: v3(
                fx_mul_s(vel.x as int, 900_000),
                vel.y as int,
                fx_mul_s(vel.z as int, 900_000),
            ),
            acceleration: v3_zero(),
            ..p
        }
    } else {
        p
    }
}

impl Player {
    pub fn new(position: Vector3D) -> (r: Self)
        ensures
            r.position == position,
            r.velocity == v3_zero(),
            r.acceleration == v3_zero(),
            r.speed == 5 * FX_ONE,
            r.jump_force == 10 * FX_ONE,
            r.active,
            !r.grounded,
            r.health == 100,
            r.max_health == 100,
            r.size == v3(FX_ONE as int, 2 * FX_ONE as int, FX_ONE as int),
            r.name@ == "Player"@,
    {
        Player {
            name: "Player".to_owned(),
            position,
            velocity: Vector3D::zero(),
            acceleration: Vector3D::zero(),
            speed: 5 * FX_ONE,
            jump_force: 10 * FX_ONE,
            active: true,
            grounded: false,
            health: 100,
            max_health: 100,
            size: Vector3D::new(FX_ONE, 2 * FX_ONE, FX_ONE),
        }
    }

    pub fn move_forward(&mut self, amount: i64)
        ensures
            *final(self) == (Player {
                velocity: v3(
                    old(self).velocity.x as int,
                    old(self).velocity.y as int,
                    fx_sub_s(old(self).velocity.z as int, fx_mul_s(amount as int, old(self).speed as int)),
                ),
                ..*old(self)
            }),
    {
        self.velocity.z = fx_sub(self.velocity.z, fx_mul(amount, self.speed));
    }

    pub fn move_backward(&mut self, amount: i64)
        ensures
            *final(self) == (Player {
                velocity: v3(
                    old(self).velocity.x as int,
                    old(self).velocity.y as int,
                    fx_add_s(old(self).velocity.z as int, fx_mul_s(amount as int, old(self).speed as int)),
                ),
                ..*old(self)
            }),
    {
        self.velocity.z = fx_add(self.velocity.z, fx_mul(amount, self.speed));
    }

    pub fn move_left(&mut self, amount: i64)
        ensures
            *final(self) == (Player {
                velocity: v3(
                    fx_sub_s(old(self).velocity.x as int, fx_mul_s(amount as int, old(self).speed as int)),
                    old(self).velocity.y as int,
                    old(self).velocity.z as int,
                ),
                ..*old(self)
            }),
    {
        self.velocity.x = fx_sub(self.velocity.x, fx_mul(amount, self.speed));
    }

    pub fn move_right(&mut self, amount: i64)
        ensures
            *final(self) == (Player {
                velocity: v3(
                    fx_add_s(old(self).velocity.x as int, fx_mul_s(amount as int, old(self).speed as int)),
                    old(self).velocity.y as int,
                    old(self).velocity.z as int,
                ),
                ..*old(self)
            }),
    {
        self.velocity.x = fx_add(self.velocity.x, fx_mul(amount, self.speed));
    }

    /// Jumping is possible only from the ground.
    pub fn jump(&mut self)
        ensures
            old(self).grounded ==> *final(self) == (Player {
                velocity: v3(
                    old(self).velocity.x as int,
                    old(self).jump_force as int,
                    old(self).velocity.z as int,
                ),
                grounded: false,
                ..*old(self)
            }),
            !old(self).grounded ==> *final(self) == *old(self),
    {
        if self.grounded {
            self.velocity.y = self.jump_force;
            self.grounded = false;
        }
    }

    /// Gravity pulls on the acceleration while airborne.
    pub fn apply_gravity(&mut self, gravity: i64)
        ensures
            !old(self).grounded ==> *final(self) == (Player {
                acceleration: v3(
                    old(self).acceleration.x as int,
                    fx_sub_s(old(self).acceleration.y as int, gravity as int),
                    old(self).acceleration.z as int,
                ),
                ..*old(self)
            }),
            old(self).grounded ==> *final(self) == *old(self),
    {
        if !self.grounded {
            self.acceleration.y = fx_sub(self.acceleration.y, gravity);
        }
    }

    /// Landing clears the vertical motion.
    pub fn set_grounded(&mut self, grounded: bool)
        ensures
            final(self).grounded == grounded,
            grounded ==> *final(self) == (Player {
                grounded: true,
                velocity: v3(old(self).velocity.x as int, 0, old(self).velocity.z as int),
                acceleration: v3(old(self).acceleration.x as int, 0, old(self).acceleration.z as int),
                ..*old(self)
            }),
            !grounded ==> *final(self) == (Player { grounded: false, ..*old(self) }),
    {
        self.grounded = grounded;
        if grounded {
            self.velocity.y = 0;
            self.acceleration.y = 0;
        }
    }

    pub fn is_grounded(&self) -> (r: bool)
        ensures
            r == self.grounded,
    {
        self.grounded
    }

    /// Deals damage, clamping health at zero; reports whether the player died.
    pub fn take_damage(&mut self, damage: i32) -> (r: bool)
        ensures
            final(self).health as int == clamp_i32_s(
                if old(self).health - damage < 0 { 0 } else { old(self).health - damage },
            ),
            r == (final(self).health <= 0),
            *final(self) == (Player { health: final(self).health, ..*old(self) }),
    {
        let h: i64 = self.health as i64 - damage as i64;
        let h: i64 = if h < 0 { 0 } else { h };
        self.health = clamp_i32(h);
        self.health <= 0
    }

    /// Heals, clamping at the maximum health.
    pub fn heal(&mut self, amount: i32)
        ensures
            final(self).health as int == clamp_i32_s(
                if old(self).health + amount > old(self).max_health {
                    old(self).max_health as int
                } else {
                    old(self).health + amount
                },
            ),
            *final(self) == (Player { health: final(self).health, ..*old(self) }),
    {
        let h: i64 = self.health as i64 + amount as i64;
        let h: i64 = if h > self.max_health as i64 { self.max_health as i64 } else { h };
        self.health = clamp_i32(h);
    }

    pub fn get_health(&self) -> (r: i32)
        ensures
            r == self.health,
    {
        self.health
    }

    pub fn get_max_health(&self) -> (r: i32)
        ensures
            r == self.max_health,
    {
        self.max_health
    }

    /// The health as a fixed-point fraction of the maximum (one means full).
    pub fn get_health_percentage(&self) -> (r: i64)
        ensures
            r as int == crate::fixed::fx_div_s(self.health as int, self.max_health as int),
    {
        crate::fixed::fx_div(self.health as i64, self.max_health as i64)
    }
}

/// A pickup that deactivates once collected.
pub struct Collectible {
    pub name: String,
    pub position: Vector3D,
    pub velocity: Vector3D,
    pub value: i32,
    pub collected: bool,
    pub active: bool,
    pub rotation: i64,
    pub rotation_speed: i64,
    pub bob_offset: i64,
    pub bob_speed: i64,
    pub size: Vector3D,
    pub collectible_type: CollectibleType,
}

/// A full turn, in fixed-point radians.
pub const FX_TWO_PI: i64 = 6_283_185;

/// One frame of a collectible: drift, spin and bob, each angle wrapped at a
/// full turn.
pub open spec fn collectible_update(c: Collectible, dt: int) -> Collectible {
    if c.active && !c.collected {
        let rot = fx_add_s(c.rotation as int, fx_mul_s(c.rotation_speed as int, dt));
        let bob = fx_add_s(c.bob_offset as int, fx_mul_s(c.bob_speed as int, dt));
        Collectible {
            position: v3_add(c.position, v3_scale(c.velocity, dt)),
            rotation: (if rot > FX_TWO_PI as int {
                fx_sub_s(rot, FX_TWO_PI as int)
            } else {
                rot
            }) as i64,
            bob_offset: (if bob > FX_TWO_PI as int {
                fx_sub_s(bob, FX_TWO_PI as int)
            } else {
                bob
            }) as i64,
            ..c
        }
    } else {
        c
    }
}

impl Collectible {
    pub fn new(position: Vector3D, value: i32, collectible_type: CollectibleType) -> (r: Self)
        ensures
            r.position == position,
            r.value == value,
            r.collectible_type == collectible_type,
            r.velocity == v3_zero(),
            !r.collected,
            r.active,
            r.rotation == 0,
            r.rotation_speed == 2 * FX_ONE,
            r.bob_offset == 0,
            r.bob_speed == 3 * FX_ONE,
            r.size == v3(600_000, 600_000, 600_000),
            r.name@ == "Collectible"@,
    {
        Collectible {
            name: "Collectible".to_owned(),
            position,
            velocity: Vector3D::zero(),
            value,
            collected: false,
            active: true,
            rotation: 0,
            rotation_speed: 2 * FX_ONE,
            bob_offset: 0,
            bob_speed: 3 * FX_ONE,
            size: Vector3D::new(600_000, 600_000, 600_000),
            collectible_type,
        }
    }

    pub fn is_collected(&self) -> (r: bool)
        ensures
            r == self.collected,
    {
        self.collected
    }

    /// Collects once: the first call yields the value and deactivates the
    /// pickup, later calls yield nothing.
    pub fn collect(&mut self) -> (r: i32)
        ensures
            final(self).collected,
            !old(self).collected ==> r == old(self).value && !final(self).active,
            old(self).collected ==> r == 0 && *final(self) == *old(self),
            *final(self) == (Collectible {
                collected: true,
                active: final(self).active,
                ..*old(self)
            }),
    {
        if !self.collected {
            self.collected = true;
            self.active = false;
            self.value
        } else {
            0
        }
    }

    pub fn get_value(&self) -> (r: i32)
        ensures
            r == self.value,
    {
        self.value
    }

    pub fn get_type(&self) -> (r: CollectibleType)
        ensures
            r == self.collectible_type,
    {
        self.collectible_type
    }
}

/// A patrolling pursuer.
pub struct Enemy {
    pub name: String,
    pub position: Vector3D,
    pub velocity: Vector3D,
    pub target_position: Option<Vector3D>,
    pub speed: i64,
    pub health: i32,
    pub max_health: i32,
    pub damage: i32,
    pub active: bool,
    pub ai_state: EnemyAIState,
    pub patrol_points: Vec<Vector3D>,
    pub current_patrol_index: usize,
    pub detection_range: i64,
    pub attack_range: i64,
    pub attack_cooldown: i64,
    pub last_attack_time: i64,
    pub size: Vector3D,
}

/// One frame of an enemy: drift along its velocity while alive.
pub open spec fn enemy_update(e: Enemy, dt: int) -> Enemy {
    if e.active && e.health > 0 {
        Enemy { position: v3_add(e.position, v3_scale(e.velocity, dt)), ..e }
    } else {
        e
    }
}

/// Steering toward a point at the enemy's own speed.
pub open spec fn enemy_steer(e: Enemy, target: Vector3D) -> Enemy {
    Enemy { velocity: v3_scale(v3_normalize(v3_sub(target, e.position)), e.speed as int), ..e }
}

/// One patrol decision: advance to the next waypoint when close, else steer
/// toward the current one.
pub open spec fn enemy_patrol(e: Enemy) -> Enemy {
    if e.patrol_points.len() == 0 {
        e
    } else {
        let target = e.patrol_points[e.current_patrol_index as int];
        if v3_dist(e.position, target) < FX_ONE as int {
            Enemy {
                current_patrol_index: ((e.current_patrol_index as int + 1) % (
                e.patrol_points.len() as int)) as usize,
                ..e
            }
        } else {
            enemy_steer(e, target)
        }
    }
}

/// The pursuit state machine, given the player's position and the clock.
pub open spec fn enemy_update_ai_s(e: Enemy, player_position: Vector3D, current_time: int) -> Enemy {
    let d = v3_dist(e.position, player_position);
    match e.ai_state {
        EnemyAIState::Idle => {
            if e.patrol_points.len() > 0 {
                Enemy { ai_state: EnemyAIState::Patrolling, ..e }
            } else if d <= e.detection_range as int {
                Enemy {
                    target_position: Some(player_position),
                    ai_state: EnemyAIState::Chasing,
                    ..e
                }
            } else {
                e
            }
        },
        EnemyAIState::Patrolling => {
            if d <= e.detection_range as int {
                Enemy {
                    target_position: Some(player_position),
                    ai_state: EnemyAIState::Chasing,
                    ..e
                }
            } else {
                enemy_patrol(e)
            }
        },
        EnemyAIState::Chasing => {
            if d > fx_mul_s(e.detection_range as int, 1_500_000) {
                Enemy { target_position: None, ai_state: EnemyAIState::Returning, ..e }
            } else if d <= e.attack_range as int {
                Enemy { ai_state: EnemyAIState::Attacking, ..e }
            } else {
                enemy_steer(
                    Enemy {
                        target_position: Some(player_position),
                        ai_state: EnemyAIState::Chasing,
                        ..e
                    },
                    player_position,
                )
            }
        },
        EnemyAIState::Attacking => {
            if d > e.attack_range as int {
                Enemy { ai_state: EnemyAIState::Chasing, ..e }
            } else {
                e
            }
        },
        EnemyAIState::Returning => {
            if e.patrol_points.len() > 0 {
                let target = e.patrol_points[e.current_patrol_index as int];
                if v3_dist(e.position, target) < FX_ONE as int {
                    Enemy { ai_state: EnemyAIState::Patrolling, ..e }
                } else {
                    enemy_steer(e, target)
                }
            } else {
                Enemy { ai_state: EnemyAIState::Idle, ..e }
            }
        },
    }
}

impl Enemy {
    pub fn new(position: Vector3D) -> (r: Self)
        ensures
            r.position == position,
            r.velocity == v3_zero(),
            r.target_position is None,
            r.speed == 3 * FX_ONE,
            r.health == 50,
            r.max_health == 50,
            r.damage == 10,
            r.active,
            r.ai_state == EnemyAIState::Idle,
            r.patrol_points@ == Seq::<Vector3D>::empty(),
            r.current_patrol_index == 0,
            r.detection_range == 8 * FX_ONE,
            r.attack_range == 2 * FX_ONE,
            r.attack_cooldown == FX_ONE,
            r.last_attack_time == 0,
            r.size == v3(FX_ONE as int, 1_500_000, FX_ONE as int),
            r.name@ == "Enemy"@,
    {
        Enemy {
            name: "Enemy".to_owned(),
            position,
            velocity: Vector3D::zero(),
            target_position: None,
            speed: 3 * FX_ONE,
            health: 50,
            max_health: 50,
            damage: 10,
            active: true,
            ai_state: EnemyAIState::Idle,
            patrol_points: Vec::new(),
            current_patrol_index: 0,
            detection_range: 8 * FX_ONE,
            attack_range: 2 * FX_ONE,
            attack_cooldown: FX_ONE,
            last_attack_time: 0,
            size: Vector3D::new(FX_ONE, 1_500_000, FX_ONE),
        }
    }

    pub fn add_patrol_point(&mut self, point: Vector3D)
        ensures
            final(self).patrol_points@ == old(self).patrol_points@.push(point),
            *final(self) == (Enemy { patrol_points: final(self).patrol_points, ..*old(self) }),
    {
        self.patrol_points.push(point);
    }

    pub fn set_target(&mut self, target: Vector3D)
        ensures
            *final(self) == (Enemy {
                target_position: Some(target),
                ai_state: EnemyAIState::Chasing,
                ..*old(self)
            }),
    {
        self.target_position = Some(target);
        self.ai_state = EnemyAIState::Chasing;
    }

    pub fn clear_target(&mut self)
        ensures
            *final(self) == (Enemy {
                target_position: None,
                ai_state: EnemyAIState::Returning,
                ..*old(self)
            }),
    {
        self.target_position = None;
        self.ai_state = EnemyAIState::Returning;
    }

    /// The cooldown has elapsed.
    pub fn can_attack(&self, current_time: i64) -> (r: bool)
        ensures
            r == (fx_sub_s(current_time as int, self.last_attack_time as int)
                >= self.attack_cooldown as int),
    {
        fx_sub(current_time, self.last_attack_time) >= self.attack_cooldown
    }

    /// Deals the enemy's damage when off cooldown, else nothing.
    pub fn attack(&mut self, current_time: i64) -> (r: i32)
        ensures
            fx_sub_s(current_time as int, old(self).last_attack_time as int)
                >= old(self).attack_cooldown as int ==> r == old(self).damage && *final(self) == (
            Enemy { last_attack_time: current_time, ..*old(self) }),
            fx_sub_s(current_time as int, old(self).last_attack_time as int)
                < old(self).attack_cooldown as int ==> r == 0 && *final(self) == *old(self),
    {
        if self.can_attack(current_time) {
            self.last_attack_time = current_time;
            self.damage
        } else {
            0
        }
    }

    /// Deals damage, clamping health at zero; reports whether the enemy died.
    pub fn take_damage(&mut self, damage: i32) -> (r: bool)
        ensures
            final(self).health as int == clamp_i32_s(
                if old(self).health - damage < 0 { 0 } else { old(self).health - damage },
            ),
            r == (final(self).health <= 0),
            *final(self) == (Enemy { health: final(self).health, ..*old(self) }),
    {
        let h: i64 = self.health as i64 - damage as i64;
        let h: i64 = if h < 0 { 0 } else { h };
        self.health = clamp_i32(h);
        self.health <= 0
    }

    pub fn get_health(&self) -> (r: i32)
        ensures
            r == self.health,
    {
        self.health
    }

    pub fn get_ai_state(&self) -> (r: EnemyAIState)
        ensures
            r == self.ai_state,
    {
        self.ai_state
    }

    fn move_towards(&mut self, target: Vector3D)
        ensures
            *final(self) == enemy_steer(*old(self), target),
    {
        let direction: Vector3D = target.sub(self.position).normalize();
        self.velocity = direction.scale(self.speed);
    }

    fn patrol(&mut self)
        requires
            old(self).patrol_points.len() == 0 || old(self).current_patrol_index < old(
                self,
            ).patrol_points.len(),
        ensures
            *final(self) == enemy_patrol(*old(self)),
    {
        if self.patrol_points.len() == 0 {
            return ;
        }
        let current_target: Vector3D = self.patrol_points[self.current_patrol_index];
        let distance: i64 = self.position.distance(&current_target);
        if distance < FX_ONE {
            self.current_patrol_index = (self.current_patrol_index + 1) % self.patrol_points.len();
        } else {
            self.move_towards(current_target);
        }
    }

    /// Advances the pursuit state machine.
    pub fn update_ai(&mut self, player_position: Vector3D, current_time: i64)
        requires
            old(self).current_patrol_index < old(self).patrol_points.len()
                || old(self).patrol_points.len() == 0,
        ensures
            *final(self) == enemy_update_ai_s(*old(self), player_position, current_time as int),
    {
        let distance_to_player: i64 = self.position.distance(&player_position);
        match self.ai_state {
            EnemyAIState::Idle => {
                if self.patrol_points.len() > 0 {
                    self.ai_state = EnemyAIState::Patrolling;
                } else if distance_to_player <= self.detection_range {
                    self.set_target(player_position);
                }
            },
            EnemyAIState::Patrolling => {
                if distance_to_player <= self.detection_range {
                    self.set_target(player_position);
                } else {
                    self.patrol();
                }
            },
            EnemyAIState::Chasing => {
                if distance_to_player > fx_mul(self.detection_range, 1_500_000) {
                    self.clear_target();
                } else if distance_to_player <= self.attack_range {
                    self.ai_state = EnemyAIState::Attacking;
                } else {
                    self.set_target(player_position);
                    let t: Vector3D = player_position;
                    self.move_towards(t);
                }
            },
            EnemyAIState::Attacking => {
                if distance_to_player > self.attack_range {
                    self.ai_state = EnemyAIState::Chasing;
                }
            },
            EnemyAIState::Returning => {
                if self.patrol_points.len() > 0 {
                    let patrol_point: Vector3D = self.patrol_points[self.current_patrol_index];
                    if self.position.distance(&patrol_point) < FX_ONE {
                        self.ai_state = EnemyAIState::Patrolling;
                    } else {
                        self.move_towards(patrol_point);
                    }
                } else {
                    self.ai_state = EnemyAIState::Idle;
                }
            },
        }
    }
}

/// A standing surface.
pub struct Platform {
    pub name: String,
    pub position: Vector3D,
    pub size: Vector3D,
    pub active: bool,
    pub platform_type: PlatformType,
}

impl Platform {
    pub fn new(size: Vector3D, position: Vector3D, platform_type: PlatformType) -> (r: Self)
        ensures
            r.size == size,
            r.position == position,
            r.platform_type == platform_type,
            r.active,
            r.name@ == "Platform"@,
    {
        Platform {
            name: "Platform".to_owned(),
            position,
            size,
            active: true,
            platform_type,
        }
    }

    pub fn get_type(&self) -> (r: PlatformType)
        ensures
            r == self.platform_type,
    {
        self.platform_type
    }
}

/// `o` is exactly what `Player::new(position)` builds.
pub open spec fn is_new_player(o: GameObject, position: Vector3D) -> bool {
    &&& o matches GameObject::Player(p)
    &&& p.position == position
    &&& p.velocity == v3_zero()
    &&& p.acceleration == v3_zero()
    &&& p.speed == 5 * FX_ONE
    &&& p.jump_force == 10 * FX_ONE
    &&& p.active
    &&& !p.grounded
    &&& p.health == 100
    &&& p.max_health == 100
    &&& p.size == v3(FX_ONE as int, 2 * FX_ONE as int, FX_ONE as int)
    &&& p.name@ == "Player"@
}

/// `o` is exactly what `Collectible::new(position, value, collectible_type)`
/// builds.
pub open spec fn is_new_collectible(
    o: GameObject,
    position: Vector3D,
    value: i32,
    collectible_type: CollectibleType,
) -> bool {
    &&& o matches GameObject::Collectible(c)
    &&& c.position == position
    &&& c.value == value
    &&& c.collectible_type == collectible_type
    &&& c.velocity == v3_zero()
    &&& !c.collected
    &&& c.active
    &&& c.rotation == 0
    &&& c.rotation_speed == 2 * FX_ONE
    &&& c.bob_offset == 0
    &&& c.bob_speed == 3 * FX_ONE
    &&& c.size == v3(600_000, 600_000, 600_000)
    &&& c.name@ == "Collectible"@
}

/// `o` is exactly what `Enemy::new(position)` builds.
pub open spec fn is_new_enemy(o: GameObject, position: Vector3D) -> bool {
    &&& o matches GameObject::Enemy(e)
    &&& e.position == position
    &&& e.velocity == v3_zero()
    &&& e.target_position is None
    &&& e.speed == 3 * FX_ONE
    &&& e.health == 50
    &&& e.max_health == 50
    &&& e.damage == 10
    &&& e.active
    &&& e.ai_state == EnemyAIState::Idle
    &&& e.patrol_points@ == Seq::<Vector3D>::empty()
    &&& e.current_patrol_index == 0
    &&& e.detection_range == 8 * FX_ONE
    &&& e.attack_range == 2 * FX_ONE
    &&& e.attack_cooldown == FX_ONE
    &&& e.last_attack_time == 0
    &&& e.size == v3(FX_ONE as int, 1_500_000, FX_ONE as int)
    &&& e.name@ == "Enemy"@
}

/// `o` is exactly what `Platform::new(size, position, platform_type)` builds.
pub open spec fn is_new_platform(
    o: GameObject,
    size: Vector3D,
    position: Vector3D,
    platform_type: PlatformType,
) -> bool {
    &&& o matches GameObject::Platform(p)
    &&& p.size == size
    &&& p.position == position
    &&& p.platform_type == platform_type
    &&& p.active
    &&& p.name@ == "Platform"@
}

/// A scene member: one of the closed set of object kinds, dispatching the
/// shared capability set.
pub enum GameObject {
    Player(Player),
    Collectible(Collectible),
    Enemy(Enemy),
    Platform(Platform),
}

/// The kind tags of the closed object set, for queries by kind.
#[derive(Debug, Clone, Copy, PartialEq, Eq, Structural)]
pub enum GameObjectKind {
    Player,
    Collectible,
    Enemy,
    Platform,
}

pub open spec fn obj_kind(o: GameObject) -> GameObjectKind {
    match o {
        GameObject::Player(_) => GameObjectKind::Player,
        GameObject::Collectible(_) => GameObjectKind::Collectible,
        GameObject::Enemy(_) => GameObjectKind::Enemy,
        GameObject::Platform(_) => GameObjectKind::Platform,
    }
}

pub open spec fn obj_position(o: GameObject) -> Vector3D {
    match o {
        GameObject::Player(p) => p.position,
        GameObject::Collectible(c) => c.position,
        GameObject::Enemy(e) => e.position,
        GameObject::Platform(p) => p.position,
    }
}

pub open spec fn obj_velocity(o: GameObject) -> Vector3D {
    match o {
        GameObject::Player(p) => p.velocity,
        GameObject::Collectible(c) => c.velocity,
        GameObject::Enemy(e) => e.velocity,
        GameObject::Platform(_) => v3_zero(),
    }
}

pub open spec fn obj_size(o: GameObject) -> Vector3D {
    match o {
        GameObject::Player(p) => p.size,
        GameObject::Collectible(c) => c.size,
        GameObject::Enemy(e) => e.size,
        GameObject::Platform(p) => p.size,
    }
}

/// A collectible reports inactive once collected; an enemy dies at zero
/// health.
pub open spec fn obj_active(o: GameObject) -> bool {
    match o {
        GameObject::Player(p) => p.active,
        GameObject::Collectible(c) => c.active && !c.collected,
        GameObject::Enemy(e) => e.active && e.health > 0,
        GameObject::Platform(p) => p.active,
    }
}

pub open spec fn obj_name(o: GameObject) -> Seq<char> {
    match o {
        GameObject::Player(p) => p.name@,
        GameObject::Collectible(c) => c.name@,
        GameObject::Enemy(e) => e.name@,
        GameObject::Platform(p) => p.name@,
    }
}

pub open spec fn obj_update(o: GameObject, dt: int) -> GameObject {
    match o {
        GameObject::Player(p) => GameObject::Player(player_update(p, dt)),
        GameObject::Collectible(c) => GameObject::Collectible(collectible_update(c, dt)),
        GameObject::Enemy(e) => GameObject::Enemy(enemy_update(e, dt)),
        GameObject::Platform(p) => GameObject::Platform(p),
    }
}

pub open spec fn obj_with_position(o: GameObject, pos: Vector3D) -> GameObject {
    match o {
        GameObject::Player(p) => GameObject::Player(Player { position: pos, ..p }),
        GameObject::Collectible(c) => GameObject::Collectible(Collectible { position: pos, ..c }),
        GameObject::Enemy(e) => GameObject::Enemy(Enemy { position: pos, ..e }),
        GameObject::Platform(p) => GameObject::Platform(Platform { position: pos, ..p }),
    }
}

/// Platforms ignore velocity writes.
pub open spec fn obj_with_velocity(o: GameObject, vel: Vector3D) -> GameObject {
    match o {
        GameObject::Player(p) => GameObject::Player(Player { velocity: vel, ..p }),
        GameObject::Collectible(c) => GameObject::Collectible(Collectible { velocity: vel, ..c }),
        GameObject::Enemy(e) => GameObject::Enemy(Enemy { velocity: vel, ..e }),
        GameObject::Platform(p) => GameObject::Platform(p),
    }
}

pub open spec fn obj_with_active(o: GameObject, active: bool) -> GameObject {
    match o {
        GameObject::Player(p) => GameObject::Player(Player { active, ..p }),
        GameObject::Collectible(c) => GameObject::Collectible(Collectible { active, ..c }),
        GameObject::Enemy(e) => GameObject::Enemy(Enemy { active, ..e }),
        GameObject::Platform(p) => GameObject::Platform(Platform { active, ..p }),
    }
}

/// A collectible touched by the player collects itself; the other kinds
/// leave collision reactions to the surrounding game logic.
pub open spec fn obj_on_collision(o: GameObject, other_name: Seq<char>) -> GameObject {
    match o {
        GameObject::Collectible(c) => {
            if other_name == "Player"@ && !c.collected {
                GameObject::Collectible(Collectible { collected: true, active: false, ..c })
            } else {
                GameObject::Collectible(c)
            }
        },
        _ => o,
    }
}

impl GameObject {
    /// One frame of the object's own animation or motion.
    pub fn update(&mut self, delta_time: i64)
        ensures
            *final(self) == obj_update(*old(self), delta_time as int),
    {
        match self {
            GameObject::Player(p) => {
                if p.active {
                    let vel: Vector3D = p.velocity.add(p.acceleration.scale(delta_time));
                    let pos: Vector3D = p.position.add(vel.scale(delta_time));
                    p.position = pos;
                    p.velocity = Vector3D::new(
                        fx_mul(vel.x, 900_000),
                        vel.y,
                        fx_mul(vel.z, 900_000),
                    );
                    p.acceleration = Vector3D::zero();
                }
            },
            GameObject::Collectible(c) => {
                if c.active && !c.collected {
                    c.position = c.position.add(c.velocity.scale(delta_time));
                    let rot: i64 = fx_add(c.rotation, fx_mul(c.rotation_speed, delta_time));
                    c.rotation = if rot > FX_TWO_PI {
                        fx_sub(rot, FX_TWO_PI)
                    } else {
                        rot
                    };
                    let bob: i64 = fx_add(c.bob_offset, fx_mul(c.bob_speed, delta_time));
                    c.bob_offset = if bob > FX_TWO_PI {
                        fx_sub(bob, FX_TWO_PI)
                    } else {
                        bob
                    };
                }
            },
            GameObject::Enemy(e) => {
                if e.active && e.health > 0 {
                    e.position = e.position.add(e.velocity.scale(delta_time));
                }
            },
            GameObject::Platform(_) => {},
        }
    }

    pub fn get_position(&self) -> (r: Vector3D)
        ensures
            r == obj_position(*self),
    {
        match self {
            GameObject::Player(p) => p.position,
            GameObject::Collectible(c) => c.position,
            GameObject::Enemy(e) => e.position,
            GameObject::Platform(p) => p.position,
        }
    }

    pub fn set_position(&mut self, position: Vector3D)
        ensures
            *final(self) == obj_with_position(*old(self), position),
    {
        match self {
            GameObject::Player(p) => p.position = position,
            GameObject::Collectible(c) => c.position = position,
            GameObject::Enemy(e) => e.position = position,
            GameObject::Platform(p) => p.position = position,
        }
    }

    pub fn get_velocity(&self) -> (r: Vector3D)
        ensures
            r == obj_velocity(*self),
    {
        match self {
            GameObject::Player(p) => p.velocity,
            GameObject::Collectible(c) => c.velocity,
            GameObject::Enemy(e) => e.velocity,
            GameObject::Platform(_) => Vector3D::zero(),
        }
    }

    pub fn set_velocity(&mut self, velocity: Vector3D)
        ensures
            *final(self) == obj_with_velocity(*old(self), velocity),
    {
        match self {
            GameObject::Player(p) => p.velocity = velocity,
            GameObject::Collectible(c) => c.velocity = velocity,
            GameObject::Enemy(e) => e.velocity = velocity,
            GameObject::Platform(_) => {},
        }
    }

    pub fn is_active(&self) -> (r: bool)
        ensures
            r == obj_active(*self),
    {
        match self {
            GameObject::Player(p) => p.active,
            GameObject::Collectible(c) => c.active && !c.collected,
            GameObject::Enemy(e) => e.active && e.health > 0,
            GameObject::Platform(p) => p.active,
        }
    }

    pub fn set_active(&mut self, active: bool)
        ensures
            *final(self) == obj_with_active(*old(self), active),
    {
        match self {
            GameObject::Player(p) => p.active = active,
            GameObject::Collectible(c) => c.active = active,
            GameObject::Enemy(e) => e.active = active,
            GameObject::Platform(p) => p.active = active,
        }
    }

    pub fn get_name(&self) -> (r: &str)
        ensures
            r@ == obj_name(*self),
    {
        match self {
            GameObject::Player(p) => p.name.as_str(),
            GameObject::Collectible(c) => c.name.as_str(),
            GameObject::Enemy(e) => e.name.as_str(),
            GameObject::Platform(p) => p.name.as_str(),
        }
    }

    /// Which of the closed kinds this object is.
    pub fn kind(&self) -> (r: GameObjectKind)
        ensures
            r == obj_kind(*self),
    {
        match self {
            GameObject::Player(_) => GameObjectKind::Player,
            GameObject::Collectible(_) => GameObjectKind::Collectible,
            GameObject::Enemy(_) => GameObjectKind::Enemy,
            GameObject::Platform(_) => GameObjectKind::Platform,
        }
    }

    pub fn get_size(&self) -> (r: Vector3D)
        ensures
            r == obj_size(*self),
    {
        match self {
            GameObject::Player(p) => p.size,
            GameObject::Collectible(c) => c.size,
            GameObject::Enemy(e) => e.size,
            GameObject::Platform(p) => p.size,
        }
    }

    /// The bounding box derived from the current position and size.
    pub fn get_bounds(&self) -> (r: BoundingBox)
        ensures
            r == bb_from_center_size(obj_position(*self), obj_size(*self)),
    {
        BoundingBox::from_center_size(self.get_position(), self.get_size())
    }

    /// Reaction to touching another object.
    pub fn on_collision(&mut self, other: &GameObject)
        ensures
            *final(self) == obj_on_collision(*old(self), obj_name(*other)),
    {
        match self {
            GameObject::Collectible(c) => {
                if crate::str_eq(other.get_name(), "Player") && !c.collected {
                    c.collected = true;
                    c.active = false;
                }
            },
            _ => {},
        }
    }
}

} // verus!
