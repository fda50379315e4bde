//! The rigid-body physics world.
//!
//! The world owns a handle-keyed set of axis-aligned bodies and advances them
//! on a fixed timestep: per sub-step it applies global forces, integrates
//! velocities, detects pairwise box overlaps, resolves them with a
//! center-to-center impulse, and integrates positions — in that order, which
//! is load-bearing.  Bodies are stored in a vector ordered by their (strictly
//! increasing, never reused) handles, so iteration order — and with it the
//! whole simulation — is deterministic.
//!
//! The collision normal is the normalized center-to-center direction, a
//! deliberate simplification (not face-accurate), and the broad phase is an
//! exhaustive pairwise scan, acceptable only at small body counts.

use vstd::prelude::*;
use crate::fixed::{
    FX_ONE, FX_HALF, div_t, sqrt_i, fx_add_s, fx_sub_s, fx_neg_s, fx_mul_s, fx_div_s,
    fx_add, fx_sub, fx_neg, fx_mul, fx_div,
};
use crate::math::{
    Vector3D, v3, v3_zero, v3_add, v3_sub, v3_scale, v3_dot, v3_mag, v3_normalize, v3_clamp_mag,
};
use crate::fixed::abs_v;
use crate::objects::{BoundingBox, bb_from_center_size, bb_intersects, bb_center, bb_size};

verus! {

/// How a body takes part in the simulation.
#[derive(Debug, Clone, Copy, PartialEq, Eq, Structural)]
pub enum RigidBodyType {
    /// Never moves.
    Static,
    /// Moves only when its position is set from outside; force-immune.
    Kinematic,
    /// Fully simulated.
    Dynamic,
}

/// The physical state of one body.  A Static body's mass stands at the
/// `i64` maximum — the fixed-point stand-in for an effectively infinite
/// mass, whose inverse is zero.
#[derive(Debug, Clone, Copy, PartialEq, Eq, Structural)]
pub struct RigidBody {
    pub position: Vector3D,
    pub velocity: Vector3D,
    pub force: Vector3D,
    pub mass: i64,
    /// Bounciness: zero is fully inelastic, one (`FX_ONE`) fully elastic.
    pub restitution: i64,
    pub size: Vector3D,
    pub body_type: RigidBodyType,
    pub use_gravity: bool,
    /// A trigger reports overlap but never takes part in impulse response.
    pub is_trigger: bool,
    pub grounded: bool,
    /// Speed cap; zero means unlimited.
    pub max_velocity: i64,
}

/// The smallest mass the setter accepts, to keep the inverse mass sane.
pub const MIN_MASS: i64 = 1_000;

/// The default restitution of a fresh body (0.3).
pub const DEFAULT_RESTITUTION: i64 = 300_000;

pub open spec fn body_bounds(b: RigidBody) -> BoundingBox {
    bb_from_center_size(b.position, b.size)
}

impl RigidBody {
    /// A fresh Dynamic body of unit mass under gravity.
    pub fn new(position: Vector3D, size: Vector3D) -> (r: Self)
        ensures
            r == (RigidBody {
                position,
                velocity: v3_zero(),
                force: v3_zero(),
                mass: FX_ONE,
                restitution: DEFAULT_RESTITUTION,
                size,
                body_type: RigidBodyType::Dynamic,
                use_gravity: true,
                is_trigger: false,
                grounded: false,
                max_velocity: 0,
            }),
    {
        RigidBody {
            position,
            velocity: Vector3D::zero(),
            force: Vector3D::zero(),
            mass: FX_ONE,
            restitution: DEFAULT_RESTITUTION,
            size,
            body_type: RigidBodyType::Dynamic,
            use_gravity: true,
            is_trigger: false,
            grounded: false,
            max_velocity: 0,
        }
    }

    /// An immovable body: infinite mass, no gravity.
    pub fn new_static(position: Vector3D, size: Vector3D) -> (r: Self)
        ensures
            r == (RigidBody {
                body_type: RigidBodyType::Static,
                use_gravity: false,
                mass: i64::MAX,
                ..RigidBody {
                    position,
                    velocity: v3_zero(),
                    force: v3_zero(),
                    mass: FX_ONE,
                    restitution: DEFAULT_RESTITUTION,
                    size,
                    body_type: RigidBodyType::Dynamic,
                    use_gravity: true,
                    is_trigger: false,
                    grounded: false,
                    max_velocity: 0,
                }
            }),
    {
        let mut body: RigidBody = RigidBody::new(position, size);
        body.body_type = RigidBodyType::Static;
        body.use_gravity = false;
        body.mass = i64::MAX;
        body
    }

    /// An externally driven body: force-immune but movable.
    pub fn new_kinematic(position: Vector3D, size: Vector3D) -> (r: Self)
        ensures
            r == (RigidBody {
                body_type: RigidBodyType::Kinematic,
                use_gravity: false,
                ..RigidBody {
                    position,
                    velocity: v3_zero(),
                    force: v3_zero(),
                    mass: FX_ONE,
                    restitution: DEFAULT_RESTITUTION,
                    size,
                    body_type: RigidBodyType::Dynamic,
                    use_gravity: true,
                    is_trigger: false,
                    grounded: false,
                    max_velocity: 0,
                }
            }),
    {
        let mut body: RigidBody = RigidBody::new(position, size);
        body.body_type = RigidBodyType::Kinematic;
        body.use_gravity = false;
        body
    }

    /// An overlap sensor: it detects contacts but never responds to them.
    pub fn new_trigger(position: Vector3D, size: Vector3D) -> (r: Self)
        ensures
            r == (RigidBody {
                is_trigger: true,
                use_gravity: false,
                ..RigidBody {
                    position,
                    velocity: v3_zero(),
                    force: v3_zero(),
                    mass: FX_ONE,
                    restitution: DEFAULT_RESTITUTION,
                    size,
                    body_type: RigidBodyType::Dynamic,
                    use_gravity: true,
                    is_trigger: false,
                    grounded: false,
                    max_velocity: 0,
                }
            }),
    {
        let mut body: RigidBody = RigidBody::new(position, size);
        body.is_trigger = true;
        body.use_gravity = false;
        body
    }

    /// Accumulates a force; only Dynamic bodies take forces.
    pub fn add_force(&mut self, force: Vector3D)
        ensures
            old(self).body_type == RigidBodyType::Dynamic ==> *final(self) == (RigidBody {
                force: v3_add(old(self).force, force),
                ..*old(self)
            }),
            old(self).body_type != RigidBodyType::Dynamic ==> *final(self) == *old(self),
    {
        if self.body_type == RigidBodyType::Dynamic {
            self.force = self.force.add(force);
        }
    }

    /// Changes velocity at once by `impulse / mass`; only Dynamic bodies
    /// take impulses.
    pub fn add_impulse(&mut self, impulse: Vector3D)
        ensures
            old(self).body_type == RigidBodyType::Dynamic ==> *final(self) == (RigidBody {
                velocity: v3_add(
                    old(self).velocity,
                    v3_scale(impulse, fx_div_s(FX_ONE as int, old(self).mass as int)),
                ),
                ..*old(self)
            }),
            old(self).body_type != RigidBodyType::Dynamic ==> *final(self) == *old(self),
    {
        if self.body_type == RigidBodyType::Dynamic {
            self.velocity = self.velocity.add(impulse.scale(fx_div(FX_ONE, self.mass)));
        }
    }

    /// Sets the velocity; Static bodies never move.
    pub fn set_velocity(&mut self, velocity: Vector3D)
        ensures
            old(self).body_type != RigidBodyType::Static ==> *final(self) == (RigidBody {
                velocity,
                ..*old(self)
            }),
            old(self).body_type == RigidBodyType::Static ==> *final(self) == *old(self),
    {
        if self.body_type != RigidBodyType::Static {
            self.velocity = velocity;
        }
    }

    /// The bounding box derived from the current position and size, computed
    /// afresh on every call.
    pub fn get_bounds(&self) -> (r: BoundingBox)
        ensures
            r == body_bounds(*self),
    {
        BoundingBox::from_center_size(self.position, self.size)
    }

    /// Sets the mass of a Dynamic body, floored at `MIN_MASS` so its inverse
    /// stays bounded.
    pub fn set_mass(&mut self, mass: i64)
        ensures
            old(self).body_type == RigidBodyType::Dynamic ==> *final(self) == (RigidBody {
                mass: if mass > MIN_MASS { mass } else { MIN_MASS },
                ..*old(self)
            }),
            old(self).body_type != RigidBodyType::Dynamic ==> *final(self) == *old(self),
    {
        if self.body_type == RigidBodyType::Dynamic {
            self.mass = if mass > MIN_MASS {
                mass
            } else {
                MIN_MASS
            };
        }
    }

    /// Sets the restitution, clamped into `[0, 1]`.
    pub fn set_restitution(&mut self, restitution: i64)
        ensures
            *final(self) == (RigidBody {
                restitution: crate::math::clamp_s(restitution as int, 0, FX_ONE as int) as i64,
                ..*old(self)
            }),
    {
        self.restitution = crate::math::clamp(restitution, 0, FX_ONE);
    }
}

/// Surface properties bundled for convenience.
#[derive(Debug, Clone, Copy, PartialEq, Eq, Structural)]
pub struct PhysicsMaterial {
    pub friction: i64,
    pub restitution: i64,
    pub density: i64,
}

impl PhysicsMaterial {
    /// Friction and restitution are clamped into `[0, 1]`; density is floored
    /// at `MIN_MASS`.
    pub fn new(friction: i64, restitution: i64, density: i64) -> (r: Self)
        ensures
            r.friction as int == crate::math::clamp_s(friction as int, 0, FX_ONE as int),
            r.restitution as int == crate::math::clamp_s(restitution as int, 0, FX_ONE as int),
            r.density == if density > MIN_MASS { density } else { MIN_MASS },
    {
        PhysicsMaterial {
            friction: crate::math::clamp(friction, 0, FX_ONE),
            restitution: crate::math::clamp(restitution, 0, FX_ONE),
            density: if density > MIN_MASS {
                density
            } else {
                MIN_MASS
            },
        }
    }

    pub fn default() -> (r: Self)
        ensures
            r == (PhysicsMaterial { friction: 500_000, restitution: 300_000, density: FX_ONE }),
    {
        PhysicsMaterial::new(500_000, 300_000, FX_ONE)
    }

    pub fn ice() -> (r: Self)
        ensures
            r == (PhysicsMaterial { friction: 100_000, restitution: 100_000, density: 900_000 }),
    {
        PhysicsMaterial::new(100_000, 100_000, 900_000)
    }

    pub fn rubber() -> (r: Self)
        ensures
            r == (PhysicsMaterial { friction: 800_000, restitution: 900_000, density: 1_200_000 }),
    {
        PhysicsMaterial::new(800_000, 900_000, 1_200_000)
    }

    pub fn metal() -> (r: Self)
        ensures
            r == (PhysicsMaterial { friction: 300_000, restitution: 200_000, density: 7_800_000 }),
    {
        PhysicsMaterial::new(300_000, 200_000, 7_800_000)
    }

    pub fn wood() -> (r: Self)
        ensures
            r == (PhysicsMaterial { friction: 600_000, restitution: 400_000, density: 600_000 }),
    {
        PhysicsMaterial::new(600_000, 400_000, 600_000)
    }
}

/// A bit mask filtering which groups of bodies may collide.
#[derive(Debug, Clone, Copy, PartialEq, Eq, Structural)]
pub struct CollisionLayer(pub u32);

impl CollisionLayer {
    /// The built-in layers, one bit each.
    pub fn default_layer() -> (r: Self)
        ensures
            r == CollisionLayer(1u32),
    {
        CollisionLayer(1)
    }

    pub fn player() -> (r: Self)
        ensures
            r == CollisionLayer(2u32),
    {
        CollisionLayer(2)
    }

    pub fn enemy() -> (r: Self)
        ensures
            r == CollisionLayer(4u32),
    {
        CollisionLayer(4)
    }

    pub fn environment() -> (r: Self)
        ensures
            r == CollisionLayer(8u32),
    {
        CollisionLayer(8)
    }

    pub fn projectile() -> (r: Self)
        ensures
            r == CollisionLayer(16u32),
    {
        CollisionLayer(16)
    }

    pub fn trigger() -> (r: Self)
        ensures
            r == CollisionLayer(32u32),
    {
        CollisionLayer(32)
    }

    /// Two layers intersect when they share a bit.
    pub fn intersects(&self, other: CollisionLayer) -> (r: bool)
        ensures
            r == (self.0 & other.0 != 0),
    {
        (self.0 & other.0) != 0
    }
}

/// What a ray found: the entry point on the body's box, the face normal
/// there, the distance from the origin, and the body's handle.
#[derive(Debug, Clone, Copy, PartialEq, Eq, Structural)]
pub struct RaycastHit {
    pub point: Vector3D,
    pub normal: Vector3D,
    pub distance: i64,
    pub body_id: usize,
}

/// One body under its handle.
#[derive(Debug, Clone, Copy, PartialEq, Eq, Structural)]
pub struct BodyEntry {
    pub id: usize,
    pub body: RigidBody,
}

/// The duration of one fixed sub-step: a sixtieth of a second.
pub const FIXED_DT: i64 = 16_667;

/// How far two resolved bodies are pushed apart along the collision normal
/// (0.01 units), to prevent persistent overlap.
pub const SEPARATION: i64 = 10_000;

/// The default downward gravity (9.81 units per second squared).
pub const DEFAULT_GRAVITY_Y: i64 = -9_810_000;

/// The default quadratic air-resistance coefficient (0.01).
pub const DEFAULT_AIR_RESISTANCE: i64 = 10_000;

/// The default ground-friction coefficient (0.8).
pub const DEFAULT_GROUND_FRICTION: i64 = 800_000;

/// The world: every body under its handle, the global force coefficients,
/// and the leftover-time accumulator that decouples the caller's frame delta
/// from the fixed sub-step.
pub struct PhysicsWorld {
    pub gravity: Vector3D,
    pub air_resistance: i64,
    pub ground_friction: i64,
    pub collision_pairs: Vec<(usize, usize)>,
    pub rigid_bodies: Vec<BodyEntry>,
    pub next_id: usize,
    pub time_accumulator: i64,
    pub fixed_timestep: i64,
}

/// The world as mathematics: the same fields over unbounded integers and
/// sequences.
pub ghost struct WorldModel {
    pub gravity: Vector3D,
    pub air_resistance: int,
    pub ground_friction: int,
    pub pairs: Seq<(usize, usize)>,
    pub bodies: Seq<BodyEntry>,
    pub next_id: int,
    pub time_accumulator: int,
    pub fixed_timestep: int,
}

/// The first index holding `id`, or minus one.
pub open spec fn find_idx(s: Seq<BodyEntry>, id: usize) -> int
    decreases s.len(),
{
    if s.len() == 0 {
        -1
    } else if s[0].id == id {
        0
    } else {
        let r = find_idx(s.drop_first(), id);
        if r < 0 {
            -1
        } else {
            r + 1
        }
    }
}

/// The body under `id`, if any.
pub open spec fn lookup_body(s: Seq<BodyEntry>, id: usize) -> Option<RigidBody> {
    let i = find_idx(s, id);
    if i >= 0 {
        Some(s[i].body)
    } else {
        None
    }
}

/// `find_idx` points at the first occurrence.
pub proof fn lemma_find_idx_is(s: Seq<BodyEntry>, id: usize, k: int)
    requires
        0 <= k < s.len(),
        s[k].id == id,
        forall|m: int| 0 <= m < k ==> s[m].id != id,
    ensures
        find_idx(s, id) == k,
    decreases k,
{
    if s[0].id == id {
        assert(k == 0);
    } else {
        assert(forall|m: int|
            0 <= m < k - 1 ==> #[trigger] s.drop_first()[m].id == s[m + 1].id && s[m + 1].id
                != id);
        lemma_find_idx_is(s.drop_first(), id, k - 1);
    }
}

/// Without an occurrence, `find_idx` is minus one.
pub proof fn lemma_find_idx_none(s: Seq<BodyEntry>, id: usize)
    requires
        forall|m: int| 0 <= m < s.len() ==> s[m].id != id,
    ensures
        find_idx(s, id) == -1,
    decreases s.len(),
{
    if s.len() > 0 {
        assert(forall|m: int|
            0 <= m < s.len() - 1 ==> #[trigger] s.drop_first()[m].id == s[m + 1].id && s[m + 1].id
                != id);
        lemma_find_idx_none(s.drop_first(), id);
    }
}

/// Where `find_idx` points, `id` stands; before it, it does not.
pub proof fn lemma_find_idx_bounds(s: Seq<BodyEntry>, id: usize)
    ensures
        find_idx(s, id) == -1 || (0 <= find_idx(s, id) < s.len() && s[find_idx(s, id)].id == id),
        find_idx(s, id) == -1 ==> forall|m: int| 0 <= m < s.len() ==> s[m].id != id,
    decreases s.len(),
{
    if s.len() > 0 && s[0].id != id {
        lemma_find_idx_bounds(s.drop_first(), id);
        assert(forall|m: int|
            0 <= m < s.len() - 1 ==> #[trigger] s.drop_first()[m] == s[m + 1]);
        if find_idx(s, id) == -1 {
            assert forall|m: int| 0 <= m < s.len() implies s[m].id != id by {
                if m > 0 {
                    assert(s.drop_first()[m - 1] == s[m]);
                }
            }
        }
    }
}

impl PhysicsWorld {
    pub open spec fn model(self) -> WorldModel {
        WorldModel {
            gravity: self.gravity,
            air_resistance: self.air_resistance as int,
            ground_friction: self.ground_friction as int,
            pairs: self.collision_pairs@,
            bodies: self.rigid_bodies@,
            next_id: self.next_id as int,
            time_accumulator: self.time_accumulator as int,
            fixed_timestep: self.fixed_timestep as int,
        }
    }

    /// Validity: the sub-step duration is the fixed one, and the handles are
    /// strictly increasing and below the counter (so they are unique and
    /// never reused).
    pub open spec fn wf(self) -> bool {
        &&& self.fixed_timestep == FIXED_DT
        &&& forall|i: int, j: int|
            0 <= i < j < self.rigid_bodies@.len() ==> (#[trigger] self.rigid_bodies@[i].id) < (
            #[trigger] self.rigid_bodies@[j].id)
        &&& forall|i: int|
            0 <= i < self.rigid_bodies@.len() ==> (#[trigger] self.rigid_bodies@[i].id) < self.next_id
    }

    /// An empty world under default gravity, drag and friction.
    pub fn new() -> (r: Self)
        ensures
            r.wf(),
            fresh_world(r),
    {
        PhysicsWorld {
            gravity: Vector3D::new(0, DEFAULT_GRAVITY_Y, 0),
            air_resistance: DEFAULT_AIR_RESISTANCE,
            ground_friction: DEFAULT_GROUND_FRICTION,
            collision_pairs: Vec::new(),
            rigid_bodies: Vec::new(),
            next_id: 0,
            time_accumulator: 0,
            fixed_timestep: FIXED_DT,
        }
    }

    /// Inserts a body under a fresh handle, which is returned.  Handles grow
    /// monotonically and are never reused, also not after a removal.
    pub fn add_rigid_body(&mut self, body: RigidBody) -> (id: usize)
        requires
            old(self).next_id < usize::MAX,
        ensures
            id == old(self).next_id,
            final(self).rigid_bodies@ == old(self).rigid_bodies@.push(BodyEntry { id, body }),
            final(self).next_id == old(self).next_id + 1,
            final(self).model() == (WorldModel {
                bodies: final(self).rigid_bodies@,
                next_id: final(self).next_id as int,
                ..old(self).model()
            }),
            old(self).wf() ==> final(self).wf(),
    {
        let id: usize = self.next_id;
        self.next_id = self.next_id + 1;
        self.rigid_bodies.push(BodyEntry { id, body });
        id
    }

    /// Removes the body under `id`; absent handles are a silent no-op.
    pub fn remove_rigid_body(&mut self, id: usize)
        ensures
            final(self).rigid_bodies@ == (if find_idx(old(self).rigid_bodies@, id) >= 0 {
                old(self).rigid_bodies@.remove(find_idx(old(self).rigid_bodies@, id))
            } else {
                old(self).rigid_bodies@
            }),
            final(self).model() == (WorldModel {
                bodies: final(self).rigid_bodies@,
                ..old(self).model()
            }),
            old(self).wf() ==> final(self).wf(),
    {
        let ghost s = self.rigid_bodies@;
        let n: usize = self.rigid_bodies.len();
        let mut i: usize = 0;
        while i < n
            invariant
                i <= n == self.rigid_bodies.len(),
                self.rigid_bodies@ == s,
                forall|m: int| 0 <= m < i ==> s[m].id != id,
                *self == *old(self),
            decreases n - i,
        {
            if self.rigid_bodies[i].id == id {
                proof {
                    lemma_find_idx_is(s, id, i as int);
                }
                self.rigid_bodies.remove(i);
                proof {
                    let t = self.rigid_bodies@;
                    assert forall|a: int| 0 <= a < t.len() implies #[trigger] t[a] == (if a
                        < i as int {
                        s[a]
                    } else {
                        s[a + 1]
                    }) by {}
                    if old(self).wf() {
                        assert(self.wf());
                    }
                }
                return ;
            }
            i = i + 1;
        }
        proof {
            lemma_find_idx_none(s, id);
        }
    }

    /// The body under `id`, if it is live.
    pub fn get_rigid_body(&self, id: usize) -> (r: Option<&RigidBody>)
        ensures
            match r {
                Some(b) => lookup_body(self.rigid_bodies@, id) == Some(*b),
                None => lookup_body(self.rigid_bodies@, id) is None,
            },
    {
        let ghost s = self.rigid_bodies@;
        let n: usize = self.rigid_bodies.len();
        let mut i: usize = 0;
        while i < n
            invariant
                i <= n == self.rigid_bodies.len(),
                self.rigid_bodies@ == s,
                forall|m: int| 0 <= m < i ==> s[m].id != id,
            decreases n - i,
        {
            if self.rigid_bodies[i].id == id {
                proof {
                    lemma_find_idx_is(s, id, i as int);
                }
                return Some(&self.rigid_bodies[i].body);
            }
            i = i + 1;
        }
        proof {
            lemma_find_idx_none(s, id);
        }
        None
    }

    /// A mutable borrow of the body under `id`, if it is live.  The caller
    /// may change the body's state; the handle, every other body and the
    /// world's own bookkeeping stay put, so validity survives the borrow.
    pub fn get_rigid_body_mut(&mut self, id: usize) -> (r: Option<&mut RigidBody>)
        ensures
            find_idx(old(self).rigid_bodies@, id) == -1 ==> r is None && *final(self) == *old(
                self,
            ),
            find_idx(old(self).rigid_bodies@, id) >= 0 ==> ({
                let j = find_idx(old(self).rigid_bodies@, id);
                &&& r matches Some(b)
                &&& *b == old(self).rigid_bodies@[j].body
                &&& final(self).rigid_bodies@.len() == old(self).rigid_bodies@.len()
                &&& forall|k: int|
                    0 <= k < old(self).rigid_bodies@.len() && k != j
                        ==> final(self).rigid_bodies@[k] == old(self).rigid_bodies@[k]
                &&& final(self).rigid_bodies@[j].id == id
                &&& final(self).rigid_bodies@[j].body == *final(b)
                &&& final(self).model() == (WorldModel {
                    bodies: final(self).rigid_bodies@,
                    ..old(self).model()
                })
                &&& (old(self).wf() ==> final(self).wf())
            }),
    {
        let ghost s = self.rigid_bodies@;
        let n: usize = self.rigid_bodies.len();
        let mut i: usize = 0;
        while i < n
            invariant
                i <= n == self.rigid_bodies.len(),
                self.rigid_bodies@ == s,
                forall|m: int| 0 <= m < i ==> s[m].id != id,
                *self == *old(self),
            decreases n - i,
        {
            if self.rigid_bodies[i].id == id {
                proof {
                    lemma_find_idx_is(s, id, i as int);
                }
                return Some(&mut self.rigid_bodies[i].body);
            }
            i = i + 1;
        }
        proof {
            lemma_find_idx_none(s, id);
        }
        None
    }

    /// The index of the body under `id`, if it is live.
    fn find_body_index(&self, id: usize) -> (r: Option<usize>)
        ensures
            match r {
                Some(i) => find_idx(self.rigid_bodies@, id) == i as int && i < self.rigid_bodies@.len()
                    && self.rigid_bodies@[i as int].id == id,
                None => find_idx(self.rigid_bodies@, id) == -1,
            },
    {
        let ghost s = self.rigid_bodies@;
        let n: usize = self.rigid_bodies.len();
        let mut i: usize = 0;
        while i < n
            invariant
                i <= n == self.rigid_bodies.len(),
                self.rigid_bodies@ == s,
                forall|m: int| 0 <= m < i ==> s[m].id != id,
            decreases n - i,
        {
            if self.rigid_bodies[i].id == id {
                proof {
                    lemma_find_idx_is(s, id, i as int);
                }
                return Some(i);
            }
            i = i + 1;
        }
        proof {
            lemma_find_idx_none(s, id);
        }
        None
    }

    /// Applies a force to the body under `id` (a no-op for absent handles or
    /// non-Dynamic bodies).
    pub fn body_add_force(&mut self, id: usize, force: Vector3D)
        ensures
            final(self).rigid_bodies@ == body_updated(
                old(self).rigid_bodies@,
                id,
                forced_body(lookup_body(old(self).rigid_bodies@, id), force),
            ),
            final(self).model() == (WorldModel {
                bodies: final(self).rigid_bodies@,
                ..old(self).model()
            }),
            old(self).wf() ==> final(self).wf(),
    {
        let idx: Option<usize> = self.find_body_index(id);
        match idx {
            Some(i) => {
                let e: BodyEntry = self.rigid_bodies[i];
                let mut b: RigidBody = e.body;
                b.add_force(force);
                self.rigid_bodies.set(i, BodyEntry { id: e.id, body: b });
                proof {
                    assert(self.rigid_bodies@ =~= body_updated(
                        old(self).rigid_bodies@,
                        id,
                        forced_body(lookup_body(old(self).rigid_bodies@, id), force),
                    ));
                    if old(self).wf() {
                        lemma_same_ids_wf(*old(self), *self);
                    }
                }
            },
            None => {
                proof {
                    assert(self.rigid_bodies@ =~= body_updated(
                        old(self).rigid_bodies@,
                        id,
                        forced_body(lookup_body(old(self).rigid_bodies@, id), force),
                    ));
                }
            },
        }
    }

    /// Applies an impulse to the body under `id` (a no-op for absent handles
    /// or non-Dynamic bodies).
    pub fn body_add_impulse(&mut self, id: usize, impulse: Vector3D)
        ensures
            final(self).rigid_bodies@ == body_updated(
                old(self).rigid_bodies@,
                id,
                impulsed_body(lookup_body(old(self).rigid_bodies@, id), impulse),
            ),
            final(self).model() == (WorldModel {
                bodies: final(self).rigid_bodies@,
                ..old(self).model()
            }),
            old(self).wf() ==> final(self).wf(),
    {
        let idx: Option<usize> = self.find_body_index(id);
        match idx {
            Some(i) => {
                let e: BodyEntry = self.rigid_bodies[i];
                let mut b: RigidBody = e.body;
                b.add_impulse(impulse);
                self.rigid_bodies.set(i, BodyEntry { id: e.id, body: b });
                proof {
                    assert(self.rigid_bodies@ =~= body_updated(
                        old(self).rigid_bodies@,
                        id,
                        impulsed_body(lookup_body(old(self).rigid_bodies@, id), impulse),
                    ));
                    if old(self).wf() {
                        lemma_same_ids_wf(*old(self), *self);
                    }
                }
            },
            None => {
                proof {
                    assert(self.rigid_bodies@ =~= body_updated(
                        old(self).rigid_bodies@,
                        id,
                        impulsed_body(lookup_body(old(self).rigid_bodies@, id), impulse),
                    ));
                }
            },
        }
    }

    /// Sets the velocity of the body under `id` (a no-op for absent handles
    /// or Static bodies).
    pub fn body_set_velocity(&mut self, id: usize, velocity: Vector3D)
        ensures
            final(self).rigid_bodies@ == body_updated(
                old(self).rigid_bodies@,
                id,
                velocity_set_body(lookup_body(old(self).rigid_bodies@, id), velocity),
            ),
            final(self).model() == (WorldModel {
                bodies: final(self).rigid_bodies@,
                ..old(self).model()
            }),
            old(self).wf() ==> final(self).wf(),
    {
        let idx: Option<usize> = self.find_body_index(id);
        match idx {
            Some(i) => {
                let e: BodyEntry = self.rigid_bodies[i];
                let mut b: RigidBody = e.body;
                b.set_velocity(velocity);
                self.rigid_bodies.set(i, BodyEntry { id: e.id, body: b });
                proof {
                    assert(self.rigid_bodies@ =~= body_updated(
                        old(self).rigid_bodies@,
                        id,
                        velocity_set_body(lookup_body(old(self).rigid_bodies@, id), velocity),
                    ));
                    if old(self).wf() {
                        lemma_same_ids_wf(*old(self), *self);
                    }
                }
            },
            None => {
                proof {
                    assert(self.rigid_bodies@ =~= body_updated(
                        old(self).rigid_bodies@,
                        id,
                        velocity_set_body(lookup_body(old(self).rigid_bodies@, id), velocity),
                    ));
                }
            },
        }
    }

    pub fn set_gravity(&mut self, gravity: Vector3D)
        ensures
            final(self).model() == (WorldModel { gravity, ..old(self).model() }),
            old(self).wf() ==> final(self).wf(),
    {
        self.gravity = gravity;
    }

    pub fn get_gravity(&self) -> (r: Vector3D)
        ensures
            r == self.gravity,
    {
        self.gravity
    }

    pub fn set_air_resistance(&mut self, resistance: i64)
        ensures
            final(self).model() == (WorldModel {
                air_resistance: resistance as int,
                ..old(self).model()
            }),
            old(self).wf() ==> final(self).wf(),
    {
        self.air_resistance = resistance;
    }

    pub fn set_ground_friction(&mut self, friction: i64)
        ensures
            final(self).model() == (WorldModel {
                ground_friction: friction as int,
                ..old(self).model()
            }),
            old(self).wf() ==> final(self).wf(),
    {
        self.ground_friction = friction;
    }
}

/// The sequence with the body under `id` replaced (absent: unchanged).
pub open spec fn body_updated(s: Seq<BodyEntry>, id: usize, b: Option<RigidBody>) -> Seq<
    BodyEntry,
> {
    let i = find_idx(s, id);
    if i >= 0 && b is Some {
        s.update(i, BodyEntry { id, body: b->Some_0 })
    } else {
        s
    }
}

/// What `add_force` leaves of a looked-up body.
pub open spec fn forced_body(b: Option<RigidBody>, force: Vector3D) -> Option<RigidBody> {
    match b {
        Some(b) => Some(
            if b.body_type == RigidBodyType::Dynamic {
                RigidBody { force: v3_add(b.force, force), ..b }
            } else {
                b
            },
        ),
        None => None,
    }
}

/// What `add_impulse` leaves of a looked-up body.
pub open spec fn impulsed_body(b: Option<RigidBody>, impulse: Vector3D) -> Option<RigidBody> {
    match b {
        Some(b) => Some(
            if b.body_type == RigidBodyType::Dynamic {
                RigidBody {
                    velocity: v3_add(
                        b.velocity,
                        v3_scale(impulse, fx_div_s(FX_ONE as int, b.mass as int)),
                    ),
                    ..b
                }
            } else {
                b
            },
        ),
        None => None,
    }
}

/// What `set_velocity` leaves of a looked-up body.
pub open spec fn velocity_set_body(b: Option<RigidBody>, velocity: Vector3D) -> Option<
    RigidBody,
> {
    match b {
        Some(b) => Some(
            if b.body_type != RigidBodyType::Static {
                RigidBody { velocity, ..b }
            } else {
                b
            },
        ),
        None => None,
    }
}

/// A world as `PhysicsWorld::new` leaves it: no bodies, no recorded pairs,
/// the handle counter and the leftover-time accumulator at zero, and the
/// default gravity, drag, friction and sub-step duration.
pub open spec fn fresh_world(w: PhysicsWorld) -> bool {
    &&& w.gravity == v3(0, DEFAULT_GRAVITY_Y as int, 0)
    &&& w.air_resistance == DEFAULT_AIR_RESISTANCE
    &&& w.ground_friction == DEFAULT_GROUND_FRICTION
    &&& w.collision_pairs@ == Seq::<(usize, usize)>::empty()
    &&& w.rigid_bodies@ == Seq::<BodyEntry>::empty()
    &&& w.next_id == 0
    &&& w.time_accumulator == 0
    &&& w.fixed_timestep == FIXED_DT
}

/// Force accumulation on one body: gravity (when enabled), quadratic drag,
/// and — when grounded — horizontal friction; Static and Kinematic bodies
/// take no forces.
pub open spec fn apply_forces_body(b: RigidBody, gravity: Vector3D, air: int, friction: int) -> RigidBody {
    if b.body_type == RigidBodyType::Dynamic {
        let f1 = if b.use_gravity {
            v3_add(b.force, v3_scale(gravity, b.mass as int))
        } else {
            b.force
        };
        let f2 = v3_add(f1, v3_scale(b.velocity, fx_mul_s(fx_neg_s(air), v3_mag(b.velocity))));
        let f3 = if b.grounded {
            v3_add(
                f2,
                v3(
                    fx_mul_s(fx_mul_s(fx_neg_s(b.velocity.x as int), friction), b.mass as int),
                    0,
                    fx_mul_s(fx_mul_s(fx_neg_s(b.velocity.z as int), friction), b.mass as int),
                ),
            )
        } else {
            f2
        };
        RigidBody { force: f3, ..b }
    } else {
        b
    }
}

/// Semi-implicit Euler on the velocity: `v += (F / m) * dt`, then the
/// optional speed cap, then the force buffer is cleared.
pub open spec fn integrate_velocity_body(b: RigidBody, dt: int) -> RigidBody {
    if b.body_type == RigidBodyType::Dynamic {
        let acc = v3_scale(b.force, fx_div_s(FX_ONE as int, b.mass as int));
        let vel = v3_add(b.velocity, v3_scale(acc, dt));
        let vel2 = if b.max_velocity > 0 {
            v3_clamp_mag(vel, b.max_velocity as int)
        } else {
            vel
        };
        RigidBody { velocity: vel2, force: v3_zero(), ..b }
    } else {
        b
    }
}

/// `x += v * dt`, for Dynamic bodies only.
pub open spec fn integrate_position_body(b: RigidBody, dt: int) -> RigidBody {
    if b.body_type == RigidBodyType::Dynamic {
        RigidBody { position: v3_add(b.position, v3_scale(b.velocity, dt)), ..b }
    } else {
        b
    }
}

pub open spec fn apply_forces_all(s: Seq<BodyEntry>, gravity: Vector3D, air: int, friction: int) -> Seq<BodyEntry> {
    Seq::new(
        s.len(),
        |i: int| BodyEntry { id: s[i].id, body: apply_forces_body(s[i].body, gravity, air, friction) },
    )
}

pub open spec fn integrate_velocities_all(s: Seq<BodyEntry>, dt: int) -> Seq<BodyEntry> {
    Seq::new(
        s.len(),
        |i: int| BodyEntry { id: s[i].id, body: integrate_velocity_body(s[i].body, dt) },
    )
}

pub open spec fn integrate_positions_all(s: Seq<BodyEntry>, dt: int) -> Seq<BodyEntry> {
    Seq::new(
        s.len(),
        |i: int| BodyEntry { id: s[i].id, body: integrate_position_body(s[i].body, dt) },
    )
}

/// A candidate pair: two bodies, not both Static, whose boxes overlap.
/// A pair with a trigger body is recorded like any other; it is the
/// resolution that gives it no physical response.
pub open spec fn bodies_collide(a: RigidBody, b: RigidBody) -> bool {
    if a.body_type == RigidBodyType::Static && b.body_type == RigidBodyType::Static {
        false
    } else {
        bb_intersects(body_bounds(a), body_bounds(b))
    }
}

/// The colliding pairs `(id_i, id_j)` with `i < j`, from position `(i, j)`
/// of the exhaustive scan onward, in scan order.
pub open spec fn pairs_from(s: Seq<BodyEntry>, i: nat, j: nat) -> Seq<(usize, usize)>
    decreases s.len() - i, s.len() - j,
{
    if i + 1 >= s.len() {
        Seq::empty()
    } else if j >= s.len() {
        pairs_from(s, i + 1, i + 2)
    } else {
        let rest = pairs_from(s, i, j + 1);
        if j > i && bodies_collide(s[i as int].body, s[j as int].body) {
            seq![(s[i as int].id, s[j as int].id)] + rest
        } else {
            rest
        }
    }
}

/// Every colliding pair, in scan order.
pub open spec fn full_pairs(s: Seq<BodyEntry>) -> Seq<(usize, usize)> {
    pairs_from(s, 0, 1)
}

/// The simplified collision normal: the normalized center-to-center
/// direction, or straight up when the centers coincide.
pub open spec fn collision_normal_s(b1: RigidBody, b2: RigidBody) -> Vector3D {
    let direction = v3_sub(b2.position, b1.position);
    if v3_mag(direction) > 0 {
        v3_normalize(direction)
    } else {
        v3(0, FX_ONE as int, 0)
    }
}

/// Impulse-based resolution of one recorded pair.  A pair with a missing
/// body or a trigger is left untouched, as is one already separating: with
/// the relative velocity taken as body one's minus body two's and the normal
/// pointing from body one to body two, the bodies approach exactly when the
/// velocity along the normal is positive.  On approach the classic
/// one-dimensional impulse with the averaged restitution is applied to the
/// Dynamic bodies, which are then pushed apart by the separation bias.
pub open spec fn resolve_pair_s(s: Seq<BodyEntry>, id1: usize, id2: usize) -> Seq<BodyEntry> {
    let i1 = find_idx(s, id1);
    let i2 = find_idx(s, id2);
    if i1 < 0 || i2 < 0 {
        s
    } else {
        let b1 = s[i1].body;
        let b2 = s[i2].body;
        if b1.is_trigger || b2.is_trigger {
            s
        } else {
            let normal = collision_normal_s(b1, b2);
            let van = v3_dot(v3_sub(b1.velocity, b2.velocity), normal);
            if van <= 0 {
                s
            } else {
                let restitution = fx_mul_s(
                    fx_add_s(b1.restitution as int, b2.restitution as int),
                    FX_HALF as int,
                );
                let j0 = fx_mul_s(fx_neg_s(fx_add_s(FX_ONE as int, restitution)), van);
                let denom = fx_add_s(
                    fx_div_s(FX_ONE as int, b1.mass as int),
                    fx_div_s(FX_ONE as int, b2.mass as int),
                );
                let j = fx_div_s(j0, denom);
                let impulse = v3_scale(normal, j);
                let nb1 = if b1.body_type == RigidBodyType::Dynamic {
                    RigidBody {
                        velocity: v3_add(
                            b1.velocity,
                            v3_scale(impulse, fx_div_s(FX_ONE as int, b1.mass as int)),
                        ),
                        position: v3_sub(b1.position, v3_scale(normal, SEPARATION as int)),
                        ..b1
                    }
                } else {
                    b1
                };
                let nb2 = if b2.body_type == RigidBodyType::Dynamic {
                    RigidBody {
                        velocity: v3_sub(
                            b2.velocity,
                            v3_scale(impulse, fx_div_s(FX_ONE as int, b2.mass as int)),
                        ),
                        position: v3_add(b2.position, v3_scale(normal, SEPARATION as int)),
                        ..b2
                    }
                } else {
                    b2
                };
                s.update(i1, BodyEntry { id: id1, body: nb1 }).update(
                    i2,
                    BodyEntry { id: id2, body: nb2 },
                )
            }
        }
    }
}

/// Resolution of the recorded pairs from position `k` onward, in order.
pub open spec fn resolve_all(s: Seq<BodyEntry>, ps: Seq<(usize, usize)>, k: int) -> Seq<BodyEntry>
    decreases ps.len() - k,
{
    if k < 0 || k >= ps.len() {
        s
    } else {
        resolve_all(resolve_pair_s(s, ps[k].0, ps[k].1), ps, k + 1)
    }
}

/// One fixed sub-step: forces, velocities, detection, resolution, positions
/// — in that order.
pub open spec fn fixed_step_m(m: WorldModel, dt: int) -> WorldModel {
    let s1 = apply_forces_all(m.bodies, m.gravity, m.air_resistance, m.ground_friction);
    let s2 = integrate_velocities_all(s1, dt);
    let ps = full_pairs(s2);
    let s3 = resolve_all(s2, ps, 0);
    let s4 = integrate_positions_all(s3, dt);
    WorldModel { bodies: s4, pairs: ps, ..m }
}

/// `step` first folds the frame delta into the leftover-time accumulator.
pub open spec fn accumulated_m(m: WorldModel, dt: int) -> WorldModel {
    WorldModel { time_accumulator: fx_add_s(m.time_accumulator, dt), ..m }
}

/// Fixed sub-steps run while the accumulator holds at least one sub-step;
/// the remainder is carried over to the next call.
pub open spec fn run_steps_m(m: WorldModel) -> WorldModel
    decreases m.time_accumulator,
{
    if m.fixed_timestep > 0 && m.time_accumulator >= m.fixed_timestep {
        run_steps_m(
            WorldModel {
                time_accumulator: m.time_accumulator - m.fixed_timestep,
                ..fixed_step_m(m, m.fixed_timestep)
            },
        )
    } else {
        m
    }
}

/// `resolve_pair_s` keeps every handle in place.
proof fn lemma_resolve_pair_ids(s: Seq<BodyEntry>, id1: usize, id2: usize)
    ensures
        resolve_pair_s(s, id1, id2).len() == s.len(),
        forall|i: int| 0 <= i < s.len() ==> (#[trigger] resolve_pair_s(s, id1, id2)[i].id) == s[i].id,
{
    lemma_find_idx_bounds(s, id1);
    lemma_find_idx_bounds(s, id2);
}

/// `resolve_all` keeps every handle in place.
proof fn lemma_resolve_all_ids(s: Seq<BodyEntry>, ps: Seq<(usize, usize)>, k: int)
    ensures
        resolve_all(s, ps, k).len() == s.len(),
        forall|i: int| 0 <= i < s.len() ==> (#[trigger] resolve_all(s, ps, k)[i].id) == s[i].id,
    decreases ps.len() - k,
{
    if 0 <= k < ps.len() {
        lemma_resolve_pair_ids(s, ps[k].0, ps[k].1);
        lemma_resolve_all_ids(resolve_pair_s(s, ps[k].0, ps[k].1), ps, k + 1);
    }
}

/// A fixed sub-step keeps every handle in place.
proof fn lemma_fixed_step_ids(m: WorldModel, dt: int)
    ensures
        fixed_step_m(m, dt).bodies.len() == m.bodies.len(),
        forall|i: int|
            0 <= i < m.bodies.len() ==> (#[trigger] fixed_step_m(m, dt).bodies[i].id)
                == m.bodies[i].id,
{
    let s1 = apply_forces_all(m.bodies, m.gravity, m.air_resistance, m.ground_friction);
    let s2 = integrate_velocities_all(s1, dt);
    lemma_resolve_all_ids(s2, full_pairs(s2), 0);
}

impl PhysicsWorld {
    /// Accumulates gravity, drag and friction into every Dynamic body's
    /// force buffer.
    fn apply_forces(&mut self)
        ensures
            final(self).rigid_bodies@ == apply_forces_all(
                old(self).rigid_bodies@,
                old(self).gravity,
                old(self).air_resistance as int,
                old(self).ground_friction as int,
            ),
            final(self).model() == (WorldModel {
                bodies: final(self).rigid_bodies@,
                ..old(self).model()
            }),
    {
        let ghost s = self.rigid_bodies@;
        let g: Vector3D = self.gravity;
        let air: i64 = self.air_resistance;
        let fric: i64 = self.ground_friction;
        let ghost target = apply_forces_all(s, g, air as int, fric as int);
        let n: usize = self.rigid_bodies.len();
        let mut i: usize = 0;
        while i < n
            invariant
                i <= n,
                n == s.len(),
                self.rigid_bodies@.len() == n,
                target == apply_forces_all(s, g, air as int, fric as int),
                forall|k: int| 0 <= k < i ==> self.rigid_bodies@[k] == target[k],
                forall|k: int| i <= k < n ==> self.rigid_bodies@[k] == s[k],
                self.model() == (WorldModel { bodies: self.rigid_bodies@, ..old(self).model() }),
            decreases n - i,
        {
            let e: BodyEntry = self.rigid_bodies[i];
            let mut body: RigidBody = e.body;
            if body.body_type == RigidBodyType::Dynamic {
                if body.use_gravity {
                    body.add_force(g.scale(body.mass));
                }
                let drag: i64 = fx_mul(fx_neg(air), body.velocity.magnitude());
                let air_force: Vector3D = body.velocity.scale(drag);
                body.add_force(air_force);
                if body.grounded {
                    let friction_force: Vector3D = Vector3D::new(
                        fx_mul(fx_mul(fx_neg(body.velocity.x), fric), body.mass),
                        0,
                        fx_mul(fx_mul(fx_neg(body.velocity.z), fric), body.mass),
                    );
                    body.add_force(friction_force);
                }
            }
            proof {
                assert(body == apply_forces_body(s[i as int].body, g, air as int, fric as int));
            }
            self.rigid_bodies.set(i, BodyEntry { id: e.id, body });
            i = i + 1;
        }
        proof {
            assert(self.rigid_bodies@ =~= target);
        }
    }

    /// Integrates every Dynamic body's velocity and clears its force buffer.
    fn integrate_velocities(&mut self, dt: i64)
        ensures
            final(self).rigid_bodies@ == integrate_velocities_all(
                old(self).rigid_bodies@,
                dt as int,
            ),
            final(self).model() == (WorldModel {
                bodies: final(self).rigid_bodies@,
                ..old(self).model()
            }),
    {
        let ghost s = self.rigid_bodies@;
        let ghost target = integrate_velocities_all(s, dt as int);
        let n: usize = self.rigid_bodies.len();
        let mut i: usize = 0;
        while i < n
            invariant
                i <= n,
                n == s.len(),
                self.rigid_bodies@.len() == n,
                target == integrate_velocities_all(s, dt as int),
                forall|k: int| 0 <= k < i ==> self.rigid_bodies@[k] == target[k],
                forall|k: int| i <= k < n ==> self.rigid_bodies@[k] == s[k],
                self.model() == (WorldModel { bodies: self.rigid_bodies@, ..old(self).model() }),
            decreases n - i,
        {
            let e: BodyEntry = self.rigid_bodies[i];
            let mut body: RigidBody = e.body;
            if body.body_type == RigidBodyType::Dynamic {
                let acceleration: Vector3D = body.force.scale(fx_div(FX_ONE, body.mass));
                body.velocity = body.velocity.add(acceleration.scale(dt));
                if body.max_velocity > 0 {
                    body.velocity = body.velocity.clamp_magnitude(body.max_velocity);
                }
                body.force = Vector3D::zero();
            }
            proof {
                assert(body == integrate_velocity_body(s[i as int].body, dt as int));
            }
            self.rigid_bodies.set(i, BodyEntry { id: e.id, body });
            i = i + 1;
        }
        proof {
            assert(self.rigid_bodies@ =~= target);
        }
    }

    /// Integrates every Dynamic body's position.
    fn integrate_positions(&mut self, dt: i64)
        ensures
            final(self).rigid_bodies@ == integrate_positions_all(
                old(self).rigid_bodies@,
                dt as int,
            ),
            final(self).model() == (WorldModel {
                bodies: final(self).rigid_bodies@,
                ..old(self).model()
            }),
    {
        let ghost s = self.rigid_bodies@;
        let ghost target = integrate_positions_all(s, dt as int);
        let n: usize = self.rigid_bodies.len();
        let mut i: usize = 0;
        while i < n
            invariant
                i <= n,
                n == s.len(),
                self.rigid_bodies@.len() == n,
                target == integrate_positions_all(s, dt as int),
                forall|k: int| 0 <= k < i ==> self.rigid_bodies@[k] == target[k],
                forall|k: int| i <= k < n ==> self.rigid_bodies@[k] == s[k],
                self.model() == (WorldModel { bodies: self.rigid_bodies@, ..old(self).model() }),
            decreases n - i,
        {
            let e: BodyEntry = self.rigid_bodies[i];
            let mut body: RigidBody = e.body;
            if body.body_type == RigidBodyType::Dynamic {
                body.position = body.position.add(body.velocity.scale(dt));
            }
            proof {
                assert(body == integrate_position_body(s[i as int].body, dt as int));
            }
            self.rigid_bodies.set(i, BodyEntry { id: e.id, body });
            i = i + 1;
        }
        proof {
            assert(self.rigid_bodies@ =~= target);
        }
    }

    /// The overlap test for one pair.
    fn check_collision(&self, body1: &RigidBody, body2: &RigidBody) -> (r: bool)
        ensures
            r == bodies_collide(*body1, *body2),
    {
        if body1.body_type == RigidBodyType::Static && body2.body_type == RigidBodyType::Static {
            return false;
        }
        let bounds1: BoundingBox = body1.get_bounds();
        let bounds2: BoundingBox = body2.get_bounds();
        bounds1.intersects(&bounds2)
    }

    /// The exhaustive pairwise broad phase: records every colliding pair of
    /// live bodies, in scan order.
    pub fn detect_collisions(&mut self)
        ensures
            final(self).collision_pairs@ == full_pairs(old(self).rigid_bodies@),
            final(self).model() == (WorldModel {
                pairs: final(self).collision_pairs@,
                ..old(self).model()
            }),
    {
        let ghost s = self.rigid_bodies@;
        let mut cp: Vec<(usize, usize)> = Vec::new();
        let n: usize = self.rigid_bodies.len();
        let mut i: usize = 0;
        while i < n
            invariant
                i <= n,
                n == s.len(),
                self.rigid_bodies@ == s,
                *self == *old(self),
                cp@ + pairs_from(s, i as nat, (i + 1) as nat) == full_pairs(s),
            decreases n - i,
        {
            let mut j: usize = i + 1;
            while j < n
                invariant
                    i < n,
                    i + 1 <= j <= n,
                    n == s.len(),
                    self.rigid_bodies@ == s,
                    *self == *old(self),
                    cp@ + pairs_from(s, i as nat, j as nat) == full_pairs(s),
                decreases n - j,
            {
                let b1: RigidBody = self.rigid_bodies[i].body;
                let b2: RigidBody = self.rigid_bodies[j].body;
                let ghost cp0 = cp@;
                if self.check_collision(&b1, &b2) {
                    cp.push((self.rigid_bodies[i].id, self.rigid_bodies[j].id));
                    proof {
                        let p = (s[i as int].id, s[j as int].id);
                        assert(cp@ =~= cp0 + seq![p]);
                        assert((cp0 + seq![p]) + pairs_from(s, i as nat, (j + 1) as nat) =~= cp0
                            + (seq![p] + pairs_from(s, i as nat, (j + 1) as nat)));
                    }
                }
                j = j + 1;
            }
            i = i + 1;
        }
        self.collision_pairs = cp;
        proof {
            assert(pairs_from(s, n as nat, (n + 1) as nat) == Seq::<(usize, usize)>::empty());
            assert(cp@ + Seq::<(usize, usize)>::empty() =~= cp@);
        }
    }

    /// Resolves one recorded pair against the current bodies.
    fn resolve_one(&mut self, id1: usize, id2: usize)
        ensures
            final(self).rigid_bodies@ == resolve_pair_s(old(self).rigid_bodies@, id1, id2),
            final(self).model() == (WorldModel {
                bodies: final(self).rigid_bodies@,
                ..old(self).model()
            }),
    {
        let i1_opt: Option<usize> = self.find_body_index(id1);
        let i2_opt: Option<usize> = self.find_body_index(id2);
        match (i1_opt, i2_opt) {
            (Some(i1), Some(i2)) => {
                let b1: RigidBody = self.rigid_bodies[i1].body;
                let b2: RigidBody = self.rigid_bodies[i2].body;
                if b1.is_trigger || b2.is_trigger {
                    // A trigger contact has no physical response.
                    return ;
                }
                let direction: Vector3D = b2.position.sub(b1.position);
                let normal: Vector3D = if direction.magnitude() > 0 {
                    direction.normalize()
                } else {
                    Vector3D::new(0, FX_ONE, 0)
                };
                let relative_velocity: Vector3D = b1.velocity.sub(b2.velocity);
                let velocity_along_normal: i64 = relative_velocity.dot(&normal);
                if velocity_along_normal <= 0 {
                    // Already separating: nothing to resolve.
                    return ;
                }
                let restitution: i64 = fx_mul(fx_add(b1.restitution, b2.restitution), FX_HALF);
                let impulse_scalar: i64 = fx_mul(
                    fx_neg(fx_add(FX_ONE, restitution)),
                    velocity_along_normal,
                );
                let denom: i64 = fx_add(fx_div(FX_ONE, b1.mass), fx_div(FX_ONE, b2.mass));
                let impulse_scalar: i64 = fx_div(impulse_scalar, denom);
                let impulse: Vector3D = normal.scale(impulse_scalar);
                let mut nb1: RigidBody = b1;
                let mut nb2: RigidBody = b2;
                if nb1.body_type == RigidBodyType::Dynamic {
                    nb1.velocity = nb1.velocity.add(impulse.scale(fx_div(FX_ONE, nb1.mass)));
                    nb1.position = nb1.position.sub(normal.scale(SEPARATION));
                }
                if nb2.body_type == RigidBodyType::Dynamic {
                    nb2.velocity = nb2.velocity.sub(impulse.scale(fx_div(FX_ONE, nb2.mass)));
                    nb2.position = nb2.position.add(normal.scale(SEPARATION));
                }
                self.rigid_bodies.set(i1, BodyEntry { id: id1, body: nb1 });
                self.rigid_bodies.set(i2, BodyEntry { id: id2, body: nb2 });
            },
            _ => {},
        }
    }

    /// Resolves every recorded pair, in order.
    fn resolve_collisions(&mut self)
        ensures
            final(self).rigid_bodies@ == resolve_all(
                old(self).rigid_bodies@,
                old(self).collision_pairs@,
                0,
            ),
            final(self).model() == (WorldModel {
                bodies: final(self).rigid_bodies@,
                ..old(self).model()
            }),
    {
        let ghost s0 = self.rigid_bodies@;
        let ghost ps = self.collision_pairs@;
        let n: usize = self.collision_pairs.len();
        let mut k: usize = 0;
        while k < n
            invariant
                k <= n,
                n == ps.len(),
                self.collision_pairs@ == ps,
                resolve_all(s0, ps, 0) == resolve_all(self.rigid_bodies@, ps, k as int),
                self.model() == (WorldModel { bodies: self.rigid_bodies@, ..old(self).model() }),
            decreases n - k,
        {
            let pair: (usize, usize) = self.collision_pairs[k];
            self.resolve_one(pair.0, pair.1);
            k = k + 1;
        }
    }

    /// One fixed sub-step, in the load-bearing order: forces, velocities,
    /// detection, resolution, positions.
    fn fixed_step(&mut self, dt: i64)
        ensures
            final(self).model() == fixed_step_m(old(self).model(), dt as int),
    {
        self.apply_forces();
        self.integrate_velocities(dt);
        self.detect_collisions();
        self.resolve_collisions();
        self.integrate_positions(dt);
    }

    /// Advances the simulation by a frame delta: the delta is folded into
    /// the leftover-time accumulator, and one fixed sub-step runs for each
    /// whole `fixed_timestep` the accumulator holds; the remainder carries
    /// over.  The same total duration therefore yields the same sub-steps
    /// however it is divided into calls.
    pub fn step(&mut self, delta_time: i64)
        requires
            old(self).wf(),
        ensures
            final(self).wf(),
            final(self).model() == run_steps_m(accumulated_m(old(self).model(), delta_time as int)),
    {
        self.time_accumulator = fx_add(self.time_accumulator, delta_time);
        let ghost target = accumulated_m(old(self).model(), delta_time as int);
        proof {
            assert(self.model() == target);
        }
        while self.time_accumulator >= self.fixed_timestep
            invariant
                self.wf(),
                run_steps_m(self.model()) == run_steps_m(target),
            decreases self.time_accumulator,
        {
            let ghost w0 = *self;
            let ft: i64 = self.fixed_timestep;
            self.fixed_step(ft);
            proof {
                lemma_fixed_step_ids(w0.model(), ft as int);
                lemma_same_ids_wf(w0, *self);
            }
            self.time_accumulator = self.time_accumulator - ft;
            proof {
                assert(self.model() == (WorldModel {
                    time_accumulator: w0.model().time_accumulator - ft as int,
                    ..fixed_step_m(w0.model(), ft as int)
                }));
            }
        }
    }
}

/// The slab interval of one axis: where the ray parameter keeps the moving
/// point between the two planes, ordered.
pub open spec fn slab_t(bmin: int, bmax: int, origin: int, dir: int) -> (int, int) {
    let t1 = fx_div_s(fx_sub_s(bmin, origin), dir);
    let t2 = fx_div_s(fx_sub_s(bmax, origin), dir);
    if t1 <= t2 {
        (t1, t2)
    } else {
        (t2, t1)
    }
}

/// The outward face normal of the box face nearest to `point`.
pub open spec fn surface_normal_s(bounds: BoundingBox, point: Vector3D) -> Vector3D {
    let center = bb_center(bounds);
    let size = bb_size(bounds);
    let local = v3_sub(point, center);
    let ax = abs_v(fx_div_s(local.x as int, fx_mul_s(size.x as int, FX_HALF as int)));
    let ay = abs_v(fx_div_s(local.y as int, fx_mul_s(size.y as int, FX_HALF as int)));
    let az = abs_v(fx_div_s(local.z as int, fx_mul_s(size.z as int, FX_HALF as int)));
    if ax > ay && ax > az {
        v3(if local.x > 0 { FX_ONE as int } else { -(FX_ONE as int) }, 0, 0)
    } else if ay > az {
        v3(0, if local.y > 0 { FX_ONE as int } else { -(FX_ONE as int) }, 0)
    } else {
        v3(0, 0, if local.z > 0 { FX_ONE as int } else { -(FX_ONE as int) })
    }
}

/// The slab test of one ray against one body's box.  A ray parallel to an
/// axis must start between that axis's planes; over the remaining axes the
/// latest entry must not lie beyond the earliest exit, behind the origin or
/// beyond `max_d`.
pub open spec fn ray_body(origin: Vector3D, dir: Vector3D, max_d: int, e: BodyEntry) -> Option<
    RaycastHit,
> {
    let b = body_bounds(e.body);
    if dir.x == 0 && !(b.min.x <= origin.x <= b.max.x) {
        None
    } else if dir.y == 0 && !(b.min.y <= origin.y <= b.max.y) {
        None
    } else if dir.z == 0 && !(b.min.z <= origin.z <= b.max.z) {
        None
    } else {
        let tn0 = i64::MIN as int;
        let tf0 = i64::MAX as int;
        let px = slab_t(b.min.x as int, b.max.x as int, origin.x as int, dir.x as int);
        let tn1 = if dir.x != 0 { vstd::math::max(tn0, px.0) } else { tn0 };
        let tf1 = if dir.x != 0 { vstd::math::min(tf0, px.1) } else { tf0 };
        let py = slab_t(b.min.y as int, b.max.y as int, origin.y as int, dir.y as int);
        let tn2 = if dir.y != 0 { vstd::math::max(tn1, py.0) } else { tn1 };
        let tf2 = if dir.y != 0 { vstd::math::min(tf1, py.1) } else { tf1 };
        let pz = slab_t(b.min.z as int, b.max.z as int, origin.z as int, dir.z as int);
        let tn3 = if dir.z != 0 { vstd::math::max(tn2, pz.0) } else { tn2 };
        let tf3 = if dir.z != 0 { vstd::math::min(tf2, pz.1) } else { tf2 };
        if tn3 <= tf3 && tn3 >= 0 && tn3 <= max_d {
            let point = v3_add(origin, v3_scale(dir, tn3));
            Some(
                RaycastHit {
                    point,
                    normal: surface_normal_s(b, point),
                    distance: tn3 as i64,
                    body_id: e.id,
                },
            )
        } else {
            None
        }
    }
}

/// The scan for the nearest hit from position `k` onward: a hit replaces the
/// running best only when strictly closer, so on a tie the earlier body in
/// handle order wins.
pub open spec fn raycast_from(
    s: Seq<BodyEntry>,
    origin: Vector3D,
    dir: Vector3D,
    max_d: int,
    k: int,
    closest: Option<RaycastHit>,
    closest_dist: int,
) -> Option<RaycastHit>
    decreases s.len() - k,
{
    if k < 0 || k >= s.len() {
        closest
    } else {
        match ray_body(origin, dir, max_d, s[k]) {
            Some(hit) => if hit.distance < closest_dist {
                raycast_from(s, origin, dir, max_d, k + 1, Some(hit), hit.distance as int)
            } else {
                raycast_from(s, origin, dir, max_d, k + 1, closest, closest_dist)
            },
            None => raycast_from(s, origin, dir, max_d, k + 1, closest, closest_dist),
        }
    }
}

/// The nearest hit strictly within `max_d`, or nothing.
pub open spec fn raycast_s(
    s: Seq<BodyEntry>,
    origin: Vector3D,
    dir: Vector3D,
    max_d: int,
) -> Option<RaycastHit> {
    raycast_from(s, origin, dir, max_d, 0, None, max_d)
}

impl PhysicsWorld {
    /// The slab test of the ray against one body.
    fn raycast_body(
        &self,
        origin: Vector3D,
        direction: Vector3D,
        max_distance: i64,
        id: usize,
        body: &RigidBody,
    ) -> (r: Option<RaycastHit>)
        ensures
            r == ray_body(origin, direction, max_distance as int, BodyEntry { id, body: *body }),
    {
        let bounds: BoundingBox = body.get_bounds();
        if direction.x == 0 && !(bounds.min.x <= origin.x && origin.x <= bounds.max.x) {
            return None;
        }
        if direction.y == 0 && !(bounds.min.y <= origin.y && origin.y <= bounds.max.y) {
            return None;
        }
        if direction.z == 0 && !(bounds.min.z <= origin.z && origin.z <= bounds.max.z) {
            return None;
        }
        let mut t_near: i64 = i64::MIN;
        let mut t_far: i64 = i64::MAX;
        if direction.x != 0 {
            let t1: i64 = fx_div(fx_sub(bounds.min.x, origin.x), direction.x);
            let t2: i64 = fx_div(fx_sub(bounds.max.x, origin.x), direction.x);
            let lo: i64 = if t1 <= t2 { t1 } else { t2 };
            let hi: i64 = if t1 <= t2 { t2 } else { t1 };
            t_near = if lo > t_near { lo } else { t_near };
            t_far = if hi < t_far { hi } else { t_far };
        }
        if direction.y != 0 {
            let t1: i64 = fx_div(fx_sub(bounds.min.y, origin.y), direction.y);
            let t2: i64 = fx_div(fx_sub(bounds.max.y, origin.y), direction.y);
            let lo: i64 = if t1 <= t2 { t1 } else { t2 };
            let hi: i64 = if t1 <= t2 { t2 } else { t1 };
            t_near = if lo > t_near { lo } else { t_near };
            t_far = if hi < t_far { hi } else { t_far };
        }
        if direction.z != 0 {
            let t1: i64 = fx_div(fx_sub(bounds.min.z, origin.z), direction.z);
            let t2: i64 = fx_div(fx_sub(bounds.max.z, origin.z), direction.z);
            let lo: i64 = if t1 <= t2 { t1 } else { t2 };
            let hi: i64 = if t1 <= t2 { t2 } else { t1 };
            t_near = if lo > t_near { lo } else { t_near };
            t_far = if hi < t_far { hi } else { t_far };
        }
        if t_near <= t_far && t_near >= 0 && t_near <= max_distance {
            let hit_point: Vector3D = origin.add(direction.scale(t_near));
            let normal: Vector3D = self.calculate_surface_normal(&bounds, hit_point);
            Some(RaycastHit { point: hit_point, normal, distance: t_near, body_id: id })
        } else {
            None
        }
    }

    /// The outward normal of the face nearest to `point`.
    fn calculate_surface_normal(&self, bounds: &BoundingBox, point: Vector3D) -> (r: Vector3D)
        ensures
            r == surface_normal_s(*bounds, point),
    {
        let center: Vector3D = bounds.center();
        let size: Vector3D = bounds.size();
        let local: Vector3D = point.sub(center);
        let qx: i64 = fx_div(local.x, fx_mul(size.x, FX_HALF));
        let qy: i64 = fx_div(local.y, fx_mul(size.y, FX_HALF));
        let qz: i64 = fx_div(local.z, fx_mul(size.z, FX_HALF));
        let ax: i128 = if qx >= 0 { qx as i128 } else { -(qx as i128) };
        let ay: i128 = if qy >= 0 { qy as i128 } else { -(qy as i128) };
        let az: i128 = if qz >= 0 { qz as i128 } else { -(qz as i128) };
        if ax > ay && ax > az {
            Vector3D::new(if local.x > 0 { FX_ONE } else { -FX_ONE }, 0, 0)
        } else if ay > az {
            Vector3D::new(0, if local.y > 0 { FX_ONE } else { -FX_ONE }, 0)
        } else {
            Vector3D::new(0, 0, if local.z > 0 { FX_ONE } else { -FX_ONE })
        }
    }

    /// The nearest body hit by the ray, strictly within `max_distance`.
    pub fn raycast(&self, origin: Vector3D, direction: Vector3D, max_distance: i64) -> (r: Option<
        RaycastHit,
    >)
        ensures
            r == raycast_s(self.rigid_bodies@, origin, direction, max_distance as int),
    {
        let ghost s = self.rigid_bodies@;
        let mut closest_hit: Option<RaycastHit> = None;
        let mut closest_distance: i64 = max_distance;
        let n: usize = self.rigid_bodies.len();
        let mut k: usize = 0;
        while k < n
            invariant
                k <= n,
                n == s.len(),
                self.rigid_bodies@ == s,
                raycast_from(s, origin, direction, max_distance as int, 0, None, max_distance as int)
                    == raycast_from(
                    s,
                    origin,
                    direction,
                    max_distance as int,
                    k as int,
                    closest_hit,
                    closest_distance as int,
                ),
            decreases n - k,
        {
            let e: BodyEntry = self.rigid_bodies[k];
            let hit: Option<RaycastHit> = self.raycast_body(
                origin,
                direction,
                max_distance,
                e.id,
                &e.body,
            );
            match hit {
                Some(h) => {
                    if h.distance < closest_distance {
                        closest_distance = h.distance;
                        closest_hit = Some(h);
                    }
                },
                None => {},
            }
            k = k + 1;
        }
        closest_hit
    }
}

/// Two worlds whose bodies carry the same handles in the same order are
/// equally well-formed.
proof fn lemma_same_ids_wf(a: PhysicsWorld, b: PhysicsWorld)
    requires
        a.wf(),
        b.fixed_timestep == a.fixed_timestep,
        b.next_id == a.next_id,
        b.rigid_bodies@.len() == a.rigid_bodies@.len(),
        forall|i: int|
            0 <= i < a.rigid_bodies@.len() ==> (#[trigger] b.rigid_bodies@[i].id)
                == a.rigid_bodies@[i].id,
    ensures
        b.wf(),
{
}

/// Scaling by one whole unit is the identity on representable scalars.
pub proof fn lemma_fx_mul_one(a: int)
    requires
        i64::MIN <= a <= i64::MAX,
    ensures
        fx_mul_s(a, FX_ONE as int) == a,
        fx_mul_s(FX_ONE as int, a) == a,
{
    let s: int = FX_ONE as int;
    if a > 0 {
        vstd::arithmetic::div_mod::lemma_div_multiples_vanish(a, s);
        assert((a * s) / s == a) by {
            assert(a * s == s * a) by (nonlinear_arith);
        }
        assert(div_t(a * s, s) == a);
        assert(s * a == a * s) by (nonlinear_arith);
    } else if a < 0 {
        vstd::arithmetic::div_mod::lemma_div_multiples_vanish(-a, s);
        assert(((a * s) * -1) / s == -a) by {
            assert((a * s) * -1 == s * (-a)) by (nonlinear_arith);
        }
        assert(div_t(a * s, s) == a) by {
            assert(a * s < 0) by (nonlinear_arith)
                requires a < 0 && s > 0;
        }
        assert(s * a == a * s) by (nonlinear_arith);
    } else {
    }
}

/// Scaling by zero yields zero; adding zero changes nothing.
pub proof fn lemma_fx_zero(a: int)
    requires
        i64::MIN <= a <= i64::MAX,
    ensures
        fx_mul_s(a, 0) == 0,
        fx_mul_s(0, a) == 0,
        fx_add_s(a, 0) == a,
        fx_add_s(0, a) == a,
{
    assert(a * 0 == 0) by (nonlinear_arith);
    assert(0 * a == 0) by (nonlinear_arith);
}

/// The inverse of a unit mass is one unit.
pub proof fn lemma_fx_inv_one()
    ensures
        fx_div_s(FX_ONE as int, FX_ONE as int) == FX_ONE as int,
{
    let s: int = FX_ONE as int;
    vstd::arithmetic::div_mod::lemma_div_multiples_vanish(s, s);
    assert(s * s == s * s);
    assert(div_t(s * s, s) == s);
}

/// Scaling a vector by one unit is the identity.
pub proof fn lemma_v3_scale_one(v: Vector3D)
    ensures
        v3_scale(v, FX_ONE as int) == v,
{
    lemma_fx_mul_one(v.x as int);
    lemma_fx_mul_one(v.y as int);
    lemma_fx_mul_one(v.z as int);
}

/// Scaling a vector by zero yields the zero vector, and adding the zero
/// vector changes nothing.
pub proof fn lemma_v3_zero(v: Vector3D)
    ensures
        v3_scale(v, 0) == v3_zero(),
        v3_add(v, v3_zero()) == v,
        v3_add(v3_zero(), v) == v,
{
    lemma_fx_zero(v.x as int);
    lemma_fx_zero(v.y as int);
    lemma_fx_zero(v.z as int);
}

/// Determinism: the simulation step is a pure function of the world and the
/// frame delta, so two worlds in the same state given the same delta end in
/// the same state — and by induction, so do two equal worlds fed the same
/// sequence of deltas.
pub proof fn lemma_step_deterministic(a: WorldModel, b: WorldModel, dt_a: int, dt_b: int)
    requires
        a == b,
        dt_a == dt_b,
    ensures
        run_steps_m(accumulated_m(a, dt_a)) == run_steps_m(accumulated_m(b, dt_b)),
{
}

/// A Static body is left exactly in place by one pair resolution.
proof fn lemma_resolve_pair_static(s: Seq<BodyEntry>, id1: usize, id2: usize, i: int)
    requires
        0 <= i < s.len(),
        s[i].body.body_type == RigidBodyType::Static,
    ensures
        resolve_pair_s(s, id1, id2).len() == s.len(),
        resolve_pair_s(s, id1, id2)[i] == s[i],
{
    lemma_find_idx_bounds(s, id1);
    lemma_find_idx_bounds(s, id2);
}

/// A Static body is left exactly in place by the whole resolution pass.
proof fn lemma_resolve_all_static(s: Seq<BodyEntry>, ps: Seq<(usize, usize)>, k: int, i: int)
    requires
        0 <= i < s.len(),
        s[i].body.body_type == RigidBodyType::Static,
    ensures
        resolve_all(s, ps, k).len() == s.len(),
        resolve_all(s, ps, k)[i] == s[i],
    decreases ps.len() - k,
{
    if 0 <= k < ps.len() {
        lemma_resolve_pair_static(s, ps[k].0, ps[k].1, i);
        lemma_resolve_all_static(resolve_pair_s(s, ps[k].0, ps[k].1), ps, k + 1, i);
    }
}

/// A Static body is left exactly in place by one fixed sub-step.
proof fn lemma_fixed_step_static(m: WorldModel, dt: int, i: int)
    requires
        0 <= i < m.bodies.len(),
        m.bodies[i].body.body_type == RigidBodyType::Static,
    ensures
        fixed_step_m(m, dt).bodies.len() == m.bodies.len(),
        fixed_step_m(m, dt).bodies[i] == m.bodies[i],
{
    let s1 = apply_forces_all(m.bodies, m.gravity, m.air_resistance, m.ground_friction);
    let s2 = integrate_velocities_all(s1, dt);
    assert(s1[i] == m.bodies[i]);
    assert(s2[i] == m.bodies[i]);
    lemma_resolve_all_static(s2, full_pairs(s2), 0, i);
}

/// A Static body is left exactly in place by any run of sub-steps.
proof fn lemma_run_steps_static(m: WorldModel, i: int)
    requires
        0 <= i < m.bodies.len(),
        m.bodies[i].body.body_type == RigidBodyType::Static,
    ensures
        run_steps_m(m).bodies.len() == m.bodies.len(),
        run_steps_m(m).bodies[i] == m.bodies[i],
    decreases m.time_accumulator,
{
    if m.fixed_timestep > 0 && m.time_accumulator >= m.fixed_timestep {
        lemma_fixed_step_static(m, m.fixed_timestep, i);
        lemma_run_steps_static(
            WorldModel {
                time_accumulator: m.time_accumulator - m.fixed_timestep,
                ..fixed_step_m(m, m.fixed_timestep)
            },
            i,
        );
    }
}

/// Static immovability: a Static body keeps its exact position and velocity
/// (indeed its whole state) across a `step` of any frame delta — and so
/// across any number of steps.  Forces, impulses and gravity never move it;
/// `add_force` and `add_impulse` on a Static body are no-ops by their own
/// contracts.
pub proof fn lemma_static_body_immovable(m: WorldModel, dt: int, i: int)
    requires
        0 <= i < m.bodies.len(),
        m.bodies[i].body.body_type == RigidBodyType::Static,
    ensures
        run_steps_m(accumulated_m(m, dt)).bodies.len() == m.bodies.len(),
        run_steps_m(accumulated_m(m, dt)).bodies[i] == m.bodies[i],
{
    lemma_run_steps_static(accumulated_m(m, dt), i);
}

/// `n` fixed sub-steps in a row.
pub open spec fn iter_steps(m: WorldModel, n: nat) -> WorldModel
    decreases n,
{
    if n == 0 {
        m
    } else {
        iter_steps(fixed_step_m(m, FIXED_DT as int), (n - 1) as nat)
    }
}

/// A world holding exactly one Dynamic body under gravity, with unit mass,
/// no speed cap, an empty force buffer and no drag: the setting of the
/// closed-form gravity law.
pub open spec fn lone_falling_body(m: WorldModel) -> bool {
    &&& m.bodies.len() == 1
    &&& m.bodies[0].body.body_type == RigidBodyType::Dynamic
    &&& m.bodies[0].body.use_gravity
    &&& !m.bodies[0].body.grounded
    &&& m.bodies[0].body.mass == FX_ONE
    &&& m.bodies[0].body.max_velocity == 0
    &&& m.bodies[0].body.force == v3_zero()
    &&& m.air_resistance == 0
    &&& m.gravity.x == 0
    &&& m.gravity.z == 0
}

/// The semi-implicit Euler velocity after `n` sub-steps: each sub-step adds
/// `g * h` (with `h` the fixed sub-step duration) to the vertical velocity.
pub open spec fn fall_velocity_y(v0: int, gy: int, n: nat) -> int
    decreases n,
{
    if n == 0 {
        v0
    } else {
        fx_add_s(fall_velocity_y(v0, gy, (n - 1) as nat), fx_mul_s(gy, FIXED_DT as int))
    }
}

/// The matching height: the prefix sum of the post-update velocities, the
/// fixed-point form of `y0 - g * h^2 * n * (n + 1) / 2` for a fall from
/// rest.
pub open spec fn fall_position_y(p0: int, v0: int, gy: int, n: nat) -> int
    decreases n,
{
    if n == 0 {
        p0
    } else {
        fx_add_s(
            fall_position_y(p0, v0, gy, (n - 1) as nat),
            fx_mul_s(fall_velocity_y(v0, gy, n), FIXED_DT as int),
        )
    }
}

/// One sub-step of the lone falling body: the vertical velocity gains
/// `g * h` and the position moves by the new velocity times `h` — exactly
/// semi-implicit Euler.
proof fn lemma_gravity_substep(m: WorldModel)
    requires
        lone_falling_body(m),
    ensures
        lone_falling_body(fixed_step_m(m, FIXED_DT as int)),
        fixed_step_m(m, FIXED_DT as int).bodies[0].body == (RigidBody {
            velocity: v3(
                m.bodies[0].body.velocity.x as int,
                fx_add_s(
                    m.bodies[0].body.velocity.y as int,
                    fx_mul_s(m.gravity.y as int, FIXED_DT as int),
                ),
                m.bodies[0].body.velocity.z as int,
            ),
            position: v3_add(
                m.bodies[0].body.position,
                v3_scale(
                    v3(
                        m.bodies[0].body.velocity.x as int,
                        fx_add_s(
                            m.bodies[0].body.velocity.y as int,
                            fx_mul_s(m.gravity.y as int, FIXED_DT as int),
                        ),
                        m.bodies[0].body.velocity.z as int,
                    ),
                    FIXED_DT as int,
                ),
            ),
            ..m.bodies[0].body
        }),
{
    let b = m.bodies[0].body;
    let dt: int = FIXED_DT as int;
    // Forces: gravity only — the drag coefficient is zero and the body is
    // not grounded.
    lemma_v3_scale_one(m.gravity);
    lemma_v3_zero(m.gravity);
    lemma_fx_zero(v3_mag(b.velocity));
    lemma_v3_zero(b.velocity);
    let f1 = v3_add(b.force, v3_scale(m.gravity, b.mass as int));
    assert(f1 == m.gravity);
    let drag = fx_mul_s(fx_neg_s(0), v3_mag(b.velocity));
    assert(drag == 0);
    lemma_v3_zero(f1);
    let b1 = apply_forces_body(b, m.gravity, 0, m.ground_friction);
    assert(b1 == (RigidBody { force: m.gravity, ..b }));
    // Velocity: the acceleration is the gravity itself for a unit mass.
    lemma_fx_inv_one();
    lemma_v3_scale_one(b1.force);
    let vel = v3_add(b.velocity, v3_scale(m.gravity, dt));
    let b2 = integrate_velocity_body(b1, dt);
    lemma_fx_zero(b.velocity.x as int);
    lemma_fx_zero(b.velocity.z as int);
    lemma_fx_zero(fx_mul_s(m.gravity.y as int, dt));
    assert(fx_mul_s(m.gravity.x as int, dt) == 0) by {
        lemma_fx_zero(dt);
    }
    assert(fx_mul_s(m.gravity.z as int, dt) == 0) by {
        lemma_fx_zero(dt);
    }
    assert(vel == v3(
        b.velocity.x as int,
        fx_add_s(b.velocity.y as int, fx_mul_s(m.gravity.y as int, dt)),
        b.velocity.z as int,
    ));
    assert(b2 == (RigidBody { velocity: vel, force: v3_zero(), ..b }));
    // A single body collides with nothing.
    let s1 = apply_forces_all(m.bodies, m.gravity, m.air_resistance, m.ground_friction);
    let s2 = integrate_velocities_all(s1, dt);
    assert(s1[0] == (BodyEntry { id: m.bodies[0].id, body: b1 }));
    assert(s2[0] == (BodyEntry { id: m.bodies[0].id, body: b2 }));
    assert(s2.len() == 1);
    assert(full_pairs(s2) == Seq::<(usize, usize)>::empty());
    let s3 = resolve_all(s2, full_pairs(s2), 0);
    assert(s3 == s2);
    let s4 = integrate_positions_all(s3, dt);
    assert(s4[0] == (BodyEntry {
        id: m.bodies[0].id,
        body: RigidBody { position: v3_add(b.position, v3_scale(vel, dt)), ..b2 },
    }));
}

/// Gravity integration: starting from rest, after `n` fixed sub-steps the
/// lone falling body's vertical velocity is exactly `n` times `g * h`, and
/// its height is exactly the matching prefix sum — the fixed-point form of
/// the closed-form expressions `v = g*h*n` and `y = y0 + g*h^2*n*(n+1)/2`
/// for semi-implicit Euler.
pub proof fn lemma_gravity_integration(m: WorldModel, n: nat)
    requires
        lone_falling_body(m),
    ensures
        lone_falling_body(iter_steps(m, n)),
        iter_steps(m, n).bodies[0].body.velocity.y as int == fall_velocity_y(
            m.bodies[0].body.velocity.y as int,
            m.gravity.y as int,
            n,
        ),
        iter_steps(m, n).bodies[0].body.position.y as int == fall_position_y(
            m.bodies[0].body.position.y as int,
            m.bodies[0].body.velocity.y as int,
            m.gravity.y as int,
            n,
        ),
        iter_steps(m, n).bodies[0].body.velocity.x == m.bodies[0].body.velocity.x,
        iter_steps(m, n).bodies[0].body.velocity.z == m.bodies[0].body.velocity.z,
        iter_steps(m, n).gravity == m.gravity,
    decreases n,
{
    if n > 0 {
        lemma_gravity_substep(m);
        let m1 = fixed_step_m(m, FIXED_DT as int);
        lemma_gravity_integration(m1, (n - 1) as nat);
        let v0: int = m.bodies[0].body.velocity.y as int;
        let p0: int = m.bodies[0].body.position.y as int;
        let gy: int = m.gravity.y as int;
        let dv: int = fx_mul_s(gy, FIXED_DT as int);
        let v1: int = fx_add_s(v0, dv);
        assert(m1.gravity == m.gravity);
        assert(iter_steps(m, n) == iter_steps(m1, (n - 1) as nat));
        assert(m1.bodies[0].body.velocity.y as int == v1);
        assert(m1.bodies[0].body.position.y as int == fx_add_s(
            p0,
            fx_mul_s(v1, FIXED_DT as int),
        ));
        // The recursions peel sub-steps off opposite ends; shifting the
        // start by one sub-step lines them up.
        lemma_fall_shift(v0, p0, gy, (n - 1) as nat);
        assert(fall_velocity_y(v1, gy, (n - 1) as nat) == fall_velocity_y(v0, gy, n));
        assert(fall_position_y(
            fx_add_s(p0, fx_mul_s(v1, FIXED_DT as int)),
            v1,
            gy,
            (n - 1) as nat,
        ) == fall_position_y(p0, v0, gy, n));
    }
}

/// Peeling the first sub-step off the closed forms: a fall of `n` steps from
/// `(p0, v0)` is a fall of `n - 1` steps from the state after one step.
proof fn lemma_fall_shift(v0: int, p0: int, gy: int, k: nat)
    ensures
        fall_velocity_y(fx_add_s(v0, fx_mul_s(gy, FIXED_DT as int)), gy, k) == fall_velocity_y(
            v0,
            gy,
            (k + 1) as nat,
        ),
        fall_position_y(
            fx_add_s(p0, fx_mul_s(fx_add_s(v0, fx_mul_s(gy, FIXED_DT as int)), FIXED_DT as int)),
            fx_add_s(v0, fx_mul_s(gy, FIXED_DT as int)),
            gy,
            k,
        ) == fall_position_y(p0, v0, gy, (k + 1) as nat),
    decreases k,
{
    let dv = fx_mul_s(gy, FIXED_DT as int);
    let v1 = fx_add_s(v0, dv);
    let p1 = fx_add_s(p0, fx_mul_s(v1, FIXED_DT as int));
    if k > 0 {
        lemma_fall_shift(v0, p0, gy, (k - 1) as nat);
        assert(fall_velocity_y(v1, gy, k) == fx_add_s(
            fall_velocity_y(v1, gy, (k - 1) as nat),
            dv,
        ));
        assert(fall_velocity_y(v0, gy, (k + 1) as nat) == fx_add_s(fall_velocity_y(v0, gy, k), dv));
        assert(fall_position_y(p1, v1, gy, k) == fx_add_s(
            fall_position_y(p1, v1, gy, (k - 1) as nat),
            fx_mul_s(fall_velocity_y(v1, gy, k), FIXED_DT as int),
        ));
        assert(fall_position_y(p0, v0, gy, (k + 1) as nat) == fx_add_s(
            fall_position_y(p0, v0, gy, k),
            fx_mul_s(fall_velocity_y(v0, gy, (k + 1) as nat), FIXED_DT as int),
        ));
    } else {
        assert(fall_velocity_y(v1, gy, 0) == v1);
        assert(fall_velocity_y(v0, gy, 1) == fx_add_s(fall_velocity_y(v0, gy, 0), dv));
        assert(fall_position_y(p1, v1, gy, 0) == p1);
        assert(fall_position_y(p0, v0, gy, 1) == fx_add_s(
            fall_position_y(p0, v0, gy, 0),
            fx_mul_s(fall_velocity_y(v0, gy, 1), FIXED_DT as int),
        ));
    }
}

/// With no saturation in the way, the velocity after `n` sub-steps from rest
/// is exactly `n` times the per-step increment `g * h`.
pub proof fn lemma_fall_velocity_linear(gy: int, n: nat)
    requires
        n * abs_v(fx_mul_s(gy, FIXED_DT as int)) <= i64::MAX as int,
    ensures
        fall_velocity_y(0, gy, n) == n * fx_mul_s(gy, FIXED_DT as int),
    decreases n,
{
    let dv = fx_mul_s(gy, FIXED_DT as int);
    let a = abs_v(dv);
    assert(a >= 0 && (dv >= 0 ==> a == dv) && (dv < 0 ==> a == -dv));
    if n == 0 {
        assert(0 * dv == 0) by (nonlinear_arith);
    } else {
        let k = (n - 1) as nat;
        assert(k * a <= n * a && n * a == k * a + a) by (nonlinear_arith)
            requires a >= 0 && k + 1 == n;
        lemma_fall_velocity_linear(gy, k);
        let prev = k * dv;
        assert(prev + dv == n * dv) by (nonlinear_arith)
            requires k + 1 == n && prev == k * dv;
        if dv >= 0 {
            assert(0 <= prev && prev + dv <= n * a) by (nonlinear_arith)
                requires 0 <= dv && a == dv && k + 1 == n && prev == k * dv;
        } else {
            assert(prev + dv < 0 && -(n * a) <= prev + dv) by (nonlinear_arith)
                requires dv < 0 && a == -dv && k + 1 == n && prev == k * dv;
        }
        assert(i64::MIN <= prev + dv <= i64::MAX);
        assert(fx_add_s(prev, dv) == prev + dv);
    }
}

/// A run of sub-steps keeps every handle in place, and the counter with it.
pub proof fn lemma_run_steps_ids(m: WorldModel)
    ensures
        run_steps_m(m).bodies.len() == m.bodies.len(),
        forall|i: int|
            0 <= i < m.bodies.len() ==> (#[trigger] run_steps_m(m).bodies[i].id)
                == m.bodies[i].id,
        run_steps_m(m).next_id == m.next_id,
        run_steps_m(m).fixed_timestep == m.fixed_timestep,
        run_steps_m(m).gravity == m.gravity,
        run_steps_m(m).air_resistance == m.air_resistance,
        run_steps_m(m).ground_friction == m.ground_friction,
    decreases m.time_accumulator,
{
    if m.fixed_timestep > 0 && m.time_accumulator >= m.fixed_timestep {
        lemma_fixed_step_ids(m, m.fixed_timestep);
        lemma_run_steps_ids(
            WorldModel {
                time_accumulator: m.time_accumulator - m.fixed_timestep,
                ..fixed_step_m(m, m.fixed_timestep)
            },
        );
    }
}

/// Velocity clamp: a Dynamic body with a positive speed cap never leaves
/// velocity integration faster than its cap, whatever force was applied and
/// however many sub-steps run (each sub-step ends with this clamp).  The one
/// proviso: the interim velocity's raw magnitude must be representable — a
/// body already moving near the `i64` bounds saturates the magnitude itself.
pub proof fn lemma_velocity_clamp(b: RigidBody, dt: int)
    requires
        b.body_type == RigidBodyType::Dynamic,
        1 <= b.max_velocity,
        ({
            let vel = v3_add(
                b.velocity,
                v3_scale(v3_scale(b.force, fx_div_s(FX_ONE as int, b.mass as int)), dt),
            );
            crate::fixed::sqrt_i(
                (vel.x as int * vel.x as int + vel.y as int * vel.y as int + vel.z as int
                    * vel.z as int) as nat,
            ) <= i64::MAX as int
        }),
    ensures
        v3_mag(integrate_velocity_body(b, dt).velocity) <= b.max_velocity as int,
{
    let vel = v3_add(
        b.velocity,
        v3_scale(v3_scale(b.force, fx_div_s(FX_ONE as int, b.mass as int)), dt),
    );
    crate::math::lemma_clamp_mag_law(vel, b.max_velocity as int);
}

/// Restitution, fully elastic: a head-on collision along an axis between two
/// equal unit masses with restitution one swaps their velocities along that
/// axis exactly, and leaves the transverse components alone.
pub proof fn lemma_restitution_elastic_swap(e1: BodyEntry, e2: BodyEntry)
    requires
        e1.id != e2.id,
        e1.body.body_type == RigidBodyType::Dynamic,
        e2.body.body_type == RigidBodyType::Dynamic,
        !e1.body.is_trigger,
        !e2.body.is_trigger,
        e1.body.mass == FX_ONE,
        e2.body.mass == FX_ONE,
        e1.body.restitution == FX_ONE,
        e2.body.restitution == FX_ONE,
        e1.body.position.y == e2.body.position.y,
        e1.body.position.z == e2.body.position.z,
        0 < e2.body.position.x - e1.body.position.x <= i64::MAX as int,
        0 < e1.body.velocity.x - e2.body.velocity.x < 0x4000_0000_0000_0000,
    ensures
        ({
            let r = resolve_pair_s(seq![e1, e2], e1.id, e2.id);
            &&& r.len() == 2
            &&& r[0].body.velocity == v3(
                e2.body.velocity.x as int,
                e1.body.velocity.y as int,
                e1.body.velocity.z as int,
            )
            &&& r[1].body.velocity == v3(
                e1.body.velocity.x as int,
                e2.body.velocity.y as int,
                e2.body.velocity.z as int,
            )
        }),
{
    let s = seq![e1, e2];
    let b1 = e1.body;
    let b2 = e2.body;
    let w: int = b1.velocity.x - b2.velocity.x;
    lemma_find_idx_is(s, e1.id, 0);
    lemma_find_idx_is(s, e2.id, 1);
    let normal = lemma_axis_normal(b1, b2);
    let van = v3_dot(v3_sub(b1.velocity, b2.velocity), normal);
    lemma_dot_axis(v3_sub(b1.velocity, b2.velocity));
    assert(fx_sub_s(b1.velocity.x as int, b2.velocity.x as int) == w);
    assert(van == w);
    let sc: int = FX_ONE as int;
    // Averaging two full restitutions yields a full restitution.
    let e = fx_mul_s(fx_add_s(sc, sc), FX_HALF as int);
    assert(2 * sc * FX_HALF as int == sc * sc);
    vstd::arithmetic::div_mod::lemma_div_multiples_vanish(sc, sc);
    assert(e == sc);
    // The impulse scalar works out to the full relative speed, reversed.
    let j0 = fx_mul_s(fx_neg_s(fx_add_s(sc, e)), van);
    assert(div_t(-2 * sc * w, sc) == -2 * w) by {
        vstd::arithmetic::div_mod::lemma_div_multiples_vanish(2 * w, sc);
        assert((-2 * sc * w) * -1 == sc * (2 * w)) by (nonlinear_arith);
        assert(-2 * sc * w < 0) by (nonlinear_arith)
            requires w > 0 && sc > 0;
    }
    assert(j0 == -2 * w);
    lemma_fx_inv_one();
    let denom = fx_add_s(fx_div_s(sc, sc), fx_div_s(sc, sc));
    assert(denom == 2 * sc);
    let j = fx_div_s(j0, denom);
    assert(div_t(-2 * w * sc, 2 * sc) == -w) by {
        vstd::arithmetic::div_mod::lemma_div_multiples_vanish(w, 2 * sc);
        assert((-2 * w * sc) * -1 == (2 * sc) * w) by (nonlinear_arith);
        assert(-2 * w * sc < 0) by (nonlinear_arith)
            requires w > 0 && sc > 0;
    }
    assert(j == -w);
    let impulse = v3_scale(normal, j);
    lemma_fx_mul_one(j);
    lemma_fx_zero(j);
    assert(impulse == v3(-w, 0, 0));
    lemma_v3_scale_one(impulse);
    lemma_fx_zero(b1.velocity.y as int);
    lemma_fx_zero(b1.velocity.z as int);
    lemma_fx_zero(b2.velocity.y as int);
    lemma_fx_zero(b2.velocity.z as int);
    assert(fx_add_s(b1.velocity.x as int, -w) == b2.velocity.x as int);
    assert(fx_sub_s(b2.velocity.x as int, -w) == b1.velocity.x as int);
}

/// Restitution, fully inelastic: the same head-on collision with restitution
/// zero leaves the two bodies with equal velocity along the axis, up to the
/// one-millionth truncation of halving an odd relative speed.
pub proof fn lemma_restitution_inelastic_meet(e1: BodyEntry, e2: BodyEntry)
    requires
        e1.id != e2.id,
        e1.body.body_type == RigidBodyType::Dynamic,
        e2.body.body_type == RigidBodyType::Dynamic,
        !e1.body.is_trigger,
        !e2.body.is_trigger,
        e1.body.mass == FX_ONE,
        e2.body.mass == FX_ONE,
        e1.body.restitution == 0,
        e2.body.restitution == 0,
        e1.body.position.y == e2.body.position.y,
        e1.body.position.z == e2.body.position.z,
        0 < e2.body.position.x - e1.body.position.x <= i64::MAX as int,
        0 < e1.body.velocity.x - e2.body.velocity.x < 0x4000_0000_0000_0000,
    ensures
        ({
            let r = resolve_pair_s(seq![e1, e2], e1.id, e2.id);
            let w = e1.body.velocity.x - e2.body.velocity.x;
            &&& r.len() == 2
            &&& r[0].body.velocity.x == e1.body.velocity.x - w / 2
            &&& r[1].body.velocity.x == e2.body.velocity.x + w / 2
            &&& 0 <= r[0].body.velocity.x - r[1].body.velocity.x <= 1
        }),
{
    let s = seq![e1, e2];
    let b1 = e1.body;
    let b2 = e2.body;
    let w: int = b1.velocity.x - b2.velocity.x;
    lemma_find_idx_is(s, e1.id, 0);
    lemma_find_idx_is(s, e2.id, 1);
    let normal = lemma_axis_normal(b1, b2);
    let van = v3_dot(v3_sub(b1.velocity, b2.velocity), normal);
    lemma_dot_axis(v3_sub(b1.velocity, b2.velocity));
    assert(van == w);
    let sc: int = FX_ONE as int;
    let e = fx_mul_s(fx_add_s(0, 0), FX_HALF as int);
    assert(e == 0);
    let j0 = fx_mul_s(fx_neg_s(fx_add_s(sc, 0)), van);
    assert(div_t(-sc * w, sc) == -w) by {
        vstd::arithmetic::div_mod::lemma_div_multiples_vanish(w, sc);
        assert((-sc * w) * -1 == sc * w) by (nonlinear_arith);
        assert(-sc * w < 0) by (nonlinear_arith)
            requires w > 0 && sc > 0;
    }
    assert(j0 == -w);
    lemma_fx_inv_one();
    let denom = fx_add_s(fx_div_s(sc, sc), fx_div_s(sc, sc));
    assert(denom == 2 * sc);
    let j = fx_div_s(j0, denom);
    assert(div_t(-w * sc, 2 * sc) == -(w / 2)) by {
        vstd::arithmetic::div_mod::lemma_div_multiples_vanish(w, sc);
        assert((-w * sc) * -1 == w * sc) by (nonlinear_arith);
        assert(-w * sc < 0) by (nonlinear_arith)
            requires w > 0 && sc > 0;
        vstd::arithmetic::div_mod::lemma_div_denominator(w * sc, sc, 2);
        assert((w * sc) / sc == w) by {
            assert(w * sc == sc * w) by (nonlinear_arith);
        }
        assert(sc * 2 == 2 * sc);
        assert(w * sc >= 0) by (nonlinear_arith)
            requires w > 0 && sc > 0;
    }
    assert(j == -(w / 2));
    vstd::arithmetic::div_mod::lemma_fundamental_div_mod(w, 2);
    vstd::arithmetic::div_mod::lemma_mod_bound(w, 2);
    assert(0 <= w / 2 <= w);
    let impulse = v3_scale(normal, j);
    lemma_fx_mul_one(j);
    lemma_fx_zero(j);
    assert(impulse == v3(-(w / 2), 0, 0));
    lemma_v3_scale_one(impulse);
    assert(fx_add_s(b1.velocity.x as int, -(w / 2)) == b1.velocity.x - w / 2);
    assert(fx_sub_s(b2.velocity.x as int, -(w / 2)) == b2.velocity.x + w / 2);
}

/// The center-to-center normal of two bodies side by side on the `x` axis is
/// exactly the unit `x` vector.
proof fn lemma_axis_normal(b1: RigidBody, b2: RigidBody) -> (normal: Vector3D)
    requires
        b1.position.y == b2.position.y,
        b1.position.z == b2.position.z,
        0 < b2.position.x - b1.position.x <= i64::MAX as int,
    ensures
        normal == collision_normal_s(b1, b2),
        normal == v3(FX_ONE as int, 0, 0),
{
    let d: int = b2.position.x - b1.position.x;
    let direction = v3_sub(b2.position, b1.position);
    assert(direction == v3(d, 0, 0));
    assert(d * d >= 0) by (nonlinear_arith);
    assert(d * d < (d + 1) * (d + 1)) by (nonlinear_arith)
        requires d > 0;
    crate::fixed::lemma_sqrt_i_unique((d * d) as nat, d as nat);
    assert(sqrt_i((d * d) as nat) == d);
    let dx: int = direction.x as int;
    let dy: int = direction.y as int;
    let dz: int = direction.z as int;
    assert(dx == d && dy == 0 && dz == 0);
    assert(dx * dx + dy * dy + dz * dz == d * d) by (nonlinear_arith)
        requires dx == d && dy == 0 && dz == 0;
    assert(v3_mag(direction) == d);
    assert(div_t(d * FX_ONE as int, d) == FX_ONE as int) by {
        vstd::arithmetic::div_mod::lemma_div_multiples_vanish(FX_ONE as int, d);
        assert(d * FX_ONE as int == d * FX_ONE as int);
        assert(d * FX_ONE as int > 0) by (nonlinear_arith)
            requires d > 0;
    }
    assert(fx_div_s(d, d) == FX_ONE as int);
    assert(fx_div_s(0, d) == 0);
    collision_normal_s(b1, b2)
}

/// Dotting with the unit `x` vector reads off the `x` component.
proof fn lemma_dot_axis(r: Vector3D)
    ensures
        v3_dot(r, v3(FX_ONE as int, 0, 0)) == r.x as int,
{
    lemma_fx_mul_one(r.x as int);
    lemma_fx_zero(r.y as int);
    lemma_fx_zero(r.z as int);
}

/// Stepping a settled world by exactly one sub-step duration runs exactly
/// one fixed sub-step and returns the accumulator to where it was.
pub proof fn lemma_step_one_substep(m: WorldModel)
    requires
        m.fixed_timestep == FIXED_DT,
        0 <= m.time_accumulator < FIXED_DT,
    ensures
        run_steps_m(accumulated_m(m, FIXED_DT as int)) == (WorldModel {
            time_accumulator: m.time_accumulator,
            ..fixed_step_m(m, FIXED_DT as int)
        }),
{
    let m1 = accumulated_m(m, FIXED_DT as int);
    assert(m1.time_accumulator == m.time_accumulator + FIXED_DT);
    let m2 = WorldModel {
        time_accumulator: m1.time_accumulator - FIXED_DT,
        ..fixed_step_m(m1, FIXED_DT as int)
    };
    assert(fixed_step_m(m1, FIXED_DT as int) == (WorldModel {
        time_accumulator: m1.time_accumulator,
        ..fixed_step_m(m, FIXED_DT as int)
    }));
    assert(run_steps_m(m2) == m2);
}

} // verus!
