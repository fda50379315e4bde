//! Scenes and the scene manager.
//!
//! A scene owns its game objects and an embedded physics world, keeps the two
//! keyed by the same strictly increasing handles, synchronizes object
//! transforms from the simulated bodies each frame, and prunes objects that
//! report themselves inactive.  The manager holds a named set of scenes, at
//! most one of them active, and runs a simple timed transition between two
//! scenes.

use vstd::prelude::*;
use crate::fixed::{FX_ONE, FX_HALF, fx_add_s, fx_mul_s, fx_add, fx_mul};
use crate::math::{Vector3D, v3, v3_sub, v3_mag_sq, clamp_s, clamp};
use crate::objects::{
    GameObject, GameObjectKind, Player, Collectible, Enemy, Platform, CollectibleType,
    PlatformType, obj_update, obj_position, obj_size, obj_active, obj_kind, obj_name,
    obj_with_position, obj_with_velocity,
};
use crate::physics::{
    PhysicsWorld, WorldModel, RigidBody, BodyEntry, accumulated_m, run_steps_m, lookup_body,
    find_idx, forced_body, impulsed_body, velocity_set_body, body_updated, raycast_s,
};

verus! {

/// One object under its handle.
pub struct ObjectEntry {
    pub id: usize,
    pub object: GameObject,
}

/// What a scene raycast found: the object's handle and the hit geometry.
#[derive(Debug, Clone, Copy, PartialEq, Eq, Structural)]
pub struct RaycastResult {
    pub object_id: usize,
    pub point: Vector3D,
    pub normal: Vector3D,
    pub distance: i64,
}

/// A scene: objects and bodies under shared handles, plus camera and
/// lighting bookkeeping.
pub struct Scene {
    pub name: String,
    pub objects: Vec<ObjectEntry>,
    pub physics_world: PhysicsWorld,
    pub next_object_id: usize,
    pub active: bool,
    pub background_color: (i64, i64, i64),
    pub ambient_light: i64,
    pub camera_position: Vector3D,
    pub camera_target: Vector3D,
}

/// The first index holding `id` among the objects, or minus one.
pub open spec fn find_oidx(s: Seq<ObjectEntry>, id: usize) -> int
    decreases s.len(),
{
    if s.len() == 0 {
        -1
    } else if s[0].id == id {
        0
    } else {
        let r = find_oidx(s.drop_first(), id);
        if r < 0 {
            -1
        } else {
            r + 1
        }
    }
}

/// `find_oidx` points at the first occurrence.
pub proof fn lemma_find_oidx_is(s: Seq<ObjectEntry>, id: usize, k: int)
    requires
        0 <= k < s.len(),
        s[k].id == id,
        forall|m: int| 0 <= m < k ==> s[m].id != id,
    ensures
        find_oidx(s, id) == k,
    decreases k,
{
    if s[0].id == id {
        assert(k == 0);
    } else {
        assert(forall|m: int|
            0 <= m < k - 1 ==> #[trigger] s.drop_first()[m].id == s[m + 1].id && s[m + 1].id
                != id);
        lemma_find_oidx_is(s.drop_first(), id, k - 1);
    }
}

/// Without an occurrence, `find_oidx` is minus one.
pub proof fn lemma_find_oidx_none(s: Seq<ObjectEntry>, id: usize)
    requires
        forall|m: int| 0 <= m < s.len() ==> s[m].id != id,
    ensures
        find_oidx(s, id) == -1,
    decreases s.len(),
{
    if s.len() > 0 {
        assert(forall|m: int|
            0 <= m < s.len() - 1 ==> #[trigger] s.drop_first()[m].id == s[m + 1].id && s[m + 1].id
                != id);
        lemma_find_oidx_none(s.drop_first(), id);
    }
}

/// The per-frame object pass: each object runs its own update, then — when a
/// body shares its handle — takes the simulated position and velocity
/// (physics is authoritative after the step).
pub open spec fn sync_objs(objs: Seq<ObjectEntry>, bodies: Seq<BodyEntry>, dt: int) -> Seq<
    ObjectEntry,
> {
    Seq::new(
        objs.len(),
        |i: int|
            {
                let o1 = obj_update(objs[i].object, dt);
                match lookup_body(bodies, objs[i].id) {
                    Some(b) => ObjectEntry {
                        id: objs[i].id,
                        object: obj_with_velocity(obj_with_position(o1, b.position), b.velocity),
                    },
                    None => ObjectEntry { id: objs[i].id, object: o1 },
                }
            },
    )
}

/// The objects that survive the sweep: those still reporting active.
pub open spec fn prune_objs(objs: Seq<ObjectEntry>) -> Seq<ObjectEntry>
    decreases objs.len(),
{
    if objs.len() == 0 {
        Seq::empty()
    } else if obj_active(objs[0].object) {
        seq![objs[0]] + prune_objs(objs.drop_first())
    } else {
        prune_objs(objs.drop_first())
    }
}

/// The bodies that survive the sweep: position-wise those whose object (the
/// two sequences are aligned) stays active.
pub open spec fn prune_bodies(objs: Seq<ObjectEntry>, bodies: Seq<BodyEntry>) -> Seq<BodyEntry>
    decreases objs.len(),
{
    if objs.len() == 0 || bodies.len() == 0 {
        bodies
    } else if obj_active(objs[0].object) {
        seq![bodies[0]] + prune_bodies(objs.drop_first(), bodies.drop_first())
    } else {
        prune_bodies(objs.drop_first(), bodies.drop_first())
    }
}

/// Appending one object to the swept prefix keeps it exactly when active.
proof fn lemma_prune_objs_push(objs: Seq<ObjectEntry>, e: ObjectEntry)
    ensures
        prune_objs(objs.push(e)) == (if obj_active(e.object) {
            prune_objs(objs) + seq![e]
        } else {
            prune_objs(objs)
        }),
    decreases objs.len(),
{
    reveal_with_fuel(prune_objs, 3);
    if objs.len() == 0 {
        assert(objs.push(e).drop_first() =~= Seq::<ObjectEntry>::empty());
        assert(objs.push(e)[0] == e);
        if obj_active(e.object) {
            assert(prune_objs(objs.push(e)) =~= prune_objs(objs) + seq![e]);
        } else {
            assert(prune_objs(objs.push(e)) =~= prune_objs(objs));
        }
    } else {
        assert(objs.push(e).drop_first() =~= objs.drop_first().push(e));
        assert(objs.push(e)[0] == objs[0]);
        lemma_prune_objs_push(objs.drop_first(), e);
        if obj_active(e.object) {
            if obj_active(objs[0].object) {
                assert(prune_objs(objs.push(e)) == seq![objs[0]] + (prune_objs(objs.drop_first())
                    + seq![e]));
                assert(prune_objs(objs.push(e)) =~= prune_objs(objs) + seq![e]);
            } else {
                assert(prune_objs(objs.push(e)) =~= prune_objs(objs) + seq![e]);
            }
        } else {
            assert(prune_objs(objs.push(e)) =~= prune_objs(objs));
        }
    }
}

/// The body-side twin of the previous lemma.
proof fn lemma_prune_bodies_push(
    objs: Seq<ObjectEntry>,
    bodies: Seq<BodyEntry>,
    e: ObjectEntry,
    b: BodyEntry,
)
    requires
        objs.len() == bodies.len(),
    ensures
        prune_bodies(objs.push(e), bodies.push(b)) == (if obj_active(e.object) {
            prune_bodies(objs, bodies) + seq![b]
        } else {
            prune_bodies(objs, bodies)
        }),
    decreases objs.len(),
{
    reveal_with_fuel(prune_bodies, 3);
    reveal_with_fuel(prune_objs, 3);
    if objs.len() == 0 {
        assert(objs.push(e).drop_first() =~= Seq::<ObjectEntry>::empty());
        assert(bodies.push(b).drop_first() =~= Seq::<BodyEntry>::empty());
        assert(objs.push(e)[0] == e && bodies.push(b)[0] == b);
        if obj_active(e.object) {
            assert(prune_bodies(objs.push(e), bodies.push(b)) =~= prune_bodies(objs, bodies)
                + seq![b]);
        } else {
            assert(prune_bodies(objs.push(e), bodies.push(b)) =~= prune_bodies(objs, bodies));
        }
    } else {
        assert(objs.push(e).drop_first() =~= objs.drop_first().push(e));
        assert(bodies.push(b).drop_first() =~= bodies.drop_first().push(b));
        assert(objs.push(e)[0] == objs[0] && bodies.push(b)[0] == bodies[0]);
        lemma_prune_bodies_push(objs.drop_first(), bodies.drop_first(), e, b);
        if obj_active(e.object) {
            if obj_active(objs[0].object) {
                assert(prune_bodies(objs.push(e), bodies.push(b)) == seq![bodies[0]]
                    + (prune_bodies(objs.drop_first(), bodies.drop_first()) + seq![b]));
                assert(prune_bodies(objs.push(e), bodies.push(b)) =~= prune_bodies(objs, bodies)
                    + seq![b]);
            } else {
                assert(prune_bodies(objs.push(e), bodies.push(b)) =~= prune_bodies(objs, bodies)
                    + seq![b]);
            }
        } else {
            assert(prune_bodies(objs.push(e), bodies.push(b)) =~= prune_bodies(objs, bodies));
        }
    }
}

/// How one frame relates a scene's pre- and post-state: nothing changes
/// while inactive; otherwise the physics world has run its sub-steps, every
/// object has updated itself and taken its body's transform, and the
/// inactive objects are swept out with their bodies.  The camera, lighting,
/// name and counters stay put.
pub open spec fn scene_updated(pre: Scene, post: Scene, dt: int) -> bool {
    &&& (!pre.active ==> post == pre)
    &&& (pre.active ==> ({
        let w1 = run_steps_m(accumulated_m(pre.physics_world.model(), dt));
        let objs1 = sync_objs(pre.objects@, w1.bodies, dt);
        &&& post.objects@ == prune_objs(objs1)
        &&& post.physics_world.rigid_bodies@ == prune_bodies(objs1, w1.bodies)
        &&& post.physics_world.gravity == w1.gravity
        &&& post.physics_world.air_resistance as int == w1.air_resistance
        &&& post.physics_world.ground_friction as int == w1.ground_friction
        &&& post.physics_world.time_accumulator as int == w1.time_accumulator
        &&& post.physics_world.fixed_timestep as int == w1.fixed_timestep
        &&& post.physics_world.next_id as int == w1.next_id
        &&& post.next_object_id == pre.next_object_id
        &&& post.active
        &&& post.name@ == pre.name@
        &&& post.camera_position == pre.camera_position
        &&& post.camera_target == pre.camera_target
        &&& post.background_color == pre.background_color
        &&& post.ambient_light == pre.ambient_light
    }))
}

impl Scene {
    /// Validity: the physics world is valid, object handles are strictly
    /// increasing and below the counter, and each object shares its handle
    /// with exactly the body at the same position — the scene's central
    /// one-to-one pairing invariant.
    pub open spec fn wf(self) -> bool {
        &&& self.physics_world.wf()
        &&& self.objects@.len() == self.physics_world.rigid_bodies@.len()
        &&& forall|i: int|
            0 <= i < self.objects@.len() ==> (#[trigger] self.objects@[i].id)
                == self.physics_world.rigid_bodies@[i].id
        &&& forall|i: int, j: int|
            0 <= i < j < self.objects@.len() ==> (#[trigger] self.objects@[i].id) < (
            #[trigger] self.objects@[j].id)
        &&& forall|i: int|
            0 <= i < self.objects@.len() ==> (#[trigger] self.objects@[i].id)
                < self.next_object_id
        &&& self.next_object_id == self.physics_world.next_id
    }

    /// An empty, active scene with the default camera and lighting.
    pub fn new(name: &str) -> (r: Self)
        ensures
            r.wf(),
            r.name@ == name@,
            r.objects@ == Seq::<ObjectEntry>::empty(),
            r.next_object_id == 0,
            r.active,
            r.background_color == (100_000i64, 100_000i64, 200_000i64),
            r.ambient_light == 300_000,
            r.camera_position == v3(0, 5 * FX_ONE as int, 10 * FX_ONE as int),
            r.camera_target == crate::math::v3_zero(),
            crate::physics::fresh_world(r.physics_world),
    {
        Scene {
            name: name.to_owned(),
            objects: Vec::new(),
            physics_world: PhysicsWorld::new(),
            next_object_id: 0,
            active: true,
            background_color: (100_000, 100_000, 200_000),
            ambient_light: 300_000,
            camera_position: Vector3D::new(0, 5 * FX_ONE, 10 * FX_ONE),
            camera_target: Vector3D::zero(),
        }
    }

    /// Inserts an object under a fresh handle, paired with a Dynamic body
    /// sized and positioned from the object.
    pub fn add_object(&mut self, object: GameObject) -> (id: usize)
        requires
            old(self).wf(),
            old(self).next_object_id < usize::MAX,
        ensures
            final(self).wf(),
            id == old(self).next_object_id,
            final(self).objects@ == old(self).objects@.push(ObjectEntry { id, object }),
            final(self).physics_world.rigid_bodies@ == old(self).physics_world.rigid_bodies@.push(
                BodyEntry {
                    id,
                    body: RigidBody {
                        position: obj_position(object),
                        velocity: crate::math::v3_zero(),
                        force: crate::math::v3_zero(),
                        mass: FX_ONE,
                        restitution: crate::physics::DEFAULT_RESTITUTION,
                        size: obj_size(object),
                        body_type: crate::physics::RigidBodyType::Dynamic,
                        use_gravity: true,
                        is_trigger: false,
                        grounded: false,
                        max_velocity: 0,
                    },
                },
            ),
            final(self).next_object_id == old(self).next_object_id + 1,
            final(self).active == old(self).active,
            final(self).name@ == old(self).name@,
    {
        let id: usize = self.next_object_id;
        self.next_object_id = self.next_object_id + 1;
        let position: Vector3D = object.get_position();
        let size: Vector3D = object.get_size();
        let physics_body: RigidBody = RigidBody::new(position, size);
        self.physics_world.add_rigid_body(physics_body);
        self.objects.push(ObjectEntry { id, object });
        id
    }

    /// Inserts an object under a fresh handle, paired with a Static body.
    pub fn add_static_object(&mut self, object: GameObject) -> (id: usize)
        requires
            old(self).wf(),
            old(self).next_object_id < usize::MAX,
        ensures
            final(self).wf(),
            id == old(self).next_object_id,
            final(self).objects@ == old(self).objects@.push(ObjectEntry { id, object }),
            final(self).physics_world.rigid_bodies@ == old(self).physics_world.rigid_bodies@.push(
                BodyEntry {
                    id,
                    body: RigidBody {
                        position: obj_position(object),
                        velocity: crate::math::v3_zero(),
                        force: crate::math::v3_zero(),
                        mass: i64::MAX,
                        restitution: crate::physics::DEFAULT_RESTITUTION,
                        size: obj_size(object),
                        body_type: crate::physics::RigidBodyType::Static,
                        use_gravity: false,
                        is_trigger: false,
                        grounded: false,
                        max_velocity: 0,
                    },
                },
            ),
            final(self).next_object_id == old(self).next_object_id + 1,
            final(self).active == old(self).active,
            final(self).name@ == old(self).name@,
    {
        let id: usize = self.next_object_id;
        self.next_object_id = self.next_object_id + 1;
        let position: Vector3D = object.get_position();
        let size: Vector3D = object.get_size();
        let physics_body: RigidBody = RigidBody::new_static(position, size);
        self.physics_world.add_rigid_body(physics_body);
        self.objects.push(ObjectEntry { id, object });
        id
    }

    /// Removes the object under `id` together with its paired body; reports
    /// whether it existed.
    pub fn remove_object(&mut self, id: usize) -> (r: bool)
        requires
            old(self).wf(),
        ensures
            final(self).wf(),
            r == (find_oidx(old(self).objects@, id) >= 0),
            final(self).objects@ == (if find_oidx(old(self).objects@, id) >= 0 {
                old(self).objects@.remove(find_oidx(old(self).objects@, id))
            } else {
                old(self).objects@
            }),
            final(self).physics_world.rigid_bodies@ == (if find_oidx(old(self).objects@, id)
                >= 0 {
                old(self).physics_world.rigid_bodies@.remove(find_oidx(old(self).objects@, id))
            } else {
                old(self).physics_world.rigid_bodies@
            }),
            final(self).next_object_id == old(self).next_object_id,
            final(self).active == old(self).active,
            final(self).name@ == old(self).name@,
            final(self).physics_world.next_id == old(self).physics_world.next_id,
    {
        let ghost s = self.objects@;
        let ghost bs = self.physics_world.rigid_bodies@;
        let n: usize = self.objects.len();
        let mut i: usize = 0;
        while i < n
            invariant
                i <= n == self.objects.len(),
                old(self).wf(),
                self.objects@ == s,
                self.physics_world.rigid_bodies@ == bs,
                forall|m: int| 0 <= m < i ==> s[m].id != id,
                *self == *old(self),
            decreases n - i,
        {
            if self.objects[i].id == id {
                proof {
                    assert(bs.len() == s.len());
                    assert(bs[i as int].id == s[i as int].id);
                    assert forall|m: int| 0 <= m < i as int implies bs[m].id != id by {
                        assert(bs[m].id == s[m].id);
                    }
                    lemma_find_oidx_is(s, id, i as int);
                    crate::physics::lemma_find_idx_is(bs, id, i as int);
                }
                self.objects.remove(i);
                self.physics_world.remove_rigid_body(id);
                proof {
                    s.remove_ensures(i as int);
                    bs.remove_ensures(i as int);
                    let t = self.objects@;
                    let tb = self.physics_world.rigid_bodies@;
                    assert(t == s.remove(i as int));
                    assert(tb == bs.remove(i as int));
                    assert forall|a: int| 0 <= a < t.len() implies #[trigger] t[a] == (if a < i
                        as int {
                        s[a]
                    } else {
                        s[a + 1]
                    }) by {}
                    assert forall|a: int| 0 <= a < tb.len() implies #[trigger] tb[a] == (if a < i
                        as int {
                        bs[a]
                    } else {
                        bs[a + 1]
                    }) by {}
                    assert(self.wf());
                }
                return true;
            }
            i = i + 1;
        }
        proof {
            lemma_find_oidx_none(s, id);
        }
        false
    }

    /// The object under `id`, if it is live.
    pub fn get_object(&self, id: usize) -> (r: Option<&GameObject>)
        ensures
            match r {
                Some(o) => find_oidx(self.objects@, id) >= 0 && *o == self.objects@[find_oidx(
                    self.objects@,
                    id,
                )].object,
                None => find_oidx(self.objects@, id) == -1,
            },
    {
        let ghost s = self.objects@;
        let n: usize = self.objects.len();
        let mut i: usize = 0;
        while i < n
            invariant
                i <= n == self.objects.len(),
                self.objects@ == s,
                forall|m: int| 0 <= m < i ==> s[m].id != id,
            decreases n - i,
        {
            if self.objects[i].id == id {
                proof {
                    lemma_find_oidx_is(s, id, i as int);
                }
                return Some(&self.objects[i].object);
            }
            i = i + 1;
        }
        proof {
            lemma_find_oidx_none(s, id);
        }
        None
    }

    /// A mutable borrow of the object under `id`, if it is live.  The caller
    /// may change the object; the scene keeps its handle and every other
    /// entry, and the physics world and bookkeeping stay put.
    pub fn get_object_mut(&mut self, id: usize) -> (r: Option<&mut GameObject>)
        ensures
            find_oidx(old(self).objects@, id) == -1 ==> r is None && *final(self) == *old(self),
            find_oidx(old(self).objects@, id) >= 0 ==> ({
                let j = find_oidx(old(self).objects@, id);
                &&& r matches Some(o)
                &&& *o == old(self).objects@[j].object
                &&& final(self).objects@.len() == old(self).objects@.len()
                &&& forall|k: int|
                    0 <= k < old(self).objects@.len() && k != j ==> final(self).objects@[k] == old(
                        self,
                    ).objects@[k]
                &&& final(self).objects@[j].id == id
                &&& final(self).objects@[j].object == *final(o)
                &&& final(self).physics_world == old(self).physics_world
                &&& final(self).next_object_id == old(self).next_object_id
                &&& final(self).active == old(self).active
                &&& final(self).name == old(self).name
                &&& final(self).camera_position == old(self).camera_position
                &&& final(self).camera_target == old(self).camera_target
                &&& final(self).background_color == old(self).background_color
                &&& final(self).ambient_light == old(self).ambient_light
            }),
    {
        let ghost s = self.objects@;
        let n: usize = self.objects.len();
        let mut i: usize = 0;
        while i < n
            invariant
                i <= n == self.objects.len(),
                self.objects@ == s,
                forall|m: int| 0 <= m < i ==> s[m].id != id,
                *self == *old(self),
            decreases n - i,
        {
            if self.objects[i].id == id {
                proof {
                    lemma_find_oidx_is(s, id, i as int);
                }
                return Some(&mut self.objects[i].object);
            }
            i = i + 1;
        }
        proof {
            lemma_find_oidx_none(s, id);
        }
        None
    }

    /// The handle and object of the first object carrying `name`.
    pub fn find_object_by_name(&self, name: &str) -> (r: Option<(usize, &GameObject)>)
        ensures
            match r {
                Some(p) => exists|i: int|
                    0 <= i < self.objects@.len() && (#[trigger] self.objects@[i]).id == p.0
                        && obj_name(self.objects@[i].object) == name@,
                None => forall|i: int|
                    0 <= i < self.objects@.len() ==> obj_name(
                        (#[trigger] self.objects@[i]).object,
                    ) != name@,
            },
    {
        let n: usize = self.objects.len();
        let mut i: usize = 0;
        while i < n
            invariant
                i <= n == self.objects.len(),
                forall|m: int|
                    0 <= m < i ==> obj_name((#[trigger] self.objects@[m]).object) != name@,
            decreases n - i,
    {
            if crate::str_eq(self.objects[i].object.get_name(), name) {
                return Some((self.objects[i].id, &self.objects[i].object));
            }
            i = i + 1;
        }
        None
    }

    /// The handles of every live object of the given kind, in handle order.
    pub fn find_objects_by_type(&self, kind: GameObjectKind) -> (r: Vec<usize>)
        ensures
            r@ == ids_of_kind_from(self.objects@, kind, 0),
    {
        let ghost s = self.objects@;
        let mut results: Vec<usize> = Vec::new();
        let n: usize = self.objects.len();
        let mut i: usize = 0;
        while i < n
            invariant
                i <= n == self.objects.len(),
                self.objects@ == s,
                results@ + ids_of_kind_from(s, kind, i as int) == ids_of_kind_from(s, kind, 0),
            decreases n - i,
        {
            let ghost r0 = results@;
            if self.objects[i].object.kind() == kind {
                results.push(self.objects[i].id);
                proof {
                    let rest = ids_of_kind_from(s, kind, i as int + 1);
                    assert(results@ =~= r0 + seq![s[i as int].id]);
                    assert((r0 + seq![s[i as int].id]) + rest =~= r0 + (seq![s[i as int].id]
                        + rest));
                }
            }
            i = i + 1;
        }
        proof {
            assert(results@ + ids_of_kind_from(s, kind, n as int) =~= results@);
        }
        results
    }

    pub fn get_object_count(&self) -> (r: usize)
        ensures
            r == self.objects@.len(),
    {
        self.objects.len()
    }

    /// Every live handle, in handle order.
    pub fn get_all_object_ids(&self) -> (r: Vec<usize>)
        ensures
            r@.len() == self.objects@.len(),
            forall|i: int| 0 <= i < r@.len() ==> r@[i] == (#[trigger] self.objects@[i]).id,
    {
        let n: usize = self.objects.len();
        let mut ids: Vec<usize> = Vec::new();
        let mut i: usize = 0;
        while i < n
            invariant
                i <= n == self.objects.len(),
                ids@.len() == i,
                forall|m: int| 0 <= m < i ==> ids@[m] == (#[trigger] self.objects@[m]).id,
            decreases n - i,
        {
            ids.push(self.objects[i].id);
            i = i + 1;
        }
        ids
    }

    /// Adds a freshly built player avatar, paired with a Dynamic body of the
    /// player's size under gravity.
    pub fn add_player(&mut self, position: Vector3D) -> (id: usize)
        requires
            old(self).wf(),
            old(self).next_object_id < usize::MAX,
        ensures
            final(self).wf(),
            id == old(self).next_object_id,
            final(self).objects@.len() == old(self).objects@.len() + 1,
            forall|k: int|
                0 <= k < old(self).objects@.len() ==> final(self).objects@[k] == old(
                    self,
                ).objects@[k],
            final(self).objects@[old(self).objects@.len() as int].id == id,
            crate::objects::is_new_player(
                final(self).objects@[old(self).objects@.len() as int].object,
                position,
            ),
            final(self).physics_world.rigid_bodies@ == old(self).physics_world.rigid_bodies@.push(
                BodyEntry {
                    id,
                    body: RigidBody {
                        position,
                        velocity: crate::math::v3_zero(),
                        force: crate::math::v3_zero(),
                        mass: FX_ONE,
                        restitution: crate::physics::DEFAULT_RESTITUTION,
                        size: v3(FX_ONE as int, 2 * FX_ONE as int, FX_ONE as int),
                        body_type: crate::physics::RigidBodyType::Dynamic,
                        use_gravity: true,
                        is_trigger: false,
                        grounded: false,
                        max_velocity: 0,
                    },
                },
            ),
            final(self).next_object_id == old(self).next_object_id + 1,
            final(self).active == old(self).active,
            final(self).name@ == old(self).name@,
    {
        let player: Player = Player::new(position);
        self.add_object(GameObject::Player(player))
    }

    /// Adds a freshly built coin collectible, paired with a Dynamic body of
    /// the collectible's size under gravity.
    pub fn add_collectible(&mut self, position: Vector3D, value: i32) -> (id: usize)
        requires
            old(self).wf(),
            old(self).next_object_id < usize::MAX,
        ensures
            final(self).wf(),
            id == old(self).next_object_id,
            final(self).objects@.len() == old(self).objects@.len() + 1,
            forall|k: int|
                0 <= k < old(self).objects@.len() ==> final(self).objects@[k] == old(
                    self,
                ).objects@[k],
            final(self).objects@[old(self).objects@.len() as int].id == id,
            crate::objects::is_new_collectible(
                final(self).objects@[old(self).objects@.len() as int].object,
                position,
                value,
                CollectibleType::Coin,
            ),
            final(self).physics_world.rigid_bodies@ == old(self).physics_world.rigid_bodies@.push(
                BodyEntry {
                    id,
                    body: RigidBody {
                        position,
                        velocity: crate::math::v3_zero(),
                        force: crate::math::v3_zero(),
                        mass: FX_ONE,
                        restitution: crate::physics::DEFAULT_RESTITUTION,
                        size: v3(600_000, 600_000, 600_000),
                        body_type: crate::physics::RigidBodyType::Dynamic,
                        use_gravity: true,
                        is_trigger: false,
                        grounded: false,
                        max_velocity: 0,
                    },
                },
            ),
            final(self).next_object_id == old(self).next_object_id + 1,
            final(self).active == old(self).active,
            final(self).name@ == old(self).name@,
    {
        let collectible: Collectible = Collectible::new(position, value, CollectibleType::Coin);
        self.add_object(GameObject::Collectible(collectible))
    }

    /// Adds a freshly built enemy, paired with a Dynamic body of the enemy's
    /// size under gravity.
    pub fn add_enemy(&mut self, position: Vector3D) -> (id: usize)
        requires
            old(self).wf(),
            old(self).next_object_id < usize::MAX,
        ensures
            final(self).wf(),
            id == old(self).next_object_id,
            final(self).objects@.len() == old(self).objects@.len() + 1,
            forall|k: int|
                0 <= k < old(self).objects@.len() ==> final(self).objects@[k] == old(
                    self,
                ).objects@[k],
            final(self).objects@[old(self).objects@.len() as int].id == id,
            crate::objects::is_new_enemy(
                final(self).objects@[old(self).objects@.len() as int].object,
                position,
            ),
            final(self).physics_world.rigid_bodies@ == old(self).physics_world.rigid_bodies@.push(
                BodyEntry {
                    id,
                    body: RigidBody {
                        position,
                        velocity: crate::math::v3_zero(),
                        force: crate::math::v3_zero(),
                        mass: FX_ONE,
                        restitution: crate::physics::DEFAULT_RESTITUTION,
                        size: v3(FX_ONE as int, 1_500_000, FX_ONE as int),
                        body_type: crate::physics::RigidBodyType::Dynamic,
                        use_gravity: true,
                        is_trigger: false,
                        grounded: false,
                        max_velocity: 0,
                    },
                },
            ),
            final(self).next_object_id == old(self).next_object_id + 1,
            final(self).active == old(self).active,
            final(self).name@ == old(self).name@,
    {
        let enemy: Enemy = Enemy::new(position);
        self.add_object(GameObject::Enemy(enemy))
    }

    /// Adds a freshly built platform of the given size and position, paired
    /// with an immovable Static body of the same size and position.
    pub fn add_platform(&mut self, size: Vector3D, position: Vector3D) -> (id: usize)
        requires
            old(self).wf(),
            old(self).next_object_id < usize::MAX,
        ensures
            final(self).wf(),
            id == old(self).next_object_id,
            final(self).objects@.len() == old(self).objects@.len() + 1,
            forall|k: int|
                0 <= k < old(self).objects@.len() ==> final(self).objects@[k] == old(
                    self,
                ).objects@[k],
            final(self).objects@[old(self).objects@.len() as int].id == id,
            crate::objects::is_new_platform(
                final(self).objects@[old(self).objects@.len() as int].object,
                size,
                position,
                PlatformType::Static,
            ),
            final(self).physics_world.rigid_bodies@ == old(self).physics_world.rigid_bodies@.push(
                BodyEntry {
                    id,
                    body: RigidBody {
                        position,
                        velocity: crate::math::v3_zero(),
                        force: crate::math::v3_zero(),
                        mass: i64::MAX,
                        restitution: crate::physics::DEFAULT_RESTITUTION,
                        size,
                        body_type: crate::physics::RigidBodyType::Static,
                        use_gravity: false,
                        is_trigger: false,
                        grounded: false,
                        max_velocity: 0,
                    },
                },
            ),
            final(self).next_object_id == old(self).next_object_id + 1,
            final(self).active == old(self).active,
            final(self).name@ == old(self).name@,
    {
        let platform: Platform = Platform::new(size, position, PlatformType::Static);
        self.add_static_object(GameObject::Platform(platform))
    }

    pub fn get_physics_world(&self) -> (r: &PhysicsWorld)
        ensures
            r == &self.physics_world,
    {
        &self.physics_world
    }

    /// A mutable borrow of the embedded world.  A caller that adds or
    /// removes bodies through it on its own breaks the scene's pairing
    /// invariant, and the scene methods requiring validity are then out of
    /// reach until the pairing is restored.
    pub fn get_physics_world_mut(&mut self) -> (r: &mut PhysicsWorld)
        ensures
            *r == old(self).physics_world,
            *final(self) == (Scene { physics_world: *final(r), ..*old(self) }),
    {
        &mut self.physics_world
    }

    /// Applies a force to the body paired with `id`; absent handles are a
    /// silent no-op.
    pub fn apply_force_to_object(&mut self, object_id: usize, force: Vector3D)
        requires
            old(self).wf(),
        ensures
            final(self).wf(),
            final(self).physics_world.rigid_bodies@ == body_updated(
                old(self).physics_world.rigid_bodies@,
                object_id,
                forced_body(lookup_body(old(self).physics_world.rigid_bodies@, object_id), force),
            ),
            final(self).objects@ == old(self).objects@,
            final(self).active == old(self).active,
    {
        self.physics_world.body_add_force(object_id, force);
        proof {
            crate::physics::lemma_find_idx_bounds(old(self).physics_world.rigid_bodies@, object_id);
        }
    }

    /// Applies an impulse to the body paired with `id`; absent handles are a
    /// silent no-op.
    pub fn apply_impulse_to_object(&mut self, object_id: usize, impulse: Vector3D)
        requires
            old(self).wf(),
        ensures
            final(self).wf(),
            final(self).physics_world.rigid_bodies@ == body_updated(
                old(self).physics_world.rigid_bodies@,
                object_id,
                impulsed_body(
                    lookup_body(old(self).physics_world.rigid_bodies@, object_id),
                    impulse,
                ),
            ),
            final(self).objects@ == old(self).objects@,
            final(self).active == old(self).active,
    {
        self.physics_world.body_add_impulse(object_id, impulse);
        proof {
            crate::physics::lemma_find_idx_bounds(old(self).physics_world.rigid_bodies@, object_id);
        }
    }

    /// Sets the velocity of the body paired with `id`; absent handles are a
    /// silent no-op.
    pub fn set_object_velocity(&mut self, object_id: usize, velocity: Vector3D)
        requires
            old(self).wf(),
        ensures
            final(self).wf(),
            final(self).physics_world.rigid_bodies@ == body_updated(
                old(self).physics_world.rigid_bodies@,
                object_id,
                velocity_set_body(
                    lookup_body(old(self).physics_world.rigid_bodies@, object_id),
                    velocity,
                ),
            ),
            final(self).objects@ == old(self).objects@,
            final(self).active == old(self).active,
    {
        self.physics_world.body_set_velocity(object_id, velocity);
        proof {
            crate::physics::lemma_find_idx_bounds(old(self).physics_world.rigid_bodies@, object_id);
        }
    }

    pub fn get_name(&self) -> (r: &str)
        ensures
            r@ == self.name@,
    {
        self.name.as_str()
    }

    pub fn set_name(&mut self, name: &str)
        ensures
            final(self).name@ == name@,
            *final(self) == (Scene { name: final(self).name, ..*old(self) }),
    {
        self.name = name.to_owned();
    }

    pub fn is_active(&self) -> (r: bool)
        ensures
            r == self.active,
    {
        self.active
    }

    pub fn set_active(&mut self, active: bool)
        ensures
            *final(self) == (Scene { active, ..*old(self) }),
    {
        self.active = active;
    }

    pub fn get_background_color(&self) -> (r: (i64, i64, i64))
        ensures
            r == self.background_color,
    {
        self.background_color
    }

    /// Sets the background color, each channel clamped into `[0, 1]`.
    pub fn set_background_color(&mut self, r: i64, g: i64, b: i64)
        ensures
            *final(self) == (Scene {
                background_color: (
                    clamp_s(r as int, 0, FX_ONE as int) as i64,
                    clamp_s(g as int, 0, FX_ONE as int) as i64,
                    clamp_s(b as int, 0, FX_ONE as int) as i64,
                ),
                ..*old(self)
            }),
    {
        self.background_color = (clamp(r, 0, FX_ONE), clamp(g, 0, FX_ONE), clamp(b, 0, FX_ONE));
    }

    pub fn get_ambient_light(&self) -> (r: i64)
        ensures
            r == self.ambient_light,
    {
        self.ambient_light
    }

    /// Sets the ambient intensity, clamped into `[0, 1]`.
    pub fn set_ambient_light(&mut self, intensity: i64)
        ensures
            *final(self) == (Scene {
                ambient_light: clamp_s(intensity as int, 0, FX_ONE as int) as i64,
                ..*old(self)
            }),
    {
        self.ambient_light = clamp(intensity, 0, FX_ONE);
    }

    pub fn get_camera_position(&self) -> (r: Vector3D)
        ensures
            r == self.camera_position,
    {
        self.camera_position
    }

    pub fn set_camera_position(&mut self, position: Vector3D)
        ensures
            *final(self) == (Scene { camera_position: position, ..*old(self) }),
    {
        self.camera_position = position;
    }

    pub fn get_camera_target(&self) -> (r: Vector3D)
        ensures
            r == self.camera_target,
    {
        self.camera_target
    }

    pub fn set_camera_target(&mut self, target: Vector3D)
        ensures
            *final(self) == (Scene { camera_target: target, ..*old(self) }),
    {
        self.camera_target = target;
    }

    pub fn move_camera(&mut self, delta: Vector3D)
        ensures
            *final(self) == (Scene {
                camera_position: crate::math::v3_add(old(self).camera_position, delta),
                ..*old(self)
            }),
    {
        self.camera_position = self.camera_position.add(delta);
    }

    pub fn look_at(&mut self, target: Vector3D)
        ensures
            *final(self) == (Scene { camera_target: target, ..*old(self) }),
    {
        self.camera_target = target;
    }

    /// Drops every object, replaces the physics world with a fresh one and
    /// resets the handle counter.
    pub fn clear(&mut self)
        ensures
            final(self).wf(),
            final(self).objects@ == Seq::<ObjectEntry>::empty(),
            crate::physics::fresh_world(final(self).physics_world),
            final(self).next_object_id == 0,
            final(self).name@ == old(self).name@,
            final(self).active == old(self).active,
    {
        self.objects = Vec::new();
        self.physics_world = PhysicsWorld::new();
        self.next_object_id = 0;
    }

    /// The handles of all objects within `radius` of `center`, by squared
    /// distance, in handle order.
    pub fn get_objects_in_radius(&self, center: Vector3D, radius: i64) -> (r: Vec<usize>)
        ensures
            r@ == ids_in_radius_from(self.objects@, center, radius as int, 0),
    {
        let ghost s = self.objects@;
        let mut results: Vec<usize> = Vec::new();
        let radius_squared: i64 = fx_mul(radius, radius);
        let n: usize = self.objects.len();
        let mut i: usize = 0;
        while i < n
            invariant
                i <= n == self.objects.len(),
                self.objects@ == s,
                radius_squared as int == fx_mul_s(radius as int, radius as int),
                results@ + ids_in_radius_from(s, center, radius as int, i as int)
                    == ids_in_radius_from(s, center, radius as int, 0),
            decreases n - i,
        {
            let ghost r0 = results@;
            let p: Vector3D = self.objects[i].object.get_position();
            let distance_squared: i64 = p.sub(center).magnitude_squared();
            if distance_squared <= radius_squared {
                results.push(self.objects[i].id);
                proof {
                    let rest = ids_in_radius_from(s, center, radius as int, i as int + 1);
                    assert(results@ =~= r0 + seq![s[i as int].id]);
                    assert((r0 + seq![s[i as int].id]) + rest =~= r0 + (seq![s[i as int].id]
                        + rest));
                }
            }
            i = i + 1;
        }
        proof {
            assert(results@ + ids_in_radius_from(s, center, radius as int, n as int) =~= results@);
        }
        results
    }

    /// The handle of the object nearest to `position`, with its distance; a
    /// later object replaces the running best only when strictly nearer.
    pub fn get_closest_object(&self, position: Vector3D) -> (r: Option<(usize, i64)>)
        ensures
            r == closest_from(self.objects@, position, 0, None::<(usize, i64)>),
    {
        let ghost s = self.objects@;
        let mut closest: Option<(usize, i64)> = None;
        let n: usize = self.objects.len();
        let mut i: usize = 0;
        while i < n
            invariant
                i <= n == self.objects.len(),
                self.objects@ == s,
                closest_from(s, position, 0, None::<(usize, i64)>) == closest_from(
                    s,
                    position,
                    i as int,
                    closest,
                ),
            decreases n - i,
        {
            let p: Vector3D = self.objects[i].object.get_position();
            let d: i64 = p.sub(position).magnitude();
            let better: bool = match closest {
                Some(pair) => d < pair.1,
                None => true,
            };
            if better {
                closest = Some((self.objects[i].id, d));
            }
            i = i + 1;
        }
        closest
    }

    /// Delegates to the physics world and translates the body handle into
    /// the public result shape.
    pub fn raycast(&self, origin: Vector3D, direction: Vector3D, max_distance: i64) -> (r: Option<
        RaycastResult,
    >)
        ensures
            match raycast_s(
                self.physics_world.rigid_bodies@,
                origin,
                direction,
                max_distance as int,
            ) {
                Some(hit) => r == Some(
                    RaycastResult {
                        object_id: hit.body_id,
                        point: hit.point,
                        normal: hit.normal,
                        distance: hit.distance,
                    },
                ),
                None => r is None,
            },
    {
        match self.physics_world.raycast(origin, direction, max_distance) {
            Some(hit) => Some(
                RaycastResult {
                    object_id: hit.body_id,
                    point: hit.point,
                    normal: hit.normal,
                    distance: hit.distance,
                },
            ),
            None => None,
        }
    }

    /// The rendering hook: drawing is the embedding renderer's concern, so
    /// the scene itself has nothing to do here.
    pub fn render(&self) {
    }

    /// A sphere overlap query: the same scan as `get_objects_in_radius`.
    pub fn overlap_sphere(&self, center: Vector3D, radius: i64) -> (r: Vec<usize>)
        ensures
            r@ == ids_in_radius_from(self.objects@, center, radius as int, 0),
    {
        self.get_objects_in_radius(center, radius)
    }

    /// One frame: a no-op while inactive; otherwise step the physics by the
    /// frame delta, run every object's own update and overwrite its
    /// transform from its simulated body, then sweep out the objects that
    /// report inactive, each with its paired body.
    pub fn update(&mut self, delta_time: i64)
        requires
            old(self).wf(),
        ensures
            final(self).wf(),
            scene_updated(*old(self), *final(self), delta_time as int),
    {
        if !self.active {
            return ;
        }
        let ghost m0 = self.physics_world.model();
        self.physics_world.step(delta_time);
        let ghost w1 = self.physics_world.model();
        let ghost objs0 = self.objects@;
        let ghost target = sync_objs(objs0, w1.bodies, delta_time as int);
        proof {
            crate::physics::lemma_run_steps_ids(accumulated_m(m0, delta_time as int));
        }
        // Object pass: each object updates itself, then takes its body's
        // position and velocity.
        let n: usize = self.objects.len();
        let mut i: usize = 0;
        while i < n
            invariant
                i <= n,
                self.objects@.len() == n == objs0.len(),
                target == sync_objs(objs0, w1.bodies, delta_time as int),
                self.physics_world.model() == w1,
                self.physics_world.wf(),
                forall|k: int| 0 <= k < i ==> self.objects@[k] == target[k],
                forall|k: int| i <= k < n ==> self.objects@[k] == objs0[k],
                self.next_object_id == old(self).next_object_id,
                self.active,
                self.name@ == old(self).name@,
                self.camera_position == old(self).camera_position,
                self.camera_target == old(self).camera_target,
                self.background_color == old(self).background_color,
                self.ambient_light == old(self).ambient_light,
            decreases n - i,
        {
            let ghost before = self.objects@;
            let mut e: ObjectEntry = self.objects.remove(i);
            e.object.update(delta_time);
            match self.physics_world.get_rigid_body(e.id) {
                Some(body) => {
                    let pos: Vector3D = body.position;
                    let vel: Vector3D = body.velocity;
                    e.object.set_position(pos);
                    e.object.set_velocity(vel);
                },
                None => {},
            }
            self.objects.insert(i, e);
            proof {
                before.remove_ensures(i as int);
                assert(self.objects@ =~= before.update(i as int, self.objects@[i as int]));
                assert(self.objects@[i as int] == target[i as int]);
            }
            i = i + 1;
        }
        proof {
            assert(self.objects@ =~= target);
            assert(forall|a: int|
                0 <= a < n ==> (#[trigger] target[a].id) == objs0[a].id);
            assert(forall|a: int|
                0 <= a < n ==> (#[trigger] w1.bodies[a].id) == objs0[a].id);
        }
        // Sweep: drop every object that reports inactive, with its body.
        let ghost bod1 = self.physics_world.rigid_bodies@;
        let mut kept: Vec<ObjectEntry> = Vec::new();
        let mut j: usize = 0;
        while j < n
            invariant
                j <= n,
                self.objects@ == target.subrange(j as int, n as int),
                n == target.len(),
                bod1 == w1.bodies,
                bod1.len() == n,
                target == sync_objs(objs0, w1.bodies, delta_time as int),
                kept@ == prune_objs(target.subrange(0, j as int)),
                self.physics_world.rigid_bodies@ == prune_bodies(
                    target.subrange(0, j as int),
                    bod1.subrange(0, j as int),
                ) + bod1.subrange(j as int, n as int),
                forall|a: int, b: int|
                    0 <= a < b < n ==> (#[trigger] target[a].id) < (#[trigger] target[b].id),
                forall|a: int| 0 <= a < n ==> (#[trigger] target[a].id) == bod1[a].id,
                forall|a: int|
                    0 <= a < n ==> (#[trigger] target[a].id) < self.next_object_id,
                self.physics_world.model() == (WorldModel {
                    bodies: self.physics_world.rigid_bodies@,
                    ..w1
                }),
                self.physics_world.wf(),
                self.physics_world.fixed_timestep == w1.fixed_timestep,
                self.physics_world.next_id as int == w1.next_id,
                self.next_object_id == old(self).next_object_id,
                self.next_object_id as int == w1.next_id,
                self.active,
                self.name@ == old(self).name@,
                self.camera_position == old(self).camera_position,
                self.camera_target == old(self).camera_target,
                self.background_color == old(self).background_color,
                self.ambient_light == old(self).ambient_light,
            decreases n - j,
        {
            let ghost kpre = kept@;
            let ghost bpre = self.physics_world.rigid_bodies@;
            let ghost kb = prune_bodies(target.subrange(0, j as int), bod1.subrange(0, j as int));
            proof {
                assert(target.subrange(0, j as int + 1) =~= target.subrange(0, j as int).push(
                    target[j as int],
                ));
                assert(bod1.subrange(0, j as int + 1) =~= bod1.subrange(0, j as int).push(
                    bod1[j as int],
                ));
                lemma_prune_objs_push(target.subrange(0, j as int), target[j as int]);
                lemma_prune_bodies_push(
                    target.subrange(0, j as int),
                    bod1.subrange(0, j as int),
                    target[j as int],
                    bod1[j as int],
                );
                lemma_prune_bodies_subset(
                    target.subrange(0, j as int),
                    bod1.subrange(0, j as int),
                );
            }
            let e: ObjectEntry = self.objects.remove(0);
            proof {
                assert(target.subrange(j as int, n as int)[0] == target[j as int]);
                assert(self.objects@ =~= target.subrange(j as int + 1, n as int));
            }
            if e.object.is_active() {
                kept.push(e);
                proof {
                    assert(kept@ =~= kpre + seq![target[j as int]]);
                    assert(bpre =~= kb + bod1.subrange(j as int, n as int));
                    assert((kb + seq![bod1[j as int]]) + bod1.subrange(j as int + 1, n as int)
                        =~= kb + bod1.subrange(j as int, n as int));
                }
            } else {
                let id: usize = e.id;
                proof {
                    // Every body kept so far carries a handle from an earlier
                    // position, hence strictly below this one: the removal
                    // finds this body first.
                    assert forall|a: int| 0 <= a < kb.len() implies (#[trigger] kb[a].id) != id
                        by {
                        let k0 = choose|k0: int|
                            0 <= k0 < j as int && kb[a] == bod1.subrange(0, j as int)[k0];
                        assert(bod1[k0].id == target[k0].id);
                    }
                    assert(bpre[kb.len() as int] == bod1[j as int]);
                    assert(bod1[j as int].id == id);
                    crate::physics::lemma_find_idx_is(bpre, id, kb.len() as int);
                }
                self.physics_world.remove_rigid_body(id);
                proof {
                    assert(self.physics_world.rigid_bodies@ =~= kb + bod1.subrange(
                        j as int + 1,
                        n as int,
                    ));
                }
            }
            j = j + 1;
        }
        self.objects = kept;
        proof {
            assert(target.subrange(0, n as int) =~= target);
            assert(bod1.subrange(0, n as int) =~= bod1);
            assert(bod1.subrange(n as int, n as int) =~= Seq::<BodyEntry>::empty());
            assert(prune_bodies(target, bod1) + Seq::<BodyEntry>::empty() =~= prune_bodies(
                target,
                bod1,
            ));
            lemma_prune_aligned(target, bod1);
            lemma_prune_ids_bounded(target, self.next_object_id as int);
            lemma_prune_sorted(target);
            assert(self.objects@ == prune_objs(target));
            assert(self.physics_world.rigid_bodies@ == prune_bodies(target, bod1));
            assert(self.objects@.len() == self.physics_world.rigid_bodies@.len());
            assert(forall|a: int|
                0 <= a < self.objects@.len() ==> (#[trigger] self.objects@[a].id)
                    == self.physics_world.rigid_bodies@[a].id);
            assert(forall|a: int, b: int|
                0 <= a < b < self.objects@.len() ==> (#[trigger] self.objects@[a].id) < (
                #[trigger] self.objects@[b].id));
            assert(forall|a: int|
                0 <= a < self.objects@.len() ==> (#[trigger] self.objects@[a].id)
                    < self.next_object_id);
            assert(self.physics_world.fixed_timestep == crate::physics::FIXED_DT);
            assert forall|a: int, b: int|
                0 <= a < b < self.physics_world.rigid_bodies@.len() implies (
            #[trigger] self.physics_world.rigid_bodies@[a].id) < (
            #[trigger] self.physics_world.rigid_bodies@[b].id) by {
                assert(self.physics_world.rigid_bodies@[a].id == self.objects@[a].id);
                assert(self.physics_world.rigid_bodies@[b].id == self.objects@[b].id);
            }
            assert forall|a: int|
                0 <= a < self.physics_world.rigid_bodies@.len() implies (
            #[trigger] self.physics_world.rigid_bodies@[a].id) < self.physics_world.next_id by {
                assert(self.physics_world.rigid_bodies@[a].id == self.objects@[a].id);
            }
            assert(self.wf());
        }
    }
}

/// Every entry of the swept object list comes from the unswept list.
proof fn lemma_prune_objs_subset(objs: Seq<ObjectEntry>)
    ensures
        forall|a: int|
            0 <= a < prune_objs(objs).len() ==> exists|k: int|
                0 <= k < objs.len() && #[trigger] prune_objs(objs)[a] == objs[k],
    decreases objs.len(),
{
    if objs.len() > 0 {
        lemma_prune_objs_subset(objs.drop_first());
        assert forall|a: int| 0 <= a < prune_objs(objs).len() implies exists|k: int|
            0 <= k < objs.len() && #[trigger] prune_objs(objs)[a] == objs[k] by {
            if obj_active(objs[0].object) {
                if a == 0 {
                    assert(prune_objs(objs)[0] == objs[0]);
                } else {
                    let r = prune_objs(objs.drop_first());
                    assert(prune_objs(objs)[a] == r[a - 1]);
                    let k = choose|k: int|
                        0 <= k < objs.drop_first().len() && r[a - 1] == objs.drop_first()[k];
                    assert(objs.drop_first()[k] == objs[k + 1]);
                }
            } else {
                let r = prune_objs(objs.drop_first());
                let k = choose|k: int|
                    0 <= k < objs.drop_first().len() && r[a] == objs.drop_first()[k];
                assert(objs.drop_first()[k] == objs[k + 1]);
            }
        }
    }
}

/// Every entry of the swept body list comes from the unswept list.
proof fn lemma_prune_bodies_subset(objs: Seq<ObjectEntry>, bodies: Seq<BodyEntry>)
    requires
        objs.len() == bodies.len(),
    ensures
        forall|a: int|
            0 <= a < prune_bodies(objs, bodies).len() ==> exists|k: int|
                0 <= k < bodies.len() && #[trigger] prune_bodies(objs, bodies)[a] == bodies[k],
    decreases objs.len(),
{
    if objs.len() == 0 {
        assert forall|a: int| 0 <= a < prune_bodies(objs, bodies).len() implies exists|k: int|
            0 <= k < bodies.len() && #[trigger] prune_bodies(objs, bodies)[a] == bodies[k] by {
            assert(prune_bodies(objs, bodies)[a] == bodies[a]);
        }
    } else {
        lemma_prune_bodies_subset(objs.drop_first(), bodies.drop_first());
        assert forall|a: int| 0 <= a < prune_bodies(objs, bodies).len() implies exists|k: int|
            0 <= k < bodies.len() && #[trigger] prune_bodies(objs, bodies)[a] == bodies[k] by {
            if obj_active(objs[0].object) {
                if a == 0 {
                    assert(prune_bodies(objs, bodies)[0] == bodies[0]);
                } else {
                    let r = prune_bodies(objs.drop_first(), bodies.drop_first());
                    assert(prune_bodies(objs, bodies)[a] == r[a - 1]);
                    let k = choose|k: int|
                        0 <= k < bodies.drop_first().len() && r[a - 1] == bodies.drop_first()[k];
                    assert(bodies.drop_first()[k] == bodies[k + 1]);
                }
            } else {
                let r = prune_bodies(objs.drop_first(), bodies.drop_first());
                let k = choose|k: int|
                    0 <= k < bodies.drop_first().len() && r[a] == bodies.drop_first()[k];
                assert(bodies.drop_first()[k] == bodies[k + 1]);
            }
        }
    }
}

/// The sweep keeps the object and body lists aligned handle by handle.
proof fn lemma_prune_aligned(objs: Seq<ObjectEntry>, bodies: Seq<BodyEntry>)
    requires
        objs.len() == bodies.len(),
        forall|a: int| 0 <= a < objs.len() ==> (#[trigger] objs[a].id) == bodies[a].id,
    ensures
        prune_objs(objs).len() == prune_bodies(objs, bodies).len(),
        forall|a: int|
            0 <= a < prune_objs(objs).len() ==> (#[trigger] prune_objs(objs)[a].id) == prune_bodies(
                objs,
                bodies,
            )[a].id,
    decreases objs.len(),
{
    if objs.len() > 0 {
        assert(forall|a: int|
            0 <= a < objs.drop_first().len() ==> (#[trigger] objs.drop_first()[a].id)
                == bodies.drop_first()[a].id);
        lemma_prune_aligned(objs.drop_first(), bodies.drop_first());
    }
}

/// The sweep keeps handles strictly increasing.
proof fn lemma_prune_sorted(objs: Seq<ObjectEntry>)
    requires
        forall|a: int, b: int|
            0 <= a < b < objs.len() ==> (#[trigger] objs[a].id) < (#[trigger] objs[b].id),
    ensures
        forall|a: int, b: int|
            0 <= a < b < prune_objs(objs).len() ==> (#[trigger] prune_objs(objs)[a].id) < (
            #[trigger] prune_objs(objs)[b].id),
    decreases objs.len(),
{
    if objs.len() > 0 {
        assert(forall|a: int, b: int|
            0 <= a < b < objs.drop_first().len() ==> (#[trigger] objs.drop_first()[a].id) < (
            #[trigger] objs.drop_first()[b].id));
        lemma_prune_sorted(objs.drop_first());
        lemma_prune_objs_subset(objs.drop_first());
        if obj_active(objs[0].object) {
            let r = prune_objs(objs);
            let rr = prune_objs(objs.drop_first());
            assert forall|a: int, b: int| 0 <= a < b < r.len() implies (#[trigger] r[a].id) < (
            #[trigger] r[b].id) by {
                if a == 0 {
                    assert(r[b] == rr[b - 1]);
                    let k = choose|k: int|
                        0 <= k < objs.drop_first().len() && rr[b - 1] == objs.drop_first()[k];
                    assert(objs.drop_first()[k] == objs[k + 1]);
                    assert(objs[0].id < objs[k + 1].id);
                } else {
                    assert(r[a] == rr[a - 1] && r[b] == rr[b - 1]);
                }
            }
        }
    }
}

/// The sweep keeps every handle below any bound the unswept list respected.
proof fn lemma_prune_ids_bounded(objs: Seq<ObjectEntry>, bound: int)
    requires
        forall|a: int| 0 <= a < objs.len() ==> (#[trigger] objs[a].id) < bound,
    ensures
        forall|a: int|
            0 <= a < prune_objs(objs).len() ==> (#[trigger] prune_objs(objs)[a].id) < bound,
{
    lemma_prune_objs_subset(objs);
    assert forall|a: int| 0 <= a < prune_objs(objs).len() implies (#[trigger] prune_objs(
        objs,
    )[a].id) < bound by {
        let k = choose|k: int| 0 <= k < objs.len() && prune_objs(objs)[a] == objs[k];
    }
}

/// Add/remove round trip: pushing an entry under a fresh handle and then
/// removing that handle restores both the object list and the body list
/// exactly, and a physics lookup of the handle afterwards finds nothing.
/// Together with the contracts of `add_object` and `remove_object` this says
/// that `add_object` followed at once by `remove_object` on the returned
/// handle brings `get_object_count` back to its pre-add value and leaves no
/// paired body behind.
pub proof fn lemma_add_remove_roundtrip(
    objs: Seq<ObjectEntry>,
    bodies: Seq<BodyEntry>,
    id: usize,
    o: GameObject,
    b: RigidBody,
)
    requires
        objs.len() == bodies.len(),
        forall|i: int| 0 <= i < objs.len() ==> (#[trigger] objs[i].id) < id,
        forall|i: int| 0 <= i < objs.len() ==> (#[trigger] objs[i].id) == bodies[i].id,
    ensures
        find_oidx(objs.push(ObjectEntry { id, object: o }), id) == objs.len(),
        objs.push(ObjectEntry { id, object: o }).remove(objs.len() as int) == objs,
        bodies.push(BodyEntry { id, body: b }).remove(objs.len() as int) == bodies,
        find_idx(bodies, id) == -1,
        lookup_body(bodies, id) is None,
{
    let po = objs.push(ObjectEntry { id, object: o });
    let pb = bodies.push(BodyEntry { id, body: b });
    lemma_find_oidx_is(po, id, objs.len() as int);
    assert(po.remove(objs.len() as int) =~= objs);
    assert(pb.remove(objs.len() as int) =~= bodies);
    assert forall|m: int| 0 <= m < bodies.len() implies bodies[m].id != id by {
        assert(objs[m].id == bodies[m].id);
    }
    crate::physics::lemma_find_idx_none(bodies, id);
}

/// The kinds of scene transition.
#[derive(Debug, Clone, Copy, PartialEq, Eq, Structural)]
pub enum TransitionType {
    Fade,
    Slide,
    Instant,
}

/// The manager's transition record: either settled, or partway between two
/// scenes with a progress fraction in `[0, 1]`.
pub enum TransitionState {
    Idle,
    InProgress { from: Option<String>, to: String, transition_type: TransitionType, progress: i64 },
}

/// The first index among the scenes whose name reads `name`, or minus one.
pub open spec fn find_scene(s: Seq<Scene>, name: Seq<char>) -> int
    decreases s.len(),
{
    if s.len() == 0 {
        -1
    } else if s[0].name@ == name {
        0
    } else {
        let r = find_scene(s.drop_first(), name);
        if r < 0 {
            -1
        } else {
            r + 1
        }
    }
}

/// `find_scene` points at the first occurrence.
pub proof fn lemma_find_scene_is(s: Seq<Scene>, name: Seq<char>, k: int)
    requires
        0 <= k < s.len(),
        s[k].name@ == name,
        forall|m: int| 0 <= m < k ==> (#[trigger] s[m].name@) != name,
    ensures
        find_scene(s, name) == k,
    decreases k,
{
    if s[0].name@ == name {
        assert(k == 0);
    } else {
        assert(forall|m: int|
            0 <= m < k - 1 ==> (#[trigger] s.drop_first()[m].name@) == s[m + 1].name@ && s[m
                + 1].name@ != name);
        lemma_find_scene_is(s.drop_first(), name, k - 1);
    }
}

/// Without an occurrence, `find_scene` is minus one.
pub proof fn lemma_find_scene_none(s: Seq<Scene>, name: Seq<char>)
    requires
        forall|m: int| 0 <= m < s.len() ==> (#[trigger] s[m].name@) != name,
    ensures
        find_scene(s, name) == -1,
    decreases s.len(),
{
    if s.len() > 0 {
        assert(forall|m: int|
            0 <= m < s.len() - 1 ==> (#[trigger] s.drop_first()[m].name@) == s[m + 1].name@ && s[m
                + 1].name@ != name);
        lemma_find_scene_none(s.drop_first(), name);
    }
}

/// The name the current transition is heading to, when one runs.
pub open spec fn transition_target(t: TransitionState) -> Option<Seq<char>> {
    match t {
        TransitionState::Idle => None,
        TransitionState::InProgress { to, .. } => Some(to@),
    }
}

/// The scene lists after activating the scene at `k` and deactivating the
/// one at `j` (minus one for none): only those two active flags change.
pub open spec fn scenes_activated(s: Seq<Scene>, j: int, k: int) -> Seq<Scene> {
    Seq::new(
        s.len(),
        |i: int|
            if i == k {
                Scene { active: true, ..s[i] }
            } else if i == j {
                Scene { active: false, ..s[i] }
            } else {
                s[i]
            },
    )
}

/// A named set of scenes, the name of the active one, and the transition
/// record.
pub struct SceneManager {
    pub scenes: Vec<Scene>,
    pub active_scene: Option<String>,
    pub transition_state: TransitionState,
}

impl SceneManager {
    /// Validity: every held scene is valid.
    pub open spec fn wf(self) -> bool {
        forall|i: int| 0 <= i < self.scenes@.len() ==> (#[trigger] self.scenes@[i]).wf()
    }

    /// The index the manager's own bookkeeping would deactivate: that of the
    /// first scene named like the active one.
    pub open spec fn active_idx(self) -> int {
        match self.active_scene {
            Some(cur) => find_scene(self.scenes@, cur@),
            None => -1,
        }
    }

    /// An empty manager: no scenes, none active, no transition.
    pub fn new() -> (r: Self)
        ensures
            r.wf(),
            r.scenes@ == Seq::<Scene>::empty(),
            r.active_scene is None,
            r.transition_state is Idle,
    {
        SceneManager { scenes: Vec::new(), active_scene: None, transition_state: TransitionState::Idle }
    }

    /// The index of the first scene named `name`, if any.
    fn find_scene_index(&self, name: &str) -> (r: Option<usize>)
        ensures
            match r {
                Some(i) => find_scene(self.scenes@, name@) == i as int && i < self.scenes@.len(),
                None => find_scene(self.scenes@, name@) == -1,
            },
    {
        let ghost s = self.scenes@;
        let n: usize = self.scenes.len();
        let mut i: usize = 0;
        while i < n
            invariant
                i <= n == self.scenes.len(),
                self.scenes@ == s,
                forall|m: int| 0 <= m < i ==> (#[trigger] s[m].name@) != name@,
            decreases n - i,
        {
            if crate::str_eq(self.scenes[i].name.as_str(), name) {
                proof {
                    lemma_find_scene_is(s, name@, i as int);
                }
                return Some(i);
            }
            i = i + 1;
        }
        proof {
            lemma_find_scene_none(s, name@);
        }
        None
    }

    /// Stores a scene under its own name, replacing any scene already named
    /// so.
    pub fn add_scene(&mut self, scene: Scene)
        requires
            old(self).wf(),
            scene.wf(),
        ensures
            final(self).wf(),
            final(self).scenes@ == (if find_scene(old(self).scenes@, scene.name@) >= 0 {
                old(self).scenes@.update(find_scene(old(self).scenes@, scene.name@), scene)
            } else {
                old(self).scenes@.push(scene)
            }),
            final(self).active_scene == old(self).active_scene,
            final(self).transition_state == old(self).transition_state,
    {
        let idx: Option<usize> = self.find_scene_index(scene.name.as_str());
        match idx {
            Some(i) => {
                self.scenes.remove(i);
                self.scenes.insert(i, scene);
                proof {
                    old(self).scenes@.remove_ensures(i as int);
                    assert(self.scenes@ =~= old(self).scenes@.update(i as int, scene));
                }
            },
            None => {
                self.scenes.push(scene);
            },
        }
    }

    /// Drops the scene named `name`, clearing the active mark when it
    /// pointed there; reports whether it existed.
    pub fn remove_scene(&mut self, name: &str) -> (r: bool)
        requires
            old(self).wf(),
        ensures
            final(self).wf(),
            r == (find_scene(old(self).scenes@, name@) >= 0),
            final(self).scenes@ == (if find_scene(old(self).scenes@, name@) >= 0 {
                old(self).scenes@.remove(find_scene(old(self).scenes@, name@))
            } else {
                old(self).scenes@
            }),
            final(self).transition_state == old(self).transition_state,
            final(self).active_scene == (match old(self).active_scene {
                Some(cur) => if cur@ == name@ {
                    None::<String>
                } else {
                    old(self).active_scene
                },
                None => None::<String>,
            }),
    {
        let clear_active: bool = match &self.active_scene {
            Some(active) => crate::str_eq(active.as_str(), name),
            None => false,
        };
        if clear_active {
            self.active_scene = None;
        }
        let idx: Option<usize> = self.find_scene_index(name);
        match idx {
            Some(i) => {
                self.scenes.remove(i);
                true
            },
            None => false,
        }
    }

    /// Makes the named scene the single active one: the scene the manager
    /// held active goes inactive, the named one goes active; an unknown name
    /// changes nothing and reports failure.
    pub fn set_active_scene(&mut self, name: &str) -> (r: bool)
        requires
            old(self).wf(),
        ensures
            final(self).wf(),
            r == (find_scene(old(self).scenes@, name@) >= 0),
            !r ==> *final(self) == *old(self),
            r ==> final(self).scenes@ == scenes_activated(
                old(self).scenes@,
                old(self).active_idx(),
                find_scene(old(self).scenes@, name@),
            ),
            r ==> final(self).active_scene is Some && final(self).active_scene->0@ == name@,
            final(self).transition_state == old(self).transition_state,
    {
        let k_opt: Option<usize> = self.find_scene_index(name);
        match k_opt {
            None => false,
            Some(k) => {
                let j_opt: Option<usize> = match &self.active_scene {
                    Some(current_name) => {
                        let ghost cur = current_name@;
                        let r: Option<usize> = self.find_scene_index(current_name.as_str());
                        r
                    },
                    None => None,
                };
                match j_opt {
                    Some(j) => {
                        let mut sc: Scene = self.scenes.remove(j);
                        sc.set_active(false);
                        self.scenes.insert(j, sc);
                        proof {
                            old(self).scenes@.remove_ensures(j as int);
                            assert(self.scenes@ =~= old(self).scenes@.update(
                                j as int,
                                Scene { active: false, ..old(self).scenes@[j as int] },
                            ));
                        }
                    },
                    None => {},
                }
                let ghost mid = self.scenes@;
                let mut sc: Scene = self.scenes.remove(k);
                sc.set_active(true);
                self.scenes.insert(k, sc);
                self.active_scene = Some(name.to_owned());
                proof {
                    mid.remove_ensures(k as int);
                    assert(self.scenes@ =~= mid.update(
                        k as int,
                        Scene { active: true, ..mid[k as int] },
                    ));
                    assert(self.scenes@ =~= scenes_activated(
                        old(self).scenes@,
                        old(self).active_idx(),
                        find_scene(old(self).scenes@, name@),
                    ));
                }
                true
            },
        }
    }

    /// The active scene, if the manager holds one under the active name.
    pub fn get_active_scene(&self) -> (r: Option<&Scene>)
        ensures
            match r {
                Some(sc) => self.active_idx() >= 0 && *sc == self.scenes@[self.active_idx()],
                None => self.active_idx() == -1,
            },
    {
        match &self.active_scene {
            Some(name) => {
                let idx: Option<usize> = self.find_scene_index(name.as_str());
                match idx {
                    Some(i) => Some(&self.scenes[i]),
                    None => None,
                }
            },
            None => None,
        }
    }

    /// A mutable borrow of the active scene, if the manager holds one under
    /// the active name.  The caller may change the scene; the manager keeps
    /// every other entry, the active name and the transition record.
    pub fn get_active_scene_mut(&mut self) -> (r: Option<&mut Scene>)
        ensures
            old(self).active_idx() == -1 ==> r is None && *final(self) == *old(self),
            old(self).active_idx() >= 0 ==> ({
                let j = old(self).active_idx();
                &&& r matches Some(sc)
                &&& *sc == old(self).scenes@[j]
                &&& final(self).scenes@.len() == old(self).scenes@.len()
                &&& forall|k: int|
                    0 <= k < old(self).scenes@.len() && k != j ==> final(self).scenes@[k] == old(
                        self,
                    ).scenes@[k]
                &&& final(self).scenes@[j] == *final(sc)
                &&& final(self).active_scene == old(self).active_scene
                &&& final(self).transition_state == old(self).transition_state
            }),
    {
        let j_opt: Option<usize> = match &self.active_scene {
            Some(current_name) => self.find_scene_index(current_name.as_str()),
            None => None,
        };
        match j_opt {
            Some(j) => Some(&mut self.scenes[j]),
            None => None,
        }
    }

    /// The scene named `name`, if any.
    pub fn get_scene(&self, name: &str) -> (r: Option<&Scene>)
        ensures
            match r {
                Some(sc) => find_scene(self.scenes@, name@) >= 0 && *sc == self.scenes@[find_scene(
                    self.scenes@,
                    name@,
                )],
                None => find_scene(self.scenes@, name@) == -1,
            },
    {
        let idx: Option<usize> = self.find_scene_index(name);
        match idx {
            Some(i) => Some(&self.scenes[i]),
            None => None,
        }
    }

    /// A mutable borrow of the scene named `name`, if any; the manager keeps
    /// every other entry, the active name and the transition record.
    pub fn get_scene_mut(&mut self, name: &str) -> (r: Option<&mut Scene>)
        ensures
            find_scene(old(self).scenes@, name@) == -1 ==> r is None && *final(self) == *old(
                self,
            ),
            find_scene(old(self).scenes@, name@) >= 0 ==> ({
                let j = find_scene(old(self).scenes@, name@);
                &&& r matches Some(sc)
                &&& *sc == old(self).scenes@[j]
                &&& final(self).scenes@.len() == old(self).scenes@.len()
                &&& forall|k: int|
                    0 <= k < old(self).scenes@.len() && k != j ==> final(self).scenes@[k] == old(
                        self,
                    ).scenes@[k]
                &&& final(self).scenes@[j] == *final(sc)
                &&& final(self).active_scene == old(self).active_scene
                &&& final(self).transition_state == old(self).transition_state
            }),
    {
        let idx: Option<usize> = self.find_scene_index(name);
        match idx {
            Some(j) => Some(&mut self.scenes[j]),
            None => None,
        }
    }

    /// One frame: the scene under the active name alone advances, exactly as
    /// its own `update` states; every other scene, the active name and the
    /// transition record stay put.
    pub fn update(&mut self, delta_time: i64)
        requires
            old(self).wf(),
        ensures
            final(self).wf(),
            old(self).active_idx() == -1 ==> *final(self) == *old(self),
            old(self).active_idx() >= 0 ==> ({
                let j = old(self).active_idx();
                &&& forall|i: int|
                    0 <= i < old(self).scenes@.len() && i != j ==> final(self).scenes@[i] == old(
                        self,
                    ).scenes@[i]
                &&& scene_updated(old(self).scenes@[j], final(self).scenes@[j], delta_time as int)
            }),
            final(self).active_scene == old(self).active_scene,
            final(self).transition_state == old(self).transition_state,
            final(self).scenes@.len() == old(self).scenes@.len(),
    {
        let j_opt: Option<usize> = match &self.active_scene {
            Some(current_name) => self.find_scene_index(current_name.as_str()),
            None => None,
        };
        match j_opt {
            Some(j) => {
                let mut sc: Scene = self.scenes.remove(j);
                sc.update(delta_time);
                self.scenes.insert(j, sc);
                proof {
                    old(self).scenes@.remove_ensures(j as int);
                    assert(self.scenes@ =~= old(self).scenes@.update(
                        j as int,
                        self.scenes@[j as int],
                    ));
                }
            },
            None => {},
        }
    }

    /// The names of all held scenes, in storage order.
    pub fn get_scene_names(&self) -> (r: Vec<String>)
        ensures
            r@.len() == self.scenes@.len(),
            forall|i: int| 0 <= i < r@.len() ==> (#[trigger] r@[i]@) == self.scenes@[i].name@,
    {
        let n: usize = self.scenes.len();
        let mut names: Vec<String> = Vec::new();
        let mut i: usize = 0;
        while i < n
            invariant
                i <= n == self.scenes.len(),
                names@.len() == i,
                forall|m: int| 0 <= m < i ==> (#[trigger] names@[m]@) == self.scenes@[m].name@,
            decreases n - i,
        {
            names.push(self.scenes[i].name.clone());
            i = i + 1;
        }
        names
    }

    pub fn get_active_scene_name(&self) -> (r: Option<&String>)
        ensures
            match r {
                Some(n) => self.active_scene == Some(*n),
                None => self.active_scene is None,
            },
    {
        self.active_scene.as_ref()
    }

    /// Begins a transition toward the named scene, from the one now active;
    /// an unknown name changes nothing and reports failure.
    pub fn transition_to_scene(&mut self, name: &str, transition_type: TransitionType) -> (r: bool)
        requires
            old(self).wf(),
        ensures
            final(self).wf(),
            r == (find_scene(old(self).scenes@, name@) >= 0),
            !r ==> *final(self) == *old(self),
            r ==> (final(self).transition_state matches TransitionState::InProgress {
                from,
                to,
                transition_type: t,
                progress,
            } && from == old(self).active_scene && to@ == name@ && t == transition_type && progress
                == 0),
            final(self).scenes@ == old(self).scenes@,
            final(self).active_scene == old(self).active_scene,
    {
        let idx: Option<usize> = self.find_scene_index(name);
        match idx {
            Some(_) => {
                let from: Option<String> = match &self.active_scene {
                    Some(n) => Some(n.clone()),
                    None => None,
                };
                self.transition_state = TransitionState::InProgress {
                    from,
                    to: name.to_owned(),
                    transition_type,
                    progress: 0,
                };
                true
            },
            None => false,
        }
    }

    /// Advances a running transition by twice the frame delta (a half-second
    /// transition); on reaching one, the target scene becomes active and the
    /// record settles.
    pub fn update_transition(&mut self, delta_time: i64)
        requires
            old(self).wf(),
        ensures
            final(self).wf(),
            old(self).transition_state is Idle ==> *final(self) == *old(self),
            old(self).transition_state matches TransitionState::InProgress {
                from,
                to,
                transition_type,
                progress,
            } ==> {
                let p2 = crate::fixed::fx_add_s(
                    progress as int,
                    crate::fixed::fx_mul_s(delta_time as int, 2 * FX_ONE as int),
                );
                if p2 >= FX_ONE as int {
                    &&& final(self).transition_state is Idle
                    &&& (find_scene(old(self).scenes@, to@) >= 0 ==> final(self).scenes@
                        == scenes_activated(
                        old(self).scenes@,
                        old(self).active_idx(),
                        find_scene(old(self).scenes@, to@),
                    ) && final(self).active_scene is Some && final(self).active_scene->0@ == to@)
                    &&& (find_scene(old(self).scenes@, to@) == -1 ==> final(self).scenes@ == old(
                        self,
                    ).scenes@ && final(self).active_scene == old(self).active_scene)
                } else {
                    &&& (final(self).transition_state matches TransitionState::InProgress {
                        from: f2,
                        to: t2,
                        transition_type: y2,
                        progress: q2,
                    } && f2 == from && t2@ == to@ && y2 == transition_type && q2 as int == p2)
                    &&& final(self).scenes@ == old(self).scenes@
                    &&& final(self).active_scene == old(self).active_scene
                }
            },
    {
        let step: Option<(Option<String>, String, TransitionType, i64)> = match
            &self.transition_state {
            TransitionState::InProgress { from, to, transition_type, progress } => {
                let f: Option<String> = match from {
                    Some(n) => Some(n.clone()),
                    None => None,
                };
                Some((f, to.clone(), *transition_type, *progress))
            },
            TransitionState::Idle => None,
        };
        match step {
            Some(parts) => {
                let (f, t, y, p): (Option<String>, String, TransitionType, i64) = parts;
                let p2: i64 = fx_add(p, fx_mul(delta_time, 2 * FX_ONE));
                if p2 >= FX_ONE {
                    self.transition_state = TransitionState::Idle;
                    self.set_active_scene(t.as_str());
                } else {
                    self.transition_state = TransitionState::InProgress {
                        from: f,
                        to: t,
                        transition_type: y,
                        progress: p2,
                    };
                }
            },
            None => {},
        }
    }

    /// The rendering hook: drawing is the embedding renderer's concern, so
    /// the manager itself has nothing to do here.
    pub fn render(&self) {
    }

    pub fn is_transitioning(&self) -> (r: bool)
        ensures
            r == (self.transition_state matches TransitionState::InProgress { .. }),
    {
        match &self.transition_state {
            TransitionState::InProgress { .. } => true,
            TransitionState::Idle => false,
        }
    }
}

impl Default for SceneManager {
    /// The default manager is the empty one.
    fn default() -> (r: Self)
        ensures
            r.wf(),
            r.scenes@ == Seq::<Scene>::empty(),
            r.active_scene is None,
            r.transition_state is Idle,
    {
        SceneManager::new()
    }
}

/// Ready-made scenes for quick starts.
pub struct SceneTemplates;

impl SceneTemplates {
    /// A small showcase: a player, five collectibles, three platforms and
    /// two enemies.
    pub fn create_test_scene() -> (r: Scene)
        ensures
            r.wf(),
            r.objects@.len() == 11,
    {
        let mut scene: Scene = Scene::new("Test Scene");
        scene.add_player(Vector3D::new(0, FX_ONE, 0));
        let mut i: i64 = 0;
        while i < 5
            invariant
                0 <= i <= 5,
                scene.wf(),
                scene.objects@.len() == 1 + i,
                scene.next_object_id == 1 + i,
            decreases 5 - i,
        {
            proof {
                assert((i - 2) * (3 * FX_ONE) <= 9_000_000 && (i - 2) * (3 * FX_ONE)
                    >= -6_000_000) by (nonlinear_arith)
                    requires 0 <= i <= 5;
            }
            let x: i64 = (i - 2) * (3 * FX_ONE);
            scene.add_collectible(Vector3D::new(x, FX_ONE, -5 * FX_ONE), 10);
            i = i + 1;
        }
        scene.add_platform(Vector3D::new(20 * FX_ONE, FX_ONE, 20 * FX_ONE), Vector3D::new(0, -FX_ONE, 0));
        scene.add_platform(Vector3D::new(4 * FX_ONE, FX_ONE, 4 * FX_ONE), Vector3D::new(-8 * FX_ONE, 2 * FX_ONE, -5 * FX_ONE));
        scene.add_platform(Vector3D::new(4 * FX_ONE, FX_ONE, 4 * FX_ONE), Vector3D::new(8 * FX_ONE, 3 * FX_ONE, -5 * FX_ONE));
        scene.add_enemy(Vector3D::new(-5 * FX_ONE, FX_ONE, -8 * FX_ONE));
        scene.add_enemy(Vector3D::new(5 * FX_ONE, FX_ONE, -8 * FX_ONE));
        scene.set_background_color(200_000, 300_000, 600_000);
        scene.set_ambient_light(400_000);
        scene
    }

    /// An empty scene under the given name.
    pub fn create_empty_scene(name: &str) -> (r: Scene)
        ensures
            r.wf(),
            r.name@ == name@,
            r.objects@.len() == 0,
    {
        Scene::new(name)
    }

    /// A platforming course: a ground slab, ten stepped platforms and a
    /// player.
    pub fn create_platform_scene() -> (r: Scene)
        ensures
            r.wf(),
            r.objects@.len() == 12,
    {
        let mut scene: Scene = Scene::new("Platform Scene");
        scene.add_platform(Vector3D::new(50 * FX_ONE, 2 * FX_ONE, 50 * FX_ONE), Vector3D::new(0, -2 * FX_ONE, 0));
        let mut i: i64 = 0;
        while i < 10
            invariant
                0 <= i <= 10,
                scene.wf(),
                scene.objects@.len() == 1 + i,
                scene.next_object_id == 1 + i,
            decreases 10 - i,
        {
            proof {
                assert((i - 5) * (4 * FX_ONE) <= 20_000_000 && (i - 5) * (4 * FX_ONE)
                    >= -20_000_000) by (nonlinear_arith)
                    requires 0 <= i <= 10;
                assert(0 <= i % 3 <= 2);
                assert((i % 3) * (2 * FX_ONE) <= 4_000_000 && (i % 3) * (2 * FX_ONE) >= 0)
                    by (nonlinear_arith)
                    requires 0 <= i % 3 <= 2;
            }
            let x: i64 = (i - 5) * (4 * FX_ONE);
            let y: i64 = (i % 3) * (2 * FX_ONE);
            scene.add_platform(
                Vector3D::new(3 * FX_ONE, FX_HALF, 3 * FX_ONE),
                Vector3D::new(x, y, -10 * FX_ONE),
            );
            i = i + 1;
        }
        scene.add_player(Vector3D::new(0, FX_ONE, 0));
        scene.set_background_color(400_000, 600_000, 800_000);
        scene
    }
}

/// The handles of the objects of one kind, scanning from position `k`.
pub open spec fn ids_of_kind_from(objs: Seq<ObjectEntry>, kind: GameObjectKind, k: int) -> Seq<
    usize,
>
    decreases objs.len() - k,
{
    if k < 0 || k >= objs.len() {
        Seq::empty()
    } else {
        let rest = ids_of_kind_from(objs, kind, k + 1);
        if obj_kind(objs[k].object) == kind {
            seq![objs[k].id] + rest
        } else {
            rest
        }
    }
}

/// The handles within the radius, scanning from position `k`.
pub open spec fn ids_in_radius_from(
    objs: Seq<ObjectEntry>,
    center: Vector3D,
    radius: int,
    k: int,
) -> Seq<usize>
    decreases objs.len() - k,
{
    if k < 0 || k >= objs.len() {
        Seq::empty()
    } else {
        let rest = ids_in_radius_from(objs, center, radius, k + 1);
        if v3_mag_sq(v3_sub(obj_position(objs[k].object), center)) <= fx_mul_s(radius, radius) {
            seq![objs[k].id] + rest
        } else {
            rest
        }
    }
}

/// The nearest-object scan from position `k`: a later object replaces the
/// running best only when strictly nearer.
pub open spec fn closest_from(
    objs: Seq<ObjectEntry>,
    position: Vector3D,
    k: int,
    best: Option<(usize, i64)>,
) -> Option<(usize, i64)>
    decreases objs.len() - k,
{
    if k < 0 || k >= objs.len() {
        best
    } else {
        let d = crate::math::v3_dist(obj_position(objs[k].object), position);
        let better = match best {
            Some(pair) => d < pair.1 as int,
            None => true,
        };
        if better {
            closest_from(objs, position, k + 1, Some((objs[k].id, d as i64)))
        } else {
            closest_from(objs, position, k + 1, best)
        }
    }
}

} // verus!
