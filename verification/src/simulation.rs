//! The simulation driver: configuration, the table of actors and joints, and
//! the phases of one tick.

use vstd::prelude::*;
use crate::distance_joint::{DistanceJoint, JointModel};
use crate::rigidbody::{lemma_step_keeps_unit, BodyModel, Pose, PoseModel, Rigidbody};
use crate::scalar::Scalar;
use crate::vec3::{lemma_clamp_length_bound, Vec3, V3};

verus! {

/// The mathematical value of an [`Actor`].
pub struct ActorModel {
    pub pose: PoseModel,
    pub rigidbody: Option<BodyModel>,
}

/// An entity of the host: its pose, and its rigid body if it has one.
#[derive(Clone, Copy, Debug)]
pub struct Actor {
    pub pose: Pose,
    pub rigidbody: Option<Rigidbody>,
}

impl View for Actor {
    type V = ActorModel;

    open spec fn view(&self) -> ActorModel {
        ActorModel {
            pose: self.pose@,
            rigidbody: match self.rigidbody {
                Some(body) => Some(body@),
                None => None,
            },
        }
    }
}

/// The mathematical value of one slot of the actor table.
pub open spec fn slot_view(slot: Option<Actor>) -> Option<ActorModel> {
    match slot {
        Some(actor) => Some(actor@),
        None => None,
    }
}

/// The mathematical value of the actor table: slot `i` holds the actor with
/// id `i`, or nothing once that actor is gone.
pub open spec fn actors_view(actors: Seq<Option<Actor>>) -> Seq<Option<ActorModel>> {
    Seq::new(actors.len(), |i: int| slot_view(actors[i]))
}

/// The actor with id `id`, if the table holds one.
pub open spec fn lookup(actors: Seq<Option<ActorModel>>, id: u64) -> Option<ActorModel> {
    if id < actors.len() {
        actors[id as int]
    } else {
        None
    }
}

/// The actor with id `id`, if the table holds one. A miss is an ordinary
/// outcome: the actor was never there, or is gone.
pub fn find_actor(actors: &Vec<Option<Actor>>, id: u64) -> (r: Option<Actor>)
    ensures
        slot_view(r) == lookup(actors_view(actors@), id),
{
    if id < actors.len() as u64 {
        actors[id as usize]
    } else {
        None
    }
}

/// The mathematical value of [`PumaPhysicsSettings`].
pub struct SettingsModel {
    pub delta_time: int,
    pub gravity_acceleration: V3,
    pub max_speed: int,
}

/// Configuration threaded into every tick.
#[derive(Clone, Copy, Debug)]
pub struct PumaPhysicsSettings {
    /// The longest time one step may advance; a longer frame time is cut to
    /// this.
    pub delta_time: Scalar,
    /// The constant acceleration of gravity.
    pub gravity_acceleration: Vec3,
    /// The greatest speed a body may have after a step.
    pub max_speed: Scalar,
}

impl View for PumaPhysicsSettings {
    type V = SettingsModel;

    open spec fn view(&self) -> SettingsModel {
        SettingsModel {
            delta_time: self.delta_time@,
            gravity_acceleration: self.gravity_acceleration@,
            max_speed: self.max_speed@,
        }
    }
}

impl SettingsModel {
    /// A step of `0.02`, gravity `(0, -9.8, 0)` and a speed limit of `5`.
    pub open spec fn standard() -> SettingsModel {
        SettingsModel {
            delta_time: 20_000,
            gravity_acceleration: V3::new(0, -9_800_000, 0),
            max_speed: 5_000_000,
        }
    }

    /// The time one step advances when the frame took `delta_time`.
    pub open spec fn step_time(self, delta_time: int) -> int {
        if delta_time <= self.delta_time {
            delta_time
        } else {
            self.delta_time
        }
    }
}

impl PumaPhysicsSettings {
    /// A step of `0.02`, gravity `(0, -9.8, 0)` and a speed limit of `5`.
    pub fn new() -> (r: PumaPhysicsSettings)
        ensures
            r@ == SettingsModel::standard(),
    {
        PumaPhysicsSettings {
            delta_time: Scalar::from_raw(20_000),
            gravity_acceleration: Vec3::from_raw(0, -9_800_000, 0),
            max_speed: Scalar::from_raw(5_000_000),
        }
    }

    /// The time one step advances when the frame took `delta_time`.
    pub fn step_time(&self, delta_time: Scalar) -> (r: Scalar)
        ensures
            r@ == self@.step_time(delta_time@),
    {
        delta_time.min(self.delta_time)
    }
}

/// The mathematical value of the joint list.
pub open spec fn joints_view(joints: Seq<DistanceJoint>) -> Seq<JointModel> {
    Seq::new(joints.len(), |i: int| joints[i]@)
}

/// The actor table after `force` was applied to the body of `actor` at the
/// body-space point `attach`. Nothing changes where there is no actor, no
/// actor of that id, or an actor without a body: a fixed anchor takes no
/// reaction.
pub open spec fn pushed(
    actors: Seq<Option<ActorModel>>,
    actor: Option<u64>,
    attach: V3,
    force: V3,
    horizon: int,
) -> Seq<Option<ActorModel>> {
    match actor {
        None => actors,
        Some(id) => match lookup(actors, id) {
            None => actors,
            Some(found) => match found.rigidbody {
                None => actors,
                Some(body) => actors.update(
                    id as int,
                    Some(
                        ActorModel {
                            pose: found.pose,
                            rigidbody: Some(body.add_force(found.pose, attach, force, horizon)),
                        },
                    ),
                ),
            },
        },
    }
}

/// The actor table after one joint acted on it: the joint's forces are
/// computed from the table as it is, then applied to the first end and to
/// the second.
pub open spec fn joint_applied(
    actors: Seq<Option<ActorModel>>,
    joint: JointModel,
    horizon: int,
    dt: int,
) -> Seq<Option<ActorModel>> {
    let forces = joint.resolve(actors, dt);
    pushed(
        pushed(actors, joint.actor0, joint.local_frame0, forces.0, horizon),
        joint.actor1,
        joint.local_frame1,
        forces.1,
        horizon,
    )
}

/// The actor table after the first `n` joints acted on it, in order.
pub open spec fn joints_applied(
    actors: Seq<Option<ActorModel>>,
    joints: Seq<JointModel>,
    n: nat,
    horizon: int,
    dt: int,
) -> Seq<Option<ActorModel>>
    decreases n,
{
    if n == 0 {
        actors
    } else {
        joint_applied(
            joints_applied(actors, joints, (n - 1) as nat, horizon, dt),
            joints[n - 1],
            horizon,
            dt,
        )
    }
}

/// One slot of the actor table after a step: an actor with a body is
/// advanced, any other stays as it is.
pub open spec fn stepped(slot: Option<ActorModel>, settings: SettingsModel, delta_time: int)
    -> Option<ActorModel> {
    match slot {
        Some(ActorModel { pose, rigidbody: Some(body) }) => Some(
            ActorModel {
                pose: body.step_pose(pose, settings, delta_time),
                rigidbody: Some(body.step(settings, delta_time)),
            },
        ),
        _ => slot,
    }
}

/// One slot of the actor table after a reset: an actor with a body rests at
/// the origin, any other stays as it is.
pub open spec fn rested(slot: Option<ActorModel>) -> Option<ActorModel> {
    match slot {
        Some(ActorModel { pose, rigidbody: Some(body) }) => Some(
            ActorModel { pose: PoseModel::origin(), rigidbody: Some(body.reset()) },
        ),
        _ => slot,
    }
}

/// The mathematical value of a [`World`].
pub struct WorldModel {
    pub actors: Seq<Option<ActorModel>>,
    pub joints: Seq<JointModel>,
}

impl WorldModel {
    /// The world without actors or joints.
    pub open spec fn empty() -> WorldModel {
        WorldModel { actors: Seq::empty(), joints: Seq::empty() }
    }

    /// The world after every joint, in order, applied its forces. The step
    /// time is the frame time cut to the configured step; the attachment
    /// points are predicted the configured step ahead.
    pub open spec fn update_distance_joint(self, settings: SettingsModel, delta_time: int)
        -> WorldModel {
        WorldModel {
            actors: joints_applied(
                self.actors,
                self.joints,
                self.joints.len(),
                settings.delta_time,
                settings.step_time(delta_time),
            ),
            joints: self.joints,
        }
    }

    /// The world after every body was advanced by one step.
    pub open spec fn update_rigidbody(self, settings: SettingsModel, delta_time: int)
        -> WorldModel {
        WorldModel {
            actors: Seq::new(
                self.actors.len(),
                |i: int| stepped(self.actors[i], settings, delta_time),
            ),
            joints: self.joints,
        }
    }

    /// The world after every body was brought to rest at the origin.
    pub open spec fn reset(self) -> WorldModel {
        WorldModel {
            actors: Seq::new(self.actors.len(), |i: int| rested(self.actors[i])),
            joints: self.joints,
        }
    }

    /// The world after one tick: the joints act first, on the state before
    /// the step; then the bodies are advanced.
    pub open spec fn tick(self, settings: SettingsModel, delta_time: int) -> WorldModel {
        self.update_distance_joint(settings, delta_time).update_rigidbody(settings, delta_time)
    }
}

/// Applies `force` to the body of `actor` at the body-space point `attach`,
/// where the table holds such an actor and it has a body.
fn push_force(
    actors: &mut Vec<Option<Actor>>,
    actor: Option<u64>,
    attach: Vec3,
    force: Vec3,
    horizon: Scalar,
)
    ensures
        actors_view(final(actors)@) == pushed(
            actors_view(old(actors)@),
            actor,
            attach@,
            force@,
            horizon@,
        ),
{
    if let Some(id) = actor {
        if let Some(found) = find_actor(actors, id) {
            if let Some(body) = found.rigidbody {
                let mut body: Rigidbody = body;
                body.add_force(&found.pose, attach, force, horizon);
                actors.set(id as usize, Some(Actor { pose: found.pose, rigidbody: Some(body) }));
                assert(actors_view(actors@) =~= pushed(
                    actors_view(old(actors)@),
                    actor,
                    attach@,
                    force@,
                    horizon@,
                ));
            }
        }
    }
}

/// The actors and joints of a simulation. An actor's id is its index in the
/// table; the slot of an actor that is gone stays empty.
#[derive(Debug)]
pub struct World {
    actors: Vec<Option<Actor>>,
    joints: Vec<DistanceJoint>,
}

impl View for World {
    type V = WorldModel;

    closed spec fn view(&self) -> WorldModel {
        WorldModel { actors: actors_view(self.actors@), joints: joints_view(self.joints@) }
    }
}

impl World {
    /// A world without actors or joints.
    pub fn new() -> (r: World)
        ensures
            r@ == WorldModel::empty(),
    {
        let world = World { actors: Vec::new(), joints: Vec::new() };
        assert(world@.actors =~= WorldModel::empty().actors);
        assert(world@.joints =~= WorldModel::empty().joints);
        world
    }

    /// The number of slots in the actor table.
    pub fn actor_count(&self) -> (r: usize)
        ensures
            r == self@.actors.len(),
    {
        self.actors.len()
    }

    /// Adds an actor and returns its id.
    pub fn spawn(&mut self, actor: Actor) -> (id: u64)
        ensures
            id == old(self)@.actors.len(),
            final(self)@.actors == old(self)@.actors.push(Some(actor@)),
            final(self)@.joints == old(self)@.joints,
    {
        let id: u64 = self.actors.len() as u64;
        self.actors.push(Some(actor));
        assert(actors_view(self.actors@) =~= actors_view(old(self).actors@).push(Some(actor@)));
        id
    }

    /// Removes the actor with id `id`, if there is one. Joints that refer to
    /// it then miss it.
    pub fn despawn(&mut self, id: u64)
        ensures
            final(self)@.joints == old(self)@.joints,
            final(self)@.actors == if id < old(self)@.actors.len() {
                old(self)@.actors.update(id as int, None)
            } else {
                old(self)@.actors
            },
    {
        if id < self.actors.len() as u64 {
            self.actors.set(id as usize, None);
            assert(actors_view(self.actors@) =~= actors_view(old(self).actors@).update(
                id as int,
                None,
            ));
        }
    }

    /// The actor with id `id`, if there is one.
    pub fn actor(&self, id: u64) -> (r: Option<Actor>)
        ensures
            slot_view(r) == lookup(self@.actors, id),
    {
        find_actor(&self.actors, id)
    }

    /// Adds a joint, to act after those already there.
    pub fn add_joint(&mut self, joint: DistanceJoint)
        ensures
            final(self)@.actors == old(self)@.actors,
            final(self)@.joints == old(self)@.joints.push(joint@),
    {
        self.joints.push(joint);
        assert(joints_view(self.joints@) =~= joints_view(old(self).joints@).push(joint@));
    }

    /// Lets every joint, in order, apply its pair of forces to the bodies at
    /// its ends.
    pub fn update_distance_joint(&mut self, settings: &PumaPhysicsSettings, delta_time: Scalar)
        ensures
            final(self)@ == old(self)@.update_distance_joint(settings@, delta_time@),
    {
        let dt: Scalar = settings.step_time(delta_time);
        let n: usize = self.joints.len();
        let ghost before = self@;
        let mut i: usize = 0;
        while i < n
            invariant
                i <= n,
                n == self.joints.len(),
                self@.joints == before.joints,
                before.joints.len() == n,
                dt@ == settings@.step_time(delta_time@),
                self@.actors == joints_applied(
                    before.actors,
                    before.joints,
                    i as nat,
                    settings@.delta_time,
                    dt@,
                ),
            decreases n - i,
        {
            let joint: DistanceJoint = self.joints[i];
            let forces: (Vec3, Vec3) = joint.resolve(&self.actors, dt);
            push_force(
                &mut self.actors,
                joint.actor0(),
                joint.local_frame0(),
                forces.0,
                settings.delta_time,
            );
            push_force(
                &mut self.actors,
                joint.actor1(),
                joint.local_frame1(),
                forces.1,
                settings.delta_time,
            );
            i = i + 1;
        }
    }

    /// Advances every body, and the pose of its actor, by one step.
    pub fn update_rigidbody(&mut self, settings: &PumaPhysicsSettings, delta_time: Scalar)
        ensures
            final(self)@ == old(self)@.update_rigidbody(settings@, delta_time@),
    {
        let n: usize = self.actors.len();
        let ghost before = self.actors@;
        let ghost world = self@;
        let mut i: usize = 0;
        while i < n
            invariant
                i <= n,
                n == self.actors.len(),
                before.len() == n,
                self@.joints == world.joints,
                forall|j: int|
                    0 <= j < i ==> slot_view(#[trigger] self.actors@[j]) == stepped(
                        slot_view(before[j]),
                        settings@,
                        delta_time@,
                    ),
                forall|j: int| i <= j < n ==> #[trigger] self.actors@[j] == before[j],
            decreases n - i,
        {
            if let Some(found) = self.actors[i] {
                if let Some(body) = found.rigidbody {
                    let mut body: Rigidbody = body;
                    let mut pose: Pose = found.pose;
                    body.step(&mut pose, settings, delta_time);
                    self.actors.set(i, Some(Actor { pose, rigidbody: Some(body) }));
                }
            }
            i = i + 1;
        }
        assert(self@.actors =~= world.update_rigidbody(settings@, delta_time@).actors);
    }

    /// Brings every body to rest at the origin.
    pub fn reset(&mut self)
        ensures
            final(self)@ == old(self)@.reset(),
    {
        let n: usize = self.actors.len();
        let ghost before = self.actors@;
        let ghost world = self@;
        let mut i: usize = 0;
        while i < n
            invariant
                i <= n,
                n == self.actors.len(),
                before.len() == n,
                self@.joints == world.joints,
                forall|j: int|
                    0 <= j < i ==> slot_view(#[trigger] self.actors@[j]) == rested(
                        slot_view(before[j]),
                    ),
                forall|j: int| i <= j < n ==> #[trigger] self.actors@[j] == before[j],
            decreases n - i,
        {
            if let Some(found) = self.actors[i] {
                if let Some(body) = found.rigidbody {
                    let mut body: Rigidbody = body;
                    let mut pose: Pose = found.pose;
                    body.reset(&mut pose);
                    self.actors.set(i, Some(Actor { pose, rigidbody: Some(body) }));
                }
            }
            i = i + 1;
        }
        assert(self@.actors =~= world.reset().actors);
    }

    /// One tick: the joints act, then the bodies are advanced.
    pub fn tick(&mut self, settings: &PumaPhysicsSettings, delta_time: Scalar)
        ensures
            final(self)@ == old(self)@.tick(settings@, delta_time@),
    {
        self.update_distance_joint(settings, delta_time);
        self.update_rigidbody(settings, delta_time);
    }
}

/// After the bodies were advanced, every body that is not kinematic is no
/// faster than the configured limit, and its actor's orientation is of unit
/// length, whatever forces had been applied to it.
pub proof fn lemma_advanced_bodies_are_bounded(
    world: WorldModel,
    settings: SettingsModel,
    delta_time: int,
    id: int,
)
    requires
        0 <= id < world.actors.len(),
        world.actors[id] is Some,
        world.actors[id]->0.rigidbody is Some,
        !world.actors[id]->0.rigidbody->0.is_kinematic(),
    ensures
        ({
            let after = world.update_rigidbody(settings, delta_time).actors[id];
            &&& after is Some
            &&& after->0.pose.rotation.is_unit()
            &&& after->0.rigidbody is Some
            &&& after->0.rigidbody->0.linear_velocity.norm_sq() <= settings.max_speed
                * settings.max_speed
        }),
{
    let actor = world.actors[id]->0;
    let body = actor.rigidbody->0;
    let dt = settings.step_time(delta_time);
    lemma_step_keeps_unit(body, actor.pose, settings, delta_time);
    lemma_clamp_length_bound(
        body.linear_velocity.add(
            body.net_force(settings.gravity_acceleration).div(body.mass).scale(dt),
        ),
        settings.max_speed,
    );
}

/// Resetting a world twice is resetting it once.
pub proof fn lemma_world_reset_idempotent(world: WorldModel)
    ensures
        world.reset().reset() == world.reset(),
{
    assert(world.reset().reset().actors =~= world.reset().actors);
}

/// Lets gravity act on the velocity of every body for one configured step.
pub fn pose_integrate_phase(physics_settings: &PumaPhysicsSettings, bodies: &mut Vec<Rigidbody>)
    ensures
        final(bodies)@.len() == old(bodies)@.len(),
        forall|i: int|
            0 <= i < old(bodies)@.len() ==> (#[trigger] final(bodies)@[i])@ == old(
                bodies,
            )@[i]@.accelerated(
                physics_settings@.gravity_acceleration,
                physics_settings@.delta_time,
            ),
{
    let n: usize = bodies.len();
    let ghost before = bodies@;
    let mut i: usize = 0;
    while i < n
        invariant
            i <= n,
            n == bodies.len(),
            before.len() == n,
            forall|j: int|
                0 <= j < i ==> (#[trigger] bodies@[j])@ == before[j]@.accelerated(
                    physics_settings@.gravity_acceleration,
                    physics_settings@.delta_time,
                ),
            forall|j: int| i <= j < n ==> #[trigger] bodies@[j] == before[j],
        decreases n - i,
    {
        let mut body: Rigidbody = bodies[i];
        let new_velocity: Vec3 = body.linear_velocity().add(
            physics_settings.gravity_acceleration.scale(physics_settings.delta_time),
        );
        body.set_linear_velocity(new_velocity);
        bodies.set(i, body);
        i = i + 1;
    }
}

} // verus!
