//! The engine's systems: the stores each of them reads and writes, the order
//! they are dispatched in, and what the two of them that hold no coordinates
//! do to the world.

use vstd::prelude::*;
use crate::components::Health;
use crate::ecs::cleanup;
use crate::ecs::destroy;
use crate::ecs::key_of;
use crate::ecs::state_of;
use crate::ecs::wf;
use crate::ecs::WorldState;
use crate::input_window::Key;
use crate::input_window::WindowInputState;
use crate::num::Scalar;
use crate::physics::Vector;
use crate::pipeline::Pipeline;
use crate::pipeline::PipelineError;
use crate::pipeline::StoreId;

verus! {

pub const POSITION: StoreId = 0;

pub const VELOCITY: StoreId = 1;

pub const ACCELERATION: StoreId = 2;

pub const RENDERABLE: StoreId = 3;

pub const PLAYER: StoreId = 4;

pub const ENEMY: StoreId = 5;

pub const HEALTH: StoreId = 6;

pub const COLLIDER: StoreId = 7;

pub const CAMERA: StoreId = 8;

pub const MARKED_FOR_REMOVAL: StoreId = 9;

pub const SCORE: StoreId = 10;

pub const PADDLE: StoreId = 11;

pub const BALL: StoreId = 12;

pub const TIME: StoreId = 13;

pub const INPUT_STATE: StoreId = 14;

pub const ENTITIES: StoreId = 15;

/// How many stores the engine's world has.
pub const STORE_COUNT: StoreId = 16;

/// The stores of the engine's world: every number below `STORE_COUNT`.
pub fn core_stores() -> (stores: Vec<StoreId>)
    ensures
        stores@.len() == STORE_COUNT,
        forall|i: int| 0 <= i < STORE_COUNT ==> stores@[i] == i,
{
    let mut stores: Vec<StoreId> = Vec::new();
    let mut id: StoreId = 0;
    while id < STORE_COUNT
        invariant
            0 <= id <= STORE_COUNT,
            stores@.len() == id,
            forall|i: int| 0 <= i < id ==> stores@[i] == i,
        decreases STORE_COUNT - id,
    {
        stores.push(id);
        id = id + 1;
    }
    stores
}

/// A list of two stores.
fn pair(a: StoreId, b: StoreId) -> (list: Vec<StoreId>)
    ensures
        list@ == seq![a, b],
{
    let mut list: Vec<StoreId> = Vec::new();
    list.push(a);
    list.push(b);
    list
}

/// A list of three stores.
fn triple(a: StoreId, b: StoreId, c: StoreId) -> (list: Vec<StoreId>)
    ensures
        list@ == seq![a, b, c],
{
    let mut list: Vec<StoreId> = Vec::new();
    list.push(a);
    list.push(b);
    list.push(c);
    list
}

/// Moves what has a velocity, and speeds up what has an acceleration.
pub struct PhysicsSystem;

impl PhysicsSystem {
    /// The stores the system reads: accelerations and the clock.
    pub fn reads() -> (stores: Vec<StoreId>)
        ensures
            stores@ == seq![ACCELERATION, TIME],
    {
        pair(ACCELERATION, TIME)
    }

    /// The stores the system writes: positions and velocities.
    pub fn writes() -> (stores: Vec<StoreId>)
        ensures
            stores@ == seq![POSITION, VELOCITY],
    {
        pair(POSITION, VELOCITY)
    }
}

/// Notes the marked entities for deletion.
pub struct CleanupSystem;

impl CleanupSystem {
    /// The stores the system reads: the entities and the marks.
    pub fn reads() -> (stores: Vec<StoreId>)
        ensures
            stores@ == seq![ENTITIES, MARKED_FOR_REMOVAL],
    {
        pair(ENTITIES, MARKED_FOR_REMOVAL)
    }

    /// The system writes no store.
    pub fn writes() -> (stores: Vec<StoreId>)
        ensures
            stores@.len() == 0,
    {
        Vec::new()
    }

    /// Notes every entity that is marked for removal for deletion at the
    /// next `maintain`.
    pub fn run(&mut self, world: &mut specs::World)
        requires
            wf(*old(world)),
        ensures
            wf(*final(world)),
            state_of(*final(world)) == state_of(*old(world)).after_cleanup(),
    {
        cleanup(world);
    }
}

/// The state once each key of `keys` has been destroyed, first to last.
pub open spec fn after_destroy_all(s: WorldState, keys: Seq<(u32, i32)>) -> WorldState
    decreases keys.len(),
{
    if keys.len() == 0 {
        s
    } else {
        after_destroy_all(s, keys.drop_last()).after_destroy(keys.last())
    }
}

/// Marks the entities whose health is used up.
pub struct HealthSystem;

impl HealthSystem {
    /// The stores the system reads: the entities.
    pub fn reads() -> (stores: Vec<StoreId>)
        ensures
            stores@ == seq![ENTITIES],
    {
        let mut list: Vec<StoreId> = Vec::new();
        list.push(ENTITIES);
        list
    }

    /// The stores the system writes: health and the marks.
    pub fn writes() -> (stores: Vec<StoreId>)
        ensures
            stores@ == seq![HEALTH, MARKED_FOR_REMOVAL],
    {
        pair(HEALTH, MARKED_FOR_REMOVAL)
    }

    /// Marks every entity whose health is used up for removal. `healths`
    /// holds the health of each entity of `entities`, in join order.
    pub fn run<T: Scalar>(
        &mut self,
        world: &mut specs::World,
        entities: &Vec<specs::Entity>,
        healths: &Vec<Health<T>>,
    )
        requires
            wf(*old(world)),
            entities@.len() == healths@.len(),
        ensures
            wf(*final(world)),
            state_of(*final(world)) == after_destroy_all(
                state_of(*old(world)),
                depleted(entities@, healths@, entities@.len() as int),
            ),
    {
        let mut i: usize = 0;
        while i < entities.len()
            invariant
                0 <= i <= entities.len(),
                entities@.len() == healths@.len(),
                wf(*world),
                state_of(*world) == after_destroy_all(
                    state_of(*old(world)),
                    depleted(entities@, healths@, i as int),
                ),
            decreases entities.len() - i,
        {
            if !healths[i].is_alive() {
                proof {
                    let next = depleted(entities@, healths@, i + 1);
                    assert(next.drop_last() =~= depleted(entities@, healths@, i as int));
                }
                destroy(world, entities[i]);
            }
            i = i + 1;
        }
    }
}

/// The keys of those among the first `upto` entities whose health is used
/// up, in the order of the entities.
pub open spec fn depleted<T: Scalar>(entities: Seq<specs::Entity>, healths: Seq<Health<T>>, upto: int) -> Seq<
    (u32, i32),
>
    decreases upto,
{
    if upto <= 0 {
        Seq::empty()
    } else if !healths[upto - 1].alive() {
        depleted(entities, healths, upto - 1).push(key_of(entities[upto - 1]))
    } else {
        depleted(entities, healths, upto - 1)
    }
}

/// Reports the frame time and the number of entities.
pub struct DebugSystem;

impl DebugSystem {
    /// The stores the system reads.
    pub fn reads() -> (stores: Vec<StoreId>)
        ensures
            stores@ == seq![POSITION, VELOCITY, HEALTH, TIME],
    {
        let mut list = triple(POSITION, VELOCITY, HEALTH);
        list.push(TIME);
        list
    }

    /// The system writes no store.
    pub fn writes() -> (stores: Vec<StoreId>)
        ensures
            stores@.len() == 0,
    {
        Vec::new()
    }
}

/// Steers computer-controlled entities.
pub struct AISystem;

impl AISystem {
    /// The stores the system reads: positions and the clock.
    pub fn reads() -> (stores: Vec<StoreId>)
        ensures
            stores@ == seq![POSITION, TIME],
    {
        pair(POSITION, TIME)
    }

    /// The store the system writes: velocities.
    pub fn writes() -> (stores: Vec<StoreId>)
        ensures
            stores@ == seq![VELOCITY],
    {
        let mut list: Vec<StoreId> = Vec::new();
        list.push(VELOCITY);
        list
    }
}

/// Finds the bodies that collide and answers for them: reflection, score
/// and reset.
pub struct CollisionSystem;

impl CollisionSystem {
    /// The stores the system reads: the entities, the colliders, and the
    /// tags of paddles and balls.
    pub fn reads() -> (stores: Vec<StoreId>)
        ensures
            stores@ == seq![ENTITIES, COLLIDER, PADDLE, BALL],
    {
        let mut list = triple(ENTITIES, COLLIDER, PADDLE);
        list.push(BALL);
        list
    }

    /// The stores the system writes: positions, velocities and the score.
    pub fn writes() -> (stores: Vec<StoreId>)
        ensures
            stores@ == seq![POSITION, VELOCITY, SCORE],
    {
        triple(POSITION, VELOCITY, SCORE)
    }
}

/// Turns held keys into the player's velocity.
pub struct InputSystem;

impl InputSystem {
    /// The stores the system reads: the input and the players.
    pub fn reads() -> (stores: Vec<StoreId>)
        ensures
            stores@ == seq![INPUT_STATE, PLAYER],
    {
        pair(INPUT_STATE, PLAYER)
    }

    /// The store the system writes: velocities.
    pub fn writes() -> (stores: Vec<StoreId>)
        ensures
            stores@ == seq![VELOCITY],
    {
        let mut list: Vec<StoreId> = Vec::new();
        list.push(VELOCITY);
        list
    }
}

/// The velocity the held arrow keys give a player: a hundred along each
/// axis whose key is held, towards the right and downwards where both keys of
/// an axis are.
pub open spec fn velocity_of_keys<T: Scalar>(input: WindowInputState) -> Vector<T> {
    Vector {
        x: if input.keys_pressed@.contains(Key::Right) {
            T::ratio(100, 1)
        } else if input.keys_pressed@.contains(Key::Left) {
            T::ratio(-100i32, 1)
        } else {
            T::ratio(0, 1)
        },
        y: if input.keys_pressed@.contains(Key::Down) {
            T::ratio(100, 1)
        } else if input.keys_pressed@.contains(Key::Up) {
            T::ratio(-100i32, 1)
        } else {
            T::ratio(0, 1)
        },
    }
}

/// The velocity towards the origin at a speed of fifty, from `position`.
pub open spec fn homeward<T: Scalar>(position: Vector<T>) -> Vector<T> {
    let back = Vector { x: position.x.negated(), y: position.y.negated() };
    let length = back.x.product(back.x).sum(back.y.product(back.y)).root();
    Vector {
        x: back.x.quotient(length).product(T::ratio(50, 1)),
        y: back.y.quotient(length).product(T::ratio(50, 1)),
    }
}

impl InputSystem {
    /// The velocity the held arrow keys give a player.
    pub fn player_velocity<T: Scalar>(input: &WindowInputState) -> (velocity: Vector<T>)
        ensures
            velocity == velocity_of_keys::<T>(*input),
    {
        let mut velocity = Vector { x: T::from_ratio(0, 1), y: T::from_ratio(0, 1) };
        if input.is_key_pressed(Key::Left) {
            velocity.x = T::from_ratio(-100, 1);
        }
        if input.is_key_pressed(Key::Right) {
            velocity.x = T::from_ratio(100, 1);
        }
        if input.is_key_pressed(Key::Up) {
            velocity.y = T::from_ratio(-100, 1);
        }
        if input.is_key_pressed(Key::Down) {
            velocity.y = T::from_ratio(100, 1);
        }
        velocity
    }
}

impl AISystem {
    /// The velocity that steers an entity at `position` towards the
    /// origin.
    pub fn steer<T: Scalar>(position: &Vector<T>) -> (velocity: Vector<T>)
        ensures
            velocity == homeward(*position),
    {
        let back = Vector { x: position.x.neg(), y: position.y.neg() };
        let length = back.x.times(back.x).plus(back.y.times(back.y)).sqrt();
        Vector {
            x: back.x.over(length).times(T::from_ratio(50, 1)),
            y: back.y.over(length).times(T::from_ratio(50, 1)),
        }
    }
}

/// Hands the visible entities to the renderer.
pub struct RenderingSystem;

impl RenderingSystem {
    /// The stores the system reads.
    pub fn reads() -> (stores: Vec<StoreId>)
        ensures
            stores@ == seq![POSITION, RENDERABLE, TIME],
    {
        triple(POSITION, RENDERABLE, TIME)
    }

    /// The system writes no store.
    pub fn writes() -> (stores: Vec<StoreId>)
        ensures
            stores@.len() == 0,
    {
        Vec::new()
    }
}

/// The engine's own pipeline: the physics step, then the collision step,
/// which comes after physics; only then the systems of a game: rendering,
/// also after physics, and input.
pub fn core_pipeline() -> (pipeline: Pipeline)
    ensures
        pipeline.wf(),
        pipeline.systems().len() == 4,
        pipeline.systems()[0].name@ == "physics"@,
        pipeline.systems()[1].name@ == "collision"@,
        pipeline.systems()[2].name@ == "rendering"@,
        pipeline.systems()[3].name@ == "input"@,
        pipeline.systems()[0].after@.len() == 0,
        pipeline.systems()[1].after@ == seq![0usize],
        pipeline.systems()[2].after@ == seq![0usize],
        pipeline.systems()[3].after@.len() == 0,
{
    let stores = core_stores();
    let ghost all = stores@;
    let mut pipeline = Pipeline::new(stores);
    let nothing: Vec<String> = Vec::new();
    let mut after_physics: Vec<String> = Vec::new();
    after_physics.push("physics".to_owned());
    proof {
        reveal_strlit("physics");
        reveal_strlit("collision");
        reveal_strlit("rendering");
        reveal_strlit("input");
        assert("rendering"@[0] != "collision"@[0]);
        assert forall|s: StoreId| s < STORE_COUNT implies all.contains(s) by {
            assert(all[s as int] == s);
        }
    }
    let first = pipeline.register("physics", &nothing, PhysicsSystem::reads(), PhysicsSystem::writes());
    assert(first == Ok::<usize, PipelineError>(0));
    proof {
        assert(pipeline.names()[0] == "physics"@);
    }
    let second = pipeline.register(
        "collision",
        &after_physics,
        CollisionSystem::reads(),
        CollisionSystem::writes(),
    );
    assert(second == Ok::<usize, PipelineError>(1));
    proof {
        assert(pipeline.systems().subrange(0, 1)[0] == pipeline.systems()[0]);
        assert(pipeline.names()[0] == "physics"@);
        assert(pipeline.names()[1] == "collision"@);
        assert(pipeline.systems()[1].after@ =~= seq![0usize]);
    }
    let third = pipeline.register(
        "rendering",
        &after_physics,
        RenderingSystem::reads(),
        RenderingSystem::writes(),
    );
    assert(third == Ok::<usize, PipelineError>(2));
    proof {
        assert(pipeline.systems().subrange(0, 2)[0] == pipeline.systems()[0]);
        assert(pipeline.systems().subrange(0, 2)[1] == pipeline.systems()[1]);
        assert(pipeline.names()[0] == "physics"@);
        assert(pipeline.names()[1] == "collision"@);
        assert(pipeline.names()[2] == "rendering"@);
        assert(pipeline.systems()[2].after@ =~= seq![0usize]);
    }
    let fourth = pipeline.register("input", &nothing, InputSystem::reads(), InputSystem::writes());
    assert(fourth == Ok::<usize, PipelineError>(3));
    proof {
        assert(pipeline.systems().subrange(0, 3)[0] == pipeline.systems()[0]);
        assert(pipeline.systems().subrange(0, 3)[1] == pipeline.systems()[1]);
        assert(pipeline.systems().subrange(0, 3)[2] == pipeline.systems()[2]);
    }
    pipeline
}

} // verus!
