//! The game: a world, the pipeline that is dispatched on it, and the
//! resources every system may ask for: the clock, the input of the tick and
//! the score.
//!
//! One update is a dispatch between two calls: `begin_update` moves the
//! clock and says in which order the systems run, the caller runs them, and
//! `end_update` collects what they marked.

use vstd::prelude::*;
use crate::ecs::alive;
use crate::ecs::create_entity;
use crate::ecs::init;
use crate::ecs::key_of;
use crate::ecs::maintain;
use crate::ecs::no_bricks;
use crate::ecs::state_of;
use crate::ecs::wf;
use crate::ecs::WORLD_ROOM;
use crate::ecs::world_bricks;
use crate::ecs::world_entities;
use crate::ecs::world_headroom;
use crate::ecs::world_issued;
use crate::ecs::above_issued;
use crate::components::Score;
use crate::game_loop::Time;
use crate::input_window::Key;
use crate::input_window::WindowInputState;
use crate::pipeline::Pipeline;
use crate::systems::core_pipeline;

verus! {

/// How many entities a game can create in all: as many as a new world has
/// room for.
pub const ENTITY_LIMIT: u32 = WORLD_ROOM;

/// A game.
pub struct Game {
    pub world: specs::World,
    pub pipeline: Pipeline,
    /// The simulation clock.
    pub time: Time,
    /// The input of the current tick.
    pub input: WindowInputState,
    /// The score.
    pub score: Score,
    /// Entities created so far through [`Game::spawn`].
    pub spawned: u32,
}

impl Game {
    /// The world and the pipeline are well formed, and the world has room
    /// for the entities that the game has not created yet.
    pub open spec fn wf(&self) -> bool {
        &&& wf(self.world)
        &&& self.pipeline.wf()
        &&& self.spawned <= ENTITY_LIMIT
        &&& world_headroom(self.world) >= ENTITY_LIMIT - self.spawned
    }

    /// A game with an empty world, the engine's own pipeline and the clock
    /// at nil. In the pipeline the physics step stands first and the
    /// collision step second, after physics; the systems of the game follow.
    pub fn new() -> (game: Game)
        ensures
            game.wf(),
            world_entities(game.world) == Set::<(u32, i32)>::empty(),
            world_bricks(game.world) == no_bricks(),
            game.pipeline.systems().len() == 4,
            game.pipeline.systems()[0].name@ == "physics"@,
            game.pipeline.systems()[1].name@ == "collision"@,
            game.pipeline.systems()[1].after@ == seq![0usize],
            game.pipeline.systems()[2].name@ == "rendering"@,
            game.pipeline.systems()[3].name@ == "input"@,
            game.time == (Time { delta: 0, elapsed: 0 }),
            game.score == (Score { player_score: 0, ai_score: 0 }),
            game.input.keys_pressed@ == Set::<Key>::empty(),
            game.input.keys_just_pressed@ == Set::<Key>::empty(),
            game.input.keys_just_released@ == Set::<Key>::empty(),
            game.spawned == 0,
    {
        Game {
            world: init(),
            pipeline: core_pipeline(),
            time: Time::default(),
            input: WindowInputState::default(),
            score: Score::default(),
            spawned: 0,
        }
    }

    /// Creates an entity, unless the game has created as many as a world
    /// has room for: then nothing changes and the answer is `None`. The key
    /// of the new entity was never issued before, and its generation lies
    /// above every one that was issued on its index: it is no entity that
    /// was spawned earlier, alive or gone.
    pub fn spawn(&mut self) -> (spawned: Option<specs::Entity>)
        requires
            old(self).wf(),
        ensures
            final(self).wf(),
            final(self).pipeline == old(self).pipeline,
            final(self).time == old(self).time,
            final(self).input == old(self).input,
            final(self).score == old(self).score,
            match spawned {
                Some(e) => {
                    &&& old(self).spawned < ENTITY_LIMIT
                    &&& final(self).spawned == old(self).spawned + 1
                    &&& alive(final(self).world, e)
                    &&& !world_issued(old(self).world).contains(key_of(e))
                    &&& above_issued(world_issued(old(self).world), key_of(e))
                    &&& state_of(final(self).world) == state_of(old(self).world).after_create(
                        key_of(e),
                    )
                },
                None => {
                    &&& old(self).spawned == ENTITY_LIMIT
                    &&& final(self).spawned == old(self).spawned
                    &&& final(self).world == old(self).world
                },
            },
    {
        if self.spawned < ENTITY_LIMIT {
            let e = create_entity(&mut self.world);
            self.spawned = self.spawned + 1;
            Some(e)
        } else {
            None
        }
    }

    /// Starts an update of `delta` nanoseconds with the input of the tick:
    /// the clock moves on, the input is put in place, and the systems are to
    /// be run in the order returned, each once.
    pub fn begin_update(&mut self, delta: u64, input: WindowInputState) -> (order: Vec<usize>)
        requires
            old(self).wf(),
            old(self).time.elapsed + delta <= u64::MAX,
        ensures
            final(self).wf(),
            final(self).time.delta == delta,
            final(self).time.elapsed == old(self).time.elapsed + delta,
            final(self).world == old(self).world,
            final(self).pipeline == old(self).pipeline,
            final(self).spawned == old(self).spawned,
            final(self).input == input,
            final(self).score == old(self).score,
            order@.len() == old(self).pipeline.systems().len(),
            forall|i: int| 0 <= i < order@.len() ==> order@[i] == i,
    {
        self.time.step(delta);
        self.input = input;
        self.pipeline.dispatch_order()
    }

    /// Ends an update: the entities that were marked for removal leave the
    /// world with their components.
    pub fn end_update(&mut self)
        requires
            old(self).wf(),
        ensures
            final(self).wf(),
            state_of(final(self).world) == state_of(old(self).world).after_maintain(),
            final(self).pipeline == old(self).pipeline,
            final(self).time == old(self).time,
            final(self).input == old(self).input,
            final(self).score == old(self).score,
            final(self).spawned == old(self).spawned,
    {
        maintain(&mut self.world);
    }
}

} // verus!
