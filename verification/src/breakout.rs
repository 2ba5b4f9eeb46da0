//! The rules of the brick game that hold no coordinates: the wall of bricks,
//! lives and levels, and what the keys do in each state of the game.

use vstd::prelude::*;
use crate::components::Brick;
use crate::ecs::alive;
use crate::ecs::create_entity;
use crate::ecs::insert_brick;
use crate::ecs::key_of;
use crate::ecs::present;
use crate::ecs::state_of;
use crate::ecs::wf;
use crate::ecs::world_entities;
use crate::ecs::world_headroom;
use crate::ecs::world_marked;
use crate::ecs::world_doomed;
use crate::input_window::Key;
use crate::input_window::WindowInputState;

verus! {

/// Rows of bricks in the wall.
pub const BRICK_ROWS: usize = 6;

/// Bricks in a row.
pub const BRICK_COLS: usize = 13;

/// Lives at the start of a game.
pub const START_LIVES: i32 = 3;

/// The brick of a row: the two top rows take one hit, the next two take
/// two, the rest three; a row is worth ten points more than the row below.
pub open spec fn brick_of_row(row: int) -> Brick {
    Brick {
        hits_required: if row < 2 {
            1
        } else if row < 4 {
            2
        } else {
            3
        },
        points: ((BRICK_ROWS - row) * 10) as i32,
    }
}

/// The brick of a row of the wall.
pub fn brick_for_row(row: usize) -> (brick: Brick)
    requires
        row < BRICK_ROWS,
    ensures
        brick == brick_of_row(row as int),
{
    let hits_required: i32 = if row < 2 {
        1
    } else if row < 4 {
        2
    } else {
        3
    };
    let points: i32 = ((BRICK_ROWS - row) * 10) as i32;
    Brick { hits_required, points }
}

/// Builds the wall: one entity with a brick for each place, row by row from
/// the top, left to right. Returns the entities in that order; the brick at
/// place `i` is the one of row `i / BRICK_COLS`. What was in the world stays
/// as it was.
pub fn create_bricks(world: &mut specs::World) -> (wall: Vec<specs::Entity>)
    requires
        wf(*old(world)),
        world_headroom(*old(world)) >= BRICK_ROWS * BRICK_COLS,
    ensures
        wf(*final(world)),
        wall@.len() == BRICK_ROWS * BRICK_COLS,
        built(*old(world), *final(world), wall@),
        world_headroom(*final(world)) == world_headroom(*old(world)) - BRICK_ROWS * BRICK_COLS,
{
    let mut wall: Vec<specs::Entity> = Vec::new();
    let mut row: usize = 0;
    while row < BRICK_ROWS
        invariant
            0 <= row <= BRICK_ROWS,
            wf(*world),
            wall@.len() == row * BRICK_COLS,
            world_headroom(*world) == world_headroom(*old(world)) - wall@.len(),
            world_headroom(*old(world)) >= BRICK_ROWS * BRICK_COLS,
            built(*old(world), *world, wall@),
        decreases BRICK_ROWS - row,
    {
        let brick = brick_for_row(row);
        let mut col: usize = 0;
        while col < BRICK_COLS
            invariant
                0 <= row < BRICK_ROWS,
                0 <= col <= BRICK_COLS,
                brick == brick_of_row(row as int),
                wf(*world),
                wall@.len() == row * BRICK_COLS + col,
                world_headroom(*world) == world_headroom(*old(world)) - wall@.len(),
                world_headroom(*old(world)) >= BRICK_ROWS * BRICK_COLS,
                built(*old(world), *world, wall@),
            decreases BRICK_COLS - col,
        {
            let ghost before = *world;
            let ghost place = wall@.len() as int;
            assert(place < BRICK_ROWS * BRICK_COLS) by (nonlinear_arith)
                requires
                    place == row * BRICK_COLS + col,
                    row < BRICK_ROWS,
                    col < BRICK_COLS,
            ;
            assert(place / BRICK_COLS as int == row) by (nonlinear_arith)
                requires
                    place == row * BRICK_COLS + col,
                    0 <= col < BRICK_COLS,
                    BRICK_COLS == 13,
            ;
            let e = create_entity(world);
            let stored = insert_brick(world, e, brick);
            wall.push(e);
            proof {
                let s0 = state_of(*old(world));
                let s1 = state_of(before);
                let s2 = state_of(*world);
                assert(s2.entities =~= s1.entities.insert(key_of(e)));
                assert forall|i: int| 0 <= i < wall@.len() implies alive(*world, #[trigger] wall@[i])
                    && !present(*old(world), wall@[i]) && s2.brick(key_of(wall@[i])) == Some(
                    brick_of_row(i / BRICK_COLS as int),
                ) by {
                    if i < place {
                        assert(alive(before, wall@[i]));
                    }
                }
                assert forall|i: int, j: int| 0 <= i < j < wall@.len() implies key_of(wall@[i])
                    != key_of(wall@[j]) by {
                    if j == place {
                        assert(alive(before, wall@[i]));
                    }
                }
                if s0.entities.finite() {
                    assert(s1.entities.finite());
                    assert(!s1.entities.contains(key_of(e)));
                }
            }
            col = col + 1;
        }
        row = row + 1;
        assert(wall@.len() == row * BRICK_COLS) by (nonlinear_arith)
            requires
                wall@.len() == (row - 1) * BRICK_COLS + BRICK_COLS,
        ;
    }
    wall
}

/// Whether `now` is `before` with the bricks of `wall` added: each entity of
/// `wall` is new, alive and holds the brick of its row, no two of them are the
/// same, and whatever was in `before` is in `now` as it was.
pub open spec fn built(before: specs::World, now: specs::World, wall: Seq<specs::Entity>) -> bool {
    &&& forall|i: int|
        0 <= i < wall.len() ==> alive(now, #[trigger] wall[i]) && !present(before, wall[i])
            && state_of(now).brick(key_of(wall[i])) == Some(brick_of_row(i / BRICK_COLS as int))
    &&& forall|i: int, j: int| 0 <= i < j < wall.len() ==> key_of(wall[i]) != key_of(wall[j])
    &&& forall|k: (u32, i32)|
        state_of(before).present(k) ==> state_of(now).present(k) && state_of(now).brick(k)
            == state_of(before).brick(k)
    &&& world_marked(now) == world_marked(before)
    &&& world_doomed(now) == world_doomed(before)
    &&& (world_entities(before).finite() ==> world_entities(now).finite() && world_entities(
        now,
    ).len() == world_entities(before).len() + wall.len())
}

/// Where the brick game stands.
#[derive(Debug, Clone, Copy, PartialEq, Eq, Structural)]
pub enum BreakoutGameState {
    Menu,
    Playing,
    Paused,
    GameOver { won: bool },
    LevelComplete,
}

/// What the caller has to do after the rules have spoken.
#[derive(Debug, Clone, Copy, PartialEq, Eq, Structural)]
pub enum BreakoutAction {
    /// Nothing.
    Nothing,
    /// Put the ball back on the paddle.
    ResetBall,
    /// Launch the ball if it sits on the paddle.
    LaunchBall,
    /// Build the next level.
    BuildLevel,
}

/// State, level and lives of a brick game.
#[derive(Debug, Clone, Copy, PartialEq, Eq, Structural)]
pub struct BreakoutProgress {
    pub game_state: BreakoutGameState,
    pub level: i32,
    pub lives: i32,
    pub bricks_remaining: usize,
}

/// What was found after the dispatch of a tick.
#[derive(Debug, Clone, Copy, PartialEq, Eq, Structural)]
pub struct TickFindings {
    /// An item of the menu is selected.
    pub menu_item_selected: bool,
    /// Bricks that are left in the world.
    pub bricks_remaining: usize,
    /// Balls that are still alive.
    pub active_balls: usize,
}

impl BreakoutProgress {
    /// The progress after a tick. In the menu a selected item starts the
    /// game. While playing, a level without bricks is complete, and a tick
    /// without a living ball costs a life: the last life ends the game,
    /// any other puts the ball back. A complete level is followed by the
    /// next.
    pub open spec fn after_tick(self, found: TickFindings) -> BreakoutProgress {
        match self.game_state {
            BreakoutGameState::Menu => if found.menu_item_selected {
                BreakoutProgress { game_state: BreakoutGameState::Playing, ..self }
            } else {
                self
            },
            BreakoutGameState::Playing => {
                let counted = BreakoutProgress { bricks_remaining: found.bricks_remaining, ..self };
                let cleared = if found.bricks_remaining == 0 {
                    BreakoutProgress { game_state: BreakoutGameState::LevelComplete, ..counted }
                } else {
                    counted
                };
                if found.active_balls == 0 {
                    if self.lives - 1 <= 0 {
                        BreakoutProgress {
                            game_state: BreakoutGameState::GameOver { won: false },
                            lives: (self.lives - 1) as i32,
                            ..cleared
                        }
                    } else {
                        BreakoutProgress { lives: (self.lives - 1) as i32, ..cleared }
                    }
                } else {
                    cleared
                }
            },
            BreakoutGameState::Paused => self,
            BreakoutGameState::GameOver { won } => self,
            BreakoutGameState::LevelComplete => BreakoutProgress {
                game_state: BreakoutGameState::Playing,
                level: (self.level + 1) as i32,
                ..self
            },
        }
    }

    /// What the caller has to do after a tick.
    pub open spec fn action_after_tick(self, found: TickFindings) -> BreakoutAction {
        match self.game_state {
            BreakoutGameState::Playing => if found.active_balls == 0 && self.lives - 1 > 0 {
                BreakoutAction::ResetBall
            } else {
                BreakoutAction::Nothing
            },
            BreakoutGameState::LevelComplete => BreakoutAction::BuildLevel,
            _ => BreakoutAction::Nothing,
        }
    }

    /// The progress after the keys of a tick: Space starts the game from the
    /// menu and goes on after a complete level, Escape pauses and resumes, R
    /// starts over after the game has ended.
    pub open spec fn after_input(self, input: WindowInputState) -> BreakoutProgress {
        let pressed = input.keys_just_pressed@;
        match self.game_state {
            BreakoutGameState::Menu => if pressed.contains(Key::Space) {
                BreakoutProgress { game_state: BreakoutGameState::Playing, ..self }
            } else {
                self
            },
            BreakoutGameState::Playing => if pressed.contains(Key::Escape) {
                BreakoutProgress { game_state: BreakoutGameState::Paused, ..self }
            } else {
                self
            },
            BreakoutGameState::Paused => if pressed.contains(Key::Escape) {
                BreakoutProgress { game_state: BreakoutGameState::Playing, ..self }
            } else {
                self
            },
            BreakoutGameState::GameOver { won } => if pressed.contains(Key::R) {
                BreakoutProgress {
                    game_state: BreakoutGameState::Playing,
                    level: 1,
                    lives: START_LIVES,
                    ..self
                }
            } else {
                self
            },
            BreakoutGameState::LevelComplete => if pressed.contains(Key::Space) {
                BreakoutProgress { game_state: BreakoutGameState::Playing, ..self }
            } else {
                self
            },
        }
    }

    /// What the caller has to do after the keys of a tick.
    pub open spec fn action_after_input(self, input: WindowInputState) -> BreakoutAction {
        let pressed = input.keys_just_pressed@;
        match self.game_state {
            BreakoutGameState::Playing => if pressed.contains(Key::Space) {
                BreakoutAction::LaunchBall
            } else {
                BreakoutAction::Nothing
            },
            BreakoutGameState::GameOver { won } => if pressed.contains(Key::R) {
                BreakoutAction::BuildLevel
            } else {
                BreakoutAction::Nothing
            },
            _ => BreakoutAction::Nothing,
        }
    }

    /// A game in the menu, at level one with three lives.
    pub fn new() -> (progress: BreakoutProgress)
        ensures
            progress == (BreakoutProgress {
                game_state: BreakoutGameState::Menu,
                level: 1,
                lives: START_LIVES,
                bricks_remaining: 0,
            }),
    {
        BreakoutProgress {
            game_state: BreakoutGameState::Menu,
            level: 1,
            lives: START_LIVES,
            bricks_remaining: 0,
        }
    }

    /// Applies the rules after a tick. While playing, the caller has run
    /// the dispatch and the maintenance of the tick before the call.
    pub fn update(&mut self, found: TickFindings) -> (action: BreakoutAction)
        requires
            old(self).level < i32::MAX,
            old(self).lives > i32::MIN,
        ensures
            *final(self) == old(self).after_tick(found),
            action == old(self).action_after_tick(found),
    {
        match self.game_state {
            BreakoutGameState::Menu => {
                if found.menu_item_selected {
                    self.game_state = BreakoutGameState::Playing;
                }
                BreakoutAction::Nothing
            },
            BreakoutGameState::Playing => {
                self.bricks_remaining = found.bricks_remaining;
                if self.bricks_remaining == 0 {
                    self.game_state = BreakoutGameState::LevelComplete;
                }
                if found.active_balls == 0 {
                    self.lives = self.lives - 1;
                    if self.lives <= 0 {
                        self.game_state = BreakoutGameState::GameOver { won: false };
                        BreakoutAction::Nothing
                    } else {
                        BreakoutAction::ResetBall
                    }
                } else {
                    BreakoutAction::Nothing
                }
            },
            BreakoutGameState::Paused => BreakoutAction::Nothing,
            BreakoutGameState::GameOver { won } => BreakoutAction::Nothing,
            BreakoutGameState::LevelComplete => {
                self.level = self.level + 1;
                self.game_state = BreakoutGameState::Playing;
                BreakoutAction::BuildLevel
            },
        }
    }

    /// Applies the keys of a tick.
    pub fn handle_input(&mut self, input: &WindowInputState) -> (action: BreakoutAction)
        ensures
            *final(self) == old(self).after_input(*input),
            action == old(self).action_after_input(*input),
    {
        match self.game_state {
            BreakoutGameState::Menu => {
                if input.is_key_just_pressed(Key::Space) {
                    self.game_state = BreakoutGameState::Playing;
                }
                BreakoutAction::Nothing
            },
            BreakoutGameState::Playing => {
                if input.is_key_just_pressed(Key::Escape) {
                    self.game_state = BreakoutGameState::Paused;
                }
                if input.is_key_just_pressed(Key::Space) {
                    BreakoutAction::LaunchBall
                } else {
                    BreakoutAction::Nothing
                }
            },
            BreakoutGameState::Paused => {
                if input.is_key_just_pressed(Key::Escape) {
                    self.game_state = BreakoutGameState::Playing;
                }
                BreakoutAction::Nothing
            },
            BreakoutGameState::GameOver { won } => {
                if input.is_key_just_pressed(Key::R) {
                    self.restart_game();
                    BreakoutAction::BuildLevel
                } else {
                    BreakoutAction::Nothing
                }
            },
            BreakoutGameState::LevelComplete => {
                if input.is_key_just_pressed(Key::Space) {
                    self.game_state = BreakoutGameState::Playing;
                }
                BreakoutAction::Nothing
            },
        }
    }

    /// Starts over: level one, three lives, playing.
    pub fn restart_game(&mut self)
        ensures
            *final(self) == (BreakoutProgress {
                game_state: BreakoutGameState::Playing,
                level: 1,
                lives: START_LIVES,
                ..*old(self)
            }),
    {
        self.level = 1;
        self.lives = START_LIVES;
        self.game_state = BreakoutGameState::Playing;
    }
}

/// A game is lost only with the last life: while a life is left, a lost ball
/// never ends the game.
pub proof fn lemma_game_over_needs_last_life(progress: BreakoutProgress, found: TickFindings)
    requires
        progress.game_state == BreakoutGameState::Playing,
    ensures
        (progress.after_tick(found).game_state == BreakoutGameState::GameOver { won: false }) == (
        found.active_balls == 0 && progress.lives <= 1),
        found.active_balls > 0 ==> progress.after_tick(found).lives == progress.lives,
{
}

} // verus!
