//! The rules of the paddle game that hold no coordinates: menu, difficulty,
//! pause, and when a match is won.
//!
//! The rules are a state machine. Each tick the caller hands in the keys and
//! what the dispatch has left in the score, and is told what to do with the
//! world: start a match, reset it, or nothing.

use vstd::prelude::*;
use crate::components::Score;
use crate::components::Side;
use crate::input_window::Key;
use crate::input_window::WindowInputState;

verus! {

/// Points that win a match.
pub const MAX_SCORE: u32 = 5;

/// How hard the opponent plays.
#[derive(Debug, Clone, Copy, PartialEq, Eq, Structural)]
pub enum Difficulty {
    Easy,
    Normal,
    Hard,
}

impl Difficulty {
    /// The next harder level; after the hardest comes the easiest.
    pub open spec fn spec_next(self) -> Difficulty {
        match self {
            Difficulty::Easy => Difficulty::Normal,
            Difficulty::Normal => Difficulty::Hard,
            Difficulty::Hard => Difficulty::Easy,
        }
    }

    /// The next easier level; before the easiest comes the hardest.
    pub open spec fn spec_previous(self) -> Difficulty {
        match self {
            Difficulty::Easy => Difficulty::Hard,
            Difficulty::Normal => Difficulty::Easy,
            Difficulty::Hard => Difficulty::Normal,
        }
    }

    /// The next harder level; after the hardest comes the easiest.
    pub fn next(self) -> (level: Difficulty)
        ensures
            level == self.spec_next(),
    {
        match self {
            Difficulty::Easy => Difficulty::Normal,
            Difficulty::Normal => Difficulty::Hard,
            Difficulty::Hard => Difficulty::Easy,
        }
    }

    /// The next easier level; before the easiest comes the hardest.
    pub fn previous(self) -> (level: Difficulty)
        ensures
            level == self.spec_previous(),
    {
        match self {
            Difficulty::Easy => Difficulty::Hard,
            Difficulty::Normal => Difficulty::Easy,
            Difficulty::Hard => Difficulty::Normal,
        }
    }
}

/// Where the paddle game stands.
#[derive(Debug, Clone, Copy, PartialEq, Eq, Structural)]
pub enum GameState {
    Menu,
    DifficultySelect,
    Playing,
    Paused,
    Scored { points: u32, is_player: bool },
    GameOver { winner: Side },
}

/// What the caller has to do with the world.
#[derive(Debug, Clone, Copy, PartialEq, Eq, Structural)]
pub enum PongAction {
    /// Nothing.
    Nothing,
    /// Run the systems once and maintain the world, then call `after_dispatch`.
    Dispatch,
    /// Set the score to nil and serve the ball at the chosen difficulty.
    StartGame,
    /// Serve the ball at normal speed.
    ResetGame,
}

/// What a tick brings besides the keys.
#[derive(Debug, Clone, Copy, PartialEq, Eq, Structural)]
pub struct TickSignals {
    /// The pause after a point is over.
    pub pause_over: bool,
}

/// State, score and difficulty of a paddle game.
#[derive(Debug, Clone, Copy, PartialEq, Eq, Structural)]
pub struct PongFlow {
    pub game_state: GameState,
    pub score: Score,
    pub difficulty: Difficulty,
}

/// The name a side is announced by.
pub fn side_name(side: Side) -> (name: String)
    ensures
        name@ == (match side {
            Side::Player => "Player"@,
            Side::Ai => "AI"@,
        }),
{
    match side {
        Side::Player => "Player".to_owned(),
        Side::Ai => "AI".to_owned(),
    }
}

/// Whether one of two keys went down.
pub open spec fn either(pressed: Set<Key>, first: Key, second: Key) -> bool {
    pressed.contains(first) || pressed.contains(second)
}

impl PongFlow {
    /// The flow with a match started: playing, nil all.
    pub open spec fn started(self) -> PongFlow {
        PongFlow {
            game_state: GameState::Playing,
            score: Score { player_score: 0, ai_score: 0 },
            ..self
        }
    }

    /// The flow after the keys of a tick in the difficulty menu. Down and Up
    /// move the choice; then 1, 2 or 3 choose a level and start, Enter or
    /// Space start with the choice as it is, and Escape goes back.
    pub open spec fn after_select(self, pressed: Set<Key>) -> PongFlow {
        let moved = if pressed.contains(Key::Down) {
            self.difficulty.spec_next()
        } else if pressed.contains(Key::Up) {
            self.difficulty.spec_previous()
        } else {
            self.difficulty
        };
        let chosen = PongFlow { difficulty: moved, ..self };
        if either(pressed, Key::Key1, Key::NumPad1) {
            (PongFlow { difficulty: Difficulty::Easy, ..self }).started()
        } else if either(pressed, Key::Key2, Key::NumPad2) {
            (PongFlow { difficulty: Difficulty::Normal, ..self }).started()
        } else if either(pressed, Key::Key3, Key::NumPad3) {
            (PongFlow { difficulty: Difficulty::Hard, ..self }).started()
        } else if either(pressed, Key::Enter, Key::Space) {
            chosen.started()
        } else if pressed.contains(Key::Escape) {
            PongFlow { game_state: GameState::Menu, ..chosen }
        } else {
            chosen
        }
    }

    /// Whether the keys of a tick start a match from the difficulty menu.
    pub open spec fn starts(pressed: Set<Key>) -> bool {
        either(pressed, Key::Key1, Key::NumPad1) || either(pressed, Key::Key2, Key::NumPad2)
            || either(pressed, Key::Key3, Key::NumPad3) || either(pressed, Key::Enter, Key::Space)
    }

    /// The flow after the keys and signals of a tick, for every state but
    /// playing.
    pub open spec fn after_tick(self, input: WindowInputState, signals: TickSignals) -> PongFlow {
        let pressed = input.keys_just_pressed@;
        match self.game_state {
            GameState::Menu => if pressed.contains(Key::Space) {
                PongFlow { game_state: GameState::DifficultySelect, ..self }
            } else {
                self
            },
            GameState::DifficultySelect => self.after_select(pressed),
            GameState::Playing => self,
            GameState::Paused => if pressed.contains(Key::Escape) {
                PongFlow { game_state: GameState::Playing, ..self }
            } else if pressed.contains(Key::Q) {
                PongFlow {
                    game_state: GameState::Menu,
                    score: Score { player_score: 0, ai_score: 0 },
                    ..self
                }
            } else {
                self
            },
            GameState::Scored { points, is_player } => if signals.pause_over {
                PongFlow { game_state: GameState::Playing, ..self }
            } else {
                self
            },
            GameState::GameOver { winner } => if pressed.contains(Key::Space) {
                PongFlow {
                    game_state: GameState::Menu,
                    score: Score { player_score: 0, ai_score: 0 },
                    ..self
                }
            } else {
                self
            },
        }
    }

    /// What the caller has to do after the keys and signals of a tick.
    pub open spec fn action_after_tick(self, input: WindowInputState) -> PongAction {
        let pressed = input.keys_just_pressed@;
        match self.game_state {
            GameState::DifficultySelect => if Self::starts(pressed) {
                PongAction::StartGame
            } else {
                PongAction::Nothing
            },
            GameState::Playing => PongAction::Dispatch,
            GameState::Paused => if !pressed.contains(Key::Escape) && pressed.contains(Key::Q) {
                PongAction::ResetGame
            } else {
                PongAction::Nothing
            },
            GameState::GameOver { winner } => if pressed.contains(Key::Space) {
                PongAction::ResetGame
            } else {
                PongAction::Nothing
            },
            _ => PongAction::Nothing,
        }
    }

    /// The flow after a dispatch while playing: the score is the world's; a
    /// side that has reached `MAX_SCORE` has won, the player first; else
    /// Escape pauses. A won match is paused by Escape all the same.
    pub open spec fn after_play(self, world_score: Score, input: WindowInputState) -> PongFlow {
        let judged = match world_score.leader(MAX_SCORE) {
            Some(winner) => GameState::GameOver { winner },
            None => self.game_state,
        };
        PongFlow {
            game_state: if input.keys_just_pressed@.contains(Key::Escape) {
                GameState::Paused
            } else {
                judged
            },
            score: world_score,
            ..self
        }
    }

    /// A game in the menu, nil all, at normal difficulty.
    pub fn new() -> (flow: PongFlow)
        ensures
            flow == (PongFlow {
                game_state: GameState::Menu,
                score: Score { player_score: 0, ai_score: 0 },
                difficulty: Difficulty::Normal,
            }),
    {
        PongFlow {
            game_state: GameState::Menu,
            score: Score { player_score: 0, ai_score: 0 },
            difficulty: Difficulty::Normal,
        }
    }

    /// Starts a match: playing, nil all.
    pub fn start_game(&mut self)
        ensures
            *final(self) == old(self).started(),
    {
        self.game_state = GameState::Playing;
        self.score = Score { player_score: 0, ai_score: 0 };
    }

    /// Sets the score back to nil.
    pub fn reset_game(&mut self)
        ensures
            *final(self) == (PongFlow { score: Score { player_score: 0, ai_score: 0 }, ..*old(self) }),
    {
        self.score = Score { player_score: 0, ai_score: 0 };
    }

    /// Takes the keys and signals of a tick and says what is to be done with
    /// the world. While playing the answer is `Dispatch`, and the state is
    /// left for `after_dispatch` to settle.
    pub fn update(&mut self, input: &WindowInputState, signals: TickSignals) -> (action: PongAction)
        ensures
            *final(self) == old(self).after_tick(*input, signals),
            action == old(self).action_after_tick(*input),
    {
        match self.game_state {
            GameState::Menu => {
                if input.is_key_just_pressed(Key::Space) {
                    self.game_state = GameState::DifficultySelect;
                }
                PongAction::Nothing
            },
            GameState::DifficultySelect => {
                let ghost before = *self;
                if input.is_key_just_pressed(Key::Down) {
                    self.difficulty = self.difficulty.next();
                } else if input.is_key_just_pressed(Key::Up) {
                    self.difficulty = self.difficulty.previous();
                }
                if input.is_key_just_pressed(Key::Key1) || input.is_key_just_pressed(Key::NumPad1) {
                    self.difficulty = Difficulty::Easy;
                    self.start_game();
                    PongAction::StartGame
                } else if input.is_key_just_pressed(Key::Key2) || input.is_key_just_pressed(
                    Key::NumPad2,
                ) {
                    self.difficulty = Difficulty::Normal;
                    self.start_game();
                    PongAction::StartGame
                } else if input.is_key_just_pressed(Key::Key3) || input.is_key_just_pressed(
                    Key::NumPad3,
                ) {
                    self.difficulty = Difficulty::Hard;
                    self.start_game();
                    PongAction::StartGame
                } else if input.is_key_just_pressed(Key::Enter) || input.is_key_just_pressed(
                    Key::Space,
                ) {
                    self.start_game();
                    PongAction::StartGame
                } else if input.is_key_just_pressed(Key::Escape) {
                    self.game_state = GameState::Menu;
                    PongAction::Nothing
                } else {
                    PongAction::Nothing
                }
            },
            GameState::Playing => PongAction::Dispatch,
            GameState::Paused => {
                if input.is_key_just_pressed(Key::Escape) {
                    self.game_state = GameState::Playing;
                    PongAction::Nothing
                } else if input.is_key_just_pressed(Key::Q) {
                    self.game_state = GameState::Menu;
                    self.reset_game();
                    PongAction::ResetGame
                } else {
                    PongAction::Nothing
                }
            },
            GameState::Scored { points, is_player } => {
                if signals.pause_over {
                    self.game_state = GameState::Playing;
                }
                PongAction::Nothing
            },
            GameState::GameOver { winner } => {
                if input.is_key_just_pressed(Key::Space) {
                    self.reset_game();
                    self.game_state = GameState::Menu;
                    PongAction::ResetGame
                } else {
                    PongAction::Nothing
                }
            },
        }
    }

    /// Settles a tick of play once the systems have run: takes over the
    /// score the world holds and judges the match.
    pub fn after_dispatch(&mut self, world_score: Score, input: &WindowInputState)
        requires
            old(self).game_state == GameState::Playing,
        ensures
            *final(self) == old(self).after_play(world_score, *input),
    {
        self.score = world_score;
        match world_score.winner(MAX_SCORE) {
            Some(winner) => {
                self.game_state = GameState::GameOver { winner };
            },
            None => {},
        }
        if input.is_key_just_pressed(Key::Escape) {
            self.game_state = GameState::Paused;
        }
    }
}

/// A match ends exactly when a side has reached `MAX_SCORE`, and the side
/// that is announced has that many points.
pub proof fn lemma_winner_has_max_score(flow: PongFlow, world_score: Score, input: WindowInputState)
    requires
        flow.game_state == GameState::Playing,
        !input.keys_just_pressed@.contains(Key::Escape),
    ensures
        flow.after_play(world_score, input).game_state is GameOver <==> (world_score.player_score
            >= MAX_SCORE || world_score.ai_score >= MAX_SCORE),
        forall|winner: Side|
            flow.after_play(world_score, input).game_state == (GameState::GameOver { winner })
                ==> world_score.of(winner) >= MAX_SCORE,
{
}

/// Going down and then up in the difficulty menu, or up and then down,
/// leaves the choice where it was; three steps one way come round.
pub proof fn lemma_difficulty_cycles(level: Difficulty)
    ensures
        level.spec_next().spec_previous() == level,
        level.spec_previous().spec_next() == level,
        level.spec_next().spec_next().spec_next() == level,
{
}

} // verus!
