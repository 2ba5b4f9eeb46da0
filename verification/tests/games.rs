use modular_game_engine::breakout::{
    brick_for_row, create_bricks, BreakoutAction, BreakoutGameState, BreakoutProgress,
    TickFindings, BRICK_COLS, BRICK_ROWS,
};
use modular_game_engine::components::{Brick, Score, Side};
use modular_game_engine::ecs::{
    brick_entities, count_bricks, create_entity, get_brick, init, is_alive,
};
use modular_game_engine::input_window::{Key, KeySet, WindowInputState};
use modular_game_engine::pong::{
    side_name, Difficulty, GameState, PongAction, PongFlow, TickSignals, MAX_SCORE,
};

fn pressed(keys: &[Key]) -> WindowInputState {
    let mut state = WindowInputState::default();
    state.keys_just_pressed = KeySet::from_keys(&keys.to_vec());
    state
}

fn found(menu_item_selected: bool, bricks_remaining: usize, active_balls: usize) -> TickFindings {
    TickFindings { menu_item_selected, bricks_remaining, active_balls }
}

#[test]
fn rows_take_one_two_or_three_hits() {
    assert_eq!(brick_for_row(0), Brick { hits_required: 1, points: 60 });
    assert_eq!(brick_for_row(1), Brick { hits_required: 1, points: 50 });
    assert_eq!(brick_for_row(2), Brick { hits_required: 2, points: 40 });
    assert_eq!(brick_for_row(3), Brick { hits_required: 2, points: 30 });
    assert_eq!(brick_for_row(4), Brick { hits_required: 3, points: 20 });
    assert_eq!(brick_for_row(5), Brick { hits_required: 3, points: 10 });
}

#[test]
fn the_wall_has_a_brick_for_each_place() {
    let mut world = init();
    let paddle = create_entity(&mut world);
    let wall = create_bricks(&mut world);
    assert_eq!(wall.len(), BRICK_ROWS * BRICK_COLS);
    assert_eq!(count_bricks(&world), 78);
    assert_eq!(brick_entities(&world), wall);
    for (place, e) in wall.iter().enumerate() {
        assert!(is_alive(&world, *e));
        assert_eq!(get_brick(&world, *e), Some(brick_for_row(place / BRICK_COLS)));
    }
    assert!(is_alive(&world, paddle));
    assert_eq!(get_brick(&world, paddle), None);
}

#[test]
fn a_lost_ball_costs_a_life_and_the_last_life_the_game() {
    let mut progress = BreakoutProgress::new();
    assert_eq!(progress.game_state, BreakoutGameState::Menu);
    assert_eq!((progress.level, progress.lives), (1, 3));
    assert_eq!(progress.update(found(false, 78, 1)), BreakoutAction::Nothing);
    assert_eq!(progress.game_state, BreakoutGameState::Menu);
    assert_eq!(progress.update(found(true, 78, 1)), BreakoutAction::Nothing);
    assert_eq!(progress.game_state, BreakoutGameState::Playing);
    assert_eq!(progress.update(found(false, 78, 1)), BreakoutAction::Nothing);
    assert_eq!(progress.bricks_remaining, 78);
    assert_eq!(progress.update(found(false, 77, 0)), BreakoutAction::ResetBall);
    assert_eq!(progress.lives, 2);
    assert_eq!(progress.update(found(false, 77, 0)), BreakoutAction::ResetBall);
    assert_eq!(progress.update(found(false, 77, 0)), BreakoutAction::Nothing);
    assert_eq!(progress.lives, 0);
    assert_eq!(progress.game_state, BreakoutGameState::GameOver { won: false });
    assert_eq!(progress.update(found(true, 0, 0)), BreakoutAction::Nothing);
    assert_eq!(progress.game_state, BreakoutGameState::GameOver { won: false });
}

#[test]
fn a_cleared_wall_leads_to_the_next_level() {
    let mut progress = BreakoutProgress::new();
    progress.game_state = BreakoutGameState::Playing;
    assert_eq!(progress.update(found(false, 0, 1)), BreakoutAction::Nothing);
    assert_eq!(progress.game_state, BreakoutGameState::LevelComplete);
    assert_eq!(progress.update(found(false, 0, 1)), BreakoutAction::BuildLevel);
    assert_eq!(progress.game_state, BreakoutGameState::Playing);
    assert_eq!(progress.level, 2);
    assert_eq!(progress.lives, 3);
}

#[test]
fn keys_of_the_brick_game() {
    let mut progress = BreakoutProgress::new();
    assert_eq!(progress.handle_input(&pressed(&[Key::Escape])), BreakoutAction::Nothing);
    assert_eq!(progress.game_state, BreakoutGameState::Menu);
    assert_eq!(progress.handle_input(&pressed(&[Key::Space])), BreakoutAction::Nothing);
    assert_eq!(progress.game_state, BreakoutGameState::Playing);
    assert_eq!(progress.handle_input(&pressed(&[Key::Space])), BreakoutAction::LaunchBall);
    assert_eq!(progress.handle_input(&pressed(&[Key::Escape])), BreakoutAction::Nothing);
    assert_eq!(progress.game_state, BreakoutGameState::Paused);
    assert_eq!(progress.handle_input(&pressed(&[Key::Space])), BreakoutAction::Nothing);
    assert_eq!(progress.handle_input(&pressed(&[Key::Escape])), BreakoutAction::Nothing);
    assert_eq!(progress.game_state, BreakoutGameState::Playing);
    progress.game_state = BreakoutGameState::GameOver { won: false };
    progress.lives = 0;
    progress.level = 4;
    assert_eq!(progress.handle_input(&pressed(&[Key::Space])), BreakoutAction::Nothing);
    assert_eq!(progress.handle_input(&pressed(&[Key::R])), BreakoutAction::BuildLevel);
    assert_eq!(progress.game_state, BreakoutGameState::Playing);
    assert_eq!((progress.level, progress.lives), (1, 3));
    progress.game_state = BreakoutGameState::LevelComplete;
    assert_eq!(progress.handle_input(&pressed(&[Key::Space])), BreakoutAction::Nothing);
    assert_eq!(progress.game_state, BreakoutGameState::Playing);
}

#[test]
fn difficulty_goes_round() {
    assert_eq!(Difficulty::Easy.next(), Difficulty::Normal);
    assert_eq!(Difficulty::Normal.next(), Difficulty::Hard);
    assert_eq!(Difficulty::Hard.next(), Difficulty::Easy);
    assert_eq!(Difficulty::Easy.previous(), Difficulty::Hard);
    assert_eq!(Difficulty::Normal.previous(), Difficulty::Easy);
    assert_eq!(Difficulty::Hard.previous(), Difficulty::Normal);
}

#[test]
fn from_the_menu_to_a_match() {
    let quiet = TickSignals { pause_over: false };
    let mut flow = PongFlow::new();
    assert_eq!(flow.game_state, GameState::Menu);
    assert_eq!(flow.difficulty, Difficulty::Normal);
    assert_eq!(flow.update(&pressed(&[Key::Enter]), quiet), PongAction::Nothing);
    assert_eq!(flow.game_state, GameState::Menu);
    assert_eq!(flow.update(&pressed(&[Key::Space]), quiet), PongAction::Nothing);
    assert_eq!(flow.game_state, GameState::DifficultySelect);
    assert_eq!(flow.update(&pressed(&[Key::Down]), quiet), PongAction::Nothing);
    assert_eq!(flow.difficulty, Difficulty::Hard);
    assert_eq!(flow.update(&pressed(&[Key::Up, Key::Down]), quiet), PongAction::Nothing);
    assert_eq!(flow.difficulty, Difficulty::Easy);
    assert_eq!(flow.update(&pressed(&[Key::Escape]), quiet), PongAction::Nothing);
    assert_eq!(flow.game_state, GameState::Menu);
    flow.update(&pressed(&[Key::Space]), quiet);
    flow.score = Score { player_score: 3, ai_score: 1 };
    assert_eq!(flow.update(&pressed(&[Key::Up, Key::Enter]), quiet), PongAction::StartGame);
    assert_eq!(flow.difficulty, Difficulty::Hard);
    assert_eq!(flow.game_state, GameState::Playing);
    assert_eq!(flow.score, Score::default());
}

#[test]
fn a_number_key_chooses_and_starts() {
    let quiet = TickSignals { pause_over: false };
    for (key, level) in [
        (Key::Key1, Difficulty::Easy),
        (Key::NumPad2, Difficulty::Normal),
        (Key::Key3, Difficulty::Hard),
    ] {
        let mut flow = PongFlow::new();
        flow.game_state = GameState::DifficultySelect;
        assert_eq!(flow.update(&pressed(&[key, Key::Down, Key::Escape]), quiet), PongAction::StartGame);
        assert_eq!(flow.difficulty, level);
        assert_eq!(flow.game_state, GameState::Playing);
    }
}

#[test]
fn a_match_is_won_at_five_points() {
    let quiet = TickSignals { pause_over: false };
    let mut flow = PongFlow::new();
    flow.start_game();
    assert_eq!(flow.update(&pressed(&[Key::Escape]), quiet), PongAction::Dispatch);
    assert_eq!(flow.game_state, GameState::Playing);
    flow.after_dispatch(Score { player_score: 4, ai_score: 4 }, &pressed(&[]));
    assert_eq!(flow.game_state, GameState::Playing);
    assert_eq!(flow.score, Score { player_score: 4, ai_score: 4 });
    flow.after_dispatch(Score { player_score: 4, ai_score: MAX_SCORE }, &pressed(&[]));
    assert_eq!(flow.game_state, GameState::GameOver { winner: Side::Ai });
    assert_eq!(flow.update(&pressed(&[Key::Enter]), quiet), PongAction::Nothing);
    assert_eq!(flow.update(&pressed(&[Key::Space]), quiet), PongAction::ResetGame);
    assert_eq!(flow.game_state, GameState::Menu);
    assert_eq!(flow.score, Score::default());
    let mut flow = PongFlow::new();
    flow.start_game();
    flow.after_dispatch(Score { player_score: 5, ai_score: 5 }, &pressed(&[]));
    assert_eq!(flow.game_state, GameState::GameOver { winner: Side::Player });
    assert_eq!(side_name(Side::Player), "Player");
    assert_eq!(side_name(Side::Ai), "AI");
}

#[test]
fn pause_and_the_pause_after_a_point() {
    let quiet = TickSignals { pause_over: false };
    let mut flow = PongFlow::new();
    flow.start_game();
    flow.after_dispatch(Score { player_score: 1, ai_score: 0 }, &pressed(&[Key::Escape]));
    assert_eq!(flow.game_state, GameState::Paused);
    assert_eq!(flow.update(&pressed(&[Key::Escape, Key::Q]), quiet), PongAction::Nothing);
    assert_eq!(flow.game_state, GameState::Playing);
    flow.game_state = GameState::Paused;
    assert_eq!(flow.update(&pressed(&[Key::Q]), quiet), PongAction::ResetGame);
    assert_eq!(flow.game_state, GameState::Menu);
    assert_eq!(flow.score, Score::default());
    flow.game_state = GameState::Scored { points: 1, is_player: true };
    assert_eq!(flow.update(&pressed(&[Key::Space]), quiet), PongAction::Nothing);
    assert_eq!(flow.game_state, GameState::Scored { points: 1, is_player: true });
    assert_eq!(flow.update(&pressed(&[]), TickSignals { pause_over: true }), PongAction::Nothing);
    assert_eq!(flow.game_state, GameState::Playing);
}
