use modular_game_engine::difficulty::DifficultyLevel::{
    Custom, Easy, Hard, Normal, VeryEasy, VeryHard,
};
use modular_game_engine::difficulty::{available_levels, next_level, previous_level};
use modular_game_engine::input_window::{
    key_at, Key, KeySet, WindowGameController, WindowInputMapper, WindowInputState, KEY_COUNT,
};

fn held(keys: &[Key]) -> WindowInputState {
    let mut state = WindowInputState::default();
    state.keys_pressed = KeySet::from_keys(&keys.to_vec());
    state
}

#[test]
fn keys_are_found_by_their_number() {
    for code in 0..KEY_COUNT {
        assert_eq!(key_at(code).index() as usize, code);
    }
}

#[test]
fn the_usual_keys_are_mapped() {
    let mut mapper = WindowInputMapper::new();
    assert!(!mapper.is_action_active("move_up"));
    assert!(mapper.get_active_actions().is_empty());
    mapper.update(&held(&[Key::W, Key::Space, Key::Up, Key::Q]));
    assert!(mapper.is_action_active("move_up"));
    assert!(mapper.is_action_active("action"));
    assert!(!mapper.is_action_active("move_down"));
    assert!(!mapper.is_action_active("pause"));
    assert!(!mapper.is_action_active("quit"));
    assert_eq!(mapper.get_active_actions(), vec!["move_up".to_string(), "action".to_string()]);
    mapper.update(&held(&[Key::Escape, Key::Enter, Key::A, Key::S, Key::D]));
    assert!(!mapper.is_action_active("move_up"));
    assert_eq!(
        mapper.get_active_actions(),
        vec!["move_left", "move_down", "move_right", "pause", "confirm"]
    );
}

#[test]
fn keys_can_be_mapped_anew() {
    let mut mapper = WindowInputMapper::new();
    mapper.map_key(Key::Up, "move_up".to_string());
    mapper.map_key(Key::Q, "quit".to_string());
    mapper.unmap_key(Key::Space);
    mapper.update(&held(&[Key::W, Key::Q, Key::Space]));
    assert!(!mapper.is_action_active("move_up"));
    assert!(mapper.is_action_active("quit"));
    assert!(!mapper.is_action_active("action"));
    mapper.update(&held(&[Key::Up]));
    assert!(mapper.is_action_active("move_up"));
    assert!(!mapper.is_action_active("quit"));
    mapper.unmap_key(Key::Q);
    mapper.update(&held(&[Key::Q, Key::W]));
    assert!(!mapper.is_action_active("quit"));
    assert!(!mapper.is_action_active("move_up"));
    mapper.map_key(Key::Q, "quit".to_string());
    mapper.update(&held(&[Key::Q]));
    mapper.unmap_key(Key::Q);
    mapper.update(&held(&[]));
    assert!(mapper.is_action_active("quit"));
}

#[test]
fn the_controller_moves_along_two_axes() {
    let mut controller = WindowGameController::new();
    assert_eq!(controller.get_movement_vector(), (0, 0));
    controller.update(&held(&[Key::A, Key::W]));
    assert_eq!(controller.get_movement_vector(), (-1, -1));
    controller.update(&held(&[Key::D, Key::S, Key::Space]));
    assert_eq!(controller.get_movement_vector(), (1, 1));
    assert!(controller.is_action_pressed());
    assert!(!controller.is_pause_pressed());
    controller.update(&held(&[Key::A, Key::D, Key::S, Key::Escape, Key::Enter]));
    assert_eq!(controller.get_movement_vector(), (0, 1));
    assert!(controller.is_pause_pressed());
    assert!(controller.is_confirm_pressed());
    assert!(!controller.is_action_pressed());
    controller.input_mapper().map_key(Key::R, "action".to_string());
    controller.update(&held(&[Key::R]));
    assert!(controller.is_action_pressed());
    controller.update(&held(&[Key::Space]));
    assert!(!controller.is_action_pressed());
}

#[test]
fn levels_are_offered_in_order_of_rank() {
    assert!(available_levels(&vec![], false).is_empty());
    assert_eq!(available_levels(&vec![], true), vec![Custom]);
    assert_eq!(
        available_levels(&vec![Hard, VeryEasy, Normal, VeryHard, Easy], false),
        vec![VeryEasy, Easy, Normal, Hard, VeryHard]
    );
    assert_eq!(available_levels(&vec![Hard, Easy], true), vec![Easy, Hard, Custom]);
    assert_eq!(available_levels(&vec![Custom, Easy], false), vec![Easy, Custom]);
    assert_eq!(available_levels(&vec![Custom, Easy], true), vec![Easy, Custom, Custom]);
}

#[test]
fn stepping_from_easy_to_normal_and_back_by_list() {
    let levels = available_levels(&vec![VeryEasy, Easy, Normal, Hard, VeryHard], false);
    let current = Easy;
    let current = next_level(&levels, current);
    assert_eq!(current, Normal);
    let current = previous_level(&levels, current);
    assert_eq!(current, Easy);
}

#[test]
fn stepping_through_the_levels_goes_round() {
    let levels = vec![Easy, Normal, Hard];
    assert_eq!(next_level(&levels, Hard), Easy);
    assert_eq!(previous_level(&levels, Easy), Hard);
    assert_eq!(previous_level(&levels, Hard), Normal);
    assert_eq!(next_level(&levels, Custom), Normal);
    assert_eq!(previous_level(&levels, Custom), Hard);
    assert_eq!(next_level(&vec![Normal], Normal), Normal);
    assert_eq!(previous_level(&vec![Normal], Normal), Normal);
}
