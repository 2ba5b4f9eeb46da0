use modular_game_engine::input::InputMapping;
use modular_game_engine::input_window::{
    Key, KeySet, MouseButton, MouseButtons, WindowInputManager, WindowInputState,
};

const ALL_KEYS: [Key; 25] = [
    Key::W, Key::A, Key::S, Key::D, Key::Space, Key::Escape, Key::Enter, Key::Q, Key::Up,
    Key::Down, Key::Left, Key::Right, Key::Key1, Key::Key2, Key::Key3, Key::NumPad1,
    Key::NumPad2, Key::NumPad3, Key::R, Key::Key4, Key::Key5, Key::Key6, Key::Key7, Key::Key8,
    Key::Key9,
];

#[test]
fn every_key_has_its_own_number() {
    for (i, key) in ALL_KEYS.iter().enumerate() {
        assert_eq!(key.index() as usize, i);
    }
}

#[test]
fn a_key_set_holds_what_was_put_in() {
    let mut keys = KeySet::new();
    for key in ALL_KEYS {
        assert!(!keys.contains(key));
    }
    keys.insert(Key::Space);
    keys.insert(Key::R);
    keys.insert(Key::Space);
    for key in ALL_KEYS {
        assert_eq!(keys.contains(key), key == Key::Space || key == Key::R);
    }
    assert_eq!(keys, KeySet::from_keys(&vec![Key::R, Key::Space]));
    assert_eq!(KeySet::from_keys(&vec![]), KeySet::new());
}

#[test]
fn difference_keeps_what_the_other_lacks() {
    let a = KeySet::from_keys(&vec![Key::W, Key::S, Key::Up]);
    let b = KeySet::from_keys(&vec![Key::S, Key::Down]);
    assert_eq!(a.difference(&b), KeySet::from_keys(&vec![Key::W, Key::Up]));
    assert_eq!(b.difference(&a), KeySet::from_keys(&vec![Key::Down]));
    assert_eq!(a.difference(&a), KeySet::new());
}

#[test]
fn the_default_snapshot_is_empty_and_focused() {
    let state = WindowInputState::default();
    assert_eq!(state.keys_pressed, KeySet::new());
    assert_eq!(state.keys_just_pressed, KeySet::new());
    assert_eq!(state.keys_just_released, KeySet::new());
    assert_eq!(state.mouse_pos(), (0, 0));
    assert_eq!(state.mouse_delta(), (0, 0));
    assert!(state.window_focused);
    assert_eq!(state.window_resized, None);
    assert!(!state.is_mouse_button_pressed(MouseButton::Left));
}

#[test]
fn edges_are_found_from_one_tick_to_the_next() {
    let mut manager = WindowInputManager::new();
    manager.update(KeySet::from_keys(&vec![Key::W, Key::Space]));
    let state = *manager.state();
    assert!(state.is_key_pressed(Key::W));
    assert!(state.is_key_just_pressed(Key::W));
    assert!(state.is_key_just_pressed(Key::Space));
    assert!(!state.is_key_just_released(Key::W));
    manager.update(KeySet::from_keys(&vec![Key::W, Key::S]));
    let state = *manager.state();
    assert!(state.is_key_pressed(Key::W));
    assert!(!state.is_key_just_pressed(Key::W));
    assert!(state.is_key_just_pressed(Key::S));
    assert!(state.is_key_just_released(Key::Space));
    assert!(!state.is_key_pressed(Key::Space));
    manager.update(KeySet::new());
    let state = *manager.state();
    assert_eq!(state.keys_pressed, KeySet::new());
    assert_eq!(state.keys_just_pressed, KeySet::new());
    assert_eq!(state.keys_just_released, KeySet::from_keys(&vec![Key::W, Key::S]));
}

#[test]
fn the_pointer_s_movement_is_measured_between_ticks() {
    let mut manager = WindowInputManager::new();
    manager.set_mouse((10, -4), MouseButtons { left: true, right: false, middle: false });
    manager.update(KeySet::new());
    assert_eq!(manager.state().mouse_delta(), (10, -4));
    assert!(manager.state().is_mouse_button_pressed(MouseButton::Left));
    assert!(!manager.state().is_mouse_button_pressed(MouseButton::Middle));
    manager.update(KeySet::new());
    assert_eq!(manager.state().mouse_delta(), (0, 0));
    manager.set_mouse((7, 7), MouseButtons { left: false, right: true, middle: true });
    manager.update(KeySet::new());
    assert_eq!(manager.state().mouse_delta(), (-3, 11));
    assert_eq!(manager.state().mouse_pos(), (7, 7));
}

#[test]
fn a_resize_lasts_one_tick() {
    let mut manager = WindowInputManager::new();
    manager.handle_resize(640, 480);
    assert_eq!(manager.state().window_resized, Some((640, 480)));
    manager.update(KeySet::new());
    assert_eq!(manager.state().window_resized, None);
}

#[test]
fn escape_or_q_asks_to_quit() {
    let mut manager = WindowInputManager::new();
    assert!(!manager.should_quit());
    manager.update(KeySet::from_keys(&vec![Key::Q]));
    assert!(manager.should_quit());
    manager.update(KeySet::from_keys(&vec![Key::Escape, Key::W]));
    assert!(manager.should_quit());
    manager.update(KeySet::from_keys(&vec![Key::W]));
    assert!(!manager.should_quit());
}

#[test]
fn clearing_the_frame_state_keeps_what_is_held() {
    let mut manager = WindowInputManager::new();
    manager.update(KeySet::from_keys(&vec![Key::A]));
    let mut state = *manager.state();
    state.clear_frame_state();
    assert!(state.is_key_pressed(Key::A));
    assert!(!state.is_key_just_pressed(Key::A));
}

#[test]
fn an_action_is_mapped_once() {
    let mut mapping = InputMapping::new();
    assert!(!mapping.contains("jump"));
    assert!(mapping.insert("jump"));
    assert!(mapping.insert("fire"));
    assert!(!mapping.insert("jump"));
    assert!(mapping.contains("jump"));
    assert!(mapping.contains("fire"));
    assert!(!mapping.contains(""));
    assert_eq!(mapping.actions, vec!["jump".to_string(), "fire".to_string()]);
}

#[test]
fn the_snapshot_can_be_changed_in_place() {
    let mut manager = WindowInputManager::new();
    manager.state_mut().window_focused = false;
    manager.state_mut().mouse_position = (3, 4);
    assert!(!manager.state().window_focused);
    assert_eq!(manager.state().mouse_position, (3, 4));
}
