use modular_game_engine::game_state::{
    GameOverState, MenuState, PauseState, StateError, StateManager, StateTransition,
};
use modular_game_engine::input_window::{Key, KeySet, WindowInputState};

fn pressed(keys: &[Key]) -> WindowInputState {
    let mut state = WindowInputState::default();
    state.keys_just_pressed = KeySet::from_keys(&keys.to_vec());
    state
}

#[test]
fn the_menu_starts_at_its_first_option() {
    let menu = MenuState::new();
    assert_eq!(menu.selected_option(), 0);
    assert_eq!(menu.id(), "menu");
}

#[test]
fn the_menu_selection_stops_at_both_ends() {
    let mut menu = MenuState::new();
    assert!(menu.handle_input(&pressed(&[Key::Up])).is_none());
    assert_eq!(menu.selected_option(), 0);
    menu.handle_input(&pressed(&[Key::S]));
    assert_eq!(menu.selected_option(), 1);
    menu.handle_input(&pressed(&[Key::Down]));
    assert_eq!(menu.selected_option(), 2);
    menu.handle_input(&pressed(&[Key::Down]));
    assert_eq!(menu.selected_option(), 2);
    menu.handle_input(&pressed(&[Key::W]));
    assert_eq!(menu.selected_option(), 1);
    menu.handle_input(&pressed(&[Key::W, Key::S]));
    assert_eq!(menu.selected_option(), 1);
    menu.handle_input(&pressed(&[]));
    assert_eq!(menu.selected_option(), 1);
}

#[test]
fn confirming_asks_for_what_is_selected() {
    let mut menu = MenuState::new();
    assert!(matches!(
        menu.handle_input(&pressed(&[Key::Space])),
        Some(StateTransition::Switch(id)) if id == "gameplay"
    ));
    assert!(matches!(
        menu.handle_input(&pressed(&[Key::Down, Key::Enter])),
        Some(StateTransition::Push(id)) if id == "options"
    ));
    assert!(matches!(
        menu.handle_input(&pressed(&[Key::Down, Key::Enter])),
        Some(StateTransition::Quit)
    ));
    let mut held_only = WindowInputState::default();
    held_only.keys_pressed = KeySet::from_keys(&vec![Key::Enter]);
    assert!(menu.handle_input(&held_only).is_none());
}

#[test]
fn escape_resumes_from_pause() {
    let mut pause = PauseState::new();
    assert_eq!(pause.id(), "pause");
    assert!(matches!(pause.handle_input(&pressed(&[Key::Escape])), Some(StateTransition::Pop)));
    assert!(pause.handle_input(&pressed(&[Key::Space])).is_none());
}

#[test]
fn game_over_goes_back_to_the_menu() {
    let mut over = GameOverState::new(42);
    assert_eq!(over.final_score(), 42);
    assert_eq!(over.id(), "game_over");
    assert!(matches!(
        over.handle_input(&pressed(&[Key::Enter])),
        Some(StateTransition::Switch(id)) if id == "menu"
    ));
    assert!(over.handle_input(&pressed(&[Key::Escape])).is_none());
    assert_eq!(over.final_score(), 42);
}

#[test]
fn only_registered_states_can_be_entered() {
    let mut manager = StateManager::new(800, 600);
    assert_eq!(manager.window_size(), (800, 600));
    assert_eq!(manager.stack_depth(), 0);
    assert_eq!(manager.current_state(), None);
    assert_eq!(manager.switch_to("menu".to_string()).unwrap_err(), StateError::NotFound);
    assert_eq!(manager.push_state("menu".to_string()).unwrap_err(), StateError::NotFound);
    manager.register_state("menu".to_string());
    manager.register_state("menu".to_string());
    assert!(manager.is_registered(&"menu".to_string()));
    assert!(!manager.is_registered(&"pause".to_string()));
    let change = manager.switch_to("menu".to_string()).unwrap();
    assert_eq!(change.exited, None);
    assert_eq!(change.entered, Some("menu".to_string()));
    assert_eq!(manager.stack_depth(), 1);
    assert!(manager.is_state_active(&"menu".to_string()));
}

#[test]
fn push_and_pop_go_up_and_down_the_stack() {
    let mut manager = StateManager::new(1, 1);
    for id in ["menu", "gameplay", "pause"] {
        manager.register_state(id.to_string());
    }
    manager.switch_to("gameplay".to_string()).unwrap();
    assert_eq!(manager.pop_state().unwrap_err(), StateError::LastState);
    let change = manager.push_state("pause".to_string()).unwrap();
    assert_eq!(change.exited, None);
    assert_eq!(change.entered, Some("pause".to_string()));
    assert_eq!(manager.stack_depth(), 2);
    assert_eq!(manager.current_state(), Some(&"pause".to_string()));
    assert!(!manager.is_state_active(&"gameplay".to_string()));
    let change = manager.pop_state().unwrap();
    assert_eq!(change.exited, Some("pause".to_string()));
    assert_eq!(change.entered, None);
    assert!(manager.is_state_active(&"gameplay".to_string()));
    manager.push_state("pause".to_string()).unwrap();
    let change = manager.switch_to("menu".to_string()).unwrap();
    assert_eq!(change.exited, Some("pause".to_string()));
    assert_eq!(manager.stack_depth(), 1);
    assert_eq!(manager.current_state(), Some(&"menu".to_string()));
}

#[test]
fn popping_an_empty_stack_is_refused() {
    let mut manager = StateManager::new(1, 1);
    assert_eq!(manager.pop_state().unwrap_err(), StateError::LastState);
    assert_eq!(manager.stack_depth(), 0);
}
