use modular_game_engine::input_window::{Key, KeySet, WindowInputState};
use modular_game_engine::menu::{number_key, MenuSelection};

fn menu(selectable: &[bool], selected_index: usize) -> MenuSelection {
    MenuSelection { selectable: selectable.to_vec(), selected_index, navigation_enabled: true }
}

fn pressed(keys: &[Key]) -> WindowInputState {
    let mut state = WindowInputState::default();
    state.keys_just_pressed = KeySet::from_keys(&keys.to_vec());
    state
}

#[test]
fn a_new_selection_is_empty() {
    let selection = MenuSelection::new();
    assert!(selection.selectable.is_empty());
    assert_eq!(selection.selected_index, 0);
    assert!(selection.navigation_enabled);
    assert!(!selection.has_selection());
}

#[test]
fn next_skips_what_cannot_be_selected_and_goes_round() {
    let mut m = menu(&[true, false, true, false, false], 0);
    m.select_next();
    assert_eq!(m.selected_index, 2);
    m.select_next();
    assert_eq!(m.selected_index, 0);
    let mut m = menu(&[false, true, true], 1);
    m.select_next();
    assert_eq!(m.selected_index, 2);
    m.select_next();
    assert_eq!(m.selected_index, 1);
}

#[test]
fn previous_skips_what_cannot_be_selected_and_goes_round() {
    let mut m = menu(&[true, false, true, false, false], 0);
    m.select_previous();
    assert_eq!(m.selected_index, 2);
    m.select_previous();
    assert_eq!(m.selected_index, 0);
    let mut m = menu(&[true, true, true], 0);
    m.select_previous();
    assert_eq!(m.selected_index, 2);
    m.select_previous();
    assert_eq!(m.selected_index, 1);
}

#[test]
fn the_selection_stays_where_there_is_no_other() {
    for selectable in [vec![true], vec![false], vec![false, true, false], vec![false, false]] {
        for start in 0..selectable.len() {
            let only = selectable.iter().filter(|s| **s).count() <= 1
                && (selectable[start] || !selectable.contains(&true));
            let mut m = menu(&selectable, start);
            m.select_next();
            if only {
                assert_eq!(m.selected_index, start);
            }
            let mut m = menu(&selectable, start);
            m.select_previous();
            if only {
                assert_eq!(m.selected_index, start);
            }
        }
    }
    let mut m = menu(&[false, true, false], 0);
    m.select_next();
    assert_eq!(m.selected_index, 1);
    let mut m = menu(&[false, true, false], 2);
    m.select_previous();
    assert_eq!(m.selected_index, 1);
}

#[test]
fn nothing_moves_without_navigation_or_items() {
    let mut m = menu(&[true, true], 0);
    m.navigation_enabled = false;
    m.select_next();
    m.select_previous();
    assert_eq!(m.selected_index, 0);
    assert!(!m.handle_input(&pressed(&[Key::Down, Key::Enter, Key::Key2])));
    assert_eq!(m.selected_index, 0);
    let mut empty = menu(&[], 3);
    empty.select_next();
    empty.select_previous();
    assert_eq!(empty.selected_index, 3);
}

#[test]
fn an_index_is_selected_where_it_can_be() {
    let mut m = menu(&[true, false, true], 0);
    m.select_index(2);
    assert_eq!(m.selected_index, 2);
    m.select_index(1);
    assert_eq!(m.selected_index, 2);
    m.select_index(3);
    assert_eq!(m.selected_index, 2);
    assert!(m.has_selection());
}

#[test]
fn clamping_finds_the_first_selectable_item() {
    let mut m = menu(&[false, true, true], 0);
    m.clamp_selection();
    assert_eq!(m.selected_index, 1);
    let mut m = menu(&[false, true, true], 2);
    m.clamp_selection();
    assert_eq!(m.selected_index, 2);
    let mut m = menu(&[false, false, true], 7);
    m.clamp_selection();
    assert_eq!(m.selected_index, 2);
    let mut m = menu(&[false, false], 7);
    m.clamp_selection();
    assert_eq!(m.selected_index, 7);
    let mut m = menu(&[], 7);
    m.clamp_selection();
    assert_eq!(m.selected_index, 0);
}

#[test]
fn keys_move_select_and_activate() {
    let mut m = menu(&[true, true, false, true], 0);
    assert!(!m.handle_input(&pressed(&[Key::Down])));
    assert_eq!(m.selected_index, 1);
    assert!(!m.handle_input(&pressed(&[Key::Down, Key::Up])));
    assert_eq!(m.selected_index, 3);
    assert!(m.handle_input(&pressed(&[Key::Up, Key::Space])));
    assert_eq!(m.selected_index, 1);
    assert!(m.handle_input(&pressed(&[Key::Enter])));
    assert_eq!(m.selected_index, 1);
    assert!(!m.handle_input(&pressed(&[Key::Key4])));
    assert_eq!(m.selected_index, 3);
    assert!(!m.handle_input(&pressed(&[Key::Key3, Key::Key1])));
    assert_eq!(m.selected_index, 0);
    assert!(!m.handle_input(&pressed(&[Key::Key3, Key::Key4])));
    assert_eq!(m.selected_index, 0);
    assert!(!m.handle_input(&pressed(&[Key::Key9, Key::Down])));
    assert_eq!(m.selected_index, 1);
    assert!(!m.handle_input(&pressed(&[Key::NumPad1])));
    assert_eq!(m.selected_index, 1);
}

#[test]
fn number_keys_are_numbered_from_one() {
    assert_eq!(number_key(0), Key::Key1);
    assert_eq!(number_key(2), Key::Key3);
    assert_eq!(number_key(3), Key::Key4);
    assert_eq!(number_key(8), Key::Key9);
}
