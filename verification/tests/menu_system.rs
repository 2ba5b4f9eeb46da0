use modular_game_engine::input_window::{Key, KeySet, WindowInputState};
use modular_game_engine::menu::menu_items::{button, label, selector, slider, spacer, toggle};
use modular_game_engine::menu::{
    MenuAction, MenuConfig, MenuItem, MenuItemType, MenuSetting, MenuSystem,
};
use modular_game_engine::num::{Fixed, Scalar};
use modular_game_engine::physics::Vector;

/// Single precision as a number of the library.
#[derive(Debug, Clone, Copy, PartialEq)]
struct Real(f32);

impl Scalar for Real {
    fn finite(self) -> bool {
        self.0.is_finite()
    }
    fn sum(self, rhs: Real) -> Real {
        Real(self.0 + rhs.0)
    }
    fn difference(self, rhs: Real) -> Real {
        Real(self.0 - rhs.0)
    }
    fn product(self, rhs: Real) -> Real {
        Real(self.0 * rhs.0)
    }
    fn quotient(self, rhs: Real) -> Real {
        Real(self.0 / rhs.0)
    }
    fn negated(self) -> Real {
        Real(-self.0)
    }
    fn root(self) -> Real {
        Real(self.0.sqrt())
    }
    fn below(self, rhs: Real) -> bool {
        self.0 < rhs.0
    }
    fn within(self, rhs: Real) -> bool {
        self.0 <= rhs.0
    }
    fn larger(self, rhs: Real) -> Real {
        Real(self.0.max(rhs.0))
    }
    fn smaller(self, rhs: Real) -> Real {
        Real(self.0.min(rhs.0))
    }
    fn ratio(num: i32, den: i32) -> Real {
        Real(num as f32 / den as f32)
    }
    fn whole(self) -> usize {
        self.0 as usize
    }
    fn fraction(self) -> Real {
        Real(self.0.fract())
    }
    fn sine(self) -> Real {
        Real(self.0.sin())
    }
    fn cosine(self) -> Real {
        Real(self.0.cos())
    }
    fn is_finite(self) -> bool {
        self.finite()
    }
    fn plus(self, rhs: Real) -> Real {
        self.sum(rhs)
    }
    fn minus(self, rhs: Real) -> Real {
        self.difference(rhs)
    }
    fn times(self, rhs: Real) -> Real {
        self.product(rhs)
    }
    fn over(self, rhs: Real) -> Real {
        self.quotient(rhs)
    }
    fn neg(self) -> Real {
        self.negated()
    }
    fn sqrt(self) -> Real {
        self.root()
    }
    fn less_than(self, rhs: Real) -> bool {
        self.below(rhs)
    }
    fn at_most(self, rhs: Real) -> bool {
        self.within(rhs)
    }
    fn max_of(self, rhs: Real) -> Real {
        self.larger(rhs)
    }
    fn min_of(self, rhs: Real) -> Real {
        self.smaller(rhs)
    }
    fn from_ratio(num: i32, den: i32) -> Real {
        Real::ratio(num, den)
    }
    fn to_whole(self) -> usize {
        self.whole()
    }
    fn fract(self) -> Real {
        self.fraction()
    }
    fn sin(self) -> Real {
        self.sine()
    }
    fn cos(self) -> Real {
        self.cosine()
    }
}

fn units(n: i64) -> Fixed {
    Fixed { raw: n * 1_000_000 }
}

fn just_pressed(keys: &[Key]) -> WindowInputState {
    let mut state = WindowInputState::default();
    state.keys_just_pressed = KeySet::from_keys(&keys.to_vec());
    state
}

#[test]
fn test_menu_creation() {
    let menu = MenuSystem::<Real>::create_main_menu();
    assert_eq!(menu.items.len(), 3);
    assert_eq!(menu.config.title, "MAIN MENU");
}

#[test]
fn test_menu_navigation() {
    let mut menu = MenuSystem::<Real>::create_main_menu();

    let initial_selection = menu.selected_index;
    menu.select_next();
    assert_ne!(menu.selected_index, initial_selection);

    menu.select_previous();
    assert_eq!(menu.selected_index, initial_selection);
}

#[test]
fn test_menu_item_creation() {
    let button = button::<Real>("test", "Test Button", MenuAction::NoAction);
    assert_eq!(button.get_text(), "Test Button");
    assert!(button.is_selectable());
}

#[test]
fn test_menu_item_types() {
    let label = label::<Real>("test", "Test Label");
    assert_eq!(label.get_text(), "Test Label");
    assert!(!label.is_selectable());

    let spacer = spacer("test", Real(20.0));
    assert_eq!(spacer.get_text(), "");
    assert!(!spacer.is_selectable());
}

#[test]
fn a_new_item_is_enabled_visible_and_of_the_usual_size() {
    let item = toggle::<Real>("music", "Music", true, MenuAction::ToggleSetting("music".to_string()));
    assert_eq!(item.id, "music");
    assert_eq!(item.position, Vector { x: Real(0.0), y: Real(0.0) });
    assert_eq!(item.size, Vector { x: Real(200.0), y: Real(40.0) });
    assert!(item.enabled);
    assert!(item.visible);
    let item = item.with_position(Real(3.0), Real(4.0)).with_size(Real(5.0), Real(6.0)).enabled(false);
    assert_eq!(item.position, Vector { x: Real(3.0), y: Real(4.0) });
    assert_eq!(item.size, Vector { x: Real(5.0), y: Real(6.0) });
    assert!(!item.enabled);
    assert!(!item.is_selectable());
    assert_eq!(item.get_text(), "Music");
}

#[test]
fn the_plain_look_has_its_documented_values() {
    let config = MenuConfig::<Real>::default();
    assert_eq!(config.title, "");
    assert_eq!(config.title_position, Vector { x: Real(400.0), y: Real(100.0) });
    assert_eq!(config.background_color, [Real(0.1), Real(0.1), Real(0.2), Real(0.9)]);
    assert_eq!(config.item_spacing, Real(10.0));
    assert_eq!(config.item_height, Real(40.0));
    assert_eq!(config.item_width, Real(250.0));
    assert_eq!(config.selected_color, [Real(1.0), Real(1.0), Real(0.0), Real(1.0)]);
    assert_eq!(config.normal_color, [Real(1.0), Real(1.0), Real(1.0), Real(1.0)]);
    assert_eq!(config.disabled_color, [Real(0.5), Real(0.5), Real(0.5), Real(1.0)]);
    assert!(config.allow_wrapping);
    assert!(config.center_items);
}

#[test]
fn the_items_stand_in_a_column_below_the_title() {
    let menu = MenuSystem::<Fixed>::create_main_menu();
    // Centred: 400 - 250 / 2; rows from 180 on, 50 apart.
    for (place, row) in [180, 230, 280].iter().enumerate() {
        assert_eq!(menu.items[place].position, Vector { x: units(275), y: units(*row) });
        assert_eq!(menu.items[place].size, Vector { x: units(250), y: units(40) });
    }
    assert_eq!(menu.items[0].id, "play");
    assert_eq!(menu.items[1].get_text(), "Settings");
    assert!(matches!(menu.items[0].action(), Some(MenuAction::ChangeState(state)) if state == "gameplay"));
    assert!(matches!(menu.items[2].action(), Some(MenuAction::Quit)));
    assert_eq!(menu.selected_index, 0);
    assert!(menu.navigation_enabled);
}

#[test]
fn an_item_that_is_not_visible_takes_no_row() {
    let mut config = MenuConfig::<Fixed>::titled("T");
    config.center_items = false;
    let mut menu = MenuSystem::new(config);
    menu.add_item(button("a", "A", MenuAction::NoAction));
    let mut hidden = button("b", "B", MenuAction::NoAction).with_position(units(1), units(2));
    hidden.visible = false;
    menu.add_item(hidden);
    menu.add_item(button("c", "C", MenuAction::NoAction));
    assert_eq!(menu.items[0].position, Vector { x: units(400), y: units(180) });
    assert_eq!(menu.items[1].position, Vector { x: units(1), y: units(2) });
    assert_eq!(menu.items[1].size, Vector { x: units(200), y: units(40) });
    assert_eq!(menu.items[2].position, Vector { x: units(400), y: units(230) });
}

#[test]
fn the_selection_skips_what_cannot_be_selected() {
    let mut menu = MenuSystem::<Fixed>::new(MenuConfig::default());
    menu.add_item(label("title", "Title"));
    assert_eq!(menu.selected_index, 0);
    menu.add_item(button("a", "A", MenuAction::NoAction));
    // The label cannot be selected: the selection goes to the button.
    assert_eq!(menu.selected_index, 1);
    menu.add_item(spacer("gap", units(20)));
    menu.add_item(button("b", "B", MenuAction::Back).enabled(false));
    menu.add_item(button("c", "C", MenuAction::Quit));
    assert_eq!(menu.get_selectable_items().len(), 2);
    assert_eq!(menu.get_selectable_items()[1].id, "c");
    assert!(menu.can_navigate());
    menu.select_next();
    assert_eq!(menu.selected_index, 4);
    menu.select_next();
    assert_eq!(menu.selected_index, 1);
    menu.select_previous();
    assert_eq!(menu.selected_index, 4);
    menu.select_index(3);
    assert_eq!(menu.selected_index, 4);
    menu.select_index(1);
    assert_eq!(menu.selected_index, 1);
    menu.select_index(9);
    assert_eq!(menu.selected_index, 1);
    menu.select_by_id("b");
    assert_eq!(menu.selected_index, 1);
    menu.select_by_id("c");
    assert_eq!(menu.selected_index, 4);
    menu.select_by_id("nobody");
    assert_eq!(menu.selected_index, 4);
    assert!(matches!(menu.activate_selected(), Some(MenuAction::Quit)));
    assert_eq!(menu.get_selected_item().unwrap().id, "c");
}

#[test]
fn activating_asks_for_the_action_of_the_selected_item() {
    let mut menu = MenuSystem::<Fixed>::create_settings_menu();
    assert!(matches!(
        menu.activate_selected(),
        Some(MenuAction::ToggleSetting(key)) if key == "music_enabled"
    ));
    menu.select_index(2);
    assert!(matches!(
        menu.activate_selected(),
        Some(MenuAction::SetSetting(key, value)) if key == "master_volume" && value == Fixed { raw: 800_000 }
    ));
    assert!(matches!(
        &menu.items[2].item_type,
        MenuItemType::Slider { value, min, max, step, .. }
            if *value == Fixed { raw: 800_000 } && *min == units(0) && *max == units(1)
                && *step == Fixed { raw: 100_000 }
    ));
    menu.get_selected_item_mut().unwrap().enabled = false;
    assert!(menu.activate_selected().is_none());
    menu.clear_items();
    assert!(menu.activate_selected().is_none());
    assert!(menu.get_selected_item().is_none());
    assert!(menu.get_selected_item_mut().is_none());
    assert_eq!(menu.selected_index, 0);
}

#[test]
fn a_label_asks_for_nothing() {
    let mut menu = MenuSystem::<Fixed>::new(MenuConfig::default());
    menu.add_item(label("title", "Title"));
    assert!(menu.activate_selected().is_none());
    let options = vec!["low".to_string(), "high".to_string()];
    menu.add_item(selector("detail", "Detail", options, 1, MenuAction::SelectOption("detail".to_string(), 1)));
    assert!(matches!(
        menu.activate_selected(),
        Some(MenuAction::SelectOption(key, 1)) if key == "detail"
    ));
    menu.add_item(slider("v", "V", units(1), units(0), units(2), units(1), MenuAction::Custom("v".to_string())));
    assert_eq!(menu.items[2].get_text(), "V");
    assert!(menu.items[2].is_selectable());
}

#[test]
fn removing_items_by_name_moves_the_rest_up() {
    let mut menu = MenuSystem::<Fixed>::create_difficulty_menu();
    assert_eq!(menu.config.title, "SELECT DIFFICULTY");
    assert_eq!(menu.items.len(), 4);
    menu.select_index(3);
    menu.remove_item("normal");
    assert_eq!(menu.items.len(), 3);
    assert_eq!(menu.items[0].id, "easy");
    assert_eq!(menu.items[1].id, "hard");
    assert_eq!(menu.items[2].id, "back");
    assert_eq!(menu.items[1].position, Vector { x: units(275), y: units(230) });
    // The selected index lies outside the menu now: the first item that
    // can be selected takes its place.
    assert_eq!(menu.selected_index, 0);
    menu.remove_item("nobody");
    assert_eq!(menu.items.len(), 3);
    assert!(matches!(menu.items[1].action(), Some(MenuAction::Custom(name)) if name == "difficulty_hard"));
}

#[test]
fn the_keys_of_a_tick_move_the_selection() {
    let mut menu = MenuSystem::<Fixed>::create_main_menu();
    menu.handle_input(&just_pressed(&[Key::Down]));
    assert_eq!(menu.selected_index, 1);
    menu.handle_input(&just_pressed(&[Key::Up, Key::Down]));
    assert_eq!(menu.selected_index, 2);
    menu.handle_input(&just_pressed(&[Key::Up]));
    assert_eq!(menu.selected_index, 1);
    menu.handle_input(&just_pressed(&[Key::Key3]));
    assert_eq!(menu.selected_index, 2);
    menu.handle_input(&just_pressed(&[Key::Key1, Key::Key2]));
    assert_eq!(menu.selected_index, 0);
    menu.handle_input(&just_pressed(&[Key::Key4]));
    assert_eq!(menu.selected_index, 0);
    menu.navigation_enabled = false;
    menu.handle_input(&just_pressed(&[Key::Down]));
    assert_eq!(menu.selected_index, 0);
    menu.select_next();
    assert_eq!(menu.selected_index, 0);
}

#[test]
fn a_menu_keeps_its_settings_by_name() {
    let mut menu = MenuSystem::<Fixed>::default();
    assert!(menu.get_setting("music").is_none());
    menu.set_setting("music".to_string(), MenuSetting::Bool(true));
    menu.set_setting("volume".to_string(), MenuSetting::Float(units(1)));
    menu.set_setting("music".to_string(), MenuSetting::Int(3));
    menu.set_setting("name".to_string(), MenuSetting::String("x".to_string()));
    assert!(matches!(menu.get_setting("music"), Some(MenuSetting::Int(3))));
    assert!(matches!(menu.get_setting("volume"), Some(MenuSetting::Float(v)) if *v == units(1)));
    assert!(matches!(menu.get_setting("name"), Some(MenuSetting::String(s)) if s == "x"));
}
