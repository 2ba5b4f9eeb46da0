//! The items of a menu, what they do when they are activated, and how a
//! menu looks.

use vstd::prelude::*;
use crate::num::Scalar;
use crate::physics::Vector;

verus! {

/// What activating a menu item asks for.
#[derive(Debug, Clone)]
pub enum MenuAction<T> {
    /// Nothing.
    NoAction,
    /// To switch to another game state.
    ChangeState(String),
    /// To toggle a setting that is on or off.
    ToggleSetting(String),
    /// To set a setting to a number.
    SetSetting(String, T),
    /// To choose one of several options.
    SelectOption(String, usize),
    /// Something of the game's own, by name.
    Custom(String),
    /// To go back to the menu before.
    Back,
    /// To quit the game.
    Quit,
}

/// The kinds of menu item.
#[derive(Debug, Clone)]
pub enum MenuItemType<T> {
    /// A button.
    Button { text: String, action: MenuAction<T> },
    /// An option that is on or off.
    Toggle { text: String, value: bool, action: MenuAction<T> },
    /// A number between two bounds.
    Slider { text: String, value: T, min: T, max: T, step: T, action: MenuAction<T> },
    /// One of several options.
    Selector { text: String, options: Vec<String>, selected: usize, action: MenuAction<T> },
    /// A text that is only shown.
    Label { text: String },
    /// An empty space.
    Spacer { height: T },
}

/// An item of a menu.
#[derive(Debug, Clone)]
pub struct MenuItem<T> {
    pub item_type: MenuItemType<T>,
    pub position: Vector<T>,
    pub size: Vector<T>,
    pub enabled: bool,
    pub visible: bool,
    pub id: String,
}

/// How a menu looks.
#[derive(Debug, Clone)]
pub struct MenuConfig<T> {
    pub title: String,
    pub title_position: Vector<T>,
    pub background_color: [T; 4],
    pub item_spacing: T,
    pub item_height: T,
    pub item_width: T,
    pub selected_color: [T; 4],
    pub normal_color: [T; 4],
    pub disabled_color: [T; 4],
    pub allow_wrapping: bool,
    pub center_items: bool,
}

/// A setting that a menu keeps.
#[derive(Debug, Clone)]
pub enum MenuSetting<T> {
    Bool(bool),
    Float(T),
    Int(usize),
    String(String),
}

/// The text that an item of a kind shows. A spacer shows none.
pub open spec fn text_of<T>(item_type: MenuItemType<T>) -> Seq<char> {
    match item_type {
        MenuItemType::Button { text, .. } => text@,
        MenuItemType::Toggle { text, .. } => text@,
        MenuItemType::Slider { text, .. } => text@,
        MenuItemType::Selector { text, .. } => text@,
        MenuItemType::Label { text } => text@,
        MenuItemType::Spacer { .. } => Seq::empty(),
    }
}

/// What activating an item of a kind asks for. Labels and spacers ask for
/// nothing and cannot be activated.
pub open spec fn action_of<T>(item_type: MenuItemType<T>) -> Option<MenuAction<T>> {
    match item_type {
        MenuItemType::Button { action, .. } => Some(action),
        MenuItemType::Toggle { action, .. } => Some(action),
        MenuItemType::Slider { action, .. } => Some(action),
        MenuItemType::Selector { action, .. } => Some(action),
        MenuItemType::Label { .. } => None,
        MenuItemType::Spacer { .. } => None,
    }
}

/// An item as it is made: at the origin, two hundred by forty, enabled and
/// visible.
pub open spec fn is_new_item<T: Scalar>(item: MenuItem<T>, id: Seq<char>, item_type: MenuItemType<T>) -> bool {
    &&& item.id@ == id
    &&& item.item_type == item_type
    &&& item.position == (Vector { x: T::ratio(0, 1), y: T::ratio(0, 1) })
    &&& item.size == (Vector { x: T::ratio(200, 1), y: T::ratio(40, 1) })
    &&& item.enabled
    &&& item.visible
}

/// Whether a configuration is the plain one but for its title.
pub open spec fn is_plain_look<T: Scalar>(config: MenuConfig<T>) -> bool {
    &&& config.title_position == (Vector { x: T::ratio(400, 1), y: T::ratio(100, 1) })
    &&& config.background_color == [T::ratio(1, 10), T::ratio(1, 10), T::ratio(1, 5), T::ratio(9, 10)]
    &&& config.item_spacing == T::ratio(10, 1)
    &&& config.item_height == T::ratio(40, 1)
    &&& config.item_width == T::ratio(250, 1)
    &&& config.selected_color == [T::ratio(1, 1), T::ratio(1, 1), T::ratio(0, 1), T::ratio(1, 1)]
    &&& config.normal_color == [T::ratio(1, 1), T::ratio(1, 1), T::ratio(1, 1), T::ratio(1, 1)]
    &&& config.disabled_color == [T::ratio(1, 2), T::ratio(1, 2), T::ratio(1, 2), T::ratio(1, 1)]
    &&& config.allow_wrapping
    &&& config.center_items
}

impl<T: Scalar> MenuAction<T> {
    /// A copy of the action.
    pub fn copy(&self) -> (copy: Self)
        ensures
            copy == *self,
    {
        match self {
            MenuAction::NoAction => MenuAction::NoAction,
            MenuAction::ChangeState(state) => MenuAction::ChangeState(state.clone()),
            MenuAction::ToggleSetting(key) => MenuAction::ToggleSetting(key.clone()),
            MenuAction::SetSetting(key, value) => MenuAction::SetSetting(key.clone(), *value),
            MenuAction::SelectOption(key, option) => MenuAction::SelectOption(key.clone(), *option),
            MenuAction::Custom(name) => MenuAction::Custom(name.clone()),
            MenuAction::Back => MenuAction::Back,
            MenuAction::Quit => MenuAction::Quit,
        }
    }
}

impl<T: Scalar> MenuItem<T> {
    /// Whether the item can be selected: it is a button, a toggle, a slider
    /// or a selector, and it is enabled.
    pub open spec fn selectable(self) -> bool {
        action_of(self.item_type) is Some && self.enabled
    }

    /// An item of a kind under a name.
    pub fn new(id: &str, item_type: MenuItemType<T>) -> (item: Self)
        ensures
            is_new_item(item, id@, item_type),
    {
        MenuItem {
            item_type,
            position: Vector { x: T::from_ratio(0, 1), y: T::from_ratio(0, 1) },
            size: Vector { x: T::from_ratio(200, 1), y: T::from_ratio(40, 1) },
            enabled: true,
            visible: true,
            id: id.to_owned(),
        }
    }

    /// The item at another place.
    pub fn with_position(self, x: T, y: T) -> (item: Self)
        ensures
            item == (MenuItem { position: Vector { x, y }, ..self }),
    {
        let mut item = self;
        item.position = Vector { x, y };
        item
    }

    /// The item with another size.
    pub fn with_size(self, width: T, height: T) -> (item: Self)
        ensures
            item == (MenuItem { size: Vector { x: width, y: height }, ..self }),
    {
        let mut item = self;
        item.size = Vector { x: width, y: height };
        item
    }

    /// The item enabled or disabled.
    pub fn enabled(self, enabled: bool) -> (item: Self)
        ensures
            item == (MenuItem { enabled, ..self }),
    {
        let mut item = self;
        item.enabled = enabled;
        item
    }

    /// The text that the item shows.
    pub fn get_text(&self) -> (text: &str)
        ensures
            text@ == text_of(self.item_type),
    {
        match &self.item_type {
            MenuItemType::Button { text, .. } => text.as_str(),
            MenuItemType::Toggle { text, .. } => text.as_str(),
            MenuItemType::Slider { text, .. } => text.as_str(),
            MenuItemType::Selector { text, .. } => text.as_str(),
            MenuItemType::Label { text } => text.as_str(),
            MenuItemType::Spacer { .. } => {
                proof {
                    reveal_strlit("");
                    assert(""@ =~= Seq::<char>::empty());
                }
                ""
            },
        }
    }

    /// Whether the item can be selected.
    pub fn is_selectable(&self) -> (yes: bool)
        ensures
            yes == self.selectable(),
    {
        match &self.item_type {
            MenuItemType::Button { .. } => self.enabled,
            MenuItemType::Toggle { .. } => self.enabled,
            MenuItemType::Slider { .. } => self.enabled,
            MenuItemType::Selector { .. } => self.enabled,
            MenuItemType::Label { .. } => false,
            MenuItemType::Spacer { .. } => false,
        }
    }

    /// What activating the item asks for.
    pub fn action(&self) -> (action: Option<MenuAction<T>>)
        ensures
            action == action_of(self.item_type),
    {
        match &self.item_type {
            MenuItemType::Button { action, .. } => Some(action.copy()),
            MenuItemType::Toggle { action, .. } => Some(action.copy()),
            MenuItemType::Slider { action, .. } => Some(action.copy()),
            MenuItemType::Selector { action, .. } => Some(action.copy()),
            MenuItemType::Label { .. } => None,
            MenuItemType::Spacer { .. } => None,
        }
    }
}

impl<T: Scalar> MenuConfig<T> {
    /// The plain look under a title.
    pub fn titled(title: &str) -> (config: Self)
        ensures
            config.title@ == title@,
            is_plain_look(config),
    {
        MenuConfig {
            title: title.to_owned(),
            title_position: Vector { x: T::from_ratio(400, 1), y: T::from_ratio(100, 1) },
            background_color: [
                T::from_ratio(1, 10),
                T::from_ratio(1, 10),
                T::from_ratio(1, 5),
                T::from_ratio(9, 10),
            ],
            item_spacing: T::from_ratio(10, 1),
            item_height: T::from_ratio(40, 1),
            item_width: T::from_ratio(250, 1),
            selected_color: [
                T::from_ratio(1, 1),
                T::from_ratio(1, 1),
                T::from_ratio(0, 1),
                T::from_ratio(1, 1),
            ],
            normal_color: [
                T::from_ratio(1, 1),
                T::from_ratio(1, 1),
                T::from_ratio(1, 1),
                T::from_ratio(1, 1),
            ],
            disabled_color: [
                T::from_ratio(1, 2),
                T::from_ratio(1, 2),
                T::from_ratio(1, 2),
                T::from_ratio(1, 1),
            ],
            allow_wrapping: true,
            center_items: true,
        }
    }
}

impl<T: Scalar> Default for MenuConfig<T> {
    fn default() -> (config: Self)
        ensures
            config.title@.len() == 0,
            is_plain_look(config),
    {
        proof {
            reveal_strlit("");
        }
        MenuConfig::titled("")
    }
}

} // verus!
