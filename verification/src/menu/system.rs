//! A menu: its items in a column, the selected one, and its settings.

use vstd::prelude::*;
use crate::input_window::WindowInputState;
use crate::menu::items::{action_of, is_plain_look, MenuAction, MenuConfig, MenuItem, MenuItemType, MenuSetting};
use crate::menu::{after_arrows, after_number_keys, clamped, next_of, previous_of, MenuSelection};
use crate::num::Scalar;
use crate::physics::Vector;
use crate::str_map::StrMap;

verus! {

/// A menu.
pub struct MenuSystem<T> {
    pub config: MenuConfig<T>,
    pub items: Vec<MenuItem<T>>,
    pub selected_index: usize,
    pub navigation_enabled: bool,
    pub settings: StrMap<MenuSetting<T>>,
}

/// For each item whether it can be selected.
pub open spec fn flags_of<T: Scalar>(items: Seq<MenuItem<T>>) -> Seq<bool> {
    Seq::new(items.len(), |i: int| items[i].selectable())
}

/// The height of the first row: eighty below the title.
pub open spec fn first_row<T: Scalar>(config: MenuConfig<T>) -> T {
    config.title_position.y.sum(T::ratio(80, 1))
}

/// The height of the row of the item at `place`: each visible item before
/// it takes a row of the item height and the spacing.
pub open spec fn row_of<T: Scalar>(items: Seq<MenuItem<T>>, config: MenuConfig<T>, place: int) -> T
    decreases place,
{
    if place <= 0 {
        first_row(config)
    } else if items[place - 1].visible {
        row_of(items, config, place - 1).sum(config.item_height.sum(config.item_spacing))
    } else {
        row_of(items, config, place - 1)
    }
}

/// Where the items begin from the left: at the title, or half an item's
/// width before it where the items are centred.
pub open spec fn column_of<T: Scalar>(config: MenuConfig<T>) -> T {
    if config.center_items {
        config.title_position.x.difference(config.item_width.quotient(T::ratio(2, 1)))
    } else {
        config.title_position.x
    }
}

/// An item put in its row. An item that is not visible stays as it is.
pub open spec fn placed<T: Scalar>(item: MenuItem<T>, config: MenuConfig<T>, row: T) -> MenuItem<T> {
    if item.visible {
        MenuItem {
            position: Vector { x: column_of(config), y: row },
            size: Vector { x: config.item_width, y: config.item_height },
            ..item
        }
    } else {
        item
    }
}

/// The items, each in its row.
pub open spec fn laid_out<T: Scalar>(items: Seq<MenuItem<T>>, config: MenuConfig<T>) -> Seq<
    MenuItem<T>,
> {
    Seq::new(items.len(), |i: int| placed(items[i], config, row_of(items, config, i)))
}

/// The items but those named `id`, in their order.
pub open spec fn without<T: Scalar>(items: Seq<MenuItem<T>>, id: Seq<char>) -> Seq<MenuItem<T>>
    decreases items.len(),
{
    if items.len() == 0 {
        Seq::empty()
    } else if items.last().id@ == id {
        without(items.drop_last(), id)
    } else {
        without(items.drop_last(), id).push(items.last())
    }
}

/// The items that can be selected, in their order.
pub open spec fn choosable<T: Scalar>(items: Seq<MenuItem<T>>) -> Seq<MenuItem<T>>
    decreases items.len(),
{
    if items.len() == 0 {
        Seq::empty()
    } else if items.last().selectable() {
        choosable(items.drop_last()).push(items.last())
    } else {
        choosable(items.drop_last())
    }
}

/// Whether the item at `at` is the first that is named `id` and can be
/// selected.
pub open spec fn named_at<T: Scalar>(items: Seq<MenuItem<T>>, id: Seq<char>, at: int) -> bool {
    &&& 0 <= at < items.len()
    &&& items[at].id@ == id
    &&& items[at].selectable()
    &&& forall|k: int| 0 <= k < at ==> !((#[trigger] items[k]).id@ == id && items[k].selectable())
}

/// The selection after selecting by name: the first item of that name that
/// can be selected, or the selection as it was.
pub open spec fn selected_by_id<T: Scalar>(items: Seq<MenuItem<T>>, id: Seq<char>, selected: int) -> int {
    if exists|at: int| named_at(items, id, at) {
        choose|at: int| named_at(items, id, at)
    } else {
        selected
    }
}

/// Whether an item is an enabled, visible button with a name and a text.
pub open spec fn is_button<T: Scalar>(item: MenuItem<T>, id: Seq<char>, text: Seq<char>) -> bool {
    &&& item.id@ == id
    &&& item.enabled
    &&& item.visible
    &&& item.item_type matches MenuItemType::Button { text: shown, .. } && shown@ == text
}

/// Whether an item is an enabled, visible toggle with a name and a text
/// that is switched on and toggles the setting `key`.
pub open spec fn is_toggle_on<T: Scalar>(
    item: MenuItem<T>,
    id: Seq<char>,
    text: Seq<char>,
    key: Seq<char>,
) -> bool {
    &&& item.id@ == id
    &&& item.enabled
    &&& item.visible
    &&& item.item_type matches MenuItemType::Toggle { text: shown, value, action } && shown@ == text
        && value && (action matches MenuAction::ToggleSetting(k) && k@ == key)
}

/// Whether an action asks for the game state `name`.
pub open spec fn goes_to<T>(action: Option<MenuAction<T>>, name: Seq<char>) -> bool {
    action matches Some(MenuAction::ChangeState(state)) && state@ == name
}

/// Whether an action asks for the game's own action `name`.
pub open spec fn asks_for<T>(action: Option<MenuAction<T>>, name: Seq<char>) -> bool {
    action matches Some(MenuAction::Custom(custom)) && custom@ == name
}

impl<T: Scalar> MenuSystem<T> {
    /// The settings are in order.
    pub open spec fn wf(&self) -> bool {
        self.settings.wf()
    }

    /// Whether the selection can be moved: with navigation enabled and
    /// items in the menu, the selected index lies among them.
    pub open spec fn can_move(&self) -> bool {
        self.navigation_enabled && self.items@.len() > 0 ==> self.selected_index < self.items@.len()
    }

    /// Whether the menu is `before` but for its selected index.
    pub open spec fn same_but_selection(&self, before: &Self) -> bool {
        &&& self.config == before.config
        &&& self.items == before.items
        &&& self.navigation_enabled == before.navigation_enabled
        &&& self.settings == before.settings
    }

    /// Whether the menu is `before` but for its items and its selected
    /// index.
    pub open spec fn same_but_items(&self, before: &Self) -> bool {
        &&& self.config == before.config
        &&& self.navigation_enabled == before.navigation_enabled
        &&& self.settings == before.settings
    }

    /// An empty menu with a look.
    pub fn new(config: MenuConfig<T>) -> (menu: Self)
        ensures
            menu.wf(),
            menu.config == config,
            menu.items@.len() == 0,
            menu.selected_index == 0,
            menu.navigation_enabled,
            menu.settings@ == Map::<Seq<char>, MenuSetting<T>>::empty(),
    {
        MenuSystem {
            config,
            items: Vec::new(),
            selected_index: 0,
            navigation_enabled: true,
            settings: StrMap::new(),
        }
    }

    /// Puts an item at the end of the menu and lays the menu out.
    pub fn add_item(&mut self, item: MenuItem<T>)
        ensures
            final(self).same_but_items(old(self)),
            final(self).items@ == laid_out(old(self).items@.push(item), old(self).config),
            final(self).selected_index == clamped(
                flags_of(old(self).items@.push(item)),
                old(self).selected_index as int,
            ),
    {
        self.items.push(item);
        self.update_layout();
    }

    /// Takes the items named `id` out of the menu and lays the menu out.
    pub fn remove_item(&mut self, id: &str)
        ensures
            final(self).same_but_items(old(self)),
            final(self).items@ == laid_out(without(old(self).items@, id@), old(self).config),
            final(self).selected_index == clamped(
                flags_of(without(old(self).items@, id@)),
                old(self).selected_index as int,
            ),
    {
        let wanted: String = id.to_owned();
        let ghost all = self.items@;
        let ghost mut seen: int = 0;
        let mut i: usize = 0;
        while i < self.items.len()
            invariant
                self.same_but_items(old(self)),
                self.selected_index == old(self).selected_index,
                wanted@ == id@,
                0 <= seen <= all.len(),
                i == without(all.take(seen), id@).len(),
                self.items@ == without(all.take(seen), id@) + all.skip(seen),
            decreases all.len() - seen,
        {
            proof {
                assert(all.take(seen + 1).drop_last() =~= all.take(seen));
                assert(self.items@[i as int] == all[seen]);
            }
            let ghost held = self.items@;
            if self.items[i].id == wanted {
                self.items.remove(i);
                proof {
                    assert(self.items@ =~= without(all.take(seen + 1), id@) + all.skip(seen + 1));
                }
            } else {
                i = i + 1;
                proof {
                    assert(self.items@ =~= without(all.take(seen + 1), id@) + all.skip(seen + 1));
                }
            }
            proof {
                seen = seen + 1;
            }
        }
        proof {
            assert(all.skip(seen).len() == 0);
            assert(all.take(seen) =~= all);
            assert(self.items@ =~= without(all, id@));
        }
        self.update_layout();
        let ghost flags = flags_of(without(all, id@));
        assert(flags_of(self.items@) =~= flags);
        self.clamp_selection();
    }

    /// Takes every item out of the menu.
    pub fn clear_items(&mut self)
        ensures
            final(self).same_but_items(old(self)),
            final(self).items@.len() == 0,
            final(self).selected_index == 0,
    {
        self.items.clear();
        self.selected_index = 0;
    }

    /// The selected item, where the selected index points to one.
    pub fn get_selected_item(&self) -> (item: Option<&MenuItem<T>>)
        ensures
            match item {
                Some(found) => self.selected_index < self.items@.len() && *found
                    == self.items@[self.selected_index as int],
                None => self.selected_index >= self.items@.len(),
            },
    {
        if self.selected_index < self.items.len() {
            Some(&self.items[self.selected_index])
        } else {
            None
        }
    }

    /// The selected item, to be changed, where the selected index points
    /// to one.
    pub fn get_selected_item_mut(&mut self) -> (item: Option<&mut MenuItem<T>>)
        ensures
            final(self).same_but_items(old(self)),
            final(self).selected_index == old(self).selected_index,
            match item {
                Some(found) => old(self).selected_index < old(self).items@.len() && *found == old(
                    self,
                ).items@[old(self).selected_index as int] && final(self).items@ == old(
                    self,
                ).items@.update(old(self).selected_index as int, *final(found)),
                None => old(self).selected_index >= old(self).items@.len() && final(self).items
                    == old(self).items,
            },
    {
        if self.selected_index < self.items.len() {
            let place = self.selected_index;
            Some(&mut self.items[place])
        } else {
            None
        }
    }

    /// For each item whether it can be selected.
    fn flags(&self) -> (flags: Vec<bool>)
        ensures
            flags@ == flags_of(self.items@),
    {
        let mut flags: Vec<bool> = Vec::new();
        let mut i: usize = 0;
        while i < self.items.len()
            invariant
                i <= self.items@.len(),
                flags@.len() == i,
                forall|k: int| 0 <= k < i ==> flags@[k] == self.items@[k].selectable(),
            decreases self.items@.len() - i,
        {
            flags.push(self.items[i].is_selectable());
            i = i + 1;
        }
        assert(flags@ =~= flags_of(self.items@));
        flags
    }

    /// The selection of the menu on its own.
    fn selection(&self) -> (selection: MenuSelection)
        ensures
            selection.selectable@ == flags_of(self.items@),
            selection.selected_index == self.selected_index,
            selection.navigation_enabled == self.navigation_enabled,
    {
        MenuSelection {
            selectable: self.flags(),
            selected_index: self.selected_index,
            navigation_enabled: self.navigation_enabled,
        }
    }

    /// Whether the selection can be moved.
    pub fn can_navigate(&self) -> (yes: bool)
        ensures
            yes == self.can_move(),
    {
        !self.navigation_enabled || self.items.len() == 0 || self.selected_index < self.items.len()
    }

    /// Moves the selection to the next item that can be selected, going
    /// round the menu.
    pub fn select_next(&mut self)
        requires
            old(self).can_move(),
        ensures
            final(self).same_but_selection(old(self)),
            final(self).selected_index == (if old(self).navigation_enabled && old(self).items@.len()
                > 0 {
                next_of(flags_of(old(self).items@), old(self).selected_index as int)
            } else {
                old(self).selected_index as int
            }),
    {
        let mut selection = self.selection();
        selection.select_next();
        self.selected_index = selection.selected_index;
    }

    /// Moves the selection to the previous item that can be selected,
    /// going round the menu.
    pub fn select_previous(&mut self)
        requires
            old(self).can_move(),
        ensures
            final(self).same_but_selection(old(self)),
            final(self).selected_index == (if old(self).navigation_enabled && old(self).items@.len()
                > 0 {
                previous_of(flags_of(old(self).items@), old(self).selected_index as int)
            } else {
                old(self).selected_index as int
            }),
    {
        let mut selection = self.selection();
        selection.select_previous();
        self.selected_index = selection.selected_index;
    }

    /// Selects the item at `index` where there is one and it can be
    /// selected.
    pub fn select_index(&mut self, index: usize)
        ensures
            final(self).same_but_selection(old(self)),
            final(self).selected_index == (if index < old(self).items@.len() && old(
                self,
            ).items@[index as int].selectable() {
                index
            } else {
                old(self).selected_index
            }),
    {
        if index < self.items.len() && self.items[index].is_selectable() {
            self.selected_index = index;
        }
    }

    /// Selects the first item named `id` that can be selected.
    pub fn select_by_id(&mut self, id: &str)
        ensures
            final(self).same_but_selection(old(self)),
            final(self).selected_index == selected_by_id(
                old(self).items@,
                id@,
                old(self).selected_index as int,
            ),
    {
        let wanted: String = id.to_owned();
        let mut index: usize = 0;
        while index < self.items.len()
            invariant
                *self == *old(self),
                wanted@ == id@,
                index <= self.items@.len(),
                forall|k: int|
                    0 <= k < index ==> !((#[trigger] self.items@[k]).id@ == id@
                        && self.items@[k].selectable()),
            decreases self.items@.len() - index,
        {
            if self.items[index].id == wanted && self.items[index].is_selectable() {
                proof {
                    let items = self.items@;
                    assert(named_at(items, id@, index as int));
                    let chosen = choose|at: int| named_at(items, id@, at);
                    assert(named_at(items, id@, chosen));
                    if chosen < index {
                        assert(!(items[chosen].id@ == id@ && items[chosen].selectable()));
                    }
                    if index < chosen {
                        assert(!(items[index as int].id@ == id@ && items[index as int].selectable()));
                    }
                }
                self.selected_index = index;
                return ;
            }
            index = index + 1;
        }
        proof {
            let items = self.items@;
            if exists|at: int| named_at(items, id@, at) {
                let at = choose|at: int| named_at(items, id@, at);
                assert(!(items[at].id@ == id@ && items[at].selectable()));
            }
        }
    }

    /// What activating the selected item asks for: nothing where there is
    /// none, where it is disabled, or where it is a label or a spacer.
    pub fn activate_selected(&mut self) -> (action: Option<MenuAction<T>>)
        ensures
            *final(self) == *old(self),
            action == (if old(self).selected_index < old(self).items@.len() && old(
                self,
            ).items@[old(self).selected_index as int].enabled {
                action_of(old(self).items@[old(self).selected_index as int].item_type)
            } else {
                None
            }),
    {
        if self.selected_index < self.items.len() && self.items[self.selected_index].enabled {
            self.items[self.selected_index].action()
        } else {
            None
        }
    }

    /// Puts each visible item in its row, one below the other from eighty
    /// below the title, and makes the selection valid.
    pub fn update_layout(&mut self)
        ensures
            final(self).same_but_items(old(self)),
            final(self).items@ == laid_out(old(self).items@, old(self).config),
            final(self).selected_index == clamped(
                flags_of(old(self).items@),
                old(self).selected_index as int,
            ),
    {
        let ghost all = self.items@;
        let gap = self.config.item_height.plus(self.config.item_spacing);
        let column = if self.config.center_items {
            self.config.title_position.x.minus(self.config.item_width.over(T::from_ratio(2, 1)))
        } else {
            self.config.title_position.x
        };
        let width = self.config.item_width;
        let height = self.config.item_height;
        let mut row = self.config.title_position.y.plus(T::from_ratio(80, 1));
        let mut i: usize = 0;
        while i < self.items.len()
            invariant
                self.same_but_items(old(self)),
                self.selected_index == old(self).selected_index,
                all == old(self).items@,
                gap == self.config.item_height.sum(self.config.item_spacing),
                column == column_of(self.config),
                width == self.config.item_width,
                height == self.config.item_height,
                i <= all.len(),
                self.items@.len() == all.len(),
                row == row_of(all, self.config, i as int),
                forall|k: int|
                    0 <= k < i ==> #[trigger] self.items@[k] == placed(
                        all[k],
                        self.config,
                        row_of(all, self.config, k),
                    ),
                forall|k: int| i <= k < all.len() ==> #[trigger] self.items@[k] == all[k],
            decreases all.len() - i,
        {
            if self.items[i].visible {
                let item = &mut self.items[i];
                item.position = Vector { x: column, y: row };
                item.size = Vector { x: width, y: height };
                row = row.plus(gap);
            }
            i = i + 1;
        }
        proof {
            assert(self.items@ =~= laid_out(all, self.config));
            assert(flags_of(self.items@) =~= flags_of(all));
        }
        self.clamp_selection();
    }

    /// Makes the selection valid for the items as they are.
    fn clamp_selection(&mut self)
        ensures
            final(self).same_but_selection(old(self)),
            final(self).selected_index == clamped(
                flags_of(old(self).items@),
                old(self).selected_index as int,
            ),
    {
        let mut selection = self.selection();
        selection.clamp_selection();
        self.selected_index = selection.selected_index;
    }

    /// Takes the keys of a tick: Down and Up move the selection, then a
    /// number key from 1 to 9 selects the item of that number, the lowest
    /// number first. Nothing moves where navigation is disabled.
    pub fn handle_input(&mut self, input_state: &WindowInputState)
        requires
            old(self).can_move(),
        ensures
            final(self).same_but_selection(old(self)),
            final(self).selected_index == (if old(self).navigation_enabled {
                after_number_keys(
                    flags_of(old(self).items@),
                    after_arrows(
                        flags_of(old(self).items@),
                        old(self).selected_index as int,
                        *input_state,
                    ),
                    *input_state,
                    0,
                )
            } else {
                old(self).selected_index as int
            }),
    {
        let mut selection = self.selection();
        selection.handle_input(input_state);
        self.selected_index = selection.selected_index;
    }

    /// The setting under a name.
    pub fn get_setting(&self, key: &str) -> (setting: Option<&MenuSetting<T>>)
        requires
            self.wf(),
        ensures
            match setting {
                Some(value) => self.settings@.dom().contains(key@) && self.settings@[key@] == *value,
                None => !self.settings@.dom().contains(key@),
            },
    {
        self.settings.get(key)
    }

    /// Puts a setting under a name, in place of the one that was there.
    pub fn set_setting(&mut self, key: String, value: MenuSetting<T>)
        requires
            old(self).wf(),
        ensures
            final(self).wf(),
            final(self).config == old(self).config,
            final(self).items == old(self).items,
            final(self).selected_index == old(self).selected_index,
            final(self).navigation_enabled == old(self).navigation_enabled,
            final(self).settings@ == old(self).settings@.insert(key@, value),
    {
        self.settings.insert(key.as_str(), value);
    }

    /// The items that can be selected, in their order.
    pub fn get_selectable_items(&self) -> (found: Vec<&MenuItem<T>>)
        ensures
            found@.len() == choosable(self.items@).len(),
            forall|i: int| 0 <= i < found@.len() ==> *(#[trigger] found@[i]) == choosable(self.items@)[i],
    {
        let mut found: Vec<&MenuItem<T>> = Vec::new();
        let mut i: usize = 0;
        while i < self.items.len()
            invariant
                i <= self.items@.len(),
                found@.len() == choosable(self.items@.take(i as int)).len(),
                forall|k: int|
                    0 <= k < found@.len() ==> *(#[trigger] found@[k]) == choosable(
                        self.items@.take(i as int),
                    )[k],
            decreases self.items@.len() - i,
        {
            proof {
                assert(self.items@.take(i + 1).drop_last() =~= self.items@.take(i as int));
            }
            if self.items[i].is_selectable() {
                found.push(&self.items[i]);
            }
            i = i + 1;
        }
        proof {
            assert(self.items@.take(self.items@.len() as int) =~= self.items@);
        }
        found
    }
}

impl<T: Scalar> MenuSystem<T> {
    /// Whether the menu is as it is made: laid out, with its first item
    /// selected, navigation enabled and no settings.
    pub open spec fn is_fresh(&self, title: Seq<char>, count: int) -> bool {
        &&& self.wf()
        &&& self.config.title@ == title
        &&& is_plain_look(self.config)
        &&& self.items@.len() == count
        &&& self.items@ == laid_out(self.items@, self.config)
        &&& self.selected_index == 0
        &&& self.navigation_enabled
        &&& self.settings@ == Map::<Seq<char>, MenuSetting<T>>::empty()
    }

    /// The main menu: to play, to the settings, and to quit.
    pub fn create_main_menu() -> (menu: Self)
        ensures
            menu.is_fresh("MAIN MENU"@, 3),
            is_button(menu.items@[0], "play"@, "Play Game"@),
            goes_to(action_of(menu.items@[0].item_type), "gameplay"@),
            is_button(menu.items@[1], "settings"@, "Settings"@),
            goes_to(action_of(menu.items@[1].item_type), "settings"@),
            is_button(menu.items@[2], "quit"@, "Quit"@),
            action_of(menu.items@[2].item_type) == Some(MenuAction::<T>::Quit),
    {
        let mut menu = MenuSystem::new(MenuConfig::titled("MAIN MENU"));
        menu.add_item(
            MenuItem::new(
                "play",
                MenuItemType::Button {
                    text: "Play Game".to_owned(),
                    action: MenuAction::ChangeState("gameplay".to_owned()),
                },
            ),
        );
        menu.add_item(
            MenuItem::new(
                "settings",
                MenuItemType::Button {
                    text: "Settings".to_owned(),
                    action: MenuAction::ChangeState("settings".to_owned()),
                },
            ),
        );
        let ghost before = menu.items@;
        let item = MenuItem::new(
            "quit",
            MenuItemType::Button { text: "Quit".to_owned(), action: MenuAction::Quit },
        );
        menu.add_item(item);
        proof {
            lemma_layout_settles(before.push(item), menu.config);
        }
        menu
    }

    /// The menu of difficulties: easy, normal, hard, and back.
    pub fn create_difficulty_menu() -> (menu: Self)
        ensures
            menu.is_fresh("SELECT DIFFICULTY"@, 4),
            is_button(menu.items@[0], "easy"@, "Easy"@),
            asks_for(action_of(menu.items@[0].item_type), "difficulty_easy"@),
            is_button(menu.items@[1], "normal"@, "Normal"@),
            asks_for(action_of(menu.items@[1].item_type), "difficulty_normal"@),
            is_button(menu.items@[2], "hard"@, "Hard"@),
            asks_for(action_of(menu.items@[2].item_type), "difficulty_hard"@),
            is_button(menu.items@[3], "back"@, "Back"@),
            action_of(menu.items@[3].item_type) == Some(MenuAction::<T>::Back),
    {
        let mut menu = MenuSystem::new(MenuConfig::titled("SELECT DIFFICULTY"));
        menu.add_item(
            MenuItem::new(
                "easy",
                MenuItemType::Button {
                    text: "Easy".to_owned(),
                    action: MenuAction::Custom("difficulty_easy".to_owned()),
                },
            ),
        );
        menu.add_item(
            MenuItem::new(
                "normal",
                MenuItemType::Button {
                    text: "Normal".to_owned(),
                    action: MenuAction::Custom("difficulty_normal".to_owned()),
                },
            ),
        );
        menu.add_item(
            MenuItem::new(
                "hard",
                MenuItemType::Button {
                    text: "Hard".to_owned(),
                    action: MenuAction::Custom("difficulty_hard".to_owned()),
                },
            ),
        );
        let ghost before = menu.items@;
        let item = MenuItem::new(
            "back",
            MenuItemType::Button { text: "Back".to_owned(), action: MenuAction::Back },
        );
        menu.add_item(item);
        proof {
            lemma_layout_settles(before.push(item), menu.config);
        }
        menu
    }

    /// The menu of settings: music and sound effects, both switched on,
    /// the master volume at four fifths, and back.
    pub fn create_settings_menu() -> (menu: Self)
        ensures
            menu.is_fresh("SETTINGS"@, 4),
            is_toggle_on(menu.items@[0], "music"@, "Music"@, "music_enabled"@),
            is_toggle_on(menu.items@[1], "sound"@, "Sound Effects"@, "sound_enabled"@),
            is_volume(menu.items@[2]),
            is_button(menu.items@[3], "back"@, "Back"@),
            action_of(menu.items@[3].item_type) == Some(MenuAction::<T>::Back),
    {
        let mut menu = MenuSystem::new(MenuConfig::titled("SETTINGS"));
        menu.add_item(
            MenuItem::new(
                "music",
                MenuItemType::Toggle {
                    text: "Music".to_owned(),
                    value: true,
                    action: MenuAction::ToggleSetting("music_enabled".to_owned()),
                },
            ),
        );
        menu.add_item(
            MenuItem::new(
                "sound",
                MenuItemType::Toggle {
                    text: "Sound Effects".to_owned(),
                    value: true,
                    action: MenuAction::ToggleSetting("sound_enabled".to_owned()),
                },
            ),
        );
        menu.add_item(
            MenuItem::new(
                "volume",
                MenuItemType::Slider {
                    text: "Master Volume".to_owned(),
                    value: T::from_ratio(4, 5),
                    min: T::from_ratio(0, 1),
                    max: T::from_ratio(1, 1),
                    step: T::from_ratio(1, 10),
                    action: MenuAction::SetSetting("master_volume".to_owned(), T::from_ratio(4, 5)),
                },
            ),
        );
        let ghost before = menu.items@;
        let item = MenuItem::new(
            "back",
            MenuItemType::Button { text: "Back".to_owned(), action: MenuAction::Back },
        );
        menu.add_item(item);
        proof {
            lemma_layout_settles(before.push(item), menu.config);
        }
        menu
    }
}

/// Whether an item is the slider of the master volume: enabled, visible,
/// from nought to one in tenths, at four fifths.
pub open spec fn is_volume<T: Scalar>(item: MenuItem<T>) -> bool {
    &&& item.id@ == "volume"@
    &&& item.enabled
    &&& item.visible
    &&& item.item_type matches MenuItemType::Slider { text, value, min, max, step, action }
        && text@ == "Master Volume"@ && value == T::ratio(4, 5) && min == T::ratio(0, 1) && max
        == T::ratio(1, 1) && step == T::ratio(1, 10) && (action matches MenuAction::SetSetting(
        key,
        to,
    ) && key@ == "master_volume"@ && to == T::ratio(4, 5))
}

impl<T: Scalar> Default for MenuSystem<T> {
    fn default() -> (menu: Self)
        ensures
            menu.wf(),
            menu.config.title@.len() == 0,
            is_plain_look(menu.config),
            menu.items@.len() == 0,
            menu.selected_index == 0,
            menu.navigation_enabled,
    {
        MenuSystem::new(MenuConfig::default())
    }
}

/// Laying a menu out does not change which items can be selected, and
/// laying it out again changes nothing.
pub proof fn lemma_layout_settles<T: Scalar>(items: Seq<MenuItem<T>>, config: MenuConfig<T>)
    ensures
        flags_of(laid_out(items, config)) == flags_of(items),
        laid_out(laid_out(items, config), config) == laid_out(items, config),
{
    let once = laid_out(items, config);
    assert(flags_of(once) =~= flags_of(items));
    assert forall|i: int| 0 <= i <= items.len() implies row_of(once, config, i) == row_of(
        items,
        config,
        i,
    ) by {
        lemma_rows_agree(items, config, i);
    }
    assert(laid_out(once, config) =~= once);
}

/// The rows of a menu do not change when it is laid out.
proof fn lemma_rows_agree<T: Scalar>(items: Seq<MenuItem<T>>, config: MenuConfig<T>, place: int)
    requires
        0 <= place <= items.len(),
    ensures
        row_of(laid_out(items, config), config, place) == row_of(items, config, place),
    decreases place,
{
    if place > 0 {
        lemma_rows_agree(items, config, place - 1);
    }
}

} // verus!
