//! Menus: which item is selected and how the selection moves.
//!
//! The selection is stated over which of the items of a menu can be
//! selected. The items themselves, and the menu that holds them in a
//! column, have modules of their own.

use vstd::prelude::*;
use crate::input_window::Key;
use crate::input_window::WindowInputState;

pub mod items;
pub mod menu_items;
pub mod system;

pub use items::{MenuAction, MenuConfig, MenuItem, MenuItemType, MenuSetting};
pub use system::MenuSystem;

verus! {

/// The place that lies `steps` places after `from` in a ring of `count`
/// places.
pub open spec fn ring_after(from: int, steps: int, count: int) -> int {
    (from + steps) % count
}

/// The place that lies `steps` places before `from` in a ring of `count`
/// places.
pub open spec fn ring_before(from: int, steps: int, count: int) -> int {
    (from - steps + count) % count
}

/// Whether the item `steps` places after `from` is the first selectable
/// item after `from`.
pub open spec fn next_at(selectable: Seq<bool>, from: int, steps: int) -> bool {
    &&& 1 <= steps < selectable.len()
    &&& selectable[ring_after(from, steps, selectable.len() as int)]
    &&& forall|k: int|
        1 <= k < steps ==> !selectable[#[trigger] ring_after(from, k, selectable.len() as int)]
}

/// Whether the item `steps` places before `from` is the first selectable
/// item before `from`.
pub open spec fn previous_at(selectable: Seq<bool>, from: int, steps: int) -> bool {
    &&& 1 <= steps < selectable.len()
    &&& selectable[ring_before(from, steps, selectable.len() as int)]
    &&& forall|k: int|
        1 <= k < steps ==> !selectable[#[trigger] ring_before(from, k, selectable.len() as int)]
}

/// The selection after a step forward: the first selectable item after the
/// selected one, going round the menu; the selected one where there is no
/// other.
pub open spec fn next_of(selectable: Seq<bool>, selected: int) -> int {
    if exists|steps: int| next_at(selectable, selected, steps) {
        ring_after(
            selected,
            choose|steps: int| next_at(selectable, selected, steps),
            selectable.len() as int,
        )
    } else {
        selected
    }
}

/// The selection after a step back: the first selectable item before the
/// selected one, going round the menu; the selected one where there is no
/// other.
pub open spec fn previous_of(selectable: Seq<bool>, selected: int) -> int {
    if exists|steps: int| previous_at(selectable, selected, steps) {
        ring_before(
            selected,
            choose|steps: int| previous_at(selectable, selected, steps),
            selectable.len() as int,
        )
    } else {
        selected
    }
}

/// Whether `at` is the first selectable item of the menu.
pub open spec fn first_selectable_at(selectable: Seq<bool>, at: int) -> bool {
    &&& 0 <= at < selectable.len()
    &&& selectable[at]
    &&& forall|k: int| 0 <= k < at ==> !selectable[k]
}

/// A valid selection for a menu: nil for an empty menu; the selection as it
/// is where it points to a selectable item; else the first selectable item,
/// and the selection as it is where no item can be selected.
pub open spec fn clamped(selectable: Seq<bool>, selected: int) -> int {
    if selectable.len() == 0 {
        0
    } else if 0 <= selected < selectable.len() && selectable[selected] {
        selected
    } else if exists|at: int| first_selectable_at(selectable, at) {
        choose|at: int| first_selectable_at(selectable, at)
    } else {
        selected
    }
}

/// The selection of a menu.
pub struct MenuSelection {
    /// For each item whether it can be selected.
    pub selectable: Vec<bool>,
    /// The place of the selected item.
    pub selected_index: usize,
    /// Whether the keys move the selection.
    pub navigation_enabled: bool,
}

impl MenuSelection {
    /// The selection of an empty menu, with navigation enabled.
    pub fn new() -> (selection: MenuSelection)
        ensures
            selection.selectable@.len() == 0,
            selection.selected_index == 0,
            selection.navigation_enabled,
    {
        MenuSelection { selectable: Vec::new(), selected_index: 0, navigation_enabled: true }
    }

    /// Moves the selection to the next selectable item, going round the
    /// menu. Nothing moves where navigation is disabled, the menu is empty,
    /// or no other item can be selected.
    pub fn select_next(&mut self)
        requires
            old(self).navigation_enabled && old(self).selectable@.len() > 0 ==> old(
                self,
            ).selected_index < old(self).selectable@.len(),
        ensures
            final(self).selectable == old(self).selectable,
            final(self).navigation_enabled == old(self).navigation_enabled,
            final(self).selected_index == (if old(self).navigation_enabled && old(
                self,
            ).selectable@.len() > 0 {
                next_of(old(self).selectable@, old(self).selected_index as int)
            } else {
                old(self).selected_index as int
            }),
    {
        if !self.navigation_enabled || self.selectable.len() == 0 {
            return ;
        }
        let count = self.selectable.len();
        let start = self.selected_index;
        let mut next_index = start;
        let mut steps: usize = 0;
        proof {
            vstd::arithmetic::div_mod::lemma_small_mod(start as nat, count as nat);
        }
        loop
            invariant_except_break
                count == self.selectable@.len(),
                count > 0,
                start == self.selected_index,
                start < count,
                *self == *old(self),
                0 <= steps < count,
                next_index == ring_after(start as int, steps as int, count as int),
                forall|k: int|
                    1 <= k <= steps ==> !self.selectable@[#[trigger] ring_after(
                        start as int,
                        k,
                        count as int,
                    )],
            ensures
                self.selectable == old(self).selectable,
                self.navigation_enabled == old(self).navigation_enabled,
                self.selected_index == next_of(old(self).selectable@, old(self).selected_index as int),
            decreases count - steps,
        {
            proof {
                lemma_ring_step(start as int, steps as int, count as int);
            }
            next_index = (next_index + 1) % count;
            steps = steps + 1;
            if next_index == start {
                proof {
                    lemma_ring_full_turn(start as int, steps as int, count as int);
                    assert forall|s: int| !next_at(self.selectable@, start as int, s) by {
                        if 1 <= s < count {
                            assert(!self.selectable@[ring_after(start as int, s, count as int)]);
                        }
                    }
                }
                break ;
            }
            proof {
                lemma_ring_full_turn(start as int, steps as int, count as int);
            }
            if self.selectable[next_index] {
                proof {
                    assert(next_at(self.selectable@, start as int, steps as int));
                    let chosen = choose|s: int| next_at(self.selectable@, start as int, s);
                    if chosen < steps {
                        assert(!self.selectable@[ring_after(start as int, chosen, count as int)]);
                    } else if chosen > steps {
                        assert(!self.selectable@[ring_after(start as int, steps as int, count as int)]);
                    }
                }
                self.selected_index = next_index;
                break ;
            }
        }
    }

    /// Moves the selection to the previous selectable item, going round
    /// the menu. Nothing moves where navigation is disabled, the menu is
    /// empty, or no other item can be selected.
    pub fn select_previous(&mut self)
        requires
            old(self).navigation_enabled && old(self).selectable@.len() > 0 ==> old(
                self,
            ).selected_index < old(self).selectable@.len(),
        ensures
            final(self).selectable == old(self).selectable,
            final(self).navigation_enabled == old(self).navigation_enabled,
            final(self).selected_index == (if old(self).navigation_enabled && old(
                self,
            ).selectable@.len() > 0 {
                previous_of(old(self).selectable@, old(self).selected_index as int)
            } else {
                old(self).selected_index as int
            }),
    {
        if !self.navigation_enabled || self.selectable.len() == 0 {
            return ;
        }
        let count = self.selectable.len();
        let start = self.selected_index;
        let mut prev_index = start;
        let mut steps: usize = 0;
        proof {
            vstd::arithmetic::div_mod::lemma_mod_sub_multiples_vanish(start + count, count as int);
            vstd::arithmetic::div_mod::lemma_small_mod(start as nat, count as nat);
        }
        loop
            invariant_except_break
                count == self.selectable@.len(),
                count > 0,
                start == self.selected_index,
                start < count,
                *self == *old(self),
                0 <= steps < count,
                prev_index == ring_before(start as int, steps as int, count as int),
                forall|k: int|
                    1 <= k <= steps ==> !self.selectable@[#[trigger] ring_before(
                        start as int,
                        k,
                        count as int,
                    )],
            ensures
                self.selectable == old(self).selectable,
                self.navigation_enabled == old(self).navigation_enabled,
                self.selected_index == previous_of(
                    old(self).selectable@,
                    old(self).selected_index as int,
                ),
            decreases count - steps,
        {
            proof {
                lemma_ring_step_back(start as int, steps as int, count as int);
            }
            prev_index = if prev_index == 0 {
                count - 1
            } else {
                prev_index - 1
            };
            steps = steps + 1;
            if prev_index == start {
                proof {
                    lemma_ring_full_turn_back(start as int, steps as int, count as int);
                    assert forall|s: int| !previous_at(self.selectable@, start as int, s) by {
                        if 1 <= s < count {
                            assert(!self.selectable@[ring_before(start as int, s, count as int)]);
                        }
                    }
                }
                break ;
            }
            proof {
                lemma_ring_full_turn_back(start as int, steps as int, count as int);
            }
            if self.selectable[prev_index] {
                proof {
                    assert(previous_at(self.selectable@, start as int, steps as int));
                    let chosen = choose|s: int| previous_at(self.selectable@, start as int, s);
                    if chosen < steps {
                        assert(!self.selectable@[ring_before(start as int, chosen, count as int)]);
                    } else if chosen > steps {
                        assert(!self.selectable@[ring_before(
                            start as int,
                            steps as int,
                            count as int,
                        )]);
                    }
                }
                self.selected_index = prev_index;
                break ;
            }
        }
    }

    /// Selects the item at `index` where there is one and it can be
    /// selected.
    pub fn select_index(&mut self, index: usize)
        ensures
            final(self).selectable == old(self).selectable,
            final(self).navigation_enabled == old(self).navigation_enabled,
            final(self).selected_index == (if index < old(self).selectable@.len() && old(
                self,
            ).selectable@[index as int] {
                index
            } else {
                old(self).selected_index
            }),
    {
        if index < self.selectable.len() && self.selectable[index] {
            self.selected_index = index;
        }
    }

    /// Makes the selection valid again after the items have changed.
    pub fn clamp_selection(&mut self)
        ensures
            final(self).selectable == old(self).selectable,
            final(self).navigation_enabled == old(self).navigation_enabled,
            final(self).selected_index == clamped(
                old(self).selectable@,
                old(self).selected_index as int,
            ),
    {
        if self.selectable.len() == 0 {
            self.selected_index = 0;
            return ;
        }
        if self.selected_index >= self.selectable.len() || !self.selectable[self.selected_index] {
            let mut index: usize = 0;
            while index < self.selectable.len()
                invariant
                    0 <= index <= self.selectable.len(),
                    *self == *old(self),
                    self.selectable@.len() > 0,
                    self.selected_index >= self.selectable@.len()
                        || !self.selectable@[self.selected_index as int],
                    forall|k: int| 0 <= k < index ==> !self.selectable@[k],
                decreases self.selectable.len() - index,
            {
                if self.selectable[index] {
                    proof {
                        assert(first_selectable_at(self.selectable@, index as int));
                        let chosen = choose|at: int| first_selectable_at(self.selectable@, at);
                        if chosen < index {
                            assert(!self.selectable@[chosen]);
                        } else if chosen > index {
                            assert(!self.selectable@[index as int]);
                        }
                    }
                    self.selected_index = index;
                    return ;
                }
                index = index + 1;
            }
            proof {
                assert forall|at: int| !first_selectable_at(self.selectable@, at) by {
                    if 0 <= at < self.selectable@.len() {
                        assert(!self.selectable@[at]);
                    }
                }
            }
        }
    }

    /// Whether the selected item can be selected: it exists and is
    /// selectable.
    pub fn has_selection(&self) -> (yes: bool)
        ensures
            yes == (self.selected_index < self.selectable@.len()
                && self.selectable@[self.selected_index as int]),
    {
        self.selected_index < self.selectable.len() && self.selectable[self.selected_index]
    }

    /// Takes the keys of a tick: Down and Up move the selection, then a
    /// number key from 1 to 9 selects the item of that number, the lowest
    /// number first. Returns whether Enter or Space asks to activate the
    /// selected item, which is judged before the number keys are.
    pub fn handle_input(&mut self, input_state: &WindowInputState) -> (activate: bool)
        requires
            old(self).navigation_enabled && old(self).selectable@.len() > 0 ==> old(
                self,
            ).selected_index < old(self).selectable@.len(),
        ensures
            final(self).selectable == old(self).selectable,
            final(self).navigation_enabled == old(self).navigation_enabled,
            !old(self).navigation_enabled ==> !activate && final(self).selected_index == old(
                self,
            ).selected_index,
            old(self).navigation_enabled ==> activate == (input_state.keys_just_pressed@.contains(
                Key::Enter,
            ) || input_state.keys_just_pressed@.contains(Key::Space)),
            old(self).navigation_enabled ==> final(self).selected_index == after_number_keys(
                old(self).selectable@,
                after_arrows(old(self).selectable@, old(self).selected_index as int, *input_state),
                *input_state,
                0,
            ),
    {
        if !self.navigation_enabled {
            return false;
        }
        if input_state.is_key_just_pressed(Key::Down) {
            self.select_next();
        } else if input_state.is_key_just_pressed(Key::Up) {
            self.select_previous();
        }
        let activate = input_state.is_key_just_pressed(Key::Enter) || input_state.is_key_just_pressed(
            Key::Space,
        );
        let ghost moved = self.selected_index as int;
        let mut i: usize = 0;
        while i < 9
            invariant
                0 <= i <= 9,
                self.selectable == old(self).selectable,
                self.navigation_enabled == old(self).navigation_enabled,
                old(self).navigation_enabled,
                activate == (input_state.keys_just_pressed@.contains(Key::Enter)
                    || input_state.keys_just_pressed@.contains(Key::Space)),
                moved == after_arrows(
                    old(self).selectable@,
                    old(self).selected_index as int,
                    *input_state,
                ),
                self.selected_index == moved,
                after_number_keys(self.selectable@, moved, *input_state, 0) == after_number_keys(
                    self.selectable@,
                    moved,
                    *input_state,
                    i as int,
                ),
            decreases 9 - i,
        {
            let key = number_key(i);
            if input_state.is_key_just_pressed(key) {
                self.select_index(i);
                return activate;
            }
            i = i + 1;
        }
        activate
    }
}

/// The key with the number `index + 1`.
pub open spec fn number_key_of(index: int) -> Key {
    if index == 0 {
        Key::Key1
    } else if index == 1 {
        Key::Key2
    } else if index == 2 {
        Key::Key3
    } else if index == 3 {
        Key::Key4
    } else if index == 4 {
        Key::Key5
    } else if index == 5 {
        Key::Key6
    } else if index == 6 {
        Key::Key7
    } else if index == 7 {
        Key::Key8
    } else {
        Key::Key9
    }
}

/// The key with the number `index + 1`.
pub fn number_key(index: usize) -> (key: Key)
    requires
        index < 9,
    ensures
        key == number_key_of(index as int),
{
    if index == 0 {
        Key::Key1
    } else if index == 1 {
        Key::Key2
    } else if index == 2 {
        Key::Key3
    } else if index == 3 {
        Key::Key4
    } else if index == 4 {
        Key::Key5
    } else if index == 5 {
        Key::Key6
    } else if index == 6 {
        Key::Key7
    } else if index == 7 {
        Key::Key8
    } else {
        Key::Key9
    }
}

/// The selection after the arrow keys of a tick: Down steps forward, else
/// Up steps back.
pub open spec fn after_arrows(selectable: Seq<bool>, selected: int, input: WindowInputState) -> int {
    if selectable.len() == 0 {
        selected
    } else if input.keys_just_pressed@.contains(Key::Down) {
        next_of(selectable, selected)
    } else if input.keys_just_pressed@.contains(Key::Up) {
        previous_of(selectable, selected)
    } else {
        selected
    }
}

/// The selection after the number keys from `from + 1` on: the lowest
/// number key that went down selects its item where that can be selected,
/// and ends the matter either way.
pub open spec fn after_number_keys(
    selectable: Seq<bool>,
    selected: int,
    input: WindowInputState,
    from: int,
) -> int
    decreases 9 - from,
{
    if from >= 9 || from < 0 {
        selected
    } else if input.keys_just_pressed@.contains(number_key_of(from)) {
        if from < selectable.len() && selectable[from] {
            from
        } else {
            selected
        }
    } else {
        after_number_keys(selectable, selected, input, from + 1)
    }
}

/// One place further round the ring.
pub proof fn lemma_ring_step(from: int, steps: int, count: int)
    requires
        0 <= from < count,
        0 <= steps,
    ensures
        (ring_after(from, steps, count) + 1) % count == ring_after(from, steps + 1, count),
        0 <= ring_after(from, steps, count) < count,
{
    let a = from + steps;
    let q = a / count;
    let r = a % count;
    vstd::arithmetic::div_mod::lemma_fundamental_div_mod(a, count);
    vstd::arithmetic::div_mod::lemma_mod_bound(a, count);
    if r + 1 < count {
        assert(a + 1 == q * count + (r + 1)) by (nonlinear_arith)
            requires
                a == count * q + r,
        ;
        vstd::arithmetic::div_mod::lemma_fundamental_div_mod_converse(a + 1, count, q, r + 1);
        vstd::arithmetic::div_mod::lemma_small_mod((r + 1) as nat, count as nat);
    } else {
        assert(a + 1 == (q + 1) * count + 0) by (nonlinear_arith)
            requires
                a == count * q + r,
                r + 1 == count,
        ;
        vstd::arithmetic::div_mod::lemma_fundamental_div_mod_converse(a + 1, count, q + 1, 0);
        vstd::arithmetic::div_mod::lemma_mod_self_0(count);
    }
}

/// After fewer steps than the ring has places one is not back at the start,
/// and after as many one is.
pub proof fn lemma_ring_full_turn(from: int, steps: int, count: int)
    requires
        0 <= from < count,
        1 <= steps <= count,
    ensures
        0 <= ring_after(from, steps, count) < count,
        (ring_after(from, steps, count) == from) == (steps == count),
{
    vstd::arithmetic::div_mod::lemma_mod_bound(from + steps, count);
    if from + steps < count {
        vstd::arithmetic::div_mod::lemma_small_mod((from + steps) as nat, count as nat);
    } else {
        vstd::arithmetic::div_mod::lemma_mod_sub_multiples_vanish(from + steps, count);
        vstd::arithmetic::div_mod::lemma_small_mod((from + steps - count) as nat, count as nat);
    }
}

/// One place further back round the ring.
pub proof fn lemma_ring_step_back(from: int, steps: int, count: int)
    requires
        0 <= from < count,
        0 <= steps < count,
    ensures
        0 <= ring_before(from, steps, count) < count,
        ring_before(from, steps + 1, count) == (if ring_before(from, steps, count) == 0 {
            count - 1
        } else {
            ring_before(from, steps, count) - 1
        }),
{
    let a = from - steps + count;
    vstd::arithmetic::div_mod::lemma_mod_bound(a, count);
    if a < count {
        vstd::arithmetic::div_mod::lemma_small_mod(a as nat, count as nat);
        if a == 0 {
            assert(false);
        }
        vstd::arithmetic::div_mod::lemma_small_mod((a - 1) as nat, count as nat);
    } else {
        vstd::arithmetic::div_mod::lemma_mod_sub_multiples_vanish(a, count);
        vstd::arithmetic::div_mod::lemma_small_mod((a - count) as nat, count as nat);
        if a - count == 0 {
            vstd::arithmetic::div_mod::lemma_small_mod((count - 1) as nat, count as nat);
        } else {
            vstd::arithmetic::div_mod::lemma_mod_sub_multiples_vanish(a - 1, count);
            vstd::arithmetic::div_mod::lemma_small_mod((a - 1 - count) as nat, count as nat);
        }
    }
}

/// Going back, after fewer steps than the ring has places one is not back
/// at the start, and after as many one is.
pub proof fn lemma_ring_full_turn_back(from: int, steps: int, count: int)
    requires
        0 <= from < count,
        1 <= steps <= count,
    ensures
        0 <= ring_before(from, steps, count) < count,
        (ring_before(from, steps, count) == from) == (steps == count),
{
    let a = from - steps + count;
    vstd::arithmetic::div_mod::lemma_mod_bound(a, count);
    if a < count {
        vstd::arithmetic::div_mod::lemma_small_mod(a as nat, count as nat);
    } else {
        vstd::arithmetic::div_mod::lemma_mod_sub_multiples_vanish(a, count);
        vstd::arithmetic::div_mod::lemma_small_mod((a - count) as nat, count as nat);
    }
}

} // verus!
