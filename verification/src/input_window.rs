//! The input snapshot of a tick: which keys are held, which went down or up
//! since the tick before, and where the pointer is.
//!
//! The snapshot is computed from what the windowing side reports as held;
//! nothing here asks the operating system.

use vstd::prelude::*;

verus! {

/// The keys the engine listens to.
#[derive(Debug, Clone, Copy, PartialEq, Eq, Hash, Structural)]
pub enum Key {
    W,
    A,
    S,
    D,
    Space,
    Escape,
    Enter,
    Q,
    Up,
    Down,
    Left,
    Right,
    Key1,
    Key2,
    Key3,
    NumPad1,
    NumPad2,
    NumPad3,
    R,
    Key4,
    Key5,
    Key6,
    Key7,
    Key8,
    Key9,
}

/// Mouse buttons.
#[derive(Debug, Clone, Copy, PartialEq, Eq, Hash, Structural)]
pub enum MouseButton {
    Left,
    Right,
    Middle,
}

impl Key {
    /// The key's number, from 0.
    pub open spec fn code(self) -> int {
        match self {
            Key::W => 0,
            Key::A => 1,
            Key::S => 2,
            Key::D => 3,
            Key::Space => 4,
            Key::Escape => 5,
            Key::Enter => 6,
            Key::Q => 7,
            Key::Up => 8,
            Key::Down => 9,
            Key::Left => 10,
            Key::Right => 11,
            Key::Key1 => 12,
            Key::Key2 => 13,
            Key::Key3 => 14,
            Key::NumPad1 => 15,
            Key::NumPad2 => 16,
            Key::NumPad3 => 17,
            Key::R => 18,
            Key::Key4 => 19,
            Key::Key5 => 20,
            Key::Key6 => 21,
            Key::Key7 => 22,
            Key::Key8 => 23,
            Key::Key9 => 24,
        }
    }

    /// The key's number, from 0.
    pub fn index(self) -> (code: u32)
        ensures
            code == self.code(),
            code < 25,
    {
        match self {
            Key::W => 0,
            Key::A => 1,
            Key::S => 2,
            Key::D => 3,
            Key::Space => 4,
            Key::Escape => 5,
            Key::Enter => 6,
            Key::Q => 7,
            Key::Up => 8,
            Key::Down => 9,
            Key::Left => 10,
            Key::Right => 11,
            Key::Key1 => 12,
            Key::Key2 => 13,
            Key::Key3 => 14,
            Key::NumPad1 => 15,
            Key::NumPad2 => 16,
            Key::NumPad3 => 17,
            Key::R => 18,
            Key::Key4 => 19,
            Key::Key5 => 20,
            Key::Key6 => 21,
            Key::Key7 => 22,
            Key::Key8 => 23,
            Key::Key9 => 24,
        }
    }
}

/// A set of keys.
#[derive(Debug, Clone, Copy, PartialEq, Eq, Structural)]
pub struct KeySet {
    bits: u32,
}

impl View for KeySet {
    type V = Set<Key>;

    closed spec fn view(&self) -> Set<Key> {
        Set::new(|k: Key| held_bit(self.bits, k.code() as u32))
    }
}

/// Whether bit `at` of `bits` is set.
spec fn held_bit(bits: u32, at: u32) -> bool {
    (bits >> at) & 1 == 1
}

impl KeySet {
    /// The empty set.
    pub fn new() -> (keys: KeySet)
        ensures
            keys@ == Set::<Key>::empty(),
    {
        let keys = KeySet { bits: 0 };
        proof {
            assert forall|k: Key| !keys@.contains(k) by {
                let at = k.code() as u32;
                assert(!((0u32 >> at) & 1 == 1)) by (bit_vector)
                    requires
                        at < 32,
                ;
            }
            assert(keys@ =~= Set::<Key>::empty());
        }
        keys
    }

    /// Whether `key` is in the set.
    pub fn contains(&self, key: Key) -> (yes: bool)
        ensures
            yes == self@.contains(key),
    {
        (self.bits >> key.index()) & 1 == 1
    }

    /// Puts `key` into the set.
    pub fn insert(&mut self, key: Key)
        ensures
            final(self)@ == old(self)@.insert(key),
    {
        let at = key.index();
        let before = self.bits;
        self.bits = before | (1u32 << at);
        proof {
            let after = self.bits;
            assert forall|k: Key| self@.contains(k) == old(self)@.insert(key).contains(k) by {
                let j = k.code() as u32;
                assert(((after >> j) & 1 == 1) == (((before >> j) & 1 == 1) || j == at))
                    by (bit_vector)
                    requires
                        after == before | (1u32 << at),
                        at < 32,
                        j < 32,
                ;
                assert((j == at) == (k == key));
            }
            assert(self@ =~= old(self)@.insert(key));
        }
    }

    /// The keys of this set that are not in `other`.
    pub fn difference(&self, other: &KeySet) -> (keys: KeySet)
        ensures
            keys@ == self@.difference(other@),
    {
        let a = self.bits;
        let b = other.bits;
        let keys = KeySet { bits: a & !b };
        proof {
            let c = keys.bits;
            assert forall|k: Key| keys@.contains(k) == self@.difference(other@).contains(k) by {
                let j = k.code() as u32;
                assert(((c >> j) & 1 == 1) == (((a >> j) & 1 == 1) && !((b >> j) & 1 == 1)))
                    by (bit_vector)
                    requires
                        c == a & !b,
                        j < 32,
                ;
            }
            assert(keys@ =~= self@.difference(other@));
        }
        keys
    }

    /// The set of the keys in `list`.
    pub fn from_keys(list: &Vec<Key>) -> (keys: KeySet)
        ensures
            keys@ == list@.to_set(),
    {
        let mut keys = KeySet::new();
        let mut i: usize = 0;
        while i < list.len()
            invariant
                0 <= i <= list.len(),
                keys@ == list@.subrange(0, i as int).to_set(),
            decreases list.len() - i,
        {
            keys.insert(list[i]);
            proof {
                let front = list@.subrange(0, i as int);
                let next = list@.subrange(0, i + 1);
                assert(next =~= front.push(list@[i as int]));
                assert forall|k: Key| next.to_set().contains(k) == front.to_set().insert(
                    list@[i as int],
                ).contains(k) by {
                    if next.to_set().contains(k) {
                        let n = choose|n: int| 0 <= n < next.len() && next[n] == k;
                        if n < i {
                            assert(front[n] == k);
                        }
                    }
                    if front.to_set().contains(k) {
                        let n = choose|n: int| 0 <= n < front.len() && front[n] == k;
                        assert(next[n] == k);
                    }
                    if k == list@[i as int] {
                        assert(next[i as int] == k);
                    }
                }
                assert(keys@ =~= next.to_set());
            }
            i = i + 1;
        }
        proof {
            assert(list@.subrange(0, list.len() as int) =~= list@);
        }
        keys
    }
}

/// Which mouse buttons are held.
#[derive(Debug, Clone, Copy, PartialEq, Eq, Structural)]
pub struct MouseButtons {
    pub left: bool,
    pub right: bool,
    pub middle: bool,
}

/// The input of one tick.
#[derive(Debug, Clone, Copy)]
pub struct WindowInputState {
    pub keys_pressed: KeySet,
    pub keys_just_pressed: KeySet,
    pub keys_just_released: KeySet,
    pub mouse_position: (i32, i32),
    pub mouse_delta: (i32, i32),
    pub mouse_buttons: MouseButtons,
    pub window_focused: bool,
    pub window_resized: Option<(usize, usize)>,
}

impl Default for WindowInputState {
    /// No key, no button, the pointer at the origin, the window focused.
    fn default() -> (state: WindowInputState)
        ensures
            state.keys_pressed@ == Set::<Key>::empty(),
            state.keys_just_pressed@ == Set::<Key>::empty(),
            state.keys_just_released@ == Set::<Key>::empty(),
            state.mouse_position == (0i32, 0i32),
            state.mouse_delta == (0i32, 0i32),
            state.mouse_buttons == (MouseButtons { left: false, right: false, middle: false }),
            state.window_focused,
            state.window_resized is None,
    {
        WindowInputState {
            keys_pressed: KeySet::new(),
            keys_just_pressed: KeySet::new(),
            keys_just_released: KeySet::new(),
            mouse_position: (0, 0),
            mouse_delta: (0, 0),
            mouse_buttons: MouseButtons { left: false, right: false, middle: false },
            window_focused: true,
            window_resized: None,
        }
    }
}

impl WindowInputState {
    /// Whether `key` is held.
    pub fn is_key_pressed(&self, key: Key) -> (yes: bool)
        ensures
            yes == self.keys_pressed@.contains(key),
    {
        self.keys_pressed.contains(key)
    }

    /// Whether `key` went down in this tick.
    pub fn is_key_just_pressed(&self, key: Key) -> (yes: bool)
        ensures
            yes == self.keys_just_pressed@.contains(key),
    {
        self.keys_just_pressed.contains(key)
    }

    /// Whether `key` went up in this tick.
    pub fn is_key_just_released(&self, key: Key) -> (yes: bool)
        ensures
            yes == self.keys_just_released@.contains(key),
    {
        self.keys_just_released.contains(key)
    }

    /// Whether `button` is held.
    pub fn is_mouse_button_pressed(&self, button: MouseButton) -> (yes: bool)
        ensures
            yes == match button {
                MouseButton::Left => self.mouse_buttons.left,
                MouseButton::Right => self.mouse_buttons.right,
                MouseButton::Middle => self.mouse_buttons.middle,
            },
    {
        match button {
            MouseButton::Left => self.mouse_buttons.left,
            MouseButton::Right => self.mouse_buttons.right,
            MouseButton::Middle => self.mouse_buttons.middle,
        }
    }

    /// The pointer's position.
    pub fn mouse_pos(&self) -> (position: (i32, i32))
        ensures
            position == self.mouse_position,
    {
        self.mouse_position
    }

    /// How far the pointer moved in this tick.
    pub fn mouse_delta(&self) -> (delta: (i32, i32))
        ensures
            delta == self.mouse_delta,
    {
        self.mouse_delta
    }

    /// Forgets what belongs to one tick only: the keys that went down or up,
    /// the pointer's movement, a resize.
    pub fn clear_frame_state(&mut self)
        ensures
            final(self).keys_just_pressed@ == Set::<Key>::empty(),
            final(self).keys_just_released@ == Set::<Key>::empty(),
            final(self).mouse_delta == (0i32, 0i32),
            final(self).window_resized is None,
            final(self).keys_pressed == old(self).keys_pressed,
            final(self).mouse_position == old(self).mouse_position,
            final(self).mouse_buttons == old(self).mouse_buttons,
            final(self).window_focused == old(self).window_focused,
    {
        self.keys_just_pressed = KeySet::new();
        self.keys_just_released = KeySet::new();
        self.mouse_delta = (0, 0);
        self.window_resized = None;
    }
}

/// Turns what is held, tick after tick, into input snapshots.
pub struct WindowInputManager {
    current_state: WindowInputState,
    previous_keys: KeySet,
    previous_mouse_pos: (i32, i32),
}

impl WindowInputManager {
    /// The snapshot of the latest tick.
    pub closed spec fn snapshot(&self) -> WindowInputState {
        self.current_state
    }

    /// The keys that were held in the latest tick.
    pub closed spec fn previous_keys(&self) -> Set<Key> {
        self.previous_keys@
    }

    /// Where the pointer was in the latest tick.
    pub closed spec fn previous_mouse_pos(&self) -> (i32, i32) {
        self.previous_mouse_pos
    }

    /// A manager that has seen no tick.
    pub fn new() -> (manager: WindowInputManager)
        ensures
            manager.previous_keys() == Set::<Key>::empty(),
            manager.previous_mouse_pos() == (0i32, 0i32),
            manager.snapshot().keys_pressed@ == Set::<Key>::empty(),
            manager.snapshot().keys_just_pressed@ == Set::<Key>::empty(),
            manager.snapshot().keys_just_released@ == Set::<Key>::empty(),
            manager.snapshot().mouse_position == (0i32, 0i32),
            manager.snapshot().mouse_delta == (0i32, 0i32),
            manager.snapshot().window_focused,
            manager.snapshot().window_resized is None,
    {
        WindowInputManager {
            current_state: WindowInputState::default(),
            previous_keys: KeySet::new(),
            previous_mouse_pos: (0, 0),
        }
    }

    /// Takes in the keys that are held now. A key is newly pressed when it
    /// is held now and was not held a tick ago, and newly released the other
    /// way round; the pointer's movement is measured from where it was a tick
    /// ago.
    pub fn update(&mut self, held: KeySet)
        requires
            i32::MIN <= old(self).snapshot().mouse_position.0 - old(self).previous_mouse_pos().0
                <= i32::MAX,
            i32::MIN <= old(self).snapshot().mouse_position.1 - old(self).previous_mouse_pos().1
                <= i32::MAX,
        ensures
            final(self).snapshot().keys_pressed@ == held@,
            final(self).snapshot().keys_just_pressed@ == held@.difference(
                old(self).previous_keys(),
            ),
            final(self).snapshot().keys_just_released@ == old(self).previous_keys().difference(
                held@,
            ),
            final(self).previous_keys() == held@,
            final(self).snapshot().mouse_position == old(self).snapshot().mouse_position,
            final(self).snapshot().mouse_delta.0 == old(self).snapshot().mouse_position.0 - old(
                self,
            ).previous_mouse_pos().0,
            final(self).snapshot().mouse_delta.1 == old(self).snapshot().mouse_position.1 - old(
                self,
            ).previous_mouse_pos().1,
            final(self).previous_mouse_pos() == old(self).snapshot().mouse_position,
            final(self).snapshot().mouse_buttons == old(self).snapshot().mouse_buttons,
            final(self).snapshot().window_focused,
            final(self).snapshot().window_resized is None,
    {
        self.current_state.clear_frame_state();
        self.current_state.keys_just_pressed = held.difference(&self.previous_keys);
        self.current_state.keys_just_released = self.previous_keys.difference(&held);
        self.current_state.keys_pressed = held;
        self.previous_keys = held;
        self.current_state.mouse_delta = (
            self.current_state.mouse_position.0 - self.previous_mouse_pos.0,
            self.current_state.mouse_position.1 - self.previous_mouse_pos.1,
        );
        self.previous_mouse_pos = self.current_state.mouse_position;
        self.current_state.window_focused = true;
    }

    /// Notes that the window was resized in this tick.
    pub fn handle_resize(&mut self, width: usize, height: usize)
        ensures
            final(self).snapshot() == (WindowInputState {
                window_resized: Some((width, height)),
                ..old(self).snapshot()
            }),
            final(self).previous_keys() == old(self).previous_keys(),
            final(self).previous_mouse_pos() == old(self).previous_mouse_pos(),
    {
        self.current_state.window_resized = Some((width, height));
    }

    /// Notes where the pointer is and which buttons are held.
    pub fn set_mouse(&mut self, position: (i32, i32), buttons: MouseButtons)
        ensures
            final(self).snapshot() == (WindowInputState {
                mouse_position: position,
                mouse_buttons: buttons,
                ..old(self).snapshot()
            }),
            final(self).previous_keys() == old(self).previous_keys(),
            final(self).previous_mouse_pos() == old(self).previous_mouse_pos(),
    {
        self.current_state.mouse_position = position;
        self.current_state.mouse_buttons = buttons;
    }

    /// The snapshot of the latest tick.
    pub fn state(&self) -> (state: &WindowInputState)
        ensures
            *state == self.snapshot(),
    {
        &self.current_state
    }

    /// The snapshot of the latest tick, to change it.
    pub fn state_mut(&mut self) -> (state: &mut WindowInputState)
        ensures
            *state == old(self).snapshot(),
            final(self).snapshot() == *final(state),
            final(self).previous_keys() == old(self).previous_keys(),
            final(self).previous_mouse_pos() == old(self).previous_mouse_pos(),
    {
        &mut self.current_state
    }

    /// Whether the player asks to quit: Escape or Q is held.
    pub fn should_quit(&self) -> (quit: bool)
        ensures
            quit == (self.snapshot().keys_pressed@.contains(Key::Escape)
                || self.snapshot().keys_pressed@.contains(Key::Q)),
    {
        self.current_state.is_key_pressed(Key::Escape) || self.current_state.is_key_pressed(Key::Q)
    }
}

/// Within one snapshot no key is both newly pressed and newly released, a
/// newly pressed key is held, and a newly released key is not.
pub proof fn lemma_edges_are_disjoint(before: Set<Key>, held: Set<Key>, key: Key)
    ensures
        !(held.difference(before).contains(key) && before.difference(held).contains(key)),
        held.difference(before).contains(key) ==> held.contains(key),
        before.difference(held).contains(key) ==> !held.contains(key),
{
}

/// How many keys there are.
pub const KEY_COUNT: usize = 25;

/// The key with the given number.
pub fn key_at(code: usize) -> (key: Key)
    requires
        code < KEY_COUNT,
    ensures
        key.code() == code,
{
    if code == 0 {
        Key::W
    } else if code == 1 {
        Key::A
    } else if code == 2 {
        Key::S
    } else if code == 3 {
        Key::D
    } else if code == 4 {
        Key::Space
    } else if code == 5 {
        Key::Escape
    } else if code == 6 {
        Key::Enter
    } else if code == 7 {
        Key::Q
    } else if code == 8 {
        Key::Up
    } else if code == 9 {
        Key::Down
    } else if code == 10 {
        Key::Left
    } else if code == 11 {
        Key::Right
    } else if code == 12 {
        Key::Key1
    } else if code == 13 {
        Key::Key2
    } else if code == 14 {
        Key::Key3
    } else if code == 15 {
        Key::NumPad1
    } else if code == 16 {
        Key::NumPad2
    } else if code == 17 {
        Key::NumPad3
    } else if code == 18 {
        Key::R
    } else if code == 19 {
        Key::Key4
    } else if code == 20 {
        Key::Key5
    } else if code == 21 {
        Key::Key6
    } else if code == 22 {
        Key::Key7
    } else if code == 23 {
        Key::Key8
    } else {
        Key::Key9
    }
}

/// Whether `states` says of `action` whether it is active.
pub open spec fn knows(states: Seq<(String, bool)>, action: Seq<char>) -> bool {
    exists|i: int| 0 <= i < states.len() && states[i].0@ == action
}

/// Whether `action` is active according to `states`; an action that is not
/// known is not active.
pub open spec fn active_in(states: Seq<(String, bool)>, action: Seq<char>) -> bool {
    exists|i: int| 0 <= i < states.len() && states[i].0@ == action && states[i].1
}

/// The states once `action` has been set to `active`.
pub open spec fn with_state(states: Seq<(String, bool)>, after: Seq<(String, bool)>, action: Seq<
    char,
>, active: bool) -> bool {
    &&& forall|other: Seq<char>| other != action ==> active_in(after, other) == active_in(states, other)
    &&& forall|other: Seq<char>| other != action ==> knows(after, other) == knows(states, other)
    &&& knows(after, action)
    &&& active_in(after, action) == active
}

/// No action has two states.
pub open spec fn states_distinct(states: Seq<(String, bool)>) -> bool {
    forall|i: int, j: int| 0 <= i < j < states.len() ==> states[i].0@ != states[j].0@
}

/// The states after the keys from number `from` on have been applied, in
/// the order of their numbers: each mapped key sets its action to whether the
/// key is held, so of two keys with one action the one with the higher number
/// decides.
pub open spec fn action_after_keys(
    mappings: Seq<Option<String>>,
    held: Set<Key>,
    before: bool,
    action: Seq<char>,
    upto: int,
) -> bool
    decreases upto,
{
    if upto <= 0 {
        before
    } else {
        let earlier = action_after_keys(mappings, held, before, action, upto - 1);
        match mappings[upto - 1] {
            Some(name) => if name@ == action {
                exists|key: Key| key.code() == upto - 1 && held.contains(key)
            } else {
                earlier
            },
            None => earlier,
        }
    }
}

/// Maps keys to named actions and keeps whether each action is active.
pub struct WindowInputMapper {
    key_mappings: Vec<Option<String>>,
    action_states: Vec<(String, bool)>,
}

impl WindowInputMapper {
    /// The action of each key, by the key's number.
    pub closed spec fn mappings(&self) -> Seq<Option<String>> {
        self.key_mappings@
    }

    /// The actions that are known, each with whether it is active.
    pub closed spec fn states(&self) -> Seq<(String, bool)> {
        self.action_states@
    }

    /// Every key has its place, and no action has two states.
    pub open spec fn wf(&self) -> bool {
        self.mappings().len() == KEY_COUNT && states_distinct(self.states())
    }

    /// The action that `key` is mapped to.
    pub open spec fn action_of(&self, key: Key) -> Option<Seq<char>> {
        match self.mappings()[key.code()] {
            Some(name) => Some(name@),
            None => None,
        }
    }

    /// A mapper with the usual keys: W, S, A and D move, Space acts, Escape
    /// pauses, Enter confirms. No action is known to be active yet.
    pub fn new() -> (mapper: WindowInputMapper)
        ensures
            mapper.wf(),
            mapper.states().len() == 0,
            mapper.action_of(Key::W) == Some("move_up"@),
            mapper.action_of(Key::S) == Some("move_down"@),
            mapper.action_of(Key::A) == Some("move_left"@),
            mapper.action_of(Key::D) == Some("move_right"@),
            mapper.action_of(Key::Space) == Some("action"@),
            mapper.action_of(Key::Escape) == Some("pause"@),
            mapper.action_of(Key::Enter) == Some("confirm"@),
            forall|key: Key| key.code() >= 7 ==> mapper.action_of(key) is None,
    {
        let mut key_mappings: Vec<Option<String>> = Vec::new();
        key_mappings.push(Some("move_up".to_owned()));
        key_mappings.push(Some("move_left".to_owned()));
        key_mappings.push(Some("move_down".to_owned()));
        key_mappings.push(Some("move_right".to_owned()));
        key_mappings.push(Some("action".to_owned()));
        key_mappings.push(Some("pause".to_owned()));
        key_mappings.push(Some("confirm".to_owned()));
        let mut code: usize = 7;
        while code < KEY_COUNT
            invariant
                7 <= code <= KEY_COUNT,
                key_mappings@.len() == code,
                key_mappings@[0] is Some && key_mappings@[0]->0@ == "move_up"@,
                key_mappings@[1] is Some && key_mappings@[1]->0@ == "move_left"@,
                key_mappings@[2] is Some && key_mappings@[2]->0@ == "move_down"@,
                key_mappings@[3] is Some && key_mappings@[3]->0@ == "move_right"@,
                key_mappings@[4] is Some && key_mappings@[4]->0@ == "action"@,
                key_mappings@[5] is Some && key_mappings@[5]->0@ == "pause"@,
                key_mappings@[6] is Some && key_mappings@[6]->0@ == "confirm"@,
                forall|k: int| 7 <= k < code ==> key_mappings@[k] is None,
            decreases KEY_COUNT - code,
        {
            key_mappings.push(None);
            code = code + 1;
        }
        WindowInputMapper { key_mappings, action_states: Vec::new() }
    }

    /// Maps `key` to `action`, in place of the action it was mapped to.
    pub fn map_key(&mut self, key: Key, action: String)
        requires
            old(self).wf(),
        ensures
            final(self).wf(),
            final(self).states() == old(self).states(),
            final(self).mappings() == old(self).mappings().update(key.code(), Some(action)),
    {
        let code = key.index() as usize;
        self.key_mappings[code] = Some(action);
    }

    /// Takes the mapping of `key` away.
    pub fn unmap_key(&mut self, key: Key)
        requires
            old(self).wf(),
        ensures
            final(self).wf(),
            final(self).states() == old(self).states(),
            final(self).mappings() == old(self).mappings().update(key.code(), None),
    {
        let code = key.index() as usize;
        self.key_mappings[code] = None;
    }

    /// The place of the state of `action`.
    fn find_state(&self, action: &String) -> (found: Option<usize>)
        ensures
            match found {
                Some(i) => i < self.states().len() && self.states()[i as int].0@ == action@,
                None => !knows(self.states(), action@),
            },
    {
        let mut i: usize = 0;
        while i < self.action_states.len()
            invariant
                0 <= i <= self.action_states.len(),
                forall|k: int| 0 <= k < i ==> self.states()[k].0@ != action@,
            decreases self.action_states.len() - i,
        {
            if self.action_states[i].0 == *action {
                return Some(i);
            }
            i = i + 1;
        }
        None
    }

    /// Sets whether `action` is active.
    fn set_state(&mut self, action: &String, active: bool)
        requires
            old(self).wf(),
        ensures
            final(self).wf(),
            final(self).mappings() == old(self).mappings(),
            with_state(old(self).states(), final(self).states(), action@, active),
    {
        match self.find_state(action) {
            Some(i) => {
                self.action_states[i] = (action.clone(), active);
                proof {
                    let before = old(self).states();
                    let after = self.states();
                    assert(after[i as int].0@ == action@);
                    assert forall|other: Seq<char>| other != action@ implies active_in(after, other)
                        == active_in(before, other) && knows(after, other) == knows(
                        before,
                        other,
                    ) by {
                        if active_in(after, other) {
                            let n = choose|n: int|
                                0 <= n < after.len() && after[n].0@ == other && after[n].1;
                            assert(before[n].0@ == other && before[n].1);
                        }
                        if active_in(before, other) {
                            let n = choose|n: int|
                                0 <= n < before.len() && before[n].0@ == other && before[n].1;
                            assert(after[n].0@ == other && after[n].1);
                        }
                        if knows(after, other) {
                            let n = choose|n: int| 0 <= n < after.len() && after[n].0@ == other;
                            assert(before[n].0@ == other);
                        }
                        if knows(before, other) {
                            let n = choose|n: int| 0 <= n < before.len() && before[n].0@ == other;
                            assert(after[n].0@ == other);
                        }
                    }
                    if active_in(after, action@) {
                        let n = choose|n: int|
                            0 <= n < after.len() && after[n].0@ == action@ && after[n].1;
                        if n != i {
                            assert(before[n].0@ == before[i as int].0@);
                        }
                    }
                    assert forall|a: int, b: int| 0 <= a < b < after.len() implies after[a].0@
                        != after[b].0@ by {
                        assert(before[a].0@ != before[b].0@);
                    }
                }
            },
            None => {
                self.action_states.push((action.clone(), active));
                proof {
                    let before = old(self).states();
                    let after = self.states();
                    let last = before.len() as int;
                    assert(after[last].0@ == action@ && after[last].1 == active);
                    assert forall|other: Seq<char>| other != action@ implies active_in(after, other)
                        == active_in(before, other) && knows(after, other) == knows(
                        before,
                        other,
                    ) by {
                        if active_in(after, other) {
                            let n = choose|n: int|
                                0 <= n < after.len() && after[n].0@ == other && after[n].1;
                            assert(before[n].0@ == other && before[n].1);
                        }
                        if active_in(before, other) {
                            let n = choose|n: int|
                                0 <= n < before.len() && before[n].0@ == other && before[n].1;
                            assert(after[n].0@ == other && after[n].1);
                        }
                        if knows(after, other) {
                            let n = choose|n: int| 0 <= n < after.len() && after[n].0@ == other;
                            assert(before[n].0@ == other);
                        }
                        if knows(before, other) {
                            let n = choose|n: int| 0 <= n < before.len() && before[n].0@ == other;
                            assert(after[n].0@ == other);
                        }
                    }
                    if active_in(after, action@) {
                        let n = choose|n: int|
                            0 <= n < after.len() && after[n].0@ == action@ && after[n].1;
                        if n < last {
                            assert(before[n].0@ == action@);
                        }
                    }
                }
            },
        }
    }

    /// Brings the actions up to the keys that are held: each mapped key, in
    /// the order of the keys' numbers, sets its action to whether the key is
    /// held. An action that no key is mapped to stays as it was.
    pub fn update(&mut self, input_state: &WindowInputState)
        requires
            old(self).wf(),
        ensures
            final(self).wf(),
            final(self).mappings() == old(self).mappings(),
            forall|action: Seq<char>|
                active_in(final(self).states(), action) == action_after_keys(
                    old(self).mappings(),
                    input_state.keys_pressed@,
                    active_in(old(self).states(), action),
                    action,
                    KEY_COUNT as int,
                ),
    {
        let mut code: usize = 0;
        while code < KEY_COUNT
            invariant
                0 <= code <= KEY_COUNT,
                self.wf(),
                self.mappings() == old(self).mappings(),
                forall|action: Seq<char>|
                    active_in(self.states(), action) == action_after_keys(
                        old(self).mappings(),
                        input_state.keys_pressed@,
                        active_in(old(self).states(), action),
                        action,
                        code as int,
                    ),
            decreases KEY_COUNT - code,
        {
            let ghost before = self.states();
            let key = key_at(code);
            let held = input_state.is_key_pressed(key);
            let mut name: Option<String> = None;
            match &self.key_mappings[code] {
                Some(action) => {
                    name = Some(action.clone());
                },
                None => {},
            }
            match name {
                Some(action) => {
                    self.set_state(&action, held);
                    proof {
                        assert forall|other: Key| other.code() == code implies other == key by {}
                        assert(held == exists|k: Key|
                            k.code() == code && input_state.keys_pressed@.contains(k)) by {
                            if held {
                                assert(key.code() == code && input_state.keys_pressed@.contains(key));
                            }
                        }
                    }
                },
                None => {},
            }
            code = code + 1;
        }
    }

    /// Whether `action` is active.
    pub fn is_action_active(&self, action: &str) -> (active: bool)
        requires
            self.wf(),
        ensures
            active == active_in(self.states(), action@),
    {
        let wanted: String = action.to_owned();
        match self.find_state(&wanted) {
            Some(i) => {
                proof {
                    if active_in(self.states(), action@) {
                        let n = choose|n: int|
                            0 <= n < self.states().len() && self.states()[n].0@ == action@
                                && self.states()[n].1;
                        if n < i {
                            assert(self.states()[n].0@ != self.states()[i as int].0@);
                        } else if n > i {
                            assert(self.states()[i as int].0@ != self.states()[n].0@);
                        }
                    }
                }
                self.action_states[i].1
            },
            None => false,
        }
    }

    /// The actions that are active, in the order in which they became
    /// known.
    pub fn get_active_actions(&self) -> (actions: Vec<String>)
        ensures
            Seq::new(actions@.len(), |i: int| actions@[i]@) == active_names(self.states()),
    {
        let mut actions: Vec<String> = Vec::new();
        let mut i: usize = 0;
        while i < self.action_states.len()
            invariant
                0 <= i <= self.action_states.len(),
                Seq::new(actions@.len(), |k: int| actions@[k]@) == active_names(
                    self.states().subrange(0, i as int),
                ),
            decreases self.action_states.len() - i,
        {
            let ghost before = Seq::new(actions@.len(), |k: int| actions@[k]@);
            proof {
                let next = self.states().subrange(0, i + 1);
                assert(next.drop_last() =~= self.states().subrange(0, i as int));
                assert(next.last() == self.states()[i as int]);
            }
            if self.action_states[i].1 {
                actions.push(self.action_states[i].0.clone());
                proof {
                    let after = Seq::new(actions@.len(), |k: int| actions@[k]@);
                    assert(after =~= before.push(self.states()[i as int].0@));
                }
            }
            i = i + 1;
        }
        proof {
            assert(self.states().subrange(0, self.states().len() as int) =~= self.states());
        }
        actions
    }
}

/// The names of the actions that are active, in the order of `states`.
pub open spec fn active_names(states: Seq<(String, bool)>) -> Seq<Seq<char>>
    decreases states.len(),
{
    if states.len() == 0 {
        Seq::empty()
    } else if states.last().1 {
        active_names(states.drop_last()).push(states.last().0@)
    } else {
        active_names(states.drop_last())
    }
}

/// A game controller: movement and buttons as named actions.
pub struct WindowGameController {
    input_mapper: WindowInputMapper,
}

/// The movement along one axis: one step back where only the backward
/// action is active, one step forward where only the forward action is, none
/// where both or neither are.
pub open spec fn axis(backward: bool, forward: bool) -> int {
    (if forward {
        1int
    } else {
        0int
    }) - (if backward {
        1int
    } else {
        0int
    })
}

impl WindowGameController {
    /// The mapper the controller reads its actions from.
    pub closed spec fn mapper(&self) -> WindowInputMapper {
        self.input_mapper
    }

    /// A controller with the usual keys.
    pub fn new() -> (controller: WindowGameController)
        ensures
            controller.mapper().wf(),
            controller.mapper().states().len() == 0,
    {
        WindowGameController { input_mapper: WindowInputMapper::new() }
    }

    /// Brings the controller up to the keys that are held.
    pub fn update(&mut self, input_state: &WindowInputState)
        requires
            old(self).mapper().wf(),
        ensures
            final(self).mapper().wf(),
            final(self).mapper().mappings() == old(self).mapper().mappings(),
            forall|action: Seq<char>|
                active_in(final(self).mapper().states(), action) == action_after_keys(
                    old(self).mapper().mappings(),
                    input_state.keys_pressed@,
                    active_in(old(self).mapper().states(), action),
                    action,
                    KEY_COUNT as int,
                ),
    {
        self.input_mapper.update(input_state);
    }

    /// The direction of movement: for each axis -1, 0 or 1. Left and up
    /// count backward, right and down forward.
    pub fn get_movement_vector(&self) -> (direction: (i32, i32))
        requires
            self.mapper().wf(),
        ensures
            direction.0 == axis(
                active_in(self.mapper().states(), "move_left"@),
                active_in(self.mapper().states(), "move_right"@),
            ),
            direction.1 == axis(
                active_in(self.mapper().states(), "move_up"@),
                active_in(self.mapper().states(), "move_down"@),
            ),
    {
        let mut x: i32 = 0;
        let mut y: i32 = 0;
        if self.input_mapper.is_action_active("move_left") {
            x = x - 1;
        }
        if self.input_mapper.is_action_active("move_right") {
            x = x + 1;
        }
        if self.input_mapper.is_action_active("move_up") {
            y = y - 1;
        }
        if self.input_mapper.is_action_active("move_down") {
            y = y + 1;
        }
        (x, y)
    }

    /// Whether the action button is held.
    pub fn is_action_pressed(&self) -> (pressed: bool)
        requires
            self.mapper().wf(),
        ensures
            pressed == active_in(self.mapper().states(), "action"@),
    {
        self.input_mapper.is_action_active("action")
    }

    /// Whether the pause button is held.
    pub fn is_pause_pressed(&self) -> (pressed: bool)
        requires
            self.mapper().wf(),
        ensures
            pressed == active_in(self.mapper().states(), "pause"@),
    {
        self.input_mapper.is_action_active("pause")
    }

    /// Whether the confirm button is held.
    pub fn is_confirm_pressed(&self) -> (pressed: bool)
        requires
            self.mapper().wf(),
        ensures
            pressed == active_in(self.mapper().states(), "confirm"@),
    {
        self.input_mapper.is_action_active("confirm")
    }

    /// The mapper, to change the keys.
    pub fn input_mapper(&mut self) -> (mapper: &mut WindowInputMapper)
        ensures
            *mapper == old(self).mapper(),
            final(self).mapper() == *final(mapper),
    {
        &mut self.input_mapper
    }
}

} // verus!
