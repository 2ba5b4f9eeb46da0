//! Named input actions.

use vstd::prelude::*;
use crate::input_window::Key;
use crate::input_window::KeySet;

verus! {

/// The actions an entity answers to.
pub struct InputMapping {
    pub actions: Vec<String>,
}

impl InputMapping {
    /// No action is named twice.
    pub open spec fn wf(&self) -> bool {
        forall|i: int, j: int|
            0 <= i < j < self.actions@.len() ==> self.actions@[i]@ != self.actions@[j]@
    }

    /// Whether `action` is among the names.
    pub open spec fn has(&self, action: Seq<char>) -> bool {
        exists|i: int| 0 <= i < self.actions@.len() && self.actions@[i]@ == action
    }

    /// A mapping without actions.
    pub fn new() -> (mapping: InputMapping)
        ensures
            mapping.wf(),
            mapping.actions@.len() == 0,
    {
        InputMapping { actions: Vec::new() }
    }

    /// Whether the entity answers to `action`.
    pub fn contains(&self, action: &str) -> (yes: bool)
        ensures
            yes == self.has(action@),
    {
        let wanted: String = action.to_owned();
        let mut i: usize = 0;
        while i < self.actions.len()
            invariant
                0 <= i <= self.actions.len(),
                wanted@ == action@,
                forall|k: int| 0 <= k < i ==> self.actions@[k]@ != action@,
            decreases self.actions.len() - i,
        {
            if self.actions[i] == wanted {
                return true;
            }
            i = i + 1;
        }
        false
    }

    /// Adds `action` unless it is there already; says whether it was added.
    pub fn insert(&mut self, action: &str) -> (added: bool)
        requires
            old(self).wf(),
        ensures
            final(self).wf(),
            added == !old(self).has(action@),
            final(self).has(action@),
            forall|other: Seq<char>| other != action@ ==> final(self).has(other) == old(self).has(other),
            added ==> final(self).actions@.len() == old(self).actions@.len() + 1,
            !added ==> final(self).actions@ == old(self).actions@,
    {
        if self.contains(action) {
            return false;
        }
        self.actions.push(action.to_owned());
        proof {
            let last = old(self).actions@.len() as int;
            assert(self.actions@[last]@ == action@);
            assert forall|other: Seq<char>| other != action@ implies self.has(other) == old(
                self,
            ).has(other) by {
                if old(self).has(other) {
                    let i = choose|i: int|
                        0 <= i < old(self).actions@.len() && old(self).actions@[i]@ == other;
                    assert(self.actions@[i]@ == other);
                }
                if self.has(other) {
                    let i = choose|i: int| 0 <= i < self.actions@.len() && self.actions@[i]@ == other;
                    assert(i < last);
                    assert(old(self).actions@[i]@ == other);
                }
            }
        }
        true
    }
}

/// The keys that are held.
pub struct InputManager {
    pub pressed_keys: KeySet,
}

impl InputManager {
    /// A manager that holds no key.
    pub fn new() -> (manager: InputManager)
        ensures
            manager.pressed_keys@ == Set::<Key>::empty(),
    {
        InputManager { pressed_keys: KeySet::new() }
    }

    /// Ends a tick. The held keys stay as they are: whoever watches the
    /// keyboard sets them.
    pub fn update(&mut self)
        ensures
            final(self).pressed_keys == old(self).pressed_keys,
    {
    }

    /// Whether `key` is held.
    pub fn is_key_pressed(&self, key: Key) -> (yes: bool)
        ensures
            yes == self.pressed_keys@.contains(key),
    {
        self.pressed_keys.contains(key)
    }
}

} // verus!
