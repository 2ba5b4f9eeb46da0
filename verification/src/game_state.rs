//! Game states (menu, play, pause, game over): what each does with the input
//! of a tick, and the stack that says which of them is in charge.
//!
//! The states decide; entering, leaving, updating and drawing them is the
//! caller's, who is told which state was left and which was entered.

use vstd::prelude::*;
use crate::input_window::Key;
use crate::input_window::WindowInputState;

verus! {

/// Names a game state.
pub type StateId = String;

/// What a state asks the state stack to do.
#[derive(Debug, Clone)]
pub enum StateTransition {
    /// Stay in the current state.
    Stay,
    /// Put another state in place of the whole stack.
    Switch(StateId),
    /// Put another state on top of the current one.
    Push(StateId),
    /// Leave the current state and go back to the one below.
    Pop,
    /// Quit the game.
    Quit,
}

/// A transition, with state names as sequences of characters.
pub enum TransitionView {
    Stay,
    Switch(Seq<char>),
    Push(Seq<char>),
    Pop,
    Quit,
}

impl View for StateTransition {
    type V = TransitionView;

    open spec fn view(&self) -> TransitionView {
        match self {
            StateTransition::Stay => TransitionView::Stay,
            StateTransition::Switch(id) => TransitionView::Switch(id@),
            StateTransition::Push(id) => TransitionView::Push(id@),
            StateTransition::Pop => TransitionView::Pop,
            StateTransition::Quit => TransitionView::Quit,
        }
    }
}

/// The view of an optional transition.
pub open spec fn asked(transition: Option<StateTransition>) -> Option<TransitionView> {
    match transition {
        Some(t) => Some(t@),
        None => None,
    }
}

/// Whether the player moves the selection up in this tick.
pub open spec fn moves_up(input: WindowInputState) -> bool {
    input.keys_just_pressed@.contains(Key::W) || input.keys_just_pressed@.contains(Key::Up)
}

/// Whether the player moves the selection down in this tick.
pub open spec fn moves_down(input: WindowInputState) -> bool {
    input.keys_just_pressed@.contains(Key::S) || input.keys_just_pressed@.contains(Key::Down)
}

/// Whether the player confirms in this tick.
pub open spec fn confirms(input: WindowInputState) -> bool {
    input.keys_just_pressed@.contains(Key::Space) || input.keys_just_pressed@.contains(Key::Enter)
}

/// The selection after the input of a tick, among `count` options: one up
/// where the player moves up and it is not at the top, then one down where
/// the player moves down and it is not at the bottom.
pub open spec fn selection_after(selected: int, count: int, input: WindowInputState) -> int {
    let lifted = if moves_up(input) && selected > 0 {
        selected - 1
    } else {
        selected
    };
    if moves_down(input) && lifted < count - 1 {
        lifted + 1
    } else {
        lifted
    }
}

/// What the main menu asks for when the option at `selected` is confirmed.
pub open spec fn menu_choice(selected: int) -> Option<TransitionView> {
    if selected == 0 {
        Some(TransitionView::Switch("gameplay"@))
    } else if selected == 1 {
        Some(TransitionView::Push("options"@))
    } else if selected == 2 {
        Some(TransitionView::Quit)
    } else {
        None
    }
}

/// The main menu.
pub struct MenuState {
    selected_option: usize,
    options: Vec<String>,
}

impl MenuState {
    /// The position of the selected option.
    pub closed spec fn selected(&self) -> int {
        self.selected_option as int
    }

    /// The options, top to bottom.
    pub closed spec fn options(&self) -> Seq<String> {
        self.options@
    }

    /// The menu has its three options and one of them is selected.
    pub open spec fn wf(&self) -> bool {
        &&& self.options().len() == 3
        &&& self.options()[0]@ == "Start Game"@
        &&& self.options()[1]@ == "Options"@
        &&& self.options()[2]@ == "Exit"@
        &&& 0 <= self.selected() < 3
    }

    /// The main menu with its first option selected.
    pub fn new() -> (menu: MenuState)
        ensures
            menu.wf(),
            menu.selected() == 0,
    {
        let mut options: Vec<String> = Vec::new();
        options.push("Start Game".to_owned());
        options.push("Options".to_owned());
        options.push("Exit".to_owned());
        MenuState { selected_option: 0, options }
    }

    /// The position of the selected option.
    pub fn selected_option(&self) -> (selected: usize)
        ensures
            selected == self.selected(),
    {
        self.selected_option
    }

    /// The state's name.
    pub fn id(&self) -> (id: StateId)
        ensures
            id@ == "menu"@,
    {
        "menu".to_owned()
    }

    /// Takes the input of a tick: W or Up moves the selection up, S or Down
    /// moves it down, and Space or Enter confirms the option that is then
    /// selected.
    pub fn handle_input(&mut self, input: &WindowInputState) -> (transition: Option<
        StateTransition,
    >)
        requires
            old(self).wf(),
        ensures
            final(self).wf(),
            final(self).selected() == selection_after(old(self).selected(), 3, *input),
            asked(transition) == (if confirms(*input) {
                menu_choice(final(self).selected())
            } else {
                None
            }),
    {
        if (input.is_key_just_pressed(Key::W) || input.is_key_just_pressed(Key::Up))
            && self.selected_option > 0 {
            self.selected_option = self.selected_option - 1;
        }
        if (input.is_key_just_pressed(Key::S) || input.is_key_just_pressed(Key::Down))
            && self.selected_option < self.options.len() - 1 {
            self.selected_option = self.selected_option + 1;
        }
        if input.is_key_just_pressed(Key::Space) || input.is_key_just_pressed(Key::Enter) {
            if self.selected_option == 0 {
                return Some(StateTransition::Switch("gameplay".to_owned()));
            } else if self.selected_option == 1 {
                return Some(StateTransition::Push("options".to_owned()));
            } else if self.selected_option == 2 {
                return Some(StateTransition::Quit);
            }
        }
        None
    }
}

/// The pause screen.
pub struct PauseState;

impl PauseState {
    /// The pause screen.
    pub fn new() -> (state: PauseState) {
        PauseState
    }

    /// The state's name.
    pub fn id(&self) -> (id: StateId)
        ensures
            id@ == "pause"@,
    {
        "pause".to_owned()
    }

    /// Takes the input of a tick: Escape resumes the game.
    pub fn handle_input(&mut self, input: &WindowInputState) -> (transition: Option<
        StateTransition,
    >)
        ensures
            asked(transition) == (if input.keys_just_pressed@.contains(Key::Escape) {
                Some(TransitionView::Pop)
            } else {
                None
            }),
    {
        if input.is_key_just_pressed(Key::Escape) {
            return Some(StateTransition::Pop);
        }
        None
    }
}

/// The screen after the game.
pub struct GameOverState {
    final_score: u32,
}

impl GameOverState {
    /// The points the game ended with.
    pub closed spec fn score(&self) -> u32 {
        self.final_score
    }

    /// The screen for a game that ended with `final_score` points.
    pub fn new(final_score: u32) -> (state: GameOverState)
        ensures
            state.score() == final_score,
    {
        GameOverState { final_score }
    }

    /// The points the game ended with.
    pub fn final_score(&self) -> (score: u32)
        ensures
            score == self.score(),
    {
        self.final_score
    }

    /// The state's name.
    pub fn id(&self) -> (id: StateId)
        ensures
            id@ == "game_over"@,
    {
        "game_over".to_owned()
    }

    /// Takes the input of a tick: Space or Enter goes back to the menu.
    pub fn handle_input(&mut self, input: &WindowInputState) -> (transition: Option<
        StateTransition,
    >)
        ensures
            final(self).score() == old(self).score(),
            asked(transition) == (if confirms(*input) {
                Some(TransitionView::Switch("menu"@))
            } else {
                None
            }),
    {
        if input.is_key_just_pressed(Key::Space) || input.is_key_just_pressed(Key::Enter) {
            return Some(StateTransition::Switch("menu".to_owned()));
        }
        None
    }
}

/// Why the state stack refused a change.
#[derive(Debug, Clone, Copy, PartialEq, Eq, Structural)]
pub enum StateError {
    /// No state of that name is registered.
    NotFound,
    /// The last state cannot be popped.
    LastState,
}

/// What a change of the stack means for the states: which one is left and
/// which one is entered. The caller tells them.
#[derive(Debug, Clone)]
pub struct StateChange {
    pub exited: Option<StateId>,
    pub entered: Option<StateId>,
}

/// The top of a stack of names, if it has one.
pub open spec fn top_of(stack: Seq<Seq<char>>) -> Option<Seq<char>> {
    if stack.len() > 0 {
        Some(stack.last())
    } else {
        None
    }
}

/// The name in an optional state name.
pub open spec fn named(id: Option<StateId>) -> Option<Seq<char>> {
    match id {
        Some(id) => Some(id@),
        None => None,
    }
}

/// The registered states and the stack of those that are active; the top of
/// the stack is in charge.
pub struct StateManager {
    states: Vec<StateId>,
    state_stack: Vec<StateId>,
    window_width: usize,
    window_height: usize,
}

impl StateManager {
    /// The names of the registered states.
    pub closed spec fn registered(&self) -> Set<Seq<char>> {
        Set::new(|id: Seq<char>| exists|i: int| 0 <= i < self.states@.len() && self.states@[i]@ == id)
    }

    /// The names on the stack, bottom first.
    pub closed spec fn stack(&self) -> Seq<Seq<char>> {
        Seq::new(self.state_stack@.len(), |i: int| self.state_stack@[i]@)
    }

    /// The size of the window the states draw to.
    pub closed spec fn window(&self) -> (usize, usize) {
        (self.window_width, self.window_height)
    }

    /// Every state on the stack is registered.
    pub open spec fn wf(&self) -> bool {
        forall|i: int| 0 <= i < self.stack().len() ==> self.registered().contains(#[trigger] self.stack()[i])
    }

    /// A manager without states, for a window of the given size.
    pub fn new(window_width: usize, window_height: usize) -> (manager: StateManager)
        ensures
            manager.wf(),
            manager.registered() == Set::<Seq<char>>::empty(),
            manager.stack().len() == 0,
            manager.window() == (window_width, window_height),
    {
        let manager = StateManager {
            states: Vec::new(),
            state_stack: Vec::new(),
            window_width,
            window_height,
        };
        assert(manager.registered() =~= Set::<Seq<char>>::empty());
        manager
    }

    /// Whether a state called `id` is registered.
    pub fn is_registered(&self, id: &StateId) -> (yes: bool)
        ensures
            yes == self.registered().contains(id@),
    {
        let mut i: usize = 0;
        while i < self.states.len()
            invariant
                0 <= i <= self.states.len(),
                forall|k: int| 0 <= k < i ==> self.states@[k]@ != id@,
            decreases self.states.len() - i,
        {
            if self.states[i] == *id {
                return true;
            }
            i = i + 1;
        }
        false
    }

    /// Registers a state under its name. Registering a name again changes
    /// nothing here: the caller holds the state itself.
    pub fn register_state(&mut self, id: StateId)
        requires
            old(self).wf(),
        ensures
            final(self).wf(),
            final(self).registered() == old(self).registered().insert(id@),
            final(self).stack() == old(self).stack(),
            final(self).window() == old(self).window(),
    {
        if !self.is_registered(&id) {
            self.states.push(id);
            proof {
                let last = old(self).states@.len() as int;
                assert(self.states@[last]@ == id@);
                assert forall|name: Seq<char>|
                    self.registered().contains(name) == old(self).registered().insert(
                        id@,
                    ).contains(name) by {
                    if old(self).registered().contains(name) {
                        let i = choose|i: int|
                            0 <= i < old(self).states@.len() && old(self).states@[i]@ == name;
                        assert(self.states@[i]@ == name);
                    }
                    if self.registered().contains(name) && name != id@ {
                        let i = choose|i: int| 0 <= i < self.states@.len() && self.states@[i]@ == name;
                        assert(old(self).states@[i]@ == name);
                    }
                }
            }
        }
        assert(self.registered() =~= old(self).registered().insert(id@));
        assert(self.stack() =~= old(self).stack());
    }

    /// Makes `state_id` the only active state. The state that was in charge
    /// is left, the new one is entered. An unregistered name is refused and
    /// leaves the stack as it was.
    pub fn switch_to(&mut self, state_id: StateId) -> (result: Result<StateChange, StateError>)
        requires
            old(self).wf(),
        ensures
            final(self).wf(),
            final(self).registered() == old(self).registered(),
            final(self).window() == old(self).window(),
            match result {
                Ok(change) => {
                    &&& old(self).registered().contains(state_id@)
                    &&& final(self).stack() == seq![state_id@]
                    &&& named(change.exited) == top_of(old(self).stack())
                    &&& named(change.entered) == Some(state_id@)
                },
                Err(error) => {
                    &&& error == StateError::NotFound
                    &&& !old(self).registered().contains(state_id@)
                    &&& final(self).stack() == old(self).stack()
                },
            },
    {
        if !self.is_registered(&state_id) {
            return Err(StateError::NotFound);
        }
        let exited = self.state_stack.pop();
        proof {
            if old(self).stack().len() > 0 {
                assert(old(self).stack().last() == old(self).state_stack@.last()@);
            }
        }
        self.state_stack.clear();
        self.state_stack.push(state_id.clone());
        proof {
            assert(self.stack() =~= seq![state_id@]);
        }
        Ok(StateChange { exited, entered: Some(state_id) })
    }

    /// Puts `state_id` on top of the stack. The state below is not left; the
    /// new one is entered. An unregistered name is refused and leaves the
    /// stack as it was.
    pub fn push_state(&mut self, state_id: StateId) -> (result: Result<StateChange, StateError>)
        requires
            old(self).wf(),
        ensures
            final(self).wf(),
            final(self).registered() == old(self).registered(),
            final(self).window() == old(self).window(),
            match result {
                Ok(change) => {
                    &&& old(self).registered().contains(state_id@)
                    &&& final(self).stack() == old(self).stack().push(state_id@)
                    &&& change.exited is None
                    &&& named(change.entered) == Some(state_id@)
                },
                Err(error) => {
                    &&& error == StateError::NotFound
                    &&& !old(self).registered().contains(state_id@)
                    &&& final(self).stack() == old(self).stack()
                },
            },
    {
        if !self.is_registered(&state_id) {
            return Err(StateError::NotFound);
        }
        self.state_stack.push(state_id.clone());
        proof {
            assert(self.stack() =~= old(self).stack().push(state_id@));
        }
        Ok(StateChange { exited: None, entered: Some(state_id) })
    }

    /// Takes the top state off the stack; the state below is in charge
    /// again. The last state cannot be taken off.
    pub fn pop_state(&mut self) -> (result: Result<StateChange, StateError>)
        requires
            old(self).wf(),
        ensures
            final(self).wf(),
            final(self).registered() == old(self).registered(),
            final(self).window() == old(self).window(),
            match result {
                Ok(change) => {
                    &&& old(self).stack().len() > 1
                    &&& final(self).stack() == old(self).stack().drop_last()
                    &&& named(change.exited) == Some(old(self).stack().last())
                    &&& change.entered is None
                },
                Err(error) => {
                    &&& error == StateError::LastState
                    &&& old(self).stack().len() <= 1
                    &&& final(self).stack() == old(self).stack()
                },
            },
    {
        if self.state_stack.len() <= 1 {
            return Err(StateError::LastState);
        }
        let exited = self.state_stack.pop();
        proof {
            assert(self.stack() =~= old(self).stack().drop_last());
            assert(old(self).stack().last() == old(self).state_stack@.last()@);
        }
        Ok(StateChange { exited, entered: None })
    }

    /// The state in charge.
    pub fn current_state(&self) -> (current: Option<&StateId>)
        ensures
            match current {
                Some(id) => Some(id@) == top_of(self.stack()),
                None => top_of(self.stack()) is None,
            },
    {
        if self.state_stack.len() == 0 {
            None
        } else {
            Some(&self.state_stack[self.state_stack.len() - 1])
        }
    }

    /// Whether `state_id` is the state in charge.
    pub fn is_state_active(&self, state_id: &StateId) -> (yes: bool)
        ensures
            yes == (top_of(self.stack()) == Some(state_id@)),
    {
        match self.current_state() {
            Some(id) => *id == *state_id,
            None => false,
        }
    }

    /// How many states are on the stack.
    pub fn stack_depth(&self) -> (depth: usize)
        ensures
            depth == self.stack().len(),
    {
        self.state_stack.len()
    }

    /// The size of the window the states draw to.
    pub fn window_size(&self) -> (size: (usize, usize))
        ensures
            size == self.window(),
    {
        (self.window_width, self.window_height)
    }
}

/// A push followed by a pop leaves the stack as it was, and the state that
/// was pushed is the one that is left.
pub proof fn lemma_push_then_pop(stack: Seq<Seq<char>>, id: Seq<char>)
    ensures
        stack.push(id).drop_last() == stack,
        stack.push(id).last() == id,
        top_of(stack.push(id)) == Some(id),
{
    assert(stack.push(id).drop_last() =~= stack);
}

} // verus!
