//! Named actions and the keys and mouse buttons that trigger them.

use vstd::hash_map::StringHashMap;
use vstd::prelude::*;
use crate::button::MouseButton;
use crate::input_state::{copy_of, InputState, InputStateView};

verus! {

/// What an [`InputMap`] holds: for each action that has any, its bindings
/// in the order in which they were made.
pub struct InputMapView {
    /// The key codes bound to each action.
    pub keyboard_bindings: Map<Seq<char>, Seq<u32>>,
    /// The mouse buttons bound to each action.
    pub mouse_bindings: Map<Seq<char>, Seq<MouseButton>>,
}

impl InputMapView {
    /// The map without any binding.
    pub open spec fn empty() -> InputMapView {
        InputMapView { keyboard_bindings: Map::empty(), mouse_bindings: Map::empty() }
    }

    /// The key codes bound to `action`; none where the action is unknown.
    pub open spec fn keys_of(self, action: Seq<char>) -> Seq<u32> {
        if self.keyboard_bindings.contains_key(action) {
            self.keyboard_bindings[action]
        } else {
            Seq::empty()
        }
    }

    /// The mouse buttons bound to `action`; none where the action is unknown.
    pub open spec fn buttons_of(self, action: Seq<char>) -> Seq<MouseButton> {
        if self.mouse_bindings.contains_key(action) {
            self.mouse_bindings[action]
        } else {
            Seq::empty()
        }
    }

    /// The map after one more key is bound to `action`.
    pub open spec fn bind_key(self, action: Seq<char>, key: u32) -> InputMapView {
        InputMapView {
            keyboard_bindings: self.keyboard_bindings.insert(
                action,
                self.keys_of(action).push(key),
            ),
            ..self
        }
    }

    /// The map after one more mouse button is bound to `action`.
    pub open spec fn bind_mouse_button(self, action: Seq<char>, button: MouseButton)
        -> InputMapView {
        InputMapView {
            mouse_bindings: self.mouse_bindings.insert(
                action,
                self.buttons_of(action).push(button),
            ),
            ..self
        }
    }

    /// The map after `action` has lost all its bindings.
    pub open spec fn unbind_action(self, action: Seq<char>) -> InputMapView {
        InputMapView {
            keyboard_bindings: self.keyboard_bindings.remove(action),
            mouse_bindings: self.mouse_bindings.remove(action),
        }
    }

    /// Whether some key or mouse button bound to `action` is held down.
    pub open spec fn is_action_active<P, W>(self, action: Seq<char>, input: InputStateView<P, W>)
        -> bool {
        ||| exists|key: u32|
            self.keys_of(action).contains(key) && input.keys_pressed.contains(key)
        ||| exists|button: MouseButton|
            self.buttons_of(action).contains(button) && input.mouse_buttons_pressed.contains(
                button,
            )
    }

    /// Whether some key or mouse button bound to `action` went down during
    /// the current frame.
    pub open spec fn is_action_just_pressed<P, W>(
        self,
        action: Seq<char>,
        input: InputStateView<P, W>,
    ) -> bool {
        ||| exists|key: u32|
            self.keys_of(action).contains(key) && input.keys_just_pressed.contains(key)
        ||| exists|button: MouseButton|
            self.buttons_of(action).contains(button)
                && input.mouse_buttons_just_pressed.contains(button)
    }
}

impl InputMapView {
    /// Once a key is bound to an action, holding that key makes the action
    /// active.
    pub proof fn lemma_bound_key_triggers<P, W>(
        self,
        action: Seq<char>,
        key: u32,
        input: InputStateView<P, W>,
    )
        requires
            input.keys_pressed.contains(key),
        ensures
            self.bind_key(action, key).is_action_active(action, input),
    {
        let bound = self.bind_key(action, key);
        let keys = self.keys_of(action).push(key);
        assert(bound.keys_of(action) == keys);
        assert(keys[keys.len() - 1] == key);
        assert(keys.contains(key));
    }

    /// Once a mouse button is bound to an action, holding that button makes
    /// the action active.
    pub proof fn lemma_bound_button_triggers<P, W>(
        self,
        action: Seq<char>,
        button: MouseButton,
        input: InputStateView<P, W>,
    )
        requires
            input.mouse_buttons_pressed.contains(button),
        ensures
            self.bind_mouse_button(action, button).is_action_active(action, input),
    {
        let bound = self.bind_mouse_button(action, button);
        let buttons = self.buttons_of(action).push(button);
        assert(bound.buttons_of(action) == buttons);
        assert(buttons[buttons.len() - 1] == button);
        assert(buttons.contains(button));
    }

    /// A binding is never lost by binding more: what was active stays
    /// active.
    pub proof fn lemma_binding_keeps_active<P, W>(
        self,
        action: Seq<char>,
        key: u32,
        other: Seq<char>,
        input: InputStateView<P, W>,
    )
        requires
            self.is_action_active(other, input),
        ensures
            self.bind_key(action, key).is_action_active(other, input),
    {
        let bound = self.bind_key(action, key);
        assert(bound.buttons_of(other) == self.buttons_of(other));
        if exists|k: u32| self.keys_of(other).contains(k) && input.keys_pressed.contains(k) {
            let k = choose|k: u32|
                self.keys_of(other).contains(k) && input.keys_pressed.contains(k);
            if other == action {
                let i = choose|i: int|
                    0 <= i < self.keys_of(other).len() && self.keys_of(other)[i] == k;
                assert(bound.keys_of(other)[i] == k);
            }
            assert(bound.keys_of(other).contains(k));
        }
    }

    /// An action that has lost its bindings is never active and never just
    /// pressed, and the other actions are as they were.
    pub proof fn lemma_unbound_is_inactive<P, W>(
        self,
        action: Seq<char>,
        other: Seq<char>,
        input: InputStateView<P, W>,
    )
        ensures
            !self.unbind_action(action).is_action_active(action, input),
            !self.unbind_action(action).is_action_just_pressed(action, input),
            other != action ==> self.unbind_action(action).is_action_active(other, input)
                == self.is_action_active(other, input),
            other != action ==> self.unbind_action(action).is_action_just_pressed(other, input)
                == self.is_action_just_pressed(other, input),
    {
        let unbound = self.unbind_action(action);
        assert(unbound.keys_of(action) == Seq::<u32>::empty());
        assert(unbound.buttons_of(action) == Seq::<MouseButton>::empty());
        if other != action {
            assert(unbound.keys_of(other) == self.keys_of(other));
            assert(unbound.buttons_of(other) == self.buttons_of(other));
        }
    }

    /// Without bindings no action is active.
    pub proof fn lemma_empty_is_inactive<P, W>(action: Seq<char>, input: InputStateView<P, W>)
        ensures
            !Self::empty().is_action_active(action, input),
            !Self::empty().is_action_just_pressed(action, input),
    {
        assert(Self::empty().keys_of(action) == Seq::<u32>::empty());
        assert(Self::empty().buttons_of(action) == Seq::<MouseButton>::empty());
    }
}

/// Maps action names to the keys and mouse buttons that trigger them.
pub struct InputMap {
    keyboard_bindings: StringHashMap<Vec<u32>>,
    mouse_bindings: StringHashMap<Vec<MouseButton>>,
}

impl View for InputMap {
    type V = InputMapView;

    closed spec fn view(&self) -> InputMapView {
        InputMapView {
            keyboard_bindings: self.keyboard_bindings@.map_values(|keys: Vec<u32>| keys@),
            mouse_bindings: self.mouse_bindings@.map_values(|buttons: Vec<MouseButton>| buttons@),
        }
    }
}

/// Whether some key of `keys` is held, or, with `just`, went down this frame.
fn any_key<P: Copy, W: Copy>(keys: &Vec<u32>, input: &InputState<P, W>, just: bool) -> (found: bool)
    ensures
        found == exists|key: u32|
            keys@.contains(key) && if just {
                input@.keys_just_pressed.contains(key)
            } else {
                input@.keys_pressed.contains(key)
            },
{
    let mut i: usize = 0;
    while i < keys.len()
        invariant
            i <= keys.len(),
            forall|j: int|
                0 <= j < i ==> !(if just {
                    input@.keys_just_pressed.contains(#[trigger] keys@[j])
                } else {
                    input@.keys_pressed.contains(keys@[j])
                }),
        decreases keys.len() - i,
    {
        let hit = if just {
            input.is_key_just_pressed(keys[i])
        } else {
            input.is_key_pressed(keys[i])
        };
        if hit {
            assert(keys@.contains(keys@[i as int]));
            return true;
        }
        i += 1;
    }
    false
}

/// Whether some button of `buttons` is held, or, with `just`, went down this frame.
fn any_button<P: Copy, W: Copy>(
    buttons: &Vec<MouseButton>,
    input: &InputState<P, W>,
    just: bool,
) -> (found: bool)
    ensures
        found == exists|button: MouseButton|
            buttons@.contains(button) && if just {
                input@.mouse_buttons_just_pressed.contains(button)
            } else {
                input@.mouse_buttons_pressed.contains(button)
            },
{
    let mut i: usize = 0;
    while i < buttons.len()
        invariant
            i <= buttons.len(),
            forall|j: int|
                0 <= j < i ==> !(if just {
                    input@.mouse_buttons_just_pressed.contains(#[trigger] buttons@[j])
                } else {
                    input@.mouse_buttons_pressed.contains(buttons@[j])
                }),
        decreases buttons.len() - i,
    {
        let hit = if just {
            input.is_mouse_button_just_pressed(buttons[i])
        } else {
            input.is_mouse_button_pressed(buttons[i])
        };
        if hit {
            assert(buttons@.contains(buttons@[i as int]));
            return true;
        }
        i += 1;
    }
    false
}

impl InputMap {
    /// A map without any binding.
    pub fn new() -> (map: Self)
        ensures
            map@ == InputMapView::empty(),
    {
        let map = InputMap {
            keyboard_bindings: StringHashMap::new(),
            mouse_bindings: StringHashMap::new(),
        };
        assert(map@.keyboard_bindings =~= Map::empty());
        assert(map@.mouse_bindings =~= Map::empty());
        map
    }

    /// Binds one more key to `action`, after those already bound to it.
    pub fn bind_key(&mut self, action: &str, key: u32)
        ensures
            final(self)@ == old(self)@.bind_key(action@, key),
    {
        let mut keys: Vec<u32> = match self.keyboard_bindings.get(action) {
            Some(bound) => copy_of(bound),
            None => Vec::new(),
        };
        keys.push(key);
        self.keyboard_bindings.insert(action.to_owned(), keys);
        assert(self@.keyboard_bindings =~= old(self)@.bind_key(action@, key).keyboard_bindings);
    }

    /// Binds one more mouse button to `action`, after those already bound to it.
    pub fn bind_mouse_button(&mut self, action: &str, button: MouseButton)
        ensures
            final(self)@ == old(self)@.bind_mouse_button(action@, button),
    {
        let mut buttons: Vec<MouseButton> = match self.mouse_bindings.get(action) {
            Some(bound) => copy_of(bound),
            None => Vec::new(),
        };
        buttons.push(button);
        self.mouse_bindings.insert(action.to_owned(), buttons);
        assert(self@.mouse_bindings =~= old(self)@.bind_mouse_button(
            action@,
            button,
        ).mouse_bindings);
    }

    /// Whether some key or mouse button bound to `action` is held down.
    pub fn is_action_active<P: Copy, W: Copy>(
        &self,
        action: &str,
        input_state: &InputState<P, W>,
    ) -> (active: bool)
        ensures
            active == self@.is_action_active(action@, input_state@),
    {
        if let Some(keys) = self.keyboard_bindings.get(action) {
            if any_key(keys, input_state, false) {
                return true;
            }
        }
        if let Some(buttons) = self.mouse_bindings.get(action) {
            if any_button(buttons, input_state, false) {
                return true;
            }
        }
        false
    }

    /// Whether some key or mouse button bound to `action` went down during
    /// the current frame.
    pub fn is_action_just_pressed<P: Copy, W: Copy>(
        &self,
        action: &str,
        input_state: &InputState<P, W>,
    ) -> (pressed: bool)
        ensures
            pressed == self@.is_action_just_pressed(action@, input_state@),
    {
        if let Some(keys) = self.keyboard_bindings.get(action) {
            if any_key(keys, input_state, true) {
                return true;
            }
        }
        if let Some(buttons) = self.mouse_bindings.get(action) {
            if any_button(buttons, input_state, true) {
                return true;
            }
        }
        false
    }

    /// Removes every binding of `action`.
    pub fn unbind_action(&mut self, action: &str)
        ensures
            final(self)@ == old(self)@.unbind_action(action@),
    {
        self.keyboard_bindings.remove(action);
        self.mouse_bindings.remove(action);
        assert(self@.keyboard_bindings =~= old(self)@.keyboard_bindings.remove(action@));
        assert(self@.mouse_bindings =~= old(self)@.mouse_bindings.remove(action@));
    }

    /// Removes every binding of every action.
    pub fn clear_bindings(&mut self)
        ensures
            final(self)@ == InputMapView::empty(),
    {
        self.keyboard_bindings.clear();
        self.mouse_bindings.clear();
        assert(self@.keyboard_bindings =~= Map::empty());
        assert(self@.mouse_bindings =~= Map::empty());
    }
}

impl Default for InputMap {
    fn default() -> (map: Self)
        ensures
            map@ == InputMapView::empty(),
    {
        InputMap::new()
    }
}

} // verus!
