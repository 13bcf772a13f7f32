//! Which keys and mouse buttons are down, and which changed this frame.

use std::collections::HashSet;
use vstd::prelude::*;
use vstd::std_specs::hash::spec_hash_keys_iter;
use vstd::std_specs::iter::IteratorSpec;
use crate::button::{ElementState, MouseButton};
use crate::event::InputEvent;

verus! {

broadcast use vstd::std_specs::hash::group_hash_axioms;

/// What an [`InputState`] holds, as mathematical sets and plain values.
pub struct InputStateView<P, W> {
    /// The keys that are held down.
    pub keys_pressed: Set<u32>,
    /// The keys that went down during the current frame.
    pub keys_just_pressed: Set<u32>,
    /// The keys that came up during the current frame.
    pub keys_just_released: Set<u32>,
    /// The mouse buttons that are held down.
    pub mouse_buttons_pressed: Set<MouseButton>,
    /// The mouse buttons that went down during the current frame.
    pub mouse_buttons_just_pressed: Set<MouseButton>,
    /// The mouse buttons that came up during the current frame.
    pub mouse_buttons_just_released: Set<MouseButton>,
    /// Where the cursor is, while it is known to be inside the window.
    pub mouse_position: Option<P>,
    /// Where the cursor was when the current frame started.
    pub previous_mouse_position: Option<P>,
    /// How far the wheel has turned during the current frame: its single
    /// turns, oldest first.
    pub mouse_wheel_delta: Seq<W>,
    /// Whether the cursor is inside the window.
    pub cursor_in_window: bool,
}

impl<P, W> InputStateView<P, W> {
    /// The state before any event: nothing held, cursor outside.
    pub open spec fn empty() -> InputStateView<P, W> {
        InputStateView {
            keys_pressed: Set::empty(),
            keys_just_pressed: Set::empty(),
            keys_just_released: Set::empty(),
            mouse_buttons_pressed: Set::empty(),
            mouse_buttons_just_pressed: Set::empty(),
            mouse_buttons_just_released: Set::empty(),
            mouse_position: None,
            previous_mouse_position: None,
            mouse_wheel_delta: Seq::empty(),
            cursor_in_window: false,
        }
    }

    /// The state at the start of the next frame: what is held stays held,
    /// nothing has changed yet, the wheel has not turned yet and the cursor
    /// has not moved yet.
    pub open spec fn next_frame(self) -> InputStateView<P, W> {
        InputStateView {
            keys_just_pressed: Set::empty(),
            keys_just_released: Set::empty(),
            mouse_buttons_just_pressed: Set::empty(),
            mouse_buttons_just_released: Set::empty(),
            previous_mouse_position: self.mouse_position,
            mouse_wheel_delta: Seq::empty(),
            ..self
        }
    }

    /// The state after a key event.
    ///
    /// A press of a key that is already held (a repeat) is not a new press.
    /// A release is recorded whether or not the key was held.
    pub open spec fn on_key(self, code: u32, state: ElementState) -> InputStateView<P, W> {
        match state {
            ElementState::Pressed => InputStateView {
                keys_pressed: self.keys_pressed.insert(code),
                keys_just_pressed: if self.keys_pressed.contains(code) {
                    self.keys_just_pressed
                } else {
                    self.keys_just_pressed.insert(code)
                },
                ..self
            },
            ElementState::Released => InputStateView {
                keys_pressed: self.keys_pressed.remove(code),
                keys_just_released: self.keys_just_released.insert(code),
                ..self
            },
        }
    }

    /// The state after a mouse button event, by the same rules as for keys.
    pub open spec fn on_mouse_button(self, button: MouseButton, state: ElementState)
        -> InputStateView<P, W> {
        match state {
            ElementState::Pressed => InputStateView {
                mouse_buttons_pressed: self.mouse_buttons_pressed.insert(button),
                mouse_buttons_just_pressed: if self.mouse_buttons_pressed.contains(button) {
                    self.mouse_buttons_just_pressed
                } else {
                    self.mouse_buttons_just_pressed.insert(button)
                },
                ..self
            },
            ElementState::Released => InputStateView {
                mouse_buttons_pressed: self.mouse_buttons_pressed.remove(button),
                mouse_buttons_just_released: self.mouse_buttons_just_released.insert(button),
                ..self
            },
        }
    }

    /// The state after any event.
    ///
    /// A cursor that leaves the window has no position any more; entering
    /// alone gives it none, only the next move does.
    pub open spec fn on_event(self, event: InputEvent<P, W>) -> InputStateView<P, W> {
        match event {
            InputEvent::Key { code, state } => self.on_key(code, state),
            InputEvent::MouseButton { button, state } => self.on_mouse_button(button, state),
            InputEvent::CursorMoved { position } => InputStateView {
                mouse_position: Some(position),
                ..self
            },
            InputEvent::MouseWheel { delta } => InputStateView {
                mouse_wheel_delta: self.mouse_wheel_delta.push(delta),
                ..self
            },
            InputEvent::CursorEntered => InputStateView { cursor_in_window: true, ..self },
            InputEvent::CursorLeft => InputStateView {
                cursor_in_window: false,
                mouse_position: None,
                ..self
            },
        }
    }

    /// How the cursor has moved during the current frame: its position at
    /// the start of the frame and its position now, where both are known.
    pub open spec fn mouse_delta(self) -> Option<(P, P)> {
        match (self.previous_mouse_position, self.mouse_position) {
            (Some(from), Some(to)) => Some((from, to)),
            _ => None,
        }
    }

    /// The state after all of `events`, the first of them first.
    pub open spec fn after(self, events: Seq<InputEvent<P, W>>) -> InputStateView<P, W>
        decreases events.len(),
    {
        if events.len() == 0 {
            self
        } else {
            self.after(events.drop_last()).on_event(events.last())
        }
    }

    /// Whether the marks of the frame agree with what is held: a key or
    /// button that went down during the frame is still held, or has come
    /// up again during the same frame.
    pub open spec fn consistent(self) -> bool {
        &&& self.keys_just_pressed.subset_of(self.keys_pressed.union(self.keys_just_released))
        &&& self.mouse_buttons_just_pressed.subset_of(
            self.mouse_buttons_pressed.union(self.mouse_buttons_just_released),
        )
    }

    /// The state before any event is consistent.
    pub proof fn lemma_empty_consistent()
        ensures
            Self::empty().consistent(),
    {
    }

    /// The start of a frame is consistent, whatever the state was.
    pub proof fn lemma_next_frame_consistent(self)
        ensures
            self.next_frame().consistent(),
    {
    }

    /// No event takes a consistent state to one that is not.
    pub proof fn lemma_on_event_consistent(self, event: InputEvent<P, W>)
        requires
            self.consistent(),
        ensures
            self.on_event(event).consistent(),
    {
    }

    /// No run of events takes a consistent state to one that is not. As the
    /// empty state and the start of every frame are consistent too, so is
    /// every state that a tracker can reach.
    pub proof fn lemma_after_consistent(self, events: Seq<InputEvent<P, W>>)
        requires
            self.consistent(),
        ensures
            self.after(events).consistent(),
        decreases events.len(),
    {
        if events.len() > 0 {
            self.lemma_after_consistent(events.drop_last());
            self.after(events.drop_last()).lemma_on_event_consistent(events.last());
        }
    }

    /// At the start of a frame nothing has gone down or come up, the wheel
    /// has not turned, and the cursor has not moved.
    pub proof fn lemma_next_frame_is_quiet(self)
        ensures
            self.next_frame().keys_just_pressed.is_empty(),
            self.next_frame().keys_just_released.is_empty(),
            self.next_frame().mouse_buttons_just_pressed.is_empty(),
            self.next_frame().mouse_buttons_just_released.is_empty(),
            self.next_frame().mouse_wheel_delta.len() == 0,
            self.next_frame().previous_mouse_position == self.next_frame().mouse_position,
            self.next_frame().keys_pressed == self.keys_pressed,
            self.next_frame().mouse_buttons_pressed == self.mouse_buttons_pressed,
            self.next_frame().next_frame() == self.next_frame(),
    {
    }

    /// A key that goes down is held until it comes up, and is marked as
    /// just pressed exactly if it was not held before.
    pub proof fn lemma_press_then_release(self, code: u32)
        ensures
            self.on_key(code, ElementState::Pressed).keys_pressed.contains(code),
            self.on_key(code, ElementState::Pressed).keys_just_pressed.contains(code) == (
            self.keys_just_pressed.contains(code) || !self.keys_pressed.contains(code)),
            !self.on_key(code, ElementState::Pressed).on_key(
                code,
                ElementState::Released,
            ).keys_pressed.contains(code),
            self.on_key(code, ElementState::Pressed).on_key(
                code,
                ElementState::Released,
            ).keys_just_released.contains(code),
    {
    }

    /// An event about one key changes nothing about any other key.
    pub proof fn lemma_keys_are_independent(self, code: u32, state: ElementState, other: u32)
        requires
            other != code,
        ensures
            self.on_key(code, state).keys_pressed.contains(other) == self.keys_pressed.contains(
                other,
            ),
            self.on_key(code, state).keys_just_pressed.contains(other)
                == self.keys_just_pressed.contains(other),
            self.on_key(code, state).keys_just_released.contains(other)
                == self.keys_just_released.contains(other),
    {
    }
}

/// The buttons whose codes are in `codes`.
spec fn buttons_of(codes: Set<u32>) -> Set<MouseButton> {
    Set::new(|b: MouseButton| codes.contains(b.spec_code()))
}

/// Tracks the keys, the mouse buttons and the cursor of one window from
/// frame to frame.
///
/// Events are fed in with [`InputState::handle_event`]; at the start of each
/// frame [`InputState::update`] forgets what changed during the last one.
/// `P` is the type of a cursor position and `W` the type of a scroll amount:
/// the tracker stores such values and hands them back, and never computes
/// with them.
#[derive(Debug)]
pub struct InputState<P, W> {
    keys_pressed: HashSet<u32>,
    keys_just_pressed: HashSet<u32>,
    keys_just_released: HashSet<u32>,
    mouse_buttons_pressed: HashSet<u32>,
    mouse_buttons_just_pressed: HashSet<u32>,
    mouse_buttons_just_released: HashSet<u32>,
    mouse_position: Option<P>,
    previous_mouse_position: Option<P>,
    mouse_wheel_delta: Vec<W>,
    cursor_in_window: bool,
}

impl<P, W> View for InputState<P, W> {
    type V = InputStateView<P, W>;

    closed spec fn view(&self) -> InputStateView<P, W> {
        InputStateView {
            keys_pressed: self.keys_pressed@,
            keys_just_pressed: self.keys_just_pressed@,
            keys_just_released: self.keys_just_released@,
            mouse_buttons_pressed: buttons_of(self.mouse_buttons_pressed@),
            mouse_buttons_just_pressed: buttons_of(self.mouse_buttons_just_pressed@),
            mouse_buttons_just_released: buttons_of(self.mouse_buttons_just_released@),
            mouse_position: self.mouse_position,
            previous_mouse_position: self.previous_mouse_position,
            mouse_wheel_delta: self.mouse_wheel_delta@,
            cursor_in_window: self.cursor_in_window,
        }
    }
}

/// Adding a button's code to a set of codes adds that button and no other.
proof fn lemma_buttons_insert(codes: Set<u32>, button: MouseButton)
    ensures
        buttons_of(codes.insert(button.spec_code())) == buttons_of(codes).insert(button),
{
    assert forall|b: MouseButton|
        buttons_of(codes.insert(button.spec_code())).contains(b) == buttons_of(codes).insert(
            button,
        ).contains(b) by {
        if b.spec_code() == button.spec_code() {
            MouseButton::lemma_code_injective(b, button);
        }
    }
    assert(buttons_of(codes.insert(button.spec_code())) =~= buttons_of(codes).insert(button));
}

/// Taking a button's code out of a set of codes takes out that button and no other.
proof fn lemma_buttons_remove(codes: Set<u32>, button: MouseButton)
    ensures
        buttons_of(codes.remove(button.spec_code())) == buttons_of(codes).remove(button),
{
    assert forall|b: MouseButton|
        buttons_of(codes.remove(button.spec_code())).contains(b) == buttons_of(codes).remove(
            button,
        ).contains(b) by {
        if b.spec_code() == button.spec_code() {
            MouseButton::lemma_code_injective(b, button);
        }
    }
    assert(buttons_of(codes.remove(button.spec_code())) =~= buttons_of(codes).remove(button));
}

/// No button has its code in the empty set.
proof fn lemma_buttons_empty()
    ensures
        buttons_of(Set::<u32>::empty()) == Set::<MouseButton>::empty(),
{
    assert(buttons_of(Set::<u32>::empty()) =~= Set::<MouseButton>::empty());
}

/// A new vector with the items of `items`, in the same order.
pub(crate) fn copy_of<T: Copy>(items: &Vec<T>) -> (copy: Vec<T>)
    ensures
        copy@ == items@,
{
    let mut copy: Vec<T> = Vec::new();
    let mut i: usize = 0;
    while i < items.len()
        invariant
            i <= items.len(),
            copy@ == items@.subrange(0, i as int),
        decreases items.len() - i,
    {
        copy.push(items[i]);
        i += 1;
        assert(copy@ =~= items@.subrange(0, i as int));
    }
    assert(copy@ =~= items@);
    copy
}

/// A new set with the codes of `codes`.
fn copy_codes(codes: &HashSet<u32>) -> (copy: HashSet<u32>)
    ensures
        copy@ == codes@,
{
    let mut copy: HashSet<u32> = HashSet::new();
    let ghost walk: Seq<&u32> = spec_hash_keys_iter(codes).remaining();
    let ghost mut walked: int = 0;
    for code in iter: codes.iter()
        invariant
            iter.seq() == walk,
            iter.index() == walked,
            walk.unref().to_set() == codes@,
            forall|c: u32|
                copy@.contains(c) <==> exists|j: int| 0 <= j < walked && *#[trigger] walk[j] == c,
    {
        let ghost seen = copy@;
        assert(*walk[walked] == *code);
        copy.insert(*code);
        proof {
            assert forall|c: u32|
                copy@.contains(c) <==> exists|j: int|
                    0 <= j < walked + 1 && *#[trigger] walk[j] == c by {
                if seen.contains(c) {
                    let j = choose|j: int| 0 <= j < walked && *#[trigger] walk[j] == c;
                    assert(0 <= j < walked + 1 && *walk[j] == c);
                }
                if exists|j: int| 0 <= j < walked + 1 && *#[trigger] walk[j] == c {
                    let j = choose|j: int| 0 <= j < walked + 1 && *#[trigger] walk[j] == c;
                    if j < walked {
                        assert(seen.contains(c));
                    }
                }
            }
            walked = walked + 1;
        }
    }
    proof {
        assert(walked == walk.len());
        let all = walk.unref();
        assert forall|c: u32| copy@.contains(c) == codes@.contains(c) by {
            if copy@.contains(c) {
                let j = choose|j: int| 0 <= j < walked && *#[trigger] walk[j] == c;
                assert(all[j] == c);
                assert(all.contains(c));
            }
            if codes@.contains(c) {
                assert(all.contains(c));
                let j = choose|j: int| 0 <= j < all.len() && all[j] == c;
                assert(*walk[j] == c);
            }
        }
        assert(copy@ =~= codes@);
    }
    copy
}

impl<P: Copy, W: Copy> Clone for InputState<P, W> {
    fn clone(&self) -> (copy: Self)
        ensures
            copy@ == self@,
    {
        InputState {
            keys_pressed: copy_codes(&self.keys_pressed),
            keys_just_pressed: copy_codes(&self.keys_just_pressed),
            keys_just_released: copy_codes(&self.keys_just_released),
            mouse_buttons_pressed: copy_codes(&self.mouse_buttons_pressed),
            mouse_buttons_just_pressed: copy_codes(&self.mouse_buttons_just_pressed),
            mouse_buttons_just_released: copy_codes(&self.mouse_buttons_just_released),
            mouse_position: self.mouse_position,
            previous_mouse_position: self.previous_mouse_position,
            mouse_wheel_delta: copy_of(&self.mouse_wheel_delta),
            cursor_in_window: self.cursor_in_window,
        }
    }
}

impl<P: Copy, W: Copy> Default for InputState<P, W> {
    fn default() -> (state: Self)
        ensures
            state@ == InputStateView::<P, W>::empty(),
    {
        InputState::new()
    }
}

impl<P: Copy, W: Copy> InputState<P, W> {
    /// A tracker in which nothing is held and the cursor is outside.
    pub fn new() -> (state: Self)
        ensures
            state@ == InputStateView::<P, W>::empty(),
    {
        proof {
            lemma_buttons_empty();
        }
        InputState {
            keys_pressed: HashSet::new(),
            keys_just_pressed: HashSet::new(),
            keys_just_released: HashSet::new(),
            mouse_buttons_pressed: HashSet::new(),
            mouse_buttons_just_pressed: HashSet::new(),
            mouse_buttons_just_released: HashSet::new(),
            mouse_position: None,
            previous_mouse_position: None,
            mouse_wheel_delta: Vec::new(),
            cursor_in_window: false,
        }
    }

    /// Starts a new frame: forgets what went down or came up and how the
    /// wheel turned during the last one, keeps what is held, and remembers
    /// where the cursor is.
    pub fn update(&mut self)
        ensures
            final(self)@ == old(self)@.next_frame(),
    {
        proof {
            lemma_buttons_empty();
        }
        self.keys_just_pressed.clear();
        self.keys_just_released.clear();
        self.mouse_buttons_just_pressed.clear();
        self.mouse_buttons_just_released.clear();
        self.mouse_wheel_delta.clear();
        self.previous_mouse_position = self.mouse_position;
    }

    /// Applies one event to the tracked state.
    pub fn handle_event(&mut self, event: &InputEvent<P, W>)
        ensures
            final(self)@ == old(self)@.on_event(*event),
    {
        match *event {
            InputEvent::Key { code, state } => {
                self.handle_key(code, state);
            },
            InputEvent::MouseButton { button, state } => {
                self.handle_mouse_button(button, state);
            },
            InputEvent::CursorMoved { position } => {
                self.mouse_position = Some(position);
            },
            InputEvent::MouseWheel { delta } => {
                self.handle_mouse_wheel(delta);
            },
            InputEvent::CursorEntered => {
                self.cursor_in_window = true;
            },
            InputEvent::CursorLeft => {
                self.cursor_in_window = false;
                self.mouse_position = None;
            },
        }
    }

    /// Records a key going down or coming up.
    pub fn handle_key(&mut self, key_code: u32, state: ElementState)
        ensures
            final(self)@ == old(self)@.on_key(key_code, state),
    {
        match state {
            ElementState::Pressed => {
                if !self.keys_pressed.contains(&key_code) {
                    self.keys_just_pressed.insert(key_code);
                }
                self.keys_pressed.insert(key_code);
            },
            ElementState::Released => {
                self.keys_pressed.remove(&key_code);
                self.keys_just_released.insert(key_code);
            },
        }
    }

    /// Records a mouse button going down or coming up.
    pub fn handle_mouse_button(&mut self, button: MouseButton, state: ElementState)
        ensures
            final(self)@ == old(self)@.on_mouse_button(button, state),
    {
        let code = button.code();
        proof {
            lemma_buttons_insert(self.mouse_buttons_pressed@, button);
            lemma_buttons_insert(self.mouse_buttons_just_pressed@, button);
            lemma_buttons_insert(self.mouse_buttons_just_released@, button);
            lemma_buttons_remove(self.mouse_buttons_pressed@, button);
        }
        match state {
            ElementState::Pressed => {
                if !self.mouse_buttons_pressed.contains(&code) {
                    self.mouse_buttons_just_pressed.insert(code);
                }
                self.mouse_buttons_pressed.insert(code);
            },
            ElementState::Released => {
                self.mouse_buttons_pressed.remove(&code);
                self.mouse_buttons_just_released.insert(code);
            },
        }
    }

    /// Records a turn of the wheel, after those already recorded during
    /// the current frame.
    pub fn handle_mouse_wheel(&mut self, delta: W)
        ensures
            final(self)@ == (InputStateView {
                mouse_wheel_delta: old(self)@.mouse_wheel_delta.push(delta),
                ..old(self)@
            }),
    {
        self.mouse_wheel_delta.push(delta);
    }

    /// Whether the key is held down.
    pub fn is_key_pressed(&self, key_code: u32) -> (held: bool)
        ensures
            held == self@.keys_pressed.contains(key_code),
    {
        self.keys_pressed.contains(&key_code)
    }

    /// Whether the key went down during the current frame.
    pub fn is_key_just_pressed(&self, key_code: u32) -> (pressed: bool)
        ensures
            pressed == self@.keys_just_pressed.contains(key_code),
    {
        self.keys_just_pressed.contains(&key_code)
    }

    /// Whether the key came up during the current frame.
    pub fn is_key_just_released(&self, key_code: u32) -> (released: bool)
        ensures
            released == self@.keys_just_released.contains(key_code),
    {
        self.keys_just_released.contains(&key_code)
    }

    /// Whether the mouse button is held down.
    pub fn is_mouse_button_pressed(&self, button: MouseButton) -> (held: bool)
        ensures
            held == self@.mouse_buttons_pressed.contains(button),
    {
        let code = button.code();
        self.mouse_buttons_pressed.contains(&code)
    }

    /// Whether the mouse button went down during the current frame.
    pub fn is_mouse_button_just_pressed(&self, button: MouseButton) -> (pressed: bool)
        ensures
            pressed == self@.mouse_buttons_just_pressed.contains(button),
    {
        let code = button.code();
        self.mouse_buttons_just_pressed.contains(&code)
    }

    /// Whether the mouse button came up during the current frame.
    pub fn is_mouse_button_just_released(&self, button: MouseButton) -> (released: bool)
        ensures
            released == self@.mouse_buttons_just_released.contains(button),
    {
        let code = button.code();
        self.mouse_buttons_just_released.contains(&code)
    }

    /// Where the cursor is; `None` before its first move and after it has
    /// left the window.
    pub fn mouse_position(&self) -> (position: Option<P>)
        ensures
            position == self@.mouse_position,
    {
        self.mouse_position
    }

    /// How the cursor has moved during the current frame: its position at
    /// the start of the frame and its position now, where both are known.
    /// The caller takes the difference.
    pub fn mouse_delta(&self) -> (motion: Option<(P, P)>)
        ensures
            motion == self@.mouse_delta(),
    {
        match (self.previous_mouse_position, self.mouse_position) {
            (Some(from), Some(to)) => Some((from, to)),
            _ => None,
        }
    }

    /// How far the wheel has turned during the current frame: its single
    /// turns, oldest first. The caller adds them up.
    pub fn mouse_wheel_delta(&self) -> (steps: &Vec<W>)
        ensures
            steps@ == self@.mouse_wheel_delta,
    {
        &self.mouse_wheel_delta
    }

    /// Whether the cursor is inside the window.
    pub fn is_cursor_in_window(&self) -> (inside: bool)
        ensures
            inside == self@.cursor_in_window,
    {
        self.cursor_in_window
    }

    /// The codes of all keys that are held down.
    pub fn pressed_keys(&self) -> (keys: &HashSet<u32>)
        ensures
            keys@ == self@.keys_pressed,
    {
        &self.keys_pressed
    }

    /// All mouse buttons that are held down, each once, in no particular
    /// order.
    pub fn pressed_mouse_buttons(&self) -> (buttons: Vec<MouseButton>)
        ensures
            buttons@.to_set() == self@.mouse_buttons_pressed,
            buttons@.no_duplicates(),
    {
        let mut buttons: Vec<MouseButton> = Vec::new();
        let ghost walk: Seq<&u32> = spec_hash_keys_iter(&self.mouse_buttons_pressed).remaining();
        let ghost mut walked: int = 0;
        for code in iter: self.mouse_buttons_pressed.iter()
            invariant
                iter.seq() == walk,
                iter.index() == walked,
                walk.no_duplicates(),
                walk.unref().to_set() == self.mouse_buttons_pressed@,
                buttons@.no_duplicates(),
                forall|b: MouseButton|
                    buttons@.contains(b) <==> exists|j: int|
                        0 <= j < walked && *#[trigger] walk[j] == b.spec_code(),
        {
            let ghost seen = buttons@;
            let ghost at = iter.index();
            assert(*iter.seq()[at] == *code);
            proof {
                walked = walked + 1;
            }
            match MouseButton::from_code(*code) {
                Some(button) => {
                    buttons.push(button);
                    proof {
                        if seen.contains(button) {
                            let j = choose|j: int|
                                0 <= j < at && *#[trigger] walk[j] == button.spec_code();
                            assert(walk[j] == walk[at]);
                        }
                        assert forall|b: MouseButton|
                            buttons@.contains(b) <==> exists|j: int|
                                0 <= j < at + 1 && *#[trigger] walk[j]
                                    == b.spec_code() by {
                            if buttons@.contains(b) {
                                let i = choose|i: int| 0 <= i < buttons@.len() && buttons@[i] == b;
                                if i < seen.len() {
                                    assert(seen[i] == b);
                                    assert(seen.contains(b));
                                } else {
                                    assert(*walk[at] == b.spec_code());
                                }
                            }
                            if exists|j: int|
                                0 <= j < at + 1 && *#[trigger] walk[j] == b.spec_code() {
                                let j = choose|j: int|
                                    0 <= j < at + 1 && *#[trigger] walk[j] == b.spec_code();
                                if j < at {
                                    assert(seen.contains(b));
                                    let i = choose|i: int| 0 <= i < seen.len() && seen[i] == b;
                                    assert(buttons@[i] == b);
                                } else {
                                    MouseButton::lemma_code_injective(b, button);
                                    assert(buttons@[seen.len() as int] == b);
                                }
                            }
                        }
                    }
                },
                None => {
                    proof {
                        assert forall|b: MouseButton|
                            buttons@.contains(b) <==> exists|j: int|
                                0 <= j < at + 1 && *#[trigger] walk[j]
                                    == b.spec_code() by {
                            MouseButton::lemma_code_round_trip(b, *code);
                            if exists|j: int|
                                0 <= j < at + 1 && *#[trigger] walk[j] == b.spec_code() {
                                let j = choose|j: int|
                                    0 <= j < at + 1 && *#[trigger] walk[j] == b.spec_code();
                                assert(j < at);
                            }
                        }
                    }
                },
            }
        }
        proof {
            assert(walked == walk.len());
            let codes = walk.unref();
            assert forall|b: MouseButton|
                buttons@.to_set().contains(b) == self@.mouse_buttons_pressed.contains(b) by {
                if buttons@.contains(b) {
                    let j = choose|j: int|
                        0 <= j < walked && *#[trigger] walk[j] == b.spec_code();
                    assert(codes[j] == b.spec_code());
                    assert(codes.contains(b.spec_code()));
                }
                if self.mouse_buttons_pressed@.contains(b.spec_code()) {
                    assert(codes.contains(b.spec_code()));
                    let j = choose|j: int| 0 <= j < codes.len() && codes[j] == b.spec_code();
                    assert(*walk[j] == b.spec_code());
                }
            }
            assert(buttons@.to_set() =~= self@.mouse_buttons_pressed);
        }
        buttons
    }
}

} // verus!
