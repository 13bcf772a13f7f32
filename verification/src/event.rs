//! The events that change the tracked input state.

use vstd::prelude::*;
use crate::button::{ElementState, MouseButton};

verus! {

/// One decoded input event, as the windowing layer hands it over.
///
/// A key is named by the integer code that the windowing layer gives it; the
/// tracker only ever asks whether two codes are the same. `P` is the type of
/// a cursor position and `W` the type of a scroll amount; the tracker stores
/// both and never looks inside them.
#[derive(Copy, Debug, PartialEq)]
pub enum InputEvent<P, W> {
    /// A key went down or came up.
    Key { code: u32, state: ElementState },
    /// A mouse button went down or came up.
    MouseButton { button: MouseButton, state: ElementState },
    /// The cursor moved to `position` inside the window.
    CursorMoved { position: P },
    /// The wheel turned by `delta`.
    MouseWheel { delta: W },
    /// The cursor came into the window.
    CursorEntered,
    /// The cursor went out of the window.
    CursorLeft,
}

impl<P: Copy, W: Copy> Clone for InputEvent<P, W> {
    fn clone(&self) -> (copy: Self)
        ensures
            copy == *self,
    {
        *self
    }
}

} // verus!
