//! Buttons and the two states a button can be in.

use vstd::prelude::*;

verus! {

/// Whether a key or a mouse button has gone down or come up.
#[derive(Clone, Copy, Debug, PartialEq, Eq, Hash, Structural)]
pub enum ElementState {
    Pressed,
    Released,
}

/// A button of a pointing device.
///
/// The five named buttons are the ones every platform reports; any further
/// button is carried by its platform number.
#[derive(Clone, Copy, Debug, PartialEq, Eq, Hash, Structural)]
pub enum MouseButton {
    Left,
    Right,
    Middle,
    Back,
    Forward,
    Other(u16),
}

/// The number of named buttons; the codes of the others start here.
pub const NAMED_BUTTONS: u32 = 5;

/// The largest code that stands for a button.
pub const MAX_BUTTON_CODE: u32 = 65540;

impl MouseButton {
    /// The integer that stands for this button inside hashed collections.
    pub open spec fn spec_code(self) -> u32 {
        match self {
            MouseButton::Left => 0,
            MouseButton::Right => 1,
            MouseButton::Middle => 2,
            MouseButton::Back => 3,
            MouseButton::Forward => 4,
            MouseButton::Other(n) => (NAMED_BUTTONS + n) as u32,
        }
    }

    /// Whether `code` stands for some button.
    pub open spec fn is_code(code: u32) -> bool {
        code <= MAX_BUTTON_CODE
    }

    /// The button that `code` stands for, where it stands for one.
    pub open spec fn spec_from_code(code: u32) -> Option<MouseButton> {
        if code == 0 {
            Some(MouseButton::Left)
        } else if code == 1 {
            Some(MouseButton::Right)
        } else if code == 2 {
            Some(MouseButton::Middle)
        } else if code == 3 {
            Some(MouseButton::Back)
        } else if code == 4 {
            Some(MouseButton::Forward)
        } else if code <= MAX_BUTTON_CODE {
            Some(MouseButton::Other((code - NAMED_BUTTONS) as u16))
        } else {
            None
        }
    }

    /// Encodes the button as an integer.
    #[verifier::when_used_as_spec(spec_code)]
    pub fn code(self) -> (c: u32)
        ensures
            c == self.spec_code(),
            Self::is_code(c),
    {
        match self {
            MouseButton::Left => 0,
            MouseButton::Right => 1,
            MouseButton::Middle => 2,
            MouseButton::Back => 3,
            MouseButton::Forward => 4,
            MouseButton::Other(n) => NAMED_BUTTONS + n as u32,
        }
    }

    /// Decodes an integer; `None` exactly when no button has that code.
    #[verifier::when_used_as_spec(spec_from_code)]
    pub fn from_code(code: u32) -> (b: Option<MouseButton>)
        ensures
            b == Self::spec_from_code(code),
            b is Some <==> Self::is_code(code),
            b is Some ==> b->Some_0.spec_code() == code,
    {
        if code == 0 {
            Some(MouseButton::Left)
        } else if code == 1 {
            Some(MouseButton::Right)
        } else if code == 2 {
            Some(MouseButton::Middle)
        } else if code == 3 {
            Some(MouseButton::Back)
        } else if code == 4 {
            Some(MouseButton::Forward)
        } else if code <= MAX_BUTTON_CODE {
            Some(MouseButton::Other((code - NAMED_BUTTONS) as u16))
        } else {
            None
        }
    }

    /// Two buttons with one code are one button.
    pub proof fn lemma_code_injective(a: MouseButton, b: MouseButton)
        requires
            a.spec_code() == b.spec_code(),
        ensures
            a == b,
    {
    }

    /// Decoding undoes encoding, and encoding undoes decoding.
    pub proof fn lemma_code_round_trip(button: MouseButton, code: u32)
        ensures
            Self::is_code(button.spec_code()),
            Self::spec_from_code(button.spec_code()) == Some(button),
            Self::is_code(code) ==> Self::spec_from_code(code)->Some_0.spec_code() == code,
            !Self::is_code(code) ==> Self::spec_from_code(code) is None,
    {
    }
}

} // verus!
