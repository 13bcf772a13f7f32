//! Frame-by-frame bookkeeping for an interactive 3D application.
//!
//! The crate keeps the discrete state that a frame loop carries from one
//! frame to the next: which keys and mouse buttons are held and which of
//! them changed during the current frame, where the cursor is, which named
//! actions are bound to which keys, the last few frame samples, and the
//! size and texture format of the drawing surface. Every operation has a
//! contract over mathematical sets, maps and sequences, and every contract
//! is proved.
//!
//! Cursor positions, scroll amounts and frame samples are type parameters:
//! the crate stores and hands back such values and never computes with them.

pub mod button;
pub mod event;
pub mod input_map;
pub mod input_state;
pub mod samples;
pub mod surface;

pub use button::{ElementState, MouseButton};
pub use event::InputEvent;
pub use input_map::{InputMap, InputMapView};
pub use input_state::{InputState, InputStateView};
pub use samples::FrameSamples;
pub use surface::{preferred_format, SurfaceExtent};
