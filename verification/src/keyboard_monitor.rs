//! The vocabulary of a local keyboard event source.  Reading the hardware
//! needs device access and stays outside the library; implementations of
//! the source trait feed decoded events into the daemon's queue.

use vstd::prelude::*;

verus! {

/// A decoded keyboard event of the keys that drive the switcher.
#[derive(Debug, Clone, Copy, PartialEq, Eq, Structural)]
pub enum KeyEvent {
    AltPressed,
    AltReleased,
    TabPressed,
    ShiftPressed,
    ShiftReleased,
}

/// A source of keyboard events.  Implementations live outside the library
/// (the real one reads input devices) and in tests.
pub trait KeyboardEventSource {
    /// Block and wait for the next keyboard event; none when the source is
    /// exhausted.
    fn next_event(&mut self) -> Option<KeyEvent>;
}

} // verus!
