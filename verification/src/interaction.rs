//! Pointer events and the mouse-gesture state machine's states.
//!
//! Exactly one gesture is active at a time; transitions happen only on
//! button presses and releases, cursor motion and wheel scrolls.

use vstd::prelude::*;
use crate::cell::Cell;
use crate::geometry::Vector2;

verus! {

/// A mouse button.
#[derive(Debug, Clone, Copy, PartialEq, Eq, Structural)]
pub enum Button {
    Left,
    Right,
    /// Any button other than the left or right one.
    Other,
}

/// A pointer event, delivered together with the current cursor position.
/// A wheel amount is in milli-lines; positive zooms in.
#[derive(Debug, Clone, Copy, PartialEq, Eq, Structural)]
pub enum Event {
    ButtonPressed(Button),
    ButtonReleased,
    CursorMoved,
    WheelScrolled { y: i64 },
}

/// The ongoing mouse gesture. `Panning` remembers the translation and the
/// cursor position at the moment the pan began.
#[derive(Debug, Clone, Copy, PartialEq, Eq, Structural)]
pub enum Interaction {
    Idle,
    Panning { translation: Vector2, start: Vector2 },
    Drawing,
    Erasing,
}

/// What an event asks to be done to the cell set.
#[derive(Debug, Clone, Copy, PartialEq, Eq, Structural)]
pub enum Intent {
    Populate(Cell),
    Unpopulate(Cell),
}

} // verus!
