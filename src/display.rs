//! What the chip hands to a display sink and receives from it.

use vstd::prelude::*;

verus! {

/// Width of the visible screen, in pixels.
pub const W_WIDTH: usize = 160;

/// Height of the visible screen, in pixels.
pub const W_HEIGHT: usize = 144;

/// One of the four grey levels the screen can show, lightest first.
#[derive(Clone, Copy, Debug, PartialEq, Eq, Structural)]
pub enum Shade {
    White,
    LightGray,
    DarkGray,
    Black,
}

/// The shade that a two-bit palette value stands for.
pub open spec fn shade_of(v: int) -> Shade {
    if v == 0 {
        Shade::White
    } else if v == 1 {
        Shade::LightGray
    } else if v == 2 {
        Shade::DarkGray
    } else {
        Shade::Black
    }
}

/// What the display sink reports when it is polled.
pub enum DisplayEvent {
    /// A key changed state: its name, and whether it is now pressed.
    KeyEvent((String, bool)),
    Quit,
    NoEvent,
}

} // verus!
