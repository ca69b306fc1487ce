//! Input buttons of the console's pad, with their guest-visible codes.
//!
//! The pad has a directional group and a button group; each group sits
//! at its own base code, with the members numbered consecutively after
//! it.  No device serves these yet: the codes are the reserved wire
//! values for a future input syscall range.

use vstd::prelude::*;

verus! {

/// A button the guest can be told about.
#[derive(Clone, Copy, PartialEq, Eq, Structural, Debug)]
pub enum InputButton {
    DirectionBase,
    Up,
    Down,
    Left,
    Right,
    ButtonBase,
    A,
    B,
    C,
    D,
}

/// The guest-visible code of each button.
pub open spec fn spec_code(b: InputButton) -> u8 {
    match b {
        InputButton::DirectionBase => 0x20,
        InputButton::Up => 0x21,
        InputButton::Down => 0x22,
        InputButton::Left => 0x23,
        InputButton::Right => 0x24,
        InputButton::ButtonBase => 0xB0,
        InputButton::A => 0xB1,
        InputButton::B => 0xB2,
        InputButton::C => 0xB3,
        InputButton::D => 0xB4,
    }
}

impl InputButton {
    /// The code this button is sent as.
    pub fn code(&self) -> (r: u8)
        ensures
            r == spec_code(*self),
    {
        match self {
            InputButton::DirectionBase => 0x20,
            InputButton::Up => 0x21,
            InputButton::Down => 0x22,
            InputButton::Left => 0x23,
            InputButton::Right => 0x24,
            InputButton::ButtonBase => 0xB0,
            InputButton::A => 0xB1,
            InputButton::B => 0xB2,
            InputButton::C => 0xB3,
            InputButton::D => 0xB4,
        }
    }
}

} // verus!
