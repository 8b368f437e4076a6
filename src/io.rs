//! The controller's button bits.
use vstd::prelude::*;

verus! {

pub const RIGHT: u8 = 0x01;
pub const LEFT: u8 = 0x02;
pub const DOWN: u8 = 0x04;
pub const UP: u8 = 0x08;
pub const START: u8 = 0x10;
pub const SELECT: u8 = 0x20;
pub const B: u8 = 0x40;
pub const A: u8 = 0x80;

/// A button of the controller.
#[derive(Copy, Clone, PartialEq, Eq, Structural, Debug)]
pub enum Button {
    Right,
    Left,
    Down,
    Up,
    Start,
    Select,
    B,
    A,
}

/// The bit of a button in the polled button mask.
pub open spec fn button_bit(button: Button) -> u8 {
    match button {
        Button::Right => RIGHT,
        Button::Left => LEFT,
        Button::Down => DOWN,
        Button::Up => UP,
        Button::Start => START,
        Button::Select => SELECT,
        Button::B => B,
        Button::A => A,
    }
}

/// The bit of a button in the polled button mask.
pub fn button_code(button: Button) -> (r: u8)
    ensures
        r == button_bit(button),
{
    match button {
        Button::Right => RIGHT,
        Button::Left => LEFT,
        Button::Down => DOWN,
        Button::Up => UP,
        Button::Start => START,
        Button::Select => SELECT,
        Button::B => B,
        Button::A => A,
    }
}

/// Whether `button` is held in the polled mask `buttons`.
pub fn is_pressed(buttons: u8, button: Button) -> (r: bool)
    ensures
        r == (buttons & button_bit(button) != 0),
{
    buttons & button_code(button) != 0
}

} // verus!
