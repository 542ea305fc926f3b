//! What the mouse and the keyboard report.

use crate::units::VUnit;
use vstd::prelude::*;

verus! {

/// A point of the window.
#[derive(Clone, Copy, Debug)]
pub struct Position {
    pub x: VUnit,
    pub y: VUnit,
}

/// Whether a button is down or up.
#[derive(Clone, Copy, Debug)]
pub enum ButtonState {
    Pressed,
    Released,
}

impl ButtonState {
    /// Whether the button is down.
    pub fn pressed(&self) -> (b: bool)
        ensures
            b == (*self is Pressed),
    {
        matches!(self, Self::Pressed)
    }
}

/// A mouse button and its state.
#[derive(Clone, Copy, Debug)]
pub enum MouseButton {
    Left(ButtonState),
    Right(ButtonState),
}

/// One report from the mouse.
#[derive(Clone, Copy, Debug)]
pub enum MouseEvent {
    Move(Position),
    Click(MouseButton),
}

/// The modifier keys held down beside a key.
#[derive(Clone, Copy, Debug)]
pub struct Modifiers {
    pub shift: bool,
    pub control: bool,
    pub alt: bool,
    pub logo: bool,
}

/// A key, and the modifier keys held down with it.
#[derive(Clone, Copy, Debug)]
pub struct KeyboardKey {
    pub key: char,
    pub modifiers: Modifiers,
}

/// One report from the keyboard.
#[derive(Clone, Copy, Debug)]
pub enum KeyboardEvent {
    Press(KeyboardKey),
    Release(KeyboardKey),
}

} // verus!
