//! The sixteen-key input device. The host input layer owns it and tracks at
//! most one key at a time (a deliberate simplification of the hardware,
//! which permits simultaneous keys); the processor only reads it.

use vstd::prelude::*;

verus! {

/// Input state: the key currently observed by the host, if any.
/// Its view is that `Option<u8>`.
pub struct Keyboard {
    key_pressed: Option<u8>,
}

impl View for Keyboard {
    type V = Option<u8>;

    closed spec fn view(&self) -> Option<u8> {
        self.key_pressed
    }
}

impl Keyboard {
    /// A fresh keyboard with no key observed.
    pub fn new() -> (r: Keyboard)
        ensures
            r@ == Option::<u8>::None,
    {
        Keyboard { key_pressed: None }
    }

    /// Host-driven: records which key is currently observed, or `None`
    /// when no key is.
    pub fn set_key_pressed(&mut self, key: Option<u8>)
        ensures
            final(self)@ == key,
    {
        self.key_pressed = key;
    }

    /// True exactly when `key` is the currently observed key.
    pub fn is_key_pressed(&self, key: u8) -> (r: bool)
        ensures
            r == (self@ == Some(key)),
    {
        match self.key_pressed {
            Some(k) => k == key,
            None => false,
        }
    }

    /// The currently observed key, for the blocking key-wait instruction.
    pub fn get_key_pressed(&self) -> (r: Option<u8>)
        ensures
            r == self@,
    {
        self.key_pressed
    }
}

} // verus!
