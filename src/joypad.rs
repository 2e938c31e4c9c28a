//! The joypad register at 0xFF00.
use vstd::prelude::*;

verus! {

/// One of the eight keys.
#[derive(Clone, Copy, Debug, PartialEq, Eq, Structural)]
pub enum Key {
    A,
    B,
    Select,
    Start,
    Up,
    Down,
    Left,
    Right,
}

/// Key states and the two select bits written by the program.
#[derive(Clone, Copy, Debug, PartialEq, Eq, Structural)]
pub struct Joypad {
    pub a: bool,
    pub b: bool,
    pub select: bool,
    pub start: bool,
    pub up: bool,
    pub down: bool,
    pub left: bool,
    pub right: bool,
    /// Bits 5 and 4 as last written; a clear bit selects that group.
    pub select_bits: u8,
}

/// A nibble with bit `k` clear where the `k`-th key is pressed.
pub open spec fn nibble(k0: bool, k1: bool, k2: bool, k3: bool) -> u8 {
    ((if k0 { 0u8 } else { 1u8 }) | (if k1 { 0u8 } else { 2u8 }) | (if k2 { 0u8 } else { 4u8 }) | (
    if k3 { 0u8 } else { 8u8 })) as u8
}

impl Joypad {
    /// Low nibble of a read: directions when bit 4 is clear, buttons when bit 5
    /// is clear, both combined when both are clear; pressed keys read as 0.
    pub open spec fn low_nibble(self) -> u8 {
        let dirs = nibble(self.right, self.left, self.up, self.down);
        let buttons = nibble(self.a, self.b, self.select, self.start);
        let d = if self.select_bits & 0x10 == 0 { dirs } else { 0xFu8 };
        let b = if self.select_bits & 0x20 == 0 { buttons } else { 0xFu8 };
        d & b
    }

    pub open spec fn read_spec(self) -> u8 {
        0xC0 | self.select_bits | self.low_nibble()
    }

    /// No key pressed, neither group selected.
    pub open spec fn new_spec() -> Joypad {
        Joypad {
            a: false,
            b: false,
            select: false,
            start: false,
            up: false,
            down: false,
            left: false,
            right: false,
            select_bits: 0x30,
        }
    }

    pub fn new() -> (r: Joypad)
        ensures
            r == Self::new_spec(),
    {
        Joypad {
            a: false,
            b: false,
            select: false,
            start: false,
            up: false,
            down: false,
            left: false,
            right: false,
            select_bits: 0x30,
        }
    }

    fn nib(k0: bool, k1: bool, k2: bool, k3: bool) -> (r: u8)
        ensures
            r == nibble(k0, k1, k2, k3),
    {
        (if k0 { 0u8 } else { 1u8 }) | (if k1 { 0u8 } else { 2u8 }) | (if k2 { 0u8 } else { 4u8 }) | (
        if k3 { 0u8 } else { 8u8 })
    }

    pub fn read(&self) -> (r: u8)
        ensures
            r == self.read_spec(),
    {
        let dirs = Self::nib(self.right, self.left, self.up, self.down);
        let buttons = Self::nib(self.a, self.b, self.select, self.start);
        let d = if self.select_bits & 0x10 == 0 { dirs } else { 0xF };
        let b = if self.select_bits & 0x20 == 0 { buttons } else { 0xF };
        0xC0 | self.select_bits | (d & b)
    }

    /// Keeps the two select bits of `val`.
    pub fn write(&mut self, val: u8)
        ensures
            *final(self) == (Joypad { select_bits: val & 0x30, ..*old(self) }),
    {
        self.select_bits = val & 0x30;
    }

    /// The keys with `key` pressed (`true`) or released.
    pub open spec fn set_key_spec(self, key: Key, pressed: bool) -> Joypad {
        match key {
            Key::A => Joypad { a: pressed, ..self },
            Key::B => Joypad { b: pressed, ..self },
            Key::Select => Joypad { select: pressed, ..self },
            Key::Start => Joypad { start: pressed, ..self },
            Key::Up => Joypad { up: pressed, ..self },
            Key::Down => Joypad { down: pressed, ..self },
            Key::Left => Joypad { left: pressed, ..self },
            Key::Right => Joypad { right: pressed, ..self },
        }
    }

    /// Records that `key` is pressed (`true`) or released.
    pub fn set_key(&mut self, key: Key, pressed: bool)
        ensures
            *final(self) == old(self).set_key_spec(key, pressed),
    {
        match key {
            Key::A => self.a = pressed,
            Key::B => self.b = pressed,
            Key::Select => self.select = pressed,
            Key::Start => self.start = pressed,
            Key::Up => self.up = pressed,
            Key::Down => self.down = pressed,
            Key::Left => self.left = pressed,
            Key::Right => self.right = pressed,
        }
    }
}

} // verus!
