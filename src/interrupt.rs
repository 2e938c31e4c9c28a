//! Interrupt bit-sets shared by the bus and the devices that signal the CPU.
use vstd::prelude::*;
use crate::bits::{lemma_byte, lemma_byte_pair};

verus! {

/// Bit of the vertical-blank interrupt.
pub const V_BLANK: u8 = 0x01;
/// Bit of the LCD status interrupt.
pub const LCD_STAT: u8 = 0x02;
/// Bit of the timer overflow interrupt.
pub const TIMER: u8 = 0x04;
/// Bit of the serial interrupt.
pub const SERIAL: u8 = 0x08;
/// Bit of the joypad interrupt.
pub const JOYPAD: u8 = 0x10;
/// Mask of all five interrupt bits.
pub const ALL_INTERRUPTS: u8 = 0x1F;

/// A set of interrupt sources, held as the low five bits of a byte.
#[derive(Clone, Copy, Debug, PartialEq, Eq, Structural)]
pub struct InterruptFlags {
    bits: u8,
}

impl View for InterruptFlags {
    type V = u8;

    closed spec fn view(&self) -> u8 {
        self.bits
    }
}

impl InterruptFlags {
    pub closed spec fn wf(self) -> bool {
        self.bits <= ALL_INTERRUPTS
    }

    /// The empty set.
    pub fn empty() -> (r: InterruptFlags)
        ensures
            r@ == 0,
            r.wf(),
    {
        InterruptFlags { bits: 0 }
    }

    /// The set whose members are the interrupt bits of `val`; other bits are dropped.
    pub fn from_bits_truncate(val: u8) -> (r: InterruptFlags)
        ensures
            r@ == val & ALL_INTERRUPTS,
            r.wf(),
    {
        proof {
            lemma_byte(val);
        }
        InterruptFlags { bits: val & ALL_INTERRUPTS }
    }

    /// The byte image of the set.
    pub fn bits(&self) -> (r: u8)
        ensures
            r == self@,
    {
        self.bits
    }

    /// Adds every member of `other`.
    pub fn insert(&mut self, other: InterruptFlags)
        requires
            old(self).wf(),
            other.wf(),
        ensures
            final(self)@ == old(self)@ | other@,
            final(self).wf(),
    {
        let a = self.bits;
        let b = other.bits;
        proof {
            lemma_byte_pair(a, b);
        }
        self.bits = a | b;
    }

    /// Removes every member of `other`.
    pub fn remove(&mut self, other: InterruptFlags)
        requires
            old(self).wf(),
        ensures
            final(self)@ == old(self)@ & !other@,
            final(self).wf(),
    {
        let a = self.bits;
        let b = other.bits;
        proof {
            lemma_byte_pair(a, b);
        }
        self.bits = a & !b;
    }

    /// The members common to both sets.
    pub fn intersection(&self, other: &InterruptFlags) -> (r: InterruptFlags)
        requires
            self.wf(),
        ensures
            r@ == self@ & other@,
            r.wf(),
    {
        let a = self.bits;
        let b = other.bits;
        proof {
            lemma_byte_pair(a, b);
        }
        InterruptFlags { bits: a & b }
    }

    /// Whether every member of `other` is in the set.
    pub fn contains(&self, other: InterruptFlags) -> (r: bool)
        ensures
            r == (self@ & other@ == other@),
    {
        self.bits & other.bits == other.bits
    }
}

} // verus!
