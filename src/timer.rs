//! The divider and the programmable interval timer.
use vstd::prelude::*;

verus! {

/// Machine cycles per increment of TIMA for each TAC clock select.
pub open spec fn timer_period(tac: u8) -> int {
    let sel = tac & 3;
    if sel == 0 {
        1024
    } else if sel == 1 {
        16
    } else if sel == 2 {
        64
    } else {
        256
    }
}

/// DIV, TIMA, TMA and TAC, with the internal cycle counter whose high byte is DIV.
#[derive(Clone, Copy, Debug, PartialEq, Eq, Structural)]
pub struct Timer {
    /// Internal counter, one step per machine cycle; DIV is its high byte.
    pub counter: u16,
    pub tima: u8,
    pub tma: u8,
    pub tac: u8,
}

/// The timer after one machine cycle, and whether TIMA overflowed in it.
pub open spec fn timer_tick(t: Timer) -> (Timer, bool) {
    let counter = ((t.counter + 1) % 0x10000) as u16;
    if t.tac & 4 != 0 && (counter as int) % timer_period(t.tac) == 0 {
        if t.tima == 0xFF {
            (Timer { counter, tima: t.tma, ..t }, true)
        } else {
            (Timer { counter, tima: (t.tima + 1) as u8, ..t }, false)
        }
    } else {
        (Timer { counter, ..t }, false)
    }
}

/// The timer after `n` machine cycles, and whether TIMA overflowed in any of them.
pub open spec fn timer_run(t: Timer, n: nat) -> (Timer, bool)
    decreases n,
{
    if n == 0 {
        (t, false)
    } else {
        let (t1, f1) = timer_run(t, (n - 1) as nat);
        let (t2, f2) = timer_tick(t1);
        (t2, f1 || f2)
    }
}

impl Timer {
    /// What a read of `loc` (0xFF04..0xFF07) returns.
    pub open spec fn read_spec(self, loc: u16) -> u8 {
        if loc == 0xFF04 {
            (self.counter / 256) as u8
        } else if loc == 0xFF05 {
            self.tima
        } else if loc == 0xFF06 {
            self.tma
        } else if loc == 0xFF07 {
            self.tac
        } else {
            0
        }
    }

    /// The timer after `val` is written at `loc`; a write to DIV resets it.
    pub open spec fn write_spec(self, loc: u16, val: u8) -> Timer {
        if loc == 0xFF04 {
            Timer { counter: 0, ..self }
        } else if loc == 0xFF05 {
            Timer { tima: val, ..self }
        } else if loc == 0xFF06 {
            Timer { tma: val, ..self }
        } else if loc == 0xFF07 {
            Timer { tac: val & 7, ..self }
        } else {
            self
        }
    }

    pub fn new() -> (r: Timer)
        ensures
            r == (Timer { counter: 0, tima: 0, tma: 0, tac: 0 }),
    {
        Timer { counter: 0, tima: 0, tma: 0, tac: 0 }
    }

    pub fn read(&self, loc: u16) -> (r: u8)
        ensures
            r == self.read_spec(loc),
    {
        if loc == 0xFF04 {
            (self.counter / 256) as u8
        } else if loc == 0xFF05 {
            self.tima
        } else if loc == 0xFF06 {
            self.tma
        } else if loc == 0xFF07 {
            self.tac
        } else {
            0
        }
    }

    pub fn write(&mut self, loc: u16, val: u8)
        ensures
            *final(self) == old(self).write_spec(loc, val),
    {
        if loc == 0xFF04 {
            self.counter = 0;
        } else if loc == 0xFF05 {
            self.tima = val;
        } else if loc == 0xFF06 {
            self.tma = val;
        } else if loc == 0xFF07 {
            self.tac = val & 7;
        }
    }

    /// Machine cycles per TIMA increment under the current TAC.
    fn period(&self) -> (r: u16)
        ensures
            r == timer_period(self.tac),
    {
        let sel = self.tac & 3;
        if sel == 0 {
            1024
        } else if sel == 1 {
            16
        } else if sel == 2 {
            64
        } else {
            256
        }
    }

    /// Advances one machine cycle; returns whether TIMA overflowed.
    fn tick(&mut self) -> (r: bool)
        ensures
            (*final(self), r) == timer_tick(*old(self)),
    {
        self.counter = self.counter.wrapping_add(1);
        if self.tac & 4 != 0 && self.counter % self.period() == 0 {
            if self.tima == 0xFF {
                self.tima = self.tma;
                true
            } else {
                self.tima = self.tima + 1;
                false
            }
        } else {
            false
        }
    }

    /// Advances `cycles` machine cycles; returns whether TIMA overflowed (and
    /// was reloaded from TMA) at least once.
    pub fn update_timers(&mut self, cycles: u32) -> (r: bool)
        ensures
            (*final(self), r) == timer_run(*old(self), cycles as nat),
    {
        let mut overflow = false;
        let mut i: u32 = 0;
        while i < cycles
            invariant
                i <= cycles,
                (*self, overflow) == timer_run(*old(self), i as nat),
            decreases cycles - i,
        {
            let f = self.tick();
            overflow = overflow || f;
            i = i + 1;
        }
        overflow
    }
}

} // verus!
