//! The noise channel: a linear feedback shift register with an envelope.
use vstd::prelude::*;
use crate::bits::lemma_byte;
use crate::square1::{length_active, AmpDirection, MAX_SAMPLE_RATE};

verus! {

/// Base rate of the noise clock in Hz, before the divisor and the shift.
pub const NOISE_BASE_RATE: usize = 524288;

/// The register after one clock: bit 0 XOR bit 1 is shifted in at bit 14,
/// and also at bit 6 in 7-bit mode.
pub open spec fn lfsr_clock(lfsr: u16, width7: bool) -> u16 {
    let bit = (lfsr & 1) ^ ((lfsr >> 1) & 1);
    let l = (lfsr >> 1) | (bit << 14);
    if width7 {
        (l & !0x40u16) | (bit << 6)
    } else {
        l
    }
}

/// The register after `n` clocks.
pub open spec fn lfsr_clock_n(lfsr: u16, width7: bool, n: nat) -> u16
    decreases n,
{
    if n == 0 {
        lfsr
    } else {
        lfsr_clock(lfsr_clock_n(lfsr, width7, (n - 1) as nat), width7)
    }
}

/// Register clocks per second for NR43 value `nr43`: the base rate divided by
/// the divisor code (code 0 counts as one half), shifted right by the shift
/// code plus one.
pub open spec fn noise_clock_rate(nr43: u8) -> usize {
    let base: usize = if nr43 & 7 == 0 {
        (NOISE_BASE_RATE * 2) as usize
    } else {
        (NOISE_BASE_RATE / ((nr43 & 7) as usize)) as usize
    };
    base >> ((nr43 >> 4) + 1) as u8
}

/// Generator state of the noise channel.
pub struct NoiseGen {
    pub sample_rate: usize,
    pub lfsr: u16,
    pub width7: bool,
    pub clock_rate: usize,
    pub acc: usize,
    pub length: Option<usize>,
    pub amplitude: u8,
    pub amp_sweep_step: usize,
    pub amp_counter: usize,
    pub amp_sweep_dir: AmpDirection,
}

impl NoiseGen {
    pub open spec fn wf(self) -> bool {
        &&& 1 <= self.sample_rate <= MAX_SAMPLE_RATE
        &&& self.clock_rate <= 2 * NOISE_BASE_RATE
        &&& self.acc < self.sample_rate
        &&& self.amplitude <= 15
        &&& self.amp_counter <= self.amp_sweep_step
        &&& self.amp_sweep_step <= MAX_SAMPLE_RATE
    }

    pub open spec fn sample_rate_spec(self) -> usize {
        self.sample_rate
    }

    pub open spec fn length_spec(self) -> Option<usize> {
        self.length
    }

    pub open spec fn lfsr_spec(self) -> u16 {
        self.lfsr
    }

    pub open spec fn amplitude_spec(self) -> u8 {
        self.amplitude
    }

    pub open spec fn width7_spec(self) -> bool {
        self.width7
    }

    /// Register clocks per second.
    pub open spec fn clock_rate_spec(self) -> usize {
        self.clock_rate
    }

    pub open spec fn amp_step_spec(self) -> usize {
        self.amp_sweep_step
    }

    pub open spec fn amp_dir_spec(self) -> AmpDirection {
        self.amp_sweep_dir
    }

    /// One sample and the generator after it: the amplitude while the length
    /// allows and bit 0 of the register is clear, else 0; then the register
    /// is clocked as often as its rate has come due, and the length and
    /// envelope units count.
    pub open spec fn step_spec(self) -> (Self, u8) {
        let sample = if length_active(self.length) && self.lfsr & 1 == 0 {
            self.amplitude
        } else {
            0
        };
        let total = self.acc + self.clock_rate;
        let clocks = total / (self.sample_rate as int);
        let g1 = NoiseGen {
            lfsr: lfsr_clock_n(self.lfsr, self.width7, clocks as nat),
            acc: (total % (self.sample_rate as int)) as usize,
            ..self
        };
        let g2 = match g1.length {
            Some(n) if n > 0 => NoiseGen { length: Some((n - 1) as usize), ..g1 },
            _ => g1,
        };
        let counter = g2.amp_counter + 1;
        let g3 = if counter >= g2.amp_sweep_step {
            let amplitude = match g2.amp_sweep_dir {
                AmpDirection::Increase => if g2.amplitude < 15 {
                    (g2.amplitude + 1) as u8
                } else {
                    g2.amplitude
                },
                AmpDirection::Decrease => if g2.amplitude > 0 {
                    (g2.amplitude - 1) as u8
                } else {
                    g2.amplitude
                },
                AmpDirection::Hold => g2.amplitude,
            };
            NoiseGen { amplitude, amp_counter: 0, ..g2 }
        } else {
            NoiseGen { amp_counter: counter as usize, ..g2 }
        };
        (g3, sample)
    }

    pub open spec fn run(self, n: nat) -> (Self, Seq<u8>)
        decreases n,
    {
        if n == 0 {
            (self, Seq::empty())
        } else {
            let (g, s) = self.run((n - 1) as nat);
            let (g2, x) = g.step_spec();
            (g2, s.push(x))
        }
    }

    pub fn new(sample_rate: usize) -> (r: Self)
        requires
            1 <= sample_rate <= MAX_SAMPLE_RATE,
        ensures
            r.wf(),
            r.sample_rate_spec() == sample_rate,
            r.length_spec() is None,
            r.amplitude_spec() == 0,
    {
        NoiseGen {
            sample_rate,
            lfsr: 0x7FFF,
            width7: false,
            clock_rate: 0,
            acc: 0,
            length: None,
            amplitude: 0,
            amp_sweep_step: 0,
            amp_counter: 0,
            amp_sweep_dir: AmpDirection::Hold,
        }
    }

    /// The generator that a trigger starts from NR41..NR44.
    pub open spec fn initialised(sample_rate: usize, nr41: u8, nr42: u8, nr43: u8, nr44: u8) -> NoiseGen {
        let amp_step = (sample_rate * (nr42 & 7) / 64) as usize;
        NoiseGen {
            sample_rate,
            lfsr: 0x7FFF,
            width7: nr43 & 0x08 != 0,
            clock_rate: noise_clock_rate(nr43),
            acc: 0,
            length: if nr44 & 0x40 != 0 {
                Some((sample_rate * (64 - (nr41 & 0x3F)) / 256) as usize)
            } else {
                None
            },
            amplitude: nr42 >> 4,
            amp_sweep_step: amp_step,
            amp_counter: 0,
            amp_sweep_dir: if amp_step == 0 {
                AmpDirection::Hold
            } else if nr42 & 0x08 != 0 {
                AmpDirection::Increase
            } else {
                AmpDirection::Decrease
            },
        }
    }

    /// Re-initialises from NR41..NR44 (`nr41`, `nr42`, `nr43`, `nr44`), as a trigger does.
    pub fn init_signal(&mut self, nr41: u8, nr42: u8, nr43: u8, nr44: u8)
        requires
            old(self).wf(),
        ensures
            final(self).wf(),
            *final(self) == Self::initialised(old(self).sample_rate_spec(), nr41, nr42, nr43, nr44),
            final(self).sample_rate_spec() == old(self).sample_rate_spec(),
            final(self).lfsr_spec() == 0x7FFF,
            final(self).width7_spec() == (nr43 & 0x08 != 0),
            final(self).clock_rate_spec() == noise_clock_rate(nr43),
            final(self).amplitude_spec() == nr42 >> 4,
            final(self).amp_step_spec() == old(self).sample_rate_spec() * (nr42 & 7) / 64,
            final(self).amp_dir_spec() == if final(self).amp_step_spec() == 0 {
                AmpDirection::Hold
            } else if nr42 & 0x08 != 0 {
                AmpDirection::Increase
            } else {
                AmpDirection::Decrease
            },
            final(self).length_spec() == if nr44 & 0x40 != 0 {
                Some((old(self).sample_rate_spec() * (64 - (nr41 & 0x3F)) / 256) as usize)
            } else {
                None
            },
    {
        let sr = self.sample_rate;
        self.lfsr = 0x7FFF;
        self.width7 = nr43 & 0x08 != 0;
        let r = nr43 & 7;
        let s = nr43 >> 4;
        let base: usize = if r == 0 {
            NOISE_BASE_RATE * 2
        } else {
            NOISE_BASE_RATE / (r as usize)
        };
        assert(base <= 2 * NOISE_BASE_RATE) by (nonlinear_arith)
            requires
                r == 0 ==> base == (NOISE_BASE_RATE as int) * 2,
                r != 0 ==> base == (NOISE_BASE_RATE as int) / (r as int),
        ;
        proof {
            lemma_byte(nr43);
            lemma_byte(nr41);
            lemma_byte(nr42);
        }
        let shifted = base >> (s + 1);
        assert(base >> (s + 1) <= base) by (bit_vector);
        self.clock_rate = shifted;
        self.acc = 0;
        assert(sr * (64 - (nr41 & 0x3F) as usize) <= 64 * MAX_SAMPLE_RATE) by (nonlinear_arith)
            requires
                sr <= MAX_SAMPLE_RATE,
                (nr41 & 0x3F) <= 63,
        ;
        self.length = if nr44 & 0x40 != 0 {
            Some((sr * (64 - (nr41 & 0x3F) as usize)) / 256)
        } else {
            None
        };
        assert(sr * (nr42 & 7) as usize <= 7 * MAX_SAMPLE_RATE && (sr * (nr42 & 7) as usize) / 64
            <= MAX_SAMPLE_RATE) by (nonlinear_arith)
            requires
                sr <= MAX_SAMPLE_RATE,
                (nr42 & 7) <= 7,
        ;
        self.amplitude = nr42 >> 4;
        self.amp_counter = 0;
        self.amp_sweep_step = (sr * (nr42 & 7) as usize) / 64;
        self.amp_sweep_dir = if self.amp_sweep_step == 0 {
            AmpDirection::Hold
        } else if nr42 & 0x08 != 0 {
            AmpDirection::Increase
        } else {
            AmpDirection::Decrease
        };
    }

    fn clock(&mut self)
        ensures
            *final(self) == (NoiseGen { lfsr: lfsr_clock(old(self).lfsr, old(self).width7), ..*old(self) }),
    {
        let l = self.lfsr;
        let bit = (l & 1) ^ ((l >> 1) & 1);
        let n = (l >> 1) | (bit << 14);
        self.lfsr = if self.width7 {
            (n & !0x40u16) | (bit << 6)
        } else {
            n
        };
    }

    fn step(&mut self) -> (r: u8)
        requires
            old(self).wf(),
        ensures
            final(self).wf(),
            (*final(self), r) == old(self).step_spec(),
    {
        let sample = if (match self.length {
            Some(n) => n > 0,
            None => true,
        }) && self.lfsr & 1 == 0 {
            self.amplitude
        } else {
            0
        };
        let total = self.acc + self.clock_rate;
        let clocks = total / self.sample_rate;
        let ghost start = *self;
        let mut k: usize = 0;
        while k < clocks
            invariant
                k <= clocks,
                *self == (NoiseGen { lfsr: lfsr_clock_n(start.lfsr, start.width7, k as nat), ..start }),
            decreases clocks - k,
        {
            self.clock();
            k = k + 1;
        }
        self.acc = total % self.sample_rate;
        match self.length {
            Some(n) => {
                if n > 0 {
                    self.length = Some(n - 1);
                }
            },
            None => {},
        }
        let counter = self.amp_counter + 1;
        if counter >= self.amp_sweep_step {
            match self.amp_sweep_dir {
                AmpDirection::Increase => {
                    if self.amplitude < 15 {
                        self.amplitude = self.amplitude + 1;
                    }
                },
                AmpDirection::Decrease => {
                    if self.amplitude > 0 {
                        self.amplitude = self.amplitude - 1;
                    }
                },
                AmpDirection::Hold => {},
            }
            self.amp_counter = 0;
        } else {
            self.amp_counter = counter;
        }
        sample
    }

    /// Fills `buffer[start..end]` with the next `end - start` samples.
    pub fn generate_signal(&mut self, buffer: &mut Vec<u8>, start: usize, end: usize)
        requires
            old(self).wf(),
            start <= end <= old(buffer)@.len(),
        ensures
            final(self).wf(),
            final(buffer)@.len() == old(buffer)@.len(),
            final(self).sample_rate_spec() == old(self).sample_rate_spec(),
            *final(self) == old(self).run((end - start) as nat).0,
            final(buffer)@ == old(buffer)@.subrange(0, start as int) + old(self).run(
                (end - start) as nat,
            ).1 + old(buffer)@.subrange(end as int, old(buffer)@.len() as int),
    {
        let mut i: usize = start;
        while i < end
            invariant
                start <= i <= end <= buffer@.len(),
                buffer@.len() == old(buffer)@.len(),
                self.wf(),
                self.sample_rate == old(self).sample_rate,
                *self == old(self).run((i - start) as nat).0,
                old(self).run((i - start) as nat).1.len() == i - start,
                forall|k: int| 0 <= k < start ==> #[trigger] buffer@[k] == old(buffer)@[k],
                forall|k: int| end <= k < buffer@.len() ==> #[trigger] buffer@[k] == old(buffer)@[k],
                forall|k: int|
                    start <= k < i ==> #[trigger] buffer@[k] == old(self).run((i - start) as nat).1[k
                        - start],
            decreases end - i,
        {
            let ghost n = (i - start) as nat;
            let x = self.step();
            buffer.set(i, x);
            proof {
                let prev = old(self).run(n).1;
                assert(old(self).run(n + 1).1 == prev.push(x));
                assert forall|k: int| start <= k < i + 1 implies #[trigger] buffer@[k] == old(
                    self,
                ).run((i + 1 - start) as nat).1[k - start] by {
                    if k < i {
                        assert(prev.push(x)[k - start] == prev[k - start]);
                    }
                }
            }
            i = i + 1;
        }
        proof {
            let out = old(self).run((end - start) as nat).1;
            assert(buffer@ =~= old(buffer)@.subrange(0, start as int) + out + old(buffer)@.subrange(
                end as int,
                old(buffer)@.len() as int,
            ));
        }
    }
}


/// Generating `a` samples and then `b` more gives the samples of generating `a + b`.
pub proof fn lemma_run_split(g: NoiseGen, a: nat, b: nat)
    ensures
        g.run(a + b).0 == g.run(a).0.run(b).0,
        g.run(a + b).1 == g.run(a).1 + g.run(a).0.run(b).1,
    decreases b,
{
    if b == 0 {
        assert(g.run(a).1 + Seq::<u8>::empty() =~= g.run(a).1);
    } else {
        lemma_run_split(g, a, (b - 1) as nat);
        assert((a + b - 1) as nat == a + (b - 1) as nat);
        let (h, s) = g.run(a).0.run((b - 1) as nat);
        let (h2, x) = h.step_spec();
        assert(g.run(a).1 + s.push(x) =~= (g.run(a).1 + s).push(x));
    }
}

} // verus!
