//! The square-wave channel with frequency sweep: its register image
//! (NR10..NR14) and its sample generator.
use vstd::prelude::*;
use crate::bits::{lemma_byte, lemma_freq_n};

verus! {

/// Numerator of the channel frequency: `frequency = FREQ_MAX / (FREQ_MOD - freq_n)` Hz.
pub const FREQ_MAX: usize = 131072;
/// Denominator base of the channel frequency.
pub const FREQ_MOD: usize = 2048;
/// The largest sample rate the generators accept.
pub const MAX_SAMPLE_RATE: usize = 0x100000;

/// Register image NR10 (sweep), NR11 (duty and length), NR12 (envelope),
/// NR13 (frequency low) and NR14 (trigger, length enable, frequency high).
#[derive(Clone, Copy, Debug, PartialEq, Eq, Structural)]
pub struct Square1Regs {
    pub sweep_reg: u8,
    pub duty_length_reg: u8,
    pub vol_envelope_reg: u8,
    pub freq_lo_reg: u8,
    pub freq_hi_reg: u8,
}

impl Square1Regs {
    pub fn new() -> (r: Self)
        ensures
            r == (Square1Regs {
                sweep_reg: 0,
                duty_length_reg: 0,
                vol_envelope_reg: 0,
                freq_lo_reg: 0,
                freq_hi_reg: 0,
            }),
    {
        Square1Regs {
            sweep_reg: 0,
            duty_length_reg: 0,
            vol_envelope_reg: 0,
            freq_lo_reg: 0,
            freq_hi_reg: 0,
        }
    }

    pub fn read_nrx0(&self) -> (r: u8)
        ensures
            r == self.sweep_reg,
    {
        self.sweep_reg
    }

    pub fn write_nrx0(&mut self, val: u8)
        ensures
            *final(self) == (Square1Regs { sweep_reg: val, ..*old(self) }),
    {
        self.sweep_reg = val;
    }

    pub fn read_nrx1(&self) -> (r: u8)
        ensures
            r == self.duty_length_reg,
    {
        self.duty_length_reg
    }

    pub fn read_nrx2(&self) -> (r: u8)
        ensures
            r == self.vol_envelope_reg,
    {
        self.vol_envelope_reg
    }

    pub fn read_nrx3(&self) -> (r: u8)
        ensures
            r == self.freq_lo_reg,
    {
        self.freq_lo_reg
    }

    pub fn read_nrx4(&self) -> (r: u8)
        ensures
            r == self.freq_hi_reg,
    {
        self.freq_hi_reg
    }

    pub fn write_nrx1(&mut self, val: u8)
        ensures
            *final(self) == (Square1Regs { duty_length_reg: val, ..*old(self) }),
    {
        self.duty_length_reg = val;
    }

    pub fn write_nrx2(&mut self, val: u8)
        ensures
            *final(self) == (Square1Regs { vol_envelope_reg: val, ..*old(self) }),
    {
        self.vol_envelope_reg = val;
    }

    pub fn write_nrx3(&mut self, val: u8)
        ensures
            *final(self) == (Square1Regs { freq_lo_reg: val, ..*old(self) }),
    {
        self.freq_lo_reg = val;
    }

    pub fn write_nrx4(&mut self, val: u8)
        ensures
            *final(self) == (Square1Regs { freq_hi_reg: val, ..*old(self) }),
    {
        self.freq_hi_reg = val;
    }

    /// Whether NR14's trigger bit is set; it is cleared in the image.
    pub fn triggered(&mut self) -> (r: bool)
        ensures
            r == (old(self).freq_hi_reg & 0x80 != 0),
            *final(self) == (Square1Regs { freq_hi_reg: old(self).freq_hi_reg & 0x7F, ..*old(self) }),
    {
        let v = self.freq_hi_reg;
        if (v & 0x80) != 0 {
            self.freq_hi_reg = v & 0x7F;
            true
        } else {
            proof {
                lemma_byte(v);
            }
            false
        }
    }
}

/// Direction of an envelope or a frequency sweep.
#[derive(Clone, Copy, Debug, PartialEq, Eq, Structural)]
pub enum AmpDirection {
    Increase,
    Decrease,
    Hold,
}

/// The 11-bit frequency number of NRx3 and NRx4.
pub open spec fn freq_n_of(lo: u8, hi: u8) -> int {
    (hi & 7) * 256 + lo
}

/// Samples in one period at `frequency` Hz, at least one.
pub open spec fn phase_len_of(sample_rate: int, frequency: int) -> int {
    let p = if frequency == 0 {
        0
    } else {
        sample_rate / frequency
    };
    if p == 0 {
        1
    } else {
        p
    }
}

/// Samples of one period that are high, for duty bits `duty` (NRx1 & 0xC0).
pub open spec fn duty_len_of(phase_len: int, duty: u8) -> int {
    if duty == 0x00 {
        phase_len / 8
    } else if duty == 0x40 {
        phase_len / 4
    } else if duty == 0x80 {
        phase_len / 2
    } else {
        (phase_len / 4) * 3
    }
}

/// Generator state of the square-wave channel with sweep.
pub struct Square1Gen {
    pub sample_rate: usize,
    pub frequency: usize,
    pub freq_sweep_step: usize,
    pub freq_counter: usize,
    pub freq_sweep_dir: AmpDirection,
    pub freq_shift_amt: usize,
    pub phase: usize,
    pub phase_len: usize,
    pub duty_len: usize,
    pub duty_reg_amt: u8,
    pub length: Option<usize>,
    pub amplitude: u8,
    pub amp_sweep_step: usize,
    pub amp_counter: usize,
    pub amp_sweep_dir: AmpDirection,
}


/// Whether a length counter lets the channel sound: no counter, or one not yet run out.
pub open spec fn length_active(length: Option<usize>) -> bool {
    match length {
        Some(n) => n > 0,
        None => true,
    }
}

impl Square1Gen {
    pub open spec fn wf(self) -> bool {
        &&& self.sample_rate <= MAX_SAMPLE_RATE
        &&& self.frequency <= FREQ_MAX
        &&& self.phase <= MAX_SAMPLE_RATE
        &&& 1 <= self.phase_len <= MAX_SAMPLE_RATE
        &&& self.freq_counter <= self.freq_sweep_step
        &&& self.freq_sweep_step <= MAX_SAMPLE_RATE
        &&& self.freq_shift_amt <= 7
        &&& self.amplitude <= 15
        &&& self.amp_counter <= self.amp_sweep_step
        &&& self.amp_sweep_step <= MAX_SAMPLE_RATE
    }

    pub open spec fn sample_rate_spec(self) -> usize {
        self.sample_rate
    }

    pub open spec fn frequency_spec(self) -> usize {
        self.frequency
    }

    pub open spec fn phase_spec(self) -> usize {
        self.phase
    }

    pub open spec fn phase_len_spec(self) -> usize {
        self.phase_len
    }

    pub open spec fn duty_len_spec(self) -> usize {
        self.duty_len
    }

    pub open spec fn length_spec(self) -> Option<usize> {
        self.length
    }

    pub open spec fn amplitude_spec(self) -> u8 {
        self.amplitude
    }

    pub open spec fn amp_step_spec(self) -> usize {
        self.amp_sweep_step
    }

    pub open spec fn amp_counter_spec(self) -> usize {
        self.amp_counter
    }

    pub open spec fn amp_dir_spec(self) -> AmpDirection {
        self.amp_sweep_dir
    }

    pub open spec fn sweep_step_spec(self) -> usize {
        self.freq_sweep_step
    }

    pub open spec fn sweep_dir_spec(self) -> AmpDirection {
        self.freq_sweep_dir
    }

    pub open spec fn sweep_shift_spec(self) -> usize {
        self.freq_shift_amt
    }

    /// The generator with its period and duty recomputed for `frequency`.
    pub open spec fn with_frequency(self, frequency: usize) -> Self {
        let phase_len = phase_len_of(self.sample_rate as int, frequency as int);
        Square1Gen {
            frequency,
            phase_len: phase_len as usize,
            duty_len: duty_len_of(phase_len, self.duty_reg_amt) as usize,
            ..self
        }
    }

    /// The frequency sweep unit when its counter comes due: the frequency
    /// moves by itself shifted right by the sweep shift. The frequency is
    /// bounded by `FREQ_MAX`, the rate of frequency number 2047: a rise past
    /// it silences the channel (its length counter runs out), as the
    /// hardware's overflow check does.
    pub open spec fn sweep_spec(self) -> Self {
        let m = self.frequency >> self.freq_shift_amt;
        let g = match self.freq_sweep_dir {
            AmpDirection::Increase => if self.frequency + m <= FREQ_MAX {
                self.with_frequency((self.frequency + m) as usize)
            } else {
                Square1Gen { length: Some(0), ..self }
            },
            AmpDirection::Decrease => self.with_frequency((self.frequency - m) as usize),
            AmpDirection::Hold => self,
        };
        Square1Gen { freq_counter: 0, ..g }
    }

    /// The envelope unit when its counter comes due: one step up or down within 0..15.
    pub open spec fn envelope_spec(self) -> Self {
        let amplitude = match self.amp_sweep_dir {
            AmpDirection::Increase => if self.amplitude < 15 {
                (self.amplitude + 1) as u8
            } else {
                self.amplitude
            },
            AmpDirection::Decrease => if self.amplitude > 0 {
                (self.amplitude - 1) as u8
            } else {
                self.amplitude
            },
            AmpDirection::Hold => self.amplitude,
        };
        Square1Gen { amplitude, amp_counter: 0, ..self }
    }

    /// One output sample and the generator after it: the amplitude while the
    /// length counter allows and the phase is within the duty part, else 0;
    /// then the phase advances, the sweep, length and envelope units count.
    pub open spec fn step_spec(self) -> (Self, u8) {
        let sample = if length_active(self.length) && self.phase < self.duty_len {
            self.amplitude
        } else {
            0
        };
        let g1 = Square1Gen { phase: ((self.phase + 1) % (self.phase_len as int)) as usize, ..self };
        let g2 = if g1.freq_counter + 1 >= g1.freq_sweep_step {
            Square1Gen { freq_counter: (g1.freq_counter + 1) as usize, ..g1 }.sweep_spec()
        } else {
            Square1Gen { freq_counter: (g1.freq_counter + 1) as usize, ..g1 }
        };
        let g3 = match g2.length {
            Some(n) if n > 0 => Square1Gen { length: Some((n - 1) as usize), ..g2 },
            _ => g2,
        };
        let g4 = if g3.amp_counter + 1 >= g3.amp_sweep_step {
            Square1Gen { amp_counter: (g3.amp_counter + 1) as usize, ..g3 }.envelope_spec()
        } else {
            Square1Gen { amp_counter: (g3.amp_counter + 1) as usize, ..g3 }
        };
        (g4, sample)
    }

    /// The generator after `n` samples, and the samples.
    pub open spec fn run(self, n: nat) -> (Self, Seq<u8>)
        decreases n,
    {
        if n == 0 {
            (self, Seq::empty())
        } else {
            let (g, s) = self.run((n - 1) as nat);
            let (g2, x) = g.step_spec();
            (g2, s.push(x))
        }
    }

    /// A silent generator for output at `sample_rate` samples per second.
    pub fn new(sample_rate: usize) -> (r: Self)
        requires
            sample_rate <= MAX_SAMPLE_RATE,
        ensures
            r.wf(),
            r.sample_rate_spec() == sample_rate,
            r.amplitude_spec() == 0,
            r.length_spec() is None,
            r.phase_spec() == 0,
            r.phase_len_spec() == 1,
            r.duty_len_spec() == 0,
            r.frequency_spec() == 0,
            r.amp_dir_spec() == AmpDirection::Hold,
            r.sweep_dir_spec() == AmpDirection::Hold,
    {
        Square1Gen {
            sample_rate,
            frequency: 0,
            freq_sweep_step: 0,
            freq_counter: 0,
            freq_sweep_dir: AmpDirection::Hold,
            freq_shift_amt: 0,
            phase: 0,
            phase_len: 1,
            duty_len: 0,
            duty_reg_amt: 0,
            length: None,
            amplitude: 0,
            amp_sweep_step: 0,
            amp_counter: 0,
            amp_sweep_dir: AmpDirection::Hold,
        }
    }

    /// Recomputes the period and duty length from the frequency.
    fn calc_freq(&mut self)
        requires
            old(self).wf(),
        ensures
            *final(self) == old(self).with_frequency(old(self).frequency),
            final(self).wf(),
    {
        let p = if self.frequency == 0 {
            0
        } else {
            self.sample_rate / self.frequency
        };
        self.phase_len = if p == 0 {
            1
        } else {
            p
        };
        self.duty_len = if self.duty_reg_amt == 0x00 {
            self.phase_len / 8
        } else if self.duty_reg_amt == 0x40 {
            self.phase_len / 4
        } else if self.duty_reg_amt == 0x80 {
            self.phase_len / 2
        } else {
            (self.phase_len / 4) * 3
        };
    }

    /// The current amplitude, 0 to 15.
    pub fn amplitude(&self) -> (r: u8)
        ensures
            r == self.amplitude_spec(),
    {
        self.amplitude
    }

    /// Samples left before the length counter silences the channel, if it is enabled.
    pub fn length(&self) -> (r: Option<usize>)
        ensures
            r == self.length_spec(),
    {
        self.length
    }

    /// The generator that a trigger starts from the register image `regs`.
    pub open spec fn initialised(sample_rate: usize, regs: Square1Regs) -> Square1Gen {
        let frequency = ((FREQ_MAX as int) / (FREQ_MOD - freq_n_of(
            regs.freq_lo_reg,
            regs.freq_hi_reg,
        ))) as usize;
        let sweep_step = (sample_rate * ((regs.sweep_reg & 0x70) >> 4) / 128) as usize;
        let duty = regs.duty_length_reg & 0xC0;
        let phase_len = phase_len_of(sample_rate as int, frequency as int);
        let amp_step = (sample_rate * (regs.vol_envelope_reg & 7) / 64) as usize;
        Square1Gen {
            sample_rate,
            frequency,
            freq_sweep_step: sweep_step,
            freq_counter: 0,
            freq_sweep_dir: if sweep_step == 0 {
                AmpDirection::Hold
            } else if regs.sweep_reg & 0x08 != 0 {
                AmpDirection::Decrease
            } else {
                AmpDirection::Increase
            },
            freq_shift_amt: (regs.sweep_reg & 7) as usize,
            phase: 0,
            phase_len: phase_len as usize,
            duty_len: duty_len_of(phase_len, duty) as usize,
            duty_reg_amt: duty,
            length: if regs.freq_hi_reg & 0x40 != 0 {
                Some((sample_rate * (64 - (regs.duty_length_reg & 0x3F)) / 256) as usize)
            } else {
                None
            },
            amplitude: regs.vol_envelope_reg >> 4,
            amp_sweep_step: amp_step,
            amp_counter: 0,
            amp_sweep_dir: if amp_step == 0 {
                AmpDirection::Hold
            } else if regs.vol_envelope_reg & 0x08 != 0 {
                AmpDirection::Increase
            } else {
                AmpDirection::Decrease
            },
        }
    }

    /// Re-initialises the generator from the register image, as a trigger does.
    pub fn init_signal(&mut self, regs: &Square1Regs)
        requires
            old(self).wf(),
        ensures
            final(self).wf(),
            *final(self) == Self::initialised(old(self).sample_rate_spec(), *regs),
            final(self).amplitude_spec() <= 15,
            final(self).sample_rate_spec() == old(self).sample_rate_spec(),
            final(self).frequency_spec() == (FREQ_MAX as int) / (FREQ_MOD - freq_n_of(
                regs.freq_lo_reg,
                regs.freq_hi_reg,
            )),
            final(self).phase_spec() == 0,
            final(self).phase_len_spec() == phase_len_of(
                old(self).sample_rate_spec() as int,
                final(self).frequency_spec() as int,
            ),
            final(self).duty_len_spec() == duty_len_of(
                final(self).phase_len_spec() as int,
                regs.duty_length_reg & 0xC0,
            ),
            final(self).sweep_step_spec() == old(self).sample_rate_spec() * ((regs.sweep_reg & 0x70)
                >> 4) / 128,
            final(self).sweep_dir_spec() == if final(self).sweep_step_spec() == 0 {
                AmpDirection::Hold
            } else if regs.sweep_reg & 0x08 != 0 {
                AmpDirection::Decrease
            } else {
                AmpDirection::Increase
            },
            final(self).sweep_shift_spec() == regs.sweep_reg & 7,
            final(self).length_spec() == if regs.freq_hi_reg & 0x40 != 0 {
                Some(
                    (old(self).sample_rate_spec() * (64 - (regs.duty_length_reg & 0x3F)) / 256) as usize,
                )
            } else {
                None
            },
            final(self).amplitude_spec() == regs.vol_envelope_reg >> 4,
            final(self).amp_step_spec() == old(self).sample_rate_spec() * (regs.vol_envelope_reg & 7)
                / 64,
            final(self).amp_counter_spec() == 0,
            final(self).amp_dir_spec() == if final(self).amp_step_spec() == 0 {
                AmpDirection::Hold
            } else if regs.vol_envelope_reg & 0x08 != 0 {
                AmpDirection::Increase
            } else {
                AmpDirection::Decrease
            },
    {
        let sr = self.sample_rate;
        let hi = regs.freq_hi_reg;
        let lo = regs.freq_lo_reg;
        proof {
            lemma_freq_n(hi, lo);
        }
        let freq_n = (((hi & 0x7) as usize) << 8) | (lo as usize);
        assert((FREQ_MAX as int) / (FREQ_MOD - freq_n) <= FREQ_MAX) by (nonlinear_arith)
            requires
                freq_n <= 2047,
        ;
        self.frequency = FREQ_MAX / (FREQ_MOD - freq_n);
        let sweep = regs.sweep_reg;
        proof {
            lemma_byte(sweep);
        }
        let sweep_time = ((sweep & 0x70) >> 4) as usize;
        assert(sr * sweep_time <= 7 * MAX_SAMPLE_RATE && (sr * sweep_time) / 128 <= MAX_SAMPLE_RATE)
            by (nonlinear_arith)
            requires
                sr <= MAX_SAMPLE_RATE,
                sweep_time <= 7,
        ;
        self.freq_sweep_step = (sr * sweep_time) / 128;
        self.freq_counter = 0;
        self.freq_sweep_dir = if self.freq_sweep_step == 0 {
            AmpDirection::Hold
        } else if (sweep & 0x8) != 0 {
            AmpDirection::Decrease
        } else {
            AmpDirection::Increase
        };
        self.freq_shift_amt = (sweep & 0x7) as usize;
        let duty = regs.duty_length_reg;
        self.duty_reg_amt = duty & 0xC0;
        self.phase = 0;
        self.calc_freq();
        proof {
            lemma_byte(duty);
        }
        assert(sr * (64 - (duty & 0x3F) as usize) <= 64 * MAX_SAMPLE_RATE) by (nonlinear_arith)
            requires
                sr <= MAX_SAMPLE_RATE,
                (duty & 0x3F) <= 63,
        ;
        self.length = if (hi & 0x40) != 0 {
            Some((sr * (64 - (duty & 0x3F) as usize)) / 256)
        } else {
            None
        };
        let env = regs.vol_envelope_reg;
        proof {
            lemma_byte(env);
        }
        assert(sr * (env & 7) as usize <= 7 * MAX_SAMPLE_RATE && (sr * (env & 7) as usize) / 64
            <= MAX_SAMPLE_RATE) by (nonlinear_arith)
            requires
                sr <= MAX_SAMPLE_RATE,
                (env & 7) <= 7,
        ;
        self.amplitude = (env & 0xF0) >> 4;
        self.amp_counter = 0;
        self.amp_sweep_step = (sr * (env & 0x7) as usize) / 64;
        self.amp_sweep_dir = if self.amp_sweep_step == 0 {
            AmpDirection::Hold
        } else if (env & 0x8) != 0 {
            AmpDirection::Increase
        } else {
            AmpDirection::Decrease
        };
    }

    /// Produces one sample and advances the generator.
    fn step(&mut self) -> (r: u8)
        requires
            old(self).wf(),
        ensures
            final(self).wf(),
            (*final(self), r) == old(self).step_spec(),
            r <= 15,
    {
        let sample = if (match self.length {
            Some(n) => n > 0,
            None => true,
        }) && self.phase < self.duty_len {
            self.amplitude
        } else {
            0
        };
        self.phase = (self.phase + 1) % self.phase_len;

        self.freq_counter = self.freq_counter + 1;
        if self.freq_counter >= self.freq_sweep_step {
            let freq_modifier = self.frequency >> self.freq_shift_amt;
            let f = self.frequency;
            let sh = self.freq_shift_amt;
            assert(f >> sh <= f) by (bit_vector);
            self.freq_counter = 0;
            match self.freq_sweep_dir {
                AmpDirection::Increase => {
                    if self.frequency + freq_modifier <= FREQ_MAX {
                        self.frequency = self.frequency + freq_modifier;
                        self.calc_freq();
                    } else {
                        self.length = Some(0);
                    }
                },
                AmpDirection::Decrease => {
                    self.frequency = self.frequency - freq_modifier;
                    self.calc_freq();
                },
                AmpDirection::Hold => {},
            }
        }

        match self.length {
            Some(n) => {
                if n > 0 {
                    self.length = Some(n - 1);
                }
            },
            None => {},
        }

        self.amp_counter = self.amp_counter + 1;
        if self.amp_counter >= self.amp_sweep_step {
            match self.amp_sweep_dir {
                AmpDirection::Increase => {
                    if self.amplitude < 15 {
                        self.amplitude = self.amplitude + 1;
                    }
                },
                AmpDirection::Decrease => {
                    if self.amplitude > 0 {
                        self.amplitude = self.amplitude - 1;
                    }
                },
                AmpDirection::Hold => {},
            }
            self.amp_counter = 0;
        }
        sample
    }

    /// Fills `buffer[start..end]` with the next `end - start` samples.
    pub fn generate_signal(&mut self, buffer: &mut Vec<u8>, start: usize, end: usize)
        requires
            old(self).wf(),
            start <= end <= old(buffer)@.len(),
        ensures
            final(self).wf(),
            final(buffer)@.len() == old(buffer)@.len(),
            final(self).sample_rate_spec() == old(self).sample_rate_spec(),
            final(self).amplitude_spec() <= 15,
            forall|k: int| start <= k < end ==> #[trigger] final(buffer)@[k] <= 15,
            *final(self) == old(self).run((end - start) as nat).0,
            final(buffer)@ == old(buffer)@.subrange(0, start as int) + old(self).run(
                (end - start) as nat,
            ).1 + old(buffer)@.subrange(end as int, old(buffer)@.len() as int),
    {
        let mut i: usize = start;
        while i < end
            invariant
                start <= i <= end <= buffer@.len(),
                buffer@.len() == old(buffer)@.len(),
                self.wf(),
                self.sample_rate == old(self).sample_rate,
                *self == old(self).run((i - start) as nat).0,
                old(self).run((i - start) as nat).1.len() == i - start,
                forall|k: int| start <= k < i ==> #[trigger] buffer@[k] <= 15,
                forall|k: int| 0 <= k < start ==> #[trigger] buffer@[k] == old(buffer)@[k],
                forall|k: int| end <= k < buffer@.len() ==> #[trigger] buffer@[k] == old(buffer)@[k],
                forall|k: int|
                    start <= k < i ==> #[trigger] buffer@[k] == old(self).run((i - start) as nat).1[k
                        - start],
            decreases end - i,
        {
            let ghost n = (i - start) as nat;
            let x = self.step();
            buffer.set(i, x);
            proof {
                let prev = old(self).run(n).1;
                assert(old(self).run(n + 1).1 == prev.push(x));
                assert forall|k: int| start <= k < i + 1 implies #[trigger] buffer@[k] == old(
                    self,
                ).run((i + 1 - start) as nat).1[k - start] by {
                    if k < i {
                        assert(prev.push(x)[k - start] == prev[k - start]);
                    }
                }
            }
            i = i + 1;
        }
        proof {
            let out = old(self).run((end - start) as nat).1;
            assert(buffer@ =~= old(buffer)@.subrange(0, start as int) + out + old(buffer)@.subrange(
                end as int,
                old(buffer)@.len() as int,
            ));
        }
    }
}


/// The smaller of `a` and `b`.
pub open spec fn min_int(a: int, b: int) -> int {
    if a < b {
        a
    } else {
        b
    }
}

proof fn lemma_run_len(g: Square1Gen, n: nat)
    ensures
        g.run(n).1.len() == n,
    decreases n,
{
    if n > 0 {
        lemma_run_len(g, (n - 1) as nat);
    }
}

/// Envelope: with the envelope rising every `k` samples, counted from a
/// fresh envelope counter, the amplitude after `n` samples is the starting
/// amplitude plus `n / k`, up to 15, where it then stays; so from zero it
/// reaches 15 after `15 * k` samples.
pub proof fn lemma_envelope_rises(g: Square1Gen, n: nat)
    requires
        g.wf(),
        g.amp_dir_spec() == AmpDirection::Increase,
        g.amp_step_spec() >= 1,
        g.amp_counter_spec() == 0,
    ensures
        g.run(n).0.amplitude_spec() == min_int(
            15,
            g.amplitude_spec() + (n as int) / (g.amp_step_spec() as int),
        ),
        g.run(n).0.amp_counter_spec() == (n as int) % (g.amp_step_spec() as int),
        g.run(n).0.amp_dir_spec() == AmpDirection::Increase,
        g.run(n).0.amp_step_spec() == g.amp_step_spec(),
    decreases n,
{
    let k = g.amp_step_spec() as int;
    if n == 0 {
        vstd::arithmetic::div_mod::lemma_fundamental_div_mod_converse(0, k, 0, 0);
    } else {
        lemma_envelope_rises(g, (n - 1) as nat);
        let m = (n - 1) as int;
        let q = m / k;
        let c = m % k;
        vstd::arithmetic::div_mod::lemma_fundamental_div_mod(m, k);
        vstd::arithmetic::div_mod::lemma_mod_bound(m, k);
        assert((q + 1) * k == q * k + k) by (nonlinear_arith);
        if c + 1 == k {
            vstd::arithmetic::div_mod::lemma_fundamental_div_mod_converse(n as int, k, q + 1, 0);
        } else {
            vstd::arithmetic::div_mod::lemma_fundamental_div_mod_converse(n as int, k, q, c + 1);
        }
    }
}

/// Length: with the length counter enabled at `L` samples (NRx4 bit 6 with
/// NRx1 bits 5:0 = v gives `L = sample_rate * (64 - v) / 256`), every sample
/// from the `L`-th on is zero.
pub proof fn lemma_length_silences(g: Square1Gen, len: usize, n: nat, i: int)
    requires
        g.length_spec() == Some(len),
        len <= i < n,
    ensures
        g.run(n).1[i] == 0,
{
    lemma_length_counts_down(g, len, n);
    lemma_run_len(g, n);
}

proof fn lemma_length_counts_down(g: Square1Gen, len: usize, n: nat)
    requires
        g.length_spec() == Some(len),
    ensures
        g.run(n).0.length_spec() matches Some(m) && (m == 0 || m + n == len),
        forall|i: int| len <= i < n ==> #[trigger] g.run(n).1[i] == 0,
    decreases n,
{
    lemma_run_len(g, n);
    if n > 0 {
        lemma_length_counts_down(g, len, (n - 1) as nat);
        lemma_run_len(g, (n - 1) as nat);
        let prev = g.run((n - 1) as nat);
        assert forall|i: int| len <= i < n implies #[trigger] g.run(n).1[i] == 0 by {
            if i < n - 1 {
                assert(g.run(n).1[i] == prev.1[i]);
            }
        }
    }
}


/// Generating `a` samples and then `b` more gives the samples of generating `a + b`.
pub proof fn lemma_run_split(g: Square1Gen, a: nat, b: nat)
    ensures
        g.run(a + b).0 == g.run(a).0.run(b).0,
        g.run(a + b).1 == g.run(a).1 + g.run(a).0.run(b).1,
    decreases b,
{
    if b == 0 {
        assert(g.run(a).1 + Seq::<u8>::empty() =~= g.run(a).1);
    } else {
        lemma_run_split(g, a, (b - 1) as nat);
        assert((a + b - 1) as nat == a + (b - 1) as nat);
        let (h, s) = g.run(a).0.run((b - 1) as nat);
        let (h2, x) = h.step_spec();
        assert(g.run(a).1 + s.push(x) =~= (g.run(a).1 + s).push(x));
    }
}


/// A generator whose duty part is empty and whose frequency does not sweep,
/// as `new` makes it, writes only zeros.
pub proof fn lemma_fresh_silent(g: Square1Gen, n: nat)
    requires
        g.duty_len == 0,
        g.freq_sweep_dir == AmpDirection::Hold,
    ensures
        g.run(n).0.duty_len == 0,
        g.run(n).0.freq_sweep_dir == AmpDirection::Hold,
        forall|i: int| 0 <= i < n ==> #[trigger] g.run(n).1[i] == 0,
    decreases n,
{
    lemma_run_len(g, n);
    if n > 0 {
        lemma_fresh_silent(g, (n - 1) as nat);
        lemma_run_len(g, (n - 1) as nat);
        let prev = g.run((n - 1) as nat).1;
        assert forall|i: int| 0 <= i < n implies #[trigger] g.run(n).1[i] == 0 by {
            if i < n - 1 {
                assert(g.run(n).1[i] == prev[i]);
            }
        }
    }
}

} // verus!
