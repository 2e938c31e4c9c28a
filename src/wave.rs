//! The wave channel: 32 four-bit samples played in a loop.
use vstd::prelude::*;
use crate::bits::{lemma_byte, lemma_freq_n};
use crate::square1::{freq_n_of, length_active, phase_len_of, MAX_SAMPLE_RATE};

verus! {

/// Numerator of the wave channel's table rate: `rate = WAVE_FREQ_MAX / (2048 - freq_n)` Hz.
pub const WAVE_FREQ_MAX: usize = 65536;

/// Entry `k` (0 to 31) of the wave table held in 16 bytes, high nibble first.
pub open spec fn wave_entry(table: Seq<u8>, k: int) -> u8 {
    if k % 2 == 0 {
        table[k / 2] >> 4
    } else {
        table[k / 2] & 0xF
    }
}

/// Generator state of the wave channel.
pub struct WaveGen {
    pub sample_rate: usize,
    pub enabled: bool,
    pub phase: usize,
    pub phase_len: usize,
    pub length: Option<usize>,
    pub volume_code: u8,
}

impl WaveGen {
    pub open spec fn wf(self) -> bool {
        &&& self.sample_rate <= MAX_SAMPLE_RATE
        &&& 1 <= self.phase_len <= MAX_SAMPLE_RATE
        &&& self.phase < self.phase_len
        &&& self.volume_code <= 3
    }

    pub open spec fn sample_rate_spec(self) -> usize {
        self.sample_rate
    }

    pub open spec fn length_spec(self) -> Option<usize> {
        self.length
    }

    pub open spec fn enabled_spec(self) -> bool {
        self.enabled
    }

    pub open spec fn phase_spec(self) -> usize {
        self.phase
    }

    pub open spec fn phase_len_spec(self) -> usize {
        self.phase_len
    }

    pub open spec fn volume_code_spec(self) -> u8 {
        self.volume_code
    }

    /// One sample and the generator after it: the table entry at the phase,
    /// shifted right by 0, 1 or 2 for volume codes 1, 2 and 3; zero when the
    /// channel is off, muted (code 0) or its length has run out.
    pub open spec fn step_spec(self, table: Seq<u8>) -> (Self, u8) {
        let pos = (self.phase * 32) / (self.phase_len as int);
        let sample = if self.enabled && length_active(self.length) && self.volume_code != 0 {
            wave_entry(table, pos) >> ((self.volume_code - 1) as u8)
        } else {
            0
        };
        let length = match self.length {
            Some(n) if n > 0 => Some((n - 1) as usize),
            _ => self.length,
        };
        (
            WaveGen {
                phase: ((self.phase + 1) % (self.phase_len as int)) as usize,
                length,
                ..self
            },
            sample,
        )
    }

    pub open spec fn run(self, table: Seq<u8>, n: nat) -> (Self, Seq<u8>)
        decreases n,
    {
        if n == 0 {
            (self, Seq::empty())
        } else {
            let (g, s) = self.run(table, (n - 1) as nat);
            let (g2, x) = g.step_spec(table);
            (g2, s.push(x))
        }
    }

    pub fn new(sample_rate: usize) -> (r: Self)
        requires
            sample_rate <= MAX_SAMPLE_RATE,
        ensures
            r.wf(),
            r.sample_rate_spec() == sample_rate,
            r.length_spec() is None,
            !r.enabled_spec(),
    {
        WaveGen { sample_rate, enabled: false, phase: 0, phase_len: 1, length: None, volume_code: 0 }
    }

    /// The generator that a trigger starts from NR30..NR34. The wave
    /// channel's length register NR31 is a full byte, so its counter runs
    /// `256 - NR31` steps of 1/256 s (the other channels use `64 - NRx1[5:0]`).
    pub open spec fn initialised(sample_rate: usize, nr30: u8, nr31: u8, nr32: u8, nr33: u8, nr34: u8) -> WaveGen {
        let rate = (WAVE_FREQ_MAX as int) / (2048 - freq_n_of(nr33, nr34));
        WaveGen {
            sample_rate,
            enabled: nr30 & 0x80 != 0,
            phase: 0,
            phase_len: phase_len_of(sample_rate as int, rate) as usize,
            length: if nr34 & 0x40 != 0 {
                Some((sample_rate * (256 - nr31) / 256) as usize)
            } else {
                None
            },
            volume_code: (nr32 >> 5) & 3,
        }
    }

    /// Re-initialises from NR30..NR34 (`nr30`, `nr31`, `nr32`, `nr33`, `nr34`), as a trigger does.
    pub fn init_signal(&mut self, nr30: u8, nr31: u8, nr32: u8, nr33: u8, nr34: u8)
        requires
            old(self).wf(),
        ensures
            final(self).wf(),
            *final(self) == Self::initialised(old(self).sample_rate_spec(), nr30, nr31, nr32, nr33, nr34),
            final(self).sample_rate_spec() == old(self).sample_rate_spec(),
            final(self).enabled_spec() == (nr30 & 0x80 != 0),
            final(self).volume_code_spec() == (nr32 >> 5) & 3,
            final(self).phase_spec() == 0,
            final(self).phase_len_spec() == phase_len_of(
                old(self).sample_rate_spec() as int,
                (WAVE_FREQ_MAX as int) / (2048 - freq_n_of(nr33, nr34)),
            ),
            final(self).length_spec() == if nr34 & 0x40 != 0 {
                Some((old(self).sample_rate_spec() * (256 - nr31) / 256) as usize)
            } else {
                None
            },
    {
        let sr = self.sample_rate;
        proof {
            lemma_freq_n(nr34, nr33);
        }
        let freq_n = ((nr34 & 7) as usize) * 256 + nr33 as usize;
        let rate = WAVE_FREQ_MAX / (2048 - freq_n);
        assert(rate >= 1 && sr / rate <= MAX_SAMPLE_RATE) by (nonlinear_arith)
            requires
                rate == (WAVE_FREQ_MAX as int) / (2048 - freq_n),
                freq_n <= 2047,
                sr <= MAX_SAMPLE_RATE,
        ;
        let p = sr / rate;
        self.phase_len = if p == 0 {
            1
        } else {
            p
        };
        self.phase = 0;
        self.enabled = nr30 & 0x80 != 0;
        proof {
            lemma_byte(nr32);
        }
        self.volume_code = (nr32 >> 5) & 3;
        assert(sr * (256 - nr31 as usize) <= 256 * MAX_SAMPLE_RATE) by (nonlinear_arith)
            requires
                sr <= MAX_SAMPLE_RATE,
                nr31 <= 255,
        ;
        self.length = if nr34 & 0x40 != 0 {
            Some((sr * (256 - nr31 as usize)) / 256)
        } else {
            None
        };
    }

    fn step(&mut self, table: &Vec<u8>) -> (r: u8)
        requires
            old(self).wf(),
            table@.len() == 16,
        ensures
            final(self).wf(),
            (*final(self), r) == old(self).step_spec(table@),
    {
        assert((self.phase * 32) / (self.phase_len as int) < 32) by (nonlinear_arith)
            requires
                self.phase < self.phase_len,
        ;
        let pos = (self.phase * 32) / self.phase_len;
        let sample = if self.enabled && (match self.length {
            Some(n) => n > 0,
            None => true,
        }) && self.volume_code != 0 {
            let b = table[pos / 2];
            let e = if pos % 2 == 0 {
                b >> 4
            } else {
                b & 0xF
            };
            e >> (self.volume_code - 1)
        } else {
            0
        };
        self.phase = (self.phase + 1) % self.phase_len;
        match self.length {
            Some(n) => {
                if n > 0 {
                    self.length = Some(n - 1);
                }
            },
            None => {},
        }
        sample
    }

    /// Fills `buffer[start..end]` with the next `end - start` samples, reading the table `table`.
    pub fn generate_signal(&mut self, table: &Vec<u8>, buffer: &mut Vec<u8>, start: usize, end: usize)
        requires
            old(self).wf(),
            table@.len() == 16,
            start <= end <= old(buffer)@.len(),
        ensures
            final(self).wf(),
            final(buffer)@.len() == old(buffer)@.len(),
            final(self).sample_rate_spec() == old(self).sample_rate_spec(),
            *final(self) == old(self).run(table@, (end - start) as nat).0,
            final(buffer)@ == old(buffer)@.subrange(0, start as int) + old(self).run(
                table@,
                (end - start) as nat,
            ).1 + old(buffer)@.subrange(end as int, old(buffer)@.len() as int),
    {
        let mut i: usize = start;
        while i < end
            invariant
                start <= i <= end <= buffer@.len(),
                buffer@.len() == old(buffer)@.len(),
                table@.len() == 16,
                self.wf(),
                self.sample_rate == old(self).sample_rate,
                *self == old(self).run(table@, (i - start) as nat).0,
                old(self).run(table@, (i - start) as nat).1.len() == i - start,
                forall|k: int| 0 <= k < start ==> #[trigger] buffer@[k] == old(buffer)@[k],
                forall|k: int| end <= k < buffer@.len() ==> #[trigger] buffer@[k] == old(buffer)@[k],
                forall|k: int|
                    start <= k < i ==> #[trigger] buffer@[k] == old(self).run(
                        table@,
                        (i - start) as nat,
                    ).1[k - start],
            decreases end - i,
        {
            let ghost n = (i - start) as nat;
            let x = self.step(table);
            buffer.set(i, x);
            proof {
                let prev = old(self).run(table@, n).1;
                assert(old(self).run(table@, n + 1).1 == prev.push(x));
                assert forall|k: int| start <= k < i + 1 implies #[trigger] buffer@[k] == old(
                    self,
                ).run(table@, (i + 1 - start) as nat).1[k - start] by {
                    if k < i {
                        assert(prev.push(x)[k - start] == prev[k - start]);
                    }
                }
            }
            i = i + 1;
        }
        proof {
            let out = old(self).run(table@, (end - start) as nat).1;
            assert(buffer@ =~= old(buffer)@.subrange(0, start as int) + out + old(buffer)@.subrange(
                end as int,
                old(buffer)@.len() as int,
            ));
        }
    }
}


/// Generating `a` samples and then `b` more gives the samples of generating `a + b`.
pub proof fn lemma_run_split(g: WaveGen, table: Seq<u8>, a: nat, b: nat)
    ensures
        g.run(table, a + b).0 == g.run(table, a).0.run(table, b).0,
        g.run(table, a + b).1 == g.run(table, a).1 + g.run(table, a).0.run(table, b).1,
    decreases b,
{
    if b == 0 {
        assert(g.run(table, a).1 + Seq::<u8>::empty() =~= g.run(table, a).1);
    } else {
        lemma_run_split(g, table, a, (b - 1) as nat);
        assert((a + b - 1) as nat == a + (b - 1) as nat);
        let (h, s) = g.run(table, a).0.run(table, (b - 1) as nat);
        let (h2, x) = h.step_spec(table);
        assert(g.run(table, a).1 + s.push(x) =~= (g.run(table, a).1 + s).push(x));
    }
}

} // verus!
