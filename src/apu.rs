//! The audio unit: register decoding for NR10..NR52 and the wave table, the
//! four channel generators, and the stereo mixer that emits one buffer per frame.
use vstd::prelude::*;
use crate::bits::{lemma_byte, lemma_byte_pair};
use crate::noise::NoiseGen;
use crate::square1::{Square1Gen, Square1Regs, MAX_SAMPLE_RATE};
use crate::wave::WaveGen;

verus! {

/// Machine cycles in one video frame.
pub const CYCLES_PER_FRAME: u32 = 70224;
/// Machine cycles per second.
pub const CLOCK_RATE: usize = 4194304;
/// Bytes of the register image, 0xFF10..0xFF3F.
pub const AUDIO_REGS: usize = 0x30;

/// Samples generated for one frame at `sample_rate`.
pub open spec fn frame_len_of(sample_rate: int) -> int {
    sample_rate * (CYCLES_PER_FRAME as int) / (CLOCK_RATE as int)
}

/// Sum of the channel samples `s` that `mask`'s bits 0..3 select.
pub open spec fn routed_sum(mask: u8, s: Seq<u8>) -> int {
    (if mask & 1 != 0 { s[0] as int } else { 0 }) + (if mask & 2 != 0 { s[1] as int } else { 0 }) + (
    if mask & 4 != 0 { s[2] as int } else { 0 }) + (if mask & 8 != 0 { s[3] as int } else { 0 })
}

/// One mixed output sample: the routed channel samples summed and scaled by
/// the master volume `vol` (0 to 7) as `(vol + 1) / 8`; zero with sound off.
pub open spec fn mix_spec(on: bool, vol: u8, mask: u8, s: Seq<u8>) -> u8 {
    if on {
        (routed_sum(mask, s) * (vol + 1) / 8) as u8
    } else {
        0
    }
}

/// Register `loc` at power-on: sound on (NR52 0x80), full master volume
/// (NR50 0x77), every channel on both sides (NR51 0xFF), all else zero.
pub open spec fn power_on_reg(loc: u16) -> u8 {
    if loc == 0xFF24 {
        0x77
    } else if loc == 0xFF25 {
        0xFF
    } else if loc == 0xFF26 {
        0x80
    } else {
        0
    }
}

/// The audio unit.
pub struct AudioDevice {
    pub sample_rate: usize,
    pub frame_len: usize,
    pub regs: Vec<u8>,
    pub square1_regs: Square1Regs,
    pub square1: Square1Gen,
    pub square2_regs: Square1Regs,
    pub square2: Square1Gen,
    pub wave: WaveGen,
    pub noise: NoiseGen,
    pub buf1: Vec<u8>,
    pub buf2: Vec<u8>,
    pub buf3: Vec<u8>,
    pub buf4: Vec<u8>,
    pub cycles: u32,
    pub written: usize,
}

impl AudioDevice {
    pub open spec fn wf(&self) -> bool {
        &&& 1 <= self.sample_rate <= MAX_SAMPLE_RATE
        &&& self.frame_len == frame_len_of(self.sample_rate as int)
        &&& self.regs@.len() == AUDIO_REGS
        &&& self.square1.wf()
        &&& self.square2.wf()
        &&& self.wave.wf()
        &&& self.noise.wf()
        &&& self.square1.sample_rate_spec() == self.sample_rate
        &&& self.square2.sample_rate_spec() == self.sample_rate
        &&& self.wave.sample_rate_spec() == self.sample_rate
        &&& self.noise.sample_rate_spec() == self.sample_rate
        &&& self.buf1@.len() == self.frame_len
        &&& self.buf2@.len() == self.frame_len
        &&& self.buf3@.len() == self.frame_len
        &&& self.buf4@.len() == self.frame_len
        &&& self.cycles <= CYCLES_PER_FRAME
        &&& self.written <= self.frame_len
    }

    /// Samples per frame.
    pub open spec fn frame_len_spec(&self) -> usize {
        self.frame_len
    }

    pub open spec fn sample_rate_spec(&self) -> usize {
        self.sample_rate
    }

    /// The generators of the four channels and the register images of the two square channels.
    pub open spec fn square1_gen(&self) -> Square1Gen {
        self.square1
    }

    pub open spec fn square2_gen(&self) -> Square1Gen {
        self.square2
    }

    pub open spec fn wave_gen(&self) -> WaveGen {
        self.wave
    }

    pub open spec fn noise_gen(&self) -> NoiseGen {
        self.noise
    }

    pub open spec fn square1_regs_spec(&self) -> Square1Regs {
        self.square1_regs
    }

    pub open spec fn square2_regs_spec(&self) -> Square1Regs {
        self.square2_regs
    }

    /// Whether writing `val` at `loc` triggers a channel: NRx4 with bit 7 set.
    pub open spec fn triggers(loc: u16, val: u8) -> bool {
        (loc == 0xFF14 || loc == 0xFF19 || loc == 0xFF1E || loc == 0xFF23) && val & 0x80 != 0
    }

    /// Whether the channel that `loc` triggers restarted in `self` from its registers.
    pub open spec fn restarted(&self, loc: u16, val: u8) -> bool {
        if loc == 0xFF14 {
            self.square1_gen() == Square1Gen::initialised(self.sample_rate_spec(), self.square1_regs_spec())
        } else if loc == 0xFF19 {
            self.square2_gen() == Square1Gen::initialised(self.sample_rate_spec(), self.square2_regs_spec())
        } else if loc == 0xFF1E {
            self.wave_gen() == WaveGen::initialised(
                self.sample_rate_spec(),
                self.read_spec(0xFF1A),
                self.read_spec(0xFF1B),
                self.read_spec(0xFF1C),
                self.read_spec(0xFF1D),
                val,
            )
        } else {
            self.noise_gen() == NoiseGen::initialised(
                self.sample_rate_spec(),
                self.read_spec(0xFF20),
                self.read_spec(0xFF21),
                self.read_spec(0xFF22),
                val,
            )
        }
    }

    /// The wave table, 0xFF30..0xFF3F.
    pub open spec fn table_spec(&self) -> Seq<u8> {
        self.regs@.subrange(0x20, 0x30)
    }

    /// The samples of channel `k` (0 to 3) for the whole current frame, as
    /// the registers stand: those generated so far, then what the channel's
    /// generator produces up to the end of the frame.
    pub open spec fn frame_channel(&self, k: int) -> Seq<u8> {
        let n = (self.frame_len - self.written) as nat;
        let w = self.written as int;
        if k == 0 {
            self.buf1@.subrange(0, w) + self.square1.run(n).1
        } else if k == 1 {
            self.buf2@.subrange(0, w) + self.square2.run(n).1
        } else if k == 2 {
            self.buf3@.subrange(0, w) + self.wave.run(self.table_spec(), n).1
        } else {
            self.buf4@.subrange(0, w) + self.noise.run(n).1
        }
    }

    /// Whether `out` is the frame's mixed output: for each sample of the
    /// frame, the left then the right mix of the four channels' samples
    /// (left from NR50 bits 6:4 and NR51 bits 7:4, right from bits 2:0 and
    /// 3:0), silent while NR52 bit 7 is clear.
    pub open spec fn frame_output(&self, out: Seq<u8>) -> bool {
        &&& out.len() == 2 * self.frame_len_spec()
        &&& forall|i: int|
            0 <= i < self.frame_len_spec() ==> {
                let s = seq![
                    self.frame_channel(0)[i],
                    self.frame_channel(1)[i],
                    self.frame_channel(2)[i],
                    self.frame_channel(3)[i],
                ];
                let on = self.read_spec(0xFF26) & 0x80 != 0;
                &&& #[trigger] out[2 * i] == mix_spec(
                    on,
                    (self.read_spec(0xFF24) >> 4u8) & 7,
                    (self.read_spec(0xFF25) >> 4u8) & 0xF,
                    s,
                )
                &&& out[2 * i + 1] == mix_spec(
                    on,
                    (self.read_spec(0xFF24) >> 0u8) & 7,
                    (self.read_spec(0xFF25) >> 0u8) & 0xF,
                    s,
                )
            }
    }

    /// Machine cycles of the current frame seen so far.
    pub open spec fn cycles_spec(&self) -> u32 {
        self.cycles
    }

    /// What a read of `loc` (0xFF10..0xFF3F) returns.
    pub open spec fn read_spec(&self, loc: u16) -> u8 {
        if loc == 0xFF10 {
            self.square1_regs.sweep_reg
        } else if loc == 0xFF11 {
            self.square1_regs.duty_length_reg
        } else if loc == 0xFF12 {
            self.square1_regs.vol_envelope_reg
        } else if loc == 0xFF13 {
            self.square1_regs.freq_lo_reg
        } else if loc == 0xFF14 {
            self.square1_regs.freq_hi_reg
        } else if loc == 0xFF16 {
            self.square2_regs.duty_length_reg
        } else if loc == 0xFF17 {
            self.square2_regs.vol_envelope_reg
        } else if loc == 0xFF18 {
            self.square2_regs.freq_lo_reg
        } else if loc == 0xFF19 {
            self.square2_regs.freq_hi_reg
        } else if 0xFF10 <= loc < 0xFF40 {
            self.regs@[loc - 0xFF10]
        } else {
            0
        }
    }

    /// A silent unit producing `sample_rate` samples per second, with the
    /// master switch on, full volume and every channel routed to both sides.
    pub fn new(sample_rate: usize) -> (r: AudioDevice)
        requires
            1 <= sample_rate <= MAX_SAMPLE_RATE,
        ensures
            r.wf(),
            r.frame_len_spec() == frame_len_of(sample_rate as int),
            r.cycles_spec() == 0,
            forall|loc: u16| 0xFF10 <= loc < 0xFF40 ==> #[trigger] r.read_spec(loc) == power_on_reg(loc),
    {
        assert(sample_rate as u64 * 70224 <= 0x100000 * 70224 && (sample_rate as u64 * 70224) / 4194304
            <= sample_rate) by (nonlinear_arith)
            requires
                sample_rate <= MAX_SAMPLE_RATE,
        ;
        let frame_len = ((sample_rate as u64 * CYCLES_PER_FRAME as u64) / CLOCK_RATE as u64) as usize;
        let mut regs = vec![0u8; AUDIO_REGS];
        regs.set(0x14, 0x77);
        regs.set(0x15, 0xFF);
        regs.set(0x16, 0x80);
        AudioDevice {
            sample_rate,
            frame_len,
            regs,
            square1_regs: Square1Regs::new(),
            square1: Square1Gen::new(sample_rate),
            square2_regs: Square1Regs::new(),
            square2: Square1Gen::new(sample_rate),
            wave: WaveGen::new(sample_rate),
            noise: NoiseGen::new(sample_rate),
            buf1: vec![0u8; frame_len],
            buf2: vec![0u8; frame_len],
            buf3: vec![0u8; frame_len],
            buf4: vec![0u8; frame_len],
            cycles: 0,
            written: 0,
        }
    }

    /// Records that `clock_count` machine cycles passed; the count stops at one frame.
    pub fn send_update(&mut self, clock_count: u32)
        requires
            old(self).wf(),
        ensures
            final(self).wf(),
            final(self).cycles_spec() == if old(self).cycles_spec() + clock_count > CYCLES_PER_FRAME {
                CYCLES_PER_FRAME as int
            } else {
                old(self).cycles_spec() + clock_count
            },
            forall|loc: u16| #[trigger] final(self).read_spec(loc) == old(self).read_spec(loc),
            final(self).frame_len_spec() == old(self).frame_len_spec(),
    {
        if clock_count >= CYCLES_PER_FRAME - self.cycles {
            self.cycles = CYCLES_PER_FRAME;
        } else {
            self.cycles = self.cycles + clock_count;
        }
    }

    /// The wave table, 0xFF30..0xFF3F.
    fn wave_table(&self) -> (r: Vec<u8>)
        requires
            self.wf(),
        ensures
            r@ == self.regs@.subrange(0x20, 0x30),
    {
        let mut t: Vec<u8> = Vec::with_capacity(16);
        let mut i: usize = 0;
        while i < 16
            invariant
                i <= 16,
                self.wf(),
                t@ == self.regs@.subrange(0x20, 0x20 + i as int),
            decreases 16 - i,
        {
            t.push(self.regs[0x20 + i]);
            proof {
                assert(t@ =~= self.regs@.subrange(0x20, 0x20 + i + 1));
            }
            i = i + 1;
        }
        t
    }

    /// Generates every channel up to the sample that the cycle count has reached.
    #[verifier::rlimit(50)]
    fn catch_up(&mut self)
        requires
            old(self).wf(),
        ensures
            final(self).wf(),
            forall|loc: u16| #[trigger] final(self).read_spec(loc) == old(self).read_spec(loc),
            final(self).frame_len_spec() == old(self).frame_len_spec(),
            final(self).cycles_spec() == old(self).cycles_spec(),
            forall|k: int| 0 <= k < 4 ==> #[trigger] final(self).frame_channel(k) == old(self).frame_channel(k),
            final(self).table_spec() == old(self).table_spec(),
            old(self).cycles_spec() == CYCLES_PER_FRAME ==> final(self).written == final(self).frame_len,
    {
        assert(self.cycles as usize * self.frame_len <= 70224 * self.frame_len && (self.cycles
            as usize * self.frame_len) / 70224 <= self.frame_len) by (nonlinear_arith)
            requires
                self.cycles <= 70224,
        ;
        assert(self.frame_len <= MAX_SAMPLE_RATE) by (nonlinear_arith)
            requires
                self.frame_len == self.sample_rate * 70224 / 4194304,
                self.sample_rate <= MAX_SAMPLE_RATE,
        ;
        let pos = (self.cycles as usize * self.frame_len) / (CYCLES_PER_FRAME as usize);
        proof {
            if self.cycles == CYCLES_PER_FRAME {
                assert((70224 * self.frame_len) / 70224 == self.frame_len as int) by (nonlinear_arith);
            }
        }
        if pos > self.written {
            let start = self.written;
            let table = self.wave_table();
            let ghost n = (pos - start) as nat;
            let ghost m = (self.frame_len - pos) as nat;
            proof {
                crate::square1::lemma_run_split(self.square1, n, m);
                crate::square1::lemma_run_split(self.square2, n, m);
                crate::wave::lemma_run_split(self.wave, table@, n, m);
                crate::noise::lemma_run_split(self.noise, n, m);
                assert(n + m == (self.frame_len - start) as nat);
            }
            let ghost before = *self;
            self.square1.generate_signal(&mut self.buf1, start, pos);
            self.square2.generate_signal(&mut self.buf2, start, pos);
            self.wave.generate_signal(&table, &mut self.buf3, start, pos);
            self.noise.generate_signal(&mut self.buf4, start, pos);
            self.written = pos;
            proof {
                let w = start as int;
                assert(self.buf1@.subrange(0, pos as int) =~= before.buf1@.subrange(0, w) + before.square1.run(n).1);
                assert(self.buf2@.subrange(0, pos as int) =~= before.buf2@.subrange(0, w) + before.square2.run(n).1);
                assert(self.buf3@.subrange(0, pos as int) =~= before.buf3@.subrange(0, w) + before.wave.run(table@, n).1);
                assert(self.buf4@.subrange(0, pos as int) =~= before.buf4@.subrange(0, w) + before.noise.run(n).1);
                assert(self.frame_channel(0) =~= before.frame_channel(0));
                assert(self.frame_channel(1) =~= before.frame_channel(1));
                assert(self.frame_channel(2) =~= before.frame_channel(2));
                assert(self.frame_channel(3) =~= before.frame_channel(3));
            }
        }
    }

    /// Re-initialises the generators whose NRx4 write set the trigger bit.
    fn handle_triggers(&mut self, loc: u16)
        requires
            old(self).wf(),
        ensures
            final(self).wf(),
            final(self).frame_len_spec() == old(self).frame_len_spec(),
            final(self).cycles_spec() == old(self).cycles_spec(),
            forall|l: u16| l != loc ==> #[trigger] final(self).read_spec(l) == old(self).read_spec(l),
            final(self).read_spec(loc) == if loc == 0xFF14 || loc == 0xFF19 || loc == 0xFF1E || loc
                == 0xFF23 {
                old(self).read_spec(loc) & 0x7F
            } else {
                old(self).read_spec(loc)
            },
            final(self).sample_rate_spec() == old(self).sample_rate_spec(),
            Self::triggers(loc, old(self).read_spec(loc)) ==> final(self).restarted(loc, old(self).read_spec(loc)),
    {
        if loc == 0xFF14 {
            if self.square1_regs.triggered() {
                let regs = self.square1_regs;
                self.square1.init_signal(&regs);
            }
        } else if loc == 0xFF19 {
            if self.square2_regs.triggered() {
                let regs = self.square2_regs;
                self.square2.init_signal(&regs);
            }
        } else if loc == 0xFF1E {
            let v = self.regs[0x0E];
            if v & 0x80 != 0 {
                self.regs.set(0x0E, v & 0x7F);
                self.wave.init_signal(self.regs[0x0A], self.regs[0x0B], self.regs[0x0C], self.regs[0x0D], v);
            } else {
                proof {
                    lemma_byte(v);
                }
            }
        } else if loc == 0xFF23 {
            let v = self.regs[0x13];
            if v & 0x80 != 0 {
                self.regs.set(0x13, v & 0x7F);
                self.noise.init_signal(self.regs[0x10], self.regs[0x11], self.regs[0x12], v);
            } else {
                proof {
                    lemma_byte(v);
                }
            }
        }
    }

    pub fn read(&self, loc: u16) -> (r: u8)
        requires
            self.wf(),
        ensures
            r == self.read_spec(loc),
    {
        if loc == 0xFF10 {
            self.square1_regs.read_nrx0()
        } else if loc == 0xFF11 {
            self.square1_regs.read_nrx1()
        } else if loc == 0xFF12 {
            self.square1_regs.read_nrx2()
        } else if loc == 0xFF13 {
            self.square1_regs.read_nrx3()
        } else if loc == 0xFF14 {
            self.square1_regs.read_nrx4()
        } else if loc == 0xFF16 {
            self.square2_regs.read_nrx1()
        } else if loc == 0xFF17 {
            self.square2_regs.read_nrx2()
        } else if loc == 0xFF18 {
            self.square2_regs.read_nrx3()
        } else if loc == 0xFF19 {
            self.square2_regs.read_nrx4()
        } else if 0xFF10 <= loc && loc < 0xFF40 {
            self.regs[(loc - 0xFF10) as usize]
        } else {
            0
        }
    }

    /// Stores a register after generating the samples up to now; a write of
    /// NRx4 with bit 7 set triggers its channel, and the bit reads back clear.
    pub fn write(&mut self, loc: u16, val: u8)
        requires
            old(self).wf(),
        ensures
            final(self).wf(),
            final(self).frame_len_spec() == old(self).frame_len_spec(),
            final(self).cycles_spec() == old(self).cycles_spec(),
            0xFF10 <= loc < 0xFF40 ==> final(self).read_spec(loc) == if loc == 0xFF14 || loc == 0xFF19
                || loc == 0xFF1E || loc == 0xFF23 {
                val & 0x7F
            } else {
                val
            },
            forall|l: u16| l != loc ==> #[trigger] final(self).read_spec(l) == old(self).read_spec(l),
            Self::triggers(loc, val) ==> final(self).restarted(loc, val),
    {
        self.catch_up();
        let ghost mid = *self;
        if loc == 0xFF10 {
            self.square1_regs.write_nrx0(val);
        } else if loc == 0xFF11 {
            self.square1_regs.write_nrx1(val);
        } else if loc == 0xFF12 {
            self.square1_regs.write_nrx2(val);
        } else if loc == 0xFF13 {
            self.square1_regs.write_nrx3(val);
        } else if loc == 0xFF14 {
            self.square1_regs.write_nrx4(val);
        } else if loc == 0xFF16 {
            self.square2_regs.write_nrx1(val);
        } else if loc == 0xFF17 {
            self.square2_regs.write_nrx2(val);
        } else if loc == 0xFF18 {
            self.square2_regs.write_nrx3(val);
        } else if loc == 0xFF19 {
            self.square2_regs.write_nrx4(val);
        } else if 0xFF10 <= loc && loc < 0xFF40 {
            self.regs.set((loc - 0xFF10) as usize, val);
        }
        assert forall|l: u16| l != loc implies #[trigger] self.read_spec(l) == mid.read_spec(l) by {
            if 0xFF10 <= l < 0xFF40 && 0xFF10 <= loc < 0xFF40 {
                assert(l - 0xFF10 != loc - 0xFF10);
            }
        }
        self.handle_triggers(loc);
    }

    /// One mixed sample for one side: `shift` 4 selects the left side's
    /// master volume and routing bits, 0 the right side's.
    fn mix(&self, i: usize, shift: u8) -> (r: u8)
        requires
            self.wf(),
            i < self.frame_len,
            shift == 0 || shift == 4,
        ensures
            r == mix_spec(
                self.regs@[0x16] & 0x80 != 0,
                (self.regs@[0x14] >> shift) & 7,
                (self.regs@[0x15] >> shift) & 0xF,
                seq![self.buf1@[i as int], self.buf2@[i as int], self.buf3@[i as int], self.buf4@[i as int]],
            ),
    {
        if self.regs[0x16] & 0x80 == 0 {
            return 0;
        }
        let nr50 = self.regs[0x14];
        let vol = (nr50 >> shift) & 7;
        let mask = (self.regs[0x15] >> shift) & 0xF;
        proof {
            lemma_byte_pair(nr50, shift);
        }
        let ghost s = seq![self.buf1@[i as int], self.buf2@[i as int], self.buf3@[i as int], self.buf4@[i as int]];
        let a: u32 = if mask & 1 != 0 { self.buf1[i] as u32 } else { 0 };
        let b: u32 = if mask & 2 != 0 { self.buf2[i] as u32 } else { 0 };
        let c: u32 = if mask & 4 != 0 { self.buf3[i] as u32 } else { 0 };
        let d: u32 = if mask & 8 != 0 { self.buf4[i] as u32 } else { 0 };
        let sum = a + b + c + d;
        assert(sum == routed_sum(mask, s));
        assert(sum * (vol as u32 + 1) <= 1020 * 8) by (nonlinear_arith)
            requires
                sum <= 1020,
                vol <= 7,
        ;
        let out = sum * (vol as u32 + 1) / 8;
        assert(out <= 1020);
        out as u8
    }

    /// Finishes the frame: generates the rest of every channel, mixes them
    /// into interleaved left/right samples, and starts the next frame.
    pub fn frame_update(&mut self) -> (r: Vec<u8>)
        requires
            old(self).wf(),
        ensures
            final(self).wf(),
            old(self).frame_output(r@),
            final(self).cycles_spec() == 0,
            final(self).frame_len_spec() == old(self).frame_len_spec(),
            forall|loc: u16| #[trigger] final(self).read_spec(loc) == old(self).read_spec(loc),
    {
        self.cycles = CYCLES_PER_FRAME;
        let ghost s1 = *self;
        self.catch_up();
        let ghost before = *self;
        proof {
            assert forall|k: int| 0 <= k < 4 implies #[trigger] before.frame_channel(k) == old(self).frame_channel(k) by {
                assert(s1.frame_channel(k) == old(self).frame_channel(k));
            }
            assert forall|k: int| 0 <= k < 4 implies #[trigger] before.frame_channel(k) =~= (if k == 0 {
                before.buf1@
            } else if k == 1 {
                before.buf2@
            } else if k == 2 {
                before.buf3@
            } else {
                before.buf4@
            }) by {
                assert(before.buf1@.subrange(0, before.frame_len as int) =~= before.buf1@);
                assert(before.buf2@.subrange(0, before.frame_len as int) =~= before.buf2@);
                assert(before.buf3@.subrange(0, before.frame_len as int) =~= before.buf3@);
                assert(before.buf4@.subrange(0, before.frame_len as int) =~= before.buf4@);
            }
            assert(before.read_spec(0xFF24) == before.regs@[0x14]);
            assert(before.read_spec(0xFF25) == before.regs@[0x15]);
            assert(before.read_spec(0xFF26) == before.regs@[0x16]);
        }
        let mut out: Vec<u8> = Vec::with_capacity(2 * self.frame_len);
        let mut i: usize = 0;
        while i < self.frame_len
            invariant
                *self == before,
                self.wf(),
                i <= self.frame_len,
                out@.len() == 2 * i,
                forall|j: int|
                    0 <= j < i ==> {
                        let s = seq![self.buf1@[j], self.buf2@[j], self.buf3@[j], self.buf4@[j]];
                        &&& #[trigger] out@[2 * j] == mix_spec(
                            self.regs@[0x16] & 0x80 != 0,
                            (self.regs@[0x14] >> 4u8) & 7,
                            (self.regs@[0x15] >> 4u8) & 0xF,
                            s,
                        )
                        &&& out@[2 * j + 1] == mix_spec(
                            self.regs@[0x16] & 0x80 != 0,
                            (self.regs@[0x14] >> 0u8) & 7,
                            (self.regs@[0x15] >> 0u8) & 0xF,
                            s,
                        )
                    },
            decreases self.frame_len - i,
        {
            let left = self.mix(i, 4);
            let right = self.mix(i, 0);
            let ghost prev = out@;
            out.push(left);
            out.push(right);
            proof {
                assert forall|j: int| 0 <= j < i + 1 implies {
                    let s = seq![self.buf1@[j], self.buf2@[j], self.buf3@[j], self.buf4@[j]];
                    &&& #[trigger] out@[2 * j] == mix_spec(
                        self.regs@[0x16] & 0x80 != 0,
                        (self.regs@[0x14] >> 4u8) & 7,
                        (self.regs@[0x15] >> 4u8) & 0xF,
                        s,
                    )
                    &&& out@[2 * j + 1] == mix_spec(
                        self.regs@[0x16] & 0x80 != 0,
                        (self.regs@[0x14] >> 0u8) & 7,
                        (self.regs@[0x15] >> 0u8) & 0xF,
                        s,
                    )
                } by {
                    if j < i {
                        assert(out@[2 * j] == prev[2 * j]);
                        assert(out@[2 * j + 1] == prev[2 * j + 1]);
                    }
                }
            }
            i = i + 1;
        }
        proof {
            assert forall|i: int| 0 <= i < before.frame_len implies #[trigger] old(self).frame_channel(0)[i]
                == before.buf1@[i] && old(self).frame_channel(1)[i] == before.buf2@[i]
                && old(self).frame_channel(2)[i] == before.buf3@[i] && old(self).frame_channel(3)[i]
                == before.buf4@[i] by {
                assert(before.frame_channel(0) =~= before.buf1@);
                assert(before.frame_channel(1) =~= before.buf2@);
                assert(before.frame_channel(2) =~= before.buf3@);
                assert(before.frame_channel(3) =~= before.buf4@);
            }
        }
        self.cycles = 0;
        self.written = 0;
        assert forall|l: u16| #[trigger] self.read_spec(l) == old(self).read_spec(l) by {
            assert(before.read_spec(l) == s1.read_spec(l));
        }
        out
    }
}

} // verus!
