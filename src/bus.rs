//! The memory bus: address decoding to the cartridge, RAM, video, audio,
//! timer and interrupt registers; DMA; and the entry points through which
//! the frame loop advances the devices.
use vstd::prelude::*;
use crate::bits::{lemma_byte, lemma_byte_pair};
use crate::apu::{AudioDevice, CYCLES_PER_FRAME};
use crate::cartridge::{Cartridge, CartridgeError, rom_byte, ROM_BANK_SIZE};
use crate::interrupt::{InterruptFlags, ALL_INTERRUPTS, TIMER};
use crate::joypad::Key;
use crate::palette::UserPalette;
use crate::ram::WriteableMem;
use crate::square1::MAX_SAMPLE_RATE;
use crate::timer::{Timer, timer_run};
use crate::video::{VideoMem, VideoView, FRAME_BYTES, OAM_SIZE};

verus! {

/// Size of work RAM.
pub const WORK_RAM_SIZE: usize = 0x2000;
/// Size of high RAM.
pub const HIGH_RAM_SIZE: usize = 0x7F;

/// Interrupt-flag and interrupt-enable registers after `val` is written at `loc`.
pub open spec fn interrupt_regs_after(pending: u8, enabled: u8, loc: u16, val: u8) -> (u8, u8) {
    if loc == 0xFF0F {
        (val & ALL_INTERRUPTS, enabled)
    } else if loc == 0xFFFF {
        (pending, val & ALL_INTERRUPTS)
    } else {
        (pending, enabled)
    }
}

/// The machine's memory bus and the devices it owns.
pub struct MemBus {
    cart: Cartridge,
    ram: WriteableMem,
    high_ram: WriteableMem,
    interrupt_flag: InterruptFlags,
    interrupt_enable: InterruptFlags,
    video_device: VideoMem,
    audio_device: AudioDevice,
    timer: Timer,
    framebuffer: Vec<u8>,
}

impl MemBus {
    pub closed spec fn wf(&self) -> bool {
        &&& self.cart.wf()
        &&& self.ram@.len() == WORK_RAM_SIZE
        &&& self.high_ram@.len() == HIGH_RAM_SIZE
        &&& self.interrupt_flag.wf()
        &&& self.interrupt_enable.wf()
        &&& self.video_device.wf()
        &&& self.audio_device.wf()
        &&& self.framebuffer@.len() == FRAME_BYTES
    }

    pub closed spec fn cart_spec(&self) -> Cartridge {
        self.cart
    }

    pub closed spec fn video_spec(&self) -> VideoView {
        self.video_device@
    }

    pub closed spec fn timer_spec(&self) -> Timer {
        self.timer
    }

    pub closed spec fn work_ram(&self) -> Seq<u8> {
        self.ram@
    }

    pub closed spec fn high_ram_spec(&self) -> Seq<u8> {
        self.high_ram@
    }

    /// Work RAM and high RAM have their fixed sizes.
    pub proof fn lemma_ram_sizes(&self)
        requires
            self.wf(),
        ensures
            self.work_ram().len() == WORK_RAM_SIZE,
            self.high_ram_spec().len() == HIGH_RAM_SIZE,
    {
    }

    /// The interrupt-flag register (pending interrupts).
    pub closed spec fn pending(&self) -> u8 {
        self.interrupt_flag@
    }

    /// The interrupt-enable register.
    pub closed spec fn enabled(&self) -> u8 {
        self.interrupt_enable@
    }

    pub closed spec fn audio_spec(&self) -> AudioDevice {
        self.audio_device
    }

    /// What a read of audio register `loc` returns.
    pub open spec fn audio_read(&self, loc: u16) -> u8 {
        self.audio_spec().read_spec(loc)
    }

    /// The RGBA frame that the video unit draws into.
    pub closed spec fn frame_spec(&self) -> Seq<u8> {
        self.framebuffer@
    }

    /// What a read of `loc` returns.
    pub open spec fn read_spec(&self, loc: u16) -> u8 {
        if loc < 0x8000 {
            self.cart_spec().read_spec(loc)
        } else if loc < 0xA000 {
            VideoMem::read_spec(self.video_spec(), loc)
        } else if loc < 0xC000 {
            self.cart_spec().read_spec(loc)
        } else if loc < 0xE000 {
            self.work_ram()[loc - 0xC000]
        } else if loc < 0xFE00 {
            self.work_ram()[loc - 0xE000]
        } else if loc < 0xFEA0 {
            VideoMem::read_spec(self.video_spec(), loc)
        } else if loc == 0xFF00 {
            VideoMem::read_spec(self.video_spec(), loc)
        } else if 0xFF04 <= loc < 0xFF08 {
            self.timer_spec().read_spec(loc)
        } else if loc == 0xFF0F {
            self.pending()
        } else if 0xFF10 <= loc < 0xFF40 {
            self.audio_read(loc)
        } else if 0xFF40 <= loc < 0xFF4C {
            VideoMem::read_spec(self.video_spec(), loc)
        } else if 0xFF80 <= loc < 0xFFFF {
            self.high_ram_spec()[loc - 0xFF80]
        } else if loc == 0xFFFF {
            self.enabled()
        } else {
            0
        }
    }

    /// A machine with the cartridge `rom` mapped, all RAM zero, no interrupt
    /// pending or enabled, and audio produced at `sample_rate` samples per second.
    pub fn new(rom: Vec<u8>, palette: UserPalette, sample_rate: usize) -> (r: Result<
        MemBus,
        CartridgeError,
    >)
        requires
            1 <= sample_rate <= MAX_SAMPLE_RATE,
        ensures
            r is Err <==> Cartridge::new_fails(rom@),
            r is Err ==> r == Err::<MemBus, CartridgeError>(Cartridge::new_error(rom@)),
            r matches Ok(b) ==> {
                &&& b.wf()
                &&& b.cart_spec().rom_image() == rom@
                &&& b.cart_spec().loaded_rom_bank() == 1
                &&& b.pending() == 0
                &&& b.enabled() == 0
                &&& b.work_ram() == Seq::new(WORK_RAM_SIZE as nat, |i: int| 0u8)
                &&& b.high_ram_spec() == Seq::new(HIGH_RAM_SIZE as nat, |i: int| 0u8)
                &&& b.video_spec() == VideoMem::power_on(palette)
                &&& b.timer_spec() == (Timer { counter: 0, tima: 0, tma: 0, tac: 0 })
                &&& b.audio_spec().cycles_spec() == 0
                &&& b.audio_spec().frame_len_spec() == crate::apu::frame_len_of(sample_rate as int)
                &&& forall|loc: u16|
                    0xFF10 <= loc < 0xFF40 ==> #[trigger] b.audio_read(loc) == crate::apu::power_on_reg(
                        loc,
                    )
                &&& b.frame_spec() == Seq::new(FRAME_BYTES as nat, |i: int| 0u8)
            },
    {
        let cart = match Cartridge::new(rom) {
            Ok(c) => c,
            Err(e) => {
                return Err(e);
            },
        };
        let framebuffer = vec![0u8; FRAME_BYTES];
        proof {
            assert(framebuffer@ =~= Seq::new(FRAME_BYTES as nat, |i: int| 0u8));
        }
        Ok(
            MemBus {
                cart,
                ram: WriteableMem::new(WORK_RAM_SIZE),
                high_ram: WriteableMem::new(HIGH_RAM_SIZE),
                interrupt_flag: InterruptFlags::empty(),
                interrupt_enable: InterruptFlags::empty(),
                video_device: VideoMem::new(palette),
                audio_device: AudioDevice::new(sample_rate),
                timer: Timer::new(),
                framebuffer,
            },
        )
    }

    pub fn read(&self, loc: u16) -> (r: u8)
        requires
            self.wf(),
        ensures
            r == self.read_spec(loc),
    {
        if loc < 0x8000 {
            self.cart.read(loc)
        } else if loc < 0xA000 {
            self.video_device.read(loc)
        } else if loc < 0xC000 {
            self.cart.read(loc)
        } else if loc < 0xE000 {
            self.ram.read(loc - 0xC000)
        } else if loc < 0xFE00 {
            self.ram.read(loc - 0xE000)
        } else if loc < 0xFEA0 {
            self.video_device.read(loc)
        } else if loc == 0xFF00 {
            self.video_device.read(loc)
        } else if 0xFF04 <= loc && loc < 0xFF08 {
            self.timer.read(loc)
        } else if loc == 0xFF0F {
            self.interrupt_flag.bits()
        } else if 0xFF10 <= loc && loc < 0xFF40 {
            self.audio_device.read(loc)
        } else if 0xFF40 <= loc && loc < 0xFF4C {
            self.video_device.read(loc)
        } else if 0xFF80 <= loc && loc < 0xFFFF {
            self.high_ram.read(loc - 0xFF80)
        } else if loc == 0xFFFF {
            self.interrupt_enable.bits()
        } else {
            0
        }
    }

    /// Copies the 160 bytes at `val << 8` into OAM, reading each through the bus.
    fn dma(&mut self, val: u8)
        requires
            old(self).wf(),
        ensures
            final(self).wf(),
            final(self).video_spec() == (VideoView { oam: final(self).video_spec().oam, ..old(self).video_spec() }),
            final(self).video_spec().oam.len() == OAM_SIZE,
            forall|i: int|
                0 <= i < OAM_SIZE ==> #[trigger] final(self).video_spec().oam[i] == old(self).read_spec(
                    (val as u16 * 256 + i) as u16,
                ),
            final(self).cart_spec() == old(self).cart_spec(),
            final(self).timer_spec() == old(self).timer_spec(),
            final(self).work_ram() == old(self).work_ram(),
            final(self).high_ram_spec() == old(self).high_ram_spec(),
            final(self).pending() == old(self).pending(),
            final(self).enabled() == old(self).enabled(),
            forall|l: u16| #[trigger] final(self).audio_read(l) == old(self).audio_read(l),
    {
        let hi_byte: u16 = val as u16 * 256;
        let mut lo_byte: u16 = 0;
        proof {
            self.video_device.lemma_view_sizes();
        }
        while lo_byte < 0xA0
            invariant
                self.wf(),
                lo_byte <= 0xA0,
                hi_byte == val * 256,
                self.video_spec() == (VideoView { oam: self.video_spec().oam, ..old(self).video_spec() }),
                self.video_spec().oam.len() == OAM_SIZE,
                forall|i: int|
                    0 <= i < lo_byte ==> #[trigger] self.video_spec().oam[i] == old(self).read_spec(
                        (val as u16 * 256 + i) as u16,
                    ),
                forall|i: int|
                    lo_byte <= i < OAM_SIZE ==> #[trigger] self.video_spec().oam[i]
                        == old(self).video_spec().oam[i],
                self.cart == old(self).cart,
                self.timer == old(self).timer,
                self.ram@ == old(self).ram@,
                self.high_ram@ == old(self).high_ram@,
                self.interrupt_flag == old(self).interrupt_flag,
                self.interrupt_enable == old(self).interrupt_enable,
                self.audio_device == old(self).audio_device,
            decreases 0xA0 - lo_byte,
        {
            let src_addr = hi_byte + lo_byte;
            let byte = self.read(src_addr);
            proof {
                // Only OAM has changed so far, and a source inside OAM lies at
                // or after the byte being written.
                if 0xFE00 <= src_addr < 0xFEA0 {
                    assert(src_addr - 0xFE00 == lo_byte);
                }
                assert(byte == old(self).read_spec(src_addr));
            }
            self.video_device.write(0xFE00 + lo_byte, byte);
            proof {
                self.video_device.lemma_view_sizes();
            }
            lo_byte = lo_byte + 1;
        }
    }

    /// Whether a write at `loc` goes to the video unit's registers or memory.
    pub open spec fn is_video_write(loc: u16) -> bool {
        (0x8000 <= loc < 0xA000) || (0xFE00 <= loc < 0xFEA0) || loc == 0xFF00 || (0xFF40 <= loc
            < 0xFF46) || (0xFF47 <= loc < 0xFF4C)
    }

    /// Writes `val` at `loc`: a bank controller command below 0x8000, a store
    /// to the device that owns `loc` elsewhere, a DMA transfer at 0xFF46;
    /// writes to unmapped addresses are ignored.
    pub fn write(&mut self, loc: u16, val: u8)
        requires
            old(self).wf(),
        ensures
            final(self).wf(),
            (final(self).pending(), final(self).enabled()) == interrupt_regs_after(
                old(self).pending(),
                old(self).enabled(),
                loc,
                val,
            ),
            final(self).cart_spec().rom_image() == old(self).cart_spec().rom_image(),
            loc < 0x8000 ==> {
                &&& final(self).cart_spec().mbc() == old(self).cart_spec().mbc().command(loc, val)
                &&& final(self).cart_spec().ram_enabled() == old(self).cart_spec().mbc().enable_after(
                    old(self).cart_spec().ram_enabled(),
                    loc,
                    val,
                )
                &&& final(self).cart_spec().ram_view() == old(self).cart_spec().ram_view()
            },
            0xA000 <= loc < 0xC000 ==> {
                &&& final(self).cart_spec().ram_view() == old(self).cart_spec().ram_after_write(
                    loc - 0xA000,
                    val,
                )
                &&& final(self).cart_spec().mbc() == old(self).cart_spec().mbc_after_ram_write(val)
            },
            !(loc < 0x8000 || 0xA000 <= loc < 0xC000) ==> final(self).cart_spec()
                == old(self).cart_spec(),
            final(self).work_ram() == if 0xC000 <= loc < 0xE000 {
                old(self).work_ram().update(loc - 0xC000, val)
            } else if 0xE000 <= loc < 0xFE00 {
                old(self).work_ram().update(loc - 0xE000, val)
            } else {
                old(self).work_ram()
            },
            final(self).high_ram_spec() == if 0xFF80 <= loc < 0xFFFF {
                old(self).high_ram_spec().update(loc - 0xFF80, val)
            } else {
                old(self).high_ram_spec()
            },
            final(self).timer_spec() == if 0xFF04 <= loc < 0xFF08 {
                old(self).timer_spec().write_spec(loc, val)
            } else {
                old(self).timer_spec()
            },
            Self::is_video_write(loc) ==> final(self).video_spec() == VideoMem::write_spec(
                old(self).video_spec(),
                loc,
                val,
            ),
            loc == 0xFF46 ==> {
                &&& final(self).video_spec() == (VideoView {
                    oam: final(self).video_spec().oam,
                    ..old(self).video_spec()
                })
                &&& forall|i: int|
                    0 <= i < OAM_SIZE ==> #[trigger] final(self).video_spec().oam[i] == old(self).read_spec((val as u16 * 256 + i) as u16)
            },
            !Self::is_video_write(loc) && loc != 0xFF46 ==> final(self).video_spec() == old(self).video_spec(),
            0xFF10 <= loc < 0xFF40 ==> final(self).audio_read(loc) == if loc == 0xFF14 || loc
                == 0xFF19 || loc == 0xFF1E || loc == 0xFF23 {
                val & 0x7F
            } else {
                val
            },
            forall|l: u16|
                l != loc || !(0xFF10 <= loc < 0xFF40) ==> #[trigger] final(self).audio_read(l)
                    == old(self).audio_read(l),
            AudioDevice::triggers(loc, val) ==> final(self).audio_spec().restarted(loc, val),
    {
        if loc < 0x8000 {
            self.cart.write(loc, val);
        } else if loc < 0xA000 {
            self.video_device.write(loc, val);
        } else if loc < 0xC000 {
            self.cart.write(loc, val);
        } else if loc < 0xE000 {
            self.ram.write(loc - 0xC000, val);
        } else if loc < 0xFE00 {
            self.ram.write(loc - 0xE000, val);
        } else if loc < 0xFEA0 {
            self.video_device.write(loc, val);
        } else if loc == 0xFF00 {
            self.video_device.write(loc, val);
        } else if 0xFF04 <= loc && loc < 0xFF08 {
            self.timer.write(loc, val);
        } else if loc == 0xFF0F {
            self.interrupt_flag = InterruptFlags::from_bits_truncate(val);
        } else if 0xFF10 <= loc && loc < 0xFF40 {
            self.audio_device.write(loc, val);
        } else if 0xFF40 <= loc && loc < 0xFF46 {
            self.video_device.write(loc, val);
        } else if loc == 0xFF46 {
            self.dma(val);
        } else if 0xFF47 <= loc && loc < 0xFF4C {
            self.video_device.write(loc, val);
        } else if 0xFF80 <= loc && loc < 0xFFFF {
            self.high_ram.write(loc - 0xFF80, val);
        } else if loc == 0xFFFF {
            self.interrupt_enable = InterruptFlags::from_bits_truncate(val);
        }
    }

    /// Advances the timer and the audio clock by `clock_count` machine
    /// cycles; a TIMA overflow raises TIMER.
    pub fn update_timers(&mut self, clock_count: u32)
        requires
            old(self).wf(),
        ensures
            final(self).wf(),
            final(self).timer_spec() == timer_run(old(self).timer_spec(), clock_count as nat).0,
            final(self).audio_spec().cycles_spec() == if old(self).audio_spec().cycles_spec()
                + clock_count > CYCLES_PER_FRAME {
                CYCLES_PER_FRAME as int
            } else {
                old(self).audio_spec().cycles_spec() + clock_count
            },
            final(self).audio_spec().frame_len_spec() == old(self).audio_spec().frame_len_spec(),
            final(self).frame_spec() == old(self).frame_spec(),
            final(self).pending() == if timer_run(old(self).timer_spec(), clock_count as nat).1 {
                old(self).pending() | TIMER
            } else {
                old(self).pending()
            },
            final(self).enabled() == old(self).enabled(),
            final(self).cart_spec() == old(self).cart_spec(),
            final(self).video_spec() == old(self).video_spec(),
            final(self).work_ram() == old(self).work_ram(),
            final(self).high_ram_spec() == old(self).high_ram_spec(),
            forall|l: u16| #[trigger] final(self).audio_read(l) == old(self).audio_read(l),
    {
        self.audio_device.send_update(clock_count);
        if self.timer.update_timers(clock_count) {
            proof {
                lemma_byte(4);
            }
            self.interrupt_flag.insert(InterruptFlags::from_bits_truncate(TIMER));
        }
    }

    /// Advances the video unit's mode machine (see `VideoMem::video_mode`)
    /// and raises the interrupts it signals; returns whether the frame is complete.
    pub fn video_mode(&mut self, cycle_count: &mut u32) -> (r: bool)
        requires
            old(self).wf(),
        ensures
            final(self).wf(),
            ({
                let s = VideoMem::ppu_state(old(self).video_spec(), *old(cycle_count));
                let n = crate::video::ppu_next(s);
                &&& final(self).video_spec() == (VideoView {
                    ly: n.ly,
                    stat: crate::video::next_stat(
                        old(self).video_spec().stat,
                        n,
                        old(self).video_spec().lyc,
                    ),
                    ..old(self).video_spec()
                })
                &&& *final(cycle_count) == n.cycles
                &&& r == crate::video::ppu_frame_done(s)
                &&& final(self).pending() == old(self).pending() | crate::video::ppu_ints(
                    s,
                    old(self).video_spec().stat,
                    old(self).video_spec().lyc,
                )
            }),
            final(self).enabled() == old(self).enabled(),
            final(self).cart_spec() == old(self).cart_spec(),
            final(self).timer_spec() == old(self).timer_spec(),
            final(self).work_ram() == old(self).work_ram(),
            final(self).high_ram_spec() == old(self).high_ram_spec(),
            forall|l: u16| #[trigger] final(self).audio_read(l) == old(self).audio_read(l),
    {
        let (ret, raised) = self.video_device.video_mode(cycle_count, &mut self.framebuffer);
        self.interrupt_flag.insert(raised);
        ret
    }

    /// The interrupts that are both pending and enabled.
    pub fn get_interrupts(&self) -> (r: InterruptFlags)
        requires
            self.wf(),
        ensures
            r@ == self.pending() & self.enabled(),
            r.wf(),
    {
        self.interrupt_flag.intersection(&self.interrupt_enable)
    }

    /// Clears the members of `flag` from the pending interrupts.
    pub fn clear_interrupt_flag(&mut self, flag: InterruptFlags)
        requires
            old(self).wf(),
        ensures
            final(self).wf(),
            final(self).pending() == old(self).pending() & !flag@,
            final(self).enabled() == old(self).enabled(),
            final(self).cart_spec() == old(self).cart_spec(),
            final(self).video_spec() == old(self).video_spec(),
            final(self).timer_spec() == old(self).timer_spec(),
            final(self).work_ram() == old(self).work_ram(),
            final(self).high_ram_spec() == old(self).high_ram_spec(),
            final(self).audio_spec() == old(self).audio_spec(),
            forall|l: u16| #[trigger] final(self).audio_read(l) == old(self).audio_read(l),
            final(self).frame_spec() == old(self).frame_spec(),
    {
        self.interrupt_flag.remove(flag);
    }

    /// Finishes the frame's audio and returns its interleaved stereo samples;
    /// the finished picture is `frame()`.
    pub fn render_frame(&mut self) -> (r: Vec<u8>)
        requires
            old(self).wf(),
        ensures
            final(self).wf(),
            old(self).audio_spec().frame_output(r@),
            final(self).frame_spec() == old(self).frame_spec(),
            final(self).pending() == old(self).pending(),
            final(self).enabled() == old(self).enabled(),
            final(self).cart_spec() == old(self).cart_spec(),
            final(self).video_spec() == old(self).video_spec(),
            final(self).timer_spec() == old(self).timer_spec(),
            final(self).work_ram() == old(self).work_ram(),
            final(self).high_ram_spec() == old(self).high_ram_spec(),
            forall|l: u16| #[trigger] final(self).audio_read(l) == old(self).audio_read(l),
    {
        self.audio_device.frame_update()
    }

    /// The RGBA picture: 160 x 144 pixels, four bytes each, row by row.
    pub fn frame(&self) -> (r: &Vec<u8>)
        ensures
            r@ == self.frame_spec(),
    {
        &self.framebuffer
    }

    /// Whether the display is switched on (LCDC bit 7).
    pub fn display_enabled(&self) -> (r: bool)
        ensures
            r == (self.video_spec().lcdc & 0x80 != 0),
    {
        self.video_device.display_enabled()
    }

    /// Records a key press or release for the joypad register.
    pub fn read_inputs(&mut self, key: Key, pressed: bool)
        requires
            old(self).wf(),
        ensures
            final(self).wf(),
            final(self).video_spec() == (VideoView {
                joypad: old(self).video_spec().joypad.set_key_spec(key, pressed),
                ..old(self).video_spec()
            }),
            final(self).pending() == old(self).pending(),
            final(self).enabled() == old(self).enabled(),
            final(self).cart_spec() == old(self).cart_spec(),
            final(self).timer_spec() == old(self).timer_spec(),
            final(self).work_ram() == old(self).work_ram(),
            final(self).high_ram_spec() == old(self).high_ram_spec(),
            final(self).audio_spec() == old(self).audio_spec(),
            forall|l: u16| #[trigger] final(self).audio_read(l) == old(self).audio_read(l),
            final(self).frame_spec() == old(self).frame_spec(),
    {
        self.video_device.set_key(key, pressed);
    }

    /// Whether the cartridge keeps its RAM in a save file.
    pub fn has_battery(&self) -> (r: bool)
        ensures
            r == self.cart_spec().has_battery(),
    {
        self.cart.battery()
    }

    /// Cartridge RAM, as a save file holds it.
    pub fn save_data(&self) -> (r: Vec<u8>)
        ensures
            r@ == self.cart_spec().ram_view(),
    {
        self.cart.save_data()
    }

    /// Loads a save file into cartridge RAM.
    pub fn load_save(&mut self, data: &Vec<u8>)
        requires
            old(self).wf(),
        ensures
            final(self).wf(),
            final(self).cart_spec().ram_view().len() == old(self).cart_spec().ram_view().len(),
            forall|i: int|
                0 <= i < old(self).cart_spec().ram_view().len() ==> #[trigger] final(self).cart_spec().ram_view()[i] == if i < data@.len() {
                    data@[i]
                } else {
                    old(self).cart_spec().ram_view()[i]
                },
    {
        self.cart.load_save(data);
    }
}


/// The value last written at `loc` among the writes `ws` (address, value), or
/// `default` where none was.
pub open spec fn last_written(ws: Seq<(u16, u8)>, loc: u16, default: u8) -> u8
    decreases ws.len(),
{
    if ws.len() == 0 {
        default
    } else if ws.last().0 == loc {
        ws.last().1
    } else {
        last_written(ws.drop_last(), loc, default)
    }
}

/// Interrupt-flag and interrupt-enable registers after the writes `ws`, in order.
pub open spec fn interrupt_regs_after_all(pending: u8, enabled: u8, ws: Seq<(u16, u8)>) -> (u8, u8)
    decreases ws.len(),
{
    if ws.len() == 0 {
        (pending, enabled)
    } else {
        let (p, e) = interrupt_regs_after_all(pending, enabled, ws.drop_last());
        interrupt_regs_after(p, e, ws.last().0, ws.last().1)
    }
}

/// Work RAM is mirrored: every address of 0xC000..0xDDFF reads the same as
/// the address 0x2000 above it, in every state of the bus.
pub proof fn lemma_echo_ram(b: &MemBus, loc: u16)
    requires
        0xC000 <= loc < 0xDE00,
    ensures
        b.read_spec(loc) == b.read_spec((loc + 0x2000) as u16),
{
}

/// After any sequence of writes, the interrupts reported as pending and
/// enabled are the last values written to 0xFF0F and 0xFFFF, intersected
/// and cut to five bits.
pub proof fn lemma_interrupts_after_writes(pending: u8, enabled: u8, ws: Seq<(u16, u8)>)
    requires
        pending <= ALL_INTERRUPTS,
        enabled <= ALL_INTERRUPTS,
    ensures
        ({
            let (p, e) = interrupt_regs_after_all(pending, enabled, ws);
            p & e == (last_written(ws, 0xFF0F, pending) & last_written(ws, 0xFFFF, enabled))
                & ALL_INTERRUPTS
        }),
{
    lemma_interrupt_regs_masked(pending, enabled, ws);
    let a = last_written(ws, 0xFF0F, pending);
    let c = last_written(ws, 0xFFFF, enabled);
    lemma_byte_pair(a, c);
}

proof fn lemma_interrupt_regs_masked(pending: u8, enabled: u8, ws: Seq<(u16, u8)>)
    requires
        pending <= ALL_INTERRUPTS,
        enabled <= ALL_INTERRUPTS,
    ensures
        interrupt_regs_after_all(pending, enabled, ws).0 == last_written(ws, 0xFF0F, pending)
            & ALL_INTERRUPTS,
        interrupt_regs_after_all(pending, enabled, ws).1 == last_written(ws, 0xFFFF, enabled)
            & ALL_INTERRUPTS,
    decreases ws.len(),
{
    if ws.len() == 0 {
        lemma_byte(pending);
        lemma_byte(enabled);
    } else {
        lemma_interrupt_regs_masked(pending, enabled, ws.drop_last());
    }
}

/// Once a bank-swap command has been handled, every read of 0x4000..0x7FFF
/// returns the ROM byte at `bank * 0x4000 + (loc - 0x4000)` for the bank
/// that the controller selects.
pub proof fn lemma_switchable_bank(b: &MemBus, loc: u16)
    requires
        b.wf(),
        0x4000 <= loc < 0x8000,
    ensures
        b.read_spec(loc) == rom_byte(
            b.cart_spec().rom_image(),
            b.cart_spec().mbc().rom_bank_spec() * ROM_BANK_SIZE + (loc - 0x4000),
        ),
{
}

} // verus!
