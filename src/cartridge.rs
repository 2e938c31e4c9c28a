//! Cartridge memory: the two mapped ROM pages, cartridge RAM and the
//! memory-bank controllers that reinterpret writes into ROM as commands.
use vstd::prelude::*;
use crate::bits::lemma_byte;

verus! {

/// Size of one ROM page.
pub const ROM_BANK_SIZE: usize = 0x4000;
/// Size of one cartridge RAM page.
pub const RAM_BANK_SIZE: usize = 0x2000;
/// Offset of the header byte that names the bank controller.
pub const MBC_TYPE_OFFSET: usize = 0x147;
/// Offset of the header byte that gives the RAM size.
pub const RAM_SIZE_OFFSET: usize = 0x149;

/// Byte `i` of a ROM image; bytes past the end of the image read as zero.
pub open spec fn rom_byte(rom: Seq<u8>, i: int) -> u8 {
    if 0 <= i < rom.len() {
        rom[i]
    } else {
        0
    }
}

/// Whether the low nibble of a command byte is the RAM-enable pattern.
pub open spec fn enables_ram(val: u8) -> bool {
    val & 0xF == 0xA
}

/// The five clock registers of an MB3 controller.
#[derive(Clone, Copy, Debug, PartialEq, Eq, Structural)]
pub struct RtcRegs {
    pub seconds: u8,
    pub minutes: u8,
    pub hours: u8,
    pub day_low: u8,
    pub day_high: u8,
}

impl RtcRegs {
    /// Register `sel` (0 to 4).
    pub open spec fn get_spec(self, sel: u8) -> u8 {
        if sel == 0 {
            self.seconds
        } else if sel == 1 {
            self.minutes
        } else if sel == 2 {
            self.hours
        } else if sel == 3 {
            self.day_low
        } else {
            self.day_high
        }
    }

    /// The registers with register `sel` (0 to 4) set to `val`.
    pub open spec fn set_spec(self, sel: u8, val: u8) -> RtcRegs {
        if sel == 0 {
            RtcRegs { seconds: val, ..self }
        } else if sel == 1 {
            RtcRegs { minutes: val, ..self }
        } else if sel == 2 {
            RtcRegs { hours: val, ..self }
        } else if sel == 3 {
            RtcRegs { day_low: val, ..self }
        } else {
            RtcRegs { day_high: val, ..self }
        }
    }

    pub fn new() -> (r: RtcRegs)
        ensures
            r == (RtcRegs { seconds: 0, minutes: 0, hours: 0, day_low: 0, day_high: 0 }),
    {
        RtcRegs { seconds: 0, minutes: 0, hours: 0, day_low: 0, day_high: 0 }
    }

    pub fn get(&self, sel: u8) -> (r: u8)
        ensures
            r == self.get_spec(sel),
    {
        if sel == 0 {
            self.seconds
        } else if sel == 1 {
            self.minutes
        } else if sel == 2 {
            self.hours
        } else if sel == 3 {
            self.day_low
        } else {
            self.day_high
        }
    }

    pub fn set(&mut self, sel: u8, val: u8)
        ensures
            *final(self) == old(self).set_spec(sel, val),
    {
        if sel == 0 {
            self.seconds = val;
        } else if sel == 1 {
            self.minutes = val;
        } else if sel == 2 {
            self.hours = val;
        } else if sel == 3 {
            self.day_low = val;
        } else {
            self.day_high = val;
        }
    }
}

/// Register image of an MB1 controller.
#[derive(Clone, Copy, Debug, PartialEq, Eq, Structural)]
pub struct Mb1 {
    /// Five-bit low ROM bank register, never zero.
    pub lower: u8,
    /// Two-bit high register.
    pub upper: u8,
    /// Whether the high register selects the RAM bank rather than extending the ROM bank.
    pub ram_mode: bool,
}

/// Register image of an MB2 controller.
#[derive(Clone, Copy, Debug, PartialEq, Eq, Structural)]
pub struct Mb2 {
    /// Four-bit ROM bank register.
    pub rom_bank: u8,
}

/// Register image of an MB3 controller.
#[derive(Clone, Copy, Debug, PartialEq, Eq, Structural)]
pub struct Mb3 {
    /// Seven-bit ROM bank register, never zero.
    pub rom_bank: u8,
    /// Two-bit RAM bank register.
    pub ram_bank: u8,
    /// Whether the RAM window shows RAM (else the selected clock register).
    pub ram_select: bool,
    /// Selected clock register, 0 to 4.
    pub rtc_select: u8,
    /// Clock registers as written.
    pub rtc: RtcRegs,
    /// Clock registers as last latched; reads see these.
    pub latched: RtcRegs,
    /// Whether the zero prelude of the latch sequence has been written.
    pub latch_armed: bool,
}

/// Register image of an MB5 controller.
#[derive(Clone, Copy, Debug, PartialEq, Eq, Structural)]
pub struct Mb5 {
    /// Low eight bits of the ROM bank.
    pub rom_lo: u8,
    /// Ninth bit of the ROM bank.
    pub rom_hi: u8,
    /// Four-bit RAM bank register.
    pub ram_bank: u8,
}

/// The memory-bank controller of a cartridge.
#[derive(Clone, Copy, Debug, PartialEq, Eq, Structural)]
pub enum Mbc {
    RomOnly,
    Mb1(Mb1),
    Mb2(Mb2),
    Mb3(Mb3),
    Mb5(Mb5),
}

impl Mbc {
    pub open spec fn wf(self) -> bool {
        match self {
            Mbc::RomOnly => true,
            Mbc::Mb1(m) => 1 <= m.lower <= 0x1F && m.upper <= 3,
            Mbc::Mb2(m) => m.rom_bank <= 0xF,
            Mbc::Mb3(m) => 1 <= m.rom_bank <= 0x7F && m.ram_bank <= 3 && m.rtc_select <= 4,
            Mbc::Mb5(m) => m.rom_hi <= 1 && m.ram_bank <= 0xF,
        }
    }

    /// The ROM bank that the registers select for 0x4000..0x7FFF.
    pub open spec fn rom_bank_spec(self) -> int {
        match self {
            Mbc::RomOnly => 1,
            Mbc::Mb1(m) => if m.ram_mode {
                m.lower as int
            } else {
                m.upper * 32 + m.lower
            },
            Mbc::Mb2(m) => m.rom_bank as int,
            Mbc::Mb3(m) => m.rom_bank as int,
            Mbc::Mb5(m) => m.rom_hi * 256 + m.rom_lo,
        }
    }

    /// The RAM bank that the registers select for 0xA000..0xBFFF.
    pub open spec fn ram_bank_spec(self) -> int {
        match self {
            Mbc::Mb1(m) => if m.ram_mode {
                m.upper as int
            } else {
                0
            },
            Mbc::Mb3(m) => m.ram_bank as int,
            Mbc::Mb5(m) => m.ram_bank as int,
            _ => 0,
        }
    }

    /// The registers after the command `val` is written at `loc` (below 0x8000).
    pub open spec fn command(self, loc: u16, val: u8) -> Mbc {
        match self {
            Mbc::RomOnly => self,
            Mbc::Mb1(m) => if 0x2000 <= loc < 0x4000 {
                Mbc::Mb1(Mb1 { lower: if val & 0x1F == 0 { 1 } else { val & 0x1F }, ..m })
            } else if 0x4000 <= loc < 0x6000 {
                Mbc::Mb1(Mb1 { upper: val & 3, ..m })
            } else if 0x6000 <= loc < 0x8000 {
                Mbc::Mb1(Mb1 { ram_mode: val & 1 == 1, ..m })
            } else {
                self
            },
            Mbc::Mb2(m) => if 0x2000 <= loc < 0x4000 {
                Mbc::Mb2(Mb2 { rom_bank: val & 0xF })
            } else {
                self
            },
            Mbc::Mb3(m) => if 0x2000 <= loc < 0x4000 {
                Mbc::Mb3(Mb3 { rom_bank: if val & 0x7F == 0 { 1 } else { val & 0x7F }, ..m })
            } else if 0x4000 <= loc < 0x6000 && val <= 3 {
                Mbc::Mb3(Mb3 { ram_bank: val, ram_select: true, ..m })
            } else if 0x4000 <= loc < 0x6000 && 8 <= val <= 0xC {
                Mbc::Mb3(Mb3 { rtc_select: (val - 8) as u8, ram_select: false, ..m })
            } else if 0x6000 <= loc < 0x8000 && val == 0 {
                Mbc::Mb3(Mb3 { latch_armed: true, ..m })
            } else if 0x6000 <= loc < 0x8000 && val == 1 && m.latch_armed {
                Mbc::Mb3(Mb3 { latched: m.rtc, latch_armed: false, ..m })
            } else if 0x6000 <= loc < 0x8000 {
                Mbc::Mb3(Mb3 { latch_armed: false, ..m })
            } else {
                self
            },
            Mbc::Mb5(m) => if 0x2000 <= loc < 0x3000 {
                Mbc::Mb5(Mb5 { rom_lo: val, ..m })
            } else if 0x3000 <= loc < 0x4000 {
                Mbc::Mb5(Mb5 { rom_hi: val & 1, ..m })
            } else if 0x4000 <= loc < 0x6000 {
                Mbc::Mb5(Mb5 { ram_bank: val & 0xF, ..m })
            } else {
                self
            },
        }
    }

    /// The RAM-enable latch after the command `val` is written at `loc`.
    pub open spec fn enable_after(self, enable: bool, loc: u16, val: u8) -> bool {
        match self {
            Mbc::RomOnly => enable,
            Mbc::Mb2(_) => if loc < 0x2000 {
                loc & 0x10 == 0
            } else {
                enable
            },
            _ => if loc < 0x2000 {
                enables_ram(val)
            } else {
                enable
            },
        }
    }

    /// The selected ROM bank.
    pub fn rom_bank(&self) -> (r: u16)
        requires
            self.wf(),
        ensures
            r == self.rom_bank_spec(),
            r < 512,
    {
        match self {
            Mbc::RomOnly => 1,
            Mbc::Mb1(m) => if m.ram_mode {
                m.lower as u16
            } else {
                m.upper as u16 * 32 + m.lower as u16
            },
            Mbc::Mb2(m) => m.rom_bank as u16,
            Mbc::Mb3(m) => m.rom_bank as u16,
            Mbc::Mb5(m) => m.rom_hi as u16 * 256 + m.rom_lo as u16,
        }
    }

    /// The selected RAM bank.
    pub fn ram_bank(&self) -> (r: u8)
        requires
            self.wf(),
        ensures
            r == self.ram_bank_spec(),
            r < 16,
    {
        match self {
            Mbc::Mb1(m) => if m.ram_mode {
                m.upper
            } else {
                0
            },
            Mbc::Mb3(m) => m.ram_bank,
            Mbc::Mb5(m) => m.ram_bank,
            _ => 0,
        }
    }

    /// Applies the command `val` written at `loc` to the registers.
    pub fn apply_command(&mut self, loc: u16, val: u8)
        requires
            old(self).wf(),
            loc < 0x8000,
        ensures
            *final(self) == old(self).command(loc, val),
            final(self).wf(),
    {
        match self {
            Mbc::RomOnly => {},
            Mbc::Mb1(m) => {
                if 0x2000 <= loc && loc < 0x4000 {
                    let low = val & 0x1F;
                    proof {
                        lemma_byte(val);
                    }
                    m.lower = if low == 0 { 1 } else { low };
                } else if 0x4000 <= loc && loc < 0x6000 {
                    proof {
                        lemma_byte(val);
                    }
                    m.upper = val & 3;
                } else if 0x6000 <= loc && loc < 0x8000 {
                    m.ram_mode = val & 1 == 1;
                }
            },
            Mbc::Mb2(m) => {
                if 0x2000 <= loc && loc < 0x4000 {
                    proof {
                        lemma_byte(val);
                    }
                    m.rom_bank = val & 0xF;
                }
            },
            Mbc::Mb3(m) => {
                if 0x2000 <= loc && loc < 0x4000 {
                    let bank = val & 0x7F;
                    proof {
                        lemma_byte(val);
                    }
                    m.rom_bank = if bank == 0 { 1 } else { bank };
                } else if 0x4000 <= loc && loc < 0x6000 && val <= 3 {
                    m.ram_bank = val;
                    m.ram_select = true;
                } else if 0x4000 <= loc && loc < 0x6000 && 8 <= val && val <= 0xC {
                    m.rtc_select = val - 8;
                    m.ram_select = false;
                } else if 0x6000 <= loc && loc < 0x8000 && val == 0 {
                    m.latch_armed = true;
                } else if 0x6000 <= loc && loc < 0x8000 && val == 1 && m.latch_armed {
                    m.latched = m.rtc;
                    m.latch_armed = false;
                } else if 0x6000 <= loc && loc < 0x8000 {
                    m.latch_armed = false;
                }
            },
            Mbc::Mb5(m) => {
                if 0x2000 <= loc && loc < 0x3000 {
                    m.rom_lo = val;
                } else if 0x3000 <= loc && loc < 0x4000 {
                    proof {
                        lemma_byte(val);
                    }
                    m.rom_hi = val & 1;
                } else if 0x4000 <= loc && loc < 0x6000 {
                    proof {
                        lemma_byte(val);
                    }
                    m.ram_bank = val & 0xF;
                }
            },
        }
    }
}


/// Why a ROM image cannot be mapped.
#[derive(Clone, Copy, Debug, PartialEq, Eq, Structural)]
pub enum CartridgeError {
    /// The header names a bank controller that is not supported.
    UnsupportedMbc(u8),
}

/// The controller that header byte `code` names, if it is supported.
pub open spec fn mbc_kind(code: u8) -> Option<int> {
    if code == 0x00 || code == 0x08 || code == 0x09 {
        Some(0)
    } else if 0x01 <= code <= 0x03 {
        Some(1)
    } else if 0x05 <= code <= 0x06 {
        Some(2)
    } else if 0x0F <= code <= 0x13 {
        Some(3)
    } else if 0x19 <= code <= 0x1E {
        Some(5)
    } else {
        None
    }
}

/// The controller registers at power-on for header byte `code`: bank 1
/// selected, RAM bank 0, MB1 in ROM mode, MB3 showing RAM.
pub open spec fn initial_mbc(code: u8) -> Mbc {
    if code == 0x00 || code == 0x08 || code == 0x09 {
        Mbc::RomOnly
    } else if 0x01 <= code <= 0x03 {
        Mbc::Mb1(Mb1 { lower: 1, upper: 0, ram_mode: false })
    } else if 0x05 <= code <= 0x06 {
        Mbc::Mb2(Mb2 { rom_bank: 1 })
    } else if 0x0F <= code <= 0x13 {
        Mbc::Mb3(
            Mb3 {
                rom_bank: 1,
                ram_bank: 0,
                ram_select: true,
                rtc_select: 0,
                rtc: RtcRegs { seconds: 0, minutes: 0, hours: 0, day_low: 0, day_high: 0 },
                latched: RtcRegs { seconds: 0, minutes: 0, hours: 0, day_low: 0, day_high: 0 },
                latch_armed: false,
            },
        )
    } else {
        Mbc::Mb5(Mb5 { rom_lo: 1, rom_hi: 0, ram_bank: 0 })
    }
}

/// The kind of controller of `m`.
pub open spec fn kind_of(m: Mbc) -> int {
    match m {
        Mbc::RomOnly => 0,
        Mbc::Mb1(_) => 1,
        Mbc::Mb2(_) => 2,
        Mbc::Mb3(_) => 3,
        Mbc::Mb5(_) => 5,
    }
}

/// Whether header byte `code` names a cartridge with a battery.
pub open spec fn has_battery_spec(code: u8) -> bool {
    code == 0x03 || code == 0x06 || code == 0x09 || code == 0x0F || code == 0x10 || code == 0x13
        || code == 0x1B || code == 0x1E
}

/// Cartridge RAM size for controller kind `kind` and header RAM byte `code`.
pub open spec fn ram_size_spec(kind: int, code: u8) -> int {
    if kind == 2 {
        0x200
    } else if code == 1 {
        0x800
    } else if code == 2 {
        0x2000
    } else if code == 3 {
        0x8000
    } else {
        0
    }
}

/// A cartridge: ROM image, the mapped ROM pages, cartridge RAM and its controller.
pub struct Cartridge {
    rom: Vec<u8>,
    rom_bank_0: Vec<u8>,
    rom_bank_n: Vec<u8>,
    loaded_bank: u16,
    ram: Vec<u8>,
    mem_bank: Mbc,
    ram_enable: bool,
    ram_offset: usize,
    battery: bool,
}

impl Cartridge {
    /// The ROM image that pages are read from.
    pub closed spec fn rom_image(&self) -> Seq<u8> {
        self.rom@
    }

    /// The ROM bank currently mapped at 0x4000..0x7FFF.
    pub closed spec fn loaded_rom_bank(&self) -> int {
        self.loaded_bank as int
    }

    /// Byte offset of the mapped RAM page inside cartridge RAM.
    pub closed spec fn ram_offset_spec(&self) -> int {
        self.ram_offset as int
    }

    /// The bank controller.
    pub closed spec fn mbc(&self) -> Mbc {
        self.mem_bank
    }

    /// The RAM-enable latch.
    pub closed spec fn ram_enabled(&self) -> bool {
        self.ram_enable
    }

    /// Cartridge RAM.
    pub closed spec fn ram_view(&self) -> Seq<u8> {
        self.ram@
    }

    /// Everything of `wf` but the contents of the switchable page.
    pub closed spec fn layout_ok(&self) -> bool {
        &&& self.rom_bank_0@.len() == ROM_BANK_SIZE
        &&& self.rom_bank_n@.len() == ROM_BANK_SIZE
        &&& self.loaded_bank < 512
        &&& self.mem_bank.wf()
        &&& self.ram_offset <= 15 * RAM_BANK_SIZE
        &&& self.ram@.len() <= 0x8000
        &&& forall|i: int| 0 <= i < ROM_BANK_SIZE ==> #[trigger] self.rom_bank_0@[i] == rom_byte(self.rom@, i)
    }

    /// The mapped pages hold the image's bytes: bank 0, and the loaded bank.
    pub closed spec fn pages_ok(&self) -> bool {
        &&& self.layout_ok()
        &&& forall|i: int| 0 <= i < ROM_BANK_SIZE ==> #[trigger] self.rom_bank_n@[i] == rom_byte(
            self.rom@,
            self.loaded_bank * ROM_BANK_SIZE + i,
        )
    }

    /// Whether the mapped pages are the ones that the controller selects.
    pub open spec fn synced(&self) -> bool {
        &&& self.loaded_rom_bank() == self.mbc().rom_bank_spec()
        &&& self.ram_offset_spec() == self.mbc().ram_bank_spec() * RAM_BANK_SIZE
    }

    /// The pages hold the image's bytes and are the ones the controller selects.
    pub open spec fn wf(&self) -> bool {
        &&& self.pages_ok()
        &&& self.synced()
    }

    /// What a read of offset `loc` of the RAM window (0xA000..0xBFFF) returns.
    pub open spec fn ram_read_spec(&self, loc: int) -> u8 {
        if !self.ram_enabled() {
            0
        } else {
            match self.mbc() {
                Mbc::Mb3(m) if !m.ram_select => m.latched.get_spec(m.rtc_select),
                _ => rom_byte(self.ram_view(), self.ram_offset_spec() + loc),
            }
        }
    }

    /// What a read of `loc` returns.
    pub open spec fn read_spec(&self, loc: u16) -> u8 {
        if loc < 0x4000 {
            rom_byte(self.rom_image(), loc as int)
        } else if loc < 0x8000 {
            rom_byte(self.rom_image(), self.loaded_rom_bank() * ROM_BANK_SIZE + (loc - 0x4000))
        } else if 0xA000 <= loc < 0xC000 {
            self.ram_read_spec(loc - 0xA000)
        } else {
            0
        }
    }

    /// Cartridge RAM after `val` is written at offset `loc` of the RAM window.
    pub open spec fn ram_after_write(&self, loc: int, val: u8) -> Seq<u8> {
        let idx = self.ram_offset_spec() + loc;
        if !self.ram_enabled() || !(0 <= idx < self.ram_view().len()) {
            self.ram_view()
        } else {
            match self.mbc() {
                Mbc::Mb2(_) => self.ram_view().update(idx, val & 0xF),
                Mbc::Mb3(m) if !m.ram_select => self.ram_view(),
                _ => self.ram_view().update(idx, val),
            }
        }
    }

    /// The controller after `val` is written at offset `loc` of the RAM window.
    pub open spec fn mbc_after_ram_write(&self, val: u8) -> Mbc {
        match self.mbc() {
            Mbc::Mb3(m) if self.ram_enabled() && !m.ram_select => Mbc::Mb3(
                Mb3 { rtc: m.rtc.set_spec(m.rtc_select, val), ..m },
            ),
            _ => self.mbc(),
        }
    }

    /// Whether `rom`'s header names an unsupported bank controller.
    pub open spec fn new_fails(rom: Seq<u8>) -> bool {
        mbc_kind(rom_byte(rom, MBC_TYPE_OFFSET as int)) is None
    }

    /// The error for a ROM whose header names an unsupported bank controller.
    pub open spec fn new_error(rom: Seq<u8>) -> CartridgeError {
        CartridgeError::UnsupportedMbc(rom_byte(rom, MBC_TYPE_OFFSET as int))
    }

    /// Maps a ROM image: bank 0 and bank 1 are read in, the controller and
    /// the RAM size come from the header.
    pub fn new(rom: Vec<u8>) -> (r: Result<Cartridge, CartridgeError>)
        ensures
            Self::new_fails(rom@) <==> r is Err,
            r is Err ==> r == Err::<Cartridge, CartridgeError>(Self::new_error(rom@)),
            r matches Ok(c) ==> {
                &&& c.wf()
                &&& c.rom_image() == rom@
                &&& c.mbc() == initial_mbc(rom_byte(rom@, MBC_TYPE_OFFSET as int))
                &&& c.loaded_rom_bank() == 1
                &&& Some(kind_of(c.mbc())) == mbc_kind(rom_byte(rom@, MBC_TYPE_OFFSET as int))
                &&& c.ram_view() == Seq::new(
                    ram_size_spec(kind_of(c.mbc()), rom_byte(rom@, RAM_SIZE_OFFSET as int)) as nat,
                    |i: int| 0u8,
                )
                &&& !c.ram_enabled()
                &&& c.has_battery() == has_battery_spec(rom_byte(rom@, MBC_TYPE_OFFSET as int))
            },
    {
        let code = if MBC_TYPE_OFFSET < rom.len() { rom[MBC_TYPE_OFFSET] } else { 0 };
        let ram_code = if RAM_SIZE_OFFSET < rom.len() { rom[RAM_SIZE_OFFSET] } else { 0 };
        let mem_bank = if code == 0x00 || code == 0x08 || code == 0x09 {
            Mbc::RomOnly
        } else if 0x01 <= code && code <= 0x03 {
            Mbc::Mb1(Mb1 { lower: 1, upper: 0, ram_mode: false })
        } else if 0x05 <= code && code <= 0x06 {
            Mbc::Mb2(Mb2 { rom_bank: 1 })
        } else if 0x0F <= code && code <= 0x13 {
            Mbc::Mb3(
                Mb3 {
                    rom_bank: 1,
                    ram_bank: 0,
                    ram_select: true,
                    rtc_select: 0,
                    rtc: RtcRegs::new(),
                    latched: RtcRegs::new(),
                    latch_armed: false,
                },
            )
        } else if 0x19 <= code && code <= 0x1E {
            Mbc::Mb5(Mb5 { rom_lo: 1, rom_hi: 0, ram_bank: 0 })
        } else {
            return Err(CartridgeError::UnsupportedMbc(code));
        };
        let ram_size: usize = match mem_bank {
            Mbc::Mb2(_) => 0x200,
            _ => if ram_code == 1 {
                0x800
            } else if ram_code == 2 {
                0x2000
            } else if ram_code == 3 {
                0x8000
            } else {
                0
            },
        };
        let battery = code == 0x03 || code == 0x06 || code == 0x09 || code == 0x0F || code == 0x10
            || code == 0x13 || code == 0x1B || code == 0x1E;
        let mut rom_bank_0: Vec<u8> = Vec::new();
        let mut i: usize = 0;
        while i < ROM_BANK_SIZE
            invariant
                i <= ROM_BANK_SIZE,
                rom_bank_0@.len() == i,
                forall|j: int| 0 <= j < i ==> #[trigger] rom_bank_0@[j] == rom_byte(rom@, j),
            decreases ROM_BANK_SIZE - i,
        {
            let b = if i < rom.len() { rom[i] } else { 0 };
            rom_bank_0.push(b);
            i = i + 1;
        }
        let ram = vec![0u8; ram_size];
        let mut cart = Cartridge {
            rom,
            rom_bank_0,
            rom_bank_n: vec![0u8; ROM_BANK_SIZE],
            loaded_bank: 0,
            ram,
            mem_bank,
            ram_enable: false,
            ram_offset: 0,
            battery,
        };
        cart.swap_rom_bank(1);
        proof {
            assert(cart.ram@ =~= Seq::new(ram_size as nat, |i: int| 0u8));
        }
        Ok(cart)
    }

    /// Whether the cartridge keeps its RAM across power-off.
    pub closed spec fn has_battery(&self) -> bool {
        self.battery
    }

    /// Reads ROM bank `bank` from the image into the page at 0x4000..0x7FFF.
    pub fn swap_rom_bank(&mut self, bank: u16)
        requires
            old(self).layout_ok(),
            bank < 512,
        ensures
            final(self).pages_ok(),
            final(self).loaded_rom_bank() == bank,
            final(self).rom_image() == old(self).rom_image(),
            final(self).ram_view() == old(self).ram_view(),
            final(self).ram_offset_spec() == old(self).ram_offset_spec(),
            final(self).mbc() == old(self).mbc(),
            final(self).ram_enabled() == old(self).ram_enabled(),
            final(self).has_battery() == old(self).has_battery(),
    {
        let base: usize = bank as usize * ROM_BANK_SIZE;
        let mut i: usize = 0;
        while i < ROM_BANK_SIZE
            invariant
                i <= ROM_BANK_SIZE,
                base == bank * ROM_BANK_SIZE,
                bank < 512,
                self.rom_bank_n@.len() == ROM_BANK_SIZE,
                self.rom@ == old(self).rom@,
                forall|j: int| 0 <= j < i ==> #[trigger] self.rom_bank_n@[j] == rom_byte(self.rom@, base + j),
                self.rom_bank_0@ == old(self).rom_bank_0@,
                self.ram@ == old(self).ram@,
                self.ram_offset == old(self).ram_offset,
                self.mem_bank == old(self).mem_bank,
                self.ram_enable == old(self).ram_enable,
                self.battery == old(self).battery,
                self.loaded_bank == old(self).loaded_bank,
            decreases ROM_BANK_SIZE - i,
        {
            let pos = base + i;
            let b = if pos < self.rom.len() { self.rom[pos] } else { 0 };
            self.rom_bank_n.set(i, b);
            i = i + 1;
        }
        self.loaded_bank = bank;
    }

    /// Selects RAM bank `bank` for the window at 0xA000..0xBFFF.
    pub fn swap_ram_bank(&mut self, bank: u8)
        requires
            old(self).pages_ok(),
            bank < 16,
        ensures
            final(self).pages_ok(),
            final(self).ram_offset_spec() == bank * RAM_BANK_SIZE,
            final(self).loaded_rom_bank() == old(self).loaded_rom_bank(),
            final(self).rom_image() == old(self).rom_image(),
            final(self).ram_view() == old(self).ram_view(),
            final(self).mbc() == old(self).mbc(),
            final(self).ram_enabled() == old(self).ram_enabled(),
            final(self).has_battery() == old(self).has_battery(),
    {
        self.ram_offset = bank as usize * RAM_BANK_SIZE;
    }

    /// Reads offset `loc` of the RAM window: zero while RAM is disabled, the
    /// latched clock register while an MB3 clock register is selected.
    pub fn read_ram(&self, loc: u16) -> (r: u8)
        requires
            self.pages_ok(),
        ensures
            r == self.ram_read_spec(loc as int),
    {
        if self.ram_enable {
            match &self.mem_bank {
                Mbc::Mb3(mb) if !mb.ram_select => mb.latched.get(mb.rtc_select),
                _ => {
                    let idx = self.ram_offset + loc as usize;
                    if idx < self.ram.len() {
                        self.ram[idx]
                    } else {
                        0
                    }
                },
            }
        } else {
            0
        }
    }

    /// Writes offset `loc` of the RAM window, if RAM is enabled: MB2 keeps the
    /// low nibble, an MB3 with a clock register selected sets that register.
    pub fn write_ram(&mut self, loc: u16, val: u8)
        requires
            old(self).pages_ok(),
        ensures
            final(self).pages_ok(),
            final(self).ram_view() == old(self).ram_after_write(loc as int, val),
            final(self).mbc() == old(self).mbc_after_ram_write(val),
            final(self).mbc().rom_bank_spec() == old(self).mbc().rom_bank_spec(),
            final(self).mbc().ram_bank_spec() == old(self).mbc().ram_bank_spec(),
            final(self).loaded_rom_bank() == old(self).loaded_rom_bank(),
            final(self).ram_offset_spec() == old(self).ram_offset_spec(),
            final(self).rom_image() == old(self).rom_image(),
            final(self).ram_enabled() == old(self).ram_enabled(),
            final(self).has_battery() == old(self).has_battery(),
    {
        if self.ram_enable {
            let idx = self.ram_offset + loc as usize;
            let in_range = idx < self.ram.len();
            match &mut self.mem_bank {
                Mbc::Mb2(_) => {
                    if in_range {
                        self.ram.set(idx, val & 0xF);
                    }
                },
                Mbc::Mb3(mb) => {
                    if !mb.ram_select {
                        let sel = mb.rtc_select;
                        mb.rtc.set(sel, val);
                    } else if in_range {
                        self.ram.set(idx, val);
                    }
                },
                _ => {
                    if in_range {
                        self.ram.set(idx, val);
                    }
                },
            }
        }
    }

    /// What a read of `loc` returns: bank 0 at 0x0000..0x3FFF, the mapped
    /// bank at 0x4000..0x7FFF, the RAM window at 0xA000..0xBFFF, else zero.
    pub fn read(&self, loc: u16) -> (r: u8)
        requires
            self.pages_ok(),
        ensures
            r == self.read_spec(loc),
    {
        if loc < 0x4000 {
            self.rom_bank_0[loc as usize]
        } else if loc < 0x8000 {
            self.rom_bank_n[(loc - 0x4000) as usize]
        } else if 0xA000 <= loc && loc < 0xC000 {
            self.read_ram(loc - 0xA000)
        } else {
            0
        }
    }

    /// A write into 0xA000..0xBFFF stores to cartridge RAM; a write below
    /// 0x8000 is a bank controller command, after which the pages that the
    /// controller selects are mapped where they differ from the previous selection.
    pub fn write(&mut self, loc: u16, val: u8)
        requires
            old(self).wf(),
        ensures
            final(self).wf(),
            final(self).rom_image() == old(self).rom_image(),
            final(self).has_battery() == old(self).has_battery(),
            0xA000 <= loc < 0xC000 ==> {
                &&& final(self).ram_view() == old(self).ram_after_write(loc - 0xA000, val)
                &&& final(self).mbc() == old(self).mbc_after_ram_write(val)
                &&& final(self).loaded_rom_bank() == old(self).loaded_rom_bank()
                &&& final(self).ram_offset_spec() == old(self).ram_offset_spec()
                &&& final(self).ram_enabled() == old(self).ram_enabled()
            },
            loc < 0x8000 ==> {
                &&& final(self).mbc() == old(self).mbc().command(loc, val)
                &&& final(self).ram_enabled() == old(self).mbc().enable_after(
                    old(self).ram_enabled(),
                    loc,
                    val,
                )
                &&& final(self).ram_view() == old(self).ram_view()
                &&& if old(self).mbc().command(loc, val).rom_bank_spec()
                    != old(self).mbc().rom_bank_spec() {
                    final(self).loaded_rom_bank() == final(self).mbc().rom_bank_spec()
                } else {
                    final(self).loaded_rom_bank() == old(self).loaded_rom_bank()
                }
                &&& if old(self).mbc().command(loc, val).ram_bank_spec()
                    != old(self).mbc().ram_bank_spec() {
                    final(self).ram_offset_spec() == final(self).mbc().ram_bank_spec()
                        * RAM_BANK_SIZE
                } else {
                    final(self).ram_offset_spec() == old(self).ram_offset_spec()
                }
            },
            !(loc < 0x8000 || 0xA000 <= loc < 0xC000) ==> *final(self) == *old(self),
    {
        if 0xA000 <= loc && loc < 0xC000 {
            self.write_ram(loc - 0xA000, val);
        } else if loc < 0x8000 {
            let old_rom_bank = self.mem_bank.rom_bank();
            let old_ram_bank = self.mem_bank.ram_bank();
            let enable = match &self.mem_bank {
                Mbc::RomOnly => self.ram_enable,
                Mbc::Mb2(_) => if loc < 0x2000 {
                    loc & 0x10 == 0
                } else {
                    self.ram_enable
                },
                _ => if loc < 0x2000 {
                    val & 0xF == 0xA
                } else {
                    self.ram_enable
                },
            };
            self.ram_enable = enable;
            self.mem_bank.apply_command(loc, val);
            let new_rom_bank = self.mem_bank.rom_bank();
            let new_ram_bank = self.mem_bank.ram_bank();
            if new_rom_bank != old_rom_bank {
                self.swap_rom_bank(new_rom_bank);
            }
            if new_ram_bank != old_ram_bank {
                self.swap_ram_bank(new_ram_bank);
            }
        }
    }

    /// The ROM bank that the controller selects.
    pub fn rom_bank(&self) -> (r: u16)
        requires
            self.wf(),
        ensures
            r == self.mbc().rom_bank_spec(),
    {
        self.mem_bank.rom_bank()
    }

    /// The RAM bank that the controller selects.
    pub fn ram_bank(&self) -> (r: u8)
        requires
            self.wf(),
        ensures
            r == self.mbc().ram_bank_spec(),
    {
        self.mem_bank.ram_bank()
    }

    /// Whether the header names a controller with a battery.
    pub fn battery(&self) -> (r: bool)
        ensures
            r == self.has_battery(),
    {
        self.battery
    }

    /// A copy of cartridge RAM, as a save file holds it.
    pub fn save_data(&self) -> (r: Vec<u8>)
        ensures
            r@ == self.ram_view(),
    {
        self.ram.clone()
    }

    /// Loads a save file into cartridge RAM; bytes past the RAM size are
    /// ignored and RAM past the end of `data` is kept.
    pub fn load_save(&mut self, data: &Vec<u8>)
        requires
            old(self).wf(),
        ensures
            final(self).wf(),
            final(self).ram_view().len() == old(self).ram_view().len(),
            forall|i: int|
                0 <= i < old(self).ram_view().len() ==> #[trigger] final(self).ram_view()[i] == if i
                    < data@.len() {
                    data@[i]
                } else {
                    old(self).ram_view()[i]
                },
            final(self).loaded_rom_bank() == old(self).loaded_rom_bank(),
            final(self).ram_offset_spec() == old(self).ram_offset_spec(),
            final(self).rom_image() == old(self).rom_image(),
            final(self).mbc() == old(self).mbc(),
            final(self).ram_enabled() == old(self).ram_enabled(),
            final(self).has_battery() == old(self).has_battery(),
    {
        let mut i: usize = 0;
        while i < self.ram.len() && i < data.len()
            invariant
                self.wf(),
                i <= self.ram@.len(),
                i <= data@.len(),
                self.ram@.len() == old(self).ram@.len(),
                forall|j: int|
                    0 <= j < old(self).ram@.len() ==> #[trigger] self.ram@[j] == if j < i {
                        data@[j]
                    } else {
                        old(self).ram@[j]
                    },
                self.rom@ == old(self).rom@,
                self.loaded_bank == old(self).loaded_bank,
                self.ram_offset == old(self).ram_offset,
                self.mem_bank == old(self).mem_bank,
                self.ram_enable == old(self).ram_enable,
                self.battery == old(self).battery,
            decreases self.ram@.len() - i,
        {
            self.ram.set(i, data[i]);
            i = i + 1;
        }
    }
}


/// On an MB1 in ROM mode, writing bank number `n` (below 0x80) as its low
/// five bits to 0x2000 and its high bits to 0x4000 selects bank `n`, except
/// that banks 0x00, 0x20, 0x40 and 0x60 become 0x01, 0x21, 0x41 and 0x61.
pub proof fn lemma_mb1_bank_select(m: Mb1, n: u8)
    requires
        Mbc::Mb1(m).wf(),
        !m.ram_mode,
        n < 0x80,
    ensures
        Mbc::Mb1(m).command(0x2000, n).command(0x4000, n >> 5).rom_bank_spec() == if n & 0x1F
            == 0 {
            n + 1
        } else {
            n as int
        },
{
    lemma_byte(n);
}


/// With RAM enabled on a controller whose RAM window shows plain bytes (MB1,
/// MB5), a byte written inside RAM reads back: `after` is any cartridge with
/// the RAM, bank offset, latch and controller that the write leaves.
pub proof fn lemma_ram_round_trip(before: Cartridge, after: Cartridge, loc: int, val: u8)
    requires
        before.ram_enabled(),
        before.mbc() is Mb1 || before.mbc() is Mb5,
        0 <= loc < 0x2000,
        before.ram_offset_spec() + loc < before.ram_view().len(),
        after.ram_view() == before.ram_after_write(loc, val),
        after.mbc() == before.mbc_after_ram_write(val),
        after.ram_offset_spec() == before.ram_offset_spec(),
        after.ram_enabled() == before.ram_enabled(),
    ensures
        after.ram_read_spec(loc) == val,
{
}

} // verus!
