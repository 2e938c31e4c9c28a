use rustboy::bus::MemBus;
use rustboy::cartridge::CartridgeError;
use rustboy::interrupt::{InterruptFlags, TIMER, V_BLANK};
use rustboy::palette::UserPalette;

fn rom_with_header(mbc: u8, ram: u8, banks: usize) -> Vec<u8> {
    let mut rom = vec![0u8; banks * 0x4000];
    for bank in 0..banks {
        for i in 0..0x4000 {
            rom[bank * 0x4000 + i] = ((bank * 7 + i) % 251) as u8;
        }
    }
    rom[0x147] = mbc;
    rom[0x149] = ram;
    rom
}

fn bus_with(mbc: u8, ram: u8, banks: usize) -> (MemBus, Vec<u8>) {
    let rom = rom_with_header(mbc, ram, banks);
    let bus = MemBus::new(rom.clone(), UserPalette::Greyscale, 44100).expect("supported header");
    (bus, rom)
}

#[test]
fn interrupt_round_trip() {
    let (mut bus, _) = bus_with(0x00, 0, 2);
    bus.write(0xFFFF, 0x1F);
    bus.write(0xFF0F, 0x01);
    assert_eq!(bus.get_interrupts().bits(), 0x01);
    bus.clear_interrupt_flag(InterruptFlags::from_bits_truncate(V_BLANK));
    assert_eq!(bus.get_interrupts().bits(), 0x00);
}

#[test]
fn interrupt_registers_keep_last_writes() {
    let (mut bus, _) = bus_with(0x00, 0, 2);
    bus.write(0xFF0F, 0xFF);
    bus.write(0xFFFF, 0x06);
    bus.write(0xFF0F, 0x07);
    bus.write(0xC000, 0x12);
    assert_eq!(bus.get_interrupts().bits(), (0x07 & 0x06) & 0x1F);
    assert_eq!(bus.read(0xFF0F), 0x07);
    assert_eq!(bus.read(0xFFFF), 0x06);
}

#[test]
fn mb1_bank_select() {
    let (mut bus, rom) = bus_with(0x01, 0x02, 32);
    bus.write(0x0000, 0x0A);
    bus.write(0x2000, 0x05);
    assert_eq!(bus.read(0x4000), rom[0x14000]);
    assert_eq!(bus.read(0x7FFF), rom[0x17FFF]);
    assert_eq!(bus.read(0x0123), rom[0x0123]);
}

#[test]
fn bank_swap_maps_selected_page() {
    let (mut bus, rom) = bus_with(0x13, 0x03, 64);
    bus.write(0x2000, 0x2A);
    for loc in [0x4000u16, 0x4001, 0x5555, 0x7FFF] {
        assert_eq!(bus.read(loc), rom[0x2A * 0x4000 + (loc as usize - 0x4000)]);
    }
    bus.write(0x2000, 0x00);
    assert_eq!(bus.read(0x4000), rom[0x4000]);
}

#[test]
fn cartridge_ram_needs_enable() {
    let (mut bus, _) = bus_with(0x03, 0x03, 4);
    bus.write(0xA010, 0x55);
    assert_eq!(bus.read(0xA010), 0);
    bus.write(0x0000, 0x0A);
    bus.write(0xA010, 0x55);
    assert_eq!(bus.read(0xA010), 0x55);
    bus.write(0x6000, 0x01);
    bus.write(0x4000, 0x02);
    assert_eq!(bus.read(0xA010), 0);
    bus.write(0x4000, 0x00);
    assert_eq!(bus.read(0xA010), 0x55);
    assert!(bus.has_battery());
    assert_eq!(bus.save_data()[0x10], 0x55);
}

#[test]
fn unsupported_controller_is_refused() {
    let rom = rom_with_header(0xFE, 0, 2);
    match MemBus::new(rom, UserPalette::Default, 44100) {
        Err(e) => assert_eq!(e, CartridgeError::UnsupportedMbc(0xFE)),
        Ok(_) => panic!("header 0xFE must be refused"),
    }
}

#[test]
fn echo_ram_mirrors_work_ram() {
    let (mut bus, _) = bus_with(0x00, 0, 2);
    bus.write(0xC123, 0x42);
    assert_eq!(bus.read(0xE123), 0x42);
    bus.write(0xFDFF, 0x99);
    assert_eq!(bus.read(0xDDFF), 0x99);
    for loc in (0xC000u16..0xDE00).step_by(0x101) {
        assert_eq!(bus.read(loc), bus.read(loc + 0x2000));
    }
}

#[test]
fn high_ram_and_unmapped() {
    let (mut bus, _) = bus_with(0x00, 0, 2);
    bus.write(0xFF80, 0x11);
    bus.write(0xFFFE, 0x22);
    assert_eq!(bus.read(0xFF80), 0x11);
    assert_eq!(bus.read(0xFFFE), 0x22);
    bus.write(0xFEA5, 0x33);
    assert_eq!(bus.read(0xFEA5), 0);
}

#[test]
fn dma_copies_to_oam() {
    let (mut bus, _) = bus_with(0x00, 0, 2);
    for loc in 0xC000u16..0xC0A0 {
        bus.write(loc, 0xAB);
    }
    bus.write(0xFF46, 0xC0);
    for loc in 0xFE00u16..0xFEA0 {
        assert_eq!(bus.read(loc), 0xAB);
    }
}

#[test]
fn dma_copies_each_source_byte() {
    let (mut bus, _) = bus_with(0x00, 0, 2);
    for i in 0..0xA0u16 {
        bus.write(0xD100 + i, (i * 3) as u8);
    }
    let before: Vec<u8> = (0..0xA0u16).map(|i| bus.read(0xD100 + i)).collect();
    bus.write(0xFF46, 0xD1);
    for i in 0..0xA0u16 {
        assert_eq!(bus.read(0xFE00 + i), before[i as usize]);
    }
}

#[test]
fn timer_overflow() {
    let (mut bus, _) = bus_with(0x00, 0, 2);
    bus.write(0xFF06, 0xF0);
    bus.write(0xFF05, 0xFF);
    bus.write(0xFF07, 0x05);
    bus.update_timers(16);
    assert_eq!(bus.read(0xFF05), 0xF0);
    assert_eq!(bus.read(0xFF0F) & TIMER, TIMER);
}

#[test]
fn divider_counts_and_resets() {
    let (mut bus, _) = bus_with(0x00, 0, 2);
    bus.update_timers(256 * 3 + 10);
    assert_eq!(bus.read(0xFF04), 3);
    bus.write(0xFF04, 0x77);
    assert_eq!(bus.read(0xFF04), 0);
}

#[test]
fn frame_takes_70224_cycles() {
    let (mut bus, _) = bus_with(0x00, 0, 2);
    // A write to LY restarts the frame at line 0, mode 2.
    bus.write(0xFF44, 0);
    assert_eq!(bus.read(0xFF41) & 3, 2);
    let mut cycles: u32 = 0;
    let mut frames = 0;
    let mut vblanks = 0;
    for _ in 0..(70224 / 4) {
        cycles += 4;
        bus.write(0xFF0F, 0);
        if bus.video_mode(&mut cycles) {
            frames += 1;
        }
        if bus.read(0xFF0F) & V_BLANK != 0 {
            vblanks += 1;
        }
    }
    assert_eq!(frames, 1);
    assert_eq!(vblanks, 1);
    assert_eq!(bus.read(0xFF44), 0);
    assert_eq!(cycles, 0);
    assert_eq!(bus.read(0xFF41) & 3, 2);
}

#[test]
fn render_frame_emits_audio() {
    let (mut bus, _) = bus_with(0x00, 0, 2);
    bus.update_timers(70224);
    let samples = bus.render_frame();
    assert_eq!(samples.len(), 2 * (44100 * 70224 / 4194304));
    assert_eq!(bus.frame().len(), 160 * 144 * 4);
}

#[test]
fn rom_only_ram_stays_disabled() {
    let (mut bus, _) = bus_with(0x08, 0x02, 2);
    bus.write(0x0000, 0x0A);
    bus.write(0xA000, 0x12);
    assert_eq!(bus.read(0xA000), 0);
}

#[test]
fn ly_write_in_vblank_restarts_frame() {
    let (mut bus, _) = bus_with(0x00, 0, 2);
    bus.write(0xFF44, 0);
    let mut cycles: u32 = 0;
    while bus.read(0xFF41) & 3 != 1 {
        cycles += 4;
        bus.video_mode(&mut cycles);
    }
    assert_eq!(bus.read(0xFF44), 144);
    bus.write(0xFF44, 0x33);
    assert_eq!(bus.read(0xFF44), 0);
    assert_eq!(bus.read(0xFF41) & 3, 2);
}
