use rustboy::cartridge::{Cartridge, CartridgeError};
use rustboy::joypad::{Joypad, Key};
use rustboy::palette::{choose_palette, shade_colour, Colour, UserPalette};
use rustboy::ram::WriteableMem;
use rustboy::savefile::make_save_name;
use rustboy::timer::Timer;

fn rom(mbc: u8, banks: usize) -> Vec<u8> {
    let mut r = vec![0u8; banks * 0x4000];
    for (i, b) in r.iter_mut().enumerate() {
        *b = (i / 0x4000) as u8;
    }
    r[0x147] = mbc;
    r
}

#[test]
fn mb1_zero_banks_map_to_next() {
    let mut c = Cartridge::new(rom(0x01, 128)).unwrap();
    for (bank, active) in [(0x00u8, 0x01u16), (0x20, 0x21), (0x40, 0x41), (0x60, 0x61)] {
        c.write(0x2000, bank & 0x1F);
        c.write(0x4000, bank >> 5);
        assert_eq!(c.rom_bank(), active);
        assert_eq!(c.read(0x4000), active as u8);
    }
}

#[test]
fn mb1_ram_mode_selects_ram_bank() {
    let mut c = Cartridge::new(rom(0x03, 4)).unwrap();
    c.write(0x6000, 1);
    c.write(0x4000, 2);
    assert_eq!(c.ram_bank(), 2);
    c.write(0x6000, 0);
    assert_eq!(c.ram_bank(), 0);
}

#[test]
fn mb2_ram_holds_nibbles() {
    let mut c = Cartridge::new(rom(0x06, 4)).unwrap();
    c.write(0x0000, 0x0A);
    c.write(0xA005, 0xAB);
    assert_eq!(c.read(0xA005), 0x0B);
    c.write(0x2000, 0x03);
    assert_eq!(c.read(0x4000), 3);
}

#[test]
fn mb3_clock_latch() {
    let mut c = Cartridge::new(rom(0x10, 4)).unwrap();
    c.write(0x0000, 0x0A);
    c.write(0x4000, 0x08);
    c.write(0xA000, 42);
    assert_eq!(c.read(0xA000), 0);
    c.write(0x6000, 0x01);
    assert_eq!(c.read(0xA000), 0);
    c.write(0x6000, 0x00);
    c.write(0x6000, 0x01);
    assert_eq!(c.read(0xA000), 42);
}

#[test]
fn mb5_nine_bit_bank() {
    let mut c = Cartridge::new(rom(0x19, 4)).unwrap();
    c.write(0x2000, 0x02);
    assert_eq!(c.rom_bank(), 2);
    assert_eq!(c.read(0x4000), 2);
    c.write(0x3000, 0x01);
    assert_eq!(c.rom_bank(), 0x102);
    assert_eq!(c.read(0x4000), 0);
}

#[test]
fn unknown_header_refused() {
    match Cartridge::new(rom(0x15, 2)) {
        Err(e) => assert_eq!(e, CartridgeError::UnsupportedMbc(0x15)),
        Ok(_) => panic!("header 0x15 must be refused"),
    }
}

#[test]
fn save_round_trip() {
    let mut image = rom(0x03, 4);
    image[0x149] = 0x02;
    let mut c = Cartridge::new(image).unwrap();
    assert!(c.battery());
    c.load_save(&vec![1, 2, 3]);
    let s = c.save_data();
    assert_eq!(s.len(), 0x2000);
    assert_eq!(&s[..4], &[1, 2, 3, 0]);
}

#[test]
fn palettes() {
    assert_eq!(choose_palette(Some("g")), UserPalette::Classic);
    assert_eq!(choose_palette(Some("bw")), UserPalette::Greyscale);
    assert_eq!(choose_palette(Some("x")), UserPalette::Default);
    assert_eq!(choose_palette(None), UserPalette::Default);
    assert_eq!(shade_colour(UserPalette::Greyscale, 1), Colour { r: 0xAA, g: 0xAA, b: 0xAA });
    assert_eq!(shade_colour(UserPalette::Classic, 3), Colour { r: 0x0F, g: 0x38, b: 0x0F });
}

#[test]
fn joypad_groups() {
    let mut j = Joypad::new();
    j.set_key(Key::A, true);
    j.set_key(Key::Left, true);
    j.write(0x10);
    assert_eq!(j.read(), 0xC0 | 0x10 | 0x0E);
    j.write(0x20);
    assert_eq!(j.read(), 0xC0 | 0x20 | 0x0D);
    j.write(0x30);
    assert_eq!(j.read(), 0xFF);
}

#[test]
fn writeable_mem() {
    let mut m = WriteableMem::new(0x7F);
    assert_eq!(m.len(), 0x7F);
    m.write(0x7E, 5);
    assert_eq!(m.read(0x7E), 5);
    assert_eq!(m.read(0), 0);
}

#[test]
fn timer_rates() {
    let mut t = Timer::new();
    t.write(0xFF07, 0x04);
    assert!(!t.update_timers(1023));
    assert_eq!(t.read(0xFF05), 0);
    t.update_timers(1);
    assert_eq!(t.read(0xFF05), 1);
    t.write(0xFF07, 0x06);
    t.update_timers(64);
    assert_eq!(t.read(0xFF05), 2);
}

fn save_name(s: &str) -> String {
    make_save_name(&s.chars().collect()).into_iter().collect()
}

#[test]
fn save_names_replace_extension() {
    assert_eq!(save_name("game.gb"), "game.sav");
    assert_eq!(save_name("./roms/a.gb"), "./roms/a.sav");
    assert_eq!(save_name("roms.d/cart"), "roms.d/cart.sav");
    assert_eq!(save_name("cart"), "cart.sav");
    assert_eq!(save_name("a.b.gbc"), "a.b.sav");
}

#[test]
fn cartridge_starts_with_ram_disabled() {
    let mut image = rom(0x03, 4);
    image[0x149] = 0x02;
    let mut c = Cartridge::new(image).unwrap();
    c.write(0xA000, 0x42);
    assert_eq!(c.read(0xA000), 0);
    c.write(0x0000, 0x0A);
    c.write(0xA000, 0x42);
    assert_eq!(c.read(0xA000), 0x42);
}
