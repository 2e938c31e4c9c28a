use rustboy::interrupt::{LCD_STAT, V_BLANK};
use rustboy::palette::UserPalette;
use rustboy::tiles::TileAtlas;
use rustboy::video::{VideoMem, FRAME_BYTES};

fn pixel(fb: &[u8], x: usize, y: usize) -> (u8, u8, u8, u8) {
    let i = (y * 160 + x) * 4;
    (fb[i], fb[i + 1], fb[i + 2], fb[i + 3])
}

#[test]
fn scanline_solid_shade_three() {
    let mut v = VideoMem::new(UserPalette::Greyscale);
    v.write(0xFF40, 0x91);
    for loc in 0x9800u16..0x9C00 {
        v.write(loc, 1);
    }
    for loc in 0x8010u16..0x8020 {
        v.write(loc, 0xFF);
    }
    v.write(0xFF47, 0xC0);
    let mut fb = vec![7u8; FRAME_BYTES];
    v.draw_line_gb(&mut fb);
    for x in 0..160 {
        assert_eq!(pixel(&fb, x, 0), (0, 0, 0, 255));
    }
    assert_eq!(fb[160 * 4], 7);
}

#[test]
fn zero_tiles_show_palette_index_zero() {
    let mut v = VideoMem::new(UserPalette::Classic);
    v.write(0xFF47, 0x02);
    v.write(0xFF42, 0x13);
    v.write(0xFF43, 0x57);
    let mut fb = vec![0u8; FRAME_BYTES];
    v.draw_line_gb(&mut fb);
    for x in 0..160 {
        assert_eq!(pixel(&fb, x, 0), (0x30, 0x62, 0x30, 255));
    }
}

#[test]
fn background_disabled_is_shade_zero() {
    let mut v = VideoMem::new(UserPalette::Greyscale);
    v.write(0xFF40, 0x90);
    v.write(0xFF47, 0xFF);
    let mut fb = vec![0u8; FRAME_BYTES];
    v.draw_line_gb(&mut fb);
    assert_eq!(pixel(&fb, 0, 0), (0xFF, 0xFF, 0xFF, 255));
    assert_eq!(pixel(&fb, 159, 0), (0xFF, 0xFF, 0xFF, 255));
}

#[test]
fn tile_rows_decode_bit_seven_leftmost() {
    let mut v = VideoMem::new(UserPalette::Greyscale);
    // Row 0 of tile 0: low plane 0b1000_0001, high plane 0b1100_0000.
    v.write(0x8000, 0x81);
    v.write(0x8001, 0xC0);
    v.write(0xFF47, 0xE4);
    let mut fb = vec![0u8; FRAME_BYTES];
    v.draw_line_gb(&mut fb);
    // Texels of row 0: 3, 2, 0, 0, 0, 0, 0, 1; BGP 0xE4 maps texel t to shade t.
    assert_eq!(pixel(&fb, 0, 0), (0, 0, 0, 255));
    assert_eq!(pixel(&fb, 1, 0), (0x55, 0x55, 0x55, 255));
    assert_eq!(pixel(&fb, 2, 0), (0xFF, 0xFF, 0xFF, 255));
    assert_eq!(pixel(&fb, 7, 0), (0xAA, 0xAA, 0xAA, 255));
    assert_eq!(v.read(0x8000), 0x81);
}

#[test]
fn sprite_above_background() {
    let mut v = VideoMem::new(UserPalette::Greyscale);
    v.write(0xFF40, 0x93);
    // Tile 2, every row texel 1.
    for row in 0..8u16 {
        v.write(0x8020 + 2 * row, 0xFF);
        v.write(0x8021 + 2 * row, 0x00);
    }
    // Sprite 0 at screen (10, 0) with tile 2.
    v.write(0xFE00, 16);
    v.write(0xFE01, 18);
    v.write(0xFE02, 2);
    v.write(0xFE03, 0);
    v.write(0xFF48, 0x0C);
    let mut fb = vec![0u8; FRAME_BYTES];
    v.draw_line_gb(&mut fb);
    assert_eq!(pixel(&fb, 9, 0), (0xFF, 0xFF, 0xFF, 255));
    assert_eq!(pixel(&fb, 10, 0), (0, 0, 0, 255));
    assert_eq!(pixel(&fb, 17, 0), (0, 0, 0, 255));
    assert_eq!(pixel(&fb, 18, 0), (0xFF, 0xFF, 0xFF, 255));
}

#[test]
fn mode_machine_line_timing() {
    let mut v = VideoMem::new(UserPalette::Greyscale);
    v.write(0xFF44, 0);
    v.write(0xFF41, 0x08);
    let mut fb = vec![0u8; FRAME_BYTES];
    let mut cycles: u32 = 80;
    let (done, ints) = v.video_mode(&mut cycles, &mut fb);
    assert!(!done);
    assert_eq!(ints.bits(), 0);
    assert_eq!(v.read(0xFF41) & 3, 3);
    cycles = 252;
    let (_, ints) = v.video_mode(&mut cycles, &mut fb);
    assert_eq!(ints.bits(), LCD_STAT);
    assert_eq!(v.read(0xFF41) & 3, 0);
    cycles = 460;
    let (_, _) = v.video_mode(&mut cycles, &mut fb);
    assert_eq!(cycles, 4);
    assert_eq!(v.read(0xFF44), 1);
    assert_eq!(v.read(0xFF41) & 3, 2);
}

#[test]
fn vblank_entered_after_line_143() {
    let mut v = VideoMem::new(UserPalette::Greyscale);
    v.write(0xFF44, 0);
    let mut fb = vec![0u8; FRAME_BYTES];
    let mut frames = 0;
    for _ in 0..144 {
        for c in [80u32, 252, 456] {
            let mut cycles = c;
            let (done, ints) = v.video_mode(&mut cycles, &mut fb);
            if done {
                frames += 1;
                assert_eq!(ints.bits() & V_BLANK, V_BLANK);
            }
        }
    }
    assert_eq!(frames, 1);
    assert_eq!(v.read(0xFF44), 144);
    assert_eq!(v.read(0xFF41) & 3, 1);
}

#[test]
fn stat_and_ly_writes() {
    let mut v = VideoMem::new(UserPalette::Greyscale);
    assert_eq!(v.read(0xFF41), 0);
    assert_eq!(v.read(0xFF40), 0x91);
    v.write(0xFF41, 0xFF);
    assert_eq!(v.read(0xFF41), 0x78);
    v.write(0xFF45, 0x20);
    assert_eq!(v.read(0xFF45), 0x20);
    v.write(0xFF44, 0x55);
    assert_eq!(v.read(0xFF44), 0);
    assert_eq!(v.read(0xFF41), 0x78 | 0x02);
}

#[test]
fn atlas_rows_round_trip() {
    let mut a = TileAtlas::new((16, 24));
    assert!(a.is_dirty());
    let _ = a.ref_data();
    assert!(!a.is_dirty());
    a.set_pixel_lower_row(64, 0b1010_0101);
    a.set_pixel_upper_row(64, 0b1100_0011);
    assert!(a.is_dirty());
    assert_eq!(a.get_pixel_lower_row(64), 0b1010_0101);
    assert_eq!(a.get_pixel_upper_row(64), 0b1100_0011);
    let data = a.ref_data();
    assert_eq!(data.len(), 16 * 24 * 64);
    assert_eq!(&data[64..72], &[3, 2, 1, 0, 0, 1, 2, 3]);
}
