//! Video memory and the picture processing unit: tile data, tile maps, OAM,
//! the LCD registers, the scanline renderer and the per-line mode machine.
use vstd::prelude::*;
use crate::interrupt::{InterruptFlags, LCD_STAT, V_BLANK};
use crate::joypad::{Joypad, Key};
use crate::palette::{Colour, UserPalette, get_shade, palette_shade, shade_colour, shade_colour_spec};
use crate::bits::{lemma_byte, lemma_byte_pair, lemma_stat_mode};
use crate::tiles::{TileAtlas, lemma_texel_bounds, lemma_texel_replace, texel_of, TEX_AREA};

verus! {

pub const SCREEN_WIDTH: usize = 160;
pub const SCREEN_HEIGHT: usize = 144;
/// Bytes of one RGBA frame.
pub const FRAME_BYTES: usize = 92160;
/// Bytes of tile data (0x8000..0x97FF).
pub const TILE_DATA_SIZE: usize = 0x1800;
/// Bytes of the two tile maps (0x9800..0x9FFF).
pub const TILE_MAP_SIZE: usize = 0x800;
/// Bytes of OAM (0xFE00..0xFE9F).
pub const OAM_SIZE: usize = 0xA0;
/// Tiles in the tile data.
pub const NUM_TILES: usize = 384;
/// Texels in a 256x256 map cache.
pub const MAP_CACHE_SIZE: usize = 0x10000;
/// Sprites drawn on one line at most.
pub const MAX_LINE_SPRITES: usize = 10;

/// Texel `j` of the decoded tile data: tiles one after another, 64 texels
/// each, row by row; texel `j` is column `j % 8` of the row stored at bytes
/// `2 * (j / 8)` (low plane) and `2 * (j / 8) + 1` (high plane).
pub open spec fn atlas_texel(raw: Seq<u8>, j: int) -> u8 {
    texel_of(raw[2 * (j / 8)], raw[2 * (j / 8) + 1], (j % 8) as u8)
}

/// Tile index (into the 384 tiles) of map entry `n`: unsigned addressing
/// counts from 0x8000, signed addressing from 0x9000 with `n` as an `i8`.
pub open spec fn map_tile(unsigned: bool, n: u8) -> int {
    if unsigned || n >= 128 {
        n as int
    } else {
        256 + n
    }
}

/// Everything of the video unit that the program can observe.
pub struct VideoView {
    pub lcdc: u8,
    pub stat: u8,
    pub scroll_y: u8,
    pub scroll_x: u8,
    pub ly: u8,
    pub lyc: u8,
    pub bgp: u8,
    pub obp0: u8,
    pub obp1: u8,
    pub window_y: u8,
    pub window_x: u8,
    pub joypad: Joypad,
    pub raw: Seq<u8>,
    pub map: Seq<u8>,
    pub oam: Seq<u8>,
    pub palette: UserPalette,
}

/// What a sprite contributes to one pixel: a shade above or behind the background, or nothing.
pub enum SpritePixel {
    Hi(u8),
    Lo(u8),
    Absent,
}

/// A background or window pixel: whether its texel is non-zero, and its shade.
pub struct BgPixel {
    pub nonzero: bool,
    pub shade: u8,
}

impl VideoView {
    pub open spec fn unsigned_tiles(self) -> bool {
        self.lcdc & 0x10 != 0
    }

    pub open spec fn tall_sprites(self) -> bool {
        self.lcdc & 0x04 != 0
    }

    pub open spec fn sprite_height(self) -> int {
        if self.tall_sprites() {
            16
        } else {
            8
        }
    }

    /// Byte offset of the background map inside the map memory.
    pub open spec fn bg_base(self) -> int {
        if self.lcdc & 0x08 != 0 {
            0x400
        } else {
            0
        }
    }

    /// Byte offset of the window map inside the map memory.
    pub open spec fn window_base(self) -> int {
        if self.lcdc & 0x40 != 0 {
            0x400
        } else {
            0
        }
    }

    /// Texel at (`x`, `y`) of the 256x256 plane drawn by the map at `base`.
    pub open spec fn map_texel(self, base: int, x: int, y: int) -> u8 {
        let n = self.map[base + (y / 8) * 32 + x / 8];
        atlas_texel(self.raw, map_tile(self.unsigned_tiles(), n) * 64 + (y % 8) * 8 + x % 8)
    }

    pub open spec fn sprite_y(self, i: int) -> u8 {
        self.oam[4 * i]
    }

    pub open spec fn sprite_x(self, i: int) -> u8 {
        self.oam[4 * i + 1]
    }

    pub open spec fn sprite_tile(self, i: int) -> u8 {
        self.oam[4 * i + 2]
    }

    pub open spec fn sprite_attrs(self, i: int) -> u8 {
        self.oam[4 * i + 3]
    }

    /// Whether sprite `i` spans line `ly`.
    pub open spec fn on_line(self, i: int, ly: int) -> bool {
        self.sprite_y(i) <= ly + 16 < self.sprite_y(i) + self.sprite_height()
    }

    /// Whether sprite `i` spans column `col`.
    pub open spec fn covers(self, i: int, col: int) -> bool {
        self.sprite_x(i) <= col + 8 < self.sprite_x(i) + 8
    }

    /// The sprites among the first `n` of OAM that line `ly` shows: in OAM
    /// order, the first ten that span the line.
    pub open spec fn line_sprites(self, ly: int, n: int) -> Seq<u8>
        decreases n,
    {
        if n <= 0 {
            Seq::empty()
        } else {
            let s = self.line_sprites(ly, n - 1);
            if self.on_line(n - 1, ly) && s.len() < MAX_LINE_SPRITES {
                s.push((n - 1) as u8)
            } else {
                s
            }
        }
    }

    /// Of the sprites `s` (in OAM order), the one that spans column `col`
    /// with the smallest X, the earliest of those on a tie.
    pub open spec fn first_covering(self, s: Seq<u8>, col: int) -> Option<u8>
        decreases s.len(),
    {
        if s.len() == 0 {
            None
        } else {
            let b = self.first_covering(s.drop_last(), col);
            let j = s.last();
            if self.covers(j as int, col) && (b is None || self.sprite_x(j as int) < self.sprite_x(
                b->0 as int,
            )) {
                Some(j)
            } else {
                b
            }
        }
    }

    /// Texel of sprite `i` at column `col` of line `ly`, with its flips applied.
    pub open spec fn sprite_texel(self, i: int, col: int, ly: int) -> u8 {
        let attrs = self.sprite_attrs(i);
        let x_off = col + 8 - self.sprite_x(i);
        let y_off = ly + 16 - self.sprite_y(i);
        let fx = if attrs & 0x20 != 0 {
            7 - x_off
        } else {
            x_off
        };
        let fy = if attrs & 0x40 != 0 {
            self.sprite_height() - 1 - y_off
        } else {
            y_off
        };
        let tile = if self.tall_sprites() {
            (self.sprite_tile(i) & 0xFE) + fy / 8
        } else {
            self.sprite_tile(i) as int
        };
        atlas_texel(self.raw, tile * 64 + (fy % 8) * 8 + fx)
    }

    pub open spec fn sprite_pixel(self, col: int, ly: int) -> SpritePixel {
        if self.lcdc & 0x02 == 0 {
            SpritePixel::Absent
        } else {
            match self.first_covering(self.line_sprites(ly, 40), col) {
                None => SpritePixel::Absent,
                Some(j) => {
                    let t = self.sprite_texel(j as int, col, ly);
                    let pal = if self.sprite_attrs(j as int) & 0x10 != 0 {
                        self.obp1
                    } else {
                        self.obp0
                    };
                    if t == 0 {
                        SpritePixel::Absent
                    } else if self.sprite_attrs(j as int) & 0x80 == 0 {
                        SpritePixel::Hi(palette_shade(pal, t))
                    } else {
                        SpritePixel::Lo(palette_shade(pal, t))
                    }
                },
            }
        }
    }

    /// The window pixel at (`col`, `ly`), where the window is enabled and covers it.
    pub open spec fn window_pixel(self, col: int, ly: int) -> Option<BgPixel> {
        if self.lcdc & 0x20 != 0 && col + 7 >= self.window_x && ly >= self.window_y {
            let t = self.map_texel(self.window_base(), col + 7 - self.window_x, ly - self.window_y);
            Some(BgPixel { nonzero: t != 0, shade: palette_shade(self.bgp, t) })
        } else {
            None
        }
    }

    /// The background pixel at (`col`, `ly`): scrolled, wrapping at 256; shade
    /// 0 where the background is disabled.
    pub open spec fn background_pixel(self, col: int, ly: int) -> BgPixel {
        if self.lcdc & 0x01 != 0 {
            let t = self.map_texel(
                self.bg_base(),
                (self.scroll_x + col) % 256,
                (self.scroll_y + ly) % 256,
            );
            BgPixel { nonzero: t != 0, shade: palette_shade(self.bgp, t) }
        } else {
            BgPixel { nonzero: false, shade: 0 }
        }
    }

    /// The shade shown at (`col`, `ly`): a sprite above the background wins;
    /// then a non-zero window or background texel; then a sprite behind the
    /// background; then the zero window or background texel.
    pub open spec fn pixel_shade(self, col: int, ly: int) -> u8 {
        let under = match self.window_pixel(col, ly) {
            Some(w) => w,
            None => self.background_pixel(col, ly),
        };
        match self.sprite_pixel(col, ly) {
            SpritePixel::Hi(s) => s,
            SpritePixel::Lo(s) => if under.nonzero {
                under.shade
            } else {
                s
            },
            SpritePixel::Absent => under.shade,
        }
    }

    pub open spec fn pixel_colour(self, col: int, ly: int) -> Colour {
        shade_colour_spec(self.palette, self.pixel_shade(col, ly))
    }
}

/// Whether `fb` is `old_fb` with line `ly` drawn from `v`: four bytes per
/// pixel (red, green, blue, 255), other bytes unchanged.
pub open spec fn line_drawn(v: VideoView, ly: int, old_fb: Seq<u8>, fb: Seq<u8>) -> bool {
    &&& fb.len() == old_fb.len()
    &&& forall|i: int|
        0 <= i < fb.len() && !(ly * 640 <= i < ly * 640 + 640) ==> #[trigger] fb[i] == old_fb[i]
    &&& forall|x: int| 0 <= x < 160 ==> pixel_at(fb, ly * 640 + 4 * x, #[trigger] v.pixel_colour(x, ly))
}

/// Whether the four bytes of `fb` at `i` are `c` as an opaque RGBA pixel.
pub open spec fn pixel_at(fb: Seq<u8>, i: int, c: Colour) -> bool {
    &&& fb[i] == c.r
    &&& fb[i + 1] == c.g
    &&& fb[i + 2] == c.b
    &&& fb[i + 3] == 255
}


/// Video memory, LCD registers and the caches derived from them.
pub struct VideoMem {
    lcdc: u8,
    stat: u8,
    scroll_y: u8,
    scroll_x: u8,
    lcdc_y: u8,
    ly_compare: u8,
    bg_palette: u8,
    obj_palette_0: u8,
    obj_palette_1: u8,
    window_y: u8,
    window_x: u8,
    joypad: Joypad,
    raw_tile_mem: Vec<u8>,
    tile_mem: TileAtlas,
    tile_map_mem: Vec<u8>,
    sprite_mem: Vec<u8>,
    map_cache_0: Vec<u8>,
    map_cache_1: Vec<u8>,
    map_cache_0_dirty: bool,
    map_cache_1_dirty: bool,
    palette: UserPalette,
}

impl View for VideoMem {
    type V = VideoView;

    closed spec fn view(&self) -> VideoView {
        VideoView {
            lcdc: self.lcdc,
            stat: self.stat,
            scroll_y: self.scroll_y,
            scroll_x: self.scroll_x,
            ly: self.lcdc_y,
            lyc: self.ly_compare,
            bgp: self.bg_palette,
            obp0: self.obj_palette_0,
            obp1: self.obj_palette_1,
            window_y: self.window_y,
            window_x: self.window_x,
            joypad: self.joypad,
            raw: self.raw_tile_mem@,
            map: self.tile_map_mem@,
            oam: self.sprite_mem@,
            palette: self.palette,
        }
    }
}

/// Whether `cache` holds the 256x256 plane of the map at `base`.
pub open spec fn cache_valid(v: VideoView, base: int, cache: Seq<u8>) -> bool {
    &&& cache.len() == MAP_CACHE_SIZE
    &&& forall|p: int| 0 <= p < MAP_CACHE_SIZE ==> #[trigger] cache[p] == v.map_texel(base, p % 256, p / 256)
}

/// Texel `j` of the atlas belongs to the row stored at tile-data byte
/// `inner` exactly when `j / 8 == inner / 2`.
proof fn lemma_row_of(inner: int, j: int)
    requires
        0 <= inner,
        0 <= j,
    ensures
        (inner / 2) * 8 <= j < (inner / 2) * 8 + 8 <==> j / 8 == inner / 2,
        (inner / 2) * 8 <= j < (inner / 2) * 8 + 8 ==> j % 8 == j - (inner / 2) * 8,
{
    let q = inner / 2;
    assert(j == (j / 8) * 8 + j % 8 && 0 <= j % 8 < 8) by (nonlinear_arith)
        requires
            0 <= j,
    ;
    assert(q * 8 <= j < q * 8 + 8 ==> j / 8 == q) by (nonlinear_arith)
        requires
            j == (j / 8) * 8 + j % 8,
            0 <= j % 8 < 8,
    ;
    assert(j / 8 == q ==> q * 8 <= j < q * 8 + 8) by (nonlinear_arith)
        requires
            j == (j / 8) * 8 + j % 8,
            0 <= j % 8 < 8,
    ;
}

/// The mode bits of STAT.
pub open spec fn mode_of(stat: u8) -> u8 {
    stat & 3
}

impl VideoMem {
    pub closed spec fn wf(&self) -> bool {
        &&& self.raw_tile_mem@.len() == TILE_DATA_SIZE
        &&& self.tile_map_mem@.len() == TILE_MAP_SIZE
        &&& self.sprite_mem@.len() == OAM_SIZE
        &&& self.tile_mem@.len() == NUM_TILES * TEX_AREA
        &&& self.tile_mem.wf()
        &&& forall|j: int|
            0 <= j < NUM_TILES * TEX_AREA ==> #[trigger] self.tile_mem@[j] == atlas_texel(
                self.raw_tile_mem@,
                j,
            )
        &&& self.map_cache_0@.len() == MAP_CACHE_SIZE
        &&& self.map_cache_1@.len() == MAP_CACHE_SIZE
        &&& !self.map_cache_0_dirty ==> cache_valid(self@, 0, self.map_cache_0@)
        &&& !self.map_cache_1_dirty ==> cache_valid(self@, 0x400, self.map_cache_1@)
        &&& self.lcdc_y <= 153
        &&& (mode_of(self.stat) == 1 <==> self.lcdc_y >= 144)
    }

    /// The unit at power-on: LCDC 0x91 (display and background on, unsigned
    /// tile addressing), STAT zero (line 0, H-blank), every other register
    /// and all memory zero, no key pressed.
    pub open spec fn power_on(palette: UserPalette) -> VideoView {
        VideoView {
            lcdc: 0x91,
            stat: 0,
            scroll_y: 0,
            scroll_x: 0,
            ly: 0,
            lyc: 0,
            bgp: 0,
            obp0: 0,
            obp1: 0,
            window_y: 0,
            window_x: 0,
            joypad: Joypad::new_spec(),
            raw: Seq::new(TILE_DATA_SIZE as nat, |i: int| 0u8),
            map: Seq::new(TILE_MAP_SIZE as nat, |i: int| 0u8),
            oam: Seq::new(OAM_SIZE as nat, |i: int| 0u8),
            palette,
        }
    }

    /// A powered-on unit.
    pub fn new(palette: UserPalette) -> (r: VideoMem)
        ensures
            r.wf(),
            r@ == Self::power_on(palette),
    {
        let raw_tile_mem = vec![0u8; TILE_DATA_SIZE];
        let tile_mem = TileAtlas::new((16, 24));
        let r = VideoMem {
            lcdc: 0x91,
            stat: 0,
            scroll_y: 0,
            scroll_x: 0,
            lcdc_y: 0,
            ly_compare: 0,
            bg_palette: 0,
            obj_palette_0: 0,
            obj_palette_1: 0,
            window_y: 0,
            window_x: 0,
            joypad: Joypad::new(),
            raw_tile_mem,
            tile_mem,
            tile_map_mem: vec![0u8; TILE_MAP_SIZE],
            sprite_mem: vec![0u8; OAM_SIZE],
            map_cache_0: vec![0u8; MAP_CACHE_SIZE],
            map_cache_1: vec![0u8; MAP_CACHE_SIZE],
            map_cache_0_dirty: true,
            map_cache_1_dirty: true,
            palette,
        };
        proof {
            lemma_byte(3);
            assert forall|j: int| 0 <= j < NUM_TILES * TEX_AREA implies #[trigger] r.tile_mem@[j]
                == atlas_texel(r.raw_tile_mem@, j) by {
                assert(r.raw_tile_mem@[2 * (j / 8)] == 0);
                assert(r.raw_tile_mem@[2 * (j / 8) + 1] == 0);
                let c = (j % 8) as u8;
                lemma_texel_bounds(0, 0, c);
            }
            assert(r@.raw =~= Seq::new(TILE_DATA_SIZE as nat, |i: int| 0u8));
            assert(r@.map =~= Seq::new(TILE_MAP_SIZE as nat, |i: int| 0u8));
            assert(r@.oam =~= Seq::new(OAM_SIZE as nat, |i: int| 0u8));
        }
        r
    }

    /// What a read of `loc` returns.
    pub open spec fn read_spec(v: VideoView, loc: u16) -> u8 {
        if 0x8000 <= loc < 0x9800 {
            v.raw[loc - 0x8000]
        } else if 0x9800 <= loc < 0xA000 {
            v.map[loc - 0x9800]
        } else if 0xFE00 <= loc < 0xFEA0 {
            v.oam[loc - 0xFE00]
        } else if loc == 0xFF00 {
            v.joypad.read_spec()
        } else if loc == 0xFF40 {
            v.lcdc
        } else if loc == 0xFF41 {
            v.stat
        } else if loc == 0xFF42 {
            v.scroll_y
        } else if loc == 0xFF43 {
            v.scroll_x
        } else if loc == 0xFF44 {
            v.ly
        } else if loc == 0xFF45 {
            v.lyc
        } else if loc == 0xFF47 {
            v.bgp
        } else if loc == 0xFF48 {
            v.obp0
        } else if loc == 0xFF49 {
            v.obp1
        } else if loc == 0xFF4A {
            v.window_y
        } else if loc == 0xFF4B {
            v.window_x
        } else {
            0
        }
    }

    /// The unit after `val` is written at `loc`: STAT keeps its mode and
    /// coincidence bits, a write to LY resets it to 0, the others store `val`.
    pub open spec fn write_spec(v: VideoView, loc: u16, val: u8) -> VideoView {
        if 0x8000 <= loc < 0x9800 {
            VideoView { raw: v.raw.update(loc - 0x8000, val), ..v }
        } else if 0x9800 <= loc < 0xA000 {
            VideoView { map: v.map.update(loc - 0x9800, val), ..v }
        } else if 0xFE00 <= loc < 0xFEA0 {
            VideoView { oam: v.oam.update(loc - 0xFE00, val), ..v }
        } else if loc == 0xFF00 {
            VideoView { joypad: Joypad { select_bits: val & 0x30, ..v.joypad }, ..v }
        } else if loc == 0xFF40 {
            VideoView { lcdc: val, ..v }
        } else if loc == 0xFF41 {
            VideoView { stat: (val & 0x78) | (v.stat & 0x07), ..v }
        } else if loc == 0xFF42 {
            VideoView { scroll_y: val, ..v }
        } else if loc == 0xFF43 {
            VideoView { scroll_x: val, ..v }
        } else if loc == 0xFF44 {
            VideoView { ly: 0, stat: (v.stat & 0xFC) | 2, ..v }
        } else if loc == 0xFF45 {
            VideoView { lyc: val, ..v }
        } else if loc == 0xFF47 {
            VideoView { bgp: val, ..v }
        } else if loc == 0xFF48 {
            VideoView { obp0: val, ..v }
        } else if loc == 0xFF49 {
            VideoView { obp1: val, ..v }
        } else if loc == 0xFF4A {
            VideoView { window_y: val, ..v }
        } else if loc == 0xFF4B {
            VideoView { window_x: val, ..v }
        } else {
            v
        }
    }

    pub fn read(&self, loc: u16) -> (r: u8)
        requires
            self.wf(),
        ensures
            r == Self::read_spec(self@, loc),
    {
        if 0x8000 <= loc && loc < 0x9800 {
            self.raw_tile_mem[(loc - 0x8000) as usize]
        } else if 0x9800 <= loc && loc < 0xA000 {
            self.tile_map_mem[(loc - 0x9800) as usize]
        } else if 0xFE00 <= loc && loc < 0xFEA0 {
            self.sprite_mem[(loc - 0xFE00) as usize]
        } else if loc == 0xFF00 {
            self.joypad.read()
        } else if loc == 0xFF40 {
            self.lcdc
        } else if loc == 0xFF41 {
            self.stat
        } else if loc == 0xFF42 {
            self.scroll_y
        } else if loc == 0xFF43 {
            self.scroll_x
        } else if loc == 0xFF44 {
            self.lcdc_y
        } else if loc == 0xFF45 {
            self.ly_compare
        } else if loc == 0xFF47 {
            self.bg_palette
        } else if loc == 0xFF48 {
            self.obj_palette_0
        } else if loc == 0xFF49 {
            self.obj_palette_1
        } else if loc == 0xFF4A {
            self.window_y
        } else if loc == 0xFF4B {
            self.window_x
        } else {
            0
        }
    }

    /// Stores a tile data byte and re-decodes the row it belongs to.
    fn write_raw_tile(&mut self, loc: u16, val: u8)
        requires
            old(self).wf(),
            0x8000 <= loc < 0x9800,
        ensures
            final(self).wf(),
            final(self)@ == Self::write_spec(old(self)@, loc, val),
    {
        let inner = (loc - 0x8000) as usize;
        self.raw_tile_mem.set(inner, val);
        self.map_cache_0_dirty = true;
        self.map_cache_1_dirty = true;
        let row_loc = (inner / 2) * 8;
        let ghost raw = self.raw_tile_mem@;
        let ghost old_atlas = self.tile_mem@;
        if inner % 2 == 0 {
            self.tile_mem.set_pixel_lower_row(row_loc, val);
        } else {
            self.tile_mem.set_pixel_upper_row(row_loc, val);
        }
        proof {
            assert forall|j: int| 0 <= j < NUM_TILES * TEX_AREA implies #[trigger] self.tile_mem@[j]
                == atlas_texel(raw, j) by {
                lemma_row_of(inner as int, j);
                if row_loc <= j < row_loc + 8 {
                    let k = j - row_loc;
                    assert(j / 8 == inner / 2);
                    assert(j % 8 == k);
                    let lo = raw[2 * (j / 8)];
                    let hi = raw[2 * (j / 8) + 1];
                    let c = k as u8;
                    let ot = old_atlas[j];
                    assert(ot == atlas_texel(old(self).raw_tile_mem@, j));
                    assert(self.tile_mem@[row_loc + k] == self.tile_mem@[j]);
                    if inner % 2 == 0 {
                        let olo = old(self).raw_tile_mem@[2 * (j / 8)];
                        assert(hi == old(self).raw_tile_mem@[2 * (j / 8) + 1]);
                        assert(lo == val);
                        assert(ot == texel_of(olo, hi, c));
                        lemma_texel_replace(olo, hi, lo, hi, c);
                    } else {
                        let ohi = old(self).raw_tile_mem@[2 * (j / 8) + 1];
                        assert(lo == old(self).raw_tile_mem@[2 * (j / 8)]);
                        assert(hi == val);
                        assert(ot == texel_of(lo, ohi, c));
                        lemma_texel_replace(lo, ohi, lo, hi, c);
                    }
                } else {
                    assert(j / 8 != inner / 2);
                    assert(raw[2 * (j / 8)] == old(self).raw_tile_mem@[2 * (j / 8)]);
                    assert(raw[2 * (j / 8) + 1] == old(self).raw_tile_mem@[2 * (j / 8) + 1]);
                }
            }
        }
    }

    pub fn write(&mut self, loc: u16, val: u8)
        requires
            old(self).wf(),
        ensures
            final(self).wf(),
            final(self)@ == Self::write_spec(old(self)@, loc, val),
    {
        if 0x8000 <= loc && loc < 0x9800 {
            self.write_raw_tile(loc, val);
        } else if 0x9800 <= loc && loc < 0xA000 {
            self.tile_map_mem.set((loc - 0x9800) as usize, val);
            self.map_cache_0_dirty = true;
            self.map_cache_1_dirty = true;
        } else if 0xFE00 <= loc && loc < 0xFEA0 {
            self.sprite_mem.set((loc - 0xFE00) as usize, val);
        } else if loc == 0xFF00 {
            self.joypad.write(val);
        } else if loc == 0xFF40 {
            self.lcdc = val;
            self.map_cache_0_dirty = true;
            self.map_cache_1_dirty = true;
        } else if loc == 0xFF41 {
            let st = self.stat;
            proof {
                lemma_byte_pair(st, val);
            }
            self.stat = (val & 0x78) | (st & 0x07);
        } else if loc == 0xFF42 {
            self.scroll_y = val;
        } else if loc == 0xFF43 {
            self.scroll_x = val;
        } else if loc == 0xFF44 {
            let st = self.stat;
            proof {
                lemma_stat_mode(st, 0, 2);
            }
            self.lcdc_y = 0;
            self.stat = (st & 0xFC) | 2;
        } else if loc == 0xFF45 {
            self.ly_compare = val;
        } else if loc == 0xFF47 {
            self.bg_palette = val;
        } else if loc == 0xFF48 {
            self.obj_palette_0 = val;
        } else if loc == 0xFF49 {
            self.obj_palette_1 = val;
        } else if loc == 0xFF4A {
            self.window_y = val;
        } else if loc == 0xFF4B {
            self.window_x = val;
        }
    }

    /// The texel at (`x`, `y`) of the plane of the map at `base`, decoded from the atlas.
    fn map_texel(&self, base: usize, x: usize, y: usize) -> (r: u8)
        requires
            self.wf(),
            base == 0 || base == 0x400,
            x < 256,
            y < 256,
        ensures
            r == self@.map_texel(base as int, x as int, y as int),
    {
        assert((y / 8) * 32 + x / 8 < 1024) by (nonlinear_arith)
            requires
                x < 256,
                y < 256,
        ;
        let n = self.tile_map_mem[base + (y / 8) * 32 + x / 8];
        let tile: usize = if self.lcdc & 0x10 != 0 || n >= 128 {
            n as usize
        } else {
            256 + n as usize
        };
        assert(tile * 64 + (y % 8) * 8 + x % 8 < NUM_TILES * TEX_AREA) by (nonlinear_arith)
            requires
                tile < 384,
        ;
        self.tile_mem.texel(tile * 64 + (y % 8) * 8 + x % 8)
    }

    /// The 256x256 plane of the map at `base`, decoded texel by texel.
    fn build_map_cache(&self, base: usize) -> (r: Vec<u8>)
        requires
            self.wf(),
            base == 0 || base == 0x400,
        ensures
            cache_valid(self@, base as int, r@),
    {
        let mut cache: Vec<u8> = Vec::with_capacity(MAP_CACHE_SIZE);
        let mut p: usize = 0;
        while p < MAP_CACHE_SIZE
            invariant
                self.wf(),
                base == 0 || base == 0x400,
                p <= MAP_CACHE_SIZE,
                cache@.len() == p,
                forall|q: int| 0 <= q < p ==> #[trigger] cache@[q] == self@.map_texel(base as int, q % 256, q / 256),
            decreases MAP_CACHE_SIZE - p,
        {
            let t = self.map_texel(base, p % 256, p / 256);
            cache.push(t);
            p = p + 1;
        }
        cache
    }

    /// Rebuilds the cache of the map at 0x9800.
    fn construct_map_cache_0(&mut self)
        requires
            old(self).wf(),
        ensures
            final(self).wf(),
            final(self)@ == old(self)@,
            !final(self).map_cache_0_dirty,
            final(self).map_cache_1_dirty == old(self).map_cache_1_dirty,
    {
        self.map_cache_0 = self.build_map_cache(0);
        self.map_cache_0_dirty = false;
    }

    /// Rebuilds the cache of the map at 0x9C00.
    fn construct_map_cache_1(&mut self)
        requires
            old(self).wf(),
        ensures
            final(self).wf(),
            final(self)@ == old(self)@,
            !final(self).map_cache_1_dirty,
            final(self).map_cache_0_dirty == old(self).map_cache_0_dirty,
    {
        self.map_cache_1 = self.build_map_cache(0x400);
        self.map_cache_1_dirty = false;
    }

    /// The texel at (`x`, `y`) of the plane of the map at `base`, from its cache.
    fn cached_texel(&self, base: usize, x: usize, y: usize) -> (r: u8)
        requires
            self.wf(),
            !self.map_cache_0_dirty,
            !self.map_cache_1_dirty,
            base == 0 || base == 0x400,
            x < 256,
            y < 256,
        ensures
            r == self@.map_texel(base as int, x as int, y as int),
            r < 4,
    {
        let p = y * 256 + x;
        assert(p % 256 == x && p / 256 == y && p < MAP_CACHE_SIZE) by (nonlinear_arith)
            requires
                p == y * 256 + x,
                x < 256,
                y < 256,
        ;
        proof {
            let n = self@.map[base + (y / 8) * 32 + x / 8];
            let j = map_tile(self@.unsigned_tiles(), n) * 64 + (y % 8) * 8 + x % 8;
            lemma_texel_bounds(self@.raw[2 * (j / 8)], self@.raw[2 * (j / 8) + 1], (j % 8) as u8);
        }
        if base == 0 {
            self.map_cache_0[p]
        } else {
            self.map_cache_1[p]
        }
    }

    /// The sprites that line `ly` shows.
    fn ref_objects_for_line(&self, ly: u8) -> (r: Vec<u8>)
        requires
            self.wf(),
        ensures
            r@ == self@.line_sprites(ly as int, 40),
    {
        let height: u16 = if self.lcdc & 0x04 != 0 {
            16
        } else {
            8
        };
        let mut objs: Vec<u8> = Vec::new();
        let mut i: u8 = 0;
        while i < 40
            invariant
                self.wf(),
                i <= 40,
                height == self@.sprite_height(),
                objs@ == self@.line_sprites(ly as int, i as int),
            decreases 40 - i,
        {
            let sy = self.sprite_mem[4 * i as usize] as u16;
            if sy <= ly as u16 + 16 && (ly as u16) + 16 < sy + height && objs.len() < MAX_LINE_SPRITES {
                objs.push(i);
            }
            i = i + 1;
        }
        objs
    }

    /// What the sprites show at column `x` of line `y`.
    fn sprite_pixel(&self, objects: &Vec<u8>, x: u8, y: u8) -> (r: SpritePixel)
        requires
            self.wf(),
            objects@ == self@.line_sprites(y as int, 40),
            x < 160,
            y < 144,
        ensures
            r == self@.sprite_pixel(x as int, y as int),
    {
        if self.lcdc & 0x02 == 0 {
            return SpritePixel::Absent;
        }
        let ghost v = self@;
        proof {
            lemma_line_sprites_bounded(v, y as int, 40);
        }
        let mut best: Option<u8> = None;
        let mut i: usize = 0;
        while i < objects.len()
            invariant
                self.wf(),
                v == self@,
                i <= objects@.len(),
                forall|k: int| 0 <= k < objects@.len() ==> #[trigger] objects@[k] < 40,
                best == v.first_covering(objects@.take(i as int), x as int),
                best matches Some(b) ==> b < 40,
            decreases objects@.len() - i,
        {
            let j = objects[i];
            let sx = self.sprite_mem[4 * j as usize + 1];
            let better = match best {
                None => true,
                Some(b) => sx < self.sprite_mem[4 * b as usize + 1],
            };
            proof {
                assert(objects@.take(i + 1).drop_last() =~= objects@.take(i as int));
            }
            if sx as u16 <= x as u16 + 8 && (x as u16) + 8 < sx as u16 + 8 && better {
                best = Some(j);
            }
            i = i + 1;
        }
        proof {
            assert(objects@.take(objects@.len() as int) =~= objects@);
            lemma_first_covering(v, objects@, x as int);
            if let Some(j) = best {
                let k = choose|k: int| 0 <= k < objects@.len() && objects@[k] == j;
                assert(v.on_line(objects@[k] as int, y as int));
            }
        }
        match best {
            None => SpritePixel::Absent,
            Some(j) => {
                let base = 4 * j as usize;
                let sy = self.sprite_mem[base];
                let sx = self.sprite_mem[base + 1];
                let tile_num = self.sprite_mem[base + 2];
                let attrs = self.sprite_mem[base + 3];
                let tall = self.lcdc & 0x04 != 0;
                let height: u16 = if tall {
                    16
                } else {
                    8
                };
                let x_off: u16 = x as u16 + 8 - sx as u16;
                let y_off: u16 = y as u16 + 16 - sy as u16;
                let fx: u16 = if attrs & 0x20 != 0 {
                    7 - x_off
                } else {
                    x_off
                };
                let fy: u16 = if attrs & 0x40 != 0 {
                    height - 1 - y_off
                } else {
                    y_off
                };
                let tile: u16 = if tall {
                    (tile_num & 0xFE) as u16 + fy / 8
                } else {
                    tile_num as u16
                };
                proof {
                    lemma_byte(tile_num);
                }
                let t = self.tile_mem.texel(tile as usize * 64 + (fy % 8) as usize * 8 + fx as usize);
                let pal = if attrs & 0x10 != 0 {
                    self.obj_palette_1
                } else {
                    self.obj_palette_0
                };
                if t == 0 {
                    SpritePixel::Absent
                } else if attrs & 0x80 == 0 {
                    SpritePixel::Hi(get_shade(pal, t))
                } else {
                    SpritePixel::Lo(get_shade(pal, t))
                }
            },
        }
    }

    /// The window pixel at column `x` of line `y`, if the window covers it.
    fn window_pixel(&self, x: u8, y: u8) -> (r: Option<BgPixel>)
        requires
            self.wf(),
            !self.map_cache_0_dirty,
            !self.map_cache_1_dirty,
            x < 160,
            y < 144,
        ensures
            r == self@.window_pixel(x as int, y as int),
    {
        if self.lcdc & 0x20 != 0 && x as u16 + 7 >= self.window_x as u16 && y >= self.window_y {
            let base: usize = if self.lcdc & 0x40 != 0 {
                0x400
            } else {
                0
            };
            let t = self.cached_texel(
                base,
                (x as u16 + 7 - self.window_x as u16) as usize,
                (y - self.window_y) as usize,
            );
            Some(BgPixel { nonzero: t != 0, shade: get_shade(self.bg_palette, t) })
        } else {
            None
        }
    }

    /// The background pixel at column `x` of line `y`.
    fn background_pixel(&self, x: u8, y: u8) -> (r: BgPixel)
        requires
            self.wf(),
            !self.map_cache_0_dirty,
            !self.map_cache_1_dirty,
        ensures
            r == self@.background_pixel(x as int, y as int),
    {
        if self.lcdc & 0x01 != 0 {
            let base: usize = if self.lcdc & 0x08 != 0 {
                0x400
            } else {
                0
            };
            let bx = self.scroll_x.wrapping_add(x);
            let by = self.scroll_y.wrapping_add(y);
            assert(bx == (self@.scroll_x + x) % 256);
            assert(by == (self@.scroll_y + y) % 256);
            let t = self.cached_texel(base, bx as usize, by as usize);
            BgPixel { nonzero: t != 0, shade: get_shade(self.bg_palette, t) }
        } else {
            BgPixel { nonzero: false, shade: 0 }
        }
    }

    /// The sizes of tile data, map memory and OAM.
    pub proof fn lemma_view_sizes(&self)
        requires
            self.wf(),
        ensures
            self@.raw.len() == TILE_DATA_SIZE,
            self@.map.len() == TILE_MAP_SIZE,
            self@.oam.len() == OAM_SIZE,
            self@.ly <= 153,
            mode_of(self@.stat) == 1 <==> self@.ly >= 144,
    {
    }

    /// Records that `key` is pressed (`true`) or released.
    pub fn set_key(&mut self, key: Key, pressed: bool)
        requires
            old(self).wf(),
        ensures
            final(self).wf(),
            final(self)@ == (VideoView { joypad: final(self)@.joypad, ..old(self)@ }),
            final(self)@.joypad == old(self)@.joypad.set_key_spec(key, pressed),
    {
        self.joypad.set_key(key, pressed);
    }

    /// Whether LCDC bit 7 (display enable) is set.
    pub fn display_enabled(&self) -> (r: bool)
        ensures
            r == (self@.lcdc & 0x80 != 0),
    {
        self.lcdc & 0x80 != 0
    }

    /// The position of the mode machine, with `cycles` spent on the line.
    pub open spec fn ppu_state(v: VideoView, cycles: u32) -> PpuState {
        PpuState { ly: v.ly, mode: mode_of(v.stat), cycles }
    }

    /// Advances the mode machine by one due transition, with `cycle_count` the
    /// cycles spent on the current line; draws the line into `target` when
    /// drawing ends. Returns whether the frame is complete and the raised interrupts.
    pub fn video_mode(&mut self, cycle_count: &mut u32, target: &mut Vec<u8>) -> (r: (
        bool,
        InterruptFlags,
    ))
        requires
            old(self).wf(),
            old(target)@.len() == FRAME_BYTES,
        ensures
            final(self).wf(),
            ({
                let s = Self::ppu_state(old(self)@, *old(cycle_count));
                let n = ppu_next(s);
                &&& final(self)@ == VideoView {
                    ly: n.ly,
                    stat: next_stat(old(self)@.stat, n, old(self)@.lyc),
                    ..old(self)@
                }
                &&& *final(cycle_count) == n.cycles
                &&& r.0 == ppu_frame_done(s)
                &&& r.1@ == ppu_ints(s, old(self)@.stat, old(self)@.lyc)
                &&& r.1.wf()
                &&& if ppu_draws(s) {
                    line_drawn(old(self)@, old(self)@.ly as int, old(target)@, final(target)@)
                } else {
                    final(target)@ == old(target)@
                }
            }),
    {
        let stat = self.stat;
        let mode = stat & 3;
        proof {
            lemma_byte(stat);
        }
        let c = *cycle_count;
        let ly = self.lcdc_y;
        let mut ints: u8 = 0;
        let mut frame = false;
        let mut new_ly = ly;
        let mut new_mode = mode;
        let mut new_c = c;
        let hblank_int: u8 = if stat & 0x08 != 0 { LCD_STAT } else { 0 };
        let vblank_int: u8 = if stat & 0x10 != 0 { LCD_STAT } else { 0 };
        let oam_int: u8 = if stat & 0x20 != 0 { LCD_STAT } else { 0 };
        if mode == 2 && c >= 80 {
            new_mode = 3;
        } else if mode == 3 && c >= 252 {
            self.draw_line_gb(target);
            new_mode = 0;
            ints = hblank_int;
        } else if mode == 0 && c >= 456 {
            new_c = c - 456;
            new_ly = ly + 1;
            if new_ly == 144 {
                new_mode = 1;
                frame = true;
                ints = V_BLANK | vblank_int;
            } else {
                new_mode = 2;
                ints = oam_int;
            }
        } else if mode == 1 && c >= 456 {
            new_c = c - 456;
            if ly + 1 == 154 {
                new_ly = 0;
                new_mode = 2;
                ints = oam_int;
            } else {
                new_ly = ly + 1;
            }
        }
        let coincident = new_ly == self.ly_compare;
        proof {
            lemma_small_or(0, 0);
            lemma_small_or(0, 2);
            lemma_small_or(1, 0);
            lemma_small_or(1, 2);
            lemma_small_or(ints, 0);
            lemma_small_or(ints, 2);
        }
        if (mode == 0 || mode == 1) && c >= 456 && coincident && stat & 0x40 != 0 {
            ints = ints | LCD_STAT;
        }
        let coinc_bit: u8 = if coincident { 4 } else { 0 };
        assert(new_mode <= 3);
        proof {
            lemma_stat_mode(stat, coinc_bit, new_mode);
        }
        self.stat = (stat & 0xF8) | coinc_bit | new_mode;
        self.lcdc_y = new_ly;
        *cycle_count = new_c;
        proof {
            lemma_byte(ints);
        }
        (frame, InterruptFlags::from_bits_truncate(ints))
    }

    /// Draws line LY into the RGBA frame `target`, after rebuilding any stale map cache.
    pub fn draw_line_gb(&mut self, target: &mut Vec<u8>)
        requires
            old(self).wf(),
            old(target)@.len() == FRAME_BYTES,
            old(self)@.ly < 144,
        ensures
            final(self).wf(),
            final(self)@ == old(self)@,
            line_drawn(old(self)@, old(self)@.ly as int, old(target)@, final(target)@),
    {
        if self.map_cache_0_dirty {
            self.construct_map_cache_0();
        }
        if self.map_cache_1_dirty {
            self.construct_map_cache_1();
        }
        let ly = self.lcdc_y;
        let objects = self.ref_objects_for_line(ly);
        let start: usize = ly as usize * 640;
        let mut x: u8 = 0;
        while x < 160
            invariant
                self.wf(),
                self@ == old(self)@,
                !self.map_cache_0_dirty,
                !self.map_cache_1_dirty,
                ly == self@.ly,
                ly < 144,
                start == ly * 640,
                objects@ == self@.line_sprites(ly as int, 40),
                x <= 160,
                target@.len() == FRAME_BYTES,
                forall|i: int|
                    0 <= i < FRAME_BYTES && !(start <= i < start + 4 * x) ==> #[trigger] target@[i]
                        == old(target)@[i],
                forall|k: int|
                    0 <= k < x ==> pixel_at(target@, start + 4 * k, #[trigger] self@.pixel_colour(k, ly as int)),
            decreases 160 - x,
        {
            let under = match self.window_pixel(x, ly) {
                Some(w) => w,
                None => self.background_pixel(x, ly),
            };
            let shade = match self.sprite_pixel(&objects, x, ly) {
                SpritePixel::Hi(c) => c,
                SpritePixel::Lo(c) => if under.nonzero {
                    under.shade
                } else {
                    c
                },
                SpritePixel::Absent => under.shade,
            };
            let c = shade_colour(self.palette, shade);
            assert(c == self@.pixel_colour(x as int, ly as int));
            let i = start + 4 * x as usize;
            let ghost before = target@;
            write_pixel(target, i, c);
            proof {
                assert forall|k: int| 0 <= k < x + 1 implies pixel_at(target@, start + 4 * k, #[trigger] self@.pixel_colour(k, ly as int)) by {
                    if k < x {
                        assert(pixel_at(before, start + 4 * k, self@.pixel_colour(k, ly as int)));
                    }
                }
            }
            x = x + 1;
        }
    }
}

/// Position of the mode machine: line, mode (0 H-blank, 1 V-blank, 2 OAM
/// scan, 3 drawing) and machine cycles spent on the current line.
#[derive(Clone, Copy, Debug, PartialEq, Eq, Structural)]
pub struct PpuState {
    pub ly: u8,
    pub mode: u8,
    pub cycles: u32,
}

/// LCD-STAT if STAT enables the interrupt source `bit`.
pub open spec fn stat_int(stat: u8, bit: u8) -> u8 {
    if stat & bit != 0 {
        LCD_STAT
    } else {
        0
    }
}

/// LCD-STAT if line `ly` equals LYC and STAT enables the coincidence interrupt.
pub open spec fn coincidence_int(stat: u8, ly: u8, lyc: u8) -> u8 {
    if ly == lyc && stat & 0x40 != 0 {
        LCD_STAT
    } else {
        0
    }
}

/// One transition of the mode machine, if one is due: OAM scan ends after
/// 80 cycles, drawing after 252, and the line after 456, when the next line
/// starts (or, after line 143, V-blank); V-blank lasts ten lines, after
/// which line 0 starts again.
pub open spec fn ppu_next(s: PpuState) -> PpuState {
    if s.mode == 2 && s.cycles >= 80 {
        PpuState { mode: 3, ..s }
    } else if s.mode == 3 && s.cycles >= 252 {
        PpuState { mode: 0, ..s }
    } else if s.mode == 0 && s.cycles >= 456 {
        PpuState {
            ly: (s.ly + 1) as u8,
            mode: if s.ly + 1 == 144 {
                1
            } else {
                2
            },
            cycles: (s.cycles - 456) as u32,
        }
    } else if s.mode == 1 && s.cycles >= 456 {
        PpuState {
            ly: if s.ly + 1 == 154 {
                0
            } else {
                (s.ly + 1) as u8
            },
            mode: if s.ly + 1 == 154 {
                2
            } else {
                1
            },
            cycles: (s.cycles - 456) as u32,
        }
    } else {
        s
    }
}

/// Whether the transition from `s` draws line `s.ly`.
pub open spec fn ppu_draws(s: PpuState) -> bool {
    s.mode == 3 && s.cycles >= 252
}

/// Whether the transition from `s` completes the frame (enters V-blank).
pub open spec fn ppu_frame_done(s: PpuState) -> bool {
    s.mode == 0 && s.cycles >= 456 && s.ly + 1 == 144
}

/// Interrupts raised by the transition from `s`: V-BLANK on entering
/// V-blank; LCD-STAT on entering a mode whose source STAT enables, or on
/// reaching line LYC with the coincidence source enabled.
pub open spec fn ppu_ints(s: PpuState, stat: u8, lyc: u8) -> u8 {
    let n = ppu_next(s);
    if ppu_draws(s) {
        stat_int(stat, 0x08)
    } else if s.mode == 0 && s.cycles >= 456 {
        (if n.mode == 1 {
            V_BLANK | stat_int(stat, 0x10)
        } else {
            stat_int(stat, 0x20)
        }) | coincidence_int(stat, n.ly, lyc)
    } else if s.mode == 1 && s.cycles >= 456 {
        (if n.mode == 2 {
            stat_int(stat, 0x20)
        } else {
            0
        }) | coincidence_int(stat, n.ly, lyc)
    } else {
        0
    }
}

/// STAT with the mode bits and the coincidence bit of state `n`.
pub open spec fn next_stat(stat: u8, n: PpuState, lyc: u8) -> u8 {
    (stat & 0xF8) | (if n.ly == lyc {
        4u8
    } else {
        0u8
    }) | n.mode
}

proof fn lemma_small_or(a: u8, b: u8)
    ensures
        a | 0 == a,
        0 | b == b,
        a <= 3 && b <= 3 ==> a | b <= 3,
        a | b == b | a,
{
    lemma_byte(a);
    lemma_byte(b);
    lemma_byte_pair(a, b);
}

/// Writes `colour` as an opaque RGBA pixel at `i`.
fn write_pixel(output: &mut Vec<u8>, i: usize, colour: Colour)
    requires
        i + 4 <= old(output)@.len(),
    ensures
        final(output)@ == old(output)@.update(i as int, colour.r).update(i + 1, colour.g).update(
            i + 2,
            colour.b,
        ).update(i + 3, 255),
{
    let len = output.len();
    assert(i + 4 <= len);
    output.set(i, colour.r);
    output.set(i + 1, colour.g);
    output.set(i + 2, colour.b);
    output.set(i + 3, 255);
}

proof fn lemma_line_sprites_bounded(v: VideoView, ly: int, n: int)
    requires
        n <= 40,
    ensures
        forall|k: int|
            0 <= k < v.line_sprites(ly, n).len() ==> #[trigger] v.line_sprites(ly, n)[k] < 40
                && v.on_line(v.line_sprites(ly, n)[k] as int, ly),
    decreases n,
{
    if n > 0 {
        lemma_line_sprites_bounded(v, ly, n - 1);
        let s = v.line_sprites(ly, n - 1);
        if v.on_line(n - 1, ly) && s.len() < MAX_LINE_SPRITES {
            assert forall|k: int| 0 <= k < s.push((n - 1) as u8).len() implies #[trigger] s.push(
                (n - 1) as u8,
            )[k] < 40 && v.on_line(s.push((n - 1) as u8)[k] as int, ly) by {
                if k < s.len() {
                    assert(s.push((n - 1) as u8)[k] == s[k]);
                }
            }
        }
    }
}

proof fn lemma_first_covering(v: VideoView, s: Seq<u8>, col: int)
    ensures
        v.first_covering(s, col) matches Some(j) ==> v.covers(j as int, col) && s.contains(j),
    decreases s.len(),
{
    if s.len() > 0 {
        lemma_first_covering(v, s.drop_last(), col);
        let b = v.first_covering(s.drop_last(), col);
        if let Some(j) = b {
            let k = choose|k: int| 0 <= k < s.drop_last().len() && s.drop_last()[k] == j;
            assert(s[k] == j);
        }
        assert(s[s.len() - 1] == s.last());
    }
}


/// With every tile all-zero texels and the background enabled, every pixel
/// of the screen shows the colour that BGP assigns to texel 0 (its bits 1:0),
/// whatever the window and the sprites do.
pub proof fn lemma_zero_tiles_show_palette_zero(v: VideoView, x: int, y: int)
    requires
        v.raw.len() == TILE_DATA_SIZE,
        v.map.len() == TILE_MAP_SIZE,
        v.oam.len() == OAM_SIZE,
        forall|k: int| 0 <= k < TILE_DATA_SIZE ==> #[trigger] v.raw[k] == 0,
        v.lcdc & 0x01 != 0,
        0 <= x < 160,
        0 <= y < 144,
    ensures
        v.pixel_colour(x, y) == shade_colour_spec(v.palette, v.bgp & 3),
{
    assert forall|c: u8| c < 8 implies #[trigger] texel_of(0, 0, c) == 0 by {
        lemma_texel_bounds(0, 0, c);
    }
    let bgp = v.bgp;
    lemma_byte(bgp);
    assert(palette_shade(v.bgp, 0) == v.bgp & 3);
    // Background texel.
    let bx = (v.scroll_x + x) % 256;
    let by = (v.scroll_y + y) % 256;
    let bn = v.map[v.bg_base() + (by / 8) * 32 + bx / 8];
    let bj = map_tile(v.unsigned_tiles(), bn) * 64 + (by % 8) * 8 + bx % 8;
    assert(0 <= bj < NUM_TILES * TEX_AREA);
    assert(v.raw[2 * (bj / 8)] == 0 && v.raw[2 * (bj / 8) + 1] == 0);
    assert(atlas_texel(v.raw, bj) == 0);
    // Window texel, where the window covers the pixel.
    if v.window_pixel(x, y) is Some {
        let wx = x + 7 - v.window_x;
        let wy = y - v.window_y;
        assert(0 <= wx < 256 && 0 <= wy < 256);
        let wn = v.map[v.window_base() + (wy / 8) * 32 + wx / 8];
        let wj = map_tile(v.unsigned_tiles(), wn) * 64 + (wy % 8) * 8 + wx % 8;
        assert(0 <= wj < NUM_TILES * TEX_AREA);
        assert(v.raw[2 * (wj / 8)] == 0 && v.raw[2 * (wj / 8) + 1] == 0);
        assert(atlas_texel(v.raw, wj) == 0);
    }
    // Sprite texel of the sprite that covers the pixel, if any.
    if v.lcdc & 0x02 != 0 {
        let s = v.line_sprites(y, 40);
        lemma_line_sprites_bounded(v, y, 40);
        lemma_first_covering(v, s, x);
        if let Some(j) = v.first_covering(s, x) {
            let k = choose|k: int| 0 <= k < s.len() && s[k] == j;
            assert(v.on_line(s[k] as int, y));
            let attrs = v.sprite_attrs(j as int);
            let x_off = x + 8 - v.sprite_x(j as int);
            let y_off = y + 16 - v.sprite_y(j as int);
            let fx = if attrs & 0x20 != 0 {
                7 - x_off
            } else {
                x_off
            };
            let fy = if attrs & 0x40 != 0 {
                v.sprite_height() - 1 - y_off
            } else {
                y_off
            };
            assert(0 <= fx < 8 && 0 <= fy < 16);
            let tn = v.sprite_tile(j as int);
            lemma_byte(tn);
            let tile = if v.tall_sprites() {
                (v.sprite_tile(j as int) & 0xFE) + fy / 8
            } else {
                v.sprite_tile(j as int) as int
            };
            let sj = tile * 64 + (fy % 8) * 8 + fx;
            assert(0 <= sj < NUM_TILES * TEX_AREA);
            assert(v.raw[2 * (sj / 8)] == 0 && v.raw[2 * (sj / 8) + 1] == 0);
            assert(v.sprite_texel(j as int, x, y) == 0);
        }
    }
}


/// The mode machine after `n` calls of `video_mode`, each made after 4 more
/// machine cycles, with STAT `stat` and LYC `lyc`; and how many of the calls
/// completed a frame and how many raised V-BLANK.
pub open spec fn ppu_feed(s: PpuState, stat: u8, lyc: u8, n: nat) -> (PpuState, nat, nat)
    decreases n,
{
    if n == 0 {
        (s, 0, 0)
    } else {
        let (t, f, v) = ppu_feed(s, stat, lyc, (n - 1) as nat);
        let t4 = PpuState { cycles: (t.cycles + 4) as u32, ..t };
        (
            ppu_next(t4),
            f + if ppu_frame_done(t4) {
                1nat
            } else {
                0nat
            },
            v + if ppu_ints(t4, stat, lyc) & V_BLANK != 0 {
                1nat
            } else {
                0nat
            },
        )
    }
}

/// Cycles at which the current mode ends.
spec fn mode_end(mode: u8) -> int {
    if mode == 2 {
        80
    } else if mode == 3 {
        252
    } else {
        456
    }
}

proof fn lemma_feed_add(s: PpuState, stat: u8, lyc: u8, a: nat, b: nat)
    ensures
        ({
            let (t, f, v) = ppu_feed(s, stat, lyc, a);
            let (t2, f2, v2) = ppu_feed(t, stat, lyc, b);
            ppu_feed(s, stat, lyc, a + b) == (t2, f + f2, v + v2)
        }),
    decreases b,
{
    if b > 0 {
        lemma_feed_add(s, stat, lyc, a, (b - 1) as nat);
        assert((a + b - 1) as nat == a + (b - 1) as nat);
    }
}

proof fn lemma_int_bits(stat: u8, lyc: u8, ly: u8)
    ensures
        stat_int(stat, 0x08) & V_BLANK == 0,
        (stat_int(stat, 0x20) | coincidence_int(stat, ly, lyc)) & V_BLANK == 0,
        (0u8 | coincidence_int(stat, ly, lyc)) & V_BLANK == 0,
        ((V_BLANK | stat_int(stat, 0x10)) | coincidence_int(stat, ly, lyc)) & V_BLANK != 0,
        0u8 & V_BLANK == 0,
{
    let a = stat_int(stat, 0x08);
    let b = stat_int(stat, 0x20);
    let c = coincidence_int(stat, ly, lyc);
    let d = stat_int(stat, 0x10);
    lemma_byte(a);
    lemma_byte(c);
    lemma_byte(1);
    lemma_byte_pair(b, c);
    lemma_byte_pair(d, c);
}

proof fn lemma_quiet(s: PpuState, stat: u8, lyc: u8, k: nat)
    requires
        s.mode <= 3,
        s.cycles + 4 * k < mode_end(s.mode),
    ensures
        ppu_feed(s, stat, lyc, k) == (PpuState { cycles: (s.cycles + 4 * k) as u32, ..s }, 0nat, 0nat),
    decreases k,
{
    if k > 0 {
        lemma_quiet(s, stat, lyc, (k - 1) as nat);
        lemma_int_bits(stat, lyc, s.ly);
    }
}

proof fn lemma_one(s: PpuState, stat: u8, lyc: u8)
    ensures
        ({
            let t4 = PpuState { cycles: (s.cycles + 4) as u32, ..s };
            ppu_feed(s, stat, lyc, 1) == (
                ppu_next(t4),
                if ppu_frame_done(t4) {
                    1nat
                } else {
                    0nat
                },
                if ppu_ints(t4, stat, lyc) & V_BLANK != 0 {
                    1nat
                } else {
                    0nat
                },
            )
        }),
{
    reveal_with_fuel(ppu_feed, 2);
}

proof fn lemma_visible_line(ly: u8, stat: u8, lyc: u8)
    requires
        ly < 144,
    ensures
        ppu_feed(PpuState { ly, mode: 2, cycles: 0 }, stat, lyc, 114) == if ly + 1 == 144 {
            (PpuState { ly: 144, mode: 1, cycles: 0 }, 1nat, 1nat)
        } else {
            (PpuState { ly: (ly + 1) as u8, mode: 2, cycles: 0 }, 0nat, 0nat)
        },
{
    let s0 = PpuState { ly, mode: 2, cycles: 0 };
    lemma_int_bits(stat, lyc, (ly + 1) as u8);
    lemma_quiet(s0, stat, lyc, 19);
    let s1 = PpuState { ly, mode: 2, cycles: 76 };
    lemma_one(s1, stat, lyc);
    let s2 = PpuState { ly, mode: 3, cycles: 80 };
    lemma_quiet(s2, stat, lyc, 42);
    let s3 = PpuState { ly, mode: 3, cycles: 248 };
    lemma_one(s3, stat, lyc);
    let s4 = PpuState { ly, mode: 0, cycles: 252 };
    lemma_quiet(s4, stat, lyc, 50);
    let s5 = PpuState { ly, mode: 0, cycles: 452 };
    lemma_one(s5, stat, lyc);
    lemma_feed_add(s0, stat, lyc, 19, 1);
    lemma_feed_add(s0, stat, lyc, 20, 42);
    lemma_feed_add(s0, stat, lyc, 62, 1);
    lemma_feed_add(s0, stat, lyc, 63, 50);
    lemma_feed_add(s0, stat, lyc, 113, 1);
}

proof fn lemma_vblank_line(ly: u8, stat: u8, lyc: u8)
    requires
        144 <= ly <= 153,
    ensures
        ppu_feed(PpuState { ly, mode: 1, cycles: 0 }, stat, lyc, 114) == if ly + 1 == 154 {
            (PpuState { ly: 0, mode: 2, cycles: 0 }, 0nat, 0nat)
        } else {
            (PpuState { ly: (ly + 1) as u8, mode: 1, cycles: 0 }, 0nat, 0nat)
        },
{
    let s0 = PpuState { ly, mode: 1, cycles: 0 };
    lemma_int_bits(stat, lyc, 0);
    lemma_int_bits(stat, lyc, (ly + 1) as u8);
    lemma_quiet(s0, stat, lyc, 113);
    let s1 = PpuState { ly, mode: 1, cycles: 452 };
    lemma_one(s1, stat, lyc);
    lemma_feed_add(s0, stat, lyc, 113, 1);
}

proof fn lemma_visible_lines(stat: u8, lyc: u8, k: nat)
    requires
        k <= 144,
    ensures
        ppu_feed(PpuState { ly: 0, mode: 2, cycles: 0 }, stat, lyc, 114 * k) == if k < 144 {
            (PpuState { ly: k as u8, mode: 2, cycles: 0 }, 0nat, 0nat)
        } else {
            (PpuState { ly: 144, mode: 1, cycles: 0 }, 1nat, 1nat)
        },
    decreases k,
{
    if k > 0 {
        lemma_visible_lines(stat, lyc, (k - 1) as nat);
        lemma_visible_line((k - 1) as u8, stat, lyc);
        lemma_feed_add(PpuState { ly: 0, mode: 2, cycles: 0 }, stat, lyc, 114 * (k - 1) as nat, 114);
        assert(114 * (k - 1) as nat + 114 == 114 * k);
    }
}

proof fn lemma_vblank_lines(stat: u8, lyc: u8, j: nat)
    requires
        j <= 10,
    ensures
        ppu_feed(PpuState { ly: 144, mode: 1, cycles: 0 }, stat, lyc, 114 * j) == if j < 10 {
            (PpuState { ly: (144 + j) as u8, mode: 1, cycles: 0 }, 0nat, 0nat)
        } else {
            (PpuState { ly: 0, mode: 2, cycles: 0 }, 0nat, 0nat)
        },
    decreases j,
{
    if j > 0 {
        lemma_vblank_lines(stat, lyc, (j - 1) as nat);
        lemma_vblank_line((144 + j - 1) as u8, stat, lyc);
        lemma_feed_add(PpuState { ly: 144, mode: 1, cycles: 0 }, stat, lyc, 114 * (j - 1) as nat, 114);
        assert(114 * (j - 1) as nat + 114 == 114 * j);
    }
}

/// Over one frame's 70,224 machine cycles, fed 4 at a time from the start
/// of line 0, the mode machine comes back to the start of line 0, completes
/// the frame exactly once and raises V-BLANK exactly once.
pub proof fn lemma_frame_period(stat: u8, lyc: u8)
    ensures
        ppu_feed(PpuState { ly: 0, mode: 2, cycles: 0 }, stat, lyc, 70224nat / 4) == (
            PpuState { ly: 0, mode: 2, cycles: 0 },
            1nat,
            1nat,
        ),
{
    lemma_visible_lines(stat, lyc, 144);
    lemma_vblank_lines(stat, lyc, 10);
    lemma_feed_add(PpuState { ly: 0, mode: 2, cycles: 0 }, stat, lyc, 114 * 144, 114 * 10);
}

} // verus!
