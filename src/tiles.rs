//! Tile decoding and the tile atlas: one texel (a 2-bit colour index) per
//! byte, tile after tile, each tile 8 rows of 8 texels.
use vstd::prelude::*;
use crate::bits::lemma_byte;

verus! {

/// Texels in one 8x8 tile.
pub const TEX_AREA: usize = 64;

/// The plane bit of pixel column `col` (0 = leftmost, which is bit 7) of byte `b`.
pub open spec fn plane_bit(b: u8, col: u8) -> u8 {
    (b >> ((7 - col) as u8)) & 1
}

/// The texel of pixel column `col` (0 = leftmost) of a row whose low-plane
/// byte is `lo` and high-plane byte is `hi`.
pub open spec fn texel_of(lo: u8, hi: u8, col: u8) -> u8 {
    (plane_bit(hi, col) << 1) | plane_bit(lo, col)
}

/// A texel is a 2-bit value made of one bit of each plane; zero planes give zero texels.
pub proof fn lemma_texel_bounds(lo: u8, hi: u8, col: u8)
    by (bit_vector)
    requires
        col < 8,
    ensures
        texel_of(lo, hi, col) < 4,
        texel_of(lo, hi, col) & 1 == plane_bit(lo, col),
        (texel_of(lo, hi, col) & 2) >> 1 == plane_bit(hi, col),
        plane_bit(0, col) == 0,
        texel_of(0, 0, col) == 0,
{
}

/// Replacing one plane byte of a row changes only that plane's bit of each texel.
pub proof fn lemma_texel_replace(lo: u8, hi: u8, new_lo: u8, new_hi: u8, col: u8)
    by (bit_vector)
    requires
        col < 8,
    ensures
        (texel_of(lo, hi, col) & 2) | plane_bit(new_lo, col) == texel_of(new_lo, hi, col),
        (texel_of(lo, hi, col) & 1) | (plane_bit(new_hi, col) << 1) == texel_of(lo, new_hi, col),
{
}

proof fn lemma_or_bit(acc: u8, b: u8, i: u8, k: u8)
    by (bit_vector)
    requires
        b <= 1,
        i < 8,
        k < 8,
        plane_bit(acc, i) == 0,
    ensures
        plane_bit(acc | (b << ((7 - i) as u8)), k) == if k == i {
            b
        } else {
            plane_bit(acc, k)
        },
{
}

proof fn lemma_set_bounds(old_t: u8, row: u8, i: u8)
    by (bit_vector)
    requires
        i < 8,
        old_t < 4,
    ensures
        (old_t & 2) | plane_bit(row, i) < 4,
        (old_t & 1) | (plane_bit(row, i) << 1) < 4,
{
}

/// Decoded tiles, one texel per byte, with a flag set whenever they change.
pub struct TileAtlas {
    atlas: Vec<u8>,
    atlas_size: (usize, usize),
    dirty: bool,
}

impl View for TileAtlas {
    type V = Seq<u8>;

    closed spec fn view(&self) -> Seq<u8> {
        self.atlas@
    }
}

impl TileAtlas {
    pub closed spec fn wf(&self) -> bool {
        forall|j: int| 0 <= j < self.atlas@.len() ==> #[trigger] self.atlas@[j] < 4
    }

    /// Whether the texels changed since the data was last taken.
    pub closed spec fn dirty_spec(&self) -> bool {
        self.dirty
    }

    /// Width and height of the atlas, in tiles.
    pub closed spec fn size_spec(&self) -> (usize, usize) {
        self.atlas_size
    }

    /// An atlas of `atlas_size.0` by `atlas_size.1` tiles, all texels zero, marked dirty.
    pub fn new(atlas_size: (usize, usize)) -> (r: TileAtlas)
        requires
            atlas_size.0 * atlas_size.1 * TEX_AREA <= usize::MAX,
        ensures
            r.wf(),
            r@ == Seq::new((atlas_size.0 * atlas_size.1 * TEX_AREA) as nat, |i: int| 0u8),
            r.size_spec() == atlas_size,
            r.dirty_spec(),
    {
        proof {
            vstd::arithmetic::mul::lemma_mul_nonnegative(atlas_size.0 as int, atlas_size.1 as int);
            assert(atlas_size.0 * atlas_size.1 <= atlas_size.0 * atlas_size.1 * TEX_AREA)
                by (nonlinear_arith)
                requires
                    atlas_size.0 * atlas_size.1 >= 0,
            ;
        }
        let atlas_area = (atlas_size.0 * atlas_size.1) * TEX_AREA;
        let atlas = vec![0u8; atlas_area];
        proof {
            assert(atlas@ =~= Seq::new(atlas_area as nat, |i: int| 0u8));
        }
        TileAtlas { atlas, atlas_size, dirty: true }
    }

    /// Writes the low-plane byte `row` of a tile row: bit `7 - i` becomes bit 0
    /// of texel `loc + i`, whose bit 1 is kept.
    pub fn set_pixel_lower_row(&mut self, loc: usize, row: u8)
        requires
            old(self).wf(),
            loc + 8 <= old(self)@.len(),
        ensures
            final(self).wf(),
            final(self)@.len() == old(self)@.len(),
            forall|i: int|
                0 <= i < 8 ==> #[trigger] final(self)@[loc + i] == (old(self)@[loc + i] & 2)
                    | plane_bit(row, i as u8),
            forall|j: int|
                0 <= j < old(self)@.len() && !(loc <= j < loc + 8) ==> #[trigger] final(self)@[j]
                    == old(self)@[j],
            final(self).dirty_spec(),
            final(self).size_spec() == old(self).size_spec(),
    {
        let mut i: u8 = 0;
        while i < 8
            invariant
                i <= 8,
                loc + 8 <= self.atlas@.len(),
                self.wf(),
                self.atlas@.len() == old(self).atlas@.len(),
                self.atlas_size == old(self).atlas_size,
                forall|k: int|
                    0 <= k < i ==> #[trigger] self.atlas@[loc + k] == (old(self).atlas@[loc + k] & 2)
                        | plane_bit(row, k as u8),
                forall|j: int|
                    0 <= j < self.atlas@.len() && !(loc <= j < loc + i) ==> #[trigger] self.atlas@[j]
                        == old(self).atlas@[j],
            decreases 8 - i,
        {
            let len = self.atlas.len();
            assert(loc + i < len);
            let idx = loc + i as usize;
            let bit = (row >> (7 - i)) & 1;
            let t = self.atlas[idx];
            proof {
                lemma_set_bounds(t, row, i);
            }
            self.atlas.set(idx, (t & 2) | bit);
            i = i + 1;
        }
        self.dirty = true;
    }

    /// Writes the high-plane byte `row` of a tile row: bit `7 - i` becomes bit 1
    /// of texel `loc + i`, whose bit 0 is kept.
    pub fn set_pixel_upper_row(&mut self, loc: usize, row: u8)
        requires
            old(self).wf(),
            loc + 8 <= old(self)@.len(),
        ensures
            final(self).wf(),
            final(self)@.len() == old(self)@.len(),
            forall|i: int|
                0 <= i < 8 ==> #[trigger] final(self)@[loc + i] == (old(self)@[loc + i] & 1) | (
                plane_bit(row, i as u8) << 1),
            forall|j: int|
                0 <= j < old(self)@.len() && !(loc <= j < loc + 8) ==> #[trigger] final(self)@[j]
                    == old(self)@[j],
            final(self).dirty_spec(),
            final(self).size_spec() == old(self).size_spec(),
    {
        let mut i: u8 = 0;
        while i < 8
            invariant
                i <= 8,
                loc + 8 <= self.atlas@.len(),
                self.wf(),
                self.atlas@.len() == old(self).atlas@.len(),
                self.atlas_size == old(self).atlas_size,
                forall|k: int|
                    0 <= k < i ==> #[trigger] self.atlas@[loc + k] == (old(self).atlas@[loc + k] & 1)
                        | (plane_bit(row, k as u8) << 1),
                forall|j: int|
                    0 <= j < self.atlas@.len() && !(loc <= j < loc + i) ==> #[trigger] self.atlas@[j]
                        == old(self).atlas@[j],
            decreases 8 - i,
        {
            let len = self.atlas.len();
            assert(loc + i < len);
            let idx = loc + i as usize;
            let bit = (row >> (7 - i)) & 1;
            let t = self.atlas[idx];
            proof {
                lemma_set_bounds(t, row, i);
            }
            self.atlas.set(idx, (t & 1) | (bit << 1));
            i = i + 1;
        }
        self.dirty = true;
    }

    /// The low-plane byte of the row at `loc`: bit `7 - i` is bit 0 of texel `loc + i`.
    pub fn get_pixel_lower_row(&self, loc: usize) -> (r: u8)
        requires
            loc + 8 <= self@.len(),
        ensures
            forall|i: int| 0 <= i < 8 ==> #[trigger] plane_bit(r, i as u8) == self@[loc + i] & 1,
    {
        let mut acc: u8 = 0;
        let mut i: u8 = 0;
        assert forall|k: u8| k < 8 implies #[trigger] plane_bit(0, k) == 0 by {
            lemma_texel_bounds(0, 0, k);
        }
        while i < 8
            invariant
                i <= 8,
                loc + 8 <= self.atlas@.len(),
                forall|k: u8| k < i ==> #[trigger] plane_bit(acc, k) == self.atlas@[loc + k] & 1,
                forall|k: u8| i <= k < 8 ==> #[trigger] plane_bit(acc, k) == 0,
            decreases 8 - i,
        {
            let len = self.atlas.len();
            assert(loc + i < len);
            let t = self.atlas[loc + i as usize];
            let bit = t & 1;
            proof {
                lemma_byte(t);
            }
            let ghost prev = acc;
            acc = acc | (bit << (7 - i));
            proof {
                assert forall|k: u8| k < 8 implies #[trigger] plane_bit(acc, k) == if k == i {
                    bit
                } else {
                    plane_bit(prev, k)
                } by {
                    lemma_or_bit(prev, bit, i, k);
                }
            }
            i = i + 1;
        }
        assert forall|i: int| 0 <= i < 8 implies #[trigger] plane_bit(acc, i as u8) == self@[loc
            + i] & 1 by {
            assert(plane_bit(acc, i as u8) == self.atlas@[loc + (i as u8)] & 1);
        }
        acc
    }

    /// The high-plane byte of the row at `loc`: bit `7 - i` is bit 1 of texel `loc + i`.
    pub fn get_pixel_upper_row(&self, loc: usize) -> (r: u8)
        requires
            loc + 8 <= self@.len(),
        ensures
            forall|i: int| 0 <= i < 8 ==> #[trigger] plane_bit(r, i as u8) == (self@[loc + i] & 2) >> 1,
    {
        let mut acc: u8 = 0;
        let mut i: u8 = 0;
        assert forall|k: u8| k < 8 implies #[trigger] plane_bit(0, k) == 0 by {
            lemma_texel_bounds(0, 0, k);
        }
        while i < 8
            invariant
                i <= 8,
                loc + 8 <= self.atlas@.len(),
                forall|k: u8| k < i ==> #[trigger] plane_bit(acc, k) == (self.atlas@[loc + k] & 2) >> 1,
                forall|k: u8| i <= k < 8 ==> #[trigger] plane_bit(acc, k) == 0,
            decreases 8 - i,
        {
            let len = self.atlas.len();
            assert(loc + i < len);
            let t = self.atlas[loc + i as usize];
            let bit = (t & 2) >> 1;
            proof {
                lemma_byte(t);
            }
            let ghost prev = acc;
            acc = acc | (bit << (7 - i));
            proof {
                assert forall|k: u8| k < 8 implies #[trigger] plane_bit(acc, k) == if k == i {
                    bit
                } else {
                    plane_bit(prev, k)
                } by {
                    lemma_or_bit(prev, bit, i, k);
                }
            }
            i = i + 1;
        }
        assert forall|i: int| 0 <= i < 8 implies #[trigger] plane_bit(acc, i as u8) == (self@[loc
            + i] & 2) >> 1 by {
            assert(plane_bit(acc, i as u8) == (self.atlas@[loc + (i as u8)] & 2) >> 1);
        }
        acc
    }

    /// The texel at `loc`.
    pub fn texel(&self, loc: usize) -> (r: u8)
        requires
            loc < self@.len(),
        ensures
            r == self@[loc as int],
            self.wf() ==> r < 4,
    {
        self.atlas[loc]
    }

    /// The texels; the atlas counts as clean afterwards.
    pub fn ref_data(&mut self) -> (r: &[u8])
        ensures
            r@ == old(self)@,
            final(self)@ == old(self)@,
            !final(self).dirty_spec(),
            final(self).size_spec() == old(self).size_spec(),
            old(self).wf() ==> final(self).wf(),
    {
        self.dirty = false;
        self.atlas.as_slice()
    }

    /// Whether the texels changed since the data was last taken.
    pub fn is_dirty(&self) -> (r: bool)
        ensures
            r == self.dirty_spec(),
    {
        self.dirty
    }
}

} // verus!
