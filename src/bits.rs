//! Facts about bitwise operations on bytes, proved once and used by the devices.
use vstd::prelude::*;

verus! {

/// Bounds and identities of masks and shifts of one byte.
pub proof fn lemma_byte(v: u8)
    by (bit_vector)
    ensures
        v & 1 <= 1,
        v & 3 <= 3,
        v & 7 <= 7,
        v & 0xF <= 0xF,
        v & 0x1F <= 0x1F,
        v & 0x3F <= 0x3F,
        v & 0x7F <= 0x7F,
        v & 0xFE <= 0xFE,
        (v & 2) >> 1 <= 1,
        v >> 4 <= 15,
        (v & 0xF0) >> 4 == v >> 4,
        (v & 0x70) >> 4 <= 7,
        (v >> 5) & 3 <= 3,
        v & 0x80 == 0 ==> v & 0x7F == v,
        v | 0 == v,
        0 | v == v,
        v >> 0 == v,
        0u8 & v == 0,
        v <= 0x1F ==> v & 0x1F == v,
        v < 0x80 ==> (v >> 5) & 3 == v >> 5,
        v < 0x80 ==> (v >> 5) * 32 + (v & 0x1F) == v,
        (v == 0 || v == 2) ==> v & 1 == 0,
        (1u8 | v) & 1 != 0,
{
}

/// Bounds and identities of two bytes combined.
pub proof fn lemma_byte_pair(a: u8, b: u8)
    by (bit_vector)
    ensures
        a <= 0x1F && b <= 0x1F ==> a | b <= 0x1F,
        a <= 0x1F ==> a & !b <= 0x1F,
        a <= 0x1F ==> a & b <= 0x1F,
        a <= 3 && b <= 3 ==> a | b <= 3,
        a | b == b | a,
        (a & 0x1F) & (b & 0x1F) == (a & b) & 0x1F,
        (a == 0 || a == 2) && (b == 0 || b == 2) ==> (a | b) & 1 == 0,
        ((1u8 | a) | b) & 1 != 0,
        ((b & 0x78) | (a & 0x07)) & 3 == a & 3,
        (a >> b) & 3 <= 3,
        (a >> b) & 7 <= 7,
{
}

/// STAT rebuilt from its upper bits, a coincidence bit and a mode reads back that mode.
pub proof fn lemma_stat_mode(stat: u8, coinc: u8, mode: u8)
    by (bit_vector)
    requires
        mode <= 3,
        coinc == 0 || coinc == 4,
    ensures
        ((stat & 0xF8) | coinc | mode) & 3 == mode,
        ((stat & 0xFC) | mode) & 3 == mode,
{
}

/// The 11-bit frequency number of a low byte and the low three bits of a high byte.
pub proof fn lemma_freq_n(hi: u8, lo: u8)
    by (bit_vector)
    ensures
        (hi & 7) as usize * 256 + lo as usize <= 2047,
        ((hi & 7) as usize) << 8 | lo as usize == (hi & 7) as usize * 256 + lo as usize,
{
}

} // verus!
