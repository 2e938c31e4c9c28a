//! Shades and display colours.
use vstd::prelude::*;
use crate::bits::lemma_byte_pair;

verus! {

/// The set of display colours chosen by the user.
#[derive(Clone, Copy, Debug, PartialEq, Eq, Structural)]
pub enum UserPalette {
    /// The host default; without Super Game Boy colour data this is greyscale.
    Default,
    /// The classic green scheme.
    Classic,
    /// Four greys from white to black.
    Greyscale,
}

/// An RGB colour.
#[derive(Clone, Copy, Debug, PartialEq, Eq, Structural)]
pub struct Colour {
    pub r: u8,
    pub g: u8,
    pub b: u8,
}

/// The 2-bit shade that palette register `pal` assigns to texel `texel` (0 to 3).
pub open spec fn palette_shade(pal: u8, texel: u8) -> u8 {
    (pal >> ((2 * texel) as u8)) & 3
}

/// The display colour of `shade` (0 lightest to 3 darkest) under `p`.
pub open spec fn shade_colour_spec(p: UserPalette, shade: u8) -> Colour {
    match p {
        UserPalette::Classic => if shade == 0 {
            Colour { r: 0x9B, g: 0xBC, b: 0x0F }
        } else if shade == 1 {
            Colour { r: 0x8B, g: 0xAC, b: 0x0F }
        } else if shade == 2 {
            Colour { r: 0x30, g: 0x62, b: 0x30 }
        } else {
            Colour { r: 0x0F, g: 0x38, b: 0x0F }
        },
        _ => if shade == 0 {
            Colour { r: 0xFF, g: 0xFF, b: 0xFF }
        } else if shade == 1 {
            Colour { r: 0xAA, g: 0xAA, b: 0xAA }
        } else if shade == 2 {
            Colour { r: 0x55, g: 0x55, b: 0x55 }
        } else {
            Colour { r: 0x00, g: 0x00, b: 0x00 }
        },
    }
}

/// The shade that palette register `pal` assigns to `texel`.
pub fn get_shade(pal: u8, texel: u8) -> (r: u8)
    requires
        texel < 4,
    ensures
        r == palette_shade(pal, texel),
        r < 4,
{
    proof {
        lemma_byte_pair(pal, (2 * texel) as u8);
    }
    (pal >> (2 * texel)) & 3
}

/// The display colour of `shade`.
pub fn shade_colour(p: UserPalette, shade: u8) -> (r: Colour)
    ensures
        r == shade_colour_spec(p, shade),
{
    match p {
        UserPalette::Classic => if shade == 0 {
            Colour { r: 0x9B, g: 0xBC, b: 0x0F }
        } else if shade == 1 {
            Colour { r: 0x8B, g: 0xAC, b: 0x0F }
        } else if shade == 2 {
            Colour { r: 0x30, g: 0x62, b: 0x30 }
        } else {
            Colour { r: 0x0F, g: 0x38, b: 0x0F }
        },
        _ => if shade == 0 {
            Colour { r: 0xFF, g: 0xFF, b: 0xFF }
        } else if shade == 1 {
            Colour { r: 0xAA, g: 0xAA, b: 0xAA }
        } else if shade == 2 {
            Colour { r: 0x55, g: 0x55, b: 0x55 }
        } else {
            Colour { r: 0x00, g: 0x00, b: 0x00 }
        },
    }
}

/// The palette that a palette option names: "g" the green scheme, "bw"
/// greyscale, anything else or no option the default.
pub open spec fn choose_palette_spec(palette: Option<Seq<char>>) -> UserPalette {
    match palette {
        Some(s) => if s == seq!['g'] {
            UserPalette::Classic
        } else if s == seq!['b', 'w'] {
            UserPalette::Greyscale
        } else {
            UserPalette::Default
        },
        None => UserPalette::Default,
    }
}

pub fn choose_palette(palette: Option<&str>) -> (r: UserPalette)
    ensures
        r == choose_palette_spec(
            match palette {
                Some(s) => Some(s@),
                None => None,
            },
        ),
{
    match palette {
        Some(s) => {
            let given = s.to_owned();
            let green = "g".to_owned();
            let grey = "bw".to_owned();
            proof {
                reveal_strlit("g");
                reveal_strlit("bw");
                assert(green@ =~= seq!['g']);
                assert(grey@ =~= seq!['b', 'w']);
            }
            if given == green {
                UserPalette::Classic
            } else if given == grey {
                UserPalette::Greyscale
            } else {
                UserPalette::Default
            }
        },
        None => UserPalette::Default,
    }
}

} // verus!
