//! The built-in hexadecimal font: sixteen glyphs of five rows each,
//! preloaded into low memory at construction.

use vstd::prelude::*;

verus! {

/// The five rows of one glyph, packed big-endian into the low five bytes
/// of a `u64`: row `r` of digit `d` is byte `4 - r` of `glyph_bits(d)`.
pub open spec fn glyph_bits(d: int) -> u64 {
    if d == 0 {
        0xF0909090F0
    } else if d == 1 {
        0x2060202070
    } else if d == 2 {
        0xF010F080F0
    } else if d == 3 {
        0xF010F010F0
    } else if d == 4 {
        0x9090F01010
    } else if d == 5 {
        0xF080F010F0
    } else if d == 6 {
        0xF080F090F0
    } else if d == 7 {
        0xF010204040
    } else if d == 8 {
        0xF090F090F0
    } else if d == 9 {
        0xF090F010F0
    } else if d == 10 {
        0xF090F09090
    } else if d == 11 {
        0xE090E090E0
    } else if d == 12 {
        0xF0808080F0
    } else if d == 13 {
        0xE0909090E0
    } else if d == 14 {
        0xF080F080F0
    } else {
        0xF080F08080
    }
}

/// Byte `i` of the 80-byte font table: row `i % 5` of glyph `i / 5`.
pub open spec fn font_byte(i: int) -> u8 {
    ((glyph_bits(i / 5) >> (((4 - i % 5) * 8) as u64)) & 0xFF) as u8
}

fn glyph_bits_at(d: u8) -> (g: u64)
    requires
        d < 16,
    ensures
        g == glyph_bits(d as int),
{
    match d {
        0 => 0xF0909090F0,
        1 => 0x2060202070,
        2 => 0xF010F080F0,
        3 => 0xF010F010F0,
        4 => 0x9090F01010,
        5 => 0xF080F010F0,
        6 => 0xF080F090F0,
        7 => 0xF010204040,
        8 => 0xF090F090F0,
        9 => 0xF090F010F0,
        10 => 0xF090F09090,
        11 => 0xE090E090E0,
        12 => 0xF0808080F0,
        13 => 0xE0909090E0,
        14 => 0xF080F080F0,
        _ => 0xF080F08080,
    }
}

/// Byte `i` of the font table, computed at run time.
pub fn font_byte_at(i: usize) -> (b: u8)
    requires
        i < 80,
    ensures
        b == font_byte(i as int),
{
    let g = glyph_bits_at((i / 5) as u8);
    let r = (i % 5) as u64;
    ((g >> ((4 - r) * 8)) & 0xFF) as u8
}

} // verus!
