//! Bitmap font decoder for the two supported PC Screen Font layouts.
//!
//! A font blob is recognised by a magic-number prefix. The first layout has
//! a 4-byte header (two magic bytes, a mode byte and the glyph byte count),
//! a fixed 8-pixel glyph width, one byte per row, and glyph `i` at byte
//! `4 + i * char_size`. The second layout has a 32-byte header of the magic
//! and seven little-endian 32-bit fields (version, header size, flags,
//! glyph count, bytes per glyph, height, width), `ceil(width / 8)` bytes
//! per row, and glyph `i` at `header_size + i * bytes_per_glyph`. Both
//! store pixels one bit each, most significant bit first.

use vstd::prelude::*;

verus! {

/// Header of the first font layout.
pub struct Psf1Header {
    pub magic: [u8; 2],
    pub mode: u8,
    pub char_size: u8,
}

/// Header of the second font layout.
pub struct Psf2Header {
    pub magic: [u8; 4],
    pub version: u32,
    pub header_size: u32,
    pub flags: u32,
    pub length: u32,
    pub char_size: u32,
    pub height: u32,
    pub width: u32,
}

/// The little-endian 32-bit value at byte offset `off`.
pub open spec fn le32(f: Seq<u8>, off: int) -> int {
    f[off] + 0x100 * f[off + 1] + 0x10000 * f[off + 2] + 0x1000000 * f[off + 3]
}

/// Whether the blob starts with the first layout's magic.
pub open spec fn psf1_present(f: Seq<u8>) -> bool {
    f.len() >= 4 && f[0] == 0x36 && f[1] == 0x04
}

/// Whether the blob starts with the second layout's magic.
pub open spec fn psf2_present(f: Seq<u8>) -> bool {
    f.len() >= 32 && f[0] == 0x72 && f[1] == 0xb5 && f[2] == 0x4a && f[3] == 0x86
}

/// Whether either supported layout is recognised.
pub open spec fn font_present(f: Seq<u8>) -> bool {
    psf1_present(f) || psf2_present(f)
}

/// Glyph width in pixels.
pub open spec fn glyph_width(f: Seq<u8>) -> int {
    if psf1_present(f) {
        8
    } else {
        le32(f, 28)
    }
}

/// Glyph height in pixel rows.
pub open spec fn glyph_height(f: Seq<u8>) -> int {
    if psf1_present(f) {
        f[3] as int
    } else {
        le32(f, 24)
    }
}

/// Stored bytes per glyph row.
pub open spec fn bytes_per_line(f: Seq<u8>) -> int {
    if psf1_present(f) {
        1
    } else {
        (le32(f, 28) + 7) / 8
    }
}

/// Byte offset of glyph `g` in the blob.
pub open spec fn glyph_offset(f: Seq<u8>, g: int) -> int {
    if psf1_present(f) {
        4 + g * (f[3] as int)
    } else {
        le32(f, 8) + g * le32(f, 20)
    }
}

/// Whether every row byte of glyph `g` lies inside the blob.
pub open spec fn glyph_readable(f: Seq<u8>, g: int) -> bool {
    font_present(f) && glyph_offset(f, g) + glyph_height(f) * bytes_per_line(f) <= f.len()
}

/// Bit `c` of a row byte, most significant bit first.
pub open spec fn byte_bit(b: u8, c: int) -> bool {
    (b >> ((7 - c) as u8)) & 1 == 1
}

/// Whether glyph `g` has a set pixel at row `r`, column `c`.
pub open spec fn glyph_bit(f: Seq<u8>, g: int, r: int, c: int) -> bool {
    byte_bit(f[glyph_offset(f, g) + r * bytes_per_line(f) + c / 8], c % 8)
}

/// The glyph slot a character is rendered from: the code point itself below
/// 128, a fixed translation table for the Latin letters the classic 8-bit
/// console set keeps above 127, and the question mark for everything else.
pub open spec fn spec_glyph_index(c: char) -> int {
    let u = c as int;
    if u == 0xC7 {
        128
    } else if u == 0xFC {
        129
    } else if u == 0xE9 {
        130
    } else if u == 0xE2 {
        131
    } else if u == 0xE4 {
        132
    } else if u == 0xE0 {
        133
    } else if u == 0xE5 {
        134
    } else if u == 0xE7 {
        135
    } else if u == 0xEA {
        136
    } else if u == 0xEB {
        137
    } else if u == 0xE8 {
        138
    } else if u == 0xEF {
        139
    } else if u == 0xEE {
        140
    } else if u == 0xEC {
        141
    } else if u == 0xC4 {
        142
    } else if u == 0xC5 {
        143
    } else if u == 0xC9 {
        144
    } else if u == 0xE6 {
        145
    } else if u == 0xC6 {
        146
    } else if u == 0xF4 {
        147
    } else if u == 0xF6 {
        148
    } else if u == 0xF2 {
        149
    } else if u == 0xFB {
        150
    } else if u == 0xF9 {
        151
    } else if u == 0xFF {
        152
    } else if u == 0xD6 {
        153
    } else if u == 0xDC {
        154
    } else if u == 0xF8 {
        155
    } else if u == 0xA3 {
        156
    } else if u == 0xD8 {
        157
    } else if u < 128 {
        u
    } else {
        63
    }
}

/// Map a character to its glyph slot.
pub fn get_glyph_index(c: char) -> (g: usize)
    ensures
        g == spec_glyph_index(c),
        g < 256,
{
    let u = c as u32;
    if u == 0xC7 {
        128
    } else if u == 0xFC {
        129
    } else if u == 0xE9 {
        130
    } else if u == 0xE2 {
        131
    } else if u == 0xE4 {
        132
    } else if u == 0xE0 {
        133
    } else if u == 0xE5 {
        134
    } else if u == 0xE7 {
        135
    } else if u == 0xEA {
        136
    } else if u == 0xEB {
        137
    } else if u == 0xE8 {
        138
    } else if u == 0xEF {
        139
    } else if u == 0xEE {
        140
    } else if u == 0xEC {
        141
    } else if u == 0xC4 {
        142
    } else if u == 0xC5 {
        143
    } else if u == 0xC9 {
        144
    } else if u == 0xE6 {
        145
    } else if u == 0xC6 {
        146
    } else if u == 0xF4 {
        147
    } else if u == 0xF6 {
        148
    } else if u == 0xF2 {
        149
    } else if u == 0xFB {
        150
    } else if u == 0xF9 {
        151
    } else if u == 0xFF {
        152
    } else if u == 0xD6 {
        153
    } else if u == 0xDC {
        154
    } else if u == 0xF8 {
        155
    } else if u == 0xA3 {
        156
    } else if u == 0xD8 {
        157
    } else if u < 128 {
        u as usize
    } else {
        63
    }
}

/// Read the little-endian 32-bit value at byte offset `off`.
pub fn read_le32(f: &Vec<u8>, off: usize) -> (r: u32)
    requires
        off + 4 <= f@.len(),
    ensures
        r == le32(f@, off as int),
{
    let n: usize = f.len();
    assert(off + 4 <= n);
    f[off] as u32 + 0x100 * (f[off + 1] as u32) + 0x10000 * (f[off + 2] as u32) + 0x1000000 * (f[off
        + 3] as u32)
}

/// Parse the first layout's header; `None` when its magic is absent.
pub fn parse_psf1_header(f: &Vec<u8>) -> (h: Option<Psf1Header>)
    ensures
        h is Some <==> psf1_present(f@),
        h matches Some(hd) ==> {
            &&& hd.magic@ == seq![f@[0], f@[1]]
            &&& hd.mode == f@[2]
            &&& hd.char_size == f@[3]
        },
{
    if f.len() >= 4 && f[0] == 0x36 && f[1] == 0x04 {
        let h = Psf1Header { magic: [f[0], f[1]], mode: f[2], char_size: f[3] };
        proof {
            assert(h.magic@ =~= seq![f@[0], f@[1]]);
        }
        Some(h)
    } else {
        None
    }
}

/// Parse the second layout's header; `None` when its magic is absent.
pub fn parse_psf2_header(f: &Vec<u8>) -> (h: Option<Psf2Header>)
    ensures
        h is Some <==> psf2_present(f@),
        h matches Some(hd) ==> {
            &&& hd.magic@ == seq![f@[0], f@[1], f@[2], f@[3]]
            &&& hd.version == le32(f@, 4)
            &&& hd.header_size == le32(f@, 8)
            &&& hd.flags == le32(f@, 12)
            &&& hd.length == le32(f@, 16)
            &&& hd.char_size == le32(f@, 20)
            &&& hd.height == le32(f@, 24)
            &&& hd.width == le32(f@, 28)
        },
{
    if f.len() >= 32 && f[0] == 0x72 && f[1] == 0xb5 && f[2] == 0x4a && f[3] == 0x86 {
        let h = Psf2Header {
            magic: [f[0], f[1], f[2], f[3]],
            version: read_le32(f, 4),
            header_size: read_le32(f, 8),
            flags: read_le32(f, 12),
            length: read_le32(f, 16),
            char_size: read_le32(f, 20),
            height: read_le32(f, 24),
            width: read_le32(f, 28),
        };
        proof {
            assert(h.magic@ =~= seq![f@[0], f@[1], f@[2], f@[3]]);
        }
        Some(h)
    } else {
        None
    }
}

} // verus!
