//! Bounds-checked pixel grid: the drawing target shared by both
//! framebuffer variants.
//!
//! The grid owns its pixel memory as a flat row-major vector of
//! `pitch * height` colour values; a row may be wider than the visible
//! width (`width <= pitch`). Every accessor validates coordinates before
//! computing an offset, so no operation can write outside the grid:
//! out-of-range pixel writes are silent no-ops, and a glyph whose bounding
//! box would leave the grid draws nothing at all rather than clip.

use vstd::prelude::*;

verus! {

use vstd::pervasive::VecAdditionalExecFns;
use vstd::arithmetic::div_mod::{
    lemma_fundamental_div_mod, lemma_fundamental_div_mod_converse,
};
use crate::font::{font_present, glyph_bit, glyph_height, glyph_readable, glyph_width};

/// A flat row-major grid of pixels.
pub struct PixelGrid {
    pub width: usize,
    pub height: usize,
    pub pitch: usize,
    pub pixels: Vec<u32>,
}

/// Whether a glyph can be drawn at all: its rows are inside the font blob
/// and its bounding box is inside the visible area.
pub open spec fn glyph_renderable(
    f: Seq<u8>,
    g: int,
    width: int,
    height: int,
    x: int,
    y: int,
) -> bool {
    &&& glyph_readable(f, g)
    &&& x + glyph_width(f) <= width
    &&& y + glyph_height(f) <= height
}

/// The colour a covered cell receives: the foreground for a set bit, the
/// background for a clear bit, or its old colour when the background is
/// transparent.
pub open spec fn glyph_cell_colour(
    grid: Seq<u32>,
    f: Seq<u8>,
    g: int,
    x: int,
    y: int,
    fg: u32,
    bg: Option<u32>,
    pitch: int,
    i: int,
) -> u32 {
    if glyph_bit(f, g, i / pitch - y, i % pitch - x) {
        fg
    } else {
        match bg {
            Some(b) => b,
            None => grid[i],
        }
    }
}

/// Whether flat index `i` lies inside the glyph's bounding box.
pub open spec fn glyph_covers(f: Seq<u8>, x: int, y: int, pitch: int, i: int) -> bool {
    &&& y <= i / pitch < y + glyph_height(f)
    &&& x <= i % pitch < x + glyph_width(f)
}

/// The whole grid after one glyph is drawn: covered cells take their glyph
/// colour, all others are untouched; nothing changes when the glyph is not
/// renderable.
pub open spec fn glyph_paint(
    grid: Seq<u32>,
    width: int,
    height: int,
    pitch: int,
    f: Seq<u8>,
    g: int,
    x: int,
    y: int,
    fg: u32,
    bg: Option<u32>,
) -> Seq<u32> {
    if glyph_renderable(f, g, width, height, x, y) {
        Seq::new(
            grid.len(),
            |i: int|
                if glyph_covers(f, x, y, pitch, i) {
                    glyph_cell_colour(grid, f, g, x, y, fg, bg, pitch, i)
                } else {
                    grid[i]
                },
        )
    } else {
        grid
    }
}

/// The grid while a glyph is being drawn: rows before `r` are fully
/// painted, and in row `r` the columns before `c` are painted.
pub open spec fn glyph_paint_partial(
    grid: Seq<u32>,
    pitch: int,
    f: Seq<u8>,
    g: int,
    x: int,
    y: int,
    fg: u32,
    bg: Option<u32>,
    r: int,
    c: int,
) -> Seq<u32> {
    Seq::new(
        grid.len(),
        |i: int|
            if glyph_covers(f, x, y, pitch, i) && (i / pitch - y < r || (i / pitch - y == r && i
                % pitch - x < c)) {
                glyph_cell_colour(grid, f, g, x, y, fg, bg, pitch, i)
            } else {
                grid[i]
            },
    )
}

/// Whether flat index `i` lies inside the rectangle with top-left corner
/// `(x, y)`, `w` columns wide and `h` rows tall, clipped to the visible
/// area.
pub open spec fn rect_covers(
    width: int,
    height: int,
    pitch: int,
    x: int,
    y: int,
    w: int,
    h: int,
    i: int,
) -> bool {
    &&& y <= i / pitch < y + h
    &&& x <= i % pitch < x + w
    &&& i / pitch < height
    &&& i % pitch < width
}

/// The grid after a rectangle is filled with one colour; pixels outside
/// the visible area are left untouched.
pub open spec fn rect_paint(
    grid: Seq<u32>,
    width: int,
    height: int,
    pitch: int,
    x: int,
    y: int,
    w: int,
    h: int,
    color: u32,
) -> Seq<u32> {
    Seq::new(
        grid.len(),
        |i: int|
            if rect_covers(width, height, pitch, x, y, w, h, i) {
                color
            } else {
                grid[i]
            },
    )
}

/// The grid while a rectangle is being filled: rows before `r` are done,
/// and in row `r` the columns before `c` are done.
pub open spec fn rect_paint_partial(
    grid: Seq<u32>,
    width: int,
    height: int,
    pitch: int,
    x: int,
    y: int,
    w: int,
    h: int,
    color: u32,
    r: int,
    c: int,
) -> Seq<u32> {
    Seq::new(
        grid.len(),
        |i: int|
            if rect_covers(width, height, pitch, x, y, w, h, i) && (i / pitch - y < r || (i / pitch
                - y == r && i % pitch - x < c)) {
                color
            } else {
                grid[i]
            },
    )
}

/// The grid after a block scroll: rows shift up by `px` pixel rows and the
/// exposed bottom band is filled with the background colour.
pub open spec fn scroll_paint(grid: Seq<u32>, pitch: int, px: int, bg: u32) -> Seq<u32> {
    Seq::new(
        grid.len(),
        |i: int|
            if i < grid.len() - px * pitch {
                grid[i + px * pitch]
            } else {
                bg
            },
    )
}

impl PixelGrid {
    /// The pixel memory, row-major, one `u32` colour per pixel.
    pub open spec fn grid(self) -> Seq<u32> {
        self.pixels@
    }

    pub open spec fn wf(self) -> bool {
        &&& self.width <= self.pitch
        &&& self.grid().len() == self.pitch * self.height
    }

    /// The flat index of coordinate `(x, y)`.
    pub open spec fn index_of(self, x: int, y: int) -> int {
        y * self.pitch + x
    }

    /// The colour at coordinate `(x, y)`.
    pub open spec fn pixel(self, x: int, y: int) -> u32 {
        self.grid()[self.index_of(x, y)]
    }

    /// Geometry is never changed by drawing operations.
    pub open spec fn same_geometry(self, other: PixelGrid) -> bool {
        self.width == other.width && self.height == other.height && self.pitch == other.pitch
    }

    /// A grid of the given geometry with every pixel set to `color`.
    pub fn new(width: usize, height: usize, pitch: usize, color: u32) -> (g: PixelGrid)
        requires
            width <= pitch,
            pitch * height <= usize::MAX,
        ensures
            g.wf(),
            g.width == width,
            g.height == height,
            g.pitch == pitch,
            g.grid() == Seq::new((pitch * height) as nat, |i: int| color),
    {
        proof {
            vstd::arithmetic::mul::lemma_mul_nonnegative(pitch as int, height as int);
        }
        let total: usize = pitch * height;
        let mut pixels: Vec<u32> = Vec::new();
        let mut i: usize = 0;
        while i < total
            invariant
                i <= total,
                pixels@.len() == i,
                forall|j: int| 0 <= j < i ==> pixels@[j] == color,
            decreases total - i,
        {
            pixels.push(color);
            i = i + 1;
        }
        let g = PixelGrid { width, height, pitch, pixels };
        proof {
            assert(g.grid() =~= Seq::new((pitch * height) as nat, |i: int| color));
        }
        g
    }

    /// Bounds on the flat index of an in-range coordinate.
    proof fn lemma_index_in_range(self, x: int, y: int)
        requires
            self.wf(),
            0 <= x < self.pitch,
            0 <= y < self.height,
        ensures
            0 <= self.index_of(x, y) < self.grid().len(),
            self.index_of(x, y) / (self.pitch as int) == y,
            self.index_of(x, y) % (self.pitch as int) == x,
    {
        let p = self.pitch as int;
        assert(y * p + x < p * self.height && 0 <= y * p) by (nonlinear_arith)
            requires
                0 <= x < p,
                0 <= y < self.height,
        ;
        lemma_fundamental_div_mod_converse(y * p + x, p, y, x);
    }

    /// Write one pixel; coordinates outside the grid are ignored.
    pub fn draw_pixel(&mut self, x: usize, y: usize, color: u32)
        requires
            old(self).wf(),
        ensures
            final(self).wf(),
            final(self).same_geometry(*old(self)),
            final(self).grid() == if x < old(self).width && y < old(self).height {
                old(self).grid().update(old(self).index_of(x as int, y as int), color)
            } else {
                old(self).grid()
            },
    {
        if x < self.width && y < self.height {
            let total: usize = self.pixels.len();
            proof {
                self.lemma_index_in_range(x as int, y as int);
                assert(self.index_of(x as int, y as int) < total);
            }
            let idx: usize = y * self.pitch + x;
            self.pixels.set(idx, color);
        }
    }

    /// The colour currently at an in-range coordinate.
    pub fn pixel_at(&self, x: usize, y: usize) -> (p: u32)
        requires
            self.wf(),
            x < self.width,
            y < self.height,
        ensures
            p == self.pixel(x as int, y as int),
    {
        let total: usize = self.pixels.len();
        proof {
            self.lemma_index_in_range(x as int, y as int);
            assert(self.index_of(x as int, y as int) < total);
        }
        self.pixels[y * self.pitch + x]
    }

    /// Fill the entire addressable region with one colour.
    pub fn clear(&mut self, color: u32)
        requires
            old(self).wf(),
        ensures
            final(self).wf(),
            final(self).same_geometry(*old(self)),
            final(self).grid() == Seq::new(old(self).grid().len(), |i: int| color),
    {
        let total: usize = self.pixels.len();
        let mut i: usize = 0;
        while i < total
            invariant
                i <= total,
                self.pixels@.len() == total,
                self.width == old(self).width,
                self.height == old(self).height,
                self.pitch == old(self).pitch,
                forall|j: int| 0 <= j < i ==> self.pixels@[j] == color,
                forall|j: int| i <= j < total ==> self.pixels@[j] == old(self).pixels@[j],
            decreases total - i,
        {
            self.pixels.set(i, color);
            i = i + 1;
        }
        proof {
            assert(self.grid() =~= Seq::new(old(self).grid().len(), |i: int| color));
        }
    }

    /// Draw one glyph of the font blob with its top-left corner at
    /// `(x, y)`: set bits take the foreground colour, clear bits take the
    /// background colour, or are left untouched when the background is
    /// transparent. Nothing is drawn when the blob has no recognised
    /// magic, when the glyph's rows lie outside the blob, or when its
    /// bounding box would leave the visible area.
    pub fn draw_glyph(&mut self, font: &Vec<u8>, glyph: usize, x: usize, y: usize, fg: u32, bg: Option<u32>)
        requires
            old(self).wf(),
            glyph < 256,
        ensures
            final(self).wf(),
            final(self).same_geometry(*old(self)),
            final(self).grid() == glyph_paint(
                old(self).grid(),
                old(self).width as int,
                old(self).height as int,
                old(self).pitch as int,
                font@,
                glyph as int,
                x as int,
                y as int,
                fg,
                bg,
            ),
    {
        let flen: usize = font.len();
        let is1 = flen >= 4 && font[0] == 0x36 && font[1] == 0x04;
        let is2 = !is1 && flen >= 32 && font[0] == 0x72 && font[1] == 0xb5 && font[2] == 0x4a
            && font[3] == 0x86;
        if !is1 && !is2 {
            proof {
                assert(!font_present(font@));
            }
            return ;
        }
        let gw: u64;
        let gh: u64;
        let off: u64;
        let bpl: u64;
        if is1 {
            let cs = font[3] as u64;
            gw = 8;
            gh = cs;
            proof {
                vstd::arithmetic::mul::lemma_mul_upper_bound(glyph as int, 255, cs as int, 255);
            }
            off = 4 + glyph as u64 * cs;
            bpl = 1;
        } else {
            let hs = crate::font::read_le32(font, 8) as u64;
            let cs = crate::font::read_le32(font, 20) as u64;
            let h = crate::font::read_le32(font, 24) as u64;
            let w = crate::font::read_le32(font, 28) as u64;
            gw = w;
            gh = h;
            proof {
                vstd::arithmetic::mul::lemma_mul_upper_bound(
                    glyph as int,
                    255,
                    cs as int,
                    0xFFFFFFFF,
                );
            }
            off = hs + glyph as u64 * cs;
            bpl = (w + 7) / 8;
        }
        proof {
            assert(gw == glyph_width(font@));
            assert(gh == glyph_height(font@));
            assert(off == crate::font::glyph_offset(font@, glyph as int));
            assert(bpl == crate::font::bytes_per_line(font@));
            vstd::arithmetic::mul::lemma_mul_upper_bound(
                gh as int,
                0xFFFFFFFF,
                bpl as int,
                0x20000001,
            );
            assert(bpl <= 0x20000001) by {
                if !is1 {
                    vstd::arithmetic::div_mod::lemma_div_is_ordered(
                        gw as int + 7,
                        0x100000006,
                        8,
                    );
                }
            }
        }
        proof {
            assert(bpl == (gw + 7) / 8) by {
                if is1 {
                    assert(15int / 8 == 1);
                }
            }
        }
        if off + gh * bpl > flen as u64 {
            proof {
                assert(!glyph_readable(font@, glyph as int));
            }
            return ;
        }
        if x > self.width || gw > (self.width - x) as u64 || y > self.height || gh > (self.height
            - y) as u64 {
            return ;
        }
        let gw_s: usize = gw as usize;
        let gh_s: usize = gh as usize;
        let ghost gi = glyph as int;
        let ghost f = font@;
        let ghost pit = self.pitch as int;
        let ghost grid0 = self.grid();
        proof {
            assert(glyph_renderable(f, gi, self.width as int, self.height as int, x as int, y as int));
        }
        let mut r: usize = 0;
        while r < gh_s
            invariant
                self.wf(),
                self.same_geometry(*old(self)),
                r <= gh_s,
                glyph < 256,
                f == font@,
                gi == glyph as int,
                pit == self.pitch as int,
                grid0 == old(self).grid(),
                gw == glyph_width(f),
                gh == glyph_height(f),
                off == crate::font::glyph_offset(f, gi),
                bpl == crate::font::bytes_per_line(f),
                bpl as int == (gw as int + 7) / 8,
                gw_s == gw && gh_s == gh,
                off + gh * bpl <= flen <= usize::MAX,
                flen == f.len(),
                x + gw <= self.width,
                y + gh <= self.height,
                glyph_renderable(f, gi, self.width as int, self.height as int, x as int, y as int),
                self.grid() == glyph_paint_partial(
                    grid0,
                    pit,
                    f,
                    gi,
                    x as int,
                    y as int,
                    fg,
                    bg,
                    r as int,
                    0,
                ),
            decreases gh_s - r,
        {
            proof {
                vstd::arithmetic::mul::lemma_mul_inequality(r as int, gh as int, bpl as int);
                vstd::arithmetic::mul::lemma_mul_inequality(r as int + 1, gh as int, bpl as int);
                vstd::arithmetic::mul::lemma_mul_is_distributive_add_other_way(
                    bpl as int,
                    r as int,
                    1,
                );
            }
            let row_base: u64 = off + r as u64 * bpl;
            let mut c: usize = 0;
            while c < gw_s
                invariant
                    self.wf(),
                    self.same_geometry(*old(self)),
                    r < gh_s,
                    c <= gw_s,
                    glyph < 256,
                    f == font@,
                    gi == glyph as int,
                    pit == self.pitch as int,
                    grid0 == old(self).grid(),
                    gw == glyph_width(f),
                    gh == glyph_height(f),
                    off == crate::font::glyph_offset(f, gi),
                    bpl == crate::font::bytes_per_line(f),
                    bpl as int == (gw as int + 7) / 8,
                    gw_s == gw && gh_s == gh,
                    off + gh * bpl <= flen <= usize::MAX,
                    flen == f.len(),
                    x + gw <= self.width,
                    y + gh <= self.height,
                    glyph_renderable(
                        f,
                        gi,
                        self.width as int,
                        self.height as int,
                        x as int,
                        y as int,
                    ),
                    row_base == off + r * bpl,
                    row_base + bpl <= off + gh * bpl,
                    self.grid() == glyph_paint_partial(
                        grid0,
                        pit,
                        f,
                        gi,
                        x as int,
                        y as int,
                        fg,
                        bg,
                        r as int,
                        c as int,
                    ),
                decreases gw_s - c,
            {
                proof {
                    vstd::arithmetic::div_mod::lemma_div_is_ordered(c as int, gw as int - 1, 8);
                    vstd::arithmetic::div_mod::lemma_div_plus_one(gw as int - 1, 8);
                    vstd::arithmetic::div_mod::lemma_div_pos_is_pos(c as int, 8);
                    vstd::arithmetic::div_mod::lemma_mod_division_less_than_divisor(c as int, 8);
                }
                let byte_index: u64 = row_base + c as u64 / 8;
                let byte: u8 = font[byte_index as usize];
                let rem: usize = c % 8;
                let sh: u8 = (7 - rem) as u8;
                let bit = (byte >> sh) & 1 == 1;
                proof {
                    assert(sh == (7 - (c as int % 8)) as u8);
                    assert(byte == f[crate::font::glyph_offset(f, gi) + r * crate::font::bytes_per_line(f) + c as int / 8]);
                    assert(bit == glyph_bit(f, gi, r as int, c as int));
                    assert(self.pitch > 0);
                    self.lemma_index_in_range((x + c) as int, (y + r) as int);
                }
                let ghost before = self.grid();
                let ghost target = self.index_of((x + c) as int, (y + r) as int);
                if bit {
                    self.draw_pixel(x + c, y + r, fg);
                } else {
                    match bg {
                        Some(b) => {
                            self.draw_pixel(x + c, y + r, b);
                        },
                        None => {},
                    }
                }
                proof {
                    let p2 = glyph_paint_partial(
                        grid0,
                        pit,
                        f,
                        gi,
                        x as int,
                        y as int,
                        fg,
                        bg,
                        r as int,
                        c + 1,
                    );
                    assert forall|i: int| 0 <= i < grid0.len() implies self.grid()[i] == p2[i] by {
                        lemma_fundamental_div_mod(i, pit);
                        if i == target {
                            assert(i / pit == y + r);
                            assert(i % pit == x + c);
                            assert(glyph_covers(f, x as int, y as int, pit, i));
                            assert(p2[i] == glyph_cell_colour(
                                grid0,
                                f,
                                gi,
                                x as int,
                                y as int,
                                fg,
                                bg,
                                pit,
                                i,
                            ));
                            if bit {
                                assert(self.grid()[i] == fg);
                            } else {
                                match bg {
                                    Some(b) => {
                                        assert(self.grid()[i] == b);
                                    },
                                    None => {
                                        assert(self.grid()[i] == before[i]);
                                        assert(before[i] == grid0[i]);
                                    },
                                }
                            }
                        } else {
                            assert(self.grid()[i] == before[i]);
                            if glyph_covers(f, x as int, y as int, pit, i) && i / pit - y == r && i
                                % pit - x == c {
                                assert(i == pit * (i / pit) + i % pit);
                                assert(i / pit == y + r);
                                assert(i % pit == x + c);
                                assert(i == pit * (y + r) + (x + c));
                                vstd::arithmetic::mul::lemma_mul_is_commutative(pit, y + r);
                                assert(target == (y + r) * pit + (x + c));
                                assert(i == target);
                                assert(false);
                            }
                        }
                    }
                    assert(self.grid() =~= glyph_paint_partial(
                        grid0,
                        pit,
                        f,
                        gi,
                        x as int,
                        y as int,
                        fg,
                        bg,
                        r as int,
                        c + 1,
                    ));
                }
                c = c + 1;
            }
            proof {
                assert(self.grid() =~= glyph_paint_partial(
                    grid0,
                    pit,
                    f,
                    gi,
                    x as int,
                    y as int,
                    fg,
                    bg,
                    r as int + 1,
                    0,
                ));
            }
            r = r + 1;
        }
        proof {
            assert(self.grid() =~= glyph_paint(
                grid0,
                old(self).width as int,
                old(self).height as int,
                pit,
                f,
                gi,
                x as int,
                y as int,
                fg,
                bg,
            ));
        }
    }

    /// Fill a `w` by `h` rectangle of pixels with one colour, starting at
    /// `(x, y)`; the part of the rectangle outside the visible area is
    /// ignored.
    pub fn fill_rect(&mut self, x: usize, y: usize, w: usize, h: usize, color: u32)
        requires
            old(self).wf(),
            x + w <= usize::MAX,
            y + h <= usize::MAX,
        ensures
            final(self).wf(),
            final(self).same_geometry(*old(self)),
            final(self).grid() == rect_paint(
                old(self).grid(),
                old(self).width as int,
                old(self).height as int,
                old(self).pitch as int,
                x as int,
                y as int,
                w as int,
                h as int,
                color,
            ),
    {
        let ghost pit = self.pitch as int;
        let ghost grid0 = self.grid();
        let ghost wd = self.width as int;
        let ghost ht = self.height as int;
        let mut r: usize = 0;
        while r < h
            invariant
                self.wf(),
                self.same_geometry(*old(self)),
                r <= h,
                x + w <= usize::MAX,
                y + h <= usize::MAX,
                pit == self.pitch as int,
                wd == self.width as int,
                ht == self.height as int,
                grid0 == old(self).grid(),
                self.grid() == rect_paint_partial(
                    grid0,
                    wd,
                    ht,
                    pit,
                    x as int,
                    y as int,
                    w as int,
                    h as int,
                    color,
                    r as int,
                    0,
                ),
            decreases h - r,
        {
            let mut c: usize = 0;
            while c < w
                invariant
                    self.wf(),
                    self.same_geometry(*old(self)),
                    r < h,
                    c <= w,
                    x + w <= usize::MAX,
                    y + h <= usize::MAX,
                    pit == self.pitch as int,
                    wd == self.width as int,
                    ht == self.height as int,
                    grid0 == old(self).grid(),
                    self.grid() == rect_paint_partial(
                        grid0,
                        wd,
                        ht,
                        pit,
                        x as int,
                        y as int,
                        w as int,
                        h as int,
                        color,
                        r as int,
                        c as int,
                    ),
                decreases w - c,
            {
                let ghost before = self.grid();
                let ghost target = self.index_of((x + c) as int, (y + r) as int);
                proof {
                    if x + c < self.width && y + r < self.height {
                        self.lemma_index_in_range((x + c) as int, (y + r) as int);
                    }
                }
                self.draw_pixel(x + c, y + r, color);
                proof {
                    let p2 = rect_paint_partial(
                        grid0,
                        wd,
                        ht,
                        pit,
                        x as int,
                        y as int,
                        w as int,
                        h as int,
                        color,
                        r as int,
                        c + 1,
                    );
                    assert forall|i: int| 0 <= i < grid0.len() implies self.grid()[i] == p2[i] by {
                        if pit > 0 {
                            lemma_fundamental_div_mod(i, pit);
                        }
                        if x + c < wd && y + r < ht {
                            if i != target && rect_covers(
                                wd,
                                ht,
                                pit,
                                x as int,
                                y as int,
                                w as int,
                                h as int,
                                i,
                            ) && i / pit - y == r && i % pit - x == c {
                                assert(i == pit * (i / pit) + i % pit);
                                assert(i / pit == y + r);
                                assert(i % pit == x + c);
                                assert(i == pit * (y + r) + (x + c));
                                vstd::arithmetic::mul::lemma_mul_is_commutative(pit, y + r);
                                assert(target == (y + r) * pit + (x + c));
                                assert(i == target);
                                assert(false);
                            }
                        }
                    }
                    assert(self.grid() =~= p2);
                }
                c = c + 1;
            }
            proof {
                assert(self.grid() =~= rect_paint_partial(
                    grid0,
                    wd,
                    ht,
                    pit,
                    x as int,
                    y as int,
                    w as int,
                    h as int,
                    color,
                    r as int + 1,
                    0,
                ));
            }
            r = r + 1;
        }
        proof {
            assert(self.grid() =~= rect_paint(
                grid0,
                wd,
                ht,
                pit,
                x as int,
                y as int,
                w as int,
                h as int,
                color,
            ));
        }
    }

    /// Shift the pixel rows up by `lines * line_height_px` rows and fill
    /// the newly exposed bottom band with `bg`. A shift of zero rows, or of
    /// the whole height or more, changes nothing.
    pub fn scroll(&mut self, lines: usize, line_height_px: usize, bg: u32)
        requires
            old(self).wf(),
            lines * line_height_px <= usize::MAX,
        ensures
            final(self).wf(),
            final(self).same_geometry(*old(self)),
            final(self).grid() == if lines * line_height_px == 0 || lines * line_height_px
                >= old(self).height {
                old(self).grid()
            } else {
                scroll_paint(
                    old(self).grid(),
                    old(self).pitch as int,
                    (lines * line_height_px) as int,
                    bg,
                )
            },
    {
        proof {
            vstd::arithmetic::mul::lemma_mul_nonnegative(lines as int, line_height_px as int);
        }
        let px: usize = lines * line_height_px;
        if px == 0 || px >= self.height {
            return ;
        }
        let total: usize = self.pixels.len();
        proof {
            assert((self.height - px) * self.pitch + px * self.pitch == self.height * self.pitch
                && 0 <= (self.height - px) * self.pitch && 0 <= px * self.pitch && self.height
                * self.pitch == self.pitch * self.height) by (nonlinear_arith)
                requires
                    0 < px < self.height,
            ;
        }
        let keep: usize = (self.height - px) * self.pitch;
        let shift: usize = px * self.pitch;
        let mut i: usize = 0;
        while i < keep
            invariant
                i <= keep,
                keep + shift == total,
                shift == px * self.pitch,
                self.pixels@.len() == total,
                self.width == old(self).width,
                self.height == old(self).height,
                self.pitch == old(self).pitch,
                forall|j: int| 0 <= j < i ==> self.pixels@[j] == old(self).pixels@[j + shift],
                forall|j: int| i <= j < total ==> self.pixels@[j] == old(self).pixels@[j],
            decreases keep - i,
        {
            let v = self.pixels[i + shift];
            self.pixels.set(i, v);
            i = i + 1;
        }
        let mut j: usize = keep;
        while j < total
            invariant
                keep <= j <= total,
                keep + shift == total,
                shift == px * self.pitch,
                self.pixels@.len() == total,
                self.width == old(self).width,
                self.height == old(self).height,
                self.pitch == old(self).pitch,
                forall|k: int| 0 <= k < keep ==> self.pixels@[k] == old(self).pixels@[k + shift],
                forall|k: int| keep <= k < j ==> self.pixels@[k] == bg,
            decreases total - j,
        {
            self.pixels.set(j, bg);
            j = j + 1;
        }
        proof {
            assert(self.grid() =~= scroll_paint(
                old(self).grid(),
                old(self).pitch as int,
                px as int,
                bg,
            ));
        }
    }
}

} // verus!
