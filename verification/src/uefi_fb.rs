//! Boot-firmware framebuffer: the drawing surface whose geometry is fixed
//! at boot from the display mode.
//!
//! Writes land directly in the surface's own pixel memory, so the present
//! operations are no-ops; the pixel grid underneath validates every
//! coordinate before it computes an offset.

use vstd::prelude::*;

verus! {

use crate::font::{get_glyph_index, spec_glyph_index};
use crate::surface::{glyph_paint, scroll_paint, PixelGrid};

/// A direct-mapped drawing surface.
pub struct Framebuffer {
    pub grid: PixelGrid,
}

impl Framebuffer {
    pub open spec fn wf(self) -> bool {
        self.grid.wf()
    }

    pub fn new(width: usize, height: usize, pitch: usize, color: u32) -> (fb: Framebuffer)
        requires
            width <= pitch,
            pitch * height <= usize::MAX,
        ensures
            fb.wf(),
            fb.grid.width == width,
            fb.grid.height == height,
            fb.grid.pitch == pitch,
            fb.grid.grid() == Seq::new((pitch * height) as nat, |i: int| color),
    {
        Framebuffer { grid: PixelGrid::new(width, height, pitch, color) }
    }

    /// Write one pixel; out-of-range coordinates are ignored.
    pub fn draw_pixel(&mut self, x: usize, y: usize, color: u32)
        requires
            old(self).wf(),
        ensures
            final(self).wf(),
            final(self).grid.same_geometry(old(self).grid),
            final(self).grid.grid() == if x < old(self).grid.width && y < old(self).grid.height {
                old(self).grid.grid().update(old(self).grid.index_of(x as int, y as int), color)
            } else {
                old(self).grid.grid()
            },
    {
        self.grid.draw_pixel(x, y, color);
    }

    /// Fill the whole addressable region with one colour.
    pub fn clear(&mut self, color: u32)
        requires
            old(self).wf(),
        ensures
            final(self).wf(),
            final(self).grid.same_geometry(old(self).grid),
            final(self).grid.grid() == Seq::new(old(self).grid.grid().len(), |i: int| color),
    {
        self.grid.clear(color);
    }

    /// Shift the rows up by `lines * char_height` pixel rows and fill the
    /// exposed band with the background colour (black when absent).
    pub fn scroll(&mut self, lines: usize, char_height: usize, bg_color: Option<u32>)
        requires
            old(self).wf(),
            lines * char_height <= usize::MAX,
        ensures
            final(self).wf(),
            final(self).grid.same_geometry(old(self).grid),
            final(self).grid.grid() == if lines * char_height == 0 || lines * char_height >= old(
                self,
            ).grid.height {
                old(self).grid.grid()
            } else {
                scroll_paint(
                    old(self).grid.grid(),
                    old(self).grid.pitch as int,
                    (lines * char_height) as int,
                    match bg_color {
                        Some(b) => b,
                        None => 0,
                    },
                )
            },
    {
        let bg = match bg_color {
            Some(b) => b,
            None => 0,
        };
        self.grid.scroll(lines, char_height, bg);
    }

    /// Draw one character's glyph with an opaque background.
    pub fn draw_char(&mut self, font: &Vec<u8>, c: char, x: usize, y: usize, color: u32)
        requires
            old(self).wf(),
        ensures
            final(self).wf(),
            final(self).grid.same_geometry(old(self).grid),
            final(self).grid.grid() == glyph_paint(
                old(self).grid.grid(),
                old(self).grid.width as int,
                old(self).grid.height as int,
                old(self).grid.pitch as int,
                font@,
                spec_glyph_index(c),
                x as int,
                y as int,
                color,
                Option::<u32>::None,
            ),
    {
        self.draw_char_ex(font, c, x, y, color, None);
    }

    /// Draw one character's glyph. Set bits take the foreground colour;
    /// clear bits take the background colour, or stay untouched when the
    /// background is transparent.
    pub fn draw_char_ex(
        &mut self,
        font: &Vec<u8>,
        c: char,
        x: usize,
        y: usize,
        color: u32,
        bg: Option<u32>,
    )
        requires
            old(self).wf(),
        ensures
            final(self).wf(),
            final(self).grid.same_geometry(old(self).grid),
            final(self).grid.grid() == glyph_paint(
                old(self).grid.grid(),
                old(self).grid.width as int,
                old(self).grid.height as int,
                old(self).grid.pitch as int,
                font@,
                spec_glyph_index(c),
                x as int,
                y as int,
                color,
                bg,
            ),
    {
        let glyph = get_glyph_index(c);
        self.grid.draw_glyph(font, glyph, x, y, color, bg);
    }
}

} // verus!
