//! Polymorphic rendering backend: the operation set the console is written
//! against, and the tagged pair of concrete surfaces behind it.
//!
//! Switching backends at runtime replaces the surface behind the same
//! operations without touching cursor or line state, which lives in the
//! console above this layer.

use vstd::prelude::*;

verus! {

use crate::font::spec_glyph_index;
use crate::gpu_fb::Framebuffer as GpuFb;
use crate::surface::{glyph_paint, scroll_paint, PixelGrid};
use crate::uefi_fb::Framebuffer as UefiFb;

/// The concrete surface a console draws on.
pub enum Backend {
    Uefi(UefiFb),
    Gpu(GpuFb),
}

impl Backend {
    /// The pixel grid behind the active variant.
    pub open spec fn grid(self) -> PixelGrid {
        match self {
            Backend::Uefi(fb) => fb.grid,
            Backend::Gpu(fb) => fb.grid,
        }
    }
}

/// The operation set the console is written against. Both variants draw
/// straight into their own pixel memory, so the present operations are
/// no-ops; contracts are stated over the backing grid.
pub trait GraphicBackend {
    spec fn backing(&self) -> PixelGrid;

    fn width(&self) -> (w: usize)
        ensures
            w == self.backing().width,
    ;

    fn height(&self) -> (h: usize)
        ensures
            h == self.backing().height,
    ;

    fn pitch(&self) -> (p: usize)
        ensures
            p == self.backing().pitch,
    ;

    /// Write one pixel; out-of-range coordinates are ignored.
    fn draw_pixel(&mut self, x: usize, y: usize, color: u32)
        requires
            old(self).backing().wf(),
        ensures
            final(self).backing().wf(),
            final(self).backing().same_geometry(old(self).backing()),
            final(self).backing().grid() == if x < old(self).backing().width && y < old(
                self,
            ).backing().height {
                old(self).backing().grid().update(
                    old(self).backing().index_of(x as int, y as int),
                    color,
                )
            } else {
                old(self).backing().grid()
            },
    ;

    /// Fill a rectangle with one colour; the part outside the visible
    /// area is ignored.
    fn fill_rect(&mut self, x: usize, y: usize, w: usize, h: usize, color: u32)
        requires
            old(self).backing().wf(),
            x + w <= usize::MAX,
            y + h <= usize::MAX,
        ensures
            final(self).backing().wf(),
            final(self).backing().same_geometry(old(self).backing()),
            final(self).backing().grid() == crate::surface::rect_paint(
                old(self).backing().grid(),
                old(self).backing().width as int,
                old(self).backing().height as int,
                old(self).backing().pitch as int,
                x as int,
                y as int,
                w as int,
                h as int,
                color,
            ),
    ;

    /// Fill the whole addressable region with one colour.
    fn clear(&mut self, color: u32)
        requires
            old(self).backing().wf(),
        ensures
            final(self).backing().wf(),
            final(self).backing().same_geometry(old(self).backing()),
            final(self).backing().grid() == Seq::new(
                old(self).backing().grid().len(),
                |i: int| color,
            ),
    ;

    /// Draw one character's glyph; a transparent background leaves
    /// clear-bit pixels untouched.
    fn draw_char(&mut self, font: &Vec<u8>, c: char, x: usize, y: usize, color: u32, bg: Option<
        u32,
    >)
        requires
            old(self).backing().wf(),
        ensures
            final(self).backing().wf(),
            final(self).backing().same_geometry(old(self).backing()),
            final(self).backing().grid() == glyph_paint(
                old(self).backing().grid(),
                old(self).backing().width as int,
                old(self).backing().height as int,
                old(self).backing().pitch as int,
                font@,
                spec_glyph_index(c),
                x as int,
                y as int,
                color,
                bg,
            ),
    ;

    /// Shift the rows up by `lines * char_height` pixel rows and fill the
    /// exposed band with the background colour (black when absent).
    fn scroll(&mut self, lines: usize, char_height: usize, bg_color: Option<u32>)
        requires
            old(self).backing().wf(),
            lines * char_height <= usize::MAX,
        ensures
            final(self).backing().wf(),
            final(self).backing().same_geometry(old(self).backing()),
            final(self).backing().grid() == if lines * char_height == 0 || lines * char_height
                >= old(self).backing().height {
                old(self).backing().grid()
            } else {
                scroll_paint(
                    old(self).backing().grid(),
                    old(self).backing().pitch as int,
                    (lines * char_height) as int,
                    match bg_color {
                        Some(b) => b,
                        None => 0,
                    },
                )
            },
    ;

    /// Present the whole surface: a no-op for both direct-write variants.
    fn swap_buffers(&self)
    ;

    /// Present one region: a no-op for both direct-write variants.
    fn swap_rect(&self, x: usize, y: usize, w: usize, h: usize)
    ;
}

impl GraphicBackend for Backend {
    open spec fn backing(&self) -> PixelGrid {
        self.grid()
    }

    fn width(&self) -> (w: usize) {
        match self {
            Backend::Uefi(fb) => fb.grid.width,
            Backend::Gpu(fb) => fb.grid.width,
        }
    }

    fn height(&self) -> (h: usize) {
        match self {
            Backend::Uefi(fb) => fb.grid.height,
            Backend::Gpu(fb) => fb.grid.height,
        }
    }

    fn pitch(&self) -> (p: usize) {
        match self {
            Backend::Uefi(fb) => fb.grid.pitch,
            Backend::Gpu(fb) => fb.grid.pitch,
        }
    }

    fn draw_pixel(&mut self, x: usize, y: usize, color: u32) {
        match self {
            Backend::Uefi(fb) => fb.draw_pixel(x, y, color),
            Backend::Gpu(fb) => fb.draw_pixel(x, y, color),
        }
    }

    fn fill_rect(&mut self, x: usize, y: usize, w: usize, h: usize, color: u32) {
        match self {
            Backend::Uefi(fb) => fb.grid.fill_rect(x, y, w, h, color),
            Backend::Gpu(fb) => fb.grid.fill_rect(x, y, w, h, color),
        }
    }

    fn clear(&mut self, color: u32) {
        match self {
            Backend::Uefi(fb) => fb.clear(color),
            Backend::Gpu(fb) => fb.clear(color),
        }
    }

    fn draw_char(&mut self, font: &Vec<u8>, c: char, x: usize, y: usize, color: u32, bg: Option<
        u32,
    >) {
        match self {
            Backend::Uefi(fb) => fb.draw_char_ex(font, c, x, y, color, bg),
            Backend::Gpu(fb) => fb.draw_char_ex(font, c, x, y, color, bg),
        }
    }

    fn scroll(&mut self, lines: usize, char_height: usize, bg_color: Option<u32>) {
        match self {
            Backend::Uefi(fb) => fb.scroll(lines, char_height, bg_color),
            Backend::Gpu(fb) => fb.scroll(lines, char_height, bg_color),
        }
    }

    fn swap_buffers(&self) {
        match self {
            Backend::Uefi(_) => {},
            Backend::Gpu(fb) => fb.swap_buffers(),
        }
    }

    fn swap_rect(&self, x: usize, y: usize, w: usize, h: usize) {
        match self {
            Backend::Uefi(_) => {},
            Backend::Gpu(fb) => fb.swap_rect(x, y, w, h),
        }
    }
}

} // verus!
