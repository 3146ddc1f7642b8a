//! Console facade: cursor, colours, blink and line-wrap/scroll policy over
//! a render backend.
//!
//! Characters advance the cursor by a fixed cell width; a write that would
//! pass the right edge wraps to the left margin of the next line, and a
//! wrap on the bottom line scrolls the surface up by one line instead. The
//! cursor block blinks under a tick counter and is redrawn around every
//! write. All pixel effects are stated exactly, as folds of the glyph,
//! rectangle and scroll paints of the surface layer.

use vstd::prelude::*;

verus! {

use crate::font::spec_glyph_index;
use crate::graphic::{Backend, GraphicBackend};
use crate::surface::{glyph_paint, rect_paint, scroll_paint};
use vstd::string::StrSliceExecFns;

/// Pixel column of the left margin, where every line starts.
pub const LEFT_MARGIN: usize = 20;

/// Horizontal advance of one character cell, in pixels.
pub const CHAR_WIDTH: usize = 9;

/// Height of one text line, in pixels.
pub const LINE_HEIGHT: usize = 20;

/// Number of ticks between blink toggles of the cursor block.
pub const BLINK_INTERVAL: u64 = 80;

/// Cursor position model: pixel coordinates and how many times the surface
/// has scrolled.
pub ghost struct CursorModel {
    pub x: int,
    pub y: int,
    pub scrolls: nat,
}

/// The cursor after a line feed: back to the margin, one line down, or a
/// scroll when the cursor is already on the bottom line.
pub open spec fn newline_cursor(s: CursorModel, height: int) -> CursorModel {
    if s.y + LINE_HEIGHT >= height {
        CursorModel { x: LEFT_MARGIN as int, y: height - LINE_HEIGHT, scrolls: s.scrolls + 1 }
    } else {
        CursorModel { x: LEFT_MARGIN as int, y: s.y + LINE_HEIGHT, scrolls: s.scrolls }
    }
}

/// The cursor after one character: a newline feeds the line; any other
/// character advances one cell and wraps when the next cell would pass the
/// right edge.
pub open spec fn advance_cursor(s: CursorModel, width: int, height: int, c: char) -> CursorModel {
    if c == '\n' {
        newline_cursor(s, height)
    } else {
        let s2 = CursorModel { x: s.x + CHAR_WIDTH, y: s.y, scrolls: s.scrolls };
        if s2.x + CHAR_WIDTH >= width {
            newline_cursor(s2, height)
        } else {
            s2
        }
    }
}

/// The cursor after a whole sequence of characters.
pub open spec fn advance_cursor_all(
    s: CursorModel,
    width: int,
    height: int,
    cs: Seq<char>,
) -> CursorModel
    decreases cs.len(),
{
    if cs.len() == 0 {
        s
    } else {
        advance_cursor(advance_cursor_all(s, width, height, cs.drop_last()), width, height, cs.last())
    }
}

/// The pixels after a line feed at cursor row `y`: unchanged, or scrolled
/// up one line with the exposed band in the background colour.
pub open spec fn newline_paint(grid: Seq<u32>, pitch: int, height: int, y: int, bg: u32) -> Seq<
    u32,
> {
    if y + LINE_HEIGHT >= height {
        scroll_paint(grid, pitch, LINE_HEIGHT as int, bg)
    } else {
        grid
    }
}

/// The pixels after one character is echoed at cursor state `s`: its glyph
/// over an opaque background, then the line-feed scroll if the character
/// was a newline or the advance wrapped.
pub open spec fn char_paint(
    grid: Seq<u32>,
    width: int,
    height: int,
    pitch: int,
    font: Seq<u8>,
    fg: u32,
    bg: u32,
    s: CursorModel,
    c: char,
) -> Seq<u32> {
    if c == '\n' {
        newline_paint(grid, pitch, height, s.y, bg)
    } else {
        let g2 = glyph_paint(
            grid,
            width,
            height,
            pitch,
            font,
            spec_glyph_index(c),
            s.x,
            s.y,
            fg,
            Some(bg),
        );
        if s.x + CHAR_WIDTH + CHAR_WIDTH >= width {
            newline_paint(g2, pitch, height, s.y, bg)
        } else {
            g2
        }
    }
}

/// The pixels after a whole sequence of characters is echoed.
pub open spec fn write_paint(
    grid: Seq<u32>,
    width: int,
    height: int,
    pitch: int,
    font: Seq<u8>,
    fg: u32,
    bg: u32,
    s: CursorModel,
    cs: Seq<char>,
) -> Seq<u32>
    decreases cs.len(),
{
    if cs.len() == 0 {
        grid
    } else {
        char_paint(
            write_paint(grid, width, height, pitch, font, fg, bg, s, cs.drop_last()),
            width,
            height,
            pitch,
            font,
            fg,
            bg,
            advance_cursor_all(s, width, height, cs.drop_last()),
            cs.last(),
        )
    }
}

/// The pixels after the cursor block is drawn: an 8 by 2 bar near the
/// bottom of the cell at `(x, y)`.
pub open spec fn cursor_paint(
    grid: Seq<u32>,
    width: int,
    height: int,
    pitch: int,
    x: int,
    y: int,
    color: u32,
) -> Seq<u32> {
    rect_paint(grid, width, height, pitch, x, y + 17, 8, 2, color)
}

/// The single stateful facade the rest of the kernel writes text through.
pub struct Console {
    pub backend: Backend,
    pub font: Vec<u8>,
    pub cursor_x: usize,
    pub cursor_y: usize,
    pub color: u32,
    pub bg_color: u32,
    pub line_start_x: usize,
    pub ticks: u64,
    pub cursor_visible: bool,
}

impl Console {
    pub open spec fn width(self) -> int {
        self.backend.grid().width as int
    }

    pub open spec fn height(self) -> int {
        self.backend.grid().height as int
    }

    pub open spec fn pitch(self) -> int {
        self.backend.grid().pitch as int
    }

    /// The pixels of the backing surface.
    pub open spec fn grid(self) -> Seq<u32> {
        self.backend.grid().grid()
    }

    /// The cursor position as a model value (with no scrolls recorded).
    pub open spec fn cursor(self) -> CursorModel {
        CursorModel { x: self.cursor_x as int, y: self.cursor_y as int, scrolls: 0 }
    }

    /// Well-formedness of everything but the cursor column: the surface,
    /// its minimum size, and the prompt column. Holds even in the middle of
    /// a write, when the cursor column may sit past the wrap threshold.
    pub open spec fn frame_wf(self) -> bool {
        &&& self.backend.grid().wf()
        &&& self.width() >= 2 * CHAR_WIDTH + LEFT_MARGIN + 1
        &&& self.height() >= 2 * LINE_HEIGHT
        &&& self.width() + LEFT_MARGIN <= usize::MAX
        &&& self.height() + 2 * LINE_HEIGHT <= usize::MAX
        &&& self.cursor_y < self.height()
        &&& LEFT_MARGIN <= self.line_start_x
        &&& self.line_start_x + CHAR_WIDTH < self.width()
        &&& self.line_start_x % CHAR_WIDTH == LEFT_MARGIN % CHAR_WIDTH
    }

    pub open spec fn wf(self) -> bool {
        &&& self.frame_wf()
        &&& LEFT_MARGIN <= self.cursor_x
        &&& self.cursor_x + CHAR_WIDTH < self.width()
        &&& self.cursor_x % CHAR_WIDTH == LEFT_MARGIN % CHAR_WIDTH
    }

    /// Geometry, font and colours a drawing operation never changes.
    pub open spec fn same_frame(self, other: Console) -> bool {
        &&& self.backend.grid().same_geometry(other.backend.grid())
        &&& self.font == other.font
        &&& self.color == other.color
        &&& self.bg_color == other.bg_color
        &&& self.line_start_x == other.line_start_x
        &&& self.ticks == other.ticks
    }

    /// A console over a freshly supplied backend and font blob, with the
    /// cursor at the margin, white on black.
    pub fn new(backend: Backend, font: Vec<u8>) -> (con: Console)
        requires
            backend.grid().wf(),
            backend.grid().width >= 2 * CHAR_WIDTH + LEFT_MARGIN + 1,
            backend.grid().height >= 2 * LINE_HEIGHT,
            backend.grid().width + LEFT_MARGIN <= usize::MAX,
            backend.grid().height + 2 * LINE_HEIGHT <= usize::MAX,
        ensures
            con.wf(),
            con.backend == backend,
            con.font == font,
            con.cursor_x == LEFT_MARGIN,
            con.cursor_y == LEFT_MARGIN,
            con.color == 0xFFFFFFu32,
            con.bg_color == 0u32,
            con.line_start_x == LEFT_MARGIN,
            con.ticks == 0u64,
            con.cursor_visible,
    {
        Console {
            backend,
            font,
            cursor_x: LEFT_MARGIN,
            cursor_y: LEFT_MARGIN,
            color: 0xFFFFFF,
            bg_color: 0x000000,
            line_start_x: LEFT_MARGIN,
            ticks: 0,
            cursor_visible: true,
        }
    }

    /// Set the foreground colour.
    pub fn set_color(&mut self, color: u32)
        ensures
            *final(self) == (Console { color, ..*old(self) }),
    {
        self.color = color;
    }

    /// Set the foreground and background colours.
    pub fn set_colors(&mut self, fg: u32, bg: u32)
        ensures
            *final(self) == (Console { color: fg, bg_color: bg, ..*old(self) }),
    {
        self.color = fg;
        self.bg_color = bg;
    }

    /// Pin the start of the editable line to the current cursor column, so
    /// that backspace and line clearing stop at the prompt.
    pub fn lock_prompt(&mut self)
        requires
            old(self).wf(),
        ensures
            final(self).wf(),
            *final(self) == (Console { line_start_x: old(self).cursor_x, ..*old(self) }),
    {
        self.line_start_x = self.cursor_x;
    }

    /// Draw the cursor block at the current position in the given colour.
    fn draw_cursor(&mut self, color: u32)
        requires
            old(self).wf(),
        ensures
            final(self).wf(),
            *final(self) == (Console { backend: final(self).backend, ..*old(self) }),
            final(self).backend.grid().same_geometry(old(self).backend.grid()),
            final(self).grid() == cursor_paint(
                old(self).grid(),
                old(self).width(),
                old(self).height(),
                old(self).pitch(),
                old(self).cursor_x as int,
                old(self).cursor_y as int,
                color,
            ),
    {
        self.backend.fill_rect(self.cursor_x, self.cursor_y + 17, 8, 2, color);
    }

    /// Count one timer tick; every `BLINK_INTERVAL` ticks the cursor block
    /// toggles between foreground and background colour.
    pub fn update(&mut self)
        requires
            old(self).wf(),
            old(self).ticks < u64::MAX,
        ensures
            final(self).wf(),
            final(self).ticks == old(self).ticks + 1,
            final(self).backend.grid().same_geometry(old(self).backend.grid()),
            final(self).font == old(self).font,
            final(self).color == old(self).color && final(self).bg_color == old(self).bg_color,
            final(self).cursor_x == old(self).cursor_x && final(self).cursor_y == old(
                self,
            ).cursor_y,
            final(self).line_start_x == old(self).line_start_x,
            if (old(self).ticks + 1) % (BLINK_INTERVAL as int) == 0 {
                &&& final(self).cursor_visible == !old(self).cursor_visible
                &&& final(self).grid() == cursor_paint(
                    old(self).grid(),
                    old(self).width(),
                    old(self).height(),
                    old(self).pitch(),
                    old(self).cursor_x as int,
                    old(self).cursor_y as int,
                    if !old(self).cursor_visible {
                        old(self).color
                    } else {
                        old(self).bg_color
                    },
                )
            } else {
                &&& final(self).cursor_visible == old(self).cursor_visible
                &&& final(self).grid() == old(self).grid()
            },
    {
        self.ticks = self.ticks + 1;
        if self.ticks % BLINK_INTERVAL == 0 {
            self.cursor_visible = !self.cursor_visible;
            let color = if self.cursor_visible {
                self.color
            } else {
                self.bg_color
            };
            self.draw_cursor(color);
        }
    }

    /// Feed the line: cursor to the margin, one line down, or a scroll of
    /// one line when the cursor is already on the bottom line.
    fn new_line_no_swap(&mut self)
        requires
            old(self).frame_wf(),
        ensures
            final(self).wf(),
            (*final(self)) == (Console {
                backend: final(self).backend,
                cursor_x: final(self).cursor_x,
                cursor_y: final(self).cursor_y,
                ..*old(self)
            }),
            final(self).backend.grid().same_geometry(old(self).backend.grid()),
            final(self).cursor_x as int == newline_cursor(old(self).cursor(), old(self).height()).x,
            final(self).cursor_y as int == newline_cursor(old(self).cursor(), old(self).height()).y,
            final(self).grid() == newline_paint(
                old(self).grid(),
                old(self).pitch(),
                old(self).height(),
                old(self).cursor_y as int,
                old(self).bg_color,
            ),
    {
        self.cursor_x = LEFT_MARGIN;
        let fb_height = self.backend.height();
        if self.cursor_y + LINE_HEIGHT >= fb_height {
            self.backend.scroll(1, LINE_HEIGHT, Some(self.bg_color));
            self.cursor_y = fb_height - LINE_HEIGHT;
        } else {
            self.cursor_y = self.cursor_y + LINE_HEIGHT;
        }
    }

    /// Echo one character at the cursor: a newline feeds the line; any
    /// other character draws its glyph over the background colour and
    /// advances the cursor, wrapping when the next cell would pass the
    /// right edge.
    fn internal_write_char(&mut self, c: char)
        requires
            old(self).wf(),
        ensures
            final(self).wf(),
            (*final(self)) == (Console {
                backend: final(self).backend,
                cursor_x: final(self).cursor_x,
                cursor_y: final(self).cursor_y,
                ..*old(self)
            }),
            final(self).backend.grid().same_geometry(old(self).backend.grid()),
            final(self).cursor_x as int == advance_cursor(
                old(self).cursor(),
                old(self).width(),
                old(self).height(),
                c,
            ).x,
            final(self).cursor_y as int == advance_cursor(
                old(self).cursor(),
                old(self).width(),
                old(self).height(),
                c,
            ).y,
            final(self).grid() == char_paint(
                old(self).grid(),
                old(self).width(),
                old(self).height(),
                old(self).pitch(),
                old(self).font@,
                old(self).color,
                old(self).bg_color,
                old(self).cursor(),
                c,
            ),
    {
        if c == '\n' {
            self.new_line_no_swap();
        } else {
            let fnt = &self.font;
            self.backend.draw_char(fnt, c, self.cursor_x, self.cursor_y, self.color, Some(
                self.bg_color,
            ));
            self.cursor_x = self.cursor_x + CHAR_WIDTH;
            if self.cursor_x + CHAR_WIDTH >= self.backend.width() {
                self.new_line_no_swap();
            }
        }
    }

    /// Echo one character, erasing the cursor block first and redrawing it
    /// at the new position; the cursor becomes visible.
    pub fn write_char(&mut self, c: char)
        requires
            old(self).wf(),
        ensures
            final(self).wf(),
            (*final(self)) == (Console {
                backend: final(self).backend,
                cursor_x: final(self).cursor_x,
                cursor_y: final(self).cursor_y,
                cursor_visible: true,
                ..*old(self)
            }),
            final(self).backend.grid().same_geometry(old(self).backend.grid()),
            final(self).cursor_x as int == advance_cursor(
                old(self).cursor(),
                old(self).width(),
                old(self).height(),
                c,
            ).x,
            final(self).cursor_y as int == advance_cursor(
                old(self).cursor(),
                old(self).width(),
                old(self).height(),
                c,
            ).y,
            final(self).grid() == cursor_paint(
                char_paint(
                    cursor_paint(
                        old(self).grid(),
                        old(self).width(),
                        old(self).height(),
                        old(self).pitch(),
                        old(self).cursor_x as int,
                        old(self).cursor_y as int,
                        old(self).bg_color,
                    ),
                    old(self).width(),
                    old(self).height(),
                    old(self).pitch(),
                    old(self).font@,
                    old(self).color,
                    old(self).bg_color,
                    old(self).cursor(),
                    c,
                ),
                old(self).width(),
                old(self).height(),
                old(self).pitch(),
                final(self).cursor_x as int,
                final(self).cursor_y as int,
                old(self).color,
            ),
    {
        self.draw_cursor(self.bg_color);
        self.internal_write_char(c);
        self.cursor_visible = true;
        self.draw_cursor(self.color);
        let w = self.backend.width();
        self.backend.swap_rect(0, self.cursor_y, w, LINE_HEIGHT);
    }

    /// Erase the character cell before the cursor and step the cursor back
    /// one cell. A no-op when the cursor is at the start of the editable
    /// line: neither the cursor position nor any pixel changes.
    pub fn backspace(&mut self)
        requires
            old(self).wf(),
        ensures
            final(self).wf(),
            final(self).backend.grid().same_geometry(old(self).backend.grid()),
            old(self).cursor_x <= old(self).line_start_x ==> *final(self) == *old(self),
            old(self).cursor_x > old(self).line_start_x ==> {
                &&& (*final(self)) == (Console {
                    backend: final(self).backend,
                    cursor_x: (old(self).cursor_x - CHAR_WIDTH) as usize,
                    cursor_visible: true,
                    ..*old(self)
                })
                &&& final(self).grid() == cursor_paint(
                    rect_paint(
                        cursor_paint(
                            old(self).grid(),
                            old(self).width(),
                            old(self).height(),
                            old(self).pitch(),
                            old(self).cursor_x as int,
                            old(self).cursor_y as int,
                            old(self).bg_color,
                        ),
                        old(self).width(),
                        old(self).height(),
                        old(self).pitch(),
                        old(self).cursor_x - CHAR_WIDTH,
                        old(self).cursor_y as int,
                        CHAR_WIDTH as int,
                        LINE_HEIGHT as int,
                        old(self).bg_color,
                    ),
                    old(self).width(),
                    old(self).height(),
                    old(self).pitch(),
                    old(self).cursor_x - CHAR_WIDTH,
                    old(self).cursor_y as int,
                    old(self).color,
                )
            },
    {
        if self.cursor_x > self.line_start_x {
            proof {
                lemma_cell_step(self.cursor_x as int, self.line_start_x as int);
            }
            self.draw_cursor(self.bg_color);
            self.cursor_x = self.cursor_x - CHAR_WIDTH;
            self.backend.fill_rect(self.cursor_x, self.cursor_y, CHAR_WIDTH, LINE_HEIGHT, self.bg_color);
            self.cursor_visible = true;
            self.draw_cursor(self.color);
            self.backend.swap_rect(self.cursor_x, self.cursor_y, 2 * CHAR_WIDTH, LINE_HEIGHT);
        }
    }

    /// Blank the editable line back to the prompt column and return the
    /// cursor there.
    pub fn clear_current_line(&mut self)
        requires
            old(self).wf(),
            old(self).line_start_x <= old(self).cursor_x,
        ensures
            final(self).wf(),
            final(self).backend.grid().same_geometry(old(self).backend.grid()),
            (*final(self)) == (Console {
                backend: final(self).backend,
                cursor_x: old(self).line_start_x,
                cursor_visible: true,
                ..*old(self)
            }),
            final(self).grid() == cursor_paint(
                rect_paint(
                    cursor_paint(
                        old(self).grid(),
                        old(self).width(),
                        old(self).height(),
                        old(self).pitch(),
                        old(self).cursor_x as int,
                        old(self).cursor_y as int,
                        old(self).bg_color,
                    ),
                    old(self).width(),
                    old(self).height(),
                    old(self).pitch(),
                    old(self).line_start_x as int,
                    old(self).cursor_y as int,
                    old(self).cursor_x - old(self).line_start_x,
                    LINE_HEIGHT as int,
                    old(self).bg_color,
                ),
                old(self).width(),
                old(self).height(),
                old(self).pitch(),
                old(self).line_start_x as int,
                old(self).cursor_y as int,
                old(self).color,
            ),
    {
        self.draw_cursor(self.bg_color);
        let ghost g1 = self.grid();
        let ghost x0 = old(self).cursor_x as int;
        while self.cursor_x > self.line_start_x
            invariant
                self.frame_wf(),
                LEFT_MARGIN <= self.cursor_x,
                self.cursor_x + CHAR_WIDTH < self.width(),
                self.cursor_x % CHAR_WIDTH == LEFT_MARGIN % CHAR_WIDTH,
                self.line_start_x <= self.cursor_x <= x0,
                (*self) == (Console {
                    backend: self.backend,
                    cursor_x: self.cursor_x,
                    ..*old(self)
                }),
                self.backend.grid().same_geometry(old(self).backend.grid()),
                self.grid() == rect_paint(
                    g1,
                    self.width(),
                    self.height(),
                    self.pitch(),
                    self.cursor_x as int,
                    self.cursor_y as int,
                    x0 - self.cursor_x,
                    LINE_HEIGHT as int,
                    self.bg_color,
                ),
            decreases self.cursor_x,
        {
            proof {
                lemma_cell_step(self.cursor_x as int, self.line_start_x as int);
            }
            let ghost gprev = self.grid();
            self.cursor_x = self.cursor_x - CHAR_WIDTH;
            self.backend.fill_rect(self.cursor_x, self.cursor_y, CHAR_WIDTH, LINE_HEIGHT, self.bg_color);
            proof {
                assert(self.grid() =~= rect_paint(
                    g1,
                    self.width(),
                    self.height(),
                    self.pitch(),
                    self.cursor_x as int,
                    self.cursor_y as int,
                    x0 - self.cursor_x,
                    LINE_HEIGHT as int,
                    self.bg_color,
                ));
            }
        }
        self.cursor_visible = true;
        self.draw_cursor(self.color);
        let w = self.backend.width();
        self.backend.swap_rect(0, self.cursor_y, w, LINE_HEIGHT);
    }

    /// Fill the whole surface with a new background colour, move the cursor
    /// to the top-left margin and draw it there.
    pub fn clear(&mut self, color: u32)
        requires
            old(self).wf(),
        ensures
            final(self).wf(),
            (*final(self)) == (Console {
                backend: final(self).backend,
                cursor_x: LEFT_MARGIN,
                cursor_y: LEFT_MARGIN,
                bg_color: color,
                cursor_visible: true,
                ..*old(self)
            }),
            final(self).backend.grid().same_geometry(old(self).backend.grid()),
            final(self).grid() == cursor_paint(
                Seq::new(old(self).grid().len(), |i: int| color),
                old(self).width(),
                old(self).height(),
                old(self).pitch(),
                LEFT_MARGIN as int,
                LEFT_MARGIN as int,
                old(self).color,
            ),
    {
        self.bg_color = color;
        self.backend.clear(color);
        self.cursor_x = LEFT_MARGIN;
        self.cursor_y = LEFT_MARGIN;
        self.cursor_visible = true;
        self.draw_cursor(self.color);
        self.backend.swap_buffers();
    }

    /// Present the whole surface: a no-op under direct-write semantics.
    pub fn flush(&self) {
        self.backend.swap_buffers();
    }

    /// Re-point the console at a new backend of the same geometry without
    /// re-deriving cursor or line state.
    pub fn set_backend(&mut self, backend: Backend)
        requires
            old(self).wf(),
            backend.grid().wf(),
            backend.grid().same_geometry(old(self).backend.grid()),
        ensures
            final(self).wf(),
            *final(self) == (Console { backend, ..*old(self) }),
    {
        self.backend = backend;
    }

    /// Echo a whole string: the cursor block is erased once, every
    /// character is echoed in turn with wraps and scrolls as for
    /// `write_char`, and the cursor block is redrawn at the final position.
    pub fn write_str(&mut self, s: &str)
        requires
            old(self).wf(),
        ensures
            final(self).wf(),
            (*final(self)) == (Console {
                backend: final(self).backend,
                cursor_x: final(self).cursor_x,
                cursor_y: final(self).cursor_y,
                cursor_visible: true,
                ..*old(self)
            }),
            final(self).backend.grid().same_geometry(old(self).backend.grid()),
            final(self).cursor_x as int == advance_cursor_all(
                old(self).cursor(),
                old(self).width(),
                old(self).height(),
                s@,
            ).x,
            final(self).cursor_y as int == advance_cursor_all(
                old(self).cursor(),
                old(self).width(),
                old(self).height(),
                s@,
            ).y,
            final(self).grid() == cursor_paint(
                write_paint(
                    cursor_paint(
                        old(self).grid(),
                        old(self).width(),
                        old(self).height(),
                        old(self).pitch(),
                        old(self).cursor_x as int,
                        old(self).cursor_y as int,
                        old(self).bg_color,
                    ),
                    old(self).width(),
                    old(self).height(),
                    old(self).pitch(),
                    old(self).font@,
                    old(self).color,
                    old(self).bg_color,
                    old(self).cursor(),
                    s@,
                ),
                old(self).width(),
                old(self).height(),
                old(self).pitch(),
                final(self).cursor_x as int,
                final(self).cursor_y as int,
                old(self).color,
            ),
    {
        let ghost wd = self.width();
        let ghost ht = self.height();
        let ghost pt = self.pitch();
        let ghost m0 = self.cursor();
        let mut scrolled = false;
        let start_y = self.cursor_y;
        self.draw_cursor(self.bg_color);
        let ghost g1 = self.grid();
        let n = s.unicode_len();
        let mut i: usize = 0;
        while i < n
            invariant
                i <= n,
                n == s@.len(),
                self.frame_wf(),
                LEFT_MARGIN <= self.cursor_x,
                self.cursor_x + CHAR_WIDTH < self.width(),
                self.cursor_x % CHAR_WIDTH == LEFT_MARGIN % CHAR_WIDTH,
                (*self) == (Console {
                    backend: self.backend,
                    cursor_x: self.cursor_x,
                    cursor_y: self.cursor_y,
                    ..*old(self)
                }),
                self.backend.grid().same_geometry(old(self).backend.grid()),
                wd == self.width() && ht == self.height() && pt == self.pitch(),
                m0 == old(self).cursor(),
                g1 == cursor_paint(
                    old(self).grid(),
                    wd,
                    ht,
                    pt,
                    old(self).cursor_x as int,
                    old(self).cursor_y as int,
                    old(self).bg_color,
                ),
                self.cursor_x as int == advance_cursor_all(m0, wd, ht, s@.take(i as int)).x,
                self.cursor_y as int == advance_cursor_all(m0, wd, ht, s@.take(i as int)).y,
                self.grid() == write_paint(
                    g1,
                    wd,
                    ht,
                    pt,
                    old(self).font@,
                    old(self).color,
                    old(self).bg_color,
                    m0,
                    s@.take(i as int),
                ),
            decreases n - i,
        {
            let c = s.get_char(i);
            if c == '\n' {
                scrolled = true;
            }
            self.internal_write_char(c);
            proof {
                assert(s@.take(i + 1).drop_last() =~= s@.take(i as int));
                assert(s@.take(i + 1).last() == s@[i as int]);
            }
            i = i + 1;
        }
        proof {
            assert(s@.take(n as int) =~= s@);
        }
        self.cursor_visible = true;
        self.draw_cursor(self.color);
        if scrolled {
            self.backend.swap_buffers();
        } else {
            let w = self.backend.width();
            self.backend.swap_rect(0, start_y, w, LINE_HEIGHT);
        }
    }
}

/// Within-line law: writing any text without newlines that fits before the
/// wrap threshold advances the cursor by exactly `CHAR_WIDTH` pixels per
/// character, stays on the same line, and never scrolls.
pub proof fn lemma_write_within_line(m: CursorModel, width: int, height: int, cs: Seq<char>)
    requires
        forall|i: int| 0 <= i < cs.len() ==> cs[i] != '\n',
        m.x + CHAR_WIDTH * cs.len() + CHAR_WIDTH < width,
    ensures
        advance_cursor_all(m, width, height, cs) == (CursorModel {
            x: m.x + CHAR_WIDTH * cs.len(),
            y: m.y,
            scrolls: m.scrolls,
        }),
    decreases cs.len(),
{
    if cs.len() == 0 {
        assert(advance_cursor_all(m, width, height, cs) == m);
        assert(m.x + CHAR_WIDTH * 0 == m.x);
    } else {
        lemma_write_within_line(m, width, height, cs.drop_last());
        assert(CHAR_WIDTH * cs.len() == CHAR_WIDTH * (cs.len() - 1) + CHAR_WIDTH) by {
            vstd::arithmetic::mul::lemma_mul_is_distributive_add(
                CHAR_WIDTH as int,
                cs.len() - 1,
                1,
            );
        }
    }
}

/// Bottom-line wrap law: one more printable character while the cursor
/// sits at the wrap threshold of the bottom line triggers exactly one
/// scroll, after which the cursor is at the left margin on the bottom
/// line.
pub proof fn lemma_wrap_at_bottom(m: CursorModel, width: int, height: int, c: char)
    requires
        c != '\n',
        m.x + 2 * CHAR_WIDTH >= width,
        m.y + LINE_HEIGHT >= height,
    ensures
        advance_cursor(m, width, height, c) == (CursorModel {
            x: LEFT_MARGIN as int,
            y: height - LINE_HEIGHT,
            scrolls: m.scrolls + 1,
        }),
{
}

/// Fill-then-wrap law: text that exactly fills the bottom line scrolls
/// nothing, and the one character after it triggers exactly one scroll,
/// leaving the cursor at the left margin of the bottom line.
pub proof fn lemma_fill_line_then_wrap(
    m: CursorModel,
    width: int,
    height: int,
    cs: Seq<char>,
    c: char,
)
    requires
        forall|i: int| 0 <= i < cs.len() ==> cs[i] != '\n',
        c != '\n',
        m.x + CHAR_WIDTH * cs.len() + 2 * CHAR_WIDTH >= width,
        m.x + CHAR_WIDTH * cs.len() + CHAR_WIDTH < width,
        m.y + LINE_HEIGHT >= height,
    ensures
        advance_cursor_all(m, width, height, cs).scrolls == m.scrolls,
        advance_cursor_all(m, width, height, cs.push(c)) == (CursorModel {
            x: LEFT_MARGIN as int,
            y: height - LINE_HEIGHT,
            scrolls: m.scrolls + 1,
        }),
{
    lemma_write_within_line(m, width, height, cs);
    let filled = advance_cursor_all(m, width, height, cs);
    lemma_wrap_at_bottom(filled, width, height, c);
    assert(cs.push(c).drop_last() =~= cs);
    assert(cs.push(c).last() == c);
}

/// Two cell columns of the same alignment that differ are at least one
/// whole cell apart.
proof fn lemma_cell_step(a: int, b: int)
    requires
        0 <= b < a,
        a % (CHAR_WIDTH as int) == b % (CHAR_WIDTH as int),
    ensures
        b <= a - CHAR_WIDTH,
{
    let w = CHAR_WIDTH as int;
    vstd::arithmetic::div_mod::lemma_sub_mod_noop(a, b, w);
    vstd::arithmetic::div_mod::lemma_mod_self_0(w);
    if a - b < w {
        vstd::arithmetic::div_mod::lemma_small_mod((a - b) as nat, w as nat);
    }
}

} // verus!
