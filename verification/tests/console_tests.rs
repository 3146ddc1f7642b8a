use figos::console::{Console, BLINK_INTERVAL, CHAR_WIDTH, LEFT_MARGIN, LINE_HEIGHT};
use figos::graphic::{Backend, GraphicBackend};
use figos::uefi_fb::Framebuffer as UefiFb;

const FG: u32 = 0xFFFFFF;
const BG: u32 = 0x000000;

fn console(width: usize, height: usize) -> Console {
    let fb = UefiFb::new(width, height, width, BG);
    Console::new(Backend::Uefi(fb), Vec::new())
}

fn pixel(c: &Console, x: usize, y: usize) -> u32 {
    match &c.backend {
        Backend::Uefi(fb) => fb.grid.pixel_at(x, y),
        Backend::Gpu(fb) => fb.grid.pixel_at(x, y),
    }
}

fn snapshot(c: &Console) -> Vec<u32> {
    let (w, h) = (c.backend.width(), c.backend.height());
    let mut v = Vec::new();
    for y in 0..h {
        for x in 0..w {
            v.push(pixel(c, x, y));
        }
    }
    v
}

#[test]
fn short_text_advances_one_cell_per_character_without_scrolling() {
    let mut con = console(200, 100);
    let y0 = con.cursor_y;
    con.write_str("hello");
    assert_eq!(con.cursor_x, LEFT_MARGIN + 5 * CHAR_WIDTH);
    assert_eq!(con.cursor_y, y0);
}

#[test]
fn filling_the_bottom_line_then_one_more_character_scrolls_once() {
    let mut con = console(200, 100);
    // Three newlines reach the bottom line without scrolling.
    con.write_str("\n\n\n");
    assert_eq!(con.cursor_y, 100 - LINE_HEIGHT);
    assert_eq!(con.cursor_x, LEFT_MARGIN);
    // Fill the line up to the wrap threshold: x climbs to 182, and
    // 182 + 9 + 9 passes the right edge only on the next character.
    for _ in 0..18 {
        con.write_char('x');
    }
    assert_eq!(con.cursor_x, 182);
    assert_eq!(con.cursor_y, 100 - LINE_HEIGHT);
    // One more character wraps, and the wrap on the bottom line scrolls.
    con.write_char('x');
    assert_eq!(con.cursor_x, LEFT_MARGIN);
    assert_eq!(con.cursor_y, 100 - LINE_HEIGHT);
}

#[test]
fn newline_moves_down_a_line_above_the_bottom() {
    let mut con = console(200, 100);
    con.write_char('\n');
    assert_eq!(con.cursor_x, LEFT_MARGIN);
    assert_eq!(con.cursor_y, LEFT_MARGIN + LINE_HEIGHT);
}

#[test]
fn backspace_at_the_prompt_changes_nothing() {
    let mut con = console(64, 48);
    con.lock_prompt();
    let before = snapshot(&con);
    let (x0, y0) = (con.cursor_x, con.cursor_y);
    con.backspace();
    assert_eq!(con.cursor_x, x0);
    assert_eq!(con.cursor_y, y0);
    assert_eq!(snapshot(&con), before);
}

#[test]
fn backspace_steps_back_and_blanks_the_cell() {
    let mut con = console(200, 100);
    con.lock_prompt();
    con.write_char('a');
    assert_eq!(con.cursor_x, LEFT_MARGIN + CHAR_WIDTH);
    con.backspace();
    assert_eq!(con.cursor_x, LEFT_MARGIN);
    // The blanked cell is background except where the cursor block
    // was redrawn (two rows near the bottom of the cell).
    for dy in 0..LINE_HEIGHT {
        for dx in 0..CHAR_WIDTH {
            let expected = if (dy == 17 || dy == 18) && dx < 8 { FG } else { BG };
            assert_eq!(pixel(&con, LEFT_MARGIN + dx, LEFT_MARGIN + dy), expected);
        }
    }
}

#[test]
fn glyphs_are_echoed_with_an_opaque_background() {
    // One-row glyph font: code point zero shows a single left pixel.
    let font = vec![0x36u8, 0x04, 0x00, 0x01, 0b1000_0000];
    let fb = UefiFb::new(200, 100, 200, 0x777777);
    let mut con = Console::new(Backend::Uefi(fb), font);
    con.write_char('\x00');
    assert_eq!(pixel(&con, LEFT_MARGIN, LEFT_MARGIN), FG);
    for dx in 1..8 {
        assert_eq!(pixel(&con, LEFT_MARGIN + dx, LEFT_MARGIN), BG);
    }
    assert_eq!(pixel(&con, LEFT_MARGIN + 8, LEFT_MARGIN), 0x777777);
}

#[test]
fn write_str_echoes_every_glyph_in_order() {
    // One-row glyphs: every code point shows its leftmost pixel only.
    let mut font = vec![0x36u8, 0x04, 0x00, 0x01];
    font.extend(std::iter::repeat(0b1000_0000u8).take(256));
    let fb = UefiFb::new(200, 100, 200, 0x555555);
    let mut con = Console::new(Backend::Uefi(fb), font);
    con.write_str("ab");
    assert_eq!(con.cursor_x, LEFT_MARGIN + 2 * CHAR_WIDTH);
    for cell in 0..2 {
        let x0 = LEFT_MARGIN + cell * CHAR_WIDTH;
        assert_eq!(pixel(&con, x0, LEFT_MARGIN), FG);
        for dx in 1..8 {
            assert_eq!(pixel(&con, x0 + dx, LEFT_MARGIN), BG);
        }
    }
    // The cell boxes are eight pixels wide with a nine-pixel advance,
    // so the column between them and the one after both glyphs stay
    // untouched.
    assert_eq!(pixel(&con, LEFT_MARGIN + 8, LEFT_MARGIN), 0x555555);
    assert_eq!(pixel(&con, LEFT_MARGIN + CHAR_WIDTH + 8, LEFT_MARGIN), 0x555555);
}

#[test]
fn clear_repaints_everything_and_homes_the_cursor() {
    let mut con = console(64, 48);
    con.write_str("abc");
    con.clear(0x112233);
    assert_eq!(con.cursor_x, LEFT_MARGIN);
    assert_eq!(con.cursor_y, LEFT_MARGIN);
    assert_eq!(con.bg_color, 0x112233);
    for y in 0..48 {
        for x in 0..64 {
            let cursor_block = y >= LEFT_MARGIN + 17 && y < LEFT_MARGIN + 19 && x >= LEFT_MARGIN
                && x < LEFT_MARGIN + 8;
            let expected = if cursor_block { FG } else { 0x112233 };
            assert_eq!(pixel(&con, x, y), expected);
        }
    }
}

#[test]
fn clear_current_line_returns_to_the_prompt() {
    let mut con = console(200, 100);
    con.write_str("> ");
    con.lock_prompt();
    let prompt_x = con.cursor_x;
    con.write_str("abcdef");
    con.clear_current_line();
    assert_eq!(con.cursor_x, prompt_x);
}

#[test]
fn blink_toggles_every_interval() {
    let mut con = console(64, 48);
    assert!(con.cursor_visible);
    for _ in 0..BLINK_INTERVAL {
        con.update();
    }
    assert!(!con.cursor_visible);
    // The cursor block is now painted in the background colour.
    assert_eq!(pixel(&con, LEFT_MARGIN, LEFT_MARGIN + 17), BG);
    for _ in 0..BLINK_INTERVAL {
        con.update();
    }
    assert!(con.cursor_visible);
    assert_eq!(pixel(&con, LEFT_MARGIN, LEFT_MARGIN + 17), FG);
    assert_eq!(con.ticks, 2 * BLINK_INTERVAL);
}

#[test]
fn set_colors_and_lock_prompt_update_state() {
    let mut con = console(64, 48);
    con.set_color(0x00FF00);
    assert_eq!(con.color, 0x00FF00);
    con.set_colors(0x101010, 0x202020);
    assert_eq!(con.color, 0x101010);
    assert_eq!(con.bg_color, 0x202020);
    con.write_str("ab");
    con.lock_prompt();
    assert_eq!(con.line_start_x, con.cursor_x);
}

#[test]
fn switching_backends_keeps_cursor_and_line_state() {
    let mut con = console(200, 100);
    con.write_str("abc");
    let (x0, y0) = (con.cursor_x, con.cursor_y);
    let gpu = figos::gpu_fb::Framebuffer::new(200, 100, 200, BG);
    con.set_backend(Backend::Gpu(gpu));
    assert_eq!(con.cursor_x, x0);
    assert_eq!(con.cursor_y, y0);
    match &con.backend {
        Backend::Gpu(_) => {}
        Backend::Uefi(_) => panic!("backend was not switched"),
    }
    con.write_char('d');
    assert_eq!(con.cursor_x, x0 + CHAR_WIDTH);
    con.flush();
}
