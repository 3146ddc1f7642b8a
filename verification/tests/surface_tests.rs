use figos::surface::PixelGrid;

const BASE: u32 = 0x00FF00;
const FG: u32 = 0xFF0000;

/// A first-layout font with 16-row glyphs for the first 66 code points;
/// glyph 65 carries an alternating test bitmap.
fn psf1_font_16() -> Vec<u8> {
    let mut f = vec![0u8; 4 + 66 * 16];
    f[0] = 0x36;
    f[1] = 0x04;
    f[2] = 0x00;
    f[3] = 16;
    for r in 0..16 {
        f[4 + 65 * 16 + r] = if r % 2 == 0 { 0b10101010 } else { 0b01010101 };
    }
    f
}

#[test]
fn known_glyph_paints_exactly_its_mask() {
    let font = psf1_font_16();
    let mut g = PixelGrid::new(40, 30, 40, BASE);
    g.draw_glyph(&font, 65, 5, 7, FG, None);
    for y in 0..30usize {
        for x in 0..40usize {
            let inside = x >= 5 && x < 13 && y >= 7 && y < 23;
            let expected = if inside {
                let row = y - 7;
                let col = x - 5;
                let byte: u8 = if row % 2 == 0 { 0b10101010 } else { 0b01010101 };
                if (byte >> (7 - col)) & 1 == 1 {
                    FG
                } else {
                    BASE // transparent background leaves the pixel alone
                }
            } else {
                BASE
            };
            assert_eq!(g.pixel_at(x, y), expected, "pixel ({}, {})", x, y);
        }
    }
}

#[test]
fn opaque_background_fills_clear_bits() {
    let font = psf1_font_16();
    let mut g = PixelGrid::new(40, 30, 40, BASE);
    g.draw_glyph(&font, 65, 0, 0, FG, Some(0x0000FF));
    assert_eq!(g.pixel_at(0, 0), FG);
    assert_eq!(g.pixel_at(1, 0), 0x0000FF);
    assert_eq!(g.pixel_at(8, 0), BASE); // outside the glyph box
}

#[test]
fn one_row_glyph_scenario() {
    let font = vec![0x36u8, 0x04, 0x00, 0x01, 0b1000_0000];
    let mut g = PixelGrid::new(16, 4, 16, 0x123456);
    g.draw_glyph(&font, 0, 0, 0, 0xFFFFFF, Some(0x000000));
    assert_eq!(g.pixel_at(0, 0), 0xFFFFFF);
    for x in 1..8usize {
        assert_eq!(g.pixel_at(x, 0), 0x000000);
    }
    assert_eq!(g.pixel_at(8, 0), 0x123456);
    assert_eq!(g.pixel_at(0, 1), 0x123456);
}

#[test]
fn glyph_crossing_the_edge_draws_nothing() {
    let font = psf1_font_16();
    let mut g = PixelGrid::new(20, 20, 20, BASE);
    g.draw_glyph(&font, 65, 13, 0, FG, Some(0)); // 13 + 8 > 20
    g.draw_glyph(&font, 65, 0, 5, FG, Some(0)); // 5 + 16 > 20
    for y in 0..20usize {
        for x in 0..20usize {
            assert_eq!(g.pixel_at(x, y), BASE);
        }
    }
}

#[test]
fn unrecognised_font_draws_nothing() {
    let font = vec![1u8, 2, 3, 4, 5];
    let mut g = PixelGrid::new(16, 16, 16, BASE);
    g.draw_glyph(&font, 0, 0, 0, FG, Some(0));
    for y in 0..16usize {
        for x in 0..16usize {
            assert_eq!(g.pixel_at(x, y), BASE);
        }
    }
}

#[test]
fn truncated_glyph_data_draws_nothing() {
    // Valid magic but the glyph rows run past the end of the blob.
    let font = vec![0x36u8, 0x04, 0x00, 16, 0xFF, 0xFF];
    let mut g = PixelGrid::new(16, 20, 16, BASE);
    g.draw_glyph(&font, 0, 0, 0, FG, Some(0));
    for y in 0..20usize {
        for x in 0..16usize {
            assert_eq!(g.pixel_at(x, y), BASE);
        }
    }
}

#[test]
fn second_layout_glyph_draws() {
    // 32-byte header: 10 pixels wide (2 bytes per row), 2 rows, 4 bytes per glyph.
    let mut font = vec![0u8; 32 + 8];
    font[0] = 0x72;
    font[1] = 0xb5;
    font[2] = 0x4a;
    font[3] = 0x86;
    font[8] = 32; // header size
    font[16] = 2; // glyph count
    font[20] = 4; // bytes per glyph
    font[24] = 2; // height
    font[28] = 10; // width
    // glyph 1: row 0 = 1100000011, row 1 = 0000000000
    font[32 + 4] = 0b1100_0000;
    font[32 + 5] = 0b1100_0000;
    let mut g = PixelGrid::new(16, 4, 16, BASE);
    g.draw_glyph(&font, 1, 2, 1, FG, Some(0x000000));
    assert_eq!(g.pixel_at(2, 1), FG);
    assert_eq!(g.pixel_at(3, 1), FG);
    assert_eq!(g.pixel_at(4, 1), 0x000000);
    assert_eq!(g.pixel_at(10, 1), FG); // second row byte, bit 0 of c=8
    assert_eq!(g.pixel_at(11, 1), FG);
    assert_eq!(g.pixel_at(2, 2), 0x000000);
    assert_eq!(g.pixel_at(2, 0), BASE);
    assert_eq!(g.pixel_at(12, 1), BASE);
}

#[test]
fn draw_pixel_ignores_out_of_range_coordinates() {
    let mut g = PixelGrid::new(8, 8, 8, BASE);
    g.draw_pixel(8, 0, FG);
    g.draw_pixel(0, 8, FG);
    g.draw_pixel(3, 3, FG);
    assert_eq!(g.pixel_at(3, 3), FG);
    assert_eq!(g.pixel_at(7, 7), BASE);
}

#[test]
fn clear_fills_every_pixel() {
    let mut g = PixelGrid::new(8, 4, 10, BASE);
    g.clear(0xABCDEF);
    for y in 0..4usize {
        for x in 0..8usize {
            assert_eq!(g.pixel_at(x, y), 0xABCDEF);
        }
    }
}

#[test]
fn fill_rect_clips_to_the_surface() {
    let mut g = PixelGrid::new(8, 8, 8, BASE);
    g.fill_rect(6, 6, 4, 4, FG);
    assert_eq!(g.pixel_at(6, 6), FG);
    assert_eq!(g.pixel_at(7, 7), FG);
    assert_eq!(g.pixel_at(5, 6), BASE);
    assert_eq!(g.pixel_at(6, 5), BASE);
}

#[test]
fn scroll_shifts_rows_up_and_fills_the_bottom() {
    let mut g = PixelGrid::new(4, 6, 4, 0);
    // paint row y with colour y+1
    for y in 0..6usize {
        for x in 0..4usize {
            g.draw_pixel(x, y, (y + 1) as u32);
        }
    }
    g.scroll(1, 2, 0x99);
    for y in 0..4usize {
        for x in 0..4usize {
            assert_eq!(g.pixel_at(x, y), (y + 3) as u32);
        }
    }
    for y in 4..6usize {
        for x in 0..4usize {
            assert_eq!(g.pixel_at(x, y), 0x99);
        }
    }
}

#[test]
fn scroll_of_zero_or_whole_height_is_a_no_op() {
    let mut g = PixelGrid::new(4, 4, 4, BASE);
    g.scroll(0, 2, 0x99);
    g.scroll(2, 2, 0x99);
    g.scroll(3, 2, 0x99);
    for y in 0..4usize {
        for x in 0..4usize {
            assert_eq!(g.pixel_at(x, y), BASE);
        }
    }
}
