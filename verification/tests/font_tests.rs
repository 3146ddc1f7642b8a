use figos::font::{get_glyph_index, parse_psf1_header, parse_psf2_header, read_le32};

fn psf2_blob() -> Vec<u8> {
    let mut f = vec![0u8; 64];
    f[0] = 0x72;
    f[1] = 0xb5;
    f[2] = 0x4a;
    f[3] = 0x86;
    // version 0, header size 32, flags 0, glyph count 2,
    // bytes per glyph 16, height 16, width 8, little endian
    f[8] = 32;
    f[16] = 2;
    f[20] = 16;
    f[24] = 16;
    f[28] = 8;
    f
}

#[test]
fn first_layout_header_parses() {
    let f = vec![0x36u8, 0x04, 0x02, 0x10, 0xAA];
    let h = parse_psf1_header(&f).expect("recognised magic");
    assert_eq!(h.magic, [0x36, 0x04]);
    assert_eq!(h.mode, 0x02);
    assert_eq!(h.char_size, 0x10);
}

#[test]
fn second_layout_header_parses() {
    let f = psf2_blob();
    let h = parse_psf2_header(&f).expect("recognised magic");
    assert_eq!(h.magic, [0x72, 0xb5, 0x4a, 0x86]);
    assert_eq!(h.header_size, 32);
    assert_eq!(h.length, 2);
    assert_eq!(h.char_size, 16);
    assert_eq!(h.height, 16);
    assert_eq!(h.width, 8);
}

#[test]
fn unrecognised_magic_is_rejected() {
    let f = vec![0x00u8, 0x01, 0x02, 0x03, 0x04];
    assert!(parse_psf1_header(&f).is_none());
    let short = vec![0x36u8];
    assert!(parse_psf1_header(&short).is_none());
    assert!(parse_psf2_header(&f).is_none());
}

#[test]
fn little_endian_field_decoding() {
    let f = vec![0x78u8, 0x56, 0x34, 0x12, 0xFF, 0xFF, 0xFF, 0xFF];
    assert_eq!(read_le32(&f, 0), 0x12345678);
    assert_eq!(read_le32(&f, 4), 0xFFFFFFFF);
}

#[test]
fn glyph_slot_for_plain_and_translated_characters() {
    assert_eq!(get_glyph_index('A'), 65);
    assert_eq!(get_glyph_index(' '), 32);
    assert_eq!(get_glyph_index('\x00'), 0);
    // A Latin letter from the translated range above 127.
    assert_eq!(get_glyph_index(char::from_u32(0xC7).unwrap()), 128);
    assert_eq!(get_glyph_index(char::from_u32(0xFC).unwrap()), 129);
    assert_eq!(get_glyph_index(char::from_u32(0xD8).unwrap()), 157);
    // Anything unmapped above 127 falls back to the question mark.
    assert_eq!(get_glyph_index(char::from_u32(0x20AC).unwrap()), 63);
}
