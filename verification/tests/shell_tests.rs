use figos::console::{Console, CHAR_WIDTH};
use figos::editor::LineEditor;
use figos::graphic::Backend;
use figos::keyboard::{HISTORY_DOWN_KEY, HISTORY_UP_KEY};
use figos::shell::{
    frames_needed, get_status_color, handle_key, parse_seconds, recall_history, split_command,
    trim_cpu_brand,
};
use figos::uefi_fb::Framebuffer as UefiFb;

fn console() -> Console {
    let fb = UefiFb::new(300, 100, 300, 0);
    Console::new(Backend::Uefi(fb), Vec::new())
}

#[test]
fn status_labels_have_their_colours() {
    assert_eq!(get_status_color("OK"), 0x00FF00);
    assert_eq!(get_status_color("WARN"), 0xFFFF00);
    assert_eq!(get_status_color("INFO"), 0xFFFF00);
    assert_eq!(get_status_color("ERROR"), 0xFF0000);
    assert_eq!(get_status_color("DEBUG"), 0xFFFFFF);
    assert_eq!(get_status_color(""), 0xFFFFFF);
}

#[test]
fn command_lines_split_on_the_first_space() {
    let (name, args) = split_command(&b"say hello world".to_vec());
    assert_eq!(name, b"say".to_vec());
    assert_eq!(args, b"hello world".to_vec());
    let (name, args) = split_command(&b"help".to_vec());
    assert_eq!(name, b"help".to_vec());
    assert_eq!(args, Vec::<u8>::new());
    let (name, args) = split_command(&b" lead".to_vec());
    assert_eq!(name, Vec::<u8>::new());
    assert_eq!(args, b"lead".to_vec());
    let (name, args) = split_command(&b"wait ".to_vec());
    assert_eq!(name, b"wait".to_vec());
    assert_eq!(args, Vec::<u8>::new());
}

#[test]
fn durations_parse_their_digit_prefix() {
    assert_eq!(parse_seconds(&b"42".to_vec()), 42);
    assert_eq!(parse_seconds(&b"7s extra".to_vec()), 7);
    assert_eq!(parse_seconds(&b"".to_vec()), 0);
    assert_eq!(parse_seconds(&b"abc".to_vec()), 0);
    assert_eq!(parse_seconds(&b"0".to_vec()), 0);
    assert_eq!(parse_seconds(&b"18446744073709551615".to_vec()), u64::MAX);
    // Saturates instead of overflowing.
    assert_eq!(parse_seconds(&b"99999999999999999999999".to_vec()), u64::MAX);
}

#[test]
fn brand_strings_trim_to_their_text() {
    let mut raw = b"  Some CPU @ 3GHz   ".to_vec();
    raw.extend([0u8, b'x', b'x']); // text stops at the first zero byte
    assert_eq!(trim_cpu_brand(&raw), b"Some CPU @ 3GHz".to_vec());
    assert_eq!(trim_cpu_brand(&vec![0u8; 8]), Vec::<u8>::new());
    assert_eq!(trim_cpu_brand(&b"   ".to_vec()), Vec::<u8>::new());
    assert_eq!(trim_cpu_brand(&b"abc".to_vec()), b"abc".to_vec());
}

#[test]
fn software_surface_frame_count() {
    assert_eq!(frames_needed(1024, 768), (1024 * 768 * 4 + 4095) / 4096);
    assert_eq!(frames_needed(1, 1), 1);
    assert_eq!(frames_needed(1024, 1), 1);
    assert_eq!(frames_needed(1025, 1), 2);
}

#[test]
fn recalling_history_redraws_the_line() {
    let mut con = console();
    let mut ed = LineEditor::new();
    con.write_str("> ");
    con.lock_prompt();
    let prompt_x = con.cursor_x;
    for c in "hello".chars() {
        ed.push_char(c);
        con.write_char(c);
    }
    ed.process_command();
    con.clear_current_line();
    // History up recalls the entry and re-renders it at the prompt.
    let changed = recall_history(&mut ed, &mut con, -1);
    assert!(changed);
    let recalled: Vec<u8> = (0..ed.buffer_len()).map(|i| ed.buffer_at(i)).collect();
    assert_eq!(recalled, b"hello".to_vec());
    assert_eq!(con.cursor_x, prompt_x + 5 * CHAR_WIDTH);
    // A second step has nowhere older to go with one entry.
    let changed = recall_history(&mut ed, &mut con, -1);
    assert!(!changed);
}

#[test]
fn key_dispatch_appends_and_navigates() {
    let mut con = console();
    let mut ed = LineEditor::new();
    con.lock_prompt();
    assert!(!handle_key(&mut ed, &mut con, 'h'));
    assert!(!handle_key(&mut ed, &mut con, 'i'));
    assert_eq!(ed.buffer_len(), 2);
    ed.process_command();
    assert!(handle_key(&mut ed, &mut con, HISTORY_UP_KEY));
    let recalled: Vec<u8> = (0..ed.buffer_len()).map(|i| ed.buffer_at(i)).collect();
    assert_eq!(recalled, b"hi".to_vec());
    // Down at the newest entry saturates.
    assert!(!handle_key(&mut ed, &mut con, HISTORY_DOWN_KEY));
}
