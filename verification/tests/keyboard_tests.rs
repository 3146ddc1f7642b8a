use figos::keyboard::{
    Keyboard, BACKSPACE_KEY, EXTENDED_PREFIX, HISTORY_DOWN_KEY, HISTORY_UP_KEY, NEWLINE_KEY,
};
use figos::queue::KeyQueue;

/// A keymap with a letter on the q-key position and a digit on the 1-key
/// position, with shifted variants in the second half of the table.
fn test_keymap() -> Vec<u8> {
    let mut km = vec![0u8; 512];
    km[0x10] = b'q';
    km[0x10 + 256] = b'Q';
    km[0x02] = b'1';
    km[0x02 + 256] = b'!';
    km
}

#[test]
fn plain_key_maps_through_table() {
    let km = test_keymap();
    let mut kb = Keyboard::new();
    let mut q = KeyQueue::new();
    kb.handle_scancode(0x10, &km, &mut q);
    assert_eq!(q.pop_key(), Some('q'));
    assert_eq!(q.pop_key(), None);
}

#[test]
fn shift_selects_second_table_half() {
    let km = test_keymap();
    let mut kb = Keyboard::new();
    let mut q = KeyQueue::new();
    kb.handle_scancode(0x2A, &km, &mut q); // shift make
    kb.handle_scancode(0x10, &km, &mut q);
    kb.handle_scancode(0xAA, &km, &mut q); // shift break
    kb.handle_scancode(0x10, &km, &mut q);
    assert_eq!(q.pop_key(), Some('Q'));
    assert_eq!(q.pop_key(), Some('q'));
    assert_eq!(q.pop_key(), None);
}

#[test]
fn caps_lock_inverts_shift_for_letters_only() {
    let km = test_keymap();
    let mut kb = Keyboard::new();
    let mut q = KeyQueue::new();
    kb.handle_scancode(0x3A, &km, &mut q); // caps lock on
    kb.handle_scancode(0x10, &km, &mut q); // letter: shifted by caps
    kb.handle_scancode(0x02, &km, &mut q); // digit: caps has no effect
    kb.handle_scancode(0x2A, &km, &mut q); // shift make
    kb.handle_scancode(0x10, &km, &mut q); // letter: shift xor caps = off
    kb.handle_scancode(0x02, &km, &mut q); // digit: shift alone counts
    assert_eq!(q.pop_key(), Some('Q'));
    assert_eq!(q.pop_key(), Some('1'));
    assert_eq!(q.pop_key(), Some('q'));
    assert_eq!(q.pop_key(), Some('!'));
    assert_eq!(q.pop_key(), None);
}

#[test]
fn extended_prefix_maps_history_navigation_only() {
    let km = test_keymap();
    let mut kb = Keyboard::new();
    let mut q = KeyQueue::new();
    kb.handle_scancode(EXTENDED_PREFIX, &km, &mut q);
    kb.handle_scancode(0x48, &km, &mut q);
    kb.handle_scancode(EXTENDED_PREFIX, &km, &mut q);
    kb.handle_scancode(0x50, &km, &mut q);
    kb.handle_scancode(EXTENDED_PREFIX, &km, &mut q);
    kb.handle_scancode(0x4B, &km, &mut q); // other extended code: ignored
    kb.handle_scancode(0x10, &km, &mut q); // prefix state cleared: plain key
    assert_eq!(q.pop_key(), Some(HISTORY_UP_KEY));
    assert_eq!(q.pop_key(), Some(HISTORY_DOWN_KEY));
    assert_eq!(q.pop_key(), Some('q'));
    assert_eq!(q.pop_key(), None);
}

#[test]
fn dedicated_codes_and_ignored_codes() {
    let km = test_keymap();
    let mut kb = Keyboard::new();
    let mut q = KeyQueue::new();
    kb.handle_scancode(0x0E, &km, &mut q); // backspace
    kb.handle_scancode(0x1C, &km, &mut q); // enter
    kb.handle_scancode(0x90, &km, &mut q); // key up: ignored
    kb.handle_scancode(0x30, &km, &mut q); // zero table entry: nothing
    assert_eq!(q.pop_key(), Some(BACKSPACE_KEY));
    assert_eq!(q.pop_key(), Some(NEWLINE_KEY));
    assert_eq!(q.pop_key(), None);
}

#[test]
fn short_keymap_emits_nothing_out_of_range() {
    let km = vec![0u8; 4]; // far too short for any shifted lookup
    let mut kb = Keyboard::new();
    let mut q = KeyQueue::new();
    kb.handle_scancode(0x10, &km, &mut q);
    assert_eq!(q.pop_key(), None);
}
