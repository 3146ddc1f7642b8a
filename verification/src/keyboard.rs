//! Scancode decoder: a stateful translator from raw keyboard controller
//! bytes to key events.
//!
//! The decoder tracks the shift keys, caps lock, and whether the previous
//! byte was the two-byte extended-scancode prefix. Ordinary "key down"
//! codes are mapped through a caller-supplied lookup table of 512 byte
//! values, the second half of which is used when the effective shift state
//! is active. Extended codes map only to the two history-navigation
//! sentinels. Each scancode produces at most one event on the key queue,
//! and the decoder never blocks: it runs in interrupt context.

use vstd::prelude::*;

verus! {

use crate::queue::{qm_push, KeyQueue, KEY_QUEUE_CAPACITY};

/// Sentinel event: navigate one history entry older.
pub const HISTORY_UP_KEY: char = '\x11';

/// Sentinel event: navigate one history entry newer.
pub const HISTORY_DOWN_KEY: char = '\x12';

/// Sentinel event: erase the character before the cursor.
pub const BACKSPACE_KEY: char = '\x08';

/// Sentinel event: submit the current line.
pub const NEWLINE_KEY: char = '\n';

/// The extended-scancode prefix byte.
pub const EXTENDED_PREFIX: u8 = 0xE0;

/// Modifier and key state carried between scancodes.
pub struct Keyboard {
    pub shift_pressed: bool,
    pub caps_lock: bool,
    pub escaped: bool,
}

/// The decoder state after one scancode is consumed.
pub open spec fn next_state(st: Keyboard, sc: u8) -> Keyboard {
    if sc == EXTENDED_PREFIX {
        Keyboard { shift_pressed: st.shift_pressed, caps_lock: st.caps_lock, escaped: true }
    } else if st.escaped {
        Keyboard { shift_pressed: st.shift_pressed, caps_lock: st.caps_lock, escaped: false }
    } else if sc == 0x2A || sc == 0x36 {
        Keyboard { shift_pressed: true, caps_lock: st.caps_lock, escaped: false }
    } else if sc == 0xAA || sc == 0xB6 {
        Keyboard { shift_pressed: false, caps_lock: st.caps_lock, escaped: false }
    } else if sc == 0x3A {
        Keyboard { shift_pressed: st.shift_pressed, caps_lock: !st.caps_lock, escaped: false }
    } else {
        st
    }
}

/// Whether a "key down" code indexes a letter key, for which caps lock
/// inverts the shift state.
pub open spec fn is_letter_code(sc: u8) -> bool {
    0x10 <= sc < 0x32
}

/// The table index a plain "key down" code is looked up at: the code
/// itself, offset by 256 entries when the effective shift state is active.
pub open spec fn keymap_index(st: Keyboard, sc: u8) -> int {
    let use_shift = if is_letter_code(sc) {
        st.shift_pressed != st.caps_lock
    } else {
        st.shift_pressed
    };
    if use_shift {
        sc + 256
    } else {
        sc as int
    }
}

/// The event one scancode produces, if any: `None` for prefix bytes,
/// modifier changes, "key up" codes, unmapped codes and zero table entries.
pub open spec fn emitted_event(st: Keyboard, sc: u8, keymap: Seq<u8>) -> Option<char> {
    if sc == EXTENDED_PREFIX {
        None
    } else if st.escaped {
        if sc == 0x48 {
            Some(HISTORY_UP_KEY)
        } else if sc == 0x50 {
            Some(HISTORY_DOWN_KEY)
        } else {
            None
        }
    } else if sc == 0x2A || sc == 0x36 || sc == 0xAA || sc == 0xB6 || sc == 0x3A {
        None
    } else if sc == 0x0E {
        Some(BACKSPACE_KEY)
    } else if sc == 0x1C {
        Some(NEWLINE_KEY)
    } else if sc < 0x80 {
        let idx = keymap_index(st, sc);
        if idx < keymap.len() && keymap[idx] != 0 {
            Some(keymap[idx] as char)
        } else {
            None
        }
    } else {
        None
    }
}

impl Keyboard {
    pub open spec fn shift(self) -> bool {
        self.shift_pressed
    }

    pub open spec fn caps(self) -> bool {
        self.caps_lock
    }

    pub open spec fn in_escape(self) -> bool {
        self.escaped
    }

    pub fn new() -> (kb: Keyboard)
        ensures
            !kb.shift(),
            !kb.caps(),
            !kb.in_escape(),
    {
        Keyboard { shift_pressed: false, caps_lock: false, escaped: false }
    }

    /// Consume one raw scancode: update the modifier flags and push the
    /// decoded event, if there is one, onto the key queue.
    pub fn handle_scancode(&mut self, scancode: u8, keymap: &Vec<u8>, queue: &mut KeyQueue)
        requires
            old(queue).wf(),
            old(queue).model().write < usize::MAX,
        ensures
            *final(self) == next_state(*old(self), scancode),
            final(queue).wf(),
            match emitted_event(*old(self), scancode, keymap@) {
                Some(c) => {
                    &&& final(queue).model() == qm_push(old(queue).model(), c)
                    &&& old(queue).unread() < KEY_QUEUE_CAPACITY ==> final(queue).contents()
                        == old(queue).contents().push(c)
                },
                None => *final(queue) == *old(queue),
            },
    {
        if scancode == EXTENDED_PREFIX {
            self.escaped = true;
            return ;
        }
        if self.escaped {
            self.escaped = false;
            if scancode < 0x80 {
                if scancode == 0x48 {
                    queue.push_key(HISTORY_UP_KEY);
                } else if scancode == 0x50 {
                    queue.push_key(HISTORY_DOWN_KEY);
                }
            }
            return ;
        }
        if scancode == 0x2A || scancode == 0x36 {
            self.shift_pressed = true;
        } else if scancode == 0xAA || scancode == 0xB6 {
            self.shift_pressed = false;
        } else if scancode == 0x3A {
            self.caps_lock = !self.caps_lock;
        } else if scancode == 0x0E {
            queue.push_key(BACKSPACE_KEY);
        } else if scancode == 0x1C {
            queue.push_key(NEWLINE_KEY);
        } else if scancode < 0x80 {
            let is_letter = 0x10 <= scancode && scancode < 0x32;
            let use_shift = if is_letter {
                self.shift_pressed != self.caps_lock
            } else {
                self.shift_pressed
            };
            let offset: usize = if use_shift {
                256
            } else {
                0
            };
            let idx = scancode as usize + offset;
            if idx < keymap.len() {
                let ascii = keymap[idx];
                if ascii != 0 {
                    queue.push_key(ascii as char);
                }
            }
        }
    }
}

} // verus!
