use figos::editor::{LineEditor, COMMAND_BUFFER_CAPACITY, HISTORY_CAPACITY, LIVE_POSITION};

fn type_line(ed: &mut LineEditor, line: &str) {
    for c in line.chars() {
        ed.push_char(c);
    }
}

fn submit_line(ed: &mut LineEditor, line: &str) -> Option<Vec<u8>> {
    type_line(ed, line);
    ed.process_command()
}

#[test]
fn submit_returns_line_and_clears_buffer() {
    let mut ed = LineEditor::new();
    let line = submit_line(&mut ed, "say hi").expect("a submitted line");
    assert_eq!(line, b"say hi".to_vec());
    assert_eq!(ed.buffer_len(), 0);
    assert_eq!(ed.history_len(), 1);
    assert_eq!(ed.history_position(), LIVE_POSITION);
}

#[test]
fn submit_empty_buffer_is_rejected() {
    let mut ed = LineEditor::new();
    assert_eq!(ed.process_command(), None);
    assert_eq!(ed.history_len(), 0);
}

#[test]
fn history_keeps_exactly_the_last_ten_most_recent_first() {
    let mut ed = LineEditor::new();
    let lines: Vec<String> = (0..11).map(|i| format!("command{}", i)).collect();
    for l in &lines {
        submit_line(&mut ed, l);
    }
    assert_eq!(ed.history_len(), HISTORY_CAPACITY);
    for i in 0..HISTORY_CAPACITY {
        let expected = lines[lines.len() - 1 - i].as_bytes().to_vec();
        assert_eq!(ed.history_entry(i), expected);
    }
}

#[test]
fn adjacent_duplicate_is_not_recorded_twice() {
    let mut ed = LineEditor::new();
    submit_line(&mut ed, "status");
    submit_line(&mut ed, "status");
    assert_eq!(ed.history_len(), 1);
    // A different line in between makes the same text insertable again.
    submit_line(&mut ed, "other");
    submit_line(&mut ed, "status");
    assert_eq!(ed.history_len(), 3);
    assert_eq!(ed.history_entry(0), b"status".to_vec());
    assert_eq!(ed.history_entry(1), b"other".to_vec());
}

#[test]
fn history_up_selects_most_recent_then_saturates_at_oldest() {
    let mut ed = LineEditor::new();
    submit_line(&mut ed, "first");
    submit_line(&mut ed, "second");
    submit_line(&mut ed, "third");
    assert!(ed.navigate_history(-1));
    assert_eq!(ed.history_position(), 0);
    assert_eq!(ed.buffer_len(), 5);
    let recalled: Vec<u8> = (0..ed.buffer_len()).map(|i| ed.buffer_at(i)).collect();
    assert_eq!(recalled, b"third".to_vec());
    assert!(ed.navigate_history(-1));
    assert!(ed.navigate_history(-1));
    assert_eq!(ed.history_position(), 2);
    // Saturation: no wrap past the oldest entry.
    assert!(!ed.navigate_history(-1));
    assert_eq!(ed.history_position(), 2);
    let oldest: Vec<u8> = (0..ed.buffer_len()).map(|i| ed.buffer_at(i)).collect();
    assert_eq!(oldest, b"first".to_vec());
}

#[test]
fn history_down_saturates_at_newest_entry() {
    let mut ed = LineEditor::new();
    submit_line(&mut ed, "alpha");
    submit_line(&mut ed, "beta");
    assert!(ed.navigate_history(-1));
    assert!(ed.navigate_history(-1));
    assert_eq!(ed.history_position(), 1);
    assert!(ed.navigate_history(1));
    assert_eq!(ed.history_position(), 0);
    // Down at the newest entry does not return to the live buffer.
    assert!(!ed.navigate_history(1));
    assert_eq!(ed.history_position(), 0);
}

#[test]
fn navigation_with_empty_history_changes_nothing() {
    let mut ed = LineEditor::new();
    ed.push_char('x');
    assert!(!ed.navigate_history(-1));
    assert!(!ed.navigate_history(1));
    assert_eq!(ed.history_position(), LIVE_POSITION);
    assert_eq!(ed.buffer_len(), 1);
}

#[test]
fn full_buffer_drops_characters_silently() {
    let mut ed = LineEditor::new();
    for _ in 0..(COMMAND_BUFFER_CAPACITY + 5) {
        ed.push_char('a');
    }
    assert_eq!(ed.buffer_len(), COMMAND_BUFFER_CAPACITY);
}

#[test]
fn newline_is_never_buffered() {
    let mut ed = LineEditor::new();
    ed.push_char('\n');
    assert_eq!(ed.buffer_len(), 0);
}

#[test]
fn backspace_on_empty_buffer_is_a_no_op() {
    let mut ed = LineEditor::new();
    ed.delete_last_char();
    assert_eq!(ed.buffer_len(), 0);
    ed.push_char('h');
    ed.push_char('i');
    ed.delete_last_char();
    assert_eq!(ed.buffer_len(), 1);
    assert_eq!(ed.buffer_at(0), b'h');
}
