//! Shell glue: the pure rules the main loop runs the console by — status
//! colours for boot messages, the split of a submitted line into name and
//! arguments, the duration parser of the wait command, the frame count for
//! a software surface, and the composition that keeps the line editor's
//! buffer and the on-screen line synchronized while history is navigated.

use vstd::prelude::*;

verus! {

use crate::console::{
    advance_cursor, advance_cursor_all, char_paint, cursor_paint, Console, CursorModel,
    LINE_HEIGHT,
};
use crate::editor::{nav_position, LineEditor, COMMAND_BUFFER_CAPACITY};
use crate::keyboard::{HISTORY_DOWN_KEY, HISTORY_UP_KEY};
use crate::surface::rect_paint;
use vstd::string::StrSliceExecFns;

/// The pixels after one character is echoed the way `write_char` echoes:
/// the cursor block erased at the old position, the glyph drawn, and the
/// block redrawn at the new position.
pub open spec fn write_char_paint(
    grid: Seq<u32>,
    width: int,
    height: int,
    pitch: int,
    font: Seq<u8>,
    fg: u32,
    bg: u32,
    s: CursorModel,
    c: char,
) -> Seq<u32> {
    cursor_paint(
        char_paint(
            cursor_paint(grid, width, height, pitch, s.x, s.y, bg),
            width,
            height,
            pitch,
            font,
            fg,
            bg,
            s,
            c,
        ),
        width,
        height,
        pitch,
        advance_cursor(s, width, height, c).x,
        advance_cursor(s, width, height, c).y,
        fg,
    )
}

/// The pixels after a whole sequence of characters is echoed one
/// `write_char` at a time.
pub open spec fn echo_paint(
    grid: Seq<u32>,
    width: int,
    height: int,
    pitch: int,
    font: Seq<u8>,
    fg: u32,
    bg: u32,
    s: CursorModel,
    cs: Seq<char>,
) -> Seq<u32>
    decreases cs.len(),
{
    if cs.len() == 0 {
        grid
    } else {
        write_char_paint(
            echo_paint(grid, width, height, pitch, font, fg, bg, s, cs.drop_last()),
            width,
            height,
            pitch,
            font,
            fg,
            bg,
            advance_cursor_all(s, width, height, cs.drop_last()),
            cs.last(),
        )
    }
}

/// Buffer bytes as the characters they echo as.
pub open spec fn chars_of(bytes: Seq<u8>) -> Seq<char> {
    bytes.map_values(|b: u8| b as char)
}

/// How one history-navigation step transforms the editor and the console:
/// the cursor moves per the navigation rule; when it lands on an entry,
/// the buffer becomes that entry, the visible line is blanked back to the
/// prompt, and the recalled text is echoed in its place, keeping buffer
/// and screen synchronized. An out-of-range step changes nothing.
pub open spec fn recall_transition(
    e0: LineEditor,
    c0: Console,
    e1: LineEditor,
    c1: Console,
    dir: int,
) -> bool {
    let newpos = nav_position(e0.position(), e0.history_view().len() as int, dir);
    let changed = newpos != e0.position();
    &&& e1.history_view() == e0.history_view()
    &&& e1.position() == newpos
    &&& (changed ==> e1.buffer_view() == e0.history_view()[newpos])
    &&& (!changed ==> e1.buffer_view() == e0.buffer_view() && c1 == c0)
    &&& (changed ==> {
        let cleared = cursor_paint(
            rect_paint(
                cursor_paint(
                    c0.grid(),
                    c0.width(),
                    c0.height(),
                    c0.pitch(),
                    c0.cursor_x as int,
                    c0.cursor_y as int,
                    c0.bg_color,
                ),
                c0.width(),
                c0.height(),
                c0.pitch(),
                c0.line_start_x as int,
                c0.cursor_y as int,
                c0.cursor_x - c0.line_start_x,
                LINE_HEIGHT as int,
                c0.bg_color,
            ),
            c0.width(),
            c0.height(),
            c0.pitch(),
            c0.line_start_x as int,
            c0.cursor_y as int,
            c0.color,
        );
        let m0 = CursorModel { x: c0.line_start_x as int, y: c0.cursor_y as int, scrolls: 0 };
        let cs = chars_of(e1.buffer_view());
        &&& c1.grid() == echo_paint(
            cleared,
            c0.width(),
            c0.height(),
            c0.pitch(),
            c0.font@,
            c0.color,
            c0.bg_color,
            m0,
            cs,
        )
        &&& c1.cursor_x as int == advance_cursor_all(m0, c0.width(), c0.height(), cs).x
        &&& c1.cursor_y as int == advance_cursor_all(m0, c0.width(), c0.height(), cs).y
        &&& c1 == (Console {
            backend: c1.backend,
            cursor_x: c1.cursor_x,
            cursor_y: c1.cursor_y,
            cursor_visible: true,
            ..c0
        })
        &&& c1.backend.grid().same_geometry(c0.backend.grid())
    })
}

/// Navigate the history one step and re-render: blank the visible line
/// back to the prompt and echo the recalled entry, so the command buffer
/// and the on-screen line stay synchronized.
pub fn recall_history(editor: &mut LineEditor, console: &mut Console, direction: i32) -> (changed:
    bool)
    requires
        old(editor).wf(),
        old(console).wf(),
        old(console).line_start_x <= old(console).cursor_x,
        direction == -1 || direction == 1i32,
    ensures
        final(editor).wf(),
        final(console).wf(),
        recall_transition(
            *old(editor),
            *old(console),
            *final(editor),
            *final(console),
            direction as int,
        ),
        changed == (final(editor).position() != old(editor).position()),
{
    let changed = editor.navigate_history(direction);
    if !changed {
        return false;
    }
    console.clear_current_line();
    let ghost c1 = *console;
    let ghost m0 = console.cursor();
    let ghost g0 = console.grid();
    let ghost wd = console.width();
    let ghost ht = console.height();
    let ghost pt = console.pitch();
    let ghost cs = chars_of(editor.buffer_view());
    let n = editor.buffer_len();
    let mut k: usize = 0;
    while k < n
        invariant
            k <= n,
            n == cs.len(),
            cs == chars_of(editor.buffer_view()),
            console.wf(),
            console.font == c1.font,
            console.color == c1.color,
            console.bg_color == c1.bg_color,
            console.line_start_x == c1.line_start_x,
            console.ticks == c1.ticks,
            console.cursor_visible,
            console.backend.grid().same_geometry(c1.backend.grid()),
            wd == console.width() && ht == console.height() && pt == console.pitch(),
            g0 == c1.grid(),
            m0 == (CursorModel { x: c1.cursor_x as int, y: c1.cursor_y as int, scrolls: 0 }),
            console.cursor_x as int == advance_cursor_all(m0, wd, ht, cs.take(k as int)).x,
            console.cursor_y as int == advance_cursor_all(m0, wd, ht, cs.take(k as int)).y,
            console.grid() == echo_paint(
                g0,
                wd,
                ht,
                pt,
                c1.font@,
                c1.color,
                c1.bg_color,
                m0,
                cs.take(k as int),
            ),
        decreases n - k,
    {
        let b = editor.buffer_at(k);
        console.write_char(b as char);
        proof {
            assert(cs.take(k + 1).drop_last() =~= cs.take(k as int));
            assert(cs.take(k + 1).last() == cs[k as int]);
        }
        k = k + 1;
    }
    proof {
        assert(cs.take(n as int) =~= cs);
        assert(*console == (Console {
            backend: console.backend,
            cursor_x: console.cursor_x,
            cursor_y: console.cursor_y,
            cursor_visible: true,
            ..*old(console)
        }));
    }
    true
}

/// Feed one key event through the editor: history sentinels navigate and
/// re-render, any other character is appended to the live buffer (echoing
/// printable characters is the caller's step, as is submitting on
/// newline).
pub fn handle_key(editor: &mut LineEditor, console: &mut Console, c: char) -> (recalled: bool)
    requires
        old(editor).wf(),
        old(console).wf(),
        old(console).line_start_x <= old(console).cursor_x,
    ensures
        final(editor).wf(),
        final(console).wf(),
        c == HISTORY_UP_KEY ==> recall_transition(
            *old(editor),
            *old(console),
            *final(editor),
            *final(console),
            -1,
        ) && recalled == (final(editor).position() != old(editor).position()),
        c == HISTORY_DOWN_KEY ==> recall_transition(
            *old(editor),
            *old(console),
            *final(editor),
            *final(console),
            1,
        ) && recalled == (final(editor).position() != old(editor).position()),
        c != HISTORY_UP_KEY && c != HISTORY_DOWN_KEY ==> {
            &&& *final(console) == *old(console)
            &&& !recalled
            &&& final(editor).history_view() == old(editor).history_view()
            &&& final(editor).position() == old(editor).position()
            &&& final(editor).buffer_view() == if old(editor).buffer_view().len()
                < COMMAND_BUFFER_CAPACITY && c != '\n' {
                old(editor).buffer_view().push(c as u8)
            } else {
                old(editor).buffer_view()
            }
        },
{
    if c == HISTORY_UP_KEY {
        recall_history(editor, console, -1)
    } else if c == HISTORY_DOWN_KEY {
        recall_history(editor, console, 1)
    } else {
        editor.push_char(c);
        false
    }
}

/// The colour a boot status label is printed in.
pub open spec fn spec_status_color(s: Seq<char>) -> u32 {
    if s == "OK"@ {
        0x00FF00u32
    } else if s == "WARN"@ || s == "INFO"@ {
        0xFFFF00u32
    } else if s == "ERROR"@ {
        0xFF0000u32
    } else {
        0xFFFFFFu32
    }
}

/// String equality, pinned to the views.
fn str_eq(a: &str, b: &str) -> (r: bool)
    ensures
        r == (a@ == b@),
{
    let n = a.unicode_len();
    if n != b.unicode_len() {
        return false;
    }
    let mut i: usize = 0;
    while i < n
        invariant
            i <= n,
            n == a@.len() == b@.len(),
            forall|j: int| 0 <= j < i ==> a@[j] == b@[j],
        decreases n - i,
    {
        if a.get_char(i) != b.get_char(i) {
            return false;
        }
        i = i + 1;
    }
    proof {
        assert(a@ =~= b@);
    }
    true
}

/// Map a status label to its display colour: green for success, yellow
/// for warnings and information, red for errors, white otherwise.
pub fn get_status_color(status: &str) -> (color: u32)
    ensures
        color == spec_status_color(status@),
{
    if str_eq(status, "OK") {
        0x00FF00
    } else if str_eq(status, "WARN") || str_eq(status, "INFO") {
        0xFFFF00
    } else if str_eq(status, "ERROR") {
        0xFF0000
    } else {
        0xFFFFFF
    }
}

/// Index of the first space in a line, or its length when there is none.
pub open spec fn first_space(s: Seq<u8>) -> int
    decreases s.len(),
{
    if s.len() == 0 {
        0
    } else if s[0] == 32 {
        0
    } else {
        1 + first_space(s.drop_first())
    }
}

/// Everything before the first space is the command name; everything
/// after it is the argument bytes (empty when there is no space).
pub fn split_command(line: &Vec<u8>) -> (parts: (Vec<u8>, Vec<u8>))
    ensures
        parts.0@ == line@.subrange(0, first_space(line@)),
        parts.1@ == if first_space(line@) < line@.len() {
            line@.subrange(first_space(line@) + 1, line@.len() as int)
        } else {
            Seq::<u8>::empty()
        },
{
    let n = line.len();
    let mut split_idx: usize = 0;
    while split_idx < n && line[split_idx] != 32
        invariant
            split_idx <= n,
            n == line@.len(),
            forall|j: int| 0 <= j < split_idx ==> line@[j] != 32,
        decreases n - split_idx,
    {
        split_idx = split_idx + 1;
    }
    proof {
        lemma_first_space(line@, split_idx as int);
    }
    let mut name: Vec<u8> = Vec::new();
    let mut i: usize = 0;
    while i < split_idx
        invariant
            i <= split_idx <= n,
            n == line@.len(),
            name@ == line@.subrange(0, i as int),
        decreases split_idx - i,
    {
        name.push(line[i]);
        proof {
            assert(name@ =~= line@.subrange(0, i + 1));
        }
        i = i + 1;
    }
    let mut args: Vec<u8> = Vec::new();
    if split_idx < n {
        let mut k: usize = split_idx + 1;
        while k < n
            invariant
                split_idx + 1 <= k <= n,
                n == line@.len(),
                args@ == line@.subrange(split_idx + 1, k as int),
            decreases n - k,
        {
            args.push(line[k]);
            proof {
                assert(args@ =~= line@.subrange(split_idx + 1, k + 1));
            }
            k = k + 1;
        }
    }
    proof {
        if split_idx < n {
        } else {
            assert(args@ =~= Seq::<u8>::empty());
        }
    }
    (name, args)
}

/// A prefix without spaces, followed by a space or the end of the line,
/// pins down `first_space`.
proof fn lemma_first_space(s: Seq<u8>, i: int)
    requires
        0 <= i <= s.len(),
        forall|j: int| 0 <= j < i ==> s[j] != 32,
        i < s.len() ==> s[i] == 32,
    ensures
        first_space(s) == i,
    decreases s.len(),
{
    if s.len() > 0 && i > 0 {
        lemma_first_space(s.drop_first(), i - 1);
    }
}

/// The seconds value of a digit prefix, most significant digit first,
/// saturating at the counter maximum; zero when the text does not start
/// with a digit.
pub open spec fn spec_parse_seconds(s: Seq<u8>, i: int, acc: int) -> int
    decreases s.len() - i,
{
    if i < 0 || i >= s.len() || !(48 <= s[i] <= 57) {
        acc
    } else {
        spec_parse_seconds(
            s,
            i + 1,
            if acc * 10 + (s[i] - 48) <= u64::MAX {
                acc * 10 + (s[i] - 48)
            } else {
                u64::MAX as int
            },
        )
    }
}

/// Parse the leading decimal digits of the argument bytes as a duration
/// in seconds; parsing stops at the first non-digit.
pub fn parse_seconds(args: &Vec<u8>) -> (seconds: u64)
    ensures
        seconds as int == spec_parse_seconds(args@, 0, 0),
{
    let n = args.len();
    let mut acc: u64 = 0;
    let mut i: usize = 0;
    while i < n
        invariant
            i <= n,
            n == args@.len(),
            spec_parse_seconds(args@, 0, 0) == spec_parse_seconds(args@, i as int, acc as int),
        decreases n - i,
    {
        let b = args[i];
        if b < 48 || b > 57 {
            return acc;
        }
        let d = (b - 48) as u64;
        proof {
            vstd::arithmetic::div_mod::lemma_fundamental_div_mod((u64::MAX - d) as int, 10);
        }
        if acc <= (u64::MAX - d) / 10 {
            proof {
                vstd::arithmetic::mul::lemma_mul_inequality(
                    acc as int,
                    ((u64::MAX - d) / 10) as int,
                    10,
                );
            }
            acc = acc * 10 + d;
        } else {
            proof {
                vstd::arithmetic::mul::lemma_mul_inequality(
                    ((u64::MAX - d) / 10) + 1,
                    acc as int,
                    10,
                );
            }
            acc = u64::MAX;
        }
        i = i + 1;
    }
    acc
}

/// Index of the first zero byte, or the length when there is none.
pub open spec fn first_nul(s: Seq<u8>) -> int
    decreases s.len(),
{
    if s.len() == 0 {
        0
    } else if s[0] == 0 {
        0
    } else {
        1 + first_nul(s.drop_first())
    }
}

/// The end of the text once trailing spaces before `e` are dropped.
pub open spec fn trim_end(s: Seq<u8>, e: int) -> int
    decreases e,
{
    if 0 < e <= s.len() && s[e - 1] == 32 {
        trim_end(s, e - 1)
    } else {
        e
    }
}

/// The start of the text once leading spaces from `b` are dropped.
pub open spec fn trim_start(s: Seq<u8>, b: int, e: int) -> int
    decreases e - b,
{
    if 0 <= b < e <= s.len() && s[b] == 32 {
        trim_start(s, b + 1, e)
    } else {
        b
    }
}

/// A zero-byte prefix without zero bytes pins down `first_nul`.
proof fn lemma_first_nul(s: Seq<u8>, i: int)
    requires
        0 <= i <= s.len(),
        forall|j: int| 0 <= j < i ==> s[j] != 0,
        i < s.len() ==> s[i] == 0,
    ensures
        first_nul(s) == i,
    decreases s.len(),
{
    if s.len() > 0 && i > 0 {
        lemma_first_nul(s.drop_first(), i - 1);
    }
}

/// The readable part of a processor brand string: the bytes before the
/// first zero, with leading and trailing spaces dropped.
pub fn trim_cpu_brand(raw: &Vec<u8>) -> (name: Vec<u8>)
    ensures
        ({
            let e = trim_end(raw@, first_nul(raw@));
            let b = trim_start(raw@, 0, e);
            name@ == raw@.subrange(b, e)
        }),
{
    let n = raw.len();
    let mut end: usize = 0;
    while end < n && raw[end] != 0
        invariant
            end <= n,
            n == raw@.len(),
            forall|j: int| 0 <= j < end ==> raw@[j] != 0,
        decreases n - end,
    {
        end = end + 1;
    }
    proof {
        lemma_first_nul(raw@, end as int);
    }
    while end > 0 && raw[end - 1] == 32
        invariant
            end <= n,
            n == raw@.len(),
            trim_end(raw@, first_nul(raw@)) == trim_end(raw@, end as int),
        decreases end,
    {
        end = end - 1;
    }
    proof {
        assert(trim_end(raw@, end as int) == end as int);
    }
    let mut start: usize = 0;
    while start < end && raw[start] == 32
        invariant
            start <= end <= n,
            n == raw@.len(),
            trim_start(raw@, 0, end as int) == trim_start(raw@, start as int, end as int),
        decreases end - start,
    {
        start = start + 1;
    }
    proof {
        assert(trim_start(raw@, start as int, end as int) == start as int);
    }
    let mut name: Vec<u8> = Vec::new();
    let mut k: usize = start;
    while k < end
        invariant
            start <= k <= end <= n,
            n == raw@.len(),
            name@ == raw@.subrange(start as int, k as int),
        decreases end - k,
    {
        name.push(raw[k]);
        proof {
            assert(name@ =~= raw@.subrange(start as int, k + 1));
        }
        k = k + 1;
    }
    name
}

/// Page frames needed for a software surface of the given size, four
/// bytes per pixel.
pub fn frames_needed(width: usize, height: usize) -> (frames: usize)
    requires
        width * height * 4 + 4095 <= usize::MAX,
    ensures
        frames == (width * height * 4 + 4095) / 4096,
{
    proof {
        vstd::arithmetic::mul::lemma_mul_nonnegative(width as int, height as int);
        assert(width * height * 4 <= width * height * 4 + 4095);
    }
    let bytes: usize = width * height * 4;
    (bytes + 4095) / 4096
}

} // verus!
