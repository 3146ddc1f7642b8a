//! Line editor and history: the in-progress command buffer, a bounded
//! most-recent-first history ring, and the navigation cursor over it.
//!
//! The buffer holds at most `COMMAND_BUFFER_CAPACITY` bytes; characters
//! beyond that are dropped silently. A submitted non-empty line is pushed
//! to the front of the history only when it differs from the current front
//! entry (adjacent-duplicate suppression only); the oldest entry is evicted
//! once the history holds `HISTORY_CAPACITY` lines. The history cursor is
//! `-1` while the live buffer is being edited and otherwise indexes the
//! recalled entry; navigating down from the newest entry saturates there,
//! as in the reference behaviour, rather than wrapping back to the live
//! buffer.

use vstd::prelude::*;

verus! {

/// Maximum number of bytes in the in-progress command line.
pub const COMMAND_BUFFER_CAPACITY: usize = 64;

/// Maximum number of past lines the history retains.
pub const HISTORY_CAPACITY: usize = 10;

/// The history cursor value meaning "editing the live buffer".
pub const LIVE_POSITION: i32 = -1;

/// The in-progress command line, the history ring and the history cursor.
pub struct LineEditor {
    buffer: Vec<u8>,
    history: Vec<Vec<u8>>,
    history_pos: i32,
}

/// The history after a non-empty line is submitted: unchanged when the
/// line equals the front entry, otherwise pushed to the front with the
/// oldest entry evicted beyond capacity.
pub open spec fn history_after_submit(h: Seq<Seq<u8>>, line: Seq<u8>) -> Seq<Seq<u8>> {
    if h.len() > 0 && h[0] == line {
        h
    } else if h.len() < HISTORY_CAPACITY {
        seq![line] + h
    } else {
        (seq![line] + h).subrange(0, HISTORY_CAPACITY as int)
    }
}

/// The history after a whole run of submissions, oldest first.
pub open spec fn history_fold(h: Seq<Seq<u8>>, lines: Seq<Seq<u8>>) -> Seq<Seq<u8>>
    decreases lines.len(),
{
    if lines.len() == 0 {
        h
    } else {
        history_after_submit(history_fold(h, lines.drop_last()), lines.last())
    }
}

/// The history cursor after one navigation step. `dir == -1` moves one
/// entry older ("history up"), `dir == 1` one entry newer. Out-of-range
/// steps leave the cursor where it is.
pub open spec fn nav_position(pos: int, count: int, dir: int) -> int {
    if count == 0 {
        pos
    } else {
        let new_pos = if pos == -1 && dir == -1 {
            0
        } else {
            pos - dir
        };
        if new_pos < 0 || new_pos >= count {
            pos
        } else {
            new_pos
        }
    }
}

/// The history cursor after `k` "history up" steps from the live state.
pub open spec fn nav_ups(count: int, k: nat) -> int
    decreases k,
{
    if k == 0 {
        -1
    } else {
        nav_position(nav_ups(count, (k - 1) as nat), count, -1)
    }
}

/// Byte-vector equality, pinned to the view.
fn bytes_eq(a: &Vec<u8>, b: &Vec<u8>) -> (r: bool)
    ensures
        r == (a@ == b@),
{
    if a.len() != b.len() {
        assert(a@ != b@);
        return false;
    }
    let n = a.len();
    let mut i: usize = 0;
    while i < n
        invariant
            n == a@.len() == b@.len(),
            i <= n,
            forall|j: int| 0 <= j < i ==> a@[j] == b@[j],
        decreases n - i,
    {
        if a[i] != b[i] {
            return false;
        }
        i = i + 1;
    }
    proof {
        assert(a@ =~= b@);
    }
    true
}

/// Byte-vector copy, pinned to the view.
fn clone_bytes(v: &Vec<u8>) -> (r: Vec<u8>)
    ensures
        r@ == v@,
{
    let mut r: Vec<u8> = Vec::new();
    let n = v.len();
    let mut i: usize = 0;
    while i < n
        invariant
            n == v@.len(),
            i <= n,
            r@ == v@.subrange(0, i as int),
        decreases n - i,
    {
        r.push(v[i]);
        proof {
            assert(r@ =~= v@.subrange(0, i + 1));
        }
        i = i + 1;
    }
    proof {
        assert(v@.subrange(0, n as int) =~= v@);
    }
    r
}

impl LineEditor {
    /// The bytes of the in-progress command line.
    pub closed spec fn buffer_view(self) -> Seq<u8> {
        self.buffer@
    }

    /// The retained lines, most recent first.
    pub closed spec fn history_view(self) -> Seq<Seq<u8>> {
        Seq::new(self.history@.len(), |i: int| self.history@[i]@)
    }

    /// The history cursor: `-1` when live, else an index into the history.
    pub closed spec fn position(self) -> int {
        self.history_pos as int
    }

    pub open spec fn wf(self) -> bool {
        &&& self.buffer_view().len() <= COMMAND_BUFFER_CAPACITY
        &&& self.history_view().len() <= HISTORY_CAPACITY
        &&& forall|i: int|
            0 <= i < self.history_view().len() ==> 0 < (#[trigger] self.history_view()[i]).len()
                <= COMMAND_BUFFER_CAPACITY
        &&& -1 <= self.position() < self.history_view().len() || self.position() == -1
    }

    pub fn new() -> (ed: LineEditor)
        ensures
            ed.wf(),
            ed.buffer_view().len() == 0,
            ed.history_view().len() == 0,
            ed.position() == LIVE_POSITION,
    {
        let ed = LineEditor { buffer: Vec::new(), history: Vec::new(), history_pos: LIVE_POSITION };
        proof {
            assert(ed.history_view() =~= Seq::<Seq<u8>>::empty());
        }
        ed
    }

    /// Append one printable character to the live buffer. A full buffer
    /// and the newline character are ignored.
    pub fn push_char(&mut self, c: char)
        requires
            old(self).wf(),
        ensures
            final(self).wf(),
            final(self).history_view() == old(self).history_view(),
            final(self).position() == old(self).position(),
            final(self).buffer_view() == if old(self).buffer_view().len()
                < COMMAND_BUFFER_CAPACITY && c != '\n' {
                old(self).buffer_view().push(c as u8)
            } else {
                old(self).buffer_view()
            },
    {
        if self.buffer.len() < COMMAND_BUFFER_CAPACITY && c != '\n' {
            self.buffer.push(c as u8);
        }
        proof {
            assert(self.history_view() =~= old(self).history_view());
        }
    }

    /// Remove the last buffered byte, if any; a no-op on an empty buffer.
    pub fn delete_last_char(&mut self)
        requires
            old(self).wf(),
        ensures
            final(self).wf(),
            final(self).history_view() == old(self).history_view(),
            final(self).position() == old(self).position(),
            final(self).buffer_view() == if old(self).buffer_view().len() > 0 {
                old(self).buffer_view().drop_last()
            } else {
                old(self).buffer_view()
            },
    {
        if self.buffer.len() > 0 {
            let _ = self.buffer.pop();
        }
        proof {
            assert(self.history_view() =~= old(self).history_view());
        }
    }

    /// Move the history cursor one entry older (`direction == -1`) or
    /// newer (`direction == 1`). When the step lands on an entry, the live
    /// buffer is replaced by a copy of that entry and the result is true;
    /// out-of-range steps change nothing and return false.
    pub fn navigate_history(&mut self, direction: i32) -> (changed: bool)
        requires
            old(self).wf(),
            direction == -1 || direction == 1i32,
        ensures
            final(self).wf(),
            final(self).history_view() == old(self).history_view(),
            final(self).position() == nav_position(
                old(self).position(),
                old(self).history_view().len() as int,
                direction as int,
            ),
            changed == (final(self).position() != old(self).position()),
            changed ==> final(self).buffer_view() == old(self).history_view()[final(self).position()],
            !changed ==> final(self).buffer_view() == old(self).buffer_view(),
    {
        let count = self.history.len();
        if count == 0 {
            proof {
                assert(self.history_view() =~= old(self).history_view());
            }
            return false;
        }
        let new_pos: i32 = if self.history_pos == -1 && direction == -1 {
            0
        } else {
            self.history_pos - direction
        };
        if new_pos < 0 || new_pos >= count as i32 {
            proof {
                assert(self.history_view() =~= old(self).history_view());
            }
            return false;
        }
        self.history_pos = new_pos;
        proof {
            assert(old(self).history_view()[new_pos as int].len() <= COMMAND_BUFFER_CAPACITY);
            assert(old(self).history_view()[new_pos as int] == self.history@[new_pos as int]@);
        }
        let entry = clone_bytes(&self.history[new_pos as usize]);
        self.buffer = entry;
        proof {
            assert(self.history_view() =~= old(self).history_view());
        }
        true
    }

    /// Number of bytes in the live buffer.
    pub fn buffer_len(&self) -> (n: usize)
        ensures
            n == self.buffer_view().len(),
    {
        self.buffer.len()
    }

    /// One byte of the live buffer.
    pub fn buffer_at(&self, i: usize) -> (b: u8)
        requires
            i < self.buffer_view().len(),
        ensures
            b == self.buffer_view()[i as int],
    {
        self.buffer[i]
    }

    /// Number of retained history lines.
    pub fn history_len(&self) -> (n: usize)
        ensures
            n == self.history_view().len(),
    {
        self.history.len()
    }

    /// A copy of one retained line, most recent first.
    pub fn history_entry(&self, i: usize) -> (line: Vec<u8>)
        requires
            i < self.history_view().len(),
        ensures
            line@ == self.history_view()[i as int],
    {
        clone_bytes(&self.history[i])
    }

    /// The history cursor: `LIVE_POSITION` when editing the live buffer.
    pub fn history_position(&self) -> (p: i32)
        ensures
            p as int == self.position(),
    {
        self.history_pos
    }

    /// Submit the live buffer. An empty buffer submits nothing. Otherwise
    /// the line is recorded in the history unless it repeats the current
    /// front entry, the cursor returns to the live state, the buffer is
    /// cleared, and the submitted bytes are handed back for dispatch.
    pub fn process_command(&mut self) -> (line: Option<Vec<u8>>)
        requires
            old(self).wf(),
        ensures
            final(self).wf(),
            old(self).buffer_view().len() == 0 ==> line == Option::<Vec<u8>>::None && *final(self)
                == *old(self),
            old(self).buffer_view().len() > 0 ==> {
                &&& line matches Some(l) && l@ == old(self).buffer_view()
                &&& final(self).history_view() == history_after_submit(
                    old(self).history_view(),
                    old(self).buffer_view(),
                )
                &&& final(self).position() == LIVE_POSITION
                &&& final(self).buffer_view().len() == 0
            },
    {
        if self.buffer.len() == 0 {
            return None;
        }
        let is_duplicate = self.history.len() > 0 && bytes_eq(&self.buffer, &self.history[0]);
        if !is_duplicate {
            let entry = clone_bytes(&self.buffer);
            self.history.insert(0, entry);
            if self.history.len() > HISTORY_CAPACITY {
                self.history.truncate(HISTORY_CAPACITY);
            }
        }
        self.history_pos = LIVE_POSITION;
        let mut line: Vec<u8> = Vec::new();
        core::mem::swap(&mut line, &mut self.buffer);
        proof {
            let h = old(self).history_view();
            let l = old(self).buffer_view();
            if is_duplicate {
                assert(self.history_view() =~= history_after_submit(h, l));
            } else if h.len() < HISTORY_CAPACITY {
                assert(self.history_view() =~= seq![l] + h);
            } else {
                assert(self.history_view() =~= (seq![l] + h).subrange(0, HISTORY_CAPACITY as int));
            }
        }
        Some(line)
    }
}

/// Adjacent-duplicate law: submitting the line that already sits at the
/// front of the history leaves the history exactly as it was.
pub proof fn lemma_adjacent_duplicate_suppressed(h: Seq<Seq<u8>>, line: Seq<u8>)
    requires
        h.len() > 0,
        h[0] == line,
    ensures
        history_after_submit(h, line) == h,
{
}

/// History-window law: submitting a run of lines, each differing from the
/// one before it, into an initially empty history leaves exactly the most
/// recent `HISTORY_CAPACITY` lines, most recent first.
pub proof fn lemma_history_window(lines: Seq<Seq<u8>>)
    requires
        forall|i: int| 0 < i < lines.len() ==> #[trigger] lines[i] != lines[i - 1],
    ensures
        history_fold(Seq::<Seq<u8>>::empty(), lines).len() == vstd::math::min(
            lines.len() as int,
            HISTORY_CAPACITY as int,
        ),
        forall|i: int|
            0 <= i < history_fold(Seq::<Seq<u8>>::empty(), lines).len() ==> history_fold(
                Seq::<Seq<u8>>::empty(),
                lines,
            )[i] == lines[lines.len() - 1 - i],
    decreases lines.len(),
{
    if lines.len() > 0 {
        lemma_history_window(lines.drop_last());
        let prev = history_fold(Seq::<Seq<u8>>::empty(), lines.drop_last());
        if lines.len() > 1 {
            assert(prev[0] == lines[lines.len() - 2]);
            assert(lines.last() != lines[lines.len() - 2]);
        }
    }
}

/// History-up law: from the live state, one "history up" selects the most
/// recent entry, and `k` repeated "history up" steps saturate at the
/// oldest entry without wrapping.
pub proof fn lemma_history_up_saturates(count: int, k: nat)
    requires
        count > 0,
        k >= 1,
    ensures
        nav_ups(count, k) == vstd::math::min(k as int - 1, count - 1),
    decreases k,
{
    if k == 1 {
        assert(nav_ups(count, 0) == -1);
    } else {
        lemma_history_up_saturates(count, (k - 1) as nat);
    }
}

} // verus!
