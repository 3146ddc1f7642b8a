//! Key event channel: a fixed-capacity circular buffer moving decoded
//! characters from the interrupt handler to the main loop.
//!
//! The write and read cursors increase monotonically and are wrapped only
//! when indexing into storage. The queue is deliberately lossy: when the
//! unread count reaches the capacity, the next push overwrites the oldest
//! unread slot, so the console stays responsive under burst input.

use vstd::prelude::*;

verus! {

use vstd::pervasive::VecAdditionalExecFns;
use vstd::seq_lib::lemma_multiset_commutative;
use vstd::arithmetic::div_mod::{
    lemma_add_mod_noop, lemma_mod_division_less_than_divisor, lemma_mod_twice, lemma_small_mod,
};

/// Number of key events the channel can hold before it overwrites.
pub const KEY_QUEUE_CAPACITY: usize = 128;

/// Mathematical model of the channel: two unwrapped cursors over a ring of
/// `KEY_QUEUE_CAPACITY` storage slots.
pub ghost struct QueueModel {
    pub read: int,
    pub write: int,
    pub slots: Seq<char>,
}

pub open spec fn qm_wf(m: QueueModel) -> bool {
    &&& m.slots.len() == KEY_QUEUE_CAPACITY
    &&& 0 <= m.read <= m.write
}

/// How many pushed events have not been popped yet.
pub open spec fn qm_unread(m: QueueModel) -> int {
    m.write - m.read
}

/// The events a run of pops would return, oldest first: the storage slots
/// from the read cursor up to the write cursor, wrapped on index.
pub open spec fn qm_contents(m: QueueModel) -> Seq<char> {
    Seq::new(qm_unread(m) as nat, |i: int| m.slots[(m.read + i) % (KEY_QUEUE_CAPACITY as int)])
}

/// One push: the slot under the write cursor is overwritten and the write
/// cursor advances; the read cursor is untouched.
pub open spec fn qm_push(m: QueueModel, c: char) -> QueueModel {
    QueueModel {
        read: m.read,
        write: m.write + 1,
        slots: m.slots.update(m.write % (KEY_QUEUE_CAPACITY as int), c),
    }
}

/// A whole sequence of pushes, oldest first.
pub open spec fn qm_push_all(m: QueueModel, s: Seq<char>) -> QueueModel
    decreases s.len(),
{
    if s.len() == 0 {
        m
    } else {
        qm_push(qm_push_all(m, s.drop_last()), s.last())
    }
}

/// Single-producer/single-consumer queue of key events.
pub struct KeyQueue {
    buffer: Vec<char>,
    write_ptr: usize,
    read_ptr: usize,
}

impl KeyQueue {
    pub closed spec fn model(self) -> QueueModel {
        QueueModel { read: self.read_ptr as int, write: self.write_ptr as int, slots: self.buffer@ }
    }

    pub open spec fn wf(self) -> bool {
        qm_wf(self.model())
    }

    /// Number of pushed events not yet popped.
    pub open spec fn unread(self) -> int {
        qm_unread(self.model())
    }

    /// The events a run of pops would return, oldest first.
    pub open spec fn contents(self) -> Seq<char> {
        qm_contents(self.model())
    }

    pub fn new() -> (q: KeyQueue)
        ensures
            q.wf(),
            q.unread() == 0,
            q.contents() == Seq::<char>::empty(),
    {
        let mut buffer: Vec<char> = Vec::new();
        let mut i: usize = 0;
        while i < KEY_QUEUE_CAPACITY
            invariant
                i <= KEY_QUEUE_CAPACITY,
                buffer@.len() == i,
            decreases KEY_QUEUE_CAPACITY - i,
        {
            buffer.push('\0');
            i = i + 1;
        }
        let q = KeyQueue { buffer, write_ptr: 0, read_ptr: 0 };
        proof {
            assert(q.contents() =~= Seq::<char>::empty());
        }
        q
    }

    /// Push one decoded key event. When the queue is already full this
    /// overwrites the oldest unread slot (lossy by design).
    pub fn push_key(&mut self, c: char)
        requires
            old(self).wf(),
            old(self).model().write < usize::MAX,
        ensures
            final(self).wf(),
            final(self).model() == qm_push(old(self).model(), c),
            old(self).unread() < KEY_QUEUE_CAPACITY ==> final(self).contents() == old(
                self,
            ).contents().push(c),
    {
        proof {
            lemma_mod_division_less_than_divisor(self.write_ptr as int, KEY_QUEUE_CAPACITY as int);
        }
        let idx = self.write_ptr % KEY_QUEUE_CAPACITY;
        self.buffer.set(idx, c);
        self.write_ptr = self.write_ptr + 1;
        proof {
            if old(self).unread() < KEY_QUEUE_CAPACITY {
                lemma_push_below_capacity(old(self).model(), c);
            }
        }
    }

    /// Pop the oldest unread event, or `None` when all pushed events have
    /// been read.
    pub fn pop_key(&mut self) -> (r: Option<char>)
        requires
            old(self).wf(),
        ensures
            final(self).wf(),
            old(self).unread() == 0 ==> r == Option::<char>::None && *final(self) == *old(self),
            old(self).unread() > 0 ==> {
                &&& r == Some(old(self).contents()[0])
                &&& final(self).model().read == old(self).model().read + 1
                &&& final(self).model().write == old(self).model().write
                &&& final(self).model().slots == old(self).model().slots
                &&& final(self).contents() == old(self).contents().drop_first()
            },
    {
        if self.read_ptr >= self.write_ptr {
            return None;
        }
        proof {
            lemma_mod_division_less_than_divisor(self.read_ptr as int, KEY_QUEUE_CAPACITY as int);
        }
        let c = self.buffer[self.read_ptr % KEY_QUEUE_CAPACITY];
        self.read_ptr = self.read_ptr + 1;
        proof {
            assert(self.contents() =~= old(self).contents().drop_first());
        }
        Some(c)
    }
}

/// Two indexes separated by less than the ring size never share a storage
/// slot.
proof fn lemma_ring_slot_distinct(x: int, d: int)
    requires
        0 <= x,
        0 < d < KEY_QUEUE_CAPACITY,
    ensures
        (x + d) % (KEY_QUEUE_CAPACITY as int) != x % (KEY_QUEUE_CAPACITY as int),
{
    let cap = KEY_QUEUE_CAPACITY as int;
    lemma_add_mod_noop(x, d, cap);
    lemma_mod_division_less_than_divisor(x, cap);
    lemma_small_mod(d as nat, cap as nat);
    let a = x % cap;
    if a + d < cap {
        lemma_small_mod((a + d) as nat, cap as nat);
    } else {
        lemma_mod_twice(a + d, cap);
        assert((a + d) % cap == (a + d - cap) % cap) by {
            vstd::arithmetic::div_mod::lemma_mod_sub_multiples_vanish(a + d, cap);
        }
        lemma_small_mod((a + d - cap) as nat, cap as nat);
    }
}

/// A push on a queue that is below capacity appends the event to the
/// readable contents and disturbs none of the older events.
pub proof fn lemma_push_below_capacity(m: QueueModel, c: char)
    requires
        qm_wf(m),
        qm_unread(m) < KEY_QUEUE_CAPACITY,
    ensures
        qm_contents(qm_push(m, c)) == qm_contents(m).push(c),
{
    let cap = KEY_QUEUE_CAPACITY as int;
    let m2 = qm_push(m, c);
    lemma_mod_division_less_than_divisor(m.write, cap);
    assert forall|i: int| 0 <= i < qm_unread(m) implies qm_contents(m2)[i] == qm_contents(m)[i] by {
        lemma_ring_slot_distinct(m.read + i, m.write - m.read - i);
        lemma_mod_division_less_than_divisor(m.read + i, cap);
    }
    assert(qm_contents(m2)[qm_unread(m)] == c) by {
        lemma_mod_division_less_than_divisor(m.write, cap);
    }
    assert(qm_contents(qm_push(m, c)) =~= qm_contents(m).push(c));
}

/// FIFO law: any sequence of pushes that keeps the queue within capacity
/// appends exactly the pushed events, in order, to the readable contents.
/// Together with the contract of `pop_key`, which removes the front of the
/// contents, pops return the pushed events in first-in first-out order.
pub proof fn lemma_fifo(m: QueueModel, s: Seq<char>)
    requires
        qm_wf(m),
        qm_unread(m) + s.len() <= KEY_QUEUE_CAPACITY,
    ensures
        qm_wf(qm_push_all(m, s)),
        qm_unread(qm_push_all(m, s)) == qm_unread(m) + s.len(),
        qm_contents(qm_push_all(m, s)) == qm_contents(m) + s,
    decreases s.len(),
{
    if s.len() == 0 {
        assert(qm_contents(qm_push_all(m, s)) =~= qm_contents(m) + s);
    } else {
        lemma_fifo(m, s.drop_last());
        lemma_push_below_capacity(qm_push_all(m, s.drop_last()), s.last());
        assert(qm_contents(m) + s.drop_last() + seq![s.last()] =~= qm_contents(m) + s);
    }
}

/// A push on a queue that is exactly at capacity overwrites the oldest
/// unread slot: the front of the contents is lost, the rest stay in order,
/// and the new event takes the overwritten slot.
pub proof fn lemma_push_at_capacity(m: QueueModel, c: char)
    requires
        qm_wf(m),
        qm_unread(m) == KEY_QUEUE_CAPACITY,
    ensures
        qm_contents(qm_push(m, c)) == seq![c] + qm_contents(m).subrange(
            1,
            KEY_QUEUE_CAPACITY as int,
        ) + seq![c],
{
    let cap = KEY_QUEUE_CAPACITY as int;
    let m2 = qm_push(m, c);
    lemma_mod_division_less_than_divisor(m.write, cap);
    assert((m.read + 0) % cap == m.write % cap) by {
        vstd::arithmetic::div_mod::lemma_mod_sub_multiples_vanish(m.read + cap, cap);
    }
    assert((m.read + cap) % cap == m.write % cap);
    assert forall|i: int| 1 <= i < cap implies qm_contents(m2)[i] == qm_contents(m)[i] by {
        lemma_ring_slot_distinct(m.read + i, m.write - m.read - i);
        lemma_mod_division_less_than_divisor(m.read + i, cap);
    }
    assert(qm_contents(m2) =~= seq![c] + qm_contents(m).subrange(1, cap) + seq![c]);
}

/// Lossy-overwrite law: pushing one event more than the capacity into an
/// empty queue keeps exactly the most recent `KEY_QUEUE_CAPACITY` events;
/// only the oldest is lost, and no slot outside the ring is ever touched.
/// The next `KEY_QUEUE_CAPACITY` pops return the overwriting event first,
/// then the surviving events in their original order.
pub proof fn lemma_overwrite_keeps_recent(m: QueueModel, s: Seq<char>)
    requires
        qm_wf(m),
        qm_unread(m) == 0,
        s.len() == KEY_QUEUE_CAPACITY + 1,
    ensures
        qm_contents(qm_push_all(m, s)).subrange(0, KEY_QUEUE_CAPACITY as int) == seq![
            s.last(),
        ] + s.subrange(1, KEY_QUEUE_CAPACITY as int),
        qm_contents(qm_push_all(m, s)).subrange(0, KEY_QUEUE_CAPACITY as int).to_multiset()
            == s.subrange(1, (KEY_QUEUE_CAPACITY + 1) as int).to_multiset(),
{
    let cap = KEY_QUEUE_CAPACITY as int;
    let m1 = qm_push_all(m, s.drop_last());
    lemma_fifo(m, s.drop_last());
    assert(qm_contents(m1) =~= s.drop_last());
    lemma_push_at_capacity(m1, s.last());
    let survivors = s.subrange(1, cap);
    assert(qm_contents(m1).subrange(1, cap) =~= survivors);
    let kept = qm_contents(qm_push_all(m, s)).subrange(0, cap);
    assert(kept =~= seq![s.last()] + survivors);
    lemma_multiset_commutative(seq![s.last()], survivors);
    lemma_multiset_commutative(survivors, seq![s.last()]);
    assert(seq![s.last()].to_multiset().add(survivors.to_multiset()) =~= survivors.to_multiset()
        .add(seq![s.last()].to_multiset()));
    assert(survivors + seq![s.last()] =~= s.subrange(1, cap + 1));
}

} // verus!
