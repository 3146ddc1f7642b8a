//! Physical frame allocator: a bitmap over page frames, with first-fit
//! allocation of contiguous runs.
//!
//! Frame `i` of physical memory is used when bit `i % 8` of bitmap byte
//! `i / 8` is set. A fresh manager marks every frame used; boot code then
//! releases the regions the firmware reports as usable. The two counters
//! are statistics for display: they are clamped to the frame count and to
//! zero instead of overflowing.

use vstd::prelude::*;

verus! {

use vstd::pervasive::VecAdditionalExecFns;

/// Bytes per physical page frame.
pub const FRAME_SIZE: usize = 4096;

/// Whether frame `i` is marked used in the bitmap.
pub open spec fn bit_of(bm: Seq<u8>, i: int) -> bool {
    (bm[i / 8] >> ((i % 8) as u8)) & 1 == 1
}

/// How many frames in `[lo, hi)` are marked used.
pub open spec fn count_set(bm: Seq<u8>, lo: int, hi: int) -> int
    decreases hi - lo,
{
    if hi <= lo {
        0
    } else {
        count_set(bm, lo, hi - 1) + if bit_of(bm, hi - 1) {
            1int
        } else {
            0int
        }
    }
}

/// Whether a run of `count` free frames starts at frame `s`.
#[verifier::opaque]
pub open spec fn free_run_at(bm: Seq<u8>, total: int, s: int, count: int) -> bool {
    &&& 0 <= s
    &&& s + count <= total
    &&& forall|j: int| s <= j < s + count ==> !bit_of(bm, j)
}

/// The physical frame allocator.
pub struct MemoryManager {
    bitmap: Vec<u8>,
    total_frames: usize,
    usable_frames: usize,
    used_frames: usize,
}

impl MemoryManager {
    pub closed spec fn bits(self) -> Seq<u8> {
        self.bitmap@
    }

    pub closed spec fn total(self) -> int {
        self.total_frames as int
    }

    pub closed spec fn usable(self) -> int {
        self.usable_frames as int
    }

    pub closed spec fn used(self) -> int {
        self.used_frames as int
    }

    /// Whether frame `i` is marked used.
    pub open spec fn frame_used(self, i: int) -> bool {
        bit_of(self.bits(), i)
    }

    pub open spec fn wf(self) -> bool {
        &&& self.bits().len() == (self.total() + 7) / 8
        &&& self.total() * FRAME_SIZE <= usize::MAX
        &&& self.usable() <= self.total()
        &&& self.used() <= self.total()
    }

    /// A manager covering physical memory up to `max_phys_addr`, with
    /// every frame initially marked used.
    pub fn new(max_phys_addr: usize) -> (mm: MemoryManager)
        requires
            max_phys_addr <= usize::MAX - (FRAME_SIZE - 1),
        ensures
            mm.wf(),
            mm.total() == (max_phys_addr + (FRAME_SIZE - 1) as int) / (FRAME_SIZE as int),
            mm.usable() == 0,
            mm.used() == 0,
            forall|i: int| 0 <= i < mm.total() ==> mm.frame_used(i),
    {
        let total_frames: usize = (max_phys_addr + (FRAME_SIZE - 1)) / FRAME_SIZE;
        proof {
            assert(total_frames * FRAME_SIZE <= max_phys_addr + (FRAME_SIZE - 1)) by (nonlinear_arith)
                requires
                    total_frames == (max_phys_addr + (FRAME_SIZE - 1) as int) / (FRAME_SIZE as int),
                    max_phys_addr <= usize::MAX - (FRAME_SIZE - 1),
            ;
        }
        let bitmap_size: usize = (total_frames + 7) / 8;
        let mut bitmap: Vec<u8> = Vec::new();
        let mut i: usize = 0;
        while i < bitmap_size
            invariant
                i <= bitmap_size,
                bitmap@.len() == i,
                forall|j: int| 0 <= j < i ==> bitmap@[j] == 0xFFu8,
            decreases bitmap_size - i,
        {
            bitmap.push(0xFF);
            i = i + 1;
        }
        let mm = MemoryManager { bitmap, total_frames, usable_frames: 0, used_frames: 0 };
        proof {
            assert forall|k: int| 0 <= k < mm.total() implies mm.frame_used(k) by {
                vstd::arithmetic::div_mod::lemma_mod_division_less_than_divisor(k, 8);
                vstd::arithmetic::div_mod::lemma_div_pos_is_pos(k, 8);
                vstd::arithmetic::div_mod::lemma_div_is_ordered(k, mm.total() - 1, 8);
                vstd::arithmetic::div_mod::lemma_div_plus_one(mm.total() - 1, 8);
                assert(k / 8 < (mm.total() + 7) / 8);
                let b: u8 = 0xFF;
                let sh = (k % 8) as u8;
                assert((b >> sh) & 1 == 1) by (bit_vector)
                    requires
                        b == 0xFFu8,
                        sh < 8,
                ;
            }
        }
        mm
    }

    /// Whether frame `index` is marked used; frames past the end read as
    /// used.
    fn is_used(&self, index: usize) -> (r: bool)
        requires
            self.wf(),
            index < self.total(),
        ensures
            r == self.frame_used(index as int),
    {
        proof {
            vstd::arithmetic::div_mod::lemma_mod_division_less_than_divisor(index as int, 8);
            vstd::arithmetic::div_mod::lemma_div_pos_is_pos(index as int, 8);
            vstd::arithmetic::div_mod::lemma_div_is_ordered(index as int, self.total() - 1, 8);
            vstd::arithmetic::div_mod::lemma_div_plus_one(self.total() - 1, 8);
        }
        let byte = index / 8;
        let bit = index % 8;
        (self.bitmap[byte] >> (bit as u8)) & 1 == 1
    }

    /// Mark frame `index` used or free; no other frame changes.
    fn set_used(&mut self, index: usize, used: bool)
        requires
            old(self).wf(),
            index < old(self).total(),
        ensures
            final(self).wf(),
            final(self).total() == old(self).total(),
            final(self).usable() == old(self).usable(),
            final(self).used() == old(self).used(),
            final(self).frame_used(index as int) == used,
            forall|j: int|
                #![trigger final(self).frame_used(j)]
                #![trigger old(self).frame_used(j)]
                0 <= j < final(self).total() && j != index ==> final(self).frame_used(j) == old(
                    self,
                ).frame_used(j),
    {
        proof {
            vstd::arithmetic::div_mod::lemma_mod_division_less_than_divisor(index as int, 8);
            vstd::arithmetic::div_mod::lemma_div_pos_is_pos(index as int, 8);
            vstd::arithmetic::div_mod::lemma_div_is_ordered(index as int, self.total() - 1, 8);
            vstd::arithmetic::div_mod::lemma_div_plus_one(self.total() - 1, 8);
        }
        let byte = index / 8;
        let bit = index % 8;
        let b0 = self.bitmap[byte];
        let b1: u8 = if used {
            b0 | (1u8 << (bit as u8))
        } else {
            b0 & !(1u8 << (bit as u8))
        };
        self.bitmap.set(byte, b1);
        proof {
            let sh = (index as int % 8) as u8;
            if used {
                assert((b0 | (1u8 << sh)) >> sh & 1 == 1) by (bit_vector)
                    requires
                        sh < 8,
                ;
            } else {
                assert((b0 & !(1u8 << sh)) >> sh & 1 == 0) by (bit_vector)
                    requires
                        sh < 8,
                ;
            }
            assert forall|j: int|
                0 <= j < self.total() && j != index implies self.frame_used(j) == old(
                self,
            ).frame_used(j) by {
                vstd::arithmetic::div_mod::lemma_mod_division_less_than_divisor(j, 8);
                vstd::arithmetic::div_mod::lemma_div_pos_is_pos(j, 8);
                if j / 8 == index as int / 8 {
                    let shj = (j % 8) as u8;
                    assert(j % 8 != index as int % 8) by {
                        vstd::arithmetic::div_mod::lemma_fundamental_div_mod(j, 8);
                        vstd::arithmetic::div_mod::lemma_fundamental_div_mod(index as int, 8);
                    }
                    if used {
                        assert((b0 | (1u8 << sh)) >> shj & 1 == b0 >> shj & 1) by (bit_vector)
                            requires
                                sh < 8,
                                shj < 8,
                                sh != shj,
                        ;
                    } else {
                        assert((b0 & !(1u8 << sh)) >> shj & 1 == b0 >> shj & 1) by (bit_vector)
                            requires
                                sh < 8,
                                shj < 8,
                                sh != shj,
                        ;
                    }
                }
            }
        }
    }

    /// Release every frame of the region that is inside the managed range
    /// and currently marked used; the usable-memory counter grows by one
    /// per released frame, clamped to the frame count.
    pub fn free_region(&mut self, phys_addr: usize, size: usize)
        requires
            old(self).wf(),
        ensures
            final(self).wf(),
            final(self).total() == old(self).total(),
            final(self).used() == old(self).used(),
            forall|j: int|
                0 <= j < final(self).total() ==> final(self).frame_used(j) == (old(
                    self,
                ).frame_used(j) && !(phys_addr as int / (FRAME_SIZE as int) <= j < phys_addr as int
                    / (FRAME_SIZE as int) + size as int / (FRAME_SIZE as int))),
    {
        let start_frame = phys_addr / FRAME_SIZE;
        let frame_count = size / FRAME_SIZE;
        let mut i: usize = 0;
        while i < frame_count
            invariant
                self.wf(),
                i <= frame_count,
                start_frame + frame_count <= usize::MAX,
                self.total() == old(self).total(),
                self.used() == old(self).used(),
                forall|j: int|
                    0 <= j < self.total() ==> self.frame_used(j) == (old(self).frame_used(j) && !(
                    start_frame <= j < start_frame + i)),
            decreases frame_count - i,
        {
            let idx = start_frame + i;
            if idx < self.total_frames {
                if self.is_used(idx) {
                    self.set_used(idx, false);
                    if self.usable_frames < self.total_frames {
                        self.usable_frames = self.usable_frames + 1;
                    }
                }
            }
            i = i + 1;
        }
    }

    /// Mark `count` consecutive frames used, starting at frame `start`.
    fn mark_frames(&mut self, start: usize, count: usize)
        requires
            old(self).wf(),
            start + count <= old(self).total(),
        ensures
            final(self).wf(),
            final(self).total() == old(self).total(),
            final(self).usable() == old(self).usable(),
            final(self).used() == old(self).used(),
            forall|k: int|
                0 <= k < final(self).total() ==> final(self).frame_used(k) == (old(
                    self,
                ).frame_used(k) || start <= k < start + count),
    {
        let mut j: usize = 0;
        while j < count
            invariant
                self.wf(),
                j <= count,
                start + count <= self.total(),
                self.total() == old(self).total(),
                self.usable() == old(self).usable(),
                self.used() == old(self).used(),
                forall|k: int|
                    0 <= k < self.total() ==> self.frame_used(k) == (old(self).frame_used(k)
                        || start <= k < start + j),
            decreases count - j,
        {
            self.set_used(start + j, true);
            j = j + 1;
        }
    }

    /// Allocate `count` contiguous frames first-fit: the returned address
    /// is `FRAME_SIZE`-aligned, its frames were all free and are now used,
    /// no other frame changes, and no free run of `count` frames starts
    /// anywhere earlier. `None` exactly when no such run exists (in
    /// particular for a request of zero frames).
    #[verifier::rlimit(50)]
    pub fn alloc_frames(&mut self, count: usize) -> (r: Option<usize>)
        requires
            old(self).wf(),
        ensures
            final(self).wf(),
            final(self).total() == old(self).total(),
            final(self).usable() == old(self).usable(),
            match r {
                Some(addr) => {
                    &&& count >= 1
                    &&& addr as int % (FRAME_SIZE as int) == 0
                    &&& {
                        let start = addr as int / (FRAME_SIZE as int);
                        &&& free_run_at(old(self).bits(), old(self).total(), start, count as int)
                        &&& forall|s: int|
                            0 <= s < start ==> !free_run_at(
                                old(self).bits(),
                                old(self).total(),
                                s,
                                count as int,
                            )
                        &&& forall|j: int|
                            0 <= j < final(self).total() ==> final(self).frame_used(j) == (old(
                                self,
                            ).frame_used(j) || start <= j < start + count)
                    }
                },
                None => {
                    &&& (count == 0 || !(exists|s: int|
                        free_run_at(old(self).bits(), old(self).total(), s, count as int)))
                    &&& *final(self) == *old(self)
                },
            },
    {
        if count == 0 {
            return None;
        }
        let mut run: usize = 0;
        let mut start: usize = 0;
        let mut i: usize = 0;
        while i < self.total_frames
            invariant
                self.wf(),
                *self == *old(self),
                count >= 1,
                i <= self.total(),
                run <= count - 1,
                run <= i,
                start + run == i,
                run < i ==> self.frame_used(start - 1),
                forall|j: int| start <= j < i ==> !self.frame_used(j),
                forall|s: int|
                    0 <= s && s + count <= i ==> !free_run_at(
                        self.bits(),
                        self.total(),
                        s,
                        count as int,
                    ),
            decreases self.total() - i,
        {
            if !self.is_used(i) {
                let ghost run0 = run as int;
                let ghost start0 = start as int;
                if run == 0 {
                    start = i;
                }
                run = run + 1;
                if run == count {
                    proof {
                        assert(start + count == i + 1);
                        assert(free_run_at(
                            self.bits(),
                            self.total(),
                            start as int,
                            count as int,
                        )) by {
                            reveal(free_run_at);
                            assert forall|jj: int| start <= jj < start + count implies !bit_of(
                                self.bits(),
                                jj,
                            ) by {
                                if jj < i {
                                    assert(!self.frame_used(jj));
                                } else {
                                    assert(jj == i);
                                    assert(!self.frame_used(i as int));
                                }
                            }
                        }
                        assert forall|s: int| 0 <= s < start implies !free_run_at(
                            self.bits(),
                            self.total(),
                            s,
                            count as int,
                        ) by {
                            assert(s + count <= i);
                        }
                        assert(start * FRAME_SIZE + count * FRAME_SIZE <= self.total()
                            * FRAME_SIZE && 0 <= start * FRAME_SIZE && 0 <= count * FRAME_SIZE && (
                        start * FRAME_SIZE) as int % (FRAME_SIZE as int) == 0 && (start
                            * FRAME_SIZE) as int / (FRAME_SIZE as int) == start)
                            by (nonlinear_arith)
                            requires
                                start + count <= self.total(),
                                FRAME_SIZE == 4096,
                                0 <= start,
                                0 <= count,
                        ;
                    }
                    let ghost run_start = start as int;
                    if self.used_frames <= self.total_frames - count {
                        self.used_frames = self.used_frames + count;
                    } else {
                        self.used_frames = self.total_frames;
                    }
                    self.mark_frames(start, count);
                    let addr = start * FRAME_SIZE;
                    proof {
                        assert(addr as int % (FRAME_SIZE as int) == 0);
                        assert(addr as int / (FRAME_SIZE as int) == run_start);
                    }
                    return Some(addr);
                }
                proof {
                    assert(run == i + 1 - start);
                    assert(run < count);
                    assert forall|s: int| 0 <= s && s + count <= i + 1 implies !free_run_at(
                        self.bits(),
                        self.total(),
                        s,
                        count as int,
                    ) by {
                        if s + count == i + 1 {
                            assert(s < start);
                            assert(start >= 1);
                            if run0 == 0 {
                                assert(start0 == i);
                                assert(self.frame_used(start - 1));
                            } else {
                                assert(start == start0 && run0 < i);
                                assert(self.frame_used(start - 1));
                            }
                            assert(s <= start - 1 < s + count);
                            reveal(free_run_at);
                        }
                    }
                }
            } else {
                proof {
                    assert forall|s: int| 0 <= s && s + count <= i + 1 implies !free_run_at(
                        self.bits(),
                        self.total(),
                        s,
                        count as int,
                    ) by {
                        if s + count == i + 1 {
                            assert(self.frame_used(i as int));
                            assert(!free_run_at(self.bits(), self.total(), s, count as int)) by {
                                reveal(free_run_at);
                            }
                        }
                    }
                }
                run = 0;
                start = i + 1;
            }
            i = i + 1;
        }
        proof {
            assert forall|s: int|
                !free_run_at(self.bits(), self.total(), s, count as int) by {
                if 0 <= s && s + count <= self.total() {
                } else {
                    assert(!free_run_at(self.bits(), self.total(), s, count as int)) by {
                        reveal(free_run_at);
                    }
                }
            }
        }
        None
    }



    /// Release the frame containing `addr` if it is managed and marked
    /// used; the used-frames counter shrinks by one, clamped to zero.
    pub fn free_frame(&mut self, addr: usize)
        requires
            old(self).wf(),
        ensures
            final(self).wf(),
            final(self).total() == old(self).total(),
            final(self).usable() == old(self).usable(),
            forall|j: int|
                0 <= j < final(self).total() ==> final(self).frame_used(j) == (old(
                    self,
                ).frame_used(j) && j != addr as int / (FRAME_SIZE as int)),
    {
        let idx = addr / FRAME_SIZE;
        if idx < self.total_frames {
            if self.is_used(idx) {
                self.set_used(idx, false);
                if self.used_frames > 0 {
                    self.used_frames = self.used_frames - 1;
                }
            }
        }
    }

    /// Usable memory in kilobytes, for display.
    pub fn get_total_memory_kb(&self) -> (kb: usize)
        requires
            self.wf(),
        ensures
            kb == self.usable() * 4,
    {
        proof {
            assert(self.usable() * 4 <= self.total() * FRAME_SIZE) by (nonlinear_arith)
                requires
                    0 <= self.usable() <= self.total(),
                    FRAME_SIZE == 4096,
            ;
        }
        self.usable_frames * 4
    }

    /// Allocated memory in kilobytes, for display.
    pub fn get_used_memory_kb(&self) -> (kb: usize)
        requires
            self.wf(),
        ensures
            kb == self.used() * 4,
    {
        proof {
            assert(self.used() * 4 <= self.total() * FRAME_SIZE) by (nonlinear_arith)
                requires
                    0 <= self.used() <= self.total(),
                    FRAME_SIZE == 4096,
            ;
        }
        self.used_frames * 4
    }
}

} // verus!
