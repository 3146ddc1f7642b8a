use figos::memory::{MemoryManager, FRAME_SIZE};

/// A manager over one hundred page frames, all initially used.
fn hundred_frames() -> MemoryManager {
    MemoryManager::new(100 * FRAME_SIZE - 1)
}

#[test]
fn fresh_manager_has_everything_marked_used() {
    let mut mm = hundred_frames();
    assert_eq!(mm.get_total_memory_kb(), 0);
    assert_eq!(mm.get_used_memory_kb(), 0);
    // Nothing is allocatable until a region is released.
    assert_eq!(mm.alloc_frames(1), None);
}

#[test]
fn released_region_becomes_allocatable_first_fit() {
    let mut mm = hundred_frames();
    mm.free_region(0, 10 * FRAME_SIZE);
    assert_eq!(mm.get_total_memory_kb(), 40);
    assert_eq!(mm.alloc_frames(3), Some(0));
    assert_eq!(mm.alloc_frames(3), Some(3 * FRAME_SIZE));
    assert_eq!(mm.get_used_memory_kb(), 24);
    // Only four frames remain free; a five-frame run does not exist.
    assert_eq!(mm.alloc_frames(5), None);
    assert_eq!(mm.alloc_frames(4), Some(6 * FRAME_SIZE));
    assert_eq!(mm.alloc_frames(1), None);
}

#[test]
fn freeing_a_frame_makes_it_the_first_fit_again() {
    let mut mm = hundred_frames();
    mm.free_region(0, 4 * FRAME_SIZE);
    assert_eq!(mm.alloc_frames(4), Some(0));
    mm.free_frame(2 * FRAME_SIZE);
    assert_eq!(mm.alloc_frames(1), Some(2 * FRAME_SIZE));
}

#[test]
fn allocation_skips_used_holes() {
    let mut mm = hundred_frames();
    // Free frames 0..2 and 4..8: the first two-frame run is at 0,
    // the first three-frame run only at 4.
    mm.free_region(0, 2 * FRAME_SIZE);
    mm.free_region(4 * FRAME_SIZE, 4 * FRAME_SIZE);
    assert_eq!(mm.alloc_frames(3), Some(4 * FRAME_SIZE));
    assert_eq!(mm.alloc_frames(2), Some(0));
}

#[test]
fn zero_frame_request_fails() {
    let mut mm = hundred_frames();
    mm.free_region(0, 10 * FRAME_SIZE);
    assert_eq!(mm.alloc_frames(0), None);
}

#[test]
fn region_past_the_end_is_clipped() {
    let mut mm = MemoryManager::new(4 * FRAME_SIZE - 1);
    mm.free_region(2 * FRAME_SIZE, 10 * FRAME_SIZE);
    assert_eq!(mm.get_total_memory_kb(), 8);
    assert_eq!(mm.alloc_frames(2), Some(2 * FRAME_SIZE));
    assert_eq!(mm.alloc_frames(1), None);
}

#[test]
fn double_free_counts_once() {
    let mut mm = hundred_frames();
    mm.free_region(0, FRAME_SIZE);
    mm.free_region(0, FRAME_SIZE);
    assert_eq!(mm.get_total_memory_kb(), 4);
    assert_eq!(mm.alloc_frames(1), Some(0));
    mm.free_frame(0);
    mm.free_frame(0);
    assert_eq!(mm.get_used_memory_kb(), 0);
}
