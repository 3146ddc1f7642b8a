use figos::gdt::{Gdt, GDT_CODE_ENTRY, GDT_DATA_ENTRY, GDT_NULL_ENTRY};
use figos::idt::{Idt, IdtEntry};
use figos::time::{
    bcd_to_binary, calibrate_hz, rtc_decode, sleep_elapsed, wait_ticks, Clock, FALLBACK_HZ,
};

#[test]
fn descriptor_table_holds_the_fixed_entries() {
    let g = Gdt::new();
    assert_eq!(g.entries[0], GDT_NULL_ENTRY);
    assert_eq!(g.entries[1], GDT_CODE_ENTRY);
    assert_eq!(g.entries[2], GDT_DATA_ENTRY);
    assert_eq!(g.entries[1], 0x00af9a000000ffff);
    assert_eq!(g.entries[2], 0x00cf92000000ffff);
}

#[test]
fn gate_entry_splits_the_handler_address() {
    let e = IdtEntry::new(0x1234_5678_9ABC_DEF0, 0x08, 1);
    assert_eq!(e.offset_low, 0xDEF0);
    assert_eq!(e.offset_mid, 0x9ABC);
    assert_eq!(e.offset_high, 0x1234_5678);
    assert_eq!(e.selector, 0x08);
    assert_eq!(e.ist, 1);
    assert_eq!(e.flags, 0x8E);
    assert_eq!(e.reserved, 0);
}

#[test]
fn interrupt_table_points_every_vector_at_the_fallback() {
    let generic = 0xFFFF_8000_0010_0000u64;
    let mut idt = Idt::new(generic);
    assert_eq!(idt.0.len(), 256);
    for i in [0usize, 32, 255] {
        assert_eq!(idt.0[i].offset_high, (generic >> 32) as u32);
    }
    let timer = 0xFFFF_8000_0020_0000u64;
    idt.set_handler(32, timer, 0);
    assert_eq!(idt.0[32].offset_high, (timer >> 32) as u32);
    assert_eq!(idt.0[33].offset_high, (generic >> 32) as u32);
}

#[test]
fn ticks_count_and_wrap() {
    let mut c = Clock::new();
    assert_eq!(c.get_ticks(), 0);
    c.tick();
    c.tick();
    assert_eq!(c.get_ticks(), 2);
    let mut w = Clock { ticks: u64::MAX };
    w.tick();
    assert_eq!(w.get_ticks(), 0);
}

#[test]
fn calibration_takes_the_measured_rate_or_falls_back() {
    assert_eq!(calibrate_hz(100, 250), 150);
    assert_eq!(calibrate_hz(100, 105), FALLBACK_HZ); // fewer than ten ticks
    assert_eq!(calibrate_hz(0, 0), FALLBACK_HZ);
    // The counter may wrap between the two samples.
    assert_eq!(calibrate_hz(u64::MAX - 5, 10), 16);
}

#[test]
fn sleep_deadline_test() {
    assert!(sleep_elapsed(100, 400, 300));
    assert!(!sleep_elapsed(100, 399, 300));
    assert!(sleep_elapsed(u64::MAX - 10, 20, 31));
    assert!(!sleep_elapsed(u64::MAX - 10, 19, 31));
    assert_eq!(wait_ticks(3, 100), 300);
    assert_eq!(wait_ticks(u64::MAX, 2), u64::MAX);
    assert_eq!(wait_ticks(0, 100), 0);
}

#[test]
fn clock_chip_digits_decode() {
    assert_eq!(bcd_to_binary(0x59), 59);
    assert_eq!(bcd_to_binary(0x00), 0);
    assert_eq!(bcd_to_binary(0x23), 23);
    assert_eq!(rtc_decode(0x23, 0x59, 0x07), (23, 59, 7));
}
