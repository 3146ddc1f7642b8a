//! Global descriptor table contents: the fixed three-entry table the
//! kernel runs with (null, 64-bit code, data). Loading the table into the
//! processor is privileged boot work and stays outside the library.

use vstd::prelude::*;

verus! {

/// The null descriptor.
pub const GDT_NULL_ENTRY: u64 = 0;

/// 64-bit code segment descriptor.
pub const GDT_CODE_ENTRY: u64 = 0x00af9a000000ffff;

/// Data segment descriptor.
pub const GDT_DATA_ENTRY: u64 = 0x00cf92000000ffff;

/// A global descriptor table of three entries.
pub struct Gdt {
    pub entries: [u64; 3],
}

impl Gdt {
    /// The table with the null, code and data descriptors in order.
    pub fn new() -> (g: Gdt)
        ensures
            g.entries@ == seq![GDT_NULL_ENTRY, GDT_CODE_ENTRY, GDT_DATA_ENTRY],
    {
        let g = Gdt { entries: [GDT_NULL_ENTRY, GDT_CODE_ENTRY, GDT_DATA_ENTRY] };
        proof {
            assert(g.entries@ =~= seq![GDT_NULL_ENTRY, GDT_CODE_ENTRY, GDT_DATA_ENTRY]);
        }
        g
    }
}

} // verus!
