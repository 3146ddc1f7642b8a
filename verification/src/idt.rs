//! Interrupt descriptor table contents: 256 gate entries built from
//! handler addresses. Handlers are given as plain addresses; installing
//! the table into the processor is privileged boot work and stays outside
//! the library.

use vstd::prelude::*;

verus! {

/// The saved processor state an interrupt handler receives.
pub struct InterruptStackFrame {
    pub instruction_pointer: u64,
    pub code_segment: u64,
    pub cpu_flags: u64,
    pub stack_pointer: u64,
    pub stack_segment: u64,
}

/// One interrupt gate: a handler address split across three fields, the
/// code-segment selector, the interrupt-stack index and the present-gate
/// flags.
pub struct IdtEntry {
    pub offset_low: u16,
    pub selector: u16,
    pub ist: u8,
    pub flags: u8,
    pub offset_mid: u16,
    pub offset_high: u32,
    pub reserved: u32,
}

/// An interrupt gate whose three offset fields carry the pieces of the
/// handler address, marked present with the interrupt-gate flag byte.
pub open spec fn spec_idt_entry(handler: u64, selector: u16, ist: u8) -> IdtEntry {
    IdtEntry {
        offset_low: (handler & 0xFFFF) as u16,
        selector,
        ist,
        flags: 0x8E,
        offset_mid: ((handler >> 16) & 0xFFFF) as u16,
        offset_high: (handler >> 32) as u32,
        reserved: 0,
    }
}

impl IdtEntry {
    /// Build one gate from a handler address.
    pub fn new(handler: u64, selector: u16, ist: u8) -> (e: IdtEntry)
        ensures
            e == spec_idt_entry(handler, selector, ist),
    {
        proof {
            assert(handler & 0xFFFF < 0x10000 && (handler >> 16) & 0xFFFF < 0x10000 && (handler
                >> 32) < 0x100000000) by (bit_vector);
        }
        IdtEntry {
            offset_low: (handler & 0xFFFF) as u16,
            selector,
            ist,
            flags: 0x8E,
            offset_mid: ((handler >> 16) & 0xFFFF) as u16,
            offset_high: (handler >> 32) as u32,
            reserved: 0,
        }
    }
}

/// An interrupt descriptor table of 256 gates.
pub struct Idt(pub Vec<IdtEntry>);

impl Idt {
    pub open spec fn wf(self) -> bool {
        self.0@.len() == 256
    }

    /// A table with every vector pointing at the fallback handler.
    pub fn new(generic_handler: u64) -> (idt: Idt)
        ensures
            idt.wf(),
            forall|i: int|
                0 <= i < 256 ==> idt.0@[i] == spec_idt_entry(generic_handler, 0x08, 0),
    {
        let mut entries: Vec<IdtEntry> = Vec::new();
        let mut i: usize = 0;
        while i < 256
            invariant
                i <= 256,
                entries@.len() == i,
                forall|j: int|
                    0 <= j < i ==> entries@[j] == spec_idt_entry(generic_handler, 0x08, 0),
            decreases 256 - i,
        {
            entries.push(IdtEntry::new(generic_handler, 0x08, 0));
            i = i + 1;
        }
        Idt(entries)
    }

    /// Point one vector at a handler, on interrupt stack `ist`.
    pub fn set_handler(&mut self, index: u8, handler: u64, ist: u8)
        requires
            old(self).wf(),
        ensures
            final(self).wf(),
            final(self).0@ == old(self).0@.update(
                index as int,
                spec_idt_entry(handler, 0x08, ist),
            ),
    {
        let e = IdtEntry::new(handler, 0x08, ist);
        self.0.set(index as usize, e);
    }
}

} // verus!
