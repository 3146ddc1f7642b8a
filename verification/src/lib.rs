//! An interactive text console for a freestanding kernel: the pipeline that
//! turns raw keyboard scancodes into an edited command line, renders glyphs
//! onto a pixel surface, and manages cursor, scroll and history state.
//!
//! The crate is organised leaf to root: a bitmap font decoder (`font`), a
//! bounds-checked pixel surface (`surface`) with two framebuffer variants
//! (`uefi_fb`, `gpu_fb`) behind one backend (`graphic`), a single-producer
//! single-consumer key event queue (`queue`), a stateful scancode decoder
//! (`keyboard`), a line editor with a bounded history ring (`editor`), and
//! the console facade (`console`). Hardware bring-up helpers (`gdt`, `idt`,
//! `memory`, `time`) model their tables and bitmaps as plain values.

pub mod console;
pub mod editor;
pub mod font;
pub mod gdt;
pub mod gpu_fb;
pub mod graphic;
pub mod idt;
pub mod uefi_fb;
pub mod keyboard;
pub mod memory;
pub mod queue;
pub mod shell;
pub mod time;
pub mod surface;
