//! Verified core of a firmware-to-kernel hand-off path: an ELF64 segment
//! loader over a model of physical memory, the exit-services retry protocol,
//! the frame-buffer descriptor and pixel writer, a glyph renderer, and a
//! scrolling text console, with the memory-map log and the UTF-16 text
//! output of the boot phase.

pub mod bytes;
pub mod console;
pub mod coordinator;
pub mod elf;
pub mod font;
pub mod graphics;
pub mod lines;
pub mod memory;
pub mod report;
pub mod uefi;
