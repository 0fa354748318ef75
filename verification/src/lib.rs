//! An instruction-set simulator for a subset of a 64-bit RISC-style ISA.
//!
//! A [`cpu::VirtualCPU`] fetches 32-bit instruction words from a sparse
//! [`memory::MemoryImage`], splits them into fields ([`decode`]), resolves the
//! fields to an operation ([`isa`]) and executes it on a
//! [`registers::RegisterFile`]. What each step does is stated over the
//! mathematical state of the machine ([`machine`]).
//!
//! [`iso`] takes the boot image out of an El Torito disk image, to seed the
//! memory with.

pub mod arith;
pub mod cpu;
pub mod decode;
pub mod isa;
pub mod iso;
pub mod machine;
pub mod memory;
pub mod registers;
