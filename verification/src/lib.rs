//! An instruction-level virtual machine for a 16-register, 8-bit virtual
//! processor with a 4 KiB address space, a call stack and a 64x32 monochrome
//! display.

pub mod cpu;
pub mod display;
pub mod instruction;
pub mod laws;
pub mod machine;
pub mod memory;
