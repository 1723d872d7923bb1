//! Verified core of a small x86_64 microkernel: bit-field helpers, ELF and tar
//! parsing, paging entries, descriptor tables, a ring buffer for kernel logs,
//! capabilities, IPC endpoints and the system-call state machine.
use vstd::prelude::*;

pub mod allocator;
pub mod bits;
pub mod boot;
pub mod bootstrap;
pub mod capability;
pub mod elf;
pub mod interrupts;
pub mod ipc;
pub mod kernel;
pub mod multiboot;
pub mod paging;
pub mod pic;
pub mod process;
pub mod ring_buffer;
pub mod syscall;
pub mod tables;
pub mod tar;
pub mod text;
pub mod tss;
