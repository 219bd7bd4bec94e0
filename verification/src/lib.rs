//! Verified core of a small x86_64 kernel: physical frame bookkeeping, console
//! rendering, interrupt-side queues, the user program loader and the system
//! call dispatcher, all stated over plain values so that the hardware-facing
//! layer only has to carry out what these functions decide.

pub mod boot;
pub mod elf_loader;
pub mod framebuffer;
pub mod gdt;
pub mod heap_allocator;
pub mod helpers;
pub mod interrupts;
pub mod layout;
pub mod paging;
pub mod pmm;
pub mod screen;
pub mod syscalls;
