//! Fixed addresses of the kernel's virtual memory layout.

use vstd::prelude::*;

verus! {

/// Start of the direct map of physical memory.
pub const HHDM_OFFSET: u64 = 0xFFFF_8000_0000_0000;

/// Start of the kernel heap.
pub const HEAP_START: u64 = 0xFFFF_9000_0000_0000;

/// Size of the kernel heap in bytes.
pub const HEAP_SIZE: usize = 100 * 1024;

/// Address at which the kernel's code is linked.
pub const KERNEL_BASE: u64 = 0xFFFF_FFFF_8000_0000;

} // verus!
