//! The kernel heap's place in the address space and the pages behind it.

use crate::paging::{fresh_pages, page_flags, push_fresh_pages, spec_page_flags, PageOp};
use vstd::prelude::*;

verus! {

/// Start of the kernel heap, in the higher half.
pub const KERNEL_HEAP_START: u64 = crate::layout::HEAP_START;

/// Size of the kernel heap in bytes.
pub const KERNEL_HEAP_SIZE: usize = crate::layout::HEAP_SIZE;

/// Number of pages behind the kernel heap.
pub const KERNEL_HEAP_PAGES: u64 = 25;

/// What the kernel has to do before the heap can be used.
#[derive(Debug)]
pub struct HeapPlan {
    /// The operations that map the heap's pages.
    pub ops: Vec<PageOp>,
    /// First address handed to the allocator.
    pub start: u64,
    /// Number of bytes handed to the allocator.
    pub size: usize,
}

/// Plans the kernel heap: every page of its range is mapped fresh, writable
/// and for the kernel only; the range is then handed to the allocator.
pub fn init_heap() -> (plan: HeapPlan)
    ensures
        plan.ops@ == fresh_pages(
            KERNEL_HEAP_START,
            KERNEL_HEAP_PAGES as nat,
            spec_page_flags(true, false, false),
            false,
        ),
        plan.start == KERNEL_HEAP_START,
        plan.size == KERNEL_HEAP_SIZE,
        KERNEL_HEAP_PAGES * 4096 == KERNEL_HEAP_SIZE,
{
    let flags: u64 = page_flags(true, false, false);
    let mut ops: Vec<PageOp> = Vec::new();
    push_fresh_pages(&mut ops, KERNEL_HEAP_START, KERNEL_HEAP_PAGES, flags, false);
    assert(ops@ =~= fresh_pages(
        KERNEL_HEAP_START,
        KERNEL_HEAP_PAGES as nat,
        spec_page_flags(true, false, false),
        false,
    ));
    HeapPlan { ops, start: KERNEL_HEAP_START, size: KERNEL_HEAP_SIZE }
}

} // verus!
