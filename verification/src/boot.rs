//! What the bootloader computes before it hands over: frames for the first
//! page tables and the extent of physical memory.

use crate::pmm::MemoryDescriptor;
use vstd::prelude::*;

verus! {

/// Hands out the frames of one contiguous region, lowest first.
#[derive(Debug)]
pub struct BumpAllocator {
    next: u64,
    end: u64,
}

impl BumpAllocator {
    /// Address of the next frame to hand out.
    pub closed spec fn next(&self) -> u64 {
        self.next
    }

    /// End (exclusive) of the region.
    pub closed spec fn end(&self) -> u64 {
        self.end
    }

    /// The region holds a whole number of frames.
    pub open spec fn wf(&self) -> bool {
        self.next() <= self.end() && (self.end() - self.next()) % 4096 == 0
    }

    /// An allocator for the `pages` frames from `start` on.
    pub fn new(start: u64, pages: u64) -> (allocator: BumpAllocator)
        requires
            start + pages * 4096 <= u64::MAX,
        ensures
            allocator.wf(),
            allocator.next() == start,
            allocator.end() == start + pages * 4096,
    {
        let size: u64 = pages * 4096;
        BumpAllocator { next: start, end: start + size }
    }

    /// Hands out the next frame of the region; `None` once the region is
    /// used up.
    pub fn allocate_frame(&mut self) -> (r: Option<u64>)
        requires
            old(self).wf(),
        ensures
            final(self).wf(),
            final(self).end() == old(self).end(),
            match r {
                Some(frame) => {
                    &&& old(self).next() < old(self).end()
                    &&& frame == old(self).next() - old(self).next() % 4096
                    &&& final(self).next() == old(self).next() + 4096
                },
                None => old(self).next() == old(self).end() && final(self).next() == old(
                    self,
                ).next(),
            },
    {
        if self.next >= self.end {
            return None;
        }
        let frame: u64 = self.next - self.next % 4096;
        self.next = self.next + 4096;
        Some(frame)
    }
}

/// Number of pages that hold `bytes` bytes.
pub fn pages_needed(bytes: u64) -> (pages: u64)
    ensures
        pages == (bytes + 0xFFF) / 0x1000,
{
    bytes / 0x1000 + if bytes % 0x1000 != 0 {
        1u64
    } else {
        0u64
    }
}

/// End (exclusive) of the memory that entry `d` describes.
pub open spec fn region_end(d: MemoryDescriptor) -> int {
    d.phys_start + d.page_count * 4096
}

/// `top` is the highest end of any region in `map`, or zero for an empty map.
pub open spec fn is_highest_end(map: Seq<MemoryDescriptor>, top: int) -> bool {
    &&& forall|i: int| 0 <= i < map.len() ==> region_end(#[trigger] map[i]) <= top
    &&& (top == 0 || exists|i: int| 0 <= i < map.len() && region_end(#[trigger] map[i]) == top)
}

/// `x` rounded up to a multiple of 2 MiB.
pub open spec fn round_up_2mib(x: int) -> int {
    (x + 0x1F_FFFF) / 0x20_0000 * 0x20_0000
}

/// The highest physical address that the memory map reports, rounded up to
/// 2 MiB; `None` when that does not fit in 64 bits.
pub fn max_phys_addr(memory_map: &[MemoryDescriptor]) -> (r: Option<u64>)
    ensures
        match r {
            Some(max) => exists|top: int|
                is_highest_end(memory_map@, top) && max == #[trigger] round_up_2mib(top),
            None => exists|top: int|
                is_highest_end(memory_map@, top) && #[trigger] round_up_2mib(top) > u64::MAX,
        },
{
    let mut top: u128 = 0;
    let mut i: usize = 0;
    while i < memory_map.len()
        invariant
            i <= memory_map@.len(),
            top <= u64::MAX + u64::MAX * 4096,
            is_highest_end(memory_map@.take(i as int), top as int),
        decreases memory_map@.len() - i,
    {
        let d = &memory_map[i];
        let end: u128 = d.phys_start as u128 + d.page_count as u128 * 4096;
        let ghost before = memory_map@.take(i as int);
        let ghost now = memory_map@.take(i + 1);
        let ghost old_top = top as int;
        if end > top {
            top = end;
        }
        proof {
            assert(now.len() == i + 1);
            assert forall|j: int| 0 <= j < now.len() implies region_end(#[trigger] now[j])
                <= top by {
                if j < i {
                    assert(now[j] == before[j]);
                }
            }
            if top != 0 {
                if top == end {
                    assert(region_end(now[i as int]) == top);
                } else {
                    let j = choose|j: int|
                        0 <= j < before.len() && region_end(#[trigger] before[j]) == old_top;
                    assert(now[j] == before[j]);
                }
            }
        }
        i = i + 1;
    }
    assert(memory_map@.take(i as int) =~= memory_map@);
    let rounded: u128 = (top + 0x1F_FFFF) / 0x20_0000 * 0x20_0000;
    assert(rounded == round_up_2mib(top as int));
    if rounded > u64::MAX as u128 {
        None
    } else {
        Some(rounded as u64)
    }
}

} // verus!
