use kernel_core::boot::{max_phys_addr, pages_needed, BumpAllocator};
use kernel_core::pmm::MemoryDescriptor;

fn entry(phys_start: u64, page_count: u64) -> MemoryDescriptor {
    MemoryDescriptor { type_: 7, phys_start, virt_start: 0, page_count, attribute: 0 }
}

#[test]
fn bump_allocator_hands_out_consecutive_frames() {
    let mut a = BumpAllocator::new(0x10_0000, 3);
    assert_eq!(a.allocate_frame(), Some(0x10_0000));
    assert_eq!(a.allocate_frame(), Some(0x10_1000));
    assert_eq!(a.allocate_frame(), Some(0x10_2000));
    assert_eq!(a.allocate_frame(), None);
    assert_eq!(a.allocate_frame(), None);
}

#[test]
fn bump_allocator_with_no_pages() {
    let mut a = BumpAllocator::new(0x10_0000, 0);
    assert_eq!(a.allocate_frame(), None);
}

#[test]
fn pages_needed_rounds_up() {
    assert_eq!(pages_needed(0), 0);
    assert_eq!(pages_needed(1), 1);
    assert_eq!(pages_needed(4096), 1);
    assert_eq!(pages_needed(4097), 2);
    assert_eq!(pages_needed(u64::MAX), 0x10_0000_0000_0000);
}

#[test]
fn max_phys_addr_is_highest_end_rounded_to_two_mib() {
    let map = vec![entry(0, 10), entry(0x10_0000, 0x100), entry(0x5000, 1)];
    // Highest end is 0x10_0000 + 0x100 * 4096 = 0x20_0000.
    assert_eq!(max_phys_addr(&map), Some(0x20_0000));
    let map = vec![entry(0x10_0000, 0x101)];
    assert_eq!(max_phys_addr(&map), Some(0x40_0000));
    assert_eq!(max_phys_addr(&[]), Some(0));
}

#[test]
fn max_phys_addr_reports_overflow() {
    let map = vec![entry(u64::MAX - 4095, 1)];
    assert_eq!(max_phys_addr(&map), None);
    let map = vec![entry(0, u64::MAX)];
    assert_eq!(max_phys_addr(&map), None);
}
