use kernel_core::pmm::{
    allocate_frame, free_frame, init, BitmapPmm, MemoryDescriptor, PmmError, CONVENTIONAL_MEMORY,
};

fn entry(type_: u32, phys_start: u64, page_count: u64) -> MemoryDescriptor {
    MemoryDescriptor { type_, phys_start, virt_start: 0, page_count, attribute: 0 }
}

fn sample_map() -> Vec<MemoryDescriptor> {
    vec![
        entry(CONVENTIONAL_MEMORY, 0x0, 10),
        entry(4, 0xA000, 6),
        entry(CONVENTIONAL_MEMORY, 0x1_0000, 256),
    ]
}

fn sample_pmm() -> BitmapPmm {
    let mut pmm = BitmapPmm::new();
    assert_eq!(pmm.init(&sample_map(), 0x20_0000), Ok(()));
    pmm
}

#[test]
fn new_allocator_tracks_nothing() {
    let mut pmm = BitmapPmm::new();
    assert_eq!(pmm.frame_count(), 0);
    assert_eq!(pmm.allocate_frame_internal(), None);
    assert_eq!(pmm.is_used(0), None);
}

#[test]
fn init_sizes_bitmap_and_picks_first_fitting_region() {
    let pmm = sample_pmm();
    assert_eq!(pmm.frame_count(), 512);
    assert_eq!(pmm.bitmap_start_addr(), 0x1_0000);
}

#[test]
fn init_rounds_frame_count_up() {
    let mut pmm = BitmapPmm::new();
    assert_eq!(pmm.init(&sample_map(), 0x20_0001), Ok(()));
    assert_eq!(pmm.frame_count(), 513);
}

#[test]
fn init_marks_frames_by_whitelist() {
    let pmm = sample_pmm();
    for frame in 0..512u64 {
        let inside = frame < 10 || (16..272).contains(&frame);
        let expected_used = frame == 0 || frame == 16 || !inside;
        assert_eq!(pmm.is_used(frame * 4096), Some(expected_used), "frame {}", frame);
    }
    assert_eq!(pmm.is_used(512 * 4096), None);
}

#[test]
fn init_skips_region_at_address_zero_for_the_bitmap() {
    let map = vec![entry(CONVENTIONAL_MEMORY, 0, 1000)];
    let mut pmm = BitmapPmm::new();
    assert_eq!(pmm.init(&map, 0x20_0000), Err(PmmError::NoBitmapRegion));
    assert_eq!(pmm.frame_count(), 0);
}

#[test]
fn init_fails_when_no_region_is_large_enough() {
    // 2^31 frames need a bitmap of 256 MiB, that is 65536 pages.
    let map = vec![entry(CONVENTIONAL_MEMORY, 0x1000, 65535), entry(3, 0x1000_0000, 1 << 20)];
    let mut pmm = BitmapPmm::new();
    assert_eq!(init(&mut pmm, &map, 1 << 43), Err(PmmError::NoBitmapRegion));
}

#[test]
fn bitmap_spanning_two_pages_takes_two_frames() {
    // 0x4000_0000 bytes are 262144 frames, a bitmap of 32768 bytes, 8 pages.
    let map = vec![entry(CONVENTIONAL_MEMORY, 0x10_0000, 1024)];
    let mut pmm = BitmapPmm::new();
    assert_eq!(pmm.init(&map, 0x4000_0000), Ok(()));
    for frame in 0x100..0x108u64 {
        assert_eq!(pmm.is_used(frame * 4096), Some(true));
    }
    assert_eq!(pmm.is_used(0x108 * 4096), Some(false));
    assert_eq!(pmm.allocate_frame_internal(), Some(0x108 * 4096));
}

#[test]
fn allocate_returns_lowest_free_frame_and_marks_it() {
    let mut pmm = sample_pmm();
    assert_eq!(allocate_frame(&mut pmm), Some(0x1000));
    assert_eq!(pmm.is_used(0x1000), Some(true));
    assert_eq!(allocate_frame(&mut pmm), Some(0x2000));
}

#[test]
fn allocate_never_repeats_a_frame() {
    let mut pmm = sample_pmm();
    let mut seen = std::collections::HashSet::new();
    while let Some(addr) = allocate_frame(&mut pmm) {
        assert_eq!(addr % 4096, 0);
        assert!(seen.insert(addr));
    }
    // 9 free frames below the hole and 255 above the bitmap.
    assert_eq!(seen.len(), 9 + 255);
}

#[test]
fn allocate_fails_exactly_when_full() {
    let mut pmm = sample_pmm();
    let mut count = 0;
    while allocate_frame(&mut pmm).is_some() {
        count += 1;
    }
    assert_eq!(count, 264);
    for frame in 0..512u64 {
        assert_eq!(pmm.is_used(frame * 4096), Some(true));
    }
    assert_eq!(allocate_frame(&mut pmm), None);
    free_frame(&mut pmm, 0x5000);
    assert_eq!(allocate_frame(&mut pmm), Some(0x5000));
    assert_eq!(allocate_frame(&mut pmm), None);
}

#[test]
fn matched_frees_restore_the_bitmap() {
    let mut pmm = sample_pmm();
    let before: Vec<Option<bool>> = (0..512u64).map(|f| pmm.is_used(f * 4096)).collect();
    let a = allocate_frame(&mut pmm).unwrap();
    let b = allocate_frame(&mut pmm).unwrap();
    free_frame(&mut pmm, a);
    let c = allocate_frame(&mut pmm).unwrap();
    assert_eq!(c, a);
    free_frame(&mut pmm, b);
    free_frame(&mut pmm, c);
    let after: Vec<Option<bool>> = (0..512u64).map(|f| pmm.is_used(f * 4096)).collect();
    assert_eq!(before, after);
}

#[test]
fn free_of_untracked_address_changes_nothing() {
    let mut pmm = sample_pmm();
    let before: Vec<Option<bool>> = (0..512u64).map(|f| pmm.is_used(f * 4096)).collect();
    pmm.free_frame_internal(512 * 4096);
    pmm.free_frame_internal(u64::MAX);
    let after: Vec<Option<bool>> = (0..512u64).map(|f| pmm.is_used(f * 4096)).collect();
    assert_eq!(before, after);
}

#[test]
fn free_takes_any_address_inside_the_frame() {
    let mut pmm = sample_pmm();
    assert_eq!(allocate_frame(&mut pmm), Some(0x1000));
    free_frame(&mut pmm, 0x1FFF);
    assert_eq!(pmm.is_used(0x1000), Some(false));
}

#[test]
fn region_beyond_tracked_frames_is_clipped() {
    let map = vec![entry(CONVENTIONAL_MEMORY, 0x1000, u64::MAX)];
    let mut pmm = BitmapPmm::new();
    assert_eq!(pmm.init(&map, 0x10_0000), Ok(()));
    assert_eq!(pmm.frame_count(), 256);
    assert_eq!(pmm.is_used(0), Some(true));
    assert_eq!(pmm.is_used(0x1000), Some(true));
    for frame in 2..256u64 {
        assert_eq!(pmm.is_used(frame * 4096), Some(false));
    }
}

#[test]
fn word_boundary_frames_are_handled() {
    let map = vec![entry(CONVENTIONAL_MEMORY, 63 * 4096, 3)];
    let mut pmm = BitmapPmm::new();
    assert_eq!(pmm.init(&map, 0x10_0000), Ok(()));
    // Frame 63 holds the bitmap; 64 and 65 are free.
    assert_eq!(pmm.is_used(63 * 4096), Some(true));
    assert_eq!(pmm.allocate_frame_internal(), Some(64 * 4096));
    assert_eq!(pmm.allocate_frame_internal(), Some(65 * 4096));
    assert_eq!(pmm.allocate_frame_internal(), None);
}
