use kernel_core::elf_loader::{
    check_header, check_segment, load_segment, load_user_elf, setup_user_stack, ElfError,
    ElfHeader, ElfImage, ProgramHeader, UserImage,
};
use kernel_core::paging::PageOp;

const RX: u32 = 5;
const RW: u32 = 6;
const R: u32 = 4;
const NX: u64 = 0x8000_0000_0000_0000;

fn header(elf_type: u16) -> ElfHeader {
    ElfHeader {
        magic: [0x7F, b'E', b'L', b'F'],
        class: 2,
        machine: 62,
        elf_type,
        entry_point: 0x1234,
        ph_offset: 64,
        ph_entry_size: 56,
        ph_count: 3,
    }
}

fn load(flags: u32, offset: u64, virtual_addr: u64, file_size: u64, mem_size: u64) -> ProgramHeader {
    ProgramHeader { kind: 1, flags, offset, virtual_addr, file_size, mem_size }
}

fn image(elf_type: u16, segments: Vec<ProgramHeader>) -> ElfImage {
    ElfImage { header: header(elf_type), segments, file_len: 0x10000 }
}

fn segment_part(plan: &[PageOp]) -> &[PageOp] {
    // The plan ends with 128 pool pages and 256 break pages.
    &plan[..plan.len() - 128 - 256]
}

fn maps(ops: &[PageOp]) -> Vec<(u64, u64)> {
    ops.iter()
        .filter_map(|op| match *op {
            PageOp::MapIfAbsent { page, flags } => Some((page, flags)),
            _ => None,
        })
        .collect()
}

fn copies(ops: &[PageOp]) -> Vec<(u64, u64, u64)> {
    ops.iter()
        .filter_map(|op| match *op {
            PageOp::Copy { dest, src_offset, len } => Some((dest, src_offset, len)),
            _ => None,
        })
        .collect()
}

#[test]
fn header_checks_in_order() {
    assert_eq!(check_header(&header(2)), Ok(()));
    assert_eq!(check_header(&header(3)), Ok(()));
    let mut h = header(3);
    h.magic = [0x7F, b'E', b'L', b'G'];
    h.class = 1;
    assert_eq!(check_header(&h), Err(ElfError::BadMagic));
    let mut h = header(3);
    h.class = 1;
    h.machine = 3;
    assert_eq!(check_header(&h), Err(ElfError::UnsupportedClass));
    let mut h = header(3);
    h.machine = 183;
    h.elf_type = 1;
    assert_eq!(check_header(&h), Err(ElfError::UnsupportedMachine));
    assert_eq!(check_header(&header(1)), Err(ElfError::UnsupportedType));
    assert_eq!(check_header(&header(4)), Err(ElfError::UnsupportedType));
}

#[test]
fn position_independent_image_is_loaded_at_the_user_base() {
    let plan = load_user_elf(&image(3, vec![load(RX, 0, 0, 0x100, 0x100)])).unwrap();
    assert!(plan.is_pie);
    assert_eq!(plan.image.entry_point, 0x40_1234);
    assert_eq!(plan.image.phdr_addr, 0x40_0040);
    assert_eq!(plan.image.ph_count, 3);
    assert_eq!(plan.image.ph_entry_size, 56);
    assert_eq!(plan.image.stack_top, 0x7FFF_FFFF_0000);
    assert_eq!(plan.image.heap_base, 0x800_0000);
    assert_eq!(plan.image.heap_limit, 0x810_0000);
    assert_eq!(plan.image.mmap_base, 0x48_0000);
    assert_eq!(plan.image.mmap_limit, 0x50_0000);
    let seg = segment_part(&plan.ops);
    assert_eq!(maps(seg), vec![(0x40_0000, 0x5)]);
    assert_eq!(copies(seg), vec![(0x40_0000, 0, 0x100)]);
}

#[test]
fn fixed_image_is_loaded_at_its_own_addresses() {
    let plan = load_user_elf(&image(2, vec![load(RX, 0x1000, 0x40_1000, 0x10, 0x10)])).unwrap();
    assert!(!plan.is_pie);
    assert_eq!(plan.image.entry_point, 0x1234);
    assert_eq!(plan.image.phdr_addr, 64);
    let seg = segment_part(&plan.ops);
    assert_eq!(maps(seg), vec![(0x40_1000, 0x5)]);
    assert_eq!(copies(seg), vec![(0x40_1000, 0x1000, 0x10)]);
}

#[test]
fn segment_permissions_become_page_flags() {
    let segments = vec![
        load(R, 0, 0x0000, 1, 1),
        load(RX, 0, 0x1000, 1, 1),
        load(RW, 0, 0x2000, 1, 1),
        load(7, 0, 0x3000, 1, 1),
    ];
    let plan = load_user_elf(&image(2, segments)).unwrap();
    assert_eq!(
        maps(segment_part(&plan.ops)),
        vec![(0x0000, 0x5 | NX), (0x1000, 0x5), (0x2000, 0x7 | NX), (0x3000, 0x7)]
    );
}

#[test]
fn segment_pages_and_copies_follow_page_boundaries() {
    // Memory 0x400F00..0x403100 touches four pages; the file part ends in the third.
    let plan = load_user_elf(&image(2, vec![load(RW, 0x300, 0x40_0F00, 0x1200, 0x2200)])).unwrap();
    let seg = segment_part(&plan.ops);
    assert_eq!(
        maps(seg),
        vec![
            (0x40_0000, 0x7 | NX),
            (0x40_1000, 0x7 | NX),
            (0x40_2000, 0x7 | NX),
            (0x40_3000, 0x7 | NX)
        ]
    );
    assert_eq!(
        copies(seg),
        vec![(0x40_0F00, 0x300, 0x100), (0x40_1000, 0x400, 0x1000), (0x40_2000, 0x1400, 0x100)]
    );
    // All pages are mapped before the first copy.
    assert!(matches!(seg[3], PageOp::MapIfAbsent { .. }));
    assert!(matches!(seg[4], PageOp::Copy { .. }));
}

#[test]
fn segments_are_loaded_in_file_order_and_others_are_skipped() {
    let segments = vec![
        ProgramHeader { kind: 6, flags: R, offset: 64, virtual_addr: 64, file_size: 168, mem_size: 168 },
        load(RX, 0, 0, 0x20, 0x20),
        load(RW, 0x100, 0x5000, 0, 0),
        ProgramHeader { kind: 2, flags: RW, offset: 0, virtual_addr: 0x9000, file_size: 8, mem_size: 8 },
        load(RW, 0x2000, 0x2FF0, 0x20, 0x1000),
    ];
    let plan = load_user_elf(&image(3, segments)).unwrap();
    let seg = segment_part(&plan.ops);
    assert_eq!(seg.len(), 2 + 4);
    assert_eq!(
        maps(seg),
        vec![(0x40_0000, 0x5), (0x40_2000, 0x7 | NX), (0x40_3000, 0x7 | NX)]
    );
    assert_eq!(
        copies(seg),
        vec![(0x40_0000, 0, 0x20), (0x40_2FF0, 0x2000, 0x10), (0x40_3000, 0x2010, 0x10)]
    );
}

#[test]
fn bss_only_segment_maps_without_copying() {
    let plan = load_user_elf(&image(2, vec![load(RW, 0, 0x60_0000, 0, 0x3000)])).unwrap();
    let seg = segment_part(&plan.ops);
    assert_eq!(maps(seg).len(), 3);
    assert!(copies(seg).is_empty());
}

#[test]
fn plan_reserves_pool_and_break_regions() {
    let plan = load_user_elf(&image(3, vec![])).unwrap();
    assert_eq!(plan.ops.len(), 128 + 256);
    let all = maps(&plan.ops);
    for i in 0..128 {
        assert_eq!(all[i], (0x48_0000 + i as u64 * 4096, 0x7 | NX));
    }
    for i in 0..256 {
        assert_eq!(all[128 + i], (0x800_0000 + i as u64 * 4096, 0x7 | NX));
    }
}

#[test]
fn loading_twice_gives_the_same_plan() {
    let segments = vec![load(RX, 0, 0, 0x1800, 0x1800), load(RW, 0x1800, 0x2800, 0x100, 0x900)];
    let a = load_user_elf(&image(3, segments.clone())).unwrap();
    let b = load_user_elf(&image(3, segments)).unwrap();
    assert_eq!(format!("{:?}", a), format!("{:?}", b));
}

#[test]
fn image_errors() {
    let mut img = image(3, vec![]);
    img.header.entry_point = 0x8000_0000_0000 - 0x40_0000;
    assert_eq!(load_user_elf(&img).unwrap_err(), ElfError::BadEntryPoint);
    img.header.entry_point -= 1;
    assert!(load_user_elf(&img).is_ok());
    img.header.ph_offset = u64::MAX;
    assert_eq!(load_user_elf(&img).unwrap_err(), ElfError::BadProgramHeaderTable);

    let outside = load(RW, 0, 0x7FFF_FFFF_F000, 0, 0x1001);
    assert_eq!(
        load_user_elf(&image(2, vec![outside])).unwrap_err(),
        ElfError::SegmentOutsideUserSpace
    );
    assert!(load_user_elf(&image(2, vec![load(RW, 0, 0x7FFF_FFFF_F000, 0, 0x1000)])).is_ok());
    assert_eq!(
        load_user_elf(&image(2, vec![load(RW, 0, u64::MAX, 0, u64::MAX)])).unwrap_err(),
        ElfError::SegmentOutsideUserSpace
    );
    assert_eq!(
        load_user_elf(&image(2, vec![load(RW, 0, 0x1000, 0x11, 0x10)])).unwrap_err(),
        ElfError::SegmentFileSizeTooLarge
    );
    assert_eq!(
        load_user_elf(&image(2, vec![load(RW, 0xFFF1, 0x1000, 0x10, 0x10)])).unwrap_err(),
        ElfError::SegmentOutsideFile
    );
    assert!(load_user_elf(&image(2, vec![load(RW, 0xFFF0, 0x1000, 0x10, 0x10)])).is_ok());
    // The first bad segment decides, and the header is checked before any segment.
    let two = vec![load(RW, 0, 0x1000, 0x11, 0x10), load(RW, 0xFFF1, 0x1000, 0x10, 0x10)];
    assert_eq!(load_user_elf(&image(2, two.clone())).unwrap_err(), ElfError::SegmentFileSizeTooLarge);
    assert_eq!(load_user_elf(&image(1, two)).unwrap_err(), ElfError::UnsupportedType);
}

#[test]
fn check_segment_ignores_segments_that_are_not_loaded() {
    let note = ProgramHeader { kind: 4, flags: R, offset: u64::MAX, virtual_addr: u64::MAX, file_size: 9, mem_size: 1 };
    assert_eq!(check_segment(&note, 0x40_0000, 10), Ok(()));
    let empty = load(RW, u64::MAX, u64::MAX, 5, 0);
    assert_eq!(check_segment(&empty, 0x40_0000, 10), Ok(()));
}

#[test]
fn load_segment_appends_to_the_operations() {
    let mut ops = vec![PageOp::MapFresh { page: 0x1000, flags: 3, zero: false }];
    load_segment(&mut ops, &load(RX, 0x10, 0x1FF8, 0x10, 0x10), 0x40_0000, 0x100);
    assert_eq!(ops.len(), 5);
    assert!(matches!(ops[0], PageOp::MapFresh { page: 0x1000, .. }));
    assert_eq!(maps(&ops), vec![(0x40_1000, 0x5), (0x40_2000, 0x5)]);
    assert_eq!(copies(&ops), vec![(0x40_1FF8, 0x10, 8), (0x40_2000, 0x18, 8)]);
}

fn user_image() -> UserImage {
    load_user_elf(&image(3, vec![])).unwrap().image
}

#[test]
fn stack_plan_maps_sixteen_fresh_pages() {
    let plan = setup_user_stack(&user_image());
    assert_eq!(plan.ops.len(), 16);
    for (i, op) in plan.ops.iter().enumerate() {
        match *op {
            PageOp::MapFresh { page, flags, zero } => {
                assert_eq!(page, 0x7FFF_FFFE_0000 + i as u64 * 4096);
                assert_eq!(flags, 0x7 | NX);
                assert!(zero);
            }
            _ => panic!("unexpected operation"),
        }
    }
    match plan.ops[15] {
        PageOp::MapFresh { page, .. } => assert_eq!(page + 4096, 0x7FFF_FFFF_0000),
        _ => panic!("unexpected operation"),
    }
}

#[test]
fn initial_stack_layout() {
    let plan = setup_user_stack(&user_image());
    let sp = plan.stack_pointer;
    assert_eq!(sp, 0x7FFF_FFFE_FF00);
    assert_eq!(sp % 16, 0);
    assert_eq!(
        plan.words,
        vec![
            0, 0, 0, // argc, argv end, envp end
            3, 0x40_0040, // AT_PHDR
            4, 56, // AT_PHENT
            5, 3, // AT_PHNUM
            6, 4096, // AT_PAGESZ
            7, 0, // AT_BASE
            9, 0x40_1234, // AT_ENTRY
            25, sp + 240, // AT_RANDOM
            0, 0, // AT_NULL
        ]
    );
    // The words end below the sixteen bytes that AT_RANDOM points to.
    assert!(sp + 8 * plan.words.len() as u64 <= sp + 240);
    assert_eq!(sp + 256, 0x7FFF_FFFF_0000);
}

#[test]
fn auxiliary_vector_is_terminated_pairs() {
    let plan = setup_user_stack(&user_image());
    let aux = &plan.words[3..];
    assert_eq!(aux.len() % 2, 0);
    let tags: Vec<u64> = aux.chunks(2).map(|p| p[0]).collect();
    assert_eq!(*tags.last().unwrap(), 0);
    assert!(tags[..tags.len() - 1].iter().all(|&t| t != 0));
    for needed in [3u64, 4, 5, 6, 9] {
        assert!(tags.contains(&needed));
    }
}

/// Carries a plan out on an empty address space, page by page.
fn run(ops: &[PageOp], file: &[u8]) -> std::collections::BTreeMap<u64, (u64, Vec<u8>)> {
    let mut pages = std::collections::BTreeMap::new();
    for op in ops {
        match *op {
            PageOp::MapFresh { page, flags, .. } => {
                pages.insert(page, (flags, vec![0u8; 4096]));
            }
            PageOp::MapIfAbsent { page, flags } => {
                pages.entry(page).or_insert((flags, vec![0u8; 4096]));
            }
            PageOp::Copy { dest, src_offset, len } => {
                let page = dest - dest % 4096;
                let at = (dest % 4096) as usize;
                assert!(at + len as usize <= 4096);
                let target = &mut pages.get_mut(&page).expect("page is mapped").1;
                target[at..at + len as usize]
                    .copy_from_slice(&file[src_offset as usize..(src_offset + len) as usize]);
            }
        }
    }
    pages
}

fn byte_at(pages: &std::collections::BTreeMap<u64, (u64, Vec<u8>)>, addr: u64) -> u8 {
    pages[&(addr - addr % 4096)].1[(addr % 4096) as usize]
}

#[test]
fn loaded_memory_holds_file_bytes_then_zeros() {
    let file: Vec<u8> = (0..0x10000u32).map(|i| (i % 251) as u8 + 1).collect();
    let segments = vec![load(RX, 0x100, 0x0F80, 0x1100, 0x1100), load(RW, 0x2000, 0x3F00, 0x180, 0x2400)];
    let plan = load_user_elf(&image(3, segments.clone())).unwrap();
    let pages = run(&plan.ops, &file);
    for seg in &segments {
        for k in 0..seg.mem_size {
            let expected = if k < seg.file_size { file[(seg.offset + k) as usize] } else { 0 };
            assert_eq!(byte_at(&pages, 0x40_0000 + seg.virtual_addr + k), expected);
        }
    }
    // Twice the same image, twice the same memory.
    let again = run(&load_user_elf(&image(3, segments)).unwrap().ops, &file);
    assert_eq!(pages, again);
    // The pool is mapped and zero.
    for addr in (0x48_0000..0x50_0000u64).step_by(0x800) {
        assert_eq!(byte_at(&pages, addr), 0);
    }
}

#[test]
fn segments_sharing_a_page_keep_the_first_mapping() {
    let file: Vec<u8> = vec![0xAB; 0x10000];
    let segments = vec![load(RX, 0, 0x1000, 0x800, 0x800), load(RW, 0x800, 0x1800, 0x100, 0x1000)];
    let plan = load_user_elf(&image(2, segments)).unwrap();
    let pages = run(&plan.ops, &file);
    // The shared page keeps the flags of the segment that mapped it first.
    assert_eq!(pages[&0x1000].0, 0x5);
    assert_eq!(pages[&0x2000].0, 0x7 | NX);
    assert_eq!(byte_at(&pages, 0x17FF), 0xAB);
    assert_eq!(byte_at(&pages, 0x18FF), 0xAB);
    assert_eq!(byte_at(&pages, 0x1900), 0);
}
