use kernel_core::elf_loader::enter_userspace;
use kernel_core::gdt::{
    gdt_layout, get_user_code_selector, get_user_data_selector, selectors, syscall_msrs,
    Descriptor,
};
use kernel_core::heap_allocator::{init_heap, KERNEL_HEAP_SIZE, KERNEL_HEAP_START};
use kernel_core::paging::{heap_tolerates, loader_tolerates, page_flags, page_of, MapError, PageOp};

#[test]
fn user_selectors() {
    assert_eq!(get_user_code_selector(), 0x23);
    assert_eq!(get_user_data_selector(), 0x1B);
}

#[test]
fn table_selectors() {
    let s = selectors();
    assert_eq!(s.code_selector, 0x08);
    assert_eq!(s.data_selector, 0x10);
    assert_eq!(s.user_data_selector, 0x1B);
    assert_eq!(s.user_code_selector, 0x23);
    assert_eq!(s.tss_selector, 0x28);
}

#[test]
fn table_order() {
    let table = gdt_layout();
    assert!(matches!(table[0], Descriptor::Null));
    assert!(matches!(table[1], Descriptor::KernelCode));
    assert!(matches!(table[2], Descriptor::KernelData));
    assert!(matches!(table[3], Descriptor::UserData));
    assert!(matches!(table[4], Descriptor::UserCode));
    assert!(matches!(table[5], Descriptor::Tss));
}

#[test]
fn syscall_registers_match_the_table() {
    let msrs = syscall_msrs();
    assert_eq!(msrs.star_sysret_base, 0x13);
    assert_eq!(msrs.star_syscall_base, 0x08);
    assert_eq!(msrs.star_sysret_base + 16, get_user_code_selector());
    assert_eq!(msrs.star_sysret_base + 8, get_user_data_selector());
    assert_eq!(msrs.sfmask, 0x300);
    assert_eq!(msrs.efer_set, 1);
}

#[test]
fn trap_return_frame() {
    let frame = enter_userspace(0x40_1000, 0x7FFF_FFFE_FF00);
    assert_eq!(frame.ss, 0x1B);
    assert_eq!(frame.rsp, 0x7FFF_FFFE_FF00);
    assert_eq!(frame.rflags, 0x202);
    assert_eq!(frame.cs, 0x23);
    assert_eq!(frame.rip, 0x40_1000);
}

#[test]
fn page_flag_bits() {
    assert_eq!(page_flags(false, false, false), 0x1);
    assert_eq!(page_flags(true, false, false), 0x3);
    assert_eq!(page_flags(false, true, false), 0x5);
    assert_eq!(page_flags(true, true, false), 0x7);
    assert_eq!(page_flags(false, false, true), 0x8000_0000_0000_0001);
    assert_eq!(page_flags(true, true, true), 0x8000_0000_0000_0007);
    assert_eq!(page_flags(false, true, true), 0x8000_0000_0000_0005);
}

#[test]
fn page_of_rounds_down() {
    assert_eq!(page_of(0), 0);
    assert_eq!(page_of(0xFFF), 0);
    assert_eq!(page_of(0x1000), 0x1000);
    assert_eq!(page_of(0x40_1234), 0x40_1000);
    assert_eq!(page_of(u64::MAX), 0xFFFF_FFFF_FFFF_F000);
}

#[test]
fn map_error_policies() {
    assert!(loader_tolerates(MapError::PageAlreadyMapped));
    assert!(!loader_tolerates(MapError::FrameAllocationFailed));
    assert!(!loader_tolerates(MapError::ParentEntryHugePage));
    assert!(!heap_tolerates(MapError::PageAlreadyMapped));
    assert!(!heap_tolerates(MapError::FrameAllocationFailed));
    assert!(!heap_tolerates(MapError::ParentEntryHugePage));
}

#[test]
fn heap_plan_maps_every_heap_page() {
    let plan = init_heap();
    assert_eq!(plan.start, 0xFFFF_9000_0000_0000);
    assert_eq!(plan.start, KERNEL_HEAP_START);
    assert_eq!(plan.size, 100 * 1024);
    assert_eq!(plan.size, KERNEL_HEAP_SIZE);
    assert_eq!(plan.ops.len(), 25);
    for (i, op) in plan.ops.iter().enumerate() {
        match *op {
            PageOp::MapFresh { page, flags, zero } => {
                assert_eq!(page, KERNEL_HEAP_START + i as u64 * 4096);
                assert_eq!(flags, 0x3);
                assert!(!zero);
            }
            _ => panic!("unexpected operation"),
        }
    }
}
