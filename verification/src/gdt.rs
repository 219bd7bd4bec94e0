//! Segment selectors and the values that tie the `syscall` instruction to the
//! order of the descriptor table.

use vstd::prelude::*;

verus! {

/// Slot of the interrupt stack table that the double fault handler runs on.
pub const DOUBLE_FAULT_IST_INDEX: u16 = 0;

/// Size in bytes of the stack used on entry to ring 0 and of the double fault
/// stack.
pub const KERNEL_STACK_SIZE: usize = 4096 * 5;

/// Flags register that a user program starts with: interrupts enabled, and
/// the bit that always reads as one.
pub const RFLAGS_USER: u64 = 0x202;

/// Flags that the processor clears on `syscall`: interrupt enable and trap.
pub const SFMASK_VALUE: u64 = 0x300;

/// Bit of the extended feature enable register that turns `syscall` on.
pub const EFER_SYSTEM_CALL_EXTENSIONS: u64 = 1;

/// What a slot of the descriptor table holds.
#[derive(Debug, Clone, Copy)]
pub enum Descriptor {
    Null,
    KernelCode,
    KernelData,
    UserData,
    UserCode,
    /// A task state segment descriptor, which takes two slots.
    Tss,
}

impl Descriptor {
    /// Number of table slots that the descriptor takes.
    pub open spec fn slots(self) -> int {
        match self {
            Descriptor::Tss => 2,
            _ => 1,
        }
    }

    /// Privilege level that a selector for the descriptor asks for.
    pub open spec fn privilege(self) -> int {
        match self {
            Descriptor::UserData | Descriptor::UserCode => 3,
            _ => 0,
        }
    }
}

/// The selectors of the kernel's descriptor table, as the values loaded into
/// the segment registers.
#[derive(Debug, Clone, Copy)]
pub struct Selectors {
    pub code_selector: u16,
    pub data_selector: u16,
    pub user_data_selector: u16,
    pub user_code_selector: u16,
    pub tss_selector: u16,
}

/// The selector for table slot `index` at privilege level `rpl`: the index in
/// bits 3 and up, the level in bits 0 and 1.
pub open spec fn selector_bits(index: int, rpl: int) -> int {
    index * 8 + rpl
}

/// Builds a selector with `x86_64`'s `SegmentSelector::new`, the level made
/// by `PrivilegeLevel::from_u16`. Not verified: the contract states the
/// selector's bits, which that function computes as the index shifted left by
/// three, or-ed with the level.
#[verifier::external_body]
fn segment_selector(index: u16, rpl: u16) -> (bits: u16)
    requires
        index < 8192,
        rpl <= 3,
    ensures
        bits == selector_bits(index as int, rpl as int),
{
    x86_64::structures::gdt::SegmentSelector::new(
        index,
        x86_64::PrivilegeLevel::from_u16(rpl),
    ).0
}

/// The slot at which entry `k` of `table` starts.
pub open spec fn first_slot(table: Seq<Descriptor>, k: int) -> int
    decreases k,
{
    if k <= 0 {
        0
    } else {
        first_slot(table, k - 1) + table[k - 1].slots()
    }
}

/// The selector that the table hands out for its entry `k`.
pub open spec fn selector_of(table: Seq<Descriptor>, k: int) -> int {
    selector_bits(first_slot(table, k), table[k].privilege())
}

/// The kernel's descriptor table.
pub open spec fn kernel_gdt() -> Seq<Descriptor> {
    seq![
        Descriptor::Null,
        Descriptor::KernelCode,
        Descriptor::KernelData,
        Descriptor::UserData,
        Descriptor::UserCode,
        Descriptor::Tss,
    ]
}

/// The descriptor table, slot by slot. User data comes before user code:
/// `sysret` takes the stack selector from the slot after its base and the
/// code selector from the one after that.
pub fn gdt_layout() -> (table: [Descriptor; 6])
    ensures
        table@ == kernel_gdt(),
{
    let table = [
        Descriptor::Null,
        Descriptor::KernelCode,
        Descriptor::KernelData,
        Descriptor::UserData,
        Descriptor::UserCode,
        Descriptor::Tss,
    ];
    assert(table@ =~= kernel_gdt());
    table
}

/// Selector of the user code segment, with requested privilege level 3.
pub fn get_user_code_selector() -> (bits: u16)
    ensures
        bits == 0x23,
        bits == selector_of(kernel_gdt(), 4),
{
    reveal_with_fuel(first_slot, 6);
    segment_selector(4, 3)
}

/// Selector of the user data segment, with requested privilege level 3.
pub fn get_user_data_selector() -> (bits: u16)
    ensures
        bits == 0x1B,
        bits == selector_of(kernel_gdt(), 3),
{
    reveal_with_fuel(first_slot, 6);
    segment_selector(3, 3)
}

/// The selectors that the kernel's descriptor table hands out: each names
/// the slot at which its entry starts and asks for the entry's privilege
/// level.
pub fn selectors() -> (s: Selectors)
    ensures
        s.code_selector == selector_of(kernel_gdt(), 1) == 0x08,
        s.data_selector == selector_of(kernel_gdt(), 2) == 0x10,
        s.user_data_selector == selector_of(kernel_gdt(), 3) == 0x1B,
        s.user_code_selector == selector_of(kernel_gdt(), 4) == 0x23,
        s.tss_selector == selector_of(kernel_gdt(), 5) == 0x28,
{
    reveal_with_fuel(first_slot, 6);
    Selectors {
        code_selector: segment_selector(1, 0),
        data_selector: segment_selector(2, 0),
        user_data_selector: segment_selector(3, 3),
        user_code_selector: segment_selector(4, 3),
        tss_selector: segment_selector(5, 0),
    }
}

/// The values that set the `syscall` instruction up.
#[derive(Debug, Clone, Copy)]
pub struct SyscallMsrs {
    /// Selector base that `sysret` derives the user selectors from.
    pub star_sysret_base: u16,
    /// Selector base that `syscall` derives the kernel selectors from.
    pub star_syscall_base: u16,
    /// Flags cleared on entry.
    pub sfmask: u64,
    /// Bits to set in the extended feature enable register.
    pub efer_set: u64,
}

/// The register values for `syscall` and `sysret`. On `syscall` the processor
/// loads the code selector from the syscall base and the stack selector from
/// eight above it; on `sysret` it loads the stack selector from eight above
/// the sysret base and the code selector from sixteen above it.
pub fn syscall_msrs() -> (msrs: SyscallMsrs)
    ensures
        msrs.star_sysret_base == 0x13,
        msrs.star_syscall_base == 0x08,
        msrs.star_syscall_base == selector_of(kernel_gdt(), 1),
        msrs.star_syscall_base + 8 == selector_of(kernel_gdt(), 2),
        msrs.star_sysret_base + 8 == selector_of(kernel_gdt(), 3),
        msrs.star_sysret_base + 16 == selector_of(kernel_gdt(), 4),
        msrs.sfmask == SFMASK_VALUE,
        msrs.efer_set == EFER_SYSTEM_CALL_EXTENSIONS,
{
    let s = selectors();
    SyscallMsrs {
        star_sysret_base: s.user_data_selector - 8,
        star_syscall_base: s.code_selector,
        sfmask: SFMASK_VALUE,
        efer_set: EFER_SYSTEM_CALL_EXTENSIONS,
    }
}

/// The five words that the interrupt return instruction pops when it enters
/// ring 3, in the order in which the kernel pushes them.
#[derive(Debug, Clone, Copy)]
pub struct TrapReturnFrame {
    pub ss: u64,
    pub rsp: u64,
    pub rflags: u64,
    pub cs: u64,
    pub rip: u64,
}

} // verus!
