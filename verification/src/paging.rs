//! Page arithmetic, page table flags and the operations that the loader and
//! the heap ask the address space to carry out.

use vstd::prelude::*;

verus! {

/// Size of a page in bytes.
pub const PAGE_BYTES: u64 = 4096;

/// First address above the lower (user) half of the canonical address space.
pub const USER_SPACE_END: u64 = 0x8000_0000_0000;

/// Reads the bits of `x86_64`'s `PageTableFlags::PRESENT`. Not verified: the
/// contract states the flag's value, bit 0.
#[verifier::external_body]
fn present_bits() -> (bits: u64)
    ensures
        bits == 0x1,
{
    x86_64::structures::paging::PageTableFlags::PRESENT.bits()
}

/// Reads the bits of `x86_64`'s `PageTableFlags::WRITABLE`. Not verified: the
/// contract states the flag's value, bit 1.
#[verifier::external_body]
fn writable_bits() -> (bits: u64)
    ensures
        bits == 0x2,
{
    x86_64::structures::paging::PageTableFlags::WRITABLE.bits()
}

/// Reads the bits of `x86_64`'s `PageTableFlags::USER_ACCESSIBLE`. Not
/// verified: the contract states the flag's value, bit 2.
#[verifier::external_body]
fn user_accessible_bits() -> (bits: u64)
    ensures
        bits == 0x4,
{
    x86_64::structures::paging::PageTableFlags::USER_ACCESSIBLE.bits()
}

/// Reads the bits of `x86_64`'s `PageTableFlags::NO_EXECUTE`. Not verified:
/// the contract states the flag's value, bit 63.
#[verifier::external_body]
fn no_execute_bits() -> (bits: u64)
    ensures
        bits == 0x8000_0000_0000_0000,
{
    x86_64::structures::paging::PageTableFlags::NO_EXECUTE.bits()
}

/// The flags of a present leaf entry: bit 1 for writable, bit 2 for user
/// accessible, bit 63 for no-execute; every other bit is zero.
pub open spec fn spec_page_flags(writable: bool, user: bool, no_execute: bool) -> u64 {
    (0x1 + if writable {
        0x2int
    } else {
        0
    } + if user {
        0x4int
    } else {
        0
    } + if no_execute {
        0x8000_0000_0000_0000int
    } else {
        0
    }) as u64
}

/// Builds the flags of a present leaf entry.
pub fn page_flags(writable: bool, user: bool, no_execute: bool) -> (flags: u64)
    ensures
        flags == spec_page_flags(writable, user, no_execute),
{
    let mut flags: u64 = present_bits();
    if writable {
        let w: u64 = writable_bits();
        assert(0x1u64 | 0x2u64 == 0x3u64) by (bit_vector);
        flags = flags | w;
    }
    if user {
        let u: u64 = user_accessible_bits();
        assert(0x1u64 | 0x4u64 == 0x5u64 && 0x3u64 | 0x4u64 == 0x7u64) by (bit_vector);
        flags = flags | u;
    }
    if no_execute {
        let nx: u64 = no_execute_bits();
        assert(0x1u64 | 0x8000_0000_0000_0000u64 == 0x8000_0000_0000_0001u64 && 0x3u64
            | 0x8000_0000_0000_0000u64 == 0x8000_0000_0000_0003u64 && 0x5u64
            | 0x8000_0000_0000_0000u64 == 0x8000_0000_0000_0005u64 && 0x7u64
            | 0x8000_0000_0000_0000u64 == 0x8000_0000_0000_0007u64) by (bit_vector);
        flags = flags | nx;
    }
    flags
}

/// Start of the page that holds `addr`.
pub open spec fn page_base(addr: u64) -> u64 {
    (addr - addr % 4096) as u64
}

/// Computes the start of the page that holds `addr`.
pub fn page_of(addr: u64) -> (page: u64)
    ensures
        page == page_base(addr),
{
    addr - addr % PAGE_BYTES
}

/// Number of pages that the bytes `[start, start + len)` touch.
pub open spec fn page_span(start: u64, len: u64) -> nat {
    if len == 0 {
        0
    } else {
        ((start + len - 1) / 4096 - start / 4096 + 1) as nat
    }
}

/// Something the loader or the heap asks the address space to do. The kernel
/// carries the operations out in order; one that fails is fatal.
#[derive(Debug, Clone, Copy)]
pub enum PageOp {
    /// Map `page` to a newly allocated frame with `flags`, then zero the
    /// frame if `zero` is set. The page must not be mapped yet.
    MapFresh { page: u64, flags: u64, zero: bool },
    /// If `page` is not mapped, map it to a newly allocated frame with
    /// `flags` and zero the frame; a page that is mapped stays as it is.
    MapIfAbsent { page: u64, flags: u64 },
    /// Copy `len` bytes of the program image, from offset `src_offset`, to
    /// the mapped address `dest`. The bytes lie in one page.
    Copy { dest: u64, src_offset: u64, len: u64 },
}

/// Why a page could not be mapped.
#[derive(Debug, Clone, Copy)]
pub enum MapError {
    /// No frame was left for the page or for one of its tables.
    FrameAllocationFailed,
    /// A table above the page maps a huge page.
    ParentEntryHugePage,
    /// The page is mapped already.
    PageAlreadyMapped,
}

/// Whether the program loader goes on after `error`: a page that is mapped
/// already belongs to a segment that shares it; anything else is fatal.
pub fn loader_tolerates(error: MapError) -> (r: bool)
    ensures
        r == (error is PageAlreadyMapped),
{
    match error {
        MapError::PageAlreadyMapped => true,
        _ => false,
    }
}

/// Whether the heap set-up goes on after `error`: never.
pub fn heap_tolerates(error: MapError) -> (r: bool)
    ensures
        !r,
{
    false
}

/// `count` consecutive pages from `first_page` on, each mapped fresh.
pub open spec fn fresh_pages(first_page: u64, count: nat, flags: u64, zero: bool) -> Seq<PageOp> {
    Seq::new(
        count,
        |i: int| PageOp::MapFresh { page: (first_page + i * 4096) as u64, flags, zero },
    )
}

/// `count` consecutive pages from `first_page` on, each mapped unless it is
/// mapped already.
pub open spec fn absent_pages(first_page: u64, count: nat, flags: u64) -> Seq<PageOp> {
    Seq::new(count, |i: int| PageOp::MapIfAbsent { page: (first_page + i * 4096) as u64, flags })
}

/// Appends the operations that map `count` fresh pages from `first_page` on.
pub fn push_fresh_pages(ops: &mut Vec<PageOp>, first_page: u64, count: u64, flags: u64, zero: bool)
    requires
        first_page + count * 4096 <= u64::MAX,
    ensures
        final(ops)@ == old(ops)@ + fresh_pages(first_page, count as nat, flags, zero),
{
    let mut i: u64 = 0;
    while i < count
        invariant
            i <= count,
            first_page + count * 4096 <= u64::MAX,
            ops@ == old(ops)@ + fresh_pages(first_page, i as nat, flags, zero),
        decreases count - i,
    {
        ops.push(PageOp::MapFresh { page: first_page + i * PAGE_BYTES, flags, zero });
        assert(ops@ =~= old(ops)@ + fresh_pages(first_page, (i + 1) as nat, flags, zero));
        i = i + 1;
    }
}

/// Appends the operations that map `count` pages from `first_page` on unless
/// they are mapped already.
pub fn push_absent_pages(ops: &mut Vec<PageOp>, first_page: u64, count: u64, flags: u64)
    requires
        first_page + count * 4096 <= u64::MAX,
    ensures
        final(ops)@ == old(ops)@ + absent_pages(first_page, count as nat, flags),
{
    let mut i: u64 = 0;
    while i < count
        invariant
            i <= count,
            first_page + count * 4096 <= u64::MAX,
            ops@ == old(ops)@ + absent_pages(first_page, i as nat, flags),
        decreases count - i,
    {
        ops.push(PageOp::MapIfAbsent { page: first_page + i * PAGE_BYTES, flags });
        assert(ops@ =~= old(ops)@ + absent_pages(first_page, (i + 1) as nat, flags));
        i = i + 1;
    }
}


/// What a mapped page holds: its flags and, where they are known, its 4096
/// bytes.
pub struct PageImage {
    pub flags: u64,
    pub bytes: Option<Seq<u8>>,
}

/// A page of zero bytes.
pub open spec fn zero_page() -> Seq<u8> {
    Seq::new(4096, |i: int| 0u8)
}

/// `bytes` with the `len` bytes from offset `at` on replaced by the bytes of
/// `file` from offset `src` on.
pub open spec fn patched(bytes: Seq<u8>, at: int, file: Seq<u8>, src: int, len: int) -> Seq<u8> {
    Seq::new(
        bytes.len(),
        |i: int|
            if at <= i < at + len {
                file[src + (i - at)]
            } else {
                bytes[i]
            },
    )
}

/// The mapped pages, by page address, after one operation took effect on
/// `pages`, the program image being `file`; `None` where the operation cannot
/// be carried out, which is fatal for the kernel: a fresh mapping of a page
/// that is mapped already, or a copy to a page that is not mapped. Frames are
/// taken to be available.
pub open spec fn apply_op(pages: Map<u64, PageImage>, file: Seq<u8>, op: PageOp) -> Option<
    Map<u64, PageImage>,
> {
    match op {
        PageOp::MapFresh { page, flags, zero } => if pages.dom().contains(page) {
            None
        } else {
            Some(
                pages.insert(
                    page,
                    PageImage {
                        flags,
                        bytes: if zero {
                            Some(zero_page())
                        } else {
                            None
                        },
                    },
                ),
            )
        },
        PageOp::MapIfAbsent { page, flags } => if pages.dom().contains(page) {
            Some(pages)
        } else {
            Some(pages.insert(page, PageImage { flags, bytes: Some(zero_page()) }))
        },
        PageOp::Copy { dest, src_offset, len } => {
            let page = page_base(dest);
            if !pages.dom().contains(page) {
                None
            } else {
                match pages[page].bytes {
                    Some(bytes) => Some(
                        pages.insert(
                            page,
                            PageImage {
                                flags: pages[page].flags,
                                bytes: Some(
                                    patched(
                                        bytes,
                                        dest as int % 4096,
                                        file,
                                        src_offset as int,
                                        len as int,
                                    ),
                                ),
                            },
                        ),
                    ),
                    None => Some(pages),
                }
            }
        },
    }
}

/// The mapped pages after the operations in `ops` took effect in order;
/// `None` where one of them cannot be carried out.
pub open spec fn apply_ops(pages: Map<u64, PageImage>, file: Seq<u8>, ops: Seq<PageOp>) -> Option<
    Map<u64, PageImage>,
>
    decreases ops.len(),
{
    if ops.len() == 0 {
        Some(pages)
    } else {
        match apply_ops(pages, file, ops.drop_last()) {
            Some(before) => apply_op(before, file, ops.last()),
            None => None,
        }
    }
}

/// The byte at `addr`, if its page is mapped and its bytes are known.
pub open spec fn byte_at(pages: Map<u64, PageImage>, addr: u64) -> Option<u8> {
    let page = page_base(addr);
    if pages.dom().contains(page) && pages[page].bytes is Some {
        Some(pages[page].bytes->0[addr as int % 4096])
    } else {
        None
    }
}


/// A plan never clobbers a mapping: asking to map a page that is mapped
/// already leaves its flags and its bytes as they are.
pub proof fn law_mapped_page_is_kept(
    pages: Map<u64, PageImage>,
    file: Seq<u8>,
    page: u64,
    flags: u64,
)
    requires
        pages.dom().contains(page),
    ensures
        apply_op(pages, file, PageOp::MapIfAbsent { page, flags }) == Some(pages),
{
}

/// A page that was not mapped is mapped with the flags asked for and holds
/// zeros after the plan asked for it.
pub proof fn law_absent_page_is_zeroed(
    pages: Map<u64, PageImage>,
    file: Seq<u8>,
    page: u64,
    flags: u64,
    addr: u64,
)
    requires
        !pages.dom().contains(page),
        page % 4096 == 0,
        page <= addr < page + 4096,
    ensures
        apply_op(pages, file, PageOp::MapIfAbsent { page, flags }) matches Some(after)
            && byte_at(after, addr) == Some(0u8) && after[page].flags == flags,
{
}

} // verus!
