//! Loader for ELF64 user programs. From the headers of an image it works out
//! which pages to map with which permissions, which bytes to copy where, and
//! what the initial user stack holds; the kernel carries the plan out.

use crate::gdt::{get_user_code_selector, get_user_data_selector, TrapReturnFrame, RFLAGS_USER};
use crate::paging::{
    absent_pages, apply_op, apply_ops, byte_at, fresh_pages, page_base, page_flags, page_of,
    page_span, patched, push_absent_pages, push_fresh_pages, spec_page_flags, zero_page,
    PageImage, PageOp, USER_SPACE_END,
};
use vstd::prelude::*;

verus! {

/// Address at which a position-independent program is loaded.
pub const USER_BASE_ADDR: u64 = 0x40_0000;

/// Address just above the user stack.
pub const USER_STACK_TOP: u64 = 0x7FFF_FFFF_0000;

/// Size of the user stack in bytes.
pub const USER_STACK_SIZE: u64 = 16 * 4096;

/// Bytes kept free between the initial stack contents and the top of the
/// stack.
pub const STACK_RESERVE: u64 = 256;

/// First address of the pool that anonymous mappings are taken from.
pub const MMAP_POOL_START: u64 = 0x48_0000;

/// End (exclusive) of the pool that anonymous mappings are taken from.
pub const MMAP_POOL_END: u64 = 0x50_0000;

/// First address of the region reserved for the program break.
pub const HEAP_START: u64 = 0x800_0000;

/// End (exclusive) of the region reserved for the program break.
pub const HEAP_END: u64 = 0x810_0000;

/// Class byte of a 64-bit image.
pub const ELF_CLASS_64: u8 = 2;

/// Machine number of x86_64.
pub const EM_X86_64: u16 = 62;

/// Type of an executable with fixed addresses.
pub const ET_EXEC: u16 = 2;

/// Type of a position-independent executable.
pub const ET_DYN: u16 = 3;

/// Type of a program header that describes a loadable segment.
pub const PT_LOAD: u32 = 1;

/// Segment flag: executable.
pub const PF_X: u32 = 1;

/// Segment flag: writable.
pub const PF_W: u32 = 2;

pub const AT_NULL: u64 = 0;
pub const AT_PHDR: u64 = 3;
pub const AT_PHENT: u64 = 4;
pub const AT_PHNUM: u64 = 5;
pub const AT_PAGESZ: u64 = 6;
pub const AT_BASE: u64 = 7;
pub const AT_ENTRY: u64 = 9;
pub const AT_RANDOM: u64 = 25;

/// The fields of the ELF header that the loader reads.
#[derive(Debug, Clone, Copy)]
pub struct ElfHeader {
    pub magic: [u8; 4],
    pub class: u8,
    pub machine: u16,
    pub elf_type: u16,
    pub entry_point: u64,
    pub ph_offset: u64,
    pub ph_entry_size: u16,
    pub ph_count: u16,
}

/// The fields of a program header that the loader reads.
#[derive(Debug, Clone, Copy)]
pub struct ProgramHeader {
    pub kind: u32,
    pub flags: u32,
    pub offset: u64,
    pub virtual_addr: u64,
    pub file_size: u64,
    pub mem_size: u64,
}

/// A parsed program image: its header, its program headers in file order and
/// the length of the file in bytes.
#[derive(Debug)]
pub struct ElfImage {
    pub header: ElfHeader,
    pub segments: Vec<ProgramHeader>,
    pub file_len: u64,
}

/// Why an image cannot be loaded.
#[derive(Debug, Clone, Copy, PartialEq, Eq)]
pub enum ElfError {
    /// The file does not start with the ELF magic number.
    BadMagic,
    /// The image is not a 64-bit one.
    UnsupportedClass,
    /// The image is not for x86_64.
    UnsupportedMachine,
    /// The image is neither an executable nor a position-independent one.
    UnsupportedType,
    /// The entry point does not lie in the user half of the address space.
    BadEntryPoint,
    /// The program header table does not lie in the user half of the address
    /// space.
    BadProgramHeaderTable,
    /// A loadable segment does not lie in the user half of the address space.
    SegmentOutsideUserSpace,
    /// A loadable segment has more bytes in the file than in memory.
    SegmentFileSizeTooLarge,
    /// A loadable segment's bytes do not lie inside the file.
    SegmentOutsideFile,
}

/// Where the loaded program lives.
#[derive(Debug, Clone, Copy)]
pub struct UserImage {
    pub entry_point: u64,
    pub phdr_addr: u64,
    pub ph_count: u16,
    pub ph_entry_size: u16,
    pub stack_top: u64,
    pub heap_base: u64,
    pub heap_limit: u64,
    pub mmap_base: u64,
    pub mmap_limit: u64,
}

/// What the kernel has to do to bring a program into memory.
#[derive(Debug)]
pub struct LoadPlan {
    /// The page operations, in the order in which to carry them out.
    pub ops: Vec<PageOp>,
    /// Where the program lives once they are done.
    pub image: UserImage,
    /// Whether the image is position-independent, and so was placed at the
    /// user base.
    pub is_pie: bool,
}

/// What the kernel has to do to give a program its stack.
#[derive(Debug)]
pub struct StackPlan {
    /// The operations that map the stack's pages.
    pub ops: Vec<PageOp>,
    /// The stack pointer that the program starts with.
    pub stack_pointer: u64,
    /// The 64-bit words to store from the stack pointer upwards, eight bytes
    /// apart.
    pub words: Vec<u64>,
}

/// The first reason, if any, for which the header cannot be accepted.
pub open spec fn header_error(header: ElfHeader) -> Option<ElfError> {
    if !(header.magic@[0] == 0x7F && header.magic@[1] == 0x45 && header.magic@[2] == 0x4C
        && header.magic@[3] == 0x46) {
        Some(ElfError::BadMagic)
    } else if header.class != ELF_CLASS_64 {
        Some(ElfError::UnsupportedClass)
    } else if header.machine != EM_X86_64 {
        Some(ElfError::UnsupportedMachine)
    } else if header.elf_type != ET_EXEC && header.elf_type != ET_DYN {
        Some(ElfError::UnsupportedType)
    } else {
        None
    }
}

/// The address that the image's addresses are relative to: the user base for
/// a position-independent image, zero for one with fixed addresses.
pub open spec fn load_base(header: ElfHeader) -> u64 {
    if header.elf_type == ET_DYN {
        USER_BASE_ADDR
    } else {
        0
    }
}

/// The first reason, if any, for which the addresses in the header cannot be
/// accepted.
pub open spec fn address_error(header: ElfHeader) -> Option<ElfError> {
    if load_base(header) + header.entry_point >= USER_SPACE_END {
        Some(ElfError::BadEntryPoint)
    } else if load_base(header) + header.ph_offset >= USER_SPACE_END {
        Some(ElfError::BadProgramHeaderTable)
    } else {
        None
    }
}

/// The segment is brought into memory: a loadable one that is not empty.
pub open spec fn is_loaded(segment: ProgramHeader) -> bool {
    segment.kind == PT_LOAD && segment.mem_size > 0
}

/// The first reason, if any, for which a segment cannot be loaded at `base`
/// from a file of `file_len` bytes.
pub open spec fn segment_error(segment: ProgramHeader, base: u64, file_len: u64) -> Option<
    ElfError,
> {
    if !is_loaded(segment) {
        None
    } else if base + segment.virtual_addr + segment.mem_size > USER_SPACE_END {
        Some(ElfError::SegmentOutsideUserSpace)
    } else if segment.file_size > segment.mem_size {
        Some(ElfError::SegmentFileSizeTooLarge)
    } else if segment.offset + segment.file_size > file_len {
        Some(ElfError::SegmentOutsideFile)
    } else {
        None
    }
}

/// The error of the first segment, in file order, that cannot be loaded.
pub open spec fn first_segment_error(segments: Seq<ProgramHeader>, base: u64, file_len: u64)
    -> Option<ElfError>
    decreases segments.len(),
{
    if segments.len() == 0 {
        None
    } else {
        match first_segment_error(segments.drop_last(), base, file_len) {
            Some(e) => Some(e),
            None => segment_error(segments.last(), base, file_len),
        }
    }
}

/// The first reason, if any, for which the image is refused: the header is
/// checked first, then its addresses, then the segments in file order.
pub open spec fn image_error(image: ElfImage) -> Option<ElfError> {
    match header_error(image.header) {
        Some(e) => Some(e),
        None => match address_error(image.header) {
            Some(e) => Some(e),
            None => first_segment_error(
                image.segments@,
                load_base(image.header),
                image.file_len,
            ),
        },
    }
}

/// The page flags of a segment: present and user accessible, writable if the
/// segment is, not executable unless the segment is.
pub open spec fn segment_flags(flags: u32) -> u64 {
    spec_page_flags(flags & PF_W != 0, true, flags & PF_X == 0)
}

/// The page flags of user data: present, user accessible, writable, not
/// executable.
pub open spec fn user_data_flags() -> u64 {
    spec_page_flags(true, true, true)
}

/// The copies that bring `len` bytes of the image, from offset `src` on, to
/// address `dest`: one copy per page touched, first to last.
pub open spec fn copy_ops(dest: u64, src: u64, len: u64) -> Seq<PageOp>
    decreases len,
{
    if len == 0 {
        Seq::empty()
    } else {
        let room = 4096 - dest % 4096;
        let chunk = if room < len {
            room as u64
        } else {
            len
        };
        seq![PageOp::Copy { dest, src_offset: src, len: chunk }] + copy_ops(
            (dest + chunk) as u64,
            (src + chunk) as u64,
            (len - chunk) as u64,
        )
    }
}

/// The operations that load one segment at `base`: every page that the
/// segment's memory touches is mapped and zeroed unless it is mapped already,
/// then the segment's bytes are copied from the file.
pub open spec fn segment_ops(segment: ProgramHeader, base: u64) -> Seq<PageOp> {
    if is_loaded(segment) {
        let start = (base + segment.virtual_addr) as u64;
        absent_pages(
            page_base(start),
            page_span(start, segment.mem_size),
            segment_flags(segment.flags),
        ) + copy_ops(start, segment.offset, segment.file_size)
    } else {
        Seq::empty()
    }
}

/// The operations that load all segments, in file order.
pub open spec fn all_segment_ops(segments: Seq<ProgramHeader>, base: u64) -> Seq<PageOp>
    decreases segments.len(),
{
    if segments.len() == 0 {
        Seq::empty()
    } else {
        all_segment_ops(segments.drop_last(), base) + segment_ops(segments.last(), base)
    }
}

/// The operations that reserve the user data region `[start, end)`.
pub open spec fn region_ops(start: u64, end: u64) -> Seq<PageOp> {
    absent_pages(start, ((end - start) / 4096) as nat, user_data_flags())
}

/// The whole plan: the segments, then the mapping pool, then the region for
/// the program break.
pub open spec fn load_ops(image: ElfImage) -> Seq<PageOp> {
    all_segment_ops(image.segments@, load_base(image.header)) + region_ops(
        MMAP_POOL_START,
        MMAP_POOL_END,
    ) + region_ops(HEAP_START, HEAP_END)
}

/// Where the program described by `header` lives once it is loaded.
pub open spec fn user_image(header: ElfHeader) -> UserImage {
    UserImage {
        entry_point: (load_base(header) + header.entry_point) as u64,
        phdr_addr: (load_base(header) + header.ph_offset) as u64,
        ph_count: header.ph_count,
        ph_entry_size: header.ph_entry_size,
        stack_top: USER_STACK_TOP,
        heap_base: HEAP_START,
        heap_limit: HEAP_END,
        mmap_base: MMAP_POOL_START,
        mmap_limit: MMAP_POOL_END,
    }
}

/// Checks the header: magic number, class, machine and type.
pub fn check_header(header: &ElfHeader) -> (r: Result<(), ElfError>)
    ensures
        r == match header_error(*header) {
            Some(e) => Err::<(), ElfError>(e),
            None => Ok::<(), ElfError>(()),
        },
{
    if !(header.magic[0] == 0x7F && header.magic[1] == 0x45 && header.magic[2] == 0x4C
        && header.magic[3] == 0x46) {
        Err(ElfError::BadMagic)
    } else if header.class != ELF_CLASS_64 {
        Err(ElfError::UnsupportedClass)
    } else if header.machine != EM_X86_64 {
        Err(ElfError::UnsupportedMachine)
    } else if header.elf_type != ET_EXEC && header.elf_type != ET_DYN {
        Err(ElfError::UnsupportedType)
    } else {
        Ok(())
    }
}

/// Checks that one segment can be loaded at `base`.
pub fn check_segment(segment: &ProgramHeader, base: u64, file_len: u64) -> (r: Result<
    (),
    ElfError,
>)
    ensures
        r == match segment_error(*segment, base, file_len) {
            Some(e) => Err::<(), ElfError>(e),
            None => Ok::<(), ElfError>(()),
        },
{
    if !(segment.kind == PT_LOAD && segment.mem_size > 0) {
        return Ok(());
    }
    if base as u128 + segment.virtual_addr as u128 + segment.mem_size as u128
        > USER_SPACE_END as u128 {
        return Err(ElfError::SegmentOutsideUserSpace);
    }
    if segment.file_size > segment.mem_size {
        return Err(ElfError::SegmentFileSizeTooLarge);
    }
    if segment.offset as u128 + segment.file_size as u128 > file_len as u128 {
        return Err(ElfError::SegmentOutsideFile);
    }
    Ok(())
}

fn push_copy_ops(ops: &mut Vec<PageOp>, dest: u64, src: u64, len: u64)
    requires
        dest + len <= u64::MAX,
        src + len <= u64::MAX,
    ensures
        final(ops)@ == old(ops)@ + copy_ops(dest, src, len),
{
    let mut copied: u64 = 0;
    while copied < len
        invariant
            copied <= len,
            dest + len <= u64::MAX,
            src + len <= u64::MAX,
            ops@ + copy_ops((dest + copied) as u64, (src + copied) as u64, (len - copied) as u64)
                == old(ops)@ + copy_ops(dest, src, len),
        decreases len - copied,
    {
        let current: u64 = dest + copied;
        let page_offset: u64 = current % 4096;
        let room: u64 = 4096 - page_offset;
        let left: u64 = len - copied;
        let chunk: u64 = if room < left {
            room
        } else {
            left
        };
        let ghost before = ops@;
        let ghost rest = copy_ops(
            (current + chunk) as u64,
            (src + copied + chunk) as u64,
            (left - chunk) as u64,
        );
        let op = PageOp::Copy { dest: current, src_offset: src + copied, len: chunk };
        assert(copy_ops(current, (src + copied) as u64, left) == seq![op] + rest);
        ops.push(op);
        assert(ops@ + rest =~= before + (seq![op] + rest));
        copied = copied + chunk;
    }
    assert(copy_ops((dest + copied) as u64, (src + copied) as u64, 0) =~= Seq::<PageOp>::empty());
    assert(ops@ + Seq::<PageOp>::empty() =~= ops@);
}

/// Appends the operations that load one segment at `base`.
pub fn load_segment(ops: &mut Vec<PageOp>, segment: &ProgramHeader, base: u64, file_len: u64)
    requires
        segment_error(*segment, base, file_len) is None,
    ensures
        final(ops)@ == old(ops)@ + segment_ops(*segment, base),
{
    if !(segment.kind == PT_LOAD && segment.mem_size > 0) {
        assert(old(ops)@ + Seq::<PageOp>::empty() =~= old(ops)@);
        return ;
    }
    let start: u64 = base + segment.virtual_addr;
    let end: u64 = start + segment.mem_size;
    let first_page: u64 = page_of(start);
    let last_page: u64 = page_of(end - 1);
    let count: u64 = (last_page - first_page) / 4096 + 1;
    assert(count == page_span(start, segment.mem_size));
    let writable: bool = segment.flags & PF_W != 0;
    let executable: bool = segment.flags & PF_X != 0;
    let flags: u64 = page_flags(writable, true, !executable);
    push_absent_pages(ops, first_page, count, flags);
    let ghost mapped = ops@;
    push_copy_ops(ops, start, segment.offset, segment.file_size);
    assert(ops@ =~= old(ops)@ + segment_ops(*segment, base)) by {
        assert(ops@ == mapped + copy_ops(start, segment.offset, segment.file_size));
        assert(mapped == old(ops)@ + absent_pages(
            first_page,
            count as nat,
            segment_flags(segment.flags),
        ));
    }
}

/// Plans the loading of a program: checks the image, then lists the page
/// operations for its segments, for the mapping pool and for the program
/// break region. Relocations are left to the program's own start-up code.
pub fn load_user_elf(image: &ElfImage) -> (r: Result<LoadPlan, ElfError>)
    ensures
        match r {
            Ok(plan) => {
                &&& image_error(*image) is None
                &&& plan.ops@ == load_ops(*image)
                &&& plan.image == user_image(image.header)
                &&& plan.is_pie == (image.header.elf_type == ET_DYN)
            },
            Err(e) => image_error(*image) == Some(e),
        },
{
    match check_header(&image.header) {
        Err(e) => {
            return Err(e);
        },
        Ok(_) => {},
    }
    let is_pie: bool = image.header.elf_type == ET_DYN;
    let base: u64 = if is_pie {
        USER_BASE_ADDR
    } else {
        0
    };
    if image.header.entry_point >= USER_SPACE_END - base {
        return Err(ElfError::BadEntryPoint);
    }
    if image.header.ph_offset >= USER_SPACE_END - base {
        return Err(ElfError::BadProgramHeaderTable);
    }
    let mut i: usize = 0;
    while i < image.segments.len()
        invariant
            i <= image.segments@.len(),
            header_error(image.header) is None,
            address_error(image.header) is None,
            base == load_base(image.header),
            first_segment_error(image.segments@.take(i as int), base, image.file_len) is None,
        decreases image.segments@.len() - i,
    {
        assert(image.segments@.take(i + 1).drop_last() =~= image.segments@.take(i as int));
        match check_segment(&image.segments[i], base, image.file_len) {
            Err(e) => {
                proof {
                    let upto = image.segments@.take(i + 1);
                    assert(upto.last() == image.segments@[i as int]);
                    assert(first_segment_error(upto, base, image.file_len) == Some(e));
                    lemma_segment_error_prefix(
                        image.segments@,
                        base,
                        image.file_len,
                        i + 1,
                    );
                }
                return Err(e);
            },
            Ok(_) => {},
        }
        i = i + 1;
    }
    assert(image.segments@.take(i as int) =~= image.segments@);

    let mut ops: Vec<PageOp> = Vec::new();
    let mut k: usize = 0;
    while k < image.segments.len()
        invariant
            k <= image.segments@.len(),
            first_segment_error(image.segments@, base, image.file_len) is None,
            ops@ == all_segment_ops(image.segments@.take(k as int), base),
        decreases image.segments@.len() - k,
    {
        proof {
            assert(image.segments@.take(k + 1).drop_last() =~= image.segments@.take(k as int));
            lemma_no_error_in_segment(image.segments@, base, image.file_len, k as int);
        }
        load_segment(&mut ops, &image.segments[k], base, image.file_len);
        k = k + 1;
    }
    assert(image.segments@.take(k as int) =~= image.segments@);
    let flags: u64 = page_flags(true, true, true);
    push_absent_pages(&mut ops, MMAP_POOL_START, (MMAP_POOL_END - MMAP_POOL_START) / 4096, flags);
    push_absent_pages(&mut ops, HEAP_START, (HEAP_END - HEAP_START) / 4096, flags);
    let plan = LoadPlan {
        ops,
        image: UserImage {
            entry_point: base + image.header.entry_point,
            phdr_addr: base + image.header.ph_offset,
            ph_count: image.header.ph_count,
            ph_entry_size: image.header.ph_entry_size,
            stack_top: USER_STACK_TOP,
            heap_base: HEAP_START,
            heap_limit: HEAP_END,
            mmap_base: MMAP_POOL_START,
            mmap_limit: MMAP_POOL_END,
        },
        is_pie,
    };
    Ok(plan)
}

proof fn lemma_segment_error_prefix(
    segments: Seq<ProgramHeader>,
    base: u64,
    file_len: u64,
    n: int,
)
    requires
        0 <= n <= segments.len(),
        first_segment_error(segments.take(n), base, file_len) is Some,
    ensures
        first_segment_error(segments, base, file_len) == first_segment_error(
            segments.take(n),
            base,
            file_len,
        ),
    decreases segments.len() - n,
{
    if n < segments.len() {
        assert(segments.take(n + 1).drop_last() =~= segments.take(n));
        lemma_segment_error_prefix(segments, base, file_len, n + 1);
    } else {
        assert(segments.take(n) =~= segments);
    }
}

proof fn lemma_no_error_in_segment(segments: Seq<ProgramHeader>, base: u64, file_len: u64, k: int)
    requires
        0 <= k < segments.len(),
        first_segment_error(segments, base, file_len) is None,
    ensures
        segment_error(segments[k], base, file_len) is None,
    decreases segments.len(),
{
    if k < segments.len() - 1 {
        lemma_no_error_in_segment(segments.drop_last(), base, file_len, k);
    }
}


/// The stack pointer that a program starts with: `STACK_RESERVE` bytes below
/// the top of the stack, rounded down to a multiple of sixteen.
pub open spec fn initial_stack_pointer() -> u64 {
    0x7FFF_FFFE_FF00
}

/// The words on the initial stack, from the stack pointer upwards: the
/// argument count (zero), the terminators of the argument and environment
/// lists, then the auxiliary vector as pairs of tag and value, ending with
/// the null tag. The random bytes that `AT_RANDOM` points to are the sixteen
/// zero bytes just below the top of the stack.
pub open spec fn initial_stack_words(image: UserImage, sp: u64) -> Seq<u64> {
    seq![
        0,
        0,
        0,
        AT_PHDR,
        image.phdr_addr,
        AT_PHENT,
        image.ph_entry_size as u64,
        AT_PHNUM,
        image.ph_count as u64,
        AT_PAGESZ,
        4096,
        AT_BASE,
        0,
        AT_ENTRY,
        image.entry_point,
        AT_RANDOM,
        (sp + 240) as u64,
        AT_NULL,
        0,
    ]
}

/// The auxiliary vector in `words` holds the pair `(tag, value)`.
pub open spec fn has_aux(words: Seq<u64>, tag: u64, value: u64) -> bool {
    exists|k: int|
        0 <= k && 2 * k + 4 < words.len() && #[trigger] words[2 * k + 3] == tag && words[2 * k
            + 4] == value
}

/// Plans the user stack: its pages, mapped fresh, writable and not
/// executable, and the words that the program finds at its stack pointer.
pub fn setup_user_stack(image: &UserImage) -> (plan: StackPlan)
    ensures
        plan.ops@ == fresh_pages(
            (USER_STACK_TOP - USER_STACK_SIZE) as u64,
            16,
            user_data_flags(),
            true,
        ),
        plan.stack_pointer == initial_stack_pointer(),
        plan.stack_pointer % 16 == 0,
        USER_STACK_TOP - USER_STACK_SIZE <= plan.stack_pointer,
        plan.stack_pointer + 8 * plan.words@.len() <= plan.stack_pointer + 240,
        plan.stack_pointer + 256 <= USER_STACK_TOP,
        plan.words@ == initial_stack_words(*image, plan.stack_pointer),
{
    let stack_start: u64 = USER_STACK_TOP - USER_STACK_SIZE;
    let flags: u64 = page_flags(true, true, true);
    let mut ops: Vec<PageOp> = Vec::new();
    push_fresh_pages(&mut ops, stack_start, USER_STACK_SIZE / 4096, flags, true);
    assert(ops@ =~= fresh_pages(stack_start, 16, user_data_flags(), true));

    let reserved: u64 = USER_STACK_TOP - STACK_RESERVE;
    let sp: u64 = reserved & !0xFu64;
    assert(0x7FFF_FFFE_FF00u64 & !0xFu64 == 0x7FFF_FFFE_FF00u64) by (bit_vector);

    let mut words: Vec<u64> = Vec::new();
    words.push(0);
    words.push(0);
    words.push(0);
    words.push(AT_PHDR);
    words.push(image.phdr_addr);
    words.push(AT_PHENT);
    words.push(image.ph_entry_size as u64);
    words.push(AT_PHNUM);
    words.push(image.ph_count as u64);
    words.push(AT_PAGESZ);
    words.push(4096);
    words.push(AT_BASE);
    words.push(0);
    words.push(AT_ENTRY);
    words.push(image.entry_point);
    words.push(AT_RANDOM);
    words.push(sp + 240);
    words.push(AT_NULL);
    words.push(0);
    assert(words@ =~= initial_stack_words(*image, sp));
    StackPlan { ops, stack_pointer: sp, words }
}

/// The frame that starts a user program at `entry_point` on the stack at
/// `stack_pointer`: ring 3 selectors, interrupts enabled.
pub fn enter_userspace(entry_point: u64, stack_pointer: u64) -> (frame: TrapReturnFrame)
    ensures
        frame == (TrapReturnFrame {
            ss: 0x1B,
            rsp: stack_pointer,
            rflags: RFLAGS_USER,
            cs: 0x23,
            rip: entry_point,
        }),
{
    TrapReturnFrame {
        ss: get_user_data_selector() as u64,
        rsp: stack_pointer,
        rflags: RFLAGS_USER,
        cs: get_user_code_selector() as u64,
        rip: entry_point,
    }
}

/// The initial stack starts with a zero argument count and the two list
/// terminators; what follows is a sequence of pairs that ends with the null
/// tag and holds the program header table's address, entry size and count,
/// the page size and the entry point.
pub proof fn law_initial_stack_layout(image: UserImage, sp: u64)
    ensures
        ({
            let words = initial_stack_words(image, sp);
            &&& words[0] == 0
            &&& words[1] == 0
            &&& words[2] == 0
            &&& (words.len() - 3) % 2 == 0
            &&& words[words.len() - 2] == AT_NULL
            &&& words[words.len() - 1] == 0
            &&& forall|k: int|
                0 <= k && 2 * k + 5 < words.len() ==> #[trigger] words[2 * k + 3] != AT_NULL
            &&& has_aux(words, AT_PHDR, image.phdr_addr)
            &&& has_aux(words, AT_PHENT, image.ph_entry_size as u64)
            &&& has_aux(words, AT_PHNUM, image.ph_count as u64)
            &&& has_aux(words, AT_PAGESZ, 4096)
            &&& has_aux(words, AT_ENTRY, image.entry_point)
        }),
{
    let words = initial_stack_words(image, sp);
    assert(words[2 * 0int + 3] == AT_PHDR);
    assert(words[2 * 1int + 3] == AT_PHENT);
    assert(words[2 * 2int + 3] == AT_PHNUM);
    assert(words[2 * 3int + 3] == AT_PAGESZ);
    assert(words[2 * 5int + 3] == AT_ENTRY);
    assert forall|k: int| 0 <= k && 2 * k + 5 < words.len() implies #[trigger] words[2 * k + 3]
        != AT_NULL by {
        assert(k == 0 || k == 1 || k == 2 || k == 3 || k == 4 || k == 5 || k == 6);
    }
}

/// Total number of bytes that the copies in `ops` move.
pub open spec fn copied_bytes(ops: Seq<PageOp>) -> int
    decreases ops.len(),
{
    if ops.len() == 0 {
        0
    } else {
        copied_bytes(ops.drop_first()) + match ops[0] {
            PageOp::Copy { len, .. } => len as int,
            _ => 0,
        }
    }
}

/// `op` copies the image byte at offset `src` to address `dest`.
pub open spec fn copies_byte(op: PageOp, dest: int, src: int) -> bool {
    match op {
        PageOp::Copy { dest: d, src_offset, len } => d <= dest < d + len && src - src_offset
            == dest - d,
        _ => false,
    }
}

/// Some copy in `ops` moves the image byte at offset `src` to address
/// `dest`.
pub open spec fn byte_copied(ops: Seq<PageOp>, dest: int, src: int) -> bool {
    exists|i: int| 0 <= i < ops.len() && copies_byte(#[trigger] ops[i], dest, src)
}

/// The copies for a range are non-empty, stay inside one page each, and move
/// `len` bytes together.
pub proof fn law_copy_ops_tile(dest: u64, src: u64, len: u64)
    requires
        dest + len <= u64::MAX,
        src + len <= u64::MAX,
    ensures
        copied_bytes(copy_ops(dest, src, len)) == len,
        forall|i: int|
            0 <= i < copy_ops(dest, src, len).len() ==> match #[trigger] copy_ops(dest, src, len)[i] {
                PageOp::Copy { dest: d, src_offset, len: n } => 1 <= n && d % 4096 + n <= 4096,
                _ => false,
            },
    decreases len,
{
    if len > 0 {
        let room = 4096 - dest % 4096;
        let chunk = if room < len {
            room as u64
        } else {
            len
        };
        let head = PageOp::Copy { dest, src_offset: src, len: chunk };
        let rest = copy_ops((dest + chunk) as u64, (src + chunk) as u64, (len - chunk) as u64);
        let all = copy_ops(dest, src, len);
        assert(all == seq![head] + rest);
        law_copy_ops_tile((dest + chunk) as u64, (src + chunk) as u64, (len - chunk) as u64);
        assert(all.drop_first() =~= rest);
        assert forall|i: int| 0 <= i < all.len() implies match #[trigger] all[i] {
            PageOp::Copy { dest: d, src_offset, len: n } => 1 <= n && d % 4096 + n <= 4096,
            _ => false,
        } by {
            if i > 0 {
                assert(all[i] == rest[i - 1]);
            }
        }
    }
}

/// The copies for a range move byte `k` of the source range to byte `k` of
/// the destination range.
pub proof fn law_copy_ops_move_byte(dest: u64, src: u64, len: u64, k: int)
    requires
        dest + len <= u64::MAX,
        src + len <= u64::MAX,
        0 <= k < len,
    ensures
        byte_copied(copy_ops(dest, src, len), dest + k, src + k),
    decreases len,
{
    let room = 4096 - dest % 4096;
    let chunk = if room < len {
        room as u64
    } else {
        len
    };
    let head = PageOp::Copy { dest, src_offset: src, len: chunk };
    let rest = copy_ops((dest + chunk) as u64, (src + chunk) as u64, (len - chunk) as u64);
    let all = copy_ops(dest, src, len);
    assert(all == seq![head] + rest);
    if k < chunk {
        assert(copies_byte(all[0], dest + k, src + k));
    } else {
        law_copy_ops_move_byte(
            (dest + chunk) as u64,
            (src + chunk) as u64,
            (len - chunk) as u64,
            k - chunk,
        );
        let j = choose|j: int|
            0 <= j < rest.len() && copies_byte(#[trigger] rest[j], dest + k, src + k);
        assert(all[j + 1] == rest[j]);
    }
}

/// The pages mapped for a range hold every byte of it: the page of any
/// address in `[start, start + len)` is one of the `page_span` pages from the
/// page of `start` on.
pub proof fn law_pages_cover_range(start: u64, len: u64, addr: u64)
    requires
        start + len <= u64::MAX,
        start <= addr < start + len,
    ensures
        ({
            let i = addr as int / 4096 - start as int / 4096;
            &&& 0 <= i < page_span(start, len)
            &&& page_base(addr) == page_base(start) + i * 4096
        }),
{
}


/// The user memory that a load plan produces in an address space with no
/// user page mapped; `None` where the plan cannot be carried out.
pub open spec fn loaded_memory(image: ElfImage, file: Seq<u8>) -> Option<Map<u64, PageImage>> {
    apply_ops(Map::empty(), file, load_ops(image))
}

/// Loading is deterministic: two loads of the same image, each into an
/// address space with no user page mapped, leave the same pages mapped with
/// the same flags and the same bytes, whatever frames they were given.
pub proof fn law_load_is_deterministic(first: ElfImage, second: ElfImage, file: Seq<u8>)
    requires
        first.header == second.header,
        first.segments@ == second.segments@,
    ensures
        load_ops(first) == load_ops(second),
        loaded_memory(first, file) == loaded_memory(second, file),
{
}

proof fn lemma_apply_concat(
    pages: Map<u64, PageImage>,
    file: Seq<u8>,
    first: Seq<PageOp>,
    second: Seq<PageOp>,
)
    ensures
        apply_ops(pages, file, first + second) == match apply_ops(pages, file, first) {
            Some(between) => apply_ops(between, file, second),
            None => None,
        },
    decreases second.len(),
{
    if second.len() == 0 {
        assert(first + second =~= first);
    } else {
        assert((first + second).drop_last() =~= first + second.drop_last());
        lemma_apply_concat(pages, file, first, second.drop_last());
    }
}

proof fn lemma_apply_head(pages: Map<u64, PageImage>, file: Seq<u8>, op: PageOp, rest: Seq<PageOp>)
    ensures
        apply_ops(pages, file, seq![op] + rest) == match apply_op(pages, file, op) {
            Some(between) => apply_ops(between, file, rest),
            None => None,
        },
{
    lemma_apply_concat(pages, file, seq![op], rest);
    let single = seq![op];
    assert(single.drop_last() =~= Seq::<PageOp>::empty());
    assert(apply_ops(pages, file, single.drop_last()) == Some(pages));
    assert(single.last() == op);
    assert(apply_ops(pages, file, single) == apply_op(pages, file, op));
}

/// Every byte in `[lo, hi)` lies in a mapped page whose bytes are known.
pub open spec fn readable(pages: Map<u64, PageImage>, lo: int, hi: int) -> bool {
    forall|a: u64|
        lo <= a < hi ==> pages.dom().contains(#[trigger] page_base(a)) && pages[page_base(
            a,
        )].bytes is Some && pages[page_base(a)].bytes->0.len() == 4096
}

proof fn lemma_copy_contents(
    pages: Map<u64, PageImage>,
    file: Seq<u8>,
    dest: u64,
    src: u64,
    len: u64,
    addr: u64,
)
    requires
        dest + len <= u64::MAX,
        src + len <= file.len(),
        src + len <= u64::MAX,
        readable(pages, dest as int, dest + len),
    ensures
        apply_ops(pages, file, copy_ops(dest, src, len)) matches Some(after) && byte_at(after, addr)
            == if dest <= addr < dest + len {
            Some(file[src + (addr - dest)])
        } else {
            byte_at(pages, addr)
        },
    decreases len,
{
    if len > 0 {
        let room = 4096 - dest % 4096;
        let chunk = if room < len {
            room as u64
        } else {
            len
        };
        let head = PageOp::Copy { dest, src_offset: src, len: chunk };
        let next_dest = (dest + chunk) as u64;
        let next_src = (src + chunk) as u64;
        let rest = copy_ops(next_dest, next_src, (len - chunk) as u64);
        let page = page_base(dest);
        assert(pages.dom().contains(page_base(dest)) && pages[page].bytes is Some);
        let after_head = apply_op(pages, file, head)->0;
        assert(apply_op(pages, file, head) == Some(after_head));
        lemma_apply_head(pages, file, head, rest);
        assert forall|a: u64| next_dest <= a < dest + len implies after_head.dom().contains(
            #[trigger] page_base(a),
        ) && after_head[page_base(a)].bytes is Some && after_head[page_base(a)].bytes->0.len()
            == 4096 by {
            assert(pages.dom().contains(page_base(a)));
        }
        lemma_copy_contents(after_head, file, next_dest, next_src, (len - chunk) as u64, addr);
        if page_base(addr) == page {
            let old_bytes = pages[page].bytes->0;
            let new_bytes = patched(old_bytes, dest as int % 4096, file, src as int, chunk as int);
            assert(after_head[page].bytes == Some(new_bytes));
            assert(byte_at(after_head, addr) == Some(new_bytes[addr as int % 4096]));
        }
    }
}

proof fn lemma_absent_pages(
    pages: Map<u64, PageImage>,
    file: Seq<u8>,
    first_page: u64,
    count: nat,
    flags: u64,
)
    requires
        first_page + count * 4096 <= u64::MAX,
    ensures
        apply_ops(pages, file, absent_pages(first_page, count, flags)) matches Some(after) && {
            &&& forall|p: u64|
                pages.dom().contains(p) ==> #[trigger] after.dom().contains(p) && after[p]
                    == pages[p]
            &&& forall|p: u64|
                #[trigger] after.dom().contains(p) && !pages.dom().contains(p) ==> first_page <= p
                    < first_page + count * 4096 && after[p] == (PageImage {
                    flags,
                    bytes: Some(zero_page()),
                })
            &&& forall|i: int|
                0 <= i < count ==> after.dom().contains(#[trigger] ((first_page + i * 4096) as u64))
        },
    decreases count,
{
    if count > 0 {
        let all = absent_pages(first_page, count, flags);
        let fewer = absent_pages(first_page, (count - 1) as nat, flags);
        assert(all.drop_last() =~= fewer);
        lemma_absent_pages(pages, file, first_page, (count - 1) as nat, flags);
        let before = apply_ops(pages, file, fewer)->0;
        let last = (first_page + (count - 1) * 4096) as u64;
        assert(all.last() == PageOp::MapIfAbsent { page: last, flags });
        assert(apply_ops(pages, file, all) == apply_op(before, file, all.last()));
        let after = apply_ops(pages, file, all)->0;
        assert forall|i: int| 0 <= i < count implies after.dom().contains(
            #[trigger] ((first_page + i * 4096) as u64),
        ) by {
            if i < count - 1 {
                assert(before.dom().contains((first_page + i * 4096) as u64));
            }
        }
    }
}

/// What a loaded segment looks like in memory. When none of the segment's
/// pages was mapped before, the segment's operations can be carried out, and
/// they leave the segment's first `file_size` bytes equal to the bytes of the
/// file from `offset` on and the rest of its `mem_size` bytes zero.
pub proof fn law_segment_contents(
    pages: Map<u64, PageImage>,
    file: Seq<u8>,
    segment: ProgramHeader,
    base: u64,
    k: int,
)
    requires
        is_loaded(segment),
        file.len() <= u64::MAX,
        segment_error(segment, base, file.len() as u64) is None,
        forall|a: u64|
            base + segment.virtual_addr <= a < base + segment.virtual_addr + segment.mem_size
                ==> !pages.dom().contains(#[trigger] page_base(a)),
        0 <= k < segment.mem_size,
    ensures
        apply_ops(pages, file, segment_ops(segment, base)) matches Some(after) && byte_at(
            after,
            (base + segment.virtual_addr + k) as u64,
        ) == Some(
            if k < segment.file_size {
                file[segment.offset + k]
            } else {
                0u8
            },
        ),
{
    let start = (base + segment.virtual_addr) as u64;
    let first_page = page_base(start);
    let span = page_span(start, segment.mem_size);
    let flags = segment_flags(segment.flags);
    let maps = absent_pages(first_page, span, flags);
    let copies = copy_ops(start, segment.offset, segment.file_size);
    lemma_apply_concat(pages, file, maps, copies);
    lemma_absent_pages(pages, file, first_page, span, flags);
    let mapped = apply_ops(pages, file, maps)->0;
    assert forall|a: u64| start <= a < start + segment.mem_size implies mapped.dom().contains(
        #[trigger] page_base(a),
    ) && mapped[page_base(a)] == (PageImage { flags, bytes: Some(zero_page()) }) by {
        law_pages_cover_range(start, segment.mem_size, a);
        let i = a as int / 4096 - start as int / 4096;
        let p = (first_page + i * 4096) as u64;
        assert(page_base(a) == p);
        assert(mapped.dom().contains(p));
        assert(!pages.dom().contains(page_base(a)));
    }
    assert(readable(mapped, start as int, start + segment.file_size));
    let addr = (start + k) as u64;
    lemma_copy_contents(mapped, file, start, segment.offset, segment.file_size, addr);
    assert(mapped[page_base(addr)] == (PageImage { flags, bytes: Some(zero_page()) }));
}


proof fn lemma_copy_runs(pages: Map<u64, PageImage>, file: Seq<u8>, dest: u64, src: u64, len: u64)
    requires
        dest + len <= u64::MAX,
        src + len <= u64::MAX,
        forall|a: u64| dest <= a < dest + len ==> pages.dom().contains(#[trigger] page_base(a)),
    ensures
        apply_ops(pages, file, copy_ops(dest, src, len)) matches Some(after) && after.dom()
            == pages.dom(),
    decreases len,
{
    if len > 0 {
        let room = 4096 - dest % 4096;
        let chunk = if room < len {
            room as u64
        } else {
            len
        };
        let head = PageOp::Copy { dest, src_offset: src, len: chunk };
        let next_dest = (dest + chunk) as u64;
        let next_src = (src + chunk) as u64;
        let rest = copy_ops(next_dest, next_src, (len - chunk) as u64);
        assert(pages.dom().contains(page_base(dest)));
        let after_head = apply_op(pages, file, head)->0;
        assert(apply_op(pages, file, head) == Some(after_head));
        assert(after_head.dom() =~= pages.dom());
        lemma_apply_head(pages, file, head, rest);
        assert forall|a: u64| next_dest <= a < dest + len implies after_head.dom().contains(
            #[trigger] page_base(a),
        ) by {
            assert(pages.dom().contains(page_base(a)));
        }
        lemma_copy_runs(after_head, file, next_dest, next_src, (len - chunk) as u64);
    }
}

proof fn lemma_segment_runs(
    pages: Map<u64, PageImage>,
    file: Seq<u8>,
    segment: ProgramHeader,
    base: u64,
    file_len: u64,
)
    requires
        segment_error(segment, base, file_len) is None,
    ensures
        apply_ops(pages, file, segment_ops(segment, base)) is Some,
{
    if is_loaded(segment) {
        let start = (base + segment.virtual_addr) as u64;
        let first_page = page_base(start);
        let span = page_span(start, segment.mem_size);
        let flags = segment_flags(segment.flags);
        let maps = absent_pages(first_page, span, flags);
        let copies = copy_ops(start, segment.offset, segment.file_size);
        lemma_apply_concat(pages, file, maps, copies);
        lemma_absent_pages(pages, file, first_page, span, flags);
        let mapped = apply_ops(pages, file, maps)->0;
        assert forall|a: u64| start <= a < start + segment.file_size implies mapped.dom().contains(
            #[trigger] page_base(a),
        ) by {
            law_pages_cover_range(start, segment.mem_size, a);
            let i = a as int / 4096 - start as int / 4096;
            let p = (first_page + i * 4096) as u64;
            assert(page_base(a) == p);
            assert(mapped.dom().contains(p));
        }
        lemma_copy_runs(mapped, file, start, segment.offset, segment.file_size);
    }
}

proof fn lemma_all_segments_run(
    pages: Map<u64, PageImage>,
    file: Seq<u8>,
    segments: Seq<ProgramHeader>,
    base: u64,
    file_len: u64,
)
    requires
        first_segment_error(segments, base, file_len) is None,
    ensures
        apply_ops(pages, file, all_segment_ops(segments, base)) is Some,
    decreases segments.len(),
{
    if segments.len() > 0 {
        let earlier = all_segment_ops(segments.drop_last(), base);
        lemma_all_segments_run(pages, file, segments.drop_last(), base, file_len);
        lemma_apply_concat(pages, file, earlier, segment_ops(segments.last(), base));
        lemma_segment_runs(
            apply_ops(pages, file, earlier)->0,
            file,
            segments.last(),
            base,
            file_len,
        );
    }
}

/// The plan for an image that passed the checks can be carried out in any
/// address space, as long as frames are left: it maps no page twice and
/// copies only to pages that it made sure are mapped.
pub proof fn law_load_plan_runs(pages: Map<u64, PageImage>, image: ElfImage, file: Seq<u8>)
    requires
        image_error(image) is None,
    ensures
        apply_ops(pages, file, load_ops(image)) is Some,
{
    let base = load_base(image.header);
    let segments = all_segment_ops(image.segments@, base);
    let pool = region_ops(MMAP_POOL_START, MMAP_POOL_END);
    let heap = region_ops(HEAP_START, HEAP_END);
    lemma_all_segments_run(pages, file, image.segments@, base, image.file_len);
    lemma_apply_concat(pages, file, segments, pool);
    let loaded = apply_ops(pages, file, segments)->0;
    lemma_absent_pages(loaded, file, MMAP_POOL_START, 128, user_data_flags());
    lemma_apply_concat(pages, file, segments + pool, heap);
    let pooled = apply_ops(pages, file, segments + pool)->0;
    lemma_absent_pages(pooled, file, HEAP_START, 256, user_data_flags());
}

} // verus!
