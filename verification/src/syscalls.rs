//! System call dispatch. A handler decides what the call returns and which
//! effects the kernel has to carry out at its edge (copying bytes to or from
//! user memory, loading a segment base, halting); it touches no memory
//! outside the state it is handed. Console output goes to the framebuffer
//! writer, serial output is appended to a byte sink that the kernel drains.

use crate::elf_loader::{region_ops, HEAP_START, MMAP_POOL_END, MMAP_POOL_START};
use crate::helpers::spec_is_canonical;
use crate::paging::PageOp;
use crate::screen::{shown, slot_wf, Console, FrameBufferWriter};
use vstd::prelude::*;

verus! {

pub const SYS_READ: u64 = 0;
pub const SYS_WRITE: u64 = 1;
pub const SYS_FSTAT: u64 = 5;
pub const SYS_POLL: u64 = 7;
pub const SYS_MMAP: u64 = 9;
pub const SYS_MPROTECT: u64 = 10;
pub const SYS_MUNMAP: u64 = 11;
pub const SYS_BRK: u64 = 12;
pub const SYS_RT_SIGACTION: u64 = 13;
pub const SYS_RT_SIGPROCMASK: u64 = 14;
pub const SYS_IOCTL: u64 = 16;
pub const SYS_WRITEV: u64 = 20;
pub const SYS_MADVISE: u64 = 28;
pub const SYS_EXIT: u64 = 60;
pub const SYS_SIGALTSTACK: u64 = 131;
pub const SYS_ARCH_PRCTL: u64 = 158;
pub const SYS_SET_TID_ADDRESS: u64 = 218;
pub const SYS_EXIT_GROUP: u64 = 231;
pub const SYS_GETRANDOM: u64 = 318;

pub const ARCH_SET_GS: u64 = 0x1001;
pub const ARCH_SET_FS: u64 = 0x1002;
pub const ARCH_GET_FS: u64 = 0x1003;
pub const ARCH_GET_GS: u64 = 0x1004;

pub const STDIN: u64 = 0;
pub const STDOUT: u64 = 1;
pub const STDERR: u64 = 2;

/// Return value for a bad file descriptor: the negated errno `EBADF`.
pub const RET_EBADF: i64 = -9;

/// Return value for an exhausted pool: the negated errno `ENOMEM`.
pub const RET_ENOMEM: i64 = -12;

/// Return value for an invalid argument: the negated errno `EINVAL`.
pub const RET_EINVAL: i64 = -22;

/// Return value for a descriptor that is no terminal: the negated errno
/// `ENOTTY`.
pub const RET_ENOTTY: i64 = -25;

/// Return value for an unknown call number: the negated errno `ENOSYS`.
pub const RET_ENOSYS: i64 = -38;

/// Break address that a process starts with.
pub const INITIAL_BRK: u64 = HEAP_START;

/// Seed that the random byte generator starts with.
pub const INITIAL_SEED: u64 = 0x1234_5678_DEAD_BEEF;

/// Multiplier of the random byte generator.
pub const LCG_MULTIPLIER: u64 = 6364136223846793005;

/// Size in bytes of the file status record.
pub const STAT_SIZE: usize = 144;

/// Offset of the mode field in the file status record.
pub const STAT_MODE_OFFSET: usize = 24;

/// Mode of a character device that everyone may read and write.
pub const CHAR_DEVICE_MODE: u32 = 0o020666;

/// Flag that marks an alternate signal stack as disabled.
pub const SS_DISABLE: u32 = 2;

/// Largest byte count that a single transfer may have.
pub const MAX_COUNT: u64 = 0x7FFF_FFFF_FFFF_FFFF;

/// What the system calls of the running process have changed so far.
#[derive(Debug, Clone, Copy)]
pub struct SyscallState {
    /// Current program break.
    pub current_brk: u64,
    /// Next free address of the mapping pool.
    pub mmap_next: u64,
    /// End (exclusive) of the mapping pool.
    pub mmap_end: u64,
    /// State of the random byte generator.
    pub seed: u64,
}

/// The segment base registers as they are when the call enters the kernel.
#[derive(Debug, Clone, Copy)]
pub struct CpuBases {
    pub fs_base: u64,
    pub gs_base: u64,
}

/// Something the kernel has to do before it returns to the user.
#[derive(Debug)]
pub enum Effect {
    /// Copy `bytes` to user memory at `addr`.
    CopyOut { addr: u64, bytes: Vec<u8> },
    /// Load the FS segment base.
    SetFsBase { value: u64 },
    /// Load the GS segment base.
    SetGsBase { value: u64 },
}

/// A call that waits for bytes from user memory.
#[derive(Debug, Clone, Copy)]
pub enum Pending {
    /// The `count` bytes that a `write` sends to the console and the serial
    /// line.
    Write { count: u64 },
    /// Entry `index` of the vector of a `writev`; `total` bytes were written
    /// for the entries before it.
    WritevEntry { fd: u64, iov: u64, iovcnt: u64, index: u64, total: i64 },
    /// The `count` bytes that entry `index` of a `writev` points to.
    WritevData { fd: u64, iov: u64, iovcnt: u64, index: u64, total: i64, count: u64 },
}

/// What the kernel does next for the call.
#[derive(Debug)]
pub enum SyscallAction {
    /// Carry out `effects` in order, then return `value` to the user.
    Return { value: i64, effects: Vec<Effect> },
    /// Copy `len` bytes from user memory at `addr` and hand them to
    /// `resume_syscall` together with `pending`.
    CopyIn { addr: u64, len: u64, pending: Pending },
    /// The process has exited with `status`: halt for good.
    Halt { status: u64 },
}

/// An effect, with its bytes as a sequence.
pub enum EffectView {
    CopyOut { addr: u64, bytes: Seq<u8> },
    SetFsBase { value: u64 },
    SetGsBase { value: u64 },
}

/// An action, with its effects as a sequence.
pub enum ActionView {
    Return { value: i64, effects: Seq<EffectView> },
    CopyIn { addr: u64, len: u64, pending: Pending },
    Halt { status: u64 },
}

impl View for Effect {
    type V = EffectView;

    open spec fn view(&self) -> EffectView {
        match *self {
            Effect::CopyOut { addr, bytes } => EffectView::CopyOut { addr, bytes: bytes@ },
            Effect::SetFsBase { value } => EffectView::SetFsBase { value },
            Effect::SetGsBase { value } => EffectView::SetGsBase { value },
        }
    }
}

impl View for SyscallAction {
    type V = ActionView;

    open spec fn view(&self) -> ActionView {
        match *self {
            SyscallAction::Return { value, effects } => ActionView::Return {
                value,
                effects: effects@.map_values(|e: Effect| e@),
            },
            SyscallAction::CopyIn { addr, len, pending } => ActionView::CopyIn {
                addr,
                len,
                pending,
            },
            SyscallAction::Halt { status } => ActionView::Halt { status },
        }
    }
}

/// The action that returns `value` with nothing else to do.
pub open spec fn plain(value: i64) -> ActionView {
    ActionView::Return { value, effects: Seq::empty() }
}

/// The action that copies `bytes` to user memory at `addr` and returns zero.
pub open spec fn copy_out(addr: u64, bytes: Seq<u8>) -> ActionView {
    ActionView::Return { value: 0, effects: seq![EffectView::CopyOut { addr, bytes }] }
}

/// `n` zero bytes.
pub open spec fn zeros(n: nat) -> Seq<u8> {
    Seq::new(n, |i: int| 0u8)
}

/// The eight bytes of `x`, least significant first.
pub open spec fn le_bytes(x: u64) -> Seq<u8> {
    seq![
        (x & 0xFF) as u8,
        ((x >> 8) & 0xFF) as u8,
        ((x >> 16) & 0xFF) as u8,
        ((x >> 24) & 0xFF) as u8,
        ((x >> 32) & 0xFF) as u8,
        ((x >> 40) & 0xFF) as u8,
        ((x >> 48) & 0xFF) as u8,
        ((x >> 56) & 0xFF) as u8,
    ]
}

/// The number whose bytes, least significant first, are `s[at..at + 8]`.
pub open spec fn le_value(s: Seq<u8>, at: int) -> u64 {
    (s[at] as u64) | (s[at + 1] as u64) << 8 | (s[at + 2] as u64) << 16 | (s[at + 3] as u64) << 24
        | (s[at + 4] as u64) << 32 | (s[at + 5] as u64) << 40 | (s[at + 6] as u64) << 48 | (s[at
        + 7] as u64) << 56
}

fn zero_bytes(n: usize) -> (bytes: Vec<u8>)
    ensures
        bytes@ == zeros(n as nat),
{
    let mut bytes: Vec<u8> = Vec::new();
    let mut i: usize = 0;
    while i < n
        invariant
            i <= n,
            bytes@.len() == i,
            forall|k: int| 0 <= k < i ==> bytes@[k] == 0u8,
        decreases n - i,
    {
        bytes.push(0u8);
        i = i + 1;
    }
    assert(bytes@ =~= zeros(n as nat));
    bytes
}

fn to_le_bytes(x: u64) -> (bytes: Vec<u8>)
    ensures
        bytes@ == le_bytes(x),
{
    let mut bytes: Vec<u8> = Vec::new();
    bytes.push((x & 0xFF) as u8);
    bytes.push(((x >> 8) & 0xFF) as u8);
    bytes.push(((x >> 16) & 0xFF) as u8);
    bytes.push(((x >> 24) & 0xFF) as u8);
    bytes.push(((x >> 32) & 0xFF) as u8);
    bytes.push(((x >> 40) & 0xFF) as u8);
    bytes.push(((x >> 48) & 0xFF) as u8);
    bytes.push(((x >> 56) & 0xFF) as u8);
    assert(bytes@ =~= le_bytes(x));
    bytes
}

fn from_le_bytes(data: &[u8], at: usize) -> (x: u64)
    requires
        at + 8 <= data@.len(),
    ensures
        x == le_value(data@, at as int),
{
    (data[at] as u64) | (data[at + 1] as u64) << 8 | (data[at + 2] as u64) << 16 | (data[at
        + 3] as u64) << 24 | (data[at + 4] as u64) << 32 | (data[at + 5] as u64) << 40 | (data[at
        + 6] as u64) << 48 | (data[at + 7] as u64) << 56
}

/// Reading back the bytes of a number gives the number.
pub proof fn law_le_round_trip(x: u64)
    ensures
        le_value(le_bytes(x), 0) == x,
{
    let b0 = (x & 0xFF) as u8;
    let b1 = ((x >> 8) & 0xFF) as u8;
    let b2 = ((x >> 16) & 0xFF) as u8;
    let b3 = ((x >> 24) & 0xFF) as u8;
    let b4 = ((x >> 32) & 0xFF) as u8;
    let b5 = ((x >> 40) & 0xFF) as u8;
    let b6 = ((x >> 48) & 0xFF) as u8;
    let b7 = ((x >> 56) & 0xFF) as u8;
    assert((b0 as u64) | (b1 as u64) << 8 | (b2 as u64) << 16 | (b3 as u64) << 24 | (b4 as u64)
        << 32 | (b5 as u64) << 40 | (b6 as u64) << 48 | (b7 as u64) << 56 == x) by (bit_vector)
        requires
            b0 == (x & 0xFF) as u8,
            b1 == ((x >> 8) & 0xFF) as u8,
            b2 == ((x >> 16) & 0xFF) as u8,
            b3 == ((x >> 24) & 0xFF) as u8,
            b4 == ((x >> 32) & 0xFF) as u8,
            b5 == ((x >> 40) & 0xFF) as u8,
            b6 == ((x >> 48) & 0xFF) as u8,
            b7 == ((x >> 56) & 0xFF) as u8,
    ;
}

fn done(value: i64) -> (action: SyscallAction)
    ensures
        action@ == plain(value),
{
    let action = SyscallAction::Return { value, effects: Vec::new() };
    assert(action@->Return_effects =~= Seq::<EffectView>::empty());
    action
}

fn done_with(value: i64, effect: Effect) -> (action: SyscallAction)
    ensures
        action@ == (ActionView::Return { value, effects: seq![effect@] }),
{
    let mut effects: Vec<Effect> = Vec::new();
    effects.push(effect);
    let action = SyscallAction::Return { value, effects };
    assert(action@->Return_effects =~= seq![effect@]);
    action
}


impl SyscallState {
    /// The state of a process that has made no system call yet.
    pub open spec fn initial() -> SyscallState {
        SyscallState {
            current_brk: INITIAL_BRK,
            mmap_next: MMAP_POOL_START,
            mmap_end: MMAP_POOL_END,
            seed: INITIAL_SEED,
        }
    }

    /// The state of a process that has made no system call yet.
    pub fn new() -> (state: SyscallState)
        ensures
            state == Self::initial(),
    {
        SyscallState {
            current_brk: INITIAL_BRK,
            mmap_next: MMAP_POOL_START,
            mmap_end: MMAP_POOL_END,
            seed: INITIAL_SEED,
        }
    }
}

/// Result of `read`: end of file on standard input, a bad descriptor
/// otherwise.
pub open spec fn spec_sys_read(fd: u64) -> i64 {
    if fd == STDIN {
        0
    } else {
        RET_EBADF
    }
}

/// `read`: standard input is always at end of file.
pub fn sys_read(fd: u64, _buf: u64, _count: u64) -> (r: i64)
    ensures
        r == spec_sys_read(fd),
{
    if fd == STDIN {
        0
    } else {
        RET_EBADF
    }
}

/// First step of `write`: standard output and standard error ask for the
/// user's bytes, any other descriptor is refused.
pub open spec fn spec_sys_write(fd: u64, buf: u64, count: u64) -> ActionView {
    if fd == STDOUT || fd == STDERR {
        ActionView::CopyIn { addr: buf, len: count, pending: Pending::Write { count } }
    } else {
        plain(RET_EBADF)
    }
}

/// `write`: checks the descriptor and asks for the bytes to write.
pub fn sys_write(fd: u64, buf: u64, count: u64) -> (action: SyscallAction)
    requires
        count <= MAX_COUNT,
    ensures
        action@ == spec_sys_write(fd, buf, count),
{
    if fd != STDOUT && fd != STDERR {
        return done(RET_EBADF);
    }
    SyscallAction::CopyIn { addr: buf, len: count, pending: Pending::Write { count } }
}

/// What the console shows after `data` was written to it.
pub open spec fn console_after(console: Option<Console>, data: Seq<u8>) -> Option<Console> {
    match console {
        Some(c) => Some(c.write_bytes(data)),
        None => None,
    }
}

/// Sends `data` byte for byte to the console and to the serial sink.
pub fn emit(console: &mut Option<FrameBufferWriter>, serial: &mut Vec<u8>, data: &[u8])
    requires
        slot_wf(*old(console)),
    ensures
        slot_wf(*final(console)),
        shown(*final(console)) == console_after(shown(*old(console)), data@),
        final(serial)@ == old(serial)@ + data@,
{
    match console {
        Some(writer) => {
            writer.write_bytes(data);
        },
        None => {},
    }
    let mut i: usize = 0;
    while i < data.len()
        invariant
            i <= data@.len(),
            serial@ == old(serial)@ + data@.take(i as int),
        decreases data@.len() - i,
    {
        serial.push(data[i]);
        assert(data@.take(i + 1) =~= data@.take(i as int).push(data@[i as int]));
        i = i + 1;
    }
    assert(data@.take(i as int) =~= data@);
}

/// `exit`: the process is over.
pub fn sys_exit(status: u64) -> (action: SyscallAction)
    ensures
        action@ == (ActionView::Halt { status }),
{
    SyscallAction::Halt { status }
}

/// `exit_group`: the same as `exit`.
pub fn sys_exit_group(status: u64) -> (action: SyscallAction)
    ensures
        action@ == (ActionView::Halt { status }),
{
    sys_exit(status)
}

/// Result of `brk`: the current break for address zero, else the address.
pub open spec fn brk_result(state: SyscallState, addr: u64) -> i64 {
    if addr == 0 {
        state.current_brk as i64
    } else {
        addr as i64
    }
}

/// State after `brk`: any address but zero becomes the break.
pub open spec fn brk_state(state: SyscallState, addr: u64) -> SyscallState {
    if addr == 0 {
        state
    } else {
        SyscallState { current_brk: addr, ..state }
    }
}

/// `brk`: address zero asks for the current break; any other address becomes
/// the break and is returned.
pub fn sys_brk(state: &mut SyscallState, addr: u64) -> (r: i64)
    ensures
        r == brk_result(*old(state), addr),
        *final(state) == brk_state(*old(state), addr),
{
    if addr == 0 {
        return state.current_brk as i64;
    }
    state.current_brk = addr;
    addr as i64
}

/// `length` rounded up to whole pages.
pub open spec fn page_aligned_len(length: u64) -> int {
    (length + 0xFFF) / 0x1000 * 0x1000
}

/// The pool has room for `length` bytes, rounded up to whole pages.
pub open spec fn pool_has_room(state: SyscallState, length: u64) -> bool {
    state.mmap_next + page_aligned_len(length) <= state.mmap_end
}

/// Result of `mmap`: a fixed address at or above the first page boundary is
/// taken as it is; any other request gets the next free address of the pool,
/// or `ENOMEM` when the pool has no room.
pub open spec fn mmap_result(state: SyscallState, addr: u64, length: u64) -> i64 {
    if addr >= 0x1000 {
        addr as i64
    } else if pool_has_room(state, length) {
        state.mmap_next as i64
    } else {
        RET_ENOMEM
    }
}

/// State after `mmap`: a request served from the pool moves the pool's next
/// free address up by whole pages.
pub open spec fn mmap_state(state: SyscallState, addr: u64, length: u64) -> SyscallState {
    if addr < 0x1000 && pool_has_room(state, length) {
        SyscallState { mmap_next: (state.mmap_next + page_aligned_len(length)) as u64, ..state }
    } else {
        state
    }
}

/// `mmap`: hands out anonymous memory, at the fixed address asked for or
/// from the pool.
pub fn sys_mmap(state: &mut SyscallState, addr: u64, length: u64, _prot: u64, _flags: u64) -> (r:
    i64)
    ensures
        r == mmap_result(*old(state), addr, length),
        *final(state) == mmap_state(*old(state), addr, length),
{
    if addr >= 0x1000 {
        return addr as i64;
    }
    if length > u64::MAX - 0xFFF || state.mmap_next > state.mmap_end {
        return RET_ENOMEM;
    }
    let padded: u64 = length + 0xFFF;
    let aligned_len: u64 = padded & !0xFFFu64;
    assert(padded & !0xFFFu64 == padded / 0x1000 * 0x1000) by (bit_vector);
    if aligned_len > state.mmap_end - state.mmap_next {
        return RET_ENOMEM;
    }
    let alloc_addr: u64 = state.mmap_next;
    state.mmap_next = state.mmap_next + aligned_len;
    alloc_addr as i64
}

/// `mprotect`: accepted, nothing changes.
pub fn sys_mprotect(_addr: u64, _len: u64, _prot: u64) -> (r: i64)
    ensures
        r == 0,
{
    0
}

/// `munmap`: accepted, nothing changes.
pub fn sys_munmap(_addr: u64, _len: u64) -> (r: i64)
    ensures
        r == 0,
{
    0
}

/// `arch_prctl`: setting a base asks the kernel to load the register, reading
/// one copies the register's eight bytes to the user's address; any other
/// code is invalid.
pub open spec fn spec_sys_arch_prctl(cpu: CpuBases, code: u64, addr: u64) -> ActionView {
    if code == ARCH_SET_FS {
        ActionView::Return { value: 0, effects: seq![EffectView::SetFsBase { value: addr }] }
    } else if code == ARCH_GET_FS {
        copy_out(addr, le_bytes(cpu.fs_base))
    } else if code == ARCH_SET_GS {
        ActionView::Return { value: 0, effects: seq![EffectView::SetGsBase { value: addr }] }
    } else if code == ARCH_GET_GS {
        copy_out(addr, le_bytes(cpu.gs_base))
    } else {
        plain(RET_EINVAL)
    }
}

/// `arch_prctl`: reads or sets the FS or GS segment base. A base to set has
/// to be a canonical address.
pub fn sys_arch_prctl(cpu: CpuBases, code: u64, addr: u64) -> (action: SyscallAction)
    requires
        code == ARCH_SET_FS || code == ARCH_SET_GS ==> spec_is_canonical(addr),
    ensures
        action@ == spec_sys_arch_prctl(cpu, code, addr),
{
    if code == ARCH_SET_FS {
        done_with(0, Effect::SetFsBase { value: addr })
    } else if code == ARCH_GET_FS {
        done_with(0, Effect::CopyOut { addr, bytes: to_le_bytes(cpu.fs_base) })
    } else if code == ARCH_SET_GS {
        done_with(0, Effect::SetGsBase { value: addr })
    } else if code == ARCH_GET_GS {
        done_with(0, Effect::CopyOut { addr, bytes: to_le_bytes(cpu.gs_base) })
    } else {
        done(RET_EINVAL)
    }
}

/// `set_tid_address`: the only thread has id 1.
pub fn sys_set_tid_address(_tidptr: u64) -> (r: i64)
    ensures
        r == 1,
{
    1
}

/// `poll`: times out at once with no event.
pub fn sys_poll(_fds: u64, _nfds: u64, _timeout: u64) -> (r: i64)
    ensures
        r == 0,
{
    0
}

/// Zeroes `len` bytes at `addr` unless `addr` is null, and returns zero.
pub open spec fn zero_out(addr: u64, len: nat) -> ActionView {
    if addr != 0 {
        copy_out(addr, zeros(len))
    } else {
        plain(0)
    }
}

/// `rt_sigaction`: no handler was installed before, so a record for the old
/// action is zeroed.
pub fn sys_rt_sigaction(_signum: u64, _act: u64, oldact: u64) -> (action: SyscallAction)
    ensures
        action@ == zero_out(oldact, 32),
{
    if oldact != 0 {
        done_with(0, Effect::CopyOut { addr: oldact, bytes: zero_bytes(32) })
    } else {
        done(0)
    }
}

/// `rt_sigprocmask`: no signal was blocked before, so a record for the old
/// mask is zeroed.
pub fn sys_rt_sigprocmask(_how: u64, _set: u64, oldset: u64, _sigsetsize: u64) -> (action:
    SyscallAction)
    ensures
        action@ == zero_out(oldset, 8),
{
    if oldset != 0 {
        done_with(0, Effect::CopyOut { addr: oldset, bytes: zero_bytes(8) })
    } else {
        done(0)
    }
}

/// `sigaltstack`: a record for the old stack is filled with a null stack
/// pointer, the disabled flag and size zero; the four bytes after the flag
/// are left as they are.
pub open spec fn spec_sys_sigaltstack(old_ss: u64) -> ActionView {
    if old_ss != 0 {
        ActionView::Return {
            value: 0,
            effects: seq![
                EffectView::CopyOut { addr: old_ss, bytes: zeros(8) },
                EffectView::CopyOut { addr: old_ss.wrapping_add(8), bytes: seq![2u8, 0u8, 0u8, 0u8] },
                EffectView::CopyOut { addr: old_ss.wrapping_add(16), bytes: zeros(8) },
            ],
        }
    } else {
        plain(0)
    }
}

/// `sigaltstack`: reports that no alternate stack is in use.
pub fn sys_sigaltstack(_ss: u64, old_ss: u64) -> (action: SyscallAction)
    ensures
        action@ == spec_sys_sigaltstack(old_ss),
{
    if old_ss == 0 {
        return done(0);
    }
    let mut flags: Vec<u8> = Vec::new();
    flags.push(2u8);
    flags.push(0u8);
    flags.push(0u8);
    flags.push(0u8);
    assert(flags@ =~= seq![2u8, 0u8, 0u8, 0u8]);
    let first = Effect::CopyOut { addr: old_ss, bytes: zero_bytes(8) };
    let second = Effect::CopyOut { addr: old_ss.wrapping_add(8), bytes: flags };
    let third = Effect::CopyOut { addr: old_ss.wrapping_add(16), bytes: zero_bytes(8) };
    let ghost views = seq![first@, second@, third@];
    let mut effects: Vec<Effect> = Vec::new();
    effects.push(first);
    effects.push(second);
    effects.push(third);
    let action = SyscallAction::Return { value: 0, effects };
    assert(action@->Return_effects =~= views);
    action
}

/// The generator's state after one step.
pub open spec fn lcg_next(seed: u64) -> u64 {
    seed.wrapping_mul(LCG_MULTIPLIER).wrapping_add(1)
}

/// The generator's state after `n` steps.
pub open spec fn seed_after(seed: u64, n: nat) -> u64
    decreases n,
{
    if n == 0 {
        seed
    } else {
        lcg_next(seed_after(seed, (n - 1) as nat))
    }
}

/// The byte that the generator hands out in state `seed`: bits 33 to 40.
pub open spec fn random_byte(seed: u64) -> u8 {
    ((seed >> 33) & 0xFF) as u8
}

/// The first `n` bytes that the generator hands out from state `seed`: one
/// step before each byte.
pub open spec fn random_bytes(seed: u64, n: nat) -> Seq<u8> {
    Seq::new(n, |i: int| random_byte(seed_after(seed, (i + 1) as nat)))
}

/// Action of `getrandom`: the next `buflen` bytes of the generator go to the
/// user's buffer, and `buflen` is returned.
pub open spec fn spec_sys_getrandom(state: SyscallState, buf: u64, buflen: u64) -> ActionView {
    ActionView::Return {
        value: buflen as i64,
        effects: seq![
            EffectView::CopyOut { addr: buf, bytes: random_bytes(state.seed, buflen as nat) },
        ],
    }
}

/// State after `getrandom`: the generator has made one step per byte.
pub open spec fn getrandom_state(state: SyscallState, buflen: u64) -> SyscallState {
    SyscallState { seed: seed_after(state.seed, buflen as nat), ..state }
}

/// `getrandom`: fills the user's buffer from the generator and returns the
/// number of bytes.
pub fn sys_getrandom(state: &mut SyscallState, buf: u64, buflen: u64, _flags: u64) -> (action:
    SyscallAction)
    requires
        buflen <= MAX_COUNT,
    ensures
        action@ == spec_sys_getrandom(*old(state), buf, buflen),
        *final(state) == getrandom_state(*old(state), buflen),
{
    let mut bytes: Vec<u8> = Vec::new();
    let mut seed: u64 = state.seed;
    let mut i: u64 = 0;
    while i < buflen
        invariant
            i <= buflen,
            bytes@.len() == i,
            seed == seed_after(old(state).seed, i as nat),
            forall|k: int|
                0 <= k < i ==> bytes@[k] == random_byte(
                    seed_after(old(state).seed, (k + 1) as nat),
                ),
        decreases buflen - i,
    {
        seed = seed.wrapping_mul(LCG_MULTIPLIER).wrapping_add(1);
        assert(((seed >> 33) & 0xFF) < 256) by (bit_vector);
        bytes.push(((seed >> 33) & 0xFF) as u8);
        i = i + 1;
    }
    state.seed = seed;
    assert(bytes@ =~= random_bytes(old(state).seed, buflen as nat));
    done_with(buflen as i64, Effect::CopyOut { addr: buf, bytes })
}

/// The file status record of a character device that everyone may read and
/// write: all zero but for the mode field.
pub open spec fn stat_record() -> Seq<u8> {
    Seq::new(
        STAT_SIZE as nat,
        |i: int|
            if i == STAT_MODE_OFFSET {
                0xB6u8
            } else if i == STAT_MODE_OFFSET + 1 {
                0x21u8
            } else {
                0u8
            },
    )
}

/// `fstat`: the three standard descriptors are character devices, any other
/// descriptor is bad.
pub open spec fn spec_sys_fstat(fd: u64, statbuf: u64) -> ActionView {
    if fd <= STDERR {
        copy_out(statbuf, stat_record())
    } else {
        plain(RET_EBADF)
    }
}

/// `fstat`: describes a standard descriptor.
pub fn sys_fstat(fd: u64, statbuf: u64) -> (action: SyscallAction)
    ensures
        action@ == spec_sys_fstat(fd, statbuf),
{
    if fd <= STDERR {
        let mut record: Vec<u8> = zero_bytes(STAT_SIZE);
        assert(CHAR_DEVICE_MODE & 0xFF == 0xB6 && (CHAR_DEVICE_MODE >> 8) & 0xFF == 0x21
            && CHAR_DEVICE_MODE >> 16 == 0) by (bit_vector)
            requires
                CHAR_DEVICE_MODE == 0x21B6,
        ;
        record.set(STAT_MODE_OFFSET, (CHAR_DEVICE_MODE & 0xFF) as u8);
        record.set(STAT_MODE_OFFSET + 1, ((CHAR_DEVICE_MODE >> 8) & 0xFF) as u8);
        assert(record@ =~= stat_record());
        done_with(0, Effect::CopyOut { addr: statbuf, bytes: record })
    } else {
        done(RET_EBADF)
    }
}

/// `ioctl`: no descriptor is a terminal.
pub fn sys_ioctl(_fd: u64, _request: u64, _arg: u64) -> (r: i64)
    ensures
        r == RET_ENOTTY,
{
    RET_ENOTTY
}

/// Address of entry `index` of the vector at `iov`.
pub open spec fn iovec_addr(iov: u64, index: u64) -> u64 {
    (iov + index * 16) as u64
}

/// First step of `writev`: an empty vector writes nothing; otherwise the
/// first entry is asked for.
pub open spec fn spec_sys_writev(fd: u64, iov: u64, iovcnt: u64) -> ActionView {
    if iovcnt == 0 {
        plain(0)
    } else {
        ActionView::CopyIn {
            addr: iov,
            len: 16,
            pending: Pending::WritevEntry { fd, iov, iovcnt, index: 0, total: 0 },
        }
    }
}

/// `writev`: writes the buffers of a vector one after the other. The vector
/// has to end inside the address space.
pub fn sys_writev(fd: u64, iov: u64, iovcnt: u64) -> (action: SyscallAction)
    requires
        iov + iovcnt * 16 <= u64::MAX,
    ensures
        action@ == spec_sys_writev(fd, iov, iovcnt),
{
    if iovcnt == 0 {
        return done(0);
    }
    SyscallAction::CopyIn {
        addr: iov,
        len: 16,
        pending: Pending::WritevEntry { fd, iov, iovcnt, index: 0, total: 0 },
    }
}


/// Number of bytes that a pending call waits for.
pub open spec fn pending_len(pending: Pending) -> u64 {
    match pending {
        Pending::Write { count } => count,
        Pending::WritevEntry { .. } => 16,
        Pending::WritevData { count, .. } => count,
    }
}

/// The pending call is one that a handler can have produced: counts are
/// within the transfer limit, the vector ends inside the address space, the
/// running total of a `writev` fits the return value.
pub open spec fn pending_wf(pending: Pending) -> bool {
    match pending {
        Pending::Write { count } => count <= MAX_COUNT,
        Pending::WritevEntry { fd, iov, iovcnt, index, total } => {
            &&& index < iovcnt
            &&& iov + iovcnt * 16 <= u64::MAX
            &&& 0 <= total
        },
        Pending::WritevData { fd, iov, iovcnt, index, total, count } => {
            &&& index < iovcnt
            &&& iov + iovcnt * 16 <= u64::MAX
            &&& 0 <= total
            &&& total + count <= i64::MAX
        },
    }
}

/// `data` is what the pending call waits for, and, where it is an entry of a
/// vector, the buffer it names can be written without overflowing the total.
pub open spec fn resumable(pending: Pending, data: Seq<u8>) -> bool {
    &&& pending_wf(pending)
    &&& data.len() == pending_len(pending)
    &&& match pending {
        Pending::WritevEntry { fd, total, .. } => fd == STDOUT || fd == STDERR ==> total
            + le_value(data, 8) <= i64::MAX,
        _ => true,
    }
}

/// Tells whether `resume_syscall` accepts `data` for `pending`.
pub fn can_resume(pending: Pending, data: &[u8]) -> (r: bool)
    ensures
        r == resumable(pending, data@),
{
    match pending {
        Pending::Write { count } => count <= MAX_COUNT && data.len() as u64 == count,
        Pending::WritevEntry { fd, iov, iovcnt, index, total } => {
            if !(index < iovcnt && iovcnt as u128 * 16 + iov as u128 <= u64::MAX as u128 && total
                >= 0 && data.len() == 16) {
                return false;
            }
            if fd == STDOUT || fd == STDERR {
                let len: u64 = from_le_bytes(data, 8);
                total as u128 + len as u128 <= i64::MAX as u128
            } else {
                true
            }
        },
        Pending::WritevData { fd, iov, iovcnt, index, total, count } => {
            index < iovcnt && iovcnt as u128 * 16 + iov as u128 <= u64::MAX as u128 && total >= 0
                && total as u128 + count as u128 <= i64::MAX as u128 && data.len() as u64 == count
        },
    }
}

/// Whether the bytes that a pending call waits for are written out.
pub open spec fn writes_data(pending: Pending) -> bool {
    pending is Write || pending is WritevData
}

/// What a pending call does once its bytes are there. A `write` returns its
/// count. An entry of a vector asks for the buffer it names, or fails on a
/// bad descriptor. The buffer of an entry adds its length to the total, and
/// the call goes on to the next entry or returns the total after the last.
pub open spec fn spec_resume(pending: Pending, data: Seq<u8>) -> ActionView {
    match pending {
        Pending::Write { count } => plain(count as i64),
        Pending::WritevEntry { fd, iov, iovcnt, index, total } => if fd == STDOUT || fd
            == STDERR {
            ActionView::CopyIn {
                addr: le_value(data, 0),
                len: le_value(data, 8),
                pending: Pending::WritevData {
                    fd,
                    iov,
                    iovcnt,
                    index,
                    total,
                    count: le_value(data, 8),
                },
            }
        } else {
            plain(RET_EBADF)
        },
        Pending::WritevData { fd, iov, iovcnt, index, total, count } => if index + 1 < iovcnt {
            ActionView::CopyIn {
                addr: iovec_addr(iov, (index + 1) as u64),
                len: 16,
                pending: Pending::WritevEntry {
                    fd,
                    iov,
                    iovcnt,
                    index: (index + 1) as u64,
                    total: (total + count) as i64,
                },
            }
        } else {
            plain((total + count) as i64)
        },
    }
}

/// Continues a call with the bytes it asked for: the data of a `write` or of
/// a vector entry goes byte for byte to the console and the serial sink.
pub fn resume_syscall(
    console: &mut Option<FrameBufferWriter>,
    serial: &mut Vec<u8>,
    pending: Pending,
    data: &[u8],
) -> (action: SyscallAction)
    requires
        slot_wf(*old(console)),
        resumable(pending, data@),
    ensures
        slot_wf(*final(console)),
        action@ == spec_resume(pending, data@),
        writes_data(pending) ==> shown(*final(console)) == console_after(
            shown(*old(console)),
            data@,
        ) && final(serial)@ == old(serial)@ + data@,
        !writes_data(pending) ==> shown(*final(console)) == shown(*old(console))
            && final(serial)@ == old(serial)@,
        match action@ {
            ActionView::CopyIn { pending: next, .. } => pending_wf(next),
            _ => true,
        },
{
    match pending {
        Pending::Write { count } => {
            emit(console, serial, data);
            done(count as i64)
        },
        Pending::WritevEntry { fd, iov, iovcnt, index, total } => {
            if fd != STDOUT && fd != STDERR {
                return done(RET_EBADF);
            }
            let base: u64 = from_le_bytes(data, 0);
            let len: u64 = from_le_bytes(data, 8);
            SyscallAction::CopyIn {
                addr: base,
                len,
                pending: Pending::WritevData { fd, iov, iovcnt, index, total, count: len },
            }
        },
        Pending::WritevData { fd, iov, iovcnt, index, total, count } => {
            emit(console, serial, data);
            let sum: i64 = total + count as i64;
            if index + 1 < iovcnt {
                assert((index + 1) * 16 <= iovcnt * 16) by (nonlinear_arith)
                    requires
                        index + 1 <= iovcnt,
                ;
                SyscallAction::CopyIn {
                    addr: iov + (index + 1) * 16,
                    len: 16,
                    pending: Pending::WritevEntry { fd, iov, iovcnt, index: index + 1, total: sum },
                }
            } else {
                done(sum)
            }
        },
    }
}

/// The arguments are ones that the handler of call `nr` can work on: byte
/// counts are within the transfer limit, a segment base to load is a
/// canonical address, and a vector ends inside the address space.
pub open spec fn admissible(nr: u64, arg1: u64, arg2: u64, arg3: u64) -> bool {
    &&& nr == SYS_WRITE ==> arg3 <= MAX_COUNT
    &&& nr == SYS_GETRANDOM ==> arg2 <= MAX_COUNT
    &&& nr == SYS_WRITEV ==> arg2 + arg3 * 16 <= u64::MAX
    &&& nr == SYS_ARCH_PRCTL && (arg1 == ARCH_SET_FS || arg1 == ARCH_SET_GS)
        ==> spec_is_canonical(arg2)
}

/// Tells whether `handle_syscall` accepts the arguments for call `nr`.
pub fn is_admissible(nr: u64, arg1: u64, arg2: u64, arg3: u64) -> (r: bool)
    ensures
        r == admissible(nr, arg1, arg2, arg3),
{
    if nr == SYS_WRITE {
        arg3 <= MAX_COUNT
    } else if nr == SYS_GETRANDOM {
        arg2 <= MAX_COUNT
    } else if nr == SYS_WRITEV {
        arg3 as u128 * 16 + arg2 as u128 <= u64::MAX as u128
    } else if nr == SYS_ARCH_PRCTL && (arg1 == ARCH_SET_FS || arg1 == ARCH_SET_GS) {
        crate::helpers::is_canonical(arg2)
    } else {
        true
    }
}

/// What the kernel does for call number `nr`: the dispatch table.
pub open spec fn spec_handle_syscall(
    state: SyscallState,
    cpu: CpuBases,
    nr: u64,
    arg1: u64,
    arg2: u64,
    arg3: u64,
) -> ActionView {
    if nr == SYS_WRITE {
        spec_sys_write(arg1, arg2, arg3)
    } else if nr == SYS_READ {
        plain(spec_sys_read(arg1))
    } else if nr == SYS_EXIT || nr == SYS_EXIT_GROUP {
        ActionView::Halt { status: arg1 }
    } else if nr == SYS_BRK {
        plain(brk_result(state, arg1))
    } else if nr == SYS_MMAP {
        plain(mmap_result(state, arg1, arg2))
    } else if nr == SYS_MPROTECT || nr == SYS_MUNMAP || nr == SYS_POLL || nr == SYS_MADVISE {
        plain(0)
    } else if nr == SYS_ARCH_PRCTL {
        spec_sys_arch_prctl(cpu, arg1, arg2)
    } else if nr == SYS_SET_TID_ADDRESS {
        plain(1)
    } else if nr == SYS_RT_SIGACTION {
        zero_out(arg3, 32)
    } else if nr == SYS_RT_SIGPROCMASK {
        zero_out(arg3, 8)
    } else if nr == SYS_SIGALTSTACK {
        spec_sys_sigaltstack(arg2)
    } else if nr == SYS_GETRANDOM {
        spec_sys_getrandom(state, arg1, arg2)
    } else if nr == SYS_FSTAT {
        spec_sys_fstat(arg1, arg2)
    } else if nr == SYS_IOCTL {
        plain(RET_ENOTTY)
    } else if nr == SYS_WRITEV {
        spec_sys_writev(arg1, arg2, arg3)
    } else {
        plain(RET_ENOSYS)
    }
}

/// The process state after call number `nr`: only `brk`, `mmap` and
/// `getrandom` change it.
pub open spec fn state_after_syscall(state: SyscallState, nr: u64, arg1: u64, arg2: u64) -> SyscallState {
    if nr == SYS_BRK {
        brk_state(state, arg1)
    } else if nr == SYS_MMAP {
        mmap_state(state, arg1, arg2)
    } else if nr == SYS_GETRANDOM {
        getrandom_state(state, arg2)
    } else {
        state
    }
}

/// Dispatches call number `nr` with its six arguments to its handler. An
/// unknown number returns `ENOSYS`.
pub fn handle_syscall(
    state: &mut SyscallState,
    cpu: CpuBases,
    nr: u64,
    arg1: u64,
    arg2: u64,
    arg3: u64,
    arg4: u64,
    _arg5: u64,
    _arg6: u64,
) -> (action: SyscallAction)
    requires
        admissible(nr, arg1, arg2, arg3),
    ensures
        action@ == spec_handle_syscall(*old(state), cpu, nr, arg1, arg2, arg3),
        *final(state) == state_after_syscall(*old(state), nr, arg1, arg2),
        match action@ {
            ActionView::CopyIn { pending, .. } => pending_wf(pending),
            _ => true,
        },
{
    if nr == SYS_WRITE {
        sys_write(arg1, arg2, arg3)
    } else if nr == SYS_READ {
        done(sys_read(arg1, arg2, arg3))
    } else if nr == SYS_EXIT {
        sys_exit(arg1)
    } else if nr == SYS_EXIT_GROUP {
        sys_exit_group(arg1)
    } else if nr == SYS_BRK {
        let r: i64 = sys_brk(state, arg1);
        done(r)
    } else if nr == SYS_MMAP {
        let r: i64 = sys_mmap(state, arg1, arg2, arg3, arg4);
        done(r)
    } else if nr == SYS_MPROTECT {
        done(sys_mprotect(arg1, arg2, arg3))
    } else if nr == SYS_MUNMAP {
        done(sys_munmap(arg1, arg2))
    } else if nr == SYS_ARCH_PRCTL {
        sys_arch_prctl(cpu, arg1, arg2)
    } else if nr == SYS_SET_TID_ADDRESS {
        done(sys_set_tid_address(arg1))
    } else if nr == SYS_POLL {
        done(sys_poll(arg1, arg2, arg3))
    } else if nr == SYS_RT_SIGACTION {
        sys_rt_sigaction(arg1, arg2, arg3)
    } else if nr == SYS_RT_SIGPROCMASK {
        sys_rt_sigprocmask(arg1, arg2, arg3, arg4)
    } else if nr == SYS_SIGALTSTACK {
        sys_sigaltstack(arg1, arg2)
    } else if nr == SYS_GETRANDOM {
        sys_getrandom(state, arg1, arg2, arg3)
    } else if nr == SYS_FSTAT {
        sys_fstat(arg1, arg2)
    } else if nr == SYS_IOCTL {
        done(sys_ioctl(arg1, arg2, arg3))
    } else if nr == SYS_WRITEV {
        sys_writev(arg1, arg2, arg3)
    } else if nr == SYS_MADVISE {
        done(0)
    } else {
        done(RET_ENOSYS)
    }
}


/// The pool's next free address is a page boundary inside the region that
/// the loader reserved for the pool.
pub open spec fn pool_in_reserve(state: SyscallState) -> bool {
    &&& MMAP_POOL_START <= state.mmap_next <= state.mmap_end
    &&& state.mmap_end == MMAP_POOL_END
    &&& state.mmap_next % 4096 == 0
}

/// A mapping that `mmap` takes from the pool starts on a page boundary and
/// lies in the region that the loader reserved for the pool: each of its
/// pages is one that the load plan maps and zeroes. The pool stays inside its
/// reserve.
pub proof fn law_pool_mappings_are_reserved(state: SyscallState, length: u64, offset: int)
    requires
        pool_in_reserve(state),
        pool_has_room(state, length),
        0 <= offset < page_aligned_len(length),
    ensures
        mmap_result(state, 0, length) == state.mmap_next,
        mmap_result(state, 0, length) % 4096 == 0,
        MMAP_POOL_START <= state.mmap_next + offset < MMAP_POOL_END,
        pool_in_reserve(mmap_state(state, 0, length)),
        ({
            let page = (state.mmap_next + offset) / 4096 * 4096;
            let i = (page - MMAP_POOL_START) / 4096;
            &&& 0 <= i < region_ops(MMAP_POOL_START, MMAP_POOL_END).len()
            &&& region_ops(MMAP_POOL_START, MMAP_POOL_END)[i] matches PageOp::MapIfAbsent {
                page: p,
                ..
            } && p == page
        }),
{
    let next = state.mmap_next;
    assert(next as i64 == next) by (bit_vector)
        requires
            next <= 0x50_0000,
    ;
}

/// A process starts with its pool inside the reserve.
pub proof fn law_pool_starts_in_reserve()
    ensures
        pool_in_reserve(SyscallState::initial()),
{
}

} // verus!
