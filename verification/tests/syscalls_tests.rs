use kernel_core::framebuffer::{FrameBufferInfo, PixelFormat};
use kernel_core::screen::FrameBufferWriter;
use kernel_core::syscalls::{
    can_resume, emit, handle_syscall, is_admissible, resume_syscall, sys_arch_prctl, sys_brk,
    sys_exit, sys_exit_group, sys_fstat, sys_getrandom, sys_ioctl, sys_mmap, sys_mprotect,
    sys_munmap, sys_poll, sys_read, sys_rt_sigaction, sys_rt_sigprocmask, sys_set_tid_address,
    sys_sigaltstack, sys_write, sys_writev, CpuBases, Effect, Pending, SyscallAction,
    SyscallState, ARCH_GET_FS, ARCH_GET_GS, ARCH_SET_FS, ARCH_SET_GS,
};

fn cpu() -> CpuBases {
    CpuBases { fs_base: 0, gs_base: 0 }
}

fn console() -> Option<FrameBufferWriter> {
    Some(FrameBufferWriter::new(FrameBufferInfo {
        buffer_base: 0,
        buffer_size: 0,
        width: 128,
        height: 64,
        stride: 128,
        format: PixelFormat::BGR,
    }))
}

fn expect_return(action: SyscallAction) -> (i64, Vec<Effect>) {
    match action {
        SyscallAction::Return { value, effects } => (value, effects),
        other => panic!("expected a return, got {:?}", other),
    }
}

fn expect_plain(action: SyscallAction, expected: i64) {
    let (value, effects) = expect_return(action);
    assert_eq!(value, expected);
    assert!(effects.is_empty());
}

fn expect_copy_out(effect: &Effect, expected_addr: u64, expected: &[u8]) {
    match effect {
        Effect::CopyOut { addr, bytes } => {
            assert_eq!(*addr, expected_addr);
            assert_eq!(&bytes[..], expected);
        }
        other => panic!("expected a copy to user memory, got {:?}", other),
    }
}

fn call(state: &mut SyscallState, nr: u64, a1: u64, a2: u64, a3: u64) -> SyscallAction {
    assert!(is_admissible(nr, a1, a2, a3));
    handle_syscall(state, cpu(), nr, a1, a2, a3, 0, 0, 0)
}

#[test]
fn write_to_stdout_emits_the_bytes() {
    let mut state = SyscallState::new();
    let mut con = console();
    let mut serial = Vec::new();
    let action = call(&mut state, 1, 1, 0x40_2000, 6);
    let pending = match action {
        SyscallAction::CopyIn { addr, len, pending } => {
            assert_eq!(addr, 0x40_2000);
            assert_eq!(len, 6);
            pending
        }
        other => panic!("expected a copy from user memory, got {:?}", other),
    };
    assert!(can_resume(pending, b"hello\n"));
    assert!(!can_resume(pending, b"hello"));
    let done = resume_syscall(&mut con, &mut serial, pending, b"hello\n");
    expect_plain(done, 6);
    assert_eq!(serial, b"hello\n");
    let mut reference = console();
    reference.as_mut().unwrap().write_bytes(b"hello\n");
    assert_eq!(con.as_ref().unwrap().pixels(), reference.as_ref().unwrap().pixels());
    assert_eq!(con.as_ref().unwrap().cursor(), (0, 16));
}

#[test]
fn write_to_stderr_is_accepted_and_other_descriptors_are_bad() {
    assert!(matches!(sys_write(2, 0x1000, 3), SyscallAction::CopyIn { len: 3, .. }));
    expect_plain(sys_write(0, 0x1000, 3), -9);
    expect_plain(sys_write(3, 0x1000, 3), -9);
    expect_plain(sys_write(u64::MAX, 0x1000, 0), -9);
}

#[test]
fn write_passes_bytes_unchanged_even_if_not_utf8() {
    let mut con = None;
    let mut serial = vec![b'>'];
    let data = [0xFFu8, 0x00, 0x80, b'a'];
    let done = resume_syscall(&mut con, &mut serial, Pending::Write { count: 4 }, &data);
    expect_plain(done, 4);
    assert_eq!(serial, [b'>', 0xFF, 0x00, 0x80, b'a']);
}

#[test]
fn emit_appends_to_the_serial_sink() {
    let mut con = console();
    let mut serial = b"ab".to_vec();
    emit(&mut con, &mut serial, b"cd");
    emit(&mut con, &mut serial, b"");
    assert_eq!(serial, b"abcd");
}

#[test]
fn read_is_end_of_file_on_stdin_only() {
    assert_eq!(sys_read(0, 0x1000, 10), 0);
    assert_eq!(sys_read(1, 0x1000, 10), -9);
    assert_eq!(sys_read(7, 0, 0), -9);
    let mut state = SyscallState::new();
    expect_plain(call(&mut state, 0, 0, 0x1000, 10), 0);
    expect_plain(call(&mut state, 0, 5, 0x1000, 10), -9);
}

#[test]
fn brk_reports_and_moves_the_break() {
    let mut state = SyscallState::new();
    let b0 = expect_return(call(&mut state, 12, 0, 0, 0)).0;
    assert_eq!(b0, 0x800_0000);
    let b1 = expect_return(call(&mut state, 12, b0 as u64 + 0x1000, 0, 0)).0;
    assert_eq!(b1, b0 + 0x1000);
    assert_eq!(expect_return(call(&mut state, 12, 0, 0, 0)).0, b0 + 0x1000);
    assert_eq!(sys_brk(&mut state, 0x700_0000), 0x700_0000);
    assert_eq!(sys_brk(&mut state, 0), 0x700_0000);
    assert_eq!(state.current_brk, 0x700_0000);
}

#[test]
fn arch_prctl_sets_and_reads_segment_bases() {
    let mut bases = cpu();
    let (value, effects) = expect_return(sys_arch_prctl(bases, ARCH_SET_FS, 0xDEAD_0000));
    assert_eq!(value, 0);
    assert_eq!(effects.len(), 1);
    match effects[0] {
        Effect::SetFsBase { value } => bases.fs_base = value,
        ref other => panic!("unexpected effect {:?}", other),
    }
    let (value, effects) = expect_return(sys_arch_prctl(bases, ARCH_GET_FS, 0x7000));
    assert_eq!(value, 0);
    assert_eq!(effects.len(), 1);
    expect_copy_out(&effects[0], 0x7000, &0xDEAD_0000u64.to_le_bytes());

    let (value, effects) = expect_return(sys_arch_prctl(bases, ARCH_SET_GS, 0x1234_5678_9ABC));
    assert_eq!(value, 0);
    match effects[0] {
        Effect::SetGsBase { value } => bases.gs_base = value,
        ref other => panic!("unexpected effect {:?}", other),
    }
    let (_, effects) = expect_return(sys_arch_prctl(bases, ARCH_GET_GS, 0x7008));
    expect_copy_out(&effects[0], 0x7008, &0x1234_5678_9ABCu64.to_le_bytes());
    expect_plain(sys_arch_prctl(bases, 0x1005, 0), -22);
    expect_plain(sys_arch_prctl(bases, 0, 0x8000_0000_0000), -22);
}

#[test]
fn arch_prctl_set_needs_a_canonical_address() {
    assert!(is_admissible(158, ARCH_SET_FS, 0x7FFF_FFFF_FFFF, 0));
    assert!(!is_admissible(158, ARCH_SET_FS, 0x8000_0000_0000, 0));
    assert!(!is_admissible(158, ARCH_SET_GS, 0x8000_0000_0000, 0));
    assert!(is_admissible(158, ARCH_GET_FS, 0x8000_0000_0000, 0));
}

#[test]
fn mmap_takes_pages_from_the_pool() {
    let mut state = SyscallState::new();
    let a = expect_return(call(&mut state, 9, 0, 0x2000, 3)).0;
    assert_eq!(a, 0x48_0000);
    assert_eq!(a % 4096, 0);
    assert!(a as u64 + 0x1FFF < 0x50_0000);
    let b = sys_mmap(&mut state, 0, 1, 3, 0x22);
    assert_eq!(b, 0x48_2000);
    let c = sys_mmap(&mut state, 0, 0x1001, 3, 0x22);
    assert_eq!(c, 0x48_3000);
    assert_eq!(state.mmap_next, 0x48_5000);
}

#[test]
fn mmap_honours_fixed_addresses_above_the_first_page() {
    let mut state = SyscallState::new();
    assert_eq!(sys_mmap(&mut state, 0x1000, 0x5000, 3, 0x32), 0x1000);
    assert_eq!(sys_mmap(&mut state, 0x7000_0000, u64::MAX, 3, 0x32), 0x7000_0000);
    assert_eq!(state.mmap_next, 0x48_0000);
    // A hint below the first page boundary is served from the pool.
    assert_eq!(sys_mmap(&mut state, 0xFFF, 0x1000, 3, 0x22), 0x48_0000);
}

#[test]
fn mmap_fails_when_the_pool_is_exhausted() {
    let mut state = SyscallState::new();
    assert_eq!(sys_mmap(&mut state, 0, 0x8_0000, 3, 0x22), 0x48_0000);
    assert_eq!(sys_mmap(&mut state, 0, 1, 3, 0x22), -12);
    assert_eq!(sys_mmap(&mut state, 0, 0, 3, 0x22), 0x50_0000);
    let mut state = SyscallState::new();
    assert_eq!(sys_mmap(&mut state, 0, 0x8_0001, 3, 0x22), -12);
    assert_eq!(sys_mmap(&mut state, 0, u64::MAX, 3, 0x22), -12);
    assert_eq!(state.mmap_next, 0x48_0000);
}

#[test]
fn exit_halts_with_the_status() {
    let mut state = SyscallState::new();
    assert!(matches!(call(&mut state, 60, 42, 0, 0), SyscallAction::Halt { status: 42 }));
    assert!(matches!(call(&mut state, 231, 7, 0, 0), SyscallAction::Halt { status: 7 }));
    assert!(matches!(sys_exit(1), SyscallAction::Halt { status: 1 }));
    assert!(matches!(sys_exit_group(2), SyscallAction::Halt { status: 2 }));
}

#[test]
fn unknown_call_is_not_implemented() {
    let mut state = SyscallState::new();
    expect_plain(call(&mut state, 9999, 0, 0, 0), -38);
    expect_plain(call(&mut state, 3, 0, 0, 0), -38);
    expect_plain(call(&mut state, u64::MAX, 1, 2, 3), -38);
}

#[test]
fn stubs_return_their_fixed_values() {
    assert_eq!(sys_mprotect(0x1000, 0x1000, 7), 0);
    assert_eq!(sys_munmap(0x1000, 0x1000), 0);
    assert_eq!(sys_poll(0, 0, 0), 0);
    assert_eq!(sys_set_tid_address(0x1234), 1);
    assert_eq!(sys_ioctl(1, 0x5413, 0), -25);
    let mut state = SyscallState::new();
    expect_plain(call(&mut state, 10, 0, 0, 0), 0);
    expect_plain(call(&mut state, 11, 0, 0, 0), 0);
    expect_plain(call(&mut state, 7, 0, 0, 0), 0);
    expect_plain(call(&mut state, 28, 0, 0, 0), 0);
    expect_plain(call(&mut state, 218, 0, 0, 0), 1);
    expect_plain(call(&mut state, 16, 1, 0, 0), -25);
}

#[test]
fn fstat_describes_a_character_device() {
    let (value, effects) = expect_return(sys_fstat(1, 0x6000));
    assert_eq!(value, 0);
    let mut expected = [0u8; 144];
    expected[24..28].copy_from_slice(&(0o020000u32 | 0o666).to_le_bytes());
    expect_copy_out(&effects[0], 0x6000, &expected);
    assert_eq!(expect_return(sys_fstat(0, 0)).0, 0);
    assert_eq!(expect_return(sys_fstat(2, 0)).0, 0);
    expect_plain(sys_fstat(3, 0x6000), -9);
}

#[test]
fn signal_calls_zero_the_old_records() {
    let (value, effects) = expect_return(sys_rt_sigaction(11, 0x100, 0x5000));
    assert_eq!(value, 0);
    expect_copy_out(&effects[0], 0x5000, &[0u8; 32]);
    expect_plain(sys_rt_sigaction(11, 0x100, 0), 0);
    let (value, effects) = expect_return(sys_rt_sigprocmask(0, 0x100, 0x5100, 8));
    assert_eq!(value, 0);
    expect_copy_out(&effects[0], 0x5100, &[0u8; 8]);
    expect_plain(sys_rt_sigprocmask(0, 0x100, 0, 8), 0);
    let mut state = SyscallState::new();
    let (_, effects) = expect_return(call(&mut state, 13, 2, 0, 0x5000));
    expect_copy_out(&effects[0], 0x5000, &[0u8; 32]);
    let (_, effects) = expect_return(call(&mut state, 14, 0, 0, 0x5100));
    expect_copy_out(&effects[0], 0x5100, &[0u8; 8]);
}

#[test]
fn sigaltstack_reports_a_disabled_stack() {
    let (value, effects) = expect_return(sys_sigaltstack(0, 0x5200));
    assert_eq!(value, 0);
    assert_eq!(effects.len(), 3);
    expect_copy_out(&effects[0], 0x5200, &[0u8; 8]);
    expect_copy_out(&effects[1], 0x5208, &2u32.to_le_bytes());
    expect_copy_out(&effects[2], 0x5210, &[0u8; 8]);
    expect_plain(sys_sigaltstack(0x100, 0), 0);
}

#[test]
fn getrandom_follows_the_generator() {
    let mut state = SyscallState::new();
    let (value, effects) = expect_return(sys_getrandom(&mut state, 0x9000, 5, 0));
    assert_eq!(value, 5);
    let mut seed: u64 = 0x1234_5678_DEAD_BEEF;
    let mut expected = Vec::new();
    for _ in 0..5 {
        seed = seed.wrapping_mul(6364136223846793005).wrapping_add(1);
        expected.push((seed >> 33) as u8);
    }
    expect_copy_out(&effects[0], 0x9000, &expected);
    assert_eq!(state.seed, seed);
    // The next call goes on where this one stopped.
    let (_, effects) = expect_return(call(&mut state, 318, 0x9000, 1, 0));
    seed = seed.wrapping_mul(6364136223846793005).wrapping_add(1);
    expect_copy_out(&effects[0], 0x9000, &[(seed >> 33) as u8]);
    let (value, effects) = expect_return(sys_getrandom(&mut state, 0x9000, 0, 0));
    assert_eq!(value, 0);
    expect_copy_out(&effects[0], 0x9000, &[]);
}

fn iovec(base: u64, len: u64) -> [u8; 16] {
    let mut raw = [0u8; 16];
    raw[..8].copy_from_slice(&base.to_le_bytes());
    raw[8..].copy_from_slice(&len.to_le_bytes());
    raw
}

#[test]
fn writev_writes_each_buffer_in_turn() {
    let mut state = SyscallState::new();
    let mut con = console();
    let mut serial = Vec::new();
    let buffers: [(u64, &[u8]); 3] = [(0x1000, b"one "), (0x2000, b""), (0x3000, b"three\n")];
    let mut action = call(&mut state, 20, 1, 0x8000, 3);
    for (i, (base, data)) in buffers.iter().enumerate() {
        let pending = match action {
            SyscallAction::CopyIn { addr, len, pending } => {
                assert_eq!(addr, 0x8000 + 16 * i as u64);
                assert_eq!(len, 16);
                pending
            }
            other => panic!("expected the vector entry, got {:?}", other),
        };
        let entry = iovec(*base, data.len() as u64);
        assert!(can_resume(pending, &entry));
        action = resume_syscall(&mut con, &mut serial, pending, &entry);
        let pending = match action {
            SyscallAction::CopyIn { addr, len, pending } => {
                assert_eq!(addr, *base);
                assert_eq!(len, data.len() as u64);
                pending
            }
            other => panic!("expected the buffer, got {:?}", other),
        };
        assert!(can_resume(pending, data));
        action = resume_syscall(&mut con, &mut serial, pending, data);
    }
    expect_plain(action, 10);
    assert_eq!(serial, b"one three\n");
}

#[test]
fn writev_with_empty_vector_returns_zero() {
    expect_plain(sys_writev(1, 0x8000, 0), 0);
    expect_plain(sys_writev(99, 0x8000, 0), 0);
}

#[test]
fn writev_to_bad_descriptor_fails_at_the_first_entry() {
    let mut con = None;
    let mut serial = Vec::new();
    let pending = match sys_writev(5, 0x8000, 2) {
        SyscallAction::CopyIn { pending, .. } => pending,
        other => panic!("expected the vector entry, got {:?}", other),
    };
    let action = resume_syscall(&mut con, &mut serial, pending, &iovec(0x1000, 4));
    expect_plain(action, -9);
    assert!(serial.is_empty());
}

#[test]
fn admissible_arguments() {
    assert!(is_admissible(1, 1, 0, 0x7FFF_FFFF_FFFF_FFFF));
    assert!(!is_admissible(1, 1, 0, 0x8000_0000_0000_0000));
    assert!(is_admissible(318, 0, 0x7FFF_FFFF_FFFF_FFFF, 0));
    assert!(!is_admissible(318, 0, 0x8000_0000_0000_0000, 0));
    assert!(is_admissible(20, 1, 0xFFFF_FFFF_FFFF_FFEF, 1));
    assert!(!is_admissible(20, 1, 0xFFFF_FFFF_FFFF_FFF0, 1));
    assert!(!is_admissible(20, 1, 0, 0x1000_0000_0000_0000));
    assert!(is_admissible(9999, u64::MAX, u64::MAX, u64::MAX));
}

#[test]
fn resume_refuses_totals_that_overflow() {
    let pending = Pending::WritevEntry { fd: 1, iov: 0x8000, iovcnt: 2, index: 1, total: i64::MAX - 3 };
    assert!(can_resume(pending, &iovec(0x1000, 3)));
    assert!(!can_resume(pending, &iovec(0x1000, 4)));
    assert!(!can_resume(pending, &[0u8; 15]));
    let pending = Pending::WritevEntry { fd: 1, iov: 0x8000, iovcnt: 2, index: 2, total: 0 };
    assert!(!can_resume(pending, &iovec(0x1000, 3)));
}
