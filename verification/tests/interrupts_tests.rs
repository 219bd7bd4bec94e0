use kernel_core::interrupts::{
    add_scancode, heartbeat_due, init_idt, init_timer, page_fault_report, pic_masks, pit_divisor,
    pop_scancode,
    AfterHandler, Handler, InterruptIndex, KeyboardBuffer, PortWrite, BUFFER_SIZE, PIC_1_OFFSET,
    PIC_2_OFFSET,
};

#[test]
fn interrupt_vectors() {
    assert_eq!(InterruptIndex::Timer.as_u8(), 32);
    assert_eq!(InterruptIndex::Keyboard.as_u8(), 33);
    assert_eq!(InterruptIndex::Timer.as_usize(), 32);
    assert_eq!(InterruptIndex::Keyboard.as_usize(), 33);
    assert_eq!(PIC_1_OFFSET, 32);
    assert_eq!(PIC_2_OFFSET, 40);
}

#[test]
fn empty_ring_pops_nothing() {
    let mut ring = KeyboardBuffer::new();
    assert_eq!(ring.len(), 0);
    assert_eq!(pop_scancode(&mut ring), None);
    assert_eq!(ring.len(), 0);
}

#[test]
fn ring_is_first_in_first_out() {
    let mut ring = KeyboardBuffer::new();
    add_scancode(&mut ring, 0x1E);
    add_scancode(&mut ring, 0x30);
    add_scancode(&mut ring, 0x2E);
    assert_eq!(ring.len(), 3);
    assert_eq!(pop_scancode(&mut ring), Some(0x1E));
    assert_eq!(pop_scancode(&mut ring), Some(0x30));
    add_scancode(&mut ring, 0x20);
    assert_eq!(pop_scancode(&mut ring), Some(0x2E));
    assert_eq!(pop_scancode(&mut ring), Some(0x20));
    assert_eq!(pop_scancode(&mut ring), None);
}

#[test]
fn full_ring_drops_new_scancodes() {
    let mut ring = KeyboardBuffer::new();
    for i in 0..100u8 {
        add_scancode(&mut ring, i);
    }
    assert_eq!(ring.len(), BUFFER_SIZE - 1);
    for i in 0..63u8 {
        assert_eq!(pop_scancode(&mut ring), Some(i));
    }
    assert_eq!(pop_scancode(&mut ring), None);
}

#[test]
fn ring_wraps_around() {
    let mut ring = KeyboardBuffer::new();
    let mut next_in: u32 = 0;
    let mut next_out: u32 = 0;
    for round in 0..50 {
        for _ in 0..(round % 7 + 1) {
            if ring.len() < BUFFER_SIZE - 1 {
                add_scancode(&mut ring, (next_in % 251) as u8);
                next_in += 1;
            }
        }
        for _ in 0..(round % 5 + 1) {
            if let Some(b) = pop_scancode(&mut ring) {
                assert_eq!(b, (next_out % 251) as u8);
                next_out += 1;
            }
        }
    }
    while let Some(b) = pop_scancode(&mut ring) {
        assert_eq!(b, (next_out % 251) as u8);
        next_out += 1;
    }
    assert_eq!(next_in, next_out);
}

#[test]
fn timer_divisor_for_one_kilohertz() {
    assert_eq!(pit_divisor(1000), 1193);
    assert_eq!(pit_divisor(20), 59659);
}

#[test]
fn timer_program() {
    let writes = init_timer();
    assert_eq!(
        writes,
        [
            PortWrite { port: 0x43, value: 0x36 },
            PortWrite { port: 0x40, value: 0xA9 },
            PortWrite { port: 0x40, value: 0x04 },
        ]
    );
    assert_eq!(writes[1].value as u32 | (writes[2].value as u32) << 8, 1193);
}

#[test]
fn only_timer_and_keyboard_are_unmasked() {
    assert_eq!(pic_masks(), (0xFC, 0xFF));
}

#[test]
fn descriptor_table_gates() {
    let gates = init_idt();
    let vectors: Vec<u8> = gates.iter().map(|g| g.vector).collect();
    assert_eq!(vectors, vec![3, 8, 12, 13, 14, 32, 33]);
    assert!(matches!(gates[0].handler, Handler::Breakpoint));
    assert!(matches!(gates[1].handler, Handler::DoubleFault));
    assert!(matches!(gates[2].handler, Handler::StackSegmentFault));
    assert!(matches!(gates[3].handler, Handler::GeneralProtectionFault));
    assert!(matches!(gates[4].handler, Handler::PageFault));
    assert!(matches!(gates[5].handler, Handler::Timer));
    assert!(matches!(gates[6].handler, Handler::Keyboard));
    for (i, gate) in gates.iter().enumerate() {
        assert_eq!(gate.stack_index, if i == 1 { Some(0) } else { None });
    }
}

#[test]
fn what_follows_each_handler() {
    assert!(matches!(Handler::Breakpoint.after(), AfterHandler::Resume));
    assert!(matches!(Handler::DoubleFault.after(), AfterHandler::Halt));
    assert!(matches!(Handler::StackSegmentFault.after(), AfterHandler::Halt));
    assert!(matches!(Handler::GeneralProtectionFault.after(), AfterHandler::Halt));
    assert!(matches!(Handler::PageFault.after(), AfterHandler::Halt));
    assert!(matches!(Handler::Timer.after(), AfterHandler::EndOfInterrupt { vector: 32 }));
    assert!(matches!(Handler::Keyboard.after(), AfterHandler::EndOfInterrupt { vector: 33 }));
}

#[test]
fn heartbeat_every_twenty_ticks() {
    assert!(heartbeat_due(20, 0));
    assert!(heartbeat_due(40, 20));
    assert!(!heartbeat_due(20, 20));
    assert!(!heartbeat_due(21, 20));
    assert!(!heartbeat_due(0, 0));
    assert!(!heartbeat_due(39, 20));
    assert!(heartbeat_due(100, 20));
}

#[test]
fn page_fault_error_code_bits() {
    let none = page_fault_report(0);
    assert!(!none.protection_violation && !none.caused_by_write && !none.user_mode);
    assert!(!none.malformed_table && !none.instruction_fetch && !none.protection_key);
    assert!(!none.shadow_stack && !none.hlat && !none.sgx && !none.rmp);
    let user_write = page_fault_report(0b110);
    assert!(!user_write.protection_violation);
    assert!(user_write.caused_by_write);
    assert!(user_write.user_mode);
    assert!(!user_write.malformed_table);
    assert!(page_fault_report(1).protection_violation);
    assert!(page_fault_report(1 << 3).malformed_table);
    assert!(page_fault_report(1 << 4).instruction_fetch);
    assert!(page_fault_report(1 << 5).protection_key);
    assert!(page_fault_report(1 << 6).shadow_stack);
    assert!(page_fault_report(1 << 7).hlat);
    assert!(page_fault_report(1 << 15).sgx);
    assert!(page_fault_report(1 << 31).rmp);
    let high = page_fault_report(1 << 32 | 1 << 8 | 1 << 14 | 1 << 16);
    assert!(!high.rmp && !high.sgx && !high.hlat);
    let all = page_fault_report(u64::MAX);
    assert!(all.protection_violation && all.rmp && all.sgx && all.hlat);
}
