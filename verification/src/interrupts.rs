//! Interrupt-side state: vector numbers, the scancode ring shared between the
//! keyboard interrupt and the main loop, and the values that program the
//! legacy interrupt controllers and the interval timer.

use vstd::prelude::*;

verus! {

/// Vector at which the master interrupt controller delivers IRQ 0.
pub const PIC_1_OFFSET: u8 = 32;

/// Vector at which the slave interrupt controller delivers IRQ 8.
pub const PIC_2_OFFSET: u8 = 40;

/// Input clock of the interval timer, in Hz.
pub const PIT_FREQUENCY: u32 = 1_193_182;

/// Rate at which the timer interrupt fires, in Hz.
pub const TIMER_FREQUENCY_HZ: u32 = 1000;

/// Number of slots in the scancode ring. One slot stays empty, so the ring
/// holds at most `BUFFER_SIZE - 1` bytes.
pub const BUFFER_SIZE: usize = 64;

/// The hardware interrupts that the kernel handles.
#[derive(Debug, Clone, Copy, PartialEq, Eq)]
pub enum InterruptIndex {
    Timer,
    Keyboard,
}

impl InterruptIndex {
    /// The interrupt's vector number.
    pub open spec fn vector(self) -> int {
        match self {
            InterruptIndex::Timer => 32,
            InterruptIndex::Keyboard => 33,
        }
    }

    /// The line of the master controller that raises the interrupt.
    pub open spec fn irq_line(self) -> int {
        self.vector() - PIC_1_OFFSET
    }

    /// The interrupt's vector number.
    pub fn as_u8(self) -> (v: u8)
        ensures
            v == self.vector(),
            PIC_1_OFFSET <= v < PIC_2_OFFSET,
    {
        match self {
            InterruptIndex::Timer => PIC_1_OFFSET,
            InterruptIndex::Keyboard => PIC_1_OFFSET + 1,
        }
    }

    /// The interrupt's vector number, as an index into the descriptor table.
    pub fn as_usize(self) -> (v: usize)
        ensures
            v == self.vector(),
    {
        self.as_u8() as usize
    }
}

/// Fixed-size ring of scancodes. The keyboard interrupt appends at `head`, the
/// main loop removes at `tail`.
pub struct KeyboardBuffer {
    buffer: [u8; 64],
    head: usize,
    tail: usize,
}

impl View for KeyboardBuffer {
    type V = Seq<u8>;

    /// The queued scancodes, oldest first.
    closed spec fn view(&self) -> Seq<u8> {
        Seq::new(
            ((self.head + 64 - self.tail) % 64) as nat,
            |i: int| self.buffer@[(self.tail + i) % 64],
        )
    }
}

/// The queue after the interrupt side offers `scancode`: appended, or dropped
/// when the ring is full.
pub open spec fn ring_push(queue: Seq<u8>, scancode: u8) -> Seq<u8> {
    if queue.len() < BUFFER_SIZE - 1 {
        queue.push(scancode)
    } else {
        queue
    }
}

/// The queue after the main loop takes one scancode.
pub open spec fn ring_pop(queue: Seq<u8>) -> Seq<u8> {
    if queue.len() > 0 {
        queue.drop_first()
    } else {
        queue
    }
}

impl KeyboardBuffer {
    /// Both indices point into the ring.
    pub closed spec fn wf(&self) -> bool {
        self.head < 64 && self.tail < 64
    }

    /// An empty ring.
    pub fn new() -> (ring: KeyboardBuffer)
        ensures
            ring.wf(),
            ring@ =~= Seq::<u8>::empty(),
    {
        KeyboardBuffer { buffer: [0u8; 64], head: 0, tail: 0 }
    }

    /// Number of queued scancodes.
    pub fn len(&self) -> (n: usize)
        requires
            self.wf(),
        ensures
            n == self@.len(),
            n < BUFFER_SIZE,
    {
        (self.head + 64 - self.tail) % 64
    }
}

/// Appends `scancode` to the ring; a full ring drops it.
pub fn add_scancode(ring: &mut KeyboardBuffer, scancode: u8)
    requires
        old(ring).wf(),
    ensures
        final(ring).wf(),
        final(ring)@ == ring_push(old(ring)@, scancode),
{
    let head: usize = ring.head;
    let next_head: usize = (head + 1) % BUFFER_SIZE;
    if next_head != ring.tail {
        ring.buffer[head] = scancode;
        ring.head = next_head;
        assert(ring@ =~= old(ring)@.push(scancode));
    } else {
        assert(old(ring)@.len() == 63);
    }
}

/// Removes the oldest scancode from the ring, if there is one.
pub fn pop_scancode(ring: &mut KeyboardBuffer) -> (r: Option<u8>)
    requires
        old(ring).wf(),
    ensures
        final(ring).wf(),
        final(ring)@ == ring_pop(old(ring)@),
        r == if old(ring)@.len() > 0 {
            Some(old(ring)@[0])
        } else {
            None::<u8>
        },
{
    if ring.head == ring.tail {
        None
    } else {
        let scancode: u8 = ring.buffer[ring.tail];
        ring.tail = (ring.tail + 1) % BUFFER_SIZE;
        assert(ring@ =~= old(ring)@.drop_first());
        Some(scancode)
    }
}


/// One access to the scancode ring.
pub enum RingOp {
    /// The keyboard interrupt offers a scancode.
    Push(u8),
    /// The main loop asks for a scancode.
    Pop,
}

/// The queue after one access.
pub open spec fn ring_step(queue: Seq<u8>, op: RingOp) -> Seq<u8> {
    match op {
        RingOp::Push(scancode) => ring_push(queue, scancode),
        RingOp::Pop => ring_pop(queue),
    }
}

/// The queue after a sequence of accesses, first to last.
pub open spec fn ring_after(queue: Seq<u8>, ops: Seq<RingOp>) -> Seq<u8>
    decreases ops.len(),
{
    if ops.len() == 0 {
        queue
    } else {
        ring_step(ring_after(queue, ops.drop_last()), ops.last())
    }
}

/// Every scancode that `ops` offered, in order.
pub open spec fn ring_offered(ops: Seq<RingOp>) -> Seq<u8>
    decreases ops.len(),
{
    if ops.len() == 0 {
        Seq::empty()
    } else {
        match ops.last() {
            RingOp::Push(scancode) => ring_offered(ops.drop_last()).push(scancode),
            RingOp::Pop => ring_offered(ops.drop_last()),
        }
    }
}

/// The scancodes that `ops` offered and the ring took, in order.
pub open spec fn ring_accepted(queue: Seq<u8>, ops: Seq<RingOp>) -> Seq<u8>
    decreases ops.len(),
{
    if ops.len() == 0 {
        Seq::empty()
    } else {
        let before = ring_accepted(queue, ops.drop_last());
        match ops.last() {
            RingOp::Push(scancode) => if ring_after(queue, ops.drop_last()).len() < BUFFER_SIZE
                - 1 {
                before.push(scancode)
            } else {
                before
            },
            RingOp::Pop => before,
        }
    }
}

/// The scancodes that the pops in `ops` returned, in order.
pub open spec fn ring_popped(queue: Seq<u8>, ops: Seq<RingOp>) -> Seq<u8>
    decreases ops.len(),
{
    if ops.len() == 0 {
        Seq::empty()
    } else {
        let before = ring_popped(queue, ops.drop_last());
        match ops.last() {
            RingOp::Push(_) => before,
            RingOp::Pop => if ring_after(queue, ops.drop_last()).len() > 0 {
                before.push(ring_after(queue, ops.drop_last())[0])
            } else {
                before
            },
        }
    }
}

/// No push in `ops` met a full ring.
pub open spec fn ring_never_overflows(queue: Seq<u8>, ops: Seq<RingOp>) -> bool
    decreases ops.len(),
{
    ops.len() == 0 || (ring_never_overflows(queue, ops.drop_last()) && (ops.last() is Push
        ==> ring_after(queue, ops.drop_last()).len() < BUFFER_SIZE - 1))
}

/// Under any interleaving of pushes and pops, what was popped followed by what
/// is still queued is what was queued at the start followed by what the ring
/// accepted: nothing is reordered, duplicated or lost once accepted.
pub proof fn law_ring_is_fifo(queue: Seq<u8>, ops: Seq<RingOp>)
    ensures
        ring_popped(queue, ops) + ring_after(queue, ops) == queue + ring_accepted(queue, ops),
    decreases ops.len(),
{
    if ops.len() == 0 {
        assert(ring_popped(queue, ops) + ring_after(queue, ops) =~= queue + ring_accepted(
            queue,
            ops,
        ));
    } else {
        let rest = ops.drop_last();
        law_ring_is_fifo(queue, rest);
        let q = ring_after(queue, rest);
        let p = ring_popped(queue, rest);
        let a = ring_accepted(queue, rest);
        assert(p + q == queue + a);
        match ops.last() {
            RingOp::Push(scancode) => {
                if q.len() < BUFFER_SIZE - 1 {
                    assert(p + q.push(scancode) =~= (p + q).push(scancode));
                    assert(queue + a.push(scancode) =~= (queue + a).push(scancode));
                }
            },
            RingOp::Pop => {
                if q.len() > 0 {
                    assert(p.push(q[0]) + q.drop_first() =~= p + q);
                }
            },
        }
    }
}

/// Starting from an empty ring, the pops return a prefix of the accepted
/// pushes.
pub proof fn law_pops_return_prefix(ops: Seq<RingOp>)
    ensures
        ring_popped(Seq::empty(), ops).is_prefix_of(ring_accepted(Seq::empty(), ops)),
{
    let empty = Seq::<u8>::empty();
    law_ring_is_fifo(empty, ops);
    let p = ring_popped(empty, ops);
    let q = ring_after(empty, ops);
    let a = ring_accepted(empty, ops);
    assert(empty + a =~= a);
    assert(p + q == a);
    assert(p =~= a.subrange(0, p.len() as int)) by {
        assert forall|i: int| 0 <= i < p.len() implies p[i] == a[i] by {
            assert((p + q)[i] == p[i]);
        }
        assert((p + q).len() == p.len() + q.len());
    }
}

/// Without overflow the ring accepts every scancode that is offered.
pub proof fn law_no_loss_without_overflow(queue: Seq<u8>, ops: Seq<RingOp>)
    requires
        ring_never_overflows(queue, ops),
    ensures
        ring_accepted(queue, ops) == ring_offered(ops),
    decreases ops.len(),
{
    if ops.len() > 0 {
        law_no_loss_without_overflow(queue, ops.drop_last());
    }
}

/// One write to an I/O port.
#[derive(Debug, Clone, Copy, PartialEq, Eq)]
pub struct PortWrite {
    pub port: u16,
    pub value: u8,
}

/// Reload value that makes the interval timer fire `frequency_hz` times per
/// second.
pub open spec fn spec_pit_divisor(frequency_hz: u32) -> int {
    PIT_FREQUENCY as int / frequency_hz as int
}

/// Computes the timer's reload value for `frequency_hz`.
pub fn pit_divisor(frequency_hz: u32) -> (divisor: u32)
    requires
        frequency_hz > 0,
    ensures
        divisor == spec_pit_divisor(frequency_hz),
{
    PIT_FREQUENCY / frequency_hz
}

/// The port writes that start the interval timer at `TIMER_FREQUENCY_HZ`:
/// channel 0, low byte then high byte, square wave mode, followed by the two
/// bytes of the reload value.
pub fn init_timer() -> (writes: [PortWrite; 3])
    ensures
        writes@ == seq![
            (PortWrite { port: 0x43, value: 0x36 }),
            (PortWrite { port: 0x40, value: 0xA9 }),
            (PortWrite { port: 0x40, value: 0x04 }),
        ],
        writes@[1].value as int + 256 * writes@[2].value as int == spec_pit_divisor(
            TIMER_FREQUENCY_HZ,
        ),
{
    let divisor: u32 = pit_divisor(TIMER_FREQUENCY_HZ);
    assert(divisor == 1193);
    assert(1193u32 & 0xFF == 0xA9 && 1193u32 >> 8 == 0x04) by (bit_vector);
    let low: u8 = (divisor & 0xFF) as u8;
    let high: u8 = (divisor >> 8) as u8;
    let writes = [
        PortWrite { port: 0x43, value: 0x36 },
        PortWrite { port: 0x40, value: low },
        PortWrite { port: 0x40, value: high },
    ];
    assert(writes@ =~= seq![
        (PortWrite { port: 0x43, value: 0x36 }),
        (PortWrite { port: 0x40, value: 0xA9 }),
        (PortWrite { port: 0x40, value: 0x04 }),
    ]);
    writes
}

/// Line `line` (0 to 15) of the controller pair is masked by `masks`: the
/// master's mask covers lines 0 to 7, the slave's lines 8 to 15.
pub open spec fn irq_masked(masks: (u8, u8), line: int) -> bool {
    if line < 8 {
        (masks.0 >> (line as u8)) & 1 == 1
    } else {
        (masks.1 >> ((line - 8) as u8)) & 1 == 1
    }
}

/// The interrupt masks of the master and the slave controller: every line is
/// masked but the timer's and the keyboard's.
pub fn pic_masks() -> (masks: (u8, u8))
    ensures
        masks == (0xFCu8, 0xFFu8),
        forall|line: int|
            0 <= line < 16 ==> (#[trigger] irq_masked(masks, line) <==> line
                != InterruptIndex::Timer.irq_line() && line != InterruptIndex::Keyboard.irq_line()),
{
    let timer: u8 = InterruptIndex::Timer.as_u8() - PIC_1_OFFSET;
    let keyboard: u8 = InterruptIndex::Keyboard.as_u8() - PIC_1_OFFSET;
    let master: u8 = !((1u8 << timer) | (1u8 << keyboard));
    let slave: u8 = 0xFF;
    assert(!((1u8 << 0u8) | (1u8 << 1u8)) == 0xFCu8) by (bit_vector);
    assert forall|line: int| 0 <= line < 16 implies (#[trigger] irq_masked((master, slave), line)
        <==> line != 0 && line != 1) by {
        let l = (if line < 8 {
            line
        } else {
            line - 8
        }) as u8;
        assert(l < 8 ==> ((0xFCu8 >> l) & 1 == 1 <==> l != 0 && l != 1)) by (bit_vector);
        assert(l < 8 ==> (0xFFu8 >> l) & 1 == 1) by (bit_vector);
    }
    (master, slave)
}


/// The events that the kernel installs a handler for.
#[derive(Debug, Clone, Copy)]
pub enum Handler {
    Breakpoint,
    DoubleFault,
    StackSegmentFault,
    GeneralProtectionFault,
    PageFault,
    Timer,
    Keyboard,
}

/// What the kernel does once a handler has logged or served its event.
#[derive(Debug, Clone, Copy)]
pub enum AfterHandler {
    /// Go back to the interrupted code.
    Resume,
    /// Halt the processor for good.
    Halt,
    /// Tell the interrupt controller that the interrupt with this vector is
    /// served, then go back to the interrupted code.
    EndOfInterrupt { vector: u8 },
}

/// One gate of the interrupt descriptor table.
#[derive(Debug, Clone, Copy)]
pub struct IdtEntry {
    pub vector: u8,
    pub handler: Handler,
    /// Slot of the interrupt stack table that the handler runs on, if it does
    /// not run on the interrupted stack.
    pub stack_index: Option<u16>,
}

impl Handler {
    /// The vector that delivers the event.
    pub open spec fn vector(self) -> int {
        match self {
            Handler::Breakpoint => 3,
            Handler::DoubleFault => 8,
            Handler::StackSegmentFault => 12,
            Handler::GeneralProtectionFault => 13,
            Handler::PageFault => 14,
            Handler::Timer => InterruptIndex::Timer.vector(),
            Handler::Keyboard => InterruptIndex::Keyboard.vector(),
        }
    }

    /// What follows the handler: a breakpoint resumes, a hardware interrupt
    /// is acknowledged, every fault halts.
    pub open spec fn spec_after(self) -> AfterHandler {
        match self {
            Handler::Breakpoint => AfterHandler::Resume,
            Handler::Timer => AfterHandler::EndOfInterrupt { vector: 32 },
            Handler::Keyboard => AfterHandler::EndOfInterrupt { vector: 33 },
            _ => AfterHandler::Halt,
        }
    }

    /// Tells what follows the handler.
    pub fn after(self) -> (next: AfterHandler)
        ensures
            next == self.spec_after(),
    {
        match self {
            Handler::Breakpoint => AfterHandler::Resume,
            Handler::Timer => AfterHandler::EndOfInterrupt {
                vector: InterruptIndex::Timer.as_u8(),
            },
            Handler::Keyboard => AfterHandler::EndOfInterrupt {
                vector: InterruptIndex::Keyboard.as_u8(),
            },
            _ => AfterHandler::Halt,
        }
    }
}

/// The gates of the interrupt descriptor table. Only the double fault
/// handler runs on a stack of its own.
pub open spec fn idt_gates() -> Seq<IdtEntry> {
    seq![
        IdtEntry { vector: 3, handler: Handler::Breakpoint, stack_index: None },
        IdtEntry { vector: 8, handler: Handler::DoubleFault, stack_index: Some(0u16) },
        IdtEntry { vector: 12, handler: Handler::StackSegmentFault, stack_index: None },
        IdtEntry { vector: 13, handler: Handler::GeneralProtectionFault, stack_index: None },
        IdtEntry { vector: 14, handler: Handler::PageFault, stack_index: None },
        IdtEntry { vector: 32, handler: Handler::Timer, stack_index: None },
        IdtEntry { vector: 33, handler: Handler::Keyboard, stack_index: None },
    ]
}

/// Lists the gates to install in the interrupt descriptor table. Each gate
/// sits at the vector of its handler.
pub fn init_idt() -> (gates: [IdtEntry; 7])
    ensures
        gates@ == idt_gates(),
        forall|i: int| 0 <= i < 7 ==> (#[trigger] gates@[i]).vector == gates@[i].handler.vector(),
{
    let gates = [
        IdtEntry { vector: 3, handler: Handler::Breakpoint, stack_index: None },
        IdtEntry {
            vector: 8,
            handler: Handler::DoubleFault,
            stack_index: Some(crate::gdt::DOUBLE_FAULT_IST_INDEX),
        },
        IdtEntry { vector: 12, handler: Handler::StackSegmentFault, stack_index: None },
        IdtEntry { vector: 13, handler: Handler::GeneralProtectionFault, stack_index: None },
        IdtEntry { vector: 14, handler: Handler::PageFault, stack_index: None },
        IdtEntry {
            vector: InterruptIndex::Timer.as_u8(),
            handler: Handler::Timer,
            stack_index: None,
        },
        IdtEntry {
            vector: InterruptIndex::Keyboard.as_u8(),
            handler: Handler::Keyboard,
            stack_index: None,
        },
    ];
    assert(gates@ =~= idt_gates());
    gates
}

/// What the error code of a page fault says about its cause.
#[derive(Debug, Clone, Copy)]
pub struct PageFaultReport {
    /// The page was present and the access broke its protection; otherwise
    /// the page was not present.
    pub protection_violation: bool,
    pub caused_by_write: bool,
    /// The access came from ring 3.
    pub user_mode: bool,
    /// A reserved bit was set in a paging structure entry.
    pub malformed_table: bool,
    pub instruction_fetch: bool,
    pub protection_key: bool,
    pub shadow_stack: bool,
    pub hlat: bool,
    pub sgx: bool,
    pub rmp: bool,
}

/// Bit `bit` of the error code is set.
pub open spec fn error_bit(error_code: u64, bit: u64) -> bool {
    (error_code >> bit) & 1 == 1
}

/// Reads the cause of a page fault off its error code.
pub fn page_fault_report(error_code: u64) -> (report: PageFaultReport)
    ensures
        report.protection_violation == error_bit(error_code, 0),
        report.caused_by_write == error_bit(error_code, 1),
        report.user_mode == error_bit(error_code, 2),
        report.malformed_table == error_bit(error_code, 3),
        report.instruction_fetch == error_bit(error_code, 4),
        report.protection_key == error_bit(error_code, 5),
        report.shadow_stack == error_bit(error_code, 6),
        report.hlat == error_bit(error_code, 7),
        report.sgx == error_bit(error_code, 15),
        report.rmp == error_bit(error_code, 31),
{
    assert(forall|bit: u64| bit < 64 ==> ((error_code & (1u64 << bit) != 0) == #[trigger] error_bit(
        error_code,
        bit,
    ))) by {
        assert forall|bit: u64| bit < 64 implies ((error_code & (1u64 << bit) != 0)
            == #[trigger] error_bit(error_code, bit)) by {
            assert((error_code & (1u64 << bit) != 0) == ((error_code >> bit) & 1 == 1))
                by (bit_vector)
                requires
                    bit < 64,
            ;
        }
    }
    PageFaultReport {
        protection_violation: error_code & (1u64 << 0u64) != 0,
        caused_by_write: error_code & (1u64 << 1u64) != 0,
        user_mode: error_code & (1u64 << 2u64) != 0,
        malformed_table: error_code & (1u64 << 3u64) != 0,
        instruction_fetch: error_code & (1u64 << 4u64) != 0,
        protection_key: error_code & (1u64 << 5u64) != 0,
        shadow_stack: error_code & (1u64 << 6u64) != 0,
        hlat: error_code & (1u64 << 7u64) != 0,
        sgx: error_code & (1u64 << 15u64) != 0,
        rmp: error_code & (1u64 << 31u64) != 0,
    }
}

/// Number of timer ticks between two heartbeat dots on the console.
pub const HEARTBEAT_TICKS: u64 = 20;

/// Whether the main loop prints a heartbeat dot: the tick count has grown
/// since the last dot and is a multiple of `HEARTBEAT_TICKS`.
pub fn heartbeat_due(current_ticks: u64, last_tick: u64) -> (due: bool)
    ensures
        due == (current_ticks > last_tick && current_ticks % HEARTBEAT_TICKS == 0),
{
    current_ticks > last_tick && current_ticks % HEARTBEAT_TICKS == 0
}

} // verus!
