//! Interrupt vectors, and what the handlers of the timer, the keyboard and
//! the serial line decide.
//!
//! A handler here is the part of the real handler that decides. Reading the
//! device, acknowledging the interrupt controller and switching contexts are
//! the caller's part: it does them as the result of the handler says.

use vstd::prelude::*;
use crate::error::KernelError;
use crate::scheduler::{
    action_after_yield,
    scheduling_invariant,
    table_after_yield,
    yield_allowed,
    yield_from_context,
    Scheduler,
    SchedulingContext,
    YieldAction,
};
use crate::serial_input::{add_byte, SerialInputStream};
use crate::thread::{lifecycle_step, table_wf};

verus! {

/// The vector of the first line of the first interrupt controller.
pub const PIC_1_OFFSET: u8 = 32;

/// The vector of the first line of the second interrupt controller.
pub const PIC_2_OFFSET: u8 = PIC_1_OFFSET + 8;

/// The vector of the breakpoint exception.
pub const BREAKPOINT_VECTOR: u8 = 3;

/// The vector of the double fault exception.
pub const DOUBLE_FAULT_VECTOR: u8 = 8;

/// The vector of the page fault exception.
pub const PAGE_FAULT_VECTOR: u8 = 14;

/// The port from which the keyboard handler reads a scancode.
pub const KEYBOARD_DATA_PORT: u16 = 0x60;

/// The port from which the serial handler reads a byte.
pub const SERIAL_DATA_PORT: u16 = 0x3F8;

/// The hardware interrupts that the kernel handles.
#[derive(Debug, Clone, Copy, PartialEq, Eq, Structural)]
pub enum InterruptIndex {
    /// The timer, on line 0 of the first controller.
    Timer,
    /// The keyboard, on line 1.
    Keyboard,
    /// The first serial port, on line 4.
    Serial,
}

impl InterruptIndex {
    /// The vector on which the interrupt arrives.
    pub open spec fn vector(self) -> u8 {
        match self {
            InterruptIndex::Timer => PIC_1_OFFSET,
            InterruptIndex::Keyboard => (PIC_1_OFFSET + 1) as u8,
            InterruptIndex::Serial => (PIC_1_OFFSET + 4) as u8,
        }
    }

    /// The vector as a byte, which is what the interrupt controller takes.
    pub fn as_u8(self) -> (vector: u8)
        ensures
            vector == self.vector(),
            PIC_1_OFFSET <= vector < PIC_2_OFFSET,
    {
        match self {
            InterruptIndex::Timer => PIC_1_OFFSET,
            InterruptIndex::Keyboard => PIC_1_OFFSET + 1,
            InterruptIndex::Serial => PIC_1_OFFSET + 4,
        }
    }

    /// The vector as an index into the interrupt descriptor table.
    pub fn as_usize(self) -> (vector: usize)
        ensures
            vector == self.vector(),
    {
        self.as_u8() as usize
    }
}

/// The code that an entry of the interrupt descriptor table points to.
#[derive(Debug, Clone, Copy, PartialEq, Eq, Structural)]
pub enum Handler {
    /// Reports the breakpoint and goes on.
    Breakpoint,
    /// Reports the double fault and stops; it never returns.
    DoubleFault,
    /// Reports the page fault and halts.
    PageFault,
    /// The timer tick, which preempts.
    Timer,
    /// Reads a scancode and queues it.
    Keyboard,
    /// Reads a byte from the serial line and queues it.
    Serial,
}

/// One entry of the interrupt descriptor table.
#[derive(Debug, Clone, Copy, PartialEq, Eq, Structural)]
pub struct IdtEntry {
    /// The vector that the entry serves.
    pub vector: u8,
    /// The handler that it calls.
    pub handler: Handler,
    /// The interrupt stack on which the handler runs, if it has one of its
    /// own.
    pub stack_index: Option<u16>,
}

/// The entries of the interrupt descriptor table, in the order in which
/// they are set.
pub open spec fn idt_entries(double_fault_stack_index: u16) -> Seq<IdtEntry> {
    seq![
        IdtEntry { vector: BREAKPOINT_VECTOR, handler: Handler::Breakpoint, stack_index: None },
        IdtEntry {
            vector: DOUBLE_FAULT_VECTOR,
            handler: Handler::DoubleFault,
            stack_index: Some(double_fault_stack_index),
        },
        IdtEntry {
            vector: InterruptIndex::Timer.vector(),
            handler: Handler::Timer,
            stack_index: None,
        },
        IdtEntry {
            vector: InterruptIndex::Keyboard.vector(),
            handler: Handler::Keyboard,
            stack_index: None,
        },
        IdtEntry {
            vector: InterruptIndex::Serial.vector(),
            handler: Handler::Serial,
            stack_index: None,
        },
        IdtEntry { vector: PAGE_FAULT_VECTOR, handler: Handler::PageFault, stack_index: None },
    ]
}

/// Lays out the interrupt descriptor table: the breakpoint, double fault
/// and page fault exceptions and the three hardware interrupts, each with
/// its handler. The double fault handler runs on the interrupt stack
/// `double_fault_stack_index`, so that it works on a broken kernel stack
/// too. The caller builds the table from the entries and loads it.
pub fn init_idt(double_fault_stack_index: u16) -> (entries: Vec<IdtEntry>)
    ensures
        entries@ == idt_entries(double_fault_stack_index),
{
    let mut entries: Vec<IdtEntry> = Vec::new();
    entries.push(
        IdtEntry { vector: BREAKPOINT_VECTOR, handler: Handler::Breakpoint, stack_index: None },
    );
    entries.push(
        IdtEntry {
            vector: DOUBLE_FAULT_VECTOR,
            handler: Handler::DoubleFault,
            stack_index: Some(double_fault_stack_index),
        },
    );
    entries.push(
        IdtEntry {
            vector: InterruptIndex::Timer.as_u8(),
            handler: Handler::Timer,
            stack_index: None,
        },
    );
    entries.push(
        IdtEntry {
            vector: InterruptIndex::Keyboard.as_u8(),
            handler: Handler::Keyboard,
            stack_index: None,
        },
    );
    entries.push(
        IdtEntry {
            vector: InterruptIndex::Serial.as_u8(),
            handler: Handler::Serial,
            stack_index: None,
        },
    );
    entries.push(
        IdtEntry { vector: PAGE_FAULT_VECTOR, handler: Handler::PageFault, stack_index: None },
    );
    assert(entries@ =~= idt_entries(double_fault_stack_index));
    entries
}

/// What the caller of the timer handler has to do, in this order:
/// acknowledge `vector` to the interrupt controller, carry out `action`,
/// and, if `acknowledge_again` is set, acknowledge `vector` once more when
/// the handler resumes after `action`.
#[derive(Debug, Clone, Copy, PartialEq, Eq, Structural)]
pub struct TimerTick {
    /// The vector to acknowledge.
    pub vector: u8,
    /// What to do with the processor after the first acknowledgement.
    pub action: YieldAction,
    /// Whether to acknowledge a second time.
    pub acknowledge_again: bool,
}

/// The timer tick. Before the run loop has been entered the tick is only
/// acknowledged. From then on the tick preempts: the current thread yields,
/// and because the handler resumes only when that thread is scheduled
/// again, which may be long after, it acknowledges a second time then.
/// Fails with `StateCorruption`, changing nothing, exactly when scheduling
/// has started and the current thread is not running.
pub fn timer_interrupt_handler<P: Scheduler>(ctx: &mut SchedulingContext<P>) -> (r: Result<
    TimerTick,
    KernelError,
>)
    ensures
        final(ctx).started == old(ctx).started,
        final(ctx).policy == old(ctx).policy,
        final(ctx).cpu@ == old(ctx).cpu@,
        match r {
            Ok(tick) => {
                &&& tick.vector == InterruptIndex::Timer.vector()
                &&& tick.acknowledge_again == old(ctx).started
                &&& if old(ctx).started {
                    &&& yield_allowed(old(ctx).table@, old(ctx).cpu@.current_pid)
                    &&& tick.action == action_after_yield(old(ctx).cpu@.current_pid)
                    &&& final(ctx).table@ == table_after_yield(
                        old(ctx).table@,
                        old(ctx).cpu@.current_pid,
                    )
                } else {
                    &&& tick.action == YieldAction::Return
                    &&& final(ctx).table@ == old(ctx).table@
                }
            },
            Err(e) => {
                &&& e == KernelError::StateCorruption
                &&& old(ctx).started
                &&& !yield_allowed(old(ctx).table@, old(ctx).cpu@.current_pid)
                &&& final(ctx).table@ == old(ctx).table@
            },
        },
        table_wf(old(ctx).table@) ==> table_wf(final(ctx).table@),
        lifecycle_step(old(ctx).table@, final(ctx).table@),
        scheduling_invariant(old(ctx).table@, old(ctx).cpu@.current_pid) ==> scheduling_invariant(
            final(ctx).table@,
            final(ctx).cpu@.current_pid,
        ),
{
    let vector = InterruptIndex::Timer.as_u8();
    if !ctx.started {
        proof {
            use_type_invariant(&ctx.table);
        }
        return Ok(TimerTick { vector, action: YieldAction::Return, acknowledge_again: false });
    }
    match yield_from_context(ctx) {
        Ok(action) => Ok(TimerTick { vector, action, acknowledge_again: true }),
        Err(e) => Err(e),
    }
}

/// The keyboard interrupt, once the caller has read `scancode` from the
/// keyboard's data port: queues the scancode for the keyboard task and
/// wakes it. Returns the vector to acknowledge. Fails with
/// `InterruptQueueOverflow` exactly when the queue is full.
pub fn keyboard_interrupt_handler(stream: &mut SerialInputStream, scancode: u8) -> (r: Result<
    u8,
    KernelError,
>)
    ensures
        match r {
            Ok(vector) => {
                &&& vector == InterruptIndex::Keyboard.vector()
                &&& old(stream)@.pending.len() < old(stream)@.capacity
                &&& final(stream)@ == old(stream)@.pushed(scancode).cleared()
            },
            Err(e) => {
                &&& e == KernelError::InterruptQueueOverflow
                &&& old(stream)@.pending.len() >= old(stream)@.capacity
                &&& final(stream)@ == old(stream)@
            },
        },
{
    match add_byte(stream, scancode) {
        Ok(()) => Ok(InterruptIndex::Keyboard.as_u8()),
        Err(e) => Err(e),
    }
}

/// The serial interrupt, once the caller has read `byte` from the serial
/// port: queues the byte for the serial input task and wakes it. Returns the
/// vector to acknowledge. Fails with `InterruptQueueOverflow` exactly when
/// the queue is full.
pub fn serial_interrupt_handler(stream: &mut SerialInputStream, byte: u8) -> (r: Result<
    u8,
    KernelError,
>)
    ensures
        match r {
            Ok(vector) => {
                &&& vector == InterruptIndex::Serial.vector()
                &&& old(stream)@.pending.len() < old(stream)@.capacity
                &&& final(stream)@ == old(stream)@.pushed(byte).cleared()
            },
            Err(e) => {
                &&& e == KernelError::InterruptQueueOverflow
                &&& old(stream)@.pending.len() >= old(stream)@.capacity
                &&& final(stream)@ == old(stream)@
            },
        },
{
    match add_byte(stream, byte) {
        Ok(()) => Ok(InterruptIndex::Serial.as_u8()),
        Err(e) => Err(e),
    }
}

} // verus!
