//! Saved register state and the switch between two saved states.

use vstd::prelude::*;

verus! {

/// The flags value of a context that has never run: interrupts enabled,
/// everything else clear.
pub const INITIAL_RFLAGS: u64 = 0x200;

/// The registers that a running thread of control holds in the processor and
/// that a switch moves: the callee-preserved registers, the stack pointer,
/// the instruction pointer at which execution resumes, and the flags.
#[derive(Debug, Clone, Copy, PartialEq, Eq, Structural)]
pub struct Registers {
    pub r15: u64,
    pub r14: u64,
    pub r13: u64,
    pub r12: u64,
    pub rbx: u64,
    pub rbp: u64,
    pub rsp: u64,
    pub rip: u64,
    pub rflags: u64,
}

/// A saved register snapshot, enough to resume execution where it stopped,
/// together with what a thread needs to enter user mode: the code and stack
/// segment selectors of its target ring and its user-mode stack pointer.
#[derive(Debug, Clone, Copy, PartialEq, Eq, Structural)]
pub struct Context {
    pub r15: u64,
    pub r14: u64,
    pub r13: u64,
    pub r12: u64,
    pub rbx: u64,
    pub rbp: u64,
    pub rsp: u64,
    pub rip: u64,
    pub rflags: u64,
    pub cs: u64,
    pub ss: u64,
    pub rsp3: u64,
}

impl Context {
    /// The registers that a switch saves into and loads from this context.
    pub open spec fn registers(self) -> Registers {
        Registers {
            r15: self.r15,
            r14: self.r14,
            r13: self.r13,
            r12: self.r12,
            rbx: self.rbx,
            rbp: self.rbp,
            rsp: self.rsp,
            rip: self.rip,
            rflags: self.rflags,
        }
    }

    /// This context with its switched registers replaced by `regs`; the
    /// selectors and the user-mode stack pointer stay.
    pub open spec fn with_registers(self, regs: Registers) -> Context {
        Context {
            r15: regs.r15,
            r14: regs.r14,
            r13: regs.r13,
            r12: regs.r12,
            rbx: regs.rbx,
            rbp: regs.rbp,
            rsp: regs.rsp,
            rip: regs.rip,
            rflags: regs.rflags,
            cs: self.cs,
            ss: self.ss,
            rsp3: self.rsp3,
        }
    }

    /// The context in which every field is zero.
    pub open spec fn zeroed() -> Context {
        Context {
            r15: 0,
            r14: 0,
            r13: 0,
            r12: 0,
            rbx: 0,
            rbp: 0,
            rsp: 0,
            rip: 0,
            rflags: 0,
            cs: 0,
            ss: 0,
            rsp3: 0,
        }
    }

    /// This context made ready for a first run at `entry` on the stack that
    /// ends at `stack_top`, with interrupts enabled.
    pub open spec fn started_at(self, entry: u64, stack_top: u64) -> Context {
        Context { rsp: stack_top, rip: entry, rflags: INITIAL_RFLAGS, ..self }
    }

    /// A context with every field zero.
    pub fn new() -> (c: Self)
        ensures
            c == Context::zeroed(),
    {
        Context {
            r15: 0,
            r14: 0,
            r13: 0,
            r12: 0,
            rbx: 0,
            rbp: 0,
            rsp: 0,
            rip: 0,
            rflags: 0x0,
            cs: 0,
            ss: 0,
            rsp3: 0,
        }
    }

    /// Prepares this context for a thread that has not run yet: execution
    /// resumes at `entry`, on the stack whose top is `stack_top`, with
    /// interrupts enabled. The other fields stay as they are.
    pub fn start_at(&mut self, entry: u64, stack_top: u64)
        ensures
            *final(self) == old(self).started_at(entry, stack_top),
    {
        self.rsp = stack_top;
        self.rip = entry;
        self.rflags = INITIAL_RFLAGS;
    }

    /// The switched registers of this context.
    pub fn saved_registers(&self) -> (regs: Registers)
        ensures
            regs == self.registers(),
    {
        Registers {
            r15: self.r15,
            r14: self.r14,
            r13: self.r13,
            r12: self.r12,
            rbx: self.rbx,
            rbp: self.rbp,
            rsp: self.rsp,
            rip: self.rip,
            rflags: self.rflags,
        }
    }
}

/// The processor's registers and the context `from` after a switch from
/// `from` to `to`, when the processor held `cpu` before: `from` has taken
/// the processor's registers and kept its other fields, and the processor
/// holds the registers of `to`.
pub open spec fn after_switch(cpu: Registers, from: Context, to: Context) -> (Registers, Context) {
    (to.registers(), from.with_registers(cpu))
}

/// The switch primitive on a model of the processor: saves every switched
/// register of the running thread of control from `cpu` into `from`, then
/// loads the same registers from `to` into `cpu`, which is where execution
/// goes on. The selectors and the user-mode stack pointer of `from` are not
/// touched, and `to` is only read.
pub fn switch_context(cpu: &mut Registers, from: &mut Context, to: &Context)
    ensures
        (*final(cpu), *final(from)) == after_switch(*old(cpu), *old(from), *to),
{
    from.r15 = cpu.r15;
    from.r14 = cpu.r14;
    from.r13 = cpu.r13;
    from.r12 = cpu.r12;
    from.rbx = cpu.rbx;
    from.rbp = cpu.rbp;
    from.rsp = cpu.rsp;
    from.rip = cpu.rip;
    from.rflags = cpu.rflags;
    cpu.r15 = to.r15;
    cpu.r14 = to.r14;
    cpu.r13 = to.r13;
    cpu.r12 = to.r12;
    cpu.rbx = to.rbx;
    cpu.rbp = to.rbp;
    cpu.rsp = to.rsp;
    cpu.rflags = to.rflags;
    cpu.rip = to.rip;
}

/// Switching from A to B and later from B back to A resumes A with exactly
/// the registers it held when it was switched out. `running` is what the
/// processor held when A was switched out, `a` and `b` are the two contexts
/// at that moment; `b_later` is B's context and `left_by_b` what the
/// processor holds when B is switched out again, whatever they are.
pub proof fn lemma_switch_round_trip(
    running: Registers,
    a: Context,
    b: Context,
    b_later: Context,
    left_by_b: Registers,
)
    ensures
        ({
            let (in_b, a_saved) = after_switch(running, a, b);
            let (in_a, b_saved) = after_switch(left_by_b, b_later, a_saved);
            &&& in_b == b.registers()
            &&& in_a == running
            &&& a_saved.registers() == running
            &&& a_saved.cs == a.cs && a_saved.ss == a.ss && a_saved.rsp3 == a.rsp3
            &&& b_saved.registers() == left_by_b
        }),
{
}

} // verus!
