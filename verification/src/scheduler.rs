//! Scheduling: the policy interface, the round-robin policy, and the
//! scheduling context that boot code, the run loop and the timer share.
//!
//! The run loop and the yield path are written as decisions. Each call
//! updates the thread table and the processor record and returns what the
//! caller has to do with the processor: halt until the next interrupt, or
//! switch between two contexts. The caller holds whatever locks guard the
//! table and the record while it calls, and releases them before it acts.

use vstd::prelude::*;
use crate::context::Context;
use crate::cpu::{Cpu, CpuView};
use crate::error::KernelError;
use crate::thread::{
    is_first_unused,
    lifecycle_step,
    table_wf,
    valid_transition,
    Thread,
    ThreadState,
    ThreadTable,
    NTHREAD,
};

verus! {

/// What the run loop has to do after one pass over the table.
#[derive(Debug, Clone, Copy, PartialEq, Eq, Structural)]
pub enum SchedulerAction {
    /// No thread is runnable: release the locks, enable interrupts and halt
    /// in one atomic step, so that no wakeup slips in between, then run the
    /// loop again.
    Idle,
    /// Thread `next` was selected: release the locks, let interrupts in
    /// again, and switch from the scheduler's context to the context of
    /// `next`.
    Switch { next: usize },
}

/// What the yield path has to do after it has looked at the current thread.
#[derive(Debug, Clone, Copy, PartialEq, Eq, Structural)]
pub enum YieldAction {
    /// No thread is current: let interrupts in again and return.
    Return,
    /// Thread `from` gave up the processor: release the locks, let
    /// interrupts in again, and switch from the context of `from` to the
    /// scheduler's context.
    Switch { from: usize },
}

/// The slot that lies `offset` steps after slot `origin`, going round the
/// table.
pub open spec fn slot_at(origin: int, offset: int) -> int {
    (origin + offset) % (NTHREAD as int)
}

/// The slot after which the round-robin scan starts: the current thread, or
/// slot 0 when there is none.
pub open spec fn scan_origin(current: Option<usize>) -> int {
    match current {
        Some(tid) => tid as int,
        None => 0,
    }
}

/// The number of steps from `origin` to the first runnable slot that lies
/// at least `offset` steps after it and at most once round the table;
/// `NTHREAD + 1` if there is none.
pub open spec fn scan_offset(slots: Seq<Thread>, origin: int, offset: int) -> int
    decreases NTHREAD + 1 - offset,
{
    if offset > NTHREAD {
        NTHREAD + 1
    } else if slots[slot_at(origin, offset)].state == ThreadState::Runnable {
        offset
    } else {
        scan_offset(slots, origin, offset + 1)
    }
}

/// The round-robin choice: the first runnable slot in strict ascending
/// order round the table, starting with the slot after the current thread
/// and ending with the current thread itself; `None` if no slot is runnable.
pub open spec fn round_robin_next(slots: Seq<Thread>, current: Option<usize>) -> Option<usize> {
    let origin = scan_origin(current);
    let offset = scan_offset(slots, origin, 1);
    if offset > NTHREAD {
        None
    } else {
        Some(slot_at(origin, offset) as usize)
    }
}

/// The table after thread `next` was put on the processor: the thread that
/// was current, if the scan found it still running, is runnable again, and
/// `next` is running. A current thread that had already made itself
/// runnable is left as it is, also where it is `next` itself.
pub open spec fn dispatched(slots: Seq<Thread>, current: Option<usize>, next: usize) -> Seq<
    Thread,
> {
    let demoted = match current {
        Some(tid) => if slots[tid as int].state == ThreadState::Running {
            slots.update(tid as int, slots[tid as int].with_state(ThreadState::Runnable))
        } else {
            slots
        },
        None => slots,
    };
    demoted.update(next as int, demoted[next as int].with_state(ThreadState::Running))
}

/// The table after the running thread `tid` gave up the processor.
pub open spec fn yielded(slots: Seq<Thread>, tid: usize) -> Seq<Thread> {
    slots.update(tid as int, slots[tid as int].with_state(ThreadState::Runnable))
}

/// The table after one pass of the run loop in which the policy chose
/// `choice`.
pub open spec fn table_after_pass(
    slots: Seq<Thread>,
    current: Option<usize>,
    choice: Option<usize>,
) -> Seq<Thread> {
    match choice {
        Some(next) => dispatched(slots, current, next),
        None => slots,
    }
}

/// The processor record after one pass of the run loop in which the policy
/// chose `choice`.
pub open spec fn cpu_after_pass(cpu: CpuView, choice: Option<usize>) -> CpuView {
    match choice {
        Some(next) => CpuView { current_pid: Some(next), ..cpu },
        None => cpu,
    }
}

/// What the run loop has to do when the policy chose `choice`.
pub open spec fn action_after_pass(choice: Option<usize>) -> SchedulerAction {
    match choice {
        Some(next) => SchedulerAction::Switch { next },
        None => SchedulerAction::Idle,
    }
}

/// Whether a yield finds the scheduling state intact: either no thread is
/// current, or the current thread is running.
pub open spec fn yield_allowed(slots: Seq<Thread>, current: Option<usize>) -> bool {
    current matches Some(tid) ==> slots[tid as int].state == ThreadState::Running
}

/// The table after a yield that found the state intact.
pub open spec fn table_after_yield(slots: Seq<Thread>, current: Option<usize>) -> Seq<Thread> {
    match current {
        Some(tid) => yielded(slots, tid),
        None => slots,
    }
}

/// What the yield path has to do when it found the state intact.
pub open spec fn action_after_yield(current: Option<usize>) -> YieldAction {
    match current {
        Some(from) => YieldAction::Switch { from },
        None => YieldAction::Return,
    }
}

/// The invariant of scheduling on one processor: at most one thread is
/// running, and a running thread is the processor's current thread.
pub open spec fn scheduling_invariant(slots: Seq<Thread>, current: Option<usize>) -> bool {
    forall|i: int|
        0 <= i < slots.len() && (#[trigger] slots[i]).state == ThreadState::Running ==> current
            == Some(i as usize)
}

/// Puts thread `next` on the processor: the thread that was current goes
/// back to runnable if it is still running, `next` becomes running and
/// current.
pub fn dispatch(table: &mut ThreadTable, cpu: &mut Cpu, next: usize)
    requires
        next < NTHREAD,
        old(table)@[next as int].state == ThreadState::Runnable,
    ensures
        final(table)@ == dispatched(old(table)@, old(cpu)@.current_pid, next),
        final(cpu)@ == (CpuView { current_pid: Some(next), ..old(cpu)@ }),
        table_wf(old(table)@) ==> table_wf(final(table)@),
        lifecycle_step(old(table)@, final(table)@),
        scheduling_invariant(old(table)@, old(cpu)@.current_pid) ==> scheduling_invariant(
            final(table)@,
            final(cpu)@.current_pid,
        ),
{
    proof {
        use_type_invariant(&*table);
    }
    let ghost before = table@;
    if let Some(current) = cpu.current_pid() {
        if table.state(current) == ThreadState::Running {
            table.set_state(current, ThreadState::Runnable);
        }
    }
    let ghost demoted = table@;
    table.set_state(next, ThreadState::Running);
    cpu.set_current(next);
    proof {
        assert forall|i: int| 0 <= i < before.len() implies #[trigger] table@[i].state
            == before[i].state || valid_transition(before[i].state, table@[i].state) by {
            assert(demoted[i].state == before[i].state || valid_transition(
                before[i].state,
                demoted[i].state,
            ));
        }
        if scheduling_invariant(before, old(cpu)@.current_pid) {
            assert forall|i: int|
                0 <= i < table@.len() && (#[trigger] table@[i]).state
                    == ThreadState::Running implies i == next by {
                if i != next {
                    assert(demoted[i].state == ThreadState::Running);
                    assert(before[i].state == ThreadState::Running);
                }
            }
        }
    }
}

/// The round-robin scan: the first runnable slot after the current one,
/// going round the table once; the current slot itself comes last. Without a
/// current thread the scan starts after slot 0.
pub fn find_next_runnable_process(table: &ThreadTable, current_pid: Option<usize>) -> (next: Option<
    usize,
>)
    requires
        current_pid matches Some(tid) ==> tid < NTHREAD,
    ensures
        next == round_robin_next(table@, current_pid),
        next matches Some(tid) ==> tid < NTHREAD && table@[tid as int].state
            == ThreadState::Runnable,
{
    let origin: usize = match current_pid {
        Some(tid) => tid,
        None => 0,
    };
    let mut i: usize = 1;
    while i <= NTHREAD
        invariant
            1 <= i <= NTHREAD + 1,
            origin < NTHREAD,
            origin == scan_origin(current_pid),
            scan_offset(table@, origin as int, 1) == scan_offset(table@, origin as int, i as int),
        decreases NTHREAD + 1 - i,
    {
        let pid = (origin + i) % NTHREAD;
        if table.state(pid) == ThreadState::Runnable {
            return Some(pid);
        }
        i = i + 1;
    }
    None
}

/// A scheduling policy. A policy is its choice of the thread to run next;
/// what a pass of the run loop and a yield do with that choice is the same
/// for every policy and is fixed here.
pub trait Scheduler {
    /// The thread that the policy runs next, given the table and the
    /// processor's current thread; `None` to let the processor idle.
    spec fn choice(&self, slots: Seq<Thread>, current: Option<usize>) -> Option<usize>;

    /// A policy chooses among the runnable threads only.
    proof fn lemma_choice_is_runnable(&self, slots: Seq<Thread>, current: Option<usize>)
        requires
            slots.len() == NTHREAD,
            current matches Some(tid) ==> tid < NTHREAD,
        ensures
            self.choice(slots, current) matches Some(next) ==> next < NTHREAD
                && slots[next as int].state == ThreadState::Runnable,
    ;

    /// One pass of the run loop. If the policy finds a thread to run, that
    /// thread becomes running and current, the thread that was current goes
    /// back to runnable if it was still running, and the caller is told to
    /// switch to the chosen thread. If it finds none, nothing changes and
    /// the caller is told to idle.
    fn scheduler(&self, table: &mut ThreadTable, cpu: &mut Cpu) -> (action: SchedulerAction)
        ensures
            action == action_after_pass(self.choice(old(table)@, old(cpu)@.current_pid)),
            final(table)@ == table_after_pass(
                old(table)@,
                old(cpu)@.current_pid,
                self.choice(old(table)@, old(cpu)@.current_pid),
            ),
            final(cpu)@ == cpu_after_pass(
                old(cpu)@,
                self.choice(old(table)@, old(cpu)@.current_pid),
            ),
            table_wf(old(table)@) ==> table_wf(final(table)@),
            lifecycle_step(old(table)@, final(table)@),
            scheduling_invariant(old(table)@, old(cpu)@.current_pid) ==> scheduling_invariant(
                final(table)@,
                final(cpu)@.current_pid,
            ),
    ;

    /// The current thread gives up the processor, of its own will or forced
    /// by the timer. Without a current thread nothing happens. A current
    /// thread that is running becomes runnable, stays current, and the caller
    /// is told to switch from it to the scheduler. A current thread in any
    /// other state means that the scheduling state is broken: the call fails
    /// with `StateCorruption` and changes nothing.
    fn on_yield(&self, table: &mut ThreadTable, cpu: &mut Cpu) -> (r: Result<
        YieldAction,
        KernelError,
    >)
        ensures
            final(cpu)@ == old(cpu)@,
            match r {
                Ok(action) => {
                    &&& yield_allowed(old(table)@, old(cpu)@.current_pid)
                    &&& action == action_after_yield(old(cpu)@.current_pid)
                    &&& final(table)@ == table_after_yield(old(table)@, old(cpu)@.current_pid)
                },
                Err(e) => {
                    &&& e == KernelError::StateCorruption
                    &&& !yield_allowed(old(table)@, old(cpu)@.current_pid)
                    &&& final(table)@ == old(table)@
                },
            },
            table_wf(old(table)@) ==> table_wf(final(table)@),
            lifecycle_step(old(table)@, final(table)@),
            scheduling_invariant(old(table)@, old(cpu)@.current_pid) ==> scheduling_invariant(
                final(table)@,
                final(cpu)@.current_pid,
            ),
    ;
}

/// The round-robin policy: every runnable thread gets its turn in ascending
/// order of its slot, round and round, without priorities.
#[derive(Debug, Clone, Copy)]
pub struct RoundRobin;

impl Scheduler for RoundRobin {
    open spec fn choice(&self, slots: Seq<Thread>, current: Option<usize>) -> Option<usize> {
        round_robin_next(slots, current)
    }

    proof fn lemma_choice_is_runnable(&self, slots: Seq<Thread>, current: Option<usize>) {
        lemma_scan_offset(slots, scan_origin(current), 1);
    }

    fn scheduler(&self, table: &mut ThreadTable, cpu: &mut Cpu) -> (action: SchedulerAction) {
        match find_next_runnable_process(table, cpu.current_pid()) {
            None => SchedulerAction::Idle,
            Some(next) => {
                dispatch(table, cpu, next);
                SchedulerAction::Switch { next }
            },
        }
    }

    fn on_yield(&self, table: &mut ThreadTable, cpu: &mut Cpu) -> (r: Result<
        YieldAction,
        KernelError,
    >) {
        let current = match cpu.current_pid() {
            None => {
                return Ok(YieldAction::Return);
            },
            Some(current) => current,
        };
        proof {
            use_type_invariant(&*table);
        }
        if table.state(current) != ThreadState::Running {
            return Err(KernelError::StateCorruption);
        }
        let ghost before = table@;
        table.set_state(current, ThreadState::Runnable);
        proof {
            if scheduling_invariant(before, cpu@.current_pid) {
                assert forall|i: int| 0 <= i < table@.len() implies (#[trigger] table@[i]).state
                    != ThreadState::Running by {
                    if i != current {
                        assert(table@[i].state == before[i].state);
                    }
                }
            }
        }
        Ok(YieldAction::Switch { from: current })
    }
}

/// Everything that scheduling on one processor shares: the thread table,
/// the processor record, the policy, and whether the run loop has been
/// entered. It is made once, by `init`, and lives as long as the system.
pub struct SchedulingContext<P: Scheduler> {
    /// The registry of all threads.
    pub table: ThreadTable,
    /// The record of the processor.
    pub cpu: Cpu,
    /// The policy that selects the thread to run.
    pub policy: P,
    /// Whether the run loop has been entered. The timer preempts only from
    /// then on.
    pub started: bool,
}

/// Sets up scheduling under the policy `scheduler`: every slot of the table
/// is unused, processor 0 has no current thread, and the run loop has not
/// been entered.
pub fn init<P: Scheduler>(scheduler: P) -> (ctx: SchedulingContext<P>)
    ensures
        ctx.policy == scheduler,
        !ctx.started,
        table_wf(ctx.table@),
        forall|i: int| 0 <= i < NTHREAD ==> ctx.table@[i] == Thread::unused(),
        is_first_unused(ctx.table@, 0),
        ctx.cpu@ == (CpuView { id: 0, scheduler: Context::zeroed(), current_pid: None }),
        scheduling_invariant(ctx.table@, ctx.cpu@.current_pid),
{
    SchedulingContext { table: ThreadTable::new(), cpu: Cpu::new(0), policy: scheduler, started: false }
}

/// The policy under which `ctx` schedules.
pub fn get_scheduler<P: Scheduler>(ctx: &SchedulingContext<P>) -> (policy: &P)
    ensures
        *policy == ctx.policy,
{
    &ctx.policy
}

/// One pass of the run loop under the policy of `ctx`; the caller acts on
/// the result and calls again, forever. The first pass marks scheduling as
/// started.
pub fn scheduler<P: Scheduler>(ctx: &mut SchedulingContext<P>) -> (action: SchedulerAction)
    ensures
        final(ctx).started,
        final(ctx).policy == old(ctx).policy,
        action == action_after_pass(
            old(ctx).policy.choice(old(ctx).table@, old(ctx).cpu@.current_pid),
        ),
        final(ctx).table@ == table_after_pass(
            old(ctx).table@,
            old(ctx).cpu@.current_pid,
            old(ctx).policy.choice(old(ctx).table@, old(ctx).cpu@.current_pid),
        ),
        final(ctx).cpu@ == cpu_after_pass(
            old(ctx).cpu@,
            old(ctx).policy.choice(old(ctx).table@, old(ctx).cpu@.current_pid),
        ),
        table_wf(old(ctx).table@) ==> table_wf(final(ctx).table@),
        lifecycle_step(old(ctx).table@, final(ctx).table@),
        scheduling_invariant(old(ctx).table@, old(ctx).cpu@.current_pid) ==> scheduling_invariant(
            final(ctx).table@,
            final(ctx).cpu@.current_pid,
        ),
{
    ctx.started = true;
    ctx.policy.scheduler(&mut ctx.table, &mut ctx.cpu)
}

/// The current thread of `ctx` gives up the processor, under the policy of
/// `ctx`.
pub fn yield_from_context<P: Scheduler>(ctx: &mut SchedulingContext<P>) -> (r: Result<
    YieldAction,
    KernelError,
>)
    ensures
        final(ctx).started == old(ctx).started,
        final(ctx).policy == old(ctx).policy,
        final(ctx).cpu@ == old(ctx).cpu@,
        match r {
            Ok(action) => {
                &&& yield_allowed(old(ctx).table@, old(ctx).cpu@.current_pid)
                &&& action == action_after_yield(old(ctx).cpu@.current_pid)
                &&& final(ctx).table@ == table_after_yield(
                    old(ctx).table@,
                    old(ctx).cpu@.current_pid,
                )
            },
            Err(e) => {
                &&& e == KernelError::StateCorruption
                &&& !yield_allowed(old(ctx).table@, old(ctx).cpu@.current_pid)
                &&& final(ctx).table@ == old(ctx).table@
            },
        },
        table_wf(old(ctx).table@) ==> table_wf(final(ctx).table@),
        lifecycle_step(old(ctx).table@, final(ctx).table@),
        scheduling_invariant(old(ctx).table@, old(ctx).cpu@.current_pid) ==> scheduling_invariant(
            final(ctx).table@,
            final(ctx).cpu@.current_pid,
        ),
{
    ctx.policy.on_yield(&mut ctx.table, &mut ctx.cpu)
}

/// A thread that a pass has put on the processor runs alone: if the
/// scheduling invariant held before the pass, then afterwards the selected
/// thread is running and no other thread is.
pub proof fn lemma_selected_thread_runs_alone(
    slots: Seq<Thread>,
    current: Option<usize>,
    next: usize,
)
    requires
        slots.len() == NTHREAD,
        current matches Some(tid) ==> tid < NTHREAD,
        next < NTHREAD,
        slots[next as int].state == ThreadState::Runnable,
        scheduling_invariant(slots, current),
    ensures
        forall|i: int|
            0 <= i < NTHREAD ==> ((#[trigger] dispatched(slots, current, next)[i]).state
                == ThreadState::Running <==> i == next),
        scheduling_invariant(dispatched(slots, current, next), Some(next)),
{
    let after = dispatched(slots, current, next);
    assert forall|i: int| 0 <= i < NTHREAD && i != next implies (#[trigger] after[i]).state
        != ThreadState::Running by {
        if slots[i].state == ThreadState::Running {
            assert(current == Some(i as usize));
        }
    }
}

/// After a yield no thread runs: if the scheduling invariant held before a
/// yield that found the state intact, no thread is running afterwards.
pub proof fn lemma_nothing_runs_after_yield(slots: Seq<Thread>, current: Option<usize>)
    requires
        slots.len() == NTHREAD,
        current matches Some(tid) ==> tid < NTHREAD,
        scheduling_invariant(slots, current),
        yield_allowed(slots, current),
    ensures
        forall|i: int|
            0 <= i < NTHREAD ==> (#[trigger] table_after_yield(slots, current)[i]).state
                != ThreadState::Running,
{
    let after = table_after_yield(slots, current);
    assert forall|i: int| 0 <= i < NTHREAD implies (#[trigger] after[i]).state
        != ThreadState::Running by {
        if slots[i].state == ThreadState::Running {
            assert(current == Some(i as usize));
        }
    }
}

/// Scheduling changes states and nothing else: a pass and a yield leave
/// the id, the saved registers and the stack of every thread as they were,
/// so a thread that was switched out resumes with the context that the
/// switch saved.
pub proof fn lemma_scheduling_keeps_contexts(
    slots: Seq<Thread>,
    current: Option<usize>,
    choice: Option<usize>,
    i: int,
)
    requires
        slots.len() == NTHREAD,
        current matches Some(tid) ==> tid < NTHREAD,
        choice matches Some(tid) ==> tid < NTHREAD,
        0 <= i < NTHREAD,
    ensures
        table_after_pass(slots, current, choice)[i] == slots[i].with_state(
            table_after_pass(slots, current, choice)[i].state,
        ),
        table_after_yield(slots, current)[i] == slots[i].with_state(
            table_after_yield(slots, current)[i].state,
        ),
{
}

/// What the scan finds: a runnable slot with no runnable slot before it, or
/// nothing because no slot it looked at is runnable.
pub proof fn lemma_scan_offset(slots: Seq<Thread>, origin: int, offset: int)
    requires
        slots.len() == NTHREAD,
        0 <= origin < NTHREAD,
        1 <= offset <= NTHREAD + 1,
    ensures
        offset <= scan_offset(slots, origin, offset) <= NTHREAD + 1,
        forall|k: int|
            offset <= k < scan_offset(slots, origin, offset) ==> slots[#[trigger] slot_at(
                origin,
                k,
            )].state != ThreadState::Runnable,
        scan_offset(slots, origin, offset) <= NTHREAD ==> slots[slot_at(
            origin,
            scan_offset(slots, origin, offset),
        )].state == ThreadState::Runnable,
    decreases NTHREAD + 1 - offset,
{
    if offset <= NTHREAD && slots[slot_at(origin, offset)].state != ThreadState::Runnable {
        lemma_scan_offset(slots, origin, offset + 1);
    }
}

} // verus!
