//! Threads, their life cycle, and the fixed-capacity table that owns them.

use vstd::prelude::*;
use crate::context::Context;
use crate::error::KernelError;

verus! {

/// Bytes of kernel stack that each thread gets.
pub const STACK_SIZE: usize = 4096 * 4;

/// Number of slots in the thread table.
pub const NTHREAD: usize = 64;

/// Where a thread stands in its life cycle.
#[derive(Debug, Clone, Copy, PartialEq, Eq, Structural)]
pub enum ThreadState {
    /// The slot holds no thread.
    Unused,
    /// Reserved: a thread under construction.
    Embryo,
    /// Reserved: a thread blocked until an event.
    Sleeping,
    /// Ready to run as soon as the policy selects it.
    Runnable,
    /// On the processor.
    Running,
    /// Finished; terminal.
    Zombie,
}

/// A thread control block.
#[derive(Debug, Clone, Copy, PartialEq, Eq, Structural)]
pub struct Thread {
    /// The thread's id: the index of its slot while the slot is in use.
    pub tid: usize,
    /// Where the thread stands in its life cycle.
    pub state: ThreadState,
    /// The registers with which the thread resumes.
    pub context: Context,
    /// Top of the thread's kernel stack.
    pub kstack: u64,
}

impl Thread {
    /// The content of a slot that holds no thread.
    pub open spec fn unused() -> Thread {
        Thread { tid: 0, state: ThreadState::Unused, context: Context::zeroed(), kstack: 0 }
    }

    /// This control block in state `state`, all else the same.
    pub open spec fn with_state(self, state: ThreadState) -> Thread {
        Thread { state, ..self }
    }

    /// An unused control block.
    pub fn new() -> (t: Self)
        ensures
            t == Thread::unused(),
    {
        Thread { tid: 0, state: ThreadState::Unused, context: Context::new(), kstack: 0 }
    }
}

/// Whether the life cycle lets a thread go from `from` to `to` in one
/// step: an unused slot becomes runnable when a thread is created in it, a
/// runnable thread is put on the processor, a running thread goes back to
/// runnable or ends as a zombie. There is no other step.
pub open spec fn valid_transition(from: ThreadState, to: ThreadState) -> bool {
    ||| from == ThreadState::Unused && to == ThreadState::Runnable
    ||| from == ThreadState::Runnable && to == ThreadState::Running
    ||| from == ThreadState::Running && to == ThreadState::Runnable
    ||| from == ThreadState::Running && to == ThreadState::Zombie
}

/// Whether `after` can follow `before`: every slot either kept its state or
/// took one step of the life cycle.
pub open spec fn lifecycle_step(before: Seq<Thread>, after: Seq<Thread>) -> bool {
    &&& before.len() == after.len()
    &&& forall|i: int|
        0 <= i < before.len() ==> #[trigger] after[i].state == before[i].state || valid_transition(
            before[i].state,
            after[i].state,
        )
}

/// What holds of a new table and is kept by every operation on it: it has
/// `NTHREAD` slots, and a slot in use holds the thread whose id is the
/// slot's index.
pub open spec fn table_wf(slots: Seq<Thread>) -> bool {
    &&& slots.len() == NTHREAD
    &&& forall|i: int|
        0 <= i < slots.len() && (#[trigger] slots[i]).state != ThreadState::Unused ==> slots[i].tid
            == i
}

/// Whether `tid` is the lowest unused slot of `slots`.
pub open spec fn is_first_unused(slots: Seq<Thread>, tid: int) -> bool {
    &&& 0 <= tid < slots.len()
    &&& slots[tid].state == ThreadState::Unused
    &&& forall|j: int| 0 <= j < tid ==> (#[trigger] slots[j]).state != ThreadState::Unused
}

/// Whether no slot of `slots` is unused.
pub open spec fn is_full(slots: Seq<Thread>) -> bool {
    forall|j: int| 0 <= j < slots.len() ==> (#[trigger] slots[j]).state != ThreadState::Unused
}

/// The control block of a thread just created in a slot that held `slot`:
/// runnable, resuming at `entry` on the stack that ends at `stack_top`.
pub open spec fn created_thread(slot: Thread, tid: usize, entry: u64, stack_top: u64) -> Thread {
    Thread {
        tid,
        state: ThreadState::Runnable,
        context: slot.context.started_at(entry, stack_top),
        kstack: stack_top,
    }
}

/// The top of the stack of `STACK_SIZE` bytes that begins at `stack_base`.
pub open spec fn stack_top_of(stack_base: u64) -> int {
    stack_base + STACK_SIZE
}

/// The registry of all threads: `NTHREAD` slots, each either unused or
/// holding the thread whose id is the slot's index.
pub struct ThreadTable {
    slots: Vec<Thread>,
}

impl ThreadTable {
    /// Holds of every table at all times.
    #[verifier::type_invariant]
    pub open spec fn inv(self) -> bool {
        self@.len() == NTHREAD
    }

    /// The slots of the table, in order.
    pub closed spec fn view(&self) -> Seq<Thread> {
        self.slots@
    }

    /// A table in which every slot is unused, so that the first thread
    /// gets slot 0.
    pub fn new() -> (table: Self)
        ensures
            table_wf(table@),
            forall|i: int| 0 <= i < NTHREAD ==> table@[i] == Thread::unused(),
            is_first_unused(table@, 0),
    {
        let mut slots: Vec<Thread> = Vec::new();
        let mut i: usize = 0;
        while i < NTHREAD
            invariant
                i <= NTHREAD,
                slots.len() == i,
                forall|j: int| 0 <= j < i ==> slots@[j] == Thread::unused(),
            decreases NTHREAD - i,
        {
            slots.push(Thread::new());
            i = i + 1;
        }
        ThreadTable { slots }
    }

    /// The number of slots, which is `NTHREAD` for every table.
    pub fn capacity(&self) -> (n: usize)
        ensures
            n == NTHREAD,
            self@.len() == NTHREAD,
    {
        proof {
            use_type_invariant(self);
        }
        self.slots.len()
    }

    /// The control block in slot `tid`.
    pub fn thread(&self, tid: usize) -> (t: Thread)
        requires
            tid < NTHREAD,
        ensures
            t == self@[tid as int],
    {
        proof {
            use_type_invariant(self);
        }
        self.slots[tid]
    }

    /// The state of slot `tid`.
    pub fn state(&self, tid: usize) -> (s: ThreadState)
        requires
            tid < NTHREAD,
        ensures
            s == self@[tid as int].state,
    {
        proof {
            use_type_invariant(self);
        }
        self.slots[tid].state
    }

    /// The saved registers of the thread in slot `tid`.
    pub fn context(&self, tid: usize) -> (c: Context)
        requires
            tid < NTHREAD,
        ensures
            c == self@[tid as int].context,
    {
        proof {
            use_type_invariant(self);
        }
        self.slots[tid].context
    }

    /// Replaces the saved registers of the thread in slot `tid`, as a switch
    /// away from that thread does. Nothing else changes.
    pub fn set_context(&mut self, tid: usize, context: Context)
        requires
            tid < NTHREAD,
        ensures
            final(self)@ == old(self)@.update(
                tid as int,
                Thread { context, ..old(self)@[tid as int] },
            ),
            table_wf(old(self)@) ==> table_wf(final(self)@),
            lifecycle_step(old(self)@, final(self)@),
    {
        proof {
            use_type_invariant(&*self);
        }
        self.slots[tid].context = context;
    }

    /// Puts the thread in slot `tid` into state `to`. Callers inside the
    /// crate prove that the thread exists and that its life cycle has this
    /// step; callers outside use `transition`, which tests it.
    pub(crate) fn set_state(&mut self, tid: usize, to: ThreadState)
        requires
            tid < NTHREAD,
            old(self)@[tid as int].state != ThreadState::Unused,
            valid_transition(old(self)@[tid as int].state, to),
        ensures
            final(self)@ == old(self)@.update(tid as int, old(self)@[tid as int].with_state(to)),
            table_wf(old(self)@) ==> table_wf(final(self)@),
            lifecycle_step(old(self)@, final(self)@),
    {
        proof {
            use_type_invariant(&*self);
        }
        self.slots[tid].state = to;
    }

    /// Finds a free slot: the lowest unused one. Fails with
    /// `ResourceExhaustion` exactly when every slot is in use. The table is
    /// only read; the slot stays unused until `initialize` fills it.
    pub fn allocate(&self) -> (r: Result<usize, KernelError>)
        ensures
            self@.len() == NTHREAD,
            match r {
                Ok(tid) => is_first_unused(self@, tid as int),
                Err(e) => e == KernelError::ResourceExhaustion && is_full(self@),
            },
    {
        proof {
            use_type_invariant(self);
        }
        let mut i: usize = 0;
        while i < NTHREAD
            invariant
                i <= NTHREAD,
                self.slots.len() == NTHREAD,
                forall|j: int| 0 <= j < i ==> (#[trigger] self.slots@[j]).state != ThreadState::Unused,
            decreases NTHREAD - i,
        {
            if self.slots[i].state == ThreadState::Unused {
                return Ok(i);
            }
            i = i + 1;
        }
        Err(KernelError::ResourceExhaustion)
    }

    /// Creates a thread in slot `tid`: the slot becomes runnable, records its
    /// id and the top of its kernel stack, and its context is set to start
    /// at `entry` on that stack with interrupts enabled. Only an unused slot
    /// can take a new thread: for any other slot, and for a `tid` beyond the
    /// table, the call fails with `StateCorruption` and changes nothing.
    pub fn initialize(&mut self, tid: usize, entry: u64, stack_top: u64) -> (r: Result<
        (),
        KernelError,
    >)
        ensures
            table_wf(old(self)@) ==> table_wf(final(self)@),
            lifecycle_step(old(self)@, final(self)@),
            match r {
                Ok(_) => {
                    &&& tid < NTHREAD
                    &&& old(self)@[tid as int].state == ThreadState::Unused
                    &&& final(self)@ == old(self)@.update(
                        tid as int,
                        created_thread(old(self)@[tid as int], tid, entry, stack_top),
                    )
                },
                Err(e) => {
                    &&& e == KernelError::StateCorruption
                    &&& !(tid < NTHREAD && old(self)@[tid as int].state == ThreadState::Unused)
                    &&& final(self)@ == old(self)@
                },
            },
    {
        proof {
            use_type_invariant(&*self);
        }
        if tid >= NTHREAD {
            return Err(KernelError::StateCorruption);
        }
        if self.slots[tid].state != ThreadState::Unused {
            return Err(KernelError::StateCorruption);
        }
        let mut thread = self.slots[tid];
        thread.tid = tid;
        thread.state = ThreadState::Runnable;
        thread.kstack = stack_top;
        thread.context.start_at(entry, stack_top);
        self.slots[tid] = thread;
        Ok(())
    }

    /// Moves the thread in slot `tid` to state `to`, if the life cycle has
    /// that step from the slot's present state; the slot then also records
    /// `tid` as its id. Any other request, and any `tid` beyond the table,
    /// fails with `StateCorruption` and changes nothing.
    pub fn transition(&mut self, tid: usize, to: ThreadState) -> (r: Result<(), KernelError>)
        ensures
            table_wf(old(self)@) ==> table_wf(final(self)@),
            lifecycle_step(old(self)@, final(self)@),
            match r {
                Ok(_) => {
                    &&& tid < NTHREAD
                    &&& valid_transition(old(self)@[tid as int].state, to)
                    &&& final(self)@ == old(self)@.update(
                        tid as int,
                        Thread { tid, state: to, ..old(self)@[tid as int] },
                    )
                },
                Err(e) => {
                    &&& e == KernelError::StateCorruption
                    &&& !(tid < NTHREAD && valid_transition(old(self)@[tid as int].state, to))
                    &&& final(self)@ == old(self)@
                },
            },
    {
        proof {
            use_type_invariant(&*self);
        }
        if tid >= NTHREAD {
            return Err(KernelError::StateCorruption);
        }
        let from = self.slots[tid].state;
        let allowed = match (from, to) {
            (ThreadState::Unused, ThreadState::Runnable) => true,
            (ThreadState::Runnable, ThreadState::Running) => true,
            (ThreadState::Running, ThreadState::Runnable) => true,
            (ThreadState::Running, ThreadState::Zombie) => true,
            _ => false,
        };
        if !allowed {
            return Err(KernelError::StateCorruption);
        }
        let mut thread = self.slots[tid];
        thread.tid = tid;
        thread.state = to;
        self.slots[tid] = thread;
        Ok(())
    }
}

/// The id that the next thread will get: the lowest unused slot of `table`,
/// or `None` when every slot is in use.
pub fn next_tid(table: &ThreadTable) -> (r: Option<usize>)
    ensures
        table@.len() == NTHREAD,
        match r {
            Some(tid) => is_first_unused(table@, tid as int),
            None => is_full(table@),
        },
{
    match table.allocate() {
        Ok(tid) => Some(tid),
        Err(_) => None,
    }
}

/// Creates a kernel thread that starts at `entry` on the stack of
/// `STACK_SIZE` bytes that begins at `stack_base`. The thread takes the
/// lowest unused slot, whose index is returned, and is runnable at once.
/// Fails with `ResourceExhaustion`, changing nothing, exactly when the table
/// is full.
pub fn create_kernel_thread(table: &mut ThreadTable, entry: u64, stack_base: u64) -> (r: Result<
    usize,
    KernelError,
>)
    requires
        stack_top_of(stack_base) <= u64::MAX,
    ensures
        table_wf(old(table)@) ==> table_wf(final(table)@),
        lifecycle_step(old(table)@, final(table)@),
        match r {
            Ok(tid) => {
                &&& is_first_unused(old(table)@, tid as int)
                &&& final(table)@ == old(table)@.update(
                    tid as int,
                    created_thread(
                        old(table)@[tid as int],
                        tid,
                        entry,
                        stack_top_of(stack_base) as u64,
                    ),
                )
            },
            Err(e) => {
                &&& e == KernelError::ResourceExhaustion
                &&& is_full(old(table)@)
                &&& final(table)@ == old(table)@
            },
        },
{
    let tid = match table.allocate() {
        Ok(tid) => tid,
        Err(e) => {
            return Err(e);
        },
    };
    let stack_top: u64 = stack_base + STACK_SIZE as u64;
    match table.initialize(tid, entry, stack_top) {
        Ok(()) => Ok(tid),
        Err(e) => Err(e),
    }
}

/// Whether exactly the first `count` slots of `slots` are in use: the shape
/// of a table in which `count` threads were created and nothing else was
/// done.
pub open spec fn filled_to(slots: Seq<Thread>, count: int) -> bool {
    &&& slots.len() == NTHREAD
    &&& 0 <= count <= NTHREAD
    &&& forall|i: int| 0 <= i < count ==> (#[trigger] slots[i]).state != ThreadState::Unused
    &&& forall|i: int| count <= i < NTHREAD ==> (#[trigger] slots[i]).state == ThreadState::Unused
}

/// A table has at most one lowest unused slot, so an allocation has one
/// possible result.
pub proof fn lemma_first_unused_is_unique(slots: Seq<Thread>, a: int, b: int)
    requires
        is_first_unused(slots, a),
        is_first_unused(slots, b),
    ensures
        a == b,
{
    if a < b {
        assert(slots[a].state != ThreadState::Unused);
    }
    if b < a {
        assert(slots[b].state != ThreadState::Unused);
    }
}

/// Allocation succeeds exactly on the tables that are not full.
pub proof fn lemma_full_or_first_unused(slots: Seq<Thread>)
    ensures
        is_full(slots) <==> !exists|tid: int| is_first_unused(slots, tid),
{
    if !is_full(slots) {
        let some = choose|j: int| 0 <= j < slots.len() && (#[trigger] slots[j]).state == ThreadState::Unused;
        lemma_lowest_unused(slots, some);
    }
    if is_full(slots) {
        assert forall|tid: int| !is_first_unused(slots, tid) by {
            if 0 <= tid < slots.len() {
                assert(slots[tid].state != ThreadState::Unused);
            }
        }
    }
}

proof fn lemma_lowest_unused(slots: Seq<Thread>, upper: int)
    requires
        0 <= upper < slots.len(),
        slots[upper].state == ThreadState::Unused,
    ensures
        exists|tid: int| is_first_unused(slots, tid),
    decreases upper,
{
    if exists|j: int| 0 <= j < upper && (#[trigger] slots[j]).state == ThreadState::Unused {
        let lower = choose|j: int| 0 <= j < upper && (#[trigger] slots[j]).state == ThreadState::Unused;
        lemma_lowest_unused(slots, lower);
    } else {
        assert(is_first_unused(slots, upper));
    }
}

/// Creating threads one after the other in a new table hands out the ids
/// 0, 1, 2 and so on, each once, until all `NTHREAD` slots are in use; then
/// the table is full and the next allocation fails. In steps: a new table
/// is filled to 0; on a table filled to `count < NTHREAD` the allocation
/// yields `count`, and the creation leaves the table filled to `count + 1`;
/// a table filled to `NTHREAD` is full.
pub proof fn lemma_allocation_in_order(slots: Seq<Thread>, count: int, entry: u64, stack_top: u64)
    requires
        filled_to(slots, count),
    ensures
        count < NTHREAD ==> is_first_unused(slots, count),
        count < NTHREAD ==> filled_to(
            slots.update(count, created_thread(slots[count], count as usize, entry, stack_top)),
            count + 1,
        ),
        count == NTHREAD ==> is_full(slots),
{
}

/// An id that was handed out is not handed out again: once a thread was
/// created in a slot, no later allocation yields that slot, whatever steps
/// of their life cycles the threads have taken in between. `history` is the
/// table at successive moments.
pub proof fn lemma_ids_are_distinct(history: Seq<Seq<Thread>>, i: int, j: int, a: int, b: int)
    requires
        forall|k: int|
            0 <= k < history.len() - 1 ==> lifecycle_step(#[trigger] history[k], history[k + 1]),
        0 <= i < j < history.len(),
        is_first_unused(history[i], a),
        history[i + 1][a].state != ThreadState::Unused,
        is_first_unused(history[j], b),
    ensures
        a != b,
{
    lemma_stays_in_use(history, i + 1, j, a);
}

proof fn lemma_stays_in_use(history: Seq<Seq<Thread>>, from: int, to: int, tid: int)
    requires
        forall|k: int|
            0 <= k < history.len() - 1 ==> lifecycle_step(#[trigger] history[k], history[k + 1]),
        0 <= from <= to < history.len(),
        0 <= tid < history[from].len(),
        history[from][tid].state != ThreadState::Unused,
    ensures
        history[to].len() == history[from].len(),
        history[to][tid].state != ThreadState::Unused,
    decreases to - from,
{
    if from < to {
        lemma_stays_in_use(history, from, to - 1, tid);
        assert(lifecycle_step(history[to - 1], history[to]));
        assert(history[to][tid].state == history[to - 1][tid].state || valid_transition(
            history[to - 1][tid].state,
            history[to][tid].state,
        ));
    }
}

} // verus!
