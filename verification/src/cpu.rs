//! The state of one logical processor.

use vstd::prelude::*;
use crate::context::Context;
use crate::thread::NTHREAD;

verus! {

/// What a processor record holds, as plain values.
pub struct CpuView {
    /// The processor's number.
    pub id: usize,
    /// The saved registers of the scheduler's own thread of control.
    pub scheduler: Context,
    /// The thread that the processor runs or ran last, if there was one.
    pub current_pid: Option<usize>,
}

/// The record of one logical processor: its number, the context of the
/// scheduler's own call stack, which is where a yielding thread switches to,
/// and the id of the thread it runs.
pub struct Cpu {
    id: usize,
    scheduler: Context,
    current_pid: Option<usize>,
}

impl Cpu {
    /// Holds of every processor record at all times: the current thread, if
    /// there is one, is a slot of the thread table.
    #[verifier::type_invariant]
    pub open spec fn inv(self) -> bool {
        self@.current_pid matches Some(tid) ==> tid < NTHREAD
    }

    /// The record as plain values.
    pub closed spec fn view(&self) -> CpuView {
        CpuView { id: self.id, scheduler: self.scheduler, current_pid: self.current_pid }
    }

    /// The record of processor `cpu_id`: no current thread, and a scheduler
    /// context that is all zero until the first switch saves into it.
    pub fn new(cpu_id: usize) -> (cpu: Self)
        ensures
            cpu@.id == cpu_id,
            cpu@.scheduler == Context::zeroed(),
            cpu@.current_pid is None,
    {
        Cpu { id: cpu_id, scheduler: Context::new(), current_pid: None }
    }

    /// The processor's number.
    pub fn id(&self) -> (id: usize)
        ensures
            id == self@.id,
    {
        self.id
    }

    /// The id of the thread that the processor runs or ran last. It is
    /// always a slot of the thread table.
    pub fn current_pid(&self) -> (current: Option<usize>)
        ensures
            current == self@.current_pid,
            current matches Some(tid) ==> tid < NTHREAD,
    {
        proof {
            use_type_invariant(self);
        }
        self.current_pid
    }

    /// The saved registers of the scheduler's own thread of control.
    pub fn scheduler(&self) -> (context: Context)
        ensures
            context == self@.scheduler,
    {
        self.scheduler
    }

    /// Replaces the saved registers of the scheduler's thread of control,
    /// as a switch away from the scheduler does. Nothing else changes.
    pub fn set_scheduler(&mut self, context: Context)
        ensures
            final(self)@ == (CpuView { scheduler: context, ..old(self)@ }),
    {
        proof {
            use_type_invariant(&*self);
        }
        self.scheduler = context;
    }

    /// Records `tid` as the thread that the processor runs.
    pub(crate) fn set_current(&mut self, tid: usize)
        requires
            tid < NTHREAD,
        ensures
            final(self)@ == (CpuView { current_pid: Some(tid), ..old(self)@ }),
    {
        self.current_pid = Some(tid);
    }
}

} // verus!
