//! Failures of the scheduling core.

use vstd::prelude::*;

verus! {

/// What can go wrong in the scheduling core. No failure is retried: the
/// caller either reports it or halts.
#[derive(Debug, Clone, Copy, PartialEq, Eq, Structural)]
pub enum KernelError {
    /// A fixed resource has run out: the thread table is full, or a frame or
    /// a mapping could not be had.
    ResourceExhaustion,
    /// A core invariant is broken, such as a processor whose current thread
    /// is not running, or a thread that is asked to take a step its life
    /// cycle does not have.
    StateCorruption,
    /// A byte arrived from an interrupt handler while its queue was full.
    InterruptQueueOverflow,
}

} // verus!
