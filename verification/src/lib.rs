//! The thread-execution core of a small x86-64 kernel.
//!
//! - `thread`: threads, their life cycle, and the fixed-capacity table that
//!   owns them.
//! - `context`: saved register state and the switch between two saved
//!   states, on a model of the processor.
//! - `cpu`: the record of the processor.
//! - `scheduler`: the policy interface, the round-robin policy, the run loop
//!   and the yield path; `fairness` proves that round robin is fair.
//! - `interrupts`: vectors, the descriptor table, and what the timer, the
//!   keyboard and the serial handler decide.
//! - `serial_input`: the bounded byte stream from an interrupt handler to a
//!   waiting task.
//! - `executor`: the cooperative executor that multiplexes such tasks.
//! - `process`: user processes.
//! - `console`: which outputs the kernel's text goes to.
//!
//! Nothing in this crate touches hardware. Each function decides what has to
//! happen next, records it in the state it is given, and returns what is
//! left to do; the caller, which holds the locks and owns the devices, does
//! it.

pub mod error;
pub mod context;
pub mod thread;
pub mod cpu;
pub mod scheduler;
pub mod fairness;
pub mod serial_input;
pub mod interrupts;
pub mod console;
pub mod process;
pub mod executor;
