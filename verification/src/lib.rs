//! Task-scheduling core of a single-core, batch-style kernel.
//!
//! The scheduler owns a fixed array of task control blocks and decides, by
//! stride scheduling, which task runs next.  Control transfer itself (the
//! context switch) is out of scope: every operation that would switch returns
//! a [`task::Dispatch`] decision that the embedding runtime carries out.

pub mod syscall;
pub mod task;
