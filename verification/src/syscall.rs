//! Syscall-level decision functions.
//!
//! Each function validates its inputs (bounds-checking any user pointer
//! through the task manager) and carries out the corresponding task-manager
//! operation.  What cannot be done here is handed back to the embedding
//! runtime as a value: a [`Dispatch`] decision names the context switch to
//! perform, a returned [`TimeVal`] is the pair to store at the destination,
//! and a non-negative [`sys_write`] result tells the runtime to forward the
//! buffer to the console.

use vstd::prelude::*;

use crate::task::Dispatch;
use crate::task::TaskManager;
use crate::task::BIG_STRIDE;

verus! {

/// The only file descriptor `sys_write` supports: standard output.
pub const FD_STDOUT: usize = 1;

/// Size in bytes of the `{seconds, microseconds}` pair `sys_get_time`
/// stores.
pub const TIME_VAL_BYTES: usize = 16;

/// A clock reading split into whole seconds and the microseconds left over.
#[derive(Clone, Copy, Debug, PartialEq, Eq, Structural)]
pub struct TimeVal {
    pub sec: usize,
    pub usec: usize,
}

/// Relies on core::str::from_utf8: it accepts exactly the byte sequences
/// that are valid UTF-8, the encoding vstd::utf8::valid_utf8 states.
#[verifier::external_body]
fn utf8_ok(buf: &[u8]) -> (r: bool)
    ensures
        r == vstd::utf8::valid_utf8(buf@),
{
    match core::str::from_utf8(buf) {
        Ok(_) => true,
        Err(_) => false,
    }
}

/// The current task exits with the given code (the embedding runtime logs
/// it) and the next ready task is dispatched; the decision handed back never
/// resumes the exited task.
pub fn sys_exit(tm: &mut TaskManager, exit_code: i32) -> (d: Dispatch)
    requires
        old(tm).wf(),
        old(tm).running_only_current(),
        old(tm).stride_headroom(),
    ensures
        final(tm).wf(),
        final(tm).running_only_current(),
        crate::task::dispatch_from(*old(tm), old(tm).tasks_after_exit(), *final(tm), d),
{
    let _ = exit_code;
    crate::task::exit_current_and_run_next(tm)
}

/// The current task yields: it is suspended (or exited by the runaway
/// safeguard), the next ready task is dispatched, and the syscall returns 0.
pub fn sys_yield(tm: &mut TaskManager) -> (r: (isize, Dispatch))
    requires
        old(tm).wf(),
        old(tm).running_only_current(),
        old(tm).stride_headroom(),
        old(tm).tasks@[old(tm).current_task as int].stride + BIG_STRIDE <= isize::MAX,
    ensures
        r.0 == 0,
        final(tm).wf(),
        final(tm).running_only_current(),
        crate::task::dispatch_from(*old(tm), old(tm).tasks_after_suspend(), *final(tm), r.1),
{
    let d = crate::task::suspend_current_and_run_next(tm);
    (0isize, d)
}

/// Splits the clock reading `now_us` (microseconds) into the pair to store
/// at `dest`, after bounds-checking the destination like any other
/// user-supplied pointer: on success the syscall returns 0 and the runtime
/// stores the pair, on a bad destination it returns the failure sentinel and
/// stores nothing.
pub fn sys_get_time(tm: &TaskManager, dest: usize, now_us: usize) -> (r: (isize, Option<TimeVal>))
    requires
        tm.wf(),
    ensures
        tm.bounds_ok(dest as int, TIME_VAL_BYTES as int) ==> r.0 == 0 && r.1 == Some(
            TimeVal { sec: now_us / 1000000, usec: now_us % 1000000 },
        ),
        !tm.bounds_ok(dest as int, TIME_VAL_BYTES as int) ==> r.0 == -1 && r.1 is None,
{
    if tm.check_read_slice(dest, TIME_VAL_BYTES) {
        (0isize, Some(TimeVal { sec: now_us / 1000000, usec: now_us % 1000000 }))
    } else {
        (-1isize, None)
    }
}

/// Decides a write of the current task's buffer `buf`, read from user range
/// `[addr, addr + len)`: the length is returned — and the runtime forwards
/// the bytes to the console — exactly when the range passes the bounds
/// check, the descriptor is standard output, and the bytes are valid UTF-8;
/// any other input fails with the sentinel and nothing is forwarded.
pub fn sys_write(tm: &TaskManager, fd: usize, addr: usize, buf: &[u8], len: usize) -> (r: isize)
    requires
        tm.wf(),
        buf@.len() == len,
        len <= isize::MAX,
    ensures
        r == if tm.bounds_ok(addr as int, len as int) && fd == FD_STDOUT && vstd::utf8::valid_utf8(
            buf@,
        ) {
            len as isize
        } else {
            -1isize
        },
{
    if !tm.check_read_slice(addr, len) {
        return -1;
    }
    if fd != FD_STDOUT {
        return -1;
    }
    if !utf8_ok(buf) {
        return -1;
    }
    len as isize
}

} // verus!
