//! Task control blocks and the stride-scheduling task manager.

use vstd::prelude::*;

verus! {

/// Capacity of the task slot array: the maximum supported application count.
pub const MAX_APP_NUM: usize = 16;

/// Scaling constant for stride accounting: a task entering its turn pays
/// `BIG_STRIDE / priority`, so higher priority means a smaller increment and
/// more frequent selection.
pub const BIG_STRIDE: isize = 151200;

/// Ceiling on consecutive voluntary suspensions; one more suspension beyond
/// it administratively terminates the task.
pub const SUSPEND_LIMIT: usize = 1000;

/// Size in bytes of each task's private user stack region.
pub const USER_STACK_SIZE: usize = 4096;

/// Lifecycle state of a task slot.
#[derive(Clone, Copy, Debug, PartialEq, Eq, Structural)]
pub enum TaskStatus {
    UnInit,
    Ready,
    Running,
    Exited,
}

/// Per-task scheduling and execution metadata.
///
/// `task_cx_ptr` is the location of the task's saved execution context; it is
/// opaque to the scheduler beyond being a switch target.  The memory extent
/// fields hold the task's code and data bounds and the top of its private
/// stack, as the loader handed them over.
#[derive(Clone, Copy, Debug, PartialEq, Eq, Structural)]
pub struct TaskControlBlock {
    pub task_cx_ptr: usize,
    pub task_status: TaskStatus,
    pub stride: isize,
    pub priority: isize,
    pub start_num: usize,
    pub app_start: usize,
    pub app_end: usize,
    pub user_stack_top: usize,
}

/// What the loader gives for one application slot.
#[derive(Clone, Copy, Debug, PartialEq, Eq, Structural)]
pub struct TaskInit {
    pub task_cx_ptr: usize,
    pub app_start: usize,
    pub app_end: usize,
    pub user_stack_top: usize,
}

/// The scheduling decision a dispatch operation hands back to the embedding
/// runtime: either switch from the context saved in slot `prev` to the one
/// saved in slot `next`, or halt because no task is ready.
#[derive(Clone, Copy, Debug, PartialEq, Eq, Structural)]
pub enum Dispatch {
    Switch { prev: usize, next: usize },
    Halt,
}

/// Owns the fixed array of task control blocks and the current-task cursor.
pub struct TaskManager {
    pub num_app: usize,
    pub tasks: Vec<TaskControlBlock>,
    pub current_task: usize,
}

/// The stride paid by a task of the given priority when it enters a turn.
pub open spec fn stride_increment(priority: isize) -> int {
    (BIG_STRIDE as int) / (priority as int)
}

/// Rotation distance of slot `i` from the slot just after `current`: the
/// position of `i` in the round-robin scan order `current+1, ..., current`.
pub open spec fn rot_dist(current: int, num_app: int, i: int) -> int {
    if i > current {
        i - current - 1
    } else {
        i + num_app - current - 1
    }
}

/// The slot index scanned at position `k` of the round-robin order.
pub open spec fn scan_slot(current: int, num_app: int, k: int) -> int {
    if current + 1 + k < num_app {
        current + 1 + k
    } else {
        current + 1 + k - num_app
    }
}

/// Some slot among the first `num_app` is ready to run.
pub open spec fn has_ready(tasks: Seq<TaskControlBlock>, num_app: int) -> bool {
    exists|i: int| 0 <= i < num_app && (#[trigger] tasks[i]).task_status is Ready
}

/// Slot `j` is the task stride scheduling selects: it is ready, its stride is
/// minimal among ready slots, and among equal strides it is the one closest
/// after `current` in scan order.
pub open spec fn is_selected(
    tasks: Seq<TaskControlBlock>,
    num_app: int,
    current: int,
    j: int,
) -> bool {
    &&& 0 <= j < num_app
    &&& tasks[j].task_status is Ready
    &&& forall|i: int|
        0 <= i < num_app && (#[trigger] tasks[i]).task_status is Ready ==> {
            ||| tasks[j].stride < tasks[i].stride
            ||| (tasks[j].stride == tasks[i].stride && rot_dist(current, num_app, j)
                <= rot_dist(current, num_app, i))
        }
}

/// A freshly loaded task: ready to run, with no stride accumulated yet and
/// the default priority.
pub open spec fn initial_tcb(init: TaskInit) -> TaskControlBlock {
    TaskControlBlock {
        task_cx_ptr: init.task_cx_ptr,
        task_status: TaskStatus::Ready,
        stride: 0,
        priority: 16,
        start_num: 0,
        app_start: init.app_start,
        app_end: init.app_end,
        user_stack_top: init.user_stack_top,
    }
}

/// An unused task slot.
pub open spec fn uninit_tcb() -> TaskControlBlock {
    TaskControlBlock {
        task_cx_ptr: 0,
        task_status: TaskStatus::UnInit,
        stride: 0,
        priority: 16,
        start_num: 0,
        app_start: 0,
        app_end: 0,
        user_stack_top: 0,
    }
}

/// A task control block after one voluntary suspension: the suspension count
/// grows (it is capped just past the limit so that it cannot grow without
/// bound), and the task stays ready unless the count has passed the limit,
/// in which case it is administratively exited.
pub open spec fn suspended_tcb(t: TaskControlBlock) -> TaskControlBlock {
    let count = if t.start_num <= SUSPEND_LIMIT {
        (t.start_num + 1) as usize
    } else {
        t.start_num
    };
    TaskControlBlock {
        task_status: if count > SUSPEND_LIMIT {
            TaskStatus::Exited
        } else {
            TaskStatus::Ready
        },
        start_num: count,
        ..t
    }
}

/// A task control block after the task exits.
pub open spec fn exited_tcb(t: TaskControlBlock) -> TaskControlBlock {
    TaskControlBlock { task_status: TaskStatus::Exited, ..t }
}

/// A task control block as it enters a turn: running, with its stride grown
/// by this turn's cost.
pub open spec fn dispatched_tcb(t: TaskControlBlock) -> TaskControlBlock {
    TaskControlBlock {
        task_status: TaskStatus::Running,
        stride: (t.stride + stride_increment(t.priority)) as isize,
        ..t
    }
}

/// How one dispatch step relates the manager before it (`pre`), the task
/// array it selects from (`mid`: `pre`'s array, possibly with the current
/// slot already suspended or exited), the manager after it (`post`), and the
/// decision `d` handed back.
pub open spec fn dispatch_from(
    pre: TaskManager,
    mid: Seq<TaskControlBlock>,
    post: TaskManager,
    d: Dispatch,
) -> bool {
    &&& post.num_app == pre.num_app
    &&& match d {
        Dispatch::Switch { prev, next } => {
            &&& prev == pre.current_task
            &&& is_selected(mid, pre.num_app as int, pre.current_task as int, next as int)
            &&& post.current_task == next
            &&& post.tasks@ == mid.update(next as int, dispatched_tcb(mid[next as int]))
        },
        Dispatch::Halt => {
            &&& !has_ready(mid, pre.num_app as int)
            &&& post.current_task == pre.current_task
            &&& post.tasks@ == mid
        },
    }
}

impl TaskManager {
    /// Well-formedness: the slot array is at full capacity, the cursor is in
    /// range, loaded slots carry sane priorities, strides, suspension counts
    /// and memory extents, and slots past the application count are unused.
    pub open spec fn wf(self) -> bool {
        &&& self.tasks@.len() == MAX_APP_NUM
        &&& 0 < self.num_app <= MAX_APP_NUM
        &&& self.current_task < self.num_app
        &&& forall|i: int|
            0 <= i < self.num_app as int ==> {
                &&& (#[trigger] self.tasks@[i]).priority >= 2
                &&& self.tasks@[i].stride >= 0
                &&& self.tasks@[i].start_num <= SUSPEND_LIMIT + 1
                &&& self.tasks@[i].app_start <= self.tasks@[i].app_end
                &&& self.tasks@[i].user_stack_top >= USER_STACK_SIZE
            }
        &&& forall|i: int|
            self.num_app as int <= i < MAX_APP_NUM as int ==> (#[trigger] self.tasks@[i]).task_status
                is UnInit
    }

    /// Single-core discipline: no slot other than the current one is running.
    pub open spec fn running_only_current(self) -> bool {
        forall|i: int|
            0 <= i < self.num_app as int && (#[trigger] self.tasks@[i]).task_status is Running
                ==> i == self.current_task as int
    }

    /// Every ready slot has room to pay one more stride increment without
    /// overflowing.
    pub open spec fn stride_headroom(self) -> bool {
        forall|i: int|
            0 <= i < self.num_app as int && (#[trigger] self.tasks@[i]).task_status is Ready
                ==> self.tasks@[i].stride + BIG_STRIDE <= isize::MAX
    }

    /// The current task's slot array after it voluntarily suspends.
    pub open spec fn tasks_after_suspend(self) -> Seq<TaskControlBlock> {
        self.tasks@.update(
            self.current_task as int,
            suspended_tcb(self.tasks@[self.current_task as int]),
        )
    }

    /// The current task's slot array after it exits.
    pub open spec fn tasks_after_exit(self) -> Seq<TaskControlBlock> {
        self.tasks@.update(
            self.current_task as int,
            exited_tcb(self.tasks@[self.current_task as int]),
        )
    }

    /// The whole range `[addr, addr + len)` lies inside the current task's
    /// static image or inside its private stack region.
    pub open spec fn bounds_ok(self, addr: int, len: int) -> bool {
        let t = self.tasks@[self.current_task as int];
        ||| (t.app_start <= addr && addr + len <= t.app_end)
        ||| (t.user_stack_top - USER_STACK_SIZE <= addr && addr + len <= t.user_stack_top)
    }

    /// Builds the manager from the loader's data: one ready slot per
    /// application, default priority, no stride accumulated, cursor on slot 0,
    /// and the remaining capacity unused.
    pub fn new(inits: &Vec<TaskInit>) -> (tm: TaskManager)
        requires
            0 < inits@.len() <= MAX_APP_NUM,
            forall|i: int|
                0 <= i < inits@.len() ==> (#[trigger] inits@[i]).app_start <= inits@[i].app_end,
            forall|i: int|
                0 <= i < inits@.len() ==> (#[trigger] inits@[i]).user_stack_top >= USER_STACK_SIZE,
        ensures
            tm.wf(),
            tm.num_app == inits@.len(),
            tm.current_task == 0,
            forall|i: int|
                0 <= i < inits@.len() ==> (#[trigger] tm.tasks@[i]) == initial_tcb(inits@[i]),
            forall|i: int|
                inits@.len() <= i < MAX_APP_NUM as int ==> (#[trigger] tm.tasks@[i]) == uninit_tcb(),
            tm.running_only_current(),
    {
        let num_app = inits.len();
        let mut tasks: Vec<TaskControlBlock> = Vec::new();
        let mut i: usize = 0;
        while i < num_app
            invariant
                i <= num_app,
                num_app == inits@.len() <= MAX_APP_NUM,
                tasks@.len() == i as int,
                forall|k: int| 0 <= k < i as int ==> (#[trigger] tasks@[k]) == initial_tcb(inits@[k]),
            decreases num_app - i,
        {
            let init = inits[i];
            tasks.push(TaskControlBlock {
                task_cx_ptr: init.task_cx_ptr,
                task_status: TaskStatus::Ready,
                stride: 0,
                priority: 16,
                start_num: 0,
                app_start: init.app_start,
                app_end: init.app_end,
                user_stack_top: init.user_stack_top,
            });
            i = i + 1;
        }
        while i < MAX_APP_NUM
            invariant
                num_app <= i <= MAX_APP_NUM,
                num_app == inits@.len(),
                tasks@.len() == i as int,
                forall|k: int|
                    0 <= k < num_app as int ==> (#[trigger] tasks@[k]) == initial_tcb(inits@[k]),
                forall|k: int| num_app as int <= k < i as int ==> (#[trigger] tasks@[k]) == uninit_tcb(),
            decreases MAX_APP_NUM - i,
        {
            tasks.push(TaskControlBlock {
                task_cx_ptr: 0,
                task_status: TaskStatus::UnInit,
                stride: 0,
                priority: 16,
                start_num: 0,
                app_start: 0,
                app_end: 0,
                user_stack_top: 0,
            });
            i = i + 1;
        }
        TaskManager { num_app, tasks, current_task: 0 }
    }

    /// Decides whether the current task may touch `[addr, addr + len)`: true
    /// exactly when the range lies wholly within the task's static image or
    /// wholly within its private stack.
    pub fn check_read_slice(&self, addr: usize, len: usize) -> (r: bool)
        requires
            self.wf(),
        ensures
            r == self.bounds_ok(addr as int, len as int),
    {
        let t = &self.tasks[self.current_task];
        let in_app = t.app_start <= addr && addr <= t.app_end && len <= t.app_end - addr;
        let stack_bottom = t.user_stack_top - USER_STACK_SIZE;
        let in_stack = stack_bottom <= addr && addr <= t.user_stack_top && len <= t.user_stack_top
            - addr;
        in_app || in_stack
    }

    /// Scans one full round-robin cycle starting just after the current slot
    /// and returns the ready slot with the strictly smallest stride, ties
    /// going to the slot encountered first; none when no slot is ready.
    pub fn find_next_task(&self) -> (r: Option<usize>)
        requires
            self.wf(),
        ensures
            match r {
                Some(j) => is_selected(
                    self.tasks@,
                    self.num_app as int,
                    self.current_task as int,
                    j as int,
                ),
                None => !has_ready(self.tasks@, self.num_app as int),
            },
    {
        let n = self.num_app;
        let c = self.current_task;
        let mut next: usize = n;
        let mut min_stride: isize = 0;
        let mut k: usize = 0;
        proof {
            lemma_scan_covers(c as int, n as int);
        }
        while k < n
            invariant
                self.wf(),
                n == self.num_app,
                c == self.current_task,
                k <= n,
                next <= n,
                next == n ==> forall|k2: int|
                    0 <= k2 < k as int ==> !((#[trigger] self.tasks@[scan_slot(
                        c as int,
                        n as int,
                        k2,
                    )]).task_status is Ready),
                next < n ==> {
                    &&& self.tasks@[next as int].task_status is Ready
                    &&& min_stride == self.tasks@[next as int].stride
                    &&& rot_dist(c as int, n as int, next as int) < k as int
                    &&& forall|k2: int|
                        0 <= k2 < k as int && (#[trigger] self.tasks@[scan_slot(
                            c as int,
                            n as int,
                            k2,
                        )]).task_status is Ready ==> {
                            ||| min_stride < self.tasks@[scan_slot(c as int, n as int, k2)].stride
                            ||| (min_stride == self.tasks@[scan_slot(c as int, n as int, k2)].stride
                                && rot_dist(c as int, n as int, next as int) <= k2)
                        }
                },
            decreases n - k,
        {
            let id = if c + 1 + k < n {
                c + 1 + k
            } else {
                c + 1 + k - n
            };
            assert(id as int == scan_slot(c as int, n as int, k as int));
            assert(rot_dist(c as int, n as int, id as int) == k as int);
            if self.tasks[id].task_status == TaskStatus::Ready {
                if next == n || self.tasks[id].stride < min_stride {
                    next = id;
                    min_stride = self.tasks[id].stride;
                }
            }
            k = k + 1;
        }
        if next == n {
            proof {
                assert forall|i: int|
                    0 <= i < n as int implies !((#[trigger] self.tasks@[i]).task_status
                    is Ready) by {
                    let k2 = rot_dist(c as int, n as int, i);
                    assert(scan_slot(c as int, n as int, k2) == i);
                }
            }
            None
        } else {
            proof {
                assert forall|i: int|
                    0 <= i < n as int && (#[trigger] self.tasks@[i]).task_status
                    is Ready implies {
                    ||| self.tasks@[next as int].stride < self.tasks@[i].stride
                    ||| (self.tasks@[next as int].stride == self.tasks@[i].stride && rot_dist(
                        c as int,
                        n as int,
                        next as int,
                    ) <= rot_dist(c as int, n as int, i))
                } by {
                    let k2 = rot_dist(c as int, n as int, i);
                    assert(scan_slot(c as int, n as int, k2) == i);
                }
            }
            Some(next)
        }
    }

    /// Dispatches to the next ready task if there is one: marks it running,
    /// charges it this turn's stride increment, moves the cursor to it, and
    /// hands back the pair of slots to switch between.  With no ready task
    /// left the kernel has nothing to run: the decision is to halt.
    pub fn run_next_task(&mut self) -> (d: Dispatch)
        requires
            old(self).wf(),
            forall|i: int|
                0 <= i < old(self).num_app as int ==> !((#[trigger] old(self).tasks@[i]).task_status
                    is Running),
            old(self).stride_headroom(),
        ensures
            final(self).wf(),
            final(self).running_only_current(),
            dispatch_from(*old(self), old(self).tasks@, *final(self), d),
            d is Halt <==> !has_ready(old(self).tasks@, old(self).num_app as int),
    {
        let next_opt = self.find_next_task();
        match next_opt {
            Some(next) => {
                let prev = self.current_task;
                let mut t = self.tasks[next];
                let prio = t.priority;
                let inc = BIG_STRIDE / prio;
                proof {
                    assert(0 <= (BIG_STRIDE as int) / (prio as int) <= BIG_STRIDE as int)
                        by (nonlinear_arith)
                        requires
                            prio >= 2,
                    ;
                }
                t.task_status = TaskStatus::Running;
                t.stride = t.stride + inc;
                self.tasks[next] = t;
                self.current_task = next;
                proof {
                    assert(self.tasks@ =~= old(self).tasks@.update(
                        next as int,
                        dispatched_tcb(old(self).tasks@[next as int]),
                    ));
                }
                Dispatch::Switch { prev, next }
            },
            None => Dispatch::Halt,
        }
    }

    /// Marks the current task as voluntarily suspended: it goes back to ready
    /// with its suspension count grown, unless the count passes the limit, in
    /// which case the runaway-task safeguard exits it instead.
    pub fn mark_current_suspended(&mut self)
        requires
            old(self).wf(),
        ensures
            final(self).wf(),
            final(self).num_app == old(self).num_app,
            final(self).current_task == old(self).current_task,
            final(self).tasks@ == old(self).tasks_after_suspend(),
    {
        let c = self.current_task;
        let mut t = self.tasks[c];
        if t.start_num <= SUSPEND_LIMIT {
            t.start_num = t.start_num + 1;
        }
        t.task_status = if t.start_num > SUSPEND_LIMIT {
            TaskStatus::Exited
        } else {
            TaskStatus::Ready
        };
        self.tasks[c] = t;
        proof {
            assert(self.tasks@ =~= old(self).tasks_after_suspend());
        }
    }

    /// Marks the current task as exited.  Irreversible.
    pub fn mark_current_exited(&mut self)
        requires
            old(self).wf(),
        ensures
            final(self).wf(),
            final(self).num_app == old(self).num_app,
            final(self).current_task == old(self).current_task,
            final(self).tasks@ == old(self).tasks_after_exit(),
    {
        let c = self.current_task;
        let mut t = self.tasks[c];
        t.task_status = TaskStatus::Exited;
        self.tasks[c] = t;
        proof {
            assert(self.tasks@ =~= old(self).tasks_after_exit());
        }
    }

    /// Sets the current task's priority and returns it, or returns the
    /// failure sentinel and changes nothing when the requested value is below
    /// the floor of 2.
    pub fn set_current_priority(&mut self, prio: isize) -> (r: isize)
        requires
            old(self).wf(),
        ensures
            final(self).wf(),
            prio < 2 ==> r == -1 && *final(self) == *old(self),
            prio >= 2 ==> {
                &&& r == prio
                &&& final(self).num_app == old(self).num_app
                &&& final(self).current_task == old(self).current_task
                &&& final(self).tasks@ == old(self).tasks@.update(
                    old(self).current_task as int,
                    TaskControlBlock {
                        priority: prio,
                        ..old(self).tasks@[old(self).current_task as int]
                    },
                )
            },
    {
        if prio < 2 {
            -1
        } else {
            let c = self.current_task;
            let mut t = self.tasks[c];
            t.priority = prio;
            self.tasks[c] = t;
            proof {
                assert(self.tasks@ =~= old(self).tasks@.update(
                    c as int,
                    TaskControlBlock { priority: prio, ..old(self).tasks@[c as int] },
                ));
            }
            prio
        }
    }

    /// Starts scheduling: marks slot 0 running and returns the location of
    /// its saved context, the target of the initial one-way switch.
    pub fn run_first_task(&mut self) -> (cx: usize)
        requires
            old(self).wf(),
        ensures
            final(self).wf(),
            final(self).num_app == old(self).num_app,
            final(self).current_task == old(self).current_task,
            final(self).tasks@ == old(self).tasks@.update(
                0,
                TaskControlBlock { task_status: TaskStatus::Running, ..old(self).tasks@[0] },
            ),
            cx == old(self).tasks@[0].task_cx_ptr,
            ({
                &&& old(self).current_task == 0
                &&& forall|i: int|
                    0 <= i < old(self).num_app as int ==> !((#[trigger] old(
                        self,
                    ).tasks@[i]).task_status is Running)
            }) ==> final(self).running_only_current(),
    {
        let mut t = self.tasks[0];
        t.task_status = TaskStatus::Running;
        self.tasks[0] = t;
        proof {
            assert(self.tasks@ =~= old(self).tasks@.update(
                0,
                TaskControlBlock { task_status: TaskStatus::Running, ..old(self).tasks@[0] },
            ));
        }
        self.tasks[0].task_cx_ptr
    }
}

/// Starts scheduling on a freshly built manager; see
/// [`TaskManager::run_first_task`].
pub fn run_first_task(tm: &mut TaskManager) -> (cx: usize)
    requires
        old(tm).wf(),
    ensures
        final(tm).wf(),
        final(tm).num_app == old(tm).num_app,
        final(tm).current_task == old(tm).current_task,
        final(tm).tasks@ == old(tm).tasks@.update(
            0,
            TaskControlBlock { task_status: TaskStatus::Running, ..old(tm).tasks@[0] },
        ),
        cx == old(tm).tasks@[0].task_cx_ptr,
        ({
            &&& old(tm).current_task == 0
            &&& forall|i: int|
                0 <= i < old(tm).num_app as int ==> !((#[trigger] old(tm).tasks@[i]).task_status
                    is Running)
        }) ==> final(tm).running_only_current(),
{
    tm.run_first_task()
}

/// The current task yields: it is suspended (or administratively exited by
/// the runaway safeguard) and the next ready task is dispatched.
pub fn suspend_current_and_run_next(tm: &mut TaskManager) -> (d: Dispatch)
    requires
        old(tm).wf(),
        old(tm).running_only_current(),
        old(tm).stride_headroom(),
        old(tm).tasks@[old(tm).current_task as int].stride + BIG_STRIDE <= isize::MAX,
    ensures
        final(tm).wf(),
        final(tm).running_only_current(),
        dispatch_from(*old(tm), old(tm).tasks_after_suspend(), *final(tm), d),
        d is Halt <==> !has_ready(old(tm).tasks_after_suspend(), old(tm).num_app as int),
{
    tm.mark_current_suspended();
    tm.run_next_task()
}

/// The current task exits for good and the next ready task is dispatched.
pub fn exit_current_and_run_next(tm: &mut TaskManager) -> (d: Dispatch)
    requires
        old(tm).wf(),
        old(tm).running_only_current(),
        old(tm).stride_headroom(),
    ensures
        final(tm).wf(),
        final(tm).running_only_current(),
        dispatch_from(*old(tm), old(tm).tasks_after_exit(), *final(tm), d),
        d is Halt <==> !has_ready(old(tm).tasks_after_exit(), old(tm).num_app as int),
{
    tm.mark_current_exited();
    tm.run_next_task()
}

/// Sets the current task's priority; see
/// [`TaskManager::set_current_priority`].
pub fn set_current_priority(tm: &mut TaskManager, prio: isize) -> (r: isize)
    requires
        old(tm).wf(),
    ensures
        final(tm).wf(),
        prio < 2 ==> r == -1 && *final(tm) == *old(tm),
        prio >= 2 ==> {
            &&& r == prio
            &&& final(tm).num_app == old(tm).num_app
            &&& final(tm).current_task == old(tm).current_task
            &&& final(tm).tasks@ == old(tm).tasks@.update(
                old(tm).current_task as int,
                TaskControlBlock { priority: prio, ..old(tm).tasks@[old(tm).current_task as int] },
            )
        },
{
    tm.set_current_priority(prio)
}

/// Bounds check for a user-supplied buffer of the current task; see
/// [`TaskManager::check_read_slice`].
pub fn check_read_slice(tm: &TaskManager, addr: usize, len: usize) -> (r: bool)
    requires
        tm.wf(),
    ensures
        r == tm.bounds_ok(addr as int, len as int),
{
    tm.check_read_slice(addr, len)
}

/// The selected task never loses to another ready task: whatever slot is
/// selected has a stride no larger than any ready slot's, and on equal
/// strides it is at no greater rotation distance from the cursor — in
/// particular, a different ready task with a strictly smaller stride is
/// never passed over, and ties always go to the candidate scanned first.
pub proof fn lemma_selected_minimal(
    tasks: Seq<TaskControlBlock>,
    num_app: int,
    current: int,
    j: int,
    i: int,
)
    requires
        is_selected(tasks, num_app, current, j),
        0 <= i < num_app,
        tasks[i].task_status is Ready,
    ensures
        tasks[j].stride <= tasks[i].stride,
        tasks[j].stride == tasks[i].stride ==> rot_dist(current, num_app, j) <= rot_dist(
            current,
            num_app,
            i,
        ),
{
}

/// Stride scheduling selects exactly one task: any two slots that both
/// satisfy the selection predicate are the same slot.
pub proof fn lemma_selected_unique(
    tasks: Seq<TaskControlBlock>,
    num_app: int,
    current: int,
    j1: int,
    j2: int,
)
    requires
        0 <= current < num_app,
        is_selected(tasks, num_app, current, j1),
        is_selected(tasks, num_app, current, j2),
    ensures
        j1 == j2,
{
    lemma_selected_minimal(tasks, num_app, current, j1, j2);
    lemma_selected_minimal(tasks, num_app, current, j2, j1);
    lemma_scan_covers(current, num_app);
    assert(scan_slot(current, num_app, rot_dist(current, num_app, j1)) == j1);
    assert(scan_slot(current, num_app, rot_dist(current, num_app, j2)) == j2);
}

/// A task's stride accumulates monotonically: being dispatched never
/// decreases it, because the increment is non-negative for any legal
/// priority.
pub proof fn lemma_stride_never_decreases(t: TaskControlBlock)
    requires
        t.priority >= 2,
        t.stride >= 0,
        t.stride + BIG_STRIDE <= isize::MAX,
    ensures
        dispatched_tcb(t).stride >= t.stride,
{
    assert(0 <= (BIG_STRIDE as int) / (t.priority as int) <= BIG_STRIDE as int)
        by (nonlinear_arith)
        requires
            t.priority >= 2,
    ;
}

/// The bound that stride-scheduling fairness rests on: the gap between two
/// strides stays within the larger of the two increments.
pub open spec fn stride_gap_ok(sa: int, sb: int, inc_a: int, inc_b: int) -> bool {
    let m = if inc_a >= inc_b {
        inc_a
    } else {
        inc_b
    };
    -m <= sa - sb <= m
}

/// Stride-scheduling fairness, one step at a time: when exactly two tasks
/// are ready and their stride gap is within the larger increment, the gap is
/// still within it after the selected task is charged for its turn.  Since a
/// task selected `n` times has accumulated `n * (BIG_STRIDE / priority)`,
/// a gap that never grows forces the long-run selection counts of the two
/// tasks toward the inverse ratio of their increments, that is, the ratio of
/// their priorities.
pub proof fn lemma_two_task_stride_gap(
    tasks: Seq<TaskControlBlock>,
    num_app: int,
    current: int,
    a: int,
    b: int,
    j: int,
)
    requires
        0 <= a < num_app,
        0 <= b < num_app,
        a != b,
        tasks[a].task_status is Ready,
        tasks[b].task_status is Ready,
        forall|i: int|
            0 <= i < num_app && (#[trigger] tasks[i]).task_status is Ready ==> i == a || i == b,
        tasks[a].priority >= 2,
        tasks[b].priority >= 2,
        is_selected(tasks, num_app, current, j),
        stride_gap_ok(
            tasks[a].stride as int,
            tasks[b].stride as int,
            stride_increment(tasks[a].priority),
            stride_increment(tasks[b].priority),
        ),
    ensures
        j == a || j == b,
        ({
            let sa = if j == a {
                tasks[a].stride + stride_increment(tasks[a].priority)
            } else {
                tasks[a].stride as int
            };
            let sb = if j == b {
                tasks[b].stride + stride_increment(tasks[b].priority)
            } else {
                tasks[b].stride as int
            };
            stride_gap_ok(
                sa,
                sb,
                stride_increment(tasks[a].priority),
                stride_increment(tasks[b].priority),
            )
        }),
{
    let pa = tasks[a].priority as int;
    let pb = tasks[b].priority as int;
    assert(0 <= (BIG_STRIDE as int) / pa <= BIG_STRIDE as int) by (nonlinear_arith)
        requires
            pa >= 2,
    ;
    assert(0 <= (BIG_STRIDE as int) / pb <= BIG_STRIDE as int) by (nonlinear_arith)
        requires
            pb >= 2,
    ;
    lemma_selected_minimal(tasks, num_app, current, j, a);
    lemma_selected_minimal(tasks, num_app, current, j, b);
}

/// The strides two tasks have accumulated after a run of selections, each
/// pick charging the picked task its increment; `true` picks the first task.
pub open spec fn strides_after(picks: Seq<bool>, inc_a: int, inc_b: int) -> (int, int)
    decreases picks.len(),
{
    if picks.len() == 0 {
        (0, 0)
    } else {
        let prior = strides_after(picks.drop_last(), inc_a, inc_b);
        if picks.last() {
            (prior.0 + inc_a, prior.1)
        } else {
            (prior.0, prior.1 + inc_b)
        }
    }
}

/// Every pick of the run went to a task whose accumulated stride was minimal
/// at that point — which is how dispatching selects, whichever way it breaks
/// ties.
pub open spec fn picks_follow_strides(picks: Seq<bool>, inc_a: int, inc_b: int) -> bool
    decreases picks.len(),
{
    if picks.len() == 0 {
        true
    } else {
        let prior = strides_after(picks.drop_last(), inc_a, inc_b);
        &&& picks_follow_strides(picks.drop_last(), inc_a, inc_b)
        &&& if picks.last() {
            prior.0 <= prior.1
        } else {
            prior.1 <= prior.0
        }
    }
}

/// How many picks of the run went to the first task.
pub open spec fn count_picks(picks: Seq<bool>) -> int
    decreases picks.len(),
{
    if picks.len() == 0 {
        0
    } else {
        count_picks(picks.drop_last()) + if picks.last() {
            1int
        } else {
            0int
        }
    }
}

/// Stride-scheduling fairness over a whole run: when two tasks are picked by
/// smallest accumulated stride, then however long the run, the selection
/// counts weighted by the increments differ by at most the larger increment.
/// With `inc = BIG_STRIDE / priority` this pins the long-run selection ratio
/// of the two tasks to the inverse ratio of their increments, that is, to
/// the ratio of their priorities.
pub proof fn lemma_fair_selection_counts(picks: Seq<bool>, inc_a: int, inc_b: int)
    requires
        inc_a >= 0,
        inc_b >= 0,
        picks_follow_strides(picks, inc_a, inc_b),
    ensures
        strides_after(picks, inc_a, inc_b).0 == count_picks(picks) * inc_a,
        strides_after(picks, inc_a, inc_b).1 == (picks.len() - count_picks(picks)) * inc_b,
        ({
            let gap = count_picks(picks) * inc_a - (picks.len() - count_picks(picks)) * inc_b;
            let m = if inc_a >= inc_b {
                inc_a
            } else {
                inc_b
            };
            -m <= gap <= m
        }),
    decreases picks.len(),
{
    if picks.len() > 0 {
        lemma_fair_selection_counts(picks.drop_last(), inc_a, inc_b);
        let na = count_picks(picks.drop_last());
        let nb = picks.drop_last().len() - na;
        assert((na + 1) * inc_a == na * inc_a + inc_a) by (nonlinear_arith);
        assert((nb + 1) * inc_b == nb * inc_b + inc_b) by (nonlinear_arith);
    }
}

/// Each scan position lands on a slot in range, at the rotation distance
/// equal to the position; conversely each slot is scanned at its rotation
/// distance.
proof fn lemma_scan_covers(current: int, num_app: int)
    requires
        0 <= current < num_app,
    ensures
        forall|k: int|
            0 <= k < num_app ==> {
                &&& 0 <= #[trigger] scan_slot(current, num_app, k) < num_app
                &&& rot_dist(current, num_app, scan_slot(current, num_app, k)) == k
            },
        forall|i: int|
            0 <= i < num_app ==> {
                &&& 0 <= #[trigger] rot_dist(current, num_app, i) < num_app
                &&& scan_slot(current, num_app, rot_dist(current, num_app, i)) == i
            },
{
}

} // verus!
