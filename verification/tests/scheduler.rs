use stride_sched::task::check_read_slice;
use stride_sched::task::exit_current_and_run_next;
use stride_sched::task::run_first_task;
use stride_sched::task::set_current_priority;
use stride_sched::task::suspend_current_and_run_next;
use stride_sched::task::Dispatch;
use stride_sched::task::TaskInit;
use stride_sched::task::TaskManager;
use stride_sched::task::TaskStatus;
use stride_sched::task::MAX_APP_NUM;

fn manager(num_app: usize) -> TaskManager {
    let mut inits: Vec<TaskInit> = Vec::new();
    for i in 0..num_app {
        inits.push(TaskInit {
            task_cx_ptr: 100 + i,
            app_start: 0x1000,
            app_end: 0x2000,
            user_stack_top: 0x9000,
        });
    }
    TaskManager::new(&inits)
}

#[test]
fn new_builds_initial_state() {
    let tm = manager(2);
    assert_eq!(tm.num_app, 2);
    assert_eq!(tm.current_task, 0);
    assert_eq!(tm.tasks.len(), MAX_APP_NUM);
    for i in 0..2 {
        assert_eq!(tm.tasks[i].task_status, TaskStatus::Ready);
        assert_eq!(tm.tasks[i].stride, 0);
        assert_eq!(tm.tasks[i].priority, 16);
        assert_eq!(tm.tasks[i].start_num, 0);
        assert_eq!(tm.tasks[i].task_cx_ptr, 100 + i);
    }
    for i in 2..MAX_APP_NUM {
        assert_eq!(tm.tasks[i].task_status, TaskStatus::UnInit);
    }
}

#[test]
fn run_first_task_marks_slot_zero_running() {
    let mut tm = manager(2);
    let cx = run_first_task(&mut tm);
    assert_eq!(cx, 100);
    assert_eq!(tm.tasks[0].task_status, TaskStatus::Running);
    assert_eq!(tm.tasks[1].task_status, TaskStatus::Ready);
    assert_eq!(tm.current_task, 0);
}

#[test]
fn select_smallest_stride_beats_scan_order() {
    // Slots A(stride 10), B(stride 10), C(stride 5); from current slot A the
    // scan order is B, C, A, yet C wins on the strictly smaller stride.
    let mut tm = manager(3);
    tm.tasks[0].stride = 10;
    tm.tasks[1].stride = 10;
    tm.tasks[2].stride = 5;
    tm.current_task = 0;
    assert_eq!(tm.find_next_task(), Some(2));
}

#[test]
fn select_breaks_ties_by_scan_order() {
    let mut tm = manager(3);
    tm.tasks[0].stride = 10;
    tm.tasks[1].stride = 10;
    tm.tasks[2].stride = 10;
    tm.current_task = 0;
    assert_eq!(tm.find_next_task(), Some(1));
    tm.current_task = 1;
    assert_eq!(tm.find_next_task(), Some(2));
}

#[test]
fn select_skips_slots_that_are_not_ready() {
    let mut tm = manager(2);
    tm.tasks[1].task_status = TaskStatus::Exited;
    assert_eq!(tm.find_next_task(), Some(0));
}

#[test]
fn select_none_when_nothing_ready() {
    let mut tm = manager(2);
    tm.tasks[0].task_status = TaskStatus::Exited;
    tm.tasks[1].task_status = TaskStatus::Exited;
    assert_eq!(tm.find_next_task(), None);
}

#[test]
fn dispatch_with_no_ready_task_halts() {
    // A harness with a single task already exited: dispatching is fatal and
    // the decision is to halt scheduling, with nothing mutated.
    let mut tm = manager(1);
    tm.tasks[0].task_status = TaskStatus::Exited;
    assert_eq!(tm.run_next_task(), Dispatch::Halt);
    assert_eq!(tm.tasks[0].task_status, TaskStatus::Exited);
    assert_eq!(tm.current_task, 0);
}

#[test]
fn exit_last_task_halts() {
    let mut tm = manager(1);
    run_first_task(&mut tm);
    assert_eq!(exit_current_and_run_next(&mut tm), Dispatch::Halt);
    assert_eq!(tm.tasks[0].task_status, TaskStatus::Exited);
}

#[test]
fn exit_hands_control_to_remaining_task() {
    let mut tm = manager(2);
    run_first_task(&mut tm);
    let d = exit_current_and_run_next(&mut tm);
    assert_eq!(d, Dispatch::Switch { prev: 0, next: 1 });
    assert_eq!(tm.tasks[0].task_status, TaskStatus::Exited);
    assert_eq!(tm.tasks[1].task_status, TaskStatus::Running);
    assert_eq!(tm.current_task, 1);
}

#[test]
fn priority_below_floor_is_rejected_without_mutation() {
    let mut tm = manager(1);
    run_first_task(&mut tm);
    assert_eq!(set_current_priority(&mut tm, 1), -1);
    assert_eq!(tm.tasks[0].priority, 16);
    assert_eq!(set_current_priority(&mut tm, 0), -1);
    assert_eq!(set_current_priority(&mut tm, -5), -1);
    assert_eq!(tm.tasks[0].priority, 16);
}

#[test]
fn priority_ten_changes_subsequent_increments() {
    let mut tm = manager(1);
    run_first_task(&mut tm);
    assert_eq!(set_current_priority(&mut tm, 10), 10);
    assert_eq!(tm.tasks[0].priority, 10);
    let d = suspend_current_and_run_next(&mut tm);
    assert_eq!(d, Dispatch::Switch { prev: 0, next: 0 });
    assert_eq!(tm.tasks[0].stride, 151200 / 10);
}

#[test]
fn default_priority_increment_is_charged_on_dispatch() {
    let mut tm = manager(2);
    run_first_task(&mut tm);
    let d = suspend_current_and_run_next(&mut tm);
    assert_eq!(d, Dispatch::Switch { prev: 0, next: 1 });
    assert_eq!(tm.tasks[1].stride, 151200 / 16);
    assert_eq!(tm.tasks[0].stride, 0);
}

#[test]
fn yield_limit_exits_runaway_task() {
    // 1000 voluntary suspensions keep the task alive; the 1001st trips the
    // administrative cap and the slot is reclaimed.
    let mut tm = manager(1);
    run_first_task(&mut tm);
    for _ in 0..1000 {
        let d = suspend_current_and_run_next(&mut tm);
        assert_eq!(d, Dispatch::Switch { prev: 0, next: 0 });
        assert_eq!(tm.tasks[0].task_status, TaskStatus::Running);
    }
    assert_eq!(tm.tasks[0].start_num, 1000);
    let d = suspend_current_and_run_next(&mut tm);
    assert_eq!(d, Dispatch::Halt);
    assert_eq!(tm.tasks[0].task_status, TaskStatus::Exited);
    assert_eq!(tm.tasks[0].start_num, 1001);
}

#[test]
fn long_run_selection_ratio_follows_priorities() {
    // Two tasks with priorities 2 and 3: increments 75600 and 50400, so the
    // long-run selection counts approach 2:3.
    let mut tm = manager(2);
    run_first_task(&mut tm);
    assert_eq!(set_current_priority(&mut tm, 2), 2);
    // First yield hands control to the other task, which then sets its own
    // priority.
    let d = suspend_current_and_run_next(&mut tm);
    assert_eq!(d, Dispatch::Switch { prev: 0, next: 1 });
    assert_eq!(set_current_priority(&mut tm, 3), 3);
    // Short of the suspension cap, so the runaway safeguard never fires.
    let total = 1500usize;
    let mut selections = [0usize; 2];
    for _ in 0..total {
        match suspend_current_and_run_next(&mut tm) {
            Dispatch::Switch { next, .. } => selections[next] += 1,
            Dispatch::Halt => panic!("both tasks stayed ready"),
        }
    }
    assert_eq!(selections[0] + selections[1], total);
    // Expected shares 600 and 900; the bounded stride gap keeps the counts
    // within a couple of selections of the exact ratio.
    assert!(selections[0] >= 595 && selections[0] <= 605, "share was {}", selections[0]);
    assert!(selections[1] >= 895 && selections[1] <= 905, "share was {}", selections[1]);
}

#[test]
fn bounds_check_accepts_ranges_inside_either_region() {
    // App image [0x1000, 0x2000), stack top 0x9000.
    let tm = manager(1);
    assert!(check_read_slice(&tm, 0x1000, 0x1000));
    assert!(check_read_slice(&tm, 0x1800, 0x100));
    assert!(check_read_slice(&tm, 0x8500, 0x100));
    assert!(check_read_slice(&tm, 0x8000, 0x1000));
    assert!(check_read_slice(&tm, 0x8ff0, 0x10));
}

#[test]
fn bounds_check_rejects_straddling_and_outside_ranges() {
    let tm = manager(1);
    // Straddles the end of the app image.
    assert!(!check_read_slice(&tm, 0x1ff0, 0x20));
    // Entirely in the gap between the regions.
    assert!(!check_read_slice(&tm, 0x3000, 0x10));
    // Crosses into the stack from below.
    assert!(!check_read_slice(&tm, 0x7f00, 0x200));
    // Runs past the stack top.
    assert!(!check_read_slice(&tm, 0x8f00, 0x200));
    // Below the app image.
    assert!(!check_read_slice(&tm, 0x0f00, 0x20));
}

#[test]
fn suspension_count_survives_dispatch() {
    let mut tm = manager(2);
    run_first_task(&mut tm);
    suspend_current_and_run_next(&mut tm);
    suspend_current_and_run_next(&mut tm);
    assert_eq!(tm.tasks[0].start_num, 1);
    assert_eq!(tm.tasks[1].start_num, 1);
}
