use stride_kernel::kernel::{Kernel, WaitResult};
use stride_kernel::task::{TaskStatus, DEFAULT_PRIORITY};
use stride_kernel::BIG_STRIDE;

#[test]
fn bootstrap_runs_the_init_process() {
    let mut k = Kernel::new(0);
    assert_eq!(k.tasks.len(), 1);
    assert_eq!(k.current_task(), None);
    k.add_initproc();
    assert_eq!(k.manager.ready_queue.len(), 1);
    assert!(k.run_next());
    assert_eq!(k.current_task(), Some(0));
    assert_eq!(k.tasks[0].task_status, TaskStatus::Running);
    assert_eq!(k.tasks[0].task_pass, BIG_STRIDE / DEFAULT_PRIORITY);
    // Nothing else is ready.
    assert_eq!(k.manager.ready_queue.len(), 0);
}

#[test]
fn run_next_on_empty_queue_reports_idle() {
    let mut k = Kernel::new(0);
    assert!(!k.run_next());
    assert_eq!(k.current_task(), None);
}

#[test]
fn suspend_requeues_the_running_task() {
    let mut k = Kernel::new(0);
    k.add_initproc();
    assert!(k.run_next());
    k.suspend_current_and_run_next();
    assert_eq!(k.current_task(), None);
    assert_eq!(k.tasks[0].task_status, TaskStatus::Ready);
    assert_eq!(k.manager.ready_queue.len(), 1);
    assert_eq!(k.manager.ready_queue[0].tid, 0);
    assert_eq!(k.manager.ready_queue[0].task_pass, BIG_STRIDE / DEFAULT_PRIORITY);
}

#[test]
fn priority_change_recomputes_the_stride() {
    // Priority set to 2 and then to 4: the stride after the second call
    // is BIG_STRIDE / 4, independent of the first value.
    let mut k = Kernel::new(0);
    k.add_initproc();
    assert!(k.run_next());
    k.set_priority(2);
    assert_eq!(k.tasks[0].task_priority, 2);
    assert_eq!(k.tasks[0].task_stride, BIG_STRIDE / 2);
    k.set_priority(4);
    assert_eq!(k.tasks[0].task_priority, 4);
    assert_eq!(k.tasks[0].task_stride, BIG_STRIDE / 4);
}

#[test]
fn task_info_tracks_syscalls_and_elapsed_time() {
    let mut k = Kernel::new(5);
    k.add_initproc();
    assert!(k.run_next());
    k.update_task_info(64);
    k.update_task_info(64);
    k.update_task_info(93);
    let info = k.get_task_info(12_000);
    assert_eq!(info.status, TaskStatus::Running);
    assert_eq!(info.syscall_times[64], 2);
    assert_eq!(info.syscall_times[93], 1);
    assert_eq!(info.syscall_times[0], 0);
    assert_eq!(info.time, 12 - 5);
}

#[test]
fn fork_copies_the_address_space_and_enqueues_the_child() {
    let mut k = Kernel::new(0);
    k.add_initproc();
    assert!(k.run_next());
    assert_eq!(k.mmap(0x10000000, 4096, 3), 0);
    let child = k.fork(17);
    assert_eq!(child, 1);
    assert_eq!(k.tasks.len(), 2);
    assert_eq!(k.tasks[1].task_status, TaskStatus::Ready);
    assert_eq!(k.tasks[1].parent, Some(0));
    assert_eq!(k.tasks[1].task_pass, 0);
    assert_eq!(k.tasks[1].start_time, 17);
    assert_eq!(k.tasks[1].memory_set.areas, k.tasks[0].memory_set.areas);
    assert_eq!(k.tasks[0].children, vec![1]);
    assert_eq!(k.manager.ready_queue.len(), 1);
    assert_eq!(k.manager.ready_queue[0].tid, 1);
}

#[test]
fn exit_reparents_children_and_reclaims_pages() {
    let mut k = Kernel::new(0);
    k.add_initproc();
    assert!(k.run_next());
    let child = k.fork(0);
    k.suspend_current_and_run_next();
    assert!(k.run_next());
    assert_eq!(k.current_task(), Some(child));
    // The child maps a page and forks a grandchild, then exits.
    assert_eq!(k.mmap(0x10000000, 4096, 3), 0);
    let grandchild = k.fork(0);
    k.exit_current_and_run_next(7);
    assert_eq!(k.current_task(), None);
    assert_eq!(k.tasks[child].task_status, TaskStatus::Zombie);
    assert_eq!(k.tasks[child].exit_code, 7);
    assert_eq!(k.tasks[child].children.len(), 0);
    assert_eq!(k.tasks[child].memory_set.areas.len(), 0);
    // The grandchild now belongs to the init process.
    assert_eq!(k.tasks[grandchild].parent, Some(0));
    assert!(k.tasks[0].children.contains(&grandchild));
}

#[test]
fn fork_exit_wait_returns_the_childs_exit_code() {
    // A parent forks one child; the child exits with code 100; the
    // parent's wait yields that child's pid and exit code 100, and the
    // child leaves the parent's children list.
    let mut k = Kernel::new(0);
    k.add_initproc();
    assert!(k.run_next());
    let pid = k.fork(0);
    // The child has not exited yet: the parent must retry.
    assert_eq!(k.wait(), WaitResult::NotYet);
    k.suspend_current_and_run_next();
    assert!(k.run_next());
    assert_eq!(k.current_task(), Some(pid));
    k.exit_current_and_run_next(100);
    assert!(k.run_next());
    assert_eq!(k.current_task(), Some(0));
    assert_eq!(
        k.wait(),
        WaitResult::Reaped { pid, exit_code: 100 }
    );
    assert!(!k.tasks[0].children.contains(&pid));
}

#[test]
fn pass_saturates_instead_of_wrapping() {
    let mut k = Kernel::new(0);
    k.tasks[0].task_pass = usize::MAX - 1;
    k.add_initproc();
    assert!(k.run_next());
    // The stride no longer fits: the pass pins at the maximum and stays
    // monotonically non-decreasing.
    assert_eq!(k.tasks[0].task_pass, usize::MAX);
}

#[test]
fn wait_without_children_says_so() {
    let mut k = Kernel::new(0);
    k.add_initproc();
    assert!(k.run_next());
    assert_eq!(k.wait(), WaitResult::NoChild);
}

#[test]
fn scheduling_follows_the_smallest_pass() {
    let mut k = Kernel::new(0);
    k.add_initproc();
    assert!(k.run_next());
    // Two children start with pass 0; the parent's pass has advanced.
    let a = k.fork(0);
    let b = k.fork(0);
    k.suspend_current_and_run_next();
    assert!(k.run_next());
    assert_eq!(k.current_task(), Some(a));
    k.suspend_current_and_run_next();
    assert!(k.run_next());
    assert_eq!(k.current_task(), Some(b));
    k.suspend_current_and_run_next();
    // All three now carry one stride; equal passes keep arrival order,
    // so the init process, requeued first, runs first.
    assert!(k.run_next());
    assert_eq!(k.current_task(), Some(0));
}

#[test]
fn munmap_through_the_kernel_restores_the_space() {
    let mut k = Kernel::new(0);
    k.add_initproc();
    assert!(k.run_next());
    assert_eq!(k.mmap(0x10000000, 4096 * 2, 3), 0);
    assert_eq!(k.tasks[0].memory_set.areas.len(), 2);
    assert_eq!(k.munmap(0x10000000, 4096 * 2), 0);
    assert_eq!(k.tasks[0].memory_set.areas.len(), 0);
}
