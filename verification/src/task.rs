//! Per-task state: the task control block and its satellite types.

use vstd::prelude::*;
use crate::memory_set::MemorySet;
use crate::trap_context::TrapContext;
use crate::{BIG_STRIDE, MAX_SYSCALL_NUM};

verus! {

/// Scheduling state of a task. A task that has exited keeps its control
/// block as a `Zombie` until a parent reaps its exit code.
#[derive(Clone, Copy, PartialEq, Eq, Structural, Debug)]
pub enum TaskStatus {
    Ready,
    Running,
    Zombie,
}

/// Priority every task starts with.
pub const DEFAULT_PRIORITY: usize = 16;

/// The callee-saved register context used by the raw task switch while the
/// task is not running.
pub struct TaskContext {
    /// Return address the switch resumes at.
    pub ra: usize,
    /// Saved stack pointer.
    pub sp: usize,
    /// Callee-saved registers s0 to s11.
    pub s: Vec<usize>,
}

impl TaskContext {
    /// Twelve callee-saved register slots.
    pub open spec fn wf(self) -> bool {
        self.s@.len() == 12
    }

    /// An all-zero context, as a task that never ran yet carries.
    pub fn zero_init() -> (cx: Self)
        ensures
            cx.wf(),
            cx.ra == 0,
            cx.sp == 0,
            cx.s@ == Seq::new(12, |i: int| 0usize),
    {
        let mut s: Vec<usize> = Vec::new();
        while s.len() < 12
            invariant
                s@.len() <= 12,
                s@ == Seq::new(s@.len(), |i: int| 0usize),
            decreases 12 - s@.len(),
        {
            s.push(0);
            proof {
                assert(s@ =~= Seq::new(s@.len(), |i: int| 0usize));
            }
        }
        proof {
            assert(s@ =~= Seq::new(12, |i: int| 0usize));
        }
        TaskContext { ra: 0, sp: 0, s }
    }
}

/// Everything the kernel keeps per task. Tasks are identified by their
/// index in the kernel's task table; parent and children links are such
/// indices.
pub struct TaskControlBlock {
    /// Scheduling state.
    pub task_status: TaskStatus,
    /// Scheduling priority, at least 2.
    pub task_priority: usize,
    /// Stride added to the pass each time the task is scheduled:
    /// `BIG_STRIDE / task_priority`.
    pub task_stride: usize,
    /// Accumulated pass; the ready queue orders tasks by it.
    pub task_pass: usize,
    /// The task's private address space.
    pub memory_set: MemorySet,
    /// The parent task, if it is still recorded; after the parent exits
    /// this points at the init process.
    pub parent: Option<usize>,
    /// The task's children, oldest first.
    pub children: Vec<usize>,
    /// Exit code, meaningful once the status is `Zombie`.
    pub exit_code: i32,
    /// Invocation count per syscall id.
    pub syscall_times: Vec<u32>,
    /// Creation timestamp in milliseconds, for elapsed-time queries.
    pub start_time: usize,
    /// Saved switch context, used only while the task is not running.
    pub task_cx: TaskContext,
    /// Trap frame crossed on every user/kernel transition.
    pub trap_cx: TrapContext,
}

impl TaskControlBlock {
    /// Structural soundness of one control block: the counter table covers
    /// every syscall id, the priority is at least 2, the stride matches
    /// the priority, and both register contexts have their fixed shape.
    pub open spec fn wf(self) -> bool {
        &&& self.syscall_times@.len() == MAX_SYSCALL_NUM
        &&& self.task_priority >= 2
        &&& self.task_stride as int == BIG_STRIDE as int / self.task_priority as int
        &&& self.task_cx.wf()
        &&& self.trap_cx.wf()
    }

    /// A fresh ready task: default priority, zero pass, empty address
    /// space, no relatives, zeroed contexts and counters.
    pub fn new(start_time: usize) -> (t: Self)
        ensures
            t.wf(),
            t.task_status == TaskStatus::Ready,
            t.task_priority == DEFAULT_PRIORITY,
            t.task_stride as int == BIG_STRIDE as int / DEFAULT_PRIORITY as int,
            t.task_pass == 0,
            t.memory_set.areas@ == Seq::<crate::memory_set::Area>::empty(),
            t.parent is None,
            t.children@ == Seq::<usize>::empty(),
            t.exit_code == 0,
            t.syscall_times@ == Seq::new(MAX_SYSCALL_NUM as nat, |i: int| 0u32),
            t.start_time == start_time,
    {
        let mut syscall_times: Vec<u32> = Vec::new();
        while syscall_times.len() < MAX_SYSCALL_NUM
            invariant
                syscall_times@.len() <= MAX_SYSCALL_NUM,
                syscall_times@ == Seq::new(syscall_times@.len(), |i: int| 0u32),
            decreases MAX_SYSCALL_NUM - syscall_times@.len(),
        {
            syscall_times.push(0);
            proof {
                assert(syscall_times@ =~= Seq::new(syscall_times@.len(), |i: int| 0u32));
            }
        }
        proof {
            assert(syscall_times@ =~= Seq::new(MAX_SYSCALL_NUM as nat, |i: int| 0u32));
        }
        TaskControlBlock {
            task_status: TaskStatus::Ready,
            task_priority: DEFAULT_PRIORITY,
            task_stride: BIG_STRIDE / DEFAULT_PRIORITY,
            task_pass: 0,
            memory_set: MemorySet::new(),
            parent: None,
            children: Vec::new(),
            exit_code: 0,
            syscall_times,
            start_time,
            task_cx: TaskContext::zero_init(),
            trap_cx: TrapContext::zeroed(),
        }
    }
}

/// What a task-information query reports: the task's status, its
/// per-syscall invocation counts, and its elapsed run time in
/// milliseconds.
pub struct TaskInfo {
    /// Scheduling state at the time of the query.
    pub status: TaskStatus,
    /// Copy of the per-syscall invocation counts.
    pub syscall_times: Vec<u32>,
    /// Milliseconds elapsed since the task was created.
    pub time: usize,
}

} // verus!
