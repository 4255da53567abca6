//! The process table, the processor slot, and the lifecycle operations.
//!
//! All scheduler state lives in one `Kernel` value: the task table (tasks
//! are identified by their index, which serves as the pid), the ready
//! queue, the processor's "currently running" slot, and the identity of
//! the init process. The syscall layer drives it through the operations
//! here: suspending, exiting with re-parenting and reclamation, forking,
//! reaping, mapping and unmapping memory, and priority changes.

use vstd::prelude::*;
use crate::manager::{insert_pos, sorted_by_pass, ReadyItem, TaskManager};
use crate::memory_set::{mmap_areas, mmap_ret, munmap_areas, munmap_ret};
use crate::task::{TaskControlBlock, TaskInfo, TaskStatus};
use crate::trap_context::TrapContext;
use crate::{BIG_STRIDE, MAX_SYSCALL_NUM};

verus! {

/// Outcome of a `wait` by the current task.
#[derive(Clone, Copy, PartialEq, Eq, Structural, Debug)]
pub enum WaitResult {
    /// The task has no children at all.
    NoChild,
    /// The task has children, but none has exited yet; the caller should
    /// suspend and retry.
    NotYet,
    /// A zombie child was reaped: its pid and its exit code.
    Reaped { pid: usize, exit_code: i32 },
}

/// Two control blocks that agree on everything but the scheduling status.
pub open spec fn same_but_status(a: TaskControlBlock, b: TaskControlBlock) -> bool {
    &&& a.task_priority == b.task_priority
    &&& a.task_stride == b.task_stride
    &&& a.task_pass == b.task_pass
    &&& a.memory_set == b.memory_set
    &&& a.parent == b.parent
    &&& a.children == b.children
    &&& a.exit_code == b.exit_code
    &&& a.syscall_times == b.syscall_times
    &&& a.start_time == b.start_time
    &&& a.task_cx == b.task_cx
    &&& a.trap_cx == b.trap_cx
}

/// Two control blocks that agree on everything but status and pass.
pub open spec fn same_but_sched(a: TaskControlBlock, b: TaskControlBlock) -> bool {
    &&& a.task_priority == b.task_priority
    &&& a.task_stride == b.task_stride
    &&& a.memory_set == b.memory_set
    &&& a.parent == b.parent
    &&& a.children == b.children
    &&& a.exit_code == b.exit_code
    &&& a.syscall_times == b.syscall_times
    &&& a.start_time == b.start_time
    &&& a.task_cx == b.task_cx
    &&& a.trap_cx == b.trap_cx
}

/// Two control blocks that agree on everything but priority and stride.
pub open spec fn same_but_priority(a: TaskControlBlock, b: TaskControlBlock) -> bool {
    &&& a.task_status == b.task_status
    &&& a.task_pass == b.task_pass
    &&& a.memory_set == b.memory_set
    &&& a.parent == b.parent
    &&& a.children == b.children
    &&& a.exit_code == b.exit_code
    &&& a.syscall_times == b.syscall_times
    &&& a.start_time == b.start_time
    &&& a.task_cx == b.task_cx
    &&& a.trap_cx == b.trap_cx
}

/// Two control blocks that agree on everything but the syscall counters.
pub open spec fn same_but_syscalls(a: TaskControlBlock, b: TaskControlBlock) -> bool {
    &&& a.task_status == b.task_status
    &&& a.task_priority == b.task_priority
    &&& a.task_stride == b.task_stride
    &&& a.task_pass == b.task_pass
    &&& a.memory_set == b.memory_set
    &&& a.parent == b.parent
    &&& a.children == b.children
    &&& a.exit_code == b.exit_code
    &&& a.start_time == b.start_time
    &&& a.task_cx == b.task_cx
    &&& a.trap_cx == b.trap_cx
}

/// Two control blocks that agree on everything but the address space.
pub open spec fn same_but_memory(a: TaskControlBlock, b: TaskControlBlock) -> bool {
    &&& a.task_status == b.task_status
    &&& a.task_priority == b.task_priority
    &&& a.task_stride == b.task_stride
    &&& a.task_pass == b.task_pass
    &&& a.parent == b.parent
    &&& a.children == b.children
    &&& a.exit_code == b.exit_code
    &&& a.syscall_times == b.syscall_times
    &&& a.start_time == b.start_time
    &&& a.task_cx == b.task_cx
    &&& a.trap_cx == b.trap_cx
}

/// Two control blocks that agree on everything but the parent link.
pub open spec fn same_but_parent(a: TaskControlBlock, b: TaskControlBlock) -> bool {
    &&& a.task_status == b.task_status
    &&& a.task_priority == b.task_priority
    &&& a.task_stride == b.task_stride
    &&& a.task_pass == b.task_pass
    &&& a.memory_set == b.memory_set
    &&& a.children == b.children
    &&& a.exit_code == b.exit_code
    &&& a.syscall_times == b.syscall_times
    &&& a.start_time == b.start_time
    &&& a.task_cx == b.task_cx
    &&& a.trap_cx == b.trap_cx
}

/// Two control blocks that agree on everything but the children list.
pub open spec fn same_but_children(a: TaskControlBlock, b: TaskControlBlock) -> bool {
    &&& a.task_status == b.task_status
    &&& a.task_priority == b.task_priority
    &&& a.task_stride == b.task_stride
    &&& a.task_pass == b.task_pass
    &&& a.memory_set == b.memory_set
    &&& a.parent == b.parent
    &&& a.exit_code == b.exit_code
    &&& a.syscall_times == b.syscall_times
    &&& a.start_time == b.start_time
    &&& a.task_cx == b.task_cx
    &&& a.trap_cx == b.trap_cx
}

/// Two control blocks that agree on the fields an exit leaves alone:
/// everything but status, exit code, children, and the address space.
pub open spec fn same_but_exit(a: TaskControlBlock, b: TaskControlBlock) -> bool {
    &&& a.task_priority == b.task_priority
    &&& a.task_stride == b.task_stride
    &&& a.task_pass == b.task_pass
    &&& a.parent == b.parent
    &&& a.syscall_times == b.syscall_times
    &&& a.start_time == b.start_time
    &&& a.task_cx == b.task_cx
    &&& a.trap_cx == b.trap_cx
}

/// Position of the first child in `kids` whose control block in `tasks`
/// is a `Zombie`, or -1 when none has exited yet.
pub open spec fn first_zombie(tasks: Seq<TaskControlBlock>, kids: Seq<usize>) -> int
    decreases kids.len(),
{
    if kids.len() == 0 {
        -1
    } else if tasks[kids[0] as int].task_status == TaskStatus::Zombie {
        0
    } else {
        let r = first_zombie(tasks, kids.drop_first());
        if r == -1 {
            -1
        } else {
            1 + r
        }
    }
}

/// A scan that passed over non-zombie children and stopped at a zombie
/// stopped exactly at the first zombie.
proof fn lemma_first_zombie_found(tasks: Seq<TaskControlBlock>, kids: Seq<usize>, t: int)
    requires
        0 <= t < kids.len(),
        forall|j: int|
            0 <= j < t ==> tasks[(#[trigger] kids[j]) as int].task_status != TaskStatus::Zombie,
        tasks[kids[t] as int].task_status == TaskStatus::Zombie,
    ensures
        first_zombie(tasks, kids) == t,
    decreases kids.len(),
{
    if t > 0 {
        assert(forall|j: int| 0 <= j < kids.drop_first().len() ==> #[trigger] kids.drop_first()[j]
            == kids[j + 1]);
        lemma_first_zombie_found(tasks, kids.drop_first(), t - 1);
    }
}

/// When no child is a zombie, the scan reports none.
proof fn lemma_first_zombie_none(tasks: Seq<TaskControlBlock>, kids: Seq<usize>)
    requires
        forall|j: int|
            0 <= j < kids.len() ==> tasks[(#[trigger] kids[j]) as int].task_status
                != TaskStatus::Zombie,
    ensures
        first_zombie(tasks, kids) == -1,
    decreases kids.len(),
{
    if kids.len() > 0 {
        assert(forall|j: int| 0 <= j < kids.drop_first().len() ==> #[trigger] kids.drop_first()[j]
            == kids[j + 1]);
        lemma_first_zombie_none(tasks, kids.drop_first());
    }
}

/// The whole scheduler state: task table, ready queue, processor slot,
/// and the identity of the init process.
pub struct Kernel {
    /// All control blocks ever created, indexed by pid.
    pub tasks: Vec<TaskControlBlock>,
    /// The ready queue.
    pub manager: TaskManager,
    /// The task the processor is currently running, if any.
    pub current: Option<usize>,
    /// Pid of the init process, which adopts orphaned children.
    pub initproc: usize,
}

impl Kernel {
    /// Whether a task is in the ready queue.
    pub open spec fn queued(self, tid: usize) -> bool {
        exists|i: int|
            0 <= i < self.manager.ready_queue@.len() && (#[trigger] self.manager.ready_queue@[i]).tid
                == tid
    }

    /// The standing invariant of the scheduler state:
    /// - the init process and the processor slot name real tasks;
    /// - every control block is well formed, and its parent and children
    ///   links name real tasks; no task has the init process or itself
    ///   among its children;
    /// - a task is `Running` exactly when the processor slot holds it, so
    ///   at most one task runs at a time;
    /// - the ready queue is sorted by ascending pass and holds each task
    ///   at most once, every queued task being `Ready`.
    pub open spec fn wf(self) -> bool {
        &&& (self.initproc as int) < self.tasks@.len()
        &&& (self.current matches Some(c) ==> (c as int) < self.tasks@.len())
        &&& (forall|t: int| 0 <= t < self.tasks@.len() ==> (#[trigger] self.tasks@[t]).wf())
        &&& (forall|t: int|
            0 <= t < self.tasks@.len() ==> ((#[trigger] self.tasks@[t]).task_status
                == TaskStatus::Running <==> self.current == Some(t as usize)))
        &&& (forall|t: int, c: int|
            0 <= t < self.tasks@.len() && 0 <= c < self.tasks@[t].children@.len() ==> ((
            #[trigger] self.tasks@[t].children@[c]) as int) < self.tasks@.len()
                && self.tasks@[t].children@[c] != self.initproc
                && (self.tasks@[t].children@[c] as int) != t)
        &&& (forall|t: int|
            0 <= t < self.tasks@.len() ==> ((#[trigger] self.tasks@[t]).parent matches Some(p)
                ==> (p as int) < self.tasks@.len()))
        &&& sorted_by_pass(self.manager.ready_queue@)
        &&& (forall|i: int|
            0 <= i < self.manager.ready_queue@.len() ==> ((
            #[trigger] self.manager.ready_queue@[i]).tid as int) < self.tasks@.len()
                && self.tasks@[self.manager.ready_queue@[i].tid as int].task_status
                == TaskStatus::Ready)
        &&& (forall|i: int, j: int|
            0 <= i < j < self.manager.ready_queue@.len() ==> (
            #[trigger] self.manager.ready_queue@[i]).tid
                != (#[trigger] self.manager.ready_queue@[j]).tid)
    }

    /// A kernel holding only the freshly created init process, with an
    /// empty ready queue and an idle processor.
    pub fn new(now_ms: usize) -> (k: Kernel)
        ensures
            k.wf(),
            k.tasks@.len() == 1,
            k.initproc == 0,
            k.current is None,
            k.manager.ready_queue@ == Seq::<ReadyItem>::empty(),
            k.tasks@[0].task_status == TaskStatus::Ready,
            k.tasks@[0].task_pass == 0,
            k.tasks@[0].task_priority == crate::task::DEFAULT_PRIORITY,
            k.tasks@[0].start_time == now_ms,
            k.tasks@[0].children@.len() == 0,
            k.tasks@[0].parent is None,
            k.tasks@[0].memory_set.areas@.len() == 0,
    {
        let mut tasks: Vec<TaskControlBlock> = Vec::new();
        tasks.push(TaskControlBlock::new(now_ms));
        Kernel { tasks, manager: TaskManager::new(), current: None, initproc: 0 }
    }

    /// Peeks the processor's "currently running" slot.
    pub fn current_task(&self) -> (r: Option<usize>)
        ensures
            r == self.current,
    {
        self.current
    }

    /// The trap frame of the currently running task.
    pub fn current_trap_cx(&self) -> (cx: &TrapContext)
        requires
            self.wf(),
            self.current is Some,
        ensures
            *cx == self.tasks@[self.current.unwrap() as int].trap_cx,
    {
        let cur = self.current.unwrap();
        &self.tasks[cur].trap_cx
    }

    /// Inserts a ready task into the ready queue at its stride position.
    pub fn add_task(&mut self, tid: usize)
        requires
            old(self).wf(),
            (tid as int) < old(self).tasks@.len(),
            old(self).tasks@[tid as int].task_status == TaskStatus::Ready,
            !old(self).queued(tid),
        ensures
            final(self).wf(),
            final(self).tasks@ == old(self).tasks@,
            final(self).current == old(self).current,
            final(self).initproc == old(self).initproc,
            final(self).manager.ready_queue@ == old(self).manager.ready_queue@.insert(
                insert_pos(old(self).manager.ready_queue@, old(self).tasks@[tid as int].task_pass),
                (ReadyItem { task_pass: old(self).tasks@[tid as int].task_pass, tid }),
            ),
    {
        let pass = self.tasks[tid].task_pass;
        self.manager.add(tid, pass);
        proof {
            let q0 = old(self).manager.ready_queue@;
            let p = insert_pos(q0, pass);
            crate::manager::lemma_insert_pos_bounds(q0, pass);
            q0.insert_ensures(p, ReadyItem { task_pass: pass, tid });
            let q1 = self.manager.ready_queue@;
            assert forall|i: int|
                0 <= i < q1.len() implies ((#[trigger] q1[i]).tid as int) < self.tasks@.len()
                && self.tasks@[q1[i].tid as int].task_status == TaskStatus::Ready by {
                if i < p {
                    assert(q1[i] == q0[i]);
                } else if i == p {
                } else {
                    assert(q1[i] == q0[i - 1]);
                }
            };
            assert forall|i: int, j: int| 0 <= i < j < q1.len() implies (#[trigger] q1[i]).tid != (
            #[trigger] q1[j]).tid by {
                let oi = if i < p {
                    i
                } else {
                    i - 1
                };
                let oj = if j < p {
                    j
                } else {
                    j - 1
                };
                if i != p && j != p {
                    assert(q1[i] == q0[oi]);
                    assert(q1[j] == q0[oj]);
                } else if i == p {
                    assert(q1[j] == q0[oj]);
                    assert(!old(self).queued(tid));
                } else {
                    assert(q1[i] == q0[oi]);
                    assert(!old(self).queued(tid));
                }
            };
        }
    }

    /// Takes the front of the ready queue, without scheduling it.
    pub fn fetch_task(&mut self) -> (r: Option<usize>)
        requires
            old(self).wf(),
        ensures
            final(self).wf(),
            final(self).tasks@ == old(self).tasks@,
            final(self).current == old(self).current,
            final(self).initproc == old(self).initproc,
            old(self).manager.ready_queue@.len() == 0 ==> r is None && final(self).manager.ready_queue@ == old(self).manager.ready_queue@,
            old(self).manager.ready_queue@.len() > 0 ==> r == Some(
                old(self).manager.ready_queue@[0].tid,
            ) && final(self).manager.ready_queue@ == old(self).manager.ready_queue@.drop_first(),
    {
        let r = self.manager.fetch();
        proof {
            let q0 = old(self).manager.ready_queue@;
            if q0.len() > 0 {
                assert(forall|i: int|
                    0 <= i < q0.drop_first().len() ==> #[trigger] q0.drop_first()[i] == q0[i + 1]);
            }
        }
        r
    }

    /// One turn of the scheduling loop: picks the ready task with the
    /// smallest pass, advances its pass by its stride (saturating at the
    /// largest representable value), marks it running, and installs it in
    /// the processor slot. Reports whether a task was available.
    #[verifier::loop_isolation(false)]
    pub fn run_next(&mut self) -> (r: bool)
        requires
            old(self).wf(),
            old(self).current is None,
        ensures
            final(self).wf(),
            final(self).initproc == old(self).initproc,
            old(self).manager.ready_queue@.len() == 0 ==> r == false && final(self).tasks@ == old(self).tasks@ && final(self).current is None && final(self).manager.ready_queue@ == old(self).manager.ready_queue@,
            old(self).manager.ready_queue@.len() > 0 ==> ({
                let tid = old(self).manager.ready_queue@[0].tid as int;
                let t0 = old(self).tasks@[tid];
                &&& r == true
                &&& final(self).current == Some(old(self).manager.ready_queue@[0].tid)
                &&& final(self).manager.ready_queue@ == old(self).manager.ready_queue@.drop_first()
                &&& final(self).tasks@.len() == old(self).tasks@.len()
                &&& final(self).tasks@[tid].task_status == TaskStatus::Running
                &&& final(self).tasks@[tid].task_pass == (if t0.task_pass + t0.task_stride
                    <= usize::MAX {
                    (t0.task_pass + t0.task_stride) as usize
                } else {
                    usize::MAX
                })
                &&& final(self).tasks@[tid].task_pass >= t0.task_pass
                &&& same_but_sched(final(self).tasks@[tid], t0)
                &&& (forall|t: int|
                    0 <= t < old(self).tasks@.len() && t != tid ==> final(self).tasks@[t] == old(self).tasks@[t])
            }),
    {
        let fetched = self.fetch_task();
        match fetched {
            None => false,
            Some(tid) => {
                let n = self.tasks.len();
                let t = &mut self.tasks[tid];
                let pass = t.task_pass;
                let stride = t.task_stride;
                t.task_pass = if pass <= usize::MAX - stride {
                    pass + stride
                } else {
                    usize::MAX
                };
                t.task_status = TaskStatus::Running;
                self.current = Some(tid);
                proof {
                    assert(self.tasks@.len() == n);
                    let q0 = old(self).manager.ready_queue@;
                    let q1 = self.manager.ready_queue@;
                    assert(forall|i: int|
                        0 <= i < q0.drop_first().len() ==> #[trigger] q0.drop_first()[i] == q0[i
                            + 1]);
                    assert forall|i: int|
                        0 <= i < q1.len() implies ((#[trigger] q1[i]).tid as int)
                        < self.tasks@.len() && self.tasks@[q1[i].tid as int].task_status
                        == TaskStatus::Ready by {
                        assert(q1[i] == q0[i + 1]);
                        assert(q0[i + 1].tid != q0[0].tid);
                    };
                    assert forall|t: int|
                        0 <= t < self.tasks@.len() implies ((
                    #[trigger] self.tasks@[t]).task_status == TaskStatus::Running <==> self.current
                        == Some(t as usize)) by {
                        if t != tid as int {
                            assert(self.tasks@[t] == old(self).tasks@[t]);
                            assert(old(self).current is None);
                        }
                    };
                }
                true
            },
        }
    }

    /// Moves the running task back to the ready queue: its status returns
    /// to `Ready`, it is enqueued under its current pass, and the
    /// processor goes idle so the scheduling loop can pick the next task.
    pub fn suspend_current_and_run_next(&mut self)
        requires
            old(self).wf(),
            old(self).current is Some,
        ensures
            final(self).wf(),
            final(self).current is None,
            final(self).initproc == old(self).initproc,
            final(self).tasks@.len() == old(self).tasks@.len(),
            ({
                let c = old(self).current.unwrap() as int;
                &&& final(self).tasks@[c].task_status == TaskStatus::Ready
                &&& same_but_status(final(self).tasks@[c], old(self).tasks@[c])
                &&& (forall|t: int|
                    0 <= t < old(self).tasks@.len() && t != c ==> final(self).tasks@[t] == old(self).tasks@[t])
                &&& final(self).manager.ready_queue@ == old(self).manager.ready_queue@.insert(
                    insert_pos(old(self).manager.ready_queue@, old(self).tasks@[c].task_pass),
                    (ReadyItem {
                        task_pass: old(self).tasks@[c].task_pass,
                        tid: old(self).current.unwrap(),
                    }),
                )
            }),
    {
        let cur = self.current.unwrap();
        self.current = None;
        let n = self.tasks.len();
        let t = &mut self.tasks[cur];
        t.task_status = TaskStatus::Ready;
        proof {
            assert(self.current is None);
            assert(self.tasks@.len() == n);
            assert(self.tasks@.len() == old(self).tasks@.len());
            assert(self.tasks@[cur as int].task_status == TaskStatus::Ready);
            assert(forall|t2: int|
                0 <= t2 < self.tasks@.len() && t2 != cur as int ==> #[trigger] self.tasks@[t2]
                    == old(self).tasks@[t2]);
            assert(old(self).tasks@[cur as int].task_status == TaskStatus::Running);
            assert forall|t2: int|
                0 <= t2 < self.tasks@.len() implies ((#[trigger] self.tasks@[t2]).task_status
                == TaskStatus::Running <==> self.current == Some(t2 as usize)) by {
                if t2 != cur as int {
                    assert(self.tasks@[t2] == old(self).tasks@[t2]);
                    assert(old(self).tasks@[t2].task_status == TaskStatus::Running <==> old(
                        self,
                    ).current == Some(t2 as usize));
                }
            };
            let q = self.manager.ready_queue@;
            assert forall|i: int|
                0 <= i < q.len() implies ((#[trigger] q[i]).tid as int) < self.tasks@.len()
                && self.tasks@[q[i].tid as int].task_status == TaskStatus::Ready by {
                assert(old(self).tasks@[q[i].tid as int].task_status == TaskStatus::Ready);
                assert(q[i].tid != cur);
            };
            assert(!self.queued(cur));
        }
        self.add_task(cur);
    }

    /// Raises or lowers the running task's priority and recomputes its
    /// stride as `BIG_STRIDE / prio`. The ready queue is not reordered:
    /// the new stride takes effect the next time the task is enqueued.
    pub fn set_priority(&mut self, prio: usize)
        requires
            old(self).wf(),
            old(self).current is Some,
            prio >= 2,
        ensures
            final(self).wf(),
            final(self).current == old(self).current,
            final(self).initproc == old(self).initproc,
            final(self).manager.ready_queue@ == old(self).manager.ready_queue@,
            final(self).tasks@.len() == old(self).tasks@.len(),
            ({
                let c = old(self).current.unwrap() as int;
                &&& final(self).tasks@[c].task_priority == prio
                &&& final(self).tasks@[c].task_stride as int == BIG_STRIDE as int / prio as int
                &&& same_but_priority(final(self).tasks@[c], old(self).tasks@[c])
                &&& (forall|t: int|
                    0 <= t < old(self).tasks@.len() && t != c ==> final(self).tasks@[t] == old(self).tasks@[t])
            }),
    {
        let cur = self.current.unwrap();
        let t = &mut self.tasks[cur];
        t.task_priority = prio;
        t.task_stride = BIG_STRIDE / prio;
    }

    /// Counts one invocation of a syscall against the running task.
    pub fn update_task_info(&mut self, syscall_id: usize)
        requires
            old(self).wf(),
            old(self).current is Some,
            syscall_id < MAX_SYSCALL_NUM,
            old(self).tasks@[old(self).current.unwrap() as int].syscall_times@[syscall_id as int]
                < u32::MAX,
        ensures
            final(self).wf(),
            final(self).current == old(self).current,
            final(self).initproc == old(self).initproc,
            final(self).manager.ready_queue@ == old(self).manager.ready_queue@,
            final(self).tasks@.len() == old(self).tasks@.len(),
            ({
                let c = old(self).current.unwrap() as int;
                &&& final(self).tasks@[c].syscall_times@ == old(self).tasks@[c].syscall_times@.update(
                    syscall_id as int,
                    (old(self).tasks@[c].syscall_times@[syscall_id as int] + 1) as u32,
                )
                &&& same_but_syscalls(final(self).tasks@[c], old(self).tasks@[c])
                &&& (forall|t: int|
                    0 <= t < old(self).tasks@.len() && t != c ==> final(self).tasks@[t] == old(self).tasks@[t])
            }),
    {
        let cur = self.current.unwrap();
        let t = &mut self.tasks[cur];
        let n = t.syscall_times[syscall_id];
        t.syscall_times.set(syscall_id, n + 1);
    }

    /// Reports the running task's status, syscall counts, and elapsed
    /// time, computed from the current microsecond clock reading.
    pub fn get_task_info(&self, now_us: usize) -> (info: TaskInfo)
        requires
            self.wf(),
            self.current is Some,
            now_us / 1000 >= self.tasks@[self.current.unwrap() as int].start_time,
        ensures
            ({
                let c = self.current.unwrap() as int;
                &&& info.status == self.tasks@[c].task_status
                &&& info.syscall_times@ == self.tasks@[c].syscall_times@
                &&& info.time as int == now_us as int / 1000 - self.tasks@[c].start_time as int
            }),
    {
        let cur = self.current.unwrap();
        let t = &self.tasks[cur];
        TaskInfo {
            status: t.task_status,
            syscall_times: crate::copy_vec(&t.syscall_times),
            time: now_us / 1000 - t.start_time,
        }
    }

    /// Maps `[start, start + len)` into the running task's address space;
    /// the request policy and the resulting areas are those of
    /// [`MemorySet::mmap`](crate::memory_set::MemorySet::mmap).
    pub fn mmap(&mut self, start: usize, len: usize, prot: usize) -> (r: isize)
        requires
            old(self).wf(),
            old(self).current is Some,
            start + len <= usize::MAX,
        ensures
            final(self).wf(),
            final(self).current == old(self).current,
            final(self).initproc == old(self).initproc,
            final(self).manager.ready_queue@ == old(self).manager.ready_queue@,
            final(self).tasks@.len() == old(self).tasks@.len(),
            ({
                let c = old(self).current.unwrap() as int;
                &&& r == mmap_ret(old(self).tasks@[c].memory_set.areas@, start, len, prot)
                &&& final(self).tasks@[c].memory_set.areas@ == mmap_areas(
                    old(self).tasks@[c].memory_set.areas@,
                    start,
                    len,
                    prot,
                )
                &&& same_but_memory(final(self).tasks@[c], old(self).tasks@[c])
                &&& (forall|t: int|
                    0 <= t < old(self).tasks@.len() && t != c ==> final(self).tasks@[t] == old(self).tasks@[t])
            }),
    {
        let cur = self.current.unwrap();
        let t = &mut self.tasks[cur];
        t.memory_set.mmap(start, len, prot)
    }

    /// Unmaps `[start, start + len)` from the running task's address
    /// space; the request policy and the resulting areas are those of
    /// [`MemorySet::munmap`](crate::memory_set::MemorySet::munmap).
    pub fn munmap(&mut self, start: usize, len: usize) -> (r: isize)
        requires
            old(self).wf(),
            old(self).current is Some,
            start + len <= usize::MAX,
        ensures
            final(self).wf(),
            final(self).current == old(self).current,
            final(self).initproc == old(self).initproc,
            final(self).manager.ready_queue@ == old(self).manager.ready_queue@,
            final(self).tasks@.len() == old(self).tasks@.len(),
            ({
                let c = old(self).current.unwrap() as int;
                &&& r == munmap_ret(old(self).tasks@[c].memory_set.areas@, start, len)
                &&& final(self).tasks@[c].memory_set.areas@ == munmap_areas(
                    old(self).tasks@[c].memory_set.areas@,
                    start,
                    len,
                )
                &&& same_but_memory(final(self).tasks@[c], old(self).tasks@[c])
                &&& (forall|t: int|
                    0 <= t < old(self).tasks@.len() && t != c ==> final(self).tasks@[t] == old(self).tasks@[t])
            }),
    {
        let cur = self.current.unwrap();
        let t = &mut self.tasks[cur];
        t.memory_set.munmap(start, len)
    }

    /// Enqueues the init process, exactly once at kernel startup.
    pub fn add_initproc(&mut self)
        requires
            old(self).wf(),
            old(self).tasks@[old(self).initproc as int].task_status == TaskStatus::Ready,
            !old(self).queued(old(self).initproc),
        ensures
            final(self).wf(),
            final(self).tasks@ == old(self).tasks@,
            final(self).current == old(self).current,
            final(self).initproc == old(self).initproc,
            final(self).manager.ready_queue@ == old(self).manager.ready_queue@.insert(
                insert_pos(
                    old(self).manager.ready_queue@,
                    old(self).tasks@[old(self).initproc as int].task_pass,
                ),
                (ReadyItem {
                    task_pass: old(self).tasks@[old(self).initproc as int].task_pass,
                    tid: old(self).initproc,
                }),
            ),
    {
        let ip = self.initproc;
        self.add_task(ip);
    }

    /// Ends the running task: it becomes a `Zombie` carrying `exit_code`,
    /// every child is handed over to the init process (the child's parent
    /// link is repointed and the init process's children list extended),
    /// the task's own children list is cleared, all its address-space
    /// pages are reclaimed, and the processor goes idle. The init process
    /// itself never exits.
    #[verifier::loop_isolation(false)]
    pub fn exit_current_and_run_next(&mut self, exit_code: i32)
        requires
            old(self).wf(),
            old(self).current is Some,
            old(self).current.unwrap() != old(self).initproc,
        ensures
            final(self).wf(),
            final(self).current is None,
            final(self).initproc == old(self).initproc,
            final(self).manager.ready_queue@ == old(self).manager.ready_queue@,
            final(self).tasks@.len() == old(self).tasks@.len(),
            ({
                let c = old(self).current.unwrap() as int;
                let ip = old(self).initproc as int;
                let kids = old(self).tasks@[c].children@;
                &&& final(self).tasks@[c].task_status == TaskStatus::Zombie
                &&& final(self).tasks@[c].exit_code == exit_code
                &&& final(self).tasks@[c].children@.len() == 0
                &&& final(self).tasks@[c].memory_set.areas@.len() == 0
                &&& same_but_exit(final(self).tasks@[c], old(self).tasks@[c])
                &&& (forall|j: int|
                    0 <= j < kids.len() ==> final(self).tasks@[kids[j] as int].parent == Some(
                        old(self).initproc,
                    ))
                &&& (forall|j: int|
                    0 <= j < kids.len() ==> same_but_parent(
                        #[trigger] final(self).tasks@[kids[j] as int],
                        old(self).tasks@[kids[j] as int],
                    ))
                &&& final(self).tasks@[ip].children@ == old(self).tasks@[ip].children@ + kids
                &&& same_but_children(final(self).tasks@[ip], old(self).tasks@[ip])
                &&& (forall|t: int|
                    0 <= t < old(self).tasks@.len() && t != c && t != ip && !kids.contains(
                        t as usize,
                    ) ==> final(self).tasks@[t] == old(self).tasks@[t])
            }),
    {
        let cur = self.current.unwrap();
        self.current = None;
        let ip = self.initproc;
        let n = self.tasks.len();
        {
            let t = &mut self.tasks[cur];
            t.task_status = TaskStatus::Zombie;
            t.exit_code = exit_code;
        }
        let kids = crate::copy_vec(&self.tasks[cur].children);
        let ghost g = self.tasks@;
        proof {
            assert(g.len() == n);
            assert(forall|j: int|
                0 <= j < kids@.len() ==> ((#[trigger] kids@[j]) as int) < n && kids@[j] != ip
                    && kids@[j] != cur);
        }
        let mut i: usize = 0;
        while i < kids.len()
            invariant
                i <= kids@.len(),
                self.current is None,
                self.initproc == ip,
                self.manager == old(self).manager,
                self.tasks@.len() == n,
                forall|t: int|
                    0 <= t < n && t != ip as int && !kids@.take(i as int).contains(t as usize)
                        ==> #[trigger] self.tasks@[t] == g[t],
                forall|j: int|
                    0 <= j < i ==> self.tasks@[(#[trigger] kids@[j]) as int].parent == Some(ip),
                forall|j: int|
                    0 <= j < kids@.len() ==> same_but_parent(
                        #[trigger] self.tasks@[kids@[j] as int],
                        g[kids@[j] as int],
                    ),
                self.tasks@[ip as int].children@ == g[ip as int].children@ + kids@.take(i as int),
                same_but_children(self.tasks@[ip as int], g[ip as int]),
            decreases kids@.len() - i,
        {
            let c = kids[i];
            {
                let t = &mut self.tasks[c];
                t.parent = Some(ip);
            }
            {
                let t = &mut self.tasks[ip];
                t.children.push(c);
            }
            proof {
                assert(kids@.take(i as int + 1) =~= kids@.take(i as int).push(kids@[i as int]));
                assert forall|t: int|
                    0 <= t < n && t != ip as int && !kids@.take(i as int + 1).contains(
                        t as usize,
                    ) implies #[trigger] self.tasks@[t] == g[t] by {
                    if kids@.take(i as int).contains(t as usize) {
                        let j = choose|j: int|
                            0 <= j < kids@.take(i as int).len() && kids@.take(i as int)[j] == (
                            t as usize);
                        assert(kids@.take(i as int + 1)[j] == t as usize);
                    }
                    if t == kids@[i as int] as int {
                        assert(kids@.take(i as int + 1)[i as int] == t as usize);
                    }
                };
            }
            i = i + 1;
        }
        proof {
            assert(kids@.take(kids@.len() as int) =~= kids@);
        }
        {
            let t = &mut self.tasks[cur];
            t.children = Vec::new();
            t.memory_set.recycle_data_pages();
        }
        proof {
            let cq = self.manager.ready_queue@;
            assert forall|t: int|
                0 <= t < n && t != cur as int implies (#[trigger] self.tasks@[t]).task_status
                == g[t].task_status && self.tasks@[t].wf() by {
                if t == ip as int {
                } else if kids@.contains(t as usize) {
                    let j = choose|j: int| 0 <= j < kids@.len() && kids@[j] == t as usize;
                    assert(same_but_parent(self.tasks@[t], g[t]));
                } else {
                    assert(self.tasks@[t] == g[t]);
                }
            };
            assert forall|t: int|
                0 <= t < n implies ((#[trigger] self.tasks@[t]).task_status == TaskStatus::Running
                <==> self.current == Some(t as usize)) by {
                if t != cur as int {
                    assert(g[t].task_status == old(self).tasks@[t].task_status);
                    assert(old(self).tasks@[t].task_status == TaskStatus::Running <==> old(
                        self,
                    ).current == Some(t as usize));
                }
            };
            assert forall|i2: int|
                0 <= i2 < cq.len() implies (((#[trigger] cq[i2]).tid as int) < n
                && self.tasks@[cq[i2].tid as int].task_status == TaskStatus::Ready) by {
                assert(old(self).tasks@[cq[i2].tid as int].task_status == TaskStatus::Ready);
                assert(cq[i2].tid != cur);
            };
            assert forall|t: int, c2: int|
                0 <= t < n && 0 <= c2 < self.tasks@[t].children@.len() implies ((
            #[trigger] self.tasks@[t].children@[c2]) as int) < n && self.tasks@[t].children@[c2]
                != ip && (self.tasks@[t].children@[c2] as int) != t by {
                if t == ip as int {
                    if c2 < g[ip as int].children@.len() {
                        assert(self.tasks@[t].children@[c2] == g[ip as int].children@[c2]);
                        assert(g[ip as int].children@[c2] == old(
                            self,
                        ).tasks@[ip as int].children@[c2]);
                    } else {
                        assert(self.tasks@[t].children@[c2] == kids@[c2 - g[
                            ip as int].children@.len()]);
                    }
                } else if t == cur as int {
                } else if kids@.contains(t as usize) {
                    assert(same_but_parent(self.tasks@[t], g[t]));
                    assert(self.tasks@[t].children@ == old(self).tasks@[t].children@);
                } else {
                    assert(self.tasks@[t] == g[t]);
                }
            };
        }
    }

    /// Creates a child of the running task: a structural copy of the
    /// parent's address space and trap registers under a fresh pid (the
    /// next free slot of the task table), with default scheduling weights
    /// and a zero pass, recorded among the parent's children and inserted
    /// ready into the queue. Returns the child's pid.
    pub fn fork(&mut self, now_ms: usize) -> (child: usize)
        requires
            old(self).wf(),
            old(self).current is Some,
        ensures
            final(self).wf(),
            child as int == old(self).tasks@.len(),
            final(self).tasks@.len() == old(self).tasks@.len() + 1,
            final(self).current == old(self).current,
            final(self).initproc == old(self).initproc,
            ({
                let c = old(self).current.unwrap() as int;
                let ch = final(self).tasks@[child as int];
                &&& ch.task_status == TaskStatus::Ready
                &&& ch.task_priority == crate::task::DEFAULT_PRIORITY
                &&& ch.task_pass == 0
                &&& ch.memory_set.areas@ == old(self).tasks@[c].memory_set.areas@
                &&& ch.parent == Some(old(self).current.unwrap())
                &&& ch.children@.len() == 0
                &&& ch.exit_code == 0
                &&& ch.start_time == now_ms
                &&& ch.trap_cx.x@ == old(self).tasks@[c].trap_cx.x@
                &&& ch.trap_cx.sstatus == old(self).tasks@[c].trap_cx.sstatus
                &&& ch.trap_cx.sepc == old(self).tasks@[c].trap_cx.sepc
                &&& ch.trap_cx.kernel_satp == old(self).tasks@[c].trap_cx.kernel_satp
                &&& ch.trap_cx.kernel_sp == old(self).tasks@[c].trap_cx.kernel_sp
                &&& ch.trap_cx.trap_handler == old(self).tasks@[c].trap_cx.trap_handler
                &&& final(self).tasks@[c].children@ == old(self).tasks@[c].children@.push(child)
                &&& same_but_children(final(self).tasks@[c], old(self).tasks@[c])
                &&& (forall|t: int|
                    0 <= t < old(self).tasks@.len() && t != c ==> final(self).tasks@[t] == old(
                        self,
                    ).tasks@[t])
                &&& final(self).manager.ready_queue@ == old(self).manager.ready_queue@.insert(
                    insert_pos(old(self).manager.ready_queue@, 0),
                    (ReadyItem { task_pass: 0, tid: child }),
                )
            }),
    {
        let cur = self.current.unwrap();
        let child = self.tasks.len();
        let mut tcb = TaskControlBlock::new(now_ms);
        tcb.memory_set = self.tasks[cur].memory_set.duplicate();
        tcb.trap_cx = self.tasks[cur].trap_cx.duplicate();
        tcb.parent = Some(cur);
        self.tasks.push(tcb);
        {
            let t = &mut self.tasks[cur];
            t.children.push(child);
        }
        proof {
            let n1 = self.tasks@.len();
            assert(n1 == child + 1);
            assert forall|t: int|
                0 <= t < n1 implies (#[trigger] self.tasks@[t]).wf() && ((
            self.tasks@[t].task_status == TaskStatus::Running) <==> self.current == Some(
                t as usize,
            )) by {
                if t != cur as int && t != child as int {
                    assert(self.tasks@[t] == old(self).tasks@[t]);
                }
            };
            assert forall|t: int, c2: int|
                0 <= t < n1 && 0 <= c2 < self.tasks@[t].children@.len() implies ((
            #[trigger] self.tasks@[t].children@[c2]) as int) < n1 && self.tasks@[t].children@[c2]
                != self.initproc && (self.tasks@[t].children@[c2] as int) != t by {
                if t == cur as int {
                    if c2 < old(self).tasks@[cur as int].children@.len() {
                        assert(self.tasks@[t].children@[c2] == old(
                            self,
                        ).tasks@[cur as int].children@[c2]);
                    } else {
                        assert(self.tasks@[t].children@[c2] == child);
                    }
                } else if t != child as int {
                    assert(self.tasks@[t] == old(self).tasks@[t]);
                }
            };
            let q = self.manager.ready_queue@;
            assert forall|i: int|
                0 <= i < q.len() implies ((#[trigger] q[i]).tid as int) < n1
                && self.tasks@[q[i].tid as int].task_status == TaskStatus::Ready by {
                assert(old(self).tasks@[q[i].tid as int].task_status == TaskStatus::Ready);
                assert(q[i].tid != cur);
            };
            assert(!self.queued(child));
        }
        self.add_task(child);
        child
    }

    /// Looks for an exited child of the running task. With no children at
    /// all the answer is `NoChild`; with children but no zombie among
    /// them it is `NotYet`, and the caller suspends and retries. The
    /// first zombie child (in the order of the children list) is reaped:
    /// it is removed from the children and its pid and exit code are
    /// returned.
    #[verifier::loop_isolation(false)]
    pub fn wait(&mut self) -> (r: WaitResult)
        requires
            old(self).wf(),
            old(self).current is Some,
        ensures
            final(self).wf(),
            final(self).current == old(self).current,
            final(self).initproc == old(self).initproc,
            final(self).manager.ready_queue@ == old(self).manager.ready_queue@,
            final(self).tasks@.len() == old(self).tasks@.len(),
            ({
                let c = old(self).current.unwrap() as int;
                let kids = old(self).tasks@[c].children@;
                let fz = first_zombie(old(self).tasks@, kids);
                &&& (kids.len() == 0 ==> r == WaitResult::NoChild && final(self).tasks@ == old(
                    self,
                ).tasks@)
                &&& (kids.len() > 0 && fz == -1 ==> r == WaitResult::NotYet && final(self).tasks@
                    == old(self).tasks@)
                &&& (fz >= 0 ==> ({
                    let pid = kids[fz];
                    &&& r == (WaitResult::Reaped {
                        pid,
                        exit_code: old(self).tasks@[pid as int].exit_code,
                    })
                    &&& final(self).tasks@[c].children@ == kids.remove(fz)
                    &&& same_but_children(final(self).tasks@[c], old(self).tasks@[c])
                    &&& (forall|t: int|
                        0 <= t < old(self).tasks@.len() && t != c ==> final(self).tasks@[t]
                            == old(self).tasks@[t])
                }))
            }),
    {
        let cur = self.current.unwrap();
        let ghost kids = self.tasks@[cur as int].children@;
        let n = self.tasks.len();
        let m = self.tasks[cur].children.len();
        if m == 0 {
            return WaitResult::NoChild;
        }
        let mut i: usize = 0;
        while i < m
            invariant
                i <= m,
                self == old(self),
                forall|j: int|
                    0 <= j < i ==> self.tasks@[(#[trigger] kids[j]) as int].task_status
                        != TaskStatus::Zombie,
            decreases m - i,
        {
            let c2 = self.tasks[cur].children[i];
            if self.tasks[c2].task_status == TaskStatus::Zombie {
                proof {
                    lemma_first_zombie_found(self.tasks@, kids, i as int);
                }
                let t = &mut self.tasks[cur];
                let pid = t.children.remove(i);
                let code = self.tasks[pid].exit_code;
                proof {
                    kids.remove_ensures(i as int);
                    assert forall|t2: int, c3: int|
                        0 <= t2 < n && 0 <= c3 < self.tasks@[t2].children@.len() implies ((
                    #[trigger] self.tasks@[t2].children@[c3]) as int) < n
                        && self.tasks@[t2].children@[c3] != self.initproc && (
                    self.tasks@[t2].children@[c3] as int) != t2 by {
                        if t2 == cur as int {
                            if c3 < i {
                                assert(self.tasks@[t2].children@[c3] == kids[c3]);
                            } else {
                                assert(self.tasks@[t2].children@[c3] == kids[c3 + 1]);
                            }
                        } else {
                            assert(self.tasks@[t2] == old(self).tasks@[t2]);
                        }
                    };
                    let q = self.manager.ready_queue@;
                    assert forall|i2: int|
                        0 <= i2 < q.len() implies ((#[trigger] q[i2]).tid as int) < n
                        && self.tasks@[q[i2].tid as int].task_status == TaskStatus::Ready by {
                        assert(old(self).tasks@[q[i2].tid as int].task_status
                            == TaskStatus::Ready);
                    };
                    assert forall|t2: int|
                        0 <= t2 < n implies ((#[trigger] self.tasks@[t2]).task_status
                        == TaskStatus::Running <==> self.current == Some(t2 as usize)) by {
                        if t2 != cur as int {
                            assert(self.tasks@[t2] == old(self).tasks@[t2]);
                        }
                    };
                }
                return WaitResult::Reaped { pid, exit_code: code };
            }
            i = i + 1;
        }
        proof {
            lemma_first_zombie_none(self.tasks@, kids);
        }
        WaitResult::NotYet
    }
}

} // verus!
