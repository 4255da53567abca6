//! The ready queue of the stride scheduler.
//!
//! The queue holds one entry per ready task — the task's id and the pass
//! value read from it when it was enqueued — and keeps the entries in
//! ascending pass order. A task is inserted by a linear scan in front of
//! the first entry whose pass strictly exceeds its own, so equal passes
//! keep their arrival order; the front of the queue is always a task with
//! the smallest pass.

use vstd::prelude::*;

verus! {

/// One ready task: its id and the pass value it was enqueued with.
#[derive(Clone, Copy, PartialEq, Eq, Structural, Debug)]
pub struct ReadyItem {
    /// Accumulated pass of the task when it was enqueued.
    pub task_pass: usize,
    /// Identity of the task in the kernel's task table.
    pub tid: usize,
}

/// The scheduler's ready queue.
pub struct TaskManager {
    /// The queued tasks, in ascending order of `task_pass`.
    pub ready_queue: Vec<ReadyItem>,
}

/// The queue's ordering invariant: passes never decrease along the queue.
pub open spec fn sorted_by_pass(s: Seq<ReadyItem>) -> bool {
    forall|i: int, j: int| 0 <= i < j < s.len() ==> s[i].task_pass <= s[j].task_pass
}

/// Where `add` inserts a task with pass `pass`: directly in front of the
/// first entry whose pass strictly exceeds it.
pub open spec fn insert_pos(s: Seq<ReadyItem>, pass: usize) -> int
    decreases s.len(),
{
    if s.len() == 0 {
        0
    } else if s[0].task_pass > pass {
        0
    } else {
        1 + insert_pos(s.drop_first(), pass)
    }
}

/// The insertion position lies within the queue, everything in front of it
/// has a pass at or below the inserted one, and the entry at it (if any)
/// has a strictly larger pass.
pub proof fn lemma_insert_pos_bounds(s: Seq<ReadyItem>, pass: usize)
    ensures
        0 <= insert_pos(s, pass) <= s.len(),
        forall|j: int| 0 <= j < insert_pos(s, pass) ==> s[j].task_pass <= pass,
        insert_pos(s, pass) < s.len() ==> s[insert_pos(s, pass)].task_pass > pass,
    decreases s.len(),
{
    if s.len() > 0 && !(s[0].task_pass > pass) {
        lemma_insert_pos_bounds(s.drop_first(), pass);
        assert forall|j: int| 0 <= j < insert_pos(s, pass) implies s[j].task_pass <= pass by {
            if j > 0 {
                assert(s.drop_first()[j - 1] == s[j]);
            }
        };
        if insert_pos(s, pass) < s.len() {
            assert(s.drop_first()[insert_pos(s.drop_first(), pass)] == s[insert_pos(s, pass)]);
        }
    }
}

/// A scan that passed over entries at or below `pass` and stopped at the
/// first larger one (or the end) stopped exactly at the insertion position.
proof fn lemma_insert_pos_is_first(s: Seq<ReadyItem>, pass: usize, t: int)
    requires
        0 <= t <= s.len(),
        forall|j: int| 0 <= j < t ==> s[j].task_pass <= pass,
        t < s.len() ==> s[t].task_pass > pass,
    ensures
        insert_pos(s, pass) == t,
    decreases s.len(),
{
    if s.len() > 0 {
        if t == 0 {
        } else {
            assert(s[0].task_pass <= pass);
            assert(forall|j: int|
                0 <= j < t - 1 ==> #[trigger] s.drop_first()[j] == s[j + 1]);
            lemma_insert_pos_is_first(s.drop_first(), pass, t - 1);
        }
    }
}

/// Inserting at the insertion position keeps the queue sorted: after any
/// `add` into a queue sorted by ascending pass, the queue is still sorted.
pub proof fn lemma_add_keeps_sorted(s: Seq<ReadyItem>, pass: usize, tid: usize)
    requires
        sorted_by_pass(s),
    ensures
        sorted_by_pass(s.insert(insert_pos(s, pass), (ReadyItem { task_pass: pass, tid }))),
{
    let p = insert_pos(s, pass);
    lemma_insert_pos_bounds(s, pass);
    let t = s.insert(p, ReadyItem { task_pass: pass, tid });
    assert forall|i: int, j: int| 0 <= i < j < t.len() implies t[i].task_pass
        <= t[j].task_pass by {
        if i < p && j < p {
        } else if i == p || j == p {
            if j > p {
                assert(t[j] == s[j - 1]);
                assert(s[j - 1].task_pass >= s[p].task_pass);
            }
        } else if i > p && j > p {
            assert(t[i] == s[i - 1]);
            assert(t[j] == s[j - 1]);
        } else {
            assert(t[i] == s[i]);
            assert(t[j] == s[j - 1]);
            if p < s.len() {
                assert(s[j - 1].task_pass >= s[p].task_pass);
            }
        }
    };
}

impl TaskManager {
    /// An empty ready queue.
    pub fn new() -> (m: Self)
        ensures
            m.ready_queue@ == Seq::<ReadyItem>::empty(),
    {
        TaskManager { ready_queue: Vec::new() }
    }

    /// Enqueues a ready task under its current pass value.
    ///
    /// The task goes in front of the first entry whose pass strictly
    /// exceeds `pass`, so the queue stays sorted and equal passes keep
    /// their arrival order.
    pub fn add(&mut self, tid: usize, pass: usize)
        ensures
            final(self).ready_queue@ == old(self).ready_queue@.insert(
                insert_pos(old(self).ready_queue@, pass),
                (ReadyItem { task_pass: pass, tid }),
            ),
            sorted_by_pass(old(self).ready_queue@) ==> sorted_by_pass(final(self).ready_queue@),
    {
        let ghost q0 = self.ready_queue@;
        let item = ReadyItem { task_pass: pass, tid };
        let len = self.ready_queue.len();
        let mut t: usize = 0;
        while t < len
            invariant
                old(self).ready_queue@ == q0,
                self.ready_queue@ == q0,
                len == q0.len(),
                t <= len,
                item == (ReadyItem { task_pass: pass, tid }),
                forall|j: int| 0 <= j < t ==> q0[j].task_pass <= pass,
            decreases len - t,
        {
            if self.ready_queue[t].task_pass > pass {
                proof {
                    lemma_insert_pos_is_first(q0, pass, t as int);
                    if sorted_by_pass(q0) {
                        lemma_add_keeps_sorted(q0, pass, tid);
                    }
                }
                self.ready_queue.insert(t, item);
                return ;
            }
            t = t + 1;
        }
        proof {
            lemma_insert_pos_is_first(q0, pass, q0.len() as int);
            if sorted_by_pass(q0) {
                lemma_add_keeps_sorted(q0, pass, tid);
            }
            assert(q0.insert(q0.len() as int, item) =~= q0.push(item));
        }
        self.ready_queue.push(item);
    }

    /// Dequeues the front of the queue — a task with the smallest pass —
    /// or reports that no task is ready. An empty queue is left untouched.
    pub fn fetch(&mut self) -> (r: Option<usize>)
        ensures
            old(self).ready_queue@.len() == 0 ==> r is None && final(self).ready_queue@ == old(
                self,
            ).ready_queue@,
            old(self).ready_queue@.len() > 0 ==> r == Some(old(self).ready_queue@[0].tid)
                && final(self).ready_queue@ == old(self).ready_queue@.drop_first(),
            sorted_by_pass(old(self).ready_queue@) ==> sorted_by_pass(final(self).ready_queue@),
    {
        if self.ready_queue.len() == 0 {
            None
        } else {
            let item = self.ready_queue.remove(0);
            proof {
                assert(self.ready_queue@ =~= old(self).ready_queue@.drop_first());
            }
            Some(item.tid)
        }
    }
}

} // verus!
