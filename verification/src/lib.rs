//! Process and task core of a small RISC-V teaching kernel: a stride
//! scheduler with an ordered ready queue, a parent/child process tree with
//! zombie reaping and re-parenting to the init process, a per-task virtual
//! memory area manager, and the trap context carried across the user/kernel
//! boundary.

use vstd::prelude::*;

pub mod kernel;
pub mod logging;
pub mod manager;
pub mod memory_set;
pub mod task;
pub mod trap_context;

verus! {

/// Size of one page of virtual memory, in bytes.
pub const PAGE_SIZE: usize = 4096;

/// Numerator of the stride computation: a task's stride is
/// `BIG_STRIDE / priority`, so higher priority means a smaller stride and
/// more frequent scheduling.
pub const BIG_STRIDE: usize = 0x10000000;

/// Number of distinct syscall ids tracked by the per-task counters.
pub const MAX_SYSCALL_NUM: usize = 500;

/// Copies the contents of a vector of plain values.
pub fn copy_vec<T: Copy>(v: &Vec<T>) -> (r: Vec<T>)
    ensures
        r@ == v@,
{
    let mut r: Vec<T> = Vec::new();
    let mut i: usize = 0;
    while i < v.len()
        invariant
            i <= v@.len(),
            r@ == v@.take(i as int),
        decreases v@.len() - i,
    {
        r.push(v[i]);
        proof {
            assert(r@ =~= v@.take(i as int + 1));
        }
        i = i + 1;
    }
    proof {
        assert(r@ =~= v@);
    }
    r
}

} // verus!
