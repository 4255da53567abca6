//! The register snapshot carried across every user/kernel transition.
//!
//! A `TrapContext` is written on each trap entry and read back on the return
//! to user mode. Besides the 32 general-purpose registers it keeps the saved
//! privileged status, the faulting/return program counter, and the three
//! values the trap entry path needs to re-enter the kernel: the kernel page
//! table token, the kernel stack pointer, and the trap handler's address.

use vstd::prelude::*;

verus! {

/// The previous-privilege bit of the `sstatus` register: clear means the
/// trap came from (and returns to) user mode.
pub const SSTATUS_SPP: usize = 0x100;

/// Register and status snapshot saved on a trap from user mode.
pub struct TrapContext {
    /// General-purpose registers x0 to x31; x2 is the stack pointer.
    pub x: Vec<usize>,
    /// Saved privileged status register.
    pub sstatus: usize,
    /// Saved program counter: where user execution resumes.
    pub sepc: usize,
    /// Page table token of the kernel address space.
    pub kernel_satp: usize,
    /// Kernel stack pointer of the owning task.
    pub kernel_sp: usize,
    /// Address of the trap handler entry point in the kernel.
    pub trap_handler: usize,
}

impl TrapContext {
    /// The register file always holds exactly 32 slots.
    pub open spec fn wf(self) -> bool {
        self.x@.len() == 32
    }

    /// Sets the saved stack pointer register (x2).
    pub fn set_sp(&mut self, sp: usize)
        requires
            old(self).wf(),
        ensures
            final(self).wf(),
            final(self).x@ == old(self).x@.update(2, sp),
            final(self).sstatus == old(self).sstatus,
            final(self).sepc == old(self).sepc,
            final(self).kernel_satp == old(self).kernel_satp,
            final(self).kernel_sp == old(self).kernel_sp,
            final(self).trap_handler == old(self).trap_handler,
    {
        self.x.set(2, sp);
    }

    /// An all-zero trap context, as carried by a task that has not yet
    /// entered user mode through it.
    pub fn zeroed() -> (cx: Self)
        ensures
            cx.wf(),
            cx.x@ == Seq::new(32, |i: int| 0usize),
            cx.sstatus == 0,
            cx.sepc == 0,
            cx.kernel_satp == 0,
            cx.kernel_sp == 0,
            cx.trap_handler == 0,
    {
        let mut x: Vec<usize> = Vec::new();
        while x.len() < 32
            invariant
                x@.len() <= 32,
                x@ == Seq::new(x@.len(), |i: int| 0usize),
            decreases 32 - x@.len(),
        {
            x.push(0);
            proof {
                assert(x@ =~= Seq::new(x@.len(), |i: int| 0usize));
            }
        }
        proof {
            assert(x@ =~= Seq::new(32, |i: int| 0usize));
        }
        TrapContext { x, sstatus: 0, sepc: 0, kernel_satp: 0, kernel_sp: 0, trap_handler: 0 }
    }

    /// A register-for-register copy of this trap frame, as `fork` gives
    /// the child.
    pub fn duplicate(&self) -> (cx: Self)
        ensures
            cx.x@ == self.x@,
            cx.sstatus == self.sstatus,
            cx.sepc == self.sepc,
            cx.kernel_satp == self.kernel_satp,
            cx.kernel_sp == self.kernel_sp,
            cx.trap_handler == self.trap_handler,
    {
        TrapContext {
            x: crate::copy_vec(&self.x),
            sstatus: self.sstatus,
            sepc: self.sepc,
            kernel_satp: self.kernel_satp,
            kernel_sp: self.kernel_sp,
            trap_handler: self.trap_handler,
        }
    }

    /// Builds the initial trap frame for a freshly created task.
    ///
    /// `sstatus` is the machine's current privileged-status value, read by
    /// the caller; its previous-privilege bit is forced clear so that the
    /// eventual return-from-trap lands in user mode at `entry` with the
    /// user stack pointer `sp`.
    pub fn app_init_context(
        entry: usize,
        sp: usize,
        kernel_satp: usize,
        kernel_sp: usize,
        trap_handler: usize,
        sstatus: usize,
    ) -> (cx: Self)
        ensures
            cx.wf(),
            cx.sstatus == sstatus & !SSTATUS_SPP,
            cx.sepc == entry,
            cx.kernel_satp == kernel_satp,
            cx.kernel_sp == kernel_sp,
            cx.trap_handler == trap_handler,
            cx.x@ == Seq::new(32, |i: int| 0usize).update(2, sp),
    {
        let mut cx = Self::zeroed();
        cx.sstatus = sstatus & !SSTATUS_SPP;
        cx.sepc = entry;
        cx.kernel_satp = kernel_satp;
        cx.kernel_sp = kernel_sp;
        cx.trap_handler = trap_handler;
        cx.set_sp(sp);
        cx
    }
}

} // verus!
