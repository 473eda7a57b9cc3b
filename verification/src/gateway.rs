//! The syscall gateway: the fixed register-based calling convention.
//!
//! A trap carries an opcode register and five argument registers.  The
//! gateway's job is purely positional: place the opcode and each argument in
//! its designated register, issue the trap, and hand back the kernel's
//! result word unmodified.  One entry point exists per arity because the
//! trap itself is untyped and the argument count must be known at the call
//! site.

use vstd::prelude::*;

use crate::machine::Machine;
use crate::syscall::Syscall;
use crate::kernel::kernel_step;
use crate::kernel::lemma_kernel_step_wf;

verus! {

/// The register bank a trap carries: the opcode register `a7` and the
/// argument registers `a0` through `a4`, in their fixed positional order.
pub struct Frame {
    pub a7: isize,
    pub a0: isize,
    pub a1: isize,
    pub a2: isize,
    pub a3: isize,
    pub a4: isize,
}

/// Mathematical model of a register bank.
#[verifier::ext_equal]
pub ghost struct FrameModel {
    pub a7: int,
    pub a0: int,
    pub a1: int,
    pub a2: int,
    pub a3: int,
    pub a4: int,
}

impl View for Frame {
    type V = FrameModel;

    open spec fn view(&self) -> FrameModel {
        FrameModel {
            a7: self.a7 as int,
            a0: self.a0 as int,
            a1: self.a1 as int,
            a2: self.a2 as int,
            a3: self.a3 as int,
            a4: self.a4 as int,
        }
    }
}

/// The register bank for opcode `n` with arguments placed positionally;
/// unused argument registers hold zero.
pub open spec fn frame_for(n: Syscall, a0: int, a1: int, a2: int, a3: int, a4: int) -> FrameModel {
    FrameModel { a7: n.code() as int, a0, a1, a2, a3, a4 }
}

/// Issue the trap: hand the register bank to the kernel and return its
/// result word unmodified.
pub fn invoke(m: &mut Machine, f: &Frame) -> (r: isize)
    requires
        old(m)@.wf(),
    ensures
        final(m)@.wf(),
        (final(m)@, r as int) == kernel_step(old(m)@, f@),
{
    proof {
        lemma_kernel_step_wf(old(m)@, f@);
    }
    m.handle(f)
}

/// Trap with no arguments.
pub fn syscall0(m: &mut Machine, n: Syscall) -> (r: isize)
    requires
        old(m)@.wf(),
    ensures
        final(m)@.wf(),
        (final(m)@, r as int) == kernel_step(old(m)@, frame_for(n, 0, 0, 0, 0, 0)),
{
    let f = Frame { a7: n.to_isize(), a0: 0, a1: 0, a2: 0, a3: 0, a4: 0 };
    invoke(m, &f)
}

/// Trap with one argument.
pub fn syscall1(m: &mut Machine, n: Syscall, arg1: isize) -> (r: isize)
    requires
        old(m)@.wf(),
    ensures
        final(m)@.wf(),
        (final(m)@, r as int) == kernel_step(old(m)@, frame_for(n, arg1 as int, 0, 0, 0, 0)),
{
    let f = Frame { a7: n.to_isize(), a0: arg1, a1: 0, a2: 0, a3: 0, a4: 0 };
    invoke(m, &f)
}

/// Trap with two arguments.
pub fn syscall2(m: &mut Machine, n: Syscall, arg1: isize, arg2: isize) -> (r: isize)
    requires
        old(m)@.wf(),
    ensures
        final(m)@.wf(),
        (final(m)@, r as int) == kernel_step(
            old(m)@,
            frame_for(n, arg1 as int, arg2 as int, 0, 0, 0),
        ),
{
    let f = Frame { a7: n.to_isize(), a0: arg1, a1: arg2, a2: 0, a3: 0, a4: 0 };
    invoke(m, &f)
}

/// Trap with three arguments.
pub fn syscall3(m: &mut Machine, n: Syscall, arg1: isize, arg2: isize, arg3: isize) -> (r: isize)
    requires
        old(m)@.wf(),
    ensures
        final(m)@.wf(),
        (final(m)@, r as int) == kernel_step(
            old(m)@,
            frame_for(n, arg1 as int, arg2 as int, arg3 as int, 0, 0),
        ),
{
    let f = Frame { a7: n.to_isize(), a0: arg1, a1: arg2, a2: arg3, a3: 0, a4: 0 };
    invoke(m, &f)
}

/// Trap with four arguments.
pub fn syscall4(
    m: &mut Machine,
    n: Syscall,
    arg1: isize,
    arg2: isize,
    arg3: isize,
    arg4: isize,
) -> (r: isize)
    requires
        old(m)@.wf(),
    ensures
        final(m)@.wf(),
        (final(m)@, r as int) == kernel_step(
            old(m)@,
            frame_for(n, arg1 as int, arg2 as int, arg3 as int, arg4 as int, 0),
        ),
{
    let f = Frame { a7: n.to_isize(), a0: arg1, a1: arg2, a2: arg3, a3: arg4, a4: 0 };
    invoke(m, &f)
}

/// Trap with five arguments.
pub fn syscall5(
    m: &mut Machine,
    n: Syscall,
    arg1: isize,
    arg2: isize,
    arg3: isize,
    arg4: isize,
    arg5: isize,
) -> (r: isize)
    requires
        old(m)@.wf(),
    ensures
        final(m)@.wf(),
        (final(m)@, r as int) == kernel_step(
            old(m)@,
            frame_for(n, arg1 as int, arg2 as int, arg3 as int, arg4 as int, arg5 as int),
        ),
{
    let f = Frame { a7: n.to_isize(), a0: arg1, a1: arg2, a2: arg3, a3: arg4, a4: arg5 };
    invoke(m, &f)
}

} // verus!
