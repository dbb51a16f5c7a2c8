//! What the kernel does when a trap comes in from an application.
//!
//! The handler is split into decisions and outside work: `trap_handler`
//! looks at the saved registers and the cause, updates the registers and
//! says what has to happen next; the caller performs the system call or
//! switches to the next application, and hands a system call's result back
//! through `finish_syscall`.
use vstd::prelude::*;

verus! {

/// Index of register `a0` in the saved registers: first argument and
/// return value of a system call.
pub const REG_A0: usize = 10;

/// Index of register `a1`.
pub const REG_A1: usize = 11;

/// Index of register `a2`.
pub const REG_A2: usize = 12;

/// Index of register `a7`: the system call number.
pub const REG_A7: usize = 17;

/// The registers of an application saved on a trap, in the order the trap
/// entry saves them: the 32 general registers, the `sstatus` bits and the
/// program counter of the trapping instruction.
pub struct TrapContext {
    pub x: [usize; 32],
    pub sstatus: usize,
    pub sepc: usize,
}

/// Why the application trapped.
#[derive(Clone, Copy, PartialEq, Eq, Structural)]
pub enum TrapCause {
    /// An `ecall` from user mode.
    UserEnvCall,
    /// A store access fault.
    StoreFault,
    /// A store page fault.
    StorePageFault,
    /// An illegal instruction.
    IllegalInstruction,
    /// Any other exception or an interrupt.
    Unsupported,
}

/// What has to happen after the registers have been updated.
#[derive(Clone, Copy, PartialEq, Eq, Structural)]
pub enum TrapAction {
    /// Perform system call `id` with arguments `[arg0, arg1, arg2]`, then
    /// give its result to `finish_syscall` and return to the application.
    Syscall { id: usize, arg0: usize, arg1: usize, arg2: usize },
    /// The application hit a page fault: drop it and run the next one.
    PageFault,
    /// The application ran an illegal instruction: drop it and run the next one.
    IllegalInstruction,
    /// A trap the kernel does not handle: stop the kernel.
    Unsupported,
}

/// The action for a trap with `cause` from an application whose registers are `x`.
pub open spec fn trap_action(x: Seq<usize>, cause: TrapCause) -> TrapAction {
    match cause {
        TrapCause::UserEnvCall => TrapAction::Syscall {
            id: x[REG_A7 as int],
            arg0: x[REG_A0 as int],
            arg1: x[REG_A1 as int],
            arg2: x[REG_A2 as int],
        },
        TrapCause::StoreFault | TrapCause::StorePageFault => TrapAction::PageFault,
        TrapCause::IllegalInstruction => TrapAction::IllegalInstruction,
        TrapCause::Unsupported => TrapAction::Unsupported,
    }
}

/// The program counter at which the application resumes after a trap
/// with `cause` taken at `sepc`: past the `ecall` for a system call.
pub open spec fn resume_pc(sepc: usize, cause: TrapCause) -> int {
    if cause == TrapCause::UserEnvCall {
        sepc + 4
    } else {
        sepc as int
    }
}

/// The registers `x` with a system call's result `ret` in `a0`.
pub open spec fn with_result(x: Seq<usize>, ret: isize) -> Seq<usize> {
    x.update(REG_A0 as int, ret as usize)
}

/// Handles a trap: for a system call the program counter moves past the
/// `ecall`, and the call with number `a7` and arguments `a0, a1, a2` is
/// asked for; store faults and illegal instructions end the application;
/// any other trap is unsupported. Only a system call changes the context.
pub fn trap_handler(ctx: &mut TrapContext, cause: TrapCause) -> (act: TrapAction)
    requires
        cause == TrapCause::UserEnvCall ==> old(ctx).sepc + 4 <= usize::MAX,
    ensures
        act == trap_action(old(ctx).x@, cause),
        final(ctx).x@ == old(ctx).x@,
        final(ctx).sstatus == old(ctx).sstatus,
        final(ctx).sepc == resume_pc(old(ctx).sepc, cause),
{
    match cause {
        TrapCause::UserEnvCall => {
            ctx.sepc += 4;
            TrapAction::Syscall {
                id: ctx.x[REG_A7],
                arg0: ctx.x[REG_A0],
                arg1: ctx.x[REG_A1],
                arg2: ctx.x[REG_A2],
            }
        },
        TrapCause::StoreFault | TrapCause::StorePageFault => TrapAction::PageFault,
        TrapCause::IllegalInstruction => TrapAction::IllegalInstruction,
        TrapCause::Unsupported => TrapAction::Unsupported,
    }
}

/// Stores a system call's result in `a0`, where the application reads it.
pub fn finish_syscall(ctx: &mut TrapContext, ret: isize)
    ensures
        final(ctx).x@ == with_result(old(ctx).x@, ret),
        final(ctx).sstatus == old(ctx).sstatus,
        final(ctx).sepc == old(ctx).sepc,
{
    ctx.x[REG_A0] = ret as usize;
}

/// A system call returns to the instruction after the `ecall` with its
/// result in `a0`, every other register as the application left it, and
/// the call that was made is the one named by `a7` with `a0, a1, a2`.
pub proof fn law_syscall_round_trip(x: Seq<usize>, sepc: usize, ret: isize)
    requires
        x.len() == 32,
    ensures
        resume_pc(sepc, TrapCause::UserEnvCall) == sepc + 4,
        trap_action(x, TrapCause::UserEnvCall) == (TrapAction::Syscall {
            id: x[REG_A7 as int],
            arg0: x[REG_A0 as int],
            arg1: x[REG_A1 as int],
            arg2: x[REG_A2 as int],
        }),
        with_result(x, ret)[REG_A0 as int] == ret as usize,
        forall|i: int| 0 <= i < 32 && i != REG_A0 ==> #[trigger] with_result(x, ret)[i] == x[i],
        with_result(x, ret).len() == 32,
{
}

/// Store faults and store page faults end the application as a page
/// fault, an illegal instruction ends it as such, anything else stops the
/// kernel; none of them moves the program counter.
pub proof fn law_fault_outcomes(x: Seq<usize>, sepc: usize, cause: TrapCause)
    requires
        cause != TrapCause::UserEnvCall,
    ensures
        resume_pc(sepc, cause) == sepc,
        (cause == TrapCause::StoreFault || cause == TrapCause::StorePageFault) <==> trap_action(x, cause)
            == TrapAction::PageFault,
        cause == TrapCause::IllegalInstruction <==> trap_action(x, cause)
            == TrapAction::IllegalInstruction,
        cause == TrapCause::Unsupported <==> trap_action(x, cause) == TrapAction::Unsupported,
{
}

} // verus!
