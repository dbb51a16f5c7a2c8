use learn_os::console::{echo_for, Echo};
use learn_os::syscall::{decode_syscall, sys_write, SyscallRequest, WriteOutcome, FD_STDOUT, SYSCALL_WRITE};
use learn_os::trap::{finish_syscall, trap_handler, TrapAction, TrapCause, TrapContext};

fn context() -> TrapContext {
    let mut x = [0usize; 32];
    for (i, r) in x.iter_mut().enumerate() {
        *r = 100 + i;
    }
    TrapContext { x, sstatus: 0x120, sepc: 0x1000 }
}

#[test]
fn ecall_asks_for_the_system_call_and_skips_the_instruction() {
    let mut ctx = context();
    let act = trap_handler(&mut ctx, TrapCause::UserEnvCall);
    assert!(act == TrapAction::Syscall { id: 117, arg0: 110, arg1: 111, arg2: 112 });
    assert_eq!(ctx.sepc, 0x1004);
    assert_eq!(ctx.sstatus, 0x120);
    assert_eq!(ctx.x, context().x);
    finish_syscall(&mut ctx, -1);
    assert_eq!(ctx.x[10], usize::MAX);
    finish_syscall(&mut ctx, 5);
    assert_eq!(ctx.x[10], 5);
    assert_eq!(ctx.x[11], 111);
    assert_eq!(ctx.sepc, 0x1004);
}

#[test]
fn faults_end_the_application_without_touching_registers() {
    for (cause, action) in [
        (TrapCause::StoreFault, TrapAction::PageFault),
        (TrapCause::StorePageFault, TrapAction::PageFault),
        (TrapCause::IllegalInstruction, TrapAction::IllegalInstruction),
        (TrapCause::Unsupported, TrapAction::Unsupported),
    ] {
        let mut ctx = context();
        assert!(trap_handler(&mut ctx, cause) == action);
        assert_eq!(ctx.sepc, 0x1000);
        assert_eq!(ctx.x, context().x);
    }
    let mut ctx = context();
    ctx.sepc = usize::MAX;
    assert!(trap_handler(&mut ctx, TrapCause::StoreFault) == TrapAction::PageFault);
}

#[test]
fn write_to_stdout_returns_length() {
    assert_eq!(FD_STDOUT, 1);
    assert!(sys_write(1, 12) == (WriteOutcome::Stdout, 12));
    assert!(sys_write(1, 0) == (WriteOutcome::Stdout, 0));
}

#[test]
fn write_to_other_descriptors_fails() {
    assert!(sys_write(0, 12) == (WriteOutcome::UnsupportedFd, -1));
    assert!(sys_write(2, 3) == (WriteOutcome::UnsupportedFd, -1));
}

#[test]
fn console_echo() {
    assert!(echo_for(8) == Echo::EraseLast);
    assert!(echo_for(10) == Echo::NewLine);
    assert!(echo_for(13) == Echo::NewLine);
    assert!(echo_for(b'a') == Echo::Put(b'a'));
    assert!(echo_for(0) == Echo::Put(0));
}

#[test]
fn system_call_numbers() {
    assert_eq!(SYSCALL_WRITE, 64);
    assert!(decode_syscall(64, 1, 0x8040_0000, 12) == SyscallRequest::Write { fd: 1, buf: 0x8040_0000, len: 12 });
    assert!(decode_syscall(93, 0, 0, 0) == SyscallRequest::Unsupported { id: 93 });
    assert!(decode_syscall(0, 1, 2, 3) == SyscallRequest::Unsupported { id: 0 });
}
