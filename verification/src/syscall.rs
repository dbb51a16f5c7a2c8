//! The `write` system call's decision: what is done with the buffer and
//! what the application gets back.
use vstd::prelude::*;

verus! {

/// Number of the `write` system call.
pub const SYSCALL_WRITE: usize = 64;

/// A system call as the kernel understands it.
#[derive(Clone, Copy, PartialEq, Eq, Structural)]
pub enum SyscallRequest {
    /// `write(fd, buf, len)`.
    Write { fd: usize, buf: usize, len: usize },
    /// A call number the kernel does not serve.
    Unsupported { id: usize },
}

/// The request for system call `id` with arguments `arg0, arg1, arg2`.
pub fn decode_syscall(id: usize, arg0: usize, arg1: usize, arg2: usize) -> (r: SyscallRequest)
    ensures
        id == SYSCALL_WRITE ==> r == (SyscallRequest::Write { fd: arg0, buf: arg1, len: arg2 }),
        id != SYSCALL_WRITE ==> r == (SyscallRequest::Unsupported { id }),
{
    if id == SYSCALL_WRITE {
        SyscallRequest::Write { fd: arg0, buf: arg1, len: arg2 }
    } else {
        SyscallRequest::Unsupported { id }
    }
}

/// File descriptor of the console.
pub const FD_STDOUT: usize = 1;

/// What `write` does with the buffer.
#[derive(Clone, Copy, PartialEq, Eq, Structural)]
pub enum WriteOutcome {
    /// Print the buffer, as UTF-8 text, on the console.
    Stdout,
    /// Report that the descriptor is not supported and print nothing.
    UnsupportedFd,
}

/// `write(fd, buf, len)`: a buffer for the console is printed and its
/// length is returned; any other descriptor is refused with -1.
pub fn sys_write(fd: usize, len: usize) -> (r: (WriteOutcome, isize))
    ensures
        fd == FD_STDOUT ==> r == (WriteOutcome::Stdout, len as isize),
        fd != FD_STDOUT ==> r == (WriteOutcome::UnsupportedFd, -1isize),
{
    if fd == FD_STDOUT {
        (WriteOutcome::Stdout, len as isize)
    } else {
        (WriteOutcome::UnsupportedFd, -1)
    }
}

} // verus!
