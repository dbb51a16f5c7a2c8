//! Verified pieces of a small teaching kernel: a buddy-system unit
//! allocator, the Sv39 identity mapping of kernel regions, trap and system
//! call decisions, the console logger's level handling, and a few string
//! and cloning helpers.
use vstd::prelude::*;

pub mod buddy;
pub mod cloning;
pub mod console;
pub mod page;
pub mod kernel;
pub mod logger;
pub mod syscall;
pub mod text;
pub mod trap;
