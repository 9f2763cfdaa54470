//! Decision logic of a small freestanding C runtime.

pub mod errno;
pub mod format;
pub mod mem;
pub mod number;
pub mod startup;
pub mod stdio;
pub mod transfer;
pub mod write;
