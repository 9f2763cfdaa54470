//! Process bootstrap and process end: what the first code of a process does with
//! the stack the loader hands it, and how the process ends where it cannot go on.

use vstd::prelude::*;

verus! {

/// Exit status of a process that was started without a stack.
pub const NO_STACK: i32 = 1;

/// How a process is ended. Neither way returns to the code that asked for it.
#[derive(Clone, Copy, Debug, PartialEq, Eq, Structural)]
pub enum Halt {
    /// End all threads, with this status for the operating system to see.
    Exit(i32),
    /// End abnormally, at once and without a status of the program's choosing.
    Abort,
}

/// What the bootstrap does once it has looked at the initial stack.
#[derive(Clone, Copy, Debug, PartialEq, Eq, Structural)]
pub enum Boot {
    /// End the process at once in this way; the program is not run.
    Halt(Halt),
    /// Call the program's entry function with this argument count, with the
    /// argument vector and the environment vector at these distances from the
    /// stack pointer, counted in machine words, and end the process with the
    /// value it returns.
    Run { argc: i32, argv: i64, envp: i64 },
}

/// A machine word read as a C `int`: its low 32 bits, as a signed number.
pub open spec fn word_as_int(word: usize) -> i32 {
    let low = word as int % 0x1_0000_0000;
    if low < 0x8000_0000 {
        low as i32
    } else {
        (low - 0x1_0000_0000) as i32
    }
}

/// The layout of the initial stack whose first word is `word`: the argument
/// count is that word; the argument vector starts one word on; the environment
/// vector starts after the arguments and the null that ends them.
pub open spec fn layout(word: usize) -> Boot {
    Boot::Run { argc: word_as_int(word), argv: 1, envp: (word_as_int(word) + 2) as i64 }
}

/// Decides what the bootstrap does. `stack` is the first word at the initial
/// stack pointer, or `None` where that pointer is null: then the process ends
/// with `NO_STACK` and nothing is read. Otherwise the program runs on the
/// layout that the word gives.
pub fn entry(stack: Option<usize>) -> (boot: Boot)
    ensures
        stack is None ==> boot == Boot::Halt(Halt::Exit(NO_STACK)),
        stack matches Some(word) ==> boot == layout(word),
{
    match stack {
        None => Boot::Halt(Halt::Exit(NO_STACK)),
        Some(word) => {
            let low: u64 = word as u64 % 0x1_0000_0000;
            let argc: i32 = if low < 0x8000_0000 {
                low as i32
            } else {
                (low as i64 - 0x1_0000_0000) as i32
            };
            Boot::Run { argc, argv: 1, envp: argc as i64 + 2 }
        },
    }
}

/// What the runtime does when code inside it panics: the process is aborted.
/// Nothing is unwound and nothing is reported, for there is nobody to report to.
pub fn panic() -> (halt: Halt)
    ensures
        halt == Halt::Abort,
{
    Halt::Abort
}

} // verus!
