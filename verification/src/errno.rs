//! The per-thread error state, the error codes the runtime reports, and the two
//! short-circuit rules every entry point shares.

use vstd::prelude::*;

verus! {

/// The value every failing operation returns.
pub const EOF: i32 = -1;

/// Code of a call that was interrupted before it transferred anything.
pub const EINTR: i32 = 4;

/// Code of a general input/output failure.
pub const EIO: i32 = 5;

/// Code of an invalid argument, such as a null pointer where a value is required.
pub const EINVAL: i32 = 22;

/// `xenia::Errno::INTR`, read through `xenia::Errno::raw_os_error`: the kernel's
/// number for an interrupted call, which is 4.
#[verifier::external_body]
pub(crate) fn errno_intr() -> (code: i32)
    ensures
        code == EINTR,
{
    xenia::Errno::INTR.raw_os_error()
}

/// `xenia::Errno::IO`, read through `xenia::Errno::raw_os_error`: the kernel's
/// number for an input/output error, which is 5.
#[verifier::external_body]
pub(crate) fn errno_io() -> (code: i32)
    ensures
        code == EIO,
{
    xenia::Errno::IO.raw_os_error()
}

/// `xenia::Errno::INVAL`, read through `xenia::Errno::raw_os_error`: the kernel's
/// number for an invalid argument, which is 22.
#[verifier::external_body]
pub(crate) fn errno_inval() -> (code: i32)
    ensures
        code == EINVAL,
{
    xenia::Errno::INVAL.raw_os_error()
}

/// The error state of one thread: the code of the failure reported last.
///
/// Every thread owns its own value. An operation changes only the state it is
/// handed, so no call on one thread can touch the state of another.
pub struct ErrorState {
    code: i32,
}

impl View for ErrorState {
    type V = i32;

    closed spec fn view(&self) -> i32 {
        self.code
    }
}

impl ErrorState {
    /// The state at thread start: zero.
    pub fn new() -> (state: ErrorState)
        ensures
            state@ == 0,
    {
        ErrorState { code: 0 }
    }

    /// The stored code.
    pub fn get(&self) -> (code: i32)
        ensures
            code == self@,
    {
        self.code
    }

    /// Stores `code` as it is; no value is rejected.
    pub fn set(&mut self, code: i32)
        ensures
            final(self)@ == code,
    {
        self.code = code;
    }

    /// The place where the code is kept, for callers that read and write it
    /// directly. What is written there is the state afterwards.
    pub fn location(&mut self) -> (place: &mut i32)
        ensures
            *place == old(self)@,
            final(self)@ == *final(place),
    {
        &mut self.code
    }
}

/// The null check of every entry point: a missing argument sets the error state
/// to `EINVAL` and yields `EOF`; a present one is handed on and the state stays.
pub fn die<T>(arg: Option<T>, errno: &mut ErrorState) -> (checked: Result<T, i32>)
    ensures
        arg is None ==> checked == Err::<T, i32>(EOF) && final(errno)@ == EINVAL,
        arg is Some ==> checked == Ok::<T, i32>(arg->Some_0) && final(errno)@ == old(errno)@,
{
    match arg {
        Some(value) => Ok(value),
        None => {
            errno.set(errno_inval());
            Err(EOF)
        },
    }
}

/// The failure rule of every write: a failed result stores its code in the error
/// state and yields `EOF`; a successful one is handed on and the state stays.
pub fn try_io(result: Result<usize, i32>, errno: &mut ErrorState) -> (checked: Result<usize, i32>)
    ensures
        result is Ok ==> checked == result && final(errno)@ == old(errno)@,
        result is Err ==> checked == Err::<usize, i32>(EOF) && final(errno)@ == result->Err_0,
{
    match result {
        Ok(count) => Ok(count),
        Err(code) => {
            errno.set(code);
            Err(EOF)
        },
    }
}

} // verus!
