//! Stream handles: the handle type, the three standard streams, and `fileno`.

use vstd::prelude::*;
use vstd::slice::slice_to_vec;
use crate::errno::{die, ErrorState, EINVAL, EOF};
use crate::mem::{low_byte, low_byte_of};
use crate::transfer::{Transfer, TransferState};

verus! {

/// The newline byte.
pub const NEWLINE: u8 = 10;

/// Raw handle of the standard input.
pub const STDIN_FILENO: i32 = 0;

/// Raw handle of the standard output.
pub const STDOUT_FILENO: i32 = 1;

/// Raw handle of the standard error output.
pub const STDERR_FILENO: i32 = 2;

/// `xenia::stdio::STDIN_FILENO`: the handle of the standard input, which is 0.
#[verifier::external_body]
fn raw_stdin() -> (fd: i32)
    ensures
        fd == STDIN_FILENO,
{
    xenia::stdio::STDIN_FILENO
}

/// `xenia::stdio::STDOUT_FILENO`: the handle of the standard output, which is 1.
#[verifier::external_body]
fn raw_stdout() -> (fd: i32)
    ensures
        fd == STDOUT_FILENO,
{
    xenia::stdio::STDOUT_FILENO
}

/// `xenia::stdio::STDERR_FILENO`: the handle of the standard error output, which
/// is 2.
#[verifier::external_body]
fn raw_stderr() -> (fd: i32)
    ensures
        fd == STDERR_FILENO,
{
    xenia::stdio::STDERR_FILENO
}

/// A stream: one raw handle of the operating system. Nothing about the handle is
/// checked; whether it is open is the caller's business.
#[allow(non_camel_case_types)]
#[derive(Clone, Copy, Debug)]
pub struct FILE {
    fd: i32,
}

impl View for FILE {
    type V = i32;

    closed spec fn view(&self) -> i32 {
        self.fd
    }
}

impl FILE {
    /// The stream of the raw handle `fd`.
    pub fn new(fd: i32) -> (stream: FILE)
        ensures
            stream@ == fd,
    {
        FILE { fd }
    }

    /// The raw handle, for use in a write.
    pub fn as_fd(&self) -> (fd: i32)
        ensures
            fd == self@,
    {
        self.fd
    }
}

/// The three standard streams of a process. Each may be pointed at another
/// handle at any time; nothing here synchronises such a change.
pub struct Streams {
    pub stdin: FILE,
    pub stdout: FILE,
    pub stderr: FILE,
}

impl Streams {
    /// The streams as they are bound at process start: input, output and error
    /// output on the handles 0, 1 and 2.
    pub fn new() -> (streams: Streams)
        ensures
            streams.stdin@ == STDIN_FILENO,
            streams.stdout@ == STDOUT_FILENO,
            streams.stderr@ == STDERR_FILENO,
    {
        Streams {
            stdin: FILE::new(raw_stdin()),
            stdout: FILE::new(raw_stdout()),
            stderr: FILE::new(raw_stderr()),
        }
    }
}

/// The raw handle of a stream. A missing stream sets the error state to `EINVAL`
/// and gives `EOF`; otherwise the handle comes back as it is stored and the error
/// state stays as it was.
pub fn fileno(stream: Option<&FILE>, errno: &mut ErrorState) -> (fd: i32)
    ensures
        stream is None ==> fd == EOF && final(errno)@ == EINVAL,
        stream is Some ==> fd == stream->Some_0@ && final(errno)@ == old(errno)@,
{
    match die(stream, errno) {
        Ok(file) => file.as_fd(),
        Err(eof) => eof,
    }
}

/// `puts`: the string and a newline, to the standard output. Without a string it
/// fails at once: the error state becomes `EINVAL`, the result is `EOF`, and no
/// transfer exists that could write a byte. With one it starts the transfer of
/// the string's bytes and then the newline, which returns 0 once both are
/// written; the error state stays as it was.
pub fn puts(s: Option<&[u8]>, streams: &Streams, errno: &mut ErrorState) -> (started: Result<
    Transfer,
    i32,
>)
    ensures
        s is None ==> started == Err::<Transfer, i32>(EOF) && final(errno)@ == EINVAL,
        s matches Some(text) ==> final(errno)@ == old(errno)@ && (started matches Ok(transfer)
            && transfer@.wf() && transfer@ == TransferState::fresh(
            streams.stdout@,
            seq![text@, seq![NEWLINE]],
            0,
        )),
{
    let text = match die(s, errno) {
        Ok(text) => text,
        Err(eof) => {
            return Err(eof);
        },
    };
    let mut newline: Vec<u8> = Vec::new();
    newline.push(NEWLINE);
    let mut chunks: Vec<Vec<u8>> = Vec::new();
    chunks.push(slice_to_vec(text));
    chunks.push(newline);
    assert(crate::transfer::views(chunks@) =~= seq![text@, seq![NEWLINE]]);
    Ok(Transfer::new(streams.stdout.as_fd(), chunks, 0))
}

/// `putchar`: the low byte of `c`, to the standard output. Starts the transfer
/// of that one byte, which returns 0 once it is written.
pub fn putchar(c: i32, streams: &Streams) -> (started: Transfer)
    ensures
        started@.wf(),
        started@ == TransferState::fresh(streams.stdout@, seq![seq![low_byte(c)]], 0),
{
    let mut byte: Vec<u8> = Vec::new();
    byte.push(low_byte_of(c));
    let mut chunks: Vec<Vec<u8>> = Vec::new();
    chunks.push(byte);
    assert(crate::transfer::views(chunks@) =~= seq![seq![low_byte(c)]]);
    Transfer::new(streams.stdout.as_fd(), chunks, 0)
}

} // verus!
