//! The write-all loop as a decision: from what one write call reported to what
//! happens next. The caller performs the calls; everything else is decided here.

use vstd::prelude::*;
use crate::errno::{errno_intr, errno_io, EINTR, EIO};

verus! {

/// What one write call on the unwritten rest of a buffer reported.
#[derive(Clone, Copy, Debug, PartialEq, Eq, Structural)]
pub enum WriteOutcome {
    /// The call took this many bytes from the front of what it was given.
    Wrote(usize),
    /// The call failed with this code.
    Failed(i32),
}

/// What follows in a write-all.
#[derive(Clone, Copy, Debug, PartialEq, Eq, Structural)]
pub enum WriteStep {
    /// Issue one write call for the bytes from this offset to the end.
    Write(usize),
    /// The whole buffer is written; this is its length.
    Done(usize),
    /// The write-all failed with this code.
    Failed(i32),
}

/// Where a write-all of `len` bytes stands once `written` of them are out.
pub open spec fn resume_at(len: usize, written: usize) -> WriteStep {
    if written >= len {
        WriteStep::Done(len)
    } else {
        WriteStep::Write(written)
    }
}

/// The step after a write call for the bytes from `written` on came back with
/// `outcome`: no byte taken is a failure with `EIO`; bytes taken move the offset;
/// an interruption asks for the same call again; any other failure ends it.
pub open spec fn next_step(len: usize, written: usize, outcome: WriteOutcome) -> WriteStep {
    match outcome {
        WriteOutcome::Wrote(n) => if n == 0 {
            WriteStep::Failed(EIO)
        } else {
            resume_at(len, (written + n) as usize)
        },
        WriteOutcome::Failed(code) => if code == EINTR {
            WriteStep::Write(written)
        } else {
            WriteStep::Failed(code)
        },
    }
}

/// Whether `outcome` can be the answer to a write call for the bytes from
/// `written` on: bytes were left to write, and no more were taken than given.
pub open spec fn answers(len: usize, written: usize, outcome: WriteOutcome) -> bool {
    &&& written < len
    &&& outcome matches WriteOutcome::Wrote(n) ==> n <= len - written
}

/// The first step of a write-all of `len` bytes: an empty buffer is done without
/// any call, any other starts at offset 0.
pub fn write_all_begin(len: usize) -> (step: WriteStep)
    ensures
        step == resume_at(len, 0),
{
    if len == 0 {
        WriteStep::Done(len)
    } else {
        WriteStep::Write(0)
    }
}

/// One turn of the write-all loop: the step that follows `outcome`. Success is
/// never partial: `Done` carries the full length and comes only when the last
/// byte is out.
pub fn write_all(len: usize, written: usize, outcome: WriteOutcome) -> (step: WriteStep)
    requires
        answers(len, written, outcome),
    ensures
        step == next_step(len, written, outcome),
        step matches WriteStep::Done(n) ==> n == len && outcome == WriteOutcome::Wrote(
            (len - written) as usize,
        ),
        step matches WriteStep::Write(at) ==> written <= at < len,
{
    match outcome {
        WriteOutcome::Wrote(n) => {
            if n == 0 {
                WriteStep::Failed(errno_io())
            } else if n == len - written {
                WriteStep::Done(len)
            } else {
                WriteStep::Write(written + n)
            }
        },
        WriteOutcome::Failed(code) => {
            if code == errno_intr() {
                WriteStep::Write(written)
            } else {
                WriteStep::Failed(code)
            }
        },
    }
}

/// Where a write-all stands after the calls it issued were answered by
/// `outcomes`, in order, starting with `written` bytes out. Outcomes that come
/// after it has ended are never asked for and change nothing.
pub open spec fn replay(len: usize, written: usize, outcomes: Seq<WriteOutcome>) -> WriteStep
    decreases outcomes.len(),
{
    if written >= len {
        WriteStep::Done(len)
    } else if outcomes.len() == 0 {
        WriteStep::Write(written)
    } else if !answers(len, written, outcomes[0]) {
        WriteStep::Write(written)
    } else {
        match next_step(len, written, outcomes[0]) {
            WriteStep::Write(at) => replay(len, at, outcomes.skip(1)),
            ended => ended,
        }
    }
}

/// `outcomes` without its interruptions.
pub open spec fn without_interruptions(outcomes: Seq<WriteOutcome>) -> Seq<WriteOutcome>
    decreases outcomes.len(),
{
    if outcomes.len() == 0 {
        outcomes
    } else if outcomes[0] == WriteOutcome::Failed(EINTR) {
        without_interruptions(outcomes.skip(1))
    } else {
        seq![outcomes[0]] + without_interruptions(outcomes.skip(1))
    }
}

/// `count` interruptions in a row.
pub open spec fn interruptions(count: nat) -> Seq<WriteOutcome> {
    Seq::new(count, |i: int| WriteOutcome::Failed(EINTR))
}

/// Retries are invisible: a write-all ends as it would have ended had none of
/// its calls been interrupted.
pub proof fn lemma_interruptions_invisible(len: usize, written: usize, outcomes: Seq<WriteOutcome>)
    ensures
        replay(len, written, outcomes) == replay(len, written, without_interruptions(outcomes)),
    decreases outcomes.len(),
{
    if written >= len || outcomes.len() == 0 {
    } else if outcomes[0] == WriteOutcome::Failed(EINTR) {
        lemma_interruptions_invisible(len, written, outcomes.skip(1));
    } else {
        let kept = without_interruptions(outcomes);
        assert(kept[0] == outcomes[0]);
        assert(kept.skip(1) =~= without_interruptions(outcomes.skip(1)));
        if answers(len, written, outcomes[0]) {
            match next_step(len, written, outcomes[0]) {
                WriteStep::Write(at) => {
                    lemma_interruptions_invisible(len, at, outcomes.skip(1));
                },
                _ => {},
            }
        }
    }
}

/// A destination that interrupts any number of calls and then takes all that is
/// left in one call: the write-all succeeds with the full length.
pub proof fn lemma_interrupted_then_written(len: usize, written: usize, count: nat)
    requires
        written <= len,
    ensures
        replay(
            len,
            written,
            interruptions(count).push(WriteOutcome::Wrote((len - written) as usize)),
        ) == WriteStep::Done(len),
    decreases count,
{
    let last = WriteOutcome::Wrote((len - written) as usize);
    let outcomes = interruptions(count).push(last);
    if written < len {
        if count == 0 {
            assert(outcomes[0] == last);
            assert(next_step(len, written, last) == WriteStep::Done(len));
        } else {
            assert(outcomes[0] == WriteOutcome::Failed(EINTR));
            assert(outcomes.skip(1) =~= interruptions((count - 1) as nat).push(last));
            lemma_interrupted_then_written(len, written, (count - 1) as nat);
        }
    }
}

/// Success is never partial: however the calls were answered, a write-all that
/// is done reports the full length.
pub proof fn lemma_done_is_complete(len: usize, written: usize, outcomes: Seq<WriteOutcome>)
    ensures
        replay(len, written, outcomes) matches WriteStep::Done(n) ==> n == len,
        replay(len, written, outcomes) matches WriteStep::Write(at) ==> written <= at < len,
    decreases outcomes.len(),
{
    if written < len && outcomes.len() > 0 && answers(len, written, outcomes[0]) {
        match next_step(len, written, outcomes[0]) {
            WriteStep::Write(at) => {
                lemma_done_is_complete(len, at, outcomes.skip(1));
            },
            _ => {},
        }
    }
}

} // verus!
