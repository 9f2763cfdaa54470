//! A transfer: the chunks one call sends to a stream, one write-all each, and
//! the decisions between the write calls. The caller performs each call that is
//! asked for and reports what came back; a failure ends the transfer at once.

use vstd::prelude::*;
use vstd::seq_lib::lemma_flatten_concat;
use vstd::slice::slice_subrange;
use crate::errno::{try_io, ErrorState, EOF};
use crate::write::{answers, next_step, write_all, WriteOutcome, WriteStep};

verus! {

/// How far a transfer has come.
#[derive(Clone, Copy, Debug, PartialEq, Eq, Structural)]
pub enum Status {
    /// A write call is to be made.
    Running,
    /// Every chunk is written in full.
    Completed,
    /// A write call failed; what was written before it stays written.
    Failed,
}

/// What the caller of a transfer does next.
#[derive(Clone, Copy, Debug, PartialEq, Eq, Structural)]
pub enum Request {
    /// Make one write call on the stream, for the bytes of the chunk with this
    /// index from this offset to its end, and report the outcome.
    Write { chunk: usize, offset: usize },
    /// Return this value; the transfer is over.
    Return(i32),
}

/// The index of the first chunk at or after `from` that holds a byte, or the
/// number of chunks where there is none. An empty chunk needs no write call.
pub open spec fn first_pending(chunks: Seq<Seq<u8>>, from: nat) -> nat
    decreases chunks.len() - from,
{
    if from >= chunks.len() {
        chunks.len()
    } else if chunks[from as int].len() > 0 {
        from
    } else {
        first_pending(chunks, from + 1)
    }
}

/// The bytes of each chunk.
pub open spec fn views(chunks: Seq<Vec<u8>>) -> Seq<Seq<u8>> {
    chunks.map_values(|chunk: Vec<u8>| chunk@)
}

/// A transfer as a value: where it goes, what it sends, what it returns on
/// success, and how far it has come.
pub struct TransferState {
    /// Raw handle of the stream written to.
    pub fd: i32,
    /// The chunks, in the order in which they are sent.
    pub chunks: Seq<Seq<u8>>,
    /// The value returned once every chunk is written.
    pub success: i32,
    /// Index of the chunk being written; the chunks before it are written.
    pub chunk: nat,
    /// Number of bytes of that chunk that are written.
    pub offset: nat,
    /// Whether it is running, completed or failed.
    pub status: Status,
}

impl TransferState {
    /// The transfer with the chunks before `from` written and the next write at
    /// the first chunk from there on that holds a byte.
    pub open spec fn at(fd: i32, chunks: Seq<Seq<u8>>, success: i32, from: nat) -> TransferState {
        let chunk = first_pending(chunks, from);
        TransferState {
            fd,
            chunks,
            success,
            chunk,
            offset: 0,
            status: if chunk < chunks.len() {
                Status::Running
            } else {
                Status::Completed
            },
        }
    }

    /// The transfer before its first write call.
    pub open spec fn fresh(fd: i32, chunks: Seq<Seq<u8>>, success: i32) -> TransferState {
        TransferState::at(fd, chunks, success, 0)
    }

    /// Well-formedness: the position lies inside the chunks, on a byte that is
    /// not written yet unless the transfer is completed, and every length fits
    /// the machine.
    pub open spec fn wf(self) -> bool {
        &&& self.chunks.len() <= usize::MAX
        &&& forall|i: int| 0 <= i < self.chunks.len() ==> (#[trigger] self.chunks[i]).len() <= usize::MAX
        &&& self.status == Status::Completed ==> self.chunk == self.chunks.len() && self.offset == 0
        &&& self.status != Status::Completed ==> self.chunk < self.chunks.len() && self.offset
            < self.chunks[self.chunk as int].len()
    }

    /// Everything the transfer sends, in order.
    pub open spec fn total(self) -> Seq<u8> {
        self.chunks.flatten()
    }

    /// The bytes that are on the stream so far: the chunks written in full and
    /// the written part of the current one.
    pub open spec fn delivered(self) -> Seq<u8> {
        self.chunks.take(self.chunk as int).flatten() + if self.chunk < self.chunks.len() {
            self.chunks[self.chunk as int].take(self.offset as int)
        } else {
            Seq::<u8>::empty()
        }
    }

    /// What the caller does next.
    pub open spec fn request(self) -> Request {
        match self.status {
            Status::Running => Request::Write {
                chunk: self.chunk as usize,
                offset: self.offset as usize,
            },
            Status::Completed => Request::Return(self.success),
            Status::Failed => Request::Return(EOF),
        }
    }

    /// Length of the chunk being written.
    pub open spec fn chunk_len(self) -> usize {
        self.chunks[self.chunk as int].len() as usize
    }

    /// Whether `outcome` can be the answer to the write call asked for.
    pub open spec fn accepts(self, outcome: WriteOutcome) -> bool {
        &&& self.status == Status::Running
        &&& answers(self.chunk_len(), self.offset as usize, outcome)
    }

    /// The transfer after the write call asked for came back with `outcome`.
    pub open spec fn record(self, outcome: WriteOutcome) -> TransferState {
        match next_step(self.chunk_len(), self.offset as usize, outcome) {
            WriteStep::Write(at) => TransferState { offset: at as nat, ..self },
            WriteStep::Done(_) => TransferState::at(
                self.fd,
                self.chunks,
                self.success,
                self.chunk + 1,
            ),
            WriteStep::Failed(_) => TransferState { status: Status::Failed, ..self },
        }
    }

    /// The code that `outcome` leaves in an error state that held `before`: the
    /// code of the failure where the transfer fails, else `before`.
    pub open spec fn error_after(self, outcome: WriteOutcome, before: i32) -> i32 {
        match next_step(self.chunk_len(), self.offset as usize, outcome) {
            WriteStep::Failed(code) => code,
            _ => before,
        }
    }

    /// The bytes that `outcome` says went to the stream.
    pub open spec fn taken(self, outcome: WriteOutcome) -> Seq<u8> {
        match outcome {
            WriteOutcome::Wrote(n) => self.chunks[self.chunk as int].subrange(
                self.offset as int,
                self.offset + n,
            ),
            WriteOutcome::Failed(_) => Seq::<u8>::empty(),
        }
    }
}

/// Skipping empty chunks skips no byte: the chunks before the first pending one
/// hold what the chunks before `from` hold.
pub proof fn lemma_first_pending(chunks: Seq<Seq<u8>>, from: nat)
    requires
        from <= chunks.len(),
    ensures
        from <= first_pending(chunks, from) <= chunks.len(),
        first_pending(chunks, from) < chunks.len() ==> chunks[first_pending(chunks, from) as int].len()
            > 0,
        chunks.take(first_pending(chunks, from) as int).flatten() == chunks.take(
            from as int,
        ).flatten(),
    decreases chunks.len() - from,
{
    if from < chunks.len() && chunks[from as int].len() == 0 {
        lemma_first_pending(chunks, from + 1);
        assert(chunks.take(from as int + 1) =~= chunks.take(from as int).push(chunks[from as int]));
        chunks.take(from as int).lemma_flatten_push(chunks[from as int]);
    }
}

/// A fresh transfer is well formed and has delivered nothing.
pub proof fn lemma_fresh(fd: i32, chunks: Seq<Seq<u8>>, success: i32)
    requires
        chunks.len() <= usize::MAX,
        forall|i: int| 0 <= i < chunks.len() ==> (#[trigger] chunks[i]).len() <= usize::MAX,
    ensures
        TransferState::fresh(fd, chunks, success).wf(),
        TransferState::fresh(fd, chunks, success).delivered() == Seq::<u8>::empty(),
{
    lemma_first_pending(chunks, 0);
    assert(chunks.take(0) =~= Seq::<Seq<u8>>::empty());
    let state = TransferState::fresh(fd, chunks, success);
    if state.chunk < chunks.len() {
        assert(chunks[state.chunk as int].take(0) =~= Seq::<u8>::empty());
    }
    assert(state.delivered() =~= Seq::<u8>::empty());
}

/// Recording an outcome keeps a transfer well formed and adds to what is
/// delivered exactly the bytes that the outcome says were taken.
pub proof fn lemma_record(state: TransferState, outcome: WriteOutcome)
    requires
        state.wf(),
        state.accepts(outcome),
    ensures
        state.record(outcome).wf(),
        state.record(outcome).delivered() == state.delivered() + state.taken(outcome),
        state.record(outcome).chunks == state.chunks,
        state.record(outcome).fd == state.fd,
        state.record(outcome).success == state.success,
{
    let chunks = state.chunks;
    let current = chunks[state.chunk as int];
    let offset = state.offset as int;
    let after = state.record(outcome);
    match next_step(state.chunk_len(), state.offset as usize, outcome) {
        WriteStep::Write(at) => {
            match outcome {
                WriteOutcome::Wrote(n) => {
                    assert(current.take(offset + n) =~= current.take(offset) + current.subrange(
                        offset,
                        offset + n,
                    ));
                },
                WriteOutcome::Failed(_) => {},
            }
            assert(after.delivered() =~= state.delivered() + state.taken(outcome));
        },
        WriteStep::Done(_) => {
            let n = current.len() - offset;
            assert(outcome == WriteOutcome::Wrote(n as usize));
            lemma_first_pending(chunks, state.chunk + 1);
            assert(chunks.take(state.chunk as int + 1) =~= chunks.take(state.chunk as int).push(current));
            chunks.take(state.chunk as int).lemma_flatten_push(current);
            assert(current =~= current.take(offset) + current.subrange(offset, offset + n));
            if after.chunk < chunks.len() {
                assert(chunks[after.chunk as int].take(0) =~= Seq::<u8>::empty());
            }
            assert(after.delivered() =~= state.delivered() + state.taken(outcome));
        },
        WriteStep::Failed(_) => {
            assert(state.taken(outcome) =~= Seq::<u8>::empty());
            assert(after.delivered() =~= state.delivered() + state.taken(outcome));
        },
    }
}

/// What is on the stream is at every moment the front of what the transfer
/// sends: bytes go out in order, and none that went out is taken back.
pub proof fn lemma_delivered_in_order(state: TransferState)
    requires
        state.wf(),
    ensures
        state.delivered().is_prefix_of(state.total()),
{
    let chunks = state.chunks;
    let at = state.chunk as int;
    let before = chunks.take(at);
    let after = chunks.skip(at);
    assert(chunks =~= before + after);
    lemma_flatten_concat(before, after);
    if at < chunks.len() {
        assert(after.first() == chunks[at]);
        assert(after.flatten() =~= chunks[at] + after.drop_first().flatten());
        assert(state.delivered() =~= state.total().take(state.delivered().len() as int));
    } else {
        assert(after.flatten() =~= Seq::<u8>::empty());
        assert(state.delivered() =~= state.total());
    }
}

/// A completed transfer has delivered every byte it was made of.
pub proof fn lemma_completed(state: TransferState)
    requires
        state.wf(),
        state.status == Status::Completed,
    ensures
        state.delivered() == state.total(),
        state.request() == Request::Return(state.success),
{
    assert(state.chunks.take(state.chunks.len() as int) =~= state.chunks);
    assert(state.delivered() =~= state.total());
}

/// A transfer in progress.
pub struct Transfer {
    fd: i32,
    chunks: Vec<Vec<u8>>,
    success: i32,
    chunk: usize,
    offset: usize,
    status: Status,
}

impl View for Transfer {
    type V = TransferState;

    closed spec fn view(&self) -> TransferState {
        TransferState {
            fd: self.fd,
            chunks: views(self.chunks@),
            success: self.success,
            chunk: self.chunk as nat,
            offset: self.offset as nat,
            status: self.status,
        }
    }
}

/// The first chunk at or after `from` that holds a byte.
fn seek(chunks: &Vec<Vec<u8>>, from: usize) -> (at: usize)
    requires
        from <= chunks.len(),
    ensures
        at == first_pending(views(chunks@), from as nat),
{
    let mut at: usize = from;
    while at < chunks.len() && chunks[at].len() == 0
        invariant
            from <= at <= chunks.len(),
            first_pending(views(chunks@), at as nat) == first_pending(views(chunks@), from as nat),
        decreases chunks.len() - at,
    {
        at += 1;
    }
    at
}

impl Transfer {
    /// The transfer of `chunks` to the stream `fd` that returns `success` once
    /// all of them are written. Nothing is written yet; where no chunk holds a
    /// byte it is completed from the start.
    pub fn new(fd: i32, chunks: Vec<Vec<u8>>, success: i32) -> (transfer: Transfer)
        ensures
            transfer@ == TransferState::fresh(fd, views(chunks@), success),
            transfer@.wf(),
            transfer@.delivered() == Seq::<u8>::empty(),
    {
        let chunk = seek(&chunks, 0);
        let status = if chunk < chunks.len() {
            Status::Running
        } else {
            Status::Completed
        };
        proof {
            assert forall|i: int| 0 <= i < views(chunks@).len() implies (#[trigger] views(
                chunks@,
            )[i]).len() <= usize::MAX by {
                assert(views(chunks@)[i] == chunks@[i]@);
                assert(chunks@[i]@.len() == chunks@[i].len());
            }
            lemma_fresh(fd, views(chunks@), success);
        }
        Transfer { fd, chunks, success, chunk, offset: 0, status }
    }

    /// Raw handle of the stream written to.
    pub fn fd(&self) -> (fd: i32)
        ensures
            fd == self@.fd,
    {
        self.fd
    }

    /// How far the transfer has come.
    pub fn status(&self) -> (status: Status)
        ensures
            status == self@.status,
    {
        self.status
    }

    /// What the caller does next: the write call to make, or the value to
    /// return.
    pub fn request(&self) -> (request: Request)
        ensures
            request == self@.request(),
    {
        match self.status {
            Status::Running => Request::Write { chunk: self.chunk, offset: self.offset },
            Status::Completed => Request::Return(self.success),
            Status::Failed => Request::Return(EOF),
        }
    }

    /// The bytes to hand to the write call that is asked for: the unwritten
    /// rest of the current chunk, which is never empty.
    pub fn pending(&self) -> (bytes: &[u8])
        requires
            self@.wf(),
            self@.status == Status::Running,
        ensures
            bytes@ == self@.chunks[self@.chunk as int].skip(self@.offset as int),
            bytes@.len() > 0,
    {
        let current = &self.chunks[self.chunk];
        slice_subrange(current.as_slice(), self.offset, current.len())
    }

    /// Whether `outcome` can be recorded: a write call is asked for, and the
    /// outcome takes no more bytes than that call was given.
    pub fn accepts(&self, outcome: WriteOutcome) -> (accepted: bool)
        requires
            self@.wf(),
        ensures
            accepted == self@.accepts(outcome),
    {
        match self.status {
            Status::Running => match outcome {
                WriteOutcome::Wrote(n) => n <= self.chunks[self.chunk].len() - self.offset,
                WriteOutcome::Failed(_) => true,
            },
            _ => false,
        }
    }

    /// Records what the write call asked for came back with. Bytes taken move
    /// the position on, past any empty chunk, and the last byte completes the
    /// transfer; an interruption leaves it as it was; a failure ends it and
    /// stores the failure's code in the error state, which stays untouched
    /// otherwise. What is delivered grows by exactly the bytes taken.
    pub fn record(&mut self, outcome: WriteOutcome, errno: &mut ErrorState)
        requires
            old(self)@.wf(),
            old(self)@.accepts(outcome),
        ensures
            final(self)@ == old(self)@.record(outcome),
            final(self)@.wf(),
            final(self)@.delivered() == old(self)@.delivered() + old(self)@.taken(outcome),
            final(errno)@ == old(self)@.error_after(outcome, old(errno)@),
    {
        proof {
            lemma_record(self@, outcome);
        }
        let len = self.chunks[self.chunk].len();
        let ended = match write_all(len, self.offset, outcome) {
            WriteStep::Write(at) => {
                self.offset = at;
                return;
            },
            WriteStep::Done(count) => Ok(count),
            WriteStep::Failed(code) => Err(code),
        };
        match try_io(ended, errno) {
            Ok(_) => {
                let chunk = seek(&self.chunks, self.chunk + 1);
                self.chunk = chunk;
                self.offset = 0;
                if chunk >= self.chunks.len() {
                    self.status = Status::Completed;
                }
            },
            Err(_) => {
                self.status = Status::Failed;
            },
        }
    }
}

} // verus!
