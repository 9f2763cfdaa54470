//! The format interpreter: what a format string and its arguments render to,
//! and the engine behind the `printf` family.

use vstd::prelude::*;
use vstd::arithmetic::div_mod::lemma_add_mod_noop;
use vstd::slice::slice_to_vec;
use crate::errno::{die, ErrorState, EINVAL, EOF};
use crate::number::{decimal, format_signed, format_unsigned};
use crate::stdio::{Streams, FILE};
use crate::transfer::{lemma_completed, views, Request, Status, Transfer, TransferState};

verus! {

/// The byte `%`, which opens a directive.
pub const PERCENT: u8 = 37;

/// The kind of argument a directive takes.
#[derive(Clone, Copy, Debug, PartialEq, Eq, Structural)]
pub enum Kind {
    /// `%d` and `%i`: a signed integer.
    Signed,
    /// `%u`: an unsigned integer.
    Unsigned,
    /// `%s`: a string, copied as it is.
    Text,
    /// `%f`: a double-width floating-point value.
    Double,
}

/// One argument of a format call.
#[derive(Debug)]
pub enum Arg {
    /// A signed integer, for `%d` and `%i`.
    Int(i32),
    /// An unsigned integer, for `%u`.
    Uint(u32),
    /// The bytes of a string up to its terminator, for `%s`.
    Str(Vec<u8>),
    /// A floating-point value, for `%f`, held as its shortest decimal text that
    /// reads back as the same value.
    Double(Vec<u8>),
}

impl Arg {
    /// The kind of directive this argument answers.
    pub open spec fn kind(self) -> Kind {
        match self {
            Arg::Int(_) => Kind::Signed,
            Arg::Uint(_) => Kind::Unsigned,
            Arg::Str(_) => Kind::Text,
            Arg::Double(_) => Kind::Double,
        }
    }

    /// The bytes this argument renders to.
    pub open spec fn text(self) -> Seq<u8> {
        match self {
            Arg::Int(value) => decimal(value as int),
            Arg::Uint(value) => decimal(value as int),
            Arg::Str(bytes) => bytes@,
            Arg::Double(digits) => digits@,
        }
    }

    /// Renders the argument.
    pub fn render(&self) -> (text: Vec<u8>)
        ensures
            text@ == self.text(),
    {
        match self {
            Arg::Int(value) => format_signed(*value),
            Arg::Uint(value) => format_unsigned(*value),
            Arg::Str(bytes) => slice_to_vec(bytes.as_slice()),
            Arg::Double(digits) => slice_to_vec(digits.as_slice()),
        }
    }

    /// Tells the kind of directive this argument answers.
    pub fn classify(&self) -> (kind: Kind)
        ensures
            kind == self.kind(),
    {
        match self {
            Arg::Int(_) => Kind::Signed,
            Arg::Uint(_) => Kind::Unsigned,
            Arg::Str(_) => Kind::Text,
            Arg::Double(_) => Kind::Double,
        }
    }
}

/// The kind that a byte after `%` asks for: `d` and `i`, `u`, `s` and `f` are
/// specifiers, no other byte is.
pub open spec fn specifier(byte: u8) -> Option<Kind> {
    if byte == 100 || byte == 105 {
        Some(Kind::Signed)
    } else if byte == 117 {
        Some(Kind::Unsigned)
    } else if byte == 115 {
        Some(Kind::Text)
    } else if byte == 102 {
        Some(Kind::Double)
    } else {
        None
    }
}

/// The directive at the front of `format`, if there is one: a `%` followed by a
/// specifier. A `%` before any other byte, or at the very end, is no directive.
pub open spec fn directive(format: Seq<u8>) -> Option<Kind> {
    if format.len() >= 2 && format[0] == PERCENT {
        specifier(format[1])
    } else {
        None
    }
}

/// Whether `args` are the arguments `format` asks for: each directive finds, in
/// order, an argument of its kind. Arguments left over are ignored.
pub open spec fn fits(format: Seq<u8>, args: Seq<Arg>) -> bool
    decreases format.len(),
{
    if format.len() == 0 {
        true
    } else {
        match directive(format) {
            Some(kind) => args.len() > 0 && args[0].kind() == kind && fits(
                format.skip(2),
                args.skip(1),
            ),
            None => fits(format.skip(1), args),
        }
    }
}

/// The chunks that `format` with `args` is written in, one write-all each: the
/// text of its argument for each directive, and a single byte for every other
/// byte, a `%` that opens no directive among them.
pub open spec fn chunks(format: Seq<u8>, args: Seq<Arg>) -> Seq<Seq<u8>>
    decreases format.len(),
{
    if format.len() == 0 {
        Seq::empty()
    } else if directive(format) is Some {
        seq![args[0].text()] + chunks(format.skip(2), args.skip(1))
    } else {
        seq![seq![format[0]]] + chunks(format.skip(1), args)
    }
}

/// The bytes that `format` with `args` renders to.
pub open spec fn rendered(format: Seq<u8>, args: Seq<Arg>) -> Seq<u8>
    decreases format.len(),
{
    if format.len() == 0 {
        Seq::empty()
    } else if directive(format) is Some {
        args[0].text() + rendered(format.skip(2), args.skip(1))
    } else {
        seq![format[0]] + rendered(format.skip(1), args)
    }
}

/// A byte count as the signed result of a format call: the count where it fits,
/// else its low 32 bits read as a signed number.
pub open spec fn count_as_int(total: nat) -> i32 {
    let low = total % 0x1_0000_0000;
    if low < 0x8000_0000 {
        low as i32
    } else {
        (low - 0x1_0000_0000) as i32
    }
}

/// The chunks of a format, laid end to end, are what it renders to.
pub proof fn lemma_chunks_render(format: Seq<u8>, args: Seq<Arg>)
    ensures
        chunks(format, args).flatten() == rendered(format, args),
    decreases format.len(),
{
    if format.len() == 0 {
        assert(chunks(format, args).flatten() =~= rendered(format, args));
    } else if directive(format) is Some {
        let rest = chunks(format.skip(2), args.skip(1));
        lemma_chunks_render(format.skip(2), args.skip(1));
        assert((seq![args[0].text()] + rest).drop_first() =~= rest);
    } else {
        let rest = chunks(format.skip(1), args);
        lemma_chunks_render(format.skip(1), args);
        assert((seq![seq![format[0]]] + rest).drop_first() =~= rest);
    }
}

/// Tells whether a byte after `%` is a specifier, and of which kind.
pub fn specifier_of(byte: u8) -> (kind: Option<Kind>)
    ensures
        kind == specifier(byte),
{
    if byte == 100 || byte == 105 {
        Some(Kind::Signed)
    } else if byte == 117 {
        Some(Kind::Unsigned)
    } else if byte == 115 {
        Some(Kind::Text)
    } else if byte == 102 {
        Some(Kind::Double)
    } else {
        None
    }
}

/// Tells whether the directive at `pos` in `format` is one, and of which kind.
fn directive_at(format: &[u8], pos: usize) -> (kind: Option<Kind>)
    requires
        pos < format.len(),
    ensures
        kind == directive(format@.skip(pos as int)),
{
    if format[pos] == PERCENT && pos + 1 < format.len() {
        specifier_of(format[pos + 1])
    } else {
        None
    }
}

/// Tells whether `args` are the arguments that `format` asks for.
pub fn check_arguments(format: &[u8], args: &[Arg]) -> (ok: bool)
    ensures
        ok == fits(format@, args@),
{
    let mut pos: usize = 0;
    let mut next: usize = 0;
    assert(format@.skip(0) =~= format@);
    assert(args@.skip(0) =~= args@);
    while pos < format.len()
        invariant
            pos <= format.len(),
            next <= args.len(),
            fits(format@, args@) == fits(format@.skip(pos as int), args@.skip(next as int)),
        decreases format.len() - pos,
    {
        let ghost front = format@.skip(pos as int);
        let ghost left = args@.skip(next as int);
        match directive_at(format, pos) {
            Some(kind) => {
                if next >= args.len() {
                    return false;
                }
                if args[next].classify() != kind {
                    return false;
                }
                assert(front.skip(2) =~= format@.skip(pos + 2));
                assert(left.skip(1) =~= args@.skip(next + 1));
                pos += 2;
                next += 1;
            },
            None => {
                assert(front.skip(1) =~= format@.skip(pos + 1));
                pos += 1;
            },
        }
    }
    true
}

/// The number of bytes in `chunks`, as the signed result of a format call.
pub fn count_bytes(chunks: &Vec<Vec<u8>>) -> (count: i32)
    ensures
        count == count_as_int(views(chunks@).flatten().len()),
{
    let mut low: u64 = 0;
    let mut i: usize = 0;
    assert(views(chunks@).take(0) =~= Seq::<Seq<u8>>::empty());
    while i < chunks.len()
        invariant
            i <= chunks.len(),
            low == views(chunks@).take(i as int).flatten().len() % 0x1_0000_0000,
        decreases chunks.len() - i,
    {
        let len = chunks[i].len() as u64;
        proof {
            let done = views(chunks@).take(i as int);
            assert(views(chunks@).take(i + 1) =~= done.push(chunks@[i as int]@));
            done.lemma_flatten_push(chunks@[i as int]@);
            lemma_add_mod_noop(done.flatten().len() as int, len as int, 0x1_0000_0000);
        }
        low = (low + len % 0x1_0000_0000) % 0x1_0000_0000;
        i += 1;
    }
    assert(views(chunks@).take(chunks.len() as int) =~= views(chunks@));
    if low < 0x8000_0000 {
        low as i32
    } else {
        (low as i64 - 0x1_0000_0000) as i32
    }
}

/// The engine of the `printf` family. Without a format it fails at once: the
/// error state becomes `EINVAL` and the result is `EOF`. With one it starts the
/// transfer of what the format renders to, chunk by chunk, to `stream`; once
/// every chunk is written the transfer returns the number of bytes, as a signed
/// integer. The error state stays as it was.
pub fn printf_internal(
    stream: &FILE,
    format: Option<&[u8]>,
    args: &[Arg],
    errno: &mut ErrorState,
) -> (started: Result<Transfer, i32>)
    requires
        format matches Some(text) ==> fits(text@, args@),
    ensures
        format is None ==> started == Err::<Transfer, i32>(EOF) && final(errno)@ == EINVAL,
        format matches Some(text) ==> final(errno)@ == old(errno)@ && (started matches Ok(transfer)
            && transfer@.wf() && transfer@ == TransferState::fresh(
            stream@,
            chunks(text@, args@),
            count_as_int(rendered(text@, args@).len()),
        )),
{
    let text = match die(format, errno) {
        Ok(text) => text,
        Err(eof) => {
            return Err(eof);
        },
    };
    let mut out: Vec<Vec<u8>> = Vec::new();
    let mut pos: usize = 0;
    let mut next: usize = 0;
    assert(text@.skip(0) =~= text@);
    assert(args@.skip(0) =~= args@);
    assert(views(out@) + chunks(text@, args@) =~= chunks(text@, args@));
    while pos < text.len()
        invariant
            pos <= text.len(),
            next <= args.len(),
            fits(text@.skip(pos as int), args@.skip(next as int)),
            views(out@) + chunks(text@.skip(pos as int), args@.skip(next as int)) == chunks(
                text@,
                args@,
            ),
        decreases text.len() - pos,
    {
        let ghost front = text@.skip(pos as int);
        let ghost left = args@.skip(next as int);
        let ghost before = views(out@);
        match directive_at(text, pos) {
            Some(_) => {
                let piece = args[next].render();
                out.push(piece);
                assert(front.skip(2) =~= text@.skip(pos + 2));
                assert(left.skip(1) =~= args@.skip(next + 1));
                assert(views(out@) =~= before.push(left[0].text()));
                assert(views(out@) + chunks(front.skip(2), left.skip(1)) =~= before + chunks(
                    front,
                    left,
                ));
                pos += 2;
                next += 1;
            },
            None => {
                let mut piece: Vec<u8> = Vec::new();
                piece.push(text[pos]);
                out.push(piece);
                assert(front.skip(1) =~= text@.skip(pos + 1));
                assert(piece@ =~= seq![front[0]]);
                assert(views(out@) =~= before.push(seq![front[0]]));
                assert(views(out@) + chunks(front.skip(1), left) =~= before + chunks(front, left));
                pos += 1;
            },
        }
    }
    proof {
        assert(views(out@) =~= chunks(text@, args@));
        lemma_chunks_render(text@, args@);
    }
    let success = count_bytes(&out);
    Ok(Transfer::new(stream.as_fd(), out, success))
}

/// `printf`: formats to the standard output.
pub fn printf(streams: &Streams, format: Option<&[u8]>, args: &[Arg], errno: &mut ErrorState) -> (started:
    Result<Transfer, i32>)
    requires
        format matches Some(text) ==> fits(text@, args@),
    ensures
        format is None ==> started == Err::<Transfer, i32>(EOF) && final(errno)@ == EINVAL,
        format matches Some(text) ==> final(errno)@ == old(errno)@ && (started matches Ok(transfer)
            && transfer@.wf() && transfer@ == TransferState::fresh(
            streams.stdout@,
            chunks(text@, args@),
            count_as_int(rendered(text@, args@).len()),
        )),
{
    printf_internal(&streams.stdout, format, args, errno)
}

/// `vprintf`: formats to the standard output, from arguments that the caller
/// has collected already.
pub fn vprintf(streams: &Streams, format: Option<&[u8]>, args: &[Arg], errno: &mut ErrorState) -> (started:
    Result<Transfer, i32>)
    requires
        format matches Some(text) ==> fits(text@, args@),
    ensures
        format is None ==> started == Err::<Transfer, i32>(EOF) && final(errno)@ == EINVAL,
        format matches Some(text) ==> final(errno)@ == old(errno)@ && (started matches Ok(transfer)
            && transfer@.wf() && transfer@ == TransferState::fresh(
            streams.stdout@,
            chunks(text@, args@),
            count_as_int(rendered(text@, args@).len()),
        )),
{
    printf_internal(&streams.stdout, format, args, errno)
}

/// `fprintf`: formats to the given stream.
pub fn fprintf(stream: &FILE, format: Option<&[u8]>, args: &[Arg], errno: &mut ErrorState) -> (started:
    Result<Transfer, i32>)
    requires
        format matches Some(text) ==> fits(text@, args@),
    ensures
        format is None ==> started == Err::<Transfer, i32>(EOF) && final(errno)@ == EINVAL,
        format matches Some(text) ==> final(errno)@ == old(errno)@ && (started matches Ok(transfer)
            && transfer@.wf() && transfer@ == TransferState::fresh(
            stream@,
            chunks(text@, args@),
            count_as_int(rendered(text@, args@).len()),
        )),
{
    printf_internal(stream, format, args, errno)
}

/// `vfprintf`: formats to the given stream, from arguments that the caller has
/// collected already.
pub fn vfprintf(stream: &FILE, format: Option<&[u8]>, args: &[Arg], errno: &mut ErrorState) -> (started:
    Result<Transfer, i32>)
    requires
        format matches Some(text) ==> fits(text@, args@),
    ensures
        format is None ==> started == Err::<Transfer, i32>(EOF) && final(errno)@ == EINVAL,
        format matches Some(text) ==> final(errno)@ == old(errno)@ && (started matches Ok(transfer)
            && transfer@.wf() && transfer@ == TransferState::fresh(
            stream@,
            chunks(text@, args@),
            count_as_int(rendered(text@, args@).len()),
        )),
{
    printf_internal(stream, format, args, errno)
}

/// A format without `%` asks for no argument and renders to itself.
pub proof fn lemma_plain_format(format: Seq<u8>, args: Seq<Arg>)
    requires
        forall|i: int| 0 <= i < format.len() ==> format[i] != PERCENT,
    ensures
        fits(format, args),
        rendered(format, args) == format,
    decreases format.len(),
{
    if format.len() > 0 {
        lemma_plain_format(format.skip(1), args);
        assert(seq![format[0]] + format.skip(1) =~= format);
    }
}

/// Writing a format without `%`: once the transfer that the engine started for
/// it is completed, exactly the format's bytes are on the stream, and the value
/// returned is their number. The number must fit the signed result.
pub proof fn lemma_plain_format_written(format: Seq<u8>, args: Seq<Arg>, done: TransferState)
    requires
        forall|i: int| 0 <= i < format.len() ==> format[i] != PERCENT,
        format.len() <= i32::MAX,
        done.wf(),
        done.status == Status::Completed,
        done.chunks == chunks(format, args),
        done.success == count_as_int(rendered(format, args).len()),
    ensures
        done.delivered() == format,
        done.request() == Request::Return(format.len() as i32),
{
    lemma_plain_format(format, args);
    lemma_chunks_render(format, args);
    lemma_completed(done);
}

/// A `%` before a byte that is no specifier is written as it is, takes no
/// argument, and the byte after it is read as if it stood alone: it is copied,
/// or, being a `%` itself, may open a directive.
pub proof fn lemma_unrecognized(byte: u8, rest: Seq<u8>, args: Seq<Arg>)
    requires
        specifier(byte) is None,
    ensures
        rendered(seq![PERCENT, byte] + rest, args) == seq![PERCENT] + rendered(
            seq![byte] + rest,
            args,
        ),
        chunks(seq![PERCENT, byte] + rest, args) == seq![seq![PERCENT]] + chunks(
            seq![byte] + rest,
            args,
        ),
        fits(seq![PERCENT, byte] + rest, args) == fits(seq![byte] + rest, args),
{
    let format = seq![PERCENT, byte] + rest;
    assert(format.skip(1) =~= seq![byte] + rest);
    assert(format[1] == byte);
}

/// A `%` that ends the format is written as it is.
pub proof fn lemma_trailing_percent(args: Seq<Arg>)
    ensures
        rendered(seq![PERCENT], args) == seq![PERCENT],
        fits(seq![PERCENT], args),
{
    let format = seq![PERCENT];
    assert(format.skip(1) =~= Seq::<u8>::empty());
    assert(rendered(format.skip(1), args) =~= Seq::<u8>::empty());
    assert(fits(format.skip(1), args));
    assert(rendered(format, args) =~= seq![PERCENT]);
}

} // verus!
