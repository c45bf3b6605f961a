//! Finds the frames in a stream of bytes.
//!
//! The stream comes in pieces of any size; a frame ends with a newline. A frame
//! that is too long is read to its end and refused, and the next one is read.
use crate::plugin_api::ApiError;
use crate::plugin_api::ApiFault;
use crate::text::text_from_utf8;
use vstd::prelude::*;
use vstd::utf8::decode_utf8;
use vstd::utf8::encode_utf8;
use vstd::utf8::valid_utf8;

verus! {

/// The most bytes that a frame has, its newline among them.
pub const MAX_FRAME: usize = 2 * 1024 * 1024;

/// What was read of a frame. Of one that is too long, no more is kept than
/// shows that it is.
#[derive(Debug)]
pub struct FrameReader {
    line: Vec<u8>,
}

/// What a piece of the stream brought.
#[derive(Debug, PartialEq, Eq)]
pub enum Step {
    /// The frame goes on.
    More,
    /// The stream ended between two frames.
    End,
    /// The text of a frame, or why there is none.
    Frame(Result<String, ApiError>),
}

pub ghost enum StepModel {
    More,
    End,
    Frame(Result<Seq<char>, ApiFault>),
}

impl View for Step {
    type V = StepModel;

    open spec fn view(&self) -> StepModel {
        match *self {
            Step::More => StepModel::More,
            Step::End => StepModel::End,
            Step::Frame(Ok(text)) => StepModel::Frame(Ok(text@)),
            Step::Frame(Err(error)) => StepModel::Frame(Err(error@)),
        }
    }
}

impl View for FrameReader {
    type V = Seq<u8>;

    closed spec fn view(&self) -> Seq<u8> {
        self.line@
    }
}

/// No more of a frame than shows that it is too long.
pub open spec fn clipped(bytes: Seq<u8>) -> Seq<u8> {
    if bytes.len() > MAX_FRAME + 1 {
        bytes.take(MAX_FRAME + 1)
    } else {
        bytes
    }
}

/// Where a newline stands first.
pub open spec fn newline_at(bytes: Seq<u8>) -> Option<int>
    decreases bytes.len(),
{
    if bytes.len() == 0 {
        None
    } else if bytes[0] == 10 {
        Some(0)
    } else {
        match newline_at(bytes.drop_first()) {
            Some(i) => Some(i + 1),
            None => None,
        }
    }
}

pub open spec fn without_last(bytes: Seq<u8>, last: u8) -> Seq<u8> {
    if bytes.len() > 0 && bytes.last() == last {
        bytes.drop_last()
    } else {
        bytes
    }
}

/// The text of a complete frame: without its newline and a return before it;
/// empty where it is no UTF-8.
pub open spec fn frame_text(line: Seq<u8>) -> Seq<char> {
    let line = without_last(without_last(line, 10), 13);
    if valid_utf8(line) {
        decode_utf8(line)
    } else {
        Seq::empty()
    }
}

/// What a complete frame comes to.
pub open spec fn frame_of(line: Seq<u8>) -> StepModel {
    if line.len() > MAX_FRAME {
        StepModel::Frame(Err(ApiFault::FrameTooLong))
    } else {
        StepModel::Frame(Ok(frame_text(line)))
    }
}

/// What the end of the stream comes to, after `line` of a frame.
pub open spec fn ending(line: Seq<u8>) -> StepModel {
    if line.len() > MAX_FRAME {
        StepModel::Frame(Err(ApiFault::FrameTooLong))
    } else if line.len() == 0 {
        StepModel::End
    } else {
        StepModel::Frame(Err(ApiFault::TruncatedFrame))
    }
}

/// What a piece of the stream comes to, after `line` of a frame: how much of the
/// piece was read, what is kept of an unfinished frame, and what was found. An
/// empty piece is the end of the stream.
pub open spec fn fed(line: Seq<u8>, piece: Seq<u8>) -> (int, Seq<u8>, StepModel) {
    if piece.len() == 0 {
        (0, Seq::empty(), ending(line))
    } else {
        match newline_at(piece) {
            None => (piece.len() as int, clipped(line + piece), StepModel::More),
            Some(i) => (i + 1, Seq::empty(), frame_of(clipped(line + piece.take(i + 1)))),
        }
    }
}

proof fn lemma_newline_at(bytes: Seq<u8>)
    ensures
        match newline_at(bytes) {
            Some(i) => 0 <= i < bytes.len() && bytes[i] == 10 && forall|j: int|
                0 <= j < i ==> bytes[j] != 10,
            None => forall|j: int| 0 <= j < bytes.len() ==> bytes[j] != 10,
        },
    decreases bytes.len(),
{
    if bytes.len() > 0 && bytes[0] != 10 {
        let rest = bytes.drop_first();
        lemma_newline_at(rest);
        assert forall|j: int| 0 < j < bytes.len() implies bytes[j] == rest[j - 1] by {}
    }
}

proof fn lemma_newline_is(bytes: Seq<u8>, i: int)
    requires
        0 <= i < bytes.len(),
        bytes[i] == 10,
        forall|j: int| 0 <= j < i ==> bytes[j] != 10,
    ensures
        newline_at(bytes) == Some(i),
{
    lemma_newline_at(bytes);
}

impl FrameReader {
    #[verifier::type_invariant]
    spec fn inv(self) -> bool {
        self.line@.len() <= MAX_FRAME + 1
    }

    /// Nothing was read yet.
    pub fn new() -> (r: FrameReader)
        ensures
            r@ == Seq::<u8>::empty(),
    {
        let line: Vec<u8> = Vec::new();
        FrameReader { line }
    }

    /// Reads a piece of the stream, up to the end of a frame, and says how much
    /// of it was read. An empty piece is the end of the stream.
    pub fn feed(&mut self, piece: &[u8]) -> (r: (usize, Step))
        ensures
            fed(old(self)@, piece@) == (r.0 as int, final(self)@, r.1@),
    {
        proof {
            use_type_invariant(&*self);
        }
        let mut taken: FrameReader = FrameReader::new();
        std::mem::swap(&mut taken, self);
        let mut line: Vec<u8> = taken.line;
        let ghost before = line@;
        if piece.len() == 0 {
            if line.len() > MAX_FRAME {
                return (0, Step::Frame(Err(ApiError::FrameTooLong)));
            }
            if line.len() == 0 {
                return (0, Step::End);
            }
            return (0, Step::Frame(Err(ApiError::TruncatedFrame)));
        }
        let mut i: usize = 0;
        let mut found: bool = false;
        assert(before + piece@.take(0) =~= before);
        while i < piece.len() && !found
            invariant
                i <= piece@.len(),
                before.len() <= MAX_FRAME + 1,
                line@ == clipped(before + piece@.take(i as int)),
                forall|j: int| 0 <= j < i - 1 ==> piece@[j] != 10,
                found ==> i > 0 && piece@[i - 1] == 10,
                !found && i > 0 ==> piece@[i - 1] != 10,
            decreases piece@.len() - i,
        {
            let byte: u8 = piece[i];
            let ghost grown = before + piece@.take(i as int);
            assert(before + piece@.take(i + 1) =~= grown.push(byte));
            if line.len() <= MAX_FRAME {
                line.push(byte);
            }
            assert(line@ =~= clipped(before + piece@.take(i + 1)));
            found = byte == 10;
            i = i + 1;
        }
        if !found {
            proof {
                lemma_newline_at(piece@);
                assert(piece@.take(i as int) =~= piece@);
            }
            *self = FrameReader { line };
            return (i, Step::More);
        }
        proof {
            lemma_newline_is(piece@, i - 1);
        }
        if line.len() > MAX_FRAME {
            return (i, Step::Frame(Err(ApiError::FrameTooLong)));
        }
        (i, Step::Frame(Ok(text_of(line))))
    }

    /// Forgets what was read of a frame, as after a failed read.
    pub fn reset(&mut self)
        ensures
            final(self)@ == Seq::<u8>::empty(),
    {
        *self = FrameReader::new();
    }
}

fn text_of(line: Vec<u8>) -> (s: String)
    ensures
        s@ == frame_text(line@),
{
    let mut line: Vec<u8> = line;
    if line.len() > 0 && line[line.len() - 1] == 10 {
        line.pop();
    }
    if line.len() > 0 && line[line.len() - 1] == 13 {
        line.pop();
    }
    match text_from_utf8(line) {
        Ok(s) => s,
        Err(_) => {
            let s: String = String::new();
            assert(s@ =~= Seq::<char>::empty());
            s
        },
    }
}

/// What came of the last step of writing a message.
#[derive(Debug, PartialEq, Eq)]
pub enum WriteDone {
    /// The message became a line, or why it could not.
    Encoded(Result<String, ApiError>),
    /// The whole line was written, or why it was not.
    Written(Result<(), String>),
    /// What was written was flushed, or why it was not.
    Flushed(Result<(), String>),
}

/// What is done next.
#[derive(Debug, PartialEq, Eq)]
pub enum WriteStep {
    /// The whole line is written.
    Write(String),
    Flush,
    Finish(Result<(), ApiError>),
}

/// The next step of writing a message.
pub open spec fn writes(s: WriteStep, done: WriteDone) -> bool {
    match done {
        WriteDone::Encoded(Ok(line)) => s == WriteStep::Write(line),
        WriteDone::Encoded(Err(error)) => s == WriteStep::Finish(Err(error)),
        WriteDone::Written(Ok(_)) => s is Flush,
        WriteDone::Flushed(Ok(_)) => s == WriteStep::Finish(Ok(())),
        WriteDone::Written(Err(text)) | WriteDone::Flushed(Err(text)) => s == WriteStep::Finish(
            Err(ApiError::Io(text)),
        ),
    }
}

/// The next step of writing a message: its whole line is written, then flushed, so
/// that it reaches the other side at once. An error ends it.
pub fn write_step(done: WriteDone) -> (s: WriteStep)
    ensures
        writes(s, done),
{
    match done {
        WriteDone::Encoded(Ok(line)) => WriteStep::Write(line),
        WriteDone::Encoded(Err(error)) => WriteStep::Finish(Err(error)),
        WriteDone::Written(Ok(_)) => WriteStep::Flush,
        WriteDone::Written(Err(text)) => WriteStep::Finish(Err(ApiError::Io(text))),
        WriteDone::Flushed(Ok(_)) => WriteStep::Finish(Ok(())),
        WriteDone::Flushed(Err(text)) => WriteStep::Finish(Err(ApiError::Io(text))),
    }
}

/// A message counts as written only once it was flushed.
pub proof fn law_messages_are_flushed(s: WriteStep, done: WriteDone)
    requires
        writes(s, done),
    ensures
        (s matches WriteStep::Finish(Ok(_))) ==> (done matches WriteDone::Flushed(Ok(_))),
{
}

/// The pieces in which a stream comes do not matter: a frame is found in two
/// pieces as it is found in one.
pub proof fn law_pieces_do_not_matter(line: Seq<u8>, a: Seq<u8>, b: Seq<u8>)
    requires
        line.len() <= MAX_FRAME + 1,
        a.len() > 0,
        b.len() > 0,
        newline_at(a) is None,
    ensures
        fed(line, a).2 is More,
        fed(line, a + b) == ({
            let (read, kept, step) = fed(fed(line, a).1, b);
            (a.len() + read, kept, step)
        }),
{
    let whole = a + b;
    lemma_newline_at(a);
    lemma_newline_at(b);
    lemma_newline_at(whole);
    assert forall|j: int| 0 <= j < a.len() implies whole[j] != 10 by {}
    assert forall|j: int| 0 <= j < b.len() implies whole[a.len() + j] == b[j] by {}
    let kept = clipped(line + a);
    match newline_at(b) {
        Some(i) => {
            lemma_newline_is(whole, a.len() + i);
            assert(whole.take(a.len() + i + 1) =~= a + b.take(i + 1));
            assert(clipped(kept + b.take(i + 1)) =~= clipped(line + whole.take(a.len() + i + 1)));
        },
        None => {
            assert(newline_at(whole) is None);
            assert(clipped(kept + b) =~= clipped(line + whole));
        },
    }
}

/// A frame that was written comes back as it was: a text without newline that
/// does not end with a return and is not too long, followed by a newline.
pub proof fn law_written_frames_come_back(text: Seq<char>, rest: Seq<u8>)
    requires
        newline_at(encode_utf8(text)) is None,
        text.len() == 0 || text.last() != '\r',
        encode_utf8(text).len() < MAX_FRAME,
    ensures
        fed(Seq::empty(), encode_utf8(text).push(10) + rest) == (
            encode_utf8(text).len() as int + 1,
            Seq::<u8>::empty(),
            StepModel::Frame(Ok(text)),
        ),
{
    let bytes = encode_utf8(text);
    let piece = bytes.push(10) + rest;
    lemma_newline_at(bytes);
    assert forall|j: int| 0 <= j < bytes.len() implies piece[j] != 10 by {
        assert(piece[j] == bytes[j]);
    }
    assert(piece[bytes.len() as int] == 10);
    lemma_newline_is(piece, bytes.len() as int);
    let line = piece.take(bytes.len() as int + 1);
    assert(line =~= bytes.push(10));
    assert(Seq::<u8>::empty() + line =~= line);
    assert(line.drop_last() =~= bytes);
    vstd::utf8::encode_utf8_valid_utf8(text);
    vstd::utf8::encode_utf8_decode_utf8(text);
    if bytes.len() > 0 && bytes.last() == 13 {
        lemma_last_byte_is_return(text);
    }
    assert(without_last(without_last(line, 10), 13) =~= bytes);
}

/// A text whose last byte is a return ends with a return.
proof fn lemma_last_byte_is_return(text: Seq<char>)
    requires
        encode_utf8(text).len() > 0,
        encode_utf8(text).last() == 13,
    ensures
        text.len() > 0,
        text.last() == '\r',
    decreases text.len(),
{
    if text.len() > 0 {
        vstd::utf8::char_is_scalar(text[0]);
        let first = vstd::utf8::encode_scalar(text[0] as u32);
        let rest = text.drop_first();
        if rest.len() == 0 {
            assert(encode_utf8(rest) =~= Seq::<u8>::empty());
            assert(encode_utf8(text) =~= first);
            let v = text[0] as u32;
            assert(0x80u8 | (v & 0x3f) as u8 != 13) by (bit_vector);
            assert(v <= 0x7f ==> (v & 0x7f) as u8 == v as u8) by (bit_vector);
            assert(v <= 0x7f ==> (v as u8) as u32 == v) by (bit_vector);
            assert(v <= 0x7f);
            assert(text[0] as u32 == 13);
            vstd::utf8::char_u32_cast(text[0], 13);
            vstd::utf8::char_u32_cast('\r', 13);
        } else {
            assert(encode_utf8(rest).len() > 0);
            assert(encode_utf8(text).last() == encode_utf8(rest).last());
            lemma_last_byte_is_return(rest);
        }
    }
}

} // verus!
