//! Lines on a TCP connection: one JSON value each, ended by a newline.

use vstd::prelude::*;
use vstd::string::*;

use crate::error::{ErrorKind, IoError};

verus! {

/// Why no line came out of a connection.
#[derive(Clone, Copy, Debug, PartialEq, Eq, Structural)]
pub enum LineError {
    /// The connection ended before the line did.
    ConnectionClosed,
    /// The line is longer than it may be.
    TooLarge,
    /// The line is empty.
    Empty,
}

/// Where the reading of one line stands.
#[verifier::ext_equal]
pub enum LineState {
    Reading(Seq<u8>),
    Finished(Seq<u8>),
    Failed(LineError),
}

/// What one more byte does: a newline ends the line, a carriage return is dropped, any other byte
/// is kept as long as no more than `max` bytes are.
pub open spec fn line_step(kept: Seq<u8>, byte: u8, max: usize) -> LineState {
    if byte == 0x0a {
        if kept.len() == 0 {
            LineState::Failed(LineError::Empty)
        } else {
            LineState::Finished(kept)
        }
    } else if byte == 0x0d {
        LineState::Reading(kept)
    } else if kept.len() + 1 > max {
        LineState::Failed(LineError::TooLarge)
    } else {
        LineState::Reading(kept.push(byte))
    }
}

/// Where the reading of one line stands once `input` has been read. After the line's end, or a
/// failure, nothing more is read.
pub open spec fn line_after(input: Seq<u8>, max: usize) -> LineState
    decreases input.len(),
{
    if input.len() == 0 {
        LineState::Reading(Seq::empty())
    } else {
        match line_after(input.drop_last(), max) {
            LineState::Reading(kept) => line_step(kept, input.last(), max),
            other => other,
        }
    }
}

/// What to do after a byte.
#[derive(Debug)]
pub enum LineStep {
    /// Read another byte.
    More,
    /// The line is complete.
    Line(Vec<u8>),
    /// The line cannot be read.
    Failed(LineError),
}

/// Collects the bytes of one line.
#[derive(Debug)]
pub struct LineReader {
    buffer: Vec<u8>,
    max_bytes: usize,
}

impl View for LineReader {
    type V = Seq<u8>;

    closed spec fn view(&self) -> Seq<u8> {
        self.buffer@
    }
}

impl LineReader {
    /// The longest line that is accepted.
    pub closed spec fn limit(self) -> usize {
        self.max_bytes
    }

    /// A reader that has seen nothing yet.
    pub fn new(max_bytes: usize) -> (reader: LineReader)
        ensures
            reader.limit() == max_bytes,
            line_after(Seq::empty(), max_bytes) == LineState::Reading(reader@),
    {
        LineReader { buffer: Vec::with_capacity(128), max_bytes }
    }

    /// Takes in one byte.
    pub fn push(&mut self, byte: u8) -> (step: LineStep)
        ensures
            final(self).limit() == old(self).limit(),
            match line_step(old(self)@, byte, old(self).limit()) {
                LineState::Reading(kept) => step is More && final(self)@ == kept,
                LineState::Finished(line) => {
                    &&& step matches LineStep::Line(l)
                    &&& l@ == line
                    &&& final(self)@ == Seq::<u8>::empty()
                },
                LineState::Failed(e) => step == LineStep::Failed(e) && final(self)@ == old(self)@,
            },
    {
        if byte == 0x0a {
            if self.buffer.len() == 0 {
                return LineStep::Failed(LineError::Empty);
            }
            let mut line: Vec<u8> = Vec::new();
            std::mem::swap(&mut line, &mut self.buffer);
            return LineStep::Line(line);
        }
        if byte != 0x0d {
            if self.buffer.len() >= self.max_bytes {
                return LineStep::Failed(LineError::TooLarge);
            }
            self.buffer.push(byte);
        }
        LineStep::More
    }

    /// What the end of the connection means in the middle of a line.
    pub fn end_of_input(self) -> (error: LineError)
        ensures
            error == LineError::ConnectionClosed,
    {
        LineError::ConnectionClosed
    }
}

impl LineError {
    /// The kind of failure under which this is reported.
    pub open spec fn spec_kind(self) -> ErrorKind {
        match self {
            LineError::ConnectionClosed => ErrorKind::UnexpectedEof,
            LineError::TooLarge => ErrorKind::InvalidData,
            LineError::Empty => ErrorKind::InvalidData,
        }
    }

    /// The message under which this is reported.
    pub open spec fn spec_message(self) -> Seq<char> {
        match self {
            LineError::ConnectionClosed => "connection closed before request finished"@,
            LineError::TooLarge => "request is too large"@,
            LineError::Empty => "request must not be empty"@,
        }
    }

    /// The failure under which this is reported.
    pub fn to_io_error(&self) -> (error: IoError)
        ensures
            error.kind == self.spec_kind(),
            error.message@ == self.spec_message(),
    {
        match self {
            LineError::ConnectionClosed => IoError::new(
                ErrorKind::UnexpectedEof,
                "connection closed before request finished",
            ),
            LineError::TooLarge => IoError::new(ErrorKind::InvalidData, "request is too large"),
            LineError::Empty => IoError::new(ErrorKind::InvalidData, "request must not be empty"),
        }
    }
}

/// The failure of a line that did not arrive in time; `context` says which line.
pub fn timed_out(context: &str) -> (error: IoError)
    ensures
        error.kind == ErrorKind::TimedOut,
        error.message@ == context@ + " timed out"@,
{
    IoError { kind: ErrorKind::TimedOut, message: context.to_owned().concat(" timed out") }
}

/// The failure of a line that is not the JSON value it should be.
pub fn invalid_json(context: &str, detail: &str) -> (error: IoError)
    ensures
        error.kind == ErrorKind::InvalidData,
        error.message@ == "invalid "@ + context@ + " json: "@ + detail@,
{
    IoError {
        kind: ErrorKind::InvalidData,
        message: "invalid ".to_owned().concat(context).concat(" json: ").concat(detail),
    }
}

/// The failure of a value that cannot be written as JSON.
pub fn json_encode_error(detail: &str) -> (error: IoError)
    ensures
        error.kind == ErrorKind::InvalidData,
        error.message@ == "json encode error: "@ + detail@,
{
    IoError {
        kind: ErrorKind::InvalidData,
        message: "json encode error: ".to_owned().concat(detail),
    }
}

/// A value's bytes as a line.
pub fn frame_line(payload: Vec<u8>) -> (line: Vec<u8>)
    ensures
        line@ == payload@.push(0x0a),
{
    let mut line = payload;
    line.push(0x0a);
    line
}

/// A byte more takes the reading one step further, unless it has come to its end.
pub proof fn law_reading_goes_byte_by_byte(input: Seq<u8>, byte: u8, max: usize)
    ensures
        line_after(input.push(byte), max) == match line_after(input, max) {
            LineState::Reading(kept) => line_step(kept, byte, max),
            ended => ended,
        },
{
    assert(input.push(byte).drop_last() =~= input);
}

/// Bytes without their carriage returns.
pub open spec fn without_returns(bytes: Seq<u8>) -> Seq<u8>
    decreases bytes.len(),
{
    if bytes.len() == 0 {
        Seq::empty()
    } else if bytes.last() == 0x0d {
        without_returns(bytes.drop_last())
    } else {
        without_returns(bytes.drop_last()).push(bytes.last())
    }
}

/// Whether bytes hold no newline.
pub open spec fn is_one_line(bytes: Seq<u8>) -> bool {
    forall|i: int| 0 <= i < bytes.len() ==> #[trigger] bytes[i] != 0x0a
}

proof fn lemma_reading(bytes: Seq<u8>, max: usize)
    requires
        is_one_line(bytes),
    ensures
        line_after(bytes, max) == if without_returns(bytes).len() <= max {
            LineState::Reading(without_returns(bytes))
        } else {
            LineState::Failed(LineError::TooLarge)
        },
    decreases bytes.len(),
{
    if bytes.len() > 0 {
        lemma_reading(bytes.drop_last(), max);
        assert(bytes.last() == bytes[bytes.len() - 1]);
    }
}

/// What comes of a line depends on what it holds beside carriage returns: nothing, too much, or
/// what is then the line.
pub proof fn law_line_is_read_whole(bytes: Seq<u8>, max: usize)
    requires
        is_one_line(bytes),
    ensures
        line_after(bytes.push(0x0a), max) == if without_returns(bytes).len() > max {
            LineState::Failed(LineError::TooLarge)
        } else if without_returns(bytes).len() == 0 {
            LineState::Failed(LineError::Empty)
        } else {
            LineState::Finished(without_returns(bytes))
        },
{
    lemma_reading(bytes, max);
    assert(bytes.push(0x0a).drop_last() =~= bytes);
}

proof fn lemma_no_returns(bytes: Seq<u8>)
    requires
        forall|i: int| 0 <= i < bytes.len() ==> #[trigger] bytes[i] != 0x0d,
    ensures
        without_returns(bytes) == bytes,
    decreases bytes.len(),
{
    if bytes.len() > 0 {
        lemma_no_returns(bytes.drop_last());
        assert(bytes.last() == bytes[bytes.len() - 1]);
        assert(bytes.drop_last().push(bytes.last()) =~= bytes);
    } else {
        assert(bytes =~= Seq::empty());
    }
}

/// Reading a framed line gives back what was framed, with or without a carriage return before the
/// newline.
pub proof fn law_line_round_trip(content: Seq<u8>, max: usize)
    requires
        0 < content.len() <= max,
        is_one_line(content),
        forall|i: int| 0 <= i < content.len() ==> #[trigger] content[i] != 0x0d,
    ensures
        line_after(content.push(0x0a), max) == LineState::Finished(content),
        line_after(content.push(0x0d).push(0x0a), max) == LineState::Finished(content),
{
    let with_return = content.push(0x0d);
    lemma_no_returns(content);
    law_line_is_read_whole(content, max);
    assert(with_return.drop_last() =~= content);
    assert(without_returns(with_return) == content);
    law_line_is_read_whole(with_return, max);
}

/// A line is decided by its own bytes: what follows its end, or its failure, changes nothing.
pub proof fn law_line_end_is_final(input: Seq<u8>, more: Seq<u8>, max: usize)
    requires
        !(line_after(input, max) is Reading),
    ensures
        line_after(input + more, max) == line_after(input, max),
    decreases more.len(),
{
    if more.len() == 0 {
        assert(input + more =~= input);
    } else {
        law_line_end_is_final(input, more.drop_last(), max);
        assert((input + more).drop_last() =~= input + more.drop_last());
    }
}

/// No more than the limit is ever kept, and a finished line is never empty.
pub proof fn law_line_is_bounded(input: Seq<u8>, max: usize)
    ensures
        match line_after(input, max) {
            LineState::Reading(kept) => kept.len() <= max,
            LineState::Finished(line) => 0 < line.len() <= max,
            LineState::Failed(_) => true,
        },
    decreases input.len(),
{
    if input.len() > 0 {
        law_line_is_bounded(input.drop_last(), max);
    }
}

/// What a reader keeps and gives back: a newline ends the line with what was kept, and the next
/// line begins with nothing; a carriage return is dropped; any other byte is kept, unless the
/// limit is reached.
pub proof fn law_reader_keeps_bytes_until_the_newline(
    reader: &mut LineReader,
    byte: u8,
    step: LineStep,
)
    requires
        call_ensures(LineReader::push, (reader, byte), step),
    ensures
        final(reader).limit() == old(reader).limit(),
        byte == 0x0a && old(reader)@.len() > 0 ==> {
            &&& step matches LineStep::Line(line)
            &&& line@ == old(reader)@
            &&& final(reader)@.len() == 0
        },
        byte == 0x0a && old(reader)@.len() == 0 ==> step == LineStep::Failed(LineError::Empty),
        byte == 0x0d ==> step is More && final(reader)@ == old(reader)@,
        byte != 0x0a && byte != 0x0d && old(reader)@.len() < old(reader).limit() ==> step is More
            && final(reader)@ == old(reader)@.push(byte),
        byte != 0x0a && byte != 0x0d && old(reader)@.len() >= old(reader).limit() ==> step
            == LineStep::Failed(LineError::TooLarge),
{
}

/// A framed value ends with the one newline that was added, and begins with the value.
pub proof fn law_frame_adds_a_newline(payload: Vec<u8>, line: Vec<u8>)
    requires
        call_ensures(frame_line, (payload,), line),
    ensures
        line@.len() == payload@.len() + 1,
        line@.last() == 0x0a,
        line@.drop_last() == payload@,
{
    assert(line@.drop_last() =~= payload@);
}

/// A new reader has kept nothing and keeps as much as it was told.
pub proof fn law_new_reader_has_kept_nothing(max_bytes: usize, reader: LineReader)
    requires
        call_ensures(LineReader::new, (max_bytes,), reader),
    ensures
        reader@.len() == 0,
        reader.limit() == max_bytes,
{
}

} // verus!
