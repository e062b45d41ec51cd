//! HTTP over the engine's socket: the text of a request, and the reading of a reply
//! within fixed bounds.
use crate::encoding;
use crate::text;
use crate::text::NumberFault;
use vstd::prelude::*;

verus! {

/// The most bytes that a line of a reply may hold.
pub const MAX_LINE: u64 = 8192;

/// The number of headers after which a reply is given up.
pub const MAX_HEADERS: usize = 100;

/// The most bytes that the body of a reply may hold.
pub const MAX_UDS_PAYLOAD_SIZE: usize = 10485760;

/// The end of a line.
pub const NEWLINE: u8 = 10;

/// At which point the socket failed.
#[derive(Debug, Clone, Copy, PartialEq, Eq, Structural)]
pub enum Stage {
    Write,
    Flush,
    Line,
    Chunk,
    Body,
    Rest,
}

/// Why an exchange with the engine came to nothing.
#[derive(Debug)]
pub enum ExchangeError {
    /// The socket could not be reached.
    Connect { socket_path: String, cause: String },
    /// The socket failed.
    Io { stage: Stage, cause: String },
    /// A line is longer than it may be.
    LineTooLong,
    /// There is no status line.
    EmptyFrame,
    /// There are too many headers.
    TooManyHeaders,
    /// The size of a chunk is not a number.
    BadChunkSize { fault: NumberFault },
    /// The chunks hold too much.
    ChunksTooLarge,
    /// The announced length is too great.
    LengthTooLarge { length: usize },
    /// A body without length is not UTF-8.
    NotText,
}

/// An `ExchangeError` by the characters of its texts.
pub enum ExchangeErrorView {
    Connect { socket_path: Seq<char>, cause: Seq<char> },
    Io { stage: Stage, cause: Seq<char> },
    LineTooLong,
    EmptyFrame,
    TooManyHeaders,
    BadChunkSize { fault: NumberFault },
    ChunksTooLarge,
    LengthTooLarge { length: usize },
    NotText,
}

impl View for ExchangeError {
    type V = ExchangeErrorView;

    open spec fn view(&self) -> ExchangeErrorView {
        match *self {
            ExchangeError::Connect { socket_path, cause } => ExchangeErrorView::Connect {
                socket_path: socket_path@,
                cause: cause@,
            },
            ExchangeError::Io { stage, cause } => ExchangeErrorView::Io { stage, cause: cause@ },
            ExchangeError::LineTooLong => ExchangeErrorView::LineTooLong,
            ExchangeError::EmptyFrame => ExchangeErrorView::EmptyFrame,
            ExchangeError::TooManyHeaders => ExchangeErrorView::TooManyHeaders,
            ExchangeError::BadChunkSize { fault } => ExchangeErrorView::BadChunkSize { fault },
            ExchangeError::ChunksTooLarge => ExchangeErrorView::ChunksTooLarge,
            ExchangeError::LengthTooLarge { length } => ExchangeErrorView::LengthTooLarge {
                length,
            },
            ExchangeError::NotText => ExchangeErrorView::NotText,
        }
    }
}

impl ExchangeErrorView {
    /// The error in words.
    pub open spec fn words(self) -> Seq<char> {
        match self {
            ExchangeErrorView::Connect { socket_path, cause } =>
            "Container Engine Socket Connection Refused at "@ + socket_path + ": "@ + cause,
            ExchangeErrorView::Io { stage, cause } => stage.words() + cause,
            ExchangeErrorView::LineTooLong =>
            "Buffer-bloat protection: HTTP line exceeded maximum bounded length"@,
            ExchangeErrorView::EmptyFrame =>
            "Received completely empty frame stream from container daemon socket."@,
            ExchangeErrorView::TooManyHeaders =>
            "UDS Error: Maximum HTTP header count exceeded. Aborting to prevent thread lockup."@,
            ExchangeErrorView::BadChunkSize { fault } => "Failed to parse chunk size: "@
                + fault.words(),
            ExchangeErrorView::ChunksTooLarge =>
            "SECURITY ABORT: Chunk sequence size exceeds maximum allowed UDS payload limit of 10485760 bytes."@,
            ExchangeErrorView::LengthTooLarge { length } => "SECURITY ABORT: Content-Length "@
                + text::decimal(length as nat)
                + " exceeds maximum allowed UDS payload limit of 10485760 bytes."@,
            ExchangeErrorView::NotText =>
            "Failed to read payload to string: stream did not contain valid UTF-8"@,
        }
    }
}

impl Stage {
    /// What failed, in words.
    pub open spec fn words(self) -> Seq<char> {
        match self {
            Stage::Write => "Failed to write to UDS: "@,
            Stage::Flush => "Failed to flush UDS stream: "@,
            Stage::Line => "I/O Error reading bounded line: "@,
            Stage::Chunk => "Failed to read chunk payload: "@,
            Stage::Body => "Failed to read exact payload length: "@,
            Stage::Rest => "Failed to read payload to string: "@,
        }
    }

    /// What failed, in words.
    pub fn message(self) -> (r: String)
        ensures
            r@ == self.words(),
    {
        match self {
            Stage::Write => "Failed to write to UDS: ".to_owned(),
            Stage::Flush => "Failed to flush UDS stream: ".to_owned(),
            Stage::Line => "I/O Error reading bounded line: ".to_owned(),
            Stage::Chunk => "Failed to read chunk payload: ".to_owned(),
            Stage::Body => "Failed to read exact payload length: ".to_owned(),
            Stage::Rest => "Failed to read payload to string: ".to_owned(),
        }
    }
}

impl ExchangeError {
    /// The error in words.
    pub fn message(&self) -> (r: String)
        ensures
            r@ == self@.words(),
    {
        match self {
            ExchangeError::Connect { socket_path, cause } => {
                let mut out = "Container Engine Socket Connection Refused at ".to_owned();
                out.append(socket_path.as_str());
                out.append(": ");
                out.append(cause.as_str());
                out
            },
            ExchangeError::Io { stage, cause } => {
                let mut out = stage.message();
                out.append(cause.as_str());
                out
            },
            ExchangeError::LineTooLong => {
                "Buffer-bloat protection: HTTP line exceeded maximum bounded length".to_owned()
            },
            ExchangeError::EmptyFrame => {
                "Received completely empty frame stream from container daemon socket.".to_owned()
            },
            ExchangeError::TooManyHeaders => {
                "UDS Error: Maximum HTTP header count exceeded. Aborting to prevent thread lockup.".to_owned()
            },
            ExchangeError::BadChunkSize { fault } => {
                let mut out = "Failed to parse chunk size: ".to_owned();
                out.append(fault.message().as_str());
                out
            },
            ExchangeError::ChunksTooLarge => {
                "SECURITY ABORT: Chunk sequence size exceeds maximum allowed UDS payload limit of 10485760 bytes.".to_owned()
            },
            ExchangeError::LengthTooLarge { length } => {
                let mut out = "SECURITY ABORT: Content-Length ".to_owned();
                out.append(text::decimal_text(*length as u64).as_str());
                out.append(" exceeds maximum allowed UDS payload limit of 10485760 bytes.");
                out
            },
            ExchangeError::NotText => {
                "Failed to read payload to string: stream did not contain valid UTF-8".to_owned()
            },
        }
    }
}

/// The bytes that a text is sent as.
pub open spec fn byte_count(s: Seq<char>) -> nat {
    vstd::utf8::encode_utf8(s).len()
}

/// The bytes of two texts, one behind the other.
pub proof fn lemma_byte_count_concat(first: Seq<char>, second: Seq<char>)
    ensures
        byte_count(first + second) == byte_count(first) + byte_count(second),
    decreases first.len(),
{
    if first.len() == 0 {
        assert(first + second =~= second);
    } else {
        lemma_byte_count_concat(first.drop_first(), second);
        assert((first + second).drop_first() =~= first.drop_first() + second);
    }
}

/// A text that was decoded is sent as the bytes that it was decoded from.
pub proof fn lemma_byte_count_decoded(bytes: Seq<u8>)
    requires
        vstd::utf8::valid_utf8(bytes),
    ensures
        byte_count(vstd::utf8::decode_utf8(bytes)) == bytes.len(),
{
    vstd::utf8::decode_utf8_encode_utf8(bytes);
}

/// Every byte is an ASCII character.
pub open spec fn is_ascii_bytes(bytes: Seq<u8>) -> bool {
    forall|i: int| 0 <= i < bytes.len() ==> #[trigger] bytes[i] < 128
}

/// ASCII characters are valid UTF-8.
pub proof fn lemma_ascii_is_valid(bytes: Seq<u8>)
    requires
        is_ascii_bytes(bytes),
    ensures
        vstd::utf8::valid_utf8(bytes),
{
    assert(bytes.subrange(0, 0) =~= Seq::<u8>::empty());
    assert(vstd::utf8::partial_valid_utf8(bytes, 0));
    vstd::utf8::partial_valid_utf8_extend_ascii_block(bytes, 0, bytes.len() as int);
    assert(bytes.subrange(0, bytes.len() as int) =~= bytes);
}

/// How many bytes `text` is sent as.
pub fn count_bytes(text: &str) -> (r: usize)
    ensures
        r as nat == byte_count(text@),
{
    text.as_bytes().len()
}

/// A request in words.
pub open spec fn request_words(
    method: Seq<char>,
    path: Seq<char>,
    body: Option<Seq<char>>,
) -> Seq<char> {
    match body {
        Some(b) => method + " "@ + path
            + " HTTP/1.1\r\nHost: localhost\r\nConnection: close\r\nContent-Type: application/json\r\nContent-Length: "@
            + text::decimal(byte_count(b)) + "\r\n\r\n"@ + b,
        None => method + " "@ + path + " HTTP/1.1\r\nHost: localhost\r\nConnection: close\r\n\r\n"@,
    }
}

/// Writes a request, with a JSON body if one is given.
pub fn request_text(method: &str, path: &str, body: Option<&str>) -> (r: String)
    ensures
        r@ == request_words(method@, path@, crate::logger::optional(body)),
{
    let mut out = method.to_owned();
    out.append(" ");
    out.append(path);
    match body {
        Some(b) => {
            out.append(
                " HTTP/1.1\r\nHost: localhost\r\nConnection: close\r\nContent-Type: application/json\r\nContent-Length: ",
            );
            out.append(text::decimal_text(count_bytes(b) as u64).as_str());
            out.append("\r\n\r\n");
            out.append(b);
        },
        None => {
            out.append(" HTTP/1.1\r\nHost: localhost\r\nConnection: close\r\n\r\n");
        },
    }
    out
}

/// How many bytes of `s` belong to its first line: all up to the first newline, that
/// one included, but no more than `limit`.
pub open spec fn line_length(s: Seq<u8>, limit: nat) -> nat
    decreases s.len(),
{
    if s.len() == 0 || limit == 0 {
        0
    } else if s[0] == NEWLINE {
        1
    } else {
        1 + line_length(s.drop_first(), (limit - 1) as nat)
    }
}

/// A line takes no more bytes than there are, nor more than the limit, and takes
/// some if it can.
pub proof fn lemma_line_length(s: Seq<u8>, limit: nat)
    ensures
        line_length(s, limit) <= s.len(),
        line_length(s, limit) <= limit,
        s.len() > 0 && limit > 0 ==> line_length(s, limit) > 0,
    decreases s.len(),
{
    if s.len() > 0 && limit > 0 && s[0] != NEWLINE {
        lemma_line_length(s.drop_first(), (limit - 1) as nat);
    }
}

/// The text of a line that was read with `limit`. A line that fills the limit without
/// coming to its end is refused.
pub open spec fn line_text(line: Seq<u8>, limit: nat) -> Result<Seq<char>, ExchangeErrorView> {
    if line.len() == limit && (line.len() == 0 || line.last() != NEWLINE) {
        Err(ExchangeErrorView::LineTooLong)
    } else {
        Ok(encoding::lossy_decoding(line))
    }
}

/// `found` is the outcome `expected`, text for text.
pub open spec fn same_text_outcome(
    found: Result<String, ExchangeError>,
    expected: Result<Seq<char>, ExchangeErrorView>,
) -> bool {
    match found {
        Ok(t) => expected == Ok::<Seq<char>, ExchangeErrorView>(t@),
        Err(e) => expected == Err::<Seq<char>, ExchangeErrorView>(e@),
    }
}

/// Reads the text of a line that was read with `limit`.
pub fn bounded_line(line: &Vec<u8>, limit: u64) -> (r: Result<String, ExchangeError>)
    ensures
        same_text_outcome(r, line_text(line@, limit as nat)),
        r is Ok && vstd::utf8::valid_utf8(line@) ==> r->Ok_0@ == vstd::utf8::decode_utf8(line@),
{
    let size: usize = line.len();
    if size as u64 == limit && (size == 0 || line[size - 1] != NEWLINE) {
        return Err(ExchangeError::LineTooLong);
    }
    Ok(encoding::lossy_text(line.as_slice()))
}

/// A position in a sequence of bytes that is read to its end.
pub struct ByteCursor {
    pub bytes: Vec<u8>,
    pub position: usize,
}

impl ByteCursor {
    /// The position lies within the bytes.
    pub open spec fn valid(self) -> bool {
        self.position <= self.bytes@.len()
    }

    /// The bytes that are still to be read.
    pub open spec fn rest(self) -> Seq<u8> {
        self.bytes@.skip(self.position as int)
    }

    /// Starts to read `bytes`.
    pub fn new(bytes: Vec<u8>) -> (r: Self)
        ensures
            r.valid(),
            r.rest() == bytes@,
    {
        let cursor = ByteCursor { bytes, position: 0 };
        assert(cursor.rest() =~= bytes@);
        cursor
    }

    /// Takes the next `count` bytes, or as many as there are.
    pub fn take(&mut self, count: usize) -> (r: Vec<u8>)
        requires
            old(self).valid(),
        ensures
            final(self).valid(),
            count <= old(self).rest().len() ==> r@ == old(self).rest().take(count as int)
                && final(self).rest() == old(self).rest().skip(count as int),
            count > old(self).rest().len() ==> r@ == old(self).rest() && final(self).rest()
                == Seq::<u8>::empty(),
    {
        let mut taken: Vec<u8> = Vec::new();
        let start: usize = self.position;
        let ghost rest = self.rest();
        while taken.len() < count && self.position < self.bytes.len()
            invariant
                self.valid(),
                self.bytes@ == old(self).bytes@,
                start == old(self).position,
                start + taken@.len() == self.position,
                taken@.len() <= count,
                rest == old(self).rest(),
                taken@ == self.bytes@.subrange(start as int, self.position as int),
            decreases self.bytes@.len() - self.position,
        {
            taken.push(self.bytes[self.position]);
            self.position = self.position + 1;
        }
        proof {
            if count <= rest.len() {
                assert(taken@ =~= rest.take(count as int));
                assert(self.rest() =~= rest.skip(count as int));
            } else {
                assert(taken@ =~= rest);
                assert(self.rest() =~= Seq::<u8>::empty());
            }
        }
        taken
    }

    /// Takes a line of at most `limit` bytes, its newline included.
    pub fn take_line(&mut self, limit: u64) -> (r: Vec<u8>)
        requires
            old(self).valid(),
        ensures
            final(self).valid(),
            r@ == old(self).rest().take(line_length(old(self).rest(), limit as nat) as int),
            final(self).rest() == old(self).rest().skip(
                line_length(old(self).rest(), limit as nat) as int,
            ),
    {
        let mut size: usize = 0;
        let ghost rest = self.rest();
        let start: usize = self.position;
        let total: usize = self.bytes.len();
        let mut done = false;
        assert(rest.skip(0) =~= rest);
        while !done && (size as u64) < limit && size < total - start
            invariant
                self.valid(),
                self.bytes@ == old(self).bytes@,
                self.position == start,
                total == self.bytes@.len(),
                start <= total,
                size <= total - start,
                size as u64 <= limit,
                rest == self.rest(),
                rest == old(self).rest(),
                line_length(rest, limit as nat) == size + (if done {
                    0
                } else {
                    line_length(rest.skip(size as int), (limit - size) as nat)
                }),
            decreases total - start - size,
        {
            assert(rest.skip(size as int).drop_first() =~= rest.skip(size + 1));
            assert(rest.skip(size as int)[0] == self.bytes@[start + size]);
            if self.bytes[start + size] == NEWLINE {
                done = true;
            }
            size = size + 1;
        }
        assert(line_length(rest, limit as nat) == size);
        self.take(size)
    }
}

/// Reads a line of at most `limit` bytes.
pub fn read_bounded_line(reader: &mut ByteCursor, limit: u64) -> (r: Result<String, ExchangeError>)
    requires
        old(reader).valid(),
    ensures
        final(reader).valid(),
        same_text_outcome(
            r,
            line_text(
                old(reader).rest().take(line_length(old(reader).rest(), limit as nat) as int),
                limit as nat,
            ),
        ),
        r is Ok && vstd::utf8::valid_utf8(
            old(reader).rest().take(line_length(old(reader).rest(), limit as nat) as int),
        ) ==> r->Ok_0@ == vstd::utf8::decode_utf8(
            old(reader).rest().take(line_length(old(reader).rest(), limit as nat) as int),
        ),
        final(reader).rest() == old(reader).rest().skip(
            line_length(old(reader).rest(), limit as nat) as int,
        ),
{
    let line = reader.take_line(limit);
    bounded_line(&line, limit)
}

} // verus!
