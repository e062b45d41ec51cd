//! Reading a reply of the container engine, step by step: the exchange says what it
//! wants from the socket, and is told what came.
use crate::encoding;
use crate::http::{
    bounded_line, count_bytes, ByteCursor, ExchangeError, ExchangeErrorView, Stage, MAX_HEADERS,
    MAX_LINE, MAX_UDS_PAYLOAD_SIZE,
};
use crate::http;
use crate::text;
use vstd::prelude::*;

verus! {

/// What an exchange wants next from the socket.
#[derive(Debug, Clone, Copy, PartialEq, Eq, Structural)]
pub enum Demand {
    /// A line of at most `limit` bytes, its newline included.
    Line { limit: u64 },
    /// Exactly `count` bytes.
    Exact { count: usize },
    /// The two bytes behind a chunk; it does not matter if they fail to come.
    Gap,
    /// All that comes until the end, but no more than `most` bytes.
    Rest { most: usize },
    /// Nothing: the exchange is over.
    Nothing,
}

/// What the socket gave.
#[derive(Debug)]
pub enum Reply {
    Bytes(Vec<u8>),
    Failed(String),
}

/// A `Reply` by its contents.
pub enum ReplyView {
    Bytes(Seq<u8>),
    Failed(Seq<char>),
}

impl View for Reply {
    type V = ReplyView;

    open spec fn view(&self) -> ReplyView {
        match *self {
            Reply::Bytes(bytes) => ReplyView::Bytes(bytes@),
            Reply::Failed(cause) => ReplyView::Failed(cause@),
        }
    }
}

/// How far an exchange has come.
#[derive(Debug)]
pub enum Exchange {
    /// The status line is due.
    Status,
    /// A header is due, or the empty line behind the headers.
    Headers { status: u16, count: usize, chunked: bool, length: Option<usize> },
    /// The size of a chunk is due.
    ChunkSize { status: u16, body: String },
    /// The bytes of a chunk are due.
    ChunkData { status: u16, body: String, size: usize },
    /// The end of a chunk is due.
    ChunkEnd { status: u16, body: String },
    /// A body of known length is due.
    Body { status: u16, size: usize },
    /// A body up to the end of the stream is due.
    Rest { status: u16 },
    /// The reply is complete.
    Done { status: u16, body: String },
    /// The reply is given up.
    Failed { error: ExchangeError },
}

/// An `Exchange` by the characters of its texts.
pub enum ExchangeView {
    Status,
    Headers { status: u16, count: usize, chunked: bool, length: Option<usize> },
    ChunkSize { status: u16, body: Seq<char> },
    ChunkData { status: u16, body: Seq<char>, size: usize },
    ChunkEnd { status: u16, body: Seq<char> },
    Body { status: u16, size: usize },
    Rest { status: u16 },
    Done { status: u16, body: Seq<char> },
    Failed { error: ExchangeErrorView },
}

impl View for Exchange {
    type V = ExchangeView;

    open spec fn view(&self) -> ExchangeView {
        match *self {
            Exchange::Status => ExchangeView::Status,
            Exchange::Headers { status, count, chunked, length } => ExchangeView::Headers {
                status,
                count,
                chunked,
                length,
            },
            Exchange::ChunkSize { status, body } => ExchangeView::ChunkSize { status, body: body@ },
            Exchange::ChunkData { status, body, size } => ExchangeView::ChunkData {
                status,
                body: body@,
                size,
            },
            Exchange::ChunkEnd { status, body } => ExchangeView::ChunkEnd { status, body: body@ },
            Exchange::Body { status, size } => ExchangeView::Body { status, size },
            Exchange::Rest { status } => ExchangeView::Rest { status },
            Exchange::Done { status, body } => ExchangeView::Done { status, body: body@ },
            Exchange::Failed { error } => ExchangeView::Failed { error: error@ },
        }
    }
}

/// The reply keeps to the demand: it has the bytes that were wanted and no more, and
/// those of a body or a chunk are valid UTF-8.
pub open spec fn keeps_to(reply: ReplyView, demand: Demand) -> bool {
    match (demand, reply) {
        (Demand::Exact { count }, ReplyView::Bytes(bytes)) => bytes.len() == count
            && vstd::utf8::valid_utf8(bytes),
        (Demand::Rest { most }, ReplyView::Bytes(bytes)) => bytes.len() <= most,
        _ => true,
    }
}

/// The status code of a status line: its second word, or 500 if that is no code.
pub open spec fn status_code(line: Seq<char>) -> u16 {
    let words = text::words(line);
    if words.len() > 1 {
        match text::number_value(words[1], 10, 65535) {
            Ok(code) => code as u16,
            Err(_) => 500,
        }
    } else {
        500
    }
}

/// Whether a header, in lower case, announces a body in chunks.
pub open spec fn announces_chunks(lowered: Seq<char>) -> bool {
    &&& "transfer-encoding:"@.is_prefix_of(lowered)
    &&& text::contains_text(lowered, "chunked"@)
}

/// The length of the body after a header, as it stands and in lower case, if it was
/// `before` the header.
pub open spec fn announced_length(
    header: Seq<char>,
    lowered: Seq<char>,
    before: Option<usize>,
) -> Option<usize> {
    if "content-length:"@.is_prefix_of(lowered) {
        match text::after_mark(header, ':') {
            None => before,
            Some(value) => match text::number_value(text::trimmed(value), 10, usize::MAX as nat) {
                Ok(length) => Some(length as usize),
                Err(_) => None,
            },
        }
    } else {
        before
    }
}

/// What follows the headers.
pub open spec fn after_headers(status: u16, chunked: bool, length: Option<usize>) -> ExchangeView {
    if chunked {
        ExchangeView::ChunkSize { status, body: Seq::empty() }
    } else {
        match length {
            Some(size) => if size > MAX_UDS_PAYLOAD_SIZE {
                ExchangeView::Failed { error: ExchangeErrorView::LengthTooLarge { length: size } }
            } else {
                ExchangeView::Body { status, size }
            },
            None => ExchangeView::Rest { status },
        }
    }
}

/// What follows one line of the headers, of which the text without white space around
/// it is given, as it stands and in lower case.
pub open spec fn after_header_text(
    status: u16,
    count: usize,
    chunked: bool,
    length: Option<usize>,
    header: Seq<char>,
    lowered: Seq<char>,
) -> ExchangeView {
    if header.len() == 0 {
        after_headers(status, chunked, length)
    } else if count >= MAX_HEADERS {
        ExchangeView::Failed { error: ExchangeErrorView::TooManyHeaders }
    } else {
        ExchangeView::Headers {
            status,
            count: (count + 1) as usize,
            chunked: chunked || announces_chunks(lowered),
            length: announced_length(header, lowered, length),
        }
    }
}

/// What follows one line of the headers.
pub open spec fn after_header(
    status: u16,
    count: usize,
    chunked: bool,
    length: Option<usize>,
    line: Seq<char>,
) -> ExchangeView {
    after_header_text(
        status,
        count,
        chunked,
        length,
        text::trimmed(line),
        encoding::lowercase(text::trimmed(line)),
    )
}

/// What follows a line that gives the size of a chunk.
pub open spec fn after_chunk_size(status: u16, body: Seq<char>, line: Seq<char>) -> ExchangeView {
    let size = text::trimmed(text::before_mark(line, ';'));
    if size.len() == 0 {
        ExchangeView::ChunkSize { status, body }
    } else {
        match text::number_value(size, 16, usize::MAX as nat) {
            Err(fault) => ExchangeView::Failed { error: ExchangeErrorView::BadChunkSize { fault } },
            Ok(n) => if n == 0 {
                ExchangeView::Done { status, body }
            } else if http::byte_count(body) + n > MAX_UDS_PAYLOAD_SIZE {
                ExchangeView::Failed { error: ExchangeErrorView::ChunksTooLarge }
            } else {
                ExchangeView::ChunkData { status, body, size: n as usize }
            },
        }
    }
}

impl ExchangeView {
    /// The exchange has read no more headers than a reply may have, and waits for no
    /// more bytes than a body may have.
    pub open spec fn within_bounds(self) -> bool {
        match self {
            ExchangeView::Headers { count, .. } => count <= MAX_HEADERS,
            ExchangeView::ChunkData { body, size, .. } => http::byte_count(body) + size
                <= MAX_UDS_PAYLOAD_SIZE,
            ExchangeView::Body { size, .. } => size <= MAX_UDS_PAYLOAD_SIZE,
            _ => true,
        }
    }

    /// The body, with what is still due of it, is no longer than it may be.
    pub open spec fn body_within_bounds(self) -> bool {
        match self {
            ExchangeView::ChunkSize { body, .. } => http::byte_count(body) <= MAX_UDS_PAYLOAD_SIZE,
            ExchangeView::ChunkData { body, size, .. } => http::byte_count(body) + size
                <= MAX_UDS_PAYLOAD_SIZE,
            ExchangeView::ChunkEnd { body, .. } => http::byte_count(body) <= MAX_UDS_PAYLOAD_SIZE,
            ExchangeView::Body { size, .. } => size <= MAX_UDS_PAYLOAD_SIZE,
            ExchangeView::Done { body, .. } => http::byte_count(body) <= MAX_UDS_PAYLOAD_SIZE,
            _ => true,
        }
    }

    /// What the exchange wants next.
    pub open spec fn demand(self) -> Demand {
        match self {
            ExchangeView::Status => Demand::Line { limit: MAX_LINE },
            ExchangeView::Headers { .. } => Demand::Line { limit: MAX_LINE },
            ExchangeView::ChunkSize { .. } => Demand::Line { limit: MAX_LINE },
            ExchangeView::ChunkData { size, .. } => Demand::Exact { count: size },
            ExchangeView::ChunkEnd { .. } => Demand::Gap,
            ExchangeView::Body { size, .. } => Demand::Exact { count: size },
            ExchangeView::Rest { .. } => Demand::Rest { most: MAX_UDS_PAYLOAD_SIZE },
            ExchangeView::Done { .. } => Demand::Nothing,
            ExchangeView::Failed { .. } => Demand::Nothing,
        }
    }

    /// What a line makes of the exchange.
    pub open spec fn after_line(self, line: Seq<char>) -> ExchangeView {
        match self {
            ExchangeView::Status => if line.len() == 0 {
                ExchangeView::Failed { error: ExchangeErrorView::EmptyFrame }
            } else {
                ExchangeView::Headers {
                    status: status_code(line),
                    count: 0,
                    chunked: false,
                    length: None,
                }
            },
            ExchangeView::Headers { status, count, chunked, length } => after_header(
                status,
                count,
                chunked,
                length,
                line,
            ),
            ExchangeView::ChunkSize { status, body } => after_chunk_size(status, body, line),
            _ => self,
        }
    }

    /// What the bytes that it wanted make of the exchange.
    pub open spec fn after_bytes(self, bytes: Seq<u8>) -> ExchangeView {
        match self {
            ExchangeView::ChunkData { status, body, .. } => ExchangeView::ChunkEnd {
                status,
                body: body + encoding::lossy_decoding(bytes),
            },
            ExchangeView::ChunkEnd { status, body } => ExchangeView::ChunkSize { status, body },
            ExchangeView::Body { status, .. } => ExchangeView::Done {
                status,
                body: encoding::lossy_decoding(bytes),
            },
            ExchangeView::Rest { status } => if vstd::utf8::valid_utf8(bytes) {
                ExchangeView::Done { status, body: vstd::utf8::decode_utf8(bytes) }
            } else {
                ExchangeView::Failed { error: ExchangeErrorView::NotText }
            },
            ExchangeView::Done { .. } => self,
            ExchangeView::Failed { .. } => self,
            _ => match http::line_text(bytes, MAX_LINE as nat) {
                Ok(line) => self.after_line(line),
                Err(error) => ExchangeView::Failed { error },
            },
        }
    }

    /// What a failure of the socket makes of the exchange.
    pub open spec fn after_failure(self, cause: Seq<char>) -> ExchangeView {
        match self {
            ExchangeView::ChunkData { .. } => ExchangeView::Failed {
                error: ExchangeErrorView::Io { stage: Stage::Chunk, cause },
            },
            ExchangeView::ChunkEnd { status, body } => ExchangeView::ChunkSize { status, body },
            ExchangeView::Body { .. } => ExchangeView::Failed {
                error: ExchangeErrorView::Io { stage: Stage::Body, cause },
            },
            ExchangeView::Rest { .. } => ExchangeView::Failed {
                error: ExchangeErrorView::Io { stage: Stage::Rest, cause },
            },
            ExchangeView::Done { .. } => self,
            ExchangeView::Failed { .. } => self,
            _ => ExchangeView::Failed {
                error: ExchangeErrorView::Io { stage: Stage::Line, cause },
            },
        }
    }

    /// What a reply of the socket makes of the exchange.
    pub open spec fn after(self, reply: ReplyView) -> ExchangeView {
        match reply {
            ReplyView::Bytes(bytes) => self.after_bytes(bytes),
            ReplyView::Failed(cause) => self.after_failure(cause),
        }
    }
}

/// Reads the status code of a status line.
pub fn read_status_code(line: &str) -> (r: u16)
    ensures
        r == status_code(line@),
{
    let words = text::split_whitespace(line);
    let ghost as_text = |word: String| word@;
    assert(words@.map_values(as_text) == text::words(line@));
    if words.len() > 1 {
        assert(words@.map_values(as_text)[1] == words@[1]@);
        match text::parse_number(words[1].as_str(), 10, 65535) {
            Ok(code) => code as u16,
            Err(_) => 500,
        }
    } else {
        500
    }
}

/// Takes in one line of the headers, of which the text without white space around it
/// is given, as it stands and in lower case.
pub fn read_header(
    status: u16,
    count: usize,
    chunked: bool,
    length: Option<usize>,
    header: &str,
    lowered: &str,
) -> (r: Exchange)
    ensures
        r@ == after_header_text(status, count, chunked, length, header@, lowered@),
{
    if header.is_empty() {
        if chunked {
            return Exchange::ChunkSize { status, body: String::new() };
        }
        return match length {
            Some(size) => if size > MAX_UDS_PAYLOAD_SIZE {
                Exchange::Failed { error: ExchangeError::LengthTooLarge { length: size } }
            } else {
                Exchange::Body { status, size }
            },
            None => Exchange::Rest { status },
        };
    }
    if count >= MAX_HEADERS {
        return Exchange::Failed { error: ExchangeError::TooManyHeaders };
    }
    let in_chunks = text::starts_with(lowered, "transfer-encoding:") && text::contains(
        lowered,
        "chunked",
    );
    let new_length = if text::starts_with(lowered, "content-length:") {
        match text::split_at_mark(header, ':').1 {
            None => length,
            Some(value) => match text::parse_number(
                text::trim(value.as_str()).as_str(),
                10,
                usize::MAX,
            ) {
                Ok(n) => Some(n),
                Err(_) => None,
            },
        }
    } else {
        length
    };
    Exchange::Headers { status, count: count + 1, chunked: chunked || in_chunks, length: new_length }
}

/// Takes in a line that gives the size of a chunk.
pub fn read_chunk_size(status: u16, body: String, line: &str) -> (r: Exchange)
    ensures
        r@ == after_chunk_size(status, body@, line@),
{
    let size = text::trim(text::split_at_mark(line, ';').0.as_str());
    if size.as_str().is_empty() {
        return Exchange::ChunkSize { status, body };
    }
    match text::parse_number(size.as_str(), 16, usize::MAX) {
        Err(fault) => Exchange::Failed { error: ExchangeError::BadChunkSize { fault } },
        Ok(n) => {
            if n == 0 {
                return Exchange::Done { status, body };
            }
            let held: usize = count_bytes(body.as_str());
            if n > MAX_UDS_PAYLOAD_SIZE || held > MAX_UDS_PAYLOAD_SIZE - n {
                Exchange::Failed { error: ExchangeError::ChunksTooLarge }
            } else {
                Exchange::ChunkData { status, body, size: n }
            }
        },
    }
}

impl Exchange {
    /// An exchange whose request has been sent.
    pub fn new() -> (r: Self)
        ensures
            r@ == ExchangeView::Status,
            r@.within_bounds(),
            r@.body_within_bounds(),
    {
        Exchange::Status
    }

    /// What the exchange wants next from the socket.
    pub fn demand(&self) -> (r: Demand)
        ensures
            r == self@.demand(),
    {
        match self {
            Exchange::Status => Demand::Line { limit: MAX_LINE },
            Exchange::Headers { .. } => Demand::Line { limit: MAX_LINE },
            Exchange::ChunkSize { .. } => Demand::Line { limit: MAX_LINE },
            Exchange::ChunkData { size, .. } => Demand::Exact { count: *size },
            Exchange::ChunkEnd { .. } => Demand::Gap,
            Exchange::Body { size, .. } => Demand::Exact { count: *size },
            Exchange::Rest { .. } => Demand::Rest { most: MAX_UDS_PAYLOAD_SIZE },
            Exchange::Done { .. } => Demand::Nothing,
            Exchange::Failed { .. } => Demand::Nothing,
        }
    }

    /// Takes in the bytes that the exchange wanted.
    fn take_bytes(self, bytes: Vec<u8>) -> (r: Self)
        ensures
            r@ == self@.after_bytes(bytes@),
            self@.body_within_bounds() && keeps_to(ReplyView::Bytes(bytes@), self@.demand())
                ==> r@.body_within_bounds(),
    {
        proof {
            if vstd::utf8::valid_utf8(bytes@) {
                http::lemma_byte_count_decoded(bytes@);
            }
        }
        match self {
            Exchange::ChunkData { status, body, .. } => {
                let mut grown = body;
                let chunk = encoding::lossy_text(bytes.as_slice());
                proof {
                    http::lemma_byte_count_concat(body@, chunk@);
                }
                grown.append(chunk.as_str());
                Exchange::ChunkEnd { status, body: grown }
            },
            Exchange::ChunkEnd { status, body } => Exchange::ChunkSize { status, body },
            Exchange::Body { status, .. } => {
                Exchange::Done { status, body: encoding::lossy_text(bytes.as_slice()) }
            },
            Exchange::Rest { status } => match encoding::exact_text(bytes.as_slice()) {
                Some(body) => Exchange::Done { status, body },
                None => Exchange::Failed { error: ExchangeError::NotText },
            },
            Exchange::Done { status, body } => Exchange::Done { status, body },
            Exchange::Failed { error } => Exchange::Failed { error },
            Exchange::Status => match bounded_line(&bytes, MAX_LINE) {
                Ok(line) => if line.as_str().is_empty() {
                    Exchange::Failed { error: ExchangeError::EmptyFrame }
                } else {
                    Exchange::Headers {
                        status: read_status_code(line.as_str()),
                        count: 0,
                        chunked: false,
                        length: None,
                    }
                },
                Err(error) => Exchange::Failed { error },
            },
            Exchange::Headers { status, count, chunked, length } => match bounded_line(
                &bytes,
                MAX_LINE,
            ) {
                Ok(line) => {
                    let header = text::trim(line.as_str());
                    let lowered = encoding::lower_text(header.as_str());
                    read_header(status, count, chunked, length, header.as_str(), lowered.as_str())
                },
                Err(error) => Exchange::Failed { error },
            },
            Exchange::ChunkSize { status, body } => match bounded_line(&bytes, MAX_LINE) {
                Ok(line) => read_chunk_size(status, body, line.as_str()),
                Err(error) => Exchange::Failed { error },
            },
        }
    }

    /// Takes in a failure of the socket.
    fn take_failure(self, cause: String) -> (r: Self)
        ensures
            r@ == self@.after_failure(cause@),
    {
        match self {
            Exchange::ChunkData { .. } => Exchange::Failed {
                error: ExchangeError::Io { stage: Stage::Chunk, cause },
            },
            Exchange::ChunkEnd { status, body } => Exchange::ChunkSize { status, body },
            Exchange::Body { .. } => Exchange::Failed {
                error: ExchangeError::Io { stage: Stage::Body, cause },
            },
            Exchange::Rest { .. } => Exchange::Failed {
                error: ExchangeError::Io { stage: Stage::Rest, cause },
            },
            Exchange::Done { status, body } => Exchange::Done { status, body },
            Exchange::Failed { error } => Exchange::Failed { error },
            _ => Exchange::Failed { error: ExchangeError::Io { stage: Stage::Line, cause } },
        }
    }

    /// Takes in what the socket gave for the last demand.
    pub fn step(self, reply: Reply) -> (r: Self)
        ensures
            r@ == self@.after(reply@),
            self@.within_bounds() ==> r@.within_bounds(),
            self@.body_within_bounds() && keeps_to(reply@, self@.demand())
                ==> r@.body_within_bounds(),
    {
        match reply {
            Reply::Bytes(bytes) => self.take_bytes(bytes),
            Reply::Failed(cause) => self.take_failure(cause),
        }
    }
}

/// However the socket answers, an exchange never asks for more bytes at a time than
/// the body of a reply may have.
pub proof fn law_demands_are_bounded(state: ExchangeView, reply: ReplyView)
    requires
        state.within_bounds(),
    ensures
        state.after(reply).within_bounds(),
        match state.demand() {
            Demand::Line { limit } => limit == MAX_LINE,
            Demand::Exact { count } => count <= MAX_UDS_PAYLOAD_SIZE,
            Demand::Rest { most } => most == MAX_UDS_PAYLOAD_SIZE,
            Demand::Gap => true,
            Demand::Nothing => true,
        },
{
}

/// How a reply ends: a status code with a body, or an error.
pub type Outcome = Result<(u16, Seq<char>), ExchangeErrorView>;

/// The cause that is given where a stream ends too early.
pub const SHORT_READ: &'static str = "failed to fill whole buffer";

/// The first `count` elements of `s`, or all there are.
pub open spec fn up_to(s: Seq<u8>, count: nat) -> Seq<u8> {
    if count <= s.len() {
        s.take(count as int)
    } else {
        s
    }
}

/// What is left of `s` behind its first `count` elements.
pub open spec fn beyond(s: Seq<u8>, count: nat) -> Seq<u8> {
    if count <= s.len() {
        s.skip(count as int)
    } else {
        Seq::empty()
    }
}

/// The first line of `s`.
pub open spec fn first_line(s: Seq<u8>) -> Seq<u8> {
    s.take(http::line_length(s, MAX_LINE as nat) as int)
}

/// What is left of `s` behind its first line.
pub open spec fn behind_line(s: Seq<u8>) -> Seq<u8> {
    s.skip(http::line_length(s, MAX_LINE as nat) as int)
}

/// How the reply ends whose whole bytes are `s`: a status line, headers, a body.
/// There is no end where a body in chunks breaks off between two chunks.
pub open spec fn reply_outcome(s: Seq<u8>) -> Option<Outcome> {
    match http::line_text(first_line(s), MAX_LINE as nat) {
        Err(error) => Some(Err(error)),
        Ok(line) => if line.len() == 0 {
            Some(Err(ExchangeErrorView::EmptyFrame))
        } else {
            headers_outcome(behind_line(s), status_code(line), 0, false, None)
        },
    }
}

/// How the reply ends whose bytes behind `count` headers are `s`.
pub open spec fn headers_outcome(
    s: Seq<u8>,
    status: u16,
    count: nat,
    chunked: bool,
    length: Option<usize>,
) -> Option<Outcome>
    decreases MAX_HEADERS + 1 - count,
{
    if count > MAX_HEADERS {
        Some(Err(ExchangeErrorView::TooManyHeaders))
    } else {
        match http::line_text(first_line(s), MAX_LINE as nat) {
            Err(error) => Some(Err(error)),
            Ok(line) => {
                let header = text::trimmed(line);
                if header.len() == 0 {
                    body_outcome(behind_line(s), status, chunked, length)
                } else {
                    headers_outcome(
                        behind_line(s),
                        status,
                        count + 1,
                        chunked || announces_chunks(encoding::lowercase(header)),
                        announced_length(header, encoding::lowercase(header), length),
                    )
                }
            },
        }
    }
}

/// How the reply ends whose bytes behind the headers are `s`.
pub open spec fn body_outcome(
    s: Seq<u8>,
    status: u16,
    chunked: bool,
    length: Option<usize>,
) -> Option<Outcome> {
    if chunked {
        chunks_outcome(s, status, Seq::empty())
    } else {
        match length {
            Some(size) => if size > MAX_UDS_PAYLOAD_SIZE {
                Some(Err(ExchangeErrorView::LengthTooLarge { length: size }))
            } else {
                sized_outcome(s, status, size)
            },
            None => rest_outcome(s, status),
        }
    }
}

/// How the reply ends whose body is the first `size` bytes of `s`.
pub open spec fn sized_outcome(s: Seq<u8>, status: u16, size: usize) -> Option<Outcome> {
    if size <= s.len() {
        Some(Ok((status, encoding::lossy_decoding(s.take(size as int)))))
    } else {
        Some(Err(ExchangeErrorView::Io { stage: Stage::Body, cause: SHORT_READ@ }))
    }
}

/// How the reply ends whose body is all of `s`.
pub open spec fn rest_outcome(s: Seq<u8>, status: u16) -> Option<Outcome> {
    let body = up_to(s, MAX_UDS_PAYLOAD_SIZE as nat);
    if vstd::utf8::valid_utf8(body) {
        Some(Ok((status, vstd::utf8::decode_utf8(body))))
    } else {
        Some(Err(ExchangeErrorView::NotText))
    }
}

/// How the reply ends whose chunks so far made `body`, if `s` follows.
pub open spec fn chunks_outcome(s: Seq<u8>, status: u16, body: Seq<char>) -> Option<Outcome>
    decreases s.len(),
    via chunks_outcome_decreases
{
    if s.len() == 0 {
        None
    } else {
        match http::line_text(first_line(s), MAX_LINE as nat) {
            Err(error) => Some(Err(error)),
            Ok(line) => {
                let size = text::trimmed(text::before_mark(line, ';'));
                if size.len() == 0 {
                    chunks_outcome(behind_line(s), status, body)
                } else {
                    match text::number_value(size, 16, usize::MAX as nat) {
                        Err(fault) => Some(Err(ExchangeErrorView::BadChunkSize { fault })),
                        Ok(n) => if n == 0 {
                            Some(Ok((status, body)))
                        } else if http::byte_count(body) + n > MAX_UDS_PAYLOAD_SIZE {
                            Some(Err(ExchangeErrorView::ChunksTooLarge))
                        } else if n > behind_line(s).len() {
                            Some(
                                Err(
                                    ExchangeErrorView::Io { stage: Stage::Chunk, cause: SHORT_READ@
                                    },
                                ),
                            )
                        } else {
                            chunks_outcome(
                                beyond(behind_line(s).skip(n as int), 2),
                                status,
                                body + encoding::lossy_decoding(behind_line(s).take(n as int)),
                            )
                        },
                    }
                }
            },
        }
    }
}

#[via_fn]
proof fn chunks_outcome_decreases(s: Seq<u8>, status: u16, body: Seq<char>) {
    http::lemma_line_length(s, MAX_LINE as nat);
}

impl ExchangeView {
    /// How the exchange ends if the bytes still to come are `s`.
    pub open spec fn outcome(self, s: Seq<u8>) -> Option<Outcome> {
        match self {
            ExchangeView::Status => reply_outcome(s),
            ExchangeView::Headers { status, count, chunked, length } => headers_outcome(
                s,
                status,
                count as nat,
                chunked,
                length,
            ),
            ExchangeView::ChunkSize { status, body } => chunks_outcome(s, status, body),
            ExchangeView::ChunkData { status, body, size } => if size <= s.len() {
                chunks_outcome(
                    beyond(s.skip(size as int), 2),
                    status,
                    body + encoding::lossy_decoding(s.take(size as int)),
                )
            } else {
                Some(Err(ExchangeErrorView::Io { stage: Stage::Chunk, cause: SHORT_READ@ }))
            },
            ExchangeView::ChunkEnd { status, body } => chunks_outcome(beyond(s, 2), status, body),
            ExchangeView::Body { status, size } => sized_outcome(s, status, size),
            ExchangeView::Rest { status } => rest_outcome(s, status),
            ExchangeView::Done { status, body } => Some(Ok((status, body))),
            ExchangeView::Failed { error } => Some(Err(error)),
        }
    }

    /// How close the exchange is to its end, if no more bytes come.
    pub open spec fn phase(self) -> nat {
        match self {
            ExchangeView::Status => (6 + MAX_HEADERS) as nat,
            ExchangeView::Headers { count, .. } => (5 + MAX_HEADERS - count) as nat,
            ExchangeView::ChunkData { .. } => 4,
            ExchangeView::ChunkEnd { .. } => 3,
            ExchangeView::ChunkSize { .. } => 2,
            ExchangeView::Body { .. } => 1,
            ExchangeView::Rest { .. } => 1,
            ExchangeView::Done { .. } => 0,
            ExchangeView::Failed { .. } => 0,
        }
    }
}

/// Gives the exchange what it wants out of a complete stream.
fn serve(demand: Demand, stream: &mut ByteCursor) -> (r: Reply)
    requires
        old(stream).valid(),
    ensures
        final(stream).valid(),
        match demand {
            Demand::Line { limit } => r@ == ReplyView::Bytes(
                old(stream).rest().take(
                    http::line_length(old(stream).rest(), limit as nat) as int,
                ),
            ) && final(stream).rest() == old(stream).rest().skip(
                http::line_length(old(stream).rest(), limit as nat) as int,
            ),
            Demand::Exact { count } => if count <= old(stream).rest().len() {
                r@ == ReplyView::Bytes(old(stream).rest().take(count as int))
                    && final(stream).rest() == old(stream).rest().skip(count as int)
            } else {
                r@ == ReplyView::Failed(SHORT_READ@) && final(stream).rest() == Seq::<u8>::empty()
            },
            Demand::Gap => r@ == ReplyView::Bytes(up_to(old(stream).rest(), 2))
                && final(stream).rest() == beyond(old(stream).rest(), 2),
            Demand::Rest { most } => r@ == ReplyView::Bytes(up_to(old(stream).rest(), most as nat))
                && final(stream).rest() == beyond(old(stream).rest(), most as nat),
            Demand::Nothing => r@ == ReplyView::Bytes(Seq::empty()) && final(stream).rest() == old(
                stream,
            ).rest(),
        },
{
    match demand {
        Demand::Line { limit } => Reply::Bytes(stream.take_line(limit)),
        Demand::Exact { count } => {
            let bytes = stream.take(count);
            if bytes.len() < count {
                Reply::Failed(SHORT_READ.to_owned())
            } else {
                Reply::Bytes(bytes)
            }
        },
        Demand::Gap => Reply::Bytes(stream.take(2)),
        Demand::Rest { most } => Reply::Bytes(stream.take(most)),
        Demand::Nothing => {
            let nothing: Vec<u8> = Vec::new();
            Reply::Bytes(nothing)
        },
    }
}

/// Reads a reply whose whole bytes are given, by the same steps that are taken on a
/// socket. There is no result where the bytes break off between two chunks. The body of
/// a reply in ASCII is never longer than a body may be.
pub fn read_reply(bytes: Vec<u8>) -> (r: Option<Result<(u16, String), ExchangeError>>)
    ensures
        match r {
            None => reply_outcome(bytes@) is None,
            Some(Ok(reply)) => reply_outcome(bytes@) == Some(
                Ok::<(u16, Seq<char>), ExchangeErrorView>((reply.0, reply.1@)),
            ),
            Some(Err(error)) => reply_outcome(bytes@) == Some(
                Err::<(u16, Seq<char>), ExchangeErrorView>(error@),
            ),
        },
        http::is_ascii_bytes(bytes@) ==> (r matches Some(Ok(reply)) ==> http::byte_count(reply.1@)
            <= MAX_UDS_PAYLOAD_SIZE),
{
    let ghost whole = bytes@;
    let mut stream = ByteCursor::new(bytes);
    let mut exchange = Exchange::new();
    loop
        invariant
            stream.valid(),
            whole == bytes@,
            exchange@.within_bounds(),
            exchange@.outcome(stream.rest()) == reply_outcome(whole),
            http::is_ascii_bytes(whole) ==> http::is_ascii_bytes(stream.rest())
                && exchange@.body_within_bounds(),
        decreases stream.rest().len(), exchange@.phase(),
    {
        let ghost before = exchange@;
        let ghost rest = stream.rest();
        match exchange {
            Exchange::Done { status, body } => {
                return Some(Ok((status, body)));
            },
            Exchange::Failed { error } => {
                return Some(Err(error));
            },
            running => {
                let waits = match running {
                    Exchange::ChunkSize { .. } => true,
                    _ => false,
                };
                if waits && stream.position == stream.bytes.len() {
                    return None;
                }
                let reply = serve(running.demand(), &mut stream);
                proof {
                    http::lemma_line_length(rest, MAX_LINE as nat);
                    if http::is_ascii_bytes(rest) {
                        if let ReplyView::Bytes(given) = reply@ {
                            assert(http::is_ascii_bytes(given));
                            http::lemma_ascii_is_valid(given);
                        }
                        assert(http::is_ascii_bytes(stream.rest()));
                    }
                }
                exchange = running.step(reply);
                proof {
                    lemma_step_keeps_outcome(before, rest);
                }
            },
        }
    }
}

/// A step with what a complete stream gives leads to the same end.
proof fn lemma_step_keeps_outcome(state: ExchangeView, s: Seq<u8>)
    requires
        !(state is Done) && !(state is Failed),
        state.within_bounds(),
    ensures
        state.demand() is Line && !(state is ChunkSize && s.len() == 0) ==> state.after_bytes(
            first_line(s),
        ).outcome(behind_line(s)) == state.outcome(s),
{
    reveal_with_fuel(headers_outcome, 2);
}

} // verus!
