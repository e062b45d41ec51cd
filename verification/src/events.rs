//! The engine's stream of events: its headers, its chunks and the lines in them.
use crate::encoding;
use crate::framing::line_text;
use crate::framing;
use crate::http::NEWLINE;
use crate::text;
use vstd::prelude::*;

verus! {

/// The request for the events of containers that start and die.
pub const EVENTS_ENDPOINT: &'static str =
    "/events?filters=%7B%22type%22%3A%5B%22container%22%5D%2C%22event%22%3A%5B%22start%22%2C%22die%22%5D%7D";

/// The number of lines after which the headers of the stream are over in any case.
pub const MAX_EVENT_HEADERS: usize = 100;

/// The number of bytes above which the unfinished text of the stream is dropped.
pub const MAX_EVENT_BUFFER: usize = 65536;

/// Writes the request for the stream of events.
pub fn events_request() -> (r: String)
    ensures
        r@ == "GET "@ + EVENTS_ENDPOINT@
            + " HTTP/1.1\r\nHost: localhost\r\nConnection: keep-alive\r\n\r\n"@,
{
    let mut request = "GET ".to_owned();
    request.append(EVENTS_ENDPOINT);
    request.append(" HTTP/1.1\r\nHost: localhost\r\nConnection: keep-alive\r\n\r\n");
    request
}

/// Where the stream stands.
#[derive(Debug)]
pub enum EventPhase {
    /// A line of the headers is due.
    Headers { count: usize, status_ok: bool, chunked: bool },
    /// The size of a chunk is due.
    ChunkSize,
    /// The bytes of a chunk are due.
    ChunkData { size: usize },
    /// The two bytes behind a chunk are due.
    ChunkEnd { chunk: Vec<u8> },
    /// The stream is over, and has to be opened anew.
    Closed,
}

/// An `EventPhase` by its contents.
pub enum EventPhaseView {
    Headers { count: usize, status_ok: bool, chunked: bool },
    ChunkSize,
    ChunkData { size: usize },
    ChunkEnd { chunk: Seq<u8> },
    Closed,
}

impl View for EventPhase {
    type V = EventPhaseView;

    open spec fn view(&self) -> EventPhaseView {
        match *self {
            EventPhase::Headers { count, status_ok, chunked } => EventPhaseView::Headers {
                count,
                status_ok,
                chunked,
            },
            EventPhase::ChunkSize => EventPhaseView::ChunkSize,
            EventPhase::ChunkData { size } => EventPhaseView::ChunkData { size },
            EventPhase::ChunkEnd { chunk } => EventPhaseView::ChunkEnd { chunk: chunk@ },
            EventPhase::Closed => EventPhaseView::Closed,
        }
    }
}

/// What the stream wants next.
#[derive(Debug, Clone, Copy, PartialEq, Eq, Structural)]
pub enum EventDemand {
    /// A line.
    Line,
    /// Exactly `count` bytes.
    Exact { count: usize },
    /// Nothing: the stream is over.
    Nothing,
}

/// What came.
#[derive(Debug)]
pub enum EventReply {
    /// A line with its newline, if it has one: nothing at all at the end.
    Line { line: String },
    /// The bytes that were wanted.
    Bytes { bytes: Vec<u8> },
    /// The connection failed.
    Failed,
}

/// What follows the headers: chunks, if the engine agreed to send them.
pub open spec fn after_event_headers(status_ok: bool, chunked: bool) -> EventPhaseView {
    if status_ok && chunked {
        EventPhaseView::ChunkSize
    } else {
        EventPhaseView::Closed
    }
}

/// A status line that says that the request is granted.
pub open spec fn is_granted(line: Seq<char>) -> bool {
    ||| "HTTP/1.1 200"@.is_prefix_of(line)
    ||| "HTTP/1.0 200"@.is_prefix_of(line)
}

/// What follows a line of the headers, of which the text without white space around it
/// is given besides, as it stands and in lower case.
pub open spec fn after_event_text(
    count: usize,
    status_ok: bool,
    chunked: bool,
    line: Seq<char>,
    header: Seq<char>,
    lowered: Seq<char>,
) -> EventPhaseView {
    let ok = status_ok || is_granted(line);
    let in_chunks = chunked || crate::exchange::announces_chunks(lowered);
    if header.len() == 0 {
        after_event_headers(status_ok, chunked)
    } else if count + 1 >= MAX_EVENT_HEADERS {
        after_event_headers(ok, in_chunks)
    } else {
        EventPhaseView::Headers { count: (count + 1) as usize, status_ok: ok, chunked: in_chunks }
    }
}

/// What follows a line of the headers.
pub open spec fn after_event_header(
    count: usize,
    status_ok: bool,
    chunked: bool,
    line: Seq<char>,
) -> EventPhaseView {
    after_event_text(
        count,
        status_ok,
        chunked,
        line,
        text::trimmed(line),
        encoding::lowercase(text::trimmed(line)),
    )
}

/// What follows a line that gives the size of a chunk. At the end of the stream there
/// is no line.
pub open spec fn after_event_size(line: Seq<char>) -> EventPhaseView {
    let size = text::trimmed(line);
    if line.len() == 0 {
        EventPhaseView::Closed
    } else if size.len() == 0 {
        EventPhaseView::ChunkSize
    } else {
        match text::number_value(size, 16, usize::MAX as nat) {
            Ok(n) => if n == 0 {
                EventPhaseView::Closed
            } else {
                EventPhaseView::ChunkData { size: n as usize }
            },
            Err(_) => EventPhaseView::Closed,
        }
    }
}

/// The phase that follows what came.
pub open spec fn next_event_phase(phase: EventPhaseView, reply: EventReply) -> EventPhaseView {
    match phase {
        EventPhaseView::Headers { count, status_ok, chunked } => match reply {
            EventReply::Line { line } => after_event_header(count, status_ok, chunked, line@),
            _ => after_event_headers(status_ok, chunked),
        },
        EventPhaseView::ChunkSize => match reply {
            EventReply::Line { line } => after_event_size(line@),
            _ => EventPhaseView::Closed,
        },
        EventPhaseView::ChunkData { .. } => match reply {
            EventReply::Bytes { bytes } => EventPhaseView::ChunkEnd { chunk: bytes@ },
            _ => EventPhaseView::Closed,
        },
        EventPhaseView::ChunkEnd { .. } => match reply {
            EventReply::Bytes { .. } => EventPhaseView::ChunkSize,
            _ => EventPhaseView::Closed,
        },
        EventPhaseView::Closed => EventPhaseView::Closed,
    }
}

/// The unfinished text with a chunk behind it. If it grows too long, it is dropped.
pub open spec fn buffered(held: Seq<u8>, chunk: Seq<u8>) -> Seq<u8> {
    if (held + chunk).len() > MAX_EVENT_BUFFER {
        Seq::empty()
    } else {
        held + chunk
    }
}

/// The texts of lines, blank ones left out.
pub open spec fn line_texts(lines: Seq<Seq<u8>>) -> Seq<Seq<char>>
    decreases lines.len(),
{
    if lines.len() == 0 {
        Seq::empty()
    } else {
        let before = line_texts(lines.drop_last());
        let words = framing::line_words(lines.last());
        if words.len() > 0 {
            before.push(words)
        } else {
            before
        }
    }
}

/// The stream of events.
pub struct EventStream {
    pub phase: EventPhase,
    pub buffer: Vec<u8>,
}

/// Reads the texts of the finished lines of `bytes`, and what follows them.
fn drain_lines(bytes: &Vec<u8>) -> (r: (Vec<String>, Vec<u8>))
    ensures
        text::views(r.0@) == line_texts(text::split_seq(bytes@, NEWLINE).drop_last()),
        r.1@ == text::split_seq(bytes@, NEWLINE).last(),
{
    let mut texts: Vec<String> = Vec::new();
    let mut open: Vec<u8> = Vec::new();
    let mut i: usize = 0;
    let ghost mut pieces = text::split_seq(bytes@.take(0), NEWLINE);
    proof {
        assert(bytes@.take(0) =~= Seq::<u8>::empty());
        assert(pieces.drop_last() =~= Seq::<Seq<u8>>::empty());
        assert(text::views(texts@) =~= Seq::<Seq<char>>::empty());
        assert(open@ =~= pieces.last());
    }
    while i < bytes.len()
        invariant
            i <= bytes@.len(),
            pieces == text::split_seq(bytes@.take(i as int), NEWLINE),
            pieces.len() >= 1,
            text::views(texts@) == line_texts(pieces.drop_last()),
            open@ == pieces.last(),
        decreases bytes@.len() - i,
    {
        let ghost before = pieces;
        proof {
            assert(bytes@.take(i + 1).drop_last() =~= bytes@.take(i as int));
            assert(bytes@.take(i + 1).last() == bytes@[i as int]);
            pieces = text::split_seq(bytes@.take(i + 1), NEWLINE);
        }
        if bytes[i] == NEWLINE {
            assert(pieces.drop_last() =~= before);
            if let Some(words) = line_text(&open) {
                text::push_text(&mut texts, words.as_str());
            }
            open = Vec::new();
            assert(open@ =~= pieces.last());
        } else {
            assert(pieces.drop_last() =~= before.drop_last());
            open.push(bytes[i]);
        }
        i += 1;
    }
    assert(bytes@.take(i as int) =~= bytes@);
    (texts, open)
}

impl EventStream {
    /// A stream whose request has been sent.
    pub fn new() -> (r: Self)
        ensures
            r.phase@ == (EventPhaseView::Headers { count: 0, status_ok: false, chunked: false }),
            r.buffer@ == Seq::<u8>::empty(),
    {
        let buffer: Vec<u8> = Vec::new();
        EventStream {
            phase: EventPhase::Headers { count: 0, status_ok: false, chunked: false },
            buffer,
        }
    }

    /// What the stream wants next.
    pub fn demand(&self) -> (r: EventDemand)
        ensures
            r == (match self.phase@ {
                EventPhaseView::Headers { .. } => EventDemand::Line,
                EventPhaseView::ChunkSize => EventDemand::Line,
                EventPhaseView::ChunkData { size } => EventDemand::Exact { count: size },
                EventPhaseView::ChunkEnd { .. } => EventDemand::Exact { count: 2 },
                EventPhaseView::Closed => EventDemand::Nothing,
            }),
    {
        match &self.phase {
            EventPhase::Headers { .. } => EventDemand::Line,
            EventPhase::ChunkSize => EventDemand::Line,
            EventPhase::ChunkData { size } => EventDemand::Exact { count: *size },
            EventPhase::ChunkEnd { .. } => EventDemand::Exact { count: 2 },
            EventPhase::Closed => EventDemand::Nothing,
        }
    }

    /// Takes in what came, and gives out the texts of the lines that it completes.
    pub fn step(self, reply: EventReply) -> (r: (Self, Vec<String>))
        ensures
            r.0.phase@ == next_event_phase(self.phase@, reply),
            match self.phase@ {
                EventPhaseView::ChunkEnd { chunk } if reply is Bytes => {
                    let pieces = text::split_seq(buffered(self.buffer@, chunk), NEWLINE);
                    text::views(r.1@) == line_texts(pieces.drop_last()) && r.0.buffer@
                        == pieces.last()
                },
                _ => r.1@.len() == 0 && r.0.buffer@ == self.buffer@,
            },
            self.buffer@.len() <= MAX_EVENT_BUFFER ==> r.0.buffer@.len() <= MAX_EVENT_BUFFER,
    {
        let nothing: Vec<String> = Vec::new();
        let buffer = self.buffer;
        match self.phase {
            EventPhase::Headers { count, status_ok, chunked } => {
                let phase = match reply {
                    EventReply::Line { line } => {
                        let header = text::trim(line.as_str());
                        let lowered = encoding::lower_text(header.as_str());
                        read_event_header(
                            count,
                            status_ok,
                            chunked,
                            line.as_str(),
                            header.as_str(),
                            lowered.as_str(),
                        )
                    },
                    _ => if status_ok && chunked {
                        EventPhase::ChunkSize
                    } else {
                        EventPhase::Closed
                    },
                };
                (EventStream { phase, buffer }, nothing)
            },
            EventPhase::ChunkSize => {
                let phase = match reply {
                    EventReply::Line { line } => read_event_size(line.as_str()),
                    _ => EventPhase::Closed,
                };
                (EventStream { phase, buffer }, nothing)
            },
            EventPhase::ChunkData { .. } => {
                let phase = match reply {
                    EventReply::Bytes { bytes } => EventPhase::ChunkEnd { chunk: bytes },
                    _ => EventPhase::Closed,
                };
                (EventStream { phase, buffer }, nothing)
            },
            EventPhase::ChunkEnd { chunk } => match reply {
                EventReply::Bytes { .. } => {
                    let mut grown = buffer;
                    let mut added = chunk;
                    grown.append(&mut added);
                    if grown.len() > MAX_EVENT_BUFFER {
                        grown = Vec::new();
                    }
                    proof {
                        text::lemma_split_last(grown@, NEWLINE);
                    }
                    let (texts, open) = drain_lines(&grown);
                    (EventStream { phase: EventPhase::ChunkSize, buffer: open }, texts)
                },
                _ => (EventStream { phase: EventPhase::Closed, buffer }, nothing),
            },
            EventPhase::Closed => (EventStream { phase: EventPhase::Closed, buffer }, nothing),
        }
    }
}

/// Takes in a line of the headers, of which the text without white space around it is
/// given besides, as it stands and in lower case.
pub fn read_event_header(
    count: usize,
    status_ok: bool,
    chunked: bool,
    line: &str,
    header: &str,
    lowered: &str,
) -> (r: EventPhase)
    ensures
        r@ == after_event_text(count, status_ok, chunked, line@, header@, lowered@),
{
    let mut ok = status_ok;
    let mut in_chunks = chunked;
    let mut last = true;
    if !header.is_empty() {
        ok = ok || text::starts_with(line, "HTTP/1.1 200") || text::starts_with(
            line,
            "HTTP/1.0 200",
        );
        in_chunks = in_chunks || (text::starts_with(lowered, "transfer-encoding:")
            && text::contains(lowered, "chunked"));
        last = count >= MAX_EVENT_HEADERS - 1;
    }
    if !last {
        return EventPhase::Headers { count: count + 1, status_ok: ok, chunked: in_chunks };
    }
    if ok && in_chunks {
        EventPhase::ChunkSize
    } else {
        EventPhase::Closed
    }
}

/// Takes in a line that gives the size of a chunk.
pub fn read_event_size(line: &str) -> (r: EventPhase)
    ensures
        r@ == after_event_size(line@),
{
    if line.is_empty() {
        return EventPhase::Closed;
    }
    let size = text::trim(line);
    if size.as_str().is_empty() {
        return EventPhase::ChunkSize;
    }
    match text::parse_number(size.as_str(), 16, usize::MAX) {
        Ok(n) => if n == 0 {
            EventPhase::Closed
        } else {
            EventPhase::ChunkData { size: n }
        },
        Err(_) => EventPhase::Closed,
    }
}

/// The texts of two lists of lines, one behind the other.
proof fn lemma_texts_concat(first: Seq<Seq<u8>>, second: Seq<Seq<u8>>)
    ensures
        line_texts(first + second) == line_texts(first) + line_texts(second),
    decreases second.len(),
{
    if second.len() == 0 {
        assert(first + second =~= first);
        assert(line_texts(first) + Seq::<Seq<char>>::empty() =~= line_texts(first));
    } else {
        lemma_texts_concat(first, second.drop_last());
        assert((first + second).drop_last() =~= first + second.drop_last());
        assert((first + second).last() == second.last());
        assert(line_texts(first + second) =~= line_texts(first) + line_texts(second));
    }
}

/// As long as the unfinished text does not grow too long, it does not matter how the
/// stream is cut into chunks: the same lines come out, and the same text is kept.
pub proof fn law_events_ignore_chunks(held: Seq<u8>, first: Seq<u8>, second: Seq<u8>)
    requires
        held.len() + first.len() + second.len() <= MAX_EVENT_BUFFER,
    ensures
        ({
            let once = text::split_seq(buffered(held, first + second), NEWLINE);
            let before = text::split_seq(buffered(held, first), NEWLINE);
            let after = text::split_seq(buffered(before.last(), second), NEWLINE);
            &&& line_texts(once.drop_last()) == line_texts(before.drop_last()) + line_texts(
                after.drop_last(),
            )
            &&& once.last() == after.last()
        }),
{
    let start = held + first;
    text::lemma_split_last(start, NEWLINE);
    text::lemma_split_concat(start, second, NEWLINE);
    assert(held + (first + second) =~= start + second);
    let once = text::split_seq(start + second, NEWLINE);
    let before = text::split_seq(start, NEWLINE);
    let after = text::split_seq(before.last() + second, NEWLINE);
    text::lemma_split_last(before.last() + second, NEWLINE);
    assert(once.drop_last() =~= before.drop_last() + after.drop_last());
    lemma_texts_concat(before.drop_last(), after.drop_last());
}

} // verus!
