//! Cutting streams of bytes into lines of bounded length.
use crate::encoding;
use crate::http::NEWLINE;
use crate::logger::{LogEvent, LogEventView};
use crate::text;
use vstd::prelude::*;

verus! {

/// The number of bytes at which a line is too long.
pub const MAX_LINE_SIZE: usize = 8192;

/// What is found in a stream.
#[derive(Debug)]
pub enum Frame {
    /// A line, without its newline.
    Line { bytes: Vec<u8> },
    /// A line that is too long. The whole of it is passed over.
    Overflow,
}

/// A `Frame` by its contents.
pub enum FrameView {
    Line { bytes: Seq<u8> },
    Overflow,
}

impl View for Frame {
    type V = FrameView;

    open spec fn view(&self) -> FrameView {
        match *self {
            Frame::Line { bytes } => FrameView::Line { bytes: bytes@ },
            Frame::Overflow => FrameView::Overflow,
        }
    }
}

/// The contents of a list of frames.
pub open spec fn frame_views(frames: Seq<Frame>) -> Seq<FrameView> {
    frames.map_values(|frame: Frame| frame@)
}

/// What is kept between two reads: the beginning of a line, or that the line is too
/// long and its rest is passed over.
#[verifier::ext_equal]
pub struct FramerView {
    pub pending: Seq<u8>,
    pub discarding: bool,
}

/// What one byte makes of the state, and what it completes.
pub open spec fn frame_byte(state: FramerView, byte: u8) -> (FramerView, Seq<FrameView>) {
    let fresh = FramerView { pending: Seq::empty(), discarding: false };
    if byte == NEWLINE {
        if state.discarding {
            (fresh, Seq::empty())
        } else {
            (fresh, seq![FrameView::Line { bytes: state.pending }])
        }
    } else if state.discarding {
        (state, Seq::empty())
    } else if state.pending.len() + 1 >= MAX_LINE_SIZE {
        (FramerView { pending: Seq::empty(), discarding: true }, seq![FrameView::Overflow])
    } else {
        (FramerView { pending: state.pending.push(byte), discarding: false }, Seq::empty())
    }
}

/// What a sequence of bytes makes of the state, and what it completes.
pub open spec fn frame(state: FramerView, bytes: Seq<u8>) -> (FramerView, Seq<FrameView>)
    decreases bytes.len(),
{
    if bytes.len() == 0 {
        (state, Seq::empty())
    } else {
        let (between, found) = frame(state, bytes.drop_last());
        let (after, more) = frame_byte(between, bytes.last());
        (after, found + more)
    }
}

/// Cuts a stream into lines.
pub struct LineFramer {
    pub pending: Vec<u8>,
    pub discarding: bool,
}

impl View for LineFramer {
    type V = FramerView;

    open spec fn view(&self) -> FramerView {
        FramerView { pending: self.pending@, discarding: self.discarding }
    }
}

impl FramerView {
    /// No more is kept than a line may hold.
    pub open spec fn bounded(self) -> bool {
        &&& self.pending.len() < MAX_LINE_SIZE
        &&& self.discarding ==> self.pending.len() == 0
    }
}

/// The state before anything was read.
pub open spec fn start() -> FramerView {
    FramerView { pending: Seq::empty(), discarding: false }
}

impl LineFramer {
    /// Starts at the beginning of a line.
    pub fn new() -> (r: Self)
        ensures
            r@ == start(),
            r@.bounded(),
    {
        let pending: Vec<u8> = Vec::new();
        LineFramer { pending, discarding: false }
    }

    /// Takes in what was read, and gives out what it completes.
    pub fn feed(&mut self, bytes: &[u8]) -> (r: Vec<Frame>)
        requires
            old(self)@.bounded(),
        ensures
            final(self)@.bounded(),
            final(self)@ == frame(old(self)@, bytes@).0,
            frame_views(r@) == frame(old(self)@, bytes@).1,
    {
        let mut found: Vec<Frame> = Vec::new();
        let mut i: usize = 0;
        assert(bytes@.take(0) =~= Seq::<u8>::empty());
        assert(frame_views(found@) =~= Seq::<FrameView>::empty());
        while i < bytes.len()
            invariant
                i <= bytes@.len(),
                self@.bounded(),
                self@ == frame(old(self)@, bytes@.take(i as int)).0,
                frame_views(found@) == frame(old(self)@, bytes@.take(i as int)).1,
            decreases bytes@.len() - i,
        {
            let byte: u8 = bytes[i];
            assert(bytes@.take(i + 1).drop_last() =~= bytes@.take(i as int));
            assert(bytes@.take(i + 1).last() == byte);
            let ghost before = frame_views(found@);
            let ghost more = frame_byte(self@, byte).1;
            if byte == NEWLINE {
                if self.discarding {
                    self.discarding = false;
                } else {
                    let mut line: Vec<u8> = Vec::new();
                    line.append(&mut self.pending);
                    found.push(Frame::Line { bytes: line });
                }
            } else if !self.discarding {
                if self.pending.len() + 1 >= MAX_LINE_SIZE {
                    self.pending = Vec::new();
                    self.discarding = true;
                    found.push(Frame::Overflow);
                } else {
                    self.pending.push(byte);
                }
            }
            assert(frame_views(found@) =~= before + more);
            i += 1;
        }
        assert(bytes@.take(i as int) =~= bytes@);
        found
    }
}

/// It does not matter how a stream is cut into reads: what is found, and what is
/// kept, depends on its bytes alone.
pub proof fn law_framing_ignores_chunks(state: FramerView, first: Seq<u8>, second: Seq<u8>)
    ensures
        frame(state, first + second).0 == frame(frame(state, first).0, second).0,
        frame(state, first + second).1 == frame(state, first).1 + frame(
            frame(state, first).0,
            second,
        ).1,
    decreases second.len(),
{
    let whole = first + second;
    if second.len() == 0 {
        assert(whole =~= first);
        assert(frame(state, first).1 + Seq::<FrameView>::empty() =~= frame(state, first).1);
    } else {
        law_framing_ignores_chunks(state, first, second.drop_last());
        assert(whole.drop_last() =~= first + second.drop_last());
        assert(whole.last() == second.last());
        let (between, found) = frame(frame(state, first).0, second.drop_last());
        let more = frame_byte(between, second.last()).1;
        assert(frame(state, first).1 + found + more =~= frame(state, first).1 + (found + more));
    }
}

/// What a whole line is found as.
pub open spec fn line_frame(line: Seq<u8>) -> FrameView {
    if line.len() < MAX_LINE_SIZE {
        FrameView::Line { bytes: line }
    } else {
        FrameView::Overflow
    }
}

/// What is found in a stream: each of its lines, or that it is too long, and at the
/// end that the unfinished line is too long already.
pub open spec fn stream_frames(bytes: Seq<u8>) -> Seq<FrameView> {
    let pieces = text::split_seq(bytes, NEWLINE);
    let finished = pieces.drop_last().map_values(|line: Seq<u8>| line_frame(line));
    if pieces.last().len() < MAX_LINE_SIZE {
        finished
    } else {
        finished.push(FrameView::Overflow)
    }
}

/// What is found in a stream are the pieces between its newlines, those that are too
/// long being passed over as a whole.
pub proof fn law_frames_are_the_lines(bytes: Seq<u8>)
    ensures
        frame(start(), bytes).1 == stream_frames(bytes),
        frame(start(), bytes).0 == (if text::split_seq(bytes, NEWLINE).last().len()
            < MAX_LINE_SIZE {
            FramerView { pending: text::split_seq(bytes, NEWLINE).last(), discarding: false }
        } else {
            FramerView { pending: Seq::empty(), discarding: true }
        }),
    decreases bytes.len(),
{
    let pieces = text::split_seq(bytes, NEWLINE);
    let as_frame = |line: Seq<u8>| line_frame(line);
    text::lemma_split_shape(bytes, NEWLINE);
    if bytes.len() == 0 {
        assert(pieces.drop_last().map_values(as_frame) =~= Seq::<FrameView>::empty());
        assert(pieces.last() =~= Seq::<u8>::empty());
    } else {
        let earlier = bytes.drop_last();
        let before = text::split_seq(earlier, NEWLINE);
        text::lemma_split_shape(earlier, NEWLINE);
        law_frames_are_the_lines(earlier);
        let found = before.drop_last().map_values(as_frame);
        let open = before.last();
        if bytes.last() == NEWLINE {
            assert(pieces.drop_last() =~= before);
            assert(before.map_values(as_frame) =~= found.push(line_frame(open)));
            assert(pieces.last() =~= Seq::<u8>::empty());
            assert(frame(start(), bytes).1 =~= stream_frames(bytes));
        } else {
            assert(pieces.drop_last() =~= before.drop_last());
            assert(pieces.last() == open.push(bytes.last()));
            assert(frame(start(), bytes).1 =~= stream_frames(bytes));
        }
    }
}

/// The text of a line without the white space at its end.
pub open spec fn line_words(bytes: Seq<u8>) -> Seq<char> {
    text::trimmed_end(encoding::lossy_decoding(bytes))
}

/// Reads the text of a line, without the white space at its end. A blank line has no
/// text.
pub fn line_text(bytes: &Vec<u8>) -> (r: Option<String>)
    ensures
        r is Some <==> line_words(bytes@).len() > 0,
        r is Some ==> r->0@ == line_words(bytes@),
        vstd::utf8::valid_utf8(bytes@) ==> line_words(bytes@) == text::trimmed_end(
            vstd::utf8::decode_utf8(bytes@),
        ),
{
    let trimmed = text::trim_end(encoding::lossy_text(bytes.as_slice()).as_str());
    if trimmed.as_str().is_empty() {
        None
    } else {
        Some(trimmed)
    }
}

/// What the log says of a line of a file that is too long.
pub fn file_overflow_event() -> (r: LogEvent)
    ensures
        r@ == LogEventView::plain(
            "CRITICAL"@,
            "orchestrator"@,
            "OVERFLOW_FLUSHED"@,
            "Line length exceeded 8KB security threshold. Flushing stream segment."@,
        ).on_action("stream"@),
{
    LogEvent::plain(
        "CRITICAL",
        "orchestrator",
        "OVERFLOW_FLUSHED",
        "Line length exceeded 8KB security threshold. Flushing stream segment.".to_owned(),
    ).on_action("stream")
}

/// What the log says of a line of a connection that is too long.
pub fn socket_overflow_event() -> (r: LogEvent)
    ensures
        r@ == LogEventView::plain(
            "CRITICAL"@,
            "uds_server"@,
            "TRUNCATED"@,
            "UDS Line limit reached without delimiter. Discarding remainder safely."@,
        ).on_action("stream"@),
{
    LogEvent::plain(
        "CRITICAL",
        "uds_server",
        "TRUNCATED",
        "UDS Line limit reached without delimiter. Discarding remainder safely.".to_owned(),
    ).on_action("stream")
}

} // verus!
