//! Laws of the talk with the container engine: requests, replies and the stream of
//! events.
use crate::encoding;
use crate::events::{EventPhase, EventPhaseView, EventReply};
use crate::events;
use crate::exchange::{Demand, Exchange, ExchangeView, Reply, ReplyView};
use crate::exchange;
use crate::framing;
use crate::http::{ExchangeError, ExchangeErrorView, Stage};
use crate::http;
use crate::laws::texts;
use crate::text::NumberFault;
use crate::text;
use vstd::prelude::*;

verus! {

/// A request begins with its method and path; one with a body announces it as JSON with
/// its length in bytes and ends with it, and one without announces none.
pub proof fn law_requests_announce_their_body(
    method: Seq<char>,
    path: Seq<char>,
    body: Seq<char>,
)
    ensures
        http::request_words(method, path, None) == method + " "@ + path
            + " HTTP/1.1\r\nHost: localhost\r\nConnection: close\r\n\r\n"@,
        http::request_words(method, path, Some(body)) == method + " "@ + path
            + " HTTP/1.1\r\nHost: localhost\r\nConnection: close\r\nContent-Type: application/json\r\nContent-Length: "@
            + text::decimal(vstd::utf8::encode_utf8(body).len()) + "\r\n\r\n"@ + body,
{
}

/// A line goes up to and with its newline, but not beyond the limit nor beyond the end.
pub proof fn law_lines_end_at_their_newline(s: Seq<u8>, limit: nat)
    ensures
        ({
            let size = http::line_length(s, limit);
            &&& size <= s.len() && size <= limit
            &&& forall|i: int| 0 <= i < size - 1 ==> #[trigger] s[i] != 10
            &&& size > 0 && s[size - 1] != 10 ==> size == s.len() || size == limit
            &&& size == 0 ==> s.len() == 0 || limit == 0
        }),
    decreases s.len(),
{
    if s.len() > 0 && limit > 0 && s[0] != 10 {
        let rest = s.drop_first();
        law_lines_end_at_their_newline(rest, (limit - 1) as nat);
        let size = http::line_length(s, limit);
        assert forall|i: int| 0 <= i < size - 1 implies #[trigger] s[i] != 10 by {
            if i > 0 {
                assert(rest[i - 1] == s[i]);
            }
        }
        if size > 1 {
            assert(rest[size - 2] == s[size - 1]);
        }
    }
}

/// A line that fills its limit without a newline is refused; any other is read as it is.
pub proof fn law_full_lines_without_end_are_refused(line: Seq<u8>, limit: nat)
    ensures
        http::line_text(line, limit) is Err <==> line.len() == limit && !(line.len() > 0
            && line.last() == 10),
        http::line_text(line, limit) matches Err(error) ==> error is LineTooLong,
        http::line_text(line, limit) matches Ok(t) ==> t == encoding::lossy_decoding(line),
{
}

/// The code of a status line is the number that stands as its second word.
pub proof fn law_status_is_the_second_word(line: Seq<char>, code: u16)
    ensures
        text::words(line).len() > 1 && text::words(line)[1] == text::decimal(code as nat)
            ==> exchange::status_code(line) == code,
        text::words(line).len() <= 1 ==> exchange::status_code(line) == 500,
        text::words(line).len() > 1 && text::number_value(text::words(line)[1], 10, 65535) is Err
            ==> exchange::status_code(line) == 500,
{
    texts::law_numbers_are_read_back(code as nat, 65535);
}

/// A header with a length announces that length; what is no number announces none; other
/// headers leave what was announced.
pub proof fn law_lengths_are_announced(
    header: Seq<char>,
    lowered: Seq<char>,
    value: Seq<char>,
    before: Option<usize>,
    length: usize,
)
    ensures
        "content-length:"@.is_prefix_of(lowered) && text::after_mark(header, ':') == Some(value)
            && text::trimmed(value) == text::decimal(length as nat) ==> exchange::announced_length(
            header,
            lowered,
            before,
        ) == Some(length),
        "content-length:"@.is_prefix_of(lowered) && text::after_mark(header, ':') == Some(value)
            && text::number_value(text::trimmed(value), 10, usize::MAX as nat) is Err
            ==> exchange::announced_length(header, lowered, before) is None,
        !"content-length:"@.is_prefix_of(lowered) ==> exchange::announced_length(
            header,
            lowered,
            before,
        ) == before,
{
    texts::law_numbers_are_read_back(length as nat, usize::MAX as nat);
}

/// A body comes in chunks exactly if a transfer encoding that holds the word was
/// announced.
pub proof fn law_chunks_are_announced(lowered: Seq<char>)
    ensures
        exchange::announces_chunks(lowered) <==> "transfer-encoding:"@.is_prefix_of(lowered)
            && exists|i: int| text::occurs_at(lowered, "chunked"@, i),
{
}

/// Headers are gathered until the empty line: chunks once announced stay so, the last
/// length counts, and more than a hundred headers are too many.
pub proof fn law_headers_are_gathered(
    status: u16,
    count: usize,
    chunked: bool,
    length: Option<usize>,
    header: Seq<char>,
    lowered: Seq<char>,
)
    requires
        header.len() > 0,
    ensures
        count >= 100 ==> exchange::after_header_text(
            status,
            count,
            chunked,
            length,
            header,
            lowered,
        ) == (ExchangeView::Failed { error: ExchangeErrorView::TooManyHeaders }),
        count < 100 ==> (exchange::after_header_text(
            status,
            count,
            chunked,
            length,
            header,
            lowered,
        ) matches ExchangeView::Headers { status: s, count: c, chunked: k, length: l } && s
            == status && c == count + 1 && k == (chunked || exchange::announces_chunks(lowered))
            && l == exchange::announced_length(header, lowered, length)),
{
}

/// Behind the headers chunks come before a length, a length before the rest of the
/// stream, and a length beyond ten mebibytes is refused.
pub proof fn law_bodies_follow_their_announcement(
    status: u16,
    count: usize,
    chunked: bool,
    length: Option<usize>,
    lowered: Seq<char>,
)
    ensures
        ({
            let next = exchange::after_header_text(
                status,
                count,
                chunked,
                length,
                Seq::<char>::empty(),
                lowered,
            );
            &&& chunked ==> next == (ExchangeView::ChunkSize { status, body: Seq::empty() })
            &&& !chunked && length is None ==> next == (ExchangeView::Rest { status })
            &&& !chunked ==> (length matches Some(size) ==> (size <= 10485760 ==> next == (
            ExchangeView::Body { status, size })) && (size > 10485760 ==> next == (
            ExchangeView::Failed { error: ExchangeErrorView::LengthTooLarge { length: size } })))
        }),
{
}

/// A header is read without the white space around it, and recognised in any case.
pub proof fn law_headers_are_read_trimmed_in_lower_case(
    status: u16,
    count: usize,
    chunked: bool,
    length: Option<usize>,
    line: Seq<char>,
)
    ensures
        exchange::after_header(status, count, chunked, length, line) == exchange::after_header_text(
            status,
            count,
            chunked,
            length,
            text::trimmed(line),
            encoding::lowercase(text::trimmed(line)),
        ),
{
}

/// The size of a chunk is what stands before a semicolon, in hexadecimal. A blank line is
/// passed over, zero ends the body, and a chunk that would bring the body beyond ten
/// mebibytes is refused.
pub proof fn law_chunk_sizes_decide(status: u16, body: Seq<char>, line: Seq<char>)
    ensures
        ({
            let size = text::trimmed(text::before_mark(line, ';'));
            let next = exchange::after_chunk_size(status, body, line);
            &&& size.len() == 0 ==> next == (ExchangeView::ChunkSize { status, body })
            &&& size.len() > 0 ==> (match text::number_value(size, 16, usize::MAX as nat) {
                Err(fault) => next == (ExchangeView::Failed {
                    error: ExchangeErrorView::BadChunkSize { fault },
                }),
                Ok(n) => {
                    &&& n == 0 ==> next == (ExchangeView::Done { status, body })
                    &&& n > 0 && vstd::utf8::encode_utf8(body).len() + n <= 10485760 ==> next == (
                    ExchangeView::ChunkData { status, body, size: n as usize })
                    &&& n > 0 && vstd::utf8::encode_utf8(body).len() + n > 10485760 ==> next == (
                    ExchangeView::Failed { error: ExchangeErrorView::ChunksTooLarge })
                },
            })
        }),
{
}

/// What is wanted at each point of a reply: lines of up to 8192 bytes, the bytes of a
/// chunk or of a body in full, the rest up to ten mebibytes, and nothing at the end.
pub proof fn law_demands_follow_the_reply(state: ExchangeView)
    ensures
        state is Status || state is Headers || state is ChunkSize ==> state.demand() == (
        Demand::Line { limit: 8192 }),
        state matches ExchangeView::ChunkData { size, .. } ==> state.demand() == (Demand::Exact {
            count: size,
        }),
        state matches ExchangeView::Body { size, .. } ==> state.demand() == (Demand::Exact {
            count: size,
        }),
        state is ChunkEnd ==> state.demand() is Gap,
        state is Rest ==> state.demand() == (Demand::Rest { most: 10485760 }),
        state is Done || state is Failed <==> state.demand() is Nothing,
{
}

/// The first line of a reply is its status line, without which there is no reply.
pub proof fn law_replies_begin_with_their_status(line: Seq<char>)
    ensures
        line.len() == 0 ==> ExchangeView::Status.after_line(line) == (ExchangeView::Failed {
            error: ExchangeErrorView::EmptyFrame,
        }),
        line.len() > 0 ==> ExchangeView::Status.after_line(line) == (ExchangeView::Headers {
            status: exchange::status_code(line),
            count: 0,
            chunked: false,
            length: None,
        }),
{
}

/// Chunks are strung together in order, a sized body is the body, and the rest of a
/// stream is one if it is text; the code stays the same throughout.
pub proof fn law_bodies_are_put_together(
    status: u16,
    body: Seq<char>,
    size: usize,
    bytes: Seq<u8>,
)
    ensures
        (ExchangeView::ChunkData { status, body, size }).after_bytes(bytes) == (
        ExchangeView::ChunkEnd { status, body: body + encoding::lossy_decoding(bytes) }),
        (ExchangeView::ChunkEnd { status, body }).after_bytes(bytes) == (ExchangeView::ChunkSize {
            status,
            body,
        }),
        (ExchangeView::Body { status, size }).after_bytes(bytes) == (ExchangeView::Done {
            status,
            body: encoding::lossy_decoding(bytes),
        }),
        vstd::utf8::valid_utf8(bytes) ==> (ExchangeView::Rest { status }).after_bytes(bytes) == (
        ExchangeView::Done { status, body: vstd::utf8::decode_utf8(bytes) }),
        !vstd::utf8::valid_utf8(bytes) ==> (ExchangeView::Rest { status }).after_bytes(bytes) == (
        ExchangeView::Failed { error: ExchangeErrorView::NotText }),
        (ExchangeView::Done { status, body }).after_bytes(bytes) == (ExchangeView::Done {
            status,
            body,
        }),
{
}

/// Where a line is due, the bytes are read as one, and a line that is refused fails the
/// reply.
pub proof fn law_lines_are_read_where_they_are_due(state: ExchangeView, bytes: Seq<u8>)
    requires
        state is Status || state is Headers || state is ChunkSize,
    ensures
        match http::line_text(bytes, 8192) {
            Ok(line) => state.after_bytes(bytes) == state.after_line(line),
            Err(error) => state.after_bytes(bytes) == (ExchangeView::Failed { error }),
        },
{
}

/// A failure of the socket ends the reply with its cause and the point at which it came,
/// but between two chunks, where it does not matter.
pub proof fn law_socket_failures_end_the_reply(state: ExchangeView, cause: Seq<char>)
    ensures
        state is Status || state is Headers || state is ChunkSize ==> state.after_failure(cause)
            == (ExchangeView::Failed {
            error: ExchangeErrorView::Io { stage: Stage::Line, cause },
        }),
        state is ChunkData ==> state.after_failure(cause) == (ExchangeView::Failed {
            error: ExchangeErrorView::Io { stage: Stage::Chunk, cause },
        }),
        state is Body ==> state.after_failure(cause) == (ExchangeView::Failed {
            error: ExchangeErrorView::Io { stage: Stage::Body, cause },
        }),
        state is Rest ==> state.after_failure(cause) == (ExchangeView::Failed {
            error: ExchangeErrorView::Io { stage: Stage::Rest, cause },
        }),
        state matches ExchangeView::ChunkEnd { status, body } ==> state.after_failure(cause) == (
        ExchangeView::ChunkSize { status, body }),
        state is Done || state is Failed ==> state.after_failure(cause) == state,
        state.after(ReplyView::Failed(cause)) == state.after_failure(cause),
{
}

/// Bytes that come are taken in as such.
pub proof fn law_bytes_are_taken_in(state: ExchangeView, bytes: Seq<u8>)
    ensures
        state.after(ReplyView::Bytes(bytes)) == state.after_bytes(bytes),
{
}

/// What an exchange, a reply of the socket and an error hold is what their fields hold.
pub proof fn law_exchanges_show_their_fields(state: Exchange, reply: Reply, error: ExchangeError)
    ensures
        state is Status ==> state@ is Status,
        state matches Exchange::Headers { status, count, chunked, length } ==> state@ == (
        ExchangeView::Headers { status, count, chunked, length }),
        state matches Exchange::ChunkSize { status, body } ==> state@ == (ExchangeView::ChunkSize {
            status,
            body: body@,
        }),
        state matches Exchange::ChunkData { status, body, size } ==> state@ == (
        ExchangeView::ChunkData { status, body: body@, size }),
        state matches Exchange::ChunkEnd { status, body } ==> state@ == (ExchangeView::ChunkEnd {
            status,
            body: body@,
        }),
        state matches Exchange::Body { status, size } ==> state@ == (ExchangeView::Body {
            status,
            size,
        }),
        state matches Exchange::Rest { status } ==> state@ == (ExchangeView::Rest { status }),
        state matches Exchange::Done { status, body } ==> state@ == (ExchangeView::Done {
            status,
            body: body@,
        }),
        state matches Exchange::Failed { error: e } ==> state@ == (ExchangeView::Failed {
            error: e@,
        }),
        reply matches Reply::Bytes(bytes) ==> reply@ == ReplyView::Bytes(bytes@),
        reply matches Reply::Failed(cause) ==> reply@ == ReplyView::Failed(cause@),
        error matches ExchangeError::Connect { socket_path, cause } ==> error@ == (
        ExchangeErrorView::Connect { socket_path: socket_path@, cause: cause@ }),
        error matches ExchangeError::Io { stage, cause } ==> error@ == (ExchangeErrorView::Io {
            stage,
            cause: cause@,
        }),
        error is LineTooLong ==> error@ is LineTooLong,
        error is EmptyFrame ==> error@ is EmptyFrame,
        error is TooManyHeaders ==> error@ is TooManyHeaders,
        error is ChunksTooLarge ==> error@ is ChunksTooLarge,
        error is NotText ==> error@ is NotText,
        error matches ExchangeError::BadChunkSize { fault } ==> error@ == (
        ExchangeErrorView::BadChunkSize { fault }),
        error matches ExchangeError::LengthTooLarge { length } ==> error@ == (
        ExchangeErrorView::LengthTooLarge { length }),
{
}

/// What is said of each failure of an exchange.
pub proof fn law_failed_exchanges_say_why(
    socket_path: Seq<char>,
    cause: Seq<char>,
    fault: NumberFault,
    length: usize,
)
    ensures
        (ExchangeErrorView::Connect { socket_path, cause }).words()
            == "Container Engine Socket Connection Refused at "@ + socket_path + ": "@ + cause,
        (ExchangeErrorView::Io { stage: Stage::Write, cause }).words()
            == "Failed to write to UDS: "@ + cause,
        (ExchangeErrorView::Io { stage: Stage::Flush, cause }).words()
            == "Failed to flush UDS stream: "@ + cause,
        (ExchangeErrorView::Io { stage: Stage::Line, cause }).words()
            == "I/O Error reading bounded line: "@ + cause,
        (ExchangeErrorView::Io { stage: Stage::Chunk, cause }).words()
            == "Failed to read chunk payload: "@ + cause,
        (ExchangeErrorView::Io { stage: Stage::Body, cause }).words()
            == "Failed to read exact payload length: "@ + cause,
        (ExchangeErrorView::Io { stage: Stage::Rest, cause }).words()
            == "Failed to read payload to string: "@ + cause,
        ExchangeErrorView::LineTooLong.words()
            == "Buffer-bloat protection: HTTP line exceeded maximum bounded length"@,
        ExchangeErrorView::EmptyFrame.words()
            == "Received completely empty frame stream from container daemon socket."@,
        ExchangeErrorView::TooManyHeaders.words()
            == "UDS Error: Maximum HTTP header count exceeded. Aborting to prevent thread lockup."@,
        ExchangeErrorView::ChunksTooLarge.words()
            == "SECURITY ABORT: Chunk sequence size exceeds maximum allowed UDS payload limit of 10485760 bytes."@,
        ExchangeErrorView::NotText.words()
            == "Failed to read payload to string: stream did not contain valid UTF-8"@,
        (ExchangeErrorView::LengthTooLarge { length }).words()
            == "SECURITY ABORT: Content-Length "@ + text::decimal(length as nat)
            + " exceeds maximum allowed UDS payload limit of 10485760 bytes."@,
        (ExchangeErrorView::BadChunkSize { fault }).words() == "Failed to parse chunk size: "@
            + fault.words(),
        NumberFault::Empty.words() == "cannot parse integer from empty string"@,
        NumberFault::InvalidDigit.words() == "invalid digit found in string"@,
        NumberFault::Overflow.words() == "number too large to fit in target type"@,
{
}

/// A body of known length ends with it: what follows in the stream does not matter, and a
/// stream that ends before it is a failure.
pub proof fn law_sized_bodies_end_with_their_length(
    body: Seq<u8>,
    behind: Seq<u8>,
    status: u16,
)
    requires
        body.len() <= 10485760,
    ensures
        exchange::body_outcome(body + behind, status, false, Some(body.len() as usize)) == Some(
            Ok::<(u16, Seq<char>), ExchangeErrorView>((status, encoding::lossy_decoding(body))),
        ),
        body.len() > 0 ==> (exchange::body_outcome(
            body.drop_last(),
            status,
            false,
            Some(body.len() as usize),
        ) matches Some(Err(error)) && error is Io),
{
    assert((body + behind).take(body.len() as int) =~= body);
}

/// One chunk after the other: a chunk with its end, behind its size, is added to the body,
/// and what follows is read on as before.
pub proof fn law_chunks_are_read_one_by_one(
    line: Seq<u8>,
    size: Seq<char>,
    chunk: Seq<u8>,
    gap: Seq<u8>,
    behind: Seq<u8>,
    status: u16,
    body: Seq<char>,
)
    requires
        0 < line.len() < 8192,
        line.last() == 10,
        forall|i: int| 0 <= i < line.len() - 1 ==> #[trigger] line[i] != 10,
        size == text::trimmed(text::before_mark(encoding::lossy_decoding(line), ';')),
        size.len() > 0,
        chunk.len() > 0,
        text::number_value(size, 16, usize::MAX as nat) == Ok::<nat, NumberFault>(chunk.len()),
        http::byte_count(body) + chunk.len() <= 10485760,
        gap.len() == 2,
    ensures
        exchange::chunks_outcome(line + chunk + gap + behind, status, body)
            == exchange::chunks_outcome(
            behind,
            status,
            body + encoding::lossy_decoding(chunk),
        ),
{
    let whole = line + chunk + gap + behind;
    lemma_line_is_first(line, chunk + gap + behind, 8192);
    assert(whole =~= line + (chunk + gap + behind));
    assert(exchange::first_line(whole) =~= line);
    let rest = exchange::behind_line(whole);
    assert(rest =~= chunk + gap + behind);
    assert(rest.take(chunk.len() as int) =~= chunk);
    assert(rest.skip(chunk.len() as int) =~= gap + behind);
    assert(exchange::beyond(gap + behind, 2) =~= behind);
}

/// A size of zero ends a body in chunks.
pub proof fn law_a_zero_chunk_ends_the_body(
    line: Seq<u8>,
    size: Seq<char>,
    behind: Seq<u8>,
    status: u16,
    body: Seq<char>,
)
    requires
        0 < line.len() < 8192,
        line.last() == 10,
        forall|i: int| 0 <= i < line.len() - 1 ==> #[trigger] line[i] != 10,
        size == text::trimmed(text::before_mark(encoding::lossy_decoding(line), ';')),
        size.len() > 0,
        text::number_value(size, 16, usize::MAX as nat) == Ok::<nat, NumberFault>(0),
    ensures
        exchange::chunks_outcome(line + behind, status, body) == Some(
            Ok::<(u16, Seq<char>), ExchangeErrorView>((status, body)),
        ),
{
    lemma_line_is_first(line, behind, 8192);
    assert(exchange::first_line(line + behind) =~= line);
}

/// A line that is ended by its newline is the first line of what begins with it.
proof fn lemma_line_is_first(line: Seq<u8>, behind: Seq<u8>, limit: nat)
    requires
        0 < line.len() < limit,
        line.last() == 10,
        forall|i: int| 0 <= i < line.len() - 1 ==> #[trigger] line[i] != 10,
    ensures
        http::line_length(line + behind, limit) == line.len(),
    decreases line.len(),
{
    let whole = line + behind;
    if line.len() > 1 {
        let rest = line.drop_first();
        assert(line[0] != 10);
        assert forall|i: int| 0 <= i < rest.len() - 1 implies #[trigger] rest[i] != 10 by {
            assert(rest[i] == line[i + 1]);
        }
        lemma_line_is_first(rest, behind, (limit - 1) as nat);
        assert(whole.drop_first() =~= rest + behind);
    }
}

/// The stream of events is opened only where the engine grants it and sends chunks.
pub proof fn law_event_streams_need_a_grant_and_chunks(
    count: usize,
    status_ok: bool,
    chunked: bool,
    line: Seq<char>,
    lowered: Seq<char>,
)
    ensures
        ({
            let next = events::after_event_text(
                count,
                status_ok,
                chunked,
                line,
                Seq::<char>::empty(),
                lowered,
            );
            &&& status_ok && chunked <==> next is ChunkSize
            &&& !(status_ok && chunked) <==> next is Closed
        }),
{
}

/// Headers of the stream are gathered: a grant and chunks once seen stay so, and after a
/// hundred lines the headers are over.
pub proof fn law_event_headers_are_gathered(
    count: usize,
    status_ok: bool,
    chunked: bool,
    line: Seq<char>,
    header: Seq<char>,
    lowered: Seq<char>,
)
    requires
        header.len() > 0,
    ensures
        ({
            let next = events::after_event_text(count, status_ok, chunked, line, header, lowered);
            let granted = status_ok || "HTTP/1.1 200"@.is_prefix_of(line)
                || "HTTP/1.0 200"@.is_prefix_of(line);
            let in_chunks = chunked || ("transfer-encoding:"@.is_prefix_of(lowered)
                && text::contains_text(lowered, "chunked"@));
            &&& count < 99 ==> next == (EventPhaseView::Headers {
                count: (count + 1) as usize,
                status_ok: granted,
                chunked: in_chunks,
            })
            &&& count >= 99 && granted && in_chunks ==> next is ChunkSize
            &&& count >= 99 && !(granted && in_chunks) ==> next is Closed
        }),
{
}

/// The header lines of the stream are read without the white space around them, and
/// recognised in any case.
pub proof fn law_event_headers_are_read_trimmed_in_lower_case(
    count: usize,
    status_ok: bool,
    chunked: bool,
    line: Seq<char>,
)
    ensures
        events::after_event_header(count, status_ok, chunked, line) == events::after_event_text(
            count,
            status_ok,
            chunked,
            line,
            text::trimmed(line),
            encoding::lowercase(text::trimmed(line)),
        ),
{
}

/// A chunk of the stream has the size that its line gives in hexadecimal; the stream is
/// over at its end, at a chunk of nothing and at what is no size, and goes on at a blank
/// line.
pub proof fn law_event_chunks_have_their_size(line: Seq<char>)
    ensures
        line.len() == 0 ==> events::after_event_size(line) is Closed,
        line.len() > 0 && text::trimmed(line).len() == 0 ==> events::after_event_size(
            line,
        ) is ChunkSize,
        line.len() > 0 && text::trimmed(line).len() > 0 ==> (match text::number_value(
            text::trimmed(line),
            16,
            usize::MAX as nat,
        ) {
            Ok(n) => if n > 0 {
                events::after_event_size(line) == (EventPhaseView::ChunkData { size: n as usize })
            } else {
                events::after_event_size(line) is Closed
            },
            Err(_) => events::after_event_size(line) is Closed,
        }),
{
}

/// The stream goes from headers to sizes, from a size to its chunk, from the chunk to its
/// end and back to sizes; a connection that fails closes it, but in the headers, where
/// what was seen of them counts.
pub proof fn law_event_streams_go_round(
    phase: EventPhaseView,
    line: String,
    bytes: Vec<u8>,
    chunk: Seq<u8>,
    size: usize,
)
    ensures
        phase matches EventPhaseView::Headers { count, status_ok, chunked } ==> ({
            &&& events::next_event_phase(phase, EventReply::Line { line })
                == events::after_event_header(count, status_ok, chunked, line@)
            &&& status_ok && chunked ==> events::next_event_phase(
                phase,
                EventReply::Failed,
            ) is ChunkSize
            &&& !(status_ok && chunked) ==> events::next_event_phase(
                phase,
                EventReply::Failed,
            ) is Closed
        }),
        events::next_event_phase(EventPhaseView::ChunkSize, EventReply::Line { line })
            == events::after_event_size(line@),
        events::next_event_phase(EventPhaseView::ChunkSize, EventReply::Failed) is Closed,
        events::next_event_phase(EventPhaseView::ChunkData { size }, EventReply::Bytes { bytes })
            == (EventPhaseView::ChunkEnd { chunk: bytes@ }),
        events::next_event_phase(
            EventPhaseView::ChunkData { size },
            EventReply::Failed,
        ) is Closed,
        events::next_event_phase(
            EventPhaseView::ChunkEnd { chunk },
            EventReply::Bytes { bytes },
        ) is ChunkSize,
        events::next_event_phase(EventPhaseView::ChunkEnd { chunk }, EventReply::Failed) is Closed,
        events::next_event_phase(EventPhaseView::Closed, EventReply::Line { line }) is Closed,
        events::next_event_phase(EventPhaseView::Closed, EventReply::Bytes { bytes }) is Closed,
{
}

/// What is kept of the stream grows by each chunk, and is dropped with it once it is
/// longer than 65536 bytes.
pub proof fn law_unfinished_events_are_kept(held: Seq<u8>, chunk: Seq<u8>)
    ensures
        held.len() + chunk.len() <= 65536 ==> events::buffered(held, chunk) == held + chunk,
        held.len() + chunk.len() > 65536 ==> events::buffered(held, chunk).len() == 0,
{
}

/// The texts of lines come in order, without the white space at their ends and without
/// blank ones.
pub proof fn law_lines_have_their_texts(lines: Seq<Seq<u8>>, line: Seq<u8>)
    ensures
        events::line_texts(Seq::<Seq<u8>>::empty()).len() == 0,
        ({
            let words = text::trimmed_end(encoding::lossy_decoding(line));
            &&& framing::line_words(line) == words
            &&& words.len() > 0 ==> events::line_texts(lines.push(line)) == events::line_texts(
                lines,
            ).push(words)
            &&& words.len() == 0 ==> events::line_texts(lines.push(line)) == events::line_texts(
                lines,
            )
        }),
{
    assert(lines.push(line).drop_last() =~= lines);
}

/// What a phase of the stream holds is what its fields hold.
pub proof fn law_event_phases_show_their_fields(phase: EventPhase)
    ensures
        phase matches EventPhase::Headers { count, status_ok, chunked } ==> phase@ == (
        EventPhaseView::Headers { count, status_ok, chunked }),
        phase is ChunkSize ==> phase@ is ChunkSize,
        phase matches EventPhase::ChunkData { size } ==> phase@ == (EventPhaseView::ChunkData {
            size,
        }),
        phase matches EventPhase::ChunkEnd { chunk } ==> phase@ == (EventPhaseView::ChunkEnd {
            chunk: chunk@,
        }),
        phase is Closed ==> phase@ is Closed,
{
}

/// What is left to read of some bytes begins at the position, and nothing is left at
/// their end.
pub proof fn law_cursors_read_on(cursor: http::ByteCursor)
    ensures
        cursor.valid() <==> cursor.position <= cursor.bytes@.len(),
        cursor.valid() ==> cursor.rest().len() == cursor.bytes@.len() - cursor.position,
        cursor.valid() && cursor.position < cursor.bytes@.len() ==> cursor.rest()[0]
            == cursor.bytes@[cursor.position as int],
{
}

/// The stream that is asked for is that of containers that start and die.
pub proof fn law_events_of_containers_are_asked_for()
    ensures
        events::EVENTS_ENDPOINT@
            == "/events?filters=%7B%22type%22%3A%5B%22container%22%5D%2C%22event%22%3A%5B%22start%22%2C%22die%22%5D%7D"@,
{
}

/// A line counts as read exactly if it was to be, with the text that was to be read, and
/// as refused with the error that was due.
pub proof fn law_read_lines_are_those_expected(
    found: Result<String, ExchangeError>,
    expected: Result<Seq<char>, ExchangeErrorView>,
)
    requires
        http::same_text_outcome(found, expected),
    ensures
        found matches Ok(t) ==> expected == Ok::<Seq<char>, ExchangeErrorView>(t@),
        found matches Err(e) ==> expected == Err::<Seq<char>, ExchangeErrorView>(e@),
{
}

/// A body without announcement is all that comes, up to ten mebibytes, if that is text.
pub proof fn law_unannounced_bodies_go_to_the_end(body: Seq<u8>, behind: Seq<u8>, status: u16)
    requires
        vstd::utf8::valid_utf8(body),
    ensures
        body.len() <= 10485760 ==> exchange::body_outcome(body, status, false, None) == Some(
            Ok::<(u16, Seq<char>), ExchangeErrorView>((status, vstd::utf8::decode_utf8(body))),
        ),
        body.len() == 10485760 ==> exchange::body_outcome(body + behind, status, false, None)
            == Some(
            Ok::<(u16, Seq<char>), ExchangeErrorView>((status, vstd::utf8::decode_utf8(body))),
        ),
{
    assert(body.take(body.len() as int) =~= body);
    assert((body + behind).take(body.len() as int) =~= body);
}

/// A reply is its status line, its headers and its body: the code of the first line stays
/// that of the reply, and each header counts for what follows it.
pub proof fn law_replies_are_read_line_by_line(
    line: Seq<u8>,
    behind: Seq<u8>,
    status: u16,
    count: nat,
    chunked: bool,
    length: Option<usize>,
)
    requires
        0 < line.len() < 8192,
        line.last() == 10,
        forall|i: int| 0 <= i < line.len() - 1 ==> #[trigger] line[i] != 10,
        count < 100,
    ensures
        ({
            let words = encoding::lossy_decoding(line);
            let header = text::trimmed(words);
            let lowered = encoding::lowercase(header);
            &&& words.len() > 0 ==> exchange::reply_outcome(line + behind)
                == exchange::headers_outcome(
                behind,
                exchange::status_code(words),
                0,
                false,
                None,
            )
            &&& header.len() == 0 ==> exchange::headers_outcome(
                line + behind,
                status,
                count,
                chunked,
                length,
            ) == exchange::body_outcome(behind, status, chunked, length)
            &&& header.len() > 0 ==> exchange::headers_outcome(
                line + behind,
                status,
                count,
                chunked,
                length,
            ) == exchange::headers_outcome(
                behind,
                status,
                count + 1,
                chunked || exchange::announces_chunks(lowered),
                exchange::announced_length(header, lowered, length),
            )
        }),
        exchange::headers_outcome(behind, status, 101, chunked, length) == Some(
            Err::<(u16, Seq<char>), ExchangeErrorView>(ExchangeErrorView::TooManyHeaders),
        ),
{
    lemma_line_is_first(line, behind, 8192);
    assert(exchange::first_line(line + behind) =~= line);
    assert(exchange::behind_line(line + behind) =~= behind);
}

} // verus!
