use runsc_sentry_guard::config::{AtomicAction, RuleConfig};
use runsc_sentry_guard::dispatch::{worker_step, WorkerStep};
use runsc_sentry_guard::events::{read_event_header, read_event_size, EventPhase};
use runsc_sentry_guard::events::{EventReply, EventStream};
use runsc_sentry_guard::exchange::{read_chunk_size, read_header, read_status_code, Exchange};
use runsc_sentry_guard::rules::make_ready;

#[test]
fn status_codes_are_the_second_word() {
    assert_eq!(read_status_code("HTTP/1.1 404 Not Found\r\n"), 404);
    assert_eq!(read_status_code("HTTP/1.1 +200 OK"), 200);
    assert_eq!(read_status_code("HTTP/1.1"), 500);
    assert_eq!(read_status_code("HTTP/1.1 70000"), 500);
}

#[test]
fn headers_are_read_one_by_one() {
    match read_header(200, 3, false, None, "Content-Length: 12", "content-length: 12") {
        Exchange::Headers { status, count, chunked, length } => {
            assert_eq!((status, count, chunked, length), (200, 4, false, Some(12)));
        }
        other => panic!("unexpected {:?}", other),
    }
    match read_header(200, 0, false, Some(5), "Content-Length: x", "content-length: x") {
        Exchange::Headers { length, .. } => assert_eq!(length, None),
        other => panic!("unexpected {:?}", other),
    }
    match read_header(200, 0, false, Some(5), "A: b", "a: b") {
        Exchange::Headers { length, chunked, .. } => {
            assert_eq!(length, Some(5));
            assert!(!chunked);
        }
        other => panic!("unexpected {:?}", other),
    }
    match read_header(200, 0, false, None, "T", "transfer-encoding: gzip, chunked") {
        Exchange::Headers { chunked, .. } => assert!(chunked),
        other => panic!("unexpected {:?}", other),
    }
    assert!(matches!(read_header(200, 0, false, None, "", ""), Exchange::Rest { status: 200 }));
    assert!(matches!(read_header(200, 0, true, Some(1), "", ""), Exchange::ChunkSize { .. }));
    assert!(matches!(
        read_header(200, 0, false, Some(10485760), "", ""),
        Exchange::Body { size: 10485760, .. }
    ));
    assert!(matches!(
        read_header(200, 0, false, Some(10485761), "", ""),
        Exchange::Failed { .. }
    ));
}

#[test]
fn chunk_sizes_are_hexadecimal() {
    let size = |line: &str| read_chunk_size(200, "ab".to_string(), line);
    assert!(matches!(size("1F\r\n"), Exchange::ChunkData { size: 31, .. }));
    assert!(matches!(size("\r\n"), Exchange::ChunkSize { .. }));
    assert!(matches!(size("0\r\n"), Exchange::Done { status: 200, .. }));
    assert!(matches!(size("9ffffe\r\n"), Exchange::ChunkData { size: 10485758, .. }));
    assert!(matches!(size("9fffff\r\n"), Exchange::Failed { .. }));
}

#[test]
fn event_headers_are_read_one_by_one() {
    match read_event_header(0, false, false, "HTTP/1.1 200 OK\r\n", "HTTP/1.1 200 OK", "http/1.1 200 ok") {
        EventPhase::Headers { count, status_ok, chunked } => {
            assert_eq!((count, status_ok, chunked), (1, true, false));
        }
        other => panic!("unexpected {:?}", other),
    }
    assert!(matches!(read_event_header(5, true, true, "\r\n", "", ""), EventPhase::ChunkSize));
    assert!(matches!(read_event_header(5, true, false, "\r\n", "", ""), EventPhase::Closed));
    assert!(matches!(
        read_event_header(99, true, false, "x", "x", "transfer-encoding: chunked"),
        EventPhase::ChunkSize
    ));
    assert!(matches!(read_event_size("10\r\n"), EventPhase::ChunkData { size: 16 }));
    assert!(matches!(read_event_size("10;x\r\n"), EventPhase::Closed));
}

fn lines_of(chunks: &[&str]) -> Vec<String> {
    let line = |text: &str| EventReply::Line { line: text.to_string() };
    let mut stream = EventStream::new();
    for text in ["HTTP/1.1 200 OK\r\n", "transfer-encoding: chunked\r\n", "\r\n"] {
        stream = stream.step(line(text)).0;
    }
    let mut found = Vec::new();
    for chunk in chunks {
        stream = stream.step(line(&format!("{:x}\r\n", chunk.len()))).0;
        stream = stream.step(EventReply::Bytes { bytes: chunk.as_bytes().to_vec() }).0;
        let (next, lines) = stream.step(EventReply::Bytes { bytes: b"\r\n".to_vec() });
        stream = next;
        found.extend(lines);
    }
    found
}

#[test]
fn events_do_not_depend_on_the_chunks() {
    let whole = lines_of(&["one\ntwo\n\nthree\nfo"]);
    assert_eq!(whole, vec!["one", "two", "three"]);
    assert_eq!(lines_of(&["on", "e\ntwo\n", "\nthree\nfo"]), whole);
    assert_eq!(lines_of(&["one\ntwo\n\nthree", "\n", "fo"]), whole);
}

#[test]
fn rules_are_made_ready_with_their_expression() {
    let rule = RuleConfig {
        name: "r".to_string(),
        file_pattern: "*.boot".to_string(),
        regex_match: "unused".to_string(),
        try_actions: vec![AtomicAction::Pause],
        final_actions: vec![],
    };
    let ready = make_ready(&rule, regex::Regex::new("^x+$").unwrap());
    assert_eq!(ready.name, "r");
    assert!(ready.matches("xxx") && !ready.matches("xy"));
    assert_eq!(ready.try_actions, vec![AtomicAction::Pause]);
}

#[test]
fn workers_go_only_when_nothing_came_late() {
    assert_eq!(worker_step(true, false), WorkerStep::CarryOut);
    assert_eq!(worker_step(false, false), WorkerStep::LookAgain);
    assert_eq!(worker_step(true, true), WorkerStep::CarryOut);
    assert_eq!(worker_step(false, true), WorkerStep::Retire);
}
