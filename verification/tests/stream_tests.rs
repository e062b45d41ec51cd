use runsc_sentry_guard::config::{IngestionMode, LogLevel};
use runsc_sentry_guard::connections::{
    identify_peer, judge_peer, ClientConnection, ConnectionPool, PeerVerdict, Received,
    FIRST_CLIENT_TOKEN, LAST_CLIENT_TOKEN, MAX_UDS_CONNECTIONS,
};
use runsc_sentry_guard::events::{events_request, EventDemand, EventReply, EventStream};
use runsc_sentry_guard::framing::{
    file_overflow_event, line_text, socket_overflow_event, Frame, LineFramer, MAX_LINE_SIZE,
};
use runsc_sentry_guard::lifecycle::{
    armed_event, config_path, engine_lost_event, json_logging, missing_directory_event, notify_address,
    parse_command_line, reload_event, server_event, shutdown_event, started_event, ServerFault,
};
use runsc_sentry_guard::logger::{emit_log, level_from_lower, LogEmission};
use runsc_sentry_guard::text::{
    contains, decimal_text, ends_with, join, lines, parse_number, signed_text, split,
    split_at_mark, split_whitespace, starts_with, trim, trim_end, NumberFault,
};
use runsc_sentry_guard::tracking::{
    audit_directory, is_log_file, is_trusted_file, seek_failure_event, FileStep, FileTracker,
};

const ID: &str = "a1b2c3d4e5f6";

fn shown(frames: Vec<Frame>) -> Vec<String> {
    frames
        .into_iter()
        .map(|frame| match frame {
            Frame::Line { bytes } => String::from_utf8(bytes).unwrap(),
            Frame::Overflow => "<overflow>".to_string(),
        })
        .collect()
}

#[test]
fn framing_does_not_depend_on_the_reads() {
    let text = b"one\n\ntwo\r\nthree";
    let mut whole = LineFramer::new();
    let expected = shown(whole.feed(text));
    assert_eq!(expected, vec!["one", "", "two\r"]);
    for cut in 0..text.len() {
        let mut framer = LineFramer::new();
        let mut found = shown(framer.feed(&text[..cut]));
        found.extend(shown(framer.feed(&text[cut..])));
        assert_eq!(found, expected);
        assert_eq!(framer.pending, b"three");
    }
}

#[test]
fn long_lines_are_passed_over() {
    let longest = "x".repeat(MAX_LINE_SIZE - 1);
    let mut framer = LineFramer::new();
    assert_eq!(shown(framer.feed(format!("{}\nb\n", longest).as_bytes())), vec![longest, "b".to_string()]);
    let too_long = "y".repeat(MAX_LINE_SIZE);
    let mut framer = LineFramer::new();
    assert_eq!(
        shown(framer.feed(format!("a\n{}z\nb\n", too_long).as_bytes())),
        vec!["a", "<overflow>", "b"]
    );
    let mut framer = LineFramer::new();
    assert_eq!(shown(framer.feed(too_long.as_bytes())), vec!["<overflow>"]);
    assert!(framer.discarding);
    assert!(framer.feed(too_long.as_bytes()).is_empty());
    assert_eq!(shown(framer.feed(b"tail\nnext\n")), vec!["next"]);
    assert_eq!(
        file_overflow_event().details,
        "Line length exceeded 8KB security threshold. Flushing stream segment."
    );
    assert_eq!(socket_overflow_event().status, "TRUNCATED");
}

#[test]
fn lines_are_read_as_text() {
    assert_eq!(line_text(&b"  a \t\r".to_vec()).as_deref(), Some("  a"));
    assert_eq!(line_text(&b" \r".to_vec()), None);
    assert_eq!(line_text(&b"".to_vec()), None);
    assert_eq!(line_text(&b"a\xff".to_vec()).as_deref(), Some("a\u{fffd}"));
}

fn line(text: &str) -> EventReply {
    EventReply::Line { line: text.to_string() }
}

fn bytes(text: &str) -> EventReply {
    EventReply::Bytes { bytes: text.as_bytes().to_vec() }
}

fn opened() -> EventStream {
    let mut stream = EventStream::new();
    for text in ["HTTP/1.1 200 OK\r\n", "Transfer-Encoding: Chunked\r\n", "\r\n"] {
        assert_eq!(stream.demand(), EventDemand::Line);
        stream = stream.step(line(text)).0;
    }
    stream
}

#[test]
fn events_are_cut_out_of_chunks() {
    assert!(events_request().starts_with("GET /events?filters=%7B"));
    assert!(events_request().ends_with(" HTTP/1.1\r\nHost: localhost\r\nConnection: keep-alive\r\n\r\n"));
    let (stream, _) = opened().step(line("a\r\n"));
    assert_eq!(stream.demand(), EventDemand::Exact { count: 10 });
    let (stream, found) = stream.step(bytes("{\"a\":1}\n{\""));
    assert!(found.is_empty());
    assert_eq!(stream.demand(), EventDemand::Exact { count: 2 });
    let (stream, found) = stream.step(bytes("\r\n"));
    assert_eq!(found, vec!["{\"a\":1}"]);
    let (stream, _) = stream.step(line("\r\n"));
    let (stream, _) = stream.step(line("6\r\n"));
    let (stream, _) = stream.step(bytes("b\":2}\n"));
    let (stream, found) = stream.step(bytes("\r\n"));
    assert_eq!(found, vec!["{\"b\":2}"]);
    assert!(stream.buffer.is_empty());
    let (stream, _) = stream.step(line("0\r\n"));
    assert_eq!(stream.demand(), EventDemand::Nothing);
}

#[test]
fn event_streams_are_given_up() {
    let closed = |stream: EventStream| stream.demand() == EventDemand::Nothing;
    assert!(closed(opened().step(line("")).0));
    assert!(closed(opened().step(line("xyz\r\n")).0));
    assert!(closed(opened().step(EventReply::Failed).0));
    let (stream, _) = opened().step(line("5\r\n"));
    assert!(closed(stream.step(EventReply::Failed).0));
    let refused = EventStream::new().step(line("HTTP/1.1 404 Not Found\r\n")).0;
    assert!(closed(refused.step(line("\r\n")).0));
    let plain = EventStream::new().step(line("HTTP/1.0 200 OK\r\n")).0;
    assert!(closed(plain.step(line("\r\n")).0));
    let mut stream = EventStream::new();
    for _ in 0..99 {
        stream = stream.step(line("A: b\r\n")).0;
        assert_eq!(stream.demand(), EventDemand::Line);
    }
    assert!(closed(stream.step(line("A: b\r\n")).0));
}

#[test]
fn overlong_event_text_is_dropped() {
    let (stream, _) = opened().step(line("ffff\r\n"));
    let (stream, _) = stream.step(bytes(&"x".repeat(65535)));
    let (stream, _) = stream.step(bytes("\r\n"));
    assert_eq!(stream.buffer.len(), 65535);
    let (stream, _) = stream.step(line("4\r\n"));
    let (stream, _) = stream.step(bytes("yy\nz"));
    let (stream, found) = stream.step(bytes("\r\n"));
    assert!(found.is_empty());
    assert!(stream.buffer.is_empty());
}

#[test]
fn only_the_superuser_may_connect() {
    assert!(matches!(judge_peer(Some((0, 42))), PeerVerdict::Trusted { pid: 42 }));
    assert!(matches!(judge_peer(None), PeerVerdict::Unknown));
    match judge_peer(Some((1000, 42))) {
        PeerVerdict::Rejected { event } => {
            assert_eq!(
                event.details,
                "Unauthorized UID 1000 attempted UDS connection. Payload dropped."
            );
            assert_eq!(event.action.as_deref(), Some("trust_boundary"));
        }
        other => panic!("unexpected {:?}", other),
    }
}

#[test]
fn peers_are_identified_only_without_a_race() {
    let listing = || Some(vec![format!("0::/docker/{}", ID)]);
    assert_eq!(identify_peer(0, Some(0), true, listing()).as_deref(), Some(ID));
    assert_eq!(identify_peer(0, Some(1), true, listing()), None);
    assert_eq!(identify_peer(0, None, true, listing()), None);
    assert_eq!(identify_peer(0, Some(0), false, listing()), None);
    assert_eq!(identify_peer(0, Some(0), true, None), None);
}

#[test]
fn connections_are_limited() {
    let mut pool = ConnectionPool::new();
    assert!(!pool.should_accept(false));
    assert!(pool.should_accept(true));
    pool.note_arrivals();
    assert!(pool.should_accept(false));
    for i in 0..MAX_UDS_CONNECTIONS {
        assert!(pool.may_accept());
        let token = pool.issue_token();
        assert_eq!(token, FIRST_CLIENT_TOKEN + i);
        assert!(pool.enter(token, None));
    }
    pool.note_none_waiting();
    assert!(!pool.may_accept());
    assert!(pool.backlog_pending);
    assert!(!pool.should_accept(true));
    assert!(!pool.enter(99, None));
    assert!(pool.leave(7));
    assert!(!pool.leave(7));
    assert!(pool.may_accept());
    pool.next_token = LAST_CLIENT_TOKEN;
    assert_eq!(pool.issue_token(), LAST_CLIENT_TOKEN);
    assert_eq!(pool.issue_token(), FIRST_CLIENT_TOKEN);
}

#[test]
fn connections_are_read_line_by_line() {
    let mut pool = ConnectionPool::new();
    assert!(pool.enter(5, Some(ID.to_string())));
    assert!(pool.receive(6, b"x\n").is_none());
    match pool.receive(5, b"one\ntw") {
        Some((Received::Frames { frames }, id)) => {
            assert_eq!(shown(frames), vec!["one"]);
            assert_eq!(id.as_deref(), Some(ID));
        }
        other => panic!("unexpected {:?}", other),
    }
    match pool.receive(5, b"o\n") {
        Some((Received::Frames { frames }, _)) => assert_eq!(shown(frames), vec!["two"]),
        other => panic!("unexpected {:?}", other),
    }
}

#[test]
fn floods_close_the_connection() {
    let mut connection = ClientConnection::new(None);
    let block = vec![b'x'; 1024];
    for _ in 0..64 {
        assert!(matches!(connection.receive(&block), Received::Frames { .. }));
    }
    assert_eq!(connection.held, 65536);
    assert!(connection.framer.discarding);
    assert!(matches!(connection.receive(b"y"), Received::Flooded));
    assert_eq!(connection.held, 0);
    assert!(connection.framer.pending.is_empty() && !connection.framer.discarding);
    let mut connection = ClientConnection::new(None);
    assert!(matches!(connection.receive(b"abc\nde"), Received::Frames { .. }));
    assert_eq!(connection.held, 2);
}

#[test]
fn directories_and_files_are_audited() {
    assert!(audit_directory(0, 0o40755).is_none());
    assert_eq!(audit_directory(0, 0o40757).unwrap().status, "HALTED");
    assert!(audit_directory(1000, 0o40755).is_some());
    assert!(is_trusted_file(Some(0)));
    assert!(is_trusted_file(None));
    assert!(!is_trusted_file(Some(1)));
    assert!(is_log_file("a1b2c3d4e5f6.boot"));
    assert!(is_log_file("..boot"));
    assert!(!is_log_file(".boot"));
    assert!(!is_log_file("x.boot.gz"));
    assert!(!is_log_file("xboot"));
    assert_eq!(
        seek_failure_event("bad").details,
        "Failed to seek to target stream pointer: bad"
    );
}

#[test]
fn files_are_read_on_from_where_reading_ended() {
    let name = format!("runsc.{}.boot", ID);
    let path = || format!("/var/log/gvisor/{}", name);
    let mut tracker = FileTracker::new();
    assert!(matches!(tracker.observe(path(), &name, 7, Some(100)), FileStep::Remembered));
    assert!(matches!(tracker.observe("/x".to_string(), "x.log", 1, None), FileStep::NotALog));
    tracker.finish_scan();
    match tracker.observe(path(), &name, 7, Some(150)) {
        FileStep::Read { container_id, position } => {
            assert_eq!(container_id.as_deref(), Some(ID));
            assert_eq!(position, 100);
        }
        other => panic!("unexpected {:?}", other),
    }
    tracker.record(path(), 7, 150);
    tracker.finish_scan();
    assert!(matches!(
        tracker.observe(path(), &name, 7, None),
        FileStep::Read { position: 150, .. }
    ));
    assert!(matches!(
        tracker.observe(path(), &name, 8, None),
        FileStep::Read { position: 0, .. }
    ));
    tracker.finish_scan();
    tracker.finish_scan();
    assert!(matches!(
        tracker.observe(path(), &name, 7, None),
        FileStep::Read { position: 0, .. }
    ));
}

#[test]
fn files_without_an_id_in_their_name_are_read_too() {
    let path = || "/var/log/gvisor/flood_test.boot".to_string();
    let mut tracker = FileTracker::new();
    tracker.finish_scan();
    match tracker.observe(path(), "flood_test.boot", 3, Some(40)) {
        FileStep::Read { container_id, position } => {
            assert_eq!(container_id, None);
            assert_eq!(position, 0);
        }
        other => panic!("unexpected {:?}", other),
    }
}

#[test]
fn added_lines_are_read_once() {
    let name = format!("{}.boot", ID);
    let path = || format!("/var/log/gvisor/{}", name);
    let contents = ["old\n", "old\none\n", "old\none\n", "old\none\n\ntwo  \nthree\n"];
    let mut tracker = FileTracker::new();
    let mut found = Vec::new();
    for content in contents {
        let size = content.len() as u64;
        if let FileStep::Read { position, .. } = tracker.observe(path(), &name, 7, Some(size)) {
            let mut framer = LineFramer::new();
            for frame in framer.feed(&content.as_bytes()[position as usize..]) {
                if let Frame::Line { bytes } = frame {
                    found.extend(line_text(&bytes));
                }
            }
            tracker.record(path(), 7, size);
        }
        tracker.finish_scan();
    }
    assert_eq!(found, vec!["one", "two", "three"]);
}

#[test]
fn command_lines_are_read() {
    let args = |list: &[&str]| list.iter().map(|a| a.to_string()).collect::<Vec<_>>();
    let plain = parse_command_line(&args(&["guard"]));
    assert!(!plain.reprocess_logs && !plain.output_json && !plain.hide_bypasses);
    assert_eq!(plain.offline_mapping, None);
    assert!(json_logging(&plain, true));
    assert!(!json_logging(&plain, false));
    let full = parse_command_line(&args(&[
        "guard",
        "--offline-mapping",
        "map.json",
        "--reprocess-logs",
        "--hide-bypasses",
    ]));
    assert!(full.reprocess_logs && full.hide_bypasses);
    assert_eq!(full.offline_mapping.as_deref(), Some("map.json"));
    assert!(!json_logging(&full, true));
    let cut = parse_command_line(&args(&["guard", "--output-json", "--offline-mapping"]));
    assert_eq!(cut.offline_mapping, None);
    assert!(json_logging(&cut, false));
    assert_eq!(config_path(true), "/etc/runsc-sentry-guard/config.toml");
    assert_eq!(config_path(false), "config.toml");
}

#[test]
fn service_manager_addresses_are_resolved() {
    assert_eq!(notify_address(None), None);
    assert_eq!(notify_address(Some("")), None);
    assert_eq!(notify_address(Some("/run/notify")).as_deref(), Some("/run/notify"));
    assert_eq!(notify_address(Some("@abc")).as_deref(), Some("\0abc"));
}

#[test]
fn life_cycle_entries() {
    assert!(started_event(IngestionMode::Socket).details.starts_with("Out-of-band"));
    assert!(started_event(IngestionMode::Dual).details.starts_with("Master directory"));
    assert_eq!(missing_directory_event().details, "Target directory unreachable.");
    assert_eq!(reload_event(true).status, "SUCCESS");
    assert_eq!(reload_event(false).status, "FAILURE");
    assert!(armed_event("p").details.ends_with("via path: p"));
    assert_eq!(shutdown_event().status, "HALTED");
    assert_eq!(
        engine_lost_event("no such file").details,
        "Container engine event stream lost: no such file. Reconnecting in 1 second."
    );
    let event = server_event(ServerFault::Permissions, "no");
    assert_eq!(event.action.as_deref(), Some("permissions"));
    assert_eq!(
        event.details,
        "Failed to enforce secure access permissions on UDS socket: no"
    );
    assert_eq!(server_event(ServerFault::Bind, "no").details, "UDS bind failed: no");
    assert_eq!(server_event(ServerFault::Poll, "no").action, None);
    assert!(server_event(ServerFault::Register, "no").details.ends_with("mio registry: no"));
}

fn emit(level: &str, threshold: LogLevel, json: bool, id: Option<&str>) -> Option<LogEmission> {
    emit_log(
        level,
        "comp",
        Some("rule"),
        id,
        None,
        Some("act"),
        "STATUS",
        "details",
        threshold,
        json,
        1700000000,
    )
}

#[test]
fn log_entries_are_filtered_and_written() {
    match emit("WARN", LogLevel::Info, false, Some("abc")) {
        Some(LogEmission::Plain(text)) => assert_eq!(
            text,
            "[1700000000] [WARN] [Comp: comp] [ID: abc] details -> STATUS"
        ),
        other => panic!("unexpected {:?}", other),
    }
    match emit("odd", LogLevel::Info, false, None) {
        Some(LogEmission::Plain(text)) => {
            assert_eq!(text, "[1700000000] [odd] [Comp: comp] [ID: -] details -> STATUS")
        }
        other => panic!("unexpected {:?}", other),
    }
    match emit("Critical", LogLevel::Error, true, Some("abc")) {
        Some(LogEmission::Json(record)) => {
            assert_eq!(record.timestamp, 1700000000);
            assert_eq!(record.level, "Critical");
            assert_eq!(record.rule_triggered.as_deref(), Some("rule"));
            assert_eq!(record.container_id.as_deref(), Some("abc"));
            assert_eq!(record.resolved_ip, None);
            assert_eq!(record.action_executed.as_deref(), Some("act"));
        }
        other => panic!("unexpected {:?}", other),
    }
    assert!(emit("WARN", LogLevel::Error, false, None).is_none());
    assert!(emit("DEBUG", LogLevel::Info, true, None).is_none());
    assert!(emit("WARNING", LogLevel::Warn, true, None).is_some());
    assert_eq!(level_from_lower("trace"), LogLevel::Trace);
    assert_eq!(level_from_lower("debug"), LogLevel::Debug);
    assert_eq!(level_from_lower("TRACE"), LogLevel::Info);
}

#[test]
fn text_primitives() {
    assert_eq!(trim(" \u{3000}a b\u{85}\n"), "a b");
    assert_eq!(trim_end(" a\t"), " a");
    assert!(contains("abcabd", "abd") && !contains("abcab", "abd") && contains("", ""));
    assert!(starts_with("abc", "ab") && !starts_with("a", "ab"));
    assert!(ends_with("abc", "bc") && !ends_with("c", "bc"));
    assert_eq!(split("a,,b", ','), vec!["a", "", "b"]);
    assert_eq!(split_whitespace("  inet \t t\n"), vec!["inet", "t"]);
    assert_eq!(lines("a\r\nb\n\nc"), vec!["a", "b", "", "c"]);
    assert_eq!(lines("a\n"), vec!["a"]);
    assert_eq!(join(&vec!["a".to_string(), "b".to_string()], ", "), "a, b");
    assert_eq!(split_at_mark("a:b:c", ':'), ("a".to_string(), Some("b:c".to_string())));
    assert_eq!(split_at_mark("abc", ':'), ("abc".to_string(), None));
    assert_eq!(decimal_text(0), "0");
    assert_eq!(decimal_text(u64::MAX), u64::MAX.to_string());
    assert_eq!(signed_text(i32::MIN), i32::MIN.to_string());
    assert_eq!(parse_number("+1f", 16, usize::MAX), Ok(31));
    assert_eq!(parse_number("", 10, 9), Err(NumberFault::Empty));
    assert_eq!(parse_number("+", 10, 9), Err(NumberFault::InvalidDigit));
    assert_eq!(parse_number("-1", 10, 9), Err(NumberFault::InvalidDigit));
    assert_eq!(parse_number("65536", 10, 65535), Err(NumberFault::Overflow));
    assert_eq!(NumberFault::Empty.message(), "cannot parse integer from empty string");
}
