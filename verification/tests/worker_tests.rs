use ipnet::{Ipv4Net, Ipv6Net};
use runsc_sentry_guard::config::AtomicAction;
use runsc_sentry_guard::exchange::{read_reply, Demand, Exchange, Reply};
use runsc_sentry_guard::firewall::{
    cleanup_stale_firewall_elements, execute_firewall_mutation, flush_command, judge_mutation,
    list_command, start_block, BlockDemand, CommandOutcome,
};
use runsc_sentry_guard::http::{
    read_bounded_line, request_text, ByteCursor, ExchangeError, Stage, MAX_UDS_PAYLOAD_SIZE,
};
use runsc_sentry_guard::network::{is_ip_safe, IpAddress, IpNetwork};
use runsc_sentry_guard::pipeline::{action_text, Phase, Pipeline};
use runsc_sentry_guard::worker::{
    judge_engine_reply, judge_script, judge_webhook, plan_action, script_args, Plan, ScriptState,
    ScriptVerdict,
};

fn v4_network(text: &str) -> IpNetwork {
    let net: Ipv4Net = text.parse().unwrap();
    IpNetwork::V4 { base: u32::from(net.network()), prefix: net.prefix_len() }
}

fn v4(a: u32, b: u32, c: u32, d: u32) -> IpAddress {
    IpAddress::V4(a << 24 | b << 16 | c << 8 | d)
}

#[test]
fn test_is_ip_safe_evaluations() {
    let whitelist = vec![v4_network("10.0.0.0/8"), v4_network("192.168.1.0/24")];

    // 10.5.5.5 and 172.16.0.5
    let safe_ip = v4(10, 5, 5, 5);
    let unsafe_ip = v4(172, 16, 0, 5);

    assert!(is_ip_safe(&safe_ip, &whitelist), "Failed: 10.5.5.5 should be whitelisted");
    assert!(!is_ip_safe(&unsafe_ip, &whitelist), "Failed: 172.16.0.5 should be blacklisted");
}

#[test]
fn whitelist_covers_ipv6_and_keeps_families_apart() {
    let net: Ipv6Net = "fd00::/8".parse().unwrap();
    let whitelist = vec![IpNetwork::V6 { base: u128::from(net.network()), prefix: 8 }];
    assert!(is_ip_safe(&IpAddress::V6(0xfd12u128 << 112), &whitelist));
    assert!(!is_ip_safe(&IpAddress::V6(0xfe80u128 << 112), &whitelist));
    assert!(!is_ip_safe(&v4(10, 0, 0, 1), &whitelist));

    let all = vec![IpNetwork::V4 { base: 0, prefix: 0 }];
    assert!(is_ip_safe(&v4(8, 8, 8, 8), &all));
    let one = vec![v4_network("127.0.0.1/32")];
    assert!(is_ip_safe(&v4(127, 0, 0, 1), &one));
    assert!(!is_ip_safe(&v4(127, 0, 0, 2), &one));
    assert!(!is_ip_safe(&v4(127, 0, 0, 2), &[]));
}

#[test]
fn addresses_are_printed() {
    assert_eq!(v4(10, 5, 5, 5).text(), "10.5.5.5");
    for text in ["0.0.0.0/32", "255.255.255.255/32", "1.20.30.4/32", "192.168.100.200/32"] {
        let net: Ipv4Net = text.parse().unwrap();
        let address = IpAddress::V4(u32::from(net.addr()));
        assert_eq!(format!("{}/32", address.text()), text);
    }
    for text in ["::", "::1", "fd00::1:2", "2001:db8:0:1:1:1:1:1", "::ffff:10.0.0.1"] {
        let net: Ipv6Net = format!("{}/128", text).parse().unwrap();
        assert_eq!(IpAddress::V6(u128::from(net.addr())).text(), text);
    }
}

#[test]
fn test_read_bounded_line_success() {
    let data = b"HTTP/1.1 200 OK\r\n";
    let mut cursor = ByteCursor::new(data.to_vec());

    let result = read_bounded_line(&mut cursor, 1024).unwrap();
    assert_eq!(result, "HTTP/1.1 200 OK\r\n");
}

#[test]
fn test_read_bounded_line_bloat_protection() {
    let data = vec![b'A'; 100];
    let mut cursor = ByteCursor::new(data);

    let result = read_bounded_line(&mut cursor, 50);

    assert!(result.is_err());
    assert!(result
        .unwrap_err()
        .message()
        .contains("Buffer-bloat protection: HTTP line exceeded maximum bounded length"));
}

#[test]
fn test_read_bounded_line_exact_limit_anomaly() {
    let data = vec![b'B'; 64];
    let mut cursor = ByteCursor::new(data);

    let result = read_bounded_line(&mut cursor, 64);
    assert!(
        result.is_err(),
        "Engine should fail if buffer hits limit exactly without finding a newline"
    );
}

#[test]
fn bounded_lines_follow_each_other() {
    let mut cursor = ByteCursor::new(b"one\ntwo\n\xffx".to_vec());
    assert_eq!(read_bounded_line(&mut cursor, 4).unwrap(), "one\n");
    assert_eq!(read_bounded_line(&mut cursor, 100).unwrap(), "two\n");
    assert_eq!(read_bounded_line(&mut cursor, 100).unwrap(), "\u{fffd}x");
    assert_eq!(read_bounded_line(&mut cursor, 100).unwrap(), "");
    assert!(matches!(read_bounded_line(&mut cursor, 0), Err(ExchangeError::LineTooLong)));
}

#[test]
fn test_firewall_timeout_injection_defense() {
    let target_ip = "10.0.0.2";
    let target_set = "blacklist_set";
    let target_table = "inet filter";

    let malicious_timeout = "24h; nft delete table inet filter;";

    let validation_result =
        execute_firewall_mutation(target_ip, target_set, malicious_timeout, target_table);

    assert!(
        validation_result.is_err(),
        "VULNERABILITY REGRESSION: Ingestion loop allowed unchecked structural timeout manipulation!"
    );

    if let Err(err) = validation_result {
        assert!(
            err.to_string().contains("Security Constraint Violation"),
            "Error context should explicitly detail a security validation drop"
        );
        assert_eq!(
            err,
            "Security Constraint Violation: Intercepted malformed firewall duration payload: '24h; nft delete table inet filter;'"
        );
    }
}

#[test]
fn sound_timeouts_become_commands() {
    let command = execute_firewall_mutation("10.0.0.2", "bad", "24h", "inet  security_ops").unwrap();
    assert_eq!(
        command,
        vec![
            "add",
            "element",
            "inet",
            "security_ops",
            "bad",
            "{ 10.0.0.2 timeout 24h comment \"runsc-sentry-guard\" }",
        ]
    );
    for good in ["1s", "30m", "7d", "0s"] {
        assert!(execute_firewall_mutation("10.0.0.2", "bad", good, "inet t").is_ok());
    }
    for bad in ["", "h", "24", "24H", "24hh", " 24h", "24h\n", "-1h", "2 4h"] {
        assert!(execute_firewall_mutation("10.0.0.2", "bad", bad, "inet t").is_err());
    }
}

#[test]
fn firewall_outcomes_are_judged() {
    assert!(judge_mutation(CommandOutcome::Exited { success: true }).is_ok());
    assert_eq!(
        judge_mutation(CommandOutcome::Exited { success: false }).unwrap_err(),
        "Kernel nftables transaction rejected execution parameters."
    );
    assert_eq!(
        judge_mutation(CommandOutcome::NotRun { cause: "gone".to_string() }).unwrap_err(),
        "Subprocess execution failed: gone"
    );
}

#[test]
fn whitelisted_addresses_are_spared() {
    let targets = vec![
        v4(10, 0, 0, 1),
        v4(172, 17, 0, 2),
        v4(10, 0, 0, 3),
    ];
    let mut run = start_block(
        "abc".to_string(),
        "bad".to_string(),
        "24h".to_string(),
        "inet t".to_string(),
        vec![v4_network("10.0.0.0/8")],
        targets,
    )
    .unwrap_or_else(|_| panic!("there are addresses"));
    let mut log = Vec::new();
    match run.advance(&mut log) {
        BlockDemand::Run { command, event } => {
            assert_eq!(command[4], "bad");
            assert!(command[5].starts_with("{ 172.17.0.2 timeout 24h"));
            assert_eq!(event.status, "SUCCESS");
            assert_eq!(event.ip.as_deref(), Some("172.17.0.2"));
            assert_eq!(
                event.details,
                "Target network isolated via set bad for duration context 24h"
            );
        }
        other => panic!("unexpected {:?}", other),
    }
    assert!(matches!(run.advance(&mut log), BlockDemand::Finished));
    assert_eq!(log.len(), 2);
    assert_eq!(log[0].status, "INTERCEPTED");
    assert_eq!(log[0].ip.as_deref(), Some("10.0.0.1"));
    assert_eq!(log[1].ip.as_deref(), Some("10.0.0.3"));
}

#[test]
fn blocking_needs_an_address_and_a_sound_timeout() {
    let none = start_block(
        "abc".to_string(),
        "bad".to_string(),
        "24h".to_string(),
        "inet t".to_string(),
        vec![],
        vec![],
    );
    match none {
        Err(fault) => assert_eq!(
            fault,
            "IP resolution yielded zero addresses; cannot apply nftables blacklist."
        ),
        Ok(_) => panic!("there is no address"),
    }
    let mut run = start_block(
        "abc".to_string(),
        "bad".to_string(),
        "forever".to_string(),
        "inet t".to_string(),
        vec![],
        vec![v4(1, 2, 3, 4)],
    )
    .unwrap_or_else(|_| panic!("there is an address"));
    let mut log = Vec::new();
    match run.advance(&mut log) {
        BlockDemand::Refused { fault } => assert!(fault.contains("'forever'")),
        other => panic!("unexpected {:?}", other),
    }
    assert!(log.is_empty());
}

#[test]
fn stale_entries_are_found_by_their_mark() {
    let listing = b"table inet t {\n set bad {\n elements = { 10.0.0.9 timeout 1h comment \"runsc-sentry-guard\",\n 10.0.0.8 timeout 1h,\n fd00::1:2 timeout 1h comment \"runsc-sentry-guard\" }\n }\n}\n";
    let commands = cleanup_stale_firewall_elements(listing, "bad", "inet t");
    assert_eq!(
        commands,
        vec![
            vec!["delete", "element", "inet", "t", "bad", "{ 10.0.0.9 }"],
            vec!["delete", "element", "inet", "t", "bad", "{ fd00::1:2 }"],
        ]
    );
    assert_eq!(list_command("inet t", "bad"), vec!["list", "set", "inet", "t", "bad"]);
    assert_eq!(flush_command("inet t", "bad"), vec!["flush", "set", "inet", "t", "bad"]);
}

#[test]
fn test_execute_uds_request_length_boundary_violation() {
    let malformed_http_response = "HTTP/1.1 200 OK\r\nContent-Length: 1073741824\r\n\r\n";
    let mut cursor = ByteCursor::new(malformed_http_response.as_bytes().to_vec());

    let status_line = read_bounded_line(&mut cursor, 8192).unwrap();
    let _status_code = status_line
        .split_whitespace()
        .nth(1)
        .unwrap()
        .parse::<u16>()
        .unwrap();

    let content_length: Option<usize> = Some(1073741824);
    let evaluation_result: Result<(), &str> = if let Some(len) = content_length {
        if len > MAX_UDS_PAYLOAD_SIZE {
            Err("SECURITY ABORT: Content-Length out of bounds")
        } else {
            Ok(())
        }
    } else {
        Ok(())
    };
    assert!(
        evaluation_result.is_err(),
        "Vulnerability Regression: Ingestion engine accepted a massive allocation size!"
    );

    let outcome = read_reply(malformed_http_response.as_bytes().to_vec()).unwrap();
    assert_eq!(
        outcome.unwrap_err().message(),
        "SECURITY ABORT: Content-Length 1073741824 exceeds maximum allowed UDS payload limit of 10485760 bytes."
    );
}

fn reply(text: &str) -> Option<Result<(u16, String), String>> {
    read_reply(text.as_bytes().to_vec()).map(|r| r.map_err(|e| e.message()))
}

#[test]
fn replies_with_a_length_are_read() {
    assert_eq!(
        reply("HTTP/1.1 204 No Content\r\nCONTENT-LENGTH: 5\r\n\r\nhello world"),
        Some(Ok((204, "hello".to_string())))
    );
    assert_eq!(
        reply("HTTP/1.1 200 OK\r\nContent-Length: 9\r\n\r\nshort"),
        Some(Err("Failed to read exact payload length: failed to fill whole buffer".to_string()))
    );
}

#[test]
fn replies_in_chunks_are_read() {
    assert_eq!(
        reply("HTTP/1.1 200 OK\r\nTransfer-Encoding: chunked\r\n\r\n5;x=y\r\nhello\r\n\r\n6\r\n world\r\n0\r\n\r\n"),
        Some(Ok((200, "hello world".to_string())))
    );
    assert_eq!(
        reply("HTTP/1.1 200 OK\r\nTransfer-Encoding: chunked\r\n\r\nzz\r\n"),
        Some(Err("Failed to parse chunk size: invalid digit found in string".to_string()))
    );
    assert_eq!(
        reply("HTTP/1.1 200 OK\r\nTransfer-Encoding: chunked\r\n\r\nA00001\r\n"),
        Some(Err("SECURITY ABORT: Chunk sequence size exceeds maximum allowed UDS payload limit of 10485760 bytes.".to_string()))
    );
    assert_eq!(
        reply("HTTP/1.1 200 OK\r\nTransfer-Encoding: chunked\r\n\r\nfffffffffffffffff\r\n"),
        Some(Err("Failed to parse chunk size: number too large to fit in target type".to_string()))
    );
    assert_eq!(
        reply("HTTP/1.1 200 OK\r\nTransfer-Encoding: chunked\r\n\r\n5\r\nhel"),
        Some(Err("Failed to read chunk payload: failed to fill whole buffer".to_string()))
    );
    assert_eq!(reply("HTTP/1.1 200 OK\r\nTransfer-Encoding: chunked\r\n\r\n5\r\nhello\r\n"), None);
}

#[test]
fn ascii_bodies_fill_their_bound_and_no_more() {
    let chunk = "x".repeat(5242880);
    let head = "HTTP/1.1 200 OK\r\nTransfer-Encoding: chunked\r\n\r\n";
    let full = format!("{}500000\r\n{}\r\n500000\r\n{}\r\n", head, chunk, chunk);
    match reply(&format!("{}0\r\n\r\n", full)) {
        Some(Ok((200, body))) => assert_eq!(body.len(), MAX_UDS_PAYLOAD_SIZE),
        _ => panic!("the reply is within its bound"),
    }
    assert!(matches!(reply(&format!("{}1\r\nx\r\n0\r\n\r\n", full)), Some(Err(_))));
}

#[test]
fn replies_without_length_are_read_to_the_end() {
    assert_eq!(
        reply("HTTP/1.0 404 Not Found\r\nServer: x\r\n\r\nall of it\n"),
        Some(Ok((404, "all of it\n".to_string())))
    );
    assert_eq!(reply("garbage\r\n\r\n"), Some(Ok((500, "".to_string()))));
    assert_eq!(reply("HTTP/1.1 99999 X\r\n\r\n"), Some(Ok((500, "".to_string()))));
    let outcome = read_reply(b"HTTP/1.1 200 OK\r\n\r\n\xff".to_vec()).unwrap();
    assert_eq!(
        outcome.unwrap_err().message(),
        "Failed to read payload to string: stream did not contain valid UTF-8"
    );
}

#[test]
fn replies_are_bounded() {
    assert_eq!(
        reply(""),
        Some(Err("Received completely empty frame stream from container daemon socket.".to_string()))
    );
    let many = format!("HTTP/1.1 200 OK\r\n{}\r\n", "A: b\r\n".repeat(101));
    assert_eq!(
        reply(&many),
        Some(Err("UDS Error: Maximum HTTP header count exceeded. Aborting to prevent thread lockup.".to_string()))
    );
    let enough = format!("HTTP/1.1 200 OK\r\n{}\r\n", "A: b\r\n".repeat(100));
    assert_eq!(reply(&enough), Some(Ok((200, "".to_string()))));
    let long = format!("HTTP/1.1 200 OK\r\nA: {}\r\n\r\n", "x".repeat(9000));
    assert_eq!(
        reply(&long),
        Some(Err("Buffer-bloat protection: HTTP line exceeded maximum bounded length".to_string()))
    );
}

#[test]
fn exchange_reports_failures_of_the_socket() {
    let exchange = Exchange::new();
    assert_eq!(exchange.demand(), Demand::Line { limit: 8192 });
    match exchange.step(Reply::Failed("timed out".to_string())) {
        Exchange::Failed { error } => {
            assert_eq!(error.message(), "I/O Error reading bounded line: timed out")
        }
        other => panic!("unexpected {:?}", other),
    }
    assert_eq!(
        ExchangeError::Connect { socket_path: "/s".to_string(), cause: "no".to_string() }.message(),
        "Container Engine Socket Connection Refused at /s: no"
    );
    assert_eq!(
        ExchangeError::Io { stage: Stage::Write, cause: "no".to_string() }.message(),
        "Failed to write to UDS: no"
    );
    assert_eq!(
        ExchangeError::Io { stage: Stage::Flush, cause: "no".to_string() }.message(),
        "Failed to flush UDS stream: no"
    );
    assert_eq!(
        ExchangeError::Io { stage: Stage::Rest, cause: "no".to_string() }.message(),
        "Failed to read payload to string: no"
    );
}

#[test]
fn requests_are_written() {
    assert_eq!(
        request_text("GET", "/containers/json", None),
        "GET /containers/json HTTP/1.1\r\nHost: localhost\r\nConnection: close\r\n\r\n"
    );
    assert_eq!(
        request_text("POST", "/x", Some("{\"\u{e9}\":1}")),
        "POST /x HTTP/1.1\r\nHost: localhost\r\nConnection: close\r\nContent-Type: application/json\r\nContent-Length: 8\r\n\r\n{\"\u{e9}\":1}"
    );
}

fn engine_path(action: &AtomicAction) -> (String, String) {
    match plan_action(action, "abc", 1700000000) {
        Plan::Engine { method, path } => (method, path),
        other => panic!("unexpected {:?}", other),
    }
}

#[test]
fn engine_actions_become_requests() {
    let expect = |action: AtomicAction, method: &str, path: &str| {
        assert_eq!(engine_path(&action), (method.to_string(), path.to_string()));
    };
    expect(AtomicAction::ValidateState, "GET", "/containers/abc/json");
    expect(AtomicAction::Pause, "POST", "/containers/abc/pause");
    expect(AtomicAction::Unpause, "POST", "/containers/abc/unpause");
    expect(AtomicAction::Restart, "POST", "/containers/abc/restart");
    expect(
        AtomicAction::CommitSnapshot { prefix: "forensic".to_string() },
        "POST",
        "/commit?container=abc&repo=forensic-abc-1700000000&tag=latest",
    );
    expect(
        AtomicAction::ContainerSignal { signal: "SIGKILL".to_string() },
        "POST",
        "/containers/abc/kill?signal=SIGKILL",
    );
}

#[test]
fn other_actions_are_planned() {
    match plan_action(&AtomicAction::WebhookAlert { url: "https://h.invalid".to_string() }, "abc", 0) {
        Plan::Webhook { args } => assert_eq!(
            args,
            vec![
                "-X",
                "POST",
                "-H",
                "Content-Type: application/json",
                "--max-time",
                "5",
                "--connect-timeout",
                "3",
                "--data",
                "{\"text\":\"[SENTRY-GUARD] Active containment pipeline triggered for container context: abc\"}",
                "https://h.invalid",
            ]
        ),
        other => panic!("unexpected {:?}", other),
    }
    match plan_action(&AtomicAction::LogJson, "abc", 0) {
        Plan::Record { event } => {
            assert_eq!(event.level, "INFO");
            assert_eq!(event.action.as_deref(), Some("log_json"));
            assert_eq!(event.container_id.as_deref(), Some("abc"));
        }
        other => panic!("unexpected {:?}", other),
    }
    match plan_action(&AtomicAction::LogCritical, "abc", 0) {
        Plan::Record { event } => {
            assert_eq!(event.details, "Security policy remediation loop engaged.")
        }
        other => panic!("unexpected {:?}", other),
    }
    assert!(matches!(
        plan_action(&AtomicAction::RunCustomScript { path: "/bin/x".to_string() }, "abc", 0),
        Plan::Script { .. }
    ));
    assert!(matches!(
        plan_action(
            &AtomicAction::NftBlacklist { set_name: "s".to_string(), timeout: "1h".to_string() },
            "abc",
            0
        ),
        Plan::Block { .. }
    ));
}

#[test]
fn engine_replies_are_judged() {
    let running = "{\"State\": {\"Running\": true}}";
    match judge_engine_reply(&AtomicAction::ValidateState, "abc", 200, running) {
        Ok(Some(event)) => assert_eq!(event.status, "SUCCESS"),
        other => panic!("unexpected {:?}", other),
    }
    assert!(judge_engine_reply(&AtomicAction::ValidateState, "abc", 200, "\"Running\":true").is_ok());
    assert_eq!(
        judge_engine_reply(&AtomicAction::ValidateState, "abc", 200, "{}").unwrap_err(),
        "Container is no longer in a running state. Aborting containment to prevent TOCTOU misfires."
    );
    assert_eq!(
        judge_engine_reply(&AtomicAction::ValidateState, "abc", 404, running).unwrap_err(),
        "State validation rejected (HTTP 404). Container likely terminated."
    );
    for action in [
        AtomicAction::Pause,
        AtomicAction::Unpause,
        AtomicAction::ContainerSignal { signal: "SIGSTOP".to_string() },
    ] {
        assert!(judge_engine_reply(&action, "abc", 204, "").is_ok());
        assert!(judge_engine_reply(&action, "abc", 409, "").is_ok());
        assert!(judge_engine_reply(&action, "abc", 500, "no").is_err());
    }
    assert_eq!(
        judge_engine_reply(&AtomicAction::Pause, "abc", 500, "no").unwrap_err(),
        "Pause mutation rejected (HTTP 500): no"
    );
    assert_eq!(
        judge_engine_reply(&AtomicAction::Restart, "abc", 409, "busy").unwrap_err(),
        "Restart mutation rejected (HTTP 409): busy"
    );
    assert_eq!(
        judge_engine_reply(
            &AtomicAction::CommitSnapshot { prefix: "p".to_string() },
            "abc",
            300,
            ""
        )
        .unwrap_err(),
        "CommitSnapshot rejected (HTTP 300): "
    );
}

#[test]
fn programs_are_judged() {
    assert!(judge_webhook(true, Some(0)).is_ok());
    assert_eq!(
        judge_webhook(false, Some(-22)).unwrap_err(),
        "Webhook dispatch failed. curl exited with non-zero status code: Some(-22)"
    );
    assert_eq!(
        judge_webhook(false, None).unwrap_err(),
        "Webhook dispatch failed. curl exited with non-zero status code: None"
    );
    let second = 1_000_000_000u128;
    assert!(matches!(judge_script(ScriptState::Running, 15 * second), ScriptVerdict::Wait));
    assert!(matches!(judge_script(ScriptState::Running, 15 * second + 1), ScriptVerdict::Kill { .. }));
    let done = ScriptState::Exited { success: true, status: "exit status: 0".to_string() };
    assert!(matches!(judge_script(done, 99 * second), ScriptVerdict::Succeeded));
    match judge_script(
        ScriptState::Exited { success: false, status: "exit status: 3".to_string() },
        0,
    ) {
        ScriptVerdict::Failed { fault } => assert_eq!(
            fault,
            "Custom extension script exited with failure footprint: exit status: 3"
        ),
        other => panic!("unexpected {:?}", other),
    }
    assert!(matches!(
        judge_script(ScriptState::Unknown { cause: "x".to_string() }, 0),
        ScriptVerdict::Failed { .. }
    ));
}

#[test]
fn scripts_get_the_container_its_addresses_and_the_trigger() {
    assert_eq!(script_args("abc", &vec![], "line"), vec!["abc", "UNKNOWN_IP", "line"]);
    let two = vec![v4(1, 2, 3, 4), v4(1, 2, 3, 5)];
    assert_eq!(script_args("abc", &two, "line"), vec!["abc", "1.2.3.4,1.2.3.5", "line"]);
}

fn pipeline(try_actions: Vec<AtomicAction>, final_actions: Vec<AtomicAction>) -> Pipeline {
    Pipeline::new("abc".to_string(), "rule".to_string(), try_actions, final_actions)
}

#[test]
fn successful_pipelines_need_no_fallback() {
    let mut run = pipeline(
        vec![AtomicAction::ValidateState, AtomicAction::Pause],
        vec![AtomicAction::LogCritical],
    );
    assert_eq!(run.current(), Some(&AtomicAction::ValidateState));
    assert!(run.report(Ok(())).is_empty());
    assert_eq!(run.current(), Some(&AtomicAction::Pause));
    assert!(run.report(Ok(())).is_empty());
    assert_eq!(run.current(), None);
    assert!(run.report(Err("late".to_string())).is_empty());
    assert_eq!(pipeline(vec![], vec![AtomicAction::LogCritical]).current(), None);
}

#[test]
fn failing_pipelines_fall_back_until_a_terminal_action() {
    let mut run = pipeline(
        vec![AtomicAction::Pause, AtomicAction::LogJson],
        vec![
            AtomicAction::LogCritical,
            AtomicAction::ContainerSignal { signal: "SIGTERM".to_string() },
            AtomicAction::ContainerSignal { signal: "SIGKILL".to_string() },
            AtomicAction::Restart,
        ],
    );
    let log = run.report(Err("boom".to_string()));
    assert_eq!(log.len(), 2);
    assert_eq!(log[0].details, "Primary playbook action failed structural context: boom");
    assert_eq!(log[0].action.as_deref(), Some("Pause"));
    assert_eq!(log[0].rule.as_deref(), Some("rule"));
    assert_eq!(log[1].status, "ENGAGED");
    assert_eq!(log[1].action.as_deref(), Some("escalation_routing"));
    assert_eq!(run.phase, Phase::Fallback { index: 0 });
    let log = run.report(Err("bad".to_string()));
    assert_eq!(log[0].status, "CRASH");
    assert_eq!(log[0].details, "EMERGENCY CONTAINMENT FAILURE: bad");
    let log = run.report(Ok(()));
    assert_eq!(log.len(), 1);
    assert_eq!(log[0].action.as_deref(), Some("ContainerSignal { signal: \"SIGTERM\" }"));
    let log = run.report(Ok(()));
    assert_eq!(log.len(), 2);
    assert_eq!(log[1].status, "HALTED");
    assert!(log[1].details.starts_with("Terminal signal delivered."));
    assert_eq!(run.current(), None);
}

#[test]
fn restart_ends_the_fallback_only_if_it_succeeds() {
    let actions = || vec![AtomicAction::Restart, AtomicAction::LogCritical];
    let mut run = pipeline(vec![AtomicAction::Pause], actions());
    run.report(Err("x".to_string()));
    run.report(Err("y".to_string()));
    assert_eq!(run.current(), Some(&AtomicAction::LogCritical));
    let mut run = pipeline(vec![AtomicAction::Pause], actions());
    run.report(Err("x".to_string()));
    let log = run.report(Ok(()));
    assert!(log[1].details.starts_with("Container runtime restarted."));
    assert_eq!(run.current(), None);
}

#[test]
fn actions_print_like_their_declarations() {
    assert_eq!(action_text(&AtomicAction::ValidateState), "ValidateState");
    assert_eq!(
        action_text(&AtomicAction::NftBlacklist {
            set_name: "a\"b".to_string(),
            timeout: "24h".to_string()
        }),
        "NftBlacklist { set_name: \"a\\\"b\", timeout: \"24h\" }"
    );
    for action in [
        AtomicAction::LogJson,
        AtomicAction::Pause,
        AtomicAction::Unpause,
        AtomicAction::Restart,
        AtomicAction::LogCritical,
        AtomicAction::CommitSnapshot { prefix: "p".to_string() },
        AtomicAction::ContainerSignal { signal: "\n".to_string() },
        AtomicAction::WebhookAlert { url: "u".to_string() },
    ] {
        assert_eq!(action_text(&action), format!("{:?}", action));
    }
    for path in ["/usr/bin/x", "/it's", "/a\"b"] {
        assert_eq!(
            action_text(&AtomicAction::RunCustomScript { path: path.to_string() }),
            format!("RunCustomScript {{ path: {:?} }}", std::path::PathBuf::from(path))
        );
    }
}
