use runsc_sentry_guard::config::{AtomicAction, JsonRuleConfig, PlaybookConfig, RuleConfig};
use runsc_sentry_guard::containers::{
    extract_id_from_lines, extract_id_from_pid, fetch_running_container_ids, inspection_path,
    is_container_active, probe_request, resolve_container_ips, ContainerCache, DockerEventActor,
    DockerEventPayload, EngineAnswer,
};
use runsc_sentry_guard::dispatch::{judge_send, Route, SendOutcome, WorkerRegistry};
use runsc_sentry_guard::ingestion::{
    admit_line, decide_rule, evaluate_line_signatures, settle_lookup, Admission, EvaluationStep,
    LineEvaluation,
};
use runsc_sentry_guard::limiters::{
    AntiDosState, GlobalRateLimiter, LookupVerdict, MAX_LOOKUP_TOKENS, MAX_NEGATIVE_CACHE,
};
use runsc_sentry_guard::network::IpAddress;
use runsc_sentry_guard::patterns::{
    cgroup_id_expression, flag_id_expression, word_id_expression, FLAG_ID_PATTERN,
};
use runsc_sentry_guard::rules::{compile_manifest_rules, compile_rules, CompiledRule};
use std::time::{Duration, Instant};

const ID: &str = "a1b2c3d4e5f6";
const LONG: &str = "a1b2c3d4e5f6a1b2c3d4e5f6a1b2c3d4e5f6a1b2c3d4e5f6a1b2c3d4e5f6a1b2";

#[test]
fn test_rule_compilation_matrix() {
    let raw_rules = vec![RuleConfig {
        name: "test_malicious_exec".to_string(),
        file_pattern: "*.boot".to_string(),
        regex_match: r"execve\(.*(malicious_payload)".to_string(),
        try_actions: vec![AtomicAction::LogJson],
        final_actions: vec![AtomicAction::LogCritical],
    }];

    let compiled = compile_rules(&raw_rules);
    assert_eq!(compiled.len(), 1, "Rule compilation engine dropped valid structures.");
    assert_eq!(compiled[0].name, "test_malicious_exec");

    assert!(compiled[0].matches("Captured trace line: execve(path/malicious_payload) [ID: 100]"));
    assert!(!compiled[0].matches("Captured trace line: execve(path/benign_payload)"));
    assert_eq!(compiled[0].try_actions, vec![AtomicAction::LogJson]);
    assert_eq!(compiled[0].final_actions, vec![AtomicAction::LogCritical]);
}

#[test]
fn test_malformed_rule_compilation_skips_gracefully() {
    let malformed_rules = vec![RuleConfig {
        name: "broken_regex".to_string(),
        file_pattern: "*.boot".to_string(),
        regex_match: r"execve\((unclosed_parenthesis".to_string(),
        try_actions: vec![AtomicAction::LogJson],
        final_actions: vec![],
    }];

    let compiled = compile_rules(&malformed_rules);
    assert!(
        compiled.is_empty(),
        "Compilation engine failed to isolate unparseable regex maps safely."
    );
}

#[test]
fn test_id_extractor_strict_boundaries() {
    assert_eq!(FLAG_ID_PATTERN, r"--id=\b([a-fA-F0-9]{12}|[a-fA-F0-9]{64})\b");
    let id_extractor = flag_id_expression();

    let valid_64 = "--id=a1b2c3d4e5f6a1b2c3d4e5f6a1b2c3d4e5f6a1b2c3d4e5f6a1b2c3d4e5f6a1b2";
    assert!(id_extractor.is_match(valid_64), "Regex failed to match valid 64-char ID");

    let valid_12 = "--id=a1b2c3d4e5f6";
    assert!(id_extractor.is_match(valid_12), "Regex failed to match valid 12-char ID");

    let invalid_spoof = "--id=a1b2c3d4e5f67890a";
    assert!(
        !id_extractor.is_match(invalid_spoof),
        "SECURITY ALERT: Regex matched an unbounded invalid spoof ID"
    );

    let invalid_short = "--id=abc";
    assert!(
        !id_extractor.is_match(invalid_short),
        "SECURITY ALERT: Regex matched a malformed short ID"
    );
}

#[test]
fn manifest_rules_match_any_of_their_patterns() {
    let playbooks = vec![(
        "p".to_string(),
        PlaybookConfig {
            try_actions: vec![AtomicAction::Pause],
            final_actions: vec![AtomicAction::LogCritical],
        },
    )];
    let rule = |name: &str, patterns: &[&str], playbook: &str| JsonRuleConfig {
        name: name.to_string(),
        match_any: patterns.iter().map(|p| p.to_string()).collect(),
        playbook: playbook.to_string(),
    };
    let rules = vec![
        rule("both", &["bash", "(", "socat"], "p"),
        rule("broken", &["("], "p"),
        rule("lost", &["x"], "q"),
    ];
    let compiled = compile_manifest_rules(&rules, &playbooks);
    assert_eq!(compiled.len(), 1);
    assert_eq!(compiled[0].name, "both");
    assert_eq!(compiled[0].patterns.len(), 2);
    assert!(compiled[0].matches("run bash"));
    assert!(compiled[0].matches("run socat"));
    assert!(!compiled[0].matches("run zsh"));
    assert_eq!(compiled[0].try_actions, vec![AtomicAction::Pause]);
}

fn rules() -> Vec<CompiledRule> {
    compile_rules(&[
        RuleConfig {
            name: "shell".to_string(),
            file_pattern: "*.boot".to_string(),
            regex_match: "bash".to_string(),
            try_actions: vec![AtomicAction::Pause],
            final_actions: vec![AtomicAction::LogCritical],
        },
        RuleConfig {
            name: "checked".to_string(),
            file_pattern: "*.boot".to_string(),
            regex_match: "bash|zsh".to_string(),
            try_actions: vec![AtomicAction::ValidateState, AtomicAction::Restart],
            final_actions: vec![],
        },
    ])
}

#[test]
fn known_containers_are_dispatched_at_once() {
    let rules = rules();
    let mut running = ContainerCache::new();
    running.insert(LONG.to_string());
    let now = Instant::now();
    let mut guard = AntiDosState::new_at(now);
    let mut evaluation = LineEvaluation::new(format!("execve bash --id={}", ID), None, false);
    match evaluate_line_signatures(
        &mut evaluation,
        &rules,
        &flag_id_expression(),
        &running,
        &mut guard,
        now,
    ) {
        EvaluationStep::Dispatch { order } => {
            assert_eq!(order.container_id, ID);
            assert_eq!(order.rule_name, "shell");
            assert_eq!(order.try_actions, vec![AtomicAction::Pause]);
            assert_eq!(order.final_actions, vec![AtomicAction::LogCritical]);
            assert_eq!(order.trigger_message, format!("execve bash --id={}", ID));
        }
        other => panic!("unexpected {:?}", other),
    }
    assert!(matches!(
        evaluate_line_signatures(
            &mut evaluation,
            &rules,
            &flag_id_expression(),
            &running,
            &mut guard,
            now
        ),
        EvaluationStep::Dispatch { .. }
    ));
    assert!(matches!(
        evaluate_line_signatures(
            &mut evaluation,
            &rules,
            &flag_id_expression(),
            &running,
            &mut guard,
            now
        ),
        EvaluationStep::Done
    ));
    assert_eq!(guard.tokens, MAX_LOOKUP_TOKENS);
}

#[test]
fn lines_from_files_check_the_state_first() {
    let rules = rules();
    let mut running = ContainerCache::new();
    running.insert(ID.to_string());
    let now = Instant::now();
    let mut guard = AntiDosState::new_at(now);
    let mut evaluation =
        LineEvaluation::new("execve bash".to_string(), Some(ID.to_string()), true);
    let mut orders = Vec::new();
    loop {
        match evaluate_line_signatures(
            &mut evaluation,
            &rules,
            &flag_id_expression(),
            &running,
            &mut guard,
            now,
        ) {
            EvaluationStep::Dispatch { order } => orders.push(order),
            EvaluationStep::Done => break,
            other => panic!("unexpected {:?}", other),
        }
    }
    assert_eq!(orders.len(), 2);
    assert_eq!(orders[0].try_actions, vec![AtomicAction::ValidateState, AtomicAction::Pause]);
    assert_eq!(orders[1].try_actions, vec![AtomicAction::ValidateState, AtomicAction::Restart]);
}

#[test]
fn lines_without_match_or_container_are_skipped() {
    let rules = rules();
    let running = ContainerCache::new();
    let now = Instant::now();
    let mut guard = AntiDosState::new_at(now);
    for line in ["execve zsh", "nothing --id=a1b2c3d4e5f6", "bash --id=abc"] {
        let mut evaluation = LineEvaluation::new(line.to_string(), None, false);
        for _ in 0..2 {
            assert!(matches!(
                evaluate_line_signatures(
                    &mut evaluation,
                    &rules,
                    &flag_id_expression(),
                    &running,
                    &mut guard,
                    now
                ),
                EvaluationStep::Skip
            ));
        }
    }
    assert_eq!(guard.tokens, MAX_LOOKUP_TOKENS);
}

#[test]
fn unknown_containers_are_looked_up_once() {
    let rules = rules();
    let mut running = ContainerCache::new();
    let now = Instant::now();
    let mut guard = AntiDosState::new_at(now);
    let step = decide_rule(
        true,
        Some(ID.to_string()),
        &rules[0],
        "bash",
        false,
        &running,
        &mut guard,
        now,
    );
    let order = match step {
        EvaluationStep::LookUp { order } => order,
        other => panic!("unexpected {:?}", other),
    };
    assert_eq!(guard.tokens, MAX_LOOKUP_TOKENS - 1);
    assert!(settle_lookup(order, false, &mut running, &mut guard).is_none());
    assert!(!running.knows(ID));
    assert!(matches!(
        decide_rule(
            true,
            Some(ID.to_string()),
            &rules[0],
            "bash",
            false,
            &running,
            &mut guard,
            now
        ),
        EvaluationStep::Skip
    ));
    assert_eq!(guard.tokens, MAX_LOOKUP_TOKENS - 1);
    let step = decide_rule(
        true,
        Some(LONG.to_string()),
        &rules[0],
        "bash",
        false,
        &running,
        &mut guard,
        now,
    );
    match step {
        EvaluationStep::LookUp { order } => {
            let order = settle_lookup(order, true, &mut running, &mut guard).unwrap();
            assert_eq!(order.container_id, LONG);
        }
        other => panic!("unexpected {:?}", other),
    }
    assert!(running.knows(LONG));
    assert!(running.knows(ID));
}

#[test]
fn lookups_run_out_and_come_back() {
    let start = Instant::now();
    let mut guard = AntiDosState::new_at(start);
    for i in 0..10 {
        assert_eq!(guard.request_lookup(&format!("id{}", i), start), LookupVerdict::Granted);
    }
    assert_eq!(guard.request_lookup("more", start), LookupVerdict::Exhausted);
    let soon = start + Duration::from_millis(999);
    assert_eq!(guard.request_lookup("more", soon), LookupVerdict::Exhausted);
    let rules = rules();
    match decide_rule(
        true,
        Some("more".to_string()),
        &rules[0],
        "bash",
        false,
        &ContainerCache::new(),
        &mut guard,
        soon,
    ) {
        EvaluationStep::Refuse { event } => {
            assert_eq!(event.details, "Container lookup token pool exhausted. Payload discarded.");
            assert_eq!(event.action.as_deref(), Some("api_rate_limit"));
        }
        other => panic!("unexpected {:?}", other),
    }
    let later = start + Duration::from_secs(1);
    assert_eq!(guard.request_lookup("more", later), LookupVerdict::Granted);
    assert_eq!(guard.tokens, MAX_LOOKUP_TOKENS - 1);
    assert_eq!(guard.last_refill, later);
}

#[test]
fn floods_of_unknown_ids_run_out_of_lookups() {
    let rules = compile_rules(&[RuleConfig {
        name: "shell".to_string(),
        file_pattern: "*.boot".to_string(),
        regex_match: r"execve\(.*sh".to_string(),
        try_actions: vec![AtomicAction::Pause],
        final_actions: vec![],
    }]);
    let mut running = ContainerCache::new();
    let now = Instant::now();
    let mut guard = AntiDosState::new_at(now);
    let mut lookups = 0;
    let mut refusals = 0;
    for i in 1..=5000 {
        let line = format!("execve(/bin/sh) --id={:012}", i);
        let mut evaluation = LineEvaluation::new(line, None, true);
        match evaluate_line_signatures(
            &mut evaluation,
            &rules,
            &flag_id_expression(),
            &running,
            &mut guard,
            now,
        ) {
            EvaluationStep::LookUp { order } => {
                assert_eq!(order.container_id, format!("{:012}", i));
                assert_eq!(order.try_actions[0], AtomicAction::ValidateState);
                assert!(settle_lookup(order, false, &mut running, &mut guard).is_none());
                lookups += 1;
            }
            EvaluationStep::Refuse { event } => {
                assert_eq!(event.level, "WARN");
                assert_eq!(
                    event.details,
                    "Container lookup token pool exhausted. Payload discarded."
                );
                refusals += 1;
            }
            other => panic!("unexpected {:?}", other),
        }
    }
    assert_eq!((lookups, refusals), (10, 4990));
}

#[test]
fn negative_cache_forgets_its_oldest_entry() {
    let now = Instant::now();
    let mut guard = AntiDosState::new();
    for i in 0..MAX_NEGATIVE_CACHE {
        guard.record_missing(format!("id{}", i));
    }
    assert_eq!(guard.negative_cache.len(), 1000);
    assert_eq!(guard.request_lookup("id0", now), LookupVerdict::KnownMissing);
    guard.record_missing("new".to_string());
    assert_eq!(guard.negative_cache.len(), 1000);
    assert_eq!(guard.negative_queue.len(), 1000);
    assert!(!guard.negative_cache.contains("id0"));
    assert_eq!(guard.request_lookup("new", now), LookupVerdict::KnownMissing);
    assert_eq!(guard.request_lookup("id0", now), LookupVerdict::Granted);
}

#[test]
fn lines_are_admitted_up_to_the_ceiling() {
    let start = Instant::now();
    let mut limiter = GlobalRateLimiter::new_at(2, start);
    assert!(matches!(admit_line(&mut limiter, start), Admission::Admitted));
    assert!(matches!(admit_line(&mut limiter, start), Admission::Admitted));
    match admit_line(&mut limiter, start) {
        Admission::DroppedWithWarning { event } => {
            assert_eq!(event.status, "THROTTLED");
            assert_eq!(event.component, "orchestrator");
        }
        other => panic!("unexpected {:?}", other),
    }
    let soon = start + Duration::from_millis(999);
    assert!(matches!(admit_line(&mut limiter, soon), Admission::Dropped));
    let next = start + Duration::from_secs(1);
    assert!(matches!(admit_line(&mut limiter, next), Admission::Admitted));
    assert!(matches!(admit_line(&mut limiter, next), Admission::Admitted));
    assert!(matches!(admit_line(&mut limiter, next), Admission::Dropped));
    let late = start + Duration::from_secs(5);
    assert!(matches!(admit_line(&mut limiter, late), Admission::Admitted));
    assert!(limiter.should_warn_at(late));
    assert!(!limiter.should_warn_at(late));
}

#[test]
fn refused_warnings_do_not_restart_the_wait() {
    let start = Instant::now();
    let mut limiter = GlobalRateLimiter::new_at(1, start);
    let mut given = Vec::new();
    for tenths in 0..120u64 {
        if limiter.should_warn_at(start + Duration::from_millis(tenths * 100)) {
            given.push(tenths);
        }
        limiter.acquire_at(start + Duration::from_millis(tenths * 100));
    }
    assert_eq!(given, vec![0, 50, 100]);
}

#[test]
fn known_containers_get_every_matching_rule_in_order() {
    let rule = |name: &str, pattern: &str| RuleConfig {
        name: name.to_string(),
        file_pattern: "*.boot".to_string(),
        regex_match: pattern.to_string(),
        try_actions: vec![AtomicAction::Pause],
        final_actions: vec![],
    };
    let rules = compile_rules(&[
        rule("one", "bash"),
        rule("two", "zsh"),
        rule("three", "exec"),
        rule("four", "bash$"),
    ]);
    let mut running = ContainerCache::new();
    running.insert(LONG.to_string());
    let now = Instant::now();
    let mut guard = AntiDosState::new_at(now);
    let mut evaluation =
        LineEvaluation::new("execve bash".to_string(), Some(ID.to_string()), false);
    let mut names = Vec::new();
    loop {
        match evaluate_line_signatures(
            &mut evaluation,
            &rules,
            &flag_id_expression(),
            &running,
            &mut guard,
            now,
        ) {
            EvaluationStep::Dispatch { order } => names.push(order.rule_name),
            EvaluationStep::Skip => {}
            EvaluationStep::Done => break,
            other => panic!("unexpected {:?}", other),
        }
    }
    assert_eq!(names, vec!["one", "three", "four"]);
}

#[test]
fn limiter_reads_the_clock() {
    let mut limiter = GlobalRateLimiter::new(1);
    assert!(limiter.acquire());
    assert!(limiter.should_warn());
    assert!(!limiter.should_warn());
    let mut closed = GlobalRateLimiter::new(0);
    assert!(!closed.acquire());
}

fn event(action: &str, id: &str) -> DockerEventPayload {
    DockerEventPayload {
        event_type: "container".to_string(),
        action: action.to_string(),
        actor: DockerEventActor { id: id.to_string() },
    }
}

#[test]
fn events_keep_the_cache_up_to_date() {
    let mut running = ContainerCache::new();
    running.apply(event("start", LONG));
    running.apply(event("start", LONG));
    running.apply(event("pause", "ffffffffffff"));
    assert!(running.knows(LONG));
    assert!(running.knows(ID));
    assert!(!running.knows("ffffffffffff"));
    assert!(!running.knows(&format!("{}0", LONG)));
    running.apply(event("die", LONG));
    assert!(!running.knows(ID));
    running.replace(vec!["one".to_string()]);
    assert!(running.knows("one"));
}

#[test]
fn engine_answers_are_read() {
    let listed = EngineAnswer::Answered {
        status: 200,
        content: Some(vec!["a".to_string(), "b".to_string(), "a".to_string()]),
    };
    assert_eq!(fetch_running_container_ids(listed), vec!["a", "b"]);
    let refused = EngineAnswer::Answered { status: 500, content: Some(vec!["a".to_string()]) };
    assert!(fetch_running_container_ids(refused).is_empty());
    let unread = EngineAnswer::Answered { status: 200, content: None };
    assert!(fetch_running_container_ids(unread).is_empty());
    let failed = EngineAnswer::Failed { cause: "x".to_string() };
    assert!(fetch_running_container_ids(failed).is_empty());

    let address = || IpAddress::V4(1);
    let (found, log) = resolve_container_ips(
        "abc",
        EngineAnswer::Answered { status: 200, content: Some(vec![None, Some(address()), None]) },
    );
    assert_eq!(found.len(), 1);
    assert_eq!(found[0].text(), "0.0.0.1");
    assert!(log.is_none());
    let (found, log) = resolve_container_ips(
        "abc",
        EngineAnswer::Answered { status: 404, content: Some(vec![Some(address())]) },
    );
    assert!(found.is_empty());
    assert_eq!(
        log.unwrap().details,
        "Container socket returned HTTP 404 during IP resolution."
    );
    let (found, log) =
        resolve_container_ips("abc", EngineAnswer::Failed { cause: "gone".to_string() });
    assert!(found.is_empty());
    assert_eq!(
        log.unwrap().details,
        "Failed to query Container socket for networking metadata via UDS channel: gone"
    );
    assert_eq!(inspection_path("abc"), "/containers/abc/json");
}

#[test]
fn the_quick_question_is_asked_and_answered() {
    assert_eq!(probe_request("abc"), "GET /containers/abc/json HTTP/1.0\r\n\r\n");
    assert!(is_container_active(Some("HTTP/1.0 200 OK\r\n")));
    assert!(!is_container_active(Some("HTTP/1.0 404 Not Found\r\n")));
    assert!(!is_container_active(Some("HTTP/1.0 200\r\n")));
    assert!(!is_container_active(None));
}

#[test]
fn ids_are_found_in_command_lines_and_listings() {
    let line = format!("runsc\0--root=/x\0{}\0ffffffffffff\0", LONG);
    assert_eq!(extract_id_from_pid(Some(&line)).as_deref(), Some(LONG));
    assert_eq!(extract_id_from_pid(Some("runsc\0boot")), None);
    assert_eq!(extract_id_from_pid(None), None);
    let listing = vec!["0::/".to_string(), format!("0::/docker/{}", LONG)];
    assert_eq!(
        extract_id_from_lines(&listing, &cgroup_id_expression()).as_deref(),
        Some(LONG)
    );
    assert_eq!(
        extract_id_from_lines(&vec![format!("x {} y", ID)], &word_id_expression()).as_deref(),
        Some(ID)
    );
    assert_eq!(extract_id_from_lines(&vec![], &word_id_expression()), None);
}

#[test]
fn workers_are_limited() {
    let mut registry: WorkerRegistry<u32> = WorkerRegistry::new(2);
    assert!(matches!(registry.route("a", "r"), Route::Spawn));
    assert!(registry.enlist("a".to_string(), 1));
    assert!(registry.enlist("b".to_string(), 2));
    assert!(matches!(registry.route("a", "r"), Route::Existing));
    assert_eq!(registry.channel("b"), Some(&2));
    match registry.route("c", "r") {
        Route::Refused { event } => {
            assert_eq!(event.status, "OOM_PREVENTION");
            assert_eq!(event.rule.as_deref(), Some("r"));
            assert_eq!(event.container_id.as_deref(), Some("c"));
        }
        other => panic!("unexpected {:?}", other),
    }
    assert!(!registry.enlist("c".to_string(), 3));
    assert!(!registry.enlist("a".to_string(), 4));
    assert_eq!(registry.channel("a"), Some(&1));
    registry.retire("a");
    assert_eq!(registry.channel("a"), None);
    assert!(registry.enlist("c".to_string(), 3));
}

#[test]
fn sending_to_new_workers_is_reported() {
    assert!(judge_send(SendOutcome::Sent, true, "r", "c").is_none());
    assert!(judge_send(SendOutcome::Full, false, "r", "c").is_none());
    let full = judge_send(SendOutcome::Full, true, "r", "c").unwrap();
    assert_eq!(full.status, "DROPPED");
    assert_eq!(full.level, "CRITICAL");
    let broken = judge_send(SendOutcome::Disconnected, true, "r", "c").unwrap();
    assert_eq!(broken.details, "Worker channel broken unexpectedly.");
}
