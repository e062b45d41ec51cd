use runsc_sentry_guard::config::{
    default_log_level, default_max_workers, AtomicAction, ConfigError, IngestionMode,
    JsonRuleConfig, LogLevel, ManifestSource, PlaybookConfig, SecurityManifest,
};
use runsc_sentry_guard::firewall::{sets_to_clean, sets_to_flush};
use runsc_sentry_guard::manifest::load_and_merge_manifests;
use runsc_sentry_guard::rules::compile_manifest_rules;
use runsc_sentry_guard::seccomp::{profile_for_playbooks, RuntimeSeccompProfile};

fn playbook(try_actions: Vec<AtomicAction>) -> PlaybookConfig {
    PlaybookConfig { try_actions, final_actions: vec![] }
}

fn manifest_of(text: &str) -> SecurityManifest {
    let value: serde_json::Value = serde_json::from_str(text).unwrap();
    let mut playbooks = Vec::new();
    if let Some(object) = value.get("playbooks").and_then(|p| p.as_object()) {
        for (name, body) in object {
            assert!(body["try_actions"].as_array().unwrap().is_empty());
            assert!(body["final_actions"].as_array().unwrap().is_empty());
            playbooks.push((name.clone(), playbook(vec![])));
        }
    }
    assert!(value["rules"].as_array().unwrap().is_empty());
    SecurityManifest { playbooks, rules: vec![] }
}

#[test]
fn test_load_and_merge_manifests_collision() {
    let text = r#"{"playbooks":{"p1":{"try_actions":[],"final_actions":[]}},"rules":[]}"#;
    let sources = vec![
        ManifestSource::Loaded { path: "manifest1.json".to_string(), manifest: manifest_of(text) },
        ManifestSource::Loaded { path: "manifest2.json".to_string(), manifest: manifest_of(text) },
    ];
    let res = load_and_merge_manifests(sources);
    assert!(res.is_err());
    assert!(res.unwrap_err().message().contains("Playbook name 'p1' found in"));
}

fn rule(name: &str, playbook: &str) -> JsonRuleConfig {
    JsonRuleConfig {
        name: name.to_string(),
        match_any: vec!["execve".to_string()],
        playbook: playbook.to_string(),
    }
}

fn source(
    path: &str,
    playbooks: Vec<(&str, PlaybookConfig)>,
    rules: Vec<JsonRuleConfig>,
) -> ManifestSource {
    ManifestSource::Loaded {
        path: path.to_string(),
        manifest: SecurityManifest {
            playbooks: playbooks.into_iter().map(|(n, p)| (n.to_string(), p)).collect(),
            rules,
        },
    }
}

#[test]
fn sound_manifests_are_merged_in_order() {
    let sources = vec![
        source("a", vec![("p1", playbook(vec![AtomicAction::Pause]))], vec![rule("r1", "p2")]),
        source("b", vec![("p2", playbook(vec![AtomicAction::LogJson]))], vec![rule("r2", "p1")]),
    ];
    let (playbooks, rules) = load_and_merge_manifests(sources).unwrap();
    assert_eq!(playbooks[0].0, "p1");
    assert_eq!(playbooks[1].0, "p2");
    assert_eq!(rules[0].name, "r1");
    assert_eq!(rules[1].name, "r2");
    let compiled = compile_manifest_rules(&rules, &playbooks);
    assert_eq!(compiled.len(), 2);
    assert_eq!(compiled[0].try_actions, vec![AtomicAction::LogJson]);
    assert_eq!(compiled[1].try_actions, vec![AtomicAction::Pause]);
}

#[test]
fn the_order_of_manifests_only_reorders_the_rules() {
    let first =
        || source("a", vec![("p1", playbook(vec![AtomicAction::Pause]))], vec![rule("r1", "p2")]);
    let second =
        || source("b", vec![("p2", playbook(vec![AtomicAction::LogJson]))], vec![rule("r2", "p1")]);
    let (playbooks, rules) = load_and_merge_manifests(vec![first(), second()]).unwrap();
    let (others, reordered) = load_and_merge_manifests(vec![second(), first()]).unwrap();
    assert_eq!(playbooks[0], others[1]);
    assert_eq!(playbooks[1], others[0]);
    assert_eq!(rules[0].name, reordered[1].name);
    assert_eq!(rules[1].name, reordered[0].name);
    assert!(load_and_merge_manifests(vec![first()]).is_err());
    assert!(load_and_merge_manifests(vec![first(), second(), first()]).is_err());
    assert!(load_and_merge_manifests(vec![first(), first(), second()]).is_err());
}

fn refusal(sources: Vec<ManifestSource>) -> ConfigError {
    match load_and_merge_manifests(sources) {
        Err(error) => error,
        Ok(_) => panic!("the sources were accepted"),
    }
}

#[test]
fn every_refusal_has_its_reason() {
    let error = refusal(vec![ManifestSource::Unreadable { path: "x".to_string() }]);
    assert_eq!(error.message(), "Failed to read security manifest file: 'x'");
    let error = refusal(vec![ManifestSource::Malformed { path: "x".to_string() }]);
    assert_eq!(error.message(), "JSON schema structural verification failed for file: 'x'");
    let p = || ("p", playbook(vec![AtomicAction::Pause]));
    let error = refusal(vec![source("a", vec![p()], vec![rule("r", "p"), rule("r", "p")])]);
    assert_eq!(
        error.message(),
        "Configuration Collision Error: Rule name 'r' defined in 'a' conflicts with an existing rule declaration."
    );
    let error = refusal(vec![source("a", vec![p()], vec![])]);
    assert!(matches!(error, ConfigError::NoRules));
    assert!(error.message().starts_with("Security Constraint Violation: At least one"));
    let error = refusal(vec![source("a", vec![("e", playbook(vec![]))], vec![rule("r", "e")])]);
    assert_eq!(
        error.message(),
        "Validation Error: Playbook 'e' contains no operational try/final actions."
    );
    let block = AtomicAction::NftBlacklist {
        set_name: "s".to_string(),
        timeout: "24h; drop table;".to_string(),
    };
    let error = refusal(vec![source("a", vec![("b", playbook(vec![block]))], vec![rule("r", "b")])]);
    assert_eq!(
        error.message(),
        "Security Constraint Violation: Playbook 'b' contains an invalid firewall timeout format: '24h; drop table;'"
    );
    let error = refusal(vec![source("a", vec![p()], vec![rule("r", "q")])]);
    assert_eq!(
        error.message(),
        "Integrity Constraint Violation: Rule 'r' references an undefined playbook lookup identity: 'q'."
    );
    assert!(matches!(refusal(vec![]), ConfigError::NoRules));
}

#[test]
fn defaults_and_modes() {
    assert_eq!(default_max_workers(), 100);
    assert_eq!(default_log_level(), LogLevel::Info);
    assert!(LogLevel::Trace.rank() < LogLevel::Error.rank());
    assert!(IngestionMode::Dual.uses_files() && IngestionMode::Dual.uses_socket());
    assert!(IngestionMode::File.uses_files() && !IngestionMode::File.uses_socket());
    assert!(!IngestionMode::Socket.uses_files() && IngestionMode::Socket.uses_socket());
}

#[test]
fn firewall_sets_of_playbooks_and_rules() {
    let block = |set: &str| AtomicAction::NftBlacklist {
        set_name: set.to_string(),
        timeout: "1h".to_string(),
    };
    let playbooks = vec![
        (
            "p".to_string(),
            PlaybookConfig {
                try_actions: vec![AtomicAction::Pause, block("a")],
                final_actions: vec![block("b")],
            },
        ),
        ("q".to_string(), playbook(vec![block("a")])),
    ];
    assert_eq!(sets_to_flush(&playbooks), vec!["a", "b", "a"]);
    assert_eq!(profile_for_playbooks(&playbooks), RuntimeSeccompProfile::AutomationCompatible);
    let quiet = vec![("p".to_string(), playbook(vec![AtomicAction::Pause]))];
    assert_eq!(profile_for_playbooks(&quiet), RuntimeSeccompProfile::Core);
    let rules = vec![runsc_sentry_guard::config::RuleConfig {
        name: "r".to_string(),
        file_pattern: "*.boot".to_string(),
        regex_match: "x".to_string(),
        try_actions: vec![block("c")],
        final_actions: vec![AtomicAction::LogCritical, block("d")],
    }];
    assert_eq!(sets_to_clean(&rules), vec!["c", "d"]);
}
