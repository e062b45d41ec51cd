//! The merging and validation of the security manifests.
use crate::config::{
    AtomicAction, ConfigError, ConfigErrorView, JsonRuleConfig, ManifestSource, PlaybookConfig,
};
use crate::patterns;
use vstd::prelude::*;

verus! {

/// Named playbooks in the order in which they were declared.
pub type Playbooks = Seq<(String, PlaybookConfig)>;

/// A playbook of the given name is among `playbooks`.
pub open spec fn has_playbook(playbooks: Playbooks, name: Seq<char>) -> bool {
    exists|i: int| 0 <= i < playbooks.len() && (#[trigger] playbooks[i]).0@ == name
}

/// A rule of the given name is among `rules`.
pub open spec fn has_rule(rules: Seq<JsonRuleConfig>, name: Seq<char>) -> bool {
    exists|i: int| 0 <= i < rules.len() && (#[trigger] rules[i]).name@ == name
}

/// `known` with the playbooks of one manifest added in order, or the first clash of
/// names.
pub open spec fn add_playbooks(
    known: Playbooks,
    incoming: Playbooks,
    path: Seq<char>,
) -> Result<Playbooks, ConfigErrorView>
    decreases incoming.len(),
{
    if incoming.len() == 0 {
        Ok(known)
    } else {
        match add_playbooks(known, incoming.drop_last(), path) {
            Err(error) => Err(error),
            Ok(so_far) => if has_playbook(so_far, incoming.last().0@) {
                Err(ConfigErrorView::PlaybookCollision { name: incoming.last().0@, path })
            } else {
                Ok(so_far.push(incoming.last()))
            },
        }
    }
}

/// `known` with the rules of one manifest added in order, or the first clash of names.
pub open spec fn add_rules(
    known: Seq<JsonRuleConfig>,
    incoming: Seq<JsonRuleConfig>,
    path: Seq<char>,
) -> Result<Seq<JsonRuleConfig>, ConfigErrorView>
    decreases incoming.len(),
{
    if incoming.len() == 0 {
        Ok(known)
    } else {
        match add_rules(known, incoming.drop_last(), path) {
            Err(error) => Err(error),
            Ok(so_far) => if has_rule(so_far, incoming.last().name@) {
                Err(ConfigErrorView::RuleCollision { name: incoming.last().name@, path })
            } else {
                Ok(so_far.push(incoming.last()))
            },
        }
    }
}

/// What has been gathered from manifests: playbooks and rules.
pub type Gathered = (Playbooks, Seq<JsonRuleConfig>);

/// `gathered` with one more source: its playbooks first, then its rules.
pub open spec fn add_source(
    gathered: Gathered,
    source: ManifestSource,
) -> Result<Gathered, ConfigErrorView> {
    match source {
        ManifestSource::Unreadable { path } => Err(ConfigErrorView::Unreadable { path: path@ }),
        ManifestSource::Malformed { path } => Err(ConfigErrorView::Malformed { path: path@ }),
        ManifestSource::Loaded { path, manifest } => match add_playbooks(
            gathered.0,
            manifest.playbooks@,
            path@,
        ) {
            Err(error) => Err(error),
            Ok(playbooks) => match add_rules(gathered.1, manifest.rules@, path@) {
                Err(error) => Err(error),
                Ok(rules) => Ok((playbooks, rules)),
            },
        },
    }
}

/// What the sources give together, or the first failure.
pub open spec fn gather(sources: Seq<ManifestSource>) -> Result<Gathered, ConfigErrorView>
    decreases sources.len(),
{
    if sources.len() == 0 {
        Ok((Seq::empty(), Seq::empty()))
    } else {
        match gather(sources.drop_last()) {
            Err(error) => Err(error),
            Ok(gathered) => add_source(gathered, sources.last()),
        }
    }
}

/// The timeout of an action is one that the firewall may be given.
pub open spec fn acceptable_timeout(timeout: Seq<char>) -> bool {
    patterns::pattern_accepts(patterns::TIMEOUT_PATTERN@, timeout)
}

/// The action does not carry a malformed firewall timeout.
pub open spec fn acceptable_action(action: AtomicAction) -> bool {
    match action {
        AtomicAction::NftBlacklist { timeout, .. } => acceptable_timeout(timeout@),
        _ => true,
    }
}

/// The first malformed firewall timeout among `actions`.
pub open spec fn first_bad_timeout(actions: Seq<AtomicAction>) -> Option<Seq<char>>
    decreases actions.len(),
{
    if actions.len() == 0 {
        None
    } else {
        match first_bad_timeout(actions.drop_last()) {
            Some(timeout) => Some(timeout),
            None => match actions.last() {
                AtomicAction::NftBlacklist { timeout, .. } => if acceptable_timeout(timeout@) {
                    None
                } else {
                    Some(timeout@)
                },
                _ => None,
            },
        }
    }
}

/// What is wrong with one playbook.
pub open spec fn playbook_fault(
    name: Seq<char>,
    playbook: PlaybookConfig,
) -> Option<ConfigErrorView> {
    if playbook.try_actions@.len() == 0 && playbook.final_actions@.len() == 0 {
        Some(ConfigErrorView::EmptyPlaybook { name })
    } else {
        match first_bad_timeout(playbook.try_actions@ + playbook.final_actions@) {
            Some(timeout) => Some(ConfigErrorView::InvalidTimeout { playbook: name, timeout }),
            None => None,
        }
    }
}

/// The first fault among `playbooks`.
pub open spec fn first_playbook_fault(playbooks: Playbooks) -> Option<ConfigErrorView>
    decreases playbooks.len(),
{
    if playbooks.len() == 0 {
        None
    } else {
        match first_playbook_fault(playbooks.drop_last()) {
            Some(fault) => Some(fault),
            None => playbook_fault(playbooks.last().0@, playbooks.last().1),
        }
    }
}

/// The first rule that names a playbook that is not there.
pub open spec fn first_undefined_playbook(
    rules: Seq<JsonRuleConfig>,
    playbooks: Playbooks,
) -> Option<ConfigErrorView>
    decreases rules.len(),
{
    if rules.len() == 0 {
        None
    } else {
        match first_undefined_playbook(rules.drop_last(), playbooks) {
            Some(fault) => Some(fault),
            None => if has_playbook(playbooks, rules.last().playbook@) {
                None
            } else {
                Some(
                    ConfigErrorView::UndefinedPlaybook {
                        rule: rules.last().name@,
                        playbook: rules.last().playbook@,
                    },
                )
            },
        }
    }
}

/// What is wrong with everything that was gathered.
pub open spec fn gathered_fault(gathered: Gathered) -> Option<ConfigErrorView> {
    if gathered.1.len() == 0 {
        Some(ConfigErrorView::NoRules)
    } else {
        match first_playbook_fault(gathered.0) {
            Some(fault) => Some(fault),
            None => first_undefined_playbook(gathered.1, gathered.0),
        }
    }
}

/// What merging the sources gives.
pub open spec fn merge_outcome(sources: Seq<ManifestSource>) -> Result<Gathered, ConfigErrorView> {
    match gather(sources) {
        Err(error) => Err(error),
        Ok(gathered) => match gathered_fault(gathered) {
            Some(fault) => Err(fault),
            None => Ok(gathered),
        },
    }
}

/// Whether a playbook of the given name is among `playbooks`.
pub fn contains_playbook(playbooks: &Vec<(String, PlaybookConfig)>, name: &String) -> (r: bool)
    ensures
        r == has_playbook(playbooks@, name@),
{
    let mut i: usize = 0;
    while i < playbooks.len()
        invariant
            i <= playbooks@.len(),
            forall|j: int| 0 <= j < i ==> (#[trigger] playbooks@[j]).0@ != name@,
        decreases playbooks@.len() - i,
    {
        if playbooks[i].0 == *name {
            assert(playbooks@[i as int].0@ == name@);
            return true;
        }
        i += 1;
    }
    false
}

/// Whether a rule of the given name is among `rules`.
fn contains_rule(rules: &Vec<JsonRuleConfig>, name: &String) -> (r: bool)
    ensures
        r == has_rule(rules@, name@),
{
    let mut i: usize = 0;
    while i < rules.len()
        invariant
            i <= rules@.len(),
            forall|j: int| 0 <= j < i ==> (#[trigger] rules@[j]).name@ != name@,
        decreases rules@.len() - i,
    {
        if rules[i].name == *name {
            assert(rules@[i as int].name@ == name@);
            return true;
        }
        i += 1;
    }
    false
}

/// Adds the playbooks of one manifest.
fn absorb_playbooks(
    known: &mut Vec<(String, PlaybookConfig)>,
    incoming: Vec<(String, PlaybookConfig)>,
    path: &String,
) -> (r: Result<(), ConfigError>)
    ensures
        match add_playbooks(old(known)@, incoming@, path@) {
            Ok(playbooks) => r is Ok && final(known)@ == playbooks,
            Err(error) => r is Err && r->Err_0@ == error,
        },
{
    let ghost start = known@;
    let ghost all = incoming@;
    assert(all.take(0) =~= Seq::<(String, PlaybookConfig)>::empty());
    for entry in it: incoming.into_iter()
        invariant
            it.seq() == all,
            start == old(known)@,
            all == incoming@,
            add_playbooks(start, all.take(it.index() as int), path@) == Ok::<
                Playbooks,
                ConfigErrorView,
            >(known@),
    {
        proof {
            let n = it.index() as int;
            assert(all.take(n + 1).drop_last() =~= all.take(n));
            assert(all.take(n + 1).last() == entry);
        }
        if contains_playbook(known, &entry.0) {
            proof {
                lemma_playbook_clash_stays(start, all, it.index() as int + 1, path@);
            }
            return Err(ConfigError::PlaybookCollision { name: entry.0, path: path.clone() });
        }
        known.push(entry);
    }
    assert(all.take(all.len() as int) =~= all);
    Ok(())
}

/// A clash in a prefix of the incoming playbooks is the clash of all of them.
proof fn lemma_playbook_clash_stays(known: Playbooks, incoming: Playbooks, n: int, path: Seq<char>)
    requires
        0 <= n <= incoming.len(),
        add_playbooks(known, incoming.take(n), path) is Err,
    ensures
        add_playbooks(known, incoming, path) == add_playbooks(known, incoming.take(n), path),
    decreases incoming.len() - n,
{
    if n == incoming.len() {
        assert(incoming.take(n) =~= incoming);
    } else {
        assert(incoming.take(n + 1).drop_last() =~= incoming.take(n));
        lemma_playbook_clash_stays(known, incoming, n + 1, path);
    }
}

/// Adds the rules of one manifest.
fn absorb_rules(
    known: &mut Vec<JsonRuleConfig>,
    incoming: Vec<JsonRuleConfig>,
    path: &String,
) -> (r: Result<(), ConfigError>)
    ensures
        match add_rules(old(known)@, incoming@, path@) {
            Ok(rules) => r is Ok && final(known)@ == rules,
            Err(error) => r is Err && r->Err_0@ == error,
        },
{
    let ghost start = known@;
    let ghost all = incoming@;
    assert(all.take(0) =~= Seq::<JsonRuleConfig>::empty());
    for rule in it: incoming.into_iter()
        invariant
            it.seq() == all,
            start == old(known)@,
            all == incoming@,
            add_rules(start, all.take(it.index() as int), path@) == Ok::<
                Seq<JsonRuleConfig>,
                ConfigErrorView,
            >(known@),
    {
        proof {
            let n = it.index() as int;
            assert(all.take(n + 1).drop_last() =~= all.take(n));
            assert(all.take(n + 1).last() == rule);
        }
        if contains_rule(known, &rule.name) {
            proof {
                lemma_rule_clash_stays(start, all, it.index() as int + 1, path@);
            }
            return Err(ConfigError::RuleCollision { name: rule.name, path: path.clone() });
        }
        known.push(rule);
    }
    assert(all.take(all.len() as int) =~= all);
    Ok(())
}

/// A clash in a prefix of the incoming rules is the clash of all of them.
proof fn lemma_rule_clash_stays(
    known: Seq<JsonRuleConfig>,
    incoming: Seq<JsonRuleConfig>,
    n: int,
    path: Seq<char>,
)
    requires
        0 <= n <= incoming.len(),
        add_rules(known, incoming.take(n), path) is Err,
    ensures
        add_rules(known, incoming, path) == add_rules(known, incoming.take(n), path),
    decreases incoming.len() - n,
{
    if n == incoming.len() {
        assert(incoming.take(n) =~= incoming);
    } else {
        assert(incoming.take(n + 1).drop_last() =~= incoming.take(n));
        lemma_rule_clash_stays(known, incoming, n + 1, path);
    }
}

/// The first malformed firewall timeout among `actions`.
fn find_bad_timeout(actions: &Vec<AtomicAction>, accepted: &regex::Regex) -> (r: Option<String>)
    requires
        patterns::regex_pattern(*accepted) == patterns::TIMEOUT_PATTERN@,
    ensures
        patterns::option_view(r) == first_bad_timeout(actions@),
{
    let mut i: usize = 0;
    assert(actions@.take(0) =~= Seq::<AtomicAction>::empty());
    while i < actions.len()
        invariant
            i <= actions@.len(),
            patterns::regex_pattern(*accepted) == patterns::TIMEOUT_PATTERN@,
            first_bad_timeout(actions@.take(i as int)) is None,
        decreases actions@.len() - i,
    {
        proof {
            assert(actions@.take(i + 1).drop_last() =~= actions@.take(i as int));
            assert(actions@.take(i + 1).last() == actions@[i as int]);
        }
        if let AtomicAction::NftBlacklist { timeout, .. } = &actions[i] {
            if !accepted.is_match(timeout.as_str()) {
                proof {
                    lemma_bad_timeout_stays(actions@, i + 1);
                }
                return Some(timeout.clone());
            }
        }
        i += 1;
    }
    assert(actions@.take(i as int) =~= actions@);
    None
}

/// The first malformed timeout of a prefix is that of the whole.
proof fn lemma_bad_timeout_stays(actions: Seq<AtomicAction>, n: int)
    requires
        0 <= n <= actions.len(),
        first_bad_timeout(actions.take(n)) is Some,
    ensures
        first_bad_timeout(actions) == first_bad_timeout(actions.take(n)),
    decreases actions.len() - n,
{
    if n == actions.len() {
        assert(actions.take(n) =~= actions);
    } else {
        assert(actions.take(n + 1).drop_last() =~= actions.take(n));
        lemma_bad_timeout_stays(actions, n + 1);
    }
}

/// The first malformed timeout of a concatenation is that of the first part, or else
/// that of the second.
proof fn lemma_bad_timeout_concat(a: Seq<AtomicAction>, b: Seq<AtomicAction>)
    ensures
        first_bad_timeout(a + b) == (match first_bad_timeout(a) {
            Some(timeout) => Some(timeout),
            None => first_bad_timeout(b),
        }),
    decreases b.len(),
{
    if b.len() == 0 {
        assert(a + b =~= a);
    } else {
        assert((a + b).drop_last() =~= a + b.drop_last());
        assert((a + b).last() == b.last());
        lemma_bad_timeout_concat(a, b.drop_last());
    }
}

/// What is wrong with one playbook.
fn check_playbook(name: &String, playbook: &PlaybookConfig, accepted: &regex::Regex) -> (r: Option<
    ConfigError,
>)
    requires
        patterns::regex_pattern(*accepted) == patterns::TIMEOUT_PATTERN@,
    ensures
        match playbook_fault(name@, *playbook) {
            Some(fault) => r is Some && r->0@ == fault,
            None => r is None,
        },
{
    if playbook.try_actions.is_empty() && playbook.final_actions.is_empty() {
        return Some(ConfigError::EmptyPlaybook { name: name.clone() });
    }
    proof {
        lemma_bad_timeout_concat(playbook.try_actions@, playbook.final_actions@);
    }
    if let Some(timeout) = find_bad_timeout(&playbook.try_actions, accepted) {
        return Some(ConfigError::InvalidTimeout { playbook: name.clone(), timeout });
    }
    if let Some(timeout) = find_bad_timeout(&playbook.final_actions, accepted) {
        return Some(ConfigError::InvalidTimeout { playbook: name.clone(), timeout });
    }
    None
}

/// The first fault of a prefix of the playbooks is that of all of them.
proof fn lemma_playbook_fault_stays(playbooks: Playbooks, n: int)
    requires
        0 <= n <= playbooks.len(),
        first_playbook_fault(playbooks.take(n)) is Some,
    ensures
        first_playbook_fault(playbooks) == first_playbook_fault(playbooks.take(n)),
    decreases playbooks.len() - n,
{
    if n == playbooks.len() {
        assert(playbooks.take(n) =~= playbooks);
    } else {
        assert(playbooks.take(n + 1).drop_last() =~= playbooks.take(n));
        lemma_playbook_fault_stays(playbooks, n + 1);
    }
}

/// The first undefined reference of a prefix of the rules is that of all of them.
proof fn lemma_undefined_stays(rules: Seq<JsonRuleConfig>, playbooks: Playbooks, n: int)
    requires
        0 <= n <= rules.len(),
        first_undefined_playbook(rules.take(n), playbooks) is Some,
    ensures
        first_undefined_playbook(rules, playbooks) == first_undefined_playbook(
            rules.take(n),
            playbooks,
        ),
    decreases rules.len() - n,
{
    if n == rules.len() {
        assert(rules.take(n) =~= rules);
    } else {
        assert(rules.take(n + 1).drop_last() =~= rules.take(n));
        lemma_undefined_stays(rules, playbooks, n + 1);
    }
}

/// Checks what was gathered: that there is a rule, that every playbook acts and gives
/// the firewall proper timeouts, and that every rule names a playbook that is there.
pub fn validate_gathered(
    playbooks: &Vec<(String, PlaybookConfig)>,
    rules: &Vec<JsonRuleConfig>,
) -> (r: Result<(), ConfigError>)
    ensures
        match gathered_fault((playbooks@, rules@)) {
            Some(fault) => r is Err && r->Err_0@ == fault,
            None => r is Ok,
        },
{
    if rules.is_empty() {
        return Err(ConfigError::NoRules);
    }
    let accepted = patterns::timeout_expression();
    let mut i: usize = 0;
    assert(playbooks@.take(0) =~= Seq::<(String, PlaybookConfig)>::empty());
    while i < playbooks.len()
        invariant
            i <= playbooks@.len(),
            rules@.len() > 0,
            patterns::regex_pattern(accepted) == patterns::TIMEOUT_PATTERN@,
            first_playbook_fault(playbooks@.take(i as int)) is None,
        decreases playbooks@.len() - i,
    {
        proof {
            assert(playbooks@.take(i + 1).drop_last() =~= playbooks@.take(i as int));
            assert(playbooks@.take(i + 1).last() == playbooks@[i as int]);
        }
        if let Some(fault) = check_playbook(&playbooks[i].0, &playbooks[i].1, &accepted) {
            proof {
                lemma_playbook_fault_stays(playbooks@, i + 1);
            }
            return Err(fault);
        }
        i += 1;
    }
    assert(playbooks@.take(i as int) =~= playbooks@);
    let mut k: usize = 0;
    assert(rules@.take(0) =~= Seq::<JsonRuleConfig>::empty());
    while k < rules.len()
        invariant
            k <= rules@.len(),
            rules@.len() > 0,
            first_playbook_fault(playbooks@) is None,
            first_undefined_playbook(rules@.take(k as int), playbooks@) is None,
        decreases rules@.len() - k,
    {
        proof {
            assert(rules@.take(k + 1).drop_last() =~= rules@.take(k as int));
            assert(rules@.take(k + 1).last() == rules@[k as int]);
        }
        if !contains_playbook(playbooks, &rules[k].playbook) {
            proof {
                lemma_undefined_stays(rules@, playbooks@, k + 1);
            }
            return Err(
                ConfigError::UndefinedPlaybook {
                    rule: rules[k].name.clone(),
                    playbook: rules[k].playbook.clone(),
                },
            );
        }
        k += 1;
    }
    assert(rules@.take(k as int) =~= rules@);
    Ok(())
}

/// A failure in a prefix of the sources is the failure of all of them.
pub proof fn lemma_gather_failure_stays(sources: Seq<ManifestSource>, n: int)
    requires
        0 <= n <= sources.len(),
        gather(sources.take(n)) is Err,
    ensures
        gather(sources) == gather(sources.take(n)),
    decreases sources.len() - n,
{
    if n == sources.len() {
        assert(sources.take(n) =~= sources);
    } else {
        assert(sources.take(n + 1).drop_last() =~= sources.take(n));
        lemma_gather_failure_stays(sources, n + 1);
    }
}

/// Merges the manifests in the order of their sources and validates the whole. The
/// first source that cannot be used, or that declares a playbook or a rule under a
/// name that is taken, ends the merge with its error.
pub fn load_and_merge_manifests(sources: Vec<ManifestSource>) -> (r: Result<
    (Vec<(String, PlaybookConfig)>, Vec<JsonRuleConfig>),
    ConfigError,
>)
    ensures
        match merge_outcome(sources@) {
            Ok(gathered) => r is Ok && (r->Ok_0).0@ == gathered.0 && (r->Ok_0).1@ == gathered.1,
            Err(error) => r is Err && r->Err_0@ == error,
        },
{
    let ghost all = sources@;
    let mut playbooks: Vec<(String, PlaybookConfig)> = Vec::new();
    let mut rules: Vec<JsonRuleConfig> = Vec::new();
    assert(all.take(0) =~= Seq::<ManifestSource>::empty());
    for source in it: sources.into_iter()
        invariant
            it.seq() == all,
            all == sources@,
            gather(all.take(it.index() as int)) == Ok::<Gathered, ConfigErrorView>(
                (playbooks@, rules@),
            ),
    {
        proof {
            let n = it.index() as int;
            assert(all.take(n + 1).drop_last() =~= all.take(n));
            assert(all.take(n + 1).last() == source);
            if gather(all.take(n + 1)) is Err {
                lemma_gather_failure_stays(all, n + 1);
            }
        }
        match source {
            ManifestSource::Unreadable { path } => {
                return Err(ConfigError::Unreadable { path });
            },
            ManifestSource::Malformed { path } => {
                return Err(ConfigError::Malformed { path });
            },
            ManifestSource::Loaded { path, manifest } => {
                match absorb_playbooks(&mut playbooks, manifest.playbooks, &path) {
                    Err(error) => {
                        return Err(error);
                    },
                    Ok(()) => {},
                }
                match absorb_rules(&mut rules, manifest.rules, &path) {
                    Err(error) => {
                        return Err(error);
                    },
                    Ok(()) => {},
                }
            },
        }
    }
    assert(all.take(all.len() as int) =~= all);
    match validate_gathered(&playbooks, &rules) {
        Err(error) => Err(error),
        Ok(()) => Ok((playbooks, rules)),
    }
}

/// No two playbooks bear the same name.
pub open spec fn distinct_playbooks(playbooks: Playbooks) -> bool {
    forall|i: int, j: int|
        0 <= i < j < playbooks.len() ==> (#[trigger] playbooks[i]).0@ != (#[trigger] playbooks[j]).0@
}

/// No two rules bear the same name.
pub open spec fn distinct_rules(rules: Seq<JsonRuleConfig>) -> bool {
    forall|i: int, j: int|
        0 <= i < j < rules.len() ==> (#[trigger] rules[i]).name@ != (#[trigger] rules[j]).name@
}

/// The playbooks of all loaded manifests, one manifest after the other.
pub open spec fn all_playbooks(sources: Seq<ManifestSource>) -> Playbooks
    decreases sources.len(),
{
    if sources.len() == 0 {
        Seq::empty()
    } else {
        all_playbooks(sources.drop_last()) + (match sources.last() {
            ManifestSource::Loaded { manifest, .. } => manifest.playbooks@,
            _ => Seq::empty(),
        })
    }
}

/// The rules of all loaded manifests, one manifest after the other.
pub open spec fn all_rules(sources: Seq<ManifestSource>) -> Seq<JsonRuleConfig>
    decreases sources.len(),
{
    if sources.len() == 0 {
        Seq::empty()
    } else {
        all_rules(sources.drop_last()) + (match sources.last() {
            ManifestSource::Loaded { manifest, .. } => manifest.rules@,
            _ => Seq::empty(),
        })
    }
}

/// The playbook does something, and every firewall timeout in it is well formed.
pub open spec fn sound_playbook(playbook: PlaybookConfig) -> bool {
    let actions = playbook.try_actions@ + playbook.final_actions@;
    &&& actions.len() > 0
    &&& forall|i: int| 0 <= i < actions.len() ==> acceptable_action(#[trigger] actions[i])
}

/// A set of manifests that may be merged: every source was loaded, names are unique,
/// there is a rule, every playbook is sound, and every rule names a playbook.
pub open spec fn sound_sources(sources: Seq<ManifestSource>) -> bool {
    let playbooks = all_playbooks(sources);
    let rules = all_rules(sources);
    &&& forall|i: int| 0 <= i < sources.len() ==> (#[trigger] sources[i]) is Loaded
    &&& distinct_playbooks(playbooks)
    &&& distinct_rules(rules)
    &&& rules.len() > 0
    &&& forall|i: int| 0 <= i < playbooks.len() ==> sound_playbook((#[trigger] playbooks[i]).1)
    &&& forall|i: int|
        0 <= i < rules.len() ==> has_playbook(playbooks, (#[trigger] rules[i]).playbook@)
}

proof fn lemma_add_playbooks(known: Playbooks, incoming: Playbooks, path: Seq<char>)
    requires
        distinct_playbooks(known),
    ensures
        add_playbooks(known, incoming, path) is Ok <==> distinct_playbooks(known + incoming),
        add_playbooks(known, incoming, path) is Ok ==> add_playbooks(known, incoming, path)->Ok_0
            == known + incoming,
    decreases incoming.len(),
{
    let all = known + incoming;
    if incoming.len() == 0 {
        assert(all =~= known);
    } else {
        let less = known + incoming.drop_last();
        lemma_add_playbooks(known, incoming.drop_last(), path);
        assert(all =~= less.push(incoming.last()));
        assert forall|i: int| 0 <= i < less.len() implies less[i] == all[i] by {}
        if distinct_playbooks(all) {
            assert forall|i: int, j: int| 0 <= i < j < less.len() implies (#[trigger] less[i]).0@
                != (#[trigger] less[j]).0@ by {
                assert(all[i].0@ != all[j].0@);
            }
            if has_playbook(less, incoming.last().0@) {
                let k = choose|k: int|
                    0 <= k < less.len() && (#[trigger] less[k]).0@ == incoming.last().0@;
                assert(all[k].0@ != all[all.len() - 1].0@);
            }
        } else if distinct_playbooks(less) {
            let (i, j) = choose|i: int, j: int|
                0 <= i < j < all.len() && (#[trigger] all[i]).0@ == (#[trigger] all[j]).0@;
            if j < less.len() {
                assert(less[i].0@ != less[j].0@);
            } else {
                assert(less[i].0@ == incoming.last().0@);
            }
        }
    }
}

proof fn lemma_add_rules(
    known: Seq<JsonRuleConfig>,
    incoming: Seq<JsonRuleConfig>,
    path: Seq<char>,
)
    requires
        distinct_rules(known),
    ensures
        add_rules(known, incoming, path) is Ok <==> distinct_rules(known + incoming),
        add_rules(known, incoming, path) is Ok ==> add_rules(known, incoming, path)->Ok_0 == known
            + incoming,
    decreases incoming.len(),
{
    let all = known + incoming;
    if incoming.len() == 0 {
        assert(all =~= known);
    } else {
        let less = known + incoming.drop_last();
        lemma_add_rules(known, incoming.drop_last(), path);
        assert(all =~= less.push(incoming.last()));
        assert forall|i: int| 0 <= i < less.len() implies less[i] == all[i] by {}
        if distinct_rules(all) {
            assert forall|i: int, j: int| 0 <= i < j < less.len() implies (#[trigger] less[i]).name@
                != (#[trigger] less[j]).name@ by {
                assert(all[i].name@ != all[j].name@);
            }
            if has_rule(less, incoming.last().name@) {
                let k = choose|k: int|
                    0 <= k < less.len() && (#[trigger] less[k]).name@ == incoming.last().name@;
                assert(all[k].name@ != all[all.len() - 1].name@);
            }
        } else if distinct_rules(less) {
            let (i, j) = choose|i: int, j: int|
                0 <= i < j < all.len() && (#[trigger] all[i]).name@ == (#[trigger] all[j]).name@;
            if j < less.len() {
                assert(less[i].name@ != less[j].name@);
            } else {
                assert(less[i].name@ == incoming.last().name@);
            }
        }
    }
}

proof fn lemma_distinct_prefix_playbooks(a: Playbooks, b: Playbooks)
    requires
        distinct_playbooks(a + b),
    ensures
        distinct_playbooks(a),
{
    assert forall|i: int, j: int| 0 <= i < j < a.len() implies (#[trigger] a[i]).0@ != (
    #[trigger] a[j]).0@ by {
        assert((a + b)[i].0@ != (a + b)[j].0@);
    }
}

proof fn lemma_distinct_prefix_rules(a: Seq<JsonRuleConfig>, b: Seq<JsonRuleConfig>)
    requires
        distinct_rules(a + b),
    ensures
        distinct_rules(a),
{
    assert forall|i: int, j: int| 0 <= i < j < a.len() implies (#[trigger] a[i]).name@ != (
    #[trigger] a[j]).name@ by {
        assert((a + b)[i].name@ != (a + b)[j].name@);
    }
}

proof fn lemma_gather(sources: Seq<ManifestSource>)
    ensures
        gather(sources) is Ok <==> {
            &&& forall|i: int| 0 <= i < sources.len() ==> (#[trigger] sources[i]) is Loaded
            &&& distinct_playbooks(all_playbooks(sources))
            &&& distinct_rules(all_rules(sources))
        },
        gather(sources) is Ok ==> gather(sources)->Ok_0 == (
            all_playbooks(sources),
            all_rules(sources),
        ),
    decreases sources.len(),
{
    if sources.len() > 0 {
        let less = sources.drop_last();
        lemma_gather(less);
        assert(forall|i: int| 0 <= i < less.len() ==> less[i] == sources[i]);
        assert(sources.last() == sources[sources.len() - 1]);
        if let ManifestSource::Loaded { path, manifest } = sources.last() {
            let playbooks = all_playbooks(less);
            let rules = all_rules(less);
            if distinct_playbooks(playbooks + manifest.playbooks@) {
                lemma_distinct_prefix_playbooks(playbooks, manifest.playbooks@);
            }
            if distinct_rules(rules + manifest.rules@) {
                lemma_distinct_prefix_rules(rules, manifest.rules@);
            }
            if distinct_playbooks(playbooks) {
                lemma_add_playbooks(playbooks, manifest.playbooks@, path@);
            }
            if distinct_rules(rules) {
                lemma_add_rules(rules, manifest.rules@, path@);
            }
            if forall|i: int| 0 <= i < less.len() ==> (#[trigger] less[i]) is Loaded {
                assert forall|i: int| 0 <= i < sources.len() implies (
                #[trigger] sources[i]) is Loaded by {
                    if i < less.len() {
                        assert(less[i] is Loaded);
                    }
                }
            }
        }
        if forall|i: int| 0 <= i < sources.len() ==> (#[trigger] sources[i]) is Loaded {
            assert forall|i: int| 0 <= i < less.len() implies (#[trigger] less[i]) is Loaded by {
                assert(sources[i] is Loaded);
            }
        }
    }
}

proof fn lemma_no_bad_timeout(actions: Seq<AtomicAction>)
    ensures
        first_bad_timeout(actions) is None <==> forall|i: int|
            0 <= i < actions.len() ==> acceptable_action(#[trigger] actions[i]),
    decreases actions.len(),
{
    if actions.len() > 0 {
        let less = actions.drop_last();
        lemma_no_bad_timeout(less);
        assert(forall|i: int| 0 <= i < less.len() ==> less[i] == actions[i]);
        assert(actions.last() == actions[actions.len() - 1]);
        if first_bad_timeout(actions) is None {
            assert forall|i: int| 0 <= i < actions.len() implies acceptable_action(
                #[trigger] actions[i],
            ) by {
                if i < less.len() {
                    assert(acceptable_action(less[i]));
                }
            }
        }
        if forall|i: int| 0 <= i < actions.len() ==> acceptable_action(#[trigger] actions[i]) {
            assert forall|i: int| 0 <= i < less.len() implies acceptable_action(
                #[trigger] less[i],
            ) by {
                assert(acceptable_action(actions[i]));
            }
        }
    }
}

proof fn lemma_no_playbook_fault(playbooks: Playbooks)
    ensures
        first_playbook_fault(playbooks) is None <==> forall|i: int|
            0 <= i < playbooks.len() ==> sound_playbook((#[trigger] playbooks[i]).1),
    decreases playbooks.len(),
{
    if playbooks.len() > 0 {
        let less = playbooks.drop_last();
        let last = playbooks.last().1;
        lemma_no_playbook_fault(less);
        lemma_no_bad_timeout(last.try_actions@ + last.final_actions@);
        assert(forall|i: int| 0 <= i < less.len() ==> less[i] == playbooks[i]);
        assert(playbooks.last() == playbooks[playbooks.len() - 1]);
        if first_playbook_fault(playbooks) is None {
            assert forall|i: int| 0 <= i < playbooks.len() implies sound_playbook(
                (#[trigger] playbooks[i]).1,
            ) by {
                if i < less.len() {
                    assert(sound_playbook(less[i].1));
                }
            }
        }
        if forall|i: int| 0 <= i < playbooks.len() ==> sound_playbook((#[trigger] playbooks[i]).1) {
            assert forall|i: int| 0 <= i < less.len() implies sound_playbook(
                (#[trigger] less[i]).1,
            ) by {
                assert(sound_playbook(playbooks[i].1));
            }
        }
    }
}

proof fn lemma_no_undefined(rules: Seq<JsonRuleConfig>, playbooks: Playbooks)
    ensures
        first_undefined_playbook(rules, playbooks) is None <==> forall|i: int|
            0 <= i < rules.len() ==> has_playbook(playbooks, (#[trigger] rules[i]).playbook@),
    decreases rules.len(),
{
    if rules.len() > 0 {
        let less = rules.drop_last();
        lemma_no_undefined(less, playbooks);
        assert(forall|i: int| 0 <= i < less.len() ==> less[i] == rules[i]);
        assert(rules.last() == rules[rules.len() - 1]);
        if first_undefined_playbook(rules, playbooks) is None {
            assert forall|i: int| 0 <= i < rules.len() implies has_playbook(
                playbooks,
                (#[trigger] rules[i]).playbook@,
            ) by {
                if i < less.len() {
                    assert(has_playbook(playbooks, less[i].playbook@));
                }
            }
        }
        if forall|i: int|
            0 <= i < rules.len() ==> has_playbook(playbooks, (#[trigger] rules[i]).playbook@) {
            assert forall|i: int| 0 <= i < less.len() implies has_playbook(
                playbooks,
                (#[trigger] less[i]).playbook@,
            ) by {
                assert(has_playbook(playbooks, rules[i].playbook@));
            }
        }
    }
}

/// A merge succeeds on the sound sources and on no others, and it then gives every
/// playbook and every rule that was declared, in the order of declaration.
pub proof fn law_merge_accepts_sound_sources(sources: Seq<ManifestSource>)
    ensures
        merge_outcome(sources) is Ok <==> sound_sources(sources),
        merge_outcome(sources) is Ok ==> merge_outcome(sources)->Ok_0 == (
            all_playbooks(sources),
            all_rules(sources),
        ),
{
    lemma_gather(sources);
    lemma_no_playbook_fault(all_playbooks(sources));
    lemma_no_undefined(all_rules(sources), all_playbooks(sources));
}

/// What `part` takes out of each source, one source after the other.
pub open spec fn taken<T>(
    sources: Seq<ManifestSource>,
    part: spec_fn(ManifestSource) -> Seq<T>,
) -> Seq<T>
    decreases sources.len(),
{
    if sources.len() == 0 {
        Seq::empty()
    } else {
        taken(sources.drop_last(), part) + part(sources.last())
    }
}

/// What is taken out of two lists of sources, one behind the other.
proof fn lemma_taken_concat<T>(
    first: Seq<ManifestSource>,
    second: Seq<ManifestSource>,
    part: spec_fn(ManifestSource) -> Seq<T>,
)
    ensures
        taken(first + second, part) == taken(first, part) + taken(second, part),
    decreases second.len(),
{
    if second.len() == 0 {
        assert(first + second =~= first);
        assert(taken(first, part) + Seq::<T>::empty() =~= taken(first, part));
    } else {
        lemma_taken_concat(first, second.drop_last(), part);
        assert((first + second).drop_last() =~= first + second.drop_last());
        assert(taken(first + second, part) =~= taken(first, part) + taken(second, part));
    }
}

/// Reordering the sources reorders what is taken out of them.
proof fn lemma_taken_permuted<T>(
    sources: Seq<ManifestSource>,
    reordered: Seq<ManifestSource>,
    part: spec_fn(ManifestSource) -> Seq<T>,
)
    requires
        sources.to_multiset() == reordered.to_multiset(),
    ensures
        taken(sources, part).to_multiset() == taken(reordered, part).to_multiset(),
    decreases sources.len(),
{
    broadcast use vstd::multiset::group_multiset_axioms;

    sources.to_multiset_ensures();
    reordered.to_multiset_ensures();
    if sources.len() == 0 {
        assert(reordered.len() == 0);
        assert(sources =~= reordered);
    } else {
        let last = sources.last();
        let less = sources.drop_last();
        assert(sources[sources.len() - 1] == last);
        assert(sources.contains(last));
        assert(sources.to_multiset().count(last) > 0);
        assert(reordered.to_multiset().count(last) > 0);
        assert(reordered.contains(last));
        let k = choose|k: int| 0 <= k < reordered.len() && reordered[k] == last;
        let fewer = reordered.remove(k);
        assert(sources.remove(sources.len() - 1) =~= less);
        assert(less.to_multiset() == fewer.to_multiset());
        lemma_taken_permuted(less, fewer, part);
        let head = reordered.take(k);
        let tail = reordered.skip(k + 1);
        assert(fewer =~= head + tail);
        assert(reordered =~= (head + seq![last]) + tail);
        lemma_taken_concat(head, tail, part);
        lemma_taken_concat(head, seq![last], part);
        lemma_taken_concat(head + seq![last], tail, part);
        assert(seq![last].drop_last() =~= Seq::<ManifestSource>::empty());
        assert(taken(seq![last], part) =~= part(last)) by {
            assert(taken(seq![last].drop_last(), part) =~= Seq::<T>::empty());
        }
        let h = taken(head, part);
        let t = taken(tail, part);
        vstd::seq_lib::lemma_multiset_commutative(taken(less, part), part(last));
        vstd::seq_lib::lemma_multiset_commutative(h, t);
        vstd::seq_lib::lemma_multiset_commutative(h, part(last));
        vstd::seq_lib::lemma_multiset_commutative(h + part(last), t);
        assert(taken(sources, part).to_multiset() =~= taken(reordered, part).to_multiset());
    }
}

/// The playbooks of a source.
pub open spec fn playbooks_of(source: ManifestSource) -> Playbooks {
    match source {
        ManifestSource::Loaded { manifest, .. } => manifest.playbooks@,
        _ => Seq::empty(),
    }
}

/// The rules of a source.
pub open spec fn rules_of(source: ManifestSource) -> Seq<JsonRuleConfig> {
    match source {
        ManifestSource::Loaded { manifest, .. } => manifest.rules@,
        _ => Seq::empty(),
    }
}

/// The names of playbooks.
pub open spec fn playbook_names(playbooks: Playbooks) -> Seq<Seq<char>> {
    playbooks.map_values(|playbook: (String, PlaybookConfig)| playbook.0@)
}

/// The names of rules.
pub open spec fn rule_names(rules: Seq<JsonRuleConfig>) -> Seq<Seq<char>> {
    rules.map_values(|rule: JsonRuleConfig| rule.name@)
}

/// What all sources declare is taken out of them one by one.
proof fn lemma_all_is_taken(sources: Seq<ManifestSource>)
    ensures
        all_playbooks(sources) == taken(sources, |s: ManifestSource| playbooks_of(s)),
        all_rules(sources) == taken(sources, |s: ManifestSource| rules_of(s)),
        playbook_names(all_playbooks(sources)) == taken(
            sources,
            |s: ManifestSource| playbook_names(playbooks_of(s)),
        ),
        rule_names(all_rules(sources)) == taken(
            sources,
            |s: ManifestSource| rule_names(rules_of(s)),
        ),
    decreases sources.len(),
{
    if sources.len() == 0 {
        assert(playbook_names(all_playbooks(sources)) =~= Seq::<Seq<char>>::empty());
        assert(rule_names(all_rules(sources)) =~= Seq::<Seq<char>>::empty());
    } else {
        let less = sources.drop_last();
        let last = sources.last();
        lemma_all_is_taken(less);
        assert(playbook_names(all_playbooks(sources)) =~= playbook_names(all_playbooks(less))
            + playbook_names(playbooks_of(last)));
        assert(rule_names(all_rules(sources)) =~= rule_names(all_rules(less)) + rule_names(
            rules_of(last),
        ));
    }
}

/// A reordered list repeats nothing if the list did not.
proof fn lemma_reordered_has_no_duplicates<T>(list: Seq<T>, reordered: Seq<T>)
    requires
        list.to_multiset() == reordered.to_multiset(),
        list.no_duplicates(),
    ensures
        reordered.no_duplicates(),
{
    list.lemma_multiset_has_no_duplicates();
    reordered.lemma_multiset_has_no_duplicates_conv();
}

/// A reordered list holds the same.
proof fn lemma_reordered_holds_the_same<T>(list: Seq<T>, reordered: Seq<T>)
    requires
        list.to_multiset() == reordered.to_multiset(),
    ensures
        list.len() == reordered.len(),
        forall|i: int| 0 <= i < reordered.len() ==> list.contains(#[trigger] reordered[i]),
{
    list.to_multiset_ensures();
    reordered.to_multiset_ensures();
    assert forall|i: int| 0 <= i < reordered.len() implies list.contains(
        #[trigger] reordered[i],
    ) by {
        assert(reordered.contains(reordered[i]));
        assert(reordered.to_multiset().count(reordered[i]) > 0);
        assert(list.to_multiset().count(reordered[i]) > 0);
    }
}

/// Names are unique exactly if the list of names repeats nothing.
proof fn lemma_distinct_names(playbooks: Playbooks, rules: Seq<JsonRuleConfig>)
    ensures
        distinct_playbooks(playbooks) <==> playbook_names(playbooks).no_duplicates(),
        distinct_rules(rules) <==> rule_names(rules).no_duplicates(),
{
    let names = playbook_names(playbooks);
    if distinct_playbooks(playbooks) {
        assert forall|i: int, j: int|
            0 <= i < names.len() && 0 <= j < names.len() && i != j implies names[i] != names[j] by {
            if i < j {
                assert(playbooks[i].0@ != playbooks[j].0@);
            } else {
                assert(playbooks[j].0@ != playbooks[i].0@);
            }
        }
    }
    if names.no_duplicates() {
        assert forall|i: int, j: int| 0 <= i < j < playbooks.len() implies (#[trigger] playbooks[i]).0@
            != (#[trigger] playbooks[j]).0@ by {
            assert(names[i] != names[j]);
        }
    }
    let others = rule_names(rules);
    if distinct_rules(rules) {
        assert forall|i: int, j: int|
            0 <= i < others.len() && 0 <= j < others.len() && i != j implies others[i]
            != others[j] by {
            if i < j {
                assert(rules[i].name@ != rules[j].name@);
            } else {
                assert(rules[j].name@ != rules[i].name@);
            }
        }
    }
    if others.no_duplicates() {
        assert forall|i: int, j: int| 0 <= i < j < rules.len() implies (#[trigger] rules[i]).name@
            != (#[trigger] rules[j]).name@ by {
            assert(others[i] != others[j]);
        }
    }
}

/// Reordered sources declare the same playbooks and rules in another order.
proof fn lemma_all_permuted(sources: Seq<ManifestSource>, reordered: Seq<ManifestSource>)
    requires
        sources.to_multiset() == reordered.to_multiset(),
    ensures
        all_playbooks(sources).to_multiset() == all_playbooks(reordered).to_multiset(),
        all_rules(sources).to_multiset() == all_rules(reordered).to_multiset(),
        playbook_names(all_playbooks(sources)).to_multiset() == playbook_names(
            all_playbooks(reordered),
        ).to_multiset(),
        rule_names(all_rules(sources)).to_multiset() == rule_names(
            all_rules(reordered),
        ).to_multiset(),
{
    lemma_all_is_taken(sources);
    lemma_all_is_taken(reordered);
    lemma_taken_permuted(sources, reordered, |s: ManifestSource| playbooks_of(s));
    lemma_taken_permuted(sources, reordered, |s: ManifestSource| rules_of(s));
    lemma_taken_permuted(
        sources,
        reordered,
        |s: ManifestSource| playbook_names(playbooks_of(s)),
    );
    lemma_taken_permuted(sources, reordered, |s: ManifestSource| rule_names(rules_of(s)));
}

/// Sound sources stay sound when they are reordered.
proof fn lemma_sound_permuted(sources: Seq<ManifestSource>, reordered: Seq<ManifestSource>)
    requires
        sources.to_multiset() == reordered.to_multiset(),
        sound_sources(sources),
    ensures
        sound_sources(reordered),
{
    lemma_all_permuted(sources, reordered);
    let playbooks = all_playbooks(sources);
    let rules = all_rules(sources);
    let other_playbooks = all_playbooks(reordered);
    let other_rules = all_rules(reordered);
    lemma_reordered_holds_the_same(sources, reordered);
    assert forall|i: int| 0 <= i < reordered.len() implies (#[trigger] reordered[i]) is Loaded by {
        assert(sources.contains(reordered[i]));
        let k = choose|k: int| 0 <= k < sources.len() && sources[k] == reordered[i];
        assert(sources[k] is Loaded);
    }
    lemma_distinct_names(playbooks, rules);
    lemma_distinct_names(other_playbooks, other_rules);
    lemma_reordered_has_no_duplicates(playbook_names(playbooks), playbook_names(other_playbooks));
    lemma_reordered_has_no_duplicates(rule_names(rules), rule_names(other_rules));
    lemma_reordered_holds_the_same(rules, other_rules);
    lemma_reordered_holds_the_same(playbooks, other_playbooks);
    lemma_reordered_holds_the_same(other_playbooks, playbooks);
    assert forall|i: int| 0 <= i < other_playbooks.len() implies sound_playbook(
        (#[trigger] other_playbooks[i]).1,
    ) by {
        assert(playbooks.contains(other_playbooks[i]));
        let k = choose|k: int| 0 <= k < playbooks.len() && playbooks[k] == other_playbooks[i];
        assert(sound_playbook(playbooks[k].1));
    }
    assert forall|i: int| 0 <= i < other_rules.len() implies has_playbook(
        other_playbooks,
        (#[trigger] other_rules[i]).playbook@,
    ) by {
        assert(rules.contains(other_rules[i]));
        let k = choose|k: int| 0 <= k < rules.len() && rules[k] == other_rules[i];
        assert(has_playbook(playbooks, rules[k].playbook@));
        let m = choose|m: int|
            0 <= m < playbooks.len() && (#[trigger] playbooks[m]).0@ == rules[k].playbook@;
        assert(other_playbooks.contains(playbooks[m]));
        let w = choose|w: int|
            0 <= w < other_playbooks.len() && other_playbooks[w] == playbooks[m];
        assert(other_playbooks[w].0@ == other_rules[i].playbook@);
    }
}

/// Playbooks by their names.
pub open spec fn playbook_map(playbooks: Playbooks) -> Map<Seq<char>, PlaybookConfig> {
    Map::new(
        |name: Seq<char>| has_playbook(playbooks, name),
        |name: Seq<char>|
            playbooks[choose|i: int|
                0 <= i < playbooks.len() && (#[trigger] playbooks[i]).0@ == name].1,
    )
}

/// Reordering playbooks with unique names leaves each under its name.
proof fn lemma_map_permuted(playbooks: Playbooks, reordered: Playbooks)
    requires
        playbooks.to_multiset() == reordered.to_multiset(),
        distinct_playbooks(playbooks),
    ensures
        playbook_map(playbooks) == playbook_map(reordered),
{
    lemma_reordered_holds_the_same(playbooks, reordered);
    lemma_reordered_holds_the_same(reordered, playbooks);
    let one = playbook_map(playbooks);
    let other = playbook_map(reordered);
    assert forall|name: Seq<char>| has_playbook(playbooks, name) implies #[trigger] has_playbook(
        reordered,
        name,
    ) && one[name] == other[name] by {
        let i = choose|i: int| 0 <= i < playbooks.len() && (#[trigger] playbooks[i]).0@ == name;
        assert(reordered.contains(playbooks[i]));
        let w = choose|w: int| 0 <= w < reordered.len() && reordered[w] == playbooks[i];
        assert(reordered[w].0@ == name);
        let j = choose|j: int| 0 <= j < reordered.len() && (#[trigger] reordered[j]).0@ == name;
        assert(playbooks.contains(reordered[j]));
        let k = choose|k: int| 0 <= k < playbooks.len() && playbooks[k] == reordered[j];
        assert(playbooks[k].0@ == name);
        assert(i == k);
    }
    assert forall|name: Seq<char>| has_playbook(reordered, name) implies #[trigger] has_playbook(
        playbooks,
        name,
    ) by {
        let j = choose|j: int| 0 <= j < reordered.len() && (#[trigger] reordered[j]).0@ == name;
        assert(playbooks.contains(reordered[j]));
        let k = choose|k: int| 0 <= k < playbooks.len() && playbooks[k] == reordered[j];
        assert(playbooks[k].0@ == name);
    }
    assert(one =~= other);
}

/// The order of the manifests does not decide whether they can be merged. If they can,
/// it does not change which playbook stands under which name, and it only reorders the
/// rules.
pub proof fn law_order_of_sources_only_reorders_rules(
    sources: Seq<ManifestSource>,
    reordered: Seq<ManifestSource>,
)
    requires
        sources.to_multiset() == reordered.to_multiset(),
    ensures
        merge_outcome(sources) is Ok <==> merge_outcome(reordered) is Ok,
        merge_outcome(sources) is Ok ==> {
            let one = merge_outcome(sources)->Ok_0;
            let other = merge_outcome(reordered)->Ok_0;
            &&& playbook_map(one.0) == playbook_map(other.0)
            &&& one.0.to_multiset() == other.0.to_multiset()
            &&& one.1.to_multiset() == other.1.to_multiset()
        },
{
    law_merge_accepts_sound_sources(sources);
    law_merge_accepts_sound_sources(reordered);
    if sound_sources(sources) {
        lemma_sound_permuted(sources, reordered);
        lemma_all_permuted(sources, reordered);
        lemma_map_permuted(all_playbooks(sources), all_playbooks(reordered));
    }
    if sound_sources(reordered) {
        lemma_sound_permuted(reordered, sources);
    }
}

} // verus!
