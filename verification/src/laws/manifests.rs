//! Laws of the manifests: what is accepted, and with which error the rest is refused.
use crate::config::{
    AtomicAction, ConfigError, ConfigErrorView, JsonRuleConfig, ManifestSource, PlaybookConfig,
};
use crate::manifest;
use crate::patterns;
use vstd::prelude::*;

verus! {

/// Whatever was merged is fit for use: there is a rule, every rule names a playbook that
/// is there, every playbook has something to do, and every firewall timeout in it, among
/// the primary and the fallback actions alike, is digits and a unit.
pub proof fn law_merged_manifests_are_fit_for_use(sources: Seq<ManifestSource>)
    requires
        manifest::merge_outcome(sources) is Ok,
    ensures
        ({
            let (playbooks, rules) = manifest::merge_outcome(sources)->Ok_0;
            &&& rules.len() > 0
            &&& forall|i: int|
                0 <= i < rules.len() ==> exists|k: int|
                    0 <= k < playbooks.len() && (#[trigger] playbooks[k]).0@ == (
                    #[trigger] rules[i]).playbook@
            &&& forall|i: int|
                0 <= i < playbooks.len() ==> (#[trigger] playbooks[i]).1.try_actions@.len()
                    + playbooks[i].1.final_actions@.len() > 0
            &&& forall|i: int, k: int|
                0 <= i < playbooks.len() && 0 <= k < playbooks[i].1.try_actions@.len() ==> (
                #[trigger] playbooks[i].1.try_actions@[k] matches AtomicAction::NftBlacklist {
                    timeout,
                    ..
                } ==> patterns::pattern_accepts(r"^\d+[smhd]$"@, timeout@))
            &&& forall|i: int, k: int|
                0 <= i < playbooks.len() && 0 <= k < playbooks[i].1.final_actions@.len() ==> (
                #[trigger] playbooks[i].1.final_actions@[k] matches AtomicAction::NftBlacklist {
                    timeout,
                    ..
                } ==> patterns::pattern_accepts(r"^\d+[smhd]$"@, timeout@))
            &&& forall|i: int, k: int|
                0 <= i < k < playbooks.len() ==> (#[trigger] playbooks[i]).0@ != (
                #[trigger] playbooks[k]).0@
            &&& forall|i: int, k: int|
                0 <= i < k < rules.len() ==> (#[trigger] rules[i]).name@ != (
                #[trigger] rules[k]).name@
        }),
{
    manifest::law_merge_accepts_sound_sources(sources);
    let (playbooks, rules) = manifest::merge_outcome(sources)->Ok_0;
    assert forall|i: int| 0 <= i < rules.len() implies exists|k: int|
        0 <= k < playbooks.len() && (#[trigger] playbooks[k]).0@ == (
        #[trigger] rules[i]).playbook@ by {
        assert(manifest::has_playbook(playbooks, rules[i].playbook@));
    }
    assert forall|i: int| 0 <= i < playbooks.len() implies (
    #[trigger] playbooks[i]).1.try_actions@.len() + playbooks[i].1.final_actions@.len() > 0 by {
        assert(manifest::sound_playbook(playbooks[i].1));
    }
    assert forall|i: int, k: int|
        0 <= i < playbooks.len() && 0 <= k < playbooks[i].1.try_actions@.len() implies (
    #[trigger] playbooks[i].1.try_actions@[k] matches AtomicAction::NftBlacklist { timeout, .. }
        ==> patterns::pattern_accepts(r"^\d+[smhd]$"@, timeout@)) by {
        let all = playbooks[i].1.try_actions@ + playbooks[i].1.final_actions@;
        assert(manifest::sound_playbook(playbooks[i].1));
        assert(manifest::acceptable_action(all[k]));
    }
    assert forall|i: int, k: int|
        0 <= i < playbooks.len() && 0 <= k < playbooks[i].1.final_actions@.len() implies (
    #[trigger] playbooks[i].1.final_actions@[k] matches AtomicAction::NftBlacklist { timeout, .. }
        ==> patterns::pattern_accepts(r"^\d+[smhd]$"@, timeout@)) by {
        let all = playbooks[i].1.try_actions@ + playbooks[i].1.final_actions@;
        assert(manifest::sound_playbook(playbooks[i].1));
        assert(manifest::acceptable_action(all[playbooks[i].1.try_actions@.len() + k]));
    }
}

/// Nothing that is fit for use is refused.
pub proof fn law_fit_manifests_are_merged(sources: Seq<ManifestSource>)
    requires
        forall|i: int| 0 <= i < sources.len() ==> (#[trigger] sources[i]) is Loaded,
        manifest::all_rules(sources).len() > 0,
        forall|i: int, k: int|
            0 <= i < k < manifest::all_playbooks(sources).len() ==> (
            #[trigger] manifest::all_playbooks(sources)[i]).0@ != (
            #[trigger] manifest::all_playbooks(sources)[k]).0@,
        forall|i: int, k: int|
            0 <= i < k < manifest::all_rules(sources).len() ==> (
            #[trigger] manifest::all_rules(sources)[i]).name@ != (
            #[trigger] manifest::all_rules(sources)[k]).name@,
        forall|i: int|
            0 <= i < manifest::all_playbooks(sources).len() ==> ({
                let playbook = (#[trigger] manifest::all_playbooks(sources)[i]).1;
                let actions = playbook.try_actions@ + playbook.final_actions@;
                actions.len() > 0 && forall|k: int|
                    0 <= k < actions.len() ==> (#[trigger] actions[k]
                        matches AtomicAction::NftBlacklist { timeout, .. }
                        ==> patterns::pattern_accepts(r"^\d+[smhd]$"@, timeout@))
            }),
        forall|i: int|
            0 <= i < manifest::all_rules(sources).len() ==> manifest::has_playbook(
                manifest::all_playbooks(sources),
                (#[trigger] manifest::all_rules(sources)[i]).playbook@,
            ),
    ensures
        manifest::merge_outcome(sources) is Ok,
{
    manifest::law_merge_accepts_sound_sources(sources);
    let playbooks = manifest::all_playbooks(sources);
    assert forall|i: int| 0 <= i < playbooks.len() implies manifest::sound_playbook(
        (#[trigger] playbooks[i]).1,
    ) by {
        let playbook = playbooks[i].1;
        let actions = playbook.try_actions@ + playbook.final_actions@;
        assert forall|k: int| 0 <= k < actions.len() implies manifest::acceptable_action(
            #[trigger] actions[k],
        ) by {
            assert(actions[k] matches AtomicAction::NftBlacklist { timeout, .. }
                ==> patterns::pattern_accepts(r"^\d+[smhd]$"@, timeout@));
        }
    }
}

/// The first source that cannot be used ends the merge, whatever stands behind it.
pub proof fn law_first_unusable_source_ends_the_merge(sources: Seq<ManifestSource>, k: int)
    requires
        0 <= k < sources.len(),
        manifest::gather(sources.take(k)) is Ok,
        sources[k] is Unreadable || sources[k] is Malformed,
    ensures
        sources[k] matches ManifestSource::Unreadable { path } ==> manifest::merge_outcome(sources)
            == Err::<manifest::Gathered, ConfigErrorView>(
            ConfigErrorView::Unreadable { path: path@ },
        ),
        sources[k] matches ManifestSource::Malformed { path } ==> manifest::merge_outcome(sources)
            == Err::<manifest::Gathered, ConfigErrorView>(
            ConfigErrorView::Malformed { path: path@ },
        ),
{
    assert(sources.take(k + 1).drop_last() =~= sources.take(k));
    assert(sources.take(k + 1).last() == sources[k]);
    manifest::lemma_gather_failure_stays(sources, k + 1);
}

/// A manifest that declares a playbook or a rule under a name that is taken is refused
/// with that name and its own path; else what it declares is added behind the rest.
pub proof fn law_taken_names_are_refused(
    playbooks: Seq<(String, PlaybookConfig)>,
    more: Seq<(String, PlaybookConfig)>,
    playbook: (String, PlaybookConfig),
    rules: Seq<JsonRuleConfig>,
    further: Seq<JsonRuleConfig>,
    rule: JsonRuleConfig,
    path: Seq<char>,
)
    ensures
        manifest::add_playbooks(playbooks, Seq::empty(), path) == Ok::<
            manifest::Playbooks,
            ConfigErrorView,
        >(playbooks),
        manifest::add_rules(rules, Seq::empty(), path) == Ok::<
            Seq<JsonRuleConfig>,
            ConfigErrorView,
        >(rules),
        match manifest::add_playbooks(playbooks, more, path) {
            Err(error) => manifest::add_playbooks(playbooks, more.push(playbook), path) == Err::<
                manifest::Playbooks,
                ConfigErrorView,
            >(error),
            Ok(known) => if exists|i: int|
                0 <= i < known.len() && (#[trigger] known[i]).0@ == playbook.0@ {
                manifest::add_playbooks(playbooks, more.push(playbook), path) == Err::<
                    manifest::Playbooks,
                    ConfigErrorView,
                >(ConfigErrorView::PlaybookCollision { name: playbook.0@, path })
            } else {
                manifest::add_playbooks(playbooks, more.push(playbook), path) == Ok::<
                    manifest::Playbooks,
                    ConfigErrorView,
                >(known.push(playbook))
            },
        },
        match manifest::add_rules(rules, further, path) {
            Err(error) => manifest::add_rules(rules, further.push(rule), path) == Err::<
                Seq<JsonRuleConfig>,
                ConfigErrorView,
            >(error),
            Ok(known) => if exists|i: int|
                0 <= i < known.len() && (#[trigger] known[i]).name@ == rule.name@ {
                manifest::add_rules(rules, further.push(rule), path) == Err::<
                    Seq<JsonRuleConfig>,
                    ConfigErrorView,
                >(ConfigErrorView::RuleCollision { name: rule.name@, path })
            } else {
                manifest::add_rules(rules, further.push(rule), path) == Ok::<
                    Seq<JsonRuleConfig>,
                    ConfigErrorView,
                >(known.push(rule))
            },
        },
{
    assert(more.push(playbook).drop_last() =~= more);
    assert(further.push(rule).drop_last() =~= further);
}

/// Sources are taken in one by one, each with its playbooks before its rules.
pub proof fn law_sources_are_taken_in_one_by_one(
    sources: Seq<ManifestSource>,
    source: ManifestSource,
)
    requires
        manifest::gather(sources) is Ok,
    ensures
        source matches ManifestSource::Loaded { path, manifest: content } ==> ({
            let (playbooks, rules) = manifest::gather(sources)->Ok_0;
            match manifest::add_playbooks(playbooks, content.playbooks@, path@) {
                Err(error) => manifest::gather(sources.push(source)) == Err::<
                    manifest::Gathered,
                    ConfigErrorView,
                >(error),
                Ok(all) => match manifest::add_rules(rules, content.rules@, path@) {
                    Err(error) => manifest::gather(sources.push(source)) == Err::<
                        manifest::Gathered,
                        ConfigErrorView,
                    >(error),
                    Ok(every) => manifest::gather(sources.push(source)) == Ok::<
                        manifest::Gathered,
                        ConfigErrorView,
                    >((all, every)),
                },
            }
        }),
        manifest::gather(Seq::<ManifestSource>::empty()) == Ok::<
            manifest::Gathered,
            ConfigErrorView,
        >((Seq::empty(), Seq::empty())),
{
    assert(sources.push(source).drop_last() =~= sources);
}

/// Without a rule nothing is accepted, and that is said before anything else.
pub proof fn law_manifests_without_rules_are_refused(sources: Seq<ManifestSource>)
    requires
        manifest::gather(sources) matches Ok(gathered) && gathered.1.len() == 0,
    ensures
        manifest::merge_outcome(sources) == Err::<manifest::Gathered, ConfigErrorView>(
            ConfigErrorView::NoRules,
        ),
{
}

/// What is wrong with a playbook: that it does nothing, or the first timeout among its
/// primary and then its fallback actions that is not digits and a unit.
pub proof fn law_faults_of_a_playbook(
    name: Seq<char>,
    playbook: PlaybookConfig,
    k: int,
)
    ensures
        playbook.try_actions@.len() == 0 && playbook.final_actions@.len() == 0
            ==> manifest::playbook_fault(name, playbook) == Some(
            ConfigErrorView::EmptyPlaybook { name },
        ),
        ({
            let actions = playbook.try_actions@ + playbook.final_actions@;
            0 <= k < actions.len() && (forall|i: int|
                0 <= i < k ==> (#[trigger] actions[i] matches AtomicAction::NftBlacklist {
                    timeout,
                    ..
                } ==> patterns::pattern_accepts(r"^\d+[smhd]$"@, timeout@))) ==> (actions[k]
                matches AtomicAction::NftBlacklist { timeout, .. } ==> (
            !patterns::pattern_accepts(r"^\d+[smhd]$"@, timeout@) ==> manifest::playbook_fault(
                name,
                playbook,
            ) == Some(
                ConfigErrorView::InvalidTimeout { playbook: name, timeout: timeout@ },
            )))
        }),
{
    let actions = playbook.try_actions@ + playbook.final_actions@;
    if 0 <= k < actions.len() && (forall|i: int|
        0 <= i < k ==> (#[trigger] actions[i] matches AtomicAction::NftBlacklist { timeout, .. }
            ==> patterns::pattern_accepts(r"^\d+[smhd]$"@, timeout@))) {
        lemma_first_bad(actions, k, actions.len() as int);
    }
}

/// The first malformed timeout is found among the first `n` actions.
proof fn lemma_first_bad(actions: Seq<AtomicAction>, k: int, n: int)
    requires
        0 <= k < n <= actions.len(),
        forall|i: int|
            0 <= i < k ==> (#[trigger] actions[i] matches AtomicAction::NftBlacklist {
                timeout,
                ..
            } ==> patterns::pattern_accepts(r"^\d+[smhd]$"@, timeout@)),
    ensures
        actions[k] matches AtomicAction::NftBlacklist { timeout, .. } ==> (
        !patterns::pattern_accepts(r"^\d+[smhd]$"@, timeout@) ==> manifest::first_bad_timeout(
            actions.take(n),
        ) == Some(timeout@)),
        n == actions.len() ==> actions.take(n) == actions,
    decreases n,
{
    assert(actions.take(n).drop_last() =~= actions.take(n - 1));
    assert(actions.take(n).last() == actions[n - 1]);
    assert(n == actions.len() ==> actions.take(n) =~= actions);
    if n - 1 > k {
        lemma_first_bad(actions, k, n - 1);
    } else {
        lemma_none_bad(actions, k, k);
    }
}

/// Among the first `n` of actions without malformed timeouts none is found.
proof fn lemma_none_bad(actions: Seq<AtomicAction>, k: int, n: int)
    requires
        0 <= n <= k <= actions.len(),
        forall|i: int|
            0 <= i < k ==> (#[trigger] actions[i] matches AtomicAction::NftBlacklist {
                timeout,
                ..
            } ==> patterns::pattern_accepts(r"^\d+[smhd]$"@, timeout@)),
    ensures
        manifest::first_bad_timeout(actions.take(n)) is None,
    decreases n,
{
    if n > 0 {
        lemma_none_bad(actions, k, n - 1);
        assert(actions.take(n).drop_last() =~= actions.take(n - 1));
        assert(actions.take(n).last() == actions[n - 1]);
    }
}

/// The faults of playbooks are reported before rules without a playbook, and of each the
/// first one is.
pub proof fn law_the_first_fault_is_reported(
    playbooks: Seq<(String, PlaybookConfig)>,
    playbook: (String, PlaybookConfig),
    rules: Seq<JsonRuleConfig>,
    rule: JsonRuleConfig,
)
    ensures
        manifest::first_playbook_fault(playbooks) is Some ==> manifest::first_playbook_fault(
            playbooks.push(playbook),
        ) == manifest::first_playbook_fault(playbooks),
        manifest::first_playbook_fault(playbooks) is None ==> manifest::first_playbook_fault(
            playbooks.push(playbook),
        ) == manifest::playbook_fault(playbook.0@, playbook.1),
        manifest::first_undefined_playbook(rules, playbooks) is Some
            ==> manifest::first_undefined_playbook(rules.push(rule), playbooks)
            == manifest::first_undefined_playbook(rules, playbooks),
        manifest::first_undefined_playbook(rules, playbooks) is None ==> (if exists|i: int|
            0 <= i < playbooks.len() && (#[trigger] playbooks[i]).0@ == rule.playbook@ {
            manifest::first_undefined_playbook(rules.push(rule), playbooks) is None
        } else {
            manifest::first_undefined_playbook(rules.push(rule), playbooks) == Some(
                ConfigErrorView::UndefinedPlaybook {
                    rule: rule.name@,
                    playbook: rule.playbook@,
                },
            )
        }),
        rules.len() > 0 && manifest::first_playbook_fault(playbooks) is Some
            ==> manifest::gathered_fault((playbooks, rules)) == manifest::first_playbook_fault(
            playbooks,
        ),
        rules.len() > 0 && manifest::first_playbook_fault(playbooks) is None
            ==> manifest::gathered_fault((playbooks, rules)) == manifest::first_undefined_playbook(
            rules,
            playbooks,
        ),
{
    assert(playbooks.push(playbook).drop_last() =~= playbooks);
    assert(rules.push(rule).drop_last() =~= rules);
}

/// What is found wrong with everything that was gathered is what the merge is refused
/// with.
pub proof fn law_faults_refuse_the_merge(sources: Seq<ManifestSource>)
    requires
        manifest::gather(sources) is Ok,
    ensures
        match manifest::gathered_fault(manifest::gather(sources)->Ok_0) {
            Some(fault) => manifest::merge_outcome(sources) == Err::<
                manifest::Gathered,
                ConfigErrorView,
            >(fault),
            None => manifest::merge_outcome(sources) == manifest::gather(sources),
        },
{
}

/// Every error names what it is about.
pub proof fn law_errors_name_what_they_are_about(
    name: Seq<char>,
    path: Seq<char>,
    timeout: Seq<char>,
)
    ensures
        (ConfigErrorView::Unreadable { path }).words()
            == "Failed to read security manifest file: '"@ + path + "'"@,
        (ConfigErrorView::Malformed { path }).words()
            == "JSON schema structural verification failed for file: '"@ + path + "'"@,
        (ConfigErrorView::PlaybookCollision { name, path }).words()
            == "Configuration Collision Error: Playbook name '"@ + name + "' found in '"@ + path
            + "' conflicts with an existing playbook declaration."@,
        (ConfigErrorView::RuleCollision { name, path }).words()
            == "Configuration Collision Error: Rule name '"@ + name + "' defined in '"@ + path
            + "' conflicts with an existing rule declaration."@,
        ConfigErrorView::NoRules.words()
            == "Security Constraint Violation: At least one active detection rule must be defined across the manifest files."@,
        (ConfigErrorView::EmptyPlaybook { name }).words() == "Validation Error: Playbook '"@ + name
            + "' contains no operational try/final actions."@,
        (ConfigErrorView::InvalidTimeout { playbook: name, timeout }).words()
            == "Security Constraint Violation: Playbook '"@ + name
            + "' contains an invalid firewall timeout format: '"@ + timeout + "'"@,
        (ConfigErrorView::UndefinedPlaybook { rule: name, playbook: path }).words()
            == "Integrity Constraint Violation: Rule '"@ + name
            + "' references an undefined playbook lookup identity: '"@ + path + "'."@,
{
}

/// What an error holds is what its fields hold.
pub proof fn law_errors_show_their_fields(error: ConfigError)
    ensures
        error matches ConfigError::Unreadable { path } ==> error@ == (ConfigErrorView::Unreadable {
            path: path@,
        }),
        error matches ConfigError::Malformed { path } ==> error@ == (ConfigErrorView::Malformed {
            path: path@,
        }),
        error matches ConfigError::PlaybookCollision { name, path } ==> error@ == (
        ConfigErrorView::PlaybookCollision { name: name@, path: path@ }),
        error matches ConfigError::RuleCollision { name, path } ==> error@ == (
        ConfigErrorView::RuleCollision { name: name@, path: path@ }),
        error is NoRules ==> error@ is NoRules,
        error matches ConfigError::EmptyPlaybook { name } ==> error@ == (
        ConfigErrorView::EmptyPlaybook { name: name@ }),
        error matches ConfigError::InvalidTimeout { playbook, timeout } ==> error@ == (
        ConfigErrorView::InvalidTimeout { playbook: playbook@, timeout: timeout@ }),
        error matches ConfigError::UndefinedPlaybook { rule, playbook } ==> error@ == (
        ConfigErrorView::UndefinedPlaybook { rule: rule@, playbook: playbook@ }),
{
}

} // verus!
