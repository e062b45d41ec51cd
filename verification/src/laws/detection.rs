//! Laws of detection: which rules there are, what they make of a line, and which
//! container is meant.
use crate::config::{AtomicAction, JsonRuleConfig, PlaybookConfig, RuleConfig};
use crate::containers;
use crate::ingestion::{
    DispatchOrder, DispatchOrderView, EvaluationStep, LineEvaluation, StepKind,
};
use crate::ingestion;
use crate::limiters::AntiDosState;
use crate::network::IpAddress;
use crate::patterns;
use crate::rules::{CompiledRule, CompiledRuleView};
use crate::rules;
use crate::text;
use regex::Regex;
use std::time::Instant;
use vstd::prelude::*;

verus! {

/// An order carries the rule's name and fallback actions, the container and the line as
/// they are, wherever the line comes from.
pub proof fn law_orders_carry_the_rule_whole(
    rule: CompiledRuleView,
    id: Seq<char>,
    line: Seq<char>,
    is_from_file: bool,
)
    ensures
        ({
            let order = ingestion::order_for(rule, id, line, is_from_file);
            &&& order.final_actions == rule.final_actions
            &&& order.rule_name == rule.name
            &&& order.container_id == id
            &&& order.trigger_message == line
        }),
{
}

/// A line from a connection sets off the primary actions of the rule as they stand. One
/// from a file sets off the same actions behind a check of the container's state, which
/// is not made twice.
pub proof fn law_primary_actions_are_those_of_the_rule(
    rule: CompiledRuleView,
    id: Seq<char>,
    line: Seq<char>,
)
    ensures
        ingestion::order_for(rule, id, line, false).try_actions == rule.try_actions,
        rule.try_actions.len() > 0 && rule.try_actions[0] == AtomicAction::ValidateState
            ==> ingestion::order_for(rule, id, line, true).try_actions == rule.try_actions,
        !(rule.try_actions.len() > 0 && rule.try_actions[0] == AtomicAction::ValidateState) ==> ({
            let checked = ingestion::order_for(rule, id, line, true).try_actions;
            &&& checked.len() == rule.try_actions.len() + 1
            &&& checked[0] == AtomicAction::ValidateState
            &&& forall|i: int|
                0 <= i < rule.try_actions.len() ==> checked[i + 1]
                    == #[trigger] rule.try_actions[i]
        }),
{
}

/// Where a line goes from is all that its source changes: the same rule, line and
/// container give orders that agree in all but the first primary action.
pub proof fn law_the_source_changes_only_the_check(
    rule: CompiledRuleView,
    id: Seq<char>,
    line: Seq<char>,
)
    ensures
        ({
            let from_file = ingestion::order_for(rule, id, line, true);
            let from_socket = ingestion::order_for(rule, id, line, false);
            &&& from_file.final_actions == from_socket.final_actions
            &&& from_file.rule_name == from_socket.rule_name
            &&& from_file.container_id == from_socket.container_id
            &&& from_file.trigger_message == from_socket.trigger_message
            &&& from_file.try_actions.len() >= from_socket.try_actions.len()
        }),
{
}

/// What an order holds is what its fields hold.
pub proof fn law_orders_show_their_fields(order: DispatchOrder)
    ensures
        order@.container_id == order.container_id@,
        order@.try_actions == order.try_actions@,
        order@.final_actions == order.final_actions@,
        order@.rule_name == order.rule_name@,
        order@.trigger_message == order.trigger_message@,
{
}

/// A rule that does not match, or a line that names no container, leads nowhere.
pub proof fn law_no_match_or_container_no_step(
    id: Option<Seq<char>>,
    matched: bool,
    running: Set<Seq<char>>,
    guard: AntiDosState,
    now: Instant,
)
    requires
        !matched || id is None,
    ensures
        ingestion::step_kind(matched, id, running, guard, now) is Skip,
        !ingestion::guard_consulted(matched, id, running),
{
}

/// A matching rule for a container that runs, known by its ID or any beginning of it, is
/// dispatched at once, whatever the guard remembers, and costs nothing.
pub proof fn law_running_containers_are_dispatched_at_once(
    id: Seq<char>,
    full: Seq<char>,
    running: Set<Seq<char>>,
    guard: AntiDosState,
    now: Instant,
)
    requires
        running.contains(full),
        id.len() <= full.len(),
        full.take(id.len() as int) == id,
    ensures
        ingestion::step_kind(true, Some(id), running, guard, now) is Dispatch,
        !ingestion::guard_consulted(true, Some(id), running),
{
    assert(id.is_prefix_of(full));
}

/// For a container that is not known to run, the guard decides: one that is remembered as
/// missing is passed over, any other is looked up while there are tokens, and refused
/// when there are none.
pub proof fn law_unknown_containers_are_up_to_the_guard(
    id: Seq<char>,
    running: Set<Seq<char>>,
    guard: AntiDosState,
    now: Instant,
)
    requires
        forall|full: Seq<char>| #[trigger]
            running.contains(full) ==> !(id.len() <= full.len() && full.take(id.len() as int)
                == id),
    ensures
        ingestion::guard_consulted(true, Some(id), running),
        guard.negative_cache@.contains(id) ==> ingestion::step_kind(
            true,
            Some(id),
            running,
            guard,
            now,
        ) is Skip,
        !guard.negative_cache@.contains(id) && guard.tokens_at(now) > 0 ==> ingestion::step_kind(
            true,
            Some(id),
            running,
            guard,
            now,
        ) is LookUp,
        !guard.negative_cache@.contains(id) && guard.tokens_at(now) == 0 ==> ingestion::step_kind(
            true,
            Some(id),
            running,
            guard,
            now,
        ) is Refuse,
{
    if containers::is_known(running, id) {
        let full = choose|full: Seq<char>| #[trigger]
            running.contains(full) && id.is_prefix_of(full);
        assert(full.take(id.len() as int) =~= id);
    }
}

/// A step is of the kind that was decided on, and one that carries an order carries the
/// order that was made.
pub proof fn law_steps_carry_what_was_decided(
    step: EvaluationStep,
    kind: StepKind,
    order: DispatchOrderView,
)
    requires
        ingestion::is_step(step, kind, order),
    ensures
        kind is Skip <==> step is Skip,
        kind is LookUp <==> step is LookUp,
        kind is Dispatch <==> step is Dispatch,
        kind is Refuse <==> step is Refuse,
        !(step is Done),
        ingestion::carried_order(step) matches Some(carried) ==> carried@ == order,
        step matches EvaluationStep::Refuse { event } ==> event@.details
            == "Container lookup token pool exhausted. Payload discarded."@ && event@.status
            == "DROPPED"@ && event@.level == "WARN"@ && event@.action == Some("api_rate_limit"@)
            && event@.component == "orchestrator"@ && event@.container_id is None,
{
}

/// Every order that a step carries can be seen.
pub proof fn law_carried_orders_are_seen(order: DispatchOrder, step: EvaluationStep)
    ensures
        step == (EvaluationStep::Dispatch { order }) ==> ingestion::carried_order(step) == Some(
            order,
        ),
        step == (EvaluationStep::LookUp { order }) ==> ingestion::carried_order(step) == Some(
            order,
        ),
        ingestion::orders_container_id(step) <==> (ingestion::carried_order(step) matches Some(o)
            ==> patterns::is_container_id(o.container_id@)),
{
}

/// A request to the guard leaves what it remembers as it is.
pub proof fn law_requests_change_no_memory(
    before: AntiDosState,
    after: AntiDosState,
    id: Seq<char>,
    now: Instant,
)
    requires
        ingestion::guard_after_request(before, after, id, now),
    ensures
        after.negative_cache@ == before.negative_cache@,
        after.negative_queue@ == before.negative_queue@,
        before.spends(after, id, now),
{
}

/// The container that the source of a line stands for comes before the one that the line
/// names; without it the line's first match decides.
pub proof fn law_the_source_names_the_container_first(
    evaluation: LineEvaluation,
    id_pattern: Seq<char>,
)
    ensures
        evaluation.file_container_id matches Some(id) ==> evaluation.container(id_pattern) == Some(
            id@,
        ),
        evaluation.file_container_id is None ==> evaluation.container(id_pattern)
            == patterns::pattern_group(id_pattern, evaluation.line@, 1),
{
}

/// What the log says when lines are dropped for their number.
pub proof fn law_throttling_is_logged()
    ensures
        ingestion::throttle_entry().level == "WARN"@,
        ingestion::throttle_entry().component == "orchestrator"@,
        ingestion::throttle_entry().status == "THROTTLED"@,
        ingestion::throttle_entry().action == Some("rate_limit"@),
        ingestion::throttle_entry().details
            == "Global log ingestion rate ceiling reached. Dropping excess streams to preserve host CPU."@,
        ingestion::throttle_entry().container_id is None,
        ingestion::throttle_entry().rule is None,
{
}

/// A rule matches a line as soon as one of its patterns does, and not otherwise.
pub proof fn law_any_pattern_sets_a_rule_off(rule: CompiledRuleView, line: Seq<char>, i: int)
    requires
        0 <= i < rule.patterns.len(),
    ensures
        patterns::pattern_accepts(rule.patterns[i], line) ==> rule.matches(line),
        (forall|k: int|
            0 <= k < rule.patterns.len() ==> !patterns::pattern_accepts(
                #[trigger] rule.patterns[k],
                line,
            )) ==> !rule.matches(line),
{
}

/// A rule without patterns matches nothing.
pub proof fn law_no_pattern_no_match(rule: CompiledRuleView, line: Seq<char>)
    requires
        rule.patterns.len() == 0,
    ensures
        !rule.matches(line),
{
}

/// What a compiled rule holds is what its fields hold.
pub proof fn law_compiled_rules_show_their_fields(rule: CompiledRule, i: int)
    ensures
        rule@.name == rule.name@,
        rule@.try_actions == rule.try_actions@,
        rule@.final_actions == rule.final_actions@,
        rule@.patterns.len() == rule.patterns@.len(),
        0 <= i < rule.patterns@.len() ==> rule@.patterns[i] == patterns::regex_pattern(
            rule.patterns@[i],
        ),
{
}

/// Rules are compiled one by one: a rule whose pattern compiles is added behind those
/// before it with its own name, pattern and actions, and one whose pattern does not is
/// left out.
pub proof fn law_rules_are_compiled_one_by_one(before: Seq<RuleConfig>, rule: RuleConfig)
    ensures
        rules::compiled_rules(Seq::<RuleConfig>::empty()).len() == 0,
        !patterns::pattern_compiles(rule.regex_match@) ==> rules::compiled_rules(before.push(rule))
            == rules::compiled_rules(before),
        patterns::pattern_compiles(rule.regex_match@) ==> ({
            let all = rules::compiled_rules(before.push(rule));
            &&& all.drop_last() == rules::compiled_rules(before)
            &&& all.len() == rules::compiled_rules(before).len() + 1
            &&& all.last().name == rule.name@
            &&& all.last().patterns.len() == 1 && all.last().patterns[0] == rule.regex_match@
            &&& all.last().try_actions == rule.try_actions@
            &&& all.last().final_actions == rule.final_actions@
        }),
{
    assert(before.push(rule).drop_last() =~= before);
    if patterns::pattern_compiles(rule.regex_match@) {
        let all = rules::compiled_rules(before.push(rule));
        assert(all.drop_last() =~= rules::compiled_rules(before));
    }
}

/// The patterns of a manifest rule are kept in order, without those that do not compile.
pub proof fn law_sound_patterns_are_kept(before: Seq<Seq<char>>, pattern: Seq<char>)
    ensures
        rules::sound_patterns(Seq::<Seq<char>>::empty()).len() == 0,
        patterns::pattern_compiles(pattern) ==> rules::sound_patterns(before.push(pattern))
            == rules::sound_patterns(before).push(pattern),
        !patterns::pattern_compiles(pattern) ==> rules::sound_patterns(before.push(pattern))
            == rules::sound_patterns(before),
{
    assert(before.push(pattern).drop_last() =~= before);
}

/// A playbook is found where the first one of its name stands.
pub proof fn law_playbooks_are_found_by_name(
    playbooks: Seq<(String, PlaybookConfig)>,
    name: Seq<char>,
    i: int,
)
    ensures
        rules::playbook_place(playbooks, name) == Some(i) <==> (0 <= i < playbooks.len()
            && playbooks[i].0@ == name && forall|k: int|
            0 <= k < i ==> (#[trigger] playbooks[k]).0@ != name),
    decreases playbooks.len(),
{
    if playbooks.len() > 0 {
        let before = playbooks.drop_last();
        law_playbooks_are_found_by_name(before, name, i);
        match rules::playbook_place(before, name) {
            Some(place) => {
                law_playbooks_are_found_by_name(before, name, place);
                assert(playbooks[place].0@ == name);
                assert forall|k: int| 0 <= k < place implies (#[trigger] playbooks[k]).0@
                    != name by {
                    assert(before[k].0@ != name);
                }
            },
            None => {
                assert forall|k: int| 0 <= k < before.len() implies (#[trigger] playbooks[k]).0@
                    != name by {
                    assert(before[k] == playbooks[k]);
                    lemma_unfound(before, name, k);
                }
            },
        }
    }
}

/// If no playbook is found, none bears the name.
proof fn lemma_unfound(playbooks: Seq<(String, PlaybookConfig)>, name: Seq<char>, k: int)
    requires
        rules::playbook_place(playbooks, name) is None,
        0 <= k < playbooks.len(),
    ensures
        playbooks[k].0@ != name,
    decreases playbooks.len(),
{
    let before = playbooks.drop_last();
    if k < before.len() {
        lemma_unfound(before, name, k);
        assert(before[k] == playbooks[k]);
    }
}

/// A manifest rule is compiled with the actions of the playbook that it names, if that is
/// there and one of its patterns compiles; else it is left out. Either way the rules
/// before it stay.
pub proof fn law_manifest_rules_get_the_actions_of_their_playbook(
    before: Seq<JsonRuleConfig>,
    rule: JsonRuleConfig,
    playbooks: Seq<(String, PlaybookConfig)>,
)
    ensures
        ({
            let earlier = rules::compiled_manifest_rules(before, playbooks);
            let all = rules::compiled_manifest_rules(before.push(rule), playbooks);
            let sound = rules::sound_patterns(text::views(rule.match_any@));
            match rules::playbook_place(playbooks, rule.playbook@) {
                Some(place) if sound.len() > 0 => {
                    &&& all.len() == earlier.len() + 1
                    &&& all.drop_last() == earlier
                    &&& all.last().name == rule.name@
                    &&& all.last().patterns == sound
                    &&& all.last().try_actions == playbooks[place].1.try_actions@
                    &&& all.last().final_actions == playbooks[place].1.final_actions@
                },
                _ => all == earlier,
            }
        }),
        rules::compiled_manifest_rules(Seq::<JsonRuleConfig>::empty(), playbooks).len() == 0,
{
    assert(before.push(rule).drop_last() =~= before);
    let earlier = rules::compiled_manifest_rules(before, playbooks);
    let all = rules::compiled_manifest_rules(before.push(rule), playbooks);
    if all.len() == earlier.len() + 1 {
        assert(all.drop_last() =~= earlier);
    }
}

/// Making a rule ready keeps its name and its actions, and gives it one pattern.
pub proof fn law_ready_rules_keep_their_actions(rule: RuleConfig, pattern: Seq<char>)
    ensures
        rules::ready_rule(rule, pattern).name == rule.name@,
        rules::ready_rule(rule, pattern).try_actions == rule.try_actions@,
        rules::ready_rule(rule, pattern).final_actions == rule.final_actions@,
        rules::ready_rule(rule, pattern).patterns == seq![pattern],
{
}

/// A container is known exactly if a running one has an ID that begins with the given
/// text.
pub proof fn law_containers_are_known_by_a_beginning(running: Set<Seq<char>>, id: Seq<char>)
    ensures
        containers::is_known(running, id) <==> exists|full: Seq<char>| #[trigger]
            running.contains(full) && id.len() <= full.len() && forall|i: int|
                0 <= i < id.len() ==> full[i] == #[trigger] id[i],
        !containers::is_known(Set::<Seq<char>>::empty(), id),
{
    if containers::is_known(running, id) {
        let full = choose|full: Seq<char>| #[trigger]
            running.contains(full) && id.is_prefix_of(full);
        assert forall|i: int| 0 <= i < id.len() implies full[i] == #[trigger] id[i] by {
            assert(full.subrange(0, id.len() as int)[i] == id[i]);
        }
    }
    if exists|full: Seq<char>| #[trigger]
        running.contains(full) && id.len() <= full.len() && forall|i: int|
            0 <= i < id.len() ==> full[i] == #[trigger] id[i] {
        let full = choose|full: Seq<char>| #[trigger]
            running.contains(full) && id.len() <= full.len() && forall|i: int|
                0 <= i < id.len() ==> full[i] == #[trigger] id[i];
        assert(full.subrange(0, id.len() as int) =~= id);
        assert(id.is_prefix_of(full));
    }
}

/// A list holds the IDs that stand in it, and repeats none if no two places hold the
/// same.
pub proof fn law_id_lists_hold_their_entries(ids: Seq<String>, id: Seq<char>)
    ensures
        containers::id_set(ids).contains(id) <==> exists|i: int|
            0 <= i < ids.len() && (#[trigger] ids[i])@ == id,
        containers::no_repetition(ids) <==> forall|i: int, j: int|
            0 <= i < ids.len() && 0 <= j < ids.len() && i != j ==> (#[trigger] ids[i])@ != (
            #[trigger] ids[j])@,
{
    let views = text::views(ids);
    if containers::id_set(ids).contains(id) {
        let k = choose|k: int| 0 <= k < views.len() && views[k] == id;
        assert(ids[k]@ == id);
    }
    if exists|i: int| 0 <= i < ids.len() && (#[trigger] ids[i])@ == id {
        let k = choose|i: int| 0 <= i < ids.len() && (#[trigger] ids[i])@ == id;
        assert(views[k] == id);
    }
    if containers::no_repetition(ids) {
        assert forall|i: int, j: int|
            0 <= i < ids.len() && 0 <= j < ids.len() && i != j implies (#[trigger] ids[i])@ != (
        #[trigger] ids[j])@ by {
            assert(views[i] != views[j]);
        }
    }
    if forall|i: int, j: int|
        0 <= i < ids.len() && 0 <= j < ids.len() && i != j ==> (#[trigger] ids[i])@ != (
        #[trigger] ids[j])@ {
        assert forall|i: int, j: int|
            0 <= i < views.len() && 0 <= j < views.len() && i != j implies views[i] != views[j] by {
            assert(ids[i]@ != ids[j]@);
        }
    }
}

/// Of the addresses that the engine lists, those that can be read are kept, in order.
pub proof fn law_readable_addresses_are_kept(
    before: Seq<Option<IpAddress>>,
    entry: Option<IpAddress>,
)
    ensures
        containers::readable(Seq::<Option<IpAddress>>::empty()).len() == 0,
        entry matches Some(address) ==> containers::readable(before.push(entry))
            == containers::readable(before).push(address),
        entry is None ==> containers::readable(before.push(entry)) == containers::readable(before),
{
    assert(before.push(entry).drop_last() =~= before);
}

/// What the log says of addresses that could not be found out.
pub proof fn law_failed_resolutions_are_logged(id: Seq<char>, details: Seq<char>)
    ensures
        containers::resolution_entry(id, details).level == "WARN"@,
        containers::resolution_entry(id, details).component == "worker_engine"@,
        containers::resolution_entry(id, details).status == "FAILURE"@,
        containers::resolution_entry(id, details).action == Some("resolve_ip"@),
        containers::resolution_entry(id, details).container_id == Some(id),
        containers::resolution_entry(id, details).details == details,
{
}

/// The first text in which the pattern captures something decides, and what is found is
/// what it captures there.
pub proof fn law_the_first_capture_decides(
    pattern: Seq<char>,
    texts: Seq<Seq<char>>,
    i: int,
)
    requires
        0 <= i < texts.len(),
        forall|k: int|
            0 <= k < i ==> patterns::pattern_group(pattern, #[trigger] texts[k], 1) is None,
    ensures
        patterns::pattern_group(pattern, texts[i], 1) is Some ==> containers::first_capture(
            pattern,
            texts,
        ) == patterns::pattern_group(pattern, texts[i], 1),
        patterns::pattern_group(pattern, texts[i], 1) is None && i == texts.len() - 1
            ==> containers::first_capture(pattern, texts) is None,
    decreases texts.len(),
{
    if i > 0 {
        let rest = texts.drop_first();
        assert(patterns::pattern_group(pattern, texts[0], 1) is None);
        assert forall|k: int| 0 <= k < i - 1 implies patterns::pattern_group(
            pattern,
            #[trigger] rest[k],
            1,
        ) is None by {
            assert(rest[k] == texts[k + 1]);
        }
        law_the_first_capture_decides(pattern, rest, i - 1);
    } else {
        let rest = texts.drop_first();
        assert(rest.len() == 0 ==> containers::first_capture(pattern, rest) is None);
    }
}

/// A container ID is twelve or sixty-four hexadecimal digits.
pub proof fn law_container_ids_are_short_or_long(id: Seq<char>)
    requires
        patterns::is_container_id(id),
    ensures
        id.len() == 12 || id.len() == 64,
        forall|i: int|
            0 <= i < id.len() ==> ('0' <= #[trigger] id[i] && id[i] <= '9') || ('a' <= id[i]
                && id[i] <= 'f') || ('A' <= id[i] && id[i] <= 'F'),
{
}

/// Which patterns find container IDs: behind a flag, as a word of its own, and in a
/// listing of control groups with the long form first.
pub proof fn law_id_patterns_find_both_forms(pattern: Seq<char>)
    ensures
        patterns::finds_ids(pattern) <==> pattern
            == r"--id=\b([a-fA-F0-9]{12}|[a-fA-F0-9]{64})\b"@ || pattern
            == r"\b([a-fA-F0-9]{12}|[a-fA-F0-9]{64})\b"@ || pattern
            == r"\b([a-fA-F0-9]{64}|[a-fA-F0-9]{12})\b"@,
        patterns::CGROUP_ID_PATTERN@ == r"\b([a-fA-F0-9]{64}|[a-fA-F0-9]{12})\b"@,
        patterns::FLAG_ID_PATTERN@ == r"--id=\b([a-fA-F0-9]{12}|[a-fA-F0-9]{64})\b"@,
        patterns::WORD_ID_PATTERN@ == r"\b([a-fA-F0-9]{12}|[a-fA-F0-9]{64})\b"@,
{
}

/// The containers that are known to run are those that the cache lists.
pub proof fn law_caches_hold_what_they_list(cache: containers::ContainerCache, id: Seq<char>)
    ensures
        cache@.contains(id) <==> exists|i: int|
            0 <= i < cache.ids@.len() && (#[trigger] cache.ids@[i])@ == id,
{
    law_id_lists_hold_their_entries(cache.ids@, id);
}

/// Lists of rules are seen rule by rule.
pub proof fn law_rule_lists_show_their_rules(list: Seq<CompiledRule>, i: int)
    ensures
        rules::rule_views(list).len() == list.len(),
        0 <= i < list.len() ==> rules::rule_views(list)[i] == list[i]@,
{
}

} // verus!
