//! Detection rules, compiled: the expressions of a rule with the actions it calls for.
use crate::config::{clone_actions, AtomicAction, JsonRuleConfig, PlaybookConfig, RuleConfig};
use crate::manifest;
use crate::patterns;
use crate::text;
use regex::Regex;
use vstd::prelude::*;

verus! {

/// A rule that is ready to be held against log lines: any of its expressions calls
/// for its actions.
pub struct CompiledRule {
    pub name: String,
    pub patterns: Vec<Regex>,
    pub try_actions: Vec<AtomicAction>,
    pub final_actions: Vec<AtomicAction>,
}

/// A `CompiledRule` by the characters of its texts.
#[verifier::ext_equal]
pub struct CompiledRuleView {
    pub name: Seq<char>,
    pub patterns: Seq<Seq<char>>,
    pub try_actions: Seq<AtomicAction>,
    pub final_actions: Seq<AtomicAction>,
}

impl View for CompiledRule {
    type V = CompiledRuleView;

    open spec fn view(&self) -> CompiledRuleView {
        CompiledRuleView {
            name: self.name@,
            patterns: self.patterns@.map_values(|e: Regex| patterns::regex_pattern(e)),
            try_actions: self.try_actions@,
            final_actions: self.final_actions@,
        }
    }
}

impl CompiledRuleView {
    /// One of the patterns of the rule matches the line.
    pub open spec fn matches(self, line: Seq<char>) -> bool {
        exists|i: int|
            0 <= i < self.patterns.len() && patterns::pattern_accepts(
                #[trigger] self.patterns[i],
                line,
            )
    }
}

impl CompiledRule {
    /// Whether one of the patterns of the rule matches the line.
    pub fn matches(&self, line: &str) -> (r: bool)
        ensures
            r == self@.matches(line@),
    {
        let mut i: usize = 0;
        while i < self.patterns.len()
            invariant
                i <= self.patterns@.len(),
                forall|j: int|
                    0 <= j < i ==> !patterns::pattern_accepts(
                        #[trigger] self@.patterns[j],
                        line@,
                    ),
            decreases self.patterns@.len() - i,
        {
            assert(self@.patterns[i as int] == patterns::regex_pattern(self.patterns@[i as int]));
            if self.patterns[i].is_match(line) {
                return true;
            }
            i += 1;
        }
        false
    }
}

/// The views of a list of rules.
pub open spec fn rule_views(rules: Seq<CompiledRule>) -> Seq<CompiledRuleView> {
    rules.map_values(|rule: CompiledRule| rule@)
}

/// A rule that is ready with one pattern.
pub open spec fn ready_rule(rule: RuleConfig, pattern: Seq<char>) -> CompiledRuleView {
    CompiledRuleView {
        name: rule.name@,
        patterns: seq![pattern],
        try_actions: rule.try_actions@,
        final_actions: rule.final_actions@,
    }
}

/// The rules whose pattern compiles, in order.
pub open spec fn compiled_rules(rules: Seq<RuleConfig>) -> Seq<CompiledRuleView>
    decreases rules.len(),
{
    if rules.len() == 0 {
        Seq::empty()
    } else {
        let rule = rules.last();
        let before = compiled_rules(rules.drop_last());
        if patterns::pattern_compiles(rule.regex_match@) {
            before.push(ready_rule(rule, rule.regex_match@))
        } else {
            before
        }
    }
}

/// Makes a rule ready with its compiled expression.
pub fn make_ready(rule: &RuleConfig, expression: Regex) -> (r: CompiledRule)
    ensures
        r@ == ready_rule(*rule, patterns::regex_pattern(expression)),
{
    let mut expressions: Vec<Regex> = Vec::new();
    expressions.push(expression);
    let ready = CompiledRule {
        name: rule.name.clone(),
        patterns: expressions,
        try_actions: clone_actions(&rule.try_actions),
        final_actions: clone_actions(&rule.final_actions),
    };
    assert(ready@.patterns =~= seq![patterns::regex_pattern(expression)]);
    ready
}

/// Compiles rules. One whose pattern is malformed is left out.
pub fn compile_rules(rules: &[RuleConfig]) -> (r: Vec<CompiledRule>)
    ensures
        rule_views(r@) == compiled_rules(rules@),
{
    let mut compiled: Vec<CompiledRule> = Vec::new();
    let mut i: usize = 0;
    assert(rules@.take(0) =~= Seq::<RuleConfig>::empty());
    assert(rule_views(compiled@) =~= compiled_rules(rules@.take(0)));
    while i < rules.len()
        invariant
            i <= rules@.len(),
            rule_views(compiled@) == compiled_rules(rules@.take(i as int)),
        decreases rules@.len() - i,
    {
        let rule = &rules[i];
        assert(rules@.take(i + 1).drop_last() =~= rules@.take(i as int));
        assert(rules@.take(i + 1).last() == *rule);
        if let Ok(expression) = Regex::new(rule.regex_match.as_str()) {
            let ghost before = compiled@;
            let next = make_ready(rule, expression);
            compiled.push(next);
            assert(rule_views(compiled@) =~= rule_views(before).push(next@));
        }
        i += 1;
    }
    assert(rules@.take(i as int) =~= rules@);
    compiled
}

/// The patterns of a list that compile, in order.
pub open spec fn sound_patterns(texts: Seq<Seq<char>>) -> Seq<Seq<char>>
    decreases texts.len(),
{
    if texts.len() == 0 {
        Seq::empty()
    } else {
        let before = sound_patterns(texts.drop_last());
        if patterns::pattern_compiles(texts.last()) {
            before.push(texts.last())
        } else {
            before
        }
    }
}

/// Compiles the patterns of a list. Those that are malformed are left out.
fn compile_patterns(sources: &Vec<String>) -> (r: Vec<Regex>)
    ensures
        r@.map_values(|e: Regex| patterns::regex_pattern(e)) == sound_patterns(
            text::views(sources@),
        ),
{
    let mut expressions: Vec<Regex> = Vec::new();
    let ghost all = text::views(sources@);
    let ghost pattern_of = |e: Regex| patterns::regex_pattern(e);
    let mut i: usize = 0;
    assert(all.take(0) =~= Seq::<Seq<char>>::empty());
    assert(expressions@.map_values(pattern_of) =~= sound_patterns(all.take(0)));
    while i < sources.len()
        invariant
            i <= sources@.len(),
            all == text::views(sources@),
            pattern_of == (|e: Regex| patterns::regex_pattern(e)),
            expressions@.map_values(pattern_of) == sound_patterns(all.take(i as int)),
        decreases sources@.len() - i,
    {
        assert(all.take(i + 1).drop_last() =~= all.take(i as int));
        assert(all.take(i + 1).last() == sources@[i as int]@);
        if let Ok(expression) = Regex::new(sources[i].as_str()) {
            let ghost before = expressions@;
            expressions.push(expression);
            assert(expressions@.map_values(pattern_of) =~= before.map_values(pattern_of).push(
                pattern_of(expression),
            ));
        }
        i += 1;
    }
    assert(all.take(i as int) =~= all);
    expressions
}

/// Where the first playbook called `name` stands, if there is one.
pub open spec fn playbook_place(
    playbooks: Seq<(String, PlaybookConfig)>,
    name: Seq<char>,
) -> Option<int>
    decreases playbooks.len(),
{
    if playbooks.len() == 0 {
        None
    } else {
        match playbook_place(playbooks.drop_last(), name) {
            Some(place) => Some(place),
            None => if playbooks.last().0@ == name {
                Some(playbooks.len() - 1)
            } else {
                None
            },
        }
    }
}

/// Finds the first playbook called `name`.
fn find_playbook(playbooks: &Vec<(String, PlaybookConfig)>, name: &str) -> (r: Option<usize>)
    ensures
        r is Some <==> playbook_place(playbooks@, name@) is Some,
        r is Some ==> r->0 < playbooks@.len() && playbook_place(playbooks@, name@) == Some(
            r->0 as int,
        ),
{
    let mut found: Option<usize> = None;
    let mut i: usize = 0;
    assert(playbooks@.take(0) =~= Seq::<(String, PlaybookConfig)>::empty());
    while i < playbooks.len()
        invariant
            i <= playbooks@.len(),
            found is Some <==> playbook_place(playbooks@.take(i as int), name@) is Some,
            found is Some ==> found->0 < i && playbook_place(playbooks@.take(i as int), name@)
                == Some(found->0 as int),
        decreases playbooks@.len() - i,
    {
        assert(playbooks@.take(i + 1).drop_last() =~= playbooks@.take(i as int));
        assert(playbooks@.take(i + 1).last() == playbooks@[i as int]);
        if found.is_none() && text::same_text(playbooks[i].0.as_str(), name) {
            found = Some(i);
        }
        i += 1;
    }
    assert(playbooks@.take(i as int) =~= playbooks@);
    found
}

/// The rules of a manifest that have a playbook and a pattern that compiles, in order.
pub open spec fn compiled_manifest_rules(
    rules: Seq<JsonRuleConfig>,
    playbooks: Seq<(String, PlaybookConfig)>,
) -> Seq<CompiledRuleView>
    decreases rules.len(),
{
    if rules.len() == 0 {
        Seq::empty()
    } else {
        let rule = rules.last();
        let before = compiled_manifest_rules(rules.drop_last(), playbooks);
        let sound = sound_patterns(text::views(rule.match_any@));
        match playbook_place(playbooks, rule.playbook@) {
            Some(place) => if sound.len() > 0 {
                before.push(
                    CompiledRuleView {
                        name: rule.name@,
                        patterns: sound,
                        try_actions: playbooks[place].1.try_actions@,
                        final_actions: playbooks[place].1.final_actions@,
                    },
                )
            } else {
                before
            },
            None => before,
        }
    }
}

/// Compiles the rules of a manifest with the actions of their playbooks. Malformed
/// patterns are left out, and so is a rule that has no other.
pub fn compile_manifest_rules(
    rules: &Vec<JsonRuleConfig>,
    playbooks: &Vec<(String, PlaybookConfig)>,
) -> (r: Vec<CompiledRule>)
    ensures
        rule_views(r@) == compiled_manifest_rules(rules@, playbooks@),
{
    let mut compiled: Vec<CompiledRule> = Vec::new();
    let mut i: usize = 0;
    assert(rules@.take(0) =~= Seq::<JsonRuleConfig>::empty());
    assert(rule_views(compiled@) =~= compiled_manifest_rules(rules@.take(0), playbooks@));
    while i < rules.len()
        invariant
            i <= rules@.len(),
            rule_views(compiled@) == compiled_manifest_rules(rules@.take(i as int), playbooks@),
        decreases rules@.len() - i,
    {
        let rule = &rules[i];
        assert(rules@.take(i + 1).drop_last() =~= rules@.take(i as int));
        assert(rules@.take(i + 1).last() == *rule);
        let expressions = compile_patterns(&rule.match_any);
        if let Some(place) = find_playbook(playbooks, rule.playbook.as_str()) {
            if expressions.len() > 0 {
                let ghost before = compiled@;
                let next = CompiledRule {
                    name: rule.name.clone(),
                    patterns: expressions,
                    try_actions: clone_actions(&playbooks[place].1.try_actions),
                    final_actions: clone_actions(&playbooks[place].1.final_actions),
                };
                compiled.push(next);
                assert(rule_views(compiled@) =~= rule_views(before).push(next@));
            }
        }
        i += 1;
    }
    assert(rules@.take(i as int) =~= rules@);
    compiled
}

/// A playbook that is there is found under its name.
proof fn lemma_playbook_is_found(playbooks: Seq<(String, PlaybookConfig)>, name: Seq<char>)
    ensures
        playbook_place(playbooks, name) is Some <==> manifest::has_playbook(playbooks, name),
        playbook_place(playbooks, name) matches Some(place) ==> 0 <= place < playbooks.len()
            && playbooks[place].0@ == name,
    decreases playbooks.len(),
{
    if playbooks.len() > 0 {
        let before = playbooks.drop_last();
        lemma_playbook_is_found(before, name);
        if manifest::has_playbook(before, name) {
            let k = choose|k: int| 0 <= k < before.len() && (#[trigger] before[k]).0@ == name;
            assert(playbooks[k].0@ == name);
        }
        if manifest::has_playbook(playbooks, name) && !manifest::has_playbook(before, name) {
            let k = choose|k: int| 0 <= k < playbooks.len() && (#[trigger] playbooks[k]).0@ == name;
            if k < before.len() {
                assert(before[k].0@ == name);
            }
        }
    }
}

/// Among patterns that compile, none is left out.
proof fn lemma_sound_patterns_stay(texts: Seq<Seq<char>>)
    requires
        forall|i: int| 0 <= i < texts.len() ==> patterns::pattern_compiles(#[trigger] texts[i]),
    ensures
        sound_patterns(texts) == texts,
    decreases texts.len(),
{
    if texts.len() > 0 {
        let before = texts.drop_last();
        assert forall|i: int| 0 <= i < before.len() implies patterns::pattern_compiles(
            #[trigger] before[i],
        ) by {
            assert(before[i] == texts[i]);
        }
        lemma_sound_patterns_stay(before);
        assert(patterns::pattern_compiles(texts[texts.len() - 1]));
        assert(before.push(texts.last()) =~= texts);
    } else {
        assert(sound_patterns(texts) =~= texts);
    }
}

/// If every rule names a playbook that is there and has patterns, all of which
/// compile, then every rule is compiled, in order, with its own name and patterns and
/// with the actions of a playbook of the name that it gives.
pub proof fn law_sound_rules_are_compiled(
    rules: Seq<JsonRuleConfig>,
    playbooks: Seq<(String, PlaybookConfig)>,
)
    requires
        forall|i: int|
            0 <= i < rules.len() ==> manifest::has_playbook(
                playbooks,
                (#[trigger] rules[i]).playbook@,
            ),
        forall|i: int| 0 <= i < rules.len() ==> (#[trigger] rules[i]).match_any@.len() > 0,
        forall|i: int, k: int|
            0 <= i < rules.len() && 0 <= k < rules[i].match_any@.len()
                ==> patterns::pattern_compiles((#[trigger] rules[i].match_any@[k])@),
    ensures
        compiled_manifest_rules(rules, playbooks).len() == rules.len(),
        forall|i: int|
            0 <= i < rules.len() ==> {
                let made = #[trigger] compiled_manifest_rules(rules, playbooks)[i];
                let place = playbook_place(playbooks, rules[i].playbook@)->0;
                &&& made.name == rules[i].name@
                &&& made.patterns == text::views(rules[i].match_any@)
                &&& playbooks[place].0@ == rules[i].playbook@
                &&& made.try_actions == playbooks[place].1.try_actions@
                &&& made.final_actions == playbooks[place].1.final_actions@
            },
    decreases rules.len(),
{
    if rules.len() > 0 {
        let before = rules.drop_last();
        assert forall|i: int| 0 <= i < before.len() implies before[i] == rules[i] by {}
        assert forall|i: int, k: int|
            0 <= i < before.len() && 0 <= k < before[i].match_any@.len() implies
            patterns::pattern_compiles((#[trigger] before[i].match_any@[k])@) by {
            assert(patterns::pattern_compiles(rules[i].match_any@[k]@));
        }
        law_sound_rules_are_compiled(before, playbooks);
        let last = rules.len() - 1;
        let rule = rules[last];
        let texts = text::views(rule.match_any@);
        assert forall|k: int| 0 <= k < texts.len() implies patterns::pattern_compiles(
            #[trigger] texts[k],
        ) by {
            assert(patterns::pattern_compiles(rules[last].match_any@[k]@));
        }
        lemma_sound_patterns_stay(texts);
        assert forall|i: int| 0 <= i < rules.len() implies playbooks[playbook_place(
            playbooks,
            (#[trigger] rules[i]).playbook@,
        )->0].0@ == rules[i].playbook@ by {
            lemma_playbook_is_found(playbooks, rules[i].playbook@);
        }
        lemma_playbook_is_found(playbooks, rule.playbook@);
        let done = compiled_manifest_rules(rules, playbooks);
        let earlier = compiled_manifest_rules(before, playbooks);
        assert forall|i: int| 0 <= i < before.len() implies done[i] == earlier[i] by {}
        assert forall|i: int| 0 <= i < rules.len() implies ({
            let made = #[trigger] done[i];
            let place = playbook_place(playbooks, rules[i].playbook@)->0;
            &&& made.name == rules[i].name@
            &&& made.patterns == text::views(rules[i].match_any@)
            &&& playbooks[place].0@ == rules[i].playbook@
            &&& made.try_actions == playbooks[place].1.try_actions@
            &&& made.final_actions == playbooks[place].1.final_actions@
        }) by {
            if i < last {
                assert(done[i] == earlier[i]);
                assert(before[i] == rules[i]);
            }
        }
    }
}

} // verus!
