//! Evaluation of log lines: which rules a line sets off, for which container, and
//! what has to be known before the actions may be taken.
use crate::config::{clone_actions, AtomicAction};
use crate::containers::ContainerCache;
use crate::containers;
use crate::limiters::{AntiDosState, GlobalRateLimiter, LookupVerdict};
use crate::logger::{LogEvent, LogEventView};
use crate::patterns::captured_group;
use crate::patterns;
use crate::rules::{CompiledRule, CompiledRuleView};
use regex::Regex;
use std::time::Instant;
use vstd::prelude::*;

verus! {

/// How many lines are let in per second.
pub const MAX_LINES_PER_SECOND: usize = 10000;

/// Whether a line is let in.
#[derive(Debug)]
pub enum Admission {
    /// The line is to be evaluated.
    Admitted,
    /// The line is dropped.
    Dropped,
    /// The line is dropped, and the log warns of it.
    DroppedWithWarning { event: LogEvent },
}

/// What the log says when lines are dropped.
pub open spec fn throttle_entry() -> LogEventView {
    LogEventView::plain(
        "WARN"@,
        "orchestrator"@,
        "THROTTLED"@,
        "Global log ingestion rate ceiling reached. Dropping excess streams to preserve host CPU."@,
    ).on_action("rate_limit"@)
}

/// Asks the limiter at `now` whether a line is let in, and if it is not, whether to
/// warn of it.
pub fn admit_line(limiter: &mut GlobalRateLimiter, now: Instant) -> (r: Admission)
    ensures
        r is Admitted <==> old(limiter).window_at(now).2,
        r is DroppedWithWarning <==> !old(limiter).window_at(now).2 && old(limiter).warning_due(
            now,
        ),
        r matches Admission::DroppedWithWarning { event } ==> event@ == throttle_entry(),
        final(limiter).last_warning == (if r is DroppedWithWarning {
            Some(now)
        } else {
            old(limiter).last_warning
        }),
        crate::limiters::instant_nanos(final(limiter).window_start) == old(limiter).window_at(
            now,
        ).0,
        final(limiter).admitted as nat == old(limiter).window_at(now).1,
        final(limiter).max_per_second == old(limiter).max_per_second,
        old(limiter).within_ceiling() ==> final(limiter).within_ceiling(),
{
    if limiter.acquire_at(now) {
        return Admission::Admitted;
    }
    if limiter.should_warn_at(now) {
        return Admission::DroppedWithWarning {
            event: LogEvent::plain(
                "WARN",
                "orchestrator",
                "THROTTLED",
                "Global log ingestion rate ceiling reached. Dropping excess streams to preserve host CPU.".to_owned(),
            ).on_action("rate_limit"),
        };
    }
    Admission::Dropped
}

/// The primary actions of a rule that was set off. What a file says may be long past,
/// so there the state of the container is checked before anything else.
pub open spec fn checked_actions(actions: Seq<AtomicAction>, is_from_file: bool) -> Seq<
    AtomicAction,
> {
    if is_from_file && !(actions.len() > 0 && actions[0] is ValidateState) {
        seq![AtomicAction::ValidateState] + actions
    } else {
        actions
    }
}

/// The actions that a line from a file sets off begin with a check of the state of
/// the container, and are otherwise those of the rule.
pub proof fn law_file_actions_begin_with_check(actions: Seq<AtomicAction>)
    ensures
        checked_actions(actions, true).len() > 0,
        checked_actions(actions, true)[0] is ValidateState,
        checked_actions(actions, true) == actions || checked_actions(actions, true).drop_first()
            == actions,
        checked_actions(actions, false) == actions,
{
    assert((seq![AtomicAction::ValidateState] + actions).drop_first() =~= actions);
}

/// The primary actions of a rule that was set off.
fn with_state_check(actions: &Vec<AtomicAction>, is_from_file: bool) -> (r: Vec<AtomicAction>)
    ensures
        r@ == checked_actions(actions@, is_from_file),
{
    let starts_with_check = if actions.len() > 0 {
        match &actions[0] {
            AtomicAction::ValidateState => true,
            _ => false,
        }
    } else {
        false
    };
    let mut copy = clone_actions(actions);
    if is_from_file && !starts_with_check {
        copy.insert(0, AtomicAction::ValidateState);
        assert(copy@ =~= seq![AtomicAction::ValidateState] + actions@);
    }
    copy
}

/// What a worker is told to do.
#[derive(Debug)]
pub struct DispatchOrder {
    pub container_id: String,
    pub try_actions: Vec<AtomicAction>,
    pub final_actions: Vec<AtomicAction>,
    pub rule_name: String,
    pub trigger_message: String,
}

/// A `DispatchOrder` by the characters of its texts.
#[verifier::ext_equal]
pub struct DispatchOrderView {
    pub container_id: Seq<char>,
    pub try_actions: Seq<AtomicAction>,
    pub final_actions: Seq<AtomicAction>,
    pub rule_name: Seq<char>,
    pub trigger_message: Seq<char>,
}

impl View for DispatchOrder {
    type V = DispatchOrderView;

    open spec fn view(&self) -> DispatchOrderView {
        DispatchOrderView {
            container_id: self.container_id@,
            try_actions: self.try_actions@,
            final_actions: self.final_actions@,
            rule_name: self.rule_name@,
            trigger_message: self.trigger_message@,
        }
    }
}

/// What a rule that a line sets off comes to for a container.
pub open spec fn order_for(
    rule: CompiledRuleView,
    container_id: Seq<char>,
    line: Seq<char>,
    is_from_file: bool,
) -> DispatchOrderView {
    DispatchOrderView {
        container_id,
        try_actions: checked_actions(rule.try_actions, is_from_file),
        final_actions: rule.final_actions,
        rule_name: rule.name,
        trigger_message: line,
    }
}

/// What one rule makes of a line.
#[derive(Debug)]
pub enum EvaluationStep {
    /// All rules have been held against the line.
    Done,
    /// The rule does not concern the line, or the container is known not to exist.
    Skip,
    /// The engine has to be asked whether it has the container of the order.
    LookUp { order: DispatchOrder },
    /// The order is to go to a worker.
    Dispatch { order: DispatchOrder },
    /// The line is passed over, and the log says so.
    Refuse { event: LogEvent },
}

/// What kind of step a rule leads to.
pub enum StepKind {
    Skip,
    LookUp,
    Dispatch,
    Refuse,
}

/// What kind of step a rule leads to, if it is known whether it matches and which
/// container is meant.
pub open spec fn step_kind(
    matched: bool,
    container_id: Option<Seq<char>>,
    running: Set<Seq<char>>,
    guard: AntiDosState,
    now: Instant,
) -> StepKind {
    match container_id {
        Some(id) if matched => if containers::is_known(running, id) {
            StepKind::Dispatch
        } else {
            match guard.verdict_at(id, now) {
                LookupVerdict::KnownMissing => StepKind::Skip,
                LookupVerdict::Granted => StepKind::LookUp,
                LookupVerdict::Exhausted => StepKind::Refuse,
            }
        },
        _ => StepKind::Skip,
    }
}

/// The lookup guard is consulted for the rule.
pub open spec fn guard_consulted(
    matched: bool,
    container_id: Option<Seq<char>>,
    running: Set<Seq<char>>,
) -> bool {
    matched && container_id is Some && !containers::is_known(running, container_id->0)
}

/// What the log says when no lookup may be made.
pub open spec fn exhaustion_entry() -> LogEventView {
    LogEventView::plain(
        "WARN"@,
        "orchestrator"@,
        "DROPPED"@,
        "Container lookup token pool exhausted. Payload discarded."@,
    ).on_action("api_rate_limit"@)
}

/// `step` is of the given kind, and carries the order or the entry that goes with it.
pub open spec fn is_step(step: EvaluationStep, kind: StepKind, order: DispatchOrderView) -> bool {
    match kind {
        StepKind::Skip => step is Skip,
        StepKind::LookUp => step matches EvaluationStep::LookUp { order: o } && o@ == order,
        StepKind::Dispatch => step matches EvaluationStep::Dispatch { order: o } && o@ == order,
        StepKind::Refuse => step matches EvaluationStep::Refuse { event } && event@
            == exhaustion_entry(),
    }
}

/// The order that a step carries.
pub open spec fn carried_order(step: EvaluationStep) -> Option<DispatchOrder> {
    match step {
        EvaluationStep::LookUp { order } => Some(order),
        EvaluationStep::Dispatch { order } => Some(order),
        _ => None,
    }
}

/// `after` is what asking `before` at `now` about a container makes of the guard.
pub open spec fn guard_after_request(
    before: AntiDosState,
    after: AntiDosState,
    container_id: Seq<char>,
    now: Instant,
) -> bool {
    &&& after.negative_cache@ == before.negative_cache@
    &&& after.negative_queue@ == before.negative_queue@
    &&& before.spends(after, container_id, now)
}

/// Decides what a rule leads to, if it is known whether it matches the line and which
/// container the line speaks of.
pub fn decide_rule(
    matched: bool,
    container_id: Option<String>,
    rule: &CompiledRule,
    line: &str,
    is_from_file: bool,
    running: &ContainerCache,
    guard: &mut AntiDosState,
    now: Instant,
) -> (r: EvaluationStep)
    ensures
        is_step(
            r,
            step_kind(matched, patterns::option_view(container_id), running@, *old(guard), now),
            order_for(rule@, patterns::option_view(container_id)->0, line@, is_from_file),
        ),
        guard_consulted(matched, patterns::option_view(container_id), running@)
            ==> guard_after_request(
            *old(guard),
            *final(guard),
            patterns::option_view(container_id)->0,
            now,
        ),
        !guard_consulted(matched, patterns::option_view(container_id), running@) ==> *final(guard)
            == *old(guard),
        old(guard).consistent() ==> final(guard).consistent(),
        carried_order(r) matches Some(order) ==> {
            &&& matched
            &&& container_id is Some && order.container_id@ == container_id->0@
            &&& order.final_actions@ == rule.final_actions@
            &&& order.rule_name@ == rule.name@
            &&& order.trigger_message@ == line@
            &&& !is_from_file ==> order.try_actions@ == rule.try_actions@
            &&& is_from_file ==> order.try_actions@.len() > 0 && order.try_actions@[0]
                == AtomicAction::ValidateState && (order.try_actions@ == rule.try_actions@
                || order.try_actions@.drop_first() == rule.try_actions@)
        },
{
    let id = match container_id {
        Some(id) => id,
        None => {
            return EvaluationStep::Skip;
        },
    };
    if !matched {
        return EvaluationStep::Skip;
    }
    let known = running.knows(id.as_str());
    if !known {
        match guard.request_lookup(id.as_str(), now) {
            LookupVerdict::KnownMissing => {
                return EvaluationStep::Skip;
            },
            LookupVerdict::Exhausted => {
                return EvaluationStep::Refuse {
                    event: LogEvent::plain(
                        "WARN",
                        "orchestrator",
                        "DROPPED",
                        "Container lookup token pool exhausted. Payload discarded.".to_owned(),
                    ).on_action("api_rate_limit"),
                };
            },
            LookupVerdict::Granted => {},
        }
    }
    let order = DispatchOrder {
        container_id: id,
        try_actions: with_state_check(&rule.try_actions, is_from_file),
        final_actions: clone_actions(&rule.final_actions),
        rule_name: rule.name.clone(),
        trigger_message: line.to_owned(),
    };
    assert((seq![AtomicAction::ValidateState] + rule.try_actions@).drop_first()
        =~= rule.try_actions@);
    if known {
        EvaluationStep::Dispatch { order }
    } else {
        EvaluationStep::LookUp { order }
    }
}

/// Actions are ordered exactly where a rule matches a line about a container that is
/// known to run; what is not known to run is acted on only after the engine was asked.
pub proof fn law_only_known_containers_are_acted_on(
    matched: bool,
    container_id: Option<Seq<char>>,
    running: Set<Seq<char>>,
    guard: AntiDosState,
    now: Instant,
)
    ensures
        step_kind(matched, container_id, running, guard, now) is Dispatch <==> (matched
            && container_id is Some && containers::is_known(running, container_id->0)),
        step_kind(matched, container_id, running, guard, now) is LookUp ==> matched
            && container_id is Some && !guard.negative_cache@.contains(container_id->0)
            && guard.tokens_at(now) > 0,
{
}

/// A line that is held against the rules, one after the other.
pub struct LineEvaluation {
    pub line: String,
    pub file_container_id: Option<String>,
    pub is_from_file: bool,
    pub next: usize,
}

impl LineEvaluation {
    /// Starts with the first rule. A line from a file belongs to the container that
    /// the file is named after.
    pub fn new(line: String, file_container_id: Option<String>, is_from_file: bool) -> (r: Self)
        ensures
            r == (LineEvaluation { line, file_container_id, is_from_file, next: 0 }),
    {
        LineEvaluation { line, file_container_id, is_from_file, next: 0 }
    }

    /// The container that the line is about: the one that its source stands for, or
    /// else the one that the line names.
    pub open spec fn container(self, id_pattern: Seq<char>) -> Option<Seq<char>> {
        match self.file_container_id {
            Some(id) => Some(id@),
            None => patterns::pattern_group(id_pattern, self.line@, 1),
        }
    }
}

/// If the step carries an order, it is for a container ID in short or long form.
pub open spec fn orders_container_id(step: EvaluationStep) -> bool {
    match step {
        EvaluationStep::LookUp { order } => patterns::is_container_id(order.container_id@),
        EvaluationStep::Dispatch { order } => patterns::is_container_id(order.container_id@),
        _ => true,
    }
}

/// Holds the line against its next rule. Where the container IDs are found by one of
/// the patterns that are made for them, no order is for anything else.
pub fn evaluate_line_signatures(
    evaluation: &mut LineEvaluation,
    rules: &Vec<CompiledRule>,
    id_extractor: &Regex,
    running: &ContainerCache,
    guard: &mut AntiDosState,
    now: Instant,
) -> (r: EvaluationStep)
    ensures
        final(evaluation).line == old(evaluation).line,
        final(evaluation).file_container_id == old(evaluation).file_container_id,
        final(evaluation).is_from_file == old(evaluation).is_from_file,
        r is Done <==> old(evaluation).next >= rules@.len(),
        r is Done ==> final(evaluation).next == old(evaluation).next && *final(guard) == *old(guard),
        old(evaluation).next < rules@.len() ==> {
            let rule = rules@[old(evaluation).next as int]@;
            let matched = rule.matches(old(evaluation).line@);
            let id = old(evaluation).container(patterns::regex_pattern(*id_extractor));
            &&& final(evaluation).next == old(evaluation).next + 1
            &&& is_step(
                r,
                step_kind(matched, id, running@, *old(guard), now),
                order_for(rule, id->0, old(evaluation).line@, old(evaluation).is_from_file),
            )
            &&& guard_consulted(matched, id, running@) ==> guard_after_request(
                *old(guard),
                *final(guard),
                id->0,
                now,
            )
            &&& !guard_consulted(matched, id, running@) ==> *final(guard) == *old(guard)
        },
        old(guard).consistent() ==> final(guard).consistent(),
        patterns::finds_ids(patterns::regex_pattern(*id_extractor)) && (old(evaluation).file_container_id is Some ==> patterns::is_container_id(
            old(evaluation).file_container_id->0@,
        )) ==> orders_container_id(r),
        carried_order(r) matches Some(order) ==> {
            let rule = rules@[old(evaluation).next as int];
            &&& order.final_actions@ == rule.final_actions@
            &&& order.rule_name@ == rule.name@
            &&& order.trigger_message@ == old(evaluation).line@
            &&& !old(evaluation).is_from_file ==> order.try_actions@ == rule.try_actions@
            &&& old(evaluation).is_from_file ==> order.try_actions@.len() > 0
                && order.try_actions@[0] == AtomicAction::ValidateState && (order.try_actions@
                == rule.try_actions@ || order.try_actions@.drop_first() == rule.try_actions@)
            &&& old(evaluation).file_container_id is Some ==> order.container_id@ == old(
                evaluation).file_container_id->0@
        },
{
    if evaluation.next >= rules.len() {
        return EvaluationStep::Done;
    }
    let rule = &rules[evaluation.next];
    evaluation.next = evaluation.next + 1;
    let matched = rule.matches(evaluation.line.as_str());
    let container_id = match &evaluation.file_container_id {
        Some(id) => Some(id.clone()),
        None => captured_group(id_extractor, evaluation.line.as_str(), 1),
    };
    decide_rule(
        matched,
        container_id,
        rule,
        evaluation.line.as_str(),
        evaluation.is_from_file,
        running,
        guard,
        now,
    )
}

/// Takes in whether the engine has the container of an order. If it has, the container
/// is known from now on and the order is to be carried out; if not, it is remembered
/// as missing and the order comes to nothing.
pub fn settle_lookup(
    order: DispatchOrder,
    exists: bool,
    running: &mut ContainerCache,
    guard: &mut AntiDosState,
) -> (r: Option<DispatchOrder>)
    ensures
        r == (if exists {
            Some(order)
        } else {
            None
        }),
        final(running)@ == (if exists {
            old(running)@.insert(order.container_id@)
        } else {
            old(running)@
        }),
        old(running).valid() ==> final(running).valid(),
        exists ==> *final(guard) == *old(guard),
        !exists ==> old(guard).remembers(*final(guard), order.container_id@),
        old(guard).consistent() && !old(guard).negative_cache@.contains(order.container_id@)
            ==> final(guard).consistent(),
{
    if exists {
        running.insert(order.container_id.clone());
        return Some(order);
    }
    guard.record_missing(order.container_id.clone());
    None
}

/// The orders among steps that go to a worker at once, in order.
pub open spec fn dispatched(steps: Seq<EvaluationStep>) -> Seq<DispatchOrderView>
    decreases steps.len(),
{
    if steps.len() == 0 {
        Seq::empty()
    } else {
        let before = dispatched(steps.drop_last());
        match steps.last() {
            EvaluationStep::Dispatch { order } => before.push(order@),
            _ => before,
        }
    }
}

/// The orders of the rules that match a line about a container, in the order of the
/// rules.
pub open spec fn matching_orders(
    rules: Seq<CompiledRuleView>,
    container_id: Seq<char>,
    line: Seq<char>,
    is_from_file: bool,
) -> Seq<DispatchOrderView>
    decreases rules.len(),
{
    if rules.len() == 0 {
        Seq::empty()
    } else {
        let before = matching_orders(rules.drop_last(), container_id, line, is_from_file);
        if rules.last().matches(line) {
            before.push(order_for(rules.last(), container_id, line, is_from_file))
        } else {
            before
        }
    }
}

/// Step `i` is what rule `i` makes of the line, with the containers `running[i]` and the
/// guard `guards[i]` at `times[i]`.
pub open spec fn steps_of_line(
    evaluation: LineEvaluation,
    id_pattern: Seq<char>,
    rules: Seq<CompiledRuleView>,
    running: Seq<Set<Seq<char>>>,
    guards: Seq<AntiDosState>,
    times: Seq<Instant>,
    steps: Seq<EvaluationStep>,
) -> bool {
    &&& running.len() == rules.len()
    &&& guards.len() == rules.len()
    &&& times.len() == rules.len()
    &&& steps.len() == rules.len()
    &&& forall|i: int|
        0 <= i < rules.len() ==> is_step(
            #[trigger] steps[i],
            step_kind(
                rules[i].matches(evaluation.line@),
                evaluation.container(id_pattern),
                running[i],
                guards[i],
                times[i],
            ),
            order_for(
                rules[i],
                evaluation.container(id_pattern)->0,
                evaluation.line@,
                evaluation.is_from_file,
            ),
        )
}

/// Over a whole line about a container that is known to run all the while, the orders
/// are exactly those of the rules that match the line, once each and in the order of the
/// rules, and the engine is not asked.
pub proof fn law_known_container_gets_every_matching_rule(
    evaluation: LineEvaluation,
    id_pattern: Seq<char>,
    rules: Seq<CompiledRuleView>,
    running: Seq<Set<Seq<char>>>,
    guards: Seq<AntiDosState>,
    times: Seq<Instant>,
    steps: Seq<EvaluationStep>,
)
    requires
        steps_of_line(evaluation, id_pattern, rules, running, guards, times, steps),
        evaluation.container(id_pattern) is Some,
        forall|i: int|
            0 <= i < running.len() ==> containers::is_known(
                #[trigger] running[i],
                evaluation.container(id_pattern)->0,
            ),
    ensures
        dispatched(steps) == matching_orders(
            rules,
            evaluation.container(id_pattern)->0,
            evaluation.line@,
            evaluation.is_from_file,
        ),
        forall|i: int|
            0 <= i < steps.len() ==> (#[trigger] steps[i]) is Dispatch || steps[i] is Skip,
    decreases rules.len(),
{
    assert forall|i: int| 0 <= i < steps.len() implies (#[trigger] steps[i]) is Dispatch
        || steps[i] is Skip by {
        assert(containers::is_known(running[i], evaluation.container(id_pattern)->0));
    }
    if rules.len() > 0 {
        let last = rules.len() - 1;
        let fewer_rules = rules.drop_last();
        let fewer_running = running.drop_last();
        let fewer_guards = guards.drop_last();
        let fewer_times = times.drop_last();
        let fewer_steps = steps.drop_last();
        assert forall|i: int| 0 <= i < fewer_rules.len() implies is_step(
            #[trigger] fewer_steps[i],
            step_kind(
                fewer_rules[i].matches(evaluation.line@),
                evaluation.container(id_pattern),
                fewer_running[i],
                fewer_guards[i],
                fewer_times[i],
            ),
            order_for(
                fewer_rules[i],
                evaluation.container(id_pattern)->0,
                evaluation.line@,
                evaluation.is_from_file,
            ),
        ) by {
            assert(fewer_steps[i] == steps[i]);
        }
        assert forall|i: int| 0 <= i < fewer_running.len() implies containers::is_known(
            #[trigger] fewer_running[i],
            evaluation.container(id_pattern)->0,
        ) by {
            assert(fewer_running[i] == running[i]);
        }
        law_known_container_gets_every_matching_rule(
            evaluation,
            id_pattern,
            fewer_rules,
            fewer_running,
            fewer_guards,
            fewer_times,
            fewer_steps,
        );
        assert(containers::is_known(running[last], evaluation.container(id_pattern)->0));
        assert(steps[last] == steps.last());
    }
}

} // verus!
