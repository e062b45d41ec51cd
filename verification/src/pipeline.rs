//! The containment pipeline: the primary actions of a playbook up to the first that
//! fails, then the fallback actions up to the first that ends the matter.
use crate::config::AtomicAction;
use crate::encoding::{debug_path, debug_text};
use crate::encoding;
use crate::logger::{LogEvent, LogEventView};
use crate::text;
use vstd::prelude::*;

verus! {

/// How an action with one field is printed.
pub open spec fn one_field(name: Seq<char>, field: Seq<char>, value: Seq<char>) -> Seq<char> {
    name + " { "@ + field + ": "@ + encoding::debug_form(value) + " }"@
}

/// How an action is printed.
pub open spec fn action_words(action: AtomicAction) -> Seq<char> {
    match action {
        AtomicAction::ValidateState => "ValidateState"@,
        AtomicAction::LogJson => "LogJson"@,
        AtomicAction::Pause => "Pause"@,
        AtomicAction::Unpause => "Unpause"@,
        AtomicAction::Restart => "Restart"@,
        AtomicAction::CommitSnapshot { prefix } => one_field(
            "CommitSnapshot"@,
            "prefix"@,
            prefix@,
        ),
        AtomicAction::NftBlacklist { set_name, timeout } => "NftBlacklist { set_name: "@
            + encoding::debug_form(set_name@) + ", timeout: "@ + encoding::debug_form(timeout@)
            + " }"@,
        AtomicAction::ContainerSignal { signal } => one_field(
            "ContainerSignal"@,
            "signal"@,
            signal@,
        ),
        AtomicAction::RunCustomScript { path } => "RunCustomScript { path: "@
            + encoding::path_debug_form(path@) + " }"@,
        AtomicAction::WebhookAlert { url } => one_field("WebhookAlert"@, "url"@, url@),
        AtomicAction::LogCritical => "LogCritical"@,
    }
}

/// Prints an action with one field.
fn print_one_field(name: &str, field: &str, value: &str) -> (r: String)
    ensures
        r@ == one_field(name@, field@, value@),
{
    let mut out = name.to_owned();
    out.append(" { ");
    out.append(field);
    out.append(": ");
    out.append(debug_text(value).as_str());
    out.append(" }");
    out
}

/// Prints an action.
pub fn action_text(action: &AtomicAction) -> (r: String)
    ensures
        r@ == action_words(*action),
{
    match action {
        AtomicAction::ValidateState => "ValidateState".to_owned(),
        AtomicAction::LogJson => "LogJson".to_owned(),
        AtomicAction::Pause => "Pause".to_owned(),
        AtomicAction::Unpause => "Unpause".to_owned(),
        AtomicAction::Restart => "Restart".to_owned(),
        AtomicAction::CommitSnapshot { prefix } => print_one_field(
            "CommitSnapshot",
            "prefix",
            prefix.as_str(),
        ),
        AtomicAction::NftBlacklist { set_name, timeout } => {
            let mut out = "NftBlacklist { set_name: ".to_owned();
            out.append(debug_text(set_name.as_str()).as_str());
            out.append(", timeout: ");
            out.append(debug_text(timeout.as_str()).as_str());
            out.append(" }");
            out
        },
        AtomicAction::ContainerSignal { signal } => print_one_field(
            "ContainerSignal",
            "signal",
            signal.as_str(),
        ),
        AtomicAction::RunCustomScript { path } => {
            let mut out = "RunCustomScript { path: ".to_owned();
            out.append(debug_path(path.as_str()).as_str());
            out.append(" }");
            out
        },
        AtomicAction::WebhookAlert { url } => print_one_field("WebhookAlert", "url", url.as_str()),
        AtomicAction::LogCritical => "LogCritical".to_owned(),
    }
}

/// Where a pipeline stands.
#[derive(Debug, Clone, Copy, PartialEq, Eq, Structural)]
pub enum Phase {
    /// A primary action is due.
    Primary { index: usize },
    /// A fallback action is due.
    Fallback { index: usize },
    /// Nothing is left to do.
    Over,
}

/// The phase in which the primary action `index` is due, if there is one.
pub open spec fn primary_phase(index: int, primary: Seq<AtomicAction>) -> Phase {
    if index < primary.len() {
        Phase::Primary { index: index as usize }
    } else {
        Phase::Over
    }
}

/// The phase in which the fallback action `index` is due, if there is one.
pub open spec fn fallback_phase(index: int, fallback: Seq<AtomicAction>) -> Phase {
    if index < fallback.len() {
        Phase::Fallback { index: index as usize }
    } else {
        Phase::Over
    }
}

/// A fallback action that ends the matter once it succeeds: the container is
/// restarted, stopped or killed.
pub open spec fn is_terminal(action: AtomicAction) -> bool {
    match action {
        AtomicAction::Restart => true,
        AtomicAction::ContainerSignal { signal } => signal@ == "SIGKILL"@ || signal@ == "SIGSTOP"@,
        _ => false,
    }
}

/// The phase that follows when the action that is due has succeeded or failed.
pub open spec fn next_phase(
    phase: Phase,
    succeeded: bool,
    primary: Seq<AtomicAction>,
    fallback: Seq<AtomicAction>,
) -> Phase {
    match phase {
        Phase::Primary { index } => if succeeded {
            primary_phase(index + 1, primary)
        } else {
            fallback_phase(0, fallback)
        },
        Phase::Fallback { index } => if succeeded && is_terminal(fallback[index as int]) {
            Phase::Over
        } else {
            fallback_phase(index + 1, fallback)
        },
        Phase::Over => Phase::Over,
    }
}

/// What the log says when the fallback actions are called for.
pub open spec fn escalation_entry(container_id: Seq<char>, rule: Seq<char>) -> LogEventView {
    LogEventView::plain(
        "CRITICAL"@,
        "worker_engine"@,
        "ENGAGED"@,
        "Primary playbook failed structural strategy. Deploying fallback containment actions."@,
    ).about(container_id).under_rule(rule).on_action("escalation_routing"@)
}

/// What the log says when a fallback action has ended the matter.
pub open spec fn halt_entry(
    container_id: Seq<char>,
    rule: Seq<char>,
    action: AtomicAction,
) -> LogEventView {
    LogEventView::plain(
        "CRITICAL"@,
        "worker_engine"@,
        "HALTED"@,
        if action is Restart {
            "Container runtime restarted. Short-circuiting remaining fallback chain."@
        } else {
            "Terminal signal delivered. Short-circuiting remaining fallback chain."@
        },
    ).about(container_id).under_rule(rule)
}

/// What the log says when an action has succeeded, or failed with `fault`.
pub open spec fn report_entries(
    phase: Phase,
    fault: Option<Seq<char>>,
    primary: Seq<AtomicAction>,
    fallback: Seq<AtomicAction>,
    container_id: Seq<char>,
    rule: Seq<char>,
) -> Seq<LogEventView> {
    match phase {
        Phase::Primary { index } => match fault {
            None => Seq::empty(),
            Some(why) => seq![
                LogEventView::plain(
                    "WARN"@,
                    "worker_engine"@,
                    "FAILURE"@,
                    "Primary playbook action failed structural context: "@ + why,
                ).about(container_id).under_rule(rule).on_action(
                    action_words(primary[index as int]),
                ),
                escalation_entry(container_id, rule),
            ],
        },
        Phase::Fallback { index } => {
            let action = fallback[index as int];
            match fault {
                None => {
                    let done = LogEventView::plain(
                        "INFO"@,
                        "worker_engine"@,
                        "SUCCESS"@,
                        "Emergency fallback action executed successfully."@,
                    ).about(container_id).under_rule(rule).on_action(action_words(action));
                    if is_terminal(action) {
                        seq![done, halt_entry(container_id, rule, action)]
                    } else {
                        seq![done]
                    }
                },
                Some(why) => seq![
                    LogEventView::plain(
                        "CRITICAL"@,
                        "worker_engine"@,
                        "CRASH"@,
                        "EMERGENCY CONTAINMENT FAILURE: "@ + why,
                    ).about(container_id).under_rule(rule).on_action(action_words(action)),
                ],
            }
        },
        Phase::Over => Seq::empty(),
    }
}

/// The entries of a log.
pub open spec fn entries(log: Seq<LogEvent>) -> Seq<LogEventView> {
    log.map_values(|event: LogEvent| event@)
}

/// A playbook that is being carried out on a container.
pub struct Pipeline {
    pub container_id: String,
    pub rule_name: String,
    pub try_actions: Vec<AtomicAction>,
    pub final_actions: Vec<AtomicAction>,
    pub phase: Phase,
}

/// The failure that an outcome reports.
pub open spec fn fault_of(outcome: Result<(), String>) -> Option<Seq<char>> {
    match outcome {
        Ok(_) => None,
        Err(why) => Some(why@),
    }
}

/// Whether a fallback action ends the matter once it succeeds.
fn ends_matter(action: &AtomicAction) -> (r: bool)
    ensures
        r == is_terminal(*action),
{
    match action {
        AtomicAction::Restart => true,
        AtomicAction::ContainerSignal { signal } => {
            text::same_text(signal.as_str(), "SIGKILL") || text::same_text(
                signal.as_str(),
                "SIGSTOP",
            )
        },
        _ => false,
    }
}

impl Pipeline {
    /// The action that is due stands in the playbook.
    pub open spec fn valid(self) -> bool {
        match self.phase {
            Phase::Primary { index } => index < self.try_actions@.len(),
            Phase::Fallback { index } => index < self.final_actions@.len(),
            Phase::Over => true,
        }
    }

    /// The action that is due.
    pub open spec fn due(self) -> Option<AtomicAction> {
        match self.phase {
            Phase::Primary { index } => Some(self.try_actions@[index as int]),
            Phase::Fallback { index } => Some(self.final_actions@[index as int]),
            Phase::Over => None,
        }
    }

    /// Starts to carry out a playbook.
    pub fn new(
        container_id: String,
        rule_name: String,
        try_actions: Vec<AtomicAction>,
        final_actions: Vec<AtomicAction>,
    ) -> (r: Self)
        ensures
            r.valid(),
            r.container_id == container_id,
            r.rule_name == rule_name,
            r.try_actions == try_actions,
            r.final_actions == final_actions,
            r.phase == primary_phase(0, try_actions@),
    {
        let phase = if try_actions.len() > 0 {
            Phase::Primary { index: 0 }
        } else {
            Phase::Over
        };
        Pipeline { container_id, rule_name, try_actions, final_actions, phase }
    }

    /// The action that is due, if any is.
    pub fn current(&self) -> (r: Option<&AtomicAction>)
        requires
            self.valid(),
        ensures
            r is Some <==> self.due() is Some,
            r is Some ==> self.due() == Some(*r->0),
    {
        match self.phase {
            Phase::Primary { index } => Some(&self.try_actions[index]),
            Phase::Fallback { index } => Some(&self.final_actions[index]),
            Phase::Over => None,
        }
    }

    /// What the log says about an action under the rule.
    fn entry(&self, level: &str, status: &str, details: String) -> (r: LogEvent)
        ensures
            r@ == LogEventView::plain(level@, "worker_engine"@, status@, details@).about(
                self.container_id@,
            ).under_rule(self.rule_name@),
    {
        LogEvent::plain(level, "worker_engine", status, details).about(
            self.container_id.as_str(),
        ).under_rule(self.rule_name.as_str())
    }

    /// Takes in how the action that was due ended, and says what the log has to tell.
    pub fn report(&mut self, outcome: Result<(), String>) -> (r: Vec<LogEvent>)
        requires
            old(self).valid(),
        ensures
            final(self).valid(),
            final(self).container_id == old(self).container_id,
            final(self).rule_name == old(self).rule_name,
            final(self).try_actions == old(self).try_actions,
            final(self).final_actions == old(self).final_actions,
            final(self).phase == next_phase(
                old(self).phase,
                outcome is Ok,
                old(self).try_actions@,
                old(self).final_actions@,
            ),
            entries(r@) == report_entries(
                old(self).phase,
                fault_of(outcome),
                old(self).try_actions@,
                old(self).final_actions@,
                old(self).container_id@,
                old(self).rule_name@,
            ),
            old(self).phase matches Phase::Primary { index } ==> {
                let last = index + 1 == old(self).try_actions@.len();
                &&& outcome is Ok && !last ==> final(self).phase == (Phase::Primary {
                    index: (index + 1) as usize,
                })
                &&& outcome is Ok && last ==> final(self).phase is Over
                &&& outcome is Err && old(self).final_actions@.len() > 0 ==> final(self).phase == (
                Phase::Fallback { index: 0 })
                &&& outcome is Err && old(self).final_actions@.len() == 0 ==> final(
                    self).phase is Over
            },
            old(self).phase matches Phase::Fallback { index } ==> {
                let action = old(self).final_actions@[index as int];
                let ends = outcome is Ok && (action is Restart || (action
                    matches AtomicAction::ContainerSignal { signal } && (signal@ == "SIGKILL"@
                    || signal@ == "SIGSTOP"@)));
                let last = index + 1 == old(self).final_actions@.len();
                &&& ends || last ==> final(self).phase is Over
                &&& !ends && !last ==> final(self).phase == (Phase::Fallback {
                    index: (index + 1) as usize,
                })
            },
    {
        let mut log: Vec<LogEvent> = Vec::new();
        let ghost expected = report_entries(
            self.phase,
            fault_of(outcome),
            self.try_actions@,
            self.final_actions@,
            self.container_id@,
            self.rule_name@,
        );
        match self.phase {
            Phase::Primary { index } => match outcome {
                Ok(_) => {
                    self.phase =
                    if self.try_actions.len() - index > 1 {
                        Phase::Primary { index: index + 1 }
                    } else {
                        Phase::Over
                    };
                },
                Err(why) => {
                    let mut details =
                        "Primary playbook action failed structural context: ".to_owned();
                    details.append(why.as_str());
                    let name = action_text(&self.try_actions[index]);
                    log.push(self.entry("WARN", "FAILURE", details).on_action(name.as_str()));
                    log.push(
                        self.entry(
                            "CRITICAL",
                            "ENGAGED",
                            "Primary playbook failed structural strategy. Deploying fallback containment actions.".to_owned(),
                        ).on_action("escalation_routing"),
                    );
                    self.phase =
                    if self.final_actions.len() > 0 {
                        Phase::Fallback { index: 0 }
                    } else {
                        Phase::Over
                    };
                },
            },
            Phase::Fallback { index } => {
                let name = action_text(&self.final_actions[index]);
                let mut over = self.final_actions.len() - index <= 1;
                match outcome {
                    Ok(_) => {
                        log.push(
                            self.entry(
                                "INFO",
                                "SUCCESS",
                                "Emergency fallback action executed successfully.".to_owned(),
                            ).on_action(name.as_str()),
                        );
                        if ends_matter(&self.final_actions[index]) {
                            let restarted = match &self.final_actions[index] {
                                AtomicAction::Restart => true,
                                _ => false,
                            };
                            let details = if restarted {
                                "Container runtime restarted. Short-circuiting remaining fallback chain."
                            } else {
                                "Terminal signal delivered. Short-circuiting remaining fallback chain."
                            };
                            log.push(self.entry("CRITICAL", "HALTED", details.to_owned()));
                            over = true;
                        }
                    },
                    Err(why) => {
                        let mut details = "EMERGENCY CONTAINMENT FAILURE: ".to_owned();
                        details.append(why.as_str());
                        log.push(self.entry("CRITICAL", "CRASH", details).on_action(name.as_str()));
                    },
                }
                self.phase =
                if over {
                    Phase::Over
                } else {
                    Phase::Fallback { index: index + 1 }
                };
            },
            Phase::Over => {},
        }
        assert(entries(log@) =~= expected);
        log
    }
}

/// The phases that a pipeline goes through from `phase` on, if `primary_ok` and
/// `fallback_ok` tell which of its actions succeed.
pub open spec fn phases_from(
    phase: Phase,
    primary: Seq<AtomicAction>,
    fallback: Seq<AtomicAction>,
    primary_ok: spec_fn(int) -> bool,
    fallback_ok: spec_fn(int) -> bool,
) -> Seq<Phase>
    decreases
            match phase {
                Phase::Primary { index } => 1 + fallback.len() + primary.len() - index,
                Phase::Fallback { index } => fallback.len() - index,
                Phase::Over => 0,
            },
    when valid_phase(phase, primary, fallback)
{
    match phase {
        Phase::Over => Seq::empty(),
        Phase::Primary { index } => seq![phase] + phases_from(
            next_phase(phase, primary_ok(index as int), primary, fallback),
            primary,
            fallback,
            primary_ok,
            fallback_ok,
        ),
        Phase::Fallback { index } => seq![phase] + phases_from(
            next_phase(phase, fallback_ok(index as int), primary, fallback),
            primary,
            fallback,
            primary_ok,
            fallback_ok,
        ),
    }
}

/// The action that is due in `phase` stands in the playbook, whose lists have lengths
/// that a machine can hold.
pub open spec fn valid_phase(
    phase: Phase,
    primary: Seq<AtomicAction>,
    fallback: Seq<AtomicAction>,
) -> bool {
    &&& primary.len() <= usize::MAX
    &&& fallback.len() <= usize::MAX
    &&& match phase {
        Phase::Primary { index } => index < primary.len(),
        Phase::Fallback { index } => index < fallback.len(),
        Phase::Over => true,
    }
}

/// The primary actions `from` up to `to`, one after the other.
pub open spec fn primary_run(from: int, to: int) -> Seq<Phase> {
    Seq::new((to - from) as nat, |k: int| Phase::Primary { index: (from + k) as usize })
}

/// The fallback actions `from` up to `to`, one after the other.
pub open spec fn fallback_run(from: int, to: int) -> Seq<Phase> {
    Seq::new((to - from) as nat, |k: int| Phase::Fallback { index: (from + k) as usize })
}

/// If every primary action succeeds, they are carried out in order and no fallback
/// action is.
pub proof fn law_success_needs_no_fallback(
    from: int,
    primary: Seq<AtomicAction>,
    fallback: Seq<AtomicAction>,
    primary_ok: spec_fn(int) -> bool,
    fallback_ok: spec_fn(int) -> bool,
)
    requires
        0 <= from <= primary.len() <= usize::MAX,
        fallback.len() <= usize::MAX,
        forall|i: int| from <= i < primary.len() ==> #[trigger] primary_ok(i),
    ensures
        phases_from(primary_phase(from, primary), primary, fallback, primary_ok, fallback_ok)
            == primary_run(from, primary.len() as int),
    decreases primary.len() - from,
{
    if from < primary.len() {
        law_success_needs_no_fallback(from + 1, primary, fallback, primary_ok, fallback_ok);
        assert(primary_ok(from));
        assert(phases_from(
            primary_phase(from, primary),
            primary,
            fallback,
            primary_ok,
            fallback_ok,
        ) =~= primary_run(from, primary.len() as int));
    } else {
        assert(primary_run(from, primary.len() as int) =~= Seq::<Phase>::empty());
    }
}

/// How many fallback actions are carried out from `from` on: up to and with the first
/// that succeeds and ends the matter, else all of them.
pub open spec fn fallback_end(
    from: int,
    fallback: Seq<AtomicAction>,
    fallback_ok: spec_fn(int) -> bool,
) -> int
    decreases fallback.len() - from,
{
    if from >= fallback.len() {
        from
    } else if fallback_ok(from) && is_terminal(fallback[from]) {
        from + 1
    } else {
        fallback_end(from + 1, fallback, fallback_ok)
    }
}

/// Fallback actions are carried out in order, whether they succeed or not, until one
/// of them ends the matter.
pub proof fn law_fallback_runs_until_terminal(
    from: int,
    primary: Seq<AtomicAction>,
    fallback: Seq<AtomicAction>,
    primary_ok: spec_fn(int) -> bool,
    fallback_ok: spec_fn(int) -> bool,
)
    requires
        0 <= from <= fallback.len() <= usize::MAX,
        primary.len() <= usize::MAX,
    ensures
        from <= fallback_end(from, fallback, fallback_ok) <= fallback.len(),
        phases_from(fallback_phase(from, fallback), primary, fallback, primary_ok, fallback_ok)
            == fallback_run(from, fallback_end(from, fallback, fallback_ok)),
    decreases fallback.len() - from,
{
    let end = fallback_end(from, fallback, fallback_ok);
    let found = phases_from(
        fallback_phase(from, fallback),
        primary,
        fallback,
        primary_ok,
        fallback_ok,
    );
    if from >= fallback.len() {
        assert(found =~= fallback_run(from, end));
    } else if fallback_ok(from) && is_terminal(fallback[from]) {
        assert(phases_from(Phase::Over, primary, fallback, primary_ok, fallback_ok) =~= Seq::<
            Phase,
        >::empty());
        assert(found =~= fallback_run(from, end));
    } else {
        law_fallback_runs_until_terminal(from + 1, primary, fallback, primary_ok, fallback_ok);
        assert(found =~= fallback_run(from, end));
    }
}

/// If the primary action `broken` is the first that fails, the primary actions are
/// carried out up to and with it, and then the fallback actions are.
pub proof fn law_failure_engages_fallback(
    from: int,
    broken: int,
    primary: Seq<AtomicAction>,
    fallback: Seq<AtomicAction>,
    primary_ok: spec_fn(int) -> bool,
    fallback_ok: spec_fn(int) -> bool,
)
    requires
        0 <= from <= broken < primary.len() <= usize::MAX,
        fallback.len() <= usize::MAX,
        forall|i: int| from <= i < broken ==> #[trigger] primary_ok(i),
        !primary_ok(broken),
    ensures
        phases_from(primary_phase(from, primary), primary, fallback, primary_ok, fallback_ok)
            == primary_run(from, broken + 1) + fallback_run(
            0,
            fallback_end(0, fallback, fallback_ok),
        ),
    decreases broken - from,
{
    let end = fallback_end(0, fallback, fallback_ok);
    let found = phases_from(
        primary_phase(from, primary),
        primary,
        fallback,
        primary_ok,
        fallback_ok,
    );
    if from == broken {
        law_fallback_runs_until_terminal(0, primary, fallback, primary_ok, fallback_ok);
        assert(found =~= primary_run(from, broken + 1) + fallback_run(0, end));
    } else {
        assert(primary_ok(from));
        law_failure_engages_fallback(
            from + 1,
            broken,
            primary,
            fallback,
            primary_ok,
            fallback_ok,
        );
        assert(found =~= primary_run(from, broken + 1) + fallback_run(0, end));
    }
}

} // verus!
