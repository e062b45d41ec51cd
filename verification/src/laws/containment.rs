//! Laws of containment: what actions ask for, how outcomes count, in which order a
//! playbook is carried out, and which orders find a worker.
use crate::config::AtomicAction;
use crate::dispatch::{SendOutcome, WorkerRegistry};
use crate::dispatch;
use crate::encoding;
use crate::firewall;
use crate::logger::LogEventView;
use crate::network::{IpAddress, IpNetwork};
use crate::network;
use crate::pipeline::{Phase, Pipeline};
use crate::pipeline;
use crate::text;
use crate::worker::{Plan, PlanView};
use crate::worker;
use vstd::prelude::*;

verus! {

/// A playbook begins with its first primary action, or is over if it has none: fallback
/// actions are never the first.
pub proof fn law_playbooks_begin_with_primary_actions(primary: Seq<AtomicAction>)
    requires
        primary.len() <= usize::MAX,
    ensures
        primary.len() > 0 ==> pipeline::primary_phase(0, primary) == (Phase::Primary { index: 0 }),
        primary.len() == 0 ==> pipeline::primary_phase(0, primary) is Over,
{
}

/// The action that is due is the one at the index of the phase, in the list of the
/// phase.
pub proof fn law_due_action_is_that_of_the_phase(run: Pipeline)
    ensures
        run.phase matches Phase::Primary { index } ==> run.due() == Some(
            run.try_actions@[index as int],
        ),
        run.phase matches Phase::Fallback { index } ==> run.due() == Some(
            run.final_actions@[index as int],
        ),
        run.phase is Over <==> run.due() is None,
{
}

/// Primary actions follow each other while they succeed; the first that fails leads to
/// the first fallback action, and no later primary action is carried out.
pub proof fn law_primary_actions_stop_at_the_first_failure(
    index: usize,
    primary: Seq<AtomicAction>,
    fallback: Seq<AtomicAction>,
)
    requires
        index < primary.len() <= usize::MAX,
        fallback.len() <= usize::MAX,
    ensures
        ({
            let good = pipeline::next_phase(Phase::Primary { index }, true, primary, fallback);
            let bad = pipeline::next_phase(Phase::Primary { index }, false, primary, fallback);
            &&& index + 1 < primary.len() ==> good == (Phase::Primary {
                index: (index + 1) as usize,
            })
            &&& index + 1 == primary.len() ==> good is Over
            &&& fallback.len() > 0 ==> bad == (Phase::Fallback { index: 0 })
            &&& fallback.len() == 0 ==> bad is Over
            &&& !(bad is Primary) && !(good is Fallback)
        }),
{
}

/// Only a successful restart, and a SIGKILL or SIGSTOP that was delivered, end the
/// fallback before its last action. After any other action, and after any that failed,
/// the next one is due.
pub proof fn law_fallback_ends_early_only_with_the_container(
    index: usize,
    succeeded: bool,
    primary: Seq<AtomicAction>,
    fallback: Seq<AtomicAction>,
)
    requires
        index + 1 < fallback.len() <= usize::MAX,
    ensures
        ({
            let next = pipeline::next_phase(
                Phase::Fallback { index },
                succeeded,
                primary,
                fallback,
            );
            let action = fallback[index as int];
            &&& next is Over <==> succeeded && (action is Restart || (action
                matches AtomicAction::ContainerSignal { signal } && (signal@ == "SIGKILL"@
                || signal@ == "SIGSTOP"@)))
            &&& !(next is Over) ==> next == (Phase::Fallback { index: (index + 1) as usize })
            &&& !succeeded ==> next == (Phase::Fallback { index: (index + 1) as usize })
            &&& action is NftBlacklist || action is Pause || action is Unpause || action
                is LogCritical || action is LogJson || action is ValidateState || action
                is CommitSnapshot || action is RunCustomScript || action is WebhookAlert ==> next
                == (Phase::Fallback { index: (index + 1) as usize })
        }),
{
}

/// The last fallback action ends the pipeline, and an ended pipeline stays so.
pub proof fn law_pipelines_come_to_an_end(
    index: usize,
    succeeded: bool,
    primary: Seq<AtomicAction>,
    fallback: Seq<AtomicAction>,
)
    requires
        index + 1 == fallback.len() <= usize::MAX,
    ensures
        pipeline::next_phase(Phase::Fallback { index }, succeeded, primary, fallback) is Over,
        pipeline::next_phase(Phase::Over, succeeded, primary, fallback) is Over,
{
}

/// What is logged of a primary action: nothing of one that succeeded; of one that failed
/// the action with its failure, and then that the fallback is engaged.
pub proof fn law_primary_failures_are_logged_and_escalated(
    index: usize,
    why: Seq<char>,
    primary: Seq<AtomicAction>,
    fallback: Seq<AtomicAction>,
    id: Seq<char>,
    rule: Seq<char>,
)
    ensures
        pipeline::report_entries(
            Phase::Primary { index },
            None,
            primary,
            fallback,
            id,
            rule,
        ).len() == 0,
        ({
            let log = pipeline::report_entries(
                Phase::Primary { index },
                Some(why),
                primary,
                fallback,
                id,
                rule,
            );
            &&& log.len() == 2
            &&& log[0].level == "WARN"@ && log[0].status == "FAILURE"@
            &&& log[0].details == "Primary playbook action failed structural context: "@ + why
            &&& log[0].action == Some(pipeline::action_words(primary[index as int]))
            &&& log[1].level == "CRITICAL"@ && log[1].status == "ENGAGED"@
            &&& log[1].action == Some("escalation_routing"@)
            &&& log[1].details
                == "Primary playbook failed structural strategy. Deploying fallback containment actions."@
            &&& forall|i: int|
                0 <= i < 2 ==> (#[trigger] log[i]).container_id == Some(id) && log[i].rule == Some(
                    rule,
                ) && log[i].component == "worker_engine"@ && log[i].ip is None
        }),
{
}

/// What is logged of a fallback action: its failure as a crash, its success as such, and
/// that the chain is halted exactly where it is.
pub proof fn law_fallback_outcomes_are_logged(
    index: usize,
    fault: Option<Seq<char>>,
    primary: Seq<AtomicAction>,
    fallback: Seq<AtomicAction>,
    id: Seq<char>,
    rule: Seq<char>,
)
    ensures
        ({
            let action = fallback[index as int];
            let log = pipeline::report_entries(
                Phase::Fallback { index },
                fault,
                primary,
                fallback,
                id,
                rule,
            );
            let halted = fault is None && (action is Restart || (action
                matches AtomicAction::ContainerSignal { signal } && (signal@ == "SIGKILL"@
                || signal@ == "SIGSTOP"@)));
            &&& log.len() == (if halted {
                2nat
            } else {
                1
            })
            &&& log[0].action == Some(pipeline::action_words(action))
            &&& fault is None ==> log[0].status == "SUCCESS"@ && log[0].level == "INFO"@
                && log[0].details == "Emergency fallback action executed successfully."@
            &&& fault is Some ==> log[0].status == "CRASH"@ && log[0].level == "CRITICAL"@
                && log[0].details == "EMERGENCY CONTAINMENT FAILURE: "@ + fault->0
            &&& halted ==> log[1].status == "HALTED"@ && log[1].level == "CRITICAL"@
                && log[1].action is None
            &&& halted && action is Restart ==> log[1].details
                == "Container runtime restarted. Short-circuiting remaining fallback chain."@
            &&& halted && action is ContainerSignal ==> log[1].details
                == "Terminal signal delivered. Short-circuiting remaining fallback chain."@
            &&& forall|i: int|
                0 <= i < log.len() ==> (#[trigger] log[i]).container_id == Some(id) && log[i].rule
                    == Some(rule) && log[i].component == "worker_engine"@ && log[i].ip is None
        }),
{
}

/// The failure that is reported is that of the action, and success reports none.
pub proof fn law_reported_fault_is_that_of_the_action(outcome: Result<(), String>)
    ensures
        outcome is Ok ==> pipeline::fault_of(outcome) is None,
        outcome matches Err(why) ==> pipeline::fault_of(outcome) == Some(why@),
{
}

/// How an action is printed: its name, and its fields with their values in order.
pub proof fn law_actions_print_their_fields(action: AtomicAction)
    ensures
        action is ValidateState ==> pipeline::action_words(action) == "ValidateState"@,
        action is LogJson ==> pipeline::action_words(action) == "LogJson"@,
        action is Pause ==> pipeline::action_words(action) == "Pause"@,
        action is Unpause ==> pipeline::action_words(action) == "Unpause"@,
        action is Restart ==> pipeline::action_words(action) == "Restart"@,
        action is LogCritical ==> pipeline::action_words(action) == "LogCritical"@,
        action matches AtomicAction::CommitSnapshot { prefix } ==> pipeline::action_words(action)
            == "CommitSnapshot"@ + " { "@ + "prefix"@ + ": "@ + encoding::debug_form(prefix@)
            + " }"@,
        action matches AtomicAction::NftBlacklist { set_name, timeout } ==> pipeline::action_words(
            action,
        ) == "NftBlacklist { set_name: "@ + encoding::debug_form(set_name@) + ", timeout: "@
            + encoding::debug_form(timeout@) + " }"@,
        action matches AtomicAction::ContainerSignal { signal } ==> pipeline::action_words(action)
            == "ContainerSignal"@ + " { "@ + "signal"@ + ": "@ + encoding::debug_form(signal@)
            + " }"@,
        action matches AtomicAction::RunCustomScript { path } ==> pipeline::action_words(action)
            == "RunCustomScript { path: "@ + encoding::path_debug_form(path@) + " }"@,
        action matches AtomicAction::WebhookAlert { url } ==> pipeline::action_words(action)
            == "WebhookAlert"@ + " { "@ + "url"@ + ": "@ + encoding::debug_form(url@) + " }"@,
{
}

/// A reply of success satisfies every request that changes a container, whichever of the
/// codes of success it bears.
pub proof fn law_success_codes_satisfy_the_engine_actions(
    action: AtomicAction,
    status: u16,
    body: Seq<char>,
)
    requires
        action is Pause || action is Unpause || action is Restart || action is CommitSnapshot
            || action is ContainerSignal,
        200 <= status,
        status <= 299,
    ensures
        worker::engine_complied(action, status, body),
{
}

/// Other codes are failures, but that pausing, resuming and signalling count as done if
/// the engine reports a conflict.
pub proof fn law_other_codes_are_failures(action: AtomicAction, status: u16, body: Seq<char>)
    requires
        status < 200 || status >= 300,
    ensures
        action is Restart || action is CommitSnapshot || action is ValidateState
            ==> !worker::engine_complied(action, status, body),
        action is Pause || action is Unpause || action is ContainerSignal ==> (
        worker::engine_complied(action, status, body) <==> status == 409),
{
}

/// A container counts as running only if the engine answers 200 and says so, with or
/// without a blank behind the colon.
pub proof fn law_running_is_what_the_engine_says(status: u16, body: Seq<char>)
    ensures
        worker::engine_complied(AtomicAction::ValidateState, status, body) <==> status == 200 && (
        (exists|i: int| text::occurs_at(body, "\"Running\": true"@, i)) || exists|i: int|
            text::occurs_at(body, "\"Running\":true"@, i)),
{
}

/// The engine's answer to anything but a state check counts by its code alone.
pub proof fn law_bodies_count_only_for_state_checks(
    action: AtomicAction,
    status: u16,
    one: Seq<char>,
    other: Seq<char>,
)
    requires
        !(action is ValidateState),
    ensures
        worker::engine_complied(action, status, one) == worker::engine_complied(
            action,
            status,
            other,
        ),
{
}

/// What is said of a refusal names the request, the code and what the engine answered.
pub proof fn law_refusals_name_their_request(action: AtomicAction, status: u16, body: Seq<char>)
    ensures
        action is Pause ==> worker::engine_fault(action, status, body)
            == "Pause mutation"@ + " rejected (HTTP "@ + text::decimal(status as nat) + "): "@
            + body,
        action is Unpause ==> worker::engine_fault(action, status, body) == "Unpause mutation"@
            + " rejected (HTTP "@ + text::decimal(status as nat) + "): "@ + body,
        action is Restart ==> worker::engine_fault(action, status, body) == "Restart mutation"@
            + " rejected (HTTP "@ + text::decimal(status as nat) + "): "@ + body,
        action is CommitSnapshot ==> worker::engine_fault(action, status, body)
            == "CommitSnapshot"@ + " rejected (HTTP "@ + text::decimal(status as nat) + "): "@
            + body,
        action is ContainerSignal ==> worker::engine_fault(action, status, body)
            == "ContainerSignal"@ + " rejected (HTTP "@ + text::decimal(status as nat) + "): "@
            + body,
        action is ValidateState && status == 200 ==> worker::engine_fault(action, status, body)
            == "Container is no longer in a running state. Aborting containment to prevent TOCTOU misfires."@,
        action is ValidateState && status != 200 ==> worker::engine_fault(action, status, body)
            == "State validation rejected (HTTP "@ + text::decimal(status as nat)
            + "). Container likely terminated."@,
{
}

/// What the log says of a container that was found running.
pub proof fn law_running_containers_are_logged(id: Seq<char>)
    ensures
        worker::running_entry(id).level == "INFO"@,
        worker::running_entry(id).component == "worker_engine"@,
        worker::running_entry(id).status == "SUCCESS"@,
        worker::running_entry(id).container_id == Some(id),
        worker::running_entry(id).action == Some("validate_state"@),
        worker::running_entry(id).details
            == "Container state verified as active. Proceeding with containment pipeline."@,
        worker::running_entry(id).rule is None && worker::running_entry(id).ip is None,
{
}

/// Each action that changes a container asks the engine, by POST, for that change of that
/// very container; the state check asks by GET.
pub proof fn law_engine_requests_name_the_container(
    action: AtomicAction,
    id: Seq<char>,
    timestamp: nat,
)
    ensures
        action is ValidateState ==> worker::plan_of(action, id, timestamp) == (PlanView::Engine {
            method: "GET"@,
            path: "/containers/"@ + id + "/json"@,
        }),
        action is Pause ==> worker::plan_of(action, id, timestamp) == (PlanView::Engine {
            method: "POST"@,
            path: "/containers/"@ + id + "/pause"@,
        }),
        action is Unpause ==> worker::plan_of(action, id, timestamp) == (PlanView::Engine {
            method: "POST"@,
            path: "/containers/"@ + id + "/unpause"@,
        }),
        action is Restart ==> worker::plan_of(action, id, timestamp) == (PlanView::Engine {
            method: "POST"@,
            path: "/containers/"@ + id + "/restart"@,
        }),
        action matches AtomicAction::ContainerSignal { signal } ==> worker::plan_of(
            action,
            id,
            timestamp,
        ) == (PlanView::Engine {
            method: "POST"@,
            path: "/containers/"@ + id + "/kill?signal="@ + signal@,
        }),
        action matches AtomicAction::CommitSnapshot { prefix } ==> worker::plan_of(
            action,
            id,
            timestamp,
        ) == (PlanView::Engine {
            method: "POST"@,
            path: "/commit?container="@ + id + "&repo="@ + prefix@ + "-"@ + id + "-"@
                + text::decimal(timestamp) + "&tag=latest"@,
        }),
        worker::is_engine_action(action) <==> !(action is LogJson || action is LogCritical || action
            is NftBlacklist || action is RunCustomScript || action is WebhookAlert),
{
}

/// Entries of the log, scripts and alerts are planned with the values of the action.
pub proof fn law_other_plans_carry_the_action(action: AtomicAction, id: Seq<char>, timestamp: nat)
    ensures
        action matches AtomicAction::RunCustomScript { path } ==> worker::plan_of(
            action,
            id,
            timestamp,
        ) == (PlanView::Script { path: path@ }),
        action is LogJson ==> (worker::plan_of(action, id, timestamp) matches PlanView::Record {
            event,
        } && event.level == "INFO"@ && event.status == "AUDIT"@ && event.container_id == Some(id)
            && event.action == Some("log_json"@) && event.component == "worker_engine"@
            && event.details == "Standard signature verification telemetry logged."@),
        action is LogCritical ==> (worker::plan_of(action, id, timestamp)
            matches PlanView::Record { event } && event.level == "CRITICAL"@ && event.status
            == "ALERT"@ && event.container_id == Some(id) && event.action == Some("log_critical"@)
            && event.component == "worker_engine"@ && event.details
            == "Security policy remediation loop engaged."@),
        action matches AtomicAction::WebhookAlert { url } ==> (worker::plan_of(
            action,
            id,
            timestamp,
        ) matches PlanView::Webhook { args } && args.len() == 11 && args.last() == url@ && args[9]
            == "{\"text\":\"[SENTRY-GUARD] Active containment pipeline triggered for container context: "@
            + id + "\"}"@ && args[8] == "--data"@ && args.take(8) == seq![
            "-X"@,
            "POST"@,
            "-H"@,
            "Content-Type: application/json"@,
            "--max-time"@,
            "5"@,
            "--connect-timeout"@,
            "3"@,
        ]),
{
    if let AtomicAction::WebhookAlert { url } = action {
        assert(worker::webhook_args(id, url@).take(8) =~= seq![
            "-X"@,
            "POST"@,
            "-H"@,
            "Content-Type: application/json"@,
            "--max-time"@,
            "5"@,
            "--connect-timeout"@,
            "3"@,
        ]);
    }
}

/// From the action to the command: blocking a container whose one address is off the
/// whitelist adds that address to the set that the action names, for the time that the
/// action names, in the table of the configuration.
pub proof fn law_blacklisting_reaches_the_set_of_the_action(
    action: AtomicAction,
    id: Seq<char>,
    timestamp: nat,
    address: IpAddress,
    whitelist: Seq<IpNetwork>,
    table: Seq<char>,
)
    requires
        action is NftBlacklist,
        forall|i: int| 0 <= i < whitelist.len() ==> !(#[trigger] whitelist[i]).has(address),
    ensures
        worker::plan_of(action, id, timestamp) is Block,
        action matches AtomicAction::NftBlacklist { set_name, timeout } ==> ({
            let plan = worker::plan_of(action, id, timestamp);
            let commands = firewall::block_commands(
                seq![address],
                whitelist,
                plan->Block_set_name,
                plan->Block_timeout,
                table,
            );
            &&& commands.len() == 1
            &&& commands[0] == seq!["add"@, "element"@] + text::words(table) + seq![
                set_name@,
                "{ "@ + address.words() + " timeout "@ + timeout@ + " "@
                    + "comment \"runsc-sentry-guard\""@ + " }"@,
            ]
        }),
{
    if let AtomicAction::NftBlacklist { set_name, timeout } = action {
        let targets = seq![address];
        assert(targets.drop_first() =~= Seq::<IpAddress>::empty());
        assert(!network::is_whitelisted(address, whitelist));
        let rest = firewall::block_commands(
            targets.drop_first(),
            whitelist,
            set_name@,
            timeout@,
            table,
        );
        assert(rest =~= Seq::<Seq<Seq<char>>>::empty());
        let commands = firewall::block_commands(targets, whitelist, set_name@, timeout@, table);
        assert(commands =~= seq![
            firewall::block_command(address.words(), set_name@, timeout@, table),
        ]);
        assert(commands[0] =~= seq!["add"@, "element"@] + text::words(table) + seq![
            set_name@,
            "{ "@ + address.words() + " timeout "@ + timeout@ + " "@
                + "comment \"runsc-sentry-guard\""@ + " }"@,
        ]);
    }
}

/// What a plan holds is what its fields hold.
pub proof fn law_plans_show_their_fields(plan: Plan)
    ensures
        plan matches Plan::Record { event } ==> plan@ == (PlanView::Record { event: event@ }),
        plan matches Plan::Webhook { args } ==> plan@ == (PlanView::Webhook {
            args: text::views(args@),
        }),
        plan matches Plan::Engine { method, path } ==> plan@ == (PlanView::Engine {
            method: method@,
            path: path@,
        }),
        plan matches Plan::Script { path } ==> plan@ == (PlanView::Script { path: path@ }),
        plan matches Plan::Block { set_name, timeout } ==> plan@ == (PlanView::Block {
            set_name: set_name@,
            timeout: timeout@,
        }),
{
}

/// A script is told the container, all of its addresses in order, or that none is known,
/// and the line that set the playbook off.
pub proof fn law_scripts_are_told_everything(
    id: Seq<char>,
    addresses: Seq<IpAddress>,
    trigger: Seq<char>,
)
    ensures
        worker::script_arguments(id, addresses, trigger).len() == 3,
        worker::script_arguments(id, addresses, trigger)[0] == id,
        worker::script_arguments(id, addresses, trigger)[2] == trigger,
        addresses.len() == 0 ==> worker::script_arguments(id, addresses, trigger)[1]
            == "UNKNOWN_IP"@,
        addresses.len() == 1 ==> worker::script_arguments(id, addresses, trigger)[1]
            == addresses[0].words(),
        addresses.len() > 0 ==> worker::script_arguments(id, addresses, trigger)[1]
            == text::joined(Seq::new(addresses.len(), |i: int| addresses[i].words()), ","@),
{
    let texts = worker::address_texts(addresses);
    assert(texts =~= Seq::new(addresses.len(), |i: int| addresses[i].words()));
    if addresses.len() == 1 {
        assert(texts.drop_last() =~= Seq::<Seq<char>>::empty());
        assert(text::joined(texts, ","@) =~= addresses[0].words());
    }
}

/// How the exit code of a process is printed.
pub proof fn law_exit_codes_are_printed(code: i32)
    ensures
        worker::code_words(None) == "None"@,
        code >= 0 ==> worker::code_words(Some(code)) == "Some("@ + text::decimal(code as nat)
            + ")"@,
        code < 0 ==> worker::code_words(Some(code)) == "Some("@ + ("-"@ + text::decimal(
            (-(code as int)) as nat,
        )) + ")"@,
{
}

/// What the log says when an order finds no place, and when it cannot be handed over.
pub proof fn law_lost_orders_are_logged(rule: Seq<char>, id: Seq<char>)
    ensures
        ({
            let full = dispatch::ceiling_entry(rule, id);
            &&& full.level == "CRITICAL"@ && full.component == "orchestrator"@
            &&& full.status == "OOM_PREVENTION"@ && full.action == Some("route"@)
            &&& full.rule == Some(rule) && full.container_id == Some(id) && full.ip is None
            &&& full.details
                == "Maximum worker thread ceiling reached. Malicious ID flood detected. Payload dropped."@
        }),
        dispatch::send_entry(SendOutcome::Sent, rule, id) is None,
        dispatch::send_entry(SendOutcome::Full, rule, id) matches Some(entry) && entry.level
            == "CRITICAL"@ && entry.status == "DROPPED"@ && entry.rule == Some(rule)
            && entry.container_id == Some(id) && entry.details
            == "Worker execution queue full. Action dropped to prevent OOM."@,
        dispatch::send_entry(SendOutcome::Disconnected, rule, id) matches Some(entry)
            && entry.level == "ERROR"@ && entry.status == "FAIL"@ && entry.rule == Some(rule)
            && entry.container_id == Some(id) && entry.details
            == "Worker channel broken unexpectedly."@,
{
}

/// A registry within its ceiling has no more workers than it may have.
pub proof fn law_worker_ceiling_is_a_ceiling<T>(registry: WorkerRegistry<T>)
    requires
        registry.within_ceiling(),
    ensures
        registry.workers@.dom().finite(),
        registry.workers@.dom().len() <= registry.max_workers,
{
}

/// Nothing is logged of a pipeline that is over, and a log is seen entry by entry.
pub proof fn law_logs_show_their_entries(
    log: Seq<crate::logger::LogEvent>,
    i: int,
    fault: Option<Seq<char>>,
    primary: Seq<AtomicAction>,
    fallback: Seq<AtomicAction>,
    id: Seq<char>,
    rule: Seq<char>,
)
    ensures
        pipeline::report_entries(Phase::Over, fault, primary, fallback, id, rule).len() == 0,
        pipeline::entries(log).len() == log.len(),
        0 <= i < log.len() ==> pipeline::entries(log)[i] == log[i]@,
{
}

/// A worker goes after thirty seconds without an order, of which sixty-four may wait for
/// it, and a script after fifteen seconds.
pub proof fn law_workers_and_scripts_have_their_limits()
    ensures
        dispatch::WORKER_IDLE_SECONDS == 30,
        dispatch::WORKER_QUEUE_DEPTH == 64,
        worker::SCRIPT_LIMIT_SECONDS == 15,
{
}

/// Whatever is logged of the routing of an order says so, and of what.
pub proof fn law_routing_entries_name_the_order(
    level: Seq<char>,
    rule: Seq<char>,
    id: Seq<char>,
    status: Seq<char>,
    details: Seq<char>,
)
    ensures
        dispatch::route_entry(level, rule, id, status, details) == (LogEventView {
            level,
            component: "orchestrator"@,
            rule: Some(rule),
            container_id: Some(id),
            ip: None,
            action: Some("route"@),
            status,
            details,
        }),
        dispatch::send_entry(SendOutcome::Full, rule, id) matches Some(entry) && entry.component
            == "orchestrator"@ && entry.action == Some("route"@),
        dispatch::send_entry(SendOutcome::Disconnected, rule, id) matches Some(entry)
            && entry.component == "orchestrator"@ && entry.action == Some("route"@),
{
}

} // verus!
