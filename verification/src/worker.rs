//! Containment: what each action of a playbook asks for, and how its outcome is
//! judged.
use crate::config::AtomicAction;
use crate::limiters::NANOS_PER_SECOND;
use crate::logger::{LogEvent, LogEventView};
use crate::network::IpAddress;
use crate::text;
use vstd::prelude::*;

verus! {

/// How long an extension script may run, in seconds.
pub const SCRIPT_LIMIT_SECONDS: u128 = 15;

/// What stands in place of the addresses of a container that has none.
pub const UNKNOWN_IP: &'static str = "UNKNOWN_IP";

/// What an action asks for.
#[derive(Debug)]
pub enum Plan {
    /// An entry of the log.
    Record { event: LogEvent },
    /// A run of `curl`.
    Webhook { args: Vec<String> },
    /// A request to the engine.
    Engine { method: String, path: String },
    /// A run of a script, with the addresses of the container.
    Script { path: String },
    /// Blocking the addresses of the container.
    Block { set_name: String, timeout: String },
}

/// A `Plan` by the characters of its texts.
pub enum PlanView {
    Record { event: LogEventView },
    Webhook { args: Seq<Seq<char>> },
    Engine { method: Seq<char>, path: Seq<char> },
    Script { path: Seq<char> },
    Block { set_name: Seq<char>, timeout: Seq<char> },
}

impl View for Plan {
    type V = PlanView;

    open spec fn view(&self) -> PlanView {
        match *self {
            Plan::Record { event } => PlanView::Record { event: event@ },
            Plan::Webhook { args } => PlanView::Webhook { args: text::views(args@) },
            Plan::Engine { method, path } => PlanView::Engine { method: method@, path: path@ },
            Plan::Script { path } => PlanView::Script { path: path@ },
            Plan::Block { set_name, timeout } => PlanView::Block {
                set_name: set_name@,
                timeout: timeout@,
            },
        }
    }
}

/// The arguments of `curl` that report a container to a URL.
pub open spec fn webhook_args(container_id: Seq<char>, url: Seq<char>) -> Seq<Seq<char>> {
    seq![
        "-X"@,
        "POST"@,
        "-H"@,
        "Content-Type: application/json"@,
        "--max-time"@,
        "5"@,
        "--connect-timeout"@,
        "3"@,
        "--data"@,
        "{\"text\":\"[SENTRY-GUARD] Active containment pipeline triggered for container context: "@
            + container_id + "\"}"@,
        url,
    ]
}

/// What an action asks for, at `timestamp`, in seconds since the epoch.
pub open spec fn plan_of(action: AtomicAction, container_id: Seq<char>, timestamp: nat) -> PlanView {
    match action {
        AtomicAction::WebhookAlert { url } => PlanView::Webhook {
            args: webhook_args(container_id, url@),
        },
        AtomicAction::RunCustomScript { path } => PlanView::Script { path: path@ },
        AtomicAction::LogJson => PlanView::Record {
            event: LogEventView::plain(
                "INFO"@,
                "worker_engine"@,
                "AUDIT"@,
                "Standard signature verification telemetry logged."@,
            ).about(container_id).on_action("log_json"@),
        },
        AtomicAction::LogCritical => PlanView::Record {
            event: LogEventView::plain(
                "CRITICAL"@,
                "worker_engine"@,
                "ALERT"@,
                "Security policy remediation loop engaged."@,
            ).about(container_id).on_action("log_critical"@),
        },
        AtomicAction::ValidateState => PlanView::Engine {
            method: "GET"@,
            path: "/containers/"@ + container_id + "/json"@,
        },
        AtomicAction::Pause => PlanView::Engine {
            method: "POST"@,
            path: "/containers/"@ + container_id + "/pause"@,
        },
        AtomicAction::Unpause => PlanView::Engine {
            method: "POST"@,
            path: "/containers/"@ + container_id + "/unpause"@,
        },
        AtomicAction::Restart => PlanView::Engine {
            method: "POST"@,
            path: "/containers/"@ + container_id + "/restart"@,
        },
        AtomicAction::CommitSnapshot { prefix } => PlanView::Engine {
            method: "POST"@,
            path: "/commit?container="@ + container_id + "&repo="@ + prefix@ + "-"@ + container_id
                + "-"@ + text::decimal(timestamp) + "&tag=latest"@,
        },
        AtomicAction::ContainerSignal { signal } => PlanView::Engine {
            method: "POST"@,
            path: "/containers/"@ + container_id + "/kill?signal="@ + signal@,
        },
        AtomicAction::NftBlacklist { set_name, timeout } => PlanView::Block {
            set_name: set_name@,
            timeout: timeout@,
        },
    }
}

/// The path of a request about a container.
fn container_path(container_id: &str, tail: &str) -> (r: String)
    ensures
        r@ == "/containers/"@ + container_id@ + tail@,
{
    let mut path = "/containers/".to_owned();
    path.append(container_id);
    path.append(tail);
    path
}

/// Writes the arguments of `curl` that report a container to a URL.
fn write_webhook_args(container_id: &str, url: &str) -> (r: Vec<String>)
    ensures
        text::views(r@) == webhook_args(container_id@, url@),
{
    let mut payload =
        "{\"text\":\"[SENTRY-GUARD] Active containment pipeline triggered for container context: ".to_owned();
    payload.append(container_id);
    payload.append("\"}");
    let mut args: Vec<String> = Vec::new();
    text::push_text(&mut args, "-X");
    text::push_text(&mut args, "POST");
    text::push_text(&mut args, "-H");
    text::push_text(&mut args, "Content-Type: application/json");
    text::push_text(&mut args, "--max-time");
    text::push_text(&mut args, "5");
    text::push_text(&mut args, "--connect-timeout");
    text::push_text(&mut args, "3");
    text::push_text(&mut args, "--data");
    text::push_text(&mut args, payload.as_str());
    text::push_text(&mut args, url);
    assert(text::views(args@) =~= webhook_args(container_id@, url@));
    args
}

/// Says what an action on a container asks for.
pub fn plan_action(action: &AtomicAction, container_id: &str, timestamp: u64) -> (r: Plan)
    ensures
        r@ == plan_of(*action, container_id@, timestamp as nat),
        action matches AtomicAction::NftBlacklist { set_name, timeout } ==> (r
            matches Plan::Block { set_name: set, timeout: time } && set@ == set_name@ && time@
            == timeout@),
        action matches AtomicAction::RunCustomScript { path } ==> (r matches Plan::Script {
            path: script,
        } && script@ == path@),
        is_engine_action(*action) <==> r is Engine,
        r is Record <==> action is LogJson || action is LogCritical,
        r is Webhook <==> action is WebhookAlert,
{
    match action {
        AtomicAction::WebhookAlert { url } => Plan::Webhook {
            args: write_webhook_args(container_id, url.as_str()),
        },
        AtomicAction::RunCustomScript { path } => Plan::Script { path: path.clone() },
        AtomicAction::LogJson => Plan::Record {
            event: LogEvent::plain(
                "INFO",
                "worker_engine",
                "AUDIT",
                "Standard signature verification telemetry logged.".to_owned(),
            ).about(container_id).on_action("log_json"),
        },
        AtomicAction::LogCritical => Plan::Record {
            event: LogEvent::plain(
                "CRITICAL",
                "worker_engine",
                "ALERT",
                "Security policy remediation loop engaged.".to_owned(),
            ).about(container_id).on_action("log_critical"),
        },
        AtomicAction::ValidateState => Plan::Engine {
            method: "GET".to_owned(),
            path: container_path(container_id, "/json"),
        },
        AtomicAction::Pause => Plan::Engine {
            method: "POST".to_owned(),
            path: container_path(container_id, "/pause"),
        },
        AtomicAction::Unpause => Plan::Engine {
            method: "POST".to_owned(),
            path: container_path(container_id, "/unpause"),
        },
        AtomicAction::Restart => Plan::Engine {
            method: "POST".to_owned(),
            path: container_path(container_id, "/restart"),
        },
        AtomicAction::CommitSnapshot { prefix } => {
            let mut path = "/commit?container=".to_owned();
            path.append(container_id);
            path.append("&repo=");
            path.append(prefix.as_str());
            path.append("-");
            path.append(container_id);
            path.append("-");
            path.append(text::decimal_text(timestamp).as_str());
            path.append("&tag=latest");
            Plan::Engine { method: "POST".to_owned(), path }
        },
        AtomicAction::ContainerSignal { signal } => {
            let mut path = container_path(container_id, "/kill?signal=");
            path.append(signal.as_str());
            Plan::Engine { method: "POST".to_owned(), path }
        },
        AtomicAction::NftBlacklist { set_name, timeout } => Plan::Block {
            set_name: set_name.clone(),
            timeout: timeout.clone(),
        },
    }
}

/// The action asks something of the engine.
pub open spec fn is_engine_action(action: AtomicAction) -> bool {
    ||| action is ValidateState
    ||| action is Pause
    ||| action is Unpause
    ||| action is Restart
    ||| action is CommitSnapshot
    ||| action is ContainerSignal
}

/// The engine calls the container a running one.
pub open spec fn says_running(body: Seq<char>) -> bool {
    ||| text::contains_text(body, "\"Running\": true"@)
    ||| text::contains_text(body, "\"Running\":true"@)
}

/// The engine did what the action asked for. Pausing, resuming and signalling count
/// as done where the engine reports a conflict with the state that is wanted.
pub open spec fn engine_complied(action: AtomicAction, status: u16, body: Seq<char>) -> bool {
    match action {
        AtomicAction::ValidateState => status == 200 && says_running(body),
        AtomicAction::Restart => 200 <= status < 300,
        AtomicAction::CommitSnapshot { .. } => 200 <= status < 300,
        _ => 200 <= status < 300 || status == 409,
    }
}

/// What is called rejected if an action fails.
pub open spec fn mutation_name(action: AtomicAction) -> Seq<char> {
    match action {
        AtomicAction::Pause => "Pause mutation"@,
        AtomicAction::Unpause => "Unpause mutation"@,
        AtomicAction::Restart => "Restart mutation"@,
        AtomicAction::CommitSnapshot { .. } => "CommitSnapshot"@,
        _ => "ContainerSignal"@,
    }
}

/// What is said of a reply that does not comply with an action.
pub open spec fn engine_fault(action: AtomicAction, status: u16, body: Seq<char>) -> Seq<char> {
    if action is ValidateState {
        if status == 200 {
            "Container is no longer in a running state. Aborting containment to prevent TOCTOU misfires."@
        } else {
            "State validation rejected (HTTP "@ + text::decimal(status as nat)
                + "). Container likely terminated."@
        }
    } else {
        mutation_name(action) + " rejected (HTTP "@ + text::decimal(status as nat) + "): "@ + body
    }
}

/// What the log says of a container that was found running.
pub open spec fn running_entry(container_id: Seq<char>) -> LogEventView {
    LogEventView::plain(
        "INFO"@,
        "worker_engine"@,
        "SUCCESS"@,
        "Container state verified as active. Proceeding with containment pipeline."@,
    ).about(container_id).on_action("validate_state"@)
}

/// Judges the reply of the engine to an action. Finding a container running is worth
/// an entry of the log.
pub fn judge_engine_reply(
    action: &AtomicAction,
    container_id: &str,
    status: u16,
    body: &str,
) -> (r: Result<Option<LogEvent>, String>)
    requires
        is_engine_action(*action),
    ensures
        r is Ok <==> engine_complied(*action, status, body@),
        r is Err ==> r->Err_0@ == engine_fault(*action, status, body@),
        r matches Ok(entry) ==> (entry is Some <==> action is ValidateState),
        r matches Ok(Some(event)) ==> event@ == running_entry(container_id@),
        !(action is ValidateState) && 200 <= status < 300 ==> r is Ok,
        (action is Restart || action is CommitSnapshot) && !(200 <= status < 300) ==> r is Err,
        (action is Pause || action is Unpause || action is ContainerSignal) ==> (r is Ok <==> 200
            <= status < 300 || status == 409),
        action is ValidateState ==> (r is Ok <==> status == 200 && (text::contains_text(
            body@,
            "\"Running\": true"@,
        ) || text::contains_text(body@, "\"Running\":true"@))),
{
    let done = 200 <= status && status < 300;
    let name = match action {
        AtomicAction::ValidateState => {
            if status != 200 {
                let mut fault = "State validation rejected (HTTP ".to_owned();
                fault.append(text::decimal_text(status as u64).as_str());
                fault.append("). Container likely terminated.");
                return Err(fault);
            }
            if text::contains(body, "\"Running\": true") || text::contains(
                body,
                "\"Running\":true",
            ) {
                return Ok(
                    Some(
                        LogEvent::plain(
                            "INFO",
                            "worker_engine",
                            "SUCCESS",
                            "Container state verified as active. Proceeding with containment pipeline.".to_owned(),
                        ).about(container_id).on_action("validate_state"),
                    ),
                );
            }
            return Err(
                "Container is no longer in a running state. Aborting containment to prevent TOCTOU misfires.".to_owned(),
            );
        },
        AtomicAction::Pause => {
            if done || status == 409 {
                return Ok(None);
            }
            "Pause mutation"
        },
        AtomicAction::Unpause => {
            if done || status == 409 {
                return Ok(None);
            }
            "Unpause mutation"
        },
        AtomicAction::Restart => {
            if done {
                return Ok(None);
            }
            "Restart mutation"
        },
        AtomicAction::CommitSnapshot { .. } => {
            if done {
                return Ok(None);
            }
            "CommitSnapshot"
        },
        _ => {
            if done || status == 409 {
                return Ok(None);
            }
            "ContainerSignal"
        },
    };
    let mut fault = name.to_owned();
    fault.append(" rejected (HTTP ");
    fault.append(text::decimal_text(status as u64).as_str());
    fault.append("): ");
    fault.append(body);
    Err(fault)
}

/// How the exit code of a process is printed.
pub open spec fn code_words(code: Option<i32>) -> Seq<char> {
    match code {
        Some(n) => "Some("@ + text::signed_decimal(n as int) + ")"@,
        None => "None"@,
    }
}

/// Judges how `curl` ended.
pub fn judge_webhook(success: bool, code: Option<i32>) -> (r: Result<(), String>)
    ensures
        r is Ok <==> success,
        r is Err ==> r->Err_0@
            == "Webhook dispatch failed. curl exited with non-zero status code: "@ + code_words(
            code,
        ),
{
    if success {
        return Ok(());
    }
    let mut fault =
        "Webhook dispatch failed. curl exited with non-zero status code: ".to_owned();
    match code {
        Some(n) => {
            let mut shown = "Some(".to_owned();
            shown.append(text::signed_text(n).as_str());
            shown.append(")");
            fault.append(shown.as_str());
        },
        None => {
            fault.append("None");
        },
    }
    Err(fault)
}

/// The texts of a list of addresses.
pub open spec fn address_texts(addresses: Seq<IpAddress>) -> Seq<Seq<char>> {
    addresses.map_values(|a: IpAddress| a.words())
}

/// The arguments of an extension script: the container, its addresses, the line that
/// set the playbook off.
pub open spec fn script_arguments(
    container_id: Seq<char>,
    addresses: Seq<IpAddress>,
    trigger_message: Seq<char>,
) -> Seq<Seq<char>> {
    let shown = if addresses.len() == 0 {
        UNKNOWN_IP@
    } else {
        text::joined(address_texts(addresses), ","@)
    };
    seq![container_id, shown, trigger_message]
}

/// Writes the arguments of an extension script.
pub fn script_args(
    container_id: &str,
    addresses: &Vec<IpAddress>,
    trigger_message: &str,
) -> (r: Vec<String>)
    ensures
        text::views(r@) == script_arguments(container_id@, addresses@, trigger_message@),
{
    let mut texts: Vec<String> = Vec::new();
    let mut i: usize = 0;
    assert(text::views(texts@) =~= address_texts(addresses@.take(0)));
    while i < addresses.len()
        invariant
            i <= addresses@.len(),
            text::views(texts@) == address_texts(addresses@.take(i as int)),
        decreases addresses@.len() - i,
    {
        text::push_text(&mut texts, addresses[i].text().as_str());
        assert(text::views(texts@) =~= address_texts(addresses@.take(i + 1)));
        i += 1;
    }
    assert(addresses@.take(i as int) =~= addresses@);
    let shown = if addresses.len() == 0 {
        UNKNOWN_IP.to_owned()
    } else {
        assert(texts@.map_values(|part: String| part@) =~= address_texts(addresses@));
        text::join(&texts, ",")
    };
    let mut args: Vec<String> = Vec::new();
    text::push_text(&mut args, container_id);
    text::push_text(&mut args, shown.as_str());
    text::push_text(&mut args, trigger_message);
    assert(text::views(args@) =~= script_arguments(container_id@, addresses@, trigger_message@));
    args
}

/// What is known of a script that was started.
#[derive(Debug)]
pub enum ScriptState {
    /// It ended, with a status that prints as given.
    Exited { success: bool, status: String },
    /// It runs.
    Running,
    /// Its state could not be found out.
    Unknown { cause: String },
}

/// What is to be done about a script.
#[derive(Debug)]
pub enum ScriptVerdict {
    /// It did its work.
    Succeeded,
    /// It is to be left to run on.
    Wait,
    /// It failed.
    Failed { fault: String },
    /// It is to be killed, and counts as failed.
    Kill { fault: String },
}

/// Decides about a script that was started `elapsed` nanoseconds ago. One that runs
/// longer than its limit is killed.
pub fn judge_script(state: ScriptState, elapsed: u128) -> (r: ScriptVerdict)
    ensures
        r is Succeeded <==> (state matches ScriptState::Exited { success, .. } && success),
        r is Wait <==> state is Running && elapsed <= SCRIPT_LIMIT_SECONDS * NANOS_PER_SECOND,
        r is Kill <==> state is Running && elapsed > SCRIPT_LIMIT_SECONDS * NANOS_PER_SECOND,
        r is Kill ==> r->Kill_fault@
            == "Custom extension script exceeded 15-second execution boundary. Process forcefully terminated."@,
        r is Failed ==> (match state {
            ScriptState::Exited { status, .. } => r->Failed_fault@
                == "Custom extension script exited with failure footprint: "@ + status@,
            ScriptState::Running => false,
            ScriptState::Unknown { cause } => r->Failed_fault@
                == "Failed to parse child execution status: "@ + cause@,
        }),
{
    match state {
        ScriptState::Exited { success, status } => {
            if success {
                return ScriptVerdict::Succeeded;
            }
            let mut fault = "Custom extension script exited with failure footprint: ".to_owned();
            fault.append(status.as_str());
            ScriptVerdict::Failed { fault }
        },
        ScriptState::Running => {
            if elapsed > SCRIPT_LIMIT_SECONDS * NANOS_PER_SECOND {
                ScriptVerdict::Kill {
                    fault: "Custom extension script exceeded 15-second execution boundary. Process forcefully terminated.".to_owned(),
                }
            } else {
                ScriptVerdict::Wait
            }
        },
        ScriptState::Unknown { cause } => {
            let mut fault = "Failed to parse child execution status: ".to_owned();
            fault.append(cause.as_str());
            ScriptVerdict::Failed { fault }
        },
    }
}

} // verus!
