//! The life of the daemon: its command line, its word to the service manager, and
//! what it says on the way.
use crate::config::IngestionMode;
use crate::logger::{LogEvent, LogEventView};
use crate::patterns;
use crate::text;
use vstd::prelude::*;

verus! {

/// Where the configuration stands on an installed system.
pub const PRODUCTION_CONFIG: &'static str = "/etc/runsc-sentry-guard/config.toml";

/// Where the configuration stands otherwise.
pub const DEVELOPER_CONFIG: &'static str = "config.toml";

/// What the command line asks for.
#[derive(Debug)]
pub struct CommandLine {
    pub reprocess_logs: bool,
    pub output_json: bool,
    pub hide_bypasses: bool,
    pub offline_mapping: Option<String>,
}

/// The argument `wanted` is among the arguments.
pub open spec fn has_argument(args: Seq<String>, wanted: Seq<char>) -> bool {
    exists|i: int| 0 <= i < args.len() && (#[trigger] args[i])@ == wanted
}

/// The argument behind the first `wanted`, if there is one.
pub open spec fn value_of(args: Seq<Seq<char>>, wanted: Seq<char>) -> Option<Seq<char>>
    decreases args.len(),
{
    if args.len() == 0 {
        None
    } else if args[0] == wanted {
        if args.len() > 1 {
            Some(args[1])
        } else {
            None
        }
    } else {
        value_of(args.drop_first(), wanted)
    }
}

/// Whether `wanted` is among the arguments.
fn contains_argument(args: &Vec<String>, wanted: &str) -> (r: bool)
    ensures
        r == has_argument(args@, wanted@),
{
    let mut i: usize = 0;
    while i < args.len()
        invariant
            i <= args@.len(),
            forall|j: int| 0 <= j < i ==> (#[trigger] args@[j])@ != wanted@,
        decreases args@.len() - i,
    {
        if text::same_text(args[i].as_str(), wanted) {
            assert(args@[i as int]@ == wanted@);
            return true;
        }
        i += 1;
    }
    false
}

/// The argument behind the first `wanted`.
fn argument_behind(args: &Vec<String>, wanted: &str) -> (r: Option<String>)
    ensures
        patterns::option_view(r) == value_of(text::views(args@), wanted@),
{
    let ghost all = text::views(args@);
    let mut i: usize = 0;
    assert(all.skip(0) =~= all);
    while i < args.len()
        invariant
            i <= args@.len(),
            all == text::views(args@),
            value_of(all, wanted@) == value_of(all.skip(i as int), wanted@),
        decreases args@.len() - i,
    {
        assert(all.skip(i as int)[0] == args@[i as int]@);
        assert(all.skip(i as int).drop_first() =~= all.skip(i + 1));
        if text::same_text(args[i].as_str(), wanted) {
            if args.len() - i > 1 {
                assert(all.skip(i as int)[1] == args@[i + 1]@);
                return Some(args[i + 1].clone());
            }
            return None;
        }
        i += 1;
    }
    None
}

/// Reads the command line.
pub fn parse_command_line(args: &Vec<String>) -> (r: CommandLine)
    ensures
        r.reprocess_logs == has_argument(args@, "--reprocess-logs"@),
        r.output_json == has_argument(args@, "--output-json"@),
        r.hide_bypasses == has_argument(args@, "--hide-bypasses"@),
        patterns::option_view(r.offline_mapping) == value_of(
            text::views(args@),
            "--offline-mapping"@,
        ),
{
    CommandLine {
        reprocess_logs: contains_argument(args, "--reprocess-logs"),
        output_json: contains_argument(args, "--output-json"),
        hide_bypasses: contains_argument(args, "--hide-bypasses"),
        offline_mapping: argument_behind(args, "--offline-mapping"),
    }
}

/// Whether the log is written as JSON: on a second look at old logs if and only if
/// the command line says so, else also if the configuration says so.
pub fn json_logging(command_line: &CommandLine, configured: bool) -> (r: bool)
    ensures
        r == (if command_line.reprocess_logs {
            command_line.output_json
        } else {
            command_line.output_json || configured
        }),
{
    if command_line.reprocess_logs {
        command_line.output_json
    } else {
        command_line.output_json || configured
    }
}

/// Where the configuration stands.
pub fn config_path(production_exists: bool) -> (r: &'static str)
    ensures
        r@ == (if production_exists {
            PRODUCTION_CONFIG@
        } else {
            DEVELOPER_CONFIG@
        }),
{
    if production_exists {
        PRODUCTION_CONFIG
    } else {
        DEVELOPER_CONFIG
    }
}

/// The word to the service manager that the daemon is ready.
pub const READY_MESSAGE: &'static str = "READY=1\n";

/// The word to the service manager that the daemon lives.
pub const WATCHDOG_MESSAGE: &'static str = "WATCHDOG=1\n";

/// The address of the service manager's socket. In the environment an abstract address
/// begins with an at sign, which stands for a zero byte.
pub open spec fn notify_target(socket_path: Seq<char>) -> Option<Seq<char>> {
    if socket_path.len() == 0 {
        None
    } else if socket_path[0] == '@' {
        Some(socket_path.update(0, '\0'))
    } else {
        Some(socket_path)
    }
}

/// Reads the address of the service manager's socket out of the environment, if it is
/// there.
pub fn notify_address(socket_path: Option<&str>) -> (r: Option<String>)
    ensures
        patterns::option_view(r) == (match socket_path {
            Some(path) => notify_target(path@),
            None => None,
        }),
{
    let path = match socket_path {
        Some(path) => path,
        None => {
            return None;
        },
    };
    let chars = text::to_chars(path);
    if chars.len() == 0 {
        return None;
    }
    if chars[0] == '@' {
        let mut address = String::new();
        address.push('\0');
        address.append(text::from_chars(&chars, 1, chars.len()).as_str());
        assert(address@ =~= path@.update(0, '\0'));
        return Some(address);
    }
    Some(path.to_owned())
}

/// What the log says once the sources are being read.
pub fn started_event(mode: IngestionMode) -> (r: LogEvent)
    ensures
        r@ == LogEventView::plain(
            "INFO"@,
            "orchestrator"@,
            "STARTED"@,
            if mode is Socket {
                "Out-of-band UDS streaming receiver active. Filesystem parsing idle."@
            } else {
                "Master directory tailer and Unix socket pipelines active."@
            },
        ),
{
    let details = match mode {
        IngestionMode::Socket => {
            "Out-of-band UDS streaming receiver active. Filesystem parsing idle."
        },
        _ => "Master directory tailer and Unix socket pipelines active.",
    };
    LogEvent::plain("INFO", "orchestrator", "STARTED", details.to_owned())
}

/// What the log says of a log directory that is not there.
pub fn missing_directory_event() -> (r: LogEvent)
    ensures
        r@ == LogEventView::plain(
            "ERROR"@,
            "orchestrator"@,
            "MISSING"@,
            "Target directory unreachable."@,
        ),
{
    LogEvent::plain("ERROR", "orchestrator", "MISSING", "Target directory unreachable.".to_owned())
}

/// What the log says after the rules were to be read anew.
pub fn reload_event(reloaded: bool) -> (r: LogEvent)
    ensures
        r@ == (if reloaded {
            LogEventView::plain(
                "INFO"@,
                "config_reload"@,
                "SUCCESS"@,
                "Active rule signatures successfully hot-reloaded from manifest."@,
            )
        } else {
            LogEventView::plain(
                "WARN"@,
                "config_reload"@,
                "FAILURE"@,
                "Hot-reload aborted: Updated configuration manifest contains malformed syntax."@,
            )
        }),
{
    if reloaded {
        LogEvent::plain(
            "INFO",
            "config_reload",
            "SUCCESS",
            "Active rule signatures successfully hot-reloaded from manifest.".to_owned(),
        )
    } else {
        LogEvent::plain(
            "WARN",
            "config_reload",
            "FAILURE",
            "Hot-reload aborted: Updated configuration manifest contains malformed syntax.".to_owned(),
        )
    }
}

/// What the log says once the configuration stands.
pub fn armed_event(path: &str) -> (r: LogEvent)
    ensures
        r@ == LogEventView::plain(
            "INFO"@,
            "initialization"@,
            "ARMED"@,
            "Configuration profile and security manifests verified successfully via path: "@
                + path@,
        ),
{
    let mut details =
        "Configuration profile and security manifests verified successfully via path: ".to_owned();
    details.append(path);
    LogEvent::plain("INFO", "initialization", "ARMED", details)
}

/// What the log says when the daemon ends.
pub fn shutdown_event() -> (r: LogEvent)
    ensures
        r@ == LogEventView::plain(
            "INFO"@,
            "shutdown"@,
            "HALTED"@,
            "Decommissioning sequence initialized. Processing cleanup contexts."@,
        ),
{
    LogEvent::plain(
        "INFO",
        "shutdown",
        "HALTED",
        "Decommissioning sequence initialized. Processing cleanup contexts.".to_owned(),
    )
}

/// What the log says when the engine's stream of events cannot be had or has ended. It
/// is opened anew after a second.
pub fn engine_lost_event(cause: &str) -> (r: LogEvent)
    ensures
        r@ == LogEventView::plain(
            "WARN"@,
            "orchestrator"@,
            "RETRY"@,
            "Container engine event stream lost: "@ + cause@ + ". Reconnecting in 1 second."@,
        ).on_action("event_stream"@),
{
    let mut details = "Container engine event stream lost: ".to_owned();
    details.append(cause);
    details.append(". Reconnecting in 1 second.");
    LogEvent::plain("WARN", "orchestrator", "RETRY", details).on_action("event_stream")
}

/// What kept the telemetry socket from being served.
#[derive(Debug, Clone, Copy, PartialEq, Eq, Structural)]
pub enum ServerFault {
    Bind,
    Permissions,
    Poll,
    Register,
}

impl ServerFault {
    /// The fault in words.
    pub open spec fn words(self) -> Seq<char> {
        match self {
            ServerFault::Bind => "UDS bind failed: "@,
            ServerFault::Permissions =>
            "Failed to enforce secure access permissions on UDS socket: "@,
            ServerFault::Poll => "Failed to initialize mio Poll instance: "@,
            ServerFault::Register => "Failed to register UDS listener with mio registry: "@,
        }
    }
}

/// What the log says of a telemetry socket that cannot be served.
pub open spec fn server_entry(fault: ServerFault, cause: Seq<char>) -> LogEventView {
    let entry = LogEventView::plain("ERROR"@, "uds_server"@, "CRASH"@, fault.words() + cause);
    if fault is Permissions {
        entry.on_action("permissions"@)
    } else {
        entry
    }
}

/// Writes the entry about a telemetry socket that cannot be served.
pub fn server_event(fault: ServerFault, cause: &str) -> (r: LogEvent)
    ensures
        r@ == server_entry(fault, cause@),
{
    let words = match fault {
        ServerFault::Bind => "UDS bind failed: ",
        ServerFault::Permissions => "Failed to enforce secure access permissions on UDS socket: ",
        ServerFault::Poll => "Failed to initialize mio Poll instance: ",
        ServerFault::Register => "Failed to register UDS listener with mio registry: ",
    };
    let mut details = words.to_owned();
    details.append(cause);
    let event = LogEvent::plain("ERROR", "uds_server", "CRASH", details);
    match fault {
        ServerFault::Permissions => event.on_action("permissions"),
        _ => event,
    }
}

} // verus!
