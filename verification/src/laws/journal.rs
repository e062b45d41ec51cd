//! Laws of the audit log and of what the daemon says on its way.
use crate::config::LogLevel;
use crate::encoding;
use crate::lifecycle::ServerFault;
use crate::lifecycle;
use crate::logger::{LogEvent, LogEventView, LogRecord};
use crate::logger;
use crate::patterns;
use crate::text;
use vstd::prelude::*;

verus! {

/// The levels from least to most severe.
pub proof fn law_levels_are_ordered()
    ensures
        LogLevel::Trace.severity() < LogLevel::Debug.severity(),
        LogLevel::Debug.severity() < LogLevel::Info.severity(),
        LogLevel::Info.severity() < LogLevel::Warn.severity(),
        LogLevel::Warn.severity() < LogLevel::Error.severity(),
{
}

/// What a level is called; whatever else it is called, it counts as information.
pub proof fn law_levels_have_their_names(lowered: Seq<char>)
    ensures
        logger::named_level(lowered) == LogLevel::Trace <==> lowered == "trace"@,
        logger::named_level(lowered) == LogLevel::Debug <==> lowered == "debug"@,
        logger::named_level(lowered) == LogLevel::Warn <==> lowered == "warn"@ || lowered
            == "warning"@,
        logger::named_level(lowered) == LogLevel::Error <==> lowered == "error"@ || lowered
            == "critical"@,
        lowered != "trace"@ && lowered != "debug"@ && lowered != "warn"@ && lowered != "warning"@
            && lowered != "error"@ && lowered != "critical"@ ==> logger::named_level(lowered)
            == LogLevel::Info,
{
    reveal_strlit("trace");
    reveal_strlit("debug");
    reveal_strlit("info");
    reveal_strlit("warn");
    reveal_strlit("warning");
    reveal_strlit("error");
    reveal_strlit("critical");
    assert("trace"@[0] == 't');
    assert("debug"@[0] == 'd');
    assert("info"@[0] == 'i');
    assert("warn"@[0] == 'w');
    assert("warning"@[0] == 'w');
    assert("error"@[0] == 'e');
    assert("critical"@[0] == 'c');
}

/// An entry is written exactly if its level, whatever its case, is at least as severe as
/// the threshold.
pub proof fn law_entries_are_written_from_the_threshold_on(level: Seq<char>, threshold: LogLevel)
    ensures
        logger::is_written(level, threshold) <==> threshold.severity() <= logger::named_level(
            encoding::lowercase(level),
        ).severity(),
        logger::is_written(level, LogLevel::Trace),
{
}

/// A line of plain text holds the time, the level, the component, the container, what
/// happened and how it ended, in this order.
pub proof fn law_plain_lines_hold_the_entry(timestamp: nat, event: LogEventView)
    ensures
        event.container_id matches Some(id) ==> logger::plain_line(timestamp, event) == "["@
            + text::decimal(timestamp) + "] ["@ + event.level + "] [Comp: "@ + event.component
            + "] [ID: "@ + id + "] "@ + event.details + " -> "@ + event.status,
        event.container_id is None ==> logger::plain_line(timestamp, event) == "["@
            + text::decimal(timestamp) + "] ["@ + event.level + "] [Comp: "@ + event.component
            + "] [ID: "@ + "-"@ + "] "@ + event.details + " -> "@ + event.status,
{
}

/// What an entry holds is what its fields hold.
pub proof fn law_entries_show_their_fields(event: LogEvent)
    ensures
        event@.level == event.level@,
        event@.component == event.component@,
        event@.rule == patterns::option_view(event.rule),
        event@.container_id == patterns::option_view(event.container_id),
        event@.ip == patterns::option_view(event.ip),
        event@.action == patterns::option_view(event.action),
        event@.status == event.status@,
        event@.details == event.details@,
{
}

/// A record holds the fields of the entry that it was made for.
pub proof fn law_records_show_their_fields(record: LogRecord)
    ensures
        record.event().level == record.level@,
        record.event().component == record.component@,
        record.event().rule == patterns::option_view(record.rule_triggered),
        record.event().container_id == patterns::option_view(record.container_id),
        record.event().ip == patterns::option_view(record.resolved_ip),
        record.event().action == patterns::option_view(record.action_executed),
        record.event().status == record.status@,
        record.event().details == record.details@,
{
}

/// An optional text is there exactly if its characters are.
pub proof fn law_optional_texts_show_their_characters(owned: Option<String>, lent: Option<&str>)
    ensures
        owned matches Some(t) ==> patterns::option_view(owned) == Some(t@),
        owned is None ==> patterns::option_view(owned) is None,
        lent matches Some(t) ==> logger::optional(lent) == Some(t@),
        lent is None ==> logger::optional(lent) is None,
{
}

/// Entries are put together field by field.
pub proof fn law_entries_are_put_together(
    level: Seq<char>,
    component: Seq<char>,
    status: Seq<char>,
    details: Seq<char>,
    entry: LogEventView,
    value: Seq<char>,
)
    ensures
        LogEventView::plain(level, component, status, details) == (LogEventView {
            level,
            component,
            rule: None,
            container_id: None,
            ip: None,
            action: None,
            status,
            details,
        }),
        entry.about(value) == (LogEventView { container_id: Some(value), ..entry }),
        entry.under_rule(value) == (LogEventView { rule: Some(value), ..entry }),
        entry.on_action(value) == (LogEventView { action: Some(value), ..entry }),
{
}

/// The value of an argument is what stands behind the first place where it is given.
pub proof fn law_values_stand_behind_their_argument(
    args: Seq<Seq<char>>,
    wanted: Seq<char>,
    i: int,
)
    requires
        forall|k: int| 0 <= k < i ==> #[trigger] args[k] != wanted,
        0 <= i < args.len(),
    ensures
        args[i] == wanted && i + 1 < args.len() ==> lifecycle::value_of(args, wanted) == Some(
            args[i + 1],
        ),
        args[i] == wanted && i + 1 == args.len() ==> lifecycle::value_of(args, wanted) is None,
        args[i] != wanted && i + 1 == args.len() ==> lifecycle::value_of(args, wanted) is None,
    decreases args.len(),
{
    let rest = args.drop_first();
    if i > 0 {
        assert(args[0] != wanted);
        assert forall|k: int| 0 <= k < i - 1 implies #[trigger] rest[k] != wanted by {
            assert(rest[k] == args[k + 1]);
        }
        law_values_stand_behind_their_argument(rest, wanted, i - 1);
        assert(rest[i - 1] == args[i]);
    } else {
        assert(rest.len() == 0 ==> lifecycle::value_of(rest, wanted) is None);
    }
}

/// An argument is given exactly if it stands among the arguments.
pub proof fn law_arguments_are_given_if_they_stand_there(args: Seq<String>, wanted: Seq<char>)
    ensures
        lifecycle::has_argument(args, wanted) <==> text::views(args).contains(wanted),
{
    let views = text::views(args);
    if lifecycle::has_argument(args, wanted) {
        let i = choose|i: int| 0 <= i < args.len() && (#[trigger] args[i])@ == wanted;
        assert(views[i] == wanted);
    }
    if views.contains(wanted) {
        let i = choose|i: int| 0 <= i < views.len() && views[i] == wanted;
        assert(args[i]@ == wanted);
    }
}

/// The service manager's address is as long as what the environment says and differs from
/// it only in that an at sign at its start becomes a zero byte; an empty one is none.
pub proof fn law_notify_addresses_differ_in_the_first_character(path: Seq<char>, rest: Seq<char>)
    ensures
        lifecycle::notify_target(Seq::<char>::empty()) is None,
        lifecycle::notify_target(seq!['@'] + rest) == Some(seq!['\0'] + rest),
        path.len() > 0 && path[0] != '@' ==> lifecycle::notify_target(path) == Some(path),
{
    assert((seq!['@'] + rest).update(0, '\0') =~= seq!['\0'] + rest);
}

/// What the log says of a telemetry socket that cannot be served.
pub proof fn law_server_faults_are_logged(fault: ServerFault, cause: Seq<char>)
    ensures
        ({
            let entry = lifecycle::server_entry(fault, cause);
            &&& entry.level == "ERROR"@ && entry.component == "uds_server"@ && entry.status
                == "CRASH"@
            &&& fault is Bind ==> entry.details == "UDS bind failed: "@ + cause
            &&& fault is Permissions ==> entry.details
                == "Failed to enforce secure access permissions on UDS socket: "@ + cause
            &&& fault is Poll ==> entry.details == "Failed to initialize mio Poll instance: "@
                + cause
            &&& fault is Register ==> entry.details
                == "Failed to register UDS listener with mio registry: "@ + cause
            &&& fault is Permissions ==> entry.action == Some("permissions"@)
            &&& !(fault is Permissions) ==> entry.action is None
            &&& entry.container_id is None && entry.rule is None && entry.ip is None
        }),
{
}

/// The words to the service manager.
pub proof fn law_words_to_the_service_manager()
    ensures
        lifecycle::READY_MESSAGE@ == "READY=1\n"@,
        lifecycle::WATCHDOG_MESSAGE@ == "WATCHDOG=1\n"@,
{
}

} // verus!
