//! Audit log: which entries are written, and how they read.
use crate::config::LogLevel;
use crate::encoding;
use crate::patterns;
use crate::text;
use vstd::prelude::*;

verus! {

/// An entry of the audit log, before it is filtered by severity.
#[derive(Debug)]
pub struct LogEvent {
    pub level: String,
    pub component: String,
    pub rule: Option<String>,
    pub container_id: Option<String>,
    pub ip: Option<String>,
    pub action: Option<String>,
    pub status: String,
    pub details: String,
}

/// A `LogEvent` by the characters of its texts.
#[verifier::ext_equal]
pub struct LogEventView {
    pub level: Seq<char>,
    pub component: Seq<char>,
    pub rule: Option<Seq<char>>,
    pub container_id: Option<Seq<char>>,
    pub ip: Option<Seq<char>>,
    pub action: Option<Seq<char>>,
    pub status: Seq<char>,
    pub details: Seq<char>,
}

impl View for LogEvent {
    type V = LogEventView;

    open spec fn view(&self) -> LogEventView {
        LogEventView {
            level: self.level@,
            component: self.component@,
            rule: patterns::option_view(self.rule),
            container_id: patterns::option_view(self.container_id),
            ip: patterns::option_view(self.ip),
            action: patterns::option_view(self.action),
            status: self.status@,
            details: self.details@,
        }
    }
}

impl LogEventView {
    /// An entry that speaks of no rule, container, address or action.
    pub open spec fn plain(
        level: Seq<char>,
        component: Seq<char>,
        status: Seq<char>,
        details: Seq<char>,
    ) -> LogEventView {
        LogEventView {
            level,
            component,
            rule: None,
            container_id: None,
            ip: None,
            action: None,
            status,
            details,
        }
    }

    /// The same entry about a container.
    pub open spec fn about(self, container_id: Seq<char>) -> LogEventView {
        LogEventView { container_id: Some(container_id), ..self }
    }

    /// The same entry about a rule.
    pub open spec fn under_rule(self, rule: Seq<char>) -> LogEventView {
        LogEventView { rule: Some(rule), ..self }
    }

    /// The same entry about an action.
    pub open spec fn on_action(self, action: Seq<char>) -> LogEventView {
        LogEventView { action: Some(action), ..self }
    }
}

impl LogEvent {
    /// An entry that speaks of no rule, container, address or action.
    pub fn plain(level: &str, component: &str, status: &str, details: String) -> (r: LogEvent)
        ensures
            r@ == LogEventView::plain(level@, component@, status@, details@),
    {
        LogEvent {
            level: level.to_owned(),
            component: component.to_owned(),
            rule: None,
            container_id: None,
            ip: None,
            action: None,
            status: status.to_owned(),
            details,
        }
    }

    /// The same entry about a container.
    pub fn about(self, container_id: &str) -> (r: LogEvent)
        ensures
            r@ == self@.about(container_id@),
    {
        let mut event = self;
        event.container_id = Some(container_id.to_owned());
        event
    }

    /// The same entry about a rule.
    pub fn under_rule(self, rule: &str) -> (r: LogEvent)
        ensures
            r@ == self@.under_rule(rule@),
    {
        let mut event = self;
        event.rule = Some(rule.to_owned());
        event
    }

    /// The same entry about an action.
    pub fn on_action(self, action: &str) -> (r: LogEvent)
        ensures
            r@ == self@.on_action(action@),
    {
        let mut event = self;
        event.action = Some(action.to_owned());
        event
    }
}

/// What is handed to the JSON writer for one entry.
#[derive(Debug)]
pub struct LogRecord {
    pub timestamp: u64,
    pub level: String,
    pub component: String,
    pub rule_triggered: Option<String>,
    pub container_id: Option<String>,
    pub resolved_ip: Option<String>,
    pub action_executed: Option<String>,
    pub status: String,
    pub details: String,
}

impl LogRecord {
    /// The entry that the record holds.
    pub open spec fn event(self) -> LogEventView {
        LogEventView {
            level: self.level@,
            component: self.component@,
            rule: patterns::option_view(self.rule_triggered),
            container_id: patterns::option_view(self.container_id),
            ip: patterns::option_view(self.resolved_ip),
            action: patterns::option_view(self.action_executed),
            status: self.status@,
            details: self.details@,
        }
    }
}

/// What is written for one entry.
#[derive(Debug)]
pub enum LogEmission {
    /// A line of text.
    Plain(String),
    /// A record, to be written as JSON.
    Json(LogRecord),
}

/// The severity that a level in lower case names. An unknown name counts as `Info`.
pub open spec fn named_level(lowered: Seq<char>) -> LogLevel {
    if lowered == "trace"@ {
        LogLevel::Trace
    } else if lowered == "debug"@ {
        LogLevel::Debug
    } else if lowered == "info"@ {
        LogLevel::Info
    } else if lowered == "warn"@ || lowered == "warning"@ {
        LogLevel::Warn
    } else if lowered == "error"@ || lowered == "critical"@ {
        LogLevel::Error
    } else {
        LogLevel::Info
    }
}

/// The severity that a level in lower case names.
pub fn level_from_lower(lowered: &str) -> (r: LogLevel)
    ensures
        r == named_level(lowered@),
{
    if text::same_text(lowered, "trace") {
        LogLevel::Trace
    } else if text::same_text(lowered, "debug") {
        LogLevel::Debug
    } else if text::same_text(lowered, "info") {
        LogLevel::Info
    } else if text::same_text(lowered, "warn") || text::same_text(lowered, "warning") {
        LogLevel::Warn
    } else if text::same_text(lowered, "error") || text::same_text(lowered, "critical") {
        LogLevel::Error
    } else {
        LogLevel::Info
    }
}

/// The characters of an optional text.
pub open spec fn optional(text: Option<&str>) -> Option<Seq<char>> {
    match text {
        Some(t) => Some(t@),
        None => None,
    }
}

/// Copies an optional text.
fn owned(text: Option<&str>) -> (r: Option<String>)
    ensures
        patterns::option_view(r) == optional(text),
{
    match text {
        Some(t) => Some(t.to_owned()),
        None => None,
    }
}

/// The line that an entry is written as in plain text.
pub open spec fn plain_line(timestamp: nat, event: LogEventView) -> Seq<char> {
    let id = match event.container_id {
        Some(id) => id,
        None => "-"@,
    };
    "["@ + text::decimal(timestamp) + "] ["@ + event.level + "] [Comp: "@ + event.component
        + "] [ID: "@ + id + "] "@ + event.details + " -> "@ + event.status
}

/// An entry of the given level is written under a threshold.
pub open spec fn is_written(level: Seq<char>, threshold: LogLevel) -> bool {
    named_level(encoding::lowercase(level)).severity() >= threshold.severity()
}

/// Decides whether and how an entry is written at `timestamp`, in seconds since the
/// epoch. Entries below `config_log_level` are dropped.
pub fn emit_log(
    level: &str,
    component: &str,
    rule: Option<&str>,
    container_id: Option<&str>,
    ip: Option<&str>,
    action: Option<&str>,
    status: &str,
    details: &str,
    config_log_level: LogLevel,
    json_enabled: bool,
    timestamp: u64,
) -> (r: Option<LogEmission>)
    ensures
        r is Some <==> is_written(level@, config_log_level),
        vstd::utf8::is_ascii_chars(level@) ==> (is_written(level@, config_log_level) <==> named_level(
            encoding::ascii_lowercase(level@),
        ).severity() >= config_log_level.severity()),
        r is Some ==> (r->0 is Json <==> json_enabled),
        r matches Some(LogEmission::Json(record)) ==> record.timestamp == timestamp
            && record.event() == (LogEventView {
            level: level@,
            component: component@,
            rule: optional(rule),
            container_id: optional(container_id),
            ip: optional(ip),
            action: optional(action),
            status: status@,
            details: details@,
        }),
        r matches Some(LogEmission::Plain(line)) ==> line@ == plain_line(
            timestamp as nat,
            LogEventView {
                level: level@,
                component: component@,
                rule: optional(rule),
                container_id: optional(container_id),
                ip: optional(ip),
                action: optional(action),
                status: status@,
                details: details@,
            },
        ),
{
    let lowered = encoding::lower_text(level);
    if level_from_lower(lowered.as_str()).rank() < config_log_level.rank() {
        return None;
    }
    if json_enabled {
        Some(
            LogEmission::Json(
                LogRecord {
                    timestamp,
                    level: level.to_owned(),
                    component: component.to_owned(),
                    rule_triggered: owned(rule),
                    container_id: owned(container_id),
                    resolved_ip: owned(ip),
                    action_executed: owned(action),
                    status: status.to_owned(),
                    details: details.to_owned(),
                },
            ),
        )
    } else {
        let id = match container_id {
            Some(id) => id,
            None => "-",
        };
        let mut line = "[".to_owned();
        line.append(text::decimal_text(timestamp).as_str());
        line.append("] [");
        line.append(level);
        line.append("] [Comp: ");
        line.append(component);
        line.append("] [ID: ");
        line.append(id);
        line.append("] ");
        line.append(details);
        line.append(" -> ");
        line.append(status);
        Some(LogEmission::Plain(line))
    }
}

/// Whatever is written under a threshold is written under any lower one, and so is
/// whatever is more severe.
pub proof fn law_threshold_is_monotone(
    level: Seq<char>,
    severer: Seq<char>,
    threshold: LogLevel,
    lower: LogLevel,
)
    requires
        is_written(level, threshold),
        named_level(encoding::lowercase(level)).severity() <= named_level(
            encoding::lowercase(severer),
        ).severity(),
        lower.severity() <= threshold.severity(),
    ensures
        is_written(level, lower),
        is_written(severer, threshold),
{
}

} // verus!
