//! Log lines: what is bridged, what a panic reports, and how events of the
//! engine become log lines.

use crate::text::{decimal_text, same_text};
use vstd::prelude::*;
use vstd::string::StringExecFns;

verus! {

/// Severity of a log line.
#[derive(Clone, Copy, PartialEq, Eq, Structural, Debug)]
pub enum LogLevel {
    Trace,
    Debug,
    Info,
    Warn,
    Error,
}

/// Severity of an event of the engine.
#[derive(Clone, Copy, PartialEq, Eq, Structural, Debug)]
pub enum EventLevel {
    Trace,
    Debug,
    Info,
    Warn,
    Error,
}

/// A log line.
pub struct LogLine {
    pub level: LogLevel,
    pub message: String,
}

/// The line for a message of this library.
pub fn bridge_log(msg: &str) -> (r: LogLine)
    ensures
        r.level == LogLevel::Info,
        r.message@ == msg@,
{
    LogLine { level: LogLevel::Info, message: msg.to_owned() }
}

/// Where a panic came from.
pub struct PanicLocation<'a> {
    pub file: &'a str,
    pub line: u32,
    pub column: u32,
}

/// The text of a place in the source.
pub open spec fn location_text(location: Option<PanicLocation<'_>>) -> Seq<char> {
    match location {
        Some(l) => l.file@ + ":"@ + crate::text::decimal(l.line as nat) + ":"@
            + crate::text::decimal(l.column as nat),
        None => "<unknown>"@,
    }
}

/// The line that reports a panic, at the highest severity: thread, place and
/// message, each with a stand-in where it is not known.
pub fn panic_report(
    thread: Option<&str>,
    location: Option<PanicLocation<'_>>,
    message: Option<&str>,
) -> (r: LogLine)
    ensures
        r.level == LogLevel::Error,
        r.message@ == "rust panic in thread '"@ + (match thread {
            Some(t) => t@,
            None => "<unnamed>"@,
        }) + "' at "@ + location_text(location) + ": "@ + (match message {
            Some(m) => m@,
            None => "<non-string panic payload>"@,
        }),
{
    let place = match &location {
        Some(l) => l.file.to_owned().concat(":").concat(
            decimal_text(l.line as u64).as_str(),
        ).concat(":").concat(decimal_text(l.column as u64).as_str()),
        None => "<unknown>".to_owned(),
    };
    let thread_name = match thread {
        Some(t) => t,
        None => "<unnamed>",
    };
    let text = match message {
        Some(m) => m,
        None => "<non-string panic payload>",
    };
    LogLine {
        level: LogLevel::Error,
        message: "rust panic in thread '".to_owned().concat(thread_name).concat("' at ").concat(
            place.as_str(),
        ).concat(": ").concat(text),
    }
}

/// The severity of the line for an event.
pub open spec fn line_level(level: EventLevel) -> LogLevel {
    match level {
        EventLevel::Trace => LogLevel::Trace,
        EventLevel::Debug => LogLevel::Debug,
        EventLevel::Info => LogLevel::Info,
        EventLevel::Warn => LogLevel::Warn,
        EventLevel::Error => LogLevel::Error,
    }
}

/// What becomes of an event: the severity of its line, or nothing.
pub open spec fn forwarded(in_forward: bool, level: EventLevel) -> Option<LogLevel> {
    if in_forward {
        None
    } else {
        Some(line_level(level))
    }
}

/// Forwards events of the engine as log lines. A line that is written while one
/// is being forwarded may come back as an event; such an event is dropped, so
/// that no cycle can form.
pub struct LogForwardLayer;

impl LogForwardLayer {
    /// An event arrives. `None` where one is being forwarded already; otherwise
    /// the severity of the line, and forwarding has begun.
    pub fn on_event(&self, in_forward: &mut bool, level: EventLevel) -> (r: Option<LogLevel>)
        ensures
            *final(in_forward),
            r == forwarded(*old(in_forward), level),
    {
        if *in_forward {
            return None;
        }
        *in_forward = true;
        let line = match level {
            EventLevel::Trace => LogLevel::Trace,
            EventLevel::Debug => LogLevel::Debug,
            EventLevel::Info => LogLevel::Info,
            EventLevel::Warn => LogLevel::Warn,
            EventLevel::Error => LogLevel::Error,
        };
        Some(line)
    }

    /// The line for an event whose severity is enabled; none where it is not.
    pub fn line(&self, level: LogLevel, enabled: bool, visitor: MessageVisitor) -> (r: Option<
        LogLine,
    >)
        ensures
            match r {
                Some(l) => enabled && l.level == level && l.message@ == visitor.text(),
                None => !enabled,
            },
    {
        if enabled {
            Some(LogLine { level, message: visitor.message })
        } else {
            None
        }
    }

    /// Forwarding of an event has ended.
    pub fn on_done(&self, in_forward: &mut bool)
        ensures
            !*final(in_forward),
    {
        *in_forward = false;
    }
}

/// Collects the message of an event; its other fields are dropped.
pub struct MessageVisitor {
    message: String,
}

impl MessageVisitor {
    /// The message so far.
    pub closed spec fn text(self) -> Seq<char> {
        self.message@
    }

    pub fn new() -> (r: MessageVisitor)
        ensures
            r.text() == Seq::<char>::empty(),
    {
        MessageVisitor { message: String::new() }
    }

    /// A field that is a text.
    pub fn record_str(&mut self, field: &str, value: &str)
        ensures
            final(self).text() == if field@ == "message"@ {
                value@
            } else {
                old(self).text()
            },
    {
        if same_text(field, "message") {
            self.message = value.to_owned();
        }
    }

    /// A field that is something else, formatted.
    pub fn record_debug(&mut self, field: &str, formatted: &str)
        ensures
            final(self).text() == if field@ == "message"@ {
                formatted@
            } else {
                old(self).text()
            },
    {
        self.record_str(field, formatted);
    }
}

/// While an event is being forwarded every further event is dropped, whatever
/// its severity, and afterwards events are forwarded again.
pub proof fn law_forwarding_never_nests(level: EventLevel)
    ensures
        forwarded(true, level) is None,
        forwarded(false, level) == Some(line_level(level)),
{
}

/// An event is logged at its own severity, and two severities never become one.
pub proof fn law_severity_is_kept(level: EventLevel, other: EventLevel)
    ensures
        line_level(EventLevel::Trace) is Trace,
        line_level(EventLevel::Debug) is Debug,
        line_level(EventLevel::Info) is Info,
        line_level(EventLevel::Warn) is Warn,
        line_level(EventLevel::Error) is Error,
        line_level(level) == line_level(other) ==> level == other,
{
}

/// A place in the source is its file, its line and its column, each behind a
/// colon; without one there is a stand-in.
pub proof fn law_places_are_file_line_and_column(l: PanicLocation<'_>)
    ensures
        location_text(Some(l)) == l.file@ + ":"@ + crate::text::decimal(l.line as nat) + ":"@
            + crate::text::decimal(l.column as nat),
        location_text(None) == "<unknown>"@,
{
}

} // verus!
