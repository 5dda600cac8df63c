//! Log lines.

use meow_ios_ffi::logging::{
    bridge_log, panic_report, EventLevel, LogForwardLayer, LogLevel, MessageVisitor, PanicLocation,
};

#[test]
fn bridged_lines_are_informational() {
    let line = bridge_log("tun2socks: exiting");
    assert_eq!(line.level, LogLevel::Info);
    assert_eq!(line.message, "tun2socks: exiting");
}

#[test]
fn panics_report_thread_place_and_message() {
    let line = panic_report(
        Some("main"),
        Some(PanicLocation { file: "src/lib.rs", line: 10, column: 205 }),
        Some("boom"),
    );
    assert_eq!(line.level, LogLevel::Error);
    assert_eq!(
        line.message,
        "rust panic in thread 'main' at src/lib.rs:10:205: boom"
    );
    assert_eq!(
        panic_report(None, None, None).message,
        "rust panic in thread '<unnamed>' at <unknown>: <non-string panic payload>"
    );
}

#[test]
fn events_keep_their_severity() {
    let layer = LogForwardLayer;
    for (event, line) in [
        (EventLevel::Trace, LogLevel::Trace),
        (EventLevel::Debug, LogLevel::Debug),
        (EventLevel::Info, LogLevel::Info),
        (EventLevel::Warn, LogLevel::Warn),
        (EventLevel::Error, LogLevel::Error),
    ] {
        let mut in_forward = false;
        assert_eq!(layer.on_event(&mut in_forward, event), Some(line));
        assert!(in_forward);
    }
}

#[test]
fn forwarding_never_nests() {
    let layer = LogForwardLayer;
    let mut in_forward = false;
    assert_eq!(
        layer.on_event(&mut in_forward, EventLevel::Info),
        Some(LogLevel::Info)
    );
    assert_eq!(layer.on_event(&mut in_forward, EventLevel::Error), None);
    assert!(in_forward);
    layer.on_done(&mut in_forward);
    assert_eq!(
        layer.on_event(&mut in_forward, EventLevel::Warn),
        Some(LogLevel::Warn)
    );
}

#[test]
fn only_the_message_field_is_kept() {
    let layer = LogForwardLayer;
    let mut visitor = MessageVisitor::new();
    visitor.record_str("host", "example.com");
    visitor.record_debug("message", "hello");
    visitor.record_str("messages", "other");
    let line = layer.line(LogLevel::Info, true, visitor).expect("enabled");
    assert_eq!(line.message, "hello");
    assert_eq!(line.level, LogLevel::Info);
    let mut last = MessageVisitor::new();
    last.record_debug("message", "first");
    last.record_str("message", "second");
    assert_eq!(
        layer.line(LogLevel::Warn, true, last).expect("enabled").message,
        "second"
    );
    assert!(layer.line(LogLevel::Warn, false, MessageVisitor::new()).is_none());
}
