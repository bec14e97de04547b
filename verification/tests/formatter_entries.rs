use gcp_logging::formatter::models::{FieldValue, Severity, UtcTime};
use gcp_logging::formatter::{
    map_labels, map_severity, map_source_location, EventMeta, EventVisitor, Formatter,
    SpanDataLayer, SpanFields, TraceLevel,
};

fn meta(level: TraceLevel, name: &str, line: u32) -> EventMeta {
    EventMeta {
        level,
        name: name.to_owned(),
        file: Some("crates/tracing-gcp-formatter/src/tests.rs".to_owned()),
        module: Some("tracing_gcp_formatter::tests".to_owned()),
        line: Some(line),
    }
}

fn test_formatter() -> Formatter {
    Formatter::new(1, Some("test-hostname".to_owned()))
}

const EPOCH: UtcTime = UtcTime { seconds: 0, nanoseconds: 0 };

fn labels_json(labels: &Option<serde_json::Map<String, serde_json::Value>>) -> String {
    serde_json::to_string(labels.as_ref().expect("labels")).expect("labels as JSON")
}

fn severity_name(severity: Severity) -> &'static str {
    match severity {
        Severity::Default => "DEFAULT",
        Severity::Debug => "DEBUG",
        Severity::Info => "INFO",
        Severity::Notice => "NOTICE",
        Severity::Warning => "WARNING",
        Severity::Error => "ERROR",
        Severity::Critical => "CRITICAL",
        Severity::Alert => "ALERT",
        Severity::Emergency => "EMERGENCY",
    }
}

/// The JSON line that the formatting layer writes for an entry, field by
/// field in the order of the entry's fields, absent fields left out.
fn entry_json(entry: &gcp_logging::formatter::models::SimplifiedLogEntry) -> String {
    let time = chrono::DateTime::from_timestamp(entry.time.seconds, entry.time.nanoseconds)
        .expect("a valid time");
    let mut line = format!(
        "{{\"severity\":\"{}\",\"message\":{},\"time\":{}",
        severity_name(entry.severity),
        serde_json::to_string(&entry.message).expect("message"),
        serde_json::to_string(&time).expect("time"),
    );
    if let Some(labels) = &entry.labels {
        line.push_str(",\"logging.googleapis.com/labels\":");
        line.push_str(&serde_json::to_string(labels).expect("labels"));
    }
    if let Some(location) = &entry.source_location {
        let mut parts = Vec::new();
        if let Some(file) = &location.file {
            parts.push(format!("\"file\":{}", serde_json::to_string(file).expect("file")));
        }
        if let Some(line) = location.line {
            parts.push(format!("\"line\":{line}"));
        }
        if let Some(function) = &location.function {
            parts.push(format!("\"function\":{}", serde_json::to_string(function).expect("function")));
        }
        line.push_str(&format!(",\"logging.googleapis.com/sourceLocation\":{{{}}}", parts.join(",")));
    }
    line.push('}');
    line
}

fn message_visitor(message: &str) -> EventVisitor {
    let mut visitor = EventVisitor::new();
    visitor.record_debug("message", message.to_owned());
    visitor
}

#[test]
fn info_simple() {
    let entry = test_formatter().event_entry(
        &meta(TraceLevel::Info, "event", 20),
        message_visitor("Lorem ipsum"),
        None,
        Vec::new(),
        EPOCH,
    );
    assert_eq!(
        r#"{"severity":"INFO","message":"Lorem ipsum","time":"1970-01-01T00:00:00Z","logging.googleapis.com/labels":{"hostname":"test-hostname","pid":1},"logging.googleapis.com/sourceLocation":{"file":"crates/tracing-gcp-formatter/src/tests.rs","line":20,"function":"tracing_gcp_formatter::tests"}}"#,
        entry_json(&entry)
    );
}

#[test]
fn warn_with_fields() {
    let mut visitor = EventVisitor::new();
    visitor.record_str("foo", "bar");
    visitor.record_i64("qux", 42);
    visitor.record_debug("message", "Lorem ipsum".to_owned());
    let entry = test_formatter().event_entry(&meta(TraceLevel::Warn, "event", 36), visitor, None, Vec::new(), EPOCH);
    assert_eq!(
        r#"{"severity":"WARNING","message":"Lorem ipsum","time":"1970-01-01T00:00:00Z","logging.googleapis.com/labels":{"foo":"bar","hostname":"test-hostname","pid":1,"qux":42},"logging.googleapis.com/sourceLocation":{"file":"crates/tracing-gcp-formatter/src/tests.rs","line":36,"function":"tracing_gcp_formatter::tests"}}"#,
        entry_json(&entry)
    );
}

#[test]
fn http_event() {
    let mut visitor = EventVisitor::new();
    visitor.record_str("http.method", "POST");
    visitor.record_str("http.url", "https://www.disney.com");
    visitor.record_debug(
        "message",
        r#"Http::connect; scheme=Some("http"), host=Some("127.0.0.1"), port=Some(Port(43059))"#.to_owned(),
    );
    let entry = test_formatter().event_entry(&meta(TraceLevel::Trace, "event", 52), visitor, None, Vec::new(), EPOCH);
    assert_eq!(
        r#"{"severity":"DEFAULT","message":"Http::connect; scheme=Some(\"http\"), host=Some(\"127.0.0.1\"), port=Some(Port(43059))","time":"1970-01-01T00:00:00Z","logging.googleapis.com/labels":{"hostname":"test-hostname","http.method":"POST","http.url":"https://www.disney.com","pid":1},"logging.googleapis.com/sourceLocation":{"file":"crates/tracing-gcp-formatter/src/tests.rs","line":52,"function":"tracing_gcp_formatter::tests"}}"#,
        entry_json(&entry)
    );
}

#[test]
fn source_location() {
    let entry = test_formatter().event_entry(
        &meta(TraceLevel::Debug, "event", 72),
        message_visitor("Where is this coming from?"),
        None,
        Vec::new(),
        EPOCH,
    );
    assert_eq!(
        r#"{"severity":"DEBUG","message":"Where is this coming from?","time":"1970-01-01T00:00:00Z","logging.googleapis.com/labels":{"hostname":"test-hostname","pid":1},"logging.googleapis.com/sourceLocation":{"file":"crates/tracing-gcp-formatter/src/tests.rs","line":72,"function":"tracing_gcp_formatter::tests"}}"#,
        entry_json(&entry)
    );
}

fn span_fields_bar_baz() -> SpanFields {
    let mut visitor = EventVisitor::new();
    visitor.record_str("bar", "baz");
    SpanFields::from_visitor(visitor)
}

#[test]
fn span() {
    let formatter = test_formatter();
    let before = formatter.event_entry(
        &meta(TraceLevel::Info, "event", 88),
        message_visitor("Outside span, before"),
        None,
        Vec::new(),
        EPOCH,
    );
    let mut attributes = EventVisitor::new();
    attributes.record_str("bar", "baz");
    let start = formatter.span_start_entry(&meta(TraceLevel::Info, "foo", 102), attributes, EPOCH);
    let inside = formatter.event_entry(
        &meta(TraceLevel::Warn, "event", 104),
        message_visitor("Inside span"),
        Some("foo"),
        vec![span_fields_bar_baz()],
        EPOCH,
    );
    let end = formatter.span_end_entry(&meta(TraceLevel::Info, "foo", 102), vec![span_fields_bar_baz()], EPOCH);
    let output = [before, start, inside, end].iter().map(entry_json).collect::<Vec<_>>().join("\n");
    assert_eq!(
        r#"{"severity":"INFO","message":"Outside span, before","time":"1970-01-01T00:00:00Z","logging.googleapis.com/labels":{"hostname":"test-hostname","pid":1},"logging.googleapis.com/sourceLocation":{"file":"crates/tracing-gcp-formatter/src/tests.rs","line":88,"function":"tracing_gcp_formatter::tests"}}
{"severity":"INFO","message":"[FOO - START]","time":"1970-01-01T00:00:00Z","logging.googleapis.com/labels":{"bar":"baz","hostname":"test-hostname","pid":1},"logging.googleapis.com/sourceLocation":{"file":"crates/tracing-gcp-formatter/src/tests.rs","line":102,"function":"tracing_gcp_formatter::tests"}}
{"severity":"WARNING","message":"[FOO - EVENT] Inside span","time":"1970-01-01T00:00:00Z","logging.googleapis.com/labels":{"bar":"baz","hostname":"test-hostname","pid":1},"logging.googleapis.com/sourceLocation":{"file":"crates/tracing-gcp-formatter/src/tests.rs","line":104,"function":"tracing_gcp_formatter::tests"}}
{"severity":"INFO","message":"[FOO - END]","time":"1970-01-01T00:00:00Z","logging.googleapis.com/labels":{"bar":"baz","hostname":"test-hostname","pid":1},"logging.googleapis.com/sourceLocation":{"file":"crates/tracing-gcp-formatter/src/tests.rs","line":102,"function":"tracing_gcp_formatter::tests"}}"#,
        output
    );
}

#[test]
fn severity_mapping_follows_the_table() {
    assert_eq!(map_severity(TraceLevel::Trace), Severity::Default);
    assert_eq!(map_severity(TraceLevel::Debug), Severity::Debug);
    assert_eq!(map_severity(TraceLevel::Info), Severity::Info);
    assert_eq!(map_severity(TraceLevel::Warn), Severity::Warning);
    assert_eq!(map_severity(TraceLevel::Error), Severity::Error);
}

#[test]
fn source_location_absent_when_nothing_is_known() {
    assert!(map_source_location(None, None, None).is_none());
    let location = map_source_location(None, None, Some(7)).expect("a location");
    assert_eq!(location.file, None);
    assert_eq!(location.function, None);
    assert_eq!(location.line, Some(7));
    let location = map_source_location(Some("src/main.rs"), Some("my_crate::main"), None)
        .expect("a location");
    assert_eq!(location.file.as_deref(), Some("src/main.rs"));
    assert_eq!(location.function.as_deref(), Some("my_crate::main"));
    assert_eq!(location.line, None);
}

#[test]
fn labels_start_with_pid_and_hostname() {
    let labels = map_labels(Vec::new(), 1234, Some("my-pod"));
    assert_eq!(labels_json(&labels), r#"{"hostname":"my-pod","pid":1234}"#);
    let labels = map_labels(Vec::new(), 1234, None);
    assert_eq!(labels_json(&labels), r#"{"pid":1234}"#);
}

#[test]
fn later_fields_replace_earlier_labels() {
    let fields = vec![
        ("user_id".to_owned(), FieldValue::I64(42)),
        ("path".to_owned(), FieldValue::Str("/api/data".to_owned())),
        ("pid".to_owned(), FieldValue::Bool(true)),
        ("user_id".to_owned(), FieldValue::U64(7)),
        ("raw".to_owned(), FieldValue::Bytes(vec![1, 2])),
        ("ratio".to_owned(), FieldValue::Json(serde_json::Value::from(0.5))),
    ];
    let labels = map_labels(fields, 99, Some("host"));
    assert_eq!(
        labels_json(&labels),
        r#"{"hostname":"host","path":"/api/data","pid":true,"ratio":0.5,"raw":[1,2],"user_id":7}"#
    );
}

#[test]
fn visitor_trims_quotes_and_takes_the_message() {
    let mut visitor = EventVisitor::new();
    visitor.record_str("foo", "\"bar\"");
    visitor.record_i64("qux", 42);
    visitor.record_debug("message", "Lorem ipsum".to_owned());
    visitor.record_debug("detail", "Some(3)".to_owned());
    visitor.record_bool("flag", false);
    visitor.record_u64("count", 3);
    assert_eq!(visitor.message.as_deref(), Some("Lorem ipsum"));
    let names: Vec<&str> = visitor.other_fields.iter().map(|(n, _)| n.as_str()).collect();
    assert_eq!(names, vec!["foo", "qux", "detail", "flag", "count"]);
    match &visitor.other_fields[0].1 {
        FieldValue::Str(s) => assert_eq!(s, "bar"),
        other => panic!("unexpected {other:?}"),
    }
    match &visitor.other_fields[2].1 {
        FieldValue::Str(s) => assert_eq!(s, "Some(3)"),
        other => panic!("unexpected {other:?}"),
    }
}

#[test]
fn quotes_only_trimmed_at_the_ends() {
    let mut visitor = EventVisitor::new();
    visitor.record_str("a", "\"\"say \"hi\"\"\"");
    visitor.record_str("b", "\"\"\"");
    match (&visitor.other_fields[0].1, &visitor.other_fields[1].1) {
        (FieldValue::Str(a), FieldValue::Str(b)) => {
            assert_eq!(a, "say \"hi");
            assert_eq!(b, "");
        }
        other => panic!("unexpected {other:?}"),
    }
}

#[test]
fn event_messages_inside_and_outside_spans() {
    let formatter = test_formatter();
    let mut visitor = EventVisitor::new();
    visitor.record_debug("message", "Inside span".to_owned());
    let entry = formatter.event_entry(&meta(TraceLevel::Warn, "event", 104), visitor, Some("foo"), Vec::new(), EPOCH);
    assert_eq!(entry.message, "[FOO - EVENT] Inside span");
    let entry = formatter.event_entry(&meta(TraceLevel::Warn, "event", 104), EventVisitor::new(), Some("process_order"), Vec::new(), EPOCH);
    assert_eq!(entry.message, "[PROCESS_ORDER - EVENT]");
    let entry = formatter.event_entry(&meta(TraceLevel::Warn, "event", 104), EventVisitor::new(), None, Vec::new(), EPOCH);
    assert_eq!(entry.message, "[EVENT]");
}

#[test]
fn event_inside_span_carries_span_fields() {
    let mut span_visitor = EventVisitor::new();
    span_visitor.record_str("bar", "baz");
    let inner = SpanFields::from_visitor(span_visitor);
    let mut outer_visitor = EventVisitor::new();
    outer_visitor.record_str("order_id", "ORD-99");
    outer_visitor.record_str("bar", "outer");
    let outer = SpanFields::from_visitor(outer_visitor);
    let mut visitor = EventVisitor::new();
    visitor.record_debug("message", "Inside span".to_owned());
    let entry = test_formatter().event_entry(
        &meta(TraceLevel::Warn, "event", 104),
        visitor,
        Some("foo"),
        vec![inner, outer],
        EPOCH,
    );
    assert_eq!(
        labels_json(&entry.labels),
        r#"{"bar":"outer","hostname":"test-hostname","order_id":"ORD-99","pid":1}"#
    );
}

#[test]
fn span_start_and_end_entries() {
    let formatter = test_formatter();
    let mut visitor = EventVisitor::new();
    visitor.record_str("bar", "baz");
    let start = formatter.span_start_entry(&meta(TraceLevel::Info, "foo", 102), visitor, EPOCH);
    assert_eq!(start.message, "[FOO - START]");
    assert_eq!(start.severity, Severity::Info);
    assert_eq!(labels_json(&start.labels), r#"{"bar":"baz","hostname":"test-hostname","pid":1}"#);

    let mut span_visitor = EventVisitor::new();
    span_visitor.record_str("bar", "baz");
    let end = formatter.span_end_entry(
        &meta(TraceLevel::Info, "foo", 102),
        vec![SpanFields::from_visitor(span_visitor)],
        EPOCH,
    );
    assert_eq!(end.message, "[FOO - END]");
    assert_eq!(labels_json(&end.labels), r#"{"bar":"baz","hostname":"test-hostname","pid":1}"#);
    assert_eq!(end.source_location.expect("a location").line, Some(102));
}

#[test]
fn span_data_layer_is_empty() {
    let _layer = SpanDataLayer::new();
    let _default = SpanDataLayer::default();
}

#[test]
fn labels_hold_the_json_text_of_each_value() {
    let signed = map_labels(vec![("k".to_owned(), FieldValue::I64(5))], 7, None);
    let unsigned = map_labels(vec![("k".to_owned(), FieldValue::U64(5))], 7, None);
    assert_eq!(labels_json(&signed), r#"{"k":5,"pid":7}"#);
    assert_eq!(signed, unsigned);
    let text = map_labels(vec![("k".to_owned(), FieldValue::Str("5".to_owned()))], 7, None);
    assert_eq!(labels_json(&text), r#"{"k":"5","pid":7}"#);
    let bytes = map_labels(vec![("b".to_owned(), FieldValue::Bytes(vec![1, 2]))], 7, Some("h"));
    assert_eq!(labels_json(&bytes), r#"{"b":[1,2],"hostname":"h","pid":7}"#);
}
