use serde_json::Value;
use tracing_bunyan_formatter::context::{format_span_context, span_label, Type};
use tracing_bunyan_formatter::level::{to_bunyan_level, Level};
use tracing_bunyan_formatter::message::{
    compose_event_message, find_message, format_event_message, is_message_key, Field, FieldValue,
};
use tracing_bunyan_formatter::record::{
    push_fields, render_entry, render_field, render_value, BunyanFormattingLayer, EmitError, Event, LogRecord,
    Span,
};

fn text(key: &str, value: &str) -> Field {
    Field { key: key.to_string(), value: FieldValue::Str(value.to_string()) }
}

fn num(key: &str, value: i64) -> Field {
    Field { key: key.to_string(), value: FieldValue::Int(value) }
}

fn layer() -> BunyanFormattingLayer {
    BunyanFormattingLayer::new("app".to_string(), 4242)
}

fn host() -> String {
    serde_json::to_string(layer().hostname()).unwrap()
}

fn parse_line(line: &str) -> serde_json::Map<String, Value> {
    assert!(line.ends_with('\n'));
    let body = &line[..line.len() - 1];
    assert!(!body.contains('\n'));
    match serde_json::from_str::<Value>(body).unwrap() {
        Value::Object(m) => m,
        other => panic!("not an object: {}", other),
    }
}

#[test]
fn level_codes_are_fixed() {
    assert_eq!(to_bunyan_level(&Level::Error), 50);
    assert_eq!(to_bunyan_level(&Level::Warn), 40);
    assert_eq!(to_bunyan_level(&Level::Info), 30);
    assert_eq!(to_bunyan_level(&Level::Debug), 20);
    assert_eq!(to_bunyan_level(&Level::Trace), 10);
    for _ in 0..3 {
        assert_eq!(to_bunyan_level(&Level::Warn), 40);
    }
}

#[test]
fn type_tags() {
    assert_eq!(Type::EnterSpan.tag(), "START");
    assert_eq!(Type::ExitSpan.tag(), "END");
    assert_eq!(Type::Event.tag(), "EVENT");
}

#[test]
fn span_context_upper_cases_the_name() {
    assert_eq!(format_span_context("request", &Type::EnterSpan), "[REQUEST - START]");
    assert_eq!(format_span_context("an_interesting_span", &Type::ExitSpan), "[AN_INTERESTING_SPAN - END]");
    assert_eq!(format_span_context("Db query", &Type::Event), "[DB QUERY - EVENT]");
    assert_eq!(format_span_context("", &Type::Event), "[ - EVENT]");
}

#[test]
fn span_label_keeps_the_given_name() {
    assert_eq!(span_label("abc", &Type::EnterSpan), "[abc - START]");
}

#[test]
fn message_field_without_span() {
    let fields = vec![text("message", "hello")];
    assert_eq!(format_event_message(None, &fields, "my::target"), "hello");
}

#[test]
fn target_when_no_message_field() {
    let fields = vec![text("user", "ann")];
    assert_eq!(format_event_message(None, &fields, "my::target"), "my::target");
}

#[test]
fn message_field_inside_span() {
    let fields = vec![text("message", "hi")];
    assert_eq!(format_event_message(Some("request"), &fields, "t"), "[REQUEST - EVENT] hi");
}

#[test]
fn non_string_message_falls_back_to_target() {
    let fields = vec![num("message", 7)];
    assert_eq!(format_event_message(None, &fields, "my::target"), "my::target");
    assert!(find_message(&fields).is_none());
}

#[test]
fn first_message_field_decides() {
    let fields = vec![text("a", "x"), text("message", "one"), text("message", "two")];
    assert_eq!(find_message(&fields).unwrap(), "one");
    assert_eq!(compose_event_message(Some("[L]"), &fields, "t"), "[L] one");
    assert!(is_message_key(&"message".to_string()));
    assert!(!is_message_key(&"messages".to_string()));
}

#[test]
fn entries_are_escaped_json() {
    assert_eq!(render_entry("k\"1", "7").unwrap(), "\"k\\\"1\":7");
    let f = text("note", "a\nb\u{1}");
    assert_eq!(render_field(&f).unwrap(), "\"note\":\"a\\nb\\u0001\"");
    assert_eq!(render_field(&num("n", -12)).unwrap(), "\"n\":-12");
    let u = Field { key: "u".to_string(), value: FieldValue::UInt(u64::MAX) };
    assert_eq!(render_field(&u).unwrap(), "\"u\":18446744073709551615");
    let b = Field { key: "b".to_string(), value: FieldValue::Bool(false) };
    assert_eq!(render_field(&b).unwrap(), "\"b\":false");
    assert_eq!(render_value(&FieldValue::Bool(true)).unwrap(), "true");
    assert_eq!(render_value(&FieldValue::Int(i64::MIN)).unwrap(), "-9223372036854775808");
}

#[test]
fn span_record_has_core_fields_then_span_fields() {
    let span = Span {
        name: "request".to_string(),
        level: Level::Info,
        fields: vec![text("user", "ann"), num("id", 12)],
    };
    let rec = layer().span_record_at(&span, &Type::EnterSpan, "2020-01-01T00:00:00+00:00").unwrap();
    let line = rec.to_line();
    assert_eq!(
        line,
        "{\"v\":0,\"name\":\"app\",\"msg\":\"[REQUEST - START]\",\"level\":30,\"hostname\":HOST,\"pid\":4242,\"time\":\"2020-01-01T00:00:00+00:00\",\"user\":\"ann\",\"id\":12}\n"
            .replace("HOST", &host())
    );
    let m = parse_line(&line);
    assert_eq!(m["level"], Value::from(30));
}

#[test]
fn core_fields_are_typed() {
    let span = Span { name: "s".to_string(), level: Level::Trace, fields: vec![] };
    let rec = layer().span_record(&span, &Type::ExitSpan).unwrap();
    let line = rec.to_line();
    let m = parse_line(&line);
    assert!(m["v"].is_u64());
    assert!(m["name"].is_string());
    assert!(m["msg"].is_string());
    assert!(m["level"].is_u64());
    assert!(m["hostname"].is_string());
    assert!(m["pid"].is_u64());
    assert!(m["time"].is_string());
    assert_eq!(m["msg"], Value::from("[S - END]"));
    assert_eq!(m["level"], Value::from(10));
    let time = m["time"].as_str().unwrap();
    assert!(chrono::DateTime::parse_from_rfc3339(time).is_ok());
    let keys = ["v", "name", "msg", "level", "hostname", "pid", "time"];
    assert_eq!(rec.entries.len(), keys.len());
    for (e, k) in rec.entries.iter().zip(keys.iter()) {
        assert!(e.starts_with(&format!("\"{}\":", k)));
    }
}

#[test]
fn event_record_consumes_message_field() {
    let event = Event {
        target: "my::target".to_string(),
        level: Level::Warn,
        fields: vec![text("message", "hi"), text("k", "1")],
    };
    let span = Span { name: "request".to_string(), level: Level::Info, fields: vec![text("user", "ann")] };
    let rec = layer().event_record_at(&event, Some(&span), "T").unwrap();
    let line = rec.to_line();
    assert_eq!(
        line,
        "{\"v\":0,\"name\":\"app\",\"msg\":\"[REQUEST - EVENT] hi\",\"level\":40,\"hostname\":HOST,\"pid\":4242,\"time\":\"T\",\"k\":\"1\",\"user\":\"ann\"}\n"
            .replace("HOST", &host())
    );
    assert!(!line.contains("\"message\""));
}

#[test]
fn event_record_without_span() {
    let event = Event { target: "my::target".to_string(), level: Level::Error, fields: vec![] };
    let rec = layer().event_record(&event, None).unwrap();
    let m = parse_line(&rec.to_line());
    assert_eq!(m["msg"], Value::from("my::target"));
    assert_eq!(m["level"], Value::from(50));
    assert_eq!(m.len(), 7);
}

#[test]
fn span_message_key_is_kept() {
    let event = Event { target: "t".to_string(), level: Level::Debug, fields: vec![text("message", "m")] };
    let span = Span { name: "s".to_string(), level: Level::Info, fields: vec![text("message", "from span")] };
    let rec = layer().event_record_at(&event, Some(&span), "T").unwrap();
    assert_eq!(rec.entries.len(), 8);
    assert_eq!(rec.entries[7], "\"message\":\"from span\"");
}

#[test]
fn contextual_field_may_repeat_a_core_key() {
    let span = Span { name: "s".to_string(), level: Level::Info, fields: vec![text("name", "other")] };
    let rec = layer().span_record_at(&span, &Type::EnterSpan, "T").unwrap();
    assert_eq!(rec.entries[1], "\"name\":\"app\"");
    assert_eq!(rec.entries[7], "\"name\":\"other\"");
}

#[test]
fn values_with_line_feeds_stay_on_one_line() {
    let span = Span {
        name: "multi\nline".to_string(),
        level: Level::Info,
        fields: vec![text("a", "x\ny"), text("b", "p\r\nq")],
    };
    let l = BunyanFormattingLayer::new("n\n".to_string(), 1);
    let mut all = String::new();
    for ty in [Type::EnterSpan, Type::ExitSpan] {
        all.push_str(&l.span_record_at(&span, &ty, "T").unwrap().to_line());
    }
    let lines: Vec<&str> = all.split('\n').collect();
    assert_eq!(lines.len(), 3);
    assert_eq!(lines[2], "");
    for line in &lines[..2] {
        let v: Value = serde_json::from_str(line).unwrap();
        assert_eq!(v["a"], Value::from("x\ny"));
    }
}

#[test]
fn push_fields_skips_message_only_when_asked() {
    let fields = vec![text("message", "m"), text("x", "1")];
    let mut out = vec!["\"first\":1".to_string()];
    assert_eq!(push_fields(&mut out, &fields, true), Ok(()));
    assert_eq!(out, vec!["\"first\":1".to_string(), "\"x\":\"1\"".to_string()]);
    let mut all = Vec::new();
    assert_eq!(push_fields(&mut all, &fields, false), Ok(()));
    assert_eq!(all.len(), 2);
}

#[test]
fn empty_record_line() {
    let rec = LogRecord { entries: vec![] };
    assert_eq!(rec.to_line(), "{}\n");
    let one = LogRecord { entries: vec!["\"a\":1".to_string(), "\"b\":2".to_string()] };
    assert_eq!(one.to_line(), "{\"a\":1,\"b\":2}\n");
}

#[test]
fn new_fixes_identity() {
    let l = BunyanFormattingLayer::new("svc".to_string(), 77);
    assert_eq!(l.name(), "svc");
    assert_eq!(l.pid(), 77);
    assert_eq!(l.bunyan_version(), 0);
    let e = layer().core_entries("m", &Level::Info, "T").unwrap();
    assert_eq!(e[0], "\"v\":0");
    assert_eq!(e[5], "\"pid\":4242");
    assert_ne!(EmitError::Serialization, EmitError::Write);
}

#[test]
fn span_without_fields_gives_core_record() {
    let span = Span { name: "s".to_string(), level: Level::Info, fields: vec![] };
    let rec = layer().span_record_at(&span, &Type::EnterSpan, "T").unwrap();
    assert_eq!(rec.entries.len(), 7);
}

#[test]
fn span_level_field_repeats_the_key() {
    let span = Span { name: "s".to_string(), level: Level::Info, fields: vec![text("level", "x")] };
    let rec = layer().span_record_at(&span, &Type::ExitSpan, "T").unwrap();
    assert_eq!(rec.entries[3], "\"level\":30");
    assert_eq!(rec.entries[7], "\"level\":\"x\"");
}

#[test]
fn event_message_and_user_without_span() {
    let event = Event {
        target: "t".to_string(),
        level: Level::Info,
        fields: vec![text("message", "hello"), text("user", "bob")],
    };
    let rec = layer().event_record(&event, None).unwrap();
    assert_eq!(rec.entries.len(), 8);
    assert_eq!(rec.entries[2], "\"msg\":\"hello\"");
    assert_eq!(rec.entries[7], "\"user\":\"bob\"");
}

#[test]
fn event_pid_field_repeats_the_key() {
    let event = Event { target: "t".to_string(), level: Level::Info, fields: vec![text("pid", "x")] };
    let rec = layer().event_record_at(&event, None, "T").unwrap();
    assert_eq!(rec.entries[5], "\"pid\":4242");
    assert_eq!(rec.entries[7], "\"pid\":\"x\"");
}

#[test]
fn current_span_without_fields_still_gives_record() {
    let event = Event { target: "t".to_string(), level: Level::Info, fields: vec![text("message", "m"), num("n", 1)] };
    let span = Span { name: "req".to_string(), level: Level::Info, fields: vec![] };
    let rec = layer().event_record_at(&event, Some(&span), "T").unwrap();
    assert_eq!(rec.entries.len(), 8);
    assert_eq!(rec.entries[2], "\"msg\":\"[REQ - EVENT] m\"");
}

#[test]
fn records_in_sequence_are_independent() {
    let l = layer();
    let span = Span { name: "a".to_string(), level: Level::Info, fields: vec![text("k", "\u{0}")] };
    let first = l.span_record_at(&span, &Type::EnterSpan, "T").unwrap().to_line();
    let other = Span { name: "b".to_string(), level: Level::Warn, fields: vec![] };
    let alone = layer().span_record_at(&other, &Type::ExitSpan, "T").unwrap().to_line();
    let second = l.span_record_at(&other, &Type::ExitSpan, "T").unwrap().to_line();
    assert!(first.contains("\\u0000"));
    assert_eq!(second, alone);
}
