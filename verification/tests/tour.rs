use tracing_tour::app_target::{info, under_default_target, DEFAULT_TGT};
use tracing_tour::filter::evaluate_record;
use tracing_tour::grammar::compile;
use tracing_tour::level::Severity;
use tracing_tour::record::{duplicate_fields, Event, Field, Record, Span};
use tracing_tour::text::{
    decimal_digits_string, decimal_string, find_byte, has_prefix, starts_with, substring,
};
use tracing_tour::tour::{
    instrumented_function, noisy_logs, others, span_variations, useful_parameter_variations,
    useful_target_variations, DebugVal,
};

fn plain(level: Severity, target: &str, message: &str) -> Record {
    Record::Event(Event::new(level, target, message))
}

fn info_with(target: &str, message: &str, name: &str, value: &str) -> Record {
    Record::Event(Event::new(Severity::Info, target, message).with_field(name, value))
}

#[test]
fn event_builders_set_one_thing_each() {
    let e = Event::new(Severity::Warn, "t", "m");
    assert_eq!(e.level, Severity::Warn);
    assert_eq!(e.target, "t");
    assert_eq!(e.message, "m");
    assert!(e.fields.is_empty());
    assert_eq!(e.span, None);
    let e = e.with_field("k", "v").with_field("k2", "v2").in_span(Some("s"));
    assert_eq!(e.fields, vec![Field::new("k", "v"), Field::new("k2", "v2")]);
    assert_eq!(e.span, Some("s".to_string()));
    assert_eq!(e.level, Severity::Warn);
    let e = e.in_span(None).with_target("u");
    assert_eq!(e.span, None);
    assert_eq!(e.target, "u");
    assert_eq!(e.message, "m");
    assert_eq!(e.fields.len(), 2);
}

#[test]
fn span_builders_and_copies() {
    let s = Span::new("n", "t", 7).with_field("a", "Earth");
    assert_eq!(s.name, "n");
    assert_eq!(s.target, "t");
    assert_eq!(s.open_time, 7);
    assert_eq!(s.fields, vec![Field::new("a", "Earth")]);
    assert_eq!(s.duplicate(), s);
    assert_eq!(duplicate_fields(&s.fields), s.fields);
    assert_eq!(Field::new("a", "b").duplicate(), Field::new("a", "b"));
}

#[test]
fn custom_default_target_changes_the_target_only() {
    assert_eq!(DEFAULT_TGT, "my_app");
    let before = Event::new(Severity::Debug, "caller", "m").with_field("k", "v").in_span(Some("s"));
    let after = under_default_target(before.clone());
    assert_eq!(after.target, "my_app");
    assert_eq!(after.level, before.level);
    assert_eq!(after.message, before.message);
    assert_eq!(after.fields, before.fields);
    assert_eq!(after.span, before.span);
    assert_eq!(info("hello"), Event::new(Severity::Info, "my_app", "hello"));
}

#[test]
fn decimal_string_writes_integers() {
    for n in [0, 1, 9, 10, 42, 99, 100, 12345, -1, -10, -42, i32::MAX, i32::MIN, i32::MIN + 1] {
        assert_eq!(decimal_string(n), format!("{n}"));
    }
    for n in [0u32, 7, 10, 4294967295] {
        assert_eq!(decimal_digits_string(n), format!("{n}"));
    }
}

#[test]
fn debug_val_has_two_forms() {
    let v = DebugVal { value: 42 };
    assert_eq!(v.to_string(), "Val: 42");
    assert_eq!(v.to_debug_string(), "DebugVal { value: 42 }");
    assert_eq!(v.to_debug_string(), format!("{v:?}"));
    let v = DebugVal { value: -7 };
    assert_eq!(v.to_string(), "Val: -7");
    assert_eq!(v.to_debug_string(), format!("{v:?}"));
}

#[test]
fn starts_with_compares_bytes() {
    assert!(starts_with(b"abc", b""));
    assert!(starts_with(b"abc", b"ab"));
    assert!(starts_with(b"abc", b"abc"));
    assert!(!starts_with(b"abc", b"abcd"));
    assert!(!starts_with(b"abc", b"b"));
    assert!(starts_with(b"", b""));
    assert!(!starts_with(b"", b"a"));
}

#[test]
fn has_prefix_compares_text() {
    assert!(has_prefix("my_app::level2", "my_app"));
    assert!(has_prefix("my_app", "my_app"));
    assert!(has_prefix("my_app", ""));
    assert!(!has_prefix("my_ap", "my_app"));
    assert!(has_prefix("caf\u{e9}::x", "caf\u{e9}"));
    assert!(!has_prefix("caf\u{e9}", "cafe"));
    assert!(!has_prefix("", "a"));
}

#[test]
fn find_byte_finds_the_first_or_the_end() {
    assert_eq!(find_byte(b"ab,cd,ef", b','), 2);
    assert_eq!(find_byte(b",ab", b','), 0);
    assert_eq!(find_byte(b"ab", b','), 2);
    assert_eq!(find_byte(b"", b','), 0);
}

#[test]
fn substring_cuts_between_characters() {
    assert_eq!(substring("a=info", 0, 1), "a");
    assert_eq!(substring("a=info", 2, 6), "info");
    assert_eq!(substring("a=info", 3, 3), "");
    assert_eq!(substring("caf\u{e9},x", 0, 5), "caf\u{e9}");
    assert_eq!(substring("caf\u{e9},x", 6, 7), "x");
}

#[test]
fn useful_parameter_variations_makes_six_events() {
    assert_eq!(
        useful_parameter_variations("demo", "Earth"),
        vec![
            plain(Severity::Info, "demo", "regular println usage a=Earth"),
            info_with("demo", "named param", "name", "Earth"),
            info_with("demo", "quick named param", "a", "Earth"),
            info_with("demo", "display print param", "dbg_val", "Val: 42"),
            info_with("demo", "debug print param", "dbg_val", "DebugVal { value: 42 }"),
            info_with("demo", "named debug print param", "val", "42"),
        ],
    );
}

#[test]
fn useful_target_variations_makes_five_events() {
    assert_eq!(
        useful_target_variations("demo"),
        vec![
            plain(Severity::Info, "demo", "regular println usage"),
            plain(Severity::Info, "my_target", "targeted log"),
            plain(Severity::Warn, "my_target", "targeted log with parameter parameter"),
            plain(Severity::Info, "my_app::level2", "multi level targetd log"),
            plain(Severity::Info, "my_app::sub2", "multi level targetd log"),
        ],
    );
}

#[test]
fn target_variations_under_an_off_parent() {
    let fs = compile("my_app::level2=info,my_app=off").unwrap();
    let passed: Vec<bool> =
        useful_target_variations("demo").iter().map(|r| evaluate_record(&fs, r)).collect();
    assert_eq!(passed, vec![false, false, false, true, false]);
}

#[test]
fn span_variations_opens_logs_and_closes() {
    let span = Span::new("my_span", "demo", 11);
    assert_eq!(
        span_variations("demo", 11),
        vec![
            Record::SpanOpen(span.clone()),
            Record::Event(Event::new(Severity::Info, "demo", "inside span").in_span(Some("my_span"))),
            Record::Event(
                Event::new(Severity::Info, "my_app", "custom, inside span").in_span(Some("my_span")),
            ),
            Record::SpanClose(span),
        ],
    );
}

#[test]
fn noisy_logs_makes_one_error_among_infos() {
    assert_eq!(
        noisy_logs("noisy"),
        vec![
            plain(Severity::Info, "noisy", "noisy log 1"),
            plain(Severity::Info, "noisy", "noisy log 2"),
            plain(Severity::Error, "noisy", "noisy log err example"),
            plain(Severity::Info, "noisy", "noisy log 3"),
        ],
    );
    let fs = compile("trace,noisy=error").unwrap();
    let passed: Vec<bool> = noisy_logs("noisy").iter().map(|r| evaluate_record(&fs, r)).collect();
    assert_eq!(passed, vec![false, false, true, false]);
}

#[test]
fn others_logs_under_the_default_target() {
    assert_eq!(others(), vec![plain(Severity::Info, "my_app", "in fn others, custom macro log")]);
    let fs = compile("info,my_app=off").unwrap();
    assert!(!evaluate_record(&fs, &others()[0]));
}

#[test]
fn instrumented_function_runs_inside_its_own_span() {
    let span = Span::new("instrumented_function", "demo", 5).with_field("a", "Earth");
    assert_eq!(
        instrumented_function("demo", "Earth".to_string(), 5),
        vec![
            Record::SpanOpen(span.clone()),
            Record::Event(
                Event::new(Severity::Info, "demo", "instrumeted_function called with Earth")
                    .in_span(Some("instrumented_function")),
            ),
            Record::Event(
                Event::new(Severity::Info, "demo", "instrumeted_function called")
                    .with_field("a", "Earth")
                    .in_span(Some("instrumented_function")),
            ),
            Record::SpanClose(span),
        ],
    );
}
