use tracing::level_filters::LevelFilter;
use tracing_tour::directive::Directive;
use tracing_tour::filter::{evaluate, FilterSet};
use tracing_tour::grammar::{
    compile, compile_or_fallback, parse_directive, FilterSource, ParseError, ParseErrorKind, COMMA,
    DEFAULT_RUST_LOG, EQUALS,
};
use tracing_tour::level::{Severity, Threshold};
use tracing_tour::record::Event;

fn directive(target: Option<&str>, level: Threshold) -> Directive {
    Directive::new(target, level)
}

fn at_least(level: Severity) -> Threshold {
    Threshold::AtLeast(level)
}

fn directives_of(spec: &str) -> Vec<Directive> {
    compile(spec).unwrap().directives().clone()
}

fn error_of(spec: &str) -> ParseError {
    compile(spec).unwrap_err()
}

#[test]
fn separators_are_comma_and_equals() {
    assert_eq!(COMMA, b',');
    assert_eq!(EQUALS, b'=');
}

#[test]
fn compile_reads_target_and_level() {
    assert_eq!(directives_of("a=info"), vec![directive(Some("a"), at_least(Severity::Info))]);
    assert_eq!(
        directives_of("my_app::level2=debug"),
        vec![directive(Some("my_app::level2"), at_least(Severity::Debug))],
    );
}

#[test]
fn compile_reads_every_level_name() {
    assert_eq!(directives_of("trace"), vec![directive(None, at_least(Severity::Trace))]);
    assert_eq!(directives_of("debug"), vec![directive(None, at_least(Severity::Debug))]);
    assert_eq!(directives_of("info"), vec![directive(None, at_least(Severity::Info))]);
    assert_eq!(directives_of("warn"), vec![directive(None, at_least(Severity::Warn))]);
    assert_eq!(directives_of("error"), vec![directive(None, at_least(Severity::Error))]);
    assert_eq!(directives_of("off"), vec![directive(None, Threshold::Off)]);
}

#[test]
fn level_names_ignore_ascii_case() {
    assert_eq!(directives_of("INFO"), vec![directive(None, at_least(Severity::Info))]);
    assert_eq!(directives_of("a=WaRn"), vec![directive(Some("a"), at_least(Severity::Warn))]);
    assert_eq!(directives_of("a=OFF"), vec![directive(Some("a"), Threshold::Off)]);
}

#[test]
fn levels_may_be_numbers() {
    assert_eq!(directives_of("a=0"), vec![directive(Some("a"), Threshold::Off)]);
    assert_eq!(directives_of("a=1"), vec![directive(Some("a"), at_least(Severity::Error))]);
    assert_eq!(directives_of("a=2"), vec![directive(Some("a"), at_least(Severity::Warn))]);
    assert_eq!(directives_of("a=3"), vec![directive(Some("a"), at_least(Severity::Info))]);
    assert_eq!(directives_of("a=4"), vec![directive(Some("a"), at_least(Severity::Debug))]);
    assert_eq!(directives_of("a=5"), vec![directive(Some("a"), at_least(Severity::Trace))]);
    assert_eq!(directives_of("a=+3"), vec![directive(Some("a"), at_least(Severity::Info))]);
    assert_eq!(directives_of("a=003"), vec![directive(Some("a"), at_least(Severity::Info))]);
    assert_eq!(directives_of("5"), vec![directive(None, at_least(Severity::Trace))]);
    assert_eq!(error_of("a=6").kind, ParseErrorKind::UnknownLevel);
    assert_eq!(error_of("a=-1").kind, ParseErrorKind::UnknownLevel);
    assert_eq!(error_of("a=+").kind, ParseErrorKind::UnknownLevel);
    assert_eq!(error_of("a=99999999999999999999999999").kind, ParseErrorKind::UnknownLevel);
}

#[test]
fn level_tokens_are_those_of_the_tracing_crates() {
    let tokens = [
        "trace", "debug", "info", "warn", "error", "off", "TRACE", "Debug", "iNfO", "0", "1", "2",
        "3", "4", "5", "6", "+0", "+5", "05", "-0", "1.0", "warning", "err", "of", "offf", "inf",
        "traces", " info", "info ", "\u{130}nfo", "e\u{301}rror", "10", "+", "++1",
        "18446744073709551616", "18446744073709551615",
    ];
    for token in tokens {
        let spec = format!("t={token}");
        let ours = match compile(&spec) {
            Ok(fs) => Some(fs.directives()[0].level),
            Err(_) => None,
        };
        let theirs = match token.parse::<LevelFilter>() {
            Ok(filter) => Some(match filter.into_level() {
                None => Threshold::Off,
                Some(tracing::Level::ERROR) => at_least(Severity::Error),
                Some(tracing::Level::WARN) => at_least(Severity::Warn),
                Some(tracing::Level::INFO) => at_least(Severity::Info),
                Some(tracing::Level::DEBUG) => at_least(Severity::Debug),
                Some(tracing::Level::TRACE) => at_least(Severity::Trace),
            }),
            Err(_) => None,
        };
        assert_eq!(ours, theirs);
    }
}

#[test]
fn bare_target_lets_everything_through() {
    assert_eq!(directives_of("noisy"), vec![directive(Some("noisy"), at_least(Severity::Trace))]);
    let fs = compile("noisy").unwrap();
    assert!(evaluate(&fs, &Event::new(Severity::Trace, "noisy::inner", "m")));
    assert!(!evaluate(&fs, &Event::new(Severity::Error, "quiet", "m")));
}

#[test]
fn level_without_target_applies_to_every_target() {
    assert_eq!(directives_of("=info"), vec![directive(None, at_least(Severity::Info))]);
}

#[test]
fn compile_keeps_the_order_of_the_clauses() {
    assert_eq!(
        directives_of("info,my_app::level2=info,my_app=off"),
        vec![
            directive(None, at_least(Severity::Info)),
            directive(Some("my_app::level2"), at_least(Severity::Info)),
            directive(Some("my_app"), Threshold::Off),
        ],
    );
    assert_eq!(compile("info,my_app=off").unwrap().default_threshold(), Threshold::Off);
}

#[test]
fn default_directive_string_compiles() {
    assert_eq!(DEFAULT_RUST_LOG, "trace,noisy=error");
    assert_eq!(
        directives_of(DEFAULT_RUST_LOG),
        vec![
            directive(None, at_least(Severity::Trace)),
            directive(Some("noisy"), at_least(Severity::Error)),
        ],
    );
}

#[test]
fn empty_string_is_the_empty_filter_set() {
    let fs = compile("").unwrap();
    assert_eq!(fs, FilterSet::empty());
    assert_eq!(fs.directives().len(), 0);
    assert_eq!(fs.default_threshold(), Threshold::Off);
}

#[test]
fn unknown_level_is_an_error() {
    assert_eq!(
        compile("a=notalevel"),
        Err(ParseError { kind: ParseErrorKind::UnknownLevel, clause: 0 }),
    );
    assert_eq!(
        compile("info,a=b=info"),
        Err(ParseError { kind: ParseErrorKind::UnknownLevel, clause: 1 }),
    );
    assert_eq!(
        compile("=nope"),
        Err(ParseError { kind: ParseErrorKind::UnknownLevel, clause: 0 }),
    );
}

#[test]
fn malformed_clause_is_an_error() {
    let malformed = |clause: usize| Err(ParseError { kind: ParseErrorKind::MalformedClause, clause });
    assert_eq!(compile(","), malformed(0));
    assert_eq!(compile("info,"), malformed(1));
    assert_eq!(compile(",info"), malformed(0));
    assert_eq!(compile("a=info,,b=warn"), malformed(1));
    assert_eq!(compile("="), malformed(0));
    assert_eq!(compile("a="), malformed(0));
    assert_eq!(compile("a=info,b="), malformed(1));
}

#[test]
fn first_bad_clause_is_reported() {
    assert_eq!(
        compile("a=info,b=nope,,c="),
        Err(ParseError { kind: ParseErrorKind::UnknownLevel, clause: 1 }),
    );
    assert_eq!(
        compile("a=info,,b=nope"),
        Err(ParseError { kind: ParseErrorKind::MalformedClause, clause: 1 }),
    );
}

#[test]
fn targets_may_hold_any_text() {
    assert_eq!(
        directives_of("caf\u{e9}::\u{1f600}=warn, spaced =info"),
        vec![
            directive(Some("caf\u{e9}::\u{1f600}"), at_least(Severity::Warn)),
            directive(Some(" spaced "), at_least(Severity::Info)),
        ],
    );
    assert_eq!(error_of("a= info").kind, ParseErrorKind::UnknownLevel);
}

#[test]
fn clause_is_cut_at_its_first_equals_sign() {
    assert_eq!(parse_directive("=info"), Ok(directive(None, at_least(Severity::Info))));
    assert_eq!(parse_directive("a="), Err(ParseErrorKind::MalformedClause));
    assert_eq!(parse_directive("="), Err(ParseErrorKind::MalformedClause));
    assert_eq!(parse_directive("a=b=c"), Err(ParseErrorKind::UnknownLevel));
    assert_eq!(parse_directive("a==info"), Err(ParseErrorKind::UnknownLevel));
    assert_eq!(
        parse_directive("caf\u{e9}\u{1f600}=warn"),
        Ok(directive(Some("caf\u{e9}\u{1f600}"), at_least(Severity::Warn))),
    );
    assert_eq!(
        parse_directive("\u{1f600}"),
        Ok(directive(Some("\u{1f600}"), at_least(Severity::Trace))),
    );
}

#[test]
fn parse_directive_reads_one_clause() {
    assert_eq!(parse_directive("a=info"), Ok(directive(Some("a"), at_least(Severity::Info))));
    assert_eq!(parse_directive("warn"), Ok(directive(None, at_least(Severity::Warn))));
    assert_eq!(parse_directive("a,b"), Ok(directive(Some("a,b"), at_least(Severity::Trace))));
    assert_eq!(parse_directive(""), Err(ParseErrorKind::MalformedClause));
    assert_eq!(parse_directive("a=b"), Err(ParseErrorKind::UnknownLevel));
}

#[test]
fn given_spec_is_used_when_it_compiles() {
    let out = compile_or_fallback(Some("warn"), DEFAULT_RUST_LOG);
    assert_eq!(out.source, FilterSource::Given);
    assert_eq!(out.filter, compile("warn").unwrap());
    assert_eq!(out.filter_spec_parse_error, None);
    assert_eq!(out.fallback_parse_error, None);
    let out = compile_or_fallback(Some(""), DEFAULT_RUST_LOG);
    assert_eq!(out.source, FilterSource::Given);
    assert_eq!(out.filter, FilterSet::empty());
}

#[test]
fn absent_spec_yields_the_fallback() {
    let out = compile_or_fallback(None, DEFAULT_RUST_LOG);
    assert_eq!(out.source, FilterSource::Fallback);
    assert_eq!(out.filter, compile("trace,noisy=error").unwrap());
    assert_eq!(out.filter_spec_parse_error, None);
    assert_eq!(out.fallback_parse_error, None);
}

#[test]
fn invalid_spec_yields_the_fallback() {
    let out = compile_or_fallback(Some("a=notalevel"), DEFAULT_RUST_LOG);
    assert_eq!(out.source, FilterSource::Fallback);
    assert_eq!(out.filter, compile("trace,noisy=error").unwrap());
    assert_eq!(
        out.filter_spec_parse_error,
        Some(ParseError { kind: ParseErrorKind::UnknownLevel, clause: 0 }),
    );
    assert_eq!(out.fallback_parse_error, None);
    assert!(evaluate(&out.filter, &Event::new(Severity::Trace, "a", "m")));
    assert!(!evaluate(&out.filter, &Event::new(Severity::Warn, "noisy", "m")));
    assert!(evaluate(&out.filter, &Event::new(Severity::Error, "noisy", "m")));
}

#[test]
fn invalid_fallback_yields_the_empty_filter_set() {
    let out = compile_or_fallback(Some("a=notalevel"), "info,");
    assert_eq!(out.source, FilterSource::Empty);
    assert_eq!(out.filter, FilterSet::empty());
    assert_eq!(
        out.filter_spec_parse_error,
        Some(ParseError { kind: ParseErrorKind::UnknownLevel, clause: 0 }),
    );
    assert_eq!(
        out.fallback_parse_error,
        Some(ParseError { kind: ParseErrorKind::MalformedClause, clause: 1 }),
    );
    let out = compile_or_fallback(None, "x=y");
    assert_eq!(out.source, FilterSource::Empty);
    assert_eq!(out.filter_spec_parse_error, None);
    assert_eq!(
        out.fallback_parse_error,
        Some(ParseError { kind: ParseErrorKind::UnknownLevel, clause: 0 }),
    );
    assert!(!evaluate(&out.filter, &Event::new(Severity::Error, "x", "m")));
}
