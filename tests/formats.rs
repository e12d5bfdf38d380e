use observer::pretty::{header_style, paint, print_context, print_context_with, Emphasis};
use observer::schema::{get_rust_type, is_whitelisted, label_of, plan_observed};
use observer::{
    check_path, elapsed, printed_context, Call, Context, Duration, Event, Logger, Schema,
    SchemaError, Value,
};

fn micro() -> &'static str {
    "\u{b5}s"
}

#[test]
fn test_log_path() {
    println!("LOGDIR {:?}", check_path("/var/log/"));
    assert_eq!(check_path("/var/log/"), "OBSERVER LOGDIR \"/var/log/\"");
    assert_eq!(check_path("a\"b"), "OBSERVER LOGDIR \"a\\\"b\"");
}

#[test]
fn elapsed_under_a_second() {
    assert_eq!(elapsed(Duration(0)), "  0ns");
    assert_eq!(elapsed(Duration(7)), "  7ns");
    assert_eq!(elapsed(Duration(999)), "999ns");
    assert_eq!(elapsed(Duration(1_000)), format!("  1{}", micro()));
    assert_eq!(elapsed(Duration(12_499)), format!(" 12{}", micro()));
    assert_eq!(elapsed(Duration(999_999)), format!("1000{}", micro()));
    assert_eq!(elapsed(Duration(1_000_000)), "  1ms");
    assert_eq!(elapsed(Duration(250_600_000)), "251ms");
}

#[test]
fn elapsed_rounds_like_float_formatting() {
    for nanos in [1_500u64, 2_500, 3_500, 10_500, 999_500, 1_500_000, 2_500_000, 4_499_999] {
        let expected = if nanos < 1_000_000 {
            format!("{: >3.*}{}", 0, nanos as f64 / 1000.0, micro())
        } else {
            format!("{: >3.*}ms", 0, nanos as f64 / 1_000_000.0)
        };
        assert_eq!(elapsed(Duration(nanos)), expected, "nanos {}", nanos);
    }
}

#[test]
fn elapsed_over_a_second() {
    assert_eq!(elapsed(Duration(1_000_000_000)), "1.000s");
    assert_eq!(elapsed(Duration(2_000_042_000)), "2.042s");
    assert_eq!(elapsed(Duration(3_123_456_789)), "3.123456s");
    assert_eq!(elapsed(Duration(12_345_678_900)), "12.345s");
    assert_eq!(elapsed(Duration(125_000_000_000)), "2m 5s");
    assert_eq!(elapsed(Duration(7_384_000_000_000)), "2h 3m");
    assert_eq!(elapsed(Duration(90_000_000_000_000)), "90000s");
}

#[test]
fn value_texts() {
    assert_eq!(Value::Null.to_json_string(), "null");
    assert_eq!(Value::Bool(true).to_json_string(), "true");
    assert_eq!(Value::Int(-42).to_json_string(), "-42");
    assert_eq!(Value::Int(i64::MIN).to_json_string(), "-9223372036854775808");
    assert_eq!(Value::UInt(u64::MAX).to_json_string(), "18446744073709551615");
    assert_eq!(Value::Str("a\"b".to_string()).to_json_string(), "\"a\\\"b\"");
    assert_eq!(Value::Json("[1,2]".to_string()).to_json_string(), "[1,2]");
    assert_eq!(
        Value::Str("a\\b\u{8}\t\n\u{c}\r\u{1}\u{1f}\u{7f}\u{e9}".to_string()).to_json_string(),
        "\"a\\\\b\\b\\t\\n\\f\\r\\u0001\\u001f\u{7f}\u{e9}\""
    );
    let text = "q\"\u{2}\\z";
    assert_eq!(
        Value::Str(text.to_string()).to_json_string(),
        serde_json::to_string(text).unwrap()
    );
}

fn schema() -> Schema {
    Schema {
        events: vec![
            (
                "fn_test__a".to_string(),
                Event {
                    critical: true,
                    result_type: "I32".to_string(),
                    fields: vec![
                        ("name".to_string(), "String".to_string()),
                        ("age".to_string(), "i32".to_string()),
                    ],
                },
            ),
            (
                "bare".to_string(),
                Event { critical: false, result_type: "bool".to_string(), fields: vec![] },
            ),
        ],
    }
}

fn call(callee: &str, literal: Option<&str>) -> Call {
    Call { callee: callee.to_string(), literal: literal.map(|s| s.to_string()) }
}

#[test]
fn labels_and_whitelist() {
    assert_eq!(label_of(Some("fn_test"), "a"), "fn_test__a");
    assert_eq!(label_of(None, "a"), "a");
    assert!(is_whitelisted(Some("observer__pg"), "execute"));
    assert!(is_whitelisted(Some("observer__mysql"), "execute_returning_count"));
    assert!(!is_whitelisted(Some("observer__pg"), "select"));
    assert!(!is_whitelisted(Some("other"), "execute"));
    assert!(!is_whitelisted(None, "execute"));
    assert_eq!(get_rust_type("I32"), "i32");
}

#[test]
fn schema_lookups() {
    let s = schema();
    assert_eq!(s.get_func("name", "fn_test__a"), Ok("string".to_string()));
    assert_eq!(s.get_result_type("fn_test__a"), Ok("i32".to_string()));
    assert_eq!(
        s.get_func("city", "fn_test__a"),
        Err(SchemaError::MissingField { field: "city".to_string(), label: "fn_test__a".to_string() })
    );
    assert_eq!(
        s.get_result_type("nope"),
        Err(SchemaError::MissingEvent { label: "nope".to_string() })
    );
    assert_eq!(
        SchemaError::MissingEvent { label: "nope".to_string() }.message("/x/observer.json"),
        "No entry for \"nope\" in the events file: /x/observer.json"
    );
    assert_eq!(
        SchemaError::MissingField { field: "city".to_string(), label: "t".to_string() }
            .message("/x/observer.json"),
        "No field named \"city\" in the fields for the table \"t\" (/x/observer.json)"
    );
}

#[test]
fn plan_renames_recording_calls() {
    let s = schema();
    let calls = vec![
        call("observe_field", Some("name")),
        call("observe_field", Some("age")),
        call("observe_result", None),
        call("helper", Some("x")),
        call("observe_field", None),
    ];
    let p = plan_observed(&s, Some("fn_test"), "a", None, &calls).unwrap();
    assert_eq!(p.label, "fn_test__a");
    assert!(p.is_critical);
    assert_eq!(
        p.renames.unwrap(),
        vec![
            Some("observe_string".to_string()),
            Some("observe_i32".to_string()),
            Some("observe_result_i32".to_string()),
            None,
            None,
        ]
    );
}

#[test]
fn plan_failures() {
    let s = schema();
    let missing = plan_observed(&s, Some("fn_test"), "zzz", None, &vec![]);
    assert!(matches!(missing, Err(SchemaError::MissingEvent { label }) if label == "fn_test__zzz"));
    let bad_field =
        plan_observed(&s, Some("fn_test"), "a", None, &vec![call("observe_field", Some("city"))]);
    assert!(matches!(bad_field, Err(SchemaError::MissingField { .. })));
    let fieldless = plan_observed(&s, None, "bare", None, &vec![call("observe_field", Some("x"))]);
    assert!(matches!(fieldless, Err(SchemaError::MissingField { .. })));
    let fieldless_ok = plan_observed(&s, None, "bare", None, &vec![call("log", Some("x"))]).unwrap();
    assert!(!fieldless_ok.is_critical);
}

#[test]
fn plan_skips_the_schema_for_adapters() {
    let s = schema();
    let p = plan_observed(&s, Some("observer__pg"), "execute", None, &vec![call("observe_field", Some("q"))])
        .unwrap();
    assert_eq!(p.label, "observer__pg__execute");
    assert!(!p.is_critical);
    assert!(p.renames.is_none());
    let named = plan_observed(&s, Some("x"), "y", Some("fn_test__a"), &vec![]).unwrap();
    assert_eq!(named.label, "fn_test__a");
}

#[test]
fn pretty_rendering_with_labels() {
    let mut ctx = Context::new("req".to_string());
    ctx.observe_span_field("name", Value::Str("a".to_string()), 1_500);
    ctx.start_span("child", 2_000);
    ctx.observe_span_transient_field("ip", Value::Str("1.2.3.4".to_string()), 2_500);
    ctx.observe_span_result(Value::Int(5));
    ctx.end_span(false, Some("boom".to_string()), 3_000_000);
    ctx.finalise(4_000_000);
    let painted = vec!["MAIN".to_string(), "CHILD".to_string()];
    let text = print_context_with(&ctx, 4_000_000, &painted);
    let header = text.split("] ").next().unwrap().to_string();
    assert!(header.starts_with("context: req ["));
    assert!(header.contains('T'));
    assert!(header.ends_with("+00:00"));
    let body = &text[header.len() + 2..];
    let expected = format!(
        "MAIN:   4ms\n- {m}: name=a\n- {n}: CHILD:   3ms\n____- {h}: ip:=1.2.3.4\n______result: 5\n______error: boom\n",
        m = format!("  2{}", micro()),
        n = format!("  2{}", micro()),
        h = format!("500ns"),
    );
    assert_eq!(body, expected);
}

#[test]
fn painting_keeps_the_label() {
    let ctx = Context::new("req".to_string());
    let style = header_style(&ctx.span_stack[0], 5_000_000);
    assert!(style.slow);
    assert_eq!(style.emphasis, Emphasis::Bold);
    let painted = paint("main", style);
    assert!(painted == "main" || painted == "\u{1b}[1;31mmain\u{1b}[0m", "{:?}", painted);
    let quick = header_style(&ctx.span_stack[0], 0);
    assert!(!quick.slow);
    let green = paint("main", quick);
    assert!(green == "main" || green == "\u{1b}[1;32mmain\u{1b}[0m", "{:?}", green);
    assert!(print_context(&ctx, 0).contains("main"));
    assert!(printed_context(&Some(ctx)).unwrap().starts_with("context: req ["));
    assert!(printed_context(&None).is_none());
}

#[test]
fn logger_settings() {
    let l = Logger::builder();
    assert!(l.path.is_none() && !l.stdout && !l.stderr);
    let l = l.with_stdout().with_path("/tmp/x.log");
    assert!(l.stdout && !l.stderr);
    assert_eq!(l.path.as_deref(), Some("/tmp/x.log"));
    assert!(l.with_stderr().stderr);
}
