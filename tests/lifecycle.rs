use observer::observe_fields::{
    observe_i32, observe_optional_bool, observe_result_i32, observe_string, observe_u64,
    transient_string,
};
use observer::{
    create_context, end_context, end_span, log, observe_span_id, shape_hash, shape_trace,
    start_span, test_trace, trace, Backend, Context, Observe, Observer, Span, SpanItem, Value,
};
use std::sync::{Arc, Mutex};

struct Quiet;

impl Backend for Quiet {}

struct Recording {
    name: &'static str,
    events: Arc<Mutex<Vec<String>>>,
}

impl Backend for Recording {
    fn app_started(&self) {
        self.events.lock().unwrap().push(format!("{}.app_started", self.name));
    }

    fn context_created(&self, id: &str) {
        self.events.lock().unwrap().push(format!("{}.context_created {}", self.name, id));
    }

    fn context_ended(&self, ctx: &Context) {
        self.events.lock().unwrap().push(format!("{}.context_ended {}", self.name, ctx.id));
    }

    fn span_created(&self, id: &str) {
        self.events.lock().unwrap().push(format!("{}.span_created {}", self.name, id));
    }

    fn span_ended(&self, span: Option<&Span>) {
        let id = span.map(|s| s.id.clone()).unwrap_or_default();
        self.events.lock().unwrap().push(format!("{}.span_ended {}", self.name, id));
    }
}

struct DemoQueue {
    name: String,
}

impl Backend for DemoQueue {
    fn context_ended(&self, ctx: &Context) {
        assert_eq!(self.name, "api_testing");
        assert_eq!(ctx.id, "test_context");
    }
}

fn quiet() -> Observer {
    Observer::builder(Box::new(Quiet)).init()
}

fn record_b(obs: &Observer, slot: &mut Option<Context>, name: &str, age: i32) {
    start_span(Some(obs), slot, "fn_test__b");
    observe_string(slot, "name", name);
    observe_i32(slot, "age", age);
    end_span(Some(obs), slot, false, None);
}

fn run_a(obs: &Observer, slot: &mut Option<Context>, b_name: &str, extra: bool) {
    start_span(Some(obs), slot, "fn_test__a");
    record_b(obs, slot, b_name, 30);
    observe_string(slot, "name", "a");
    observe_i32(slot, "age", 28);
    if extra {
        observe_string(slot, "city", "x");
    }
    record_b(obs, slot, b_name, 30);
    end_span(Some(obs), slot, false, None);
}

#[test]
fn load_test_create_context() {
    let obs = Observer::builder(Box::new(DemoQueue { name: "api_testing".to_string() })).init();
    let mut slot: Option<Context> = None;
    for _ in 0..10 {
        create_context(Some(&obs), &mut slot, "test_context");
        for _ in 0..10 {
            start_span(Some(&obs), &mut slot, "segment_id");
            end_span(Some(&obs), &mut slot, false, None);
        }
        let ctx = end_context(Some(&obs), &mut slot).unwrap();
        assert_eq!(ctx.span_stack.len(), 1);
        assert_eq!(ctx.span_stack[0].items.len(), 10);
        assert!(slot.is_none());
    }
}

#[test]
fn trivial_context() {
    let obs = quiet();
    let mut slot: Option<Context> = None;
    create_context(Some(&obs), &mut slot, "req");
    let ctx = end_context(Some(&obs), &mut slot).unwrap();
    assert_eq!(ctx.id, "req");
    assert_eq!(ctx.key.len(), 36);
    assert_eq!(ctx.span_stack.len(), 1);
    let main = &ctx.span_stack[0];
    assert_eq!(main.id, "main");
    assert_eq!(main.key.len(), 36);
    assert!(main.items.is_empty());
    assert_eq!(main.success, Some(true));
    assert!(main.err.is_none());
    assert!(main.duration.is_some());
}

#[test]
fn nested_calls_build_the_tree() {
    let obs = quiet();
    let mut slot: Option<Context> = None;
    create_context(Some(&obs), &mut slot, "req");
    run_a(&obs, &mut slot, "b", false);
    let expected = "main\n- fn_test__a\n____- fn_test__b\n________- name: observed\n________- age: observed\n____- name: observed\n____- age: observed\n____- fn_test__b\n________- name: observed\n________- age: observed\n";
    assert_eq!(shape_trace(&slot).unwrap(), expected);
    let ctx = slot.as_ref().unwrap();
    let main = &ctx.span_stack[0];
    assert_eq!(main.items.len(), 1);
    let a = match &main.items[0].1 {
        SpanItem::Frame(a) => a,
        other => panic!("expected a frame, got {:?}", other),
    };
    assert_eq!(a.id, "fn_test__a");
    assert_eq!(a.items.len(), 4);
    assert!(matches!(&a.items[0].1, SpanItem::Frame(b) if b.id == "fn_test__b"));
    assert!(matches!(&a.items[1].1, SpanItem::Field { name, value: Value::Str(v) } if name == "name" && v == "a"));
    assert!(matches!(&a.items[2].1, SpanItem::Field { name, value: Value::Int(28) } if name == "age"));
    match &a.items[3].1 {
        SpanItem::Frame(b) => {
            assert!(matches!(&b.items[0].1, SpanItem::Field { name, value: Value::Str(v) } if name == "name" && v == "b"));
            assert!(matches!(&b.items[1].1, SpanItem::Field { name, value: Value::Int(30) } if name == "age"));
            assert_eq!(b.success, Some(true));
        }
        other => panic!("expected a frame, got {:?}", other),
    }
    let values = "main\n- fn_test__a\n____- fn_test__b\n________- name=b\n________- age=30\n____- name=a\n____- age=28\n____- fn_test__b\n________- name=b\n________- age=30\n";
    assert_eq!(test_trace(&slot).unwrap(), values);
    assert_eq!(trace(&slot).unwrap(), values);
}

#[test]
fn shape_hash_ignores_values_and_sees_names() {
    let obs = quiet();
    let mut first: Option<Context> = None;
    create_context(Some(&obs), &mut first, "req");
    run_a(&obs, &mut first, "b", false);
    let mut second: Option<Context> = None;
    create_context(Some(&obs), &mut second, "req");
    run_a(&obs, &mut second, "c", false);
    let mut third: Option<Context> = None;
    create_context(Some(&obs), &mut third, "req");
    run_a(&obs, &mut third, "b", true);
    let h1 = shape_hash(&first);
    assert_eq!(h1.len(), 64);
    assert_eq!(h1, shape_hash(&first));
    assert_eq!(h1, shape_hash(&second));
    assert_ne!(h1, shape_hash(&third));
}

#[test]
fn shape_hash_without_context_digests_the_empty_text() {
    let none: Option<Context> = None;
    assert_eq!(
        shape_hash(&none),
        "e3b0c44298fc1c149afbf4c8996fb92427ae41e4649b934ca495991b7852b855"
    );
}

#[test]
fn error_propagates_and_fails_the_span() {
    let obs = quiet();
    let mut slot: Option<Context> = None;
    create_context(Some(&obs), &mut slot, "req");
    let r: Result<i32, String> = Observe::observe_with_result(Some(&obs), &mut slot, "upd", false, |s| {
        (s, Err("boom".to_string()))
    });
    assert_eq!(r, Err("boom".to_string()));
    let ctx = slot.as_ref().unwrap();
    match &ctx.span_stack[0].items[0].1 {
        SpanItem::Frame(s) => {
            assert_eq!(s.id, "upd");
            assert_eq!(s.success, Some(false));
            assert_eq!(s.err, Some("boom".to_string()));
        }
        other => panic!("expected a frame, got {:?}", other),
    }
    let ok: Result<i32, String> =
        Observe::observe_with_result(Some(&obs), &mut slot, "upd", false, |mut s| {
            observe_string(&mut s, "name", "inner");
            (s, Ok(7))
        });
    assert_eq!(ok, Ok(7));
    match &slot.as_ref().unwrap().span_stack[0].items[1].1 {
        SpanItem::Frame(s) => {
            assert_eq!(s.success, Some(true));
            assert!(matches!(&s.items[0].1, SpanItem::Field { name, value: Value::Str(v) } if name == "name" && v == "inner"));
        }
        other => panic!("expected a frame, got {:?}", other),
    }
    let all = Observe::observe_all(Some(&obs), &mut slot, "all", false, |s| (s, 5));
    assert_eq!(all, 5);
    let debug: Result<(), String> =
        observer::observe::observe_with_result(Some(&obs), &mut slot, "dbg", false, |s| {
            (s, Err("bad".to_string()))
        });
    assert!(debug.is_err());
    let ctx = slot.as_ref().unwrap();
    match &ctx.span_stack[0].items[3].1 {
        SpanItem::Frame(s) => assert_eq!(s.err, Some("\"bad\"".to_string())),
        other => panic!("expected a frame, got {:?}", other),
    }
}

#[test]
fn whitelisted_span_is_relabelled() {
    let obs = quiet();
    let mut slot: Option<Context> = None;
    create_context(Some(&obs), &mut slot, "req");
    start_span(Some(&obs), &mut slot, "observer__pg__execute");
    assert_eq!(slot.as_ref().unwrap().span_stack[1].id, "observer__pg__execute");
    observe_span_id(&mut slot, "db__select__users");
    end_span(Some(&obs), &mut slot, false, None);
    let ctx = end_context(Some(&obs), &mut slot).unwrap();
    match &ctx.span_stack[0].items[0].1 {
        SpanItem::Frame(s) => assert_eq!(s.id, "db__select__users"),
        other => panic!("expected a frame, got {:?}", other),
    }
}

#[test]
fn transient_field_stays_out_of_the_shape() {
    let obs = quiet();
    let mut with: Option<Context> = None;
    create_context(Some(&obs), &mut with, "req");
    observe_string(&mut with, "user", "u1");
    transient_string(&mut with, "ip", "1.2.3.4");
    let mut without: Option<Context> = None;
    create_context(Some(&obs), &mut without, "req");
    observe_string(&mut without, "user", "u2");
    assert!(trace(&with).unwrap().contains("ip: observed"));
    assert!(!shape_trace(&with).unwrap().contains("ip"));
    assert_eq!(shape_trace(&with), shape_trace(&without));
    assert_eq!(shape_hash(&with), shape_hash(&without));
}

#[test]
fn backends_hear_events_in_order() {
    let events = Arc::new(Mutex::new(Vec::new()));
    let obs = Observer::builder(Box::new(Recording { name: "A", events: events.clone() }))
        .add_backend(Box::new(Recording { name: "B", events: events.clone() }))
        .add_backend(Box::new(Recording { name: "C", events: events.clone() }))
        .init();
    let mut slot: Option<Context> = None;
    create_context(Some(&obs), &mut slot, "req");
    create_context(Some(&obs), &mut slot, "again");
    start_span(Some(&obs), &mut slot, "s");
    end_span(Some(&obs), &mut slot, false, None);
    end_context(Some(&obs), &mut slot);
    let got = events.lock().unwrap().clone();
    assert_eq!(
        got,
        vec![
            "A.app_started",
            "B.app_started",
            "C.app_started",
            "A.context_created req",
            "B.context_created req",
            "C.context_created req",
            "A.span_created s",
            "B.span_created s",
            "C.span_created s",
            "A.span_ended main",
            "B.span_ended main",
            "C.span_ended main",
            "A.context_ended req",
            "B.context_ended req",
            "C.context_ended req",
        ]
    );
}

#[test]
fn recorders_without_context_do_nothing() {
    let obs = quiet();
    let mut slot: Option<Context> = None;
    observe_string(&mut slot, "name", "x");
    observe_u64(&mut slot, "n", 3);
    transient_string(&mut slot, "ip", "1.2.3.4");
    observe_result_i32(&mut slot, 4);
    observe_span_id(&mut slot, "other");
    log(Some(&obs), &mut slot, "hello");
    start_span(Some(&obs), &mut slot, "s");
    end_span(Some(&obs), &mut slot, false, None);
    assert!(slot.is_none());
    assert!(shape_trace(&slot).is_none());
    assert!(end_context(Some(&obs), &mut slot).is_none());
}

#[test]
fn nothing_happens_without_an_observer() {
    let mut slot: Option<Context> = None;
    create_context(None, &mut slot, "req");
    assert!(slot.is_none());
    let obs = quiet();
    create_context(Some(&obs), &mut slot, "req");
    start_span(None, &mut slot, "s");
    assert_eq!(slot.as_ref().unwrap().span_stack.len(), 1);
    assert!(end_context(None, &mut slot).is_none());
    assert!(slot.is_some());
}

#[test]
fn ending_the_main_span_keeps_one_span() {
    let mut ctx = Context::new("req".to_string());
    ctx.observe_span_field("a", Value::Int(1), 5);
    ctx.end_span(false, Some("x".to_string()), 10);
    assert_eq!(ctx.span_stack.len(), 1);
    assert_eq!(ctx.span_stack[0].id, "main");
    assert_eq!(ctx.span_stack[0].items.len(), 1);
    assert!(ctx.span_stack[0].success.is_none());
    assert!(ctx.span_stack[0].err.is_none());
    assert!(ctx.span_stack[0].duration.is_none());
    ctx.finalise(20);
    assert_eq!(ctx.span_stack[0].success, Some(true));
    assert_eq!(ctx.span_stack[0].duration.map(|d| d.0), Some(20));
}

#[test]
fn offsets_never_decrease() {
    let mut ctx = Context::new("req".to_string());
    ctx.span_log("first", 50);
    ctx.span_log("second", 20);
    ctx.start_span("child", 30);
    ctx.observe_span_field("f", Value::Bool(true), 45);
    ctx.end_span(false, Some("failed".to_string()), 60);
    let main = &ctx.span_stack[0];
    let offsets: Vec<u64> = main.items.iter().map(|(d, _)| d.0).collect();
    assert_eq!(offsets, vec![50, 50, 50]);
    match &main.items[2].1 {
        SpanItem::Frame(child) => {
            assert_eq!(child.items[0].0 .0, 15);
            assert_eq!(child.duration.map(|d| d.0), Some(30));
            assert_eq!(child.success, Some(false));
            assert_eq!(child.err, Some("failed".to_string()));
        }
        other => panic!("expected a frame, got {:?}", other),
    }
}

#[test]
fn optional_bool_records_only_some() {
    let obs = quiet();
    let mut slot: Option<Context> = None;
    create_context(Some(&obs), &mut slot, "req");
    observe_optional_bool(&mut slot, "flag", None);
    assert!(slot.as_ref().unwrap().span_stack[0].items.is_empty());
    observe_optional_bool(&mut slot, "flag", Some(false));
    assert_eq!(test_trace(&slot).unwrap(), "main\n- flag=false\n");
}

#[test]
fn query_shape_hides_values() {
    let mut slot = Some(Context::new("req".to_string()));
    observer::observe_query(&mut slot, "select 1".to_string(), Some("[1]".to_string()), Ok(3));
    observer::observe_query(&mut slot, "select 2".to_string(), None, Err("no table".to_string()));
    assert_eq!(
        shape_trace(&slot).unwrap(),
        "main\n- query: select 1\n   bind: observed\n   rows: observed\n- query: select 2\n  error: no table\n"
    );
    assert_eq!(
        test_trace(&slot).unwrap(),
        "main\n- query: select 1\n   bind: observed\n   rows: 3\n- query: select 2\n  error: no table\n"
    );
}

#[test]
fn result_is_written_once_and_shows_in_the_shape() {
    let obs = quiet();
    let mut slot: Option<Context> = None;
    create_context(Some(&obs), &mut slot, "req");
    let before = shape_hash(&slot);
    observe_result_i32(&mut slot, 5);
    observe_result_i32(&mut slot, 6);
    assert!(matches!(slot.as_ref().unwrap().span_stack[0].result, Some(Value::Int(5))));
    assert_eq!(shape_trace(&slot).unwrap(), "main\n- result: observed\n");
    assert_eq!(test_trace(&slot).unwrap(), "main\n- result=5\n");
    assert_ne!(shape_hash(&slot), before);
    start_span(Some(&obs), &mut slot, "child");
    observe_result_i32(&mut slot, 7);
    end_span(Some(&obs), &mut slot, false, None);
    assert_eq!(
        shape_trace(&slot).unwrap(),
        "main\n- child\n____- result: observed\n- result: observed\n"
    );
}

#[test]
fn setters_write_once() {
    let mut s = Span::new("s", 0);
    s.set_success(false);
    s.set_success(true);
    s.set_err(Some("first".to_string()));
    s.set_err(Some("second".to_string()));
    assert_eq!(s.success, Some(false));
    assert_eq!(s.err, Some("first".to_string()));
    s.end(10);
    s.set_result(Value::Null);
    assert!(s.result.is_none());
    assert_eq!(s.duration.map(|d| d.0), Some(10));
}

#[test]
fn finalise_closes_pending_spans() {
    let mut ctx = Context::new("req".to_string());
    ctx.start_span("a", 10);
    ctx.start_span("b", 20);
    ctx.finalise(100);
    assert_eq!(ctx.span_stack.len(), 1);
    let main = &ctx.span_stack[0];
    assert_eq!(main.success, Some(true));
    assert_eq!(main.duration.map(|d| d.0), Some(100));
    match &main.items[0].1 {
        SpanItem::Frame(a) => {
            assert_eq!(a.id, "a");
            assert_eq!(a.success, Some(true));
            assert_eq!(a.duration.map(|d| d.0), Some(90));
            match &a.items[0].1 {
                SpanItem::Frame(b) => {
                    assert_eq!(b.id, "b");
                    assert_eq!(b.success, Some(true));
                    assert!(b.err.is_none());
                }
                other => panic!("expected a frame, got {:?}", other),
            }
        }
        other => panic!("expected a frame, got {:?}", other),
    }
}
