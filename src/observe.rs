//! Running a function inside a span: the wrapping that an observed function
//! gets. The wrapped function is handed the context slot, with the new span
//! on top, and hands it back when it is done.
use vstd::prelude::*;
use vstd::string::*;
use crate::context::{ended, Context};
use crate::observer::{end_span, slot_wf, start_span, Observer};

verus! {

/// `m` is `c` with a fresh open span labelled `id` pushed on top.
pub open spec fn started(c: Context, m: Context, id: Seq<char>) -> bool {
    &&& m.wf()
    &&& m.id == c.id
    &&& m.key == c.key
    &&& m.span_stack@.len() == c.span_stack@.len() + 1
    &&& m.span_stack@.drop_last() == c.span_stack@
    &&& m.top().id@ == id
    &&& m.top().is_open()
    &&& m.top().items@.len() == 0
}

/// The slot handed to the wrapped function: `old` with a span labelled `id`
/// opened, where an observer and a context are there; else `old`.
pub open spec fn opened(observer: bool, old: Option<Context>, m: Option<Context>, id: Seq<char>) -> bool {
    if observer && old is Some {
        m matches Some(mm) && started(old.unwrap(), mm, id)
    } else {
        m == old
    }
}

/// The slot after the span that the wrapped function handed `back` was
/// closed with outcome `err`, where an observer and a context are there.
pub open spec fn closed(observer: bool, back: Option<Context>, new: Option<Context>, err: Option<String>) -> bool {
    if observer && back is Some {
        new matches Some(d) && exists|now: u64| ended(back.unwrap(), d, err, now)
    } else {
        new == back
    }
}

/// Wraps functions in spans.
pub struct Observe;

/// Relies on the Debug impl of `E`: its text.
#[verifier::external_body]
fn debug_text<E: std::fmt::Debug>(e: &E) -> (r: String) {
    format!("{:?}", e)
}

impl Observe {
    /// Opens a span labelled `table_name`, runs `run` on the slot, and closes
    /// the span: successful on `Ok`, failed with the error's text on `Err`.
    /// The result of `run` comes back unchanged.
    pub fn observe_with_result<F, T, E>(
        observer: Option<&Observer>,
        slot: &mut Option<Context>,
        table_name: &str,
        is_critical: bool,
        run: F,
    ) -> (r: Result<T, E>) where
        F: FnOnce(Option<Context>) -> (Option<Context>, Result<T, E>),
        E: std::fmt::Display,

        requires
            slot_wf(*old(slot)),
            forall|s: Option<Context>| slot_wf(s) ==> call_requires(run, (s,)),
            forall|s: Option<Context>, out: (Option<Context>, Result<T, E>)|
                call_ensures(run, (s,), out) ==> slot_wf(out.0),
        ensures
            slot_wf(*final(slot)),
            exists|m: Option<Context>, back: Option<Context>, err: Option<String>|
                #[trigger] call_ensures(run, (m,), (back, r)) && opened(
                    observer is Some,
                    *old(slot),
                    m,
                    table_name@,
                ) && #[trigger] closed(observer is Some, back, *final(slot), err) && (r is Ok <==> err is None)
                    && (r matches Err(e) ==> err matches Some(s) && to_string_from_display_ensures::<
                    E,
                >(&e, s)),
    {
        start_span(observer, slot, table_name);
        let m = slot.take();
        let ghost gm = m;
        let (back, r) = run(m);
        let ghost gb = back;
        *slot = back;
        match r {
            Ok(v) => {
                end_span(observer, slot, is_critical, None);
                assert(closed(observer is Some, gb, *slot, None));
                Ok(v)
            },
            Err(e) => {
                let text = e.to_string();
                let ghost t = text;
                end_span(observer, slot, is_critical, Some(text));
                assert(closed(observer is Some, gb, *slot, Some(t)));
                Err(e)
            },
        }
    }

    /// Opens a span labelled `table_name`, runs `run` on the slot, and closes
    /// the span as successful. The result of `run` comes back unchanged.
    pub fn observe_all<F, T>(
        observer: Option<&Observer>,
        slot: &mut Option<Context>,
        table_name: &str,
        is_critical: bool,
        run: F,
    ) -> (r: T) where F: FnOnce(Option<Context>) -> (Option<Context>, T)
        requires
            slot_wf(*old(slot)),
            forall|s: Option<Context>| slot_wf(s) ==> call_requires(run, (s,)),
            forall|s: Option<Context>, out: (Option<Context>, T)|
                call_ensures(run, (s,), out) ==> slot_wf(out.0),
        ensures
            slot_wf(*final(slot)),
            exists|m: Option<Context>, back: Option<Context>|
                #[trigger] call_ensures(run, (m,), (back, r)) && opened(
                    observer is Some,
                    *old(slot),
                    m,
                    table_name@,
                ) && closed(observer is Some, back, *final(slot), None),
    {
        start_span(observer, slot, table_name);
        let m = slot.take();
        let (back, r) = run(m);
        let ghost gb = back;
        *slot = back;
        end_span(observer, slot, is_critical, None);
        assert(closed(observer is Some, gb, *slot, None));
        r
    }
}

/// Like [`Observe::observe_with_result`], with the error's debug text.
pub fn observe_with_result<F, T, E>(
    observer: Option<&Observer>,
    slot: &mut Option<Context>,
    table_name: &str,
    is_critical: bool,
    run: F,
) -> (r: Result<T, E>) where
    F: FnOnce(Option<Context>) -> (Option<Context>, Result<T, E>),
    E: std::fmt::Debug,

    requires
        slot_wf(*old(slot)),
        forall|s: Option<Context>| slot_wf(s) ==> call_requires(run, (s,)),
        forall|s: Option<Context>, out: (Option<Context>, Result<T, E>)|
            call_ensures(run, (s,), out) ==> slot_wf(out.0),
    ensures
        slot_wf(*final(slot)),
        exists|m: Option<Context>, back: Option<Context>, err: Option<String>|
            #[trigger] call_ensures(run, (m,), (back, r)) && opened(
                observer is Some,
                *old(slot),
                m,
                table_name@,
            ) && #[trigger] closed(observer is Some, back, *final(slot), err) && (r is Ok <==> err is None),
{
    start_span(observer, slot, table_name);
    let m = slot.take();
    let (back, r) = run(m);
    let ghost gb = back;
    *slot = back;
    match r {
        Ok(v) => {
            end_span(observer, slot, is_critical, None);
            assert(closed(observer is Some, gb, *slot, None));
            Ok(v)
        },
        Err(e) => {
            let text = debug_text(&e);
            let ghost t = text;
            end_span(observer, slot, is_critical, Some(text));
            assert(closed(observer is Some, gb, *slot, Some(t)));
            Err(e)
        },
    }
}

/// Like [`Observe::observe_all`].
pub fn observe_all<F, T>(
    observer: Option<&Observer>,
    slot: &mut Option<Context>,
    table_name: &str,
    is_critical: bool,
    run: F,
) -> (r: T) where F: FnOnce(Option<Context>) -> (Option<Context>, T)
    requires
        slot_wf(*old(slot)),
        forall|s: Option<Context>| slot_wf(s) ==> call_requires(run, (s,)),
        forall|s: Option<Context>, out: (Option<Context>, T)|
            call_ensures(run, (s,), out) ==> slot_wf(out.0),
    ensures
        slot_wf(*final(slot)),
        exists|m: Option<Context>, back: Option<Context>|
            #[trigger] call_ensures(run, (m,), (back, r)) && opened(
                observer is Some,
                *old(slot),
                m,
                table_name@,
            ) && closed(observer is Some, back, *final(slot), None),
{
    Observe::observe_all(observer, slot, table_name, is_critical, run)
}

} // verus!
