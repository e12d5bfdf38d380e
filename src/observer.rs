//! Backends, the observer that fans lifecycle events out to them, and the
//! operations on the context slot of the current thread of execution.
use vstd::prelude::*;
use crate::context::{ended, fan_out, finalised, Context, Notice, NoticeKind};
use crate::shape::trace_text;
use crate::sources::sha256_hex_text;
use crate::span::{Span, SpanItem};
use crate::value::Value;

verus! {

/// A sink for lifecycle events. Every method does nothing unless a backend
/// gives it a body.
pub trait Backend: Send + Sync {
    fn app_started(&self) {
    }

    fn app_ended(&self) {
    }

    fn context_created(&self, _id: &str) {
    }

    fn context_ended(&self, _ctx: &Context) {
    }

    fn span_created(&self, _id: &str) {
    }

    fn span_data(&self, _key: &str, _value: &str) {
    }

    fn span_ended(&self, _span: Option<&Span>) {
    }
}

/// The backends that lifecycle events go to, in the order they were added.
pub struct Observer {
    backends: Vec<Box<dyn Backend>>,
    started: Ghost<Seq<nat>>,
}

/// The context slot holds a well-formed context, if any.
pub open spec fn slot_wf(slot: Option<Context>) -> bool {
    slot matches Some(c) ==> c.wf()
}

/// Without a context nothing happens; with one, one item was appended to
/// its top span at some clock time.
pub open spec fn recorded(old: Option<Context>, new: Option<Context>) -> bool {
    match old {
        None => new is None,
        Some(c) => new matches Some(n) && exists|at: u64| c.top_grew(n, at),
    }
}

/// The item last recorded into the slot's context.
pub open spec fn last_recorded(slot: Option<Context>) -> SpanItem {
    slot.unwrap().last_item()
}

/// The backends `0..n` in the order they were added.
pub open spec fn in_order(n: nat) -> Seq<nat> {
    Seq::new(n, |i: int| i as nat)
}

/// Starts an observer with one backend.
pub fn builder(backend: Box<dyn Backend>) -> (r: Observer)
    ensures
        r.backends_view() == Seq::<Box<dyn Backend>>::empty().push(backend),
        r.started_view() == Seq::<nat>::empty(),
{
    let mut backends: Vec<Box<dyn Backend>> = Vec::new();
    backends.push(backend);
    Observer { backends, started: Ghost(Seq::empty()) }
}

impl Observer {
    /// The backends, in the order events reach them.
    pub closed spec fn backends_view(&self) -> Seq<Box<dyn Backend>> {
        self.backends@
    }

    /// The number of backends.
    pub closed spec fn backend_count(&self) -> nat {
        self.backends@.len()
    }

    /// The backends told that the application started, by position, in the
    /// order they were told.
    pub closed spec fn started_view(&self) -> Seq<nat> {
        self.started@
    }

    /// An observer with one backend.
    pub fn builder(backend: Box<dyn Backend>) -> (r: Observer)
        ensures
            r.backends_view() == Seq::<Box<dyn Backend>>::empty().push(backend),
            r.started_view() == Seq::<nat>::empty(),
    {
        let mut backends: Vec<Box<dyn Backend>> = Vec::new();
        backends.push(backend);
        Observer { backends, started: Ghost(Seq::empty()) }
    }

    /// Adds a backend after the ones already there.
    pub fn add_backend(self, backend: Box<dyn Backend>) -> (r: Observer)
        ensures
            r.backends_view() == self.backends_view().push(backend),
            r.started_view() == self.started_view(),
    {
        let mut backends = self.backends;
        backends.push(backend);
        Observer { backends, started: self.started }
    }

    /// An observer over `backends`, each told once, in order, that the
    /// application started.
    pub fn new(backends: Vec<Box<dyn Backend>>) -> (r: Observer)
        ensures
            r.backends_view() == backends@,
            r.backend_count() == backends@.len(),
            r.started_view() == in_order(backends@.len()),
    {
        let mut r = Observer { backends, started: Ghost(Seq::empty()) };
        r.app_started();
        assert(r.started@ =~= in_order(r.backends@.len()));
        r
    }

    fn app_started(&mut self)
        ensures
            final(self).backends == old(self).backends,
            final(self).started@ == old(self).started@ + in_order(old(self).backends@.len()),
    {
        let ghost start = self.started@;
        let mut i: usize = 0;
        while i < self.backends.len()
            invariant
                i <= self.backends@.len(),
                self.backends == old(self).backends,
                start == old(self).started@,
                self.started@ == start + in_order(i as nat),
            decreases self.backends@.len() - i,
        {
            self.backends[i].app_started();
            self.started = Ghost(self.started@.push(i as nat));
            assert(self.started@ =~= start + in_order((i + 1) as nat));
            i = i + 1;
        }
    }

    /// Tells each backend once, in order, that the application started, and
    /// hands the observer back to be published.
    pub fn init(self) -> (r: Observer)
        ensures
            r.backends_view() == self.backends_view(),
            r.backend_count() == self.backend_count(),
            r.started_view() == self.started_view() + in_order(self.backend_count()),
    {
        let mut s = self;
        s.app_started();
        s
    }

    fn tell(&self, ctx: &mut Context, kind: NoticeKind, id: &str)
        ensures
            final(ctx).id == old(ctx).id,
            final(ctx).key == old(ctx).key,
            final(ctx).created_on == old(ctx).created_on,
            final(ctx).origin == old(ctx).origin,
            final(ctx).span_stack == old(ctx).span_stack,
            final(ctx).notices@ == old(ctx).notices@ + fan_out(kind, self.backend_count()),
    {
        let ghost start = ctx.notices@;
        let n = ctx.span_stack.len();
        let mut i: usize = 0;
        while i < self.backends.len()
            invariant
                i <= self.backends@.len(),
                n == ctx.span_stack@.len(),
                ctx.id == old(ctx).id,
                ctx.key == old(ctx).key,
                ctx.created_on == old(ctx).created_on,
                ctx.origin == old(ctx).origin,
                ctx.span_stack == old(ctx).span_stack,
                start == old(ctx).notices@,
                ctx.notices@ == start + fan_out(kind, i as nat),
            decreases self.backends@.len() - i,
        {
            match kind {
                NoticeKind::ContextCreated => self.backends[i].context_created(id),
                NoticeKind::SpanCreated => self.backends[i].span_created(id),
                NoticeKind::SpanEnded => {
                    if n > 0 {
                        self.backends[i].span_ended(Some(&ctx.span_stack[n - 1]));
                    } else {
                        self.backends[i].span_ended(None);
                    }
                },
                NoticeKind::ContextEnded => self.backends[i].context_ended(ctx),
            }
            ctx.notices = Ghost(ctx.notices@.push(Notice { kind, backend: i as nat }));
            assert(ctx.notices@ =~= start + fan_out(kind, (i + 1) as nat));
            i = i + 1;
        }
    }

    /// Makes a context labelled `context_id` where the slot is empty and then
    /// tells each backend once, in order; a context already there is kept
    /// and nobody is told.
    pub fn create_context(&self, slot: &mut Option<Context>, context_id: &str) -> (created: bool)
        requires
            slot_wf(*old(slot)),
        ensures
            slot_wf(*final(slot)),
            created == ((*old(slot)) is None),
            !created ==> *final(slot) == *old(slot),
            created ==> ((*final(slot)) matches Some(c) && c.id@ == context_id@
                && c.span_stack@.len() == 1 && c.top().items@.len() == 0 && c.top().id@
                == "main"@ && c.top().is_open() && c.top().success is None && c.top().err is None
                && c.top().result is None && c.notices@ == fan_out(
                NoticeKind::ContextCreated,
                self.backend_count(),
            )),
    {
        if slot.is_some() {
            return false;
        }
        let mut ctx = Context::new(String::from_str(context_id));
        self.tell(&mut ctx, NoticeKind::ContextCreated, context_id);
        assert(ctx.notices@ =~= fan_out(NoticeKind::ContextCreated, self.backend_count()));
        *slot = Some(ctx);
        true
    }

    /// Finalises the context, tells each backend once, in order, that it
    /// ended, and takes it out of the slot. An empty slot gives `None`.
    pub fn end_context(&self, slot: &mut Option<Context>) -> (r: Option<Context>)
        requires
            slot_wf(*old(slot)),
        ensures
            (*final(slot)) is None,
            (*old(slot)) is None ==> r is None,
            (*old(slot)) matches Some(c) ==> r matches Some(d) && (exists|now: u64|
                finalised(c, d, now)) && d.notices@ == c.notices@ + fan_out(
                NoticeKind::ContextEnded,
                self.backend_count(),
            ),
    {
        match slot.take() {
            None => None,
            Some(mut ctx) => {
                let ghost c = ctx;
                let now = ctx.now();
                ctx.finalise(now);
                let ghost f = ctx;
                assert(finalised(c, f, now));
                self.tell(&mut ctx, NoticeKind::ContextEnded, "");
                assert(finalised(c, ctx, now));
                Some(ctx)
            },
        }
    }

    /// Opens a span labelled `id` in the slot's context, then tells each
    /// backend once, in order. Nothing happens without a context.
    pub fn create_span(&self, slot: &mut Option<Context>, id: &str)
        requires
            slot_wf(*old(slot)),
        ensures
            slot_wf(*final(slot)),
            (*old(slot)) is None ==> (*final(slot)) is None,
            (*old(slot)) matches Some(c) ==> (*final(slot)) matches Some(d) && d.span_stack@.len()
                == c.span_stack@.len() + 1 && d.span_stack@.drop_last() == c.span_stack@
                && d.top().id@ == id@ && d.top().is_open() && d.top().items@.len() == 0 && d.id
                == c.id && d.key == c.key && d.notices@ == c.notices@ + fan_out(
                NoticeKind::SpanCreated,
                self.backend_count(),
            ),
    {
        match slot {
            Some(ctx) => {
                let now = ctx.now();
                ctx.start_span(id, now);
                self.tell(ctx, NoticeKind::SpanCreated, id);
            },
            None => {},
        }
    }

    /// Closes the top span of the slot's context with the outcome `err`
    /// gives, then tells each backend once, in order, with the new top span.
    /// Nothing happens without a context.
    pub fn end_span(&self, slot: &mut Option<Context>, is_critical: bool, err: Option<String>)
        requires
            slot_wf(*old(slot)),
        ensures
            slot_wf(*final(slot)),
            (*old(slot)) is None ==> (*final(slot)) is None,
            (*old(slot)) matches Some(c) ==> (*final(slot)) matches Some(d) && (exists|now: u64|
                ended(c, d, err, now)) && d.notices@ == c.notices@ + fan_out(
                NoticeKind::SpanEnded,
                self.backend_count(),
            ),
    {
        match slot {
            Some(ctx) => {
                let ghost c = *ctx;
                let now = ctx.now();
                ctx.end_span(is_critical, err, now);
                assert(ended(c, *ctx, err, now));
                self.tell(ctx, NoticeKind::SpanEnded, "");
                assert(ended(c, *ctx, err, now));
            },
            None => {},
        }
    }

    /// Records a log message into the slot's context.
    pub fn span_log(&self, slot: &mut Option<Context>, value: &str)
        requires
            slot_wf(*old(slot)),
        ensures
            slot_wf(*final(slot)),
            recorded(*old(slot), *final(slot)),
            (*old(slot)) is Some ==> last_recorded(*final(slot)).is_log(value@),
    {
        match slot {
            Some(ctx) => {
                let ghost c = *ctx;
                let now = ctx.now();
                ctx.span_log(value, now);
                assert(c.top_grew(*ctx, now));
            },
            None => {},
        }
    }
}

/// Makes a context labelled `context_id` where an observer is set up and the
/// slot is empty.
pub fn create_context(observer: Option<&Observer>, slot: &mut Option<Context>, context_id: &str)
    requires
        slot_wf(*old(slot)),
    ensures
        slot_wf(*final(slot)),
        (observer is None || (*old(slot)) is Some) ==> *final(slot) == *old(slot),
        (observer is Some && (*old(slot)) is None) ==> ((*final(slot)) matches Some(c) && c.id@
            == context_id@ && c.span_stack@.len() == 1 && c.top().items@.len() == 0
            && c.top().id@ == "main"@ && c.top().is_open() && c.top().success is None
            && c.top().err is None && c.top().result is None && c.notices@ == fan_out(
            NoticeKind::ContextCreated,
            observer.unwrap().backend_count(),
        )),
{
    if let Some(obs) = observer {
        obs.create_context(slot, context_id);
    }
}

/// Ends the context where an observer is set up; see [`Observer::end_context`].
pub fn end_context(observer: Option<&Observer>, slot: &mut Option<Context>) -> (r: Option<Context>)
    requires
        slot_wf(*old(slot)),
    ensures
        slot_wf(*final(slot)),
        observer is None ==> r is None && *final(slot) == *old(slot),
        observer is Some ==> (*final(slot)) is None,
        observer is Some ==> (r is Some <==> (*old(slot)) is Some),
        r matches Some(d) ==> (exists|now: u64| finalised(old(slot).unwrap(), d, now))
            && d.notices@ == old(slot).unwrap().notices@ + fan_out(
            NoticeKind::ContextEnded,
            observer.unwrap().backend_count(),
        ),
{
    match observer {
        Some(obs) => obs.end_context(slot),
        None => None,
    }
}

/// Opens a span where an observer is set up; see [`Observer::create_span`].
pub fn start_span(observer: Option<&Observer>, slot: &mut Option<Context>, id: &str)
    requires
        slot_wf(*old(slot)),
    ensures
        slot_wf(*final(slot)),
        (observer is None || (*old(slot)) is None) ==> *final(slot) == *old(slot),
        observer is Some ==> ((*old(slot)) matches Some(c) ==> (*final(slot)) matches Some(d)
            && d.span_stack@.len() == c.span_stack@.len() + 1 && d.span_stack@.drop_last()
            == c.span_stack@ && d.top().id@ == id@ && d.top().is_open() && d.top().items@.len()
            == 0 && d.id == c.id && d.key == c.key && d.notices@ == c.notices@ + fan_out(
            NoticeKind::SpanCreated,
            observer.unwrap().backend_count(),
        )),
{
    if let Some(obs) = observer {
        obs.create_span(slot, id);
    }
}

/// Closes the top span where an observer is set up; see [`Observer::end_span`].
pub fn end_span(
    observer: Option<&Observer>,
    slot: &mut Option<Context>,
    is_critical: bool,
    err: Option<String>,
)
    requires
        slot_wf(*old(slot)),
    ensures
        slot_wf(*final(slot)),
        (observer is None || (*old(slot)) is None) ==> *final(slot) == *old(slot),
        observer is Some ==> ((*old(slot)) matches Some(c) ==> (*final(slot)) matches Some(d)
            && (exists|now: u64| ended(c, d, err, now)) && d.notices@ == c.notices@ + fan_out(
            NoticeKind::SpanEnded,
            observer.unwrap().backend_count(),
        )),
{
    if let Some(obs) = observer {
        obs.end_span(slot, is_critical, err);
    }
}

/// Records a log message where an observer is set up.
pub fn log(observer: Option<&Observer>, slot: &mut Option<Context>, value: &str)
    requires
        slot_wf(*old(slot)),
    ensures
        slot_wf(*final(slot)),
        observer is None ==> *final(slot) == *old(slot),
        observer is Some ==> recorded(*old(slot), *final(slot)),
        observer is Some && (*old(slot)) is Some ==> last_recorded(*final(slot)).is_log(value@),
{
    if let Some(obs) = observer {
        obs.span_log(slot, value);
    }
}

/// Records a durable field into the slot's context, if there is one.
pub fn field(slot: &mut Option<Context>, key: &str, value: Value)
    requires
        slot_wf(*old(slot)),
    ensures
        slot_wf(*final(slot)),
        recorded(*old(slot), *final(slot)),
        (*old(slot)) is Some ==> last_recorded(*final(slot)).is_field(key@, value@),
{
    match slot {
        Some(ctx) => {
            let ghost c = *ctx;
            let now = ctx.now();
            ctx.observe_span_field(key, value, now);
            assert(c.top_grew(*ctx, now));
        },
        None => {},
    }
}

/// Records a transient field into the slot's context, if there is one.
pub fn transient_field(slot: &mut Option<Context>, key: &str, value: Value)
    requires
        slot_wf(*old(slot)),
    ensures
        slot_wf(*final(slot)),
        recorded(*old(slot), *final(slot)),
        (*old(slot)) is Some ==> last_recorded(*final(slot)).is_transient(key@, value@),
{
    match slot {
        Some(ctx) => {
            let ghost c = *ctx;
            let now = ctx.now();
            ctx.observe_span_transient_field(key, value, now);
            assert(c.top_grew(*ctx, now));
        },
        None => {},
    }
}

/// Records a query into the slot's context, if there is one.
pub fn observe_query(
    slot: &mut Option<Context>,
    query: String,
    bind: Option<String>,
    result: Result<usize, String>,
)
    requires
        slot_wf(*old(slot)),
    ensures
        slot_wf(*final(slot)),
        recorded(*old(slot), *final(slot)),
        (*old(slot)) is Some ==> last_recorded(*final(slot)).is_query(query@, bind, result),
{
    match slot {
        Some(ctx) => {
            let ghost c = *ctx;
            let now = ctx.now();
            ctx.observe_query(query, bind, result, now);
            assert(c.top_grew(*ctx, now));
        },
        None => {},
    }
}

/// Sets the result of the top span of the slot's context, if there is one
/// and the span is open and has no result yet.
pub fn observe_result(slot: &mut Option<Context>, result: Value)
    requires
        slot_wf(*old(slot)),
    ensures
        slot_wf(*final(slot)),
        (*old(slot)) is None ==> (*final(slot)) is None,
        (*old(slot)) matches Some(c) ==> (*final(slot)) matches Some(d) && d.same_below_top(c)
            && d.top().items == c.top().items && d.top().id == c.top().id && d.top().result == (
        if c.top().is_open() && c.top().result is None {
            Some(result)
        } else {
            c.top().result
        }),
{
    match slot {
        Some(ctx) => ctx.observe_span_result(result),
        None => {},
    }
}

/// Relabels the top span of the slot's context, if there is one.
pub fn observe_span_id(slot: &mut Option<Context>, id: &str)
    requires
        slot_wf(*old(slot)),
    ensures
        slot_wf(*final(slot)),
        (*old(slot)) is None ==> (*final(slot)) is None,
        (*old(slot)) matches Some(c) ==> (*final(slot)) matches Some(d) && d.same_below_top(c)
            && d.top().id@ == id@ && d.top().items == c.top().items && d.top().key == c.top().key
            && d.top().success == c.top().success && d.top().err == c.top().err
            && d.top().result == c.top().result && d.top().duration == c.top().duration,
{
    match slot {
        Some(ctx) => ctx.observe_span_id(id),
        None => {},
    }
}

/// The shape of the slot's context without values.
pub fn shape_trace(slot: &Option<Context>) -> (r: Option<String>)
    ensures
        slot is None ==> r is None,
        slot matches Some(c) ==> r matches Some(t) && t@ == trace_text(*c, false),
{
    match slot {
        Some(ctx) => Some(ctx.trace_without_data(false)),
        None => None,
    }
}

/// The shape of the slot's context with values.
pub fn test_trace(slot: &Option<Context>) -> (r: Option<String>)
    ensures
        slot is None ==> r is None,
        slot matches Some(c) ==> r matches Some(t) && t@ == trace_text(*c, true),
{
    match slot {
        Some(ctx) => Some(ctx.trace_without_data(true)),
        None => None,
    }
}

/// The trace of the slot's context with values.
pub fn trace(slot: &Option<Context>) -> (r: Option<String>)
    ensures
        slot is None ==> r is None,
        slot matches Some(c) ==> r matches Some(t) && t@ == trace_text(*c, true),
{
    match slot {
        Some(ctx) => Some(ctx.trace_without_data(true)),
        None => None,
    }
}

/// The digest of the slot's shape without values; the digest of the empty
/// text without a context.
pub fn shape_hash(slot: &Option<Context>) -> (r: String)
    ensures
        r@ == crate::sources::sha256_hex(
            match slot {
                Some(c) => trace_text(*c, false),
                None => Seq::empty(),
            },
        ),
        r@.len() == 64,
{
    let t = match shape_trace(slot) {
        Some(t) => t,
        None => String::new(),
    };
    sha256_hex_text(t.as_str())
}

} // verus!
