//! A context: the root of one trace, with the stack of spans being built.
use vstd::prelude::*;
use vstd::string::*;
use crate::sources::{Timestamp, elapsed_nanos, instant_now, new_key, utc_now};
use crate::span::{Span, SpanItem, Duration, since, offsets_sorted};
use crate::value::Value;

verus! {

/// The root of one trace.
///
/// `span_stack` holds the spans that are open, outermost first; its first
/// element is the main span, made with the context. Every clock time that
/// the methods take is in nanoseconds since `origin`.
pub struct Context {
    pub id: String,
    pub key: String,
    pub created_on: Timestamp,
    pub origin: std::time::Instant,
    pub span_stack: Vec<Span>,
    /// The lifecycle events that backends were told of about this context,
    /// in the order they were told.
    pub notices: Ghost<Seq<Notice>>,
}

/// The kinds of lifecycle event a backend is told of about a context.
#[derive(Debug, Clone, Copy, PartialEq, Eq, Structural)]
pub enum NoticeKind {
    ContextCreated,
    SpanCreated,
    SpanEnded,
    ContextEnded,
}

/// One backend, by its position among the observer's backends, told of one
/// event.
pub ghost struct Notice {
    pub kind: NoticeKind,
    pub backend: nat,
}

/// Each of `n` backends told of `kind` once, in the order they were added.
pub open spec fn fan_out(kind: NoticeKind, n: nat) -> Seq<Notice> {
    Seq::new(n, |i: int| Notice { kind, backend: i as nat })
}

/// `d` is `c` after `end_span` at clock time `now` with outcome `err`; the
/// notices are not compared.
pub open spec fn ended(c: Context, d: Context, err: Option<String>, now: u64) -> bool {
    &&& d.wf()
    &&& d.id == c.id
    &&& d.key == c.key
    &&& d.created_on == c.created_on
    &&& d.origin == c.origin
    &&& c.span_stack@.len() == 1 ==> d.span_stack == c.span_stack
    &&& c.span_stack@.len() >= 2 ==> {
        let n = c.span_stack@.len();
        &&& d.span_stack@.len() == n - 1
        &&& d.span_stack@.drop_last() == c.span_stack@.subrange(0, n - 2)
        &&& c.span_stack@[n - 2].grew(d.top(), c.top().created_on)
        &&& d.top().items@.last().1 matches SpanItem::Frame(f) && f.closed_from(c.top(), err, now)
            && f.success == Some(err is None) && f.err == err && f.duration == Some(
            Duration(since(now, c.top().created_on)),
        )
    }
}

/// `d` is `c` finalised at clock time `now`: every pending span closed
/// successfully and attached to its parent, then the main span closed
/// successfully, unless it was closed before.
pub open spec fn finalised(c: Context, d: Context, now: u64) -> bool {
    &&& d.wf()
    &&& d.id == c.id
    &&& d.key == c.key
    &&& d.span_stack@.len() == 1
    &&& d.top().duration is Some
    &&& exists|mid: Context|
        #[trigger] ends_all(c, mid, now, (c.span_stack@.len() - 1) as nat)
            && mid.span_stack@.len() == 1 && d.top().closed_from(mid.top(), None, now)
}

/// Each context of `steps` is the one before it after `end_span` at clock
/// time `now`, closing the top span successfully.
pub open spec fn end_chain(steps: Seq<Context>, now: u64) -> bool {
    forall|i: int| 0 <= i < steps.len() - 1 ==> ended(#[trigger] steps[i], steps[i + 1], None, now)
}

/// `d` is `c` after `k` calls of `end_span` at clock time `now`, each
/// closing the top span successfully and attaching it to its parent.
pub open spec fn ends_all(c: Context, d: Context, now: u64, k: nat) -> bool {
    exists|steps: Seq<Context>|
        steps.len() == k + 1 && steps[0] == c && steps.last() == d && #[trigger] end_chain(
            steps,
            now,
        )
}

proof fn lemma_chain_push(steps: Seq<Context>, d: Context, now: u64)
    requires
        steps.len() >= 1,
        end_chain(steps, now),
        ended(steps.last(), d, None, now),
    ensures
        end_chain(steps.push(d), now),
{
    let next = steps.push(d);
    assert forall|i: int| 0 <= i < next.len() - 1 implies ended(
        #[trigger] next[i],
        next[i + 1],
        None,
        now,
    ) by {
        assert(next[i] == steps[i]);
        if i < steps.len() - 1 {
            assert(next[i + 1] == steps[i + 1]);
        }
    }
}

impl Context {
    /// The invariant: the stack is never empty, every span on it is well
    /// formed, and every span above the main one is open.
    pub open spec fn wf(&self) -> bool {
        &&& self.span_stack@.len() >= 1
        &&& forall|i: int| 0 <= i < self.span_stack@.len() ==> (#[trigger] self.span_stack@[i]).stack_ok()
        &&& forall|i: int| 1 <= i < self.span_stack@.len() ==> (#[trigger] self.span_stack@[i]).is_open()
    }

    /// The span that recordings go to.
    pub open spec fn top(&self) -> Span {
        self.span_stack@.last()
    }

    /// Everything but the top span is as in `other`.
    pub open spec fn same_below_top(&self, other: Context) -> bool {
        &&& self.id == other.id
        &&& self.key == other.key
        &&& self.created_on == other.created_on
        &&& self.origin == other.origin
        &&& self.notices == other.notices
        &&& self.span_stack@.len() == other.span_stack@.len()
        &&& self.span_stack@.drop_last() == other.span_stack@.drop_last()
    }

    /// `new` is `self` with one item appended to the top span at clock time
    /// `at`.
    pub open spec fn top_grew(&self, new: Context, at: u64) -> bool {
        &&& new.same_below_top(*self)
        &&& self.top().grew(new.top(), at)
    }

    /// The item recorded last into the top span.
    pub open spec fn last_item(&self) -> SpanItem {
        self.top().items@.last().1
    }

    /// A context labelled `id`, with its main span open.
    pub fn new(id: String) -> (r: Context)
        ensures
            r.id == id,
            r.key@.len() == 36,
            r.wf(),
            r.span_stack@.len() == 1,
            r.top().id@ == "main"@,
            r.top().items@.len() == 0,
            r.top().is_open(),
            r.top().success is None,
            r.top().err is None,
            r.top().result is None,
            r.notices@ == Seq::<Notice>::empty(),
    {
        let origin = instant_now();
        let created_on = utc_now();
        let key = new_key();
        let mut span_stack: Vec<Span> = Vec::new();
        span_stack.push(Span::new("main", 0));
        Context { id, key, created_on, origin, span_stack, notices: Ghost(Seq::empty()) }
    }

    /// A context made of parts read back from elsewhere, with a fresh clock
    /// origin and no notices.
    pub fn restore(id: String, key: String, created_on: Timestamp, span_stack: Vec<Span>) -> (r: Context)
        ensures
            r.id == id,
            r.key == key,
            r.created_on == created_on,
            r.span_stack == span_stack,
            r.notices@ == Seq::<Notice>::empty(),
    {
        Context { id, key, created_on, origin: instant_now(), span_stack, notices: Ghost(Seq::empty()) }
    }

    /// The label of the context.
    pub fn id(&self) -> (r: String)
        ensures
            r == self.id,
    {
        self.id.clone()
    }

    /// The unique key of the context.
    pub fn get_key(&self) -> (r: String)
        ensures
            r == self.key,
    {
        self.key.clone()
    }

    /// The current time on the context's clock.
    pub fn now(&self) -> (r: u64) {
        elapsed_nanos(&self.origin)
    }

    proof fn lemma_push_keeps_wf(old_stack: Seq<Span>, s: Span)
        requires
            forall|i: int| 0 <= i < old_stack.len() ==> (#[trigger] old_stack[i]).stack_ok(),
            forall|i: int| 1 <= i < old_stack.len() ==> (#[trigger] old_stack[i]).is_open(),
            s.stack_ok(),
            old_stack.len() >= 1 ==> s.is_open(),
        ensures
            forall|i: int|
                0 <= i < old_stack.push(s).len() ==> (#[trigger] old_stack.push(s)[i]).stack_ok(),
            forall|i: int|
                1 <= i < old_stack.push(s).len() ==> (#[trigger] old_stack.push(s)[i]).is_open(),
    {
        assert forall|i: int| 0 <= i < old_stack.push(s).len() implies (
        #[trigger] old_stack.push(s)[i]).stack_ok() by {
            if i < old_stack.len() {
                assert(old_stack.push(s)[i] == old_stack[i]);
            }
        }
        assert forall|i: int| 1 <= i < old_stack.push(s).len() implies (
        #[trigger] old_stack.push(s)[i]).is_open() by {
            if i < old_stack.len() {
                assert(old_stack.push(s)[i] == old_stack[i]);
            }
        }
    }

    /// Opens a span labelled `id` at clock time `now`, on top of the stack.
    pub fn start_span(&mut self, id: &str, now: u64)
        requires
            old(self).wf(),
        ensures
            final(self).wf(),
            final(self).id == old(self).id,
            final(self).key == old(self).key,
            final(self).created_on == old(self).created_on,
            final(self).origin == old(self).origin,
            final(self).notices == old(self).notices,
            final(self).span_stack@.len() == old(self).span_stack@.len() + 1,
            final(self).span_stack@.drop_last() == old(self).span_stack@,
            final(self).top().id@ == id@,
            final(self).top().items@.len() == 0,
            final(self).top().is_open(),
            final(self).top().created_on == now,
            final(self).top().success is None,
            final(self).top().err is None,
            final(self).top().result is None,
    {
        let s = Span::new(id, now);
        proof {
            Self::lemma_push_keeps_wf(self.span_stack@, s);
        }
        let ghost before = self.span_stack@;
        self.span_stack.push(s);
        assert(self.span_stack@.drop_last() =~= before);
    }

    /// Takes the top span off the stack.
    fn pop_top(&mut self) -> (r: Span)
        requires
            old(self).wf(),
        ensures
            r == old(self).top(),
            r.stack_ok(),
            final(self).span_stack@ == old(self).span_stack@.drop_last(),
            final(self).id == old(self).id,
            final(self).key == old(self).key,
            final(self).created_on == old(self).created_on,
            final(self).origin == old(self).origin,
            final(self).notices == old(self).notices,
    {
        let ghost n = self.span_stack@.len();
        assert(self.span_stack@[n - 1].stack_ok());
        match self.span_stack.pop() {
            Some(s) => s,
            None => {
                assert(false);
                Span::new("main", 0)
            },
        }
    }

    /// Puts `s` back on top of a stack that `pop_top` shortened.
    fn push_top(&mut self, s: Span, whole: Ghost<Context>)
        requires
            whole@.wf(),
            old(self).span_stack@ == whole@.span_stack@.drop_last(),
            old(self).id == whole@.id,
            old(self).key == whole@.key,
            old(self).created_on == whole@.created_on,
            old(self).origin == whole@.origin,
            old(self).notices == whole@.notices,
            s.stack_ok(),
            whole@.span_stack@.len() >= 2 ==> s.is_open(),
        ensures
            final(self).wf(),
            final(self).same_below_top(whole@),
            final(self).top() == s,
    {
        let ghost below = self.span_stack@;
        proof {
            assert forall|i: int| 0 <= i < below.len() implies (#[trigger] below[i]).stack_ok() by {
                assert(below[i] == whole@.span_stack@[i]);
            }
            assert forall|i: int| 1 <= i < below.len() implies (#[trigger] below[i]).is_open() by {
                assert(below[i] == whole@.span_stack@[i]);
            }
            Self::lemma_push_keeps_wf(below, s);
        }
        self.span_stack.push(s);
        assert(self.span_stack@.drop_last() =~= below);
    }

    /// Relabels the top span.
    pub fn observe_span_id(&mut self, id: &str)
        requires
            old(self).wf(),
        ensures
            final(self).wf(),
            final(self).same_below_top(*old(self)),
            final(self).top().id@ == id@,
            final(self).top().items == old(self).top().items,
            final(self).top().key == old(self).top().key,
            final(self).top().success == old(self).top().success,
            final(self).top().err == old(self).top().err,
            final(self).top().result == old(self).top().result,
            final(self).top().duration == old(self).top().duration,
    {
        let ghost g = *self;
        let mut top = self.pop_top();
        top.set_id(id);
        self.push_top(top, Ghost(g));
    }

    /// Records a durable field into the top span at clock time `now`.
    pub fn observe_span_field(&mut self, name: &str, value: Value, now: u64)
        requires
            old(self).wf(),
        ensures
            final(self).wf(),
            old(self).top_grew(*final(self), now),
            final(self).last_item().is_field(name@, value@),
    {
        let ghost g = *self;
        let mut top = self.pop_top();
        top.add_breadcrumbs(name, value, now);
        self.push_top(top, Ghost(g));
    }

    /// Records a transient field into the top span at clock time `now`.
    pub fn observe_span_transient_field(&mut self, name: &str, value: Value, now: u64)
        requires
            old(self).wf(),
        ensures
            final(self).wf(),
            old(self).top_grew(*final(self), now),
            final(self).last_item().is_transient(name@, value@),
    {
        let ghost g = *self;
        let mut top = self.pop_top();
        top.add_transient_field(name, value, now);
        self.push_top(top, Ghost(g));
    }

    /// Records a query into the top span at clock time `now`.
    pub fn observe_query(
        &mut self,
        query: String,
        bind: Option<String>,
        result: Result<usize, String>,
        now: u64,
    )
        requires
            old(self).wf(),
        ensures
            final(self).wf(),
            old(self).top_grew(*final(self), now),
            final(self).last_item().is_query(query@, bind, result),
    {
        let ghost g = *self;
        let mut top = self.pop_top();
        top.add_query(query, bind, result, now);
        self.push_top(top, Ghost(g));
    }

    /// Records a log message into the top span at clock time `now`.
    pub fn span_log(&mut self, message: &str, now: u64)
        requires
            old(self).wf(),
        ensures
            final(self).wf(),
            old(self).top_grew(*final(self), now),
            final(self).last_item().is_log(message@),
    {
        let ghost g = *self;
        let mut top = self.pop_top();
        top.add_log(message, now);
        self.push_top(top, Ghost(g));
    }

    /// Sets the result of the top span once; dropped when it has one or is
    /// closed.
    pub fn observe_span_result(&mut self, value: Value)
        requires
            old(self).wf(),
        ensures
            final(self).wf(),
            final(self).same_below_top(*old(self)),
            final(self).top().result == (if old(self).top().is_open()
                && old(self).top().result is None {
                Some(value)
            } else {
                old(self).top().result
            }),
            final(self).top().id == old(self).top().id,
            final(self).top().items == old(self).top().items,
            final(self).top().success == old(self).top().success,
            final(self).top().err == old(self).top().err,
            final(self).top().duration == old(self).top().duration,
    {
        let ghost g = *self;
        let mut top = self.pop_top();
        top.set_result(value);
        self.push_top(top, Ghost(g));
    }

    /// Closes the top span at clock time `now`, with success exactly when
    /// `err` is `None`, and attaches it to its parent as a frame at the
    /// offset of its start. With the main span alone nothing happens.
    /// `is_critical` is carried for backends and changes nothing here.
    pub fn end_span(&mut self, is_critical: bool, err: Option<String>, now: u64)
        requires
            old(self).wf(),
        ensures
            final(self).wf(),
            final(self).id == old(self).id,
            final(self).key == old(self).key,
            final(self).created_on == old(self).created_on,
            final(self).origin == old(self).origin,
            final(self).notices == old(self).notices,
            ended(*old(self), *final(self), err, now),
    {
        if self.span_stack.len() < 2 {
            return;
        }
        let ghost g = *self;
        let ghost n = g.span_stack@.len();
        assert(g.span_stack@[n - 1].is_open());
        let mut child = self.pop_top();
        child.close_with(err, now);
        let ghost g2 = *self;
        proof {
            assert(g2.span_stack@ =~= g.span_stack@.drop_last());
            assert(g2.span_stack@.last() == g.span_stack@[n - 2]);
            assert forall|i: int| 0 <= i < g2.span_stack@.len() implies (
            #[trigger] g2.span_stack@[i]).stack_ok() by {
                assert(g2.span_stack@[i] == g.span_stack@[i]);
            }
            assert forall|i: int| 1 <= i < g2.span_stack@.len() implies (
            #[trigger] g2.span_stack@[i]).is_open() by {
                assert(g2.span_stack@[i] == g.span_stack@[i]);
            }
        }
        let mut parent = self.pop_top();
        let at = child.created_on;
        parent.add_sub_frame(at, child);
        self.push_top(parent, Ghost(g2));
        proof {
            assert(self.span_stack@.drop_last() =~= g.span_stack@.subrange(0, n - 2));
        }
    }

    /// Closes every pending span successfully, attaching each to its parent,
    /// and then the main span, which succeeds, at clock time `now`. A main
    /// span closed before stays as it is.
    pub fn finalise(&mut self, now: u64)
        requires
            old(self).wf(),
        ensures
            final(self).created_on == old(self).created_on,
            final(self).origin == old(self).origin,
            final(self).notices == old(self).notices,
            finalised(*old(self), *final(self), now),
            old(self).span_stack@.len() == 1 ==> final(self).top().closed_from(
                old(self).top(),
                None,
                now,
            ),
    {
        let ghost n = self.span_stack@.len();
        let ghost mut steps: Seq<Context> = seq![*self];
        while self.span_stack.len() > 1
            invariant
                self.wf(),
                self.id == old(self).id,
                self.key == old(self).key,
                self.created_on == old(self).created_on,
                self.origin == old(self).origin,
                self.notices == old(self).notices,
                n == old(self).span_stack@.len(),
                1 <= self.span_stack@.len() <= n,
                steps.len() == n - self.span_stack@.len() + 1,
                steps[0] == *old(self),
                steps.last() == *self,
                end_chain(steps, now),
            decreases self.span_stack@.len(),
        {
            self.end_span(false, None, now);
            proof {
                lemma_chain_push(steps, *self, now);
                steps = steps.push(*self);
            }
        }
        let ghost mid = *self;
        proof {
            assert(ends_all(*old(self), mid, now, (n - 1) as nat));
        }
        let mut main = self.pop_top();
        main.close_with(None, now);
        self.push_top(main, Ghost(mid));
        proof {
            assert(self.span_stack@.len() == 1);
        }
    }
}


/// What every well-formed context holds: its span stack is not empty, the
/// item offsets of each span on it never decrease, and each closed span on
/// it has an error exactly when it failed.
pub proof fn lemma_context_invariants(ctx: Context)
    requires
        ctx.wf(),
    ensures
        ctx.span_stack@.len() >= 1,
        forall|i: int|
            0 <= i < ctx.span_stack@.len() ==> offsets_sorted(
                (#[trigger] ctx.span_stack@[i]).items@,
            ),
        forall|i: int|
            0 <= i < ctx.span_stack@.len() && (#[trigger] ctx.span_stack@[i]).duration is Some
                ==> ctx.span_stack@[i].outcome_consistent(),
{
    assert forall|i: int| 0 <= i < ctx.span_stack@.len() implies offsets_sorted(
        (#[trigger] ctx.span_stack@[i]).items@,
    ) by {
        assert(ctx.span_stack@[i].stack_ok());
    }
}

} // verus!
