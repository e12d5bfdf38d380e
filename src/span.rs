//! A span: one node of the call tree, with its timing, items and outcome.
use vstd::prelude::*;
use vstd::string::*;
use crate::value::{Value, ValueModel};
use crate::sources::new_key;

verus! {

/// An elapsed time in nanoseconds.
#[derive(Debug, Clone, Copy, PartialEq, Eq, Structural)]
pub struct Duration(pub u64);

/// One thing recorded into a span.
#[derive(Debug)]
pub enum SpanItem {
    Log { message: String },
    Field { name: String, value: Value },
    TransientField { name: String, value: Value },
    Query { query: String, bind: Option<String>, result: Result<usize, String> },
    Frame(Span),
}

/// A node of the call tree.
///
/// Times are nanoseconds on the clock of the enclosing context: `created_on`
/// is when the span was opened, each item carries its offset from
/// `created_on`, and `duration` is set when the span is closed.
#[derive(Debug)]
pub struct Span {
    pub id: String,
    pub key: String,
    pub items: Vec<(Duration, SpanItem)>,
    pub success: Option<bool>,
    pub result: Option<Value>,
    pub err: Option<String>,
    pub created_on: u64,
    pub duration: Option<Duration>,
}

/// Item offsets never decrease along the sequence.
pub open spec fn offsets_sorted(items: Seq<(Duration, SpanItem)>) -> bool {
    forall|i: int, j: int| 0 <= i <= j < items.len() ==> items[i].0.0 <= items[j].0.0
}

/// Every nested frame is closed, has a consistent outcome, and has sorted
/// offsets, down to the leaves.
pub open spec fn frames_wf(items: Seq<(Duration, SpanItem)>) -> bool
    decreases items,
{
    if items.len() == 0 {
        true
    } else {
        &&& frames_wf(items.drop_last())
        &&& match items.last().1 {
            SpanItem::Frame(inner) => {
                &&& inner.duration is Some
                &&& inner.outcome_consistent()
                &&& offsets_sorted(inner.items@)
                &&& frames_wf(inner.items@)
            },
            _ => true,
        }
    }
}

/// `a - b`, or 0 where `b` is later.
pub open spec fn since(a: u64, b: u64) -> u64 {
    if a >= b {
        (a - b) as u64
    } else {
        0
    }
}

impl SpanItem {
    pub open spec fn is_log(self, message: Seq<char>) -> bool {
        match self {
            SpanItem::Log { message: m } => m@ == message,
            _ => false,
        }
    }

    pub open spec fn is_field(self, name: Seq<char>, value: ValueModel) -> bool {
        match self {
            SpanItem::Field { name: n, value: v } => n@ == name && v@ == value,
            _ => false,
        }
    }

    pub open spec fn is_transient(self, name: Seq<char>, value: ValueModel) -> bool {
        match self {
            SpanItem::TransientField { name: n, value: v } => n@ == name && v@ == value,
            _ => false,
        }
    }

    pub open spec fn is_query(
        self,
        query: Seq<char>,
        bind: Option<String>,
        result: Result<usize, String>,
    ) -> bool {
        match self {
            SpanItem::Query { query: q, bind: b, result: r } => q@ == query && b == bind && r
                == result,
            _ => false,
        }
    }
}

impl Span {
    /// A closed span has `err` exactly when it failed.
    pub open spec fn outcome_consistent(&self) -> bool {
        self.err is Some <==> self.success == Some(false)
    }

    /// The invariant of a span: sorted offsets, well-formed frames, and a
    /// consistent outcome once closed.
    pub open spec fn wf(&self) -> bool {
        &&& offsets_sorted(self.items@)
        &&& frames_wf(self.items@)
        &&& (self.duration is Some ==> self.outcome_consistent())
    }

    /// What a span on a context's stack holds: it is well formed, and its
    /// outcome is written only when it is closed.
    pub open spec fn stack_ok(&self) -> bool {
        self.wf() && self.outcome_unset()
    }

    /// An open span whose outcome is not written yet.
    pub open spec fn outcome_unset(&self) -> bool {
        self.is_open() ==> self.success is None && self.err is None
    }

    pub open spec fn is_open(&self) -> bool {
        self.duration is None
    }

    /// The offset of the last item, or 0.
    pub open spec fn last_offset(&self) -> u64 {
        if self.items@.len() == 0 {
            0
        } else {
            self.items@.last().0.0
        }
    }

    /// The offset an item recorded at clock time `at` gets: the time since
    /// `created_on`, never earlier than the last item's.
    pub open spec fn offset_at(&self, at: u64) -> u64 {
        let d = since(at, self.created_on);
        if d < self.last_offset() {
            self.last_offset()
        } else {
            d
        }
    }

    /// `new` is `self` with one item appended at clock time `at`, and
    /// nothing else changed.
    pub open spec fn grew(&self, new: Span, at: u64) -> bool {
        &&& new.id == self.id
        &&& new.key == self.key
        &&& new.success == self.success
        &&& new.result == self.result
        &&& new.err == self.err
        &&& new.created_on == self.created_on
        &&& new.duration == self.duration
        &&& new.items@.len() == self.items@.len() + 1
        &&& new.items@.drop_last() == self.items@
        &&& new.items@.last().0 == Duration(self.offset_at(at))
    }

    /// An open span labelled `id`, opened at clock time `created_on`.
    pub fn new(id: &str, created_on: u64) -> (r: Span)
        ensures
            r.id@ == id@,
            r.key@.len() == 36,
            r.items@.len() == 0,
            r.success is None,
            r.result is None,
            r.err is None,
            r.created_on == created_on,
            r.duration is None,
            r.wf(),
    {
        Span {
            id: String::from_str(id),
            key: new_key(),
            items: Vec::new(),
            success: None,
            result: None,
            err: None,
            created_on,
            duration: None,
        }
    }

    /// The elapsed time of the span: its duration once closed, else the time
    /// from its start to clock time `now`.
    pub fn duration(&self, now: u64) -> (r: Duration)
        ensures
            r == self.elapsed_at(now),
    {
        match self.duration {
            Some(d) => d,
            None => Duration(if now >= self.created_on {
                now - self.created_on
            } else {
                0
            }),
        }
    }

    pub open spec fn elapsed_at(&self, now: u64) -> Duration {
        match self.duration {
            Some(d) => d,
            None => Duration(since(now, self.created_on)),
        }
    }

    /// Relabels the span.
    pub fn set_id(&mut self, id: &str)
        ensures
            final(self).id@ == id@,
            final(self).key == old(self).key,
            final(self).items == old(self).items,
            final(self).success == old(self).success,
            final(self).result == old(self).result,
            final(self).err == old(self).err,
            final(self).created_on == old(self).created_on,
            final(self).duration == old(self).duration,
    {
        self.id = String::from_str(id);
    }

    fn next_offset(&self, at: u64) -> (r: u64)
        ensures
            r == self.offset_at(at),
    {
        let d = if at >= self.created_on {
            at - self.created_on
        } else {
            0
        };
        let n = self.items.len();
        let last = if n == 0 {
            0
        } else {
            self.items[n - 1].0.0
        };
        if d < last {
            last
        } else {
            d
        }
    }

    /// Appends `item` at clock time `at`.
    fn push_item(&mut self, item: SpanItem, at: u64)
        requires
            old(self).wf(),
            match item {
                SpanItem::Frame(inner) => {
                    &&& inner.duration is Some
                    &&& inner.wf()
                },
                _ => true,
            },
        ensures
            old(self).grew(*final(self), at),
            final(self).items@.last().1 == item,
            final(self).wf(),
    {
        let off = self.next_offset(at);
        let ghost before = self.items@;
        self.items.push((Duration(off), item));
        proof {
            let after = self.items@;
            assert(after.drop_last() =~= before);
            assert(offsets_sorted(after)) by {
                assert forall|i: int, j: int| 0 <= i <= j < after.len() implies after[i].0.0
                    <= after[j].0.0 by {
                    if j == after.len() - 1 && i < j {
                        assert(before[i].0.0 <= before[before.len() - 1].0.0);
                    }
                }
            }
        }
    }

    /// Records a log message at clock time `at`.
    pub fn add_log(&mut self, log: &str, at: u64)
        requires
            old(self).wf(),
        ensures
            old(self).grew(*final(self), at),
            final(self).items@.last().1.is_log(log@),
            final(self).wf(),
    {
        self.push_item(SpanItem::Log { message: String::from_str(log) }, at);
    }

    /// Records a durable field at clock time `at`.
    pub fn add_breadcrumbs(&mut self, name: &str, value: Value, at: u64)
        requires
            old(self).wf(),
        ensures
            old(self).grew(*final(self), at),
            final(self).items@.last().1.is_field(name@, value@),
            final(self).wf(),
    {
        self.push_item(SpanItem::Field { name: String::from_str(name), value }, at);
    }

    /// Records a transient field at clock time `at`.
    pub fn add_transient_field(&mut self, name: &str, value: Value, at: u64)
        requires
            old(self).wf(),
        ensures
            old(self).grew(*final(self), at),
            final(self).items@.last().1.is_transient(name@, value@),
            final(self).wf(),
    {
        self.push_item(SpanItem::TransientField { name: String::from_str(name), value }, at);
    }

    /// Records a query, its bind text and its outcome at clock time `at`.
    pub fn add_query(
        &mut self,
        query: String,
        bind: Option<String>,
        result: Result<usize, String>,
        at: u64,
    )
        requires
            old(self).wf(),
        ensures
            old(self).grew(*final(self), at),
            final(self).items@.last().1.is_query(query@, bind, result),
            final(self).wf(),
    {
        self.push_item(SpanItem::Query { query, bind, result }, at);
    }

    /// Attaches a closed child span, at the offset of the child's start.
    pub fn add_sub_frame(&mut self, created_on: u64, frame: Span)
        requires
            old(self).wf(),
            frame.wf(),
            frame.duration is Some,
        ensures
            old(self).grew(*final(self), created_on),
            final(self).items@.last().1 == SpanItem::Frame(frame),
            final(self).wf(),
    {
        self.push_item(SpanItem::Frame(frame), created_on);
    }

    /// Sets the result once; a second write, or one after the span closed, is
    /// dropped.
    pub fn set_result(&mut self, result: Value)
        requires
            old(self).wf(),
        ensures
            final(self).result == (if old(self).is_open() && old(self).result is None {
                Some(result)
            } else {
                old(self).result
            }),
            final(self).id == old(self).id,
            final(self).key == old(self).key,
            final(self).items == old(self).items,
            final(self).success == old(self).success,
            final(self).err == old(self).err,
            final(self).created_on == old(self).created_on,
            final(self).duration == old(self).duration,
            final(self).wf(),
    {
        if self.duration.is_none() && self.result.is_none() {
            self.result = Some(result);
        }
    }

    /// Sets whether the span succeeded, once; a second write, or one after the
    /// span closed, is dropped.
    pub fn set_success(&mut self, is_success: bool)
        requires
            old(self).wf(),
        ensures
            final(self).success == (if old(self).is_open() && old(self).success is None {
                Some(is_success)
            } else {
                old(self).success
            }),
            final(self).id == old(self).id,
            final(self).key == old(self).key,
            final(self).items == old(self).items,
            final(self).result == old(self).result,
            final(self).err == old(self).err,
            final(self).created_on == old(self).created_on,
            final(self).duration == old(self).duration,
            final(self).wf(),
    {
        if self.duration.is_none() && self.success.is_none() {
            self.success = Some(is_success);
        }
    }

    /// Sets the error message once; a second write, or one after the span
    /// closed, is dropped.
    pub fn set_err(&mut self, err: Option<String>)
        requires
            old(self).wf(),
        ensures
            final(self).err == (if old(self).is_open() && old(self).err is None {
                err
            } else {
                old(self).err
            }),
            final(self).id == old(self).id,
            final(self).key == old(self).key,
            final(self).items == old(self).items,
            final(self).success == old(self).success,
            final(self).result == old(self).result,
            final(self).created_on == old(self).created_on,
            final(self).duration == old(self).duration,
            final(self).wf(),
    {
        if self.duration.is_none() && self.err.is_none() {
            self.err = err;
        }
    }

    /// Closes the span at clock time `now`; a closed span stays as it is.
    pub fn end(&mut self, now: u64)
        requires
            old(self).wf(),
            old(self).is_open() ==> old(self).outcome_consistent(),
        ensures
            final(self).duration == (if old(self).is_open() {
                Some(Duration(since(now, old(self).created_on)))
            } else {
                old(self).duration
            }),
            final(self).id == old(self).id,
            final(self).key == old(self).key,
            final(self).items == old(self).items,
            final(self).success == old(self).success,
            final(self).result == old(self).result,
            final(self).err == old(self).err,
            final(self).created_on == old(self).created_on,
            final(self).wf(),
    {
        if self.duration.is_none() {
            self.duration = Some(
                Duration(
                    if now >= self.created_on {
                        now - self.created_on
                    } else {
                        0
                    },
                ),
            );
        }
    }

    /// Closes an open span at clock time `now` with the outcome that `err`
    /// gives: success exactly when there is no error.
    pub fn close_with(&mut self, err: Option<String>, now: u64)
        requires
            old(self).wf(),
            old(self).outcome_unset(),
        ensures
            final(self).closed_from(*old(self), err, now),
    {
        let ok = err.is_none();
        self.set_success(ok);
        self.set_err(err);
        self.end(now);
    }

    /// `self` is `old` closed by `close_with(err, now)`.
    pub open spec fn closed_from(&self, old: Span, err: Option<String>, now: u64) -> bool {
        &&& self.duration is Some
        &&& self.wf()
        &&& self.id == old.id
        &&& self.key == old.key
        &&& self.items == old.items
        &&& self.result == old.result
        &&& self.created_on == old.created_on
        &&& old.is_open() ==> {
            &&& self.success == Some(err is None)
            &&& self.err == err
            &&& self.duration == Some(Duration(since(now, old.created_on)))
        }
        &&& !old.is_open() ==> *self == old
    }

    /// The unique key of the span.
    pub fn get_key(&self) -> (r: String)
        ensures
            r == self.key,
    {
        self.key.clone()
    }
}


/// Every frame among well-formed items is closed, has an error exactly when
/// it failed, and has sorted offsets.
pub proof fn lemma_frames_closed_and_consistent(items: Seq<(Duration, SpanItem)>, i: int)
    requires
        frames_wf(items),
        0 <= i < items.len(),
    ensures
        items[i].1 matches SpanItem::Frame(inner) ==> {
            &&& inner.duration is Some
            &&& inner.outcome_consistent()
            &&& offsets_sorted(inner.items@)
            &&& frames_wf(inner.items@)
        },
    decreases items.len(),
{
    if i < items.len() - 1 {
        lemma_frames_closed_and_consistent(items.drop_last(), i);
        assert(items.drop_last()[i] == items[i]);
    }
}

} // verus!
