//! The shape of a trace: spans, names and nesting without the recorded data,
//! and its digest.
use vstd::prelude::*;
use crate::context::Context;
use crate::span::{Duration, Span, SpanItem};
use crate::sources::{sha256_hex, sha256_hex_text};
use crate::text::{decimal, fill, push_decimal, push_fill, push_str};

verus! {

/// The indentation one level deeper, held within `usize`.
pub open spec fn deeper(space: nat) -> nat {
    if space + 4 <= usize::MAX {
        space + 4
    } else {
        usize::MAX as nat
    }
}

/// The shape lines of one item, at indentation `space`. With `values`,
/// field values and row counts are written out; without, only that they
/// were observed. A transient field shows as observed with `values` and is
/// left out without.
pub open spec fn item_shape(item: SpanItem, space: nat, values: bool) -> Seq<char>
    decreases item,
{
    match item {
        SpanItem::Log { message } => fill(space) + "- "@ + message@ + "\n"@,
        SpanItem::Field { name, value } => if values {
            fill(space) + "- "@ + name@ + "="@ + value.shown_text() + "\n"@
        } else {
            fill(space) + "- "@ + name@ + ": observed\n"@
        },
        SpanItem::TransientField { name, value } => if values {
            fill(space) + "- "@ + name@ + ": observed\n"@
        } else {
            Seq::empty()
        },
        SpanItem::Query { query, bind, result } => fill(space) + "- query: "@ + query@ + "\n"@ + (
        if bind is Some {
            fill(space) + "   bind: observed\n"@
        } else {
            Seq::empty()
        }) + match result {
            Ok(rows) => if values {
                fill(space) + "   rows: "@ + decimal(rows as nat) + "\n"@
            } else {
                fill(space) + "   rows: observed\n"@
            },
            Err(e) => fill(space) + "  error: "@ + e@ + "\n"@,
        },
        SpanItem::Frame(inner) => fill(space) + "- "@ + inner.id@ + "\n"@ + items_shape(
            inner.items@,
            deeper(space),
            values,
        ) + result_shape(inner, deeper(space), values),
    }
}

/// The shape lines of a sequence of items, in order.
pub open spec fn items_shape(items: Seq<(Duration, SpanItem)>, space: nat, values: bool) -> Seq<
    char,
>
    decreases items,
{
    if items.len() == 0 {
        Seq::empty()
    } else {
        items_shape(items.drop_last(), space, values) + item_shape(items.last().1, space, values)
    }
}

/// The result line of a span, where it has a result: the value with
/// `values`, else only that a result was observed.
pub open spec fn result_shape(span: Span, space: nat, values: bool) -> Seq<char> {
    match span.result {
        Some(r) => if values {
            fill(space) + "- result="@ + r.json_text() + "\n"@
        } else {
            fill(space) + "- result: observed\n"@
        },
        None => Seq::empty(),
    }
}

/// The shape of a span at indentation `space`: its label, its items, then
/// its result line.
pub open spec fn span_shape(span: Span, space: nat, values: bool) -> Seq<char> {
    span.id@ + "\n"@ + items_shape(span.items@, space, values) + result_shape(span, space, values)
}

/// The shape of a span stack: each span at the outermost level, in order.
pub open spec fn stack_shape(stack: Seq<Span>, values: bool) -> Seq<char>
    decreases stack.len(),
{
    if stack.len() == 0 {
        Seq::empty()
    } else {
        stack_shape(stack.drop_last(), values) + span_shape(stack.last(), 0, values)
    }
}

/// The shape of a context.
pub open spec fn trace_text(ctx: Context, values: bool) -> Seq<char> {
    stack_shape(ctx.span_stack@, values)
}

fn push_line_start(buffer: &mut String, space: usize, text: &str)
    ensures
        final(buffer)@ == old(buffer)@ + fill(space as nat) + text@,
{
    push_fill(buffer, space);
    push_str(buffer, text);
    assert(buffer@ =~= old(buffer)@ + fill(space as nat) + text@);
}

fn push_named_line(buffer: &mut String, space: usize, name: &str, rest: &str)
    ensures
        final(buffer)@ == old(buffer)@ + (fill(space as nat) + "- "@ + name@ + rest@),
{
    push_line_start(buffer, space, "- ");
    push_str(buffer, name);
    push_str(buffer, rest);
    assert(buffer@ =~= old(buffer)@ + (fill(space as nat) + "- "@ + name@ + rest@));
}

fn push_field_value_line(buffer: &mut String, space: usize, name: &str, value: &crate::value::Value)
    ensures
        final(buffer)@ == old(buffer)@ + (fill(space as nat) + "- "@ + name@ + "="@
            + value.shown_text() + "\n"@),
{
    push_line_start(buffer, space, "- ");
    push_str(buffer, name);
    push_str(buffer, "=");
    value.push_shown(buffer);
    push_str(buffer, "\n");
    assert(buffer@ =~= old(buffer)@ + (fill(space as nat) + "- "@ + name@ + "="@
        + value.shown_text() + "\n"@));
}

#[verifier::rlimit(40)]
fn push_query_shape(
    buffer: &mut String,
    space: usize,
    query: &String,
    bind: &Option<String>,
    result: &Result<usize, String>,
    values: bool,
)
    ensures
        final(buffer)@ == old(buffer)@ + item_shape(
            SpanItem::Query { query: *query, bind: *bind, result: *result },
            space as nat,
            values,
        ),
{
    push_line_start(buffer, space, "- query: ");
    push_str(buffer, query.as_str());
    push_str(buffer, "\n");
    if bind.is_some() {
        push_line_start(buffer, space, "   bind: observed\n");
    }
    match result {
        Ok(rows) => {
            if values {
                push_line_start(buffer, space, "   rows: ");
                push_decimal(buffer, *rows as u64);
                push_str(buffer, "\n");
            } else {
                push_line_start(buffer, space, "   rows: observed\n");
            }
        },
        Err(e) => {
            push_line_start(buffer, space, "  error: ");
            push_str(buffer, e.as_str());
            push_str(buffer, "\n");
        },
    }
    assert(buffer@ =~= old(buffer)@ + item_shape(
        SpanItem::Query { query: *query, bind: *bind, result: *result },
        space as nat,
        values,
    ));
}

fn push_item_shape(buffer: &mut String, item: &SpanItem, space: usize, values: bool)
    ensures
        final(buffer)@ == old(buffer)@ + item_shape(*item, space as nat, values),
    decreases *item,
{
    match item {
        SpanItem::Log { message } => {
            push_named_line(buffer, space, message.as_str(), "\n");
        },
        SpanItem::Field { name, value } => {
            if values {
                push_field_value_line(buffer, space, name.as_str(), value);
            } else {
                push_named_line(buffer, space, name.as_str(), ": observed\n");
            }
        },
        SpanItem::TransientField { name, value: _ } => {
            if values {
                push_named_line(buffer, space, name.as_str(), ": observed\n");
            }
        },
        SpanItem::Query { query, bind, result } => {
            push_query_shape(buffer, space, query, bind, result, values);
        },
        SpanItem::Frame(inner) => {
            push_line_start(buffer, space, "- ");
            print_span_without_data(buffer, inner, next_space(space), values);
            assert(buffer@ =~= old(buffer)@ + item_shape(*item, space as nat, values));
        },
    }
}

pub(crate) fn next_space(space: usize) -> (r: usize)
    ensures
        r as nat == deeper(space as nat),
{
    if space <= usize::MAX - 4 {
        space + 4
    } else {
        usize::MAX
    }
}

fn push_items_shape(
    buffer: &mut String,
    items: &Vec<(Duration, SpanItem)>,
    space: usize,
    values: bool,
)
    ensures
        final(buffer)@ == old(buffer)@ + items_shape(items@, space as nat, values),
    decreases items@,
{
    let ghost start = buffer@;
    let mut i: usize = 0;
    while i < items.len()
        invariant
            i <= items@.len(),
            buffer@ == start + items_shape(items@.subrange(0, i as int), space as nat, values),
        decreases items@.len() - i,
    {
        push_item_shape(buffer, &items[i].1, space, values);
        proof {
            let sub = items@.subrange(0, i + 1);
            assert(sub.drop_last() =~= items@.subrange(0, i as int));
            assert(sub.last() == items@[i as int]);
        }
        i = i + 1;
    }
    assert(items@.subrange(0, items@.len() as int) =~= items@);
}

fn push_result_shape(buffer: &mut String, span: &Span, space: usize, values: bool)
    ensures
        final(buffer)@ == old(buffer)@ + result_shape(*span, space as nat, values),
{
    if let Some(r) = &span.result {
        if values {
            push_line_start(buffer, space, "- result=");
            r.push_json(buffer);
            push_str(buffer, "\n");
        } else {
            push_line_start(buffer, space, "- result: observed\n");
        }
    }
    assert(buffer@ =~= old(buffer)@ + result_shape(*span, space as nat, values));
}

/// Appends the shape of `span` at indentation `space`.
pub fn print_span_without_data(buffer: &mut String, span: &Span, space: usize, print_values: bool)
    ensures
        final(buffer)@ == old(buffer)@ + span_shape(*span, space as nat, print_values),
    decreases *span,
{
    push_str(buffer, span.id.as_str());
    push_str(buffer, "\n");
    push_items_shape(buffer, &span.items, space, print_values);
    push_result_shape(buffer, span, space, print_values);
    assert(buffer@ =~= old(buffer)@ + span_shape(*span, space as nat, print_values));
}

impl Context {
    /// The shape of the context; with `print_values`, field values and row
    /// counts are written out too.
    pub fn trace_without_data(&self, print_values: bool) -> (r: String)
        ensures
            r@ == trace_text(*self, print_values),
    {
        let mut buffer = String::new();
        let mut i: usize = 0;
        while i < self.span_stack.len()
            invariant
                i <= self.span_stack@.len(),
                buffer@ == stack_shape(self.span_stack@.subrange(0, i as int), print_values),
            decreases self.span_stack@.len() - i,
        {
            print_span_without_data(&mut buffer, &self.span_stack[i], 0, print_values);
            proof {
                let sub = self.span_stack@.subrange(0, i + 1);
                assert(sub.drop_last() =~= self.span_stack@.subrange(0, i as int));
            }
            i = i + 1;
        }
        assert(self.span_stack@.subrange(0, self.span_stack@.len() as int) =~= self.span_stack@);
        buffer
    }

    /// The digest of the context's shape without values.
    pub fn shape_hash(&self) -> (r: String)
        ensures
            r@ == sha256_hex(trace_text(*self, false)),
            r@.len() == 64,
    {
        let t = self.trace_without_data(false);
        sha256_hex_text(t.as_str())
    }
}


/// Two items have the same shape: the same kind, log text, field name,
/// query text, presence of a bind, kind of query outcome and error text,
/// and, for frames, the same label, the same presence of a result and items
/// of the same shape. Offsets, field values, row counts and result values
/// may differ.
pub open spec fn same_item_shape(a: SpanItem, b: SpanItem) -> bool
    decreases a,
{
    match (a, b) {
        (SpanItem::Log { message: m1 }, SpanItem::Log { message: m2 }) => m1@ == m2@,
        (SpanItem::Field { name: n1, .. }, SpanItem::Field { name: n2, .. }) => n1@ == n2@,
        (
            SpanItem::TransientField { name: n1, .. },
            SpanItem::TransientField { name: n2, .. },
        ) => n1@ == n2@,
        (
            SpanItem::Query { query: q1, bind: b1, result: r1 },
            SpanItem::Query { query: q2, bind: b2, result: r2 },
        ) => q1@ == q2@ && (b1 is Some <==> b2 is Some) && match (r1, r2) {
            (Ok(_), Ok(_)) => true,
            (Err(e1), Err(e2)) => e1@ == e2@,
            _ => false,
        },
        (SpanItem::Frame(s1), SpanItem::Frame(s2)) => s1.id@ == s2.id@ && (s1.result is Some
            <==> s2.result is Some) && same_items_shape(s1.items@, s2.items@),
        _ => false,
    }
}

/// Item sequences of the same length whose items pairwise have the same shape.
pub open spec fn same_items_shape(a: Seq<(Duration, SpanItem)>, b: Seq<(Duration, SpanItem)>) -> bool
    decreases a,
{
    &&& a.len() == b.len()
    &&& a.len() > 0 ==> {
        &&& same_items_shape(a.drop_last(), b.drop_last())
        &&& same_item_shape(a.last().1, b.last().1)
    }
}

/// Two spans with the same label, items of the same shape and the same
/// presence of a result.
pub open spec fn same_span_shape(s1: Span, s2: Span) -> bool {
    &&& s1.id@ == s2.id@
    &&& same_items_shape(s1.items@, s2.items@)
    &&& (s1.result is Some <==> s2.result is Some)
}

/// Two contexts whose span stacks have the same length and whose spans,
/// pairwise, have the same shape.
pub open spec fn same_shape(c1: Context, c2: Context) -> bool {
    &&& c1.span_stack@.len() == c2.span_stack@.len()
    &&& forall|i: int|
        0 <= i < c1.span_stack@.len() ==> same_span_shape(
            #[trigger] c1.span_stack@[i],
            c2.span_stack@[i],
        )
}

proof fn lemma_item_shape_same(a: SpanItem, b: SpanItem, space: nat)
    requires
        same_item_shape(a, b),
    ensures
        item_shape(a, space, false) == item_shape(b, space, false),
    decreases a,
{
    match (a, b) {
        (SpanItem::Frame(s1), SpanItem::Frame(s2)) => {
            lemma_items_shape_same(s1.items@, s2.items@, deeper(space));
        },
        _ => {},
    }
}

proof fn lemma_items_shape_same(
    a: Seq<(Duration, SpanItem)>,
    b: Seq<(Duration, SpanItem)>,
    space: nat,
)
    requires
        same_items_shape(a, b),
    ensures
        items_shape(a, space, false) == items_shape(b, space, false),
    decreases a,
{
    if a.len() > 0 {
        lemma_items_shape_same(a.drop_last(), b.drop_last(), space);
        lemma_item_shape_same(a.last().1, b.last().1, space);
    }
}

proof fn lemma_stack_shape_same(s1: Seq<Span>, s2: Seq<Span>)
    requires
        s1.len() == s2.len(),
        forall|i: int| 0 <= i < s1.len() ==> same_span_shape(#[trigger] s1[i], s2[i]),
    ensures
        stack_shape(s1, false) == stack_shape(s2, false),
    decreases s1.len(),
{
    if s1.len() > 0 {
        let n = s1.len() - 1;
        assert forall|i: int| 0 <= i < s1.drop_last().len() implies same_span_shape(
            #[trigger] s1.drop_last()[i],
            s2.drop_last()[i],
        ) by {
            assert(s1.drop_last()[i] == s1[i]);
            assert(s2.drop_last()[i] == s2[i]);
        }
        lemma_stack_shape_same(s1.drop_last(), s2.drop_last());
        assert(same_span_shape(s1[n], s2[n]));
        lemma_items_shape_same(s1.last().items@, s2.last().items@, 0);
    }
}

/// The shape without values, and so its digest, depend on the shape of
/// the tree alone: contexts that differ only in field values, row counts,
/// result values, timings, outcomes or keys have the same shape text and
/// digest.
pub proof fn lemma_shape_ignores_data(c1: Context, c2: Context)
    requires
        same_shape(c1, c2),
    ensures
        trace_text(c1, false) == trace_text(c2, false),
        sha256_hex(trace_text(c1, false)) == sha256_hex(trace_text(c2, false)),
{
    lemma_stack_shape_same(c1.span_stack@, c2.span_stack@);
}

/// A transient field leaves the shape without values as it is.
pub proof fn lemma_transient_not_in_shape(
    items: Seq<(Duration, SpanItem)>,
    space: nat,
    off: Duration,
    name: String,
    value: crate::value::Value,
)
    ensures
        items_shape(items.push((off, SpanItem::TransientField { name, value })), space, false)
            == items_shape(items, space, false),
{
    let longer = items.push((off, SpanItem::TransientField { name, value }));
    assert(longer.drop_last() =~= items);
    assert(item_shape(longer.last().1, space, false) =~= Seq::<char>::empty());
}

} // verus!
