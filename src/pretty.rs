//! Human-readable rendering: elapsed times, and the indented text of a
//! context tree.
use vstd::prelude::*;
use vstd::string::*;
use crate::context::Context;
use crate::sources::{rfc3339, rfc3339_text};
use crate::span::{Duration, Span, SpanItem};
use crate::text::{blanks, decimal, fill, push_decimal, push_fill, push_repeat, push_str};
use crate::value::Value;

verus! {

/// `n / d` rounded to the nearest integer, ties to the even one.
pub open spec fn round_div(n: nat, d: nat) -> nat
    recommends
        d > 0,
{
    let q = n / d;
    let r = n % d;
    if 2 * r > d {
        q + 1
    } else if 2 * r < d {
        q
    } else if q % 2 == 0 {
        q
    } else {
        q + 1
    }
}

/// `s` right-aligned in a field of 3 characters.
pub open spec fn right3(s: Seq<char>) -> Seq<char> {
    if s.len() < 3 {
        blanks((3 - s.len()) as nat) + s
    } else {
        s
    }
}

/// `s` with leading zeros to 3 characters.
pub open spec fn zero3(s: Seq<char>) -> Seq<char> {
    if s.len() < 3 {
        Seq::new((3 - s.len()) as nat, |i: int| '0') + s
    } else {
        s
    }
}

/// The sub-second part: nanoseconds, microseconds or milliseconds.
pub open spec fn fraction_text(nanos: nat) -> Seq<char> {
    if nanos < 1000 {
        right3(decimal(nanos)) + "ns"@
    } else if nanos < 1_000_000 {
        right3(decimal(round_div(nanos, 1000))) + seq!['\u{b5}', 's']
    } else {
        right3(decimal(round_div(nanos, 1_000_000))) + "ms"@
    }
}

/// The text of an elapsed time of `d` nanoseconds.
pub open spec fn elapsed_text(d: nat) -> Seq<char> {
    let secs = d / 1_000_000_000;
    let nanos = d % 1_000_000_000;
    if secs == 0 {
        fraction_text(nanos)
    } else if secs < 5 {
        decimal(secs) + "."@ + zero3(decimal(nanos / 1000)) + "s"@
    } else if secs < 60 {
        decimal(secs) + "."@ + zero3(decimal(nanos / 1_000_000)) + "s"@
    } else if secs < 3600 {
        decimal(secs / 60) + "m "@ + decimal(secs % 60) + "s"@
    } else if secs < 86400 {
        decimal(secs / 3600) + "h "@ + decimal((secs % 3600) / 60) + "m"@
    } else {
        decimal(secs) + "s"@
    }
}

proof fn lemma_decimal_len_small(n: nat)
    ensures
        n < 10 ==> decimal(n).len() == 1,
        10 <= n < 100 ==> decimal(n).len() == 2,
        100 <= n ==> decimal(n).len() >= 3,
    decreases n,
{
    if n >= 10 {
        lemma_decimal_len_small(n / 10);
    }
}

fn rounded_div(n: u64, d: u64) -> (r: u64)
    requires
        d > 0,
        n < 1_000_000_000,
        d <= 1_000_000,
    ensures
        r as nat == round_div(n as nat, d as nat),
{
    let q = n / d;
    let r = n % d;
    if 2 * r > d {
        q + 1
    } else if 2 * r < d {
        q
    } else if q % 2 == 0 {
        q
    } else {
        q + 1
    }
}

fn push_padded(buf: &mut String, n: u64, fill_char: char)
    ensures
        fill_char == ' ' ==> final(buf)@ == old(buf)@ + right3(decimal(n as nat)),
        fill_char == '0' ==> final(buf)@ == old(buf)@ + zero3(decimal(n as nat)),
{
    proof {
        lemma_decimal_len_small(n as nat);
    }
    let width: usize = if n < 10 {
        2
    } else if n < 100 {
        1
    } else {
        0
    };
    let ghost before = buf@;
    push_repeat(buf, fill_char, width);
    push_decimal(buf, n);
    proof {
        let s = decimal(n as nat);
        if fill_char == ' ' {
            assert(buf@ =~= before + right3(s));
        }
        if fill_char == '0' {
            assert(buf@ =~= before + zero3(s));
        }
    }
}

/// A human-readable elapsed time: `ns`, `µs` or `ms` under a second,
/// seconds with a fraction under a minute, then minutes and seconds, hours
/// and minutes, and whole seconds from a day on.
pub fn elapsed(d: Duration) -> (r: String)
    ensures
        r@ == elapsed_text(d.0 as nat),
{
    let secs = d.0 / 1_000_000_000;
    let nanos = d.0 % 1_000_000_000;
    let mut r = String::new();
    if secs == 0 {
        if nanos < 1000 {
            push_padded(&mut r, nanos, ' ');
            push_str(&mut r, "ns");
        } else if nanos < 1_000_000 {
            push_padded(&mut r, rounded_div(nanos, 1000), ' ');
            crate::text::push_char(&mut r, '\u{b5}');
            crate::text::push_char(&mut r, 's');
        } else {
            push_padded(&mut r, rounded_div(nanos, 1_000_000), ' ');
            push_str(&mut r, "ms");
        }
    } else if secs < 5 {
        push_decimal(&mut r, secs);
        push_str(&mut r, ".");
        push_padded(&mut r, nanos / 1000, '0');
        push_str(&mut r, "s");
    } else if secs < 60 {
        push_decimal(&mut r, secs);
        push_str(&mut r, ".");
        push_padded(&mut r, nanos / 1_000_000, '0');
        push_str(&mut r, "s");
    } else if secs < 3600 {
        push_decimal(&mut r, secs / 60);
        push_str(&mut r, "m ");
        push_decimal(&mut r, secs % 60);
        push_str(&mut r, "s");
    } else if secs < 86400 {
        push_decimal(&mut r, secs / 3600);
        push_str(&mut r, "h ");
        push_decimal(&mut r, (secs % 3600) / 60);
        push_str(&mut r, "m");
    } else {
        push_decimal(&mut r, secs);
        push_str(&mut r, "s");
    }
    assert(r@ =~= elapsed_text(d.0 as nat));
    r
}


/// How a span's label is painted: red when slow, green when fast; then
/// underlined, bold or neither.
#[derive(Debug, Clone, Copy, PartialEq, Eq, Structural)]
pub enum Emphasis {
    Plain,
    Underline,
    Bold,
}

#[derive(Debug, Clone, Copy, PartialEq, Eq, Structural)]
pub struct HeaderStyle {
    pub slow: bool,
    pub emphasis: Emphasis,
}

/// A span is slow when it took more than a millisecond. A succeeded span is
/// underlined, an open one bold, a failed one plain.
pub open spec fn style_spec(span: Span, now: u64) -> HeaderStyle {
    HeaderStyle {
        slow: span.elapsed_at(now).0 > 1_000_000,
        emphasis: match span.success {
            Some(true) => Emphasis::Underline,
            Some(false) => Emphasis::Plain,
            None => Emphasis::Bold,
        },
    }
}

/// The header style of `span` at clock time `now`.
pub fn header_style(span: &Span, now: u64) -> (r: HeaderStyle)
    ensures
        r == style_spec(*span, now),
{
    let d = span.duration(now);
    let emphasis = match span.success {
        Some(true) => Emphasis::Underline,
        Some(false) => Emphasis::Plain,
        None => Emphasis::Bold,
    };
    HeaderStyle { slow: d.0 > 1_000_000, emphasis }
}

/// The label has no escape character.
pub open spec fn no_escape(text: Seq<char>) -> bool {
    forall|i: int| 0 <= i < text.len() ==> text[i] != '\u{1b}'
}

/// The style sequence colored writes before a label painted in `style`:
/// the emphasis code, if any, then 31 for red or 32 for green.
pub open spec fn style_prefix(style: HeaderStyle) -> Seq<char> {
    "\u{1b}["@ + match style.emphasis {
        Emphasis::Plain => Seq::<char>::empty(),
        Emphasis::Underline => "4;"@,
        Emphasis::Bold => "1;"@,
    } + (if style.slow {
        "31"@
    } else {
        "32"@
    }) + "m"@
}

/// What colored writes for `text` painted in `style`: the text alone where
/// colouring is off, else the text between the style sequence and the reset
/// sequence.
pub open spec fn painted_as(r: Seq<char>, text: Seq<char>, style: HeaderStyle) -> bool {
    r == text || r == style_prefix(style) + text + "\u{1b}[0m"@
}

/// Relies on colored::Colorize::red and the Display impl of colored::ColoredString:
/// the sequence `ESC[31m` and a reset around the text, only where the
/// terminal and environment allow colours.
#[verifier::external_body]
fn red(s: &str) -> (r: String)
    ensures
        no_escape(s@) ==> (r@ == s@ || r@ == "\u{1b}[31m"@ + s@ + "\u{1b}[0m"@),
{
    colored::Colorize::red(s).to_string()
}

/// Relies on colored::Colorize::green and the Display impl of colored::ColoredString:
/// the sequence `ESC[32m` and a reset around the text, only where the
/// terminal and environment allow colours.
#[verifier::external_body]
fn green(s: &str) -> (r: String)
    ensures
        no_escape(s@) ==> (r@ == s@ || r@ == "\u{1b}[32m"@ + s@ + "\u{1b}[0m"@),
{
    colored::Colorize::green(s).to_string()
}

/// Relies on colored::Colorize::red, colored::Colorize::underline and the Display impl of colored::ColoredString:
/// the sequence `ESC[4;31m` and a reset around the text, only where the
/// terminal and environment allow colours.
#[verifier::external_body]
fn red_underline(s: &str) -> (r: String)
    ensures
        no_escape(s@) ==> (r@ == s@ || r@ == "\u{1b}[4;31m"@ + s@ + "\u{1b}[0m"@),
{
    colored::Colorize::underline(colored::Colorize::red(s)).to_string()
}

/// Relies on colored::Colorize::green, colored::Colorize::underline and the Display impl of colored::ColoredString:
/// the sequence `ESC[4;32m` and a reset around the text, only where the
/// terminal and environment allow colours.
#[verifier::external_body]
fn green_underline(s: &str) -> (r: String)
    ensures
        no_escape(s@) ==> (r@ == s@ || r@ == "\u{1b}[4;32m"@ + s@ + "\u{1b}[0m"@),
{
    colored::Colorize::underline(colored::Colorize::green(s)).to_string()
}

/// Relies on colored::Colorize::red, colored::Colorize::bold and the Display impl of colored::ColoredString:
/// the sequence `ESC[1;31m` and a reset around the text, only where the
/// terminal and environment allow colours.
#[verifier::external_body]
fn red_bold(s: &str) -> (r: String)
    ensures
        no_escape(s@) ==> (r@ == s@ || r@ == "\u{1b}[1;31m"@ + s@ + "\u{1b}[0m"@),
{
    colored::Colorize::bold(colored::Colorize::red(s)).to_string()
}

/// Relies on colored::Colorize::green, colored::Colorize::bold and the Display impl of colored::ColoredString:
/// the sequence `ESC[1;32m` and a reset around the text, only where the
/// terminal and environment allow colours.
#[verifier::external_body]
fn green_bold(s: &str) -> (r: String)
    ensures
        no_escape(s@) ==> (r@ == s@ || r@ == "\u{1b}[1;32m"@ + s@ + "\u{1b}[0m"@),
{
    colored::Colorize::bold(colored::Colorize::green(s)).to_string()
}

/// The label painted in a style.
pub fn paint(id: &str, style: HeaderStyle) -> (r: String)
    ensures
        no_escape(id@) ==> painted_as(r@, id@, style),
{
    proof {
        reveal_strlit("\u{1b}[");
        reveal_strlit("4;");
        reveal_strlit("1;");
        reveal_strlit("31");
        reveal_strlit("32");
        reveal_strlit("m");
        reveal_strlit("\u{1b}[31m");
        reveal_strlit("\u{1b}[32m");
        reveal_strlit("\u{1b}[4;31m");
        reveal_strlit("\u{1b}[4;32m");
        reveal_strlit("\u{1b}[1;31m");
        reveal_strlit("\u{1b}[1;32m");
    }
    let r = match (style.slow, style.emphasis) {
        (true, Emphasis::Plain) => red(id),
        (false, Emphasis::Plain) => green(id),
        (true, Emphasis::Underline) => red_underline(id),
        (false, Emphasis::Underline) => green_underline(id),
        (true, Emphasis::Bold) => red_bold(id),
        (false, Emphasis::Bold) => green_bold(id),
    };
    assert(no_escape(id@) ==> painted_as(r@, id@, style)) by {
        assert(style_prefix(style) =~= match (style.slow, style.emphasis) {
            (true, Emphasis::Plain) => "\u{1b}[31m"@,
            (false, Emphasis::Plain) => "\u{1b}[32m"@,
            (true, Emphasis::Underline) => "\u{1b}[4;31m"@,
            (false, Emphasis::Underline) => "\u{1b}[4;32m"@,
            (true, Emphasis::Bold) => "\u{1b}[1;31m"@,
            (false, Emphasis::Bold) => "\u{1b}[1;32m"@,
        });
    }
    r
}

/// The number of spans nested in `items`, at every depth.
pub open spec fn header_count(items: Seq<(Duration, SpanItem)>) -> nat
    decreases items,
{
    if items.len() == 0 {
        0
    } else {
        header_count(items.drop_last()) + match items.last().1 {
            SpanItem::Frame(inner) => 1 + header_count(inner.items@),
            _ => 0,
        }
    }
}

/// The number of spans an item holds, at every depth.
pub open spec fn item_count(item: SpanItem) -> nat {
    match item {
        SpanItem::Frame(inner) => 1 + header_count(inner.items@),
        _ => 0,
    }
}

/// The number of spans in a stack and below it.
pub open spec fn stack_count(stack: Seq<Span>) -> nat
    decreases stack.len(),
{
    if stack.len() == 0 {
        0
    } else {
        stack_count(stack.drop_last()) + 1 + header_count(stack.last().items@)
    }
}

/// The texts of painted labels.
pub open spec fn texts(painted: Seq<String>) -> Seq<Seq<char>> {
    painted.map_values(|s: String| s@)
}

/// The indentation of a span's result and error lines.
pub open spec fn shifted(space: nat) -> nat {
    if space + 2 <= usize::MAX {
        space + 2
    } else {
        usize::MAX as nat
    }
}

/// The lines after a span's items: its result and its error.
pub open spec fn outcome_lines(span: Span, space: nat) -> Seq<char> {
    (match span.result {
        Some(r) => fill(shifted(space)) + "result: "@ + r.json_text() + "\n"@,
        None => Seq::empty(),
    }) + match span.err {
        Some(e) => fill(shifted(space)) + "error: "@ + e@ + "\n"@,
        None => Seq::empty(),
    }
}

/// A span's header: its painted label and elapsed time.
pub open spec fn header_line(label: Seq<char>, span: Span, now: u64) -> Seq<char> {
    label + ": "@ + elapsed_text(span.elapsed_at(now).0 as nat) + "\n"@
}

/// The rendering of one item at offset `off`, where the painted labels of
/// the spans it holds start at index `k` of `painted`.
pub open spec fn item_pretty(
    off: Duration,
    item: SpanItem,
    space: nat,
    painted: Seq<Seq<char>>,
    k: int,
) -> Seq<char>
    decreases item,
{
    let lead = fill(space) + "- "@ + elapsed_text(off.0 as nat) + ": "@;
    match item {
        SpanItem::Log { message } => lead + message@ + "\n"@,
        SpanItem::Field { name, value } => lead + name@ + "="@ + value.shown_text() + "\n"@,
        SpanItem::TransientField { name, value } => lead + name@ + ":="@ + value.shown_text()
            + "\n"@,
        SpanItem::Query { query, bind, result } => fill(space) + "- query: "@ + query@ + "\n"@ + (
        match bind {
            Some(b) => fill(space) + "   bind: "@ + b@ + "\n"@,
            None => Seq::empty(),
        }) + match result {
            Ok(rows) => fill(space) + "   rows: "@ + decimal(rows as nat) + "\n"@,
            Err(e) => fill(space) + "  error: "@ + e@ + "\n"@,
        },
        SpanItem::Frame(inner) => lead + header_line(painted[k], inner, 0) + items_pretty(
            inner.items@,
            crate::shape::deeper(space),
            painted,
            k + 1,
        ) + outcome_lines(inner, crate::shape::deeper(space)),
    }
}

/// The rendering of a sequence of items, in order.
pub open spec fn items_pretty(
    items: Seq<(Duration, SpanItem)>,
    space: nat,
    painted: Seq<Seq<char>>,
    k: int,
) -> Seq<char>
    decreases items,
{
    if items.len() == 0 {
        Seq::empty()
    } else {
        items_pretty(items.drop_last(), space, painted, k) + item_pretty(
            items.last().0,
            items.last().1,
            space,
            painted,
            k + header_count(items.drop_last()),
        )
    }
}

/// The rendering of a span at the outermost level at clock time `now`.
pub open spec fn span_pretty(span: Span, now: u64, painted: Seq<Seq<char>>, k: int) -> Seq<char> {
    header_line(painted[k], span, now) + items_pretty(span.items@, 0, painted, k + 1)
        + outcome_lines(span, 0)
}

/// The rendering of a stack of spans, each at the outermost level.
pub open spec fn stack_pretty(stack: Seq<Span>, now: u64, painted: Seq<Seq<char>>) -> Seq<char>
    decreases stack.len(),
{
    if stack.len() == 0 {
        Seq::empty()
    } else {
        stack_pretty(stack.drop_last(), now, painted) + span_pretty(
            stack.last(),
            now,
            painted,
            stack_count(stack.drop_last()) as int,
        )
    }
}

/// The rendering of a context at clock time `now`, with the painted labels
/// of its spans in pre-order.
pub open spec fn context_pretty(ctx: Context, now: u64, painted: Seq<Seq<char>>) -> Seq<char> {
    "context: "@ + ctx.id@ + " ["@ + (match rfc3339(ctx.created_on.secs, ctx.created_on.nanos) {
        Some(t) => t,
        None => Seq::empty(),
    }) + "] "@ + stack_pretty(ctx.span_stack@, now, painted)
}

proof fn lemma_prefix_count(items: Seq<(Duration, SpanItem)>, i: int)
    requires
        0 <= i <= items.len(),
    ensures
        header_count(items.subrange(0, i)) <= header_count(items),
    decreases items.len(),
{
    if i < items.len() {
        lemma_prefix_count(items.drop_last(), i);
        assert(items.drop_last().subrange(0, i) =~= items.subrange(0, i));
    } else {
        assert(items.subrange(0, i) =~= items);
    }
}

proof fn lemma_stack_prefix_count(stack: Seq<Span>, i: int)
    requires
        0 <= i <= stack.len(),
    ensures
        stack_count(stack.subrange(0, i)) <= stack_count(stack),
    decreases stack.len(),
{
    if i < stack.len() {
        lemma_stack_prefix_count(stack.drop_last(), i);
        assert(stack.drop_last().subrange(0, i) =~= stack.subrange(0, i));
    } else {
        assert(stack.subrange(0, i) =~= stack);
    }
}

fn shift(space: usize) -> (r: usize)
    ensures
        r as nat == shifted(space as nat),
{
    if space <= usize::MAX - 2 {
        space + 2
    } else {
        usize::MAX
    }
}

fn push_outcome_lines(buf: &mut String, span: &Span, space: usize)
    ensures
        final(buf)@ == old(buf)@ + outcome_lines(*span, space as nat),
{
    let ghost start = buf@;
    if let Some(r) = &span.result {
        push_fill(buf, shift(space));
        push_str(buf, "result: ");
        r.push_json(buf);
        push_str(buf, "\n");
    }
    let ghost mid = buf@;
    assert(mid =~= start + match span.result {
        Some(r) => fill(shifted(space as nat)) + "result: "@ + r.json_text() + "\n"@,
        None => Seq::<char>::empty(),
    });
    if let Some(e) = &span.err {
        push_fill(buf, shift(space));
        push_str(buf, "error: ");
        push_str(buf, e.as_str());
        push_str(buf, "\n");
    }
    assert(buf@ =~= start + outcome_lines(*span, space as nat));
}

fn push_header(buf: &mut String, label: &String, span: &Span, now: u64)
    ensures
        final(buf)@ == old(buf)@ + header_line(label@, *span, now),
{
    push_str(buf, label.as_str());
    push_str(buf, ": ");
    let e = elapsed(span.duration(now));
    push_str(buf, e.as_str());
    push_str(buf, "\n");
    assert(buf@ =~= old(buf)@ + header_line(label@, *span, now));
}

fn push_lead(buf: &mut String, space: usize, off: Duration)
    ensures
        final(buf)@ == old(buf)@ + (fill(space as nat) + "- "@ + elapsed_text(off.0 as nat)
            + ": "@),
{
    push_fill(buf, space);
    push_str(buf, "- ");
    let e = elapsed(off);
    push_str(buf, e.as_str());
    push_str(buf, ": ");
    assert(buf@ =~= old(buf)@ + (fill(space as nat) + "- "@ + elapsed_text(off.0 as nat)
        + ": "@));
}

fn push_value_line(buf: &mut String, name: &String, sep: &str, value: &Value)
    ensures
        final(buf)@ == old(buf)@ + (name@ + sep@ + value.shown_text() + "\n"@),
{
    push_str(buf, name.as_str());
    push_str(buf, sep);
    value.push_shown(buf);
    push_str(buf, "\n");
    assert(buf@ =~= old(buf)@ + (name@ + sep@ + value.shown_text() + "\n"@));
}

fn push_query_pretty(
    buf: &mut String,
    space: usize,
    query: &String,
    bind: &Option<String>,
    result: &Result<usize, String>,
)
    ensures
        final(buf)@ == old(buf)@ + item_pretty(
            Duration(0),
            SpanItem::Query { query: *query, bind: *bind, result: *result },
            space as nat,
            Seq::empty(),
            0,
        ),
{
    let ghost start = buf@;
    push_fill(buf, space);
    push_str(buf, "- query: ");
    push_str(buf, query.as_str());
    push_str(buf, "\n");
    if let Some(b) = bind {
        push_fill(buf, space);
        push_str(buf, "   bind: ");
        push_str(buf, b.as_str());
        push_str(buf, "\n");
    }
    match result {
        Ok(rows) => {
            push_fill(buf, space);
            push_str(buf, "   rows: ");
            push_decimal(buf, *rows as u64);
            push_str(buf, "\n");
        },
        Err(e) => {
            push_fill(buf, space);
            push_str(buf, "  error: ");
            push_str(buf, e.as_str());
            push_str(buf, "\n");
        },
    }
    assert(buf@ =~= start + item_pretty(
        Duration(0),
        SpanItem::Query { query: *query, bind: *bind, result: *result },
        space as nat,
        Seq::empty(),
        0,
    ));
}

fn push_item_pretty(
    buf: &mut String,
    off: Duration,
    item: &SpanItem,
    space: usize,
    painted: &Vec<String>,
    k: usize,
) -> (next: usize)
    requires
        k + item_count(*item) <= painted@.len(),
    ensures
        final(buf)@ == old(buf)@ + item_pretty(off, *item, space as nat, texts(painted@), k as int),
        next == k + item_count(*item),
    decreases *item,
{
    match item {
        SpanItem::Log { message } => {
            push_lead(buf, space, off);
            push_str(buf, message.as_str());
            push_str(buf, "\n");
            assert(buf@ =~= old(buf)@ + item_pretty(off, *item, space as nat, texts(painted@), k as int));
            k
        },
        SpanItem::Field { name, value } => {
            push_lead(buf, space, off);
            push_value_line(buf, name, "=", value);
            assert(buf@ =~= old(buf)@ + item_pretty(off, *item, space as nat, texts(painted@), k as int));
            k
        },
        SpanItem::TransientField { name, value } => {
            push_lead(buf, space, off);
            push_value_line(buf, name, ":=", value);
            assert(buf@ =~= old(buf)@ + item_pretty(off, *item, space as nat, texts(painted@), k as int));
            k
        },
        SpanItem::Query { query, bind, result } => {
            push_query_pretty(buf, space, query, bind, result);
            k
        },
        SpanItem::Frame(inner) => {
            let ghost start = buf@;
            push_lead(buf, space, off);
            push_header(buf, &painted[k], inner, 0);
            let deeper = crate::shape::next_space(space);
            let len = painted.len();
            assert(k + 1 <= len);
            let next = push_items_pretty(buf, &inner.items, deeper, painted, k + 1);
            push_outcome_lines(buf, inner, deeper);
            assert(texts(painted@)[k as int] == painted@[k as int]@);
            assert(buf@ =~= start + item_pretty(off, *item, space as nat, texts(painted@), k as int));
            next
        },
    }
}

fn push_items_pretty(
    buf: &mut String,
    items: &Vec<(Duration, SpanItem)>,
    space: usize,
    painted: &Vec<String>,
    k: usize,
) -> (next: usize)
    requires
        k + header_count(items@) <= painted@.len(),
    ensures
        final(buf)@ == old(buf)@ + items_pretty(items@, space as nat, texts(painted@), k as int),
        next == k + header_count(items@),
    decreases items@,
{
    let ghost start = buf@;
    let mut i: usize = 0;
    let mut at: usize = k;
    while i < items.len()
        invariant
            i <= items@.len(),
            k + header_count(items@) <= painted@.len(),
            at == k + header_count(items@.subrange(0, i as int)),
            buf@ == start + items_pretty(
                items@.subrange(0, i as int),
                space as nat,
                texts(painted@),
                k as int,
            ),
        decreases items@.len() - i,
    {
        proof {
            let sub = items@.subrange(0, i + 1);
            assert(sub.drop_last() =~= items@.subrange(0, i as int));
            assert(sub.last() == items@[i as int]);
            lemma_prefix_count(items@, i + 1);
            assert(header_count(sub) == header_count(sub.drop_last()) + item_count(sub.last().1));
        }
        at = push_item_pretty(buf, items[i].0, &items[i].1, space, painted, at);
        i = i + 1;
    }
    assert(items@.subrange(0, items@.len() as int) =~= items@);
    at
}

/// Appends the rendering of a span at the outermost level, with painted
/// labels from index `k` on, and gives the index after them.
pub fn print_span(buffer: &mut String, span: &Span, now: u64, painted: &Vec<String>, k: usize) -> (next: usize)
    requires
        k + 1 + header_count(span.items@) <= painted@.len(),
    ensures
        final(buffer)@ == old(buffer)@ + span_pretty(*span, now, texts(painted@), k as int),
        next == k + 1 + header_count(span.items@),
{
    let ghost start = buffer@;
    push_header(buffer, &painted[k], span, now);
    let len = painted.len();
    assert(k + 1 <= len);
    let next = push_items_pretty(buffer, &span.items, 0, painted, k + 1);
    push_outcome_lines(buffer, span, 0);
    assert(texts(painted@)[k as int] == painted@[k as int]@);
    assert(buffer@ =~= start + span_pretty(*span, now, texts(painted@), k as int));
    next
}

/// The spans nested in `items`, at every depth, in pre-order.
pub open spec fn item_spans(items: Seq<(Duration, SpanItem)>) -> Seq<Span>
    decreases items,
{
    if items.len() == 0 {
        Seq::empty()
    } else {
        item_spans(items.drop_last()) + match items.last().1 {
            SpanItem::Frame(inner) => seq![inner] + item_spans(inner.items@),
            _ => Seq::empty(),
        }
    }
}

/// The spans of a stack and below it, in pre-order.
pub open spec fn stack_spans(stack: Seq<Span>) -> Seq<Span>
    decreases stack.len(),
{
    if stack.len() == 0 {
        Seq::empty()
    } else {
        stack_spans(stack.drop_last()) + seq![stack.last()] + item_spans(stack.last().items@)
    }
}

/// `label` is the label of `span` painted in its style at clock time `now`,
/// where the label has no escape character.
pub open spec fn label_ok(label: Seq<char>, span: Span, now: u64) -> bool {
    no_escape(span.id@) ==> painted_as(label, span.id@, style_spec(span, now))
}

/// Each of `labels` is the painted label of the span at the same place.
pub open spec fn labels_ok(labels: Seq<String>, spans: Seq<Span>, now: u64) -> bool {
    &&& labels.len() == spans.len()
    &&& forall|k: int| 0 <= k < spans.len() ==> label_ok(#[trigger] labels[k]@, spans[k], now)
}

proof fn lemma_item_spans_len(items: Seq<(Duration, SpanItem)>)
    ensures
        item_spans(items).len() == header_count(items),
    decreases items,
{
    if items.len() > 0 {
        lemma_item_spans_len(items.drop_last());
        match items.last().1 {
            SpanItem::Frame(inner) => lemma_item_spans_len(inner.items@),
            _ => {},
        }
    }
}

proof fn lemma_stack_spans_len(stack: Seq<Span>)
    ensures
        stack_spans(stack).len() == stack_count(stack),
    decreases stack.len(),
{
    if stack.len() > 0 {
        lemma_stack_spans_len(stack.drop_last());
        lemma_item_spans_len(stack.last().items@);
    }
}

/// Appends `p`, the painted label of `s`, and then `rest`, the painted
/// labels of `more`: the labels after `start` then match `spans + [s] + more`.
proof fn lemma_labels_extend(
    before: Seq<String>,
    start: int,
    spans: Seq<Span>,
    s: Span,
    p: String,
    more: Seq<Span>,
    after: Seq<String>,
    now: u64,
)
    requires
        0 <= start <= before.len(),
        before.len() == start + spans.len(),
        labels_ok(before.subrange(start, before.len() as int), spans, now),
        label_ok(p@, s, now),
        after.len() == before.len() + 1 + more.len(),
        after.subrange(0, before.len() + 1 as int) == before.push(p),
        labels_ok(after.subrange(before.len() + 1 as int, after.len() as int), more, now),
    ensures
        labels_ok(after.subrange(start, after.len() as int), spans + seq![s] + more, now),
{
    let all = spans + seq![s] + more;
    let got = after.subrange(start, after.len() as int);
    assert forall|k: int| 0 <= k < all.len() implies label_ok(#[trigger] got[k]@, all[k], now) by {
        let b = before.len() as int;
        if k < spans.len() {
            assert(after[start + k] == after.subrange(0, b + 1)[start + k]);
            assert(before.push(p)[start + k] == before[start + k]);
            assert(before.subrange(start, b)[k] == before[start + k]);
        } else if k == spans.len() {
            assert(after[b] == after.subrange(0, b + 1)[b]);
        } else {
            let m = k - spans.len() - 1;
            assert(after.subrange(b + 1, after.len() as int)[m] == after[b + 1 + m]);
        }
    }
}

fn paint_items(items: &Vec<(Duration, SpanItem)>, now: u64, out: &mut Vec<String>)
    ensures
        final(out)@.len() == old(out)@.len() + item_spans(items@).len(),
        final(out)@.subrange(0, old(out)@.len() as int) == old(out)@,
        labels_ok(
            final(out)@.subrange(old(out)@.len() as int, final(out)@.len() as int),
            item_spans(items@),
            now,
        ),
    decreases items@,
{
    let ghost start = out@.len() as int;
    let ghost first = out@;
    let mut i: usize = 0;
    assert(out@.subrange(start, start) =~= Seq::<String>::empty());
    assert(items@.subrange(0, 0) =~= Seq::<(Duration, SpanItem)>::empty());
    while i < items.len()
        invariant
            i <= items@.len(),
            start == first.len(),
            out@.len() == start + item_spans(items@.subrange(0, i as int)).len(),
            out@.subrange(0, start) == first,
            labels_ok(
                out@.subrange(start, out@.len() as int),
                item_spans(items@.subrange(0, i as int)),
                now,
            ),
        decreases items@.len() - i,
    {
        let ghost sub = items@.subrange(0, i + 1);
        let ghost prev = items@.subrange(0, i as int);
        proof {
            assert(sub.drop_last() =~= prev);
            assert(sub.last() == items@[i as int]);
        }
        match &items[i].1 {
            SpanItem::Frame(inner) => {
                let ghost before = out@;
                let p = paint(inner.id.as_str(), header_style(inner, now));
                out.push(p);
                paint_items(&inner.items, now, out);
                proof {
                    assert(item_spans(sub) == item_spans(prev) + (seq![*inner] + item_spans(
                        inner.items@,
                    )));
                    assert(item_spans(prev) + (seq![*inner] + item_spans(inner.items@))
                        =~= item_spans(prev) + seq![*inner] + item_spans(inner.items@));
                    lemma_labels_extend(
                        before,
                        start,
                        item_spans(prev),
                        *inner,
                        p,
                        item_spans(inner.items@),
                        out@,
                        now,
                    );
                    assert(out@.subrange(0, start) =~= before.subrange(0, start));
                }
            },
            _ => {
                proof {
                    assert(item_spans(sub) =~= item_spans(prev));
                }
            },
        }
        i = i + 1;
    }
    assert(items@.subrange(0, items@.len() as int) =~= items@);
}

/// The painted labels of the context's spans, in pre-order: each is the
/// span's label painted in its style at clock time `now`.
pub fn paint_labels(ctx: &Context, now: u64) -> (r: Vec<String>)
    ensures
        r@.len() == stack_count(ctx.span_stack@),
        labels_ok(r@, stack_spans(ctx.span_stack@), now),
{
    let mut out: Vec<String> = Vec::new();
    let mut i: usize = 0;
    assert(ctx.span_stack@.subrange(0, 0) =~= Seq::<Span>::empty());
    assert(out@.subrange(0, 0) =~= out@);
    while i < ctx.span_stack.len()
        invariant
            i <= ctx.span_stack@.len(),
            out@.len() == stack_spans(ctx.span_stack@.subrange(0, i as int)).len(),
            labels_ok(out@.subrange(0, out@.len() as int), stack_spans(ctx.span_stack@.subrange(0, i as int)), now),
        decreases ctx.span_stack@.len() - i,
    {
        let ghost sub = ctx.span_stack@.subrange(0, i + 1);
        let ghost prev = ctx.span_stack@.subrange(0, i as int);
        proof {
            assert(sub.drop_last() =~= prev);
        }
        let s = &ctx.span_stack[i];
        let ghost before = out@;
        let p = paint(s.id.as_str(), header_style(s, now));
        out.push(p);
        let ghost mid = out@;
        paint_items(&s.items, now, &mut out);
        proof {
            assert(before.subrange(0, before.len() as int) =~= before);
            assert(out@.subrange(0, mid.len() as int) == mid);
            assert(mid =~= before.push(p));
            lemma_labels_extend(
                before,
                0,
                stack_spans(prev),
                *s,
                p,
                item_spans(s.items@),
                out@,
                now,
            );
        }
        i = i + 1;
    }
    proof {
        assert(ctx.span_stack@.subrange(0, ctx.span_stack@.len() as int) =~= ctx.span_stack@);
        assert(out@.subrange(0, out@.len() as int) =~= out@);
        lemma_stack_spans_len(ctx.span_stack@);
    }
    out
}

/// Renders the context at clock time `now` with the given painted labels of
/// its spans in pre-order.
pub fn print_context_with(ctx: &Context, now: u64, painted: &Vec<String>) -> (r: String)
    requires
        stack_count(ctx.span_stack@) <= painted@.len(),
    ensures
        r@ == context_pretty(*ctx, now, texts(painted@)),
{
    let mut buffer = String::new();
    push_str(&mut buffer, "context: ");
    push_str(&mut buffer, ctx.id.as_str());
    push_str(&mut buffer, " [");
    match rfc3339_text(&ctx.created_on) {
        Some(t) => push_str(&mut buffer, t.as_str()),
        None => {},
    }
    push_str(&mut buffer, "] ");
    let ghost head = buffer@;
    let mut i: usize = 0;
    let mut k: usize = 0;
    while i < ctx.span_stack.len()
        invariant
            i <= ctx.span_stack@.len(),
            stack_count(ctx.span_stack@) <= painted@.len(),
            k == stack_count(ctx.span_stack@.subrange(0, i as int)),
            buffer@ == head + stack_pretty(ctx.span_stack@.subrange(0, i as int), now, texts(painted@)),
        decreases ctx.span_stack@.len() - i,
    {
        proof {
            let sub = ctx.span_stack@.subrange(0, i + 1);
            assert(sub.drop_last() =~= ctx.span_stack@.subrange(0, i as int));
            lemma_stack_prefix_count(ctx.span_stack@, i + 1);
        }
        k = print_span(&mut buffer, &ctx.span_stack[i], now, painted, k);
        i = i + 1;
    }
    assert(ctx.span_stack@.subrange(0, ctx.span_stack@.len() as int) =~= ctx.span_stack@);
    assert(buffer@ =~= context_pretty(*ctx, now, texts(painted@)));
    buffer
}

/// Renders the context at clock time `now`, its labels painted red when slow
/// and green when fast.
pub fn print_context(ctx: &Context, now: u64) -> (r: String)
    ensures
        exists|painted: Seq<String>|
            labels_ok(painted, stack_spans(ctx.span_stack@), now) && painted.len()
                == stack_count(ctx.span_stack@) && r@ == context_pretty(*ctx, now, texts(painted)),
{
    let painted = paint_labels(ctx, now);
    print_context_with(ctx, now, &painted)
}


/// The rendering of the slot's context now, if there is one.
pub fn printed_context(slot: &Option<Context>) -> (r: Option<String>)
    ensures
        slot is None ==> r is None,
        slot matches Some(c) ==> r matches Some(t) && exists|now: u64, painted: Seq<String>|
            labels_ok(painted, stack_spans(c.span_stack@), now) && painted.len() == stack_count(
                c.span_stack@,
            ) && t@ == context_pretty(*c, now, texts(painted)),
{
    match slot {
        Some(ctx) => {
            let now = ctx.now();
            Some(print_context(ctx, now))
        },
        None => None,
    }
}

} // verus!
