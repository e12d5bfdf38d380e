//! Recorded values: what a field or a span result holds.
use vstd::prelude::*;
use vstd::string::*;
use crate::text::{decimal, digit_char, push_char, push_decimal, push_str};

verus! {

/// A structured value as it is recorded into a span.
///
/// Integers, booleans, text and `null` are held as they are; any other JSON
/// value (a float, a list, a map) is held as its JSON text.
#[derive(Debug, Clone)]
pub enum Value {
    Null,
    Bool(bool),
    Int(i64),
    UInt(u64),
    Str(String),
    Json(String),
}

/// The mathematical form of a [`Value`].
pub ghost enum ValueModel {
    Null,
    Bool(bool),
    Int(i64),
    UInt(u64),
    Str(Seq<char>),
    Json(Seq<char>),
}

impl View for Value {
    type V = ValueModel;

    open spec fn view(&self) -> ValueModel {
        match self {
            Value::Null => ValueModel::Null,
            Value::Bool(b) => ValueModel::Bool(*b),
            Value::Int(i) => ValueModel::Int(*i),
            Value::UInt(u) => ValueModel::UInt(*u),
            Value::Str(s) => ValueModel::Str(s@),
            Value::Json(t) => ValueModel::Json(t@),
        }
    }
}

/// A lower-case hexadecimal digit.
pub open spec fn hex_char(d: nat) -> char {
    if d < 10 {
        digit_char(d)
    } else if d == 10 {
        'a'
    } else if d == 11 {
        'b'
    } else if d == 12 {
        'c'
    } else if d == 13 {
        'd'
    } else if d == 14 {
        'e'
    } else {
        'f'
    }
}

/// How a character is written inside a JSON string: quote and backslash
/// escaped, the usual short escapes for backspace, tab, line feed, form feed
/// and carriage return, other control characters as `\u00xx`, and
/// everything else as it is.
pub open spec fn json_escape(c: char) -> Seq<char> {
    if c == '"' {
        seq!['\\', '"']
    } else if c == '\\' {
        seq!['\\', '\\']
    } else if c == '\u{8}' {
        seq!['\\', 'b']
    } else if c == '\t' {
        seq!['\\', 't']
    } else if c == '\n' {
        seq!['\\', 'n']
    } else if c == '\u{c}' {
        seq!['\\', 'f']
    } else if c == '\r' {
        seq!['\\', 'r']
    } else if (c as u32) < 0x20 {
        seq!['\\', 'u', '0', '0', hex_char((c as u32 / 16) as nat), hex_char((c as u32 % 16) as nat)]
    } else {
        seq![c]
    }
}

/// The characters of `s`, each written as inside a JSON string.
pub open spec fn json_escaped(s: Seq<char>) -> Seq<char>
    decreases s.len(),
{
    if s.len() == 0 {
        Seq::empty()
    } else {
        json_escaped(s.drop_last()) + json_escape(s.last())
    }
}

/// The JSON string literal of `s`, as serde_json writes it.
pub open spec fn json_string_text(s: Seq<char>) -> Seq<char> {
    seq!['"'] + json_escaped(s) + seq!['"']
}

/// Relies on serde_json::to_string for a `str`, which never fails there:
/// the quoted text with serde_json's escapes.
#[verifier::external_body]
fn json_quote(s: &str) -> (r: String)
    ensures
        r@ == json_string_text(s@),
{
    match serde_json::to_string(s) {
        Ok(t) => t,
        Err(_) => String::new(),
    }
}

/// The decimal notation of a signed integer.
pub open spec fn signed_decimal(n: int) -> Seq<char> {
    if n < 0 {
        seq!['-'] + decimal((-n) as nat)
    } else {
        decimal(n as nat)
    }
}

impl Value {
    /// The JSON text of the value.
    pub open spec fn json_text(&self) -> Seq<char> {
        match self {
            Value::Null => "null"@,
            Value::Bool(b) => if *b {
                "true"@
            } else {
                "false"@
            },
            Value::Int(i) => signed_decimal(*i as int),
            Value::UInt(u) => decimal(*u as nat),
            Value::Str(s) => json_string_text(s@),
            Value::Json(t) => t@,
        }
    }

    /// The text shown for a field: a string as it is, anything else as JSON.
    pub open spec fn shown_text(&self) -> Seq<char> {
        match self {
            Value::Str(s) => s@,
            _ => self.json_text(),
        }
    }

    /// Appends the JSON text of the value.
    pub fn push_json(&self, buf: &mut String)
        ensures
            final(buf)@ == old(buf)@ + self.json_text(),
    {
        match self {
            Value::Null => push_str(buf, "null"),
            Value::Bool(b) => {
                if *b {
                    push_str(buf, "true")
                } else {
                    push_str(buf, "false")
                }
            },
            Value::Int(i) => {
                if *i < 0 {
                    push_str(buf, "-");
                    proof {
                        reveal_strlit("-");
                    }
                    let m: u64 = if *i == i64::MIN {
                        9223372036854775808u64
                    } else {
                        (-*i) as u64
                    };
                    push_decimal(buf, m);
                    assert(buf@ =~= old(buf)@ + self.json_text());
                } else {
                    push_decimal(buf, *i as u64);
                }
            },
            Value::UInt(u) => push_decimal(buf, *u),
            Value::Str(s) => {
                let q = json_quote(s.as_str());
                push_str(buf, q.as_str());
            },
            Value::Json(t) => push_str(buf, t.as_str()),
        }
    }

    /// Appends the text shown for a field.
    pub fn push_shown(&self, buf: &mut String)
        ensures
            final(buf)@ == old(buf)@ + self.shown_text(),
    {
        match self {
            Value::Str(s) => push_str(buf, s.as_str()),
            _ => self.push_json(buf),
        }
    }

    /// The JSON text of the value as a new string.
    pub fn to_json_string(&self) -> (r: String)
        ensures
            r@ == self.json_text(),
    {
        let mut s = String::new();
        self.push_json(&mut s);
        assert(s@ =~= self.json_text());
        s
    }
}

/// The text of a `char` value: the one-character string.
pub fn char_text(c: char) -> (r: String)
    ensures
        r@ == seq![c],
{
    let mut s = String::new();
    push_char(&mut s, c);
    assert(s@ =~= seq![c]);
    s
}

} // verus!
