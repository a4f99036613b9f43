//! JSON texts, parsed once and read at JSON pointers. What parsing a text
//! gives, and what a pointer finds in it, are named: they depend on the text
//! and the pointer alone.
use vstd::prelude::*;

use crate::error::{Error, ErrorV};
use crate::model::JsonField;
use crate::text::{chars_of, push_char};

verus! {

/// What `serde_json::from_str` reports for a text that is not one JSON
/// value: none when it parses, its error's message when it does not.
pub uninterp spec fn json_parse_error(text: Seq<char>) -> Option<Seq<char>>;

/// What the library reads of a JSON value: nothing there, null, a boolean, an
/// integer that fits in 64 bits, another number, a string, an array of some
/// length, or an object.
pub enum JsonAtV {
    Missing,
    Null,
    Bool(bool),
    Int(i64),
    Number,
    Text(Seq<char>),
    Array(usize),
    Object,
}

/// The executable form of `JsonAtV`.
#[derive(Debug)]
pub enum JsonAt {
    Missing,
    Null,
    Bool(bool),
    Int(i64),
    Number,
    Text(String),
    Array(usize),
    Object,
}

impl View for JsonAt {
    type V = JsonAtV;

    open spec fn view(&self) -> JsonAtV {
        match self {
            JsonAt::Missing => JsonAtV::Missing,
            JsonAt::Null => JsonAtV::Null,
            JsonAt::Bool(b) => JsonAtV::Bool(*b),
            JsonAt::Int(i) => JsonAtV::Int(*i),
            JsonAt::Number => JsonAtV::Number,
            JsonAt::Text(t) => JsonAtV::Text(t@),
            JsonAt::Array(n) => JsonAtV::Array(*n),
            JsonAt::Object => JsonAtV::Object,
        }
    }
}

/// What the JSON pointer `pointer` (RFC 6901, as `serde_json::Value::pointer`
/// reads it) finds in the value `serde_json::from_str` parses from `text`.
pub uninterp spec fn json_value_at(text: Seq<char>, pointer: Seq<char>) -> JsonAtV;

/// `serde_json::to_string_pretty` of the value the JSON pointer `pointer`
/// finds in the value parsed from `text`.
pub uninterp spec fn json_pretty_text(text: Seq<char>, pointer: Seq<char>) -> Seq<char>;

/// A JSON text and the value parsed from it. Only `parse_json` makes one, so
/// the value is always the one its text parses to.
pub struct JsonDoc {
    text: String,
    value: serde_json::Value,
}

impl View for JsonDoc {
    type V = Seq<char>;

    closed spec fn view(&self) -> Seq<char> {
        self.text@
    }
}

impl JsonDoc {
    /// The text the value was parsed from.
    pub fn text(&self) -> (r: &str)
        ensures
            r@ == self@,
    {
        self.text.as_str()
    }

    /// The parsed value, for code that reads it outside the library.
    pub fn value(&self) -> &serde_json::Value {
        &self.value
    }
}

/// `serde_json::from_str` into a `serde_json::Value`, kept with its text; the
/// error turned into a `Domain` error with the parser's message.
///
/// Whether the text parses and the message are only named. The empty JSON
/// pointer finds the parsed value itself (`Value::pointer` returns the value
/// for `""`).
#[verifier::external_body]
pub fn parse_json(text: &str) -> (r: Result<JsonDoc, Error>)
    ensures
        match r {
            Ok(d) => json_parse_error(text@) is None && d@ == text@ && !(json_value_at(text@, Seq::empty())
                is Missing),
            Err(e) => json_parse_error(text@) matches Some(m) && e@ == ErrorV::Domain(m),
        },
{
    match serde_json::from_str(text) {
        Ok(value) => Ok(JsonDoc { text: text.to_string(), value }),
        Err(e) => Err(Error::Domain(e.to_string())),
    }
}

/// `Value::pointer(pointer)` on the parsed value, told apart by variant (an
/// integer is a number whose `as_i64` is some, an array is given by its
/// length).
#[verifier::external_body]
pub fn json_at(doc: &JsonDoc, pointer: &str) -> (r: JsonAt)
    ensures
        r@ == json_value_at(doc@, pointer@),
{
    match doc.value.pointer(pointer) {
        None => JsonAt::Missing,
        Some(serde_json::Value::Null) => JsonAt::Null,
        Some(serde_json::Value::Bool(b)) => JsonAt::Bool(*b),
        Some(serde_json::Value::Number(n)) => match n.as_i64() {
            Some(i) => JsonAt::Int(i),
            None => JsonAt::Number,
        },
        Some(serde_json::Value::String(s)) => JsonAt::Text(s.clone()),
        Some(serde_json::Value::Array(a)) => JsonAt::Array(a.len()),
        Some(serde_json::Value::Object(_)) => JsonAt::Object,
    }
}

/// `serde_json::to_string_pretty` of what `Value::pointer(pointer)` finds:
/// none when it finds nothing. Serialising a `Value` does not fail (its
/// object keys are strings), so the text is there whenever the value is.
#[verifier::external_body]
pub fn json_pretty_at(doc: &JsonDoc, pointer: &str) -> (r: Option<String>)
    ensures
        r is Some <==> !(json_value_at(doc@, pointer@) is Missing),
        r matches Some(t) ==> t@ == json_pretty_text(doc@, pointer@),
{
    doc.value.pointer(pointer).and_then(|v| serde_json::to_string_pretty(v).ok())
}

/// `f` is what the library reads as a field from the JSON value `n`: absent
/// when there is none, the string when it is one, other otherwise.
pub open spec fn field_agrees(f: JsonField, n: JsonAtV) -> bool {
    match n {
        JsonAtV::Missing => f is Absent,
        JsonAtV::Text(t) => f matches JsonField::Text(s) && s@ == t,
        _ => f is Other,
    }
}

/// The boolean a JSON value is, if it is one.
pub open spec fn bool_of(n: JsonAtV) -> Option<bool> {
    match n {
        JsonAtV::Bool(b) => Some(b),
        _ => None,
    }
}

/// The field the JSON pointer `pointer` finds in `doc`.
pub fn json_field(doc: &JsonDoc, pointer: &str) -> (r: JsonField)
    ensures
        field_agrees(r, json_value_at(doc@, pointer@)),
{
    match json_at(doc, pointer) {
        JsonAt::Missing => JsonField::Absent,
        JsonAt::Text(t) => JsonField::Text(t),
        _ => JsonField::Other,
    }
}

/// The boolean the JSON pointer `pointer` finds in `doc`, if it is one.
pub fn json_bool(doc: &JsonDoc, pointer: &str) -> (r: Option<bool>)
    ensures
        r == bool_of(json_value_at(doc@, pointer@)),
{
    match json_at(doc, pointer) {
        JsonAt::Bool(b) => Some(b),
        _ => None,
    }
}

/// The lower-case hexadecimal digit for `d` (0 to 15).
pub open spec fn hex_digit(d: nat) -> char {
    if d < 10 {
        (d + 48) as char
    } else {
        (d + 87) as char
    }
}

/// How a JSON string literal writes one character: the quote and the
/// backslash escaped, control characters by their short escape where JSON
/// has one and as `\u00XX` otherwise, every other character as it is.
pub open spec fn json_escaped_char(c: char) -> Seq<char> {
    let u = c as u32;
    if c == '"' {
        seq!['\\', '"']
    } else if c == '\\' {
        seq!['\\', '\\']
    } else if u == 10 {
        seq!['\\', 'n']
    } else if u == 13 {
        seq!['\\', 'r']
    } else if u == 9 {
        seq!['\\', 't']
    } else if u == 8 {
        seq!['\\', 'b']
    } else if u == 12 {
        seq!['\\', 'f']
    } else if u < 32 {
        seq!['\\', 'u', '0', '0', hex_digit((u / 16) as nat), hex_digit((u % 16) as nat)]
    } else {
        seq![c]
    }
}

/// The characters of `s`, each written as a JSON string literal writes it.
pub open spec fn json_escaped(s: Seq<char>) -> Seq<char>
    decreases s.len(),
{
    if s.len() == 0 {
        Seq::empty()
    } else {
        json_escaped(s.drop_last()) + json_escaped_char(s.last())
    }
}

/// The JSON string literal that stands for `s`.
pub open spec fn json_string_text(s: Seq<char>) -> Seq<char> {
    seq!['"'] + json_escaped(s) + seq!['"']
}

fn hex_char(d: u32) -> (c: char)
    requires
        d < 16,
    ensures
        c == hex_digit(d as nat),
{
    let b: u8 = d as u8;
    if b < 10 {
        (b + 48) as char
    } else {
        (b + 87) as char
    }
}

fn push_escaped(out: &mut String, c: char)
    ensures
        final(out)@ == old(out)@ + json_escaped_char(c),
{
    let u = c as u32;
    if c == '"' {
        push_char(out, '\\');
        push_char(out, '"');
    } else if c == '\\' {
        push_char(out, '\\');
        push_char(out, '\\');
    } else if u == 10 {
        push_char(out, '\\');
        push_char(out, 'n');
    } else if u == 13 {
        push_char(out, '\\');
        push_char(out, 'r');
    } else if u == 9 {
        push_char(out, '\\');
        push_char(out, 't');
    } else if u == 8 {
        push_char(out, '\\');
        push_char(out, 'b');
    } else if u == 12 {
        push_char(out, '\\');
        push_char(out, 'f');
    } else if u < 32 {
        push_char(out, '\\');
        push_char(out, 'u');
        push_char(out, '0');
        push_char(out, '0');
        push_char(out, hex_char(u / 16));
        push_char(out, hex_char(u % 16));
    } else {
        push_char(out, c);
    }
    assert(out@ =~= old(out)@ + json_escaped_char(c));
}

/// The JSON string literal that stands for `s`.
pub fn json_string(s: &str) -> (r: String)
    ensures
        r@ == json_string_text(s@),
{
    let cs = chars_of(s);
    let mut out = String::new();
    push_char(&mut out, '"');
    let mut i: usize = 0;
    while i < cs.len()
        invariant
            i <= cs.len(),
            out@ == seq!['"'] + json_escaped(cs@.take(i as int)),
        decreases cs.len() - i,
    {
        assert(cs@.take(i + 1).drop_last() =~= cs@.take(i as int));
        push_escaped(&mut out, cs[i]);
        i += 1;
    }
    assert(cs@.take(cs.len() as int) =~= cs@);
    push_char(&mut out, '"');
    out
}

} // verus!
