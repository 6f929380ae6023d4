//! Compact JSON text of documents.

use crate::json::{decimal_text, digit_char, u64_text, JsonNumber, JsonValue, JsonView};
use vstd::prelude::*;
use vstd::string::{StrSliceExecFns, StringExecFns};

verus! {

/// The lower-case hexadecimal digit for `d` (0 to 15).
pub open spec fn hex_char(d: int) -> char {
    if d < 10 {
        digit_char(d)
    } else if d == 10 {
        'a'
    } else if d == 11 {
        'b'
    } else if d == 12 {
        'c'
    } else if d == 13 {
        'd'
    } else if d == 14 {
        'e'
    } else {
        'f'
    }
}

/// How one character stands inside a JSON string literal: a backslash before
/// `"` and `\`, the short escapes for backspace, tab, line feed, form feed
/// and carriage return, `\u00xx` for the other characters below 0x20, and
/// every other character as it is.
pub open spec fn escape_char(c: char) -> Seq<char> {
    if c == '"' {
        seq!['\\', '"']
    } else if c == '\\' {
        seq!['\\', '\\']
    } else if c == '\x08' {
        seq!['\\', 'b']
    } else if c == '\t' {
        seq!['\\', 't']
    } else if c == '\n' {
        seq!['\\', 'n']
    } else if c == '\x0C' {
        seq!['\\', 'f']
    } else if c == '\r' {
        seq!['\\', 'r']
    } else if (c as u32) < 0x20 {
        seq!['\\', 'u', '0', '0', hex_char((c as u32) as int / 16), hex_char((c as u32) as int % 16)]
    } else {
        seq![c]
    }
}

/// The characters of `s`, each escaped as in a JSON string literal.
pub open spec fn escaped(s: Seq<char>) -> Seq<char>
    decreases s.len(),
{
    if s.len() == 0 {
        Seq::empty()
    } else {
        escaped(s.drop_last()) + escape_char(s.last())
    }
}

/// The JSON string literal for `s`: the escaped characters between quotes.
pub open spec fn json_quoted(s: Seq<char>) -> Seq<char> {
    seq!['"'] + escaped(s) + seq!['"']
}

/// Relies on serde_json's `Display` for `Value::String`, which writes the
/// string through `format_escaped_str`: quotes around it, and the escapes
/// that `escape_char` states.
#[verifier::external_body]
pub(crate) fn quote(s: &str) -> (r: String)
    ensures
        r@ == json_quoted(s@),
{
    serde_json::Value::String(s.to_string()).to_string()
}

/// `n` zeros.
pub open spec fn zeros(n: nat) -> Seq<char>
    decreases n,
{
    if n == 0 {
        Seq::empty()
    } else {
        zeros((n - 1) as nat).push('0')
    }
}

/// The digits of `n.digits`, left-padded with zeros to more than `scale`
/// characters.
pub open spec fn padded_digits(n: JsonNumber) -> Seq<char> {
    let t = decimal_text(n.digits as nat);
    if t.len() > n.scale {
        t
    } else {
        zeros((n.scale + 1 - t.len()) as nat) + t
    }
}

/// The text of a number: an optional minus sign, the digits, and a decimal
/// point before the last `scale` digits.
pub open spec fn number_text(n: JsonNumber) -> Seq<char> {
    let sign = if n.negative && n.digits != 0 {
        "-"@
    } else {
        Seq::empty()
    };
    let p = padded_digits(n);
    if n.scale == 0 {
        sign + p
    } else {
        sign + p.subrange(0, p.len() - n.scale) + "."@ + p.subrange(p.len() - n.scale, p.len() as int)
    }
}

/// The compact JSON text of a document.
pub open spec fn json_text(v: JsonView) -> Seq<char>
    decreases v, 0nat,
{
    match v {
        JsonView::Null => "null"@,
        JsonView::Bool(b) => if b {
            "true"@
        } else {
            "false"@
        },
        JsonView::Number(n) => number_text(n),
        JsonView::Str(s) => json_quoted(s),
        JsonView::Array(items) => "["@ + items_text(items, items.len()) + "]"@,
        JsonView::Object(entries) => "{"@ + members_text(entries, entries.len()) + "}"@,
    }
}

/// The texts of the first `n` items, separated by commas.
pub open spec fn items_text(items: Seq<JsonView>, n: nat) -> Seq<char>
    decreases items, n,
{
    if n == 0 || n > items.len() {
        Seq::empty()
    } else if n == 1 {
        json_text(items[0])
    } else {
        items_text(items, (n - 1) as nat) + ","@ + json_text(items[n - 1])
    }
}

/// The texts of the first `n` members, `"key":value`, separated by commas.
pub open spec fn members_text(entries: Seq<(Seq<char>, JsonView)>, n: nat) -> Seq<char>
    decreases entries, n,
{
    if n == 0 || n > entries.len() {
        Seq::empty()
    } else {
        let last = json_quoted(entries[n - 1].0) + ":"@ + json_text(entries[n - 1].1);
        if n == 1 {
            last
        } else {
            members_text(entries, (n - 1) as nat) + ","@ + last
        }
    }
}

proof fn lemma_zeros_len(n: nat)
    ensures
        zeros(n).len() == n,
    decreases n,
{
    if n > 0 {
        lemma_zeros_len((n - 1) as nat);
    }
}

/// A string of `n` zeros.
fn zeros_string(n: u64) -> (r: String)
    ensures
        r@ == zeros(n as nat),
{
    let mut out = String::new();
    let mut i: u64 = 0;
    while i < n
        invariant
            i <= n,
            out@ == zeros(i as nat),
        decreases n - i,
    {
        proof {
            reveal_strlit("0");
        }
        out.append("0");
        proof {
            assert(out@ =~= zeros((i + 1) as nat));
        }
        i = i + 1;
    }
    out
}

/// The text of a number (see `number_text`).
pub fn number_to_text(n: &JsonNumber) -> (r: String)
    ensures
        r@ == number_text(*n),
{
    let t = u64_text(n.digits);
    let len = t.as_str().unicode_len();
    let scale = n.scale as usize;
    let padded = if len > scale {
        t
    } else {
        let pad: u64 = n.scale as u64 + 1 - len as u64;
        proof {
            lemma_zeros_len(pad as nat);
        }
        zeros_string(pad).concat(t.as_str())
    };
    assert(padded@ == padded_digits(*n));
    assert(padded@.len() > scale);
    let sign = if n.negative && n.digits != 0 {
        String::from_str("-")
    } else {
        String::new()
    };
    if scale == 0 {
        sign.concat(padded.as_str())
    } else {
        let pl = padded.as_str().unicode_len();
        let whole = padded.as_str().substring_char(0, pl - scale);
        let frac = padded.as_str().substring_char(pl - scale, pl);
        sign.concat(whole).concat(".").concat(frac)
    }
}

impl JsonValue {
    /// The compact JSON text of this document.
    pub fn to_json_text(&self) -> (r: String)
        ensures
            r@ == json_text(self@),
        decreases self,
    {
        match self {
            JsonValue::Null => String::from_str("null"),
            JsonValue::Bool(b) => if *b {
                String::from_str("true")
            } else {
                String::from_str("false")
            },
            JsonValue::Number(n) => number_to_text(n),
            JsonValue::String(s) => quote(s.as_str()),
            JsonValue::Array(items) => {
                let ghost iv = self@->Array_0;
                let mut out = String::new();
                let mut i: usize = 0;
                while i < items.len()
                    invariant
                        *self == JsonValue::Array(*items),
                        iv == self@->Array_0,
                        i <= items@.len(),
                        out@ == items_text(iv, i as nat),
                    decreases items@.len() - i,
                {
                    proof {
                        assert(decreases_to!(*self => (*self)->Array_0));
                        assert(decreases_to!(*items => items@));
                        assert(decreases_to!(items@ => items@[i as int]));
                    }
                    let item = items[i].to_json_text();
                    proof {
                        assert(iv[i as int] == items@[i as int]@);
                    }
                    if i == 0 {
                        out = item;
                    } else {
                        out = out.concat(",").concat(item.as_str());
                    }
                    i = i + 1;
                }
                String::from_str("[").concat(out.as_str()).concat("]")
            },
            JsonValue::Object(entries) => {
                let ghost ev = self@->Object_0;
                let mut out = String::new();
                let mut i: usize = 0;
                while i < entries.len()
                    invariant
                        *self == JsonValue::Object(*entries),
                        ev == self@->Object_0,
                        i <= entries@.len(),
                        out@ == members_text(ev, i as nat),
                    decreases entries@.len() - i,
                {
                    proof {
                        assert(decreases_to!(*self => (*self)->Object_0));
                        assert(decreases_to!(*entries => entries@));
                        assert(decreases_to!(entries@ => entries@[i as int]));
                        assert(decreases_to!(entries@[i as int] => entries@[i as int].1));
                    }
                    let value = entries[i].1.to_json_text();
                    let member = quote(entries[i].0.as_str()).concat(":").concat(value.as_str());
                    proof {
                        assert(ev[i as int] == (entries@[i as int].0@, entries@[i as int].1@));
                    }
                    if i == 0 {
                        out = member;
                    } else {
                        out = out.concat(",").concat(member.as_str());
                    }
                    i = i + 1;
                }
                String::from_str("{").concat(out.as_str()).concat("}")
            },
        }
    }
}

/// The first `n` strings quoted, separated by `, `.
pub open spec fn quoted_items(items: Seq<Seq<char>>, n: nat) -> Seq<char>
    decreases n,
{
    if n == 0 || n > items.len() {
        Seq::empty()
    } else if n == 1 {
        json_quoted(items[0])
    } else {
        quoted_items(items, (n - 1) as nat) + ", "@ + json_quoted(items[n - 1])
    }
}

/// A list of strings as `["a", "b"]`.
pub open spec fn listed_text(items: Seq<Seq<char>>) -> Seq<char> {
    "["@ + quoted_items(items, items.len()) + "]"@
}

/// A list of strings as `["a", "b"]`.
pub fn list_to_text(items: &Vec<String>) -> (r: String)
    ensures
        r@ == listed_text(Seq::new(items@.len(), |i: int| items@[i]@)),
{
    let ghost vs = Seq::new(items@.len(), |i: int| items@[i]@);
    let mut out = String::new();
    let mut i: usize = 0;
    while i < items.len()
        invariant
            i <= items@.len(),
            vs == Seq::new(items@.len(), |i: int| items@[i]@),
            out@ == quoted_items(vs, i as nat),
        decreases items@.len() - i,
    {
        let q = quote(items[i].as_str());
        if i == 0 {
            out = q;
        } else {
            out = out.concat(", ").concat(q.as_str());
        }
        i = i + 1;
    }
    String::from_str("[").concat(out.as_str()).concat("]")
}

} // verus!
