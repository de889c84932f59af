//! JSON text produced and read through `serde_json`: string literals for
//! the JSON documents the crate frames itself, and parsing of inbound
//! bodies into `serde_json::Value`.

use vstd::prelude::*;

verus! {

#[verifier::external_type_specification]
#[verifier::external_body]
pub struct ExJsonValue(serde_json::Value);

/// A lowercase hexadecimal digit.
pub open spec fn hex_digit(n: u32) -> char {
    if n < 10 {
        (48 + n) as char
    } else {
        (87 + n) as char
    }
}

/// How `serde_json` writes one character inside a string literal: the
/// quote and the backslash are escaped, the control characters below
/// U+0020 become `\b`, `\t`, `\n`, `\f`, `\r` or `\u00xx` (lowercase
/// hexadecimal), and every other character stands for itself.
pub open spec fn json_escape_char(c: char) -> Seq<char> {
    if c == '"' {
        seq!['\\', '"']
    } else if c == '\\' {
        seq!['\\', '\\']
    } else if c == '\u{8}' {
        seq!['\\', 'b']
    } else if c == '\t' {
        seq!['\\', 't']
    } else if c == '\n' {
        seq!['\\', 'n']
    } else if c == '\u{c}' {
        seq!['\\', 'f']
    } else if c == '\r' {
        seq!['\\', 'r']
    } else if (c as u32) < 32 {
        seq!['\\', 'u', '0', '0', hex_digit((c as u32) / 16), hex_digit((c as u32) % 16)]
    } else {
        seq![c]
    }
}

/// The escape of every character of `s`, in order.
pub open spec fn json_escape(s: Seq<char>) -> Seq<char>
    decreases s.len(),
{
    if s.len() == 0 {
        Seq::empty()
    } else {
        json_escape(s.drop_last()) + json_escape_char(s.last())
    }
}

/// The JSON string literal for `s`, quotes included, as `serde_json`
/// writes it.
pub open spec fn json_quoted(s: Seq<char>) -> Seq<char> {
    seq!['"'] + json_escape(s) + seq!['"']
}

/// The message of the error `serde_json` reports for `bytes`, or `None`
/// when `bytes` parse as a JSON value.
pub uninterp spec fn json_parse_error(bytes: Seq<u8>) -> Option<Seq<char>>;

/// The value of a lowercase hexadecimal digit.
pub open spec fn hex_value(h: char) -> u32 {
    if '0' <= h <= '9' {
        (h as u32 - 48) as u32
    } else {
        (h as u32 - 87) as u32
    }
}

/// The text the body of a JSON string literal stands for, reading the
/// escapes `json_escape` writes.
pub open spec fn json_unescape(t: Seq<char>) -> Seq<char>
    decreases t.len(),
{
    if t.len() == 0 {
        Seq::empty()
    } else if t[0] == '\\' && t.len() >= 2 {
        if t[1] == 'u' && t.len() >= 6 {
            seq![(hex_value(t[4]) * 16 + hex_value(t[5])) as char] + json_unescape(t.skip(6))
        } else {
            seq![
                if t[1] == 'b' {
                    '\u{8}'
                } else if t[1] == 't' {
                    '\t'
                } else if t[1] == 'n' {
                    '\n'
                } else if t[1] == 'f' {
                    '\u{c}'
                } else if t[1] == 'r' {
                    '\r'
                } else {
                    t[1]
                },
            ] + json_unescape(t.skip(2))
        }
    } else {
        seq![t[0]] + json_unescape(t.skip(1))
    }
}

proof fn lemma_json_escape_front(c: char, s: Seq<char>)
    ensures
        json_escape(seq![c] + s) == json_escape_char(c) + json_escape(s),
    decreases s.len(),
{
    if s.len() == 0 {
        assert(seq![c] + s =~= seq![c]);
        assert(seq![c].drop_last() =~= Seq::<char>::empty());
        assert(seq![c].last() == c);
        assert(json_escape(Seq::<char>::empty()) =~= Seq::<char>::empty());
        assert(json_escape(seq![c]) =~= Seq::<char>::empty() + json_escape_char(c));
        assert(json_escape_char(c) + json_escape(s) =~= json_escape_char(c));
    } else {
        let t = seq![c] + s;
        assert(t.drop_last() =~= seq![c] + s.drop_last());
        assert(t.last() == s.last());
        lemma_json_escape_front(c, s.drop_last());
        assert(json_escape(t) =~= json_escape_char(c) + json_escape(s));
    }
}

proof fn lemma_json_unescape_char(c: char, t: Seq<char>)
    ensures
        json_unescape(json_escape_char(c) + t) == seq![c] + json_unescape(t),
{
    let e = json_escape_char(c) + t;
    let n = c as u32;
    if c == '"' || c == '\\' || c == '\u{8}' || c == '\t' || c == '\n' || c == '\u{c}' || c == '\r' {
        assert(e.skip(2) =~= t);
    } else if n < 32 {
        assert(e.skip(6) =~= t);
        assert(hex_value(hex_digit(n / 16)) == n / 16);
        assert(hex_value(hex_digit(n % 16)) == n % 16);
        assert((n / 16) * 16 + n % 16 == n);
        assert(((n / 16) * 16 + n % 16) as char == c);
    } else {
        assert(e.skip(1) =~= t);
    }
}

/// A text written as a JSON string literal stands for exactly that text,
/// and the literal holds no control character (so a JSON line stays one
/// line).
pub proof fn law_json_literal_denotes_its_text(s: Seq<char>)
    ensures
        json_unescape(json_escape(s)) == s,
        forall|i: int| 0 <= i < json_quoted(s).len() ==> json_quoted(s)[i] as u32 >= 32,
    decreases s.len(),
{
    if s.len() > 0 {
        let rest = s.drop_first();
        assert(s =~= seq![s[0]] + rest);
        lemma_json_escape_front(s[0], rest);
        law_json_literal_denotes_its_text(rest);
        lemma_json_unescape_char(s[0], json_escape(rest));
        let e = json_escape_char(s[0]);
        let q = json_quoted(s);
        let qr = json_quoted(rest);
        assert forall|i: int| 0 <= i < q.len() implies q[i] as u32 >= 32 by {
            if i == 0 || i == q.len() - 1 {
            } else if i - 1 < e.len() {
                assert(q[i] == e[i - 1]);
                let n = s[0] as u32;
                if n < 32 && !(s[0] == '\u{8}' || s[0] == '\t' || s[0] == '\n' || s[0] == '\u{c}' || s[0] == '\r') {
                    assert(hex_digit(n / 16) as u32 >= 48);
                    assert(hex_digit(n % 16) as u32 >= 48);
                }
            } else {
                assert(q[i] == qr[i - e.len()]);
            }
        }
    } else {
        assert(json_escape(s) =~= Seq::<char>::empty());
    }
}

/// Writes `s` as a JSON string literal with `serde_json` (a string value
/// displayed through `serde_json::Value`'s `Display`), which escapes as
/// `json_quoted` states (the crate's `format_escaped_str` and its escape
/// table).
#[verifier::external_body]
pub(crate) fn json_string_literal(s: &str) -> (r: String)
    ensures
        r@ == json_quoted(s@),
{
    serde_json::Value::String(s.to_string()).to_string()
}

/// Parses bytes as a JSON value with `serde_json::from_slice`. Whether it
/// succeeds, and the error's message when it does not, are named by
/// `json_parse_error(bytes)`; the parsed value is opaque.
#[verifier::external_body]
pub(crate) fn parse_json(bytes: &[u8]) -> (r: Result<serde_json::Value, String>)
    ensures
        match r {
            Ok(_) => json_parse_error(bytes@) is None,
            Err(e) => json_parse_error(bytes@) == Some(e@),
        },
{
    match serde_json::from_slice::<serde_json::Value>(bytes) {
        Ok(v) => Ok(v),
        Err(e) => Err(e.to_string()),
    }
}


/// The compact `serde_json` rendering of the JSON value that `s` parses
/// as, or `None` when `s` is not JSON.
pub uninterp spec fn json_compact(s: Seq<char>) -> Option<Seq<char>>;

/// Parses `s` as a JSON value with `serde_json::from_str` and writes it
/// back compactly; named `json_compact(s)`.
#[verifier::external_body]
pub(crate) fn json_reserialize(s: &str) -> (r: Option<String>)
    ensures
        match r {
            Some(t) => json_compact(s@) == Some(t@),
            None => json_compact(s@) is None,
        },
{
    match serde_json::from_str::<serde_json::Value>(s) {
        Ok(v) => Some(v.to_string()),
        Err(_) => None,
    }
}

} // verus!
