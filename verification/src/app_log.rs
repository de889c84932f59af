//! Lines written to the per-application log: one JSON object per line.

use vstd::prelude::*;
use crate::json::{json_compact, json_quoted, json_reserialize, json_string_literal};
use crate::text::push_str;

verus! {

/// The `fields` member of a log line: the handler's fields re-serialized
/// when they are JSON, else the raw text as a JSON string.
pub open spec fn fields_text(fields: Seq<char>) -> Seq<char> {
    match json_compact(fields) {
        Some(t) => t,
        None => json_quoted(fields),
    }
}

/// A per-app log line: a JSON object with the app, the optional fields,
/// the level, the message and the timestamp (members in sorted order, as
/// `serde_json` writes an object).
pub open spec fn app_log_line(
    timestamp: Seq<char>,
    app: Seq<char>,
    level: Seq<char>,
    msg: Seq<char>,
    fields: Seq<char>,
) -> Seq<char> {
    "{\"app\":"@ + json_quoted(app) + (if fields.len() == 0 {
        Seq::empty()
    } else {
        ",\"fields\":"@ + fields_text(fields)
    }) + ",\"level\":"@ + json_quoted(level) + ",\"message\":"@ + json_quoted(msg)
        + ",\"timestamp\":"@ + json_quoted(timestamp) + "}"@
}

/// Builds a JSON log line for the per-app log. Every text is written as a
/// JSON string, so quotes and control characters cannot break the line;
/// `fields` (JSON from the handler) is embedded as a value, or as a string
/// when it does not parse.
pub fn build_app_log_line(timestamp: &str, app: &str, level: &str, msg: &str, fields: &str) -> (r:
    String)
    ensures
        r@ == app_log_line(timestamp@, app@, level@, msg@, fields@),
{
    let mut s = String::new();
    push_str(&mut s, "{\"app\":");
    let q = json_string_literal(app);
    push_str(&mut s, q.as_str());
    if !fields.is_empty() {
        push_str(&mut s, ",\"fields\":");
        match json_reserialize(fields) {
            Some(t) => push_str(&mut s, t.as_str()),
            None => {
                let f = json_string_literal(fields);
                push_str(&mut s, f.as_str());
            },
        }
    }
    push_str(&mut s, ",\"level\":");
    let l = json_string_literal(level);
    push_str(&mut s, l.as_str());
    push_str(&mut s, ",\"message\":");
    let m = json_string_literal(msg);
    push_str(&mut s, m.as_str());
    push_str(&mut s, ",\"timestamp\":");
    let t = json_string_literal(timestamp);
    push_str(&mut s, t.as_str());
    push_str(&mut s, "}");
    proof {
        assert(s@ =~= app_log_line(timestamp@, app@, level@, msg@, fields@));
    }
    s
}

/// The line the WebAssembly engine writes to the per-app log: a JSON object
/// with the keys `timestamp`, `level`, `app` and `message` in that order,
/// each value a JSON string literal of the given text.
pub open spec fn wasm_log_line(timestamp: Seq<char>, level: Seq<char>, app: Seq<char>, msg: Seq<char>) -> Seq<
    char,
> {
    "{\"timestamp\":"@ + json_quoted(timestamp) + ",\"level\":"@ + json_quoted(level)
        + ",\"app\":"@ + json_quoted(app) + ",\"message\":"@ + json_quoted(msg) + "}"@
}

/// Builds the WebAssembly engine's per-app log line.
pub fn build_wasm_log_line(timestamp: &str, level: &str, app: &str, msg: &str) -> (r: String)
    ensures
        r@ == wasm_log_line(timestamp@, level@, app@, msg@),
{
    let mut s = String::new();
    push_str(&mut s, "{\"timestamp\":");
    let t = json_string_literal(timestamp);
    push_str(&mut s, t.as_str());
    push_str(&mut s, ",\"level\":");
    let l = json_string_literal(level);
    push_str(&mut s, l.as_str());
    push_str(&mut s, ",\"app\":");
    let a = json_string_literal(app);
    push_str(&mut s, a.as_str());
    push_str(&mut s, ",\"message\":");
    let m = json_string_literal(msg);
    push_str(&mut s, m.as_str());
    push_str(&mut s, "}");
    proof {
        assert(s@ =~= wasm_log_line(timestamp@, level@, app@, msg@));
    }
    s
}

} // verus!
