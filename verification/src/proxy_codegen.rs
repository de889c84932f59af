//! JavaScript code generation for the typed datasource proxies that the
//! V8 engine installs: one method per operation of a direct-dispatch
//! datasource, and a `publish` method for broker datasources. Each method
//! checks its arguments before calling into the host.

use vstd::prelude::*;
use crate::text::{join, push_char, push_str};

verus! {

/// The JavaScript escape of one character inside a double-quoted string
/// literal: backslash, double quote, newline and carriage return are
/// escaped; every other character stands for itself.
pub open spec fn js_escape_char(c: char) -> Seq<char> {
    if c == '\\' {
        seq!['\\', '\\']
    } else if c == '"' {
        seq!['\\', '"']
    } else if c == '\n' {
        seq!['\\', 'n']
    } else if c == '\r' {
        seq!['\\', 'r']
    } else {
        seq![c]
    }
}

/// The escape of every character of `s`, in order.
pub open spec fn js_escape(s: Seq<char>) -> Seq<char>
    decreases s.len(),
{
    if s.len() == 0 {
        Seq::empty()
    } else {
        js_escape(s.drop_last()) + js_escape_char(s.last())
    }
}

/// `s` as a double-quoted JavaScript string literal.
pub open spec fn js_string(s: Seq<char>) -> Seq<char> {
    seq!['"'] + js_escape(s) + seq!['"']
}

/// The text that the body of a double-quoted JavaScript literal stands
/// for, reading the escapes this module writes (`\\`, `\"`, `\n`, `\r`).
pub open spec fn js_unescape(t: Seq<char>) -> Seq<char>
    decreases t.len(),
{
    if t.len() == 0 {
        Seq::empty()
    } else if t[0] == '\\' && t.len() >= 2 {
        seq![
            if t[1] == 'n' {
                '\n'
            } else if t[1] == 'r' {
                '\r'
            } else {
                t[1]
            },
        ] + js_unescape(t.skip(2))
    } else {
        seq![t[0]] + js_unescape(t.skip(1))
    }
}

proof fn lemma_escape_front(c: char, s: Seq<char>)
    ensures
        js_escape(seq![c] + s) == js_escape_char(c) + js_escape(s),
    decreases s.len(),
{
    if s.len() == 0 {
        assert(seq![c] + s =~= seq![c]);
        assert(seq![c].drop_last() =~= Seq::<char>::empty());
        assert(seq![c].last() == c);
        assert(js_escape(Seq::<char>::empty()) =~= Seq::<char>::empty());
        assert(js_escape(seq![c]) =~= Seq::<char>::empty() + js_escape_char(c));
        assert(js_escape_char(c) + js_escape(s) =~= js_escape_char(c));
    } else {
        let t = seq![c] + s;
        assert(t.drop_last() =~= seq![c] + s.drop_last());
        assert(t.last() == s.last());
        lemma_escape_front(c, s.drop_last());
        assert(js_escape(t) =~= js_escape_char(c) + js_escape(s));
    }
}

proof fn lemma_unescape_char(c: char, t: Seq<char>)
    ensures
        js_unescape(js_escape_char(c) + t) == seq![c] + js_unescape(t),
{
    let e = js_escape_char(c) + t;
    if c == '\\' || c == '"' || c == '\n' || c == '\r' {
        assert(e.skip(2) =~= t);
    } else {
        assert(e.skip(1) =~= t);
    }
}

/// An escaped text, written as a double-quoted JavaScript literal, stands
/// for exactly that text, and holds no raw line break.
pub proof fn law_js_literal_denotes_its_text(s: Seq<char>)
    ensures
        js_unescape(js_escape(s)) == s,
        !js_escape(s).contains('\n'),
        !js_escape(s).contains('\r'),
    decreases s.len(),
{
    if s.len() > 0 {
        let rest = s.drop_first();
        assert(s =~= seq![s[0]] + rest);
        lemma_escape_front(s[0], rest);
        law_js_literal_denotes_its_text(rest);
        lemma_unescape_char(s[0], js_escape(rest));
        let e = js_escape_char(s[0]);
        let whole = e + js_escape(rest);
        assert forall|i: int| 0 <= i < whole.len() implies whole[i] != '\n' && whole[i] != '\r' by {
            if i >= e.len() {
                assert(whole[i] == js_escape(rest)[i - e.len()]);
            }
        }
    } else {
        assert(js_escape(s) =~= Seq::<char>::empty());
    }
}

/// Appends `raw` as a double-quoted JavaScript string literal.
pub fn push_js_string(out: &mut String, raw: &str)
    ensures
        final(out)@ == old(out)@ + js_string(raw@),
{
    let chars = crate::text::chars_of(raw);
    push_char(out, '"');
    let ghost start = out@;
    let mut i: usize = 0;
    while i < chars.len()
        invariant
            chars@ == raw@,
            i <= chars@.len(),
            out@ == start + js_escape(chars@.take(i as int)),
        decreases chars@.len() - i,
    {
        let c = chars[i];
        if c == '\\' {
            push_char(out, '\\');
            push_char(out, '\\');
        } else if c == '"' {
            push_char(out, '\\');
            push_char(out, '"');
        } else if c == '\n' {
            push_char(out, '\\');
            push_char(out, 'n');
        } else if c == '\r' {
            push_char(out, '\\');
            push_char(out, 'r');
        } else {
            push_char(out, c);
        }
        proof {
            let t = chars@.take(i + 1);
            assert(t.drop_last() =~= chars@.take(i as int));
            assert(out@ =~= start + js_escape(t));
        }
        i = i + 1;
    }
    push_char(out, '"');
    proof {
        assert(chars@.take(chars@.len() as int) =~= raw@);
        assert(out@ =~= old(out)@ + js_string(raw@));
    }
}

/// The JavaScript source of the proxy for a broker datasource: an
/// immediately invoked function that returns an object whose `publish(msg)`
/// checks that `msg` is an object with a non-empty string `destination`
/// and a `payload`, then calls `Rivers.__brokerPublish` with the
/// datasource name.
pub open spec fn broker_proxy_text(ds_name: Seq<char>) -> Seq<char> {
    "(function(){const proxy={};proxy.publish=function(msg){"@
        + "if(msg===undefined||msg===null||typeof msg!==\"object\"){"@
        + "throw new TypeError(\"publish: 'msg' must be an object\");}"@
        + "if(typeof msg.destination!==\"string\"||msg.destination===\"\"){"@
        + "throw new TypeError(\"publish: 'destination' is required\");}"@
        + "if(msg.payload===undefined||msg.payload===null){"@
        + "throw new TypeError(\"publish: 'payload' is required\");}"@
        + "return Rivers.__brokerPublish("@ + js_string(ds_name) + ",msg);};return proxy;})()"@
}

/// Builds the JavaScript proxy for a broker datasource.
pub fn build_broker_proxy_script(ds_name: &str) -> (s: String)
    ensures
        s@ == broker_proxy_text(ds_name@),
{
    let mut out = String::new();
    push_str(&mut out, "(function(){const proxy={};proxy.publish=function(msg){");
    push_str(&mut out, "if(msg===undefined||msg===null||typeof msg!==\"object\"){");
    push_str(&mut out, "throw new TypeError(\"publish: 'msg' must be an object\");}");
    push_str(&mut out, "if(typeof msg.destination!==\"string\"||msg.destination===\"\"){");
    push_str(&mut out, "throw new TypeError(\"publish: 'destination' is required\");}");
    push_str(&mut out, "if(msg.payload===undefined||msg.payload===null){");
    push_str(&mut out, "throw new TypeError(\"publish: 'payload' is required\");}");
    push_str(&mut out, "return Rivers.__brokerPublish(");
    push_js_string(&mut out, ds_name);
    push_str(&mut out, ",msg);};return proxy;})()");
    proof {
        assert(out@ =~= broker_proxy_text(ds_name@));
    }
    out
}

/// The type a direct-dispatch operation declares for a parameter.
#[derive(PartialEq, Eq, Structural, Clone, Copy, Debug)]
pub enum ParamType {
    String,
    Integer,
    Float,
    Boolean,
    Any,
}

/// A parameter of a direct-dispatch operation.
pub struct Param {
    pub name: String,
    pub param_type: ParamType,
    pub required: bool,
    pub default_value: Option<String>,
}

impl Param {
    /// A required parameter.
    pub fn required(name: &str, param_type: ParamType) -> (p: Param)
        ensures
            p.name@ == name@,
            p.param_type == param_type,
            p.required,
            p.default_value is None,
    {
        Param { name: name.to_owned(), param_type, required: true, default_value: None }
    }

    /// An optional parameter with a default, written as source text.
    pub fn optional(name: &str, param_type: ParamType, default_value: &str) -> (p: Param)
        ensures
            p.name@ == name@,
            p.param_type == param_type,
            !p.required,
            p.default_value matches Some(d) && d@ == default_value@,
    {
        Param {
            name: name.to_owned(),
            param_type,
            required: false,
            default_value: Some(default_value.to_owned()),
        }
    }
}

/// An operation of a direct-dispatch datasource.
pub struct OperationDescriptor {
    pub name: String,
    pub params: Vec<Param>,
}

/// A declared default rendered as a JavaScript literal: a string literal
/// for string parameters, the text itself for every other type.
pub open spec fn default_literal_text(ty: ParamType, raw: Seq<char>) -> Seq<char> {
    if ty == ParamType::String {
        js_string(raw)
    } else {
        raw
    }
}

/// Renders a parameter's declared default as a JavaScript literal.
pub fn default_literal(ty: ParamType, raw: &str) -> (s: String)
    ensures
        s@ == default_literal_text(ty, raw@),
{
    let mut s = String::new();
    match ty {
        ParamType::String => {
            push_js_string(&mut s, raw);
        },
        _ => {
            push_str(&mut s, raw);
        },
    }
    proof {
        assert(s@ =~= default_literal_text(ty, raw@));
    }
    s
}

/// The test that a value `n` does not have type `ty`, and the type's name
/// in the error message; `None` for `Any`, which is not checked.
pub open spec fn type_check(ty: ParamType, n: Seq<char>) -> Option<(Seq<char>, Seq<char>)> {
    match ty {
        ParamType::String => Some(("typeof "@ + n + "!==\"string\""@, "string"@)),
        ParamType::Integer => Some(
            ("typeof "@ + n + "!==\"number\"||!Number.isInteger("@ + n + ")"@, "integer"@),
        ),
        ParamType::Float => Some(("typeof "@ + n + "!==\"number\""@, "number"@)),
        ParamType::Boolean => Some(("typeof "@ + n + "!==\"boolean\""@, "boolean"@)),
        ParamType::Any => None,
    }
}

/// The type guard of a parameter: it throws a `TypeError` naming the
/// operation, the parameter and the expected type when the argument has
/// the wrong type; an optional parameter without a default is only
/// checked when given.
pub open spec fn type_guard_text(op: Seq<char>, p: Param) -> Seq<char> {
    match type_check(p.param_type, p.name@) {
        None => Seq::empty(),
        Some((check, expected)) => "if("@ + (if !p.required && p.default_value is None {
            p.name@ + "!==undefined&&"@
        } else {
            Seq::empty()
        }) + check + "){throw new TypeError(\""@ + op + ": '"@ + p.name@ + "' must be a "@
            + expected + "\");}"@,
    }
}

/// The checks of one parameter: the presence check of a required
/// parameter or the default of an optional one, then its type guard.
pub open spec fn param_text(op: Seq<char>, p: Param) -> Seq<char> {
    (if p.required {
        "if("@ + p.name@ + "===undefined){throw new TypeError(\""@ + op + ": '"@ + p.name@
            + "' is required\");}"@
    } else {
        match p.default_value {
            Some(d) => "if("@ + p.name@ + "===undefined){"@ + p.name@ + "="@ + default_literal_text(
                p.param_type,
                d@,
            ) + ";}"@,
            None => Seq::empty(),
        }
    }) + type_guard_text(op, p)
}

/// The checks of the parameters, in order.
pub open spec fn params_text(op: Seq<char>, ps: Seq<Param>) -> Seq<char>
    decreases ps.len(),
{
    if ps.len() == 0 {
        Seq::empty()
    } else {
        params_text(op, ps.drop_last()) + param_text(op, ps.last())
    }
}

/// The parameter names.
pub open spec fn param_names(ps: Seq<Param>) -> Seq<Seq<char>> {
    Seq::new(ps.len(), |i: int| ps[i].name@)
}

/// The parameters object passed to the host: `name:name` for each
/// parameter, comma-separated.
pub open spec fn param_fields(ps: Seq<Param>) -> Seq<Seq<char>> {
    Seq::new(ps.len(), |i: int| ps[i].name@ + ":"@ + ps[i].name@)
}

/// The proxy method for one operation.
pub open spec fn method_text(ds: Seq<char>, op: OperationDescriptor) -> Seq<char> {
    "proxy."@ + op.name@ + "=function("@ + join(param_names(op.params@), ","@) + "){"@
        + params_text(op.name@, op.params@) + "return Rivers.__directDispatch("@ + js_string(ds)
        + ","@ + js_string(op.name@) + ",{"@ + join(param_fields(op.params@), ","@) + "});};"@
}

/// The proxy methods of the operations, in order.
pub open spec fn methods_text(ds: Seq<char>, ops: Seq<OperationDescriptor>) -> Seq<char>
    decreases ops.len(),
{
    if ops.len() == 0 {
        Seq::empty()
    } else {
        methods_text(ds, ops.drop_last()) + method_text(ds, ops.last())
    }
}

/// The proxy object for a direct-dispatch datasource: an immediately
/// invoked function that attaches one method per operation and returns the
/// proxy.
pub open spec fn proxy_text(ds: Seq<char>, ops: Seq<OperationDescriptor>) -> Seq<char> {
    "(function(){const proxy={};"@ + methods_text(ds, ops) + "return proxy;})()"@
}

fn type_check_strings(ty: ParamType, n: &str) -> (r: Option<(String, &'static str)>)
    ensures
        match type_check(ty, n@) {
            None => r is None,
            Some((check, expected)) => r matches Some((c, e)) && c@ == check && e@ == expected,
        },
{
    let mut c = String::new();
    match ty {
        ParamType::String => {
            push_str(&mut c, "typeof ");
            push_str(&mut c, n);
            push_str(&mut c, "!==\"string\"");
            proof {
                assert(c@ =~= "typeof "@ + n@ + "!==\"string\""@);
            }
            Some((c, "string"))
        },
        ParamType::Integer => {
            push_str(&mut c, "typeof ");
            push_str(&mut c, n);
            push_str(&mut c, "!==\"number\"||!Number.isInteger(");
            push_str(&mut c, n);
            push_str(&mut c, ")");
            proof {
                assert(c@ =~= "typeof "@ + n@ + "!==\"number\"||!Number.isInteger("@ + n@ + ")"@);
            }
            Some((c, "integer"))
        },
        ParamType::Float => {
            push_str(&mut c, "typeof ");
            push_str(&mut c, n);
            push_str(&mut c, "!==\"number\"");
            proof {
                assert(c@ =~= "typeof "@ + n@ + "!==\"number\""@);
            }
            Some((c, "number"))
        },
        ParamType::Boolean => {
            push_str(&mut c, "typeof ");
            push_str(&mut c, n);
            push_str(&mut c, "!==\"boolean\"");
            proof {
                assert(c@ =~= "typeof "@ + n@ + "!==\"boolean\""@);
            }
            Some((c, "boolean"))
        },
        ParamType::Any => None,
    }
}

/// Appends the type guard of a parameter.
pub fn emit_type_guard(out: &mut String, op_name: &str, p: &Param)
    ensures
        final(out)@ == old(out)@ + type_guard_text(op_name@, *p),
{
    let n = p.name.as_str();
    let ghost start = out@;
    let (check, expected) = match type_check_strings(p.param_type, n) {
        None => {
            proof {
                assert(out@ =~= start + type_guard_text(op_name@, *p));
            }
            return ;
        },
        Some(ce) => ce,
    };
    push_str(out, "if(");
    if !p.required && p.default_value.is_none() {
        push_str(out, n);
        push_str(out, "!==undefined&&");
    }
    push_str(out, check.as_str());
    push_str(out, "){throw new TypeError(\"");
    push_str(out, op_name);
    push_str(out, ": '");
    push_str(out, n);
    push_str(out, "' must be a ");
    push_str(out, expected);
    push_str(out, "\");}");
    proof {
        assert(out@ =~= start + type_guard_text(op_name@, *p));
    }
}

/// Appends the checks of one parameter.
fn emit_param(out: &mut String, op_name: &str, p: &Param)
    ensures
        final(out)@ == old(out)@ + param_text(op_name@, *p),
{
    let n = p.name.as_str();
    let ghost start = out@;
    if p.required {
        push_str(out, "if(");
        push_str(out, n);
        push_str(out, "===undefined){throw new TypeError(\"");
        push_str(out, op_name);
        push_str(out, ": '");
        push_str(out, n);
        push_str(out, "' is required\");}");
    } else {
        match &p.default_value {
            Some(d) => {
                push_str(out, "if(");
                push_str(out, n);
                push_str(out, "===undefined){");
                push_str(out, n);
                push_str(out, "=");
                let lit = default_literal(p.param_type, d.as_str());
                push_str(out, lit.as_str());
                push_str(out, ";}");
            },
            None => {},
        }
    }
    let ghost mid = out@;
    emit_type_guard(out, op_name, p);
    proof {
        assert(out@ =~= start + param_text(op_name@, *p));
    }
}

fn push_joined_names(out: &mut String, ps: &Vec<Param>, fields: bool)
    ensures
        final(out)@ == old(out)@ + join(
            if fields {
                param_fields(ps@)
            } else {
                param_names(ps@)
            },
            ","@,
        ),
{
    let ghost items = if fields {
        param_fields(ps@)
    } else {
        param_names(ps@)
    };
    let ghost s0 = out@;
    let mut i: usize = 0;
    while i < ps.len()
        invariant
            items == (if fields {
                param_fields(ps@)
            } else {
                param_names(ps@)
            }),
            items.len() == ps@.len(),
            i <= ps@.len(),
            out@ == s0 + join(items.take(i as int), ","@),
        decreases ps@.len() - i,
    {
        proof {
            assert(items.take(i + 1).drop_last() =~= items.take(i as int));
            assert(items.take(i + 1).last() == items[i as int]);
        }
        if i > 0 {
            push_str(out, ",");
        }
        push_str(out, ps[i].name.as_str());
        if fields {
            push_str(out, ":");
            push_str(out, ps[i].name.as_str());
        }
        proof {
            if i == 0 {
                assert(join(items.take(1), ","@) == items.take(1)[0]);
                assert(out@ =~= s0 + join(items.take(1), ","@));
            } else {
                assert(out@ =~= s0 + join(items.take(i + 1), ","@));
            }
        }
        i = i + 1;
    }
    proof {
        assert(items.take(ps@.len() as int) =~= items);
    }
}

fn push_param_checks(out: &mut String, op_name: &str, ps: &Vec<Param>)
    ensures
        final(out)@ == old(out)@ + params_text(op_name@, ps@),
{
    let ghost s1 = out@;
    let mut j: usize = 0;
    while j < ps.len()
        invariant
            j <= ps@.len(),
            out@ == s1 + params_text(op_name@, ps@.take(j as int)),
        decreases ps@.len() - j,
    {
        emit_param(out, op_name, &ps[j]);
        proof {
            assert(ps@.take(j + 1).drop_last() =~= ps@.take(j as int));
            assert(out@ =~= s1 + params_text(op_name@, ps@.take(j + 1)));
        }
        j = j + 1;
    }
    proof {
        assert(ps@.take(ps@.len() as int) =~= ps@);
    }
}

/// Appends the proxy method for one operation.
pub fn emit_method(out: &mut String, ds_name: &str, op: &OperationDescriptor)
    ensures
        final(out)@ == old(out)@ + method_text(ds_name@, *op),
{
    let ghost start = out@;
    push_str(out, "proxy.");
    push_str(out, op.name.as_str());
    push_str(out, "=function(");
    push_joined_names(out, &op.params, false);
    push_str(out, "){");
    push_param_checks(out, op.name.as_str(), &op.params);
    push_str(out, "return Rivers.__directDispatch(");
    push_js_string(out, ds_name);
    push_str(out, ",");
    push_js_string(out, op.name.as_str());
    push_str(out, ",{");
    push_joined_names(out, &op.params, true);
    push_str(out, "});};");
    proof {
        assert(out@ =~= start + method_text(ds_name@, *op));
    }
}

/// Builds the JavaScript proxy object for a direct-dispatch datasource
/// from its operation catalog.
pub fn build_proxy_script(ds_name: &str, catalog: &[OperationDescriptor]) -> (s: String)
    ensures
        s@ == proxy_text(ds_name@, catalog@),
{
    let mut out = String::new();
    push_str(&mut out, "(function(){const proxy={};");
    let ghost s0 = out@;
    let mut i: usize = 0;
    while i < catalog.len()
        invariant
            i <= catalog@.len(),
            out@ == s0 + methods_text(ds_name@, catalog@.take(i as int)),
        decreases catalog@.len() - i,
    {
        emit_method(&mut out, ds_name, &catalog[i]);
        proof {
            assert(catalog@.take(i + 1).drop_last() =~= catalog@.take(i as int));
            assert(out@ =~= s0 + methods_text(ds_name@, catalog@.take(i + 1)));
        }
        i = i + 1;
    }
    proof {
        assert(catalog@.take(catalog@.len() as int) =~= catalog@);
    }
    push_str(&mut out, "return proxy;})()");
    proof {
        assert(out@ =~= proxy_text(ds_name@, catalog@));
    }
    out
}

/// A JavaScript test that `n` is not of the primitive type `t`:
/// `typeof n!=="t"`.
pub open spec fn typeof_test(n: Seq<char>, t: Seq<char>) -> Seq<char> {
    "typeof "@ + n + "!==\""@ + t + "\""@
}

/// The guard of a `Float` parameter accepts every JavaScript number: it is
/// the bare `typeof` test, shaped like the `String` and `Boolean` guards
/// with `number` in place of their type, and the `Integer` guard is that
/// same test narrowed by an integrality test that the `Float` guard does
/// not carry. The error names the expected type `number`.
pub proof fn law_float_check_accepts_every_number(n: Seq<char>)
    ensures
        type_check(ParamType::String, n) matches Some((c, _)) && c == typeof_test(n, "string"@),
        type_check(ParamType::Boolean, n) matches Some((c, _)) && c == typeof_test(n, "boolean"@),
        type_check(ParamType::Float, n) matches Some((c, e)) && c == typeof_test(n, "number"@)
            && e == "number"@,
        type_check(ParamType::Integer, n) matches Some((ci, _)) && type_check(
            ParamType::Float,
            n,
        ) matches Some((cf, _)) && ci == cf + "||!Number.isInteger("@ + n + ")"@,
{
    reveal_strlit("typeof ");
    reveal_strlit("!==\"");
    reveal_strlit("\"");
    reveal_strlit("string");
    reveal_strlit("boolean");
    reveal_strlit("number");
    reveal_strlit("!==\"string\"");
    reveal_strlit("!==\"boolean\"");
    reveal_strlit("!==\"number\"");
    reveal_strlit("!==\"number\"||!Number.isInteger(");
    reveal_strlit("||!Number.isInteger(");
    reveal_strlit(")");
    assert(typeof_test(n, "string"@) =~= "typeof "@ + n + "!==\"string\""@);
    assert(typeof_test(n, "boolean"@) =~= "typeof "@ + n + "!==\"boolean\""@);
    assert(typeof_test(n, "number"@) =~= "typeof "@ + n + "!==\"number\""@);
    assert(("typeof "@ + n + "!==\"number\""@) + "||!Number.isInteger("@ + n + ")"@
        =~= "typeof "@ + n + "!==\"number\"||!Number.isInteger("@ + n + ")"@);
}

/// For a required `Float` parameter the proxy throws only when the
/// argument is not a number: its guard is `if(typeof n!=="number")`
/// followed by the `TypeError` naming the operation, the parameter and
/// `number`.
pub proof fn law_float_guard_text(op: Seq<char>, p: Param)
    requires
        p.param_type == ParamType::Float,
        p.required,
    ensures
        type_guard_text(op, p) == "if("@ + typeof_test(p.name@, "number"@)
            + "){throw new TypeError(\""@ + op + ": '"@ + p.name@ + "' must be a "@ + "number"@
            + "\");}"@,
{
    law_float_check_accepts_every_number(p.name@);
    assert("if("@ + (Seq::<char>::empty()) + typeof_test(p.name@, "number"@) =~= "if("@
        + typeof_test(p.name@, "number"@));
}

} // verus!
