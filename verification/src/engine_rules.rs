//! Rules of the V8 engine's host side that do not depend on V8 itself:
//! the heap guard, isolate reuse, outbound HTTP from handlers, broker
//! messages, the shape of query results handed back to handlers, proxy
//! registration, `ctx.datasource().build()` and `ctx.ddl()` checks, and
//! gossip forwarding targets.

use vstd::prelude::*;
use vstd::string::*;
use crate::json::{json_compact, json_quoted, json_reserialize, json_string_literal};
use crate::text::{chars_of, decimal, push_char, push_decimal, push_str, str_eq};

verus! {

/// Default V8 heap limit in bytes.
pub const DEFAULT_HEAP_LIMIT: usize = 134_217_728;

/// Extra heap granted when an isolate nears its limit.
pub const HEAP_HEADROOM: usize = 67_108_864;

/// The heap guard's answer when an isolate nears its limit: the new limit
/// (64 MiB of headroom on top of the current one) and whether to schedule
/// termination (only the first time it fires).
pub fn near_heap_limit(current_limit: usize, already_fired: bool) -> (r: (usize, bool))
    requires
        current_limit + HEAP_HEADROOM <= usize::MAX,
    ensures
        r.0 == current_limit + HEAP_HEADROOM,
        r.1 == !already_fired,
{
    (current_limit + HEAP_HEADROOM, !already_fired)
}

/// A last-in first-out pool of reusable engines.
pub struct ReusePool<T> {
    items: Vec<T>,
}

impl<T> ReusePool<T> {
    /// The pooled items, oldest first.
    pub closed spec fn items(&self) -> Seq<T> {
        self.items@
    }

    /// An empty pool.
    pub fn new() -> (r: Self)
        ensures
            r.items().len() == 0,
    {
        ReusePool { items: Vec::new() }
    }

    /// Takes the most recently returned item, if any.
    pub fn take(&mut self) -> (r: Option<T>)
        ensures
            old(self).items().len() == 0 ==> r is None && final(self).items() == old(self).items(),
            old(self).items().len() > 0 ==> r == Some(old(self).items().last())
                && final(self).items() == old(self).items().drop_last(),
    {
        self.items.pop()
    }

    /// Returns an item to the pool.
    pub fn give_back(&mut self, item: T)
        ensures
            final(self).items() == old(self).items().push(item),
    {
        self.items.push(item);
    }
}

/// An engine returned to the pool is the next one taken.
pub proof fn law_pool_reuses_last_returned<T>(before: Seq<T>, item: T)
    ensures
        before.push(item).last() == item,
        before.push(item).drop_last() == before,
{
    assert(before.push(item).drop_last() =~= before);
}

/// Position of the first `://` at or after `i` in `url`, or -1.
pub open spec fn scheme_pos(url: Seq<char>, i: int) -> int
    decreases url.len() - i,
{
    if i < 0 || i + 3 > url.len() {
        -1
    } else if url[i] == ':' && url[i + 1] == '/' && url[i + 2] == '/' {
        i
    } else {
        scheme_pos(url, i + 1)
    }
}

/// Whether `c` ends the host part of a URL: a path, query or fragment starts.
pub open spec fn is_host_stop(c: char) -> bool {
    c == '/' || c == '?' || c == '#'
}

/// Position of the first host stop in `s`, or its length when there is none.
pub open spec fn host_stop(s: Seq<char>) -> int
    decreases s.len(),
{
    if s.len() == 0 {
        0
    } else if is_host_stop(s[0]) {
        0
    } else {
        1 + host_stop(s.drop_first())
    }
}

/// The host part of a URL: after the first `://`, up to the next `/`, `?`
/// or `#`, so that no path, query parameter or fragment is kept; the whole
/// text when there is no `://`.
pub open spec fn url_host(url: Seq<char>) -> Seq<char> {
    let s = scheme_pos(url, 0);
    if s < 0 {
        url
    } else {
        let rest = url.skip(s + 3);
        rest.take(host_stop(rest))
    }
}

/// The host of an outbound request, for logging.
pub fn extract_host(url: &str) -> (r: String)
    ensures
        r@ == url_host(url@),
{
    let v = chars_of(url);
    let n = v.len();
    let mut i: usize = 0;
    let mut found = false;
    while !found && n - i >= 3
        invariant
            n == v@.len(),
            v@ == url@,
            i <= n,
            scheme_pos(url@, 0) == scheme_pos(url@, i as int),
            found ==> i + 3 <= n && scheme_pos(url@, i as int) == i,
        decreases n + 1 - i - (if found { 1int } else { 0int }),
    {
        if v[i] == ':' && v[i + 1] == '/' && v[i + 2] == '/' {
            found = true;
        } else {
            i = i + 1;
        }
    }
    if !found {
        return url.to_owned();
    }
    let start = i + 3;
    let mut k: usize = start;
    while k < n && v[k] != '/' && v[k] != '?' && v[k] != '#'
        invariant
            n == v@.len(),
            start <= k <= n,
            forall|j: int| start <= j < k ==> !is_host_stop(#[trigger] v@[j]),
        decreases n - k,
    {
        k = k + 1;
    }
    let mut host: Vec<char> = Vec::new();
    let mut m: usize = start;
    while m < k
        invariant
            start <= m <= k <= n == v@.len(),
            host@ == v@.subrange(start as int, m as int),
        decreases k - m,
    {
        host.push(v[m]);
        proof {
            assert(host@ =~= v@.subrange(start as int, m + 1));
        }
        m = m + 1;
    }
    proof {
        let rest = url@.skip(start as int);
        lemma_host_stop_at(rest, k - start);
        assert(rest.take((k - start) as int) =~= v@.subrange(start as int, k as int));
    }
    crate::text::string_of(host.as_slice())
}

proof fn lemma_host_stop_at(s: Seq<char>, k: int)
    requires
        0 <= k <= s.len(),
        forall|j: int| 0 <= j < k ==> !is_host_stop(#[trigger] s[j]),
        k == s.len() || is_host_stop(s[k]),
    ensures
        host_stop(s) == k,
    decreases k,
{
    if k > 0 {
        assert(!is_host_stop(s[0]));
        lemma_host_stop_at(s.drop_first(), k - 1);
    }
}

/// The HTTP methods handlers may use.
#[derive(PartialEq, Eq, Structural, Clone, Copy, Debug)]
pub enum HttpMethod {
    Get,
    Post,
    Put,
    Delete,
}

/// Reads an outbound HTTP method; others are refused with
/// `unsupported HTTP method: <method>`.
pub fn http_method(method: &str) -> (r: Result<HttpMethod, String>)
    ensures
        method@ == "GET"@ ==> r == Ok::<HttpMethod, String>(HttpMethod::Get),
        method@ != "GET"@ && method@ == "POST"@ ==> r == Ok::<HttpMethod, String>(HttpMethod::Post),
        method@ != "GET"@ && method@ != "POST"@ && method@ == "PUT"@ ==> r == Ok::<
            HttpMethod,
            String,
        >(HttpMethod::Put),
        method@ != "GET"@ && method@ != "POST"@ && method@ != "PUT"@ && method@ == "DELETE"@ ==> r
            == Ok::<HttpMethod, String>(HttpMethod::Delete),
        method@ != "GET"@ && method@ != "POST"@ && method@ != "PUT"@ && method@ != "DELETE"@ ==> (r
            matches Err(m) && m@ == "unsupported HTTP method: "@ + method@),
{
    if str_eq(method, "GET") {
        Ok(HttpMethod::Get)
    } else if str_eq(method, "POST") {
        Ok(HttpMethod::Post)
    } else if str_eq(method, "PUT") {
        Ok(HttpMethod::Put)
    } else if str_eq(method, "DELETE") {
        Ok(HttpMethod::Delete)
    } else {
        let mut m = String::new();
        push_str(&mut m, "unsupported HTTP method: ");
        push_str(&mut m, method);
        Err(m)
    }
}

/// The message thrown to a handler when its outbound request fails.
pub fn http_failure_message(cause: &str) -> (r: String)
    ensures
        r@ == "Rivers.http request failed: "@ + cause@,
{
    let mut m = String::new();
    push_str(&mut m, "Rivers.http request failed: ");
    push_str(&mut m, cause);
    m
}

/// The value handed back for an outbound response: its status and its
/// body, parsed as JSON when it is JSON and kept as a string otherwise.
pub open spec fn http_envelope(status: u16, body: Seq<char>) -> Seq<char> {
    "{\"body\":"@ + match json_compact(body) {
        Some(t) => t,
        None => json_quoted(body),
    } + ",\"status\":"@ + decimal(status as nat) + "}"@
}

/// Builds the value handed back for an outbound response.
pub fn http_response_envelope(status: u16, body: &str) -> (r: String)
    ensures
        r@ == http_envelope(status, body@),
{
    let mut s = String::new();
    push_str(&mut s, "{\"body\":");
    match json_reserialize(body) {
        Some(t) => push_str(&mut s, t.as_str()),
        None => {
            let q = json_string_literal(body);
            push_str(&mut s, q.as_str());
        },
    }
    push_str(&mut s, ",\"status\":");
    push_decimal(&mut s, status as u64);
    push_str(&mut s, "}");
    proof {
        assert(s@ =~= http_envelope(status, body@));
    }
    s
}

/// The payload field of a broker message as a handler gave it.
pub enum PayloadField {
    /// Missing or null.
    Missing,
    /// A string: sent as its UTF-8 bytes.
    Text(String),
    /// Any other JSON value, already serialized.
    Json(Vec<u8>),
}

/// The fields of a broker message object as a handler gave them (string
/// fields are present only when they are strings).
pub struct MessageFields {
    /// The message is a JSON object.
    pub is_object: bool,
    pub destination: Option<String>,
    pub payload: PayloadField,
    /// The string-valued headers, in order.
    pub headers: Vec<(String, String)>,
    pub key: Option<String>,
    pub reply_to: Option<String>,
}

/// A message to publish.
pub struct OutboundMessage {
    pub destination: String,
    pub payload: Vec<u8>,
    pub headers: Vec<(String, String)>,
    pub key: Option<String>,
    pub reply_to: Option<String>,
}

/// Builds the message to publish from a handler's message object: it must
/// be an object with a non-empty string destination and a payload (a
/// string is sent as its bytes, any other value as its JSON text).
pub fn build_outbound_message(f: MessageFields) -> (r: Result<OutboundMessage, String>)
    ensures
        !f.is_object ==> (r matches Err(m) && m@ == "msg must be an object"@),
        f.is_object && f.destination is None ==> (r matches Err(m) && m@
            == "'destination' is required (string)"@),
        f.is_object && (f.destination matches Some(d) && d@.len() == 0) ==> (r matches Err(m)
            && m@ == "'destination' must be non-empty"@),
        f.is_object && (f.destination matches Some(d) && d@.len() > 0) && f.payload is Missing
            ==> (r matches Err(m) && m@ == "'payload' is required"@),
        r matches Ok(msg) ==> f.is_object && f.destination is Some && msg.destination@
            == f.destination->0@ && msg.destination@.len() > 0 && msg.headers@ == f.headers@
            && msg.key == f.key && msg.reply_to == f.reply_to && match f.payload {
            PayloadField::Text(s) => msg.payload@ == vstd::utf8::encode_utf8(s@),
            PayloadField::Json(b) => msg.payload@ == b@,
            PayloadField::Missing => false,
        },
        f.is_object && (f.destination matches Some(d) && d@.len() > 0) && !(f.payload is Missing)
            ==> r is Ok,
{
    if !f.is_object {
        return Err("msg must be an object".to_owned());
    }
    let destination = match f.destination {
        Some(d) => d,
        None => {
            return Err("'destination' is required (string)".to_owned());
        },
    };
    if destination.as_str().is_empty() {
        return Err("'destination' must be non-empty".to_owned());
    }
    let payload = match f.payload {
        PayloadField::Missing => {
            return Err("'payload' is required".to_owned());
        },
        PayloadField::Text(s) => vstd::slice::slice_to_vec(s.as_str().as_bytes()),
        PayloadField::Json(b) => b,
    };
    Ok(OutboundMessage { destination, payload, headers: f.headers, key: f.key, reply_to: f.reply_to })
}

/// Checks a `__brokerPublish(name, msg)` call and builds the message to
/// publish: the datasource name is required and the message must be an
/// object; a message that cannot be built is refused with its reason.
pub fn prepare_broker_publish(name: &str, f: MessageFields) -> (r: Result<OutboundMessage, String>)
    ensures
        name@.len() == 0 ==> (r matches Err(m) && m@ == "__brokerPublish: 'name' is required"@),
        name@.len() > 0 && !f.is_object ==> (r matches Err(m) && m@
            == "__brokerPublish: 'msg' must be an object"@),
        name@.len() > 0 && f.is_object && f.destination is None ==> (r matches Err(m) && m@
            == "__brokerPublish: "@ + "'destination' is required (string)"@),
        name@.len() > 0 && f.is_object && (f.destination matches Some(d) && d@.len() == 0) ==> (r matches Err(m)
            && m@ == "__brokerPublish: "@ + "'destination' must be non-empty"@),
        name@.len() > 0 && f.is_object && (f.destination matches Some(d) && d@.len() > 0) && f.payload is Missing
            ==> (r matches Err(m) && m@ == "__brokerPublish: "@ + "'payload' is required"@),
        r matches Ok(msg) ==> name@.len() > 0 && f.is_object && f.destination is Some && msg.destination@
            == f.destination->0@ && msg.destination@.len() > 0 && msg.headers@ == f.headers@
            && msg.key == f.key && msg.reply_to == f.reply_to && match f.payload {
            PayloadField::Text(s) => msg.payload@ == vstd::utf8::encode_utf8(s@),
            PayloadField::Json(b) => msg.payload@ == b@,
            PayloadField::Missing => false,
        },
        name@.len() > 0 && f.is_object && (f.destination matches Some(d) && d@.len() > 0) && !(f.payload is Missing)
            ==> r is Ok,
{
    if name.is_empty() {
        return Err("__brokerPublish: 'name' is required".to_owned());
    }
    if !f.is_object {
        return Err("__brokerPublish: 'msg' must be an object".to_owned());
    }
    match build_outbound_message(f) {
        Ok(m) => Ok(m),
        Err(e) => {
            let mut m = String::new();
            push_str(&mut m, "__brokerPublish: ");
            push_str(&mut m, e.as_str());
            Err(m)
        },
    }
}

/// Why publishing to a broker datasource failed.
pub enum BrokerFailure {
    /// The named datasource is not a broker of the task.
    NotBroker(String),
    /// The broker's driver is not registered.
    DriverMissing(String),
    /// The producer could not be created.
    CreateProducer(String),
    /// The publish itself failed.
    Publish(String),
}

/// The error thrown for a failed publish.
pub fn broker_failure_message(f: &BrokerFailure) -> (r: String)
    ensures
        r@ == match f {
            BrokerFailure::NotBroker(n) => "datasource '"@ + n@ + "' is not a broker datasource"@,
            BrokerFailure::DriverMissing(d) => "broker driver '"@ + d@
                + "' not registered in DriverFactory"@,
            BrokerFailure::CreateProducer(e) => "create_producer failed: "@ + e@,
            BrokerFailure::Publish(e) => "publish failed: "@ + e@,
        },
{
    let mut m = String::new();
    match f {
        BrokerFailure::NotBroker(n) => {
            push_str(&mut m, "datasource '");
            push_str(&mut m, n.as_str());
            push_str(&mut m, "' is not a broker datasource");
        },
        BrokerFailure::DriverMissing(d) => {
            push_str(&mut m, "broker driver '");
            push_str(&mut m, d.as_str());
            push_str(&mut m, "' not registered in DriverFactory");
        },
        BrokerFailure::CreateProducer(e) => {
            push_str(&mut m, "create_producer failed: ");
            push_str(&mut m, e.as_str());
        },
        BrokerFailure::Publish(e) => {
            push_str(&mut m, "publish failed: ");
            push_str(&mut m, e.as_str());
        },
    }
    m
}

/// Checks a `ctx.ddl(datasource, statement)` call, in order: only the
/// application's initialization task may run DDL (`task_kind` is how the
/// running task's kind is shown), the task must name its app, a driver
/// factory and a runtime must be available, and the datasource must be
/// known.
pub fn ddl_refusal(
    init_task: bool,
    task_kind: &str,
    app_present: bool,
    has_factory: bool,
    has_runtime: bool,
    datasource_found: bool,
    datasource: &str,
) -> (r: Option<String>)
    ensures
        !init_task ==> (r matches Some(m) && m@
            == "ctx.ddl() is only available during application initialization (got task_kind="@
            + task_kind@ + ")"@),
        init_task && !app_present ==> (r matches Some(m) && m@ == "ctx.ddl(): app_id is required"@),
        init_task && app_present && !has_factory ==> (r matches Some(m) && m@
            == "ctx.ddl(): DriverFactory not available"@),
        init_task && app_present && has_factory && !has_runtime ==> (r matches Some(m) && m@
            == "ctx.ddl(): Tokio runtime not available"@),
        init_task && app_present && has_factory && has_runtime && !datasource_found ==> (r matches Some(m)
            && m@ == "ctx.ddl('"@ + datasource@ + "', ...): datasource not found"@),
        init_task && app_present && has_factory && has_runtime && datasource_found ==> r is None,
{
    if !init_task {
        let mut m = String::new();
        push_str(&mut m, "ctx.ddl() is only available during application initialization (got task_kind=");
        push_str(&mut m, task_kind);
        push_str(&mut m, ")");
        return Some(m);
    }
    if !app_present {
        return Some("ctx.ddl(): app_id is required".to_owned());
    }
    if !has_factory {
        return Some("ctx.ddl(): DriverFactory not available".to_owned());
    }
    if !has_runtime {
        return Some("ctx.ddl(): Tokio runtime not available".to_owned());
    }
    if !datasource_found {
        let mut m = String::new();
        push_str(&mut m, "ctx.ddl('");
        push_str(&mut m, datasource);
        push_str(&mut m, "', ...): datasource not found");
        return Some(m);
    }
    None
}

/// Whether the DDL whitelist is consulted: only when one is configured
/// and it is not empty.
pub fn ddl_whitelist_applies(whitelist_len: Option<usize>) -> (r: bool)
    ensures
        r == (whitelist_len matches Some(n) && n > 0),
{
    match whitelist_len {
        Some(n) => n > 0,
        None => false,
    }
}

/// Why a direct-dispatch call failed.
pub enum DirectDispatchFailure {
    /// The datasource name or the operation is missing.
    MissingArguments,
    /// No async runtime was available to run it.
    NoRuntime,
    /// The named datasource is not a direct-dispatch datasource of the task.
    NotDirect(String),
    /// Connecting the driver failed.
    Connect(String),
    /// The operation failed.
    Operation { operation: String, cause: String },
}

/// The error thrown for a failed direct-dispatch call.
pub fn direct_dispatch_message(f: &DirectDispatchFailure) -> (r: String)
    ensures
        r@ == match f {
            DirectDispatchFailure::MissingArguments => "__directDispatch: 'name' and 'operation' are required"@,
            DirectDispatchFailure::NoRuntime => "__directDispatch: tokio runtime handle not available"@,
            DirectDispatchFailure::NotDirect(n) => "datasource '"@ + n@ + "' is not a direct-dispatch datasource"@,
            DirectDispatchFailure::Connect(e) => "connect failed: "@ + e@,
            DirectDispatchFailure::Operation { operation, cause } => operation@ + ": "@ + cause@,
        },
{
    let mut m = String::new();
    match f {
        DirectDispatchFailure::MissingArguments => {
            push_str(&mut m, "__directDispatch: 'name' and 'operation' are required");
        },
        DirectDispatchFailure::NoRuntime => {
            push_str(&mut m, "__directDispatch: tokio runtime handle not available");
        },
        DirectDispatchFailure::NotDirect(n) => {
            push_str(&mut m, "datasource '");
            push_str(&mut m, n.as_str());
            push_str(&mut m, "' is not a direct-dispatch datasource");
        },
        DirectDispatchFailure::Connect(e) => {
            push_str(&mut m, "connect failed: ");
            push_str(&mut m, e.as_str());
        },
        DirectDispatchFailure::Operation { operation, cause } => {
            push_str(&mut m, operation.as_str());
            push_str(&mut m, ": ");
            push_str(&mut m, cause.as_str());
        },
    }
    m
}

/// Whether a direct-dispatch call names both a datasource and an
/// operation.
pub fn direct_dispatch_arguments_given(name: &str, operation: &str) -> (r: bool)
    ensures
        r == (name@.len() > 0 && operation@.len() > 0),
{
    !name.is_empty() && !operation.is_empty()
}

/// How a query result is handed back to a handler.
#[derive(PartialEq, Eq, Structural, Clone, Copy, Debug)]
pub enum ResultShape {
    /// No rows: `null`.
    Null,
    /// One row of one column: that value.
    Scalar,
    /// One row: the row as an object.
    Object,
    /// Several rows: an array of objects.
    Array,
}

/// The shape of a direct-dispatch result with `rows` rows whose first row
/// has `first_row_columns` columns.
pub fn result_shape(rows: usize, first_row_columns: usize) -> (r: ResultShape)
    ensures
        r == if rows == 0 {
            ResultShape::Null
        } else if rows == 1 && first_row_columns == 1 {
            ResultShape::Scalar
        } else if rows == 1 {
            ResultShape::Object
        } else {
            ResultShape::Array
        },
{
    if rows == 0 {
        ResultShape::Null
    } else if rows == 1 {
        if first_row_columns == 1 {
            ResultShape::Scalar
        } else {
            ResultShape::Object
        }
    } else {
        ResultShape::Array
    }
}

/// The escape of a name inside the proxy registry key: backslash and
/// double quote are escaped, nothing else.
pub open spec fn key_escape(s: Seq<char>) -> Seq<char>
    decreases s.len(),
{
    if s.len() == 0 {
        Seq::empty()
    } else {
        key_escape(s.drop_last()) + if s.last() == '\\' {
            seq!['\\', '\\']
        } else if s.last() == '"' {
            seq!['\\', '"']
        } else {
            seq![s.last()]
        }
    }
}

/// The script that stores a proxy under its datasource name in the
/// proxy registry.
pub open spec fn registration_text(name: Seq<char>, proxy: Seq<char>) -> Seq<char> {
    "__rivers_direct_proxies[\""@ + key_escape(name) + "\"]="@ + proxy + ";"@
}

/// Wraps a proxy script so that running it stores the proxy under the
/// datasource's name.
pub fn proxy_registration_script(name: &str, proxy_js: &str) -> (r: String)
    ensures
        r@ == registration_text(name@, proxy_js@),
{
    let chars = chars_of(name);
    let mut out = String::new();
    push_str(&mut out, "__rivers_direct_proxies[\"");
    let ghost start = out@;
    let mut i: usize = 0;
    while i < chars.len()
        invariant
            chars@ == name@,
            i <= chars@.len(),
            out@ == start + key_escape(chars@.take(i as int)),
        decreases chars@.len() - i,
    {
        let c = chars[i];
        if c == '\\' {
            push_char(&mut out, '\\');
            push_char(&mut out, '\\');
        } else if c == '"' {
            push_char(&mut out, '\\');
            push_char(&mut out, '"');
        } else {
            push_char(&mut out, c);
        }
        proof {
            let t = chars@.take(i + 1);
            assert(t.drop_last() =~= chars@.take(i as int));
            assert(out@ =~= start + key_escape(t));
        }
        i = i + 1;
    }
    proof {
        assert(chars@.take(chars@.len() as int) =~= name@);
    }
    push_str(&mut out, "\"]=");
    push_str(&mut out, proxy_js);
    push_str(&mut out, ";");
    proof {
        assert(out@ =~= registration_text(name@, proxy_js@));
    }
    out
}

/// Checks a `ctx.datasource(name).build()` call: the datasource must be
/// declared by the view, a query must have been given, and a driver
/// factory must be available.
pub fn datasource_build_refusal(ds_name: &str, declared: bool, has_sql: bool, has_factory: bool) -> (r:
    Option<String>)
    ensures
        !declared ==> (r matches Some(m) && m@ == "CapabilityError: datasource '"@ + ds_name@
            + "' not declared in view config"@),
        declared && !has_sql ==> (r matches Some(m) && m@
            == "ctx.datasource().build(): call .fromQuery(sql) before .build()"@),
        declared && has_sql && !has_factory ==> (r matches Some(m) && m@ == "ctx.datasource('"@
            + ds_name@ + "').build(): DriverFactory not available"@),
        declared && has_sql && has_factory ==> r is None,
{
    if !declared {
        let mut m = String::new();
        push_str(&mut m, "CapabilityError: datasource '");
        push_str(&mut m, ds_name);
        push_str(&mut m, "' not declared in view config");
        proof {
            assert(m@ =~= "CapabilityError: datasource '"@ + ds_name@
                + "' not declared in view config"@);
        }
        Some(m)
    } else if !has_sql {
        Some("ctx.datasource().build(): call .fromQuery(sql) before .build()".to_owned())
    } else if !has_factory {
        let mut m = String::new();
        push_str(&mut m, "ctx.datasource('");
        push_str(&mut m, ds_name);
        push_str(&mut m, "').build(): DriverFactory not available");
        proof {
            assert(m@ =~= "ctx.datasource('"@ + ds_name@ + "').build(): DriverFactory not available"@);
        }
        Some(m)
    } else {
        None
    }
}

/// The error thrown when a built datasource query fails: connecting
/// (`connecting`) or running the query failed with `cause`.
pub fn datasource_build_error(connecting: bool, cause: &str) -> (r: String)
    ensures
        r@ == "ctx.datasource().build() error: "@ + (if connecting {
            "connection failed: "@
        } else {
            "query failed: "@
        }) + cause@,
{
    let mut m = String::new();
    push_str(&mut m, "ctx.datasource().build() error: ");
    if connecting {
        push_str(&mut m, "connection failed: ");
    } else {
        push_str(&mut m, "query failed: ");
    }
    push_str(&mut m, cause);
    m
}

/// The text after the last `:` of a datasource name (the whole name when
/// it has none).
pub open spec fn after_last_colon(s: Seq<char>) -> Seq<char>
    decreases s.len(),
{
    if s.len() == 0 {
        s
    } else if s.last() == ':' {
        Seq::empty()
    } else {
        after_last_colon(s.drop_last()).push(s.last())
    }
}

/// The driver used for DDL on a datasource: the configured `driver`
/// option, else the last `:`-separated part of the datasource name.
pub fn ddl_driver_name(configured: Option<&str>, datasource: &str) -> (r: String)
    ensures
        r@ == match configured {
            Some(d) => d@,
            None => after_last_colon(datasource@),
        },
{
    match configured {
        Some(d) => d.to_owned(),
        None => {
            let v = chars_of(datasource);
            let mut acc: Vec<char> = Vec::new();
            let mut i: usize = 0;
            while i < v.len()
                invariant
                    v@ == datasource@,
                    i <= v@.len(),
                    acc@ == after_last_colon(v@.take(i as int)),
                decreases v@.len() - i,
            {
                proof {
                    assert(v@.take(i + 1).drop_last() =~= v@.take(i as int));
                }
                if v[i] == ':' {
                    acc = Vec::new();
                    proof {
                        assert(acc@ =~= Seq::<char>::empty());
                    }
                } else {
                    acc.push(v[i]);
                }
                i = i + 1;
            }
            proof {
                assert(v@.take(v@.len() as int) =~= datasource@);
            }
            crate::text::string_of(acc.as_slice())
        },
    }
}

/// The message refusing DDL outside the whitelist.
pub fn ddl_not_permitted_message(database: &str, datasource: &str, app_id: &str) -> (r: String)
    ensures
        r@ == "DDL not permitted for database '"@ + database@ + "' (datasource '"@ + datasource@
            + "') in app '"@ + app_id@ + "'"@,
{
    let mut m = String::new();
    push_str(&mut m, "DDL not permitted for database '");
    push_str(&mut m, database);
    push_str(&mut m, "' (datasource '");
    push_str(&mut m, datasource);
    push_str(&mut m, "') in app '");
    push_str(&mut m, app_id);
    push_str(&mut m, "'");
    proof {
        assert(m@ =~= "DDL not permitted for database '"@ + database@ + "' (datasource '"@
            + datasource@ + "') in app '"@ + app_id@ + "'"@);
    }
    m
}

/// The database checked against the DDL whitelist: the datasource's
/// configured database, or the datasource name when none is configured.
pub fn ddl_database<'a>(configured: &'a str, datasource: &'a str) -> (r: &'a str)
    ensures
        r@ == if configured@.len() == 0 {
            datasource@
        } else {
            configured@
        },
{
    if configured.is_empty() {
        datasource
    } else {
        configured
    }
}

/// The URL a gossip message is posted to on a peer.
pub fn gossip_url(peer: &str) -> (r: String)
    ensures
        r@ == peer@ + "/gossip/receive"@,
{
    let mut s = String::new();
    push_str(&mut s, peer);
    push_str(&mut s, "/gossip/receive");
    s
}

/// Which capability namespaces of the `Rivers` global a task gets.
#[derive(PartialEq, Eq, Structural, Clone, Copy, Debug)]
pub struct RiversGlobalPlan {
    /// `Rivers.http` (outbound HTTP): only when the task was given an HTTP
    /// client, that is when its view allows outbound HTTP; otherwise
    /// `Rivers.http` stays undefined.
    pub http: bool,
    /// `Rivers.keystore`: only when the task has an application keystore.
    pub keystore: bool,
}

/// Decides which capability namespaces the `Rivers` global gets.
pub fn rivers_global_plan(has_http_client: bool, has_keystore: bool) -> (r: RiversGlobalPlan)
    ensures
        r.http == has_http_client,
        r.keystore == has_keystore,
{
    RiversGlobalPlan { http: has_http_client, keystore: has_keystore }
}

/// The methods installed on `Rivers.http`, in order, when it is installed.
pub open spec fn http_members() -> Seq<Seq<char>> {
    seq!["get"@, "post"@, "put"@, "del"@]
}

/// The methods installed on `Rivers.http` under a plan: `get`, `post`,
/// `put` and `del` when the plan installs it, none otherwise.
pub fn rivers_http_members(plan: &RiversGlobalPlan) -> (r: Vec<&'static str>)
    ensures
        plan.http ==> r@.len() == 4 && forall|i: int| 0 <= i < 4 ==> #[trigger] r@[i]@
            == http_members()[i],
        !plan.http ==> r@.len() == 0,
{
    if plan.http {
        vec!["get", "post", "put", "del"]
    } else {
        Vec::new()
    }
}

} // verus!
