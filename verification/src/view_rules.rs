//! Decisions the view dispatcher takes for a matched route: per-view rate
//! limits, the dispatch branch by view type, request limits, DataView
//! namespacing, guard sessions, circuit-breaker answers and the MCP
//! JSON-RPC entry rules.

use vstd::prelude::*;
use vstd::string::*;
use crate::json::{json_quoted, json_string_literal};
use crate::rate_limit::{RateLimitConfig, RateLimitStrategy};
use crate::text::{chars_of, decimal, push_decimal, push_str, str_eq, starts_with};

verus! {

/// The rate limit of a view that declares `rpm` requests per minute:
/// none unless `rpm` is positive; the burst is the declared one or half
/// the rate, and at least one; clients are told apart by address.
pub fn view_rate_limit_config(rpm: Option<u32>, burst: Option<u32>) -> (r: Option<RateLimitConfig>)
    ensures
        match rpm {
            Some(n) => if n > 0 {
                r matches Some(c) && c.requests_per_minute == n && c.burst_size == (if (match burst {
                    Some(b) => b,
                    None => n / 2,
                }) >= 1 {
                    match burst {
                        Some(b) => b,
                        None => n / 2,
                    }
                } else {
                    1u32
                }) && c.strategy == RateLimitStrategy::Ip
            } else {
                r is None
            },
            None => r is None,
        },
{
    match rpm {
        Some(n) => {
            if n > 0 {
                let b = match burst {
                    Some(b) => b,
                    None => n / 2,
                };
                let b = if b >= 1 {
                    b
                } else {
                    1
                };
                Some(
                    RateLimitConfig {
                        requests_per_minute: n,
                        burst_size: b,
                        strategy: RateLimitStrategy::Ip,
                    },
                )
            } else {
                None
            }
        },
        None => None,
    }
}

/// How a matched view is served.
#[derive(PartialEq, Eq, Structural, Clone, Copy, Debug)]
pub enum ViewKind {
    ServerSentEvents,
    Websocket,
    Mcp,
    Rest,
}

/// The dispatch branch of a view type; every type other than SSE,
/// WebSocket and MCP is served as REST.
pub fn view_kind(view_type: &str) -> (r: ViewKind)
    ensures
        r == if view_type@ == "ServerSentEvents"@ {
            ViewKind::ServerSentEvents
        } else if view_type@ == "Websocket"@ {
            ViewKind::Websocket
        } else if view_type@ == "Mcp"@ {
            ViewKind::Mcp
        } else {
            ViewKind::Rest
        },
{
    if str_eq(view_type, "ServerSentEvents") {
        ViewKind::ServerSentEvents
    } else if str_eq(view_type, "Websocket") {
        ViewKind::Websocket
    } else if str_eq(view_type, "Mcp") {
        ViewKind::Mcp
    } else {
        ViewKind::Rest
    }
}

/// Longest query string accepted, in bytes.
pub const MAX_QUERY_BYTES: usize = 8192;

/// The 414 message for a query string over the limit, if it is.
pub fn query_length_error(query: Option<&str>) -> (r: Option<String>)
    ensures
        match query {
            Some(q) => if q.spec_bytes().len() > MAX_QUERY_BYTES {
                r matches Some(m) && m@ == "query string exceeds maximum length ("@ + decimal(
                    q.spec_bytes().len(),
                ) + " > 8192 bytes)"@
            } else {
                r is None
            },
            None => r is None,
        },
{
    match query {
        Some(q) => {
            let n = q.as_bytes().len();
            if n > MAX_QUERY_BYTES {
                let mut m = String::new();
                push_str(&mut m, "query string exceeds maximum length (");
                push_decimal(&mut m, n as u64);
                push_str(&mut m, " > 8192 bytes)");
                proof {
                    assert(m@ =~= "query string exceeds maximum length ("@ + decimal(
                        q.spec_bytes().len(),
                    ) + " > 8192 bytes)"@);
                }
                Some(m)
            } else {
                None
            }
        },
        None => None,
    }
}

/// Whether the request body is read: for every method but GET and HEAD.
pub fn reads_body(method: &str) -> (r: bool)
    ensures
        r == (method@ != "GET"@ && method@ != "HEAD"@),
{
    !str_eq(method, "GET") && !str_eq(method, "HEAD")
}

/// Whether a body is protobuf (its content type starts with
/// `application/x-protobuf`).
pub fn is_protobuf_body(content_type: Option<&str>) -> (r: bool)
    ensures
        r == match content_type {
            Some(c) => crate::text::has_prefix(c@, "application/x-protobuf"@),
            None => false,
        },
{
    match content_type {
        Some(c) => {
            let v = chars_of(c);
            let p = chars_of("application/x-protobuf");
            starts_with(v.as_slice(), p.as_slice())
        },
        None => false,
    }
}

/// How a view's request body is taken.
pub enum RequestBody {
    /// No body: the handler sees `null`.
    Null,
    /// These bytes, read as JSON (`null` when they are not JSON).
    JsonBytes(Vec<u8>),
    /// The request is refused with this status and body.
    Refused { status: u16, body: String },
}

/// The refusal body for protobuf that does not decode (the reason is
/// written as it is).
pub open spec fn protobuf_refusal(reason: Seq<char>) -> Seq<char> {
    "{\"error\":\"protobuf decode failed: "@ + reason + "\"}"@
}

/// Takes a view's request body: none for GET and HEAD, or when it could
/// not be read or is empty; protobuf is handed, with the request path, to
/// the transcoder `transcode`, whose JSON output is used, except that a
/// path naming no OTLP signal keeps the raw bytes and a body that does not
/// decode is refused with 415; any other body is used as it is.
pub fn view_request_body<F>(method: &str, body: Option<&[u8]>, is_protobuf: bool, path: &str, transcode: F) -> (r: RequestBody) where
    F: FnOnce(&str, &[u8]) -> Result<Vec<u8>, crate::otlp::TranscodeError>,

    requires
        match body {
            Some(b) => transcode.requires((path, b)),
            None => true,
        },
    ensures
        method@ == "GET"@ || method@ == "HEAD"@ || body is None || body->0@.len() == 0 ==> r is Null,
        method@ != "GET"@ && method@ != "HEAD"@ && (body matches Some(b) && b@.len() > 0)
            && !is_protobuf ==> (r matches RequestBody::JsonBytes(x) && x@ == body->0@),
        method@ != "GET"@ && method@ != "HEAD"@ && (body matches Some(b) && b@.len() > 0)
            && is_protobuf ==> exists|t: Result<Vec<u8>, crate::otlp::TranscodeError>|
            transcode.ensures((path, body->0), t) && match t {
                Ok(j) => r matches RequestBody::JsonBytes(x) && x@ == j@,
                Err(crate::otlp::TranscodeError::UnknownSignal(_)) => r matches RequestBody::JsonBytes(x)
                    && x@ == body->0@,
                Err(crate::otlp::TranscodeError::DecodeFailed { reason }) => r matches RequestBody::Refused {
                    status,
                    body: m,
                } && status == 415 && m@ == protobuf_refusal(reason@),
            },
{
    if !reads_body(method) {
        return RequestBody::Null;
    }
    let b = match body {
        Some(b) => b,
        None => {
            return RequestBody::Null;
        },
    };
    if b.len() == 0 {
        return RequestBody::Null;
    }
    if !is_protobuf {
        return RequestBody::JsonBytes(vstd::slice::slice_to_vec(b));
    }
    match transcode(path, b) {
        Ok(j) => RequestBody::JsonBytes(j),
        Err(crate::otlp::TranscodeError::UnknownSignal(_)) => RequestBody::JsonBytes(
            vstd::slice::slice_to_vec(b),
        ),
        Err(crate::otlp::TranscodeError::DecodeFailed { reason }) => {
            let mut m = String::new();
            push_str(&mut m, "{\"error\":\"protobuf decode failed: ");
            push_str(&mut m, reason.as_str());
            push_str(&mut m, "\"}");
            proof {
                assert(m@ =~= protobuf_refusal(reason@));
            }
            RequestBody::Refused { status: 415, body: m }
        },
    }
}

/// The DataView a view's handler names, resolved in its app's namespace:
/// `entry:dataview` when the app has an entry point.
pub fn namespaced_dataview(entry_point: &str, dataview: &str) -> (r: String)
    ensures
        r@ == if entry_point@.len() == 0 {
            dataview@
        } else {
            entry_point@ + ":"@ + dataview@
        },
{
    if entry_point.is_empty() {
        dataview.to_owned()
    } else {
        let mut s = String::new();
        push_str(&mut s, entry_point);
        push_str(&mut s, ":");
        push_str(&mut s, dataview);
        s
    }
}

/// A claim of a guard's session claims: absent, a string, or some other
/// JSON value.
pub enum Claim {
    Absent,
    Text(String),
    Other,
}

/// The subject of a session created from guard claims: the first of `sub`,
/// `subject` and `username` that is present, when it is a string;
/// otherwise `anonymous`.
pub open spec fn subject_of(sub: Claim, subject: Claim, username: Claim) -> Seq<char> {
    let first = if !(sub is Absent) {
        sub
    } else if !(subject is Absent) {
        subject
    } else {
        username
    };
    match first {
        Claim::Text(s) => s@,
        _ => "anonymous"@,
    }
}

/// The subject of a session created from guard claims.
pub fn guard_session_subject(sub: Claim, subject: Claim, username: Claim) -> (r: String)
    ensures
        r@ == subject_of(sub, subject, username),
{
    let first = match sub {
        Claim::Absent => match subject {
            Claim::Absent => username,
            s => s,
        },
        s => s,
    };
    match first {
        Claim::Text(s) => s,
        _ => "anonymous".to_owned(),
    }
}

/// The JSON body answered when a DataView's circuit breaker is open.
pub open spec fn breaker_open_body(id: Seq<char>) -> Seq<char> {
    "{\"breakerId\":"@ + json_quoted(id) + ",\"error\":"@ + json_quoted(
        "circuit breaker '"@ + id + "' is open"@,
    ) + ",\"retryable\":true}"@
}

/// Status, retry-after seconds and body of the answer for an open
/// circuit breaker.
pub fn circuit_open_response(breaker_id: &str) -> (r: (u16, u64, String))
    ensures
        r.0 == 503,
        r.1 == 30,
        r.2@ == breaker_open_body(breaker_id@),
{
    let mut msg = String::new();
    push_str(&mut msg, "circuit breaker '");
    push_str(&mut msg, breaker_id);
    push_str(&mut msg, "' is open");
    let mut s = String::new();
    push_str(&mut s, "{\"breakerId\":");
    let q = json_string_literal(breaker_id);
    push_str(&mut s, q.as_str());
    push_str(&mut s, ",\"error\":");
    let e = json_string_literal(msg.as_str());
    push_str(&mut s, e.as_str());
    push_str(&mut s, ",\"retryable\":true}");
    proof {
        assert(msg@ =~= "circuit breaker '"@ + breaker_id@ + "' is open"@);
        assert(s@ =~= breaker_open_body(breaker_id@));
    }
    (503, 30, s)
}

/// The status recorded in a handler's audit event.
pub fn audit_status(succeeded: bool) -> (r: u16)
    ensures
        r == if succeeded {
            200u16
        } else {
            500u16
        },
{
    if succeeded {
        200
    } else {
        500
    }
}

/// Whether a response refreshes the CSRF cookie: when no cookie was set
/// yet and the request has a validated session and a CSRF manager.
pub fn rotates_csrf_cookie(cookies_set: bool, has_csrf_manager: bool, has_session_id: bool, session_active: bool) -> (r: bool)
    ensures
        r == (!cookies_set && has_csrf_manager && has_session_id && session_active),
{
    !cookies_set && has_csrf_manager && has_session_id && session_active
}

/// How an MCP request is served.
#[derive(PartialEq, Eq, Structural, Clone, Copy, Debug)]
pub enum McpRoute {
    /// Notification stream for an MCP session.
    EventStream,
    /// 400: an event stream asked for without a session id.
    MissingSession,
    /// The instructions document.
    Instructions,
    /// A JSON-RPC call or batch.
    JsonRpc,
}

/// Routes an MCP request: a GET accepting `text/event-stream` opens the
/// notification stream (a session id is required); any other GET serves
/// the instructions; everything else is JSON-RPC.
pub fn mcp_route(is_get: bool, accepts_event_stream: bool, has_session_id: bool) -> (r: McpRoute)
    ensures
        r == if is_get && accepts_event_stream {
            if has_session_id {
                McpRoute::EventStream
            } else {
                McpRoute::MissingSession
            }
        } else if is_get {
            McpRoute::Instructions
        } else {
            McpRoute::JsonRpc
        },
{
    if is_get && accepts_event_stream {
        if has_session_id {
            McpRoute::EventStream
        } else {
            McpRoute::MissingSession
        }
    } else if is_get {
        McpRoute::Instructions
    } else {
        McpRoute::JsonRpc
    }
}

/// Whether an MCP method needs a validated session: every method but
/// `initialize` and `ping`, when session storage is configured.
pub fn mcp_needs_session(method: &str, has_storage: bool) -> (r: bool)
    ensures
        r == (has_storage && method@ != "initialize"@ && method@ != "ping"@),
{
    has_storage && !str_eq(method, "initialize") && !str_eq(method, "ping")
}

/// The MCP session lifetime in seconds (3600 unless configured).
pub fn mcp_session_ttl(configured: Option<u64>) -> (r: u64)
    ensures
        r == match configured {
            Some(t) => t,
            None => 3600u64,
        },
{
    match configured {
        Some(t) => t,
        None => 3600,
    }
}

/// What happens to one JSON-RPC message: notifications (no id) get no
/// answer; calls that need a session and have none valid get a
/// session-required error; the rest are dispatched.
#[derive(PartialEq, Eq, Structural, Clone, Copy, Debug)]
pub enum McpCallAction {
    NoAnswer,
    SessionRequired,
    Dispatch,
}

/// Decides what happens to one JSON-RPC message.
pub fn mcp_call_action(has_id: bool, needs_session: bool, session_valid: bool) -> (r: McpCallAction)
    ensures
        r == if !has_id {
            McpCallAction::NoAnswer
        } else if needs_session && !session_valid {
            McpCallAction::SessionRequired
        } else {
            McpCallAction::Dispatch
        },
{
    if !has_id {
        McpCallAction::NoAnswer
    } else if needs_session && !session_valid {
        McpCallAction::SessionRequired
    } else {
        McpCallAction::Dispatch
    }
}

/// What the pre-flight of a named guard found.
#[derive(PartialEq, Eq, Structural, Clone, Copy, Debug)]
pub enum GuardPreflight {
    /// No bundle is loaded.
    NoBundle,
    /// The view's app is not in the bundle.
    AppMissing,
    /// The app has no view of the guard's name.
    GuardMissing,
    /// The guard view is not a code component.
    NotCodeComponent,
    /// The guard ran and allowed the request.
    Allowed,
    /// The guard ran and rejected the request.
    Rejected,
    /// Running the guard failed.
    DispatchFailed,
}

/// How a request is refused after a named guard's pre-flight: the status,
/// the message, and whether the response carries the trace id. An allowed
/// request goes on.
pub fn guard_preflight_refusal(p: GuardPreflight) -> (r: Option<(u16, &'static str, bool)>)
    ensures
        p == GuardPreflight::Allowed <==> r is None,
        p == GuardPreflight::NoBundle ==> (r matches Some((s, m, t)) && s == 500 && m@
            == "named guard pre-flight: bundle not loaded"@ && !t),
        p == GuardPreflight::AppMissing ==> (r matches Some((s, m, t)) && s == 500 && m@
            == "named guard pre-flight: app not found in bundle"@ && !t),
        p == GuardPreflight::GuardMissing ==> (r matches Some((s, m, t)) && s == 401 && m@
            == "named guard not configured"@ && !t),
        p == GuardPreflight::NotCodeComponent ==> (r matches Some((s, m, t)) && s == 401 && m@
            == "named guard misconfigured"@ && !t),
        p == GuardPreflight::Rejected ==> (r matches Some((s, m, t)) && s == 401 && m@
            == "guard rejected the request"@ && t),
        p == GuardPreflight::DispatchFailed ==> (r matches Some((s, m, t)) && s == 401 && m@
            == "guard dispatch failed"@ && t),
{
    match p {
        GuardPreflight::NoBundle => Some((500, "named guard pre-flight: bundle not loaded", false)),
        GuardPreflight::AppMissing => Some((500, "named guard pre-flight: app not found in bundle", false)),
        GuardPreflight::GuardMissing => Some((401, "named guard not configured", false)),
        GuardPreflight::NotCodeComponent => Some((401, "named guard misconfigured", false)),
        GuardPreflight::Allowed => None,
        GuardPreflight::Rejected => Some((401, "guard rejected the request", true)),
        GuardPreflight::DispatchFailed => Some((401, "guard dispatch failed", true)),
    }
}

/// Whether an app with these entry points answers to `namespace`.
pub open spec fn app_answers(app: (Option<Seq<char>>, Option<Seq<char>>), namespace: Seq<char>) -> bool {
    app.0 == Some(namespace) || app.1 == Some(namespace)
}

/// The entry points of apps, each as an optional view.
pub open spec fn entry_points_view(apps: Seq<(Option<String>, Option<String>)>) -> Seq<(Option<Seq<char>>, Option<Seq<char>>)> {
    Seq::new(
        apps.len(),
        |i: int|
            (
                match apps[i].0 {
                    Some(s) => Some(s@),
                    None => None,
                },
                match apps[i].1 {
                    Some(s) => Some(s@),
                    None => None,
                },
            ),
    )
}

fn opt_eq(o: &Option<String>, s: &str) -> (r: bool)
    ensures
        r == (match o {
            Some(x) => Some(x@),
            None => None,
        } == Some(s@)),
{
    match o {
        Some(x) => str_eq(x.as_str(), s),
        None => false,
    }
}

/// The first app, given by its entry point and its app entry point, that
/// answers to a view's namespace.
pub fn app_for_namespace(apps: &Vec<(Option<String>, Option<String>)>, namespace: &str) -> (r: Option<usize>)
    ensures
        match r {
            Some(i) => i < apps@.len() && app_answers(entry_points_view(apps@)[i as int], namespace@)
                && forall|j: int| 0 <= j < i ==> !app_answers(entry_points_view(apps@)[j], namespace@),
            None => forall|j: int| 0 <= j < apps@.len() ==> !app_answers(entry_points_view(apps@)[j], namespace@),
        },
{
    let ghost v = entry_points_view(apps@);
    let mut i: usize = 0;
    while i < apps.len()
        invariant
            i <= apps@.len(),
            v == entry_points_view(apps@),
            forall|j: int| 0 <= j < i ==> !app_answers(v[j], namespace@),
        decreases apps@.len() - i,
    {
        if opt_eq(&apps[i].0, namespace) || opt_eq(&apps[i].1, namespace) {
            return Some(i);
        }
        i = i + 1;
    }
    None
}

/// Where a request that reached the fallback handler goes.
#[derive(Debug)]
pub enum FallbackRoute {
    /// A registered view matched: the view dispatcher.
    View,
    /// The path lies under an app that failed to load: 503 with this
    /// message.
    AppUnavailable(String),
    /// The services list of an `app-main`.
    Services,
    /// The static file server.
    StaticFiles,
    /// Static files are off: 404 `not found`.
    NotFound,
}

/// The first of the failed apps (prefix, message), in the order given,
/// whose prefix starts `path`.
pub open spec fn failed_app_for(failed: Seq<(Seq<char>, Seq<char>)>, path: Seq<char>) -> Option<Seq<char>>
    decreases failed.len(),
{
    if failed.len() == 0 {
        None
    } else if crate::text::has_prefix(path, failed[0].0) {
        Some(failed[0].1)
    } else {
        failed_app_for(failed.drop_first(), path)
    }
}

/// The views of (prefix, message) pairs.
pub open spec fn failed_view(failed: Seq<(String, String)>) -> Seq<(Seq<char>, Seq<char>)> {
    Seq::new(failed.len(), |i: int| (failed[i].0@, failed[i].1@))
}

/// Where the fallback handler sends a request: a matched view first; then
/// a path under a failed app (the failed apps taken in the order given);
/// then `.../services`; then static files, when they are on.
pub fn fallback_route(view_matched: bool, failed: &Vec<(String, String)>, path: &str, static_enabled: bool) -> (r: FallbackRoute)
    ensures
        view_matched ==> r == FallbackRoute::View,
        !view_matched ==> match failed_app_for(failed_view(failed@), path@) {
            Some(m) => r matches FallbackRoute::AppUnavailable(x) && x@ == m,
            None => if crate::text::has_suffix(path@, "/services"@) {
                r == FallbackRoute::Services
            } else if static_enabled {
                r == FallbackRoute::StaticFiles
            } else {
                r == FallbackRoute::NotFound
            },
        },
{
    if view_matched {
        return FallbackRoute::View;
    }
    let p = chars_of(path);
    let ghost fv = failed_view(failed@);
    proof {
        assert(fv.skip(0) =~= fv);
    }
    let mut i: usize = 0;
    while i < failed.len()
        invariant
            !view_matched,
            i <= failed@.len(),
            fv == failed_view(failed@),
            p@ == path@,
            failed_app_for(fv, path@) == failed_app_for(fv.skip(i as int), path@),
        decreases failed@.len() - i,
    {
        let prefix = chars_of(failed[i].0.as_str());
        proof {
            assert(fv.skip(i as int)[0] == fv[i as int]);
            assert(fv.skip(i as int).drop_first() =~= fv.skip(i + 1));
        }
        if starts_with(p.as_slice(), prefix.as_slice()) {
            return FallbackRoute::AppUnavailable(failed[i].1.clone());
        }
        i = i + 1;
    }
    proof {
        assert(fv.skip(i as int) =~= Seq::<(Seq<char>, Seq<char>)>::empty());
    }
    let suffix = chars_of("/services");
    if crate::text::ends_with(p.as_slice(), suffix.as_slice()) {
        FallbackRoute::Services
    } else if static_enabled {
        FallbackRoute::StaticFiles
    } else {
        FallbackRoute::NotFound
    }
}

} // verus!
