//! OTLP/HTTP ingestion rules: signal routing by path, body size caps,
//! `Content-Encoding` decompression with a post-decompression cap,
//! `Content-Type` decoding, handler selection and the partial-success
//! response body.

use vstd::prelude::*;
use vstd::string::*;
use crate::json::{json_parse_error, json_quoted, json_string_literal, parse_json};
use crate::text::{
    ascii_lowercase, chars_eq, decimal, has_suffix, push_decimal, push_str, str_eq, string_of,
    trim, trim_lower,
};

verus! {

/// Body-size cap, in megabytes, when the view sets none.
pub const DEFAULT_MAX_BODY_MB: u32 = 4;

/// Post-decompression cap as a multiple of the raw cap (1.5x): the
/// numerator of the ratio.
pub const DECOMPRESSED_CAP_NUMERATOR: u64 = 3;

/// Post-decompression cap as a multiple of the raw cap (1.5x): the
/// denominator of the ratio.
pub const DECOMPRESSED_CAP_DENOMINATOR: u64 = 2;

/// Failures of the OTLP wire stages; each maps to an HTTP status.
#[derive(Debug)]
pub enum OtlpError {
    /// Body over the size limit (before or after decompression).
    BodyTooLarge { observed: usize, limit_bytes: u64 },
    /// `Content-Encoding` other than identity, gzip or deflate.
    UnsupportedEncoding(String),
    /// `Content-Type` other than JSON or protobuf.
    UnsupportedContentType(String),
    /// gzip or deflate stream that does not decode.
    DecompressionFailed(String),
    /// JSON body that does not parse.
    JsonParseFailed(String),
    /// Protobuf body that does not decode.
    ProtobufDecodeFailed(String),
    /// Path that names no OTLP signal.
    UnknownSignal(String),
    /// Signal missing from a view that declares per-signal handlers.
    SignalNotConfigured(String),
}

/// The mathematical value of an `OtlpError`.
pub enum OtlpErrorView {
    BodyTooLarge { observed: nat, limit_bytes: nat },
    UnsupportedEncoding(Seq<char>),
    UnsupportedContentType(Seq<char>),
    DecompressionFailed(Seq<char>),
    JsonParseFailed(Seq<char>),
    ProtobufDecodeFailed(Seq<char>),
    UnknownSignal(Seq<char>),
    SignalNotConfigured(Seq<char>),
}

/// The HTTP status of an error.
pub open spec fn status_of(e: OtlpErrorView) -> u16 {
    match e {
        OtlpErrorView::BodyTooLarge { .. } => 413,
        OtlpErrorView::UnsupportedEncoding(_) => 415,
        OtlpErrorView::UnsupportedContentType(_) => 415,
        OtlpErrorView::DecompressionFailed(_) => 415,
        OtlpErrorView::ProtobufDecodeFailed(_) => 415,
        OtlpErrorView::JsonParseFailed(_) => 400,
        OtlpErrorView::UnknownSignal(_) => 404,
        OtlpErrorView::SignalNotConfigured(_) => 404,
    }
}

/// The human-readable message of an error.
pub open spec fn message_of(e: OtlpErrorView) -> Seq<char> {
    match e {
        OtlpErrorView::BodyTooLarge { observed, limit_bytes } => "body exceeds OTLP size limit ("@
            + decimal(observed) + " bytes > "@ + decimal(limit_bytes) + " bytes)"@,
        OtlpErrorView::UnsupportedEncoding(s) => "OTLP Content-Encoding '"@ + s
            + "' not supported"@,
        OtlpErrorView::UnsupportedContentType(s) =>
            "OTLP requires application/json or application/x-protobuf, got '"@ + s + "'"@,
        OtlpErrorView::DecompressionFailed(s) => "OTLP decompression failed: "@ + s,
        OtlpErrorView::JsonParseFailed(s) => "OTLP JSON parse failed: "@ + s,
        OtlpErrorView::ProtobufDecodeFailed(s) => "protobuf decode failed: "@ + s,
        OtlpErrorView::UnknownSignal(p) => "OTLP path '"@ + p
            + "' does not match /v1/{metrics,logs,traces}"@,
        OtlpErrorView::SignalNotConfigured(s) => "OTLP signal '"@ + s
            + "' not configured on this view"@,
    }
}

impl OtlpError {
    pub open spec fn view(&self) -> OtlpErrorView {
        match self {
            OtlpError::BodyTooLarge { observed, limit_bytes } => OtlpErrorView::BodyTooLarge {
                observed: *observed as nat,
                limit_bytes: *limit_bytes as nat,
            },
            OtlpError::UnsupportedEncoding(s) => OtlpErrorView::UnsupportedEncoding(s@),
            OtlpError::UnsupportedContentType(s) => OtlpErrorView::UnsupportedContentType(s@),
            OtlpError::DecompressionFailed(s) => OtlpErrorView::DecompressionFailed(s@),
            OtlpError::JsonParseFailed(s) => OtlpErrorView::JsonParseFailed(s@),
            OtlpError::ProtobufDecodeFailed(s) => OtlpErrorView::ProtobufDecodeFailed(s@),
            OtlpError::UnknownSignal(s) => OtlpErrorView::UnknownSignal(s@),
            OtlpError::SignalNotConfigured(s) => OtlpErrorView::SignalNotConfigured(s@),
        }
    }

    /// HTTP status code: 413 for size, 415 for encoding, content type,
    /// decompression and protobuf failures, 400 for JSON parse failures,
    /// 404 for unknown or unconfigured signals.
    pub fn status(&self) -> (r: u16)
        ensures
            r == status_of(self.view()),
    {
        match self {
            OtlpError::BodyTooLarge { .. } => 413,
            OtlpError::UnsupportedEncoding(_) => 415,
            OtlpError::UnsupportedContentType(_) => 415,
            OtlpError::DecompressionFailed(_) => 415,
            OtlpError::ProtobufDecodeFailed(_) => 415,
            OtlpError::JsonParseFailed(_) => 400,
            OtlpError::UnknownSignal(_) => 404,
            OtlpError::SignalNotConfigured(_) => 404,
        }
    }

    /// Human-readable message embedded in the error body.
    pub fn message(&self) -> (r: String)
        ensures
            r@ == message_of(self.view()),
    {
        let mut s = String::new();
        match self {
            OtlpError::BodyTooLarge { observed, limit_bytes } => {
                push_str(&mut s, "body exceeds OTLP size limit (");
                push_decimal(&mut s, *observed as u64);
                push_str(&mut s, " bytes > ");
                push_decimal(&mut s, *limit_bytes);
                push_str(&mut s, " bytes)");
            },
            OtlpError::UnsupportedEncoding(e) => {
                push_str(&mut s, "OTLP Content-Encoding '");
                push_str(&mut s, e.as_str());
                push_str(&mut s, "' not supported");
            },
            OtlpError::UnsupportedContentType(c) => {
                push_str(&mut s, "OTLP requires application/json or application/x-protobuf, got '");
                push_str(&mut s, c.as_str());
                push_str(&mut s, "'");
            },
            OtlpError::DecompressionFailed(m) => {
                push_str(&mut s, "OTLP decompression failed: ");
                push_str(&mut s, m.as_str());
            },
            OtlpError::JsonParseFailed(m) => {
                push_str(&mut s, "OTLP JSON parse failed: ");
                push_str(&mut s, m.as_str());
            },
            OtlpError::ProtobufDecodeFailed(m) => {
                push_str(&mut s, "protobuf decode failed: ");
                push_str(&mut s, m.as_str());
            },
            OtlpError::UnknownSignal(p) => {
                push_str(&mut s, "OTLP path '");
                push_str(&mut s, p.as_str());
                push_str(&mut s, "' does not match /v1/{metrics,logs,traces}");
            },
            OtlpError::SignalNotConfigured(k) => {
                push_str(&mut s, "OTLP signal '");
                push_str(&mut s, k.as_str());
                push_str(&mut s, "' not configured on this view");
            },
        }
        proof {
            assert(s@ =~= message_of(self.view()));
        }
        s
    }

    /// The JSON error body `{"error":"<message>"}`.
    pub fn error_body(&self) -> (r: String)
        ensures
            r@ == "{\"error\":"@ + json_quoted(message_of(self.view())) + "}"@,
    {
        let m = self.message();
        let q = json_string_literal(m.as_str());
        let mut s = String::new();
        push_str(&mut s, "{\"error\":");
        push_str(&mut s, q.as_str());
        push_str(&mut s, "}");
        proof {
            assert(s@ =~= "{\"error\":"@ + json_quoted(message_of(self.view())) + "}"@);
        }
        s
    }
}

/// `s` without its trailing `/` characters.
pub open spec fn trim_trailing_slashes(s: Seq<char>) -> Seq<char>
    decreases s.len(),
{
    if s.len() > 0 && s.last() == '/' {
        trim_trailing_slashes(s.drop_last())
    } else {
        s
    }
}

/// The signal named by a request path: the path, without trailing
/// slashes, ends in `/v1/metrics`, `/v1/logs` or `/v1/traces`.
pub open spec fn signal_of_path(path: Seq<char>) -> Option<Seq<char>> {
    let t = trim_trailing_slashes(path);
    if has_suffix(t, "/v1/metrics"@) {
        Some("metrics"@)
    } else if has_suffix(t, "/v1/logs"@) {
        Some("logs"@)
    } else if has_suffix(t, "/v1/traces"@) {
        Some("traces"@)
    } else {
        None
    }
}

proof fn lemma_trim_slashes_prefix(s: Seq<char>, k: int)
    requires
        0 <= k <= s.len(),
        forall|j: int| k <= j < s.len() ==> s[j] == '/',
        k == 0 || s[k - 1] != '/',
    ensures
        trim_trailing_slashes(s) == s.subrange(0, k),
    decreases s.len() - k,
{
    if k < s.len() {
        assert(s.drop_last().subrange(0, k) =~= s.subrange(0, k));
        lemma_trim_slashes_prefix(s.drop_last(), k);
    } else {
        assert(s.subrange(0, k) =~= s);
    }
}

/// Trailing slashes do not change the signal a path names.
pub proof fn law_trailing_slash_is_ignored(path: Seq<char>)
    ensures
        signal_of_path(path.push('/')) == signal_of_path(path),
{
    assert(path.push('/').drop_last() =~= path);
}

proof fn lemma_suffix_of_join(prefix: Seq<char>, tail: Seq<char>)
    ensures
        has_suffix(prefix + tail, tail),
{
    assert((prefix + tail).subrange(prefix.len() as int, (prefix + tail).len() as int) =~= tail);
}

/// A path ending in `/v1/metrics`, `/v1/logs` or `/v1/traces` names that
/// signal, whatever prefix the view is mounted at.
pub proof fn law_any_prefix_names_the_signal(prefix: Seq<char>)
    ensures
        signal_of_path(prefix + "/v1/metrics"@) == Some("metrics"@),
        signal_of_path(prefix + "/v1/logs"@) == Some("logs"@),
        signal_of_path(prefix + "/v1/traces"@) == Some("traces"@),
{
    reveal_strlit("/v1/metrics");
    reveal_strlit("/v1/logs");
    reveal_strlit("/v1/traces");
    let m = prefix + "/v1/metrics"@;
    let l = prefix + "/v1/logs"@;
    let t = prefix + "/v1/traces"@;
    assert(m.last() == 's');
    assert(l.last() == 's');
    assert(t.last() == 's');
    lemma_suffix_of_join(prefix, "/v1/metrics"@);
    lemma_suffix_of_join(prefix, "/v1/logs"@);
    lemma_suffix_of_join(prefix, "/v1/traces"@);
    assert(!has_suffix(l, "/v1/metrics"@)) by {
        if has_suffix(l, "/v1/metrics"@) {
            assert(l.subrange(l.len() - 11, l.len() as int)[7] == l[l.len() - 4]);
            assert(l[l.len() - 4] == 'l');
        }
    }
    assert(!has_suffix(t, "/v1/metrics"@)) by {
        if has_suffix(t, "/v1/metrics"@) {
            assert(t.subrange(t.len() - 11, t.len() as int)[8] == t[t.len() - 3]);
            assert(t[t.len() - 3] == 'c');
            assert(t.subrange(t.len() - 11, t.len() as int)[7] == t[t.len() - 4]);
            assert(t[t.len() - 4] == 'a');
        }
    }
    assert(!has_suffix(t, "/v1/logs"@)) by {
        if has_suffix(t, "/v1/logs"@) {
            assert(t.subrange(t.len() - 8, t.len() as int)[4] == t[t.len() - 4]);
            assert(t[t.len() - 4] == 'a');
        }
    }
}

/// A gzip or deflate body is never decompressed beyond the cap: what is
/// accepted fits in it, and decoded output that runs past it is refused as
/// too large.
pub proof fn law_decompressed_body_within_cap(body: Seq<u8>, enc: Seq<char>, cap: u64)
    requires
        enc == "gzip"@ || enc == "deflate"@,
    ensures
        decompressed(body, Some(enc), cap) matches Ok(d) ==> d.len() <= cap,
        ({
            let inflated = if enc == "gzip"@ {
                gzip_inflated(body, sat_add(cap, 1))
            } else {
                deflate_inflated(body, sat_add(cap, 1))
            };
            inflated matches Ok(v) ==> (v.len() > cap ==> decompressed(body, Some(enc), cap)
                == Err::<Seq<u8>, OtlpErrorView>(
                OtlpErrorView::BodyTooLarge { observed: v.len(), limit_bytes: cap as nat },
            ))
        }),
{
    reveal_strlit("gzip");
    reveal_strlit("deflate");
    reveal_strlit("identity");
    assert(enc.len() > 0);
    assert(enc != "identity"@) by {
        if enc == "identity"@ {
            assert("identity"@.len() == 8);
        }
    }
}

/// The OTLP signal (`metrics`, `logs` or `traces`) addressed by a request
/// path, whatever prefix the view was mounted at; trailing slashes are
/// ignored. Any other path is an unknown signal, carried in the error.
pub fn signal_from_path(path: &str) -> (r: Result<&'static str, OtlpError>)
    ensures
        match signal_of_path(path@) {
            Some(k) => r matches Ok(s) && s@ == k,
            None => r matches Err(e) && e.view() == OtlpErrorView::UnknownSignal(path@),
        },
{
    let v = crate::text::chars_of(path);
    let mut k: usize = v.len();
    while k > 0 && v[k - 1] == '/'
        invariant
            k <= v@.len(),
            forall|j: int| k <= j < v@.len() ==> v@[j] == '/',
        decreases k,
    {
        k = k - 1;
    }
    proof {
        lemma_trim_slashes_prefix(v@, k as int);
    }
    let trimmed = crate::text::slice_prefix(v.as_slice(), k);
    let m = crate::text::chars_of("/v1/metrics");
    let l = crate::text::chars_of("/v1/logs");
    let t = crate::text::chars_of("/v1/traces");
    if crate::text::ends_with(trimmed.as_slice(), m.as_slice()) {
        Ok("metrics")
    } else if crate::text::ends_with(trimmed.as_slice(), l.as_slice()) {
        Ok("logs")
    } else if crate::text::ends_with(trimmed.as_slice(), t.as_slice()) {
        Ok("traces")
    } else {
        Err(OtlpError::UnknownSignal(path.to_owned()))
    }
}

/// The partial-success field that counts rejections for a signal.
pub open spec fn rejected_field(kind: Seq<char>) -> Seq<char> {
    if kind == "logs"@ {
        "rejectedLogRecords"@
    } else if kind == "traces"@ {
        "rejectedSpans"@
    } else {
        "rejectedDataPoints"@
    }
}

/// The OTLP partial-success field name for a signal kind: rejected log
/// records for logs, rejected spans for traces, rejected data points for
/// metrics and anything else.
pub fn rejected_field_for_signal(kind: &str) -> (r: &'static str)
    ensures
        r@ == rejected_field(kind@),
{
    if str_eq(kind, "logs") {
        "rejectedLogRecords"
    } else if str_eq(kind, "traces") {
        "rejectedSpans"
    } else {
        "rejectedDataPoints"
    }
}

/// The first `limit` bytes that gzip-decoding the whole of `body` yields
/// (all of them when there are fewer), or the decoder's error message.
pub uninterp spec fn gzip_inflated(body: Seq<u8>, limit: u64) -> Result<Seq<u8>, Seq<char>>;

/// The first `limit` bytes that deflate-decoding the whole of `body`
/// yields (all of them when there are fewer), or the decoder's error
/// message.
pub uninterp spec fn deflate_inflated(body: Seq<u8>, limit: u64) -> Result<Seq<u8>, Seq<char>>;

/// The view of a decoder outcome.
pub open spec fn inflate_view(r: Result<Vec<u8>, String>) -> Result<Seq<u8>, Seq<char>> {
    match r {
        Ok(v) => Ok(v@),
        Err(e) => Err(e@),
    }
}

/// Decodes the whole of `body` as a gzip stream with
/// `flate2::read::GzDecoder`, reading its output through `Read::take` so
/// that at most `limit` decoded bytes are ever produced and held. The
/// outcome is named `gzip_inflated(body, limit)`; `take` bounds what comes
/// back by `limit`.
#[verifier::external_body]
fn gunzip(body: &[u8], limit: u64) -> (r: Result<Vec<u8>, String>)
    ensures
        inflate_view(r) == gzip_inflated(body@, limit),
        r matches Ok(v) ==> v.len() <= limit,
{
    let mut out = Vec::new();
    let decoder = flate2::read::GzDecoder::new(body);
    match std::io::Read::read_to_end(&mut std::io::Read::take(decoder, limit), &mut out) {
        Ok(_) => Ok(out),
        Err(e) => Err(e.to_string()),
    }
}

/// Decodes the whole of `body` as a deflate stream with
/// `flate2::read::DeflateDecoder`, reading its output through
/// `Read::take` so that at most `limit` decoded bytes are ever produced
/// and held. The outcome is named `deflate_inflated(body, limit)`; `take`
/// bounds what comes back by `limit`.
#[verifier::external_body]
fn inflate(body: &[u8], limit: u64) -> (r: Result<Vec<u8>, String>)
    ensures
        inflate_view(r) == deflate_inflated(body@, limit),
        r matches Ok(v) ==> v.len() <= limit,
{
    let mut out = Vec::new();
    let decoder = flate2::read::DeflateDecoder::new(body);
    match std::io::Read::read_to_end(&mut std::io::Read::take(decoder, limit), &mut out) {
        Ok(_) => Ok(out),
        Err(e) => Err(e.to_string()),
    }
}

/// The outcome of decoding with a decoder outcome `d` under `cap`:
/// the decoded bytes when they fit, else the size error; a decoder error
/// is reported with its `label`.
pub open spec fn capped(d: Result<Seq<u8>, Seq<char>>, label: Seq<char>, cap: u64) -> Result<
    Seq<u8>,
    OtlpErrorView,
> {
    match d {
        Err(e) => Err(OtlpErrorView::DecompressionFailed(label + ": "@ + e)),
        Ok(v) => if v.len() > cap {
            Err(OtlpErrorView::BodyTooLarge { observed: v.len(), limit_bytes: cap as nat })
        } else {
            Ok(v)
        },
    }
}

/// `a + b`, saturating at `u64::MAX`.
pub open spec fn sat_add(a: u64, b: u64) -> u64 {
    if a + b > u64::MAX {
        u64::MAX
    } else {
        (a + b) as u64
    }
}

/// The outcome of decompressing `body` under `Content-Encoding` `enc`
/// (already trimmed and lowercased; `None` when absent): for gzip and
/// deflate, the first `cap + 1` decoded bytes of the whole body, refused as
/// too large when there are more than `cap` of them.
pub open spec fn decompressed(body: Seq<u8>, enc: Option<Seq<char>>, cap: u64) -> Result<
    Seq<u8>,
    OtlpErrorView,
> {
    match enc {
        None => Ok(body),
        Some(e) => if e.len() == 0 || e == "identity"@ {
            Ok(body)
        } else if e == "gzip"@ {
            capped(gzip_inflated(body, sat_add(cap, 1)), "gzip"@, cap)
        } else if e == "deflate"@ {
            capped(deflate_inflated(body, sat_add(cap, 1)), "deflate"@, cap)
        } else {
            Err(OtlpErrorView::UnsupportedEncoding(e))
        },
    }
}

/// The view of a header value after trimming and ASCII lowercasing.
pub open spec fn normalized_header(h: Option<&str>) -> Option<Seq<char>> {
    match h {
        Some(s) => Some(ascii_lowercase(trim(s@))),
        None => None,
    }
}

/// The view of a byte-vector outcome.
pub open spec fn bytes_outcome(r: Result<Vec<u8>, OtlpError>) -> Result<Seq<u8>, OtlpErrorView> {
    match r {
        Ok(v) => Ok(v@),
        Err(e) => Err(e.view()),
    }
}

fn capped_body(d: Result<Vec<u8>, String>, label: &str, cap: u64) -> (r: Result<Vec<u8>, OtlpError>)
    ensures
        bytes_outcome(r) == capped(inflate_view(d), label@, cap),
{
    match d {
        Err(e) => {
            let mut m = String::new();
            push_str(&mut m, label);
            push_str(&mut m, ": ");
            push_str(&mut m, e.as_str());
            Err(OtlpError::DecompressionFailed(m))
        },
        Ok(v) => {
            if v.len() as u64 > cap {
                Err(OtlpError::BodyTooLarge { observed: v.len(), limit_bytes: cap })
            } else {
                Ok(v)
            }
        },
    }
}

/// Decompresses an inbound body according to its `Content-Encoding`
/// (trimmed, case-insensitive): none, empty or `identity` pass the body
/// through; `gzip` and `deflate` hand the whole body to the decoder, stop
/// it once `cap_bytes + 1` decoded bytes are out, and refuse decoded output
/// longer than `cap_bytes` as too large; any other encoding is unsupported.
pub fn decompress_body(body: &[u8], encoding: Option<&str>, cap_bytes: u64) -> (r: Result<
    Vec<u8>,
    OtlpError,
>)
    ensures
        bytes_outcome(r) == decompressed(body@, normalized_header(encoding), cap_bytes),
{
    let enc = match encoding {
        None => {
            let v = vstd::slice::slice_to_vec(body);
            return Ok(v);
        },
        Some(s) => trim_lower(s),
    };
    let limit = cap_bytes.saturating_add(1);
    if enc.len() == 0 || chars_eq(enc.as_slice(), "identity") {
        Ok(vstd::slice::slice_to_vec(body))
    } else if chars_eq(enc.as_slice(), "gzip") {
        capped_body(gunzip(body, limit), "gzip", cap_bytes)
    } else if chars_eq(enc.as_slice(), "deflate") {
        capped_body(inflate(body, limit), "deflate", cap_bytes)
    } else {
        Err(OtlpError::UnsupportedEncoding(string_of(enc.as_slice())))
    }
}

/// The main part of a `Content-Type` header: the text before the first
/// `;`.
pub open spec fn before_semicolon(s: Seq<char>) -> Seq<char>
    decreases s.len(),
{
    if s.len() == 0 {
        s
    } else if s.last() == ';' && !s.drop_last().contains(';') {
        s.drop_last()
    } else if s.contains(';') {
        before_semicolon(s.drop_last())
    } else {
        s
    }
}

/// The media type of a `Content-Type` header: the part before `;`,
/// trimmed and lowercased; empty when the header is absent.
pub open spec fn media_type(h: Option<&str>) -> Seq<char> {
    match h {
        Some(s) => ascii_lowercase(trim(before_semicolon(s@))),
        None => Seq::empty(),
    }
}

/// How the protobuf transcoder fails.
pub enum TranscodeError {
    /// The path names no OTLP signal.
    UnknownSignal(String),
    /// The bytes do not decode as the signal's protobuf message.
    DecodeFailed { reason: String },
}

/// The outcome of checking transcoded protobuf as a JSON document: the
/// transcoder's errors mapped to OTLP errors, then the JSON parse; on
/// success the transcoder's JSON bytes, which parse.
pub open spec fn transcoded_outcome(t: Result<Vec<u8>, TranscodeError>) -> Result<
    (Seq<u8>, Seq<char>),
    OtlpErrorView,
> {
    match t {
        Err(TranscodeError::UnknownSignal(p)) => Err(OtlpErrorView::UnknownSignal(p@)),
        Err(TranscodeError::DecodeFailed { reason }) => Err(
            OtlpErrorView::ProtobufDecodeFailed(reason@),
        ),
        Ok(bytes) => match json_parse_error(bytes@) {
            Some(m) => Err(OtlpErrorView::JsonParseFailed("post-transcode: "@ + m)),
            None => Ok((bytes@, "protobuf"@)),
        },
    }
}

/// The outcome of a decode: the JSON document's bytes and the encoding
/// label, or the error.
pub open spec fn decode_outcome(r: Result<(Vec<u8>, &'static str), OtlpError>) -> Result<
    (Seq<u8>, Seq<char>),
    OtlpErrorView,
> {
    match r {
        Ok((bytes, label)) => Ok((bytes@, label@)),
        Err(e) => Err(e.view()),
    }
}

fn media_type_of(content_type: Option<&str>) -> (r: Vec<char>)
    ensures
        r@ == media_type(content_type),
{
    match content_type {
        None => Vec::new(),
        Some(s) => {
            let v = crate::text::chars_of(s);
            let mut k: usize = 0;
            while k < v.len() && v[k] != ';'
                invariant
                    k <= v@.len(),
                    forall|j: int| 0 <= j < k ==> v@[j] != ';',
                decreases v@.len() - k,
            {
                k = k + 1;
            }
            proof {
                lemma_before_semicolon(v@, k as int);
            }
            let head = crate::text::slice_prefix(v.as_slice(), k);
            let head_s = string_of(head.as_slice());
            trim_lower(head_s.as_str())
        },
    }
}

proof fn lemma_before_semicolon(s: Seq<char>, k: int)
    requires
        0 <= k <= s.len(),
        forall|j: int| 0 <= j < k ==> s[j] != ';',
        k == s.len() || s[k] == ';',
    ensures
        before_semicolon(s) == s.subrange(0, k),
    decreases s.len(),
{
    if s.len() == 0 {
    } else if k == s.len() {
        assert(!s.contains(';')) by {
            if s.contains(';') {
                let j = choose|j: int| 0 <= j < s.len() && s[j] == ';';
                assert(s[j] != ';');
            }
        }
        assert(s.subrange(0, k) =~= s);
    } else {
        assert(s.contains(';')) by {
            assert(s[k] == ';');
        }
        if k == s.len() - 1 {
            assert(!s.drop_last().contains(';')) by {
                if s.drop_last().contains(';') {
                    let j = choose|j: int| 0 <= j < s.drop_last().len() && s.drop_last()[j] == ';';
                    assert(s[j] != ';');
                }
            }
            assert(s.drop_last() =~= s.subrange(0, k));
        } else {
            assert(s.drop_last().contains(';')) by {
                assert(s.drop_last()[k] == ';');
            }
            assert(!(s.last() == ';' && !s.drop_last().contains(';')));
            lemma_before_semicolon(s.drop_last(), k);
            assert(s.drop_last().subrange(0, k) =~= s.subrange(0, k));
        }
    }
}

/// Checks the protobuf transcoder's result as a JSON document: its JSON
/// bytes when they parse, labelled `protobuf`.
pub fn decode_transcoded(t: Result<Vec<u8>, TranscodeError>) -> (r: Result<
    (Vec<u8>, &'static str),
    OtlpError,
>)
    ensures
        decode_outcome(r) == transcoded_outcome(t),
{
    match t {
        Err(TranscodeError::UnknownSignal(p)) => Err(OtlpError::UnknownSignal(p)),
        Err(TranscodeError::DecodeFailed { reason }) => Err(OtlpError::ProtobufDecodeFailed(reason)),
        Ok(bytes) => match parse_json(bytes.as_slice()) {
            Ok(_) => Ok((bytes, "protobuf")),
            Err(e) => {
                let mut m = String::new();
                push_str(&mut m, "post-transcode: ");
                push_str(&mut m, e.as_str());
                Err(OtlpError::JsonParseFailed(m))
            },
        },
    }
}

/// Decodes a body into a JSON document according to its `Content-Type`:
/// `application/json` bodies are the document themselves and must parse
/// as JSON; `application/x-protobuf` is handed, with the request path, to
/// the protobuf transcoder `transcode`, whose JSON output must parse;
/// anything else (an absent header included) is unsupported. Parameters
/// after `;` are ignored and the media type is compared without case. On
/// success the document's bytes come back (they parse as JSON) with the
/// encoding label.
pub fn decode_body<F>(body: &[u8], content_type: Option<&str>, path: &str, transcode: F) -> (r:
    Result<(Vec<u8>, &'static str), OtlpError>) where
    F: FnOnce(&str, &[u8]) -> Result<Vec<u8>, TranscodeError>,

    requires
        transcode.requires((path, body)),
    ensures
        media_type(content_type) == "application/json"@ ==> decode_outcome(r) == match
            json_parse_error(body@) {
            Some(m) => Err(OtlpErrorView::JsonParseFailed(m)),
            None => Ok((body@, "json"@)),
        },
        media_type(content_type) != "application/json"@ && media_type(content_type)
            == "application/x-protobuf"@ ==> exists|t: Result<Vec<u8>, TranscodeError>|
            transcode.ensures((path, body), t) && decode_outcome(r) == transcoded_outcome(t),
        media_type(content_type) != "application/json"@ && media_type(content_type)
            != "application/x-protobuf"@ ==> decode_outcome(r) == Err::<(Seq<u8>, Seq<char>), OtlpErrorView>(
            OtlpErrorView::UnsupportedContentType(media_type(content_type)),
        ),
{
    let ct = media_type_of(content_type);
    if chars_eq(ct.as_slice(), "application/json") {
        match parse_json(body) {
            Ok(_) => Ok((vstd::slice::slice_to_vec(body), "json")),
            Err(e) => Err(OtlpError::JsonParseFailed(e)),
        }
    } else if chars_eq(ct.as_slice(), "application/x-protobuf") {
        let t = transcode(path, body);
        decode_transcoded(t)
    } else {
        Err(OtlpError::UnsupportedContentType(string_of(ct.as_slice())))
    }
}

/// What a handler reported back: the number of rejected items (when it
/// returned one as an unsigned integer) and its error message (when it
/// returned one as a string).
pub struct HandlerReply {
    pub rejected: Option<u64>,
    pub error_message: Option<String>,
}

/// The OTLP response body for a handler reply: `{}` when nothing was
/// rejected; otherwise a `partialSuccess` object with the rejection count
/// under the signal's field and, when non-empty, the error message (keys
/// in sorted order).
pub open spec fn response_body(rejected: Option<u64>, message: Option<Seq<char>>, kind: Seq<char>) -> Seq<
    char,
> {
    let n: u64 = match rejected {
        Some(n) => n,
        None => 0,
    };
    if n == 0 {
        "{}"@
    } else {
        "{\"partialSuccess\":{"@ + match message {
            Some(m) => if m.len() > 0 {
                "\"errorMessage\":"@ + json_quoted(m) + ","@
            } else {
                Seq::empty()
            },
            None => Seq::empty(),
        } + "\""@ + rejected_field(kind) + "\":"@ + decimal(n as nat) + "}}"@
    }
}

/// The view of an optional string.
pub open spec fn opt_str_view(o: Option<String>) -> Option<Seq<char>> {
    match o {
        Some(s) => Some(s@),
        None => None,
    }
}

/// Shapes the OTLP response body from a handler's reply (spec of the
/// partial-success response).
pub fn shape_response_body(reply: &HandlerReply, kind: &str) -> (r: String)
    ensures
        r@ == response_body(reply.rejected, opt_str_view(reply.error_message), kind@),
{
    let n: u64 = match reply.rejected {
        Some(n) => n,
        None => 0,
    };
    let mut s = String::new();
    if n == 0 {
        push_str(&mut s, "{}");
        return s;
    }
    push_str(&mut s, "{\"partialSuccess\":{");
    let ghost mid = s@;
    match &reply.error_message {
        Some(m) => {
            if !m.as_str().is_empty() {
                push_str(&mut s, "\"errorMessage\":");
                let q = json_string_literal(m.as_str());
                push_str(&mut s, q.as_str());
                push_str(&mut s, ",");
            }
        },
        None => {},
    }
    push_str(&mut s, "\"");
    push_str(&mut s, rejected_field_for_signal(kind));
    push_str(&mut s, "\":");
    push_decimal(&mut s, n);
    push_str(&mut s, "}}");
    proof {
        assert(s@ =~= response_body(reply.rejected, opt_str_view(reply.error_message), kind@));
    }
    s
}

/// The handlers of an OTLP view: the single handler, and the per-signal
/// handlers when the view declares them (signal name, handler).
pub struct OtlpViewHandlers<H> {
    pub handler: H,
    pub handlers: Option<Vec<(String, H)>>,
}

/// Position of the first per-signal handler for `kind`, or -1.
pub open spec fn handler_index<H>(hs: Seq<(String, H)>, kind: Seq<char>) -> int
    decreases hs.len(),
{
    if hs.len() == 0 {
        -1
    } else if handler_index(hs.drop_last(), kind) >= 0 {
        handler_index(hs.drop_last(), kind)
    } else if hs.last().0@ == kind {
        hs.len() - 1
    } else {
        -1
    }
}

proof fn lemma_handler_index<H>(hs: Seq<(String, H)>, kind: Seq<char>, k: int)
    requires
        0 <= k <= hs.len(),
        forall|j: int| 0 <= j < k ==> hs[j].0@ != kind,
    ensures
        k < hs.len() && hs[k].0@ == kind ==> handler_index(hs, kind) == k,
        k == hs.len() ==> handler_index(hs, kind) == -1,
    decreases hs.len(),
{
    if hs.len() > 0 {
        if k < hs.len() && hs[k].0@ == kind {
            if k < hs.len() - 1 {
                lemma_handler_index(hs.drop_last(), kind, k);
            } else {
                lemma_handler_index(hs.drop_last(), kind, k);
            }
        } else if k == hs.len() {
            lemma_handler_index(hs.drop_last(), kind, k - 1);
        }
    }
}

/// Picks the handler for a signal: with per-signal handlers declared, the
/// one for `kind` (the view does not serve a signal it leaves out);
/// otherwise the single handler, for every signal.
pub fn pick_handler<'a, H>(view: &'a OtlpViewHandlers<H>, kind: &str) -> (r: Result<&'a H, OtlpError>)
    ensures
        view.handlers is None ==> (r matches Ok(h) && *h == view.handler),
        view.handlers is Some && handler_index(view.handlers->0@, kind@) >= 0 ==> (r matches Ok(h)
            && *h == view.handlers->0@[handler_index(view.handlers->0@, kind@)].1),
        view.handlers is Some && handler_index(view.handlers->0@, kind@) < 0 ==> (r matches Err(e)
            && e.view() == OtlpErrorView::SignalNotConfigured(kind@)),
{
    match &view.handlers {
        Some(hs) => {
            let mut i: usize = 0;
            while i < hs.len()
                invariant
                    view.handlers is Some,
                    view.handlers->0 == *hs,
                    i <= hs@.len(),
                    forall|j: int| 0 <= j < i ==> hs@[j].0@ != kind@,
                decreases hs@.len() - i,
            {
                if str_eq(hs[i].0.as_str(), kind) {
                    proof {
                        lemma_handler_index(hs@, kind@, i as int);
                    }
                    return Ok(&hs[i].1);
                }
                i = i + 1;
            }
            proof {
                lemma_handler_index(hs@, kind@, i as int);
            }
            Err(OtlpError::SignalNotConfigured(kind.to_owned()))
        },
        None => Ok(&view.handler),
    }
}

/// The raw body cap and the post-decompression cap, in bytes, for a view's
/// `max_body_mb` (default 4): megabytes times 2^20, and one and a half
/// times that.
pub fn otlp_body_caps(max_body_mb: Option<u32>) -> (r: (u64, u64))
    ensures
        r.0 == (match max_body_mb {
            Some(m) => m,
            None => DEFAULT_MAX_BODY_MB,
        }) as nat * 1048576,
        2 * r.1 == 3 * r.0,
{
    let mb: u32 = match max_body_mb {
        Some(m) => m,
        None => DEFAULT_MAX_BODY_MB,
    };
    let raw: u64 = (mb as u64) * 1024 * 1024;
    let dec: u64 = raw / DECOMPRESSED_CAP_DENOMINATOR * DECOMPRESSED_CAP_NUMERATOR;
    (raw, dec)
}

} // verus!
