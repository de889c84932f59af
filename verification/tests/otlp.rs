use riversd::otlp::{
    decode_body, decompress_body, otlp_body_caps, pick_handler, rejected_field_for_signal,
    shape_response_body, signal_from_path, HandlerReply, OtlpError, OtlpViewHandlers,
    TranscodeError,
};
use std::io::Write;

#[test]
fn signal_from_path_matches_canonical_endpoints() {
    assert_eq!(signal_from_path("/v1/metrics").unwrap(), "metrics");
    assert_eq!(signal_from_path("/v1/logs").unwrap(), "logs");
    assert_eq!(signal_from_path("/v1/traces").unwrap(), "traces");
    assert_eq!(signal_from_path("/otel/v1/metrics").unwrap(), "metrics");
    assert_eq!(signal_from_path("/telemetry/otel/v1/traces").unwrap(), "traces");
    assert_eq!(signal_from_path("/v1/metrics/").unwrap(), "metrics");
}

#[test]
fn signal_from_path_rejects_unknown_paths() {
    assert!(matches!(signal_from_path("/v1/foo"), Err(OtlpError::UnknownSignal(_))));
    assert!(matches!(signal_from_path("/otel"), Err(OtlpError::UnknownSignal(_))));
    assert!(matches!(signal_from_path("/v1/metricsx"), Err(OtlpError::UnknownSignal(_))));
}

#[test]
fn rejected_field_per_signal_matches_otlp_spec() {
    assert_eq!(rejected_field_for_signal("metrics"), "rejectedDataPoints");
    assert_eq!(rejected_field_for_signal("logs"), "rejectedLogRecords");
    assert_eq!(rejected_field_for_signal("traces"), "rejectedSpans");
    assert_eq!(rejected_field_for_signal("wat"), "rejectedDataPoints");
}

#[test]
fn decompress_identity_passes_body_through() {
    let body = b"hello";
    assert_eq!(decompress_body(body, None, 16).unwrap(), body);
    assert_eq!(decompress_body(body, Some(""), 16).unwrap(), body);
    assert_eq!(decompress_body(body, Some("identity"), 16).unwrap(), body);
}

#[test]
fn decompress_gzip_round_trips() {
    let mut enc = flate2::write::GzEncoder::new(Vec::new(), flate2::Compression::default());
    enc.write_all(b"{\"ok\":true}").unwrap();
    let gz = enc.finish().unwrap();
    let got = decompress_body(&gz, Some("gzip"), 1024).unwrap();
    assert_eq!(got, b"{\"ok\":true}");
}

#[test]
fn decompress_deflate_round_trips() {
    let mut enc = flate2::write::DeflateEncoder::new(Vec::new(), flate2::Compression::default());
    enc.write_all(b"abc").unwrap();
    let df = enc.finish().unwrap();
    let got = decompress_body(&df, Some("deflate"), 1024).unwrap();
    assert_eq!(got, b"abc");
}

#[test]
fn decompress_unknown_encoding_returns_415_class() {
    let err = decompress_body(b"x", Some("br"), 1024).unwrap_err();
    assert!(matches!(err, OtlpError::UnsupportedEncoding(_)));
    assert_eq!(err.status(), 415);
}

#[test]
fn decompress_zip_bomb_caught_by_cap() {
    let payload = b"A".repeat(10_000);
    let mut enc = flate2::write::GzEncoder::new(Vec::new(), flate2::Compression::best());
    enc.write_all(&payload).unwrap();
    let gz = enc.finish().unwrap();
    let err = decompress_body(&gz, Some("gzip"), 50).unwrap_err();
    assert!(matches!(err, OtlpError::BodyTooLarge { .. }));
    assert_eq!(err.status(), 413);
}

#[test]
fn decompress_encoding_is_trimmed_and_case_insensitive() {
    let mut enc = flate2::write::GzEncoder::new(Vec::new(), flate2::Compression::default());
    enc.write_all(b"xyz").unwrap();
    let gz = enc.finish().unwrap();
    assert_eq!(decompress_body(&gz, Some("  GZip "), 1024).unwrap(), b"xyz");
}

#[test]
fn decompress_corrupt_gzip_is_a_decompression_failure() {
    let err = decompress_body(b"not gzip at all", Some("gzip"), 1024).unwrap_err();
    match err {
        OtlpError::DecompressionFailed(m) => assert!(m.starts_with("gzip: ")),
        other => panic!("unexpected {:?}", other),
    }
}

fn no_transcoder(_: &str, _: &[u8]) -> Result<Vec<u8>, TranscodeError> {
    unreachable!("not a protobuf body")
}

#[test]
fn decode_json_body_round_trips() {
    let (v, enc) =
        decode_body(b"{\"a\":1}", Some("application/json"), "/v1/metrics", no_transcoder).unwrap();
    assert_eq!(v, b"{\"a\":1}".to_vec());
    let v: serde_json::Value = serde_json::from_slice(&v).unwrap();
    assert_eq!(v, serde_json::from_str::<serde_json::Value>("{\"a\":1}").unwrap());
    assert_eq!(enc, "json");
}

#[test]
fn decode_json_with_charset_param_accepted() {
    let (v, enc) = decode_body(
        b"{\"a\":1}",
        Some("application/json; charset=utf-8"),
        "/v1/metrics",
        no_transcoder,
    )
    .unwrap();
    let v: serde_json::Value = serde_json::from_slice(&v).unwrap();
    assert_eq!(v, serde_json::from_str::<serde_json::Value>("{\"a\":1}").unwrap());
    assert_eq!(enc, "json");
}

#[test]
fn decode_unknown_content_type_returns_415_class() {
    let err = decode_body(b"x", Some("text/plain"), "/v1/metrics", no_transcoder).unwrap_err();
    assert!(matches!(err, OtlpError::UnsupportedContentType(_)));
    assert_eq!(err.status(), 415);
}

#[test]
fn decode_missing_content_type_returns_415_class() {
    let err = decode_body(b"x", None, "/v1/metrics", no_transcoder).unwrap_err();
    assert!(matches!(err, OtlpError::UnsupportedContentType(_)));
}

#[test]
fn decode_protobuf_rejects_invalid_bytes() {
    let err = decode_body(
        b"\x06\x06\x06garbage",
        Some("application/x-protobuf"),
        "/v1/metrics",
        |_: &str, _: &[u8]| -> Result<Vec<u8>, TranscodeError> {
            Err(TranscodeError::DecodeFailed { reason: "invalid wire type".into() })
        },
    )
    .unwrap_err();
    assert!(matches!(err, OtlpError::ProtobufDecodeFailed(_)));
    assert_eq!(err.status(), 415);
}

#[test]
fn decode_protobuf_uses_transcoded_json() {
    let (v, enc) = decode_body(
        b"\x0a\x00",
        Some("Application/X-Protobuf"),
        "/v1/logs",
        |p: &str, _: &[u8]| -> Result<Vec<u8>, TranscodeError> {
            assert_eq!(p, "/v1/logs");
            Ok(b"{\"resourceLogs\":[]}".to_vec())
        },
    )
    .unwrap();
    assert_eq!(enc, "protobuf");
    assert_eq!(v, b"{\"resourceLogs\":[]}".to_vec());
    let v: serde_json::Value = serde_json::from_slice(&v).unwrap();
    assert_eq!(v, serde_json::from_str::<serde_json::Value>("{\"resourceLogs\":[]}").unwrap());
}

fn reply(rejected: Option<u64>, msg: Option<&str>) -> HandlerReply {
    HandlerReply { rejected, error_message: msg.map(|s| s.to_string()) }
}

fn json(s: &str) -> serde_json::Value {
    serde_json::from_str(s).unwrap()
}

#[test]
fn shape_response_empty_on_no_rejections() {
    let v = shape_response_body(&reply(None, None), "metrics");
    assert_eq!(json(&v), json("{}"));
}

#[test]
fn shape_response_partial_success_picks_field_per_signal() {
    let v = shape_response_body(&reply(Some(3), Some("boom")), "metrics");
    assert_eq!(
        json(&v),
        json(r#"{"partialSuccess": {"rejectedDataPoints": 3, "errorMessage": "boom"}}"#)
    );
    let v = shape_response_body(&reply(Some(2), None), "logs");
    assert_eq!(json(&v), json(r#"{"partialSuccess": {"rejectedLogRecords": 2}}"#));
    let v = shape_response_body(&reply(Some(7), None), "traces");
    assert_eq!(json(&v), json(r#"{"partialSuccess": {"rejectedSpans": 7}}"#));
}

#[test]
fn shape_response_omits_empty_error_message() {
    let v = shape_response_body(&reply(Some(1), Some("")), "metrics");
    assert_eq!(json(&v), json(r#"{"partialSuccess": {"rejectedDataPoints": 1}}"#));
}

#[test]
fn error_response_carries_json_error_body() {
    let e = OtlpError::JsonParseFailed("bad token".into());
    assert_eq!(e.status(), 400);
    assert_eq!(json(&e.error_body()), json(r#"{"error": "OTLP JSON parse failed: bad token"}"#));
}

#[test]
fn error_messages_are_exact() {
    let e = OtlpError::BodyTooLarge { observed: 10, limit_bytes: 4 };
    assert_eq!(e.message(), "body exceeds OTLP size limit (10 bytes > 4 bytes)");
    let e = OtlpError::UnknownSignal("/x".into());
    assert_eq!(e.message(), "OTLP path '/x' does not match /v1/{metrics,logs,traces}");
    assert_eq!(e.status(), 404);
}

fn handlers(entries: &[(&str, &str)]) -> OtlpViewHandlers<String> {
    OtlpViewHandlers {
        handler: "single".to_string(),
        handlers: if entries.is_empty() {
            None
        } else {
            Some(entries.iter().map(|(k, v)| (k.to_string(), v.to_string())).collect())
        },
    }
}

#[test]
fn pick_handler_prefers_multi_handler_form_when_signal_present() {
    let view = handlers(&[
        ("metrics", "ingestMetrics"),
        ("logs", "ingestLogs"),
        ("traces", "ingestTraces"),
    ]);
    for (signal, expected) in &[
        ("metrics", "ingestMetrics"),
        ("logs", "ingestLogs"),
        ("traces", "ingestTraces"),
    ] {
        let h = pick_handler(&view, signal).expect("handler present");
        assert_eq!(h, expected, "signal '{}' routed to wrong handler", signal);
    }
}

#[test]
fn pick_handler_falls_back_to_single_handler_form() {
    let view = handlers(&[]);
    for signal in &["metrics", "logs", "traces"] {
        let h = pick_handler(&view, signal).expect("single handler picked");
        assert_eq!(h, "single");
    }
}

#[test]
fn pick_handler_returns_signal_not_configured_on_partial_multi_form() {
    let view = handlers(&[("metrics", "ingestMetrics")]);
    assert!(pick_handler(&view, "metrics").is_ok());
    for signal in &["logs", "traces"] {
        let err = pick_handler(&view, signal).unwrap_err();
        match err {
            OtlpError::SignalNotConfigured(s) => assert_eq!(&s, signal),
            other => panic!("expected SignalNotConfigured for '{}', got {:?}", signal, other),
        }
    }
}

#[test]
fn body_caps_default_and_one_and_a_half() {
    assert_eq!(otlp_body_caps(None), (4 * 1024 * 1024, 6 * 1024 * 1024));
    assert_eq!(otlp_body_caps(Some(1)), (1024 * 1024, 1_572_864));
}

#[test]
fn decompress_small_cap_reports_too_large_not_a_decode_failure() {
    let mut e = flate2::write::GzEncoder::new(Vec::new(), flate2::Compression::default());
    e.write_all(b"hello world, hello world").unwrap();
    let gz = e.finish().unwrap();
    let result = decompress_body(&gz, Some("gzip"), 4);
    assert!(matches!(result, Err(OtlpError::BodyTooLarge { observed, limit_bytes: 4 }) if observed > 4));
}

#[test]
fn decompress_deflate_past_cap_is_too_large() {
    let mut e = flate2::write::DeflateEncoder::new(Vec::new(), flate2::Compression::best());
    e.write_all(&vec![b'z'; 100_000]).unwrap();
    let df = e.finish().unwrap();
    let result = decompress_body(&df, Some("deflate"), 1000);
    assert!(matches!(result, Err(OtlpError::BodyTooLarge { observed: 1001, limit_bytes: 1000 })));
}

#[test]
fn decode_rejects_json_that_does_not_parse() {
    let err = decode_body(b"{not json", Some("application/json"), "/v1/metrics", no_transcoder).unwrap_err();
    assert!(matches!(err, OtlpError::JsonParseFailed(_)));
    assert_eq!(err.status(), 400);
    let err = decode_body(
        b"\x0a\x00",
        Some("application/x-protobuf"),
        "/v1/traces",
        |_: &str, _: &[u8]| -> Result<Vec<u8>, TranscodeError> { Ok(b"{oops".to_vec()) },
    )
    .unwrap_err();
    match err {
        OtlpError::JsonParseFailed(m) => assert!(m.starts_with("post-transcode: ")),
        other => panic!("expected JsonParseFailed, got {:?}", other),
    }
}
