use std::io::Write;

use riversd::app_log::build_app_log_line;
use riversd::app_paths::redact_to_app_relative;
use riversd::module_syntax::is_module_syntax;
use riversd::otlp::{decompress_body, signal_from_path, OtlpError};
use riversd::placeholders::rewrite_positional_placeholders;
use riversd::proxy_codegen::push_js_string;
use riversd::query::parse_query_string_multi;
use riversd::schema_introspection::{check_fields_against_columns, levenshtein};

#[test]
fn redacting_twice_is_redacting_once() {
    for input in [
        "/Users/me/proj/my-app/libraries/handlers/foo.ts",
        "/srv/a/libraries/b/libraries/c.ts",
        "./libraries/x.ts",
        "/libraries/foo.ts",
        "plain.ts",
        "",
    ] {
        let once = redact_to_app_relative(input).into_owned();
        let twice = redact_to_app_relative(&once).into_owned();
        assert_eq!(twice, once, "for {input}");
    }
}

#[test]
fn sql_without_placeholders_is_unchanged() {
    for sql in ["SELECT * FROM t WHERE name = 'it''s'", "", "UPDATE t SET a = 1"] {
        assert_eq!(rewrite_positional_placeholders(sql), (sql.to_string(), 0));
    }
}

#[test]
fn module_detection_needs_a_keyword() {
    assert!(!is_module_syntax("function handler(ctx) { return 1; }"));
    assert!(!is_module_syntax("// export import everything"));
    assert!(is_module_syntax("export function handler(ctx) {}"));
}

#[test]
fn signal_ignores_prefix_and_trailing_slashes() {
    for prefix in ["", "/otel", "/a/b/c"] {
        assert_eq!(signal_from_path(&format!("{prefix}/v1/metrics")).ok(), Some("metrics"));
        assert_eq!(signal_from_path(&format!("{prefix}/v1/logs/")).ok(), Some("logs"));
        assert_eq!(signal_from_path(&format!("{prefix}/v1/traces//")).ok(), Some("traces"));
    }
}

#[test]
fn compressed_bodies_stay_within_the_cap() {
    let mut enc = flate2::write::GzEncoder::new(Vec::new(), flate2::Compression::default());
    enc.write_all(&vec![b'a'; 4096]).unwrap();
    let gz = enc.finish().unwrap();
    assert_eq!(decompress_body(&gz, Some("gzip"), 4096).ok().map(|b| b.len()), Some(4096));
    assert!(matches!(
        decompress_body(&gz, Some("gzip"), 100),
        Err(OtlpError::BodyTooLarge { observed, limit_bytes: 100 }) if observed > 100
    ));
}

#[test]
fn js_literals_escape_line_breaks_and_quotes() {
    let mut out = String::new();
    push_js_string(&mut out, "a\"b\\c\nd\re");
    assert_eq!(out, "\"a\\\"b\\\\c\\nd\\re\"");
    assert!(!out.contains('\n') && !out.contains('\r'));
}

#[test]
fn first_value_is_the_first_of_all_values() {
    let (first, all) = parse_query_string_multi("a=1&b=2&a=3&c&b=4");
    for key in ["a", "b", "c"] {
        assert_eq!(first.get(key), all.get(key).and_then(|v| v.first()));
    }
    assert_eq!(first.get("d"), None);
    assert!(all.get("d").is_none());
}

#[test]
fn suggestions_are_closest_columns() {
    let cols = vec!["user_id".to_string(), "user_name".to_string(), "email".to_string()];
    let m = check_fields_against_columns("users", &["user_nme".to_string()], &cols);
    assert_eq!(m.len(), 1);
    let s = m[0].suggestion.clone().unwrap();
    assert!(cols.contains(&s));
    let d = levenshtein("user_nme", &s);
    assert!(d <= 2);
    assert!(cols.iter().all(|c| d <= levenshtein("user_nme", c)));
}

#[test]
fn json_literals_stand_for_their_text() {
    let msg = "line one\nline \"two\"\t\u{1}\u{8}\u{c}\\ end";
    let line = build_app_log_line("2026-01-01T00:00:00Z", "app", "INFO", msg, "");
    assert!(line.chars().all(|c| (c as u32) >= 32), "line was: {line}");
    let v: serde_json::Value = serde_json::from_str(&line).unwrap();
    assert_eq!(v["message"], msg);
    assert!(line.contains("\\u0001"));
}
