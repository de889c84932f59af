use riversd::app_log::{build_app_log_line, build_wasm_log_line};

#[test]
fn build_app_log_line_no_fields_round_trips_with_problematic_chars() {
    let line = build_app_log_line(
        "2026-04-25T00:00:00.000Z",
        "app\"with\\quote",
        "INFO",
        "msg with \"quotes\", newline\n, and tab\t and \x01 control",
        "",
    );
    let parsed: serde_json::Value = serde_json::from_str(&line).expect("log line must be valid JSON");
    assert_eq!(parsed["level"], "INFO");
    assert_eq!(parsed["app"], "app\"with\\quote");
    assert_eq!(parsed["message"], "msg with \"quotes\", newline\n, and tab\t and \x01 control");
    assert!(parsed.get("fields").is_none());
}

#[test]
fn build_app_log_line_with_fields_embeds_object_not_string() {
    let line = build_app_log_line(
        "2026-04-25T00:00:00.000Z",
        "app",
        "WARN",
        "msg",
        r#"{"k":"v with \"quote\" and \n newline","n":42}"#,
    );
    let parsed: serde_json::Value = serde_json::from_str(&line).expect("log line must be valid JSON");
    assert_eq!(parsed["fields"]["k"], "v with \"quote\" and \n newline");
    assert_eq!(parsed["fields"]["n"], 42);
}

#[test]
fn build_app_log_line_with_malformed_fields_falls_back_to_string() {
    let line = build_app_log_line("2026-04-25T00:00:00.000Z", "app", "ERROR", "msg", "this is not json");
    let parsed: serde_json::Value = serde_json::from_str(&line).expect("log line must be valid JSON");
    assert_eq!(parsed["fields"], "this is not json");
}

#[test]
fn wasm_log_line_exact() {
    assert_eq!(
        build_wasm_log_line("t", "INFO", "a", "m"),
        r#"{"timestamp":"t","level":"INFO","app":"a","message":"m"}"#
    );
}

#[test]
fn wasm_log_line_escapes_quotes_and_newlines() {
    let msg = "say \"hi\"\nbye";
    let line = build_wasm_log_line("2026-04-25T00:00:00.000Z", "INFO", "a", msg);
    let parsed: serde_json::Value = serde_json::from_str(&line).expect("log line must be valid JSON");
    assert_eq!(parsed["message"], msg);
    assert_eq!(parsed["level"], "INFO");
    assert_eq!(parsed["app"], "a");
}
