use riversd::stack_frames::{
    clear_sourcemap_cache, format_frame, format_frame_with, lookup_would_underflow, CallSiteInfo,
    SourceMapCache,
    SourcePosition,
};

#[test]
fn fallback_when_no_cache_entry() {
    let info = CallSiteInfo {
        script_name: Some("/never-installed/handler.ts".into()),
        line: Some(42),
        column: Some(5),
        function_name: Some("handler".into()),
    };
    let mut cache = SourceMapCache::new();
    let s = format_frame(&info, &mut cache, None);
    assert!(s.contains("handler"), "fn name: {s}");
    assert!(s.contains(":42:5"), "unmapped 1-based position: {s}");
    assert!(s.contains("/never-installed/handler.ts"), "raw path: {s}");
}

#[test]
fn anonymous_when_no_function_name() {
    let info = CallSiteInfo { script_name: None, line: None, column: None, function_name: None };
    let mut cache = SourceMapCache::new();
    let s = format_frame(&info, &mut cache, None);
    assert!(s.contains("<anonymous>"), "anon placeholder: {s}");
    assert!(s.contains("<unknown>"), "unknown script placeholder: {s}");
    assert!(s.contains(":?:?"), "unknown position placeholders: {s}");
}

#[test]
fn zero_line_or_col_falls_back() {
    let info = CallSiteInfo {
        script_name: Some("/some-file.ts".into()),
        line: Some(0),
        column: Some(0),
        function_name: Some("f".into()),
    };
    let mut cache = SourceMapCache::new();
    let s = format_frame(&info, &mut cache, None);
    assert!(s.contains(":0:0"), "unmapped retained 0s: {s}");
}

#[test]
fn unmapped_frame_exact_text() {
    let info = CallSiteInfo {
        script_name: Some("app.js".into()),
        line: Some(3),
        column: Some(9),
        function_name: Some(String::new()),
    };
    let s = format_frame_with(&info, None);
    assert_eq!(s, "\n    at <anonymous> (app.js:3:9)");
}

#[test]
fn mapped_frame_is_one_based_and_uses_source_file() {
    let info = CallSiteInfo {
        script_name: Some("app.js".into()),
        line: Some(3),
        column: Some(9),
        function_name: Some("go".into()),
    };
    let t = SourcePosition { source: Some("app.ts".into()), line: 10, col: 0 };
    assert_eq!(format_frame_with(&info, Some(t)), "\n    at go (app.ts:11:1)");
    let t = SourcePosition { source: None, line: 1, col: 2 };
    assert_eq!(format_frame_with(&info, Some(t)), "\n    at go (app.js:2:3)");
    let t = SourcePosition { source: None, line: u32::MAX, col: 2 };
    assert_eq!(format_frame_with(&info, Some(t)), "\n    at go (app.js:3:9)");
}

const MINIMAL_V3: &str =
    r#"{"version":3,"sources":["test.ts"],"names":[],"mappings":"","file":"test.js"}"#;

#[test]
fn sourcemap_cache_idempotence_and_invalidation() {
    let mut cache = SourceMapCache::new();
    let path = "/sourcemap-cache-test/combined.ts";
    let first = cache.get_or_parse(path, Some(MINIMAL_V3)).expect("first parse");
    let second = cache.get_or_parse(path, Some(MINIMAL_V3)).expect("second parse after cache hit");
    assert!(std::sync::Arc::ptr_eq(&first, &second), "second call must return the cached Arc");
    clear_sourcemap_cache(&mut cache);
    assert_eq!(cache.len(), 0);
    let third = cache.get_or_parse(path, Some(MINIMAL_V3)).expect("third parse after clear");
    assert!(!std::sync::Arc::ptr_eq(&first, &third), "after clear, the new Arc must be fresh");
}

#[test]
fn sourcemap_cache_rejects_missing_or_bad_json() {
    let mut cache = SourceMapCache::new();
    assert!(cache.get_or_parse("/a.ts", None).is_none());
    assert!(cache.get_or_parse("/a.ts", Some("")).is_none());
    assert!(cache.get_or_parse("/a.ts", Some("not json")).is_none());
    assert_eq!(cache.len(), 0);
}

const TWO_LINE_V3: &str =
    r#"{"version":3,"sources":["test.ts"],"names":[],"mappings":"AAAA;AACA","file":"test.js"}"#;

const RANGE_V3: &str = r#"{"version":3,"sources":["test.ts"],"names":[],"mappings":"UAAA","rangeMappings":"B","file":"test.js"}"#;

fn frame(line: u32, column: u32) -> CallSiteInfo {
    CallSiteInfo {
        script_name: Some("test.js".into()),
        line: Some(line),
        column: Some(column),
        function_name: Some("f".into()),
    }
}

#[test]
fn frames_are_remapped_through_the_source_map() {
    let mut cache = SourceMapCache::new();
    let s = format_frame(&frame(2, 5), &mut cache, Some(TWO_LINE_V3));
    assert_eq!(s, "\n    at f (test.ts:2:1)");
    assert_eq!(cache.len(), 1);
    // A cached map is used even when no JSON is handed in.
    let s = format_frame(&frame(1, 3), &mut cache, None);
    assert_eq!(s, "\n    at f (test.ts:1:1)");
}

#[test]
fn range_tokens_shift_the_source_column() {
    let mut cache = SourceMapCache::new();
    let s = format_frame(&frame(1, 16), &mut cache, Some(RANGE_V3));
    assert_eq!(s, "\n    at f (test.ts:1:6)");
}

#[test]
fn lookup_landing_on_an_earlier_range_token_past_the_column_is_unmapped() {
    let mut cache = SourceMapCache::new();
    let s = format_frame(&frame(2, 1), &mut cache, Some(RANGE_V3));
    assert_eq!(s, "\n    at f (test.js:2:1)");
    let p = cache.get_or_parse("test.js", None).unwrap();
    assert!(lookup_would_underflow(&p, 1, 0));
    assert!(!lookup_would_underflow(&p, 0, 15));
    assert!(!lookup_would_underflow(&p, 1, 20));
}
