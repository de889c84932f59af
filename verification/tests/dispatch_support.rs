use riversd::dataview_calls::{
    batch_entry_cause, batch_parameter_sets, connection_unavailable_message, dataview_error_message,
    dataview_not_found_message, task_dataview_name, transaction_dataview_refusal, BatchEntry,
};
use riversd::health::{probe_driver, probe_result, sort_probes, DatasourceProbe, ProbeOutcome};
use riversd::js_task::{
    dataview_namespace, direct_datasources, dispatch_rejection, store_namespace, DatasourceToken,
};
use riversd::otlp::TranscodeError;
use riversd::services_discovery::{discovered_services, AppSummary};
use riversd::task_error::TaskError;
use riversd::view_rules::{
    app_for_namespace, fallback_route, guard_preflight_refusal, view_request_body, FallbackRoute,
    GuardPreflight, RequestBody,
};

fn bytes(b: &[u8]) -> Option<&[u8]> {
    Some(b)
}

fn no_transcode(_p: &str, _b: &[u8]) -> Result<Vec<u8>, TranscodeError> {
    Err(TranscodeError::UnknownSignal("x".to_string()))
}

#[test]
fn request_body_for_get_and_empty_bodies() {
    assert!(matches!(view_request_body("GET", bytes(b"{}"), false, "/v", no_transcode), RequestBody::Null));
    assert!(matches!(view_request_body("HEAD", bytes(b"{}"), false, "/v", no_transcode), RequestBody::Null));
    assert!(matches!(view_request_body("POST", None, false, "/v", no_transcode), RequestBody::Null));
    assert!(matches!(view_request_body("POST", bytes(b""), false, "/v", no_transcode), RequestBody::Null));
    match view_request_body("POST", bytes(b"{\"a\":1}"), false, "/v", no_transcode) {
        RequestBody::JsonBytes(b) => assert_eq!(b, b"{\"a\":1}".to_vec()),
        _ => panic!("expected the raw body"),
    }
}

#[test]
fn request_body_for_protobuf() {
    let ok = |_p: &str, _b: &[u8]| -> Result<Vec<u8>, TranscodeError> { Ok(b"{\"t\":1}".to_vec()) };
    match view_request_body("POST", bytes(b"\x0a\x00"), true, "/v1/traces", ok) {
        RequestBody::JsonBytes(b) => assert_eq!(b, b"{\"t\":1}".to_vec()),
        _ => panic!("expected the transcoded body"),
    }
    match view_request_body("POST", bytes(b"raw"), true, "/other", no_transcode) {
        RequestBody::JsonBytes(b) => assert_eq!(b, b"raw".to_vec()),
        _ => panic!("expected the raw body"),
    }
    let bad = |_p: &str, _b: &[u8]| -> Result<Vec<u8>, TranscodeError> {
        Err(TranscodeError::DecodeFailed { reason: "truncated".to_string() })
    };
    match view_request_body("PUT", bytes(b"\x0a"), true, "/v1/logs", bad) {
        RequestBody::Refused { status, body } => {
            assert_eq!(status, 415);
            assert_eq!(body, "{\"error\":\"protobuf decode failed: truncated\"}");
        }
        _ => panic!("expected a refusal"),
    }
}

#[test]
fn named_guard_preflight_answers() {
    assert_eq!(guard_preflight_refusal(GuardPreflight::Allowed), None);
    assert_eq!(
        guard_preflight_refusal(GuardPreflight::NoBundle),
        Some((500, "named guard pre-flight: bundle not loaded", false))
    );
    assert_eq!(
        guard_preflight_refusal(GuardPreflight::AppMissing),
        Some((500, "named guard pre-flight: app not found in bundle", false))
    );
    assert_eq!(
        guard_preflight_refusal(GuardPreflight::GuardMissing),
        Some((401, "named guard not configured", false))
    );
    assert_eq!(
        guard_preflight_refusal(GuardPreflight::NotCodeComponent),
        Some((401, "named guard misconfigured", false))
    );
    assert_eq!(
        guard_preflight_refusal(GuardPreflight::Rejected),
        Some((401, "guard rejected the request", true))
    );
    assert_eq!(
        guard_preflight_refusal(GuardPreflight::DispatchFailed),
        Some((401, "guard dispatch failed", true))
    );
}

#[test]
fn app_lookup_by_namespace() {
    let apps = vec![
        (Some("shop".to_string()), None),
        (None, Some("orders".to_string())),
        (Some("orders".to_string()), None),
    ];
    assert_eq!(app_for_namespace(&apps, "shop"), Some(0));
    assert_eq!(app_for_namespace(&apps, "orders"), Some(1));
    assert_eq!(app_for_namespace(&apps, "none"), None);
}

#[test]
fn dataview_names_are_qualified() {
    assert_eq!(task_dataview_name(Some("shop"), "orders"), "shop:orders");
    assert_eq!(task_dataview_name(Some("shop"), "other:orders"), "other:orders");
    assert_eq!(task_dataview_name(Some(""), "orders"), "orders");
    assert_eq!(task_dataview_name(None, "orders"), "orders");
}

#[test]
fn dataviews_in_a_transaction_use_its_datasource() {
    assert_eq!(transaction_dataview_refusal("list", Some("sql"), Some("sql:canary-pg"), "canary-pg"), None);
    assert_eq!(transaction_dataview_refusal("list", None, Some("canary-pg"), "canary-pg"), None);
    assert_eq!(transaction_dataview_refusal("list", Some("sql"), None, "canary-pg"), None);
    assert_eq!(
        transaction_dataview_refusal("list", Some("sql"), Some("sql:other"), "canary-pg").unwrap(),
        "TransactionError: dataview \"list\" uses datasource \"other\" which differs from transaction datasource \"canary-pg\""
    );
}

#[test]
fn dataview_call_messages() {
    assert_eq!(
        dataview_not_found_message("orders"),
        "ctx.dataview('orders') not found. Declare in view config: dataviews = [\"orders\"]"
    );
    assert_eq!(
        dataview_error_message(false, "orders", "timeout"),
        "ctx.dataview('orders') execution error: timeout"
    );
    assert_eq!(dataview_error_message(true, "orders", "timeout"), "Rivers.db.batch('orders') error: timeout");
    assert_eq!(
        connection_unavailable_message("pg"),
        "transaction connection for 'pg' unavailable"
    );
}

#[test]
fn task_setup_rules() {
    assert!(dispatch_rejection("shop", "rest", "h.ts", "run", "t1").is_none());
    match dispatch_rejection("", "rest", "h.ts", "run", "t1") {
        Some(TaskError::Internal(m)) => assert_eq!(
            m,
            "dispatch rejected: empty app_id (task_kind=rest, entrypoint=h.ts::run, trace_id=t1)"
        ),
        _ => panic!("expected a rejection"),
    }
    assert_eq!(store_namespace("shop"), "app:shop");
    assert_eq!(dataview_namespace(Some("shop")), Some("shop".to_string()));
    assert_eq!(dataview_namespace(Some("")), None);
    assert_eq!(dataview_namespace(None), None);
}

fn probe(name: &str) -> DatasourceProbe {
    probe_result(name, "postgres", ProbeOutcome::Connected, 3)
}

#[test]
fn probe_reports() {
    assert_eq!(probe_driver(Some("postgres")), "postgres");
    assert_eq!(probe_driver(None), "unknown");
    let ok = probe("pg");
    assert_eq!((ok.name.as_str(), ok.status.as_str(), ok.latency_ms), ("pg", "ok", 3));
    assert_eq!(ok.error, None);
    let failed = probe_result("pg", "postgres", ProbeOutcome::Failed("refused".to_string()), 7);
    assert_eq!((failed.status.as_str(), failed.latency_ms), ("error", 7));
    assert_eq!(failed.error, Some("refused".to_string()));
    let slow = probe_result("pg", "postgres", ProbeOutcome::TimedOut, 5003);
    assert_eq!((slow.status.as_str(), slow.latency_ms), ("error", 5000));
    assert_eq!(slow.error, Some("probe timeout (5s)".to_string()));
}

#[test]
fn probes_are_listed_by_name() {
    let sorted = sort_probes(vec![probe("redis"), probe("pg"), probe("pg-replica"), probe("Zeta"), probe("mongo")]);
    let names: Vec<&str> = sorted.iter().map(|p| p.name.as_str()).collect();
    assert_eq!(names, vec!["Zeta", "mongo", "pg", "pg-replica", "redis"]);
    assert!(sort_probes(Vec::new()).is_empty());
}

fn app(kind: &str, id: &str, name: &str, entry: Option<&str>, services: Vec<(&str, &str)>) -> AppSummary {
    AppSummary {
        app_type: kind.to_string(),
        app_id: id.to_string(),
        app_name: name.to_string(),
        entry_point: entry.map(|e| e.to_string()),
        services: services.into_iter().map(|(n, i)| (n.to_string(), i.to_string())).collect(),
    }
}

#[test]
fn services_of_main_apps() {
    let apps = vec![
        app("app-service", "id-orders", "orders-svc", Some("orders"), vec![]),
        app("app-main", "id-main", "shop", Some("shop"), vec![("orders", "id-orders"), ("ghost", "id-x"), ("billing", "id-billing")]),
        app("app-service", "id-billing", "billing-svc", None, vec![("ignored", "id-orders")]),
    ];
    assert_eq!(
        discovered_services(&apps),
        vec![
            ("orders".to_string(), "orders".to_string()),
            ("billing".to_string(), "billing-svc".to_string()),
        ]
    );
    assert!(discovered_services(&Vec::new()).is_empty());
}

#[test]
fn fallback_routing_order() {
    let failed = vec![
        ("/shop/orders".to_string(), "orders failed: driver missing".to_string()),
        ("/shop".to_string(), "shop failed".to_string()),
    ];
    assert!(matches!(fallback_route(true, &failed, "/shop/orders/list", true), FallbackRoute::View));
    match fallback_route(false, &failed, "/shop/orders/list", true) {
        FallbackRoute::AppUnavailable(m) => assert_eq!(m, "orders failed: driver missing"),
        other => panic!("unexpected {other:?}"),
    }
    match fallback_route(false, &failed, "/shop/cart", true) {
        FallbackRoute::AppUnavailable(m) => assert_eq!(m, "shop failed"),
        other => panic!("unexpected {other:?}"),
    }
    assert!(matches!(fallback_route(false, &failed, "/bundle/main/services", true), FallbackRoute::Services));
    assert!(matches!(fallback_route(false, &failed, "/index.html", true), FallbackRoute::StaticFiles));
    assert!(matches!(fallback_route(false, &Vec::new(), "/index.html", false), FallbackRoute::NotFound));
}

#[test]
fn empty_app_id_is_rejected() {
    let result = dispatch_rejection("", "rest", "inline", "run", "trace-1");
    assert!(result.is_some(), "empty app_id must be rejected");
    let err_msg = match result {
        Some(TaskError::Internal(m)) => m,
        _ => panic!("expected an internal error"),
    };
    assert!(err_msg.contains("empty app_id"), "error message should mention empty app_id, got: {err_msg}");
}

#[test]
fn direct_tokens_populate_thread_local() {
    let tokens = vec![
        ("fs".to_string(), DatasourceToken::Direct { driver: "filesystem".to_string(), root: "/tmp/root".to_string() }),
        ("db".to_string(), DatasourceToken::Pooled("postgres:db".to_string())),
    ];
    let map = direct_datasources(&tokens);
    assert_eq!(map.len(), 1, "only Direct tokens should populate");
    let fs = map.iter().find(|(n, _, _)| n == "fs").expect("fs entry");
    assert_eq!(fs.1, "filesystem");
    assert_eq!(fs.2, "/tmp/root");
}

#[test]
fn pooled_only_leaves_map_empty() {
    let tokens = vec![("db".to_string(), DatasourceToken::Pooled("postgres:db".to_string()))];
    assert!(direct_datasources(&tokens).is_empty());
}

#[test]
fn batch_runs_once_per_entry_and_refuses_non_objects() {
    let list = vec![
        BatchEntry::Object(vec![("id".to_string(), 1u32)]),
        BatchEntry::Object(vec![("id".to_string(), 2u32), ("x".to_string(), 3u32)]),
        BatchEntry::Object(vec![]),
    ];
    let sets = batch_parameter_sets(Some(list)).unwrap();
    assert_eq!(
        sets,
        vec![
            vec![("id".to_string(), 1u32)],
            vec![("id".to_string(), 2u32), ("x".to_string(), 3u32)],
            vec![],
        ]
    );
    // `[{id: 1}, 5]` fails on the second entry instead of running once.
    let list = vec![BatchEntry::Object(vec![("id".to_string(), 1u32)]), BatchEntry::Other];
    assert_eq!(batch_parameter_sets(Some(list)), Err(1));
    assert_eq!(batch_parameter_sets::<u32>(Some(vec![BatchEntry::Other])), Err(0));
    assert_eq!(batch_parameter_sets::<u32>(None), Ok(vec![]));
    assert_eq!(batch_entry_cause(1), "parameter entry 1 is not an object");
    assert_eq!(
        dataview_error_message(true, "orders", &batch_entry_cause(1)),
        "Rivers.db.batch('orders') error: parameter entry 1 is not an object"
    );
}
