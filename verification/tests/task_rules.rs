use riversd::db_rules::{
    bound_parameters, db_call_refusal, db_core_error, ordinal_key, positional_param_name,
    DbCoreFailure, TxnEnd, TxnSlot,
};
use riversd::engine_rules::{
    broker_failure_message, build_outbound_message, datasource_build_error, datasource_build_refusal,
    ddl_database,
    ddl_driver_name, ddl_refusal, ddl_whitelist_applies, direct_dispatch_arguments_given,
    direct_dispatch_message, prepare_broker_publish, BrokerFailure, DirectDispatchFailure,
    ddl_not_permitted_message, extract_host, gossip_url, http_failure_message, http_method,
    http_response_envelope, near_heap_limit, proxy_registration_script, result_shape,
    HttpMethod, MessageFields, PayloadField, ResultShape, ReusePool, DEFAULT_HEAP_LIMIT,
};

#[test]
fn txn_slot_begin_refusals() {
    let slot = TxnSlot::new();
    assert!(!slot.is_active());
    assert_eq!(
        slot.begin_refusal("", true, true).unwrap(),
        "Rivers.db.begin: datasource name is required"
    );
    assert_eq!(
        slot.begin_refusal("pg", false, true).unwrap(),
        "TransactionError: datasource \"pg\" not found in task config"
    );
    assert_eq!(
        slot.begin_refusal("pg", true, false).unwrap(),
        "TransactionError: driver factory not available"
    );
    assert!(slot.begin_refusal("pg", true, true).is_none());
}

#[test]
fn txn_slot_nested_begin_is_refused() {
    let mut slot = TxnSlot::new();
    slot.opened("pg");
    assert!(slot.is_active());
    assert_eq!(
        slot.begin_refusal("other", true, true).unwrap(),
        "TransactionError: nested transactions not supported"
    );
}

#[test]
fn txn_slot_commit_and_rollback() {
    let mut slot = TxnSlot::new();
    match slot.end("", true) {
        TxnEnd::Refused(m) => assert_eq!(m, "TransactionError: no active transaction to commit"),
        _ => panic!("commit without a transaction must be refused"),
    }
    assert!(matches!(slot.end("", false), TxnEnd::Nothing));

    slot.opened("pg");
    match slot.end("mysql", true) {
        TxnEnd::Refused(m) => assert_eq!(
            m,
            "TransactionError: active transaction is on \"pg\", not \"mysql\""
        ),
        _ => panic!("commit on another datasource must be refused"),
    }
    assert!(slot.is_active());
    match slot.end("pg", true) {
        TxnEnd::End(d) => assert_eq!(d, "pg"),
        _ => panic!("commit on the open datasource ends it"),
    }
    assert!(!slot.is_active());

    slot.opened("pg");
    match slot.end("", false) {
        TxnEnd::End(d) => assert_eq!(d, "pg"),
        _ => panic!("rollback without a name ends the open transaction"),
    }
    assert!(!slot.is_active());
}

#[test]
fn positional_parameter_names() {
    assert_eq!(positional_param_name(1), "_p1");
    assert_eq!(positional_param_name(12), "_p12");
    assert_eq!(ordinal_key(1), "001");
    assert_eq!(ordinal_key(42), "042");
    assert_eq!(ordinal_key(100), "100");
    assert_eq!(ordinal_key(1234), "1234");
}

#[test]
fn bound_parameters_fill_missing_with_null() {
    let p = bound_parameters(2, 3);
    assert_eq!(p.len(), 3);
    assert_eq!(p[0], ("_p1".to_string(), Some(0)));
    assert_eq!(p[1], ("_p2".to_string(), Some(1)));
    assert_eq!(p[2], ("_p3".to_string(), None));
    let q = bound_parameters(3, 0);
    assert_eq!(q.len(), 3);
    assert_eq!(q[2], ("_p3".to_string(), Some(2)));
    assert!(bound_parameters(0, 0).is_empty());
}

#[test]
fn db_call_argument_checks() {
    let q = "Rivers.db.query";
    assert_eq!(
        db_call_refusal(q, "", Some("SELECT 1"), true, None, true, true, None).unwrap(),
        "Rivers.db.query: datasource name is required"
    );
    assert_eq!(
        db_call_refusal("Rivers.db.execute", "pg", None, true, None, true, true, None).unwrap(),
        "Rivers.db.execute: sql is required"
    );
    assert_eq!(
        db_call_refusal(q, "pg", Some("  \n\t"), true, None, true, true, None).unwrap(),
        "Rivers.db.query: sql is required"
    );
    assert_eq!(
        db_call_refusal(q, "pg", Some("SELECT 1"), false, None, true, true, None).unwrap(),
        "CapabilityError: datasource 'pg' not declared in view config"
    );
    assert_eq!(
        db_call_refusal(q, "pg", Some("SELECT 1"), true, Some("mysql"), true, true, None).unwrap(),
        "TransactionError: active transaction is on \"mysql\", not \"pg\" \u{2014} Rivers.db.query cannot route across datasources inside a transaction"
    );
    assert_eq!(
        db_call_refusal(q, "pg", Some("SELECT 1"), true, Some("pg"), false, true, None).unwrap(),
        "Rivers.db.query: datasource \"pg\" not found in task config"
    );
    assert_eq!(
        db_call_refusal(q, "pg", Some("SELECT 1"), true, None, true, false, None).unwrap(),
        "Rivers.db.query: driver factory not available"
    );
    assert_eq!(
        db_call_refusal(q, "pg", Some("SELECT 1"), true, None, true, true, Some("no runtime")).unwrap(),
        "Rivers.db.query: no runtime"
    );
    assert!(db_call_refusal(q, "pg", Some("SELECT 1"), true, Some("pg"), true, true, None).is_none());
}

#[test]
fn db_core_errors() {
    assert_eq!(db_core_error(DbCoreFailure::Connection, "refused"), "connection failed: refused");
    assert_eq!(db_core_error(DbCoreFailure::Query, "syntax"), "query failed: syntax");
    assert_eq!(
        db_core_error(DbCoreFailure::TransactionConnectionGone, "pg"),
        "TransactionError: connection for datasource 'pg' is unavailable (race with commit/rollback?)"
    );
}

#[test]
fn heap_guard_grants_headroom_once() {
    assert_eq!(near_heap_limit(DEFAULT_HEAP_LIMIT, false), (201_326_592, true));
    assert_eq!(near_heap_limit(201_326_592, true), (268_435_456, false));
}

#[test]
fn reuse_pool_is_last_in_first_out() {
    let mut pool: ReusePool<u32> = ReusePool::new();
    assert_eq!(pool.take(), None);
    pool.give_back(1);
    pool.give_back(2);
    assert_eq!(pool.take(), Some(2));
    assert_eq!(pool.take(), Some(1));
    assert_eq!(pool.take(), None);
}

#[test]
fn outbound_host_for_logging() {
    assert_eq!(extract_host("https://api.example.com/v1/items?key=s"), "api.example.com");
    assert_eq!(extract_host("http://localhost:8080"), "localhost:8080");
    assert_eq!(extract_host("not a url"), "not a url");
    assert_eq!(extract_host("https://api.example.com?token=abc"), "api.example.com");
    assert_eq!(extract_host("https://h.example#frag"), "h.example");
}

#[test]
fn outbound_http_methods() {
    assert_eq!(http_method("GET").unwrap(), HttpMethod::Get);
    assert_eq!(http_method("POST").unwrap(), HttpMethod::Post);
    assert_eq!(http_method("PUT").unwrap(), HttpMethod::Put);
    assert_eq!(http_method("DELETE").unwrap(), HttpMethod::Delete);
    assert_eq!(http_method("PATCH").unwrap_err(), "unsupported HTTP method: PATCH");
    assert_eq!(http_method("get").unwrap_err(), "unsupported HTTP method: get");
    assert_eq!(
        http_failure_message("connection refused"),
        "Rivers.http request failed: connection refused"
    );
}

#[test]
fn outbound_response_envelope() {
    assert_eq!(
        http_response_envelope(200, "{ \"ok\": true }"),
        "{\"body\":{\"ok\":true},\"status\":200}"
    );
    assert_eq!(
        http_response_envelope(404, "not found"),
        "{\"body\":\"not found\",\"status\":404}"
    );
}

fn fields(destination: Option<&str>, payload: PayloadField) -> MessageFields {
    MessageFields {
        is_object: true,
        destination: destination.map(|d| d.to_string()),
        payload,
        headers: vec![("h".to_string(), "v".to_string())],
        key: Some("k".to_string()),
        reply_to: None,
    }
}

#[test]
fn broker_message_checks() {
    let mut not_object = fields(Some("orders"), PayloadField::Text("x".to_string()));
    not_object.is_object = false;
    assert_eq!(build_outbound_message(not_object).err().unwrap(), "msg must be an object");
    assert_eq!(
        build_outbound_message(fields(None, PayloadField::Text("x".to_string()))).err().unwrap(),
        "'destination' is required (string)"
    );
    assert_eq!(
        build_outbound_message(fields(Some(""), PayloadField::Text("x".to_string()))).err().unwrap(),
        "'destination' must be non-empty"
    );
    assert_eq!(
        build_outbound_message(fields(Some("orders"), PayloadField::Missing)).err().unwrap(),
        "'payload' is required"
    );
}

#[test]
fn broker_message_payloads() {
    let m = build_outbound_message(fields(Some("orders"), PayloadField::Text("héllo".to_string())))
        .ok()
        .unwrap();
    assert_eq!(m.destination, "orders");
    assert_eq!(m.payload, "héllo".as_bytes().to_vec());
    assert_eq!(m.headers, vec![("h".to_string(), "v".to_string())]);
    assert_eq!(m.key, Some("k".to_string()));
    assert_eq!(m.reply_to, None);
    let j = build_outbound_message(fields(Some("orders"), PayloadField::Json(b"{\"a\":1}".to_vec())))
        .ok()
        .unwrap();
    assert_eq!(j.payload, b"{\"a\":1}".to_vec());
}

#[test]
fn query_result_shapes() {
    assert_eq!(result_shape(0, 0), ResultShape::Null);
    assert_eq!(result_shape(1, 1), ResultShape::Scalar);
    assert_eq!(result_shape(1, 3), ResultShape::Object);
    assert_eq!(result_shape(2, 1), ResultShape::Array);
}

#[test]
fn proxy_registration_escapes_the_name() {
    assert_eq!(
        proxy_registration_script("a\"b\\c", "P"),
        "__rivers_direct_proxies[\"a\\\"b\\\\c\"]=P;"
    );
    assert_eq!(
        proxy_registration_script("kafka", "({})"),
        "__rivers_direct_proxies[\"kafka\"]=({});"
    );
}

#[test]
fn datasource_build_checks() {
    assert_eq!(
        datasource_build_refusal("pg", false, true, true).unwrap(),
        "CapabilityError: datasource 'pg' not declared in view config"
    );
    assert_eq!(
        datasource_build_refusal("pg", true, false, true).unwrap(),
        "ctx.datasource().build(): call .fromQuery(sql) before .build()"
    );
    assert_eq!(
        datasource_build_refusal("pg", true, true, false).unwrap(),
        "ctx.datasource('pg').build(): DriverFactory not available"
    );
    assert!(datasource_build_refusal("pg", true, true, true).is_none());
}

#[test]
fn ddl_rules() {
    assert_eq!(ddl_driver_name(Some("postgres"), "app:pg"), "postgres");
    assert_eq!(ddl_driver_name(None, "app:main:sqlite"), "sqlite");
    assert_eq!(ddl_driver_name(None, "sqlite"), "sqlite");
    assert_eq!(ddl_driver_name(None, "app:"), "");
    assert_eq!(ddl_database("", "ds"), "ds");
    assert_eq!(ddl_database("db1", "ds"), "db1");
    assert_eq!(
        ddl_not_permitted_message("db1", "ds", "app-1"),
        "DDL not permitted for database 'db1' (datasource 'ds') in app 'app-1'"
    );
}

#[test]
fn gossip_target() {
    assert_eq!(gossip_url("http://peer:8080"), "http://peer:8080/gossip/receive");
}

fn message(destination: Option<&str>, payload: PayloadField) -> MessageFields {
    MessageFields {
        is_object: true,
        destination: destination.map(|d| d.to_string()),
        payload,
        headers: Vec::new(),
        key: None,
        reply_to: None,
    }
}

#[test]
fn br2_t_build_outbound_destination_required() {
    let err = build_outbound_message(message(None, PayloadField::Text("x".to_string()))).err().unwrap();
    assert!(err.contains("destination"), "err={err}");
}

#[test]
fn br2_t_build_outbound_payload_required() {
    let err = build_outbound_message(message(Some("topic"), PayloadField::Missing)).err().unwrap();
    assert!(err.contains("payload"), "err={err}");
}

#[test]
fn br2_t_build_outbound_string_payload_is_utf8_bytes() {
    let m = build_outbound_message(message(Some("topic"), PayloadField::Text("hello".to_string())))
        .ok()
        .unwrap();
    assert_eq!(m.payload, b"hello");
    assert_eq!(m.destination, "topic");
    assert!(m.headers.is_empty());
    assert!(m.key.is_none());
}

#[test]
fn br2_t_build_outbound_object_payload_is_json_stringified() {
    let object = serde_json::to_vec(&serde_json::from_str::<serde_json::Value>("{\"a\": 1, \"b\": \"two\"}").unwrap()).unwrap();
    let m = build_outbound_message(message(Some("topic"), PayloadField::Json(object))).ok().unwrap();
    let parsed: serde_json::Value = serde_json::from_slice(&m.payload).unwrap();
    assert_eq!(parsed["a"], 1);
    assert_eq!(parsed["b"], "two");
}

#[test]
fn br2_t_build_outbound_headers_and_key_pass_through() {
    let mut f = message(Some("topic"), PayloadField::Text("x".to_string()));
    f.headers = vec![("h1".to_string(), "v1".to_string()), ("h2".to_string(), "v2".to_string())];
    f.key = Some("partition-key".to_string());
    f.reply_to = Some("reply.topic".to_string());
    let m = build_outbound_message(f).ok().unwrap();
    assert_eq!(m.headers.iter().find(|(k, _)| k == "h1").map(|(_, v)| v), Some(&"v1".to_string()));
    assert_eq!(m.headers.iter().find(|(k, _)| k == "h2").map(|(_, v)| v), Some(&"v2".to_string()));
    assert_eq!(m.key.as_deref(), Some("partition-key"));
    assert_eq!(m.reply_to.as_deref(), Some("reply.topic"));
}

#[test]
fn br2_t_build_outbound_empty_destination_rejected() {
    let err = build_outbound_message(message(Some(""), PayloadField::Text("x".to_string()))).err().unwrap();
    assert!(err.contains("non-empty"), "err={err}");
}

#[test]
fn zero_rows_returns_null() {
    assert_eq!(result_shape(0, 0), ResultShape::Null);
}

#[test]
fn single_scalar_unwraps() {
    assert_eq!(result_shape(1, 1), ResultShape::Scalar);
}

#[test]
fn single_row_multi_col_returns_object() {
    assert_eq!(result_shape(1, 2), ResultShape::Object);
}

#[test]
fn multi_row_returns_array() {
    assert_eq!(result_shape(2, 1), ResultShape::Array);
}

#[test]
fn broker_publish_argument_checks() {
    assert_eq!(
        prepare_broker_publish("", message(Some("t"), PayloadField::Text("x".to_string()))).err().unwrap(),
        "__brokerPublish: 'name' is required"
    );
    let mut not_object = message(Some("t"), PayloadField::Text("x".to_string()));
    not_object.is_object = false;
    assert_eq!(
        prepare_broker_publish("kafka", not_object).err().unwrap(),
        "__brokerPublish: 'msg' must be an object"
    );
    assert_eq!(
        prepare_broker_publish("kafka", message(None, PayloadField::Text("x".to_string()))).err().unwrap(),
        "__brokerPublish: 'destination' is required (string)"
    );
    assert_eq!(
        prepare_broker_publish("kafka", message(Some("t"), PayloadField::Missing)).err().unwrap(),
        "__brokerPublish: 'payload' is required"
    );
    let m = prepare_broker_publish("kafka", message(Some("t"), PayloadField::Text("x".to_string()))).ok().unwrap();
    assert_eq!(m.destination, "t");
    assert_eq!(m.payload, b"x".to_vec());
}

#[test]
fn broker_failures() {
    assert_eq!(
        broker_failure_message(&BrokerFailure::NotBroker("pg".to_string())),
        "datasource 'pg' is not a broker datasource"
    );
    assert_eq!(
        broker_failure_message(&BrokerFailure::DriverMissing("kafka".to_string())),
        "broker driver 'kafka' not registered in DriverFactory"
    );
    assert_eq!(
        broker_failure_message(&BrokerFailure::CreateProducer("refused".to_string())),
        "create_producer failed: refused"
    );
    assert_eq!(broker_failure_message(&BrokerFailure::Publish("timeout".to_string())), "publish failed: timeout");
}

#[test]
fn ddl_preconditions() {
    assert_eq!(
        ddl_refusal(false, "Some(Rest)", true, true, true, true, "pg").unwrap(),
        "ctx.ddl() is only available during application initialization (got task_kind=Some(Rest))"
    );
    assert_eq!(ddl_refusal(true, "", false, true, true, true, "pg").unwrap(), "ctx.ddl(): app_id is required");
    assert_eq!(
        ddl_refusal(true, "", true, false, true, true, "pg").unwrap(),
        "ctx.ddl(): DriverFactory not available"
    );
    assert_eq!(
        ddl_refusal(true, "", true, true, false, true, "pg").unwrap(),
        "ctx.ddl(): Tokio runtime not available"
    );
    assert_eq!(
        ddl_refusal(true, "", true, true, true, false, "pg").unwrap(),
        "ctx.ddl('pg', ...): datasource not found"
    );
    assert!(ddl_refusal(true, "", true, true, true, true, "pg").is_none());
    assert!(!ddl_whitelist_applies(None));
    assert!(!ddl_whitelist_applies(Some(0)));
    assert!(ddl_whitelist_applies(Some(2)));
}

#[test]
fn direct_dispatch_failures() {
    assert!(!direct_dispatch_arguments_given("", "readFile"));
    assert!(!direct_dispatch_arguments_given("fs", ""));
    assert!(direct_dispatch_arguments_given("fs", "readFile"));
    assert_eq!(
        direct_dispatch_message(&DirectDispatchFailure::MissingArguments),
        "__directDispatch: 'name' and 'operation' are required"
    );
    assert_eq!(
        direct_dispatch_message(&DirectDispatchFailure::NoRuntime),
        "__directDispatch: tokio runtime handle not available"
    );
    assert_eq!(
        direct_dispatch_message(&DirectDispatchFailure::NotDirect("pg".to_string())),
        "datasource 'pg' is not a direct-dispatch datasource"
    );
    assert_eq!(
        direct_dispatch_message(&DirectDispatchFailure::Connect("denied".to_string())),
        "connect failed: denied"
    );
    assert_eq!(
        direct_dispatch_message(&DirectDispatchFailure::Operation {
            operation: "readFile".to_string(),
            cause: "not found".to_string()
        }),
        "readFile: not found"
    );
}

#[test]
fn datasource_build_errors() {
    assert_eq!(
        datasource_build_error(true, "refused"),
        "ctx.datasource().build() error: connection failed: refused"
    );
    assert_eq!(
        datasource_build_error(false, "syntax error"),
        "ctx.datasource().build() error: query failed: syntax error"
    );
}
