use riversd::app_paths::boundary_from_referrer;
use riversd::engine_rules::DEFAULT_HEAP_LIMIT;
use riversd::task_error::TaskError;
use riversd::js_task::{
    effective_heap_limit, entrypoint_lookup_error, isolate_fate, load_failure,
    module_source_plan, promise_pending, promise_rejected, settle_call_failure, task_value,
    thrown_error, unreadable_module, worker_crash, CacheLookup, EntrypointLookup, IsolateFate,
    LoadStage, SourcePlan,
};
use riversd::module_resolution::{outside_boundary_message, unresolvable_import_message};
use riversd::wasm::{
    wasm_call_failure, wasm_missing_function, wasm_stage_failure, wasm_unreadable_module,
    wasm_worker_crash, WasmStage,
};

fn handler_message(e: TaskError) -> String {
    match e {
        TaskError::HandlerError(m) => m,
        _ => panic!("expected a handler error"),
    }
}

#[test]
fn heap_limit_defaults_when_unset() {
    assert_eq!(effective_heap_limit(0), DEFAULT_HEAP_LIMIT);
    assert_eq!(effective_heap_limit(64 * 1024 * 1024), 67_108_864);
}

#[test]
fn source_plan_prefers_inline_then_cache() {
    assert_eq!(
        module_source_plan(true, "typescript", "h.ts", CacheLookup::Hit),
        SourcePlan::Inline { compile: true }
    );
    assert_eq!(
        module_source_plan(true, "javascript", "h.ts", CacheLookup::Hit),
        SourcePlan::Inline { compile: false }
    );
    assert_eq!(
        module_source_plan(false, "javascript", "h.js", CacheLookup::Hit),
        SourcePlan::Cached
    );
}

#[test]
fn source_plan_on_cache_miss() {
    let strict = CacheLookup::Miss { strict_armed: true, production: true };
    assert_eq!(module_source_plan(false, "javascript", "h.js", strict), SourcePlan::NotRegistered);
    let dev = CacheLookup::Miss { strict_armed: true, production: false };
    assert_eq!(
        module_source_plan(false, "javascript", "h.ts", dev),
        SourcePlan::Disk { compile: true }
    );
    let unarmed = CacheLookup::Miss { strict_armed: false, production: true };
    assert_eq!(
        module_source_plan(false, "javascript", "h.js", unarmed),
        SourcePlan::Disk { compile: false }
    );
    assert_eq!(
        module_source_plan(false, "typescript", "h.js", CacheLookup::NotInstalled),
        SourcePlan::Disk { compile: true }
    );
}

#[test]
fn unreadable_module_hides_host_prefix() {
    assert_eq!(
        handler_message(unreadable_module("/srv/bundles/shop/libraries/h.ts", "No such file")),
        "cannot read module 'shop/libraries/h.ts': No such file"
    );
}

#[test]
fn load_failures_by_stage() {
    assert!(matches!(
        load_failure(LoadStage::ScriptCompile, Some("x"), true, 500),
        TaskError::Timeout(500)
    ));
    assert_eq!(
        handler_message(load_failure(LoadStage::ScriptCompile, Some("SyntaxError: x"), false, 500)),
        "JS compilation failed: SyntaxError: x"
    );
    assert_eq!(
        handler_message(load_failure(LoadStage::ScriptRun, None, false, 500)),
        "JS top-level execution failed: unknown"
    );
    assert_eq!(
        handler_message(load_failure(LoadStage::ModuleCompile, None, true, 500)),
        "module compilation failed: unknown"
    );
    assert_eq!(
        handler_message(load_failure(LoadStage::ModuleInstantiate, None, false, 500)),
        "module instantiation: module instantiation failed"
    );
    assert_eq!(
        handler_message(load_failure(LoadStage::ModuleEvaluate, Some("boom"), false, 500)),
        "module evaluation: boom"
    );
}

#[test]
fn entrypoint_lookup_messages() {
    assert_eq!(
        handler_message(entrypoint_lookup_error("onRequest", EntrypointLookup::MissingExport)),
        "exported function 'onRequest' not found on module namespace"
    );
    assert_eq!(
        handler_message(entrypoint_lookup_error("onRequest", EntrypointLookup::MissingGlobal)),
        "function 'onRequest' not found"
    );
    assert_eq!(
        handler_message(entrypoint_lookup_error("onRequest", EntrypointLookup::NotCallable)),
        "'onRequest' is not a function"
    );
}

#[test]
fn thrown_errors_keep_the_stack() {
    assert_eq!(
        handler_message(thrown_error("h", Some("Error: bad"), None)),
        "handler 'h' threw: Error: bad"
    );
    assert_eq!(handler_message(thrown_error("h", None, None)), "handler 'h' threw: unknown exception");
    match thrown_error("h", Some("Error: bad"), Some("at h (a.ts:1:2)".to_string())) {
        TaskError::HandlerErrorWithStack { message, stack } => {
            assert_eq!(message, "handler 'h' threw: Error: bad");
            assert_eq!(stack, "at h (a.ts:1:2)");
        }
        _ => panic!("expected a stack"),
    }
}

#[test]
fn promise_failures() {
    assert_eq!(
        handler_message(promise_rejected("h", "nope")),
        "async handler 'h' rejected: nope"
    );
    assert_eq!(
        handler_message(promise_pending("h", 5000)),
        "async handler 'h' promise still pending after timeout: 5000ms"
    );
}

#[test]
fn call_failures_are_settled() {
    assert!(matches!(settle_call_failure(TaskError::Timeout(0), 750, None), TaskError::Timeout(750)));
    let thrown = TaskError::HandlerErrorWithStack { message: "m".to_string(), stack: "s".to_string() };
    match settle_call_failure(thrown, 750, Some(("pg".to_string(), "disk full".to_string()))) {
        TaskError::TransactionCommitFailed { datasource, message } => {
            assert_eq!(datasource, "pg");
            assert_eq!(message, "disk full");
        }
        _ => panic!("expected a failed commit"),
    }
    let thrown = TaskError::HandlerErrorWithStack { message: "m".to_string(), stack: "s".to_string() };
    assert!(matches!(
        settle_call_failure(thrown, 750, None),
        TaskError::HandlerErrorWithStack { .. }
    ));
    assert_eq!(
        handler_message(settle_call_failure(TaskError::HandlerError("x".to_string()), 750, Some(("pg".to_string(), "d".to_string())))),
        "x"
    );
}

#[test]
fn task_value_prefers_resdata() {
    assert_eq!(task_value(Some(1), 2), 1);
    assert_eq!(task_value(None, 2), 2);
}

#[test]
fn isolate_reuse_rules() {
    assert_eq!(isolate_fate(true, false, false), IsolateFate::Release);
    assert_eq!(isolate_fate(true, false, true), IsolateFate::Recycle);
    assert_eq!(isolate_fate(true, true, false), IsolateFate::Discard);
    assert_eq!(isolate_fate(false, false, false), IsolateFate::Discard);
}

#[test]
fn worker_crash_message() {
    match worker_crash(3, "boom") {
        TaskError::WorkerCrash(m) => assert_eq!(m, "worker 3 panicked: boom"),
        _ => panic!("expected a crash"),
    }
}

#[test]
fn boundary_is_the_nearest_libraries_ancestor() {
    assert_eq!(
        boundary_from_referrer("/srv/shop/libraries/handlers/orders.ts"),
        Some("/srv/shop/libraries".to_string())
    );
    assert_eq!(
        boundary_from_referrer("/srv/shop/libraries/x/libraries/y.ts"),
        Some("/srv/shop/libraries/x/libraries".to_string())
    );
    assert_eq!(boundary_from_referrer("/srv/shop/libraries"), None);
    assert_eq!(boundary_from_referrer("/srv/shop/libraries/"), None);
    assert_eq!(boundary_from_referrer("/srv/shop/handlers/a.ts"), None);
    assert_eq!(
        boundary_from_referrer("/srv//shop/libraries//a.ts"),
        Some("/srv//shop/libraries".to_string())
    );
    assert_eq!(boundary_from_referrer("libraries/a.ts"), Some("libraries".to_string()));
    assert_eq!(boundary_from_referrer(""), None);
}

#[test]
fn resolution_failure_messages() {
    assert_eq!(
        unresolvable_import_message("./x.ts", "/srv/shop/libraries/h.ts", "No such file"),
        "module resolution failed: cannot resolve \"./x.ts\"\n  in shop/libraries/h.ts\n  reason: No such file"
    );
    assert_eq!(
        outside_boundary_message(
            "../../etc/x.js",
            "/srv/shop/libraries/h.ts",
            "/srv/etc/x.js"
        ),
        "module resolution failed: \"../../etc/x.js\" resolves outside app boundary\n  in shop/libraries/h.ts\n  resolved to: /srv/etc/x.js\n  boundary: shop/libraries"
    );
    assert_eq!(
        outside_boundary_message("./x.js", "/srv/shop/h.ts", "/srv/shop/x.js"),
        "module resolution failed: \"./x.js\" resolves outside app boundary\n  in /srv/shop/h.ts\n  resolved to: /srv/shop/x.js"
    );
}

#[test]
fn wasm_call_failures_are_classified() {
    assert!(matches!(wasm_call_failure("all fuel consumed by WebAssembly", false, 900, 1024), TaskError::Timeout(900)));
    assert!(matches!(wasm_call_failure("epoch deadline reached", false, 900, 1024), TaskError::Timeout(900)));
    assert!(matches!(wasm_call_failure("wasm trap: interrupt", false, 900, 1024), TaskError::Timeout(900)));
    assert!(matches!(wasm_call_failure("unreachable", true, 900, 1024), TaskError::Timeout(900)));
    assert_eq!(
        handler_message(wasm_call_failure("memory size limit reached", false, 900, 65536)),
        "WASM memory limit exceeded (max 65536 bytes)"
    );
    assert_eq!(
        handler_message(wasm_call_failure("memory access out of bounds", false, 900, 65536)),
        "WASM execution error: memory access out of bounds"
    );
}

#[test]
fn wasm_load_failures() {
    assert_eq!(
        handler_message(wasm_unreadable_module("m.wasm", "not found")),
        "cannot read WASM module 'm.wasm': not found"
    );
    assert_eq!(
        handler_message(wasm_stage_failure(WasmStage::Compile, "bad magic")),
        "WASM compilation failed: bad magic"
    );
    assert_eq!(
        handler_message(wasm_stage_failure(WasmStage::Instantiate, "missing import")),
        "WASM instantiation failed: missing import"
    );
    assert_eq!(
        handler_message(wasm_missing_function("run")),
        "WASM function 'run' not found in module"
    );
    match wasm_worker_crash(2, "boom") {
        TaskError::WorkerCrash(m) => assert_eq!(m, "wasm worker 2 panicked: boom"),
        _ => panic!("expected a crash"),
    }
}
