use riversd::log_control::LogController;
use riversd::rate_limit::{
    step_bucket, Bucket, RateLimitConfig, RateLimitResult, RateLimitStrategy, RateLimiter, TOKEN_UNIT,
};
use riversd::wasm::{
    clear_wasm_cache, epoch_deadline_ticks, fuel_budget, guest_bytes, output_status,
    wasm_app_name, ModuleCache, PoolSettings, WasmtimeConfig, WasmtimeWorker,
};

#[test]
fn log_controller_set_and_reset() {
    let mut c = LogController::new("info", |f: &str| if f == "bad" { Err("nope".to_string()) } else { Ok(()) });
    assert_eq!(c.current(), "info");
    assert!(c.set("debug").is_ok());
    assert_eq!(c.current(), "debug");
    assert_eq!(c.set("bad").unwrap_err(), "nope");
    assert_eq!(c.current(), "debug");
    assert!(c.reset().is_ok());
    assert_eq!(c.current(), "info");
}

#[test]
fn wasm_config_and_worker() {
    let d = WasmtimeConfig::default();
    assert_eq!((d.instance_pool_size, d.fuel_limit, d.memory_pages), (4, 1_000_000, 256));
    let w = WasmtimeWorker::new(d, Ok(())).unwrap();
    assert_eq!(w.fuel_limit(), 1_000_000);
    assert_eq!(w.memory_pages(), 256);
    assert_eq!(w.pool_size(), 4);
    assert_eq!(WasmtimeWorker::new(d, Err("x".into())).unwrap_err(), "wasmtime engine init: x");
    let c = WasmtimeWorker::config_from_pool(&PoolSettings { workers: 2, task_timeout_ms: 30, max_heap_mb: 16 });
    assert_eq!((c.instance_pool_size, c.fuel_limit, c.memory_pages), (2, 30_000, 256));
}

#[test]
fn wasm_budgets() {
    assert_eq!(fuel_budget(0), 1_000_000);
    assert_eq!(fuel_budget(5), 5000);
    assert_eq!(epoch_deadline_ticks(0, 0), 100);
    assert_eq!(epoch_deadline_ticks(100, 0), 10);
    assert_eq!(epoch_deadline_ticks(5, 10), 1);
    assert_eq!(wasm_app_name(""), "wasm");
    assert_eq!(wasm_app_name("shop"), "shop");
}

#[test]
fn wasm_guest_memory() {
    let mem = vec![1u8, 2, 3, 4, 5];
    assert_eq!(guest_bytes(&mem, 1, 3), Some(vec![2, 3, 4]));
    assert_eq!(guest_bytes(&mem, 4, 2), None);
    assert_eq!(output_status(3, 0, 10, 5), (3, Some(0)));
    assert_eq!(output_status(11, 0, 10, 100), (-1, None));
    assert_eq!(output_status(3, 4, 10, 5), (-1, None));
}

#[test]
fn module_cache_clears() {
    let mut cache: ModuleCache<u32> = ModuleCache::new();
    cache.insert("/a.wasm", 1);
    cache.insert("/a.wasm", 2);
    assert_eq!(cache.get("/a.wasm"), Some(1));
    clear_wasm_cache(&mut cache);
    assert_eq!(cache.get("/a.wasm"), None);
}

#[test]
fn rate_limiter_admits_burst_then_limits() {
    let cfg = RateLimitConfig { requests_per_minute: 60, burst_size: 2, strategy: RateLimitStrategy::Ip };
    let mut l = RateLimiter::new(&cfg);
    assert_eq!(l.check_at("k", 0), RateLimitResult::Allowed);
    assert_eq!(l.check_at("k", 0), RateLimitResult::Allowed);
    assert!(matches!(l.check_at("k", 0), RateLimitResult::Limited { .. }));
    assert_eq!(l.check_at("other", 0), RateLimitResult::Allowed);
    assert_eq!(l.bucket_count(), 2);
    assert_eq!(l.check_at("k", 1_000_000_000), RateLimitResult::Allowed);
}

#[test]
fn refill_counts_whole_milliseconds_since_the_last_request() {
    // One token per millisecond; capacity of ten tokens.
    let cap = 10 * TOKEN_UNIT;
    let b = Bucket { tokens: 0, last_refill_ns: 0 };
    // 0.6 ms: no whole millisecond yet; the bucket counts as refilled now.
    let (b1, r1) = step_bucket(b, 600_000, cap, TOKEN_UNIT);
    assert!(matches!(r1, RateLimitResult::Limited { .. }));
    assert_eq!(b1.last_refill_ns, 600_000);
    // 2.1 ms: one whole millisecond since then, one token, taken.
    let (b2, r2) = step_bucket(b1, 2_100_000, cap, TOKEN_UNIT);
    assert_eq!(r2, RateLimitResult::Allowed);
    assert_eq!(b2.last_refill_ns, 2_100_000);
    assert_eq!(b2.tokens, 0);
}

#[test]
fn log_filter_is_the_last_successful_change() {
    let mut c = LogController::new("info", |f: &str| if f.starts_with("bad") { Err(format!("rejected {f}")) } else { Ok(()) });
    assert!(c.set("debug").is_ok());
    assert!(c.set("warn").is_ok());
    assert!(c.set("bad1").is_err());
    assert_eq!(c.current(), "warn");
    assert!(c.reset().is_ok());
    assert!(c.set("bad2").is_err());
    assert_eq!(c.current(), "info");
}

#[test]
fn reset_failure_keeps_the_set_filter() {
    let mut c = LogController::new("bad-initial", |f: &str| if f.starts_with("bad") { Err("no".to_string()) } else { Ok(()) });
    assert!(c.set("trace").is_ok());
    assert_eq!(c.reset().unwrap_err(), "no");
    assert_eq!(c.current(), "trace");
}

#[test]
fn module_cache_clear_twice_is_clear_once() {
    let mut cache: ModuleCache<u32> = ModuleCache::new();
    cache.insert("/a.wasm", 1);
    cache.insert("/b.wasm", 2);
    clear_wasm_cache(&mut cache);
    clear_wasm_cache(&mut cache);
    assert_eq!(cache.get("/a.wasm"), None);
    assert_eq!(cache.get("/b.wasm"), None);
    cache.insert("/a.wasm", 3);
    assert_eq!(cache.get("/a.wasm"), Some(3));
}
