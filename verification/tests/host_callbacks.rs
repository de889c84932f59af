use riversd::host_callbacks::{
    begin_failure_message, commit_failure, host_timeout_message, no_storage_message,
    reserved_key_message, store_failure_message, store_key_is_reserved, store_route,
    transaction_preflight, CommitOutcome, StoreFailure, StoreRoute, HOST_CALLBACK_TIMEOUT_MS,
};

#[test]
fn reserved_prefixes_match_canonical_list() {
    assert!(store_key_is_reserved("session:abc"));
    assert!(store_key_is_reserved("csrf:token"));
    assert!(store_key_is_reserved("cache:dataview"));
    assert!(store_key_is_reserved("rivers:node"));
    assert!(store_key_is_reserved("poll:foo"), "V8 must see poll: as reserved");
    assert!(store_key_is_reserved("raft:foo"), "V8 must see raft: as reserved");
    assert!(!store_key_is_reserved("user:data"));
}

#[test]
fn ddl_recv_timeout_returns_timeout_error_when_spawned_task_hangs() {
    let (_tx, rx) = std::sync::mpsc::channel::<Result<(), String>>();
    let budget = std::time::Duration::from_millis(50);
    let result = rx.recv_timeout(budget);
    assert!(
        matches!(result, Err(std::sync::mpsc::RecvTimeoutError::Timeout)),
        "expected Timeout, got {:?}",
        result
    );
}

#[test]
fn host_callback_budget_is_bounded_and_nonzero() {
    assert!(HOST_CALLBACK_TIMEOUT_MS > 0);
    assert!(HOST_CALLBACK_TIMEOUT_MS <= 5 * 60 * 1000);
}

#[test]
fn timeout_message_names_callback_and_budget() {
    assert_eq!(
        host_timeout_message("ctx.store.get"),
        format!("host callback 'ctx.store.get' timed out after {}ms", HOST_CALLBACK_TIMEOUT_MS)
    );
}

#[test]
fn store_routes() {
    assert_eq!(store_route("session:x", true, true), StoreRoute::Reserved);
    assert_eq!(store_route("k", true, false), StoreRoute::Backend);
    assert_eq!(store_route("k", false, true), StoreRoute::InMemory);
    assert_eq!(store_route("k", false, false), StoreRoute::NoBackend);
    assert_eq!(reserved_key_message("raft:x"), "ctx.store: key 'raft:x' uses reserved namespace");
    assert_eq!(
        no_storage_message("get", "k"),
        "ctx.store.get('k'): no StorageEngine configured (set RIVERS_DEV_NO_STORAGE=1 to allow in-memory fallback)"
    );
}

#[test]
fn nested_transactions_are_refused() {
    assert_eq!(
        transaction_preflight(2, true, true, "db", true, true).unwrap(),
        "TransactionError: nested transactions not supported"
    );
    assert_eq!(
        transaction_preflight(1, true, false, "db", true, true).unwrap(),
        "ctx.transaction requires two arguments: (datasource: string, fn: Function)"
    );
    assert_eq!(
        transaction_preflight(2, true, false, "db", false, true).unwrap(),
        "TransactionError: datasource \"db\" not found in task config"
    );
    assert!(transaction_preflight(2, true, false, "db", true, true).is_none());
}

#[test]
fn transaction_failure_messages() {
    assert_eq!(
        begin_failure_message("db", true, "x"),
        "TransactionError: datasource \"db\" does not support transactions"
    );
    assert_eq!(begin_failure_message("db", false, "boom"), "TransactionError: begin failed: boom");
    assert!(commit_failure("db", &CommitOutcome::Committed).is_none());
    let (note, msg) = commit_failure("db", &CommitOutcome::Failed("lost".into())).unwrap();
    assert_eq!(note, "lost");
    assert_eq!(msg, "TransactionError: commit failed on datasource 'db': lost");
    let (note, msg) = commit_failure("db", &CommitOutcome::TimedOut).unwrap();
    assert_eq!(note, format!("commit timed out after {}ms", HOST_CALLBACK_TIMEOUT_MS));
    assert_eq!(
        msg,
        format!("TransactionError: commit on datasource 'db' timed out after {}ms", HOST_CALLBACK_TIMEOUT_MS)
    );
}

#[test]
fn store_failure_messages() {
    assert_eq!(
        store_failure_message("get", "cart", StoreFailure::RuntimeUnavailable, "no reactor"),
        "ctx.store.get('cart'): tokio runtime unavailable: no reactor"
    );
    assert_eq!(
        store_failure_message("set", "cart", StoreFailure::Backend, "connection reset"),
        "ctx.store.set('cart'): backend error: connection reset"
    );
}
