//! Rules of the host callbacks that handlers reach through `ctx`: the
//! time budget of host work, the reserved key namespaces of `ctx.store`,
//! and the transaction protocol of `ctx.transaction` (one transaction per
//! task, committed when the callback returns, rolled back when it throws).

use vstd::prelude::*;
use crate::text::{chars_of, decimal, push_decimal, push_str, starts_with};

verus! {

/// Wall-clock budget, in milliseconds, of synchronous host work driven
/// from a V8 worker.
pub const HOST_CALLBACK_TIMEOUT_MS: u64 = 30_000;

/// The message thrown when host work exceeds its budget.
pub open spec fn timeout_message(callback: Seq<char>) -> Seq<char> {
    "host callback '"@ + callback + "' timed out after "@ + decimal(HOST_CALLBACK_TIMEOUT_MS as nat)
        + "ms"@
}

/// The message thrown when a host callback's work exceeds its budget.
pub fn host_timeout_message(callback: &str) -> (r: String)
    ensures
        r@ == timeout_message(callback@),
{
    let mut s = String::new();
    push_str(&mut s, "host callback '");
    push_str(&mut s, callback);
    push_str(&mut s, "' timed out after ");
    push_decimal(&mut s, HOST_CALLBACK_TIMEOUT_MS);
    push_str(&mut s, "ms");
    proof {
        assert(s@ =~= timeout_message(callback@));
    }
    s
}

/// The key prefixes reserved for the system in the task store.
pub open spec fn reserved_prefixes() -> Seq<Seq<char>> {
    seq!["session:"@, "csrf:"@, "cache:"@, "rivers:"@, "poll:"@, "raft:"@]
}

/// Whether a store key lies in a reserved namespace.
pub open spec fn is_reserved_key(key: Seq<char>) -> bool {
    exists|i: int|
        0 <= i < reserved_prefixes().len() && crate::text::has_prefix(key, reserved_prefixes()[i])
}

/// Whether a store key uses a reserved namespace prefix (`session:`,
/// `csrf:`, `cache:`, `rivers:`, `poll:` or `raft:`).
pub fn store_key_is_reserved(key: &str) -> (r: bool)
    ensures
        r == is_reserved_key(key@),
{
    let k = chars_of(key);
    let prefixes: [&str; 6] = ["session:", "csrf:", "cache:", "rivers:", "poll:", "raft:"];
    let mut i: usize = 0;
    while i < 6
        invariant
            k@ == key@,
            forall|j: int| 0 <= j < 6 ==> prefixes@[j]@ == reserved_prefixes()[j],
            i <= 6,
            forall|j: int| 0 <= j < i ==> !crate::text::has_prefix(key@, reserved_prefixes()[j]),
        decreases 6 - i,
    {
        let p = chars_of(prefixes[i]);
        if starts_with(k.as_slice(), p.as_slice()) {
            proof {
                assert(crate::text::has_prefix(key@, reserved_prefixes()[i as int]));
            }
            return true;
        }
        i = i + 1;
    }
    false
}

/// The message thrown for a store key in a reserved namespace.
pub fn reserved_key_message(key: &str) -> (r: String)
    ensures
        r@ == "ctx.store: key '"@ + key@ + "' uses reserved namespace"@,
{
    let mut s = String::new();
    push_str(&mut s, "ctx.store: key '");
    push_str(&mut s, key);
    push_str(&mut s, "' uses reserved namespace");
    proof {
        assert(s@ =~= "ctx.store: key '"@ + key@ + "' uses reserved namespace"@);
    }
    s
}

/// Where a `ctx.store` operation goes.
#[derive(PartialEq, Eq, Structural, Clone, Copy, Debug)]
pub enum StoreRoute {
    /// Refused: the key is reserved.
    Reserved,
    /// The configured storage engine.
    Backend,
    /// The task's in-memory map (development mode only).
    InMemory,
    /// Refused: no storage engine and not in development mode.
    NoBackend,
}

/// Routes a `ctx.store` operation: reserved keys are refused; with a
/// storage engine the operation goes to it; without one, only development
/// mode falls back to memory, and production refuses.
pub fn store_route(key: &str, has_engine: bool, dev_no_storage: bool) -> (r: StoreRoute)
    ensures
        is_reserved_key(key@) ==> r == StoreRoute::Reserved,
        !is_reserved_key(key@) && has_engine ==> r == StoreRoute::Backend,
        !is_reserved_key(key@) && !has_engine && dev_no_storage ==> r == StoreRoute::InMemory,
        !is_reserved_key(key@) && !has_engine && !dev_no_storage ==> r == StoreRoute::NoBackend,
{
    if store_key_is_reserved(key) {
        StoreRoute::Reserved
    } else if has_engine {
        StoreRoute::Backend
    } else if dev_no_storage {
        StoreRoute::InMemory
    } else {
        StoreRoute::NoBackend
    }
}

/// The message thrown when no storage engine is configured, for the
/// operation `op` (`get`, `set` or `del`).
pub fn no_storage_message(op: &str, key: &str) -> (r: String)
    ensures
        r@ == "ctx.store."@ + op@ + "('"@ + key@
            + "'): no StorageEngine configured (set RIVERS_DEV_NO_STORAGE=1 to allow in-memory fallback)"@,
{
    let mut s = String::new();
    push_str(&mut s, "ctx.store.");
    push_str(&mut s, op);
    push_str(&mut s, "('");
    push_str(&mut s, key);
    push_str(
        &mut s,
        "'): no StorageEngine configured (set RIVERS_DEV_NO_STORAGE=1 to allow in-memory fallback)",
    );
    proof {
        assert(s@ =~= "ctx.store."@ + op@ + "('"@ + key@
            + "'): no StorageEngine configured (set RIVERS_DEV_NO_STORAGE=1 to allow in-memory fallback)"@);
    }
    s
}

/// How a `ctx.store` operation on the storage engine failed.
#[derive(PartialEq, Eq, Structural, Clone, Copy, Debug)]
pub enum StoreFailure {
    /// No async runtime was available to run it.
    RuntimeUnavailable,
    /// The storage engine reported an error.
    Backend,
}

/// The message thrown when a `ctx.store` operation `op` (`get`, `set` or
/// `del`) on `key` fails with `cause`.
pub fn store_failure_message(op: &str, key: &str, failure: StoreFailure, cause: &str) -> (r: String)
    ensures
        r@ == "ctx.store."@ + op@ + "('"@ + key@ + "'): "@ + match failure {
            StoreFailure::RuntimeUnavailable => "tokio runtime unavailable: "@,
            StoreFailure::Backend => "backend error: "@,
        } + cause@,
{
    let mut s = String::new();
    push_str(&mut s, "ctx.store.");
    push_str(&mut s, op);
    push_str(&mut s, "('");
    push_str(&mut s, key);
    push_str(&mut s, "'): ");
    match failure {
        StoreFailure::RuntimeUnavailable => push_str(&mut s, "tokio runtime unavailable: "),
        StoreFailure::Backend => push_str(&mut s, "backend error: "),
    }
    push_str(&mut s, cause);
    s
}

/// The checks before a transaction begins, in order: two arguments, a
/// function as the second, no transaction already active on the task, a
/// datasource known to the task, and a driver factory.
pub open spec fn transaction_refusal(
    arg_count: nat,
    second_is_function: bool,
    already_active: bool,
    ds_name: Seq<char>,
    ds_known: bool,
    factory_available: bool,
) -> Option<Seq<char>> {
    if arg_count < 2 {
        Some("ctx.transaction requires two arguments: (datasource: string, fn: Function)"@)
    } else if !second_is_function {
        Some("ctx.transaction second argument must be a function"@)
    } else if already_active {
        Some("TransactionError: nested transactions not supported"@)
    } else if !ds_known {
        Some("TransactionError: datasource \""@ + ds_name + "\" not found in task config"@)
    } else if !factory_available {
        Some(
            "TransactionError: driver factory not available — transactions require configured datasources"@,
        )
    } else {
        None
    }
}

/// Checks whether a transaction may begin; the refusal message when not.
pub fn transaction_preflight(
    arg_count: usize,
    second_is_function: bool,
    already_active: bool,
    ds_name: &str,
    ds_known: bool,
    factory_available: bool,
) -> (r: Option<String>)
    ensures
        match transaction_refusal(
            arg_count as nat,
            second_is_function,
            already_active,
            ds_name@,
            ds_known,
            factory_available,
        ) {
            Some(m) => r matches Some(s) && s@ == m,
            None => r is None,
        },
{
    if arg_count < 2 {
        Some("ctx.transaction requires two arguments: (datasource: string, fn: Function)".to_owned())
    } else if !second_is_function {
        Some("ctx.transaction second argument must be a function".to_owned())
    } else if already_active {
        Some("TransactionError: nested transactions not supported".to_owned())
    } else if !ds_known {
        let mut s = String::new();
        push_str(&mut s, "TransactionError: datasource \"");
        push_str(&mut s, ds_name);
        push_str(&mut s, "\" not found in task config");
        proof {
            assert(s@ =~= "TransactionError: datasource \""@ + ds_name@ + "\" not found in task config"@);
        }
        Some(s)
    } else if !factory_available {
        Some(
            "TransactionError: driver factory not available — transactions require configured datasources".to_owned(),
        )
    } else {
        None
    }
}

/// Only one transaction can be open on a task: a second
/// `ctx.transaction` while one is active is refused.
pub proof fn law_no_nested_transactions(ds_name: Seq<char>, ds_known: bool, factory_available: bool)
    ensures
        transaction_refusal(2, true, true, ds_name, ds_known, factory_available) == Some(
            "TransactionError: nested transactions not supported"@,
        ),
{
}

/// The message thrown when a transaction cannot begin: a driver without
/// transaction support is named as such; any other failure is reported
/// with its cause.
pub fn begin_failure_message(ds_name: &str, unsupported: bool, cause: &str) -> (r: String)
    ensures
        unsupported ==> r@ == "TransactionError: datasource \""@ + ds_name@
            + "\" does not support transactions"@,
        !unsupported ==> r@ == "TransactionError: begin failed: "@ + cause@,
{
    let mut s = String::new();
    if unsupported {
        push_str(&mut s, "TransactionError: datasource \"");
        push_str(&mut s, ds_name);
        push_str(&mut s, "\" does not support transactions");
        proof {
            assert(s@ =~= "TransactionError: datasource \""@ + ds_name@
                + "\" does not support transactions"@);
        }
    } else {
        push_str(&mut s, "TransactionError: begin failed: ");
        push_str(&mut s, cause);
    }
    s
}

/// How the end of a transaction went.
pub enum CommitOutcome {
    Committed,
    Failed(String),
    TimedOut,
}

/// What is recorded and thrown after a commit: nothing when it committed;
/// otherwise the failure recorded for the task (datasource and cause) and
/// the message thrown to the handler.
pub fn commit_failure(ds_name: &str, outcome: &CommitOutcome) -> (r: Option<(String, String)>)
    ensures
        match outcome {
            CommitOutcome::Committed => r is None,
            CommitOutcome::Failed(e) => r matches Some((note, msg)) && note@ == e@ && msg@
                == "TransactionError: commit failed on datasource '"@ + ds_name@ + "': "@ + e@,
            CommitOutcome::TimedOut => r matches Some((note, msg)) && note@ == "commit timed out after "@
                + decimal(HOST_CALLBACK_TIMEOUT_MS as nat) + "ms"@ && msg@
                == "TransactionError: commit on datasource '"@ + ds_name@ + "' timed out after "@
                + decimal(HOST_CALLBACK_TIMEOUT_MS as nat) + "ms"@,
        },
{
    match outcome {
        CommitOutcome::Committed => None,
        CommitOutcome::Failed(e) => {
            let mut msg = String::new();
            push_str(&mut msg, "TransactionError: commit failed on datasource '");
            push_str(&mut msg, ds_name);
            push_str(&mut msg, "': ");
            push_str(&mut msg, e.as_str());
            proof {
                assert(msg@ =~= "TransactionError: commit failed on datasource '"@ + ds_name@ + "': "@
                    + e@);
            }
            Some((e.clone(), msg))
        },
        CommitOutcome::TimedOut => {
            let mut note = String::new();
            push_str(&mut note, "commit timed out after ");
            push_decimal(&mut note, HOST_CALLBACK_TIMEOUT_MS);
            push_str(&mut note, "ms");
            let mut msg = String::new();
            push_str(&mut msg, "TransactionError: commit on datasource '");
            push_str(&mut msg, ds_name);
            push_str(&mut msg, "' timed out after ");
            push_decimal(&mut msg, HOST_CALLBACK_TIMEOUT_MS);
            push_str(&mut msg, "ms");
            proof {
                assert(note@ =~= "commit timed out after "@ + decimal(HOST_CALLBACK_TIMEOUT_MS as nat)
                    + "ms"@);
                assert(msg@ =~= "TransactionError: commit on datasource '"@ + ds_name@
                    + "' timed out after "@ + decimal(HOST_CALLBACK_TIMEOUT_MS as nat) + "ms"@);
            }
            Some((note, msg))
        },
    }
}

} // verus!
