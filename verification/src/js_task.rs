//! The decisions around running one JavaScript handler task: where the
//! handler's source comes from, how each failure of loading or calling it
//! is reported, which value the task returns, and whether the engine that
//! ran it may be reused.

use vstd::prelude::*;
use crate::app_paths::{push_redacted, redacted};
use crate::engine_rules::DEFAULT_HEAP_LIMIT;
use crate::task_error::TaskError;
use crate::text::{chars_of, decimal, ends_with, has_suffix, push_decimal, push_str, str_eq};

verus! {

/// The heap limit an engine is created with: the pool's setting, or the
/// default when the pool sets none.
pub fn effective_heap_limit(heap_bytes: usize) -> (r: usize)
    ensures
        r == if heap_bytes > 0 {
            heap_bytes
        } else {
            DEFAULT_HEAP_LIMIT
        },
{
    if heap_bytes > 0 {
        heap_bytes
    } else {
        DEFAULT_HEAP_LIMIT
    }
}

/// What the module cache said about a handler's entry module.
pub enum CacheLookup {
    /// No cache is installed yet.
    NotInstalled,
    /// The cache holds the module.
    Hit,
    /// The cache lacks the module; whether production strictness is armed
    /// and the cache runs in production mode.
    Miss { strict_armed: bool, production: bool },
}

/// Where a handler's source comes from.
#[derive(PartialEq, Eq, Structural, Debug)]
pub enum SourcePlan {
    /// The source given inline in the task's arguments; compiled from
    /// TypeScript first when `compile` is set.
    Inline { compile: bool },
    /// The compiled source held by the module cache.
    Cached,
    /// Refused: the module is not registered in the cache.
    NotRegistered,
    /// Read from disk; compiled from TypeScript first when `compile` is
    /// set.
    Disk { compile: bool },
}

/// Where a handler's source comes from: inline source always wins (compiled
/// when the language is TypeScript); then a cache hit; a miss is refused
/// once production strictness is armed in production mode; everything else
/// reads the module from disk, compiled when the path ends in `.ts` or the
/// language is TypeScript.
pub open spec fn source_plan(inline: bool, language: Seq<char>, path: Seq<char>, cache: CacheLookup) -> SourcePlan {
    if inline {
        SourcePlan::Inline { compile: language == "typescript"@ }
    } else {
        match cache {
            CacheLookup::Hit => SourcePlan::Cached,
            CacheLookup::Miss { strict_armed, production } => if strict_armed && production {
                SourcePlan::NotRegistered
            } else {
                SourcePlan::Disk { compile: has_suffix(path, ".ts"@) || language == "typescript"@ }
            },
            CacheLookup::NotInstalled => SourcePlan::Disk {
                compile: has_suffix(path, ".ts"@) || language == "typescript"@,
            },
        }
    }
}

/// Decides where a handler's source comes from.
pub fn module_source_plan(inline_source: bool, language: &str, path: &str, cache: CacheLookup) -> (r: SourcePlan)
    ensures
        r == source_plan(inline_source, language@, path@, cache),
{
    let typescript = str_eq(language, "typescript");
    if inline_source {
        return SourcePlan::Inline { compile: typescript };
    }
    let refuse = match cache {
        CacheLookup::Hit => {
            return SourcePlan::Cached;
        },
        CacheLookup::Miss { strict_armed, production } => strict_armed && production,
        CacheLookup::NotInstalled => false,
    };
    if refuse {
        return SourcePlan::NotRegistered;
    }
    let p = chars_of(path);
    let ts = chars_of(".ts");
    let compile = ends_with(p.as_slice(), ts.as_slice()) || typescript;
    SourcePlan::Disk { compile }
}

/// The failure reported when a module cannot be read from disk; the path
/// is shown in its app-relative form.
pub fn unreadable_module(path: &str, reason: &str) -> (r: TaskError)
    ensures
        r matches TaskError::HandlerError(m) && m@ == "cannot read module '"@ + redacted(path@)
            + "': "@ + reason@,
{
    let mut m = String::new();
    push_str(&mut m, "cannot read module '");
    push_redacted(&mut m, path);
    push_str(&mut m, "': ");
    push_str(&mut m, reason);
    TaskError::HandlerError(m)
}

/// The stage of loading a handler's source at which V8 failed.
#[derive(PartialEq, Eq, Structural, Clone, Copy, Debug)]
pub enum LoadStage {
    ScriptCompile,
    ScriptRun,
    ModuleCompile,
    ModuleInstantiate,
    ModuleEvaluate,
}

/// The text before the exception in a load failure.
pub open spec fn load_prefix(stage: LoadStage) -> Seq<char> {
    match stage {
        LoadStage::ScriptCompile => "JS compilation failed: "@,
        LoadStage::ScriptRun => "JS top-level execution failed: "@,
        LoadStage::ModuleCompile => "module compilation failed: "@,
        LoadStage::ModuleInstantiate => "module instantiation: "@,
        LoadStage::ModuleEvaluate => "module evaluation: "@,
    }
}

/// The text used when a load failure carries no exception.
pub open spec fn load_default(stage: LoadStage) -> Seq<char> {
    match stage {
        LoadStage::ScriptCompile | LoadStage::ScriptRun | LoadStage::ModuleCompile => "unknown"@,
        LoadStage::ModuleInstantiate => "module instantiation failed"@,
        LoadStage::ModuleEvaluate => "module evaluation failed"@,
    }
}

/// Whether a stage notices that the engine was terminated for time.
pub open spec fn load_checks_termination(stage: LoadStage) -> bool {
    stage == LoadStage::ScriptCompile || stage == LoadStage::ScriptRun
}

/// The failure reported when loading a handler's source fails at `stage`:
/// a timeout when a classic script was cut off by the watchdog, else the
/// stage's message with the exception's text (or the stage's default).
pub fn load_failure(stage: LoadStage, exception: Option<&str>, terminated: bool, timeout_ms: u64) -> (r: TaskError)
    ensures
        load_checks_termination(stage) && terminated ==> r == TaskError::Timeout(timeout_ms),
        !(load_checks_termination(stage) && terminated) ==> (r matches TaskError::HandlerError(m)
            && m@ == load_prefix(stage) + match exception {
            Some(e) => e@,
            None => load_default(stage),
        }),
{
    let checks = match stage {
        LoadStage::ScriptCompile | LoadStage::ScriptRun => true,
        _ => false,
    };
    if checks && terminated {
        return TaskError::Timeout(timeout_ms);
    }
    let mut m = String::new();
    match stage {
        LoadStage::ScriptCompile => push_str(&mut m, "JS compilation failed: "),
        LoadStage::ScriptRun => push_str(&mut m, "JS top-level execution failed: "),
        LoadStage::ModuleCompile => push_str(&mut m, "module compilation failed: "),
        LoadStage::ModuleInstantiate => push_str(&mut m, "module instantiation: "),
        LoadStage::ModuleEvaluate => push_str(&mut m, "module evaluation: "),
    }
    match exception {
        Some(e) => push_str(&mut m, e),
        None => match stage {
            LoadStage::ModuleInstantiate => push_str(&mut m, "module instantiation failed"),
            LoadStage::ModuleEvaluate => push_str(&mut m, "module evaluation failed"),
            _ => push_str(&mut m, "unknown"),
        },
    }
    TaskError::HandlerError(m)
}

/// Why the entrypoint could not be called.
#[derive(PartialEq, Eq, Structural, Clone, Copy, Debug)]
pub enum EntrypointLookup {
    /// Module mode: the module exports no such name.
    MissingExport,
    /// Script mode: the global object has no such property.
    MissingGlobal,
    /// The name is bound to something that is not a function.
    NotCallable,
}

/// The message for an entrypoint that cannot be called.
pub open spec fn lookup_message(function_name: Seq<char>, l: EntrypointLookup) -> Seq<char> {
    match l {
        EntrypointLookup::MissingExport => "exported function '"@ + function_name
            + "' not found on module namespace"@,
        EntrypointLookup::MissingGlobal => "function '"@ + function_name + "' not found"@,
        EntrypointLookup::NotCallable => "'"@ + function_name + "' is not a function"@,
    }
}

/// The failure reported for an entrypoint that cannot be called.
pub fn entrypoint_lookup_error(function_name: &str, l: EntrypointLookup) -> (r: TaskError)
    ensures
        r matches TaskError::HandlerError(m) && m@ == lookup_message(function_name@, l),
{
    let mut m = String::new();
    match l {
        EntrypointLookup::MissingExport => {
            push_str(&mut m, "exported function '");
            push_str(&mut m, function_name);
            push_str(&mut m, "' not found on module namespace");
        },
        EntrypointLookup::MissingGlobal => {
            push_str(&mut m, "function '");
            push_str(&mut m, function_name);
            push_str(&mut m, "' not found");
        },
        EntrypointLookup::NotCallable => {
            push_str(&mut m, "'");
            push_str(&mut m, function_name);
            push_str(&mut m, "' is not a function");
        },
    }
    TaskError::HandlerError(m)
}

/// The message for a handler that threw.
pub open spec fn thrown_message(function_name: Seq<char>, exception: Option<Seq<char>>) -> Seq<char> {
    "handler '"@ + function_name + "' threw: "@ + match exception {
        Some(e) => e,
        None => "unknown exception"@,
    }
}

/// The failure reported for a handler that threw: the exception's text
/// (or `unknown exception`), with its stack when it had one.
pub fn thrown_error(function_name: &str, exception: Option<&str>, stack: Option<String>) -> (r: TaskError)
    ensures
        ({
            let msg = thrown_message(
                function_name@,
                match exception {
                    Some(e) => Some(e@),
                    None => None,
                },
            );
            match stack {
                Some(s) => r matches TaskError::HandlerErrorWithStack { message, stack: st }
                    && message@ == msg && st == s,
                None => r matches TaskError::HandlerError(m) && m@ == msg,
            }
        }),
{
    let mut m = String::new();
    push_str(&mut m, "handler '");
    push_str(&mut m, function_name);
    push_str(&mut m, "' threw: ");
    match exception {
        Some(e) => push_str(&mut m, e),
        None => push_str(&mut m, "unknown exception"),
    }
    match stack {
        Some(s) => TaskError::HandlerErrorWithStack { message: m, stack: s },
        None => TaskError::HandlerError(m),
    }
}

/// The failure reported when an async handler's promise is rejected.
pub fn promise_rejected(function_name: &str, reason: &str) -> (r: TaskError)
    ensures
        r matches TaskError::HandlerError(m) && m@ == "async handler '"@ + function_name@
            + "' rejected: "@ + reason@,
{
    let mut m = String::new();
    push_str(&mut m, "async handler '");
    push_str(&mut m, function_name);
    push_str(&mut m, "' rejected: ");
    push_str(&mut m, reason);
    TaskError::HandlerError(m)
}

/// The failure reported when an async handler's promise is still pending
/// when the task's time is up.
pub fn promise_pending(function_name: &str, timeout_ms: u64) -> (r: TaskError)
    ensures
        r matches TaskError::HandlerError(m) && m@ == "async handler '"@ + function_name@
            + "' promise still pending after timeout: "@ + decimal(timeout_ms as nat) + "ms"@,
{
    let mut m = String::new();
    push_str(&mut m, "async handler '");
    push_str(&mut m, function_name);
    push_str(&mut m, "' promise still pending after timeout: ");
    push_decimal(&mut m, timeout_ms);
    push_str(&mut m, "ms");
    TaskError::HandlerError(m)
}

/// The failure a task ends with when calling its entrypoint failed: a
/// timeout is reported with the task's whole budget; a thrown exception
/// becomes a failed commit when the handler's commit had just failed;
/// anything else is kept.
pub fn settle_call_failure(err: TaskError, timeout_ms: u64, commit_failure: Option<(String, String)>) -> (r: TaskError)
    ensures
        err is Timeout ==> r == TaskError::Timeout(timeout_ms),
        (err is HandlerErrorWithStack && commit_failure is Some) ==> r
            == (TaskError::TransactionCommitFailed {
            datasource: (commit_failure->0).0,
            message: (commit_failure->0).1,
        }),
        !(err is Timeout) && !(err is HandlerErrorWithStack && commit_failure is Some) ==> r == err,
{
    match err {
        TaskError::Timeout(_) => TaskError::Timeout(timeout_ms),
        TaskError::HandlerErrorWithStack { message, stack } => match commit_failure {
            Some((datasource, driver_msg)) => TaskError::TransactionCommitFailed {
                datasource,
                message: driver_msg,
            },
            None => TaskError::HandlerErrorWithStack { message, stack },
        },
        other => other,
    }
}

/// The value a task returns: what the handler left in `ctx.resdata` when
/// it set it, else what the entrypoint returned.
pub fn task_value<V>(resdata: Option<V>, returned: V) -> (r: V)
    ensures
        r == match resdata {
            Some(v) => v,
            None => returned,
        },
{
    match resdata {
        Some(v) => v,
        None => returned,
    }
}

/// What happens to an engine after its task.
#[derive(PartialEq, Eq, Structural, Clone, Copy, Debug)]
pub enum IsolateFate {
    /// Back to the pool for the next task.
    Release,
    /// Dropped because its heap use passed the recycle threshold.
    Recycle,
    /// Dropped because the task failed or the heap limit was hit: its state
    /// cannot be trusted.
    Discard,
}

/// What happens to an engine after its task: a failed task or one that hit
/// the heap limit taints it; otherwise it is reused unless its heap use
/// passed the recycle threshold.
pub fn isolate_fate(task_ok: bool, oom_hit: bool, over_threshold: bool) -> (r: IsolateFate)
    ensures
        r == if !task_ok || oom_hit {
            IsolateFate::Discard
        } else if over_threshold {
            IsolateFate::Recycle
        } else {
            IsolateFate::Release
        },
{
    if !task_ok || oom_hit {
        IsolateFate::Discard
    } else if over_threshold {
        IsolateFate::Recycle
    } else {
        IsolateFate::Release
    }
}

/// The failure reported when the worker running a task crashed.
pub fn worker_crash(worker_id: usize, cause: &str) -> (r: TaskError)
    ensures
        r matches TaskError::WorkerCrash(m) && m@ == "worker "@ + decimal(worker_id as nat)
            + " panicked: "@ + cause@,
{
    let mut m = String::new();
    push_str(&mut m, "worker ");
    push_decimal(&mut m, worker_id as u64);
    push_str(&mut m, " panicked: ");
    push_str(&mut m, cause);
    TaskError::WorkerCrash(m)
}

/// The refusal of a task dispatched without an app: every task must name
/// the app it runs for.
pub fn dispatch_rejection(app_id: &str, task_kind: &str, module: &str, function: &str, trace_id: &str) -> (r: Option<TaskError>)
    ensures
        app_id@.len() > 0 ==> r is None,
        app_id@.len() == 0 ==> (r matches Some(TaskError::Internal(m)) && m@
            == "dispatch rejected: empty app_id (task_kind="@ + task_kind@ + ", entrypoint="@
            + module@ + "::"@ + function@ + ", trace_id="@ + trace_id@ + ")"@),
{
    if !app_id.is_empty() {
        return None;
    }
    let mut m = String::new();
    push_str(&mut m, "dispatch rejected: empty app_id (task_kind=");
    push_str(&mut m, task_kind);
    push_str(&mut m, ", entrypoint=");
    push_str(&mut m, module);
    push_str(&mut m, "::");
    push_str(&mut m, function);
    push_str(&mut m, ", trace_id=");
    push_str(&mut m, trace_id);
    push_str(&mut m, ")");
    proof {
        assert(m@ =~= "dispatch rejected: empty app_id (task_kind="@ + task_kind@ + ", entrypoint="@
            + module@ + "::"@ + function@ + ", trace_id="@ + trace_id@ + ")"@);
    }
    Some(TaskError::Internal(m))
}

/// The namespace of a task's `ctx.store` keys: `app:` and the app.
pub fn store_namespace(app_id: &str) -> (r: String)
    ensures
        r@ == "app:"@ + app_id@,
{
    let mut s = String::new();
    push_str(&mut s, "app:");
    push_str(&mut s, app_id);
    s
}

/// The DataView namespace of a task: the `_dv_namespace` argument when it
/// is a non-empty string.
pub fn dataview_namespace(arg: Option<&str>) -> (r: Option<String>)
    ensures
        match arg {
            Some(a) => if a@.len() > 0 {
                r matches Some(n) && n@ == a@
            } else {
                r is None
            },
            None => r is None,
        },
{
    match arg {
        Some(a) => if a.is_empty() {
            None
        } else {
            Some(a.to_owned())
        },
        None => None,
    }
}

/// How a task reaches one of its datasources.
pub enum DatasourceToken {
    /// Through the connection pool, by datasource id.
    Pooled(String),
    /// Directly, with a driver working over a root path.
    Direct { driver: String, root: String },
}

/// The datasources a task reaches directly: the name, driver and root of
/// each direct token, in order.
pub open spec fn direct_entries(tokens: Seq<(String, DatasourceToken)>) -> Seq<(Seq<char>, Seq<char>, Seq<char>)>
    decreases tokens.len(),
{
    if tokens.len() == 0 {
        Seq::empty()
    } else {
        let prior = direct_entries(tokens.drop_last());
        match tokens.last().1 {
            DatasourceToken::Direct { driver, root } => prior.push((tokens.last().0@, driver@, root@)),
            DatasourceToken::Pooled(_) => prior,
        }
    }
}

/// The views of (name, driver, root) triples.
pub open spec fn triples_view(v: Seq<(String, String, String)>) -> Seq<(Seq<char>, Seq<char>, Seq<char>)> {
    Seq::new(v.len(), |i: int| (v[i].0@, v[i].1@, v[i].2@))
}

/// The datasources a task reaches directly (pooled ones are left to the
/// pool).
pub fn direct_datasources(tokens: &Vec<(String, DatasourceToken)>) -> (r: Vec<(String, String, String)>)
    ensures
        triples_view(r@) == direct_entries(tokens@),
{
    let mut out: Vec<(String, String, String)> = Vec::new();
    let mut i: usize = 0;
    while i < tokens.len()
        invariant
            i <= tokens@.len(),
            triples_view(out@) == direct_entries(tokens@.take(i as int)),
        decreases tokens@.len() - i,
    {
        proof {
            assert(tokens@.take(i + 1).drop_last() =~= tokens@.take(i as int));
            assert(tokens@.take(i + 1).last() == tokens@[i as int]);
        }
        match &tokens[i].1 {
            DatasourceToken::Direct { driver, root } => {
                let ghost prev = out@;
                out.push((tokens[i].0.clone(), driver.clone(), root.clone()));
                proof {
                    assert(triples_view(out@) =~= triples_view(prev).push(
                        (tokens@[i as int].0@, driver@, root@),
                    ));
                }
            },
            DatasourceToken::Pooled(_) => {},
        }
        i = i + 1;
    }
    proof {
        assert(tokens@.take(tokens@.len() as int) =~= tokens@);
    }
    out
}

} // verus!
