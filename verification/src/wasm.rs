//! WebAssembly engine settings and the rules the WASM executor applies:
//! the pool configuration, the fuel and epoch budgets derived from a task
//! timeout, the guest-memory ranges that host functions read and write,
//! and the cache of compiled modules.

use vstd::prelude::*;
use crate::task_error::TaskError;
use crate::text::{contains_seq, contains_text, decimal, push_decimal, push_str, str_eq};

verus! {

/// Configuration for the WebAssembly engine.
#[derive(Debug, Clone, Copy, PartialEq, Eq, Structural)]
pub struct WasmtimeConfig {
    /// Number of pre-compiled instances in the pool.
    pub instance_pool_size: usize,
    /// Fuel limit for execution metering (0 = unlimited).
    pub fuel_limit: u64,
    /// Maximum linear memory pages (64 KiB each).
    pub memory_pages: u32,
}

impl Default for WasmtimeConfig {
    fn default() -> (r: Self)
        ensures
            r.instance_pool_size == 4,
            r.fuel_limit == 1_000_000,
            r.memory_pages == 256,
    {
        WasmtimeConfig { instance_pool_size: 4, fuel_limit: 1_000_000, memory_pages: 256 }
    }
}

/// The process-pool settings the engine configuration is derived from.
#[derive(Debug, Clone, Copy)]
pub struct PoolSettings {
    pub workers: usize,
    pub task_timeout_ms: u64,
    pub max_heap_mb: usize,
}

/// A WebAssembly engine worker with its configuration.
#[derive(Debug, Clone, Copy)]
pub struct WasmtimeWorker {
    config: WasmtimeConfig,
}

impl WasmtimeWorker {
    /// The worker's configuration.
    pub closed spec fn config(&self) -> WasmtimeConfig {
        self.config
    }

    /// Creates a worker once the engine has been checked: `engine_check`
    /// is the outcome of creating a fuel-metered engine; its error is
    /// reported as an engine initialisation failure.
    pub fn new(config: WasmtimeConfig, engine_check: Result<(), String>) -> (r: Result<Self, String>)
        ensures
            match engine_check {
                Ok(()) => r matches Ok(w) && w.config() == config,
                Err(e) => r matches Err(m) && m@ == "wasmtime engine init: "@ + e@,
            },
    {
        match engine_check {
            Ok(()) => Ok(WasmtimeWorker { config }),
            Err(e) => {
                let mut m = String::new();
                crate::text::push_str(&mut m, "wasmtime engine init: ");
                crate::text::push_str(&mut m, e.as_str());
                Err(m)
            },
        }
    }

    /// The configured fuel limit.
    pub fn fuel_limit(&self) -> (r: u64)
        ensures
            r == self.config().fuel_limit,
    {
        self.config.fuel_limit
    }

    /// The configured memory page limit.
    pub fn memory_pages(&self) -> (r: u32)
        ensures
            r == self.config().memory_pages,
    {
        self.config.memory_pages
    }

    /// The configured instance pool size.
    pub fn pool_size(&self) -> (r: usize)
        ensures
            r == self.config().instance_pool_size,
    {
        self.config.instance_pool_size
    }

    /// The engine configuration for a process pool: one instance per
    /// worker, 1000 fuel units per millisecond of task timeout, and the
    /// heap limit in 64 KiB pages (truncated to 32 bits).
    pub fn config_from_pool(pool: &PoolSettings) -> (r: WasmtimeConfig)
        requires
            pool.task_timeout_ms * 1000 <= u64::MAX,
            pool.max_heap_mb * 1024 <= usize::MAX,
        ensures
            r.instance_pool_size == pool.workers,
            r.fuel_limit == pool.task_timeout_ms * 1000,
            r.memory_pages == (pool.max_heap_mb * 1024 / 64) as u32,
    {
        WasmtimeConfig {
            instance_pool_size: pool.workers,
            fuel_limit: pool.task_timeout_ms * 1000,
            memory_pages: (pool.max_heap_mb * 1024 / 64) as u32,
        }
    }
}

/// Fuel granted to a task: 1000 units per millisecond of timeout, or a
/// million when there is no timeout.
pub open spec fn fuel_for(timeout_ms: u64) -> nat {
    if timeout_ms > 0 {
        (timeout_ms * 1000) as nat
    } else {
        1_000_000
    }
}

/// The fuel budget of a task.
pub fn fuel_budget(timeout_ms: u64) -> (r: u64)
    requires
        timeout_ms * 1000 <= u64::MAX,
    ensures
        r == fuel_for(timeout_ms),
{
    if timeout_ms > 0 {
        timeout_ms * 1000
    } else {
        1_000_000
    }
}

/// Epoch ticks before a task is interrupted: the timeout divided by the
/// epoch interval (10 ms when none is set), at least one; 100 when there is
/// no timeout.
pub open spec fn epoch_ticks_for(timeout_ms: u64, epoch_interval_ms: u64) -> nat {
    let interval: nat = if epoch_interval_ms > 0 {
        epoch_interval_ms as nat
    } else {
        10
    };
    if timeout_ms > 0 {
        if timeout_ms as nat / interval >= 1 {
            timeout_ms as nat / interval
        } else {
            1
        }
    } else {
        100
    }
}

/// The epoch deadline of a task, in ticks.
pub fn epoch_deadline_ticks(timeout_ms: u64, epoch_interval_ms: u64) -> (r: u64)
    ensures
        r == epoch_ticks_for(timeout_ms, epoch_interval_ms),
        r >= 1,
{
    let interval: u64 = if epoch_interval_ms > 0 {
        epoch_interval_ms
    } else {
        10
    };
    if timeout_ms > 0 {
        let t = timeout_ms / interval;
        if t >= 1 {
            t
        } else {
            1
        }
    } else {
        100
    }
}

/// The name under which a task's log lines are routed: its app id, or
/// `wasm` when it has none.
pub fn wasm_app_name(app_id: &str) -> (r: String)
    ensures
        r@ == if app_id@.len() == 0 {
            "wasm"@
        } else {
            app_id@
        },
{
    if app_id.is_empty() {
        "wasm".to_owned()
    } else {
        app_id.to_owned()
    }
}

/// The guest memory range `[ptr, ptr + len)` that a host function reads,
/// with both numbers taken as addresses the way the host converts them.
pub open spec fn guest_range(ptr: i32, len: i32) -> (int, int) {
    (ptr as usize as int, ptr as usize + len as usize)
}

/// The guest bytes a host function reads: the range `[ptr, ptr + len)` of
/// guest memory, or nothing when it lies outside memory.
pub fn guest_bytes(memory: &[u8], ptr: i32, len: i32) -> (r: Option<Vec<u8>>)
    requires
        (ptr as usize) + (len as usize) <= usize::MAX,
    ensures
        match r {
            Some(v) => {
                let (s, e) = guest_range(ptr, len);
                &&& s <= e <= memory@.len()
                &&& v@ == memory@.subrange(s, e)
            },
            None => {
                let (s, e) = guest_range(ptr, len);
                !(s <= e <= memory@.len())
            },
        },
{
    let start = ptr as usize;
    let end = start + len as usize;
    if start <= end && end <= memory.len() {
        let mut v: Vec<u8> = Vec::new();
        let mut i = start;
        while i < end
            invariant
                start <= i <= end <= memory@.len(),
                v@ == memory@.subrange(start as int, i as int),
            decreases end - i,
        {
            v.push(memory[i]);
            proof {
                assert(v@ =~= memory@.subrange(start as int, i + 1));
            }
            i = i + 1;
        }
        Some(v)
    } else {
        None
    }
}

/// Where a host function writes `n` result bytes into a guest buffer at
/// `out_ptr` of capacity `out_len`: the start offset when the result fits
/// the buffer and the buffer lies in memory.
pub open spec fn output_start(n: nat, out_ptr: i32, out_len: i32, mem_len: nat) -> Option<int> {
    if n > out_len as usize {
        None
    } else if out_ptr as usize + n <= mem_len {
        Some(out_ptr as usize as int)
    } else {
        None
    }
}

/// The status a host function returns for `n` result bytes: the number of
/// bytes written (as a 32-bit integer) when they are written, -1 when not.
pub fn output_status(n: usize, out_ptr: i32, out_len: i32, mem_len: usize) -> (r: (i32, Option<usize>))
    requires
        (out_ptr as usize) + n <= usize::MAX,
    ensures
        r.1 == match output_start(n as nat, out_ptr, out_len, mem_len as nat) {
            Some(s) => Some(s as usize),
            None => None::<usize>,
        },
        r.1 is Some ==> r.0 == n as i32,
        r.1 is None ==> r.0 == -1,
{
    if n > out_len as usize {
        (-1, None)
    } else {
        let start = out_ptr as usize;
        if start + n <= mem_len {
            (n as i32, Some(start))
        } else {
            (-1, None)
        }
    }
}

/// Compiled modules cached by module path, each path once.
pub struct ModuleCache<M> {
    paths: Vec<String>,
    modules: Vec<M>,
}

impl<M: Clone> ModuleCache<M> {
    /// The cached paths.
    pub closed spec fn keys(&self) -> Seq<Seq<char>> {
        Seq::new(self.paths@.len(), |i: int| self.paths@[i]@)
    }

    /// The module cached at position `i`.
    pub closed spec fn module_at(&self, i: int) -> M {
        self.modules@[i]
    }

    /// Paths and modules pair up and no path occurs twice.
    pub closed spec fn wf(&self) -> bool {
        &&& self.paths@.len() == self.modules@.len()
        &&& forall|i: int, j: int|
            0 <= i < j < self.paths@.len() ==> self.paths@[i]@ != self.paths@[j]@
    }

    /// An empty cache.
    pub fn new() -> (r: Self)
        ensures
            r.wf(),
            r.keys().len() == 0,
    {
        ModuleCache { paths: Vec::new(), modules: Vec::new() }
    }

    fn find(&self, path: &str) -> (r: Option<usize>)
        requires
            self.wf(),
        ensures
            match r {
                Some(i) => i < self.keys().len() && self.keys()[i as int] == path@,
                None => forall|i: int| 0 <= i < self.keys().len() ==> self.keys()[i] != path@,
            },
    {
        let mut i: usize = 0;
        while i < self.paths.len()
            invariant
                self.wf(),
                i <= self.paths@.len(),
                forall|k: int| 0 <= k < i ==> self.keys()[k] != path@,
            decreases self.paths@.len() - i,
        {
            if str_eq(self.paths[i].as_str(), path) {
                return Some(i);
            }
            i = i + 1;
        }
        None
    }

    /// The cached module for `path`, if any.
    pub fn get(&self, path: &str) -> (r: Option<M>)
        requires
            self.wf(),
        ensures
            match r {
                Some(m) => exists|i: int|
                    0 <= i < self.keys().len() && self.keys()[i] == path@ && cloned(
                        self.module_at(i),
                        m,
                    ),
                None => forall|i: int| 0 <= i < self.keys().len() ==> self.keys()[i] != path@,
            },
    {
        match self.find(path) {
            Some(i) => Some(self.modules[i].clone()),
            None => None,
        }
    }

    /// Caches `module` for `path` unless the path is already cached.
    pub fn insert(&mut self, path: &str, module: M)
        requires
            old(self).wf(),
        ensures
            final(self).wf(),
            (exists|i: int| 0 <= i < old(self).keys().len() && old(self).keys()[i] == path@)
                ==> final(self).keys() == old(self).keys(),
            (forall|i: int| 0 <= i < old(self).keys().len() ==> old(self).keys()[i] != path@)
                ==> final(self).keys() == old(self).keys().push(path@)
                && final(self).module_at(old(self).keys().len() as int) == module,
    {
        match self.find(path) {
            Some(_) => {},
            None => {
                let ghost old_paths = self.paths@;
                let ghost old_keys = self.keys();
                self.paths.push(path.to_owned());
                self.modules.push(module);
                proof {
                    assert(self.keys() =~= old_keys.push(path@));
                    assert forall|i: int, j: int|
                        0 <= i < j < self.paths@.len() implies self.paths@[i]@ != self.paths@[j]@ by {
                        if j == old_paths.len() {
                            assert(old_keys[i] == old_paths[i]@);
                        } else {
                            assert(old_paths[i]@ != old_paths[j]@);
                        }
                    }
                }
            },
        }
    }

    /// Forgets every cached module.
    pub fn clear(&mut self)
        ensures
            final(self).wf(),
            final(self).keys().len() == 0,
    {
        self.paths.clear();
        self.modules.clear();
    }
}

/// Clears the compiled-module cache (on hot reload).
pub fn clear_wasm_cache<M: Clone>(cache: &mut ModuleCache<M>)
    ensures
        final(cache).wf(),
        final(cache).keys().len() == 0,
{
    cache.clear();
}

/// After the cache is cleared no path is cached, so `get` finds nothing
/// for any module path and the module is read and compiled again.
pub proof fn law_cleared_module_cache_misses<M: Clone>(cleared: ModuleCache<M>, path: Seq<char>)
    requires
        cleared.wf(),
        cleared.keys().len() == 0,
    ensures
        forall|i: int| 0 <= i < cleared.keys().len() ==> cleared.keys()[i] != path,
{
}

/// Clearing twice leaves the cache as clearing once does: no key at all.
pub proof fn law_clear_is_idempotent<M: Clone>(once: ModuleCache<M>, twice: ModuleCache<M>)
    requires
        once.wf(),
        once.keys().len() == 0,
        twice.wf(),
        twice.keys().len() == 0,
    ensures
        once.keys() == twice.keys(),
        once.keys() == Seq::<Seq<char>>::empty(),
{
    assert(once.keys() =~= twice.keys());
    assert(once.keys() =~= Seq::<Seq<char>>::empty());
}

/// Whether a failed call ran out of time: the engine's error names fuel,
/// an epoch or an interrupt, or is a trap.
pub open spec fn wasm_timed_out(error: Seq<char>, is_trap: bool) -> bool {
    contains_seq(error, "fuel"@) || contains_seq(error, "epoch"@) || contains_seq(
        error,
        "interrupt"@,
    ) || is_trap
}

/// How a failed call of a WASM entrypoint is reported: running out of
/// fuel or time is a timeout; an error about the memory limit names the
/// limit; anything else is an execution error with the engine's text.
pub fn wasm_call_failure(error: &str, is_trap: bool, timeout_ms: u64, max_memory_bytes: usize) -> (r: TaskError)
    ensures
        wasm_timed_out(error@, is_trap) ==> r == TaskError::Timeout(timeout_ms),
        !wasm_timed_out(error@, is_trap) && contains_seq(error@, "memory"@) && contains_seq(
            error@,
            "limit"@,
        ) ==> (r matches TaskError::HandlerError(m) && m@ == "WASM memory limit exceeded (max "@
            + decimal(max_memory_bytes as nat) + " bytes)"@),
        !wasm_timed_out(error@, is_trap) && !(contains_seq(error@, "memory"@) && contains_seq(
            error@,
            "limit"@,
        )) ==> (r matches TaskError::HandlerError(m) && m@ == "WASM execution error: "@ + error@),
{
    if contains_text(error, "fuel") || contains_text(error, "epoch") || contains_text(error, "interrupt")
        || is_trap {
        return TaskError::Timeout(timeout_ms);
    }
    let mut m = String::new();
    if contains_text(error, "memory") && contains_text(error, "limit") {
        push_str(&mut m, "WASM memory limit exceeded (max ");
        push_decimal(&mut m, max_memory_bytes as u64);
        push_str(&mut m, " bytes)");
    } else {
        push_str(&mut m, "WASM execution error: ");
        push_str(&mut m, error);
    }
    TaskError::HandlerError(m)
}

/// The failure reported when a WASM module cannot be read.
pub fn wasm_unreadable_module(module: &str, reason: &str) -> (r: TaskError)
    ensures
        r matches TaskError::HandlerError(m) && m@ == "cannot read WASM module '"@ + module@ + "': "@
            + reason@,
{
    let mut m = String::new();
    push_str(&mut m, "cannot read WASM module '");
    push_str(&mut m, module);
    push_str(&mut m, "': ");
    push_str(&mut m, reason);
    TaskError::HandlerError(m)
}

/// The step of preparing a WASM module that failed.
#[derive(PartialEq, Eq, Structural, Clone, Copy, Debug)]
pub enum WasmStage {
    Compile,
    Instantiate,
}

/// The failure reported when compiling or instantiating a WASM module
/// fails.
pub fn wasm_stage_failure(stage: WasmStage, reason: &str) -> (r: TaskError)
    ensures
        r matches TaskError::HandlerError(m) && m@ == match stage {
            WasmStage::Compile => "WASM compilation failed: "@,
            WasmStage::Instantiate => "WASM instantiation failed: "@,
        } + reason@,
{
    let mut m = String::new();
    match stage {
        WasmStage::Compile => push_str(&mut m, "WASM compilation failed: "),
        WasmStage::Instantiate => push_str(&mut m, "WASM instantiation failed: "),
    }
    push_str(&mut m, reason);
    TaskError::HandlerError(m)
}

/// The failure reported when the module does not export the entrypoint.
pub fn wasm_missing_function(function: &str) -> (r: TaskError)
    ensures
        r matches TaskError::HandlerError(m) && m@ == "WASM function '"@ + function@
            + "' not found in module"@,
{
    let mut m = String::new();
    push_str(&mut m, "WASM function '");
    push_str(&mut m, function);
    push_str(&mut m, "' not found in module");
    TaskError::HandlerError(m)
}

/// The failure reported when the worker running a WASM task crashed.
pub fn wasm_worker_crash(worker_id: usize, cause: &str) -> (r: TaskError)
    ensures
        r matches TaskError::WorkerCrash(m) && m@ == "wasm worker "@ + decimal(worker_id as nat)
            + " panicked: "@ + cause@,
{
    let mut m = String::new();
    push_str(&mut m, "wasm worker ");
    push_decimal(&mut m, worker_id as u64);
    push_str(&mut m, " panicked: ");
    push_str(&mut m, cause);
    TaskError::WorkerCrash(m)
}

} // verus!
