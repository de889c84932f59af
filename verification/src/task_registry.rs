//! The registry of running handler tasks that the pool watchdog reads to
//! stop tasks that overrun their timeout, keyed by worker id, and the
//! bracket every JavaScript and WebAssembly task runs in: the worker is
//! registered before the handler runs and leaves the registry on every
//! exit, whether setup failed, the handler failed or it succeeded.

use vstd::prelude::*;
use std::collections::HashMap;

verus! {

broadcast use vstd::std_specs::hash::group_hash_axioms;

/// Running tasks by worker id.
pub struct TaskRegistry<T> {
    tasks: HashMap<usize, T>,
}

impl<T> TaskRegistry<T> {
    /// The running tasks, by worker id.
    pub closed spec fn view(&self) -> Map<usize, T> {
        self.tasks@
    }

    /// An empty registry.
    pub fn new() -> (r: Self)
        ensures
            r.view() == Map::<usize, T>::empty(),
    {
        TaskRegistry { tasks: HashMap::new() }
    }

    /// Records `task` as running on `worker` (replacing what was recorded
    /// for that worker).
    pub fn register(&mut self, worker: usize, task: T)
        ensures
            final(self).view() == old(self).view().insert(worker, task),
    {
        self.tasks.insert(worker, task);
    }

    /// Forgets what runs on `worker`.
    pub fn deregister(&mut self, worker: usize)
        ensures
            final(self).view() == old(self).view().remove(worker),
    {
        self.tasks.remove(&worker);
    }

    /// Whether a task is recorded for `worker`.
    pub fn is_registered(&self, worker: usize) -> (r: bool)
        ensures
            r == self.view().contains_key(worker),
    {
        self.tasks.contains_key(&worker)
    }

    /// Number of running tasks.
    pub fn len(&self) -> (r: usize)
        ensures
            r == self.view().len(),
    {
        self.tasks.len()
    }
}

/// Starts the watchdog bracket of a task: `task` is recorded for
/// `worker`. (A pool without a watchdog keeps no registry and skips the
/// bracket.)
pub fn enter_task<T>(registry: &mut TaskRegistry<T>, worker: usize, task: T)
    ensures
        final(registry).view() == old(registry).view().insert(worker, task),
{
    registry.register(worker, task);
}

/// Ends the watchdog bracket of a task, whatever its outcome: `worker`
/// leaves the registry, and the outcome is handed back unchanged.
pub fn leave_task<T, R, E>(registry: &mut TaskRegistry<T>, worker: usize, outcome: Result<R, E>) -> (r:
    Result<R, E>)
    ensures
        r == outcome,
        final(registry).view() == old(registry).view().remove(worker),
{
    registry.deregister(worker);
    outcome
}

/// A task run through the bracket leaves the registry as it found it,
/// but for its own worker, which is no longer recorded: nothing is left
/// behind for the watchdog, whatever the task's outcome, and every other
/// worker's entry is untouched.
pub proof fn law_worker_leaves_registry<T>(before: Map<usize, T>, worker: usize, task: T)
    ensures
        !before.insert(worker, task).remove(worker).contains_key(worker),
        before.insert(worker, task).remove(worker) == before.remove(worker),
        forall|w: usize|
            w != worker && #[trigger] before.contains_key(w) ==> before.insert(worker, task).remove(
                worker,
            ).contains_key(w) && before.insert(worker, task).remove(worker)[w] == before[w],
{
    assert(before.insert(worker, task).remove(worker) =~= before.remove(worker));
}

} // verus!
