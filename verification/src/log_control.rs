//! Runtime control of the log filter directive.
//!
//! The controller remembers the directive it started with and the one in
//! force. Changing the directive goes through a reload function supplied
//! by the owner of the tracing subscriber; the controller records the new
//! directive only when the reload succeeds.

use vstd::prelude::*;

verus! {

/// Runtime log level controller.
pub struct LogController<F> {
    initial_filter: String,
    current_filter: String,
    reload_fn: F,
}

impl<F: Fn(&str) -> Result<(), String>> LogController<F> {
    /// The directive the controller was created with.
    pub closed spec fn initial(&self) -> Seq<char> {
        self.initial_filter@
    }

    /// The directive in force.
    pub closed spec fn filter(&self) -> Seq<char> {
        self.current_filter@
    }

    /// The reload function.
    pub closed spec fn reload(&self) -> F {
        self.reload_fn
    }

    /// Creates a controller whose initial and current directive is
    /// `initial`; `reload_fn` applies a directive to the subscriber.
    pub fn new(initial: &str, reload_fn: F) -> (r: Self)
        ensures
            r.initial() == initial@,
            r.filter() == initial@,
            r.reload() == reload_fn,
    {
        LogController {
            initial_filter: initial.to_owned(),
            current_filter: initial.to_owned(),
            reload_fn,
        }
    }

    /// The directive in force.
    pub fn current(&self) -> (r: String)
        ensures
            r@ == self.filter(),
    {
        self.current_filter.clone()
    }

    /// Applies `filter`: the reload function's outcome is returned; on
    /// success `filter` is in force, on failure the directive is unchanged.
    pub fn set(&mut self, filter: &str) -> (r: Result<(), String>)
        requires
            old(self).reload().requires((filter,)),
        ensures
            old(self).reload().ensures((filter,), r),
            final(self).initial() == old(self).initial(),
            final(self).reload() == old(self).reload(),
            r is Ok ==> final(self).filter() == filter@,
            r is Err ==> final(self).filter() == old(self).filter(),
    {
        let outcome = (self.reload_fn)(filter);
        if outcome.is_ok() {
            self.current_filter = filter.to_owned();
        }
        outcome
    }

    /// Re-applies the initial directive: the reload function's outcome is
    /// returned; on success the initial directive is in force again, on
    /// failure the directive is unchanged.
    pub fn reset(&mut self) -> (r: Result<(), String>)
        requires
            forall|s: &str| s@ == old(self).initial() ==> old(self).reload().requires((s,)),
        ensures
            exists|s: &str| s@ == old(self).initial() && old(self).reload().ensures((s,), r),
            final(self).initial() == old(self).initial(),
            final(self).reload() == old(self).reload(),
            r is Ok ==> final(self).filter() == old(self).initial(),
            r is Err ==> final(self).filter() == old(self).filter(),
    {
        let initial = self.initial_filter.clone();
        let outcome = (self.reload_fn)(initial.as_str());
        if outcome.is_ok() {
            self.current_filter = initial;
        }
        outcome
    }
}

/// A change of directive asked of the controller: `set` with a directive
/// (`Apply`), or `reset`.
pub enum FilterCall {
    Apply(Seq<char>),
    Reset,
}

/// The directive a call puts in force when it succeeds.
pub open spec fn call_target(initial: Seq<char>, call: FilterCall) -> Seq<char> {
    match call {
        FilterCall::Apply(x) => x,
        FilterCall::Reset => initial,
    }
}

/// The directive in force after a call, from the one in force before it,
/// as `set` and `reset` state it: the call's target when it succeeded, the
/// same directive when it failed.
pub open spec fn after_call(initial: Seq<char>, before: Seq<char>, call: FilterCall, ok: bool) -> Seq<
    char,
> {
    if ok {
        call_target(initial, call)
    } else {
        before
    }
}

/// The target of the last call that succeeded, or the initial directive
/// when none did.
pub open spec fn last_applied(initial: Seq<char>, calls: Seq<(FilterCall, bool)>) -> Seq<char>
    decreases calls.len(),
{
    if calls.len() == 0 {
        initial
    } else if calls.last().1 {
        call_target(initial, calls.last().0)
    } else {
        last_applied(initial, calls.drop_last())
    }
}

/// Whatever `set` and `reset` calls were made, and whichever of them
/// succeeded, the directive in force is the one of the last call that
/// succeeded (`reset` standing for the initial directive), or the initial
/// directive when no call succeeded. `filters[k]` is the directive in force
/// before call `k`, and `filters[k + 1]` the one after it.
pub proof fn law_filter_is_last_applied(
    initial: Seq<char>,
    filters: Seq<Seq<char>>,
    calls: Seq<(FilterCall, bool)>,
)
    requires
        filters.len() == calls.len() + 1,
        filters[0] == initial,
        forall|k: int|
            0 <= k < calls.len() ==> filters[k + 1] == after_call(
                initial,
                filters[k],
                #[trigger] calls[k].0,
                calls[k].1,
            ),
    ensures
        filters.last() == last_applied(initial, calls),
    decreases calls.len(),
{
    if calls.len() > 0 {
        let n = calls.len() - 1;
        assert(filters[n + 1] == after_call(initial, filters[n], calls[n].0, calls[n].1));
        law_filter_is_last_applied(initial, filters.drop_last(), calls.drop_last());
        assert(filters.drop_last().last() == filters[n]);
    }
}

/// One successful `set` followed by a successful `reset` puts the initial
/// directive back in force; when the `reset` fails the set directive stays.
pub proof fn law_reset_undoes_set<F: Fn(&str) -> Result<(), String>>(
    start: LogController<F>,
    after_set: LogController<F>,
    after_reset: LogController<F>,
    x: Seq<char>,
    reset_ok: bool,
)
    requires
        after_set.initial() == start.initial(),
        after_set.filter() == x,
        after_reset.initial() == after_set.initial(),
        reset_ok ==> after_reset.filter() == after_set.initial(),
        !reset_ok ==> after_reset.filter() == after_set.filter(),
    ensures
        reset_ok ==> after_reset.filter() == start.initial(),
        !reset_ok ==> after_reset.filter() == x,
{
}

} // verus!
