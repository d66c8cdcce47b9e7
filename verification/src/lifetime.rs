//! Module lifetime tracking: the live-instance counter the host polls before
//! unloading the hosting binary, and the module location handle recorded at
//! load time.
//!
//! The process-wide counter and handle are modeled as one explicitly
//! initialized state object. The host-facing adapter holds a single such
//! state for the process and drives it through atomic operations; each
//! operation here corresponds to one atomic step, so the lemmas below about
//! arbitrary interleavings of steps carry over to concurrent use.

use vstd::prelude::*;

verus! {

/// The process-wide mutable state of the loaded module: the live-instance
/// counter and the once-recorded module location handle.
pub struct LifetimeTracker {
    /// Count of live component objects (factories and extension instances).
    pub live_count: i64,
    /// Opaque handle to the loaded module, recorded once at load time.
    pub module_handle: Option<isize>,
}

/// One atomic step against the live-instance counter.
pub enum CounterStep {
    /// A component object was constructed.
    Acquire,
    /// A component object was destroyed.
    Release,
}

impl LifetimeTracker {
    /// The state at load time, before any object exists and before the load
    /// notification has recorded the module handle.
    pub fn new() -> (r: LifetimeTracker)
        ensures
            r.live_count == 0,
            r.module_handle is None,
    {
        LifetimeTracker { live_count: 0, module_handle: None }
    }

    /// Records the module's load handle. The host delivers the handle exactly
    /// once, at load notification time, so recording twice is excluded.
    pub fn record_module_handle(&mut self, handle: isize)
        requires
            old(self).module_handle is None,
        ensures
            final(self).module_handle == Some(handle),
            final(self).live_count == old(self).live_count,
    {
        self.module_handle = Some(handle);
    }

    /// The recorded module location handle, if the load notification has
    /// arrived; read at registration time to resolve the module's own path.
    pub fn module_handle(&self) -> (r: Option<isize>)
        ensures
            r == self.module_handle,
    {
        self.module_handle
    }

    /// One component object was constructed: the counter rises by one.
    pub fn acquire(&mut self)
        requires
            old(self).live_count < i64::MAX,
        ensures
            final(self).live_count == old(self).live_count + 1,
            final(self).module_handle == old(self).module_handle,
    {
        self.live_count = self.live_count + 1;
    }

    /// One component object was destroyed: the counter falls by one.
    pub fn release(&mut self)
        requires
            old(self).live_count > i64::MIN,
        ensures
            final(self).live_count == old(self).live_count - 1,
            final(self).module_handle == old(self).module_handle,
    {
        self.live_count = self.live_count - 1;
    }

    /// The unload-readiness query: true when no component object is live, so
    /// the host may unload the module; false while the module is busy.
    pub fn can_unload(&self) -> (r: bool)
        ensures
            r == (self.live_count <= 0),
    {
        self.live_count <= 0
    }
}

/// The counter value after a sequence of atomic steps, starting from `c0`.
pub open spec fn count_after(c0: int, steps: Seq<CounterStep>) -> int
    decreases steps.len(),
{
    if steps.len() == 0 {
        c0
    } else {
        let delta: int = if steps[0] is Acquire { 1 } else { -1 };
        count_after(c0 + delta, steps.drop_first())
    }
}

/// How many of the steps are acquisitions.
pub open spec fn acquires_in(steps: Seq<CounterStep>) -> int
    decreases steps.len(),
{
    if steps.len() == 0 {
        0
    } else {
        (if steps[0] is Acquire { 1int } else { 0int }) + acquires_in(steps.drop_first())
    }
}

/// How many of the steps are releases.
pub open spec fn releases_in(steps: Seq<CounterStep>) -> int
    decreases steps.len(),
{
    if steps.len() == 0 {
        0
    } else {
        (if steps[0] is Release { 1int } else { 0int }) + releases_in(steps.drop_first())
    }
}

/// The counter depends only on how many steps of each kind ran, not on their
/// order: after any interleaving it reads the start value plus acquisitions
/// minus releases.
pub proof fn lemma_count_after(c0: int, steps: Seq<CounterStep>)
    ensures
        count_after(c0, steps) == c0 + acquires_in(steps) - releases_in(steps),
    decreases steps.len(),
{
    if steps.len() != 0 {
        let delta: int = if steps[0] is Acquire { 1 } else { -1 };
        lemma_count_after(c0 + delta, steps.drop_first());
    }
}

/// Creating and fully releasing component objects restores the counter: after
/// any interleaving of equally many acquisitions and releases — in particular
/// N constructions and N destructions from any number of threads, each step
/// being one atomic operation — the counter reads exactly its prior value.
pub proof fn lemma_counter_balanced(c0: int, steps: Seq<CounterStep>)
    requires
        acquires_in(steps) == releases_in(steps),
    ensures
        count_after(c0, steps) == c0,
{
    lemma_count_after(c0, steps);
}

} // verus!
