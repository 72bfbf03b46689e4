//! The scheduler's control state and the cache fan-out of a fetch cycle.
//!
//! The scheduler itself is a three-state lifecycle — stopped, running,
//! stopped again — whose transitions are decided here. The surrounding
//! application owns the timer task: it spawns one background loop exactly
//! when [`Scheduler::start`] says so, sleeps for [`Scheduler::sleep_seconds`]
//! (read fresh at every cycle boundary, so an interval change takes effect
//! on the next boundary), re-checks [`Scheduler::should_continue`] after
//! each sleep, and runs a fetch cycle while the flag holds.

use vstd::prelude::*;

use crate::cache::Cache;
use crate::providers::QuotaData;
use crate::providers::QuotaDataView;

verus! {

/// The scheduler's own control state: the current interval between
/// cycles and whether a background loop is active.
pub struct Scheduler {
    interval_seconds: u64,
    running: bool,
}

/// The state after `start`: running, interval untouched; the second
/// component says whether the caller must spawn a background loop, which
/// is the case exactly when the scheduler was stopped.
pub closed spec fn spec_start(s: Scheduler) -> (Scheduler, bool) {
    (Scheduler { running: true, ..s }, !s.spec_running())
}

/// The state after `stop`: stopped, interval untouched.
pub closed spec fn spec_stop(s: Scheduler) -> Scheduler {
    Scheduler { running: false, ..s }
}

/// The state after `set_interval`: the new interval, running flag
/// untouched.
pub closed spec fn spec_set_interval(s: Scheduler, seconds: u64) -> Scheduler {
    Scheduler { interval_seconds: seconds, ..s }
}

impl Scheduler {
    /// The configured interval between cycles, in seconds.
    pub closed spec fn spec_interval(&self) -> u64 {
        self.interval_seconds
    }

    /// Whether a background loop is active.
    pub closed spec fn spec_running(&self) -> bool {
        self.running
    }

    /// A stopped scheduler with the given interval.
    pub fn new(interval_seconds: u64) -> (r: Self)
        ensures
            r.spec_interval() == interval_seconds,
            !r.spec_running(),
    {
        Scheduler { interval_seconds, running: false }
    }

    /// Enters the running state. Returns whether the caller must spawn
    /// the background loop: `true` exactly when the scheduler was
    /// stopped, so calling `start` while running is a no-op and never
    /// yields a second loop.
    pub fn start(&mut self) -> (spawn: bool)
        ensures
            *final(self) == spec_start(*old(self)).0,
            spawn == spec_start(*old(self)).1,
            spawn == !old(self).spec_running(),
            final(self).spec_running(),
            final(self).spec_interval() == old(self).spec_interval(),
    {
        if self.running {
            false
        } else {
            self.running = true;
            true
        }
    }

    /// Leaves the running state; the background loop exits at its next
    /// check.
    pub fn stop(&mut self)
        ensures
            *final(self) == spec_stop(*old(self)),
            !final(self).spec_running(),
            final(self).spec_interval() == old(self).spec_interval(),
    {
        self.running = false;
    }

    /// Changes the interval between cycles. Takes effect at the next
    /// cycle boundary: the loop reads the interval fresh before every
    /// sleep, and nothing here disturbs the running flag.
    pub fn set_interval(&mut self, seconds: u64)
        ensures
            *final(self) == spec_set_interval(*old(self), seconds),
            final(self).spec_interval() == seconds,
            final(self).spec_running() == old(self).spec_running(),
    {
        self.interval_seconds = seconds;
    }

    /// The duration the loop sleeps before the next cycle: the interval
    /// as currently configured.
    pub fn sleep_seconds(&self) -> (r: u64)
        ensures
            r == self.spec_interval(),
    {
        self.interval_seconds
    }

    /// Whether the loop goes on: the running flag as currently set.
    pub fn should_continue(&self) -> (r: bool)
        ensures
            r == self.spec_running(),
    {
        self.running
    }
}

/// The cache after one fetch cycle stored `qs` in order: each reading is
/// inserted under its account identifier, a later reading for the same
/// account overwriting an earlier one.
pub open spec fn spec_apply_results(
    m: Map<Seq<char>, QuotaDataView>,
    qs: Seq<QuotaDataView>,
) -> Map<Seq<char>, QuotaDataView>
    decreases qs.len(),
{
    if qs.len() == 0 {
        m
    } else {
        spec_apply_results(m, qs.drop_last()).insert(qs.last().account_id, qs.last())
    }
}

/// Stores every reading of one fetch cycle into the cache, keyed by the
/// account identifier stamped on it: last write wins per account.
pub fn apply_fetch_results(cache: &mut Cache, quotas: &Vec<QuotaData>)
    requires
        old(cache).wf(),
    ensures
        final(cache).wf(),
        final(cache)@ == spec_apply_results(old(cache)@, quotas@.map_values(|q: QuotaData| q@)),
{
    let ghost qs = quotas@.map_values(|q: QuotaData| q@);
    let n = quotas.len();
    let mut i: usize = 0;
    while i < n
        invariant
            i <= n,
            n == quotas@.len(),
            qs == quotas@.map_values(|q: QuotaData| q@),
            cache.wf(),
            cache@ == spec_apply_results(old(cache)@, qs.subrange(0, i as int)),
        decreases n - i,
    {
        let q = quotas[i].clone();
        let key = q.account_id.clone();
        proof {
            assert(q@ == qs[i as int]);
        }
        cache.set(key, q);
        proof {
            assert(qs.subrange(0, i + 1).drop_last() =~= qs.subrange(0, i as int));
            assert(qs.subrange(0, i + 1).last() == qs[i as int]);
        }
        i = i + 1;
    }
    proof {
        assert(qs.subrange(0, n as int) =~= qs);
    }
}

/// Law: per-account failure isolation reaches the cache — every reading a
/// cycle produced ends up stored under its account, however many other
/// accounts failed and dropped out of the cycle's results.
pub proof fn lemma_cycle_caches_every_result(
    m: Map<Seq<char>, QuotaDataView>,
    qs: Seq<QuotaDataView>,
    i: int,
)
    requires
        0 <= i < qs.len(),
    ensures
        spec_apply_results(m, qs).contains_key(qs[i].account_id),
    decreases qs.len(),
{
    if i < qs.len() - 1 {
        assert(qs.drop_last()[i] == qs[i]);
        lemma_cycle_caches_every_result(m, qs.drop_last(), i);
    }
}

/// Law: starting an already started scheduler changes nothing and spawns
/// no second loop — after any `start`, a further `start` reports that no
/// loop is to be spawned and leaves the state as it is.
pub proof fn lemma_start_idempotent(s: Scheduler)
    ensures
        spec_start(spec_start(s).0).1 == false,
        spec_start(spec_start(s).0).0 == spec_start(s).0,
{
}

/// Law: reconfiguring the interval while running needs no stop/start —
/// the running flag is untouched and the interval read at the next cycle
/// boundary is the new one.
pub proof fn lemma_set_interval_while_running(s: Scheduler, seconds: u64)
    ensures
        spec_set_interval(s, seconds).spec_interval() == seconds,
        spec_set_interval(s, seconds).spec_running() == s.spec_running(),
{
}

} // verus!
