//! The tick-aligned scheduler: once per one-second epoch, every probe whose
//! interval divides the epoch and whose function name is registered is run,
//! each result is stamped with its probe's definition fields, and the
//! results are handed to sink fan-out in probe order. The scheduler stops
//! after a full pass when any probe asks to run once; otherwise it never
//! stops.
//!
//! The loop that reads the clock, sleeps and repeats lives outside the
//! library; it drives [`Scheduler::run_tick`] and [`Scheduler::end_pass`]
//! with the current epoch and concrete workers and sinks.

use vstd::prelude::*;

use crate::dispatch::{lookup, spec_lookup, WorkerId};
use crate::fanout::{fan_out, Sink};
use crate::metric::{clone_opt_string, same_probe_fields, Metric, MetricView};

verus! {

/// A probe is due at an epoch exactly when its interval divides the epoch.
pub open spec fn spec_due(epoch: u64, n: u64) -> bool
    recommends
        n >= 1,
{
    epoch % n == 0
}

/// Epoch-modulo gating: decide whether a probe with interval `n` fires at
/// `epoch`.
pub fn due(epoch: u64, n: u64) -> (r: bool)
    requires
        n >= 1,
    ensures
        r == spec_due(epoch, n),
{
    epoch % n == 0
}

/// Every probe fires on the very first epoch: interval gating never delays
/// the initial measurement.
pub proof fn lemma_all_due_at_epoch_zero(n: u64)
    requires
        n >= 1,
    ensures
        spec_due(0, n),
{
}

/// Every probe of a resolved set has a positive interval.
pub open spec fn wf_probes(probes: Seq<MetricView>) -> bool {
    forall|i: int| 0 <= i < probes.len() ==> probes[i].n >= 1
}

/// Some probe asks the scheduler to stop after one full pass.
pub open spec fn any_once(probes: Seq<MetricView>) -> bool {
    exists|i: int| 0 <= i < probes.len() && probes[i].once
}

/// The indices at or after `i` of the probes that run at `epoch`: those
/// with a registered worker whose interval divides the epoch, ascending.
pub open spec fn due_from(probes: Seq<MetricView>, epoch: u64, i: int) -> Seq<int>
    decreases probes.len() - i,
    when 0 <= i <= probes.len()
{
    if i >= probes.len() {
        Seq::empty()
    } else {
        let rest = due_from(probes, epoch, i + 1);
        if spec_lookup(probes[i].function) is Some && spec_due(epoch, probes[i].n) {
            seq![i] + rest
        } else {
            rest
        }
    }
}

/// The indices of the probes that run at `epoch`, in probe order.
pub open spec fn due_list(probes: Seq<MetricView>, epoch: u64) -> Seq<int> {
    due_from(probes, epoch, 0)
}

/// Every index in [`due_from`] names a probe of the set.
pub proof fn lemma_due_from_bounds(probes: Seq<MetricView>, epoch: u64, i: int)
    requires
        0 <= i <= probes.len(),
    ensures
        forall|k: int|
            0 <= k < due_from(probes, epoch, i).len() ==> i <= #[trigger] due_from(
                probes,
                epoch,
                i,
            )[k] < probes.len(),
    decreases probes.len() - i,
{
    if i < probes.len() {
        lemma_due_from_bounds(probes, epoch, i + 1);
        let rest = due_from(probes, epoch, i + 1);
        if spec_lookup(probes[i].function) is Some && spec_due(epoch, probes[i].n) {
            assert(forall|k: int|
                1 <= k < due_from(probes, epoch, i).len() ==> #[trigger] due_from(
                    probes,
                    epoch,
                    i,
                )[k] == rest[k - 1]);
        }
    }
}

/// Within one tick no probe runs twice: the due indices are strictly
/// ascending, so each due probe is invoked exactly once per epoch.
pub proof fn lemma_due_list_ascending(probes: Seq<MetricView>, epoch: u64, i: int)
    requires
        0 <= i <= probes.len(),
    ensures
        forall|a: int, b: int|
            0 <= a < b < due_from(probes, epoch, i).len() ==> #[trigger] due_from(
                probes,
                epoch,
                i,
            )[a] < #[trigger] due_from(probes, epoch, i)[b],
    decreases probes.len() - i,
{
    if i < probes.len() {
        lemma_due_list_ascending(probes, epoch, i + 1);
        lemma_due_from_bounds(probes, epoch, i + 1);
        let cur = due_from(probes, epoch, i);
        let rest = due_from(probes, epoch, i + 1);
        if spec_lookup(probes[i].function) is Some && spec_due(epoch, probes[i].n) {
            assert forall|a: int, b: int| 0 <= a < b < cur.len() implies #[trigger] cur[a]
                < #[trigger] cur[b] by {
                if a == 0 {
                    assert(cur[b] == rest[b - 1]);
                    assert(rest[b - 1] >= i + 1);
                } else {
                    assert(cur[a] == rest[a - 1]);
                    assert(cur[b] == rest[b - 1]);
                }
            }
        }
    }
}

/// What a tick returns: one measurement per due probe, in probe order, each
/// carrying the probe-definition fields of the probe it came from.
pub open spec fn tick_results_ok(
    probes: Seq<MetricView>,
    epoch: u64,
    results: Seq<MetricView>,
) -> bool {
    let run = due_list(probes, epoch);
    &&& results.len() == run.len()
    &&& forall|k: int|
        0 <= k < run.len() ==> 0 <= run[k] < probes.len() && same_probe_fields(
            #[trigger] results[k],
            probes[run[k]],
        )
}

/// The workers, looked up by identifier. The library knows nothing of what
/// a worker computes; it only requires that `invoke` returns a measurement.
pub trait WorkerSet {
    /// Run the worker `id` on one probe and return its measurement.
    fn invoke(&mut self, id: WorkerId, probe: &Metric) -> Metric;
}

/// Copy the probe-definition fields of `probe` onto the measurement
/// `result`, leaving the measurement fields as the worker set them: a
/// worker can never alter what a probe is.
pub fn stamp(result: Metric, probe: &Metric) -> (r: Metric)
    ensures
        same_probe_fields(r@, probe@),
        r@.value == result@.value,
        r@.units == result@.units,
        r@.message == result@.message,
        r@.graph_value == result@.graph_value,
        r@.graph_type == result@.graph_type,
        r@.graph_short_name == result@.graph_short_name,
        r@.status == result@.status,
{
    let mut r = result;
    r.n = probe.n;
    r.once = probe.once;
    r.function = probe.function.clone();
    r.group = probe.group.clone();
    r.args = probe.args.clone();
    r.short_name = probe.short_name.clone();
    r.min_value = clone_opt_string(&probe.min_value);
    r.max_value = clone_opt_string(&probe.max_value);
    r
}

/// The scheduler: the resolved probes, read-only for the process lifetime,
/// and whether the run-once rule has stopped the loop.
pub struct Scheduler {
    /// The resolved probe definitions, in resolution order.
    pub probes: Vec<Metric>,
    /// Set after the first full pass when any probe has `once`.
    pub stopped: bool,
}

impl Scheduler {
    /// The probe set is non-empty and every interval is positive.
    pub open spec fn wf(&self) -> bool {
        self.probes@.len() > 0 && wf_probes(self.probes.deep_view())
    }

    /// Start a scheduler over a resolved probe set. Resolution guarantees
    /// the set is non-empty and that every interval is positive.
    pub fn new(probes: Vec<Metric>) -> (r: Scheduler)
        requires
            probes@.len() > 0,
            wf_probes(probes.deep_view()),
        ensures
            r.probes == probes,
            !r.stopped,
            r.wf(),
    {
        Scheduler { probes, stopped: false }
    }

    /// Whether the run-once rule has ended the loop.
    pub fn is_stopped(&self) -> (r: bool)
        ensures
            r == self.stopped,
    {
        self.stopped
    }

    /// Run every probe due at `epoch`, in probe order: look its function
    /// name up, skip it silently when unregistered, and stamp each worker
    /// result with the probe's own definition fields. The probe set itself
    /// is never changed, and one measurement comes back for every due
    /// probe, whatever the workers did.
    pub fn tick<W: WorkerSet>(&self, epoch: u64, workers: &mut W) -> (results: Vec<Metric>)
        requires
            self.wf(),
        ensures
            tick_results_ok(self.probes.deep_view(), epoch, results.deep_view()),
    {
        let ghost probes_v = self.probes.deep_view();
        let mut results: Vec<Metric> = Vec::new();
        let ghost mut done: Seq<int> = Seq::empty();
        let n = self.probes.len();
        let mut i: usize = 0;
        proof {
            assert(done + due_from(probes_v, epoch, 0) =~= due_from(probes_v, epoch, 0));
            assert(probes_v.len() == self.probes@.len());
        }
        while i < n
            invariant
                n == self.probes@.len(),
                n == probes_v.len(),
                probes_v == self.probes.deep_view(),
                wf_probes(probes_v),
                i <= n,
                due_list(probes_v, epoch) == done + due_from(probes_v, epoch, i as int),
                results.deep_view().len() == done.len(),
                forall|k: int|
                    0 <= k < done.len() ==> same_probe_fields(
                        #[trigger] results.deep_view()[k],
                        probes_v[done[k]],
                    ),
            decreases n - i,
        {
            let probe = &self.probes[i];
            proof {
                assert(probe@ == probes_v[i as int]);
                assert(probes_v[i as int].n >= 1);
            }
            let registered = lookup(probe.function.as_str());
            let mut ran = false;
            match registered {
                Some(id) => {
                    if due(epoch, probe.n) {
                        ran = true;
                        let raw = workers.invoke(id, probe);
                        let stamped = stamp(raw, probe);
                        let ghost prev = results.deep_view();
                        results.push(stamped);
                        proof {
                            assert(results.deep_view() =~= prev + seq![stamped@]);
                            let ghost old_done = done;
                            done = done + seq![i as int];
                            assert(due_from(probes_v, epoch, i as int) == seq![i as int]
                                + due_from(probes_v, epoch, i + 1));
                            assert((old_done + seq![i as int]) + due_from(probes_v, epoch, i + 1)
                                =~= old_done + (seq![i as int] + due_from(probes_v, epoch, i + 1)));
                            assert forall|k: int| 0 <= k < done.len() implies same_probe_fields(
                                #[trigger] results.deep_view()[k],
                                probes_v[done[k]],
                            ) by {
                                if k < old_done.len() {
                                    assert(done[k] == old_done[k]);
                                    assert(results.deep_view()[k] == prev[k]);
                                    assert(same_probe_fields(prev[k], probes_v[old_done[k]]));
                                } else {
                                    assert(done[k] == i as int);
                                    assert(results.deep_view()[k] == stamped@);
                                    assert(same_probe_fields(stamped@, probes_v[i as int]));
                                }
                            }
                        }
                    }
                },
                None => {},
            }
            proof {
                if !ran {
                    assert(due_from(probes_v, epoch, i as int) == due_from(
                        probes_v,
                        epoch,
                        i + 1,
                    ));
                }
            }
            i = i + 1;
        }
        proof {
            assert(due_from(probes_v, epoch, n as int) =~= Seq::<int>::empty());
            assert(done + Seq::<int>::empty() =~= done);
            assert(due_list(probes_v, epoch) == done);
            lemma_due_from_bounds(probes_v, epoch, 0);
            let run = due_list(probes_v, epoch);
            assert forall|k: int| 0 <= k < run.len() implies 0 <= run[k] < probes_v.len()
                && same_probe_fields(#[trigger] results.deep_view()[k], probes_v[run[k]]) by {
                assert(run[k] == done[k]);
                assert(same_probe_fields(results.deep_view()[k], probes_v[done[k]]));
                assert(0 <= due_from(probes_v, epoch, 0)[k] < probes_v.len());
            }
            assert(tick_results_ok(probes_v, epoch, results.deep_view()));
        }
        results
    }

    /// One full scheduler step at `epoch`: run every due probe, then hand
    /// each measurement to sink fan-out, in the same order the probes were
    /// run. Returns the measurements of the tick.
    pub fn run_tick<W: WorkerSet, S: Sink>(
        &self,
        epoch: u64,
        workers: &mut W,
        sinks: &mut Vec<S>,
    ) -> (results: Vec<Metric>)
        requires
            self.wf(),
        ensures
            tick_results_ok(self.probes.deep_view(), epoch, results.deep_view()),
            final(sinks)@.len() == old(sinks)@.len(),
    {
        let results = self.tick(epoch, workers);
        let ghost probes_g = self.probes.deep_view();
        let n = results.len();
        let mut k: usize = 0;
        while k < n
            invariant
                n == results@.len(),
                k <= n,
                sinks@.len() == old(sinks)@.len(),
                probes_g == self.probes.deep_view(),
                tick_results_ok(probes_g, epoch, results.deep_view()),
            decreases n - k,
        {
            let _delivered = fan_out(sinks, &results[k]);
            k = k + 1;
        }
        results
    }

    /// Re-evaluate the run-once rule after a full pass: the scheduler stops
    /// exactly when it had stopped already or some probe has `once` set.
    /// The probe set is untouched. With a run-once probe in the set, the
    /// very first pass therefore leaves the scheduler stopped — no second
    /// tick can occur.
    pub fn end_pass(&mut self)
        ensures
            final(self).probes == old(self).probes,
            final(self).stopped == (old(self).stopped || any_once(old(self).probes.deep_view())),
    {
        let ghost probes_v = self.probes.deep_view();
        let n = self.probes.len();
        let mut found = false;
        let mut i: usize = 0;
        while i < n
            invariant
                n == self.probes@.len(),
                probes_v == self.probes.deep_view(),
                i <= n,
                found == exists|j: int| 0 <= j < i && #[trigger] probes_v[j].once,
                self == old(self),
            decreases n - i,
        {
            if self.probes[i].once {
                proof {
                    assert(probes_v[i as int].once);
                }
                found = true;
            }
            i = i + 1;
        }
        self.stopped = self.stopped || found;
    }
}

/// Nanoseconds to sleep so that the next tick starts on the next whole
/// second since process start; a full second when the boundary was just
/// crossed.
pub fn sleep_nanos(elapsed_nanos: u128) -> (r: u32)
    ensures
        r as int == 1_000_000_000 - (elapsed_nanos as int % 1_000_000_000),
{
    let rem = elapsed_nanos % 1_000_000_000;
    (1_000_000_000 - rem) as u32
}

} // verus!
