//! Process-wide shared state and metrics, and the manager that owns them.
//! The state records the engine's last-observed activity and its reporter
//! identity; the metrics count handled reconciles and their durations. The
//! manager gates startup on the custom resource type being registered and
//! exposes read-only snapshots of both records.

use vstd::prelude::*;
use crate::Error;

verus! {

/// Histogram of reconcile wall-clock durations, in milliseconds.
/// `counts[i]` is the number of observations at most `bounds[i]` (cumulative
/// buckets); `count` and `sum` cover every observation.
#[derive(Clone, Debug)]
pub struct Histogram {
    pub bounds: Vec<u64>,
    pub counts: Vec<u64>,
    pub sum: u64,
    pub count: u64,
}

/// Well-formedness: one counter per bound, and no bucket ahead of the total.
pub open spec fn hist_wf(h: Histogram) -> bool {
    &&& h.counts@.len() == h.bounds@.len()
    &&& forall|i: int| 0 <= i < h.counts@.len() ==> h.counts@[i] <= h.count
}

/// The duration bucket upper bounds, in milliseconds.
pub open spec fn duration_bounds() -> Seq<u64> {
    seq![10u64, 100u64, 250u64, 500u64, 1000u64, 5000u64, 15000u64, 60000u64]
}

impl Histogram {
    /// A fresh, empty duration histogram with the engine's fixed buckets.
    pub fn new() -> (h: Histogram)
        ensures
            hist_wf(h),
            h.bounds@ == duration_bounds(),
            h.count == 0,
            h.sum == 0,
            forall|i: int| 0 <= i < h.counts@.len() ==> h.counts@[i] == 0,
    {
        let bounds: Vec<u64> = vec![10, 100, 250, 500, 1000, 5000, 15000, 60000];
        let counts: Vec<u64> = vec![0, 0, 0, 0, 0, 0, 0, 0];
        proof {
            assert(bounds@ =~= duration_bounds());
        }
        Histogram { bounds, counts, sum: 0, count: 0 }
    }

    /// Record one observation: every bucket whose bound covers the value is
    /// incremented, along with the total count and sum.
    pub fn observe(&mut self, value: u64)
        requires
            hist_wf(*old(self)),
            old(self).count < u64::MAX,
            old(self).sum + value <= u64::MAX,
        ensures
            hist_wf(*final(self)),
            final(self).bounds@ == old(self).bounds@,
            final(self).count == old(self).count + 1,
            final(self).sum == old(self).sum + value,
            final(self).counts@.len() == old(self).counts@.len(),
            forall|i: int|
                0 <= i < final(self).counts@.len() ==> final(self).counts@[i] == old(self).counts@[i] + (if value <= final(self).bounds@[i] {
                    1int
                } else {
                    0int
                }),
    {
        let mut i: usize = 0;
        let n = self.counts.len();
        while i < n
            invariant
                n == self.counts@.len(),
                n == self.bounds@.len(),
                i <= n,
                self.bounds@ == old(self).bounds@,
                self.count == old(self).count,
                self.count < u64::MAX,
                self.sum == old(self).sum,
                forall|k: int|
                    0 <= k < i ==> self.counts@[k] == old(self).counts@[k] + (if value
                        <= self.bounds@[k] {
                        1int
                    } else {
                        0int
                    }),
                forall|k: int| i <= k < n ==> self.counts@[k] == old(self).counts@[k],
                forall|k: int| 0 <= k < n ==> old(self).counts@[k] <= self.count,
            decreases n - i,
        {
            if value <= self.bounds[i] {
                let c = self.counts[i];
                self.counts[i] = c + 1;
            }
            i = i + 1;
        }
        self.count = self.count + 1;
        self.sum = self.sum + value;
    }
}

/// Process-wide metrics: the monotonic count of handled reconciles and the
/// histogram of their durations. Owned and injected, not ambient; readable
/// at any time by an exporter.
#[derive(Clone, Debug)]
pub struct Metrics {
    pub handled_events: u64,
    pub reconcile_duration: Histogram,
}

/// Well-formedness of the metrics record.
pub open spec fn metrics_wf(m: Metrics) -> bool {
    hist_wf(m.reconcile_duration)
}

impl Metrics {
    /// Fresh metrics: nothing handled, empty histogram.
    pub fn new() -> (m: Metrics)
        ensures
            metrics_wf(m),
            m.handled_events == 0,
            m.reconcile_duration.count == 0,
            m.reconcile_duration.sum == 0,
            m.reconcile_duration.bounds@ == duration_bounds(),
            forall|i: int|
                0 <= i < m.reconcile_duration.counts@.len() ==> m.reconcile_duration.counts@[i]
                    == 0,
    {
        Metrics { handled_events: 0, reconcile_duration: Histogram::new() }
    }

    /// Telemetry at the end of one successful reconcile: record its duration
    /// and count it as handled. Each call adds exactly one — no update is
    /// lost or doubled.
    pub fn record_reconcile(&mut self, elapsed_ms: u64)
        requires
            metrics_wf(*old(self)),
            old(self).handled_events < u64::MAX,
            old(self).reconcile_duration.count < u64::MAX,
            old(self).reconcile_duration.sum + elapsed_ms <= u64::MAX,
        ensures
            metrics_wf(*final(self)),
            final(self).handled_events == old(self).handled_events + 1,
            final(self).reconcile_duration.count == old(self).reconcile_duration.count + 1,
            final(self).reconcile_duration.sum == old(self).reconcile_duration.sum + elapsed_ms,
            final(self).reconcile_duration.bounds@ == old(self).reconcile_duration.bounds@,
            final(self).reconcile_duration.counts@.len() == old(self).reconcile_duration.counts@.len(),
            forall|i: int|
                0 <= i < final(self).reconcile_duration.counts@.len() ==> final(self).reconcile_duration.counts@[i] == old(self).reconcile_duration.counts@[i] + (
                if elapsed_ms <= final(self).reconcile_duration.bounds@[i] {
                    1int
                } else {
                    0int
                }),
    {
        self.reconcile_duration.observe(elapsed_ms);
        self.handled_events = self.handled_events + 1;
    }
}

/// Process-wide record of the engine's activity: the timestamp of the most
/// recently started reconcile, and the stable identity under which emitted
/// events are attributed to this controller. Created once at startup;
/// mutated at the start of every reconcile.
#[derive(Clone, Debug)]
pub struct State {
    /// Milliseconds since the Unix epoch of the most recent reconcile start.
    pub last_event: i64,
    /// Reporter identity for event attribution.
    pub reporter: String,
}

/// The stable reporter identity of this controller.
pub open spec fn reporter_name() -> Seq<char> {
    "noobaa-source-controller"@
}

impl State {
    /// Fresh state stamped with the given startup time.
    pub fn new(now: i64) -> (s: State)
        ensures
            s.last_event == now,
            s.reporter@ == reporter_name(),
    {
        State { last_event: now, reporter: String::from_str("noobaa-source-controller") }
    }

    /// Record a reconcile start: stamp the given wall-clock reading (reading
    /// the clock is the caller's work). The reporter identity is never
    /// changed. The caller holds exclusive access for the duration of this
    /// in-memory update only.
    pub fn record_start(&mut self, now: i64)
        ensures
            final(self).last_event == now,
            final(self).reporter == old(self).reporter,
    {
        self.last_event = now;
    }
}

/// An element-wise copy of a vector of counters.
fn copy_u64_vec(v: &Vec<u64>) -> (r: Vec<u64>)
    ensures
        r@ == v@,
{
    let mut r: Vec<u64> = Vec::new();
    let n = v.len();
    let mut i: usize = 0;
    while i < n
        invariant
            n == v@.len(),
            i <= n,
            r@ == v@.subrange(0, i as int),
        decreases n - i,
    {
        r.push(v[i]);
        proof {
            assert(r@ =~= v@.subrange(0, i + 1));
        }
        i = i + 1;
    }
    proof {
        assert(r@ =~= v@);
    }
    r
}

/// Owner of the engine's shared records. Built only after the startup gate
/// passes; exposes read-only snapshots outward.
#[derive(Clone, Debug)]
pub struct Manager {
    pub state: State,
    pub metrics: Metrics,
}

impl Manager {
    /// Bootstrap the manager. `crd_registered` reports whether the bounded
    /// list probe for the custom resource type succeeded; when it did not,
    /// initialization fails before any watch subscription exists, and no
    /// manager is built.
    pub fn new(now: i64, crd_registered: bool) -> (r: Result<Manager, Error>)
        ensures
            r is Ok <==> crd_registered,
            r matches Ok(m) ==> {
                &&& m.state.last_event == now
                &&& m.state.reporter@ == reporter_name()
                &&& metrics_wf(m.metrics)
                &&& m.metrics.handled_events == 0
                &&& m.metrics.reconcile_duration.count == 0
                &&& m.metrics.reconcile_duration.sum == 0
                &&& m.metrics.reconcile_duration.bounds@ == duration_bounds()
                &&& forall|i: int|
                    0 <= i < m.metrics.reconcile_duration.counts@.len()
                        ==> m.metrics.reconcile_duration.counts@[i] == 0
            },
            r matches Err(e) ==> e is CrdNotInstalled,
    {
        if !crd_registered {
            return Err(Error::CrdNotInstalled);
        }
        Ok(Manager { state: State::new(now), metrics: Metrics::new() })
    }

    /// Snapshot of the metrics, for the exporter.
    pub fn metrics(&self) -> (m: Metrics)
        ensures
            m.handled_events == self.metrics.handled_events,
            m.reconcile_duration.bounds@ == self.metrics.reconcile_duration.bounds@,
            m.reconcile_duration.counts@ == self.metrics.reconcile_duration.counts@,
            m.reconcile_duration.sum == self.metrics.reconcile_duration.sum,
            m.reconcile_duration.count == self.metrics.reconcile_duration.count,
    {
        Metrics {
            handled_events: self.metrics.handled_events,
            reconcile_duration: Histogram {
                bounds: copy_u64_vec(&self.metrics.reconcile_duration.bounds),
                counts: copy_u64_vec(&self.metrics.reconcile_duration.counts),
                sum: self.metrics.reconcile_duration.sum,
                count: self.metrics.reconcile_duration.count,
            },
        }
    }

    /// Snapshot of the shared state, for the state endpoint.
    pub fn state(&self) -> (s: State)
        ensures
            s == self.state,
    {
        State { last_event: self.state.last_event, reporter: self.state.reporter.clone() }
    }

    /// Open one reconcile: record its start time into the shared state.
    /// Reading the clock is the driver's work; the stamp is pinned to what it
    /// read.
    pub fn begin_reconcile(&mut self, now: i64)
        ensures
            final(self).state.last_event == now,
            final(self).state.reporter == old(self).state.reporter,
            final(self).metrics == old(self).metrics,
    {
        self.state.record_start(now);
    }

    /// Close one successful reconcile: record its duration as one observation
    /// and count it as handled, leaving the state untouched.
    pub fn finish_reconcile(&mut self, elapsed_ms: u64)
        requires
            metrics_wf(old(self).metrics),
            old(self).metrics.handled_events < u64::MAX,
            old(self).metrics.reconcile_duration.count < u64::MAX,
            old(self).metrics.reconcile_duration.sum + elapsed_ms <= u64::MAX,
        ensures
            metrics_wf(final(self).metrics),
            final(self).state == old(self).state,
            final(self).metrics.handled_events == old(self).metrics.handled_events + 1,
            final(self).metrics.reconcile_duration.count == old(self).metrics.reconcile_duration.count + 1,
            final(self).metrics.reconcile_duration.sum == old(self).metrics.reconcile_duration.sum
                + elapsed_ms,
            final(self).metrics.reconcile_duration.bounds@ == old(self).metrics.reconcile_duration.bounds@,
            final(self).metrics.reconcile_duration.counts@.len() == old(self).metrics.reconcile_duration.counts@.len(),
            forall|i: int|
                0 <= i < final(self).metrics.reconcile_duration.counts@.len() ==> final(self).metrics.reconcile_duration.counts@[i]
                    == old(self).metrics.reconcile_duration.counts@[i] + (if elapsed_ms
                    <= final(self).metrics.reconcile_duration.bounds@[i] {
                    1int
                } else {
                    0int
                }),
    {
        self.metrics.record_reconcile(elapsed_ms);
    }
}

/// Abstract effect of one reconcile on the shared records: the start stamps
/// the state, completion counts it. Applied over a sequence of start times,
/// left to right, in the order the reconciles started.
pub open spec fn runs_effect(last_event: int, handled: int, starts: Seq<i64>) -> (int, int)
    decreases starts.len(),
{
    if starts.len() == 0 {
        (last_event, handled)
    } else {
        runs_effect(starts[0] as int, handled + 1, starts.drop_first())
    }
}

/// Accounting across a batch of reconciles: after every one of `starts` has
/// begun and completed, the handled count has grown by exactly the number of
/// reconciles (no lost update), and the last-event stamp is the most recently
/// started one's time.
pub proof fn lemma_reconcile_accounting(last_event: int, handled: int, starts: Seq<i64>)
    ensures
        runs_effect(last_event, handled, starts).1 == handled + starts.len(),
        starts.len() > 0 ==> runs_effect(last_event, handled, starts).0 == starts.last() as int,
        starts.len() == 0 ==> runs_effect(last_event, handled, starts).0 == last_event,
    decreases starts.len(),
{
    if starts.len() > 0 {
        lemma_reconcile_accounting(starts[0] as int, handled + 1, starts.drop_first());
        if starts.len() > 1 {
            assert(starts.drop_first().last() == starts.last());
        }
    }
}

} // verus!
