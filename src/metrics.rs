//! A time-bounded window of submission latencies, for throughput and
//! latency statistics. Instants and durations are counted in nanoseconds.
use vstd::prelude::*;

verus! {

/// How long a sample stays in the window: five seconds.
pub const RETENTION_NANOS: u64 = 5_000_000_000;

/// Whether a sample taken at `at` is still within `window` of `now`. A
/// sample stamped later than `now` counts as fresh.
pub open spec fn is_fresh(at: u64, now: u64, window: u64) -> bool {
    at >= now || now - at <= window
}

/// The samples of `s` that are fresh at `now`, in their order.
pub open spec fn retained(s: Seq<(u64, u64)>, now: u64, window: u64) -> Seq<(u64, u64)> {
    s.filter(|x: (u64, u64)| is_fresh(x.0, now, window))
}

/// Sum of the latencies of `s`.
pub open spec fn latency_sum(s: Seq<(u64, u64)>) -> nat
    decreases s.len(),
{
    if s.len() == 0 {
        0
    } else {
        latency_sum(s.drop_last()) + s.last().1 as nat
    }
}

/// Mean latency of `s`, zero when `s` is empty.
pub open spec fn average_latency(s: Seq<(u64, u64)>) -> nat {
    if s.len() == 0 {
        0
    } else {
        latency_sum(s) / s.len()
    }
}

/// Submission statistics over a sliding window of time.
pub struct Metrics {
    total_txs_count: usize,
    window: u64,
    elapseds: Vec<(u64, u64)>,
}

impl Metrics {
    /// The samples in the window: (taken at, latency), oldest first.
    pub closed spec fn samples(&self) -> Seq<(u64, u64)> {
        self.elapseds@
    }

    pub closed spec fn spec_window(&self) -> u64 {
        self.window
    }

    pub closed spec fn spec_total_txs_count(&self) -> usize {
        self.total_txs_count
    }

    /// An empty window of five seconds, for a run of `total_txs_count`
    /// transactions.
    pub fn new(total_txs_count: usize) -> (r: Self)
        ensures
            r.samples() == Seq::<(u64, u64)>::empty(),
            r.spec_window() == RETENTION_NANOS,
            r.spec_total_txs_count() == total_txs_count,
    {
        Self::with_window(total_txs_count, RETENTION_NANOS)
    }

    /// An empty window of `window` nanoseconds.
    pub fn with_window(total_txs_count: usize, window: u64) -> (r: Self)
        ensures
            r.samples() == Seq::<(u64, u64)>::empty(),
            r.spec_window() == window,
            r.spec_total_txs_count() == total_txs_count,
    {
        Metrics { total_txs_count, window, elapseds: Vec::new() }
    }

    pub fn total_txs_count(&self) -> (r: usize)
        ensures
            r == self.spec_total_txs_count(),
    {
        self.total_txs_count
    }

    /// Length of the window.
    pub fn duration(&self) -> (r: u64)
        ensures
            r == self.spec_window(),
    {
        self.window
    }

    /// Records a latency `elapsed` observed at `now`.
    pub fn add_sample(&mut self, now: u64, elapsed: u64)
        ensures
            final(self).samples() == old(self).samples().push((now, elapsed)),
            final(self).spec_window() == old(self).spec_window(),
            final(self).spec_total_txs_count() == old(self).spec_total_txs_count(),
    {
        self.elapseds.push((now, elapsed));
    }

    /// Drops every sample older than the window at `now`, keeping the rest
    /// in order.
    pub fn prune_staled(&mut self, now: u64)
        ensures
            final(self).samples() == retained(old(self).samples(), now, old(self).spec_window()),
            final(self).spec_window() == old(self).spec_window(),
            final(self).spec_total_txs_count() == old(self).spec_total_txs_count(),
    {
        let mut kept: Vec<(u64, u64)> = Vec::new();
        let mut i: usize = 0;
        while i < self.elapseds.len()
            invariant
                i <= self.elapseds.len(),
                kept@ == retained(self.elapseds@.take(i as int), now, self.window),
            decreases self.elapseds.len() - i,
        {
            let sample = self.elapseds[i];
            assert(self.elapseds@.take(i + 1).drop_last() =~= self.elapseds@.take(i as int));
            assert(self.elapseds@.take(i + 1).last() == sample);
            proof {
                reveal(Seq::filter);
            }
            if sample.0 >= now || now - sample.0 <= self.window {
                kept.push(sample);
            }
            i = i + 1;
        }
        assert(self.elapseds@.take(i as int) =~= self.elapseds@);
        self.elapseds = kept;
    }

    /// Number of samples in the window.
    pub fn sample_count(&self) -> (r: usize)
        ensures
            r == self.samples().len(),
    {
        self.elapseds.len()
    }

    /// Mean latency of the samples in the window; zero when it is empty.
    pub fn average_elapsed(&self) -> (r: u64)
        ensures
            r == average_latency(self.samples()),
    {
        let len = self.elapseds.len();
        if len == 0 {
            return 0;
        }
        let mut sum: u128 = 0;
        let mut i: usize = 0;
        while i < len
            invariant
                len == self.elapseds.len(),
                i <= len,
                sum == latency_sum(self.elapseds@.take(i as int)),
                sum <= i * (u64::MAX as int),
            decreases len - i,
        {
            let sample = self.elapseds[i];
            assert(self.elapseds@.take(i + 1).drop_last() =~= self.elapseds@.take(i as int));
            assert((i + 1) * (u64::MAX as int) == i * (u64::MAX as int) + u64::MAX) by (nonlinear_arith);
            assert((i + 1) * (u64::MAX as int) <= (usize::MAX as int) * (u64::MAX as int)) by (nonlinear_arith)
                requires
                    i + 1 <= usize::MAX,
            ;
            sum = sum + sample.1 as u128;
            i = i + 1;
        }
        assert(self.elapseds@.take(len as int) =~= self.elapseds@);
        let avg = sum / (len as u128);
        assert(avg <= u64::MAX) by (nonlinear_arith)
            requires
                avg as int == (sum as int) / (len as int),
                sum as int <= len * (u64::MAX as int),
                len > 0,
        ;
        avg as u64
    }

    /// Drops the stale samples at `now`, then returns the mean latency of
    /// those left.
    pub fn stat(&mut self, now: u64) -> (r: u64)
        ensures
            final(self).samples() == retained(old(self).samples(), now, old(self).spec_window()),
            final(self).spec_window() == old(self).spec_window(),
            final(self).spec_total_txs_count() == old(self).spec_total_txs_count(),
            r == average_latency(final(self).samples()),
    {
        self.prune_staled(now);
        self.average_elapsed()
    }
}

} // verus!
