//! The sampling attribute as a scope wrapper: a Bernoulli filter in
//! front of any input scope.
use vstd::prelude::*;

use crate::handles::InputMetric;
use crate::input::{in_flush_view, in_write_view, InView, InputScope};
use crate::kind::InputKind;
use crate::labels::Labels;
use crate::name::MetricName;
use crate::pcg32::{pcg32_out, pcg32_step, Pcg32, Sampling};

verus! {

/// An input scope that forwards each write with the configured
/// probability and silently drops the rest. The draws come from a
/// deterministic generator, so what a seeded scope forwards is a
/// function of the seed and the write sequence.
///
/// Aggregates gathered behind this sampler count only the forwarded
/// writes; publish them through `StatsFunction::apply_scaled` at the same
/// rate, which scales counters and timers back up to their unsampled
/// magnitude (markers are never scaled).
pub struct SampledInputScope {
    sampling: Sampling,
    rng: Pcg32,
    scope: InputScope,
}

impl SampledInputScope {
    /// The configured sampling rate.
    pub closed spec fn spec_sampling(&self) -> Sampling {
        self.sampling
    }

    /// The generator state the next decision draws from.
    pub closed spec fn spec_rng_state(&self) -> u64 {
        self.rng.spec_state()
    }

    /// The wrapped scope's state.
    pub closed spec fn inner(&self) -> InView {
        self.scope@
    }

    /// Whether the wrapped scope's accumulators are well-formed.
    pub closed spec fn wf(&self) -> bool {
        self.scope.wf()
    }

    /// Sample the given scope at the given rate, drawing from `seed`.
    pub fn new(sampling: Sampling, seed: u64, scope: InputScope) -> (r: SampledInputScope)
        requires
            scope.wf(),
        ensures
            r.wf(),
            r.spec_sampling() == sampling,
            r.spec_rng_state() == seed,
            r.inner() == scope@,
    {
        SampledInputScope { sampling, rng: Pcg32::seeded(seed), scope }
    }

    /// Issue a write handle for a metric.
    pub fn new_metric(&self, name: MetricName, kind: InputKind) -> (r: InputMetric)
        ensures
            r.spec_kind() == kind,
            r.spec_name() == name@,
    {
        InputMetric::new(crate::handles::MetricId::forge(kind, name))
    }

    /// Forward the write when the draw passes the rate; drop it
    /// otherwise. At the full rate every write is forwarded.
    pub fn write(&mut self, metric: &InputMetric, value: u64, labels: &Labels)
        requires
            old(self).wf(),
        ensures
            final(self).wf(),
            final(self).spec_sampling() == old(self).spec_sampling(),
            final(self).spec_rng_state() == pcg32_step(old(self).spec_rng_state()),
            ({
                let passed = old(self).spec_sampling().spec_accept(
                    pcg32_out(old(self).spec_rng_state()),
                );
                if passed {
                    final(self).inner() == in_write_view(
                        old(self).inner(),
                        metric.spec_kind(),
                        metric.spec_name(),
                        value,
                        labels@,
                    )
                } else {
                    final(self).inner() == old(self).inner()
                }
            }),
    {
        let passed = self.sampling.accept(&mut self.rng);
        if passed {
            self.scope.write(metric, value, labels);
        }
    }

    /// Hand the wrapped scope back, dissolving the sampler.
    pub fn into_inner(self) -> (r: InputScope)
        ensures
            r@ == self.inner(),
            r.wf() == self.wf(),
    {
        self.scope
    }

    /// Flush the wrapped scope; flushes are never sampled away.
    pub fn flush(&mut self, now_us: u64) -> (r: Result<(), crate::error::Error>)
        requires
            old(self).wf(),
        ensures
            final(self).wf(),
            final(self).spec_sampling() == old(self).spec_sampling(),
            final(self).spec_rng_state() == old(self).spec_rng_state(),
            final(self).inner() == in_flush_view(old(self).inner(), now_us),
    {
        self.scope.flush(now_us)
    }
}

} // verus!
