//! Per-metric accumulator: collapses a stream of value updates into
//! periodic statistical snapshots.
use vstd::arithmetic::div_mod::{lemma_add_mod_noop, lemma_small_mod};
use vstd::prelude::*;

use crate::kind::InputKind;
use crate::name::MetricName;

verus! {

/// One more than `u64::MAX`: the modulus of wrapping 64-bit arithmetic.
pub open spec fn u64_span() -> int {
    0x1_0000_0000_0000_0000
}

/// Possibly aggregated scores.
///
/// `Mean` and `Rate` carry values already rounded to the nearest integer
/// (halves away from zero), since raw metric values are integers too.
#[derive(Debug, Clone, Copy, PartialEq, Eq, Structural)]
pub enum ScoreType {
    /// Number of times the metric was used.
    Count(u64),
    /// Sum of metric values reported.
    Sum(u64),
    /// Biggest value reported.
    Max(u64),
    /// Smallest value reported.
    Min(u64),
    /// Average value (sum / hit count), rounded.
    Mean(u64),
    /// Mean rate (per second of the elapsed period), rounded.
    Rate(u64),
}

/// Sum of all values in a sequence.
pub open spec fn sum_of(s: Seq<u64>) -> int
    decreases s.len(),
{
    if s.len() == 0 {
        0
    } else {
        sum_of(s.drop_last()) + s.last()
    }
}

/// Largest value in a sequence; 0 when empty (the max slot's blank value).
pub open spec fn max_of(s: Seq<u64>) -> int
    decreases s.len(),
{
    if s.len() == 0 {
        0
    } else if s.last() > max_of(s.drop_last()) {
        s.last() as int
    } else {
        max_of(s.drop_last())
    }
}

/// Smallest value in a sequence; `u64::MAX` when empty (the min slot's
/// blank value).
pub open spec fn min_of(s: Seq<u64>) -> int
    decreases s.len(),
{
    if s.len() == 0 {
        u64::MAX as int
    } else if s.last() < min_of(s.drop_last()) {
        s.last() as int
    } else {
        min_of(s.drop_last())
    }
}

/// The raw accumulated slots a snapshot returns before statistics are
/// derived from them.
#[derive(Debug, Clone, Copy, PartialEq, Eq, Structural)]
pub struct RawScores {
    /// Number of updates in the period.
    pub count: u64,
    /// Sum of the values (0 for markers, which track occurrences only).
    pub sum: u64,
    /// Largest value (0 for markers).
    pub max: u64,
    /// Smallest value (`u64::MAX` for markers).
    pub min: u64,
}

/// What a snapshot of a scoreboard returns, as a function of the metric
/// kind and of the values recorded since the last snapshot. `None` means
/// no data was recorded in the period. Count and sum wrap at 2^64, as the
/// accumulator slots do.
pub open spec fn raw_snapshot_of(kind: InputKind, vals: Seq<u64>) -> Option<RawScores> {
    let n = vals.len() as int % u64_span();
    if n == 0 {
        None
    } else {
        Some(
            RawScores {
                count: n as u64,
                sum: if kind is Marker {
                    0
                } else {
                    (sum_of(vals) % u64_span()) as u64
                },
                max: if kind is Marker {
                    0
                } else {
                    max_of(vals) as u64
                },
                min: if kind is Marker {
                    u64::MAX
                } else {
                    min_of(vals) as u64
                },
            },
        )
    }
}

/// A metric that holds aggregated values for one metric of a bucket.
pub struct Scoreboard {
    namespace: MetricName,
    kind: InputKind,
    name: String,
    count: u64,
    sum: u64,
    max: u64,
    min: u64,
    values: Ghost<Seq<u64>>,
}

impl Scoreboard {
    /// The kind of metric tracked.
    pub closed spec fn score_kind(&self) -> InputKind {
        self.kind
    }

    /// The metric's name.
    pub closed spec fn score_name(&self) -> Seq<char> {
        self.name@
    }

    /// The namespace the metric was declared under.
    pub closed spec fn score_namespace(&self) -> Seq<Seq<char>> {
        self.namespace@
    }

    /// The values recorded since the last snapshot, in update order.
    pub closed spec fn recorded(&self) -> Seq<u64> {
        self.values@
    }

    /// The accumulator slots tally the recorded values: count and sum
    /// wrap at 2^64, max and min are exact; a marker touches only the
    /// count and leaves the other slots blank.
    pub closed spec fn wf(&self) -> bool {
        &&& self.count == self.values@.len() as int % u64_span()
        &&& if self.kind is Marker {
            self.sum == 0 && self.max == 0 && self.min == u64::MAX
        } else {
            &&& self.sum == sum_of(self.values@) % u64_span()
            &&& self.max == max_of(self.values@)
            &&& self.min == min_of(self.values@)
        }
    }

    /// Create a new Scoreboard to track summary values of a metric.
    pub fn new(namespace: MetricName, kind: InputKind, name: String) -> (r: Self)
        ensures
            r.wf(),
            r.score_kind() == kind,
            r.score_name() == name@,
            r.score_namespace() == namespace@,
            r.recorded() =~= Seq::<u64>::empty(),
    {
        Scoreboard {
            namespace,
            kind,
            name,
            count: 0,
            sum: 0,
            max: 0,
            min: u64::MAX,
            values: Ghost(Seq::empty()),
        }
    }

    /// Reset the accumulator slots to their blank state.
    fn blank(&mut self)
        ensures
            final(self).wf(),
            final(self).score_kind() == old(self).score_kind(),
            final(self).score_name() == old(self).score_name(),
            final(self).score_namespace() == old(self).score_namespace(),
            final(self).recorded() =~= Seq::<u64>::empty(),
    {
        self.count = 0;
        self.sum = 0;
        self.max = 0;
        self.min = u64::MAX;
        proof {
            self.values@ = Seq::empty();
        }
    }

    /// Update scores with a new value. Never fails; the count and sum
    /// slots wrap on overflow as 64-bit accumulators do.
    pub fn update(&mut self, value: u64)
        requires
            old(self).wf(),
        ensures
            final(self).wf(),
            final(self).score_kind() == old(self).score_kind(),
            final(self).score_name() == old(self).score_name(),
            final(self).score_namespace() == old(self).score_namespace(),
            final(self).recorded() == old(self).recorded().push(value),
    {
        proof {
            lemma_mod_after_push(self.values@, 1);
            lemma_small_mod(1, u64_span() as nat);
        }
        self.count = self.count.wrapping_add(1);
        match self.kind {
            InputKind::Marker => {},
            _ => {
                proof {
                    lemma_mod_after_push(Seq::<u64>::empty().push(self.sum), value as nat);
                    lemma_add_mod_noop(sum_of(self.values@), value as int, u64_span());
                    lemma_small_mod(value as nat, u64_span() as nat);
                }
                self.sum = self.sum.wrapping_add(value);
                if value > self.max {
                    self.max = value;
                }
                if value < self.min {
                    self.min = value;
                }
            },
        }
        proof {
            let pushed = self.values@.push(value);
            assert(pushed.drop_last() =~= self.values@);
            lemma_add_mod_noop(self.values@.len() as int, 1, u64_span());
            lemma_add_mod_noop(sum_of(self.values@), value as int, u64_span());
            lemma_small_mod(value as nat, u64_span() as nat);
            self.values@ = pushed;
        }
    }

    /// The kind of metric tracked.
    pub fn metric_kind(&self) -> (k: InputKind)
        ensures
            k == self.score_kind(),
    {
        self.kind
    }

    /// Take the raw scores accumulated since the last snapshot and reset
    /// the slots to blank. Returns `None` exactly when the count slot is
    /// zero, meaning no data was recorded in the period.
    pub fn snapshot(&mut self) -> (r: Option<RawScores>)
        requires
            old(self).wf(),
        ensures
            final(self).wf(),
            final(self).score_kind() == old(self).score_kind(),
            final(self).score_name() == old(self).score_name(),
            final(self).score_namespace() == old(self).score_namespace(),
            final(self).recorded() =~= Seq::<u64>::empty(),
            r == raw_snapshot_of(old(self).score_kind(), old(self).recorded()),
    {
        if self.count == 0 {
            // No values were recorded (or the count wrapped to zero);
            // nothing to report. The blank state is restored whole.
            self.blank();
            None
        } else {
            let raw = RawScores { count: self.count, sum: self.sum, max: self.max, min: self.min };
            self.blank();
            Some(raw)
        }
    }
    /// Map raw scores (if any) to the applicable statistics for a period
    /// of `elapsed_us` microseconds, resetting the slots to blank.
    pub fn reset(&mut self, elapsed_us: u64) -> (r: Option<Vec<ScoreType>>)
        requires
            old(self).wf(),
        ensures
            final(self).wf(),
            final(self).score_kind() == old(self).score_kind(),
            final(self).score_name() == old(self).score_name(),
            final(self).score_namespace() == old(self).score_namespace(),
            final(self).recorded() =~= Seq::<u64>::empty(),
            r is Some <==> raw_snapshot_of(old(self).score_kind(), old(self).recorded()) is Some,
            r matches Some(v) ==> raw_snapshot_of(old(self).score_kind(), old(self).recorded())
                matches Some(raw) && v@ == crate::stats::spec_scores(
                old(self).score_kind(),
                raw,
                elapsed_us as int,
            ),
    {
        let kind = self.metric_kind();
        match self.snapshot() {
            None => None,
            Some(raw) => Some(crate::stats::derive_scores(kind, &raw, elapsed_us)),
        }
    }
}

/// Pushing one value onto a sequence steps its length's 64-bit remainder
/// the way a wrapping add of 1 steps the count slot.
proof fn lemma_mod_after_push(s: Seq<u64>, v: nat)
    ensures
        ((s.len() as int % u64_span()) + v) % u64_span() == (s.len() + v) as int % u64_span(),
{
    lemma_add_mod_noop(s.len() as int, v as int, u64_span());
    lemma_small_mod(v % (u64_span() as nat), u64_span() as nat);
    lemma_add_mod_noop(s.len() as int % u64_span(), v as int, u64_span());
    assert((v as int) % u64_span() == (v % (u64_span() as nat)) as int);
}

/// The largest value is at least every recorded value.
pub proof fn lemma_max_of_bound(s: Seq<u64>, i: int)
    requires
        0 <= i < s.len(),
    ensures
        s[i] <= max_of(s),
    decreases s.len(),
{
    if i == s.len() - 1 {
    } else {
        assert(s.drop_last()[i] == s[i]);
        lemma_max_of_bound(s.drop_last(), i);
    }
}

/// The smallest value is at most every recorded value.
pub proof fn lemma_min_of_bound(s: Seq<u64>, i: int)
    requires
        0 <= i < s.len(),
    ensures
        min_of(s) <= s[i],
    decreases s.len(),
{
    if i == s.len() - 1 {
    } else {
        assert(s.drop_last()[i] == s[i]);
        lemma_min_of_bound(s.drop_last(), i);
    }
}

/// The sum of recorded values is never negative.
pub proof fn lemma_sum_of_nonneg(s: Seq<u64>)
    ensures
        sum_of(s) >= 0,
    decreases s.len(),
{
    if s.len() > 0 {
        lemma_sum_of_nonneg(s.drop_last());
    }
}

/// Conservation: after any run of updates whose count and exact sum both
/// fit in 64 bits, a snapshot returns exactly that count and that sum
/// (the sum as accumulated for non-marker kinds, a blank 0 for markers).
pub proof fn lemma_conservation(kind: InputKind, vals: Seq<u64>)
    requires
        0 < vals.len() < u64_span(),
        sum_of(vals) < u64_span(),
    ensures
        raw_snapshot_of(kind, vals) matches Some(raw) && raw.count == vals.len() && raw.sum == if kind is Marker {
            0int
        } else {
            sum_of(vals)
        },
{
    lemma_small_mod(vals.len(), u64_span() as nat);
    lemma_sum_of_nonneg(vals);
    lemma_small_mod(sum_of(vals) as nat, u64_span() as nat);
}

/// Monotonicity of min and max: within one period, the snapshot's max is
/// at least every recorded value and its min is at most every recorded
/// value (for the kinds that track extremes).
pub proof fn lemma_min_max_bounds(kind: InputKind, vals: Seq<u64>, i: int)
    requires
        !(kind is Marker),
        0 < vals.len() < u64_span(),
        0 <= i < vals.len(),
    ensures
        raw_snapshot_of(kind, vals) matches Some(raw) && raw.min <= vals[i] <= raw.max,
{
    lemma_small_mod(vals.len(), u64_span() as nat);
    lemma_max_of_bound(vals, i);
    lemma_min_of_bound(vals, i);
    assert(0 <= max_of(vals) <= u64::MAX) by {
        lemma_max_of_upper(vals);
    }
    assert(0 <= min_of(vals) <= u64::MAX) by {
        lemma_min_of_upper(vals);
    }
}

/// The largest value of a sequence of 64-bit values fits in 64 bits.
proof fn lemma_max_of_upper(s: Seq<u64>)
    ensures
        0 <= max_of(s) <= u64::MAX,
    decreases s.len(),
{
    if s.len() > 0 {
        lemma_max_of_upper(s.drop_last());
    }
}

/// The smallest value of a sequence of 64-bit values fits in 64 bits.
proof fn lemma_min_of_upper(s: Seq<u64>)
    ensures
        0 <= min_of(s) <= u64::MAX,
    decreases s.len(),
{
    if s.len() > 0 {
        lemma_min_of_upper(s.drop_last());
    }
}

/// Snapshot idempotence on empty: a scoreboard with no recorded values
/// snapshots to "no data".
pub proof fn lemma_empty_snapshot(kind: InputKind)
    ensures
        raw_snapshot_of(kind, Seq::<u64>::empty()) is None,
{
}

} // verus!
