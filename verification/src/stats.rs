//! Derived statistics: turning raw accumulated scores into publishable
//! (kind, name, value) stats, and the predefined export strategies.
use vstd::arithmetic::div_mod::{lemma_fundamental_div_mod_converse, lemma_multiply_divide_lt};
use vstd::prelude::*;

use crate::kind::InputKind;
use crate::name::MetricName;
use crate::pcg32::Sampling;
use crate::scores::{RawScores, ScoreType};

verus! {

/// Integer division rounded to the nearest integer, halves away from
/// zero (for non-negative operands).
pub open spec fn round_div(a: int, b: int) -> int
    recommends
        a >= 0,
        b > 0,
{
    (2 * a + b) / (2 * b)
}

/// Events per second over a period of `elapsed_us` microseconds, rounded
/// to the nearest integer and saturated at `u64::MAX` (an empty period
/// reports the saturated rate, as a division by zero would).
pub open spec fn rate_per_s(n: int, elapsed_us: int) -> int {
    if elapsed_us == 0 {
        u64::MAX as int
    } else if round_div(n * 1_000_000, elapsed_us) > u64::MAX {
        u64::MAX as int
    } else {
        round_div(n * 1_000_000, elapsed_us)
    }
}

/// Rounded division never exceeds its dividend (for divisors >= 1).
pub proof fn lemma_round_div_le(a: int, b: int)
    requires
        a >= 0,
        b >= 1,
    ensures
        0 <= round_div(a, b) <= a,
{
    assert(2 * a + b < (2 * b) * (a + 1)) by (nonlinear_arith)
        requires
            a >= 0,
            b >= 1,
    ;
    lemma_multiply_divide_lt(2 * a + b, 2 * b, a + 1);
}

/// `round_div` as 64-bit arithmetic, computed exactly via 128 bits.
pub fn rounded_div(a: u64, b: u64) -> (r: u64)
    requires
        b > 0,
    ensures
        r == round_div(a as int, b as int),
{
    proof {
        lemma_round_div_le(a as int, b as int);
    }
    let num: u128 = 2 * (a as u128) + (b as u128);
    let den: u128 = 2 * (b as u128);
    (num / den) as u64
}

/// `rate_per_s` as 64-bit arithmetic, computed exactly via 128 bits.
pub fn rate_of(n: u64, elapsed_us: u64) -> (r: u64)
    ensures
        r == rate_per_s(n as int, elapsed_us as int),
{
    if elapsed_us == 0 {
        u64::MAX
    } else {
        let num: u128 = 2 * (n as u128) * 1_000_000 + (elapsed_us as u128);
        let den: u128 = 2 * (elapsed_us as u128);
        let q: u128 = num / den;
        if q > (u64::MAX as u128) {
            u64::MAX
        } else {
            q as u64
        }
    }
}

/// The statistics a period's raw scores yield for each metric kind:
///
/// - a marker reports its count and the count's rate;
/// - a gauge reports max, min and mean of its samples (no rate);
/// - a timer reports count, sum, max, min, mean, and the count's rate;
/// - a counter reports count, sum, max, min, mean, and the sum's rate;
/// - a level reports its accumulated sum, max and min.
pub open spec fn spec_scores(kind: InputKind, raw: RawScores, elapsed_us: int) -> Seq<ScoreType>
    recommends
        raw.count > 0,
{
    match kind {
        InputKind::Marker => seq![
            ScoreType::Count(raw.count),
            ScoreType::Rate(rate_per_s(raw.count as int, elapsed_us) as u64),
        ],
        InputKind::Gauge => seq![
            ScoreType::Max(raw.max),
            ScoreType::Min(raw.min),
            ScoreType::Mean(round_div(raw.sum as int, raw.count as int) as u64),
        ],
        InputKind::Timer => seq![
            ScoreType::Count(raw.count),
            ScoreType::Sum(raw.sum),
            ScoreType::Max(raw.max),
            ScoreType::Min(raw.min),
            ScoreType::Mean(round_div(raw.sum as int, raw.count as int) as u64),
            ScoreType::Rate(rate_per_s(raw.count as int, elapsed_us) as u64),
        ],
        InputKind::Counter => seq![
            ScoreType::Count(raw.count),
            ScoreType::Sum(raw.sum),
            ScoreType::Max(raw.max),
            ScoreType::Min(raw.min),
            ScoreType::Mean(round_div(raw.sum as int, raw.count as int) as u64),
            ScoreType::Rate(rate_per_s(raw.sum as int, elapsed_us) as u64),
        ],
        InputKind::Level => seq![
            ScoreType::Sum(raw.sum),
            ScoreType::Max(raw.max),
            ScoreType::Min(raw.min),
        ],
    }
}

/// Map raw scores to the applicable statistics for the period.
pub fn derive_scores(kind: InputKind, raw: &RawScores, elapsed_us: u64) -> (v: Vec<ScoreType>)
    requires
        raw.count > 0,
    ensures
        v@ == spec_scores(kind, *raw, elapsed_us as int),
{
    proof {
        lemma_round_div_le(raw.sum as int, raw.count as int);
    }
    let mut v: Vec<ScoreType> = Vec::new();
    match kind {
        InputKind::Marker => {
            v.push(ScoreType::Count(raw.count));
            v.push(ScoreType::Rate(rate_of(raw.count, elapsed_us)));
        },
        InputKind::Gauge => {
            v.push(ScoreType::Max(raw.max));
            v.push(ScoreType::Min(raw.min));
            v.push(ScoreType::Mean(rounded_div(raw.sum, raw.count)));
        },
        InputKind::Timer => {
            v.push(ScoreType::Count(raw.count));
            v.push(ScoreType::Sum(raw.sum));
            v.push(ScoreType::Max(raw.max));
            v.push(ScoreType::Min(raw.min));
            v.push(ScoreType::Mean(rounded_div(raw.sum, raw.count)));
            v.push(ScoreType::Rate(rate_of(raw.count, elapsed_us)));
        },
        InputKind::Counter => {
            v.push(ScoreType::Count(raw.count));
            v.push(ScoreType::Sum(raw.sum));
            v.push(ScoreType::Max(raw.max));
            v.push(ScoreType::Min(raw.min));
            v.push(ScoreType::Mean(rounded_div(raw.sum, raw.count)));
            v.push(ScoreType::Rate(rate_of(raw.sum, elapsed_us)));
        },
        InputKind::Level => {
            v.push(ScoreType::Sum(raw.sum));
            v.push(ScoreType::Max(raw.max));
            v.push(ScoreType::Min(raw.min));
        },
    }
    assert(v@ =~= spec_scores(kind, *raw, elapsed_us as int));
    v
}

/// What `all_stats` publishes: every score, each under the metric's name
/// plus a short suffix naming the statistic.
pub open spec fn spec_all_stats(kind: InputKind, name: Seq<Seq<char>>, score: ScoreType) -> Option<
    (InputKind, Seq<Seq<char>>, u64),
> {
    match score {
        ScoreType::Count(hit) => Some((InputKind::Counter, name + seq!["count"@], hit)),
        ScoreType::Sum(sum) => Some((kind, name + seq!["sum"@], sum)),
        ScoreType::Mean(mean) => Some((kind, name + seq!["mean"@], mean)),
        ScoreType::Max(max) => Some((InputKind::Gauge, name + seq!["max"@], max)),
        ScoreType::Min(min) => Some((InputKind::Gauge, name + seq!["min"@], min)),
        ScoreType::Rate(rate) => Some((InputKind::Gauge, name + seq!["rate"@], rate)),
    }
}

/// What `summary` publishes: one value per metric, under the metric's own
/// name. Markers export their hit count; counters, timers and levels
/// their sum; gauges their mean.
pub open spec fn spec_summary(kind: InputKind, name: Seq<Seq<char>>, score: ScoreType) -> Option<
    (InputKind, Seq<Seq<char>>, u64),
> {
    match kind {
        InputKind::Marker => match score {
            ScoreType::Count(count) => Some((InputKind::Counter, name, count)),
            _ => None,
        },
        InputKind::Counter | InputKind::Timer | InputKind::Level => match score {
            ScoreType::Sum(sum) => Some((kind, name, sum)),
            _ => None,
        },
        InputKind::Gauge => match score {
            ScoreType::Mean(mean) => Some((InputKind::Gauge, name, mean)),
            _ => None,
        },
    }
}

/// What `average` publishes: the mean of every non-marker metric, under
/// the metric's own name; markers export their hit count instead.
pub open spec fn spec_average(kind: InputKind, name: Seq<Seq<char>>, score: ScoreType) -> Option<
    (InputKind, Seq<Seq<char>>, u64),
> {
    match kind {
        InputKind::Marker => match score {
            ScoreType::Count(count) => Some((InputKind::Counter, name, count)),
            _ => None,
        },
        _ => match score {
            ScoreType::Mean(mean) => Some((InputKind::Gauge, name, mean)),
            _ => None,
        },
    }
}

/// A predefined export strategy reporting all aggregated stats for all
/// metric types. Resulting stats are named by appending a short suffix to
/// each metric's name.
pub fn all_stats(kind: InputKind, name: MetricName, score: ScoreType) -> (r: Option<
    (InputKind, MetricName, u64),
>)
    ensures
        r matches Some(t) ==> spec_all_stats(kind, name@, score) matches Some(s) && t.0 == s.0
            && t.1@ == s.1 && t.2 == s.2,
        r is Some <==> spec_all_stats(kind, name@, score) is Some,
{
    proof {
        reveal_strlit("count");
        reveal_strlit("sum");
        reveal_strlit("mean");
        reveal_strlit("max");
        reveal_strlit("min");
        reveal_strlit("rate");
    }
    let mut named = name;
    match score {
        ScoreType::Count(hit) => {
            named.append("count");
            Some((InputKind::Counter, named, hit))
        },
        ScoreType::Sum(sum) => {
            named.append("sum");
            Some((kind, named, sum))
        },
        ScoreType::Mean(mean) => {
            named.append("mean");
            Some((kind, named, mean))
        },
        ScoreType::Max(max) => {
            named.append("max");
            Some((InputKind::Gauge, named, max))
        },
        ScoreType::Min(min) => {
            named.append("min");
            Some((InputKind::Gauge, named, min))
        },
        ScoreType::Rate(rate) => {
            named.append("rate");
            Some((InputKind::Gauge, named, rate))
        },
    }
}

/// A predefined single-stat-per-metric export strategy:
/// - Timers, Counters and Levels each export their sums
/// - Markers each export their hit count
/// - Gauges each export their average
/// Since there is only one stat per metric, there is no risk of collision
/// and so exported stats copy their metric's name.
pub fn summary(kind: InputKind, name: MetricName, score: ScoreType) -> (r: Option<
    (InputKind, MetricName, u64),
>)
    ensures
        r matches Some(t) ==> spec_summary(kind, name@, score) matches Some(s) && t.0 == s.0
            && t.1@ == s.1 && t.2 == s.2,
        r is Some <==> spec_summary(kind, name@, score) is Some,
{
    match kind {
        InputKind::Marker => match score {
            ScoreType::Count(count) => Some((InputKind::Counter, name, count)),
            _ => None,
        },
        InputKind::Counter | InputKind::Timer | InputKind::Level => match score {
            ScoreType::Sum(sum) => Some((kind, name, sum)),
            _ => None,
        },
        InputKind::Gauge => match score {
            ScoreType::Mean(mean) => Some((InputKind::Gauge, name, mean)),
            _ => None,
        },
    }
}

/// A predefined export strategy reporting the average value for every
/// non-marker metric. Marker metrics export their hit count instead.
/// Since there is only one stat per metric, there is no risk of collision
/// and so exported stats copy their metric's name.
pub fn average(kind: InputKind, name: MetricName, score: ScoreType) -> (r: Option<
    (InputKind, MetricName, u64),
>)
    ensures
        r matches Some(t) ==> spec_average(kind, name@, score) matches Some(s) && t.0 == s.0
            && t.1@ == s.1 && t.2 == s.2,
        r is Some <==> spec_average(kind, name@, score) is Some,
{
    match kind {
        InputKind::Marker => match score {
            ScoreType::Count(count) => Some((InputKind::Counter, name, count)),
            _ => None,
        },
        _ => match score {
            ScoreType::Mean(mean) => Some((InputKind::Gauge, name, mean)),
            _ => None,
        },
    }
}


/// A value scaled up by the reciprocal of a sampling rate: each
/// forwarded write stands for `2^32 / threshold` writes. Rounded to the
/// nearest integer and saturated at `u64::MAX`.
pub open spec fn spec_upscale(v: u64, s: Sampling) -> int
    recommends
        0 < s.threshold <= 0x1_0000_0000,
{
    let scaled = round_div(v * 0x1_0000_0000, s.threshold as int);
    if scaled > u64::MAX {
        u64::MAX as int
    } else {
        scaled
    }
}

/// The score a sampled metric reports, scaled where the spec asks:
/// counters and timers scale count, sum and rate up by the reciprocal of
/// the rate (each forwarded write stands for that many); markers are not
/// scaled; extremes and means are witnessed values and stay.
pub open spec fn spec_scale_score(kind: InputKind, score: ScoreType, s: Sampling) -> ScoreType {
    match kind {
        InputKind::Counter | InputKind::Timer => match score {
            ScoreType::Count(c) => ScoreType::Count(spec_upscale(c, s) as u64),
            ScoreType::Sum(v) => ScoreType::Sum(spec_upscale(v, s) as u64),
            ScoreType::Rate(v) => ScoreType::Rate(spec_upscale(v, s) as u64),
            _ => score,
        },
        _ => score,
    }
}

/// `spec_upscale` as 64-bit arithmetic, computed exactly via 128 bits.
pub fn upscale(v: u64, s: Sampling) -> (r: u64)
    requires
        0 < s.threshold <= 0x1_0000_0000u64,
    ensures
        r == spec_upscale(v, s),
{
    let num: u128 = 2 * (v as u128) * 0x1_0000_0000 + (s.threshold as u128);
    let den: u128 = 2 * (s.threshold as u128);
    let q: u128 = num / den;
    if q > (u64::MAX as u128) {
        u64::MAX
    } else {
        q as u64
    }
}

/// One score of a sampled metric, scaled back to the unsampled magnitude.
pub fn scale_score(kind: InputKind, score: ScoreType, sampling: Sampling) -> (r: ScoreType)
    requires
        0 < sampling.threshold <= 0x1_0000_0000u64,
    ensures
        r == spec_scale_score(kind, score, sampling),
{
    match kind {
        InputKind::Counter | InputKind::Timer => match score {
            ScoreType::Count(c) => ScoreType::Count(upscale(c, sampling)),
            ScoreType::Sum(v) => ScoreType::Sum(upscale(v, sampling)),
            ScoreType::Rate(v) => ScoreType::Rate(upscale(v, sampling)),
            _ => score,
        },
        _ => score,
    }
}

/// At the full rate, scaling changes nothing: every score passes as is.
pub proof fn lemma_full_rate_identity(kind: InputKind, score: ScoreType)
    ensures
        spec_scale_score(kind, score, Sampling { threshold: 0x1_0000_0000u64 }) == score,
{
    let s = Sampling { threshold: 0x1_0000_0000u64 };
    assert forall|v: u64| #[trigger] spec_upscale(v, s) == v by {
        let m: int = 0x1_0000_0000;
        assert(2 * (v * m) + m == v * (2 * m) + m) by (nonlinear_arith);
        lemma_fundamental_div_mod_converse(2 * (v * m) + m, 2 * m, v as int, m);
    }
}

/// A selectable export strategy: which of the predefined stats functions
/// a bucket publishes through.
#[derive(Debug, Clone, Copy, PartialEq, Eq, Structural)]
pub enum StatsFunction {
    /// Publish every derived score (`all_stats`).
    All,
    /// Publish one value per metric (`summary`).
    Summary,
    /// Publish the mean (or marker count) per metric (`average`).
    Average,
}

/// What the selected strategy publishes for one score.
pub open spec fn spec_apply_stats(
    f: StatsFunction,
    kind: InputKind,
    name: Seq<Seq<char>>,
    score: ScoreType,
) -> Option<(InputKind, Seq<Seq<char>>, u64)> {
    match f {
        StatsFunction::All => spec_all_stats(kind, name, score),
        StatsFunction::Summary => spec_summary(kind, name, score),
        StatsFunction::Average => spec_average(kind, name, score),
    }
}

impl StatsFunction {

    /// Run the selected stats function on one score of a sampled metric:
    /// the score is first scaled up by the reciprocal of the rate (on
    /// counters and timers; markers and gauges pass unscaled), so sampled
    /// aggregates publish at their unsampled magnitude.
    pub fn apply_scaled(
        &self,
        kind: InputKind,
        name: MetricName,
        score: ScoreType,
        sampling: Sampling,
    ) -> (r: Option<(InputKind, MetricName, u64)>)
        requires
            0 < sampling.threshold <= 0x1_0000_0000u64,
        ensures
            r matches Some(t) ==> spec_apply_stats(
                *self,
                kind,
                name@,
                spec_scale_score(kind, score, sampling),
            ) matches Some(s) && t.0 == s.0 && t.1@ == s.1 && t.2 == s.2,
            r is Some <==> spec_apply_stats(
                *self,
                kind,
                name@,
                spec_scale_score(kind, score, sampling),
            ) is Some,
    {
        let scaled = scale_score(kind, score, sampling);
        self.apply(kind, name, scaled)
    }

    /// Run the selected stats function on one score.
    pub fn apply(&self, kind: InputKind, name: MetricName, score: ScoreType) -> (r: Option<
        (InputKind, MetricName, u64),
    >)
        ensures
            r matches Some(t) ==> spec_apply_stats(*self, kind, name@, score) matches Some(s)
                && t.0 == s.0 && t.1@ == s.1 && t.2 == s.2,
            r is Some <==> spec_apply_stats(*self, kind, name@, score) is Some,
    {
        match self {
            StatsFunction::All => all_stats(kind, name, score),
            StatsFunction::Summary => summary(kind, name, score),
            StatsFunction::Average => average(kind, name, score),
        }
    }
}

} // verus!
