//! A composable application-metrics pipeline: scoreboards that aggregate
//! high-rate value streams into periodic statistical snapshots, an
//! aggregating bucket keyed by metric name, and a scope algebra whose
//! wrappers (prefixing, buffering, fan-out, queuing) compose over any sink.
use vstd::prelude::*;

mod aggregate;
mod attributes;
mod cache;
mod error;
mod format;
mod handles;
mod input;
mod kind;
mod labels;
mod name;
mod output;
mod output_log;
mod pcg32;
mod proxy;
mod queue;
mod sampled;
mod scheduler;
mod scores;
mod statsmap;
mod stats;

pub use aggregate::{bucket_define, bucket_write, BucketEntry, MetricAggregator};
pub use attributes::Attributes;
pub use cache::{cache_touch, InputCache};
pub use error::Error;
pub use format::{LabelOp, LineOp, LineTemplate};
pub use handles::{InputMetric, MetricId, OutputMetric};
pub use input::{BucketView, InView, Input, InputScope, MultiInput, MultiInputScope};
pub use kind::InputKind;
pub use labels::Labels;
pub use name::MetricName;
pub use output::{to_void, MultiOutput, MultiOutputScope, OutView, Output, OutputScope};
pub use output_log::{LineFormat, Log, LogLevel, LogScope};
pub use pcg32::{Pcg32, Sampling};
pub use proxy::Proxy;
pub use queue::{apply_all, apply_cmd, OutputQueueCmd, OutputQueueScope, QueueCmdModel};
pub use sampled::SampledInputScope;
pub use scheduler::{next_fire_after, ScheduledTask, Scheduler};
pub use scores::{RawScores, ScoreType, Scoreboard};
pub use statsmap::StatsMap;
pub use stats::{all_stats, average, scale_score, summary, StatsFunction};

verus! {

/// Base type for recorded metric values.
pub type MetricValue = u64;

/// Both input and output scopes share the ability to flush the recorded
/// data downstream: buffered scopes hand their buffered lines to the
/// sink. The exact effect of each implementor stands on its inherent
/// `flush` method, which this trait forwards to.
pub trait Flush {
    /// Flush the scope's buffered state downstream.
    fn flush(&mut self) -> Result<(), error::Error>;
}

impl Flush for output_log::LogScope {
    fn flush(&mut self) -> Result<(), error::Error> {
        output_log::LogScope::flush(self)
    }
}

impl Flush for output::OutputScope {
    fn flush(&mut self) -> Result<(), error::Error> {
        output::OutputScope::flush(self)
    }
}

impl Flush for queue::OutputQueueScope {
    fn flush(&mut self) -> Result<(), error::Error> {
        queue::OutputQueueScope::flush(self)
    }
}

impl Flush for statsmap::StatsMap {
    fn flush(&mut self) -> Result<(), error::Error> {
        Ok(())
    }
}

} // verus!
