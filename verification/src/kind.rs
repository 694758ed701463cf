//! The kinds of metrics the pipeline distinguishes.
use vstd::prelude::*;

verus! {

/// Used to differentiate between metric kinds in the backend.
/// The kind determines which statistics a scoreboard accumulates and
/// which derived metrics the stats functions emit.
#[derive(Debug, Clone, Copy, PartialEq, Eq, Structural)]
pub enum InputKind {
    /// Handle to a counter of occurrences; every write records the value 1.
    Marker,
    /// Handle to a counter of additive values (bytes counts, etc.).
    Counter,
    /// Handle to a timer of durations, recorded in microseconds.
    Timer,
    /// Handle to a gauge of sampled absolute values.
    Gauge,
    /// Handle to a level accumulating deltas; the current level is the
    /// running sum.
    Level,
}

} // verus!
