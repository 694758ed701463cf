//! Late-bound indirection: metrics recorded before any target is
//! configured still attach to the real target once one is set.
use vstd::prelude::*;

use crate::error::Error;
use crate::handles::{InputMetric, MetricId};
use crate::input::{in_flush_view, in_write_view, InView, InputScope};
use crate::kind::InputKind;
use crate::labels::Labels;
use crate::name::MetricName;

verus! {

/// An input scope that records nothing itself: it forwards to a target
/// installed later. Handles issued before a target exists stay valid and
/// begin routing on their next write once one is installed; writes made
/// while no target is set are silently dropped — they never block and
/// never buffer.
pub struct Proxy {
    target: Option<InputScope>,
}

impl Proxy {
    /// The installed target's state, if one is set.
    pub closed spec fn spec_target(&self) -> Option<InView> {
        match &self.target {
            Some(t) => Some(t@),
            None => None,
        }
    }

    /// Whether the installed target's accumulators are well-formed.
    pub closed spec fn wf(&self) -> bool {
        match &self.target {
            Some(t) => t.wf(),
            None => true,
        }
    }

    /// A proxy with no target: every write is dropped.
    pub fn new() -> (r: Proxy)
        ensures
            r.wf(),
            r.spec_target() is None,
    {
        Proxy { target: None }
    }

    /// Install (or replace) the target. Outstanding handles route to it
    /// from their next write on.
    pub fn set_target(&mut self, target: InputScope)
        requires
            target.wf(),
        ensures
            final(self).wf(),
            final(self).spec_target() == Some(target@),
    {
        self.target = Some(target);
    }

    /// Remove the target; writes are dropped again.
    pub fn unset_target(&mut self)
        ensures
            final(self).wf(),
            final(self).spec_target() is None,
    {
        self.target = None;
    }

    /// Issue a write handle. The handle does not depend on whether a
    /// target is installed yet.
    pub fn new_metric(&self, name: MetricName, kind: InputKind) -> (r: InputMetric)
        ensures
            r.spec_kind() == kind,
            r.spec_name() == name@,
    {
        InputMetric::new(MetricId::forge(kind, name))
    }

    /// Forward one write to the installed target, or drop it when none
    /// is set.
    pub fn write(&mut self, metric: &InputMetric, value: u64, labels: &Labels)
        requires
            old(self).wf(),
        ensures
            final(self).wf(),
            old(self).spec_target() matches Some(t) ==> final(self).spec_target() == Some(
                in_write_view(t, metric.spec_kind(), metric.spec_name(), value, labels@),
            ),
            old(self).spec_target() is None ==> final(self).spec_target() is None,
    {
        match &mut self.target {
            Some(t) => t.write(metric, value, labels),
            None => {},
        }
    }

    /// Flush the installed target at `now_us`, or do nothing when none
    /// is set.
    pub fn flush(&mut self, now_us: u64) -> (r: Result<(), Error>)
        requires
            old(self).wf(),
        ensures
            final(self).wf(),
            old(self).spec_target() matches Some(t) ==> final(self).spec_target() == Some(
                in_flush_view(t, now_us),
            ),
            old(self).spec_target() is None ==> final(self).spec_target() is None && r is Ok,
    {
        match &mut self.target {
            Some(t) => t.flush(now_us),
            None => Ok(()),
        }
    }
}

} // verus!
