//! Metric handles: the small, copy-around values a scope hands out for
//! later writes.
use vstd::prelude::*;

use crate::kind::InputKind;
use crate::name::MetricName;

verus! {

/// A deterministic metric identifier: the kind and the fully-qualified
/// name. Used as the cache key and for structural equality of handles.
pub struct MetricId {
    kind: InputKind,
    name: MetricName,
}

impl MetricId {
    /// The handle's metric kind.
    pub closed spec fn spec_kind(&self) -> InputKind {
        self.kind
    }

    /// The handle's fully-qualified name.
    pub closed spec fn spec_name(&self) -> Seq<Seq<char>> {
        self.name@
    }

    /// Forge the identifier of a metric from its kind and full name.
    pub fn forge(kind: InputKind, name: MetricName) -> (r: MetricId)
        ensures
            r.spec_kind() == kind,
            r.spec_name() == name@,
    {
        MetricId { kind, name }
    }

    /// The handle's metric kind.
    pub fn kind(&self) -> (r: InputKind)
        ensures
            r == self.spec_kind(),
    {
        self.kind
    }

    /// The handle's fully-qualified name.
    pub fn name(&self) -> (r: &MetricName)
        ensures
            r@ == self.spec_name(),
    {
        &self.name
    }
}

impl Clone for MetricId {
    /// A copy naming the same metric.
    fn clone(&self) -> (r: Self)
        ensures
            r.spec_kind() == self.spec_kind(),
            r.spec_name() == self.spec_name(),
    {
        MetricId { kind: self.kind, name: self.name.clone() }
    }
}

impl PartialEq for MetricId {
    /// Identifiers are equal when kind and name both are.
    fn eq(&self, other: &Self) -> (r: bool) {
        self.kind == other.kind && self.name == other.name
    }
}

impl vstd::std_specs::cmp::PartialEqSpecImpl for MetricId {
    open spec fn obeys_eq_spec() -> bool {
        true
    }

    open spec fn eq_spec(&self, other: &Self) -> bool {
        self.spec_kind() == other.spec_kind() && self.spec_name() == other.spec_name()
    }
}

/// A hot-path write handle issued by an input scope.
pub struct InputMetric {
    id: MetricId,
}

impl InputMetric {
    /// The metric this handle writes to.
    pub closed spec fn spec_id(&self) -> MetricId {
        self.id
    }

    /// The handle's metric kind.
    pub open spec fn spec_kind(&self) -> InputKind {
        self.spec_id().spec_kind()
    }

    /// The handle's fully-qualified name.
    pub open spec fn spec_name(&self) -> Seq<Seq<char>> {
        self.spec_id().spec_name()
    }

    /// A handle from its identifier.
    pub fn new(id: MetricId) -> (r: InputMetric)
        ensures
            r.spec_id() == id,
    {
        InputMetric { id }
    }

    /// The handle's identifier.
    pub fn metric_id(&self) -> (r: &MetricId)
        ensures
            r == self.spec_id(),
    {
        &self.id
    }
}

impl Clone for InputMetric {
    /// A copy writing to the same metric.
    fn clone(&self) -> (r: Self)
        ensures
            r.spec_kind() == self.spec_kind(),
            r.spec_name() == self.spec_name(),
    {
        InputMetric { id: self.id.clone() }
    }
}

/// A cold-path write handle issued by an output scope.
pub struct OutputMetric {
    id: MetricId,
}

impl OutputMetric {
    /// The metric this handle writes to.
    pub closed spec fn spec_id(&self) -> MetricId {
        self.id
    }

    /// The handle's metric kind.
    pub open spec fn spec_kind(&self) -> InputKind {
        self.spec_id().spec_kind()
    }

    /// The handle's fully-qualified name.
    pub open spec fn spec_name(&self) -> Seq<Seq<char>> {
        self.spec_id().spec_name()
    }

    /// A handle from its identifier.
    pub fn new(id: MetricId) -> (r: OutputMetric)
        ensures
            r.spec_id() == id,
    {
        OutputMetric { id }
    }

    /// The handle's identifier.
    pub fn metric_id(&self) -> (r: &MetricId)
        ensures
            r == self.spec_id(),
    {
        &self.id
    }
}

impl Clone for OutputMetric {
    /// A copy writing to the same metric.
    fn clone(&self) -> (r: Self)
        ensures
            r.spec_kind() == self.spec_kind(),
            r.spec_name() == self.spec_name(),
    {
        OutputMetric { id: self.id.clone() }
    }
}

} // verus!
