//! The cold-path scope algebra: concrete output scopes and their
//! mathematical model.
use vstd::prelude::*;

use crate::attributes::Attributes;
use crate::error::Error;
use crate::handles::{MetricId, OutputMetric};
use crate::kind::InputKind;
use crate::labels::Labels;
use crate::name::{spec_join, MetricName};
use crate::output_log::{spec_format_line, LineFormat, LogScope};
use crate::statsmap::StatsMap;

verus! {

/// The mathematical state of an output scope.
pub enum OutView {
    /// Discards everything.
    Void,
    /// A capturing map: the journal of (joined name, value) insertions.
    Stats(Seq<(Seq<char>, u64)>),
    /// A text-line scope: its prefix, buffering mode, format, the lines
    /// pending in its buffer and the lines handed to its sink.
    Log {
        /// The prefix applied to every name.
        prefix: Seq<Seq<char>>,
        /// Whether lines wait for a flush.
        buffered: bool,
        /// The line layout.
        format: LineFormat,
        /// Lines written but not yet flushed.
        pending: Seq<Seq<u8>>,
        /// Lines handed to the sink.
        sink: Seq<Seq<u8>>,
    },
    /// A fan-out: its prefix and the states of its sub-scopes, in the
    /// order they were added.
    Multi {
        /// The prefix applied to every name before dispatch.
        prefix: Seq<Seq<char>>,
        /// The sub-scopes' states.
        scopes: Seq<OutView>,
    },
}

/// The state after one write of `value` under `name` reaches the scope.
pub open spec fn write_view(
    v: OutView,
    kind: InputKind,
    name: Seq<Seq<char>>,
    value: u64,
    labels: Seq<(Seq<char>, Seq<char>)>,
) -> OutView
    decreases v,
{
    match v {
        OutView::Void => OutView::Void,
        OutView::Stats(journal) => OutView::Stats(journal.push((spec_join(name, "."@), value))),
        OutView::Log { prefix, buffered, format, pending, sink } => {
            let line = spec_format_line(format, prefix + name, kind, value, labels);
            if buffered {
                OutView::Log { prefix, buffered, format, pending: pending.push(line), sink }
            } else {
                OutView::Log { prefix, buffered, format, pending, sink: sink.push(line) }
            }
        },
        OutView::Multi { prefix, scopes } => OutView::Multi {
            prefix,
            scopes: write_views(scopes, kind, prefix + name, value, labels),
        },
    }
}

/// The states of a list of sub-scopes after the same write reaches each.
pub open spec fn write_views(
    vs: Seq<OutView>,
    kind: InputKind,
    name: Seq<Seq<char>>,
    value: u64,
    labels: Seq<(Seq<char>, Seq<char>)>,
) -> Seq<OutView>
    decreases vs,
{
    if vs.len() == 0 {
        Seq::empty()
    } else {
        seq![write_view(vs[0], kind, name, value, labels)] + write_views(
            vs.drop_first(),
            kind,
            name,
            value,
            labels,
        )
    }
}

/// The state after a flush: buffered lines reach the sinks, in order.
pub open spec fn flush_view(v: OutView) -> OutView
    decreases v,
{
    match v {
        OutView::Void => OutView::Void,
        OutView::Stats(journal) => OutView::Stats(journal),
        OutView::Log { prefix, buffered, format, pending, sink } => OutView::Log {
            prefix,
            buffered,
            format,
            pending: Seq::empty(),
            sink: sink + pending,
        },
        OutView::Multi { prefix, scopes } => OutView::Multi {
            prefix,
            scopes: flush_views(scopes),
        },
    }
}

/// The states of a list of sub-scopes after each is flushed.
pub open spec fn flush_views(vs: Seq<OutView>) -> Seq<OutView>
    decreases vs,
{
    if vs.len() == 0 {
        Seq::empty()
    } else {
        seq![flush_view(vs[0])] + flush_views(vs.drop_first())
    }
}

/// A write reaches each sub-scope independently, in list order.
pub proof fn lemma_write_views_index(
    vs: Seq<OutView>,
    kind: InputKind,
    name: Seq<Seq<char>>,
    value: u64,
    labels: Seq<(Seq<char>, Seq<char>)>,
)
    ensures
        write_views(vs, kind, name, value, labels).len() == vs.len(),
        forall|j: int|
            0 <= j < vs.len() ==> write_views(vs, kind, name, value, labels)[j] == write_view(
                vs[j],
                kind,
                name,
                value,
                labels,
            ),
    decreases vs.len(),
{
    if vs.len() > 0 {
        lemma_write_views_index(vs.drop_first(), kind, name, value, labels);
    }
}

/// A flush reaches each sub-scope independently, in list order.
pub proof fn lemma_flush_views_index(vs: Seq<OutView>)
    ensures
        flush_views(vs).len() == vs.len(),
        forall|j: int| 0 <= j < vs.len() ==> flush_views(vs)[j] == flush_view(vs[j]),
    decreases vs.len(),
{
    if vs.len() > 0 {
        lemma_flush_views_index(vs.drop_first());
    }
}

/// Fan-out completeness: every sub-scope of a fan-out observes every
/// write, under the fan-out's prefix, in the order the sub-scopes were
/// added.
pub proof fn lemma_fanout_completeness(
    prefix: Seq<Seq<char>>,
    scopes: Seq<OutView>,
    kind: InputKind,
    name: Seq<Seq<char>>,
    value: u64,
    labels: Seq<(Seq<char>, Seq<char>)>,
    i: int,
)
    requires
        0 <= i < scopes.len(),
    ensures
        write_view(OutView::Multi { prefix, scopes }, kind, name, value, labels) matches
            OutView::Multi { prefix: p2, scopes: s2 } && p2 == prefix && s2.len() == scopes.len()
            && s2[i] == write_view(scopes[i], kind, prefix + name, value, labels),
{
    lemma_write_views_index(scopes, kind, prefix + name, value, labels);
}

/// A cold-path output scope: where derived metrics are published.
pub enum OutputScope {
    /// Discards everything.
    Void,
    /// Captures into a string-keyed map.
    Stats(StatsMap),
    /// Formats text lines for the logging backend.
    Log(LogScope),
    /// Dispatches every write to a list of sub-scopes.
    Multi(MultiOutputScope),
}

/// Dispatch metric values to a list of scopes.
pub struct MultiOutputScope {
    attributes: Attributes,
    scopes: Vec<OutputScope>,
}

/// The model of one scope.
pub closed spec fn out_view(s: OutputScope) -> OutView
    decreases s,
{
    match s {
        OutputScope::Void => OutView::Void,
        OutputScope::Stats(m) => OutView::Stats(m.journal()),
        OutputScope::Log(ls) => OutView::Log {
            prefix: ls.spec_prefix(),
            buffered: ls.spec_buffered(),
            format: ls.spec_format(),
            pending: ls.pending(),
            sink: ls.sink_lines(),
        },
        OutputScope::Multi(ms) => OutView::Multi {
            prefix: ms.attributes.spec_prefix(),
            scopes: out_views(ms.scopes@),
        },
    }
}

/// The model of a list of scopes.
pub closed spec fn out_views(ss: Seq<OutputScope>) -> Seq<OutView>
    decreases ss,
{
    if ss.len() == 0 {
        Seq::empty()
    } else {
        seq![out_view(ss[0])] + out_views(ss.drop_first())
    }
}

/// Each scope in a list is modeled independently.
pub proof fn lemma_out_views_index(ss: Seq<OutputScope>)
    ensures
        out_views(ss).len() == ss.len(),
        forall|j: int| 0 <= j < ss.len() ==> out_views(ss)[j] == out_view(ss[j]),
    decreases ss.len(),
{
    if ss.len() > 0 {
        lemma_out_views_index(ss.drop_first());
    }
}

impl View for OutputScope {
    type V = OutView;

    closed spec fn view(&self) -> OutView {
        out_view(*self)
    }
}

impl OutputScope {
    /// Issue a write handle for a metric. Prefixes apply when a value is
    /// written through the handle.
    pub fn new_metric(&self, name: MetricName, kind: InputKind) -> (r: OutputMetric)
        ensures
            r.spec_kind() == kind,
            r.spec_name() == name@,
    {
        OutputMetric::new(MetricId::forge(kind, name))
    }

    /// Route one write to the scope: a capturing map records the joined
    /// name, a text scope renders a line, a fan-out dispatches to every
    /// sub-scope under its prefix.
    #[verifier::loop_isolation(false)]
    pub fn write(&mut self, metric: &OutputMetric, value: u64, labels: &Labels)
        ensures
            final(self)@ == write_view(
                old(self)@,
                metric.spec_kind(),
                metric.spec_name(),
                value,
                labels@,
            ),
        decreases *old(self),
    {
        match self {
            OutputScope::Void => {},
            OutputScope::Stats(m) => {
                let key = metric.metric_id().name().join(".");
                m.insert(key, value);
            },
            OutputScope::Log(ls) => {
                ls.write(metric, value, labels);
            },
            OutputScope::Multi(ms) => {
                let resolved = ms.attributes.prefix_append(metric.metric_id().name());
                let sub_metric = OutputMetric::new(
                    MetricId::forge(metric.metric_id().kind(), resolved),
                );
                let ghost before = ms.scopes@;
                let ghost attrs0 = ms.attributes;
                let ghost kind = metric.spec_kind();
                let ghost subname = sub_metric.spec_name();
                let mut i: usize = 0;
                while i < ms.scopes.len()
                    invariant
                        i <= ms.scopes.len(),
                        ms.attributes == attrs0,
                        ms.scopes@.len() == before.len(),
                        sub_metric.spec_kind() == kind,
                        sub_metric.spec_name() == subname,
                        forall|j: int|
                            i <= j < before.len() ==> #[trigger] ms.scopes@[j] == before[j],
                        forall|j: int|
                            0 <= j < i ==> (#[trigger] ms.scopes@[j])@ == write_view(
                                before[j]@,
                                kind,
                                subname,
                                value,
                                labels@,
                            ),
                        forall|j: int|
                            i <= j < before.len() ==> decreases_to!(*old(self) => #[trigger] before[j]),
                    decreases ms.scopes@.len() - i,
                {
                    let mut s = ms.scopes.remove(i);
                    s.write(&sub_metric, value, labels);
                    ms.scopes.insert(i, s);
                    i = i + 1;
                }
                proof {
                    lemma_out_views_index(before);
                    lemma_out_views_index(ms.scopes@);
                    lemma_write_views_index(out_views(before), kind, subname, value, labels@);
                    assert(out_views(ms.scopes@) =~= write_views(
                        out_views(before),
                        kind,
                        subname,
                        value,
                        labels@,
                    ));
                }
            },
        }
    }

    /// Flush the scope: buffered text lines reach their sinks; a fan-out
    /// flushes every sub-scope. These sinks cannot fail, so the first
    /// error of a fan-out flush (returned after attempting every
    /// sub-scope) is never present.
    #[verifier::loop_isolation(false)]
    pub fn flush(&mut self) -> (r: Result<(), Error>)
        ensures
            r is Ok,
            final(self)@ == flush_view(old(self)@),
        decreases *old(self),
    {
        match self {
            OutputScope::Void => Ok(()),
            OutputScope::Stats(_) => Ok(()),
            OutputScope::Log(ls) => ls.flush(),
            OutputScope::Multi(ms) => {
                let ghost before = ms.scopes@;
                let ghost attrs0 = ms.attributes;
                let mut first_error: Option<Error> = None;
                let mut i: usize = 0;
                while i < ms.scopes.len()
                    invariant
                        i <= ms.scopes.len(),
                        ms.attributes == attrs0,
                        ms.scopes@.len() == before.len(),
                        first_error is None,
                        forall|j: int|
                            i <= j < before.len() ==> #[trigger] ms.scopes@[j] == before[j],
                        forall|j: int|
                            0 <= j < i ==> (#[trigger] ms.scopes@[j])@ == flush_view(before[j]@),
                        forall|j: int|
                            i <= j < before.len() ==> decreases_to!(*old(self) => #[trigger] before[j]),
                    decreases ms.scopes@.len() - i,
                {
                    let mut s = ms.scopes.remove(i);
                    let sub_result = s.flush();
                    ms.scopes.insert(i, s);
                    if first_error.is_none() {
                        if let Err(e) = sub_result {
                            first_error = Some(e);
                        }
                    }
                    i = i + 1;
                }
                proof {
                    lemma_out_views_index(before);
                    lemma_out_views_index(ms.scopes@);
                    lemma_flush_views_index(out_views(before));
                    assert(out_views(ms.scopes@) =~= flush_views(out_views(before)));
                }
                match first_error {
                    Some(e) => Err(e),
                    None => Ok(()),
                }
            },
        }
    }
}

impl MultiOutputScope {
    /// The fan-out's prefix.
    pub closed spec fn spec_prefix(&self) -> Seq<Seq<char>> {
        self.attributes.spec_prefix()
    }

    /// The fan-out's sub-scope states, in dispatch order.
    pub closed spec fn spec_scopes(&self) -> Seq<OutView> {
        out_views(self.scopes@)
    }

    /// Create a new multi scope dispatcher with no scopes.
    pub fn new() -> (r: Self)
        ensures
            r.spec_prefix() =~= Seq::<Seq<char>>::empty(),
            r.spec_scopes() =~= Seq::<OutView>::empty(),
    {
        MultiOutputScope { attributes: Attributes::new(), scopes: Vec::new() }
    }

    /// Returns the dispatcher with the new scope added at the end of the
    /// dispatch list.
    pub fn add_target(self, scope: OutputScope) -> (r: Self)
        ensures
            r.spec_prefix() == self.spec_prefix(),
            r.spec_scopes() =~= self.spec_scopes().push(scope@),
    {
        let ghost before = self.scopes@;
        let mut cloned = self;
        cloned.scopes.push(scope);
        proof {
            lemma_out_views_index(before);
            lemma_out_views_index(cloned.scopes@);
        }
        cloned
    }

    /// Name every dispatched metric under one more prefix segment.
    pub fn named(self, segment: &str) -> (r: Self)
        requires
            segment@.len() > 0,
        ensures
            r.spec_prefix() =~= seq![segment@] + self.spec_prefix(),
            r.spec_scopes() == self.spec_scopes(),
    {
        let mut cloned = self;
        cloned.attributes.add_prefix(segment);
        cloned
    }

    /// The fan-out as an output scope.
    pub fn into_scope(self) -> (r: OutputScope)
        ensures
            r@ == (OutView::Multi { prefix: self.spec_prefix(), scopes: self.spec_scopes() }),
    {
        OutputScope::Multi(self)
    }

    /// Hand the sub-scopes back, dissolving the fan-out.
    pub fn into_targets(self) -> (r: Vec<OutputScope>)
        ensures
            out_views(r@) == self.spec_scopes(),
    {
        self.scopes
    }
}

/// A cold-path output configuration: something scopes can be opened from.
pub enum Output {
    /// Discards everything.
    Void,
    /// A log output.
    Log(crate::output_log::Log),
    /// A fan-out over other outputs.
    Multi(MultiOutput),
}

/// Opens one scope from each of a list of outputs.
pub struct MultiOutput {
    attributes: Attributes,
    outputs: Vec<Output>,
}

/// The state a freshly opened scope has for a given configuration.
pub closed spec fn open_output(c: Output) -> OutView
    decreases c,
{
    match c {
        Output::Void => OutView::Void,
        Output::Log(l) => OutView::Log {
            prefix: l.spec_prefix(),
            buffered: l.spec_buffered(),
            format: l.spec_format(),
            pending: Seq::empty(),
            sink: Seq::empty(),
        },
        Output::Multi(m) => OutView::Multi {
            prefix: m.attributes.spec_prefix(),
            scopes: open_outputs(m.outputs@),
        },
    }
}

/// The states of the scopes a list of outputs opens.
pub closed spec fn open_outputs(cs: Seq<Output>) -> Seq<OutView>
    decreases cs,
{
    if cs.len() == 0 {
        Seq::empty()
    } else {
        seq![open_output(cs[0])] + open_outputs(cs.drop_first())
    }
}

/// Each output of a list opens its scope independently.
pub proof fn lemma_open_outputs_index(cs: Seq<Output>)
    ensures
        open_outputs(cs).len() == cs.len(),
        forall|j: int| 0 <= j < cs.len() ==> open_outputs(cs)[j] == open_output(cs[j]),
    decreases cs.len(),
{
    if cs.len() > 0 {
        lemma_open_outputs_index(cs.drop_first());
    }
}

impl Output {
    /// Open a cold-path scope over this output.
    #[verifier::loop_isolation(false)]
    pub fn new_scope(&self) -> (r: OutputScope)
        ensures
            r@ == open_output(*self),
        decreases *self,
    {
        match self {
            Output::Void => OutputScope::Void,
            Output::Log(l) => OutputScope::Log(l.new_scope()),
            Output::Multi(m) => {
                let mut scopes: Vec<OutputScope> = Vec::new();
                let mut i: usize = 0;
                while i < m.outputs.len()
                    invariant
                        i <= m.outputs.len(),
                        scopes@.len() == i,
                        forall|j: int|
                            0 <= j < i ==> out_view(#[trigger] scopes@[j]) == open_output(
                                m.outputs@[j],
                            ),
                        forall|j: int|
                            i <= j < m.outputs@.len() ==> decreases_to!(*self => #[trigger] m.outputs@[j]),
                    decreases m.outputs@.len() - i,
                {
                    let sub = m.outputs[i].new_scope();
                    scopes.push(sub);
                    i = i + 1;
                }
                let r = OutputScope::Multi(
                    MultiOutputScope { attributes: m.attributes.clone(), scopes },
                );
                proof {
                    let built = (match r {
                        OutputScope::Multi(ref ms) => ms.scopes@,
                        _ => Seq::empty(),
                    });
                    lemma_out_views_index(built);
                    lemma_open_outputs_index(m.outputs@);
                    assert(out_views(built) =~= open_outputs(m.outputs@));
                }
                r
            },
        }
    }
}

impl MultiOutput {
    /// Create a new multi-output dispatcher.
    pub fn new() -> (r: MultiOutput)
        ensures
            r.spec_prefix() =~= Seq::<Seq<char>>::empty(),
            r.spec_outputs() =~= Seq::<OutView>::empty(),
    {
        MultiOutput { attributes: Attributes::new(), outputs: Vec::new() }
    }

    /// Create a new multi-output dispatcher (an older name for `new`).
    pub fn output() -> (r: MultiOutput)
        ensures
            r.spec_prefix() =~= Seq::<Seq<char>>::empty(),
            r.spec_outputs() =~= Seq::<OutView>::empty(),
    {
        MultiOutput::new()
    }

    /// The fan-out's prefix.
    pub closed spec fn spec_prefix(&self) -> Seq<Seq<char>> {
        self.attributes.spec_prefix()
    }

    /// The states of the scopes the configured targets open.
    pub closed spec fn spec_outputs(&self) -> Seq<OutView> {
        open_outputs(self.outputs@)
    }


    /// Open one scope per configured target, dispatching in add order.
    pub fn new_scope(&self) -> (r: MultiOutputScope)
        ensures
            r.spec_prefix() == self.spec_prefix(),
            r.spec_scopes() =~= self.spec_outputs(),
    {
        let opened = Output::Multi(
            MultiOutput {
                attributes: self.attributes.clone(),
                outputs: clone_outputs(&self.outputs),
            },
        ).new_scope();
        match opened {
            OutputScope::Multi(ms) => ms,
            _ => MultiOutputScope::new(),
        }
    }

    /// Add a target to the dispatch list. Returns the extended dispatch.
    pub fn add_target(self, output: Output) -> (r: Self)
        ensures
            r.spec_prefix() == self.spec_prefix(),
            r.spec_outputs() =~= self.spec_outputs().push(open_output(output)),
    {
        let ghost before = self.outputs@;
        let mut cloned = self;
        cloned.outputs.push(output);
        proof {
            lemma_open_outputs_index(before);
            lemma_open_outputs_index(cloned.outputs@);
        }
        cloned
    }
}


/// A copy of a list of output configurations.
#[verifier::loop_isolation(false)]
fn clone_outputs(cs: &Vec<Output>) -> (r: Vec<Output>)
    ensures
        open_outputs(r@) =~= open_outputs(cs@),
    decreases *cs,
{
    let mut out: Vec<Output> = Vec::new();
    let mut i: usize = 0;
    while i < cs.len()
        invariant
            i <= cs.len(),
            out@.len() == i,
            forall|j: int| 0 <= j < i ==> open_output(#[trigger] out@[j]) == open_output(cs@[j]),
            forall|j: int| i <= j < cs@.len() ==> decreases_to!(*cs => #[trigger] cs@[j]),
        decreases cs@.len() - i,
    {
        let c = clone_output(&cs[i]);
        out.push(c);
        i = i + 1;
    }
    proof {
        lemma_open_outputs_index(out@);
        lemma_open_outputs_index(cs@);
    }
    out
}

/// A copy of one output configuration, opening the same scope.
#[verifier::loop_isolation(false)]
fn clone_output(c: &Output) -> (r: Output)
    ensures
        open_output(r) == open_output(*c),
    decreases *c,
{
    match c {
        Output::Void => Output::Void,
        Output::Log(l) => Output::Log(l.clone()),
        Output::Multi(m) => {
            let mut outputs: Vec<Output> = Vec::new();
            let mut i: usize = 0;
            while i < m.outputs.len()
                invariant
                    i <= m.outputs.len(),
                    outputs@.len() == i,
                    forall|j: int|
                        0 <= j < i ==> open_output(#[trigger] outputs@[j]) == open_output(
                            m.outputs@[j],
                        ),
                    forall|j: int|
                        i <= j < m.outputs@.len() ==> decreases_to!(*c => #[trigger] m.outputs@[j]),
                decreases m.outputs@.len() - i,
            {
                let sub = clone_output(&m.outputs[i]);
                outputs.push(sub);
                i = i + 1;
            }
            let r = Output::Multi(MultiOutput { attributes: m.attributes.clone(), outputs });
            proof {
                let built = (match r {
                    Output::Multi(ref mm) => mm.outputs@,
                    _ => Seq::empty(),
                });
                lemma_open_outputs_index(built);
                lemma_open_outputs_index(m.outputs@);
                assert(open_outputs(built) =~= open_outputs(m.outputs@));
            }
            r
        },
    }
}

/// Discard all metric values sent to it.
pub fn to_void() -> (r: Output)
    ensures
        open_output(r) == OutView::Void,
{
    Output::Void
}

} // verus!
