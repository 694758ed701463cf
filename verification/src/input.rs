//! The hot-path scope algebra: concrete input scopes and their
//! mathematical model.
use vstd::prelude::*;

use crate::aggregate::{
    any_data, apply_writes, bucket_write, flush_publications, period_metadata_publications,
    reset_entries, spec_elapsed, BucketEntry, MetricAggregator, Publication,
};
use crate::attributes::Attributes;
use crate::error::Error;
use crate::handles::{InputMetric, MetricId};
use crate::kind::InputKind;
use crate::labels::Labels;
use crate::name::MetricName;
use crate::output::{flush_view, write_view, OutView};
use crate::output_log::{spec_format_line, LineFormat, Log, LogScope};
use crate::queue::{OutputQueueScope, QueueCmdModel};
use crate::stats::StatsFunction;

verus! {

/// The mathematical state of an aggregating bucket.
pub struct BucketView {
    /// The namespace prefixed to declared names.
    pub namespace: Seq<Seq<char>>,
    /// Name, kind and recorded values per metric.
    pub entries: Seq<BucketEntry>,
    /// When the current period began.
    pub period_start: u64,
    /// The bucket-local stats function, if set.
    pub stats: Option<StatsFunction>,
    /// The bucket-local publish target, if set.
    pub output: Option<OutView>,
    /// Whether flushes publish the synthetic period-length timer.
    pub publish_metadata: bool,
}

/// The bucket's model.
pub open spec fn bucket_view(a: MetricAggregator) -> BucketView {
    BucketView {
        namespace: a.spec_namespace(),
        entries: a.entries(),
        period_start: a.spec_period_start(),
        stats: a.spec_stats(),
        output: a.spec_output(),
        publish_metadata: a.spec_publish_metadata(),
    }
}

/// Everything a bucket flush publishes for a period ending at `now_us`.
pub open spec fn bucket_flush_pubs(b: BucketView, now_us: u64) -> Seq<Publication> {
    let f = match b.stats {
        Some(f) => f,
        None => StatsFunction::Summary,
    };
    let elapsed = spec_elapsed(b.period_start, now_us);
    flush_publications(b.entries, f, elapsed) + (if b.publish_metadata && any_data(b.entries) {
        period_metadata_publications(f, elapsed)
    } else {
        Seq::<Publication>::empty()
    })
}

/// The bucket's model after a flush at `now_us`.
pub open spec fn bucket_flush_view(b: BucketView, now_us: u64) -> BucketView {
    BucketView {
        namespace: b.namespace,
        entries: reset_entries(b.entries),
        period_start: now_us,
        stats: b.stats,
        output: match b.output {
            Some(ov) => Some(flush_view(apply_writes(ov, bucket_flush_pubs(b, now_us)))),
            None => None,
        },
        publish_metadata: b.publish_metadata,
    }
}

/// The mathematical state of an input scope.
pub enum InView {
    /// Discards everything.
    Void,
    /// An aggregating bucket.
    Bucket(BucketView),
    /// A text-line scope.
    Log {
        /// The prefix applied to every name.
        prefix: Seq<Seq<char>>,
        /// Whether lines wait for a flush.
        buffered: bool,
        /// The line layout.
        format: LineFormat,
        /// Lines written but not yet flushed.
        pending: Seq<Seq<u8>>,
        /// Lines handed to the sink.
        sink: Seq<Seq<u8>>,
    },
    /// The send side of an asynchronous queue: its prefix and the
    /// commands handed to the channel, in enqueue order.
    Queue {
        /// The prefix applied to every name before enqueueing.
        prefix: Seq<Seq<char>>,
        /// Commands handed to the channel so far.
        sent: Seq<QueueCmdModel>,
    },
    /// A fan-out over sub-scopes, in the order they were added.
    Multi {
        /// The prefix applied to every name before dispatch.
        prefix: Seq<Seq<char>>,
        /// The sub-scopes' states.
        scopes: Seq<InView>,
    },
}

/// The state after one write of `value` under `name` reaches the scope.
pub open spec fn in_write_view(
    v: InView,
    kind: InputKind,
    name: Seq<Seq<char>>,
    value: u64,
    labels: Seq<(Seq<char>, Seq<char>)>,
) -> InView
    decreases v,
{
    match v {
        InView::Void => InView::Void,
        InView::Bucket(b) => InView::Bucket(
            BucketView { entries: bucket_write(b.entries, name, kind, value), ..b },
        ),
        InView::Log { prefix, buffered, format, pending, sink } => {
            let line = spec_format_line(format, prefix + name, kind, value, labels);
            if buffered {
                InView::Log { prefix, buffered, format, pending: pending.push(line), sink }
            } else {
                InView::Log { prefix, buffered, format, pending, sink: sink.push(line) }
            }
        },
        InView::Queue { prefix, sent } => InView::Queue {
            prefix,
            sent: sent.push(QueueCmdModel::Write(kind, prefix + name, value, labels)),
        },
        InView::Multi { prefix, scopes } => InView::Multi {
            prefix,
            scopes: in_write_views(scopes, kind, prefix + name, value, labels),
        },
    }
}

/// The states of a list of sub-scopes after the same write reaches each.
pub open spec fn in_write_views(
    vs: Seq<InView>,
    kind: InputKind,
    name: Seq<Seq<char>>,
    value: u64,
    labels: Seq<(Seq<char>, Seq<char>)>,
) -> Seq<InView>
    decreases vs,
{
    if vs.len() == 0 {
        Seq::empty()
    } else {
        seq![in_write_view(vs[0], kind, name, value, labels)] + in_write_views(
            vs.drop_first(),
            kind,
            name,
            value,
            labels,
        )
    }
}

/// The state after a flush at `now_us`: buckets snapshot and publish,
/// text scopes hand buffered lines to their sinks, queues enqueue a flush
/// command, fan-outs flush every sub-scope whether or not one fails.
pub open spec fn in_flush_view(v: InView, now_us: u64) -> InView
    decreases v,
{
    match v {
        InView::Void => InView::Void,
        InView::Bucket(b) => InView::Bucket(bucket_flush_view(b, now_us)),
        InView::Log { prefix, buffered, format, pending, sink } => InView::Log {
            prefix,
            buffered,
            format,
            pending: Seq::empty(),
            sink: sink + pending,
        },
        InView::Queue { prefix, sent } => InView::Queue {
            prefix,
            sent: sent.push(QueueCmdModel::Flush),
        },
        InView::Multi { prefix, scopes } => InView::Multi {
            prefix,
            scopes: in_flush_views(scopes, now_us),
        },
    }
}

/// The states of a list of sub-scopes after each is flushed.
pub open spec fn in_flush_views(vs: Seq<InView>, now_us: u64) -> Seq<InView>
    decreases vs,
{
    if vs.len() == 0 {
        Seq::empty()
    } else {
        seq![in_flush_view(vs[0], now_us)] + in_flush_views(vs.drop_first(), now_us)
    }
}

/// A write reaches each sub-scope independently, in list order.
pub proof fn lemma_in_write_views_index(
    vs: Seq<InView>,
    kind: InputKind,
    name: Seq<Seq<char>>,
    value: u64,
    labels: Seq<(Seq<char>, Seq<char>)>,
)
    ensures
        in_write_views(vs, kind, name, value, labels).len() == vs.len(),
        forall|j: int|
            0 <= j < vs.len() ==> in_write_views(vs, kind, name, value, labels)[j]
                == in_write_view(vs[j], kind, name, value, labels),
    decreases vs.len(),
{
    if vs.len() > 0 {
        lemma_in_write_views_index(vs.drop_first(), kind, name, value, labels);
    }
}

/// A flush reaches each sub-scope independently, in list order.
pub proof fn lemma_in_flush_views_index(vs: Seq<InView>, now_us: u64)
    ensures
        in_flush_views(vs, now_us).len() == vs.len(),
        forall|j: int| 0 <= j < vs.len() ==> in_flush_views(vs, now_us)[j] == in_flush_view(
            vs[j],
            now_us,
        ),
    decreases vs.len(),
{
    if vs.len() > 0 {
        lemma_in_flush_views_index(vs.drop_first(), now_us);
    }
}


/// Whether a flush of the scope can report an error at all: only the
/// send side of an asynchronous queue can (its channel may be closed), so
/// only scopes holding one can fail.
pub open spec fn in_flush_can_fail(v: InView) -> bool
    decreases v,
{
    match v {
        InView::Queue { .. } => true,
        InView::Multi { prefix, scopes } => in_any_flush_can_fail(scopes),
        _ => false,
    }
}

/// Whether any scope of a list can fail a flush.
pub open spec fn in_any_flush_can_fail(vs: Seq<InView>) -> bool
    decreases vs,
{
    if vs.len() == 0 {
        false
    } else {
        in_flush_can_fail(vs[0]) || in_any_flush_can_fail(vs.drop_first())
    }
}

/// A list can fail exactly when one of its members can.
pub proof fn lemma_in_any_flush_can_fail(vs: Seq<InView>)
    ensures
        in_any_flush_can_fail(vs) <==> exists|j: int|
            0 <= j < vs.len() && in_flush_can_fail(#[trigger] vs[j]),
    decreases vs.len(),
{
    if vs.len() > 0 {
        lemma_in_any_flush_can_fail(vs.drop_first());
        if in_any_flush_can_fail(vs) {
            if in_flush_can_fail(vs[0]) {
            } else {
                let j = choose|j: int|
                    0 <= j < vs.drop_first().len() && in_flush_can_fail(
                        #[trigger] vs.drop_first()[j],
                    );
                assert(vs.drop_first()[j] == vs[j + 1]);
            }
        }
        if exists|j: int| 0 <= j < vs.len() && in_flush_can_fail(#[trigger] vs[j]) {
            let j = choose|j: int| 0 <= j < vs.len() && in_flush_can_fail(#[trigger] vs[j]);
            if j > 0 {
                assert(vs.drop_first()[j - 1] == vs[j]);
            }
        }
    }
}

/// A hot-path input scope: what the application records into.
pub enum InputScope {
    /// Discards everything.
    Void,
    /// Aggregates into per-metric scoreboards.
    Bucket(MetricAggregator),
    /// Formats text lines for the logging backend.
    Log(LogScope),
    /// Queues writes for a background worker.
    Queue(OutputQueueScope),
    /// Dispatches every write to a list of sub-scopes.
    Multi(MultiInputScope),
}

/// Dispatch metric values to a list of scopes.
pub struct MultiInputScope {
    attributes: Attributes,
    scopes: Vec<InputScope>,
}

/// The model of one input scope.
pub closed spec fn in_view(s: InputScope) -> InView
    decreases s,
{
    match s {
        InputScope::Void => InView::Void,
        InputScope::Bucket(a) => InView::Bucket(bucket_view(a)),
        InputScope::Log(ls) => InView::Log {
            prefix: ls.spec_prefix(),
            buffered: ls.spec_buffered(),
            format: ls.spec_format(),
            pending: ls.pending(),
            sink: ls.sink_lines(),
        },
        InputScope::Queue(q) => InView::Queue { prefix: q.spec_prefix(), sent: q.sent() },
        InputScope::Multi(ms) => InView::Multi {
            prefix: ms.attributes.spec_prefix(),
            scopes: in_views(ms.scopes@),
        },
    }
}

/// The model of a list of input scopes.
pub closed spec fn in_views(ss: Seq<InputScope>) -> Seq<InView>
    decreases ss,
{
    if ss.len() == 0 {
        Seq::empty()
    } else {
        seq![in_view(ss[0])] + in_views(ss.drop_first())
    }
}

/// Each scope in a list is modeled independently.
pub proof fn lemma_in_views_index(ss: Seq<InputScope>)
    ensures
        in_views(ss).len() == ss.len(),
        forall|j: int| 0 <= j < ss.len() ==> in_views(ss)[j] == in_view(ss[j]),
    decreases ss.len(),
{
    if ss.len() > 0 {
        lemma_in_views_index(ss.drop_first());
    }
}

impl View for InputScope {
    type V = InView;

    closed spec fn view(&self) -> InView {
        in_view(*self)
    }
}

/// Scoreboards of a bucket tally their entries under unique names; other
/// scopes are unconditionally well-formed.
pub closed spec fn in_wf(s: InputScope) -> bool
    decreases s,
{
    match s {
        InputScope::Bucket(a) => a.wf(),
        InputScope::Multi(ms) => in_wfs(ms.scopes@),
        _ => true,
    }
}

/// Well-formedness of a list of input scopes.
pub closed spec fn in_wfs(ss: Seq<InputScope>) -> bool
    decreases ss,
{
    if ss.len() == 0 {
        true
    } else {
        in_wf(ss[0]) && in_wfs(ss.drop_first())
    }
}

/// A list is well-formed exactly when each scope is.
pub proof fn lemma_in_wfs_index(ss: Seq<InputScope>)
    ensures
        in_wfs(ss) <==> forall|j: int| 0 <= j < ss.len() ==> in_wf(#[trigger] ss[j]),
    decreases ss.len(),
{
    if ss.len() > 0 {
        lemma_in_wfs_index(ss.drop_first());
        if in_wf(ss[0]) && forall|j: int|
            0 <= j < ss.drop_first().len() ==> in_wf(#[trigger] ss.drop_first()[j]) {
            assert forall|j: int| 0 <= j < ss.len() implies in_wf(#[trigger] ss[j]) by {
                if j > 0 {
                    assert(ss.drop_first()[j - 1] == ss[j]);
                }
            }
        }
        if forall|j: int| 0 <= j < ss.len() ==> in_wf(#[trigger] ss[j]) {
            assert forall|j: int| 0 <= j < ss.drop_first().len() implies in_wf(
                #[trigger] ss.drop_first()[j],
            ) by {
                assert(ss.drop_first()[j] == ss[j + 1]);
            }
        }
    }
}

impl InputScope {
    /// Whether the scope's internal accumulators are well-formed.
    pub open spec fn wf(&self) -> bool {
        in_wf(*self)
    }

    /// Issue a write handle for a metric. Prefixes apply when a value is
    /// written through the handle; on a bucket the handle's metric is
    /// declared at once under the bucket's namespace.
    pub fn new_metric(&mut self, name: MetricName, kind: InputKind) -> (r: InputMetric)
        requires
            old(self).wf(),
        ensures
            final(self).wf(),
            r.spec_kind() == kind,
            old(self)@ matches InView::Bucket(b) ==> r.spec_name() == b.namespace + name@
                && final(self)@ == InView::Bucket(
                (BucketView {
                    entries: crate::aggregate::bucket_define(b.entries, b.namespace + name@, kind),
                    ..b
                }),
            ),
            !(old(self)@ is Bucket) ==> r.spec_name() == name@ && final(self)@ == old(self)@,
    {
        match self {
            InputScope::Bucket(a) => a.define_metric(&name, kind),
            _ => InputMetric::new(MetricId::forge(kind, name)),
        }
    }

    /// Route one write to the scope.
    #[verifier::loop_isolation(false)]
    pub fn write(&mut self, metric: &InputMetric, value: u64, labels: &Labels)
        requires
            old(self).wf(),
        ensures
            final(self).wf(),
            final(self)@ == in_write_view(
                old(self)@,
                metric.spec_kind(),
                metric.spec_name(),
                value,
                labels@,
            ),
        decreases *old(self),
    {
        match self {
            InputScope::Void => {},
            InputScope::Bucket(a) => {
                a.write(metric, value);
            },
            InputScope::Log(ls) => {
                let target = crate::handles::OutputMetric::new(metric.metric_id().clone());
                ls.write(&target, value, labels);
            },
            InputScope::Queue(q) => {
                q.write(metric, value, labels.clone());
            },
            InputScope::Multi(ms) => {
                let resolved = ms.attributes.prefix_append(metric.metric_id().name());
                let sub_metric = InputMetric::new(
                    MetricId::forge(metric.metric_id().kind(), resolved),
                );
                let ghost before = ms.scopes@;
                let ghost attrs0 = ms.attributes;
                let ghost kind = metric.spec_kind();
                let ghost subname = sub_metric.spec_name();
                proof {
                    lemma_in_wfs_index(before);
                }
                let mut i: usize = 0;
                while i < ms.scopes.len()
                    invariant
                        i <= ms.scopes.len(),
                        ms.attributes == attrs0,
                        ms.scopes@.len() == before.len(),
                        sub_metric.spec_kind() == kind,
                        sub_metric.spec_name() == subname,
                        forall|j: int|
                            i <= j < before.len() ==> #[trigger] ms.scopes@[j] == before[j],
                        forall|j: int|
                            0 <= j < i ==> in_view(#[trigger] ms.scopes@[j]) == in_write_view(
                                in_view(before[j]),
                                kind,
                                subname,
                                value,
                                labels@,
                            ),
                        forall|j: int| 0 <= j < i ==> in_wf(#[trigger] ms.scopes@[j]),
                        forall|j: int|
                            i <= j < before.len() ==> decreases_to!(*old(self) => #[trigger] before[j]),
                    decreases ms.scopes@.len() - i,
                {
                    let mut s = ms.scopes.remove(i);
                    s.write(&sub_metric, value, labels);
                    ms.scopes.insert(i, s);
                    i = i + 1;
                }
                proof {
                    lemma_in_views_index(before);
                    lemma_in_views_index(ms.scopes@);
                    lemma_in_write_views_index(in_views(before), kind, subname, value, labels@);
                    assert(in_views(ms.scopes@) =~= in_write_views(
                        in_views(before),
                        kind,
                        subname,
                        value,
                        labels@,
                    ));
                    lemma_in_wfs_index(ms.scopes@);
                }
            },
        }
    }

    /// Flush the scope at time `now_us`: a bucket snapshots and publishes
    /// to its own target, a text scope hands lines to its sink, a queue
    /// enqueues a flush command, a fan-out flushes every sub-scope and
    /// returns the first error encountered, having attempted all. The
    /// only error a flush can surface is a queued sub-scope's closed
    /// channel; a scope holding no queue flushes without error.
    #[verifier::loop_isolation(false)]
    pub fn flush(&mut self, now_us: u64) -> (r: Result<(), Error>)
        requires
            old(self).wf(),
        ensures
            final(self).wf(),
            final(self)@ == in_flush_view(old(self)@, now_us),
            r matches Err(e) ==> e == Error::Async && in_flush_can_fail(old(self)@),
            !in_flush_can_fail(old(self)@) ==> r is Ok,
        decreases *old(self),
    {
        match self {
            InputScope::Void => Ok(()),
            InputScope::Bucket(a) => a.flush(now_us),
            InputScope::Log(ls) => ls.flush(),
            InputScope::Queue(q) => q.flush(),
            InputScope::Multi(ms) => {
                let ghost before = ms.scopes@;
                let ghost attrs0 = ms.attributes;
                proof {
                    lemma_in_wfs_index(before);
                }
                proof {
                    lemma_in_views_index(before);
                }
                let mut first_error: Option<Error> = None;
                let mut i: usize = 0;
                while i < ms.scopes.len()
                    invariant
                        i <= ms.scopes.len(),
                        ms.attributes == attrs0,
                        ms.scopes@.len() == before.len(),
                        forall|j: int|
                            i <= j < before.len() ==> #[trigger] ms.scopes@[j] == before[j],
                        forall|j: int|
                            0 <= j < i ==> in_view(#[trigger] ms.scopes@[j]) == in_flush_view(
                                in_view(before[j]),
                                now_us,
                            ),
                        forall|j: int| 0 <= j < i ==> in_wf(#[trigger] ms.scopes@[j]),
                        first_error matches Some(e) ==> e == Error::Async && in_flush_can_fail(
                            old(self)@,
                        ),
                        forall|j: int|
                            i <= j < before.len() ==> decreases_to!(*old(self) => #[trigger] before[j]),
                    decreases ms.scopes@.len() - i,
                {
                    let mut s = ms.scopes.remove(i);
                    let ghost sub_view = s@;
                    let sub_result = s.flush(now_us);
                    ms.scopes.insert(i, s);
                    if first_error.is_none() {
                        if let Err(e) = sub_result {
                            proof {
                                assert(sub_view == in_views(before)[i as int]);
                                lemma_in_any_flush_can_fail(in_views(before));
                            }
                            first_error = Some(e);
                        }
                    }
                    i = i + 1;
                }
                proof {
                    lemma_in_views_index(before);
                    lemma_in_views_index(ms.scopes@);
                    lemma_in_flush_views_index(in_views(before), now_us);
                    assert(in_views(ms.scopes@) =~= in_flush_views(in_views(before), now_us));
                    lemma_in_wfs_index(ms.scopes@);
                }
                match first_error {
                    Some(e) => Err(e),
                    None => Ok(()),
                }
            },
        }
    }
}

impl MultiInputScope {
    /// The fan-out's prefix.
    pub closed spec fn spec_prefix(&self) -> Seq<Seq<char>> {
        self.attributes.spec_prefix()
    }

    /// The fan-out's sub-scope states, in dispatch order.
    pub closed spec fn spec_scopes(&self) -> Seq<InView> {
        in_views(self.scopes@)
    }

    /// Whether every sub-scope is well-formed.
    pub closed spec fn wf(&self) -> bool {
        in_wfs(self.scopes@)
    }

    /// Create a new multi scope dispatcher with no scopes.
    pub fn new() -> (r: Self)
        ensures
            r.wf(),
            r.spec_prefix() =~= Seq::<Seq<char>>::empty(),
            r.spec_scopes() =~= Seq::<InView>::empty(),
    {
        MultiInputScope { attributes: Attributes::new(), scopes: Vec::new() }
    }

    /// Returns the dispatcher with the new scope added at the end of the
    /// dispatch list.
    pub fn add_target(self, scope: InputScope) -> (r: Self)
        requires
            self.wf(),
            scope.wf(),
        ensures
            r.wf(),
            r.spec_prefix() == self.spec_prefix(),
            r.spec_scopes() =~= self.spec_scopes().push(scope@),
    {
        let ghost before = self.scopes@;
        let mut cloned = self;
        cloned.scopes.push(scope);
        proof {
            lemma_in_views_index(before);
            lemma_in_views_index(cloned.scopes@);
            lemma_in_wfs_index(before);
            lemma_in_wfs_index(cloned.scopes@);
        }
        cloned
    }

    /// Name every dispatched metric under one more prefix segment.
    pub fn named(self, segment: &str) -> (r: Self)
        requires
            segment@.len() > 0,
        ensures
            r.wf() == self.wf(),
            r.spec_prefix() =~= seq![segment@] + self.spec_prefix(),
            r.spec_scopes() == self.spec_scopes(),
    {
        let mut cloned = self;
        cloned.attributes.add_prefix(segment);
        cloned
    }

    /// The fan-out as an input scope.
    pub fn into_scope(self) -> (r: InputScope)
        ensures
            r@ == (InView::Multi { prefix: self.spec_prefix(), scopes: self.spec_scopes() }),
            r.wf() == self.wf(),
    {
        InputScope::Multi(self)
    }

    /// Hand the sub-scopes back, dissolving the fan-out.
    pub fn into_targets(self) -> (r: Vec<InputScope>)
        ensures
            in_views(r@) == self.spec_scopes(),
    {
        self.scopes
    }
}

impl MetricAggregator {
    /// The bucket as a hot-path input scope.
    pub fn into_scope(self) -> (r: InputScope)
        ensures
            r@ == InView::Bucket(bucket_view(self)),
            r.wf() == self.wf(),
    {
        InputScope::Bucket(self)
    }
}

impl From<MetricAggregator> for InputScope {
    /// The bucket as a hot-path input scope.
    fn from(agg: MetricAggregator) -> (r: InputScope) {
        InputScope::Bucket(agg)
    }
}

impl vstd::std_specs::convert::FromSpecImpl<MetricAggregator> for InputScope {
    open spec fn obeys_from_spec() -> bool {
        true
    }

    open spec fn from_spec(agg: MetricAggregator) -> Self {
        InputScope::Bucket(agg)
    }
}

/// A hot-path input configuration: something scopes can be opened from.
pub enum Input {
    /// Discards everything.
    Void,
    /// A log output opened as an input.
    Log(Log),
    /// A fan-out over other inputs.
    Multi(MultiInput),
}

/// Opens one scope from each of a list of inputs.
pub struct MultiInput {
    attributes: Attributes,
    inputs: Vec<Input>,
}

/// The state a freshly opened scope has for a given configuration.
pub closed spec fn open_input(c: Input) -> InView
    decreases c,
{
    match c {
        Input::Void => InView::Void,
        Input::Log(l) => InView::Log {
            prefix: l.spec_prefix(),
            buffered: l.spec_buffered(),
            format: l.spec_format(),
            pending: Seq::empty(),
            sink: Seq::empty(),
        },
        Input::Multi(m) => InView::Multi {
            prefix: m.attributes.spec_prefix(),
            scopes: open_inputs(m.inputs@),
        },
    }
}

/// The states of the scopes a list of inputs opens.
pub closed spec fn open_inputs(cs: Seq<Input>) -> Seq<InView>
    decreases cs,
{
    if cs.len() == 0 {
        Seq::empty()
    } else {
        seq![open_input(cs[0])] + open_inputs(cs.drop_first())
    }
}

/// Each input of a list opens its scope independently.
pub proof fn lemma_open_inputs_index(cs: Seq<Input>)
    ensures
        open_inputs(cs).len() == cs.len(),
        forall|j: int| 0 <= j < cs.len() ==> open_inputs(cs)[j] == open_input(cs[j]),
    decreases cs.len(),
{
    if cs.len() > 0 {
        lemma_open_inputs_index(cs.drop_first());
    }
}

impl Input {
    /// Open a hot-path scope over this input.
    #[verifier::loop_isolation(false)]
    pub fn metrics(&self) -> (r: InputScope)
        ensures
            r@ == open_input(*self),
            r.wf(),
        decreases *self,
    {
        match self {
            Input::Void => InputScope::Void,
            Input::Log(l) => InputScope::Log(l.metrics()),
            Input::Multi(m) => {
                let mut scopes: Vec<InputScope> = Vec::new();
                let mut i: usize = 0;
                while i < m.inputs.len()
                    invariant
                        i <= m.inputs.len(),
                        scopes@.len() == i,
                        forall|j: int|
                            0 <= j < i ==> in_view(#[trigger] scopes@[j]) == open_input(
                                m.inputs@[j],
                            ) && in_wf(scopes@[j]),
                        forall|j: int|
                            i <= j < m.inputs@.len() ==> decreases_to!(*self => #[trigger] m.inputs@[j]),
                    decreases m.inputs@.len() - i,
                {
                    let sub = m.inputs[i].metrics();
                    scopes.push(sub);
                    i = i + 1;
                }
                let r = InputScope::Multi(
                    MultiInputScope { attributes: m.attributes.clone(), scopes },
                );
                proof {
                    let built = (match r {
                        InputScope::Multi(ref ms) => ms.scopes@,
                        _ => Seq::empty(),
                    });
                    lemma_in_views_index(built);
                    lemma_open_inputs_index(m.inputs@);
                    assert(in_views(built) =~= open_inputs(m.inputs@));
                    lemma_in_wfs_index(built);
                }
                r
            },
        }
    }
}

impl MultiInput {
    /// Create a new multi-input with no targets.
    pub fn input() -> (r: MultiInput)
        ensures
            r.spec_prefix() =~= Seq::<Seq<char>>::empty(),
            r.spec_inputs() =~= Seq::<InView>::empty(),
    {
        MultiInput { attributes: Attributes::new(), inputs: Vec::new() }
    }

    /// The fan-out's prefix.
    pub closed spec fn spec_prefix(&self) -> Seq<Seq<char>> {
        self.attributes.spec_prefix()
    }

    /// The states of the scopes the configured targets open.
    pub closed spec fn spec_inputs(&self) -> Seq<InView> {
        open_inputs(self.inputs@)
    }

    /// Returns a copy of the dispatch with the new target added to the
    /// list.
    pub fn add_target(self, input: Input) -> (r: Self)
        ensures
            r.spec_prefix() == self.spec_prefix(),
            r.spec_inputs() =~= self.spec_inputs().push(open_input(input)),
    {
        let ghost before = self.inputs@;
        let mut cloned = self;
        cloned.inputs.push(input);
        proof {
            lemma_open_inputs_index(before);
            lemma_open_inputs_index(cloned.inputs@);
        }
        cloned
    }

    /// Open one scope per configured target, dispatching in list order.
    pub fn metrics(&self) -> (r: MultiInputScope)
        ensures
            r.wf(),
            r.spec_prefix() == self.spec_prefix(),
            r.spec_scopes() =~= self.spec_inputs(),
    {
        let opened = Input::Multi(
            MultiInput { attributes: self.attributes.clone(), inputs: clone_inputs(&self.inputs) },
        ).metrics();
        match opened {
            InputScope::Multi(ms) => ms,
            _ => MultiInputScope::new(),
        }
    }
}

/// A copy of a list of input configurations.
#[verifier::loop_isolation(false)]
fn clone_inputs(cs: &Vec<Input>) -> (r: Vec<Input>)
    ensures
        open_inputs(r@) =~= open_inputs(cs@),
    decreases *cs,
{
    let mut out: Vec<Input> = Vec::new();
    let mut i: usize = 0;
    while i < cs.len()
        invariant
            i <= cs.len(),
            out@.len() == i,
            forall|j: int| 0 <= j < i ==> open_input(#[trigger] out@[j]) == open_input(cs@[j]),
            forall|j: int| i <= j < cs@.len() ==> decreases_to!(*cs => #[trigger] cs@[j]),
        decreases cs@.len() - i,
    {
        let c = clone_input(&cs[i]);
        out.push(c);
        i = i + 1;
    }
    proof {
        lemma_open_inputs_index(out@);
        lemma_open_inputs_index(cs@);
    }
    out
}

/// A copy of one input configuration, opening the same scope.
#[verifier::loop_isolation(false)]
fn clone_input(c: &Input) -> (r: Input)
    ensures
        open_input(r) == open_input(*c),
    decreases *c,
{
    match c {
        Input::Void => Input::Void,
        Input::Log(l) => Input::Log(l.clone()),
        Input::Multi(m) => {
            let mut inputs: Vec<Input> = Vec::new();
            let mut i: usize = 0;
            while i < m.inputs.len()
                invariant
                    i <= m.inputs.len(),
                    inputs@.len() == i,
                    forall|j: int|
                        0 <= j < i ==> open_input(#[trigger] inputs@[j]) == open_input(
                            m.inputs@[j],
                        ),
                    forall|j: int|
                        i <= j < m.inputs@.len() ==> decreases_to!(*c => #[trigger] m.inputs@[j]),
                decreases m.inputs@.len() - i,
            {
                let sub = clone_input(&m.inputs[i]);
                inputs.push(sub);
                i = i + 1;
            }
            let r = Input::Multi(MultiInput { attributes: m.attributes.clone(), inputs });
            proof {
                let built = (match r {
                    Input::Multi(ref mm) => mm.inputs@,
                    _ => Seq::empty(),
                });
                lemma_open_inputs_index(built);
                lemma_open_inputs_index(m.inputs@);
                assert(open_inputs(built) =~= open_inputs(m.inputs@));
            }
            r
        },
    }
}

} // verus!
