//! Queue metrics for write on a separate thread: the hot path turns
//! writes into commands on a bounded channel; a single worker owns the
//! wrapped output scope and applies the commands in order.
use vstd::prelude::*;

use crate::attributes::Attributes;
use crate::error::Error;
use crate::handles::{InputMetric, MetricId, OutputMetric};
use crate::kind::InputKind;
use crate::labels::Labels;
use crate::name::MetricName;
use crate::output::{flush_view, write_view, OutView, OutputScope};

verus! {

/// The declared channel sender of the outside channel library. Opaque to
/// the verifier; its one operation is wrapped below.
#[verifier::external_type_specification]
#[verifier::external_body]
#[verifier::reject_recursive_types(T)]
pub struct ExSender<T>(crossbeam_channel::Sender<T>);

/// An asynchronous command: what travels over the queue to the worker.
pub enum OutputQueueCmd {
    /// Deliver one metric write.
    Write(OutputMetric, u64, Labels),
    /// Flush the wrapped scope.
    Flush,
}

/// The mathematical content of a queued command.
pub enum QueueCmdModel {
    /// A write of `value` for the metric named by kind and full name,
    /// with its labels.
    Write(InputKind, Seq<Seq<char>>, u64, Seq<(Seq<char>, Seq<char>)>),
    /// A flush request.
    Flush,
}

/// The model of one command.
pub open spec fn cmd_model(c: OutputQueueCmd) -> QueueCmdModel {
    match c {
        OutputQueueCmd::Write(m, v, l) => QueueCmdModel::Write(
            m.spec_kind(),
            m.spec_name(),
            v,
            l@,
        ),
        OutputQueueCmd::Flush => QueueCmdModel::Flush,
    }
}

/// The models of a list of commands, in order.
pub open spec fn cmd_models(cs: Seq<OutputQueueCmd>) -> Seq<QueueCmdModel> {
    Seq::new(cs.len(), |i: int| cmd_model(cs[i]))
}

/// What one command does to the wrapped scope.
pub open spec fn apply_cmd_view(v: OutView, c: QueueCmdModel) -> OutView {
    match c {
        QueueCmdModel::Write(kind, name, value, labels) => write_view(
            v,
            kind,
            name,
            value,
            labels,
        ),
        QueueCmdModel::Flush => flush_view(v),
    }
}

/// What a list of commands does to the wrapped scope, applied in order.
pub open spec fn apply_cmds_view(v: OutView, cs: Seq<QueueCmdModel>) -> OutView
    decreases cs.len(),
{
    if cs.len() == 0 {
        v
    } else {
        apply_cmd_view(apply_cmds_view(v, cs.drop_last()), cs.last())
    }
}

/// Relies on crossbeam_channel::Sender::send: blocks until there is room,
/// returns Ok when the message was placed in the channel, and gives the
/// message back in an error when every receiver is gone.
#[verifier::external_body]
fn send_cmd(sender: &crossbeam_channel::Sender<OutputQueueCmd>, cmd: OutputQueueCmd) -> (r: Result<
    (),
    OutputQueueCmd,
>)
    ensures
        r matches Err(c) ==> c == cmd,
{
    match sender.send(cmd) {
        Ok(()) => Ok(()),
        Err(e) => Err(e.0),
    }
}

/// A scope wrapper that sends writes and flushes over a bounded channel.
/// Commands are executed by a background thread that owns the wrapped
/// output scope; enqueue order is delivery order.
pub struct OutputQueueScope {
    attributes: Attributes,
    sender: crossbeam_channel::Sender<OutputQueueCmd>,
    send_failed: u64,
    sent: Ghost<Seq<QueueCmdModel>>,
}

impl OutputQueueScope {
    /// The prefix applied to every metric name before enqueueing.
    pub closed spec fn spec_prefix(&self) -> Seq<Seq<char>> {
        self.attributes.spec_prefix()
    }

    /// Every command handed to the channel so far, in enqueue order,
    /// whether or not the channel accepted it.
    pub closed spec fn sent(&self) -> Seq<QueueCmdModel> {
        self.sent@
    }

    /// How many commands the closed channel has handed back and the scope
    /// has dropped. The pipeline's own health, observable as a number.
    pub closed spec fn spec_send_failed(&self) -> u64 {
        self.send_failed
    }

    /// How many commands the closed channel has handed back and the scope
    /// has dropped.
    pub fn send_failures(&self) -> (r: u64)
        ensures
            r == self.spec_send_failed(),
    {
        self.send_failed
    }

    /// Wrap the send side of a command channel as an input scope. The
    /// receive side belongs to the worker that owns the wrapped output.
    pub fn new(sender: crossbeam_channel::Sender<OutputQueueCmd>) -> (r: OutputQueueScope)
        ensures
            r.spec_prefix() =~= Seq::<Seq<char>>::empty(),
            r.sent() =~= Seq::<QueueCmdModel>::empty(),
            r.spec_send_failed() == 0,
    {
        OutputQueueScope {
            attributes: Attributes::new(),
            sender,
            send_failed: 0,
            sent: Ghost(Seq::empty()),
        }
    }

    /// Name every queued metric under one more prefix segment.
    pub fn named(self, segment: &str) -> (r: Self)
        requires
            segment@.len() > 0,
        ensures
            r.spec_prefix() =~= seq![segment@] + self.spec_prefix(),
            r.sent() == self.sent(),
            r.spec_send_failed() == self.spec_send_failed(),
    {
        let mut cloned = self;
        cloned.attributes.add_prefix(segment);
        cloned
    }

    /// Issue a write handle for a metric.
    pub fn new_metric(&self, name: MetricName, kind: InputKind) -> (r: InputMetric)
        ensures
            r.spec_kind() == kind,
            r.spec_name() == name@,
    {
        InputMetric::new(MetricId::forge(kind, name))
    }

    /// Enqueue one write, blocking while the channel is full. A write the
    /// closed channel hands back is dropped — hot-path writes never
    /// surface errors to the application — but counted, so the drop stays
    /// observable through `send_failures`.
    pub fn write(&mut self, metric: &InputMetric, value: u64, labels: Labels)
        ensures
            final(self).spec_prefix() == old(self).spec_prefix(),
            final(self).sent() =~= old(self).sent().push(
                QueueCmdModel::Write(
                    metric.spec_kind(),
                    old(self).spec_prefix() + metric.spec_name(),
                    value,
                    labels@,
                ),
            ),
            old(self).spec_send_failed() <= final(self).spec_send_failed() <= old(
                self,
            ).spec_send_failed() + 1,
    {
        let resolved = self.attributes.prefix_append(metric.metric_id().name());
        let target = OutputMetric::new(MetricId::forge(metric.metric_id().kind(), resolved));
        let ghost model = cmd_model(OutputQueueCmd::Write(target, value, labels));
        let outcome = send_cmd(&self.sender, OutputQueueCmd::Write(target, value, labels));
        proof {
            self.sent@ = self.sent@.push(model);
        }
        match outcome {
            Ok(_) => {},
            Err(_) => {
                // The worker is gone; the write is dropped, never
                // surfaced, only counted.
                self.send_failed = self.send_failed.saturating_add(1);
            },
        }
    }

    /// Enqueue a flush request for the wrapped scope. Surfaces the closed
    /// channel, unlike writes: flushes report their errors, and a failed
    /// one is also counted.
    pub fn flush(&mut self) -> (r: Result<(), Error>)
        ensures
            final(self).spec_prefix() == old(self).spec_prefix(),
            final(self).sent() =~= old(self).sent().push(QueueCmdModel::Flush),
            r matches Err(e) ==> e == Error::Async,
            r is Ok ==> final(self).spec_send_failed() == old(self).spec_send_failed(),
            r is Err ==> final(self).spec_send_failed() == if old(self).spec_send_failed()
                < u64::MAX {
                old(self).spec_send_failed() + 1
            } else {
                u64::MAX as int
            },
    {
        let outcome = send_cmd(&self.sender, OutputQueueCmd::Flush);
        proof {
            self.sent@ = self.sent@.push(QueueCmdModel::Flush);
        }
        match outcome {
            Ok(_) => Ok(()),
            Err(_) => {
                self.send_failed = self.send_failed.saturating_add(1);
                Err(Error::Async)
            },
        }
    }
}

/// Execute one received command on the wrapped scope: the worker's step.
/// A failing flush is swallowed by the worker, never unwound.
pub fn apply_cmd(scope: &mut OutputScope, cmd: OutputQueueCmd)
    ensures
        final(scope)@ == apply_cmd_view(old(scope)@, cmd_model(cmd)),
{
    match cmd {
        OutputQueueCmd::Write(metric, value, labels) => {
            scope.write(&metric, value, &labels);
        },
        OutputQueueCmd::Flush => {
            let _ = scope.flush();
        },
    }
}

/// Execute a batch of received commands in order: what the worker does
/// when draining the channel.
pub fn apply_all(scope: &mut OutputScope, cmds: Vec<OutputQueueCmd>)
    ensures
        final(scope)@ == apply_cmds_view(old(scope)@, cmd_models(cmds@)),
{
    let ghost all = cmd_models(cmds@);
    let ghost v0 = scope@;
    let mut rest = cmds;
    let mut i: usize = 0;
    let n = rest.len();
    while i < n
        invariant
            i <= n,
            rest@.len() == n - i,
            forall|j: int| 0 <= j < rest@.len() ==> #[trigger] rest@[j] == cmds@[i + j],
            all == cmd_models(cmds@),
            all.len() == n,
            scope@ == apply_cmds_view(v0, all.take(i as int)),
        decreases n - i,
    {
        let c = rest.remove(0);
        apply_cmd(scope, c);
        i = i + 1;
        proof {
            let taken = all.take(i as int);
            assert(taken.drop_last() =~= all.take(i - 1));
            assert(taken.last() == all[i - 1]);
            assert(cmd_model(c) == all[i - 1]);
        }
    }
    proof {
        assert(all.take(all.len() as int) =~= all);
    }
}

/// The write commands one metric enqueues for a list of values, in order.
pub open spec fn write_cmds(
    kind: InputKind,
    name: Seq<Seq<char>>,
    values: Seq<u64>,
    labels: Seq<(Seq<char>, Seq<char>)>,
) -> Seq<QueueCmdModel> {
    Seq::new(values.len(), |i: int| QueueCmdModel::Write(kind, name, values[i], labels))
}

/// The capture-journal entries those deliveries produce, in order.
pub open spec fn journal_of(name: Seq<Seq<char>>, values: Seq<u64>) -> Seq<(Seq<char>, u64)> {
    Seq::new(values.len(), |i: int| (crate::name::spec_join(name, "."@), values[i]))
}

/// Queue FIFO: for a single metric behind an output queue, the values the
/// worker delivers to the underlying sink equal the values written, in
/// write order — shown on a capturing sink, whose journal records every
/// delivery in order.
pub proof fn lemma_queue_fifo(
    journal: Seq<(Seq<char>, u64)>,
    kind: InputKind,
    name: Seq<Seq<char>>,
    values: Seq<u64>,
    labels: Seq<(Seq<char>, Seq<char>)>,
)
    ensures
        apply_cmds_view(OutView::Stats(journal), write_cmds(kind, name, values, labels))
            == OutView::Stats(journal + journal_of(name, values)),
    decreases values.len(),
{
    let cs = write_cmds(kind, name, values, labels);
    if values.len() == 0 {
        assert(journal + journal_of(name, values) =~= journal);
    } else {
        let shorter = values.drop_last();
        lemma_queue_fifo(journal, kind, name, shorter, labels);
        assert(cs.drop_last() =~= write_cmds(kind, name, shorter, labels));
        assert(journal + journal_of(name, values) =~= (journal + journal_of(name, shorter)).push(
            (crate::name::spec_join(name, "."@), values.last()),
        ));
    }
}

} // verus!
