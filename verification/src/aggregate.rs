//! The aggregating bucket: maintains a scoreboard per metric name and
//! publishes derived statistics downstream on flush.
use vstd::prelude::*;

use crate::handles::{InputMetric, MetricId, OutputMetric};
use crate::kind::InputKind;
use crate::labels::Labels;
use crate::name::{lemma_name_le_total, lemma_name_le_trans, name_le, MetricName};
use crate::output::{write_view, OutView, OutputScope};
use crate::scores::{lemma_conservation, raw_snapshot_of, sum_of, u64_span, ScoreType, Scoreboard};
use crate::stats::{spec_apply_stats, spec_scores, StatsFunction};

verus! {

/// The model of one bucket entry: the metric's fully-qualified name, its
/// kind, and the values recorded since the last flush.
pub type BucketEntry = (Seq<Seq<char>>, InputKind, Seq<u64>);

/// The position of the entry carrying `name`, or -1 when absent.
pub open spec fn index_of_name(es: Seq<BucketEntry>, name: Seq<Seq<char>>) -> int
    decreases es.len(),
{
    if es.len() == 0 {
        -1
    } else if es[0].0 == name {
        0
    } else {
        let r = index_of_name(es.drop_first(), name);
        if r < 0 {
            -1
        } else {
            r + 1
        }
    }
}

/// A found index names the entry; -1 means no entry carries the name.
pub proof fn lemma_index_of_name(es: Seq<BucketEntry>, name: Seq<Seq<char>>)
    ensures
        index_of_name(es, name) >= 0 ==> index_of_name(es, name) < es.len() && es[index_of_name(
            es,
            name,
        )].0 == name,
        index_of_name(es, name) == -1 ==> forall|j: int|
            0 <= j < es.len() ==> (#[trigger] es[j]).0 != name,
        index_of_name(es, name) >= -1,
    decreases es.len(),
{
    if es.len() > 0 {
        lemma_index_of_name(es.drop_first(), name);
        assert forall|j: int|
            index_of_name(es, name) == -1 && 0 <= j < es.len() implies (#[trigger] es[j]).0
            != name by {
            if j > 0 {
                assert(es.drop_first()[j - 1] == es[j]);
            }
        }
    }
}

/// The index found is the first entry carrying the name.
pub proof fn lemma_index_of_name_first(es: Seq<BucketEntry>, name: Seq<Seq<char>>, i: int)
    requires
        0 <= i < es.len(),
        es[i].0 == name,
        forall|j: int| 0 <= j < i ==> (#[trigger] es[j]).0 != name,
    ensures
        index_of_name(es, name) == i,
    decreases i,
{
    if es[0].0 == name {
        assert(i == 0);
    } else {
        assert(es.drop_first()[i - 1] == es[i]);
        assert forall|j: int| 0 <= j < i - 1 implies (#[trigger] es.drop_first()[j]).0 != name by {
            assert(es.drop_first()[j] == es[j + 1]);
        }
        lemma_index_of_name_first(es.drop_first(), name, i - 1);
    }
}

/// No entry carries the name, so none is found.
pub proof fn lemma_index_of_name_none(es: Seq<BucketEntry>, name: Seq<Seq<char>>)
    requires
        forall|j: int| 0 <= j < es.len() ==> (#[trigger] es[j]).0 != name,
    ensures
        index_of_name(es, name) == -1,
    decreases es.len(),
{
    if es.len() > 0 {
        assert forall|j: int| 0 <= j < es.len() - 1 implies (#[trigger] es.drop_first()[j]).0
            != name by {
            assert(es.drop_first()[j] == es[j + 1]);
        }
        lemma_index_of_name_none(es.drop_first(), name);
    }
}


/// Where a fresh name goes to keep the entries in ascending name order:
/// past every entry whose name comes no later than it.
pub open spec fn insert_position(es: Seq<BucketEntry>, name: Seq<Seq<char>>) -> int
    decreases es.len(),
{
    if es.len() == 0 {
        0
    } else if name_le(es.first().0, name) {
        1 + insert_position(es.drop_first(), name)
    } else {
        0
    }
}

/// The entries stand in ascending name order: how the bucket publishes.
pub open spec fn entries_sorted(es: Seq<BucketEntry>) -> bool {
    forall|i: int, j: int|
        0 <= i < j < es.len() ==> name_le((#[trigger] es[i]).0, (#[trigger] es[j]).0)
}

/// No two entries carry the same name.
pub open spec fn entries_unique(es: Seq<BucketEntry>) -> bool {
    forall|i: int, j: int| 0 <= i < j < es.len() ==> (#[trigger] es[i]).0 != (#[trigger] es[j]).0
}

/// The insertion point splits the entries: names before it come no later
/// than the fresh name, the name at it (if any) comes after.
pub proof fn lemma_insert_position(es: Seq<BucketEntry>, name: Seq<Seq<char>>)
    ensures
        0 <= insert_position(es, name) <= es.len(),
        forall|j: int|
            0 <= j < insert_position(es, name) ==> name_le((#[trigger] es[j]).0, name),
        insert_position(es, name) < es.len() ==> !name_le(
            es[insert_position(es, name)].0,
            name,
        ),
    decreases es.len(),
{
    if es.len() > 0 && name_le(es.first().0, name) {
        lemma_insert_position(es.drop_first(), name);
        assert forall|j: int| 0 <= j < insert_position(es, name) implies name_le(
            (#[trigger] es[j]).0,
            name,
        ) by {
            if j > 0 {
                assert(es.drop_first()[j - 1] == es[j]);
            }
        }
        if insert_position(es, name) < es.len() {
            assert(es.drop_first()[insert_position(es, name) - 1] == es[insert_position(
                es,
                name,
            )]);
        }
    }
}

/// A scan that stops at the first later-coming name finds the insertion
/// point.
pub proof fn lemma_insert_position_first(es: Seq<BucketEntry>, name: Seq<Seq<char>>, k: int)
    requires
        0 <= k <= es.len(),
        forall|j: int| 0 <= j < k ==> name_le((#[trigger] es[j]).0, name),
        k < es.len() ==> !name_le(es[k].0, name),
    ensures
        insert_position(es, name) == k,
    decreases k,
{
    if es.len() == 0 {
    } else if k == 0 {
    } else {
        assert forall|j: int| 0 <= j < k - 1 implies name_le(
            (#[trigger] es.drop_first()[j]).0,
            name,
        ) by {
            assert(es.drop_first()[j] == es[j + 1]);
        }
        if k < es.len() {
            assert(es.drop_first()[k - 1] == es[k]);
        }
        lemma_insert_position_first(es.drop_first(), name, k - 1);
    }
}

/// Inserting a fresh name at its insertion point keeps the entries
/// sorted and their names unique.
pub proof fn lemma_bucket_insert(es: Seq<BucketEntry>, e: BucketEntry)
    requires
        entries_sorted(es),
        entries_unique(es),
        forall|j: int| 0 <= j < es.len() ==> (#[trigger] es[j]).0 != e.0,
    ensures
        entries_sorted(es.insert(insert_position(es, e.0), e)),
        entries_unique(es.insert(insert_position(es, e.0), e)),
{
    let p = insert_position(es, e.0);
    lemma_insert_position(es, e.0);
    let r = es.insert(p, e);
    assert forall|i: int, j: int| 0 <= i < j < r.len() implies name_le(
        (#[trigger] r[i]).0,
        (#[trigger] r[j]).0,
    ) && r[i].0 != r[j].0 by {
        if i < p && j < p {
            assert(r[i] == es[i]);
            assert(r[j] == es[j]);
        } else if i < p && j == p {
            assert(r[i] == es[i]);
        } else if i < p && j > p {
            assert(r[i] == es[i]);
            assert(r[j] == es[j - 1]);
        } else if i == p && j > p {
            assert(r[j] == es[j - 1]);
            if p < es.len() {
                lemma_name_le_total(es[p as int].0, e.0);
                if p < j - 1 {
                    lemma_name_le_trans(e.0, es[p as int].0, es[j - 1].0);
                }
            }
        } else {
            assert(r[i] == es[i - 1]);
            assert(r[j] == es[j - 1]);
        }
    }
}

/// The entries after a metric is declared: an absent name gets a fresh
/// empty entry; a present one is left alone.
pub open spec fn bucket_define(
    es: Seq<BucketEntry>,
    name: Seq<Seq<char>>,
    kind: InputKind,
) -> Seq<BucketEntry> {
    if index_of_name(es, name) >= 0 {
        es
    } else {
        es.insert(insert_position(es, name), (name, kind, Seq::empty()))
    }
}

/// The entries after one value lands: recorded on the entry carrying the
/// name, or on a fresh entry when the name is absent. Values are never
/// lost.
pub open spec fn bucket_write(
    es: Seq<BucketEntry>,
    name: Seq<Seq<char>>,
    kind: InputKind,
    value: u64,
) -> Seq<BucketEntry> {
    let i = index_of_name(es, name);
    if i >= 0 {
        es.update(i, (es[i].0, es[i].1, es[i].2.push(value)))
    } else {
        es.insert(insert_position(es, name), (name, kind, seq![value]))
    }
}

/// The length of a period that started at `start` when the clock reads
/// `now`, clamped at zero.
pub open spec fn spec_elapsed(start: u64, now: u64) -> u64 {
    if now >= start {
        (now - start) as u64
    } else {
        0
    }
}

/// A published stat: its kind, its full name, and the value.
pub type Publication = (InputKind, Seq<Seq<char>>, u64);

/// What the stats function publishes out of a list of scores, in order.
pub open spec fn score_publications(
    f: StatsFunction,
    kind: InputKind,
    name: Seq<Seq<char>>,
    scores: Seq<ScoreType>,
) -> Seq<Publication>
    decreases scores.len(),
{
    if scores.len() == 0 {
        Seq::empty()
    } else {
        score_publications(f, kind, name, scores.drop_last()) + match spec_apply_stats(
            f,
            kind,
            name,
            scores.last(),
        ) {
            Some(t) => seq![t],
            None => Seq::empty(),
        }
    }
}

/// What one bucket entry publishes for a period of `elapsed_us`.
pub open spec fn metric_publications(
    f: StatsFunction,
    e: BucketEntry,
    elapsed_us: u64,
) -> Seq<Publication> {
    match raw_snapshot_of(e.1, e.2) {
        None => Seq::empty(),
        Some(raw) => score_publications(f, e.1, e.0, spec_scores(e.1, raw, elapsed_us as int)),
    }
}

/// What a whole bucket publishes, entry by entry in the entries' order
/// (ascending name order, for a well-formed bucket).
pub open spec fn flush_publications(
    es: Seq<BucketEntry>,
    f: StatsFunction,
    elapsed_us: u64,
) -> Seq<Publication>
    decreases es.len(),
{
    if es.len() == 0 {
        Seq::empty()
    } else {
        flush_publications(es.drop_last(), f, elapsed_us) + metric_publications(
            f,
            es.last(),
            elapsed_us,
        )
    }
}

/// The synthetic period-length timer a metadata-publishing flush adds:
/// one Sum score carrying the period length in milliseconds.
pub open spec fn period_metadata_publications(f: StatsFunction, elapsed_us: u64) -> Seq<
    Publication,
> {
    score_publications(
        f,
        InputKind::Timer,
        seq!["_period_length"@],
        seq![ScoreType::Sum((elapsed_us / 1000) as u64)],
    )
}

/// Whether any entry recorded data in the period.
pub open spec fn any_data(es: Seq<BucketEntry>) -> bool {
    exists|i: int| 0 <= i < es.len() && raw_snapshot_of((#[trigger] es[i]).1, es[i].2) is Some
}

/// The entries once every scoreboard was snapshot and reset: names and
/// kinds kept, recorded values emptied.
pub open spec fn reset_entries(es: Seq<BucketEntry>) -> Seq<BucketEntry> {
    Seq::new(es.len(), |i: int| (es[i].0, es[i].1, Seq::<u64>::empty()))
}

/// The state of a publish scope after a list of stats lands on it, in
/// order, with no labels.
pub open spec fn apply_writes(v: OutView, pubs: Seq<Publication>) -> OutView
    decreases pubs.len(),
{
    if pubs.len() == 0 {
        v
    } else {
        write_view(
            apply_writes(v, pubs.drop_last()),
            pubs.last().0,
            pubs.last().1,
            pubs.last().2,
            Seq::empty(),
        )
    }
}

/// Writes apply one after the other: appending publications composes.
pub proof fn lemma_apply_writes_concat(v: OutView, a: Seq<Publication>, b: Seq<Publication>)
    ensures
        apply_writes(v, a + b) == apply_writes(apply_writes(v, a), b),
    decreases b.len(),
{
    if b.len() == 0 {
        assert(a + b =~= a);
    } else {
        assert((a + b).drop_last() =~= a + b.drop_last());
        lemma_apply_writes_concat(v, a, b.drop_last());
    }
}

/// Central aggregation structure: a bucket of scoreboards keyed by
/// fully-qualified metric name, with per-bucket overrides of the stats
/// function and the publish target.
pub struct MetricAggregator {
    namespace: MetricName,
    metrics: Vec<(MetricName, Scoreboard)>,
    period_start_us: u64,
    stats: Option<StatsFunction>,
    output: Option<OutputScope>,
    publish_metadata: bool,
}

impl MetricAggregator {
    /// The namespace prefixed to every declared metric name.
    pub closed spec fn spec_namespace(&self) -> Seq<Seq<char>> {
        self.namespace@
    }

    /// The bucket's entries: name, kind and recorded values per metric,
    /// in ascending name order.
    pub closed spec fn entries(&self) -> Seq<BucketEntry> {
        Seq::new(
            self.metrics@.len(),
            |i: int|
                (
                    self.metrics@[i].0@,
                    self.metrics@[i].1.score_kind(),
                    self.metrics@[i].1.recorded(),
                ),
        )
    }

    /// When the current period began, in microseconds.
    pub closed spec fn spec_period_start(&self) -> u64 {
        self.period_start_us
    }

    /// The bucket-local stats function override, if any.
    pub closed spec fn spec_stats(&self) -> Option<StatsFunction> {
        self.stats
    }

    /// The bucket-local publish target override, if any.
    pub closed spec fn spec_output(&self) -> Option<crate::output::OutView> {
        match &self.output {
            Some(o) => Some(o@),
            None => None,
        }
    }

    /// Whether a flush also publishes the synthetic period-length timer.
    pub closed spec fn spec_publish_metadata(&self) -> bool {
        self.publish_metadata
    }

    /// Scoreboards tally their entries; names are unique and the entries
    /// stand in ascending name order.
    pub closed spec fn wf(&self) -> bool {
        &&& forall|i: int| 0 <= i < self.metrics@.len() ==> (#[trigger] self.metrics@[i]).1.wf()
        &&& entries_unique(self.entries())
        &&& entries_sorted(self.entries())
    }

    /// The configuration that every operation leaves alone.
    pub open spec fn same_config(&self, other: &Self) -> bool {
        &&& self.spec_namespace() == other.spec_namespace()
        &&& self.spec_stats() == other.spec_stats()
        &&& self.spec_output() == other.spec_output()
        &&& self.spec_publish_metadata() == other.spec_publish_metadata()
    }

    /// Build a new metric aggregation bucket. The first period starts at
    /// the caller's time zero; flushes carry the current time in.
    pub fn new() -> (r: MetricAggregator)
        ensures
            r.wf(),
            r.spec_namespace() =~= Seq::<Seq<char>>::empty(),
            r.entries() =~= Seq::<BucketEntry>::empty(),
            r.spec_period_start() == 0,
            r.spec_stats() is None,
            r.spec_output() is None,
            !r.spec_publish_metadata(),
    {
        MetricAggregator {
            namespace: MetricName::empty(),
            metrics: Vec::new(),
            period_start_us: 0,
            stats: None,
            output: None,
            publish_metadata: false,
        }
    }

    /// The bucket under one more namespace level: the new segment goes
    /// in front of the namespace accumulated so far.
    pub fn with_prefix(self, segment: &str) -> (r: Self)
        requires
            segment@.len() > 0,
        ensures
            r.spec_namespace() =~= seq![segment@] + self.spec_namespace(),
            r.entries() == self.entries(),
            self.wf() ==> r.wf(),
            r.spec_period_start() == self.spec_period_start(),
            r.spec_stats() == self.spec_stats(),
            r.spec_output() == self.spec_output(),
            r.spec_publish_metadata() == self.spec_publish_metadata(),
    {
        let mut r = self;
        r.namespace.prepend(segment);
        r
    }

    /// The bucket under a whole extra namespace.
    pub fn with_namespace(self, namespace: &MetricName) -> (r: Self)
        ensures
            r.spec_namespace() =~= namespace@ + self.spec_namespace(),
            r.entries() == self.entries(),
            self.wf() ==> r.wf(),
            r.spec_period_start() == self.spec_period_start(),
            r.spec_stats() == self.spec_stats(),
            r.spec_output() == self.spec_output(),
            r.spec_publish_metadata() == self.spec_publish_metadata(),
    {
        let mut r = self;
        let extended = r.namespace.prefixed(namespace);
        r.namespace = extended;
        r
    }

    /// Set the bucket-local stats function, overriding the default.
    pub fn set_stats(&mut self, stats_fn: StatsFunction)
        ensures
            final(self).spec_stats() == Some(stats_fn),
            final(self).entries() == old(self).entries(),
            old(self).wf() ==> final(self).wf(),
            final(self).spec_namespace() == old(self).spec_namespace(),
            final(self).spec_period_start() == old(self).spec_period_start(),
            final(self).spec_output() == old(self).spec_output(),
            final(self).spec_publish_metadata() == old(self).spec_publish_metadata(),
    {
        self.stats = Some(stats_fn);
    }

    /// Remove the bucket-local stats function override.
    pub fn unset_stats(&mut self)
        ensures
            final(self).spec_stats() is None,
            final(self).entries() == old(self).entries(),
            old(self).wf() ==> final(self).wf(),
            final(self).spec_namespace() == old(self).spec_namespace(),
            final(self).spec_period_start() == old(self).spec_period_start(),
            final(self).spec_output() == old(self).spec_output(),
            final(self).spec_publish_metadata() == old(self).spec_publish_metadata(),
    {
        self.stats = None;
    }

    /// Install the bucket-local publish target, replacing any previous.
    pub fn set_output(&mut self, output: OutputScope)
        ensures
            final(self).spec_output() == Some(output@),
            final(self).entries() == old(self).entries(),
            old(self).wf() ==> final(self).wf(),
            final(self).spec_namespace() == old(self).spec_namespace(),
            final(self).spec_period_start() == old(self).spec_period_start(),
            final(self).spec_stats() == old(self).spec_stats(),
            final(self).spec_publish_metadata() == old(self).spec_publish_metadata(),
    {
        self.output = Some(output);
    }

    /// Remove the bucket-local publish target.
    pub fn unset_output(&mut self)
        ensures
            final(self).spec_output() is None,
            final(self).entries() == old(self).entries(),
            old(self).wf() ==> final(self).wf(),
            final(self).spec_namespace() == old(self).spec_namespace(),
            final(self).spec_period_start() == old(self).spec_period_start(),
            final(self).spec_stats() == old(self).spec_stats(),
            final(self).spec_publish_metadata() == old(self).spec_publish_metadata(),
    {
        self.output = None;
    }

    /// Also publish a synthetic period-length timer on flush.
    pub fn publish_metadata(&mut self, on: bool)
        ensures
            final(self).spec_publish_metadata() == on,
            final(self).entries() == old(self).entries(),
            old(self).wf() ==> final(self).wf(),
            final(self).spec_namespace() == old(self).spec_namespace(),
            final(self).spec_period_start() == old(self).spec_period_start(),
            final(self).spec_stats() == old(self).spec_stats(),
            final(self).spec_output() == old(self).spec_output(),
    {
        self.publish_metadata = on;
    }

    /// The position of the scoreboard for `name`, if any.
    fn find_index(&self, name: &MetricName) -> (r: Option<usize>)
        ensures
            r matches Some(i) ==> index_of_name(self.entries(), name@) == i,
            r is None ==> index_of_name(self.entries(), name@) == -1,
    {
        let mut i: usize = 0;
        while i < self.metrics.len()
            invariant
                i <= self.metrics.len(),
                forall|j: int| 0 <= j < i ==> (#[trigger] self.entries()[j]).0 != name@,
            decreases self.metrics.len() - i,
        {
            let hit = self.metrics[i].0 == *name;
            if hit {
                proof {
                    lemma_index_of_name_first(self.entries(), name@, i as int);
                }
                return Some(i);
            }
            i = i + 1;
        }
        proof {
            lemma_index_of_name_none(self.entries(), name@);
        }
        None
    }


    /// Where a fresh scoreboard for `name` goes to keep the bucket's
    /// entries in ascending name order.
    fn find_insert_index(&self, name: &MetricName) -> (r: usize)
        ensures
            r == insert_position(self.entries(), name@),
    {
        let mut k: usize = 0;
        while k < self.metrics.len()
            invariant_except_break
                k <= self.metrics@.len(),
                forall|j: int| 0 <= j < k ==> name_le((#[trigger] self.entries()[j]).0, name@),
            ensures
                k <= self.metrics@.len(),
                forall|j: int| 0 <= j < k ==> name_le((#[trigger] self.entries()[j]).0, name@),
                k < self.metrics@.len() ==> !name_le(self.entries()[k as int].0, name@),
            decreases self.metrics@.len() - k,
        {
            let le = self.metrics[k].0.comes_before(name);
            if !le {
                break ;
            }
            k = k + 1;
        }
        proof {
            lemma_insert_position_first(self.entries(), name@, k as int);
        }
        k
    }

    /// Lookup or create a scoreboard for the requested metric, under the
    /// bucket's namespace. Returns the hot-path write handle.
    pub fn define_metric(&mut self, name: &MetricName, kind: InputKind) -> (r: InputMetric)
        requires
            old(self).wf(),
        ensures
            final(self).wf(),
            final(self).same_config(old(self)),
            final(self).spec_period_start() == old(self).spec_period_start(),
            r.spec_kind() == kind,
            r.spec_name() == old(self).spec_namespace() + name@,
            final(self).entries() == bucket_define(
                old(self).entries(),
                old(self).spec_namespace() + name@,
                kind,
            ),
    {
        let full = name.prefixed(&self.namespace);
        match self.find_index(&full) {
            Some(_) => {},
            None => {
                proof {
                    lemma_index_of_name(self.entries(), full@);
                }
                let pos = self.find_insert_index(&full);
                proof {
                    lemma_insert_position(self.entries(), full@);
                }
                let joined = full.join(".");
                let board = Scoreboard::new(full.clone(), kind, joined);
                let ghost before = self.entries();
                let ghost boards = self.metrics@;
                self.metrics.insert(pos, (full.clone(), board));
                proof {
                    lemma_insert_position(before, full@);
                    assert(self.entries() =~= before.insert(
                        pos as int,
                        (full@, kind, Seq::<u64>::empty()),
                    ));
                    lemma_bucket_insert(before, (full@, kind, Seq::<u64>::empty()));
                    assert forall|a: int| 0 <= a < self.metrics@.len() implies (
                    #[trigger] self.metrics@[a]).1.wf() by {
                        if a < pos {
                            assert(self.metrics@[a] == boards[a]);
                        } else if a > pos {
                            assert(self.metrics@[a] == boards[a - 1]);
                        }
                    }
                }
            },
        }
        InputMetric::new(MetricId::forge(kind, full))
    }

    /// Record one value on the handle's metric. Never fails: a handle
    /// whose metric is unknown to this bucket lands on a fresh scoreboard
    /// rather than being lost.
    pub fn write(&mut self, metric: &InputMetric, value: u64)
        requires
            old(self).wf(),
        ensures
            final(self).wf(),
            final(self).same_config(old(self)),
            final(self).spec_period_start() == old(self).spec_period_start(),
            final(self).entries() == bucket_write(
                old(self).entries(),
                metric.spec_name(),
                metric.spec_kind(),
                value,
            ),
    {
        match self.find_index(metric.metric_id().name()) {
            Some(i) => {
                proof {
                    lemma_index_of_name(self.entries(), metric.spec_name());
                }
                let ghost before = self.entries();
                let ghost boards = self.metrics@;
                let (entry_name, mut board) = self.metrics.remove(i);
                board.update(value);
                self.metrics.insert(i, (entry_name, board));
                proof {
                    let e = before[i as int];
                    assert(forall|a: int|
                        0 <= a < self.metrics@.len() && a != i ==> #[trigger] self.metrics@[a]
                            == boards[a]);
                    assert(self.metrics@[i as int].0@ == boards[i as int].0@);
                    assert(self.metrics@[i as int].1.wf());
                    assert(self.entries() =~= before.update(
                        i as int,
                        (e.0, e.1, e.2.push(value)),
                    ));
                    assert forall|a: int, b: int| 0 <= a < b < self.entries().len() implies (
                    #[trigger] self.entries()[a]).0 == before[a].0 && (
                    #[trigger] self.entries()[b]).0 == before[b].0 by {}
                }
            },
            None => {
                proof {
                    lemma_index_of_name(self.entries(), metric.spec_name());
                }
                let full = metric.metric_id().name().clone();
                let pos = self.find_insert_index(&full);
                proof {
                    lemma_insert_position(self.entries(), full@);
                }
                let ghost before = self.entries();
                let ghost boards = self.metrics@;
                let joined = full.join(".");
                let mut board = Scoreboard::new(full.clone(), metric.metric_id().kind(), joined);
                board.update(value);
                self.metrics.insert(pos, (full, board));
                proof {
                    lemma_insert_position(before, metric.spec_name());
                    assert(self.entries() =~= before.insert(
                        pos as int,
                        (metric.spec_name(), metric.spec_kind(), seq![value]),
                    ));
                    lemma_bucket_insert(
                        before,
                        (metric.spec_name(), metric.spec_kind(), seq![value]),
                    );
                    assert forall|a: int| 0 <= a < self.metrics@.len() implies (
                    #[trigger] self.metrics@[a]).1.wf() by {
                        if a < pos {
                            assert(self.metrics@[a] == boards[a]);
                        } else if a > pos {
                            assert(self.metrics@[a] == boards[a - 1]);
                        }
                    }
                }
            },
        }
    }

    /// Declare a counter under the bucket's namespace.
    pub fn counter(&mut self, name: &str) -> (r: InputMetric)
        requires
            old(self).wf(),
            name@.len() > 0,
        ensures
            final(self).wf(),
            final(self).same_config(old(self)),
            final(self).spec_period_start() == old(self).spec_period_start(),
            r.spec_kind() == InputKind::Counter,
            r.spec_name() == old(self).spec_namespace() + seq![name@],
            final(self).entries() == bucket_define(
                old(self).entries(),
                old(self).spec_namespace() + seq![name@],
                InputKind::Counter,
            ),
    {
        let n = MetricName::from_segment(name);
        self.define_metric(&n, InputKind::Counter)
    }

    /// Declare a timer under the bucket's namespace.
    pub fn timer(&mut self, name: &str) -> (r: InputMetric)
        requires
            old(self).wf(),
            name@.len() > 0,
        ensures
            final(self).wf(),
            final(self).same_config(old(self)),
            final(self).spec_period_start() == old(self).spec_period_start(),
            r.spec_kind() == InputKind::Timer,
            r.spec_name() == old(self).spec_namespace() + seq![name@],
            final(self).entries() == bucket_define(
                old(self).entries(),
                old(self).spec_namespace() + seq![name@],
                InputKind::Timer,
            ),
    {
        let n = MetricName::from_segment(name);
        self.define_metric(&n, InputKind::Timer)
    }

    /// Declare a gauge under the bucket's namespace.
    pub fn gauge(&mut self, name: &str) -> (r: InputMetric)
        requires
            old(self).wf(),
            name@.len() > 0,
        ensures
            final(self).wf(),
            final(self).same_config(old(self)),
            final(self).spec_period_start() == old(self).spec_period_start(),
            r.spec_kind() == InputKind::Gauge,
            r.spec_name() == old(self).spec_namespace() + seq![name@],
            final(self).entries() == bucket_define(
                old(self).entries(),
                old(self).spec_namespace() + seq![name@],
                InputKind::Gauge,
            ),
    {
        let n = MetricName::from_segment(name);
        self.define_metric(&n, InputKind::Gauge)
    }

    /// Declare a marker under the bucket's namespace.
    pub fn marker(&mut self, name: &str) -> (r: InputMetric)
        requires
            old(self).wf(),
            name@.len() > 0,
        ensures
            final(self).wf(),
            final(self).same_config(old(self)),
            final(self).spec_period_start() == old(self).spec_period_start(),
            r.spec_kind() == InputKind::Marker,
            r.spec_name() == old(self).spec_namespace() + seq![name@],
            final(self).entries() == bucket_define(
                old(self).entries(),
                old(self).spec_namespace() + seq![name@],
                InputKind::Marker,
            ),
    {
        let n = MetricName::from_segment(name);
        self.define_metric(&n, InputKind::Marker)
    }

    /// Declare a level under the bucket's namespace.
    pub fn level(&mut self, name: &str) -> (r: InputMetric)
        requires
            old(self).wf(),
            name@.len() > 0,
        ensures
            final(self).wf(),
            final(self).same_config(old(self)),
            final(self).spec_period_start() == old(self).spec_period_start(),
            r.spec_kind() == InputKind::Level,
            r.spec_name() == old(self).spec_namespace() + seq![name@],
            final(self).entries() == bucket_define(
                old(self).entries(),
                old(self).spec_namespace() + seq![name@],
                InputKind::Level,
            ),
    {
        let n = MetricName::from_segment(name);
        self.define_metric(&n, InputKind::Level)
    }
}

impl MetricAggregator {
    /// Take a snapshot of aggregated values and reset them. Compute stats
    /// on captured values using the given stats function and write the
    /// resulting (kind, name, value) stats to the publish scope, metric by
    /// metric in ascending name order (the bucket keeps its entries sorted
    /// by name; see `lemma_wf_entries_sorted`). A new period starts at
    /// `now_us`; when metadata publishing is on and any metric had data, a
    /// synthetic period-length timer is published last.
    #[verifier::loop_isolation(false)]
    #[verifier::rlimit(100)]
    pub fn flush_to(
        &mut self,
        publish_scope: &mut OutputScope,
        stats_fn: StatsFunction,
        now_us: u64,
    )
        requires
            old(self).wf(),
        ensures
            final(self).wf(),
            final(self).same_config(old(self)),
            final(self).spec_period_start() == now_us,
            final(self).entries() =~= reset_entries(old(self).entries()),
            final(publish_scope)@ == ({
                let elapsed = spec_elapsed(old(self).spec_period_start(), now_us);
                let pubs = flush_publications(old(self).entries(), stats_fn, elapsed) + (
                if old(self).spec_publish_metadata() && any_data(old(self).entries()) {
                    period_metadata_publications(stats_fn, elapsed)
                } else {
                    Seq::<Publication>::empty()
                });
                apply_writes(old(publish_scope)@, pubs)
            }),
    {
        let ghost entries0 = old(self).entries();
        let ghost pv0 = old(publish_scope)@;
        let elapsed_us: u64 = if now_us >= self.period_start_us {
            now_us - self.period_start_us
        } else {
            0
        };
        self.period_start_us = now_us;
        let mut saw_data = false;
        let mut i: usize = 0;
        while i < self.metrics.len()
            invariant
                i <= self.metrics.len(),
                self.metrics@.len() == entries0.len(),
                elapsed_us == spec_elapsed(old(self).spec_period_start(), now_us),
                self.namespace@ == old(self).spec_namespace(),
                self.stats == old(self).spec_stats(),
                self.output == old(self).output,
                self.publish_metadata == old(self).spec_publish_metadata(),
                self.period_start_us == now_us,
                forall|j: int|
                    0 <= j < self.metrics@.len() ==> (#[trigger] self.metrics@[j]).1.wf(),
                forall|j: int|
                    0 <= j < self.metrics@.len() ==> (#[trigger] self.entries()[j]).0
                        == entries0[j].0 && self.entries()[j].1 == entries0[j].1,
                forall|j: int| i <= j < entries0.len() ==> #[trigger] self.entries()[j] == entries0[j],
                forall|j: int|
                    0 <= j < i ==> (#[trigger] self.entries()[j]).2 =~= Seq::<u64>::empty(),
                saw_data == exists|j: int|
                    0 <= j < i && raw_snapshot_of((#[trigger] entries0[j]).1, entries0[j].2)
                        is Some,
                publish_scope@ == apply_writes(
                    pv0,
                    flush_publications(entries0.take(i as int), stats_fn, elapsed_us),
                ),
            decreases self.metrics@.len() - i,
        {
            let ghost fp_i = flush_publications(entries0.take(i as int), stats_fn, elapsed_us);
            let ghost ent_start = self.entries();
            proof {
                assert(self.entries()[i as int] == entries0[i as int]);
            }
            let ghost prev_metrics = self.metrics@;
            let (entry_name, mut board) = self.metrics.remove(i);
            proof {
                assert(board.score_kind() == entries0[i as int].1);
                assert(board.recorded() == entries0[i as int].2);
                assert(entry_name@ == entries0[i as int].0);
            }
            let kind = board.metric_kind();
            let ghost name_v = entries0[i as int].0;
            match board.reset(elapsed_us) {
                None => {
                    proof {
                        assert(metric_publications(stats_fn, entries0[i as int], elapsed_us)
                            =~= Seq::<Publication>::empty());
                    }
                },
                Some(scores) => {
                    saw_data = true;
                    let ghost raw = raw_snapshot_of(
                        entries0[i as int].1,
                        entries0[i as int].2,
                    )->Some_0;
                    let ghost sscores = spec_scores(entries0[i as int].1, raw, elapsed_us as int);
                    let mut k: usize = 0;
                    while k < scores.len()
                        invariant
                            k <= scores.len(),
                            scores@ == sscores,
                            kind == entries0[i as int].1,
                            entry_name@ == name_v,
                            publish_scope@ == apply_writes(
                                pv0,
                                fp_i + score_publications(
                                    stats_fn,
                                    kind,
                                    name_v,
                                    sscores.take(k as int),
                                ),
                            ),
                        decreases scores@.len() - k,
                    {
                        proof {
                            let staken = sscores.take(k + 1);
                            assert(staken.drop_last() =~= sscores.take(k as int));
                            assert(staken.last() == sscores[k as int]);
                        }
                        let ghost base = fp_i + score_publications(
                            stats_fn,
                            kind,
                            name_v,
                            sscores.take(k as int),
                        );
                        match stats_fn.apply(kind, entry_name.clone(), scores[k]) {
                            Some((pk, pn, pv)) => {
                                let om = OutputMetric::new(MetricId::forge(pk, pn));
                                publish_scope.write(&om, pv, &Labels::none());
                                proof {
                                    let t = spec_apply_stats(
                                        stats_fn,
                                        kind,
                                        name_v,
                                        sscores[k as int],
                                    )->Some_0;
                                    assert(base.push(t).drop_last() =~= base);
                                    assert(fp_i + score_publications(
                                        stats_fn,
                                        kind,
                                        name_v,
                                        sscores.take(k + 1),
                                    ) =~= base.push(t));
                                }
                            },
                            None => {
                                proof {
                                    assert(fp_i + score_publications(
                                        stats_fn,
                                        kind,
                                        name_v,
                                        sscores.take(k + 1),
                                    ) =~= base);
                                }
                            },
                        }
                        k = k + 1;
                    }
                    proof {
                        assert(sscores.take(sscores.len() as int) =~= sscores);
                    }
                },
            }
            self.metrics.insert(i, (entry_name, board));
            proof {
                assert(forall|j: int|
                    0 <= j < self.metrics@.len() && j != i ==> #[trigger] self.metrics@[j]
                        == prev_metrics[j]);
                assert(self.metrics@[i as int] == (entry_name, board));
                assert forall|j: int|
                    0 <= j < self.metrics@.len() && j != i implies #[trigger] self.entries()[j]
                    == ent_start[j] by {
                    assert(self.metrics@[j] == prev_metrics[j]);
                    assert(ent_start[j] == (
                        prev_metrics[j].0@,
                        prev_metrics[j].1.score_kind(),
                        prev_metrics[j].1.recorded(),
                    ));
                }
                assert(self.entries()[i as int].0 == entries0[i as int].0);
                assert(self.entries()[i as int].1 == entries0[i as int].1);
                assert(self.entries()[i as int].2 =~= Seq::<u64>::empty());
            }
            i = i + 1;
            proof {
                let taken = entries0.take(i as int);
                assert(taken.drop_last() =~= entries0.take(i - 1));
                assert(taken.last() == entries0[i - 1]);
                lemma_apply_writes_concat(
                    pv0,
                    fp_i,
                    metric_publications(stats_fn, entries0[i - 1], elapsed_us),
                );
                lemma_apply_writes_concat(
                    pv0,
                    flush_publications(taken, stats_fn, elapsed_us),
                    Seq::<Publication>::empty(),
                );
                assert(flush_publications(taken, stats_fn, elapsed_us) =~= fp_i
                    + metric_publications(stats_fn, entries0[i - 1], elapsed_us));
            }
        }
        proof {
            assert(entries0.take(entries0.len() as int) =~= entries0);
            assert(final(self).entries() =~= reset_entries(entries0));
            assert forall|a: int, b: int| 0 <= a < b < self.entries().len() implies (
            #[trigger] self.entries()[a]).0 != (#[trigger] self.entries()[b]).0 && name_le(
                self.entries()[a].0,
                self.entries()[b].0,
            ) by {
                assert(self.entries()[a].0 == entries0[a].0);
                assert(self.entries()[b].0 == entries0[b].0);
                assert(entries0[a].0 != entries0[b].0);
                assert(name_le(entries0[a].0, entries0[b].0));
            }
        }
        if saw_data && self.publish_metadata {
            proof {
                reveal_strlit("_period_length");
            }
            let meta_name = MetricName::from_segment("_period_length");
            let ghost meta_base = flush_publications(entries0, stats_fn, elapsed_us);
            let ghost meta_pubs = period_metadata_publications(stats_fn, elapsed_us);
            let ghost mscores = seq![ScoreType::Sum((elapsed_us / 1000) as u64)];
            proof {
                assert(mscores.drop_last() =~= Seq::<ScoreType>::empty());
                assert(mscores.last() == ScoreType::Sum((elapsed_us / 1000) as u64));
                assert(score_publications(
                    stats_fn,
                    InputKind::Timer,
                    seq!["_period_length"@],
                    Seq::<ScoreType>::empty(),
                ) =~= Seq::<Publication>::empty());
            }
            match stats_fn.apply(InputKind::Timer, meta_name, ScoreType::Sum(elapsed_us / 1000)) {
                Some((pk, pn, pv)) => {
                    let om = OutputMetric::new(MetricId::forge(pk, pn));
                    publish_scope.write(&om, pv, &Labels::none());
                    proof {
                        let t = spec_apply_stats(
                            stats_fn,
                            InputKind::Timer,
                            seq!["_period_length"@],
                            ScoreType::Sum((elapsed_us / 1000) as u64),
                        )->Some_0;
                        assert(Seq::<Publication>::empty() + seq![t] =~= seq![t]);
                        assert(meta_pubs =~= seq![t]);
                        assert(seq![t].drop_last() =~= Seq::<Publication>::empty());
                        lemma_apply_writes_concat(pv0, meta_base, meta_pubs);
                        lemma_apply_writes_concat(
                            apply_writes(pv0, meta_base),
                            Seq::<Publication>::empty(),
                            seq![t],
                        );
                        assert(Seq::<Publication>::empty() + seq![t] =~= seq![t]);
                    }
                },
                None => {
                    proof {
                        assert(Seq::<Publication>::empty() + Seq::<Publication>::empty()
                            =~= Seq::<Publication>::empty());
                        assert(meta_pubs =~= Seq::<Publication>::empty());
                        lemma_apply_writes_concat(pv0, meta_base, meta_pubs);
                        assert(meta_base + meta_pubs =~= meta_base);
                    }
                },
            }
        } else {
            proof {
                let meta_base = flush_publications(entries0, stats_fn, elapsed_us);
                assert(meta_base + Seq::<Publication>::empty() =~= meta_base);
            }
        }
    }

    /// The bucket-local stats function override, if any: bucket-local
    /// resolution comes first, a caller-side default second.
    pub fn stats_function(&self) -> (r: Option<StatsFunction>)
        ensures
            r == self.spec_stats(),
    {
        self.stats
    }

    /// Whether a bucket-local publish target is installed.
    pub fn has_output(&self) -> (r: bool)
        ensures
            r == (self.spec_output() is Some),
    {
        self.output.is_some()
    }

    /// Collect and reset aggregated data through the given stats
    /// function, publishing to the bucket's own target (or discarding
    /// when none is set), then flush that target. The caller resolves
    /// which stats function applies; `flush` resolves it bucket-local
    /// first.
    pub fn flush_with(&mut self, stats_fn: StatsFunction, now_us: u64) -> (r: Result<
        (),
        crate::error::Error,
    >)
        requires
            old(self).wf(),
        ensures
            final(self).wf(),
            r is Ok,
            final(self).spec_namespace() == old(self).spec_namespace(),
            final(self).spec_stats() == old(self).spec_stats(),
            final(self).spec_publish_metadata() == old(self).spec_publish_metadata(),
            final(self).spec_period_start() == now_us,
            final(self).entries() =~= reset_entries(old(self).entries()),
            ({
                let elapsed = spec_elapsed(old(self).spec_period_start(), now_us);
                let pubs = flush_publications(old(self).entries(), stats_fn, elapsed) + (if old(
                    self,
                ).spec_publish_metadata() && any_data(old(self).entries()) {
                    period_metadata_publications(stats_fn, elapsed)
                } else {
                    Seq::<Publication>::empty()
                });
                match old(self).spec_output() {
                    Some(ov) => final(self).spec_output() == Some(
                        crate::output::flush_view(apply_writes(ov, pubs)),
                    ),
                    None => final(self).spec_output() is None,
                }
            }),
    {
        let mut out: Option<OutputScope> = None;
        core::mem::swap(&mut self.output, &mut out);
        match out {
            Some(mut o) => {
                self.flush_to(&mut o, stats_fn, now_us);
                let flush_result = o.flush();
                self.output = Some(o);
                flush_result
            },
            None => {
                let mut discard = OutputScope::Void;
                self.flush_to(&mut discard, stats_fn, now_us);
                Ok(())
            },
        }
    }

    /// Collect and reset aggregated data, publishing statistics to the
    /// bucket's own target (or discarding them when none is set), through
    /// the bucket's stats function (or the summary default), then flush
    /// that target.
    pub fn flush(&mut self, now_us: u64) -> (r: Result<(), crate::error::Error>)
        requires
            old(self).wf(),
        ensures
            final(self).wf(),
            r is Ok,
            final(self).spec_namespace() == old(self).spec_namespace(),
            final(self).spec_stats() == old(self).spec_stats(),
            final(self).spec_publish_metadata() == old(self).spec_publish_metadata(),
            final(self).spec_period_start() == now_us,
            final(self).entries() =~= reset_entries(old(self).entries()),
            ({
                let f = match old(self).spec_stats() {
                    Some(f) => f,
                    None => StatsFunction::Summary,
                };
                let elapsed = spec_elapsed(old(self).spec_period_start(), now_us);
                let pubs = flush_publications(old(self).entries(), f, elapsed) + (if old(
                    self,
                ).spec_publish_metadata() && any_data(old(self).entries()) {
                    period_metadata_publications(f, elapsed)
                } else {
                    Seq::<Publication>::empty()
                });
                match old(self).spec_output() {
                    Some(ov) => final(self).spec_output() == Some(
                        crate::output::flush_view(apply_writes(ov, pubs)),
                    ),
                    None => final(self).spec_output() is None,
                }
            }),
    {
        let stats_fn = match &self.stats {
            Some(f) => *f,
            None => StatsFunction::Summary,
        };
        self.flush_with(stats_fn, now_us)
    }
}


/// A score the stats function keeps is among the metric's publications.
proof fn lemma_score_publications_contains(
    f: StatsFunction,
    kind: InputKind,
    name: Seq<Seq<char>>,
    scores: Seq<ScoreType>,
    k: int,
)
    requires
        0 <= k < scores.len(),
        spec_apply_stats(f, kind, name, scores[k]) is Some,
    ensures
        score_publications(f, kind, name, scores).contains(
            spec_apply_stats(f, kind, name, scores[k])->Some_0,
        ),
    decreases scores.len(),
{
    let t = spec_apply_stats(f, kind, name, scores[k])->Some_0;
    let pre = score_publications(f, kind, name, scores.drop_last());
    if k == scores.len() - 1 {
        assert(score_publications(f, kind, name, scores) == pre + seq![t]);
        assert((pre + seq![t])[pre.len() as int] == t);
    } else {
        assert(scores.drop_last()[k] == scores[k]);
        lemma_score_publications_contains(f, kind, name, scores.drop_last(), k);
        let idx = choose|idx: int| 0 <= idx < pre.len() && pre[idx] == t;
        assert(score_publications(f, kind, name, scores)[idx] == t);
    }
}

/// A stat one metric publishes is among the whole bucket's publications.
proof fn lemma_flush_publications_contains(
    es: Seq<BucketEntry>,
    f: StatsFunction,
    elapsed_us: u64,
    i: int,
    t: Publication,
)
    requires
        0 <= i < es.len(),
        metric_publications(f, es[i], elapsed_us).contains(t),
    ensures
        flush_publications(es, f, elapsed_us).contains(t),
    decreases es.len(),
{
    let pre = flush_publications(es.drop_last(), f, elapsed_us);
    let own = metric_publications(f, es.last(), elapsed_us);
    if i == es.len() - 1 {
        let idx = choose|idx: int| 0 <= idx < own.len() && own[idx] == t;
        assert(flush_publications(es, f, elapsed_us)[pre.len() + idx] == t);
    } else {
        assert(es.drop_last()[i] == es[i]);
        lemma_flush_publications_contains(es.drop_last(), f, elapsed_us, i, t);
        let idx = choose|idx: int| 0 <= idx < pre.len() && pre[idx] == t;
        assert(flush_publications(es, f, elapsed_us)[idx] == t);
    }
}

/// Bucket totals equal raw: flushing a bucket through the full stats
/// function publishes, for each metric whose kind counts hits, a count
/// equal to the number of values recorded since the last flush, and for
/// each kind that sums values a sum equal to their exact total — whenever
/// that count and that total fit in 64 bits.
pub proof fn lemma_bucket_totals_equal_raw(es: Seq<BucketEntry>, elapsed_us: u64, i: int)
    requires
        0 <= i < es.len(),
        0 < es[i].2.len() < u64_span(),
        sum_of(es[i].2) < u64_span(),
    ensures
        es[i].1 is Marker || es[i].1 is Counter || es[i].1 is Timer ==> flush_publications(
            es,
            StatsFunction::All,
            elapsed_us,
        ).contains((InputKind::Counter, es[i].0 + seq!["count"@], es[i].2.len() as u64)),
        es[i].1 is Counter || es[i].1 is Timer || es[i].1 is Level ==> flush_publications(
            es,
            StatsFunction::All,
            elapsed_us,
        ).contains((es[i].1, es[i].0 + seq!["sum"@], sum_of(es[i].2) as u64)),
{
    let kind = es[i].1;
    let name = es[i].0;
    let vals = es[i].2;
    lemma_conservation(kind, vals);
    let raw = raw_snapshot_of(kind, vals)->Some_0;
    let sscores = spec_scores(kind, raw, elapsed_us as int);
    if kind is Marker || kind is Counter || kind is Timer {
        assert(sscores[0] == ScoreType::Count(raw.count));
        lemma_score_publications_contains(StatsFunction::All, kind, name, sscores, 0);
        lemma_flush_publications_contains(
            es,
            StatsFunction::All,
            elapsed_us,
            i,
            (InputKind::Counter, name + seq!["count"@], raw.count),
        );
    }
    if kind is Counter || kind is Timer {
        assert(sscores[1] == ScoreType::Sum(raw.sum));
        lemma_score_publications_contains(StatsFunction::All, kind, name, sscores, 1);
        lemma_flush_publications_contains(
            es,
            StatsFunction::All,
            elapsed_us,
            i,
            (kind, name + seq!["sum"@], raw.sum),
        );
    }
    if kind is Level {
        assert(sscores[0] == ScoreType::Sum(raw.sum));
        lemma_score_publications_contains(StatsFunction::All, kind, name, sscores, 0);
        lemma_flush_publications_contains(
            es,
            StatsFunction::All,
            elapsed_us,
            i,
            (kind, name + seq!["sum"@], raw.sum),
        );
    }
}

/// A well-formed bucket holds its entries in ascending name order with
/// unique names, so a flush publishes metric by metric in that order.
pub proof fn lemma_wf_entries_sorted(a: &MetricAggregator)
    requires
        a.wf(),
    ensures
        entries_sorted(a.entries()),
        entries_unique(a.entries()),
{
}

} // verus!
