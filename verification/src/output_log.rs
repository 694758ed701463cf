//! Log output: renders each write as a text line and hands the lines to
//! the logging backend on flush (or at once when unbuffered).
use vstd::prelude::*;

use crate::attributes::Attributes;
use crate::error::Error;
use crate::format::{line_render, simple_line, LineOp, LineTemplate};
use crate::handles::{MetricId, OutputMetric};
use crate::kind::InputKind;
use crate::labels::Labels;
use crate::name::MetricName;

verus! {

/// The importance level lines are logged under.
#[derive(Debug, Clone, Copy, PartialEq, Eq, Structural)]
pub enum LogLevel {
    /// Very serious errors.
    Error,
    /// Hazardous situations.
    Warn,
    /// Useful information.
    Info,
    /// Lower priority information.
    Debug,
    /// Very low priority information.
    Trace,
}

/// The line layout used for text sinks.
#[derive(Debug, Clone, Copy, PartialEq, Eq, Structural)]
pub enum LineFormat {
    /// `"<joined-name> <value>\n"`.
    Simple,
}

/// The bytes a format renders for one write.
pub open spec fn spec_format_line(
    f: LineFormat,
    name: Seq<Seq<char>>,
    kind: InputKind,
    value: u64,
    labels: Seq<(Seq<char>, Seq<char>)>,
) -> Seq<u8> {
    match f {
        LineFormat::Simple => simple_line(name, value),
    }
}

impl LineFormat {
    /// Compile the template for one metric.
    pub fn template(&self, name: &MetricName, kind: InputKind) -> (t: LineTemplate)
        ensures
            forall|value: u64, labels: Seq<(Seq<char>, Seq<char>)>|
                #[trigger] line_render(t.spec_ops(), value, labels) == spec_format_line(
                    *self,
                    name@,
                    kind,
                    value,
                    labels,
                ),
    {
        let joined = name.join(".");
        let name_bytes = joined.as_str().as_bytes_vec();
        let space = " ".as_bytes_vec();
        let mut ops: Vec<LineOp> = Vec::new();
        ops.push(LineOp::Literal(name_bytes));
        ops.push(LineOp::Literal(space));
        ops.push(LineOp::ValueAsText);
        ops.push(LineOp::NewLine);
        let t = LineTemplate::new(ops);
        proof {
            reveal_strlit(" ");
            assert forall|value: u64, labels: Seq<(Seq<char>, Seq<char>)>| #[trigger] line_render(
                t.spec_ops(),
                value,
                labels,
            ) == spec_format_line(*self, name@, kind, value, labels) by {
                reveal_with_fuel(line_render, 5);
                let s = t.spec_ops();
                assert(s.drop_last() =~= s.take(3));
                assert(s.take(3).drop_last() =~= s.take(2));
                assert(s.take(2).drop_last() =~= s.take(1));
                assert(s.take(1).drop_last() =~= s.take(0));
                assert(s.take(0) =~= Seq::<LineOp>::empty());
                assert(s.take(3).last() == s[2]);
                assert(s.take(2).last() == s[1]);
                assert(s.take(1).last() == s[0]);
                assert(line_render(s, value, labels) =~= simple_line(name@, value));
            }
        }
        t
    }
}

/// Buffered metrics log output configuration.
pub struct Log {
    attributes: Attributes,
    format: LineFormat,
    level: LogLevel,
    target: Option<String>,
}

impl Log {
    /// The prefix applied to every metric name.
    pub closed spec fn spec_prefix(&self) -> Seq<Seq<char>> {
        self.attributes.spec_prefix()
    }

    /// Whether scopes opened from this output buffer lines until flush.
    pub closed spec fn spec_buffered(&self) -> bool {
        self.attributes.spec_buffered()
    }

    /// The configured line format.
    pub closed spec fn spec_format(&self) -> LineFormat {
        self.format
    }

    /// The configured log level.
    pub closed spec fn spec_level(&self) -> LogLevel {
        self.level
    }

    /// The configured log target, if any.
    pub closed spec fn spec_target(&self) -> Option<Seq<char>> {
        match self.target {
            Some(t) => Some(t@),
            None => None,
        }
    }

    /// Write metric values to the standard log.
    pub fn to_log() -> (r: Log)
        ensures
            r.spec_prefix() =~= Seq::<Seq<char>>::empty(),
            !r.spec_buffered(),
            r.spec_format() == LineFormat::Simple,
            r.spec_level() == LogLevel::Info,
            r.spec_target() is None,
    {
        Log {
            attributes: Attributes::new(),
            format: LineFormat::Simple,
            level: LogLevel::Info,
            target: None,
        }
    }

    /// Sets the level to log metric lines under.
    pub fn level(&self, level: LogLevel) -> (r: Self)
        ensures
            r.spec_level() == level,
            r.spec_prefix() == self.spec_prefix(),
            r.spec_buffered() == self.spec_buffered(),
            r.spec_format() == self.spec_format(),
            r.spec_target() == self.spec_target(),
    {
        let mut cloned = self.clone();
        cloned.level = level;
        cloned
    }

    /// Sets the log target to use when logging metrics.
    pub fn target(&self, target: &str) -> (r: Self)
        ensures
            r.spec_target() == Some(target@),
            r.spec_prefix() == self.spec_prefix(),
            r.spec_buffered() == self.spec_buffered(),
            r.spec_format() == self.spec_format(),
            r.spec_level() == self.spec_level(),
    {
        let mut cloned = self.clone();
        cloned.target = Some(target.to_owned());
        cloned
    }

    /// Sets the line format.
    pub fn formatting(&self, format: LineFormat) -> (r: Self)
        ensures
            r.spec_format() == format,
            r.spec_prefix() == self.spec_prefix(),
            r.spec_buffered() == self.spec_buffered(),
            r.spec_level() == self.spec_level(),
            r.spec_target() == self.spec_target(),
    {
        let mut cloned = self.clone();
        cloned.format = format;
        cloned
    }

    /// Sets whether opened scopes buffer lines until flush.
    pub fn buffered(&self, buffered: bool) -> (r: Self)
        ensures
            r.spec_buffered() == buffered,
            r.spec_prefix() == self.spec_prefix(),
            r.spec_format() == self.spec_format(),
            r.spec_level() == self.spec_level(),
            r.spec_target() == self.spec_target(),
    {
        let mut cloned = self.clone();
        cloned.attributes.set_buffered(buffered);
        cloned
    }

    /// Name every metric under one more prefix segment.
    pub fn named(&self, segment: &str) -> (r: Self)
        requires
            segment@.len() > 0,
        ensures
            r.spec_prefix() =~= seq![segment@] + self.spec_prefix(),
            r.spec_buffered() == self.spec_buffered(),
            r.spec_format() == self.spec_format(),
            r.spec_level() == self.spec_level(),
            r.spec_target() == self.spec_target(),
    {
        let mut cloned = self.clone();
        cloned.attributes.add_prefix(segment);
        cloned
    }

    /// The level metric lines are logged under.
    pub fn logging_level(&self) -> (r: LogLevel)
        ensures
            r == self.spec_level(),
    {
        self.level
    }

    /// The log target configured, if any.
    pub fn logging_target(&self) -> (r: Option<&String>)
        ensures
            r matches Some(t) ==> self.spec_target() == Some(t@),
            r is None ==> self.spec_target() is None,
    {
        match &self.target {
            Some(t) => Some(t),
            None => None,
        }
    }

    /// Open a hot-path scope over this output.
    pub fn metrics(&self) -> (r: LogScope)
        ensures
            r.scope_wf(),
            r.spec_prefix() == self.spec_prefix(),
            r.spec_buffered() == self.spec_buffered(),
            r.spec_format() == self.spec_format(),
            r.spec_level() == self.spec_level(),
            r.spec_target() == self.spec_target(),
            r.pending() =~= Seq::<Seq<u8>>::empty(),
            r.sink_lines() =~= Seq::<Seq<u8>>::empty(),
    {
        LogScope { log: self.clone(), entries: Vec::new(), sink: Vec::new() }
    }

    /// Open a cold-path scope over this output.
    pub fn new_scope(&self) -> (r: LogScope)
        ensures
            r.scope_wf(),
            r.spec_prefix() == self.spec_prefix(),
            r.spec_buffered() == self.spec_buffered(),
            r.spec_format() == self.spec_format(),
            r.spec_level() == self.spec_level(),
            r.spec_target() == self.spec_target(),
            r.pending() =~= Seq::<Seq<u8>>::empty(),
            r.sink_lines() =~= Seq::<Seq<u8>>::empty(),
    {
        LogScope { log: self.clone(), entries: Vec::new(), sink: Vec::new() }
    }
}

impl Clone for Log {
    /// A copy with the same configuration.
    fn clone(&self) -> (r: Self)
        ensures
            r.spec_prefix() == self.spec_prefix(),
            r.spec_buffered() == self.spec_buffered(),
            r.spec_format() == self.spec_format(),
            r.spec_level() == self.spec_level(),
            r.spec_target() == self.spec_target(),
    {
        Log {
            attributes: self.attributes.clone(),
            format: self.format,
            level: self.level,
            target: match &self.target {
                Some(t) => Some(t.clone()),
                None => None,
            },
        }
    }
}

/// A scope for metrics log output: writes render to lines; the lines
/// reach the backend sink on flush (or at once when unbuffered).
///
/// A buffered scope holds its pending lines until `flush`: the holder
/// must flush before letting the scope go, or the pending lines are
/// lost with it. (The verifier does not admit a destructor here; the
/// unverified sinks that own a scope flush and emit when they drop.)
pub struct LogScope {
    log: Log,
    entries: Vec<Vec<u8>>,
    sink: Vec<Vec<u8>>,
}

impl LogScope {
    /// The prefix applied to every metric name.
    pub closed spec fn spec_prefix(&self) -> Seq<Seq<char>> {
        self.log.spec_prefix()
    }

    /// Whether lines wait in the scope's buffer until flush.
    pub closed spec fn spec_buffered(&self) -> bool {
        self.log.spec_buffered()
    }

    /// The line format in use.
    pub closed spec fn spec_format(&self) -> LineFormat {
        self.log.spec_format()
    }

    /// The level lines are logged under.
    pub closed spec fn spec_level(&self) -> LogLevel {
        self.log.spec_level()
    }

    /// The log target, if any.
    pub closed spec fn spec_target(&self) -> Option<Seq<char>> {
        self.log.spec_target()
    }

    /// The lines buffered and not yet flushed, in write order.
    pub closed spec fn pending(&self) -> Seq<Seq<u8>> {
        Seq::new(self.entries@.len(), |i: int| self.entries@[i]@)
    }

    /// The lines handed to the logging backend, in emission order.
    pub closed spec fn sink_lines(&self) -> Seq<Seq<u8>> {
        Seq::new(self.sink@.len(), |i: int| self.sink@[i]@)
    }

    /// An unbuffered scope never holds pending lines.
    pub open spec fn scope_wf(&self) -> bool {
        !self.spec_buffered() ==> self.pending().len() == 0
    }

    /// The configuration carried over between operations.
    pub open spec fn same_config(&self, other: &Self) -> bool {
        &&& self.spec_prefix() == other.spec_prefix()
        &&& self.spec_buffered() == other.spec_buffered()
        &&& self.spec_format() == other.spec_format()
        &&& self.spec_level() == other.spec_level()
        &&& self.spec_target() == other.spec_target()
    }

    /// Issue a write handle for a metric. The scope's prefix is applied
    /// when a value is written through the handle.
    pub fn new_metric(&self, name: MetricName, kind: InputKind) -> (r: OutputMetric)
        ensures
            r.spec_kind() == kind,
            r.spec_name() == name@,
    {
        OutputMetric::new(MetricId::forge(kind, name))
    }

    /// Render one write as a line. A buffered scope holds the line until
    /// the next flush; an unbuffered scope hands it to the sink at once.
    pub fn write(&mut self, metric: &OutputMetric, value: u64, labels: &Labels)
        ensures
            final(self).same_config(old(self)),
            ({
                let line = spec_format_line(
                    old(self).spec_format(),
                    old(self).spec_prefix() + metric.spec_name(),
                    metric.spec_kind(),
                    value,
                    labels@,
                );
                if old(self).spec_buffered() {
                    final(self).pending() =~= old(self).pending().push(line)
                        && final(self).sink_lines() == old(self).sink_lines()
                } else {
                    final(self).sink_lines() =~= old(self).sink_lines().push(line)
                        && final(self).pending() == old(self).pending()
                }
            }),
    {
        let full = self.log.attributes.prefix_append(metric.metric_id().name());
        let template = self.log.format.template(&full, metric.metric_id().kind());
        let line = template.print(value, labels);
        if self.log.attributes.is_buffered() {
            let ghost before = self.pending();
            self.entries.push(line);
            proof {
                assert(self.pending() =~= before.push(self.pending().last()));
            }
        } else {
            let ghost before = self.sink_lines();
            self.sink.push(line);
            proof {
                assert(self.sink_lines() =~= before.push(self.sink_lines().last()));
            }
        }
    }

    /// Hand every buffered line to the sink, in write order.
    pub fn flush(&mut self) -> (r: Result<(), Error>)
        ensures
            r is Ok,
            final(self).same_config(old(self)),
            final(self).sink_lines() =~= old(self).sink_lines() + old(self).pending(),
            final(self).pending() =~= Seq::<Seq<u8>>::empty(),
    {
        self.sink.append(&mut self.entries);
        proof {
            assert(final(self).sink_lines() =~= old(self).sink_lines() + old(self).pending());
        }
        Ok(())
    }

    /// Take the lines the backend should emit, leaving the sink empty.
    pub fn take_sink(&mut self) -> (r: Vec<Vec<u8>>)
        ensures
            final(self).same_config(old(self)),
            final(self).pending() == old(self).pending(),
            final(self).sink_lines() =~= Seq::<Seq<u8>>::empty(),
            Seq::new(r@.len(), |i: int| r@[i]@) =~= old(self).sink_lines(),
    {
        let mut out: Vec<Vec<u8>> = Vec::new();
        out.append(&mut self.sink);
        out
    }
}

} // verus!
