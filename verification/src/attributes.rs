//! The attribute bundle every scope wrapper carries: prefix and
//! buffering hint, uniformly composable.
use vstd::prelude::*;

use crate::name::MetricName;

verus! {

/// Attributes common to all scope wrappers. The prefix is prepended to
/// every metric name the scope resolves; the buffering hint makes
/// text-line scopes accumulate formatted bytes until the next flush.
pub struct Attributes {
    prefix: MetricName,
    buffered: bool,
}

/// The name a scope with prefix `prefix` gives to the metric `name`.
pub open spec fn effective_name(prefix: Seq<Seq<char>>, name: Seq<Seq<char>>) -> Seq<Seq<char>> {
    prefix + name
}

impl Attributes {
    /// The scope's accumulated prefix.
    pub closed spec fn spec_prefix(&self) -> Seq<Seq<char>> {
        self.prefix@
    }

    /// Whether the scope buffers formatted output until flush.
    pub closed spec fn spec_buffered(&self) -> bool {
        self.buffered
    }

    /// A fresh bundle: empty prefix, unbuffered.
    pub fn new() -> (r: Attributes)
        ensures
            r.spec_prefix() =~= Seq::<Seq<char>>::empty(),
            !r.spec_buffered(),
    {
        Attributes { prefix: MetricName::empty(), buffered: false }
    }

    /// Wrap the scope under one more naming level: the new segment goes
    /// in front of the prefix accumulated so far, so a scope with prefix
    /// `a` wrapped in prefix `b` resolves names under `b.a`.
    pub fn add_prefix(&mut self, segment: &str)
        requires
            segment@.len() > 0,
        ensures
            final(self).spec_prefix() =~= seq![segment@] + old(self).spec_prefix(),
            final(self).spec_buffered() == old(self).spec_buffered(),
    {
        self.prefix.prepend(segment);
    }

    /// Switch buffered accumulation on or off.
    pub fn set_buffered(&mut self, buffered: bool)
        ensures
            final(self).spec_prefix() == old(self).spec_prefix(),
            final(self).spec_buffered() == buffered,
    {
        self.buffered = buffered;
    }

    /// Whether the scope buffers formatted output until flush.
    pub fn is_buffered(&self) -> (r: bool)
        ensures
            r == self.spec_buffered(),
    {
        self.buffered
    }

    /// Resolve a metric name under this scope's prefix.
    pub fn prefix_append(&self, name: &MetricName) -> (r: MetricName)
        ensures
            r@ == effective_name(self.spec_prefix(), name@),
    {
        let r = name.prefixed(&self.prefix);
        assert(r@ =~= effective_name(self.spec_prefix(), name@));
        r
    }
}

impl Clone for Attributes {
    /// A copy with the same prefix and buffering hint.
    fn clone(&self) -> (r: Self)
        ensures
            r.spec_prefix() == self.spec_prefix(),
            r.spec_buffered() == self.spec_buffered(),
    {
        Attributes { prefix: self.prefix.clone(), buffered: self.buffered }
    }
}

/// Prefix composition: wrapping a scope that already carries prefix `a`
/// (over base prefix `p`) in one more prefix `b` resolves a metric name
/// `n` to `b.a.<p ++ n>` — the outermost wrapper names the root.
pub proof fn lemma_prefix_composition(
    p: Seq<Seq<char>>,
    a: Seq<char>,
    b: Seq<char>,
    n: Seq<Seq<char>>,
)
    ensures
        effective_name(seq![b] + (seq![a] + p), n) =~= seq![b, a] + p + n,
{
}

} // verus!
