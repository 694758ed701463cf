//! Metric naming: an ordered sequence of non-empty path segments.
use vstd::prelude::*;
use vstd::string::StringSliceAdditionalSpecFns;

verus! {

/// A metric name, made of ordered string segments. Equality is
/// segment-wise. A name constructed from a user-supplied segment is never
/// empty; the empty name exists only as the neutral prefix.
#[derive(Debug)]
pub struct MetricName {
    segments: Vec<String>,
}

impl View for MetricName {
    type V = Seq<Seq<char>>;

    closed spec fn view(&self) -> Seq<Seq<char>> {
        Seq::new(self.segments@.len(), |i: int| self.segments@[i]@)
    }
}

/// All segments of the name are non-empty strings.
pub open spec fn name_wf(n: Seq<Seq<char>>) -> bool {
    forall|i: int| 0 <= i < n.len() ==> #[trigger] n[i].len() > 0
}

/// The string a name renders to: segments joined by the separator.
pub open spec fn spec_join(segs: Seq<Seq<char>>, sep: Seq<char>) -> Seq<char>
    decreases segs.len(),
{
    if segs.len() == 0 {
        Seq::empty()
    } else if segs.len() == 1 {
        segs[0]
    } else {
        spec_join(segs.drop_last(), sep) + sep + segs.last()
    }
}


/// Byte-wise lexicographic order (non-strict): a prefix comes first,
/// otherwise the first differing byte decides.
pub open spec fn bytes_le(a: Seq<u8>, b: Seq<u8>) -> bool
    decreases a.len(),
{
    if a.len() == 0 {
        true
    } else if b.len() == 0 {
        false
    } else if a.first() < b.first() {
        true
    } else if a.first() > b.first() {
        false
    } else {
        bytes_le(a.drop_first(), b.drop_first())
    }
}

/// Segment-wise lexicographic order on names (non-strict), each segment
/// by its UTF-8 bytes: the order a name-keyed ordered map lists its keys
/// in.
pub open spec fn name_le(a: Seq<Seq<char>>, b: Seq<Seq<char>>) -> bool
    decreases a.len(),
{
    if a.len() == 0 {
        true
    } else if b.len() == 0 {
        false
    } else if vstd::utf8::encode_utf8(a.first()) == vstd::utf8::encode_utf8(b.first()) {
        name_le(a.drop_first(), b.drop_first())
    } else {
        bytes_le(vstd::utf8::encode_utf8(a.first()), vstd::utf8::encode_utf8(b.first()))
    }
}

/// The byte order is total: one direction always holds.
pub proof fn lemma_bytes_le_total(a: Seq<u8>, b: Seq<u8>)
    ensures
        bytes_le(a, b) || bytes_le(b, a),
    decreases a.len(),
{
    if a.len() > 0 && b.len() > 0 && a.first() == b.first() {
        lemma_bytes_le_total(a.drop_first(), b.drop_first());
    }
}

/// The byte order is antisymmetric: both directions only on equals.
pub proof fn lemma_bytes_le_antisym(a: Seq<u8>, b: Seq<u8>)
    requires
        bytes_le(a, b),
        bytes_le(b, a),
    ensures
        a =~= b,
    decreases a.len(),
{
    if a.len() > 0 && b.len() > 0 {
        lemma_bytes_le_antisym(a.drop_first(), b.drop_first());
        assert(a =~= seq![a.first()] + a.drop_first());
        assert(b =~= seq![b.first()] + b.drop_first());
    }
}

/// The byte order is transitive.
pub proof fn lemma_bytes_le_trans(a: Seq<u8>, b: Seq<u8>, c: Seq<u8>)
    requires
        bytes_le(a, b),
        bytes_le(b, c),
    ensures
        bytes_le(a, c),
    decreases a.len(),
{
    if a.len() > 0 && b.len() > 0 && c.len() > 0 && a.first() == b.first() && b.first()
        == c.first() {
        lemma_bytes_le_trans(a.drop_first(), b.drop_first(), c.drop_first());
    }
}

/// The name order is total: one direction always holds.
pub proof fn lemma_name_le_total(a: Seq<Seq<char>>, b: Seq<Seq<char>>)
    ensures
        name_le(a, b) || name_le(b, a),
    decreases a.len(),
{
    if a.len() > 0 && b.len() > 0 {
        if vstd::utf8::encode_utf8(a.first()) == vstd::utf8::encode_utf8(b.first()) {
            lemma_name_le_total(a.drop_first(), b.drop_first());
        } else {
            lemma_bytes_le_total(
                vstd::utf8::encode_utf8(a.first()),
                vstd::utf8::encode_utf8(b.first()),
            );
            if bytes_le(vstd::utf8::encode_utf8(a.first()), vstd::utf8::encode_utf8(b.first()))
                && bytes_le(
                vstd::utf8::encode_utf8(b.first()),
                vstd::utf8::encode_utf8(a.first()),
            ) {
                lemma_bytes_le_antisym(
                    vstd::utf8::encode_utf8(a.first()),
                    vstd::utf8::encode_utf8(b.first()),
                );
            }
        }
    }
}

/// The name order is transitive.
pub proof fn lemma_name_le_trans(a: Seq<Seq<char>>, b: Seq<Seq<char>>, c: Seq<Seq<char>>)
    requires
        name_le(a, b),
        name_le(b, c),
    ensures
        name_le(a, c),
    decreases a.len(),
{
    if a.len() > 0 && b.len() > 0 && c.len() > 0 {
        let xa = vstd::utf8::encode_utf8(a.first());
        let xb = vstd::utf8::encode_utf8(b.first());
        let xc = vstd::utf8::encode_utf8(c.first());
        if xa == xb && xb == xc {
            lemma_name_le_trans(a.drop_first(), b.drop_first(), c.drop_first());
        } else if xa == xb {
            // name_le(b, c) decided the heads; a's head matches b's.
        } else if xb == xc {
            // name_le(a, b) decided the heads; c's head matches b's.
        } else {
            lemma_bytes_le_trans(xa, xb, xc);
            if xa == xc {
                lemma_bytes_le_antisym(xa, xb);
            }
        }
    }
}

impl MetricName {
    /// The empty name: the neutral element of prefix composition.
    pub fn empty() -> (r: MetricName)
        ensures
            r@ =~= Seq::<Seq<char>>::empty(),
    {
        MetricName { segments: Vec::new() }
    }

    /// A one-segment name from a user-supplied, non-empty segment.
    pub fn from_segment(segment: &str) -> (r: MetricName)
        requires
            segment@.len() > 0,
        ensures
            r@ =~= seq![segment@],
            r@.len() == 1,
    {
        let mut segments: Vec<String> = Vec::new();
        segments.push(segment.to_owned());
        MetricName { segments }
    }

    /// How many segments the name has.
    pub fn len(&self) -> (r: usize)
        ensures
            r == self@.len(),
    {
        self.segments.len()
    }

    /// Whether the name has no segments.
    pub fn is_empty(&self) -> (r: bool)
        ensures
            r == (self@.len() == 0),
    {
        self.segments.len() == 0
    }

    /// Add one segment at the end of the name.
    pub fn append(&mut self, segment: &str)
        requires
            segment@.len() > 0,
        ensures
            final(self)@ =~= old(self)@ + seq![segment@],
    {
        self.segments.push(segment.to_owned());
    }

    /// Add one segment at the front of the name.
    pub fn prepend(&mut self, segment: &str)
        requires
            segment@.len() > 0,
        ensures
            final(self)@ =~= seq![segment@] + old(self)@,
    {
        self.segments.insert(0, segment.to_owned());
        assert(final(self)@ =~= seq![segment@] + old(self)@);
    }

    /// Append every segment of `other`, in order.
    pub fn extend(&mut self, other: &MetricName)
        ensures
            final(self)@ =~= old(self)@ + other@,
    {
        let ghost init = self@;
        let ghost base = self@.len() as int;
        let mut i: usize = 0;
        while i < other.segments.len()
            invariant
                i <= other.segments.len(),
                base == init.len(),
                self@.len() == base + i,
                forall|j: int| 0 <= j < base ==> #[trigger] self@[j] == init[j],
                forall|j: int| base <= j < base + i ==> #[trigger] self@[j] == other@[j - base],
            decreases other.segments.len() - i,
        {
            let ghost prev = self@;
            self.segments.push(other.segments[i].clone());
            i = i + 1;
            proof {
                assert(forall|j: int| 0 <= j < prev.len() ==> #[trigger] self@[j] == prev[j]);
                assert(self@[prev.len() as int] == other@[i - 1]);
            }
        }
        assert(self@ =~= init + other@);
    }

    /// The name `prefix ++ self`: what a scope with the given prefix
    /// makes of this name.
    pub fn prefixed(&self, prefix: &MetricName) -> (r: MetricName)
        ensures
            r@ =~= prefix@ + self@,
    {
        let mut r = prefix.clone();
        r.extend(self);
        r
    }


    /// Whether this name comes no later than `other` in the name order:
    /// segment-wise lexicographic, segments by their UTF-8 bytes.
    pub fn comes_before(&self, other: &MetricName) -> (r: bool)
        ensures
            r == name_le(self@, other@),
    {
        let mut k: usize = 0;
        while k < self.segments.len() && k < other.segments.len()
            invariant
                k <= self@.len(),
                k <= other@.len(),
                forall|j: int|
                    0 <= j < k ==> vstd::utf8::encode_utf8(#[trigger] self@[j])
                        == vstd::utf8::encode_utf8(other@[j]),
            decreases self@.len() - k,
        {
            match seg_cmp(self.segments[k].as_str(), other.segments[k].as_str()) {
                SegCmp::Equal => {
                    k = k + 1;
                },
                SegCmp::Less => {
                    proof {
                        lemma_name_le_skip(self@, other@, k as int);
                        assert(self@.skip(k as int).first() == self@[k as int]);
                        assert(other@.skip(k as int).first() == other@[k as int]);
                    }
                    return true;
                },
                SegCmp::Greater => {
                    proof {
                        lemma_name_le_skip(self@, other@, k as int);
                        assert(self@.skip(k as int).first() == self@[k as int]);
                        assert(other@.skip(k as int).first() == other@[k as int]);
                    }
                    return false;
                },
            }
        }
        proof {
            lemma_name_le_skip(self@, other@, k as int);
        }
        if self.segments.len() <= other.segments.len() {
            proof {
                assert(self@.skip(k as int).len() == 0);
            }
            true
        } else {
            proof {
                assert(other@.skip(k as int).len() == 0);
                assert(self@.skip(k as int).len() > 0);
            }
            false
        }
    }

    /// Render the name as a string, segments joined by `sep`.
    pub fn join(&self, sep: &str) -> (r: String)
        ensures
            r@ == spec_join(self@, sep@),
    {
        let mut out = String::new();
        let mut i: usize = 0;
        while i < self.segments.len()
            invariant
                i <= self.segments.len(),
                out@ == spec_join(self@.take(i as int), sep@),
            decreases self.segments.len() - i,
        {
            if i > 0 {
                out.append(sep);
            }
            out.append(self.segments[i].as_str());
            i = i + 1;
            proof {
                let taken = self@.take(i as int);
                assert(taken.drop_last() =~= self@.take(i - 1));
                assert(taken.last() == self@[i - 1]);
            }
        }
        proof {
            assert(self@.take(self@.len() as int) =~= self@);
        }
        out
    }
}


/// How two segments compare, by their UTF-8 bytes.
enum SegCmp {
    Less,
    Equal,
    Greater,
}

/// With the first `i` bytes equal, the byte order is decided past them.
proof fn lemma_bytes_le_skip(a: Seq<u8>, b: Seq<u8>, i: int)
    requires
        0 <= i <= a.len(),
        i <= b.len(),
        forall|j: int| 0 <= j < i ==> a[j] == b[j],
    ensures
        bytes_le(a, b) == bytes_le(a.skip(i), b.skip(i)),
    decreases i,
{
    if i == 0 {
        assert(a.skip(0) =~= a);
        assert(b.skip(0) =~= b);
    } else {
        assert(a.drop_first().skip(i - 1) =~= a.skip(i));
        assert(b.drop_first().skip(i - 1) =~= b.skip(i));
        assert forall|j: int| 0 <= j < i - 1 implies a.drop_first()[j] == b.drop_first()[j] by {
            assert(a.drop_first()[j] == a[j + 1]);
            assert(b.drop_first()[j] == b[j + 1]);
        }
        lemma_bytes_le_skip(a.drop_first(), b.drop_first(), i - 1);
    }
}

/// Compare two segments by their UTF-8 bytes.
fn seg_cmp(a: &str, b: &str) -> (r: SegCmp)
    ensures
        r is Equal <==> a.spec_bytes() == b.spec_bytes(),
        r is Less ==> bytes_le(a.spec_bytes(), b.spec_bytes()) && a.spec_bytes()
            != b.spec_bytes(),
        r is Greater ==> !bytes_le(a.spec_bytes(), b.spec_bytes()),
{
    let ab = a.as_bytes();
    let bb = b.as_bytes();
    let ghost sa = a.spec_bytes();
    let ghost sb = b.spec_bytes();
    let mut i: usize = 0;
    while i < ab.len() && i < bb.len()
        invariant
            sa == a.spec_bytes(),
            sb == b.spec_bytes(),
            ab@ == sa,
            bb@ == sb,
            i <= sa.len(),
            i <= sb.len(),
            forall|j: int| 0 <= j < i ==> sa[j] == sb[j],
        decreases sa.len() - i,
    {
        let x = ab[i];
        let y = bb[i];
        if x < y {
            proof {
                lemma_bytes_le_skip(sa, sb, i as int);
                assert(sa.skip(i as int).first() == sa[i as int]);
                assert(sb.skip(i as int).first() == sb[i as int]);
                assert(sa[i as int] != sb[i as int]);
            }
            return SegCmp::Less;
        }
        if x > y {
            proof {
                lemma_bytes_le_skip(sa, sb, i as int);
                assert(sa.skip(i as int).first() == sa[i as int]);
                assert(sb.skip(i as int).first() == sb[i as int]);
                assert(sa[i as int] != sb[i as int]);
            }
            return SegCmp::Greater;
        }
        i = i + 1;
    }
    proof {
        lemma_bytes_le_skip(sa, sb, i as int);
    }
    if ab.len() == bb.len() {
        proof {
            assert(sa =~= sb);
        }
        SegCmp::Equal
    } else if ab.len() < bb.len() {
        proof {
            assert(sa.skip(i as int) =~= Seq::<u8>::empty());
            assert(sa.len() != sb.len());
        }
        SegCmp::Less
    } else {
        proof {
            assert(sb.skip(i as int) =~= Seq::<u8>::empty());
            assert(sa.skip(i as int).len() > 0);
        }
        SegCmp::Greater
    }
}

/// With the first `k` segments byte-equal, the name order is decided
/// past them.
proof fn lemma_name_le_skip(a: Seq<Seq<char>>, b: Seq<Seq<char>>, k: int)
    requires
        0 <= k <= a.len(),
        k <= b.len(),
        forall|j: int|
            0 <= j < k ==> vstd::utf8::encode_utf8(#[trigger] a[j]) == vstd::utf8::encode_utf8(
                b[j],
            ),
    ensures
        name_le(a, b) == name_le(a.skip(k), b.skip(k)),
    decreases k,
{
    if k == 0 {
        assert(a.skip(0) =~= a);
        assert(b.skip(0) =~= b);
    } else {
        assert(a.drop_first().skip(k - 1) =~= a.skip(k));
        assert(b.drop_first().skip(k - 1) =~= b.skip(k));
        assert forall|j: int|
            0 <= j < k - 1 implies vstd::utf8::encode_utf8(#[trigger] a.drop_first()[j])
            == vstd::utf8::encode_utf8(b.drop_first()[j]) by {
            assert(a.drop_first()[j] == a[j + 1]);
            assert(b.drop_first()[j] == b[j + 1]);
        }
        lemma_name_le_skip(a.drop_first(), b.drop_first(), k - 1);
    }
}

impl Clone for MetricName {
    /// A copy with the same segments.
    fn clone(&self) -> (r: Self)
        ensures
            r@ == self@,
    {
        let mut segments: Vec<String> = Vec::new();
        let mut i: usize = 0;
        while i < self.segments.len()
            invariant
                i <= self.segments.len(),
                segments@.len() == i,
                forall|j: int| 0 <= j < i ==> #[trigger] segments@[j]@ == self@[j],
            decreases self.segments.len() - i,
        {
            segments.push(self.segments[i].clone());
            i = i + 1;
        }
        let r = MetricName { segments };
        assert(r@ =~= self@);
        r
    }
}

impl PartialEq for MetricName {
    /// Segment-wise equality.
    fn eq(&self, other: &Self) -> (r: bool) {
        if self.segments.len() != other.segments.len() {
            return false;
        }
        let mut i: usize = 0;
        while i < self.segments.len()
            invariant
                i <= self.segments.len(),
                self@.len() == other@.len(),
                forall|j: int| 0 <= j < i ==> self@[j] == other@[j],
            decreases self.segments.len() - i,
        {
            let same = self.segments[i] == other.segments[i];
            if !same {
                assert(self@[i as int] != other@[i as int]);
                return false;
            }
            i = i + 1;
        }
        proof {
            assert(self@ =~= other@);
        }
        true
    }
}

impl vstd::std_specs::cmp::PartialEqSpecImpl for MetricName {
    open spec fn obeys_eq_spec() -> bool {
        true
    }

    open spec fn eq_spec(&self, other: &Self) -> bool {
        self@ == other@
    }
}

} // verus!
