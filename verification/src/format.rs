//! Text line formats: templates compiled per metric, rendered to a byte
//! buffer for line-oriented sinks.
use vstd::prelude::*;

use crate::labels::{spec_lookup, Labels};

verus! {

/// The decimal digits of a value, as ASCII bytes, most significant first.
pub open spec fn dec_digits(v: nat) -> Seq<u8>
    decreases v,
{
    if v < 10 {
        seq![(48 + v) as u8]
    } else {
        dec_digits(v / 10) + seq![(48 + (v % 10)) as u8]
    }
}

/// Append the decimal rendering of `v` to the buffer.
pub fn push_decimal(buf: &mut Vec<u8>, v: u64)
    ensures
        final(buf)@ =~= old(buf)@ + dec_digits(v as nat),
{
    let mut tmp: Vec<u8> = Vec::new();
    let mut x: u64 = v;
    loop
        invariant_except_break
            tmp@.len() == 0 ==> x == v,
            tmp@.len() > 0 ==> x > 0 && dec_digits(v as nat) =~= dec_digits(x as nat)
                + tmp@.reverse(),
            x <= v,
        ensures
            dec_digits(v as nat) =~= tmp@.reverse(),
        decreases x,
    {
        let d: u8 = (x % 10) as u8 + 48;
        let ghost before = tmp@;
        tmp.push(d);
        proof {
            assert(tmp@.reverse() =~= seq![d] + before.reverse());
        }
        x = x / 10;
        if x == 0 {
            break ;
        }
    }
    let ghost digits = dec_digits(v as nat);
    let ghost base = buf@.len() as int;
    let mut j: usize = tmp.len();
    while j > 0
        invariant
            j <= tmp.len(),
            digits =~= tmp@.reverse(),
            buf@.len() == base + (tmp@.len() - j),
            forall|m: int| 0 <= m < base ==> #[trigger] buf@[m] == old(buf)@[m],
            base == old(buf)@.len(),
            forall|m: int|
                base <= m < buf@.len() ==> #[trigger] buf@[m] == digits[m - base],
        decreases j,
    {
        j = j - 1;
        proof {
            assert(tmp@.reverse()[tmp@.len() - 1 - j] == tmp@[j as int]);
        }
        buf.push(tmp[j]);
    }
    assert(buf@ =~= old(buf)@ + digits);
}

/// One operation of a label sub-template, rendered only when the label
/// key is present on the write.
pub enum LabelOp {
    /// Fixed bytes.
    Literal(Vec<u8>),
    /// The label's key, UTF-8 encoded.
    LabelKey,
    /// The label's value, UTF-8 encoded.
    LabelValue,
}

/// One operation of a line template.
pub enum LineOp {
    /// Fixed bytes.
    Literal(Vec<u8>),
    /// The written value, in decimal.
    ValueAsText,
    /// A sub-template rendered only if the write carries the named label
    /// key; a missing key elides the sub-template entirely.
    LabelExists(String, Vec<LabelOp>),
    /// A line break.
    NewLine,
}

/// What one label operation renders, given the key and value.
pub open spec fn label_op_render(op: LabelOp, key: Seq<char>, value: Seq<char>) -> Seq<u8> {
    match op {
        LabelOp::Literal(bytes) => bytes@,
        LabelOp::LabelKey => vstd::utf8::encode_utf8(key),
        LabelOp::LabelValue => vstd::utf8::encode_utf8(value),
    }
}

/// What a label sub-template renders, given the key and value.
pub open spec fn label_ops_render(ops: Seq<LabelOp>, key: Seq<char>, value: Seq<char>) -> Seq<u8>
    decreases ops.len(),
{
    if ops.len() == 0 {
        Seq::empty()
    } else {
        label_ops_render(ops.drop_last(), key, value) + label_op_render(ops.last(), key, value)
    }
}

/// What one line operation renders for a write of `value` with `labels`.
pub open spec fn line_op_render(
    op: LineOp,
    value: u64,
    labels: Seq<(Seq<char>, Seq<char>)>,
) -> Seq<u8> {
    match op {
        LineOp::Literal(bytes) => bytes@,
        LineOp::ValueAsText => dec_digits(value as nat),
        LineOp::LabelExists(key, sub) => match spec_lookup(labels, key@) {
            Some(v) => label_ops_render(sub@, key@, v),
            None => Seq::empty(),
        },
        LineOp::NewLine => seq![10u8],
    }
}

/// What a whole template renders for a write of `value` with `labels`.
pub open spec fn line_render(
    ops: Seq<LineOp>,
    value: u64,
    labels: Seq<(Seq<char>, Seq<char>)>,
) -> Seq<u8>
    decreases ops.len(),
{
    if ops.len() == 0 {
        Seq::empty()
    } else {
        line_render(ops.drop_last(), value, labels) + line_op_render(ops.last(), value, labels)
    }
}

/// The default simple line: `"<joined-name> <value>\n"`, with the name
/// segments joined by dots.
pub open spec fn simple_line(name: Seq<Seq<char>>, value: u64) -> Seq<u8> {
    vstd::utf8::encode_utf8(crate::name::spec_join(name, "."@)) + vstd::utf8::encode_utf8(" "@)
        + dec_digits(value as nat) + seq![10u8]
}

/// A compiled line template: a sequence of operations applied in order
/// to a byte buffer.
pub struct LineTemplate {
    ops: Vec<LineOp>,
}

/// Append all of `src` to `buf`.
fn push_bytes(buf: &mut Vec<u8>, src: &Vec<u8>)
    ensures
        final(buf)@ =~= old(buf)@ + src@,
{
    let ghost base = buf@;
    let mut k: usize = 0;
    while k < src.len()
        invariant
            k <= src.len(),
            buf@ =~= base + src@.take(k as int),
        decreases src.len() - k,
    {
        buf.push(src[k]);
        proof {
            assert(base + src@.take(k + 1) =~= (base + src@.take(k as int)).push(src@[k as int]));
        }
        k = k + 1;
    }
    assert(src@.take(src@.len() as int) =~= src@);
}

impl LineTemplate {
    /// The template's operations, in rendering order.
    pub closed spec fn spec_ops(&self) -> Seq<LineOp> {
        self.ops@
    }

    /// A template from its operations.
    pub fn new(ops: Vec<LineOp>) -> (r: LineTemplate)
        ensures
            r.spec_ops() == ops@,
    {
        LineTemplate { ops }
    }

    /// Render the template for one write into a fresh byte buffer,
    /// consulting the write's labels for `LabelExists` operations.
    pub fn print(&self, value: u64, labels: &Labels) -> (r: Vec<u8>)
        ensures
            r@ == line_render(self.spec_ops(), value, labels@),
    {
        let mut buf: Vec<u8> = Vec::new();
        let mut i: usize = 0;
        while i < self.ops.len()
            invariant
                i <= self.ops.len(),
                buf@ == line_render(self.spec_ops().take(i as int), value, labels@),
            decreases self.ops.len() - i,
        {
            proof {
                let taken = self.spec_ops().take(i + 1);
                assert(taken.drop_last() =~= self.spec_ops().take(i as int));
                assert(taken.last() == self.spec_ops()[i as int]);
            }
            match &self.ops[i] {
                LineOp::Literal(bytes) => {
                    push_bytes(&mut buf, bytes);
                },
                LineOp::ValueAsText => {
                    push_decimal(&mut buf, value);
                },
                LineOp::LabelExists(key, sub) => {
                    match labels.lookup(key.as_str()) {
                        Some(found) => {
                            let ghost v = found@;
                            let value_text = found.clone();
                            let mut j: usize = 0;
                            while j < sub.len()
                                invariant
                                    j <= sub.len(),
                                    value_text@ == v,
                                    spec_lookup(labels@, key@) == Some(v),
                                    buf@ == line_render(
                                        self.spec_ops().take(i as int),
                                        value,
                                        labels@,
                                    ) + label_ops_render(sub@.take(j as int), key@, v),
                                decreases sub.len() - j,
                            {
                                proof {
                                    let staken = sub@.take(j + 1);
                                    assert(staken.drop_last() =~= sub@.take(j as int));
                                    assert(staken.last() == sub@[j as int]);
                                }
                                match &sub[j] {
                                    LabelOp::Literal(bytes) => {
                                        push_bytes(&mut buf, bytes);
                                    },
                                    LabelOp::LabelKey => {
                                        let kb = key.as_str().as_bytes_vec();
                                        push_bytes(&mut buf, &kb);
                                    },
                                    LabelOp::LabelValue => {
                                        let vb = value_text.as_str().as_bytes_vec();
                                        push_bytes(&mut buf, &vb);
                                    },
                                }
                                j = j + 1;
                            }
                            proof {
                                assert(sub@.take(sub@.len() as int) =~= sub@);
                            }
                        },
                        None => {},
                    }
                },
                LineOp::NewLine => {
                    buf.push(10u8);
                    proof {
                        assert(buf@ =~= line_render(self.spec_ops().take(i as int), value, labels@)
                            + seq![10u8]);
                    }
                },
            }
            i = i + 1;
        }
        proof {
            assert(self.spec_ops().take(self.spec_ops().len() as int) =~= self.spec_ops());
        }
        buf
    }
}

} // verus!
