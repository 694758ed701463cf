//! Per-write text annotations, passed alongside each metric value.
use vstd::prelude::*;

verus! {

/// A mapping from label key to label value, carried by a single write.
pub struct Labels {
    pairs: Vec<(String, String)>,
}

/// The value the first pair with the wanted key carries, if any.
pub open spec fn spec_lookup(pairs: Seq<(Seq<char>, Seq<char>)>, key: Seq<char>) -> Option<
    Seq<char>,
>
    decreases pairs.len(),
{
    if pairs.len() == 0 {
        None
    } else if pairs.first().0 == key {
        Some(pairs.first().1)
    } else {
        spec_lookup(pairs.drop_first(), key)
    }
}

impl View for Labels {
    type V = Seq<(Seq<char>, Seq<char>)>;

    closed spec fn view(&self) -> Seq<(Seq<char>, Seq<char>)> {
        Seq::new(self.pairs@.len(), |i: int| (self.pairs@[i].0@, self.pairs@[i].1@))
    }
}

impl Labels {
    /// No labels: what most writes carry.
    pub fn none() -> (r: Labels)
        ensures
            r@ =~= Seq::<(Seq<char>, Seq<char>)>::empty(),
    {
        Labels { pairs: Vec::new() }
    }

    /// Add a pair; an earlier pair with the same key keeps priority.
    pub fn push(&mut self, key: String, value: String)
        ensures
            final(self)@ =~= old(self)@ + seq![(key@, value@)],
    {
        self.pairs.push((key, value));
    }

    /// The value recorded for `key`, if any (first pair wins).
    pub fn lookup(&self, key: &str) -> (r: Option<&String>)
        ensures
            r matches Some(v) ==> spec_lookup(self@, key@) == Some(v@),
            r is None ==> spec_lookup(self@, key@) is None,
    {
        let wanted = key.to_owned();
        let mut i: usize = 0;
        proof {
            assert(self@.skip(0) =~= self@);
        }
        while i < self.pairs.len()
            invariant
                i <= self.pairs.len(),
                wanted@ == key@,
                spec_lookup(self@, key@) == spec_lookup(self@.skip(i as int), key@),
            decreases self.pairs.len() - i,
        {
            proof {
                let rest = self@.skip(i as int);
                assert(rest.first() == self@[i as int]);
                assert(rest.drop_first() =~= self@.skip(i + 1));
            }
            let hit = self.pairs[i].0 == wanted;
            if hit {
                return Some(&self.pairs[i].1);
            }
            i = i + 1;
        }
        proof {
            assert(self@.skip(self@.len() as int) =~= Seq::<(Seq<char>, Seq<char>)>::empty());
        }
        None
    }
}

impl Labels {
    /// Resolve this per-write label set over a lower-priority set (a
    /// scope's or a context's): pairs of `self` come first, so they win
    /// any lookup over pairs of `fallback` with the same key.
    pub fn extended(&self, fallback: &Labels) -> (r: Labels)
        ensures
            r@ =~= self@ + fallback@,
    {
        let mut r = self.clone();
        let mut i: usize = 0;
        let ghost base = r@;
        while i < fallback.pairs.len()
            invariant
                i <= fallback.pairs.len(),
                r@.len() == base.len() + i,
                forall|j: int| 0 <= j < base.len() ==> #[trigger] r@[j] == base[j],
                forall|j: int| base.len() <= j < r@.len() ==> #[trigger] r@[j] == fallback@[j - base.len()],
            decreases fallback.pairs.len() - i,
        {
            let ghost prev = r@;
            r.pairs.push((fallback.pairs[i].0.clone(), fallback.pairs[i].1.clone()));
            proof {
                assert(forall|j: int| 0 <= j < prev.len() ==> #[trigger] r@[j] == prev[j]);
                assert(r@[prev.len() as int] == fallback@[i as int]);
            }
            i = i + 1;
        }
        assert(r@ =~= self@ + fallback@);
        r
    }
}

impl Clone for Labels {
    /// A copy with the same pairs.
    fn clone(&self) -> (r: Self)
        ensures
            r@ == self@,
    {
        let mut pairs: Vec<(String, String)> = Vec::new();
        let mut i: usize = 0;
        while i < self.pairs.len()
            invariant
                i <= self.pairs.len(),
                pairs@.len() == i,
                forall|j: int|
                    0 <= j < i ==> (#[trigger] pairs@[j].0@) == self@[j].0 && pairs@[j].1@
                        == self@[j].1,
            decreases self.pairs.len() - i,
        {
            pairs.push((self.pairs[i].0.clone(), self.pairs[i].1.clone()));
            i = i + 1;
        }
        let r = Labels { pairs };
        assert(r@ =~= self@);
        r
    }
}

} // verus!
