//! A capturing output: collects published stats into a string-keyed map.
use vstd::prelude::*;

verus! {

/// An in-memory map from joined metric name to the last value published
/// under it. Used as a capturing publish target, mostly by tests.
pub struct StatsMap {
    entries: Vec<(String, u64)>,
}

/// The map a journal of insertions denotes: later entries win.
pub open spec fn entries_map(s: Seq<(Seq<char>, u64)>) -> Map<Seq<char>, u64>
    decreases s.len(),
{
    if s.len() == 0 {
        Map::empty()
    } else {
        entries_map(s.drop_last()).insert(s.last().0, s.last().1)
    }
}

impl View for StatsMap {
    type V = Map<Seq<char>, u64>;

    closed spec fn view(&self) -> Map<Seq<char>, u64> {
        entries_map(self.journal())
    }
}

impl StatsMap {
    /// Every insertion made, in order (later entries shadow earlier ones).
    pub closed spec fn journal(&self) -> Seq<(Seq<char>, u64)> {
        Seq::new(self.entries@.len(), |i: int| (self.entries@[i].0@, self.entries@[i].1))
    }

    /// An empty map.
    pub fn new() -> (r: StatsMap)
        ensures
            r.journal() =~= Seq::<(Seq<char>, u64)>::empty(),
            r@ =~= Map::<Seq<char>, u64>::empty(),
    {
        StatsMap { entries: Vec::new() }
    }

    /// Record `value` under `key`, shadowing any earlier value.
    pub fn insert(&mut self, key: String, value: u64)
        ensures
            final(self).journal() =~= old(self).journal().push((key@, value)),
            final(self)@ == old(self)@.insert(key@, value),
    {
        let ghost before = self.journal();
        self.entries.push((key, value));
        proof {
            assert(self.journal().drop_last() =~= before);
            assert(self.journal() =~= before.push((key@, value)));
        }
    }

    /// How many insertions were recorded.
    pub fn len(&self) -> (r: usize)
        ensures
            r == self.journal().len(),
    {
        self.entries.len()
    }

    /// The value last recorded under `key`, if any.
    pub fn get(&self, key: &str) -> (r: Option<u64>)
        ensures
            r matches Some(v) ==> self@.contains_key(key@) && self@[key@] == v,
            r is None ==> !self@.contains_key(key@),
    {
        let ghost k = key@;
        let ghost full = self.journal();
        let wanted = key.to_owned();
        let mut i: usize = self.entries.len();
        proof {
            assert(full.take(i as int) =~= full);
        }
        while i > 0
            invariant
                i <= self.entries.len(),
                k == key@,
                wanted@ == k,
                full == self.journal(),
                entries_map(full).contains_key(k) == entries_map(full.take(i as int)).contains_key(
                    k,
                ),
                entries_map(full).contains_key(k) ==> entries_map(full.take(i as int)).contains_key(
                    k,
                ) && entries_map(full.take(i as int))[k] == entries_map(full)[k],
            decreases i,
        {
            i = i - 1;
            proof {
                let prefix = full.take(i + 1);
                assert(prefix.drop_last() =~= full.take(i as int));
                assert(prefix.last() == (full[i as int].0, full[i as int].1));
            }
            let hit = self.entries[i].0 == wanted;
            if hit {
                proof {
                    let prefix = full.take(i + 1);
                    assert(prefix.last().0 == k);
                    assert(entries_map(prefix) == entries_map(prefix.drop_last()).insert(
                        prefix.last().0,
                        prefix.last().1,
                    ));
                    assert(entries_map(prefix).contains_key(k));
                    assert(entries_map(prefix)[k] == full[i as int].1);
                    assert(entries_map(full).contains_key(k));
                    assert(entries_map(full)[k] == full[i as int].1);
                }
                return Some(self.entries[i].1);
            }
        }
        proof {
            assert(full.take(0) =~= Seq::<(Seq<char>, u64)>::empty());
        }
        None
    }
}

} // verus!
