//! Bounded memoization of metric handles inside a scope: a small LRU
//! keyed by (kind, fully-qualified name).
use vstd::prelude::*;

use crate::handles::{InputMetric, MetricId};
use crate::kind::InputKind;
use crate::name::MetricName;

verus! {

/// A cache key: the metric's kind and full name.
pub type CacheKey = (InputKind, Seq<Seq<char>>);

/// The position of the key, or -1 when absent.
pub open spec fn index_of_key(keys: Seq<CacheKey>, key: CacheKey) -> int
    decreases keys.len(),
{
    if keys.len() == 0 {
        -1
    } else if keys[0] == key {
        0
    } else {
        let r = index_of_key(keys.drop_first(), key);
        if r < 0 {
            -1
        } else {
            r + 1
        }
    }
}

/// The keys after a lookup of `key` touches the cache, most recently used
/// first: a hit moves the key to the front; a miss inserts it in front,
/// evicting the least recently used key beyond `capacity`.
pub open spec fn cache_touch(keys: Seq<CacheKey>, key: CacheKey, capacity: int) -> Seq<CacheKey> {
    let i = index_of_key(keys, key);
    if i >= 0 {
        seq![key] + keys.remove(i)
    } else {
        let grown = seq![key] + keys;
        if grown.len() <= capacity {
            grown
        } else {
            grown.take(capacity)
        }
    }
}

/// A bounded memoization of metric handles: hits return the cached
/// handle; misses insert a fresh one, evicting the least recently used
/// entry when the cache is full.
pub struct InputCache {
    capacity: usize,
    entries: Vec<InputMetric>,
}

impl InputCache {
    /// The configured bound on cached handles.
    pub closed spec fn spec_capacity(&self) -> int {
        self.capacity as int
    }

    /// The cached keys, most recently used first.
    pub closed spec fn keys(&self) -> Seq<CacheKey> {
        Seq::new(
            self.entries@.len(),
            |i: int| (self.entries@[i].spec_kind(), self.entries@[i].spec_name()),
        )
    }

    /// The cache never holds more handles than its capacity.
    pub closed spec fn wf(&self) -> bool {
        &&& self.capacity > 0
        &&& self.entries@.len() <= self.capacity
    }

    /// An empty cache bounded at `capacity` handles.
    pub fn new(capacity: usize) -> (r: InputCache)
        requires
            capacity > 0,
        ensures
            r.wf(),
            r.spec_capacity() == capacity,
            r.keys() =~= Seq::<CacheKey>::empty(),
    {
        InputCache { capacity, entries: Vec::new() }
    }

    /// Return the handle cached under (kind, name), or cache and return a
    /// fresh one, evicting the least recently used handle when full. Two
    /// lookups of the same metric return handles with equal identifiers.
    pub fn get_or_create(&mut self, name: MetricName, kind: InputKind) -> (r: InputMetric)
        requires
            old(self).wf(),
        ensures
            final(self).wf(),
            final(self).spec_capacity() == old(self).spec_capacity(),
            r.spec_kind() == kind,
            r.spec_name() == name@,
            final(self).keys() =~= cache_touch(
                old(self).keys(),
                (kind, name@),
                old(self).spec_capacity(),
            ),
    {
        let ghost key = (kind, name@);
        let ghost keys0 = self.keys();
        let mut i: usize = 0;
        while i < self.entries.len()
            invariant
                i <= self.entries.len(),
                keys0 == self.keys(),
                key == (kind, name@),
                old(self) == self,
                self.wf(),
                forall|j: int| 0 <= j < i ==> #[trigger] keys0[j] != key,
            decreases self.entries.len() - i,
        {
            let hit = self.entries[i].metric_id().kind() == kind && *self.entries[
                i
            ].metric_id().name() == name;
            if hit {
                proof {
                    lemma_index_of_key_first(keys0, key, i as int);
                }
                let found = self.entries.remove(i);
                let handle = found.clone();
                self.entries.insert(0, found);
                proof {
                    assert(self.keys() =~= seq![key] + keys0.remove(i as int));
                }
                return handle;
            }
            i = i + 1;
        }
        proof {
            lemma_index_of_key_none(keys0, key);
        }
        let fresh = InputMetric::new(MetricId::forge(kind, name));
        let handle = fresh.clone();
        self.entries.insert(0, fresh);
        proof {
            assert(self.keys() =~= seq![key] + keys0);
        }
        if self.entries.len() > self.capacity {
            let ghost grown = self.keys();
            let _ = self.entries.pop();
            proof {
                assert(self.keys() =~= grown.take(self.spec_capacity()));
            }
        }
        handle
    }
}

/// The index found is the first position carrying the key.
proof fn lemma_index_of_key_first(keys: Seq<CacheKey>, key: CacheKey, i: int)
    requires
        0 <= i < keys.len(),
        keys[i] == key,
        forall|j: int| 0 <= j < i ==> #[trigger] keys[j] != key,
    ensures
        index_of_key(keys, key) == i,
    decreases i,
{
    if keys[0] == key {
        assert(i == 0);
    } else {
        assert(keys.drop_first()[i - 1] == keys[i]);
        assert forall|j: int| 0 <= j < i - 1 implies #[trigger] keys.drop_first()[j] != key by {
            assert(keys.drop_first()[j] == keys[j + 1]);
        }
        lemma_index_of_key_first(keys.drop_first(), key, i - 1);
    }
}

/// No position carries the key, so none is found.
proof fn lemma_index_of_key_none(keys: Seq<CacheKey>, key: CacheKey)
    requires
        forall|j: int| 0 <= j < keys.len() ==> #[trigger] keys[j] != key,
    ensures
        index_of_key(keys, key) == -1,
    decreases keys.len(),
{
    if keys.len() > 0 {
        assert forall|j: int| 0 <= j < keys.len() - 1 implies #[trigger] keys.drop_first()[j]
            != key by {
            assert(keys.drop_first()[j] == keys[j + 1]);
        }
        lemma_index_of_key_none(keys.drop_first(), key);
    }
}

} // verus!
