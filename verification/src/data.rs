//! The runtime data store: a type-indexed bag of read-only fixtures.
//!
//! The engine builds one store per execution plan, lets the plan's
//! initializers populate it, and then lends it read-only to user builders.
//! The store itself is opaque to the engine: it only guarantees that each
//! type identity maps to at most one value.  Here a type identity is a `u64`
//! key and a stored value is a `usize` handle; the code that owns the actual
//! values resolves handles back to them.

use vstd::prelude::*;

verus! {

/// No two entries share a key.
pub open spec fn unique_keys(s: Seq<(u64, usize)>) -> bool {
    forall|i: int, j: int| 0 <= i < j < s.len() ==> (#[trigger] s[i]).0 != (#[trigger] s[j]).0
}

/// The mapping described by an entry sequence (later entries win).
pub open spec fn entries_map(s: Seq<(u64, usize)>) -> Map<u64, usize>
    decreases s.len(),
{
    if s.len() == 0 {
        Map::empty()
    } else {
        entries_map(s.drop_last()).insert(s.last().0, s.last().1)
    }
}

/// With unique keys, the mapping contains exactly the keys of the entries,
/// and each key maps to the value stored beside it.
proof fn lemma_unique_drop_last(s: Seq<(u64, usize)>)
    requires
        unique_keys(s),
        s.len() > 0,
    ensures
        unique_keys(s.drop_last()),
{
    assert forall|i: int, j: int| 0 <= i < j < s.drop_last().len() implies (#[trigger] s.drop_last(
    )[i]).0 != (#[trigger] s.drop_last()[j]).0 by {
        assert(s[i] == s.drop_last()[i]);
        assert(s[j] == s.drop_last()[j]);
    }
}

proof fn lemma_entries_map(s: Seq<(u64, usize)>, k: u64)
    requires
        unique_keys(s),
    ensures
        entries_map(s).contains_key(k) <==> (exists|i: int|
            0 <= i < s.len() && (#[trigger] s[i]).0 == k),
        forall|i: int|
            0 <= i < s.len() && (#[trigger] s[i]).0 == k ==> entries_map(s).contains_key(k)
                && entries_map(s)[k] == s[i].1,
    decreases s.len(),
{
    if s.len() > 0 {
        let s1 = s.drop_last();
        lemma_unique_drop_last(s);
        lemma_entries_map(s1, k);
        let m = entries_map(s);
        let last = s.last();
        assert(m == entries_map(s1).insert(last.0, last.1));
        if last.0 == k {
            assert((s[s.len() - 1]).0 == k);
            assert(m.contains_key(k) && m[k] == last.1);
            assert forall|i: int| 0 <= i < s.len() && (#[trigger] s[i]).0 == k implies m[k]
                == s[i].1 by {
                if i < s.len() - 1 {
                    assert((s[i]).0 != (s[s.len() - 1]).0);
                }
            }
        } else {
            if m.contains_key(k) {
                assert(entries_map(s1).contains_key(k));
                let i = choose|i: int| 0 <= i < s1.len() && (#[trigger] s1[i]).0 == k;
                assert(s[i] == s1[i]);
                assert((s[i]).0 == k);
            }
            if exists|i: int| 0 <= i < s.len() && (#[trigger] s[i]).0 == k {
                let i = choose|i: int| 0 <= i < s.len() && (#[trigger] s[i]).0 == k;
                assert(i < s.len() - 1);
                assert(s1[i] == s[i]);
                assert(entries_map(s1).contains_key(k));
            }
            assert forall|i: int| 0 <= i < s.len() && (#[trigger] s[i]).0 == k implies m[k]
                == s[i].1 by {
                assert(i < s.len() - 1);
                assert(s1[i] == s[i]);
                assert(entries_map(s1)[k] == s1[i].1);
            }
        }
    }
}

/// Exchanging one entry's value for another updates the mapping at that
/// entry's key and nothing else.
proof fn lemma_entries_map_update(s: Seq<(u64, usize)>, i: int, v: usize)
    requires
        unique_keys(s),
        0 <= i < s.len(),
    ensures
        entries_map(s.update(i, (s[i].0, v))) == entries_map(s).insert(s[i].0, v),
    decreases s.len(),
{
    let t = s.update(i, (s[i].0, v));
    if i == s.len() - 1 {
        assert(t.drop_last() =~= s.drop_last());
        assert(entries_map(t) =~= entries_map(s).insert(s[i].0, v));
    } else {
        lemma_unique_drop_last(s);
        assert(t.drop_last() =~= s.drop_last().update(i, (s[i].0, v)));
        lemma_entries_map_update(s.drop_last(), i, v);
        assert(s[i].0 != s.last().0);
        assert(t.last() == s.last());
        assert(entries_map(t) =~= entries_map(s).insert(s[i].0, v));
    }
}

/// A mapping from a type identity to an owned value, with at most one value
/// per type.
#[derive(Debug)]
pub struct RuntimeDataStore {
    entries: Vec<(u64, usize)>,
}

impl RuntimeDataStore {
    /// The well-formedness invariant: one entry per type identity.
    pub closed spec fn wf(&self) -> bool {
        unique_keys(self.entries@)
    }

    /// The mapping the store currently holds.
    pub closed spec fn contents(&self) -> Map<u64, usize> {
        entries_map(self.entries@)
    }

    /// An empty store.
    pub fn new() -> (r: RuntimeDataStore)
        ensures
            r.wf(),
            r.contents() == Map::<u64, usize>::empty(),
    {
        RuntimeDataStore { entries: Vec::new() }
    }

    /// Insert a value for a type identity, replacing any previous value for
    /// the same identity, so that at most one value per type remains.
    pub fn insert(&mut self, key: u64, handle: usize)
        requires
            old(self).wf(),
        ensures
            final(self).wf(),
            final(self).contents() == old(self).contents().insert(key, handle),
    {
        let ghost s0 = self.entries@;
        let n = self.entries.len();
        let mut i: usize = 0;
        while i < n
            invariant
                unique_keys(s0),
                s0 == old(self).entries@,
                n == self.entries@.len(),
                0 <= i <= n,
                self.entries@ == s0,
                forall|j: int| 0 <= j < i ==> (#[trigger] s0[j]).0 != key,
            decreases n - i,
        {
            if self.entries[i].0 == key {
                self.entries[i] = (key, handle);
                proof {
                    let t = s0.update(i as int, (key, handle));
                    assert(s0[i as int].0 == key);
                    assert(self.entries@ == t);
                    assert forall|p: int, q: int| 0 <= p < q < t.len() implies (
                    #[trigger] t[p]).0 != (#[trigger] t[q]).0 by {
                        assert(t[p].0 == s0[p].0);
                        assert(t[q].0 == s0[q].0);
                    }
                    lemma_entries_map_update(s0, i as int, handle);
                    assert(t == s0.update(i as int, (s0[i as int].0, handle)));
                }
                return ;
            }
            i += 1;
        }
        self.entries.push((key, handle));
        proof {
            assert(self.entries@.drop_last() =~= s0);
            assert(self.entries@.last() == (key, handle));
            let t = self.entries@;
            assert forall|p: int, q: int| 0 <= p < q < t.len() implies (#[trigger] t[p]).0 != (
            #[trigger] t[q]).0 by {
                if q == t.len() - 1 {
                    assert(t[p] == s0[p]);
                } else {
                    assert(t[p] == s0[p]);
                    assert(t[q] == s0[q]);
                }
            }
        }
    }

    /// Look a type identity up.  Returns the handle stored for it, if any.
    pub fn get(&self, key: u64) -> (r: Option<usize>)
        requires
            self.wf(),
        ensures
            match r {
                Some(h) => self.contents().contains_key(key) && self.contents()[key] == h,
                None => !self.contents().contains_key(key),
            },
    {
        let ghost s0 = self.entries@;
        let n = self.entries.len();
        let mut i: usize = 0;
        while i < n
            invariant
                self.wf(),
                s0 == self.entries@,
                n == s0.len(),
                0 <= i <= n,
                forall|j: int| 0 <= j < i ==> (#[trigger] s0[j]).0 != key,
            decreases n - i,
        {
            if self.entries[i].0 == key {
                proof {
                    lemma_entries_map(s0, key);
                }
                return Some(self.entries[i].1);
            }
            i += 1;
        }
        proof {
            lemma_entries_map(s0, key);
        }
        None
    }

    /// How many values the store holds.
    pub closed spec fn spec_len(&self) -> nat {
        self.entries@.len()
    }

    /// How many values the store holds.
    pub fn len(&self) -> (r: usize)
        ensures
            r == self.spec_len(),
    {
        self.entries.len()
    }
}

impl Default for RuntimeDataStore {
    /// An empty store.
    fn default() -> (r: RuntimeDataStore)
        ensures
            r.wf(),
            r.contents() == Map::<u64, usize>::empty(),
    {
        RuntimeDataStore::new()
    }
}

} // verus!
