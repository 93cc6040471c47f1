//! The shared in-memory mapping from keys to byte values.
//!
//! `Store` is the single piece of state that every server-side connection
//! loop reads and writes. Each `get`/`set` call holds exclusive access for
//! its whole duration (`&self` / `&mut self`); the surrounding binary wraps
//! the store in a mutual-exclusion lock held only across one such call and
//! never across a suspension point, so no read observes a torn write. A
//! panic while the lock is held is a process-fatal condition there, not a
//! recoverable error of this type.
//!
//! For higher concurrency the keyspace could be partitioned into several
//! independently locked stores, one picked by a deterministic hash of the
//! key: operations on different shards then proceed in parallel while those
//! on one shard stay mutually exclusive, behind this same get/set contract.
//! One store under one lock is enough at this scale.

use vstd::prelude::*;

verus! {

/// One key/value pair held by the store.
pub struct Entry {
    pub key: String,
    pub value: Vec<u8>,
}

/// The mapping that a sequence of entries denotes: each entry binds its key
/// to its value, later entries taking precedence (the store itself keeps at
/// most one entry per key, so precedence never matters for it).
pub open spec fn entries_map(s: Seq<Entry>) -> Map<Seq<char>, Seq<u8>>
    decreases s.len(),
{
    if s.len() == 0 {
        Map::empty()
    } else {
        entries_map(s.drop_last()).insert(s.last().key@, s.last().value@)
    }
}

/// Pairwise-distinct keys.
pub open spec fn unique_keys(s: Seq<Entry>) -> bool {
    forall|i: int, j: int| 0 <= i < j < s.len() ==> s[i].key@ != s[j].key@
}

/// The shared map from text keys to opaque byte values. Its abstract content
/// is the `Map<Seq<char>, Seq<u8>>` given by the view.
pub struct Store {
    entries: Vec<Entry>,
}

impl View for Store {
    type V = Map<Seq<char>, Seq<u8>>;

    closed spec fn view(&self) -> Map<Seq<char>, Seq<u8>> {
        entries_map(self.entries@)
    }
}

proof fn lemma_unique_keys_drop_last(s: Seq<Entry>)
    requires
        unique_keys(s),
        s.len() > 0,
    ensures
        unique_keys(s.drop_last()),
{
    assert forall|i: int, j: int|
        0 <= i < j < s.drop_last().len() implies s.drop_last()[i].key@
        != s.drop_last()[j].key@ by {
        assert(s.drop_last()[i] == s[i]);
        assert(s.drop_last()[j] == s[j]);
    }
}

/// A key is in the denoted map exactly when some entry carries it.
proof fn lemma_entries_map_domain(s: Seq<Entry>)
    ensures
        forall|k: Seq<char>| #[trigger]
            entries_map(s).contains_key(k) <==> (exists|i: int|
                0 <= i < s.len() && s[i].key@ == k),
    decreases s.len(),
{
    if s.len() > 0 {
        lemma_entries_map_domain(s.drop_last());
        assert forall|k: Seq<char>| #[trigger]
            entries_map(s).contains_key(k) implies (exists|i: int|
            0 <= i < s.len() && s[i].key@ == k) by {
            if k == s.last().key@ {
                assert(s[s.len() - 1].key@ == k);
            } else {
                assert(entries_map(s) == entries_map(s.drop_last()).insert(
                    s.last().key@,
                    s.last().value@,
                ));
                assert(entries_map(s.drop_last()).contains_key(k));
                let i = choose|i: int|
                    0 <= i < s.drop_last().len() && s.drop_last()[i].key@ == k;
                assert(s.drop_last()[i] == s[i]);
                assert(s[i].key@ == k);
            }
        }
        assert forall|k: Seq<char>|
            (exists|i: int| 0 <= i < s.len() && s[i].key@ == k)
            implies #[trigger] entries_map(s).contains_key(k) by {
            let i = choose|i: int| 0 <= i < s.len() && s[i].key@ == k;
            if i < s.len() - 1 {
                assert(s.drop_last()[i].key@ == k);
            }
        }
    }
}

/// Under unique keys, the map sends each entry's key to that entry's value.
proof fn lemma_entries_map_at(s: Seq<Entry>, i: int)
    requires
        unique_keys(s),
        0 <= i < s.len(),
    ensures
        entries_map(s).contains_key(s[i].key@),
        entries_map(s)[s[i].key@] == s[i].value@,
    decreases s.len(),
{
    if i < s.len() - 1 {
        lemma_unique_keys_drop_last(s);
        assert(s.drop_last()[i] == s[i]);
        lemma_entries_map_at(s.drop_last(), i);
        assert(s.last().key@ != s[i].key@);
    }
}

/// Replacing the entry at `i` by one with the same key denotes insertion of
/// the new value for that key.
proof fn lemma_entries_map_update(s: Seq<Entry>, i: int, e: Entry)
    requires
        unique_keys(s),
        0 <= i < s.len(),
        e.key@ == s[i].key@,
    ensures
        entries_map(s.update(i, e)) == entries_map(s).insert(e.key@, e.value@),
    decreases s.len(),
{
    let t = s.update(i, e);
    if i == s.len() - 1 {
        assert(t.drop_last() =~= s.drop_last());
        assert(t.last() == e);
        assert(entries_map(s.drop_last()).insert(e.key@, e.value@) =~= entries_map(
            s.drop_last(),
        ).insert(s.last().key@, s.last().value@).insert(e.key@, e.value@));
    } else {
        assert(t.drop_last() =~= s.drop_last().update(i, e));
        lemma_unique_keys_drop_last(s);
        assert(s.drop_last()[i] == s[i]);
        lemma_entries_map_update(s.drop_last(), i, e);
        assert(t.last() == s.last());
        assert(s.last().key@ != e.key@);
        assert(entries_map(s.drop_last()).insert(e.key@, e.value@).insert(
            s.last().key@,
            s.last().value@,
        ) =~= entries_map(s.drop_last()).insert(s.last().key@, s.last().value@).insert(
            e.key@,
            e.value@,
        ));
    }
}

/// Appending an entry denotes insertion of its binding.
proof fn lemma_entries_map_push(s: Seq<Entry>, e: Entry)
    ensures
        entries_map(s.push(e)) == entries_map(s).insert(e.key@, e.value@),
{
    assert(s.push(e).drop_last() =~= s);
    assert(s.push(e).last() == e);
}

/// Round trip: binding `k` to `v` and then looking `k` up yields exactly
/// `v`, byte for byte — for every `v`, the empty sequence and arbitrary
/// binary content included. With `Store::set` ensuring the insertion and
/// `Store::get` reading the map, a `set(k, v)` followed by `get(k)` on any
/// well-formed store returns `v` unchanged.
pub proof fn lemma_set_then_get(m: Map<Seq<char>, Seq<u8>>, k: Seq<char>, v: Seq<u8>)
    ensures
        m.insert(k, v).contains_key(k),
        m.insert(k, v)[k] == v,
{
}

impl Store {
    /// Internal shape: at most one entry per key.
    pub closed spec fn wf(&self) -> bool {
        unique_keys(self.entries@)
    }

    /// A store that maps nothing; the one created at service startup.
    pub fn new() -> (s: Store)
        ensures
            s.wf(),
            s@ == Map::<Seq<char>, Seq<u8>>::empty(),
    {
        Store { entries: Vec::new() }
    }

    /// Index of the entry carrying `key`, if any.
    fn find_index(&self, key: &String) -> (r: Option<usize>)
        ensures
            match r {
                Some(i) => i < self.entries@.len() && self.entries@[i as int].key@ == key@,
                None => forall|j: int|
                    0 <= j < self.entries@.len() ==> self.entries@[j].key@ != key@,
            },
    {
        let n = self.entries.len();
        let mut i: usize = 0;
        while i < n
            invariant
                n == self.entries@.len(),
                i <= n,
                forall|j: int| 0 <= j < i ==> self.entries@[j].key@ != key@,
            decreases n - i,
        {
            if self.entries[i].key == *key {
                return Some(i);
            }
            i += 1;
        }
        None
    }

    /// Look a key up; `None` is the absent marker, distinct from an empty
    /// value and never an error.
    pub fn get(&self, key: &String) -> (r: Option<Vec<u8>>)
        requires
            self.wf(),
        ensures
            match r {
                Some(v) => self@.contains_key(key@) && v@ == self@[key@],
                None => !self@.contains_key(key@),
            },
    {
        match self.find_index(key) {
            Some(i) => {
                let v = self.entries[i].value.clone();
                proof {
                    lemma_entries_map_at(self.entries@, i as int);
                    assert forall|j: int|
                        0 <= j < v@.len() implies v@[j] == self.entries@[i as int].value@[j] by {
                        assert(cloned::<u8>(self.entries@[i as int].value@[j], v@[j]));
                    }
                    assert(v@ =~= self.entries@[i as int].value@);
                }
                Some(v)
            },
            None => {
                proof {
                    lemma_entries_map_domain(self.entries@);
                }
                None
            },
        }
    }

    /// Bind `key` to `value`, replacing any earlier binding.
    pub fn set(&mut self, key: String, value: Vec<u8>)
        requires
            old(self).wf(),
        ensures
            final(self).wf(),
            final(self)@ == old(self)@.insert(key@, value@),
    {
        let idx = self.find_index(&key);
        let e = Entry { key, value };
        match idx {
            Some(i) => {
                proof {
                    lemma_entries_map_update(self.entries@, i as int, e);
                }
                let ghost s0 = self.entries@;
                self.entries.set(i, e);
                proof {
                    assert forall|a: int, b: int|
                        0 <= a < b < self.entries@.len() implies self.entries@[a].key@
                        != self.entries@[b].key@ by {
                        if a != i as int {
                            assert(self.entries@[a] == s0[a]);
                        }
                        if b != i as int {
                            assert(self.entries@[b] == s0[b]);
                        }
                    }
                }
            },
            None => {
                proof {
                    lemma_entries_map_push(self.entries@, e);
                }
                let ghost s0 = self.entries@;
                self.entries.push(e);
                proof {
                    assert forall|a: int, b: int|
                        0 <= a < b < self.entries@.len() implies self.entries@[a].key@
                        != self.entries@[b].key@ by {
                        assert(self.entries@[a] == s0[a]);
                        if b < self.entries@.len() - 1 {
                            assert(self.entries@[b] == s0[b]);
                        }
                    }
                }
            },
        }
    }
}

} // verus!
