//! The key space: every key with the value stored under it.

use vstd::prelude::*;
use crate::codec::bytes_eq;
use crate::redis::{value_wf, RedisHash, RedisList, RedisSet, RedisString, RedisValue, ValueView};

verus! {

/// The keys of key-value entries, in order.
pub open spec fn assoc_keys<V>(e: Seq<(Seq<u8>, V)>) -> Seq<Seq<u8>> {
    e.map_values(|p: (Seq<u8>, V)| p.0)
}

/// The map that entries with distinct keys describe.
pub open spec fn assoc_map<V>(e: Seq<(Seq<u8>, V)>) -> Map<Seq<u8>, V> {
    Map::new(|k: Seq<u8>| assoc_keys(e).contains(k), |k: Seq<u8>| e[assoc_keys(e).index_of(k)].1)
}

pub(crate) proof fn lemma_assoc_index<V>(e: Seq<(Seq<u8>, V)>, i: int)
    requires
        assoc_keys(e).no_duplicates(),
        0 <= i < e.len(),
    ensures
        assoc_keys(e)[i] == e[i].0,
        assoc_keys(e).contains(e[i].0),
        assoc_keys(e).index_of(e[i].0) == i,
        assoc_map(e).dom().contains(e[i].0),
        assoc_map(e)[e[i].0] == e[i].1,
{
    let ks = assoc_keys(e);
    assert(ks[i] == e[i].0);
    assert(ks.contains(e[i].0));
    let j = ks.index_of(e[i].0);
    assert(ks[j] == ks[i]);
}

pub(crate) proof fn lemma_assoc_remove<V>(e: Seq<(Seq<u8>, V)>, i: int)
    requires
        assoc_keys(e).no_duplicates(),
        0 <= i < e.len(),
    ensures
        assoc_keys(e.remove(i)).no_duplicates(),
        assoc_map(e.remove(i)) == assoc_map(e).remove(e[i].0),
{
    let e2 = e.remove(i);
    let ks = assoc_keys(e);
    let ks2 = assoc_keys(e2);
    assert(ks2 =~= ks.remove(i));
    assert forall|a: int, b: int| 0 <= a < b < ks2.len() implies ks2[a] != ks2[b] by {
        let a1 = if a < i {
            a
        } else {
            a + 1
        };
        let b1 = if b < i {
            b
        } else {
            b + 1
        };
        assert(ks2[a] == ks[a1]);
        assert(ks2[b] == ks[b1]);
    }
    lemma_assoc_index(e, i);
    assert forall|k: Seq<u8>| #[trigger] assoc_map(e2).dom().contains(k) == assoc_map(e).remove(
        e[i].0,
    ).dom().contains(k) by {
        if ks2.contains(k) {
            let j = ks2.index_of(k);
            let j1 = if j < i {
                j
            } else {
                j + 1
            };
            assert(ks[j1] == k);
        }
        if k != e[i].0 && ks.contains(k) {
            let j = ks.index_of(k);
            let j2 = if j < i {
                j
            } else {
                j - 1
            };
            assert(ks2[j2] == k);
        }
    }
    assert forall|k: Seq<u8>| #[trigger] assoc_map(e2).dom().contains(k) implies assoc_map(e2)[k]
        == assoc_map(e)[k] by {
        let j = ks2.index_of(k);
        let j1 = if j < i {
            j
        } else {
            j + 1
        };
        assert(e2[j] == e[j1]);
        lemma_assoc_index(e2, j);
        lemma_assoc_index(e, j1);
    }
    assert(assoc_map(e2) =~= assoc_map(e).remove(e[i].0));
}

pub(crate) proof fn lemma_assoc_push<V>(e: Seq<(Seq<u8>, V)>, k: Seq<u8>, v: V)
    requires
        assoc_keys(e).no_duplicates(),
        !assoc_keys(e).contains(k),
    ensures
        assoc_keys(e.push((k, v))).no_duplicates(),
        assoc_map(e.push((k, v))) == assoc_map(e).insert(k, v),
{
    let e2 = e.push((k, v));
    let ks = assoc_keys(e);
    let ks2 = assoc_keys(e2);
    assert(ks2 =~= ks.push(k));
    assert forall|a: int, b: int| 0 <= a < b < ks2.len() implies ks2[a] != ks2[b] by {
        if b == ks.len() {
            assert(ks.contains(ks[a]));
        }
    }
    lemma_assoc_index(e2, e.len() as int);
    assert forall|x: Seq<u8>| #[trigger] assoc_map(e2).dom().contains(x) == assoc_map(e).insert(
        k,
        v,
    ).dom().contains(x) by {
        if ks2.contains(x) && x != k {
            let j = ks2.index_of(x);
            assert(ks[j] == x);
        }
        if ks.contains(x) {
            let j = ks.index_of(x);
            assert(ks2[j] == x);
        }
    }
    assert forall|x: Seq<u8>| #[trigger] assoc_map(e2).dom().contains(x) && x != k implies assoc_map(
        e2,
    )[x] == assoc_map(e)[x] by {
        let j = ks2.index_of(x);
        assert(ks2[j] == x);
        assert(j < e.len());
        lemma_assoc_index(e2, j);
        lemma_assoc_index(e, j);
    }
    assert(assoc_map(e2) =~= assoc_map(e).insert(k, v));
}

/// The views of stored entries.
pub open spec fn entry_views(v: Seq<(Vec<u8>, RedisValue)>) -> Seq<(Seq<u8>, ValueView)> {
    v.map_values(|p: (Vec<u8>, RedisValue)| (p.0@, p.1@))
}

/// Whether every value of the key space `m` keeps the rules of its kind:
/// no hash lists a field twice and no set a member twice.
pub open spec fn store_wf(m: Map<Seq<u8>, ValueView>) -> bool {
    forall|k: Seq<u8>| #[trigger] m.dom().contains(k) ==> value_wf(m[k])
}

/// Every key with the value stored under it.
pub struct Store {
    entries: Vec<(Vec<u8>, RedisValue)>,
}

impl View for Store {
    type V = Map<Seq<u8>, ValueView>;

    closed spec fn view(&self) -> Map<Seq<u8>, ValueView> {
        assoc_map(entry_views(self.entries@))
    }
}

impl Store {
    #[verifier::type_invariant]
    pub(crate) closed spec fn inv(self) -> bool {
        &&& assoc_keys(entry_views(self.entries@)).no_duplicates()
        &&& store_wf(self@)
    }

    /// A store that keeps its invariant keeps the rules of every value.
    pub(crate) proof fn lemma_wf(self)
        requires
            self.inv(),
        ensures
            store_wf(self@),
    {
    }

    /// An empty key space.
    pub fn new() -> (r: Self)
        ensures
            r@ == Map::<Seq<u8>, ValueView>::empty(),
            store_wf(r@),
    {
        let r = Store { entries: Vec::new() };
        assert(r@ =~= Map::<Seq<u8>, ValueView>::empty());
        r
    }

    fn find(&self, key: &[u8]) -> (r: Option<usize>)
        ensures
            match r {
                Some(i) => i < self.entries@.len() && self.entries@[i as int].0@ == key@
                    && self@.dom().contains(key@),
                None => !self@.dom().contains(key@),
            },
    {
        proof {
            use_type_invariant(self);
        }
        let ghost ev = entry_views(self.entries@);
        let mut i: usize = 0;
        while i < self.entries.len()
            invariant
                i <= self.entries@.len(),
                ev == entry_views(self.entries@),
                assoc_keys(ev).no_duplicates(),
                forall|j: int| 0 <= j < i ==> #[trigger] assoc_keys(ev)[j] != key@,
            decreases self.entries.len() - i,
        {
            if bytes_eq(self.entries[i].0.as_slice(), key) {
                proof {
                    lemma_assoc_index(ev, i as int);
                }
                return Some(i);
            }
            i += 1;
        }
        assert(!assoc_keys(ev).contains(key@)) by {
            if assoc_keys(ev).contains(key@) {
                let j = assoc_keys(ev).index_of(key@);
                assert(assoc_keys(ev)[j] == key@);
            }
        }
        None
    }

    /// Whether a value is stored under `key`.
    pub fn contains_key(&self, key: &[u8]) -> (r: bool)
        ensures
            r == self@.dom().contains(key@),
    {
        self.find(key).is_some()
    }

    /// The value stored under `key`, if any.
    pub fn get(&self, key: &[u8]) -> (r: Option<&RedisValue>)
        ensures
            match r {
                Some(v) => self@.dom().contains(key@) && v@ == self@[key@],
                None => !self@.dom().contains(key@),
            },
            store_wf(self@),
    {
        proof {
            use_type_invariant(self);
        }
        match self.find(key) {
            Some(i) => {
                proof {
                    lemma_assoc_index(entry_views(self.entries@), i as int);
                }
                Some(&self.entries[i].1)
            },
            None => None,
        }
    }

    /// Takes the value stored under `key` out of the key space.
    pub fn take(&mut self, key: &[u8]) -> (r: Option<RedisValue>)
        ensures
            match r {
                Some(v) => old(self)@.dom().contains(key@) && v@ == old(self)@[key@]
                    && final(self)@ == old(self)@.remove(key@),
                None => !old(self)@.dom().contains(key@) && final(self)@ == old(self)@,
            },
            store_wf(final(self)@),
            r matches Some(v) ==> value_wf(v@),
    {
        proof {
            use_type_invariant(&*self);
        }
        match self.find(key) {
            Some(i) => {
                let ghost ev = entry_views(self.entries@);
                proof {
                    lemma_assoc_index(ev, i as int);
                    lemma_assoc_remove(ev, i as int);
                }
                let mut entries: Vec<(Vec<u8>, RedisValue)> = Vec::new();
                std::mem::swap(&mut entries, &mut self.entries);
                let (_, v) = entries.remove(i);
                assert(entry_views(entries@) =~= ev.remove(i as int));
                assert(assoc_map(entry_views(entries@)) =~= old(self)@.remove(key@));
                self.entries = entries;
                Some(v)
            },
            None => None,
        }
    }

    /// Stores `value` under `key`, in place of what was stored there.
    pub fn insert(&mut self, key: Vec<u8>, value: RedisValue)
        ensures
            final(self)@ == old(self)@.insert(key@, value@),
            store_wf(final(self)@),
    {
        value.note_wf();
        let _ = self.take(key.as_slice());
        proof {
            use_type_invariant(&*self);
        }
        let ghost ev = entry_views(self.entries@);
        let ghost kv = key@;
        let ghost vv = value@;
        proof {
            assert(!self@.dom().contains(kv));
            assert(!assoc_keys(ev).contains(kv));
            lemma_assoc_push(ev, kv, vv);
        }
        let mut entries: Vec<(Vec<u8>, RedisValue)> = Vec::new();
        std::mem::swap(&mut entries, &mut self.entries);
        entries.push((key, value));
        assert(entry_views(entries@) =~= ev.push((kv, vv)));
        assert(assoc_map(entry_views(entries@)) =~= assoc_map(ev).insert(kv, vv));
        self.entries = entries;
        assert(final(self)@ =~= old(self)@.insert(kv, vv));
    }

    /// Removes what is stored under `key`.
    pub fn remove(&mut self, key: &[u8])
        ensures
            final(self)@ == old(self)@.remove(key@),
            store_wf(final(self)@),
    {
        let r = self.take(key);
        if r.is_none() {
            assert(final(self)@ =~= old(self)@.remove(key@));
        }
    }

    /// The number of keys.
    pub fn len(&self) -> (r: usize)
        ensures
            r == self@.len(),
    {
        proof {
            use_type_invariant(self);
            let ev = entry_views(self.entries@);
            assoc_keys(ev).unique_seq_to_set();
            assert(assoc_keys(ev).to_set() =~= self@.dom());
        }
        self.entries.len()
    }
}

} // verus!
