//! The four kinds of value the server keeps under a key: strings, lists,
//! hashes and sets, each over byte strings.

use vstd::prelude::*;
use crate::codec::{append_bytes, bytes_eq, copy_bytes};
use crate::text::byte_seqs;

verus! {

// ---------------------------------------------------------------- hashes

/// The fields of hash entries, in order.
pub open spec fn hash_keys(e: Seq<(Seq<u8>, Seq<u8>)>) -> Seq<Seq<u8>> {
    e.map_values(|p: (Seq<u8>, Seq<u8>)| p.0)
}

/// The values of hash entries, in order.
pub open spec fn hash_values(e: Seq<(Seq<u8>, Seq<u8>)>) -> Seq<Seq<u8>> {
    e.map_values(|p: (Seq<u8>, Seq<u8>)| p.1)
}

/// Whether no field occurs twice among the entries.
pub open spec fn hash_wf(e: Seq<(Seq<u8>, Seq<u8>)>) -> bool {
    hash_keys(e).no_duplicates()
}

/// The value stored under `k`, if any.
pub open spec fn hash_lookup(e: Seq<(Seq<u8>, Seq<u8>)>, k: Seq<u8>) -> Option<Seq<u8>> {
    if hash_keys(e).contains(k) {
        Some(e[hash_keys(e).index_of(k)].1)
    } else {
        None
    }
}

/// The entries after `k` is set to `v`: an existing entry for `k` keeps
/// its place, a new one goes last.
pub open spec fn hash_put(e: Seq<(Seq<u8>, Seq<u8>)>, k: Seq<u8>, v: Seq<u8>) -> Seq<
    (Seq<u8>, Seq<u8>),
> {
    if hash_keys(e).contains(k) {
        e.update(hash_keys(e).index_of(k), (k, v))
    } else {
        e.push((k, v))
    }
}

/// The entries without the one for `k`.
pub open spec fn hash_without(e: Seq<(Seq<u8>, Seq<u8>)>, k: Seq<u8>) -> Seq<
    (Seq<u8>, Seq<u8>),
> {
    if hash_keys(e).contains(k) {
        e.remove(hash_keys(e).index_of(k))
    } else {
        e
    }
}

/// The entries that putting each pair of `s` in turn into an empty hash gives.
pub open spec fn hash_from(s: Seq<(Seq<u8>, Seq<u8>)>) -> Seq<(Seq<u8>, Seq<u8>)>
    decreases s.len(),
{
    if s.len() == 0 {
        seq![]
    } else {
        hash_put(hash_from(s.drop_last()), s.last().0, s.last().1)
    }
}

/// The views of a sequence of pairs of byte vectors.
pub open spec fn pair_views(v: Seq<(Vec<u8>, Vec<u8>)>) -> Seq<(Seq<u8>, Seq<u8>)> {
    v.map_values(|p: (Vec<u8>, Vec<u8>)| (p.0@, p.1@))
}

// ---------------------------------------------------------------- sets

/// The members after `x` is added: it goes last unless it is there already.
pub open spec fn set_add(s: Seq<Seq<u8>>, x: Seq<u8>) -> Seq<Seq<u8>> {
    if s.contains(x) {
        s
    } else {
        s.push(x)
    }
}

/// The members without `x`.
pub open spec fn set_remove(s: Seq<Seq<u8>>, x: Seq<u8>) -> Seq<Seq<u8>> {
    if s.contains(x) {
        s.remove(s.index_of(x))
    } else {
        s
    }
}

/// The members that adding each element of `s` in turn to an empty set gives.
pub open spec fn set_from(s: Seq<Seq<u8>>) -> Seq<Seq<u8>>
    decreases s.len(),
{
    if s.len() == 0 {
        seq![]
    } else {
        set_add(set_from(s.drop_last()), s.last())
    }
}

// ---------------------------------------------------------------- lemmas

proof fn lemma_index_of_unique(s: Seq<Seq<u8>>, i: int)
    requires
        s.no_duplicates(),
        0 <= i < s.len(),
    ensures
        s.contains(s[i]),
        s.index_of(s[i]) == i,
{
    assert(s.contains(s[i]));
    let j = s.index_of(s[i]);
    assert(s[j] == s[i]);
}

proof fn lemma_hash_keys_index(e: Seq<(Seq<u8>, Seq<u8>)>, i: int)
    requires
        hash_wf(e),
        0 <= i < e.len(),
    ensures
        hash_keys(e)[i] == e[i].0,
        hash_keys(e).contains(e[i].0),
        hash_keys(e).index_of(e[i].0) == i,
{
    lemma_index_of_unique(hash_keys(e), i);
}

/// Setting a field keeps the fields distinct, and a read of the field
/// gives back what was set while other fields read as before.
pub proof fn lemma_hash_put(e: Seq<(Seq<u8>, Seq<u8>)>, k: Seq<u8>, v: Seq<u8>, k2: Seq<u8>)
    requires
        hash_wf(e),
    ensures
        hash_wf(hash_put(e, k, v)),
        hash_lookup(hash_put(e, k, v), k) == Some(v),
        k2 != k ==> hash_lookup(hash_put(e, k, v), k2) == hash_lookup(e, k2),
        hash_keys(hash_put(e, k, v)).to_set() == hash_keys(e).to_set().insert(k),
{
    let e2 = hash_put(e, k, v);
    if hash_keys(e).contains(k) {
        let i = hash_keys(e).index_of(k);
        assert(hash_keys(e2) =~= hash_keys(e));
        lemma_hash_keys_index(e2, i);
        if hash_keys(e).contains(k2) {
            let j = hash_keys(e).index_of(k2);
            lemma_hash_keys_index(e2, j);
        }
        assert(hash_keys(e2).to_set() =~= hash_keys(e).to_set().insert(k));
    } else {
        assert(hash_keys(e2) =~= hash_keys(e).push(k));
        hash_keys(e).lemma_push_to_set_commute(k);
        assert(hash_wf(e2)) by {
            assert forall|a: int, b: int|
                0 <= a < b < hash_keys(e2).len() implies hash_keys(e2)[a] != hash_keys(
                e2,
            )[b] by {
                if b == e.len() {
                    assert(hash_keys(e).contains(hash_keys(e)[a]));
                }
            }
        }
        lemma_hash_keys_index(e2, e.len() as int);
        if hash_keys(e).contains(k2) {
            let j = hash_keys(e).index_of(k2);
            lemma_hash_keys_index(e2, j);
        } else if k2 != k {
            assert(!hash_keys(e2).contains(k2)) by {
                if hash_keys(e2).contains(k2) {
                    let j = hash_keys(e2).index_of(k2);
                    assert(hash_keys(e).contains(k2)) by {
                        assert(hash_keys(e)[j] == k2);
                    }
                }
            }
        }
        assert(hash_keys(e2).to_set() =~= hash_keys(e).to_set().insert(k));
    }
}

/// Removing a field keeps the fields distinct; the field then reads as
/// absent while other fields read as before.
pub proof fn lemma_hash_without(e: Seq<(Seq<u8>, Seq<u8>)>, k: Seq<u8>, k2: Seq<u8>)
    requires
        hash_wf(e),
    ensures
        hash_wf(hash_without(e, k)),
        hash_lookup(hash_without(e, k), k) is None,
        k2 != k ==> hash_lookup(hash_without(e, k), k2) == hash_lookup(e, k2),
        hash_keys(hash_without(e, k)).to_set() == hash_keys(e).to_set().remove(k),
{
    let e2 = hash_without(e, k);
    if hash_keys(e).contains(k) {
        let i = hash_keys(e).index_of(k);
        assert(hash_keys(e2) =~= hash_keys(e).remove(i));
        assert(hash_wf(e2)) by {
            assert forall|a: int, b: int|
                0 <= a < b < hash_keys(e2).len() implies hash_keys(e2)[a] != hash_keys(
                e2,
            )[b] by {
                let a1 = if a < i {
                    a
                } else {
                    a + 1
                };
                let b1 = if b < i {
                    b
                } else {
                    b + 1
                };
                assert(hash_keys(e2)[a] == hash_keys(e)[a1]);
                assert(hash_keys(e2)[b] == hash_keys(e)[b1]);
            }
        }
        assert(!hash_keys(e2).contains(k)) by {
            if hash_keys(e2).contains(k) {
                let j = hash_keys(e2).index_of(k);
                let j1 = if j < i {
                    j
                } else {
                    j + 1
                };
                assert(hash_keys(e)[j1] == k);
                assert(hash_keys(e)[i] == k);
            }
        }
        if k2 != k && hash_keys(e).contains(k2) {
            let j = hash_keys(e).index_of(k2);
            assert(j != i);
            let j2 = if j < i {
                j
            } else {
                j - 1
            };
            assert(e2[j2] == e[j]);
            lemma_hash_keys_index(e2, j2);
        }
        if k2 != k && !hash_keys(e).contains(k2) {
            assert(!hash_keys(e2).contains(k2)) by {
                if hash_keys(e2).contains(k2) {
                    let j = hash_keys(e2).index_of(k2);
                    let j1 = if j < i {
                        j
                    } else {
                        j + 1
                    };
                    assert(hash_keys(e)[j1] == k2);
                }
            }
        }
        assert forall|x: Seq<u8>| #[trigger]
            hash_keys(e2).to_set().contains(x) == hash_keys(e).to_set().remove(k).contains(x) by {
            if hash_keys(e2).contains(x) {
                let j = hash_keys(e2).index_of(x);
                let j1 = if j < i {
                    j
                } else {
                    j + 1
                };
                assert(hash_keys(e)[j1] == x);
            }
            if x != k && hash_keys(e).contains(x) {
                let j = hash_keys(e).index_of(x);
                let j2 = if j < i {
                    j
                } else {
                    j - 1
                };
                assert(hash_keys(e2)[j2] == x);
            }
        }
        assert(hash_keys(e2).to_set() =~= hash_keys(e).to_set().remove(k));
    } else {
        assert(hash_keys(e).to_set() =~= hash_keys(e).to_set().remove(k));
    }
}

/// Building entries from pairs keeps the fields distinct.
pub proof fn lemma_hash_from_wf(s: Seq<(Seq<u8>, Seq<u8>)>)
    ensures
        hash_wf(hash_from(s)),
    decreases s.len(),
{
    if s.len() > 0 {
        lemma_hash_from_wf(s.drop_last());
        lemma_hash_put(hash_from(s.drop_last()), s.last().0, s.last().1, s.last().0);
    }
}

/// Adding a member keeps the members distinct and makes it a member.
pub proof fn lemma_set_add(s: Seq<Seq<u8>>, x: Seq<u8>)
    requires
        s.no_duplicates(),
    ensures
        set_add(s, x).no_duplicates(),
        set_add(s, x).to_set() == s.to_set().insert(x),
{
    if !s.contains(x) {
        assert forall|a: int, b: int|
            0 <= a < b < s.push(x).len() implies s.push(x)[a] != s.push(x)[b] by {
            if b == s.len() {
                assert(s.contains(s[a]));
            }
        }
        s.lemma_push_to_set_commute(x);
    } else {
        assert(s.to_set() =~= s.to_set().insert(x));
    }
}

/// Removing a member keeps the members distinct and makes it absent.
pub proof fn lemma_set_remove(s: Seq<Seq<u8>>, x: Seq<u8>)
    requires
        s.no_duplicates(),
    ensures
        set_remove(s, x).no_duplicates(),
        set_remove(s, x).to_set() == s.to_set().remove(x),
{
    if s.contains(x) {
        let i = s.index_of(x);
        let s2 = s.remove(i);
        assert forall|a: int, b: int| 0 <= a < b < s2.len() implies s2[a] != s2[b] by {
            let a1 = if a < i {
                a
            } else {
                a + 1
            };
            let b1 = if b < i {
                b
            } else {
                b + 1
            };
            assert(s2[a] == s[a1]);
            assert(s2[b] == s[b1]);
        }
        assert forall|y: Seq<u8>| #[trigger] s2.to_set().contains(y) == s.to_set().remove(
            x,
        ).contains(y) by {
            if s2.contains(y) {
                let j = s2.index_of(y);
                let j1 = if j < i {
                    j
                } else {
                    j + 1
                };
                assert(s[j1] == y);
                assert(s[i] == x);
            }
            if y != x && s.contains(y) {
                let j = s.index_of(y);
                let j2 = if j < i {
                    j
                } else {
                    j - 1
                };
                assert(s2[j2] == y);
            }
        }
        assert(s2.to_set() =~= s.to_set().remove(x));
    } else {
        assert(s.to_set() =~= s.to_set().remove(x));
    }
}

/// Building members from a sequence keeps them distinct.
pub proof fn lemma_set_from(s: Seq<Seq<u8>>)
    ensures
        set_from(s).no_duplicates(),
        set_from(s).to_set() == s.to_set(),
    decreases s.len(),
{
    if s.len() > 0 {
        lemma_set_from(s.drop_last());
        lemma_set_add(set_from(s.drop_last()), s.last());
        assert(s.to_set() =~= s.drop_last().to_set().insert(s.last())) by {
            assert(s =~= s.drop_last().push(s.last()));
        }
    } else {
        assert(s.to_set() =~= Set::<Seq<u8>>::empty());
        assert(set_from(s).to_set() =~= Set::<Seq<u8>>::empty());
    }
}

proof fn lemma_byte_seqs_push(v: Seq<Vec<u8>>, x: Vec<u8>)
    ensures
        byte_seqs(v.push(x)) == byte_seqs(v).push(x@),
{
    assert(byte_seqs(v.push(x)) =~= byte_seqs(v).push(x@));
}

proof fn lemma_pair_views_push(v: Seq<(Vec<u8>, Vec<u8>)>, x: (Vec<u8>, Vec<u8>))
    ensures
        pair_views(v.push(x)) == pair_views(v).push((x.0@, x.1@)),
{
    assert(pair_views(v.push(x)) =~= pair_views(v).push((x.0@, x.1@)));
}

// ---------------------------------------------------------------- RedisString

/// A string value: a sequence of bytes.
#[derive(Debug)]
pub struct RedisString {
    data: Vec<u8>,
}

impl View for RedisString {
    type V = Seq<u8>;

    closed spec fn view(&self) -> Seq<u8> {
        self.data@
    }
}

impl RedisString {
    /// A string holding `value`.
    pub fn new(value: Vec<u8>) -> (r: Self)
        ensures
            r@ == value@,
    {
        Self { data: value }
    }

    /// The bytes of the string.
    pub fn get(&self) -> (r: &[u8])
        ensures
            r@ == self@,
    {
        self.data.as_slice()
    }

    /// Appends `value` to the string.
    pub fn append(&mut self, value: &[u8])
        ensures
            final(self)@ == old(self)@ + value@,
    {
        append_bytes(&mut self.data, value);
    }

    /// The number of bytes in the string.
    pub fn len(&self) -> (r: usize)
        ensures
            r == self@.len(),
    {
        self.data.len()
    }
}

// ---------------------------------------------------------------- RedisList

/// A list value: a sequence of byte strings.
#[derive(Debug)]
pub struct RedisList {
    data: Vec<Vec<u8>>,
}

impl View for RedisList {
    type V = Seq<Seq<u8>>;

    closed spec fn view(&self) -> Seq<Seq<u8>> {
        byte_seqs(self.data@)
    }
}

impl RedisList {
    /// An empty list.
    pub fn new() -> (r: Self)
        ensures
            r@ == Seq::<Seq<u8>>::empty(),
    {
        let r = Self { data: Vec::new() };
        assert(r@ =~= Seq::<Seq<u8>>::empty());
        r
    }

    /// Puts `value` at the head of the list.
    pub fn push_front(&mut self, value: Vec<u8>)
        ensures
            final(self)@ == seq![value@] + old(self)@,
    {
        self.data.insert(0, value);
        assert(final(self)@ =~= seq![value@] + old(self)@);
    }

    /// Puts `value` at the tail of the list.
    pub fn push_back(&mut self, value: Vec<u8>)
        ensures
            final(self)@ == old(self)@.push(value@),
    {
        proof {
            lemma_byte_seqs_push(self.data@, value);
        }
        self.data.push(value);
    }

    /// Takes the head of the list, if there is one.
    pub fn pop_front(&mut self) -> (r: Option<Vec<u8>>)
        ensures
            old(self)@.len() == 0 ==> r is None && final(self)@ == old(self)@,
            old(self)@.len() > 0 ==> (r matches Some(v) && v@ == old(self)@[0] && final(self)@
                == old(self)@.drop_first()),
    {
        if self.data.is_empty() {
            None
        } else {
            let v = self.data.remove(0);
            assert(final(self)@ =~= old(self)@.drop_first());
            Some(v)
        }
    }

    /// Takes the tail of the list, if there is one.
    pub fn pop_back(&mut self) -> (r: Option<Vec<u8>>)
        ensures
            old(self)@.len() == 0 ==> r is None && final(self)@ == old(self)@,
            old(self)@.len() > 0 ==> (r matches Some(v) && v@ == old(self)@.last()
                && final(self)@ == old(self)@.drop_last()),
    {
        let r = self.data.pop();
        proof {
            if old(self)@.len() > 0 {
                assert(final(self)@ =~= old(self)@.drop_last());
            }
        }
        r
    }

    /// The element at `index`, if the list is that long.
    pub fn get(&self, index: usize) -> (r: Option<&Vec<u8>>)
        ensures
            index < self@.len() ==> (r matches Some(v) && v@ == self@[index as int]),
            index >= self@.len() ==> r is None,
    {
        if index < self.data.len() {
            Some(&self.data[index])
        } else {
            None
        }
    }

    /// Replaces the element at `index` with `value`; does nothing where
    /// the list is not that long.
    pub fn set(&mut self, index: usize, value: Vec<u8>)
        ensures
            index < old(self)@.len() ==> final(self)@ == old(self)@.update(index as int, value@),
            index >= old(self)@.len() ==> final(self)@ == old(self)@,
    {
        if index < self.data.len() {
            self.data.set(index, value);
            assert(final(self)@ =~= old(self)@.update(index as int, value@));
        }
    }

    /// The number of elements.
    pub fn len(&self) -> (r: usize)
        ensures
            r == self@.len(),
    {
        self.data.len()
    }

    /// Removes every element.
    pub fn clear(&mut self)
        ensures
            final(self)@ == Seq::<Seq<u8>>::empty(),
    {
        self.data.clear();
        assert(final(self)@ =~= Seq::<Seq<u8>>::empty());
    }

    /// Makes the list hold exactly `data`.
    pub fn replace(&mut self, data: Vec<Vec<u8>>)
        ensures
            final(self)@ == byte_seqs(data@),
    {
        self.data = data;
    }
}

// ---------------------------------------------------------------- RedisHash

/// A hash value: fields mapped to values, each field at most once.
#[derive(Debug)]
pub struct RedisHash {
    data: Vec<(Vec<u8>, Vec<u8>)>,
}

impl View for RedisHash {
    type V = Seq<(Seq<u8>, Seq<u8>)>;

    closed spec fn view(&self) -> Seq<(Seq<u8>, Seq<u8>)> {
        pair_views(self.data@)
    }
}

impl RedisHash {
    #[verifier::type_invariant]
    spec fn inv(self) -> bool {
        hash_wf(pair_views(self.data@))
    }

    /// An empty hash.
    pub fn new() -> (r: Self)
        ensures
            r@ == Seq::<(Seq<u8>, Seq<u8>)>::empty(),
    {
        let r = Self { data: Vec::new() };
        assert(r@ =~= Seq::<(Seq<u8>, Seq<u8>)>::empty());
        r
    }

    fn find(&self, field: &[u8]) -> (r: Option<usize>)
        ensures
            match r {
                Some(i) => i < self@.len() && hash_keys(self@).contains(field@) && hash_keys(
                    self@,
                ).index_of(field@) == i,
                None => !hash_keys(self@).contains(field@),
            },
    {
        proof {
            use_type_invariant(self);
        }
        let mut i: usize = 0;
        while i < self.data.len()
            invariant
                i <= self.data@.len(),
                hash_wf(self@),
                forall|j: int| 0 <= j < i ==> hash_keys(self@)[j] != field@,
            decreases self.data.len() - i,
        {
            if bytes_eq(self.data[i].0.as_slice(), field) {
                proof {
                    lemma_hash_keys_index(self@, i as int);
                }
                return Some(i);
            }
            i += 1;
        }
        assert(!hash_keys(self@).contains(field@)) by {
            if hash_keys(self@).contains(field@) {
                let j = hash_keys(self@).index_of(field@);
                assert(hash_keys(self@)[j] == field@);
            }
        }
        None
    }

    /// Sets `field` to `value`.
    pub fn set(&mut self, field: Vec<u8>, value: Vec<u8>)
        ensures
            final(self)@ == hash_put(old(self)@, field@, value@),
            hash_wf(final(self)@),
    {
        proof {
            use_type_invariant(&*self);
            lemma_hash_put(self@, field@, value@, field@);
        }
        let found = self.find(field.as_slice());
        let mut data: Vec<(Vec<u8>, Vec<u8>)> = Vec::new();
        std::mem::swap(&mut data, &mut self.data);
        let ghost fv = field@;
        let ghost vv = value@;
        match found {
            Some(i) => {
                data.set(i, (field, value));
            },
            None => {
                proof {
                    lemma_pair_views_push(data@, (field, value));
                }
                data.push((field, value));
            },
        }
        assert(pair_views(data@) =~= hash_put(old(self)@, fv, vv));
        self.data = data;
    }

    /// The value of `field`, if it is set.
    pub fn get(&self, field: &[u8]) -> (r: Option<&Vec<u8>>)
        ensures
            match hash_lookup(self@, field@) {
                Some(v) => r matches Some(x) && x@ == v,
                None => r is None,
            },
    {
        match self.find(field) {
            Some(i) => Some(&self.data[i].1),
            None => None,
        }
    }

    /// Whether `field` is set.
    pub fn field_exists(&self, field: &[u8]) -> (r: bool)
        ensures
            r == hash_keys(self@).contains(field@),
    {
        self.find(field).is_some()
    }

    /// Removes `field`, if it is set.
    pub fn remove(&mut self, field: &[u8])
        ensures
            final(self)@ == hash_without(old(self)@, field@),
            hash_wf(final(self)@),
    {
        proof {
            use_type_invariant(&*self);
            lemma_hash_without(self@, field@, field@);
        }
        match self.find(field) {
            Some(i) => {
                let mut data: Vec<(Vec<u8>, Vec<u8>)> = Vec::new();
                std::mem::swap(&mut data, &mut self.data);
                data.remove(i);
                assert(pair_views(data@) =~= hash_without(old(self)@, field@));
                self.data = data;
            },
            None => {},
        }
    }

    /// The number of fields.
    pub fn len(&self) -> (r: usize)
        ensures
            r == self@.len(),
    {
        self.data.len()
    }

    /// Removes every field.
    pub fn clear(&mut self)
        ensures
            final(self)@ == Seq::<(Seq<u8>, Seq<u8>)>::empty(),
    {
        self.data = Vec::new();
        assert(final(self)@ =~= Seq::<(Seq<u8>, Seq<u8>)>::empty());
    }

    /// The fields, in the order of the entries; no field occurs twice.
    pub fn keys(&self) -> (r: Vec<Vec<u8>>)
        ensures
            byte_seqs(r@) == hash_keys(self@),
            hash_wf(self@),
    {
        proof {
            use_type_invariant(self);
        }
        let mut r: Vec<Vec<u8>> = Vec::new();
        let mut i: usize = 0;
        while i < self.data.len()
            invariant
                i <= self.data@.len(),
                byte_seqs(r@) == hash_keys(self@).take(i as int),
            decreases self.data.len() - i,
        {
            let k = copy_bytes(self.data[i].0.as_slice());
            proof {
                lemma_byte_seqs_push(r@, k);
            }
            r.push(k);
            i += 1;
            assert(byte_seqs(r@) =~= hash_keys(self@).take(i as int));
        }
        assert(hash_keys(self@).take(i as int) =~= hash_keys(self@));
        r
    }

    /// The values, in the order of the entries.
    pub fn values(&self) -> (r: Vec<Vec<u8>>)
        ensures
            byte_seqs(r@) == hash_values(self@),
    {
        let mut r: Vec<Vec<u8>> = Vec::new();
        let mut i: usize = 0;
        while i < self.data.len()
            invariant
                i <= self.data@.len(),
                byte_seqs(r@) == hash_values(self@).take(i as int),
            decreases self.data.len() - i,
        {
            let v = copy_bytes(self.data[i].1.as_slice());
            proof {
                lemma_byte_seqs_push(r@, v);
            }
            r.push(v);
            i += 1;
            assert(byte_seqs(r@) =~= hash_values(self@).take(i as int));
        }
        assert(hash_values(self@).take(i as int) =~= hash_values(self@));
        r
    }

    /// Makes the hash hold the pairs of `data`, a later pair for a field
    /// winning over an earlier one.
    pub fn replace(&mut self, data: Vec<(Vec<u8>, Vec<u8>)>)
        ensures
            final(self)@ == hash_from(pair_views(data@)),
    {
        self.clear();
        let ghost src = pair_views(data@);
        let mut i: usize = 0;
        while i < data.len()
            invariant
                i <= data@.len(),
                src == pair_views(data@),
                self@ == hash_from(src.take(i as int)),
            decreases data.len() - i,
        {
            let k = copy_bytes(data[i].0.as_slice());
            let v = copy_bytes(data[i].1.as_slice());
            proof {
                assert(src.take(i + 1).drop_last() =~= src.take(i as int));
                assert(src.take(i + 1).last() == (k@, v@));
            }
            self.set(k, v);
            i += 1;
        }
        assert(src.take(i as int) =~= src);
    }
}

// ---------------------------------------------------------------- RedisSet

/// A set value: byte strings, each at most once.
#[derive(Debug)]
pub struct RedisSet {
    data: Vec<Vec<u8>>,
}

impl View for RedisSet {
    type V = Seq<Seq<u8>>;

    closed spec fn view(&self) -> Seq<Seq<u8>> {
        byte_seqs(self.data@)
    }
}

impl RedisSet {
    #[verifier::type_invariant]
    spec fn inv(self) -> bool {
        byte_seqs(self.data@).no_duplicates()
    }

    /// An empty set.
    pub fn new() -> (r: Self)
        ensures
            r@ == Seq::<Seq<u8>>::empty(),
    {
        let r = Self { data: Vec::new() };
        assert(r@ =~= Seq::<Seq<u8>>::empty());
        r
    }

    fn find(&self, value: &[u8]) -> (r: Option<usize>)
        ensures
            match r {
                Some(i) => i < self@.len() && self@.contains(value@) && self@.index_of(value@)
                    == i,
                None => !self@.contains(value@),
            },
    {
        proof {
            use_type_invariant(self);
        }
        let mut i: usize = 0;
        while i < self.data.len()
            invariant
                i <= self.data@.len(),
                self@.no_duplicates(),
                forall|j: int| 0 <= j < i ==> self@[j] != value@,
            decreases self.data.len() - i,
        {
            if bytes_eq(self.data[i].as_slice(), value) {
                proof {
                    lemma_index_of_unique(self@, i as int);
                }
                return Some(i);
            }
            i += 1;
        }
        assert(!self@.contains(value@)) by {
            if self@.contains(value@) {
                let j = self@.index_of(value@);
                assert(self@[j] == value@);
            }
        }
        None
    }

    /// Adds `value`.
    pub fn add(&mut self, value: Vec<u8>)
        ensures
            final(self)@ == set_add(old(self)@, value@),
            final(self)@.no_duplicates(),
    {
        proof {
            use_type_invariant(&*self);
            lemma_set_add(self@, value@);
        }
        match self.find(value.as_slice()) {
            Some(_) => {},
            None => {
                let mut data: Vec<Vec<u8>> = Vec::new();
                std::mem::swap(&mut data, &mut self.data);
                proof {
                    lemma_byte_seqs_push(data@, value);
                }
                data.push(value);
                self.data = data;
            },
        }
    }

    /// Removes `value`, if it is a member.
    pub fn remove(&mut self, value: &[u8])
        ensures
            final(self)@ == set_remove(old(self)@, value@),
            final(self)@.no_duplicates(),
    {
        proof {
            use_type_invariant(&*self);
            lemma_set_remove(self@, value@);
        }
        match self.find(value) {
            Some(i) => {
                let mut data: Vec<Vec<u8>> = Vec::new();
                std::mem::swap(&mut data, &mut self.data);
                data.remove(i);
                assert(byte_seqs(data@) =~= set_remove(old(self)@, value@));
                self.data = data;
            },
            None => {},
        }
    }

    /// Whether `value` is a member.
    pub fn contains(&self, value: &[u8]) -> (r: bool)
        ensures
            r == self@.contains(value@),
    {
        self.find(value).is_some()
    }

    /// The number of members.
    pub fn len(&self) -> (r: usize)
        ensures
            r == self@.len(),
    {
        self.data.len()
    }

    /// Removes every member.
    pub fn clear(&mut self)
        ensures
            final(self)@ == Seq::<Seq<u8>>::empty(),
    {
        self.data = Vec::new();
        assert(final(self)@ =~= Seq::<Seq<u8>>::empty());
    }

    /// The members, in the order in which they were added; none occurs twice.
    pub fn values(&self) -> (r: Vec<Vec<u8>>)
        ensures
            byte_seqs(r@) == self@,
            self@.no_duplicates(),
    {
        proof {
            use_type_invariant(self);
        }
        let mut r: Vec<Vec<u8>> = Vec::new();
        let mut i: usize = 0;
        while i < self.data.len()
            invariant
                i <= self.data@.len(),
                byte_seqs(r@) == self@.take(i as int),
            decreases self.data.len() - i,
        {
            let v = copy_bytes(self.data[i].as_slice());
            proof {
                lemma_byte_seqs_push(r@, v);
            }
            r.push(v);
            i += 1;
            assert(byte_seqs(r@) =~= self@.take(i as int));
        }
        assert(self@.take(i as int) =~= self@);
        r
    }

    /// Makes the set hold the distinct elements of `data`, in the order in
    /// which they first occur.
    pub fn replace(&mut self, data: Vec<Vec<u8>>)
        ensures
            final(self)@ == set_from(byte_seqs(data@)),
    {
        self.clear();
        let ghost src = byte_seqs(data@);
        let mut i: usize = 0;
        while i < data.len()
            invariant
                i <= data@.len(),
                src == byte_seqs(data@),
                self@ == set_from(src.take(i as int)),
            decreases data.len() - i,
        {
            let v = copy_bytes(data[i].as_slice());
            proof {
                assert(src.take(i + 1).drop_last() =~= src.take(i as int));
                assert(src.take(i + 1).last() == v@);
            }
            self.add(v);
            i += 1;
        }
        assert(src.take(i as int) =~= src);
    }
}

// ---------------------------------------------------------------- RedisValue

/// A value stored under a key.
#[derive(Debug)]
pub enum RedisValue {
    String(RedisString),
    List(RedisList),
    Hash(RedisHash),
    SetValue(RedisSet),
}

/// What a stored value holds.
pub enum ValueView {
    Str(Seq<u8>),
    List(Seq<Seq<u8>>),
    Hash(Seq<(Seq<u8>, Seq<u8>)>),
    Members(Seq<Seq<u8>>),
}

/// Whether a stored value keeps the rules of its kind: a hash lists no
/// field twice and a set no member twice.
pub open spec fn value_wf(v: ValueView) -> bool {
    match v {
        ValueView::Hash(e) => hash_wf(e),
        ValueView::Members(s) => s.no_duplicates(),
        _ => true,
    }
}

impl RedisValue {
    /// Brings out that `self` keeps the rules of its kind, which the hash
    /// and set types hold as their invariants; it does nothing at run time.
    pub(crate) fn note_wf(&self)
        ensures
            value_wf(self@),
    {
        match self {
            RedisValue::Hash(h) => {
                proof {
                    use_type_invariant(h);
                }
            },
            RedisValue::SetValue(s) => {
                proof {
                    use_type_invariant(s);
                }
            },
            _ => {},
        }
    }
}

impl View for RedisValue {
    type V = ValueView;

    open spec fn view(&self) -> ValueView {
        match self {
            RedisValue::String(s) => ValueView::Str(s@),
            RedisValue::List(l) => ValueView::List(l@),
            RedisValue::Hash(h) => ValueView::Hash(h@),
            RedisValue::SetValue(s) => ValueView::Members(s@),
        }
    }
}

} // verus!
