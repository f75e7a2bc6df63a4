//! Expiration bookkeeping: keys with the time at which each expires, the
//! earliest first. A time is a count of clock ticks.

use vstd::prelude::*;
use crate::codec::copy_bytes;

verus! {

/// A key and the time at which it expires.
#[derive(Debug)]
pub struct Ttl {
    pub key: Vec<u8>,
    pub expiration: u64,
}

/// The view of an expiration entry.
pub open spec fn ttl_view(t: Ttl) -> (Seq<u8>, u64) {
    (t.key@, t.expiration)
}

/// The views of expiration entries.
pub open spec fn ttl_views(v: Seq<Ttl>) -> Seq<(Seq<u8>, u64)> {
    v.map_values(|t: Ttl| ttl_view(t))
}

/// Whether the entries are in order of expiration, the earliest first.
pub open spec fn by_expiration(s: Seq<(Seq<u8>, u64)>) -> bool {
    forall|i: int, j: int| 0 <= i <= j < s.len() ==> s[i].1 <= s[j].1
}

/// The entries with `x` added after every entry that expires no later
/// than it and before every entry that expires later.
pub open spec fn ttl_insert(s: Seq<(Seq<u8>, u64)>, x: (Seq<u8>, u64)) -> Seq<(Seq<u8>, u64)>
    decreases s.len(),
{
    if s.len() == 0 {
        seq![x]
    } else if s[0].1 > x.1 {
        seq![x] + s
    } else {
        seq![s[0]] + ttl_insert(s.drop_first(), x)
    }
}

proof fn lemma_ttl_insert(s: Seq<(Seq<u8>, u64)>, x: (Seq<u8>, u64), k: int)
    requires
        0 <= k <= s.len(),
        forall|j: int| 0 <= j < k ==> #[trigger] s[j].1 <= x.1,
        k < s.len() ==> s[k].1 > x.1,
    ensures
        ttl_insert(s, x) == s.insert(k, x),
    decreases s.len(),
{
    if s.len() == 0 {
        assert(s.insert(k, x) =~= seq![x]);
    } else if k == 0 {
        assert(s.insert(0, x) =~= seq![x] + s);
    } else {
        assert forall|j: int| 0 <= j < k - 1 implies #[trigger] s.drop_first()[j].1 <= x.1 by {
            assert(s.drop_first()[j] == s[j + 1]);
        }
        if k < s.len() {
            assert(s.drop_first()[k - 1] == s[k]);
        }
        lemma_ttl_insert(s.drop_first(), x, k - 1);
        assert(seq![s[0]] + s.drop_first().insert(k - 1, x) =~= s.insert(k, x));
    }
}

/// The keys that are to expire, the earliest first.
pub struct TtlManager {
    heap: Vec<Ttl>,
}

impl View for TtlManager {
    type V = Seq<(Seq<u8>, u64)>;

    closed spec fn view(&self) -> Seq<(Seq<u8>, u64)> {
        ttl_views(self.heap@)
    }
}

impl TtlManager {
    #[verifier::type_invariant]
    spec fn inv(self) -> bool {
        by_expiration(ttl_views(self.heap@))
    }

    /// No entries.
    pub fn new() -> (r: Self)
        ensures
            r@ == Seq::<(Seq<u8>, u64)>::empty(),
    {
        let r = TtlManager { heap: Vec::new() };
        assert(r@ =~= Seq::<(Seq<u8>, u64)>::empty());
        r
    }

    /// Records that `key` expires at `expiration`.
    pub fn set_ttl(&mut self, key: Vec<u8>, expiration: u64)
        ensures
            final(self)@ == ttl_insert(old(self)@, (key@, expiration)),
            by_expiration(final(self)@),
    {
        proof {
            use_type_invariant(&*self);
        }
        let ghost s = self@;
        let ghost x = (key@, expiration);
        let mut k: usize = 0;
        while k < self.heap.len() && self.heap[k].expiration <= expiration
            invariant
                k <= self.heap@.len(),
                s == ttl_views(self.heap@),
                forall|j: int| 0 <= j < k ==> #[trigger] s[j].1 <= expiration,
            decreases self.heap.len() - k,
        {
            k += 1;
        }
        proof {
            lemma_ttl_insert(s, x, k as int);
        }
        let mut heap: Vec<Ttl> = Vec::new();
        std::mem::swap(&mut heap, &mut self.heap);
        heap.insert(k, Ttl { key, expiration });
        assert(ttl_views(heap@) =~= s.insert(k as int, x));
        assert(by_expiration(ttl_views(heap@))) by {
            let t = ttl_views(heap@);
            assert forall|i: int, j: int| 0 <= i <= j < t.len() implies t[i].1 <= t[j].1 by {
                let i1 = if i < k {
                    i
                } else if i == k {
                    -1
                } else {
                    i - 1
                };
                let j1 = if j < k {
                    j
                } else if j == k {
                    -1
                } else {
                    j - 1
                };
                if i1 >= 0 {
                    assert(t[i] == s[i1]);
                }
                if j1 >= 0 {
                    assert(t[j] == s[j1]);
                }
                if j == k && i < k {
                    assert(t[j].1 == expiration);
                }
                if i == k && j > k {
                    assert(t[i].1 == expiration);
                    if j - 1 < s.len() && k < s.len() {
                        assert(s[k as int].1 <= s[j - 1].1);
                    }
                }
            }
        }
        self.heap = heap;
    }

    /// The entry that expires first, if there is one.
    pub fn next_expiration(&self) -> (r: Option<&Ttl>)
        ensures
            self@.len() == 0 ==> r is None,
            self@.len() > 0 ==> (r matches Some(t) && ttl_view(*t) == self@[0]),
            forall|i: int| 0 <= i < self@.len() ==> self@[0].1 <= #[trigger] self@[i].1,
    {
        proof {
            use_type_invariant(self);
        }
        if self.heap.len() == 0 {
            None
        } else {
            Some(&self.heap[0])
        }
    }

    /// Takes the entry that expires first, if it expires at or before `now`.
    pub fn pop_expired(&mut self, now: u64) -> (r: Option<Ttl>)
        ensures
            old(self)@.len() > 0 && old(self)@[0].1 <= now ==> (r matches Some(t) && ttl_view(t)
                == old(self)@[0] && final(self)@ == old(self)@.drop_first()),
            !(old(self)@.len() > 0 && old(self)@[0].1 <= now) ==> r is None && final(self)@
                == old(self)@,
            forall|i: int| 0 <= i < old(self)@.len() ==> old(self)@[0].1 <= #[trigger] old(
                self,
            )@[i].1,
            by_expiration(final(self)@),
    {
        proof {
            use_type_invariant(&*self);
        }
        if self.heap.len() > 0 && self.heap[0].expiration <= now {
            let ghost s = self@;
            let mut heap: Vec<Ttl> = Vec::new();
            std::mem::swap(&mut heap, &mut self.heap);
            let t = heap.remove(0);
            assert(ttl_views(heap@) =~= s.drop_first());
            assert(by_expiration(ttl_views(heap@))) by {
                let d = ttl_views(heap@);
                assert forall|i: int, j: int| 0 <= i <= j < d.len() implies d[i].1 <= d[j].1 by {
                    assert(d[i] == s[i + 1] && d[j] == s[j + 1]);
                }
            }
            self.heap = heap;
            Some(t)
        } else {
            None
        }
    }
}

/// The entry that expires first expires no later than any other.
pub proof fn lemma_first_is_earliest(s: Seq<(Seq<u8>, u64)>, i: int)
    requires
        by_expiration(s),
        0 <= i < s.len(),
    ensures
        s[0].1 <= s[i].1,
{
}

} // verus!
