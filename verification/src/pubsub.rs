//! Publish/subscribe: channels, their subscribers, and the messages that a
//! publication sends.

use vstd::prelude::*;
use vstd::utf8::encode_utf8;
use crate::codec::{append_bytes, bytes_eq, copy_bytes, u64_be, u64_to_be_bytes};
use crate::error::{ErrorView, ServerError};
use crate::server::RedisServer;
use crate::store::{assoc_keys, assoc_map, lemma_assoc_index, lemma_assoc_push, lemma_assoc_remove};
use crate::text::{
    ascii_lower, char_seqs, chars_of, is_ascii_text, is_text, split_words, string_of, utf8_of,
    words,
};

verus! {

/// The subscribers after `c` subscribes: it goes last unless it is there.
pub open spec fn with_subscriber(s: Seq<u64>, c: u64) -> Seq<u64> {
    if s.contains(c) {
        s
    } else {
        s.push(c)
    }
}

/// The subscribers without `c`.
pub open spec fn without_subscriber(s: Seq<u64>, c: u64) -> Seq<u64> {
    if s.contains(c) {
        s.remove(s.index_of(c))
    } else {
        s
    }
}

/// The channels after `c` subscribes to `ch`.
pub open spec fn channels_subscribe(m: Map<Seq<u8>, Seq<u64>>, ch: Seq<u8>, c: u64) -> Map<
    Seq<u8>,
    Seq<u64>,
> {
    let s = if m.dom().contains(ch) {
        m[ch]
    } else {
        seq![]
    };
    m.insert(ch, with_subscriber(s, c))
}

/// The channels after `c` unsubscribes from `ch`: a channel left with no
/// subscriber goes.
pub open spec fn channels_unsubscribe(m: Map<Seq<u8>, Seq<u64>>, ch: Seq<u8>, c: u64) -> Map<
    Seq<u8>,
    Seq<u64>,
> {
    if m.dom().contains(ch) {
        let s = without_subscriber(m[ch], c);
        if s.len() == 0 {
            m.remove(ch)
        } else {
            m.insert(ch, s)
        }
    } else {
        m
    }
}

/// The subscribers that a publication reaches: those in order up to the
/// first one that is not a connected client.
pub open spec fn reached(subs: Seq<u64>, clients: Seq<u64>) -> Seq<u64>
    decreases subs.len(),
{
    if subs.len() == 0 {
        seq![]
    } else if clients.contains(subs[0]) {
        seq![subs[0]] + reached(subs.drop_first(), clients)
    } else {
        seq![]
    }
}

/// The frame that carries a published message to a subscriber: two status
/// bytes of 1, the length as eight big-endian bytes, the message.
pub open spec fn publication_frame(value: Seq<u8>) -> Seq<u8> {
    seq![1u8, 1u8] + u64_be(value.len() as u64) + value
}

/// The channel name under `ch` in `m`, as subscribers of it.
pub open spec fn subscribers_of(m: Map<Seq<u8>, Seq<u64>>, ch: Seq<u8>) -> Seq<u64> {
    if m.dom().contains(ch) {
        m[ch]
    } else {
        seq![]
    }
}

/// Whether every channel in `m` has at least one subscriber and lists no
/// subscriber twice.
pub open spec fn channels_wf(m: Map<Seq<u8>, Seq<u64>>) -> bool {
    forall|ch: Seq<u8>| #[trigger]
        m.dom().contains(ch) ==> m[ch].len() > 0 && m[ch].no_duplicates()
}

/// Subscribing keeps every channel non-empty and free of repeats.
proof fn lemma_subscribe_wf(m: Map<Seq<u8>, Seq<u64>>, ch: Seq<u8>, c: u64)
    requires
        channels_wf(m),
    ensures
        channels_wf(channels_subscribe(m, ch, c)),
        subscribers_of(channels_subscribe(m, ch, c), ch).contains(c),
{
    let s = subscribers_of(m, ch);
    lemma_with_subscriber(s, c);
    if !s.contains(c) {
        assert(s.push(c)[s.len() as int] == c);
    }
}

/// Unsubscribing keeps every channel non-empty and free of repeats.
proof fn lemma_unsubscribe_wf(m: Map<Seq<u8>, Seq<u64>>, ch: Seq<u8>, c: u64)
    requires
        channels_wf(m),
    ensures
        channels_wf(channels_unsubscribe(m, ch, c)),
{
    if m.dom().contains(ch) {
        lemma_without_subscriber(m[ch], c);
    }
}

/// Channels with the clients subscribed to each.
pub struct Channels {
    entries: Vec<(Vec<u8>, Vec<u64>)>,
}

/// The views of channel entries.
pub open spec fn channel_views(v: Seq<(Vec<u8>, Vec<u64>)>) -> Seq<(Seq<u8>, Seq<u64>)> {
    v.map_values(|p: (Vec<u8>, Vec<u64>)| (p.0@, p.1@))
}

impl View for Channels {
    type V = Map<Seq<u8>, Seq<u64>>;

    closed spec fn view(&self) -> Map<Seq<u8>, Seq<u64>> {
        assoc_map(channel_views(self.entries@))
    }
}

fn find_u64(s: &Vec<u64>, c: u64) -> (r: Option<usize>)
    ensures
        match r {
            Some(i) => i < s@.len() && s@[i as int] == c,
            None => !s@.contains(c),
        },
{
    let mut i: usize = 0;
    while i < s.len()
        invariant
            i <= s@.len(),
            forall|j: int| 0 <= j < i ==> s@[j] != c,
        decreases s.len() - i,
    {
        if s[i] == c {
            return Some(i);
        }
        i += 1;
    }
    None
}

proof fn lemma_index_of_u64(s: Seq<u64>, i: int)
    requires
        s.no_duplicates(),
        0 <= i < s.len(),
    ensures
        s.contains(s[i]),
        s.index_of(s[i]) == i,
{
    assert(s.contains(s[i]));
    let j = s.index_of(s[i]);
    assert(s[j] == s[i]);
}

proof fn lemma_with_subscriber(s: Seq<u64>, c: u64)
    requires
        s.no_duplicates(),
    ensures
        with_subscriber(s, c).no_duplicates(),
{
    if !s.contains(c) {
        assert forall|a: int, b: int|
            0 <= a < b < s.push(c).len() implies s.push(c)[a] != s.push(c)[b] by {
            if b == s.len() {
                assert(s.contains(s[a]));
            }
        }
    }
}

proof fn lemma_without_subscriber(s: Seq<u64>, c: u64)
    requires
        s.no_duplicates(),
    ensures
        without_subscriber(s, c).no_duplicates(),
{
    if s.contains(c) {
        let i = s.index_of(c);
        let s2 = s.remove(i);
        assert forall|a: int, b: int| 0 <= a < b < s2.len() implies s2[a] != s2[b] by {
            let a1 = if a < i {
                a
            } else {
                a + 1
            };
            let b1 = if b < i {
                b
            } else {
                b + 1
            };
            assert(s2[a] == s[a1]);
            assert(s2[b] == s[b1]);
        }
    }
}

impl Channels {
    #[verifier::type_invariant]
    pub(crate) closed spec fn inv(self) -> bool {
        &&& assoc_keys(channel_views(self.entries@)).no_duplicates()
        &&& forall|i: int|
            0 <= i < self.entries@.len() ==> (#[trigger] self.entries@[i]).1@.no_duplicates()
        &&& channels_wf(self@)
    }

    /// Channels that keep their invariant have no empty channel and no
    /// subscriber listed twice.
    pub(crate) proof fn lemma_wf(self)
        requires
            self.inv(),
        ensures
            channels_wf(self@),
    {
    }

    /// No channels.
    pub fn new() -> (r: Self)
        ensures
            r@ == Map::<Seq<u8>, Seq<u64>>::empty(),
            channels_wf(r@),
    {
        let r = Channels { entries: Vec::new() };
        assert(r@ =~= Map::<Seq<u8>, Seq<u64>>::empty());
        r
    }

    fn find(&self, ch: &[u8]) -> (r: Option<usize>)
        ensures
            match r {
                Some(i) => i < self.entries@.len() && self.entries@[i as int].0@ == ch@
                    && self@.dom().contains(ch@) && self@[ch@] == self.entries@[i as int].1@,
                None => !self@.dom().contains(ch@),
            },
    {
        proof {
            use_type_invariant(self);
        }
        let ghost ev = channel_views(self.entries@);
        let mut i: usize = 0;
        while i < self.entries.len()
            invariant
                i <= self.entries@.len(),
                ev == channel_views(self.entries@),
                assoc_keys(ev).no_duplicates(),
                forall|j: int| 0 <= j < i ==> #[trigger] assoc_keys(ev)[j] != ch@,
            decreases self.entries.len() - i,
        {
            if bytes_eq(self.entries[i].0.as_slice(), ch) {
                proof {
                    lemma_assoc_index(ev, i as int);
                }
                return Some(i);
            }
            i += 1;
        }
        assert(!assoc_keys(ev).contains(ch@)) by {
            if assoc_keys(ev).contains(ch@) {
                let j = assoc_keys(ev).index_of(ch@);
                assert(assoc_keys(ev)[j] == ch@);
            }
        }
        None
    }

    /// The clients subscribed to `ch`, in the order in which they
    /// subscribed; none is listed twice.
    pub fn subscribers(&self, ch: &[u8]) -> (r: Vec<u64>)
        ensures
            r@ == subscribers_of(self@, ch@),
            r@.no_duplicates(),
            channels_wf(self@),
    {
        proof {
            use_type_invariant(self);
        }
        match self.find(ch) {
            Some(i) => self.entries[i].1.clone(),
            None => Vec::new(),
        }
    }

    /// Takes the entry for `ch` out, if there is one.
    fn take(&mut self, ch: &[u8]) -> (r: Option<Vec<u64>>)
        ensures
            match r {
                Some(s) => old(self)@.dom().contains(ch@) && s@ == old(self)@[ch@]
                    && s@.no_duplicates() && final(self)@ == old(self)@.remove(ch@),
                None => !old(self)@.dom().contains(ch@) && final(self)@ == old(self)@,
            },
    {
        proof {
            use_type_invariant(&*self);
        }
        match self.find(ch) {
            Some(i) => {
                let ghost ev = channel_views(self.entries@);
                proof {
                    lemma_assoc_index(ev, i as int);
                    lemma_assoc_remove(ev, i as int);
                }
                let mut entries: Vec<(Vec<u8>, Vec<u64>)> = Vec::new();
                std::mem::swap(&mut entries, &mut self.entries);
                let ghost before = entries@;
                let (_, s) = entries.remove(i);
                assert(channel_views(entries@) =~= ev.remove(i as int));
                assert(assoc_map(channel_views(entries@)) =~= old(self)@.remove(ch@));
                assert forall|j: int| 0 <= j < entries@.len() implies (
                #[trigger] entries@[j]).1@.no_duplicates() by {
                    if j < i {
                        assert(entries@[j] == before[j]);
                    } else {
                        assert(entries@[j] == before[j + 1]);
                    }
                }
                self.entries = entries;
                Some(s)
            },
            None => None,
        }
    }

    /// Puts an entry for `ch`, which must be absent, back.
    fn put(&mut self, ch: Vec<u8>, s: Vec<u64>)
        requires
            !old(self)@.dom().contains(ch@),
            s@.no_duplicates(),
            s@.len() > 0,
        ensures
            final(self)@ == old(self)@.insert(ch@, s@),
    {
        proof {
            use_type_invariant(&*self);
        }
        let ghost ev = channel_views(self.entries@);
        let ghost kv = ch@;
        let ghost sv = s@;
        proof {
            assert(!assoc_keys(ev).contains(kv));
            lemma_assoc_push(ev, kv, sv);
        }
        let mut entries: Vec<(Vec<u8>, Vec<u64>)> = Vec::new();
        std::mem::swap(&mut entries, &mut self.entries);
        let ghost before = entries@;
        entries.push((ch, s));
        assert(channel_views(entries@) =~= ev.push((kv, sv)));
        assert(assoc_map(channel_views(entries@)) =~= old(self)@.insert(kv, sv));
        assert forall|j: int| 0 <= j < entries@.len() implies (
        #[trigger] entries@[j]).1@.no_duplicates() by {
            if j < before.len() {
                assert(entries@[j] == before[j]);
            }
        }
        self.entries = entries;
    }

    /// Subscribes `client` to `ch`.
    pub fn subscribe(&mut self, ch: Vec<u8>, client: u64)
        ensures
            final(self)@ == channels_subscribe(old(self)@, ch@, client),
            channels_wf(final(self)@),
    {
        proof {
            use_type_invariant(&*self);
            lemma_subscribe_wf(self@, ch@, client);
        }
        let mut s = match self.take(ch.as_slice()) {
            Some(s) => s,
            None => Vec::new(),
        };
        let ghost s0 = s@;
        proof {
            lemma_with_subscriber(s0, client);
        }
        if find_u64(&s, client).is_none() {
            s.push(client);
        }
        assert(s@ == with_subscriber(s0, client));
        assert(s@.len() > 0) by {
            if !s0.contains(client) {
                assert(s@.len() == s0.len() + 1);
            } else {
                assert(s0[s0.index_of(client)] == client);
            }
        }
        self.put(ch, s);
        assert(final(self)@ =~= channels_subscribe(old(self)@, ch@, client));
    }

    /// Unsubscribes `client` from `ch`; a channel left with no subscriber goes.
    pub fn unsubscribe(&mut self, ch: Vec<u8>, client: u64)
        ensures
            final(self)@ == channels_unsubscribe(old(self)@, ch@, client),
            channels_wf(final(self)@),
    {
        proof {
            use_type_invariant(&*self);
            lemma_unsubscribe_wf(self@, ch@, client);
        }
        match self.take(ch.as_slice()) {
            Some(mut s) => {
                let ghost s0 = s@;
                proof {
                    lemma_without_subscriber(s0, client);
                }
                match find_u64(&s, client) {
                    Some(i) => {
                        proof {
                            lemma_index_of_u64(s0, i as int);
                        }
                        s.remove(i);
                    },
                    None => {},
                }
                assert(s@ == without_subscriber(s0, client));
                if s.len() > 0 {
                    self.put(ch, s);
                } else {
                    assert(final(self)@ =~= old(self)@.remove(ch@));
                }
            },
            None => {},
        }
    }
}

impl RedisServer {
    /// Subscribes `client` to the channel `key`.
    pub fn subscribe(&mut self, key: Vec<u8>, client: u64)
        ensures
            final(self).channels@ == channels_subscribe(old(self).channels@, key@, client),
            channels_wf(final(self).channels@),
            final(self).data@ == old(self).data@,
            final(self).clients@ == old(self).clients@,
    {
        self.channels.subscribe(key, client);
    }

    /// Unsubscribes `client` from the channel `key`.
    pub fn unsubscribe(&mut self, key: Vec<u8>, client: u64)
        ensures
            final(self).channels@ == channels_unsubscribe(old(self).channels@, key@, client),
            channels_wf(final(self).channels@),
            final(self).data@ == old(self).data@,
            final(self).clients@ == old(self).clients@,
    {
        self.channels.unsubscribe(key, client);
    }

    /// The deliveries of `value` to `addresses`, in order, up to the first
    /// address that is not a connected client.
    pub fn broadcast(&self, addresses: &Vec<u64>, value: &[u8]) -> (r: Vec<(u64, Vec<u8>)>)
        ensures
            deliveries_view(r@) == reached(addresses@, self.clients@).map_values(
                |c: u64| (c, publication_frame(value@)),
            ),
    {
        let mut frame: Vec<u8> = Vec::new();
        frame.push(1u8);
        frame.push(1u8);
        let len = u64_to_be_bytes(value.len() as u64);
        append_bytes(&mut frame, len.as_slice());
        append_bytes(&mut frame, value);
        assert(frame@ =~= publication_frame(value@));
        let mut r: Vec<(u64, Vec<u8>)> = Vec::new();
        let mut i: usize = 0;
        assert(addresses@.skip(0) =~= addresses@);
        assert(addresses@.take(0) + reached(addresses@, self.clients@) =~= reached(
            addresses@,
            self.clients@,
        ));
        assert(deliveries_view(r@) =~= addresses@.take(0).map_values(
            |c: u64| (c, publication_frame(value@)),
        ));
        while i < addresses.len()
            invariant
                i <= addresses@.len(),
                frame@ == publication_frame(value@),
                forall|j: int| 0 <= j < i ==> self.clients@.contains(#[trigger] addresses@[j]),
                reached(addresses@, self.clients@) == addresses@.take(i as int) + reached(
                    addresses@.skip(i as int),
                    self.clients@,
                ),
                deliveries_view(r@) == addresses@.take(i as int).map_values(
                    |c: u64| (c, publication_frame(value@)),
                ),
            decreases addresses.len() - i,
        {
            let a = addresses[i];
            let ghost rest = addresses@.skip(i as int);
            assert(rest[0] == a);
            assert(rest.drop_first() =~= addresses@.skip(i + 1));
            if find_u64(&self.clients, a).is_none() {
                assert(reached(rest, self.clients@) =~= Seq::<u64>::empty());
                assert(reached(addresses@, self.clients@) =~= addresses@.take(i as int));
                assert(deliveries_view(r@) =~= reached(addresses@, self.clients@).map_values(
                    |c: u64| (c, publication_frame(value@)),
                ));
                return r;
            }
            assert(self.clients@.contains(a)) by {
                let k = choose|k: int| 0 <= k < self.clients@.len() && self.clients@[k] == a;
            }
            let ghost before = r@;
            r.push((a, frame.clone()));
            proof {
                assert(addresses@.take(i + 1) =~= addresses@.take(i as int).push(a));
                assert(addresses@.take(i as int) + reached(rest, self.clients@) =~= addresses@.take(
                    i + 1,
                ) + reached(addresses@.skip(i + 1), self.clients@));
                assert(deliveries_view(r@) =~= deliveries_view(before).push(
                    (a, publication_frame(value@)),
                ));
                assert(deliveries_view(r@) =~= addresses@.take(i + 1).map_values(
                    |c: u64| (c, publication_frame(value@)),
                ));
            }
            i += 1;
        }
        assert(addresses@.skip(i as int) =~= Seq::<u64>::empty());
        assert(addresses@.take(i as int) =~= addresses@);
        assert(reached(addresses@, self.clients@) =~= addresses@);
        r
    }

    /// Publishes `value` on the channel `key`: the deliveries to its
    /// subscribers, as `broadcast` gives them.
    pub fn publish(&self, key: Vec<u8>, value: Vec<u8>) -> (r: Vec<(u64, Vec<u8>)>)
        ensures
            deliveries_view(r@) == reached(subscribers_of(self.channels@, key@), self.clients@).map_values(
                |c: u64| (c, publication_frame(value@)),
            ),
    {
        let addresses = self.channels.subscribers(key.as_slice());
        self.broadcast(&addresses, value.as_slice())
    }
}

/// The views of deliveries.
pub open spec fn deliveries_view(v: Seq<(u64, Vec<u8>)>) -> Seq<(u64, Seq<u8>)> {
    v.map_values(|p: (u64, Vec<u8>)| (p.0, p.1@))
}

/// The lower-case form of a text, as `str::to_lowercase` gives it under the
/// Unicode case tables.
pub uninterp spec fn lowercase(s: Seq<char>) -> Seq<char>;

/// `str::to_lowercase`: the text in lower case. Its result is named by
/// `lowercase`, a function of the text alone. Of an ASCII text it gives
/// the text with `A` to `Z` made `a` to `z` and every other character as
/// it is; of other texts nothing more is stated.
#[verifier::external_body]
pub(crate) fn to_lowercase_text(s: &str) -> (r: String)
    ensures
        r@ == lowercase(s@),
        is_ascii_text(s@) ==> r@ == ascii_lower(s@),
{
    s.to_lowercase()
}

/// What a publish/subscribe command does, given the lower-case form `name`
/// of its first word: the channels after it, its answer, and the messages
/// it sends.
pub open spec fn pubsub_op(
    ch: Map<Seq<u8>, Seq<u64>>,
    clients: Seq<u64>,
    name: Seq<char>,
    w: Seq<Seq<char>>,
    client: u64,
) -> (Map<Seq<u8>, Seq<u64>>, Result<Option<Seq<u8>>, ErrorView>, Seq<(u64, Seq<u8>)>) {
    if name == "subscribe"@ {
        if w.len() < 2 {
            (ch, Err(ErrorView::InvalidRedisCommand("SUBSCRIBE requires a channel"@)), seq![])
        } else {
            (channels_subscribe(ch, encode_utf8(w[1]), client), Ok(None), seq![])
        }
    } else if name == "publish"@ {
        if w.len() < 3 {
            (
                ch,
                Err(ErrorView::InvalidRedisCommand("PUBLISH requires a channel and message"@)),
                seq![],
            )
        } else {
            (
                ch,
                Ok(None),
                reached(subscribers_of(ch, encode_utf8(w[1])), clients).map_values(
                    |c: u64| (c, publication_frame(encode_utf8(w[2]))),
                ),
            )
        }
    } else if name == "unsubscribe"@ {
        if w.len() < 2 {
            (ch, Err(ErrorView::InvalidRedisCommand("UNSUBSCRIBE requires a channel"@)), seq![])
        } else {
            (channels_unsubscribe(ch, encode_utf8(w[1]), client), Ok(None), seq![])
        }
    } else {
        (ch, Err(ErrorView::InvalidRedisCommand("Unknown Pub/Sub command"@)), seq![])
    }
}

/// Runs the publish/subscribe command with words `w`, whose first word in
/// lower case is `name`, for the client `client`; the messages to send go
/// to `outbox`.
pub fn pubsub_command(
    redis: &mut RedisServer,
    name: &Vec<char>,
    w: &Vec<Vec<char>>,
    client: u64,
    outbox: &mut Vec<(u64, Vec<u8>)>,
) -> (r: Result<Option<Vec<u8>>, ServerError>)
    ensures
        final(redis).channels@ == pubsub_op(
            old(redis).channels@,
            old(redis).clients@,
            name@,
            char_seqs(w@),
            client,
        ).0,
        crate::commands::reply_view(r) == pubsub_op(
            old(redis).channels@,
            old(redis).clients@,
            name@,
            char_seqs(w@),
            client,
        ).1,
        deliveries_view(final(outbox)@) == deliveries_view(old(outbox)@) + pubsub_op(
            old(redis).channels@,
            old(redis).clients@,
            name@,
            char_seqs(w@),
            client,
        ).2,
        final(redis).data@ == old(redis).data@,
        final(redis).clients@ == old(redis).clients@,
{
    let ghost ws = char_seqs(w@);
    assert(deliveries_view(old(outbox)@) + seq![] =~= deliveries_view(old(outbox)@));
    if is_text(name, "subscribe") {
        if w.len() < 2 {
            return Err(ServerError::InvalidRedisCommand("SUBSCRIBE requires a channel".to_string()));
        }
        assert(ws[1] == w@[1]@);
        redis.subscribe(utf8_of(&w[1]), client);
        Ok(None)
    } else if is_text(name, "publish") {
        if w.len() < 3 {
            return Err(
                ServerError::InvalidRedisCommand("PUBLISH requires a channel and message".to_string()),
            );
        }
        assert(ws[1] == w@[1]@ && ws[2] == w@[2]@);
        let sent = redis.publish(utf8_of(&w[1]), utf8_of(&w[2]));
        let ghost before = outbox@;
        let mut i: usize = 0;
        while i < sent.len()
            invariant
                i <= sent@.len(),
                deliveries_view(outbox@) == deliveries_view(before) + deliveries_view(
                    sent@.take(i as int),
                ),
            decreases sent.len() - i,
        {
            let d = (sent[i].0, copy_bytes(sent[i].1.as_slice()));
            let ghost ob = outbox@;
            let ghost dv = (d.0, d.1@);
            outbox.push(d);
            proof {
                assert(deliveries_view(outbox@) =~= deliveries_view(ob).push(dv));
                assert(sent@.take(i + 1) =~= sent@.take(i as int).push(sent@[i as int]));
                assert(deliveries_view(sent@.take(i + 1)) =~= deliveries_view(
                    sent@.take(i as int),
                ).push(dv));
            }
            i += 1;
            assert(deliveries_view(outbox@) =~= deliveries_view(before) + deliveries_view(
                sent@.take(i as int),
            ));
        }
        assert(sent@.take(i as int) =~= sent@);
        Ok(None)
    } else if is_text(name, "unsubscribe") {
        if w.len() < 2 {
            return Err(
                ServerError::InvalidRedisCommand("UNSUBSCRIBE requires a channel".to_string()),
            );
        }
        assert(ws[1] == w@[1]@);
        redis.unsubscribe(utf8_of(&w[1]), client);
        Ok(None)
    } else {
        Err(ServerError::InvalidRedisCommand("Unknown Pub/Sub command".to_string()))
    }
}

/// Runs the publish/subscribe command `command` for the client `client`:
/// `subscribe channel`, `publish channel message` or `unsubscribe channel`,
/// its name in any case. The messages to send go to `outbox`.
pub fn HandlePubSub(
    redis: &mut RedisServer,
    command: &str,
    client: u64,
    outbox: &mut Vec<(u64, Vec<u8>)>,
) -> (r: Result<Option<Vec<u8>>, ServerError>)
    ensures
        words(command@).len() == 0 ==> final(redis).channels@ == old(redis).channels@
            && crate::commands::reply_view(r) == Err::<Option<Seq<u8>>, ErrorView>(
            ErrorView::InvalidRedisCommand("No Redis command provided"@),
        ) && final(outbox)@ == old(outbox)@,
        words(command@).len() > 0 ==> {
            let op = pubsub_op(
                old(redis).channels@,
                old(redis).clients@,
                lowercase(words(command@)[0]),
                words(command@),
                client,
            );
            &&& final(redis).channels@ == op.0
            &&& crate::commands::reply_view(r) == op.1
            &&& deliveries_view(final(outbox)@) == deliveries_view(old(outbox)@) + op.2
        },
        final(redis).data@ == old(redis).data@,
        final(redis).clients@ == old(redis).clients@,
        words(command@).len() > 0 && is_ascii_text(words(command@)[0]) ==> lowercase(
            words(command@)[0],
        ) == ascii_lower(words(command@)[0]),
{
    let cs = chars_of(command);
    let w = split_words(&cs);
    if w.len() == 0 {
        return Err(ServerError::InvalidRedisCommand("No Redis command provided".to_string()));
    }
    let first = string_of(&w[0]);
    let lowered = to_lowercase_text(first.as_str());
    let name = chars_of(lowered.as_str());
    pubsub_command(redis, &name, &w, client, outbox)
}

} // verus!
