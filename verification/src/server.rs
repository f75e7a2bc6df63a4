//! The server's state: the key space, the channels and the connected clients.

use vstd::prelude::*;
use crate::pubsub::Channels;
use crate::redis::{RedisHash, RedisList, RedisSet, RedisString, RedisValue, ValueView};
use crate::store::Store;

verus! {

/// The whole state of the server. A client is known by a number that the
/// connection layer gives it.
pub struct RedisServer {
    pub data: Store,
    pub channels: Channels,
    pub clients: Vec<u64>,
}

impl RedisServer {
    /// A server with no keys, no channels and no clients.
    pub fn new() -> (r: Self)
        ensures
            r.data@ == Map::<Seq<u8>, ValueView>::empty(),
            r.channels@ == Map::<Seq<u8>, Seq<u64>>::empty(),
            r.clients@ == Seq::<u64>::empty(),
    {
        RedisServer { data: Store::new(), channels: Channels::new(), clients: Vec::new() }
    }

    /// Stores the string `value` under `key`, in place of what was there.
    pub fn create_string(&mut self, key: Vec<u8>, value: Vec<u8>)
        ensures
            final(self).data@ == old(self).data@.insert(key@, ValueView::Str(value@)),
            final(self).channels@ == old(self).channels@,
            final(self).clients@ == old(self).clients@,
    {
        self.data.insert(key, RedisValue::String(RedisString::new(value)));
    }

    /// Stores an empty list under `key`, in place of what was there.
    pub fn create_list(&mut self, key: Vec<u8>)
        ensures
            final(self).data@ == old(self).data@.insert(key@, ValueView::List(seq![])),
            final(self).channels@ == old(self).channels@,
            final(self).clients@ == old(self).clients@,
    {
        self.data.insert(key, RedisValue::List(RedisList::new()));
    }

    /// Stores an empty hash under `key`, in place of what was there.
    pub fn create_hash(&mut self, key: Vec<u8>)
        ensures
            final(self).data@ == old(self).data@.insert(key@, ValueView::Hash(seq![])),
            final(self).channels@ == old(self).channels@,
            final(self).clients@ == old(self).clients@,
    {
        self.data.insert(key, RedisValue::Hash(RedisHash::new()));
    }

    /// Stores an empty set under `key`, in place of what was there.
    pub fn create_set(&mut self, key: Vec<u8>)
        ensures
            final(self).data@ == old(self).data@.insert(key@, ValueView::Members(seq![])),
            final(self).channels@ == old(self).channels@,
            final(self).clients@ == old(self).clients@,
    {
        self.data.insert(key, RedisValue::SetValue(RedisSet::new()));
    }

    /// Whether a value is stored under `key`.
    pub fn key_exists(&self, key: &[u8]) -> (r: bool)
        ensures
            r == self.data@.dom().contains(key@),
    {
        self.data.contains_key(key)
    }

    /// Removes what is stored under `key`.
    pub fn delete(&mut self, key: &[u8])
        ensures
            final(self).data@ == old(self).data@.remove(key@),
            final(self).channels@ == old(self).channels@,
            final(self).clients@ == old(self).clients@,
    {
        self.data.remove(key);
    }

    /// Records that the client `client` is connected.
    pub fn register_client(&mut self, client: u64)
        ensures
            final(self).clients@ == (if old(self).clients@.contains(client) {
                old(self).clients@
            } else {
                old(self).clients@.push(client)
            }),
            final(self).data@ == old(self).data@,
            final(self).channels@ == old(self).channels@,
    {
        let mut i: usize = 0;
        while i < self.clients.len()
            invariant
                i <= self.clients@.len(),
                forall|j: int| 0 <= j < i ==> self.clients@[j] != client,
            decreases self.clients.len() - i,
        {
            if self.clients[i] == client {
                assert(self.clients@.contains(client));
                return;
            }
            i += 1;
        }
        self.clients.push(client);
    }
}

} // verus!
