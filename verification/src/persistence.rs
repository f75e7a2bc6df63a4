//! The command log: the record written for a command, rebuilding the key
//! space from the log, and the batching of records before they are written.

use vstd::prelude::*;
use vstd::string::*;
use vstd::utf8::*;
use crate::codec::append_bytes;
use crate::commands::{ub, GetRedisHash, GetRedisList, GetRedisSet};
use crate::redis::{
    hash_put, hash_without, set_add, set_remove, RedisHash, RedisList, RedisSet, RedisString,
    RedisValue, ValueView,
};
use crate::store::Store;
use crate::text::{
    char_seqs, chars_of, is_text, lines, parse_usize, parse_usize_chars, split_lines, split_words,
    utf8_of, words,
};

verus! {

broadcast use encode_utf8_decode_utf8, encode_utf8_valid_utf8;

/// The record that the command log holds for `command`: the command, a
/// space and a newline.
pub open spec fn log_record_of(command: Seq<char>) -> Seq<char> {
    command + " \n"@
}

/// The record to append to the command log for `command`.
pub fn log_record(command: &str) -> (r: String)
    ensures
        r@ == log_record_of(command@),
{
    let mut r = command.to_string();
    r.append(" \n");
    r
}

/// The key space after the value under `k`, if it is a list, is changed by `f`.
pub open spec fn on_list(
    m: Map<Seq<u8>, ValueView>,
    k: Seq<u8>,
    f: spec_fn(Seq<Seq<u8>>) -> Seq<Seq<u8>>,
) -> Map<Seq<u8>, ValueView> {
    match m[k] {
        ValueView::List(l) => m.insert(k, ValueView::List(f(l))),
        _ => m,
    }
}

/// The key space after the value under `k`, if it is a hash, is changed by `f`.
pub open spec fn on_hash(
    m: Map<Seq<u8>, ValueView>,
    k: Seq<u8>,
    f: spec_fn(Seq<(Seq<u8>, Seq<u8>)>) -> Seq<(Seq<u8>, Seq<u8>)>,
) -> Map<Seq<u8>, ValueView> {
    match m[k] {
        ValueView::Hash(h) => m.insert(k, ValueView::Hash(f(h))),
        _ => m,
    }
}

/// The key space after the value under `k`, if it is a set, is changed by `f`.
pub open spec fn on_set(
    m: Map<Seq<u8>, ValueView>,
    k: Seq<u8>,
    f: spec_fn(Seq<Seq<u8>>) -> Seq<Seq<u8>>,
) -> Map<Seq<u8>, ValueView> {
    match m[k] {
        ValueView::Members(s) => m.insert(k, ValueView::Members(f(s))),
        _ => m,
    }
}

/// What one logged command, with words `w`, does to the key space when the
/// log is replayed; `None` where the line is one that replay cannot take
/// (an empty line, too few words, an index that is not a number, or a
/// command on a key that does not exist).
pub open spec fn replay_step(m: Map<Seq<u8>, ValueView>, w: Seq<Seq<char>>) -> Option<
    Map<Seq<u8>, ValueView>,
> {
    if w.len() == 0 {
        None
    } else {
        let op = w[0];
        if op == "set"@ || op == "append"@ {
            if w.len() < 3 {
                None
            } else {
                Some(m.insert(ub(w[1]), ValueView::Str(ub(w[2]))))
            }
        } else if op == "lcreate"@ || op == "hcreate"@ || op == "screate"@ {
            if w.len() < 2 {
                None
            } else {
                Some(
                    m.insert(
                        ub(w[1]),
                        if op == "lcreate"@ {
                            ValueView::List(seq![])
                        } else if op == "hcreate"@ {
                            ValueView::Hash(seq![])
                        } else {
                            ValueView::Members(seq![])
                        },
                    ),
                )
            }
        } else if op == "lpush"@ || op == "rpush"@ || op == "hdel"@ || op == "sadd"@ || op
            == "srem"@ {
            if w.len() < 3 || !m.dom().contains(ub(w[1])) {
                None
            } else {
                let k = ub(w[1]);
                let v = ub(w[2]);
                Some(
                    if op == "lpush"@ {
                        on_list(m, k, |l: Seq<Seq<u8>>| seq![v] + l)
                    } else if op == "rpush"@ {
                        on_list(m, k, |l: Seq<Seq<u8>>| l.push(v))
                    } else if op == "hdel"@ {
                        on_hash(m, k, |h: Seq<(Seq<u8>, Seq<u8>)>| hash_without(h, v))
                    } else if op == "sadd"@ {
                        on_set(m, k, |s: Seq<Seq<u8>>| set_add(s, v))
                    } else {
                        on_set(m, k, |s: Seq<Seq<u8>>| set_remove(s, v))
                    },
                )
            }
        } else if op == "lpop"@ || op == "rpop"@ || op == "lclear"@ || op == "hclear"@ || op
            == "sclear"@ {
            if w.len() < 2 || !m.dom().contains(ub(w[1])) {
                None
            } else {
                let k = ub(w[1]);
                Some(
                    if op == "lpop"@ {
                        on_list(
                            m,
                            k,
                            |l: Seq<Seq<u8>>|
                                if l.len() == 0 {
                                    l
                                } else {
                                    l.drop_first()
                                },
                        )
                    } else if op == "rpop"@ {
                        on_list(
                            m,
                            k,
                            |l: Seq<Seq<u8>>|
                                if l.len() == 0 {
                                    l
                                } else {
                                    l.drop_last()
                                },
                        )
                    } else if op == "lclear"@ {
                        on_list(m, k, |l: Seq<Seq<u8>>| Seq::<Seq<u8>>::empty())
                    } else if op == "hclear"@ {
                        on_hash(
                            m,
                            k,
                            |h: Seq<(Seq<u8>, Seq<u8>)>| Seq::<(Seq<u8>, Seq<u8>)>::empty(),
                        )
                    } else {
                        on_set(m, k, |s: Seq<Seq<u8>>| Seq::<Seq<u8>>::empty())
                    },
                )
            }
        } else if op == "lset"@ {
            if w.len() < 4 {
                None
            } else {
                match parse_usize(w[2]) {
                    None => None,
                    Some(i) => if !m.dom().contains(ub(w[1])) {
                        None
                    } else {
                        Some(
                            on_list(
                                m,
                                ub(w[1]),
                                |l: Seq<Seq<u8>>|
                                    if i < l.len() {
                                        l.update(i as int, ub(w[3]))
                                    } else {
                                        l
                                    },
                            ),
                        )
                    },
                }
            }
        } else if op == "hset"@ {
            if w.len() < 4 || !m.dom().contains(ub(w[1])) {
                None
            } else {
                Some(
                    on_hash(
                        m,
                        ub(w[1]),
                        |h: Seq<(Seq<u8>, Seq<u8>)>| hash_put(h, ub(w[2]), ub(w[3])),
                    ),
                )
            }
        } else {
            Some(m)
        }
    }
}

/// Replays the log lines `ls` in order from the key space `m`; `None` where
/// some line is one that replay cannot take.
pub open spec fn replay(m: Map<Seq<u8>, ValueView>, ls: Seq<Seq<char>>) -> Option<
    Map<Seq<u8>, ValueView>,
>
    decreases ls.len(),
{
    if ls.len() == 0 {
        Some(m)
    } else {
        match replay(m, ls.drop_last()) {
            None => None,
            Some(m1) => replay_step(m1, words(ls.last())),
        }
    }
}

/// The key space that the command log `content` describes, where replay
/// can take every line of it.
pub open spec fn reconstructed(content: Seq<char>) -> Option<Map<Seq<u8>, ValueView>> {
    replay(Map::empty(), lines(content))
}

/// Replays one logged command on `store`; `false` where the line is one
/// that replay cannot take, and then the store is not to be used.
fn replay_line(store: &mut Store, w: &Vec<Vec<char>>) -> (ok: bool)
    ensures
        ok == replay_step(old(store)@, char_seqs(w@)) is Some,
        ok ==> final(store)@ == replay_step(old(store)@, char_seqs(w@))->Some_0,
{
    let ghost m = store@;
    let ghost ws = char_seqs(w@);
    if w.len() == 0 {
        return false;
    }
    assert(ws[0] == w@[0]@);
    let op = &w[0];
    if is_text(op, "set") || is_text(op, "append") {
        if w.len() < 3 {
            return false;
        }
        assert(ws[1] == w@[1]@ && ws[2] == w@[2]@);
        store.insert(utf8_of(&w[1]), RedisValue::String(RedisString::new(utf8_of(&w[2]))));
        true
    } else if is_text(op, "lcreate") || is_text(op, "hcreate") || is_text(op, "screate") {
        if w.len() < 2 {
            return false;
        }
        assert(ws[1] == w@[1]@);
        let v = if is_text(op, "lcreate") {
            RedisValue::List(RedisList::new())
        } else if is_text(op, "hcreate") {
            RedisValue::Hash(RedisHash::new())
        } else {
            RedisValue::SetValue(RedisSet::new())
        };
        store.insert(utf8_of(&w[1]), v);
        true
    } else if is_text(op, "lpush") || is_text(op, "rpush") || is_text(op, "hdel") || is_text(
        op,
        "sadd",
    ) || is_text(op, "srem") {
        if w.len() < 3 {
            return false;
        }
        assert(ws[1] == w@[1]@ && ws[2] == w@[2]@);
        let key = utf8_of(&w[1]);
        let value = utf8_of(&w[2]);
        let mut v = match store.take(key.as_slice()) {
            Some(v) => v,
            None => {
                return false;
            },
        };
        if is_text(op, "lpush") || is_text(op, "rpush") {
            let front = is_text(op, "lpush");
            match GetRedisList(&mut v) {
                Ok(l) => if front {
                    l.push_front(value);
                } else {
                    l.push_back(value);
                },
                Err(_) => {},
            }
        } else if is_text(op, "hdel") {
            match GetRedisHash(&mut v) {
                Ok(h) => h.remove(value.as_slice()),
                Err(_) => {},
            }
        } else {
            let add = is_text(op, "sadd");
            match GetRedisSet(&mut v) {
                Ok(s) => if add {
                    s.add(value);
                } else {
                    s.remove(value.as_slice());
                },
                Err(_) => {},
            }
        }
        store.insert(key, v);
        assert(store@ =~= replay_step(m, ws)->Some_0);
        true
    } else if is_text(op, "lpop") || is_text(op, "rpop") || is_text(op, "lclear") || is_text(
        op,
        "hclear",
    ) || is_text(op, "sclear") {
        if w.len() < 2 {
            return false;
        }
        assert(ws[1] == w@[1]@);
        let key = utf8_of(&w[1]);
        let mut v = match store.take(key.as_slice()) {
            Some(v) => v,
            None => {
                return false;
            },
        };
        if is_text(op, "lpop") || is_text(op, "rpop") || is_text(op, "lclear") {
            let which = if is_text(op, "lpop") {
                0u8
            } else if is_text(op, "rpop") {
                1u8
            } else {
                2u8
            };
            match GetRedisList(&mut v) {
                Ok(l) => {
                    if which == 0 {
                        let _ = l.pop_front();
                    } else if which == 1 {
                        let _ = l.pop_back();
                    } else {
                        l.clear();
                    }
                },
                Err(_) => {},
            }
        } else if is_text(op, "hclear") {
            match GetRedisHash(&mut v) {
                Ok(h) => h.clear(),
                Err(_) => {},
            }
        } else {
            match GetRedisSet(&mut v) {
                Ok(s) => s.clear(),
                Err(_) => {},
            }
        }
        store.insert(key, v);
        assert(store@ =~= replay_step(m, ws)->Some_0);
        true
    } else if is_text(op, "lset") {
        if w.len() < 4 {
            return false;
        }
        assert(ws[1] == w@[1]@ && ws[2] == w@[2]@ && ws[3] == w@[3]@);
        let index = match parse_usize_chars(&w[2]) {
            Some(i) => i,
            None => {
                return false;
            },
        };
        let key = utf8_of(&w[1]);
        let value = utf8_of(&w[3]);
        let mut v = match store.take(key.as_slice()) {
            Some(v) => v,
            None => {
                return false;
            },
        };
        match GetRedisList(&mut v) {
            Ok(l) => l.set(index, value),
            Err(_) => {},
        }
        store.insert(key, v);
        assert(store@ =~= replay_step(m, ws)->Some_0);
        true
    } else if is_text(op, "hset") {
        if w.len() < 4 {
            return false;
        }
        assert(ws[1] == w@[1]@ && ws[2] == w@[2]@ && ws[3] == w@[3]@);
        let key = utf8_of(&w[1]);
        let field = utf8_of(&w[2]);
        let value = utf8_of(&w[3]);
        let mut v = match store.take(key.as_slice()) {
            Some(v) => v,
            None => {
                return false;
            },
        };
        match GetRedisHash(&mut v) {
            Ok(h) => h.set(field, value),
            Err(_) => {},
        }
        store.insert(key, v);
        assert(store@ =~= replay_step(m, ws)->Some_0);
        true
    } else {
        true
    }
}

/// Rebuilds the key space from the command log `content`, or `None` where
/// some line of it is one that replay cannot take.
pub fn try_reconstruct(content: &str) -> (r: Option<Store>)
    ensures
        match reconstructed(content@) {
            Some(m) => r matches Some(s) && s@ == m,
            None => r is None,
        },
{
    let cs = chars_of(content);
    let ls = split_lines(&cs);
    let ghost lv = char_seqs(ls@);
    let mut store = Store::new();
    let mut i: usize = 0;
    assert(lv.take(0) =~= Seq::<Seq<char>>::empty());
    while i < ls.len()
        invariant
            i <= ls@.len(),
            lv == char_seqs(ls@),
            lv == lines(content@),
            replay(Map::empty(), lv.take(i as int)) == Some(store@),
        decreases ls.len() - i,
    {
        let w = split_words(&ls[i]);
        assert(lv[i as int] == ls@[i as int]@);
        proof {
            assert(lv.take(i + 1).drop_last() =~= lv.take(i as int));
            assert(lv.take(i + 1).last() == lv[i as int]);
        }
        if !replay_line(&mut store, &w) {
            proof {
                lemma_replay_stuck(lv, i as int + 1);
            }
            return None;
        }
        i += 1;
    }
    assert(lv.take(i as int) =~= lv);
    Some(store)
}

/// Once replay cannot take a line, it cannot take the log.
proof fn lemma_replay_stuck(ls: Seq<Seq<char>>, k: int)
    requires
        0 <= k <= ls.len(),
        replay(Map::empty(), ls.take(k)) is None,
    ensures
        replay(Map::empty(), ls) is None,
    decreases ls.len() - k,
{
    if k < ls.len() {
        assert(ls.take(k + 1).drop_last() =~= ls.take(k));
        lemma_replay_stuck(ls, k + 1);
    } else {
        assert(ls.take(k) =~= ls);
    }
}

/// Rebuilds the key space from the command log `content`: each line a
/// logged command, replayed in order.
pub fn ReconstructLogFile(content: &str) -> (r: Store)
    requires
        reconstructed(content@) is Some,
    ensures
        r@ == reconstructed(content@)->Some_0,
{
    match try_reconstruct(content) {
        Some(s) => s,
        None => Store::new(),
    }
}

/// The records gathered for one write to the command log.
pub struct LogBatch {
    buffer: Vec<u8>,
}

/// The size at which a batch is written without waiting for more records.
pub open spec fn batch_limit() -> nat {
    65536
}

/// The bytes of the records `cs`, each followed by a newline.
pub open spec fn batch_bytes(cs: Seq<Seq<char>>) -> Seq<u8>
    decreases cs.len(),
{
    if cs.len() == 0 {
        seq![]
    } else {
        batch_bytes(cs.drop_last()) + encode_utf8(cs.last()).push(10u8)
    }
}

impl View for LogBatch {
    type V = Seq<u8>;

    closed spec fn view(&self) -> Seq<u8> {
        self.buffer@
    }
}

impl LogBatch {
    /// A batch that starts with the record `first`.
    pub fn start(first: &str) -> (r: Self)
        ensures
            r@ == batch_bytes(seq![first@]),
    {
        let mut b = LogBatch { buffer: Vec::new() };
        assert(b@ =~= Seq::<u8>::empty());
        let _ = b.add(first);
        assert(seq![first@].drop_last() =~= Seq::<Seq<char>>::empty());
        assert(seq![first@].last() == first@);
        assert(batch_bytes(Seq::<Seq<char>>::empty()) == Seq::<u8>::empty());
        assert(b@ =~= batch_bytes(seq![first@]));
        b
    }

    /// Adds the record `command` to the batch; `true` once the batch has
    /// reached the size at which it is to be written.
    pub fn add(&mut self, command: &str) -> (full: bool)
        ensures
            final(self)@ == old(self)@ + encode_utf8(command@).push(10u8),
            full == (final(self)@.len() >= batch_limit()),
    {
        let b = command.as_bytes_vec();
        append_bytes(&mut self.buffer, b.as_slice());
        self.buffer.push(10u8);
        assert(final(self)@ =~= old(self)@ + encode_utf8(command@).push(10u8));
        self.buffer.len() >= 65536
    }

    /// The bytes to write.
    pub fn bytes(&self) -> (r: &[u8])
        ensures
            r@ == self@,
    {
        self.buffer.as_slice()
    }
}

} // verus!
