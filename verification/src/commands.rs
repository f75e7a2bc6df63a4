//! The commands on strings, lists, hashes and sets: what each does to the
//! key space and what it answers.

use vstd::prelude::*;
use vstd::string::*;
use vstd::utf8::*;
use crate::codec::{append_bytes, copy_bytes, u64_be, u64_to_be_bytes};
use crate::error::{ErrorView, ServerError};
use crate::redis::{
    hash_keys, hash_lookup, hash_put, hash_values, hash_without, set_add, set_remove,
    RedisHash, RedisList, RedisSet, RedisString, RedisValue, ValueView,
};
use crate::server::RedisServer;
use crate::text::{
    char_seqs, chars_of, is_text, parse_usize, parse_usize_chars, split_words, string_of,
    utf8_of, words,
};

verus! {

broadcast use encode_utf8_decode_utf8, encode_utf8_valid_utf8;

// ---------------------------------------------------------------- common

/// The bytes of a word.
pub open spec fn ub(w: Seq<char>) -> Seq<u8> {
    encode_utf8(w)
}

/// What a command answers, seen through views.
pub open spec fn reply_view(r: Result<Option<Vec<u8>>, ServerError>) -> Result<
    Option<Seq<u8>>,
    ErrorView,
> {
    match r {
        Ok(Some(v)) => Ok(Some(v@)),
        Ok(None) => Ok(None),
        Err(e) => Err(e@),
    }
}

/// The texts of a sequence of strings.
pub open spec fn string_views(v: Seq<String>) -> Seq<Seq<char>> {
    v.map_values(|s: String| s@)
}

/// A malformed or unknown command.
pub open spec fn cmd_error(msg: Seq<char>) -> ErrorView {
    ErrorView::InvalidRedisCommand(msg)
}

/// The answer to a command whose name is not known.
pub open spec fn unknown_command(name: Seq<char>) -> ErrorView {
    cmd_error("command "@ + name + " not recognized"@)
}

/// The value stored under the key that the word `name` spells, or the
/// error that names the missing key.
pub open spec fn lookup(m: Map<Seq<u8>, ValueView>, name: Seq<char>) -> Result<
    ValueView,
    ErrorView,
> {
    if m.dom().contains(ub(name)) {
        Ok(m[ub(name)])
    } else {
        Err(ErrorView::NoRedisKey(name))
    }
}

/// The error for a key whose value is not a string.
pub open spec fn not_a_string() -> ErrorView {
    ErrorView::InvalidRedisType("Redis key does not contain a string"@)
}

/// The error for a key whose value is not a list.
pub open spec fn not_a_list() -> ErrorView {
    ErrorView::InvalidRedisType("Redis key does not contain a list"@)
}

/// The error for a key whose value is not a hash.
pub open spec fn not_a_hash() -> ErrorView {
    ErrorView::InvalidRedisType("Redis key does not contain a hash"@)
}

/// The error for a key whose value is not a set.
pub open spec fn not_a_set() -> ErrorView {
    ErrorView::InvalidRedisType("Redis key does not contain a set"@)
}

/// Items, each framed by its length as eight big-endian bytes.
pub open spec fn frame_items(s: Seq<Seq<u8>>) -> Seq<u8>
    decreases s.len(),
{
    if s.len() == 0 {
        seq![]
    } else {
        frame_items(s.drop_last()) + u64_be(s.last().len() as u64) + s.last()
    }
}

/// The answer of 1 for yes and 0 for no.
pub open spec fn flag(b: bool) -> Seq<u8> {
    if b {
        seq![1u8]
    } else {
        seq![0u8]
    }
}

/// An `InvalidRedisCommand` error with the text `msg`.
fn command_error(msg: &str) -> (e: ServerError)
    ensures
        e@ == cmd_error(msg@),
{
    ServerError::InvalidRedisCommand(msg.to_string())
}

/// The error for a command name that is not known.
fn unknown_command_error(name: &Vec<char>) -> (e: ServerError)
    ensures
        e@ == unknown_command(name@),
{
    let mut m = "command ".to_string();
    let n = string_of(name);
    m.append(n.as_str());
    m.append(" not recognized");
    ServerError::InvalidRedisCommand(m)
}

/// The text of `bytes` with each ill-formed sequence replaced by U+FFFD:
/// `String::from_utf8_lossy`. Stated only for well-formed bytes, which it
/// gives back unchanged.
#[verifier::external_body]
fn lossy_text(bytes: &[u8]) -> (s: String)
    ensures
        valid_utf8(bytes@) ==> s@ == decode_utf8(bytes@),
{
    String::from_utf8_lossy(bytes).into_owned()
}

/// The value stored under `key`, or the error that names the missing key.
pub fn get_value<'a>(redis: &'a RedisServer, key: &[u8]) -> (r: Result<&'a RedisValue, ServerError>)
    ensures
        match r {
            Ok(v) => redis.data@.dom().contains(key@) && v@ == redis.data@[key@],
            Err(e) => !redis.data@.dom().contains(key@) && valid_utf8(key@) ==> e@
                == ErrorView::NoRedisKey(decode_utf8(key@)),
        },
        r is Err ==> !redis.data@.dom().contains(key@),
        r is Err ==> r->Err_0@ is NoRedisKey,
{
    match redis.data.get(key) {
        Some(v) => Ok(v),
        None => Err(ServerError::NoRedisKey(lossy_text(key))),
    }
}

/// Takes the value stored under the key that `name` spells out of the key
/// space, or gives the error that names the missing key.
fn take_value(redis: &mut RedisServer, name: &Vec<char>) -> (r: Result<RedisValue, ServerError>)
    ensures
        final(redis).channels@ == old(redis).channels@,
        final(redis).clients@ == old(redis).clients@,
        match lookup(old(redis).data@, name@) {
            Ok(v) => r matches Ok(x) && x@ == v && final(redis).data@ == old(redis).data@.remove(
                ub(name@),
            ),
            Err(e) => r matches Err(x) && x@ == e && final(redis).data@ == old(redis).data@,
        },
{
    let key = utf8_of(name);
    match redis.data.take(key.as_slice()) {
        Some(v) => Ok(v),
        None => Err(ServerError::NoRedisKey(lossy_text(key.as_slice()))),
    }
}

/// Puts `v` back under the key that `name` spells.
fn put_value(redis: &mut RedisServer, name: &Vec<char>, v: RedisValue)
    ensures
        final(redis).data@ == old(redis).data@.insert(ub(name@), v@),
        final(redis).channels@ == old(redis).channels@,
        final(redis).clients@ == old(redis).clients@,
{
    let key = utf8_of(name);
    redis.data.insert(key, v);
}

/// The string inside `value`, or the error for another kind of value.
pub fn GetRedisStringRef(value: &RedisValue) -> (r: Result<&RedisString, ServerError>)
    ensures
        match value@ {
            ValueView::Str(s) => r matches Ok(x) && x@ == s,
            _ => r matches Err(e) && e@ == not_a_string(),
        },
{
    match value {
        RedisValue::String(s) => Ok(s),
        _ => Err(ServerError::InvalidRedisType("Redis key does not contain a string".to_string())),
    }
}

/// The string inside `value`, to change in place, or the error for
/// another kind of value.
pub fn GetRedisString(value: &mut RedisValue) -> (r: Result<&mut RedisString, ServerError>)
    ensures
        match *old(value) {
            RedisValue::String(s) => r matches Ok(x) && x@ == s@ && final(value)@ == ValueView::Str(
                final(x)@,
            ),
            _ => r matches Err(e) && e@ == not_a_string() && final(value)@ == old(value)@,
        },
{
    match value {
        RedisValue::String(s) => Ok(s),
        _ => Err(ServerError::InvalidRedisType("Redis key does not contain a string".to_string())),
    }
}

/// The list inside `value`, or the error for another kind of value.
pub fn GetRedisListRef(value: &RedisValue) -> (r: Result<&RedisList, ServerError>)
    ensures
        match value@ {
            ValueView::List(l) => r matches Ok(x) && x@ == l,
            _ => r matches Err(e) && e@ == not_a_list(),
        },
{
    match value {
        RedisValue::List(l) => Ok(l),
        _ => Err(ServerError::InvalidRedisType("Redis key does not contain a list".to_string())),
    }
}

/// The list inside `value`, to change in place, or the error for another
/// kind of value.
pub fn GetRedisList(value: &mut RedisValue) -> (r: Result<&mut RedisList, ServerError>)
    ensures
        match *old(value) {
            RedisValue::List(l) => r matches Ok(x) && x@ == l@ && final(value)@ == ValueView::List(
                final(x)@,
            ),
            _ => r matches Err(e) && e@ == not_a_list() && final(value)@ == old(value)@,
        },
{
    match value {
        RedisValue::List(l) => Ok(l),
        _ => Err(ServerError::InvalidRedisType("Redis key does not contain a list".to_string())),
    }
}

/// The hash inside `value`, or the error for another kind of value.
pub fn GetRedisHashRef(value: &RedisValue) -> (r: Result<&RedisHash, ServerError>)
    ensures
        match value@ {
            ValueView::Hash(h) => r matches Ok(x) && x@ == h,
            _ => r matches Err(e) && e@ == not_a_hash(),
        },
{
    match value {
        RedisValue::Hash(h) => Ok(h),
        _ => Err(ServerError::InvalidRedisType("Redis key does not contain a hash".to_string())),
    }
}

/// The hash inside `value`, to change in place, or the error for another
/// kind of value.
pub fn GetRedisHash(value: &mut RedisValue) -> (r: Result<&mut RedisHash, ServerError>)
    ensures
        match *old(value) {
            RedisValue::Hash(h) => r matches Ok(x) && x@ == h@ && final(value)@ == ValueView::Hash(
                final(x)@,
            ),
            _ => r matches Err(e) && e@ == not_a_hash() && final(value)@ == old(value)@,
        },
{
    match value {
        RedisValue::Hash(h) => Ok(h),
        _ => Err(ServerError::InvalidRedisType("Redis key does not contain a hash".to_string())),
    }
}

/// The set inside `value`, or the error for another kind of value.
pub fn GetRedisSetRef(value: &RedisValue) -> (r: Result<&RedisSet, ServerError>)
    ensures
        match value@ {
            ValueView::Members(s) => r matches Ok(x) && x@ == s,
            _ => r matches Err(e) && e@ == not_a_set(),
        },
{
    match value {
        RedisValue::SetValue(s) => Ok(s),
        _ => Err(ServerError::InvalidRedisType("Redis key does not contain a set".to_string())),
    }
}

/// The set inside `value`, to change in place, or the error for another
/// kind of value.
pub fn GetRedisSet(value: &mut RedisValue) -> (r: Result<&mut RedisSet, ServerError>)
    ensures
        match *old(value) {
            RedisValue::SetValue(s) => r matches Ok(x) && x@ == s@ && final(value)@
                == ValueView::Members(final(x)@),
            _ => r matches Err(e) && e@ == not_a_set() && final(value)@ == old(value)@,
        },
{
    match value {
        RedisValue::SetValue(s) => Ok(s),
        _ => Err(ServerError::InvalidRedisType("Redis key does not contain a set".to_string())),
    }
}

proof fn lemma_put_back(m: Map<Seq<u8>, ValueView>, k: Seq<u8>)
    requires
        m.dom().contains(k),
    ensures
        m.remove(k).insert(k, m[k]) == m,
{
    assert(m.remove(k).insert(k, m[k]) =~= m);
}

proof fn lemma_replace(m: Map<Seq<u8>, ValueView>, k: Seq<u8>, v: ValueView)
    ensures
        m.remove(k).insert(k, v) == m.insert(k, v),
{
    assert(m.remove(k).insert(k, v) =~= m.insert(k, v));
}

// ---------------------------------------------------------------- strings

/// What a string command does: the key space after it, its answer, and the
/// lines it has written to the command log.
pub open spec fn string_op(m: Map<Seq<u8>, ValueView>, w: Seq<Seq<char>>) -> (
    Map<Seq<u8>, ValueView>,
    Result<Option<Seq<u8>>, ErrorView>,
    Seq<Seq<char>>,
) {
    if w.len() == 0 {
        (m, Err(cmd_error("No Redis command provided"@)), seq![])
    } else if w[0] == "set"@ {
        if w.len() < 3 {
            (m, Err(cmd_error("set requires a key and value"@)), seq![])
        } else {
            (
                m.insert(ub(w[1]), ValueView::Str(ub(w[2]))),
                Ok(None),
                seq!["set "@ + w[1] + " "@ + w[2]],
            )
        }
    } else if w[0] == "get"@ {
        if w.len() < 2 {
            (m, Err(cmd_error("get requires a key"@)), seq![])
        } else {
            match lookup(m, w[1]) {
                Err(e) => (m, Err(e), seq![]),
                Ok(ValueView::Str(s)) => (m, Ok(Some(s)), seq![]),
                Ok(_) => (m, Err(not_a_string()), seq![]),
            }
        }
    } else if w[0] == "append"@ {
        if w.len() < 3 {
            (m, Err(cmd_error("append requires a key and value"@)), seq![])
        } else {
            match lookup(m, w[1]) {
                Err(e) => (m, Err(e), seq![]),
                Ok(ValueView::Str(s)) => (
                    m.insert(ub(w[1]), ValueView::Str(s + ub(w[2]))),
                    Ok(None),
                    seq![],
                ),
                Ok(_) => (m, Err(not_a_string()), seq![]),
            }
        }
    } else if w[0] == "len"@ {
        if w.len() < 2 {
            (m, Err(cmd_error("len requires a key"@)), seq![])
        } else {
            match lookup(m, w[1]) {
                Err(e) => (m, Err(e), seq![]),
                Ok(ValueView::Str(s)) => (m, Ok(Some(u64_be(s.len() as u64))), seq![]),
                Ok(_) => (m, Err(not_a_string()), seq![]),
            }
        }
    } else {
        (m, Err(unknown_command(w[0])), seq![])
    }
}

/// Runs the string command whose words are `w`.
pub fn string_command(redis: &mut RedisServer, w: &Vec<Vec<char>>, log: &mut Vec<String>) -> (r:
    Result<Option<Vec<u8>>, ServerError>)
    ensures
        final(redis).data@ == string_op(old(redis).data@, char_seqs(w@)).0,
        reply_view(r) == string_op(old(redis).data@, char_seqs(w@)).1,
        string_views(final(log)@) == string_views(old(log)@) + string_op(
            old(redis).data@,
            char_seqs(w@),
        ).2,
        final(redis).channels@ == old(redis).channels@,
        final(redis).clients@ == old(redis).clients@,
{
    let ghost m = redis.data@;
    let ghost ws = char_seqs(w@);
    assert(string_views(old(log)@) + seq![] =~= string_views(old(log)@));
    if w.len() == 0 {
        return Err(command_error("No Redis command provided"));
    }
    assert(ws[0] == w@[0]@);
    let name = &w[0];
    if is_text(name, "set") {
        if w.len() < 3 {
            return Err(command_error("set requires a key and value"));
        }
        assert(ws[1] == w@[1]@ && ws[2] == w@[2]@);
        let key = utf8_of(&w[1]);
        let value = utf8_of(&w[2]);
        let mut line = "set ".to_string();
        line.append(string_of(&w[1]).as_str());
        line.append(" ");
        line.append(string_of(&w[2]).as_str());
        redis.create_string(key, value);
        let ghost before = log@;
        log.push(line);
        assert(string_views(log@) =~= string_views(before) + string_op(m, ws).2);
        Ok(None)
    } else if is_text(name, "get") {
        if w.len() < 2 {
            return Err(command_error("get requires a key"));
        }
        assert(ws[1] == w@[1]@);
        let key = utf8_of(&w[1]);
        let value = get_value(redis, key.as_slice())?;
        let s = GetRedisStringRef(value)?;
        Ok(Some(copy_bytes(s.get())))
    } else if is_text(name, "append") {
        if w.len() < 3 {
            return Err(command_error("append requires a key and value"));
        }
        assert(ws[1] == w@[1]@ && ws[2] == w@[2]@);
        let extra = utf8_of(&w[2]);
        let mut v = take_value(redis, &w[1])?;
        let r = match GetRedisString(&mut v) {
            Ok(s) => {
                s.append(extra.as_slice());
                Ok(None)
            },
            Err(e) => Err(e),
        };
        proof {
            lemma_put_back(m, ub(ws[1]));
            lemma_replace(m, ub(ws[1]), v@);
        }
        put_value(redis, &w[1], v);
        r
    } else if is_text(name, "len") {
        if w.len() < 2 {
            return Err(command_error("len requires a key"));
        }
        assert(ws[1] == w@[1]@);
        let key = utf8_of(&w[1]);
        let value = get_value(redis, key.as_slice())?;
        let s = GetRedisStringRef(value)?;
        Ok(Some(u64_to_be_bytes(s.len() as u64)))
    } else {
        Err(unknown_command_error(name))
    }
}

/// Runs the string command `command`: `set key value`, `get key`,
/// `append key value` or `len key`. A `set` writes its line to `log`.
pub fn HandleStringOp(redis: &mut RedisServer, command: &str, log: &mut Vec<String>) -> (r:
    Result<Option<Vec<u8>>, ServerError>)
    ensures
        final(redis).data@ == string_op(old(redis).data@, words(command@)).0,
        reply_view(r) == string_op(old(redis).data@, words(command@)).1,
        string_views(final(log)@) == string_views(old(log)@) + string_op(
            old(redis).data@,
            words(command@),
        ).2,
        final(redis).channels@ == old(redis).channels@,
        final(redis).clients@ == old(redis).clients@,
{
    let cs = chars_of(command);
    let w = split_words(&cs);
    string_command(redis, &w, log)
}

// ---------------------------------------------------------------- lists

/// The key space with the list under `name` changed to `l`.
pub open spec fn with_list(m: Map<Seq<u8>, ValueView>, name: Seq<char>, l: Seq<Seq<u8>>) -> Map<
    Seq<u8>,
    ValueView,
> {
    m.insert(ub(name), ValueView::List(l))
}

/// What a list command does: the key space after it and its answer.
pub open spec fn list_op(m: Map<Seq<u8>, ValueView>, w: Seq<Seq<char>>) -> (
    Map<Seq<u8>, ValueView>,
    Result<Option<Seq<u8>>, ErrorView>,
) {
    if w.len() == 0 {
        (m, Err(cmd_error("No Redis command provided"@)))
    } else if w[0] == "lcreate"@ {
        if w.len() < 2 {
            (m, Err(cmd_error("lcreate requires a key"@)))
        } else {
            (with_list(m, w[1], seq![]), Ok(None))
        }
    } else if w[0] == "lpush"@ || w[0] == "rpush"@ {
        if w.len() < 3 {
            (
                m,
                Err(
                    cmd_error(
                        if w[0] == "lpush"@ {
                            "lpush requires a key and value"@
                        } else {
                            "rpush requires a key and value"@
                        },
                    ),
                ),
            )
        } else {
            match lookup(m, w[1]) {
                Err(e) => (m, Err(e)),
                Ok(ValueView::List(l)) => (
                    with_list(
                        m,
                        w[1],
                        if w[0] == "lpush"@ {
                            seq![ub(w[2])] + l
                        } else {
                            l.push(ub(w[2]))
                        },
                    ),
                    Ok(None),
                ),
                Ok(_) => (m, Err(not_a_list())),
            }
        }
    } else if w[0] == "lpop"@ || w[0] == "rpop"@ {
        if w.len() < 2 {
            (
                m,
                Err(
                    cmd_error(
                        if w[0] == "lpop"@ {
                            "lpop requires a key"@
                        } else {
                            "rpop requires a key"@
                        },
                    ),
                ),
            )
        } else {
            match lookup(m, w[1]) {
                Err(e) => (m, Err(e)),
                Ok(ValueView::List(l)) => if l.len() == 0 {
                    (m, Ok(None))
                } else if w[0] == "lpop"@ {
                    (with_list(m, w[1], l.drop_first()), Ok(Some(l[0])))
                } else {
                    (with_list(m, w[1], l.drop_last()), Ok(Some(l.last())))
                },
                Ok(_) => (m, Err(not_a_list())),
            }
        }
    } else if w[0] == "llen"@ {
        if w.len() < 2 {
            (m, Err(cmd_error("llen requires a key"@)))
        } else {
            match lookup(m, w[1]) {
                Err(e) => (m, Err(e)),
                Ok(ValueView::List(l)) => (m, Ok(Some(u64_be(l.len() as u64)))),
                Ok(_) => (m, Err(not_a_list())),
            }
        }
    } else if w[0] == "lindex"@ {
        if w.len() < 3 {
            (m, Err(cmd_error("lindex requires a key and index"@)))
        } else {
            match parse_usize(w[2]) {
                None => (m, Err(cmd_error("lindex index must be a valid number"@))),
                Some(i) => match lookup(m, w[1]) {
                    Err(e) => (m, Err(e)),
                    Ok(ValueView::List(l)) => if i < l.len() {
                        (m, Ok(Some(l[i as int])))
                    } else {
                        (m, Err(cmd_error("list index out of bounds"@)))
                    },
                    Ok(_) => (m, Err(not_a_list())),
                },
            }
        }
    } else if w[0] == "lset"@ {
        if w.len() < 4 {
            (m, Err(cmd_error("lset requires a key, index and value"@)))
        } else {
            match parse_usize(w[2]) {
                None => (m, Err(cmd_error("lset index must be a valid number"@))),
                Some(i) => match lookup(m, w[1]) {
                    Err(e) => (m, Err(e)),
                    Ok(ValueView::List(l)) => if i < l.len() {
                        (with_list(m, w[1], l.update(i as int, ub(w[3]))), Ok(None))
                    } else {
                        (m, Err(cmd_error("list index out of bounds"@)))
                    },
                    Ok(_) => (m, Err(not_a_list())),
                },
            }
        }
    } else if w[0] == "lclear"@ {
        if w.len() < 2 {
            (m, Err(cmd_error("lclear requires a key"@)))
        } else {
            match lookup(m, w[1]) {
                Err(e) => (m, Err(e)),
                Ok(ValueView::List(l)) => (with_list(m, w[1], seq![]), Ok(None)),
                Ok(_) => (m, Err(not_a_list())),
            }
        }
    } else {
        (m, Err(unknown_command(w[0])))
    }
}

/// Runs the list command whose words are `w`.
pub fn list_command(redis: &mut RedisServer, w: &Vec<Vec<char>>) -> (r: Result<
    Option<Vec<u8>>,
    ServerError,
>)
    ensures
        final(redis).data@ == list_op(old(redis).data@, char_seqs(w@)).0,
        reply_view(r) == list_op(old(redis).data@, char_seqs(w@)).1,
        final(redis).channels@ == old(redis).channels@,
        final(redis).clients@ == old(redis).clients@,
{
    let ghost m = redis.data@;
    let ghost ws = char_seqs(w@);
    if w.len() == 0 {
        return Err(command_error("No Redis command provided"));
    }
    assert(ws[0] == w@[0]@);
    let name = &w[0];
    if is_text(name, "lcreate") {
        if w.len() < 2 {
            return Err(command_error("lcreate requires a key"));
        }
        assert(ws[1] == w@[1]@);
        redis.create_list(utf8_of(&w[1]));
        Ok(None)
    } else if is_text(name, "lpush") || is_text(name, "rpush") {
        let front = is_text(name, "lpush");
        if w.len() < 3 {
            return Err(
                command_error(
                    if front {
                        "lpush requires a key and value"
                    } else {
                        "rpush requires a key and value"
                    },
                ),
            );
        }
        assert(ws[1] == w@[1]@ && ws[2] == w@[2]@);
        let value = utf8_of(&w[2]);
        let mut v = take_value(redis, &w[1])?;
        let r = match GetRedisList(&mut v) {
            Ok(l) => {
                if front {
                    l.push_front(value);
                } else {
                    l.push_back(value);
                }
                Ok(None)
            },
            Err(e) => Err(e),
        };
        proof {
            lemma_put_back(m, ub(ws[1]));
            lemma_replace(m, ub(ws[1]), v@);
        }
        put_value(redis, &w[1], v);
        r
    } else if is_text(name, "lpop") || is_text(name, "rpop") {
        let front = is_text(name, "lpop");
        if w.len() < 2 {
            return Err(
                command_error(
                    if front {
                        "lpop requires a key"
                    } else {
                        "rpop requires a key"
                    },
                ),
            );
        }
        assert(ws[1] == w@[1]@);
        let mut v = take_value(redis, &w[1])?;
        let r = match GetRedisList(&mut v) {
            Ok(l) => {
                if front {
                    Ok(l.pop_front())
                } else {
                    Ok(l.pop_back())
                }
            },
            Err(e) => Err(e),
        };
        proof {
            lemma_put_back(m, ub(ws[1]));
            lemma_replace(m, ub(ws[1]), v@);
        }
        put_value(redis, &w[1], v);
        r
    } else if is_text(name, "llen") {
        if w.len() < 2 {
            return Err(command_error("llen requires a key"));
        }
        assert(ws[1] == w@[1]@);
        let key = utf8_of(&w[1]);
        let value = get_value(redis, key.as_slice())?;
        let l = GetRedisListRef(value)?;
        Ok(Some(u64_to_be_bytes(l.len() as u64)))
    } else if is_text(name, "lindex") {
        if w.len() < 3 {
            return Err(command_error("lindex requires a key and index"));
        }
        assert(ws[1] == w@[1]@ && ws[2] == w@[2]@);
        let index = match parse_usize_chars(&w[2]) {
            Some(i) => i,
            None => {
                return Err(command_error("lindex index must be a valid number"));
            },
        };
        let key = utf8_of(&w[1]);
        let value = get_value(redis, key.as_slice())?;
        let l = GetRedisListRef(value)?;
        match l.get(index) {
            Some(e) => Ok(Some(copy_bytes(e.as_slice()))),
            None => Err(command_error("list index out of bounds")),
        }
    } else if is_text(name, "lset") {
        if w.len() < 4 {
            return Err(command_error("lset requires a key, index and value"));
        }
        assert(ws[1] == w@[1]@ && ws[2] == w@[2]@ && ws[3] == w@[3]@);
        let index = match parse_usize_chars(&w[2]) {
            Some(i) => i,
            None => {
                return Err(command_error("lset index must be a valid number"));
            },
        };
        let new_value = utf8_of(&w[3]);
        let mut v = take_value(redis, &w[1])?;
        let r = match GetRedisList(&mut v) {
            Ok(l) => {
                if index >= l.len() {
                    Err(command_error("list index out of bounds"))
                } else {
                    l.set(index, new_value);
                    Ok(None)
                }
            },
            Err(e) => Err(e),
        };
        proof {
            lemma_put_back(m, ub(ws[1]));
            lemma_replace(m, ub(ws[1]), v@);
        }
        put_value(redis, &w[1], v);
        r
    } else if is_text(name, "lclear") {
        if w.len() < 2 {
            return Err(command_error("lclear requires a key"));
        }
        assert(ws[1] == w@[1]@);
        let mut v = take_value(redis, &w[1])?;
        let r = match GetRedisList(&mut v) {
            Ok(l) => {
                l.clear();
                Ok(None)
            },
            Err(e) => Err(e),
        };
        proof {
            lemma_put_back(m, ub(ws[1]));
            lemma_replace(m, ub(ws[1]), v@);
        }
        put_value(redis, &w[1], v);
        r
    } else {
        Err(unknown_command_error(name))
    }
}

/// Runs the list command `command`: `lcreate`, `lpush`, `rpush`, `lpop`,
/// `rpop`, `llen`, `lindex`, `lset` or `lclear`.
pub fn HandleListOp(redis: &mut RedisServer, command: &str) -> (r: Result<
    Option<Vec<u8>>,
    ServerError,
>)
    ensures
        final(redis).data@ == list_op(old(redis).data@, words(command@)).0,
        reply_view(r) == list_op(old(redis).data@, words(command@)).1,
        final(redis).channels@ == old(redis).channels@,
        final(redis).clients@ == old(redis).clients@,
{
    let cs = chars_of(command);
    let w = split_words(&cs);
    list_command(redis, &w)
}

// ---------------------------------------------------------------- hashes

/// The key space with the hash under `name` changed to `h`.
pub open spec fn with_hash(
    m: Map<Seq<u8>, ValueView>,
    name: Seq<char>,
    h: Seq<(Seq<u8>, Seq<u8>)>,
) -> Map<Seq<u8>, ValueView> {
    m.insert(ub(name), ValueView::Hash(h))
}

/// What a hash command that needs a key and a field answers when it has
/// too few words.
pub open spec fn hash_field_usage(name: Seq<char>) -> Seq<char> {
    if name == "hget"@ {
        "hget requires a key and field"@
    } else if name == "hexists"@ {
        "hexists requires a key and field"@
    } else {
        "hdel requires a key and field"@
    }
}

/// What a hash command that needs only a key answers when it has no key.
pub open spec fn hash_key_usage(name: Seq<char>) -> Seq<char> {
    if name == "hlen"@ {
        "hlen requires a key"@
    } else if name == "hclear"@ {
        "hclear requires a key"@
    } else if name == "hkeys"@ {
        "hkeys requires a key"@
    } else {
        "hvalues requires a key"@
    }
}

/// What a hash command does: the key space after it and its answer.
pub open spec fn hash_op(m: Map<Seq<u8>, ValueView>, w: Seq<Seq<char>>) -> (
    Map<Seq<u8>, ValueView>,
    Result<Option<Seq<u8>>, ErrorView>,
) {
    if w.len() == 0 {
        (m, Err(cmd_error("No Redis command provided"@)))
    } else if w[0] == "hcreate"@ {
        if w.len() < 2 {
            (m, Err(cmd_error("hcreate requires a key"@)))
        } else {
            (with_hash(m, w[1], seq![]), Ok(None))
        }
    } else if w[0] == "hset"@ {
        if w.len() < 4 {
            (m, Err(cmd_error("hset requires a key, field and value"@)))
        } else {
            match lookup(m, w[1]) {
                Err(e) => (m, Err(e)),
                Ok(ValueView::Hash(h)) => (
                    with_hash(m, w[1], hash_put(h, ub(w[2]), ub(w[3]))),
                    Ok(None),
                ),
                Ok(_) => (m, Err(not_a_hash())),
            }
        }
    } else if w[0] == "hget"@ || w[0] == "hexists"@ || w[0] == "hdel"@ {
        if w.len() < 3 {
            (m, Err(cmd_error(hash_field_usage(w[0]))))
        } else {
            match lookup(m, w[1]) {
                Err(e) => (m, Err(e)),
                Ok(ValueView::Hash(h)) => if w[0] == "hget"@ {
                    match hash_lookup(h, ub(w[2])) {
                        Some(v) => (m, Ok(Some(v))),
                        None => (m, Err(cmd_error("hash field does not exist"@))),
                    }
                } else if w[0] == "hexists"@ {
                    (m, Ok(Some(flag(hash_keys(h).contains(ub(w[2]))))))
                } else {
                    (with_hash(m, w[1], hash_without(h, ub(w[2]))), Ok(None))
                },
                Ok(_) => (m, Err(not_a_hash())),
            }
        }
    } else if w[0] == "hlen"@ || w[0] == "hclear"@ || w[0] == "hkeys"@ || w[0] == "hvalues"@ {
        if w.len() < 2 {
            (m, Err(cmd_error(hash_key_usage(w[0]))))
        } else {
            match lookup(m, w[1]) {
                Err(e) => (m, Err(e)),
                Ok(ValueView::Hash(h)) => if w[0] == "hlen"@ {
                    (m, Ok(Some(u64_be(h.len() as u64))))
                } else if w[0] == "hclear"@ {
                    (with_hash(m, w[1], seq![]), Ok(None))
                } else if w[0] == "hkeys"@ {
                    (m, Ok(Some(frame_items(hash_keys(h)))))
                } else {
                    (m, Ok(Some(frame_items(hash_values(h)))))
                },
                Ok(_) => (m, Err(not_a_hash())),
            }
        }
    } else {
        (m, Err(unknown_command(w[0])))
    }
}

/// Each of `items`, framed by its length as eight big-endian bytes, after `out`.
fn push_framed_items(out: &mut Vec<u8>, items: &Vec<Vec<u8>>)
    ensures
        final(out)@ == old(out)@ + frame_items(crate::text::byte_seqs(items@)),
{
    let ghost s = crate::text::byte_seqs(items@);
    let mut i: usize = 0;
    assert(s.take(0) =~= Seq::<Seq<u8>>::empty());
    assert(old(out)@ + frame_items(s.take(0)) =~= old(out)@);
    while i < items.len()
        invariant
            i <= items@.len(),
            s == crate::text::byte_seqs(items@),
            out@ == old(out)@ + frame_items(s.take(i as int)),
        decreases items.len() - i,
    {
        let len = u64_to_be_bytes(items[i].len() as u64);
        append_bytes(out, len.as_slice());
        append_bytes(out, items[i].as_slice());
        proof {
            assert(s.take(i + 1).drop_last() =~= s.take(i as int));
            assert(s.take(i + 1).last() == items@[i as int]@);
        }
        i += 1;
        assert(out@ =~= old(out)@ + frame_items(s.take(i as int)));
    }
    assert(s.take(i as int) =~= s);
}

fn hash_field_command(redis: &mut RedisServer, w: &Vec<Vec<char>>) -> (r: Result<
    Option<Vec<u8>>,
    ServerError,
>)
    requires
        w@.len() > 0,
        w@[0]@ == "hget"@ || w@[0]@ == "hexists"@ || w@[0]@ == "hdel"@,
        w@[0]@ != "hcreate"@ && w@[0]@ != "hset"@,
    ensures
        final(redis).data@ == hash_op(old(redis).data@, char_seqs(w@)).0,
        reply_view(r) == hash_op(old(redis).data@, char_seqs(w@)).1,
        final(redis).channels@ == old(redis).channels@,
        final(redis).clients@ == old(redis).clients@,
{
    let ghost m = redis.data@;
    let ghost ws = char_seqs(w@);
    proof {
        reveal_strlit("hget");
        reveal_strlit("hexists");
        reveal_strlit("hdel");
    }
    assert(ws[0] == w@[0]@);
    let name = &w[0];
    if w.len() < 3 {
        return Err(
            command_error(
                if is_text(name, "hget") {
                    "hget requires a key and field"
                } else if is_text(name, "hexists") {
                    "hexists requires a key and field"
                } else {
                    "hdel requires a key and field"
                },
            ),
        );
    }
    assert(ws[1] == w@[1]@ && ws[2] == w@[2]@);
    let field = utf8_of(&w[2]);
    if is_text(name, "hget") || is_text(name, "hexists") {
        let key = utf8_of(&w[1]);
        let value = get_value(redis, key.as_slice())?;
        let h = GetRedisHashRef(value)?;
        if is_text(name, "hget") {
            match h.get(field.as_slice()) {
                Some(x) => Ok(Some(copy_bytes(x.as_slice()))),
                None => Err(command_error("hash field does not exist")),
            }
        } else {
            let exists = h.field_exists(field.as_slice());
            let mut out: Vec<u8> = Vec::new();
            out.push(if exists {
                1u8
            } else {
                0u8
            });
            assert(out@ =~= flag(exists));
            Ok(Some(out))
        }
    } else {
        let mut v = take_value(redis, &w[1])?;
        let r = match GetRedisHash(&mut v) {
            Ok(h) => {
                h.remove(field.as_slice());
                Ok(None)
            },
            Err(e) => Err(e),
        };
        proof {
            lemma_put_back(m, ub(ws[1]));
            lemma_replace(m, ub(ws[1]), v@);
        }
        put_value(redis, &w[1], v);
        r
    }
}

fn hash_key_command(redis: &mut RedisServer, w: &Vec<Vec<char>>) -> (r: Result<
    Option<Vec<u8>>,
    ServerError,
>)
    requires
        w@.len() > 0,
        w@[0]@ == "hlen"@ || w@[0]@ == "hclear"@ || w@[0]@ == "hkeys"@ || w@[0]@ == "hvalues"@,
        w@[0]@ != "hcreate"@ && w@[0]@ != "hset"@,
        w@[0]@ != "hget"@ && w@[0]@ != "hexists"@ && w@[0]@ != "hdel"@,
    ensures
        final(redis).data@ == hash_op(old(redis).data@, char_seqs(w@)).0,
        reply_view(r) == hash_op(old(redis).data@, char_seqs(w@)).1,
        final(redis).channels@ == old(redis).channels@,
        final(redis).clients@ == old(redis).clients@,
{
    let ghost m = redis.data@;
    let ghost ws = char_seqs(w@);
    proof {
        reveal_strlit("hlen");
        reveal_strlit("hclear");
        reveal_strlit("hkeys");
        reveal_strlit("hvalues");
    }
    assert(ws[0] == w@[0]@);
    let name = &w[0];
    if w.len() < 2 {
        return Err(
            command_error(
                if is_text(name, "hlen") {
                    "hlen requires a key"
                } else if is_text(name, "hclear") {
                    "hclear requires a key"
                } else if is_text(name, "hkeys") {
                    "hkeys requires a key"
                } else {
                    "hvalues requires a key"
                },
            ),
        );
    }
    assert(ws[1] == w@[1]@);
    if is_text(name, "hclear") {
        let mut v = take_value(redis, &w[1])?;
        let r = match GetRedisHash(&mut v) {
            Ok(h) => {
                h.clear();
                Ok(None)
            },
            Err(e) => Err(e),
        };
        proof {
            lemma_put_back(m, ub(ws[1]));
            lemma_replace(m, ub(ws[1]), v@);
        }
        put_value(redis, &w[1], v);
        r
    } else {
        let key = utf8_of(&w[1]);
        let value = get_value(redis, key.as_slice())?;
        let h = GetRedisHashRef(value)?;
        if is_text(name, "hlen") {
            Ok(Some(u64_to_be_bytes(h.len() as u64)))
        } else if is_text(name, "hkeys") {
            let keys = h.keys();
            let mut result: Vec<u8> = Vec::new();
            push_framed_items(&mut result, &keys);
            assert(result@ =~= frame_items(hash_keys(h@)));
            Ok(Some(result))
        } else {
            let values = h.values();
            let mut result: Vec<u8> = Vec::new();
            push_framed_items(&mut result, &values);
            assert(result@ =~= frame_items(hash_values(h@)));
            Ok(Some(result))
        }
    }
}

/// Runs the hash command whose words are `w`.
pub fn hash_command(redis: &mut RedisServer, w: &Vec<Vec<char>>) -> (r: Result<
    Option<Vec<u8>>,
    ServerError,
>)
    ensures
        final(redis).data@ == hash_op(old(redis).data@, char_seqs(w@)).0,
        reply_view(r) == hash_op(old(redis).data@, char_seqs(w@)).1,
        final(redis).channels@ == old(redis).channels@,
        final(redis).clients@ == old(redis).clients@,
{
    let ghost m = redis.data@;
    let ghost ws = char_seqs(w@);
    if w.len() == 0 {
        return Err(command_error("No Redis command provided"));
    }
    assert(ws[0] == w@[0]@);
    let name = &w[0];
    if is_text(name, "hcreate") {
        if w.len() < 2 {
            return Err(command_error("hcreate requires a key"));
        }
        assert(ws[1] == w@[1]@);
        redis.create_hash(utf8_of(&w[1]));
        Ok(None)
    } else if is_text(name, "hset") {
        if w.len() < 4 {
            return Err(command_error("hset requires a key, field and value"));
        }
        assert(ws[1] == w@[1]@ && ws[2] == w@[2]@ && ws[3] == w@[3]@);
        let field = utf8_of(&w[2]);
        let value = utf8_of(&w[3]);
        let mut v = take_value(redis, &w[1])?;
        let r = match GetRedisHash(&mut v) {
            Ok(h) => {
                h.set(field, value);
                Ok(None)
            },
            Err(e) => Err(e),
        };
        proof {
            lemma_put_back(m, ub(ws[1]));
            lemma_replace(m, ub(ws[1]), v@);
        }
        put_value(redis, &w[1], v);
        r
    } else if is_text(name, "hget") || is_text(name, "hexists") || is_text(name, "hdel") {
        hash_field_command(redis, w)
    } else if is_text(name, "hlen") || is_text(name, "hclear") || is_text(name, "hkeys")
        || is_text(name, "hvalues") {
        hash_key_command(redis, w)
    } else {
        Err(unknown_command_error(name))
    }
}

/// Runs the hash command `command`: `hcreate`, `hset`, `hget`, `hexists`,
/// `hdel`, `hlen`, `hclear`, `hkeys` or `hvalues`.
pub fn HandleHashOp(redis: &mut RedisServer, command: &str) -> (r: Result<
    Option<Vec<u8>>,
    ServerError,
>)
    ensures
        final(redis).data@ == hash_op(old(redis).data@, words(command@)).0,
        reply_view(r) == hash_op(old(redis).data@, words(command@)).1,
        final(redis).channels@ == old(redis).channels@,
        final(redis).clients@ == old(redis).clients@,
{
    let cs = chars_of(command);
    let w = split_words(&cs);
    hash_command(redis, &w)
}

// ---------------------------------------------------------------- sets

/// The key space with the set under `name` changed to `s`.
pub open spec fn with_set(m: Map<Seq<u8>, ValueView>, name: Seq<char>, s: Seq<Seq<u8>>) -> Map<
    Seq<u8>,
    ValueView,
> {
    m.insert(ub(name), ValueView::Members(s))
}

/// What a set command that needs a key and a value answers when it has
/// too few words.
pub open spec fn set_value_usage(name: Seq<char>) -> Seq<char> {
    if name == "sadd"@ {
        "sadd requires a key and value"@
    } else if name == "srem"@ {
        "srem requires a key and value"@
    } else {
        "scontains requires a key and value"@
    }
}

/// What a set command that needs only a key answers when it has no key.
pub open spec fn set_key_usage(name: Seq<char>) -> Seq<char> {
    if name == "slen"@ {
        "slen requires a key"@
    } else if name == "sclear"@ {
        "sclear requires a key"@
    } else {
        "svalues requires a key"@
    }
}

/// What a set command does: the key space after it and its answer.
pub open spec fn set_op(m: Map<Seq<u8>, ValueView>, w: Seq<Seq<char>>) -> (
    Map<Seq<u8>, ValueView>,
    Result<Option<Seq<u8>>, ErrorView>,
) {
    if w.len() == 0 {
        (m, Err(cmd_error("No Redis command provided"@)))
    } else if w[0] == "screate"@ {
        if w.len() < 2 {
            (m, Err(cmd_error("screate requires a key"@)))
        } else {
            (with_set(m, w[1], seq![]), Ok(None))
        }
    } else if w[0] == "sadd"@ || w[0] == "srem"@ || w[0] == "scontains"@ {
        if w.len() < 3 {
            (m, Err(cmd_error(set_value_usage(w[0]))))
        } else {
            match lookup(m, w[1]) {
                Err(e) => (m, Err(e)),
                Ok(ValueView::Members(s)) => if w[0] == "sadd"@ {
                    (with_set(m, w[1], set_add(s, ub(w[2]))), Ok(None))
                } else if w[0] == "srem"@ {
                    (with_set(m, w[1], set_remove(s, ub(w[2]))), Ok(None))
                } else {
                    (m, Ok(Some(flag(s.contains(ub(w[2]))))))
                },
                Ok(_) => (m, Err(not_a_set())),
            }
        }
    } else if w[0] == "slen"@ || w[0] == "sclear"@ || w[0] == "svalues"@ {
        if w.len() < 2 {
            (m, Err(cmd_error(set_key_usage(w[0]))))
        } else {
            match lookup(m, w[1]) {
                Err(e) => (m, Err(e)),
                Ok(ValueView::Members(s)) => if w[0] == "slen"@ {
                    (m, Ok(Some(u64_be(s.len() as u64))))
                } else if w[0] == "sclear"@ {
                    (with_set(m, w[1], seq![]), Ok(None))
                } else {
                    (m, Ok(Some(u64_be(s.len() as u64) + frame_items(s))))
                },
                Ok(_) => (m, Err(not_a_set())),
            }
        }
    } else {
        (m, Err(unknown_command(w[0])))
    }
}

fn set_value_command(redis: &mut RedisServer, w: &Vec<Vec<char>>) -> (r: Result<
    Option<Vec<u8>>,
    ServerError,
>)
    requires
        w@.len() > 0,
        w@[0]@ == "sadd"@ || w@[0]@ == "srem"@ || w@[0]@ == "scontains"@,
        w@[0]@ != "screate"@,
    ensures
        final(redis).data@ == set_op(old(redis).data@, char_seqs(w@)).0,
        reply_view(r) == set_op(old(redis).data@, char_seqs(w@)).1,
        final(redis).channels@ == old(redis).channels@,
        final(redis).clients@ == old(redis).clients@,
{
    let ghost m = redis.data@;
    let ghost ws = char_seqs(w@);
    proof {
        reveal_strlit("sadd");
        reveal_strlit("srem");
        reveal_strlit("scontains");
    }
    assert(ws[0] == w@[0]@);
    let name = &w[0];
    if w.len() < 3 {
        return Err(
            command_error(
                if is_text(name, "sadd") {
                    "sadd requires a key and value"
                } else if is_text(name, "srem") {
                    "srem requires a key and value"
                } else {
                    "scontains requires a key and value"
                },
            ),
        );
    }
    assert(ws[1] == w@[1]@ && ws[2] == w@[2]@);
    let value = utf8_of(&w[2]);
    if is_text(name, "scontains") {
        let key = utf8_of(&w[1]);
        let v = get_value(redis, key.as_slice())?;
        let st = GetRedisSetRef(v)?;
        let contains = st.contains(value.as_slice());
        let mut out: Vec<u8> = Vec::new();
        out.push(if contains {
            1u8
        } else {
            0u8
        });
        assert(out@ =~= flag(contains));
        Ok(Some(out))
    } else {
        let add = is_text(name, "sadd");
        let mut v = take_value(redis, &w[1])?;
        let r = match GetRedisSet(&mut v) {
            Ok(st) => {
                if add {
                    st.add(value);
                } else {
                    st.remove(value.as_slice());
                }
                Ok(None)
            },
            Err(e) => Err(e),
        };
        proof {
            lemma_put_back(m, ub(ws[1]));
            lemma_replace(m, ub(ws[1]), v@);
        }
        put_value(redis, &w[1], v);
        r
    }
}

fn set_key_command(redis: &mut RedisServer, w: &Vec<Vec<char>>) -> (r: Result<
    Option<Vec<u8>>,
    ServerError,
>)
    requires
        w@.len() > 0,
        w@[0]@ == "slen"@ || w@[0]@ == "sclear"@ || w@[0]@ == "svalues"@,
        w@[0]@ != "screate"@,
        w@[0]@ != "sadd"@ && w@[0]@ != "srem"@ && w@[0]@ != "scontains"@,
    ensures
        final(redis).data@ == set_op(old(redis).data@, char_seqs(w@)).0,
        reply_view(r) == set_op(old(redis).data@, char_seqs(w@)).1,
        final(redis).channels@ == old(redis).channels@,
        final(redis).clients@ == old(redis).clients@,
{
    let ghost m = redis.data@;
    let ghost ws = char_seqs(w@);
    proof {
        reveal_strlit("slen");
        reveal_strlit("sclear");
        reveal_strlit("svalues");
    }
    assert(ws[0] == w@[0]@);
    let name = &w[0];
    if w.len() < 2 {
        return Err(
            command_error(
                if is_text(name, "slen") {
                    "slen requires a key"
                } else if is_text(name, "sclear") {
                    "sclear requires a key"
                } else {
                    "svalues requires a key"
                },
            ),
        );
    }
    assert(ws[1] == w@[1]@);
    if is_text(name, "sclear") {
        let mut v = take_value(redis, &w[1])?;
        let r = match GetRedisSet(&mut v) {
            Ok(st) => {
                st.clear();
                Ok(None)
            },
            Err(e) => Err(e),
        };
        proof {
            lemma_put_back(m, ub(ws[1]));
            lemma_replace(m, ub(ws[1]), v@);
        }
        put_value(redis, &w[1], v);
        r
    } else {
        let key = utf8_of(&w[1]);
        let v = get_value(redis, key.as_slice())?;
        let st = GetRedisSetRef(v)?;
        if is_text(name, "slen") {
            Ok(Some(u64_to_be_bytes(st.len() as u64)))
        } else {
            let values = st.values();
            let mut result = u64_to_be_bytes(values.len() as u64);
            push_framed_items(&mut result, &values);
            Ok(Some(result))
        }
    }
}

/// Runs the set command whose words are `w`.
pub fn set_command(redis: &mut RedisServer, w: &Vec<Vec<char>>) -> (r: Result<
    Option<Vec<u8>>,
    ServerError,
>)
    ensures
        final(redis).data@ == set_op(old(redis).data@, char_seqs(w@)).0,
        reply_view(r) == set_op(old(redis).data@, char_seqs(w@)).1,
        final(redis).channels@ == old(redis).channels@,
        final(redis).clients@ == old(redis).clients@,
{
    let ghost m = redis.data@;
    let ghost ws = char_seqs(w@);
    if w.len() == 0 {
        return Err(command_error("No Redis command provided"));
    }
    assert(ws[0] == w@[0]@);
    let name = &w[0];
    if is_text(name, "screate") {
        if w.len() < 2 {
            return Err(command_error("screate requires a key"));
        }
        assert(ws[1] == w@[1]@);
        redis.create_set(utf8_of(&w[1]));
        Ok(None)
    } else if is_text(name, "sadd") || is_text(name, "srem") || is_text(name, "scontains") {
        set_value_command(redis, w)
    } else if is_text(name, "slen") || is_text(name, "sclear") || is_text(name, "svalues") {
        set_key_command(redis, w)
    } else {
        Err(unknown_command_error(name))
    }
}

/// Runs the set command `command`: `screate`, `sadd`, `srem`, `scontains`,
/// `slen`, `sclear` or `svalues`.
pub fn HandleSetOp(redis: &mut RedisServer, command: &str) -> (r: Result<
    Option<Vec<u8>>,
    ServerError,
>)
    ensures
        final(redis).data@ == set_op(old(redis).data@, words(command@)).0,
        reply_view(r) == set_op(old(redis).data@, words(command@)).1,
        final(redis).channels@ == old(redis).channels@,
        final(redis).clients@ == old(redis).clients@,
{
    let cs = chars_of(command);
    let w = split_words(&cs);
    set_command(redis, &w)
}

} // verus!
