//! Transactions: a queue of commands, one per line, run in order, with the
//! answers gathered one per line.

use vstd::prelude::*;
use vstd::string::*;
use vstd::utf8::*;
use crate::codec::append_bytes;
use crate::commands::{
    hash_command, hash_op, list_command, list_op, reply_view, set_command, set_op,
    string_command, string_op, string_views,
};
use crate::error::{error_text, ErrorView, ServerError};
use crate::redis::ValueView;
use crate::server::RedisServer;
use crate::text::{
    char_seqs, chars_of, is_text, lines, split_at_space, split_lines, split_once_space,
    split_words, string_of, trim, trim_chars, words,
};

verus! {

/// What one line of a transaction does: the key space after it, its
/// answer, and the lines it writes to the command log. The line is a type
/// name, a space, and a command of that type.
pub open spec fn transaction_step(m: Map<Seq<u8>, ValueView>, line: Seq<char>) -> (
    Map<Seq<u8>, ValueView>,
    Result<Option<Seq<u8>>, ErrorView>,
    Seq<Seq<char>>,
) {
    let t = split_at_space(line).0;
    let w = words(split_at_space(line).1);
    if trim(t) == "string"@ {
        string_op(m, w)
    } else if trim(t) == "list"@ {
        (list_op(m, w).0, list_op(m, w).1, seq![])
    } else if trim(t) == "hash"@ {
        (hash_op(m, w).0, hash_op(m, w).1, seq![])
    } else if trim(t) == "set"@ {
        (set_op(m, w).0, set_op(m, w).1, seq![])
    } else {
        (m, Err(ErrorView::InvalidRedisType("Invalid Redis type in transaction: "@ + t)), seq![])
    }
}

/// The line that reports one answer of a transaction: the payload, `OK`
/// for an answer without one, or the error's text; then a newline.
pub open spec fn answer_line(r: Result<Option<Seq<u8>>, ErrorView>) -> Seq<u8> {
    match r {
        Ok(Some(x)) => x.push(10u8),
        Ok(None) => seq![79u8, 75u8, 10u8],
        Err(e) => match error_text(e) {
            Some(t) => encode_utf8(t).push(10u8),
            None => seq![10u8],
        },
    }
}

/// Runs the transaction lines `ls` in order from the key space `m`: the key
/// space after them, the answer lines, and the command log lines.
pub open spec fn transaction_run(m: Map<Seq<u8>, ValueView>, ls: Seq<Seq<char>>) -> (
    Map<Seq<u8>, ValueView>,
    Seq<u8>,
    Seq<Seq<char>>,
)
    decreases ls.len(),
{
    if ls.len() == 0 {
        (m, seq![], seq![])
    } else {
        let before = transaction_run(m, ls.drop_last());
        let step = transaction_step(before.0, ls.last());
        (step.0, before.1 + answer_line(step.1), before.2 + step.2)
    }
}

/// Every error that a command of a transaction gives carries its own text.
proof fn lemma_step_error_has_text(m: Map<Seq<u8>, ValueView>, line: Seq<char>)
    ensures
        transaction_step(m, line).1 matches Err(e) ==> error_text(e) is Some,
{
}

/// Runs one line of a transaction.
fn transaction_line(redis: &mut RedisServer, line: &Vec<char>, log: &mut Vec<String>) -> (r:
    Result<Option<Vec<u8>>, ServerError>)
    ensures
        final(redis).data@ == transaction_step(old(redis).data@, line@).0,
        reply_view(r) == transaction_step(old(redis).data@, line@).1,
        string_views(final(log)@) == string_views(old(log)@) + transaction_step(
            old(redis).data@,
            line@,
        ).2,
        final(redis).channels@ == old(redis).channels@,
        final(redis).clients@ == old(redis).clients@,
{
    assert(string_views(old(log)@) + seq![] =~= string_views(old(log)@));
    let (t, operation) = split_once_space(line);
    let tt = trim_chars(&t);
    let w = split_words(&operation);
    if is_text(&tt, "string") {
        string_command(redis, &w, log)
    } else if is_text(&tt, "list") {
        list_command(redis, &w)
    } else if is_text(&tt, "hash") {
        hash_command(redis, &w)
    } else if is_text(&tt, "set") {
        set_command(redis, &w)
    } else {
        let mut msg = "Invalid Redis type in transaction: ".to_string();
        msg.append(string_of(&t).as_str());
        Err(ServerError::InvalidRedisType(msg))
    }
}

/// Appends the answer line for `r` to `out`.
fn push_answer(out: &mut Vec<u8>, r: &Result<Option<Vec<u8>>, ServerError>)
    requires
        reply_view(*r) matches Err(e) ==> error_text(e) is Some,
    ensures
        final(out)@ == old(out)@ + answer_line(reply_view(*r)),
{
    match r {
        Ok(Some(x)) => {
            append_bytes(out, x.as_slice());
            out.push(10u8);
        },
        Ok(None) => {
            out.push(79u8);
            out.push(75u8);
            out.push(10u8);
        },
        Err(e) => {
            let m = e.message();
            let b = m.as_str().as_bytes_vec();
            append_bytes(out, b.as_slice());
            out.push(10u8);
        },
    }
    assert(final(out)@ =~= old(out)@ + answer_line(reply_view(*r)));
}

/// Runs the transaction `transaction_queue`, one command per line, each
/// line a type name (`string`, `list`, `hash` or `set`), a space and a
/// command. The answer holds one line per command: its payload, `OK`, or
/// the text of its error.
pub fn HandleTransactions(
    redis: &mut RedisServer,
    transaction_queue: &str,
    log: &mut Vec<String>,
) -> (r: Result<Option<Vec<u8>>, ServerError>)
    ensures
        final(redis).data@ == transaction_run(old(redis).data@, lines(transaction_queue@)).0,
        r matches Ok(Some(out)) && out@ == transaction_run(
            old(redis).data@,
            lines(transaction_queue@),
        ).1,
        string_views(final(log)@) == string_views(old(log)@) + transaction_run(
            old(redis).data@,
            lines(transaction_queue@),
        ).2,
        final(redis).channels@ == old(redis).channels@,
        final(redis).clients@ == old(redis).clients@,
{
    let ghost m0 = redis.data@;
    let ghost log0 = string_views(log@);
    let cs = chars_of(transaction_queue);
    let ls = split_lines(&cs);
    let ghost lv = char_seqs(ls@);
    let mut result: Vec<u8> = Vec::new();
    let mut i: usize = 0;
    assert(lv.take(0) =~= Seq::<Seq<char>>::empty());
    assert(log0 + seq![] =~= log0);
    while i < ls.len()
        invariant
            i <= ls@.len(),
            lv == char_seqs(ls@),
            lv == lines(transaction_queue@),
            redis.data@ == transaction_run(m0, lv.take(i as int)).0,
            result@ == transaction_run(m0, lv.take(i as int)).1,
            string_views(log@) == log0 + transaction_run(m0, lv.take(i as int)).2,
            redis.channels@ == old(redis).channels@,
            redis.clients@ == old(redis).clients@,
        decreases ls.len() - i,
    {
        let ghost before = transaction_run(m0, lv.take(i as int));
        let ghost log_before = string_views(log@);
        assert(lv[i as int] == ls@[i as int]@);
        proof {
            lemma_step_error_has_text(redis.data@, lv[i as int]);
        }
        let r = transaction_line(redis, &ls[i], log);
        push_answer(&mut result, &r);
        proof {
            assert(lv.take(i + 1).drop_last() =~= lv.take(i as int));
            assert(lv.take(i + 1).last() == lv[i as int]);
            assert(string_views(log@) =~= log0 + transaction_run(m0, lv.take(i + 1)).2);
        }
        i += 1;
    }
    assert(lv.take(i as int) =~= lv);
    Ok(Some(result))
}

} // verus!
