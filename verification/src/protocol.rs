//! The wire protocol. A request is a length-prefixed payload that holds a
//! type name and a command, each prefixed by its length; an answer is a
//! status byte, then for a payload or an error its length and its bytes.
//! Every length is eight big-endian bytes.

use vstd::prelude::*;
use vstd::string::*;
use vstd::utf8::*;
use crate::codec::{append_bytes, be_bytes_to_u64, be_u64, copy_bytes, lemma_be_roundtrip, u64_be, u64_to_be_bytes};
use crate::commands::reply_view;
use crate::error::{error_text, utf8_error_text, ErrorView, ServerError};
use crate::text::{chars_of, decimal, push_decimal, string_of, trim, trim_chars, is_text};

verus! {

broadcast use encode_utf8_decode_utf8, encode_utf8_valid_utf8;

/// `String::from_utf8`: the text that `bytes` encode, if they are
/// well-formed UTF-8, or the error that says they are not.
#[verifier::external_body]
pub(crate) fn string_from_utf8(bytes: Vec<u8>) -> (r: Result<String, std::string::FromUtf8Error>)
    ensures
        r is Ok <==> valid_utf8(bytes@),
        r matches Ok(s) ==> s@ == decode_utf8(bytes@),
{
    String::from_utf8(bytes)
}

/// An `InvalidRedisCommand` error with the text `msg`.
pub open spec fn bad_request(msg: Seq<char>) -> ErrorView {
    ErrorView::InvalidRedisCommand(msg)
}

/// What the server reads from a request payload: the type name and the
/// command, or the error that says what is wrong with the payload.
pub open spec fn parse_request(op: Seq<u8>) -> Result<(Seq<char>, Seq<char>), ErrorView> {
    if op.len() < 8 {
        Err(bad_request("Invalid operation: missing type length"@))
    } else {
        let tl = be_u64(op) as int;
        if 8 + tl > op.len() {
            Err(bad_request("Invalid operation: type length exceeds packet size"@))
        } else if !valid_utf8(op.subrange(8, 8 + tl)) {
            Err(bad_request("Redis type contains invalid UTF-8"@))
        } else if 8 + tl + 8 > op.len() {
            Err(bad_request("Invalid operation: missing command length"@))
        } else {
            let cl = be_u64(op.subrange(8 + tl, 16 + tl)) as int;
            if 16 + tl + cl > op.len() {
                Err(bad_request("Invalid operation: command length exceeds packet size"@))
            } else if !valid_utf8(op.subrange(16 + tl, 16 + tl + cl)) {
                Err(bad_request("Command contains invalid UTF-8"@))
            } else {
                Ok(
                    (
                        decode_utf8(op.subrange(8, 8 + tl)),
                        decode_utf8(op.subrange(16 + tl, 16 + tl + cl)),
                    ),
                )
            }
        }
    }
}

/// The length `n` of the byte range starting at `at` in `b`, if the eight
/// bytes at `at` say `n` and `n` more bytes follow them.
fn read_len(op: &[u8], at: usize) -> (r: u64)
    requires
        at + 8 <= op@.len(),
    ensures
        r == be_u64(op@.subrange(at as int, at + 8)),
{
    be_bytes_to_u64(op, at)
}

/// Reads the type name and the command out of a request payload.
pub fn Simplify(operation: &[u8]) -> (r: Result<(String, String), ServerError>)
    ensures
        match parse_request(operation@) {
            Ok((t, c)) => r matches Ok((rt, rc)) && rt@ == t && rc@ == c,
            Err(e) => r matches Err(x) && x@ == e,
        },
{
    let n = operation.len();
    if n < 8 {
        return Err(
            ServerError::InvalidRedisCommand("Invalid operation: missing type length".to_string()),
        );
    }
    let type_len = read_len(operation, 0);
    assert(operation@.subrange(0, 8) =~= operation@.take(8));
    assert(be_u64(operation@.subrange(0, 8)) == be_u64(operation@));
    if type_len > (n - 8) as u64 {
        return Err(
            ServerError::InvalidRedisCommand(
                "Invalid operation: type length exceeds packet size".to_string(),
            ),
        );
    }
    let tl = type_len as usize;
    let type_bytes = copy_bytes(vstd::slice::slice_subrange(operation, 8, 8 + tl));
    let redis_type = match string_from_utf8(type_bytes) {
        Ok(s) => s,
        Err(_) => {
            return Err(
                ServerError::InvalidRedisCommand("Redis type contains invalid UTF-8".to_string()),
            );
        },
    };
    let position = 8 + tl;
    if n - position < 8 {
        return Err(
            ServerError::InvalidRedisCommand(
                "Invalid operation: missing command length".to_string(),
            ),
        );
    }
    let command_len = read_len(operation, position);
    if command_len > (n - position - 8) as u64 {
        return Err(
            ServerError::InvalidRedisCommand(
                "Invalid operation: command length exceeds packet size".to_string(),
            ),
        );
    }
    let cl = command_len as usize;
    let command_bytes = copy_bytes(
        vstd::slice::slice_subrange(operation, position + 8, position + 8 + cl),
    );
    let command = match string_from_utf8(command_bytes) {
        Ok(s) => s,
        Err(_) => {
            return Err(
                ServerError::InvalidRedisCommand("Command contains invalid UTF-8".to_string()),
            );
        },
    };
    Ok((redis_type, command))
}

/// The payload of a request for the type name `t` and the command `c`.
pub open spec fn request_payload(t: Seq<u8>, c: Seq<u8>) -> Seq<u8> {
    u64_be(t.len() as u64) + t + u64_be(c.len() as u64) + c
}

/// A request as it goes on the wire: the payload's length, then the payload.
pub open spec fn request_frame(t: Seq<u8>, c: Seq<u8>) -> Seq<u8> {
    u64_be(request_payload(t, c).len() as u64) + request_payload(t, c)
}

/// The pieces of a request: the type name's bytes and length, the
/// command's bytes and length.
pub fn CreateBuffer(redis_type: &str, command: &str) -> (r: (Vec<u8>, Vec<u8>, Vec<u8>, Vec<u8>))
    ensures
        r.0@ == encode_utf8(redis_type@),
        r.1@ == u64_be(encode_utf8(redis_type@).len() as u64),
        r.2@ == encode_utf8(command@),
        r.3@ == u64_be(encode_utf8(command@).len() as u64),
{
    let t_bytes = redis_type.as_bytes_vec();
    let t_len = u64_to_be_bytes(t_bytes.len() as u64);
    let data_bytes = command.as_bytes_vec();
    let data_len = u64_to_be_bytes(data_bytes.len() as u64);
    (t_bytes, t_len, data_bytes, data_len)
}

/// Puts the pieces of a request together as they go on the wire: the
/// total length, then the type name's length and bytes, then the
/// command's length and bytes.
pub fn frame_request(t_bytes: &[u8], t_len: &[u8], data_bytes: &[u8], data_len: &[u8]) -> (r:
    Vec<u8>)
    ensures
        r@ == u64_be((t_len@ + t_bytes@ + data_len@ + data_bytes@).len() as u64) + (t_len@
            + t_bytes@ + data_len@ + data_bytes@),
{
    let mut buffer: Vec<u8> = Vec::new();
    append_bytes(&mut buffer, t_len);
    append_bytes(&mut buffer, t_bytes);
    append_bytes(&mut buffer, data_len);
    append_bytes(&mut buffer, data_bytes);
    let mut r = u64_to_be_bytes(buffer.len() as u64);
    append_bytes(&mut r, buffer.as_slice());
    r
}

/// The request that asks the server to run `command` as a command of type
/// `redis_type`, as it goes on the wire.
pub fn encode_request(redis_type: &str, command: &str) -> (r: Vec<u8>)
    ensures
        r@ == request_frame(encode_utf8(redis_type@), encode_utf8(command@)),
{
    let (t_bytes, t_len, data_bytes, data_len) = CreateBuffer(redis_type, command);
    frame_request(t_bytes.as_slice(), t_len.as_slice(), data_bytes.as_slice(), data_len.as_slice())
}

proof fn lemma_be_prefix(x: u64, rest: Seq<u8>)
    ensures
        be_u64(u64_be(x) + rest) == x,
        (u64_be(x) + rest).subrange(0, 8) == u64_be(x),
{
    lemma_be_roundtrip(x);
    let s = u64_be(x) + rest;
    assert(s.subrange(0, 8) =~= u64_be(x));
    assert(s[0] == u64_be(x)[0] && s[1] == u64_be(x)[1] && s[2] == u64_be(x)[2]);
    assert(s[3] == u64_be(x)[3] && s[4] == u64_be(x)[4] && s[5] == u64_be(x)[5]);
    assert(s[6] == u64_be(x)[6] && s[7] == u64_be(x)[7]);
}

/// The server reads back exactly the type name and the command that the
/// client put in a request.
pub proof fn lemma_request_roundtrip(t: Seq<char>, c: Seq<char>)
    requires
        encode_utf8(t).len() <= u64::MAX,
        encode_utf8(c).len() <= u64::MAX,
    ensures
        parse_request(request_payload(encode_utf8(t), encode_utf8(c))) == Ok::<
            (Seq<char>, Seq<char>),
            ErrorView,
        >((t, c)),
{
    let tb = encode_utf8(t);
    let cb = encode_utf8(c);
    let p = request_payload(tb, cb);
    let tl = tb.len() as int;
    let cl = cb.len() as int;
    lemma_be_prefix(tb.len() as u64, tb + u64_be(cb.len() as u64) + cb);
    assert(p =~= u64_be(tb.len() as u64) + (tb + u64_be(cb.len() as u64) + cb));
    assert(be_u64(p) == tb.len());
    assert(p.subrange(8, 8 + tl) =~= tb);
    let q = p.subrange(8 + tl, 16 + tl);
    lemma_be_roundtrip(cb.len() as u64);
    assert(q =~= u64_be(cb.len() as u64));
    assert(p.subrange(16 + tl, 16 + tl + cl) =~= cb);
}

/// The answer that the server sends for the request of type `t` whose
/// command gave `r`: nothing for a publish/subscribe command that has no
/// payload; otherwise status 1 and the payload if there is one, or status 0
/// and the error's text.
pub open spec fn answer_frame(t: Seq<char>, r: Result<Option<Seq<u8>>, ErrorView>) -> Option<
    Seq<u8>,
> {
    match r {
        Ok(Some(x)) => Some(seq![1u8] + u64_be(x.len() as u64) + x),
        Ok(None) => if trim(t) == "pubSub"@ {
            None
        } else {
            Some(seq![1u8])
        },
        Err(e) => match error_text(e) {
            Some(m) => Some(seq![0u8] + u64_be(encode_utf8(m).len() as u64) + encode_utf8(m)),
            None => None,
        },
    }
}

/// The answer to send for a request of type `redis_type` whose command
/// gave `res`, if there is one to send.
pub fn encode_answer(redis_type: &str, res: &Result<Option<Vec<u8>>, ServerError>) -> (r: Option<
    Vec<u8>,
>)
    ensures
        answer_frame(redis_type@, reply_view(*res)) matches Some(f) ==> r matches Some(x) && x@
            == f,
        reply_view(*res) is Ok && answer_frame(redis_type@, reply_view(*res)) is None ==> r is None,
        reply_view(*res) matches Err(e) ==> r matches Some(x) && x@.len() >= 9 && x@[0] == 0u8,
{
    match res {
        Ok(Some(x)) => {
            let mut out: Vec<u8> = Vec::new();
            out.push(1u8);
            let len = u64_to_be_bytes(x.len() as u64);
            append_bytes(&mut out, len.as_slice());
            append_bytes(&mut out, x.as_slice());
            assert(out@ =~= seq![1u8] + u64_be(x@.len() as u64) + x@);
            Some(out)
        },
        Ok(None) => {
            let t = trim_chars(&chars_of(redis_type));
            if is_text(&t, "pubSub") {
                None
            } else {
                let mut out: Vec<u8> = Vec::new();
                out.push(1u8);
                assert(out@ =~= seq![1u8]);
                Some(out)
            }
        },
        Err(e) => {
            let m = e.message();
            let b = m.as_str().as_bytes_vec();
            let mut out: Vec<u8> = Vec::new();
            out.push(0u8);
            let len = u64_to_be_bytes(b.len() as u64);
            append_bytes(&mut out, len.as_slice());
            append_bytes(&mut out, b.as_slice());
            assert(out@ =~= seq![0u8] + u64_be(b@.len() as u64) + b@);
            Some(out)
        },
    }
}

/// How far the client has got in reading an answer.
pub enum AnswerRead {
    /// This many more bytes are needed.
    NeedMore(u64),
    /// The answer is complete: its payload or its error.
    Done(Result<Vec<u8>, ServerError>),
}

/// What the client makes of an answer read so far.
pub enum AnswerView {
    /// This many more bytes are needed.
    More(nat),
    /// The answer carries this payload (empty where none is expected).
    Value(Seq<u8>),
    /// The server reported an error with this text, or the status byte was
    /// not one the protocol knows.
    Failure(Seq<char>),
    /// The server reported an error whose text is not UTF-8.
    Garbled,
}

/// What the client reads from the bytes `buf` of an answer, where
/// `with_value` says whether the request expects a payload.
pub open spec fn read_answer(buf: Seq<u8>, with_value: bool) -> AnswerView {
    if buf.len() == 0 {
        AnswerView::More(1)
    } else if buf[0] == 1 && !with_value {
        AnswerView::Value(seq![])
    } else if buf[0] == 1 || buf[0] == 0 {
        if buf.len() < 9 {
            AnswerView::More((9 - buf.len()) as nat)
        } else {
            let n = be_u64(buf.subrange(1, 9)) as int;
            if buf.len() < 9 + n {
                AnswerView::More((9 + n - buf.len()) as nat)
            } else if buf[0] == 1 {
                AnswerView::Value(buf.subrange(9, 9 + n))
            } else if valid_utf8(buf.subrange(9, 9 + n)) {
                AnswerView::Failure(decode_utf8(buf.subrange(9, 9 + n)))
            } else {
                AnswerView::Garbled
            }
        }
    } else {
        AnswerView::Failure("Invalid status code: "@ + decimal(buf[0] as nat))
    }
}

/// Reads an answer from the bytes `buf` received so far; `with_value` says
/// whether the request expects a payload.
pub fn ReadStatus(buf: &[u8], with_value: bool) -> (r: AnswerRead)
    ensures
        match read_answer(buf@, with_value) {
            AnswerView::More(n) => r matches AnswerRead::NeedMore(k) && k == n,
            AnswerView::Value(v) => r matches AnswerRead::Done(Ok(x)) && x@ == v,
            AnswerView::Failure(m) => r matches AnswerRead::Done(Err(e)) && e@
                == ErrorView::ServerResponse(m),
            AnswerView::Garbled => r matches AnswerRead::Done(Err(e)) && e@ is ServerResponse,
        },
{
    if buf.len() == 0 {
        return AnswerRead::NeedMore(1);
    }
    let status = buf[0];
    if status == 1 && !with_value {
        return AnswerRead::Done(Ok(Vec::new()));
    }
    if status == 1 || status == 0 {
        if buf.len() < 9 {
            return AnswerRead::NeedMore((9 - buf.len()) as u64);
        }
        let n = read_len(buf, 1);
        let have = (buf.len() - 9) as u64;
        if have < n {
            return AnswerRead::NeedMore(n - have);
        }
        let nn = n as usize;
        let body = copy_bytes(vstd::slice::slice_subrange(buf, 9, 9 + nn));
        if status == 1 {
            return AnswerRead::Done(Ok(body));
        }
        match string_from_utf8(body) {
            Ok(s) => AnswerRead::Done(Err(ServerError::ServerResponse(s))),
            Err(e) => AnswerRead::Done(Err(ServerError::ServerResponse(utf8_error_text(&e)))),
        }
    } else {
        let mut digits: Vec<char> = Vec::new();
        push_decimal(&mut digits, status as u64);
        let mut msg = "Invalid status code: ".to_string();
        msg.append(string_of(&digits).as_str());
        AnswerRead::Done(Err(ServerError::ServerResponse(msg)))
    }
}

} // verus!
