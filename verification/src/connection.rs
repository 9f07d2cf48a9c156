//! From the bytes of a request to the text of the response.

use crate::evaluator::{evaluate, evaluate_effect, evaluate_reply};
use crate::record::RecordView;
use crate::store::Store;
use crate::text::trimmed;
use vstd::prelude::*;
use vstd::slice::{slice_subrange, slice_to_vec};
use vstd::std_specs::iter::IteratorSpec;
use vstd::string::StringExecFns;
use vstd::utf8::{decode_utf8, encode_utf8_decode_utf8, valid_utf8};

verus! {

/// The number of bytes that are read of a request.
pub const BUFFER_SIZE: usize = 512;

/// Why a request cannot be read.
#[derive(Debug, Clone, Copy, PartialEq, Eq, Structural)]
pub enum TransportError {
    /// No zero byte ends the payload.
    NoTerminator,
    /// The payload is not UTF-8 text.
    InvalidText,
}

/// The number of bytes of `buffer` that precede its first zero byte; the
/// length of `buffer` if it holds none.
pub open spec fn payload_len(buffer: Seq<u8>) -> int
    decreases buffer.len(),
{
    if buffer.len() == 0 || buffer.first() == 0 {
        0
    } else {
        1 + payload_len(buffer.drop_first())
    }
}

/// The text of the request in `buffer`: what the bytes before the first zero
/// byte encode.
pub open spec fn request_text_spec(buffer: Seq<u8>) -> Result<Seq<char>, TransportError> {
    let payload = buffer.take(payload_len(buffer));
    if payload_len(buffer) >= buffer.len() {
        Err(TransportError::NoTerminator)
    } else if !valid_utf8(payload) {
        Err(TransportError::InvalidText)
    } else {
        Ok(decode_utf8(payload))
    }
}

/// The part of `text` that follows its last line feed; all of `text` if it
/// holds none.
pub open spec fn last_line(text: Seq<char>) -> Seq<char>
    decreases text.len(),
{
    if text.len() == 0 || text.last() == '\n' {
        Seq::empty()
    } else {
        last_line(text.drop_last()).push(text.last())
    }
}

/// The last line of `text` that is not empty, where the lines are the parts
/// between line feeds; empty if every line is.
pub open spec fn last_filled_line(text: Seq<char>) -> Seq<char>
    decreases text.len(),
{
    if text.len() == 0 {
        Seq::empty()
    } else if text.last() == '\n' {
        last_filled_line(text.drop_last())
    } else {
        last_line(text)
    }
}

/// The command line of a request: its last line that is not empty, without
/// the white space at its ends.
pub open spec fn drop_header_spec(text: Seq<char>) -> Seq<char> {
    trimmed(last_filled_line(text))
}

/// The response that carries `result`.
pub open spec fn frame_spec(result: Seq<char>) -> Seq<char> {
    "HTTP/1.1 200 OK \r\n\r\n"@ + result + "\r\n"@
}

/// The mathematical value of a text or an error.
pub open spec fn text_view(text: Result<String, TransportError>) -> Result<
    Seq<char>,
    TransportError,
> {
    match text {
        Ok(text) => Ok(text@),
        Err(error) => Err(error),
    }
}

/// The last line is the end of the text, it holds no line feed, and a line
/// feed stands before it unless it is the whole text.
pub proof fn lemma_last_line(text: Seq<char>)
    ensures
        last_line(text).len() <= text.len(),
        last_line(text) == text.skip(text.len() - last_line(text).len()),
        forall|i: int| 0 <= i < last_line(text).len() ==> last_line(text)[i] != '\n',
        last_line(text).len() < text.len() ==> text[text.len() - last_line(text).len() - 1]
            == '\n',
    decreases text.len(),
{
    if text.len() == 0 || text.last() == '\n' {
    } else {
        lemma_last_line(text.drop_last());
    }
}

/// `payload_len` is where the first zero byte stands.
pub proof fn lemma_payload_len(buffer: Seq<u8>)
    ensures
        0 <= payload_len(buffer) <= buffer.len(),
        forall|i: int| 0 <= i < payload_len(buffer) ==> buffer[i] != 0,
        payload_len(buffer) < buffer.len() ==> buffer[payload_len(buffer)] == 0,
    decreases buffer.len(),
{
    if buffer.len() == 0 || buffer.first() == 0 {
    } else {
        let rest = buffer.drop_first();
        lemma_payload_len(rest);
        assert forall|i: int| 0 <= i < payload_len(buffer) implies buffer[i] != 0 by {
            if i > 0 {
                assert(buffer[i] == rest[i - 1]);
            }
        }
        assert(payload_len(rest) < rest.len() ==> rest[payload_len(rest)] == buffer[payload_len(
            buffer,
        )]);
    }
}

/// An index is `payload_len` if a zero byte stands there and none before.
pub proof fn lemma_payload_len_unique(buffer: Seq<u8>, at: int)
    requires
        0 <= at <= buffer.len(),
        forall|i: int| 0 <= i < at ==> buffer[i] != 0,
        at < buffer.len() ==> buffer[at] == 0,
    ensures
        payload_len(buffer) == at,
{
    lemma_payload_len(buffer);
}

/// Where the first zero byte of `buffer` stands, if it holds one.
pub fn find_terminator(buffer: &[u8]) -> (found: Option<usize>)
    ensures
        match found {
            Some(at) => {
                &&& at < buffer@.len()
                &&& buffer@[at as int] == 0
                &&& forall|i: int| 0 <= i < at ==> buffer@[i] != 0
                &&& at == payload_len(buffer@)
            },
            None => {
                &&& forall|i: int| 0 <= i < buffer@.len() ==> buffer@[i] != 0
                &&& payload_len(buffer@) == buffer@.len()
            },
        },
{
    let mut i: usize = 0;
    while i < buffer.len()
        invariant
            i <= buffer@.len(),
            forall|j: int| 0 <= j < i ==> buffer@[j] != 0,
        decreases buffer@.len() - i,
    {
        if buffer[i] == 0 {
            proof {
                lemma_payload_len_unique(buffer@, i as int);
            }
            return Some(i);
        }
        i += 1;
    }
    proof {
        lemma_payload_len_unique(buffer@, i as int);
    }
    None
}

/// Reads the text of a request: the bytes before the first zero byte,
/// decoded.
pub fn request_text(buffer: &[u8]) -> (text: Result<String, TransportError>)
    ensures
        text_view(text) == request_text_spec(buffer@),
{
    match find_terminator(buffer) {
        None => Err(TransportError::NoTerminator),
        Some(end) => {
            let payload = slice_to_vec(slice_subrange(buffer, 0, end));
            assert(payload@ == buffer@.take(end as int));
            match String::from_utf8(payload) {
                Ok(text) => {
                    proof {
                        encode_utf8_decode_utf8(text@);
                    }
                    Ok(text)
                },
                Err(_) => Err(TransportError::InvalidText),
            }
        },
    }
}

/// Keeps the last line of a request that is not empty, without the white
/// space at its ends: the lines before it are headers.
pub fn drop_header(http_msg: &String) -> (line: String)
    ensures
        line@ == drop_header_spec(http_msg@),
{
    let mut filled = String::new();
    let mut line = String::new();
    for c in it: http_msg.as_str().chars()
        invariant
            it.seq() == http_msg@,
            line@ == last_line(http_msg@.take(it.index() as int)),
            last_filled_line(http_msg@.take(it.index() as int)) == if line@.len() > 0 {
                line@
            } else {
                filled@
            },
    {
        proof {
            let read = http_msg@.take(it.index() + 1);
            assert(read.drop_last() == http_msg@.take(it.index() as int));
            assert(read.last() == c);
        }
        if c == '\n' {
            if !line.as_str().is_empty() {
                filled = line;
            }
            line = String::new();
        } else {
            line.push(c);
        }
    }
    assert(http_msg@.take(http_msg@.len() as int) == http_msg@);
    if line.as_str().is_empty() {
        line = filled;
    }
    line.as_str().trim().to_owned()
}

/// Wraps the result of a command in the envelope of a response.
pub fn frame_response(result: &String) -> (response: String)
    ensures
        response@ == frame_spec(result@),
{
    let mut response = String::from_str("HTTP/1.1 200 OK \r\n\r\n");
    response.append(result.as_str());
    response.append("\r\n");
    response
}

/// The response to the request in `buffer` on a store that holds `entries`.
pub open spec fn response_spec(buffer: Seq<u8>, entries: Map<Seq<char>, RecordView>) -> Result<
    Seq<char>,
    TransportError,
> {
    match request_text_spec(buffer) {
        Ok(text) => Ok(frame_spec(evaluate_reply(drop_header_spec(text), entries))),
        Err(error) => Err(error),
    }
}

/// What a store that holds `entries` holds after the request in `buffer`: a
/// request that cannot be read changes nothing.
pub open spec fn request_effect(buffer: Seq<u8>, entries: Map<Seq<char>, RecordView>) -> Map<
    Seq<char>,
    RecordView,
> {
    match request_text_spec(buffer) {
        Ok(text) => evaluate_effect(drop_header_spec(text), entries),
        Err(_) => entries,
    }
}

/// Serves one request: reads its command line, runs it against the store and
/// returns the response to write back.
pub fn handle_request(buffer: &[u8], db: &mut Store) -> (response: Result<String, TransportError>)
    ensures
        text_view(response) == response_spec(buffer@, old(db)@),
        final(db)@ == request_effect(buffer@, old(db)@),
{
    match request_text(buffer) {
        Ok(text) => {
            let user_input = drop_header(&text);
            let result = evaluate(&user_input, db);
            Ok(frame_response(&result))
        },
        Err(error) => Err(error),
    }
}

} // verus!
