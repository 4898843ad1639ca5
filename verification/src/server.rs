//! The server: where it listens, and what it makes of the bytes that a
//! connection delivers.

use vstd::prelude::*;
use vstd::utf8::{
    decode_utf8,
    encode_utf8,
    encode_utf8_decode_utf8,
    encode_utf8_valid_utf8,
    valid_utf8,
};
use crate::httprequest::{parse_request, HttpRequest, RequestView};
use crate::httpresponse::{new_response, HttpResponse, ResponseView};
use crate::text::{
    find_substring,
    first_occurrence,
    is_numeral,
    next_word,
    numeral_value,
    occurs_at,
    read_numeral,
    string_from_chars,
    text_of_bytes,
    to_chars,
    words,
    Numeral,
};

verus! {

/// The request that received bytes stand for: the one that their text
/// parses to, if they are valid UTF-8 and the text is accepted.
pub open spec fn received(bytes: Seq<u8>) -> Option<RequestView> {
    if valid_utf8(bytes) {
        match parse_request(decode_utf8(bytes)) {
            Ok(request) => Some(request),
            Err(_) => None,
        }
    } else {
        None
    }
}

/// The response to bytes that stand for no request: status 400, the
/// default headers and no body.
pub open spec fn bad_request_response() -> ResponseView {
    new_response("400"@, None, None)
}

/// What ends the head of a request: an empty line after the last header.
pub open spec fn head_terminator() -> Seq<char> {
    "\r\n\r\n"@
}

/// The length that a `Content-Length` value declares: the number of its one
/// word, if that is a numeral, and 0 otherwise.
pub open spec fn length_of(value: Seq<char>) -> nat {
    let w = words(value);
    if w.len() == 1 && is_numeral(w[0]) {
        numeral_value(w[0])
    } else {
        0
    }
}

/// The length that the head of a request declares for its body: that of its
/// `Content-Length` header; 0 where the head has no such header or is
/// rejected.
pub open spec fn declared_length(head: Seq<char>) -> nat {
    match parse_request(head) {
        Ok(request) => if request.headers.contains_key("Content-Length"@) {
            length_of(request.headers["Content-Length"@])
        } else {
            0
        },
        Err(_) => 0,
    }
}

/// A text holds a whole request: the head is ended, and at least as many
/// bytes follow it as it declares for the body.
pub open spec fn whole_request(text: Seq<char>) -> bool {
    let end = first_occurrence(text, head_terminator());
    &&& occurs_at(text, head_terminator(), end)
    &&& encode_utf8(text.skip(end + head_terminator().len())).len() >= declared_length(
        text.take(end),
    )
}

/// Received bytes hold a whole request: they are valid UTF-8, and their
/// text holds one.
pub open spec fn complete(bytes: Seq<u8>) -> bool {
    valid_utf8(bytes) && whole_request(decode_utf8(bytes))
}

fn declared(head: &str) -> (r: Option<usize>)
    ensures
        match r {
            Some(n) => n == declared_length(head@),
            None => declared_length(head@) > usize::MAX,
        },
{
    match HttpRequest::parse(head) {
        Ok(request) => match request.headers.get("Content-Length") {
            Some(value) => {
                let v = to_chars(value.as_str());
                assert(v@.skip(0) =~= v@);
                let (a, b) = next_word(&v, 0);
                if a == b {
                    return Some(0);
                }
                let (c, d) = next_word(&v, b);
                if c != d {
                    return Some(0);
                }
                match read_numeral(&v, a, b) {
                    Numeral::Value(n) => Some(n),
                    Numeral::TooLarge => None,
                    Numeral::Invalid => Some(0),
                }
            },
            None => Some(0),
        },
        Err(_) => Some(0),
    }
}

/// A server.
#[derive(Debug, Clone, PartialEq)]
pub struct Server<'a> {
    socket_address: &'a str,
}

impl<'a> Server<'a> {
    /// The address at which the server listens, as text.
    pub closed spec fn address(&self) -> Seq<char> {
        self.socket_address@
    }

    /// A server that listens at `socket_address`.
    pub fn new(socket_address: &'a str) -> (s: Server<'a>)
        ensures
            s.address() == socket_address@,
    {
        Server { socket_address }
    }

    /// The address at which the server listens.
    pub fn socket_address(&self) -> (a: &'a str)
        ensures
            a@ == self.address(),
    {
        self.socket_address
    }

    /// Decides whether the bytes received so far hold a whole request.
    pub fn is_complete(bytes: &[u8]) -> (r: bool)
        ensures
            r == complete(bytes@),
    {
        match text_of_bytes(bytes) {
            Some(text) => {
                let v = to_chars(text);
                let terminator = to_chars("\r\n\r\n");
                match find_substring(&v, &terminator) {
                    Some(end) => {
                        assert(end + terminator.len() <= v.len());
                        let head = string_from_chars(&v, 0, end);
                        let body = string_from_chars(&v, end + terminator.len(), v.len());
                        let body_length = body.as_str().as_bytes().len();
                        proof {
                            assert(v@.subrange(0, end as int) =~= v@.take(end as int));
                            assert(v@.subrange(end + terminator@.len(), v@.len() as int) =~= v@.skip(
                                end + terminator@.len(),
                            ));
                        }
                        match declared(head.as_str()) {
                            Some(n) => body_length >= n,
                            None => false,
                        }
                    },
                    None => false,
                }
            },
            None => false,
        }
    }

    /// Decides whether the connection is read once more: while fewer than
    /// `limit` bytes were received and they do not hold a whole request.
    pub fn wants_more(received: &[u8], limit: usize) -> (r: bool)
        ensures
            r == (received@.len() < limit && !complete(received@)),
    {
        received.len() < limit && !Server::is_complete(received)
    }

    /// Reads the bytes that a connection delivered: gives the request that
    /// they stand for, or the response that tells the client that they stand
    /// for none.
    pub fn receive(bytes: &[u8]) -> (r: Result<HttpRequest, HttpResponse<'static>>)
        ensures
            match received(bytes@) {
                Some(request) => r matches Ok(parsed) && parsed@ == request,
                None => r matches Err(response) && response@ == bad_request_response(),
            },
    {
        match text_of_bytes(bytes) {
            Some(text) => match HttpRequest::parse(text) {
                Ok(request) => Ok(request),
                Err(_) => Err(HttpResponse::new("400", None, None)),
            },
            None => Err(HttpResponse::new("400", None, None)),
        }
    }
}

/// What is received as the UTF-8 bytes of a text is the request that the
/// text stands for, if it stands for one.
pub proof fn lemma_received_text(text: Seq<char>)
    ensures
        received(encode_utf8(text)) == match parse_request(text) {
            Ok(request) => Some(request),
            Err(_) => None,
        },
{
    encode_utf8_valid_utf8(text);
    encode_utf8_decode_utf8(text);
}

} // verus!
