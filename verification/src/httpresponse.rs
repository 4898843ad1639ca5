//! The response model: a response is built from a status code, optional
//! headers and an optional body, and serialized to its wire text.

use vstd::prelude::*;
use vstd::std_specs::convert::FromSpecImpl;
use vstd::utf8::encode_utf8;
use crate::headers::{lemma_single_pair, pairs_map, Headers, Pair};
use crate::text::{decimal, push_decimal, str_eq};

verus! {

/// What a response is, mathematically. The headers are pairs of name and
/// value in the order in which they are written out.
pub struct ResponseView {
    pub version: Seq<char>,
    pub status_code: Seq<char>,
    pub status_text: Seq<char>,
    pub headers: Option<Seq<Pair>>,
    pub body: Option<Seq<char>>,
}

/// A response to a request.
#[derive(Debug, PartialEq, Clone)]
pub struct HttpResponse<'a> {
    /// The protocol version.
    pub version: &'a str,
    /// The status code, as text.
    pub status_code: &'a str,
    /// The reason phrase of the status code.
    pub status_text: &'a str,
    /// The headers.
    pub headers: Option<Headers>,
    /// The body.
    pub body: Option<String>,
}

/// The pairs of optional headers.
pub open spec fn pairs_of(headers: Option<Headers>) -> Option<Seq<Pair>> {
    match headers {
        Some(h) => Some(h.pairs()),
        None => None,
    }
}

/// The text of an optional string.
pub open spec fn text_of(body: Option<String>) -> Option<Seq<char>> {
    match body {
        Some(b) => Some(b@),
        None => None,
    }
}

impl<'a> View for HttpResponse<'a> {
    type V = ResponseView;

    open spec fn view(&self) -> ResponseView {
        ResponseView {
            version: self.version@,
            status_code: self.status_code@,
            status_text: self.status_text@,
            headers: pairs_of(self.headers),
            body: text_of(self.body),
        }
    }
}

/// The reason phrase of a status code. Codes outside the table count as
/// `Not Found`.
pub open spec fn reason_phrase(code: Seq<char>) -> Seq<char> {
    if code == "200"@ {
        "OK"@
    } else if code == "400"@ {
        "Bad Request"@
    } else if code == "404"@ {
        "Not Found"@
    } else if code == "500"@ {
        "Internal Server Error"@
    } else {
        "Not Found"@
    }
}

/// The headers of a response that was given none.
pub open spec fn default_headers() -> Seq<Pair> {
    seq![("Content-Type"@, "text/html"@)]
}

/// The response that `HttpResponse::new` builds.
pub open spec fn new_response(
    code: Seq<char>,
    headers: Option<Seq<Pair>>,
    body: Option<Seq<char>>,
) -> ResponseView {
    ResponseView {
        version: "HTTP/1.1"@,
        status_code: code,
        status_text: reason_phrase(code),
        headers: Some(
            match headers {
                Some(h) => h,
                None => default_headers(),
            },
        ),
        body,
    }
}

/// The response that `HttpResponse::default` builds.
pub open spec fn default_response() -> ResponseView {
    ResponseView {
        version: "HTTP/1.1"@,
        status_code: "200"@,
        status_text: "OK"@,
        headers: None,
        body: None,
    }
}

/// The header lines: for each pair the name, a colon, the value, CR LF.
pub open spec fn header_lines(pairs: Seq<Pair>) -> Seq<char>
    decreases pairs.len(),
{
    if pairs.len() == 0 {
        Seq::empty()
    } else {
        header_lines(pairs.drop_last()) + pairs.last().0 + ":"@ + pairs.last().1 + "\r\n"@
    }
}

/// The header lines of optional headers; none where there are no headers.
pub open spec fn header_text(headers: Option<Seq<Pair>>) -> Seq<char> {
    match headers {
        Some(pairs) => header_lines(pairs),
        None => Seq::empty(),
    }
}

/// The text of an optional body; empty where there is no body.
pub open spec fn body_text(body: Option<Seq<char>>) -> Seq<char> {
    match body {
        Some(b) => b,
        None => Seq::empty(),
    }
}

/// The length that is declared for an optional body: the number of bytes of
/// its UTF-8 encoding, and 0 where there is no body.
pub open spec fn content_length(body: Option<Seq<char>>) -> nat {
    match body {
        Some(b) => encode_utf8(b).len(),
        None => 0,
    }
}

/// The status line and the header lines.
pub open spec fn head_text(r: ResponseView) -> Seq<char> {
    r.version + " "@ + r.status_code + " "@ + r.status_text + "\r\n"@ + header_text(r.headers)
}

/// The wire text of a response: status line, header lines, the declared
/// content length, an empty line, and the body.
pub open spec fn wire_text(r: ResponseView) -> Seq<char> {
    head_text(r) + "Content-Length: "@ + decimal(content_length(r.body)) + "\r\n\r\n"@ + body_text(
        r.body,
    )
}

/// A response is consistent when its reason phrase is the one of its status
/// code.
pub open spec fn consistent(r: ResponseView) -> bool {
    r.status_text == reason_phrase(r.status_code)
}

fn reason(code: &str) -> (t: &'static str)
    ensures
        t@ == reason_phrase(code@),
{
    if str_eq(code, "200") {
        "OK"
    } else if str_eq(code, "400") {
        "Bad Request"
    } else if str_eq(code, "404") {
        "Not Found"
    } else if str_eq(code, "500") {
        "Internal Server Error"
    } else {
        "Not Found"
    }
}

impl<'a> Default for HttpResponse<'a> {
    /// Version 1.1, status `200 OK`, no headers and no body.
    fn default() -> (r: HttpResponse<'a>)
        ensures
            r@ == default_response(),
            consistent(r@),
    {
        proof {
            lemma_reason_phrases("200"@);
        }
        HttpResponse {
            version: "HTTP/1.1",
            status_code: "200",
            status_text: "OK",
            headers: None,
            body: None,
        }
    }
}

impl<'a> HttpResponse<'a> {
    /// Builds a response with the given status code, headers and body. The
    /// version is `HTTP/1.1`, the reason phrase is the one of the status
    /// code, and where no headers are given the response gets the single
    /// header `Content-Type: text/html`.
    pub fn new(status_code: &'a str, headers: Option<Headers>, body: Option<String>) -> (r:
        HttpResponse<'a>)
        ensures
            r@ == new_response(status_code@, pairs_of(headers), text_of(body)),
            consistent(r@),
    {
        let status_text = reason(status_code);
        let headers = match headers {
            Some(h) => h,
            None => Headers::single("Content-Type", "text/html"),
        };
        HttpResponse { version: "HTTP/1.1", status_code, status_text, headers: Some(headers), body }
    }

    /// The protocol version.
    pub fn version(&self) -> (s: &str)
        ensures
            s@ == self@.version,
    {
        self.version
    }

    /// The status code.
    pub fn status_code(&self) -> (s: &str)
        ensures
            s@ == self@.status_code,
    {
        self.status_code
    }

    /// The reason phrase.
    pub fn status_text(&self) -> (s: &str)
        ensures
            s@ == self@.status_text,
    {
        self.status_text
    }

    /// The header lines as one text.
    pub fn headers(&self) -> (s: String)
        ensures
            s@ == header_text(self@.headers),
    {
        let mut s = String::new();
        match &self.headers {
            Some(h) => {
                let n = h.len();
                let mut i: usize = 0;
                assert(h.pairs().take(0) =~= Seq::<Pair>::empty());
                while i < n
                    invariant
                        i <= n,
                        n == h.pairs().len(),
                        s@ == header_lines(h.pairs().take(i as int)),
                    decreases n - i,
                {
                    let (name, value) = h.entry(i);
                    proof {
                        let next = h.pairs().take(i + 1);
                        assert(next.drop_last() =~= h.pairs().take(i as int));
                        assert(next.last() == h.pairs()[i as int]);
                    }
                    s.append(name.as_str());
                    s.append(":");
                    s.append(value.as_str());
                    s.append("\r\n");
                    i += 1;
                }
                assert(h.pairs().take(n as int) =~= h.pairs());
            },
            None => {},
        }
        s
    }

    /// The body; the empty text where there is none.
    pub fn body(&self) -> (s: &str)
        ensures
            s@ == body_text(self@.body),
    {
        match &self.body {
            Some(b) => b.as_str(),
            None => {
                proof {
                    reveal_strlit("");
                    assert(""@ =~= Seq::<char>::empty());
                }
                ""
            },
        }
    }

    /// The wire text of the response.
    pub fn serialize(&self) -> (s: String)
        ensures
            s@ == wire_text(self@),
    {
        let mut s = String::new();
        s.append(self.version);
        s.append(" ");
        s.append(self.status_code);
        s.append(" ");
        s.append(self.status_text);
        s.append("\r\n");
        let lines = self.headers();
        s.append(lines.as_str());
        s.append("Content-Length: ");
        let length: usize = match &self.body {
            Some(b) => b.as_str().as_bytes().len(),
            None => 0,
        };
        push_decimal(&mut s, length);
        s.append("\r\n\r\n");
        s.append(self.body());
        proof {
            assert(s@ =~= wire_text(self@));
        }
        s
    }

    /// Writes the response to `write_stream`: appends the UTF-8 bytes of its
    /// wire text and leaves what the stream already holds as it is.
    pub fn send_response(&self, write_stream: &mut Vec<u8>)
        ensures
            final(write_stream)@ == old(write_stream)@ + encode_utf8(wire_text(self@)),
    {
        let text = self.serialize();
        let bytes = text.as_str().as_bytes();
        let mut i: usize = 0;
        while i < bytes.len()
            invariant
                i <= bytes@.len(),
                bytes@ == encode_utf8(wire_text(self@)),
                write_stream@ == old(write_stream)@ + bytes@.take(i as int),
            decreases bytes.len() - i,
        {
            write_stream.push(bytes[i]);
            i += 1;
        }
        assert(bytes@.take(bytes@.len() as int) =~= bytes@);
    }
}

impl<'a> From<HttpResponse<'a>> for String {
    /// The wire text of the response.
    fn from(value: HttpResponse<'a>) -> (s: String)
        ensures
            s@ == wire_text(value@),
    {
        value.serialize()
    }
}

impl<'a> FromSpecImpl<HttpResponse<'a>> for String {
    /// The conversion is specified by the `ensures` of `from`: over the
    /// string's view, not as a value.
    open spec fn obeys_from_spec() -> bool {
        false
    }

    open spec fn from_spec(value: HttpResponse<'a>) -> String {
        choose|s: String| s@ == wire_text(value@)
    }
}

/// A response built for code 200 without headers has the single header
/// `Content-Type: text/html` and the reason phrase `OK`, whatever its body.
pub proof fn lemma_ok_response_defaults(body: Seq<char>)
    ensures
        new_response("200"@, None, Some(body)).status_text == "OK"@,
        new_response("200"@, None, Some(body)).headers == Some(default_headers()),
        pairs_map(default_headers()) == Map::<Seq<char>, Seq<char>>::empty().insert(
            "Content-Type"@,
            "text/html"@,
        ),
{
    lemma_single_pair("Content-Type"@, "text/html"@);
}

/// The reason phrases: `OK` for 200, `Bad Request` for 400, `Not Found` for
/// 404, `Internal Server Error` for 500, and `Not Found` for every other
/// code.
pub proof fn lemma_reason_phrases(code: Seq<char>)
    ensures
        code == "200"@ ==> reason_phrase(code) == "OK"@,
        code == "400"@ ==> reason_phrase(code) == "Bad Request"@,
        code == "404"@ ==> reason_phrase(code) == "Not Found"@,
        code == "500"@ ==> reason_phrase(code) == "Internal Server Error"@,
        code != "200"@ && code != "400"@ && code != "404"@ && code != "500"@ ==> reason_phrase(code)
            == "Not Found"@,
{
    reveal_strlit("200");
    reveal_strlit("400");
    reveal_strlit("404");
    reveal_strlit("500");
    assert("200"@[0] == '2' && "400"@[0] == '4' && "404"@[0] == '4' && "500"@[0] == '5');
    assert("400"@[1] == '0' && "404"@[1] == '0' && "400"@[2] == '0' && "404"@[2] == '4');
}

/// The wire text of a response without a body declares the length 0 and
/// ends with the empty line: nothing follows it.
pub proof fn lemma_wire_text_without_body(r: ResponseView)
    requires
        r.body is None,
    ensures
        wire_text(r) == head_text(r) + "Content-Length: 0\r\n\r\n"@,
{
    reveal_strlit("Content-Length: 0\r\n\r\n");
    reveal_strlit("Content-Length: ");
    reveal_strlit("\r\n\r\n");
    assert(decimal(0) =~= seq!['0']);
    assert("Content-Length: "@ + seq!['0'] + "\r\n\r\n"@ =~= "Content-Length: 0\r\n\r\n"@);
    assert(wire_text(r) =~= head_text(r) + "Content-Length: 0\r\n\r\n"@);
}

} // verus!
