//! The request model: a request text is parsed line by line into a method,
//! a version, a resource path, a header mapping and a one-line body.
//!
//! A line that contains `HTTP` is a request line, another line with a colon
//! is a header, and the first of the remaining lines that is not empty is
//! the body. Header names are kept as written; header values are kept as
//! written but for the white space in front of them, which is dropped.

use vstd::prelude::*;
use vstd::std_specs::convert::FromSpecImpl;
use crate::headers::Headers;
use crate::text::{
    contains,
    find_first,
    first_index,
    has_substring,
    is_whitespace,
    is_word,
    lemma_contains_char,
    lemma_first_index,
    lemma_lines_first,
    lemma_words_empty,
    lemma_words_first,
    lemma_words_skip_whitespace,
    lines,
    occurs_at,
    next_line,
    next_word,
    slice_chars,
    str_eq,
    string_from_chars,
    to_chars,
    trim_start,
    words,
    CharClass,
};

verus! {

/// The request method.
#[allow(non_camel_case_types)]
#[derive(Debug, Clone, Copy, PartialEq, Eq, Structural)]
pub enum Method {
    GET,
    POST,
    /// Any method that is not recognized.
    UNINITIALIZED,
}

impl Method {
    /// The method that a token of the request line stands for.
    pub open spec fn of(token: Seq<char>) -> Method {
        if token == "GET"@ {
            Method::GET
        } else if token == "POST"@ {
            Method::POST
        } else {
            Method::UNINITIALIZED
        }
    }
}

impl<'a> From<&'a str> for Method {
    fn from(value: &'a str) -> (m: Method) {
        if str_eq(value, "GET") {
            Method::GET
        } else if str_eq(value, "POST") {
            Method::POST
        } else {
            Method::UNINITIALIZED
        }
    }
}

impl<'a> FromSpecImpl<&'a str> for Method {
    open spec fn obeys_from_spec() -> bool {
        true
    }

    open spec fn from_spec(value: &'a str) -> Method {
        Method::of(value@)
    }
}

/// The protocol version.
#[allow(non_camel_case_types)]
#[derive(Debug, Clone, Copy, PartialEq, Eq, Structural)]
pub enum Version {
    V1_1,
    /// Reserved: no token parses to it.
    V2_0,
    /// Any version token other than `HTTP/1.1`.
    UNINITIALIZED,
}

impl Version {
    /// The version that a token of the request line stands for.
    pub open spec fn of(token: Seq<char>) -> Version {
        if token == "HTTP/1.1"@ {
            Version::V1_1
        } else {
            Version::UNINITIALIZED
        }
    }
}

impl<'a> From<&'a str> for Version {
    fn from(value: &'a str) -> (v: Version) {
        if str_eq(value, "HTTP/1.1") {
            Version::V1_1
        } else {
            Version::UNINITIALIZED
        }
    }
}

impl<'a> FromSpecImpl<&'a str> for Version {
    open spec fn obeys_from_spec() -> bool {
        true
    }

    open spec fn from_spec(value: &'a str) -> Version {
        Version::of(value@)
    }
}

/// The request target: a path, kept as the text found in the request line.
#[derive(Debug, Clone, PartialEq)]
pub enum Resource {
    Path(String),
}

impl View for Resource {
    type V = Seq<char>;

    /// The path as text.
    open spec fn view(&self) -> Seq<char> {
        match self {
            Resource::Path(p) => p@,
        }
    }
}

/// Why a request text was rejected.
#[derive(Debug, Clone, Copy, PartialEq, Eq, Structural)]
pub enum ParseError {
    /// A request line has fewer than three words.
    IncompleteRequestLine,
    /// A header line has no colon after which its value could start.
    MissingHeaderSeparator,
}

impl ParseError {
    /// A sentence that describes the error.
    pub fn message(&self) -> (s: &'static str)
        ensures
            s@ == match *self {
                ParseError::IncompleteRequestLine => "request line has fewer than three words"@,
                ParseError::MissingHeaderSeparator => "header line has no colon"@,
            },
    {
        match self {
            ParseError::IncompleteRequestLine => "request line has fewer than three words",
            ParseError::MissingHeaderSeparator => "header line has no colon",
        }
    }
}

/// What a request is, mathematically.
pub struct RequestView {
    pub method: Method,
    pub version: Version,
    pub path: Seq<char>,
    pub headers: Map<Seq<char>, Seq<char>>,
    pub body: Seq<char>,
}

/// A parsed request.
#[derive(Debug, PartialEq)]
pub struct HttpRequest {
    pub method: Method,
    pub version: Version,
    pub resource: Resource,
    pub headers: Headers,
    pub msg_body: String,
}

impl View for HttpRequest {
    type V = RequestView;

    open spec fn view(&self) -> RequestView {
        RequestView {
            method: self.method,
            version: self.version,
            path: self.resource@,
            headers: self.headers@,
            body: self.msg_body@,
        }
    }
}

/// What a request line holds: the method, the path and the version that its
/// first three words stand for. Further words are ignored; with fewer than
/// three the line is rejected.
pub open spec fn request_line(line: Seq<char>) -> Result<(Method, Seq<char>, Version), ParseError> {
    let w = words(line);
    if w.len() < 3 {
        Err(ParseError::IncompleteRequestLine)
    } else {
        Ok((Method::of(w[0]), w[1], Version::of(w[2])))
    }
}

/// What a header line holds: the name before its first colon, as it is
/// written, and the value after it, without the white space in front of it.
/// White space at the end of the value stays. A line without a colon is
/// rejected.
pub open spec fn header_line(line: Seq<char>) -> Result<(Seq<char>, Seq<char>), ParseError> {
    let k = first_index(line, CharClass::Exactly(':'));
    if 0 <= k < line.len() {
        Ok((line.take(k), trim_start(line.skip(k + 1))))
    } else {
        Err(ParseError::MissingHeaderSeparator)
    }
}

/// The kinds of line in a request text.
pub enum LineKind {
    /// A line that contains `HTTP`.
    RequestLine,
    /// Another line that contains a colon.
    Header,
    /// Another line that is empty.
    Blank,
    /// Any other line.
    Body,
}

/// The kind of a line.
pub open spec fn line_kind(line: Seq<char>) -> LineKind {
    if contains(line, "HTTP"@) {
        LineKind::RequestLine
    } else if line.contains(':') {
        LineKind::Header
    } else if line.len() == 0 {
        LineKind::Blank
    } else {
        LineKind::Body
    }
}

/// The request before any line was read.
pub open spec fn initial_request() -> RequestView {
    RequestView {
        method: Method::UNINITIALIZED,
        version: Version::V1_1,
        path: Seq::empty(),
        headers: Map::empty(),
        body: Seq::empty(),
    }
}

/// The request after one more line was read. A request line replaces method,
/// path and version; a header line sets one header; the first body line
/// becomes the body and later ones are dropped.
pub open spec fn apply_line(acc: RequestView, line: Seq<char>) -> Result<RequestView, ParseError> {
    match line_kind(line) {
        LineKind::RequestLine => match request_line(line) {
            Ok(parts) => Ok(RequestView { method: parts.0, path: parts.1, version: parts.2, ..acc }),
            Err(e) => Err(e),
        },
        LineKind::Header => match header_line(line) {
            Ok(pair) => Ok(RequestView { headers: acc.headers.insert(pair.0, pair.1), ..acc }),
            Err(e) => Err(e),
        },
        LineKind::Blank => Ok(acc),
        LineKind::Body => if acc.body.len() == 0 {
            Ok(RequestView { body: line, ..acc })
        } else {
            Ok(acc)
        },
    }
}

/// The request after the lines `ls` were read in order, or the error of the
/// first line that is rejected.
pub open spec fn apply_lines(acc: RequestView, ls: Seq<Seq<char>>) -> Result<RequestView, ParseError>
    decreases ls.len(),
{
    if ls.len() == 0 {
        Ok(acc)
    } else {
        match apply_line(acc, ls[0]) {
            Ok(next) => apply_lines(next, ls.drop_first()),
            Err(e) => Err(e),
        }
    }
}

/// The request that a text stands for.
pub open spec fn parse_request(text: Seq<char>) -> Result<RequestView, ParseError> {
    apply_lines(initial_request(), lines(text))
}

fn req_line_of(v: &Vec<char>) -> (r: Result<(Method, Resource, Version), ParseError>)
    ensures
        match request_line(v@) {
            Ok(parts) => r matches Ok(t) && t.0 == parts.0 && t.1@ == parts.1 && t.2 == parts.2,
            Err(e) => r matches Err(x) && x == e,
        },
{
    assert(v@.skip(0) =~= v@);
    let (a0, a1) = next_word(v, 0);
    if a0 == a1 {
        return Err(ParseError::IncompleteRequestLine);
    }
    let (b0, b1) = next_word(v, a1);
    if b0 == b1 {
        return Err(ParseError::IncompleteRequestLine);
    }
    let (c0, c1) = next_word(v, b1);
    if c0 == c1 {
        return Err(ParseError::IncompleteRequestLine);
    }
    let method_text = string_from_chars(v, a0, a1);
    let path = string_from_chars(v, b0, b1);
    let version_text = string_from_chars(v, c0, c1);
    let method = Method::from(method_text.as_str());
    let version = Version::from(version_text.as_str());
    Ok((method, Resource::Path(path), version))
}

fn header_of(v: &Vec<char>) -> (r: Result<(String, String), ParseError>)
    ensures
        match header_line(v@) {
            Ok(pair) => r matches Ok(t) && t.0@ == pair.0 && t.1@ == pair.1,
            Err(e) => r matches Err(x) && x == e,
        },
{
    assert(v@.skip(0) =~= v@);
    let k = find_first(v, 0, CharClass::Exactly(':'));
    if k < v.len() {
        let key = string_from_chars(v, 0, k);
        let start = find_first(v, k + 1, CharClass::NonWhitespace);
        let value = string_from_chars(v, start, v.len());
        proof {
            let rest = v@.skip(k + 1);
            assert(rest.skip(start - (k + 1)) =~= v@.subrange(start as int, v@.len() as int));
        }
        Ok((key, value))
    } else {
        Err(ParseError::MissingHeaderSeparator)
    }
}

fn has_colon(v: &Vec<char>) -> (r: bool)
    ensures
        r == v@.contains(':'),
{
    let k = find_first(v, 0, CharClass::Exactly(':'));
    k < v.len()
}

/// Reads a request line: the method, the path and the version of its first
/// three words, or an error if it has fewer.
pub fn process_req_line(s: &str) -> (r: Result<(Method, Resource, Version), ParseError>)
    ensures
        match request_line(s@) {
            Ok(parts) => r matches Ok(t) && t.0 == parts.0 && t.1@ == parts.1 && t.2 == parts.2,
            Err(e) => r matches Err(x) && x == e,
        },
{
    let v = to_chars(s);
    req_line_of(&v)
}

/// Reads a header line: the name before the first colon and the value after
/// it, without the white space in front of the value, or an error if the
/// line has no colon.
pub fn process_header_line(s: &str) -> (r: Result<(String, String), ParseError>)
    ensures
        match header_line(s@) {
            Ok(pair) => r matches Ok(t) && t.0@ == pair.0 && t.1@ == pair.1,
            Err(e) => r matches Err(x) && x == e,
        },
{
    let v = to_chars(s);
    header_of(&v)
}

impl HttpRequest {
    /// Parses a request text. The result is the request that the text
    /// stands for, or the error of its first rejected line.
    pub fn parse(text: &str) -> (r: Result<HttpRequest, ParseError>)
        ensures
            match parse_request(text@) {
                Ok(request) => r matches Ok(parsed) && parsed@ == request,
                Err(e) => r matches Err(x) && x == e,
            },
    {
        let v = to_chars(text);
        let http = to_chars("HTTP");
        let mut method = Method::UNINITIALIZED;
        let mut version = Version::V1_1;
        let mut resource = Resource::Path(String::new());
        let mut headers = Headers::new();
        let mut msg_body = String::new();
        let mut i: usize = 0;
        assert(v@.skip(0) =~= v@);
        while i < v.len()
            invariant
                i <= v.len(),
                v@ == text@,
                http@ == "HTTP"@,
                apply_lines(
                    RequestView {
                        method,
                        version,
                        path: resource@,
                        headers: headers@,
                        body: msg_body@,
                    },
                    lines(v@.skip(i as int)),
                ) == parse_request(text@),
            decreases v.len() - i,
        {
            let (end, next) = next_line(&v, i);
            let line = slice_chars(&v, i, end);
            proof {
                let s = v@.skip(i as int);
                let ls = lines(s);
                assert(ls[0] == line@);
                assert(ls.drop_first() =~= lines(v@.skip(next as int)));
            }
            if has_substring(&line, &http) {
                match req_line_of(&line) {
                    Ok(parts) => {
                        method = parts.0;
                        resource = parts.1;
                        version = parts.2;
                    },
                    Err(e) => {
                        return Err(e);
                    },
                }
            } else if has_colon(&line) {
                match header_of(&line) {
                    Ok(pair) => {
                        headers.insert(pair.0, pair.1);
                    },
                    Err(e) => {
                        return Err(e);
                    },
                }
            } else if line.len() == 0 {
            } else if msg_body.as_str().is_empty() {
                msg_body = string_from_chars(&line, 0, line.len());
                assert(line@.subrange(0, line@.len() as int) =~= line@);
            }
            i = next;
        }
        Ok(HttpRequest { method, version, resource, headers, msg_body })
    }
}

/// The text of a request line: the method, a space, the path, a space, and
/// the version token `HTTP/1.1`.
pub open spec fn request_line_text(method: Seq<char>, path: Seq<char>) -> Seq<char> {
    method + seq![' '] + path + seq![' '] + "HTTP/1.1"@
}

/// The version token `HTTP/1.1` is a word.
pub proof fn lemma_version_token_is_word()
    ensures
        is_word("HTTP/1.1"@),
        "HTTP/1.1"@.len() == 8,
{
    reveal_strlit("HTTP/1.1");
    let v = "HTTP/1.1"@;
    assert(v =~= seq!['H', 'T', 'T', 'P', '/', '1', '.', '1']);
    assert(!is_whitespace('H') && !is_whitespace('T') && !is_whitespace('P') && !is_whitespace('/')
        && !is_whitespace('1') && !is_whitespace('.'));
}

/// The words of the request line `<method> <path> HTTP/1.1` are the method,
/// the path and the version token.
pub proof fn lemma_request_line_words(method: Seq<char>, path: Seq<char>)
    requires
        is_word(method),
        is_word(path),
    ensures
        words(request_line_text(method, path)) == seq![method, path, "HTTP/1.1"@],
{
    let version = "HTTP/1.1"@;
    let line = request_line_text(method, path);
    lemma_version_token_is_word();
    let t4 = version + Seq::<char>::empty();
    let t3 = seq![' '] + t4;
    let t2 = path + t3;
    let t1 = seq![' '] + t2;
    assert(line =~= method + t1);
    assert(is_whitespace(' '));
    assert(t3[0] == ' ');
    assert(t1[0] == ' ');
    lemma_words_empty();
    lemma_words_first(version, Seq::<char>::empty());
    assert(words(t4) =~= seq![version]);
    lemma_words_skip_whitespace(' ', t4);
    lemma_words_first(path, t3);
    assert(words(t2) =~= seq![path, version]);
    lemma_words_skip_whitespace(' ', t2);
    lemma_words_first(method, t1);
    assert(words(line) =~= seq![method, path, version]);
}

/// The request line `<method> <path> HTTP/1.1` contains `HTTP` and no line
/// feed.
pub proof fn lemma_request_line_shape(method: Seq<char>, path: Seq<char>)
    requires
        is_word(method),
        is_word(path),
    ensures
        !request_line_text(method, path).contains('\n'),
        contains(request_line_text(method, path), "HTTP"@),
{
    reveal_strlit("HTTP/1.1");
    reveal_strlit("HTTP");
    let version = "HTTP/1.1"@;
    let line = request_line_text(method, path);
    let at = method.len() as int + 1 + path.len() as int + 1;
    assert(line.len() == at + 8);
    assert(line.subrange(at, at + 4) =~= "HTTP"@);
    assert(occurs_at(line, "HTTP"@, at));
    assert(is_whitespace('\n'));
    assert forall|j: int| 0 <= j < line.len() implies line[j] != '\n' by {
        if j < method.len() {
            assert(line[j] == method[j]);
        } else if j == method.len() {
            assert(line[j] == ' ');
        } else if j < method.len() + 1 + path.len() {
            assert(line[j] == path[j - method.len() - 1]);
        } else if j == method.len() + 1 + path.len() {
            assert(line[j] == ' ');
        } else {
            assert(line[j] == version[j - at]);
        }
    }
}

/// The request line `<method> <path> HTTP/1.1` holds the method that its
/// first word stands for, the path as it is, and version 1.1.
pub proof fn lemma_request_line_text(method: Seq<char>, path: Seq<char>)
    requires
        is_word(method),
        is_word(path),
    ensures
        !request_line_text(method, path).contains('\n'),
        line_kind(request_line_text(method, path)) is RequestLine,
        request_line(request_line_text(method, path)) == Ok::<
            (Method, Seq<char>, Version),
            ParseError,
        >((Method::of(method), path, Version::V1_1)),
{
    lemma_request_line_words(method, path);
    lemma_request_line_shape(method, path);
    let w = words(request_line_text(method, path));
    assert(w.len() == 3);
    assert(w[0] == method && w[1] == path && w[2] == "HTTP/1.1"@);
}

/// Lines that do not contain `HTTP` are never rejected, and leave method,
/// path and version as they were.
pub proof fn lemma_lines_without_request_line(acc: RequestView, ls: Seq<Seq<char>>)
    requires
        forall|i: int| 0 <= i < ls.len() ==> !contains(#[trigger] ls[i], "HTTP"@),
    ensures
        apply_lines(acc, ls) matches Ok(r) && r.method == acc.method && r.path == acc.path
            && r.version == acc.version,
    decreases ls.len(),
{
    if ls.len() > 0 {
        let line = ls[0];
        assert(!contains(line, "HTTP"@));
        lemma_contains_char(line, ':');
        lemma_first_index(line, CharClass::Exactly(':'));
        assert(line_kind(line) is Header ==> header_line(line) is Ok);
        assert(apply_line(acc, line) is Ok);
        let next = apply_line(acc, line)->Ok_0;
        assert(next.method == acc.method && next.path == acc.path && next.version == acc.version);
        let rest = ls.drop_first();
        assert forall|i: int| 0 <= i < rest.len() implies !contains(
            #[trigger] rest[i],
            "HTTP"@,
        ) by {
            assert(rest[i] == ls[i + 1]);
        }
        lemma_lines_without_request_line(next, rest);
    }
}

/// Parsing recovers the request line: a text that starts with the line
/// `<method> <path> HTTP/1.1`, ended by CR LF, and of which no later line
/// contains `HTTP`, is accepted, and the request has the method that the
/// first word stands for, the path as it was written, and version 1.1.
pub proof fn lemma_parse_recovers_request_line(
    method: Seq<char>,
    path: Seq<char>,
    rest: Seq<char>,
)
    requires
        is_word(method),
        is_word(path),
        forall|i: int| 0 <= i < lines(rest).len() ==> !contains(#[trigger] lines(rest)[i], "HTTP"@),
    ensures
        parse_request(request_line_text(method, path) + seq!['\r', '\n'] + rest) matches Ok(r)
            && r.method == Method::of(method) && r.path == path && r.version == Version::V1_1,
{
    let line = request_line_text(method, path);
    lemma_request_line_text(method, path);
    lemma_lines_first(line, rest);
    let ls = lines(line + seq!['\r', '\n'] + rest);
    assert(ls[0] == line);
    assert(ls.drop_first() =~= lines(rest));
    let first = apply_line(initial_request(), line)->Ok_0;
    lemma_lines_without_request_line(first, lines(rest));
}

} // verus!
