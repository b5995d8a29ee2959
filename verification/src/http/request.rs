//! HTTP requests: methods, the request structure and its builder, and
//! reading a request from bytes.
use vstd::prelude::*;
use vstd::utf8::{valid_utf8, decode_utf8};
use crate::deps::{parse_head, httparse_head, raw_lines, opt_str, RawHead};
use crate::http::body::{
    Body, BodySpec, spec_from_mime, from_mime_defined, first_named, lemma_first_named,
    headers_of_lines, find_header, spec_body_text, multipart_splittable,
};
use crate::http::header::{
    Header, HeaderName, HeaderNameSpec, ContentType, ParsedValueSpec, HeaderSpec, spec_name_from_str,
    spec_parsed_value, trimmed_pieces, spec_params, spec_name_text,
};
use crate::map::map_get;
use crate::sys::{TimeStamp, from_utf8, to_lowercase, unicode_lower};
use crate::text::{chars_of, chars_is, owned, push_str, push_all, string_of, decimal, decimal_chars};

verus! {

/// The request methods.
#[derive(Debug, Clone, Copy, PartialEq, Eq, Structural)]
pub enum HttpMethod {
    GET,
    POST,
    DELETE,
    PUT,
    PATCH,
    OPTIONS,
    HEAD,
    CONNECT,
    TRACE,
}

/// The method named by a text: the exact upper-case name, `GET` for any
/// other text.
pub open spec fn spec_method(s: Seq<char>) -> HttpMethod {
    if s == "GET"@ {
        HttpMethod::GET
    } else if s == "POST"@ {
        HttpMethod::POST
    } else if s == "DELETE"@ {
        HttpMethod::DELETE
    } else if s == "PUT"@ {
        HttpMethod::PUT
    } else if s == "PATCH"@ {
        HttpMethod::PATCH
    } else if s == "OPTIONS"@ {
        HttpMethod::OPTIONS
    } else if s == "HEAD"@ {
        HttpMethod::HEAD
    } else if s == "CONNECT"@ {
        HttpMethod::CONNECT
    } else if s == "TRACE"@ {
        HttpMethod::TRACE
    } else {
        HttpMethod::GET
    }
}

/// The name of a method.
pub open spec fn spec_method_text(m: HttpMethod) -> Seq<char> {
    match m {
        HttpMethod::GET => "GET"@,
        HttpMethod::POST => "POST"@,
        HttpMethod::DELETE => "DELETE"@,
        HttpMethod::PUT => "PUT"@,
        HttpMethod::PATCH => "PATCH"@,
        HttpMethod::OPTIONS => "OPTIONS"@,
        HttpMethod::HEAD => "HEAD"@,
        HttpMethod::CONNECT => "CONNECT"@,
        HttpMethod::TRACE => "TRACE"@,
    }
}

impl HttpMethod {
    /// The method named `method` (exact, upper case); `GET` otherwise.
    pub fn from_str(method: &str) -> (r: HttpMethod)
        ensures
            r == spec_method(method@),
    {
        let m = chars_of(method);
        if chars_is(&m, "GET") {
            HttpMethod::GET
        } else if chars_is(&m, "POST") {
            HttpMethod::POST
        } else if chars_is(&m, "DELETE") {
            HttpMethod::DELETE
        } else if chars_is(&m, "PUT") {
            HttpMethod::PUT
        } else if chars_is(&m, "PATCH") {
            HttpMethod::PATCH
        } else if chars_is(&m, "OPTIONS") {
            HttpMethod::OPTIONS
        } else if chars_is(&m, "HEAD") {
            HttpMethod::HEAD
        } else if chars_is(&m, "CONNECT") {
            HttpMethod::CONNECT
        } else if chars_is(&m, "TRACE") {
            HttpMethod::TRACE
        } else {
            HttpMethod::GET
        }
    }

    /// The name of the method (what `Display` prints).
    pub fn as_str(&self) -> (r: &'static str)
        ensures
            r@ == spec_method_text(*self),
    {
        match self {
            HttpMethod::GET => "GET",
            HttpMethod::POST => "POST",
            HttpMethod::DELETE => "DELETE",
            HttpMethod::PUT => "PUT",
            HttpMethod::PATCH => "PATCH",
            HttpMethod::OPTIONS => "OPTIONS",
            HttpMethod::HEAD => "HEAD",
            HttpMethod::CONNECT => "CONNECT",
            HttpMethod::TRACE => "TRACE",
        }
    }
}

/// Naming a method and reading the name back gives the method.
pub proof fn lemma_method_name_roundtrip(m: HttpMethod)
    ensures
        spec_method(spec_method_text(m)) == m,
{
    reveal_strlit("GET");
    reveal_strlit("POST");
    reveal_strlit("DELETE");
    reveal_strlit("PUT");
    reveal_strlit("PATCH");
    reveal_strlit("OPTIONS");
    reveal_strlit("HEAD");
    reveal_strlit("CONNECT");
    reveal_strlit("TRACE");
    match m {
        HttpMethod::GET => {
        },
        HttpMethod::POST => {
            assert("POST"@ != "GET"@) by {
                assert("POST"@.len() != "GET"@.len());
            }
        },
        HttpMethod::DELETE => {
            assert("DELETE"@ != "GET"@) by {
                assert("DELETE"@.len() != "GET"@.len());
            }
            assert("DELETE"@ != "POST"@) by {
                assert("DELETE"@.len() != "POST"@.len());
            }
        },
        HttpMethod::PUT => {
            assert("PUT"@ != "GET"@) by {
                assert("PUT"@[0] != "GET"@[0]);
            }
            assert("PUT"@ != "POST"@) by {
                assert("PUT"@.len() != "POST"@.len());
            }
            assert("PUT"@ != "DELETE"@) by {
                assert("PUT"@.len() != "DELETE"@.len());
            }
        },
        HttpMethod::PATCH => {
            assert("PATCH"@ != "GET"@) by {
                assert("PATCH"@.len() != "GET"@.len());
            }
            assert("PATCH"@ != "POST"@) by {
                assert("PATCH"@.len() != "POST"@.len());
            }
            assert("PATCH"@ != "DELETE"@) by {
                assert("PATCH"@.len() != "DELETE"@.len());
            }
            assert("PATCH"@ != "PUT"@) by {
                assert("PATCH"@.len() != "PUT"@.len());
            }
        },
        HttpMethod::OPTIONS => {
            assert("OPTIONS"@ != "GET"@) by {
                assert("OPTIONS"@.len() != "GET"@.len());
            }
            assert("OPTIONS"@ != "POST"@) by {
                assert("OPTIONS"@.len() != "POST"@.len());
            }
            assert("OPTIONS"@ != "DELETE"@) by {
                assert("OPTIONS"@.len() != "DELETE"@.len());
            }
            assert("OPTIONS"@ != "PUT"@) by {
                assert("OPTIONS"@.len() != "PUT"@.len());
            }
            assert("OPTIONS"@ != "PATCH"@) by {
                assert("OPTIONS"@.len() != "PATCH"@.len());
            }
        },
        HttpMethod::HEAD => {
            assert("HEAD"@ != "GET"@) by {
                assert("HEAD"@.len() != "GET"@.len());
            }
            assert("HEAD"@ != "POST"@) by {
                assert("HEAD"@[0] != "POST"@[0]);
            }
            assert("HEAD"@ != "DELETE"@) by {
                assert("HEAD"@.len() != "DELETE"@.len());
            }
            assert("HEAD"@ != "PUT"@) by {
                assert("HEAD"@.len() != "PUT"@.len());
            }
            assert("HEAD"@ != "PATCH"@) by {
                assert("HEAD"@.len() != "PATCH"@.len());
            }
            assert("HEAD"@ != "OPTIONS"@) by {
                assert("HEAD"@.len() != "OPTIONS"@.len());
            }
        },
        HttpMethod::CONNECT => {
            assert("CONNECT"@ != "GET"@) by {
                assert("CONNECT"@.len() != "GET"@.len());
            }
            assert("CONNECT"@ != "POST"@) by {
                assert("CONNECT"@.len() != "POST"@.len());
            }
            assert("CONNECT"@ != "DELETE"@) by {
                assert("CONNECT"@.len() != "DELETE"@.len());
            }
            assert("CONNECT"@ != "PUT"@) by {
                assert("CONNECT"@.len() != "PUT"@.len());
            }
            assert("CONNECT"@ != "PATCH"@) by {
                assert("CONNECT"@.len() != "PATCH"@.len());
            }
            assert("CONNECT"@ != "OPTIONS"@) by {
                assert("CONNECT"@[0] != "OPTIONS"@[0]);
            }
            assert("CONNECT"@ != "HEAD"@) by {
                assert("CONNECT"@.len() != "HEAD"@.len());
            }
        },
        HttpMethod::TRACE => {
            assert("TRACE"@ != "GET"@) by {
                assert("TRACE"@.len() != "GET"@.len());
            }
            assert("TRACE"@ != "POST"@) by {
                assert("TRACE"@.len() != "POST"@.len());
            }
            assert("TRACE"@ != "DELETE"@) by {
                assert("TRACE"@.len() != "DELETE"@.len());
            }
            assert("TRACE"@ != "PUT"@) by {
                assert("TRACE"@.len() != "PUT"@.len());
            }
            assert("TRACE"@ != "PATCH"@) by {
                assert("TRACE"@[0] != "PATCH"@[0]);
            }
            assert("TRACE"@ != "OPTIONS"@) by {
                assert("TRACE"@.len() != "OPTIONS"@.len());
            }
            assert("TRACE"@ != "HEAD"@) by {
                assert("TRACE"@.len() != "HEAD"@.len());
            }
            assert("TRACE"@ != "CONNECT"@) by {
                assert("TRACE"@.len() != "CONNECT"@.len());
            }
        },
    }
}

/// An HTTP request.
#[derive(Debug)]
pub struct Request {
    pub method: HttpMethod,
    pub uri: String,
    pub version: String,
    pub headers: Vec<Header>,
    pub body: Option<Body>,
}

/// Builds a request step by step.
pub struct RequestBuilder {
    pub method: HttpMethod,
    pub uri: String,
    pub version: String,
    pub headers: Vec<Header>,
    pub body: Option<Body>,
}

/// The text of a body, if any.
pub open spec fn opt_body(b: Option<Body>) -> Option<BodySpec> {
    match b {
        Some(b) => Some(b@),
        None => None,
    }
}

/// The lines of headers as written in a message, each followed by CRLF.
pub open spec fn headers_text(hs: Seq<Header>) -> Seq<char>
    decreases hs.len(),
{
    if hs.len() == 0 {
        Seq::empty()
    } else {
        headers_text(hs.drop_last()) + spec_name_text(hs.last().name@) + ": "@
            + hs.last().value.value@ + "\r\n"@
    }
}

/// The characters of the header lines.
pub fn headers_chars(hs: &Vec<Header>) -> (r: Vec<char>)
    ensures
        r@ == headers_text(hs@),
{
    let mut s: Vec<char> = Vec::new();
    let mut i: usize = 0;
    while i < hs.len()
        invariant
            i <= hs@.len(),
            s@ == headers_text(hs@.take(i as int)),
        decreases hs@.len() - i,
    {
        let line = hs[i].to_text();
        push_str(&mut s, line.as_str());
        push_str(&mut s, "\r\n");
        proof {
            assert(hs@.take(i + 1).drop_last() =~= hs@.take(i as int));
            assert(s@ =~= headers_text(hs@.take(i + 1)));
        }
        i = i + 1;
    }
    assert(hs@.take(i as int) =~= hs@);
    s
}

/// The text of a request: request line, header lines, blank line, body.
pub open spec fn spec_request_text(r: Request) -> Seq<char> {
    spec_method_text(r.method) + " "@ + r.uri@ + " "@ + r.version@ + "\r\n"@ + headers_text(
        r.headers@,
    ) + "\r\n"@ + match r.body {
        Some(b) => spec_body_text(b@),
        None => Seq::empty(),
    }
}

impl RequestBuilder {
    /// A `GET` request with an empty URI, version `HTTP/1.1`, no headers and
    /// no body.
    pub fn new() -> (r: RequestBuilder)
        ensures
            r.method == HttpMethod::GET,
            r.uri@ == Seq::<char>::empty(),
            r.version@ == "HTTP/1.1"@,
            r.headers@.len() == 0,
            r.body is None,
    {
        RequestBuilder {
            method: HttpMethod::GET,
            uri: string_of(&Vec::new()),
            version: owned("HTTP/1.1"),
            headers: Vec::new(),
            body: None,
        }
    }

    pub fn method(self, method: &str) -> (r: RequestBuilder)
        ensures
            r == (RequestBuilder { method: spec_method(method@), ..self }),
    {
        RequestBuilder { method: HttpMethod::from_str(method), ..self }
    }

    pub fn uri(self, uri: &str) -> (r: RequestBuilder)
        ensures
            r.uri@ == uri@,
            r.method == self.method,
            r.version == self.version,
            r.headers == self.headers,
            r.body == self.body,
    {
        RequestBuilder { uri: owned(uri), ..self }
    }

    pub fn version(self, version: &str) -> (r: RequestBuilder)
        ensures
            r.version@ == version@,
            r.method == self.method,
            r.uri == self.uri,
            r.headers == self.headers,
            r.body == self.body,
    {
        RequestBuilder { version: owned(version), ..self }
    }

    /// Sets the headers.
    pub fn header(self, headers: Vec<Header>) -> (r: RequestBuilder)
        ensures
            r == (RequestBuilder { headers, ..self }),
    {
        RequestBuilder { headers, ..self }
    }

    pub fn body(self, body: Body) -> (r: RequestBuilder)
        ensures
            r == (RequestBuilder { body: Some(body), ..self }),
    {
        RequestBuilder { body: Some(body), ..self }
    }

    pub fn build(self) -> (r: Request)
        ensures
            r == (Request {
                method: self.method,
                uri: self.uri,
                version: self.version,
                headers: self.headers,
                body: self.body,
            }),
    {
        Request::new(self.method, self.uri, self.version, self.headers, self.body)
    }
}

impl Request {
    pub fn new(method: HttpMethod, uri: String, version: String, headers: Vec<Header>, body: Option<Body>) -> (r: Request)
        ensures
            r == (Request { method, uri, version, headers, body }),
    {
        Request { method, uri, version, headers, body }
    }

    /// The request as written on the wire.
    pub fn to_string(&self) -> (r: String)
        ensures
            r@ == spec_request_text(*self),
    {
        let mut s = chars_of(self.method.as_str());
        push_str(&mut s, " ");
        push_str(&mut s, self.uri.as_str());
        push_str(&mut s, " ");
        push_str(&mut s, self.version.as_str());
        push_str(&mut s, "\r\n");
        let h = headers_chars(&self.headers);
        push_all(&mut s, &h);
        push_str(&mut s, "\r\n");
        match &self.body {
            Some(body) => {
                let b = body.to_text();
                push_str(&mut s, b.as_str());
            },
            None => {},
        }
        assert(s@ =~= spec_request_text(*self));
        string_of(&s)
    }

    /// A copy of the first header named `name`.
    pub fn get_header(&self, name: HeaderName) -> (r: Option<Header>)
        ensures
            r matches Some(h) ==> exists|i: int|
                0 <= i < self.headers@.len() && self.headers@[i].name@ == name@ && h@
                    == self.headers@[i]@ && forall|j: int|
                    0 <= j < i ==> self.headers@[j].name@ != name@,
            r is None ==> forall|j: int|
                0 <= j < self.headers@.len() ==> self.headers@[j].name@ != name@,
    {
        let mut i: usize = 0;
        while i < self.headers.len()
            invariant
                i <= self.headers@.len(),
                forall|j: int| 0 <= j < i ==> self.headers@[j].name@ != name@,
            decreases self.headers@.len() - i,
        {
            if self.headers[i].name.same(&name) {
                return Some(self.headers[i].clone());
            }
            i = i + 1;
        }
        None
    }
}

// ============= Reading a request =============
/// Whether header `h` is what `Header::from_str` makes of the name `n`
/// and value `v` (for some clock reading).
pub open spec fn header_read_from(h: HeaderSpec, n: Seq<char>, v: Seq<char>) -> bool {
    exists|t: TimeStamp|
        #![trigger spec_parsed_value(spec_name_from_str(n), v, t)]
        h == (HeaderSpec {
            name: spec_name_from_str(n),
            value: v,
            parsed: Some(spec_parsed_value(spec_name_from_str(n), v, t)),
        })
}

/// Every header value of a head is UTF-8 text.
pub open spec fn values_utf8(hs: Seq<(Seq<char>, Seq<u8>)>) -> bool {
    forall|i: int| 0 <= i < hs.len() ==> valid_utf8(#[trigger] hs[i].1)
}

/// The header lines of a head with their values decoded.
pub open spec fn decoded_lines(hs: Seq<(Seq<char>, Seq<u8>)>) -> Seq<(Seq<char>, Seq<char>)> {
    hs.map_values(|h: (Seq<char>, Seq<u8>)| (h.0, decode_utf8(h.1)))
}

/// The body that follows a head: read according to the MIME type of the
/// first `Content-Type` header, with its `boundary` parameter when it has
/// one; nothing without such a header, and nothing when it cannot be read.
pub open spec fn spec_request_body(lines: Seq<(Seq<char>, Seq<char>)>, rest: Seq<u8>) -> Option<BodySpec> {
    match first_named(lines, HeaderNameSpec::ContentType) {
        None => None,
        Some(i) => {
            let pieces = trimmed_pieces(lines[i].1);
            match spec_from_mime(pieces[0], rest, map_get(spec_params(pieces.skip(1)), "boundary"@)) {
                Ok(body) => Some(body),
                Err(_) => None,
            }
        },
    }
}

/// A head as `httparse` reads it, as plain values: method, path, version,
/// header lines and length.
pub type HeadSpec = (Option<Seq<char>>, Option<Seq<char>>, Option<u8>, Seq<(Seq<char>, Seq<u8>)>, nat);

/// A parsed head as plain values.
pub open spec fn head_view(h: RawHead) -> HeadSpec {
    (opt_str(h.method), opt_str(h.path), h.version, raw_lines(h.headers@), h.len as nat)
}

/// What reading a request whose head was read as `head` gives: the method,
/// URI, version, header lines and body, or `None` when a header value is
/// not UTF-8 text. When bytes follow the head they are the body (see
/// `spec_request_body`).
pub open spec fn spec_request_of_head(head: HeadSpec, bytes: Seq<u8>) -> Option<(HttpMethod, Seq<char>, Seq<char>, Seq<(Seq<char>, Seq<char>)>, Option<BodySpec>)> {
    let (m, p, v, hs, len) = head;
    if !values_utf8(hs) {
        None
    } else {
        let lines = decoded_lines(hs);
        Some(
            (
                spec_method(m.unwrap()),
                p.unwrap(),
                decimal(v.unwrap() as nat),
                lines,
                if bytes.len() > len {
                    spec_request_body(lines, bytes.skip(len as int))
                } else {
                    None
                },
            ),
        )
    }
}

/// What reading a request gives: `None` without a complete head, else what
/// its head gives (see `spec_request_of_head`).
pub open spec fn spec_parse_request(bytes: Seq<u8>) -> Option<(HttpMethod, Seq<char>, Seq<char>, Seq<(Seq<char>, Seq<char>)>, Option<BodySpec>)> {
    match httparse_head(bytes) {
        None => None,
        Some(head) => spec_request_of_head(head, bytes),
    }
}

/// Reading the body after a head does not fail on the way: a multipart
/// body does not meet two boundary markers less than two bytes apart.
pub open spec fn head_read_defined(head: HeadSpec, bytes: Seq<u8>) -> bool {
    let (m, p, v, hs, len) = head;
    let lines = decoded_lines(hs);
    values_utf8(hs) && bytes.len() > len ==> match first_named(lines, HeaderNameSpec::ContentType) {
        None => true,
        Some(i) => {
            let pieces = trimmed_pieces(lines[i].1);
            from_mime_defined(
                pieces[0],
                bytes.skip(len as int),
                map_get(spec_params(pieces.skip(1)), "boundary"@),
            )
        },
    }
}

/// Reading the request does not fail on the way: a multipart body does
/// not meet two boundary markers less than two bytes apart.
pub open spec fn parse_request_defined(bytes: Seq<u8>) -> bool {
    match httparse_head(bytes) {
        None => true,
        Some(head) => head_read_defined(head, bytes),
    }
}

/// Whether every header value is UTF-8 text.
fn values_are_utf8(raw: &Vec<(String, Vec<u8>)>) -> (r: bool)
    ensures
        r == values_utf8(raw_lines(raw@)),
{
    let ghost hs = raw_lines(raw@);
    let mut i: usize = 0;
    while i < raw.len()
        invariant
            i <= raw@.len(),
            hs == raw_lines(raw@),
            forall|j: int| 0 <= j < i ==> valid_utf8(#[trigger] hs[j].1),
        decreases raw@.len() - i,
    {
        if from_utf8(&raw[i].1).is_none() {
            assert(!valid_utf8(hs[i as int].1));
            return false;
        }
        i = i + 1;
    }
    true
}

/// Whether a request is the one read: method, URI, version, headers read
/// from the header lines, and body.
pub open spec fn request_is(r: Request, s: (HttpMethod, Seq<char>, Seq<char>, Seq<(Seq<char>, Seq<char>)>, Option<BodySpec>)) -> bool {
    &&& r.method == s.0
    &&& r.uri@ == s.1
    &&& r.version@ == s.2
    &&& headers_of_lines(r.headers@, s.3)
    &&& forall|i: int|
        0 <= i < r.headers@.len() ==> header_read_from(
            (#[trigger] r.headers@[i])@,
            s.3[i].0,
            s.3[i].1,
        )
    &&& opt_body(r.body) == s.4
    &&& match r.body {
        Some(b) => b.wf(),
        None => true,
    }
}

/// Reads a request from bytes: the head through `httparse`, then the rest
/// (see `request_from_head`).
pub fn parse_request(request: &[u8]) -> (r: Option<Request>)
    requires
        parse_request_defined(request@),
    ensures
        match (r, spec_parse_request(request@)) {
            (Some(req), Some(s)) => request_is(req, s),
            (None, None) => true,
            _ => false,
        },
{
    match parse_head(request) {
        Some(h) => request_from_head(&h, request),
        None => None,
    }
}

/// Reads a request from the bytes `request` whose head `httparse` read as
/// `head`: the headers, then the body after the head (see
/// `spec_request_of_head`).
pub fn request_from_head(head: &RawHead, request: &[u8]) -> (r: Option<Request>)
    requires
        head.method is Some,
        head.path is Some,
        head.version is Some,
        head.len <= request@.len(),
        head_read_defined(head_view(*head), request@),
    ensures
        match (r, spec_request_of_head(head_view(*head), request@)) {
            (Some(req), Some(s)) => request_is(req, s),
            (None, None) => true,
            _ => false,
        },
{
    let ghost hs = raw_lines(head.headers@);
    let ghost lines = decoded_lines(hs);
    if !values_are_utf8(&head.headers) {
        return None;
    }
    let headers = read_headers(&head.headers);
    let mut method_text = string_of(&Vec::new());
    let mut path = string_of(&Vec::new());
    let mut version: u8 = 0;
    match (&head.method, &head.path, head.version) {
        (Some(m), Some(p), Some(v)) => {
            method_text = m.clone();
            path = p.clone();
            version = v;
        },
        _ => {},
    }
    let method = HttpMethod::from_str(method_text.as_str());
    let version_text = string_of(&decimal_chars(version as u64));
    if request.len() > head.len {
        proof {
            lemma_first_named(lines, HeaderNameSpec::ContentType);
        }
        let ct = match find_header(&headers, &HeaderName::ContentType, Ghost(lines)) {
            Some(i) => i,
            None => return Some(Request::new(method, path, version_text, headers, None)),
        };
        let parsed = match ContentType::parse_content_type(&headers[ct]) {
            Some(p) => p,
            None => return None,
        };
        let boundary = match parsed.params.get("boundary") {
            Some(b) => Some(b.as_str()),
            None => None,
        };
        let body_data = crate::bytes::slice_bytes(request, head.len, request.len());
        assert(body_data@ =~= request@.skip(head.len as int));
        let body = match Body::from_mime(parsed.mime.as_str(), body_data, boundary) {
            Ok(b) => Some(b),
            Err(_) => None,
        };
        Some(Request::new(method, path, version_text, headers, body))
    } else {
        Some(Request::new(method, path, version_text, headers, None))
    }
}

/// The headers of a head, each read from its name and UTF-8 value.
fn read_headers(raw: &Vec<(String, Vec<u8>)>) -> (r: Vec<Header>)
    requires
        values_utf8(raw_lines(raw@)),
    ensures
        headers_of_lines(r@, decoded_lines(raw_lines(raw@))),
        forall|i: int|
            0 <= i < r@.len() ==> header_read_from(
                (#[trigger] r@[i])@,
                decoded_lines(raw_lines(raw@))[i].0,
                decoded_lines(raw_lines(raw@))[i].1,
            ),
{
    let ghost lines = decoded_lines(raw_lines(raw@));
    let mut headers: Vec<Header> = Vec::new();
    let mut i: usize = 0;
    while i < raw.len()
        invariant
            i <= raw@.len(),
            lines == decoded_lines(raw_lines(raw@)),
            values_utf8(raw_lines(raw@)),
            headers_of_lines(headers@, lines.take(i as int)),
            forall|j: int|
                0 <= j < headers@.len() ==> header_read_from(
                    (#[trigger] headers@[j])@,
                    lines[j].0,
                    lines[j].1,
                ),
        decreases raw@.len() - i,
    {
        assert(valid_utf8(raw_lines(raw@)[i as int].1));
        let value = match from_utf8(&raw[i].1) {
            Some(v) => v,
            None => string_of(&Vec::new()),
        };
        let h = Header::from_str(raw[i].0.as_str(), value.as_str());
        proof {
            assert(lines[i as int] == (raw@[i as int].0@, value@));
            let ghost hv = headers@.push(h);
            assert forall|j: int| 0 <= j < hv.len() implies (#[trigger] hv[j]).name@
                == spec_name_from_str(lines.take(i + 1)[j].0) && hv[j].value.value@ == lines.take(
                i + 1,
            )[j].1 by {
                if j < i {
                    assert(hv[j] == headers@[j]);
                    assert(lines.take(i + 1)[j] == lines.take(i as int)[j]);
                }
            }
            assert forall|j: int| 0 <= j < hv.len() implies header_read_from(
                (#[trigger] hv[j])@,
                lines[j].0,
                lines[j].1,
            ) by {
                if j < i {
                    assert(hv[j] == headers@[j]);
                }
            }
        }
        headers.push(h);
        i = i + 1;
    }
    assert(lines.take(i as int) =~= lines);
    headers
}

/// Reads a request from bytes like `parse_request`, first checking that
/// reading does not fail on the way: `None` when a multipart body meets
/// two boundary markers less than two bytes apart (inputs on which `parse_request` is not defined), else
/// `Some` of what `parse_request` gives.
pub fn try_parse_request(request: &[u8]) -> (r: Option<Option<Request>>)
    ensures
        r is Some <==> parse_request_defined(request@),
        r matches Some(x) ==> match (x, spec_parse_request(request@)) {
            (Some(req), Some(s)) => request_is(req, s),
            (None, None) => true,
            _ => false,
        },
{
    if check_request(request) {
        Some(parse_request(request))
    } else {
        None
    }
}

/// Whether reading the request is defined.
fn check_request(request: &[u8]) -> (r: bool)
    ensures
        r == parse_request_defined(request@),
{
    let head = match parse_head(request) {
        Some(h) => h,
        None => return true,
    };
    let ghost hs = raw_lines(head.headers@);
    let ghost lines = decoded_lines(hs);
    assert(httparse_head(request@).unwrap().3 == hs);
    if !values_are_utf8(&head.headers) {
        return true;
    }
    if request.len() <= head.len {
        return true;
    }
    let headers = read_headers(&head.headers);
    proof {
        lemma_first_named(lines, HeaderNameSpec::ContentType);
    }
    let ct = match find_header(&headers, &HeaderName::ContentType, Ghost(lines)) {
        Some(i) => i,
        None => return true,
    };
    let parsed = match ContentType::parse_content_type(&headers[ct]) {
        Some(p) => p,
        None => return true,
    };
    let boundary = match parsed.params.get("boundary") {
        Some(b) => b,
        None => return true,
    };
    let l = chars_of(to_lowercase(parsed.mime.as_str()).as_str());
    if !chars_is(&l, "multipart/form-data") {
        return true;
    }
    let body_data = crate::bytes::slice_bytes(request, head.len, request.len());
    assert(body_data@ =~= request@.skip(head.len as int));
    multipart_splittable(&body_data, boundary.as_str())
}

impl Request {
    /// A copy of the request.
    pub fn duplicate(&self) -> (r: Request)
        ensures
            r.method == self.method,
            r.uri@ == self.uri@,
            r.version@ == self.version@,
            r.headers@.len() == self.headers@.len(),
            forall|i: int| 0 <= i < self.headers@.len() ==> (#[trigger] r.headers@[i])@ == self.headers@[i]@,
            opt_body(r.body) == opt_body(self.body),
    {
        let mut headers: Vec<Header> = Vec::new();
        let mut i: usize = 0;
        while i < self.headers.len()
            invariant
                i <= self.headers@.len(),
                headers@.len() == i,
                forall|j: int| 0 <= j < i ==> (#[trigger] headers@[j])@ == self.headers@[j]@,
            decreases self.headers@.len() - i,
        {
            headers.push(self.headers[i].clone());
            i = i + 1;
        }
        let body = match &self.body {
            Some(b) => Some(b.duplicate()),
            None => None,
        };
        Request {
            method: self.method,
            uri: owned(self.uri.as_str()),
            version: owned(self.version.as_str()),
            headers,
            body,
        }
    }
}

} // verus!
