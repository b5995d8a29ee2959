//! HTTP responses and their builder.
use vstd::prelude::*;
use crate::http::body::{Body, BodySpec, JsonValue, spec_body_text, spec_body_len, utf8_len};
use crate::http::header::{Header, Cookie, CookieOptions, spec_cookie_text, CookieSpec};
use crate::http::request::{header_read_from, headers_text, headers_chars, opt_body};
use crate::http::status::HttpStatusCode;
use crate::text::{chars_of, owned, push_str, push_all, string_of, decimal, decimal_chars};
use crate::bytes::push_bytes;
use crate::sys::utf8_bytes;
use vstd::string::StringSliceAdditionalSpecFns;
use vstd::utf8::encode_utf8;

verus! {

/// An HTTP response.
#[derive(Debug)]
pub struct Response {
    pub version: String,
    pub status_code: HttpStatusCode,
    pub headers: Vec<Header>,
    pub body: Option<Body>,
}

/// Builds a response step by step.
#[derive(Debug)]
pub struct ResponseBuilder {
    pub version: String,
    pub status_code: HttpStatusCode,
    pub headers: Vec<Header>,
    pub body: Option<Body>,
}

/// The text of a response: status line with the numeric code, header
/// lines, blank line, body.
pub open spec fn spec_response_text(r: Response) -> Seq<char> {
    r.version@ + " "@ + decimal(r.status_code.spec_code() as nat) + "\r\n"@ + headers_text(
        r.headers@,
    ) + "\r\n"@ + match r.body {
        Some(b) => spec_body_text(b@),
        None => Seq::empty(),
    }
}

/// The status line and the header lines of a response, with the blank
/// line that ends them.
pub open spec fn spec_head_text(r: Response) -> Seq<char> {
    r.version@ + " "@ + decimal(r.status_code.spec_code() as nat) + "\r\n"@ + headers_text(r.headers@) + "\r\n"@
}

/// The bytes of a body as sent: a binary body as it is, any other as the
/// UTF-8 bytes of its text.
pub open spec fn body_bytes(b: BodySpec) -> Seq<u8> {
    match b {
        BodySpec::Binary(d) => d,
        _ => encode_utf8(spec_body_text(b)),
    }
}

/// The bytes of a response as sent: the UTF-8 head, then the body's bytes.
pub open spec fn spec_response_bytes(r: Response) -> Seq<u8> {
    encode_utf8(spec_head_text(r)) + match r.body {
        Some(b) => body_bytes(b@),
        None => Seq::empty(),
    }
}

/// The two headers that describe a body: its content type and its length.
pub open spec fn body_headers(hs: Seq<Header>, mime: Seq<char>, len: int) -> bool {
    &&& hs.len() == 2
    &&& header_read_from(hs[0]@, "content-type"@, mime)
    &&& header_read_from(hs[1]@, "content-length"@, decimal(len as nat))
}

impl ResponseBuilder {
    /// A `200 OK` response, version `HTTP/1.1`, no headers, no body.
    pub fn new() -> (r: ResponseBuilder)
        ensures
            r.version@ == "HTTP/1.1"@,
            r.status_code == HttpStatusCode::OK,
            r.headers@.len() == 0,
            r.body is None,
    {
        ResponseBuilder {
            version: owned("HTTP/1.1"),
            status_code: HttpStatusCode::OK,
            headers: Vec::new(),
            body: None,
        }
    }

    pub fn status_code(self, status_code: HttpStatusCode) -> (r: ResponseBuilder)
        ensures
            r == (ResponseBuilder { status_code, ..self }),
    {
        ResponseBuilder { status_code, ..self }
    }

    /// Adds a header after the others.
    pub fn header(self, header: Header) -> (r: ResponseBuilder)
        ensures
            r.headers@ == self.headers@.push(header),
            r.version == self.version,
            r.status_code == self.status_code,
            r.body == self.body,
    {
        let mut s = self;
        s.headers.push(header);
        s
    }

    /// Adds a `set-cookie` header with the value `name=value`.
    pub fn setcookie(self, name: &str, value: &str) -> (r: ResponseBuilder)
        ensures
            r.headers@.len() == self.headers@.len() + 1,
            r.headers@.take(self.headers@.len() as int) == self.headers@,
            header_read_from(r.headers@.last()@, "set-cookie"@, name@ + "="@ + value@),
            r.version == self.version,
            r.status_code == self.status_code,
            r.body == self.body,
    {
        let mut v = chars_of(name);
        push_str(&mut v, "=");
        push_str(&mut v, value);
        let text = string_of(&v);
        let header = Header::from_str("set-cookie", text.as_str());
        let mut s = self;
        s.headers.push(header);
        assert(s.headers@.take(self.headers@.len() as int) =~= self.headers@);
        s
    }

    /// Adds a `set-cookie` header for a cookie with the given attributes.
    pub fn setcookie_with_options(self, name: &str, value: &str, options: CookieOptions) -> (r: ResponseBuilder)
        requires
            options.times_valid(),
        ensures
            r.headers@.len() == self.headers@.len() + 1,
            r.headers@.take(self.headers@.len() as int) == self.headers@,
            header_read_from(
                r.headers@.last()@,
                "set-cookie"@,
                spec_cookie_text(CookieSpec { name: name@, value: value@, options: options@ }),
            ),
            r.version == self.version,
            r.status_code == self.status_code,
            r.body == self.body,
    {
        let cookie = Cookie::with_options(name, value, options);
        let text = cookie.to_string();
        let header = Header::from_str("set-cookie", text.as_str());
        let mut s = self;
        s.headers.push(header);
        assert(s.headers@.take(self.headers@.len() as int) =~= self.headers@);
        s
    }

    pub fn body(self, body: Body) -> (r: ResponseBuilder)
        ensures
            r == (ResponseBuilder { body: Some(body), ..self }),
    {
        ResponseBuilder { body: Some(body), ..self }
    }

    /// The response (always of version `HTTP/1.1`).
    pub fn build(self) -> (r: Response)
        ensures
            r.version@ == "HTTP/1.1"@,
            r.status_code == self.status_code,
            r.headers == self.headers,
            r.body == self.body,
    {
        Response::new(self.status_code, self.headers, self.body)
    }
}

/// The `content-length` header for a body.
fn length_header(body: &Body) -> (r: Header)
    requires
        body.len_defined(),
    ensures
        header_read_from(r@, "content-length"@, decimal(crate::http::body::spec_body_len(body@) as nat)),
{
    let n = body.body_len();
    let len = string_of(&decimal_chars(n as u64));
    Header::from_str("content-length", len.as_str())
}

impl Response {
    /// A response of version `HTTP/1.1`.
    pub fn new(status_code: HttpStatusCode, headers: Vec<Header>, body: Option<Body>) -> (r: Response)
        ensures
            r.version@ == "HTTP/1.1"@,
            r.status_code == status_code,
            r.headers == headers,
            r.body == body,
    {
        Response { version: owned("HTTP/1.1"), status_code, headers, body }
    }

    /// `200 OK` with no headers and no body.
    pub fn ok() -> (r: Response)
        ensures
            r.version@ == "HTTP/1.1"@,
            r.status_code == HttpStatusCode::OK,
            r.headers@.len() == 0,
            r.body is None,
    {
        Response::new(HttpStatusCode::OK, Vec::new(), None)
    }

    /// `404 Not Found` with the text as a `text/plain` body.
    pub fn not_found(text: &str) -> (r: Response)
        ensures
            r.version@ == "HTTP/1.1"@,
            r.status_code == HttpStatusCode::NotFound,
            body_headers(r.headers@, "text/plain"@, utf8_len(text@)),
            opt_body(r.body) == Some(BodySpec::Text(text@)),
    {
        let body = Body::text(text);
        let ct = Header::from_str("content-type", "text/plain");
        let cl = length_header(&body);
        let mut headers = Vec::new();
        headers.push(ct);
        headers.push(cl);
        Response::new(HttpStatusCode::NotFound, headers, Some(body))
    }

    /// A response with a JSON body.
    pub fn response_with_json(data: JsonValue, status: HttpStatusCode) -> (r: Response)
        ensures
            r.version@ == "HTTP/1.1"@,
            r.status_code == status,
            body_headers(r.headers@, "application/json"@, utf8_len(data@)),
            opt_body(r.body) == Some(BodySpec::Json(data@)),
    {
        let body = Body::json(data);
        let ct = Header::from_str("content-type", "application/json");
        let cl = length_header(&body);
        let mut headers = Vec::new();
        headers.push(ct);
        headers.push(cl);
        Response { version: owned("HTTP/1.1"), status_code: status, headers, body: Some(body) }
    }

    /// A response with an HTML body.
    pub fn response_with_html(data: &str, status: HttpStatusCode) -> (r: Response)
        ensures
            r.version@ == "HTTP/1.1"@,
            r.status_code == status,
            body_headers(r.headers@, "text/html"@, utf8_len(data@)),
            opt_body(r.body) == Some(BodySpec::Text(data@)),
    {
        let body = Body::text(data);
        let ct = Header::from_str("content-type", "text/html");
        let cl = length_header(&body);
        let mut headers = Vec::new();
        headers.push(ct);
        headers.push(cl);
        Response { version: owned("HTTP/1.1"), status_code: status, headers, body: Some(body) }
    }

    /// The response as written on the wire.
    /// The bytes sent for the response: the head as UTF-8, then the body,
    /// a binary body byte for byte.
    pub fn to_bytes(self) -> (r: Vec<u8>)
        ensures
            r@ == spec_response_bytes(self),
    {
        let mut s = chars_of(self.version.as_str());
        push_str(&mut s, " ");
        let code = decimal_chars(self.status_code.code() as u64);
        push_all(&mut s, &code);
        push_str(&mut s, "\r\n");
        let h = headers_chars(&self.headers);
        push_all(&mut s, &h);
        push_str(&mut s, "\r\n");
        assert(s@ =~= spec_head_text(self));
        let head = string_of(&s);
        let mut out = utf8_bytes(head.as_str());
        match &self.body {
            Some(Body::Binary(d)) => {
                push_bytes(&mut out, d.as_slice());
            },
            Some(b) => {
                let t = b.to_text();
                let tb = utf8_bytes(t.as_str());
                push_bytes(&mut out, tb.as_slice());
            },
            None => {
                assert(out@ =~= out@ + Seq::<u8>::empty());
            },
        }
        out
    }

    pub fn to_string(self) -> (r: String)
        ensures
            r@ == spec_response_text(self),
    {
        let mut s = chars_of(self.version.as_str());
        push_str(&mut s, " ");
        let code = decimal_chars(self.status_code.code() as u64);
        push_all(&mut s, &code);
        push_str(&mut s, "\r\n");
        let h = headers_chars(&self.headers);
        push_all(&mut s, &h);
        push_str(&mut s, "\r\n");
        match &self.body {
            Some(body) => {
                let b = body.to_text();
                push_str(&mut s, b.as_str());
            },
            None => {},
        }
        assert(s@ =~= spec_response_text(self));
        string_of(&s)
    }
}

/// The length of a body that is not multipart is the number of bytes
/// sent for it.
pub proof fn law_body_len_counts_bytes_sent(b: BodySpec)
    requires
        !(b is Multipart),
    ensures
        spec_body_len(b) == body_bytes(b).len(),
{
    if b is Empty {
        assert(encode_utf8(Seq::<char>::empty()) =~= Seq::<u8>::empty());
    }
}

} // verus!
