use localhost::http::body::{Body, BodyError, FormUrlEncoded, JsonValue, MultipartFile, MultipartForm};
use localhost::http::header::{
    ContentType, Cookie, CookieOptions, Header, HeaderName, HeaderParsedValue, ParsedContentDisposition,
    SameSitePolicy, TransferEncoding,
};
use localhost::http::request::{parse_request, HttpMethod, RequestBuilder};
use localhost::http::response::{Response, ResponseBuilder};
use localhost::http::status::HttpStatusCode;

// ---------------- cookies ----------------
#[test]
fn cookie_text_with_default_attributes() {
    assert_eq!(Cookie::new("sid", "abc").to_string(), "sid=abc; Path=/; SameSite=Lax");
}

#[test]
fn cookie_text_with_every_attribute_but_expires() {
    let options = CookieOptions {
        http_only: true,
        secure: true,
        max_age: Some(60),
        path: Some("/x".to_string()),
        expires: None,
        domain: Some("d.com".to_string()),
        same_site: SameSitePolicy::Strict,
    };
    assert_eq!(
        Cookie::with_options("sid", "abc", options).to_string(),
        "sid=abc; HttpOnly; Secure; Max-Age=60; Path=/x; Domain=d.com; SameSite=Strict"
    );
}

#[test]
fn cookie_parse_reads_attributes() {
    let c = Cookie::parse(" sid = abc ; HttpOnly; max-age=30; SameSite=None; Domain=x.org").unwrap();
    assert_eq!(c.name, "sid");
    assert_eq!(c.value, "abc");
    assert!(c.options.http_only);
    assert!(!c.options.secure);
    assert_eq!(c.options.max_age, Some(30));
    assert_eq!(c.options.same_site, SameSitePolicy::CrossSite);
    assert_eq!(c.options.domain.as_deref(), Some("x.org"));
    assert_eq!(c.options.path.as_deref(), Some("/"));
}

#[test]
fn cookie_parse_edge_cases() {
    assert!(Cookie::parse("no-equals-sign").is_none());
    let c = Cookie::parse("a=b; Max-Age=soon; Expires=later").unwrap();
    assert_eq!(c.options.max_age, Some(0));
    assert!(c.options.expires.is_some());
}

#[test]
fn cookie_written_reads_back_name_and_value() {
    let mut options = CookieOptions::default();
    options.http_only = true;
    options.max_age = Some(86400);
    let text = Cookie::with_options("session_id", "1f2e-33", options).to_string();
    let back = Cookie::parse(&text).unwrap();
    assert_eq!(back.name, "session_id");
    assert_eq!(back.value, "1f2e-33");
}

// ---------------- headers ----------------
#[test]
fn header_names_ignore_case() {
    assert!(matches!(HeaderName::from_str("CONTENT-TYPE"), HeaderName::ContentType));
    assert!(matches!(HeaderName::from_str("content-length"), HeaderName::ContentLength));
    assert!(matches!(HeaderName::from_str("X-Thing"), HeaderName::Custom(ref n) if n == "X-Thing"));
    assert!(matches!(HeaderName::from_str("Cookie"), HeaderName::Cookie));
    assert!(matches!(HeaderName::from_str("SET-COOKIE"), HeaderName::SetCookie));
    assert_eq!(HeaderName::ContentType.as_str(), "Content-Type");
    assert_eq!(HeaderName::SetCookie.as_str(), "Set-Cookie");
    assert_eq!(HeaderName::Custom("x".to_string()).as_str(), "");
}

#[test]
fn header_lines() {
    assert_eq!(Header::from_str("content-length", "12").to_text(), "Content-Length: 12");
    assert_eq!(Header::from_str("x-a", "1").to_text(), "x-a: 1");
    assert_eq!(Header::from_mime("text/html").to_text(), "Content-Type: text/html");
}

#[test]
fn header_values_understood_by_name() {
    let parsed = |n: &str, v: &str| Header::from_str(n, v).value.parsed_value.unwrap();
    assert!(matches!(parsed("Content-Length", "12"), HeaderParsedValue::ContentLength(12)));
    assert!(matches!(parsed("Content-Length", "twelve"), HeaderParsedValue::Raw));
    assert!(matches!(parsed("Content-Type", "Application/JSON"), HeaderParsedValue::ContentType(ContentType::ApplicationJson)));
    assert!(matches!(parsed("Transfer-Encoding", "Chunked"), HeaderParsedValue::TransferEncoding(TransferEncoding::Chunked)));
    assert!(matches!(parsed("Transfer-Encoding", "br"), HeaderParsedValue::Raw));
    assert!(matches!(parsed("Connection", "Keep-Alive"), HeaderParsedValue::Connection(_)));
    assert!(matches!(parsed("Server", "mine"), HeaderParsedValue::Server(ref s) if s == "mine"));
    assert!(matches!(parsed("Date", "today"), HeaderParsedValue::Raw));
    assert!(matches!(parsed("Host", "here"), HeaderParsedValue::Custom(ref s) if s == "here"));
}

#[test]
fn content_type_and_disposition_parameters() {
    assert_eq!(ContentType::from_str("TEXT/HTML"), ContentType::TextHtml);
    assert_eq!(ContentType::from_str("image/png"), ContentType::Raw);
    let ct = Header::from_str("Content-Type", "multipart/form-data; boundary=XyZ");
    let p = ContentType::parse_content_type(&ct).unwrap();
    assert_eq!(p.mime, "multipart/form-data");
    assert_eq!(p.params.get("boundary").map(|s| s.as_str()), Some("XyZ"));
    assert!(ContentType::parse_content_type(&Header::from_str("Host", "x")).is_none());
    let cd = Header::from_str("Content-Disposition", "form-data; name=\"file\"; filename=\"a.txt\"");
    let d = ParsedContentDisposition::parse_content_disposition(&cd).unwrap();
    assert_eq!(d.disposition, "form-data");
    assert_eq!(d.params.get("name").map(|s| s.as_str()), Some("file"));
    assert_eq!(d.params.get("filename").map(|s| s.as_str()), Some("a.txt"));
}

// ---------------- bodies ----------------
#[test]
fn bodies_read_by_mime_type() {
    assert_eq!(Body::from_mime("Text/Plain", b"hi".to_vec(), None).unwrap().as_text(), Some("hi"));
    let json = Body::from_mime("application/json", b"{ \"a\" : 1 }".to_vec(), None).unwrap();
    assert_eq!(json.as_json().unwrap().as_text(), "{\"a\":1}");
    assert_eq!(Body::from_mime("image/png", vec![1, 2, 3], None).unwrap().as_binary(), Some(&vec![1u8, 2, 3]));
    assert!(Body::from_mime("application/zip", vec![9], None).unwrap().as_binary().is_some());
    let form = Body::from_mime("application/x-www-form-urlencoded", b"a=1&b=x=y".to_vec(), None).unwrap();
    let f = form.as_form().unwrap();
    assert_eq!(f.get("a").map(|s| s.as_str()), Some("1"));
    assert_eq!(f.get("b").map(|s| s.as_str()), Some("x=y"));
}

#[test]
fn body_errors_by_kind() {
    match Body::from_mime("text/html", vec![0xff, 0xfe], None) {
        Err(e @ BodyError::InvalidUtf8(_)) => assert_eq!(e.to_text(), "Invalid UTF-8: text/html"),
        other => panic!("unexpected {:?}", other),
    }
    assert!(matches!(Body::from_mime("application/json", b"{".to_vec(), None), Err(BodyError::InvalidJson(_))));
    match Body::from_mime("application/x-www-form-urlencoded", b"a=1&oops".to_vec(), None) {
        Err(e @ BodyError::ParseError(_)) => assert_eq!(e.to_text(), "Parse error: Invalid form data format"),
        other => panic!("unexpected {:?}", other),
    }
    match Body::from_mime("multipart/form-data", vec![], None) {
        Err(e @ BodyError::MultipartError(_)) => assert_eq!(e.to_text(), "Multipart error: Missing boundary"),
        other => panic!("unexpected {:?}", other),
    }
    match Body::from_mime("foo/bar", vec![], None) {
        Err(e @ BodyError::UnsupportedMimeType(_)) => assert_eq!(e.to_text(), "Unsupported MIME type: foo/bar"),
        other => panic!("unexpected {:?}", other),
    }
    assert_eq!(BodyError::EmptyBody("x".to_string()).to_text(), "Empty body: x");
}

#[test]
fn body_lengths_and_texts() {
    assert_eq!(Body::text("héllo").body_len(), 6);
    assert_eq!(Body::empty().body_len(), 0);
    assert_eq!(Body::binary(b"ab".to_vec()).to_text(), "ab");
    let j = Body::json(JsonValue::from_serialized("{\"k\":\"v\"}".to_string()));
    assert_eq!(j.body_len(), 9);
    assert_eq!(j.to_text(), "{\"k\":\"v\"}");
    let mut form = FormUrlEncoded::new();
    form.add("a", "1");
    form.add("b", "22");
    let fb = Body::form(form);
    assert_eq!(fb.to_text(), "a=1&b=22");
    assert_eq!(fb.body_len(), 8);
}

#[test]
fn form_parsing_skips_empty_pairs() {
    let mut form = FormUrlEncoded::new();
    form.parse_str("a=1&&c=").unwrap();
    assert_eq!(form.len(), 2);
    assert_eq!(form.get("c").map(|s| s.as_str()), Some(""));
    let (k, v) = form.entry(0);
    assert_eq!((k.as_str(), v.as_str()), ("a", "1"));
}

#[test]
fn multipart_forms() {
    let data = b"--XYZ\r\nContent-Disposition: form-data; name=\"up\"; filename=\"a.txt\"\r\nContent-Type: text/plain\r\n\r\ncontent\r\n--XYZ--\r\n".to_vec();
    let body = Body::from_mime("multipart/form-data", data, Some("XYZ")).unwrap();
    let form = body.as_multipart().unwrap();
    let file = form.get_file("up").unwrap();
    assert_eq!(file.filename, "a.txt");
    assert_eq!(file.content_type, "text/plain");
    assert_eq!(file.data, b"content".to_vec());
    let mut made = MultipartForm::new();
    made.add_field("title", "t");
    made.add_file("f", MultipartFile { filename: "n".to_string(), content_type: "c".to_string(), data: vec![1, 2] });
    assert_eq!(made.get_field("title").map(|s| s.as_str()), Some("t"));
    assert_eq!(Body::Multipart(made).body_len(), 5 + 1 + 1 + 1 + 1 + 2);
}

// ---------------- requests and responses ----------------
#[test]
fn requests_parsed_from_bytes() {
    let r = parse_request(b"DELETE /a HTTP/1.1\r\nHost: x\r\nConnection: close\r\n\r\n").unwrap();
    assert_eq!(r.method, HttpMethod::DELETE);
    assert_eq!(r.uri, "/a");
    assert_eq!(r.version, "1");
    assert_eq!(r.headers.len(), 2);
    assert!(r.body.is_none());
    assert_eq!(r.get_header(HeaderName::Connection).unwrap().value.value, "close");
    assert!(parse_request(b"GET /a HTTP/1.1\r\nHost: x\r\n").is_none());
    let t = parse_request(b"POST /a HTTP/1.1\r\nContent-Type: text/plain\r\n\r\nhi").unwrap();
    assert_eq!(t.body.unwrap().as_text(), Some("hi"));
    let j = parse_request(b"POST /api/data HTTP/1.1\r\nHost: example.com\r\nContent-Type: application/json\r\n\r\n{\"key\": \"value\"}").unwrap();
    assert_eq!(j.method, HttpMethod::POST);
    assert_eq!(j.uri, "/api/data");
    assert_eq!(j.body.unwrap().as_json().unwrap().as_text(), "{\"key\":\"value\"}");
    let none = parse_request(b"POST /a HTTP/1.1\r\nHost: x\r\n\r\nhi").unwrap();
    assert!(none.body.is_none());
    assert!(parse_request(b"GET /a HTTP/1.1\r\nX-A: \xff\r\n\r\n").is_none());
}

#[test]
fn requests_built_and_written() {
    let r = RequestBuilder::new()
        .method("PATCH")
        .uri("/p")
        .header(vec![Header::from_str("x-a", "1")])
        .body(Body::text("b"))
        .build();
    assert_eq!(r.to_string(), "PATCH /p HTTP/1.1\r\nx-a: 1\r\n\r\nb");
    assert_eq!(RequestBuilder::new().method("BREW").build().method, HttpMethod::GET);
    assert_eq!(HttpMethod::OPTIONS.as_str(), "OPTIONS");
}

#[test]
fn responses_built_and_written() {
    let r = ResponseBuilder::new()
        .status_code(HttpStatusCode::Created)
        .setcookie("a", "b")
        .body(Body::text("ok"))
        .build();
    assert_eq!(r.to_string(), "HTTP/1.1 201\r\nSet-Cookie: a=b\r\n\r\nok");
    let mut o = CookieOptions::default();
    o.secure = true;
    let r2 = ResponseBuilder::new().setcookie_with_options("s", "v", o).build();
    assert_eq!(r2.to_string(), "HTTP/1.1 200\r\nSet-Cookie: s=v; Secure; Path=/; SameSite=Lax\r\n\r\n");
    assert_eq!(
        Response::not_found("gone").to_string(),
        "HTTP/1.1 404\r\nContent-Type: text/plain\r\nContent-Length: 4\r\n\r\ngone"
    );
    assert_eq!(
        Response::response_with_html("<p>", HttpStatusCode::OK).to_string(),
        "HTTP/1.1 200\r\nContent-Type: text/html\r\nContent-Length: 3\r\n\r\n<p>"
    );
    assert_eq!(Response::ok().to_string(), "HTTP/1.1 200\r\n\r\n");
}

#[test]
fn status_codes_and_texts() {
    assert_eq!(HttpStatusCode::URITooLong.code(), 414);
    assert_eq!(HttpStatusCode::NoContent.as_str(), "204 No Content");
    assert_eq!(HttpStatusCode::from_code(503), Some(HttpStatusCode::ServiceUnavailable));
    assert_eq!(HttpStatusCode::from_code(299), None);
    for code in 100u16..600 {
        if let Some(s) = HttpStatusCode::from_code(code) {
            assert_eq!(s.code(), code);
        }
    }
}

#[test]
fn form_text_parses_back() {
    let mut form = FormUrlEncoded::new();
    form.add("name", "a=b");
    form.add("", "x");
    form.add("z", "");
    let text = Body::form(form).to_text();
    assert_eq!(text, "name=a=b&=x&z=");
    let mut back = FormUrlEncoded::new();
    back.parse_str(&text).unwrap();
    assert_eq!(back.len(), 3);
    let got: Vec<(String, String)> = (0..back.len())
        .map(|i| {
            let (k, v) = back.entry(i);
            (k.clone(), v.clone())
        })
        .collect();
    assert_eq!(
        got,
        vec![
            ("name".to_string(), "a=b".to_string()),
            ("".to_string(), "x".to_string()),
            ("z".to_string(), "".to_string())
        ]
    );
}

#[test]
fn header_name_texts_read_back() {
    let names = vec![
        HeaderName::ContentType, HeaderName::ContentLength, HeaderName::ContentDisposition,
        HeaderName::Connection, HeaderName::TransferEncoding, HeaderName::Cookie, HeaderName::SetCookie,
        HeaderName::CacheControl, HeaderName::Date, HeaderName::Host, HeaderName::Accept,
        HeaderName::AcceptLanguage, HeaderName::AcceptEncoding, HeaderName::Server, HeaderName::StatusCode,
        HeaderName::ETag, HeaderName::LastModified, HeaderName::StrictTransportSecurity,
    ];
    for n in names {
        assert!(HeaderName::from_str(n.as_str()).same(&n));
        assert!(HeaderName::from_str(&n.as_str().to_uppercase()).same(&n));
    }
    let c = Header::from_str("Cookie", "sid=abc");
    assert!(matches!(c.value.parsed_value, Some(HeaderParsedValue::Cookie(ref k)) if k.value == "abc"));
}

#[test]
fn multipart_guide_example() {
    let mut f = MultipartForm::new();
    let data = b"------Boundary123\r\nContent-Disposition: form-data; name=\"file\"; filename=\"example.txt\"\r\nContent-Type: text/plain\r\n\r\n[File Content Here]\r\n------Boundary123--\r\n".to_vec();
    f.set_data(data, "----Boundary123");
    assert!(f.fields.len() == 0);
    assert_eq!(f.files.len(), 1);
    let file = f.get_file("file").unwrap();
    assert_eq!(file.filename, "example.txt");
    assert_eq!(file.content_type, "text/plain");
    assert_eq!(file.data, b"[File Content Here]".to_vec());
    let mut g = MultipartForm::new();
    g.set_data(b"--B\r\nContent-Disposition: form-data; name=\"title\"\r\n\r\nhello\r\n--B--".to_vec(), "B");
    assert_eq!(g.get_field("title").map(|s| s.as_str()), Some("hello"));
}

#[test]
fn body_length_counts_the_bytes_sent() {
    let mut form = FormUrlEncoded::new();
    form.add("név", "é v");
    let bodies = vec![
        Body::text("héllo wörld"),
        Body::json(JsonValue::from_serialized("{\"k\":\"ü\"}".to_string())),
        Body::form(form),
        Body::binary(vec![0xff, 0, 1]),
        Body::empty(),
    ];
    for b in bodies {
        let r = Response::new(HttpStatusCode::OK, vec![], Some(b.duplicate()));
        let head_len = Response::new(HttpStatusCode::OK, vec![], None).to_bytes().len();
        assert_eq!(r.to_bytes().len() - head_len, b.body_len());
    }
}

#[test]
fn status_texts_start_with_their_codes() {
    for code in 100u16..600 {
        if let Some(s) = HttpStatusCode::from_code(code) {
            assert!(s.as_str().starts_with(&format!("{} ", code)));
        }
    }
}

#[test]
fn cookie_text_reads_back_whole() {
    let policies = vec![SameSitePolicy::Strict, SameSitePolicy::Lax, SameSitePolicy::CrossSite];
    for p in policies {
        let o = CookieOptions {
            http_only: true,
            secure: true,
            max_age: Some(3600),
            path: Some("/app".to_string()),
            expires: None,
            domain: Some("example.com".to_string()),
            same_site: p,
        };
        let c = Cookie::with_options("sid", "abc", o);
        let text = c.to_string();
        assert_eq!(Cookie::parse(&text).unwrap().to_string(), text);
    }
    let plain = Cookie::new("a", "b");
    assert_eq!(Cookie::parse(&plain.to_string()).unwrap().to_string(), plain.to_string());
}

#[test]
fn cookie_expires_takes_the_given_clock() {
    let t = localhost::sys::TimeStamp { secs: 42, nanos: 7 };
    let c = Cookie::parse_at("a=b; Expires=Thu, 01 Jan 1970 00:00:00 GMT", t).unwrap();
    assert_eq!(c.options.expires, Some(t));
    assert_eq!(Cookie::parse_at("a=b", t).unwrap().options.expires, None);
}

#[test]
fn header_names_read_back_in_any_case() {
    let names = vec![
        HeaderName::ContentType, HeaderName::ContentLength, HeaderName::Cookie, HeaderName::SetCookie,
        HeaderName::Host, HeaderName::ETag, HeaderName::StrictTransportSecurity,
    ];
    for n in names {
        assert!(HeaderName::from_str(n.as_str()).same(&n));
        assert!(HeaderName::from_str(&n.as_str().to_uppercase()).same(&n));
        assert!(HeaderName::from_str(&n.as_str().to_lowercase()).same(&n));
    }
}

#[test]
fn request_read_from_a_given_head() {
    let bytes = b"POST /a HTTP/1.1\r\nContent-Type: text/plain\r\n\r\nhi".to_vec();
    let head = localhost::deps::RawHead {
        method: Some("POST".to_string()),
        path: Some("/a".to_string()),
        version: Some(1),
        headers: vec![("Content-Type".to_string(), b"text/plain".to_vec())],
        len: bytes.len() - 2,
    };
    let r = localhost::http::request::request_from_head(&head, &bytes).unwrap();
    assert_eq!(r.method, HttpMethod::POST);
    assert_eq!(r.uri, "/a");
    assert_eq!(r.version, "1");
    assert_eq!(r.body.unwrap().to_text(), "hi");
    let bad = localhost::deps::RawHead {
        method: Some("GET".to_string()),
        path: Some("/".to_string()),
        version: Some(1),
        headers: vec![("X-A".to_string(), vec![0xff])],
        len: bytes.len(),
    };
    assert!(localhost::http::request::request_from_head(&bad, &bytes).is_none());
}
