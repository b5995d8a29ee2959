//! The handlers of requests: static files, CGI scripts, the file API and
//! the session API. What they decide and the responses they build are
//! here; reading files, running scripts and writing uploads are left to
//! the program, which hands in what it found.
use vstd::prelude::*;
use crate::deps::{json_object, json_object_text, pair_texts};
use crate::http::body::{Body, BodySpec, JsonValue, spec_from_mime, spec_body_len, utf8_len};
use crate::http::header::{Header, HeaderSpec, HeaderNameSpec, ParsedValueSpec, spec_content_type, spec_name_text, text_lower};
use crate::http::request::{HttpMethod, Request, header_read_from, opt_body, spec_method_text};
use crate::http::response::{Response, ResponseBuilder, body_headers};
use crate::http::status::HttpStatusCode;
use crate::server::cgi::{CGIConfig, extension_allowed, cgi_response, blank_line};
use crate::server::errors::{HttpError, ServerError, spec_server_text};
use crate::server::session::{SessionManager, SessionView, MemorySessionStore, header_session_id, session_lookup};
use crate::server::static_files::{FileStatus, ServerStaticFiles};
use crate::server::uploader::Uploader;
use crate::sys::{from_utf8_lossy, utf8_lossy, unicode_lower};
use crate::text::{
    chars_of, chars_is, owned, push_str, string_of, decimal, decimal_chars, has_prefix,
    str_starts_with, parse_signed, parse_i32_chars, slice_chars, find_text,
};

verus! {

/// Serves the static files of a route.
#[derive(Debug)]
pub struct StaticFileHandler {
    pub static_files: ServerStaticFiles,
}

/// Runs the CGI scripts of a route.
#[derive(Debug)]
pub struct CGIHandler {
    pub cgi_config: CGIConfig,
}

/// Serves the file API: listing, uploading and deleting files.
#[derive(Debug)]
pub struct FileAPIHandler {
    pub uploader: Uploader,
}

/// What a request to the file API asks for.
#[derive(Debug, PartialEq, Eq)]
pub enum FileApiRequest {
    List,
    Upload,
    Delete(i32),
}

/// What a request to the session API asks for.
#[derive(Debug, Clone, Copy, PartialEq, Eq, Structural)]
pub enum SessionApiRequest {
    Create,
    Destroy,
}

/// The error of an HTTP error kind and message.
pub open spec fn http_error_is(e: ServerError, status: HttpStatusCode, message: Seq<char>) -> bool {
    e matches ServerError::HttpError(h) && crate::server::errors::spec_http_status(h) == status
        && crate::server::errors::spec_message(h) == message
}

/// A response built from a body read by MIME type: that type as content
/// type, the body's length, and status `404` for a missing file.
pub open spec fn file_response(r: Response, mime: Seq<char>, body: BodySpec, status: FileStatus) -> bool {
    &&& r.version@ == "HTTP/1.1"@
    &&& r.status_code == if status == FileStatus::NotFound {
        HttpStatusCode::NotFound
    } else {
        HttpStatusCode::OK
    }
    &&& r.headers@.len() == 2
    &&& r.headers@[0]@ == (HeaderSpec {
        name: HeaderNameSpec::ContentType,
        value: mime,
        parsed: Some(ParsedValueSpec::ContentType(spec_content_type(text_lower(mime)))),
    })
    &&& header_read_from(r.headers@[1]@, "content-length"@, decimal(spec_body_len(body) as nat))
    &&& opt_body(r.body) == Some(body)
}

impl StaticFileHandler {
    pub fn new(static_files: ServerStaticFiles) -> (r: Self)
        ensures
            r.static_files == static_files,
    {
        StaticFileHandler { static_files }
    }

    /// The response for a file the static files served: its bytes, its
    /// MIME type (`text/plain` when unknown) and the status of the serving.
    /// `None` when the bytes cannot be read as that type (the handler
    /// gives up on the request there).
    pub fn static_response(&self, content: Vec<u8>, mime: Option<String>, file_status: FileStatus) -> (r: Option<Response>)
        ensures
            ({
                let m = match mime {
                    Some(m) => m@,
                    None => "text/plain"@,
                };
                match spec_from_mime(m, content@, None) {
                    Ok(b) => r matches Some(resp) && file_response(resp, m, b, file_status),
                    Err(_) => r is None,
                }
            }),
    {
        let mime_str = match &mime {
            Some(m) => owned(m.as_str()),
            None => owned("text/plain"),
        };
        let content_type = Header::from_mime(mime_str.as_str());
        let body = match Body::from_mime(mime_str.as_str(), content, None) {
            Ok(b) => b,
            Err(_) => {
                return None;
            },
        };
        let len = string_of(&decimal_chars(body.body_len() as u64));
        let content_length = Header::from_str("content-length", len.as_str());
        let status_code = if file_status == FileStatus::NotFound {
            HttpStatusCode::NotFound
        } else {
            HttpStatusCode::OK
        };
        Some(
            ResponseBuilder::new().status_code(status_code).header(content_type).header(
                content_length,
            ).body(body).build(),
        )
    }
}

impl CGIHandler {
    pub fn new(cgi_config: CGIConfig) -> (r: Self)
        ensures
            r.cgi_config == cgi_config,
    {
        CGIHandler { cgi_config }
    }

    /// Whether the script may run: `exists` tells whether its path exists.
    /// A missing script is not found; an extension not allowed is
    /// forbidden.
    pub fn check_script(&self, script_path: &str, exists: bool) -> (r: Result<(), ServerError>)
        ensures
            !exists ==> (r matches Err(e) && http_error_is(
                e,
                HttpStatusCode::NotFound,
                "CGI script not found: "@ + script_path@,
            )),
            exists && !extension_allowed(self.cgi_config.allowed_extensions@, script_path@) ==> (r matches Err(e)
                && http_error_is(e, HttpStatusCode::Forbidden, "Script type not allowed: "@ + script_path@)),
            exists && extension_allowed(self.cgi_config.allowed_extensions@, script_path@) ==> r is Ok,
    {
        if !exists {
            let mut m = chars_of("CGI script not found: ");
            push_str(&mut m, script_path);
            return Err(ServerError::HttpError(HttpError::NotFound(string_of(&m))));
        }
        if !self.cgi_config.is_allowed_extension(script_path) {
            let mut m = chars_of("Script type not allowed: ");
            push_str(&mut m, script_path);
            return Err(ServerError::HttpError(HttpError::Forbidden(string_of(&m))));
        }
        Ok(())
    }

    /// The response of a script that ran: a failed script is an internal
    /// error with its error output; an output that does not read as a
    /// response is an internal error naming the parse error.
    pub fn script_response(&self, success: bool, stdout: &[u8], stderr: &[u8]) -> (r: Result<Response, ServerError>)
        ensures
            !success ==> (r matches Err(e) && http_error_is(
                e,
                HttpStatusCode::InternalServerError,
                "CGI script error: "@ + utf8_lossy(stderr@),
            )),
            success ==> match find_text(utf8_lossy(stdout@), blank_line()) {
                None => r matches Err(e) && http_error_is(
                    e,
                    HttpStatusCode::InternalServerError,
                    "Failed to parse CGI output: CGI Error: Invalid CGI output format"@,
                ),
                Some(p) => r matches Ok(resp) && cgi_response(resp, utf8_lossy(stdout@), p),
            },
    {
        if !success {
            let mut m = chars_of("CGI script error: ");
            push_str(&mut m, from_utf8_lossy(stderr).as_str());
            return Err(ServerError::HttpError(HttpError::InternalServerError(string_of(&m))));
        }
        match self.cgi_config.parse_cgi_output(true, stdout, stderr) {
            Ok(resp) => Ok(resp),
            Err(e) => {
                let mut m = chars_of("Failed to parse CGI output: ");
                push_str(&mut m, e.to_text().as_str());
                proof {
                    reveal_strlit("Failed to parse CGI output: ");
                    reveal_strlit("CGI Error: ");
                    reveal_strlit("Invalid CGI output format");
                    reveal_strlit("Failed to parse CGI output: CGI Error: Invalid CGI output format");
                    assert(m@ =~= "Failed to parse CGI output: CGI Error: Invalid CGI output format"@);
                }
                Err(ServerError::HttpError(HttpError::InternalServerError(string_of(&m))))
            },
        }
    }
}

// ============= The file API =============
/// What a request to the file API asks for, or the error it gets (status
/// and message): `GET /api/files/list`, `POST /api/files/upload` with a
/// multipart body, `DELETE /api/files/delete/<id>`.
pub open spec fn spec_file_api_request(req: Request) -> Result<FileApiRequest, (HttpStatusCode, Seq<char>)> {
    let not_found = (HttpStatusCode::NotFound, "API route not found: "@ + req.uri@);
    match req.method {
        HttpMethod::GET => if req.uri@ == "/api/files/list"@ {
            Ok(FileApiRequest::List)
        } else {
            Err(not_found)
        },
        HttpMethod::POST => if req.uri@ != "/api/files/upload"@ {
            Err(not_found)
        } else if req.body matches Some(Body::Multipart(_)) {
            Ok(FileApiRequest::Upload)
        } else {
            Err((HttpStatusCode::BadRequest, "Invalid request format: expected multipart form data"@))
        },
        HttpMethod::DELETE => if !has_prefix(req.uri@, "/api/files/delete/"@) {
            Err(not_found)
        } else {
            match parse_signed(req.uri@.skip(18), i32::MAX as nat) {
                Some(v) => Ok(FileApiRequest::Delete(v as i32)),
                None => Err((HttpStatusCode::BadRequest, "Invalid file ID"@)),
            }
        },
        _ => Err(
            (
                HttpStatusCode::MethodNotAllowed,
                "Method "@ + spec_method_text(req.method) + " not allowed for file API"@,
            ),
        ),
    }
}

/// The error of a status and message.
fn http_error(status: HttpStatusCode, message: String) -> (r: ServerError)
    requires
        status == HttpStatusCode::NotFound || status == HttpStatusCode::BadRequest || status
            == HttpStatusCode::MethodNotAllowed,
    ensures
        http_error_is(r, status, message@),
{
    match status {
        HttpStatusCode::NotFound => ServerError::HttpError(HttpError::NotFound(message)),
        HttpStatusCode::BadRequest => ServerError::HttpError(HttpError::BadRequest(message)),
        _ => ServerError::HttpError(HttpError::MethodNotAllowed(message)),
    }
}

fn join(a: &str, b: &str) -> (r: String)
    ensures
        r@ == a@ + b@,
{
    let mut v = chars_of(a);
    push_str(&mut v, b);
    string_of(&v)
}

impl FileAPIHandler {
    /// The handler of the file API (it cannot fail).
    pub fn new(uploader: Uploader) -> (r: Result<Self, ServerError>)
        ensures
            r matches Ok(h) && h.uploader == uploader,
    {
        Ok(FileAPIHandler { uploader })
    }

    /// What the request asks of the file API, or the error it gets.
    pub fn request_kind(&self, request: &Request) -> (r: Result<FileApiRequest, ServerError>)
        ensures
            match spec_file_api_request(*request) {
                Ok(k) => r == Ok::<FileApiRequest, ServerError>(k),
                Err((status, message)) => r matches Err(e) && http_error_is(e, status, message),
            },
    {
        let uri = request.uri.as_str();
        match request.method {
            HttpMethod::GET => {
                if crate::text::str_eq(uri, "/api/files/list") {
                    Ok(FileApiRequest::List)
                } else {
                    Err(http_error(HttpStatusCode::NotFound, join("API route not found: ", uri)))
                }
            },
            HttpMethod::POST => {
                if !crate::text::str_eq(uri, "/api/files/upload") {
                    return Err(http_error(HttpStatusCode::NotFound, join("API route not found: ", uri)));
                }
                match &request.body {
                    Some(Body::Multipart(_)) => Ok(FileApiRequest::Upload),
                    _ => Err(
                        http_error(
                            HttpStatusCode::BadRequest,
                            owned("Invalid request format: expected multipart form data"),
                        ),
                    ),
                }
            },
            HttpMethod::DELETE => {
                if !str_starts_with(uri, "/api/files/delete/") {
                    return Err(http_error(HttpStatusCode::NotFound, join("API route not found: ", uri)));
                }
                let c = chars_of(uri);
                proof {
                    reveal_strlit("/api/files/delete/");
                }
                let rest = slice_chars(&c, 18, c.len());
                assert(rest@ =~= uri@.skip(18));
                match parse_i32_chars(&rest) {
                    Some(v) => Ok(FileApiRequest::Delete(v)),
                    None => Err(http_error(HttpStatusCode::BadRequest, owned("Invalid file ID"))),
                }
            },
            _ => {
                let mut m = chars_of("Method ");
                push_str(&mut m, request.method.as_str());
                push_str(&mut m, " not allowed for file API");
                Err(http_error(HttpStatusCode::MethodNotAllowed, string_of(&m)))
            },
        }
    }
}

// ============= The session API =============
/// What a request to the session API asks for, or the error it gets:
/// `POST /api/session/create`, `DELETE /api/session/delete`.
pub open spec fn spec_session_api_request(req: Request) -> Result<SessionApiRequest, (HttpStatusCode, Seq<char>)> {
    let not_found = (HttpStatusCode::NotFound, "API route not found: "@ + req.uri@);
    match req.method {
        HttpMethod::POST => if req.uri@ == "/api/session/create"@ {
            Ok(SessionApiRequest::Create)
        } else {
            Err(not_found)
        },
        HttpMethod::DELETE => if req.uri@ == "/api/session/delete"@ {
            Ok(SessionApiRequest::Destroy)
        } else {
            Err(not_found)
        },
        _ => Err(
            (
                HttpStatusCode::MethodNotAllowed,
                "Method "@ + spec_method_text(req.method) + " not allowed for session API"@,
            ),
        ),
    }
}

/// What the request asks of the session API, or the error it gets.
pub fn session_request_kind(request: &Request) -> (r: Result<SessionApiRequest, ServerError>)
    ensures
        match spec_session_api_request(*request) {
            Ok(k) => r == Ok::<SessionApiRequest, ServerError>(k),
            Err((status, message)) => r matches Err(e) && http_error_is(e, status, message),
        },
{
    let uri = request.uri.as_str();
    match request.method {
        HttpMethod::POST => {
            if crate::text::str_eq(uri, "/api/session/create") {
                Ok(SessionApiRequest::Create)
            } else {
                Err(http_error(HttpStatusCode::NotFound, join("API route not found: ", uri)))
            }
        },
        HttpMethod::DELETE => {
            if crate::text::str_eq(uri, "/api/session/delete") {
                Ok(SessionApiRequest::Destroy)
            } else {
                Err(http_error(HttpStatusCode::NotFound, join("API route not found: ", uri)))
            }
        },
        _ => {
            let mut m = chars_of("Method ");
            push_str(&mut m, request.method.as_str());
            push_str(&mut m, " not allowed for session API");
            Err(http_error(HttpStatusCode::MethodNotAllowed, string_of(&m)))
        },
    }
}

/// A JSON response: the extra header first (when there is one), then the
/// content type and length.
pub open spec fn json_response(r: Response, status: HttpStatusCode, json: Seq<char>) -> bool {
    &&& r.version@ == "HTTP/1.1"@
    &&& r.status_code == status
    &&& body_headers(r.headers@, "application/json"@, utf8_len(json))
    &&& opt_body(r.body) == Some(BodySpec::Json(json))
}

/// The JSON object of two string members.
fn object2(k1: &str, v1: &str, k2: &str, v2: &str) -> (r: JsonValue)
    ensures
        r@ == json_object_text(seq![(k1@, v1@), (k2@, v2@)]),
{
    let mut members: Vec<(String, String)> = Vec::new();
    members.push((owned(k1), owned(v1)));
    members.push((owned(k2), owned(v2)));
    assert(pair_texts(members@) =~= seq![(k1@, v1@), (k2@, v2@)]);
    JsonValue::from_serialized(json_object(&members))
}

/// A response with a header and a JSON body.
fn json_with_header(status: HttpStatusCode, header: Header, json: JsonValue) -> (r: Response)
    ensures
        r.version@ == "HTTP/1.1"@,
        r.status_code == status,
        r.headers@.len() == 3,
        r.headers@[0] == header,
        body_headers(r.headers@.skip(1), "application/json"@, utf8_len(json@)),
        opt_body(r.body) == Some(BodySpec::Json(json@)),
{
    let body = Body::json(json);
    let len = string_of(&decimal_chars(body.body_len() as u64));
    let r = ResponseBuilder::new().status_code(status).header(header).header(
        Header::from_str("content-type", "application/json"),
    ).header(Header::from_str("content-length", len.as_str())).body(body).build();
    assert(r.headers@.skip(1) =~= seq![r.headers@[1], r.headers@[2]]);
    r
}

/// The body sent for a created session.
pub open spec fn created_json(id: Seq<char>) -> Seq<char> {
    json_object_text(seq![("message"@, "Session created"@), ("session_id"@, id)])
}

/// Creates a session for `POST /api/session/create`: `200` with the
/// session cookie header and `{"message": "Session created",
/// "session_id": id}`. `None` only when no session could be made (a time
/// involved is later than the clock can hold, see `creation_fits`).
pub fn session_create_response(manager: &mut SessionManager) -> (r: Option<Response>)
    requires
        old(manager).store.wf(),
    ensures
        final(manager).store.wf(),
        final(manager).config == old(manager).config,
        r is None ==> exists|t: crate::sys::TimeStamp| t.nanos < 1_000_000_000 && !#[trigger] crate::server::session::creation_fits(old(manager).config, t),
        r matches Some(resp) ==> exists|id: Seq<char>|
            id.len() == 36 && resp.version@ == "HTTP/1.1"@ && resp.status_code == HttpStatusCode::OK
                && resp.headers@.len() == 3 && body_headers(
                resp.headers@.skip(1),
                "application/json"@,
                utf8_len(#[trigger] created_json(id)),
            ) && opt_body(resp.body) == Some(BodySpec::Json(created_json(id)))
                && crate::map::map_get(final(manager).store.sessions_view(), id) is Some,
{
    let (session, cookie_header) = match manager.create_session() {
        Some(p) => p,
        None => {
            return None;
        },
    };
    let copy = session.clone();
    let ghost v1 = manager.store.sessions_view();
    proof {
        crate::server::session::lemma_store_distinct(manager.store);
    }
    let _ = manager.store.set(copy);
    proof {
        crate::server::session::law_get_after_set(v1, session@, session.id@);
    }
    let json = object2("message", "Session created", "session_id", session.id.as_str());
    assert(json@ == created_json(session.id@));
    let resp = json_with_header(HttpStatusCode::OK, cookie_header, json);
    assert(crate::map::map_get(manager.store.sessions_view(), session.id@) is Some);
    assert(body_headers(resp.headers@.skip(1), "application/json"@, utf8_len(created_json(session.id@))));
    Some(resp)
}

/// The body sent when there is no session to end.
pub open spec fn no_session_json() -> Seq<char> {
    json_object_text(seq![("message"@, "No valid session found"@)])
}

/// The body sent for an ended session.
pub open spec fn destroyed_json(id: Seq<char>) -> Seq<char> {
    json_object_text(seq![("message"@, "Session destroyed successfully"@), ("session_id"@, id)])
}

/// Ends the session of a request for `DELETE /api/session/delete`. The
/// session is named by the first `Cookie` header.
/// Without a session: `401` with `{"message": "No valid session
/// found"}`. With one: it is ended, and the answer is `200` with the
/// clearing cookie header and `{"message": "Session destroyed
/// successfully", "session_id": id}`. A session found ended is an error,
/// reported to the client by the caller.
pub fn session_destroy_response(manager: &mut SessionManager, request: &Request) -> (r: Result<Response, ServerError>)
    requires
        old(manager).store.wf(),
    ensures
        final(manager).store.wf(),
        final(manager).config == old(manager).config,
        match crate::server::session::request_session_id(*request) {
            Some(v) => match crate::map::map_get(old(manager).store.sessions_view(), v) {
                Some(sv) => {
                    ||| (r matches Ok(resp) && resp.status_code == HttpStatusCode::OK && resp.headers@.len() == 3
                        && body_headers(resp.headers@.skip(1), "application/json"@, utf8_len(destroyed_json(sv.id)))
                        && opt_body(resp.body) == Some(BodySpec::Json(destroyed_json(sv.id))))
                        && final(manager).store.sessions_view() == crate::map::map_remove(old(manager).store.sessions_view(), sv.id)
                    ||| sv.expires_at is Some && (r matches Err(ServerError::SessionError(crate::server::errors::SessionError::SessionExpired(m))) && m@ == v)
                        && final(manager).store.sessions_view() == crate::map::map_remove(old(manager).store.sessions_view(), v)
                },
                None => (r matches Ok(resp) && json_response(resp, HttpStatusCode::Unauthorized, no_session_json()))
                    && final(manager).store == old(manager).store,
            },
            None => (r matches Ok(resp) && json_response(resp, HttpStatusCode::Unauthorized, no_session_json()))
                && final(manager).store == old(manager).store,
        },
{
    let cookie_header = crate::server::session::find_cookie_header(&request.headers);
    match manager.get_session(cookie_header) {
        Ok(Some(session)) => {
            let header = match manager.destroy_session(session.id.as_str()) {
                Ok(h) => h,
                Err(e) => {
                    return Err(e);
                },
            };
            let json = object2("message", "Session destroyed successfully", "session_id", session.id.as_str());
            assert(json@ == destroyed_json(session.id@));
            Ok(json_with_header(HttpStatusCode::OK, header, json))
        },
        Ok(None) => {
            let mut members: Vec<(String, String)> = Vec::new();
            members.push((owned("message"), owned("No valid session found")));
            assert(pair_texts(members@) =~= seq![("message"@, "No valid session found"@)]);
            let json = JsonValue::from_serialized(json_object(&members));
            Ok(Response::response_with_json(json, HttpStatusCode::Unauthorized))
        },
        Err(e) => Err(e),
    }
}

} // verus!
