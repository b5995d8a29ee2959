use localhost::http::body::Body;
use localhost::http::header::{Header, HeaderName};
use localhost::http::request::{HttpMethod, Request};
use localhost::http::response::Response;
use localhost::http::status::HttpStatusCode;
use localhost::map::StrMap;
use localhost::server::cgi::CGIConfig;
use localhost::server::connection::{finish_request, ConnAction, RequestOutcome, add_connection_headers, want_keep_alive, request_log_line, Connection, ConnectionState};
use localhost::server::errors::{CGIError, HttpError, ServerError, SessionError, UploaderError};
use localhost::server::handlers::{session_request_kind, FileAPIHandler, FileApiRequest, SessionApiRequest, StaticFileHandler};
use localhost::server::host::{Admission, Host, HostListener, RouteDecision};
use localhost::server::logger::{LogLevel, Logger};
use localhost::server::route::{Route, RouteMatcher};
use localhost::server::server::{timed_out, Server};
use localhost::server::session::{MemorySessionStore, Session, SessionManager, SessionMiddleware};
use localhost::server::static_files::{ErrorPages, FileStatus, FileStep, ServerStaticFiles, StaticTarget};
use localhost::server::stream::{find_headers_end, parse_chunk_size, ReadAction, RequestState, UnifiedReader};
use localhost::server::uploader::{DirEntryInfo, Uploader};
use localhost::sys::TimeStamp;

fn request(method: HttpMethod, uri: &str, headers: Vec<Header>) -> Request {
    Request::new(method, uri.to_string(), "HTTP/1.1".to_string(), headers, None)
}

fn route(path: &str) -> Route {
    Route {
        path: path.to_string(),
        methods: vec![HttpMethod::GET],
        static_files: None,
        cgi_config: None,
        redirect: None,
        session_required: None,
        session_redirect: None,
        matcher: None,
        params: StrMap::new(),
    }
}

// ---------------- errors ----------------
#[test]
fn server_error_statuses() {
    assert_eq!(ServerError::FileNotFound("a".to_string()).to_http_status(), HttpStatusCode::NotFound);
    assert_eq!(ServerError::SessionError(SessionError::AuthenticationRequired).to_http_status(), HttpStatusCode::Unauthorized);
    assert_eq!(ServerError::SessionError(SessionError::SessionExpiredRedirect("/l".to_string())).to_http_status(), HttpStatusCode::Found);
    assert_eq!(ServerError::UploaderError(UploaderError::FileTooLarge { size: 5, max_size: 2 }).to_http_status(), HttpStatusCode::PayloadTooLarge);
    assert_eq!(ServerError::CGIError(CGIError::ExtensionNotAllowed("sh".to_string())).to_http_status(), HttpStatusCode::Forbidden);
    assert_eq!(ServerError::IoError("x".to_string()).to_http_status(), HttpStatusCode::InternalServerError);
}

#[test]
fn server_error_texts() {
    assert_eq!(
        ServerError::UploaderError(UploaderError::FileTooLarge { size: 5, max_size: 2 }).to_text(),
        "Uploader Error: File too large: 5 bytes (max: 2 bytes)"
    );
    assert_eq!(ServerError::UploaderError(UploaderError::FileNotFound(-3)).to_text(), "Uploader Error: File with ID -3 not found");
    assert_eq!(ServerError::SessionError(SessionError::AuthenticationRequired).to_text(), "Session Error: Authentication required");
    assert_eq!(ServerError::CGIError(CGIError::InvalidOutputFormat).to_text(), "CGI Error: Invalid CGI output format");
    assert_eq!(ServerError::HttpError(HttpError::Found("/x".to_string())).to_text(), "HTTP Error: Found: /x");
    assert_eq!(ServerError::from_io(true, "gone".to_string()).to_text(), "File not found: gone");
    assert_eq!(ServerError::from_io(false, "oops".to_string()).to_text(), "IO Error: oops");
}

#[test]
fn http_error_from_server_error() {
    let e = HttpError::new(ServerError::FileNotFound("a.txt".to_string()));
    assert_eq!(e.status_code(), HttpStatusCode::NotFound);
    assert_eq!(e.to_text(), "Not found: File not found: a.txt");
    let e2 = HttpError::new(ServerError::SessionError(SessionError::AuthenticationRequired));
    assert_eq!(e2.status_code(), HttpStatusCode::InternalServerError);
}

#[test]
fn error_responses_without_pages() {
    let r = HttpError::NotFound("nope".to_string()).to_response(None, None);
    assert_eq!(r.status_code, HttpStatusCode::NotFound);
    let text = r.to_string();
    assert!(text.starts_with("HTTP/1.1 404\r\n"));
    assert!(text.contains("content-type: application/json") || text.contains("Content-Type: application/json"));
    assert!(text.ends_with("{\"error\":\"nope\"}"));
    let redirect = HttpError::Found("/login".to_string()).to_response(None, None);
    assert_eq!(redirect.status_code, HttpStatusCode::Found);
    assert_eq!(redirect.headers.len(), 1);
    assert_eq!(redirect.headers[0].value.value, "/login");
    let via_server = ServerError::DirectoryAccessDenied("d".to_string()).to_response();
    assert_eq!(via_server.status_code, HttpStatusCode::Forbidden);
    assert!(via_server.to_string().ends_with("{\"error\":\"Directory access denied\"}"));
}

#[test]
fn error_responses_with_pages() {
    let page = HttpError::Forbidden("x".to_string()).to_response(Some(b"<p>no</p>".to_vec()), None);
    assert_eq!(page.status_code, HttpStatusCode::Forbidden);
    assert!(page.to_string().ends_with("<p>no</p>"));
    let template = b"<html><head></head><body>const errorCode = urlParams.get('code') || '404';</body></html>".to_vec();
    let r = HttpError::NotFound("it's gone".to_string()).to_response(None, Some(template));
    let body = r.to_string();
    assert!(body.contains("window.ERROR_CODE = '404';"));
    assert!(body.contains("window.ERROR_MESSAGE = 'it\\'s gone';"));
    assert!(body.contains("const errorCode = window.ERROR_CODE || urlParams.get('code') || '404';"));
    assert!(body.contains("</script></head>"));
}

#[test]
fn not_found_fallbacks() {
    let a = HttpError::not_found(Some(b"custom".to_vec()), Some(b"template".to_vec()));
    assert!(a.to_string().ends_with("custom"));
    let b = HttpError::not_found(None, Some(b"template".to_vec()));
    assert!(b.to_string().ends_with("template"));
    let c = HttpError::not_found(None, None);
    assert_eq!(c.status_code, HttpStatusCode::NotFound);
    assert!(c.to_string().contains("<h1>404 Not Found</h1>"));
}

// ---------------- cgi ----------------
#[test]
fn cgi_config_defaults() {
    let c = CGIConfig::new("cgi-bin".to_string());
    assert_eq!(c.interpreter, "/usr/bin/python3");
    assert_eq!(c.allowed_extensions, vec!["py".to_string()]);
    assert!(c.is_allowed_extension("cgi-bin/a.py"));
    assert!(!c.is_allowed_extension("cgi-bin/a.sh"));
    assert!(!c.is_allowed_extension("cgi-bin/noext"));
}

#[test]
fn cgi_validate_script() {
    let c = CGIConfig::new("d".to_string());
    assert!(c.validate_script("x.py", true).is_ok());
    assert_eq!(c.validate_script("x.py", false).unwrap_err().to_text(), "CGI Error: CGI script not found: x.py");
    assert_eq!(c.validate_script("x.sh", true).unwrap_err().to_text(), "CGI Error: CGI script extension not allowed: sh");
    assert_eq!(c.validate_script("x", true).unwrap_err().to_text(), "CGI Error: CGI script extension not allowed: unknown");
}

#[test]
fn cgi_environment() {
    let c = CGIConfig::new("d".to_string());
    let req = request(
        HttpMethod::POST,
        "/cgi/x.py",
        vec![Header::from_str("Content-Type", "text/plain"), Header::from_str("X-Token", "abc")],
    );
    let env = c.prepare_cgi_environment(&req);
    assert_eq!(env.get("GATEWAY_INTERFACE").unwrap(), "CGI/1.1");
    assert_eq!(env.get("REQUEST_METHOD").unwrap(), "POST");
    assert_eq!(env.get("SCRIPT_NAME").unwrap(), "/cgi/x.py");
    assert_eq!(env.get("QUERY_STRING").unwrap(), "");
    assert_eq!(env.get("HTTP_CONTENT_TYPE").unwrap(), "text/plain");
    assert_eq!(env.get("HTTP_X_TOKEN").unwrap(), "abc");
    assert_eq!(env.len(), 8);
}

#[test]
fn cgi_output_status_and_headers() {
    let c = CGIConfig::new("d".to_string());
    let out = b"Status: 404 Not Found\r\nX-A: 1\r\n\r\nbody here";
    let r = c.parse_cgi_output(true, out, b"").unwrap();
    assert_eq!(r.status_code, HttpStatusCode::NotFound);
    assert_eq!(r.headers.len(), 2);
    assert_eq!(r.headers[0].value.value, "1");
    assert_eq!(r.headers[1].value.value, "text/plain");
    assert!(r.to_string().ends_with("body here"));
}

#[test]
fn cgi_output_errors() {
    let c = CGIConfig::new("d".to_string());
    assert_eq!(c.parse_cgi_output(true, b"no blank line", b"").unwrap_err().to_text(), "CGI Error: Invalid CGI output format");
    assert_eq!(c.parse_cgi_output(false, b"", b"boom").unwrap_err().to_text(), "CGI Error: CGI script error: boom");
    let r = c.parse_cgi_output(true, b"Content-Type: text/html\r\n\r\n<b>hi</b>\r\n\r\nignored", b"").unwrap();
    assert_eq!(r.headers.len(), 1);
    assert_eq!(r.status_code, HttpStatusCode::OK);
    assert!(r.to_string().ends_with("<b>hi</b>\r\n\r\nignored"));
    let whole = c.parse_cgi_output(true, b"Content-Type: text/plain\r\n\r\nline1\r\n\r\nline2", b"").unwrap();
    assert_eq!(whole.body.unwrap().as_text(), Some("line1\r\n\r\nline2"));
}

// ---------------- route ----------------
#[test]
fn route_matchers() {
    let exact = RouteMatcher::from_path("/about");
    assert!(matches!(exact, RouteMatcher::Exact(_)));
    assert!(exact.matches("/about", false));
    assert!(!exact.matches("/about/", false));
    let dynamic = RouteMatcher::from_path("/users/:id/");
    assert!(dynamic.matches("/users/42", false));
    assert!(!dynamic.matches("/users/42/x", false));
    assert!(!dynamic.matches("/groups/42", false));
    let params = dynamic.extract_params("/users/42");
    assert_eq!(params.get("id").unwrap(), "42");
    assert_eq!(params.len(), 1);
    let files = RouteMatcher::StaticFile("/srv".to_string());
    assert_eq!(files.static_file_path("/a/b.txt").unwrap(), "/srv/a/b.txt");
    assert!(files.matches("/a", true));
    assert!(!files.matches("/a", false));
}

#[test]
fn route_methods() {
    let r = route("/");
    assert!(r.is_method_allowed(&HttpMethod::GET));
    assert!(!r.is_method_allowed(&HttpMethod::POST));
}

// ---------------- static files ----------------
fn static_files(index: Option<&str>, listing: bool) -> ServerStaticFiles {
    let mut pages = StrMap::new();
    pages.insert("404".to_string(), "/srv/site/404.html".to_string());
    ServerStaticFiles::new("/srv/site".to_string(), index.map(|s| s.to_string()), listing, Some(ErrorPages { custom_pages: pages }))
}

#[test]
fn static_targets() {
    let sf = static_files(Some("index.html"), false);
    assert_eq!(sf.full_path("/docs/a.txt"), "/srv/site/docs/a.txt");
    assert_eq!(sf.serve_static("/docs", false, true), StaticTarget::File("/srv/site/docs/index.html".to_string()));
    assert_eq!(sf.serve_static("/docs/a.txt", false, false), StaticTarget::File("/srv/site/docs/a.txt".to_string()));
    let listing = static_files(None, true);
    assert_eq!(listing.serve_static("/docs", true, false), StaticTarget::Listing("/srv/site/docs".to_string()));
    assert_eq!(listing.serve_static("/", false, false), StaticTarget::File("/srv/site/.default/index.html".to_string()));
    assert_eq!(listing.listing_page_path(), "/srv/site/.default/directory_listing.html");
}

#[test]
fn static_error_pages() {
    let mut sf = static_files(None, false);
    assert_eq!(sf.not_found_page(), "/srv/site/404.html");
    assert_eq!(sf.status, FileStatus::NotFound);
    assert_eq!(sf.error_page_path(HttpStatusCode::NotFound).unwrap(), "/srv/site/404.html");
    assert_eq!(sf.error_page_path(HttpStatusCode::Forbidden), None);
    let mut plain = ServerStaticFiles::new("/srv".to_string(), None, false, None);
    assert_eq!(plain.not_found_page(), "/srv/.default/error/error_template.html");
    let (content, mime, status) = plain.file_served("/srv/a.html", b"x".to_vec());
    assert_eq!(content, b"x".to_vec());
    assert_eq!(mime.unwrap(), "text/html");
    assert_eq!(status, FileStatus::NotFound);
    assert_eq!(ServerStaticFiles::site_directory("/home/u/sites", "mysite"), "/home/u/sites/mysite");
}

#[test]
fn static_handler_response() {
    let h = StaticFileHandler::new(ServerStaticFiles::new("/srv".to_string(), None, false, None));
    let r = h.static_response(b"hello".to_vec(), Some("text/plain".to_string()), FileStatus::Raw).unwrap();
    assert_eq!(r.status_code, HttpStatusCode::OK);
    assert!(r.to_string().ends_with("hello"));
    let missing = h.static_response(b"gone".to_vec(), None, FileStatus::NotFound).unwrap();
    assert_eq!(missing.status_code, HttpStatusCode::NotFound);
    assert!(h.static_response(vec![0xff, 0xfe], Some("text/html".to_string()), FileStatus::Raw).is_none());
}

// ---------------- uploader ----------------
fn entry(name: &str, size: u64) -> DirEntryInfo {
    DirEntryInfo { name: Some(name.to_string()), lossy_name: name.to_string(), path: format!("/up/{}", name), size }
}

#[test]
fn uploader_lists_directory() {
    let up = Uploader::new("/up".to_string(), Some(vec![entry("\"a.txt\"", 3), entry("b.png", 7)]));
    let files = up.list_files();
    assert_eq!(files.len(), 2);
    assert_eq!(files[0].id, 0);
    assert_eq!(files[0].name, "a.txt");
    assert_eq!(files[1].id, 1);
    assert_eq!(files[1].size, 7);
    assert_eq!(up.get_file(1).unwrap().name, "b.png");
    assert_eq!(up.get_file(9).unwrap_err().to_text(), "Uploader Error: File with ID 9 not found");
    let empty = Uploader::new("/up".to_string(), None);
    assert!(empty.list_files().is_empty());
}

#[test]
fn uploader_records_and_forgets() {
    let mut up = Uploader::new("/up".to_string(), Some(vec![entry("a", 1)]));
    let f = up.record_file("\"new.txt\"", "/up/new.txt".to_string(), 4);
    assert_eq!(f.id, 1);
    assert_eq!(f.name, "new.txt");
    assert_eq!(up.list_files().len(), 2);
    let gone = up.forget_file(0).unwrap();
    assert_eq!(gone.name, "a");
    assert_eq!(up.list_files().len(), 1);
    assert!(up.forget_file(0).is_err());
    let g = up.record_file("x", "/up/x".to_string(), 1);
    assert_eq!(g.id, 2);
}

#[test]
fn uploader_paths_and_types() {
    let up = Uploader::new("/up".to_string(), None);
    assert_eq!(up.candidate_path("photo.jpg", 0), "/up/photo.jpg");
    assert_eq!(up.candidate_path("photo.jpg", 3), "/up/photo_3.jpg");
    assert_eq!(up.candidate_path("noext", 0), "/up/noext.");
    assert!(up.is_allowed_mime_type("image/png"));
    assert!(up.is_allowed_mime_type("application/vnd.openxmlformats-officedocument.spreadsheetml.sheet"));
    assert!(!up.is_allowed_mime_type("application/zip"));
    assert_eq!(up.validate_mime_type("application/zip").unwrap_err().to_text(), "Uploader Error: Unsupported file type: application/zip");
}

#[test]
fn uploader_sync() {
    let mut up = Uploader::new("/up".to_string(), Some(vec![entry("a", 1), entry("b", 2)]));
    up.sync_database(&vec![false, true], Some(&vec![entry("b", 2), entry("c", 3)]));
    let files = up.list_files();
    let names: Vec<&str> = files.iter().map(|f| f.name.as_str()).collect();
    assert_eq!(names, vec!["b", "c"]);
    assert_eq!(files[1].id, 2);
}

// ---------------- stream ----------------
#[test]
fn stream_helpers() {
    assert_eq!(find_headers_end(b"GET / HTTP/1.1\r\n\r\nbody"), Some(18));
    assert_eq!(find_headers_end(b"GET / HTTP/1.1\r\n"), None);
    assert_eq!(parse_chunk_size(b" 1a "), Some(26));
    assert_eq!(parse_chunk_size(b"zz"), None);
}

fn run(reader: &mut UnifiedReader, chunks: &[&[u8]]) -> ReadAction {
    let mut action = reader.read_next(None);
    let mut i = 0;
    while let ReadAction::Read = action {
        if i == chunks.len() {
            return action;
        }
        action = reader.read_next(Some(chunks[i]));
        i += 1;
    }
    action
}

#[test]
fn reader_standard_body() {
    let mut r = UnifiedReader::new();
    let a = run(&mut r, &[b"POST / HTTP/1.1\r\nContent-Length: 5\r\n\r\nhe", b"llo!"]);
    match a {
        ReadAction::Done(RequestState::Complete(d)) => {
            assert_eq!(d.get_body(), b"hello");
            assert!(d.get_headers().ends_with(b"\r\n\r\n"));
        },
        other => panic!("unexpected {:?}", other),
    }
    assert!(r.is_complete());
    r.reset();
    assert!(!r.is_complete());
}

#[test]
fn reader_chunked_body() {
    let mut r = UnifiedReader::new();
    let a = run(&mut r, &[b"POST / HTTP/1.1\r\nTransfer-Encoding: chunked\r\n\r\n3\r\nabc\r\n0\r\n\r\n"]);
    match a {
        ReadAction::Done(RequestState::Complete(d)) => {
            assert_eq!(d.get_body(), b"abc");
            assert_eq!(d.get_headers(), b"POST / HTTP/1.1\r\nTransfer-Encoding: chunked\r\n\r\n");
        },
        other => panic!("unexpected {:?}", other),
    }
    let mut head_only = UnifiedReader::new();
    assert!(matches!(run(&mut head_only, &[b"POST / HTTP/1.1\r\nTransfer-Encoding: chunked\r\n\r\n"]), ReadAction::Read));
    assert!(matches!(head_only.read_next(Some(b"")), ReadAction::Done(RequestState::EndOfStream)));
    let mut bad = UnifiedReader::new();
    assert!(matches!(run(&mut bad, &[b"POST / HTTP/1.1\r\nTransfer-Encoding: chunked\r\n\r\nzz\r\n"]), ReadAction::Stalled));
    let mut split = UnifiedReader::new();
    let b = run(&mut split, &[b"POST / HTTP/1.1\r\nTransfer-Encoding: chunked\r\n\r\n4\r\nab", b"cd\r\n0\r\n"]);
    match b {
        ReadAction::Done(RequestState::Complete(d)) => assert_eq!(d.get_body(), b"abcd"),
        other => panic!("unexpected {:?}", other),
    }
}

#[test]
fn reader_end_of_stream_and_partial_head() {
    let mut r = UnifiedReader::new();
    assert!(matches!(run(&mut r, &[b"GET / HT"]), ReadAction::Done(RequestState::AwaitingHeaders)));
    assert!(matches!(run(&mut r, &[b""]), ReadAction::Done(RequestState::EndOfStream)));
    let mut s = UnifiedReader::new();
    assert!(matches!(run(&mut s, &[b"GET / HTTP/1.1\r\n\r\n"]), ReadAction::Done(RequestState::Complete(_))));
}

// ---------------- sessions ----------------
fn at(secs: u64) -> TimeStamp {
    TimeStamp { secs, nanos: 0 }
}

#[test]
fn session_lifetime() {
    let s = Session::new_at(at(100), Some(10)).unwrap();
    assert!(!s.is_expired_at(at(110)));
    assert!(s.is_expired_at(at(111)));
    let forever = Session::new_at(at(100), None).unwrap();
    assert!(!forever.is_expired_at(at(u64::MAX)));
    assert!(Session::new_at(at(u64::MAX), Some(1)).is_none());
}

#[test]
fn store_get_after_set_and_delete() {
    let mut store = MemorySessionStore::new();
    let mut s = Session::new_at(at(1), None).unwrap();
    s.set_id("abc".to_string());
    store.set(s).unwrap();
    assert_eq!(store.get("abc").unwrap().unwrap().id, "abc");
    assert!(store.get("other").unwrap().is_none());
    store.delete("abc").unwrap();
    assert!(store.get("abc").unwrap().is_none());
}

#[test]
fn store_cleanup() {
    let mut store = MemorySessionStore::new();
    let mut a = Session::new_at(at(0), Some(5)).unwrap();
    a.set_id("a".to_string());
    let mut b = Session::new_at(at(0), None).unwrap();
    b.set_id("b".to_string());
    store.set(a).unwrap();
    store.set(b).unwrap();
    store.cleanup_expired_at(at(100)).unwrap();
    let left = store.list_sessions().unwrap();
    assert_eq!(left.len(), 1);
    assert_eq!(left[0].id, "b");
}

#[test]
fn manager_creates_finds_and_ends_sessions() {
    let mut m = SessionManager::new(
        localhost::config::SessionConfig { enabled: Some(true), name: Some("sid".to_string()), options: None },
        MemorySessionStore::new(),
    );
    let (session, header) = m.create_session_with(at(10), "id-1".to_string()).unwrap();
    assert_eq!(session.id, "id-1");
    assert_eq!(header.value.value, "sid=id-1; Path=/; SameSite=Lax");
    let cookie = Header::from_str("Cookie", "sid=id-1");
    assert_eq!(m.get_session_at(Some(&cookie), at(11)).unwrap().unwrap().id, "id-1");
    let end = m.destroy_session("id-1").unwrap();
    assert_eq!(end.value.value, "sid=; Max-Age=0; Path=/; SameSite=Lax");
    assert!(m.get_session_at(Some(&cookie), at(12)).unwrap().is_none());
    let (s2, _) = m.create_session().unwrap();
    assert_eq!(s2.id.len(), 36);
}

#[test]
fn middleware_requires_session() {
    let mut m = SessionManager::default();
    let mw = SessionMiddleware {};
    let mut r = route("/private");
    let req = request(HttpMethod::GET, "/private", vec![]);
    assert!(mw.process(&req, &r, &mut m).unwrap().is_none());
    r.session_required = Some(true);
    assert_eq!(mw.process(&req, &r, &mut m).unwrap_err().to_text(), "Session Error: Session expired: Session expired");
    r.session_redirect = Some("/login".to_string());
    assert_eq!(mw.process(&req, &r, &mut m).unwrap_err().to_text(), "Session Error: Session expired, redirecting to: /login");
}

#[test]
fn session_api_requests() {
    assert_eq!(session_request_kind(&request(HttpMethod::POST, "/api/session/create", vec![])).unwrap(), SessionApiRequest::Create);
    assert_eq!(session_request_kind(&request(HttpMethod::DELETE, "/api/session/delete", vec![])).unwrap(), SessionApiRequest::Destroy);
    assert_eq!(
        session_request_kind(&request(HttpMethod::GET, "/api/session/create", vec![])).unwrap_err().to_text(),
        "HTTP Error: Method not allowed: Method GET not allowed for session API"
    );
}

// ---------------- file api ----------------
#[test]
fn file_api_requests() {
    let h = FileAPIHandler::new(Uploader::new("/up".to_string(), None)).unwrap();
    assert_eq!(h.request_kind(&request(HttpMethod::GET, "/api/files/list", vec![])).unwrap(), FileApiRequest::List);
    assert_eq!(h.request_kind(&request(HttpMethod::DELETE, "/api/files/delete/12", vec![])).unwrap(), FileApiRequest::Delete(12));
    assert_eq!(
        h.request_kind(&request(HttpMethod::DELETE, "/api/files/delete/x", vec![])).unwrap_err().to_text(),
        "HTTP Error: Bad request: Invalid file ID"
    );
    assert_eq!(
        h.request_kind(&request(HttpMethod::POST, "/api/files/upload", vec![])).unwrap_err().to_text(),
        "HTTP Error: Bad request: Invalid request format: expected multipart form data"
    );
    assert_eq!(
        h.request_kind(&request(HttpMethod::GET, "/api/files/other", vec![])).unwrap_err().to_text(),
        "HTTP Error: Not found: API route not found: /api/files/other"
    );
}

// ---------------- host ----------------
#[test]
fn host_routes() {
    let mut host = Host::new("127.0.0.1", "a.home", vec![HostListener { fd: 7, port: "8080".to_string() }], vec![route("/"), route("/users/:id")], None);
    assert!(host.match_listener(7));
    assert!(!host.match_listener(8));
    assert_eq!(host.get_listener(7).unwrap().port, "8080");
    let found = vec![false, false];
    assert_eq!(host.get_route("/", &found).unwrap().path, "/");
    assert_eq!(host.get_route("/users/3", &found).unwrap().path, "/users/:id");
    assert!(host.get_route("/nothing/here", &found).is_none());
    host.add_session_api();
    assert_eq!(host.routes.len(), 4);
    assert_eq!(host.routes[3].path, "/api/session/delete");
}

#[test]
fn host_route_decisions() {
    let host = Host::new("127.0.0.1", "a", vec![], vec![], None);
    let r = route("/");
    let d = host.route_request(&request(HttpMethod::GET, "/api/files/list", vec![]), &r, false, false);
    match d {
        RouteDecision::Respond(resp) => assert_eq!(resp.status_code, HttpStatusCode::ServiceUnavailable),
        _ => panic!("expected a response"),
    }
    assert!(matches!(host.route_request(&request(HttpMethod::GET, "/api/files/list", vec![]), &r, false, true), RouteDecision::FileApi));
    match host.route_request(&request(HttpMethod::GET, "/", vec![]), &r, false, false) {
        RouteDecision::Respond(resp) => {
            assert_eq!(resp.status_code, HttpStatusCode::NotFound);
            assert!(resp.to_string().ends_with("Not Found"));
        },
        _ => panic!("expected 404"),
    }
    match host.route_request(&request(HttpMethod::POST, "/", vec![]), &r, false, false) {
        RouteDecision::Respond(resp) => assert_eq!(resp.status_code, HttpStatusCode::MethodNotAllowed),
        _ => panic!("expected 405"),
    }
    let mut redirecting = route("/old");
    redirecting.redirect = Some("/new".to_string());
    redirecting.static_files = Some(ServerStaticFiles::new("/srv".to_string(), None, false, None));
    match host.route_request(&request(HttpMethod::GET, "/old", vec![]), &redirecting, false, false) {
        RouteDecision::Respond(resp) => {
            assert_eq!(resp.status_code, HttpStatusCode::MovedPermanently);
            assert_eq!(resp.headers[0].value.value, "/new");
        },
        _ => panic!("expected a redirection"),
    }
    assert!(matches!(host.route_request(&request(HttpMethod::GET, "/old", vec![]), &redirecting, true, false), RouteDecision::StaticFiles));
}

// ---------------- connection & server ----------------
#[test]
fn connection_reads_requests() {
    let mut c = Connection::new(5, "a".to_string());
    let mut reader = UnifiedReader::new();
    let state = match run(&mut reader, &[b"GET /x HTTP/1.1\r\nHost: a\r\n\r\n"]) {
        ReadAction::Done(s) => s,
        other => panic!("unexpected {:?}", other),
    };
    match c.handle_read(Ok(state)).unwrap() {
        ConnectionState::Complete(req) => assert_eq!(req.uri, "/x"),
        other => panic!("unexpected {:?}", other),
    }
    match c.handle_read(Ok(RequestState::EndOfStream)).unwrap() {
        ConnectionState::Error(e) => assert_eq!(e, "End of stream"),
        other => panic!("unexpected {:?}", other),
    }
    assert!(matches!(c.handle_read(Ok(RequestState::AwaitingHeaders)).unwrap(), ConnectionState::AwaitingRequest));
}

#[test]
fn keep_alive_rules() {
    assert!(want_keep_alive(&request(HttpMethod::GET, "/", vec![])));
    assert!(want_keep_alive(&request(HttpMethod::GET, "/", vec![Header::from_str("Connection", "Keep-Alive")])));
    assert!(!want_keep_alive(&request(HttpMethod::GET, "/", vec![Header::from_str("Connection", "close")])));
    let resp = add_connection_headers(localhost::http::response::Response::ok(), false);
    assert_eq!(resp.headers.len(), 4);
    assert_eq!(resp.headers[0].value.value, "close");
    let text = resp.to_string();
    assert!(text.contains("Access-Control-Allow-Methods: GET, POST, DELETE, OPTIONS"));
    assert_eq!(request_log_line(&request(HttpMethod::GET, "/a", vec![]), HttpStatusCode::OK), "GET - /a - 200 OK");
}

#[test]
fn server_lookups() {
    let mut s = Server::new(None);
    s.add_host(Host::new("127.0.0.1", "a", vec![HostListener { fd: 3, port: "80".to_string() }], vec![], None));
    s.add_host(Host::new("127.0.0.1", "b", vec![HostListener { fd: 4, port: "81".to_string() }], vec![], None));
    assert_eq!(s.find_host_by_fd(4), Some(1));
    assert_eq!(s.find_host_by_fd(9), None);
    assert_eq!(s.get_host_by_name("b").unwrap().server_name, "b");
    s.connections.push(Connection::new(10, "a".to_string()));
    assert_eq!(s.connection_index(10), Some(0));
    assert!(s.remove_connection(10).is_some());
    assert!(s.remove_connection(10).is_none());
    assert!(!timed_out(30, 0));
    assert!(timed_out(31, 0));
    assert!(timed_out(30, 1));
}

#[test]
fn logger_levels() {
    let l = Logger::new(LogLevel::INFO);
    assert!(l.debug("d", "m").is_none());
    let rec = l.warn("w", "m").unwrap();
    assert_eq!(rec.level, LogLevel::WARN);
    assert_eq!(rec.message, "w");
    assert!(l.error("e", "m").is_some());
    let _ = Body::empty();
    let _ = HeaderName::Cookie;
}

// ---------------- laws on concrete values ----------------
#[test]
fn created_session_found_from_its_cookie_text() {
    let mut m = SessionManager::new(
        localhost::config::SessionConfig { enabled: Some(true), name: Some("sid".to_string()), options: None },
        MemorySessionStore::new(),
    );
    let (session, header) = m.create_session_with(at(10), "abc-123".to_string()).unwrap();
    let sent_back = Header::from_str("Cookie", &header.value.value);
    let found = m.get_session_at(Some(&sent_back), at(20)).unwrap().unwrap();
    assert_eq!(found.id, session.id);
    assert_eq!(found.created_at.secs, 10);
}

#[test]
fn recorded_file_found_then_gone() {
    let mut up = Uploader::new("up".to_string(), Some(vec![entry("a.txt", 1), entry("b.txt", 2)]));
    let f = up.record_file("c.txt", "up/c.txt".to_string(), 3);
    assert_eq!(f.id, 2);
    assert_eq!(up.get_file(2).unwrap().name, "c.txt");
    up.forget_file(2).unwrap();
    assert!(matches!(
        up.get_file(2),
        Err(ServerError::UploaderError(UploaderError::FileNotFound(2)))
    ));
    assert_eq!(up.get_file(1).unwrap().name, "b.txt");
}

#[test]
fn one_read_request_is_complete() {
    let mut r = UnifiedReader::new();
    let bytes: &[u8] = b"POST /x HTTP/1.1\r\nContent-Length: 3\r\n\r\nabc";
    assert!(matches!(r.read_next(None), ReadAction::Read));
    match r.read_next(Some(bytes)) {
        ReadAction::Done(RequestState::Complete(d)) => assert_eq!(d.get_data(), bytes),
        other => panic!("unexpected {:?}", other),
    }
}

#[test]
fn one_read_chunked_request_is_complete() {
    let mut r = UnifiedReader::new();
    let bytes: &[u8] = b"POST /c HTTP/1.1\r\nTransfer-Encoding: chunked\r\n\r\n5\r\nhello\r\n0\r\n\r\n";
    assert!(matches!(r.read_next(None), ReadAction::Read));
    match r.read_next(Some(bytes)) {
        ReadAction::Done(RequestState::Complete(d)) => {
            assert_eq!(d.get_data(), b"POST /c HTTP/1.1\r\nTransfer-Encoding: chunked\r\n\r\nhello");
            assert_eq!(d.get_body(), b"hello");
        },
        other => panic!("unexpected {:?}", other),
    }
}

#[test]
fn route_path_with_values_fits_and_gives_them() {
    let m = RouteMatcher::from_path("/users/:id/posts/:pid");
    let path = "/users/42/posts/7";
    assert!(m.matches(path, false));
    let params = m.extract_params(path);
    assert_eq!(params.len(), 2);
    assert_eq!(params.get("id").unwrap(), "42");
    assert_eq!(params.get("pid").unwrap(), "7");
}

#[test]
fn host_file_paths() {
    let mut r = route("/docs");
    assert!(Host::static_file_for(&r, "/a/b.html").is_none());
    r.static_files = Some(static_files(None, false));
    let dir = r.static_files.as_ref().unwrap().directory.clone();
    assert_eq!(Host::static_file_for(&r, "//a/b.html").unwrap(), format!("{}/a/b.html", dir));
    // The inner path is absolute, so joining it again keeps it as it is.
    assert_eq!(Host::redirect_probe_path(&r, "/docs").unwrap(), format!("{}/docs", dir));
    assert_eq!(r.static_files.as_ref().unwrap().contained_file_path("x.txt"), format!("{}/x.txt", dir));
}

#[test]
fn requests_larger_than_the_limit_are_refused() {
    let mut r = UnifiedReader::new();
    let head: &[u8] = b"POST /big HTTP/1.1\r\nContent-Length: 10485761\r\n\r\n";
    assert!(matches!(run(&mut r, &[head]), ReadAction::TooLarge));
    let mut ok = UnifiedReader::new();
    assert!(matches!(run(&mut ok, &[b"POST /b HTTP/1.1\r\nContent-Length: 10000\r\n\r\n"]), ReadAction::Read));
    let mut chunked = UnifiedReader::new();
    assert!(matches!(
        run(&mut chunked, &[b"POST /c HTTP/1.1\r\nTransfer-Encoding: chunked\r\n\r\nA00001\r\n"]),
        ReadAction::TooLarge
    ));
}

#[test]
fn static_paths_stay_in_the_directory() {
    let sf = static_files(None, false);
    assert_eq!(sf.serve_static("/../../etc/passwd", false, false), StaticTarget::Outside);
    assert_eq!(sf.serve_static("/a/../b", false, false), StaticTarget::Outside);
    assert_eq!(sf.serve_static("/a/..b", false, false), StaticTarget::File("/srv/site/a/..b".to_string()));
}

#[test]
fn route_methods_are_enforced() {
    let host = Host::new("127.0.0.1", "a", vec![], vec![], None);
    let mut r = route("/data");
    r.methods = vec![HttpMethod::GET, HttpMethod::POST];
    match host.route_request(&request(HttpMethod::DELETE, "/data", vec![]), &r, false, true) {
        RouteDecision::Respond(resp) => assert_eq!(resp.status_code, HttpStatusCode::MethodNotAllowed),
        _ => panic!("expected 405"),
    }
    r.path = "/api/files/list".to_string();
    assert!(matches!(host.route_request(&request(HttpMethod::GET, "/api/files/list", vec![]), &r, false, true), RouteDecision::FileApi));
}

#[test]
fn middleware_finds_session_from_parsed_cookie_header() {
    let mut m = SessionManager::new(
        localhost::config::SessionConfig { enabled: Some(true), name: Some("sid".to_string()), options: None },
        MemorySessionStore::new(),
    );
    m.create_session_with(at(10), "abc".to_string()).unwrap();
    let mut r = route("/private");
    r.session_required = Some(true);
    let req = request(HttpMethod::GET, "/private", vec![Header::from_str("Cookie", "sid=abc")]);
    let s = SessionMiddleware {}.process(&req, &r, &mut m).unwrap().unwrap();
    assert_eq!(s.id, "abc");
}

#[test]
fn finishing_requests() {
    let mut c = Connection::new(3, "a".to_string());
    let close_req = request(HttpMethod::GET, "/", vec![Header::from_str("Connection", "close")]);
    match finish_request(&mut c, &close_req, RequestOutcome::Handled(Ok(Response::ok()))) {
        ConnAction::Send(resp, close) => {
            assert!(close);
            assert_eq!(resp.headers[0].value.value, "close");
        },
        other => panic!("unexpected {:?}", other),
    }
    assert!(!c.keep_alive);
    let keep_req = request(HttpMethod::GET, "/", vec![]);
    let mut d = Connection::new(4, "a".to_string());
    match finish_request(&mut d, &keep_req, RequestOutcome::Handled(Ok(Response::ok()))) {
        ConnAction::Send(resp, close) => {
            assert!(!close);
            assert_eq!(resp.headers.len(), 4);
            assert_eq!(resp.headers[0].value.value, "keep-alive");
            assert_eq!(resp.headers.last().unwrap().value.value, "Content-Type");
        },
        other => panic!("unexpected {:?}", other),
    }
    assert!(d.keep_alive);
    let failed = RequestOutcome::Handled(Err(ServerError::FileNotFound("x".to_string())));
    assert!(matches!(finish_request(&mut d, &keep_req, failed), ConnAction::Quiet(false)));
    let failed = RequestOutcome::Handled(Err(ServerError::FileNotFound("x".to_string())));
    assert!(matches!(finish_request(&mut d, &close_req, failed), ConnAction::Quiet(true)));
    assert!(!d.keep_alive);
    match finish_request(&mut d, &keep_req, RequestOutcome::Answered(Response::not_found("Route not found"))) {
        ConnAction::Send(resp, close) => {
            assert!(!close);
            assert_eq!(resp.headers.len(), 2);
        },
        other => panic!("unexpected {:?}", other),
    }
    assert!(d.keep_alive);
    let refused = RequestOutcome::Refused(ServerError::SessionError(SessionError::SessionExpired("x".to_string())));
    let mut e = Connection::new(5, "a".to_string());
    e.keep_alive = false;
    match finish_request(&mut e, &keep_req, refused) {
        ConnAction::SendText(t) => assert_eq!(t, ServerError::SessionError(SessionError::SessionExpired("x".to_string())).to_text()),
        other => panic!("unexpected {:?}", other),
    }
    assert!(!e.keep_alive);
}

#[test]
fn binary_bodies_are_sent_as_they_are() {
    let bytes = vec![0xffu8, 0x00, b'a'];
    let r = Response::new(HttpStatusCode::OK, vec![], Some(Body::binary(bytes.clone())));
    let mut expected = b"HTTP/1.1 200\r\n\r\n".to_vec();
    expected.extend_from_slice(&bytes);
    assert_eq!(r.to_bytes(), expected);
    let t = Response::new(HttpStatusCode::OK, vec![], Some(Body::binary(b"body{}".to_vec())));
    assert!(t.to_string().ends_with("\r\n\r\nbody{}"));
}

#[test]
fn requests_are_taken_in_before_routing() {
    let mut m = SessionManager::new(
        localhost::config::SessionConfig { enabled: Some(true), name: Some("sid".to_string()), options: None },
        MemorySessionStore::new(),
    );
    m.create_session_with(at(10), "abc".to_string()).unwrap();
    let mut private = route("/private");
    private.session_required = Some(true);
    let mut host = Host::new("127.0.0.1", "a", vec![], vec![route("/"), private], Some(m));
    let mw = SessionMiddleware {};
    let found = vec![false, false];
    match host.accept_request(&mw, &request(HttpMethod::GET, "/nope", vec![]), &found, at(20)) {
        Admission::Answer(r) => {
            assert_eq!(r.status_code, HttpStatusCode::NotFound);
            assert_eq!(r.body.unwrap().to_text(), "Route not found");
        },
        other => panic!("unexpected {:?}", other),
    }
    assert!(matches!(host.accept_request(&mw, &request(HttpMethod::GET, "/", vec![]), &found, at(20)), Admission::Route(0)));
    assert!(matches!(
        host.accept_request(&mw, &request(HttpMethod::GET, "/private", vec![]), &found, at(20)),
        Admission::Refused(ServerError::SessionError(SessionError::SessionExpired(_)))
    ));
    let with_cookie = request(HttpMethod::GET, "/private", vec![Header::from_str("Cookie", "sid=abc")]);
    assert!(matches!(host.accept_request(&mw, &with_cookie, &found, at(20)), Admission::Route(1)));
    let mut plain = Host::new("127.0.0.1", "b", vec![], vec![route("/")], None);
    assert!(matches!(plain.accept_request(&mw, &request(HttpMethod::GET, "/", vec![]), &vec![false], at(20)), Admission::Route(0)));
}

#[test]
fn over_long_targets_are_refused() {
    let mut host = Host::new("127.0.0.1", "a", vec![], vec![route("/")], None);
    let mw = SessionMiddleware {};
    let long = "/".to_string() + &"a".repeat(8192);
    match host.accept_request(&mw, &request(HttpMethod::GET, &long, vec![]), &vec![false], at(1)) {
        Admission::Answer(r) => {
            assert_eq!(r.status_code, HttpStatusCode::URITooLong);
            assert!(r.to_string().starts_with("HTTP/1.1 414"));
        },
        other => panic!("unexpected {:?}", other),
    }
    let just = "/".to_string() + &"a".repeat(8191);
    match host.accept_request(&mw, &request(HttpMethod::GET, &just, vec![]), &vec![false], at(1)) {
        Admission::Answer(r) => assert_eq!(r.status_code, HttpStatusCode::NotFound),
        other => panic!("unexpected {:?}", other),
    }
}

#[test]
fn session_check_follows_the_clock() {
    let mut s = Session::new_at(at(10), Some(5)).unwrap();
    s.set_id("abc".to_string());
    let mut store = MemorySessionStore::new();
    store.set(s).unwrap();
    let mut m = SessionManager::new(
        localhost::config::SessionConfig { enabled: Some(true), name: Some("sid".to_string()), options: None },
        store,
    );
    let mut r = route("/private");
    r.session_required = Some(true);
    let req = request(HttpMethod::GET, "/private", vec![Header::from_str("Cookie", "sid=abc")]);
    let found = SessionMiddleware {}.process_at(&req, &r, &mut m, at(14)).unwrap().unwrap();
    assert_eq!(found.id, "abc");
    assert!(matches!(
        SessionMiddleware {}.process_at(&req, &r, &mut m, at(16)),
        Err(ServerError::SessionError(SessionError::SessionExpired(id))) if id == "abc"
    ));
    assert!(matches!(
        SessionMiddleware {}.process_at(&req, &r, &mut m, at(14)),
        Err(ServerError::SessionError(SessionError::SessionExpired(msg))) if msg == "Session expired"
    ));
}

#[test]
fn missing_files_fall_back_to_the_error_page() {
    let mut sf = static_files(None, false);
    assert_eq!(sf.file_step("/srv/site/a.txt", true), FileStep::Read);
    assert_ne!(sf.status, FileStatus::NotFound);
    assert_eq!(sf.file_step("/srv/site/a.txt", false), FileStep::Try("/srv/site/404.html".to_string()));
    assert_eq!(sf.status, FileStatus::NotFound);
    assert_eq!(sf.file_step("/srv/site/404.html", false), FileStep::Missing);
    let mut plain = ServerStaticFiles::new("/srv".to_string(), None, false, None);
    assert_eq!(plain.file_step("/srv/x", false), FileStep::Try("/srv/.default/error/error_template.html".to_string()));
    assert_eq!(plain.file_step("/srv/.default/error/error_template.html", false), FileStep::Missing);
}
