//! A virtual host: its listening sockets (as descriptors), its routes,
//! which route answers a path and how a request is routed. Opening
//! sockets and asking the disk are left to the program.
use vstd::prelude::*;
use crate::deps::{json_object, json_object_text, pair_texts};
use crate::http::body::{Body, BodySpec, JsonValue, utf8_len};
use crate::http::header::Header;
use crate::http::request::{HttpMethod, Request, header_read_from, opt_body};
use crate::http::response::{Response, ResponseBuilder, body_headers};
use crate::http::status::HttpStatusCode;
use crate::map::StrMap;
use crate::server::logger::{Logger, LogLevel};
use crate::server::route::Route;
use crate::server::errors::{HttpError, ServerError, plain_error_response};
use crate::server::session::{Session, SessionManager, SessionMiddleware, session_outcome_at};
use crate::sys::TimeStamp;
use crate::text::{
    chars_of, chars_eq, owned, string_of, split, split_on, views, trim_char_end, trim_end_matching,
    trim_char_start, trim_start_matching, joined_path, join_path, has_prefix, str_starts_with,
    decimal_chars,
};

verus! {

/// A listening socket of a host: its descriptor and its port.
#[derive(Debug)]
pub struct HostListener {
    pub fd: i32,
    pub port: String,
}

/// A virtual host.
#[derive(Debug)]
pub struct Host {
    pub server_address: String,
    pub server_name: String,
    pub listeners: Vec<HostListener>,
    pub routes: Vec<Route>,
    pub session_manager: Option<SessionManager>,
    pub logger: Logger,
}

/// What is done with a request on a route.
#[derive(Debug)]
pub enum RouteDecision {
    /// This response is sent.
    Respond(Response),
    /// The file API handles it.
    FileApi,
    /// The session API handles it.
    SessionApi,
    /// The route's static files serve it.
    StaticFiles,
    /// The route's CGI script answers it.
    Cgi,
}

/// The length in bytes of a request target.
fn uri_length(s: &str) -> (r: usize)
    ensures
        r == utf8_len(s@),
{
    s.as_bytes().len()
}

/// The longest request target, in bytes, that a host takes in.
pub const MAX_URI_LENGTH: usize = 8192;

/// What comes of a request before its route handles it.
#[derive(Debug)]
pub enum Admission {
    /// The route at this index handles it.
    Route(usize),
    /// It is answered at once with this response: `414` for a target
    /// longer than `MAX_URI_LENGTH`, `404` when no route fits its path.
    Answer(Response),
    /// Its session check refused it with this error.
    Refused(ServerError),
}

/// The pieces of a path between `/`, after its trailing `/` are removed
/// (empty pieces included).
pub open spec fn raw_segments(p: Seq<char>) -> Seq<Seq<char>> {
    split(trim_char_end(p, '/'), '/')
}

/// Whether a route path fits a request path piece by piece, a piece of
/// the route starting with `:` fitting any piece.
pub open spec fn dynamic_match(route_path: Seq<char>, path: Seq<char>) -> bool {
    let rs = raw_segments(route_path);
    let ps = raw_segments(path);
    &&& rs.len() == ps.len()
    &&& forall|i: int| 0 <= i < rs.len() ==> (rs[i].len() > 0 && rs[i][0] == ':') || #[trigger] rs[i] == ps[i]
}

/// The first position below `n` where `p` holds.
pub open spec fn first_where(n: nat, p: spec_fn(int) -> bool) -> Option<int>
    decreases n,
{
    if n == 0 {
        None
    } else {
        match first_where((n - 1) as nat, p) {
            Some(i) => Some(i),
            None => if p(n - 1) {
                Some(n - 1)
            } else {
                None
            },
        }
    }
}

/// The route that answers a path: the first of the same path; else the
/// first that fits it piece by piece; else the first whose static files
/// hold the file (`found` tells, route by route).
pub open spec fn spec_get_route(routes: Seq<Route>, path: Seq<char>, found: Seq<bool>) -> Option<int> {
    match first_where(routes.len(), |i: int| routes[i].path@ == path) {
        Some(i) => Some(i),
        None => match first_where(routes.len(), |i: int| dynamic_match(routes[i].path@, path)) {
            Some(i) => Some(i),
            None => first_where(routes.len(), |i: int| routes[i].static_files is Some && found[i]),
        },
    }
}

/// `first_where` finds the first position where `p` holds.
pub proof fn lemma_first_where(n: nat, p: spec_fn(int) -> bool)
    ensures
        first_where(n, p) matches Some(i) ==> 0 <= i < n && p(i) && forall|j: int| 0 <= j < i ==> !#[trigger] p(j),
        first_where(n, p) is None ==> forall|j: int| 0 <= j < n ==> !#[trigger] p(j),
    decreases n,
{
    if n > 0 {
        lemma_first_where((n - 1) as nat, p);
    }
}

proof fn lemma_first_where_at(n: nat, p: spec_fn(int) -> bool, i: int)
    requires
        0 <= i < n,
        p(i),
        forall|j: int| 0 <= j < i ==> !#[trigger] p(j),
    ensures
        first_where(n, p) == Some(i),
{
    lemma_first_where(n, p);
    match first_where(n, p) {
        Some(k) => {
            if k < i {
                assert(!p(k));
            }
            if i < k {
                assert(!p(i));
            }
        },
        None => {
            assert(!p(i));
        },
    }
}

/// Whether a route path fits a request path piece by piece.
fn fits(route_path: &str, path: &str) -> (r: bool)
    ensures
        r == dynamic_match(route_path@, path@),
{
    let rc = chars_of(route_path);
    let pc = chars_of(path);
    let rs = split_on(&trim_end_matching(&rc, '/'), '/');
    let ps = split_on(&trim_end_matching(&pc, '/'), '/');
    if rs.len() != ps.len() {
        return false;
    }
    let mut i: usize = 0;
    while i < rs.len()
        invariant
            i <= rs@.len(),
            rs@.len() == ps@.len(),
            views(rs@) == raw_segments(route_path@),
            views(ps@) == raw_segments(path@),
            forall|j: int|
                0 <= j < i ==> (views(rs@)[j].len() > 0 && views(rs@)[j][0] == ':') || #[trigger] views(rs@)[j]
                    == views(ps@)[j],
        decreases rs@.len() - i,
    {
        assert(views(rs@)[i as int] == rs@[i as int]@);
        assert(views(ps@)[i as int] == ps@[i as int]@);
        if !(rs[i].len() > 0 && rs[i][0] == ':') && !chars_eq(&rs[i], &ps[i]) {
            return false;
        }
        i = i + 1;
    }
    true
}

/// The body of a service that is not set up.
pub open spec fn unavailable_json(what: Seq<char>) -> Seq<char> {
    json_object_text(seq![("message"@, what)])
}

/// A `text/plain` response with a short text.
pub open spec fn plain_response(r: Response, status: HttpStatusCode, text: Seq<char>) -> bool {
    &&& r.version@ == "HTTP/1.1"@
    &&& r.status_code == status
    &&& r.headers@.len() == 2
    &&& header_read_from(r.headers@[0]@, "Content-Type"@, "text/plain"@)
    &&& header_read_from(r.headers@[1]@, "Content-Length"@, crate::text::decimal(utf8_len(text) as nat))
    &&& opt_body(r.body) == Some(BodySpec::Text(text))
}

/// The response that redirects to `target`.
pub open spec fn redirect_response(r: Response, target: Seq<char>) -> bool {
    &&& r.version@ == "HTTP/1.1"@
    &&& r.status_code == HttpStatusCode::MovedPermanently
    &&& r.headers@.len() == 1
    &&& header_read_from(r.headers@[0]@, "location"@, target)
    &&& r.body is None
}

/// The file whose absence sends a request for a redirecting route's own
/// path to the redirection: the request path, without its leading `/`,
/// under the directory of the static files, joined again to that
/// directory.
pub open spec fn redirect_probe(dir: Seq<char>, uri: Seq<char>) -> Seq<char> {
    joined_path(dir, joined_path(dir, trim_char_start(uri, '/')))
}

/// Whether a request on a route is redirected: it asks for the route's
/// own path, the route redirects and has static files, and the file
/// (`redirect_probe`) is not there (`file_exists` tells).
pub open spec fn redirects(request: Request, route: Route, file_exists: bool) -> bool {
    &&& request.uri@ == route.path@
    &&& route.redirect is Some
    &&& route.static_files is Some
    &&& !file_exists
}

impl Host {
    /// A host with the given listeners and routes.
    pub fn new(
        server_address: &str,
        server_name: &str,
        listeners: Vec<HostListener>,
        routes: Vec<Route>,
        session_manager: Option<SessionManager>,
    ) -> (r: Self)
        ensures
            r.server_address@ == server_address@,
            r.server_name@ == server_name@,
            r.listeners == listeners,
            r.routes == routes,
            r.session_manager == session_manager,
            r.logger.level == LogLevel::INFO,
    {
        Host {
            server_address: owned(server_address),
            server_name: owned(server_name),
            listeners,
            routes,
            session_manager,
            logger: Logger::new(LogLevel::INFO),
        }
    }

    /// Adds a route after the others.
    pub fn add_route(&mut self, route: Route)
        ensures
            final(self).routes@ == old(self).routes@.push(route),
            final(self).listeners == old(self).listeners,
            final(self).server_name == old(self).server_name,
            final(self).session_manager == old(self).session_manager,
    {
        self.routes.push(route);
    }

    /// The listener of descriptor `fd`.
    pub fn get_listener(&self, fd: i32) -> (r: Option<&HostListener>)
        ensures
            match r {
                Some(l) => l.fd == fd && exists|i: int| 0 <= i < self.listeners@.len() && self.listeners@[i] == *l,
                None => forall|i: int| 0 <= i < self.listeners@.len() ==> (#[trigger] self.listeners@[i]).fd != fd,
            },
    {
        let mut i: usize = 0;
        while i < self.listeners.len()
            invariant
                i <= self.listeners@.len(),
                forall|j: int| 0 <= j < i ==> (#[trigger] self.listeners@[j]).fd != fd,
            decreases self.listeners@.len() - i,
        {
            if self.listeners[i].fd == fd {
                return Some(&self.listeners[i]);
            }
            i = i + 1;
        }
        None
    }

    /// Whether one of the listeners has descriptor `fd`.
    pub fn match_listener(&self, fd: i32) -> (r: bool)
        ensures
            r == exists|i: int| 0 <= i < self.listeners@.len() && (#[trigger] self.listeners@[i]).fd == fd,
    {
        self.get_listener(fd).is_some()
    }

    /// The file a route's static files would hold for a path: the path
    /// without its leading `/`, under their directory (`None` without
    /// static files).
    pub fn static_file_for(route: &Route, path: &str) -> (r: Option<String>)
        ensures
            match route.static_files {
                Some(sf) => r matches Some(p) && p@ == joined_path(sf.directory@, trim_char_start(path@, '/')),
                None => r is None,
            },
    {
        match &route.static_files {
            Some(sf) => {
                let c = chars_of(path);
                let t = trim_start_matching(&c, '/');
                Some(join_path(sf.directory.as_str(), string_of(&t).as_str()))
            },
            None => None,
        }
    }

    /// The position of the route that answers a path (see
    /// `spec_get_route`); `found` tells, route by route, whether its
    /// static files hold the file (`static_file_for`).
    pub fn get_route_index(&self, path: &str, found: &Vec<bool>) -> (r: Option<usize>)
        requires
            found@.len() == self.routes@.len(),
        ensures
            match spec_get_route(self.routes@, path@, found@) {
                Some(i) => r == Some(i as usize),
                None => r is None,
            },
            r matches Some(i) ==> i < self.routes@.len() && spec_get_route(self.routes@, path@, found@) == Some(i as int),
    {
        let n = self.routes.len();
        let ghost routes = self.routes@;
        let ghost p1 = |i: int| routes[i].path@ == path@;
        let ghost p2 = |i: int| dynamic_match(routes[i].path@, path@);
        let ghost p3 = |i: int| routes[i].static_files is Some && found@[i];
        let mut i: usize = 0;
        while i < n
            invariant
                i <= n,
                n == routes.len(),
                routes == self.routes@,
                p1 == (|i: int| routes[i].path@ == path@),
                forall|j: int| 0 <= j < i ==> !#[trigger] p1(j),
            decreases n - i,
        {
            if crate::text::str_eq(self.routes[i].path.as_str(), path) {
                proof {
                    lemma_first_where_at(n as nat, p1, i as int);
                }
                return Some(i);
            }
            i = i + 1;
        }
        proof {
            lemma_first_where(n as nat, p1);
        }
        let mut k: usize = 0;
        while k < n
            invariant
                k <= n,
                n == routes.len(),
                routes == self.routes@,
                p1 == (|i: int| routes[i].path@ == path@),
                p2 == (|i: int| dynamic_match(routes[i].path@, path@)),
                first_where(n as nat, p1) is None,
                forall|j: int| 0 <= j < k ==> !#[trigger] p2(j),
            decreases n - k,
        {
            if fits(self.routes[k].path.as_str(), path) {
                proof {
                    lemma_first_where_at(n as nat, p2, k as int);
                }
                return Some(k);
            }
            k = k + 1;
        }
        proof {
            lemma_first_where(n as nat, p2);
        }
        let mut m: usize = 0;
        while m < n
            invariant
                m <= n,
                n == routes.len(),
                routes == self.routes@,
                found@.len() == n,
                p1 == (|i: int| routes[i].path@ == path@),
                p2 == (|i: int| dynamic_match(routes[i].path@, path@)),
                p3 == (|i: int| routes[i].static_files is Some && found@[i]),
                first_where(n as nat, p1) is None,
                first_where(n as nat, p2) is None,
                forall|j: int| 0 <= j < m ==> !#[trigger] p3(j),
            decreases n - m,
        {
            if self.routes[m].static_files.is_some() && found[m] {
                proof {
                    lemma_first_where_at(n as nat, p3, m as int);
                }
                return Some(m);
            }
            m = m + 1;
        }
        proof {
            lemma_first_where(n as nat, p3);
        }
        None
    }

    /// Takes a request in at clock reading `now`: a target longer than
    /// `MAX_URI_LENGTH` bytes is answered `414 URI Too Long`; then the route
    /// that answers its path is found (`found` tells, for each route,
    /// whether its static files hold the path; see `get_route_index`), or
    /// `404 Route not found` answered; on a host with sessions, the route's
    /// session check then runs (see `SessionMiddleware::process_at`), and a
    /// refused check refuses the request.
    pub fn accept_request(&mut self, middleware: &SessionMiddleware, request: &Request, found: &Vec<bool>, now: TimeStamp) -> (r: Admission)
        requires
            found@.len() == old(self).routes@.len(),
            old(self).session_manager matches Some(m) ==> m.store.wf(),
        ensures
            final(self).routes == old(self).routes,
            final(self).server_address == old(self).server_address,
            final(self).server_name == old(self).server_name,
            final(self).listeners == old(self).listeners,
            final(self).logger == old(self).logger,
            final(self).session_manager is Some == old(self).session_manager is Some,
            final(self).session_manager matches Some(m) ==> m.store.wf(),
            if utf8_len(request.uri@) > MAX_URI_LENGTH {
                final(self).session_manager == old(self).session_manager && (r matches Admission::Answer(resp)
                    && plain_error_response(resp, HttpStatusCode::URITooLong, "URI Too Long"@))
            } else {
                match spec_get_route(old(self).routes@, request.uri@, found@) {
                    None => final(self).session_manager == old(self).session_manager && (r matches Admission::Answer(resp)
                        && resp.version@ == "HTTP/1.1"@ && resp.status_code == HttpStatusCode::NotFound
                        && body_headers(resp.headers@, "text/plain"@, utf8_len("Route not found"@))
                        && opt_body(resp.body) == Some(BodySpec::Text("Route not found"@))),
                    Some(i) => match old(self).session_manager {
                        None => final(self).session_manager is None && r == Admission::Route(i as usize),
                        Some(before) => (final(self).session_manager matches Some(after) && after.config == before.config
                            && match r {
                                Admission::Route(j) => j == i && exists|s: Option<Session>|
                                    #[trigger] session_outcome_at(old(self).routes@[i], *request, before, after, now, Ok(s)),
                                Admission::Answer(_) => false,
                                Admission::Refused(e) => session_outcome_at(old(self).routes@[i], *request, before, after, now, Err(e)),
                            }),
                    },
                }
            },
    {
        if uri_length(request.uri.as_str()) > MAX_URI_LENGTH {
            let e = HttpError::URITooLong(owned("URI Too Long"));
            return Admission::Answer(e.to_response(None, None));
        }
        let i = match self.get_route_index(request.uri.as_str(), found) {
            Some(i) => i,
            None => return Admission::Answer(Response::not_found("Route not found")),
        };
        match self.session_manager.take() {
            None => Admission::Route(i),
            Some(mut manager) => {
                let outcome = middleware.process_at(request, &self.routes[i], &mut manager, now);
                self.session_manager = Some(manager);
                match outcome {
                    Ok(_) => Admission::Route(i),
                    Err(e) => Admission::Refused(e),
                }
            },
        }
    }

    /// The route that answers a path (see `get_route_index`).
    pub fn get_route(&self, path: &str, found: &Vec<bool>) -> (r: Option<&Route>)
        requires
            found@.len() == self.routes@.len(),
        ensures
            match spec_get_route(self.routes@, path@, found@) {
                Some(i) => r matches Some(x) && *x == self.routes@[i],
                None => r is None,
            },
    {
        match self.get_route_index(path, found) {
            Some(i) => Some(&self.routes[i]),
            None => None,
        }
    }

    /// Adds the two routes of the session API: `POST /api/session/create`
    /// and `DELETE /api/session/delete` (which requires a session).
    pub fn add_session_api(&mut self)
        ensures
            final(self).routes@.len() == old(self).routes@.len() + 2,
            final(self).routes@.take(old(self).routes@.len() as int) == old(self).routes@,
            final(self).routes@[old(self).routes@.len() as int].path@ == "/api/session/create"@,
            final(self).routes@[old(self).routes@.len() as int].methods@ == seq![HttpMethod::POST],
            final(self).routes@[old(self).routes@.len() as int].session_required == Some(false),
            final(self).routes@[old(self).routes@.len() + 1int].path@ == "/api/session/delete"@,
            final(self).routes@[old(self).routes@.len() + 1int].methods@ == seq![HttpMethod::DELETE],
            final(self).routes@[old(self).routes@.len() + 1int].session_required == Some(true),
    {
        let create_session_route = Route {
            path: owned("/api/session/create"),
            methods: vec![HttpMethod::POST],
            static_files: None,
            cgi_config: None,
            redirect: None,
            session_required: Some(false),
            session_redirect: None,
            matcher: None,
            params: StrMap::new(),
        };
        let delete_session_route = Route {
            path: owned("/api/session/delete"),
            methods: vec![HttpMethod::DELETE],
            static_files: None,
            cgi_config: None,
            redirect: None,
            session_required: Some(true),
            session_redirect: None,
            matcher: None,
            params: StrMap::new(),
        };
        self.add_route(create_session_route);
        self.add_route(delete_session_route);
        assert(self.routes@.take(old(self).routes@.len() as int) =~= old(self).routes@);
    }

    /// The file whose absence redirects a request on a route (see
    /// `redirect_probe`); `None` when the route has no static files.
    pub fn redirect_probe_path(route: &Route, uri: &str) -> (r: Option<String>)
        ensures
            match route.static_files {
                Some(sf) => r matches Some(p) && p@ == redirect_probe(sf.directory@, uri@),
                None => r is None,
            },
    {
        match &route.static_files {
            Some(sf) => {
                let c = chars_of(uri);
                let t = trim_start_matching(&c, '/');
                let inner = join_path(sf.directory.as_str(), string_of(&t).as_str());
                Some(join_path(sf.directory.as_str(), inner.as_str()))
            },
            None => None,
        }
    }

    /// What is done with a request on a route: `405` for a method the
    /// route does not list; a redirection (see
    /// `redirects`; `file_exists` tells whether `redirect_probe_path` is a
    /// file); the file API for paths under `/api/files` (or `503` when no
    /// uploads are set up); the session API for paths under `/api/session`
    /// (or `503` without sessions); for `GET`, the static files, else the
    /// CGI script, else `404`; `405` for other methods.
    pub fn route_request(&self, request: &Request, route: &Route, file_exists: bool, uploads_available: bool) -> (r: RouteDecision)
        ensures
            !route.methods@.contains(request.method) ==> (r matches RouteDecision::Respond(resp) && plain_response(
                resp,
                HttpStatusCode::MethodNotAllowed,
                "Method Not Allowed"@,
            )),
            route.methods@.contains(request.method) && redirects(*request, *route, file_exists) ==> (r matches RouteDecision::Respond(resp)
                && redirect_response(resp, route.redirect->0@)),
            route.methods@.contains(request.method) && !redirects(*request, *route, file_exists) ==> if has_prefix(request.uri@, "/api/files"@) {
                if uploads_available {
                    r is FileApi
                } else {
                    r matches RouteDecision::Respond(resp) && resp.status_code == HttpStatusCode::ServiceUnavailable
                        && body_headers(resp.headers@, "application/json"@, utf8_len(unavailable_json("File upload service is not available"@)))
                        && opt_body(resp.body) == Some(BodySpec::Json(unavailable_json("File upload service is not available"@)))
                }
            } else if has_prefix(request.uri@, "/api/session"@) {
                if self.session_manager is Some {
                    r is SessionApi
                } else {
                    r matches RouteDecision::Respond(resp) && resp.status_code == HttpStatusCode::ServiceUnavailable
                        && body_headers(resp.headers@, "application/json"@, utf8_len(unavailable_json("Session service is not available"@)))
                        && opt_body(resp.body) == Some(BodySpec::Json(unavailable_json("Session service is not available"@)))
                }
            } else if request.method == HttpMethod::GET {
                if route.static_files is Some {
                    r is StaticFiles
                } else if route.cgi_config is Some {
                    r is Cgi
                } else {
                    r matches RouteDecision::Respond(resp) && plain_response(resp, HttpStatusCode::NotFound, "Not Found"@)
                }
            } else {
                r matches RouteDecision::Respond(resp) && plain_response(resp, HttpStatusCode::MethodNotAllowed, "Method Not Allowed"@)
            },
    {
        if !route.is_method_allowed(&request.method) {
            return RouteDecision::Respond(plain(HttpStatusCode::MethodNotAllowed, "Method Not Allowed"));
        }
        if crate::text::str_eq(request.uri.as_str(), route.path.as_str()) {
            if let Some(redirect) = &route.redirect {
                if route.static_files.is_some() && !file_exists {
                    return RouteDecision::Respond(self.redirect(redirect.as_str()));
                }
            }
        }
        if str_starts_with(request.uri.as_str(), "/api/files") {
            if uploads_available {
                return RouteDecision::FileApi;
            }
            return RouteDecision::Respond(unavailable("File upload service is not available"));
        }
        if str_starts_with(request.uri.as_str(), "/api/session") {
            if self.session_manager.is_some() {
                return RouteDecision::SessionApi;
            }
            return RouteDecision::Respond(unavailable("Session service is not available"));
        }
        match request.method {
            HttpMethod::GET => {
                if route.static_files.is_some() {
                    RouteDecision::StaticFiles
                } else if route.cgi_config.is_some() {
                    RouteDecision::Cgi
                } else {
                    RouteDecision::Respond(plain(HttpStatusCode::NotFound, "Not Found"))
                }
            },
            _ => RouteDecision::Respond(plain(HttpStatusCode::MethodNotAllowed, "Method Not Allowed")),
        }
    }

    /// The response that redirects to `redirect`.
    pub fn redirect(&self, redirect: &str) -> (r: Response)
        ensures
            redirect_response(r, redirect@),
    {
        let mut headers = Vec::new();
        headers.push(Header::from_str("location", redirect));
        Response::new(HttpStatusCode::MovedPermanently, headers, None)
    }
}

/// `503` with `{"message": what}`.
fn unavailable(what: &str) -> (r: Response)
    ensures
        r.status_code == HttpStatusCode::ServiceUnavailable,
        body_headers(r.headers@, "application/json"@, utf8_len(unavailable_json(what@))),
        opt_body(r.body) == Some(BodySpec::Json(unavailable_json(what@))),
{
    let mut members: Vec<(String, String)> = Vec::new();
    members.push((owned("message"), owned(what)));
    assert(pair_texts(members@) =~= seq![("message"@, what@)]);
    let json = JsonValue::from_serialized(json_object(&members));
    Response::response_with_json(json, HttpStatusCode::ServiceUnavailable)
}

/// A `text/plain` response with a short text.
fn plain(status: HttpStatusCode, text: &str) -> (r: Response)
    ensures
        plain_response(r, status, text@),
{
    let body = Body::text(text);
    let len = string_of(&decimal_chars(body.body_len() as u64));
    ResponseBuilder::new().status_code(status).header(Header::from_str("Content-Type", "text/plain")).header(
        Header::from_str("Content-Length", len.as_str()),
    ).body(body).build()
}

} // verus!
