//! A client connection: where it stands, what a read of its request
//! leads to, and the headers every response on it carries. Reading and
//! writing the socket are left to the program.
use vstd::prelude::*;
use crate::http::header::{Header, HeaderName, HeaderNameSpec};
use crate::http::request::{
    Request, parse_request, try_parse_request, spec_parse_request, parse_request_defined, request_is,
    header_read_from, spec_method_text,
};
use crate::http::response::Response;
use crate::http::status::HttpStatusCode;
use crate::server::errors::{ServerError, spec_server_text};
use crate::server::stream::{RequestState, StateSpec, UnifiedReader, fresh};
use crate::sys::{to_lowercase, unicode_lower};
use crate::text::{chars_of, owned, push_str, string_of};

verus! {

/// Where a connection stands.
#[derive(Debug)]
pub enum ConnectionState {
    AwaitingRequest,
    Complete(Request),
    Error(String),
}

/// A client connection of a host.
#[derive(Debug)]
pub struct Connection {
    pub client_fd: i32,
    pub host_name: String,
    pub keep_alive: bool,
    pub reader: UnifiedReader,
    pub state: ConnectionState,
}

/// Whether a state is the error with message `m`.
pub open spec fn is_error(s: ConnectionState, m: Seq<char>) -> bool {
    s matches ConnectionState::Error(e) && e@ == m
}

/// Whether two states are the same (requests compared field by field).
pub open spec fn same_state(a: ConnectionState, b: ConnectionState) -> bool {
    match (a, b) {
        (ConnectionState::AwaitingRequest, ConnectionState::AwaitingRequest) => true,
        (ConnectionState::Complete(x), ConnectionState::Complete(y)) => x.method == y.method && x.uri@ == y.uri@
            && x.version@ == y.version@ && x.headers@.len() == y.headers@.len() && (forall|i: int|
            0 <= i < x.headers@.len() ==> (#[trigger] x.headers@[i])@ == y.headers@[i]@)
            && crate::http::request::opt_body(x.body) == crate::http::request::opt_body(y.body),
        (ConnectionState::Error(e), ConnectionState::Error(f)) => e@ == f@,
        _ => false,
    }
}

fn copy_state(s: &ConnectionState) -> (r: ConnectionState)
    ensures
        same_state(r, *s),
{
    match s {
        ConnectionState::AwaitingRequest => ConnectionState::AwaitingRequest,
        ConnectionState::Complete(req) => ConnectionState::Complete(req.duplicate()),
        ConnectionState::Error(e) => ConnectionState::Error(owned(e.as_str())),
    }
}

impl Connection {
    /// A new connection of descriptor `client_fd` on host `host_name`,
    /// awaiting a request and kept alive.
    pub fn new(client_fd: i32, host_name: String) -> (r: Self)
        ensures
            r.client_fd == client_fd,
            r.host_name == host_name,
            r.keep_alive,
            fresh(r.reader@),
            r.reader.wf(),
            r.state is AwaitingRequest,
    {
        Connection {
            client_fd,
            host_name,
            keep_alive: true,
            reader: UnifiedReader::new(),
            state: ConnectionState::AwaitingRequest,
        }
    }

    /// Ready for the next request.
    pub fn reset(&mut self)
        ensures
            fresh(final(self).reader@),
            final(self).reader.wf(),
            final(self).state is AwaitingRequest,
            final(self).client_fd == old(self).client_fd,
            final(self).host_name == old(self).host_name,
            final(self).keep_alive == old(self).keep_alive,
    {
        self.reader.reset();
        self.state = ConnectionState::AwaitingRequest;
    }

    /// The state of the connection.
    pub fn current_state(&self) -> (r: ConnectionState)
        ensures
            same_state(r, self.state),
    {
        copy_state(&self.state)
    }

    /// What a read of the connection leads to: `outcome` is the state the
    /// reading step ended in, or the text of the error that ended it. A
    /// complete request is read (the reader is then reset for the next
    /// one) or is an error; an unfinished body keeps the state; a head
    /// still awaited is reported as such; the end of the stream and read
    /// errors are errors. `None` where reading the request is not defined
    /// (a multipart body the reader cannot split).
    pub fn handle_read(&mut self, outcome: Result<RequestState, String>) -> (r: Option<ConnectionState>)
        requires
            old(self).reader.wf(),
        ensures
            final(self).reader.wf(),
            final(self).client_fd == old(self).client_fd,
            final(self).host_name == old(self).host_name,
            final(self).keep_alive == old(self).keep_alive,
            match outcome {
                Ok(RequestState::Complete(d)) => if !parse_request_defined(d@.0) {
                    r is None
                } else {
                    match spec_parse_request(d@.0) {
                        Some(s) => fresh(final(self).reader@) && (final(self).state matches ConnectionState::Complete(req)
                            && request_is(req, s)) && (r matches Some(x) && same_state(x, final(self).state)),
                        None => is_error(final(self).state, "failed parsed request"@) && (r matches Some(x) && same_state(
                            x,
                            final(self).state,
                        )) && final(self).reader == old(self).reader,
                    }
                },
                Ok(RequestState::ProcessingBody { .. }) => (r matches Some(x) && same_state(x, old(self).state))
                    && final(self).state == old(self).state && final(self).reader == old(self).reader,
                Ok(RequestState::AwaitingHeaders) => (r matches Some(x) && x is AwaitingRequest) && final(self).state
                    == old(self).state && final(self).reader == old(self).reader,
                Ok(RequestState::EndOfStream) => is_error(final(self).state, "End of stream"@) && (r matches Some(x)
                    && same_state(x, final(self).state)) && final(self).reader == old(self).reader,
                Err(m) => is_error(final(self).state, m@) && (r matches Some(x) && same_state(x, final(self).state))
                    && final(self).reader == old(self).reader,
            },
    {
        match outcome {
            Ok(RequestState::Complete(d)) => {
                match try_parse_request(d.get_data()) {
                    None => None,
                    Some(Some(request)) => {
                        self.reset();
                        self.state = ConnectionState::Complete(request);
                        Some(copy_state(&self.state))
                    },
                    Some(None) => {
                        self.state = ConnectionState::Error(owned("failed parsed request"));
                        Some(copy_state(&self.state))
                    },
                }
            },
            Ok(RequestState::ProcessingBody { .. }) => Some(copy_state(&self.state)),
            Ok(RequestState::AwaitingHeaders) => Some(ConnectionState::AwaitingRequest),
            Ok(RequestState::EndOfStream) => {
                self.state = ConnectionState::Error(owned("End of stream"));
                Some(copy_state(&self.state))
            },
            Err(m) => {
                self.state = ConnectionState::Error(m);
                Some(copy_state(&self.state))
            },
        }
    }
}

/// Whether the client wants the connection kept alive: a `Connection`
/// header whose value is `keep-alive` in lower case, or no such header.
pub open spec fn spec_want_keep_alive(request: Request) -> bool {
    match crate::server::connection::first_connection_header(request.headers@) {
        Some(i) => unicode_lower(request.headers@[i]@.value) == "keep-alive"@,
        None => true,
    }
}

/// The position of the first `Connection` header.
pub open spec fn first_connection_header(hs: Seq<Header>) -> Option<int> {
    if exists|i: int| 0 <= i < hs.len() && (#[trigger] hs[i])@.name == HeaderNameSpec::Connection {
        Some(
            choose|i: int|
                0 <= i < hs.len() && (#[trigger] hs[i])@.name == HeaderNameSpec::Connection && forall|j: int|
                    0 <= j < i ==> (#[trigger] hs[j])@.name != HeaderNameSpec::Connection,
        )
    } else {
        None
    }
}

/// Whether the client wants the connection kept alive.
pub fn want_keep_alive(request: &Request) -> (r: bool)
    ensures
        r == spec_want_keep_alive(*request),
{
    match request.get_header(HeaderName::Connection) {
        Some(header) => {
            let ghost i = choose|i: int|
                0 <= i < request.headers@.len() && request.headers@[i].name@ == HeaderNameSpec::Connection
                    && header@ == request.headers@[i]@ && forall|j: int|
                    0 <= j < i ==> request.headers@[j].name@ != HeaderNameSpec::Connection;
            proof {
                let hs = request.headers@;
                assert(hs[i]@.name == HeaderNameSpec::Connection);
                let k = choose|k: int|
                    0 <= k < hs.len() && (#[trigger] hs[k])@.name == HeaderNameSpec::Connection && forall|j: int|
                        0 <= j < k ==> (#[trigger] hs[j])@.name != HeaderNameSpec::Connection;
                if k < i {
                    assert(hs[k].name@ != HeaderNameSpec::Connection);
                }
                if i < k {
                    assert(hs[i]@.name != HeaderNameSpec::Connection);
                }
            }
            let lower = to_lowercase(header.value.value.as_str());
            crate::text::str_eq(lower.as_str(), "keep-alive")
        },
        None => {
            proof {
                assert forall|i: int| 0 <= i < request.headers@.len() implies (#[trigger] request.headers@[i])@.name
                    != HeaderNameSpec::Connection by {
                    assert(request.headers@[i].name@ != HeaderNameSpec::Connection);
                }
            }
            true
        },
    }
}

/// The headers every response carries: whether the connection stays open,
/// and the cross-origin permissions.
pub open spec fn connection_headers(hs: Seq<Header>, keep_alive: bool) -> bool {
    &&& hs.len() == 4
    &&& header_read_from(hs[0]@, "Connection"@, if keep_alive { "keep-alive"@ } else { "close"@ })
    &&& header_read_from(hs[1]@, "Access-Control-Allow-Origin"@, "*"@)
    &&& header_read_from(hs[2]@, "Access-Control-Allow-Methods"@, "GET, POST, DELETE, OPTIONS"@)
    &&& header_read_from(hs[3]@, "Access-Control-Allow-Headers"@, "Content-Type"@)
}

/// The response with the connection and cross-origin headers added after
/// its own: `keep-alive` when both the connection and the request want it
/// kept alive, else `close`.
pub fn add_connection_headers(response: Response, keep_alive: bool) -> (r: Response)
    ensures
        r.version == response.version,
        r.status_code == response.status_code,
        r.body == response.body,
        r.headers@.len() == response.headers@.len() + 4,
        r.headers@.take(response.headers@.len() as int) == response.headers@,
        connection_headers(r.headers@.skip(response.headers@.len() as int), keep_alive),
{
    let mut response = response;
    let ghost before = response.headers@;
    let value = if keep_alive {
        "keep-alive"
    } else {
        "close"
    };
    response.headers.push(Header::from_str("Connection", value));
    response.headers.push(Header::from_str("Access-Control-Allow-Origin", "*"));
    response.headers.push(Header::from_str("Access-Control-Allow-Methods", "GET, POST, DELETE, OPTIONS"));
    response.headers.push(Header::from_str("Access-Control-Allow-Headers", "Content-Type"));
    assert(response.headers@.take(before.len() as int) =~= before);
    let ghost tail = response.headers@.skip(before.len() as int);
    assert(tail[0] == response.headers@[before.len() as int]);
    assert(tail[1] == response.headers@[before.len() + 1int]);
    assert(tail[2] == response.headers@[before.len() + 2int]);
    assert(tail[3] == response.headers@[before.len() + 3int]);
    response
}

/// What became of a request after it was read.
#[derive(Debug)]
pub enum RequestOutcome {
    /// Its session check refused it with this error.
    Refused(ServerError),
    /// It was answered before any route handled it (`414`, or `404` when
    /// no route fits): the response is sent as it is.
    Answered(Response),
    /// Its route handled it: the response, or the error that stopped the
    /// handling (nothing is sent then).
    Handled(Result<Response, ServerError>),
}

/// What is done with a connection once its request is through.
#[derive(Debug)]
pub enum ConnAction {
    /// Send the response, then close the connection when the flag is set;
    /// the connection's idle time starts again.
    Send(Response, bool),
    /// Send nothing, then close the connection when the flag is set; the
    /// connection's idle time starts again.
    Quiet(bool),
    /// Write this text to the client and leave the connection as it is.
    SendText(String),
}

/// The response `base` with the connection headers of `keep_alive` added
/// after its own (what `add_connection_headers` gives).
pub open spec fn with_connection_headers(r: Response, base: Response, keep_alive: bool) -> bool {
    &&& r.version == base.version
    &&& r.status_code == base.status_code
    &&& r.body == base.body
    &&& r.headers@.len() == base.headers@.len() + 4
    &&& r.headers@.take(base.headers@.len() as int) == base.headers@
    &&& connection_headers(r.headers@.skip(base.headers@.len() as int), keep_alive)
}

/// The end of a request on a connection. A refusal by the session check is
/// written to the client as the error's text, and the connection is left
/// as it was. Otherwise the connection keeps the client's wish for it to
/// stay open (`want_keep_alive`) and is closed when the client does not
/// want it kept: a response given before routing is sent as it is; one
/// from the route gets the connection headers, with `keep-alive` when the
/// connection was open to it and the client wants it; a failed handling
/// sends nothing.
pub fn finish_request(conn: &mut Connection, request: &Request, outcome: RequestOutcome) -> (a: ConnAction)
    ensures
        final(conn).client_fd == old(conn).client_fd,
        final(conn).host_name == old(conn).host_name,
        final(conn).reader == old(conn).reader,
        final(conn).state == old(conn).state,
        match outcome {
            RequestOutcome::Refused(e) => final(conn).keep_alive == old(conn).keep_alive
                && (a matches ConnAction::SendText(t) && t@ == spec_server_text(e)),
            RequestOutcome::Answered(r) => final(conn).keep_alive == spec_want_keep_alive(*request)
                && a == ConnAction::Send(r, !spec_want_keep_alive(*request)),
            RequestOutcome::Handled(Ok(base)) => final(conn).keep_alive == spec_want_keep_alive(*request)
                && (a matches ConnAction::Send(r, close) && close == !spec_want_keep_alive(*request)
                && with_connection_headers(r, base, old(conn).keep_alive && spec_want_keep_alive(*request))),
            RequestOutcome::Handled(Err(_)) => final(conn).keep_alive == spec_want_keep_alive(*request)
                && a == ConnAction::Quiet(!spec_want_keep_alive(*request)),
        },
{
    match outcome {
        RequestOutcome::Refused(e) => ConnAction::SendText(e.to_text()),
        RequestOutcome::Answered(r) => {
            let want = want_keep_alive(request);
            conn.keep_alive = want;
            ConnAction::Send(r, !want)
        },
        RequestOutcome::Handled(result) => {
            let want = want_keep_alive(request);
            let keep = conn.keep_alive && want;
            conn.keep_alive = want;
            match result {
                Ok(resp) => ConnAction::Send(add_connection_headers(resp, keep), !want),
                Err(_) => ConnAction::Quiet(!want),
            }
        },
    }
}

/// The line logged for an answered request: method, path and status.
pub fn request_log_line(request: &Request, status: HttpStatusCode) -> (r: String)
    ensures
        r@ == spec_method_text(request.method) + " - "@ + request.uri@ + " - "@ + status.spec_text(),
{
    let mut v = chars_of(request.method.as_str());
    push_str(&mut v, " - ");
    push_str(&mut v, request.uri.as_str());
    push_str(&mut v, " - ");
    push_str(&mut v, status.as_str());
    string_of(&v)
}

} // verus!
