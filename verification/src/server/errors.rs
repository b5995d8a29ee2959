//! The errors of the server, their texts, the status codes that report
//! them and the responses sent for them.
use vstd::prelude::*;
use crate::config::ConfigError;
use crate::deps::{json_object, json_object_text, pair_texts};
use crate::http::body::{Body, BodySpec, JsonValue, utf8_len};
use crate::http::header::Header;
use crate::http::request::{header_read_from, opt_body};
use crate::http::response::{Response, ResponseBuilder, body_headers};
use crate::http::status::HttpStatusCode;
use crate::sys::{from_utf8_lossy, utf8_lossy};
use crate::text::{
    chars_of, owned, push_str, push_all, string_of, decimal, decimal_chars, signed_decimal,
    signed_decimal_chars, find_text, find_in, replace_all, replace_in, slice_chars,
};

verus! {

/// An error met while serving. Operating-system errors are kept as their
/// text; paths as their text.
#[derive(Debug)]
pub enum ServerError {
    IoError(String),
    EpollError(String),
    ConnectionError(String),
    ConfigError(ConfigError),
    FileNotFound(String),
    DirectoryAccessDenied(String),
    DirectoryListingError(String),
    SessionError(SessionError),
    UploaderError(UploaderError),
    CGIError(CGIError),
    HttpError(HttpError),
}

/// An error of the session layer.
#[derive(Debug)]
pub enum SessionError {
    InvalidSession(String),
    SessionExpired(String),
    SessionStorageError(String),
    SessionExpiredRedirect(String),
    AuthenticationRequired,
}

/// An error of the file uploads.
#[derive(Debug)]
pub enum UploaderError {
    FileTooLarge { size: usize, max_size: usize },
    UnsupportedFileType(String),
    UploadProcessingError(String),
    FileNotFound(i32),
    DeleteError(i32),
    DatabaseSyncError(String),
}

/// An error that maps to an HTTP status, with its message.
#[derive(Debug)]
pub enum HttpError {
    BadRequest(String),
    Forbidden(String),
    NotFound(String),
    MethodNotAllowed(String),
    PayloadTooLarge(String),
    URITooLong(String),
    UnsupportedMediaType(String),
    InternalServerError(String),
    Found(String),
}

/// An error of a CGI script.
#[derive(Debug)]
pub enum CGIError {
    ScriptNotFound(String),
    ExtensionNotAllowed(String),
    ExecutionFailed(String),
    ScriptOutputError(String),
    InvalidOutputFormat,
}

// ============= Texts =============
/// The text of a session error (what `Display` prints).
pub open spec fn spec_session_text(e: SessionError) -> Seq<char> {
    match e {
        SessionError::InvalidSession(m) => "Invalid session: "@ + m@,
        SessionError::SessionExpired(id) => "Session expired: "@ + id@,
        SessionError::SessionStorageError(m) => "Session storage error: "@ + m@,
        SessionError::AuthenticationRequired => "Authentication required"@,
        SessionError::SessionExpiredRedirect(url) => "Session expired, redirecting to: "@ + url@,
    }
}

/// The text of an upload error.
pub open spec fn spec_uploader_text(e: UploaderError) -> Seq<char> {
    match e {
        UploaderError::FileTooLarge { size, max_size } => "File too large: "@ + decimal(
            size as nat,
        ) + " bytes (max: "@ + decimal(max_size as nat) + " bytes)"@,
        UploaderError::UnsupportedFileType(mime) => "Unsupported file type: "@ + mime@,
        UploaderError::UploadProcessingError(m) => "Upload processing error: "@ + m@,
        UploaderError::FileNotFound(id) => "File with ID "@ + signed_decimal(id as int)
            + " not found"@,
        UploaderError::DeleteError(id) => "Failed to delete file with ID: "@ + signed_decimal(
            id as int,
        ),
        UploaderError::DatabaseSyncError(m) => "Database sync error: "@ + m@,
    }
}

/// The message an HTTP error carries.
pub open spec fn spec_message(e: HttpError) -> Seq<char> {
    match e {
        HttpError::BadRequest(m) => m@,
        HttpError::Forbidden(m) => m@,
        HttpError::NotFound(m) => m@,
        HttpError::MethodNotAllowed(m) => m@,
        HttpError::PayloadTooLarge(m) => m@,
        HttpError::URITooLong(m) => m@,
        HttpError::UnsupportedMediaType(m) => m@,
        HttpError::InternalServerError(m) => m@,
        HttpError::Found(m) => m@,
    }
}

/// The text of an HTTP error.
pub open spec fn spec_http_text(e: HttpError) -> Seq<char> {
    match e {
        HttpError::BadRequest(m) => "Bad request: "@ + m@,
        HttpError::Forbidden(m) => "Forbidden: "@ + m@,
        HttpError::NotFound(m) => "Not found: "@ + m@,
        HttpError::MethodNotAllowed(m) => "Method not allowed: "@ + m@,
        HttpError::PayloadTooLarge(m) => "Payload too large: "@ + m@,
        HttpError::URITooLong(m) => "URI too long: "@ + m@,
        HttpError::UnsupportedMediaType(m) => "Unsupported media type: "@ + m@,
        HttpError::InternalServerError(m) => "Internal server error: "@ + m@,
        HttpError::Found(m) => "Found: "@ + m@,
    }
}

/// The text of a CGI error.
pub open spec fn spec_cgi_text(e: CGIError) -> Seq<char> {
    match e {
        CGIError::ScriptNotFound(p) => "CGI script not found: "@ + p@,
        CGIError::ExtensionNotAllowed(x) => "CGI script extension not allowed: "@ + x@,
        CGIError::ExecutionFailed(m) => "Failed to execute CGI script: "@ + m@,
        CGIError::ScriptOutputError(m) => "CGI script error: "@ + m@,
        CGIError::InvalidOutputFormat => "Invalid CGI output format"@,
    }
}

/// The text of a configuration problem.
pub open spec fn spec_config_text(e: ConfigError) -> Seq<char> {
    match e {
        ConfigError::Critical(s) => "Critical error: "@ + s@,
        ConfigError::Warning(s) => "Warning: "@ + s@,
    }
}

/// The text of a server error (what `Display` prints).
pub open spec fn spec_server_text(e: ServerError) -> Seq<char> {
    match e {
        ServerError::IoError(m) => "IO Error: "@ + m@,
        ServerError::EpollError(m) => "Epoll Error: "@ + m@,
        ServerError::ConnectionError(m) => "Connection Error: "@ + m@,
        ServerError::ConfigError(c) => "Config Error: "@ + spec_config_text(c),
        ServerError::FileNotFound(p) => "File not found: "@ + p@,
        ServerError::DirectoryAccessDenied(p) => "Directory access denied: "@ + p@,
        ServerError::DirectoryListingError(m) => "Directory listing error: "@ + m@,
        ServerError::SessionError(s) => "Session Error: "@ + spec_session_text(s),
        ServerError::UploaderError(u) => "Uploader Error: "@ + spec_uploader_text(u),
        ServerError::CGIError(c) => "CGI Error: "@ + spec_cgi_text(c),
        ServerError::HttpError(h) => "HTTP Error: "@ + spec_http_text(h),
    }
}

fn join(a: &str, b: &str) -> (r: String)
    ensures
        r@ == a@ + b@,
{
    let mut v = chars_of(a);
    push_str(&mut v, b);
    string_of(&v)
}

impl SessionError {
    pub fn to_text(&self) -> (r: String)
        ensures
            r@ == spec_session_text(*self),
    {
        match self {
            SessionError::InvalidSession(m) => join("Invalid session: ", m.as_str()),
            SessionError::SessionExpired(id) => join("Session expired: ", id.as_str()),
            SessionError::SessionStorageError(m) => join("Session storage error: ", m.as_str()),
            SessionError::AuthenticationRequired => owned("Authentication required"),
            SessionError::SessionExpiredRedirect(url) => join(
                "Session expired, redirecting to: ",
                url.as_str(),
            ),
        }
    }
}

impl UploaderError {
    pub fn to_text(&self) -> (r: String)
        ensures
            r@ == spec_uploader_text(*self),
    {
        match self {
            UploaderError::FileTooLarge { size, max_size } => {
                let mut v = chars_of("File too large: ");
                let a = decimal_chars(*size as u64);
                push_all(&mut v, &a);
                push_str(&mut v, " bytes (max: ");
                let b = decimal_chars(*max_size as u64);
                push_all(&mut v, &b);
                push_str(&mut v, " bytes)");
                string_of(&v)
            },
            UploaderError::UnsupportedFileType(mime) => join("Unsupported file type: ", mime.as_str()),
            UploaderError::UploadProcessingError(m) => join("Upload processing error: ", m.as_str()),
            UploaderError::FileNotFound(id) => {
                let mut v = chars_of("File with ID ");
                let d = signed_decimal_chars(*id as i64);
                push_all(&mut v, &d);
                push_str(&mut v, " not found");
                string_of(&v)
            },
            UploaderError::DeleteError(id) => {
                let mut v = chars_of("Failed to delete file with ID: ");
                let d = signed_decimal_chars(*id as i64);
                push_all(&mut v, &d);
                string_of(&v)
            },
            UploaderError::DatabaseSyncError(m) => join("Database sync error: ", m.as_str()),
        }
    }
}

impl CGIError {
    pub fn to_text(&self) -> (r: String)
        ensures
            r@ == spec_cgi_text(*self),
    {
        match self {
            CGIError::ScriptNotFound(p) => join("CGI script not found: ", p.as_str()),
            CGIError::ExtensionNotAllowed(x) => join("CGI script extension not allowed: ", x.as_str()),
            CGIError::ExecutionFailed(m) => join("Failed to execute CGI script: ", m.as_str()),
            CGIError::ScriptOutputError(m) => join("CGI script error: ", m.as_str()),
            CGIError::InvalidOutputFormat => owned("Invalid CGI output format"),
        }
    }
}

impl ServerError {
    /// The error of a failed operating-system call: a missing file when the
    /// error's kind is "not found", otherwise an I/O error; `message` is the
    /// error's text.
    pub fn from_io(not_found: bool, message: String) -> (r: ServerError)
        ensures
            not_found ==> r == ServerError::FileNotFound(message),
            !not_found ==> r == ServerError::IoError(message),
    {
        if not_found {
            ServerError::FileNotFound(message)
        } else {
            ServerError::IoError(message)
        }
    }

    pub fn to_text(&self) -> (r: String)
        ensures
            r@ == spec_server_text(*self),
    {
        match self {
            ServerError::IoError(m) => join("IO Error: ", m.as_str()),
            ServerError::EpollError(m) => join("Epoll Error: ", m.as_str()),
            ServerError::ConnectionError(m) => join("Connection Error: ", m.as_str()),
            ServerError::ConfigError(c) => join("Config Error: ", c.to_text().as_str()),
            ServerError::FileNotFound(p) => join("File not found: ", p.as_str()),
            ServerError::DirectoryAccessDenied(p) => join("Directory access denied: ", p.as_str()),
            ServerError::DirectoryListingError(m) => join("Directory listing error: ", m.as_str()),
            ServerError::SessionError(s) => join("Session Error: ", s.to_text().as_str()),
            ServerError::UploaderError(u) => join("Uploader Error: ", u.to_text().as_str()),
            ServerError::CGIError(c) => join("CGI Error: ", c.to_text().as_str()),
            ServerError::HttpError(h) => join("HTTP Error: ", h.to_text().as_str()),
        }
    }
}

// ============= Status codes =============
/// The status that reports a server error.
pub open spec fn spec_server_status(e: ServerError) -> HttpStatusCode {
    match e {
        ServerError::FileNotFound(_) => HttpStatusCode::NotFound,
        ServerError::DirectoryAccessDenied(_) => HttpStatusCode::Forbidden,
        ServerError::SessionError(SessionError::SessionExpired(_)) => HttpStatusCode::Unauthorized,
        ServerError::SessionError(SessionError::AuthenticationRequired) => HttpStatusCode::Unauthorized,
        ServerError::SessionError(SessionError::SessionExpiredRedirect(_)) => HttpStatusCode::Found,
        ServerError::UploaderError(UploaderError::FileTooLarge { .. }) => HttpStatusCode::PayloadTooLarge,
        ServerError::UploaderError(UploaderError::UnsupportedFileType(_)) => HttpStatusCode::UnsupportedMediaType,
        ServerError::UploaderError(UploaderError::FileNotFound(_)) => HttpStatusCode::NotFound,
        ServerError::HttpError(HttpError::BadRequest(_)) => HttpStatusCode::BadRequest,
        ServerError::HttpError(HttpError::Forbidden(_)) => HttpStatusCode::Forbidden,
        ServerError::HttpError(HttpError::NotFound(_)) => HttpStatusCode::NotFound,
        ServerError::HttpError(HttpError::MethodNotAllowed(_)) => HttpStatusCode::MethodNotAllowed,
        ServerError::HttpError(HttpError::PayloadTooLarge(_)) => HttpStatusCode::PayloadTooLarge,
        ServerError::HttpError(HttpError::URITooLong(_)) => HttpStatusCode::URITooLong,
        ServerError::HttpError(HttpError::UnsupportedMediaType(_)) => HttpStatusCode::UnsupportedMediaType,
        ServerError::CGIError(CGIError::ScriptNotFound(_)) => HttpStatusCode::NotFound,
        ServerError::CGIError(CGIError::ExtensionNotAllowed(_)) => HttpStatusCode::Forbidden,
        _ => HttpStatusCode::InternalServerError,
    }
}

/// The status of an HTTP error.
pub open spec fn spec_http_status(e: HttpError) -> HttpStatusCode {
    match e {
        HttpError::BadRequest(_) => HttpStatusCode::BadRequest,
        HttpError::Forbidden(_) => HttpStatusCode::Forbidden,
        HttpError::NotFound(_) => HttpStatusCode::NotFound,
        HttpError::MethodNotAllowed(_) => HttpStatusCode::MethodNotAllowed,
        HttpError::PayloadTooLarge(_) => HttpStatusCode::PayloadTooLarge,
        HttpError::URITooLong(_) => HttpStatusCode::URITooLong,
        HttpError::UnsupportedMediaType(_) => HttpStatusCode::UnsupportedMediaType,
        HttpError::InternalServerError(_) => HttpStatusCode::InternalServerError,
        HttpError::Found(_) => HttpStatusCode::Found,
    }
}

/// The HTTP error that reports a server error in a response: the message
/// kept for the client, and the kind that gives the status.
pub open spec fn spec_reported(e: ServerError) -> (HttpStatusCode, Seq<char>) {
    match e {
        ServerError::FileNotFound(_) => (HttpStatusCode::NotFound, "File not found"@),
        ServerError::DirectoryAccessDenied(_) => (HttpStatusCode::Forbidden, "Directory access denied"@),
        ServerError::SessionError(SessionError::SessionExpired(_)) => (HttpStatusCode::Forbidden, "Session expired"@),
        ServerError::SessionError(SessionError::AuthenticationRequired) => (HttpStatusCode::Forbidden, "Authentication required"@),
        ServerError::SessionError(SessionError::SessionExpiredRedirect(url)) => (HttpStatusCode::Found, url@),
        ServerError::UploaderError(UploaderError::FileTooLarge { size, max_size }) => (
            HttpStatusCode::PayloadTooLarge,
            spec_uploader_text(UploaderError::FileTooLarge { size, max_size }),
        ),
        ServerError::UploaderError(UploaderError::UnsupportedFileType(mime)) => (
            HttpStatusCode::UnsupportedMediaType,
            "Unsupported file type: "@ + mime@,
        ),
        ServerError::UploaderError(UploaderError::FileNotFound(id)) => (
            HttpStatusCode::NotFound,
            spec_uploader_text(UploaderError::FileNotFound(id)),
        ),
        ServerError::HttpError(h) => (spec_http_status(h), spec_message(h)),
        ServerError::CGIError(c) => (HttpStatusCode::InternalServerError, spec_cgi_text(c)),
        _ => (HttpStatusCode::InternalServerError, "Internal server error"@),
    }
}

/// The response sent for an error without a page: a redirection for
/// `Found`, otherwise a JSON object `{"error": message}`.
pub open spec fn plain_error_response(r: Response, status: HttpStatusCode, message: Seq<char>) -> bool {
    &&& r.version@ == "HTTP/1.1"@
    &&& r.status_code == status
    &&& if status == HttpStatusCode::Found {
        &&& r.headers@.len() == 1
        &&& header_read_from(r.headers@[0]@, "location"@, message)
        &&& opt_body(r.body) == Some(BodySpec::Empty)
    } else {
        let json = json_object_text(seq![("error"@, message)]);
        &&& body_headers(r.headers@, "application/json"@, utf8_len(json))
        &&& opt_body(r.body) == Some(BodySpec::Json(json))
    }
}

/// The response sent for an error with a page of its own: `text/html` of
/// the page's bytes.
pub open spec fn page_error_response(r: Response, status: HttpStatusCode, page: Seq<u8>) -> bool {
    &&& r.version@ == "HTTP/1.1"@
    &&& r.status_code == status
    &&& body_headers(r.headers@, "text/html; charset=UTF-8"@, page.len() as int)
    &&& opt_body(r.body) == Some(BodySpec::Text(utf8_lossy(page)))
}

/// The part of the script put in an error template before the code.
pub open spec fn script_start() -> Seq<char> {
    "<script>\n                        window.ERROR_CODE = '"@
}

/// The part of the script between the code and the message.
pub open spec fn script_middle() -> Seq<char> {
    "';  // Just the numeric part \n                        window.ERROR_MESSAGE = '"@
}

/// The end of the script.
pub open spec fn script_end() -> Seq<char> {
    "';\n                        </script>"@
}

/// The line of the template that reads the code from the address.
pub open spec fn code_line() -> Seq<char> {
    "const errorCode = urlParams.get('code') || '404';"@
}

/// The same line, reading the code from the script first.
pub open spec fn injected_code_line() -> Seq<char> {
    "const errorCode = window.ERROR_CODE || urlParams.get('code') || '404';"@
}

/// The error template with the status code and the message set by a script
/// put before `</head>` (quotes of the message escaped), and with the code
/// read from the script.
pub open spec fn spec_injected(html: Seq<char>, code: u16, message: Seq<char>) -> Seq<char> {
    let with_script = match find_text(html, "</head>"@) {
        Some(p) => html.take(p) + script_start() + decimal(code as nat) + script_middle()
            + replace_all(message, "'"@, "\\'"@) + script_end() + html.skip(p),
        None => html,
    };
    replace_all(with_script, code_line(), injected_code_line())
}

/// The response sent for an error from the error template.
pub open spec fn template_error_response(r: Response, status: HttpStatusCode, message: Seq<char>, template: Seq<u8>) -> bool {
    let html = spec_injected(utf8_lossy(template), status.spec_code(), message);
    &&& r.version@ == "HTTP/1.1"@
    &&& r.status_code == status
    &&& body_headers(r.headers@, "text/html"@, utf8_len(html))
    &&& opt_body(r.body) == Some(BodySpec::Text(html))
}

/// The `404 Not Found` page sent when no page can be read.
pub open spec fn default_not_found_page() -> Seq<char> {
    "<!DOCTYPE html>
            <html>
            <head>
                <title>404 Not Found</title>
                <style>
                    body { font-family: -apple-system, BlinkMacSystemFont, \"Segoe UI\", Roboto, Helvetica, Arial, sans-serif; 
                            text-align: center; padding: 40px; }
                    h1 { color: #333; font-size: 32px; }
                    p { color: #555; font-size: 16px; }
                </style>
            </head>
            <body>
                <h1>404 Not Found</h1>
                <p>The requested resource could not be found on this server.</p>
                <p><a href=\"/\">Return to Home</a></p>
            </body>
            </html>"@
}

impl ServerError {
    /// The status that reports the error.
    pub fn to_http_status(&self) -> (r: HttpStatusCode)
        ensures
            r == spec_server_status(*self),
    {
        match self {
            ServerError::FileNotFound(_) => HttpStatusCode::NotFound,
            ServerError::DirectoryAccessDenied(_) => HttpStatusCode::Forbidden,
            ServerError::SessionError(SessionError::SessionExpired(_)) => HttpStatusCode::Unauthorized,
            ServerError::SessionError(SessionError::AuthenticationRequired) => HttpStatusCode::Unauthorized,
            ServerError::SessionError(SessionError::SessionExpiredRedirect(_)) => HttpStatusCode::Found,
            ServerError::UploaderError(UploaderError::FileTooLarge { .. }) => HttpStatusCode::PayloadTooLarge,
            ServerError::UploaderError(UploaderError::UnsupportedFileType(_)) => HttpStatusCode::UnsupportedMediaType,
            ServerError::UploaderError(UploaderError::FileNotFound(_)) => HttpStatusCode::NotFound,
            ServerError::HttpError(HttpError::BadRequest(_)) => HttpStatusCode::BadRequest,
            ServerError::HttpError(HttpError::Forbidden(_)) => HttpStatusCode::Forbidden,
            ServerError::HttpError(HttpError::NotFound(_)) => HttpStatusCode::NotFound,
            ServerError::HttpError(HttpError::MethodNotAllowed(_)) => HttpStatusCode::MethodNotAllowed,
            ServerError::HttpError(HttpError::PayloadTooLarge(_)) => HttpStatusCode::PayloadTooLarge,
            ServerError::HttpError(HttpError::URITooLong(_)) => HttpStatusCode::URITooLong,
            ServerError::HttpError(HttpError::UnsupportedMediaType(_)) => HttpStatusCode::UnsupportedMediaType,
            ServerError::CGIError(CGIError::ScriptNotFound(_)) => HttpStatusCode::NotFound,
            ServerError::CGIError(CGIError::ExtensionNotAllowed(_)) => HttpStatusCode::Forbidden,
            _ => HttpStatusCode::InternalServerError,
        }
    }

    /// The HTTP error that reports the error to the client.
    pub fn to_http_error(&self) -> (r: HttpError)
        ensures
            (spec_http_status(r), spec_message(r)) == spec_reported(*self),
    {
        match self {
            ServerError::FileNotFound(_) => HttpError::NotFound(owned("File not found")),
            ServerError::DirectoryAccessDenied(_) => HttpError::Forbidden(owned("Directory access denied")),
            ServerError::SessionError(SessionError::SessionExpired(_)) => HttpError::Forbidden(owned("Session expired")),
            ServerError::SessionError(SessionError::AuthenticationRequired) => HttpError::Forbidden(owned("Authentication required")),
            ServerError::SessionError(SessionError::SessionExpiredRedirect(url)) => HttpError::Found(owned(url.as_str())),
            ServerError::UploaderError(u) => match u {
                UploaderError::FileTooLarge { .. } => HttpError::PayloadTooLarge(u.to_text()),
                UploaderError::UnsupportedFileType(_) => HttpError::UnsupportedMediaType(u.to_text()),
                UploaderError::FileNotFound(_) => HttpError::NotFound(u.to_text()),
                _ => HttpError::InternalServerError(owned("Internal server error")),
            },
            ServerError::HttpError(e) => e.clone(),
            ServerError::CGIError(e) => HttpError::InternalServerError(e.to_text()),
            _ => HttpError::InternalServerError(owned("Internal server error")),
        }
    }

    /// The response that reports the error: a redirection or a JSON
    /// object with the message kept for the client.
    pub fn to_response(&self) -> (r: Response)
        ensures
            plain_error_response(r, spec_reported(*self).0, spec_reported(*self).1),
    {
        let e = self.to_http_error();
        e.to_response(None, None)
    }
}

impl Clone for HttpError {
    fn clone(&self) -> (r: Self)
        ensures
            spec_http_status(r) == spec_http_status(*self),
            spec_message(r) == spec_message(*self),
    {
        match self {
            HttpError::BadRequest(m) => HttpError::BadRequest(owned(m.as_str())),
            HttpError::Forbidden(m) => HttpError::Forbidden(owned(m.as_str())),
            HttpError::NotFound(m) => HttpError::NotFound(owned(m.as_str())),
            HttpError::MethodNotAllowed(m) => HttpError::MethodNotAllowed(owned(m.as_str())),
            HttpError::PayloadTooLarge(m) => HttpError::PayloadTooLarge(owned(m.as_str())),
            HttpError::URITooLong(m) => HttpError::URITooLong(owned(m.as_str())),
            HttpError::UnsupportedMediaType(m) => HttpError::UnsupportedMediaType(owned(m.as_str())),
            HttpError::InternalServerError(m) => HttpError::InternalServerError(owned(m.as_str())),
            HttpError::Found(m) => HttpError::Found(owned(m.as_str())),
        }
    }
}

impl HttpError {
    /// The HTTP error for a server error: its status, when it is one an
    /// HTTP error has (else an internal error), with the error's text.
    pub fn new(e: ServerError) -> (r: HttpError)
        ensures
            spec_message(r) == spec_server_text(e),
            spec_http_status(r) == match spec_server_status(e) {
                HttpStatusCode::BadRequest => HttpStatusCode::BadRequest,
                HttpStatusCode::Forbidden => HttpStatusCode::Forbidden,
                HttpStatusCode::NotFound => HttpStatusCode::NotFound,
                HttpStatusCode::MethodNotAllowed => HttpStatusCode::MethodNotAllowed,
                HttpStatusCode::PayloadTooLarge => HttpStatusCode::PayloadTooLarge,
                HttpStatusCode::URITooLong => HttpStatusCode::URITooLong,
                HttpStatusCode::UnsupportedMediaType => HttpStatusCode::UnsupportedMediaType,
                _ => HttpStatusCode::InternalServerError,
            },
    {
        let status = e.to_http_status();
        let message = e.to_text();
        match status {
            HttpStatusCode::BadRequest => HttpError::BadRequest(message),
            HttpStatusCode::Forbidden => HttpError::Forbidden(message),
            HttpStatusCode::NotFound => HttpError::NotFound(message),
            HttpStatusCode::MethodNotAllowed => HttpError::MethodNotAllowed(message),
            HttpStatusCode::PayloadTooLarge => HttpError::PayloadTooLarge(message),
            HttpStatusCode::URITooLong => HttpError::URITooLong(message),
            HttpStatusCode::UnsupportedMediaType => HttpError::UnsupportedMediaType(message),
            _ => HttpError::InternalServerError(message),
        }
    }

    pub fn status_code(&self) -> (r: HttpStatusCode)
        ensures
            r == spec_http_status(*self),
    {
        match self {
            HttpError::BadRequest(_) => HttpStatusCode::BadRequest,
            HttpError::Forbidden(_) => HttpStatusCode::Forbidden,
            HttpError::NotFound(_) => HttpStatusCode::NotFound,
            HttpError::MethodNotAllowed(_) => HttpStatusCode::MethodNotAllowed,
            HttpError::PayloadTooLarge(_) => HttpStatusCode::PayloadTooLarge,
            HttpError::URITooLong(_) => HttpStatusCode::URITooLong,
            HttpError::UnsupportedMediaType(_) => HttpStatusCode::UnsupportedMediaType,
            HttpError::InternalServerError(_) => HttpStatusCode::InternalServerError,
            HttpError::Found(_) => HttpStatusCode::Found,
        }
    }

    fn message(&self) -> (r: &str)
        ensures
            r@ == spec_message(*self),
    {
        match self {
            HttpError::BadRequest(m) => m.as_str(),
            HttpError::Forbidden(m) => m.as_str(),
            HttpError::NotFound(m) => m.as_str(),
            HttpError::MethodNotAllowed(m) => m.as_str(),
            HttpError::PayloadTooLarge(m) => m.as_str(),
            HttpError::URITooLong(m) => m.as_str(),
            HttpError::UnsupportedMediaType(m) => m.as_str(),
            HttpError::InternalServerError(m) => m.as_str(),
            HttpError::Found(m) => m.as_str(),
        }
    }

    pub fn to_text(&self) -> (r: String)
        ensures
            r@ == spec_http_text(*self),
    {
        match self {
            HttpError::BadRequest(m) => join("Bad request: ", m.as_str()),
            HttpError::Forbidden(m) => join("Forbidden: ", m.as_str()),
            HttpError::NotFound(m) => join("Not found: ", m.as_str()),
            HttpError::MethodNotAllowed(m) => join("Method not allowed: ", m.as_str()),
            HttpError::PayloadTooLarge(m) => join("Payload too large: ", m.as_str()),
            HttpError::URITooLong(m) => join("URI too long: ", m.as_str()),
            HttpError::UnsupportedMediaType(m) => join("Unsupported media type: ", m.as_str()),
            HttpError::InternalServerError(m) => join("Internal server error: ", m.as_str()),
            HttpError::Found(m) => join("Found: ", m.as_str()),
        }
    }

    /// The response for the error. `custom_page` is what the static files
    /// served for the error page configured for the status, `template`
    /// what they served for the error template (both `None` without static
    /// files). A custom page is sent as it is; the template gets a script
    /// with the code and the message; with neither, the response is a
    /// redirection (for `Found`) or a JSON object with the message.
    pub fn to_response(&self, custom_page: Option<Vec<u8>>, template: Option<Vec<u8>>) -> (r: Response)
        ensures
            match (custom_page, template) {
                (Some(page), _) => page_error_response(r, spec_http_status(*self), page@),
                (None, Some(t)) => template_error_response(
                    r,
                    spec_http_status(*self),
                    spec_message(*self),
                    t@,
                ),
                (None, None) => plain_error_response(
                    r,
                    spec_http_status(*self),
                    spec_message(*self),
                ),
            },
    {
        let status = self.status_code();
        if let Some(page) = custom_page {
            return page_response(status, &page);
        }
        if let Some(t) = template {
            let html = inject_error_info(&t, status, self.message());
            let body = Body::text(html.as_str());
            let len = string_of(&decimal_chars(body.body_len() as u64));
            return ResponseBuilder::new().status_code(status).header(
                Header::from_str("content-type", "text/html"),
            ).header(Header::from_str("content-length", len.as_str())).body(body).build();
        }
        if let HttpError::Found(url) = self {
            return ResponseBuilder::new().status_code(status).header(
                Header::from_str("location", url.as_str()),
            ).body(Body::empty()).build();
        }
        let mut members: Vec<(String, String)> = Vec::new();
        members.push((owned("error"), owned(self.message())));
        assert(pair_texts(members@) =~= seq![("error"@, spec_message(*self))]);
        let json = JsonValue::from_serialized(json_object(&members));
        let body = Body::json(json);
        let len = string_of(&decimal_chars(body.body_len() as u64));
        ResponseBuilder::new().status_code(status).header(
            Header::from_str("content-type", "application/json"),
        ).header(Header::from_str("content-length", len.as_str())).body(body).build()
    }

    /// The `404 Not Found` response: `page` is the content of the
    /// configured not-found page and `template` that of the error
    /// template, when they could be read; without either, a built-in page.
    pub fn not_found(page: Option<Vec<u8>>, template: Option<Vec<u8>>) -> (r: Response)
        ensures
            match (page, template) {
                (Some(p), _) => page_error_response(r, HttpStatusCode::NotFound, p@),
                (None, Some(t)) => page_error_response(r, HttpStatusCode::NotFound, t@),
                (None, None) => {
                    &&& r.version@ == "HTTP/1.1"@
                    &&& r.status_code == HttpStatusCode::NotFound
                    &&& body_headers(
                        r.headers@,
                        "text/html; charset=UTF-8"@,
                        utf8_len(default_not_found_page()),
                    )
                    &&& opt_body(r.body) == Some(BodySpec::Text(default_not_found_page()))
                },
            },
    {
        if let Some(p) = page {
            return page_response(HttpStatusCode::NotFound, &p);
        }
        if let Some(t) = template {
            return page_response(HttpStatusCode::NotFound, &t);
        }
        let html = "<!DOCTYPE html>
            <html>
            <head>
                <title>404 Not Found</title>
                <style>
                    body { font-family: -apple-system, BlinkMacSystemFont, \"Segoe UI\", Roboto, Helvetica, Arial, sans-serif; 
                            text-align: center; padding: 40px; }
                    h1 { color: #333; font-size: 32px; }
                    p { color: #555; font-size: 16px; }
                </style>
            </head>
            <body>
                <h1>404 Not Found</h1>
                <p>The requested resource could not be found on this server.</p>
                <p><a href=\"/\">Return to Home</a></p>
            </body>
            </html>";
        let body = Body::text(html);
        let len = string_of(&decimal_chars(body.body_len() as u64));
        ResponseBuilder::new().status_code(HttpStatusCode::NotFound).header(
            Header::from_str("content-type", "text/html; charset=UTF-8"),
        ).header(Header::from_str("content-length", len.as_str())).body(body).build()
    }
}

/// An HTML response with the bytes of a page.
fn page_response(status: HttpStatusCode, page: &Vec<u8>) -> (r: Response)
    ensures
        page_error_response(r, status, page@),
{
    let text = from_utf8_lossy(page.as_slice());
    let len = string_of(&decimal_chars(page.len() as u64));
    ResponseBuilder::new().status_code(status).header(
        Header::from_str("content-type", "text/html; charset=UTF-8"),
    ).header(Header::from_str("content-length", len.as_str())).body(Body::text(text.as_str())).build()
}

/// The error template with the code and the message of the error set.
fn inject_error_info(template: &Vec<u8>, status: HttpStatusCode, message: &str) -> (r: String)
    ensures
        r@ == spec_injected(utf8_lossy(template@), status.spec_code(), message@),
{
    let html = chars_of(from_utf8_lossy(template.as_slice()).as_str());
    let head = chars_of("</head>");
    let with_script = match find_in(&html, &head) {
        Some(p) => {
            proof {
                crate::text::lemma_find_text(html@, head@);
            }
            let mut v = slice_chars(&html, 0, p);
            push_str(&mut v, "<script>\n                        window.ERROR_CODE = '");
            let code = decimal_chars(status.code() as u64);
            push_all(&mut v, &code);
            push_str(
                &mut v,
                "';  // Just the numeric part \n                        window.ERROR_MESSAGE = '",
            );
            let m = chars_of(message);
            let quote = chars_of("'");
            let escaped = chars_of("\\'");
            proof {
                reveal_strlit("'");
            }
            let m2 = replace_in(&m, &quote, &escaped);
            push_all(&mut v, &m2);
            push_str(&mut v, "';\n                        </script>");
            let rest = slice_chars(&html, p, html.len());
            push_all(&mut v, &rest);
            proof {
                assert(html@.take(p as int) =~= html@.subrange(0, p as int));
                assert(rest@ =~= html@.skip(p as int));
            }
            v
        },
        None => html,
    };
    let from = chars_of("const errorCode = urlParams.get('code') || '404';");
    let to = chars_of("const errorCode = window.ERROR_CODE || urlParams.get('code') || '404';");
    proof {
        reveal_strlit("const errorCode = urlParams.get('code') || '404';");
    }
    let out = replace_in(&with_script, &from, &to);
    string_of(&out)
}

// ============= Conversions =============
impl From<SessionError> for ServerError {
    fn from(error: SessionError) -> (r: ServerError) {
        ServerError::SessionError(error)
    }
}

impl vstd::std_specs::convert::FromSpecImpl<SessionError> for ServerError {
    open spec fn obeys_from_spec() -> bool {
        true
    }

    open spec fn from_spec(error: SessionError) -> ServerError {
        ServerError::SessionError(error)
    }
}

impl From<UploaderError> for ServerError {
    fn from(error: UploaderError) -> (r: ServerError) {
        ServerError::UploaderError(error)
    }
}

impl vstd::std_specs::convert::FromSpecImpl<UploaderError> for ServerError {
    open spec fn obeys_from_spec() -> bool {
        true
    }

    open spec fn from_spec(error: UploaderError) -> ServerError {
        ServerError::UploaderError(error)
    }
}

impl From<HttpError> for ServerError {
    fn from(error: HttpError) -> (r: ServerError) {
        ServerError::HttpError(error)
    }
}

impl vstd::std_specs::convert::FromSpecImpl<HttpError> for ServerError {
    open spec fn obeys_from_spec() -> bool {
        true
    }

    open spec fn from_spec(error: HttpError) -> ServerError {
        ServerError::HttpError(error)
    }
}

impl From<CGIError> for ServerError {
    fn from(error: CGIError) -> (r: ServerError) {
        ServerError::CGIError(error)
    }
}

impl vstd::std_specs::convert::FromSpecImpl<CGIError> for ServerError {
    open spec fn obeys_from_spec() -> bool {
        true
    }

    open spec fn from_spec(error: CGIError) -> ServerError {
        ServerError::CGIError(error)
    }
}

/// Whether an error reports that something asked for is missing: a file,
/// an uploaded file, a resource or a CGI script.
pub open spec fn is_missing_resource(e: ServerError) -> bool {
    ||| e is FileNotFound
    ||| e matches ServerError::UploaderError(UploaderError::FileNotFound(_))
    ||| e matches ServerError::HttpError(HttpError::NotFound(_))
    ||| e matches ServerError::CGIError(CGIError::ScriptNotFound(_))
}

/// Whether an error reports that what was asked for is refused: a
/// directory, a forbidden resource or a script of a refused extension.
pub open spec fn is_refusal(e: ServerError) -> bool {
    ||| e is DirectoryAccessDenied
    ||| e matches ServerError::HttpError(HttpError::Forbidden(_))
    ||| e matches ServerError::CGIError(CGIError::ExtensionNotAllowed(_))
}

/// The status of every server error: a missing file, upload, resource or
/// CGI script is `404 Not Found`, and `404` reports nothing else; a refusal
/// is `403 Forbidden`; an ended or missing session is `401`, or `302` to
/// its redirection; an upload too large `413`, of a refused type `415`;
/// the HTTP errors their own status; what failed inside the server (the
/// input/output, epoll, connections, the configuration, directory
/// listings, session storage, other upload failures, a script that fails
/// or answers badly) is `500`.
pub proof fn law_server_error_status(e: ServerError)
    ensures
        is_missing_resource(e) <==> spec_server_status(e) == HttpStatusCode::NotFound,
        is_refusal(e) <==> spec_server_status(e) == HttpStatusCode::Forbidden,
        e matches ServerError::SessionError(SessionError::SessionExpired(_)) ==> spec_server_status(e) == HttpStatusCode::Unauthorized,
        e matches ServerError::SessionError(SessionError::AuthenticationRequired) ==> spec_server_status(e) == HttpStatusCode::Unauthorized,
        e matches ServerError::SessionError(SessionError::SessionExpiredRedirect(_)) ==> spec_server_status(e) == HttpStatusCode::Found,
        e matches ServerError::UploaderError(UploaderError::FileTooLarge { .. }) ==> spec_server_status(e) == HttpStatusCode::PayloadTooLarge,
        e matches ServerError::UploaderError(UploaderError::UnsupportedFileType(_)) ==> spec_server_status(e) == HttpStatusCode::UnsupportedMediaType,
        e matches ServerError::HttpError(HttpError::BadRequest(_)) ==> spec_server_status(e) == HttpStatusCode::BadRequest,
        e matches ServerError::HttpError(HttpError::MethodNotAllowed(_)) ==> spec_server_status(e) == HttpStatusCode::MethodNotAllowed,
        e matches ServerError::HttpError(HttpError::PayloadTooLarge(_)) ==> spec_server_status(e) == HttpStatusCode::PayloadTooLarge,
        e matches ServerError::HttpError(HttpError::URITooLong(_)) ==> spec_server_status(e) == HttpStatusCode::URITooLong,
        e matches ServerError::HttpError(HttpError::UnsupportedMediaType(_)) ==> spec_server_status(e) == HttpStatusCode::UnsupportedMediaType,
        (e is IoError || e is EpollError || e is ConnectionError || e is ConfigError || e is DirectoryListingError
            || e matches ServerError::SessionError(SessionError::InvalidSession(_))
            || e matches ServerError::SessionError(SessionError::SessionStorageError(_))
            || e matches ServerError::UploaderError(UploaderError::UploadProcessingError(_))
            || e matches ServerError::UploaderError(UploaderError::DeleteError(_))
            || e matches ServerError::UploaderError(UploaderError::DatabaseSyncError(_))
            || e matches ServerError::HttpError(HttpError::InternalServerError(_))
            || e matches ServerError::HttpError(HttpError::Found(_))
            || e matches ServerError::CGIError(CGIError::ExecutionFailed(_))
            || e matches ServerError::CGIError(CGIError::ScriptOutputError(_))
            || e matches ServerError::CGIError(CGIError::InvalidOutputFormat))
            ==> spec_server_status(e) == HttpStatusCode::InternalServerError,
{
}

} // verus!
