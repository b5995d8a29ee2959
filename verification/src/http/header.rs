//! HTTP headers: names, values and what the server reads out of them
//! (content types, content lengths, transfer encodings, connection
//! options and cookies).
use vstd::prelude::*;
use crate::map::{StrMap, map_insert};
use crate::sys::{TimeStamp, to_lowercase, unicode_lower, now, time_debug, time_debug_text};
use crate::text::{chars_of, chars_eq, owned, push_str, push_all, string_of, split, split_on, views, trim, trim_chars, slice_chars, parse_unsigned, parse_unsigned_chars, decimal, decimal_chars,
    lemma_split_first, lemma_split_whole, lemma_split_last, trim_char, trim_matching, is_ascii_char, is_ascii_text, lower_ascii,
    lower_ascii_text, trim_start, trim_end, is_space, all_digits, is_digit, lemma_decimal_digits};

verus! {

/// The text of an optional string.
pub open spec fn opt_text(o: Option<String>) -> Option<Seq<char>> {
    match o {
        Some(s) => Some(s@),
        None => None,
    }
}

// ============= Types =============
/// A header line: its name and its value.
#[derive(Debug)]
pub struct Header {
    pub name: HeaderName,
    pub value: HeaderValue,
}

/// A header value: the raw text and what it was understood as.
#[derive(Debug)]
pub struct HeaderValue {
    pub value: String,
    pub parsed_value: Option<HeaderParsedValue>,
}

/// A `Content-Type` split into its MIME type and parameters.
pub struct ParsedContentType {
    pub mime: String,
    pub params: StrMap<String>,
}

/// A `Content-Disposition` split into its disposition and parameters.
pub struct ParsedContentDisposition {
    pub disposition: String,
    pub params: StrMap<String>,
}

/// What a header value was understood as.
#[derive(Debug)]
pub enum HeaderParsedValue {
    ContentType(ContentType),
    ContentLength(u64),
    Connection(Connection),
    TransferEncoding(TransferEncoding),
    Server(String),
    Date(TimeStamp),
    Custom(String),
    Cookie(Cookie),
    Raw,
}

/// The header names the server knows, and any other name.
#[derive(Debug)]
pub enum HeaderName {
    ContentType,
    ContentLength,
    ContentDisposition,
    Connection,
    TransferEncoding,
    Cookie,
    SetCookie,
    CacheControl,
    Date,
    Host,
    Accept,
    AcceptLanguage,
    AcceptEncoding,
    Server,
    StatusCode,
    ETag,
    LastModified,
    StrictTransportSecurity,
    Custom(String),
}

#[derive(Debug, Clone, Copy, PartialEq, Eq, Structural)]
pub enum ContentType {
    TextPlain,
    TextHtml,
    ApplicationJson,
    ApplicationXml,
    ApplicationFormUrlEncoded,
    MultipartFormData,
    Raw,
}

#[derive(Debug, Clone, Copy, PartialEq, Eq, Structural)]
pub enum TransferEncoding {
    Chunked,
    Compress,
    Deflate,
    Gzip,
    Identity,
}

/// A cookie: its name, its value and its attributes.
#[derive(Debug)]
pub struct Cookie {
    pub name: String,
    pub value: String,
    pub options: CookieOptions,
}

/// The attributes of a cookie.
#[derive(Debug)]
pub struct CookieOptions {
    pub http_only: bool,
    pub secure: bool,
    pub max_age: Option<u64>,
    pub path: Option<String>,
    pub expires: Option<TimeStamp>,
    pub domain: Option<String>,
    pub same_site: SameSitePolicy,
}

/// The `SameSite` attribute of a cookie; `CrossSite` is the policy
/// written `SameSite=None`.
#[derive(Debug, Clone, Copy, PartialEq, Eq, Structural)]
pub enum SameSitePolicy {
    Strict,
    Lax,
    CrossSite,
}

#[derive(Debug, Clone, Copy, PartialEq, Eq, Structural)]
pub enum Connection {
    KeepAlive,
    Close,
}

// ============= Abstract values =============
/// A header name as text-level value.
pub enum HeaderNameSpec {
    ContentType,
    ContentLength,
    ContentDisposition,
    Connection,
    TransferEncoding,
    Cookie,
    SetCookie,
    CacheControl,
    Date,
    Host,
    Accept,
    AcceptLanguage,
    AcceptEncoding,
    Server,
    StatusCode,
    ETag,
    LastModified,
    StrictTransportSecurity,
    Custom(Seq<char>),
}

pub struct CookieOptionsSpec {
    pub http_only: bool,
    pub secure: bool,
    pub max_age: Option<u64>,
    pub path: Option<Seq<char>>,
    pub expires: Option<TimeStamp>,
    pub domain: Option<Seq<char>>,
    pub same_site: SameSitePolicy,
}

pub struct CookieSpec {
    pub name: Seq<char>,
    pub value: Seq<char>,
    pub options: CookieOptionsSpec,
}

pub enum ParsedValueSpec {
    ContentType(ContentType),
    ContentLength(u64),
    Connection(Connection),
    TransferEncoding(TransferEncoding),
    Server(Seq<char>),
    Date(TimeStamp),
    Custom(Seq<char>),
    Cookie(CookieSpec),
    Raw,
}

pub struct HeaderSpec {
    pub name: HeaderNameSpec,
    pub value: Seq<char>,
    pub parsed: Option<ParsedValueSpec>,
}

impl View for HeaderName {
    type V = HeaderNameSpec;

    open spec fn view(&self) -> HeaderNameSpec {
        match self {
            HeaderName::ContentType => HeaderNameSpec::ContentType,
            HeaderName::ContentLength => HeaderNameSpec::ContentLength,
            HeaderName::ContentDisposition => HeaderNameSpec::ContentDisposition,
            HeaderName::Connection => HeaderNameSpec::Connection,
            HeaderName::TransferEncoding => HeaderNameSpec::TransferEncoding,
            HeaderName::Cookie => HeaderNameSpec::Cookie,
            HeaderName::SetCookie => HeaderNameSpec::SetCookie,
            HeaderName::CacheControl => HeaderNameSpec::CacheControl,
            HeaderName::Date => HeaderNameSpec::Date,
            HeaderName::Host => HeaderNameSpec::Host,
            HeaderName::Accept => HeaderNameSpec::Accept,
            HeaderName::AcceptLanguage => HeaderNameSpec::AcceptLanguage,
            HeaderName::AcceptEncoding => HeaderNameSpec::AcceptEncoding,
            HeaderName::Server => HeaderNameSpec::Server,
            HeaderName::StatusCode => HeaderNameSpec::StatusCode,
            HeaderName::ETag => HeaderNameSpec::ETag,
            HeaderName::LastModified => HeaderNameSpec::LastModified,
            HeaderName::StrictTransportSecurity => HeaderNameSpec::StrictTransportSecurity,
            HeaderName::Custom(s) => HeaderNameSpec::Custom(s@),
        }
    }
}

impl View for CookieOptions {
    type V = CookieOptionsSpec;

    open spec fn view(&self) -> CookieOptionsSpec {
        CookieOptionsSpec {
            http_only: self.http_only,
            secure: self.secure,
            max_age: self.max_age,
            path: opt_text(self.path),
            expires: self.expires,
            domain: opt_text(self.domain),
            same_site: self.same_site,
        }
    }
}

impl View for Cookie {
    type V = CookieSpec;

    open spec fn view(&self) -> CookieSpec {
        CookieSpec { name: self.name@, value: self.value@, options: self.options@ }
    }
}

impl View for HeaderParsedValue {
    type V = ParsedValueSpec;

    open spec fn view(&self) -> ParsedValueSpec {
        match self {
            HeaderParsedValue::ContentType(c) => ParsedValueSpec::ContentType(*c),
            HeaderParsedValue::ContentLength(n) => ParsedValueSpec::ContentLength(*n),
            HeaderParsedValue::Connection(c) => ParsedValueSpec::Connection(*c),
            HeaderParsedValue::TransferEncoding(t) => ParsedValueSpec::TransferEncoding(*t),
            HeaderParsedValue::Server(s) => ParsedValueSpec::Server(s@),
            HeaderParsedValue::Date(t) => ParsedValueSpec::Date(*t),
            HeaderParsedValue::Custom(s) => ParsedValueSpec::Custom(s@),
            HeaderParsedValue::Cookie(c) => ParsedValueSpec::Cookie(c@),
            HeaderParsedValue::Raw => ParsedValueSpec::Raw,
        }
    }
}

impl View for Header {
    type V = HeaderSpec;

    open spec fn view(&self) -> HeaderSpec {
        HeaderSpec {
            name: self.name@,
            value: self.value.value@,
            parsed: match self.value.parsed_value {
                Some(p) => Some(p@),
                None => None,
            },
        }
    }
}

// ============= Specifications =============
/// The header name that a (Unicode lower-cased) name text stands for;
/// `original` is the text as written, kept for unknown names.
pub open spec fn spec_header_name(lower: Seq<char>, original: Seq<char>) -> HeaderNameSpec {
    if lower == "content-type"@ {
        HeaderNameSpec::ContentType
    } else if lower == "content-length"@ {
        HeaderNameSpec::ContentLength
    } else if lower == "content-disposition"@ {
        HeaderNameSpec::ContentDisposition
    } else if lower == "transfer-encoding"@ {
        HeaderNameSpec::TransferEncoding
    } else if lower == "connection"@ {
        HeaderNameSpec::Connection
    } else if lower == "date"@ {
        HeaderNameSpec::Date
    } else if lower == "host"@ {
        HeaderNameSpec::Host
    } else if lower == "accept"@ {
        HeaderNameSpec::Accept
    } else if lower == "accept-language"@ {
        HeaderNameSpec::AcceptLanguage
    } else if lower == "accept-encoding"@ {
        HeaderNameSpec::AcceptEncoding
    } else if lower == "server"@ {
        HeaderNameSpec::Server
    } else if lower == "status-code"@ {
        HeaderNameSpec::StatusCode
    } else if lower == "cache-control"@ {
        HeaderNameSpec::CacheControl
    } else if lower == "etag"@ {
        HeaderNameSpec::ETag
    } else if lower == "last-modified"@ {
        HeaderNameSpec::LastModified
    } else if lower == "strict-transport-security"@ {
        HeaderNameSpec::StrictTransportSecurity
    } else if lower == "cookie"@ {
        HeaderNameSpec::Cookie
    } else if lower == "set-cookie"@ {
        HeaderNameSpec::SetCookie
    } else {
        HeaderNameSpec::Custom(original)
    }
}

/// How a text is lower-cased here: ASCII text by its ASCII letters
/// (which is what `str::to_lowercase` does to it), other text by
/// `str::to_lowercase`.
pub open spec fn text_lower(s: Seq<char>) -> Seq<char> {
    if is_ascii_text(s) {
        lower_ascii_text(s)
    } else {
        unicode_lower(s)
    }
}

/// `HeaderName::from_str` of a name text.
pub open spec fn spec_name_from_str(name: Seq<char>) -> HeaderNameSpec {
    spec_header_name(text_lower(name), name)
}

/// The canonical text of a known header name; empty for other names.
pub open spec fn spec_name_as_str(n: HeaderNameSpec) -> Seq<char> {
    match n {
        HeaderNameSpec::ContentType => "Content-Type"@,
        HeaderNameSpec::ContentLength => "Content-Length"@,
        HeaderNameSpec::ContentDisposition => "Content-Disposition"@,
        HeaderNameSpec::TransferEncoding => "Transfer-Encoding"@,
        HeaderNameSpec::Connection => "Connection"@,
        HeaderNameSpec::Cookie => "Cookie"@,
        HeaderNameSpec::SetCookie => "Set-Cookie"@,
        HeaderNameSpec::Date => "Date"@,
        HeaderNameSpec::Host => "Host"@,
        HeaderNameSpec::Accept => "Accept"@,
        HeaderNameSpec::AcceptLanguage => "Accept-Language"@,
        HeaderNameSpec::AcceptEncoding => "Accept-Encoding"@,
        HeaderNameSpec::Server => "Server"@,
        HeaderNameSpec::StatusCode => "Status-Code"@,
        HeaderNameSpec::CacheControl => "Cache-Control"@,
        HeaderNameSpec::ETag => "ETag"@,
        HeaderNameSpec::LastModified => "Last-Modified"@,
        HeaderNameSpec::StrictTransportSecurity => "Strict-Transport-Security"@,
        HeaderNameSpec::Custom(_) => ""@,
    }
}

/// The lower-case text of each known header name.
#[verifier::spinoff_prover]
#[verifier::rlimit(50)]
proof fn lemma_known_name_lower(n: HeaderNameSpec)
    requires
        !(n is Custom),
    ensures
        is_ascii_text(spec_name_as_str(n)),
        spec_header_name(lower_ascii_text(spec_name_as_str(n)), spec_name_as_str(n)) == n,
{
    reveal_strlit("content-type");
    reveal_strlit("content-length");
    reveal_strlit("content-disposition");
    reveal_strlit("transfer-encoding");
    reveal_strlit("connection");
    reveal_strlit("cookie");
    reveal_strlit("set-cookie");
    reveal_strlit("date");
    reveal_strlit("host");
    reveal_strlit("accept");
    reveal_strlit("accept-language");
    reveal_strlit("accept-encoding");
    reveal_strlit("server");
    reveal_strlit("status-code");
    reveal_strlit("cache-control");
    reveal_strlit("etag");
    reveal_strlit("last-modified");
    reveal_strlit("strict-transport-security");
    match n {
        HeaderNameSpec::ContentType => {
            reveal_strlit("Content-Type");
            reveal_strlit("content-type");
            assert(lower_ascii_text("Content-Type"@) =~= "content-type"@);
            assert(spec_header_name("content-type"@, "Content-Type"@) == n);
        },
        HeaderNameSpec::ContentLength => {
            reveal_strlit("Content-Length");
            reveal_strlit("content-length");
            assert(lower_ascii_text("Content-Length"@) =~= "content-length"@);
            assert(spec_header_name("content-length"@, "Content-Length"@) == n);
        },
        HeaderNameSpec::ContentDisposition => {
            reveal_strlit("Content-Disposition");
            reveal_strlit("content-disposition");
            assert(lower_ascii_text("Content-Disposition"@) =~= "content-disposition"@);
            assert(spec_header_name("content-disposition"@, "Content-Disposition"@) == n);
        },
        HeaderNameSpec::TransferEncoding => {
            reveal_strlit("Transfer-Encoding");
            reveal_strlit("transfer-encoding");
            assert(lower_ascii_text("Transfer-Encoding"@) =~= "transfer-encoding"@);
            assert(spec_header_name("transfer-encoding"@, "Transfer-Encoding"@) == n);
        },
        HeaderNameSpec::Connection => {
            reveal_strlit("Connection");
            reveal_strlit("connection");
            assert(lower_ascii_text("Connection"@) =~= "connection"@);
            assert(spec_header_name("connection"@, "Connection"@) == n);
        },
        HeaderNameSpec::Cookie => {
            reveal_strlit("Cookie");
            reveal_strlit("cookie");
            assert(lower_ascii_text("Cookie"@) =~= "cookie"@);
            assert("cookie"@[0] != "accept"@[0]);
            assert("cookie"@[0] != "server"@[0]);
            assert(spec_header_name("cookie"@, "Cookie"@) == n);
        },
        HeaderNameSpec::SetCookie => {
            reveal_strlit("Set-Cookie");
            reveal_strlit("set-cookie");
            assert(lower_ascii_text("Set-Cookie"@) =~= "set-cookie"@);
            assert("set-cookie"@[0] != "connection"@[0]);
            assert(spec_header_name("set-cookie"@, "Set-Cookie"@) == n);
        },
        HeaderNameSpec::Date => {
            reveal_strlit("Date");
            reveal_strlit("date");
            assert(lower_ascii_text("Date"@) =~= "date"@);
            assert(spec_header_name("date"@, "Date"@) == n);
        },
        HeaderNameSpec::Host => {
            reveal_strlit("Host");
            reveal_strlit("host");
            assert(lower_ascii_text("Host"@) =~= "host"@);
            assert("host"@[0] != "date"@[0]);
            assert(spec_header_name("host"@, "Host"@) == n);
        },
        HeaderNameSpec::Accept => {
            reveal_strlit("Accept");
            reveal_strlit("accept");
            assert(lower_ascii_text("Accept"@) =~= "accept"@);
            assert(spec_header_name("accept"@, "Accept"@) == n);
        },
        HeaderNameSpec::AcceptLanguage => {
            reveal_strlit("Accept-Language");
            reveal_strlit("accept-language");
            assert(lower_ascii_text("Accept-Language"@) =~= "accept-language"@);
            assert(spec_header_name("accept-language"@, "Accept-Language"@) == n);
        },
        HeaderNameSpec::AcceptEncoding => {
            reveal_strlit("Accept-Encoding");
            reveal_strlit("accept-encoding");
            assert(lower_ascii_text("Accept-Encoding"@) =~= "accept-encoding"@);
            assert("accept-encoding"@[7] != "accept-language"@[7]);
            assert(spec_header_name("accept-encoding"@, "Accept-Encoding"@) == n);
        },
        HeaderNameSpec::Server => {
            reveal_strlit("Server");
            reveal_strlit("server");
            assert(lower_ascii_text("Server"@) =~= "server"@);
            assert("server"@[0] != "accept"@[0]);
            assert(spec_header_name("server"@, "Server"@) == n);
        },
        HeaderNameSpec::StatusCode => {
            reveal_strlit("Status-Code");
            reveal_strlit("status-code");
            assert(lower_ascii_text("Status-Code"@) =~= "status-code"@);
            assert(spec_header_name("status-code"@, "Status-Code"@) == n);
        },
        HeaderNameSpec::CacheControl => {
            reveal_strlit("Cache-Control");
            reveal_strlit("cache-control");
            assert(lower_ascii_text("Cache-Control"@) =~= "cache-control"@);
            assert(spec_header_name("cache-control"@, "Cache-Control"@) == n);
        },
        HeaderNameSpec::ETag => {
            reveal_strlit("ETag");
            reveal_strlit("etag");
            assert(lower_ascii_text("ETag"@) =~= "etag"@);
            assert("etag"@[0] != "date"@[0]);
            assert("etag"@[0] != "host"@[0]);
            assert(spec_header_name("etag"@, "ETag"@) == n);
        },
        HeaderNameSpec::LastModified => {
            reveal_strlit("Last-Modified");
            reveal_strlit("last-modified");
            assert(lower_ascii_text("Last-Modified"@) =~= "last-modified"@);
            assert("last-modified"@[0] != "cache-control"@[0]);
            assert(spec_header_name("last-modified"@, "Last-Modified"@) == n);
        },
        HeaderNameSpec::StrictTransportSecurity => {
            reveal_strlit("Strict-Transport-Security");
            reveal_strlit("strict-transport-security");
            assert(lower_ascii_text("Strict-Transport-Security"@) =~= "strict-transport-security"@);
            assert(spec_header_name("strict-transport-security"@, "Strict-Transport-Security"@) == n);
        },
        HeaderNameSpec::Custom(_) => {},
    }
}

/// A known header name reads back from its text (`as_str`), and from any
/// ASCII text that differs from it only in the case of its letters.
pub proof fn law_header_name_round_trip(n: HeaderNameSpec, s: Seq<char>)
    requires
        !(n is Custom),
    ensures
        spec_name_from_str(spec_name_as_str(n)) == n,
        is_ascii_text(s) && lower_ascii_text(s) == lower_ascii_text(spec_name_as_str(n)) ==> spec_name_from_str(s) == n,
{
    lemma_known_name_lower(n);
}

/// How a header name is written in a message: the canonical text, or the
/// name itself for other names.
pub open spec fn spec_name_text(n: HeaderNameSpec) -> Seq<char> {
    match n {
        HeaderNameSpec::Custom(s) => s,
        _ => spec_name_as_str(n),
    }
}

/// The content type that a (Unicode lower-cased) MIME text stands for.
pub open spec fn spec_content_type(lower: Seq<char>) -> ContentType {
    if lower == "text/plain"@ {
        ContentType::TextPlain
    } else if lower == "text/html"@ {
        ContentType::TextHtml
    } else if lower == "application/json"@ {
        ContentType::ApplicationJson
    } else if lower == "application/xml"@ {
        ContentType::ApplicationXml
    } else if lower == "application/x-www-form-urlencoded"@ {
        ContentType::ApplicationFormUrlEncoded
    } else if lower == "multipart/form-data"@ {
        ContentType::MultipartFormData
    } else {
        ContentType::Raw
    }
}

/// The parameter name of a `key=value` piece: the text before the first
/// `=`.
pub open spec fn param_key(piece: Seq<char>) -> Seq<char> {
    split(piece, '=')[0]
}

/// The parameter value of a `key=value` piece: the text between the first
/// and the second `=`, or empty when there is no `=`.
pub open spec fn param_value(piece: Seq<char>) -> Seq<char> {
    let parts = split(piece, '=');
    if parts.len() > 1 {
        parts[1]
    } else {
        Seq::empty()
    }
}

/// The parameters of the pieces `ps`, each inserted in turn (a later
/// piece with the same name replaces the value of an earlier one); a
/// value loses the double quotes around it.
pub open spec fn spec_params(ps: Seq<Seq<char>>) -> Seq<(Seq<char>, Seq<char>)>
    decreases ps.len(),
{
    if ps.len() == 0 {
        Seq::empty()
    } else {
        map_insert(spec_params(ps.drop_last()), param_key(ps.last()), trim_char(param_value(ps.last()), '"'))
    }
}

/// The `;`-separated pieces of a header value, each trimmed.
pub open spec fn trimmed_pieces(v: Seq<char>) -> Seq<Seq<char>> {
    split(v, ';').map_values(|p: Seq<char>| trim(p))
}

/// The value understood from a header value, for a header of name `n`;
/// `t` is the clock reading a cookie with an `Expires` attribute gets.
pub open spec fn spec_parsed_value(n: HeaderNameSpec, v: Seq<char>, t: TimeStamp) -> ParsedValueSpec {
    match n {
        HeaderNameSpec::ContentType => ParsedValueSpec::ContentType(
            spec_content_type(text_lower(v)),
        ),
        HeaderNameSpec::ContentLength => match parse_unsigned(v, u64::MAX as nat) {
            Some(k) => ParsedValueSpec::ContentLength(k as u64),
            None => ParsedValueSpec::Raw,
        },
        HeaderNameSpec::TransferEncoding => {
            let l = text_lower(v);
            if l == "chunked"@ {
                ParsedValueSpec::TransferEncoding(TransferEncoding::Chunked)
            } else if l == "compress"@ {
                ParsedValueSpec::TransferEncoding(TransferEncoding::Compress)
            } else if l == "deflate"@ {
                ParsedValueSpec::TransferEncoding(TransferEncoding::Deflate)
            } else if l == "gzip"@ {
                ParsedValueSpec::TransferEncoding(TransferEncoding::Gzip)
            } else if l == "identity"@ {
                ParsedValueSpec::TransferEncoding(TransferEncoding::Identity)
            } else {
                ParsedValueSpec::Raw
            }
        },
        HeaderNameSpec::Connection => {
            let l = text_lower(v);
            if l == "keep-alive"@ {
                ParsedValueSpec::Connection(Connection::KeepAlive)
            } else if l == "close"@ {
                ParsedValueSpec::Connection(Connection::Close)
            } else {
                ParsedValueSpec::Raw
            }
        },
        HeaderNameSpec::Cookie => match spec_cookie_parse(v, t) {
            Some(c) => ParsedValueSpec::Cookie(c),
            None => ParsedValueSpec::Raw,
        },
        HeaderNameSpec::Server => ParsedValueSpec::Server(v),
        HeaderNameSpec::Date => ParsedValueSpec::Raw,
        _ => ParsedValueSpec::Custom(v),
    }
}

/// The default cookie attributes: path `/`, `SameSite=Lax`, nothing else.
pub open spec fn spec_default_options() -> CookieOptionsSpec {
    CookieOptionsSpec {
        http_only: false,
        secure: false,
        max_age: None,
        path: Some("/"@),
        expires: None,
        domain: None,
        same_site: SameSitePolicy::Lax,
    }
}

/// The `SameSite` policy written as a (Unicode lower-cased) value.
pub open spec fn spec_same_site(lower: Seq<char>) -> SameSitePolicy {
    if lower == "strict"@ {
        SameSitePolicy::Strict
    } else if lower == "lax"@ {
        SameSitePolicy::Lax
    } else {
        SameSitePolicy::CrossSite
    }
}

/// The attributes after reading one `key=value` attribute piece; `t` is
/// the clock reading an `Expires` attribute records.
pub open spec fn spec_apply_attribute(o: CookieOptionsSpec, piece: Seq<char>, t: TimeStamp) -> CookieOptionsSpec {
    let key = trim(param_key(piece));
    let value = trim(param_value(piece));
    let k = text_lower(key);
    if k == "httponly"@ {
        CookieOptionsSpec { http_only: true, ..o }
    } else if k == "secure"@ {
        CookieOptionsSpec { secure: true, ..o }
    } else if k == "max-age"@ {
        CookieOptionsSpec {
            max_age: Some(
                match parse_unsigned(value, u64::MAX as nat) {
                    Some(n) => n as u64,
                    None => 0,
                },
            ),
            ..o
        }
    } else if k == "path"@ {
        CookieOptionsSpec { path: Some(value), ..o }
    } else if k == "expires"@ {
        CookieOptionsSpec { expires: Some(t), ..o }
    } else if k == "domain"@ {
        CookieOptionsSpec { domain: Some(value), ..o }
    } else if k == "samesite"@ {
        CookieOptionsSpec { same_site: spec_same_site(text_lower(value)), ..o }
    } else {
        o
    }
}

/// The attributes after reading the attribute pieces `ps` in turn.
pub open spec fn spec_attributes(ps: Seq<Seq<char>>, t: TimeStamp) -> CookieOptionsSpec
    decreases ps.len(),
{
    if ps.len() == 0 {
        spec_default_options()
    } else {
        spec_apply_attribute(spec_attributes(ps.drop_last(), t), ps.last(), t)
    }
}

/// `Cookie::parse`: the name and value before the first `;` (split at
/// `=`, both trimmed; `None` when there is no `=`), then the attributes.
pub open spec fn spec_cookie_parse(s: Seq<char>, t: TimeStamp) -> Option<CookieSpec> {
    let parts = split(s, ';');
    let nv = split(parts[0], '=');
    if nv.len() < 2 {
        None
    } else {
        Some(
            CookieSpec {
                name: trim(nv[0]),
                value: trim(nv[1]),
                options: spec_attributes(parts.skip(1), t),
            },
        )
    }
}

/// The text of the boolean attributes of a cookie.
pub open spec fn spec_flags_text(o: CookieOptionsSpec) -> Seq<char> {
    (if o.http_only {
        "; HttpOnly"@
    } else {
        Seq::empty()
    }) + (if o.secure {
        "; Secure"@
    } else {
        Seq::empty()
    })
}

/// The text of the `Max-Age` and `Path` attributes of a cookie.
pub open spec fn spec_age_path_text(o: CookieOptionsSpec) -> Seq<char> {
    (match o.max_age {
        Some(n) => "; Max-Age="@ + decimal(n as nat),
        None => Seq::empty(),
    }) + (match o.path {
        Some(p) => "; Path="@ + p,
        None => Seq::empty(),
    })
}

/// The text of the `Expires` and `Domain` attributes of a cookie.
pub open spec fn spec_expires_domain_text(o: CookieOptionsSpec) -> Seq<char> {
    (match o.expires {
        Some(t) => "; Expires="@ + time_debug_text(t.secs, t.nanos),
        None => Seq::empty(),
    }) + (match o.domain {
        Some(d) => "; Domain="@ + d,
        None => Seq::empty(),
    })
}

/// The text of the `SameSite` attribute of a cookie.
pub open spec fn spec_same_site_text(p: SameSitePolicy) -> Seq<char> {
    match p {
        SameSitePolicy::Strict => "; SameSite=Strict"@,
        SameSitePolicy::Lax => "; SameSite=Lax"@,
        SameSitePolicy::CrossSite => "; SameSite=None"@,
    }
}

/// The text of a cookie in a `Set-Cookie` header: `name=value`, then
/// `HttpOnly`, `Secure`, `Max-Age`, `Path`, `Expires`, `Domain` where set,
/// and always `SameSite`.
pub open spec fn spec_cookie_text(c: CookieSpec) -> Seq<char> {
    c.name + "="@ + c.value + spec_flags_text(c.options) + spec_age_path_text(c.options)
        + spec_expires_domain_text(c.options) + spec_same_site_text(c.options.same_site)
}

/// Each attribute text is empty or starts with `;`.
proof fn lemma_attribute_texts_start(o: CookieOptionsSpec)
    ensures
        ({
            let tail = spec_flags_text(o) + spec_age_path_text(o) + spec_expires_domain_text(o)
                + spec_same_site_text(o.same_site);
            tail.len() > 0 && tail[0] == ';'
        }),
{
    reveal_strlit("; HttpOnly");
    reveal_strlit("; Secure");
    reveal_strlit("; Max-Age=");
    reveal_strlit("; Path=");
    reveal_strlit("; Expires=");
    reveal_strlit("; Domain=");
    reveal_strlit("; SameSite=Strict");
    reveal_strlit("; SameSite=Lax");
    reveal_strlit("; SameSite=None");
    let f = spec_flags_text(o);
    let a = spec_age_path_text(o);
    let e = spec_expires_domain_text(o);
    let ss = spec_same_site_text(o.same_site);
    assert(ss.len() > 0 && ss[0] == ';');
    assert(f.len() == 0 || f[0] == ';');
    assert(a.len() == 0 || a[0] == ';');
    assert(e.len() == 0 || e[0] == ';');
    assert(((f + a) + e + ss)[0] == ';');
}

/// A cookie written as text (`Cookie::to_string`) reads back (`Cookie::parse`)
/// with its name and value, whatever the clock says, when neither holds `;`
/// or `=` nor has spaces around it.
pub proof fn law_cookie_name_value(c: CookieSpec, t: TimeStamp)
    requires
        forall|j: int| 0 <= j < c.name.len() ==> c.name[j] != ';' && c.name[j] != '=',
        forall|j: int| 0 <= j < c.value.len() ==> c.value[j] != ';' && c.value[j] != '=',
        trim(c.name) == c.name,
        trim(c.value) == c.value,
    ensures
        spec_cookie_parse(spec_cookie_text(c), t) matches Some(p) && p.name == c.name && p.value == c.value,
{
    reveal_strlit("=");
    let o = c.options;
    let nv = c.name + "="@ + c.value;
    let tail = spec_flags_text(o) + spec_age_path_text(o) + spec_expires_domain_text(o)
        + spec_same_site_text(o.same_site);
    lemma_attribute_texts_start(o);
    assert(spec_cookie_text(c) =~= nv + seq![';'] + tail.drop_first());
    assert forall|j: int| 0 <= j < nv.len() implies nv[j] != ';' by {
        if j < c.name.len() {
            assert(nv[j] == c.name[j]);
        } else if j > c.name.len() {
            assert(nv[j] == c.value[j - c.name.len() - 1]);
        }
    }
    lemma_split_first(nv, tail.drop_first(), ';');
    assert(nv =~= c.name + seq!['='] + c.value);
    lemma_split_first(c.name, c.value, '=');
    lemma_split_whole(c.value, '=');
    assert(split(nv, '=') =~= seq![c.name, c.value]);
}

// ============= A cookie's text read back =============
/// Pieces, each written after a `;`.
#[verifier::opaque]
pub open spec fn semi_join(ps: Seq<Seq<char>>) -> Seq<char>
    decreases ps.len(),
{
    if ps.len() == 0 {
        Seq::empty()
    } else {
        semi_join(ps.drop_last()) + seq![';'] + ps.last()
    }
}

/// Whether a text holds no `c`.
pub open spec fn free_of(s: Seq<char>, c: char) -> bool {
    forall|j: int| 0 <= j < s.len() ==> s[j] != c
}

proof fn lemma_split_semi_join(a: Seq<char>, ps: Seq<Seq<char>>)
    requires
        free_of(a, ';'),
        forall|k: int| 0 <= k < ps.len() ==> free_of(#[trigger] ps[k], ';'),
    ensures
        split(a + semi_join(ps), ';') == seq![a] + ps,
    decreases ps.len(),
{
    reveal(semi_join);
    if ps.len() == 0 {
        assert(a + semi_join(ps) =~= a);
        lemma_split_whole(a, ';');
        assert(seq![a] + ps =~= seq![a]);
    } else {
        let q = ps.drop_last();
        assert forall|k: int| 0 <= k < q.len() implies free_of(#[trigger] q[k], ';') by {
            assert(q[k] == ps[k]);
        }
        lemma_split_semi_join(a, q);
        assert(free_of(ps[ps.len() - 1], ';'));
        assert(a + semi_join(ps) =~= (a + semi_join(q)) + seq![';'] + ps.last());
        lemma_split_last(a + semi_join(q), ps.last(), ';');
        assert(seq![a] + ps =~= (seq![a] + q) + seq![ps.last()]);
    }
}

/// A text after one space trims to itself.
pub(crate) proof fn lemma_trim_after_space(w: Seq<char>)
    requires
        w.len() > 0,
        !is_space(w[0]),
        !is_space(w.last()),
    ensures
        trim(seq![' '] + w) == w,
        trim(w) == w,
{
    let s = seq![' '] + w;
    assert(s.drop_first() =~= w);
    assert(trim_start(w) == w);
    assert(trim_start(s) == trim_start(s.drop_first()));
    assert(trim_end(w) == w);
}

/// A flag attribute piece (a space and a key) reads back as its key.
proof fn lemma_flag_piece(key: Seq<char>)
    requires
        key.len() > 0,
        free_of(key, '='),
        !is_space(key[0]),
        !is_space(key.last()),
    ensures
        trim(param_key(seq![' '] + key)) == key,
{
    let s = seq![' '] + key;
    assert(free_of(s, '=')) by {
        assert forall|j: int| 0 <= j < s.len() implies s[j] != '=' by {
            if j > 0 {
                assert(s[j] == key[j - 1]);
            }
        }
    }
    lemma_split_whole(s, '=');
    lemma_trim_after_space(key);
}

/// A valued attribute piece (a space, a key, `=` and a value) reads back
/// as its key and its value.
proof fn lemma_valued_piece(key: Seq<char>, v: Seq<char>)
    requires
        key.len() > 0,
        free_of(key, '='),
        !is_space(key[0]),
        !is_space(key.last()),
        free_of(v, '='),
        trim(v) == v,
    ensures
        trim(param_key(seq![' '] + key + seq!['='] + v)) == key,
        trim(param_value(seq![' '] + key + seq!['='] + v)) == v,
{
    let k = seq![' '] + key;
    assert(free_of(k, '=')) by {
        assert forall|j: int| 0 <= j < k.len() implies k[j] != '=' by {
            if j > 0 {
                assert(k[j] == key[j - 1]);
            }
        }
    }
    lemma_split_first(k, v, '=');
    lemma_split_whole(v, '=');
    assert(split(seq![' '] + key + seq!['='] + v, '=') =~= seq![k, v]);
    lemma_trim_after_space(key);
}

/// The piece of the `SameSite` attribute (after its `;`).
pub open spec fn same_site_piece(p: SameSitePolicy) -> Seq<char> {
    match p {
        SameSitePolicy::Strict => " SameSite=Strict"@,
        SameSitePolicy::Lax => " SameSite=Lax"@,
        SameSitePolicy::CrossSite => " SameSite=None"@,
    }
}

/// A piece when `b` holds, else none.
pub open spec fn piece_if(b: bool, p: Seq<char>) -> Seq<Seq<char>> {
    if b {
        seq![p]
    } else {
        Seq::empty()
    }
}

/// The attribute pieces of a cookie's text without `Expires`, each after
/// its `;`, in the order they are written.
pub open spec fn attribute_pieces(o: CookieOptionsSpec) -> Seq<Seq<char>> {
    piece_if(o.http_only, " HttpOnly"@) + piece_if(o.secure, " Secure"@) + piece_if(
        o.max_age is Some,
        " Max-Age="@ + decimal(o.max_age->0 as nat),
    ) + piece_if(o.path is Some, " Path="@ + o.path->0) + piece_if(o.domain is Some, " Domain="@ + o.domain->0)
        + seq![same_site_piece(o.same_site)]
}

proof fn lemma_semi_join_concat(ps: Seq<Seq<char>>, qs: Seq<Seq<char>>)
    ensures
        semi_join(ps + qs) == semi_join(ps) + semi_join(qs),
    decreases qs.len(),
{
    reveal(semi_join);
    if qs.len() == 0 {
        assert(ps + qs =~= ps);
        assert(semi_join(ps) + semi_join(qs) =~= semi_join(ps));
    } else {
        lemma_semi_join_concat(ps, qs.drop_last());
        assert((ps + qs).drop_last() =~= ps + qs.drop_last());
        assert((ps + qs).last() == qs.last());
        assert(semi_join(ps + qs) =~= semi_join(ps) + semi_join(qs));
    }
}

proof fn lemma_semi_join_piece(b: bool, p: Seq<char>)
    ensures
        semi_join(piece_if(b, p)) == if b {
            seq![';'] + p
        } else {
            Seq::empty()
        },
{
    reveal_with_fuel(semi_join, 2);
    if b {
        assert(seq![p].drop_last() =~= Seq::<Seq<char>>::empty());
        assert(seq![p].last() == p);
        assert(semi_join(Seq::<Seq<char>>::empty()) == Seq::<char>::empty());
        assert(semi_join(seq![p]) =~= seq![';'] + p);
    }
}

/// Each attribute text is `;` then its piece.
proof fn lemma_attribute_literals()
    ensures
        "; HttpOnly"@ == seq![';'] + " HttpOnly"@,
        "; Secure"@ == seq![';'] + " Secure"@,
        "; Max-Age="@ == seq![';'] + " Max-Age="@,
        "; Path="@ == seq![';'] + " Path="@,
        "; Domain="@ == seq![';'] + " Domain="@,
        "; SameSite=Strict"@ == seq![';'] + " SameSite=Strict"@,
        "; SameSite=Lax"@ == seq![';'] + " SameSite=Lax"@,
        "; SameSite=None"@ == seq![';'] + " SameSite=None"@,
{
    reveal_strlit("; HttpOnly");
    reveal_strlit(" HttpOnly");
    assert("; HttpOnly"@ =~= seq![';'] + " HttpOnly"@);
    reveal_strlit("; Secure");
    reveal_strlit(" Secure");
    assert("; Secure"@ =~= seq![';'] + " Secure"@);
    reveal_strlit("; Max-Age=");
    reveal_strlit(" Max-Age=");
    assert("; Max-Age="@ =~= seq![';'] + " Max-Age="@);
    reveal_strlit("; Path=");
    reveal_strlit(" Path=");
    assert("; Path="@ =~= seq![';'] + " Path="@);
    reveal_strlit("; Domain=");
    reveal_strlit(" Domain=");
    assert("; Domain="@ =~= seq![';'] + " Domain="@);
    reveal_strlit("; SameSite=Strict");
    reveal_strlit(" SameSite=Strict");
    assert("; SameSite=Strict"@ =~= seq![';'] + " SameSite=Strict"@);
    reveal_strlit("; SameSite=Lax");
    reveal_strlit(" SameSite=Lax");
    assert("; SameSite=Lax"@ =~= seq![';'] + " SameSite=Lax"@);
    reveal_strlit("; SameSite=None");
    reveal_strlit(" SameSite=None");
    assert("; SameSite=None"@ =~= seq![';'] + " SameSite=None"@);
}

/// The attributes of a cookie without `Expires` are written as its
/// attribute pieces.
#[verifier::spinoff_prover]
proof fn lemma_attribute_text(o: CookieOptionsSpec)
    requires
        o.expires is None,
    ensures
        spec_flags_text(o) + spec_age_path_text(o) + spec_expires_domain_text(o) + spec_same_site_text(o.same_site)
            == semi_join(attribute_pieces(o)),
{
    lemma_attribute_literals();
    let p1 = piece_if(o.http_only, " HttpOnly"@);
    let p2 = piece_if(o.secure, " Secure"@);
    let p3 = piece_if(o.max_age is Some, " Max-Age="@ + decimal(o.max_age->0 as nat));
    let p4 = piece_if(o.path is Some, " Path="@ + o.path->0);
    let p5 = piece_if(o.domain is Some, " Domain="@ + o.domain->0);
    let p6 = seq![same_site_piece(o.same_site)];
    lemma_semi_join_piece(o.http_only, " HttpOnly"@);
    lemma_semi_join_piece(o.secure, " Secure"@);
    lemma_semi_join_piece(o.max_age is Some, " Max-Age="@ + decimal(o.max_age->0 as nat));
    lemma_semi_join_piece(o.path is Some, " Path="@ + o.path->0);
    lemma_semi_join_piece(o.domain is Some, " Domain="@ + o.domain->0);
    lemma_semi_join_piece(true, same_site_piece(o.same_site));
    lemma_semi_join_concat(p1, p2);
    lemma_semi_join_concat(p1 + p2, p3);
    lemma_semi_join_concat(p1 + p2 + p3, p4);
    lemma_semi_join_concat(p1 + p2 + p3 + p4, p5);
    lemma_semi_join_concat(p1 + p2 + p3 + p4 + p5, p6);
    assert(spec_flags_text(o) == semi_join(p1) + semi_join(p2));
    assert(spec_age_path_text(o) == semi_join(p3) + semi_join(p4));
    assert(spec_expires_domain_text(o) =~= semi_join(p5));
    assert(spec_same_site_text(o.same_site) == semi_join(p6));
    assert(spec_flags_text(o) + spec_age_path_text(o) + spec_expires_domain_text(o) + spec_same_site_text(o.same_site)
        =~= semi_join(p1) + semi_join(p2) + semi_join(p3) + semi_join(p4) + semi_join(p5) + semi_join(p6));
}

proof fn lemma_word_httponly()
    ensures
        "HttpOnly"@.len() > 0,
        free_of("HttpOnly"@, '='),
        free_of("HttpOnly"@, ';'),
        !is_space("HttpOnly"@[0]),
        !is_space("HttpOnly"@.last()),
        text_lower("HttpOnly"@) == "httponly"@,
{
    reveal_strlit("HttpOnly");
    reveal_strlit("httponly");
    assert(lower_ascii_text("HttpOnly"@) =~= "httponly"@);
}

proof fn lemma_word_secure()
    ensures
        "Secure"@.len() > 0,
        free_of("Secure"@, '='),
        free_of("Secure"@, ';'),
        !is_space("Secure"@[0]),
        !is_space("Secure"@.last()),
        text_lower("Secure"@) == "secure"@,
{
    reveal_strlit("Secure");
    reveal_strlit("secure");
    assert(lower_ascii_text("Secure"@) =~= "secure"@);
}

proof fn lemma_word_max_age()
    ensures
        "Max-Age"@.len() > 0,
        free_of("Max-Age"@, '='),
        free_of("Max-Age"@, ';'),
        !is_space("Max-Age"@[0]),
        !is_space("Max-Age"@.last()),
        text_lower("Max-Age"@) == "max-age"@,
{
    reveal_strlit("Max-Age");
    reveal_strlit("max-age");
    assert(lower_ascii_text("Max-Age"@) =~= "max-age"@);
}

proof fn lemma_word_path()
    ensures
        "Path"@.len() > 0,
        free_of("Path"@, '='),
        free_of("Path"@, ';'),
        !is_space("Path"@[0]),
        !is_space("Path"@.last()),
        text_lower("Path"@) == "path"@,
{
    reveal_strlit("Path");
    reveal_strlit("path");
    assert(lower_ascii_text("Path"@) =~= "path"@);
}

proof fn lemma_word_domain()
    ensures
        "Domain"@.len() > 0,
        free_of("Domain"@, '='),
        free_of("Domain"@, ';'),
        !is_space("Domain"@[0]),
        !is_space("Domain"@.last()),
        text_lower("Domain"@) == "domain"@,
{
    reveal_strlit("Domain");
    reveal_strlit("domain");
    assert(lower_ascii_text("Domain"@) =~= "domain"@);
}

proof fn lemma_word_samesite()
    ensures
        "SameSite"@.len() > 0,
        free_of("SameSite"@, '='),
        free_of("SameSite"@, ';'),
        !is_space("SameSite"@[0]),
        !is_space("SameSite"@.last()),
        text_lower("SameSite"@) == "samesite"@,
{
    reveal_strlit("SameSite");
    reveal_strlit("samesite");
    assert(lower_ascii_text("SameSite"@) =~= "samesite"@);
}

proof fn lemma_word_value_strict()
    ensures
        "Strict"@.len() > 0,
        free_of("Strict"@, '='),
        free_of("Strict"@, ';'),
        !is_space("Strict"@[0]),
        !is_space("Strict"@.last()),
        text_lower("Strict"@) == "strict"@,
{
    reveal_strlit("Strict");
    reveal_strlit("strict");
    assert(lower_ascii_text("Strict"@) =~= "strict"@);
}

proof fn lemma_word_value_lax()
    ensures
        "Lax"@.len() > 0,
        free_of("Lax"@, '='),
        free_of("Lax"@, ';'),
        !is_space("Lax"@[0]),
        !is_space("Lax"@.last()),
        text_lower("Lax"@) == "lax"@,
{
    reveal_strlit("Lax");
    reveal_strlit("lax");
    assert(lower_ascii_text("Lax"@) =~= "lax"@);
}

proof fn lemma_word_value_none()
    ensures
        "None"@.len() > 0,
        free_of("None"@, '='),
        free_of("None"@, ';'),
        !is_space("None"@[0]),
        !is_space("None"@.last()),
        text_lower("None"@) == "none"@,
{
    reveal_strlit("None");
    reveal_strlit("none");
    assert(lower_ascii_text("None"@) =~= "none"@);
}

/// The attribute pieces as a space, a word and (for a valued one) `=`.
proof fn lemma_piece_literals()
    ensures
        " HttpOnly"@ == seq![' '] + "HttpOnly"@,
        " Secure"@ == seq![' '] + "Secure"@,
        " Max-Age="@ == seq![' '] + "Max-Age"@ + seq!['='],
        " Path="@ == seq![' '] + "Path"@ + seq!['='],
        " Domain="@ == seq![' '] + "Domain"@ + seq!['='],
        " SameSite=Strict"@ == seq![' '] + "SameSite"@ + seq!['='] + "Strict"@,
        " SameSite=Lax"@ == seq![' '] + "SameSite"@ + seq!['='] + "Lax"@,
        " SameSite=None"@ == seq![' '] + "SameSite"@ + seq!['='] + "None"@,
{
    reveal_strlit(" HttpOnly");
    reveal_strlit("HttpOnly");
    reveal_strlit(" Secure");
    reveal_strlit("Secure");
    reveal_strlit(" Max-Age=");
    reveal_strlit("Max-Age");
    reveal_strlit(" Path=");
    reveal_strlit("Path");
    reveal_strlit(" Domain=");
    reveal_strlit("Domain");
    reveal_strlit(" SameSite=Strict");
    reveal_strlit(" SameSite=Lax");
    reveal_strlit(" SameSite=None");
    reveal_strlit("SameSite");
    reveal_strlit("Strict");
    reveal_strlit("Lax");
    reveal_strlit("None");
    assert(" HttpOnly"@ =~= seq![' '] + "HttpOnly"@);
    assert(" Secure"@ =~= seq![' '] + "Secure"@);
    assert(" Max-Age="@ =~= seq![' '] + "Max-Age"@ + seq!['=']);
    assert(" Path="@ =~= seq![' '] + "Path"@ + seq!['=']);
    assert(" Domain="@ =~= seq![' '] + "Domain"@ + seq!['=']);
    assert(" SameSite=Strict"@ =~= seq![' '] + "SameSite"@ + seq!['='] + "Strict"@);
    assert(" SameSite=Lax"@ =~= seq![' '] + "SameSite"@ + seq!['='] + "Lax"@);
    assert(" SameSite=None"@ =~= seq![' '] + "SameSite"@ + seq!['='] + "None"@);
}

/// A text fit to stand as an attribute value: no `;` nor `=`, and no
/// white space around it.
pub open spec fn plain_value(v: Seq<char>) -> bool {
    free_of(v, ';') && free_of(v, '=') && trim(v) == v
}

proof fn lemma_apply_flags(o: CookieOptionsSpec, t: TimeStamp)
    ensures
        spec_apply_attribute(o, " HttpOnly"@, t) == (CookieOptionsSpec { http_only: true, ..o }),
        spec_apply_attribute(o, " Secure"@, t) == (CookieOptionsSpec { secure: true, ..o }),
{
    reveal_strlit("httponly");
    reveal_strlit("secure");
    reveal_strlit("max-age");
    reveal_strlit("path");
    reveal_strlit("expires");
    reveal_strlit("domain");
    reveal_strlit("samesite");
    reveal_strlit("strict");
    reveal_strlit("lax");
    reveal_strlit("none");
    lemma_piece_literals();
    lemma_word_httponly();
    lemma_word_secure();
    lemma_flag_piece("HttpOnly"@);
    lemma_flag_piece("Secure"@);
    assert(trim(param_key(" Secure"@)) == "Secure"@);
    assert(text_lower("Secure"@) == "secure"@);
    assert("secure"@ != "httponly"@);
}

proof fn lemma_apply_max_age(o: CookieOptionsSpec, n: u64, t: TimeStamp)
    ensures
        spec_apply_attribute(o, " Max-Age="@ + decimal(n as nat), t) == (CookieOptionsSpec { max_age: Some(n), ..o }),
{
    reveal_strlit("httponly");
    reveal_strlit("secure");
    reveal_strlit("max-age");
    reveal_strlit("path");
    reveal_strlit("expires");
    reveal_strlit("domain");
    reveal_strlit("samesite");
    reveal_strlit("strict");
    reveal_strlit("lax");
    reveal_strlit("none");
    lemma_piece_literals();
    lemma_word_httponly();
    lemma_word_secure();
    lemma_word_max_age();
    let d = decimal(n as nat);
    lemma_decimal_digits(n as nat);
    assert(free_of(d, '=')) by {
        assert forall|j: int| 0 <= j < d.len() implies d[j] != '=' by {
            assert(is_digit(d[j]));
        }
    }
    assert(is_digit(d[0]) && is_digit(d.last()));
    lemma_trim_after_space(d);
    lemma_valued_piece("Max-Age"@, d);
    let piece = " Max-Age="@ + d;
    assert(piece =~= seq![' '] + "Max-Age"@ + seq!['='] + d);
    assert(trim(param_key(piece)) == "Max-Age"@);
    assert(trim(param_value(piece)) == d);
    assert(text_lower("Max-Age"@) == "max-age"@);
    assert("max-age"@.len() == 7 && "httponly"@.len() == 8 && "secure"@.len() == 6);
    assert(d[0] != '+');
    assert(parse_unsigned(d, u64::MAX as nat) == Some(n as nat));
}

proof fn lemma_apply_path_domain(o: CookieOptionsSpec, v: Seq<char>, t: TimeStamp)
    requires
        plain_value(v),
    ensures
        spec_apply_attribute(o, " Path="@ + v, t) == (CookieOptionsSpec { path: Some(v), ..o }),
        spec_apply_attribute(o, " Domain="@ + v, t) == (CookieOptionsSpec { domain: Some(v), ..o }),
{
    reveal_strlit("httponly");
    reveal_strlit("secure");
    reveal_strlit("max-age");
    reveal_strlit("path");
    reveal_strlit("expires");
    reveal_strlit("domain");
    reveal_strlit("samesite");
    reveal_strlit("strict");
    reveal_strlit("lax");
    reveal_strlit("none");
    lemma_piece_literals();
    lemma_word_httponly();
    lemma_word_secure();
    lemma_word_max_age();
    lemma_word_path();
    lemma_word_domain();
    reveal_strlit("expires");
    lemma_valued_piece("Path"@, v);
    lemma_valued_piece("Domain"@, v);
    let pp = " Path="@ + v;
    let dp = " Domain="@ + v;
    assert(pp =~= seq![' '] + "Path"@ + seq!['='] + v);
    assert(dp =~= seq![' '] + "Domain"@ + seq!['='] + v);
    assert(trim(param_key(pp)) == "Path"@);
    assert(trim(param_value(pp)) == v);
    assert(trim(param_key(dp)) == "Domain"@);
    assert(trim(param_value(dp)) == v);
    assert(text_lower("Path"@) == "path"@);
    assert(text_lower("Domain"@) == "domain"@);
    assert("path"@.len() == 4 && "httponly"@.len() == 8 && "secure"@.len() == 6 && "max-age"@.len() == 7);
    assert("domain"@.len() == 6 && "expires"@.len() == 7);
    assert("domain"@[0] != "secure"@[0]);
    assert("domain"@ != "httponly"@ && "domain"@ != "secure"@ && "domain"@ != "max-age"@);
    assert("domain"@ != "path"@ && "domain"@ != "expires"@);
}

proof fn lemma_apply_same_site(o: CookieOptionsSpec, p: SameSitePolicy, t: TimeStamp)
    ensures
        spec_apply_attribute(o, same_site_piece(p), t) == (CookieOptionsSpec { same_site: p, ..o }),
{
    reveal_strlit("httponly");
    reveal_strlit("secure");
    reveal_strlit("max-age");
    reveal_strlit("path");
    reveal_strlit("expires");
    reveal_strlit("domain");
    reveal_strlit("samesite");
    reveal_strlit("strict");
    reveal_strlit("lax");
    reveal_strlit("none");
    lemma_piece_literals();
    lemma_word_httponly();
    lemma_word_secure();
    lemma_word_max_age();
    lemma_word_path();
    lemma_word_domain();
    lemma_word_samesite();
    lemma_word_value_strict();
    lemma_word_value_lax();
    lemma_word_value_none();
    reveal_strlit("expires");
    assert("samesite"@[0] != "httponly"@[0]);
    lemma_trim_after_space("Strict"@);
    lemma_trim_after_space("Lax"@);
    lemma_trim_after_space("None"@);
    lemma_valued_piece("SameSite"@, "Strict"@);
    lemma_valued_piece("SameSite"@, "Lax"@);
    lemma_valued_piece("SameSite"@, "None"@);
    let x = same_site_piece(p);
    let v = match p {
        SameSitePolicy::Strict => "Strict"@,
        SameSitePolicy::Lax => "Lax"@,
        SameSitePolicy::CrossSite => "None"@,
    };
    assert(x == seq![' '] + "SameSite"@ + seq!['='] + v);
    assert(trim(param_key(x)) == "SameSite"@);
    assert(trim(param_value(x)) == v);
    assert(text_lower("SameSite"@) == "samesite"@);
    assert("samesite"@.len() == 8 && "httponly"@.len() == 8 && "secure"@.len() == 6 && "max-age"@.len() == 7);
    assert("path"@.len() == 4 && "domain"@.len() == 6 && "expires"@.len() == 7);
    assert("samesite"@[0] != "httponly"@[0]);
    assert("none"@[0] != "lax"@[0]);
    assert("none"@ != "strict"@ && "none"@ != "lax"@);
    assert("lax"@ != "strict"@);
    assert(spec_same_site(text_lower(v)) == p);
}

proof fn lemma_attributes_piece(ps: Seq<Seq<char>>, b: bool, x: Seq<char>, t: TimeStamp)
    ensures
        spec_attributes(ps + piece_if(b, x), t) == if b {
            spec_apply_attribute(spec_attributes(ps, t), x, t)
        } else {
            spec_attributes(ps, t)
        },
{
    if b {
        assert((ps + seq![x]).drop_last() =~= ps);
        assert((ps + seq![x]).last() == x);
    } else {
        assert(ps + piece_if(b, x) =~= ps);
    }
}

proof fn lemma_free_join(a: Seq<char>, b: Seq<char>, c: char)
    requires
        free_of(a, c),
        free_of(b, c),
    ensures
        free_of(a + b, c),
{
    assert forall|j: int| 0 <= j < (a + b).len() implies (a + b)[j] != c by {
        if j >= a.len() {
            assert((a + b)[j] == b[j - a.len()]);
        }
    }
}

/// Every piece in the list holds no `;`.
pub open spec fn pieces_free(ps: Seq<Seq<char>>) -> bool {
    forall|k: int| 0 <= k < ps.len() ==> free_of(#[trigger] ps[k], ';')
}

proof fn lemma_pieces_free_join(a: Seq<Seq<char>>, b: Seq<Seq<char>>)
    requires
        pieces_free(a),
        pieces_free(b),
    ensures
        pieces_free(a + b),
{
    assert forall|k: int| 0 <= k < (a + b).len() implies free_of(#[trigger] (a + b)[k], ';') by {
        if k >= a.len() {
            assert((a + b)[k] == b[k - a.len()]);
        } else {
            assert((a + b)[k] == a[k]);
        }
    }
}

proof fn lemma_pieces_free(o: CookieOptionsSpec)
    requires
        o.path matches Some(p) ==> free_of(p, ';'),
        o.domain matches Some(d) ==> free_of(d, ';'),
    ensures
        pieces_free(attribute_pieces(o)),
{
    lemma_piece_literals();
    lemma_word_httponly();
    lemma_word_secure();
    lemma_word_max_age();
    lemma_word_path();
    lemma_word_domain();
    lemma_word_samesite();
    lemma_word_value_strict();
    lemma_word_value_lax();
    lemma_word_value_none();
    let sp = seq![' '];
    let eq = seq!['='];
    lemma_free_join(sp, "HttpOnly"@, ';');
    lemma_free_join(sp, "Secure"@, ';');
    lemma_free_join(sp, "Max-Age"@, ';');
    lemma_free_join(sp + "Max-Age"@, eq, ';');
    lemma_free_join(sp, "Path"@, ';');
    lemma_free_join(sp + "Path"@, eq, ';');
    lemma_free_join(sp, "Domain"@, ';');
    lemma_free_join(sp + "Domain"@, eq, ';');
    lemma_free_join(sp, "SameSite"@, ';');
    lemma_free_join(sp + "SameSite"@, eq, ';');
    lemma_free_join(sp + "SameSite"@ + eq, "Strict"@, ';');
    lemma_free_join(sp + "SameSite"@ + eq, "Lax"@, ';');
    lemma_free_join(sp + "SameSite"@ + eq, "None"@, ';');
    let d = decimal(o.max_age->0 as nat);
    lemma_decimal_digits(o.max_age->0 as nat);
    assert(free_of(d, ';')) by {
        assert forall|j: int| 0 <= j < d.len() implies d[j] != ';' by {
            assert(is_digit(d[j]));
        }
    }
    lemma_free_join(" Max-Age="@, d, ';');
    if let Some(p) = o.path {
        lemma_free_join(" Path="@, p, ';');
    }
    if let Some(x) = o.domain {
        lemma_free_join(" Domain="@, x, ';');
    }
    let p1 = piece_if(o.http_only, " HttpOnly"@);
    let p2 = piece_if(o.secure, " Secure"@);
    let p3 = piece_if(o.max_age is Some, " Max-Age="@ + d);
    let p4 = piece_if(o.path is Some, " Path="@ + o.path->0);
    let p5 = piece_if(o.domain is Some, " Domain="@ + o.domain->0);
    let p6 = seq![same_site_piece(o.same_site)];
    assert(pieces_free(p4));
    assert(pieces_free(p5));
    assert(pieces_free(p6));
    lemma_pieces_free_join(p1, p2);
    lemma_pieces_free_join(p1 + p2, p3);
    lemma_pieces_free_join(p1 + p2 + p3, p4);
    lemma_pieces_free_join(p1 + p2 + p3 + p4, p5);
    lemma_pieces_free_join(p1 + p2 + p3 + p4 + p5, p6);
}

/// A cookie's text (`Cookie::to_string`) reads back (`Cookie::parse`) as
/// the same cookie, whatever the clock says, when it has a path and no
/// `Expires`, and its name, value, path and domain hold no `;` or `=` and
/// have no white space around them.
#[verifier::spinoff_prover]
#[verifier::rlimit(60)]
pub proof fn law_cookie_text_round_trip(c: CookieSpec, t: TimeStamp)
    requires
        plain_value(c.name),
        plain_value(c.value),
        c.options.expires is None,
        c.options.path matches Some(p) && plain_value(p),
        c.options.domain matches Some(d) ==> plain_value(d),
    ensures
        spec_cookie_parse(spec_cookie_text(c), t) == Some(c),
{
    let o = c.options;
    law_cookie_name_value(c, t);
    reveal_strlit("=");
    lemma_attribute_text(o);
    let nv = c.name + "="@ + c.value;
    let ps = attribute_pieces(o);
    assert(spec_cookie_text(c) =~= nv + semi_join(ps));
    assert(free_of(nv, ';')) by {
        assert forall|j: int| 0 <= j < nv.len() implies nv[j] != ';' by {
            if j < c.name.len() {
                assert(nv[j] == c.name[j]);
            } else if j > c.name.len() {
                assert(nv[j] == c.value[j - c.name.len() - 1]);
            }
        }
    }
    lemma_decimal_digits(o.max_age->0 as nat);
    lemma_piece_literals();
    lemma_word_httponly();
    lemma_word_secure();
    lemma_word_max_age();
    lemma_word_path();
    lemma_word_domain();
    lemma_word_samesite();
    lemma_word_value_strict();
    lemma_word_value_lax();
    lemma_word_value_none();
    lemma_pieces_free(o);
    lemma_split_semi_join(nv, ps);
    assert(split(spec_cookie_text(c), ';').skip(1) =~= ps);
    let p1 = piece_if(o.http_only, " HttpOnly"@);
    let p2 = piece_if(o.secure, " Secure"@);
    let p3 = piece_if(o.max_age is Some, " Max-Age="@ + decimal(o.max_age->0 as nat));
    let p4 = piece_if(o.path is Some, " Path="@ + o.path->0);
    let p5 = piece_if(o.domain is Some, " Domain="@ + o.domain->0);
    let e0 = Seq::<Seq<char>>::empty();
    let d0 = spec_default_options();
    assert(e0 + p1 =~= p1);
    lemma_attributes_piece(e0, o.http_only, " HttpOnly"@, t);
    lemma_apply_flags(d0, t);
    let o1 = CookieOptionsSpec { http_only: o.http_only, ..d0 };
    assert(spec_attributes(p1, t) == o1);
    lemma_attributes_piece(p1, o.secure, " Secure"@, t);
    lemma_apply_flags(o1, t);
    let o2 = CookieOptionsSpec { secure: o.secure, ..o1 };
    assert(spec_attributes(p1 + p2, t) == o2);
    lemma_attributes_piece(p1 + p2, o.max_age is Some, " Max-Age="@ + decimal(o.max_age->0 as nat), t);
    lemma_apply_max_age(o2, o.max_age->0, t);
    let o3 = CookieOptionsSpec { max_age: o.max_age, ..o2 };
    assert(spec_attributes(p1 + p2 + p3, t) == o3);
    lemma_attributes_piece(p1 + p2 + p3, true, " Path="@ + o.path->0, t);
    lemma_apply_path_domain(o3, o.path->0, t);
    let o4 = CookieOptionsSpec { path: o.path, ..o3 };
    assert(spec_attributes(p1 + p2 + p3 + p4, t) == o4);
    lemma_attributes_piece(p1 + p2 + p3 + p4, o.domain is Some, " Domain="@ + o.domain->0, t);
    if let Some(d) = o.domain {
        lemma_apply_path_domain(o4, d, t);
    }
    let o5 = CookieOptionsSpec { domain: o.domain, ..o4 };
    assert(spec_attributes(p1 + p2 + p3 + p4 + p5, t) == o5);
    lemma_attributes_piece(p1 + p2 + p3 + p4 + p5, true, same_site_piece(o.same_site), t);
    lemma_apply_same_site(o5, o.same_site, t);
    assert(ps == p1 + p2 + p3 + p4 + p5 + piece_if(true, same_site_piece(o.same_site)));
    assert(spec_attributes(ps, t) == o);
}

/// Every recorded time is a valid clock reading.
pub open spec fn options_times_valid(o: CookieOptionsSpec) -> bool {
    o.expires matches Some(t) ==> t.nanos < 1_000_000_000 && t.secs <= i64::MAX
}

// ============= Copies =============
fn copy_opt_string(o: &Option<String>) -> (r: Option<String>)
    ensures
        opt_text(r) == opt_text(*o),
{
    match o {
        Some(s) => Some(s.clone()),
        None => None,
    }
}

impl Clone for CookieOptions {
    fn clone(&self) -> (r: Self)
        ensures
            r@ == self@,
    {
        CookieOptions {
            http_only: self.http_only,
            secure: self.secure,
            max_age: self.max_age,
            path: copy_opt_string(&self.path),
            expires: self.expires,
            domain: copy_opt_string(&self.domain),
            same_site: self.same_site,
        }
    }
}

impl Clone for Cookie {
    fn clone(&self) -> (r: Self)
        ensures
            r@ == self@,
    {
        Cookie { name: self.name.clone(), value: self.value.clone(), options: self.options.clone() }
    }
}

impl Clone for HeaderName {
    fn clone(&self) -> (r: Self)
        ensures
            r@ == self@,
    {
        match self {
            HeaderName::ContentType => HeaderName::ContentType,
            HeaderName::ContentLength => HeaderName::ContentLength,
            HeaderName::ContentDisposition => HeaderName::ContentDisposition,
            HeaderName::Connection => HeaderName::Connection,
            HeaderName::TransferEncoding => HeaderName::TransferEncoding,
            HeaderName::Cookie => HeaderName::Cookie,
            HeaderName::SetCookie => HeaderName::SetCookie,
            HeaderName::CacheControl => HeaderName::CacheControl,
            HeaderName::Date => HeaderName::Date,
            HeaderName::Host => HeaderName::Host,
            HeaderName::Accept => HeaderName::Accept,
            HeaderName::AcceptLanguage => HeaderName::AcceptLanguage,
            HeaderName::AcceptEncoding => HeaderName::AcceptEncoding,
            HeaderName::Server => HeaderName::Server,
            HeaderName::StatusCode => HeaderName::StatusCode,
            HeaderName::ETag => HeaderName::ETag,
            HeaderName::LastModified => HeaderName::LastModified,
            HeaderName::StrictTransportSecurity => HeaderName::StrictTransportSecurity,
            HeaderName::Custom(s) => HeaderName::Custom(s.clone()),
        }
    }
}

impl Clone for HeaderParsedValue {
    fn clone(&self) -> (r: Self)
        ensures
            r@ == self@,
    {
        match self {
            HeaderParsedValue::ContentType(c) => HeaderParsedValue::ContentType(*c),
            HeaderParsedValue::ContentLength(n) => HeaderParsedValue::ContentLength(*n),
            HeaderParsedValue::Connection(c) => HeaderParsedValue::Connection(*c),
            HeaderParsedValue::TransferEncoding(t) => HeaderParsedValue::TransferEncoding(*t),
            HeaderParsedValue::Server(s) => HeaderParsedValue::Server(s.clone()),
            HeaderParsedValue::Date(t) => HeaderParsedValue::Date(*t),
            HeaderParsedValue::Custom(s) => HeaderParsedValue::Custom(s.clone()),
            HeaderParsedValue::Cookie(c) => HeaderParsedValue::Cookie(c.clone()),
            HeaderParsedValue::Raw => HeaderParsedValue::Raw,
        }
    }
}

impl Clone for HeaderValue {
    fn clone(&self) -> (r: Self)
        ensures
            r.value@ == self.value@,
            match (r.parsed_value, self.parsed_value) {
                (Some(a), Some(b)) => a@ == b@,
                (None, None) => true,
                _ => false,
            },
    {
        HeaderValue {
            value: self.value.clone(),
            parsed_value: match &self.parsed_value {
                Some(p) => Some(p.clone()),
                None => None,
            },
        }
    }
}

impl Clone for Header {
    fn clone(&self) -> (r: Self)
        ensures
            r@ == self@,
    {
        Header { name: self.name.clone(), value: self.value.clone() }
    }
}

// ============= Helpers =============
/// Whether the characters `l` are the text of `lit`.
fn is_text(l: &[char], lit: &str) -> (r: bool)
    ensures
        r == (l@ == lit@),
{
    let c = chars_of(lit);
    chars_eq(l, &c)
}

/// The Unicode lower-cased characters of `s`.
pub(crate) fn lower_chars(s: &str) -> (r: Vec<char>)
    ensures
        r@ == text_lower(s@),
{
    let v = chars_of(s);
    let mut i: usize = 0;
    while i < v.len()
        invariant
            i <= v@.len(),
            v@ == s@,
            forall|j: int| 0 <= j < i ==> is_ascii_char(#[trigger] v@[j]),
        decreases v@.len() - i,
    {
        if (v[i] as u32) >= 128 {
            let l = to_lowercase(s);
            return chars_of(l.as_str());
        }
        i = i + 1;
    }
    lower_ascii(&v)
}

/// Trimmed `;`-separated pieces of `v`.
fn pieces_trimmed(v: &[char]) -> (r: Vec<Vec<char>>)
    ensures
        views(r@) == trimmed_pieces(v@),
        r@.len() >= 1,
{
    let parts = split_on(v, ';');
    let mut r: Vec<Vec<char>> = Vec::new();
    let mut i: usize = 0;
    while i < parts.len()
        invariant
            i <= parts@.len(),
            views(parts@) == split(v@, ';'),
            views(r@) == trimmed_pieces(v@).take(i as int),
        decreases parts@.len() - i,
    {
        let t = trim_chars(&parts[i]);
        proof {
            assert(views(parts@)[i as int] == parts@[i as int]@);
            assert(views(r@.push(t)) =~= views(r@).push(t@));
            assert(trimmed_pieces(v@).take(i + 1) =~= trimmed_pieces(v@).take(i as int).push(
                trim(split(v@, ';')[i as int]),
            ));
        }
        r.push(t);
        i = i + 1;
    }
    assert(trimmed_pieces(v@).take(i as int) =~= trimmed_pieces(v@));
    r
}

/// The name and value of a `key=value` piece.
fn param_of(piece: &[char]) -> (r: (Vec<char>, Vec<char>))
    ensures
        r.0@ == param_key(piece@),
        r.1@ == param_value(piece@),
{
    let parts = split_on(piece, '=');
    assert(views(parts@)[0] == parts@[0]@);
    let key = slice_chars(&parts[0], 0, parts[0].len());
    assert(key@ =~= parts@[0]@);
    let value = if parts.len() > 1 {
        assert(views(parts@)[1] == parts@[1]@);
        let v = slice_chars(&parts[1], 0, parts[1].len());
        assert(v@ =~= parts@[1]@);
        v
    } else {
        Vec::new()
    };
    assert(parts.len() <= 1 ==> value@ =~= Seq::<char>::empty());
    (key, value)
}

/// The parameters of the pieces `ps[from..]`, inserted in turn.
fn params_from(ps: &Vec<Vec<char>>, from: usize) -> (r: StrMap<String>)
    requires
        from <= ps@.len(),
    ensures
        r@ == spec_params(views(ps@).skip(from as int)),
        r.wf(),
{
    let mut params: StrMap<String> = StrMap::new();
    let mut i = from;
    assert(views(ps@).skip(from as int).take(0) =~= Seq::<Seq<char>>::empty());
    while i < ps.len()
        invariant
            from <= i <= ps@.len(),
            params@ == spec_params(views(ps@).skip(from as int).take(i - from)),
            params.wf(),
        decreases ps@.len() - i,
    {
        let (k, v) = param_of(&ps[i]);
        let ks = string_of(&k);
        let uq = trim_matching(&v, '"');
        let vs = string_of(&uq);
        proof {
            let q = views(ps@).skip(from as int).take(i + 1 - from);
            assert(q.drop_last() =~= views(ps@).skip(from as int).take(i - from));
            assert(q.last() == ps@[i as int]@);
        }
        params.insert(ks, vs);
        i = i + 1;
    }
    assert(views(ps@).skip(from as int).take(i - from) =~= views(ps@).skip(from as int));
    params
}

// ============= Header =============
impl Header {
    pub fn new(name: HeaderName, value: HeaderValue) -> (r: Header)
        ensures
            r@ == (Header { name, value })@,
    {
        Header { name, value }
    }

    /// The `Content-Type` header for a MIME type.
    pub fn from_mime(mime: &str) -> (r: Header)
        ensures
            r@ == (HeaderSpec {
                name: HeaderNameSpec::ContentType,
                value: mime@,
                parsed: Some(
                    ParsedValueSpec::ContentType(spec_content_type(text_lower(mime@))),
                ),
            }),
    {
        Header {
            name: HeaderName::ContentType,
            value: HeaderValue {
                value: owned(mime),
                parsed_value: Some(HeaderParsedValue::ContentType(ContentType::from_str(mime))),
            },
        }
    }

    /// A header from its name and value text; the value is understood
    /// according to the name. A `Cookie` value with an `Expires` attribute
    /// records the clock reading at the time of the call.
    pub fn from_str(name: &str, value: &str) -> (r: Header)
        ensures
            exists|t: TimeStamp|
                #![trigger spec_parsed_value(spec_name_from_str(name@), value@, t)]
                r@ == (HeaderSpec {
                    name: spec_name_from_str(name@),
                    value: value@,
                    parsed: Some(spec_parsed_value(spec_name_from_str(name@), value@, t)),
                }),
    {
        let header_name = HeaderName::from_str(name);
        let parsed = HeaderParsedValue::from_str(&header_name, value);
        Header::new(header_name, HeaderValue { value: owned(value), parsed_value: Some(parsed) })
    }

    /// The header line as written in a message: `name: value`.
    pub fn to_text(&self) -> (r: String)
        ensures
            r@ == spec_name_text(self.name@) + ": "@ + self.value.value@,
    {
        let mut v = chars_of(self.name.to_text().as_str());
        push_str(&mut v, ": ");
        push_str(&mut v, self.value.value.as_str());
        string_of(&v)
    }
}

// ============= HeaderName =============
impl HeaderName {
    /// The header name written `name`, compared without regard to case.
    pub fn from_str(name: &str) -> (r: Self)
        ensures
            r@ == spec_name_from_str(name@),
    {
        let l = lower_chars(name);
        if is_text(&l, "content-type") {
            HeaderName::ContentType
        } else if is_text(&l, "content-length") {
            HeaderName::ContentLength
        } else if is_text(&l, "content-disposition") {
            HeaderName::ContentDisposition
        } else if is_text(&l, "transfer-encoding") {
            HeaderName::TransferEncoding
        } else if is_text(&l, "connection") {
            HeaderName::Connection
        } else if is_text(&l, "date") {
            HeaderName::Date
        } else if is_text(&l, "host") {
            HeaderName::Host
        } else if is_text(&l, "accept") {
            HeaderName::Accept
        } else if is_text(&l, "accept-language") {
            HeaderName::AcceptLanguage
        } else if is_text(&l, "accept-encoding") {
            HeaderName::AcceptEncoding
        } else if is_text(&l, "server") {
            HeaderName::Server
        } else if is_text(&l, "status-code") {
            HeaderName::StatusCode
        } else if is_text(&l, "cache-control") {
            HeaderName::CacheControl
        } else if is_text(&l, "etag") {
            HeaderName::ETag
        } else if is_text(&l, "last-modified") {
            HeaderName::LastModified
        } else if is_text(&l, "strict-transport-security") {
            HeaderName::StrictTransportSecurity
        } else if is_text(&l, "cookie") {
            HeaderName::Cookie
        } else if is_text(&l, "set-cookie") {
            HeaderName::SetCookie
        } else {
            HeaderName::Custom(owned(name))
        }
    }

    /// The canonical text of a known name; empty for other names.
    pub fn as_str(&self) -> (r: &'static str)
        ensures
            r@ == spec_name_as_str(self@),
    {
        match self {
            HeaderName::ContentType => "Content-Type",
            HeaderName::ContentLength => "Content-Length",
            HeaderName::ContentDisposition => "Content-Disposition",
            HeaderName::TransferEncoding => "Transfer-Encoding",
            HeaderName::Connection => "Connection",
            HeaderName::Cookie => "Cookie",
            HeaderName::SetCookie => "Set-Cookie",
            HeaderName::Date => "Date",
            HeaderName::Host => "Host",
            HeaderName::Accept => "Accept",
            HeaderName::AcceptLanguage => "Accept-Language",
            HeaderName::AcceptEncoding => "Accept-Encoding",
            HeaderName::Server => "Server",
            HeaderName::StatusCode => "Status-Code",
            HeaderName::CacheControl => "Cache-Control",
            HeaderName::ETag => "ETag",
            HeaderName::LastModified => "Last-Modified",
            HeaderName::StrictTransportSecurity => "Strict-Transport-Security",
            HeaderName::Custom(_) => "",
        }
    }

    /// The name as written in a message (what `Display` prints).
    pub fn to_text(&self) -> (r: String)
        ensures
            r@ == spec_name_text(self@),
    {
        match self {
            HeaderName::Custom(name) => name.clone(),
            _ => owned(self.as_str()),
        }
    }

    /// Whether two names are the same name.
    pub fn same(&self, other: &HeaderName) -> (r: bool)
        ensures
            r == (self@ == other@),
    {
        match (self, other) {
            (HeaderName::Custom(a), HeaderName::Custom(b)) => *a == *b,
            (HeaderName::Custom(_), _) => false,
            (_, HeaderName::Custom(_)) => false,
            _ => self.rank() == other.rank(),
        }
    }

    /// A number telling the known names apart.
    pub open spec fn spec_rank(self) -> u8 {
        match self {
            HeaderName::ContentType => 0,
            HeaderName::ContentLength => 1,
            HeaderName::ContentDisposition => 2,
            HeaderName::Connection => 3,
            HeaderName::TransferEncoding => 4,
            HeaderName::Cookie => 5,
            HeaderName::SetCookie => 6,
            HeaderName::CacheControl => 7,
            HeaderName::Date => 8,
            HeaderName::Host => 9,
            HeaderName::Accept => 10,
            HeaderName::AcceptLanguage => 11,
            HeaderName::AcceptEncoding => 12,
            HeaderName::Server => 13,
            HeaderName::StatusCode => 14,
            HeaderName::ETag => 15,
            HeaderName::LastModified => 16,
            HeaderName::StrictTransportSecurity => 17,
            HeaderName::Custom(_) => 18,
        }
    }

    fn rank(&self) -> (r: u8)
        ensures
            r == self.spec_rank(),
    {
        match self {
            HeaderName::ContentType => 0,
            HeaderName::ContentLength => 1,
            HeaderName::ContentDisposition => 2,
            HeaderName::Connection => 3,
            HeaderName::TransferEncoding => 4,
            HeaderName::Cookie => 5,
            HeaderName::SetCookie => 6,
            HeaderName::CacheControl => 7,
            HeaderName::Date => 8,
            HeaderName::Host => 9,
            HeaderName::Accept => 10,
            HeaderName::AcceptLanguage => 11,
            HeaderName::AcceptEncoding => 12,
            HeaderName::Server => 13,
            HeaderName::StatusCode => 14,
            HeaderName::ETag => 15,
            HeaderName::LastModified => 16,
            HeaderName::StrictTransportSecurity => 17,
            HeaderName::Custom(_) => 18,
        }
    }
}

// ============= ContentType =============
impl ContentType {
    /// The content type named by a MIME text, compared without regard to
    /// case; `Raw` for any other text.
    pub fn from_str(value: &str) -> (r: Self)
        ensures
            r == spec_content_type(text_lower(value@)),
    {
        let l = lower_chars(value);
        if is_text(&l, "text/plain") {
            ContentType::TextPlain
        } else if is_text(&l, "text/html") {
            ContentType::TextHtml
        } else if is_text(&l, "application/json") {
            ContentType::ApplicationJson
        } else if is_text(&l, "application/xml") {
            ContentType::ApplicationXml
        } else if is_text(&l, "application/x-www-form-urlencoded") {
            ContentType::ApplicationFormUrlEncoded
        } else if is_text(&l, "multipart/form-data") {
            ContentType::MultipartFormData
        } else {
            ContentType::Raw
        }
    }

    /// Splits a `Content-Type` header into the MIME type (the trimmed text
    /// before the first `;`) and its `name=value` parameters; `None` for a
    /// header of another name.
    pub fn parse_content_type(header: &Header) -> (r: Option<ParsedContentType>)
        ensures
            r is Some <==> header.name@ == HeaderNameSpec::ContentType,
            r matches Some(p) ==> p.mime@ == trimmed_pieces(header.value.value@)[0] && p.params@
                == spec_params(trimmed_pieces(header.value.value@).skip(1)) && p.params.wf(),
    {
        if !header.name.same(&HeaderName::ContentType) {
            return None;
        }
        let v = chars_of(header.value.value.as_str());
        let parts = pieces_trimmed(&v);
        assert(views(parts@)[0] == parts@[0]@);
        let mime = string_of(&parts[0]);
        let params = params_from(&parts, 1);
        Some(ParsedContentType { mime, params })
    }
}

// ============= Content-Disposition =============
impl ParsedContentDisposition {
    /// Splits a `Content-Disposition` header into the disposition and its
    /// `name=value` parameters; `None` for a header of another name.
    pub fn parse_content_disposition(header: &Header) -> (r: Option<ParsedContentDisposition>)
        ensures
            r is Some <==> header.name@ == HeaderNameSpec::ContentDisposition,
            r matches Some(p) ==> p.disposition@ == trimmed_pieces(header.value.value@)[0]
                && p.params@ == spec_params(trimmed_pieces(header.value.value@).skip(1))
                && p.params.wf(),
    {
        if !header.name.same(&HeaderName::ContentDisposition) {
            return None;
        }
        let v = chars_of(header.value.value.as_str());
        let parts = pieces_trimmed(&v);
        assert(views(parts@)[0] == parts@[0]@);
        let disposition = string_of(&parts[0]);
        let params = params_from(&parts, 1);
        Some(ParsedContentDisposition { disposition, params })
    }
}

// ============= HeaderParsedValue =============
impl HeaderParsedValue {
    /// What the value text of a header named `header_name` is understood
    /// as.
    pub fn from_str(header_name: &HeaderName, value: &str) -> (r: Self)
        ensures
            exists|t: TimeStamp|
                #![trigger spec_parsed_value(header_name@, value@, t)]
                r@ == spec_parsed_value(header_name@, value@, t),
    {
        let ghost t0 = TimeStamp { secs: 0, nanos: 0 };
        match header_name {
            HeaderName::ContentType => {
                let r = HeaderParsedValue::ContentType(ContentType::from_str(value));
                assert(r@ == spec_parsed_value(header_name@, value@, t0));
                r
            },
            HeaderName::ContentLength => {
                let v = chars_of(value);
                let r = match parse_unsigned_chars(&v, u64::MAX) {
                    Some(length) => HeaderParsedValue::ContentLength(length),
                    None => HeaderParsedValue::Raw,
                };
                assert(r@ == spec_parsed_value(header_name@, value@, t0));
                r
            },
            HeaderName::TransferEncoding => {
                let l = lower_chars(value);
                let r = if is_text(&l, "chunked") {
                    HeaderParsedValue::TransferEncoding(TransferEncoding::Chunked)
                } else if is_text(&l, "compress") {
                    HeaderParsedValue::TransferEncoding(TransferEncoding::Compress)
                } else if is_text(&l, "deflate") {
                    HeaderParsedValue::TransferEncoding(TransferEncoding::Deflate)
                } else if is_text(&l, "gzip") {
                    HeaderParsedValue::TransferEncoding(TransferEncoding::Gzip)
                } else if is_text(&l, "identity") {
                    HeaderParsedValue::TransferEncoding(TransferEncoding::Identity)
                } else {
                    HeaderParsedValue::Raw
                };
                assert(r@ == spec_parsed_value(header_name@, value@, t0));
                r
            },
            HeaderName::Connection => {
                let l = lower_chars(value);
                let r = if is_text(&l, "keep-alive") {
                    HeaderParsedValue::Connection(Connection::KeepAlive)
                } else if is_text(&l, "close") {
                    HeaderParsedValue::Connection(Connection::Close)
                } else {
                    HeaderParsedValue::Raw
                };
                assert(r@ == spec_parsed_value(header_name@, value@, t0));
                r
            },
            HeaderName::Cookie => {
                let t = now();
                let c = Cookie::parse_at(value, t);
                match c {
                    Some(cookie) => {
                        let r = HeaderParsedValue::Cookie(cookie);
                        assert(r@ == spec_parsed_value(header_name@, value@, t));
                        r
                    },
                    None => {
                        let r = HeaderParsedValue::Raw;
                        assert(r@ == spec_parsed_value(header_name@, value@, t));
                        r
                    },
                }
            },
            HeaderName::Server => {
                let r = HeaderParsedValue::Server(owned(value));
                assert(r@ == spec_parsed_value(header_name@, value@, t0));
                r
            },
            HeaderName::Date => {
                let r = HeaderParsedValue::Raw;
                assert(r@ == spec_parsed_value(header_name@, value@, t0));
                r
            },
            _ => {
                let r = HeaderParsedValue::Custom(owned(value));
                assert(r@ == spec_parsed_value(header_name@, value@, t0));
                r
            },
        }
    }
}

// ============= Cookie =============
impl CookieOptions {
    /// Whether the recorded times are valid clock readings.
    pub open spec fn times_valid(&self) -> bool {
        options_times_valid(self@)
    }
}

impl Default for CookieOptions {
    /// Path `/`, `SameSite=Lax`, no other attribute.
    fn default() -> (r: Self)
        ensures
            r@ == spec_default_options(),
    {
        CookieOptions {
            http_only: false,
            secure: false,
            max_age: None,
            path: Some(owned("/")),
            expires: None,
            domain: None,
            same_site: SameSitePolicy::Lax,
        }
    }
}

impl Cookie {
    /// A cookie with the default attributes.
    pub fn new(name: &str, value: &str) -> (r: Cookie)
        ensures
            r@ == (CookieSpec { name: name@, value: value@, options: spec_default_options() }),
    {
        Cookie { name: owned(name), value: owned(value), options: CookieOptions::default() }
    }

    pub fn with_options(name: &str, value: &str, options: CookieOptions) -> (r: Cookie)
        ensures
            r@ == (CookieSpec { name: name@, value: value@, options: options@ }),
    {
        Cookie { name: owned(name), value: owned(value), options }
    }

    /// Reads a cookie header value at the clock's reading (see `parse_at`).
    pub fn parse(cookie_str: &str) -> (r: Option<Cookie>)
        ensures
            exists|t: TimeStamp|
                #![trigger spec_cookie_parse(cookie_str@, t)]
                t.nanos < 1_000_000_000 && match spec_cookie_parse(cookie_str@, t) {
                    Some(c) => r matches Some(x) && x@ == c,
                    None => r is None,
                },
    {
        let t = now();
        Cookie::parse_at(cookie_str, t)
    }

    /// Reads a cookie header value: `name=value` then `;`-separated
    /// attributes; `None` when the first piece holds no `=`. An `Expires`
    /// attribute records `now`.
    pub fn parse_at(cookie_str: &str, now: TimeStamp) -> (r: Option<Cookie>)
        ensures
            match spec_cookie_parse(cookie_str@, now) {
                Some(c) => r matches Some(x) && x@ == c,
                None => r is None,
            },
    {
        let s = chars_of(cookie_str);
        let parts = split_on(&s, ';');
        assert(views(parts@)[0] == parts@[0]@);
        let nv = split_on(&parts[0], '=');
        if nv.len() < 2 {
            return None;
        }
        assert(views(nv@)[0] == nv@[0]@);
        assert(views(nv@)[1] == nv@[1]@);
        let name = trim_chars(&nv[0]);
        let value = trim_chars(&nv[1]);
        let mut options = CookieOptions::default();
        let mut i: usize = 1;
        assert(views(parts@).skip(1).take(0) =~= Seq::<Seq<char>>::empty());
        while i < parts.len()
            invariant
                1 <= i <= parts@.len(),
                views(parts@) == split(s@, ';'),
                s@ == cookie_str@,
                options@ == spec_attributes(views(parts@).skip(1).take(i - 1), now),
            decreases parts@.len() - i,
        {
            let ghost before = options@;
            let (k, v) = param_of(&parts[i]);
            let key = trim_chars(&k);
            let value = trim_chars(&v);
            let ks = string_of(&key);
            let kl = lower_chars(ks.as_str());
            if is_text(&kl, "httponly") {
                options.http_only = true;
            } else if is_text(&kl, "secure") {
                options.secure = true;
            } else if is_text(&kl, "max-age") {
                options.max_age = Some(
                    match parse_unsigned_chars(&value, u64::MAX) {
                        Some(n) => n,
                        None => 0,
                    },
                );
            } else if is_text(&kl, "path") {
                options.path = Some(string_of(&value));
            } else if is_text(&kl, "expires") {
                options.expires = Some(now);
            } else if is_text(&kl, "domain") {
                options.domain = Some(string_of(&value));
            } else if is_text(&kl, "samesite") {
                let vs = string_of(&value);
                let vl = lower_chars(vs.as_str());
                options.same_site = if is_text(&vl, "strict") {
                    SameSitePolicy::Strict
                } else if is_text(&vl, "lax") {
                    SameSitePolicy::Lax
                } else {
                    SameSitePolicy::CrossSite
                };
            }
            proof {
                let q = views(parts@).skip(1).take(i as int);
                assert(q.drop_last() =~= views(parts@).skip(1).take(i - 1));
                assert(q.last() == parts@[i as int]@);
            }
            i = i + 1;
        }
        assert(views(parts@).skip(1).take(i - 1) =~= views(parts@).skip(1));
        Some(Cookie { name: string_of(&name), value: string_of(&value), options })
    }

    /// The cookie as written in a `Set-Cookie` header.
    pub fn to_string(&self) -> (r: String)
        requires
            self.options.times_valid(),
        ensures
            r@ == spec_cookie_text(self@),
    {
        let mut s = chars_of(self.name.as_str());
        push_str(&mut s, "=");
        push_str(&mut s, self.value.as_str());
        let a = flags_text(&self.options);
        push_all(&mut s, &a);
        let b = age_path_text(&self.options);
        push_all(&mut s, &b);
        let c = expires_domain_text(&self.options);
        push_all(&mut s, &c);
        let d = same_site_text(self.options.same_site);
        push_all(&mut s, &d);
        string_of(&s)
    }
}

fn flags_text(o: &CookieOptions) -> (r: Vec<char>)
    ensures
        r@ == spec_flags_text(o@),
{
    let mut s: Vec<char> = Vec::new();
    if o.http_only {
        push_str(&mut s, "; HttpOnly");
    }
    let ghost a = s@;
    if o.secure {
        push_str(&mut s, "; Secure");
    }
    assert(s@ =~= spec_flags_text(o@));
    s
}

fn age_path_text(o: &CookieOptions) -> (r: Vec<char>)
    ensures
        r@ == spec_age_path_text(o@),
{
    let mut s: Vec<char> = Vec::new();
    if let Some(max_age) = o.max_age {
        push_str(&mut s, "; Max-Age=");
        let d = decimal_chars(max_age);
        push_all(&mut s, &d);
    }
    if let Some(path) = &o.path {
        push_str(&mut s, "; Path=");
        push_str(&mut s, path.as_str());
    }
    assert(s@ =~= spec_age_path_text(o@));
    s
}

fn expires_domain_text(o: &CookieOptions) -> (r: Vec<char>)
    requires
        o.times_valid(),
    ensures
        r@ == spec_expires_domain_text(o@),
{
    let mut s: Vec<char> = Vec::new();
    if let Some(expires) = &o.expires {
        push_str(&mut s, "; Expires=");
        let e = time_debug(expires);
        push_str(&mut s, e.as_str());
    }
    if let Some(domain) = &o.domain {
        push_str(&mut s, "; Domain=");
        push_str(&mut s, domain.as_str());
    }
    assert(s@ =~= spec_expires_domain_text(o@));
    s
}

fn same_site_text(p: SameSitePolicy) -> (r: Vec<char>)
    ensures
        r@ == spec_same_site_text(p),
{
    let mut s: Vec<char> = Vec::new();
    match p {
        SameSitePolicy::Strict => push_str(&mut s, "; SameSite=Strict"),
        SameSitePolicy::Lax => push_str(&mut s, "; SameSite=Lax"),
        SameSitePolicy::CrossSite => push_str(&mut s, "; SameSite=None"),
    }
    assert(s@ =~= spec_same_site_text(p));
    s
}

} // verus!
